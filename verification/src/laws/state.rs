//! What the gateway keeps, seen through its lookups.

use vstd::prelude::*;

use crate::error::ErrorData;
use crate::service::{ListResourceTemplatesResult, LoggingLevel, McpService};
use crate::session::{ConnectedSession, InitializeResult};
use crate::transport::{
    BackendTransportKey, BackendTransportService, ServiceHolder, SessionId, TransportTable,
};

verus! {

/// The text of a session is its identifier.
pub proof fn law_sessions_are_told_by_identifier(session: SessionId, text: &str)
    requires
        call_ensures(SessionId::value, (&session,), text),
    ensures
        text@ == session.session_id@,
{
}

/// Two keys are the same exactly if they are for the same backend and the same
/// session, however they were made.
pub proof fn law_keys_tell_backends_and_sessions_apart(
    backend: &str,
    session: &str,
    key: BackendTransportKey,
    other_backend: &String,
    other_session: &SessionId,
    other: BackendTransportKey,
)
    requires
        call_ensures(
            <BackendTransportKey as From<(&str, &str)>>::from,
            ((backend, session),),
            key,
        ),
        call_ensures(
            <BackendTransportKey as From<(&String, &SessionId)>>::from,
            ((other_backend, other_session),),
            other,
        ),
    ensures
        key@ == other@ <==> backend@ == other_backend@ && session@ == other_session.session_id@,
        key@ == (backend@, session@),
        other@ == (other_backend@, other_session.session_id@),
{
}

/// A holder has the name and the connection that it was made with.
pub proof fn law_holders_keep_their_parts<S>(
    name: String,
    running_service: Option<S>,
    holder: ServiceHolder<S>,
)
    requires
        call_ensures(ServiceHolder::<S>::new, (name, running_service), holder),
    ensures
        holder.name@ == name@,
        holder.running_service == running_service,
{
}

/// What is kept of a backend has the parts that it was made of.
pub proof fn law_transports_keep_their_parts<S, C>(
    capabilities: Option<C>,
    service: Option<S>,
    transport: BackendTransportService<S, C>,
)
    requires
        call_ensures(
            <BackendTransportService<S, C> as From<(Option<C>, Option<S>)>>::from,
            ((capabilities, service),),
            transport,
        ),
    ensures
        transport.capabilities == capabilities,
        transport.service == service,
{
}

/// Nothing is found in a new table.
pub proof fn law_new_tables_are_empty<S, C>(
    table: TransportTable<S, C>,
    key: BackendTransportKey,
    found: Option<&BackendTransportService<S, C>>,
)
    requires
        call_ensures(TransportTable::<S, C>::new, (), table),
        call_ensures(TransportTable::<S, C>::get, (&table, &key), found),
    ensures
        found is None,
{
}

/// After an insertion, what was inserted is found for its backend and session,
/// and for all others what was found before.
pub proof fn law_inserted_connections_are_found<S, C>(
    table: &mut TransportTable<S, C>,
    backend: &str,
    session: &str,
    key: BackendTransportKey,
    service: BackendTransportService<S, C>,
    asked_backend: &str,
    asked_session: &str,
    asked: BackendTransportKey,
    before: Option<&BackendTransportService<S, C>>,
    after: Option<&BackendTransportService<S, C>>,
)
    requires
        call_ensures(
            <BackendTransportKey as From<(&str, &str)>>::from,
            ((backend, session),),
            key,
        ),
        call_ensures(
            <BackendTransportKey as From<(&str, &str)>>::from,
            ((asked_backend, asked_session),),
            asked,
        ),
        call_ensures(TransportTable::<S, C>::insert, (table, key, service), ()),
        call_ensures(TransportTable::<S, C>::get, (&*old(table), &asked), before),
        call_ensures(TransportTable::<S, C>::get, (&*final(table), &asked), after),
    ensures
        if asked_backend@ == backend@ && asked_session@ == session@ {
            after == Some(&service)
        } else {
            after == before
        },
{
}

/// What is removed is what was found, and it is not found any more; for all
/// other backends and sessions the same is found as before.
pub proof fn law_removed_connections_are_gone<S, C>(
    table: &mut TransportTable<S, C>,
    backend: &str,
    session: &str,
    key: BackendTransportKey,
    gone: Option<BackendTransportService<S, C>>,
    asked_backend: &str,
    asked_session: &str,
    asked: BackendTransportKey,
    before: Option<&BackendTransportService<S, C>>,
    after: Option<&BackendTransportService<S, C>>,
)
    requires
        call_ensures(
            <BackendTransportKey as From<(&str, &str)>>::from,
            ((backend, session),),
            key,
        ),
        call_ensures(
            <BackendTransportKey as From<(&str, &str)>>::from,
            ((asked_backend, asked_session),),
            asked,
        ),
        call_ensures(TransportTable::<S, C>::remove, (table, &key), gone),
        call_ensures(TransportTable::<S, C>::get, (&*old(table), &asked), before),
        call_ensures(TransportTable::<S, C>::get, (&*final(table), &asked), after),
    ensures
        if asked_backend@ == backend@ && asked_session@ == session@ {
            &&& after is None
            &&& match before {
                Some(service) => gone == Some(*service),
                None => gone is None,
            }
        } else {
            after == before
        },
{
}

/// When a session is stored in a table, what was kept last under a backend's
/// name is found for the backend and the session, and for all others what was
/// found before.
pub proof fn law_stored_sessions_are_found<M, S, C>(
    connected: ConnectedSession<M, S, C>,
    table: &mut TransportTable<S, C>,
    result: InitializeResult,
    backend: &str,
    session: &str,
    key: BackendTransportKey,
    before: Option<&BackendTransportService<S, C>>,
    after: Option<&BackendTransportService<S, C>>,
    i: int,
)
    requires
        call_ensures(ConnectedSession::<M, S, C>::stored, (connected, table), result),
        call_ensures(
            <BackendTransportKey as From<(&str, &str)>>::from,
            ((backend, session),),
            key,
        ),
        call_ensures(TransportTable::<S, C>::get, (&*old(table), &key), before),
        call_ensures(TransportTable::<S, C>::get, (&*final(table), &key), after),
        -1 <= i < connected.transports@.len(),
        i >= 0 ==> connected.transports@[i].0@ == backend@,
        forall|j: int|
            i < j < connected.transports@.len() ==> (#[trigger] connected.transports@[j]).0@
                != backend@,
    ensures
        if session@ == connected.session.session_id@ && i >= 0 {
            after == Some(&connected.transports@[i].1)
        } else {
            after == before
        },
        result.capabilities.experimental is None,
        result.capabilities.extensions is None,
        result.capabilities.logging == Some(0usize),
        result.capabilities.completions is None,
        result.capabilities.prompts matches Some(prompts) && prompts.list_changed is None,
        result.capabilities.resources matches Some(resources) && resources.subscribe is None
            && resources.list_changed is None,
        result.capabilities.tools matches Some(tools) && tools.list_changed is None,
        !result.capabilities.tasks,
        result.protocol_version@ == "2025-11-25"@,
        result.server_name@ == "rust-conformance-server"@,
        result.server_version@ == "0.1.0"@,
        result.instructions matches Some(text) && text@ == "Rust MCP conformance test server"@,
{
    if session@ == connected.session.session_id@ && i >= 0 {
        crate::session::law_registered_connections_are_found(
            old(table)@,
            connected.session.session_id@,
            connected.transports@,
            i,
        );
    } else {
        if i < 0 {
            assert forall|j: int| 0 <= j < connected.transports@.len() implies (
            #[trigger] connected.transports@[j]).0@ != backend@ by {}
        }
        crate::session::law_other_connections_stay(
            old(table)@,
            connected.session.session_id@,
            connected.transports@,
            backend@,
            session@,
        );
    }
}

/// A new gateway has no connections and no subscriptions, and logs everything.
pub proof fn law_new_gateways_are_empty<S, C>(
    gateway: McpService<S, C>,
    key: BackendTransportKey,
    found: Option<&BackendTransportService<S, C>>,
    uri: &str,
    subscribed: bool,
    level: LoggingLevel,
)
    requires
        call_ensures(McpService::<S, C>::new, (), gateway),
        call_ensures(McpService::<S, C>::transport, (&gateway, &key), found),
        call_ensures(McpService::<S, C>::is_subscribed, (&gateway, uri), subscribed),
        call_ensures(McpService::<S, C>::log_level, (&gateway,), level),
    ensures
        found is None,
        !subscribed,
        level is Debug,
{
}

/// A gateway answers that it is there.
pub proof fn law_pings_are_answered<S, C>(
    gateway: McpService<S, C>,
    answer: Result<(), ErrorData>,
)
    requires
        call_ensures(McpService::<S, C>::ping, (&gateway,), answer),
    ensures
        answer is Ok,
{
}

/// Removing a connection from a gateway hands it out; it is not found any more,
/// and for all other backends and sessions the same is found as before.
pub proof fn law_gateways_forget_removed_connections<S, C>(
    gateway: &mut McpService<S, C>,
    backend: &str,
    session: &str,
    key: BackendTransportKey,
    gone: Option<BackendTransportService<S, C>>,
    asked_backend: &str,
    asked_session: &str,
    asked: BackendTransportKey,
    before: Option<&BackendTransportService<S, C>>,
    after: Option<&BackendTransportService<S, C>>,
)
    requires
        call_ensures(
            <BackendTransportKey as From<(&str, &str)>>::from,
            ((backend, session),),
            key,
        ),
        call_ensures(
            <BackendTransportKey as From<(&str, &str)>>::from,
            ((asked_backend, asked_session),),
            asked,
        ),
        call_ensures(McpService::<S, C>::remove, (gateway, &key), gone),
        call_ensures(McpService::<S, C>::transport, (&*old(gateway), &asked), before),
        call_ensures(McpService::<S, C>::transport, (&*final(gateway), &asked), after),
    ensures
        if asked_backend@ == backend@ && asked_session@ == session@ {
            &&& after is None
            &&& match before {
                Some(service) => gone == Some(*service),
                None => gone is None,
            }
        } else {
            after == before
        },
{
}

/// Subscribing succeeds. The resource is then subscribed to, and every other
/// exactly if it was before.
pub proof fn law_subscriptions_are_kept<S, C>(
    gateway: &mut McpService<S, C>,
    uri: &str,
    answer: Result<(), ErrorData>,
    asked: &str,
    before: bool,
    after: bool,
)
    requires
        call_ensures(McpService::<S, C>::subscribe, (gateway, uri), answer),
        call_ensures(McpService::<S, C>::is_subscribed, (&*old(gateway), asked), before),
        call_ensures(McpService::<S, C>::is_subscribed, (&*final(gateway), asked), after),
    ensures
        answer is Ok,
        after == (asked@ == uri@ || before),
{
}

/// Unsubscribing succeeds. The resource is then not subscribed to, and every
/// other exactly if it was before.
pub proof fn law_subscriptions_are_ended<S, C>(
    gateway: &mut McpService<S, C>,
    uri: &str,
    answer: Result<(), ErrorData>,
    asked: &str,
    before: bool,
    after: bool,
)
    requires
        call_ensures(McpService::<S, C>::unsubscribe, (gateway, uri), answer),
        call_ensures(McpService::<S, C>::is_subscribed, (&*old(gateway), asked), before),
        call_ensures(McpService::<S, C>::is_subscribed, (&*final(gateway), asked), after),
    ensures
        answer is Ok,
        after == (asked@ != uri@ && before),
{
}

/// The logging level is the one that was set.
pub proof fn law_levels_are_kept<S, C>(
    gateway: &mut McpService<S, C>,
    level: LoggingLevel,
    answer: Result<(), ErrorData>,
    after: LoggingLevel,
)
    requires
        call_ensures(McpService::<S, C>::set_level, (gateway, level), answer),
        call_ensures(McpService::<S, C>::log_level, (&*final(gateway),), after),
    ensures
        answer is Ok,
        after == level,
{
}

/// No operation changes more than it is for. Subscribing, unsubscribing and setting the level touch no connection; only
/// setting the level touches the level; only subscribing and unsubscribing
/// touch the subscriptions.
pub proof fn law_operations_touch_nothing_else<M, S, C>(
    gateway: &mut McpService<S, C>,
    uri: &str,
    level: LoggingLevel,
    connected: ConnectedSession<M, S, C>,
    removed: BackendTransportKey,
    answer: Result<(), ErrorData>,
    result: InitializeResult,
    gone: Option<BackendTransportService<S, C>>,
    key: BackendTransportKey,
    connection_before: Option<&BackendTransportService<S, C>>,
    connection_after: Option<&BackendTransportService<S, C>>,
    asked: &str,
    subscribed_before: bool,
    subscribed_after: bool,
    level_before: LoggingLevel,
    level_after: LoggingLevel,
)
    requires
        call_ensures(McpService::<S, C>::transport, (&*old(gateway), &key), connection_before),
        call_ensures(McpService::<S, C>::transport, (&*final(gateway), &key), connection_after),
        call_ensures(McpService::<S, C>::is_subscribed, (&*old(gateway), asked), subscribed_before),
        call_ensures(McpService::<S, C>::is_subscribed, (&*final(gateway), asked), subscribed_after),
        call_ensures(McpService::<S, C>::log_level, (&*old(gateway),), level_before),
        call_ensures(McpService::<S, C>::log_level, (&*final(gateway),), level_after),
    ensures
        call_ensures(McpService::<S, C>::subscribe, (gateway, uri), answer) ==> connection_after
            == connection_before && level_after == level_before,
        call_ensures(McpService::<S, C>::unsubscribe, (gateway, uri), answer) ==> connection_after
            == connection_before && level_after == level_before,
        call_ensures(McpService::<S, C>::set_level, (gateway, level), answer) ==> connection_after
            == connection_before && subscribed_after == subscribed_before,
        call_ensures(McpService::<S, C>::remove, (gateway, &removed), gone) ==> subscribed_after
            == subscribed_before && level_after == level_before,
        call_ensures(McpService::<S, C>::session_stored::<M>, (gateway, connected), result)
            ==> subscribed_after == subscribed_before && level_after == level_before,
{
}

/// The gateway itself offers one resource template, on one page.
pub proof fn law_one_template_is_offered<S, C>(
    gateway: McpService<S, C>,
    answer: Result<ListResourceTemplatesResult, ErrorData>,
)
    requires
        call_ensures(McpService::<S, C>::list_resource_templates, (&gateway,), answer),
    ensures
        answer matches Ok(result) && {
            let template = result.resource_templates@[0];
            &&& result.meta is None
            &&& result.next_cursor is None
            &&& result.resource_templates@.len() == 1
            &&& template.uri_template@ == "test://template/{id}/data"@
            &&& template.name@ == "Dynamic Resource"@
            &&& template.title is None
            &&& template.description matches Some(description)
            &&& description@ == "A dynamic resource with parameter substitution"@
            &&& template.mime_type matches Some(mime_type)
            &&& mime_type@ == "application/json"@
        },
{
}

/// An error has the code of its kind, the message it was given and no data.
pub proof fn law_errors_say_what_they_were_given(
    message: &str,
    internal: ErrorData,
    invalid: ErrorData,
)
    requires
        call_ensures(ErrorData::internal_error, (message,), internal),
        call_ensures(ErrorData::invalid_request, (message,), invalid),
    ensures
        internal.code == -32603,
        invalid.code == -32600,
        internal.message@ == message@,
        invalid.message@ == message@,
        internal.data is None,
        invalid.data is None,
{
}

} // verus!
