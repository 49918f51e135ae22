//! How sessions begin.

use vstd::prelude::*;

use crate::capabilities::{merge_capabilities, ServerCapabilities};
use crate::connect::{transport_config, TransportConfig};
use crate::error::ErrorData;
use crate::service::McpService;
use crate::session::{
    initialize, ConnectedSession, ConnectingSession, Connection, InitializeResult, InitializeStep,
    SessionStep, UserSession, ValidatedSession,
};
use crate::transport::{BackendTransportKey, BackendTransportService, SessionId};

verus! {

/// A session begins as it was validated, or is refused as it was refused.
pub proof fn law_validated_sessions_begin(
    validated: Result<ValidatedSession, ErrorData>,
    step: InitializeStep,
)
    requires
        call_ensures(initialize, (validated,), step),
    ensures
        match step {
            InitializeStep::ReadSession(session) => validated == Ok::<ValidatedSession, ErrorData>(
                session,
            ),
            InitializeStep::Done(error) => validated == Err::<ValidatedSession, ErrorData>(error),
        },
{
}

/// The session store is asked by the session alone.
pub proof fn law_sessions_are_stored_by_identifier(session: SessionId, entry: UserSession)
    requires
        call_ensures(UserSession::of, (&session,), entry),
    ensures
        entry.user_name@.len() == 0,
        entry.session_id@ == session.session_id@,
{
}

/// Where the session store cannot be read, the client is told so. Otherwise
/// every backend is connected to, in its place and under its name, by its URL;
/// what the store holds of the session is kept, or else the default.
pub proof fn law_all_backends_are_connected_to<M: Default, E>(
    validated: ValidatedSession,
    stored: Result<Option<M>, E>,
    step: SessionStep<M>,
)
    requires
        call_ensures(ValidatedSession::session_read::<M, E>, (validated, stored), step),
    ensures
        match step {
            SessionStep::Done(error) => {
                &&& stored is Err
                &&& error.code == -32603
                &&& error.message@ == "Internal problem... session store can't be accessed"@
                &&& error.data is None
            },
            SessionStep::Connect(connecting) => {
                &&& connecting.session == validated.session
                &&& connecting.targets@.len() == validated.backends@.len()
                &&& forall|i: int|
                    #![trigger connecting.targets@[i]]
                    0 <= i < validated.backends@.len() ==> connecting.targets@[i].name@
                        == validated.backends@[i].name@ && crate::laws::connecting::goes_to(
                        connecting.targets@[i].config,
                        validated.backends@[i].url,
                    )
                &&& match stored {
                    Ok(Some(known)) => connecting.mapping == known,
                    Ok(None) => call_ensures(M::default, (), connecting.mapping),
                    Err(_) => false,
                }
            },
        },
{
    if let SessionStep::Connect(connecting) = step {
        assert forall|i: int|
            #![trigger connecting.targets@[i]]
            0 <= i < validated.backends@.len() implies crate::laws::connecting::goes_to(
            connecting.targets@[i].config,
            validated.backends@[i].url,
        ) by {
            crate::laws::connecting::lemma_fitting_config_goes_to(
                connecting.targets@[i].config,
                validated.backends@[i].url,
            );
        }
    }
}

/// A backend of a session is connected to in the very way that its URL calls for.
pub proof fn law_targets_are_reached_by_their_urls<M: Default, E>(
    validated: ValidatedSession,
    stored: Result<Option<M>, E>,
    connecting: ConnectingSession<M>,
    i: int,
    config: TransportConfig,
)
    requires
        call_ensures(
            ValidatedSession::session_read::<M, E>,
            (validated, stored),
            SessionStep::Connect(connecting),
        ),
        0 <= i < validated.backends@.len(),
        call_ensures(transport_config, (&validated.backends@[i].url,), config),
    ensures
        connecting.targets@[i].config.uri@ == config.uri@,
        match (connecting.targets@[i].config.host_header, config.host_header) {
            (Some(one), Some(other)) => one@ == other@,
            (one, other) => one is None && other is None,
        },
{
    assert(connecting.targets@[i].config.fits(validated.backends@[i].url));
}

/// Whatever came of the attempt to connect to a target is kept under its name
/// and in its place: the connection that was made and what its backend can do,
/// and no connection where none was made. The capabilities are told likewise.
pub proof fn law_made_connections_are_kept<M, S, C: Clone>(
    connecting: ConnectingSession<M>,
    outcomes: Vec<Option<Connection<S, C>>>,
    connected: ConnectedSession<M, S, C>,
    i: int,
)
    requires
        call_ensures(ConnectingSession::<M>::connected::<S, C>, (connecting, outcomes), connected),
        0 <= i < connecting.targets@.len(),
    ensures
        connected.session == connecting.session,
        connected.mapping == connecting.mapping,
        connected.transports@.len() == connecting.targets@.len(),
        connected.transports@[i].0@ == connecting.targets@[i].name@,
        i < outcomes@.len() ==> match outcomes@[i] {
            Some(made) => {
                &&& connected.transports@[i].1.service == Some(made.service)
                &&& connected.transports@[i].1.capabilities == made.capabilities
            },
            None => {
                &&& connected.transports@[i].1.service is None
                &&& connected.transports@[i].1.capabilities is None
            },
        },
        i >= outcomes@.len() ==> {
            &&& connected.transports@[i].1.service is None
            &&& connected.transports@[i].1.capabilities is None
        },
        connected.capabilities@.len() == connecting.targets@.len(),
        connected.capabilities@[i].0@ == connecting.targets@[i].name@,
        match connected.transports@[i].1.capabilities {
            Some(says) => connected.capabilities@[i].1 matches Some(copy) && cloned(says, copy),
            None => connected.capabilities@[i].1 is None,
        },
{
    assert(connected.capabilities@[i].0 == connecting.targets@[i].name);
}

/// The gateway offers prompts, resources, tools and logging, without any
/// setting, and nothing else, whatever its backends offer.
pub proof fn law_offer_does_not_depend_on_backends<C>(
    backends: Vec<(String, Option<C>)>,
    offered: ServerCapabilities,
)
    requires
        call_ensures(merge_capabilities::<C>, (backends,), offered),
    ensures
        offered.experimental is None,
        offered.extensions is None,
        offered.logging == Some(0usize),
        offered.completions is None,
        offered.prompts matches Some(prompts) && prompts.list_changed is None,
        offered.resources matches Some(resources) && resources.subscribe is None
            && resources.list_changed is None,
        offered.tools matches Some(tools) && tools.list_changed is None,
        !offered.tasks,
{
}

/// When a session has begun, the gateway introduces itself, and what is kept of
/// a backend for the session is what was kept last under its name.
pub proof fn law_begun_sessions_find_their_connections<M, S, C>(
    gateway: &mut McpService<S, C>,
    connected: ConnectedSession<M, S, C>,
    result: InitializeResult,
    i: int,
    backend: &str,
    session: &str,
    key: BackendTransportKey,
    found: Option<&BackendTransportService<S, C>>,
)
    requires
        call_ensures(McpService::<S, C>::session_stored::<M>, (gateway, connected), result),
        call_ensures(
            <BackendTransportKey as From<(&str, &str)>>::from,
            ((backend, session),),
            key,
        ),
        call_ensures(McpService::<S, C>::transport, (&*final(gateway), &key), found),
        0 <= i < connected.transports@.len(),
        forall|j: int|
            i < j < connected.transports@.len() ==> (#[trigger] connected.transports@[j]).0@
                != connected.transports@[i].0@,
        backend@ == connected.transports@[i].0@,
        session@ == connected.session.session_id@,
    ensures
        found matches Some(kept) && *kept == connected.transports@[i].1,
        result.capabilities.experimental is None,
        result.capabilities.extensions is None,
        result.capabilities.logging == Some(0usize),
        result.capabilities.completions is None,
        result.capabilities.prompts matches Some(prompts) && prompts.list_changed is None,
        result.capabilities.resources matches Some(resources) && resources.subscribe is None
            && resources.list_changed is None,
        result.capabilities.tools matches Some(tools) && tools.list_changed is None,
        !result.capabilities.tasks,
        result.protocol_version@ == "2025-11-25"@,
        result.server_name@ == "rust-conformance-server"@,
        result.server_version@ == "0.1.0"@,
        result.instructions matches Some(text) && text@ == "Rust MCP conformance test server"@,
{
    crate::session::law_registered_connections_are_found(
        old(gateway).connections(),
        connected.session.session_id@,
        connected.transports@,
        i,
    );
}

/// Beginning a session changes nothing for other sessions, nor for backends
/// that are not among those of the session, nor anything else that the gateway
/// keeps.
pub proof fn law_beginning_a_session_leaves_the_rest<M, S, C>(
    gateway: &mut McpService<S, C>,
    connected: ConnectedSession<M, S, C>,
    result: InitializeResult,
    backend: &str,
    session: &str,
    key: BackendTransportKey,
    before: Option<&BackendTransportService<S, C>>,
    after: Option<&BackendTransportService<S, C>>,
    uri: &str,
    was_subscribed: bool,
    is_subscribed: bool,
)
    requires
        call_ensures(McpService::<S, C>::session_stored::<M>, (gateway, connected), result),
        call_ensures(
            <BackendTransportKey as From<(&str, &str)>>::from,
            ((backend, session),),
            key,
        ),
        call_ensures(McpService::<S, C>::transport, (&*old(gateway), &key), before),
        call_ensures(McpService::<S, C>::transport, (&*final(gateway), &key), after),
        call_ensures(McpService::<S, C>::is_subscribed, (&*old(gateway), uri), was_subscribed),
        call_ensures(McpService::<S, C>::is_subscribed, (&*final(gateway), uri), is_subscribed),
    ensures
        session@ != connected.session.session_id@ || (forall|i: int|
            0 <= i < connected.transports@.len() ==> (#[trigger] connected.transports@[i]).0@
                != backend@) ==> after == before,
        is_subscribed == was_subscribed,
{
    if session@ != connected.session.session_id@ || (forall|i: int|
        0 <= i < connected.transports@.len() ==> (#[trigger] connected.transports@[i]).0@
            != backend@) {
        crate::session::law_other_connections_stay(
            old(gateway).connections(),
            connected.session.session_id@,
            connected.transports@,
            backend@,
            session@,
        );
    }
}

/// From the validated session to the lookup: a connection that was made to a
/// backend of the virtual host is found under the backend's name and the
/// session, and none is found where none was made. Where backends share a name,
/// this holds of the last of them.
pub proof fn law_connected_backends_are_found<M: Default, S, C: Clone, E>(
    validated: ValidatedSession,
    stored: Result<Option<M>, E>,
    connecting: ConnectingSession<M>,
    outcomes: Vec<Option<Connection<S, C>>>,
    connected: ConnectedSession<M, S, C>,
    gateway: &mut McpService<S, C>,
    result: InitializeResult,
    i: int,
    backend: &str,
    session: &str,
    key: BackendTransportKey,
    found: Option<&BackendTransportService<S, C>>,
)
    requires
        call_ensures(
            ValidatedSession::session_read::<M, E>,
            (validated, stored),
            SessionStep::Connect(connecting),
        ),
        call_ensures(ConnectingSession::<M>::connected::<S, C>, (connecting, outcomes), connected),
        call_ensures(McpService::<S, C>::session_stored::<M>, (gateway, connected), result),
        call_ensures(
            <BackendTransportKey as From<(&str, &str)>>::from,
            ((backend, session),),
            key,
        ),
        call_ensures(McpService::<S, C>::transport, (&*final(gateway), &key), found),
        0 <= i < validated.backends@.len(),
        i < outcomes@.len(),
        forall|j: int|
            i < j < validated.backends@.len() ==> (#[trigger] validated.backends@[j]).name@
                != validated.backends@[i].name@,
        backend@ == validated.backends@[i].name@,
        session@ == validated.session.session_id@,
    ensures
        found matches Some(kept) && match outcomes@[i] {
            Some(made) => kept.service == Some(made.service) && kept.capabilities
                == made.capabilities,
            None => kept.service is None && kept.capabilities is None,
        },
{
    law_all_backends_are_connected_to(validated, stored, SessionStep::Connect(connecting));
    assert forall|j: int| 0 <= j < connecting.targets@.len() implies (
    #[trigger] connected.transports@[j]).0@ == validated.backends@[j].name@ by {
        law_made_connections_are_kept(connecting, outcomes, connected, j);
        assert(connecting.targets@[j].name@ == validated.backends@[j].name@);
    }
    law_made_connections_are_kept(connecting, outcomes, connected, i);
    law_begun_sessions_find_their_connections(
        gateway,
        connected,
        result,
        i,
        backend,
        session,
        key,
        found,
    );
}

} // verus!
