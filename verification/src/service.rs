//! What the gateway keeps between requests.

use vstd::hash_set::StringHashSet;
use vstd::prelude::*;

use crate::error::ErrorData;
use crate::session::{ConnectedSession, InitializeResult};
use crate::transport::{BackendTransportKey, BackendTransportService, TransportTable};

verus! {

/// How severe a message must be to be logged.
#[derive(Clone, Copy, Debug, PartialEq, Eq)]
pub enum LoggingLevel {
    Debug,
    Info,
    Notice,
    Warning,
    Error,
    Critical,
    Alert,
    Emergency,
}

/// A resource whose URI has parameters, without icons and annotations.
#[derive(Debug, PartialEq, Eq)]
pub struct ResourceTemplate {
    pub uri_template: String,
    pub name: String,
    pub title: Option<String>,
    pub description: Option<String>,
    pub mime_type: Option<String>,
}

impl ResourceTemplate {
    /// Whether this is the template that the gateway itself offers.
    pub open spec fn is_dynamic_resource(self) -> bool {
        &&& self.uri_template@ == "test://template/{id}/data"@
        &&& self.name@ == "Dynamic Resource"@
        &&& self.title is None
        &&& self.description matches Some(description)
        &&& description@ == "A dynamic resource with parameter substitution"@
        &&& self.mime_type matches Some(mime_type)
        &&& mime_type@ == "application/json"@
    }
}

/// One page of resource templates; `meta` is JSON text.
#[derive(Debug, PartialEq, Eq)]
pub struct ListResourceTemplatesResult {
    pub meta: Option<String>,
    pub next_cursor: Option<String>,
    pub resource_templates: Vec<ResourceTemplate>,
}

/// The gateway: the resources that are subscribed to, the connections of all
/// sessions, and the logging level.
pub struct McpService<S, C> {
    subscriptions: StringHashSet,
    transports: TransportTable<S, C>,
    log_level: LoggingLevel,
}

impl<S, C> McpService<S, C> {
    /// The URIs that are subscribed to.
    pub closed spec fn subscribed(&self) -> Set<Seq<char>> {
        self.subscriptions@
    }

    /// The connections of all sessions, by backend and session.
    pub closed spec fn connections(&self) -> crate::session::Connections<S, C> {
        self.transports@
    }

    /// The logging level.
    pub closed spec fn level(&self) -> LoggingLevel {
        self.log_level
    }

    /// A gateway without subscriptions and connections that logs everything.
    pub fn new() -> (service: Self)
        ensures
            service.subscribed() == Set::<Seq<char>>::empty(),
            service.connections() == crate::session::Connections::<S, C>::empty(),
            service.level() == LoggingLevel::Debug,
    {
        McpService {
            subscriptions: StringHashSet::new(),
            transports: TransportTable::new(),
            log_level: LoggingLevel::Debug,
        }
    }

    /// Answers that the gateway is there.
    pub fn ping(&self) -> (answer: Result<(), ErrorData>)
        ensures
            answer == Ok::<(), ErrorData>(()),
    {
        Ok(())
    }

    /// Ends the beginning of a session, and keeps its connections.
    pub fn session_stored<M>(
        &mut self,
        connected: ConnectedSession<M, S, C>,
    ) -> (result: InitializeResult)
        ensures
            final(self).connections() == crate::session::registered(
                old(self).connections(),
                connected.session.session_id@,
                connected.transports@,
            ),
            final(self).subscribed() == old(self).subscribed(),
            final(self).level() == old(self).level(),
            result.greets(),
    {
        connected.stored(&mut self.transports)
    }

    /// What is kept of a backend for a session.
    pub fn transport(&self, key: &BackendTransportKey) -> (found: Option<
        &BackendTransportService<S, C>,
    >)
        ensures
            match found {
                Some(service) => self.connections().contains_key(key@) && *service
                    == self.connections()[key@],
                None => !self.connections().contains_key(key@),
            },
    {
        self.transports.get(key)
    }

    /// Forgets what is kept of a backend for a session, and hands it out.
    pub fn remove(&mut self, key: &BackendTransportKey) -> (gone: Option<
        BackendTransportService<S, C>,
    >)
        ensures
            final(self).connections() == old(self).connections().remove(key@),
            gone == (if old(self).connections().contains_key(key@) {
                Some(old(self).connections()[key@])
            } else {
                None
            }),
            final(self).subscribed() == old(self).subscribed(),
            final(self).level() == old(self).level(),
    {
        self.transports.remove(key)
    }

    /// Lists the resource templates.
    pub fn list_resource_templates(&self) -> (answer: Result<
        ListResourceTemplatesResult,
        ErrorData,
    >)
        ensures
            answer matches Ok(result) && {
                &&& result.meta is None
                &&& result.next_cursor is None
                &&& result.resource_templates@.len() == 1
                &&& result.resource_templates@[0].is_dynamic_resource()
            },
    {
        let template = ResourceTemplate {
            uri_template: "test://template/{id}/data".to_owned(),
            name: "Dynamic Resource".to_owned(),
            title: None,
            description: Some("A dynamic resource with parameter substitution".to_owned()),
            mime_type: Some("application/json".to_owned()),
        };
        Ok(
            ListResourceTemplatesResult {
                meta: None,
                next_cursor: None,
                resource_templates: vec![template],
            },
        )
    }

    /// Subscribes to a resource.
    pub fn subscribe(&mut self, uri: &str) -> (answer: Result<(), ErrorData>)
        ensures
            answer == Ok::<(), ErrorData>(()),
            final(self).subscribed() == old(self).subscribed().insert(uri@),
            final(self).connections() == old(self).connections(),
            final(self).level() == old(self).level(),
    {
        self.subscriptions.insert(uri.to_owned());
        Ok(())
    }

    /// Ends the subscription to a resource.
    pub fn unsubscribe(&mut self, uri: &str) -> (answer: Result<(), ErrorData>)
        ensures
            answer == Ok::<(), ErrorData>(()),
            final(self).subscribed() == old(self).subscribed().remove(uri@),
            final(self).connections() == old(self).connections(),
            final(self).level() == old(self).level(),
    {
        self.subscriptions.remove(uri);
        Ok(())
    }

    /// Whether a resource is subscribed to.
    pub fn is_subscribed(&self, uri: &str) -> (subscribed: bool)
        ensures
            subscribed == self.subscribed().contains(uri@),
    {
        self.subscriptions.contains(uri)
    }

    /// Sets the logging level.
    pub fn set_level(&mut self, level: LoggingLevel) -> (answer: Result<(), ErrorData>)
        ensures
            answer == Ok::<(), ErrorData>(()),
            final(self).level() == level,
            final(self).subscribed() == old(self).subscribed(),
            final(self).connections() == old(self).connections(),
    {
        self.log_level = level;
        Ok(())
    }

    /// The logging level that is set.
    pub fn log_level(&self) -> (level: LoggingLevel)
        ensures
            level == self.level(),
    {
        self.log_level
    }
}

/// Subscribing and unsubscribing again leaves the subscriptions as they were,
/// but for the resource itself, which is not subscribed to.
pub proof fn law_unsubscribing_undoes_subscribing<S, C>(
    before: McpService<S, C>,
    between: McpService<S, C>,
    after: McpService<S, C>,
    uri: Seq<char>,
)
    requires
        between.subscribed() == before.subscribed().insert(uri),
        after.subscribed() == between.subscribed().remove(uri),
    ensures
        between.subscribed().contains(uri),
        !after.subscribed().contains(uri),
        forall|other: Seq<char>|
            other != uri ==> (#[trigger] after.subscribed().contains(other)
                <==> before.subscribed().contains(other)),
        !before.subscribed().contains(uri) ==> after.subscribed() == before.subscribed(),
{
    if !before.subscribed().contains(uri) {
        assert(after.subscribed() =~= before.subscribed());
    }
}

/// Subscribing to a resource a second time changes nothing, and neither does
/// ending a subscription that is not there.
pub proof fn law_repeated_subscriptions_change_nothing<S, C>(
    before: McpService<S, C>,
    uri: Seq<char>,
)
    ensures
        before.subscribed().contains(uri) ==> before.subscribed().insert(uri)
            == before.subscribed(),
        !before.subscribed().contains(uri) ==> before.subscribed().remove(uri)
            == before.subscribed(),
{
    if before.subscribed().contains(uri) {
        assert(before.subscribed().insert(uri) =~= before.subscribed());
    } else {
        assert(before.subscribed().remove(uri) =~= before.subscribed());
    }
}

} // verus!
