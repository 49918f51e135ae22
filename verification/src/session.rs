//! How a session begins: the gateway connects to every backend of the client's
//! virtual host and keeps the connections for the session.
//!
//! As with other requests, each step says what the gateway does next, and what
//! comes of it is handed to the value that the step carries.

use vstd::prelude::*;

use crate::capabilities::{merge_capabilities, ServerCapabilities};
use crate::connect::{transport_config, BackendUrl, TransportConfig};
use crate::error::ErrorData;
use crate::transport::{BackendTransportKey, BackendTransportService, SessionId, TransportTable};

verus! {

/// A backend of a virtual host.
#[derive(Debug)]
pub struct Backend {
    pub name: String,
    pub url: BackendUrl,
}

/// What the session store is asked by.
#[derive(Debug, PartialEq, Eq)]
pub struct UserSession {
    pub user_name: String,
    pub session_id: String,
}

impl UserSession {
    /// The entry of a session, which no user is named in.
    pub fn of(session: &SessionId) -> (entry: UserSession)
        ensures
            entry.user_name@ == Seq::<char>::empty(),
            entry.session_id@ == session.session_id@,
    {
        UserSession { user_name: String::new(), session_id: session.value().to_owned() }
    }
}

/// A session that may begin.
#[derive(Debug)]
pub struct ValidatedSession {
    pub session: SessionId,
    pub backends: Vec<Backend>,
}

/// What comes first: the session store is read, or the client is told why the
/// session cannot begin.
#[derive(Debug)]
pub enum InitializeStep {
    ReadSession(ValidatedSession),
    Done(ErrorData),
}

/// Begins a session, given what the validation of the request came to.
pub fn initialize(validated: Result<ValidatedSession, ErrorData>) -> (step: InitializeStep)
    ensures
        match validated {
            Ok(session) => step == InitializeStep::ReadSession(session),
            Err(refusal) => step == InitializeStep::Done(refusal),
        },
{
    match validated {
        Ok(session) => InitializeStep::ReadSession(session),
        Err(refusal) => InitializeStep::Done(refusal),
    }
}

/// Where a backend is reached.
#[derive(Debug)]
pub struct ConnectTarget {
    pub name: String,
    pub config: TransportConfig,
}

/// A session whose backends are being connected to.
#[derive(Debug)]
pub struct ConnectingSession<M> {
    pub session: SessionId,
    /// What the session store holds of the session.
    pub mapping: M,
    pub targets: Vec<ConnectTarget>,
}

/// What comes once the session store was read: the backends are connected to,
/// or the client is told that the store cannot be read.
#[derive(Debug)]
pub enum SessionStep<M> {
    Connect(ConnectingSession<M>),
    Done(ErrorData),
}

/// Whether `targets` are the backends in their order, each with the way to
/// connect to it.
pub open spec fn reaches_all(targets: Seq<ConnectTarget>, backends: Seq<Backend>) -> bool {
    &&& targets.len() == backends.len()
    &&& forall|i: int|
        0 <= i < targets.len() ==> (#[trigger] targets[i]).name@ == backends[i].name@
            && targets[i].config.fits(backends[i].url)
}

impl<M> SessionStep<M> {
    /// Whether this is the step for a session and what the store holds of it;
    /// a session that the store does not know starts with the default.
    pub open spec fn continues<E>(
        self,
        validated: ValidatedSession,
        stored: Result<Option<M>, E>,
    ) -> bool where M: Default {
        match stored {
            Ok(known) => {
                &&& self matches SessionStep::Connect(connecting)
                &&& connecting.session == validated.session
                &&& reaches_all(connecting.targets@, validated.backends@)
                &&& match known {
                    Some(mapping) => connecting.mapping == mapping,
                    None => call_ensures(M::default, (), connecting.mapping),
                }
            },
            Err(_) => {
                &&& self matches SessionStep::Done(error)
                &&& error.says(
                    crate::error::INTERNAL_ERROR,
                    "Internal problem... session store can't be accessed"@,
                )
            },
        }
    }
}

impl ValidatedSession {
    /// Takes what the session store holds of the session.
    pub fn session_read<M: Default, E>(
        self,
        stored: Result<Option<M>, E>,
    ) -> (step: SessionStep<M>)
        ensures
            step.continues(self, stored),
    {
        let mapping = match stored {
            Err(_) => {
                return SessionStep::Done(
                    ErrorData::internal_error("Internal problem... session store can't be accessed"),
                );
            },
            Ok(Some(mapping)) => mapping,
            Ok(None) => M::default(),
        };
        let mut targets: Vec<ConnectTarget> = Vec::new();
        let mut next: usize = 0;
        while next < self.backends.len()
            invariant
                next <= self.backends@.len(),
                reaches_all(targets@, self.backends@.take(next as int)),
            decreases self.backends@.len() - next,
        {
            let backend = &self.backends[next];
            targets.push(
                ConnectTarget { name: backend.name.clone(), config: transport_config(&backend.url) },
            );
            next = next + 1;
        }
        assert(self.backends@.take(next as int) =~= self.backends@);
        SessionStep::Connect(ConnectingSession { session: self.session, mapping, targets })
    }
}

/// A connection that was made, and what the backend says it can do.
#[derive(Debug)]
pub struct Connection<S, C> {
    pub service: S,
    pub capabilities: Option<C>,
}

/// What is kept of an attempt to connect.
pub open spec fn kept<S, C>(connection: Option<Connection<S, C>>) -> BackendTransportService<S, C> {
    match connection {
        Some(made) => BackendTransportService {
            capabilities: made.capabilities,
            service: Some(made.service),
        },
        None => BackendTransportService { capabilities: None, service: None },
    }
}

/// A session whose backends were connected to, and which is being stored.
#[derive(Debug)]
pub struct ConnectedSession<M, S, C> {
    pub session: SessionId,
    pub mapping: M,
    /// The backends, each with what is kept of it.
    pub transports: Vec<(String, BackendTransportService<S, C>)>,
    /// What each backend says it can do.
    pub capabilities: Vec<(String, Option<C>)>,
}

/// What came of the attempt to connect to the target at `at`; a target without
/// an outcome is not connected.
pub open spec fn outcome_of<S, C>(outcomes: Seq<Option<Connection<S, C>>>, at: int) -> Option<
    Connection<S, C>,
> {
    if 0 <= at < outcomes.len() {
        outcomes[at]
    } else {
        None
    }
}

/// The targets in their order, each with what is kept of it.
pub open spec fn kept_of<S, C>(
    targets: Seq<ConnectTarget>,
    outcomes: Seq<Option<Connection<S, C>>>,
) -> Seq<(String, BackendTransportService<S, C>)> {
    Seq::new(targets.len(), |i: int| (targets[i].name, kept(outcome_of(outcomes, i))))
}

/// Whether `says` holds, for each target, a copy of what its backend says it can do.
pub open spec fn tells_all<S, C: Clone>(
    says: Seq<(String, Option<C>)>,
    targets: Seq<ConnectTarget>,
    outcomes: Seq<Option<Connection<S, C>>>,
) -> bool {
    &&& says.len() == targets.len()
    &&& forall|i: int|
        0 <= i < says.len() ==> {
            let (name, copied) = #[trigger] says[i];
            &&& name == targets[i].name
            &&& match kept(outcome_of(outcomes, i)).capabilities {
                Some(c) => copied matches Some(copy) && cloned(c, copy),
                None => copied is None,
            }
        }
}

impl<M> ConnectingSession<M> {
    /// Takes what came of the attempts to connect, in the order of the targets.
    pub fn connected<S, C: Clone>(
        self,
        outcomes: Vec<Option<Connection<S, C>>>,
    ) -> (connected: ConnectedSession<M, S, C>)
        ensures
            connected.session == self.session,
            connected.mapping == self.mapping,
            connected.transports@ == kept_of(self.targets@, outcomes@),
            tells_all(connected.capabilities@, self.targets@, outcomes@),
    {
        let ghost targets = self.targets@;
        let mut transports: Vec<(String, BackendTransportService<S, C>)> = Vec::new();
        let mut capabilities: Vec<(String, Option<C>)> = Vec::new();
        let mut next: usize = 0;
        for outcome in it: outcomes
            invariant
                it.seq() == outcomes@,
                targets == self.targets@,
                next <= targets.len(),
                next == it.index() || (next == targets.len() && next <= it.index()),
                transports@ == kept_of(targets.take(next as int), outcomes@),
                tells_all(capabilities@, targets.take(next as int), outcomes@),
        {
            if next < self.targets.len() {
                let name = &self.targets[next].name;
                let (says, service) = match outcome {
                    Some(connection) => (connection.capabilities, Some(connection.service)),
                    None => (None, None),
                };
                assert(outcome == outcome_of(outcomes@, next as int));
                capabilities.push((name.clone(), says.clone()));
                transports.push((name.clone(), BackendTransportService::from((says, service))));
                assert(transports@ =~= kept_of(targets.take(next + 1), outcomes@));
                next = next + 1;
            }
        }
        while next < self.targets.len()
            invariant
                targets == self.targets@,
                next <= targets.len(),
                next >= outcomes@.len() || next == targets.len(),
                transports@ == kept_of(targets.take(next as int), outcomes@),
                tells_all(capabilities@, targets.take(next as int), outcomes@),
            decreases targets.len() - next,
        {
            let name = &self.targets[next].name;
            capabilities.push((name.clone(), None));
            transports.push((name.clone(), BackendTransportService::from((None, None))));
            assert(transports@ =~= kept_of(targets.take(next + 1), outcomes@));
            next = next + 1;
        }
        assert(targets.take(targets.len() as int) =~= targets);
        ConnectedSession { session: self.session, mapping: self.mapping, transports, capabilities }
    }
}

/// Calls `rmcp::model::ProtocolVersion::default`. What is believed of it: it is
/// the version of 25 November 2025, the latest that the crate knows.
#[verifier::external_body]
fn default_protocol_version() -> (version: String)
    ensures
        version@ == "2025-11-25"@,
{
    rmcp::model::ProtocolVersion::default().as_str().to_owned()
}

/// What the client is told when its session has begun.
#[derive(Debug, PartialEq, Eq)]
pub struct InitializeResult {
    pub protocol_version: String,
    pub capabilities: ServerCapabilities,
    pub server_name: String,
    pub server_version: String,
    pub instructions: Option<String>,
}

impl InitializeResult {
    /// Whether this is how the gateway introduces itself.
    pub open spec fn greets(self) -> bool {
        &&& self.protocol_version@ == "2025-11-25"@
        &&& self.capabilities == crate::capabilities::gateway_capabilities()
        &&& self.server_name@ == "rust-conformance-server"@
        &&& self.server_version@ == "0.1.0"@
        &&& self.instructions matches Some(text)
        &&& text@ == "Rust MCP conformance test server"@
    }
}

/// The connections of all sessions, by backend and session.
pub type Connections<S, C> = Map<(Seq<char>, Seq<char>), BackendTransportService<S, C>>;

/// `before` with the connections of a session in it, in place of those that
/// were there for the same backends.
pub open spec fn registered<S, C>(
    before: Connections<S, C>,
    session: Seq<char>,
    transports: Seq<(String, BackendTransportService<S, C>)>,
) -> Connections<S, C>
    decreases transports.len(),
{
    if transports.len() == 0 {
        before
    } else {
        registered(before, session, transports.drop_last()).insert(
            (transports.last().0@, session),
            transports.last().1,
        )
    }
}

impl<M, S, C> ConnectedSession<M, S, C> {
    /// Ends the beginning of the session, whether or not it could be stored.
    pub fn stored(self, table: &mut TransportTable<S, C>) -> (result: InitializeResult)
        ensures
            final(table)@ == registered(old(table)@, self.session.session_id@, self.transports@),
            result.greets(),
    {
        let ghost all = self.transports@;
        let ghost before = table@;
        assert(all.take(0) =~= Seq::empty());
        for transport in it: self.transports
            invariant
                it.seq() == all,
                table@ == registered(before, self.session.session_id@, all.take(it.index())),
        {
            let (name, service) = transport;
            table.insert(
                BackendTransportKey::from((name.as_str(), self.session.value())),
                service,
            );
            assert(all.take(it.index() + 1).drop_last() =~= all.take(it.index()));
        }
        assert(all.take(all.len() as int) =~= all);
        InitializeResult {
            protocol_version: default_protocol_version(),
            capabilities: merge_capabilities(self.capabilities),
            server_name: "rust-conformance-server".to_owned(),
            server_version: "0.1.0".to_owned(),
            instructions: Some("Rust MCP conformance test server".to_owned()),
        }
    }
}

/// What was registered last for a backend is what is found for the session.
pub proof fn law_registered_connections_are_found<S, C>(
    before: Connections<S, C>,
    session: Seq<char>,
    transports: Seq<(String, BackendTransportService<S, C>)>,
    at: int,
)
    requires
        0 <= at < transports.len(),
        forall|j: int|
            at < j < transports.len() ==> (#[trigger] transports[j]).0@ != transports[at].0@,
    ensures
        registered(before, session, transports).contains_key((transports[at].0@, session)),
        registered(before, session, transports)[(transports[at].0@, session)] == transports[at].1,
    decreases transports.len(),
{
    if at < transports.len() - 1 {
        let earlier = transports.drop_last();
        assert(transports[transports.len() - 1].0@ != transports[at].0@);
        assert forall|j: int| at < j < earlier.len() implies (#[trigger] earlier[j]).0@
            != earlier[at].0@ by {
            assert(transports[j] == earlier[j]);
        }
        law_registered_connections_are_found(before, session, earlier, at);
    }
}

/// Registering the connections of a session touches no connection of another
/// session, and none of a backend that is not among those registered.
pub proof fn law_other_connections_stay<S, C>(
    before: Connections<S, C>,
    session: Seq<char>,
    transports: Seq<(String, BackendTransportService<S, C>)>,
    backend: Seq<char>,
    other: Seq<char>,
)
    requires
        other != session || forall|i: int|
            0 <= i < transports.len() ==> (#[trigger] transports[i]).0@ != backend,
    ensures
        registered(before, session, transports).contains_key((backend, other))
            <==> before.contains_key((backend, other)),
        registered(before, session, transports)[(backend, other)] == before[(backend, other)],
    decreases transports.len(),
{
    if transports.len() > 0 {
        let earlier = transports.drop_last();
        assert forall|i: int| 0 <= i < earlier.len() implies earlier[i]
            == #[trigger] transports[i] by {}
        assert(other != session || transports[transports.len() - 1].0@ != backend);
        law_other_connections_stay(before, session, earlier, backend, other);
    }
}

proof fn lemma_last_of_a_name<S, C>(
    transports: Seq<(String, BackendTransportService<S, C>)>,
    name: Seq<char>,
) -> (at: int)
    ensures
        -1 <= at < transports.len(),
        at >= 0 ==> transports[at].0@ == name,
        forall|j: int| at < j < transports.len() ==> (#[trigger] transports[j]).0@ != name,
    decreases transports.len(),
{
    if transports.len() == 0 {
        -1
    } else if transports.last().0@ == name {
        transports.len() - 1
    } else {
        let at = lemma_last_of_a_name(transports.drop_last(), name);
        assert forall|j: int| at < j < transports.len() implies (#[trigger] transports[j]).0@
            != name by {
            if j < transports.len() - 1 {
                assert(transports.drop_last()[j] == transports[j]);
            }
        }
        at
    }
}

/// A session that begins again keeps nothing of its first beginning, where it
/// has the same backends or more.
pub proof fn law_beginning_again_replaces<S, C>(
    before: Connections<S, C>,
    session: Seq<char>,
    first: Seq<(String, BackendTransportService<S, C>)>,
    second: Seq<(String, BackendTransportService<S, C>)>,
)
    requires
        forall|i: int|
            #![trigger first[i]]
            0 <= i < first.len() ==> exists|j: int|
                0 <= j < second.len() && (#[trigger] second[j]).0@ == first[i].0@,
    ensures
        registered(registered(before, session, first), session, second) == registered(
            before,
            session,
            second,
        ),
{
    let once = registered(before, session, second);
    let twice = registered(registered(before, session, first), session, second);
    assert forall|key: (Seq<char>, Seq<char>)|
        (#[trigger] twice.contains_key(key) <==> once.contains_key(key)) && twice[key]
            == once[key] by {
        let (backend, other) = key;
        let at = lemma_last_of_a_name(second, backend);
        if other == session && at >= 0 {
            law_registered_connections_are_found(before, session, second, at);
            law_registered_connections_are_found(
                registered(before, session, first),
                session,
                second,
                at,
            );
        } else {
            if other == session {
                assert forall|i: int| 0 <= i < first.len() implies (#[trigger] first[i]).0@
                    != backend by {}
            }
            law_other_connections_stay(before, session, first, backend, other);
            law_other_connections_stay(before, session, second, backend, other);
            law_other_connections_stay(
                registered(before, session, first),
                session,
                second,
                backend,
                other,
            );
        }
    }
    assert(twice =~= once);
}

/// Once a session has begun, there is an entry for every backend of its
/// virtual host, and it holds what came of the attempt to connect there: the
/// connection, or none where the attempt failed. Where backends share a name,
/// this holds of the last of them.
pub proof fn law_every_backend_is_registered<M: Default, S, C, E>(
    validated: ValidatedSession,
    stored: Result<Option<M>, E>,
    connecting: ConnectingSession<M>,
    outcomes: Seq<Option<Connection<S, C>>>,
    before: Connections<S, C>,
    at: int,
)
    requires
        SessionStep::Connect(connecting).continues(validated, stored),
        0 <= at < validated.backends@.len(),
        forall|j: int|
            at < j < validated.backends@.len() ==> (#[trigger] validated.backends@[j]).name@
                != validated.backends@[at].name@,
    ensures
        ({
            let after = registered(
                before,
                connecting.session.session_id@,
                kept_of(connecting.targets@, outcomes),
            );
            let key = (validated.backends@[at].name@, validated.session.session_id@);
            after.contains_key(key) && after[key] == kept(outcome_of(outcomes, at))
        }),
{
    let transports = kept_of(connecting.targets@, outcomes);
    assert forall|i: int| 0 <= i < transports.len() implies (#[trigger] transports[i]).0@
        == validated.backends@[i].name@ by {
        assert(connecting.targets@[i].name@ == validated.backends@[i].name@);
    }
    law_registered_connections_are_found(
        before,
        connecting.session.session_id@,
        transports,
        at,
    );
}

} // verus!
