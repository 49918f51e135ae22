//! The connections of the gateway to its backends.

use vstd::prelude::*;

verus! {

/// The session of a client.
#[derive(Debug, PartialEq, Eq, Hash)]
pub struct SessionId {
    pub session_id: String,
}

impl SessionId {
    /// The session's identifier as text.
    pub fn value(&self) -> (text: &str)
        ensures
            text@ == self.session_id@,
    {
        self.session_id.as_str()
    }
}

/// What a connection is found by: the backend, and the session it serves.
#[derive(Clone, Debug, PartialEq, Eq, PartialOrd, Ord, Hash)]
pub struct BackendTransportKey {
    backend_name: String,
    session_id: String,
}

impl View for BackendTransportKey {
    type V = (Seq<char>, Seq<char>);

    closed spec fn view(&self) -> (Seq<char>, Seq<char>) {
        (self.backend_name@, self.session_id@)
    }
}

impl BackendTransportKey {
    fn same_as(&self, other: &Self) -> (same: bool)
        ensures
            same == (self@ == other@),
    {
        self.backend_name == other.backend_name && self.session_id == other.session_id
    }
}

impl From<(&str, &str)> for BackendTransportKey {
    fn from(names: (&str, &str)) -> (key: Self)
        ensures
            key@ == (names.0@, names.1@),
    {
        BackendTransportKey { backend_name: names.0.to_owned(), session_id: names.1.to_owned() }
    }
}

impl vstd::std_specs::convert::FromSpecImpl<(&str, &str)> for BackendTransportKey {
    open spec fn obeys_from_spec() -> bool {
        false
    }

    open spec fn from_spec(names: (&str, &str)) -> Self {
        arbitrary()
    }
}

impl From<(&String, &SessionId)> for BackendTransportKey {
    fn from(names: (&String, &SessionId)) -> (key: Self)
        ensures
            key@ == (names.0@, names.1.session_id@),
    {
        BackendTransportKey {
            backend_name: names.0.as_str().to_owned(),
            session_id: names.1.value().to_owned(),
        }
    }
}

impl vstd::std_specs::convert::FromSpecImpl<(&String, &SessionId)> for BackendTransportKey {
    open spec fn obeys_from_spec() -> bool {
        false
    }

    open spec fn from_spec(names: (&String, &SessionId)) -> Self {
        arbitrary()
    }
}

/// A backend by name, with its connection where there is one.
#[derive(Debug)]
pub struct ServiceHolder<S> {
    pub name: String,
    pub running_service: Option<S>,
}

impl<S> ServiceHolder<S> {
    pub fn new(name: String, running_service: Option<S>) -> (holder: ServiceHolder<S>)
        ensures
            holder.name == name,
            holder.running_service == running_service,
    {
        ServiceHolder { name, running_service }
    }
}

/// What is kept of a backend for a session: the connection, where one could be
/// made, and what the backend said it can do.
#[derive(Debug)]
pub struct BackendTransportService<S, C> {
    pub capabilities: Option<C>,
    pub service: Option<S>,
}

impl<S, C> From<(Option<C>, Option<S>)> for BackendTransportService<S, C> {
    fn from(parts: (Option<C>, Option<S>)) -> (transport: Self) {
        BackendTransportService { capabilities: parts.0, service: parts.1 }
    }
}

impl<S, C> vstd::std_specs::convert::FromSpecImpl<(Option<C>, Option<S>)> for BackendTransportService<S, C> {
    open spec fn obeys_from_spec() -> bool {
        true
    }

    open spec fn from_spec(parts: (Option<C>, Option<S>)) -> Self {
        BackendTransportService { capabilities: parts.0, service: parts.1 }
    }
}

/// The connections of all sessions, each under its key.
#[derive(Debug)]
pub struct TransportTable<S, C> {
    entries: Vec<(BackendTransportKey, BackendTransportService<S, C>)>,
}

impl<S, C> View for TransportTable<S, C> {
    type V = Map<(Seq<char>, Seq<char>), BackendTransportService<S, C>>;

    closed spec fn view(&self) -> Map<(Seq<char>, Seq<char>), BackendTransportService<S, C>> {
        Map::new(
            |key: (Seq<char>, Seq<char>)| self.has_entry(key),
            |key: (Seq<char>, Seq<char>)| self.entries@[self.entry_of(key)].1,
        )
    }
}

impl<S, C> TransportTable<S, C> {
    spec fn has_entry(&self, key: (Seq<char>, Seq<char>)) -> bool {
        exists|i: int| 0 <= i < self.entries@.len() && (#[trigger] self.entries@[i]).0@ == key
    }

    spec fn entry_of(&self, key: (Seq<char>, Seq<char>)) -> int {
        choose|i: int| 0 <= i < self.entries@.len() && (#[trigger] self.entries@[i]).0@ == key
    }

    /// Whether no key occurs twice.
    #[verifier::type_invariant]
    spec fn keys_are_distinct(&self) -> bool {
        forall|i: int, j: int|
            0 <= i < self.entries@.len() && 0 <= j < self.entries@.len() && (
            #[trigger] self.entries@[i]).0@ == (#[trigger] self.entries@[j]).0@ ==> i == j
    }

    pub fn new() -> (table: Self)
        ensures
            table@ == Map::<(Seq<char>, Seq<char>), BackendTransportService<S, C>>::empty(),
    {
        let table = TransportTable { entries: Vec::new() };
        assert(table@ =~= Map::<(Seq<char>, Seq<char>), BackendTransportService<S, C>>::empty());
        table
    }

    /// Where the key stands in the table; the table's length where it does not.
    fn position(&self, key: &BackendTransportKey) -> (at: usize)
        ensures
            at <= self.entries@.len(),
            at < self.entries@.len() ==> self.entries@[at as int].0@ == key@,
            at == self.entries@.len() ==> !self@.contains_key(key@),
    {
        let mut at: usize = 0;
        while at < self.entries.len()
            invariant
                at <= self.entries@.len(),
                forall|i: int| 0 <= i < at ==> (#[trigger] self.entries@[i]).0@ != key@,
            decreases self.entries@.len() - at,
        {
            if self.entries[at].0.same_as(key) {
                return at;
            }
            at = at + 1;
        }
        at
    }

    /// Puts a connection under its key, in place of one that was there.
    pub fn insert(&mut self, key: BackendTransportKey, service: BackendTransportService<S, C>)
        ensures
            final(self)@ == old(self)@.insert(key@, service),
    {
        proof {
            use_type_invariant(&*self);
        }
        let at = self.position(&key);
        let ghost was = *self;
        let ghost k = key@;
        let mut entries: Vec<(BackendTransportKey, BackendTransportService<S, C>)> = Vec::new();
        std::mem::swap(&mut entries, &mut self.entries);
        if at < entries.len() {
            entries.set(at, (key, service));
        } else {
            entries.push((key, service));
        }
        assert(entries@[at as int].0@ == k);
        assert forall|i: int| 0 <= i < was.entries@.len() && i != at implies (
        #[trigger] entries@[i]) == was.entries@[i] by {}
        self.entries = entries;
        assert forall|q: (Seq<char>, Seq<char>)| #[trigger]
            self.has_entry(q) == (q == k || was.has_entry(q)) by {
            if was.has_entry(q) && q != k {
                assert(self.entries@[was.entry_of(q)].0@ == q);
            }
        }
        assert forall|q: (Seq<char>, Seq<char>)| #[trigger] self.has_entry(q) implies self@[q] == (
        if q == k {
            service
        } else {
            was@[q]
        }) by {
            if q == k {
                assert(self.entry_of(q) == at);
            } else {
                assert(self.entries@[was.entry_of(q)].0@ == q);
                assert(self.entry_of(q) == was.entry_of(q));
            }
        }
        assert(self@ =~= was@.insert(k, service));
    }

    /// Takes the connection under a key out of the table, if there is one.
    pub fn remove(&mut self, key: &BackendTransportKey) -> (gone: Option<
        BackendTransportService<S, C>,
    >)
        ensures
            final(self)@ == old(self)@.remove(key@),
            gone == (if old(self)@.contains_key(key@) {
                Some(old(self)@[key@])
            } else {
                None
            }),
    {
        proof {
            use_type_invariant(&*self);
        }
        let at = self.position(key);
        let ghost was = *self;
        let ghost k = key@;
        if at >= self.entries.len() {
            assert(was@.remove(k) =~= was@);
            return None;
        }
        let mut entries: Vec<(BackendTransportKey, BackendTransportService<S, C>)> = Vec::new();
        std::mem::swap(&mut entries, &mut self.entries);
        let (_, service) = entries.swap_remove(at);
        let ghost last = was.entries@.len() - 1;
        assert forall|i: int| 0 <= i < entries@.len() implies #[trigger] entries@[i]
            == was.entries@[if i == at {
            last
        } else {
            i
        }] by {}
        self.entries = entries;
        assert(was.has_entry(k) && was.entry_of(k) == at);
        assert forall|q: (Seq<char>, Seq<char>)| #[trigger]
            self.has_entry(q) == (q != k && was.has_entry(q)) by {
            if was.has_entry(q) && q != k {
                let before = was.entry_of(q);
                let now = if before == last {
                    at as int
                } else {
                    before
                };
                assert(self.entries@[now].0@ == q);
            }
            if self.has_entry(q) {
                let now = self.entry_of(q);
                let before = if now == at {
                    last
                } else {
                    now
                };
                assert(was.entries@[before].0@ == q);
            }
        }
        assert forall|q: (Seq<char>, Seq<char>)| #[trigger] self.has_entry(q) implies self@[q]
            == was@[q] by {
            let now = self.entry_of(q);
            let before = if now == at {
                last
            } else {
                now
            };
            assert(was.entries@[before].0@ == q);
            assert(was.entry_of(q) == before);
        }
        assert(self@ =~= was@.remove(k));
        Some(service)
    }

    /// The connection under a key.
    pub fn get(&self, key: &BackendTransportKey) -> (found: Option<&BackendTransportService<S, C>>)
        ensures
            match found {
                Some(service) => self@.contains_key(key@) && *service == self@[key@],
                None => !self@.contains_key(key@),
            },
    {
        proof {
            use_type_invariant(self);
        }
        let at = self.position(key);
        if at < self.entries.len() {
            assert(self.entries@[at as int].0@ == key@);
            Some(&self.entries[at].1)
        } else {
            None
        }
    }
}

} // verus!
