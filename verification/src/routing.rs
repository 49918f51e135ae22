//! Requests for one item of one backend: which backend they go to, and what
//! the client is told when they cannot go anywhere.
//!
//! A request is served in steps. Each step says what the gateway does next;
//! what comes of it is handed to the value that the step carries.

use vstd::prelude::*;

use crate::error::ErrorData;
use crate::names::{split_prompt_name, split_resource_name, split_tool_name};
use crate::transport::ServiceHolder;

verus! {

/// What a client asks a backend for.
#[derive(Clone, Copy, Debug, PartialEq, Eq)]
pub enum ItemKind {
    Tool,
    Resource,
    Prompt,
}

impl ItemKind {
    /// What a client is told whose request names no item of a backend.
    pub open spec fn wrong_name_spec(self) -> Seq<char> {
        match self {
            ItemKind::Tool => "Routing problem... wrong tool name"@,
            ItemKind::Resource => "Routing problem... wrong resource name"@,
            ItemKind::Prompt => "Routing problem... wrong prompt name"@,
        }
    }

    /// What a client is told when several connections stand for the backend.
    pub open spec fn multiple_matches_spec(self) -> Seq<char> {
        match self {
            ItemKind::Tool => "Routing problem... multiple matching tools"@,
            ItemKind::Resource => "Routing problem... multiple matching resources"@,
            ItemKind::Prompt => "Routing problem... multiple matching prompts"@,
        }
    }

    /// Why the session is cleaned up when several connections stand for the backend.
    pub open spec fn cleanup_reason_spec(self) -> Seq<char> {
        match self {
            ItemKind::Tool => "call_tool: invalid session.. duplicate tools detected"@,
            ItemKind::Resource => "read_resource: invalid session.. duplicate resources detected"@,
            ItemKind::Prompt => "get_prompt: invalid session.. duplicate prompts detected"@,
        }
    }

    fn wrong_name(self) -> (text: &'static str)
        ensures
            text@ == self.wrong_name_spec(),
    {
        match self {
            ItemKind::Tool => "Routing problem... wrong tool name",
            ItemKind::Resource => "Routing problem... wrong resource name",
            ItemKind::Prompt => "Routing problem... wrong prompt name",
        }
    }

    fn multiple_matches(self) -> (text: &'static str)
        ensures
            text@ == self.multiple_matches_spec(),
    {
        match self {
            ItemKind::Tool => "Routing problem... multiple matching tools",
            ItemKind::Resource => "Routing problem... multiple matching resources",
            ItemKind::Prompt => "Routing problem... multiple matching prompts",
        }
    }

    fn cleanup_reason(self) -> (text: &'static str)
        ensures
            text@ == self.cleanup_reason_spec(),
    {
        match self {
            ItemKind::Tool => "call_tool: invalid session.. duplicate tools detected",
            ItemKind::Resource => "read_resource: invalid session.. duplicate resources detected",
            ItemKind::Prompt => "get_prompt: invalid session.. duplicate prompts detected",
        }
    }
}

/// Whether a client is told that no backend responded.
pub open spec fn says_no_response(error: ErrorData) -> bool {
    error.says(
        crate::error::INTERNAL_ERROR,
        "Routing problem... got no responses from backends"@,
    )
}

pub(crate) fn no_response() -> (error: ErrorData)
    ensures
        says_no_response(error),
{
    ErrorData::internal_error("Routing problem... got no responses from backends")
}

/// A request for one item: the tool or prompt by its name, or the resource by
/// its URI, and everything else in the request.
#[derive(Debug, PartialEq)]
pub struct ItemRequest<X> {
    pub item: String,
    pub rest: X,
}

/// The texts of owned strings.
pub open spec fn string_views(strings: Seq<String>) -> Seq<Seq<char>> {
    strings.map_values(|string: String| string@)
}

fn borrow_all<'a>(strings: &'a Vec<String>) -> (borrowed: Vec<&'a str>)
    ensures
        crate::names::name_views(borrowed@) == string_views(strings@),
{
    let mut borrowed: Vec<&'a str> = Vec::new();
    let mut next: usize = 0;
    while next < strings.len()
        invariant
            next <= strings@.len(),
            borrowed@.len() == next,
            forall|i: int| 0 <= i < next ==> (#[trigger] borrowed@[i])@ == strings@[i]@,
        decreases strings@.len() - next,
    {
        borrowed.push(strings[next].as_str());
        next = next + 1;
    }
    assert(crate::names::name_views(borrowed@) =~= string_views(strings@));
    borrowed
}

fn split_item(kind: ItemKind, item: &str, backends: &Vec<String>) -> (found: Option<
    (String, String),
>)
    ensures
        match found {
            Some((backend, own)) => crate::names::split_name(item@, string_views(backends@))
                == Some((backend@, own@)),
            None => crate::names::split_name(item@, string_views(backends@)) is None,
        },
{
    let names = borrow_all(backends);
    match kind {
        ItemKind::Tool => match split_tool_name(item, names.as_slice()) {
            Some(pair) => Some((pair.backend_name.to_owned(), pair.tool_name.to_owned())),
            None => None,
        },
        ItemKind::Resource => match split_resource_name(item, names.as_slice()) {
            Some(pair) => Some((pair.backend_name.to_owned(), pair.resource_uri.to_owned())),
            None => None,
        },
        ItemKind::Prompt => match split_prompt_name(item, names.as_slice()) {
            Some(pair) => Some((pair.backend_name.to_owned(), pair.prompt_name.to_owned())),
            None => None,
        },
    }
}

/// A request whose backend is known.
#[derive(Debug)]
pub struct RoutedItem<X> {
    pub kind: ItemKind,
    pub request: ItemRequest<X>,
    pub backend_name: String,
    /// What the backend itself calls the item.
    pub item_name: String,
}

/// What comes first: the connections of the session are needed, or the client
/// is told why there is nothing to do.
#[derive(Debug)]
pub enum RouteStep<X> {
    BorrowTransports(RoutedItem<X>),
    Done(ErrorData),
}

impl<X> RouteStep<X> {
    /// Whether this is the step for a request of a session that was validated
    /// with this outcome: the names of its backends, or a refusal.
    pub open spec fn routes(
        self,
        kind: ItemKind,
        request: ItemRequest<X>,
        validated: Result<Vec<String>, ErrorData>,
    ) -> bool {
        match validated {
            Err(refusal) => self == RouteStep::<X>::Done(refusal),
            Ok(backends) => match crate::names::split_name(
                request.item@,
                string_views(backends@),
            ) {
                Some((backend, own)) => {
                    &&& self matches RouteStep::BorrowTransports(routed)
                    &&& routed.kind == kind
                    &&& routed.request == request
                    &&& routed.backend_name@ == backend
                    &&& routed.item_name@ == own
                },
                None => {
                    &&& self matches RouteStep::Done(error)
                    &&& error.says(crate::error::INTERNAL_ERROR, kind.wrong_name_spec())
                },
            },
        }
    }
}

/// Finds the backend that a request is for.
fn route_item<X>(
    kind: ItemKind,
    request: ItemRequest<X>,
    validated: Result<Vec<String>, ErrorData>,
) -> (step: RouteStep<X>)
    ensures
        step.routes(kind, request, validated),
{
    match validated {
        Err(refusal) => RouteStep::Done(refusal),
        Ok(backends) => match split_item(kind, request.item.as_str(), &backends) {
            Some((backend_name, item_name)) => RouteStep::BorrowTransports(
                RoutedItem { kind, request, backend_name, item_name },
            ),
            None => RouteStep::Done(ErrorData::internal_error(kind.wrong_name())),
        },
    }
}

/// Begins to serve a call of a tool.
pub fn call_tool<X>(
    request: ItemRequest<X>,
    validated: Result<Vec<String>, ErrorData>,
) -> (step: RouteStep<X>)
    ensures
        step.routes(ItemKind::Tool, request, validated),
{
    route_item(ItemKind::Tool, request, validated)
}

/// Begins to serve the reading of a resource.
pub fn read_resource<X>(
    request: ItemRequest<X>,
    validated: Result<Vec<String>, ErrorData>,
) -> (step: RouteStep<X>)
    ensures
        step.routes(ItemKind::Resource, request, validated),
{
    route_item(ItemKind::Resource, request, validated)
}

/// Begins to serve the fetching of a prompt.
pub fn get_prompt<X>(
    request: ItemRequest<X>,
    validated: Result<Vec<String>, ErrorData>,
) -> (step: RouteStep<X>)
    ensures
        step.routes(ItemKind::Prompt, request, validated),
{
    route_item(ItemKind::Prompt, request, validated)
}

/// Picks out the connections that stand for one backend.
pub open spec fn stands_for<S>(backend: Seq<char>) -> spec_fn(ServiceHolder<S>) -> bool {
    |holder: ServiceHolder<S>| holder.name@ == backend
}

/// The connections among `holders` that stand for one backend.
pub open spec fn holders_of<S>(holders: Seq<ServiceHolder<S>>, backend: Seq<char>) -> Seq<
    ServiceHolder<S>,
> {
    holders.filter(stands_for::<S>(backend))
}

/// A request that has reached the connection it goes to.
#[derive(Debug)]
pub struct SelectedItem<X, S> {
    pub service: S,
    pub request: ItemRequest<X>,
    pub backend_name: String,
    /// What the backend itself calls the item.
    pub item_name: String,
}

/// A request that is refused once the session has been cleaned up.
#[derive(Debug)]
pub struct Refusal {
    /// Why the session is cleaned up.
    pub reason: &'static str,
    pub error: ErrorData,
}

/// What comes once the connections are known: the request goes to one of them,
/// or the session is cleaned up and the request refused, or the client is told
/// why there is nothing to do.
#[derive(Debug)]
pub enum SelectStep<X, S> {
    Forward(SelectedItem<X, S>),
    CleanUp(Refusal),
    Done(ErrorData),
}

impl<X, S> SelectStep<X, S> {
    /// Whether this is the step for a routed request and these connections.
    pub open spec fn selects(self, routed: RoutedItem<X>, holders: Seq<ServiceHolder<S>>) -> bool {
        let matching = holders_of(holders, routed.backend_name@);
        if matching.len() > 1 {
            &&& self matches SelectStep::CleanUp(refusal)
            &&& refusal.reason@ == routed.kind.cleanup_reason_spec()
            &&& refusal.error.says(
                crate::error::INVALID_REQUEST,
                routed.kind.multiple_matches_spec(),
            )
        } else if matching.len() == 1 && matching[0].running_service is Some {
            &&& self matches SelectStep::Forward(selected)
            &&& Some(selected.service) == matching[0].running_service
            &&& selected.request == routed.request
            &&& selected.backend_name == routed.backend_name
            &&& selected.item_name == routed.item_name
        } else {
            &&& self matches SelectStep::Done(error)
            &&& says_no_response(error)
        }
    }
}

impl<X> RoutedItem<X> {
    /// Selects the connection that the request goes to.
    pub fn select<S>(self, holders: Vec<ServiceHolder<S>>) -> (step: SelectStep<X, S>)
        ensures
            step.selects(self, holders@),
    {
        let mut target: Option<ServiceHolder<S>> = None;
        let mut several = false;
        let ghost backend = self.backend_name@;
        proof {
            reveal(Seq::filter);
        }
        assert(holders_of(holders@.take(0), backend) =~= Seq::empty());
        for holder in it: holders
            invariant
                it.seq() == holders@,
                backend == self.backend_name@,
                several <==> holders_of(holders@.take(it.index()), backend).len() > 1,
                !several ==> (target is Some <==> holders_of(
                    holders@.take(it.index()),
                    backend,
                ).len() == 1),
                !several && target is Some ==> target->0 == holders_of(
                    holders@.take(it.index()),
                    backend,
                )[0],
        {
            proof {
                reveal(Seq::filter);
                assert(holders@.take(it.index() + 1).drop_last() =~= holders@.take(it.index()));
                assert(holders@.take(it.index() + 1).last() == holder);
            }
            if holder.name == self.backend_name {
                if target.is_some() {
                    several = true;
                } else {
                    target = Some(holder);
                }
            }
        }
        assert(holders@.take(holders@.len() as int) =~= holders@);
        if several {
            return SelectStep::CleanUp(
                Refusal {
                    reason: self.kind.cleanup_reason(),
                    error: ErrorData::invalid_request(self.kind.multiple_matches()),
                },
            );
        }
        match target {
            Some(holder) => match holder.running_service {
                Some(service) => SelectStep::Forward(
                    SelectedItem {
                        service,
                        request: self.request,
                        backend_name: self.backend_name,
                        item_name: self.item_name,
                    },
                ),
                None => SelectStep::Done(no_response()),
            },
            None => SelectStep::Done(no_response()),
        }
    }
}

impl<X, S> SelectedItem<X, S> {
    /// The connection, and the request to send there: the one that came, but
    /// for the item, which goes by the name that the backend gives it.
    pub fn into_request(self) -> (sent: (S, ItemRequest<X>))
        ensures
            sent.0 == self.service,
            sent.1.item == self.item_name,
            sent.1.rest == self.request.rest,
    {
        (self.service, ItemRequest { item: self.item_name, rest: self.request.rest })
    }
}

/// What the client is told when the backend has responded.
pub fn relay<R, E>(response: Result<R, E>) -> (answer: Result<R, ErrorData>)
    ensures
        match response {
            Ok(result) => answer == Ok::<R, ErrorData>(result),
            Err(_) => answer matches Err(error) && says_no_response(error),
        },
{
    match response {
        Ok(result) => Ok(result),
        Err(_) => Err(no_response()),
    }
}

/// A request of a validated session is routed exactly when its item belongs to
/// one of the session's backends; the backend and the item's own name make up
/// the name that the request came with.
pub proof fn law_routed_items_keep_their_names<X>(
    kind: ItemKind,
    request: ItemRequest<X>,
    backends: Vec<String>,
    step: RouteStep<X>,
)
    requires
        step.routes(kind, request, Ok(backends)),
    ensures
        step is BorrowTransports <==> exists|i: int|
            0 <= i < backends@.len() && crate::names::belongs_to(
                request.item@,
                (#[trigger] backends@[i])@,
            ),
        step matches RouteStep::BorrowTransports(routed) ==> {
            &&& crate::names::qualified(routed.backend_name@, routed.item_name@) == request.item@
            &&& exists|i: int|
                0 <= i < backends@.len() && (#[trigger] backends@[i])@ == routed.backend_name@
        },
{
    let names = string_views(backends@);
    crate::names::law_unsplit_names_belong_to_no_backend(request.item@, names);
    crate::names::law_split_then_qualify(request.item@, names);
    assert forall|i: int| 0 <= i < backends@.len() implies names[i] == (
    #[trigger] backends@[i])@ by {}
    if let RouteStep::BorrowTransports(routed) = step {
        let i = choose|i: int|
            #![trigger names[i]]
            0 <= i < names.len() && names[i] == routed.backend_name@ && (forall|j: int|
                0 <= j < i ==> !crate::names::belongs_to(request.item@, #[trigger] names[j]));
        assert(backends@[i]@ == routed.backend_name@);
        assert(exists|j: int|
            0 <= j < names.len() && crate::names::belongs_to(request.item@, #[trigger] names[j]));
        let j = choose|j: int|
            0 <= j < names.len() && crate::names::belongs_to(request.item@, #[trigger] names[j]);
        assert(crate::names::belongs_to(request.item@, backends@[j]@));
    } else {
        assert forall|i: int| 0 <= i < backends@.len() implies !crate::names::belongs_to(
            request.item@,
            (#[trigger] backends@[i])@,
        ) by {
            assert(!crate::names::belongs_to(request.item@, names[i]));
        }
    }
}

/// An item that is asked for under the name that the gateway lists for a
/// backend reaches the backend's connection, under its own name there and with
/// the rest of the request unchanged, unless another backend listed earlier
/// claims the name.
pub proof fn law_listed_item_reaches_its_backend<X, S>(
    kind: ItemKind,
    request: ItemRequest<X>,
    backends: Vec<String>,
    at: int,
    own: Seq<char>,
    routed: RoutedItem<X>,
    step: RouteStep<X>,
    holders: Seq<ServiceHolder<S>>,
    next: SelectStep<X, S>,
)
    requires
        crate::names::first_claim(string_views(backends@), at, own),
        request.item@ == crate::names::qualified(backends@[at]@, own),
        step.routes(kind, request, Ok(backends)),
        step matches RouteStep::BorrowTransports(r) ==> r == routed,
        next.selects(routed, holders),
        holders_of(holders, backends@[at]@).len() == 1,
        holders_of(holders, backends@[at]@)[0].running_service is Some,
    ensures
        step == RouteStep::BorrowTransports(routed),
        next matches SelectStep::Forward(selected) && {
            &&& Some(selected.service) == holders_of(holders, backends@[at]@)[0].running_service
            &&& selected.backend_name@ == backends@[at]@
            &&& selected.item_name@ == own
            &&& selected.request == request
        },
{
    assert(string_views(backends@)[at] == backends@[at]@);
    crate::names::law_qualify_then_split(string_views(backends@), at, own);
}

} // verus!
