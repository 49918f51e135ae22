//! Where requests for one item go.

use vstd::prelude::*;

use crate::error::ErrorData;
use crate::routing::{
    call_tool, get_prompt, read_resource, relay, ItemKind, ItemRequest, RouteStep, RoutedItem,
    SelectStep, SelectedItem,
};
use crate::transport::ServiceHolder;

verus! {

/// Calls of tools are refused as the validation refuses them. Those that are
/// valid go to the first backend that the item can be of: its name, a dash and
/// the item's own name are what was asked for. They are refused exactly where
/// what was asked for does not start with any backend's name and a dash.
pub proof fn law_tool_requests_find_their_backend<X>(
    request: ItemRequest<X>,
    validated: Result<Vec<String>, ErrorData>,
    step: RouteStep<X>,
)
    requires
        call_ensures(call_tool::<X>, (request, validated), step),
    ensures
        match (validated, step) {
            (Err(refusal), RouteStep::Done(error)) => error == refusal,
            (Err(_), RouteStep::BorrowTransports(_)) => false,
            (Ok(backends), RouteStep::BorrowTransports(routed)) => {
                &&& routed.kind == ItemKind::Tool
                &&& routed.request == request
                &&& request.item@ == routed.backend_name@ + seq!['-'] + routed.item_name@
                &&& exists|i: int|
                    #![trigger backends@[i]]
                    0 <= i < backends@.len() && backends@[i]@ == routed.backend_name@ && forall|
                        j: int,
                        rest: Seq<char>,
                    |
                        0 <= j < i ==> request.item@ != #[trigger] (backends@[j]@ + seq!['-']
                            + rest)
            },
            (Ok(backends), RouteStep::Done(error)) => {
                &&& error.code == -32603
                &&& error.message@ == "Routing problem... wrong tool name"@
                &&& error.data is None
                &&& forall|j: int, rest: Seq<char>|
                    0 <= j < backends@.len() ==> request.item@ != #[trigger] (backends@[j]@
                        + seq!['-'] + rest)
            },
        },
{
    if let Ok(backends) = validated {
        lemma_routed(ItemKind::Tool, request, backends, step);
    }
}

/// Reads of resources are refused as the validation refuses them. Those that are
/// valid go to the first backend that the item can be of: its name, a dash and
/// the item's own name are what was asked for. They are refused exactly where
/// what was asked for does not start with any backend's name and a dash.
pub proof fn law_resource_requests_find_their_backend<X>(
    request: ItemRequest<X>,
    validated: Result<Vec<String>, ErrorData>,
    step: RouteStep<X>,
)
    requires
        call_ensures(read_resource::<X>, (request, validated), step),
    ensures
        match (validated, step) {
            (Err(refusal), RouteStep::Done(error)) => error == refusal,
            (Err(_), RouteStep::BorrowTransports(_)) => false,
            (Ok(backends), RouteStep::BorrowTransports(routed)) => {
                &&& routed.kind == ItemKind::Resource
                &&& routed.request == request
                &&& request.item@ == routed.backend_name@ + seq!['-'] + routed.item_name@
                &&& exists|i: int|
                    #![trigger backends@[i]]
                    0 <= i < backends@.len() && backends@[i]@ == routed.backend_name@ && forall|
                        j: int,
                        rest: Seq<char>,
                    |
                        0 <= j < i ==> request.item@ != #[trigger] (backends@[j]@ + seq!['-']
                            + rest)
            },
            (Ok(backends), RouteStep::Done(error)) => {
                &&& error.code == -32603
                &&& error.message@ == "Routing problem... wrong resource name"@
                &&& error.data is None
                &&& forall|j: int, rest: Seq<char>|
                    0 <= j < backends@.len() ==> request.item@ != #[trigger] (backends@[j]@
                        + seq!['-'] + rest)
            },
        },
{
    if let Ok(backends) = validated {
        lemma_routed(ItemKind::Resource, request, backends, step);
    }
}

/// Requests for prompts are refused as the validation refuses them. Those that are
/// valid go to the first backend that the item can be of: its name, a dash and
/// the item's own name are what was asked for. They are refused exactly where
/// what was asked for does not start with any backend's name and a dash.
pub proof fn law_prompt_requests_find_their_backend<X>(
    request: ItemRequest<X>,
    validated: Result<Vec<String>, ErrorData>,
    step: RouteStep<X>,
)
    requires
        call_ensures(get_prompt::<X>, (request, validated), step),
    ensures
        match (validated, step) {
            (Err(refusal), RouteStep::Done(error)) => error == refusal,
            (Err(_), RouteStep::BorrowTransports(_)) => false,
            (Ok(backends), RouteStep::BorrowTransports(routed)) => {
                &&& routed.kind == ItemKind::Prompt
                &&& routed.request == request
                &&& request.item@ == routed.backend_name@ + seq!['-'] + routed.item_name@
                &&& exists|i: int|
                    #![trigger backends@[i]]
                    0 <= i < backends@.len() && backends@[i]@ == routed.backend_name@ && forall|
                        j: int,
                        rest: Seq<char>,
                    |
                        0 <= j < i ==> request.item@ != #[trigger] (backends@[j]@ + seq!['-']
                            + rest)
            },
            (Ok(backends), RouteStep::Done(error)) => {
                &&& error.code == -32603
                &&& error.message@ == "Routing problem... wrong prompt name"@
                &&& error.data is None
                &&& forall|j: int, rest: Seq<char>|
                    0 <= j < backends@.len() ==> request.item@ != #[trigger] (backends@[j]@
                        + seq!['-'] + rest)
            },
        },
{
    if let Ok(backends) = validated {
        lemma_routed(ItemKind::Prompt, request, backends, step);
    }
}

proof fn lemma_routed<X>(
    kind: ItemKind,
    request: ItemRequest<X>,
    backends: Vec<String>,
    step: RouteStep<X>,
)
    requires
        step.routes(kind, request, Ok(backends)),
    ensures
        match step {
            RouteStep::BorrowTransports(routed) => {
                &&& request.item@ == routed.backend_name@ + seq!['-'] + routed.item_name@
                &&& exists|i: int|
                    #![trigger backends@[i]]
                    0 <= i < backends@.len() && backends@[i]@ == routed.backend_name@ && forall|
                        j: int,
                        rest: Seq<char>,
                    |
                        0 <= j < i ==> request.item@ != #[trigger] (backends@[j]@ + seq!['-']
                            + rest)
            },
            RouteStep::Done(_) => forall|j: int, rest: Seq<char>|
                0 <= j < backends@.len() ==> request.item@ != #[trigger] (backends@[j]@
                    + seq!['-'] + rest),
        },
{
    let names = crate::routing::string_views(backends@);
    crate::laws::naming::lemma_split(request.item@, names);
    assert forall|j: int| 0 <= j < names.len() implies #[trigger] names[j] == backends@[j]@ by {}
    match step {
        RouteStep::BorrowTransports(routed) => {
            let i = choose|i: int|
                #![trigger names[i]]
                0 <= i < names.len() && names[i] == routed.backend_name@ && forall|
                    j: int,
                    rest: Seq<char>,
                |
                    0 <= j < i ==> request.item@ != #[trigger] (names[j] + seq!['-'] + rest);
            assert(backends@[i]@ == routed.backend_name@);
            assert forall|j: int, rest: Seq<char>| 0 <= j < i implies request.item@
                != #[trigger] (backends@[j]@ + seq!['-'] + rest) by {
                assert(request.item@ != names[j] + seq!['-'] + rest);
            }
        },
        RouteStep::Done(_) => {
            assert forall|j: int, rest: Seq<char>| 0 <= j < backends@.len() implies request.item@
                != #[trigger] (backends@[j]@ + seq!['-'] + rest) by {
                assert(request.item@ != names[j] + seq!['-'] + rest);
            }
        },
    }
}

proof fn lemma_matching_holders<S>(holders: Seq<ServiceHolder<S>>, backend: Seq<char>)
    ensures
        ({
            let matching = crate::routing::holders_of(holders, backend);
            &&& matching.len() == 0 ==> forall|i: int|
                0 <= i < holders.len() ==> (#[trigger] holders[i]).name@ != backend
            &&& matching.len() == 1 ==> exists|i: int|
                #![trigger holders[i]]
                0 <= i < holders.len() && holders[i] == matching[0] && holders[i].name@ == backend
                    && forall|j: int|
                    0 <= j < holders.len() && (#[trigger] holders[j]).name@ == backend ==> j == i
            &&& matching.len() > 1 ==> exists|i: int, j: int|
                #![trigger holders[i], holders[j]]
                0 <= i < j < holders.len() && holders[i].name@ == backend && holders[j].name@
                    == backend
        }),
    decreases holders.len(),
{
    reveal(Seq::filter);
    if holders.len() > 0 {
        let front = holders.drop_last();
        let last = holders.len() - 1;
        let before = crate::routing::holders_of(front, backend);
        lemma_matching_holders(front, backend);
        assert forall|i: int| 0 <= i < front.len() implies #[trigger] holders[i] == front[i] by {}
        if holders[last].name@ == backend {
            if before.len() > 0 {
                if before.len() == 1 {
                    let i = choose|i: int|
                        #![trigger front[i]]
                        0 <= i < front.len() && front[i] == before[0] && front[i].name@ == backend
                            && forall|j: int|
                            0 <= j < front.len() && (#[trigger] front[j]).name@ == backend ==> j
                                == i;
                    assert(holders[i].name@ == backend && holders[last].name@ == backend);
                } else {
                    let (i, j) = choose|i: int, j: int|
                        #![trigger front[i], front[j]]
                        0 <= i < j < front.len() && front[i].name@ == backend && front[j].name@
                            == backend;
                    assert(holders[i].name@ == backend && holders[j].name@ == backend);
                }
            } else {
                assert forall|j: int|
                    0 <= j < holders.len() && (#[trigger] holders[j]).name@ == backend implies j
                    == last by {
                    if j < last {
                        assert(front[j].name@ != backend);
                    }
                }
                assert(holders[last] == crate::routing::holders_of(holders, backend)[0]);
            }
        } else {
            assert(crate::routing::holders_of(holders, backend) =~= before);
            if before.len() == 1 {
                let i = choose|i: int|
                    #![trigger front[i]]
                    0 <= i < front.len() && front[i] == before[0] && front[i].name@ == backend
                        && forall|j: int|
                        0 <= j < front.len() && (#[trigger] front[j]).name@ == backend ==> j == i;
                assert(holders[i] == before[0]);
                assert forall|j: int|
                    0 <= j < holders.len() && (#[trigger] holders[j]).name@ == backend implies j
                    == i by {
                    assert(j < last);
                    assert(front[j].name@ == backend);
                }
            } else if before.len() > 1 {
                let (i, j) = choose|i: int, j: int|
                    #![trigger front[i], front[j]]
                    0 <= i < j < front.len() && front[i].name@ == backend && front[j].name@
                        == backend;
                assert(holders[i].name@ == backend && holders[j].name@ == backend);
            } else {
                assert forall|i: int| 0 <= i < holders.len() implies (#[trigger] holders[i]).name@
                    != backend by {
                    if i < last {
                        assert(front[i].name@ != backend);
                    }
                }
            }
        }
    }
}

/// A request goes on only to the connection of its own backend, which is the
/// only one of that name. Where several connections have the name, the session
/// is cleaned up and the request refused; where none has it, or the one that
/// has it is down, the client is told that no backend responded.
pub proof fn law_requests_go_to_their_own_backend_only<X, S>(
    routed: RoutedItem<X>,
    holders: Vec<ServiceHolder<S>>,
    step: SelectStep<X, S>,
)
    requires
        call_ensures(RoutedItem::<X>::select::<S>, (routed, holders), step),
    ensures
        match step {
            SelectStep::Forward(selected) => {
                &&& selected.request == routed.request
                &&& selected.backend_name@ == routed.backend_name@
                &&& selected.item_name@ == routed.item_name@
                &&& exists|i: int|
                    #![trigger holders@[i]]
                    0 <= i < holders@.len() && holders@[i].name@ == routed.backend_name@
                        && holders@[i].running_service == Some(selected.service) && forall|j: int|
                        0 <= j < holders@.len() && (#[trigger] holders@[j]).name@
                            == routed.backend_name@ ==> j == i
            },
            SelectStep::CleanUp(refusal) => {
                &&& exists|i: int, j: int|
                    #![trigger holders@[i], holders@[j]]
                    0 <= i < j < holders@.len() && holders@[i].name@ == routed.backend_name@
                        && holders@[j].name@ == routed.backend_name@
                &&& refusal.error.code == -32600
                &&& refusal.error.data is None
                &&& match routed.kind {
                    ItemKind::Tool => {
                        &&& refusal.reason@
                            == "call_tool: invalid session.. duplicate tools detected"@
                        &&& refusal.error.message@ == "Routing problem... multiple matching tools"@
                    },
                    ItemKind::Resource => {
                        &&& refusal.reason@
                            == "read_resource: invalid session.. duplicate resources detected"@
                        &&& refusal.error.message@
                            == "Routing problem... multiple matching resources"@
                    },
                    ItemKind::Prompt => {
                        &&& refusal.reason@
                            == "get_prompt: invalid session.. duplicate prompts detected"@
                        &&& refusal.error.message@
                            == "Routing problem... multiple matching prompts"@
                    },
                }
            },
            SelectStep::Done(error) => {
                &&& error.code == -32603
                &&& error.message@ == "Routing problem... got no responses from backends"@
                &&& error.data is None
                &&& forall|i: int|
                    0 <= i < holders@.len() && (#[trigger] holders@[i]).name@
                        == routed.backend_name@ ==> holders@[i].running_service is None
                &&& forall|i: int, j: int|
                    #![trigger holders@[i], holders@[j]]
                    0 <= i < holders@.len() && 0 <= j < holders@.len() && holders@[i].name@
                        == routed.backend_name@ && holders@[j].name@ == routed.backend_name@
                        ==> i == j
            },
        },
{
    lemma_matching_holders(holders@, routed.backend_name@);
    let matching = crate::routing::holders_of(holders@, routed.backend_name@);
    if matching.len() == 1 {
        let i = choose|i: int|
            #![trigger holders@[i]]
            0 <= i < holders@.len() && holders@[i] == matching[0] && holders@[i].name@
                == routed.backend_name@ && forall|j: int|
                0 <= j < holders@.len() && (#[trigger] holders@[j]).name@ == routed.backend_name@
                    ==> j == i;
        assert(holders@[i].name@ == routed.backend_name@);
    }
}

/// The backend is asked for the item by its own name; nothing else changes.
pub proof fn law_backends_are_asked_by_own_name<X, S>(
    selected: SelectedItem<X, S>,
    sent: (S, ItemRequest<X>),
)
    requires
        call_ensures(SelectedItem::<X, S>::into_request, (selected,), sent),
    ensures
        sent.0 == selected.service,
        sent.1.item@ == selected.item_name@,
        sent.1.rest == selected.request.rest,
{
}

/// What a backend responds is passed on; a failure is reported as no response.
pub proof fn law_responses_are_passed_on<R, E>(
    response: Result<R, E>,
    answer: Result<R, ErrorData>,
)
    requires
        call_ensures(relay::<R, E>, (response,), answer),
    ensures
        response is Ok <==> answer is Ok,
        response matches Ok(result) ==> answer == Ok::<R, ErrorData>(result),
        answer matches Err(error) ==> {
            &&& error.code == -32603
            &&& error.message@ == "Routing problem... got no responses from backends"@
            &&& error.data is None
        },
{
}

/// An item that is asked for as a backend's name, a dash and the
/// item's own name is asked of that backend's connection, by its own name, if
/// the connection is up and no other backend's name and a dash start the same.
pub proof fn law_items_are_asked_of_their_backend<X, S>(
    kind: ItemKind,
    request: ItemRequest<X>,
    backends: Vec<String>,
    at: int,
    own: Seq<char>,
    step: RouteStep<X>,
    routed: RoutedItem<X>,
    holders: Vec<ServiceHolder<S>>,
    holder: int,
    next: SelectStep<X, S>,
)
    requires
        match kind {
            ItemKind::Tool => call_ensures(call_tool::<X>, (request, Ok(backends)), step),
            ItemKind::Resource => call_ensures(read_resource::<X>, (request, Ok(backends)), step),
            ItemKind::Prompt => call_ensures(get_prompt::<X>, (request, Ok(backends)), step),
        },
        step matches RouteStep::BorrowTransports(r) ==> r == routed,
        call_ensures(RoutedItem::<X>::select::<S>, (routed, holders), next),
        0 <= at < backends@.len(),
        request.item@ == backends@[at]@ + seq!['-'] + own,
        forall|j: int, rest: Seq<char>|
            0 <= j < backends@.len() && request.item@ == #[trigger] (backends@[j]@ + seq!['-']
                + rest) ==> backends@[j]@ == backends@[at]@,
        0 <= holder < holders@.len(),
        holders@[holder].name@ == backends@[at]@,
        holders@[holder].running_service is Some,
        forall|j: int|
            0 <= j < holders@.len() && (#[trigger] holders@[j]).name@ == backends@[at]@ ==> j
                == holder,
    ensures
        step is BorrowTransports,
        next matches SelectStep::Forward(selected) && {
            &&& Some(selected.service) == holders@[holder].running_service
            &&& selected.item_name@ == own
            &&& selected.request == request
        },
{
    match kind {
        ItemKind::Tool => law_tool_requests_find_their_backend(request, Ok(backends), step),
        ItemKind::Resource => law_resource_requests_find_their_backend(
            request,
            Ok(backends),
            step,
        ),
        ItemKind::Prompt => law_prompt_requests_find_their_backend(request, Ok(backends), step),
    }
    law_requests_go_to_their_own_backend_only(routed, holders, next);
    let backend = backends@[at]@;
    assert(request.item@ == backends@[at]@ + seq!['-'] + own);
    let i = choose|i: int|
        #![trigger backends@[i]]
        0 <= i < backends@.len() && backends@[i]@ == routed.backend_name@;
    assert(request.item@ == backends@[i]@ + seq!['-'] + routed.item_name@);
    assert(own =~= request.item@.skip(backend.len() as int + 1));
    assert(routed.item_name@ =~= request.item@.skip(backend.len() as int + 1));
    assert(holders@[holder].name@ == routed.backend_name@);
}

} // verus!
