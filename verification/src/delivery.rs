//! What is listed can be asked for: the lists and the routing fit together.

use vstd::prelude::*;

use crate::listing::{
    ListPromptsResult, ListResourcesResult, ListToolsResult, Prompt, Resource, Tool,
};
use crate::order::Listed;
use crate::routing::{ItemKind, ItemRequest, RouteStep, RoutedItem, SelectStep};
use crate::transport::ServiceHolder;

verus! {

/// Whether a backend is among those of the session and claims the name of its
/// item before any other does.
pub open spec fn owns(backends: Seq<Seq<char>>, backend: Seq<char>, own: Seq<char>) -> bool {
    exists|at: int|
        #![trigger backends[at]]
        0 <= at < backends.len() && backends[at] == backend && crate::names::first_claim(
            backends,
            at,
            own,
        )
}

/// Whether exactly one connection stands for a backend, and is up.
pub open spec fn is_connected<S>(holders: Seq<ServiceHolder<S>>, backend: Seq<char>) -> bool {
    let matching = crate::routing::holders_of(holders, backend);
    matching.len() == 1 && matching[0].running_service is Some
}

/// Whether a request goes to the connection of a backend, for the item that the
/// backend itself calls `own`.
pub open spec fn delivers<X, S>(
    next: SelectStep<X, S>,
    request: ItemRequest<X>,
    holders: Seq<ServiceHolder<S>>,
    backend: Seq<char>,
    own: Seq<char>,
) -> bool {
    &&& next matches SelectStep::Forward(selected)
    &&& Some(selected.service) == crate::routing::holders_of(holders, backend)[0].running_service
    &&& selected.backend_name@ == backend
    &&& selected.item_name@ == own
    &&& selected.request == request
}

proof fn lemma_owned_item_is_delivered<X, S>(
    kind: ItemKind,
    request: ItemRequest<X>,
    backends: Vec<String>,
    backend: Seq<char>,
    own: Seq<char>,
    routed: RoutedItem<X>,
    step: RouteStep<X>,
    holders: Seq<ServiceHolder<S>>,
    next: SelectStep<X, S>,
)
    requires
        owns(crate::routing::string_views(backends@), backend, own),
        request.item@ == crate::names::qualified(backend, own),
        step.routes(kind, request, Ok(backends)),
        step matches RouteStep::BorrowTransports(r) ==> r == routed,
        next.selects(routed, holders),
        is_connected(holders, backend),
    ensures
        delivers(next, request, holders, backend, own),
{
    let names = crate::routing::string_views(backends@);
    let at = choose|at: int|
        #![trigger names[at]]
        0 <= at < names.len() && names[at] == backend && crate::names::first_claim(names, at, own);
    assert(names[at] == backends@[at]@);
    crate::routing::law_listed_item_reaches_its_backend(
        kind,
        request,
        backends,
        at,
        own,
        routed,
        step,
        holders,
        next,
    );
}

/// Every tool in the merged list can be called by the name it has there: the
/// request goes to the backend that listed the tool, under the name that it
/// has there, provided the backend is connected and no other backend claims the
/// name first.
pub proof fn law_listed_tools_can_be_called<D, X, S>(
    pages: Seq<(String, ListToolsResult<D>)>,
    merged: Seq<Tool<D>>,
    k: int,
    request: ItemRequest<X>,
    backends: Vec<String>,
    routed: RoutedItem<X>,
    step: RouteStep<X>,
    holders: Seq<ServiceHolder<S>>,
    next: SelectStep<X, S>,
)
    requires
        crate::listing::is_merge(pages, merged),
        0 <= k < merged.len(),
        request.item@ == merged[k].name@,
        forall|page: int, item: int|
            #![trigger pages[page].1.tools@[item]]
            0 <= page < pages.len() && 0 <= item < pages[page].1.tools@.len() && merged[k]@
                == Tool::<D>::qualified_view(pages[page].0@, pages[page].1.tools@[item]@) ==> owns(
                crate::routing::string_views(backends@),
                pages[page].0@,
                pages[page].1.tools@[item].name@,
            ) && is_connected(holders, pages[page].0@),
        step.routes(ItemKind::Tool, request, Ok(backends)),
        step matches RouteStep::BorrowTransports(r) ==> r == routed,
        next.selects(routed, holders),
    ensures
        exists|page: int, item: int|
            #![trigger pages[page].1.tools@[item]]
            0 <= page < pages.len() && 0 <= item < pages[page].1.tools@.len() && merged[k]@
                == Tool::<D>::qualified_view(pages[page].0@, pages[page].1.tools@[item]@)
                && delivers(
                next,
                request,
                holders,
                pages[page].0@,
                pages[page].1.tools@[item].name@,
            ),
{
    crate::listing::law_merged_items_come_from_backends(pages, merged, k);
    let (page, item) = choose|page: int, item: int|
        #![trigger crate::listing::Page::items(pages[page].1)[item]]
        0 <= page < pages.len() && 0 <= item < crate::listing::Page::items(pages[page].1).len()
            && merged[k]@ == Tool::<D>::qualified_view(
            pages[page].0@,
            crate::listing::Page::items(pages[page].1)[item]@,
        );
    let backend = pages[page].0@;
    let own = pages[page].1.tools@[item].name@;
    assert(merged[k]@.name == crate::names::qualified(backend, own));
    lemma_owned_item_is_delivered(
        ItemKind::Tool,
        request,
        backends,
        backend,
        own,
        routed,
        step,
        holders,
        next,
    );
}

/// Every resource in the merged list can be read by the URI it has there: the
/// request goes to the backend that listed the resource, under the URI that it
/// has there, provided the backend is connected and no other backend claims the
/// URI first.
pub proof fn law_listed_resources_can_be_read<D, X, S>(
    pages: Seq<(String, ListResourcesResult<D>)>,
    merged: Seq<Resource<D>>,
    k: int,
    request: ItemRequest<X>,
    backends: Vec<String>,
    routed: RoutedItem<X>,
    step: RouteStep<X>,
    holders: Seq<ServiceHolder<S>>,
    next: SelectStep<X, S>,
)
    requires
        crate::listing::is_merge(pages, merged),
        0 <= k < merged.len(),
        request.item@ == merged[k].uri@,
        forall|page: int, item: int|
            #![trigger pages[page].1.resources@[item]]
            0 <= page < pages.len() && 0 <= item < pages[page].1.resources@.len() && merged[k]@
                == Resource::<D>::qualified_view(pages[page].0@, pages[page].1.resources@[item]@) ==> owns(
                crate::routing::string_views(backends@),
                pages[page].0@,
                pages[page].1.resources@[item].uri@,
            ) && is_connected(holders, pages[page].0@),
        step.routes(ItemKind::Resource, request, Ok(backends)),
        step matches RouteStep::BorrowTransports(r) ==> r == routed,
        next.selects(routed, holders),
    ensures
        exists|page: int, item: int|
            #![trigger pages[page].1.resources@[item]]
            0 <= page < pages.len() && 0 <= item < pages[page].1.resources@.len() && merged[k]@
                == Resource::<D>::qualified_view(pages[page].0@, pages[page].1.resources@[item]@)
                && delivers(
                next,
                request,
                holders,
                pages[page].0@,
                pages[page].1.resources@[item].uri@,
            ),
{
    crate::listing::law_merged_items_come_from_backends(pages, merged, k);
    let (page, item) = choose|page: int, item: int|
        #![trigger crate::listing::Page::items(pages[page].1)[item]]
        0 <= page < pages.len() && 0 <= item < crate::listing::Page::items(pages[page].1).len()
            && merged[k]@ == Resource::<D>::qualified_view(
            pages[page].0@,
            crate::listing::Page::items(pages[page].1)[item]@,
        );
    let backend = pages[page].0@;
    let own = pages[page].1.resources@[item].uri@;
    assert(merged[k]@.uri == crate::names::qualified(backend, own));
    lemma_owned_item_is_delivered(
        ItemKind::Resource,
        request,
        backends,
        backend,
        own,
        routed,
        step,
        holders,
        next,
    );
}

/// Every prompt in the merged list can be fetched by the name it has there: the
/// request goes to the backend that listed the prompt, under the name that it
/// has there, provided the backend is connected and no other backend claims the
/// name first.
pub proof fn law_listed_prompts_can_be_fetched<D, X, S>(
    pages: Seq<(String, ListPromptsResult<D>)>,
    merged: Seq<Prompt<D>>,
    k: int,
    request: ItemRequest<X>,
    backends: Vec<String>,
    routed: RoutedItem<X>,
    step: RouteStep<X>,
    holders: Seq<ServiceHolder<S>>,
    next: SelectStep<X, S>,
)
    requires
        crate::listing::is_merge(pages, merged),
        0 <= k < merged.len(),
        request.item@ == merged[k].name@,
        forall|page: int, item: int|
            #![trigger pages[page].1.prompts@[item]]
            0 <= page < pages.len() && 0 <= item < pages[page].1.prompts@.len() && merged[k]@
                == Prompt::<D>::qualified_view(pages[page].0@, pages[page].1.prompts@[item]@) ==> owns(
                crate::routing::string_views(backends@),
                pages[page].0@,
                pages[page].1.prompts@[item].name@,
            ) && is_connected(holders, pages[page].0@),
        step.routes(ItemKind::Prompt, request, Ok(backends)),
        step matches RouteStep::BorrowTransports(r) ==> r == routed,
        next.selects(routed, holders),
    ensures
        exists|page: int, item: int|
            #![trigger pages[page].1.prompts@[item]]
            0 <= page < pages.len() && 0 <= item < pages[page].1.prompts@.len() && merged[k]@
                == Prompt::<D>::qualified_view(pages[page].0@, pages[page].1.prompts@[item]@)
                && delivers(
                next,
                request,
                holders,
                pages[page].0@,
                pages[page].1.prompts@[item].name@,
            ),
{
    crate::listing::law_merged_items_come_from_backends(pages, merged, k);
    let (page, item) = choose|page: int, item: int|
        #![trigger crate::listing::Page::items(pages[page].1)[item]]
        0 <= page < pages.len() && 0 <= item < crate::listing::Page::items(pages[page].1).len()
            && merged[k]@ == Prompt::<D>::qualified_view(
            pages[page].0@,
            crate::listing::Page::items(pages[page].1)[item]@,
        );
    let backend = pages[page].0@;
    let own = pages[page].1.prompts@[item].name@;
    assert(merged[k]@.name == crate::names::qualified(backend, own));
    lemma_owned_item_is_delivered(
        ItemKind::Prompt,
        request,
        backends,
        backend,
        own,
        routed,
        step,
        holders,
        next,
    );
}

} // verus!
