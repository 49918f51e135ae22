//! Lists of tools, resources and prompts, merged over the backends.

use std::cmp::Ordering;

use vstd::prelude::*;

use crate::error::ErrorData;
use crate::names::qualify_name;
use crate::order::{compare_names, sorted_by_name, Listed};
use crate::transport::ServiceHolder;

verus! {

/// A tool; `details` is everything but its name.
#[derive(Debug, PartialEq)]
pub struct Tool<D> {
    pub name: String,
    pub details: D,
}

/// A resource; `details` is everything but its name and URI.
#[derive(Debug, PartialEq)]
pub struct Resource<D> {
    pub uri: String,
    pub name: String,
    pub details: D,
}

/// A prompt; `details` is everything but its name.
#[derive(Debug, PartialEq)]
pub struct Prompt<D> {
    pub name: String,
    pub details: D,
}

/// A tool, with its name as text.
pub ghost struct ToolView<D> {
    pub name: Seq<char>,
    pub details: D,
}

/// A resource, with its URI and name as text.
pub ghost struct ResourceView<D> {
    pub uri: Seq<char>,
    pub name: Seq<char>,
    pub details: D,
}

/// A prompt, with its name as text.
pub ghost struct PromptView<D> {
    pub name: Seq<char>,
    pub details: D,
}

impl<D> View for Tool<D> {
    type V = ToolView<D>;

    open spec fn view(&self) -> ToolView<D> {
        ToolView { name: self.name@, details: self.details }
    }
}

impl<D> View for Resource<D> {
    type V = ResourceView<D>;

    open spec fn view(&self) -> ResourceView<D> {
        ResourceView { uri: self.uri@, name: self.name@, details: self.details }
    }
}

impl<D> View for Prompt<D> {
    type V = PromptView<D>;

    open spec fn view(&self) -> PromptView<D> {
        PromptView { name: self.name@, details: self.details }
    }
}

impl<D> Listed for Tool<D> {
    open spec fn listed_name(item: ToolView<D>) -> Seq<char> {
        item.name
    }

    open spec fn qualified_view(backend: Seq<char>, item: ToolView<D>) -> ToolView<D> {
        ToolView { name: crate::names::qualified(backend, item.name), details: item.details }
    }

    fn qualify(self, backend: &str) -> (item: Self) {
        Tool { name: qualify_name(backend, self.name.as_str()), details: self.details }
    }

    fn name_order(&self, other: &Self) -> (order: Ordering) {
        compare_names(self.name.as_str(), other.name.as_str())
    }
}

impl<D> Listed for Resource<D> {
    open spec fn listed_name(item: ResourceView<D>) -> Seq<char> {
        item.name
    }

    open spec fn qualified_view(backend: Seq<char>, item: ResourceView<D>) -> ResourceView<D> {
        ResourceView {
            uri: crate::names::qualified(backend, item.uri),
            name: crate::names::qualified(backend, item.name),
            details: item.details,
        }
    }

    fn qualify(self, backend: &str) -> (item: Self) {
        Resource {
            uri: qualify_name(backend, self.uri.as_str()),
            name: qualify_name(backend, self.name.as_str()),
            details: self.details,
        }
    }

    fn name_order(&self, other: &Self) -> (order: Ordering) {
        compare_names(self.name.as_str(), other.name.as_str())
    }
}

impl<D> Listed for Prompt<D> {
    open spec fn listed_name(item: PromptView<D>) -> Seq<char> {
        item.name
    }

    open spec fn qualified_view(backend: Seq<char>, item: PromptView<D>) -> PromptView<D> {
        PromptView { name: crate::names::qualified(backend, item.name), details: item.details }
    }

    fn qualify(self, backend: &str) -> (item: Self) {
        Prompt { name: qualify_name(backend, self.name.as_str()), details: self.details }
    }

    fn name_order(&self, other: &Self) -> (order: Ordering) {
        compare_names(self.name.as_str(), other.name.as_str())
    }
}

/// One page of tools; `meta` is JSON text.
#[derive(Debug, PartialEq)]
pub struct ListToolsResult<D> {
    pub meta: Option<String>,
    pub next_cursor: Option<String>,
    pub tools: Vec<Tool<D>>,
}

/// One page of resources; `meta` is JSON text.
#[derive(Debug, PartialEq)]
pub struct ListResourcesResult<D> {
    pub meta: Option<String>,
    pub next_cursor: Option<String>,
    pub resources: Vec<Resource<D>>,
}

/// One page of prompts; `meta` is JSON text.
#[derive(Debug, PartialEq)]
pub struct ListPromptsResult<D> {
    pub meta: Option<String>,
    pub next_cursor: Option<String>,
    pub prompts: Vec<Prompt<D>>,
}

/// A page of items that a backend sent.
pub trait Page: Sized {
    type Item: Listed;

    /// The items on the page.
    spec fn items(self) -> Seq<Self::Item>;

    /// Takes the items off the page.
    fn into_items(self) -> (items: Vec<Self::Item>)
        ensures
            items@ == self.items(),
    ;
}

impl<D> Page for ListToolsResult<D> {
    type Item = Tool<D>;

    open spec fn items(self) -> Seq<Tool<D>> {
        self.tools@
    }

    fn into_items(self) -> (items: Vec<Tool<D>>) {
        self.tools
    }
}

impl<D> Page for ListResourcesResult<D> {
    type Item = Resource<D>;

    open spec fn items(self) -> Seq<Resource<D>> {
        self.resources@
    }

    fn into_items(self) -> (items: Vec<Resource<D>>) {
        self.resources
    }
}

impl<D> Page for ListPromptsResult<D> {
    type Item = Prompt<D>;

    open spec fn items(self) -> Seq<Prompt<D>> {
        self.prompts@
    }

    fn into_items(self) -> (items: Vec<Prompt<D>>) {
        self.prompts
    }
}

/// The items of one backend under the names that the gateway gives them.
pub open spec fn qualified_page<T: Listed>(backend: Seq<char>, items: Seq<T>) -> Seq<T::V> {
    items.map_values(|item: T| T::qualified_view(backend, item@))
}

/// The items of all backends under the names that the gateway gives them,
/// backend by backend.
pub open spec fn qualified_pages<P: Page>(pages: Seq<(String, P)>) -> Seq<
    <P::Item as View>::V,
>
    decreases pages.len(),
{
    if pages.len() == 0 {
        Seq::empty()
    } else {
        qualified_pages(pages.drop_last()) + qualified_page(
            pages.last().0@,
            pages.last().1.items(),
        )
    }
}

/// Whether `merged` is the merged list of `pages`: every item under the name
/// that the gateway gives it, in the order of these names.
pub open spec fn is_merge<P: Page>(pages: Seq<(String, P)>, merged: Seq<P::Item>) -> bool {
    crate::order::is_stable_sort(
        qualified_pages(pages),
        crate::order::item_views(merged),
        crate::order::listed_key::<P::Item>(),
    )
}

/// Merges the pages of the backends.
fn merge_pages<P: Page>(pages: Vec<(String, P)>) -> (merged: Vec<P::Item>)
    ensures
        is_merge(pages@, merged@),
{
    let mut all: Vec<P::Item> = Vec::new();
    assert(crate::order::item_views(all@) =~= qualified_pages(pages@.take(0)));
    for page in it: pages
        invariant
            it.seq() == pages@,
            crate::order::item_views(all@) == qualified_pages(pages@.take(it.index())),
    {
        let ghost before = all@;
        let ghost upto = pages@.take(it.index() + 1);
        assert(upto.drop_last() =~= pages@.take(it.index()));
        let (backend, result) = page;
        let items = result.into_items();
        assert(crate::order::item_views(all@) =~= crate::order::item_views(before)
            + qualified_page(backend@, result.items().take(0)));
        for item in inner: items
            invariant
                inner.seq() == result.items(),
                crate::order::item_views(all@) == crate::order::item_views(before)
                    + qualified_page(backend@, result.items().take(inner.index())),
        {
            let ghost soon = result.items().take(inner.index() + 1);
            assert(soon =~= result.items().take(inner.index()).push(item));
            let ghost had = all@;
            all.push(item.qualify(backend.as_str()));
            assert(crate::order::item_views(all@) =~= crate::order::item_views(had).push(
                P::Item::qualified_view(backend@, item@),
            ));
            assert(qualified_page(backend@, soon) =~= qualified_page(
                backend@,
                result.items().take(inner.index()),
            ).push(P::Item::qualified_view(backend@, item@)));
            assert(crate::order::item_views(all@) =~= crate::order::item_views(before)
                + qualified_page(backend@, soon));
        }
        assert(result.items().take(result.items().len() as int) =~= result.items());
        assert(upto.last() == page);
    }
    assert(pages@.take(pages@.len() as int) =~= pages@);
    sorted_by_name(all)
}

/// Merges the tools of the backends into one list.
pub fn merge_tools<D>(tools: Vec<(String, ListToolsResult<D>)>) -> (merged: Vec<Tool<D>>)
    ensures
        is_merge(tools@, merged@),
{
    merge_pages(tools)
}

/// Merges the resources of the backends into one list.
pub fn merge_resources<D>(resources: Vec<(String, ListResourcesResult<D>)>) -> (merged: Vec<
    Resource<D>,
>)
    ensures
        is_merge(resources@, merged@),
{
    merge_pages(resources)
}

/// Merges the prompts of the backends into one list.
pub fn merge_prompts<D>(prompts: Vec<(String, ListPromptsResult<D>)>) -> (merged: Vec<Prompt<D>>)
    ensures
        is_merge(prompts@, merged@),
{
    merge_pages(prompts)
}

/// What is asked of each backend for a list: its connection is handed the
/// request, and a backend without a connection is not asked.
pub fn ask_each<S, Q: Clone>(holders: Vec<ServiceHolder<S>>, request: &Q) -> (asked: Vec<
    (String, Option<(S, Q)>),
>)
    ensures
        asked@.len() == holders@.len(),
        forall|i: int|
            0 <= i < holders@.len() ==> {
                let (name, question) = #[trigger] asked@[i];
                &&& name == holders@[i].name
                &&& match holders@[i].running_service {
                    Some(service) => {
                        &&& question matches Some((connection, copy))
                        &&& connection == service
                        &&& cloned(*request, copy)
                    },
                    None => question is None,
                }
            },
{
    let mut asked: Vec<(String, Option<(S, Q)>)> = Vec::new();
    for holder in it: holders
        invariant
            it.seq() == holders@,
            asked@.len() == it.index(),
            forall|i: int|
                0 <= i < it.index() ==> {
                    let (name, question) = #[trigger] asked@[i];
                    &&& name == holders@[i].name
                    &&& match holders@[i].running_service {
                        Some(service) => {
                            &&& question matches Some((connection, copy))
                            &&& connection == service
                            &&& cloned(*request, copy)
                        },
                        None => question is None,
                    }
                },
    {
        let question = match holder.running_service {
            Some(service) => Some((service, request.clone())),
            None => None,
        };
        asked.push((holder.name, question));
    }
    asked
}

/// Picks the answer of a backend that was asked and answered.
pub open spec fn answer_of<R, E>() -> spec_fn((String, Option<Result<R, E>>)) -> Option<
    (String, R),
> {
    |response: (String, Option<Result<R, E>>)|
        match response.1 {
            Some(Ok(answer)) => Some((response.0, answer)),
            _ => None,
        }
}

/// The answers among `responses`, each with its backend: a backend without a
/// connection and one that failed have none.
pub open spec fn answers<R, E>(responses: Seq<(String, Option<Result<R, E>>)>) -> Seq<
    (String, R),
> {
    responses.filter_map(answer_of::<R, E>())
}

/// Keeps the answers among `responses`.
fn keep_answers<R, E>(responses: Vec<(String, Option<Result<R, E>>)>) -> (kept: Vec<(String, R)>)
    ensures
        kept@ == answers(responses@),
{
    let mut kept: Vec<(String, R)> = Vec::new();
    assert(kept@ =~= answers(responses@.take(0)));
    for response in it: responses
        invariant
            it.seq() == responses@,
            kept@ == answers(responses@.take(it.index())),
    {
        proof {
            responses@.lemma_filter_map_take_succ(answer_of::<R, E>(), it.index() as int);
        }
        let (backend, outcome) = response;
        if let Some(Ok(answer)) = outcome {
            kept.push((backend, answer));
        }
    }
    assert(responses@.take(responses@.len() as int) =~= responses@);
    kept
}

/// Answers a request for the tools, given what the backends of the session
/// responded, or why the request is refused; backends that did not answer are
/// left out.
pub fn list_tools<D, E>(
    responses: Result<Vec<(String, Option<Result<ListToolsResult<D>, E>>)>, ErrorData>,
) -> (answer: Result<ListToolsResult<D>, ErrorData>)
    ensures
        match responses {
            Ok(all) => {
                &&& answer matches Ok(result)
                &&& is_merge(answers(all@), result.tools@)
                &&& result.meta is None
                &&& result.next_cursor is None
            },
            Err(refusal) => answer == Err::<ListToolsResult<D>, ErrorData>(refusal),
        },
{
    match responses {
        Ok(all) => {
            let merged = merge_tools(keep_answers(all));
            Ok(ListToolsResult { meta: None, next_cursor: None, tools: merged })
        },
        Err(refusal) => Err(refusal),
    }
}

/// Answers a request for the resources, given what the backends of the session
/// responded, or why the request is refused; backends that did not answer are
/// left out.
pub fn list_resources<D, E>(
    responses: Result<Vec<(String, Option<Result<ListResourcesResult<D>, E>>)>, ErrorData>,
) -> (answer: Result<ListResourcesResult<D>, ErrorData>)
    ensures
        match responses {
            Ok(all) => {
                &&& answer matches Ok(result)
                &&& is_merge(answers(all@), result.resources@)
                &&& result.meta is None
                &&& result.next_cursor is None
            },
            Err(refusal) => answer == Err::<ListResourcesResult<D>, ErrorData>(refusal),
        },
{
    match responses {
        Ok(all) => {
            let merged = merge_resources(keep_answers(all));
            Ok(ListResourcesResult { meta: None, next_cursor: None, resources: merged })
        },
        Err(refusal) => Err(refusal),
    }
}

/// Answers a request for the prompts, given what the backends of the session
/// responded, or why the request is refused; backends that did not answer are
/// left out.
pub fn list_prompts<D, E>(
    responses: Result<Vec<(String, Option<Result<ListPromptsResult<D>, E>>)>, ErrorData>,
) -> (answer: Result<ListPromptsResult<D>, ErrorData>)
    ensures
        match responses {
            Ok(all) => {
                &&& answer matches Ok(result)
                &&& is_merge(answers(all@), result.prompts@)
                &&& result.meta is None
                &&& result.next_cursor is None
            },
            Err(refusal) => answer == Err::<ListPromptsResult<D>, ErrorData>(refusal),
        },
{
    match responses {
        Ok(all) => {
            let merged = merge_prompts(keep_answers(all));
            Ok(ListPromptsResult { meta: None, next_cursor: None, prompts: merged })
        },
        Err(refusal) => Err(refusal),
    }
}

/// The answers are those of the backends that were asked and answered, no more
/// and no fewer: a backend that fails takes nothing away from the others.
pub proof fn law_answers_come_from_answering_backends<R, E>(
    responses: Seq<(String, Option<Result<R, E>>)>,
    backend: String,
    answer: R,
)
    ensures
        answers(responses).contains((backend, answer)) <==> responses.contains(
            (backend, Some(Ok(answer))),
        ),
    decreases responses.len(),
{
    let wanted = (backend, answer);
    let response = (backend, Some(Ok::<R, E>(answer)));
    if responses.len() == 0 {
        assert(answers(responses) =~= Seq::empty());
    } else {
        let earlier = responses.drop_last();
        law_answers_come_from_answering_backends(earlier, backend, answer);
        responses.lemma_filter_map_take_succ(answer_of::<R, E>(), responses.len() - 1);
        assert(responses.take(responses.len() as int) =~= responses);
        assert(responses.take(responses.len() - 1) =~= earlier);
        if responses.contains(response) && !earlier.contains(response) {
            let i = choose|i: int| 0 <= i < responses.len() && responses[i] == response;
            assert(i == responses.len() - 1) by {
                if i < responses.len() - 1 {
                    assert(earlier[i] == response);
                }
            }
            assert(answers(responses).last() == wanted);
        }
        if earlier.contains(response) {
            let i = choose|i: int| 0 <= i < earlier.len() && earlier[i] == response;
            assert(responses[i] == response);
            let k = choose|k: int| 0 <= k < answers(earlier).len() && answers(earlier)[k] == wanted;
            assert(answers(responses)[k] == wanted);
        }
        if answers(responses).contains(wanted) && !answers(earlier).contains(wanted) {
            let k = choose|k: int|
                0 <= k < answers(responses).len() && answers(responses)[k] == wanted;
            if k < answers(earlier).len() {
                assert(answers(earlier)[k] == wanted);
            }
            assert(responses[responses.len() - 1] == response);
        }
    }
}

proof fn lemma_page_item_is_offered<P: Page>(pages: Seq<(String, P)>, page: int, item: int)
    requires
        0 <= page < pages.len(),
        0 <= item < pages[page].1.items().len(),
    ensures
        qualified_pages(pages).contains(
            P::Item::qualified_view(pages[page].0@, pages[page].1.items()[item]@),
        ),
    decreases pages.len(),
{
    let wanted = P::Item::qualified_view(pages[page].0@, pages[page].1.items()[item]@);
    let earlier = qualified_pages(pages.drop_last());
    let own = qualified_page(pages.last().0@, pages.last().1.items());
    if page == pages.len() - 1 {
        assert(own[item] == wanted);
        assert(qualified_pages(pages)[earlier.len() + item] == wanted);
    } else {
        lemma_page_item_is_offered(pages.drop_last(), page, item);
        let at = choose|at: int| 0 <= at < earlier.len() && earlier[at] == wanted;
        assert(qualified_pages(pages)[at] == wanted);
    }
}

proof fn lemma_offered_item_is_on_a_page<P: Page>(pages: Seq<(String, P)>, at: int)
    requires
        0 <= at < qualified_pages(pages).len(),
    ensures
        exists|page: int, item: int|
            #![trigger pages[page].1.items()[item]]
            0 <= page < pages.len() && 0 <= item < pages[page].1.items().len()
                && qualified_pages(pages)[at] == P::Item::qualified_view(
                pages[page].0@,
                pages[page].1.items()[item]@,
            ),
    decreases pages.len(),
{
    let before = pages.drop_last();
    let earlier = qualified_pages(before);
    if at < earlier.len() {
        lemma_offered_item_is_on_a_page(before, at);
        let (page, item) = choose|page: int, item: int|
            #![trigger before[page].1.items()[item]]
            0 <= page < before.len() && 0 <= item < before[page].1.items().len() && earlier[at]
                == P::Item::qualified_view(before[page].0@, before[page].1.items()[item]@);
        assert(pages[page].1.items()[item] == before[page].1.items()[item]);
    } else {
        let own = qualified_page(pages.last().0@, pages.last().1.items());
        assert(qualified_pages(pages)[at] == own[at - earlier.len()]);
        assert(pages[pages.len() - 1].1.items()[at - earlier.len()]
            == pages.last().1.items()[at - earlier.len()]);
    }
}

/// Every item that a backend lists stands in the merged list, under the name
/// that the gateway gives it and with its details unchanged.
pub proof fn law_every_item_is_merged<P: Page>(
    pages: Seq<(String, P)>,
    merged: Seq<P::Item>,
    page: int,
    item: int,
)
    requires
        is_merge(pages, merged),
        0 <= page < pages.len(),
        0 <= item < pages[page].1.items().len(),
    ensures
        exists|k: int|
            0 <= k < merged.len() && (#[trigger] merged[k])@ == P::Item::qualified_view(
                pages[page].0@,
                pages[page].1.items()[item]@,
            ),
{
    let wanted = P::Item::qualified_view(pages[page].0@, pages[page].1.items()[item]@);
    let offered = qualified_pages(pages);
    let views = crate::order::item_views(merged);
    lemma_page_item_is_offered(pages, page, item);
    crate::order::law_stable_sort_keeps_every_value(
        offered,
        views,
        crate::order::listed_key::<P::Item>(),
    );
    offered.to_multiset_ensures();
    views.to_multiset_ensures();
    assert(views.to_multiset().count(wanted) > 0);
    let k = choose|k: int| 0 <= k < views.len() && views[k] == wanted;
    assert(merged[k]@ == wanted);
}

/// Every item of the merged list is one that a backend lists.
pub proof fn law_merged_items_come_from_backends<P: Page>(
    pages: Seq<(String, P)>,
    merged: Seq<P::Item>,
    k: int,
)
    requires
        is_merge(pages, merged),
        0 <= k < merged.len(),
    ensures
        exists|page: int, item: int|
            #![trigger pages[page].1.items()[item]]
            0 <= page < pages.len() && 0 <= item < pages[page].1.items().len() && merged[k]@
                == P::Item::qualified_view(pages[page].0@, pages[page].1.items()[item]@),
{
    let offered = qualified_pages(pages);
    let views = crate::order::item_views(merged);
    crate::order::law_stable_sort_keeps_every_value(
        offered,
        views,
        crate::order::listed_key::<P::Item>(),
    );
    offered.to_multiset_ensures();
    views.to_multiset_ensures();
    assert(views.contains(views[k]));
    assert(offered.to_multiset().count(views[k]) > 0);
    let at = choose|at: int| 0 <= at < offered.len() && offered[at] == views[k];
    lemma_offered_item_is_on_a_page(pages, at);
}

/// How many items the backends list in all.
pub open spec fn item_count<P: Page>(pages: Seq<(String, P)>) -> nat
    decreases pages.len(),
{
    if pages.len() == 0 {
        0
    } else {
        item_count(pages.drop_last()) + pages.last().1.items().len()
    }
}

proof fn lemma_offered_count<P: Page>(pages: Seq<(String, P)>)
    ensures
        qualified_pages(pages).len() == item_count(pages),
    decreases pages.len(),
{
    if pages.len() > 0 {
        lemma_offered_count(pages.drop_last());
    }
}

/// The merged list is as long as the lists of the backends together.
pub proof fn law_merging_keeps_the_count<P: Page>(pages: Seq<(String, P)>, merged: Seq<P::Item>)
    requires
        is_merge(pages, merged),
    ensures
        merged.len() == item_count(pages),
{
    lemma_offered_count(pages);
    crate::order::law_stable_sort_keeps_every_value(
        qualified_pages(pages),
        crate::order::item_views(merged),
        crate::order::listed_key::<P::Item>(),
    );
}

/// What the backends list decides the merged list, item by item.
pub proof fn law_merge_is_unique<P: Page>(
    pages: Seq<(String, P)>,
    one: Seq<P::Item>,
    other: Seq<P::Item>,
)
    requires
        is_merge(pages, one),
        is_merge(pages, other),
    ensures
        crate::order::item_views(one) == crate::order::item_views(other),
{
    crate::order::law_stable_sort_is_unique(
        qualified_pages(pages),
        crate::order::item_views(one),
        crate::order::item_views(other),
        crate::order::listed_key::<P::Item>(),
    );
}

proof fn lemma_offered_without_a_page<P: Page>(pages: Seq<(String, P)>, at: int)
    requires
        0 <= at < pages.len(),
    ensures
        qualified_pages(pages).to_multiset() == qualified_pages(pages.remove(at)).to_multiset().add(
            qualified_page(pages[at].0@, pages[at].1.items()).to_multiset(),
        ),
    decreases pages.len(),
{
    broadcast use vstd::multiset::group_multiset_axioms;

    let before = pages.drop_last();
    let own = qualified_page(pages.last().0@, pages.last().1.items());
    vstd::seq_lib::lemma_multiset_commutative(qualified_pages(before), own);
    if at == pages.len() - 1 {
        assert(pages.remove(at) =~= before);
    } else {
        lemma_offered_without_a_page(before, at);
        assert(pages.remove(at).drop_last() =~= before.remove(at));
        assert(pages.remove(at).last() == pages.last());
        vstd::seq_lib::lemma_multiset_commutative(qualified_pages(before.remove(at)), own);
        assert(qualified_pages(pages).to_multiset() =~= qualified_pages(
            pages.remove(at),
        ).to_multiset().add(qualified_page(pages[at].0@, pages[at].1.items()).to_multiset()));
    }
}

proof fn lemma_offered_in_any_order<P: Page>(pages: Seq<(String, P)>, reordered: Seq<(String, P)>)
    requires
        pages.to_multiset() == reordered.to_multiset(),
    ensures
        qualified_pages(pages).to_multiset() == qualified_pages(reordered).to_multiset(),
    decreases pages.len(),
{
    pages.to_multiset_ensures();
    reordered.to_multiset_ensures();
    if pages.len() > 0 {
        let last = pages.len() - 1;
        assert(pages.contains(pages[last]));
        assert(pages.to_multiset().count(pages[last]) > 0);
        assert(reordered.to_multiset().count(pages[last]) > 0);
        let at = choose|at: int| 0 <= at < reordered.len() && reordered[at] == pages[last];
        assert(pages.remove(last).to_multiset() == reordered.remove(at).to_multiset());
        lemma_offered_in_any_order(pages.remove(last), reordered.remove(at));
        lemma_offered_without_a_page(pages, last);
        lemma_offered_without_a_page(reordered, at);
    } else {
        assert(pages =~= reordered);
    }
}

/// Where all listed names are distinct, the order in which the backends answer
/// does not show in the merged list.
pub proof fn law_order_of_answers_does_not_show<P: Page>(
    pages: Seq<(String, P)>,
    reordered: Seq<(String, P)>,
    one: Seq<P::Item>,
    other: Seq<P::Item>,
)
    requires
        pages.to_multiset() == reordered.to_multiset(),
        crate::order::names_are_distinct(
            qualified_pages(pages),
            crate::order::listed_key::<P::Item>(),
        ),
        is_merge(pages, one),
        is_merge(reordered, other),
    ensures
        crate::order::item_views(one) == crate::order::item_views(other),
{
    lemma_offered_in_any_order(pages, reordered);
    crate::order::law_sorting_distinct_names_forgets_the_order(
        qualified_pages(pages),
        qualified_pages(reordered),
        crate::order::item_views(one),
        crate::order::listed_key::<P::Item>(),
    );
    law_merge_is_unique(reordered, one, other);
}

/// A tool that a backend lists can be called by the name under which the
/// gateway lists it: the name splits into that backend and the tool's own
/// name, unless another backend listed earlier claims the name.
pub proof fn law_listed_tool_splits_back<D>(
    pages: Seq<(String, ListToolsResult<D>)>,
    merged: Seq<Tool<D>>,
    page: int,
    item: int,
    backends: Seq<Seq<char>>,
    at: int,
)
    requires
        is_merge(pages, merged),
        0 <= page < pages.len(),
        0 <= item < pages[page].1.tools@.len(),
        crate::names::first_claim(backends, at, pages[page].1.tools@[item].name@),
        backends[at] == pages[page].0@,
    ensures
        exists|k: int|
            0 <= k < merged.len() && (#[trigger] merged[k]).details
                == pages[page].1.tools@[item].details && crate::names::split_name(
                merged[k].name@,
                backends,
            ) == Some((pages[page].0@, pages[page].1.tools@[item].name@)),
{
    law_every_item_is_merged(pages, merged, page, item);
    crate::names::law_qualify_then_split(backends, at, pages[page].1.tools@[item].name@);
    let k = choose|k: int|
        0 <= k < merged.len() && (#[trigger] merged[k])@ == Tool::<D>::qualified_view(
            pages[page].0@,
            pages[page].1.items()[item]@,
        );
    assert(merged[k]@.name == merged[k].name@);
    assert(merged[k]@.details == merged[k].details);
}

/// A resource that a backend lists can be read by the URI under which the
/// gateway lists it: the URI splits into that backend and the resource's own
/// URI, unless another backend listed earlier claims the URI. Its name there is
/// the backend's name, a dash and the resource's own name.
pub proof fn law_listed_resource_splits_back<D>(
    pages: Seq<(String, ListResourcesResult<D>)>,
    merged: Seq<Resource<D>>,
    page: int,
    item: int,
    backends: Seq<Seq<char>>,
    at: int,
)
    requires
        is_merge(pages, merged),
        0 <= page < pages.len(),
        0 <= item < pages[page].1.resources@.len(),
        crate::names::first_claim(backends, at, pages[page].1.resources@[item].uri@),
        backends[at] == pages[page].0@,
    ensures
        exists|k: int|
            0 <= k < merged.len() && (#[trigger] merged[k]).details
                == pages[page].1.resources@[item].details && crate::names::split_name(
                merged[k].uri@,
                backends,
            ) == Some((pages[page].0@, pages[page].1.resources@[item].uri@)) && merged[k].name@
                == pages[page].0@ + seq!['-'] + pages[page].1.resources@[item].name@,
{
    law_every_item_is_merged(pages, merged, page, item);
    crate::names::law_qualify_then_split(backends, at, pages[page].1.resources@[item].uri@);
    let k = choose|k: int|
        0 <= k < merged.len() && (#[trigger] merged[k])@ == Resource::<D>::qualified_view(
            pages[page].0@,
            pages[page].1.items()[item]@,
        );
    assert(merged[k]@.uri == merged[k].uri@);
    assert(merged[k]@.details == merged[k].details);
}

/// The name under which the gateway lists a resource splits into the backend
/// and the resource's own name, unless another backend listed earlier claims it.
pub proof fn law_listed_resource_name_splits_back<D>(
    pages: Seq<(String, ListResourcesResult<D>)>,
    merged: Seq<Resource<D>>,
    page: int,
    item: int,
    backends: Seq<Seq<char>>,
    at: int,
)
    requires
        is_merge(pages, merged),
        0 <= page < pages.len(),
        0 <= item < pages[page].1.resources@.len(),
        crate::names::first_claim(backends, at, pages[page].1.resources@[item].name@),
        backends[at] == pages[page].0@,
    ensures
        exists|k: int|
            0 <= k < merged.len() && (#[trigger] merged[k]).details
                == pages[page].1.resources@[item].details && crate::names::split_name(
                merged[k].name@,
                backends,
            ) == Some((pages[page].0@, pages[page].1.resources@[item].name@)),
{
    law_every_item_is_merged(pages, merged, page, item);
    crate::names::law_qualify_then_split(backends, at, pages[page].1.resources@[item].name@);
    let k = choose|k: int|
        0 <= k < merged.len() && (#[trigger] merged[k])@ == Resource::<D>::qualified_view(
            pages[page].0@,
            pages[page].1.items()[item]@,
        );
    assert(merged[k]@.name == merged[k].name@);
    assert(merged[k]@.details == merged[k].details);
}

/// A prompt that a backend lists can be fetched by the name under which the
/// gateway lists it: the name splits into that backend and the prompt's own
/// name, unless another backend listed earlier claims the name.
pub proof fn law_listed_prompt_splits_back<D>(
    pages: Seq<(String, ListPromptsResult<D>)>,
    merged: Seq<Prompt<D>>,
    page: int,
    item: int,
    backends: Seq<Seq<char>>,
    at: int,
)
    requires
        is_merge(pages, merged),
        0 <= page < pages.len(),
        0 <= item < pages[page].1.prompts@.len(),
        crate::names::first_claim(backends, at, pages[page].1.prompts@[item].name@),
        backends[at] == pages[page].0@,
    ensures
        exists|k: int|
            0 <= k < merged.len() && (#[trigger] merged[k]).details
                == pages[page].1.prompts@[item].details && crate::names::split_name(
                merged[k].name@,
                backends,
            ) == Some((pages[page].0@, pages[page].1.prompts@[item].name@)),
{
    law_every_item_is_merged(pages, merged, page, item);
    crate::names::law_qualify_then_split(backends, at, pages[page].1.prompts@[item].name@);
    let k = choose|k: int|
        0 <= k < merged.len() && (#[trigger] merged[k])@ == Prompt::<D>::qualified_view(
            pages[page].0@,
            pages[page].1.items()[item]@,
        );
    assert(merged[k]@.name == merged[k].name@);
    assert(merged[k]@.details == merged[k].details);
}

} // verus!
