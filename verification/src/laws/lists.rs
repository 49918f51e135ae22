//! What the lists of the backends become when they are merged.

use vstd::prelude::*;

use crate::error::ErrorData;
use crate::listing::{
    ask_each, list_prompts, list_resources, list_tools, merge_prompts, merge_resources,
    merge_tools, ListPromptsResult, ListResourcesResult, ListToolsResult, Page, Prompt,
    PromptView, Resource, ResourceView, Tool, ToolView,
};
use crate::order::Listed;
use crate::transport::ServiceHolder;

verus! {

/// Whether `listed` is what was `offered`, under each name the same entries in
/// the same order, and is ordered by the names.
pub open spec fn lists_in_order<R>(
    offered: Seq<(Seq<char>, R)>,
    listed: Seq<(Seq<char>, R)>,
) -> bool {
    &&& forall|i: int, j: int|
        #![trigger listed[i], listed[j]]
        0 <= i < j < listed.len() ==> listed[i].0 == listed[j].0
            || crate::laws::texts::comes_before(listed[i].0, listed[j].0)
    &&& forall|name: Seq<char>| #[trigger]
        listed.filter(goes_by(name)) == offered.filter(goes_by(name))
    &&& listed.to_multiset() == offered.to_multiset()
}

/// Picks out the entries under a name.
pub open spec fn goes_by<R>(name: Seq<char>) -> spec_fn((Seq<char>, R)) -> bool {
    |entry: (Seq<char>, R)| entry.0 == name
}

proof fn lemma_filter_of_map<A, B>(
    values: Seq<A>,
    f: spec_fn(A) -> B,
    after: spec_fn(B) -> bool,
    before: spec_fn(A) -> bool,
)
    requires
        forall|a: A| #[trigger] before(a) == after(f(a)),
    ensures
        values.map_values(f).filter(after) == values.filter(before).map_values(f),
    decreases values.len(),
{
    reveal(Seq::filter);
    if values.len() == 0 {
        assert(values.map_values(f) =~= Seq::empty());
        assert(values.filter(before).map_values(f) =~= Seq::empty());
    } else {
        let front = values.drop_last();
        lemma_filter_of_map(front, f, after, before);
        assert(values.map_values(f).drop_last() =~= front.map_values(f));
        assert(before(values.last()) == after(f(values.last())));
        assert(values.map_values(f).filter(after) =~= values.filter(before).map_values(f));
    }
}

proof fn lemma_merged_in_order<P: Page, R>(
    pages: Seq<(String, P)>,
    merged: Seq<P::Item>,
    entry: spec_fn(<P::Item as View>::V) -> (Seq<char>, R),
    offered: Seq<(Seq<char>, R)>,
    listed: Seq<(Seq<char>, R)>,
)
    requires
        crate::listing::is_merge(pages, merged),
        forall|v: <P::Item as View>::V|
            (#[trigger] entry(v)).0 == <P::Item as Listed>::listed_name(v),
        offered == crate::listing::qualified_pages(pages).map_values(entry),
        listed == crate::order::item_views(merged).map_values(entry),
    ensures
        lists_in_order(offered, listed),
{
    let key = crate::order::listed_key::<P::Item>();
    let all = crate::listing::qualified_pages(pages);
    let views = crate::order::item_views(merged);
    let by_name = |e: (Seq<char>, R)| e.0;
    assert forall|i: int, j: int|
        #![trigger listed[i], listed[j]]
        0 <= i <= j < listed.len() implies crate::order::name_le(listed[i].0, listed[j].0) by {
        assert(listed[i] == entry(views[i]) && listed[j] == entry(views[j]));
        assert(crate::order::name_le(key(views[i]), key(views[j])));
    }
    assert forall|i: int, j: int|
        #![trigger listed[i], listed[j]]
        0 <= i < j < listed.len() implies listed[i].0 == listed[j].0
        || crate::laws::texts::comes_before(listed[i].0, listed[j].0) by {
        assert(crate::order::name_le(listed[i].0, listed[j].0));
        crate::laws::texts::lemma_name_le(listed[i].0, listed[j].0);
    }
    assert forall|name: Seq<char>| #[trigger]
        listed.filter(goes_by(name)) == offered.filter(goes_by(name)) by {
        let own = crate::order::named(key, name);
        assert forall|v: <P::Item as View>::V| #[trigger] own(v) == goes_by::<R>(name)(
            entry(v),
        ) by {}
        lemma_filter_of_map(views, entry, goes_by(name), own);
        lemma_filter_of_map(all, entry, goes_by(name), own);
        assert(views.filter(own) == all.filter(own));
    }
    assert forall|name: Seq<char>| #[trigger]
        listed.filter(crate::order::named(by_name, name)) == offered.filter(
            crate::order::named(by_name, name),
        ) by {
        assert(crate::order::named(by_name, name) =~= goes_by::<R>(name));
        assert(listed.filter(goes_by(name)) == offered.filter(goes_by(name)));
    }
    assert(crate::order::is_stable_sort(offered, listed, by_name));
    crate::order::law_stable_sort_keeps_every_value(offered, listed, by_name);
}

proof fn lemma_offered_rows<P: Page, R>(
    pages: Seq<(String, P)>,
    entry: spec_fn(<P::Item as View>::V) -> R,
    rows: Seq<Seq<R>>,
)
    requires
        rows.len() == pages.len(),
        forall|i: int|
            0 <= i < rows.len() ==> #[trigger] rows[i] == crate::listing::qualified_page(
                pages[i].0@,
                pages[i].1.items(),
            ).map_values(entry),
    ensures
        crate::listing::qualified_pages(pages).map_values(entry) == rows.flatten(),
    decreases pages.len(),
{
    if pages.len() == 0 {
        assert(crate::listing::qualified_pages(pages).map_values(entry) =~= rows.flatten());
    } else {
        let front = rows.drop_last();
        assert forall|i: int| 0 <= i < front.len() implies #[trigger] front[i]
            == crate::listing::qualified_page(
            pages.drop_last()[i].0@,
            pages.drop_last()[i].1.items(),
        ).map_values(entry) by {
            assert(front[i] == rows[i]);
        }
        lemma_offered_rows(pages.drop_last(), entry, front);
        front.lemma_flatten_push(rows.last());
        assert(front.push(rows.last()) =~= rows);
        assert(rows[rows.len() - 1] == rows.last());
        assert(crate::listing::qualified_pages(pages).map_values(entry) =~= rows.flatten());
    }
}

proof fn lemma_count_of_rows<P: Page>(pages: Seq<(String, P)>, rows: Seq<Seq<P::Item>>)
    requires
        rows.len() == pages.len(),
        forall|i: int| 0 <= i < rows.len() ==> #[trigger] rows[i] == pages[i].1.items(),
    ensures
        crate::listing::item_count(pages) == rows.flatten().len(),
    decreases pages.len(),
{
    if pages.len() > 0 {
        let front = rows.drop_last();
        assert forall|i: int| 0 <= i < front.len() implies #[trigger] front[i]
            == pages.drop_last()[i].1.items() by {
            assert(front[i] == rows[i]);
        }
        lemma_count_of_rows(pages.drop_last(), front);
        front.lemma_flatten_push(rows.last());
        assert(front.push(rows.last()) =~= rows);
        assert(rows[rows.len() - 1] == rows.last());
    }
}

proof fn lemma_answered_rows<P: Page, E, R>(
    responses: Seq<(String, Option<Result<P, E>>)>,
    entry: spec_fn(<P::Item as View>::V) -> R,
    rows: Seq<Seq<R>>,
)
    requires
        rows.len() == responses.len(),
        forall|i: int|
            #![trigger rows[i]]
            0 <= i < rows.len() ==> match responses[i].1 {
                Some(Ok(page)) => rows[i] == crate::listing::qualified_page(
                    responses[i].0@,
                    page.items(),
                ).map_values(entry),
                _ => rows[i] == Seq::<R>::empty(),
            },
    ensures
        crate::listing::qualified_pages(crate::listing::answers(responses)).map_values(entry)
            == rows.flatten(),
    decreases responses.len(),
{
    let kept = crate::listing::answers(responses);
    if responses.len() == 0 {
        assert(kept =~= Seq::empty());
        assert(crate::listing::qualified_pages(kept).map_values(entry) =~= rows.flatten());
    } else {
        let front = rows.drop_last();
        let earlier = responses.drop_last();
        assert forall|i: int|
            #![trigger front[i]]
            0 <= i < front.len() implies match earlier[i].1 {
            Some(Ok(page)) => front[i] == crate::listing::qualified_page(
                earlier[i].0@,
                page.items(),
            ).map_values(entry),
            _ => front[i] == Seq::<R>::empty(),
        } by {
            assert(front[i] == rows[i]);
        }
        lemma_answered_rows(earlier, entry, front);
        front.lemma_flatten_push(rows.last());
        assert(front.push(rows.last()) =~= rows);
        assert(rows[rows.len() - 1] == rows.last());
        responses.lemma_filter_map_take_succ(
            crate::listing::answer_of::<P, E>(),
            responses.len() - 1,
        );
        assert(responses.take(responses.len() as int) =~= responses);
        assert(responses.take(responses.len() - 1) =~= earlier);
        let before = crate::listing::answers(earlier);
        if let Some(Ok(page)) = responses.last().1 {
            assert(kept =~= before.push((responses.last().0, page)));
            assert(kept.drop_last() =~= before);
        } else {
            assert(kept =~= before);
        }
        assert(crate::listing::qualified_pages(kept).map_values(entry) =~= rows.flatten());
    }
}

/// The tools of one backend as the gateway lists them: the backend's name and a
/// dash in front of the name, and the details as they are.
pub open spec fn tools_of<D>(backend: Seq<char>, tools: Seq<Tool<D>>) -> Seq<(Seq<char>, D)> {
    tools.map_values(|tool: Tool<D>| (backend + seq!['-'] + tool.name@, tool.details))
}

/// The tools in a list, each by its name and its details.
pub open spec fn tool_entries<D>(tools: Seq<Tool<D>>) -> Seq<(Seq<char>, D)> {
    tools.map_values(|tool: Tool<D>| (tool.name@, tool.details))
}

spec fn tool_entry<D>() -> spec_fn(ToolView<D>) -> (Seq<char>, D) {
    |v: ToolView<D>| (v.name, v.details)
}

proof fn lemma_tool_entries<D>(backend: Seq<char>, tools: Seq<Tool<D>>)
    ensures
        crate::order::item_views(tools).map_values(tool_entry::<D>()) == tool_entries(tools),
        crate::listing::qualified_page(backend, tools).map_values(tool_entry::<D>())
            == tools_of(backend, tools),
{
    assert(crate::order::item_views(tools).map_values(tool_entry::<D>()) =~= tool_entries(
        tools,
    ));
    assert(crate::listing::qualified_page(backend, tools).map_values(tool_entry::<D>())
        =~= tools_of(backend, tools));
}

/// Merged, the tools of all backends are listed in the order of their names:
/// every one under its backend's name, a dash and its own name,
/// with its details, and nothing else.
pub proof fn law_tools_are_merged_in_order<D>(
    pages: Vec<(String, ListToolsResult<D>)>,
    merged: Vec<Tool<D>>,
)
    requires
        call_ensures(merge_tools::<D>, (pages,), merged),
    ensures
        lists_in_order(
            pages@.map_values(
                |page: (String, ListToolsResult<D>)| tools_of(page.0@, page.1.tools@),
            ).flatten(),
            tool_entries(merged@),
        ),
{
    let rows = pages@.map_values(
        |page: (String, ListToolsResult<D>)| tools_of(page.0@, page.1.tools@),
    );
    assert forall|i: int| 0 <= i < rows.len() implies #[trigger] rows[i]
        == crate::listing::qualified_page(pages@[i].0@, pages@[i].1.items()).map_values(
        tool_entry::<D>(),
    ) by {
        lemma_tool_entries(pages@[i].0@, pages@[i].1.tools@);
    }
    lemma_offered_rows(pages@, tool_entry::<D>(), rows);
    lemma_tool_entries(Seq::empty(), merged@);
    lemma_merged_in_order(
        pages@,
        merged@,
        tool_entry::<D>(),
        rows.flatten(),
        tool_entries(merged@),
    );
}

/// In a merged list of tools, of two names the earlier is the same as the later,
/// or a beginning of it, or has the smaller character where they first differ.
pub proof fn law_merged_tools_are_sorted<D>(
    pages: Vec<(String, ListToolsResult<D>)>,
    merged: Vec<Tool<D>>,
    i: int,
    j: int,
)
    requires
        call_ensures(merge_tools::<D>, (pages,), merged),
        0 <= i < j < merged@.len(),
    ensures
        ({
            let (a, b) = (merged@[i].name@, merged@[j].name@);
            ||| a == b
            ||| a.len() < b.len() && a == b.take(a.len() as int)
            ||| exists|k: int|
                #![trigger a[k]]
                0 <= k < a.len() && k < b.len() && a.take(k) == b.take(k) && a[k] < b[k]
        }),
{
    law_tools_are_merged_in_order(pages, merged);
    let listed = tool_entries(merged@);
    assert(listed[i].0 == merged@[i].name@ && listed[j].0 == merged@[j].name@);
}

/// Every tool of a backend is in the merged list, with the backend's name and a
/// dash in front of its name, and with its details.
pub proof fn law_tools_of_all_backends_are_merged<D>(
    pages: Vec<(String, ListToolsResult<D>)>,
    merged: Vec<Tool<D>>,
    page: int,
    item: int,
)
    requires
        call_ensures(merge_tools::<D>, (pages,), merged),
        0 <= page < pages@.len(),
        0 <= item < pages@[page].1.tools@.len(),
    ensures
        exists|k: int|
            #![trigger merged@[k]]
            0 <= k < merged@.len() && merged@[k].details == pages@[page].1.tools@[item].details
                && merged@[k].name@ == pages@[page].0@ + seq!['-']
                + pages@[page].1.tools@[item].name@,
{
    crate::listing::law_every_item_is_merged(pages@, merged@, page, item);
    let k = choose|k: int|
        0 <= k < merged@.len() && (#[trigger] merged@[k])@ == Tool::<D>::qualified_view(
            pages@[page].0@,
            pages@[page].1.items()[item]@,
        );
    assert(merged@[k]@.name == merged@[k].name@);
    assert(merged@[k].details == pages@[page].1.tools@[item].details);
}

/// Every tool in a merged list is one of a backend, with that backend's name and
/// a dash in front of its name; there are as many as the backends have in all.
pub proof fn law_merged_tools_are_of_a_backend<D>(
    pages: Vec<(String, ListToolsResult<D>)>,
    merged: Vec<Tool<D>>,
    k: int,
)
    requires
        call_ensures(merge_tools::<D>, (pages,), merged),
        0 <= k < merged@.len(),
    ensures
        exists|page: int, item: int|
            #![trigger pages@[page].1.tools@[item]]
            0 <= page < pages@.len() && 0 <= item < pages@[page].1.tools@.len()
                && merged@[k].details == pages@[page].1.tools@[item].details && merged@[k].name@
                == pages@[page].0@ + seq!['-'] + pages@[page].1.tools@[item].name@,
        merged@.len() == pages@.map_values(
            |page: (String, ListToolsResult<D>)| page.1.tools@,
        ).flatten().len(),
{
    crate::listing::law_merged_items_come_from_backends(pages@, merged@, k);
    let (page, item) = choose|page: int, item: int|
        #![trigger pages@[page].1.items()[item]]
        0 <= page < pages@.len() && 0 <= item < pages@[page].1.items().len() && merged@[k]@
            == Tool::<D>::qualified_view(pages@[page].0@, pages@[page].1.items()[item]@);
    assert(merged@[k].name@ == merged@[k]@.name);
    assert(merged@[k].details == pages@[page].1.tools@[item].details);
    crate::listing::law_merging_keeps_the_count(pages@, merged@);
    lemma_count_of_rows(
        pages@,
        pages@.map_values(|page: (String, ListToolsResult<D>)| page.1.tools@),
    );
}

/// A request for the tools is refused as the validation refuses it. Otherwise
/// it is answered with one page that has the tools of all backends that answered,
/// as they are merged; backends that were not asked or failed add nothing.
pub proof fn law_tool_lists_have_all_answers<D, E>(
    asked: Result<Vec<(String, Option<Result<ListToolsResult<D>, E>>)>, ErrorData>,
    answer: Result<ListToolsResult<D>, ErrorData>,
)
    requires
        call_ensures(list_tools::<D, E>, (asked,), answer),
    ensures
        match asked {
            Err(refusal) => answer == Err::<ListToolsResult<D>, ErrorData>(refusal),
            Ok(responses) => {
                &&& answer matches Ok(result)
                &&& result.meta is None
                &&& result.next_cursor is None
                &&& lists_in_order(
                    responses@.map_values(
                        |response: (String, Option<Result<ListToolsResult<D>, E>>)|
                            match response.1 {
                                Some(Ok(page)) => tools_of(response.0@, page.tools@),
                                _ => Seq::empty(),
                            },
                    ).flatten(),
                    tool_entries(result.tools@),
                )
            },
        },
{
    if let Ok(responses) = asked {
        let listed = answer->Ok_0.tools@;
        let kept = crate::listing::answers(responses@);
        let rows = responses@.map_values(
            |response: (String, Option<Result<ListToolsResult<D>, E>>)|
                match response.1 {
                    Some(Ok(page)) => tools_of(response.0@, page.tools@),
                    _ => Seq::empty(),
                },
        );
        assert forall|i: int|
            #![trigger rows[i]]
            0 <= i < rows.len() implies match responses@[i].1 {
            Some(Ok(page)) => rows[i] == crate::listing::qualified_page(
                responses@[i].0@,
                page.items(),
            ).map_values(tool_entry::<D>()),
            _ => rows[i] == Seq::<(Seq<char>, D)>::empty(),
        } by {
            if let Some(Ok(page)) = responses@[i].1 {
                lemma_tool_entries(responses@[i].0@, page.tools@);
            }
        }
        lemma_answered_rows(responses@, tool_entry::<D>(), rows);
        lemma_tool_entries(Seq::empty(), listed);
        lemma_merged_in_order(
            kept,
            listed,
            tool_entry::<D>(),
            rows.flatten(),
            tool_entries(listed),
        );
    }
}

/// What a request for the tools is answered with is what merging the answers
/// alone gives: the responses of other backends leave no trace.
pub proof fn law_tool_lists_are_merged_answers<D, E>(
    responses: Vec<(String, Option<Result<ListToolsResult<D>, E>>)>,
    answer: Result<ListToolsResult<D>, ErrorData>,
    answered: Vec<(String, ListToolsResult<D>)>,
    merged: Vec<Tool<D>>,
)
    requires
        call_ensures(
            list_tools::<D, E>,
            (Ok::<Vec<(String, Option<Result<ListToolsResult<D>, E>>)>, ErrorData>(responses),),
            answer,
        ),
        answered@ == responses@.filter_map(
            |response: (String, Option<Result<ListToolsResult<D>, E>>)|
                match response.1 {
                    Some(Ok(page)) => Some((response.0, page)),
                    _ => None,
                },
        ),
        call_ensures(merge_tools::<D>, (answered,), merged),
    ensures
        answer matches Ok(result) && {
            &&& result.tools@.len() == merged@.len()
            &&& forall|k: int|
                #![trigger result.tools@[k]]
                0 <= k < merged@.len() ==> result.tools@[k].name@ == merged@[k].name@
                    && result.tools@[k].details == merged@[k].details
        },
{
    let listed = answer->Ok_0.tools@;
    assert((|response: (String, Option<Result<ListToolsResult<D>, E>>)|
        match response.1 {
            Some(Ok(page)) => Some((response.0, page)),
            _ => None,
        }) =~= crate::listing::answer_of::<ListToolsResult<D>, E>());
    crate::listing::law_merge_is_unique(answered@, listed, merged@);
    let one = crate::order::item_views(listed);
    let other = crate::order::item_views(merged@);
    assert(one.len() == other.len());
    assert forall|k: int|
        #![trigger listed[k]]
        0 <= k < merged@.len() implies listed[k]@ == merged@[k]@ by {
        assert(one[k] == other[k]);
    }
    assert forall|k: int|
        #![trigger listed[k]]
        0 <= k < merged@.len() implies listed[k].name@ == merged@[k].name@ && listed[k].details
        == merged@[k].details by {
        assert(listed[k]@ == merged@[k]@);
        assert(listed[k]@.name == listed[k].name@ && merged@[k]@.name == merged@[k].name@);
        assert(listed[k]@.details == listed[k].details);
    }
}

/// Every tool of a backend that answered is listed, with the backend's name and
/// a dash in front of its name, whatever the other backends do.
pub proof fn law_tools_of_answering_backends_are_listed<D, E>(
    responses: Vec<(String, Option<Result<ListToolsResult<D>, E>>)>,
    answer: Result<ListToolsResult<D>, ErrorData>,
    i: int,
    page: ListToolsResult<D>,
    item: int,
)
    requires
        call_ensures(
            list_tools::<D, E>,
            (Ok::<Vec<(String, Option<Result<ListToolsResult<D>, E>>)>, ErrorData>(responses),),
            answer,
        ),
        0 <= i < responses@.len(),
        responses@[i].1 == Some(Ok::<ListToolsResult<D>, E>(page)),
        0 <= item < page.tools@.len(),
    ensures
        answer matches Ok(result) && exists|k: int|
            #![trigger result.tools@[k]]
            0 <= k < result.tools@.len() && result.tools@[k].details
                == page.tools@[item].details && result.tools@[k].name@ == responses@[i].0@
                + seq!['-'] + page.tools@[item].name@,
{
    let result = answer->Ok_0;
    let kept = crate::listing::answers(responses@);
    crate::listing::law_answers_come_from_answering_backends(responses@, responses@[i].0, page);
    assert(responses@.contains((responses@[i].0, Some(Ok::<ListToolsResult<D>, E>(page))))) by {
        assert(responses@[i] == (responses@[i].0, Some(Ok::<ListToolsResult<D>, E>(page))));
    }
    let at = choose|at: int|
        0 <= at < kept.len() && kept[at] == (responses@[i].0, page);
    crate::listing::law_every_item_is_merged(kept, result.tools@, at, item);
    let k = choose|k: int|
        0 <= k < result.tools@.len() && (#[trigger] result.tools@[k])@
            == Tool::<D>::qualified_view(kept[at].0@, kept[at].1.items()[item]@);
    assert(result.tools@[k]@.name == result.tools@[k].name@);
    assert(result.tools@[k].details == page.tools@[item].details);
}

/// The resources of one backend as the gateway lists them: the backend's name and a
/// dash in front of the name and URI, and the details as they are.
pub open spec fn resources_of<D>(backend: Seq<char>, resources: Seq<Resource<D>>) -> Seq<(Seq<char>, (Seq<char>, D))> {
    resources.map_values(|resource: Resource<D>| (backend + seq!['-'] + resource.name@, (backend + seq!['-'] + resource.uri@, resource.details)))
}

/// The resources in a list, each by its name and URI and its details.
pub open spec fn resource_entries<D>(resources: Seq<Resource<D>>) -> Seq<(Seq<char>, (Seq<char>, D))> {
    resources.map_values(|resource: Resource<D>| (resource.name@, (resource.uri@, resource.details)))
}

spec fn resource_entry<D>() -> spec_fn(ResourceView<D>) -> (Seq<char>, (Seq<char>, D)) {
    |v: ResourceView<D>| (v.name, (v.uri, v.details))
}

proof fn lemma_resource_entries<D>(backend: Seq<char>, resources: Seq<Resource<D>>)
    ensures
        crate::order::item_views(resources).map_values(resource_entry::<D>()) == resource_entries(resources),
        crate::listing::qualified_page(backend, resources).map_values(resource_entry::<D>())
            == resources_of(backend, resources),
{
    assert(crate::order::item_views(resources).map_values(resource_entry::<D>()) =~= resource_entries(
        resources,
    ));
    assert(crate::listing::qualified_page(backend, resources).map_values(resource_entry::<D>())
        =~= resources_of(backend, resources));
}

/// Merged, the resources of all backends are listed in the order of their names:
/// every one under its backend's name, a dash and its own name and URI,
/// with its details, and nothing else.
pub proof fn law_resources_are_merged_in_order<D>(
    pages: Vec<(String, ListResourcesResult<D>)>,
    merged: Vec<Resource<D>>,
)
    requires
        call_ensures(merge_resources::<D>, (pages,), merged),
    ensures
        lists_in_order(
            pages@.map_values(
                |page: (String, ListResourcesResult<D>)| resources_of(page.0@, page.1.resources@),
            ).flatten(),
            resource_entries(merged@),
        ),
{
    let rows = pages@.map_values(
        |page: (String, ListResourcesResult<D>)| resources_of(page.0@, page.1.resources@),
    );
    assert forall|i: int| 0 <= i < rows.len() implies #[trigger] rows[i]
        == crate::listing::qualified_page(pages@[i].0@, pages@[i].1.items()).map_values(
        resource_entry::<D>(),
    ) by {
        lemma_resource_entries(pages@[i].0@, pages@[i].1.resources@);
    }
    lemma_offered_rows(pages@, resource_entry::<D>(), rows);
    lemma_resource_entries(Seq::empty(), merged@);
    lemma_merged_in_order(
        pages@,
        merged@,
        resource_entry::<D>(),
        rows.flatten(),
        resource_entries(merged@),
    );
}

/// In a merged list of resources, of two names the earlier is the same as the later,
/// or a beginning of it, or has the smaller character where they first differ.
pub proof fn law_merged_resources_are_sorted<D>(
    pages: Vec<(String, ListResourcesResult<D>)>,
    merged: Vec<Resource<D>>,
    i: int,
    j: int,
)
    requires
        call_ensures(merge_resources::<D>, (pages,), merged),
        0 <= i < j < merged@.len(),
    ensures
        ({
            let (a, b) = (merged@[i].name@, merged@[j].name@);
            ||| a == b
            ||| a.len() < b.len() && a == b.take(a.len() as int)
            ||| exists|k: int|
                #![trigger a[k]]
                0 <= k < a.len() && k < b.len() && a.take(k) == b.take(k) && a[k] < b[k]
        }),
{
    law_resources_are_merged_in_order(pages, merged);
    let listed = resource_entries(merged@);
    assert(listed[i].0 == merged@[i].name@ && listed[j].0 == merged@[j].name@);
}

/// Every resource of a backend is in the merged list, with the backend's name and a
/// dash in front of its name and URI, and with its details.
pub proof fn law_resources_of_all_backends_are_merged<D>(
    pages: Vec<(String, ListResourcesResult<D>)>,
    merged: Vec<Resource<D>>,
    page: int,
    item: int,
)
    requires
        call_ensures(merge_resources::<D>, (pages,), merged),
        0 <= page < pages@.len(),
        0 <= item < pages@[page].1.resources@.len(),
    ensures
        exists|k: int|
            #![trigger merged@[k]]
            0 <= k < merged@.len() && merged@[k].details == pages@[page].1.resources@[item].details
                && merged@[k].name@ == pages@[page].0@ + seq!['-']
                + pages@[page].1.resources@[item].name@
                    && merged@[k].uri@ == pages@[page].0@ + seq!['-']
                    + pages@[page].1.resources@[item].uri@,
{
    crate::listing::law_every_item_is_merged(pages@, merged@, page, item);
    let k = choose|k: int|
        0 <= k < merged@.len() && (#[trigger] merged@[k])@ == Resource::<D>::qualified_view(
            pages@[page].0@,
            pages@[page].1.items()[item]@,
        );
    assert(merged@[k]@.name == merged@[k].name@);
    assert(merged@[k].details == pages@[page].1.resources@[item].details);
}

/// Every resource in a merged list is one of a backend, with that backend's name and
/// a dash in front of its name and URI; there are as many as the backends have in all.
pub proof fn law_merged_resources_are_of_a_backend<D>(
    pages: Vec<(String, ListResourcesResult<D>)>,
    merged: Vec<Resource<D>>,
    k: int,
)
    requires
        call_ensures(merge_resources::<D>, (pages,), merged),
        0 <= k < merged@.len(),
    ensures
        exists|page: int, item: int|
            #![trigger pages@[page].1.resources@[item]]
            0 <= page < pages@.len() && 0 <= item < pages@[page].1.resources@.len()
                && merged@[k].details == pages@[page].1.resources@[item].details && merged@[k].name@
                == pages@[page].0@ + seq!['-'] + pages@[page].1.resources@[item].name@
                    && merged@[k].uri@ == pages@[page].0@ + seq!['-']
                    + pages@[page].1.resources@[item].uri@,
        merged@.len() == pages@.map_values(
            |page: (String, ListResourcesResult<D>)| page.1.resources@,
        ).flatten().len(),
{
    crate::listing::law_merged_items_come_from_backends(pages@, merged@, k);
    let (page, item) = choose|page: int, item: int|
        #![trigger pages@[page].1.items()[item]]
        0 <= page < pages@.len() && 0 <= item < pages@[page].1.items().len() && merged@[k]@
            == Resource::<D>::qualified_view(pages@[page].0@, pages@[page].1.items()[item]@);
    assert(merged@[k].name@ == merged@[k]@.name);
    assert(merged@[k].details == pages@[page].1.resources@[item].details);
    crate::listing::law_merging_keeps_the_count(pages@, merged@);
    lemma_count_of_rows(
        pages@,
        pages@.map_values(|page: (String, ListResourcesResult<D>)| page.1.resources@),
    );
}

/// A request for the resources is refused as the validation refuses it. Otherwise
/// it is answered with one page that has the resources of all backends that answered,
/// as they are merged; backends that were not asked or failed add nothing.
pub proof fn law_resource_lists_have_all_answers<D, E>(
    asked: Result<Vec<(String, Option<Result<ListResourcesResult<D>, E>>)>, ErrorData>,
    answer: Result<ListResourcesResult<D>, ErrorData>,
)
    requires
        call_ensures(list_resources::<D, E>, (asked,), answer),
    ensures
        match asked {
            Err(refusal) => answer == Err::<ListResourcesResult<D>, ErrorData>(refusal),
            Ok(responses) => {
                &&& answer matches Ok(result)
                &&& result.meta is None
                &&& result.next_cursor is None
                &&& lists_in_order(
                    responses@.map_values(
                        |response: (String, Option<Result<ListResourcesResult<D>, E>>)|
                            match response.1 {
                                Some(Ok(page)) => resources_of(response.0@, page.resources@),
                                _ => Seq::empty(),
                            },
                    ).flatten(),
                    resource_entries(result.resources@),
                )
            },
        },
{
    if let Ok(responses) = asked {
        let listed = answer->Ok_0.resources@;
        let kept = crate::listing::answers(responses@);
        let rows = responses@.map_values(
            |response: (String, Option<Result<ListResourcesResult<D>, E>>)|
                match response.1 {
                    Some(Ok(page)) => resources_of(response.0@, page.resources@),
                    _ => Seq::empty(),
                },
        );
        assert forall|i: int|
            #![trigger rows[i]]
            0 <= i < rows.len() implies match responses@[i].1 {
            Some(Ok(page)) => rows[i] == crate::listing::qualified_page(
                responses@[i].0@,
                page.items(),
            ).map_values(resource_entry::<D>()),
            _ => rows[i] == Seq::<(Seq<char>, (Seq<char>, D))>::empty(),
        } by {
            if let Some(Ok(page)) = responses@[i].1 {
                lemma_resource_entries(responses@[i].0@, page.resources@);
            }
        }
        lemma_answered_rows(responses@, resource_entry::<D>(), rows);
        lemma_resource_entries(Seq::empty(), listed);
        lemma_merged_in_order(
            kept,
            listed,
            resource_entry::<D>(),
            rows.flatten(),
            resource_entries(listed),
        );
    }
}

/// What a request for the resources is answered with is what merging the answers
/// alone gives: the responses of other backends leave no trace.
pub proof fn law_resource_lists_are_merged_answers<D, E>(
    responses: Vec<(String, Option<Result<ListResourcesResult<D>, E>>)>,
    answer: Result<ListResourcesResult<D>, ErrorData>,
    answered: Vec<(String, ListResourcesResult<D>)>,
    merged: Vec<Resource<D>>,
)
    requires
        call_ensures(
            list_resources::<D, E>,
            (Ok::<Vec<(String, Option<Result<ListResourcesResult<D>, E>>)>, ErrorData>(responses),),
            answer,
        ),
        answered@ == responses@.filter_map(
            |response: (String, Option<Result<ListResourcesResult<D>, E>>)|
                match response.1 {
                    Some(Ok(page)) => Some((response.0, page)),
                    _ => None,
                },
        ),
        call_ensures(merge_resources::<D>, (answered,), merged),
    ensures
        answer matches Ok(result) && {
            &&& result.resources@.len() == merged@.len()
            &&& forall|k: int|
                #![trigger result.resources@[k]]
                0 <= k < merged@.len() ==> result.resources@[k].name@ == merged@[k].name@
                    && result.resources@[k].details == merged@[k].details && result.resources@[k].uri@
                    == merged@[k].uri@
        },
{
    let listed = answer->Ok_0.resources@;
    assert((|response: (String, Option<Result<ListResourcesResult<D>, E>>)|
        match response.1 {
            Some(Ok(page)) => Some((response.0, page)),
            _ => None,
        }) =~= crate::listing::answer_of::<ListResourcesResult<D>, E>());
    crate::listing::law_merge_is_unique(answered@, listed, merged@);
    let one = crate::order::item_views(listed);
    let other = crate::order::item_views(merged@);
    assert(one.len() == other.len());
    assert forall|k: int|
        #![trigger listed[k]]
        0 <= k < merged@.len() implies listed[k]@ == merged@[k]@ by {
        assert(one[k] == other[k]);
    }
    assert forall|k: int|
        #![trigger listed[k]]
        0 <= k < merged@.len() implies listed[k].name@ == merged@[k].name@ && listed[k].details
        == merged@[k].details && listed[k].uri@ == merged@[k].uri@ by {
        assert(listed[k]@ == merged@[k]@);
        assert(listed[k]@.name == listed[k].name@ && merged@[k]@.name == merged@[k].name@);
        assert(listed[k]@.details == listed[k].details);
    }
}

/// Every resource of a backend that answered is listed, with the backend's name and
/// a dash in front of its name and URI, whatever the other backends do.
pub proof fn law_resources_of_answering_backends_are_listed<D, E>(
    responses: Vec<(String, Option<Result<ListResourcesResult<D>, E>>)>,
    answer: Result<ListResourcesResult<D>, ErrorData>,
    i: int,
    page: ListResourcesResult<D>,
    item: int,
)
    requires
        call_ensures(
            list_resources::<D, E>,
            (Ok::<Vec<(String, Option<Result<ListResourcesResult<D>, E>>)>, ErrorData>(responses),),
            answer,
        ),
        0 <= i < responses@.len(),
        responses@[i].1 == Some(Ok::<ListResourcesResult<D>, E>(page)),
        0 <= item < page.resources@.len(),
    ensures
        answer matches Ok(result) && exists|k: int|
            #![trigger result.resources@[k]]
            0 <= k < result.resources@.len() && result.resources@[k].details
                == page.resources@[item].details && result.resources@[k].name@ == responses@[i].0@
                + seq!['-'] + page.resources@[item].name@
                    && result.resources@[k].uri@ == responses@[i].0@ + seq!['-']
                    + page.resources@[item].uri@,
{
    let result = answer->Ok_0;
    let kept = crate::listing::answers(responses@);
    crate::listing::law_answers_come_from_answering_backends(responses@, responses@[i].0, page);
    assert(responses@.contains((responses@[i].0, Some(Ok::<ListResourcesResult<D>, E>(page))))) by {
        assert(responses@[i] == (responses@[i].0, Some(Ok::<ListResourcesResult<D>, E>(page))));
    }
    let at = choose|at: int|
        0 <= at < kept.len() && kept[at] == (responses@[i].0, page);
    crate::listing::law_every_item_is_merged(kept, result.resources@, at, item);
    let k = choose|k: int|
        0 <= k < result.resources@.len() && (#[trigger] result.resources@[k])@
            == Resource::<D>::qualified_view(kept[at].0@, kept[at].1.items()[item]@);
    assert(result.resources@[k]@.name == result.resources@[k].name@);
    assert(result.resources@[k].details == page.resources@[item].details);
}

/// The prompts of one backend as the gateway lists them: the backend's name and a
/// dash in front of the name, and the details as they are.
pub open spec fn prompts_of<D>(backend: Seq<char>, prompts: Seq<Prompt<D>>) -> Seq<(Seq<char>, D)> {
    prompts.map_values(|prompt: Prompt<D>| (backend + seq!['-'] + prompt.name@, prompt.details))
}

/// The prompts in a list, each by its name and its details.
pub open spec fn prompt_entries<D>(prompts: Seq<Prompt<D>>) -> Seq<(Seq<char>, D)> {
    prompts.map_values(|prompt: Prompt<D>| (prompt.name@, prompt.details))
}

spec fn prompt_entry<D>() -> spec_fn(PromptView<D>) -> (Seq<char>, D) {
    |v: PromptView<D>| (v.name, v.details)
}

proof fn lemma_prompt_entries<D>(backend: Seq<char>, prompts: Seq<Prompt<D>>)
    ensures
        crate::order::item_views(prompts).map_values(prompt_entry::<D>()) == prompt_entries(prompts),
        crate::listing::qualified_page(backend, prompts).map_values(prompt_entry::<D>())
            == prompts_of(backend, prompts),
{
    assert(crate::order::item_views(prompts).map_values(prompt_entry::<D>()) =~= prompt_entries(
        prompts,
    ));
    assert(crate::listing::qualified_page(backend, prompts).map_values(prompt_entry::<D>())
        =~= prompts_of(backend, prompts));
}

/// Merged, the prompts of all backends are listed in the order of their names:
/// every one under its backend's name, a dash and its own name,
/// with its details, and nothing else.
pub proof fn law_prompts_are_merged_in_order<D>(
    pages: Vec<(String, ListPromptsResult<D>)>,
    merged: Vec<Prompt<D>>,
)
    requires
        call_ensures(merge_prompts::<D>, (pages,), merged),
    ensures
        lists_in_order(
            pages@.map_values(
                |page: (String, ListPromptsResult<D>)| prompts_of(page.0@, page.1.prompts@),
            ).flatten(),
            prompt_entries(merged@),
        ),
{
    let rows = pages@.map_values(
        |page: (String, ListPromptsResult<D>)| prompts_of(page.0@, page.1.prompts@),
    );
    assert forall|i: int| 0 <= i < rows.len() implies #[trigger] rows[i]
        == crate::listing::qualified_page(pages@[i].0@, pages@[i].1.items()).map_values(
        prompt_entry::<D>(),
    ) by {
        lemma_prompt_entries(pages@[i].0@, pages@[i].1.prompts@);
    }
    lemma_offered_rows(pages@, prompt_entry::<D>(), rows);
    lemma_prompt_entries(Seq::empty(), merged@);
    lemma_merged_in_order(
        pages@,
        merged@,
        prompt_entry::<D>(),
        rows.flatten(),
        prompt_entries(merged@),
    );
}

/// In a merged list of prompts, of two names the earlier is the same as the later,
/// or a beginning of it, or has the smaller character where they first differ.
pub proof fn law_merged_prompts_are_sorted<D>(
    pages: Vec<(String, ListPromptsResult<D>)>,
    merged: Vec<Prompt<D>>,
    i: int,
    j: int,
)
    requires
        call_ensures(merge_prompts::<D>, (pages,), merged),
        0 <= i < j < merged@.len(),
    ensures
        ({
            let (a, b) = (merged@[i].name@, merged@[j].name@);
            ||| a == b
            ||| a.len() < b.len() && a == b.take(a.len() as int)
            ||| exists|k: int|
                #![trigger a[k]]
                0 <= k < a.len() && k < b.len() && a.take(k) == b.take(k) && a[k] < b[k]
        }),
{
    law_prompts_are_merged_in_order(pages, merged);
    let listed = prompt_entries(merged@);
    assert(listed[i].0 == merged@[i].name@ && listed[j].0 == merged@[j].name@);
}

/// Every prompt of a backend is in the merged list, with the backend's name and a
/// dash in front of its name, and with its details.
pub proof fn law_prompts_of_all_backends_are_merged<D>(
    pages: Vec<(String, ListPromptsResult<D>)>,
    merged: Vec<Prompt<D>>,
    page: int,
    item: int,
)
    requires
        call_ensures(merge_prompts::<D>, (pages,), merged),
        0 <= page < pages@.len(),
        0 <= item < pages@[page].1.prompts@.len(),
    ensures
        exists|k: int|
            #![trigger merged@[k]]
            0 <= k < merged@.len() && merged@[k].details == pages@[page].1.prompts@[item].details
                && merged@[k].name@ == pages@[page].0@ + seq!['-']
                + pages@[page].1.prompts@[item].name@,
{
    crate::listing::law_every_item_is_merged(pages@, merged@, page, item);
    let k = choose|k: int|
        0 <= k < merged@.len() && (#[trigger] merged@[k])@ == Prompt::<D>::qualified_view(
            pages@[page].0@,
            pages@[page].1.items()[item]@,
        );
    assert(merged@[k]@.name == merged@[k].name@);
    assert(merged@[k].details == pages@[page].1.prompts@[item].details);
}

/// Every prompt in a merged list is one of a backend, with that backend's name and
/// a dash in front of its name; there are as many as the backends have in all.
pub proof fn law_merged_prompts_are_of_a_backend<D>(
    pages: Vec<(String, ListPromptsResult<D>)>,
    merged: Vec<Prompt<D>>,
    k: int,
)
    requires
        call_ensures(merge_prompts::<D>, (pages,), merged),
        0 <= k < merged@.len(),
    ensures
        exists|page: int, item: int|
            #![trigger pages@[page].1.prompts@[item]]
            0 <= page < pages@.len() && 0 <= item < pages@[page].1.prompts@.len()
                && merged@[k].details == pages@[page].1.prompts@[item].details && merged@[k].name@
                == pages@[page].0@ + seq!['-'] + pages@[page].1.prompts@[item].name@,
        merged@.len() == pages@.map_values(
            |page: (String, ListPromptsResult<D>)| page.1.prompts@,
        ).flatten().len(),
{
    crate::listing::law_merged_items_come_from_backends(pages@, merged@, k);
    let (page, item) = choose|page: int, item: int|
        #![trigger pages@[page].1.items()[item]]
        0 <= page < pages@.len() && 0 <= item < pages@[page].1.items().len() && merged@[k]@
            == Prompt::<D>::qualified_view(pages@[page].0@, pages@[page].1.items()[item]@);
    assert(merged@[k].name@ == merged@[k]@.name);
    assert(merged@[k].details == pages@[page].1.prompts@[item].details);
    crate::listing::law_merging_keeps_the_count(pages@, merged@);
    lemma_count_of_rows(
        pages@,
        pages@.map_values(|page: (String, ListPromptsResult<D>)| page.1.prompts@),
    );
}

/// A request for the prompts is refused as the validation refuses it. Otherwise
/// it is answered with one page that has the prompts of all backends that answered,
/// as they are merged; backends that were not asked or failed add nothing.
pub proof fn law_prompt_lists_have_all_answers<D, E>(
    asked: Result<Vec<(String, Option<Result<ListPromptsResult<D>, E>>)>, ErrorData>,
    answer: Result<ListPromptsResult<D>, ErrorData>,
)
    requires
        call_ensures(list_prompts::<D, E>, (asked,), answer),
    ensures
        match asked {
            Err(refusal) => answer == Err::<ListPromptsResult<D>, ErrorData>(refusal),
            Ok(responses) => {
                &&& answer matches Ok(result)
                &&& result.meta is None
                &&& result.next_cursor is None
                &&& lists_in_order(
                    responses@.map_values(
                        |response: (String, Option<Result<ListPromptsResult<D>, E>>)|
                            match response.1 {
                                Some(Ok(page)) => prompts_of(response.0@, page.prompts@),
                                _ => Seq::empty(),
                            },
                    ).flatten(),
                    prompt_entries(result.prompts@),
                )
            },
        },
{
    if let Ok(responses) = asked {
        let listed = answer->Ok_0.prompts@;
        let kept = crate::listing::answers(responses@);
        let rows = responses@.map_values(
            |response: (String, Option<Result<ListPromptsResult<D>, E>>)|
                match response.1 {
                    Some(Ok(page)) => prompts_of(response.0@, page.prompts@),
                    _ => Seq::empty(),
                },
        );
        assert forall|i: int|
            #![trigger rows[i]]
            0 <= i < rows.len() implies match responses@[i].1 {
            Some(Ok(page)) => rows[i] == crate::listing::qualified_page(
                responses@[i].0@,
                page.items(),
            ).map_values(prompt_entry::<D>()),
            _ => rows[i] == Seq::<(Seq<char>, D)>::empty(),
        } by {
            if let Some(Ok(page)) = responses@[i].1 {
                lemma_prompt_entries(responses@[i].0@, page.prompts@);
            }
        }
        lemma_answered_rows(responses@, prompt_entry::<D>(), rows);
        lemma_prompt_entries(Seq::empty(), listed);
        lemma_merged_in_order(
            kept,
            listed,
            prompt_entry::<D>(),
            rows.flatten(),
            prompt_entries(listed),
        );
    }
}

/// What a request for the prompts is answered with is what merging the answers
/// alone gives: the responses of other backends leave no trace.
pub proof fn law_prompt_lists_are_merged_answers<D, E>(
    responses: Vec<(String, Option<Result<ListPromptsResult<D>, E>>)>,
    answer: Result<ListPromptsResult<D>, ErrorData>,
    answered: Vec<(String, ListPromptsResult<D>)>,
    merged: Vec<Prompt<D>>,
)
    requires
        call_ensures(
            list_prompts::<D, E>,
            (Ok::<Vec<(String, Option<Result<ListPromptsResult<D>, E>>)>, ErrorData>(responses),),
            answer,
        ),
        answered@ == responses@.filter_map(
            |response: (String, Option<Result<ListPromptsResult<D>, E>>)|
                match response.1 {
                    Some(Ok(page)) => Some((response.0, page)),
                    _ => None,
                },
        ),
        call_ensures(merge_prompts::<D>, (answered,), merged),
    ensures
        answer matches Ok(result) && {
            &&& result.prompts@.len() == merged@.len()
            &&& forall|k: int|
                #![trigger result.prompts@[k]]
                0 <= k < merged@.len() ==> result.prompts@[k].name@ == merged@[k].name@
                    && result.prompts@[k].details == merged@[k].details
        },
{
    let listed = answer->Ok_0.prompts@;
    assert((|response: (String, Option<Result<ListPromptsResult<D>, E>>)|
        match response.1 {
            Some(Ok(page)) => Some((response.0, page)),
            _ => None,
        }) =~= crate::listing::answer_of::<ListPromptsResult<D>, E>());
    crate::listing::law_merge_is_unique(answered@, listed, merged@);
    let one = crate::order::item_views(listed);
    let other = crate::order::item_views(merged@);
    assert(one.len() == other.len());
    assert forall|k: int|
        #![trigger listed[k]]
        0 <= k < merged@.len() implies listed[k]@ == merged@[k]@ by {
        assert(one[k] == other[k]);
    }
    assert forall|k: int|
        #![trigger listed[k]]
        0 <= k < merged@.len() implies listed[k].name@ == merged@[k].name@ && listed[k].details
        == merged@[k].details by {
        assert(listed[k]@ == merged@[k]@);
        assert(listed[k]@.name == listed[k].name@ && merged@[k]@.name == merged@[k].name@);
        assert(listed[k]@.details == listed[k].details);
    }
}

/// Every prompt of a backend that answered is listed, with the backend's name and
/// a dash in front of its name, whatever the other backends do.
pub proof fn law_prompts_of_answering_backends_are_listed<D, E>(
    responses: Vec<(String, Option<Result<ListPromptsResult<D>, E>>)>,
    answer: Result<ListPromptsResult<D>, ErrorData>,
    i: int,
    page: ListPromptsResult<D>,
    item: int,
)
    requires
        call_ensures(
            list_prompts::<D, E>,
            (Ok::<Vec<(String, Option<Result<ListPromptsResult<D>, E>>)>, ErrorData>(responses),),
            answer,
        ),
        0 <= i < responses@.len(),
        responses@[i].1 == Some(Ok::<ListPromptsResult<D>, E>(page)),
        0 <= item < page.prompts@.len(),
    ensures
        answer matches Ok(result) && exists|k: int|
            #![trigger result.prompts@[k]]
            0 <= k < result.prompts@.len() && result.prompts@[k].details
                == page.prompts@[item].details && result.prompts@[k].name@ == responses@[i].0@
                + seq!['-'] + page.prompts@[item].name@,
{
    let result = answer->Ok_0;
    let kept = crate::listing::answers(responses@);
    crate::listing::law_answers_come_from_answering_backends(responses@, responses@[i].0, page);
    assert(responses@.contains((responses@[i].0, Some(Ok::<ListPromptsResult<D>, E>(page))))) by {
        assert(responses@[i] == (responses@[i].0, Some(Ok::<ListPromptsResult<D>, E>(page))));
    }
    let at = choose|at: int|
        0 <= at < kept.len() && kept[at] == (responses@[i].0, page);
    crate::listing::law_every_item_is_merged(kept, result.prompts@, at, item);
    let k = choose|k: int|
        0 <= k < result.prompts@.len() && (#[trigger] result.prompts@[k])@
            == Prompt::<D>::qualified_view(kept[at].0@, kept[at].1.items()[item]@);
    assert(result.prompts@[k]@.name == result.prompts@[k].name@);
    assert(result.prompts@[k].details == page.prompts@[item].details);
}

/// Every connected backend is asked, on its connection and with a copy of the
/// request, and no other is; each stays with its name and in its place.
pub proof fn law_connected_backends_are_asked<S, Q: Clone>(
    holders: Vec<ServiceHolder<S>>,
    request: Q,
    asked: Vec<(String, Option<(S, Q)>)>,
    i: int,
)
    requires
        call_ensures(ask_each::<S, Q>, (holders, &request), asked),
        0 <= i < holders@.len(),
    ensures
        asked@.len() == holders@.len(),
        asked@[i].0@ == holders@[i].name@,
        asked@[i].1 is Some <==> holders@[i].running_service is Some,
        asked@[i].1 matches Some((service, copy)) ==> holders@[i].running_service == Some(service)
            && cloned(request, copy),
{
}

} // verus!
