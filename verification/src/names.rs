//! Names that carry the backend they belong to.
//!
//! The gateway offers the item `n` of the backend `b` as `b-n`. Splitting such
//! a name again gives back the first backend, in the order in which the
//! backends are listed, that the name can belong to.

use vstd::prelude::*;
use vstd::string::*;

verus! {

/// The separator between a backend and what it offers.
pub open spec fn separator() -> Seq<char> {
    seq!['-']
}

/// The name under which the gateway offers the item `name` of `backend`.
pub open spec fn qualified(backend: Seq<char>, name: Seq<char>) -> Seq<char> {
    backend + separator() + name
}

/// Whether `full` starts with `backend` and the separator.
pub open spec fn belongs_to(full: Seq<char>, backend: Seq<char>) -> bool {
    (backend + separator()).is_prefix_of(full)
}

/// What follows `backend` and the separator in `full`.
pub open spec fn after_backend(full: Seq<char>, backend: Seq<char>) -> Seq<char> {
    full.skip((backend + separator()).len() as int)
}

/// The first of `backends` that `full` belongs to, with what follows the
/// separator; nothing where `full` belongs to none of them.
pub open spec fn split_name(full: Seq<char>, backends: Seq<Seq<char>>) -> Option<
    (Seq<char>, Seq<char>),
>
    decreases backends.len(),
{
    if backends.len() == 0 {
        None
    } else if belongs_to(full, backends[0]) {
        Some((backends[0], after_backend(full, backends[0])))
    } else {
        split_name(full, backends.drop_first())
    }
}

/// The backend names as sequences of characters.
pub open spec fn name_views(names: Seq<&str>) -> Seq<Seq<char>> {
    names.map_values(|name: &str| name@)
}

/// Puts `backend` and the separator in front of `name`.
pub fn qualify_name(backend: &str, name: &str) -> (full: String)
    ensures
        full@ == qualified(backend@, name@),
{
    proof {
        reveal_strlit("-");
    }
    assert("-"@ =~= separator());
    let mut full = backend.to_owned();
    full.append("-");
    full.append(name);
    full
}

/// What follows `backend` and the separator in `full`, if `full` starts with them.
fn strip_backend<'a>(full: &'a str, backend: &str) -> (rest: Option<&'a str>)
    ensures
        rest is Some <==> belongs_to(full@, backend@),
        rest matches Some(r) ==> r@ == after_backend(full@, backend@),
{
    let total: usize = full.unicode_len();
    let mut left = full.chars();
    let mut wanted = backend.chars();
    let mut matched: usize = 0;
    loop
        invariant
            total == full@.len(),
            matched <= total,
            matched <= backend@.len(),
            vstd::std_specs::iter::IteratorSpec::obeys_prophetic_iter_laws(&left),
            vstd::std_specs::iter::IteratorSpec::obeys_prophetic_iter_laws(&wanted),
            vstd::std_specs::iter::IteratorSpec::remaining(&left) == full@.skip(matched as int),
            vstd::std_specs::iter::IteratorSpec::remaining(&wanted) == backend@.skip(matched as int),
            forall|k: int| 0 <= k < matched ==> full@[k] == backend@[k],
        ensures
            matched == backend@.len(),
            vstd::std_specs::iter::IteratorSpec::obeys_prophetic_iter_laws(&left),
            vstd::std_specs::iter::IteratorSpec::remaining(&left) == full@.skip(matched as int),
        decreases backend@.len() - matched,
    {
        match wanted.next() {
            None => {
                break ;
            },
            Some(expected) => {
                match left.next() {
                    None => {
                        return None;
                    },
                    Some(found) => {
                        if found != expected {
                            assert((backend@ + separator())[matched as int] == expected);
                            return None;
                        }
                    },
                }
            },
        }
        matched = matched + 1;
    }
    match left.next() {
        None => None,
        Some(found) => {
            if found == '-' {
                assert((backend@ + separator()) =~= full@.subrange(0, matched + 1));
                let rest = full.substring_char(matched + 1, total);
                assert(rest@ =~= full@.skip(matched + 1));
                Some(rest)
            } else {
                assert((backend@ + separator())[matched as int] == '-');
                None
            }
        },
    }
}

/// A tool name taken apart.
#[derive(Debug, PartialEq, PartialOrd, Ord, Eq)]
pub struct BackendToolPair<'a> {
    pub backend_name: &'a str,
    pub tool_name: &'a str,
}

/// A resource URI taken apart.
#[derive(Debug, PartialEq, PartialOrd, Ord, Eq)]
pub struct BackendResourcePair<'a> {
    pub backend_name: &'a str,
    pub resource_uri: &'a str,
}

/// A prompt name taken apart.
#[derive(Debug, PartialEq, PartialOrd, Ord, Eq)]
pub struct BackendPromptPair<'a> {
    pub backend_name: &'a str,
    pub prompt_name: &'a str,
}

/// Finds the first of `backends` that `full` belongs to, and what follows it.
fn find_backend<'a>(full: &'a str, backends: &'a [&'a str]) -> (found: Option<(&'a str, &'a str)>)
    ensures
        match found {
            Some((backend, rest)) => split_name(full@, name_views(backends@)) == Some(
                (backend@, rest@),
            ),
            None => split_name(full@, name_views(backends@)) is None,
        },
{
    let ghost views = name_views(backends@);
    assert(views.skip(0) =~= views);
    let mut next: usize = 0;
    while next < backends.len()
        invariant
            next <= backends@.len(),
            views == name_views(backends@),
            split_name(full@, views) == split_name(full@, views.skip(next as int)),
        decreases backends@.len() - next,
    {
        let backend = backends[next];
        assert(views.skip(next as int)[0] == backend@);
        assert(views.skip(next as int).drop_first() =~= views.skip(next + 1));
        if let Some(rest) = strip_backend(full, backend) {
            return Some((backend, rest));
        }
        next = next + 1;
    }
    None
}

/// Splits the name of a tool into its backend and the tool's own name there.
pub fn split_tool_name<'a>(
    tool_name: &'a str,
    backend_names: &'a [&'a str],
) -> (pair: Option<BackendToolPair<'a>>)
    ensures
        match pair {
            Some(p) => split_name(tool_name@, name_views(backend_names@)) == Some(
                (p.backend_name@, p.tool_name@),
            ),
            None => split_name(tool_name@, name_views(backend_names@)) is None,
        },
{
    match find_backend(tool_name, backend_names) {
        Some((backend_name, rest)) => Some(BackendToolPair { backend_name, tool_name: rest }),
        None => None,
    }
}

/// Splits the URI of a resource into its backend and the resource's own URI there.
pub fn split_resource_name<'a>(
    resource_uri: &'a str,
    backend_names: &'a [&'a str],
) -> (pair: Option<BackendResourcePair<'a>>)
    ensures
        match pair {
            Some(p) => split_name(resource_uri@, name_views(backend_names@)) == Some(
                (p.backend_name@, p.resource_uri@),
            ),
            None => split_name(resource_uri@, name_views(backend_names@)) is None,
        },
{
    match find_backend(resource_uri, backend_names) {
        Some((backend_name, rest)) => Some(BackendResourcePair { backend_name, resource_uri: rest }),
        None => None,
    }
}

/// Splits the name of a prompt into its backend and the prompt's own name there.
pub fn split_prompt_name<'a>(
    prompt_name: &'a str,
    backend_names: &'a [&'a str],
) -> (pair: Option<BackendPromptPair<'a>>)
    ensures
        match pair {
            Some(p) => split_name(prompt_name@, name_views(backend_names@)) == Some(
                (p.backend_name@, p.prompt_name@),
            ),
            None => split_name(prompt_name@, name_views(backend_names@)) is None,
        },
{
    match find_backend(prompt_name, backend_names) {
        Some((backend_name, rest)) => Some(BackendPromptPair { backend_name, prompt_name: rest }),
        None => None,
    }
}

/// A split name is put together again by qualifying, and its backend is one
/// of those asked for, with no earlier one that the name belongs to.
pub proof fn law_split_then_qualify(full: Seq<char>, backends: Seq<Seq<char>>)
    ensures
        split_name(full, backends) matches Some((backend, rest)) ==> {
            &&& qualified(backend, rest) == full
            &&& exists|i: int|
                #![trigger backends[i]]
                0 <= i < backends.len() && backends[i] == backend && (forall|j: int|
                    0 <= j < i ==> !belongs_to(full, #[trigger] backends[j]))
        },
    decreases backends.len(),
{
    if backends.len() > 0 {
        let tail = backends.drop_first();
        if belongs_to(full, backends[0]) {
            assert(qualified(backends[0], after_backend(full, backends[0])) =~= full);
        } else {
            law_split_then_qualify(full, tail);
            if let Some((backend, rest)) = split_name(full, backends) {
                let i = choose|i: int|
                    #![trigger tail[i]]
                    0 <= i < tail.len() && tail[i] == backend && (forall|j: int|
                        0 <= j < i ==> !belongs_to(full, #[trigger] tail[j]));
                assert(backends[i + 1] == backend);
                assert forall|j: int| 0 <= j < i + 1 implies !belongs_to(
                    full,
                    #[trigger] backends[j],
                ) by {
                    if j > 0 {
                        assert(tail[j - 1] == backends[j]);
                    }
                }
            }
        }
    }
}

/// A name cannot be split exactly when it belongs to none of the backends.
pub proof fn law_unsplit_names_belong_to_no_backend(full: Seq<char>, backends: Seq<Seq<char>>)
    ensures
        split_name(full, backends) is None <==> forall|i: int|
            0 <= i < backends.len() ==> !belongs_to(full, #[trigger] backends[i]),
    decreases backends.len(),
{
    if backends.len() > 0 {
        let tail = backends.drop_first();
        law_unsplit_names_belong_to_no_backend(full, tail);
        assert(forall|i: int| 0 <= i < tail.len() ==> tail[i] == #[trigger] backends[i + 1]);
        if split_name(full, backends) is None {
            assert forall|i: int| 0 <= i < backends.len() implies !belongs_to(
                full,
                #[trigger] backends[i],
            ) by {
                if i > 0 {
                    assert(tail[i - 1] == backends[i]);
                }
            }
        }
    }
}

/// Whether no other backend claims the name of an item of `backends[at]` before
/// that backend itself does.
pub open spec fn first_claim(backends: Seq<Seq<char>>, at: int, name: Seq<char>) -> bool {
    &&& 0 <= at < backends.len()
    &&& forall|j: int|
        0 <= j < at && belongs_to(qualified(backends[at], name), #[trigger] backends[j])
            ==> backends[j] == backends[at]
}

/// Qualifying is undone by splitting, unless the name also belongs to another
/// backend listed earlier: `a-b` and `a` share the names that start with `a-b-`.
pub proof fn law_qualify_then_split(backends: Seq<Seq<char>>, at: int, name: Seq<char>)
    requires
        first_claim(backends, at, name),
    ensures
        split_name(qualified(backends[at], name), backends) == Some((backends[at], name)),
    decreases backends.len(),
{
    let full = qualified(backends[at], name);
    let own = backends[at];
    assert((own + separator()) =~= full.subrange(0, (own + separator()).len() as int));
    assert(after_backend(full, own) =~= name);
    if backends[0] != own {
        let tail = backends.drop_first();
        assert(at > 0);
        assert(tail[at - 1] == own);
        assert forall|j: int|
            0 <= j < at - 1 && belongs_to(full, #[trigger] tail[j]) implies tail[j] == own by {
            assert(tail[j] == backends[j + 1]);
        }
        assert(!belongs_to(full, backends[0]));
        law_qualify_then_split(tail, at - 1, name);
    }
}

/// Whether the separator occurs in `name`.
pub open spec fn has_separator(name: Seq<char>) -> bool {
    name.contains('-')
}

/// Where no backend name holds the separator, qualifying is always undone by
/// splitting, whatever the item is called and however the backends are listed.
pub proof fn law_plain_backends_never_clash(backends: Seq<Seq<char>>, at: int, name: Seq<char>)
    requires
        0 <= at < backends.len(),
        forall|j: int| 0 <= j < backends.len() ==> !has_separator(#[trigger] backends[j]),
    ensures
        split_name(qualified(backends[at], name), backends) == Some((backends[at], name)),
{
    let own = backends[at];
    let full = qualified(own, name);
    assert forall|j: int| 0 <= j < at && belongs_to(full, #[trigger] backends[j]) implies backends[j]
        == own by {
        let other = backends[j];
        let start = other + separator();
        assert(start =~= full.subrange(0, start.len() as int));
        assert(full[other.len() as int] == start[other.len() as int]);
        assert(full[own.len() as int] == '-');
        if other.len() < own.len() {
            assert(own[other.len() as int] == '-');
        } else if own.len() < other.len() {
            assert(full[own.len() as int] == start[own.len() as int]);
            assert(other[own.len() as int] == '-');
        } else {
            assert forall|k: int| 0 <= k < own.len() implies own[k] == other[k] by {
                assert(full[k] == start[k]);
            }
            assert(own =~= other);
        }
    }
    law_qualify_then_split(backends, at, name);
}

/// Backends listed after one that claims a name have no say in it.
pub proof fn law_later_backends_change_nothing(
    full: Seq<char>,
    backends: Seq<Seq<char>>,
    later: Seq<Seq<char>>,
)
    requires
        split_name(full, backends) is Some,
    ensures
        split_name(full, backends + later) == split_name(full, backends),
    decreases backends.len(),
{
    assert((backends + later)[0] == backends[0]);
    if !belongs_to(full, backends[0]) {
        assert((backends + later).drop_first() =~= backends.drop_first() + later);
        law_later_backends_change_nothing(full, backends.drop_first(), later);
    }
}

/// Where no two different backends claim a name, the order in which the
/// backends are listed, and how often, does not matter.
pub proof fn law_order_of_backends_shows_in_clashes_only(
    full: Seq<char>,
    backends: Seq<Seq<char>>,
    reordered: Seq<Seq<char>>,
)
    requires
        forall|backend: Seq<char>|
            backends.contains(backend) <==> #[trigger] reordered.contains(backend),
        forall|i: int, j: int|
            #![trigger backends[i], backends[j]]
            0 <= i < backends.len() && 0 <= j < backends.len() && belongs_to(full, backends[i])
                && belongs_to(full, backends[j]) ==> backends[i] == backends[j],
    ensures
        split_name(full, backends) == split_name(full, reordered),
{
    lemma_split_names_a_claimant(full, backends);
    lemma_split_names_a_claimant(full, reordered);
    law_unsplit_names_belong_to_no_backend(full, backends);
    law_unsplit_names_belong_to_no_backend(full, reordered);
    if let Some((one, _)) = split_name(full, backends) {
        assert(reordered.contains(one));
        let at = choose|at: int| 0 <= at < reordered.len() && reordered[at] == one;
        assert(belongs_to(full, reordered[at]));
    }
    if let Some((other, _)) = split_name(full, reordered) {
        assert(backends.contains(other));
        let at = choose|at: int| 0 <= at < backends.len() && backends[at] == other;
        assert(belongs_to(full, backends[at]));
    }
}

proof fn lemma_split_names_a_claimant(full: Seq<char>, backends: Seq<Seq<char>>)
    ensures
        split_name(full, backends) matches Some((backend, rest)) ==> {
            &&& backends.contains(backend)
            &&& belongs_to(full, backend)
            &&& rest == after_backend(full, backend)
        },
    decreases backends.len(),
{
    if backends.len() > 0 && !belongs_to(full, backends[0]) {
        let tail = backends.drop_first();
        lemma_split_names_a_claimant(full, tail);
        if let Some((backend, _)) = split_name(full, tail) {
            let at = choose|at: int| 0 <= at < tail.len() && tail[at] == backend;
            assert(backends[at + 1] == backend);
        }
    }
}

} // verus!
