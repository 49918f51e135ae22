//! Names are made of a backend, a dash and what the backend calls the item, and
//! are taken apart again.

use vstd::prelude::*;

use crate::names::{
    qualify_name, split_prompt_name, split_resource_name, split_tool_name, BackendPromptPair,
    BackendResourcePair, BackendToolPair,
};

verus! {

/// A qualified name is the backend's name, a dash and the item's own name.
pub proof fn law_names_are_joined_by_a_dash(backend: &str, name: &str, full: String)
    requires
        call_ensures(qualify_name, (backend, name), full),
    ensures
        full@ == backend@ + seq!['-'] + name@,
{
}

pub(crate) proof fn lemma_claimed(full: Seq<char>, backend: Seq<char>)
    ensures
        crate::names::belongs_to(full, backend) <==> exists|rest: Seq<char>|
            full == #[trigger] (backend + seq!['-'] + rest),
{
    let start = backend + seq!['-'];
    if crate::names::belongs_to(full, backend) {
        let rest = full.skip(start.len() as int);
        assert(start =~= full.subrange(0, start.len() as int));
        assert(full =~= backend + seq!['-'] + rest);
    }
    assert forall|rest: Seq<char>| full == #[trigger] (backend + seq!['-'] + rest) implies
        crate::names::belongs_to(full, backend) by {
        assert(start =~= full.subrange(0, start.len() as int));
    }
}

pub(crate) proof fn lemma_split(full: Seq<char>, backends: Seq<Seq<char>>)
    ensures
        match crate::names::split_name(full, backends) {
            Some((backend, own)) => {
                &&& full == backend + seq!['-'] + own
                &&& exists|i: int|
                    #![trigger backends[i]]
                    0 <= i < backends.len() && backends[i] == backend && forall|
                        j: int,
                        rest: Seq<char>,
                    |
                        0 <= j < i ==> full != #[trigger] (backends[j] + seq!['-'] + rest)
            },
            None => forall|j: int, rest: Seq<char>|
                0 <= j < backends.len() ==> full != #[trigger] (backends[j] + seq!['-'] + rest),
        },
{
    crate::names::law_split_then_qualify(full, backends);
    crate::names::law_unsplit_names_belong_to_no_backend(full, backends);
    match crate::names::split_name(full, backends) {
        Some((backend, _)) => {
            let i = choose|i: int|
                #![trigger backends[i]]
                0 <= i < backends.len() && backends[i] == backend && (forall|j: int|
                    0 <= j < i ==> !crate::names::belongs_to(full, #[trigger] backends[j]));
            assert forall|j: int, rest: Seq<char>| 0 <= j < i implies full != #[trigger] (
            backends[j] + seq!['-'] + rest) by {
                lemma_claimed(full, backends[j]);
            }
            assert(backends[i] == backend);
        },
        None => {
            assert forall|j: int, rest: Seq<char>| 0 <= j < backends.len() implies full
                != #[trigger] (backends[j] + seq!['-'] + rest) by {
                lemma_claimed(full, backends[j]);
            }
        },
    }
}

/// The name of a tool is taken apart at the first of the backends that it can be
/// of: put together again, the parts are what was taken apart. It is not taken
/// apart where it does not start with any backend's name and a dash.
pub proof fn law_tools_are_taken_apart<'a>(
    full: &'a str,
    backends: &'a [&'a str],
    pair: Option<BackendToolPair<'a>>,
)
    requires
        call_ensures(split_tool_name, (full, backends), pair),
    ensures
        match pair {
            Some(parts) => {
                &&& full@ == parts.backend_name@ + seq!['-'] + parts.tool_name@
                &&& exists|i: int|
                    #![trigger backends@[i]]
                    0 <= i < backends@.len() && backends@[i]@ == parts.backend_name@ && forall|
                        j: int,
                        rest: Seq<char>,
                    |
                        0 <= j < i ==> full@ != #[trigger] (backends@[j]@ + seq!['-'] + rest)
            },
            None => forall|j: int, rest: Seq<char>|
                0 <= j < backends@.len() ==> full@ != #[trigger] (backends@[j]@ + seq!['-'] + rest),
        },
{
    let names = crate::names::name_views(backends@);
    lemma_split(full@, names);
    assert forall|j: int| 0 <= j < names.len() implies #[trigger] names[j] == backends@[j]@ by {}
    if let Some(parts) = pair {
        let i = choose|i: int|
            #![trigger names[i]]
            0 <= i < names.len() && names[i] == parts.backend_name@ && forall|
                j: int,
                rest: Seq<char>,
            |
                0 <= j < i ==> full@ != #[trigger] (names[j] + seq!['-'] + rest);
        assert(backends@[i]@ == parts.backend_name@);
        assert forall|j: int, rest: Seq<char>| 0 <= j < i implies full@ != #[trigger] (
        backends@[j]@ + seq!['-'] + rest) by {
            assert(full@ != names[j] + seq!['-'] + rest);
        }
    } else {
        assert forall|j: int, rest: Seq<char>| 0 <= j < backends@.len() implies full@
            != #[trigger] (backends@[j]@ + seq!['-'] + rest) by {
            assert(full@ != names[j] + seq!['-'] + rest);
        }
    }
}

/// The URI of a resource is taken apart at the first of the backends that it can be
/// of: put together again, the parts are what was taken apart. It is not taken
/// apart where it does not start with any backend's name and a dash.
pub proof fn law_resources_are_taken_apart<'a>(
    full: &'a str,
    backends: &'a [&'a str],
    pair: Option<BackendResourcePair<'a>>,
)
    requires
        call_ensures(split_resource_name, (full, backends), pair),
    ensures
        match pair {
            Some(parts) => {
                &&& full@ == parts.backend_name@ + seq!['-'] + parts.resource_uri@
                &&& exists|i: int|
                    #![trigger backends@[i]]
                    0 <= i < backends@.len() && backends@[i]@ == parts.backend_name@ && forall|
                        j: int,
                        rest: Seq<char>,
                    |
                        0 <= j < i ==> full@ != #[trigger] (backends@[j]@ + seq!['-'] + rest)
            },
            None => forall|j: int, rest: Seq<char>|
                0 <= j < backends@.len() ==> full@ != #[trigger] (backends@[j]@ + seq!['-'] + rest),
        },
{
    let names = crate::names::name_views(backends@);
    lemma_split(full@, names);
    assert forall|j: int| 0 <= j < names.len() implies #[trigger] names[j] == backends@[j]@ by {}
    if let Some(parts) = pair {
        let i = choose|i: int|
            #![trigger names[i]]
            0 <= i < names.len() && names[i] == parts.backend_name@ && forall|
                j: int,
                rest: Seq<char>,
            |
                0 <= j < i ==> full@ != #[trigger] (names[j] + seq!['-'] + rest);
        assert(backends@[i]@ == parts.backend_name@);
        assert forall|j: int, rest: Seq<char>| 0 <= j < i implies full@ != #[trigger] (
        backends@[j]@ + seq!['-'] + rest) by {
            assert(full@ != names[j] + seq!['-'] + rest);
        }
    } else {
        assert forall|j: int, rest: Seq<char>| 0 <= j < backends@.len() implies full@
            != #[trigger] (backends@[j]@ + seq!['-'] + rest) by {
            assert(full@ != names[j] + seq!['-'] + rest);
        }
    }
}

/// The name of a prompt is taken apart at the first of the backends that it can be
/// of: put together again, the parts are what was taken apart. It is not taken
/// apart where it does not start with any backend's name and a dash.
pub proof fn law_prompts_are_taken_apart<'a>(
    full: &'a str,
    backends: &'a [&'a str],
    pair: Option<BackendPromptPair<'a>>,
)
    requires
        call_ensures(split_prompt_name, (full, backends), pair),
    ensures
        match pair {
            Some(parts) => {
                &&& full@ == parts.backend_name@ + seq!['-'] + parts.prompt_name@
                &&& exists|i: int|
                    #![trigger backends@[i]]
                    0 <= i < backends@.len() && backends@[i]@ == parts.backend_name@ && forall|
                        j: int,
                        rest: Seq<char>,
                    |
                        0 <= j < i ==> full@ != #[trigger] (backends@[j]@ + seq!['-'] + rest)
            },
            None => forall|j: int, rest: Seq<char>|
                0 <= j < backends@.len() ==> full@ != #[trigger] (backends@[j]@ + seq!['-'] + rest),
        },
{
    let names = crate::names::name_views(backends@);
    lemma_split(full@, names);
    assert forall|j: int| 0 <= j < names.len() implies #[trigger] names[j] == backends@[j]@ by {}
    if let Some(parts) = pair {
        let i = choose|i: int|
            #![trigger names[i]]
            0 <= i < names.len() && names[i] == parts.backend_name@ && forall|
                j: int,
                rest: Seq<char>,
            |
                0 <= j < i ==> full@ != #[trigger] (names[j] + seq!['-'] + rest);
        assert(backends@[i]@ == parts.backend_name@);
        assert forall|j: int, rest: Seq<char>| 0 <= j < i implies full@ != #[trigger] (
        backends@[j]@ + seq!['-'] + rest) by {
            assert(full@ != names[j] + seq!['-'] + rest);
        }
    } else {
        assert forall|j: int, rest: Seq<char>| 0 <= j < backends@.len() implies full@
            != #[trigger] (backends@[j]@ + seq!['-'] + rest) by {
            assert(full@ != names[j] + seq!['-'] + rest);
        }
    }
}

/// The name of a tool that was put together of a backend's name, a dash and the
/// item's own is taken apart into the two again, if it does not start with
/// another backend's name and a dash.
pub proof fn law_joined_tools_are_taken_apart_again<'a>(
    backends: &'a [&'a str],
    at: int,
    own: &str,
    joined: String,
    full: &'a str,
    pair: Option<BackendToolPair<'a>>,
)
    requires
        0 <= at < backends@.len(),
        call_ensures(qualify_name, (backends@[at], own), joined),
        full@ == joined@,
        call_ensures(split_tool_name, (full, backends), pair),
        forall|j: int, rest: Seq<char>|
            0 <= j < backends@.len() && full@ == #[trigger] (backends@[j]@ + seq!['-'] + rest)
                ==> backends@[j]@ == backends@[at]@,
    ensures
        pair matches Some(parts) && parts.backend_name@ == backends@[at]@ && parts.tool_name@
            == own@,
{
    law_tools_are_taken_apart(full, backends, pair);
    let backend = backends@[at]@;
    assert(full@ == backends@[at]@ + seq!['-'] + own@);
    if let Some(parts) = pair {
        let i = choose|i: int|
            #![trigger backends@[i]]
            0 <= i < backends@.len() && backends@[i]@ == parts.backend_name@;
        assert(full@ == backends@[i]@ + seq!['-'] + parts.tool_name@);
        assert(own@ =~= full@.skip(backend.len() as int + 1));
        assert(parts.tool_name@ =~= full@.skip(backend.len() as int + 1));
    }
}

/// The URI of a resource that was put together of a backend's name, a dash and the
/// item's own is taken apart into the two again, if it does not start with
/// another backend's name and a dash.
pub proof fn law_joined_resources_are_taken_apart_again<'a>(
    backends: &'a [&'a str],
    at: int,
    own: &str,
    joined: String,
    full: &'a str,
    pair: Option<BackendResourcePair<'a>>,
)
    requires
        0 <= at < backends@.len(),
        call_ensures(qualify_name, (backends@[at], own), joined),
        full@ == joined@,
        call_ensures(split_resource_name, (full, backends), pair),
        forall|j: int, rest: Seq<char>|
            0 <= j < backends@.len() && full@ == #[trigger] (backends@[j]@ + seq!['-'] + rest)
                ==> backends@[j]@ == backends@[at]@,
    ensures
        pair matches Some(parts) && parts.backend_name@ == backends@[at]@ && parts.resource_uri@
            == own@,
{
    law_resources_are_taken_apart(full, backends, pair);
    let backend = backends@[at]@;
    assert(full@ == backends@[at]@ + seq!['-'] + own@);
    if let Some(parts) = pair {
        let i = choose|i: int|
            #![trigger backends@[i]]
            0 <= i < backends@.len() && backends@[i]@ == parts.backend_name@;
        assert(full@ == backends@[i]@ + seq!['-'] + parts.resource_uri@);
        assert(own@ =~= full@.skip(backend.len() as int + 1));
        assert(parts.resource_uri@ =~= full@.skip(backend.len() as int + 1));
    }
}

/// The name of a prompt that was put together of a backend's name, a dash and the
/// item's own is taken apart into the two again, if it does not start with
/// another backend's name and a dash.
pub proof fn law_joined_prompts_are_taken_apart_again<'a>(
    backends: &'a [&'a str],
    at: int,
    own: &str,
    joined: String,
    full: &'a str,
    pair: Option<BackendPromptPair<'a>>,
)
    requires
        0 <= at < backends@.len(),
        call_ensures(qualify_name, (backends@[at], own), joined),
        full@ == joined@,
        call_ensures(split_prompt_name, (full, backends), pair),
        forall|j: int, rest: Seq<char>|
            0 <= j < backends@.len() && full@ == #[trigger] (backends@[j]@ + seq!['-'] + rest)
                ==> backends@[j]@ == backends@[at]@,
    ensures
        pair matches Some(parts) && parts.backend_name@ == backends@[at]@ && parts.prompt_name@
            == own@,
{
    law_prompts_are_taken_apart(full, backends, pair);
    let backend = backends@[at]@;
    assert(full@ == backends@[at]@ + seq!['-'] + own@);
    if let Some(parts) = pair {
        let i = choose|i: int|
            #![trigger backends@[i]]
            0 <= i < backends@.len() && backends@[i]@ == parts.backend_name@;
        assert(full@ == backends@[i]@ + seq!['-'] + parts.prompt_name@);
        assert(own@ =~= full@.skip(backend.len() as int + 1));
        assert(parts.prompt_name@ =~= full@.skip(backend.len() as int + 1));
    }
}

} // verus!
