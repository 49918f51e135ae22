//! Suggestions for the arguments of prompts and resource templates.

use vstd::prelude::*;

use crate::error::ErrorData;
use crate::order::same_text;

verus! {

/// What an argument belongs to.
#[derive(Debug, PartialEq, Eq)]
pub enum Reference {
    /// A resource template, by its URI.
    Resource(String),
    /// A prompt, by its name.
    Prompt(String),
}

/// A request for suggestions.
#[derive(Debug, PartialEq, Eq)]
pub struct CompleteRequest {
    pub reference: Reference,
    pub argument_name: String,
}

/// Suggestions.
#[derive(Debug, PartialEq, Eq)]
pub struct CompletionInfo {
    pub values: Vec<String>,
    pub total: Option<u32>,
    pub has_more: Option<bool>,
}

/// What is suggested for an argument.
pub open spec fn suggestions(request: CompleteRequest) -> Seq<Seq<char>> {
    match request.reference {
        Reference::Resource(_) => if request.argument_name@ == "id"@ {
            seq!["1"@, "2"@, "3"@]
        } else {
            Seq::empty()
        },
        Reference::Prompt(name) => if request.argument_name@ == "name"@ {
            seq!["Alice"@, "Bob"@, "Charlie"@]
        } else if request.argument_name@ == "style"@ {
            seq!["friendly"@, "formal"@, "casual"@]
        } else {
            seq![name@]
        },
    }
}

/// The greatest number of suggestions in one response.
pub open spec fn max_suggestions() -> nat {
    100
}

/// What is said of too many suggestions.
pub open spec fn too_many(count: nat) -> Seq<char> {
    "Too many completion values: "@ + crate::connect::decimal(count) + " (max: 100)"@
}

/// Calls `rmcp::model::CompletionInfo::new`. What is believed of it: up to 100
/// values are taken as they are, without a total or a hint that there are
/// more, and a longer list is refused with a text that gives its length.
#[verifier::external_body]
fn completion_info(values: Vec<String>) -> (info: Result<CompletionInfo, String>)
    ensures
        match info {
            Ok(taken) => {
                &&& values@.len() <= max_suggestions()
                &&& taken.values@ == values@
                &&& taken.total is None
                &&& taken.has_more is None
            },
            Err(text) => values@.len() > max_suggestions() && text@ == too_many(values@.len()),
        },
{
    rmcp::model::CompletionInfo::new(values).map(
        |info| CompletionInfo { values: info.values, total: info.total, has_more: info.has_more },
    )
}

/// Answers with these suggestions, unless they are too many.
pub fn suggest(values: Vec<String>) -> (answer: Result<CompletionInfo, ErrorData>)
    ensures
        match answer {
            Ok(info) => {
                &&& values@.len() <= max_suggestions()
                &&& info.values@ == values@
                &&& info.total is None
                &&& info.has_more is None
            },
            Err(error) => values@.len() > max_suggestions() && error.says(
                crate::error::INTERNAL_ERROR,
                too_many(values@.len()),
            ),
        },
{
    match completion_info(values) {
        Ok(info) => Ok(info),
        Err(text) => Err(ErrorData::internal_error(text.as_str())),
    }
}

fn three(a: &str, b: &str, c: &str) -> (values: Vec<String>)
    ensures
        crate::routing::string_views(values@) == seq![a@, b@, c@],
{
    let mut values: Vec<String> = Vec::new();
    values.push(a.to_owned());
    values.push(b.to_owned());
    values.push(c.to_owned());
    assert(crate::routing::string_views(values@) =~= seq![a@, b@, c@]);
    values
}

/// Answers a request for suggestions.
pub fn complete(request: &CompleteRequest) -> (answer: Result<CompletionInfo, ErrorData>)
    ensures
        answer matches Ok(info) && {
            &&& crate::routing::string_views(info.values@) == suggestions(*request)
            &&& info.total is None
            &&& info.has_more is None
        },
{
    let values: Vec<String> = match &request.reference {
        Reference::Resource(_) => {
            if same_text(request.argument_name.as_str(), "id") {
                three("1", "2", "3")
            } else {
                Vec::new()
            }
        },
        Reference::Prompt(name) => {
            if same_text(request.argument_name.as_str(), "name") {
                three("Alice", "Bob", "Charlie")
            } else if same_text(request.argument_name.as_str(), "style") {
                three("friendly", "formal", "casual")
            } else {
                vec![name.clone()]
            }
        },
    };
    assert(crate::routing::string_views(values@) =~= suggestions(*request));
    suggest(values)
}

} // verus!
