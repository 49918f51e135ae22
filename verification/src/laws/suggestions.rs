//! What is suggested for arguments.

use vstd::prelude::*;

use crate::completion::{complete, suggest, CompleteRequest, CompletionInfo, Reference};
use crate::error::ErrorData;

verus! {

/// Suggestions are handed on as they are, up to a hundred of them; more are
/// refused with their number.
pub proof fn law_suggestions_are_handed_on(
    values: Vec<String>,
    answer: Result<CompletionInfo, ErrorData>,
)
    requires
        call_ensures(suggest, (values,), answer),
    ensures
        values@.len() <= 100 ==> {
            &&& answer matches Ok(info)
            &&& info.values@ == values@
            &&& info.total is None
            &&& info.has_more is None
        },
        values@.len() > 100 ==> {
            &&& answer matches Err(error)
            &&& error.code == -32603
            &&& error.data is None
            &&& exists|digits: Seq<char>|
                crate::laws::texts::writes(digits, values@.len() as int) && error.message@
                    == "Too many completion values: "@ + digits + " (max: 100)"@
        },
{
    let digits = crate::connect::decimal(values@.len());
    crate::laws::texts::lemma_decimal_writes(values@.len());
}

/// Every request for suggestions is answered: for the identifier of a resource
/// with three numbers, for other arguments of a resource with nothing; for the
/// name and the style in a prompt with three of each, and for any other
/// argument of a prompt with the name of that very prompt.
pub proof fn law_arguments_get_their_suggestions(
    request: CompleteRequest,
    answer: Result<CompletionInfo, ErrorData>,
)
    requires
        call_ensures(complete, (&request,), answer),
    ensures
        answer matches Ok(info) && {
            let argument = request.argument_name@;
            let values = info.values@;
            &&& info.total is None
            &&& info.has_more is None
            &&& match request.reference {
                Reference::Resource(_) => {
                    &&& argument == "id"@ ==> values.len() == 3 && values[0]@ == "1"@
                        && values[1]@ == "2"@ && values[2]@ == "3"@
                    &&& argument != "id"@ ==> values.len() == 0
                },
                Reference::Prompt(prompt) => {
                    &&& argument == "name"@ ==> values.len() == 3 && values[0]@ == "Alice"@
                        && values[1]@ == "Bob"@ && values[2]@ == "Charlie"@
                    &&& argument == "style"@ ==> values.len() == 3 && values[0]@ == "friendly"@
                        && values[1]@ == "formal"@ && values[2]@ == "casual"@
                    &&& argument != "name"@ && argument != "style"@ ==> values.len() == 1
                        && values[0]@ == prompt@
                },
            }
        },
{
    reveal_strlit("name");
    reveal_strlit("style");
    assert("name"@.len() != "style"@.len());
    let values = answer->Ok_0.values@;
    let texts = crate::routing::string_views(values);
    assert(texts.len() == values.len());
    assert forall|i: int| 0 <= i < values.len() implies #[trigger] values[i]@ == texts[i] by {}
}

} // verus!
