//! Calls of tools, and the plugin that may look at them.

use vstd::prelude::*;

use crate::call::{
    AnswerStep, PendingCall, PrepareStep, ToolArguments, ToolPreCallResult,
};
use crate::error::ErrorData;
use crate::routing::{ItemRequest, SelectedItem};

verus! {

/// A call that no plugin looks at keeps what it is called with, and no state.
pub proof fn law_unseen_calls_are_unchanged<X, P>(result: ToolPreCallResult<X, P>)
    requires
        call_ensures(ToolPreCallResult::<X, P>::unchanged, (), result),
    ensures
        result.arguments is Unchanged,
        result.state is None,
{
}

/// A rewritten request has the tool's own name, and what the plugin put in its
/// place or else what the client sent.
pub proof fn law_requests_are_rewritten<X>(
    arguments: ToolArguments<X>,
    request: ItemRequest<X>,
    tool_name: String,
    routed: ItemRequest<X>,
)
    requires
        call_ensures(
            ToolArguments::<X>::apply_to_request,
            (arguments, request, tool_name),
            routed,
        ),
    ensures
        routed.item@ == tool_name@,
        match arguments {
            ToolArguments::Unchanged => routed.rest == request.rest,
            ToolArguments::Replaced(replaced) => routed.rest == replaced,
        },
{
}

/// A call goes to the selected connection, under the tool's own name, unless
/// the plugin objects; the client is then told the objection as it is. What it
/// is called with is what the client sent, unless the plugin replaced it. What
/// the plugin wants to be told again is kept with the call.
pub proof fn law_calls_go_out_as_the_plugin_says<X, S, P>(
    selected: SelectedItem<X, S>,
    before: Option<Result<ToolPreCallResult<X, P>, ErrorData>>,
    step: PrepareStep<X, S, P>,
)
    requires
        call_ensures(SelectedItem::<X, S>::prepare::<P>, (selected, before), step),
    ensures
        match step {
            PrepareStep::Done(error) => before == Some(
                Err::<ToolPreCallResult<X, P>, ErrorData>(error),
            ),
            PrepareStep::CallBackend(call) => {
                &&& call.service == selected.service
                &&& call.request.item@ == selected.item_name@
                &&& call.pending.tool_name@ == selected.item_name@
                &&& match before {
                    None => call.request.rest == selected.request.rest && call.pending.state
                        is None,
                    Some(Ok(said)) => {
                        &&& call.pending.state == said.state
                        &&& match said.arguments {
                            ToolArguments::Unchanged => call.request.rest == selected.request.rest,
                            ToolArguments::Replaced(replaced) => call.request.rest == replaced,
                        }
                    },
                    Some(Err(_)) => false,
                }
            },
        },
{
}

/// A failed call is reported as no response. A result goes to the plugin, with
/// the tool's own name and the state that it left, if it left one; otherwise it
/// is what the client is answered.
pub proof fn law_results_are_seen_by_the_plugin_that_waits<R, P, E>(
    pending: PendingCall<P>,
    response: Result<R, E>,
    step: AnswerStep<R, P>,
)
    requires
        call_ensures(PendingCall::<P>::answered::<R, E>, (pending, response), step),
    ensures
        match step {
            AnswerStep::AfterToolCall(returned) => {
                &&& response == Ok::<R, E>(returned.response)
                &&& pending.state == Some(returned.state)
                &&& returned.tool_name@ == pending.tool_name@
            },
            AnswerStep::Done(Ok(result)) => response == Ok::<R, E>(result) && pending.state is None,
            AnswerStep::Done(Err(error)) => {
                &&& response is Err
                &&& error.code == -32603
                &&& error.message@ == "Routing problem... got no responses from backends"@
                &&& error.data is None
            },
        },
{
}

} // verus!
