//! Calls of tools, from the selected connection on: a plugin may look at a
//! call before it goes to the backend, and at what comes back.

use vstd::prelude::*;

use crate::error::ErrorData;
use crate::routing::{relay, ItemRequest, SelectedItem};

verus! {

/// What a plugin makes of a call: of everything in it but the tool's name.
#[derive(Debug, PartialEq)]
pub enum ToolArguments<X> {
    Unchanged,
    Replaced(X),
}

/// What a plugin says before a call: what to call with, and what it wants to be
/// told again after the call, if it wants to see the result.
#[derive(Debug, PartialEq)]
pub struct ToolPreCallResult<X, P> {
    pub arguments: ToolArguments<X>,
    pub state: Option<P>,
}

impl<X, P> ToolPreCallResult<X, P> {
    /// A call that no plugin looks at.
    pub fn unchanged() -> (result: Self)
        ensures
            result.arguments == ToolArguments::<X>::Unchanged,
            result.state is None,
    {
        ToolPreCallResult { arguments: ToolArguments::Unchanged, state: None }
    }
}

impl<X> ToolArguments<X> {
    /// What to call with, given what the client sent.
    pub open spec fn applied_to(self, rest: X) -> X {
        match self {
            ToolArguments::Unchanged => rest,
            ToolArguments::Replaced(replaced) => replaced,
        }
    }

    /// Rewrites a request for the backend: the tool goes by its own name, and
    /// the rest is what the plugin wants.
    pub fn apply_to_request(
        self,
        request: ItemRequest<X>,
        tool_name: String,
    ) -> (routed: ItemRequest<X>)
        ensures
            routed.item == tool_name,
            routed.rest == self.applied_to(request.rest),
    {
        let rest = match self {
            ToolArguments::Unchanged => request.rest,
            ToolArguments::Replaced(replaced) => replaced,
        };
        ItemRequest { item: tool_name, rest }
    }
}

/// A call that is out at the backend.
#[derive(Debug)]
pub struct PendingCall<P> {
    pub tool_name: String,
    /// What the plugin wants to be told again.
    pub state: Option<P>,
}

/// A call that is ready to go to the backend.
#[derive(Debug)]
pub struct PreparedCall<X, S, P> {
    pub service: S,
    pub request: ItemRequest<X>,
    pub pending: PendingCall<P>,
}

/// What comes once the plugin has been asked: the call goes to the backend, or
/// the client is told what the plugin objects to.
#[derive(Debug)]
pub enum PrepareStep<X, S, P> {
    CallBackend(PreparedCall<X, S, P>),
    Done(ErrorData),
}

impl<X, S, P> PrepareStep<X, S, P> {
    /// Whether this is the step for a selected call and what the plugin said of
    /// it; `None` where there is no plugin.
    pub open spec fn prepares(
        self,
        selected: SelectedItem<X, S>,
        before: Option<Result<ToolPreCallResult<X, P>, ErrorData>>,
    ) -> bool {
        match before {
            Some(Err(objection)) => self == PrepareStep::<X, S, P>::Done(objection),
            _ => {
                let (rest, state) = match before {
                    Some(Ok(result)) => (
                        result.arguments.applied_to(selected.request.rest),
                        result.state,
                    ),
                    _ => (selected.request.rest, None),
                };
                &&& self matches PrepareStep::CallBackend(call)
                &&& call.service == selected.service
                &&& call.request.item@ == selected.item_name@
                &&& call.request.rest == rest
                &&& call.pending.tool_name@ == selected.item_name@
                &&& call.pending.state == state
            },
        }
    }
}

impl<X, S> SelectedItem<X, S> {
    /// Prepares the call for the backend, given what the plugin said of it.
    pub fn prepare<P>(
        self,
        before: Option<Result<ToolPreCallResult<X, P>, ErrorData>>,
    ) -> (step: PrepareStep<X, S, P>)
        ensures
            step.prepares(self, before),
    {
        let result: ToolPreCallResult<X, P> = match before {
            Some(Err(objection)) => {
                return PrepareStep::Done(objection);
            },
            Some(Ok(result)) => result,
            None => ToolPreCallResult::unchanged(),
        };
        let pending = PendingCall { tool_name: self.item_name.clone(), state: result.state };
        let request = result.arguments.apply_to_request(self.request, self.item_name);
        PrepareStep::CallBackend(PreparedCall { service: self.service, request, pending })
    }
}

/// A result that the plugin wants to see before the client does.
#[derive(Debug)]
pub struct ReturnedCall<R, P> {
    pub tool_name: String,
    pub response: R,
    pub state: P,
}

/// What comes once the backend has responded: the plugin is asked, and the
/// client told what it says, or the client is answered at once.
#[derive(Debug)]
pub enum AnswerStep<R, P> {
    AfterToolCall(ReturnedCall<R, P>),
    Done(Result<R, ErrorData>),
}

impl<R, P> AnswerStep<R, P> {
    /// Whether this is the step for a pending call and the backend's response.
    pub open spec fn answers<E>(self, pending: PendingCall<P>, response: Result<R, E>) -> bool {
        match (response, pending.state) {
            (Err(_), _) => {
                &&& self matches AnswerStep::Done(Err(error))
                &&& crate::routing::says_no_response(error)
            },
            (Ok(result), Some(state)) => {
                &&& self matches AnswerStep::AfterToolCall(returned)
                &&& returned.tool_name@ == pending.tool_name@
                &&& returned.response == result
                &&& returned.state == state
            },
            (Ok(result), None) => self == AnswerStep::<R, P>::Done(Ok(result)),
        }
    }
}

impl<P> PendingCall<P> {
    /// Takes the backend's response.
    pub fn answered<R, E>(self, response: Result<R, E>) -> (step: AnswerStep<R, P>)
        ensures
            step.answers(self, response),
    {
        match relay(response) {
            Err(error) => AnswerStep::Done(Err(error)),
            Ok(response) => match self.state {
                Some(state) => AnswerStep::AfterToolCall(
                    ReturnedCall { tool_name: self.tool_name, response, state },
                ),
                None => AnswerStep::Done(Ok(response)),
            },
        }
    }
}

/// A call that no plugin looks at goes to the selected connection as the client
/// sent it, but for the tool's name, and what the backend responds is what the
/// client is answered.
pub proof fn law_calls_without_plugin_pass_through<X, S, P, R, E>(
    selected: SelectedItem<X, S>,
    call: PreparedCall<X, S, P>,
    result: R,
    step: AnswerStep<R, P>,
)
    requires
        PrepareStep::CallBackend(call).prepares(selected, None),
        step.answers(call.pending, Ok::<R, E>(result)),
    ensures
        call.service == selected.service,
        call.request.item@ == selected.item_name@,
        call.request.rest == selected.request.rest,
        step == AnswerStep::<R, P>::Done(Ok(result)),
{
}

/// A plugin that looks at a call and keeps no state does not see the result.
/// One that keeps a state sees the backend's result, with that state and the
/// tool's own name, and is not asked where the backend failed.
pub proof fn law_plugin_state_decides_who_sees_the_result<X, S, P, R, E>(
    selected: SelectedItem<X, S>,
    before: ToolPreCallResult<X, P>,
    call: PreparedCall<X, S, P>,
    response: Result<R, E>,
    step: AnswerStep<R, P>,
)
    requires
        PrepareStep::CallBackend(call).prepares(selected, Some(Ok(before))),
        step.answers(call.pending, response),
    ensures
        step is AfterToolCall <==> before.state is Some && response is Ok,
        step matches AnswerStep::AfterToolCall(returned) ==> {
            &&& returned.tool_name@ == selected.item_name@
            &&& Some(returned.state) == before.state
            &&& Ok::<R, E>(returned.response) == response
        },
{
}

} // verus!
