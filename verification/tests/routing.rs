use mcp_gateway::call::{
    AnswerStep, PendingCall, PrepareStep, ToolArguments, ToolPreCallResult,
};
use mcp_gateway::error::{ErrorData, INTERNAL_ERROR, INVALID_REQUEST};
use mcp_gateway::listing::{merge_tools, ListToolsResult, Tool};
use mcp_gateway::routing::{
    call_tool, get_prompt, read_resource, relay, ItemRequest, RouteStep, RoutedItem, SelectStep,
    SelectedItem,
};
use mcp_gateway::transport::ServiceHolder;

fn request(item: &str) -> ItemRequest<&'static str> {
    ItemRequest { item: item.into(), rest: "rest" }
}

fn backends() -> Result<Vec<String>, ErrorData> {
    Ok(vec!["clock".into(), "counter".into()])
}

fn routed<X>(step: RouteStep<X>) -> RoutedItem<X> {
    match step {
        RouteStep::BorrowTransports(routed) => routed,
        RouteStep::Done(error) => panic!("not routed: {}", error.message),
    }
}

fn holder(name: &str, service: Option<u8>) -> ServiceHolder<u8> {
    ServiceHolder::new(name.into(), service)
}

fn error(code: i32, message: &str) -> ErrorData {
    ErrorData { code, message: message.into(), data: None }
}

fn refused<X>(step: RouteStep<X>) -> ErrorData {
    match step {
        RouteStep::Done(error) => error,
        RouteStep::BorrowTransports(_) => panic!("routed"),
    }
}

#[test]
fn unknown_items_are_refused() {
    assert_eq!(
        error(INTERNAL_ERROR, "Routing problem... wrong tool name"),
        refused(call_tool(request("clocknow"), backends()))
    );
    assert_eq!(
        error(INTERNAL_ERROR, "Routing problem... wrong resource name"),
        refused(read_resource(request("file:///x"), backends()))
    );
    assert_eq!(
        error(INTERNAL_ERROR, "Routing problem... wrong prompt name"),
        refused(get_prompt(request(""), backends()))
    );
}

#[test]
fn refusals_of_the_validation_are_passed_on() {
    let refusal = || ErrorData {
        code: -32001,
        message: "who are you".into(),
        data: Some("{\"a\":1}".into()),
    };
    assert_eq!(refusal(), refused(call_tool(request("clock-now"), Err(refusal()))));
    assert_eq!(refusal(), refused(read_resource(request("clock-now"), Err(refusal()))));
    assert_eq!(refusal(), refused(get_prompt(request("clock-now"), Err(refusal()))));
}

#[test]
fn items_go_to_their_backend_under_their_own_name() {
    let step = routed(read_resource(request("counter-file:///a-b"), backends()));
    assert_eq!("counter", step.backend_name);
    assert_eq!("file:///a-b", step.item_name);
    match step.select(vec![holder("clock", Some(1)), holder("counter", Some(2))]) {
        SelectStep::Forward(selected) => {
            assert_eq!("counter-file:///a-b", selected.request.item);
            let (service, sent) = selected.into_request();
            assert_eq!(2, service);
            assert_eq!(ItemRequest { item: "file:///a-b".into(), rest: "rest" }, sent);
        },
        _ => panic!("not forwarded"),
    }
}

#[test]
fn missing_connections_are_no_response() {
    let no_response = error(INTERNAL_ERROR, "Routing problem... got no responses from backends");
    for holders in [
        vec![],
        vec![holder("clock", Some(1))],
        vec![holder("clock", Some(1)), holder("counter", None)],
    ] {
        match routed(get_prompt(request("counter-p"), backends())).select(holders) {
            SelectStep::Done(error) => assert_eq!(no_response, error),
            _ => panic!("not refused"),
        }
    }
}

#[test]
fn several_connections_for_a_backend_end_the_session() {
    let twice = || {
        vec![holder("counter", None), holder("clock", Some(1)), holder("counter", Some(2))]
    };
    match routed(call_tool(request("counter-x"), backends())).select(twice()) {
        SelectStep::CleanUp(refusal) => {
            assert_eq!("call_tool: invalid session.. duplicate tools detected", refusal.reason);
            assert_eq!(
                error(INVALID_REQUEST, "Routing problem... multiple matching tools"),
                refusal.error
            );
        },
        _ => panic!("not refused"),
    }
    match routed(read_resource(request("counter-x"), backends())).select(twice()) {
        SelectStep::CleanUp(refusal) => {
            assert_eq!(
                "read_resource: invalid session.. duplicate resources detected",
                refusal.reason
            );
            assert_eq!(
                error(INVALID_REQUEST, "Routing problem... multiple matching resources"),
                refusal.error
            );
        },
        _ => panic!("not refused"),
    }
    match routed(get_prompt(request("counter-x"), backends())).select(twice()) {
        SelectStep::CleanUp(refusal) => {
            assert_eq!("get_prompt: invalid session.. duplicate prompts detected", refusal.reason);
            assert_eq!(
                error(INVALID_REQUEST, "Routing problem... multiple matching prompts"),
                refusal.error
            );
        },
        _ => panic!("not refused"),
    }
}

#[test]
fn responses_are_relayed() {
    assert_eq!(Ok(5), relay::<_, ()>(Ok(5)));
    assert_eq!(
        Err(error(INTERNAL_ERROR, "Routing problem... got no responses from backends")),
        relay::<u8, _>(Err("closed"))
    );
}

fn selected() -> SelectedItem<Option<u32>, u8> {
    SelectedItem {
        service: 3,
        request: ItemRequest { item: "clock-set".into(), rest: Some(12) },
        backend_name: "clock".into(),
        item_name: "set".into(),
    }
}

fn sent(rest: Option<u32>) -> ItemRequest<Option<u32>> {
    ItemRequest { item: "set".into(), rest }
}

#[test]
fn calls_without_plugin_pass_through() {
    match selected().prepare::<()>(None) {
        PrepareStep::CallBackend(call) => {
            assert_eq!(3, call.service);
            assert_eq!(sent(Some(12)), call.request);
            match call.pending.answered::<_, ()>(Ok("done")) {
                AnswerStep::Done(answer) => assert_eq!(Ok("done"), answer),
                AnswerStep::AfterToolCall(_) => panic!("nobody to ask"),
            }
        },
        PrepareStep::Done(_) => panic!("nobody objected"),
    }
}

#[test]
fn plugins_can_change_arguments_and_see_the_result() {
    let said = ToolPreCallResult { arguments: ToolArguments::Replaced(Some(13)), state: Some("s") };
    match selected().prepare(Some(Ok(said))) {
        PrepareStep::CallBackend(call) => {
            assert_eq!(sent(Some(13)), call.request);
            match call.pending.answered::<_, ()>(Ok("done")) {
                AnswerStep::AfterToolCall(returned) => {
                    assert_eq!("set", returned.tool_name);
                    assert_eq!("done", returned.response);
                    assert_eq!("s", returned.state);
                },
                AnswerStep::Done(_) => panic!("the plugin was not asked"),
            }
        },
        PrepareStep::Done(_) => panic!("nobody objected"),
    }
}

#[test]
fn plugins_can_leave_or_drop_arguments() {
    let unchanged: ToolPreCallResult<Option<u32>, ()> = ToolPreCallResult::unchanged();
    assert_eq!(ToolPreCallResult { arguments: ToolArguments::Unchanged, state: None }, unchanged);
    match selected().prepare(Some(Ok(unchanged))) {
        PrepareStep::CallBackend(call) => assert_eq!(sent(Some(12)), call.request),
        PrepareStep::Done(_) => panic!("nobody objected"),
    }
    let dropped = ToolPreCallResult { arguments: ToolArguments::Replaced(None), state: None::<()> };
    match selected().prepare(Some(Ok(dropped))) {
        PrepareStep::CallBackend(call) => assert_eq!(sent(None), call.request),
        PrepareStep::Done(_) => panic!("nobody objected"),
    }
}

#[test]
fn objections_of_plugins_are_passed_on() {
    match selected().prepare::<()>(Some(Err(error(-7, "no")))) {
        PrepareStep::Done(objection) => assert_eq!(error(-7, "no"), objection),
        PrepareStep::CallBackend(_) => panic!("called all the same"),
    }
}

#[test]
fn failed_calls_are_no_response_even_with_a_plugin() {
    for state in [None, Some("s")] {
        let pending = PendingCall { tool_name: "set".into(), state };
        match pending.answered::<u8, _>(Err("closed")) {
            AnswerStep::Done(answer) => assert_eq!(
                Err(error(INTERNAL_ERROR, "Routing problem... got no responses from backends")),
                answer
            ),
            AnswerStep::AfterToolCall(_) => panic!("no result to show"),
        }
    }
}

#[test]
fn listed_tools_can_be_called() {
    let page = |names: &[&str]| ListToolsResult {
        meta: None,
        next_cursor: None,
        tools: names.iter().map(|name| Tool { name: name.to_string(), details: () }).collect(),
    };
    let merged = merge_tools(vec![
        ("counter".into(), page(&["get"])),
        ("clock".into(), page(&["set-zone", "now"])),
    ]);
    let mut reached = vec![];
    for tool in &merged {
        let holders = vec![holder("clock", Some(1)), holder("counter", Some(2))];
        match routed(call_tool(request(&tool.name), backends())).select(holders) {
            SelectStep::Forward(selected) => reached.push((selected.service, selected.item_name)),
            _ => panic!("not forwarded"),
        }
    }
    let expected: Vec<(u8, String)> =
        vec![(1, "now".into()), (1, "set-zone".into()), (2, "get".into())];
    assert_eq!(expected, reached);
}
