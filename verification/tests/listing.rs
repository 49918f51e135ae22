use std::cmp::Ordering;

use mcp_gateway::error::{ErrorData, INVALID_REQUEST};
use mcp_gateway::listing::{
    ask_each, list_prompts, list_resources, list_tools, merge_prompts, merge_resources,
    merge_tools, ListPromptsResult, ListResourcesResult, ListToolsResult, Prompt, Resource, Tool,
};
use mcp_gateway::names::split_tool_name;
use mcp_gateway::order::compare_names;
use mcp_gateway::transport::ServiceHolder;

fn tools(names: &[&str]) -> ListToolsResult<u32> {
    let mut details = 0;
    let mut tools = vec![];
    for name in names {
        details += 1;
        tools.push(Tool { name: name.to_string(), details });
    }
    ListToolsResult { meta: Some("{}".into()), next_cursor: Some("next".into()), tools }
}

fn named(merged: &[Tool<u32>]) -> Vec<(&str, u32)> {
    merged.iter().map(|tool| (tool.name.as_str(), tool.details)).collect()
}

#[test]
fn tools_are_merged_in_order() {
    let merged = merge_tools(vec![
        ("two".into(), tools(&["b", "a"])),
        ("one".into(), tools(&["z"])),
        ("three".into(), tools(&[])),
    ]);
    assert_eq!(vec![("one-z", 1), ("two-a", 2), ("two-b", 1)], named(&merged));
}

#[test]
fn equal_names_keep_their_order() {
    let merged = merge_tools(vec![
        ("a-b".into(), tools(&["c", "a"])),
        ("a".into(), tools(&["x", "b-c"])),
    ]);
    assert_eq!(vec![("a-b-a", 2), ("a-b-c", 1), ("a-b-c", 2), ("a-x", 1)], named(&merged));
}

#[test]
fn resources_are_sorted_by_name_and_renamed_twice() {
    let merged = merge_resources(vec![(
        "files".into(),
        ListResourcesResult {
            meta: None,
            next_cursor: None,
            resources: vec![
                Resource { uri: "file:///1".into(), name: "second".into(), details: 1 },
                Resource { uri: "file:///2".into(), name: "first".into(), details: 2 },
            ],
        },
    )]);
    assert_eq!(
        vec![
            Resource { uri: "files-file:///2".into(), name: "files-first".into(), details: 2 },
            Resource { uri: "files-file:///1".into(), name: "files-second".into(), details: 1 },
        ],
        merged
    );
}

#[test]
fn prompts_are_merged_in_order() {
    let page = |name: &str| ListPromptsResult {
        meta: None,
        next_cursor: None,
        prompts: vec![Prompt { name: name.to_string(), details: () }],
    };
    let merged = merge_prompts(vec![("y".into(), page("p")), ("x".into(), page("q"))]);
    assert_eq!(
        vec![
            Prompt { name: "x-q".into(), details: () },
            Prompt { name: "y-p".into(), details: () },
        ],
        merged
    );
}

#[test]
fn only_answers_are_listed() {
    let answer = list_tools(Ok(vec![
        ("down".into(), None),
        ("b".into(), Some(Ok(tools(&["t"])))),
        ("broken".into(), Some(Err("no such method"))),
        ("a".into(), Some(Ok(tools(&["t"])))),
    ]));
    let listed = answer.unwrap();
    assert_eq!(vec![("a-t", 1), ("b-t", 1)], named(&listed.tools));
    assert_eq!(None, listed.meta);
    assert_eq!(None, listed.next_cursor);
}

#[test]
fn nothing_is_listed_without_backends() {
    let resources = list_resources::<(), ()>(Ok(vec![])).unwrap();
    assert!(resources.resources.is_empty());
    let prompts = list_prompts::<(), ()>(Ok(vec![("a".into(), None)])).unwrap();
    assert!(prompts.prompts.is_empty());
}

#[test]
fn refused_lists_say_why() {
    let refusal = || ErrorData::invalid_request("not yours");
    let expected =
        ErrorData { code: INVALID_REQUEST, message: "not yours".into(), data: None };
    assert_eq!(Err(expected), list_tools::<(), ()>(Err(refusal())));
    assert_eq!(Err(refusal()), list_resources::<(), ()>(Err(refusal())));
    assert_eq!(Err(refusal()), list_prompts::<(), ()>(Err(refusal())));
}

#[test]
fn listed_tools_can_be_found_again() {
    let merged = merge_tools(vec![
        ("clock".into(), tools(&["now", "set-zone"])),
        ("counter".into(), tools(&["get"])),
    ]);
    let backends = ["clock", "counter"];
    let mut found = vec![];
    for tool in &merged {
        let pair = split_tool_name(&tool.name, &backends).unwrap();
        found.push((pair.backend_name, pair.tool_name));
    }
    assert_eq!(vec![("clock", "now"), ("clock", "set-zone"), ("counter", "get")], found);
}

#[test]
fn connected_backends_are_asked() {
    let asked = ask_each(
        vec![
            ServiceHolder::new("a".into(), Some(7)),
            ServiceHolder::new("b".into(), None),
        ],
        &"page two".to_string(),
    );
    assert_eq!(
        vec![("a".to_string(), Some((7, "page two".to_string()))), ("b".to_string(), None)],
        asked
    );
}

#[test]
fn names_are_compared_by_character() {
    assert_eq!(Ordering::Less, compare_names("a", "ab"));
    assert_eq!(Ordering::Less, compare_names("Z", "a"));
    assert_eq!(Ordering::Equal, compare_names("", ""));
    assert_eq!(Ordering::Greater, compare_names("\u{10000}", "\u{ffff}"));
    for (a, b) in [("a-b", "a"), ("\u{e9}", "z"), ("x", "x"), ("", "q")] {
        assert_eq!(a.cmp(b), compare_names(a, b));
    }
}

#[test]
fn order_of_answers_does_not_show() {
    let one = merge_tools(vec![
        ("a".into(), tools(&["x", "y"])),
        ("b".into(), tools(&["x"])),
    ]);
    let other = merge_tools(vec![
        ("b".into(), tools(&["x"])),
        ("a".into(), tools(&["x", "y"])),
    ]);
    assert_eq!(one, other);
    assert_eq!(vec![("a-x", 1), ("a-y", 2), ("b-x", 1)], named(&one));
}
