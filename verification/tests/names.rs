use mcp_gateway::names::{
    qualify_name, split_prompt_name, split_resource_name, split_tool_name, BackendPromptPair,
    BackendResourcePair, BackendToolPair,
};

#[test]
fn test_splitting() {
    let tool_name = "counter-one-increment";
    let backend_names = vec!["counter-on", "counter-oneee", "counter-one"];
    let pair = BackendToolPair { backend_name: "counter-one", tool_name: "increment" };
    assert_eq!(Some(pair), split_tool_name(&tool_name, &backend_names));
    let tool_name = "counter-oneincrement";
    assert_eq!(None, split_tool_name(&tool_name, &backend_names));
    let tool_name = "counteroneincrement";
    assert_eq!(None, split_tool_name(&tool_name, &backend_names));
    let tool_name = "counter-one-get-value";
    let pair = BackendToolPair { backend_name: "counter-one", tool_name: "get-value" };
    assert_eq!(Some(pair), split_tool_name(&tool_name, &backend_names));

    let backend_names = vec!["counter_on", "counter_oneee", "counter_one"];
    let tool_name = "counter_one-get-value";
    let pair = BackendToolPair { backend_name: "counter_one", tool_name: "get-value" };
    assert_eq!(Some(pair), split_tool_name(&tool_name, &backend_names));
}

#[test]
fn resource_uris_split() {
    let backend_names = vec!["files", "docs"];
    assert_eq!(
        Some(BackendResourcePair { backend_name: "docs", resource_uri: "file:///a-b.txt" }),
        split_resource_name("docs-file:///a-b.txt", &backend_names)
    );
    assert_eq!(None, split_resource_name("file:///a-b.txt", &backend_names));
}

#[test]
fn prompt_names_split() {
    let backend_names = vec!["writer"];
    assert_eq!(
        Some(BackendPromptPair { backend_name: "writer", prompt_name: "greet" }),
        split_prompt_name("writer-greet", &backend_names)
    );
    assert_eq!(None, split_prompt_name("writer", &backend_names));
}

#[test]
fn first_claiming_backend_wins() {
    assert_eq!(
        Some(BackendToolPair { backend_name: "a", tool_name: "b-c" }),
        split_tool_name("a-b-c", &["a", "a-b"])
    );
    assert_eq!(
        Some(BackendToolPair { backend_name: "a-b", tool_name: "c" }),
        split_tool_name("a-b-c", &["a-b", "a"])
    );
}

#[test]
fn empty_parts_are_names_too() {
    assert_eq!(
        Some(BackendToolPair { backend_name: "a", tool_name: "" }),
        split_tool_name("a-", &["a"])
    );
    assert_eq!(
        Some(BackendToolPair { backend_name: "", tool_name: "x" }),
        split_tool_name("-x", &[""])
    );
    assert_eq!(None, split_tool_name("", &["a"]));
    assert_eq!(None, split_tool_name("a-x", &[]));
}

#[test]
fn names_beyond_ascii_split_at_characters() {
    assert_eq!(
        Some(BackendToolPair { backend_name: "z\u{e4}hler", tool_name: "\u{1f600}" }),
        split_tool_name("z\u{e4}hler-\u{1f600}", &["z\u{e4}hle", "z\u{e4}hler"])
    );
}

#[test]
fn qualifying_is_undone_by_splitting() {
    let full = qualify_name("counter", "get-value");
    assert_eq!("counter-get-value", full);
    let pair = split_tool_name(&full, &["other", "counter"]).unwrap();
    assert_eq!(("counter", "get-value"), (pair.backend_name, pair.tool_name));
    assert_eq!(full, qualify_name(pair.backend_name, pair.tool_name));
}

#[test]
fn backends_after_a_claim_have_no_say() {
    let alone = split_tool_name("a-b-c", &["x", "a"]);
    assert_eq!(alone, split_tool_name("a-b-c", &["x", "a", "a-b"]));
    assert_eq!(Some(BackendToolPair { backend_name: "a", tool_name: "b-c" }), alone);
}

#[test]
fn order_of_backends_does_not_matter_without_clash() {
    assert_eq!(
        split_tool_name("b-t", &["a", "b", "c"]),
        split_tool_name("b-t", &["c", "b", "a", "b"])
    );
}
