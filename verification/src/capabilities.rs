//! What the gateway says of itself.

use vstd::prelude::*;

verus! {

/// How prompts are offered.
#[derive(Clone, Copy, Debug, PartialEq, Eq)]
pub struct PromptsCapability {
    pub list_changed: Option<bool>,
}

/// How resources are offered.
#[derive(Clone, Copy, Debug, PartialEq, Eq)]
pub struct ResourcesCapability {
    pub subscribe: Option<bool>,
    pub list_changed: Option<bool>,
}

/// How tools are offered.
#[derive(Clone, Copy, Debug, PartialEq, Eq)]
pub struct ToolsCapability {
    pub list_changed: Option<bool>,
}

/// What a server offers. Of a capability that consists of free settings, the
/// number of settings is kept.
#[derive(Clone, Copy, Debug, PartialEq, Eq)]
pub struct ServerCapabilities {
    pub experimental: Option<usize>,
    pub extensions: Option<usize>,
    pub logging: Option<usize>,
    pub completions: Option<usize>,
    pub prompts: Option<PromptsCapability>,
    pub resources: Option<ResourcesCapability>,
    pub tools: Option<ToolsCapability>,
    /// Whether requests can run as tasks.
    pub tasks: bool,
}

/// Calls `rmcp::model::ServerCapabilities::builder`, enables prompts,
/// resources, tools and logging, and builds. What is believed of it: these four
/// are offered, without any setting, and nothing else is. Free settings are
/// handed on as their number; as there are none, nothing is lost by that.
#[verifier::external_body]
fn enabled_capabilities() -> (offered: ServerCapabilities)
    ensures
        offered == gateway_capabilities(),
{
    let built = rmcp::model::ServerCapabilities::builder()
        .enable_prompts().enable_resources().enable_tools().enable_logging().build();
    ServerCapabilities {
        experimental: built.experimental.map(|settings| settings.len()),
        extensions: built.extensions.map(|settings| settings.len()),
        logging: built.logging.map(|settings| settings.len()),
        completions: built.completions.map(|settings| settings.len()),
        prompts: built.prompts.map(|p| PromptsCapability { list_changed: p.list_changed }),
        resources: built.resources.map(
            |r| ResourcesCapability { subscribe: r.subscribe, list_changed: r.list_changed },
        ),
        tools: built.tools.map(|t| ToolsCapability { list_changed: t.list_changed }),
        tasks: built.tasks.is_some(),
    }
}

/// What the gateway offers: prompts, resources, tools and logging.
pub open spec fn gateway_capabilities() -> ServerCapabilities {
    ServerCapabilities {
        experimental: None,
        extensions: None,
        logging: Some(0),
        completions: None,
        prompts: Some(PromptsCapability { list_changed: None }),
        resources: Some(ResourcesCapability { subscribe: None, list_changed: None }),
        tools: Some(ToolsCapability { list_changed: None }),
        tasks: false,
    }
}

/// What the gateway offers on behalf of its backends; it offers the same
/// whatever they offer themselves.
pub fn merge_capabilities<C>(
    _server_capabilities: Vec<(String, Option<C>)>,
) -> (offered: ServerCapabilities)
    ensures
        offered == gateway_capabilities(),
{
    enabled_capabilities()
}

} // verus!
