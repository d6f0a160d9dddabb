//! The tools of an MCP server as a Chat Completions model is told of them.

use vstd::prelude::*;

use crate::json;
use crate::json::{Json, JsonView};
use crate::text;

verus! {

/// A tool that an MCP server offers.
pub struct McpTool {
    pub name: String,
    pub description: Option<String>,
    pub input_schema: Json,
}

/// The mathematical value of an `McpTool`.
pub struct ToolView {
    pub name: Seq<char>,
    pub description: Option<Seq<char>>,
    pub input_schema: JsonView,
}

impl View for McpTool {
    type V = ToolView;

    open spec fn view(&self) -> ToolView {
        ToolView {
            name: self.name@,
            description: text::opt_string(self.description),
            input_schema: self.input_schema@,
        }
    }
}

/// `{name, parameters}`, with `description` where the tool has one.
pub open spec fn function_view(tool: ToolView) -> JsonView {
    let bare = map!["name"@ => JsonView::Str(tool.name), "parameters"@ => tool.input_schema];
    match tool.description {
        Some(description) => JsonView::Object(
            bare.insert("description"@, JsonView::Str(description)),
        ),
        None => JsonView::Object(bare),
    }
}

/// `{type: "function", function}`.
pub open spec fn tool_entry_view(tool: ToolView) -> JsonView {
    JsonView::Object(
        map!["type"@ => JsonView::Str("function"@), "function"@ => function_view(tool)],
    )
}

/// Views of a list of tools.
pub open spec fn tool_views(tools: Seq<McpTool>) -> Seq<ToolView> {
    tools.map_values(|tool: McpTool| tool@)
}

/// The entries for a list of tools.
pub open spec fn openai_tools_view(tools: Seq<ToolView>) -> Seq<JsonView> {
    tools.map_values(|tool: ToolView| tool_entry_view(tool))
}

/// The entry for one tool.
pub fn tool_entry(tool: &McpTool) -> (entry: Json)
    ensures
        entry@ == tool_entry_view(tool@),
{
    let bare = Json::object().with("name", Json::text(tool.name.as_str())).with(
        "parameters",
        tool.input_schema.copy(),
    );
    let function = match &tool.description {
        Some(description) => bare.with("description", Json::text(description.as_str())),
        None => bare,
    };
    Json::object().with("type", Json::text("function")).with("function", function)
}

/// Converts the tools of an MCP server to Chat Completions tool entries, one
/// for each and in the same order.
pub fn to_openai_tools(tools: &Vec<McpTool>) -> (entries: Vec<Json>)
    ensures
        json::views(entries@) == openai_tools_view(tool_views(tools@)),
{
    let mut entries: Vec<Json> = Vec::new();
    let mut i: usize = 0;
    while i < tools.len()
        invariant
            i <= tools@.len(),
            entries@.len() == i,
            forall|k: int| 0 <= k < i ==> (#[trigger] entries@[k])@ == tool_entry_view(tools@[k]@),
        decreases tools@.len() - i,
    {
        entries.push(tool_entry(&tools[i]));
        i += 1;
    }
    assert(json::views(entries@) =~= openai_tools_view(tool_views(tools@)));
    entries
}

/// The value of a tool has all that the tool has, and a list of tools is read
/// tool by tool.
pub proof fn law_tools_seen(tools: Seq<McpTool>, i: int)
    requires
        0 <= i < tools.len(),
    ensures
        tool_views(tools).len() == tools.len(),
        tool_views(tools)[i].name == tools[i].name@,
        tool_views(tools)[i].description == text::opt_string(tools[i].description),
        tool_views(tools)[i].input_schema == tools[i].input_schema@,
{
}

} // verus!
