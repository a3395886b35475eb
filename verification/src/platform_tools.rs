//! The tools that the platform itself offers.
use crate::text::opt_view;
use vstd::prelude::*;

verus! {

pub const PLATFORM_READ_RESOURCE_TOOL_NAME: &'static str = "platform__read_resource";

pub const PLATFORM_LIST_RESOURCES_TOOL_NAME: &'static str = "platform__list_resources";

pub const PLATFORM_SEARCH_AVAILABLE_EXTENSIONS_TOOL_NAME: &'static str = "platform__search_available_extensions";

pub const PLATFORM_MANAGE_EXTENSIONS_TOOL_NAME: &'static str = "platform__manage_extensions";

pub const PLATFORM_MANAGE_SCHEDULE_TOOL_NAME: &'static str = "platform__manage_schedule";

pub const PLATFORM_SEARCH_MESSAGES_TOOL_NAME: &'static str = "platform__search_messages";

pub const PLATFORM_SEARCH_DOCUMENTS_TOOL_NAME: &'static str = "platform__search_documents";

/// What a tool is like, for those who decide on calling it.
#[derive(Debug, Clone, PartialEq, Eq)]
pub struct ToolAnnotations {
    pub title: Option<String>,
    pub read_only_hint: Option<bool>,
    pub destructive_hint: Option<bool>,
    pub idempotent_hint: Option<bool>,
    pub open_world_hint: Option<bool>,
}

/// A tool. The schema of its input is a JSON object, kept as its text.
#[derive(Debug, Clone, PartialEq, Eq)]
pub struct Tool {
    pub name: String,
    pub description: Option<String>,
    pub input_schema: String,
    pub annotations: Option<ToolAnnotations>,
}

/// The tool has the given name, description, schema and title, and the given answers to whether
/// it only reads, destroys, and does no more when called again. It does not reach beyond the
/// platform.
pub open spec fn platform_tool(
    tool: Tool,
    name: Seq<char>,
    description: Seq<char>,
    schema: Seq<char>,
    title: Seq<char>,
    hints: (bool, bool, bool),
) -> bool {
    &&& tool.name@ == name
    &&& opt_view(tool.description) == Some(description)
    &&& tool.input_schema@ == schema
    &&& tool.annotations matches Some(a)
    &&& opt_view(a.title) == Some(title)
    &&& a.read_only_hint == Some(hints.0)
    &&& a.destructive_hint == Some(hints.1)
    &&& a.idempotent_hint == Some(hints.2)
    &&& a.open_world_hint == Some(false)
}

fn new_tool(name: &str, description: &str, schema: &str, title: &str, hints: (bool, bool, bool)) -> (
res: Tool)
    ensures
        platform_tool(res, name@, description@, schema@, title@, hints),
{
    Tool {
        name: name.to_owned(),
        description: Some(description.to_owned()),
        input_schema: schema.to_owned(),
        annotations: Some(
            ToolAnnotations {
                title: Some(title.to_owned()),
                read_only_hint: Some(hints.0),
                destructive_hint: Some(hints.1),
                idempotent_hint: Some(hints.2),
                open_world_hint: Some(false),
            },
        ),
    }
}

pub const READ_RESOURCE_DESCRIPTION: &'static str = "Read a resource from an extension.\n\
\n\
Resources allow extensions to share data that provide context to LLMs, such as\n\
files, database schemas, or application-specific information. This tool searches for the\n\
resource URI in the provided extension, and reads in the resource content. If no extension\n\
is provided, the tool will search all extensions for the resource.\n";

pub const READ_RESOURCE_SCHEMA: &'static str = r#"{"type":"object","required":["uri"],"properties":{"uri":{"type":"string","description":"Resource URI"},"extension_name":{"type":"string","description":"Optional extension name"}}}"#;

/// The tool that reads a resource.
pub fn read_resource_tool() -> (res: Tool)
    ensures
        platform_tool(
            res,
            PLATFORM_READ_RESOURCE_TOOL_NAME@,
            READ_RESOURCE_DESCRIPTION@,
            READ_RESOURCE_SCHEMA@,
            "Read a resource"@,
            (true, false, false),
        ),
{
    new_tool(
        PLATFORM_READ_RESOURCE_TOOL_NAME,
        READ_RESOURCE_DESCRIPTION,
        READ_RESOURCE_SCHEMA,
        "Read a resource",
        (true, false, false),
    )
}

pub const LIST_RESOURCES_DESCRIPTION: &'static str = "List resources from an extension(s).\n\
\n\
Resources allow extensions to share data that provide context to LLMs, such as\n\
files, database schemas, or application-specific information. This tool lists resources\n\
in the provided extension, and returns a list for the user to browse. If no extension\n\
is provided, the tool will search all extensions for the resource.\n";

pub const LIST_RESOURCES_SCHEMA: &'static str = r#"{"type":"object","properties":{"extension_name":{"type":"string","description":"Optional extension name"}}}"#;

/// The tool that lists resources.
pub fn list_resources_tool() -> (res: Tool)
    ensures
        platform_tool(
            res,
            PLATFORM_LIST_RESOURCES_TOOL_NAME@,
            LIST_RESOURCES_DESCRIPTION@,
            LIST_RESOURCES_SCHEMA@,
            "List resources"@,
            (true, false, false),
        ),
{
    new_tool(
        PLATFORM_LIST_RESOURCES_TOOL_NAME,
        LIST_RESOURCES_DESCRIPTION,
        LIST_RESOURCES_SCHEMA,
        "List resources",
        (true, false, false),
    )
}

pub const SEARCH_AVAILABLE_EXTENSIONS_DESCRIPTION: &'static str = "Searches for additional extensions available to help complete tasks.
        Use this tool when you're unable to find a specific feature or functionality you need to complete your task, or when standard approaches aren't working.
        These extensions might provide the exact tools needed to solve your problem.
        If you find a relevant one, consider using your tools to enable it.";

pub const SEARCH_AVAILABLE_EXTENSIONS_SCHEMA: &'static str = r#"{"type":"object","required":[],"properties":{}}"#;

/// The tool that searches for extensions.
pub fn search_available_extensions_tool() -> (res: Tool)
    ensures
        platform_tool(
            res,
            PLATFORM_SEARCH_AVAILABLE_EXTENSIONS_TOOL_NAME@,
            SEARCH_AVAILABLE_EXTENSIONS_DESCRIPTION@,
            SEARCH_AVAILABLE_EXTENSIONS_SCHEMA@,
            "Discover extensions"@,
            (true, false, false),
        ),
{
    new_tool(
        PLATFORM_SEARCH_AVAILABLE_EXTENSIONS_TOOL_NAME,
        SEARCH_AVAILABLE_EXTENSIONS_DESCRIPTION,
        SEARCH_AVAILABLE_EXTENSIONS_SCHEMA,
        "Discover extensions",
        (true, false, false),
    )
}

pub const MANAGE_EXTENSIONS_DESCRIPTION: &'static str = "Tool to manage extensions and tools in goose context.
            Enable or disable extensions to help complete tasks.
            Enable or disable an extension by providing the extension name.
            ";

pub const MANAGE_EXTENSIONS_SCHEMA: &'static str = r#"{"type":"object","required":["action","extension_name"],"properties":{"action":{"type":"string","description":"The action to perform","enum":["enable","disable"]},"extension_name":{"type":"string","description":"The name of the extension to enable"}}}"#;

/// The tool that turns extensions on and off.
pub fn manage_extensions_tool() -> (res: Tool)
    ensures
        platform_tool(
            res,
            PLATFORM_MANAGE_EXTENSIONS_TOOL_NAME@,
            MANAGE_EXTENSIONS_DESCRIPTION@,
            MANAGE_EXTENSIONS_SCHEMA@,
            "Enable or disable an extension"@,
            (false, false, false),
        ),
{
    new_tool(
        PLATFORM_MANAGE_EXTENSIONS_TOOL_NAME,
        MANAGE_EXTENSIONS_DESCRIPTION,
        MANAGE_EXTENSIONS_SCHEMA,
        "Enable or disable an extension",
        (false, false, false),
    )
}

pub const MANAGE_SCHEDULE_DESCRIPTION: &'static str = "Manage scheduled recipe execution for this Goose instance.\n\
\n\
Actions:\n\
- \"list\": List all scheduled jobs\n\
- \"create\": Create a new scheduled job from a recipe file\n\
- \"run_now\": Execute a scheduled job immediately  \n\
- \"pause\": Pause a scheduled job\n\
- \"unpause\": Resume a paused job\n\
- \"delete\": Remove a scheduled job\n\
- \"kill\": Terminate a currently running job\n\
- \"inspect\": Get details about a running job\n\
- \"sessions\": List execution history for a job\n\
- \"session_content\": Get the full content (messages) of a specific session\n";

pub const MANAGE_SCHEDULE_SCHEMA: &'static str = r#"{"type":"object","required":["action"],"properties":{"action":{"type":"string","enum":["list","create","run_now","pause","unpause","delete","kill","inspect","sessions","session_content"]},"job_id":{"type":"string","description":"Job identifier for operations on existing jobs"},"recipe_path":{"type":"string","description":"Path to recipe file for create action"},"cron_expression":{"type":"string","description":"A cron expression for create action. Supports both 5-field (minute hour day month weekday) and 6-field (second minute hour day month weekday) formats. 5-field expressions are automatically converted to 6-field by prepending '0' for seconds."},"execution_mode":{"type":"string","description":"Execution mode for create action: 'foreground' or 'background'","enum":["foreground","background"],"default":"background"},"limit":{"type":"integer","description":"Limit for sessions list","default":50},"session_id":{"type":"string","description":"Session identifier for session_content action"}}}"#;

/// The tool that manages scheduled recipes.
pub fn manage_schedule_tool() -> (res: Tool)
    ensures
        platform_tool(
            res,
            PLATFORM_MANAGE_SCHEDULE_TOOL_NAME@,
            MANAGE_SCHEDULE_DESCRIPTION@,
            MANAGE_SCHEDULE_SCHEMA@,
            "Manage scheduled recipes"@,
            (false, true, false),
        ),
{
    new_tool(
        PLATFORM_MANAGE_SCHEDULE_TOOL_NAME,
        MANAGE_SCHEDULE_DESCRIPTION,
        MANAGE_SCHEDULE_SCHEMA,
        "Manage scheduled recipes",
        (false, true, false),
    )
}

pub const SEARCH_MESSAGES_DESCRIPTION: &'static str = "Search through conversation messages using vector similarity.\n\
\n\
This tool allows you to find messages from past conversations that are semantically\n\
similar to your query. It uses vector embeddings to understand the meaning and context\n\
of messages, not just keyword matching.\n\
\n\
Use this when you need to:\n\
- Find previous discussions about a topic\n\
- Locate relevant context from past conversations\n\
- Discover how similar problems were solved before\n\
- Search for specific information mentioned in conversations\n";

pub const SEARCH_MESSAGES_SCHEMA: &'static str = r#"{"type":"object","required":["query"],"properties":{"query":{"type":"string","description":"The search query - describe what you're looking for in natural language"},"limit":{"type":"integer","description":"Maximum number of similar messages to return (default: 5)","default":5,"minimum":1,"maximum":20},"session_filter":{"type":"string","description":"Optional session ID to limit search to a specific conversation"}}}"#;

/// The tool that searches the messages of past conversations.
pub fn search_messages_tool() -> (res: Tool)
    ensures
        platform_tool(
            res,
            PLATFORM_SEARCH_MESSAGES_TOOL_NAME@,
            SEARCH_MESSAGES_DESCRIPTION@,
            SEARCH_MESSAGES_SCHEMA@,
            "Search conversation messages"@,
            (true, false, true),
        ),
{
    new_tool(
        PLATFORM_SEARCH_MESSAGES_TOOL_NAME,
        SEARCH_MESSAGES_DESCRIPTION,
        SEARCH_MESSAGES_SCHEMA,
        "Search conversation messages",
        (true, false, true),
    )
}

pub const SEARCH_DOCUMENTS_DESCRIPTION: &'static str = "Search through indexed documents using vector similarity.\n\
\n\
This tool allows you to find document content that is semantically similar to your query.\n\
It searches through files that have been indexed into the document vector database,\n\
including code files, documentation, configuration files, and other text-based content.\n\
\n\
Use this when you need to:\n\
- Find relevant code examples or implementations\n\
- Locate documentation about specific topics\n\
- Search for configuration patterns\n\
- Discover similar functionality across files\n\
- Find where specific concepts are discussed\n";

pub const SEARCH_DOCUMENTS_SCHEMA: &'static str = r#"{"type":"object","required":["query"],"properties":{"query":{"type":"string","description":"The search query - describe what you're looking for in natural language"},"limit":{"type":"integer","description":"Maximum number of similar document chunks to return (default: 10)","default":10,"minimum":1,"maximum":50},"content_type_filter":{"type":"string","description":"Optional filter by content type (e.g., 'rust', 'markdown', 'python', 'javascript', 'json', 'yaml')"}}}"#;

/// The tool that searches indexed documents.
pub fn search_documents_tool() -> (res: Tool)
    ensures
        platform_tool(
            res,
            PLATFORM_SEARCH_DOCUMENTS_TOOL_NAME@,
            SEARCH_DOCUMENTS_DESCRIPTION@,
            SEARCH_DOCUMENTS_SCHEMA@,
            "Search indexed documents"@,
            (true, false, true),
        ),
{
    new_tool(
        PLATFORM_SEARCH_DOCUMENTS_TOOL_NAME,
        SEARCH_DOCUMENTS_DESCRIPTION,
        SEARCH_DOCUMENTS_SCHEMA,
        "Search indexed documents",
        (true, false, true),
    )
}

} // verus!
