//! What holds of the platform's own tools and of what the server says of itself.
use crate::health::{features, status, FeaturesResponse, StatusResponse};
use crate::platform_tools::{
    list_resources_tool, manage_extensions_tool, manage_schedule_tool, read_resource_tool,
    search_available_extensions_tool, search_documents_tool, search_messages_tool, Tool,
};
use vstd::prelude::*;

verus! {

/// The tool has the name and the title, a description and annotations. It says whether it only
/// reads, whether it destroys and whether calling it again does no more, and that it does not
/// reach beyond the platform.
pub open spec fn is_described(
    tool: Tool,
    name: Seq<char>,
    title: Seq<char>,
    reads: bool,
    destroys: bool,
    again: bool,
) -> bool {
    &&& tool.name@ == name
    &&& tool.description is Some
    &&& tool.annotations matches Some(a)
    &&& a.title matches Some(t) && t@ == title
    &&& a.read_only_hint == Some(reads)
    &&& a.destructive_hint == Some(destroys)
    &&& a.idempotent_hint == Some(again)
    &&& a.open_world_hint == Some(false)
}

/// The platform's tools: what each is called, and what it may do.
pub proof fn lemma_platform_tools(
    read: Tool,
    list: Tool,
    find: Tool,
    extensions: Tool,
    schedule: Tool,
    messages: Tool,
    documents: Tool,
)
    requires
        call_ensures(read_resource_tool, (), read),
        call_ensures(list_resources_tool, (), list),
        call_ensures(search_available_extensions_tool, (), find),
        call_ensures(manage_extensions_tool, (), extensions),
        call_ensures(manage_schedule_tool, (), schedule),
        call_ensures(search_messages_tool, (), messages),
        call_ensures(search_documents_tool, (), documents),
    ensures
        is_described(read, "platform__read_resource"@, "Read a resource"@, true, false, false),
        is_described(list, "platform__list_resources"@, "List resources"@, true, false, false),
        is_described(
            find,
            "platform__search_available_extensions"@,
            "Discover extensions"@,
            true,
            false,
            false,
        ),
        is_described(
            extensions,
            "platform__manage_extensions"@,
            "Enable or disable an extension"@,
            false,
            false,
            false,
        ),
        is_described(
            schedule,
            "platform__manage_schedule"@,
            "Manage scheduled recipes"@,
            false,
            true,
            false,
        ),
        is_described(
            messages,
            "platform__search_messages"@,
            "Search conversation messages"@,
            true,
            false,
            true,
        ),
        is_described(
            documents,
            "platform__search_documents"@,
            "Search indexed documents"@,
            true,
            false,
            true,
        ),
{
}

/// The server answers that it runs, and whether it has the vector store.
pub proof fn lemma_server_answers(sqlite: bool, running: StatusResponse, has: FeaturesResponse)
    requires
        call_ensures(status, (), running),
        call_ensures(features, (sqlite,), has),
    ensures
        running.status@ == "ok"@,
        has.features@.len() == 1,
        has.features@[0].0@ == "vectordb-sqlite"@,
        has.features@[0].1 <==> sqlite,
{
}

} // verus!
