//! Selecting tools by asking a model: the texts of all tools by extension, what the model is
//! asked, and what its answer comes to.
use crate::metadata::{distinct_keys, lists};
use crate::router_tool_selector::{
    description_of, internal, internal_error, missing_query, missing_query_error, newest_first,
    after_call, read_text_param, schema_of, text_param, tool_description, tool_schema, tool_text,
    tool_to_text, ErrorData, RecentToolCalls, SelectableTool,
};
use crate::text::{
    contains, contains_text, join, join_of, lemma_contains_within, matches_at, opt_view,
    same_text, split, split_of, starts_with, trim, trim_of, views,
};
use crate::text_laws::{ends_first, lemma_split_first};
use dashmap::DashMap;
use vstd::prelude::*;

verus! {

/// A concurrent map.
#[verifier::external_type_specification]
#[verifier::external_body]
#[verifier::reject_recursive_types(K)]
#[verifier::reject_recursive_types(V)]
#[verifier::reject_recursive_types(S)]
pub struct ExDashMap<K, V, S>(dashmap::DashMap<K, V, S>);

/// What a concurrent map holds.
pub uninterp spec fn map_contents(map: dashmap::DashMap<String, String>) -> Map<Seq<char>, Seq<char>>;

/// `dashmap::DashMap::new`: an empty map.
#[verifier::external_body]
fn new_map() -> (res: DashMap<String, String>)
    ensures
        (map_contents(res) == Map::<Seq<char>, Seq<char>>::empty()),
{
    DashMap::new()
}

/// `dashmap::DashMap::get`: the value under a key.
#[verifier::external_body]
fn map_get(map: &DashMap<String, String>, key: &str) -> (res: Option<String>)
    ensures
        match res {
            Some(value) => map_contents(*map).dom().contains(key@) && value@ == map_contents(
                *map,
            )[key@],
            None => !map_contents(*map).dom().contains(key@),
        },
{
    map.get(key).map(|entry| entry.value().clone())
}

/// `dashmap::DashMap::insert`: gives a key a value.
#[verifier::external_body]
fn map_insert(map: &mut DashMap<String, String>, key: String, value: String)
    ensures
        map_contents(*final(map)) == map_contents(*old(map)).insert(key@, value@),
{
    map.insert(key, value);
}

/// `dashmap::DashMap::remove`: takes a key out.
#[verifier::external_body]
fn map_remove(map: &mut DashMap<String, String>, key: &str)
    ensures
        map_contents(*final(map)) == map_contents(*old(map)).remove(key@),
{
    map.remove(key);
}

/// `dashmap::DashMap::iter`: every entry once, in an order that is not fixed.
#[verifier::external_body]
fn map_entries(map: &DashMap<String, String>) -> (res: Vec<(String, String)>)
    ensures
        lists(res@, map_contents(*map)),
        distinct_keys(res@),
{
    map.iter().map(|entry| (entry.key().clone(), entry.value().clone())).collect()
}

// ---------------------------------------------------------------------------------------------
// Indexing
// ---------------------------------------------------------------------------------------------
/// The text of a tool.
pub open spec fn text_of_tool(tool: SelectableTool) -> Seq<char> {
    tool_text(tool.name@, description_of(tool), schema_of(tool))
}

/// The text of an extension's tools with one more tool: unless its name is there already, its
/// text is put behind the others, with an empty line between.
pub open spec fn with_tool(existing: Option<Seq<char>>, name: Seq<char>, text: Seq<char>) -> Seq<
    char,
> {
    match existing {
        None => text,
        Some(tools) => if contains_text(tools, "Tool: "@ + name) {
            tools
        } else if tools.len() == 0 {
            text
        } else {
            tools + "\n\n"@ + text
        },
    }
}

/// The value under a key.
pub open spec fn value_at(map: Map<Seq<char>, Seq<char>>, key: Seq<char>) -> Option<Seq<char>> {
    if map.dom().contains(key) {
        Some(map[key])
    } else {
        None
    }
}

/// The texts by extension after tools of an extension have been indexed, one after the other.
pub open spec fn with_tools(
    texts: Map<Seq<char>, Seq<char>>,
    tools: Seq<SelectableTool>,
    extension_name: Seq<char>,
) -> Map<Seq<char>, Seq<char>>
    decreases tools.len(),
{
    if tools.len() == 0 {
        texts
    } else {
        let before = with_tools(texts, tools.drop_last(), extension_name);
        before.insert(
            extension_name,
            with_tool(
                value_at(before, extension_name),
                tools.last().name@,
                text_of_tool(tools.last()),
            ),
        )
    }
}

/// The text of an extension's tools with one more tool.
pub fn add_tool_text(existing: Option<String>, name: &str, text: String) -> (res: String)
    ensures
        res@ == with_tool(opt_view(existing), name@, text@),
{
    match existing {
        None => text,
        Some(tools) => {
            let mark = "Tool: ".to_owned().concat(name);
            let empty = same_text(tools.as_str(), "");
            proof {
                reveal_strlit("");
                assert(empty == (tools@.len() == 0)) by {
                    if tools@.len() == 0 {
                        assert(tools@ =~= ""@);
                    }
                }
            }
            if contains(tools.as_str(), mark.as_str()) {
                tools
            } else if empty {
                text
            } else {
                tools.concat("\n\n").concat(text.as_str())
            }
        },
    }
}

proof fn lemma_contains_start(a: Seq<char>, b: Seq<char>)
    ensures
        contains_text(a + b, a),
{
    assert((a + b).subrange(0, a.len() as int) =~= a);
    assert(matches_at(a + b, a, 0));
}

/// An extension's text names the tool that was put into it.
pub proof fn lemma_with_tool_names(
    existing: Option<Seq<char>>,
    name: Seq<char>,
    description: Seq<char>,
    schema: Seq<char>,
)
    ensures
        contains_text(
            with_tool(existing, name, tool_text(name, description, schema)),
            "Tool: "@ + name,
        ),
{
    let mark = "Tool: "@ + name;
    let text = tool_text(name, description, schema);
    let rest = "\nDescription: "@ + description + "\nSchema: "@ + schema;
    assert(text =~= mark + rest);
    lemma_contains_start(mark, rest);
    match existing {
        None => {},
        Some(tools) => {
            if !contains_text(tools, mark) && tools.len() > 0 {
                lemma_contains_within(tools + "\n\n"@, text, Seq::empty(), mark);
                assert(tools + "\n\n"@ + text + Seq::empty() =~= tools + "\n\n"@ + text);
            }
        },
    }
}

/// What an extension's text holds is still there when a tool is put into it.
pub proof fn lemma_with_tool_keeps(
    tools: Seq<char>,
    name: Seq<char>,
    text: Seq<char>,
    part: Seq<char>,
)
    requires
        contains_text(tools, part),
        part.len() > 0,
    ensures
        contains_text(with_tool(Some(tools), name, text), part),
{
    if tools.len() == 0 {
        let i = choose|i: int| matches_at(tools, part, i);
        assert(false);
    } else if !contains_text(tools, "Tool: "@ + name) {
        lemma_contains_within(Seq::empty(), tools, "\n\n"@ + text, part);
        assert(Seq::<char>::empty() + tools + ("\n\n"@ + text) =~= tools + "\n\n"@ + text);
    }
}

/// After tools have been indexed, the text of their extension names every one of them.
pub proof fn lemma_indexed_are_named(
    texts: Map<Seq<char>, Seq<char>>,
    tools: Seq<SelectableTool>,
    extension_name: Seq<char>,
    i: int,
)
    requires
        0 <= i < tools.len(),
    ensures
        with_tools(texts, tools, extension_name).dom().contains(extension_name),
        contains_text(
            with_tools(texts, tools, extension_name)[extension_name],
            "Tool: "@ + tools[i].name@,
        ),
    decreases tools.len(),
{
    let before = with_tools(texts, tools.drop_last(), extension_name);
    let last = tools.last();
    if i == tools.len() - 1 {
        lemma_with_tool_names(
            value_at(before, extension_name),
            last.name@,
            description_of(last),
            schema_of(last),
        );
    } else {
        lemma_indexed_are_named(texts, tools.drop_last(), extension_name, i);
        reveal_strlit("Tool: ");
        lemma_with_tool_keeps(
            before[extension_name],
            last.name@,
            text_of_tool(last),
            "Tool: "@ + tools[i].name@,
        );
    }
}

/// Indexing does not touch other extensions.
pub proof fn lemma_other_extensions(
    texts: Map<Seq<char>, Seq<char>>,
    tools: Seq<SelectableTool>,
    extension_name: Seq<char>,
    other: Seq<char>,
)
    requires
        other != extension_name,
    ensures
        value_at(with_tools(texts, tools, extension_name), other) == value_at(texts, other),
    decreases tools.len(),
{
    if tools.len() > 0 {
        lemma_other_extensions(texts, tools.drop_last(), extension_name, other);
    }
}

/// Tools that are all named already change nothing: indexing the same tools again does nothing.
pub proof fn lemma_indexing_again(
    texts: Map<Seq<char>, Seq<char>>,
    tools: Seq<SelectableTool>,
    extension_name: Seq<char>,
)
    ensures
        with_tools(with_tools(texts, tools, extension_name), tools, extension_name) == with_tools(
            texts,
            tools,
            extension_name,
        ),
{
    let done = with_tools(texts, tools, extension_name);
    assert forall|i: int| 0 <= i < tools.len() implies done.dom().contains(extension_name)
        && contains_text(done[extension_name], "Tool: "@ + (#[trigger] tools[i]).name@) by {
        lemma_indexed_are_named(texts, tools, extension_name, i);
    }
    lemma_known_change_nothing(done, tools, extension_name);
}

proof fn lemma_known_change_nothing(
    texts: Map<Seq<char>, Seq<char>>,
    tools: Seq<SelectableTool>,
    extension_name: Seq<char>,
)
    requires
        forall|i: int|
            0 <= i < tools.len() ==> texts.dom().contains(extension_name) && contains_text(
                texts[extension_name],
                "Tool: "@ + (#[trigger] tools[i]).name@,
            ),
    ensures
        with_tools(texts, tools, extension_name) == texts,
    decreases tools.len(),
{
    if tools.len() > 0 {
        let rest = tools.drop_last();
        assert forall|i: int| 0 <= i < rest.len() implies texts.dom().contains(extension_name)
            && contains_text(texts[extension_name], "Tool: "@ + (#[trigger] rest[i]).name@) by {
            assert(rest[i] == tools[i]);
        }
        lemma_known_change_nothing(texts, rest, extension_name);
        assert(contains_text(texts[extension_name], "Tool: "@ + tools[tools.len() - 1].name@));
        assert(with_tools(texts, tools, extension_name) =~= texts);
    }
}

// ---------------------------------------------------------------------------------------------
// Selecting
// ---------------------------------------------------------------------------------------------
/// What the model is asked with: the texts of the tools, and the query.
#[derive(Debug, Clone)]
pub struct ToolSelectorContext {
    pub tools: String,
    pub query: String,
}

/// The values of the entries.
pub open spec fn values_of(entries: Seq<(String, String)>) -> Seq<Seq<char>> {
    Seq::new(entries.len(), |i: int| entries[i].1@)
}

/// All tools as one text, each extension on lines of its own; none where there are no
/// extensions.
pub open spec fn all_tools(entries: Seq<(String, String)>) -> Option<Seq<char>> {
    if entries.len() == 0 {
        None
    } else {
        Some(join_of(values_of(entries), "\n"@))
    }
}

/// All tools as one text.
pub fn join_tools(entries: &Vec<(String, String)>) -> (res: Option<String>)
    ensures
        opt_view(res) == all_tools(entries@),
{
    if entries.len() == 0 {
        return None;
    }
    let mut values: Vec<String> = Vec::new();
    let mut i: usize = 0;
    while i < entries.len()
        invariant
            i <= entries@.len(),
            views(values@) =~= values_of(entries@).take(i as int),
        decreases entries@.len() - i,
    {
        let ghost before = views(values@);
        values.push(entries[i].1.clone());
        assert(views(values@) =~= before.push(entries@[i as int].1@));
        i += 1;
    }
    assert(values_of(entries@).take(entries@.len() as int) =~= values_of(entries@));
    Some(join(&values, "\n"))
}

/// The pieces that are tools, trimmed.
pub open spec fn tools_among(pieces: Seq<Seq<char>>) -> Seq<Seq<char>>
    decreases pieces.len(),
{
    if pieces.len() == 0 {
        Seq::empty()
    } else {
        let before = tools_among(pieces.drop_last());
        if "Tool:"@.is_prefix_of(trim_of(pieces.last())) {
            before.push(trim_of(pieces.last()))
        } else {
            before
        }
    }
}

/// The tools in an answer: the paragraphs that begin with `Tool:`, trimmed.
pub fn tool_entries(text: &str) -> (res: Vec<String>)
    ensures
        views(res@) == tools_among(split_of(text@, "\n\n"@)),
{
    proof {
        reveal_strlit("\n\n");
    }
    let pieces = split(text, "\n\n");
    let ghost all = views(pieces@);
    let mut out: Vec<String> = Vec::new();
    let mut i: usize = 0;
    assert(all.take(0) =~= Seq::empty());
    assert(views(out@) =~= Seq::empty());
    while i < pieces.len()
        invariant
            i <= pieces@.len(),
            all == views(pieces@),
            views(out@) == tools_among(all.take(i as int)),
        decreases pieces@.len() - i,
    {
        let ghost before = views(out@);
        assert(all.take(i + 1).drop_last() =~= all.take(i as int));
        let entry = trim(pieces[i].as_str());
        if starts_with(entry.as_str(), "Tool:") {
            let ghost e = entry@;
            out.push(entry);
            assert(views(out@) =~= before.push(e));
        }
        i += 1;
    }
    assert(all.take(all.len() as int) =~= all);
    out
}

/// Every tool in an answer begins with `Tool:`, and is one of the paragraphs, trimmed.
pub proof fn lemma_tool_entries(pieces: Seq<Seq<char>>)
    ensures
        tools_among(pieces).len() <= pieces.len(),
        forall|i: int|
            0 <= i < tools_among(pieces).len() ==> "Tool:"@.is_prefix_of(
                #[trigger] tools_among(pieces)[i],
            ) && exists|j: int|
                0 <= j < pieces.len() && tools_among(pieces)[i] == trim_of(#[trigger] pieces[j]),
    decreases pieces.len(),
{
    if pieces.len() > 0 {
        let rest = pieces.drop_last();
        lemma_tool_entries(rest);
        let all = tools_among(pieces);
        let before = tools_among(rest);
        assert forall|i: int| 0 <= i < all.len() implies "Tool:"@.is_prefix_of(#[trigger] all[i])
            && exists|j: int| 0 <= j < pieces.len() && all[i] == trim_of(#[trigger] pieces[j]) by {
            if i < before.len() {
                assert(all[i] == before[i]);
                let j = choose|j: int|
                    0 <= j < rest.len() && before[i] == trim_of(#[trigger] rest[j]);
                assert(pieces[j] == rest[j]);
            } else {
                assert(all[i] == trim_of(pieces[pieces.len() - 1]));
            }
        }
    }
}

/// What came of asking the model.
#[derive(Debug)]
pub enum ModelReply {
    /// The prompt could not be written, for the given reason.
    NotRendered(String),
    /// The model gave no answer, for the given reason.
    Failed(String),
    /// The text of the answer.
    Text(String),
}

/// The selector that asks a model: the texts of the tools by extension, and the recent calls.
pub struct LLMToolSelector {
    tool_strings: DashMap<String, String>,
    recent_tool_calls: RecentToolCalls,
}

impl LLMToolSelector {
    /// The texts of the tools by extension.
    pub closed spec fn texts(&self) -> Map<Seq<char>, Seq<char>> {
        map_contents(self.tool_strings)
    }

    /// The calls that are remembered, the oldest first.
    pub closed spec fn calls(&self) -> Seq<Seq<char>> {
        self.recent_tool_calls@
    }

    /// A selector that knows no tools and remembers no calls.
    pub fn new() -> (res: Self)
        ensures
            res.texts() == Map::<Seq<char>, Seq<char>>::empty(),
            res.calls() == Seq::<Seq<char>>::empty(),
    {
        LLMToolSelector { tool_strings: new_map(), recent_tool_calls: RecentToolCalls::new() }
    }

    /// Begins a selection: what the model is asked with. There is nothing to ask where
    /// no tools are known, or none of the extension that is named.
    pub fn select_tools(&self, params: &serde_json::Value) -> (res: Result<
        Option<ToolSelectorContext>,
        ErrorData,
    >)
        ensures
            match text_param(*params, "query"@) {
                None => res matches Err(e) && e@ == missing_query_error(),
                Some(query) => {
                    &&& res matches Ok(context)
                    &&& context matches Some(c) ==> c.query@ == query
                    &&& match text_param(*params, "extension_name"@) {
                        Some(ext) => match context {
                            Some(c) => self.texts().dom().contains(ext) && c.tools@
                                == self.texts()[ext],
                            None => !self.texts().dom().contains(ext),
                        },
                        None => exists|entries: Seq<(String, String)>|
                            {
                                &&& lists(entries, self.texts())
                                &&& distinct_keys(entries)
                                &&& #[trigger] all_tools(entries) == (match context {
                                    Some(c) => Some(c.tools@),
                                    None => None,
                                })
                            },
                    }
                },
            },
    {
        let query = match read_text_param(params, "query") {
            Some(query) => query,
            None => return Err(missing_query()),
        };
        let tools = match read_text_param(params, "extension_name") {
            Some(ext) => map_get(&self.tool_strings, ext.as_str()),
            None => {
                let entries = map_entries(&self.tool_strings);
                let joined = join_tools(&entries);
                assert(all_tools(entries@) == opt_view(joined));
                joined
            },
        };
        match tools {
            Some(tools) => Ok(Some(ToolSelectorContext { tools, query })),
            None => Ok(None),
        }
    }

    /// Ends a selection with the tools in the model's answer.
    pub fn finish_selection(reply: ModelReply) -> (res: Result<Vec<String>, ErrorData>)
        ensures
            match reply {
                ModelReply::NotRendered(reason) => res matches Err(e) && e@ == internal_error(
                    "Failed to render prompt template: "@ + reason@,
                ),
                ModelReply::Failed(reason) => res matches Err(e) && e@ == internal_error(
                    "Failed to search tools: "@ + reason@,
                ),
                ModelReply::Text(text) => res matches Ok(entries) && views(entries@) == tools_among(
                    split_of(text@, "\n\n"@),
                ),
            },
    {
        match reply {
            ModelReply::NotRendered(reason) => Err(
                internal(
                    "Failed to render prompt template: ".to_owned().concat(reason.as_str()),
                ),
            ),
            ModelReply::Failed(reason) => Err(
                internal("Failed to search tools: ".to_owned().concat(reason.as_str())),
            ),
            ModelReply::Text(text) => Ok(tool_entries(text.as_str())),
        }
    }

    /// Indexes tools of an extension.
    pub fn index_tools(&mut self, tools: &Vec<SelectableTool>, extension_name: &str)
        ensures
            final(self).texts() == with_tools(old(self).texts(), tools@, extension_name@),
            final(self).calls() == old(self).calls(),
    {
        let mut i: usize = 0;
        assert(tools@.take(0) =~= Seq::empty());
        while i < tools.len()
            invariant
                i <= tools@.len(),
                self.recent_tool_calls == old(self).recent_tool_calls,
                self.texts() == with_tools(
                    old(self).texts(),
                    tools@.take(i as int),
                    extension_name@,
                ),
            decreases tools@.len() - i,
        {
            assert(tools@.take(i + 1).drop_last() =~= tools@.take(i as int));
            let tool = &tools[i];
            let description = tool_description(tool);
            let schema = tool_schema(tool);
            let text = tool_to_text(tool.name.as_str(), description.as_str(), schema.as_str());
            let existing = map_get(&self.tool_strings, extension_name);
            assert(opt_view(existing) == value_at(self.texts(), extension_name@));
            let more = add_tool_text(existing, tool.name.as_str(), text);
            map_insert(&mut self.tool_strings, extension_name.to_owned(), more);
            i += 1;
        }
        assert(tools@.take(tools@.len() as int) =~= tools@);
    }

    /// Forgets the tools of the extension that a tool belongs to: what stands before the first
    /// `__` of its name.
    pub fn remove_tool(&mut self, tool_name: &str)
        ensures
            final(self).texts() == old(self).texts().remove(split_of(tool_name@, "__"@)[0]),
            forall|extension: Seq<char>, rest: Seq<char>|
                tool_name@ == #[trigger] (extension + "__"@ + rest) && ends_first(extension, "__"@)
                    ==> final(self).texts() == old(self).texts().remove(extension),
            !contains_text(tool_name@, "__"@) ==> final(self).texts() == old(self).texts().remove(
                tool_name@,
            ),
            final(self).calls() == old(self).calls(),
    {
        proof {
            reveal_strlit("__");
            assert forall|extension: Seq<char>, rest: Seq<char>|
                tool_name@ == #[trigger] (extension + "__"@ + rest) && ends_first(
                    extension,
                    "__"@,
                ) implies split_of(tool_name@, "__"@)[0] == extension by {
                lemma_split_first(extension, "__"@, rest);
            }
            crate::text::lemma_find_from(tool_name@, "__"@, 0);
        }
        let parts = split(tool_name, "__");
        assert(views(parts@)[0] == parts@[0]@);
        map_remove(&mut self.tool_strings, parts[0].as_str());
    }

    /// Remembers a call.
    pub fn record_tool_call(&mut self, tool_name: &str)
        ensures
            final(self).texts() == old(self).texts(),
            final(self).calls() == after_call(old(self).calls(), tool_name@),
    {
        self.recent_tool_calls.record_tool_call(tool_name);
    }

    /// The last `limit` calls, the newest first.
    pub fn get_recent_tool_calls(&self, limit: usize) -> (res: Vec<String>)
        ensures
            views(res@) == newest_first(self.calls(), limit),
    {
        self.recent_tool_calls.get_recent_tool_calls(limit)
    }
}

} // verus!
