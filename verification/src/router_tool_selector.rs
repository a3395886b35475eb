//! Selecting tools for a task: by the similarity of embeddings, or by asking a model.
use crate::json::{
    json_str, json_str_of, json_u64, json_u64_of, member_in, object_members, object_pretty,
    object_pretty_of, value_member,
};
use crate::text::{opt_view, same_text, views};
use crate::tool_vectordb::{IndexedToolView, ToolRecord};
use std::collections::VecDeque;
use vstd::prelude::*;

verus! {

/// How tools are selected.
#[derive(Debug, Clone, Copy, PartialEq, Eq, Structural)]
pub enum RouterToolSelectionStrategy {
    Llm,
    Vector,
}

/// What kind of error was met.
#[derive(Debug, Clone, Copy, PartialEq, Eq, Structural)]
pub enum ErrorCode {
    InvalidParams,
    InternalError,
}

/// An error with its text.
#[derive(Debug, Clone, PartialEq, Eq)]
pub struct ErrorData {
    pub code: ErrorCode,
    pub message: String,
}

/// What an error says.
pub struct ErrorView {
    pub code: ErrorCode,
    pub message: Seq<char>,
}

impl View for ErrorData {
    type V = ErrorView;

    open spec fn view(&self) -> ErrorView {
        ErrorView { code: self.code, message: self.message@ }
    }
}

/// An internal error.
pub open spec fn internal_error(message: Seq<char>) -> ErrorView {
    ErrorView { code: ErrorCode::InternalError, message }
}

pub(crate) fn internal(message: String) -> (res: ErrorData)
    ensures
        res@ == internal_error(message@),
{
    ErrorData { code: ErrorCode::InternalError, message }
}

pub(crate) fn missing_query() -> (res: ErrorData)
    ensures
        res@ == missing_query_error(),
{
    ErrorData {
        code: ErrorCode::InvalidParams,
        message: "Missing 'query' parameter".to_owned(),
    }
}

/// The error where a selection names no query.
pub open spec fn missing_query_error() -> ErrorView {
    ErrorView { code: ErrorCode::InvalidParams, message: "Missing 'query' parameter"@ }
}

// ---------------------------------------------------------------------------------------------
// Recent calls
// ---------------------------------------------------------------------------------------------
/// How many calls are remembered.
pub const RECENT_CALLS: usize = 100;

/// The names of the tools that were called last, the oldest first.
#[derive(Debug)]
pub struct RecentToolCalls {
    calls: VecDeque<String>,
}

/// The calls after one more call.
pub open spec fn after_call(calls: Seq<Seq<char>>, tool_name: Seq<char>) -> Seq<Seq<char>> {
    (if calls.len() >= RECENT_CALLS {
        calls.skip(1)
    } else {
        calls
    }).push(tool_name)
}

/// The last `limit` calls, the newest first.
pub open spec fn newest_first(calls: Seq<Seq<char>>, limit: usize) -> Seq<Seq<char>> {
    Seq::new(
        if limit < calls.len() {
            limit as nat
        } else {
            calls.len()
        },
        |i: int| calls[calls.len() - 1 - i],
    )
}

impl View for RecentToolCalls {
    type V = Seq<Seq<char>>;

    closed spec fn view(&self) -> Seq<Seq<char>> {
        views(self.calls@)
    }
}

impl RecentToolCalls {
    /// No more calls are remembered than there is room for.
    #[verifier::type_invariant]
    spec fn wf(self) -> bool {
        self.calls@.len() <= RECENT_CALLS
    }

    /// No calls yet.
    pub fn new() -> (res: Self)
        ensures
            res@ == Seq::<Seq<char>>::empty(),
    {
        let res = RecentToolCalls { calls: VecDeque::new() };
        assert(res@ =~= Seq::<Seq<char>>::empty());
        res
    }

    /// Remembers a call. The oldest one is forgotten where there is no room.
    pub fn record_tool_call(&mut self, tool_name: &str)
        ensures
            final(self)@ == after_call(old(self)@, tool_name@),
            final(self)@.len() <= RECENT_CALLS,
    {
        proof {
            use_type_invariant(&*self);
        }
        let ghost before = self@;
        let mut calls: VecDeque<String> = VecDeque::new();
        std::mem::swap(&mut calls, &mut self.calls);
        if calls.len() >= RECENT_CALLS {
            let _ = calls.pop_front();
            assert(views(calls@) =~= before.skip(1));
        }
        let ghost kept = views(calls@);
        calls.push_back(tool_name.to_owned());
        assert(views(calls@) =~= kept.push(tool_name@));
        self.calls = calls;
    }

    /// The last `limit` calls, the newest first.
    pub fn get_recent_tool_calls(&self, limit: usize) -> (res: Vec<String>)
        ensures
            views(res@) == newest_first(self@, limit),
            res@.len() <= RECENT_CALLS,
    {
        proof {
            use_type_invariant(self);
        }
        let mut out: Vec<String> = Vec::new();
        let n: usize = self.calls.len();
        let mut i: usize = 0;
        while i < n && i < limit
            invariant
                i <= n == self.calls@.len(),
                i <= limit,
                views(out@) =~= newest_first(self@, limit).take(i as int),
            decreases n - i,
        {
            let ghost before = views(out@);
            out.push(self.calls[n - 1 - i].clone());
            assert(views(out@) =~= before.push(self@[n - 1 - i]));
            i += 1;
        }
        assert(newest_first(self@, limit).take(i as int) =~= newest_first(self@, limit));
        assert(out@.len() == views(out@).len());
        out
    }
}

/// The calls after a number of calls, made in order.
pub open spec fn after_calls(calls: Seq<Seq<char>>, names: Seq<Seq<char>>) -> Seq<Seq<char>>
    decreases names.len(),
{
    if names.len() == 0 {
        calls
    } else {
        after_call(after_calls(calls, names.drop_last()), names.last())
    }
}

/// Of all calls that were made, the last ones are remembered: as many as there is room for.
pub proof fn lemma_last_calls(names: Seq<Seq<char>>)
    ensures
        after_calls(Seq::empty(), names) == (if names.len() <= RECENT_CALLS {
            names
        } else {
            names.skip(names.len() - RECENT_CALLS)
        }),
    decreases names.len(),
{
    if names.len() > 0 {
        let rest = names.drop_last();
        lemma_last_calls(rest);
        assert(after_calls(Seq::empty(), names) =~= (if names.len() <= RECENT_CALLS {
            names
        } else {
            names.skip(names.len() - RECENT_CALLS)
        }));
    } else {
        assert(names =~= Seq::empty());
    }
}

/// The newest call is the first of the recent calls.
pub proof fn lemma_newest_call(calls: Seq<Seq<char>>, tool_name: Seq<char>, limit: usize)
    requires
        limit > 0,
    ensures
        newest_first(after_call(calls, tool_name), limit).len() > 0,
        newest_first(after_call(calls, tool_name), limit)[0] == tool_name,
{
}

// ---------------------------------------------------------------------------------------------
// Tools as text
// ---------------------------------------------------------------------------------------------
/// A tool as text: its name, its description and the schema of its input.
pub open spec fn tool_text(name: Seq<char>, description: Seq<char>, schema: Seq<char>) -> Seq<
    char,
> {
    "Tool: "@ + name + "\nDescription: "@ + description + "\nSchema: "@ + schema
}

/// A tool as text.
pub fn tool_to_text(name: &str, description: &str, schema: &str) -> (res: String)
    ensures
        res@ == tool_text(name@, description@, schema@),
{
    "Tool: ".to_owned().concat(name).concat("\nDescription: ").concat(description).concat(
        "\nSchema: ",
    ).concat(schema)
}

/// A tool that can be selected: its name, its description and the schema of its input.
#[derive(Debug)]
pub struct SelectableTool {
    pub name: String,
    pub description: Option<String>,
    pub input_schema: serde_json::Map<String, serde_json::Value>,
}

/// The description of a tool; empty where it has none.
pub open spec fn description_of(tool: SelectableTool) -> Seq<char> {
    match tool.description {
        Some(d) => d@,
        None => Seq::empty(),
    }
}

/// A schema, or the empty object where there is none.
pub open spec fn schema_or_empty(schema: Option<Seq<char>>) -> Seq<char> {
    match schema {
        Some(s) => s,
        None => "{}"@,
    }
}

/// The schema of a tool's input, laid out over several lines.
pub open spec fn schema_of(tool: SelectableTool) -> Seq<char> {
    object_pretty_of(object_members(tool.input_schema))
}

/// The text whose embedding stands for a tool.
pub open spec fn embed_text(name: Seq<char>, description: Seq<char>, schema: Seq<char>) -> Seq<
    char,
> {
    name + " "@ + description + " "@ + schema
}

/// The text whose embedding stands for a tool.
pub fn tool_to_embed_text(name: &str, description: &str, schema: &str) -> (res: String)
    ensures
        res@ == embed_text(name@, description@, schema@),
{
    name.to_owned().concat(" ").concat(description).concat(" ").concat(schema)
}

/// A schema, or the empty object where there is none.
pub fn or_empty_schema(schema: Option<String>) -> (res: String)
    ensures
        res@ == schema_or_empty(opt_view(schema)),
{
    match schema {
        Some(s) => s,
        None => "{}".to_owned(),
    }
}

pub(crate) fn tool_description(tool: &SelectableTool) -> (res: String)
    ensures
        res@ == description_of(*tool),
{
    match &tool.description {
        Some(d) => d.clone(),
        None => String::new(),
    }
}

pub(crate) fn tool_schema(tool: &SelectableTool) -> (res: String)
    ensures
        res@ == schema_of(*tool),
{
    or_empty_schema(object_pretty(&tool.input_schema))
}

// ---------------------------------------------------------------------------------------------
// Selecting by embeddings
// ---------------------------------------------------------------------------------------------
/// A selection that was asked for.
#[derive(Debug, Clone)]
pub struct SelectRequest {
    /// The text whose embedding is searched for.
    pub query: String,
    /// How many tools are asked for.
    pub k: usize,
    /// The extension that the tools belong to, if it matters.
    pub extension_name: Option<String>,
}

/// What the parameters of a selection come to. `supported` says whether embeddings can be made.
pub open spec fn request_is(
    query: Option<Seq<char>>,
    k: Option<u64>,
    extension_name: Option<Seq<char>>,
    supported: bool,
    res: Result<SelectRequest, ErrorData>,
) -> bool {
    match query {
        None => res matches Err(e) && e@ == missing_query_error(),
        Some(q) => if supported {
            &&& res matches Ok(r)
            &&& r.query@ == q
            &&& r.k == (match k {
                Some(n) => n as usize,
                None => 5,
            })
            &&& opt_view(r.extension_name) == extension_name
        } else {
            res matches Err(e) && e@ == internal_error(
                "Embedding provider does not support embeddings"@,
            )
        },
    }
}

/// The text under a key of the parameters.
pub open spec fn text_param(params: serde_json::Value, key: Seq<char>) -> Option<Seq<char>> {
    match member_in(params, key) {
        Some(member) => json_str_of(member),
        None => None,
    }
}

/// The number under a key of the parameters.
pub open spec fn number_param(params: serde_json::Value, key: Seq<char>) -> Option<u64> {
    match member_in(params, key) {
        Some(member) => json_u64_of(member),
        None => None,
    }
}

pub(crate) fn read_text_param(params: &serde_json::Value, key: &str) -> (res: Option<String>)
    ensures
        opt_view(res) == text_param(*params, key@),
{
    match value_member(params, key) {
        Some(member) => json_str(member.as_str()),
        None => None,
    }
}

fn read_number_param(params: &serde_json::Value, key: &str) -> (res: Option<u64>)
    ensures
        res == number_param(*params, key@),
{
    match value_member(params, key) {
        Some(member) => json_u64(member.as_str()),
        None => None,
    }
}

/// What the parameters of a selection come to.
pub fn check_selection(
    query: Option<String>,
    k: Option<u64>,
    extension_name: Option<String>,
    supported: bool,
) -> (res: Result<SelectRequest, ErrorData>)
    ensures
        request_is(opt_view(query), k, opt_view(extension_name), supported, res),
{
    let query = match query {
        Some(q) => q,
        None => return Err(missing_query()),
    };
    let k: usize = match k {
        Some(n) => n as usize,
        None => 5,
    };
    if !supported {
        return Err(internal("Embedding provider does not support embeddings".to_owned()));
    }
    Ok(SelectRequest { query, k, extension_name })
}

/// Tools as texts.
pub open spec fn tools_as_texts(tools: Seq<IndexedToolView>) -> Seq<Seq<char>> {
    Seq::new(
        tools.len(),
        |i: int| tool_text(tools[i].tool_name, tools[i].description, tools[i].schema),
    )
}

/// The texts of the tools to embed.
pub open spec fn texts_to_embed(tools: Seq<SelectableTool>) -> Seq<Seq<char>> {
    Seq::new(
        tools.len(),
        |i: int| embed_text(tools[i].name@, description_of(tools[i]), schema_of(tools[i])),
    )
}

/// The records of the tools, as many as there are embeddings for.
pub open spec fn records_of(
    tools: Seq<SelectableTool>,
    embeddings: Seq<Vec<u32>>,
    extension_name: Seq<char>,
) -> Seq<IndexedToolView> {
    Seq::new(
        if tools.len() < embeddings.len() {
            tools.len()
        } else {
            embeddings.len()
        },
        |i: int|
            IndexedToolView {
                tool_name: tools[i].name@,
                description: description_of(tools[i]),
                schema: schema_of(tools[i]),
                vector: embeddings[i]@,
                extension_name,
            },
    )
}

/// Records by their views.
pub open spec fn record_views(records: Seq<ToolRecord>) -> Seq<IndexedToolView> {
    Seq::new(records.len(), |i: int| records[i]@)
}

/// One of the tools has the name.
pub open spec fn has_name(tools: Seq<IndexedToolView>, name: Seq<char>) -> bool {
    exists|i: int| 0 <= i < tools.len() && (#[trigger] tools[i]).tool_name == name
}

/// The records that are new: those for which no tool of the same name was found. `found` holds
/// what was found for each record.
pub open spec fn new_records(
    records: Seq<IndexedToolView>,
    found: Seq<Seq<IndexedToolView>>,
) -> Seq<IndexedToolView>
    decreases records.len(),
{
    if records.len() == 0 {
        Seq::empty()
    } else {
        let before = new_records(records.drop_last(), found);
        if has_name(found[records.len() - 1], records.last().tool_name) {
            before
        } else {
            before.push(records.last())
        }
    }
}

/// What is done next while tools are indexed.
#[derive(Debug)]
pub enum IndexAction {
    /// Search the nearest tools to an embedding within an extension.
    Search { vector: Vec<u32>, k: usize, extension_name: String },
    /// Put the records into the store.
    Index { records: Vec<ToolRecord> },
    /// Nothing more.
    Done(Result<(), ErrorData>),
}

/// Indexing under way: the records, how many of them have been looked up, and which of these are
/// new.
#[derive(Debug)]
pub struct IndexRun {
    pub records: Vec<ToolRecord>,
    pub next: usize,
    pub fresh: Vec<ToolRecord>,
}

impl IndexRun {
    /// The records up to the next one have been looked up, with what was found for each of them.
    pub open spec fn looked_up(&self, found: Seq<Seq<IndexedToolView>>) -> bool {
        &&& self.next <= self.records@.len()
        &&& found.len() == self.next
        &&& record_views(self.fresh@) == new_records(
            record_views(self.records@).take(self.next as int),
            found,
        )
    }

    /// What is done next: the next record is looked up, or else the new records are put into the
    /// store, if there are any.
    pub open spec fn next_is(&self, action: IndexAction) -> bool {
        if self.next < self.records@.len() {
            &&& action matches IndexAction::Search { vector, k, extension_name }
            &&& vector@ == self.records@[self.next as int].vector@
            &&& k == 1
            &&& extension_name@ == self.records@[self.next as int].extension_name@
        } else if self.fresh@.len() > 0 {
            action matches IndexAction::Index { records } && record_views(records@)
                == record_views(self.fresh@)
        } else {
            action == IndexAction::Done(Ok(()))
        }
    }

    /// Starts with the given records.
    pub fn start(records: Vec<ToolRecord>) -> (res: (IndexRun, IndexAction))
        ensures
            res.0.records == records,
            res.0.next == 0,
            res.0.looked_up(Seq::empty()),
            res.0.next_is(res.1),
    {
        let run = IndexRun { records, next: 0, fresh: Vec::new() };
        assert(record_views(run.records@).take(0) =~= Seq::empty());
        assert(record_views(run.fresh@) =~= Seq::empty());
        let action = run.next_action();
        (run, action)
    }

    fn next_action(&self) -> (res: IndexAction)
        requires
            self.next <= self.records@.len(),
        ensures
            self.next_is(res),
    {
        if self.next < self.records.len() {
            let record = &self.records[self.next];
            let vector = record.vector.clone();
            assert(vector@ =~= record.vector@);
            IndexAction::Search { vector, k: 1, extension_name: record.extension_name.clone() }
        } else if self.fresh.len() > 0 {
            IndexAction::Index { records: copy_records(&self.fresh) }
        } else {
            IndexAction::Done(Ok(()))
        }
    }

    /// Goes on with what was found for the next record: it is new if no tool of its name was
    /// found. A search that failed ends the indexing.
    pub fn on_search(&mut self, result: Result<Vec<ToolRecord>, String>) -> (res: IndexAction)
        requires
            old(self).next < old(self).records@.len(),
        ensures
            match result {
                Ok(existing) => {
                    &&& final(self).records == old(self).records
                    &&& final(self).next == old(self).next + 1
                    &&& forall|found: Seq<Seq<IndexedToolView>>| #[trigger]
                        old(self).looked_up(found) ==> final(self).looked_up(
                            found.push(record_views(existing@)),
                        )
                    &&& record_views(final(self).fresh@) == (if has_name(
                        record_views(existing@),
                        old(self).records@[old(self).next as int]@.tool_name,
                    ) {
                        record_views(old(self).fresh@)
                    } else {
                        record_views(old(self).fresh@).push(
                            old(self).records@[old(self).next as int]@,
                        )
                    })
                    &&& final(self).next_is(res)
                },
                Err(text) => *final(self) == *old(self) && (res matches IndexAction::Done(Err(e))
                    && e@ == internal_error("Failed to search for existing tools: "@ + text@)),
            },
    {
        let existing = match result {
            Ok(existing) => existing,
            Err(text) => {
                return IndexAction::Done(
                    Err(
                        internal(
                            "Failed to search for existing tools: ".to_owned().concat(
                                text.as_str(),
                            ),
                        ),
                    ),
                );
            },
        };
        let n: usize = self.records.len();
        let ghost before = record_views(self.fresh@);
        let known = names_tool(&existing, self.records[self.next].tool_name.as_str());
        if !known {
            let record = copy_record(&self.records[self.next]);
            let ghost r = record@;
            self.fresh.push(record);
            assert(record_views(self.fresh@) =~= before.push(r));
        }
        self.next = self.next + 1;
        proof {
            let all = record_views(self.records@);
            let k = old(self).next as int;
            assert(all.take(k + 1).drop_last() =~= all.take(k));
            assert forall|found: Seq<Seq<IndexedToolView>>| #[trigger]
                old(self).looked_up(found) implies self.looked_up(
                found.push(record_views(existing@)),
            ) by {
                let more = found.push(record_views(existing@));
                lemma_new_records_prefix(all.take(k), found, more);
            }
        }
        self.next_action()
    }
}

proof fn lemma_new_records_prefix(
    records: Seq<IndexedToolView>,
    found: Seq<Seq<IndexedToolView>>,
    more: Seq<Seq<IndexedToolView>>,
)
    requires
        records.len() <= found.len() <= more.len(),
        forall|i: int| 0 <= i < found.len() ==> #[trigger] found[i] == more[i],
    ensures
        new_records(records, found) == new_records(records, more),
    decreases records.len(),
{
    if records.len() > 0 {
        lemma_new_records_prefix(records.drop_last(), found, more);
        assert(found[records.len() - 1] == more[records.len() - 1]);
    }
}

/// A record for which no tool of the same name was found is new.
pub proof fn lemma_new_records(
    records: Seq<IndexedToolView>,
    found: Seq<Seq<IndexedToolView>>,
    i: int,
)
    requires
        0 <= i < records.len() <= found.len(),
        !has_name(found[i], records[i].tool_name),
    ensures
        new_records(records, found).contains(records[i]),
    decreases records.len(),
{
    let all = new_records(records, found);
    let before = new_records(records.drop_last(), found);
    if i == records.len() - 1 {
        assert(all[all.len() - 1] == records[i]);
    } else {
        assert(records.drop_last()[i] == records[i]);
        lemma_new_records(records.drop_last(), found, i);
        let j = choose|j: int| 0 <= j < before.len() && before[j] == records[i];
        assert(all[j] == records[i]);
    }
}

/// A new record is one of the records, and no tool of its name was found for it.
pub proof fn lemma_new_records_only(
    records: Seq<IndexedToolView>,
    found: Seq<Seq<IndexedToolView>>,
    r: IndexedToolView,
)
    requires
        records.len() <= found.len(),
        new_records(records, found).contains(r),
    ensures
        exists|i: int|
            0 <= i < records.len() && #[trigger] records[i] == r && !has_name(
                found[i],
                r.tool_name,
            ),
    decreases records.len(),
{
    let all = new_records(records, found);
    let rest = records.drop_last();
    let before = new_records(rest, found);
    let j = choose|j: int| 0 <= j < all.len() && all[j] == r;
    if j < before.len() {
        assert(before[j] == r);
        lemma_new_records_only(rest, found, r);
        let i = choose|i: int|
            0 <= i < rest.len() && #[trigger] rest[i] == r && !has_name(found[i], r.tool_name);
        assert(records[i] == r);
    } else {
        assert(records[records.len() - 1] == r);
    }
}

/// Where every record's name was found, none of them is new: indexing them again does nothing.
pub proof fn lemma_nothing_new(
    records: Seq<IndexedToolView>,
    found: Seq<Seq<IndexedToolView>>,
)
    requires
        records.len() <= found.len(),
        forall|i: int|
            0 <= i < records.len() ==> has_name(found[i], (#[trigger] records[i]).tool_name),
    ensures
        new_records(records, found) == Seq::<IndexedToolView>::empty(),
    decreases records.len(),
{
    if records.len() > 0 {
        let rest = records.drop_last();
        assert forall|i: int| 0 <= i < rest.len() implies has_name(
            found[i],
            (#[trigger] rest[i]).tool_name,
        ) by {
            assert(rest[i] == records[i]);
        }
        lemma_nothing_new(rest, found);
        assert(has_name(found[records.len() - 1], records[records.len() - 1].tool_name));
    }
}

fn names_tool(tools: &Vec<ToolRecord>, name: &str) -> (res: bool)
    ensures
        res == has_name(record_views(tools@), name@),
{
    let mut i: usize = 0;
    while i < tools.len()
        invariant
            i <= tools@.len(),
            forall|j: int| 0 <= j < i ==> (#[trigger] tools@[j])@.tool_name != name@,
        decreases tools@.len() - i,
    {
        if same_text(tools[i].tool_name.as_str(), name) {
            assert(record_views(tools@)[i as int].tool_name == name@);
            return true;
        }
        i += 1;
    }
    assert forall|j: int| 0 <= j < tools@.len() implies (#[trigger] record_views(
        tools@,
    )[j]).tool_name != name@ by {
        assert(tools@[j]@.tool_name != name@);
    }
    false
}

fn copy_record(record: &ToolRecord) -> (res: ToolRecord)
    ensures
        res@ == record@,
{
    let vector = record.vector.clone();
    assert(vector@ =~= record.vector@);
    ToolRecord {
        tool_name: record.tool_name.clone(),
        description: record.description.clone(),
        schema: record.schema.clone(),
        vector,
        extension_name: record.extension_name.clone(),
    }
}

fn copy_records(records: &Vec<ToolRecord>) -> (res: Vec<ToolRecord>)
    ensures
        record_views(res@) == record_views(records@),
{
    let mut out: Vec<ToolRecord> = Vec::new();
    let mut i: usize = 0;
    while i < records.len()
        invariant
            i <= records@.len(),
            record_views(out@) =~= record_views(records@).take(i as int),
        decreases records@.len() - i,
    {
        let ghost before = record_views(out@);
        out.push(copy_record(&records[i]));
        assert(record_views(out@) =~= before.push(records@[i as int]@));
        i += 1;
    }
    assert(record_views(records@).take(records@.len() as int) =~= record_views(records@));
    out
}

// ---------------------------------------------------------------------------------------------
// The owner of the tool store
// ---------------------------------------------------------------------------------------------
/// A request to the owner of the tool store.
#[derive(Debug)]
pub enum VectorToolMessage {
    SelectTools { params: serde_json::Value },
    IndexTools { tools: Vec<SelectableTool>, extension_name: String },
    RemoveTool { tool_name: String },
    RecordToolCall { tool_name: String },
    GetRecentToolCalls { limit: usize },
}

/// What a request to the owner of the tool store leads to.
#[derive(Debug)]
pub enum VectorToolStep {
    /// Make the embedding of the query, and go on with the selection.
    EmbedQuery(SelectRequest),
    /// Make the embeddings of the texts, and go on with indexing the tools.
    EmbedTools { texts: Vec<String>, tools: Vec<SelectableTool>, extension_name: String },
    /// Remove the tool from the store.
    Remove { tool_name: String },
    /// The call was recorded.
    Recorded,
    /// The recent calls.
    Calls(Vec<String>),
    /// The request is refused.
    Failed(ErrorData),
}

/// A search in the tool store.
#[derive(Debug, Clone)]
pub struct ToolSearch {
    pub query: Vec<u32>,
    pub k: usize,
    pub extension_name: Option<String>,
}

/// What the embedding of a query comes to: a search for it, or an error where it could not be
/// made or is missing.
pub open spec fn search_is(
    request: SelectRequest,
    embeddings: Result<Vec<Vec<u32>>, String>,
    res: Result<ToolSearch, ErrorData>,
) -> bool {
    match embeddings {
        Err(text) => res matches Err(e) && e@ == internal_error(
            "Failed to generate query embedding: "@ + text@,
        ),
        Ok(v) => if v@.len() == 0 {
            res matches Err(e) && e@ == internal_error("No embedding returned"@)
        } else {
            &&& res matches Ok(s)
            &&& s.query@ == v@[0]@
            &&& s.k == request.k
            &&& s.extension_name == request.extension_name
        },
    }
}

/// What the texts of tools come to, given whether embeddings can be made.
pub open spec fn texts_are(
    tools: Seq<SelectableTool>,
    supported: bool,
    res: Result<Vec<String>, ErrorData>,
) -> bool {
    if supported {
        res matches Ok(texts) && views(texts@) == texts_to_embed(tools)
    } else {
        res matches Err(e) && e@ == internal_error(
            "Embedding provider does not support embeddings"@,
        )
    }
}

/// The owner of the tool store: what it remembers between requests.
#[derive(Debug)]
pub struct VectorToolActor {
    pub recent_tool_calls: RecentToolCalls,
}

impl VectorToolActor {
    /// An owner that remembers no calls yet.
    pub fn new() -> (res: Self)
        ensures
            res.recent_tool_calls@ == Seq::<Seq<char>>::empty(),
    {
        VectorToolActor { recent_tool_calls: RecentToolCalls::new() }
    }

    /// Begins to answer a request. `supported` says whether embeddings can be made.
    pub fn begin(&mut self, message: VectorToolMessage, supported: bool) -> (res: VectorToolStep)
        ensures
            match message {
                VectorToolMessage::RecordToolCall { tool_name } => res is Recorded
                    && final(self).recent_tool_calls@ == after_call(
                    old(self).recent_tool_calls@,
                    tool_name@,
                ),
                _ => *final(self) == *old(self),
            },
            match message {
                VectorToolMessage::SelectTools { params } => {
                    let query = text_param(params, "query"@);
                    let k = number_param(params, "k"@);
                    let ext = text_param(params, "extension_name"@);
                    match res {
                        VectorToolStep::EmbedQuery(r) => request_is(query, k, ext, supported, Ok(r)),
                        VectorToolStep::Failed(e) => request_is(query, k, ext, supported, Err(e)),
                        _ => false,
                    }
                },
                VectorToolMessage::IndexTools { tools, extension_name } => match res {
                    VectorToolStep::EmbedTools { texts, tools: t, extension_name: e } => texts_are(
                        tools@,
                        supported,
                        Ok(texts),
                    ) && t == tools && e == extension_name,
                    VectorToolStep::Failed(e) => texts_are(tools@, supported, Err(e)),
                    _ => false,
                },
                VectorToolMessage::RemoveTool { tool_name } => res == (VectorToolStep::Remove {
                    tool_name,
                }),
                VectorToolMessage::RecordToolCall { tool_name } => res is Recorded,
                VectorToolMessage::GetRecentToolCalls { limit } => res matches VectorToolStep::Calls(
                    calls,
                ) && views(calls@) == newest_first(old(self).recent_tool_calls@, limit),
            },
    {
        match message {
            VectorToolMessage::SelectTools { params } => match self.handle_select_tools(
                &params,
                supported,
            ) {
                Ok(r) => VectorToolStep::EmbedQuery(r),
                Err(e) => VectorToolStep::Failed(e),
            },
            VectorToolMessage::IndexTools { tools, extension_name } => match self.handle_index_tools(
            &tools, supported) {
                Ok(texts) => VectorToolStep::EmbedTools { texts, tools, extension_name },
                Err(e) => VectorToolStep::Failed(e),
            },
            VectorToolMessage::RemoveTool { tool_name } => VectorToolStep::Remove { tool_name },
            VectorToolMessage::RecordToolCall { tool_name } => {
                self.handle_record_tool_call(tool_name.as_str());
                VectorToolStep::Recorded
            },
            VectorToolMessage::GetRecentToolCalls { limit } => VectorToolStep::Calls(
                self.handle_get_recent_tool_calls(limit),
            ),
        }
    }

    /// Begins a selection: reads its parameters, which are a JSON object.
    pub fn handle_select_tools(&self, params: &serde_json::Value, supported: bool) -> (res: Result<
        SelectRequest,
        ErrorData,
    >)
        ensures
            request_is(
                text_param(*params, "query"@),
                number_param(*params, "k"@),
                text_param(*params, "extension_name"@),
                supported,
                res,
            ),
    {
        let query = read_text_param(params, "query");
        let k = read_number_param(params, "k");
        let extension_name = read_text_param(params, "extension_name");
        check_selection(query, k, extension_name, supported)
    }

    /// Goes on with a selection when the embedding of its query has been made.
    pub fn on_query_embedding(
        &self,
        request: SelectRequest,
        embeddings: Result<Vec<Vec<u32>>, String>,
    ) -> (res: Result<ToolSearch, ErrorData>)
        ensures
            search_is(request, embeddings, res),
    {
        let all = match embeddings {
            Ok(all) => all,
            Err(text) => {
                return Err(
                    internal(
                        "Failed to generate query embedding: ".to_owned().concat(text.as_str()),
                    ),
                );
            },
        };
        if all.len() == 0 {
            return Err(internal("No embedding returned".to_owned()));
        }
        let query = all[0].clone();
        assert(query@ =~= all@[0]@);
        Ok(ToolSearch { query, k: request.k, extension_name: request.extension_name })
    }

    /// Ends a selection with the tools that were found: each of them as text.
    pub fn on_tools_found(&self, tools: Result<Vec<ToolRecord>, String>) -> (res: Result<
        Vec<String>,
        ErrorData,
    >)
        ensures
            match tools {
                Ok(found) => res matches Ok(texts) && views(texts@) == tools_as_texts(
                    record_views(found@),
                ),
                Err(text) => res matches Err(e) && e@ == internal_error(
                    "Failed to search tools: "@ + text@,
                ),
            },
    {
        let found = match tools {
            Ok(found) => found,
            Err(text) => {
                return Err(internal("Failed to search tools: ".to_owned().concat(text.as_str())));
            },
        };
        let ghost all = tools_as_texts(record_views(found@));
        let mut texts: Vec<String> = Vec::new();
        let mut i: usize = 0;
        while i < found.len()
            invariant
                i <= found@.len(),
                all == tools_as_texts(record_views(found@)),
                views(texts@) =~= all.take(i as int),
            decreases found@.len() - i,
        {
            let ghost before = views(texts@);
            let tool = &found[i];
            texts.push(
                tool_to_text(
                    tool.tool_name.as_str(),
                    tool.description.as_str(),
                    tool.schema.as_str(),
                ),
            );
            assert(views(texts@) =~= before.push(all[i as int]));
            i += 1;
        }
        assert(all.take(all.len() as int) =~= all);
        Ok(texts)
    }

    /// Begins to index tools: the texts whose embeddings are needed.
    pub fn handle_index_tools(&self, tools: &Vec<SelectableTool>, supported: bool) -> (res: Result<
        Vec<String>,
        ErrorData,
    >)
        ensures
            texts_are(tools@, supported, res),
    {
        let ghost all = texts_to_embed(tools@);
        let mut texts: Vec<String> = Vec::new();
        let mut i: usize = 0;
        while i < tools.len()
            invariant
                i <= tools@.len(),
                all == texts_to_embed(tools@),
                views(texts@) =~= all.take(i as int),
            decreases tools@.len() - i,
        {
            let ghost before = views(texts@);
            let tool = &tools[i];
            let description = tool_description(tool);
            let schema = tool_schema(tool);
            texts.push(
                tool_to_embed_text(tool.name.as_str(), description.as_str(), schema.as_str()),
            );
            assert(views(texts@) =~= before.push(all[i as int]));
            i += 1;
        }
        assert(all.take(all.len() as int) =~= all);
        if !supported {
            return Err(internal("Embedding provider does not support embeddings".to_owned()));
        }
        Ok(texts)
    }

    /// Goes on with indexing when the embeddings of the tools have been made: each tool that has
    /// an embedding becomes a record, and the records are looked up one after the other.
    pub fn on_tool_embeddings(
        &self,
        tools: &Vec<SelectableTool>,
        extension_name: &str,
        embeddings: Result<Vec<Vec<u32>>, String>,
    ) -> (res: Result<(IndexRun, IndexAction), ErrorData>)
        ensures
            match embeddings {
                Err(text) => res matches Err(e) && e@ == internal_error(
                    "Failed to generate tool embeddings: "@ + text@,
                ),
                Ok(v) => {
                    &&& res matches Ok((run, action))
                    &&& record_views(run.records@) == records_of(tools@, v@, extension_name@)
                    &&& run.next == 0
                    &&& run.looked_up(Seq::empty())
                    &&& run.next_is(action)
                },
            },
    {
        let all = match embeddings {
            Ok(all) => all,
            Err(text) => {
                return Err(
                    internal(
                        "Failed to generate tool embeddings: ".to_owned().concat(text.as_str()),
                    ),
                );
            },
        };
        let ghost wanted = records_of(tools@, all@, extension_name@);
        let mut records: Vec<ToolRecord> = Vec::new();
        let mut i: usize = 0;
        while i < tools.len() && i < all.len()
            invariant
                i <= tools@.len(),
                i <= all@.len(),
                wanted == records_of(tools@, all@, extension_name@),
                record_views(records@) =~= wanted.take(i as int),
            decreases tools@.len() - i,
        {
            let ghost before = record_views(records@);
            let tool = &tools[i];
            let vector = all[i].clone();
            assert(vector@ =~= all@[i as int]@);
            let record = ToolRecord {
                tool_name: tool.name.clone(),
                description: tool_description(tool),
                schema: tool_schema(tool),
                vector,
                extension_name: extension_name.to_owned(),
            };
            assert(record@ =~= wanted[i as int]);
            records.push(record);
            assert(record_views(records@) =~= before.push(wanted[i as int]));
            i += 1;
        }
        assert(wanted.take(i as int) =~= wanted);
        Ok(IndexRun::start(records))
    }

    /// Ends indexing when the new records have been put into the store.
    pub fn on_indexed(&self, result: Result<(), String>) -> (res: Result<(), ErrorData>)
        ensures
            match result {
                Ok(()) => res is Ok,
                Err(text) => res matches Err(e) && e@ == internal_error(
                    "Failed to index tools: "@ + text@,
                ),
            },
    {
        match result {
            Ok(()) => Ok(()),
            Err(text) => Err(internal("Failed to index tools: ".to_owned().concat(text.as_str()))),
        }
    }

    /// Ends the removal of a tool.
    pub fn handle_remove_tool(&self, tool_name: &str, result: Result<(), String>) -> (res: Result<
        (),
        ErrorData,
    >)
        ensures
            match result {
                Ok(()) => res is Ok,
                Err(text) => res matches Err(e) && e@ == internal_error(
                    "Failed to remove tool "@ + tool_name@ + ": "@ + text@,
                ),
            },
    {
        match result {
            Ok(()) => Ok(()),
            Err(text) => Err(
                internal(
                    "Failed to remove tool ".to_owned().concat(tool_name).concat(": ").concat(
                        text.as_str(),
                    ),
                ),
            ),
        }
    }

    /// Remembers a call.
    pub fn handle_record_tool_call(&mut self, tool_name: &str)
        ensures
            final(self).recent_tool_calls@ == after_call(
                old(self).recent_tool_calls@,
                tool_name@,
            ),
    {
        self.recent_tool_calls.record_tool_call(tool_name);
    }

    /// The last `limit` calls, the newest first.
    pub fn handle_get_recent_tool_calls(&self, limit: usize) -> (res: Vec<String>)
        ensures
            views(res@) == newest_first(self.recent_tool_calls@, limit),
    {
        self.recent_tool_calls.get_recent_tool_calls(limit)
    }
}

/// What came of a request that was sent to the owner of the tool store.
#[derive(Debug)]
pub enum ActorReply<T> {
    /// The owner is gone.
    NotSent,
    /// The owner went away without an answer.
    NoAnswer,
    /// The answer.
    Answer(Result<T, ErrorData>),
}

/// The answer to a request, or an error where there is none.
pub fn actor_reply<T>(reply: ActorReply<T>) -> (res: Result<T, ErrorData>)
    ensures
        match reply {
            ActorReply::NotSent => res matches Err(e) && e@ == internal_error(
                "Vector tool selector actor is not available"@,
            ),
            ActorReply::NoAnswer => res matches Err(e) && e@ == internal_error(
                "Failed to receive response from vector tool selector"@,
            ),
            ActorReply::Answer(answer) => res == answer,
        },
{
    match reply {
        ActorReply::NotSent => Err(
            internal("Vector tool selector actor is not available".to_owned()),
        ),
        ActorReply::NoAnswer => Err(
            internal("Failed to receive response from vector tool selector".to_owned()),
        ),
        ActorReply::Answer(answer) => answer,
    }
}

// ---------------------------------------------------------------------------------------------
// Which selector to use
// ---------------------------------------------------------------------------------------------
/// The selector to create.
#[derive(Debug, Clone)]
pub enum SelectorPlan {
    /// One that searches embeddings: with which model and which provider they are made, and in
    /// which table they lie.
    Vector { embedding_model: String, embedding_service: String, table_name: String },
    /// One that asks a model.
    Llm,
}

/// Decides which selector to create. `sqlite` says whether the build has the vector store: without
/// it, a selector that searches embeddings is refused, and the error is the text of the reason.
/// `embedding_model` and `embedding_service` are what the environment names.
pub fn create_tool_selector(
    sqlite: bool,
    strategy: Option<RouterToolSelectionStrategy>,
    table_name: Option<String>,
    embedding_model: Option<String>,
    embedding_service: Option<String>,
) -> (res: Result<SelectorPlan, String>)
    ensures
        strategy != Some(RouterToolSelectionStrategy::Vector) ==> res == Ok::<_, String>(
            SelectorPlan::Llm,
        ),
        strategy == Some(RouterToolSelectionStrategy::Vector) && !sqlite ==> (res matches Err(text)
            && text@
            == "Vector tool selection requires the 'vectordb-sqlite' feature to be enabled"@),
        strategy == Some(RouterToolSelectionStrategy::Vector) && sqlite ==> {
            &&& res matches Ok(
                SelectorPlan::Vector { embedding_model: m, embedding_service: s, table_name: t },
            )
            &&& m@ == (match embedding_model {
                Some(x) => x@,
                None => "text-embedding-3-small"@,
            })
            &&& s@ == (match embedding_service {
                Some(x) => x@,
                None => "openai"@,
            })
            &&& t@ == (match table_name {
                Some(x) => x@,
                None => "tool_selector"@,
            })
        },
{
    match strategy {
        Some(RouterToolSelectionStrategy::Vector) => {
            if !sqlite {
                return Err(
                    "Vector tool selection requires the 'vectordb-sqlite' feature to be enabled".to_owned(),
                );
            }
            Ok(
                SelectorPlan::Vector {
                    embedding_model: match embedding_model {
                        Some(x) => x,
                        None => "text-embedding-3-small".to_owned(),
                    },
                    embedding_service: match embedding_service {
                        Some(x) => x,
                        None => "openai".to_owned(),
                    },
                    table_name: match table_name {
                        Some(x) => x,
                        None => "tool_selector".to_owned(),
                    },
                },
            )
        },
        Some(RouterToolSelectionStrategy::Llm) => Ok(SelectorPlan::Llm),
        None => Ok(SelectorPlan::Llm),
    }
}

/// The text of the error where the service for embeddings cannot be created.
pub fn service_error(embedding_service: &str) -> (res: String)
    ensures
        res@ == "Failed to create "@ + embedding_service@
            + " service for embeddings. If using OpenAI, make sure OPENAI_API_KEY env var is set."@,
{
    "Failed to create ".to_owned().concat(embedding_service).concat(
        " service for embeddings. If using OpenAI, make sure OPENAI_API_KEY env var is set.",
    )
}

} // verus!
