//! What holds of the tool selectors: of the texts of tools, of what is found and what is indexed.
use crate::json::{
    json_str_of, json_u64_of, member_in, object_members, object_pretty_of,
};
use crate::llm_tool_selector::{
    add_tool_text, all_tools, join_tools, tool_entries, tools_among, values_of, with_tools,
    LLMToolSelector, ModelReply, ToolSelectorContext,
};
use crate::metadata::{distinct_keys, lists};
use crate::router_tool_selector::{
    actor_reply, after_call, after_calls, check_selection, create_tool_selector, lemma_last_calls,
    new_records, newest_first, number_param, or_empty_schema, record_views, service_error,
    text_param, tool_to_embed_text, tool_to_text, ActorReply, ErrorCode, ErrorData, IndexAction,
    IndexRun, RecentToolCalls, RouterToolSelectionStrategy, SelectRequest, SelectableTool,
    SelectorPlan, ToolSearch, VectorToolActor,
};
use crate::search_laws::in_order;
use crate::text::{contains_text, split_of, trim_of, views};
use crate::text_laws::{glued, lemma_contains_means, lemma_joined};
use crate::tool_vectordb::{IndexedToolView, ToolRecord};
use vstd::prelude::*;

verus! {

/// The error has the code for errors inside, and the text.
pub open spec fn fails_inside(e: ErrorData, text: Seq<char>) -> bool {
    e.code == ErrorCode::InternalError && e.message@ == text
}

/// The error has the code for bad parameters, and the text.
pub open spec fn fails_params(e: ErrorData, text: Seq<char>) -> bool {
    e.code == ErrorCode::InvalidParams && e.message@ == text
}

/// The texts of a list are the views of its strings, one for one.
pub proof fn lemma_views(texts: Seq<String>)
    ensures
        views(texts).len() == texts.len(),
        forall|i: int| 0 <= i < texts.len() ==> #[trigger] views(texts)[i] == texts[i]@,
        forall|i: int| 0 <= i < texts.len() ==> (#[trigger] texts[i])@ == views(texts)[i],
{
}

// ---------------------------------------------------------------------------------------------
// The texts of tools
// ---------------------------------------------------------------------------------------------
/// The text of a tool is its name, the whole of its description and the whole of its schema, each
/// behind its heading: nothing is left out and nothing else stands in it.
pub proof fn lemma_tool_to_text(name: &str, description: &str, schema: &str, text: String)
    requires
        call_ensures(tool_to_text, (name, description, schema), text),
    ensures
        text@ == "Tool: "@ + name@ + "\nDescription: "@ + description@ + "\nSchema: "@ + schema@,
        text@.len() == "Tool: "@.len() + name@.len() + "\nDescription: "@.len() + description@.len()
            + "\nSchema: "@.len() + schema@.len(),
        forall|i: int|
            0 <= i < name@.len() ==> #[trigger] name@[i] == text@["Tool: "@.len() + i],
        forall|i: int|
            0 <= i < description@.len() ==> #[trigger] description@[i] == text@["Tool: "@.len()
                + name@.len() + "\nDescription: "@.len() + i],
        forall|i: int|
            0 <= i < schema@.len() ==> #[trigger] schema@[i] == text@[text@.len() - schema@.len()
                + i],
{
}

/// The text that is embedded for a tool is its name, the whole of its description and the whole of
/// its schema, with a space between them.
pub proof fn lemma_tool_to_embed_text(name: &str, description: &str, schema: &str, text: String)
    requires
        call_ensures(tool_to_embed_text, (name, description, schema), text),
    ensures
        text@ == name@ + " "@ + description@ + " "@ + schema@,
        text@.len() == name@.len() + description@.len() + schema@.len() + 2,
{
    reveal_strlit(" ");
}

/// A schema that cannot be written is the empty object; any other is kept as it is.
pub proof fn lemma_schema_or_empty(schema: Option<String>, res: String)
    requires
        call_ensures(or_empty_schema, (schema,), res),
    ensures
        schema matches Some(s) ==> res@ == s@,
        schema is None ==> res@ == "{}"@,
{
}

/// Every tool that was found is answered with its own text, in the order in which they were found,
/// and nothing else is. A search that failed is answered with its reason.
pub proof fn lemma_found_texts(
    actor: &VectorToolActor,
    found: Result<Vec<ToolRecord>, String>,
    res: Result<Vec<String>, ErrorData>,
)
    requires
        call_ensures(VectorToolActor::on_tools_found, (actor, found), res),
    ensures
        found matches Ok(tools) ==> {
            &&& res matches Ok(texts)
            &&& texts@.len() == tools@.len()
            &&& forall|i: int|
                0 <= i < tools@.len() ==> (#[trigger] texts@[i])@ == "Tool: "@ + tools@[i].tool_name@
                    + "\nDescription: "@ + tools@[i].description@ + "\nSchema: "@
                    + tools@[i].schema@
        },
        found matches Err(reason) ==> {
            &&& res matches Err(e)
            &&& fails_inside(e, "Failed to search tools: "@ + reason@)
        },
{
    if found is Ok {
        lemma_views(res->Ok_0@);
        assert(record_views(found->Ok_0@).len() == found->Ok_0@.len());
    }
}

/// Every tool that is to be indexed has its text: its name, its description if it has one, and
/// its schema laid out in full, in the order of the tools. Without support for embeddings there
/// are no texts.
pub proof fn lemma_texts_to_embed(
    actor: &VectorToolActor,
    tools: &Vec<SelectableTool>,
    supported: bool,
    res: Result<Vec<String>, ErrorData>,
)
    requires
        call_ensures(VectorToolActor::handle_index_tools, (actor, tools, supported), res),
    ensures
        supported ==> {
            &&& res matches Ok(texts)
            &&& texts@.len() == tools@.len()
            &&& forall|i: int|
                0 <= i < tools@.len() ==> (#[trigger] texts@[i])@ == tools@[i].name@ + " "@ + (
                match tools@[i].description {
                    Some(d) => d@,
                    None => ""@,
                }) + " "@ + object_pretty_of(object_members(tools@[i].input_schema))
        },
        !supported ==> {
            &&& res matches Err(e)
            &&& fails_inside(e, "Embedding provider does not support embeddings"@)
        },
{
    if supported {
        lemma_views(res->Ok_0@);
        reveal_strlit("");
        assert(""@ =~= Seq::<char>::empty());
    }
}

/// Every tool with an embedding becomes a record with its name, its description if it has one,
/// its schema, its own embedding and the extension, in the order of the tools; the first of them
/// is looked up first. Embeddings that could not be made are answered with the reason.
pub proof fn lemma_tool_records(
    actor: &VectorToolActor,
    tools: &Vec<SelectableTool>,
    extension_name: &str,
    embeddings: Result<Vec<Vec<u32>>, String>,
    res: Result<(IndexRun, IndexAction), ErrorData>,
)
    requires
        call_ensures(
            VectorToolActor::on_tool_embeddings,
            (actor, tools, extension_name, embeddings),
            res,
        ),
    ensures
        embeddings matches Ok(vectors) ==> {
            &&& res matches Ok((run, action))
            &&& run.records@.len() == (if tools@.len() < vectors@.len() {
                tools@.len()
            } else {
                vectors@.len()
            })
            &&& forall|i: int|
                0 <= i < run.records@.len() ==> {
                    let r = #[trigger] run.records@[i];
                    &&& r.tool_name@ == tools@[i].name@
                    &&& r.description@ == (match tools@[i].description {
                        Some(d) => d@,
                        None => ""@,
                    })
                    &&& r.schema@ == object_pretty_of(object_members(tools@[i].input_schema))
                    &&& r.vector@ == vectors@[i]@
                    &&& r.extension_name@ == extension_name@
                }
            &&& run.next == 0
            &&& run.fresh@.len() == 0
            &&& run.records@.len() == 0 ==> action == IndexAction::Done(Ok(()))
            &&& run.records@.len() > 0 ==> {
                &&& action matches IndexAction::Search { vector, k, extension_name: e }
                &&& vector@ == vectors@[0]@
                &&& k == 1
                &&& e@ == extension_name@
            }
        },
        embeddings matches Err(reason) ==> {
            &&& res matches Err(e)
            &&& fails_inside(e, "Failed to generate tool embeddings: "@ + reason@)
        },
{
    if embeddings is Ok {
        let run = (res->Ok_0).0;
        let action = (res->Ok_0).1;
        reveal_strlit("");
        assert(""@ =~= Seq::<char>::empty());
        assert(record_views(run.records@).len() == run.records@.len());
        assert forall|i: int| 0 <= i < run.records@.len() implies (#[trigger] run.records@[i])@
            == record_views(run.records@)[i] by {}
        assert(record_views(run.records@).take(0) =~= Seq::empty());
        assert(record_views(run.fresh@).len() == 0);
        lemma_next_step(run, action);
        if run.records@.len() > 0 {
            assert(run.records@[0]@ == record_views(run.records@)[0]);
        }
    }
}

// ---------------------------------------------------------------------------------------------
// Indexing
// ---------------------------------------------------------------------------------------------
/// While there are records to look up, the next one is searched for: one nearest tool to its own
/// embedding, in its own extension. Then the new records are all put into the store, as they
/// are and in order, if there are any.
pub proof fn lemma_next_step(run: IndexRun, action: IndexAction)
    requires
        run.next_is(action),
    ensures
        run.next < run.records@.len() ==> {
            let record = run.records@[run.next as int];
            &&& action matches IndexAction::Search { vector, k, extension_name }
            &&& vector@ == record.vector@
            &&& k == 1
            &&& extension_name@ == record.extension_name@
        },
        run.next >= run.records@.len() && run.fresh@.len() > 0 ==> {
            &&& action matches IndexAction::Index { records }
            &&& records@.len() == run.fresh@.len()
            &&& forall|i: int|
                0 <= i < records@.len() ==> {
                    let r = #[trigger] records@[i];
                    &&& r.tool_name@ == run.fresh@[i].tool_name@
                    &&& r.description@ == run.fresh@[i].description@
                    &&& r.schema@ == run.fresh@[i].schema@
                    &&& r.vector@ == run.fresh@[i].vector@
                    &&& r.extension_name@ == run.fresh@[i].extension_name@
                }
        },
        run.next >= run.records@.len() && run.fresh@.len() == 0 ==> action == IndexAction::Done(
            Ok(()),
        ),
{
    if run.next >= run.records@.len() && run.fresh@.len() > 0 {
        let records = action->Index_records;
        assert(record_views(records@).len() == records@.len());
        assert(record_views(run.fresh@).len() == run.fresh@.len());
        assert forall|i: int| 0 <= i < records@.len() implies (#[trigger] records@[i])@
            == run.fresh@[i]@ by {
            assert(record_views(records@)[i] == records@[i]@);
            assert(record_views(run.fresh@)[i] == run.fresh@[i]@);
        }
    }
}

/// One of the tools bears the name.
pub open spec fn bears(tools: Seq<IndexedToolView>, name: Seq<char>) -> bool {
    exists|i: int| 0 <= i < tools.len() && (#[trigger] tools[i]).tool_name == name
}

/// The new records are the records for which no tool of their name was found: all of them, and in
/// order.
pub proof fn lemma_new_in_order(
    records: Seq<IndexedToolView>,
    found: Seq<Seq<IndexedToolView>>,
) -> (places: Seq<int>)
    requires
        records.len() <= found.len(),
    ensures
        in_order(places, records.len() as int),
        places.len() == new_records(records, found).len(),
        forall|k: int|
            0 <= k < places.len() ==> new_records(records, found)[k] == records[#[trigger] places[k]]
                && !bears(found[places[k]], records[places[k]].tool_name),
        forall|i: int|
            0 <= i < records.len() && !bears(found[i], (#[trigger] records[i]).tool_name)
                ==> places.contains(i),
    decreases records.len(),
{
    if records.len() == 0 {
        Seq::empty()
    } else {
        let rest = records.drop_last();
        let n = rest.len() as int;
        let before = lemma_new_in_order(rest, found);
        assert forall|i: int| 0 <= i < n implies rest[i] == #[trigger] records[i] by {}
        let last_known = bears(found[n], records[n].tool_name);
        assert(last_known == crate::router_tool_selector::has_name(found[n], records[n].tool_name));
        let places = if last_known {
            before
        } else {
            before.push(n)
        };
        assert forall|k: int| 0 <= k < places.len() implies new_records(records, found)[k]
            == records[#[trigger] places[k]] && !bears(
            found[places[k]],
            records[places[k]].tool_name,
        ) by {
            if k < before.len() {
                assert(places[k] == before[k]);
                assert(rest[before[k]] == records[before[k]]);
            }
        }
        assert forall|i: int|
            0 <= i < records.len() && !bears(
                found[i],
                (#[trigger] records[i]).tool_name,
            ) implies places.contains(i) by {
            if i < n {
                assert(rest[i] == records[i]);
                let k = choose|k: int| 0 <= k < before.len() && before[k] == i;
                assert(places[k] == i);
            } else {
                assert(places[before.len() as int] == i);
            }
        }
        places
    }
}

/// When every record has been looked up, what was put aside for the store are the records for
/// which no tool of their name was found: all of them, in order, each with everything it holds.
pub proof fn lemma_fresh_records(run: IndexRun, found: Seq<Seq<IndexedToolView>>) -> (places: Seq<
    int,
>)
    requires
        run.looked_up(found),
        run.next == run.records@.len(),
    ensures
        in_order(places, run.records@.len() as int),
        places.len() == run.fresh@.len(),
        forall|k: int|
            0 <= k < places.len() ==> {
                let fresh = run.fresh@[k];
                let record = run.records@[#[trigger] places[k]];
                &&& fresh.tool_name@ == record.tool_name@
                &&& fresh.description@ == record.description@
                &&& fresh.schema@ == record.schema@
                &&& fresh.vector@ == record.vector@
                &&& fresh.extension_name@ == record.extension_name@
            },
        forall|i: int|
            0 <= i < run.records@.len() ==> (places.contains(i) <==> !bears(
                found[i],
                (#[trigger] run.records@[i]).tool_name@,
            )),
{
    let all = record_views(run.records@);
    assert(all.take(all.len() as int) =~= all);
    let places = lemma_new_in_order(all, found);
    let fresh = record_views(run.fresh@);
    assert forall|k: int| 0 <= k < places.len() implies {
        let f = run.fresh@[k];
        let record = run.records@[#[trigger] places[k]];
        &&& f.tool_name@ == record.tool_name@
        &&& f.description@ == record.description@
        &&& f.schema@ == record.schema@
        &&& f.vector@ == record.vector@
        &&& f.extension_name@ == record.extension_name@
    } by {
        assert(fresh[k] == run.fresh@[k]@);
        assert(all[places[k]] == run.records@[places[k]]@);
    }
    assert forall|i: int| 0 <= i < run.records@.len() implies (places.contains(i) <==> !bears(
        found[i],
        (#[trigger] run.records@[i]).tool_name@,
    )) by {
        assert(all[i] == run.records@[i]@);
        if places.contains(i) {
            let k = choose|k: int| 0 <= k < places.len() && places[k] == i;
            assert(!bears(found[places[k]], all[places[k]].tool_name));
        }
    }
    places
}

/// Records that are written down by their views are the same records, one for one.
pub proof fn lemma_record_views(records: Seq<ToolRecord>)
    ensures
        record_views(records).len() == records.len(),
        forall|i: int|
            0 <= i < records.len() ==> {
                let v = #[trigger] record_views(records)[i];
                &&& v.tool_name == records[i].tool_name@
                &&& v.description == records[i].description@
                &&& v.schema == records[i].schema@
                &&& v.vector == records[i].vector@
                &&& v.extension_name == records[i].extension_name@
            },
{
}

/// The end of indexing, and of removing a tool: the failure of the store, with what was being done.
pub proof fn lemma_store_failures(
    actor: &VectorToolActor,
    tool_name: &str,
    result: Result<(), String>,
    indexed: Result<(), ErrorData>,
    removed: Result<(), ErrorData>,
)
    requires
        call_ensures(VectorToolActor::on_indexed, (actor, result), indexed),
        call_ensures(VectorToolActor::handle_remove_tool, (actor, tool_name, result), removed),
    ensures
        result is Ok ==> indexed is Ok && removed is Ok,
        result matches Err(reason) ==> {
            &&& indexed matches Err(e)
            &&& fails_inside(e, "Failed to index tools: "@ + reason@)
        },
        result matches Err(reason) ==> {
            &&& removed matches Err(e)
            &&& fails_inside(e, "Failed to remove tool "@ + tool_name@ + ": "@ + reason@)
        },
{
}

// ---------------------------------------------------------------------------------------------
// Selecting
// ---------------------------------------------------------------------------------------------
/// A parameter is read as what the member of its name holds.
pub proof fn lemma_params(params: serde_json::Value, key: Seq<char>)
    ensures
        member_in(params, key) is None ==> text_param(params, key) is None && number_param(
            params,
            key,
        ) is None,
        member_in(params, key) matches Some(member) ==> text_param(params, key) == json_str_of(
            member,
        ) && number_param(params, key) == json_u64_of(member),
{
}

/// A selection keeps its query, how many tools it wants, five where it does not say, and its
/// extension. Without a query it is refused, and so it is without support for embeddings.
pub proof fn lemma_selection(
    query: Option<String>,
    k: Option<u64>,
    extension_name: Option<String>,
    supported: bool,
    res: Result<SelectRequest, ErrorData>,
)
    requires
        call_ensures(check_selection, (query, k, extension_name, supported), res),
    ensures
        query is None ==> {
            &&& res matches Err(e)
            &&& fails_params(e, "Missing 'query' parameter"@)
        },
        query is Some && !supported ==> {
            &&& res matches Err(e)
            &&& fails_inside(e, "Embedding provider does not support embeddings"@)
        },
        query is Some && supported ==> {
            &&& res matches Ok(r)
            &&& r.query@ == query->0@
            &&& k is None ==> r.k == 5
            &&& k is Some && k->0 <= usize::MAX ==> r.k == k->0
            &&& extension_name is None <==> r.extension_name is None
            &&& extension_name is Some ==> r.extension_name->0@ == extension_name->0@
        },
{
}

/// The parameters of a selection are the members `query`, `k` and `extension_name`.
pub proof fn lemma_selection_params(
    actor: &VectorToolActor,
    params: &serde_json::Value,
    supported: bool,
    res: Result<SelectRequest, ErrorData>,
)
    requires
        call_ensures(VectorToolActor::handle_select_tools, (actor, params, supported), res),
    ensures
        text_param(*params, "query"@) is None ==> {
            &&& res matches Err(e)
            &&& fails_params(e, "Missing 'query' parameter"@)
        },
        text_param(*params, "query"@) is Some && supported ==> {
            &&& res matches Ok(r)
            &&& r.query@ == text_param(*params, "query"@)->0
            &&& number_param(*params, "k"@) is None ==> r.k == 5
            &&& number_param(*params, "k"@) matches Some(n) ==> n <= usize::MAX ==> r.k == n
            &&& (match r.extension_name {
                Some(e) => Some(e@),
                None => None,
            }) == text_param(*params, "extension_name"@)
        },
        text_param(*params, "query"@) is Some && !supported ==> {
            &&& res matches Err(e)
            &&& fails_inside(e, "Embedding provider does not support embeddings"@)
        },
{
}

/// What is searched for is the first embedding that came back, as many tools and in the extension
/// that the selection asks for. None at all is an error, and so is a failure.
pub proof fn lemma_query_embedding(
    actor: &VectorToolActor,
    request: SelectRequest,
    embeddings: Result<Vec<Vec<u32>>, String>,
    res: Result<ToolSearch, ErrorData>,
)
    requires
        call_ensures(VectorToolActor::on_query_embedding, (actor, request, embeddings), res),
    ensures
        embeddings matches Err(reason) ==> {
            &&& res matches Err(e)
            &&& fails_inside(e, "Failed to generate query embedding: "@ + reason@)
        },
        embeddings matches Ok(vectors) ==> vectors@.len() == 0 ==> {
            &&& res matches Err(e)
            &&& fails_inside(e, "No embedding returned"@)
        },
        embeddings matches Ok(vectors) ==> vectors@.len() > 0 ==> {
            &&& res matches Ok(s)
            &&& s.query@ == vectors@[0]@
            &&& s.k == request.k
            &&& s.extension_name == request.extension_name
        },
{
}

/// An answer is handed on as it is; without one there is an error that says which way it got lost.
pub proof fn lemma_answer<T>(reply: ActorReply<T>, res: Result<T, ErrorData>)
    requires
        call_ensures(actor_reply::<T>, (reply,), res),
    ensures
        reply matches ActorReply::Answer(answer) ==> res == answer,
        reply is NotSent ==> {
            &&& res matches Err(e)
            &&& fails_inside(e, "Vector tool selector actor is not available"@)
        },
        reply is NoAnswer ==> {
            &&& res matches Err(e)
            &&& fails_inside(e, "Failed to receive response from vector tool selector"@)
        },
{
}

/// Tools are selected by embeddings only where that is asked for and the store is there; the
/// model, the provider and the table are those that are named, or else the usual ones.
pub proof fn lemma_selector(
    sqlite: bool,
    strategy: Option<RouterToolSelectionStrategy>,
    table_name: Option<String>,
    embedding_model: Option<String>,
    embedding_service: Option<String>,
    res: Result<SelectorPlan, String>,
)
    requires
        call_ensures(
            create_tool_selector,
            (sqlite, strategy, table_name, embedding_model, embedding_service),
            res,
        ),
    ensures
        strategy is None || strategy->0 is Llm ==> {
            &&& res matches Ok(plan)
            &&& plan is Llm
        },
        strategy is Some && strategy->0 is Vector ==> (res is Ok <==> sqlite),
        res matches Err(text) ==> text@
            == "Vector tool selection requires the 'vectordb-sqlite' feature to be enabled"@,
        strategy is Some && strategy->0 is Vector && sqlite ==> {
            &&& res matches Ok(
                SelectorPlan::Vector { embedding_model: m, embedding_service: s, table_name: t },
            )
            &&& embedding_model matches Some(x) ==> m@ == x@
            &&& embedding_model is None ==> m@ == "text-embedding-3-small"@
            &&& embedding_service matches Some(x) ==> s@ == x@
            &&& embedding_service is None ==> s@ == "openai"@
            &&& table_name matches Some(x) ==> t@ == x@
            &&& table_name is None ==> t@ == "tool_selector"@
        },
{
}

/// The error where the service for embeddings cannot be created names the service.
pub proof fn lemma_service_error(service: &str, res: String)
    requires
        call_ensures(service_error, (service,), res),
    ensures
        res@ == "Failed to create "@ + service@
            + " service for embeddings. If using OpenAI, make sure OPENAI_API_KEY env var is set."@,
{
}

// ---------------------------------------------------------------------------------------------
// Recent calls
// ---------------------------------------------------------------------------------------------
/// After any calls, the recent calls are the last ones, the newest first: as many as are asked
/// for, as there were, and up to a hundred.
pub proof fn lemma_recent_calls(
    calls: &RecentToolCalls,
    names: Seq<Seq<char>>,
    limit: usize,
    res: Vec<String>,
)
    requires
        calls@ == after_calls(Seq::empty(), names),
        call_ensures(RecentToolCalls::get_recent_tool_calls, (calls, limit), res),
    ensures
        res@.len() <= limit,
        res@.len() <= names.len(),
        res@.len() <= 100,
        res@.len() == limit || res@.len() == names.len() || res@.len() == 100,
        forall|i: int|
            0 <= i < res@.len() ==> (#[trigger] res@[i])@ == names[names.len() - 1 - i],
{
    lemma_last_calls(names);
    lemma_views(res@);
    assert(res@.len() == newest_first(calls@, limit).len());
}

/// One more call stands last, behind the calls before it, of which the oldest one is forgotten
/// only where there are a hundred of them.
pub proof fn lemma_one_more_call(calls: Seq<Seq<char>>, name: Seq<char>)
    requires
        calls.len() <= 100,
    ensures
        after_call(calls, name).last() == name,
        calls.len() < 100 ==> after_call(calls, name).drop_last() == calls,
        calls.len() == 100 ==> after_call(calls, name).drop_last() == calls.subrange(1, 100),
{
    let after = after_call(calls, name);
    if calls.len() < 100 {
        assert(after.drop_last() =~= calls);
    } else {
        assert(after.drop_last() =~= calls.subrange(1, 100));
    }
}

/// The owner of the tool store answers with the recent calls that it remembers.
pub proof fn lemma_owner_recent_calls(
    actor: &VectorToolActor,
    limit: usize,
    res: Vec<String>,
)
    requires
        call_ensures(VectorToolActor::handle_get_recent_tool_calls, (actor, limit), res),
    ensures
        ({
            let calls = actor.recent_tool_calls@;
            &&& res@.len() == (if limit < calls.len() {
                limit as nat
            } else {
                calls.len()
            })
            &&& forall|i: int|
                0 <= i < res@.len() ==> (#[trigger] res@[i])@ == calls[calls.len() - 1 - i]
        }),
{
    lemma_views(res@);
}

// ---------------------------------------------------------------------------------------------
// Asking a model
// ---------------------------------------------------------------------------------------------
/// The text stands somewhere in the other.
pub open spec fn stands_in(part: Seq<char>, text: Seq<char>) -> bool {
    exists|a: Seq<char>, b: Seq<char>| text == #[trigger] (a + part + b)
}

/// An extension's text gets a tool's whole text behind it, with an empty line between, unless the
/// tool's name stands in it already: then it stays as it was.
pub proof fn lemma_tool_added(existing: Option<String>, name: &str, text: String, res: String)
    requires
        call_ensures(add_tool_text, (existing, name, text), res),
    ensures
        existing is None ==> res@ == text@,
        existing matches Some(tools) ==> stands_in("Tool: "@ + name@, tools@) ==> res@ == tools@,
        existing matches Some(tools) ==> !stands_in("Tool: "@ + name@, tools@) && tools@.len() > 0
            ==> res@ == tools@ + "\n\n"@ + text@,
        existing matches Some(tools) ==> tools@.len() == 0 ==> res@ == text@,
{
    if existing is Some {
        let tools = existing->0@;
        lemma_contains_means(tools, "Tool: "@ + name@);
        if tools.len() == 0 && contains_text(tools, "Tool: "@ + name@) {
            reveal_strlit("Tool: ");
            let (a, b) = choose|a: Seq<char>, b: Seq<char>|
                tools == #[trigger] (a + ("Tool: "@ + name@) + b);
            assert((a + ("Tool: "@ + name@) + b).len() > 0);
        }
    }
}

/// After tools of an extension were indexed, its text is the one before, with the whole texts of
/// some of the tools behind it, in order. A tool is left out only if its name stood in the text
/// already. The texts of other extensions stay.
pub proof fn lemma_model_index(
    texts: Map<Seq<char>, Seq<char>>,
    tools: Seq<SelectableTool>,
    extension_name: Seq<char>,
    i: int,
)
    requires
        0 <= i < tools.len(),
    ensures
        ({
            let before = with_tools(texts, tools.take(i), extension_name);
            let after = with_tools(texts, tools.take(i + 1), extension_name);
            let text = "Tool: "@ + tools[i].name@ + "\nDescription: "@ + (match tools[i].description {
                Some(d) => d@,
                None => ""@,
            }) + "\nSchema: "@ + object_pretty_of(object_members(tools[i].input_schema));
            &&& after.dom() == before.dom().insert(extension_name)
            &&& forall|other: Seq<char>|
                other != extension_name && before.dom().contains(other) ==> #[trigger] after[other]
                    == before[other]
            &&& !before.dom().contains(extension_name) || before[extension_name].len() == 0
                ==> after[extension_name] == text
            &&& before.dom().contains(extension_name) && stands_in(
                "Tool: "@ + tools[i].name@,
                before[extension_name],
            ) ==> after[extension_name] == before[extension_name]
            &&& before.dom().contains(extension_name) && before[extension_name].len() > 0
                && !stands_in("Tool: "@ + tools[i].name@, before[extension_name])
                ==> after[extension_name] == before[extension_name] + "\n\n"@ + text
        }),
        with_tools(texts, tools.take(0), extension_name) == texts,
        with_tools(texts, tools.take(tools.len() as int), extension_name) == with_tools(
            texts,
            tools,
            extension_name,
        ),
{
    let before = with_tools(texts, tools.take(i), extension_name);
    let after = with_tools(texts, tools.take(i + 1), extension_name);
    let mark = "Tool: "@ + tools[i].name@;
    assert(tools.take(i + 1).drop_last() =~= tools.take(i));
    assert(tools.take(tools.len() as int) =~= tools);
    assert(tools.take(0) =~= Seq::empty());
    reveal_strlit("");
    assert(""@ =~= Seq::<char>::empty());
    assert(after.dom() =~= before.dom().insert(extension_name));
    if before.dom().contains(extension_name) {
        let tools_text = before[extension_name];
        lemma_contains_means(tools_text, mark);
        if tools_text.len() == 0 && contains_text(tools_text, mark) {
            reveal_strlit("Tool: ");
            let (a, b) = choose|a: Seq<char>, b: Seq<char>|
                tools_text == #[trigger] (a + mark + b);
            assert((a + mark + b).len() > 0);
        }
    }
}

/// All tools as one text are the texts of all extensions, each on lines of its own.
pub proof fn lemma_all_tools(entries: &Vec<(String, String)>, res: Option<String>)
    requires
        call_ensures(join_tools, (entries,), res),
    ensures
        res is None <==> entries@.len() == 0,
        res matches Some(text) ==> text@ == glued(
            Seq::new(entries@.len(), |i: int| entries@[i].1@),
            "\n"@,
        ),
{
    if entries@.len() > 0 {
        let values = Seq::new(entries@.len(), |i: int| entries@[i].1@);
        assert(values =~= values_of(entries@));
        lemma_joined(values, "\n"@);
    }
}

/// What the model is asked with: the query, and the whole text of the extension that is named, or
/// of all extensions. There is nothing to ask where there is no such text.
pub proof fn lemma_model_question(
    selector: &LLMToolSelector,
    params: &serde_json::Value,
    res: Result<Option<ToolSelectorContext>, ErrorData>,
)
    requires
        call_ensures(LLMToolSelector::select_tools, (selector, params), res),
    ensures
        text_param(*params, "query"@) is None ==> {
            &&& res matches Err(e)
            &&& fails_params(e, "Missing 'query' parameter"@)
        },
        text_param(*params, "query"@) matches Some(query) ==> {
            &&& res is Ok
            &&& res->Ok_0 matches Some(context) ==> context.query@ == query
            &&& text_param(*params, "extension_name"@) matches Some(ext) ==> {
                &&& res->Ok_0 is Some <==> selector.texts().dom().contains(ext)
                &&& res->Ok_0 matches Some(context) ==> context.tools@ == selector.texts()[ext]
            }
            &&& text_param(*params, "extension_name"@) is None ==> {
                &&& res->Ok_0 is None <==> selector.texts().dom() =~= Set::empty()
                &&& res->Ok_0 matches Some(context) ==> forall|ext: Seq<char>|
                    selector.texts().dom().contains(ext) ==> stands_in(
                        #[trigger] selector.texts()[ext],
                        context.tools@,
                    )
            }
        },
{
    if text_param(*params, "query"@) is Some && text_param(*params, "extension_name"@) is None {
        let context = res->Ok_0;
        let asked = match context {
            Some(c) => Some(c.tools@),
            None => None,
        };
        let entries = choose|entries: Seq<(String, String)>|
            {
                &&& lists(entries, selector.texts())
                &&& distinct_keys(entries)
                &&& #[trigger] all_tools(entries) == asked
            };
        let texts = selector.texts();
        if entries.len() == 0 {
            assert forall|ext: Seq<char>| !texts.dom().contains(ext) by {
                if texts.dom().contains(ext) {
                    let i = choose|i: int|
                        0 <= i < entries.len() && (#[trigger] entries[i]).0@ == ext;
                    assert(false);
                }
            }
            assert(texts.dom() =~= Set::empty());
        } else {
            assert(texts.dom().contains(entries[0].0@));
            lemma_joined(values_of(entries), "\n"@);
            assert forall|ext: Seq<char>| texts.dom().contains(ext) implies stands_in(
                #[trigger] texts[ext],
                context->0.tools@,
            ) by {
                let i = choose|i: int| 0 <= i < entries.len() && (#[trigger] entries[i]).0@ == ext;
                lemma_part_of_glued(values_of(entries), "\n"@, i);
                assert(values_of(entries)[i] == texts[ext]);
            }
        }
    }
}

proof fn lemma_part_of_glued(parts: Seq<Seq<char>>, sep: Seq<char>, i: int)
    requires
        0 <= i < parts.len(),
    ensures
        stands_in(parts[i], glued(parts, sep)),
    decreases parts.len(),
{
    let whole = glued(parts, sep);
    if parts.len() == 1 {
        assert(whole =~= Seq::<char>::empty() + parts[i] + Seq::<char>::empty());
    } else if i == 0 {
        assert(whole =~= Seq::<char>::empty() + parts[i] + (sep + glued(parts.skip(1), sep)));
    } else {
        let rest = parts.skip(1);
        lemma_part_of_glued(rest, sep, i - 1);
        let (a, b) = choose|a: Seq<char>, b: Seq<char>|
            glued(rest, sep) == #[trigger] (a + rest[i - 1] + b);
        assert(whole =~= (parts[0] + sep + a) + parts[i] + b);
    }
}

/// The tools in a text that was cut at its empty lines are the paragraphs that begin with `Tool:`
/// once the white space around them is gone: all of them, in order, and nothing else.
pub proof fn lemma_tools_in_order(pieces: Seq<Seq<char>>) -> (places: Seq<int>)
    ensures
        in_order(places, pieces.len() as int),
        places.len() == tools_among(pieces).len(),
        forall|k: int|
            0 <= k < places.len() ==> tools_among(pieces)[k] == trim_of(pieces[#[trigger] places[k]]),
        forall|i: int|
            0 <= i < pieces.len() ==> (places.contains(i) <==> begins(
                "Tool:"@,
                trim_of(#[trigger] pieces[i]),
            )),
    decreases pieces.len(),
{
    if pieces.len() == 0 {
        Seq::empty()
    } else {
        let rest = pieces.drop_last();
        let n = rest.len() as int;
        let before = lemma_tools_in_order(rest);
        assert forall|i: int| 0 <= i < n implies rest[i] == #[trigger] pieces[i] by {}
        let last = trim_of(pieces[n]);
        let is_tool = begins("Tool:"@, last);
        assert(is_tool == "Tool:"@.is_prefix_of(last)) by {
            if "Tool:"@.is_prefix_of(last) {
                assert(last =~= "Tool:"@ + last.skip("Tool:"@.len() as int));
            }
            if is_tool {
                let rest_text = choose|b: Seq<char>| last == #[trigger] ("Tool:"@ + b);
                assert(last.subrange(0, "Tool:"@.len() as int) =~= "Tool:"@);
            }
        }
        let places = if is_tool {
            before.push(n)
        } else {
            before
        };
        assert forall|k: int| 0 <= k < places.len() implies tools_among(pieces)[k] == trim_of(
            pieces[#[trigger] places[k]],
        ) by {
            if k < before.len() {
                assert(places[k] == before[k]);
                assert(rest[before[k]] == pieces[before[k]]);
            }
        }
        assert forall|i: int| 0 <= i < pieces.len() implies (places.contains(i) <==> begins(
            "Tool:"@,
            trim_of(#[trigger] pieces[i]),
        )) by {
            if i < n {
                assert(rest[i] == pieces[i]);
                if before.contains(i) {
                    let k = choose|k: int| 0 <= k < before.len() && before[k] == i;
                    assert(places[k] == i);
                }
                if places.contains(i) {
                    let k = choose|k: int| 0 <= k < places.len() && places[k] == i;
                    assert(before[k] == i);
                }
            } else {
                if is_tool {
                    assert(places[before.len() as int] == i);
                }
                if places.contains(i) && !is_tool {
                    let k = choose|k: int| 0 <= k < places.len() && places[k] == i;
                    assert(before[k] < n);
                }
            }
        }
        places
    }
}

/// The text begins with the other.
pub open spec fn begins(start: Seq<char>, text: Seq<char>) -> bool {
    exists|b: Seq<char>| text == #[trigger] (start + b)
}

/// The answer of a model gives the paragraphs of its text that begin with `Tool:`, without the
/// white space around them: all of them and in order. A failure is answered with its reason.
pub proof fn lemma_model_answer(reply: ModelReply, res: Result<Vec<String>, ErrorData>) -> (places:
    Seq<int>)
    requires
        call_ensures(LLMToolSelector::finish_selection, (reply,), res),
    ensures
        reply matches ModelReply::NotRendered(reason) ==> {
            &&& res matches Err(e)
            &&& fails_inside(e, "Failed to render prompt template: "@ + reason@)
        },
        reply matches ModelReply::Failed(reason) ==> {
            &&& res matches Err(e)
            &&& fails_inside(e, "Failed to search tools: "@ + reason@)
        },
        reply matches ModelReply::Text(text) ==> {
            let pieces = split_of(text@, "\n\n"@);
            &&& res matches Ok(entries)
            &&& in_order(places, pieces.len() as int)
            &&& places.len() == entries@.len()
            &&& forall|k: int|
                0 <= k < entries@.len() ==> (#[trigger] entries@[k])@ == trim_of(pieces[places[k]])
            &&& forall|i: int|
                0 <= i < pieces.len() ==> (places.contains(i) <==> begins(
                    "Tool:"@,
                    trim_of(#[trigger] pieces[i]),
                ))
        },
{
    if reply is Text {
        let pieces = split_of(reply->Text_0@, "\n\n"@);
        let places = lemma_tools_in_order(pieces);
        lemma_views(res->Ok_0@);
        assert forall|k: int| 0 <= k < places.len() implies (#[trigger] (res->Ok_0@)[k])@ == trim_of(
            pieces[places[k]],
        ) by {
            assert(tools_among(pieces)[k] == trim_of(pieces[places[k]]));
        }
        places
    } else {
        Seq::empty()
    }
}

/// The tools of a text are answered as the paragraphs that begin with `Tool:`.
pub proof fn lemma_tool_paragraphs(text: &str, res: Vec<String>) -> (places: Seq<int>)
    requires
        call_ensures(tool_entries, (text,), res),
    ensures
        ({
            let pieces = split_of(text@, "\n\n"@);
            &&& in_order(places, pieces.len() as int)
            &&& places.len() == res@.len()
            &&& forall|k: int|
                0 <= k < res@.len() ==> (#[trigger] res@[k])@ == trim_of(pieces[places[k]])
            &&& forall|i: int|
                0 <= i < pieces.len() ==> (places.contains(i) <==> begins(
                    "Tool:"@,
                    trim_of(#[trigger] pieces[i]),
                ))
        }),
{
    let pieces = split_of(text@, "\n\n"@);
    let places = lemma_tools_in_order(pieces);
    lemma_views(res@);
    assert forall|k: int| 0 <= k < places.len() implies (#[trigger] res@[k])@ == trim_of(
        pieces[places[k]],
    ) by {
        assert(tools_among(pieces)[k] == trim_of(pieces[places[k]]));
    }
    places
}

/// The recent calls of the selector that asks a model are its last ones, the newest first.
pub proof fn lemma_model_recent_calls(selector: &LLMToolSelector, limit: usize, res: Vec<String>)
    requires
        call_ensures(LLMToolSelector::get_recent_tool_calls, (selector, limit), res),
    ensures
        ({
            let calls = selector.calls();
            &&& res@.len() == (if limit < calls.len() {
                limit as nat
            } else {
                calls.len()
            })
            &&& forall|i: int|
                0 <= i < res@.len() ==> (#[trigger] res@[i])@ == calls[calls.len() - 1 - i]
        }),
{
    lemma_views(res@);
}

} // verus!
