use vectordb::health::{features, status};
use vectordb::llm_tool_selector::{
    add_tool_text, join_tools, tool_entries, LLMToolSelector, ModelReply,
};
use vectordb::platform_tools::{
    list_resources_tool, manage_extensions_tool, manage_schedule_tool, read_resource_tool,
    search_available_extensions_tool, search_documents_tool, search_messages_tool,
};
use vectordb::router_tool_selector::{
    actor_reply, check_selection, create_tool_selector, or_empty_schema, service_error,
    tool_to_embed_text, tool_to_text, ActorReply, ErrorCode, ErrorData, IndexAction, IndexRun, RecentToolCalls,
    RouterToolSelectionStrategy, SelectableTool, SelectorPlan, VectorToolActor, VectorToolMessage, VectorToolStep,
};
use vectordb::tool_vectordb::ToolRecord;

fn s(t: &str) -> Option<String> {
    Some(t.to_string())
}

fn internal(text: &str) -> ErrorData {
    ErrorData {
        code: ErrorCode::InternalError,
        message: text.to_string(),
    }
}

fn json(text: &str) -> serde_json::Value {
    serde_json::from_str(text).unwrap()
}

/// A value that is nested the given number of times.
fn nested(times: usize) -> serde_json::Value {
    let mut value = serde_json::Value::Null;
    for _ in 0..times {
        value = serde_json::Value::Array(vec![value]);
    }
    value
}

fn tool(name: &str, description: Option<&str>, schema: &str) -> SelectableTool {
    SelectableTool {
        name: name.to_string(),
        description: description.map(|d| d.to_string()),
        input_schema: serde_json::from_str(schema).unwrap(),
    }
}

fn record(name: &str) -> ToolRecord {
    ToolRecord {
        tool_name: name.to_string(),
        description: format!("about {}", name),
        schema: "{}".to_string(),
        vector: vec![7],
        extension_name: "ext".to_string(),
    }
}

#[test]
fn recent_calls_are_the_last_hundred_newest_first() {
    let mut calls = RecentToolCalls::new();
    assert_eq!(calls.get_recent_tool_calls(5), Vec::<String>::new());
    for i in 0..250 {
        calls.record_tool_call(&format!("tool_{}", i));
    }
    let recent = calls.get_recent_tool_calls(1000);
    assert_eq!(recent.len(), 100);
    assert_eq!(recent[0], "tool_249");
    assert_eq!(recent[99], "tool_150");
    assert_eq!(calls.get_recent_tool_calls(2), vec!["tool_249", "tool_248"]);
    assert_eq!(calls.get_recent_tool_calls(0), Vec::<String>::new());
}

#[test]
fn selections_are_checked() {
    let actor = VectorToolActor::new();
    let r = actor
        .handle_select_tools(&json(r#"{"query": "find", "k": 7, "extension_name": "ext"}"#), true)
        .unwrap();
    assert_eq!((r.query.as_str(), r.k, r.extension_name), ("find", 7, s("ext")));
    let r = actor.handle_select_tools(&json(r#"{"query": "find", "k": -1, "extension_name": 3}"#), true).unwrap();
    assert_eq!((r.k, r.extension_name), (5, None));
    let missing = ErrorData {
        code: ErrorCode::InvalidParams,
        message: "Missing 'query' parameter".to_string(),
    };
    assert_eq!(actor.handle_select_tools(&json(r#"{"query": 1}"#), true).unwrap_err(), missing);
    assert_eq!(actor.handle_select_tools(&json("[]"), false).unwrap_err(), missing);
    assert_eq!(
        actor.handle_select_tools(&json(r#"{"query": ""}"#), false).unwrap_err(),
        internal("Embedding provider does not support embeddings")
    );
    assert_eq!(check_selection(s("q"), None, None, true).unwrap().k, 5);
}

#[test]
fn a_selection_goes_from_query_to_texts() {
    let actor = VectorToolActor::new();
    let request = || actor.handle_select_tools(&json(r#"{"query": "q"}"#), true).unwrap();
    let search = actor.on_query_embedding(request(), Ok(vec![vec![1, 2], vec![3]])).unwrap();
    assert_eq!((search.query, search.k, search.extension_name), (vec![1, 2], 5, None));
    assert_eq!(
        actor.on_query_embedding(request(), Ok(vec![])).unwrap_err(),
        internal("No embedding returned")
    );
    assert_eq!(
        actor.on_query_embedding(request(), Err("down".to_string())).unwrap_err(),
        internal("Failed to generate query embedding: down")
    );
    assert_eq!(
        actor.on_tools_found(Ok(vec![record("a")])).unwrap(),
        vec!["Tool: a\nDescription: about a\nSchema: {}"]
    );
    assert_eq!(
        actor.on_tools_found(Err("lost".to_string())).unwrap_err(),
        internal("Failed to search tools: lost")
    );
    assert_eq!(tool_to_embed_text("n", "d", "s"), "n d s");
    assert_eq!(or_empty_schema(None), "{}");
    assert_eq!(or_empty_schema(s("[]")), "[]");
    assert_eq!(tool_to_text("n", "d", "s"), "Tool: n\nDescription: d\nSchema: s");
}

#[test]
fn tools_are_embedded_with_their_schemas() {
    let actor = VectorToolActor::new();
    let tools = vec![
        tool("one", Some("First"), r#"{"b":[1],"a":{}}"#),
        tool("two", None, "{}"),
    ];
    let texts = actor.handle_index_tools(&tools, true).unwrap();
    assert_eq!(
        texts,
        vec![
            "one First {\n  \"a\": {},\n  \"b\": [\n    1\n  ]\n}".to_string(),
            "two  {}".to_string()
        ]
    );
    assert_eq!(
        actor.handle_index_tools(&tools, false).unwrap_err(),
        internal("Embedding provider does not support embeddings")
    );
    assert_eq!(
        actor
            .on_tool_embeddings(&tools, "ext", Err("down".to_string()))
            .unwrap_err(),
        internal("Failed to generate tool embeddings: down")
    );
    let (run, action) = actor.on_tool_embeddings(&tools, "ext", Ok(vec![vec![9]])).unwrap();
    assert_eq!(run.records.len(), 1);
    assert_eq!(run.records[0].tool_name, "one");
    assert_eq!(run.records[0].vector, vec![9]);
    assert_eq!(run.records[0].extension_name, "ext");
    assert!(matches!(action, IndexAction::Search { .. }));
}

#[test]
fn deeply_nested_values_are_read_and_written() {
    let actor = VectorToolActor::new();
    let mut params = json(r#"{"query": "find", "k": 2}"#);
    params["deep"] = nested(300);
    let r = actor.handle_select_tools(&params, true).unwrap();
    assert_eq!((r.query.as_str(), r.k), ("find", 2));
    params["extension_name"] = nested(300);
    assert_eq!(actor.handle_select_tools(&params, true).unwrap().extension_name, None);
    let mut deep = tool("deep", None, "{}");
    deep.input_schema.insert("type".to_string(), nested(300));
    let pretty = serde_json::to_string_pretty(&deep.input_schema).unwrap();
    let texts = actor.handle_index_tools(&vec![deep], true).unwrap();
    assert_eq!(texts, vec![format!("deep  {}", pretty)]);
    assert_eq!(texts[0].matches('[').count(), 300);
}

#[test]
fn only_new_tools_are_indexed() {
    let (mut run, first) = IndexRun::start(vec![record("a"), record("b"), record("c")]);
    match first {
        IndexAction::Search { vector, k, extension_name } => {
            assert_eq!((vector, k, extension_name.as_str()), (vec![7], 1, "ext"));
        }
        other => panic!("{:?}", other),
    }
    assert!(matches!(run.on_search(Ok(vec![])), IndexAction::Search { .. }));
    assert!(matches!(
        run.on_search(Ok(vec![record("x"), record("b")])),
        IndexAction::Search { .. }
    ));
    match run.on_search(Ok(vec![record("x")])) {
        IndexAction::Index { records } => {
            let names: Vec<String> = records.into_iter().map(|r| r.tool_name).collect();
            assert_eq!(names, vec!["a", "c"]);
        }
        other => panic!("{:?}", other),
    }

    let (mut run, _) = IndexRun::start(vec![record("a")]);
    assert!(matches!(run.on_search(Ok(vec![record("a")])), IndexAction::Done(Ok(()))));
    let (mut run, _) = IndexRun::start(vec![record("a")]);
    match run.on_search(Err("gone".to_string())) {
        IndexAction::Done(Err(e)) => {
            assert_eq!(e, internal("Failed to search for existing tools: gone"))
        }
        other => panic!("{:?}", other),
    }
    let (_, nothing) = IndexRun::start(vec![]);
    assert!(matches!(nothing, IndexAction::Done(Ok(()))));
}

#[test]
fn the_owner_of_the_tool_store_answers_requests() {
    let mut actor = VectorToolActor::new();
    assert!(matches!(
        actor.begin(
            VectorToolMessage::RecordToolCall {
                tool_name: "t".to_string()
            },
            false
        ),
        VectorToolStep::Recorded
    ));
    match actor.begin(VectorToolMessage::GetRecentToolCalls { limit: 3 }, false) {
        VectorToolStep::Calls(calls) => assert_eq!(calls, vec!["t"]),
        other => panic!("{:?}", other),
    }
    match actor.begin(
        VectorToolMessage::RemoveTool {
            tool_name: "x".to_string(),
        },
        false,
    ) {
        VectorToolStep::Remove { tool_name } => assert_eq!(tool_name, "x"),
        other => panic!("{:?}", other),
    }
    assert!(matches!(
        actor.begin(
            VectorToolMessage::SelectTools {
                params: json("{\"query\": \"q\"}")
            },
            true
        ),
        VectorToolStep::EmbedQuery(_)
    ));
    assert!(matches!(
        actor.begin(
            VectorToolMessage::SelectTools {
                params: json("{}")
            },
            true
        ),
        VectorToolStep::Failed(_)
    ));
    match actor.begin(
        VectorToolMessage::IndexTools {
            tools: vec![tool("a", None, "{}")],
            extension_name: "ext".to_string(),
        },
        true,
    ) {
        VectorToolStep::EmbedTools { texts, tools, extension_name } => {
            assert_eq!(texts, vec!["a  {}"]);
            assert_eq!(tools.len(), 1);
            assert_eq!(extension_name, "ext");
        }
        other => panic!("{:?}", other),
    }
    assert_eq!(
        actor.handle_remove_tool("x", Err("io".to_string())).unwrap_err(),
        internal("Failed to remove tool x: io")
    );
    assert!(actor.handle_remove_tool("x", Ok(())).is_ok());
    assert_eq!(
        actor.on_indexed(Err("io".to_string())).unwrap_err(),
        internal("Failed to index tools: io")
    );
    assert_eq!(
        actor_reply::<u8>(ActorReply::NotSent).unwrap_err(),
        internal("Vector tool selector actor is not available")
    );
    assert_eq!(
        actor_reply::<u8>(ActorReply::NoAnswer).unwrap_err(),
        internal("Failed to receive response from vector tool selector")
    );
    assert_eq!(actor_reply(ActorReply::Answer(Ok(3))).unwrap(), 3);
}

#[test]
fn the_model_is_asked_with_the_tools_of_an_extension() {
    let mut selector = LLMToolSelector::new();
    assert!(selector.select_tools(&json(r#"{"query": "q"}"#)).unwrap().is_none());
    selector.index_tools(&vec![tool("a__x", Some("X"), "{}"), tool("a__y", None, "{}")], "a");
    let c = selector
        .select_tools(&json(r#"{"query": "q", "extension_name": "a"}"#))
        .unwrap()
        .unwrap();
    let text = "Tool: a__x\nDescription: X\nSchema: {}\n\nTool: a__y\nDescription: \nSchema: {}";
    assert_eq!(c.tools, text);
    assert_eq!(c.query, "q");
    assert!(selector
        .select_tools(&json(r#"{"query": "q", "extension_name": "b"}"#))
        .unwrap()
        .is_none());

    selector.index_tools(&vec![tool("a__y", Some("other"), "{}")], "a");
    let again = selector.select_tools(&json(r#"{"query": "q"}"#)).unwrap().unwrap();
    assert_eq!(again.tools, text);

    selector.index_tools(&vec![tool("b__z", None, "{}")], "b");
    let both = selector.select_tools(&json(r#"{"query": "q"}"#)).unwrap().unwrap();
    let other = "Tool: b__z\nDescription: \nSchema: {}";
    assert!(
        both.tools == format!("{}\n{}", text, other) || both.tools == format!("{}\n{}", other, text)
    );

    selector.remove_tool("a__anything");
    let left = selector.select_tools(&json(r#"{"query": "q"}"#)).unwrap().unwrap();
    assert_eq!(left.tools, other);
    assert_eq!(
        selector.select_tools(&json("{}")).unwrap_err().message,
        "Missing 'query' parameter"
    );
    selector.record_tool_call("t");
    assert_eq!(selector.get_recent_tool_calls(9), vec!["t"]);
}

#[test]
fn tool_texts_are_put_together() {
    assert_eq!(add_tool_text(None, "a", "text".to_string()), "text");
    assert_eq!(add_tool_text(s(""), "a", "text".to_string()), "text");
    assert_eq!(add_tool_text(s("Tool: b"), "a", "text".to_string()), "Tool: b\n\ntext");
    assert_eq!(add_tool_text(s("Tool: ab"), "a", "text".to_string()), "Tool: ab");
    let e = |k: &str, v: &str| (k.to_string(), v.to_string());
    assert_eq!(join_tools(&vec![]), None);
    assert_eq!(join_tools(&vec![e("x", "1"), e("y", "2")]), s("1\n2"));
}

#[test]
fn answers_are_cut_into_tools() {
    assert_eq!(
        tool_entries("Here:\n\n  Tool: a\nDescription: x \n\nnot a tool\n\nTool:b\n\n"),
        vec!["Tool: a\nDescription: x", "Tool:b"]
    );
    assert_eq!(tool_entries(""), Vec::<String>::new());
    assert_eq!(
        LLMToolSelector::finish_selection(ModelReply::Text("Tool: z".to_string())).unwrap(),
        vec!["Tool: z"]
    );
    assert_eq!(
        LLMToolSelector::finish_selection(ModelReply::NotRendered("t".to_string())).unwrap_err(),
        internal("Failed to render prompt template: t")
    );
    assert_eq!(
        LLMToolSelector::finish_selection(ModelReply::Failed("t".to_string())).unwrap_err(),
        internal("Failed to search tools: t")
    );
}

#[test]
fn the_strategy_decides_on_the_selector() {
    let plan = |strategy, table, model, service| {
        create_tool_selector(true, strategy, table, model, service).unwrap()
    };
    assert!(matches!(plan(None, None, None, None), SelectorPlan::Llm));
    assert!(matches!(
        plan(Some(RouterToolSelectionStrategy::Llm), None, None, None),
        SelectorPlan::Llm
    ));
    match plan(Some(RouterToolSelectionStrategy::Vector), None, None, None) {
        SelectorPlan::Vector { embedding_model, embedding_service, table_name } => {
            assert_eq!(embedding_model, "text-embedding-3-small");
            assert_eq!(embedding_service, "openai");
            assert_eq!(table_name, "tool_selector");
        }
        other => panic!("{:?}", other),
    }
    match plan(Some(RouterToolSelectionStrategy::Vector), s("t"), s("m"), s("ollama")) {
        SelectorPlan::Vector { embedding_model, embedding_service, table_name } => {
            assert_eq!((embedding_model, embedding_service, table_name), ("m".to_string(), "ollama".to_string(), "t".to_string()));
        }
        other => panic!("{:?}", other),
    }
    assert_eq!(
        create_tool_selector(false, Some(RouterToolSelectionStrategy::Vector), s("t"), None, None)
            .unwrap_err(),
        "Vector tool selection requires the 'vectordb-sqlite' feature to be enabled"
    );
    assert!(matches!(
        create_tool_selector(false, Some(RouterToolSelectionStrategy::Llm), None, None, None),
        Ok(SelectorPlan::Llm)
    ));
    assert!(matches!(
        create_tool_selector(false, None, None, None, None),
        Ok(SelectorPlan::Llm)
    ));
    assert_eq!(
        service_error("openai"),
        "Failed to create openai service for embeddings. If using OpenAI, make sure OPENAI_API_KEY env var is set."
    );
}

#[test]
fn platform_tools_have_schemas_that_are_objects() {
    let tools = [
        (read_resource_tool(), "platform__read_resource", (true, false, false)),
        (list_resources_tool(), "platform__list_resources", (true, false, false)),
        (
            search_available_extensions_tool(),
            "platform__search_available_extensions",
            (true, false, false),
        ),
        (manage_extensions_tool(), "platform__manage_extensions", (false, false, false)),
        (manage_schedule_tool(), "platform__manage_schedule", (false, true, false)),
        (search_messages_tool(), "platform__search_messages", (true, false, true)),
        (search_documents_tool(), "platform__search_documents", (true, false, true)),
    ];
    for (tool, name, hints) in tools {
        assert_eq!(tool.name, name);
        let schema: serde_json::Value = serde_json::from_str(&tool.input_schema).unwrap();
        assert_eq!(schema["type"], "object");
        let a = tool.annotations.unwrap();
        assert_eq!(
            (a.read_only_hint, a.destructive_hint, a.idempotent_hint, a.open_world_hint),
            (Some(hints.0), Some(hints.1), Some(hints.2), Some(false))
        );
    }
    let schedule = manage_schedule_tool();
    assert!(schedule
        .description
        .unwrap()
        .starts_with("Manage scheduled recipe execution for this Goose instance.\n\nActions:\n- \"list\": List all scheduled jobs\n"));
    let schema: serde_json::Value =
        serde_json::from_str(&search_messages_tool().input_schema).unwrap();
    assert_eq!(schema["properties"]["limit"]["maximum"], 20);
    assert_eq!(schema["required"][0], "query");
}

#[test]
fn the_server_says_that_it_is_well() {
    assert_eq!(status().status, "ok");
    assert_eq!(features(true).features, vec![("vectordb-sqlite".to_string(), true)]);
    assert_eq!(features(false).features, vec![("vectordb-sqlite".to_string(), false)]);
}
