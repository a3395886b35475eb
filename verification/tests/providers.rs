use vectordb::embedding::{EmbeddingData, EmbeddingResponse, EmbeddingService};
use vectordb::errors::ProviderError;
use vectordb::metadata::Metadata;
use vectordb::ollama::{
    add_scheme, clean_up_reasoning, collect_embeddings, keep_numbers, read_bare_embedding,
    read_embedding, OllamaEmbedPlan, OllamaProvider, OllamaReply,
};
use vectordb::openai::{
    answer_models, fetch_supported_models, parse_custom_headers, read_embeddings, split_base_url,
    EmbeddingReply, OpenAiEmbedPlan, OpenAiProvider,
};
use vectordb::provider::CustomProviderConfig;
use vectordb::sorting::{sort_texts, stands_before};
use vectordb::web::{headers_error, UrlParts};

fn s(t: &str) -> Option<String> {
    Some(t.to_string())
}

fn ollama(host: &str) -> OllamaProvider {
    OllamaProvider::from_env("qwen3".to_string(), s(host), s("nomic-embed-text"), None)
}

fn openai(host: &str) -> OpenAiProvider {
    OpenAiProvider::from_env(
        "gpt-4o".to_string(),
        "key".to_string(),
        s(host),
        None,
        None,
        None,
        None,
        None,
    )
}

fn config(url: &str) -> CustomProviderConfig {
    CustomProviderConfig {
        api_key_env: "MY_KEY".to_string(),
        base_url: url.to_string(),
        timeout_seconds: None,
        headers: None,
        supports_streaming: None,
    }
}

fn failed(text: &str) -> ProviderError {
    ProviderError::RequestFailed(text.to_string())
}

#[test]
fn test_ollama_embedding_capabilities() {
    let provider = OllamaProvider::from_env(
        "qwen3".to_string(),
        s("http://localhost:11434"),
        s("nomic-embed-text:latest"),
        None,
    );
    assert!(provider.supports_embeddings(), "Ollama should support embeddings");
    let capabilities = provider
        .embedding_capabilities()
        .expect("Should have embedding capabilities");
    assert!(
        !capabilities.models.is_empty(),
        "Should have at least one embedding model"
    );
    assert_eq!(capabilities.default_model, "nomic-embed-text:latest");
    assert!(capabilities.max_batch_size > 0);
    assert_eq!(capabilities.max_batch_size, 32);
    assert_eq!(capabilities.models[0].dimensions, 1024);
    assert_eq!(capabilities.models[0].max_input_tokens, 2048);
}

#[test]
fn ollama_dimensions_are_known_for_some_models() {
    let dims = |model: Option<String>| {
        OllamaProvider::from_env("nomic-embed-text".to_string(), None, model, None)
            .embedding_capabilities()
            .unwrap()
            .models[0]
            .dimensions
    };
    assert_eq!(dims(None), 768);
    assert_eq!(dims(s("mxbai-embed-large")), 1024);
    assert_eq!(dims(s("something")), 1024);
}

#[test]
fn ollama_hosts_become_urls() {
    let url = |host: &str| ollama(host).get_base_url();
    assert_eq!(url("localhost").unwrap(), "http://localhost:11434/");
    assert_eq!(url("localhost:8080").unwrap(), "http://localhost:8080/");
    assert_eq!(url("http://localhost:11434").unwrap(), "http://localhost:11434/");
    assert_eq!(url("localhost:80").unwrap(), "http://localhost/");
    assert_eq!(url("https://ollama.example").unwrap(), "https://ollama.example/");
    assert_eq!(url("http://example:443").unwrap(), "http://example:443/");
    assert_eq!(
        url("http://").unwrap_err(),
        failed("Invalid base URL: empty host")
    );
    assert_eq!(add_scheme("a"), "http://a");
    assert_eq!(add_scheme("https://a"), "https://a");
    let provider = OllamaProvider::from_env("m".to_string(), None, None, s("7").map(|_| 7));
    assert_eq!(provider.host, "localhost");
    assert_eq!(provider.timeout_secs, 7);
    assert_eq!(ollama("x").timeout_secs, 600);
    assert_eq!(
        ollama("host").chat_url().unwrap(),
        "http://host:11434/v1/chat/completions"
    );
    assert_eq!(ollama("host").embed_url().unwrap(), "http://host:11434/api/embed");
}

#[test]
fn ollama_takes_a_custom_configuration() {
    let provider = OllamaProvider::from_custom_config("m".to_string(), &config("box")).unwrap();
    assert_eq!(provider.host, "http://box:11434/");
    assert_eq!(provider.model_name, "m");
    assert!(provider.supports_streaming);
    assert_eq!(provider.embedding_model, None);
    assert_eq!(provider.get_embedding_model(), "m");
    let mut c = config("https://box");
    c.supports_streaming = Some(false);
    c.timeout_seconds = Some(5);
    let provider = OllamaProvider::from_custom_config("m".to_string(), &c).unwrap();
    assert_eq!(provider.host, "https://box/");
    assert!(!provider.supports_streaming);
    assert_eq!(provider.timeout_secs, 5);
    assert_eq!(
        OllamaProvider::from_custom_config("m".to_string(), &config("http://[")).unwrap_err(),
        "Invalid base URL 'http://[': invalid IPv6 address"
    );
}

#[test]
fn ollama_describes_itself() {
    let m = OllamaProvider::metadata();
    assert_eq!(m.name, "ollama");
    assert_eq!(m.default_model, "qwen3");
    assert_eq!(m.known_models[0].name, "qwen3");
    assert_eq!(m.config_keys[0].name, "OLLAMA_HOST");
    assert_eq!(m.config_keys[0].default, s("localhost"));
    assert_eq!(m.config_keys[1].default, s("600"));
    assert!(!OllamaProvider::sends_tools(Some("chat")));
    assert!(OllamaProvider::sends_tools(Some("auto")));
    assert!(OllamaProvider::sends_tools(None));
}

#[test]
fn reasoning_is_taken_out_of_answers() {
    let f = OllamaProvider::filter_reasoning_tokens;
    assert_eq!(f("<think>hmm</think>Title Here"), "Title Here");
    assert_eq!(f("<thinking>a</thinking> Title"), "Title");
    assert_eq!(f("Let me think about it.\nFinal Title"), "Final Title");
    assert_eq!(f("Okay, so\n  One  \n\nTwo\n"), "One Two");
    assert_eq!(f("Based on this I think blue"), "blue");
    assert_eq!(f("Looking at it I would say red"), "red");
    assert_eq!(f("<think>two\nlines</think>x"), "two linesx");
    assert_eq!(f("Hmm, no newline"), "Hmm, no newline");
    assert_eq!(f(""), "");
    assert_eq!(clean_up_reasoning(" a\r\n<think>b</think>\n\n c "), "a b c");
}

#[test]
fn ollama_plans_requests_for_embeddings() {
    let provider = ollama("host");
    let texts = vec!["Hello, world!".to_string(), "This is a test of embeddings".to_string()];
    match provider.create_embeddings_with_model(&texts, "mock").unwrap() {
        OllamaEmbedPlan::Send { url, requests } => {
            assert_eq!(url, "http://host:11434/api/embed");
            assert_eq!(requests.len(), 2);
            assert_eq!(requests[0].model, "mock");
            assert_eq!(requests[1].input, "This is a test of embeddings");
        }
        other => panic!("{:?}", other),
    }
    match provider.create_embeddings_with_model(&vec![], "nomic-embed-text").unwrap() {
        OllamaEmbedPlan::Done(r) => {
            assert_eq!(r.embeddings.len(), 0);
            assert_eq!(r.model.dimensions, 768);
            assert_eq!(r.usage.tokens, Some(0));
        }
        other => panic!("{:?}", other),
    }
    match provider.create_embeddings_with_model(&vec![], "other").unwrap() {
        OllamaEmbedPlan::Done(r) => {
            assert_eq!(r.model.name, "other");
            assert_eq!(r.model.dimensions, 1024);
        }
        other => panic!("{:?}", other),
    }
    let (url, requests) = provider.create_embeddings(&texts).unwrap();
    assert_eq!(url, "http://host:11434/api/embed");
    assert_eq!(requests.len(), 2);
    assert_eq!(requests[0].model, "nomic-embed-text");
    assert_eq!(requests[0].input, "Hello, world!");
    assert!(ollama("http://").create_embeddings(&texts).is_err());
    assert_eq!(
        ollama("http://").create_embeddings_with_model(&texts, "m").unwrap_err(),
        failed("Invalid base URL: empty host")
    );
}

#[test]
fn test_ollama_embedding_dimension_detection() {
    for (model, expected_dim) in [("nomic-embed-text:latest", 768), ("mxbai-embed-large:latest", 1024)] {
        let result =
            OllamaProvider::finish_embeddings(model, vec![Ok(vec![0; expected_dim])]).unwrap();
        assert_eq!(
            result.embeddings[0].len(),
            expected_dim,
            "Model {} should have dimension {}",
            model,
            expected_dim
        );
        assert_eq!(result.model.dimensions, expected_dim);
        assert_eq!(result.model.name, model);
        assert_eq!(result.usage.embeddings_count, 1);
        assert_eq!(result.usage.tokens, None);
    }
}

#[test]
fn test_ollama_embedding_error_handling() {
    let result = OllamaProvider::finish_embeddings(
        "nomic-embed-text:latest",
        vec![Ok(vec![1]), Err(failed("connection refused")), Err(failed("later"))],
    );
    assert!(result.is_err(), "Should fail with invalid host");
    assert_eq!(result.unwrap_err(), failed("connection refused"));
    assert_eq!(
        collect_embeddings(vec![Ok(vec![1]), Ok(vec![2, 3])]).unwrap(),
        vec![vec![1], vec![2, 3]]
    );
}

#[test]
fn embeddings_are_read_from_answers() {
    let read = |reply: &str| {
        read_embedding(reply)
            .map(|v| v.into_iter().map(f64::from_bits).collect::<Vec<f64>>())
    };
    assert_eq!(read(r#"{"embeddings": [[0.5, -2, "x", 3]]}"#).unwrap(), vec![0.5, -2.0, 3.0]);
    let wrong = failed("Invalid embedding response format");
    assert_eq!(read(r#"{"embeddings": []}"#).unwrap_err(), wrong);
    assert_eq!(read(r#"{"embeddings": {"0": [1]}}"#).unwrap_err(), wrong);
    assert_eq!(read(r#"{"embeddings": [7]}"#).unwrap_err(), wrong);
    assert_eq!(read(r#"{"embedding": [[1]]}"#).unwrap_err(), wrong);
    let reason = serde_json::from_str::<serde_json::Value>("not json").unwrap_err().to_string();
    assert_eq!(read("not json").unwrap_err(), failed(&reason));
    let bare = |reply: OllamaReply| read_bare_embedding(reply);
    assert_eq!(
        bare(OllamaReply::Body(r#"{"embeddings": [[1.5]]}"#.to_string())).unwrap(),
        vec![1.5_f64.to_bits()]
    );
    assert_eq!(bare(OllamaReply::Body("{}".to_string())).unwrap_err(), wrong);
    assert_eq!(
        bare(OllamaReply::Body("not json".to_string())).unwrap_err(),
        failed(&format!("Response handling failed: {}", reason))
    );
    assert_eq!(
        bare(OllamaReply::NotSent("down".to_string())).unwrap_err(),
        failed("Request failed: down")
    );
    assert_eq!(
        bare(OllamaReply::Refused("no".to_string())).unwrap_err(),
        failed("Response handling failed: no")
    );
    assert_eq!(keep_numbers(&vec![None, Some(1), None, Some(2)]), vec![1, 2]);
}

#[test]
fn custom_headers_are_parsed() {
    let headers = parse_custom_headers("X-A = 1, X-B=two=2 ,bare,, X-A=3".to_string());
    assert_eq!(headers.get("X-A"), Some(&"3".to_string()));
    assert_eq!(headers.get("X-B"), Some(&"two=2".to_string()));
    assert_eq!(headers.get("bare"), None);
    assert_eq!(headers.entries().len(), 2);
    assert_eq!(parse_custom_headers("".to_string()).entries().len(), 0);
    let odd = parse_custom_headers("=v".to_string());
    assert_eq!(odd.get(""), Some(&"v".to_string()));
}

#[test]
fn openai_has_defaults() {
    let p = OpenAiProvider::from_env(
        "gpt-4o".to_string(),
        "key".to_string(),
        None,
        None,
        None,
        None,
        s("A=1"),
        None,
    );
    assert_eq!(p.host, "https://api.openai.com");
    assert_eq!(p.base_path, "v1/chat/completions");
    assert_eq!(p.timeout_secs, 600);
    assert!(p.supports_streaming);
    assert_eq!(p.custom_headers.unwrap().get("A"), Some(&"1".to_string()));
}

#[test]
fn openai_takes_a_custom_configuration() {
    let make = |c: CustomProviderConfig, key: Option<String>| {
        OpenAiProvider::from_custom_config("m".to_string(), c, key)
    };
    assert_eq!(
        make(config("https://x"), None).unwrap_err(),
        "Missing API key: MY_KEY"
    );
    assert_eq!(
        make(config("nowhere"), s("k")).unwrap_err(),
        "Invalid base URL 'nowhere': relative URL without a base"
    );
    let p = make(config("https://api.example:8443//v2/chat"), s("k")).unwrap();
    assert_eq!(p.host, "https://api.example");
    assert_eq!(p.base_path, "v2/chat");
    assert_eq!(p.api_key, "k");
    assert_eq!(p.timeout_secs, 600);
    let p = make(config("https://api.example/"), s("k")).unwrap();
    assert_eq!(p.base_path, "v1/chat/completions");
    let mut c = config("https://x");
    c.headers = Some(Metadata::from_entries(vec![("bad name".to_string(), "v".to_string())]));
    assert_eq!(make(c, s("k")).unwrap_err(), "invalid HTTP header name");
    let mut c = config("https://x");
    c.headers = Some(Metadata::from_entries(vec![("good".to_string(), "a\nb".to_string())]));
    assert_eq!(make(c, s("k")).unwrap_err(), "failed to parse header value");
    let fine = Metadata::from_entries(vec![("good".to_string(), "value".to_string())]);
    assert_eq!(headers_error(&fine), None);
    let header = |name: String, value: &str| {
        headers_error(&Metadata::from_entries(vec![(name, value.to_string())]))
    };
    for byte in 0..=255u8 {
        let c = byte as char;
        let token = c.is_ascii_alphanumeric() || "!#$%&'*+-.^_`|~".contains(c);
        assert_eq!(header(format!("x{}", c), "v").is_none(), token);
        let visible = c == '\t' || (c >= ' ' && c != '\u{7f}');
        assert_eq!(header("x".to_string(), &c.to_string()).is_none(), visible);
    }
    assert_eq!(header("".to_string(), "v"), s("invalid HTTP header name"));
    assert_eq!(header("a".repeat(65535), "v"), None);
    assert_eq!(header("a".repeat(65536), "v"), s("invalid HTTP header name"));
    assert_eq!(header("𝄞".to_string(), "v"), s("invalid HTTP header name"));
    assert_eq!(header("x".to_string(), "𝄞é"), None);
    assert_eq!(header("x".to_string(), ""), None);
    assert_eq!(header("x".to_string(), "\u{7f}"), s("failed to parse header value"));
    let parts = UrlParts {
        text: "data:x".to_string(),
        scheme: "data".to_string(),
        host: None,
        port: None,
        path: "x".to_string(),
    };
    assert_eq!(split_base_url(&parts), ("data://".to_string(), "x".to_string()));
}

#[test]
fn openai_requests_carry_headers() {
    let mut p = openai("https://api.example");
    p.organization = s("org");
    p.project = s("proj");
    p.custom_headers = Some(Metadata::from_entries(vec![("X".to_string(), "y".to_string())]));
    let pair = |a: &str, b: &str| (a.to_string(), b.to_string());
    assert_eq!(
        p.request_headers(),
        vec![
            pair("Authorization", "Bearer key"),
            pair("OpenAI-Organization", "org"),
            pair("OpenAI-Project", "proj"),
            pair("X", "y"),
        ]
    );
    let mut given = vec![pair("a", "b")];
    openai("h").add_headers(&mut given);
    assert_eq!(given, vec![pair("a", "b")]);
}

#[test]
fn openai_endpoints() {
    let p = openai("https://api.example/base/");
    assert_eq!(p.chat_url().unwrap(), "https://api.example/base/v1/chat/completions");
    assert_eq!(p.models_url().unwrap(), "https://api.example/base/v1/models");
    assert_eq!(p.embeddings_url().unwrap(), "https://api.example/base/v1/embeddings");
    let bad = openai("nope");
    assert_eq!(
        bad.chat_url().unwrap_err(),
        failed("Invalid base URL: relative URL without a base")
    );
    assert_eq!(
        bad.models_url().unwrap_err(),
        failed("relative URL without a base")
    );
    let mut odd = openai("https://api.example");
    odd.base_path = "http://[".to_string();
    assert_eq!(
        odd.chat_url().unwrap_err(),
        failed("Failed to construct endpoint URL: invalid IPv6 address")
    );
    assert_eq!(
        openai("mailto:x").embeddings_url().unwrap_err(),
        failed("Failed to construct embeddings URL: relative URL with a cannot-be-a-base base")
    );
}

#[test]
fn openai_lists_models_sorted() {
    assert_eq!(
        fetch_supported_models(r#"{"data": [{"id": "gpt-b"}, {"id": 3}, {"id": "gpt-a"}, {}]}"#).unwrap().unwrap(),
        vec!["gpt-a", "gpt-b"]
    );
    assert_eq!(
        fetch_supported_models(r#"{"error": {"message": "bad key"}, "data": []}"#).unwrap_err(),
        ProviderError::Authentication("bad key".to_string())
    );
    assert_eq!(
        fetch_supported_models(r#"{"error": null}"#).unwrap_err(),
        ProviderError::Authentication("unknown error".to_string())
    );
    assert_eq!(fetch_supported_models(r#"{"data": {}}"#).unwrap(), None);
    assert_eq!(fetch_supported_models("{}").unwrap(), None);
    assert_eq!(fetch_supported_models("[1]").unwrap(), None);
    for text in ["", "<html>", "{\"data\": [}", "{} {}"] {
        let reason = serde_json::from_str::<serde_json::Value>(text).unwrap_err().to_string();
        assert_eq!(fetch_supported_models(text).unwrap_err(), failed(&reason));
    }
    assert_eq!(fetch_supported_models(r#"{"data": []}"#).unwrap(), Some(vec![]));
    assert_eq!(
        answer_models(None, Some(vec![s("b"), None, s("a"), s("b")])).unwrap().unwrap(),
        vec!["a", "b", "b"]
    );
    assert!(answer_models(Some(None), None).is_err());
    assert_eq!(answer_models(None, None).unwrap(), None);
}

#[test]
fn texts_are_sorted_like_strings() {
    let words = ["b", "a", "", "ab", "é", "Z", "aa", "𝄞", "\u{ffff}"];
    let mut expected: Vec<String> = words.iter().map(|w| w.to_string()).collect();
    let sorted = sort_texts(expected.clone());
    expected.sort();
    assert_eq!(sorted, expected);
    assert!(stands_before("a", "a"));
    assert!(!stands_before("b", "ab"));
}

#[test]
fn openai_describes_itself() {
    let m = OpenAiProvider::metadata();
    assert_eq!(m.name, "openai");
    assert_eq!(m.known_models.len(), 7);
    assert_eq!(m.known_models[3].name, "gpt-3.5-turbo");
    assert_eq!(m.known_models[3].context_limit, Some(16385));
    assert_eq!(m.config_keys.len(), 7);
    assert!(m.config_keys[0].secret);
    assert_eq!(m.config_keys[6].default, s("600"));
}

#[test]
fn openai_embedding_models_have_costs() {
    let p = openai("https://api.openai.com");
    let caps = p.embedding_capabilities().unwrap();
    assert_eq!(caps.default_model, "text-embedding-3-small");
    assert_eq!(caps.max_batch_size, 2048);
    assert!(caps.supports_custom_dimensions);
    let cost = |name: &str| {
        let m = p.get_embedding_model_info(name).unwrap();
        (m.dimensions, m.cost_per_token.map(f64::from_bits))
    };
    assert_eq!(cost("text-embedding-3-small"), (1536, Some(0.00002)));
    assert_eq!(cost("text-embedding-3-large"), (3072, Some(0.00013)));
    assert_eq!(cost("text-embedding-ada-002"), (1536, Some(0.0001)));
    assert!(p.get_embedding_model_info(&caps.default_model).is_some());
    let o = ollama("host");
    let model = o.default_embedding_model().unwrap();
    assert_eq!(o.get_embedding_model_info(&model).unwrap().dimensions, 768);
}

#[test]
fn openai_makes_embeddings() {
    let p = openai("https://api.openai.com");
    match p.create_embeddings_with_model(vec![], "text-embedding-3-large").unwrap() {
        OpenAiEmbedPlan::Done(r) => {
            assert_eq!(r.model.dimensions, 3072);
            assert_eq!(r.usage.tokens, Some(0));
            assert_eq!(r.usage.embeddings_count, 0);
        }
        other => panic!("{:?}", other),
    }
    match p.create_embeddings_with_model(vec![], "mine").unwrap() {
        OpenAiEmbedPlan::Done(r) => {
            assert_eq!(r.model.name, "mine");
            assert_eq!(r.model.dimensions, 1536);
            assert_eq!(r.model.cost_per_token, None);
        }
        other => panic!("{:?}", other),
    }
    match p.create_embeddings_with_model(vec!["a".to_string()], "mine").unwrap() {
        OpenAiEmbedPlan::Send { url, headers, request } => {
            assert_eq!(url, "https://api.openai.com/v1/embeddings");
            assert_eq!(headers.len(), 1);
            assert_eq!(request.input, vec!["a"]);
            assert_eq!(request.model, "mine");
        }
        other => panic!("{:?}", other),
    }
    let answer = || {
        EmbeddingReply::Answer(EmbeddingResponse {
            data: vec![EmbeddingData {
                embedding: vec![1, 2],
            }],
        })
    };
    let done = p.finish_embeddings("text-embedding-3-small", answer()).unwrap();
    assert_eq!(done.embeddings, vec![vec![1, 2]]);
    assert_eq!(done.usage.tokens, None);
    assert_eq!(done.usage.embeddings_count, 1);
    for count in [0, 2, 3] {
        let data: Vec<EmbeddingData> = (0..count)
            .map(|i: u32| EmbeddingData {
                embedding: vec![i],
            })
            .collect();
        let reply = EmbeddingReply::Answer(EmbeddingResponse { data });
        let done = p.finish_embeddings("text-embedding-3-small", reply).unwrap();
        assert_eq!(done.embeddings.len(), count as usize);
        assert_eq!(done.usage.embeddings_count, count as usize);
    }
    assert_eq!(
        p.finish_embeddings("mine", answer()).unwrap_err(),
        ProviderError::ExecutionError("Unknown embedding model: mine".to_string())
    );
    assert_eq!(
        p.finish_embeddings("m", EmbeddingReply::Refused("no".to_string())).unwrap_err(),
        failed("Embedding API error: no")
    );
    assert_eq!(
        p.finish_embeddings("m", EmbeddingReply::NotSent("down".to_string())).unwrap_err(),
        failed("Failed to send embedding request: down")
    );
    assert_eq!(
        read_embeddings(EmbeddingReply::Unreadable("eof".to_string())).unwrap_err(),
        "Failed to parse embedding response: eof"
    );
}

#[test]
fn bare_embeddings_use_the_model_of_the_environment() {
    let p = openai("https://api.openai.com");
    assert!(p.create_embeddings(vec![], None).is_none());
    let model = |env: Option<String>| {
        match p.create_embeddings(vec!["a".to_string()], env).unwrap().unwrap() {
            OpenAiEmbedPlan::Send { request, .. } => request.model,
            other => panic!("{:?}", other),
        }
    };
    assert_eq!(model(None), "text-embedding-3-small");
    assert_eq!(model(s("mine")), "mine");
}
