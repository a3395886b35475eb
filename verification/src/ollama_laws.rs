//! What holds of the Ollama provider: where its server is, and what is read out of its answers.
use crate::embedding::{model_views, EmbeddingCapabilities, EmbeddingResult, EmbeddingService};
use crate::errors::ProviderError;
use crate::json::{json_error_of, json_items_of, json_member_of, json_numbers_of};
use crate::ollama::{
    add_scheme, clean_up_reasoning, embedding_is, keep_numbers, numbers_in, read_bare_embedding,
    read_embedding, reasoning_patterns, regex_removed, server_url, solid_lines, wants_default_port,
    without_markers, without_patterns, OllamaEmbedPlan, OllamaEmbedRequest, OllamaProvider,
    OllamaReply,
};
use crate::provider::{CustomProviderConfig, ProviderMetadata};
use crate::search_laws::in_order;
use crate::text::{
    contains_text, digits_value, lemma_decimal_round_trip, replace_of, split_of, trim_of,
};
use crate::text_laws::{
    glued, lemma_contains_means, lemma_joined, lemma_replace, lemma_split_means,
};
use crate::web::{url_joined, url_parsed, url_with_port, UrlParts};
use vstd::prelude::*;

verus! {

/// The request failed with the text.
pub open spec fn request_failed(e: ProviderError, text: Seq<char>) -> bool {
    e matches ProviderError::RequestFailed(t) && t@ == text
}

// ---------------------------------------------------------------------------------------------
// The server
// ---------------------------------------------------------------------------------------------
/// The text begins with `http://` or `https://`.
pub open spec fn has_scheme(host: Seq<char>) -> bool {
    "http://"@.is_prefix_of(host) || "https://"@.is_prefix_of(host)
}

/// A host without a scheme gets `http://` in front of it; any other stays as it is.
pub proof fn lemma_scheme(host: &str, res: String)
    requires
        call_ensures(add_scheme, (host,), res),
    ensures
        has_scheme(host@) ==> res@ == host@,
        !has_scheme(host@) ==> res@ == "http://"@ + host@,
        has_scheme(res@),
{
    if !has_scheme(host@) {
        assert(res@.subrange(0, "http://"@.len() as int) =~= "http://"@);
    }
}

/// The end of a text with `http://` in front of it is `:80` or `:443` only where that is the end
/// of the text itself.
proof fn lemma_port_ending(host: Seq<char>)
    ensures
        ":80"@.is_suffix_of("http://"@ + host) <==> ":80"@.is_suffix_of(host),
        ":443"@.is_suffix_of("http://"@ + host) <==> ":443"@.is_suffix_of(host),
{
    reveal_strlit("http://");
    reveal_strlit(":80");
    reveal_strlit(":443");
    let long = "http://"@ + host;
    let n = long.len() as int;
    if host.len() >= 3 {
        assert(long.subrange(n - 3, n) =~= host.subrange(host.len() - 3, host.len() as int));
    } else if ":80"@.is_suffix_of(long) {
        let end = long.subrange(n - 3, n);
        assert(end[0] == long[n - 3] && end[1] == long[n - 2]);
        assert(end[0] == ':' && end[1] == '8');
    }
    if host.len() >= 4 {
        assert(long.subrange(n - 4, n) =~= host.subrange(host.len() - 4, host.len() as int));
    } else if ":443"@.is_suffix_of(long) {
        let end = long.subrange(n - 4, n);
        assert(end[0] == long[n - 4] && end[1] == long[n - 3]);
        assert(end[0] == ':' && end[1] == '4');
    }
}

/// A host is at Ollama's own port exactly where its URL names no port, it was not written with
/// the port 80 or 443, and the scheme is not HTTPS.
pub proof fn lemma_own_port(host: &str, url: &UrlParts, res: bool)
    requires
        call_ensures(wants_default_port, (host, url), res),
    ensures
        url.port is Some ==> !res,
        url.scheme@ == "https"@ ==> !res,
        ":80"@.is_suffix_of(host@) || ":443"@.is_suffix_of(host@) ==> !res,
        url.port is None && url.scheme@ != "https"@ && !":80"@.is_suffix_of(host@)
            && !":443"@.is_suffix_of(host@) ==> res,
{
}

/// Writing `http://` in front of a host makes no difference to whether it is at Ollama's own port.
pub proof fn lemma_own_port_with_http(
    host: &str,
    with_http: &str,
    url: &UrlParts,
    res: bool,
    http_res: bool,
)
    requires
        with_http@ == "http://"@ + host@,
        call_ensures(wants_default_port, (host, url), res),
        call_ensures(wants_default_port, (with_http, url), http_res),
    ensures
        res == http_res,
{
    lemma_port_ending(host@);
}

/// A host with `http://` in front of it leads to the same server as without a scheme: the same
/// URL, and the same error where there is none.
pub proof fn lemma_http_is_usual(
    bare: &OllamaProvider,
    with_http: &OllamaProvider,
    bare_res: Result<String, ProviderError>,
    http_res: Result<String, ProviderError>,
)
    requires
        !has_scheme(bare.host@),
        with_http.host@ == "http://"@ + bare.host@,
        call_ensures(OllamaProvider::get_base_url, (bare,), bare_res),
        call_ensures(OllamaProvider::get_base_url, (with_http,), http_res),
    ensures
        bare_res is Ok <==> http_res is Ok,
        bare_res is Ok ==> bare_res->Ok_0@ == http_res->Ok_0@,
        bare_res is Err ==> {
            &&& bare_res->Err_0 is RequestFailed
            &&& http_res->Err_0 is RequestFailed
            &&& bare_res->Err_0->RequestFailed_0@ == http_res->Err_0->RequestFailed_0@
        },
{
    let host = bare.host@;
    lemma_port_ending(host);
    assert(("http://"@ + host).subrange(0, "http://"@.len() as int) =~= "http://"@);
    assert(server_url(host) == server_url("http://"@ + host));
}

/// The URL of the server is the one that the host stands for, with `http://` before it if it
/// has no scheme. It has Ollama's own port, 11434, where it names none, unless it is an HTTPS
/// server or its port was written down as 80 or 443: then it is left as it is.
pub proof fn lemma_server(provider: &OllamaProvider, base: Seq<char>, res: Result<
    String,
    ProviderError,
>)
    requires
        call_ensures(OllamaProvider::get_base_url, (provider,), res),
        has_scheme(provider.host@) ==> base == provider.host@,
        !has_scheme(provider.host@) ==> base == "http://"@ + provider.host@,
    ensures
        url_parsed(base) matches Err(reason) ==> {
            &&& res matches Err(e)
            &&& request_failed(e, "Invalid base URL: "@ + reason)
        },
        url_parsed(base) matches Ok(url) ==> {
            let left = url.port is Some || url.scheme == "https"@ || ":80"@.is_suffix_of(
                provider.host@,
            ) || ":443"@.is_suffix_of(provider.host@);
            &&& left ==> res is Ok && res->Ok_0@ == url.text
            &&& !left ==> match url_with_port(base, 11434) {
                Some(text) => res is Ok && res->Ok_0@ == text,
                None => res is Err && request_failed(res->Err_0, "Failed to set default port"@),
            }
            &&& url.host is Some && url.host->0.len() > 0 && url.scheme != "file"@ ==> res is Ok
        },
{
}

/// Chat requests and requests for embeddings go to their own places on the server.
pub proof fn lemma_places_on_server(
    provider: &OllamaProvider,
    base: Result<String, ProviderError>,
    chat: Result<String, ProviderError>,
    embed: Result<String, ProviderError>,
)
    requires
        call_ensures(OllamaProvider::get_base_url, (provider,), base),
        call_ensures(OllamaProvider::chat_url, (provider,), chat),
        call_ensures(OllamaProvider::embed_url, (provider,), embed),
    ensures
        base matches Err(e) ==> e matches ProviderError::RequestFailed(text) && {
            &&& chat is Err && request_failed(chat->Err_0, text@)
            &&& embed is Err && request_failed(embed->Err_0, text@)
        },
        base matches Ok(server) ==> match url_joined(server@, "v1/chat/completions"@) {
            Ok(url) => chat is Ok && chat->Ok_0@ == url,
            Err(reason) => chat is Err && request_failed(
                chat->Err_0,
                "Failed to construct endpoint URL: "@ + reason,
            ),
        },
        base matches Ok(server) ==> match url_joined(server@, "api/embed"@) {
            Ok(url) => embed is Ok && embed->Ok_0@ == url,
            Err(reason) => embed is Err && request_failed(
                embed->Err_0,
                "Failed to construct endpoint URL"@,
            ),
        },
{
}

/// A provider that the user has set up is at the server that its URL leads to, as a host does.
pub proof fn lemma_custom_server(
    model_name: String,
    config: &CustomProviderConfig,
    res: Result<OllamaProvider, String>,
    provider: &OllamaProvider,
    server: Result<String, ProviderError>,
)
    requires
        call_ensures(OllamaProvider::from_custom_config, (model_name, config), res),
        provider.host@ == config.base_url@,
        call_ensures(OllamaProvider::get_base_url, (provider,), server),
    ensures
        res is Ok <==> server is Ok,
        res matches Ok(p) ==> {
            &&& p.host@ == server->Ok_0@
            &&& p.model_name@ == model_name@
            &&& p.embedding_model is None
            &&& config.supports_streaming is None ==> p.supports_streaming
            &&& config.supports_streaming matches Some(s) ==> p.supports_streaming == s
            &&& config.timeout_seconds is None ==> p.timeout_secs == 600
            &&& config.timeout_seconds matches Some(t) ==> p.timeout_secs == t
        },
        res matches Err(e) ==> {
            ||| e@ == "Failed to set default port"@
            ||| exists|reason: Seq<char>|
                e@ == #[trigger] ("Invalid base URL '"@ + config.base_url@ + "': "@ + reason)
        },
{
}

/// A provider from the environment has what is set there, and the usual host and timeout where
/// they are not.
pub proof fn lemma_ollama_from_env(
    model_name: String,
    host: Option<String>,
    embedding_model: Option<String>,
    timeout_secs: Option<u64>,
    res: OllamaProvider,
)
    requires
        call_ensures(
            OllamaProvider::from_env,
            (model_name, host, embedding_model, timeout_secs),
            res,
        ),
    ensures
        res.model_name@ == model_name@,
        host matches Some(h) ==> res.host@ == h@,
        host is None ==> res.host@ == "localhost"@,
        res.embedding_model == embedding_model,
        res.supports_streaming,
        timeout_secs matches Some(t) ==> res.timeout_secs == t,
        timeout_secs is None ==> res.timeout_secs == 600,
{
}

/// How the provider is described.
pub proof fn lemma_ollama_described(res: ProviderMetadata)
    requires
        call_ensures(OllamaProvider::metadata, (), res),
    ensures
        res.name@ == "ollama"@,
        res.default_model@ == "qwen3"@,
        res.model_doc_link@ == "https://ollama.com/library"@,
        res.known_models@.len() == 1,
        res.known_models@[0].name@ == "qwen3"@,
        res.known_models@[0].context_limit is None,
        res.config_keys@.len() == 2,
        res.config_keys@[0].name@ == "OLLAMA_HOST"@,
        res.config_keys@[0].required && !res.config_keys@[0].secret,
        res.config_keys@[0].default is Some && res.config_keys@[0].default->0@ == "localhost"@,
        res.config_keys@[1].name@ == "OLLAMA_TIMEOUT"@,
        !res.config_keys@[1].required && !res.config_keys@[1].secret,
        res.config_keys@[1].default is Some && digits_value(
            res.config_keys@[1].default->0@,
        ) == Some(600nat),
{
    lemma_decimal_round_trip(600);
}

/// A chat request names the tools in every mode but `chat`.
pub proof fn lemma_tools_sent(mode: Option<&str>, res: bool)
    requires
        call_ensures(OllamaProvider::sends_tools, (mode,), res),
    ensures
        mode is None ==> res,
        mode matches Some(m) ==> (res <==> m@ != "chat"@),
{
}

// ---------------------------------------------------------------------------------------------
// Answers
// ---------------------------------------------------------------------------------------------
/// The items that are there, each as the number that it is.
pub open spec fn those_there(items: Seq<Option<u64>>) -> Seq<u64> {
    items.filter(|item: Option<u64>| item is Some).map_values(|item: Option<u64>| item->0)
}

proof fn lemma_those_there(items: Seq<Option<u64>>)
    requires
        items.len() > 0,
    ensures
        those_there(items) == (match items.last() {
            Some(n) => those_there(items.drop_last()).push(n),
            None => those_there(items.drop_last()),
        }),
{
    reveal(Seq::filter);
    assert(those_there(items) =~= (match items.last() {
        Some(n) => those_there(items.drop_last()).push(n),
        None => those_there(items.drop_last()),
    }));
}

/// The numbers among items are the items that are numbers: every one of them, in order, and as
/// many as there are.
pub proof fn lemma_numbers_in_order(items: Seq<Option<u64>>) -> (places: Seq<int>)
    ensures
        in_order(places, items.len() as int),
        places.len() == numbers_in(items).len(),
        forall|k: int|
            0 <= k < places.len() ==> items[#[trigger] places[k]] == Some(numbers_in(items)[k]),
        forall|i: int|
            0 <= i < items.len() ==> (places.contains(i) <==> (#[trigger] items[i]) is Some),
        numbers_in(items) == those_there(items),
        numbers_in(items).len() == items.filter(|item: Option<u64>| item is Some).len(),
    decreases items.len(),
{
    reveal(Seq::filter);
    if items.len() > 0 {
        lemma_those_there(items);
    }
    if items.len() == 0 {
        Seq::empty()
    } else {
        let rest = items.drop_last();
        let n = rest.len() as int;
        let before = lemma_numbers_in_order(rest);
        assert forall|i: int| 0 <= i < n implies rest[i] == #[trigger] items[i] by {}
        let is_one = items[n] is Some;
        let places = if is_one {
            before.push(n)
        } else {
            before
        };
        assert forall|k: int| 0 <= k < places.len() implies items[#[trigger] places[k]] == Some(
            numbers_in(items)[k],
        ) by {
            if k < before.len() {
                assert(places[k] == before[k]);
                assert(rest[before[k]] == items[before[k]]);
            }
        }
        assert forall|i: int| 0 <= i < items.len() implies (places.contains(i) <==> (
        #[trigger] items[i]) is Some) by {
            if i < n {
                assert(rest[i] == items[i]);
                if before.contains(i) {
                    let k = choose|k: int| 0 <= k < before.len() && before[k] == i;
                    assert(places[k] == i);
                }
                if places.contains(i) {
                    let k = choose|k: int| 0 <= k < places.len() && places[k] == i;
                    assert(before[k] == i);
                }
            } else {
                if is_one {
                    assert(places[before.len() as int] == i);
                } else if places.contains(i) {
                    let k = choose|k: int| 0 <= k < places.len() && places[k] == i;
                    assert(before[k] < n);
                }
            }
        }
        places
    }
}

/// Where every item is a number, there are as many numbers as items, each at its place.
pub proof fn lemma_all_numbers(items: Seq<Option<u64>>)
    requires
        forall|i: int| 0 <= i < items.len() ==> (#[trigger] items[i]) is Some,
    ensures
        numbers_in(items).len() == items.len(),
        forall|i: int| 0 <= i < items.len() ==> #[trigger] numbers_in(items)[i] == items[i]->0,
    decreases items.len(),
{
    if items.len() > 0 {
        let rest = items.drop_last();
        assert forall|i: int| 0 <= i < rest.len() implies (#[trigger] rest[i]) is Some by {
            assert(rest[i] == items[i]);
        }
        lemma_all_numbers(rest);
        assert(items[items.len() - 1] is Some);
    }
}

/// The numbers of two lists, one behind the other, are the numbers of the first and then those of
/// the second.
pub proof fn lemma_numbers_together(a: Seq<Option<u64>>, b: Seq<Option<u64>>)
    ensures
        numbers_in(a + b) == numbers_in(a) + numbers_in(b),
    decreases b.len(),
{
    if b.len() == 0 {
        assert(a + b =~= a);
        assert(numbers_in(a) + numbers_in(b) =~= numbers_in(a));
    } else {
        assert((a + b).drop_last() =~= a + b.drop_last());
        assert((a + b).last() == b.last());
        lemma_numbers_together(a, b.drop_last());
        assert(numbers_in(a + b) =~= numbers_in(a) + numbers_in(b));
    }
}

/// All numbers of a list are kept, in order, and nothing else. Where every item is a number, as
/// many are kept as there are items, each at its place.
pub proof fn lemma_numbers_kept(items: &Vec<Option<u64>>, res: Vec<u64>) -> (places: Seq<int>)
    requires
        call_ensures(keep_numbers, (items,), res),
    ensures
        in_order(places, items@.len() as int),
        places.len() == res@.len(),
        forall|k: int| 0 <= k < res@.len() ==> items@[places[k]] == Some(#[trigger] res@[k]),
        forall|i: int|
            0 <= i < items@.len() ==> (places.contains(i) <==> (#[trigger] items@[i]) is Some),
        res@ == those_there(items@),
        res@.len() == items@.filter(|item: Option<u64>| item is Some).len(),
        (forall|i: int| 0 <= i < items@.len() ==> (#[trigger] items@[i]) is Some) ==> {
            &&& res@.len() == items@.len()
            &&& forall|i: int| 0 <= i < items@.len() ==> items@[i] == Some(#[trigger] res@[i])
        },
{
    let places = lemma_numbers_in_order(items@);
    assert forall|k: int| 0 <= k < res@.len() implies items@[places[k]] == Some(
        #[trigger] res@[k],
    ) by {
        assert(items@[places[k]] == Some(numbers_in(items@)[k]));
    }
    if forall|i: int| 0 <= i < items@.len() ==> (#[trigger] items@[i]) is Some {
        lemma_all_numbers(items@);
    }
    places
}

/// The embedding in an answer are the numbers in the first item of `embeddings`: all of them, in
/// order, each at its place where all of its items are numbers. Any other answer is refused.
pub proof fn lemma_embedding_read(reply: &str, res: Result<Vec<u64>, ProviderError>)
    requires
        call_ensures(read_embedding, (reply,), res),
    ensures
        embedding_read(reply@, ""@, res),
{
    reveal_strlit("");
    if json_error_of(reply@) is Some {
        assert(""@ + json_error_of(reply@)->0 =~= json_error_of(reply@)->0);
    }
    lemma_embedding_found(reply@, res);
}

/// What reading the embedding in an answer comes to. The text of an answer that is not JSON
/// begins with `before`.
pub open spec fn embedding_read(
    reply: Seq<char>,
    before: Seq<char>,
    res: Result<Vec<u64>, ProviderError>,
) -> bool {
    match json_error_of(reply) {
        Some(reason) => res is Err && request_failed(res->Err_0, before + reason),
        None => embedding_found(reply, res),
    }
}

/// What the embedding in an answer that is JSON comes to.
pub open spec fn embedding_found(reply: Seq<char>, res: Result<Vec<u64>, ProviderError>) -> bool {
    let first = json_numbers_of(reply, "/embeddings/0"@);
    let there = json_member_of(reply, "embeddings"@) is Some && json_items_of(
        json_member_of(reply, "embeddings"@)->0,
    ) is Some && json_items_of(json_member_of(reply, "embeddings"@)->0)->0.len() > 0 && first
        is Some;
    &&& res is Ok <==> there
    &&& !there ==> request_failed(res->Err_0, "Invalid embedding response format"@)
    &&& there ==> {
        let items = first->0;
        &&& res->Ok_0@ == those_there(items)
        &&& res->Ok_0@.len() == items.filter(|item: Option<u64>| item is Some).len()
        &&& (forall|i: int| 0 <= i < items.len() ==> (#[trigger] items[i]) is Some) ==> {
            &&& res->Ok_0@.len() == items.len()
            &&& forall|i: int| 0 <= i < items.len() ==> items[i] == Some(#[trigger] res->Ok_0@[i])
        }
    }
}

proof fn lemma_embedding_found(reply: Seq<char>, res: Result<Vec<u64>, ProviderError>)
    requires
        json_error_of(reply) is None ==> embedding_is(reply, res),
    ensures
        json_error_of(reply) is None ==> embedding_found(reply, res),
{
    if json_error_of(reply) is None {
        let first = json_numbers_of(reply, "/embeddings/0"@);
        if first is Some {
            let items = first->0;
            let places = lemma_numbers_in_order(items);
            if forall|i: int| 0 <= i < items.len() ==> (#[trigger] items[i]) is Some {
                lemma_all_numbers(items);
            }
        }
    }
}

/// A bare embedding is read like any other; the error says at which step it went wrong.
pub proof fn lemma_bare_embedding_read(reply: OllamaReply, res: Result<Vec<u64>, ProviderError>)
    requires
        call_ensures(read_bare_embedding, (reply,), res),
    ensures
        reply matches OllamaReply::NotSent(reason) ==> res is Err && request_failed(
            res->Err_0,
            "Request failed: "@ + reason@,
        ),
        reply matches OllamaReply::Refused(reason) ==> res is Err && request_failed(
            res->Err_0,
            "Response handling failed: "@ + reason@,
        ),
        reply matches OllamaReply::Body(text) ==> embedding_read(
            text@,
            "Response handling failed: "@,
            res,
        ),
{
    if reply is Body {
        lemma_embedding_found(reply->Body_0@, res);
    }
}

/// One request is sent for each text, in order, with the whole text and the model.
pub proof fn lemma_embed_requests(texts: &Vec<String>, model: &str, res: Vec<OllamaEmbedRequest>)
    requires
        call_ensures(OllamaProvider::embed_requests, (texts, model), res),
    ensures
        res@.len() == texts@.len(),
        forall|i: int|
            0 <= i < texts@.len() ==> (#[trigger] res@[i]).input@ == texts@[i]@ && res@[i].model@
                == model@,
{
}

/// Bare embeddings are asked for at the place for embeddings, one request for each text, in
/// order, with the model that is set for embeddings, or else the one for chat.
pub proof fn lemma_bare_requests(
    provider: &OllamaProvider,
    texts: &Vec<String>,
    url: Result<String, ProviderError>,
    res: Result<(String, Vec<OllamaEmbedRequest>), ProviderError>,
)
    requires
        call_ensures(OllamaProvider::embed_url, (provider,), url),
        call_ensures(OllamaProvider::create_embeddings, (provider, texts), res),
    ensures
        res is Ok <==> url is Ok,
        res matches Ok((to, requests)) ==> {
            &&& to@ == url->Ok_0@
            &&& requests@.len() == texts@.len()
            &&& forall|i: int|
                0 <= i < texts@.len() ==> (#[trigger] requests@[i]).input@ == texts@[i]@
                    && requests@[i].model@ == (match provider.embedding_model {
                    Some(m) => m@,
                    None => provider.model_name@,
                })
        },
        res matches Err(e) ==> e is RequestFailed && url->Err_0 is RequestFailed
            && e->RequestFailed_0@ == url->Err_0->RequestFailed_0@,
{
}

/// Embeddings with a model: one request for each text. Without texts nothing is sent.
pub proof fn lemma_model_requests(
    provider: &OllamaProvider,
    texts: &Vec<String>,
    model: &str,
    url: Result<String, ProviderError>,
    res: Result<OllamaEmbedPlan, ProviderError>,
)
    requires
        call_ensures(OllamaProvider::embed_url, (provider,), url),
        call_ensures(OllamaProvider::create_embeddings_with_model, (provider, texts, model), res),
    ensures
        texts@.len() == 0 ==> {
            &&& res matches Ok(OllamaEmbedPlan::Done(r))
            &&& r.embeddings@.len() == 0
            &&& r.model.name@ == model@
            &&& r.model.max_input_tokens == 2048
            &&& r.model.cost_per_token is None
            &&& r.model.dimensions == (if model@ == "nomic-embed-text"@ && model@ == (
            match provider.embedding_model {
                Some(m) => m@,
                None => provider.model_name@,
            }) {
                768usize
            } else {
                1024usize
            })
            &&& r.usage.tokens == Some(0i32)
            &&& r.usage.embeddings_count == 0
        },
        texts@.len() > 0 ==> {
            &&& res is Ok <==> url is Ok
            &&& res matches Ok(plan) ==> plan matches OllamaEmbedPlan::Send { url: to, requests } && {
                &&& to@ == url->Ok_0@
                &&& requests@.len() == texts@.len()
                &&& forall|i: int|
                    0 <= i < texts@.len() ==> (#[trigger] requests@[i]).input@ == texts@[i]@
                        && requests@[i].model@ == model@
            }
        },
{
}

/// Embeddings that came back make up the result, in order, unless one of them failed: then the
/// first failure is the result.
pub proof fn lemma_embeddings_finished(
    model: &str,
    results: Vec<Result<Vec<u32>, ProviderError>>,
    res: Result<EmbeddingResult, ProviderError>,
)
    requires
        call_ensures(OllamaProvider::finish_embeddings, (model, results), res),
    ensures
        res is Ok <==> forall|i: int| 0 <= i < results@.len() ==> (#[trigger] results@[i]) is Ok,
        res matches Ok(r) ==> {
            &&& r.embeddings@.len() == results@.len()
            &&& r.usage.embeddings_count == results@.len()
            &&& r.usage.tokens is None
            &&& forall|i: int|
                0 <= i < results@.len() ==> (#[trigger] r.embeddings@[i])@ == results@[i]->Ok_0@
            &&& r.model.name@ == model@
            &&& r.model.max_input_tokens == 2048
            &&& r.model.cost_per_token is None
            &&& results@.len() > 0 ==> r.model.dimensions == results@[0]->Ok_0@.len()
            &&& results@.len() == 0 ==> r.model.dimensions == 1024
        },
        res matches Err(e) ==> exists|i: int|
            {
                &&& 0 <= i < results@.len()
                &&& (#[trigger] results@[i]) matches Err(x) && x == e
                &&& forall|j: int| 0 <= j < i ==> (#[trigger] results@[j]) is Ok
            },
{
    if res is Ok {
        let r = res->Ok_0;
        assert(results.len() == results@.len());
        assert forall|i: int| 0 <= i < results@.len() implies (#[trigger] results@[i]) is Ok by {
            assert(results@[i] == Ok::<_, ProviderError>(r.embeddings@[i]));
        }
        if results@.len() > 0 {
            assert(results@[0] == Ok::<_, ProviderError>(r.embeddings@[0]));
            assert(r.embeddings@[0].len() == r.embeddings@[0]@.len());
        }
    }
}

/// What the provider can do: one model, the one for embeddings, which is the default; 32 texts at
/// once.
pub proof fn lemma_ollama_capabilities(
    provider: &OllamaProvider,
    res: Option<EmbeddingCapabilities>,
)
    requires
        call_ensures(<OllamaProvider as EmbeddingService>::embedding_capabilities, (provider,), res),
    ensures
        ({
            let model = match provider.embedding_model {
                Some(m) => m@,
                None => provider.model_name@,
            };
            &&& res matches Some(c)
            &&& c.models@.len() == 1
            &&& c.models@[0].name@ == model
            &&& model == "nomic-embed-text"@ ==> c.models@[0].dimensions == 768
            &&& model != "nomic-embed-text"@ ==> c.models@[0].dimensions == 1024
            &&& c.models@[0].max_input_tokens == 2048
            &&& c.models@[0].cost_per_token is None
            &&& c.default_model@ == model
            &&& c.max_batch_size == 32
            &&& !c.supports_custom_dimensions
        }),
{
    let c = res->0;
    let views = model_views(c.models@);
    assert(c@.models == views);
    assert(views.len() == c.models@.len());
    assert(views[0] == c.models@[0]@);
}

// ---------------------------------------------------------------------------------------------
// Reasoning
// ---------------------------------------------------------------------------------------------
/// The lines that are kept are those that hold more than white space, without the white space
/// around them: all of them and in order.
pub proof fn lemma_lines_in_order(lines: Seq<Seq<char>>) -> (places: Seq<int>)
    ensures
        in_order(places, lines.len() as int),
        places.len() == solid_lines(lines).len(),
        forall|k: int|
            0 <= k < places.len() ==> solid_lines(lines)[k] == trim_of(lines[#[trigger] places[k]]),
        forall|i: int|
            0 <= i < lines.len() ==> (places.contains(i) <==> trim_of(#[trigger] lines[i]).len()
                > 0),
    decreases lines.len(),
{
    if lines.len() == 0 {
        Seq::empty()
    } else {
        let rest = lines.drop_last();
        let n = rest.len() as int;
        let before = lemma_lines_in_order(rest);
        assert forall|i: int| 0 <= i < n implies rest[i] == #[trigger] lines[i] by {}
        let solid = trim_of(lines[n]).len() > 0;
        let places = if solid {
            before.push(n)
        } else {
            before
        };
        assert forall|k: int| 0 <= k < places.len() implies solid_lines(lines)[k] == trim_of(
            lines[#[trigger] places[k]],
        ) by {
            if k < before.len() {
                assert(places[k] == before[k]);
                assert(rest[before[k]] == lines[before[k]]);
            }
        }
        assert forall|i: int| 0 <= i < lines.len() implies (places.contains(i) <==> trim_of(
            #[trigger] lines[i],
        ).len() > 0) by {
            if i < n {
                assert(rest[i] == lines[i]);
                if before.contains(i) {
                    let k = choose|k: int| 0 <= k < before.len() && before[k] == i;
                    assert(places[k] == i);
                }
                if places.contains(i) {
                    let k = choose|k: int| 0 <= k < places.len() && places[k] == i;
                    assert(before[k] == i);
                }
            } else {
                if solid {
                    assert(places[before.len() as int] == i);
                } else if places.contains(i) {
                    let k = choose|k: int| 0 <= k < places.len() && places[k] == i;
                    assert(before[k] < n);
                }
            }
        }
        places
    }
}

/// Cleaning up takes the four markers out, one kind after the other, and puts every line that
/// holds more than white space on one line, in order, with a space between each two.
pub proof fn lemma_cleaned_up(text: &str, res: String) -> (places: Seq<int>)
    requires
        call_ensures(clean_up_reasoning, (text,), res),
    ensures
        ({
            let a = replace_of(text@, "<think>"@, ""@);
            let b = replace_of(a, "</think>"@, ""@);
            let c = replace_of(b, "<thinking>"@, ""@);
            let d = replace_of(c, "</thinking>"@, ""@);
            let lines = split_of(d, "\n"@);
            &&& in_order(places, lines.len() as int)
            &&& forall|i: int|
                0 <= i < lines.len() ==> (places.contains(i) <==> trim_of(#[trigger] lines[i]).len()
                    > 0)
            &&& res@ == glued(Seq::new(places.len(), |k: int| trim_of(lines[places[k]])), " "@)
        }),
{
    let lines = split_of(without_markers(text@), "\n"@);
    let places = lemma_lines_in_order(lines);
    lemma_joined(solid_lines(lines), " "@);
    assert(solid_lines(lines) =~= Seq::new(places.len(), |k: int| trim_of(lines[places[k]]))) by {
        assert forall|k: int| 0 <= k < places.len() implies solid_lines(lines)[k] == trim_of(
            lines[places[k]],
        ) by {
            assert(0 <= places[k]);
        }
    }
    places
}

/// A text of one line without markers only loses the white space around it.
pub proof fn lemma_plain_line(text: &str, res: String)
    requires
        call_ensures(clean_up_reasoning, (text,), res),
        !text@.contains('\n'),
        !text@.contains('<'),
    ensures
        res@ == trim_of(text@),
{
    reveal_strlit("<think>");
    reveal_strlit("</think>");
    reveal_strlit("<thinking>");
    reveal_strlit("</thinking>");
    reveal_strlit("\n");
    lemma_without_char(text@, "<think>"@, '<');
    lemma_without_char(text@, "</think>"@, '<');
    lemma_without_char(text@, "<thinking>"@, '<');
    lemma_without_char(text@, "</thinking>"@, '<');
    lemma_replace(text@, "<think>"@, Seq::empty(), ""@);
    lemma_replace(text@, "</think>"@, Seq::empty(), ""@);
    lemma_replace(text@, "<thinking>"@, Seq::empty(), ""@);
    lemma_replace(text@, "</thinking>"@, Seq::empty(), ""@);
    assert(without_markers(text@) == text@);
    lemma_without_char(text@, "\n"@, '\n');
    lemma_contains_means(text@, "\n"@);
    let lines = split_of(text@, "\n"@);
    lemma_split_means(text@, "\n"@);
    if lines.len() > 1 {
        assert(text@ =~= Seq::<char>::empty() + lines[0] + "\n"@ + glued(lines.skip(1), "\n"@));
        assert(text@[lines[0].len() as int] == '\n');
    }
    assert(lines =~= seq![text@]);
    assert(lines.drop_last() =~= Seq::<Seq<char>>::empty());
    let solid = solid_lines(lines);
    reveal_with_fuel(solid_lines, 2);
    lemma_joined(solid, " "@);
    if trim_of(text@).len() > 0 {
        assert(solid =~= seq![trim_of(text@)]);
    } else {
        assert(solid =~= Seq::<Seq<char>>::empty());
        assert(res@ =~= trim_of(text@));
    }
}

proof fn lemma_without_char(s: Seq<char>, pat: Seq<char>, c: char)
    requires
        pat.len() > 0,
        pat[0] == c,
        !s.contains(c),
    ensures
        !contains_text(s, pat),
{
    lemma_contains_means(s, pat);
    if contains_text(s, pat) {
        let (a, b) = choose|a: Seq<char>, b: Seq<char>| s == #[trigger] (a + pat + b);
        assert((a + pat + b)[a.len() as int] == c);
        assert(s[a.len() as int] == c);
    }
}

/// What reasoning looks like.
pub proof fn lemma_reasoning_patterns()
    ensures
        reasoning_patterns().len() == 12,
        reasoning_patterns()[0] == "<think>.*?</think>"@,
        reasoning_patterns()[1] == "<thinking>.*?</thinking>"@,
        reasoning_patterns()[2] == "Let me think.*?\\n"@,
        reasoning_patterns()[3] == "I need to.*?\\n"@,
        reasoning_patterns()[4] == "First, I.*?\\n"@,
        reasoning_patterns()[5] == "Okay, .*?\\n"@,
        reasoning_patterns()[6] == "So, .*?\\n"@,
        reasoning_patterns()[7] == "Well, .*?\\n"@,
        reasoning_patterns()[8] == "Hmm, .*?\\n"@,
        reasoning_patterns()[9] == "Actually, .*?\\n"@,
        reasoning_patterns()[10] == "Based on.*?I think"@,
        reasoning_patterns()[11] == "Looking at.*?I would say"@,
{
}

/// The texts are the stages of taking the matches of the patterns out, one pattern after the
/// other.
pub open spec fn are_stages(stages: Seq<Seq<char>>, patterns: Seq<Seq<char>>) -> bool {
    &&& stages.len() == patterns.len() + 1
    &&& forall|i: int|
        0 <= i < patterns.len() ==> match regex_removed(#[trigger] patterns[i], stages[i]) {
            Some(t) => stages[i + 1] == t,
            None => stages[i + 1] == stages[i],
        }
}

proof fn lemma_stages(stages: Seq<Seq<char>>, patterns: Seq<Seq<char>>, i: int)
    requires
        are_stages(stages, patterns),
        0 <= i <= patterns.len(),
    ensures
        without_patterns(patterns, stages[i], i) == stages.last(),
    decreases patterns.len() - i,
{
    if i < patterns.len() {
        lemma_stages(stages, patterns, i + 1);
    }
}

/// An answer loses the matches of every pattern, one after the other, and is then cleaned up.
pub proof fn lemma_reasoning_filtered(
    text: &str,
    stages: Seq<Seq<char>>,
    last: &str,
    cleaned: String,
    res: String,
)
    requires
        call_ensures(OllamaProvider::filter_reasoning_tokens, (text,), res),
        are_stages(stages, reasoning_patterns()),
        stages[0] == text@,
        last@ == stages.last(),
        call_ensures(clean_up_reasoning, (last,), cleaned),
    ensures
        res@ == cleaned@,
{
    lemma_stages(stages, reasoning_patterns(), 0);
}

} // verus!
