//! The Ollama provider: where its server is, and how it makes embeddings.
use crate::embedding::{
    find_model, CapabilitiesView, EmbeddingCapabilities, EmbeddingModel, EmbeddingResult,
    EmbeddingService, EmbeddingUsage, ModelView,
};
use crate::errors::{ProviderError, ProviderErrorView};
use crate::json::{
    json_error, json_error_of, json_items, json_items_of, json_member, json_member_of,
    json_numbers, json_numbers_of,
};
use crate::provider::{
    config_key, config_key_is, model_info, model_info_is, ConfigKey, CustomProviderConfig,
    ModelInfo, ProviderMetadata,
};
use crate::text::{
    decimal, decimal_of, ends_with, is_white_space, join, join_of, lemma_join_keeps,
    lemma_split_pieces, lemma_trim_keeps, lemma_trim_of, opt_view, replace, replace_of, same_text,
    split, split_of, starts_with, trim, trim_of, views,
};
use crate::web::{
    join_url, parse_url, set_url_port, url_joined, url_parsed, url_with_port, UrlParts, UrlView,
    MAX_URL_CHARS,
};
use vstd::prelude::*;

verus! {

pub const OLLAMA_HOST: &'static str = "localhost";

/// The time after which a request is given up, in seconds.
pub const OLLAMA_TIMEOUT: u64 = 600;

pub const OLLAMA_DEFAULT_PORT: u16 = 11434;

pub const OLLAMA_DEFAULT_MODEL: &'static str = "qwen3";

pub const OLLAMA_DOC_URL: &'static str = "https://ollama.com/library";

/// A server that runs models, and the models to use.
#[derive(Debug, Clone)]
pub struct OllamaProvider {
    pub host: String,
    pub model_name: String,
    pub supports_streaming: bool,
    pub embedding_model: Option<String>,
    /// The time after which a request is given up, in seconds.
    pub timeout_secs: u64,
}

// ---------------------------------------------------------------------------------------------
// The server's URL
// ---------------------------------------------------------------------------------------------
/// `host` as a URL: with `http://` in front where it names no scheme.
pub open spec fn with_scheme(host: Seq<char>) -> Seq<char> {
    if "http://"@.is_prefix_of(host) || "https://"@.is_prefix_of(host) {
        host
    } else {
        "http://"@ + host
    }
}

/// Whether the server is at Ollama's own port: not where the URL names a port, not where the host
/// was written with the port 80 or 443, and not over HTTPS.
pub open spec fn needs_default_port(host: Seq<char>, url: UrlView) -> bool {
    url.port is None && !":80"@.is_suffix_of(host) && !":443"@.is_suffix_of(host) && url.scheme
        != "https"@
}

/// What is wrong with a host.
pub enum HostError {
    /// It is no URL, for the given reason.
    Invalid(Seq<char>),
    /// It cannot have a port.
    NoPort,
}

/// The server's URL for a host.
pub open spec fn server_url(host: Seq<char>) -> Result<Seq<char>, HostError> {
    match url_parsed(with_scheme(host)) {
        Err(e) => Err(HostError::Invalid(e)),
        Ok(url) => if needs_default_port(host, url) {
            match url_with_port(with_scheme(host), OLLAMA_DEFAULT_PORT) {
                Some(text) => Ok(text),
                None => Err(HostError::NoPort),
            }
        } else {
            Ok(url.text)
        },
    }
}

/// The host stands for a URL that can have a port: one with a host name, and not of a file.
pub open spec fn takes_port(host: Seq<char>) -> bool {
    url_parsed(with_scheme(host)) matches Ok(url) && url.host is Some && url.host->0.len() > 0
        && url.scheme != "file"@
}

/// Whether the server is at Ollama's own port, given the URL that its host stands for.
pub fn wants_default_port(host: &str, url: &UrlParts) -> (res: bool)
    ensures
        res == needs_default_port(host@, url@),
{
    let explicit_default_port = ends_with(host, ":80") || ends_with(host, ":443");
    let is_https = same_text(url.scheme.as_str(), "https");
    url.port.is_none() && !explicit_default_port && !is_https
}

/// `host` as a URL: with `http://` in front where it names no scheme.
pub fn add_scheme(host: &str) -> (res: String)
    ensures
        res@ == with_scheme(host@),
{
    if starts_with(host, "http://") || starts_with(host, "https://") {
        host.to_owned()
    } else {
        "http://".to_owned().concat(host)
    }
}

/// The server's URL for a host. The error is the reason for which the host is no URL, or none
/// where it cannot have a port.
fn find_server(host: &str) -> (res: Result<String, Option<String>>)
    requires
        host@.len() < MAX_URL_CHARS - 7,
    ensures
        match server_url(host@) {
            Ok(url) => res matches Ok(text) && text@ == url,
            Err(HostError::Invalid(reason)) => res matches Err(Some(e)) && e@ == reason,
            Err(HostError::NoPort) => res == Err::<String, Option<String>>(None),
        },
        takes_port(host@) ==> res is Ok,
{
    proof {
        reveal_strlit("http://");
    }
    let base = add_scheme(host);
    match parse_url(base.as_str()) {
        Err(e) => Err(Some(e)),
        Ok(url) => if wants_default_port(host, &url) {
            match set_url_port(base.as_str(), OLLAMA_DEFAULT_PORT) {
                Some(text) => Ok(text),
                None => Err(None),
            }
        } else {
            Ok(url.text)
        },
    }
}

// ---------------------------------------------------------------------------------------------
// Reasoning in answers
// ---------------------------------------------------------------------------------------------
/// `text` without the matches of a regular expression; none where the expression is not one.
pub uninterp spec fn regex_removed(pattern: Seq<char>, text: Seq<char>) -> Option<Seq<char>>;

/// `regex::Regex::new` and `regex::Regex::replace_all` with nothing in place of the matches.
#[verifier::external_body]
fn remove_matches(pattern: &str, text: &str) -> (res: Option<String>)
    ensures
        opt_view(res) == regex_removed(pattern@, text@),
{
    let re = regex::Regex::new(pattern).ok()?;
    Some(re.replace_all(text, "").to_string())
}

/// What reasoning looks like in an answer, as regular expressions.
pub open spec fn reasoning_patterns() -> Seq<Seq<char>> {
    seq![
        "<think>.*?</think>"@,
        "<thinking>.*?</thinking>"@,
        "Let me think.*?\\n"@,
        "I need to.*?\\n"@,
        "First, I.*?\\n"@,
        "Okay, .*?\\n"@,
        "So, .*?\\n"@,
        "Well, .*?\\n"@,
        "Hmm, .*?\\n"@,
        "Actually, .*?\\n"@,
        "Based on.*?I think"@,
        "Looking at.*?I would say"@,
    ]
}

/// `text` without the matches of the patterns from the pattern `i` on, one pattern after the
/// other.
pub open spec fn without_patterns(patterns: Seq<Seq<char>>, text: Seq<char>, i: int) -> Seq<char>
    decreases patterns.len() - i,
{
    if i < 0 || i >= patterns.len() {
        text
    } else {
        without_patterns(
            patterns,
            match regex_removed(patterns[i], text) {
                Some(t) => t,
                None => text,
            },
            i + 1,
        )
    }
}

/// `text` without the markers of reasoning.
pub open spec fn without_markers(text: Seq<char>) -> Seq<char> {
    replace_of(
        replace_of(
            replace_of(replace_of(text, "<think>"@, ""@), "</think>"@, ""@),
            "<thinking>"@,
            ""@,
        ),
        "</thinking>"@,
        ""@,
    )
}

/// The lines, each trimmed, without those that are blank.
pub open spec fn solid_lines(lines: Seq<Seq<char>>) -> Seq<Seq<char>>
    decreases lines.len(),
{
    if lines.len() == 0 {
        Seq::empty()
    } else {
        let before = solid_lines(lines.drop_last());
        if trim_of(lines.last()).len() > 0 {
            before.push(trim_of(lines.last()))
        } else {
            before
        }
    }
}

/// The lines of a text, trimmed and without blank ones, on one line.
pub open spec fn on_one_line(text: Seq<char>) -> Seq<char> {
    join_of(solid_lines(split_of(text, "\n"@)), " "@)
}

proof fn lemma_solid_lines(lines: Seq<Seq<char>>, c: char)
    requires
        forall|i: int| 0 <= i < lines.len() ==> !(#[trigger] lines[i]).contains(c),
    ensures
        forall|i: int|
            0 <= i < solid_lines(lines).len() ==> {
                let l = #[trigger] solid_lines(lines)[i];
                !l.contains(c) && l.len() > 0 && !is_white_space(l[0]) && !is_white_space(l.last())
            },
    decreases lines.len(),
{
    if lines.len() > 0 {
        let rest = lines.drop_last();
        assert forall|i: int| 0 <= i < rest.len() implies !(#[trigger] rest[i]).contains(c) by {
            assert(rest[i] == lines[i]);
        }
        lemma_solid_lines(rest, c);
        assert(!lines[lines.len() - 1].contains(c));
        lemma_trim_keeps(lines.last(), c);
        lemma_trim_of(lines.last());
        let solid = solid_lines(lines);
        let before = solid_lines(rest);
        assert forall|i: int| 0 <= i < solid.len() implies {
            let l = #[trigger] solid[i];
            !l.contains(c) && l.len() > 0 && !is_white_space(l[0]) && !is_white_space(l.last())
        } by {
            if i < before.len() {
                assert(solid[i] == before[i]);
            }
        }
    }
}

proof fn lemma_join_ends(parts: Seq<Seq<char>>, sep: Seq<char>)
    requires
        parts.len() > 0,
        forall|i: int| 0 <= i < parts.len() ==> (#[trigger] parts[i]).len() > 0,
    ensures
        join_of(parts, sep).len() > 0,
        join_of(parts, sep)[0] == parts[0][0],
        join_of(parts, sep).last() == parts.last().last(),
    decreases parts.len(),
{
    assert(parts[parts.len() - 1].len() > 0);
    if parts.len() > 1 {
        let rest = parts.drop_last();
        assert forall|i: int| 0 <= i < rest.len() implies (#[trigger] rest[i]).len() > 0 by {
            assert(rest[i] == parts[i]);
        }
        lemma_join_ends(rest, sep);
        let j = join_of(parts, sep);
        assert(j[0] == join_of(rest, sep)[0]);
    }
}

/// What is left of an answer stands on one line, without white space at either end.
pub proof fn lemma_on_one_line(text: Seq<char>)
    ensures
        !on_one_line(text).contains('\n'),
        on_one_line(text).len() > 0 ==> !is_white_space(on_one_line(text)[0]) && !is_white_space(
            on_one_line(text).last(),
        ),
{
    reveal_strlit("\n");
    reveal_strlit(" ");
    let lines = split_of(text, "\n"@);
    lemma_split_pieces(text, "\n"@);
    lemma_solid_lines(lines, '\n');
    let solid = solid_lines(lines);
    assert(!" "@.contains('\n'));
    assert forall|i: int| 0 <= i < solid.len() implies !(#[trigger] solid[i]).contains('\n') by {}
    lemma_join_keeps(solid, " "@, '\n');
    if solid.len() > 0 {
        assert forall|i: int| 0 <= i < solid.len() implies (#[trigger] solid[i]).len() > 0 by {}
        lemma_join_ends(solid, " "@);
        assert(!is_white_space(solid[0][0]));
        assert(!is_white_space(solid[solid.len() - 1].last()));
    }
}

/// Takes the markers of reasoning out of a text and puts its lines, trimmed and without blank
/// ones, on one line.
pub fn clean_up_reasoning(text: &str) -> (res: String)
    ensures
        res@ == on_one_line(without_markers(text@)),
{
    proof {
        reveal_strlit("<think>");
        reveal_strlit("</think>");
        reveal_strlit("<thinking>");
        reveal_strlit("</thinking>");
        reveal_strlit("\n");
    }
    let a = replace(text, "<think>", "");
    let b = replace(a.as_str(), "</think>", "");
    let c = replace(b.as_str(), "<thinking>", "");
    let d = replace(c.as_str(), "</thinking>", "");
    let lines = split(d.as_str(), "\n");
    let ghost all = views(lines@);
    let mut solid: Vec<String> = Vec::new();
    let mut i: usize = 0;
    assert(all.take(0) =~= Seq::empty());
    assert(views(solid@) =~= Seq::empty());
    while i < lines.len()
        invariant
            i <= lines@.len(),
            all == views(lines@),
            views(solid@) == solid_lines(all.take(i as int)),
        decreases lines@.len() - i,
    {
        let ghost before = views(solid@);
        assert(all.take(i + 1).drop_last() =~= all.take(i as int));
        let line = trim(lines[i].as_str());
        let blank = same_text(line.as_str(), "");
        proof {
            reveal_strlit("");
            assert(blank == (line@.len() == 0)) by {
                if line@.len() == 0 {
                    assert(line@ =~= ""@);
                }
            }
        }
        if !blank {
            let ghost l = line@;
            solid.push(line);
            assert(views(solid@) =~= before.push(l));
        }
        i += 1;
    }
    assert(all.take(all.len() as int) =~= all);
    join(&solid, " ")
}

impl OllamaProvider {
    /// The provider that the configuration describes: the host, the model for embeddings and the
    /// timeout where it gives them.
    pub fn from_env(
        model_name: String,
        host: Option<String>,
        embedding_model: Option<String>,
        timeout_secs: Option<u64>,
    ) -> (res: Self)
        ensures
            res.model_name == model_name,
            res.host@ == (match host {
                Some(h) => h@,
                None => OLLAMA_HOST@,
            }),
            res.embedding_model == embedding_model,
            res.supports_streaming,
            res.timeout_secs == (match timeout_secs {
                Some(t) => t,
                None => OLLAMA_TIMEOUT,
            }),
    {
        OllamaProvider {
            host: match host {
                Some(h) => h,
                None => OLLAMA_HOST.to_owned(),
            },
            model_name,
            supports_streaming: true,
            embedding_model,
            timeout_secs: match timeout_secs {
                Some(t) => t,
                None => OLLAMA_TIMEOUT,
            },
        }
    }

    /// Get the base URL for Ollama API calls
    pub fn get_base_url(&self) -> (res: Result<String, ProviderError>)
        requires
            self.host@.len() < MAX_URL_CHARS - 7,
        ensures
            match server_url(self.host@) {
                Ok(url) => res matches Ok(text) && text@ == url,
                Err(HostError::Invalid(reason)) => res matches Err(e) && e@
                    == ProviderErrorView::RequestFailed("Invalid base URL: "@ + reason),
                Err(HostError::NoPort) => res matches Err(e) && e@
                    == ProviderErrorView::RequestFailed("Failed to set default port"@),
            },
            takes_port(self.host@) ==> res is Ok,
    {
        match find_server(self.host.as_str()) {
            Ok(text) => Ok(text),
            Err(Some(e)) => Err(
                ProviderError::RequestFailed("Invalid base URL: ".to_owned().concat(e.as_str())),
            ),
            Err(None) => Err(
                ProviderError::RequestFailed("Failed to set default port".to_owned()),
            ),
        }
    }

    /// The provider that the user has set up. The error is the text of what is wrong.
    pub fn from_custom_config(model_name: String, config: &CustomProviderConfig) -> (res: Result<
        Self,
        String,
    >)
        requires
            config.base_url@.len() < MAX_URL_CHARS - 7,
        ensures
            match server_url(config.base_url@) {
                Ok(url) => {
                    &&& res matches Ok(p)
                    &&& p.host@ == url
                    &&& p.model_name == model_name
                    &&& p.supports_streaming == (config.supports_streaming != Some(false))
                    &&& p.embedding_model is None
                    &&& p.timeout_secs == (match config.timeout_seconds {
                        Some(t) => t,
                        None => OLLAMA_TIMEOUT,
                    })
                },
                Err(HostError::Invalid(reason)) => res matches Err(e) && e@ == "Invalid base URL '"@
                    + config.base_url@ + "': "@ + reason,
                Err(HostError::NoPort) => res matches Err(e) && e@ == "Failed to set default port"@,
            },
    {
        let host = match find_server(config.base_url.as_str()) {
            Ok(text) => text,
            Err(Some(e)) => {
                return Err(
                    "Invalid base URL '".to_owned().concat(config.base_url.as_str()).concat(
                        "': ",
                    ).concat(e.as_str()),
                );
            },
            Err(None) => {
                return Err("Failed to set default port".to_owned());
            },
        };
        Ok(
            OllamaProvider {
                host,
                model_name,
                supports_streaming: match config.supports_streaming {
                    Some(s) => s,
                    None => true,
                },
                embedding_model: None,
                timeout_secs: match config.timeout_seconds {
                    Some(t) => t,
                    None => OLLAMA_TIMEOUT,
                },
            },
        )
    }

    /// The model for embeddings: the one that is set for them, or else the model for chat.
    pub open spec fn embedding_model_name(&self) -> Seq<char> {
        match self.embedding_model {
            Some(m) => m@,
            None => self.model_name@,
        }
    }

    /// The model for embeddings: the one that is set for them, or else the model for chat.
    pub fn get_embedding_model(&self) -> (res: &str)
        ensures
            res@ == self.embedding_model_name(),
    {
        match &self.embedding_model {
            Some(m) => m.as_str(),
            None => self.model_name.as_str(),
        }
    }

    /// Where chat requests go.
    pub fn chat_url(&self) -> (res: Result<String, ProviderError>)
        requires
            self.host@.len() < MAX_URL_CHARS - 7,
        ensures
            match server_url(self.host@) {
                Ok(base) => match url_joined(base, "v1/chat/completions"@) {
                    Ok(url) => res matches Ok(text) && text@ == url,
                    Err(reason) => res matches Err(e) && e@ == ProviderErrorView::RequestFailed(
                        "Failed to construct endpoint URL: "@ + reason,
                    ),
                },
                Err(HostError::Invalid(reason)) => res matches Err(e) && e@
                    == ProviderErrorView::RequestFailed("Invalid base URL: "@ + reason),
                Err(HostError::NoPort) => res matches Err(e) && e@
                    == ProviderErrorView::RequestFailed("Failed to set default port"@),
            },
    {
        match self.get_base_url() {
            Err(e) => Err(e),
            Ok(base) => match join_url(base.as_str(), "v1/chat/completions") {
                Ok(url) => Ok(url),
                Err(reason) => Err(
                    ProviderError::RequestFailed(
                        "Failed to construct endpoint URL: ".to_owned().concat(reason.as_str()),
                    ),
                ),
            },
        }
    }

    /// How the provider is described to the user.
    pub fn metadata() -> (res: ProviderMetadata)
        ensures
            res.name@ == "ollama"@,
            res.display_name@ == "Ollama"@,
            res.description@ == "Local open source models"@,
            res.default_model@ == OLLAMA_DEFAULT_MODEL@,
            res.known_models@.len() == 1,
            model_info_is(res.known_models@[0], OLLAMA_DEFAULT_MODEL@, None),
            res.model_doc_link@ == OLLAMA_DOC_URL@,
            res.config_keys@.len() == 2,
            config_key_is(res.config_keys@[0], "OLLAMA_HOST"@, true, false, Some(OLLAMA_HOST@)),
            config_key_is(
                res.config_keys@[1],
                "OLLAMA_TIMEOUT"@,
                false,
                false,
                Some(decimal_of(OLLAMA_TIMEOUT as nat)),
            ),
    {
        let mut known_models: Vec<ModelInfo> = Vec::new();
        known_models.push(model_info(OLLAMA_DEFAULT_MODEL, None));
        let timeout = decimal(OLLAMA_TIMEOUT);
        let mut config_keys: Vec<ConfigKey> = Vec::new();
        config_keys.push(config_key("OLLAMA_HOST", true, false, Some(OLLAMA_HOST)));
        config_keys.push(config_key("OLLAMA_TIMEOUT", false, false, Some(timeout.as_str())));
        ProviderMetadata {
            name: "ollama".to_owned(),
            display_name: "Ollama".to_owned(),
            description: "Local open source models".to_owned(),
            default_model: OLLAMA_DEFAULT_MODEL.to_owned(),
            known_models,
            model_doc_link: OLLAMA_DOC_URL.to_owned(),
            config_keys,
        }
    }

    /// Whether a chat request names the tools: not in the mode `chat`. Without a mode it does.
    pub fn sends_tools(goose_mode: Option<&str>) -> (res: bool)
        ensures
            res == !(goose_mode is Some && goose_mode->0@ == "chat"@),
    {
        match goose_mode {
            Some(mode) => !same_text(mode, "chat"),
            None => true,
        }
    }

    /// Filter out reasoning tokens and thinking patterns from model responses
    pub fn filter_reasoning_tokens(text: &str) -> (res: String)
        ensures
            res@ == on_one_line(
                without_markers(without_patterns(reasoning_patterns(), text@, 0)),
            ),
    {
        let mut patterns: Vec<&'static str> = Vec::new();
        patterns.push("<think>.*?</think>");
        patterns.push("<thinking>.*?</thinking>");
        patterns.push("Let me think.*?\\n");
        patterns.push("I need to.*?\\n");
        patterns.push("First, I.*?\\n");
        patterns.push("Okay, .*?\\n");
        patterns.push("So, .*?\\n");
        patterns.push("Well, .*?\\n");
        patterns.push("Hmm, .*?\\n");
        patterns.push("Actually, .*?\\n");
        patterns.push("Based on.*?I think");
        patterns.push("Looking at.*?I would say");
        let ghost all = reasoning_patterns();
        let mut filtered = text.to_owned();
        let mut i: usize = 0;
        while i < patterns.len()
            invariant
                i <= patterns@.len(),
                all == reasoning_patterns(),
                patterns@.len() == all.len(),
                forall|j: int| 0 <= j < all.len() ==> #[trigger] all[j] == patterns@[j]@,
                without_patterns(all, text@, 0) == without_patterns(all, filtered@, i as int),
            decreases patterns@.len() - i,
        {
            assert(all[i as int] == patterns@[i as int]@);
            match remove_matches(patterns[i], filtered.as_str()) {
                Some(t) => {
                    filtered = t;
                },
                None => {},
            }
            i += 1;
        }
        clean_up_reasoning(filtered.as_str())
    }
}

// ---------------------------------------------------------------------------------------------
// Embeddings
// ---------------------------------------------------------------------------------------------
/// How long the embeddings of a model are, as far as it is known.
pub open spec fn known_dimensions(model: Seq<char>) -> usize {
    if model == "nomic-embed-text"@ {
        768
    } else {
        1024
    }
}

/// A model that embeds text.
pub open spec fn ollama_model(name: Seq<char>, dimensions: usize) -> ModelView {
    ModelView { name, dimensions, max_input_tokens: 2048, cost_per_token: None }
}

/// What a provider with the given model for embeddings can do.
pub open spec fn ollama_capabilities(model: Seq<char>) -> CapabilitiesView {
    CapabilitiesView {
        models: seq![ollama_model(model, known_dimensions(model))],
        default_model: model,
        max_batch_size: 32,
        supports_custom_dimensions: false,
    }
}

/// The default model is among the models.
pub proof fn lemma_ollama_default_model(model: Seq<char>)
    ensures
        find_model(
            ollama_capabilities(model).models,
            ollama_capabilities(model).default_model,
            0,
        ) == Some(ollama_model(model, known_dimensions(model))),
{
}

fn new_model(name: &str, dimensions: usize) -> (res: EmbeddingModel)
    ensures
        res@ == ollama_model(name@, dimensions),
{
    EmbeddingModel {
        name: name.to_owned(),
        dimensions,
        max_input_tokens: 2048,
        cost_per_token: None,
    }
}

impl EmbeddingService for OllamaProvider {
    open spec fn capabilities(&self) -> Option<CapabilitiesView> {
        Some(ollama_capabilities(self.embedding_model_name()))
    }

    fn embedding_capabilities(&self) -> (res: Option<EmbeddingCapabilities>) {
        let model = self.get_embedding_model();
        let dimensions: usize = if same_text(model, "nomic-embed-text") {
            768
        } else {
            1024
        };
        let mut models: Vec<EmbeddingModel> = Vec::new();
        models.push(new_model(model, dimensions));
        let res = EmbeddingCapabilities {
            models,
            default_model: model.to_owned(),
            max_batch_size: 32,
            supports_custom_dimensions: false,
        };
        assert(res@ =~= ollama_capabilities(model@));
        Some(res)
    }
}

/// A request for the embedding of one text.
#[derive(Debug, Clone)]
pub struct OllamaEmbedRequest {
    pub model: String,
    pub input: String,
}

/// How embeddings are made: there is nothing to do, or one request is sent for each text.
#[derive(Debug)]
pub enum OllamaEmbedPlan {
    Done(EmbeddingResult),
    Send { url: String, requests: Vec<OllamaEmbedRequest> },
}

/// One request for each text, in order.
pub open spec fn requests_are(
    requests: Seq<OllamaEmbedRequest>,
    texts: Seq<String>,
    model: Seq<char>,
) -> bool {
    &&& requests.len() == texts.len()
    &&& forall|i: int|
        0 <= i < requests.len() ==> (#[trigger] requests[i]).model@ == model && requests[i].input@
            == texts[i]@
}

/// The bits of the numbers, without the items that are none.
pub open spec fn numbers_in(items: Seq<Option<u64>>) -> Seq<u64>
    decreases items.len(),
{
    if items.len() == 0 {
        Seq::empty()
    } else {
        match items.last() {
            Some(n) => numbers_in(items.drop_last()).push(n),
            None => numbers_in(items.drop_last()),
        }
    }
}

/// The embedding in an answer: the numbers in the first item of the array `embeddings`, as bits
/// of double-precision numbers. None where there is no such item, or where it is no array.
pub open spec fn embedding_in(reply: Seq<char>) -> Option<Seq<u64>> {
    match json_member_of(reply, "embeddings"@) {
        None => None,
        Some(member) => match json_items_of(member) {
            None => None,
            Some(items) => if items.len() == 0 {
                None
            } else {
                match json_numbers_of(reply, "/embeddings/0"@) {
                    Some(numbers) => Some(numbers_in(numbers)),
                    None => None,
                }
            },
        },
    }
}

/// The numbers among the items.
pub fn keep_numbers(items: &Vec<Option<u64>>) -> (res: Vec<u64>)
    ensures
        res@ == numbers_in(items@),
{
    let mut out: Vec<u64> = Vec::new();
    let mut i: usize = 0;
    assert(items@.take(0) =~= Seq::empty());
    while i < items.len()
        invariant
            i <= items@.len(),
            out@ == numbers_in(items@.take(i as int)),
        decreases items@.len() - i,
    {
        assert(items@.take(i + 1).drop_last() =~= items@.take(i as int));
        match items[i] {
            Some(n) => {
                out.push(n);
            },
            None => {},
        }
        i += 1;
    }
    assert(items@.take(items@.len() as int) =~= items@);
    out
}

/// Reads the embedding in an answer that is JSON.
fn find_embedding(reply: &str) -> (res: Result<Vec<u64>, ProviderError>)
    ensures
        embedding_is(reply@, res),
{
    match json_member(reply, "embeddings") {
        Some(member) => match json_items(member.as_str()) {
            Some(items) => if items.len() > 0 {
                match json_numbers(reply, "/embeddings/0") {
                    Some(numbers) => {
                        return Ok(keep_numbers(&numbers));
                    },
                    None => {},
                }
            },
            None => {},
        },
        None => {},
    }
    Err(ProviderError::RequestFailed("Invalid embedding response format".to_owned()))
}

/// What an answer that is JSON comes to: the embedding in it, or an error where there is none.
pub open spec fn embedding_is(reply: Seq<char>, res: Result<Vec<u64>, ProviderError>) -> bool {
    match embedding_in(reply) {
        Some(numbers) => res matches Ok(v) && v@ == numbers,
        None => res matches Err(e) && e@ == ProviderErrorView::RequestFailed(
            "Invalid embedding response format"@,
        ),
    }
}

/// Reads the embedding in an answer, as bits of double-precision numbers. An answer that is not
/// JSON is an error of its own.
pub fn read_embedding(reply: &str) -> (res: Result<Vec<u64>, ProviderError>)
    ensures
        match json_error_of(reply@) {
            Some(reason) => res matches Err(e) && e@ == ProviderErrorView::RequestFailed(reason),
            None => embedding_is(reply@, res),
        },
{
    match json_error(reply) {
        Some(reason) => Err(ProviderError::RequestFailed(reason)),
        None => find_embedding(reply),
    }
}

/// What came of a request for the embedding of one text.
#[derive(Debug)]
pub enum OllamaReply {
    /// It could not be sent, for the given reason.
    NotSent(String),
    /// It was refused, for the given reason.
    Refused(String),
    /// The text of the answer.
    Body(String),
}

/// Reads the bare embedding in a reply, as bits of double-precision numbers. The error tells at
/// which step the request failed.
pub fn read_bare_embedding(reply: OllamaReply) -> (res: Result<Vec<u64>, ProviderError>)
    ensures
        match reply {
            OllamaReply::NotSent(reason) => res matches Err(e) && e@
                == ProviderErrorView::RequestFailed("Request failed: "@ + reason@),
            OllamaReply::Refused(reason) => res matches Err(e) && e@
                == ProviderErrorView::RequestFailed("Response handling failed: "@ + reason@),
            OllamaReply::Body(text) => match json_error_of(text@) {
                Some(reason) => res matches Err(e) && e@ == ProviderErrorView::RequestFailed(
                    "Response handling failed: "@ + reason,
                ),
                None => embedding_is(text@, res),
            },
        },
{
    match reply {
        OllamaReply::NotSent(reason) => Err(
            ProviderError::RequestFailed("Request failed: ".to_owned().concat(reason.as_str())),
        ),
        OllamaReply::Refused(reason) => Err(
            ProviderError::RequestFailed(
                "Response handling failed: ".to_owned().concat(reason.as_str()),
            ),
        ),
        OllamaReply::Body(text) => match json_error(text.as_str()) {
            Some(reason) => Err(
                ProviderError::RequestFailed(
                    "Response handling failed: ".to_owned().concat(reason.as_str()),
                ),
            ),
            None => find_embedding(text.as_str()),
        },
    }
}

/// The embeddings that came back, in order, or the first error among them.
pub fn collect_embeddings(results: Vec<Result<Vec<u32>, ProviderError>>) -> (res: Result<
    Vec<Vec<u32>>,
    ProviderError,
>)
    ensures
        match res {
            Ok(embeddings) => {
                &&& embeddings@.len() == results@.len()
                &&& forall|i: int|
                    0 <= i < results@.len() ==> results@[i] == Ok::<_, ProviderError>(
                        #[trigger] embeddings@[i],
                    )
            },
            Err(e) => exists|i: int|
                0 <= i < results@.len() && #[trigger] results@[i] == Err::<Vec<u32>, _>(e)
                    && forall|j: int| 0 <= j < i ==> (#[trigger] results@[j]) is Ok,
        },
{
    let ghost all = results@;
    let mut embeddings: Vec<Vec<u32>> = Vec::new();
    for result in it: results
        invariant
            it.seq() == all,
            all == results@,
            embeddings@.len() == it.index(),
            forall|i: int|
                0 <= i < it.index() ==> all[i] == Ok::<_, ProviderError>(#[trigger] embeddings@[i]),
    {
        let ghost k = it.index() as int;
        match result {
            Ok(e) => {
                embeddings.push(e);
            },
            Err(e) => {
                assert forall|j: int| 0 <= j < k implies (#[trigger] all[j]) is Ok by {
                    assert(all[j] == Ok::<_, ProviderError>(embeddings@[j]));
                }
                assert(all[k] == Err::<Vec<u32>, _>(e));
                return Err(e);
            },
        }
    }
    Ok(embeddings)
}

impl OllamaProvider {
    /// Where requests for embeddings go.
    pub fn embed_url(&self) -> (res: Result<String, ProviderError>)
        requires
            self.host@.len() < MAX_URL_CHARS - 7,
        ensures
            self.embed_url_is(res),
    {
        match self.get_base_url() {
            Err(e) => Err(e),
            Ok(base) => match join_url(base.as_str(), "api/embed") {
                Ok(url) => Ok(url),
                Err(_) => Err(
                    ProviderError::RequestFailed("Failed to construct endpoint URL".to_owned()),
                ),
            },
        }
    }

    /// Where requests for embeddings go, or why there is no such place.
    pub open spec fn embed_url_is(&self, res: Result<String, ProviderError>) -> bool {
        match server_url(self.host@) {
            Ok(base) => match url_joined(base, "api/embed"@) {
                Ok(url) => res matches Ok(text) && text@ == url,
                Err(_) => res matches Err(e) && e@ == ProviderErrorView::RequestFailed(
                    "Failed to construct endpoint URL"@,
                ),
            },
            Err(HostError::Invalid(reason)) => res matches Err(e) && e@
                == ProviderErrorView::RequestFailed("Invalid base URL: "@ + reason),
            Err(HostError::NoPort) => res matches Err(e) && e@ == ProviderErrorView::RequestFailed(
                "Failed to set default port"@,
            ),
        }
    }

    /// The requests for the embeddings of texts.
    pub fn embed_requests(texts: &Vec<String>, model: &str) -> (res: Vec<OllamaEmbedRequest>)
        ensures
            requests_are(res@, texts@, model@),
    {
        let mut requests: Vec<OllamaEmbedRequest> = Vec::new();
        let mut i: usize = 0;
        while i < texts.len()
            invariant
                i <= texts@.len(),
                requests_are(requests@, texts@.take(i as int), model@),
            decreases texts@.len() - i,
        {
            requests.push(OllamaEmbedRequest { model: model.to_owned(), input: texts[i].clone() });
            i += 1;
        }
        assert(texts@.take(texts@.len() as int) =~= texts@);
        requests
    }

    /// How the embeddings of texts are made with a model. For no texts there is nothing to do:
    /// the result names the model, with what is known of it.
    pub fn create_embeddings_with_model(&self, texts: &Vec<String>, model: &str) -> (res: Result<
        OllamaEmbedPlan,
        ProviderError,
    >)
        requires
            texts@.len() > 0 ==> self.host@.len() < MAX_URL_CHARS - 7,
        ensures
            texts@.len() == 0 ==> {
                &&& res matches Ok(OllamaEmbedPlan::Done(r))
                &&& r.embeddings@.len() == 0
                &&& r.model@ == ollama_model(
                    model@,
                    if model@ == self.embedding_model_name() {
                        known_dimensions(model@)
                    } else {
                        1024
                    },
                )
                &&& r.usage == (EmbeddingUsage { tokens: Some(0), embeddings_count: 0 })
            },
            texts@.len() > 0 ==> match res {
                Ok(OllamaEmbedPlan::Send { url, requests }) => self.embed_url_is(Ok(url))
                    && requests_are(requests@, texts@, model@),
                Ok(OllamaEmbedPlan::Done(_)) => false,
                Err(e) => self.embed_url_is(Err(e)),
            },
    {
        if texts.len() == 0 {
            let found = self.get_embedding_model_info(model);
            proof {
                reveal_with_fuel(find_model, 2);
            }
            let info = match found {
                Some(m) => m,
                None => new_model(model, 1024),
            };
            return Ok(
                OllamaEmbedPlan::Done(
                    EmbeddingResult {
                        embeddings: Vec::new(),
                        model: info,
                        usage: EmbeddingUsage { tokens: Some(0), embeddings_count: 0 },
                    },
                ),
            );
        }
        let url = match self.embed_url() {
            Ok(url) => url,
            Err(e) => return Err(e),
        };
        Ok(OllamaEmbedPlan::Send { url, requests: Self::embed_requests(texts, model) })
    }

    /// How bare embeddings of texts are made: where the requests go, and one request for each
    /// text, with the model for embeddings.
    pub fn create_embeddings(&self, texts: &Vec<String>) -> (res: Result<
        (String, Vec<OllamaEmbedRequest>),
        ProviderError,
    >)
        requires
            self.host@.len() < MAX_URL_CHARS - 7,
        ensures
            match res {
                Ok((url, requests)) => self.embed_url_is(Ok(url)) && requests_are(
                    requests@,
                    texts@,
                    self.embedding_model_name(),
                ),
                Err(e) => self.embed_url_is(Err(e)),
            },
    {
        match self.embed_url() {
            Ok(url) => Ok((url, Self::embed_requests(texts, self.get_embedding_model()))),
            Err(e) => Err(e),
        }
    }

    /// What the answers to the requests come to: the first error among them, or the embeddings,
    /// whose length is taken from the first of them.
    pub fn finish_embeddings(
        model: &str,
        results: Vec<Result<Vec<u32>, ProviderError>>,
    ) -> (res: Result<EmbeddingResult, ProviderError>)
        ensures
            match res {
                Ok(r) => {
                    &&& r.embeddings@.len() == results@.len()
                    &&& forall|i: int|
                        0 <= i < results@.len() ==> results@[i] == Ok::<_, ProviderError>(
                            #[trigger] r.embeddings@[i],
                        )
                    &&& r.model@ == ollama_model(
                        model@,
                        if r.embeddings@.len() > 0 {
                            r.embeddings@[0]@.len() as usize
                        } else {
                            1024
                        },
                    )
                    &&& r.usage == (EmbeddingUsage {
                        tokens: None,
                        embeddings_count: results@.len() as usize,
                    })
                },
                Err(e) => exists|i: int|
                    0 <= i < results@.len() && #[trigger] results@[i] == Err::<Vec<u32>, _>(e)
                        && forall|j: int| 0 <= j < i ==> (#[trigger] results@[j]) is Ok,
            },
    {
        let count: usize = results.len();
        let embeddings = match collect_embeddings(results) {
            Ok(e) => e,
            Err(e) => return Err(e),
        };
        let dimensions: usize = if embeddings.len() > 0 {
            embeddings[0].len()
        } else {
            1024
        };
        Ok(
            EmbeddingResult {
                embeddings,
                model: new_model(model, dimensions),
                usage: EmbeddingUsage { tokens: None, embeddings_count: count },
            },
        )
    }
}

} // verus!
