//! The OpenAI provider: its settings, its requests, and how it makes embeddings.
use crate::embedding::{
    find_model, CapabilitiesView, EmbeddingCapabilities, EmbeddingModel, EmbeddingRequest,
    EmbeddingResponse, EmbeddingResult, EmbeddingService, EmbeddingUsage, ModelView,
};
use crate::errors::{ProviderError, ProviderErrorView};
use crate::json::{
    json_error, json_error_of, json_items, json_items_of, json_member, json_member_of, json_str,
    json_str_of,
};
use crate::metadata::{
    distinct_keys, lemma_distinct_entries, lists, opt_metadata, Metadata,
};
use crate::provider::{
    config_key, config_key_is, model_info, model_info_is, ConfigKey, CustomProviderConfig,
    ModelInfo, ProviderMetadata,
};
use crate::sorting::{is_sorted, sort_texts};
use crate::text::{
    find_from, lemma_find_from, lemma_split_together, matches_at, opt_view, replace, replace_of, same_text, split,
    split_of, split_once, split_once_of, trim, trim_of, trim_start_char, trim_start_char_of,
    views,
};
use crate::web::{
    header_error_of, headers_error, join_url, parse_url, url_joined, url_parsed, UrlParts,
    UrlView,
};
use vstd::prelude::*;

verus! {

pub const OPEN_AI_DEFAULT_MODEL: &'static str = "gpt-4o";

pub const OPEN_AI_DOC_URL: &'static str = "https://platform.openai.com/docs/models";

pub const OPEN_AI_DEFAULT_HOST: &'static str = "https://api.openai.com";

pub const OPEN_AI_DEFAULT_BASE_PATH: &'static str = "v1/chat/completions";

/// The time after which a request is given up, in seconds.
pub const OPEN_AI_TIMEOUT: u64 = 600;

pub const OPEN_AI_DEFAULT_EMBEDDING_MODEL: &'static str = "text-embedding-3-small";

/// An OpenAI server, or one that is compatible with it.
#[derive(Debug)]
pub struct OpenAiProvider {
    pub host: String,
    pub base_path: String,
    pub api_key: String,
    pub organization: Option<String>,
    pub project: Option<String>,
    pub model_name: String,
    pub custom_headers: Option<Metadata>,
    pub supports_streaming: bool,
    /// The time after which a request is given up, in seconds.
    pub timeout_secs: u64,
}

// ---------------------------------------------------------------------------------------------
// Custom headers
// ---------------------------------------------------------------------------------------------
/// The header in `key=value`: what stands before the first `=` and what stands behind it, both
/// trimmed. None where there is no `=`.
pub open spec fn header_in(piece: Seq<char>) -> Option<(Seq<char>, Seq<char>)> {
    match split_once_of(piece, "="@) {
        Some((key, value)) => Some((trim_of(key), trim_of(value))),
        None => None,
    }
}

/// The headers in the pieces. Of two with the same key the later one counts.
pub open spec fn headers_in(pieces: Seq<Seq<char>>) -> Map<Seq<char>, Seq<char>>
    decreases pieces.len(),
{
    if pieces.len() == 0 {
        Map::empty()
    } else {
        let before = headers_in(pieces.drop_last());
        match header_in(pieces.last()) {
            Some((key, value)) => before.insert(key, value),
            None => before,
        }
    }
}

/// Reads headers that are written as `key=value`, with commas between them.
pub fn parse_custom_headers(s: String) -> (res: Metadata)
    ensures
        res@ == headers_in(split_of(s@, ","@)),
{
    proof {
        reveal_strlit(",");
    }
    let pieces = split(s.as_str(), ",");
    let ghost all = views(pieces@);
    let mut headers = Metadata::new();
    let mut i: usize = 0;
    assert(all.take(0) =~= Seq::empty());
    while i < pieces.len()
        invariant
            i <= pieces@.len(),
            all == views(pieces@),
            headers@ == headers_in(all.take(i as int)),
        decreases pieces@.len() - i,
    {
        assert(all.take(i + 1).drop_last() =~= all.take(i as int));
        match split_once(pieces[i].as_str(), "=") {
            Some((key, value)) => {
                headers.insert(trim(key.as_str()), trim(value.as_str()));
            },
            None => {},
        }
        i += 1;
    }
    assert(all.take(all.len() as int) =~= all);
    headers
}

proof fn lemma_absent(s: Seq<char>, sep: Seq<char>)
    requires
        sep.len() == 1,
        !s.contains(sep[0]),
    ensures
        find_from(s, sep, 0) is None,
{
    lemma_find_from(s, sep, 0);
    match find_from(s, sep, 0) {
        Some(i) => {
            assert(s.subrange(i, i + 1)[0] == sep[0]);
            assert(s[i] == sep[0]);
        },
        None => {},
    }
}

/// One header is read as its key and its value, trimmed, whatever else the value holds: only
/// the first `=` counts.
pub proof fn lemma_one_header(key: Seq<char>, value: Seq<char>)
    requires
        !key.contains('='),
        !key.contains(','),
        !value.contains(','),
    ensures
        headers_in(split_of(key + "="@ + value, ","@)) == Map::<Seq<char>, Seq<char>>::empty().insert(
            trim_of(key),
            trim_of(value),
        ),
{
    reveal_strlit(",");
    reveal_strlit("=");
    let s = key + "="@ + value;
    assert(!s.contains(',')) by {
        if s.contains(',') {
            let i = choose|i: int| 0 <= i < s.len() && s[i] == ',';
            if i < key.len() {
                assert(key[i] == ',');
            } else if i > key.len() {
                assert(value[i - key.len() - 1] == ',');
            }
        }
    }
    lemma_absent(s, ","@);
    assert(split_of(s, ","@) == seq![s]);
    assert(seq![s].drop_last() =~= Seq::<Seq<char>>::empty());
    lemma_find_from(s, "="@, 0);
    let at = key.len() as int;
    assert(s.subrange(at, at + 1) =~= "="@);
    assert(matches_at(s, "="@, at));
    match find_from(s, "="@, 0) {
        Some(i) => {
            if i < at {
                assert(s.subrange(i, i + 1)[0] == '=');
                assert(key[i] == '=');
            }
            assert(i == at);
            assert(s.take(at) =~= key);
            assert(s.skip(at + 1) =~= value);
        },
        None => {},
    }
    reveal_with_fuel(headers_in, 2);
}

proof fn lemma_headers_together(p: Seq<Seq<char>>, q: Seq<Seq<char>>)
    ensures
        headers_in(p + q) == headers_in(p).union_prefer_right(headers_in(q)),
    decreases q.len(),
{
    if q.len() == 0 {
        assert(p + q =~= p);
        assert(headers_in(p).union_prefer_right(headers_in(q)) =~= headers_in(p));
    } else {
        assert((p + q).drop_last() =~= p + q.drop_last());
        lemma_headers_together(p, q.drop_last());
        assert(headers_in(p + q) =~= headers_in(p).union_prefer_right(headers_in(q)));
    }
}

/// Two lists of headers with a comma between them are read as the headers of both. Where both
/// have a key, the second one counts.
pub proof fn lemma_two_lists(a: Seq<char>, b: Seq<char>)
    ensures
        headers_in(split_of(a + ","@ + b, ","@)) == headers_in(
            split_of(a, ","@),
        ).union_prefer_right(headers_in(split_of(b, ","@))),
{
    reveal_strlit(",");
    lemma_split_together(a, b, ","@);
    lemma_headers_together(split_of(a, ","@), split_of(b, ","@));
}

/// A piece without `=` is no header.
pub proof fn lemma_no_header(piece: Seq<char>)
    requires
        !piece.contains('='),
    ensures
        header_in(piece) is None,
{
    reveal_strlit("=");
    lemma_absent(piece, "="@);
}

// ---------------------------------------------------------------------------------------------
// The provider
// ---------------------------------------------------------------------------------------------
/// The headers by their views.
pub open spec fn pair_views(v: Seq<(String, String)>) -> Seq<(Seq<char>, Seq<char>)> {
    Seq::new(v.len(), |i: int| (v[i].0@, v[i].1@))
}

/// The server in a URL: its scheme and its host, without a port.
pub open spec fn server_of(url: UrlView) -> Seq<char> {
    url.scheme + "://"@ + (match url.host {
        Some(h) => h,
        None => ""@,
    })
}

/// The path in a URL without slashes in front; the path for chat where it is empty.
pub open spec fn base_path_of(url: UrlView) -> Seq<char> {
    let path = trim_start_char_of(url.path, '/');
    if path.len() == 0 {
        OPEN_AI_DEFAULT_BASE_PATH@
    } else {
        path
    }
}

/// The server and the path in a URL.
pub fn split_base_url(url: &UrlParts) -> (res: (String, String))
    ensures
        res.0@ == server_of(url@),
        res.1@ == base_path_of(url@),
{
    let host = match &url.host {
        Some(h) => url.scheme.clone().concat("://").concat(h.as_str()),
        None => url.scheme.clone().concat("://").concat(""),
    };
    let path = trim_start_char(url.path.as_str(), '/');
    let empty = same_text(path.as_str(), "");
    proof {
        reveal_strlit("");
        assert(empty == (path@.len() == 0)) by {
            if path@.len() == 0 {
                assert(path@ =~= ""@);
            }
        }
    }
    if empty {
        (host, OPEN_AI_DEFAULT_BASE_PATH.to_owned())
    } else {
        (host, path)
    }
}

/// `given`, or `default` where it is not given.
fn or_default(given: Option<String>, default: &str) -> (res: String)
    ensures
        res@ == (match given {
            Some(s) => s@,
            None => default@,
        }),
{
    match given {
        Some(s) => s,
        None => default.to_owned(),
    }
}

impl OpenAiProvider {
    /// The provider that the configuration describes.
    pub fn from_env(
        model_name: String,
        api_key: String,
        host: Option<String>,
        base_path: Option<String>,
        organization: Option<String>,
        project: Option<String>,
        custom_headers: Option<String>,
        timeout_secs: Option<u64>,
    ) -> (res: Self)
        ensures
            res.model_name == model_name,
            res.api_key == api_key,
            res.host@ == (match host {
                Some(h) => h@,
                None => OPEN_AI_DEFAULT_HOST@,
            }),
            res.base_path@ == (match base_path {
                Some(p) => p@,
                None => OPEN_AI_DEFAULT_BASE_PATH@,
            }),
            res.organization == organization,
            res.project == project,
            opt_metadata(res.custom_headers) == (match custom_headers {
                Some(s) => Some(headers_in(split_of(s@, ","@))),
                None => None,
            }),
            res.supports_streaming,
            res.timeout_secs == (match timeout_secs {
                Some(t) => t,
                None => OPEN_AI_TIMEOUT,
            }),
    {
        OpenAiProvider {
            host: or_default(host, OPEN_AI_DEFAULT_HOST),
            base_path: or_default(base_path, OPEN_AI_DEFAULT_BASE_PATH),
            api_key,
            organization,
            project,
            model_name,
            custom_headers: match custom_headers {
                Some(s) => Some(parse_custom_headers(s)),
                None => None,
            },
            supports_streaming: true,
            timeout_secs: match timeout_secs {
                Some(t) => t,
                None => OPEN_AI_TIMEOUT,
            },
        }
    }

    /// The provider that the user has set up. `api_key` is the secret that the configuration
    /// names. The error is the text of what is wrong.
    pub fn from_custom_config(
        model_name: String,
        config: CustomProviderConfig,
        api_key: Option<String>,
    ) -> (res: Result<Self, String>)
        ensures
            match (api_key, url_parsed(config.base_url@)) {
                (None, _) => res matches Err(e) && e@ == "Missing API key: "@ + config.api_key_env@,
                (Some(_), Err(reason)) => res matches Err(e) && e@ == "Invalid base URL '"@
                    + config.base_url@ + "': "@ + reason,
                (Some(key), Ok(url)) => match res {
                    Ok(p) => {
                        &&& config.headers is Some ==> forall|k: Seq<char>| #[trigger]
                            config.headers->0@.dom().contains(k) ==> header_error_of(
                                k,
                                config.headers->0@[k],
                            ) is None
                        &&& p.host@ == server_of(url)
                        &&& p.base_path@ == base_path_of(url)
                        &&& p.api_key == key
                        &&& p.organization is None
                        &&& p.project is None
                        &&& p.model_name == model_name
                        &&& p.custom_headers == config.headers
                        &&& p.supports_streaming == (config.supports_streaming != Some(false))
                        &&& p.timeout_secs == (match config.timeout_seconds {
                            Some(t) => t,
                            None => OPEN_AI_TIMEOUT,
                        })
                    },
                    Err(e) => config.headers is Some && exists|k: Seq<char>| #[trigger]
                        config.headers->0@.dom().contains(k) && header_error_of(
                            k,
                            config.headers->0@[k],
                        ) == Some(e@),
                },
            },
    {
        let key = match api_key {
            Some(key) => key,
            None => {
                return Err(
                    "Missing API key: ".to_owned().concat(config.api_key_env.as_str()),
                );
            },
        };
        let url = match parse_url(config.base_url.as_str()) {
            Ok(url) => url,
            Err(reason) => {
                return Err(
                    "Invalid base URL '".to_owned().concat(config.base_url.as_str()).concat(
                        "': ",
                    ).concat(reason.as_str()),
                );
            },
        };
        let (host, base_path) = split_base_url(&url);
        match &config.headers {
            Some(headers) => match headers_error(headers) {
                Some(e) => {
                    return Err(e);
                },
                None => {},
            },
            None => {},
        }
        Ok(
            OpenAiProvider {
                host,
                base_path,
                api_key: key,
                organization: None,
                project: None,
                model_name,
                custom_headers: config.headers,
                supports_streaming: match config.supports_streaming {
                    Some(s) => s,
                    None => true,
                },
                timeout_secs: match config.timeout_seconds {
                    Some(t) => t,
                    None => OPEN_AI_TIMEOUT,
                },
            },
        )
    }

    /// The headers that name the organization and the project.
    pub open spec fn account_headers(&self) -> Seq<(Seq<char>, Seq<char>)> {
        (match self.organization {
            Some(org) => seq![("OpenAI-Organization"@, org@)],
            None => Seq::empty(),
        }) + (match self.project {
            Some(project) => seq![("OpenAI-Project"@, project@)],
            None => Seq::empty(),
        })
    }

    /// `headers` are the given ones, followed by the custom headers in any order, each once.
    pub open spec fn followed_by_custom(
        &self,
        headers: Seq<(String, String)>,
        fixed: Seq<(Seq<char>, Seq<char>)>,
    ) -> bool {
        &&& fixed.len() <= headers.len()
        &&& pair_views(headers.take(fixed.len() as int)) == fixed
        &&& match self.custom_headers {
            Some(custom) => lists(headers.skip(fixed.len() as int), custom@) && distinct_keys(
                headers.skip(fixed.len() as int),
            ),
            None => headers.len() == fixed.len(),
        }
    }

    /// Adds the headers that OpenAI knows, and the custom ones, to the headers of a request.
    pub fn add_headers(&self, headers: &mut Vec<(String, String)>)
        ensures
            self.followed_by_custom(
                final(headers)@,
                pair_views(old(headers)@) + self.account_headers(),
            ),
    {
        let ghost given = pair_views(headers@);
        match &self.organization {
            Some(org) => {
                headers.push(("OpenAI-Organization".to_owned(), org.clone()));
            },
            None => {},
        }
        match &self.project {
            Some(project) => {
                headers.push(("OpenAI-Project".to_owned(), project.clone()));
            },
            None => {},
        }
        let ghost fixed = given + self.account_headers();
        let ghost n = headers@.len() as int;
        assert(pair_views(headers@) =~= fixed);
        assert(headers@.take(n) =~= headers@);
        match &self.custom_headers {
            Some(custom) => {
                let entries = custom.entries();
                proof {
                    lemma_distinct_entries(entries@);
                }
                let mut i: usize = 0;
                let ghost start = headers@;
                while i < entries.len()
                    invariant
                        i <= entries@.len(),
                        headers@ =~= start + entries@.take(i as int),
                    decreases entries@.len() - i,
                {
                    headers.push((entries[i].0.clone(), entries[i].1.clone()));
                    i += 1;
                }
                assert(headers@.skip(n) =~= entries@);
                assert(headers@.take(n) =~= start);
            },
            None => {},
        }
    }

    /// The headers of every request: the key, the organization, the project, and the custom ones.
    pub fn request_headers(&self) -> (res: Vec<(String, String)>)
        ensures
            self.followed_by_custom(
                res@,
                seq![("Authorization"@, "Bearer "@ + self.api_key@)] + self.account_headers(),
            ),
    {
        let mut headers: Vec<(String, String)> = Vec::new();
        headers.push(
            ("Authorization".to_owned(), "Bearer ".to_owned().concat(self.api_key.as_str())),
        );
        assert(pair_views(headers@) =~= seq![("Authorization"@, "Bearer "@ + self.api_key@)]);
        self.add_headers(&mut headers);
        headers
    }

    /// What joining a path to the server comes to: a URL, or an error whose text has one of the
    /// given beginnings.
    pub open spec fn endpoint_is(
        &self,
        path: Seq<char>,
        bad_base: Seq<char>,
        bad_path: Seq<char>,
        res: Result<String, ProviderError>,
    ) -> bool {
        match url_parsed(self.host@) {
            Err(reason) => res matches Err(e) && e@ == ProviderErrorView::RequestFailed(
                bad_base + reason,
            ),
            Ok(_) => match url_joined(self.host@, path) {
                Err(reason) => res matches Err(e) && e@ == ProviderErrorView::RequestFailed(
                    bad_path + reason,
                ),
                Ok(url) => res matches Ok(text) && text@ == url,
            },
        }
    }

    fn endpoint(&self, path: &str, bad_base: &str, bad_path: &str) -> (res: Result<
        String,
        ProviderError,
    >)
        ensures
            self.endpoint_is(path@, bad_base@, bad_path@, res),
    {
        match parse_url(self.host.as_str()) {
            Err(reason) => Err(
                ProviderError::RequestFailed(bad_base.to_owned().concat(reason.as_str())),
            ),
            Ok(_) => match join_url(self.host.as_str(), path) {
                Err(reason) => Err(
                    ProviderError::RequestFailed(bad_path.to_owned().concat(reason.as_str())),
                ),
                Ok(url) => Ok(url),
            },
        }
    }

    /// Where chat requests go.
    pub fn chat_url(&self) -> (res: Result<String, ProviderError>)
        ensures
            self.endpoint_is(
                self.base_path@,
                "Invalid base URL: "@,
                "Failed to construct endpoint URL: "@,
                res,
            ),
    {
        self.endpoint(
            self.base_path.as_str(),
            "Invalid base URL: ",
            "Failed to construct endpoint URL: ",
        )
    }

    /// Where the list of models is asked for: where chat requests go, with the path for chat
    /// replaced by the path for models.
    pub fn models_url(&self) -> (res: Result<String, ProviderError>)
        ensures
            self.endpoint_is(
                replace_of(self.base_path@, "v1/chat/completions"@, "v1/models"@),
                ""@,
                ""@,
                res,
            ),
    {
        proof {
            reveal_strlit("v1/chat/completions");
        }
        let path = replace(self.base_path.as_str(), "v1/chat/completions", "v1/models");
        self.endpoint(path.as_str(), "", "")
    }

    /// Where requests for embeddings go.
    pub fn embeddings_url(&self) -> (res: Result<String, ProviderError>)
        ensures
            self.endpoint_is(
                "v1/embeddings"@,
                "Invalid base URL: "@,
                "Failed to construct embeddings URL: "@,
                res,
            ),
    {
        self.endpoint(
            "v1/embeddings",
            "Invalid base URL: ",
            "Failed to construct embeddings URL: ",
        )
    }

    /// How the provider is described to the user.
    pub fn metadata() -> (res: ProviderMetadata)
        ensures
            res.name@ == "openai"@,
            res.display_name@ == "OpenAI"@,
            res.description@ == "GPT-4 and other OpenAI models, including OpenAI compatible ones"@,
            res.default_model@ == OPEN_AI_DEFAULT_MODEL@,
            res.model_doc_link@ == OPEN_AI_DOC_URL@,
            res.known_models@.len() == 7,
            model_info_is(res.known_models@[0], "gpt-4o"@, Some(128000)),
            model_info_is(res.known_models@[1], "gpt-4o-mini"@, Some(128000)),
            model_info_is(res.known_models@[2], "gpt-4-turbo"@, Some(128000)),
            model_info_is(res.known_models@[3], "gpt-3.5-turbo"@, Some(16385)),
            model_info_is(res.known_models@[4], "o1"@, Some(200000)),
            model_info_is(res.known_models@[5], "o3"@, Some(200000)),
            model_info_is(res.known_models@[6], "o4-mini"@, Some(128000)),
            res.config_keys@.len() == 7,
            config_key_is(res.config_keys@[0], "OPENAI_API_KEY"@, true, true, None),
            config_key_is(
                res.config_keys@[1],
                "OPENAI_HOST"@,
                true,
                false,
                Some(OPEN_AI_DEFAULT_HOST@),
            ),
            config_key_is(
                res.config_keys@[2],
                "OPENAI_BASE_PATH"@,
                true,
                false,
                Some(OPEN_AI_DEFAULT_BASE_PATH@),
            ),
            config_key_is(res.config_keys@[3], "OPENAI_ORGANIZATION"@, false, false, None),
            config_key_is(res.config_keys@[4], "OPENAI_PROJECT"@, false, false, None),
            config_key_is(res.config_keys@[5], "OPENAI_CUSTOM_HEADERS"@, false, true, None),
            config_key_is(res.config_keys@[6], "OPENAI_TIMEOUT"@, false, false, Some("600"@)),
    {
        let mut known_models: Vec<ModelInfo> = Vec::new();
        known_models.push(model_info("gpt-4o", Some(128000)));
        known_models.push(model_info("gpt-4o-mini", Some(128000)));
        known_models.push(model_info("gpt-4-turbo", Some(128000)));
        known_models.push(model_info("gpt-3.5-turbo", Some(16385)));
        known_models.push(model_info("o1", Some(200000)));
        known_models.push(model_info("o3", Some(200000)));
        known_models.push(model_info("o4-mini", Some(128000)));
        let mut config_keys: Vec<ConfigKey> = Vec::new();
        config_keys.push(config_key("OPENAI_API_KEY", true, true, None));
        config_keys.push(config_key("OPENAI_HOST", true, false, Some(OPEN_AI_DEFAULT_HOST)));
        config_keys.push(
            config_key("OPENAI_BASE_PATH", true, false, Some(OPEN_AI_DEFAULT_BASE_PATH)),
        );
        config_keys.push(config_key("OPENAI_ORGANIZATION", false, false, None));
        config_keys.push(config_key("OPENAI_PROJECT", false, false, None));
        config_keys.push(config_key("OPENAI_CUSTOM_HEADERS", false, true, None));
        config_keys.push(config_key("OPENAI_TIMEOUT", false, false, Some("600")));
        ProviderMetadata {
            name: "openai".to_owned(),
            display_name: "OpenAI".to_owned(),
            description: "GPT-4 and other OpenAI models, including OpenAI compatible ones".to_owned(),
            default_model: OPEN_AI_DEFAULT_MODEL.to_owned(),
            known_models,
            model_doc_link: OPEN_AI_DOC_URL.to_owned(),
            config_keys,
        }
    }
}

// ---------------------------------------------------------------------------------------------
// The list of models
// ---------------------------------------------------------------------------------------------
/// The texts that are there, in order.
pub open spec fn present(ids: Seq<Option<Seq<char>>>) -> Seq<Seq<char>>
    decreases ids.len(),
{
    if ids.len() == 0 {
        Seq::empty()
    } else {
        match ids.last() {
            Some(id) => present(ids.drop_last()).push(id),
            None => present(ids.drop_last()),
        }
    }
}

/// Optional texts by their views.
pub open spec fn opt_text_views(ids: Seq<Option<String>>) -> Seq<Option<Seq<char>>> {
    Seq::new(ids.len(), |i: int| opt_view(ids[i]))
}

/// The text under `id` in a JSON object.
pub open spec fn id_in(item: Seq<char>) -> Option<Seq<char>> {
    match json_member_of(item, "id"@) {
        Some(member) => json_str_of(member),
        None => None,
    }
}

/// What an answer comes to: its error, if it has one, with its message; no list, where there is
/// no data; or the names of the models, sorted.
pub open spec fn models_are(
    error: Option<Option<Seq<char>>>,
    ids: Option<Seq<Option<Seq<char>>>>,
    res: Result<Option<Vec<String>>, ProviderError>,
) -> bool {
    match (error, ids) {
        (Some(message), _) => res matches Err(e) && e@ == ProviderErrorView::Authentication(
            match message {
                Some(m) => m,
                None => "unknown error"@,
            },
        ),
        (None, None) => res matches Ok(None),
        (None, Some(ids)) => res matches Ok(Some(models)) && is_sorted(views(models@)) && views(
            models@,
        ).to_multiset() == present(ids).to_multiset(),
    }
}

/// The error in an answer: none where it has none, and its message where it has one.
pub open spec fn error_in(reply: Seq<char>) -> Option<Option<Seq<char>>> {
    match json_member_of(reply, "error"@) {
        Some(error) => Some(
            match json_member_of(error, "message"@) {
                Some(message) => json_str_of(message),
                None => None,
            },
        ),
        None => None,
    }
}

/// The names of the models in an answer; none where it has no array `data`.
pub open spec fn ids_in(reply: Seq<char>) -> Option<Seq<Option<Seq<char>>>> {
    match json_member_of(reply, "data"@) {
        Some(data) => match json_items_of(data) {
            Some(items) => Some(Seq::new(items.len(), |i: int| id_in(items[i]))),
            None => None,
        },
        None => None,
    }
}

/// What the parts of an answer come to.
pub fn answer_models(error: Option<Option<String>>, ids: Option<Vec<Option<String>>>) -> (res:
    Result<Option<Vec<String>>, ProviderError>)
    ensures
        models_are(
            match error {
                Some(m) => Some(opt_view(m)),
                None => None,
            },
            match ids {
                Some(v) => Some(opt_text_views(v@)),
                None => None,
            },
            res,
        ),
{
    match error {
        Some(message) => {
            return Err(ProviderError::Authentication(or_default(message, "unknown error")));
        },
        None => {},
    }
    let all = match ids {
        Some(all) => all,
        None => {
            return Ok(None);
        },
    };
    let ghost texts = opt_text_views(all@);
    let mut models: Vec<String> = Vec::new();
    assert(texts.take(0) =~= Seq::empty());
    assert(views(models@) =~= Seq::empty());
    for id in it: all
        invariant
            it.seq() == all@,
            texts == opt_text_views(all@),
            views(models@) == present(texts.take(it.index() as int)),
    {
        let ghost k = it.index() as int;
        let ghost before = views(models@);
        assert(texts.take(k + 1).drop_last() =~= texts.take(k));
        match id {
            Some(text) => {
                models.push(text);
                assert(views(models@) =~= before.push(text@));
            },
            None => {},
        }
    }
    assert(texts.take(texts.len() as int) =~= texts);
    Ok(Some(sort_texts(models)))
}

/// Reads the names of the models in an answer to a request for them: none where the answer holds
/// no data. An answer that is not JSON is an error.
pub fn fetch_supported_models(reply: &str) -> (res: Result<Option<Vec<String>>, ProviderError>)
    ensures
        match json_error_of(reply@) {
            Some(reason) => res matches Err(e) && e@ == ProviderErrorView::RequestFailed(reason),
            None => models_are(error_in(reply@), ids_in(reply@), res),
        },
{
    match json_error(reply) {
        Some(reason) => {
            return Err(ProviderError::RequestFailed(reason));
        },
        None => {},
    }
    let error = match json_member(reply, "error") {
        Some(error) => Some(
            match json_member(error.as_str(), "message") {
                Some(message) => json_str(message.as_str()),
                None => None,
            },
        ),
        None => None,
    };
    let items = match json_member(reply, "data") {
        Some(data) => json_items(data.as_str()),
        None => None,
    };
    let ids = match items {
        Some(items) => {
            let mut ids: Vec<Option<String>> = Vec::new();
            let mut i: usize = 0;
            while i < items.len()
                invariant
                    i <= items@.len(),
                    ids@.len() == i,
                    forall|j: int| 0 <= j < i ==> opt_view(#[trigger] ids@[j]) == id_in(items@[j]@),
                decreases items@.len() - i,
            {
                let id = match json_member(items[i].as_str(), "id") {
                    Some(member) => json_str(member.as_str()),
                    None => None,
                };
                ids.push(id);
                i += 1;
            }
            assert(opt_text_views(ids@) =~= ids_in(reply@)->0);
            Some(ids)
        },
        None => None,
    };
    answer_models(error, ids)
}

// ---------------------------------------------------------------------------------------------
// Embeddings
// ---------------------------------------------------------------------------------------------
/// The bits of 0.00002 as a double-precision number.
pub const COST_SMALL: u64 = 0x3ef4f8b588e368f1;

/// The bits of 0.00013 as a double-precision number.
pub const COST_LARGE: u64 = 0x3f210a137f38c543;

/// The bits of 0.0001 as a double-precision number.
pub const COST_ADA: u64 = 0x3f1a36e2eb1c432d;

/// A model that embeds text.
pub open spec fn openai_model(name: Seq<char>, dimensions: usize, cost: Option<u64>) -> ModelView {
    ModelView { name, dimensions, max_input_tokens: 8192, cost_per_token: cost }
}

/// What the provider can do.
pub open spec fn openai_capabilities() -> CapabilitiesView {
    CapabilitiesView {
        models: seq![
            openai_model("text-embedding-3-small"@, 1536, Some(COST_SMALL)),
            openai_model("text-embedding-3-large"@, 3072, Some(COST_LARGE)),
            openai_model("text-embedding-ada-002"@, 1536, Some(COST_ADA)),
        ],
        default_model: "text-embedding-3-small"@,
        max_batch_size: 2048,
        supports_custom_dimensions: true,
    }
}

/// The default model is among the models.
pub proof fn lemma_openai_default_model()
    ensures
        find_model(openai_capabilities().models, openai_capabilities().default_model, 0) == Some(
            openai_model("text-embedding-3-small"@, 1536, Some(COST_SMALL)),
        ),
{
}

fn new_model(name: &str, dimensions: usize, cost: Option<u64>) -> (res: EmbeddingModel)
    ensures
        res@ == openai_model(name@, dimensions, cost),
{
    EmbeddingModel {
        name: name.to_owned(),
        dimensions,
        max_input_tokens: 8192,
        cost_per_token: cost,
    }
}

impl EmbeddingService for OpenAiProvider {
    open spec fn capabilities(&self) -> Option<CapabilitiesView> {
        Some(openai_capabilities())
    }

    fn embedding_capabilities(&self) -> (res: Option<EmbeddingCapabilities>) {
        let mut models: Vec<EmbeddingModel> = Vec::new();
        models.push(new_model("text-embedding-3-small", 1536, Some(COST_SMALL)));
        models.push(new_model("text-embedding-3-large", 3072, Some(COST_LARGE)));
        models.push(new_model("text-embedding-ada-002", 1536, Some(COST_ADA)));
        let res = EmbeddingCapabilities {
            models,
            default_model: "text-embedding-3-small".to_owned(),
            max_batch_size: 2048,
            supports_custom_dimensions: true,
        };
        assert(res@ =~= openai_capabilities());
        Some(res)
    }
}

/// How embeddings are made: there is nothing to do, or one request is sent.
#[derive(Debug)]
pub enum OpenAiEmbedPlan {
    Done(EmbeddingResult),
    Send { url: String, headers: Vec<(String, String)>, request: EmbeddingRequest },
}

/// What came of a request for embeddings.
#[derive(Debug)]
pub enum EmbeddingReply {
    /// It could not be sent, for the given reason.
    NotSent(String),
    /// It was refused, with the given text.
    Refused(String),
    /// The answer could not be read, for the given reason.
    Unreadable(String),
    /// The answer.
    Answer(EmbeddingResponse),
}

/// The embeddings in an answer.
pub open spec fn embeddings_in(response: EmbeddingResponse) -> Seq<Seq<u32>> {
    Seq::new(response.data@.len(), |i: int| response.data@[i].embedding@)
}

/// Embeddings by their views.
pub open spec fn embedding_views(embeddings: Seq<Vec<u32>>) -> Seq<Seq<u32>> {
    Seq::new(embeddings.len(), |i: int| embeddings[i]@)
}

/// The text of what went wrong with a request; none where it was answered.
pub open spec fn reply_error(reply: EmbeddingReply) -> Option<Seq<char>> {
    match reply {
        EmbeddingReply::NotSent(reason) => Some("Failed to send embedding request: "@ + reason@),
        EmbeddingReply::Refused(text) => Some("Embedding API error: "@ + text@),
        EmbeddingReply::Unreadable(reason) => Some(
            "Failed to parse embedding response: "@ + reason@,
        ),
        EmbeddingReply::Answer(_) => None,
    }
}

/// The embeddings in a reply. The error is the text of what went wrong.
pub fn read_embeddings(reply: EmbeddingReply) -> (res: Result<Vec<Vec<u32>>, String>)
    ensures
        match reply_error(reply) {
            Some(text) => res matches Err(e) && e@ == text,
            None => res matches Ok(embeddings) && embedding_views(embeddings@) == embeddings_in(
                reply->Answer_0,
            ),
        },
{
    match reply {
        EmbeddingReply::NotSent(reason) => Err(
            "Failed to send embedding request: ".to_owned().concat(reason.as_str()),
        ),
        EmbeddingReply::Refused(text) => Err(
            "Embedding API error: ".to_owned().concat(text.as_str()),
        ),
        EmbeddingReply::Unreadable(reason) => Err(
            "Failed to parse embedding response: ".to_owned().concat(reason.as_str()),
        ),
        EmbeddingReply::Answer(response) => {
            let ghost all = response.data@;
            let mut embeddings: Vec<Vec<u32>> = Vec::new();
            for data in it: response.data
                invariant
                    it.seq() == all,
                    embeddings@.len() == it.index(),
                    forall|i: int| 0 <= i < it.index() ==> (#[trigger] embeddings@[i])@
                        == all[i].embedding@,
            {
                embeddings.push(data.embedding);
            }
            assert(embedding_views(embeddings@) =~= embeddings_in(reply->Answer_0));
            Ok(embeddings)
        },
    }
}

impl OpenAiProvider {
    /// Where a request for embeddings goes, or why there is no such place.
    pub open spec fn embeddings_url_is(&self, res: Result<String, ProviderError>) -> bool {
        self.endpoint_is(
            "v1/embeddings"@,
            "Invalid base URL: "@,
            "Failed to construct embeddings URL: "@,
            res,
        )
    }

    /// A request is sent for the embeddings of the texts with the model, or there is no place to
    /// send it to.
    pub open spec fn request_is(
        &self,
        texts: Seq<String>,
        model: Seq<char>,
        res: Result<OpenAiEmbedPlan, ProviderError>,
    ) -> bool {
        match res {
            Ok(OpenAiEmbedPlan::Send { url, headers, request }) => {
                &&& self.embeddings_url_is(Ok(url))
                &&& self.followed_by_custom(
                    headers@,
                    seq![("Authorization"@, "Bearer "@ + self.api_key@)] + self.account_headers(),
                )
                &&& request.input@ == texts
                &&& request.model@ == model
            },
            Ok(OpenAiEmbedPlan::Done(_)) => false,
            Err(e) => self.embeddings_url_is(Err(e)),
        }
    }

    fn plan_request(&self, texts: Vec<String>, model: String) -> (res: Result<
        OpenAiEmbedPlan,
        ProviderError,
    >)
        ensures
            self.request_is(texts@, model@, res),
    {
        match self.embeddings_url() {
            Ok(url) => Ok(
                OpenAiEmbedPlan::Send {
                    url,
                    headers: self.request_headers(),
                    request: EmbeddingRequest { input: texts, model },
                },
            ),
            Err(e) => Err(e),
        }
    }

    /// How the embeddings of texts are made with a model. For no texts there is nothing to do:
    /// the result names the model, with what is known of it.
    pub fn create_embeddings_with_model(&self, texts: Vec<String>, model: &str) -> (res: Result<
        OpenAiEmbedPlan,
        ProviderError,
    >)
        ensures
            texts@.len() == 0 ==> {
                &&& res matches Ok(OpenAiEmbedPlan::Done(r))
                &&& r.embeddings@.len() == 0
                &&& r.model@ == (match find_model(openai_capabilities().models, model@, 0) {
                    Some(m) => m,
                    None => openai_model(model@, 1536, None),
                })
                &&& r.usage == (EmbeddingUsage { tokens: Some(0), embeddings_count: 0 })
            },
            texts@.len() > 0 ==> self.request_is(texts@, model@, res),
    {
        if texts.len() == 0 {
            let info = match self.get_embedding_model_info(model) {
                Some(m) => m,
                None => new_model(model, 1536, None),
            };
            return Ok(
                OpenAiEmbedPlan::Done(
                    EmbeddingResult {
                        embeddings: Vec::new(),
                        model: info,
                        usage: EmbeddingUsage { tokens: Some(0), embeddings_count: 0 },
                    },
                ),
            );
        }
        self.plan_request(texts, model.to_owned())
    }

    /// What the reply to a request for embeddings comes to. The embeddings that came are counted.
    pub fn finish_embeddings(&self, model: &str, reply: EmbeddingReply) -> (res: Result<
        EmbeddingResult,
        ProviderError,
    >)
        ensures
            match reply_error(reply) {
                Some(text) => res matches Err(e) && e@ == ProviderErrorView::RequestFailed(text),
                None => match find_model(openai_capabilities().models, model@, 0) {
                    None => res matches Err(e) && e@ == ProviderErrorView::ExecutionError(
                        "Unknown embedding model: "@ + model@,
                    ),
                    Some(m) => {
                        &&& res matches Ok(r)
                        &&& embedding_views(r.embeddings@) == embeddings_in(reply->Answer_0)
                        &&& r.model@ == m
                        &&& r.usage == (EmbeddingUsage {
                            tokens: None,
                            embeddings_count: embeddings_in(reply->Answer_0).len() as usize,
                        })
                        &&& r.usage.embeddings_count == r.embeddings@.len()
                    },
                },
            },
    {
        let embeddings = match read_embeddings(reply) {
            Ok(embeddings) => embeddings,
            Err(text) => return Err(ProviderError::RequestFailed(text)),
        };
        let count: usize = embeddings.len();
        assert(embedding_views(embeddings@).len() == count);
        match self.get_embedding_model_info(model) {
            Some(info) => Ok(
                EmbeddingResult {
                    embeddings,
                    model: info,
                    usage: EmbeddingUsage { tokens: None, embeddings_count: count },
                },
            ),
            None => Err(
                ProviderError::ExecutionError("Unknown embedding model: ".to_owned().concat(model)),
            ),
        }
    }

    /// How bare embeddings of texts are made, with the model that the environment names or else
    /// the default one. For no texts there is nothing to do.
    pub fn create_embeddings(&self, texts: Vec<String>, embedding_model: Option<String>) -> (
    res: Option<Result<OpenAiEmbedPlan, ProviderError>>)
        ensures
            match res {
                None => texts@.len() == 0,
                Some(plan) => texts@.len() > 0 && self.request_is(
                    texts@,
                    match embedding_model {
                        Some(m) => m@,
                        None => OPEN_AI_DEFAULT_EMBEDDING_MODEL@,
                    },
                    plan,
                ),
            },
    {
        if texts.len() == 0 {
            return None;
        }
        Some(
            self.plan_request(texts, or_default(embedding_model, OPEN_AI_DEFAULT_EMBEDDING_MODEL)),
        )
    }
}

} // verus!
