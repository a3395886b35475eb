//! What holds of the OpenAI provider: its settings, its requests, and what is read out of answers;
//! and of embedding services in general.
use crate::embedding::{
    create_embedding_service, find_model, model_named, model_views, EmbeddingCapabilities,
    EmbeddingModel, EmbeddingResult, EmbeddingService, EmbeddingServiceKind, EmbeddingStep,
    ModelView,
};
use crate::errors::ProviderError;
use crate::json::{json_error_of, json_items_of, json_member_of, json_str_of};
use crate::metadata::Metadata;
use crate::ollama_laws::request_failed;
use crate::openai::{
    answer_models, embedding_views, embeddings_in, error_in, fetch_supported_models, header_in,
    headers_in, ids_in, opt_text_views, pair_views, parse_custom_headers, present, read_embeddings,
    split_base_url, EmbeddingReply, OpenAiEmbedPlan, OpenAiProvider,
};
use crate::provider::{CustomProviderConfig, ProviderMetadata};
use crate::search_laws::in_order;
use crate::selector_laws::lemma_views;
use crate::sorting::{is_sorted, lemma_text_le_antisymmetric, text_le};
use crate::text::{opt_view, split_of, split_once_of, trim_of, views};
use crate::text_laws::{ends_first, lemma_split_first, lemma_trim_start_char};
use crate::web::{
    header_error_of, header_name_error_of, header_value_error_of, headers_error, is_token_char,
    url_joined, url_parsed, UrlParts,
};
use vstd::prelude::*;

verus! {

// ---------------------------------------------------------------------------------------------
// Custom headers
// ---------------------------------------------------------------------------------------------
/// The piece is a header: a key, the first `=`, and a value, with white space around both.
pub open spec fn reads_as(piece: Seq<char>, key: Seq<char>, value: Seq<char>) -> bool {
    exists|a: Seq<char>, b: Seq<char>|
        {
            &&& piece == #[trigger] (a + "="@ + b)
            &&& ends_first(a, "="@)
            &&& trim_of(a) == key
            &&& trim_of(b) == value
        }
}

/// A header is what stands before the first `=` and behind it, without the white space around
/// them. A piece without `=` is none.
pub proof fn lemma_header_in(piece: Seq<char>)
    ensures
        match header_in(piece) {
            Some((key, value)) => reads_as(piece, key, value),
            None => forall|a: Seq<char>, b: Seq<char>| piece != #[trigger] (a + "="@ + b),
        },
        forall|key: Seq<char>, value: Seq<char>| #[trigger]
            reads_as(piece, key, value) ==> header_in(piece) == Some((key, value)),
{
    reveal_strlit("=");
    assert forall|key: Seq<char>, value: Seq<char>| #[trigger]
        reads_as(piece, key, value) implies header_in(piece) == Some((key, value)) by {
        let (a, b) = choose|a: Seq<char>, b: Seq<char>|
            {
                &&& piece == #[trigger] (a + "="@ + b)
                &&& ends_first(a, "="@)
                &&& trim_of(a) == key
                &&& trim_of(b) == value
            };
        lemma_split_first(a, "="@, b);
    }
    crate::text::lemma_find_from(piece, "="@, 0);
    match split_once_of(piece, "="@) {
        Some((a, b)) => {
            let i = a.len() as int;
            assert(piece =~= a + "="@ + b);
            assert(ends_first(a, "="@)) by {
                assert forall|j: int| 0 <= j < a.len() implies #[trigger] (a + "="@).subrange(
                    j,
                    j + "="@.len(),
                ) != "="@ by {
                    assert((a + "="@).subrange(j, j + 1) =~= piece.subrange(j, j + 1));
                    assert(!crate::text::matches_at(piece, "="@, j));
                }
            }
        },
        None => {
            assert forall|a: Seq<char>, b: Seq<char>| piece != #[trigger] (a + "="@ + b) by {
                if piece == a + "="@ + b {
                    let i = a.len() as int;
                    assert(piece.subrange(i, i + 1) =~= "="@);
                    assert(crate::text::matches_at(piece, "="@, i));
                }
            }
        },
    }
}

/// The headers of pieces are those that the pieces read as; of two with one key the later counts.
pub proof fn lemma_headers_of_pieces(pieces: Seq<Seq<char>>, key: Seq<char>)
    ensures
        headers_in(pieces).dom().contains(key) <==> exists|i: int|
            0 <= i < pieces.len() && has_key(#[trigger] pieces[i], key),
        forall|i: int, value: Seq<char>|
            0 <= i < pieces.len() && #[trigger] reads_as(pieces[i], key, value) && (forall|j: int|
                i < j < pieces.len() ==> !has_key(#[trigger] pieces[j], key)) ==> headers_in(
                pieces,
            )[key] == value,
    decreases pieces.len(),
{
    if pieces.len() > 0 {
        let rest = pieces.drop_last();
        let n = rest.len() as int;
        lemma_headers_of_pieces(rest, key);
        lemma_header_in(pieces[n]);
        assert forall|i: int| 0 <= i < n implies rest[i] == #[trigger] pieces[i] by {}
        lemma_has_key(pieces[n], key);
        if headers_in(pieces).dom().contains(key) {
            if has_key(pieces[n], key) {
            } else {
                let i = choose|i: int| 0 <= i < rest.len() && has_key(#[trigger] rest[i], key);
                assert(has_key(pieces[i], key));
            }
        }
        if exists|i: int| 0 <= i < pieces.len() && has_key(#[trigger] pieces[i], key) {
            let i = choose|i: int| 0 <= i < pieces.len() && has_key(#[trigger] pieces[i], key);
            if i < n {
                assert(has_key(rest[i], key));
            }
        }
        assert forall|i: int, value: Seq<char>|
            0 <= i < pieces.len() && #[trigger] reads_as(pieces[i], key, value) && (forall|j: int|
                i < j < pieces.len() ==> !has_key(#[trigger] pieces[j], key)) implies headers_in(
            pieces,
        )[key] == value by {
            if i < n {
                assert(!has_key(pieces[n], key));
                assert(reads_as(rest[i], key, value));
                assert forall|j: int| i < j < rest.len() implies !has_key(
                    #[trigger] rest[j],
                    key,
                ) by {
                    assert(!has_key(pieces[j], key));
                }
            }
        }
    } else {
        assert forall|i: int| 0 <= i < pieces.len() implies !has_key(#[trigger] pieces[i], key) by {}
    }
}

/// The piece reads as a header with the key.
pub open spec fn has_key(piece: Seq<char>, key: Seq<char>) -> bool {
    exists|value: Seq<char>| #[trigger] reads_as(piece, key, value)
}

proof fn lemma_has_key(piece: Seq<char>, key: Seq<char>)
    ensures
        has_key(piece, key) <==> (header_in(piece) matches Some((k, _)) && k == key),
{
    lemma_header_in(piece);
    match header_in(piece) {
        Some((k, v)) => {
            assert(reads_as(piece, k, v));
        },
        None => {
            if has_key(piece, key) {
                let value = choose|value: Seq<char>| #[trigger] reads_as(piece, key, value);
                assert(header_in(piece) == Some((key, value)));
            }
        },
    }
}

/// Custom headers are the headers between the commas: every one of them, with the value of the
/// last piece that has its key.
pub proof fn lemma_custom_headers(s: String, res: Metadata, key: Seq<char>)
    requires
        call_ensures(parse_custom_headers, (s,), res),
    ensures
        ({
            let pieces = split_of(s@, ","@);
            &&& res@.dom().contains(key) <==> exists|i: int|
                0 <= i < pieces.len() && has_key(#[trigger] pieces[i], key)
            &&& forall|i: int, value: Seq<char>|
                0 <= i < pieces.len() && #[trigger] reads_as(pieces[i], key, value) && (forall|j:
                    int| i < j < pieces.len() ==> !has_key(#[trigger] pieces[j], key))
                    ==> res@[key] == value
        }),
{
    lemma_headers_of_pieces(split_of(s@, ","@), key);
}

/// A header can be sent if its name has 1 to 65535 characters that may stand in a name, and its
/// value no control characters but tabs.
pub proof fn lemma_header_can_be_sent(name: Seq<char>, value: Seq<char>)
    ensures
        header_error_of(name, value) is None <==> {
            &&& 1 <= name.len() <= 65535
            &&& forall|i: int| 0 <= i < name.len() ==> is_token_char(#[trigger] name[i])
            &&& forall|i: int|
                0 <= i < value.len() ==> {
                    let c = #[trigger] value[i];
                    c == '\t' || (c >= ' ' && c != '\u{7f}')
                }
        },
        header_name_error_of(name) matches Some(e) ==> header_error_of(name, value) == Some(e) && e
            == "invalid HTTP header name"@,
        header_name_error_of(name) is None && header_error_of(name, value) is Some
            ==> header_error_of(name, value) == Some("failed to parse header value"@),
        header_value_error_of(value) is None && header_name_error_of(name) is None
            ==> header_error_of(name, value) is None,
{
    assert forall|i: int| 0 <= i < value.len() && header_value_error_of(value) is None implies {
        let c = #[trigger] value[i];
        c == '\t' || (c >= ' ' && c != '\u{7f}')
    } by {}
}

/// Letters, digits and the marks of HTTP may stand in the name of a header, and nothing else.
pub proof fn lemma_token_chars(c: char)
    ensures
        is_token_char(c) <==> ('a' <= c <= 'z') || ('A' <= c <= 'Z') || ('0' <= c <= '9') || c == '!'
            || c == '#' || c == '$' || c == '%' || c == '&' || c == '\'' || c == '*' || c == '+' || c
            == '-' || c == '.' || c == '^' || c == '_' || c == '`' || c == '|' || c == '~',
{
    reveal_strlit("!#$%&'*+-.^_`|~");
    let marks = "!#$%&'*+-.^_`|~"@;
    assert(marks.len() == 15);
    assert(marks[0] == '!' && marks[1] == '#' && marks[2] == '$' && marks[3] == '%' && marks[4]
        == '&' && marks[5] == '\'' && marks[6] == '*' && marks[7] == '+' && marks[8] == '-'
        && marks[9] == '.' && marks[10] == '^' && marks[11] == '_' && marks[12] == '`' && marks[13]
        == '|' && marks[14] == '~');
}

/// Headers are refused only if one of them cannot be sent, for the reason of such a one.
pub proof fn lemma_headers_checked(headers: &Metadata, res: Option<String>)
    requires
        call_ensures(headers_error, (headers,), res),
    ensures
        res is None <==> forall|k: Seq<char>| #[trigger]
            headers@.dom().contains(k) ==> header_error_of(k, headers@[k]) is None,
        res matches Some(e) ==> exists|k: Seq<char>| #[trigger]
            headers@.dom().contains(k) && header_error_of(k, headers@[k]) == Some(e@),
{
}

// ---------------------------------------------------------------------------------------------
// The provider
// ---------------------------------------------------------------------------------------------
/// A URL is taken apart into the scheme with the host, and the whole path without the slashes in
/// front of it, or the usual path if nothing else is left.
pub proof fn lemma_base_url(url: &UrlParts, res: (String, String))
    requires
        call_ensures(split_base_url, (url,), res),
    ensures
        url.host matches Some(h) ==> res.0@ == url.scheme@ + "://"@ + h@,
        url.host is None ==> res.0@ == url.scheme@ + "://"@,
        forall|n: int, path: Seq<char>|
            0 <= n && path.len() > 0 && path[0] != '/' && url.path@ == #[trigger] (slashes(n) + path)
                ==> res.1@ == path,
        (forall|i: int| 0 <= i < url.path@.len() ==> #[trigger] url.path@[i] == '/') ==> res.1@
            == "v1/chat/completions"@,
{
    let t = crate::text::trim_start_char_of(url.path@, '/');
    lemma_trim_start_char(url.path@, '/');
    if url.host is None {
        reveal_strlit("");
        assert(url.scheme@ + "://"@ + ""@ =~= url.scheme@ + "://"@);
    }
    assert forall|n: int, path: Seq<char>|
        0 <= n && path.len() > 0 && path[0] != '/' && url.path@ == #[trigger] (slashes(n)
            + path) implies res.1@ == path by {
        let s = url.path@;
        let m = s.len() - t.len();
        if m > n {
            assert(s[n] == '/');
            assert(s[n] == path[0]);
        }
        if m < n {
            assert(s.skip(m)[0] == s[m]);
            assert(s[m] == slashes(n)[m]);
        }
        assert(t =~= path);
    }
    if forall|i: int| 0 <= i < url.path@.len() ==> #[trigger] url.path@[i] == '/' {
        if t.len() > 0 {
            let m = url.path@.len() - t.len();
            assert(url.path@.skip(m)[0] == url.path@[m]);
        }
    }
}

/// A number of slashes.
pub open spec fn slashes(n: int) -> Seq<char> {
    Seq::new(n as nat, |i: int| '/')
}

/// A provider from the environment has what is set there, and the usual host, path and timeout
/// where they are not.
pub proof fn lemma_openai_from_env(
    model_name: String,
    api_key: String,
    host: Option<String>,
    base_path: Option<String>,
    organization: Option<String>,
    project: Option<String>,
    custom_headers: Option<String>,
    timeout_secs: Option<u64>,
    res: OpenAiProvider,
)
    requires
        call_ensures(
            OpenAiProvider::from_env,
            (
                model_name,
                api_key,
                host,
                base_path,
                organization,
                project,
                custom_headers,
                timeout_secs,
            ),
            res,
        ),
    ensures
        res.model_name@ == model_name@,
        res.api_key@ == api_key@,
        host matches Some(h) ==> res.host@ == h@,
        host is None ==> res.host@ == "https://api.openai.com"@,
        base_path matches Some(p) ==> res.base_path@ == p@,
        base_path is None ==> res.base_path@ == "v1/chat/completions"@,
        res.organization == organization,
        res.project == project,
        custom_headers is None <==> res.custom_headers is None,
        custom_headers matches Some(s) ==> forall|parsed: Metadata| #[trigger]
            call_ensures(parse_custom_headers, (s,), parsed) ==> res.custom_headers->0@ == parsed@,
        res.supports_streaming,
        timeout_secs matches Some(t) ==> res.timeout_secs == t,
        timeout_secs is None ==> res.timeout_secs == 600,
{
}

/// A provider that the user has set up has the key, the server and the path of its URL, and the
/// headers as they are. Without a key there is none, and the headers are all fit to be sent.
pub proof fn lemma_openai_custom(
    model_name: String,
    config: CustomProviderConfig,
    api_key: Option<String>,
    url: &UrlParts,
    parts: (String, String),
    res: Result<OpenAiProvider, String>,
)
    requires
        call_ensures(OpenAiProvider::from_custom_config, (model_name, config, api_key), res),
        url_parsed(config.base_url@) is Ok ==> url_parsed(config.base_url@)->Ok_0 == url@,
        call_ensures(split_base_url, (url,), parts),
    ensures
        api_key is None ==> {
            &&& res matches Err(e)
            &&& e@ == "Missing API key: "@ + config.api_key_env@
        },
        api_key is Some ==> (url_parsed(config.base_url@) matches Err(reason) ==> {
            &&& res matches Err(e)
            &&& e@ == "Invalid base URL '"@ + config.base_url@ + "': "@ + reason
        }),
        res is Ok <==> {
            &&& api_key is Some
            &&& url_parsed(config.base_url@) is Ok
            &&& config.headers is Some ==> forall|k: Seq<char>| #[trigger]
                config.headers->0@.dom().contains(k) ==> header_error_of(k, config.headers->0@[k])
                    is None
        },
        res matches Ok(p) ==> {
            &&& p.host@ == parts.0@
            &&& p.base_path@ == parts.1@
            &&& p.api_key@ == api_key->0@
            &&& p.organization is None
            &&& p.project is None
            &&& p.model_name@ == model_name@
            &&& p.custom_headers == config.headers
            &&& config.supports_streaming is None ==> p.supports_streaming
            &&& config.supports_streaming matches Some(s) ==> p.supports_streaming == s
            &&& config.timeout_seconds is None ==> p.timeout_secs == 600
            &&& config.timeout_seconds matches Some(t) ==> p.timeout_secs == t
        },
{
}

/// The key with its value is one of the headers.
pub open spec fn is_sent(headers: Seq<(String, String)>, key: Seq<char>, value: Seq<char>) -> bool {
    exists|i: int|
        0 <= i < headers.len() && (#[trigger] headers[i]).0@ == key && headers[i].1@ == value
}

/// The headers are the key of the account, its organization and its project where they are
/// set, and every custom header, and no other.
pub open spec fn are_headers_of(provider: &OpenAiProvider, headers: Seq<(String, String)>) -> bool {
    &&& headers.len() >= 1
    &&& headers[0].0@ == "Authorization"@
    &&& headers[0].1@ == "Bearer "@ + provider.api_key@
    &&& provider.organization matches Some(org) ==> is_sent(headers, "OpenAI-Organization"@, org@)
    &&& provider.project matches Some(project) ==> is_sent(headers, "OpenAI-Project"@, project@)
    &&& provider.custom_headers matches Some(custom) ==> forall|k: Seq<char>| #[trigger]
        custom@.dom().contains(k) ==> is_sent(headers, k, custom@[k])
    &&& forall|i: int|
        0 <= i < headers.len() ==> {
            let (key, value) = ((#[trigger] headers[i]).0@, headers[i].1@);
            ||| key == "Authorization"@ && value == "Bearer "@ + provider.api_key@
            ||| key == "OpenAI-Organization"@ && provider.organization is Some && value
                == provider.organization->0@
            ||| key == "OpenAI-Project"@ && provider.project is Some && value
                == provider.project->0@
            ||| provider.custom_headers is Some && provider.custom_headers->0@.dom().contains(key)
                && provider.custom_headers->0@[key] == value
        }
}

/// A request is sent with the key of the account, its organization and its project where they are
/// set, and every custom header, and with no other header.
pub proof fn lemma_request_headers(provider: &OpenAiProvider, res: Vec<(String, String)>)
    requires
        call_ensures(OpenAiProvider::request_headers, (provider,), res),
    ensures
        are_headers_of(provider, res@),
{
    lemma_headers_sent(provider, res@);
}

proof fn lemma_headers_sent(provider: &OpenAiProvider, headers: Seq<(String, String)>)
    requires
        provider.followed_by_custom(
            headers,
            seq![("Authorization"@, "Bearer "@ + provider.api_key@)] + provider.account_headers(),
        ),
    ensures
        are_headers_of(provider, headers),
{
    let fixed = seq![("Authorization"@, "Bearer "@ + provider.api_key@)]
        + provider.account_headers();
    let n = fixed.len() as int;
    let front = headers.take(n);
    let back = headers.skip(n);
    assert(pair_views(front).len() == front.len());
    assert forall|i: int| 0 <= i < n implies (#[trigger] headers[i]).0@ == fixed[i].0
        && headers[i].1@ == fixed[i].1 by {
        assert(front[i] == headers[i]);
        assert(pair_views(front)[i] == (front[i].0@, front[i].1@));
    }
    assert(headers[0].0@ == fixed[0].0);
    if provider.organization is Some {
        assert(fixed[1] == ("OpenAI-Organization"@, provider.organization->0@));
        assert(headers[1].0@ == fixed[1].0);
    }
    if provider.project is Some {
        assert(fixed[n - 1] == ("OpenAI-Project"@, provider.project->0@));
        assert(headers[n - 1].0@ == fixed[n - 1].0);
    }
    if provider.custom_headers is Some {
        let custom = provider.custom_headers->0@;
        assert forall|k: Seq<char>| #[trigger] custom.dom().contains(k) implies is_sent(
            headers,
            k,
            custom[k],
        ) by {
            let j = choose|j: int| 0 <= j < back.len() && (#[trigger] back[j]).0@ == k;
            assert(back[j] == headers[n + j]);
        }
        assert forall|i: int| n <= i < headers.len() implies custom.dom().contains(
            (#[trigger] headers[i]).0@,
        ) && custom[headers[i].0@] == headers[i].1@ by {
            assert(back[i - n] == headers[i]);
        }
    }
}

/// Every header that was there stays in front when the headers of the provider are added.
pub proof fn lemma_headers_added(
    provider: &OpenAiProvider,
    given: Seq<(String, String)>,
    headers: Seq<(String, String)>,
)
    requires
        provider.followed_by_custom(headers, pair_views(given) + provider.account_headers()),
    ensures
        given.len() <= headers.len(),
        forall|i: int|
            0 <= i < given.len() ==> (#[trigger] headers[i]).0@ == given[i].0@ && headers[i].1@
                == given[i].1@,
        provider.organization matches Some(org) ==> is_sent(headers, "OpenAI-Organization"@, org@),
        provider.project matches Some(project) ==> is_sent(headers, "OpenAI-Project"@, project@),
        provider.custom_headers matches Some(custom) ==> forall|k: Seq<char>| #[trigger]
            custom@.dom().contains(k) ==> is_sent(headers, k, custom@[k]),
        provider.custom_headers is None ==> headers.len() == given.len() + (
        if provider.organization is Some {
            1nat
        } else {
            0nat
        }) + (if provider.project is Some {
            1nat
        } else {
            0nat
        }),
{
    let fixed = pair_views(given) + provider.account_headers();
    let n = fixed.len() as int;
    let g = given.len() as int;
    let front = headers.take(n);
    let back = headers.skip(n);
    assert(pair_views(front).len() == front.len());
    assert(pair_views(given).len() == g);
    assert forall|i: int| 0 <= i < n implies (#[trigger] headers[i]).0@ == fixed[i].0
        && headers[i].1@ == fixed[i].1 by {
        assert(front[i] == headers[i]);
        assert(pair_views(front)[i] == (front[i].0@, front[i].1@));
    }
    assert forall|i: int| 0 <= i < g implies (#[trigger] headers[i]).0@ == given[i].0@
        && headers[i].1@ == given[i].1@ by {
        assert(fixed[i] == pair_views(given)[i]);
    }
    if provider.organization is Some {
        assert(fixed[g] == ("OpenAI-Organization"@, provider.organization->0@));
        assert(headers[g].0@ == fixed[g].0);
    }
    if provider.project is Some {
        assert(fixed[n - 1] == ("OpenAI-Project"@, provider.project->0@));
        assert(headers[n - 1].0@ == fixed[n - 1].0);
    }
    if provider.custom_headers is Some {
        let custom = provider.custom_headers->0@;
        assert forall|k: Seq<char>| #[trigger] custom.dom().contains(k) implies is_sent(
            headers,
            k,
            custom[k],
        ) by {
            let j = choose|j: int| 0 <= j < back.len() && (#[trigger] back[j]).0@ == k;
            assert(back[j] == headers[n + j]);
        }
    }
}

/// A place on the server: the path joined to its URL, or an error that begins with the text for
/// the step that failed.
pub open spec fn is_place(
    host: Seq<char>,
    path: Seq<char>,
    bad_base: Seq<char>,
    bad_path: Seq<char>,
    res: Result<String, ProviderError>,
) -> bool {
    &&& url_parsed(host) matches Err(reason) ==> res is Err && request_failed(
        res->Err_0,
        bad_base + reason,
    )
    &&& url_parsed(host) is Ok ==> match url_joined(host, path) {
        Ok(url) => res is Ok && res->Ok_0@ == url,
        Err(reason) => res is Err && request_failed(res->Err_0, bad_path + reason),
    }
}

/// Chat requests go to the path of the provider; models are asked for at the same path with the
/// part for chat replaced; requests for embeddings go to the path for embeddings.
pub proof fn lemma_openai_places(
    provider: &OpenAiProvider,
    chat: Result<String, ProviderError>,
    models: Result<String, ProviderError>,
    embeddings: Result<String, ProviderError>,
)
    requires
        call_ensures(OpenAiProvider::chat_url, (provider,), chat),
        call_ensures(OpenAiProvider::models_url, (provider,), models),
        call_ensures(OpenAiProvider::embeddings_url, (provider,), embeddings),
    ensures
        is_place(
            provider.host@,
            provider.base_path@,
            "Invalid base URL: "@,
            "Failed to construct endpoint URL: "@,
            chat,
        ),
        is_place(
            provider.host@,
            crate::text::replace_of(provider.base_path@, "v1/chat/completions"@, "v1/models"@),
            ""@,
            ""@,
            models,
        ),
        provider.base_path@ == "v1/chat/completions"@ ==> is_place(
            provider.host@,
            "v1/models"@,
            ""@,
            ""@,
            models,
        ),
        is_place(
            provider.host@,
            "v1/embeddings"@,
            "Invalid base URL: "@,
            "Failed to construct embeddings URL: "@,
            embeddings,
        ),
{
    if provider.base_path@ == "v1/chat/completions"@ {
        reveal_strlit("v1/chat/completions");
        let pat = "v1/chat/completions"@;
        let none = Seq::<char>::empty();
        assert(none + pat + none =~= pat);
        crate::text_laws::lemma_replace(none, pat, none, "v1/models"@);
        assert(!crate::text::contains_text(none, pat)) by {
            crate::text_laws::lemma_contains_means(none, pat);
            if crate::text::contains_text(none, pat) {
                let (a, b) = choose|a: Seq<char>, b: Seq<char>| none == #[trigger] (a + pat + b);
                assert((a + pat + b).len() > 0);
            }
        }
        crate::text_laws::lemma_replace(none, pat, none, "v1/models"@);
        assert(none + "v1/models"@ + none =~= "v1/models"@);
    }
}

/// How the provider is described.
pub proof fn lemma_openai_described(res: ProviderMetadata)
    requires
        call_ensures(OpenAiProvider::metadata, (), res),
    ensures
        res.name@ == "openai"@,
        res.default_model@ == "gpt-4o"@,
        res.model_doc_link@ == "https://platform.openai.com/docs/models"@,
        res.known_models@.len() == 7,
        res.known_models@[0].name@ == "gpt-4o"@ && res.known_models@[0].context_limit == Some(
            128000usize,
        ),
        res.known_models@[1].name@ == "gpt-4o-mini"@ && res.known_models@[1].context_limit == Some(
            128000usize,
        ),
        res.known_models@[2].name@ == "gpt-4-turbo"@ && res.known_models@[2].context_limit == Some(
            128000usize,
        ),
        res.known_models@[3].name@ == "gpt-3.5-turbo"@ && res.known_models@[3].context_limit
            == Some(16385usize),
        res.known_models@[4].name@ == "o1"@ && res.known_models@[4].context_limit == Some(
            200000usize,
        ),
        res.known_models@[5].name@ == "o3"@ && res.known_models@[5].context_limit == Some(
            200000usize,
        ),
        res.known_models@[6].name@ == "o4-mini"@ && res.known_models@[6].context_limit == Some(
            128000usize,
        ),
        res.config_keys@.len() == 7,
        res.config_keys@[0].name@ == "OPENAI_API_KEY"@ && res.config_keys@[0].required
            && res.config_keys@[0].secret && res.config_keys@[0].default is None,
        res.config_keys@[1].name@ == "OPENAI_HOST"@ && res.config_keys@[1].required
            && !res.config_keys@[1].secret && res.config_keys@[1].default is Some
            && res.config_keys@[1].default->0@ == "https://api.openai.com"@,
        res.config_keys@[2].name@ == "OPENAI_BASE_PATH"@ && res.config_keys@[2].required
            && !res.config_keys@[2].secret && res.config_keys@[2].default is Some
            && res.config_keys@[2].default->0@ == "v1/chat/completions"@,
        res.config_keys@[3].name@ == "OPENAI_ORGANIZATION"@ && !res.config_keys@[3].required
            && !res.config_keys@[3].secret && res.config_keys@[3].default is None,
        res.config_keys@[4].name@ == "OPENAI_PROJECT"@ && !res.config_keys@[4].required
            && !res.config_keys@[4].secret && res.config_keys@[4].default is None,
        res.config_keys@[5].name@ == "OPENAI_CUSTOM_HEADERS"@ && !res.config_keys@[5].required
            && res.config_keys@[5].secret && res.config_keys@[5].default is None,
        res.config_keys@[6].name@ == "OPENAI_TIMEOUT"@ && !res.config_keys@[6].required
            && !res.config_keys@[6].secret && res.config_keys@[6].default is Some
            && res.config_keys@[6].default->0@ == "600"@,
{
}

// ---------------------------------------------------------------------------------------------
// The list of models
// ---------------------------------------------------------------------------------------------
/// The names that are there are all of those that are, in order, and nothing else.
pub proof fn lemma_present_in_order(ids: Seq<Option<Seq<char>>>) -> (places: Seq<int>)
    ensures
        in_order(places, ids.len() as int),
        places.len() == present(ids).len(),
        forall|k: int| 0 <= k < places.len() ==> ids[#[trigger] places[k]] == Some(present(ids)[k]),
        forall|i: int| 0 <= i < ids.len() ==> (places.contains(i) <==> (#[trigger] ids[i]) is Some),
    decreases ids.len(),
{
    if ids.len() == 0 {
        Seq::empty()
    } else {
        let rest = ids.drop_last();
        let n = rest.len() as int;
        let before = lemma_present_in_order(rest);
        assert forall|i: int| 0 <= i < n implies rest[i] == #[trigger] ids[i] by {}
        let is_there = ids[n] is Some;
        let places = if is_there {
            before.push(n)
        } else {
            before
        };
        assert forall|k: int| 0 <= k < places.len() implies ids[#[trigger] places[k]] == Some(
            present(ids)[k],
        ) by {
            if k < before.len() {
                assert(places[k] == before[k]);
                assert(rest[before[k]] == ids[before[k]]);
            }
        }
        assert forall|i: int| 0 <= i < ids.len() implies (places.contains(i) <==> (
        #[trigger] ids[i]) is Some) by {
            if i < n {
                assert(rest[i] == ids[i]);
                if before.contains(i) {
                    let k = choose|k: int| 0 <= k < before.len() && before[k] == i;
                    assert(places[k] == i);
                }
                if places.contains(i) {
                    let k = choose|k: int| 0 <= k < places.len() && places[k] == i;
                    assert(before[k] == i);
                }
            } else {
                if is_there {
                    assert(places[before.len() as int] == i);
                } else if places.contains(i) {
                    let k = choose|k: int| 0 <= k < places.len() && places[k] == i;
                    assert(before[k] < n);
                }
            }
        }
        places
    }
}

/// The names are in order: none of them comes before one that stands in front of it.
pub open spec fn in_text_order(names: Seq<String>) -> bool {
    forall|i: int, j: int|
        0 <= i < j < names.len() && (#[trigger] names[j])@ != (#[trigger] names[i])@ ==> !text_le(
            names[j]@,
            names[i]@,
        )
}

proof fn lemma_text_order_of(names: Seq<String>)
    requires
        is_sorted(views(names)),
    ensures
        in_text_order(names),
{
    lemma_views(names);
    assert forall|i: int, j: int|
        0 <= i < j < names.len() && (#[trigger] names[j])@ != (#[trigger] names[i])@ implies !text_le(
        names[j]@,
        names[i]@,
    ) by {
        let v = views(names);
        assert(text_le(v[i], v[j]));
        if text_le(v[j], v[i]) {
            lemma_text_le_antisymmetric(v[i], v[j]);
        }
    }
}

/// One of the items is the name.
pub open spec fn names_model(ids: Seq<Option<String>>, name: Seq<char>) -> bool {
    exists|i: int| 0 <= i < ids.len() && (#[trigger] ids[i]) is Some && ids[i]->0@ == name
}

/// An answer with an error is refused with its message. One without data has no list. Any other
/// has the names that are there, each as often as it is there, in order.
pub proof fn lemma_models_answered(
    error: Option<Option<String>>,
    ids: Option<Vec<Option<String>>>,
    res: Result<Option<Vec<String>>, ProviderError>,
)
    requires
        call_ensures(answer_models, (error, ids), res),
    ensures
        error matches Some(message) ==> {
            &&& res matches Err(ProviderError::Authentication(text))
            &&& message matches Some(m) ==> text@ == m@
            &&& message is None ==> text@ == "unknown error"@
        },
        error is None && ids is None ==> res is Ok && res->Ok_0 is None,
        error is None && ids is Some ==> {
            &&& res is Ok
            &&& res->Ok_0 is Some
            &&& in_text_order(res->Ok_0->0@)
            &&& res->Ok_0->0@.len() == ids->0@.filter(|id: Option<String>| id is Some).len()
            &&& forall|i: int|
                0 <= i < ids->0@.len() && (#[trigger] ids->0@[i]) is Some ==> exists|j: int|
                    0 <= j < res->Ok_0->0@.len() && (#[trigger] res->Ok_0->0@[j])@ == ids->0@[i]->0@
            &&& forall|j: int|
                0 <= j < res->Ok_0->0@.len() ==> names_model(
                    ids->0@,
                    (#[trigger] res->Ok_0->0@[j])@,
                )
        },
{
    if error is None && ids is Some {
        let all = ids->0@;
        let texts = opt_text_views(all);
        let names = res->Ok_0->0@;
        lemma_views(names);
        lemma_text_order_of(names);
        let places = lemma_present_in_order(texts);
        lemma_present_count(all);
        let p = present(texts);
        let v = views(names);
        p.to_multiset_ensures();
        v.to_multiset_ensures();
        assert(v.len() == v.to_multiset().len());
        assert(p.len() == p.to_multiset().len());
        assert forall|i: int| 0 <= i < all.len() && (#[trigger] all[i]) is Some implies exists|j:
            int| 0 <= j < names.len() && (#[trigger] names[j])@ == all[i]->0@ by {
            assert(texts[i] == Some(all[i]->0@));
            assert(places.contains(i));
            let k = choose|k: int| 0 <= k < places.len() && places[k] == i;
            assert(texts[places[k]] == Some(p[k]));
            assert(p.contains(p[k]));
            assert(v.to_multiset().contains(p[k]));
            assert(v.contains(p[k]));
            let j = choose|j: int| 0 <= j < v.len() && v[j] == p[k];
            assert(names[j]@ == all[i]->0@);
        }
        assert forall|j: int| 0 <= j < names.len() implies names_model(
            all,
            (#[trigger] names[j])@,
        ) by {
            assert(v.contains(v[j]));
            assert(p.to_multiset().contains(v[j]));
            assert(p.contains(v[j]));
            let k = choose|k: int| 0 <= k < p.len() && p[k] == v[j];
            assert(texts[places[k]] == Some(p[k]));
            let i = places[k];
            assert(all[i] is Some);
        }
    }
}

proof fn lemma_present_count(ids: Seq<Option<String>>)
    ensures
        present(opt_text_views(ids)).len() == ids.filter(|id: Option<String>| id is Some).len(),
    decreases ids.len(),
{
    reveal(Seq::filter);
    if ids.len() > 0 {
        assert(opt_text_views(ids).drop_last() =~= opt_text_views(ids.drop_last()));
        lemma_present_count(ids.drop_last());
    }
}

/// What an answer holds: its error is the member of that name, with its message; its models are
/// the items of `data`, each with the text under `id`.
pub proof fn lemma_answer_parts(reply: Seq<char>)
    ensures
        error_in(reply) is None <==> json_member_of(reply, "error"@) is None,
        json_member_of(reply, "error"@) matches Some(error) ==> {
            &&& json_member_of(error, "message"@) matches Some(m) ==> error_in(reply) == Some(
                json_str_of(m),
            )
            &&& json_member_of(error, "message"@) is None ==> error_in(reply) == Some(
                None::<Seq<char>>,
            )
        },
        json_member_of(reply, "data"@) is None ==> ids_in(reply) is None,
        json_member_of(reply, "data"@) matches Some(data) ==> {
            &&& json_items_of(data) is None ==> ids_in(reply) is None
            &&& json_items_of(data) matches Some(items) ==> {
                &&& ids_in(reply) matches Some(ids)
                &&& ids.len() == items.len()
                &&& forall|i: int|
                    0 <= i < items.len() ==> #[trigger] ids[i] == match json_member_of(
                        items[i],
                        "id"@,
                    ) {
                        Some(member) => json_str_of(member),
                        None => None,
                    }
            }
        },
{
}

/// The models that an answer lists are those of its parts. One that is not JSON is refused.
pub proof fn lemma_models_fetched(
    reply: &str,
    error: Option<Option<String>>,
    ids: Option<Vec<Option<String>>>,
    res: Result<Option<Vec<String>>, ProviderError>,
    answered: Result<Option<Vec<String>>, ProviderError>,
)
    requires
        call_ensures(fetch_supported_models, (reply,), res),
        call_ensures(answer_models, (error, ids), answered),
        error_in(reply@) == (match error {
            Some(m) => Some(opt_view(m)),
            None => None,
        }),
        ids_in(reply@) == (match ids {
            Some(v) => Some(Seq::new(v@.len(), |i: int| opt_view(v@[i]))),
            None => None,
        }),
    ensures
        json_error_of(reply@) matches Some(reason) ==> res is Err && request_failed(
            res->Err_0,
            reason,
        ),
        json_error_of(reply@) is None ==> {
            &&& res is Ok <==> answered is Ok
            &&& res is Err ==> res->Err_0 is Authentication && answered->Err_0 is Authentication
                && res->Err_0->Authentication_0@ == answered->Err_0->Authentication_0@
            &&& res is Ok ==> (res->Ok_0 is Some <==> answered->Ok_0 is Some)
            &&& res is Ok && res->Ok_0 is Some ==> {
                let names = res->Ok_0->0@;
                &&& in_text_order(names)
                &&& views(names).to_multiset() == views(answered->Ok_0->0@).to_multiset()
            }
        },
{
    if ids is Some {
        assert(opt_text_views(ids->0@) =~= Seq::new(
            ids->0@.len(),
            |i: int| opt_view(ids->0@[i]),
        ));
    }
    if json_error_of(reply@) is None && res is Ok && res->Ok_0 is Some {
        lemma_text_order_of(res->Ok_0->0@);
    }
}

// ---------------------------------------------------------------------------------------------
// Embeddings
// ---------------------------------------------------------------------------------------------
/// The embeddings of an answer are all of its data, in order and as they are. Otherwise the error
/// says at which step it went wrong.
pub proof fn lemma_embeddings_read(reply: EmbeddingReply, res: Result<Vec<Vec<u32>>, String>)
    requires
        call_ensures(read_embeddings, (reply,), res),
    ensures
        reply matches EmbeddingReply::NotSent(reason) ==> {
            &&& res matches Err(e)
            &&& e@ == "Failed to send embedding request: "@ + reason@
        },
        reply matches EmbeddingReply::Refused(text) ==> {
            &&& res matches Err(e)
            &&& e@ == "Embedding API error: "@ + text@
        },
        reply matches EmbeddingReply::Unreadable(reason) ==> {
            &&& res matches Err(e)
            &&& e@ == "Failed to parse embedding response: "@ + reason@
        },
        reply matches EmbeddingReply::Answer(response) ==> {
            &&& res matches Ok(embeddings)
            &&& embeddings@.len() == response.data@.len()
            &&& forall|i: int|
                0 <= i < embeddings@.len() ==> (#[trigger] embeddings@[i])@
                    == response.data@[i].embedding@
        },
{
    if reply is Answer {
        let embeddings = res->Ok_0@;
        assert(embedding_views(embeddings).len() == embeddings.len());
        assert forall|i: int| 0 <= i < embeddings.len() implies (#[trigger] embeddings[i])@
            == reply->Answer_0.data@[i].embedding@ by {
            assert(embedding_views(embeddings)[i] == embeddings[i]@);
            assert(embeddings_in(reply->Answer_0)[i] == reply->Answer_0.data@[i].embedding@);
        }
    }
}

/// The result of a request holds the embeddings that were read, their number, and the model. A
/// model that is not known is refused, once there are embeddings.
pub proof fn lemma_openai_finished(
    provider: &OpenAiProvider,
    model: &str,
    reply: EmbeddingReply,
    read: Result<Vec<Vec<u32>>, String>,
    info: Option<EmbeddingModel>,
    res: Result<EmbeddingResult, ProviderError>,
)
    requires
        call_ensures(OpenAiProvider::finish_embeddings, (provider, model, reply), res),
        call_ensures(read_embeddings, (reply,), read),
        call_ensures(
            <OpenAiProvider as EmbeddingService>::get_embedding_model_info,
            (provider, model),
            info,
        ),
    ensures
        read matches Err(text) ==> res is Err && request_failed(res->Err_0, text@),
        read is Ok && info is None ==> {
            &&& res matches Err(ProviderError::ExecutionError(text))
            &&& text@ == "Unknown embedding model: "@ + model@
        },
        read is Ok && info is Some ==> {
            &&& res matches Ok(r)
            &&& r.embeddings@.len() == read->Ok_0@.len()
            &&& forall|i: int|
                0 <= i < r.embeddings@.len() ==> (#[trigger] r.embeddings@[i])@
                    == read->Ok_0@[i]@
            &&& r.usage.embeddings_count == r.embeddings@.len()
            &&& r.usage.tokens is None
            &&& r.model.name@ == info->0.name@
            &&& r.model.dimensions == info->0.dimensions
            &&& r.model.max_input_tokens == info->0.max_input_tokens
            &&& r.model.cost_per_token == info->0.cost_per_token
        },
{
    lemma_embeddings_read(reply, read);
    if read is Ok && info is Some {
        let r = res->Ok_0;
        assert(r.model@ == info->0@);
        assert(embedding_views(r.embeddings@).len() == r.embeddings@.len());
        assert forall|i: int| 0 <= i < r.embeddings@.len() implies (#[trigger] r.embeddings@[i])@
            == read->Ok_0@[i]@ by {
            assert(embedding_views(r.embeddings@)[i] == r.embeddings@[i]@);
            assert(embeddings_in(reply->Answer_0)[i] == reply->Answer_0.data@[i].embedding@);
        }
    }
}

/// The embeddings of texts are asked for in one request, with all texts, in order and as they
/// are, and the model; it goes to the place for embeddings. Without texts nothing is sent.
pub proof fn lemma_openai_request(
    provider: &OpenAiProvider,
    texts: Vec<String>,
    model: &str,
    url: Result<String, ProviderError>,
    info: Option<EmbeddingModel>,
    res: Result<OpenAiEmbedPlan, ProviderError>,
)
    requires
        call_ensures(OpenAiProvider::embeddings_url, (provider,), url),
        call_ensures(
            <OpenAiProvider as EmbeddingService>::get_embedding_model_info,
            (provider, model),
            info,
        ),
        call_ensures(OpenAiProvider::create_embeddings_with_model, (provider, texts, model), res),
    ensures
        texts@.len() == 0 ==> {
            &&& res matches Ok(OpenAiEmbedPlan::Done(r))
            &&& r.embeddings@.len() == 0
            &&& r.usage.tokens == Some(0i32)
            &&& r.usage.embeddings_count == 0
            &&& r.model.name@ == model@
            &&& r.model.max_input_tokens == 8192
            &&& info matches Some(m) ==> {
                &&& r.model.dimensions == m.dimensions
                &&& r.model.cost_per_token == m.cost_per_token
            }
            &&& info is None ==> r.model.dimensions == 1536 && r.model.cost_per_token is None
        },
        texts@.len() > 0 ==> {
            &&& res is Ok <==> url is Ok
            &&& res matches Ok(plan) ==> plan matches OpenAiEmbedPlan::Send { url: to, headers, request }
                && {
                &&& to@ == url->Ok_0@
                &&& request.input@.len() == texts@.len()
                &&& forall|i: int|
                    0 <= i < texts@.len() ==> (#[trigger] request.input@[i])@ == texts@[i]@
                &&& request.model@ == model@
                &&& are_headers_of(provider, headers@)
            }
        },
{
    if texts@.len() == 0 {
        crate::embedding::lemma_find_model(
            crate::openai::openai_capabilities().models,
            model@,
            0,
        );
    } else if res is Ok {
        lemma_headers_sent(provider, (res->Ok_0)->headers@);
    }
}

/// Bare embeddings are asked for in one request, too, with the model that is set or the small one.
pub proof fn lemma_openai_bare_request(
    provider: &OpenAiProvider,
    texts: Vec<String>,
    embedding_model: Option<String>,
    url: Result<String, ProviderError>,
    res: Option<Result<OpenAiEmbedPlan, ProviderError>>,
)
    requires
        call_ensures(OpenAiProvider::embeddings_url, (provider,), url),
        call_ensures(OpenAiProvider::create_embeddings, (provider, texts, embedding_model), res),
    ensures
        res is None <==> texts@.len() == 0,
        res matches Some(plan) ==> {
            &&& plan is Ok <==> url is Ok
            &&& plan matches Ok(p) ==> p matches OpenAiEmbedPlan::Send { url: to, headers, request }
                && {
                &&& to@ == url->Ok_0@
                &&& request.input@.len() == texts@.len()
                &&& forall|i: int|
                    0 <= i < texts@.len() ==> (#[trigger] request.input@[i])@ == texts@[i]@
                &&& embedding_model matches Some(m) ==> request.model@ == m@
                &&& embedding_model is None ==> request.model@ == "text-embedding-3-small"@
                &&& are_headers_of(provider, headers@)
            }
        },
{
    if res is Some && res->0 is Ok {
        lemma_headers_sent(provider, (res->0)->Ok_0->headers@);
    }
}

/// What the provider can do: three models, of which the small one is the default; 2048 texts at
/// once.
pub proof fn lemma_openai_capabilities(
    provider: &OpenAiProvider,
    res: Option<EmbeddingCapabilities>,
)
    requires
        call_ensures(<OpenAiProvider as EmbeddingService>::embedding_capabilities, (provider,), res),
    ensures
        res matches Some(c) && {
            &&& c.models@.len() == 3
            &&& c.models@[0].name@ == "text-embedding-3-small"@ && c.models@[0].dimensions == 1536
            &&& c.models@[1].name@ == "text-embedding-3-large"@ && c.models@[1].dimensions == 3072
            &&& c.models@[2].name@ == "text-embedding-ada-002"@ && c.models@[2].dimensions == 1536
            &&& c.models@[0].cost_per_token == Some(0x3ef4f8b588e368f1u64)
            &&& c.models@[1].cost_per_token == Some(0x3f210a137f38c543u64)
            &&& c.models@[2].cost_per_token == Some(0x3f1a36e2eb1c432du64)
            &&& forall|i: int|
                0 <= i < 3 ==> (#[trigger] c.models@[i]).max_input_tokens == 8192
            &&& c.default_model@ == "text-embedding-3-small"@
            &&& c.max_batch_size == 2048
            &&& c.supports_custom_dimensions
        },
{
    let c = res->0;
    let v = model_views(c.models@);
    assert(c@.models == v);
    assert(v.len() == c.models@.len());
    assert(v[0] == c.models@[0]@);
    assert(v[1] == c.models@[1]@);
    assert(v[2] == c.models@[2]@);
}

/// The model of a name is the first one that has it, with everything that is known of it.
pub proof fn lemma_model_by_name(models: &Vec<EmbeddingModel>, name: &str, res: Option<EmbeddingModel>)
    requires
        call_ensures(model_named, (models, name), res),
    ensures
        res is None <==> forall|i: int| 0 <= i < models@.len() ==> (#[trigger] models@[i]).name@
            != name@,
        forall|i: int|
            0 <= i < models@.len() && (#[trigger] models@[i]).name@ == name@ && (forall|j: int|
                0 <= j < i ==> (#[trigger] models@[j]).name@ != name@) ==> {
                &&& res matches Some(m)
                &&& m.name@ == name@
                &&& m.dimensions == models@[i].dimensions
                &&& m.max_input_tokens == models@[i].max_input_tokens
                &&& m.cost_per_token == models@[i].cost_per_token
            },
{
    let v = model_views(models@);
    assert(v.len() == models@.len());
    assert forall|i: int| 0 <= i < v.len() implies (#[trigger] models@[i])@ == v[i] by {}
    lemma_first_model(v, name@, 0);
    if res is None {
        assert forall|i: int| 0 <= i < models@.len() implies (#[trigger] models@[i]).name@
            != name@ by {
            assert(v[i].name != name@);
        }
    } else {
        let i = lemma_model_place(v, name@, 0);
        assert(models@[i].name@ == name@);
    }
    assert forall|i: int|
        0 <= i < models@.len() && (#[trigger] models@[i]).name@ == name@ && (forall|j: int|
            0 <= j < i ==> (#[trigger] models@[j]).name@ != name@) implies {
        &&& res matches Some(m)
        &&& m.name@ == name@
        &&& m.dimensions == models@[i].dimensions
        &&& m.max_input_tokens == models@[i].max_input_tokens
        &&& m.cost_per_token == models@[i].cost_per_token
    } by {
        assert forall|j: int| 0 <= j < i implies (#[trigger] v[j]).name != name@ by {
            assert(models@[j].name@ != name@);
        }
        assert(v[i].name == name@);
        assert(find_model(v, name@, 0) == Some(v[i]));
    }
}

proof fn lemma_model_place(models: Seq<ModelView>, name: Seq<char>, from: int) -> (i: int)
    requires
        0 <= from,
        find_model(models, name, from) is Some,
    ensures
        from <= i < models.len(),
        models[i].name == name,
    decreases models.len() - from,
{
    if models[from].name == name {
        from
    } else {
        lemma_model_place(models, name, from + 1)
    }
}

proof fn lemma_first_model(models: Seq<ModelView>, name: Seq<char>, from: int)
    requires
        0 <= from,
    ensures
        find_model(models, name, from) is None ==> forall|j: int|
            from <= j < models.len() ==> (#[trigger] models[j]).name != name,
        forall|i: int|
            from <= i < models.len() && (#[trigger] models[i]).name == name && (forall|j: int|
                from <= j < i ==> (#[trigger] models[j]).name != name) ==> find_model(
                models,
                name,
                from,
            ) == Some(models[i]),
    decreases models.len() - from,
{
    if from < models.len() {
        lemma_first_model(models, name, from + 1);
    }
}

/// The embeddings of texts are asked for in one call, with all texts and the default model of the
/// service. Where it makes none, the answer says so.
pub proof fn lemma_default_call(
    step: EmbeddingStep,
    capabilities: Option<crate::embedding::CapabilitiesView>,
    texts: Vec<String>,
)
    requires
        step.starts(capabilities, texts),
    ensures
        capabilities matches Some(c) ==> {
            &&& step matches EmbeddingStep::Call { texts: t, model }
            &&& t@.len() == texts@.len()
            &&& forall|i: int| 0 <= i < texts@.len() ==> (#[trigger] t@[i])@ == texts@[i]@
            &&& model@ == c.default_model
        },
        capabilities is None ==> {
            &&& step matches EmbeddingStep::Done(Err(ProviderError::ExecutionError(text)))
            &&& text@ == "Embeddings not supported"@
        },
{
}

/// The services that make embeddings go by their own names; no other name has one.
pub proof fn lemma_services(name: &str, res: Result<EmbeddingServiceKind, String>)
    requires
        call_ensures(create_embedding_service, (name,), res),
    ensures
        name@ == "openai"@ ==> res is Ok && res->Ok_0 is OpenAi,
        name@ == "ollama"@ ==> res is Ok && res->Ok_0 is Ollama,
        name@ == "litellm"@ ==> res is Ok && res->Ok_0 is LiteLlm,
        name@ == "databricks"@ ==> res is Ok && res->Ok_0 is Databricks,
        name@ != "openai"@ && name@ != "ollama"@ && name@ != "litellm"@ && name@ != "databricks"@
            ==> {
            &&& res matches Err(text)
            &&& text@ == "Provider '"@ + name@ + "' does not support embeddings"@
        },
{
    reveal_strlit("openai");
    reveal_strlit("ollama");
    reveal_strlit("litellm");
    reveal_strlit("databricks");
    assert("openai"@.len() == 6 && "openai"@[1] == 'p');
    assert("ollama"@.len() == 6 && "ollama"@[1] == 'l');
    assert("litellm"@.len() == 7);
    assert("databricks"@.len() == 10);
}

/// The text of an error is the text that it was made with.
pub proof fn lemma_error_text(e: &ProviderError, res: &String)
    requires
        call_ensures(ProviderError::text, (e,), res),
    ensures
        e matches ProviderError::Authentication(t) ==> res@ == t@,
        e matches ProviderError::RequestFailed(t) ==> res@ == t@,
        e matches ProviderError::ExecutionError(t) ==> res@ == t@,
        e matches ProviderError::UsageError(t) ==> res@ == t@,
{
}

} // verus!
