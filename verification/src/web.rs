//! URLs and HTTP headers.
use crate::metadata::Metadata;
use crate::text::opt_view;
use vstd::prelude::*;

verus! {

/// The longest text, in characters, that is taken as a URL.
pub const MAX_URL_CHARS: usize = 0x500_0000;

/// The parts of a URL that matter here.
#[derive(Debug, Clone)]
pub struct UrlParts {
    /// The whole URL.
    pub text: String,
    pub scheme: String,
    pub host: Option<String>,
    /// The port, where it is not the default one of the scheme.
    pub port: Option<u16>,
    pub path: String,
}

/// The parts of a URL by their views.
pub struct UrlView {
    pub text: Seq<char>,
    pub scheme: Seq<char>,
    pub host: Option<Seq<char>>,
    pub port: Option<u16>,
    pub path: Seq<char>,
}

impl View for UrlParts {
    type V = UrlView;

    open spec fn view(&self) -> UrlView {
        UrlView {
            text: self.text@,
            scheme: self.scheme@,
            host: opt_view(self.host),
            port: self.port,
            path: self.path@,
        }
    }
}

/// The view of what reading a URL gives.
pub open spec fn url_result(r: Result<UrlParts, String>) -> Result<UrlView, Seq<char>> {
    match r {
        Ok(u) => Ok(u@),
        Err(e) => Err(e@),
    }
}

/// The view of text, or of the text of an error.
pub open spec fn text_result(r: Result<String, String>) -> Result<Seq<char>, Seq<char>> {
    match r {
        Ok(s) => Ok(s@),
        Err(e) => Err(e@),
    }
}

/// The URL that a text stands for, or what is wrong with it.
pub uninterp spec fn url_parsed(text: Seq<char>) -> Result<UrlView, Seq<char>>;

/// The URL that a text stands for with the given port; none where it cannot have a port.
pub uninterp spec fn url_with_port(text: Seq<char>, port: u16) -> Option<Seq<char>>;

/// The URL that a reference stands for, seen from a base URL, or what is wrong.
pub uninterp spec fn url_joined(base: Seq<char>, reference: Seq<char>) -> Result<
    Seq<char>,
    Seq<char>,
>;

/// The character may stand in the name of an HTTP header.
pub open spec fn is_token_char(c: char) -> bool {
    ||| 'a' <= c <= 'z'
    ||| 'A' <= c <= 'Z'
    ||| '0' <= c <= '9'
    ||| "!#$%&'*+-.^_`|~"@.contains(c)
}

/// What is wrong with a text as the name of an HTTP header: it is empty, longer than 65535
/// characters, or holds a character that may not stand there.
pub open spec fn header_name_error_of(name: Seq<char>) -> Option<Seq<char>> {
    if 1 <= name.len() <= 0xffff && forall|i: int|
        0 <= i < name.len() ==> is_token_char(#[trigger] name[i]) {
        None
    } else {
        Some("invalid HTTP header name"@)
    }
}

/// What is wrong with a text as the value of an HTTP header: it holds a control character other
/// than a tab.
pub open spec fn header_value_error_of(value: Seq<char>) -> Option<Seq<char>> {
    if forall|i: int|
        0 <= i < value.len() ==> (#[trigger] value[i]) == '\t' || (value[i] >= ' ' && value[i]
            != '\u{7f}') {
        None
    } else {
        Some("failed to parse header value"@)
    }
}

/// `url::Url::parse`, with the parts of the URL that it gives, or the text of its error.
#[verifier::external_body]
pub(crate) fn parse_url(text: &str) -> (res: Result<UrlParts, String>)
    ensures
        url_result(res) == url_parsed(text@),
{
    match url::Url::parse(text) {
        Ok(u) => Ok(
            UrlParts {
                text: u.to_string(),
                scheme: u.scheme().to_string(),
                host: u.host_str().map(|h| h.to_string()),
                port: u.port(),
                path: u.path().to_string(),
            },
        ),
        Err(e) => Err(e.to_string()),
    }
}

/// `url::Url::set_port` on the URL that the text parses to. It refuses a URL without a host, with
/// an empty host, or of the scheme `file`, and no other. It panics where the URL would grow
/// beyond 2^32 bytes, which a text of the given length cannot lead to.
#[verifier::external_body]
pub(crate) fn set_url_port(text: &str, port: u16) -> (res: Option<String>)
    requires
        text@.len() <= MAX_URL_CHARS,
    ensures
        opt_view(res) == url_with_port(text@, port),
        res is Some <==> (url_parsed(text@) matches Ok(u) && u.host is Some && u.host->0.len() > 0
            && u.scheme != "file"@),
{
    let mut u = url::Url::parse(text).ok()?;
    u.set_port(Some(port)).ok()?;
    Some(u.to_string())
}

/// `url::Url::join` on the URL that the base parses to, with the text of its error.
#[verifier::external_body]
pub(crate) fn join_url(base: &str, reference: &str) -> (res: Result<String, String>)
    ensures
        text_result(res) == url_joined(base@, reference@),
{
    match url::Url::parse(base).and_then(|u| u.join(reference)) {
        Ok(u) => Ok(u.to_string()),
        Err(e) => Err(e.to_string()),
    }
}

/// `reqwest::header::HeaderName::from_bytes`: the text of its error. It takes 1 to 65535 bytes,
/// all of them letters, digits or marks that HTTP allows in a token; every other text is refused
/// in the same words.
#[verifier::external_body]
pub(crate) fn header_name_error(name: &str) -> (res: Option<String>)
    ensures
        opt_view(res) == header_name_error_of(name@),
{
    reqwest::header::HeaderName::from_bytes(name.as_bytes()).err().map(|e| e.to_string())
}

/// `reqwest::header::HeaderValue::from_str`: the text of its error. It takes every byte from 32 on
/// but 127, and the tab; a character beyond ASCII is made of such bytes. Every other text is
/// refused in the same words.
#[verifier::external_body]
pub(crate) fn header_value_error(value: &str) -> (res: Option<String>)
    ensures
        opt_view(res) == header_value_error_of(value@),
{
    reqwest::header::HeaderValue::from_str(value).err().map(|e| e.to_string())
}

/// What is wrong with a header.
pub open spec fn header_error_of(name: Seq<char>, value: Seq<char>) -> Option<Seq<char>> {
    match header_name_error_of(name) {
        Some(e) => Some(e),
        None => header_value_error_of(value),
    }
}

/// What is wrong with one of the headers; none where all of them can be sent.
pub fn headers_error(headers: &Metadata) -> (res: Option<String>)
    ensures
        match res {
            Some(e) => exists|k: Seq<char>| #[trigger]
                headers@.dom().contains(k) && header_error_of(k, headers@[k]) == Some(e@),
            None => forall|k: Seq<char>| #[trigger]
                headers@.dom().contains(k) ==> header_error_of(k, headers@[k]) is None,
        },
{
    let entries = headers.entries();
    proof {
        crate::metadata::lemma_distinct_entries(entries@);
    }
    let mut i: usize = 0;
    while i < entries.len()
        invariant
            i <= entries@.len(),
            crate::metadata::map_of(entries@) == headers@,
            crate::metadata::lists(entries@, headers@),
            forall|j: int|
                0 <= j < i ==> header_error_of((#[trigger] entries@[j]).0@, entries@[j].1@) is None,
        decreases entries@.len() - i,
    {
        assert(headers@.dom().contains(entries@[i as int].0@));
        match header_name_error(entries[i].0.as_str()) {
            Some(e) => {
                return Some(e);
            },
            None => {},
        }
        match header_value_error(entries[i].1.as_str()) {
            Some(e) => {
                return Some(e);
            },
            None => {},
        }
        i += 1;
    }
    assert forall|k: Seq<char>| #[trigger] headers@.dom().contains(k) implies header_error_of(
        k,
        headers@[k],
    ) is None by {
        let j = choose|j: int| 0 <= j < entries@.len() && (#[trigger] entries@[j]).0@ == k;
        assert(header_error_of(entries@[j].0@, entries@[j].1@) is None);
    }
    None
}

} // verus!
