//! The addresses of the speech server's services.

use vstd::prelude::*;
use vstd::string::*;

use crate::text;

verus! {

/// Why an address could not be made.
#[derive(Debug, Clone, PartialEq, Eq)]
pub enum UrlError {
    /// The base address is none.
    Invalid { base_url: String, cause: String },
    /// The base address is of another kind than `http` and `https`.
    UnsupportedScheme(String),
    /// The base address could not be made into a websocket address.
    SchemeNotSet,
    /// The base address could not be made into the address of a service: a part of it would begin
    /// at byte 2^32 or later, or a step on the way gives no address.
    Unwritable,
}

/// The text of a [`UrlError`].
pub open spec fn url_error_text(error: UrlError) -> Seq<char> {
    match error {
        UrlError::Invalid { base_url, cause } => "invalid Speaches base URL: "@ + base_url@ + ": "@
            + cause@,
        UrlError::UnsupportedScheme(scheme) => "unsupported Speaches base URL scheme: "@ + scheme@,
        UrlError::SchemeNotSet => "failed to set websocket URL scheme"@,
        UrlError::Unwritable => "failed to rewrite Speaches base URL"@,
    }
}

impl UrlError {
    /// The text of this error.
    pub fn message(&self) -> (r: String)
        ensures
            r@ == url_error_text(*self),
    {
        match self {
            UrlError::Invalid { base_url, cause } => {
                let mut out = "invalid Speaches base URL: ".to_owned();
                out.append(base_url.as_str());
                out.append(": ");
                out.append(cause.as_str());
                out
            },
            UrlError::UnsupportedScheme(scheme) => {
                let mut out = "unsupported Speaches base URL scheme: ".to_owned();
                out.append(scheme.as_str());
                out
            },
            UrlError::SchemeNotSet => "failed to set websocket URL scheme".to_owned(),
            UrlError::Unwritable => "failed to rewrite Speaches base URL".to_owned(),
        }
    }
}

/// What parsing makes of a text: an address in its normal form, or the text of an error.
pub uninterp spec fn parsed_url(text: Seq<char>) -> Result<Seq<char>, Seq<char>>;

/// The scheme of an address; nothing if the text is none.
pub uninterp spec fn scheme_of(url: Seq<char>) -> Option<Seq<char>>;

/// The path of an address; nothing if the text is none.
pub uninterp spec fn path_of(url: Seq<char>) -> Option<Seq<char>>;

/// An address with another scheme; nothing if the text is none, or cannot have that scheme.
pub uninterp spec fn scheme_set(url: Seq<char>, scheme: Seq<char>) -> Option<Seq<char>>;

/// An address with another path; nothing if the text is none.
pub uninterp spec fn path_set(url: Seq<char>, path: Seq<char>) -> Option<Seq<char>>;

/// An address without its query; nothing if the text is none.
pub uninterp spec fn query_dropped(url: Seq<char>) -> Option<Seq<char>>;

/// An address with one more pair in its query; nothing if the text is none.
pub uninterp spec fn pair_added(url: Seq<char>, name: Seq<char>, value: Seq<char>) -> Option<
    Seq<char>,
>;

/// `url::Url::parse`: the address in its normal form, or the text of the error. Both depend on
/// the text alone.
#[verifier::external_body]
fn parse_url(text: &str) -> (r: Result<String, String>)
    ensures
        match r {
            Ok(url) => parsed_url(text@) == Ok::<Seq<char>, Seq<char>>(url@),
            Err(cause) => parsed_url(text@) == Err::<Seq<char>, Seq<char>>(cause@),
        },
{
    url::Url::parse(text).map(String::from).map_err(|error| error.to_string())
}

/// `url::Url::scheme` of the address in a text.
#[verifier::external_body]
fn url_scheme(url: &str) -> (r: Option<String>)
    ensures
        text::opt_view(r) == scheme_of(url@),
{
    url::Url::parse(url).ok().map(|url| url.scheme().to_owned())
}

/// `url::Url::path` of the address in a text.
#[verifier::external_body]
fn url_path(url: &str) -> (r: Option<String>)
    ensures
        text::opt_view(r) == path_of(url@),
{
    url::Url::parse(url).ok().map(|url| url.path().to_owned())
}

/// How many bytes a character takes.
pub open spec fn byte_count(c: char) -> nat {
    if (c as u32) < 0x80 {
        1
    } else if (c as u32) < 0x800 {
        2
    } else if (c as u32) < 0x1_0000 {
        3
    } else {
        4
    }
}

/// How many bytes a character of a path takes at most in an address: three for each of its own,
/// unless it may stand there as it is.
pub open spec fn path_bytes(c: char) -> nat {
    if ' ' < c && c < '\u{7f}' && c != '"' && c != '#' && c != '<' && c != '>' && c != '?' && c
        != '`' && c != '{' && c != '}' {
        1
    } else {
        3 * byte_count(c)
    }
}

/// How many bytes a character of a name or a value takes in a query: three for each of its own,
/// unless it may stand there as it is, or is a blank.
pub open spec fn query_bytes(c: char) -> nat {
    if ('0' <= c && c <= '9') || ('A' <= c && c <= 'Z') || ('a' <= c && c <= 'z') || c == '*' || c
        == '-' || c == '.' || c == '_' || c == ' ' {
        1
    } else {
        3 * byte_count(c)
    }
}

/// How many bytes a path takes at most in an address.
pub open spec fn path_size(path: Seq<char>) -> nat
    decreases path.len(),
{
    if path.len() == 0 {
        0
    } else {
        path_size(path.drop_last()) + path_bytes(path.last())
    }
}

/// How many bytes a name or a value takes in a query.
pub open spec fn query_size(s: Seq<char>) -> nat
    decreases s.len(),
{
    if s.len() == 0 {
        0
    } else {
        query_size(s.drop_last()) + query_bytes(s.last())
    }
}

/// Where a character first occurs in an address from the `k`th on, or else its end.
pub open spec fn place_of(url: Seq<char>, c: char, k: nat) -> nat
    decreases url.len() - k,
{
    if k < url.len() && url[k as int] != c {
        place_of(url, c, k + 1)
    } else {
        k
    }
}

/// Where the path of an address in its normal form ends: before its query, or its fragment.
pub open spec fn path_end(url: Seq<char>) -> nat {
    if place_of(url, '?', 0) < place_of(url, '#', 0) {
        place_of(url, '?', 0)
    } else {
        place_of(url, '#', 0)
    }
}

/// How many bytes a path may grow by when it is put into an address: none if it begins with a slash
/// and the address is one of the web.
pub open spec fn path_growth(scheme: Seq<char>, path: Seq<char>) -> nat {
    if path.len() > 0 && path[0] == '/' && (scheme == "http"@ || scheme == "https"@ || scheme
        == "ws"@ || scheme == "wss"@) {
        0
    } else {
        3
    }
}

/// Whether no part of an address begins at byte 2^32 or later, neither now nor with another path.
/// The address is in its normal form, which has a byte for each character.
pub open spec fn path_fits(
    url: Seq<char>,
    scheme: Seq<char>,
    old_path: Seq<char>,
    path: Seq<char>,
) -> bool {
    let fragment = place_of(url, '#', 0);
    let last = if fragment < url.len() {
        fragment
    } else {
        path_end(url)
    };
    &&& path_end(url) <= u32::MAX
    &&& last - old_path.len() + path_size(path) + path_growth(scheme, path) <= u32::MAX
}

/// Whether the address in a text can have another path.
pub open spec fn takes_path(url: Seq<char>, path: Seq<char>) -> bool {
    match (parsed_url(url), scheme_of(url), path_of(url)) {
        (Ok(normal), Some(scheme), Some(old_path)) => path_fits(normal, scheme, old_path, path),
        _ => true,
    }
}

/// Whether no part of an address begins at byte 2^32 or later, neither now nor with one more pair in
/// its query. The address is in its normal form, which has a byte for each character.
pub open spec fn pair_fits(url: Seq<char>, name: Seq<char>, value: Seq<char>) -> bool {
    let fragment = place_of(url, '#', 0);
    if fragment < url.len() {
        fragment + 2 + query_size(name) + query_size(value) <= u32::MAX
    } else {
        path_end(url) <= u32::MAX
    }
}

/// Whether the address in a text can have one more pair in its query.
pub open spec fn takes_pair(url: Seq<char>, name: Seq<char>, value: Seq<char>) -> bool {
    match parsed_url(url) {
        Ok(normal) => pair_fits(normal, name, value),
        Err(_) => true,
    }
}

/// `url::Url::set_scheme` on the address in a text. It panics where a part of the address would
/// begin at byte 2^32 or later: not with a scheme that is no longer than the one before.
#[verifier::external_body]
fn url_with_scheme(url: &str, scheme: &str) -> (r: Option<String>)
    requires
        scheme_of(url@) matches Some(old) ==> scheme@.len() <= old.len(),
    ensures
        text::opt_view(r) == scheme_set(url@, scheme@),
{
    let mut url = url::Url::parse(url).ok()?;
    url.set_scheme(scheme).ok()?;
    Some(String::from(url))
}

/// `url::Url::set_path` on the address in a text. It panics where the path ends behind byte 2^32,
/// before or after, or where what follows it would begin there.
#[verifier::external_body]
fn url_with_path(url: &str, path: &str) -> (r: Option<String>)
    requires
        takes_path(url@, path@),
    ensures
        text::opt_view(r) == path_set(url@, path@),
{
    let mut url = url::Url::parse(url).ok()?;
    url.set_path(path);
    Some(String::from(url))
}

/// `url::Url::set_query` with no query, on the address in a text. What it moves has begun before byte
/// 2^32 already, so that it does not panic.
#[verifier::external_body]
fn url_without_query(url: &str) -> (r: Option<String>)
    ensures
        text::opt_view(r) == query_dropped(url@),
{
    let mut url = url::Url::parse(url).ok()?;
    url.set_query(None);
    Some(String::from(url))
}

/// `append_pair` on `url::Url::query_pairs_mut` of the address in a text. It panics where the query
/// or the fragment would begin at byte 2^32 or later.
#[verifier::external_body]
fn url_with_pair(url: &str, name: &str, value: &str) -> (r: Option<String>)
    requires
        takes_pair(url@, name@, value@),
    ensures
        text::opt_view(r) == pair_added(url@, name@, value@),
{
    let mut url = url::Url::parse(url).ok()?;
    url.query_pairs_mut().append_pair(name, value);
    Some(String::from(url))
}

/// How many bytes a character takes.
fn count_bytes(c: char) -> (r: u128)
    ensures
        r == byte_count(c),
        r <= 4,
{
    if (c as u32) < 0x80 {
        1
    } else if (c as u32) < 0x800 {
        2
    } else if (c as u32) < 0x1_0000 {
        3
    } else {
        4
    }
}

/// How many bytes a path takes at most in an address.
fn size_of_path(path: &str) -> (r: u128)
    ensures
        r == path_size(path@),
        r <= 12 * usize::MAX,
{
    let chars = text::chars_of(path);
    let mut size: u128 = 0;
    let mut i: usize = 0;
    while i < chars.len()
        invariant
            i <= chars@.len(),
            chars@ == path@,
            size == path_size(path@.take(i as int)),
            size <= 12 * i,
        decreases chars@.len() - i,
    {
        let c = chars[i];
        proof {
            assert(path@.take(i + 1).drop_last() =~= path@.take(i as int));
        }
        let plain = ' ' < c && c < '\u{7f}' && c != '"' && c != '#' && c != '<' && c != '>' && c
            != '?' && c != '`' && c != '{' && c != '}';
        size = size + if plain {
            1
        } else {
            3 * count_bytes(c)
        };
        i += 1;
    }
    proof {
        assert(path@.take(i as int) =~= path@);
    }
    size
}

/// How many bytes a name or a value takes in a query.
fn size_in_query(s: &str) -> (r: u128)
    ensures
        r == query_size(s@),
        r <= 12 * usize::MAX,
{
    let chars = text::chars_of(s);
    let mut size: u128 = 0;
    let mut i: usize = 0;
    while i < chars.len()
        invariant
            i <= chars@.len(),
            chars@ == s@,
            size == query_size(s@.take(i as int)),
            size <= 12 * i,
        decreases chars@.len() - i,
    {
        let c = chars[i];
        proof {
            assert(s@.take(i + 1).drop_last() =~= s@.take(i as int));
        }
        let plain = ('0' <= c && c <= '9') || ('A' <= c && c <= 'Z') || ('a' <= c && c <= 'z') || c
            == '*' || c == '-' || c == '.' || c == '_' || c == ' ';
        size = size + if plain {
            1
        } else {
            3 * count_bytes(c)
        };
        i += 1;
    }
    proof {
        assert(s@.take(i as int) =~= s@);
    }
    size
}

/// Where a character first occurs in an address, or else its end.
fn find_place(url: &str, c: char) -> (r: usize)
    ensures
        r == place_of(url@, c, 0),
        r <= url@.len(),
{
    let chars = text::chars_of(url);
    let mut k: usize = 0;
    while k < chars.len() && chars[k] != c
        invariant
            k <= chars@.len(),
            chars@ == url@,
            place_of(url@, c, 0) == place_of(url@, c, k as nat),
        decreases chars@.len() - k,
    {
        k += 1;
    }
    k
}

/// Where the path of an address in its normal form ends.
fn find_path_end(url: &str) -> (r: usize)
    ensures
        r == path_end(url@),
        r <= url@.len(),
{
    let query = find_place(url, '?');
    let fragment = find_place(url, '#');
    if query < fragment {
        query
    } else {
        fragment
    }
}

/// Whether the address in a text can have another path.
fn has_room_for_path(url: &str, path: &str) -> (r: bool)
    ensures
        r == takes_path(url@, path@),
{
    let (normal, scheme, old_path) = match (parse_url(url), url_scheme(url), url_path(url)) {
        (Ok(normal), Some(scheme), Some(old_path)) => (normal, scheme, old_path),
        _ => {
            return true;
        },
    };
    let end: usize = find_path_end(normal.as_str());
    let fragment: usize = find_place(normal.as_str(), '#');
    let last: usize = if fragment < normal.as_str().unicode_len() {
        fragment
    } else {
        end
    };
    let web = text::same_text(scheme.as_str(), "http") || text::same_text(scheme.as_str(), "https")
        || text::same_text(scheme.as_str(), "ws") || text::same_text(scheme.as_str(), "wss");
    let rooted = path.unicode_len() > 0 && path.get_char(0) == '/';
    let growth: u128 = if rooted && web {
        0
    } else {
        3
    };
    end as u128 <= 0xffff_ffff && last as u128 + size_of_path(path) + growth <= 0xffff_ffff
        + old_path.as_str().unicode_len() as u128
}

/// Whether the address in a text can have one more pair in its query.
fn has_room_for_pair(url: &str, name: &str, value: &str) -> (r: bool)
    ensures
        r == takes_pair(url@, name@, value@),
{
    let normal = match parse_url(url) {
        Ok(normal) => normal,
        Err(_) => {
            return true;
        },
    };
    let fragment: usize = find_place(normal.as_str(), '#');
    if fragment < normal.as_str().unicode_len() {
        fragment as u128 + 2 + size_in_query(name) + size_in_query(value) <= 0xffff_ffff
    } else {
        find_path_end(normal.as_str()) as u128 <= 0xffff_ffff
    }
}

/// A path without the slashes at its end.
pub open spec fn without_end_slashes(path: Seq<char>) -> Seq<char>
    decreases path.len(),
{
    if path.len() > 0 && path.last() == '/' {
        without_end_slashes(path.drop_last())
    } else {
        path
    }
}

/// The path of a service below a base path.
pub open spec fn service_path(base_path: Seq<char>, endpoint: Seq<char>) -> Seq<char> {
    without_end_slashes(base_path) + endpoint
}

/// The path of a service below a base path. The endpoint begins with a slash.
pub fn endpoint_path(base_path: &str, endpoint: &str) -> (r: String)
    ensures
        r@ == service_path(base_path@, endpoint@),
{
    let mut len = base_path.unicode_len();
    proof {
        assert(base_path@.take(len as int) =~= base_path@);
    }
    while len > 0 && base_path.get_char(len - 1) == '/'
        invariant
            len <= base_path@.len(),
            without_end_slashes(base_path@) == without_end_slashes(base_path@.take(len as int)),
        decreases len,
    {
        proof {
            assert(base_path@.take(len as int).drop_last() =~= base_path@.take(len - 1));
        }
        len -= 1;
    }
    let head = base_path.substring_char(0, len);
    proof {
        assert(head@ =~= base_path@.take(len as int));
    }
    let mut out = head.to_owned();
    out.append(endpoint);
    out
}

/// The scheme of the websocket service that belongs to a scheme.
pub open spec fn websocket_scheme_of(scheme: Seq<char>) -> Option<Seq<char>> {
    if scheme == "http"@ {
        Some("ws"@)
    } else if scheme == "https"@ {
        Some("wss"@)
    } else {
        None
    }
}

/// The scheme of the websocket service that belongs to a scheme.
pub fn websocket_scheme(scheme: &str) -> (r: Option<&'static str>)
    ensures
        text::opt_str_view(r) == websocket_scheme_of(scheme@),
{
    if text::same_text(scheme, "http") {
        Some("ws")
    } else if text::same_text(scheme, "https") {
        Some("wss")
    } else {
        None
    }
}

/// An address with another path and without a query.
pub open spec fn redirected(url: Seq<char>, path: Seq<char>) -> Option<Seq<char>> {
    if takes_path(url, path) {
        match path_set(url, path) {
            Some(url) => query_dropped(url),
            None => None,
        }
    } else {
        None
    }
}

/// An address with another path and without a query.
fn redirect(url: &str, path: &str) -> (r: Option<String>)
    ensures
        text::opt_view(r) == redirected(url@, path@),
{
    if !has_room_for_path(url, path) {
        return None;
    }
    match url_with_path(url, path) {
        Some(url) => url_without_query(url.as_str()),
        None => None,
    }
}

/// An address with one more pair in its query.
pub open spec fn extended(url: Seq<char>, name: Seq<char>, value: Seq<char>) -> Option<Seq<char>> {
    if takes_pair(url, name, value) {
        pair_added(url, name, value)
    } else {
        None
    }
}

/// An address with one more pair in its query.
fn extend(url: &str, name: &str, value: &str) -> (r: Option<String>)
    ensures
        text::opt_view(r) == extended(url@, name@, value@),
{
    if has_room_for_pair(url, name, value) {
        url_with_pair(url, name, value)
    } else {
        None
    }
}

/// The address of a service at the root of the server, whatever path the base address has.
pub open spec fn root_service_url(base_url: Seq<char>, path: Seq<char>) -> Option<Seq<char>> {
    match parsed_url(base_url) {
        Ok(url) => redirected(url, path),
        Err(_) => None,
    }
}

/// The address of a service below the path of the base address.
pub open spec fn nested_service_url(base_url: Seq<char>, endpoint: Seq<char>) -> Option<
    Seq<char>,
> {
    match parsed_url(base_url) {
        Ok(url) => match path_of(url) {
            Some(path) => redirected(url, service_path(path, endpoint)),
            None => None,
        },
        Err(_) => None,
    }
}

/// What a failure to make an address out of a base address says.
pub open spec fn url_failure(base_url: Seq<char>, error: UrlError) -> bool {
    match parsed_url(base_url) {
        Err(reason) => error matches UrlError::Invalid { base_url: b, cause } && b@ == base_url
            && cause@ == reason,
        Ok(_) => error == UrlError::Unwritable,
    }
}

/// The address of a service at the root of the server.
fn root_service(base_url: &str, path: &str) -> (r: Result<String, UrlError>)
    ensures
        match r {
            Ok(url) => root_service_url(base_url@, path@) == Some(url@),
            Err(error) => root_service_url(base_url@, path@) is None && url_failure(
                base_url@,
                error,
            ),
        },
{
    match parse_url(base_url) {
        Ok(url) => match redirect(url.as_str(), path) {
            Some(url) => Ok(url),
            None => Err(UrlError::Unwritable),
        },
        Err(cause) => Err(UrlError::Invalid { base_url: base_url.to_owned(), cause }),
    }
}

/// The address of a service below the path of the base address.
fn nested_service(base_url: &str, endpoint: &str) -> (r: Result<String, UrlError>)
    ensures
        match r {
            Ok(url) => nested_service_url(base_url@, endpoint@) == Some(url@),
            Err(error) => nested_service_url(base_url@, endpoint@) is None && url_failure(
                base_url@,
                error,
            ),
        },
{
    match parse_url(base_url) {
        Ok(url) => match url_path(url.as_str()) {
            Some(path) => match redirect(
                url.as_str(),
                endpoint_path(path.as_str(), endpoint).as_str(),
            ) {
                Some(url) => Ok(url),
                None => Err(UrlError::Unwritable),
            },
            None => Err(UrlError::Unwritable),
        },
        Err(cause) => Err(UrlError::Invalid { base_url: base_url.to_owned(), cause }),
    }
}

/// The address that tells whether the server is well.
pub fn health_url(base_url: &str) -> (r: Result<String, UrlError>)
    ensures
        match r {
            Ok(url) => root_service_url(base_url@, "/health"@) == Some(url@),
            Err(error) => root_service_url(base_url@, "/health"@) is None && url_failure(
                base_url@,
                error,
            ),
        },
{
    root_service(base_url, "/health")
}

/// The address that transcribes recordings.
pub fn transcription_url(base_url: &str) -> (r: Result<String, UrlError>)
    ensures
        match r {
            Ok(url) => root_service_url(base_url@, "/v1/audio/transcriptions"@) == Some(url@),
            Err(error) => root_service_url(base_url@, "/v1/audio/transcriptions"@) is None
                && url_failure(base_url@, error),
        },
{
    root_service(base_url, "/v1/audio/transcriptions")
}

/// The address that speaks.
pub fn speech_url(base_url: &str) -> (r: Result<String, UrlError>)
    ensures
        match r {
            Ok(url) => nested_service_url(base_url@, "/v1/audio/speech"@) == Some(url@),
            Err(error) => nested_service_url(base_url@, "/v1/audio/speech"@) is None
                && url_failure(base_url@, error),
        },
{
    nested_service(base_url, "/v1/audio/speech")
}

/// The address with the query of a realtime session.
pub open spec fn with_realtime_query(
    url: Seq<char>,
    model: Seq<char>,
    language: Option<Seq<char>>,
) -> Option<Seq<char>> {
    match extended(url, "intent"@, "transcription"@) {
        None => None,
        Some(url) => match extended(url, "model"@, model) {
            None => None,
            Some(url) => match language {
                None => Some(url),
                Some(language) => extended(url, "language"@, language),
            },
        },
    }
}

/// The address with the query of a realtime session.
fn add_realtime_query(url: &str, model: &str, language: Option<&str>) -> (r: Option<String>)
    ensures
        text::opt_view(r) == with_realtime_query(url@, model@, text::opt_str_view(language)),
{
    match extend(url, "intent", "transcription") {
        None => None,
        Some(url) => match extend(url.as_str(), "model", model) {
            None => None,
            Some(url) => match language {
                None => Some(url),
                Some(language) => extend(url.as_str(), "language", language),
            },
        },
    }
}

/// The address of realtime sessions on a server with the given address, scheme and path: below
/// that path, with the websocket scheme, and a query for the model and the language.
pub open spec fn session_url(
    url: Seq<char>,
    scheme: Seq<char>,
    path: Seq<char>,
    model: Seq<char>,
    language: Option<Seq<char>>,
) -> Option<Seq<char>> {
    match scheme_set(url, scheme) {
        None => None,
        Some(url) => match redirected(url, service_path(path, "/v1/realtime"@)) {
            None => None,
            Some(url) => with_realtime_query(
                url,
                model,
                match language {
                    Some(language) => text::non_empty(language),
                    None => None,
                },
            ),
        },
    }
}

/// What becomes of a base address when it is made into the address of realtime sessions.
pub open spec fn realtime_url_outcome(
    base_url: Seq<char>,
    model: Seq<char>,
    language: Option<Seq<char>>,
    r: Result<String, UrlError>,
) -> bool {
    match parsed_url(base_url) {
        Err(reason) => r matches Err(UrlError::Invalid { base_url: b, cause }) && b@ == base_url
            && cause@ == reason,
        Ok(url) => match (scheme_of(url), path_of(url)) {
            (Some(scheme), Some(path)) => match websocket_scheme_of(scheme) {
                None => r matches Err(UrlError::UnsupportedScheme(s)) && s@ == scheme,
                Some(websocket) => match session_url(url, websocket, path, model, language) {
                    Some(session) => r matches Ok(s) && s@ == session,
                    None => r == Err::<String, UrlError>(
                        if scheme_set(url, websocket) is None {
                            UrlError::SchemeNotSet
                        } else {
                            UrlError::Unwritable
                        },
                    ),
                },
            },
            _ => r == Err::<String, UrlError>(UrlError::Unwritable),
        },
    }
}

/// The address of realtime sessions.
pub fn realtime_ws_url(base_url: &str, model: &str, language: Option<&str>) -> (r: Result<
    String,
    UrlError,
>)
    ensures
        realtime_url_outcome(base_url@, model@, text::opt_str_view(language), r),
{
    let url = match parse_url(base_url) {
        Ok(url) => url,
        Err(cause) => {
            return Err(UrlError::Invalid { base_url: base_url.to_owned(), cause });
        },
    };
    let (scheme, path) = match (url_scheme(url.as_str()), url_path(url.as_str())) {
        (Some(scheme), Some(path)) => (scheme, path),
        _ => {
            return Err(UrlError::Unwritable);
        },
    };
    let websocket = match websocket_scheme(scheme.as_str()) {
        Some(websocket) => websocket,
        None => {
            return Err(UrlError::UnsupportedScheme(scheme));
        },
    };
    let language = match language {
        Some(language) => text::non_empty_str(language),
        None => None,
    };
    proof {
        reveal_strlit("http");
        reveal_strlit("https");
        reveal_strlit("ws");
        reveal_strlit("wss");
    }
    match url_with_scheme(url.as_str(), websocket) {
        None => Err(UrlError::SchemeNotSet),
        Some(url) => match redirect(
            url.as_str(),
            endpoint_path(path.as_str(), "/v1/realtime").as_str(),
        ) {
            None => Err(UrlError::Unwritable),
            Some(url) => match add_realtime_query(url.as_str(), model, language) {
                None => Err(UrlError::Unwritable),
                Some(url) => Ok(url),
            },
        },
    }
}

/// A path without the slashes at its end ends with none, and is the start of the path; only slashes
/// are missing.
pub proof fn slashes_at_the_end_are_left_out(path: Seq<char>)
    ensures
        without_end_slashes(path).len() <= path.len(),
        path.take(without_end_slashes(path).len() as int) == without_end_slashes(path),
        forall|i: int| without_end_slashes(path).len() <= i < path.len() ==> path[i] == '/',
        without_end_slashes(path).len() > 0 ==> without_end_slashes(path).last() != '/',
    decreases path.len(),
{
    if path.len() > 0 && path.last() == '/' {
        slashes_at_the_end_are_left_out(path.drop_last());
        let short = without_end_slashes(path.drop_last());
        assert(path.take(short.len() as int) =~= path.drop_last().take(short.len() as int));
        assert forall|i: int| short.len() <= i < path.len() implies path[i] == '/' by {
            if i < path.len() - 1 {
                assert(path.drop_last()[i] == path[i]);
            }
        }
    } else {
        assert(path.take(path.len() as int) =~= path);
    }
}

/// A service is below the path of the server, with one slash between.
pub proof fn services_are_below_the_path(base: Seq<char>, endpoint: Seq<char>)
    ensures
        service_path("/"@, endpoint) == endpoint,
        service_path(Seq::<char>::empty(), endpoint) == endpoint,
        base.len() > 0 && base.last() != '/' ==> service_path(base, endpoint) == base + endpoint
            && service_path(base + "/"@, endpoint) == base + endpoint,
{
    reveal_strlit("/");
    let nothing = Seq::<char>::empty();
    assert("/"@ =~= seq!['/']);
    assert("/"@.drop_last() =~= nothing);
    assert(without_end_slashes(nothing) == nothing);
    assert(nothing + endpoint =~= endpoint);
    assert((base + "/"@).drop_last() =~= base);
    assert((base + "/"@).last() == '/');
}

/// Realtime sessions are safe where the server is, and no other servers have them.
pub proof fn websockets_are_as_safe_as_the_server(scheme: Seq<char>)
    ensures
        websocket_scheme_of("http"@) == Some("ws"@),
        websocket_scheme_of("https"@) == Some("wss"@),
        scheme != "http"@ && scheme != "https"@ ==> websocket_scheme_of(scheme) is None,
{
    reveal_strlit("http");
    reveal_strlit("https");
    assert("http"@.len() == 4 && "https"@.len() == 5);
}

/// Another path is set before the query is dropped, and both are done; an address that cannot take the
/// path is none.
pub proof fn redirected_addresses_have_no_query(url: Seq<char>, path: Seq<char>, moved: Seq<char>)
    ensures
        takes_path(url, path) && path_set(url, path) == Some(moved) ==> redirected(url, path)
            == query_dropped(moved),
        !takes_path(url, path) || path_set(url, path) is None ==> redirected(url, path) is None,
{
}

/// The query of a realtime session tells what the session is for, then the model, then the language
/// where one is given.
pub proof fn sessions_tell_model_and_language(
    url: Seq<char>,
    model: Seq<char>,
    language: Seq<char>,
    first: Seq<char>,
    second: Seq<char>,
)
    requires
        takes_pair(url, "intent"@, "transcription"@),
        pair_added(url, "intent"@, "transcription"@) == Some(first),
        takes_pair(first, "model"@, model),
        pair_added(first, "model"@, model) == Some(second),
    ensures
        with_realtime_query(url, model, None) == Some(second),
        takes_pair(second, "language"@, language) ==> with_realtime_query(
            url,
            model,
            Some(language),
        ) == pair_added(second, "language"@, language),
{
}

/// A service at the root is the address with the path of the service; one below the base keeps the path
/// of that in front. Where the base is no address, neither is.
pub proof fn services_are_addresses_of_the_server(
    base_url: Seq<char>,
    url: Seq<char>,
    path: Seq<char>,
    endpoint: Seq<char>,
)
    ensures
        parsed_url(base_url) == Ok::<Seq<char>, Seq<char>>(url) ==> root_service_url(
            base_url,
            endpoint,
        ) == redirected(url, endpoint),
        parsed_url(base_url) == Ok::<Seq<char>, Seq<char>>(url) && path_of(url) == Some(path)
            ==> nested_service_url(base_url, endpoint) == redirected(
            url,
            without_end_slashes(path) + endpoint,
        ),
        parsed_url(base_url) is Err ==> root_service_url(base_url, endpoint) is None
            && nested_service_url(base_url, endpoint) is None,
{
}

/// The address of realtime sessions is made of the base address: the websocket scheme is set first,
/// then the path of the service below that of the base, without the query of the base, and then the
/// query of the session. A blank language is not told.
pub proof fn session_addresses_are_made_of_the_base(
    base_url: Seq<char>,
    model: Seq<char>,
    language: Option<Seq<char>>,
    r: Result<String, UrlError>,
    url: Seq<char>,
    scheme: Seq<char>,
    path: Seq<char>,
    sockets: Seq<char>,
    moved: Seq<char>,
)
    requires
        realtime_url_outcome(base_url, model, language, r),
        parsed_url(base_url) == Ok::<Seq<char>, Seq<char>>(url),
        scheme_of(url) == Some(scheme),
        path_of(url) == Some(path),
        scheme == "http"@ || scheme == "https"@,
        scheme_set(
            url,
            if scheme == "http"@ {
                "ws"@
            } else {
                "wss"@
            },
        ) == Some(sockets),
        redirected(sockets, without_end_slashes(path) + "/v1/realtime"@) == Some(moved),
    ensures
        ({
            let told = match language {
                Some(language) => if text::trimmed(language).len() > 0 {
                    Some(text::trimmed(language))
                } else {
                    None
                },
                None => None,
            };
            match with_realtime_query(moved, model, told) {
                Some(session) => r is Ok && r->Ok_0@ == session,
                None => r == Err::<String, UrlError>(UrlError::Unwritable),
            }
        }),
{
    websockets_are_as_safe_as_the_server(scheme);
}

/// A base address that is none, or of another kind, is refused with what is wrong with it.
pub proof fn other_servers_are_refused(
    base_url: Seq<char>,
    model: Seq<char>,
    language: Option<Seq<char>>,
    r: Result<String, UrlError>,
)
    requires
        realtime_url_outcome(base_url, model, language, r),
    ensures
        parsed_url(base_url) matches Err(cause) ==> (r matches Err(UrlError::Invalid {
            base_url: told,
            cause: why,
        }) && told@ == base_url && why@ == cause),
        parsed_url(base_url) matches Ok(url) ==> (scheme_of(url) matches Some(scheme) ==> (scheme
            != "http"@ && scheme != "https"@ && path_of(url) is Some ==> (r matches Err(
            UrlError::UnsupportedScheme(told),
        ) && told@ == scheme))),
{
    if let Ok(url) = parsed_url(base_url) {
        if let Some(scheme) = scheme_of(url) {
            websockets_are_as_safe_as_the_server(scheme);
        }
    }
}

/// The message of an error names the address and why it is none, or the scheme that it has.
pub proof fn errors_say_what_is_wrong(error: UrlError)
    ensures
        error matches UrlError::UnsupportedScheme(scheme) ==> text::ends(
            url_error_text(error),
            scheme@,
        ),
        error matches UrlError::Invalid { base_url, cause } ==> text::ends(
            url_error_text(error),
            cause@,
        ) && text::occurs(url_error_text(error), base_url@),
{
    match error {
        UrlError::UnsupportedScheme(scheme) => {
            text::parts_are_found(
                "unsupported Speaches base URL scheme: "@,
                scheme@,
                scheme@,
            );
        },
        UrlError::Invalid { base_url, cause } => {
            let head = "invalid Speaches base URL: "@;
            text::parts_are_found(head + base_url@ + ": "@, cause@, cause@);
            text::parts_are_found(head, base_url@, ": "@ + cause@);
            assert(head + base_url@ + (": "@ + cause@) =~= url_error_text(error));
        },
        _ => {},
    }
}

/// A character is found where it first stands, or else at the end.
pub proof fn characters_are_found_where_they_stand(url: Seq<char>, c: char, k: nat)
    requires
        k <= url.len(),
    ensures
        k <= place_of(url, c, k) <= url.len(),
        forall|i: int| k <= i < place_of(url, c, k) ==> url[i] != c,
        place_of(url, c, k) < url.len() ==> url[place_of(url, c, k) as int] == c,
    decreases url.len() - k,
{
    if k < url.len() && url[k as int] != c {
        characters_are_found_where_they_stand(url, c, k + 1);
    }
}

/// A path ends before the first question mark or number sign, whichever comes first, or else with the
/// address.
pub proof fn paths_end_before_query_and_fragment(url: Seq<char>)
    ensures
        path_end(url) <= url.len(),
        forall|i: int| 0 <= i < path_end(url) ==> url[i] != '?' && url[i] != '#',
        path_end(url) < url.len() ==> url[path_end(url) as int] == '?' || url[path_end(url) as int]
            == '#',
{
    characters_are_found_where_they_stand(url, '?', 0);
    characters_are_found_where_they_stand(url, '#', 0);
}

/// Characters that may stand in a path as they are count for one, and all others for three for each of
/// their bytes; each one more adds what it counts for.
pub proof fn encoded_characters_take_three_bytes(path: Seq<char>, c: char)
    ensures
        path_size(Seq::<char>::empty()) == 0,
        query_size(Seq::<char>::empty()) == 0,
        path_size(path.push(c)) == path_size(path) + path_bytes(c),
        query_size(path.push(c)) == query_size(path) + query_bytes(c),
        (('a' <= c && c <= 'z') || ('A' <= c && c <= 'Z') || ('0' <= c && c <= '9') || c == '-' || c
            == '.' || c == '_') ==> path_bytes(c) == 1 && query_bytes(c) == 1,
        c == '/' || c == '%' ==> path_bytes(c) == 1 && query_bytes(c) == 3,
        c == ' ' ==> path_bytes(c) == 3 && query_bytes(c) == 1,
        c == '?' || c == '#' ==> path_bytes(c) == 3 && query_bytes(c) == 3,
        0x80 <= c as u32 && (c as u32) < 0x800 ==> path_bytes(c) == 6 && query_bytes(c) == 6,
        0x800 <= c as u32 && (c as u32) < 0x1_0000 ==> path_bytes(c) == 9 && query_bytes(c) == 9,
        c as u32 >= 0x1_0000 ==> path_bytes(c) == 12 && query_bytes(c) == 12,
{
    assert(path.push(c).drop_last() =~= path);
}

proof fn sizes_are_bounded(s: Seq<char>)
    ensures
        path_size(s) <= 12 * s.len(),
        query_size(s) <= 12 * s.len(),
    decreases s.len(),
{
    if s.len() > 0 {
        sizes_are_bounded(s.drop_last());
    }
}

/// Addresses of any ordinary length take another path and more pairs: there is room for twelve bytes for
/// each new character, up to 2^32 bytes in all.
pub proof fn ordinary_addresses_have_room(
    url: Seq<char>,
    normal: Seq<char>,
    path: Seq<char>,
    name: Seq<char>,
    value: Seq<char>,
)
    requires
        parsed_url(url) == Ok::<Seq<char>, Seq<char>>(normal),
    ensures
        normal.len() + 12 * path.len() + 3 <= u32::MAX ==> takes_path(url, path),
        normal.len() + 12 * (name.len() + value.len()) + 2 <= u32::MAX ==> takes_pair(
            url,
            name,
            value,
        ),
{
    paths_end_before_query_and_fragment(normal);
    characters_are_found_where_they_stand(normal, '#', 0);
    sizes_are_bounded(path);
    sizes_are_bounded(name);
    sizes_are_bounded(value);
}

/// An address of the web grows by no more than what is put into it: its path by the new one in place of
/// the old, its query by the pair and two signs. It has room exactly as long as no part of it begins at
/// byte 2^32 or later.
pub proof fn there_is_room_up_to_the_last_byte(
    normal: Seq<char>,
    old_path: Seq<char>,
    path: Seq<char>,
    name: Seq<char>,
    value: Seq<char>,
)
    requires
        path.len() > 0,
        path[0] == '/',
        !normal.contains('#'),
    ensures
        path_fits(normal, "https"@, old_path, path) <==> path_end(normal) <= u32::MAX && path_end(
            normal,
        ) - old_path.len() + path_size(path) <= u32::MAX,
        pair_fits(normal, name, value) <==> path_end(normal) <= u32::MAX,
{
    characters_are_found_where_they_stand(normal, '#', 0);
    if place_of(normal, '#', 0) < normal.len() {
        assert(normal.contains('#'));
    }
}

/// In front of a fragment, a new pair has to fit before byte 2^32.
pub proof fn fragments_stay_within_reach(
    front: Seq<char>,
    fragment: Seq<char>,
    name: Seq<char>,
    value: Seq<char>,
)
    requires
        !front.contains('#'),
    ensures
        pair_fits(front + seq!['#'] + fragment, name, value) <==> front.len() + 2 + query_size(name)
            + query_size(value) <= u32::MAX,
{
    let url = front + seq!['#'] + fragment;
    characters_are_found_where_they_stand(url, '#', 0);
    let place = place_of(url, '#', 0);
    assert(url[front.len() as int] == '#');
    if place < front.len() {
        assert(url[place as int] == front[place as int]);
        assert(front.contains('#'));
    }
    if place > front.len() {
        assert(url[front.len() as int] != '#');
    }
}

} // verus!
