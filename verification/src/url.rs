//! The request URL, as the `url` crate parses it, and percent-encoding.

use vstd::prelude::*;
use vstd::string::*;
use vstd::utf8::*;

verus! {

#[verifier::external_type_specification]
#[verifier::external_body]
pub struct ExUrlParseError(url::ParseError);

/// A parsed URL together with the text that it was parsed from.
pub ghost struct UrlView {
    /// The text that the URL was parsed from.
    pub source: Seq<char>,
    /// The serialization of the URL.
    pub text: Seq<char>,
    /// The host, if the URL has one.
    pub host: Option<Seq<char>>,
    /// The path, percent-encoded as it stands in the serialization.
    pub path: Seq<char>,
}

/// Whether `url::Url::parse` accepts `input` as an absolute URL.
pub uninterp spec fn url_parses(input: Seq<char>) -> bool;

/// What `url::Url::as_str` returns for the URL parsed from `input`: its
/// serialization.
pub uninterp spec fn url_text(input: Seq<char>) -> Seq<char>;

/// What `url::Url::host_str` returns for the URL parsed from `input`.
pub uninterp spec fn url_host(input: Seq<char>) -> Option<Seq<char>>;

/// What `url::Url::path` returns for the URL parsed from `input`.
pub uninterp spec fn url_path(input: Seq<char>) -> Seq<char>;

/// The serialization of the URL parsed from `input` after
/// `url::Url::set_path` with `path`.
pub uninterp spec fn url_with_path(input: Seq<char>, path: Seq<char>) -> Seq<char>;

/// The serialization of what `url::Url::join` returns for the URL parsed
/// from `input` and `reference`; `None` where either step fails.
pub uninterp spec fn url_joined(input: Seq<char>, reference: Seq<char>) -> Option<Seq<char>>;

/// The URL that `source` parses to, if it is an absolute URL.
pub open spec fn parsed_url(source: Seq<char>) -> Option<UrlView> {
    if url_parses(source) {
        Some(
            UrlView {
                source,
                text: url_text(source),
                host: url_host(source),
                path: url_path(source),
            },
        )
    } else {
        None
    }
}

/// The value of a hexadecimal digit.
pub open spec fn hex_value(digit: u8) -> Option<u8> {
    if 48 <= digit <= 57 {
        Some((digit - 48) as u8)
    } else if 65 <= digit <= 70 {
        Some((digit - 55) as u8)
    } else if 97 <= digit <= 102 {
        Some((digit - 87) as u8)
    } else {
        None
    }
}

/// The upper-case hexadecimal digit for a value below sixteen.
pub open spec fn hex_digit(value: u8) -> u8 {
    if value < 10 {
        (48 + value) as u8
    } else {
        (55 + value) as u8
    }
}

/// Percent-decoding: every `%` that two hexadecimal digits follow stands
/// for the byte that they name; every other byte stands for itself.
pub open spec fn percent_decoded(bytes: Seq<u8>) -> Seq<u8>
    decreases bytes.len(),
{
    if bytes.len() == 0 {
        seq![]
    } else if bytes[0] == 37 && bytes.len() >= 3 && hex_value(bytes[1]) is Some && hex_value(
        bytes[2],
    ) is Some {
        seq![(hex_value(bytes[1])->0 * 16 + hex_value(bytes[2])->0) as u8] + percent_decoded(
            bytes.skip(3),
        )
    } else {
        seq![bytes[0]] + percent_decoded(bytes.skip(1))
    }
}

/// Percent-encoding of the control characters: a byte below `0x20` or
/// from `0x7F` up becomes `%` and two hexadecimal digits; every other
/// byte stands for itself.
pub open spec fn percent_encoded(bytes: Seq<u8>) -> Seq<u8>
    decreases bytes.len(),
{
    if bytes.len() == 0 {
        seq![]
    } else if bytes[0] < 32 || bytes[0] >= 127 {
        seq![37u8, hex_digit(bytes[0] / 16), hex_digit(bytes[0] % 16)] + percent_encoded(
            bytes.skip(1),
        )
    } else {
        seq![bytes[0]] + percent_encoded(bytes.skip(1))
    }
}

/// `text` with its control characters percent-encoded.
pub open spec fn escaped(text: Seq<char>) -> Seq<char> {
    decode_utf8(percent_encoded(encode_utf8(text)))
}

/// The link to `reference` from the URL parsed from `source`: the two
/// joined, with the control characters percent-encoded; `None` where
/// they cannot be joined.
pub open spec fn linked(source: Seq<char>, reference: Seq<char>) -> Option<Seq<char>> {
    match url_joined(source, reference) {
        Some(joined) => Some(escaped(joined)),
        None => None,
    }
}

/// The text that `text` percent-decodes to, if the decoded bytes are UTF-8.
pub open spec fn percent_decoded_text(text: Seq<char>) -> Option<Seq<char>> {
    let bytes = percent_decoded(encode_utf8(text));
    if valid_utf8(bytes) {
        Some(decode_utf8(bytes))
    } else {
        None
    }
}

/// `percent_encoding::percent_decode_str` followed by `decode_utf8`: the
/// bytes of `text` are percent-decoded, and the result is the text that
/// they encode, or the error of the UTF-8 check.
#[verifier::external_body]
fn percent_decode_utf8(text: &str) -> (r: Result<String, core::str::Utf8Error>)
    ensures
        r is Ok <==> percent_decoded_text(text@) is Some,
        r matches Ok(s) ==> Some(s@) == percent_decoded_text(text@),
{
    match percent_encoding::percent_decode_str(text).decode_utf8() {
        Ok(decoded) => Ok(decoded.into_owned()),
        Err(e) => Err(e),
    }
}

/// `percent_encoding::utf8_percent_encode` with the set `CONTROLS`: the
/// bytes of the result are the percent-encoded bytes of `text`.
#[verifier::external_body]
fn percent_encode_controls(text: &str) -> (r: String)
    ensures
        encode_utf8(r@) == percent_encoded(encode_utf8(text@)),
{
    percent_encoding::utf8_percent_encode(text, percent_encoding::CONTROLS).to_string()
}

/// `text` with its control characters percent-encoded: every byte of
/// its UTF-8 form that is below `0x20` or from `0x7F` up is written as
/// `%` and two hexadecimal digits.
pub fn escape(text: &str) -> (r: String)
    ensures
        r@ == escaped(text@),
{
    let encoded = percent_encode_controls(text);
    proof {
        encode_utf8_decode_utf8(encoded@);
    }
    encoded
}

/// The longest URL or path, in bytes, that `RequestUrl::with_path` takes.
pub const MAX_PATH_BYTES: usize = 0x1000_0000;

/// An absolute URL: the text it was parsed from, its serialization, its
/// host and its path.
#[derive(Debug, PartialEq, Eq)]
pub struct RequestUrl {
    source: String,
    text: String,
    host: Option<String>,
    path: String,
}

/// The text of an optional string.
pub open spec fn option_text(s: Option<String>) -> Option<Seq<char>> {
    match s {
        Some(s) => Some(s@),
        None => None,
    }
}

impl View for RequestUrl {
    type V = UrlView;

    closed spec fn view(&self) -> UrlView {
        UrlView {
            source: self.source@,
            text: self.text@,
            host: option_text(self.host),
            path: self.path@,
        }
    }
}

/// `url::Url::parse`, with what `Url::as_str`, `Url::host_str` and
/// `Url::path` return for the parsed URL.
#[verifier::external_body]
fn url_parse(input: &str) -> (r: Result<RequestUrl, url::ParseError>)
    ensures
        r is Ok <==> url_parses(input@),
        r matches Ok(u) ==> u@.source == input@ && u@.text == url_text(input@) && u@.host == url_host(
            input@,
        ) && u@.path == url_path(input@),
{
    match url::Url::parse(input) {
        Ok(u) => Ok(
            RequestUrl {
                source: String::from(input),
                text: String::from(u.as_str()),
                host: u.host_str().map(String::from),
                path: String::from(u.path()),
            },
        ),
        Err(e) => Err(e),
    }
}

/// `url::Url::parse` followed by `Url::set_path`, which cannot fail; the
/// result is the serialization of the changed URL. `set_path` keeps
/// offsets in 32 bits, so the two inputs are bounded.
#[verifier::external_body]
fn url_set_path(input: &str, path: &str) -> (r: Result<String, url::ParseError>)
    requires
        encode_utf8(input@).len() <= MAX_PATH_BYTES,
        encode_utf8(path@).len() <= MAX_PATH_BYTES,
    ensures
        r is Ok <==> url_parses(input@),
        r matches Ok(s) ==> s@ == url_with_path(input@, path@),
{
    match url::Url::parse(input) {
        Ok(mut u) => {
            u.set_path(path);
            Ok(String::from(u))
        },
        Err(e) => Err(e),
    }
}

/// `url::Url::parse` followed by `Url::join`; the result is the
/// serialization of the joined URL, or the error of the step that failed.
#[verifier::external_body]
fn url_join(input: &str, reference: &str) -> (r: Result<String, url::ParseError>)
    ensures
        r is Ok <==> url_joined(input@, reference@) is Some,
        r matches Ok(s) ==> url_joined(input@, reference@) == Some(s@),
{
    match url::Url::parse(input) {
        Ok(base) => match base.join(reference) {
            Ok(u) => Ok(String::from(u)),
            Err(e) => Err(e),
        },
        Err(e) => Err(e),
    }
}

impl Clone for RequestUrl {
    fn clone(&self) -> (r: RequestUrl)
        ensures
            r@ == self@,
    {
        proof {
            use_type_invariant(self);
        }
        RequestUrl {
            source: self.source.clone(),
            text: self.text.clone(),
            host: match &self.host {
                Some(host) => Some(host.clone()),
                None => None,
            },
            path: self.path.clone(),
        }
    }
}

impl RequestUrl {
    #[verifier::type_invariant]
    spec fn parsed_from_source(&self) -> bool {
        parsed_url(self.source@) == Some(self@)
    }

    /// Parses an absolute URL.
    pub fn parse(input: &str) -> (r: Option<RequestUrl>)
        ensures
            r is Some <==> parsed_url(input@) is Some,
            r matches Some(u) ==> parsed_url(input@) == Some(u@),
    {
        match url_parse(input) {
            Ok(u) => Some(u),
            Err(_) => None,
        }
    }

    /// The serialization of the URL.
    pub fn as_str(&self) -> (s: &str)
        ensures
            s@ == self@.text,
    {
        self.text.as_str()
    }

    /// The host of the URL, if it has one.
    pub fn host_str(&self) -> (h: Option<&str>)
        ensures
            h is Some <==> self@.host is Some,
            h matches Some(s) ==> self@.host == Some(s@),
    {
        match &self.host {
            Some(h) => Some(h.as_str()),
            None => None,
        }
    }

    /// The path of the URL, percent-encoded.
    pub fn path(&self) -> (p: &str)
        ensures
            p@ == self@.path,
    {
        self.path.as_str()
    }

    /// The path of the URL with its percent-encoding undone, if what
    /// comes out is UTF-8.
    pub fn decoded_path(&self) -> (r: Option<String>)
        ensures
            r is Some <==> percent_decoded_text(self@.path) is Some,
            r matches Some(p) ==> percent_decoded_text(self@.path) == Some(p@),
    {
        match percent_decode_utf8(self.path.as_str()) {
            Ok(p) => Some(p),
            Err(_) => None,
        }
    }

    /// The serialization of this URL with `path` in place of its path, as
    /// long as neither is longer than `MAX_PATH_BYTES`.
    pub fn with_path(&self, path: &str) -> (r: Option<String>)
        ensures
            r is Some <==> encode_utf8(self@.source).len() <= MAX_PATH_BYTES && encode_utf8(
                path@,
            ).len() <= MAX_PATH_BYTES,
            r matches Some(s) ==> s@ == url_with_path(self@.source, path@),
    {
        proof {
            use_type_invariant(self);
        }
        if self.source.as_str().as_bytes().len() > MAX_PATH_BYTES || path.as_bytes().len()
            > MAX_PATH_BYTES {
            return None;
        }
        match url_set_path(self.source.as_str(), path) {
            Ok(s) => Some(s),
            Err(_) => unreached(),
        }
    }

    /// The link to `reference` from this URL: the serialization of the
    /// reference resolved against the URL, with the control characters
    /// percent-encoded; `None` where the reference cannot be resolved.
    pub fn link_to(&self, reference: &str) -> (r: Option<String>)
        ensures
            r is Some <==> linked(self@.source, reference@) is Some,
            r matches Some(s) ==> linked(self@.source, reference@) == Some(s@),
    {
        match url_join(self.source.as_str(), reference) {
            Ok(joined) => Some(escape(joined.as_str())),
            Err(_) => None,
        }
    }
}

} // verus!
