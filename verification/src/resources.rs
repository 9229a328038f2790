//! URIs of file-backed resources: percent-encoding, diagnostics and source
//! references, and file URIs of language servers.

use crate::paths::{is_absolute, FilePath};
use crate::text::{
    chars_of, concat2, same_text, split_at_first, split_once_char, strip_prefix_text,
    without_prefix,
};
use vstd::prelude::*;
use vstd::string::*;
use vstd::utf8::*;

verus! {

pub const DIAGNOSTICS_PREFIX: &'static str = "lsp-diagnostics://";

pub const SOURCE_PREFIX: &'static str = "mcpls-source://";

/// Why a text is no URI of a file-backed resource.
#[derive(Clone, Copy, Debug, PartialEq, Eq, Structural)]
pub enum ResourceUriError {
    UnsupportedScheme,
    NotAbsolute,
    InvalidEncoding,
}

pub open spec fn resource_uri_error_text(error: ResourceUriError) -> Seq<char> {
    match error {
        ResourceUriError::UnsupportedScheme => "unsupported resource URI scheme"@,
        ResourceUriError::NotAbsolute => "resource path must be absolute"@,
        ResourceUriError::InvalidEncoding => "invalid percent-encoding in resource URI"@,
    }
}

impl ResourceUriError {
    pub fn message(&self) -> (text: String)
        ensures
            text@ == resource_uri_error_text(*self),
    {
        match self {
            ResourceUriError::UnsupportedScheme => "unsupported resource URI scheme".to_owned(),
            ResourceUriError::NotAbsolute => "resource path must be absolute".to_owned(),
            ResourceUriError::InvalidEncoding => {
                "invalid percent-encoding in resource URI".to_owned()
            },
        }
    }
}

/// Bytes that stand for themselves in the path of a URI.
pub open spec fn is_path_byte(byte: u8) -> bool {
    (0x61 <= byte <= 0x7a) || (0x41 <= byte <= 0x5a) || (0x30 <= byte <= 0x39) || byte == 0x2d
        || byte == 0x2e || byte == 0x5f || byte == 0x7e || byte == 0x21 || byte == 0x24 || byte
        == 0x26 || byte == 0x27 || byte == 0x28 || byte == 0x29 || byte == 0x2a || byte == 0x2b
        || byte == 0x2c || byte == 0x3b || byte == 0x3d || byte == 0x3a || byte == 0x40 || byte
        == 0x2f
}

pub open spec fn upper_hex(value: int) -> char {
    if value < 10 {
        ('0' as int + value) as char
    } else {
        ('A' as int + value - 10) as char
    }
}

pub open spec fn hex_value(c: char) -> Option<int> {
    if '0' <= c <= '9' {
        Some(c as int - '0' as int)
    } else if 'a' <= c <= 'f' {
        Some(c as int - 'a' as int + 10)
    } else if 'A' <= c <= 'F' {
        Some(c as int - 'A' as int + 10)
    } else {
        None
    }
}

pub open spec fn encoded_byte(byte: u8) -> Seq<char> {
    if is_path_byte(byte) {
        seq![byte as char]
    } else {
        seq!['%', upper_hex(byte as int / 16), upper_hex(byte as int % 16)]
    }
}

pub open spec fn encoded_bytes(bytes: Seq<u8>) -> Seq<char>
    decreases bytes.len(),
{
    if bytes.len() == 0 {
        seq![]
    } else {
        encoded_byte(bytes[0]) + encoded_bytes(bytes.skip(1))
    }
}

/// The text with every byte that may not stand in a path percent-encoded.
pub open spec fn percent_encoded(text: Seq<char>) -> Seq<char> {
    encoded_bytes(encode_utf8(text))
}

pub open spec fn decoded_bytes(text: Seq<char>) -> Option<Seq<u8>>
    decreases text.len(),
{
    if text.len() == 0 {
        Some(seq![])
    } else if text[0] != '%' {
        match decoded_bytes(text.skip(1)) {
            Some(rest) => Some(encode_utf8(seq![text[0]]) + rest),
            None => None,
        }
    } else if text.len() < 3 {
        None
    } else {
        match (hex_value(text[1]), hex_value(text[2]), decoded_bytes(text.skip(3))) {
            (Some(high), Some(low), Some(rest)) => Some(seq![(16 * high + low) as u8] + rest),
            _ => None,
        }
    }
}

/// The text that a percent-encoded text stands for.
pub open spec fn percent_decoded(text: Seq<char>) -> Option<Seq<char>> {
    match decoded_bytes(text) {
        Some(bytes) => if valid_utf8(bytes) {
            Some(decode_utf8(bytes))
        } else {
            None
        },
        None => None,
    }
}

/// The path after a scheme prefix, decoded.
pub open spec fn path_after(prefix: Seq<char>, uri: Seq<char>) -> Result<
    Seq<char>,
    ResourceUriError,
> {
    match without_prefix(uri, prefix) {
        None => Err(ResourceUriError::UnsupportedScheme),
        Some(rest) => if !is_absolute(rest) {
            Err(ResourceUriError::NotAbsolute)
        } else {
            match percent_decoded(rest) {
                Some(path) => Ok(path),
                None => Err(ResourceUriError::InvalidEncoding),
            }
        },
    }
}

/// The diagnostics URI of a path; only an absolute path has one.
pub open spec fn diagnostics_uri(path: Seq<char>) -> Option<Seq<char>> {
    if is_absolute(path) {
        Some(DIAGNOSTICS_PREFIX@ + percent_encoded(path))
    } else {
        None
    }
}

proof fn lemma_encoded_byte(byte: u8, rest: Seq<char>)
    ensures
        decoded_bytes(encoded_byte(byte) + rest) == match decoded_bytes(rest) {
            Some(bytes) => Some(seq![byte] + bytes),
            None => None::<Seq<u8>>,
        },
{
    let text = encoded_byte(byte) + rest;
    if is_path_byte(byte) {
        assert(text.skip(1) =~= rest);
        assert(text[0] == byte as char);
        assert(byte as char != '%');
        assert(is_ascii_chars(seq![byte as char]));
        is_ascii_chars_encode_utf8(seq![byte as char]);
        assert(encode_utf8(seq![byte as char]) =~= seq![byte]);
    } else {
        assert(text.skip(3) =~= rest);
        let high = byte as int / 16;
        let low = byte as int % 16;
        assert(hex_value(upper_hex(high)) == Some(high));
        assert(hex_value(upper_hex(low)) == Some(low));
        assert((16 * high + low) as u8 == byte);
    }
}

proof fn lemma_encoded_bytes(bytes: Seq<u8>)
    ensures
        decoded_bytes(encoded_bytes(bytes)) == Some(bytes),
    decreases bytes.len(),
{
    if bytes.len() == 0 {
        assert(bytes =~= seq![]);
    } else {
        lemma_encoded_bytes(bytes.skip(1));
        lemma_encoded_byte(bytes[0], encoded_bytes(bytes.skip(1)));
        assert(seq![bytes[0]] + bytes.skip(1) =~= bytes);
    }
}

/// Decoding undoes encoding.
pub proof fn law_percent_round_trip(text: Seq<char>)
    ensures
        percent_decoded(percent_encoded(text)) == Some(text),
{
    lemma_encoded_bytes(encode_utf8(text));
    encode_utf8_valid_utf8(text);
    encode_utf8_decode_utf8(text);
}

/// The diagnostics URI of an absolute path reads back as that path.
pub proof fn law_diagnostics_uri_round_trip(path: Seq<char>)
    requires
        is_absolute(path),
    ensures
        diagnostics_uri(path) matches Some(uri) && path_after(DIAGNOSTICS_PREFIX@, uri) == Ok::<
            Seq<char>,
            ResourceUriError,
        >(path),
{
    let rest = percent_encoded(path);
    let uri = DIAGNOSTICS_PREFIX@ + rest;
    law_percent_round_trip(path);
    assert(uri.subrange(0, DIAGNOSTICS_PREFIX@.len() as int) =~= DIAGNOSTICS_PREFIX@);
    assert(uri.subrange(DIAGNOSTICS_PREFIX@.len() as int, uri.len() as int) =~= rest);
    assert(is_absolute(rest)) by {
        encode_utf8_first_scalar(path);
        let bytes = encode_utf8(path);
        assert(bytes[0] == 0x2f) by {
            assert(encode_utf8(path) == encode_scalar(path[0] as u32) + encode_utf8(
                path.drop_first(),
            ));
            assert(encode_utf8(seq!['/']) =~= encode_scalar('/' as u32) + encode_utf8(
                seq!['/'].drop_first(),
            ));
            is_ascii_chars_encode_utf8(seq!['/']);
        }
        assert(encoded_byte(bytes[0]) =~= seq!['/']);
        assert(rest[0] == '/');
    }
}

/// `String::from_utf8` takes valid UTF-8 and keeps its bytes; it refuses
/// everything else.
#[verifier::external_body]
fn text_from_utf8(bytes: Vec<u8>) -> (text: Option<String>)
    ensures
        match text {
            Some(text) => encode_utf8(text@) == bytes@,
            None => !valid_utf8(bytes@),
        },
{
    String::from_utf8(bytes).ok()
}

fn hex_char(value: u8) -> (c: char)
    requires
        value < 16,
    ensures
        c == upper_hex(value as int),
{
    if value < 10 {
        (48 + value) as char
    } else {
        (65 + (value - 10)) as char
    }
}

fn hex_digit_value(c: char) -> (value: Option<u8>)
    ensures
        match value {
            Some(v) => hex_value(c) == Some(v as int) && v < 16,
            None => hex_value(c) is None,
        },
{
    let code: u32 = c as u32;
    if '0' <= c && c <= '9' {
        Some((code - 48) as u8)
    } else if 'a' <= c && c <= 'f' {
        Some((code - 97 + 10) as u8)
    } else if 'A' <= c && c <= 'F' {
        Some((code - 65 + 10) as u8)
    } else {
        None
    }
}

fn path_byte(byte: u8) -> (allowed: bool)
    ensures
        allowed == is_path_byte(byte),
{
    (0x61 <= byte && byte <= 0x7a) || (0x41 <= byte && byte <= 0x5a) || (0x30 <= byte && byte
        <= 0x39) || byte == 0x2d || byte == 0x2e || byte == 0x5f || byte == 0x7e || byte == 0x21
        || byte == 0x24 || byte == 0x26 || byte == 0x27 || byte == 0x28 || byte == 0x29 || byte
        == 0x2a || byte == 0x2b || byte == 0x2c || byte == 0x3b || byte == 0x3d || byte == 0x3a
        || byte == 0x40 || byte == 0x2f
}

/// Percent-encodes a path.
pub fn percent_encode(text: &str) -> (encoded: String)
    ensures
        encoded@ == percent_encoded(text@),
{
    let bytes = text.as_bytes();
    let mut encoded = String::new();
    let mut i: usize = 0;
    assert(bytes@.skip(0) =~= bytes@);
    assert(encoded@ + encoded_bytes(bytes@.skip(0)) =~= encoded_bytes(bytes@));
    while i < bytes.len()
        invariant
            bytes@ == encode_utf8(text@),
            i <= bytes@.len(),
            encoded@ + encoded_bytes(bytes@.skip(i as int)) == percent_encoded(text@),
        decreases bytes@.len() - i,
    {
        let byte: u8 = bytes[i];
        let ghost before = encoded@;
        let ghost rest = bytes@.skip(i as int);
        if path_byte(byte) {
            encoded.push(byte as char);
        } else {
            encoded.push('%');
            encoded.push(hex_char(byte / 16));
            encoded.push(hex_char(byte % 16));
        }
        proof {
            assert(rest[0] == byte);
            assert(rest.skip(1) =~= bytes@.skip(i + 1));
            assert(encoded@ =~= before + encoded_byte(byte));
            assert(before + (encoded_byte(byte) + encoded_bytes(rest.skip(1))) =~= encoded@
                + encoded_bytes(bytes@.skip(i + 1)));
        }
        i = i + 1;
    }
    assert(encoded@ + encoded_bytes(bytes@.skip(i as int)) =~= encoded@);
    encoded
}

/// Decodes a percent-encoded text.
pub fn percent_decode(text: &str) -> (decoded: Option<String>)
    ensures
        match decoded {
            Some(t) => percent_decoded(text@) == Some(t@),
            None => percent_decoded(text@) is None,
        },
{
    let chars = chars_of(text);
    let mut bytes: Vec<u8> = Vec::new();
    let mut i: usize = 0;
    assert(chars@.skip(0) =~= chars@);
    while i < chars.len()
        invariant
            chars@ == text@,
            i <= chars@.len(),
            match decoded_bytes(chars@.skip(i as int)) {
                Some(rest) => decoded_bytes(text@) == Some(bytes@ + rest),
                None => decoded_bytes(text@) is None,
            },
        decreases chars@.len() - i,
    {
        let ghost rest = chars@.skip(i as int);
        let ghost before = bytes@;
        assert(rest[0] == chars@[i as int]);
        if chars[i] != '%' {
            let mut one = String::new();
            one.push(chars[i]);
            assert(one@ =~= seq![chars@[i as int]]);
            let unit = one.as_str().as_bytes();
            let mut k: usize = 0;
            while k < unit.len()
                invariant
                    k <= unit@.len(),
                    bytes@ == before + unit@.take(k as int),
                decreases unit@.len() - k,
            {
                bytes.push(unit[k]);
                k = k + 1;
                assert(bytes@ =~= before + unit@.take(k as int));
            }
            proof {
                assert(unit@.take(k as int) =~= unit@);
                assert(rest.skip(1) =~= chars@.skip(i + 1));
                match decoded_bytes(rest.skip(1)) {
                    Some(tail) => {
                        assert(before + (unit@ + tail) =~= bytes@ + tail);
                    },
                    None => {},
                }
            }
            i = i + 1;
        } else {
            if chars.len() - i < 3 {
                return None;
            }
            assert(rest[1] == chars@[i + 1]);
            assert(rest[2] == chars@[i + 2]);
            match (hex_digit_value(chars[i + 1]), hex_digit_value(chars[i + 2])) {
                (Some(high), Some(low)) => {
                    let byte: u8 = 16 * high + low;
                    bytes.push(byte);
                    proof {
                        assert(rest.skip(3) =~= chars@.skip(i + 3));
                        match decoded_bytes(rest.skip(3)) {
                            Some(tail) => {
                                assert(before + (seq![byte] + tail) =~= bytes@ + tail);
                            },
                            None => {},
                        }
                    }
                    i = i + 3;
                },
                _ => {
                    return None;
                },
            }
        }
    }
    proof {
        assert(chars@.skip(i as int) =~= seq![]);
        assert(bytes@ + Seq::<u8>::empty() =~= bytes@);
    }
    let decoded = text_from_utf8(bytes);
    proof {
        if decoded is Some {
            encode_utf8_valid_utf8(decoded->0@);
            encode_utf8_decode_utf8(decoded->0@);
        }
    }
    decoded
}

fn decode_path_after(prefix: &str, uri: &str) -> (path: Result<FilePath, ResourceUriError>)
    ensures
        match path {
            Ok(p) => path_after(prefix@, uri@) == Ok::<Seq<char>, ResourceUriError>(p@),
            Err(e) => path_after(prefix@, uri@) == Err::<Seq<char>, ResourceUriError>(e),
        },
{
    match strip_prefix_text(uri, prefix) {
        None => Err(ResourceUriError::UnsupportedScheme),
        Some(rest) => {
            let path = FilePath { text: rest };
            if !path.absolute() {
                return Err(ResourceUriError::NotAbsolute);
            }
            match percent_decode(path.text.as_str()) {
                Some(text) => Ok(FilePath { text }),
                None => Err(ResourceUriError::InvalidEncoding),
            }
        },
    }
}

/// The diagnostics resource URI of an absolute path.
pub fn make_uri(path: &FilePath) -> (uri: Result<String, ResourceUriError>)
    ensures
        match uri {
            Ok(u) => diagnostics_uri(path@) == Some(u@),
            Err(e) => diagnostics_uri(path@) is None && e == ResourceUriError::NotAbsolute,
        },
{
    if !path.absolute() {
        return Err(ResourceUriError::NotAbsolute);
    }
    let encoded = percent_encode(path.text.as_str());
    Ok(concat2(DIAGNOSTICS_PREFIX, encoded.as_str()))
}

/// The path of a diagnostics resource URI.
pub fn parse_uri(uri: &str) -> (path: Result<FilePath, ResourceUriError>)
    ensures
        match path {
            Ok(p) => path_after(DIAGNOSTICS_PREFIX@, uri@) == Ok::<Seq<char>, ResourceUriError>(p@),
            Err(e) => path_after(DIAGNOSTICS_PREFIX@, uri@) == Err::<Seq<char>, ResourceUriError>(
                e,
            ),
        },
{
    decode_path_after(DIAGNOSTICS_PREFIX, uri)
}

/// A reference to source text: the file, and the selectors of the range and
/// snapshot as they stand in the URI's query.
#[derive(Debug, PartialEq, Eq)]
pub struct SourceResource {
    pub path: FilePath,
    pub selectors: String,
}

/// What a source URI says: path and selectors.
pub open spec fn source_reference(uri: Seq<char>) -> Option<(Seq<char>, Seq<char>)> {
    let (location, selectors) = match split_at_first(uri, '?') {
        Some((location, selectors)) => (location, selectors),
        None => (uri, seq![]),
    };
    match path_after(SOURCE_PREFIX@, location) {
        Ok(path) => Some((path, selectors)),
        Err(_) => None,
    }
}

/// Reads a source URI.
pub fn parse_source_uri(uri: &str) -> (source: Option<SourceResource>)
    ensures
        match source {
            Some(s) => source_reference(uri@) == Some((s.path@, s.selectors@)),
            None => source_reference(uri@) is None,
        },
{
    let (location, selectors) = match split_once_char(uri, '?') {
        Some((location, selectors)) => (location, selectors),
        None => {
            let none = String::new();
            assert(none@ =~= seq![]);
            (uri.to_owned(), none)
        },
    };
    match decode_path_after(SOURCE_PREFIX, location.as_str()) {
        Ok(path) => Some(SourceResource { path, selectors }),
        Err(_) => None,
    }
}

/// The scheme, authority and path of a URI reference, each as it is written.
pub struct UriParts {
    pub scheme: Option<String>,
    pub authority: Option<String>,
    pub path: String,
}

pub open spec fn uri_parts_model(parts: UriParts) -> (
    Option<Seq<char>>,
    Option<Seq<char>>,
    Seq<char>,
) {
    (
        crate::text::optional_text(parts.scheme),
        crate::text::optional_text(parts.authority),
        parts.path@,
    )
}

/// What `lsp_types::Uri` reads in a text: its scheme, authority and path, or
/// what it says of a text that is no URI reference.
pub uninterp spec fn parsed_uri(text: Seq<char>) -> Result<
    (Option<Seq<char>>, Option<Seq<char>>, Seq<char>),
    Seq<char>,
>;

/// `lsp_types::Uri::from_str` parses a URI reference; its components, or the
/// text of its error, depend on the parsed text alone. The parser panics on a
/// text of more than `i32::MAX` bytes.
#[verifier::external_body]
pub(crate) fn parse_lsp_uri(text: &str) -> (parts: Result<UriParts, String>)
    requires
        encode_utf8(text@).len() <= i32::MAX,
    ensures
        parsed_uri(text@) == match parts {
            Ok(parts) => Ok(uri_parts_model(parts)),
            Err(reason) => Err(reason@),
        },
{
    let uri: lsp_types::Uri = text.parse().map_err(|error| format!("{error}"))?;
    Ok(UriParts {
        scheme: uri.scheme().map(|scheme| scheme.as_str().to_owned()),
        authority: uri.authority().map(|authority| authority.as_str().to_owned()),
        path: uri.path().as_str().to_owned(),
    })
}

/// The path of a `file` URI without a host, given its components.
pub open spec fn file_path_of(
    parts: (Option<Seq<char>>, Option<Seq<char>>, Seq<char>),
) -> Option<Seq<char>> {
    let local = match parts.1 {
        Some(authority) => authority.len() == 0,
        None => true,
    };
    if parts.0 == Some("file"@) && local && is_absolute(parts.2) {
        percent_decoded(parts.2)
    } else {
        None
    }
}

/// The path that a file URI names.
pub open spec fn file_uri_path(uri: Seq<char>) -> Option<Seq<char>> {
    match parsed_uri(uri) {
        Ok(parts) => file_path_of(parts),
        Err(_) => None,
    }
}

/// The path of a `file` URI from its components.
pub fn uri_parts_to_path(parts: &UriParts) -> (path: Option<FilePath>)
    ensures
        match path {
            Some(p) => file_path_of(uri_parts_model(*parts)) == Some(p@),
            None => file_path_of(uri_parts_model(*parts)) is None,
        },
{
    match &parts.scheme {
        Some(scheme) => {
            if !same_text(scheme.as_str(), "file") {
                return None;
            }
        },
        None => {
            return None;
        },
    }
    match &parts.authority {
        Some(authority) => {
            if authority.as_str().as_bytes().len() > 0 {
                proof {
                    if authority@.len() == 0 {
                        assert(authority@ =~= seq![]);
                        assert(encode_utf8(authority@) =~= seq![]);
                    }
                }
                return None;
            }
            proof {
                if authority@.len() > 0 {
                    encode_utf8_first_scalar(authority@);
                    assert(encode_utf8(authority@).len() > 0);
                }
            }
        },
        None => {},
    }
    let path = FilePath { text: parts.path.clone() };
    if !path.absolute() {
        return None;
    }
    match percent_decode(path.text.as_str()) {
        Some(text) => Some(FilePath { text }),
        None => None,
    }
}

/// The path that a file URI of a language server names.
pub fn uri_to_path(uri: &str) -> (path: Option<FilePath>)
    requires
        encode_utf8(uri@).len() <= i32::MAX,
    ensures
        match path {
            Some(p) => file_uri_path(uri@) == Some(p@),
            None => file_uri_path(uri@) is None,
        },
{
    match parse_lsp_uri(uri) {
        Ok(parts) => uri_parts_to_path(&parts),
        Err(_) => None,
    }
}

/// What names a resource that cannot be read is told apart.
pub proof fn law_unreadable_reference_is_explained(prefix: Seq<char>, uri: Seq<char>)
    ensures
        resource_uri_error_text(ResourceUriError::UnsupportedScheme)
            == "unsupported resource URI scheme"@,
        resource_uri_error_text(ResourceUriError::NotAbsolute) == "resource path must be absolute"@,
        resource_uri_error_text(ResourceUriError::InvalidEncoding)
            == "invalid percent-encoding in resource URI"@,
        (forall|rest: Seq<char>| uri != #[trigger] (prefix + rest)) ==> path_after(prefix, uri)
            == Err::<Seq<char>, ResourceUriError>(ResourceUriError::UnsupportedScheme),
{
    if let Some(rest) = without_prefix(uri, prefix) {
        assert(uri =~= prefix + rest);
    }
}

/// The path behind a prefix is absolute and decoded; one that is not absolute or does
/// not decode is refused as such.
pub proof fn law_path_behind_a_prefix_is_decoded(prefix: Seq<char>, rest: Seq<char>)
    ensures
        rest.len() == 0 || rest[0] != '/' ==> path_after(prefix, prefix + rest) == Err::<
            Seq<char>,
            ResourceUriError,
        >(ResourceUriError::NotAbsolute),
        rest.len() > 0 && rest[0] == '/' ==> path_after(prefix, prefix + rest)
            == match percent_decoded(rest) {
            Some(path) => Ok::<Seq<char>, ResourceUriError>(path),
            None => Err(ResourceUriError::InvalidEncoding),
        },
        rest.len() > 0 && rest[0] == '/' ==> diagnostics_uri(rest) == Some(
            "lsp-diagnostics://"@ + percent_encoded(rest),
        ),
        rest.len() == 0 || rest[0] != '/' ==> diagnostics_uri(rest) is None,
{
    let uri = prefix + rest;
    assert(uri.subrange(0, prefix.len() as int) =~= prefix);
    assert(uri.subrange(prefix.len() as int, uri.len() as int) =~= rest);
}

/// Letters, digits and the marks that a path may hold stand for themselves in a
/// reference; every other byte is written as a percent sign and two digits.
pub proof fn law_bytes_are_encoded_one_by_one(byte: u8, rest: Seq<u8>)
    ensures
        encoded_bytes(Seq::empty()) == Seq::<char>::empty(),
        encoded_bytes(seq![byte] + rest) == encoded_byte(byte) + encoded_bytes(rest),
        ({
            let c = byte as char;
            let plain = {
                ||| 'a' <= c <= 'z'
                ||| 'A' <= c <= 'Z'
                ||| '0' <= c <= '9'
                ||| c == '-' || c == '.' || c == '_' || c == '~' || c == '!' || c == '$' || c == '&'
                ||| c == '(' || c == ')' || c == '*' || c == '+' || c == ',' || c == ';' || c == '='
                ||| c == ':' || c == '@' || c == '/' || byte == 39
            };
            &&& plain ==> encoded_byte(byte) == seq![c]
            &&& !plain ==> encoded_byte(byte).len() == 3 && encoded_byte(byte)[0] == '%'
                && hex_value(encoded_byte(byte)[1]) == Some(byte as int / 16) && hex_value(
                encoded_byte(byte)[2],
            ) == Some(byte as int % 16)
        }),
{
    let bytes = seq![byte] + rest;
    assert(bytes[0] == byte);
    assert(bytes.skip(1) =~= rest);
}

/// No question mark, number sign or blank is left in an encoded path, so nothing behind
/// it is taken for a part of it.
pub proof fn law_encoded_path_is_closed(text: Seq<char>, at: int)
    requires
        0 <= at < percent_encoded(text).len(),
    ensures
        percent_encoded(text)[at] != '?',
        percent_encoded(text)[at] != '#',
        percent_encoded(text)[at] != ' ',
        percent_encoded(text)[at] != '\n',
{
    lemma_encoded_is_closed(encode_utf8(text), at);
}

proof fn lemma_encoded_is_closed(bytes: Seq<u8>, at: int)
    requires
        0 <= at < encoded_bytes(bytes).len(),
    ensures
        encoded_bytes(bytes)[at] != '?',
        encoded_bytes(bytes)[at] != '#',
        encoded_bytes(bytes)[at] != ' ',
        encoded_bytes(bytes)[at] != '\n',
    decreases bytes.len(),
{
    let first = encoded_byte(bytes[0]);
    if at >= first.len() {
        lemma_encoded_is_closed(bytes.skip(1), at - first.len());
    }
}

/// An escape is decoded from two hexadecimal digits of either case; one that is cut or
/// has another character is refused, and any other character stands for itself.
pub proof fn law_escapes_are_decoded(high: char, low: char, c: char, rest: Seq<char>)
    ensures
        decoded_bytes(Seq::empty()) == Some(Seq::<u8>::empty()),
        hex_value(high) matches Some(upper) ==> (hex_value(low) matches Some(lower) ==> (
        decoded_bytes(rest) matches Some(bytes) ==> decoded_bytes(seq!['%', high, low] + rest)
            == Some(seq![(16 * upper + lower) as u8] + bytes))),
        hex_value(high) is None || hex_value(low) is None ==> decoded_bytes(
            seq!['%', high, low] + rest,
        ) is None,
        decoded_bytes(seq!['%']) is None,
        decoded_bytes(seq!['%', high]) is None,
        decoded_bytes(rest) is None ==> decoded_bytes(seq![c] + rest) is None || c == '%',
        c != '%' ==> (decoded_bytes(rest) matches Some(bytes) ==> decoded_bytes(seq![c] + rest)
            == Some(encode_utf8(seq![c]) + bytes)),
        '0' <= c <= '9' ==> hex_value(c) == Some(c as int - '0' as int),
        'a' <= c <= 'f' ==> hex_value(c) == Some(c as int - 'a' as int + 10),
        'A' <= c <= 'F' ==> hex_value(c) == Some(c as int - 'A' as int + 10),
{
    let escape = seq!['%', high, low] + rest;
    assert(escape[0] == '%' && escape[1] == high && escape[2] == low);
    assert(escape.skip(3) =~= rest);
    let plain = seq![c] + rest;
    assert(plain[0] == c);
    assert(plain.skip(1) =~= rest);
}

/// A source is referred to by its path, and by its selectors behind the first question
/// mark.
pub proof fn law_source_reference_has_path_and_selectors(
    uri: Seq<char>,
    location: Seq<char>,
    selectors: Seq<char>,
)
    ensures
        !uri.contains('?') ==> source_reference(uri) == match path_after("mcpls-source://"@, uri) {
            Ok(path) => Some((path, Seq::<char>::empty())),
            Err(_) => None,
        },
        !location.contains('?') ==> source_reference(location + seq!['?'] + selectors)
            == match path_after("mcpls-source://"@, location) {
            Ok(path) => Some((path, selectors)),
            Err(_) => None,
        },
{
    uri.index_of_first_ensures('?');
    if !location.contains('?') {
        crate::session::lemma_split(location, '?', selectors);
    }
}

/// A file is named by a reference of the scheme `file` without a host, with an absolute
/// path that decodes.
pub proof fn law_file_reference_names_a_local_path(
    scheme: Option<Seq<char>>,
    authority: Option<Seq<char>>,
    path: Seq<char>,
)
    ensures
        ({
            let named = file_path_of((scheme, authority, path));
            let local = authority is None || authority == Some(Seq::<char>::empty());
            &&& scheme == Some("file"@) && local && path.len() > 0 && path[0] == '/' ==> named
                == percent_decoded(path)
            &&& !(scheme == Some("file"@) && local && path.len() > 0 && path[0] == '/') ==> named
                is None
        }),
{
    if let Some(host) = authority {
        assert(host.len() == 0 <==> host =~= Seq::<char>::empty());
    }
}

} // verus!
