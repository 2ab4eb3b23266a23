//! The calls into other crates, each behind a small function whose contract is
//! taken on trust. Results that a few lines cannot describe are named by spec
//! functions without a body.

use crate::text;
use sha2::Digest;
use vstd::prelude::*;

verus! {

/// The SHA-256 digest of a byte sequence, as the crate `sha2` computes it.
pub uninterp spec fn sha256_of(bytes: Seq<u8>) -> Seq<u8>;

/// What `serde_json` reads from a text as a list of 64-bit numbers, if it can.
pub uninterp spec fn json_i64_list(text: Seq<char>) -> Option<Seq<i64>>;

/// What `serde_json` reads from a text as a list of strings, if it can.
pub uninterp spec fn json_string_list(text: Seq<char>) -> Option<Seq<Seq<char>>>;

/// How `serde_json` writes again what it reads from a text, if that is JSON.
pub uninterp spec fn json_rewritten(text: Seq<char>) -> Option<Seq<char>>;

/// The path and the decoded query pairs of a URL, if the text is one.
pub uninterp spec fn url_parts(text: Seq<char>) -> Option<
    (Seq<char>, Seq<(Seq<char>, Seq<char>)>),
>;

/// The Unicode lower case of a text.
pub uninterp spec fn unicode_lower(text: Seq<char>) -> Seq<char>;

/// The lower-case hexadecimal digit of a number below sixteen.
pub open spec fn hex_digit(d: nat) -> char {
    if d < 10 {
        ('0' as nat + d) as char
    } else {
        ('a' as nat + d - 10) as char
    }
}

/// Two lower-case hexadecimal digits for each byte, the high half first.
pub open spec fn hex_text(bytes: Seq<u8>) -> Seq<char> {
    Seq::new(
        2 * bytes.len(),
        |i: int|
            if i % 2 == 0 {
                hex_digit(bytes[i / 2] as nat / 16)
            } else {
                hex_digit(bytes[i / 2] as nat % 16)
            },
    )
}

/// A list of numbers in JSON, without white space.
pub open spec fn json_of_i64s(list: Seq<i64>) -> Seq<char> {
    seq!['['] + text::joined(list.map_values(|n: i64| text::signed_decimal(n as int)), seq![',']) + seq![']']
}

/// A character inside a JSON string: quotes, backslashes and control characters
/// are escaped, by a letter where there is one.
pub open spec fn json_escape(c: char) -> Seq<char> {
    if c == '"' || c == '\\' {
        seq!['\\', c]
    } else if c as nat == 0x08 {
        seq!['\\', 'b']
    } else if c as nat == 0x09 {
        seq!['\\', 't']
    } else if c as nat == 0x0a {
        seq!['\\', 'n']
    } else if c as nat == 0x0c {
        seq!['\\', 'f']
    } else if c as nat == 0x0d {
        seq!['\\', 'r']
    } else if (c as nat) < 0x20 {
        seq!['\\', 'u', '0', '0', hex_digit(c as nat / 16), hex_digit(c as nat % 16)]
    } else {
        seq![c]
    }
}

/// A text as a JSON string.
pub open spec fn json_string(text: Seq<char>) -> Seq<char> {
    seq!['"'] + text.map_values(|c: char| json_escape(c)).flatten() + seq!['"']
}

/// A list of texts in JSON, without white space.
pub open spec fn json_of_strings(list: Seq<Seq<char>>) -> Seq<char> {
    seq!['['] + text::joined(list.map_values(|t: Seq<char>| json_string(t)), seq![',']) + seq![']']
}

/// How `serde_json` writes again what it reads from a text, if that is JSON. A
/// compact text stays as it is.
pub open spec fn rewritten(text: Seq<char>) -> Option<Seq<char>> {
    if crate::json::is_compact(text) {
        Some(text)
    } else {
        json_rewritten(text)
    }
}

/// The value of a hexadecimal digit of either case.
pub open spec fn hex_value(b: u8) -> Option<int> {
    if '0' as nat <= b <= '9' as nat {
        Some(b - '0' as nat)
    } else if 'a' as nat <= b <= 'f' as nat {
        Some(b - 'a' as nat + 10)
    } else if 'A' as nat <= b <= 'F' as nat {
        Some(b - 'A' as nat + 10)
    } else {
        None
    }
}

/// Bytes with one byte for each `%` that two hexadecimal digits follow. Every
/// other byte stays, a `%` without its digits too.
pub open spec fn unescaped(bytes: Seq<u8>) -> Seq<u8>
    decreases bytes.len(),
{
    if bytes.len() == 0 {
        Seq::empty()
    } else if bytes.len() >= 3 && bytes[0] == '%' as u8 && hex_value(bytes[1]) is Some && hex_value(
        bytes[2],
    ) is Some {
        seq![(16 * hex_value(bytes[1]).unwrap() + hex_value(bytes[2]).unwrap()) as u8] + unescaped(
            bytes.skip(3),
        )
    } else {
        seq![bytes[0]] + unescaped(bytes.skip(1))
    }
}

/// A percent-encoded text decoded, if the bytes that it stands for are UTF-8.
pub open spec fn percent_decoded(text: Seq<char>) -> Option<Seq<char>> {
    let bytes = unescaped(vstd::utf8::encode_utf8(text));
    if vstd::utf8::valid_utf8(bytes) {
        Some(vstd::utf8::decode_utf8(bytes))
    } else {
        None
    }
}

/// The views of a list of pairs of strings.
pub open spec fn pair_texts(list: Seq<(String, String)>) -> Seq<(Seq<char>, Seq<char>)> {
    list.map_values(|p: (String, String)| (p.0@, p.1@))
}

/// The views of an optional list of strings.
pub open spec fn opt_texts(list: Option<Vec<String>>) -> Option<Seq<Seq<char>>> {
    match list {
        Some(v) => Some(text::texts(v@)),
        None => None,
    }
}

/// The view of an optional string.
pub open spec fn opt_text(s: Option<String>) -> Option<Seq<char>> {
    match s {
        Some(v) => Some(v@),
        None => None,
    }
}

/// `sha2::Sha256` over `bytes`: `new`, one `update` and `finalize`. The digest
/// depends on the bytes alone and has thirty-two of them.
#[verifier::external_body]
pub(crate) fn sha256(bytes: &[u8]) -> (r: Vec<u8>)
    ensures
        r@ == sha256_of(bytes@),
        r@.len() == 32,
{
    let mut hasher = sha2::Sha256::new();
    hasher.update(bytes);
    hasher.finalize().to_vec()
}

/// `hex::encode`: two lower-case hexadecimal digits for each byte.
#[verifier::external_body]
pub(crate) fn hex_encode(bytes: &[u8]) -> (r: String)
    ensures
        r@ == hex_text(bytes@),
{
    hex::encode(bytes)
}

/// `getrandom::getrandom` on sixteen bytes. Whether or not it succeeds there
/// are sixteen bytes afterwards; nothing more is known of them.
#[verifier::external_body]
pub(crate) fn random_bytes() -> (r: Vec<u8>)
    ensures
        r@.len() == 16,
{
    let mut entropy = [0u8; 16];
    let _ = getrandom::getrandom(&mut entropy);
    entropy.to_vec()
}

/// `serde_json::from_str` for a list of numbers; an error of any kind is `None`.
#[verifier::external_body]
pub(crate) fn read_i64_list(raw: &str) -> (r: Option<Vec<i64>>)
    ensures
        match r {
            Some(list) => json_i64_list(raw@) == Some(list@),
            None => json_i64_list(raw@) is None,
        },
{
    serde_json::from_str::<Vec<i64>>(raw).ok()
}

/// `serde_json::to_string` for a list of numbers: the compact form, which
/// `from_str` reads back as the same list.
#[verifier::external_body]
pub(crate) fn write_i64_list(list: &[i64]) -> (r: Option<String>)
    ensures
        opt_text(r) == Some(json_of_i64s(list@)),
        json_i64_list(opt_text(r).unwrap()) == Some(list@),
{
    serde_json::to_string(list).ok()
}

/// `serde_json::from_str` for a list of strings; an error of any kind is `None`.
#[verifier::external_body]
pub(crate) fn read_string_list(raw: &str) -> (r: Option<Vec<String>>)
    ensures
        opt_texts(r) == json_string_list(raw@),
{
    serde_json::from_str::<Vec<String>>(raw).ok()
}

/// `serde_json::to_string` for a string: in quotes, with escapes for quotes,
/// backslashes and control characters.
#[verifier::external_body]
pub(crate) fn write_string(text: &str) -> (r: Option<String>)
    ensures
        opt_text(r) == Some(json_string(text@)),
{
    serde_json::to_string(text).ok()
}

/// `serde_json::to_string` for a list of strings: the compact form, which
/// `from_str` reads back as the same list.
#[verifier::external_body]
pub(crate) fn write_string_list(list: &[String]) -> (r: Option<String>)
    ensures
        opt_text(r) == Some(json_of_strings(text::texts(list@))),
        json_string_list(opt_text(r).unwrap()) == Some(text::texts(list@)),
{
    serde_json::to_string(list).ok()
}

/// `serde_json::from_str` for any JSON document, written out again by its
/// `to_string`; a text that is no JSON document is `None`. A compact text comes
/// back as it is: its objects have their members in the order in which
/// `serde_json` keeps them, its numbers fit in 64 bits, and it is not nested too
/// deeply to be read.
#[verifier::external_body]
pub(crate) fn rewrite_json(raw: &str) -> (r: Option<String>)
    ensures
        opt_text(r) == json_rewritten(raw@),
        crate::json::is_compact(raw@) ==> opt_text(r) == Some(raw@),
{
    serde_json::from_str::<serde_json::Value>(raw).ok().map(|v| v.to_string())
}

/// `urlencoding::decode`: each `%` with two hexadecimal digits becomes a byte; a
/// result that is not UTF-8 is `None`.
#[verifier::external_body]
pub(crate) fn percent_decode(raw: &str) -> (r: Option<String>)
    ensures
        opt_text(r) == percent_decoded(raw@),
{
    urlencoding::decode(raw).ok().map(|s| s.into_owned())
}

/// `worker::Url::parse`, with the `path` and the `query_pairs` of the result; a
/// text that is no URL is `None`.
#[verifier::external_body]
pub(crate) fn parse_url(raw: &str) -> (r: Option<(String, Vec<(String, String)>)>)
    ensures
        match r {
            Some(u) => url_parts(raw@) == Some((u.0@, pair_texts(u.1@))),
            None => url_parts(raw@) is None,
        },
{
    let url = worker::Url::parse(raw).ok()?;
    let pairs = url.query_pairs().into_owned().collect();
    Some((url.path().to_string(), pairs))
}

/// `str::to_lowercase` of std. On a text of ASCII characters it is the ASCII
/// lower case.
#[verifier::external_body]
pub(crate) fn to_lowercase(raw: &str) -> (r: String)
    ensures
        r@ == unicode_lower(raw@),
        vstd::utf8::is_ascii_chars(raw@) ==> r@ == text::ascii_lower(raw@),
{
    raw.to_lowercase()
}

} // verus!
