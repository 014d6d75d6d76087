//! Calls into outside crates and into parts of std that vstd does not specify.
//! Each item here is trusted: its contract is believed, not proved.
use vstd::prelude::*;
use vstd::utf8::{decode_utf8, valid_utf8};
use proc_macro2::{Delimiter, Spacing, TokenTree};
use libsodium_rs::crypto_aead::xchacha20poly1305;
use libsodium_rs::crypto_pwhash;
use crate::mirror::args::MirrorToken;
use crate::mirror::source_file::{items_view, SourceItemView};
use crate::mirror::source_hits::SourceItem;
use crate::rx::kdbx::{is_kdb_file, kdbx_view, opt_bytes, opt_chars, KdbxContents, KdbxEntry, KdbxGroup, KdbxView};
use crate::rx::source::{KeePassAttachment, KeePassCustomItem, KeePassField, KeePassValue};
use crate::text::ascii_lower_seq;
use fuzzy_matcher::FuzzyMatcher;
use base64::Engine;
use humanize_duration::prelude::DurationExt;

verus! {

/// Result of `UniCase::to_folded_case` (Unicode case folding) on a string.
pub uninterp spec fn unicase_folded(s: Seq<char>) -> Seq<char>;

/// Result of `deunicode::deunicode_with_tofu_cow` on a string with a placeholder.
pub uninterp spec fn deunicode_with_tofu(s: Seq<char>, tofu: Seq<char>) -> Seq<char>;

/// Whether `SkimMatcherV2::default().fuzzy_match(choice, pattern)` finds a match.
pub uninterp spec fn skim_fuzzy_matches(choice: Seq<char>, pattern: Seq<char>) -> bool;

/// Result of `str::to_lowercase` (Unicode lower-casing) on a string.
pub uninterp spec fn std_to_lowercase(s: Seq<char>) -> Seq<char>;

/// Whether `RegexBuilder::new(pattern).case_insensitive(true).build()` succeeds.
pub uninterp spec fn regex_ci_compiles(pattern: Seq<char>) -> bool;

/// Result of `Regex::is_match` on a haystack, for the case-insensitive regex built from
/// `pattern`.
pub uninterp spec fn regex_ci_is_match(pattern: Seq<char>, haystack: Seq<char>) -> bool;

/// Result of `Uuid::from_str` on a string, with the UUID as its big-endian 128-bit value.
pub uninterp spec fn uuid_parse(s: Seq<char>) -> Option<u128>;

/// Result of `Uuid::new_v5(&Uuid::NAMESPACE_OID, name)` as a big-endian 128-bit value.
pub uninterp spec fn uuid_v5_oid(name: Seq<u8>) -> u128;

/// `s` is made of ASCII characters only.
pub open spec fn all_ascii(s: Seq<char>) -> bool {
    forall|i: int| 0 <= i < s.len() ==> (s[i] as u32) < 0x80
}

/// `s` is made of characters below U+007F only.
pub open spec fn all_below_del(s: Seq<char>) -> bool {
    forall|i: int| 0 <= i < s.len() ==> (s[i] as u32) < 0x7f
}

/// `unicase::UniCase::new(s).to_folded_case()`: Unicode case folding. Claimed: the result
/// is the named fold of `s`, and for an all-ASCII string it is the ASCII lower-casing
/// (the crate takes that path for ASCII input).
#[verifier::external_body]
pub(crate) fn fold_case(s: &str) -> (r: String)
    ensures
        r@ == unicase_folded(s@),
        all_ascii(s@) ==> r@ == ascii_lower_seq(s@),
{
    unicase::UniCase::new(s).to_folded_case()
}

/// `deunicode::deunicode_with_tofu_cow(s, tofu)`: ASCII transliteration. Claimed: the result
/// is the named transliteration, and a string of characters below U+007F comes back as it
/// is (the crate returns it borrowed).
#[verifier::external_body]
pub(crate) fn deunicode_tofu(s: &str, tofu: &str) -> (r: String)
    ensures
        r@ == deunicode_with_tofu(s@, tofu@),
        all_below_del(s@) ==> r@ == s@,
{
    deunicode::deunicode_with_tofu_cow(s, tofu).into_owned()
}

/// `SkimMatcherV2::default().fuzzy_match(choice, pattern).is_some()`. Claimed: the named
/// result, and an empty pattern always matches (the crate returns a score at once).
#[verifier::external_body]
pub(crate) fn skim_fuzzy_match(choice: &str, pattern: &str) -> (b: bool)
    ensures
        b == skim_fuzzy_matches(choice@, pattern@),
        pattern@.len() == 0 ==> b,
{
    fuzzy_matcher::skim::SkimMatcherV2::default().fuzzy_match(choice, pattern).is_some()
}

/// `str::to_lowercase`: Unicode lower-casing. Claimed: only the named result.
#[verifier::external_body]
pub(crate) fn to_lowercase(s: &str) -> (r: String)
    ensures
        r@ == std_to_lowercase(s@),
{
    s.to_lowercase()
}

/// `core::str::from_utf8`: claimed to succeed exactly on valid UTF-8 and then to give the
/// decoded characters, as its documentation says.
#[verifier::external_body]
pub(crate) fn utf8_str(bytes: &[u8]) -> (r: Option<&str>)
    ensures
        r is Some <==> valid_utf8(bytes@),
        r matches Some(s) ==> s@ == decode_utf8(bytes@),
{
    core::str::from_utf8(bytes).ok()
}

/// A case-insensitive regular expression together with the pattern it was built from.
pub struct CaseInsensitiveRegex {
    re: regex::Regex,
    pattern: Ghost<Seq<char>>,
}

/// `regex::Regex`, carried opaquely.
#[verifier::external_type_specification]
#[verifier::external_body]
pub struct ExRegex(regex::Regex);

impl CaseInsensitiveRegex {
    /// The pattern this regular expression was built from.
    pub closed spec fn pattern(&self) -> Seq<char> {
        self.pattern@
    }

    /// `RegexBuilder::new(pattern).case_insensitive(true).build()`. Claimed: it succeeds
    /// exactly when the named predicate holds of the pattern, and the result remembers it.
    #[verifier::external_body]
    pub(crate) fn build(pattern: &str) -> (r: Option<CaseInsensitiveRegex>)
        ensures
            r is Some <==> regex_ci_compiles(pattern@),
            r matches Some(x) ==> x.pattern() == pattern@,
    {
        match regex::RegexBuilder::new(pattern).case_insensitive(true).build() {
            Ok(re) => Some(CaseInsensitiveRegex { re, pattern: Ghost(pattern@) }),
            Err(_) => None,
        }
    }

    /// `Regex::is_match`. Claimed: the named result for this regex's pattern.
    #[verifier::external_body]
    pub(crate) fn is_match(&self, haystack: &str) -> (b: bool)
        ensures
            b == regex_ci_is_match(self.pattern(), haystack@),
    {
        self.re.is_match(haystack)
    }
}

/// `Uuid::from_str` (`Uuid::parse_str`): claimed to give the named parse, with the UUID
/// as its big-endian 128-bit value (`Uuid::as_u128`).
#[verifier::external_body]
pub(crate) fn parse_uuid(s: &str) -> (r: Option<u128>)
    ensures
        r == uuid_parse(s@),
{
    match <uuid::Uuid as core::str::FromStr>::from_str(s) {
        Ok(u) => Some(u.as_u128()),
        Err(_) => None,
    }
}

/// `Uuid::new_v5(&Uuid::NAMESPACE_OID, name)`: claimed to give the named value, which
/// depends on `name` alone (SHA-1 of the namespace and the name).
#[verifier::external_body]
pub(crate) fn new_v5_oid(name: &[u8]) -> (r: u128)
    ensures
        r == uuid_v5_oid(name@),
{
    uuid::Uuid::new_v5(&uuid::Uuid::NAMESPACE_OID, name).as_u128()
}

/// `Uuid::new_v4()`: a random UUID. Claimed: only that its version and variant bits are set,
/// as the crate's source masks them in, so it is never the nil UUID.
#[verifier::external_body]
pub(crate) fn new_v4() -> (r: u128)
    ensures
        r != 0,
{
    uuid::Uuid::new_v4().as_u128()
}

} // verus!

verus! {

/// `s` holds no NUL character.
pub open spec fn no_nul(s: Seq<char>) -> bool {
    forall|i: int| 0 <= i < s.len() ==> s[i] != '\0'
}

/// `gettextrs::gettext(msgid)`: the translation of a message in the current locale. What
/// it returns depends on the locale and on the installed catalogues, so nothing is claimed
/// of it. The crate panics on a NUL inside the message, which `requires` excludes, and on a
/// catalogue entry that is not UTF-8, which no argument can exclude.
#[verifier::external_body]
pub(crate) fn translate(msgid: &str) -> (r: String)
    requires
        no_nul(msgid@),
{
    gettextrs::gettext(msgid)
}

/// `gettextrs::pgettext(msgctxt, msgid)`: the translation of a message in a context, in the
/// current locale. Nothing is claimed of the result, for the reasons given for `translate`.
#[verifier::external_body]
pub(crate) fn translate_in_context(msgctxt: &str, msgid: &str) -> (r: String)
    requires
        no_nul(msgctxt@),
        no_nul(msgid@),
{
    gettextrs::pgettext(msgctxt, msgid)
}

} // verus!

verus! {

/// The type that `infer::get` recognises in a buffer, if any: its MIME type
/// (`Type::mime_type`), whether its matcher type is `MatcherType::Text`, and whether it is
/// `MatcherType::Image`.
pub uninterp spec fn infer_type(buf: Seq<u8>) -> Option<(Seq<char>, bool, bool)>;

/// The MIME type that `infer::get` recognises in a buffer, if any.
pub open spec fn infer_mime(buf: Seq<u8>) -> Option<Seq<char>> {
    match infer_type(buf) {
        Some(t) => Some(t.0),
        None => None,
    }
}

/// The character of a six-bit value in the standard Base64 alphabet (RFC 4648):
/// `A`-`Z`, `a`-`z`, `0`-`9`, `+` and `/`.
pub open spec fn base64_digit(n: int) -> char {
    if n < 26 {
        ((n + 65) as u32) as char
    } else if n < 52 {
        ((n - 26 + 97) as u32) as char
    } else if n < 62 {
        ((n - 52 + 48) as u32) as char
    } else if n == 62 {
        '+'
    } else {
        '/'
    }
}

/// Standard padded Base64 (RFC 4648): each group of three bytes gives four characters of
/// six bits each; a last group of one or two bytes gives two or three characters, padded
/// with `=` to four.
pub open spec fn base64_standard(bytes: Seq<u8>) -> Seq<char>
    decreases bytes.len(),
{
    if bytes.len() == 0 {
        Seq::empty()
    } else if bytes.len() == 1 {
        let a = bytes[0] as int;
        seq![base64_digit(a / 4), base64_digit((a % 4) * 16), '=', '=']
    } else if bytes.len() == 2 {
        let a = bytes[0] as int;
        let b = bytes[1] as int;
        seq![base64_digit(a / 4), base64_digit((a % 4) * 16 + b / 16), base64_digit((b % 16) * 4), '=']
    } else {
        let a = bytes[0] as int;
        let b = bytes[1] as int;
        let c = bytes[2] as int;
        seq![
            base64_digit(a / 4),
            base64_digit((a % 4) * 16 + b / 16),
            base64_digit((b % 16) * 4 + c / 64),
            base64_digit(c % 64),
        ] + base64_standard(bytes.skip(3))
    }
}

/// `infer::get(buf)`: claimed to give the named type (MIME type and matcher type), which
/// depends on the buffer alone (the crate tries its built-in matchers in a fixed order).
#[verifier::external_body]
pub(crate) fn infer_kind(buf: &[u8]) -> (r: Option<(String, bool, bool)>)
    ensures
        match r {
            Some(k) => infer_type(buf@) == Some((k.0@, k.1, k.2)),
            None => infer_type(buf@) is None,
        },
{
    infer::get(buf).map(|k| (
        k.mime_type().to_string(),
        k.matcher_type() == infer::MatcherType::Text,
        k.matcher_type() == infer::MatcherType::Image,
    ))
}

/// `base64::prelude::BASE64_STANDARD.encode(bytes)`: claimed to give the standard padded
/// Base64 encoding of the bytes (see `base64_standard`). The crate panics only when the
/// encoded length overflows `usize`, which a slice in memory cannot reach.
#[verifier::external_body]
pub(crate) fn encode_base64(bytes: &[u8]) -> (r: String)
    ensures
        r@ == base64_standard(bytes@),
{
    base64::prelude::BASE64_STANDARD.encode(bytes)
}

} // verus!

verus! {

/// Whether `keepass::db::TOTP::from_str` accepts an `otpauth://` URL.
pub uninterp spec fn totp_parses(raw: Seq<char>) -> bool;

/// The period in seconds of the TOTP that `keepass::db::TOTP::from_str` reads from a URL.
pub uninterp spec fn totp_period(raw: Seq<char>) -> u64;

/// The number of digits of the TOTP that `keepass::db::TOTP::from_str` reads from a URL.
pub uninterp spec fn totp_digits(raw: Seq<char>) -> u32;

/// The code `TOTP::value_at(time)` generates for the TOTP read from a URL.
pub uninterp spec fn totp_code(raw: Seq<char>, time: u64) -> Seq<char>;

/// `keepass::db::TOTP`, carried opaquely.
#[verifier::external_type_specification]
#[verifier::external_body]
pub struct ExKeePassTotp(keepass::db::TOTP);

/// A TOTP read from an `otpauth://` URL, with the URL it was read from.
pub struct ParsedTotp {
    otp: keepass::db::TOTP,
    raw: Ghost<Seq<char>>,
}

impl ParsedTotp {
    /// The URL this TOTP was read from.
    pub closed spec fn raw(&self) -> Seq<char> {
        self.raw@
    }

    /// `keepass::db::TOTP::from_str`: claimed to succeed exactly when the named predicate
    /// holds of the URL, and the result remembers the URL.
    #[verifier::external_body]
    pub(crate) fn parse(raw: &str) -> (r: Option<ParsedTotp>)
        ensures
            r is Some <==> totp_parses(raw@),
            r matches Some(t) ==> t.raw() == raw@,
    {
        match <keepass::db::TOTP as core::str::FromStr>::from_str(raw) {
            Ok(otp) => Some(ParsedTotp { otp, raw: Ghost(raw@) }),
            Err(_) => None,
        }
    }

    /// The `period` field: claimed to be the named period of the URL.
    #[verifier::external_body]
    pub(crate) fn period(&self) -> (r: u64)
        ensures
            r == totp_period(self.raw()),
    {
        self.otp.period
    }

    /// The `digits` field: claimed to be the named number of digits of the URL.
    #[verifier::external_body]
    pub(crate) fn digits(&self) -> (r: u32)
        ensures
            r == totp_digits(self.raw()),
    {
        self.otp.digits
    }

    /// `TOTP::value_at(time)`: the code for that time and how many seconds it stays valid.
    /// Claimed: the named code, and, as the crate computes it, the period less the time
    /// modulo the period. The crate divides by the period, which `requires` keeps non-zero,
    /// and takes the code modulo `10_u64.pow(digits)` (totp-lite's `totp_custom`), which
    /// overflows past 19 digits, so `requires` keeps the digits at 19 or fewer.
    #[verifier::external_body]
    pub(crate) fn value_at(&self, time: u64) -> (r: (String, u64))
        requires
            totp_period(self.raw()) > 0,
            totp_digits(self.raw()) <= 19,
        ensures
            r.0@ == totp_code(self.raw(), time),
            r.1 == totp_period(self.raw()) - time % totp_period(self.raw()),
    {
        let code = self.otp.value_at(time);
        (code.code, code.valid_for.as_secs())
    }
}

/// Text `humanize_duration` writes for a number of seconds, truncated to seconds.
pub uninterp spec fn humanized_seconds(secs: u64) -> Seq<char>;

/// `Duration::from_secs(secs).human(Truncate::Second)` formatted: claimed to be the named text.
#[verifier::external_body]
pub(crate) fn humanize_seconds(secs: u64) -> (r: String)
    ensures
        r@ == humanized_seconds(secs),
{
    format!("{}", core::time::Duration::from_secs(secs).human(humanize_duration::Truncate::Second))
}

/// The query of a URI as `uriparse` reads it: `None` when the text is no URI, `Some(None)`
/// when it has no query.
pub uninterp spec fn uri_query_of(s: Seq<char>) -> Option<Option<Seq<char>>>;

/// `uriparse::URI::try_from(s)` and `URI::query`: claimed to give the named query.
#[verifier::external_body]
pub(crate) fn uri_query(s: &str) -> (r: Option<Option<String>>)
    ensures
        match r {
            None => uri_query_of(s@) is None,
            Some(None) => uri_query_of(s@) == Some(None::<Seq<char>>),
            Some(Some(q)) => uri_query_of(s@) == Some(Some(q@)),
        },
{
    match uriparse::URI::try_from(s) {
        Ok(uri) => Some(uri.query().map(|q| q.as_str().to_string())),
        Err(_) => None,
    }
}

/// The pairs `querystring::querify` reads from a query: each piece between `&` that holds
/// an `=` gives the text before the first `=` and the text up to the next `=`.
pub open spec fn querify_pairs(pieces: Seq<Seq<char>>) -> Seq<(Seq<char>, Seq<char>)>
    decreases pieces.len(),
{
    if pieces.len() == 0 {
        Seq::empty()
    } else {
        let rest = querify_pairs(pieces.drop_last());
        let kv = crate::text::split_pieces(pieces.last(), '=');
        if kv.len() >= 2 {
            rest.push((kv[0], kv[1]))
        } else {
            rest
        }
    }
}

/// `querystring::querify(query)`: claimed to give the pairs its source reads (see
/// `querify_pairs`).
#[verifier::external_body]
pub(crate) fn querify(query: &str) -> (r: Vec<(String, String)>)
    ensures
        r@.map_values(|p: (String, String)| (p.0@, p.1@)) == querify_pairs(crate::text::split_pieces(query@, '&')),
{
    querystring::querify(query).into_iter().map(|(k, v)| (k.to_string(), v.to_string())).collect()
}

/// The bytes `Secret::Encoded(secret).to_bytes()` decodes (base32, RFC 4648 alphabet without
/// padding), or `None` when the text is no such encoding.
pub uninterp spec fn base32_decoded(secret: Seq<char>) -> Option<Seq<u8>>;

/// `totp_rs::Secret::Encoded(secret).to_bytes()`: claimed to give the named decoding.
#[verifier::external_body]
pub(crate) fn decode_secret(secret: &str) -> (r: Option<Vec<u8>>)
    ensures
        match r {
            Some(b) => base32_decoded(secret@) == Some(b@),
            None => base32_decoded(secret@) is None,
        },
{
    totp_rs::Secret::Encoded(secret.to_string()).to_bytes().ok()
}

/// The Steam code `TOTP::new_steam(secret).generate(time)` gives.
pub uninterp spec fn steam_code(secret: Seq<u8>, time: u64) -> Seq<char>;

/// `totp_rs::TOTP::new_steam(secret).generate(time)`: claimed to give the named code.
#[verifier::external_body]
pub(crate) fn steam_code_at(secret: &[u8], time: u64) -> (r: String)
    ensures
        r@ == steam_code(secret@, time),
{
    totp_rs::TOTP::new_steam(secret.to_vec()).generate(time)
}

/// Microseconds since the Unix epoch from the system clock (`Duration::as_micros`); `None`
/// when the clock is before the epoch. It depends on the time, so nothing is claimed of it.
#[verifier::external_body]
pub(crate) fn unix_micros() -> (r: Option<u128>) {
    match std::time::SystemTime::now().duration_since(std::time::UNIX_EPOCH) {
        Ok(d) => Some(d.as_micros()),
        Err(_) => None,
    }
}

/// Seconds since the Unix epoch from the system clock; `None` when the clock is before the
/// epoch. It depends on the time, so nothing is claimed of it.
#[verifier::external_body]
pub(crate) fn unix_now() -> (r: Option<u64>) {
    match std::time::SystemTime::now().duration_since(std::time::UNIX_EPOCH) {
        Ok(d) => Some(d.as_secs()),
        Err(_) => None,
    }
}

} // verus!

verus! {

/// The first capture group of the first match of a regular expression in a text: `None`
/// when the pattern does not compile, `Some(None)` when nothing matches (or the group does
/// not take part).
pub uninterp spec fn regex_first_capture(pattern: Seq<char>, input: Seq<char>) -> Option<Option<Seq<char>>>;

/// `Regex::new(pattern)` then `captures(input)` and group 1: claimed to give the named result.
#[verifier::external_body]
pub(crate) fn regex_capture(pattern: &str, input: &str) -> (r: Option<Option<String>>)
    ensures
        match r {
            None => regex_first_capture(pattern@, input@) is None,
            Some(None) => regex_first_capture(pattern@, input@) == Some(None::<Seq<char>>),
            Some(Some(c)) => regex_first_capture(pattern@, input@) == Some(Some(c@)),
        },
{
    match regex::Regex::new(pattern) {
        Ok(re) => Some(re.captures(input).and_then(|caps| caps.get(1).map(|m| m.as_str().to_string()))),
        Err(_) => None,
    }
}

/// The members of a JSON object text, in the order `serde_json` keeps them, each value's
/// text when it is a JSON string: `None` when the text is no JSON or no object.
pub uninterp spec fn json_members(text: Seq<char>) -> Option<Seq<(Seq<char>, Option<Seq<char>>)>>;

/// `serde_json::from_str::<Value>(text)`, `as_object`, and `as_str` of each member: claimed
/// to give the named members.
#[verifier::external_body]
pub(crate) fn json_object_members(text: &str) -> (r: Option<Vec<(String, Option<String>)>>)
    ensures
        match r {
            None => json_members(text@) is None,
            Some(v) => json_members(text@) == Some(v@.map_values(|p: (String, Option<String>)| (p.0@, crate::mirror::opt_text(p.1)))),
        },
{
    match serde_json::from_str::<serde_json::Value>(text) {
        Ok(json) => json.as_object().map(|obj| {
            obj.iter().map(|(k, v)| (k.clone(), v.as_str().map(|s| s.to_string()))).collect()
        }),
        Err(_) => None,
    }
}

} // verus!

verus! {

/// `gettextrs::npgettext(msgctxt, msgid, msgid_plural, n)`: the translation, in a context, of
/// a message with a plural form chosen by `n`. Nothing is claimed of it, for the reasons given
/// for `translate`; the crate panics on a NUL in any of the texts, which `requires` excludes.
#[verifier::external_body]
pub(crate) fn translate_plural(msgctxt: &str, msgid: &str, msgid_plural: &str, n: u32) -> (r: String)
    requires
        no_nul(msgctxt@),
        no_nul(msgid@),
        no_nul(msgid_plural@),
{
    gettextrs::npgettext(msgctxt, msgid, msgid_plural, n)
}

} // verus!

verus! {

/// The tokens the Rust lexer (`proc_macro2`, parsing a `TokenStream` from text) makes of a
/// text, by their views; `None` when the text does not lex. A function of the text alone.
pub uninterp spec fn lexed(text: Seq<char>) -> Option<Seq<crate::mirror::args::TokenView>>;

/// `TokenStream::from_str(text)` and its top-level token trees: claimed to give the named
/// tokens.
#[verifier::external_body]
pub(crate) fn lex_tokens(text: &str) -> (r: Option<Vec<crate::mirror::args::MirrorToken>>)
    ensures
        match r {
            Some(v) => lexed(text@) == Some(crate::mirror::args::tokens_view(v@)),
            None => lexed(text@) is None,
        },
{
    let stream: proc_macro2::TokenStream = text.parse().ok()?;
    Some(stream.into_iter().map(|tt| match tt {
        TokenTree::Ident(i) => MirrorToken::Ident(i.to_string()),
        TokenTree::Punct(p) => MirrorToken::Punct(p.as_char(), p.spacing() == Spacing::Joint),
        TokenTree::Literal(l) => MirrorToken::Literal(l.to_string()),
        TokenTree::Group(g) => MirrorToken::Group(g.delimiter() == Delimiter::Parenthesis),
    }).collect())
}

/// The value `syn` reads from the text of a string literal (`LitStr::value`, escapes
/// resolved), if the text is one.
pub uninterp spec fn lit_str_value_of(text: Seq<char>) -> Option<Seq<char>>;

/// `syn::parse_str::<LitStr>(text)` and `LitStr::value`: claimed to give the named value.
#[verifier::external_body]
pub(crate) fn lit_str_value(text: &str) -> (r: Option<String>)
    ensures
        match r {
            Some(v) => lit_str_value_of(text@) == Some(v@),
            None => lit_str_value_of(text@) is None,
        },
{
    syn::parse_str::<syn::LitStr>(text).ok().map(|l| l.value())
}

/// The `usize` that `syn` reads from the text of an integer literal (`LitInt::base10_parse`),
/// if the text is one and the value fits.
pub uninterp spec fn lit_usize_of(text: Seq<char>) -> Option<usize>;

/// `syn::parse_str::<LitInt>(text)` and `base10_parse::<usize>`: claimed to give the named
/// value.
#[verifier::external_body]
pub(crate) fn lit_usize(text: &str) -> (r: Option<usize>)
    ensures
        r == lit_usize_of(text@),
{
    syn::parse_str::<syn::LitInt>(text).ok().and_then(|l| l.base10_parse::<usize>().ok())
}

/// The name of the struct item `syn` reads from a text, and whether it is a unit struct;
/// `None` when the text is no struct item.
pub uninterp spec fn struct_item_of(text: Seq<char>) -> Option<(Seq<char>, bool)>;

/// `syn::parse_str::<ItemStruct>(text)`, its `ident`, and whether its fields are
/// `Fields::Unit`: claimed to give the named result.
#[verifier::external_body]
pub(crate) fn struct_item(text: &str) -> (r: Option<(String, bool)>)
    ensures
        match r {
            Some(s) => struct_item_of(text@) == Some((s.0@, s.1)),
            None => struct_item_of(text@) is None,
        },
{
    syn::parse_str::<syn::ItemStruct>(text).ok().map(|s| (s.ident.to_string(), matches!(s.fields, syn::Fields::Unit)))
}

} // verus!

verus! {

/// The key `crypto_pwhash::pwhash` derives (32 bytes, interactive limits, the default
/// algorithm) from a password and a salt; `None` when it fails.
pub uninterp spec fn pwhash_of(password: Seq<u8>, salt: Seq<u8>) -> Option<Seq<u8>>;

/// `crypto_pwhash::pwhash(32, password, salt, OPSLIMIT_INTERACTIVE, MEMLIMIT_INTERACTIVE,
/// ALG_DEFAULT)`: claimed to give the named key, which has the 32 bytes asked for.
#[verifier::external_body]
pub(crate) fn pwhash_key(password: &[u8], salt: &[u8]) -> (r: Option<Vec<u8>>)
    ensures
        match r {
            Some(k) => pwhash_of(password@, salt@) == Some(k@) && k@.len() == 32,
            None => pwhash_of(password@, salt@) is None,
        },
{
    let (ops, mem) = (crypto_pwhash::OPSLIMIT_INTERACTIVE, crypto_pwhash::MEMLIMIT_INTERACTIVE);
    crypto_pwhash::pwhash(32, password, salt, ops, mem, crypto_pwhash::ALG_DEFAULT).ok()
}

/// `random::fill_bytes` on a buffer of `crypto_pwhash::SALTBYTES` bytes: a fresh random
/// salt. It rests on chance, so nothing is claimed of it.
#[verifier::external_body]
pub(crate) fn random_salt() -> (r: Vec<u8>) {
    let mut salt = vec![0u8; crypto_pwhash::SALTBYTES];
    libsodium_rs::random::fill_bytes(&mut salt);
    salt
}

/// `xchacha20poly1305::Nonce::generate()`: a fresh random nonce of `NPUBBYTES` (24) bytes.
/// Only its length is claimed.
#[verifier::external_body]
pub(crate) fn random_nonce() -> (r: Vec<u8>)
    ensures
        r@.len() == 24,
{
    xchacha20poly1305::Nonce::generate().as_bytes().to_vec()
}

/// The ciphertext XChaCha20-Poly1305 makes of a message with a nonce and a key, no
/// additional data.
pub uninterp spec fn sealed(message: Seq<u8>, nonce: Seq<u8>, key: Seq<u8>) -> Seq<u8>;

/// The message XChaCha20-Poly1305 recovers from a ciphertext with a nonce and a key, no
/// additional data; `None` when authentication fails or the sizes are wrong.
pub uninterp spec fn opened(ciphertext: Seq<u8>, nonce: Seq<u8>, key: Seq<u8>) -> Option<Seq<u8>>;

/// The longest message XChaCha20-Poly1305 (IETF) seals: libsodium's
/// `crypto_aead_xchacha20poly1305_ietf_MESSAGEBYTES_MAX`, 64 * (2^32 - 1) bytes. Past it
/// libsodium aborts the process.
pub const AEAD_MESSAGE_MAX: u64 = 274877906880;

/// `xchacha20poly1305::encrypt(message, None, &Nonce::try_from_slice(nonce), &Key::from_bytes(key))`:
/// `None` when the nonce or key has the wrong size (the crate's `try_from_slice` and
/// `from_bytes` check for 24 and 32 bytes), otherwise the ciphertext. Claimed: the named
/// ciphertext, which opens again to the message with the same nonce and key, as an
/// authenticated cipher does; and success on a nonce of 24 bytes and a key of 32. Longer
/// messages than `AEAD_MESSAGE_MAX` are left out: libsodium aborts on them.
#[verifier::external_body]
pub(crate) fn aead_encrypt(message: &[u8], nonce: &[u8], key: &[u8]) -> (r: Option<Vec<u8>>)
    requires
        message@.len() <= AEAD_MESSAGE_MAX,
    ensures
        r matches Some(c) ==> c@ == sealed(message@, nonce@, key@) && opened(c@, nonce@, key@) == Some(message@),
        nonce@.len() == 24 && key@.len() == 32 ==> r is Some,
{
    let n = xchacha20poly1305::Nonce::try_from_slice(nonce).ok()?;
    let k = xchacha20poly1305::Key::from_bytes(key).ok()?;
    xchacha20poly1305::encrypt(message, None, &n, &k).ok()
}

/// `xchacha20poly1305::decrypt(ciphertext, None, nonce, key)`, `None` on any failure:
/// claimed to give the named message.
#[verifier::external_body]
pub(crate) fn aead_decrypt(ciphertext: &[u8], nonce: &[u8], key: &[u8]) -> (r: Option<Vec<u8>>)
    ensures
        match r {
            Some(m) => opened(ciphertext@, nonce@, key@) == Some(m@),
            None => opened(ciphertext@, nonce@, key@) is None,
        },
{
    let n = xchacha20poly1305::Nonce::try_from_slice(nonce).ok()?;
    let k = xchacha20poly1305::Key::from_bytes(key).ok()?;
    xchacha20poly1305::decrypt(ciphertext, None, &n, &k).ok()
}

/// `crypto_kdf::Key::generate()`: a fresh random master key of `KEYBYTES` (32) bytes; the
/// crate always returns `Ok`. Claimed: a key, and its length.
#[verifier::external_body]
pub(crate) fn kdf_new_key() -> (r: Option<Vec<u8>>)
    ensures
        r is Some,
        r matches Some(k) ==> k@.len() == 32,
{
    libsodium_rs::crypto_kdf::Key::generate().ok().map(|k| k.as_bytes().to_vec())
}

/// The 32-byte subkey `crypto_kdf::derive_from_key` derives from a master key, an id and a
/// context; `None` when it fails.
pub uninterp spec fn kdf_subkey_of(key: Seq<u8>, id: u64, context: Seq<u8>) -> Option<Seq<u8>>;

/// `crypto_kdf::derive_from_key(32, id, context, &Key::from_slice(key))`: claimed to give
/// the named subkey, of the 32 bytes asked for.
#[verifier::external_body]
pub(crate) fn kdf_subkey(key: &[u8], id: u64, context: &[u8]) -> (r: Option<Vec<u8>>)
    ensures
        match r {
            Some(s) => kdf_subkey_of(key@, id, context@) == Some(s@) && s@.len() == 32,
            None => kdf_subkey_of(key@, id, context@) is None,
        },
{
    let k = libsodium_rs::crypto_kdf::Key::from_slice(key).ok()?;
    libsodium_rs::crypto_kdf::derive_from_key(32, id, context, &k).ok()
}

/// `Zeroize::zeroize` on a byte vector: the bytes are overwritten with zeros and the vector
/// is cleared, as the `zeroize` crate documents for `Vec`.
#[verifier::external_body]
pub(crate) fn wipe_bytes(v: &mut Vec<u8>)
    ensures
        final(v)@.len() == 0,
{
    zeroize::Zeroize::zeroize(v)
}

/// `Zeroize::zeroize` on a string: its bytes are overwritten with zeros and the string is
/// cleared, as the `zeroize` crate documents for `String`.
#[verifier::external_body]
pub(crate) fn wipe_string(s: &mut String)
    ensures
        final(s)@.len() == 0,
{
    zeroize::Zeroize::zeroize(s)
}

/// `keyring::Entry`, carried opaquely.
#[verifier::external_type_specification]
#[verifier::external_body]
pub struct ExKeyringEntry(keyring::Entry);

/// `keyring::Entry::new(service, user)`: an entry of the platform's credential store. It
/// rests on that outside service, so nothing is claimed of it.
#[verifier::external_body]
pub(crate) fn keyring_entry(service: &str, user: &str) -> (r: Option<keyring::Entry>) {
    keyring::Entry::new(service, user).ok()
}

/// `keyring::Entry::set_secret`: `true` when the store took the secret. It rests on the
/// outside service, so nothing is claimed of it.
#[verifier::external_body]
pub(crate) fn keyring_set(entry: &keyring::Entry, secret: &[u8]) -> (r: bool) {
    entry.set_secret(secret).is_ok()
}

/// `keyring::Entry::get_secret`: the secret the store holds. It rests on the outside
/// service, so nothing is claimed of it.
#[verifier::external_body]
pub(crate) fn keyring_get(entry: &keyring::Entry) -> (r: Option<Vec<u8>>) {
    entry.get_secret().ok()
}

/// `keyring::Entry::delete_credential`: `true` when the store dropped the secret. It rests
/// on the outside service, so nothing is claimed of it.
#[verifier::external_body]
pub(crate) fn keyring_delete(entry: &keyring::Entry) -> (r: bool) {
    entry.delete_credential().is_ok()
}

} // verus!

verus! {

/// The 32-byte key `scrypt::scrypt` derives with the recommended parameters from a password
/// and a salt; `None` when it fails.
pub uninterp spec fn scrypt_key_of(password: Seq<u8>, salt: Seq<u8>) -> Option<Seq<u8>>;

/// `scrypt::scrypt(password, salt, &Params::recommended(), &mut [0u8; 32])`: claimed to
/// give the named key, of the 32 bytes asked for. The crate fails only on an empty or
/// overlong output buffer, so with 32 bytes it always succeeds.
#[verifier::external_body]
pub(crate) fn scrypt_key(password: &[u8], salt: &[u8]) -> (r: Option<Vec<u8>>)
    ensures
        r is Some,
        match r {
            Some(k) => scrypt_key_of(password@, salt@) == Some(k@) && k@.len() == 32,
            None => scrypt_key_of(password@, salt@) is None,
        },
{
    let mut out = vec![0u8; 32];
    scrypt::scrypt(password, salt, &scrypt::Params::recommended(), &mut out).ok().map(|_| out)
}

/// `SaltString::generate(&mut OsRng)`, as text: a fresh random salt. It rests on chance, so
/// nothing is claimed of it.
#[verifier::external_body]
pub(crate) fn random_salt_string() -> (r: String) {
    scrypt::password_hash::SaltString::generate(&mut aes_gcm::aead::OsRng).as_str().to_string()
}

/// `Aes256Gcm::generate_nonce(&mut OsRng)`: a fresh random 96-bit nonce. Only its length
/// (12 bytes) is claimed.
#[verifier::external_body]
pub(crate) fn gcm_nonce() -> (r: Vec<u8>)
    ensures
        r@.len() == 12,
{
    <aes_gcm::Aes256Gcm as aes_gcm::AeadCore>::generate_nonce(&mut aes_gcm::aead::OsRng).to_vec()
}

/// The ciphertext AES-256-GCM makes of a message with a nonce and a key.
pub uninterp spec fn gcm_sealed(message: Seq<u8>, nonce: Seq<u8>, key: Seq<u8>) -> Seq<u8>;

/// The message AES-256-GCM recovers from a ciphertext with a nonce and a key; `None` when
/// authentication fails or the key has the wrong size.
pub uninterp spec fn gcm_opened(ciphertext: Seq<u8>, nonce: Seq<u8>, key: Seq<u8>) -> Option<Seq<u8>>;

/// The longest message AES-256-GCM seals: aes-gcm's `P_MAX`, 2^36 bytes.
pub const GCM_MESSAGE_MAX: u64 = 68719476736;

/// `Aes256Gcm::new_from_slice(key)` and `encrypt(Nonce::from_slice(nonce), message)`, which
/// panics on a nonce of another size than 12 bytes: `None` when the key has the wrong size
/// (`new_from_slice` wants 32 bytes) or the message is longer than `P_MAX`. Claimed: the
/// named ciphertext, which opens again to the message with the same nonce and key, as an
/// authenticated cipher does; and success on a 32-byte key and a message of at most `P_MAX`
/// bytes.
#[verifier::external_body]
pub(crate) fn gcm_encrypt(message: &[u8], nonce: &[u8], key: &[u8]) -> (r: Option<Vec<u8>>)
    requires
        nonce@.len() == 12,
    ensures
        r matches Some(c) ==> c@ == gcm_sealed(message@, nonce@, key@) && gcm_opened(c@, nonce@, key@) == Some(
            message@,
        ),
        key@.len() == 32 && message@.len() <= GCM_MESSAGE_MAX ==> r is Some,
{
    let cipher = <aes_gcm::Aes256Gcm as aes_gcm::KeyInit>::new_from_slice(key).ok()?;
    aes_gcm::aead::Aead::encrypt(&cipher, aes_gcm::Nonce::from_slice(nonce), message).ok()
}

/// `Aes256Gcm::new_from_slice(key)` and `decrypt(Nonce::from_slice(nonce), ciphertext)`,
/// `None` on any failure: claimed to give the named message.
#[verifier::external_body]
pub(crate) fn gcm_decrypt(ciphertext: &[u8], nonce: &[u8], key: &[u8]) -> (r: Option<Vec<u8>>)
    requires
        nonce@.len() == 12,
    ensures
        match r {
            Some(m) => gcm_opened(ciphertext@, nonce@, key@) == Some(m@),
            None => gcm_opened(ciphertext@, nonce@, key@) is None,
        },
{
    let cipher = <aes_gcm::Aes256Gcm as aes_gcm::KeyInit>::new_from_slice(key).ok()?;
    aes_gcm::aead::Aead::decrypt(&cipher, aes_gcm::Nonce::from_slice(nonce), ciphertext).ok()
}

} // verus!

verus! {

/// `syn::Item`, carried opaquely.
#[verifier::external_type_specification]
#[verifier::external_body]
pub struct ExSynItem(syn::Item);

/// The items `syn::parse_file` reads from a source file's text, as text (see
/// `SourceItemView`); `None` when the text does not parse.
pub uninterp spec fn file_items_of(text: Seq<char>) -> Option<Seq<SourceItemView>>;

/// `syn::parse_file(text)` and its items, converted one for one: claimed to give the named
/// items, `None` exactly when the text does not parse.
#[verifier::external_body]
pub(crate) fn parse_file_items(text: &str) -> (r: Option<Vec<SourceItem>>)
    ensures
        r is None <==> file_items_of(text@) is None,
        r matches Some(v) ==> file_items_of(text@) == Some(items_view(v@)),
{
    match syn::parse_file(text) {
        Ok(file) => Some(file.items.iter().map(convert_syn_item).collect()),
        Err(_) => None,
    }
}

/// The conversion of one `syn::Item` that `parse_file_items` applies, apart because inline
/// modules nest: a struct gives its name, its field names when they are named, and each
/// field's tokens as text (`ToTokens::to_token_stream`); a module its inline items; anything
/// else nothing. Nothing is claimed of it apart from `parse_file_items`.
#[verifier::external_body]
fn convert_syn_item(item: &syn::Item) -> SourceItem {
    match item {
        syn::Item::Struct(s) => SourceItem::Struct {
            name: s.ident.to_string(),
            named_fields: match &s.fields {
                syn::Fields::Named(n) => Some(n.named.iter().map(|f| f.ident.as_ref().map(|i| i.to_string()).unwrap_or_default()).collect()),
                _ => None,
            },
            field_decls: s.fields.iter().map(|f| quote::ToTokens::to_token_stream(f).to_string()).collect(),
        },
        syn::Item::Mod(m) => SourceItem::Module { items: m.content.as_ref().map(|(_, inner)| inner.iter().map(convert_syn_item).collect()) },
        _ => SourceItem::Other,
    }
}

/// The message `syn::parse_str::<syn::ItemUse>(text)` fails with, `None` when the text is a
/// `use` item.
pub uninterp spec fn use_item_error_of(text: Seq<char>) -> Option<Seq<char>>;

/// `syn::parse_str::<syn::ItemUse>(text)`: claimed to give the named error message, `None`
/// when the text parses as a `use` item.
#[verifier::external_body]
pub(crate) fn use_item_error(text: &str) -> (r: Option<String>)
    ensures
        match r {
            Some(m) => use_item_error_of(text@) == Some(m@),
            None => use_item_error_of(text@) is None,
        },
{
    match syn::parse_str::<syn::ItemUse>(text) {
        Ok(_) => None,
        Err(e) => Some(e.to_string()),
    }
}

} // verus!

verus! {

/// `keepass::Database`, carried opaquely.
#[verifier::external_type_specification]
#[verifier::external_body]
pub struct ExKeePassDatabase(keepass::Database);

/// `keepass::db::GroupRef`, carried opaquely.
#[verifier::external_type_specification]
#[verifier::external_body]
pub struct ExKeePassGroupRef<'a>(keepass::db::GroupRef<'a>);

/// `keepass::db::EntryRef`, carried opaquely.
#[verifier::external_type_specification]
#[verifier::external_body]
pub struct ExKeePassEntryRef<'a>(keepass::db::EntryRef<'a>);

/// `keepass::db::CustomDataValue`, carried opaquely.
#[verifier::external_type_specification]
#[verifier::external_body]
pub struct ExKeePassCustomDataValue(keepass::db::CustomDataValue);

/// `keepass::db::GroupMut`, carried opaquely.
#[verifier::external_type_specification]
#[verifier::external_body]
pub struct ExKeePassGroupMut<'a>(keepass::db::GroupMut<'a>);


/// What `keepass::Database::parse` reads from a database file's bytes with a key made of the
/// password and the key file's bytes, as values (see `KdbxView`); `None` when the key file
/// cannot be read or the file does not open. It is a function of these alone for every file
/// but a KeePass 1 one (`is_kdb_file`), whose reader makes up random UUIDs.
pub uninterp spec fn kdbx_contents_of(bytes: Seq<u8>, password: Option<Seq<char>>, key_file: Option<Seq<u8>>) -> Option<KdbxView>;

/// `DatabaseKey::new().with_password(..).with_keyfile(..)` and `Database::parse(bytes, key)`,
/// converted (`convert_kdbx`), after which the parsed structures are wiped (`zero_kdbx`).
/// Claimed, for every file but a KeePass 1 one: the named contents, `None` exactly when the
/// named result is `None`. Nothing is claimed of a KeePass 1 file: its reader draws fresh
/// random UUIDs (`GroupId::new`, `EntryId::new`). The file's fields, custom data and
/// attachments are hash maps, so only what they map is named, not their order.
#[verifier::external_body]
pub(crate) fn open_kdbx(bytes: &[u8], password: Option<&str>, key_file: Option<&[u8]>) -> (r: Option<KdbxContents>)
    ensures
        !is_kdb_file(bytes@) ==> (r is None <==> kdbx_contents_of(bytes@, opt_chars(password), opt_bytes(key_file))
            is None),
        !is_kdb_file(bytes@) ==> (r matches Some(c) ==> kdbx_contents_of(bytes@, opt_chars(password), opt_bytes(key_file))
            == Some(kdbx_view(c))),
{
    let key = match password {
        Some(pw) => keepass::DatabaseKey::new().with_password(pw),
        None => keepass::DatabaseKey::new(),
    };
    let key = match key_file {
        Some(k) => key.with_keyfile(&mut std::io::Cursor::new(k)).ok()?,
        None => key,
    };
    let mut db = keepass::Database::parse(bytes, key).ok()?;
    let contents = convert_kdbx(&db);
    zero_kdbx(&mut db);
    Some(contents)
}

/// The conversion `open_kdbx` applies to a parsed database: its root group, its public
/// custom data with each value printed (`Debug`), its recycle bin, and its custom data.
/// Nothing is claimed of it apart from `open_kdbx`.
#[verifier::external_body]
fn convert_kdbx(db: &keepass::Database) -> KdbxContents {
    KdbxContents {
        root: convert_kdbx_group(db.root()),
        public_custom_data: match db.config.public_custom_data.as_ref() {
            Some(data) => data.iter().map(|(k, v)| (k.clone(), format!("{:?}", v))).collect(),
            None => Vec::new(),
        },
        recycle_bin: db.meta.recyclebin_uuid.map(|u| u.as_u128()),
        custom_data: db.meta.custom_data.iter().map(|(key, item)| KeePassCustomItem {
            key: key.clone(),
            value: item.value.as_ref().map(convert_kdbx_custom_value),
        }).collect(),
    }
}

/// The custom data of an entry, each value converted by `convert_kdbx_custom_value`, for
/// `convert_kdbx_entry`. Nothing is claimed of it apart from `open_kdbx`.
#[verifier::external_body]
fn convert_kdbx_entry_custom_data(entry: &keepass::db::EntryRef<'_>) -> Vec<KeePassCustomItem> {
    entry.custom_data.iter().map(|(key, item)| KeePassCustomItem {
        key: key.clone(),
        value: item.value.as_ref().map(convert_kdbx_custom_value),
    }).collect()
}

/// The conversion of a custom data value: a string as text, binary data as bytes. Nothing is
/// claimed of it apart from `open_kdbx`.
#[verifier::external_body]
fn convert_kdbx_custom_value(value: &keepass::db::CustomDataValue) -> KeePassValue {
    match value {
        keepass::db::CustomDataValue::String(s) => KeePassValue::Unprotected(s.clone()),
        keepass::db::CustomDataValue::Binary(b) => KeePassValue::Bytes(b.clone()),
    }
}

/// The conversion of a group and everything below it, for `convert_kdbx`. Nothing is claimed
/// of it apart from `open_kdbx`.
#[verifier::external_body]
fn convert_kdbx_group(group: keepass::db::GroupRef<'_>) -> KdbxGroup {
    KdbxGroup {
        uuid: group.id().uuid().as_u128(),
        name: group.name.clone(),
        icon_id: match group.icon() {
            Some(keepass::db::Icon::BuiltIn(id)) => Some(*id),
            _ => None,
        },
        has_custom_icon: matches!(group.icon(), Some(keepass::db::Icon::Custom(_))),
        groups: group.groups().map(convert_kdbx_group).collect(),
        entries: group.entries().map(convert_kdbx_entry).collect(),
    }
}

/// The conversion of an entry, for `convert_kdbx_group`: whether it is marked to expire, and
/// its expiry time in seconds since the Unix epoch. Nothing is claimed of it apart from
/// `open_kdbx`.
#[verifier::external_body]
fn convert_kdbx_entry(entry: keepass::db::EntryRef<'_>) -> KdbxEntry {
    KdbxEntry {
        uuid: entry.id().uuid().as_u128(),
        fields: convert_kdbx_fields(&entry),
        custom_data: convert_kdbx_entry_custom_data(&entry),
        tags: entry.tags.clone(),
        icon_id: convert_kdbx_entry_icon(&entry),
        custom_icon: entry.custom_icon().map(|icon| icon.data.clone()),
        expires: entry.times.expires == Some(true),
        expiry_time: entry.times.expiry.and_utc().timestamp(),
        attachments: convert_kdbx_attachments(&entry),
    }
}

/// The number of an entry's built-in icon, `None` for a custom icon or none, for
/// `convert_kdbx_entry`. Nothing is claimed of it apart from `open_kdbx`.
#[verifier::external_body]
fn convert_kdbx_entry_icon(entry: &keepass::db::EntryRef<'_>) -> Option<usize> {
    match entry.icon() {
        Some(keepass::db::Icon::BuiltIn(id)) => Some(*id),
        _ => None,
    }
}

/// The fields of an entry, each value as the file holds it, for `convert_kdbx_entry`.
/// Nothing is claimed of it apart from `open_kdbx`.
#[verifier::external_body]
fn convert_kdbx_fields(entry: &keepass::db::EntryRef<'_>) -> Vec<KeePassField> {
    entry.fields.iter().map(|(name, value)| KeePassField {
        name: name.clone(),
        value: match value {
            keepass::db::Value::Unprotected(s) => KeePassValue::Unprotected(s.clone()),
            keepass::db::Value::Protected(_) => KeePassValue::Protected(value.get().as_bytes().to_vec()),
        },
    }).collect()
}

/// The attachments of an entry by name, for `convert_kdbx_entry`. Nothing is claimed of it
/// apart from `open_kdbx`.
#[verifier::external_body]
fn convert_kdbx_attachments(entry: &keepass::db::EntryRef<'_>) -> Vec<KeePassAttachment> {
    entry.attachments_named().map(|(name, a)| KeePassAttachment {
        name: name.to_string(),
        data: a.data.get().clone(),
    }).collect()
}

/// `Zeroize::zeroize` on every field value of the parsed database's entries and on every
/// group's custom data values and name, for `open_kdbx` once converted. Nothing is claimed
/// of it.
#[verifier::external_body]
fn zero_kdbx(db: &mut keepass::Database) {
    db.foreach_entry_mut(|mut entry| {
        for (_, value) in entry.fields.iter_mut() {
            match value {
                keepass::db::Value::Protected(secret) => zeroize::Zeroize::zeroize(secret),
                keepass::db::Value::Unprotected(text) => zeroize::Zeroize::zeroize(text),
            }
        }
    });
    db.foreach_group_mut(|mut group| zero_kdbx_group(&mut group));
}

/// `Zeroize::zeroize` on a group's custom data values and its name, for `zero_kdbx`.
/// Nothing is claimed of it.
#[verifier::external_body]
fn zero_kdbx_group(group: &mut keepass::db::GroupMut<'_>) {
    for (_, item) in group.custom_data.iter_mut() {
        match &mut item.value {
            Some(keepass::db::CustomDataValue::Binary(bytes)) => zeroize::Zeroize::zeroize(bytes),
            Some(keepass::db::CustomDataValue::String(text)) => zeroize::Zeroize::zeroize(text),
            None => {},
        }
    }
    zeroize::Zeroize::zeroize(&mut group.name);
}

} // verus!
