//! The functions of other crates, and of the standard library, that the
//! library relies on. Their contracts are taken on trust.
use vstd::prelude::*;

use crate::ids;
use crate::lines;
use crate::patterns;
use crate::text;
use crate::time;

verus! {

// ---------------------------------------------------------------------------
// regex
// ---------------------------------------------------------------------------

/// Whether the class `\w` of `regex` holds a character outside ASCII.
pub uninterp spec fn word_char(c: char) -> bool;

/// `regex::Regex::captures_iter`: the matches of one of the library's expressions
/// in `text`, from left to right and without overlaps, and what their groups
/// hold. What an expression matches at a position is said with the expression;
/// only which characters outside ASCII `\w` matches, and with it the name of a
/// variable is made of, is left to a name.
#[verifier::external_body]
pub(crate) fn regex_captures(pattern: &str, text: &str) -> (r: Vec<Vec<Option<String>>>)
    requires
        patterns::known(pattern@),
    ensures
        forall|p: patterns::Pattern| #[trigger]
            p.source() == pattern@ ==> patterns::groups_of(r@) == p.matches(text@, 0),
        pattern@ == patterns::VARIABLE@ ==> forall|k: int, i: int|
            0 <= k < r@.len() && 0 <= i < patterns::group_texts(patterns::groups_of(r@), 1)[k].len()
                ==> {
                let c = #[trigger] patterns::group_texts(patterns::groups_of(r@), 1)[k][i];
                (c as u32) < 128 || word_char(c)
            },
{
    let re = regex::Regex::new(pattern).unwrap();
    re.captures_iter(text)
        .map(|c| c.iter().map(|g| g.map(|m| m.as_str().to_string())).collect())
        .collect()
}

/// `regex::Regex::split`: what stands before, between and behind the matches of
/// one of the library's expressions in `text`.
#[verifier::external_body]
pub(crate) fn regex_split(pattern: &str, text: &str) -> (r: Vec<String>)
    requires
        patterns::known(pattern@),
    ensures
        forall|p: patterns::Pattern| #[trigger]
            p.source() == pattern@ ==> text::texts(r@) == p.gaps(text@, 0, 0),
{
    let re = regex::Regex::new(pattern).unwrap();
    re.split(text).map(|s| s.to_string()).collect()
}

// ---------------------------------------------------------------------------
// uuid
// ---------------------------------------------------------------------------

/// What `uuid::Uuid::parse_str` reads in a text, or what its error says.
pub uninterp spec fn uuid_read(text: Seq<char>) -> Result<u128, Seq<char>>;

/// The identifier that `uuid::Uuid::parse_str` reads in a text.
pub open spec fn uuid_parsed(text: Seq<char>) -> Option<u128> {
    match uuid_read(text) {
        Ok(bits) => Some(bits),
        Err(_) => None,
    }
}

/// `uuid::Uuid::parse_str`: the identifier that a text writes, or why it writes
/// none.
#[verifier::external_body]
pub(crate) fn uuid_parse_str(s: &str) -> (r: Result<u128, String>)
    ensures
        match r {
            Ok(bits) => uuid_read(s@) == Ok::<u128, Seq<char>>(bits),
            Err(e) => uuid_read(s@) == Err::<u128, Seq<char>>(e@),
        },
{
    uuid::Uuid::parse_str(s).map(|u| u.as_u128()).map_err(|e| e.to_string())
}

/// `uuid::Uuid` as text: the lower-case hyphenated form, which `parse_str`
/// reads back.
#[verifier::external_body]
pub(crate) fn uuid_to_string(bits: u128) -> (r: String)
    ensures
        r@ == ids::hyphenated(bits as nat),
        uuid_parsed(r@) == Some(bits),
{
    uuid::Uuid::from_u128(bits).to_string()
}

/// `uuid::Uuid::new_v4`: a random identifier, of which only the version and the
/// variant are known.
#[verifier::external_body]
pub(crate) fn uuid_new_v4() -> (r: u128)
    ensures
        ids::is_v4(r as nat),
{
    uuid::Uuid::new_v4().as_u128()
}

// ---------------------------------------------------------------------------
// chrono
// ---------------------------------------------------------------------------

/// What `chrono::DateTime::<Utc>::to_rfc3339` writes for a point in time.
pub uninterp spec fn rfc3339(secs: int, nanos: int) -> Seq<char>;

/// What `chrono::DateTime::parse_from_rfc3339` reads in a text: seconds and
/// nanoseconds in UTC.
pub uninterp spec fn rfc3339_parsed(text: Seq<char>) -> Option<(i64, u32)>;

/// What `chrono::DateTime::<Utc>::format` writes for a point in time and a
/// format.
pub uninterp spec fn formatted_time(secs: int, nanos: int, format: Seq<char>) -> Seq<char>;

/// `chrono::DateTime::<Utc>::to_rfc3339`. In the years 0 to 9999 what it writes
/// is read back by `parse_from_rfc3339`.
#[verifier::external_body]
pub(crate) fn chrono_to_rfc3339(secs: i64, nanos: u32) -> (r: String)
    requires
        time::valid_time(secs as int, nanos as int),
    ensures
        r@ == rfc3339(secs as int, nanos as int),
        time::in_rfc3339_range(secs as int) ==> rfc3339_parsed(r@) == Some((secs, nanos)),
{
    chrono::DateTime::<chrono::Utc>::from_timestamp(secs, nanos).unwrap().to_rfc3339()
}

/// `chrono::DateTime::parse_from_rfc3339`, converted to UTC: the point in time
/// that a text writes, if it does.
#[verifier::external_body]
pub(crate) fn chrono_parse_rfc3339(s: &str) -> (r: Option<(i64, u32)>)
    ensures
        r == rfc3339_parsed(s@),
        r is Some ==> time::valid_time(r.unwrap().0 as int, r.unwrap().1 as int),
{
    chrono::DateTime::parse_from_rfc3339(s)
        .ok()
        .map(|t| (t.timestamp(), t.timestamp_subsec_nanos()))
}

/// `chrono::DateTime::<Utc>::format` with one of the two formats in use.
#[verifier::external_body]
pub(crate) fn chrono_format(secs: i64, nanos: u32, format: &str) -> (r: String)
    requires
        time::valid_time(secs as int, nanos as int),
        format@ == "%Y-%m-%d %H:%M:%S"@ || format@ == "%H%M%S"@,
    ensures
        r@ == formatted_time(secs as int, nanos as int, format@),
{
    chrono::DateTime::<chrono::Utc>::from_timestamp(secs, nanos).unwrap().format(format).to_string()
}

/// The difference of two `chrono::DateTime::<Utc>` and its `num_seconds`.
#[verifier::external_body]
pub(crate) fn chrono_seconds_between(s1: i64, n1: u32, s2: i64, n2: u32) -> (r: i64)
    requires
        time::valid_time(s1 as int, n1 as int),
        time::valid_time(s2 as int, n2 as int),
    ensures
        r == time::whole_seconds(s1 as int, n1 as int, s2 as int, n2 as int),
{
    let a = chrono::DateTime::<chrono::Utc>::from_timestamp(s1, n1).unwrap();
    let b = chrono::DateTime::<chrono::Utc>::from_timestamp(s2, n2).unwrap();
    (b - a).num_seconds()
}

/// `chrono::Utc::now`: the machine's clock.
#[verifier::external_body]
pub(crate) fn chrono_now() -> (r: (i64, u32))
    ensures
        time::valid_time(r.0 as int, r.1 as int),
{
    let t = chrono::Utc::now();
    (t.timestamp(), t.timestamp_subsec_nanos())
}

// ---------------------------------------------------------------------------
// Letter case and normal forms
// ---------------------------------------------------------------------------

/// What `str::to_lowercase` makes of a text.
pub uninterp spec fn lowercase(s: Seq<char>) -> Seq<char>;

/// What `str::to_uppercase` makes of a text.
pub uninterp spec fn uppercase(s: Seq<char>) -> Seq<char>;

/// The compatibility decomposition that `unicode_normalization` makes of a text.
pub uninterp spec fn nfkd(s: Seq<char>) -> Seq<char>;

/// `str::to_lowercase`, by the Unicode tables of the standard library. Of ASCII
/// text the capital letters become small ones and the rest is kept. What a letter
/// becomes depends on the word that it stands in at most, and a space ends a word:
/// the text before a space and the text behind it are made small on their own.
#[verifier::external_body]
pub(crate) fn to_lowercase(s: &str) -> (r: String)
    ensures
        r@ == lowercase(s@),
        lines::ascii(s@) ==> r@ == lines::lowered(s@),
        forall|a: Seq<char>, b: Seq<char>|
            s@ == #[trigger] (a + seq![' '] + b) ==> r@ == lowercase(a) + seq![' '] + lowercase(b),
{
    s.to_lowercase()
}

/// `str::to_uppercase`, by the Unicode tables of the standard library.
#[verifier::external_body]
pub(crate) fn to_uppercase(s: &str) -> (r: String)
    ensures
        r@ == uppercase(s@),
{
    s.to_uppercase()
}

/// `unicode_normalization::UnicodeNormalization::nfkd`. ASCII text is kept. A space
/// decomposes to itself and combines with nothing: the text before it and the text
/// behind it are decomposed on their own.
#[verifier::external_body]
pub(crate) fn to_nfkd(s: &str) -> (r: String)
    ensures
        r@ == nfkd(s@),
        lines::ascii(s@) ==> r@ == s@,
        forall|a: Seq<char>, b: Seq<char>|
            s@ == #[trigger] (a + seq![' '] + b) ==> r@ == nfkd(a) + seq![' '] + nfkd(b),
{
    unicode_normalization::UnicodeNormalization::nfkd(s).collect()
}

/// `std::str::from_utf8`: the text that bytes encode, where they do encode one.
#[verifier::external_body]
pub(crate) fn from_utf8(v: &[u8]) -> (r: Option<String>)
    ensures
        match r {
            Some(s) => vstd::utf8::valid_utf8(v@) && s@ == vstd::utf8::decode_utf8(v@),
            None => !vstd::utf8::valid_utf8(v@),
        },
{
    std::str::from_utf8(v).ok().map(|s| s.to_string())
}

// ---------------------------------------------------------------------------
// html_escape
// ---------------------------------------------------------------------------

/// The text by which `html_escape::encode_safe` replaces a character.
pub open spec fn html_entity(c: char) -> Seq<char> {
    if c == '&' {
        "&amp;"@
    } else if c == '<' {
        "&lt;"@
    } else if c == '>' {
        "&gt;"@
    } else if c == '"' {
        "&quot;"@
    } else if c == '\'' {
        "&#x27;"@
    } else if c == '/' {
        "&#x2F;"@
    } else {
        seq![c]
    }
}

/// `s` with the characters that matter to HTML written as entities.
pub open spec fn html_safe(s: Seq<char>) -> Seq<char>
    decreases s.len(),
{
    if s.len() == 0 {
        Seq::empty()
    } else {
        html_safe(s.drop_last()) + html_entity(s.last())
    }
}

/// `html_escape::encode_safe`: each of `&`, `<`, `>`, the two quotes and the
/// slash is replaced by its entity, everything else is kept.
#[verifier::external_body]
pub(crate) fn encode_safe(s: &str) -> (r: String)
    ensures
        r@ == html_safe(s@),
{
    html_escape::encode_safe(s).into_owned()
}

// ---------------------------------------------------------------------------
// serde_json on plain values
// ---------------------------------------------------------------------------

/// What `serde_json::from_str::<Vec<String>>` reads in a text.
pub uninterp spec fn json_list_parsed(text: Seq<char>) -> Option<Seq<Seq<char>>>;

/// What `serde_json::to_string` writes for a list of strings.
pub uninterp spec fn json_list(items: Seq<Seq<char>>) -> Seq<char>;

/// What `serde_json::from_str::<String>` reads in a text.
pub uninterp spec fn json_string_parsed(text: Seq<char>) -> Option<Seq<char>>;

/// What `serde_json::to_string` writes for a string.
pub uninterp spec fn json_string(s: Seq<char>) -> Seq<char>;

/// Whether `serde_json::from_str::<serde_json::Value>` reads a text.
pub uninterp spec fn json_valid(text: Seq<char>) -> bool;

/// `serde_json::from_str::<Vec<String>>`: the strings that a JSON array holds.
#[verifier::external_body]
pub(crate) fn json_parse_list(s: &str) -> (r: Option<Vec<String>>)
    ensures
        match r {
            Some(v) => json_list_parsed(s@) == Some(text::texts(v@)),
            None => json_list_parsed(s@) is None,
        },
{
    serde_json::from_str::<Vec<String>>(s).ok()
}

/// `serde_json::to_string` of a list of strings, which `from_str` reads back.
#[verifier::external_body]
pub(crate) fn json_write_list(v: &Vec<String>) -> (r: String)
    ensures
        r@ == json_list(text::texts(v@)),
        json_list_parsed(r@) == Some(text::texts(v@)),
{
    serde_json::to_string(v).unwrap()
}

/// The character stands for itself in a JSON string.
pub open spec fn json_plain(c: char) -> bool {
    c >= ' ' && c != '"' && c != '\\'
}

/// `serde_json::from_str::<String>`: the string that a JSON text writes. Between
/// two quotes, characters that need no escape write themselves.
#[verifier::external_body]
pub(crate) fn json_parse_string(s: &str) -> (r: Option<String>)
    ensures
        text::opt_text(r) == json_string_parsed(s@),
        s@.len() >= 2 && s@[0] == '"' && s@.last() == '"' && (forall|i: int|
            0 < i < s@.len() - 1 ==> json_plain(#[trigger] s@[i])) ==> text::opt_text(r) == Some(
            s@.subrange(1, s@.len() - 1),
        ),
{
    serde_json::from_str::<String>(s).ok()
}

/// `serde_json::to_string` of a string, which `from_str` reads back.
#[verifier::external_body]
pub(crate) fn json_write_string(s: &str) -> (r: String)
    ensures
        r@ == json_string(s@),
        json_string_parsed(r@) == Some(s@),
{
    serde_json::to_string(s).unwrap()
}

/// `serde_json::from_str::<serde_json::Value>`: whether a text is JSON.
#[verifier::external_body]
pub(crate) fn json_is_valid(s: &str) -> (r: bool)
    ensures
        r == json_valid(s@),
{
    serde_json::from_str::<serde_json::Value>(s).is_ok()
}

// ---------------------------------------------------------------------------
// rand
// ---------------------------------------------------------------------------

/// `rand::seq::SliceRandom::choose` with the thread's generator: any of the
/// items, and none only where there is none.
#[verifier::external_body]
pub(crate) fn choose_one<T>(items: &Vec<T>) -> (r: Option<&T>)
    ensures
        match r {
            Some(x) => items@.contains(*x),
            None => items@.len() == 0,
        },
{
    rand::seq::SliceRandom::choose(items.as_slice(), &mut rand::thread_rng())
}

// ---------------------------------------------------------------------------
// std::time
// ---------------------------------------------------------------------------

/// A reading of the machine's monotonic clock.
#[verifier::external_type_specification]
#[verifier::external_body]
pub struct ExInstant(std::time::Instant);

/// `std::time::Instant::now`: the clock decides.
#[verifier::external_body]
pub(crate) fn instant_now() -> std::time::Instant {
    std::time::Instant::now()
}

/// `std::time::Instant::elapsed`, in microseconds: the clock decides.
#[verifier::external_body]
pub(crate) fn elapsed_micros(start: &std::time::Instant) -> u128 {
    start.elapsed().as_micros()
}

} // verus!
