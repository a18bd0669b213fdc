//! Calls into the outside crates whose results the logic uses. Every item
//! here is trusted: its contract states what the crate's source shows, and
//! nothing checks it against the code.
use vstd::prelude::*;

verus! {

/// A hex digit, lower case, of a value below 16.
pub open spec fn lower_hex_digit(d: int) -> char {
    if d < 10 {
        (48 + d) as char
    } else {
        (87 + d) as char
    }
}

/// How `serde_json` writes one character inside a string: `"` and `\` after
/// a backslash; backspace, tab, line feed, form feed and carriage return as
/// `\b`, `\t`, `\n`, `\f`, `\r`; any other character below U+0020 as `\u00`
/// and two lower-case hex digits; every other character as itself.
pub open spec fn json_escape(c: char) -> Seq<char> {
    let code = c as int;
    if c == '"' {
        seq!['\\', '"']
    } else if c == '\\' {
        seq!['\\', '\\']
    } else if code == 8 {
        seq!['\\', 'b']
    } else if code == 9 {
        seq!['\\', 't']
    } else if code == 10 {
        seq!['\\', 'n']
    } else if code == 12 {
        seq!['\\', 'f']
    } else if code == 13 {
        seq!['\\', 'r']
    } else if code < 32 {
        seq!['\\', 'u', '0', '0', lower_hex_digit(code / 16), lower_hex_digit(code % 16)]
    } else {
        seq![c]
    }
}

/// The characters of `s`, each written as `json_escape` says.
pub open spec fn json_escaped(s: Seq<char>) -> Seq<char>
    decreases s.len(),
{
    if s.len() == 0 {
        Seq::empty()
    } else {
        json_escaped(s.drop_last()) + json_escape(s.last())
    }
}

/// The compact text that `serde_json` writes for a JSON string holding `s`:
/// the escaped characters between two `"`.
pub open spec fn json_string_text(s: Seq<char>) -> Seq<char> {
    seq!['"'] + json_escaped(s) + seq!['"']
}

/// The text of a JSON string starts and ends with `"`.
pub proof fn lemma_json_string_text_quoted(s: Seq<char>)
    ensures
        json_string_text(s).len() >= 2,
        json_string_text(s)[0] == '"',
        json_string_text(s)[json_string_text(s).len() - 1] == '"',
{
}

/// `serde_json::Value::String(s).to_string()`: serde_json's compact writer
/// (`format_escaped_str` with its `ESCAPE` table) puts the string between two
/// `"` and escapes its characters as `json_escape` says.
#[verifier::external_body]
pub(crate) fn json_text_of_string(s: &String) -> (r: String)
    ensures
        r@ == json_string_text(s@),
{
    serde_json::Value::String(s.clone()).to_string()
}

/// The text of capture group 1 of the first match of the regular expression
/// `pattern` in `text`; `None` where the pattern does not compile, does not
/// match, or the group takes no part in the match.
pub uninterp spec fn regex_first_group(pattern: Seq<char>, text: Seq<char>) -> Option<Seq<char>>;

/// `regex::Regex::new(pattern)`, then `captures(text)` and group 1 of it.
#[verifier::external_body]
pub(crate) fn regex_capture(pattern: &str, text: &str) -> (r: Option<String>)
    ensures
        match r {
            Some(g) => regex_first_group(pattern@, text@) == Some(g@),
            None => regex_first_group(pattern@, text@) is None,
        },
{
    let re = match regex::Regex::new(pattern) {
        Ok(re) => re,
        Err(_) => return None,
    };
    match re.captures(text) {
        Some(caps) => match caps.get(1) {
            Some(m) => Some(m.as_str().to_string()),
            None => None,
        },
        None => None,
    }
}

/// The `json` crate's rendering of field `key` of the JSON text `reply`
/// (`Display` of `json::parse(reply)[key]`: a string field as its bare text,
/// a missing field as `null`); `None` where `reply` is not JSON.
pub uninterp spec fn json_reply_field_text(reply: Seq<char>, key: Seq<char>) -> Option<Seq<char>>;

/// `json::parse(reply)` and then `v[key].to_string()`, the rendering of one
/// field of a JSON reply; `None` where the `json` crate refuses the text.
#[verifier::external_body]
pub(crate) fn json_reply_field(reply: &str, key: &str) -> (r: Option<String>)
    ensures
        match r {
            Some(t) => json_reply_field_text(reply@, key@) == Some(t@),
            None => json_reply_field_text(reply@, key@) is None,
        },
{
    match json::parse(reply) {
        Ok(v) => Some(v[key].to_string()),
        Err(_) => None,
    }
}

/// Field `key` of the JSON text `reply` as the `json` crate's `as_i64` reads
/// it; `None` where `reply` is not JSON or the field is not such a number.
pub uninterp spec fn json_reply_field_i64(reply: Seq<char>, key: Seq<char>) -> Option<i64>;

/// `json::parse(reply)` and then `v[key].as_i64()`.
#[verifier::external_body]
pub(crate) fn json_reply_number(reply: &str, key: &str) -> (r: Option<i64>)
    ensures
        r == json_reply_field_i64(reply@, key@),
{
    match json::parse(reply) {
        Ok(v) => v[key].as_i64(),
        Err(_) => None,
    }
}

/// `rand::thread_rng().gen_range(low..high)`: a value of the half-open range,
/// drawn at random. rand panics on an empty range, which `requires` rules out.
#[verifier::external_body]
pub(crate) fn random_in_range(low: i64, high: i64) -> (r: i64)
    requires
        low < high,
    ensures
        low <= r < high,
{
    rand::Rng::gen_range(&mut rand::thread_rng(), low..high)
}

/// `chrono::Local::now().timestamp()`: the current Unix time in seconds.
/// It depends on the clock, so nothing is stated of it.
#[verifier::external_body]
pub(crate) fn now_timestamp() -> (r: i64) {
    chrono::Local::now().timestamp()
}

} // verus!
