//! Small helpers: the MD5 digest, node ids, and coloured console lines.
use vstd::prelude::*;
use vstd::string::*;
use crate::outside::{regex_capture, regex_first_group};

verus! {

/// The 32 lower-case hex digits of the MD5 digest of the UTF-8 bytes of `s`.
pub uninterp spec fn md5_hex(s: Seq<char>) -> Seq<char>;

pub open spec fn is_lower_hex(c: char) -> bool {
    ('0' <= c && c <= '9') || ('a' <= c && c <= 'f')
}

/// MD5 digest of `s` in hex. Trusted: rust-crypto's `Md5::input_str` followed by `Digest::result_str`: the
/// 128-bit digest written as 32 characters from `0123456789abcdef`. The digest
/// itself is not stated.
#[verifier::external_body]
pub fn md5(s: &str) -> (r: String)
    ensures
        r@ == md5_hex(s@),
        r@.len() == 32,
        forall|i: int| 0 <= i < 32 ==> is_lower_hex(#[trigger] r@[i]),
{
    let mut hasher = crypto::md5::Md5::new();
    crypto::digest::Digest::input_str(&mut hasher, s);
    crypto::digest::Digest::result_str(&mut hasher)
}

/// The line of `ipconfig /all` that carries the machine's DUID, as a regular
/// expression whose group 1 is the DUID.
pub open spec fn duid_pattern() -> Seq<char> {
    "DUID  . . . . . . . : (.*?)\\r\\n"@
}

/// A Windows node's id: the MD5 digest of its DUID, read from the output of
/// `ipconfig /all`, followed by the port; `None` when the output has no DUID.
pub fn id_from_ipconfig(output: &str, port: &String) -> (r: Option<String>)
    ensures
        match regex_first_group(duid_pattern(), output@) {
            Some(uid) => r matches Some(id) && id@ == md5_hex(uid + port@),
            None => r is None,
        },
{
    match regex_capture("DUID  . . . . . . . : (.*?)\\r\\n", output) {
        Some(uid) => {
            let mut text = uid;
            text.append(port.as_str());
            Some(md5(text.as_str()))
        },
        None => None,
    }
}

/// A Linux node's id: the MD5 digest of the output that reports the
/// machine's serial number.
pub fn id_from_serial(output: &str) -> (r: String)
    ensures
        r@ == md5_hex(output@),
{
    md5(output)
}

/// Settings given on the command line.
pub struct Config {
    pub port: String,
}

/// The escape sequence that turns a console line bold red.
pub open spec fn red_start() -> Seq<char> {
    "\u{001B}[31;1m"@
}

/// The escape sequence that turns a console line bold green.
pub open spec fn green_start() -> Seq<char> {
    "\u{001B}[32;1m"@
}

/// The escape sequence that resets the console's colours.
pub open spec fn color_end() -> Seq<char> {
    "\u{001B}[0m"@
}

/// Coloured console lines.
pub struct ColorPrint {}

impl ColorPrint {
    /// The line that shows `content` in bold red.
    pub fn redln(content: String) -> (r: String)
        ensures
            r@ == red_start() + content@ + color_end(),
    {
        let mut line = String::from_str("\u{001B}[31;1m");
        line.append(content.as_str());
        line.append("\u{001B}[0m");
        line
    }

    /// The line that shows `content` in bold green.
    pub fn greenln(content: String) -> (r: String)
        ensures
            r@ == green_start() + content@ + color_end(),
    {
        let mut line = String::from_str("\u{001B}[32;1m");
        line.append(content.as_str());
        line.append("\u{001B}[0m");
        line
    }
}

} // verus!
