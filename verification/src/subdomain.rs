//! The rules a tunnel's subdomain must follow.

use vstd::prelude::*;
use vstd::string::*;
use vstd::utf8::*;

verus! {

broadcast use vstd::string::group_string_axioms;

#[verifier::external_type_specification]
#[verifier::external_body]
pub struct ExRegex(regex::Regex);

#[verifier::external_type_specification]
#[verifier::external_body]
pub struct ExRegexError(regex::Error);

/// Whether `regex::Regex::new` accepts `pattern`.
pub uninterp spec fn regex_compiles(pattern: Seq<char>) -> bool;

/// Whether the regex compiled from `pattern` matches somewhere in `text`.
pub uninterp spec fn regex_is_match(pattern: Seq<char>, text: Seq<char>) -> bool;

/// The pattern a subdomain must match: a lowercase letter or digit, then up to 38
/// more, each of which may be preceded by a single hyphen.
pub const SUBDOMAIN_PATTERN: &'static str = "^[a-z\\d](?:[a-z\\d]|-[a-z\\d]){0,38}$";

/// Subdomains that no tunnel may take.
pub open spec fn is_blocked(s: Seq<char>) -> bool {
    s == "www"@ || s == "uniqx"@
}

/// Whether `c` is a lowercase ASCII letter or an ASCII digit.
pub open spec fn is_label_char(c: char) -> bool {
    ('a' <= c && c <= 'z') || ('0' <= c && c <= '9')
}

/// How many characters of `s` are lowercase ASCII letters or ASCII digits.
pub open spec fn count_label_chars(s: Seq<char>) -> nat
    decreases s.len(),
{
    if s.len() == 0 {
        0
    } else {
        count_label_chars(s.drop_last()) + if is_label_char(s.last()) {
            1nat
        } else {
            0nat
        }
    }
}

/// The ASCII strings that [`SUBDOMAIN_PATTERN`] matches: a letter or digit first, then
/// letters, digits and hyphens, each hyphen followed by a letter or digit, with at most
/// 38 letters and digits after the first character.
pub open spec fn subdomain_shape(t: Seq<char>) -> bool {
    &&& t.len() >= 1
    &&& is_label_char(t[0])
    &&& forall|i: int| 0 <= i < t.len() ==> is_label_char(#[trigger] t[i]) || t[i] == '-'
    &&& forall|i: int|
        0 <= i < t.len() && #[trigger] t[i] == '-' ==> i + 1 < t.len() && is_label_char(t[i + 1])
    &&& count_label_chars(t.drop_first()) <= 38
}

/// Message for a subdomain whose length in bytes is out of range.
pub open spec fn length_message() -> Seq<char> {
    "subdomain length must be between 3 and 42"@
}

/// Message for a subdomain on the block list.
pub open spec fn blocked_message() -> Seq<char> {
    "subdomain is in deny list"@
}

/// Message for a subdomain that does not match [`SUBDOMAIN_PATTERN`].
pub open spec fn shape_message() -> Seq<char> {
    "subdomain must be lowercase & alphanumeric"@
}

/// Why `s` is refused as a subdomain, checked in this order: its length in UTF-8
/// bytes must lie between 3 and 38, it must not be blocked, and it must match
/// [`SUBDOMAIN_PATTERN`]. `None` when it is accepted.
pub open spec fn subdomain_error(s: Seq<char>) -> Option<Seq<char>> {
    if encode_utf8(s).len() > 38 || encode_utf8(s).len() < 3 {
        Some(length_message())
    } else if is_blocked(s) {
        Some(blocked_message())
    } else if !regex_is_match(SUBDOMAIN_PATTERN@, s) {
        Some(shape_message())
    } else {
        None
    }
}

/// A compiled regular expression, together with the pattern it was compiled from.
pub struct Pattern {
    source: String,
    compiled: regex::Regex,
}

impl Pattern {
    /// The pattern this regular expression was compiled from.
    pub closed spec fn source(&self) -> Seq<char> {
        self.source@
    }
}

/// Compiles `pattern` with `regex::Regex::new`. It succeeds exactly when the crate
/// accepts the pattern, which it does for [`SUBDOMAIN_PATTERN`] (standard regex
/// syntax); the result remembers the pattern it came from.
#[verifier::external_body]
fn compile_pattern(pattern: &str) -> (r: Result<Pattern, regex::Error>)
    ensures
        r is Ok <==> regex_compiles(pattern@),
        r matches Ok(p) ==> p.source() == pattern@,
        pattern@ == SUBDOMAIN_PATTERN@ ==> r is Ok,
{
    match regex::Regex::new(pattern) {
        Ok(compiled) => Ok(Pattern { source: pattern.to_owned(), compiled }),
        Err(e) => Err(e),
    }
}

/// Runs `regex::Regex::is_match` of the compiled `pattern` on `text`. By the regex
/// syntax, on ASCII text [`SUBDOMAIN_PATTERN`] (anchored at both ends, `\d` meaning a
/// decimal digit) matches exactly the strings of [`subdomain_shape`]; on other text
/// the result is left to the name [`regex_is_match`].
#[verifier::external_body]
fn pattern_is_match(pattern: &Pattern, text: &str) -> (r: bool)
    ensures
        r == regex_is_match(pattern.source(), text@),
        pattern.source() == SUBDOMAIN_PATTERN@ && is_ascii_chars(text@) ==> (r
            == subdomain_shape(text@)),
{
    pattern.compiled.is_match(text)
}

/// Whether `a` and `b` hold the same characters.
pub(crate) fn same_text(a: &str, b: &str) -> (r: bool)
    ensures
        r == (a@ == b@),
{
    a.to_owned() == b.to_owned()
}

/// Checks that `subdomain` may name a tunnel, and says why not when it may not.
pub fn validate_subdomain(subdomain: &str) -> (r: Result<(), String>)
    ensures
        match r {
            Ok(()) => subdomain_error(subdomain@) is None,
            Err(m) => subdomain_error(subdomain@) == Some(m@),
        },
        is_ascii_chars(subdomain@) ==> (r is Ok <==> (3 <= subdomain@.len() <= 38 && !is_blocked(
            subdomain@,
        ) && subdomain_shape(subdomain@))),
{
    proof {
        if is_ascii_chars(subdomain@) {
            is_ascii_chars_encode_utf8(subdomain@);
        }
    }
    let pattern = match compile_pattern(SUBDOMAIN_PATTERN) {
        Ok(p) => p,
        Err(_) => {
            assert(false);
            return Ok(());
        },
    };
    let byte_len = subdomain.as_bytes().len();
    if byte_len > 38 || byte_len < 3 {
        return Err(String::from_str("subdomain length must be between 3 and 42"));
    }
    if same_text(subdomain, "www") || same_text(subdomain, "uniqx") {
        return Err(String::from_str("subdomain is in deny list"));
    }
    if !pattern_is_match(&pattern, subdomain) {
        return Err(String::from_str("subdomain must be lowercase & alphanumeric"));
    }
    Ok(())
}

} // verus!
