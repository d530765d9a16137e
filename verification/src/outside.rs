//! The calls that leave this crate. Each function here is believed, not
//! proved: its contract restates what the called code documents.

use vstd::prelude::*;
use crate::text::{has_substring_ignoring_case, is_plain_words, opt_text};

verus! {

/// Calls `uuid::Uuid::new_v4` and renders the result with its `Display`
/// impl, which writes the hyphenated lower-case form: 36 characters. Which
/// identifier comes back is left open.
#[verifier::external_body]
pub(crate) fn fresh_uuid() -> (id: String)
    ensures
        id@.len() == 36,
{
    uuid::Uuid::new_v4().to_string()
}

/// Calls `chrono::Utc::now` and renders the instant with
/// `DateTime::to_rfc3339`. Nothing is claimed of the text: it depends on the
/// clock.
#[verifier::external_body]
pub(crate) fn now_rfc3339() -> (text: String)
{
    chrono::Utc::now().to_rfc3339()
}

/// What `std::path::Path::parent` returns for the path written `path`, as
/// text; `None` where the path ends in a root or is empty.
pub uninterp spec fn path_parent(path: Seq<char>) -> Option<Seq<char>>;

/// What `std::path::Path::join` returns for the path written `base` and the
/// path written `part`, as text.
pub uninterp spec fn path_join(base: Seq<char>, part: Seq<char>) -> Seq<char>;

/// Calls `std::path::Path::parent` on the path written `path` and hands the
/// result back as text. The result is a function of `path` alone.
#[verifier::external_body]
pub(crate) fn parent_of(path: &str) -> (parent: Option<String>)
    ensures
        opt_text(parent) == path_parent(path@),
{
    match std::path::Path::new(path).parent() {
        Some(p) => Some(p.to_string_lossy().into_owned()),
        None => None,
    }
}

/// Calls `std::path::Path::join` on the paths written `base` and `part` and
/// hands the result back as text. The result is a function of the two
/// arguments alone; joining a part that is not empty never gives the empty
/// path, since the part is either appended to the base or replaces it.
#[verifier::external_body]
pub(crate) fn join_path(base: &str, part: &str) -> (joined: String)
    ensures
        joined@ == path_join(base@, part@),
        part@.len() > 0 ==> joined@.len() > 0,
{
    std::path::Path::new(base).join(part).to_string_lossy().into_owned()
}

/// The error of the `regex` crate.
#[verifier::external_type_specification]
#[verifier::external_body]
pub struct ExRegexError(regex::Error);

/// Whether `regex::Regex::new` accepts the pattern written `pattern`.
pub uninterp spec fn regex_compiles(pattern: Seq<char>) -> bool;

/// Whether `regex::Regex::is_match` finds a match of the pattern written
/// `pattern` somewhere in `text`; meaningful where the pattern compiles.
pub uninterp spec fn regex_matches(pattern: Seq<char>, text: Seq<char>) -> bool;

/// The pattern is the flag `(?i)` followed by letters and spaces only, at
/// most sixty of them: a short literal that is matched without regard to
/// case.
pub open spec fn is_folded_literal(pattern: Seq<char>) -> bool {
    &&& 4 <= pattern.len() <= 64
    &&& pattern.take(4) == "(?i)"@
    &&& is_plain_words(pattern.skip(4))
}

/// Calls `regex::Regex::new` on `pattern` and drops the compiled
/// expression. Whether a pattern compiles is a function of the pattern
/// alone.
#[verifier::external_body]
pub(crate) fn regex_check(pattern: &str) -> (result: Result<(), regex::Error>)
    ensures
        result is Ok <==> regex_compiles(pattern@),
{
    match regex::Regex::new(pattern) {
        Ok(_) => Ok(()),
        Err(e) => Err(e),
    }
}

/// Compiles `pattern` and calls `regex::Regex::is_match` on `text`. The
/// answer is a function of the two arguments alone. A pattern that is only
/// a short case-insensitive literal of letters and spaces compiles, being
/// far below the size limit, and matches every text that holds the literal
/// in any mix of upper and lower case: `is_match` looks for a match
/// anywhere in the text, and under the flag `i` a letter matches both of
/// its cases.
#[verifier::external_body]
pub(crate) fn regex_is_match(pattern: &str, text: &str) -> (result: Result<bool, regex::Error>)
    ensures
        result is Ok <==> regex_compiles(pattern@),
        result matches Ok(found) ==> found == regex_matches(pattern@, text@),
        result is Err ==> !is_folded_literal(pattern@),
        result matches Ok(found) ==> found || !(is_folded_literal(pattern@)
            && has_substring_ignoring_case(text@, pattern@.skip(4))),
{
    match regex::Regex::new(pattern) {
        Ok(re) => Ok(re.is_match(text)),
        Err(e) => Err(e),
    }
}

/// Renders an error of the `regex` crate with its `Display` impl. Nothing
/// is claimed of the text.
#[verifier::external_body]
pub(crate) fn regex_error_text(error: &regex::Error) -> (text: String)
{
    error.to_string()
}

} // verus!
