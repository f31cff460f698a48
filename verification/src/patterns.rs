//! Regular expressions: the patterns that the library brings along, and their use.

use crate::config::standard_error_patterns;
use crate::text::single_spaced;
use regex::Regex;
use vstd::prelude::*;

verus! {

/// A UUID.
pub const UUID: &'static str =
    r"(?i)\b[0-9a-f]{8}-[0-9a-f]{4}-[0-9a-f]{4}-[0-9a-f]{4}-[0-9a-f]{12}\b";

/// A time as ISO 8601 writes it: `2024-01-02T15:04:05.123Z`, `2024-01-02 15:04:05+08:00`.
pub const ISO_TIME: &'static str =
    r"\d{4}-\d{2}-\d{2}[T ]\d{2}:\d{2}:\d{2}(\.\d+)?(Z|[+-]\d{2}:?\d{2})?";

/// A time as syslog writes it: `Jan  2 15:04:05`, `Jan 02 15:04:05`.
pub const SYSLOG_TIME: &'static str =
    r"\b(?:Jan|Feb|Mar|Apr|May|Jun|Jul|Aug|Sep|Oct|Nov|Dec)\s+\d{1,2}\s+\d{2}:\d{2}:\d{2}\b";

/// A hexadecimal number with its prefix.
pub const PREFIXED_HEX: &'static str = r"0[xX][0-9a-fA-F]+";

/// Eight or more hexadecimal digits, which may all be decimal.
pub const BARE_HEX: &'static str = r"\b[0-9a-fA-F]{8,}\b";

/// A path: `/var/log/app.log`, `./src/main.rs`, `src/foo/bar.py`.
pub const PATH: &'static str = r"(?:\.{1,2}/|/)?(?:[A-Za-z0-9_.\-]+/){1,}[A-Za-z0-9_.\-]+";

/// A number.
pub const NUMBER: &'static str = r"\d+";

/// A run of white space.
pub const BLANK: &'static str = r"\s+";

/// A line of a Node.js stack trace: function (may be missing), file, line, column.
pub const NODE_FRAME: &'static str = r"^\s*at\s+(?:(.+?)\s+\()?(.+?):(\d+):(\d+)\)?$";

/// A line of a Python stack trace: file, line, function.
pub const PY_FRAME: &'static str = r#"^\s*File "(.+?)", line (\d+), in (.+)$"#;

/// Whether the library brings `pattern` along.
pub open spec fn known_pattern(pattern: Seq<char>) -> bool {
    ||| pattern == UUID@
    ||| pattern == ISO_TIME@
    ||| pattern == SYSLOG_TIME@
    ||| pattern == PREFIXED_HEX@
    ||| pattern == BARE_HEX@
    ||| pattern == PATH@
    ||| pattern == NUMBER@
    ||| pattern == BLANK@
    ||| pattern == NODE_FRAME@
    ||| pattern == PY_FRAME@
    ||| standard_error_patterns().contains(pattern)
}

/// A compiled regular expression.
#[verifier::external_type_specification]
#[verifier::external_body]
pub struct ExRegex(regex::Regex);

/// Why a pattern did not compile.
#[verifier::external_type_specification]
#[verifier::external_body]
pub struct ExRegexError(regex::Error);

/// Whether `Regex::new` accepts `pattern`.
pub uninterp spec fn regex_compiles(pattern: Seq<char>) -> bool;

/// Why `Regex::new` does not accept `pattern`.
pub uninterp spec fn regex_error(pattern: Seq<char>) -> regex::Error;

/// The pattern from which `Regex::new` compiled `re`, where it was compiled in that way.
pub uninterp spec fn regex_source(re: Regex) -> Option<Seq<char>>;

/// Whether `pattern` matches somewhere in `text`.
pub uninterp spec fn regex_matches(pattern: Seq<char>, text: Seq<char>) -> bool;

/// What the groups of the leftmost match of `pattern` in `text` hold: the whole match, and then
/// each group in the order of the opening parentheses, `None` for one that took no part.
pub uninterp spec fn regex_groups(pattern: Seq<char>, text: Seq<char>) -> Seq<Option<Seq<char>>>;

/// `text` with each match of `pattern` replaced by `replacement`.
pub uninterp spec fn regex_replaced(
    pattern: Seq<char>,
    text: Seq<char>,
    replacement: Seq<char>,
) -> Seq<char>;

/// What groups hold, by their characters.
pub open spec fn group_views(groups: Seq<Option<String>>) -> Seq<Option<Seq<char>>> {
    groups.map_values(
        |g: Option<String>|
            match g {
                Some(s) => Some(s@),
                None => None,
            },
    )
}

/// `Regex::new`. Whether a pattern is accepted, and why not, depends on the pattern alone; the
/// patterns that the library brings along are accepted. What comes back was compiled from the
/// pattern.
#[verifier::external_body]
pub(crate) fn compile(pattern: &str) -> (r: Result<Regex, regex::Error>)
    ensures
        r is Ok <==> regex_compiles(pattern@),
        r matches Ok(re) ==> regex_source(re) == Some(pattern@),
        r matches Err(e) ==> e == regex_error(pattern@),
        known_pattern(pattern@) ==> r is Ok,
{
    Regex::new(pattern)
}

/// `Regex::is_match`: a function of the pattern and the text.
#[verifier::external_body]
pub(crate) fn is_match(re: &Regex, text: &str) -> (r: bool)
    requires
        regex_source(*re) is Some,
    ensures
        r == regex_matches(regex_source(*re)->0, text@),
{
    re.is_match(text)
}

/// `Regex::captures`: there are groups where the pattern matches. The pattern for Node.js frames
/// has four groups, of which the first is optional; the one for Python frames has three, all of
/// which take part in each match.
#[verifier::external_body]
pub(crate) fn captures(re: &Regex, text: &str) -> (r: Option<Vec<Option<String>>>)
    requires
        regex_source(*re) is Some,
    ensures
        r is Some <==> regex_matches(regex_source(*re)->0, text@),
        r matches Some(groups) ==> group_views(groups@) == regex_groups(
            regex_source(*re)->0,
            text@,
        ),
        r matches Some(groups) ==> regex_source(*re) == Some(NODE_FRAME@) ==> node_groups(groups@),
        r matches Some(groups) ==> regex_source(*re) == Some(PY_FRAME@) ==> py_groups(groups@),
{
    re.captures(text).map(
        |found| found.iter().map(|group| group.map(|m| m.as_str().to_string())).collect(),
    )
}

/// What a match of the pattern for Node.js frames holds.
pub open spec fn node_groups(groups: Seq<Option<String>>) -> bool {
    groups.len() == 5 && groups[2] is Some && groups[3] is Some && groups[4] is Some
}

/// What a match of the pattern for Python frames holds.
pub open spec fn py_groups(groups: Seq<Option<String>>) -> bool {
    groups.len() == 4 && groups[1] is Some && groups[2] is Some && groups[3] is Some
}

/// `Regex::replace_all`: a function of the pattern, the text and the replacement. Where the pattern
/// is a run of white space and the replacement a blank, each run becomes one blank: `\s` stands
/// for the characters with the property `White_Space`, and a match is as long as it can be. Of
/// other patterns no more is said than that the result depends on the three alone.
#[verifier::external_body]
pub(crate) fn replace_all(re: &Regex, text: &str, replacement: &str) -> (r: String)
    requires
        regex_source(*re) is Some,
    ensures
        r@ == regex_replaced(regex_source(*re)->0, text@, replacement@),
        regex_source(*re) == Some(BLANK@) && replacement@ == " "@ ==> r@ == single_spaced(text@),
{
    re.replace_all(text, replacement).into_owned()
}

}
