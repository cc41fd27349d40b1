use vstd::prelude::*;
use crate::error::{TuggyError, TuggyErrorView};
use crate::text::{join, join_strs};

verus! {

// ---------------------------------------------------------------------------
// The regex crate
// ---------------------------------------------------------------------------

/// `regex::Error`, the error that `regex::Regex::new` reports.
#[verifier::external_type_specification]
#[verifier::external_body]
pub struct ExRegexError(regex::Error);

/// Whether `regex::Regex::new` accepts `pattern`: it is a valid regular
/// expression within the default size limit.
pub uninterp spec fn regex_is_valid(pattern: Seq<char>) -> bool;

/// Whether the regular expression `pattern` matches somewhere in `text`
/// (`regex::Regex::is_match`).
pub uninterp spec fn regex_matches(pattern: Seq<char>, text: Seq<char>) -> bool;

/// The text that the capture group named `group` takes in the leftmost-first
/// match of `pattern` in `text` (`regex::Regex::captures`, then
/// `regex::Captures::name`); `None` when there is no match or the group
/// takes no part in it.
pub uninterp spec fn regex_capture(pattern: Seq<char>, text: Seq<char>, group: Seq<char>) -> Option<
    Seq<char>,
>;

/// The text of the error that `regex::Regex::new` reports for the pattern
/// `pattern` (the `Display` text of `regex::Error`).
pub uninterp spec fn regex_error_text(pattern: Seq<char>) -> Seq<char>;

/// Calls `regex::Regex::new(pattern)` and keeps only whether it succeeded.
/// Claimed: it succeeds exactly when `regex_is_valid(pattern)`, which names
/// the crate's acceptance of a pattern; the error is handed back unchanged.
#[verifier::external_body]
fn compile_regex(pattern: &str) -> (r: Result<(), regex::Error>)
    ensures
        r is Ok <==> regex_is_valid(pattern@),
{
    match regex::Regex::new(pattern) {
        Ok(_) => Ok(()),
        Err(e) => Err(e),
    }
}

/// Calls `regex::Regex::new(pattern)` on a pattern that it refuses and
/// renders the error with `to_string`. Claimed: the text is
/// `regex_error_text(pattern)`, which names that message.
#[verifier::external_body]
fn regex_error_message(pattern: &str) -> (m: String)
    requires
        !regex_is_valid(pattern@),
    ensures
        m@ == regex_error_text(pattern@),
{
    match regex::Regex::new(pattern) {
        Ok(_) => String::new(),
        Err(e) => e.to_string(),
    }
}

/// Compiles `pattern` with `regex::Regex::new` and calls
/// `regex::Regex::is_match` on `text`. Claimed: the result is
/// `regex_matches(pattern, text)`. The pattern must be valid, so the
/// compilation cannot fail.
#[verifier::external_body]
fn regex_is_match(pattern: &str, text: &str) -> (b: bool)
    requires
        regex_is_valid(pattern@),
    ensures
        b == regex_matches(pattern@, text@),
{
    match regex::Regex::new(pattern) {
        Ok(re) => re.is_match(text),
        Err(_) => false,
    }
}

/// Compiles `pattern` with `regex::Regex::new`, calls
/// `regex::Regex::captures` on `text` and `regex::Captures::name` with
/// `group`. Claimed: the result is `regex_capture(pattern, text, group)`, and,
/// as the crate documents for `captures`, there is no capture without a match.
#[verifier::external_body]
fn regex_named_capture(pattern: &str, text: &str, group: &str) -> (r: Option<String>)
    requires
        regex_is_valid(pattern@),
    ensures
        r is Some <==> regex_capture(pattern@, text@, group@) is Some,
        r is Some ==> r->0@ == regex_capture(pattern@, text@, group@)->0,
        r is Some ==> regex_matches(pattern@, text@),
{
    match regex::Regex::new(pattern) {
        Ok(re) => match re.captures(text) {
            Some(caps) => match caps.name(group) {
                Some(m) => Some(m.as_str().to_string()),
                None => None,
            },
            None => None,
        },
        Err(_) => None,
    }
}

// ---------------------------------------------------------------------------
// Regular expressions held by the library
// ---------------------------------------------------------------------------

/// A regular expression that `regex::Regex::new` accepts.
#[derive(Debug)]
pub struct Pattern {
    source: String,
}

impl View for Pattern {
    type V = Seq<char>;

    closed spec fn view(&self) -> Seq<char> {
        self.source@
    }
}

impl Pattern {
    #[verifier::type_invariant]
    spec fn accepted(self) -> bool {
        regex_is_valid(self.source@)
    }

    /// Compiles `source`: `Ok` exactly when the regex crate accepts it,
    /// with its error otherwise.
    pub fn new(source: String) -> (r: Result<Pattern, regex::Error>)
        ensures
            r is Ok <==> regex_is_valid(source@),
            r is Ok ==> r->Ok_0@ == source@,
    {
        match compile_regex(source.as_str()) {
            Ok(()) => Ok(Pattern { source }),
            Err(e) => Err(e),
        }
    }

    /// The pattern's text.
    pub fn as_str(&self) -> (s: &str)
        ensures
            s@ == self@,
            regex_is_valid(self@),
    {
        proof {
            use_type_invariant(self);
        }
        self.source.as_str()
    }

    /// Whether the pattern matches somewhere in `text`.
    pub fn is_match(&self, text: &str) -> (b: bool)
        ensures
            b == regex_matches(self@, text@),
    {
        proof {
            use_type_invariant(self);
        }
        regex_is_match(self.source.as_str(), text)
    }

    /// The text of the capture group `group` in the pattern's first match in
    /// `text`.
    pub fn capture(&self, text: &str, group: &str) -> (r: Option<String>)
        ensures
            r is Some <==> regex_capture(self@, text@, group@) is Some,
            r is Some ==> r->0@ == regex_capture(self@, text@, group@)->0,
            r is Some ==> regex_matches(self@, text@),
    {
        proof {
            use_type_invariant(self);
        }
        regex_named_capture(self.source.as_str(), text, group)
    }
}

// ---------------------------------------------------------------------------
// The skip pattern
// ---------------------------------------------------------------------------

/// The fringe platforms that a build skips unless configured otherwise.
pub open spec fn default_skip_list() -> Seq<Seq<char>> {
    seq![
        "linux/loong64"@,
        "linux/mips64"@,
        "linux/mips64le"@,
        "linux/ppc64le"@,
        "linux/riscv64"@,
        "linux/s390x"@,
    ]
}

/// The fringe platforms that a build skips unless configured otherwise.
pub fn default_platforms_skip() -> (v: Vec<&'static str>)
    ensures
        v@.map_values(|s: &str| s@) == default_skip_list(),
        v@.map_values(|s: &str| s@) == seq![
            "linux/loong64"@,
            "linux/mips64"@,
            "linux/mips64le"@,
            "linux/ppc64le"@,
            "linux/riscv64"@,
            "linux/s390x"@,
        ],
{
    let v = vec![
        "linux/loong64",
        "linux/mips64",
        "linux/mips64le",
        "linux/ppc64le",
        "linux/riscv64",
        "linux/s390x",
    ];
    assert(v@.map_values(|s: &str| s@) =~= default_skip_list());
    v
}

/// The text of the pattern that matches exactly a whole platform identifier
/// matched by one of `platforms`: `^(p1|p2|...)$`.
pub open spec fn skip_pattern_source(platforms: Seq<Seq<char>>) -> Seq<char> {
    "^("@ + join(platforms, "|"@) + ")$"@
}

/// Builds a platform matching pattern from a collection of platforms, each
/// itself a regular expression.
pub fn generate_skip_platform_pattern(platforms: &[&str]) -> (r: Result<Pattern, regex::Error>)
    ensures
        r is Ok <==> regex_is_valid(skip_pattern_source(platforms@.map_values(|s: &str| s@))),
        r is Ok ==> r->Ok_0@ == skip_pattern_source(platforms@.map_values(|s: &str| s@)),
{
    Pattern::new(skip_source_text(platforms))
}

/// The text of the pattern that matches one of `platforms`.
fn skip_source_text(platforms: &[&str]) -> (s: String)
    ensures
        s@ == skip_pattern_source(platforms@.map_values(|p: &str| p@)),
{
    let joined = join_strs(platforms, "|");
    String::from_str("^(").concat(joined.as_str()).concat(")$")
}

/// Builds the pattern that matches one of `platforms`, as
/// `generate_skip_platform_pattern` does, and reports a pattern that does not
/// compile as a `TuggyError::RegexParseError` with the regex crate's message.
pub fn compile_skip_platform_pattern(platforms: &[&str]) -> (r: Result<Pattern, TuggyError>)
    ensures
        r is Ok <==> regex_is_valid(skip_pattern_source(platforms@.map_values(|s: &str| s@))),
        r is Ok ==> r->Ok_0@ == skip_pattern_source(platforms@.map_values(|s: &str| s@)),
        r is Err ==> r->Err_0@ == TuggyErrorView::RegexParseError(
            regex_error_text(skip_pattern_source(platforms@.map_values(|s: &str| s@))),
        ),
{
    let source = skip_source_text(platforms);
    match compile_regex(source.as_str()) {
        Ok(()) => Ok(Pattern { source }),
        Err(_) => Err(TuggyError::RegexParseError(regex_error_message(source.as_str()))),
    }
}

} // verus!
