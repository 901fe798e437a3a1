//! The regular expressions that select symbols by name.
use regex::{Regex, RegexBuilder};
use vstd::prelude::*;

verus! {

/// `regex::Regex`, carried through as an opaque value.
#[verifier::external_type_specification]
#[verifier::external_body]
pub struct ExRegex(Regex);

/// Whether `RegexBuilder::new(pattern).case_insensitive(case_insensitive).build()`
/// succeeds.
pub uninterp spec fn pattern_compiles(pattern: Seq<char>, case_insensitive: bool) -> bool;

/// Whether the regex built from `pattern` (case-insensitively when asked)
/// matches somewhere in `text`.
pub uninterp spec fn pattern_matches(pattern: Seq<char>, case_insensitive: bool, text: Seq<char>) -> bool;

/// The message of the error that building the regex from `pattern` gives,
/// when it fails (the error's `Display`).
pub uninterp spec fn pattern_error_text(pattern: Seq<char>, case_insensitive: bool) -> Seq<char>;

/// How Rust's `Debug` shows a string: quoted, with its special characters
/// escaped.
pub uninterp spec fn debug_text(value: Seq<char>) -> Seq<char>;

/// The message for a pattern that does not compile.
pub open spec fn invalid_pattern_message(pattern: Seq<char>, case_insensitive: bool) -> Seq<char> {
    "invalid regular expression "@ + debug_text(pattern) + ": "@ + pattern_error_text(
        pattern,
        case_insensitive,
    )
}

/// A compiled regular expression, with the text it was compiled from.
pub struct SymbolPattern {
    regex: Regex,
    pattern: String,
    case_insensitive: bool,
}

/// `RegexBuilder::new(pattern).case_insensitive(case_insensitive).build()`,
/// with the error's message.
#[verifier::external_body]
fn build_regex(pattern: &str, case_insensitive: bool) -> (r: Result<Regex, String>)
    ensures
        r is Ok <==> pattern_compiles(pattern@, case_insensitive),
        r matches Err(message) ==> message@ == pattern_error_text(pattern@, case_insensitive),
{
    match RegexBuilder::new(pattern).case_insensitive(case_insensitive).build() {
        Ok(regex) => Ok(regex),
        Err(error) => Err(error.to_string()),
    }
}

/// `format!("{value:?}")`: the text quoted and escaped as Rust's `Debug`
/// shows a string.
#[verifier::external_body]
pub(crate) fn debug_quoted(value: &str) -> (r: String)
    ensures
        r@ == debug_text(value@),
{
    format!("{value:?}")
}

impl SymbolPattern {
    /// The text the pattern was compiled from.
    pub closed spec fn pattern(&self) -> Seq<char> {
        self.pattern@
    }

    /// Whether the pattern ignores case.
    pub closed spec fn ignores_case(&self) -> bool {
        self.case_insensitive
    }

    /// Compiles `pattern`; an invalid pattern gives
    /// `invalid regular expression "<pattern>": <reason>`.
    pub fn new(pattern: &str, case_insensitive: bool) -> (r: Result<SymbolPattern, String>)
        ensures
            r is Ok <==> pattern_compiles(pattern@, case_insensitive),
            r matches Ok(p) ==> p.pattern() == pattern@ && p.ignores_case() == case_insensitive,
            r matches Err(message) ==> message@ == invalid_pattern_message(pattern@, case_insensitive),
    {
        match build_regex(pattern, case_insensitive) {
            Ok(regex) => Ok(SymbolPattern { regex, pattern: pattern.to_owned(), case_insensitive }),
            Err(reason) => {
                let mut message = String::from_str("invalid regular expression ");
                message.append(debug_quoted(pattern).as_str());
                message.append(": ");
                message.append(reason.as_str());
                Err(message)
            },
        }
    }

    /// `Regex::is_match`: whether the pattern matches somewhere in `text`.
    #[verifier::external_body]
    pub fn is_match(&self, text: &str) -> (r: bool)
        ensures
            r == pattern_matches(self.pattern(), self.ignores_case(), text@),
    {
        self.regex.is_match(text)
    }

    /// The text the pattern was compiled from.
    pub fn as_str(&self) -> (s: &str)
        ensures
            s@ == self.pattern(),
    {
        self.pattern.as_str()
    }
}

/// Whether some pattern of `patterns` matches `text`.
pub open spec fn any_matches(patterns: Seq<SymbolPattern>, text: Seq<char>) -> bool {
    exists|k: int|
        0 <= k < patterns.len() && pattern_matches(
            #[trigger] patterns[k].pattern(),
            patterns[k].ignores_case(),
            text,
        )
}

/// See `any_matches`.
pub fn any_match(patterns: &Vec<SymbolPattern>, text: &str) -> (r: bool)
    ensures
        r == any_matches(patterns@, text@),
{
    let mut i: usize = 0;
    while i < patterns.len()
        invariant
            i <= patterns@.len(),
            forall|k: int|
                0 <= k < i ==> !pattern_matches(
                    #[trigger] patterns@[k].pattern(),
                    patterns@[k].ignores_case(),
                    text@,
                ),
        decreases patterns@.len() - i,
    {
        if patterns[i].is_match(text) {
            return true;
        }
        i = i + 1;
    }
    false
}

} // verus!
