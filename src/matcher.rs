use vstd::prelude::*;
use crate::error::BenchError;

verus! {

#[verifier::external_type_specification]
#[verifier::external_body]
pub struct ExRegex(regex::Regex);

/// Whether a regex compiled from `pattern`, in Unicode mode or not, matches
/// anywhere in `haystack`.
pub uninterp spec fn regex_finds(pattern: Seq<char>, unicode: bool, haystack: Seq<char>) -> bool;

/// Whether `pattern` compiles, in Unicode mode or not, with the given
/// lazy-DFA cache limit.
pub uninterp spec fn regex_compiles(pattern: Seq<char>, unicode: bool, dfa_size_limit: usize) -> bool;

/// A compiled regex together with the pattern and the mode it was compiled
/// from.
///
/// The fields are private: a `Matcher` is made only by `compile`, or by
/// `fresh_copy` from another one, so `re` is always the compilation of
/// `pattern` in the mode `unicode`.
pub struct Matcher {
    re: regex::Regex,
    pattern: String,
    unicode: bool,
}

/// Relies on `RegexBuilder::new`, `unicode`, `dfa_size_limit` and `build`:
/// compiles `pattern` in the given mode and lazy-DFA cache limit, or hands
/// back the message of the error. Whether it succeeds depends on the
/// arguments alone. The empty regex is valid, and a lazy DFA that does not
/// fit the cache limit is dropped rather than reported, so the empty pattern
/// always compiles.
#[verifier::external_body]
fn build_regex(pattern: &str, unicode: bool, dfa_size_limit: usize) -> (r: Result<regex::Regex, String>)
    ensures
        r is Ok == regex_compiles(pattern@, unicode, dfa_size_limit),
        pattern@.len() == 0 ==> r is Ok,
{
    regex::RegexBuilder::new(pattern)
        .unicode(unicode)
        .dfa_size_limit(dfa_size_limit)
        .build()
        .map_err(|e| e.to_string())
}

/// Relies on `Regex::clone`: the copy shares the compiled program and gets a
/// fresh, empty scratch pool of its own.
#[verifier::external_body]
fn clone_regex(re: &regex::Regex) -> regex::Regex
{
    re.clone()
}

/// Relies on `Regex::is_match`: whether the regex matches anywhere in
/// `haystack`. The empty regex matches the empty string at the start of any
/// haystack.
#[verifier::external_body]
fn regex_is_match(m: &Matcher, haystack: &str) -> (r: bool)
    ensures
        r == regex_finds(m.pattern(), m.unicode(), haystack@),
        m.pattern().len() == 0 ==> r,
{
    m.re.is_match(haystack)
}

impl Matcher {
    /// The pattern this matcher was compiled from.
    pub closed spec fn pattern(&self) -> Seq<char> {
        self.pattern@
    }

    /// Whether this matcher was compiled in Unicode mode.
    pub closed spec fn unicode(&self) -> bool {
        self.unicode
    }

    /// Compiles `pattern`. The regex engine decides whether the pattern is
    /// valid and fits its size limits; when it is not, the error holds the
    /// engine's message. The empty pattern always compiles.
    pub fn compile(pattern: &str, unicode: bool, dfa_size_limit: usize) -> (r: Result<Matcher, BenchError>)
        ensures
            r is Ok == regex_compiles(pattern@, unicode, dfa_size_limit),
            pattern@.len() == 0 ==> r is Ok,
            match r {
                Ok(m) => m.pattern() == pattern@ && m.unicode() == unicode,
                Err(e) => e is Compilation,
            },
    {
        match build_regex(pattern, unicode, dfa_size_limit) {
            Ok(re) => Ok(Matcher { re, pattern: pattern.to_owned(), unicode }),
            Err(message) => Err(BenchError::Compilation(message)),
        }
    }

    /// A logically independent copy: it matches exactly as `self` does, and
    /// owns a scratch pool of its own.
    pub fn fresh_copy(&self) -> (r: Matcher)
        ensures
            r.pattern() == self.pattern(),
            r.unicode() == self.unicode(),
    {
        Matcher { re: clone_regex(&self.re), pattern: self.pattern.clone(), unicode: self.unicode }
    }

    /// Whether this matcher matches anywhere in `haystack`. The empty
    /// pattern matches every haystack.
    pub fn is_match(&self, haystack: &str) -> (r: bool)
        ensures
            r == regex_finds(self.pattern(), self.unicode(), haystack@),
            self.pattern().len() == 0 ==> r,
    {
        regex_is_match(self, haystack)
    }
}

} // verus!
