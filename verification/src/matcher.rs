//! The boundary to the `regex` crate: pattern compilation and match
//! enumeration. The two wrappers here are the only trusted code; every
//! caller works from their contracts, which speak of the two named
//! results `compile_outcome` and `found_matches`.

use vstd::prelude::*;

verus! {

#[verifier::external_type_specification]
#[verifier::external_body]
pub struct ExRegex(regex::Regex);

/// What compiling a pattern text yields: `None` when the matcher accepts
/// the syntax, `Some(diagnostic)` with the matcher's human-readable
/// diagnostic when it rejects it. Compilation of a pattern depends on its
/// text alone.
pub uninterp spec fn compile_outcome(pattern_text: Seq<char>) -> Option<Seq<char>>;

/// The successive non-overlapping matches that the matcher finds in an
/// input, left to right: for each match, its full text (group 0) and its
/// capture groups in declaration order, an unmatched group as `None`.
/// The matches depend on the pattern text and the input alone.
pub uninterp spec fn found_matches(pattern_text: Seq<char>, input: Seq<char>) -> Seq<
    (Seq<char>, Seq<Option<Seq<char>>>),
>;

/// A compiled, immutable pattern, reusable for any number of match
/// operations. Only `compile` creates one, so `text()` is always the
/// text the held matcher was compiled from.
pub struct Pattern {
    re: regex::Regex,
    text: Ghost<Seq<char>>,
}

impl Pattern {
    /// The pattern text this matcher was compiled from.
    pub closed spec fn text(&self) -> Seq<char> {
        self.text@
    }
}

/// The diagnostic for a pattern the matcher rejected, surfaced verbatim.
#[derive(Debug)]
pub struct CompileError {
    pub message: String,
}

impl View for CompileError {
    type V = Seq<char>;

    open spec fn view(&self) -> Seq<char> {
        self.message@
    }
}

/// One located occurrence of the pattern: the matched text and the
/// capture groups in declaration order (group 0, the full match, is the
/// `text` field and is not repeated among the groups).
pub struct MatchRec {
    pub text: String,
    pub groups: Vec<Option<String>>,
}

impl DeepView for MatchRec {
    type V = (Seq<char>, Seq<Option<Seq<char>>>);

    open spec fn deep_view(&self) -> Self::V {
        (self.text@, self.groups.deep_view())
    }
}

/// Relies on `regex::Regex::new`: it compiles the pattern or returns a
/// syntax error, and on the error's `Display`, which renders the
/// diagnostic; both depend on the pattern text alone.
#[verifier::external_body]
fn regex_new(pattern_text: &str) -> (r: Result<regex::Regex, String>)
    ensures
        r is Ok <==> compile_outcome(pattern_text@) is None,
        r is Err ==> Some((r->Err_0)@) == compile_outcome(pattern_text@),
{
    match regex::Regex::new(pattern_text) {
        Ok(re) => Ok(re),
        Err(e) => Err(format!("{}", e)),
    }
}

/// Relies on `regex::Regex::captures_iter`: it yields the successive
/// non-overlapping matches, left to right, each with its full text and
/// its capture groups in declaration order; scanning resumes after each
/// matched span and steps past an empty match, so there are at most
/// input-length + 1 matches. It also relies on `Pattern` being built
/// only by `compile`, so that the held matcher was compiled from
/// `pattern.text()`.
#[verifier::external_body]
fn regex_captures(pattern: &Pattern, input: &str) -> (r: Vec<MatchRec>)
    ensures
        r.deep_view() == found_matches(pattern.text(), input@),
        r@.len() <= input@.len() + 1,
{
    pattern
        .re
        .captures_iter(input)
        .map(|c| MatchRec {
            text: c.get(0).unwrap().as_str().to_owned(),
            groups: c.iter().skip(1).map(|g| g.map(|m| m.as_str().to_owned())).collect(),
        })
        .collect()
}

/// Compiles `pattern_text`, returning a reusable matcher, or the
/// matcher's diagnostic when the syntax is rejected.
pub fn compile(pattern_text: &str) -> (r: Result<Pattern, CompileError>)
    ensures
        r is Ok <==> compile_outcome(pattern_text@) is None,
        r is Ok ==> (r->Ok_0).text() == pattern_text@,
        r is Err ==> Some((r->Err_0)@) == compile_outcome(pattern_text@),
{
    match regex_new(pattern_text) {
        Ok(re) => Ok(Pattern { re, text: Ghost(pattern_text@) }),
        Err(message) => Err(CompileError { message }),
    }
}

/// Enumerates all non-overlapping matches of `pattern` in `input`, left
/// to right.
pub fn find_all(pattern: &Pattern, input: &str) -> (r: Vec<MatchRec>)
    ensures
        r.deep_view() == found_matches(pattern.text(), input@),
        r@.len() <= input@.len() + 1,
        r@.len() == found_matches(pattern.text(), input@).len(),
{
    let r = regex_captures(pattern, input);
    proof {
        assert(r.deep_view().len() == r@.len());
    }
    r
}

} // verus!
