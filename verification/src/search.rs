//! Filter engine boundary: case-insensitive patterns compiled by the
//! `regex` crate.
//!
//! The compiled matcher is opaque to verification, so its behaviour is
//! named: `pattern_valid` says whether a pattern text compiles,
//! `pattern_matches` what the compiled case-insensitive pattern matches,
//! and `regex_source` ties a compiled value back to its pattern text.
//! Everything the filter engine proves rests on these three names.

use vstd::prelude::*;

verus! {

#[verifier::external_type_specification]
#[verifier::external_body]
pub struct ExRegex(regex::Regex);

/// The pattern text a compiled matcher was built from
/// (`regex::Regex::as_str` hands it back).
pub uninterp spec fn regex_source(re: regex::Regex) -> Seq<char>;

/// Whether building a case-insensitive matcher from this pattern text
/// succeeds; a property of the text alone.
pub uninterp spec fn pattern_valid(pat: Seq<char>) -> bool;

/// Whether the case-insensitive pattern built from `pat` matches
/// somewhere in `text`; a function of the two texts alone.
pub uninterp spec fn pattern_matches(pat: Seq<char>, text: Seq<char>) -> bool;

/// A compiled case-insensitive matcher. The inner value is
/// crate-private, so every `SearchPattern` in existence came out of
/// [`compile_ci`] (or a clone of one): the named results below
/// describe every matcher this type can hold.
pub struct SearchPattern {
    pub(crate) re: regex::Regex,
}

impl SearchPattern {
    /// The pattern text this matcher was compiled from.
    pub closed spec fn source(&self) -> Seq<char> {
        regex_source(self.re)
    }
}

/// Relies on regex::RegexBuilder::build with case_insensitive(true):
/// success depends on the pattern text alone, and the compiled value
/// keeps that text as its source.
#[verifier::external_body]
pub(crate) fn compile_ci(pat: &Vec<char>) -> (r: Option<SearchPattern>)
    ensures
        r is Some == pattern_valid(pat@),
        r matches Some(sp) ==> sp.source() == pat@,
{
    let text: String = pat.iter().collect();
    regex::RegexBuilder::new(&text).case_insensitive(true).build().ok().map(
        |re| SearchPattern { re },
    )
}

/// Relies on regex::Regex::is_match: the result is a function of the
/// compiled pattern and the searched text alone.
#[verifier::external_body]
pub(crate) fn regex_is_match(sp: &SearchPattern, text: &Vec<char>) -> (r: bool)
    ensures
        r == pattern_matches(sp.source(), text@),
{
    let t: String = text.iter().collect();
    sp.re.is_match(&t)
}

/// Relies on regex::Regex's derived Clone: a clone is built from the
/// same pattern and matches as the original does.
pub assume_specification[ <regex::Regex as Clone>::clone ](re: &regex::Regex) -> (r: regex::Regex)
    ensures
        regex_source(r) == regex_source(*re),
;

/// Duplicates a compiled matcher; the copy keeps its source.
pub(crate) fn clone_pattern(sp: &SearchPattern) -> (r: SearchPattern)
    ensures
        r.source() == sp.source(),
{
    SearchPattern { re: sp.re.clone() }
}

/// What an entry name must satisfy to stay visible: an empty or invalid
/// pattern lets everything pass, a compiled pattern decides.
pub open spec fn spec_passes(pat: Seq<char>, name: Seq<char>) -> bool {
    if pat.len() > 0 && pattern_valid(pat) {
        pattern_matches(pat, name)
    } else {
        true
    }
}

} // verus!
