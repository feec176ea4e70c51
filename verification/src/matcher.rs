//! The line matcher: a fixed text, searched for in each line.
//!
//! A line matches when the pattern is a contiguous part of it. Case can be
//! ignored: then the pattern and the line are both brought to lowercase before
//! the search. There are no wildcards and no anchors, and the empty pattern
//! is a part of every line.

use vstd::prelude::*;
use vstd::string::*;

use crate::fold::{fold, folded};
use crate::text::{
    chars_of,
    contains,
    contains_chars,
    contains_seq,
    lemma_empty_is_contained,
    occurs_at,
};

verus! {

/// Whether `line` matches `pattern`.
pub open spec fn line_matches(line: Seq<char>, pattern: Seq<char>, ignore_case: bool) -> bool {
    if ignore_case {
        contains_seq(folded(line), folded(pattern))
    } else {
        contains_seq(line, pattern)
    }
}

/// Whether `line` matches `pattern`, both taken as they are or, where
/// `ignore_case` is set, in lowercase.
pub fn matches(line: &str, pattern: &str, ignore_case: bool) -> (r: bool)
    ensures
        r == line_matches(line@, pattern@, ignore_case),
{
    if ignore_case {
        let lowered_line: String = fold(line);
        let lowered_pattern: String = fold(pattern);
        contains(lowered_line.as_str(), lowered_pattern.as_str())
    } else {
        contains(line, pattern)
    }
}

/// A pattern made ready for many lines: where case is ignored, it is brought
/// to lowercase once, here, and not again for each line.
pub struct Matcher {
    needle: Vec<char>,
    ignore_case: bool,
}

impl Matcher {
    /// The text that is searched for in each line.
    pub closed spec fn needle(&self) -> Seq<char> {
        self.needle@
    }

    /// Whether lines are brought to lowercase before the search.
    pub closed spec fn ignores_case(&self) -> bool {
        self.ignore_case
    }

    /// Whether this matcher accepts `line`.
    pub open spec fn accepts(&self, line: Seq<char>) -> bool {
        if self.ignores_case() {
            contains_seq(folded(line), self.needle())
        } else {
            contains_seq(line, self.needle())
        }
    }

    /// Prepares `pattern`; no pattern at all is the empty pattern.
    pub fn new(pattern: Option<&str>, ignore_case: bool) -> (matcher: Matcher)
        ensures
            matcher.ignores_case() == ignore_case,
            matcher.needle() == prepared_pattern(pattern_text(pattern), ignore_case),
            forall|line: Seq<char>| #[trigger]
                matcher.accepts(line) == line_matches(line, pattern_text(pattern), ignore_case),
    {
        let given: &str = match pattern {
            Some(text) => text,
            None => "",
        };
        proof {
            reveal_strlit("");
            assert(given@ =~= pattern_text(pattern));
        }
        let needle: Vec<char> = if ignore_case {
            let lowered: String = fold(given);
            chars_of(lowered.as_str())
        } else {
            chars_of(given)
        };
        Matcher { needle, ignore_case }
    }

    /// Whether `line` matches the pattern.
    pub fn is_match(&self, line: &str) -> (r: bool)
        ensures
            r == self.accepts(line@),
    {
        if self.ignore_case {
            let lowered: String = fold(line);
            let hay: Vec<char> = chars_of(lowered.as_str());
            contains_chars(&hay, &self.needle)
        } else {
            let hay: Vec<char> = chars_of(line);
            contains_chars(&hay, &self.needle)
        }
    }
}

/// The text of an optional pattern: a pattern that is not given is empty.
pub open spec fn pattern_text(pattern: Option<&str>) -> Seq<char> {
    match pattern {
        Some(text) => text@,
        None => Seq::<char>::empty(),
    }
}

/// The text that is searched for, given the pattern as the user wrote it.
pub open spec fn prepared_pattern(pattern: Seq<char>, ignore_case: bool) -> Seq<char> {
    if ignore_case {
        folded(pattern)
    } else {
        pattern
    }
}

/// The empty pattern matches every line, with case respected or ignored.
pub proof fn lemma_empty_pattern_matches(line: Seq<char>, ignore_case: bool)
    ensures
        line_matches(line, Seq::<char>::empty(), ignore_case),
{
    lemma_empty_is_contained(line);
    lemma_empty_is_contained(folded(line));
}

/// With case ignored only the folded forms count: lines that fold alike are
/// matched alike, and so are patterns that fold alike.
pub proof fn lemma_case_ignored_sees_folded_forms(
    line: Seq<char>,
    other_line: Seq<char>,
    pattern: Seq<char>,
    other_pattern: Seq<char>,
)
    requires
        folded(line) == folded(other_line),
        folded(pattern) == folded(other_pattern),
    ensures
        line_matches(line, pattern, true) == line_matches(other_line, other_pattern, true),
{
}

/// Matching is containment: with case respected, a line matches exactly when
/// it can be cut into a part before the pattern, the pattern, and a part
/// after it.
pub proof fn lemma_match_is_containment(line: Seq<char>, pattern: Seq<char>)
    ensures
        line_matches(line, pattern, false) <==> exists|before: Seq<char>, after: Seq<char>|
            line == before + pattern + after,
{
    if line_matches(line, pattern, false) {
        let at = choose|at: int| occurs_at(line, pattern, at);
        let before = line.subrange(0, at);
        let after = line.subrange(at + pattern.len(), line.len() as int);
        assert(line =~= before + pattern + after);
    }
    if exists|before: Seq<char>, after: Seq<char>| line == before + pattern + after {
        let (before, after) = choose|before: Seq<char>, after: Seq<char>|
            line == before + pattern + after;
        let at = before.len() as int;
        assert(line.subrange(at, at + pattern.len()) =~= pattern);
        assert(occurs_at(line, pattern, at));
    }
}

} // verus!
