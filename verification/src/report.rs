//! The line printed for a match: the elapsed time in its field, a separator,
//! and the matching line as it came in.

use vstd::prelude::*;
use vstd::string::*;

use crate::duration::{Styled, StyledView};
use crate::paint::{is_painted, lemma_painted_holds_text};
use crate::text::{contains_seq, is_plain, occurs_at, pad_right};

verus! {

/// The width of the field that holds the elapsed time.
pub const DURATION_WIDTH: usize = 10;

/// What stands between the elapsed time and the line.
pub open spec fn separator() -> Seq<char> {
    "| "@
}

/// What is printed for one matching line.
#[derive(Debug)]
pub struct Report {
    /// The time since the match before, as it is to be shown.
    pub duration: Styled,
    /// The matching line, unchanged.
    pub content: String,
}

/// What a [`Report`] stands for.
pub struct ReportView {
    /// The time since the match before, as it is to be shown.
    pub duration: StyledView,
    /// The matching line, unchanged.
    pub content: Seq<char>,
}

impl View for Report {
    type V = ReportView;

    open spec fn view(&self) -> ReportView {
        ReportView { duration: self.duration@, content: self.content@ }
    }
}

impl DeepView for Report {
    type V = ReportView;

    open spec fn deep_view(&self) -> ReportView {
        self@
    }
}

/// A report line without colour: the duration left-aligned in its field, the
/// separator, the line.
pub open spec fn report_text(duration: Seq<char>, content: Seq<char>) -> Seq<char> {
    pad_right(duration, DURATION_WIDTH as nat) + separator() + content
}

/// Whether `out` is a report line for `duration` and `content`, in colour or
/// not: the duration in its field as `colored` writes it, the separator, the
/// line.
pub open spec fn shows_report(out: Seq<char>, duration: StyledView, content: Seq<char>) -> bool {
    exists|field: Seq<char>|
        #![trigger is_painted(field, pad_right(duration.text, DURATION_WIDTH as nat), duration.tint, duration.bold)]
        is_painted(
            field,
            pad_right(duration.text, DURATION_WIDTH as nat),
            duration.tint,
            duration.bold,
        ) && out == field + separator() + content
}

/// Puts a report line together from a duration field that is already
/// formatted and the matching line.
pub fn assemble(field: String, content: &str) -> (out: String)
    ensures
        out@ == field@ + separator() + content@,
{
    let mut out: String = field;
    out.append("| ");
    out.append(content);
    out
}

impl Report {
    /// The report line without colour.
    pub fn plain(&self) -> (out: String)
        ensures
            out@ == report_text(self.duration.text@, self.content@),
    {
        assemble(self.duration.plain_field(DURATION_WIDTH), self.content.as_str())
    }

    /// The report line with the duration field in its colour and weight,
    /// where the process is set to show colour. The text of the line is that
    /// of [`Report::plain`] either way: colour only adds control sequences
    /// around the field.
    pub fn render(&self) -> (out: String)
        ensures
            is_plain(self.duration.text@) ==> shows_report(out@, self.duration@, self.content@),
            exists|field: Seq<char>| out@ == field + separator() + self.content@,
    {
        let field: String = self.duration.colored_field(DURATION_WIDTH);
        let ghost shown = field@;
        let out: String = assemble(field, self.content.as_str());
        assert(out@ == shown + separator() + self.content@);
        assert(is_plain(self.duration.text@) ==> is_painted(
            shown,
            pad_right(self.duration@.text, DURATION_WIDTH as nat),
            self.duration@.tint,
            self.duration@.bold,
        ));
        out
    }
}

/// An uncoloured report line is a report line.
pub proof fn lemma_plain_shows_report(duration: StyledView, content: Seq<char>)
    ensures
        shows_report(report_text(duration.text, content), duration, content),
{
    let field = pad_right(duration.text, DURATION_WIDTH as nat);
    assert(is_painted(field, field, duration.tint, duration.bold));
}

/// A report line ends with the matching line and holds the duration in its
/// field, whatever colour adds around it.
pub proof fn lemma_report_holds_its_text(
    out: Seq<char>,
    duration: StyledView,
    content: Seq<char>,
)
    requires
        shows_report(out, duration, content),
    ensures
        content.is_suffix_of(out),
        contains_seq(out, pad_right(duration.text, DURATION_WIDTH as nat)),
{
    let padded = pad_right(duration.text, DURATION_WIDTH as nat);
    let field = choose|field: Seq<char>|
        #![trigger is_painted(field, pad_right(duration.text, DURATION_WIDTH as nat), duration.tint, duration.bold)]
        is_painted(field, padded, duration.tint, duration.bold) && out == field + separator()
            + content;
    assert(out.subrange(out.len() - content.len(), out.len() as int) =~= content);
    lemma_painted_holds_text(field, padded, duration.tint, duration.bold);
    let at = choose|at: int| occurs_at(field, padded, at);
    assert(out.subrange(at, at + padded.len()) =~= field.subrange(at, at + padded.len()));
    assert(occurs_at(out, padded, at));
}

} // verus!
