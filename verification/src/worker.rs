//! The worker: it takes the lines in the order in which they arrived and
//! reports each one that matches, with the time since the match before it.
//!
//! Time is a count of nanoseconds on a clock that the caller chooses and that
//! never runs backwards. The worker keeps one piece of state, the time of the
//! latest match, which starts as the time at which the worker itself began.

use vstd::prelude::*;
use vstd::string::*;

use crate::duration::{format_duration, lemma_text_ends_with_suffix, styled_duration, tint_of};
use crate::matcher::Matcher;
use crate::report::{Report, ReportView};
use crate::text::is_plain;
use crate::unit::TimeUnit;

verus! {

/// A line of input with the time at which it was read.
#[derive(Debug)]
pub struct TimedLine {
    /// The line, without its line ending.
    pub content: String,
    /// When the line was read, in nanoseconds on the caller's clock.
    pub arrival_time: u128,
}

/// What a [`TimedLine`] stands for.
pub struct TimedLineView {
    /// The line, without its line ending.
    pub content: Seq<char>,
    /// When the line was read, in nanoseconds on the caller's clock.
    pub arrival_time: nat,
}

impl View for TimedLine {
    type V = TimedLineView;

    open spec fn view(&self) -> TimedLineView {
        TimedLineView { content: self.content@, arrival_time: self.arrival_time as nat }
    }
}

impl DeepView for TimedLine {
    type V = TimedLineView;

    open spec fn deep_view(&self) -> TimedLineView {
        self@
    }
}

/// The time from `earlier` to `later`; none where `later` is not the later
/// of the two.
pub open spec fn elapsed_between(earlier: nat, later: nat) -> nat {
    if later >= earlier {
        (later - earlier) as nat
    } else {
        0
    }
}

/// What the worker reports for `line` when the latest match was at `last`:
/// nothing unless the line matches.
pub open spec fn report_for(
    matcher: Matcher,
    unit: Option<TimeUnit>,
    last: nat,
    line: TimedLineView,
) -> Option<ReportView> {
    if matcher.accepts(line.content) {
        Some(
            ReportView {
                duration: styled_duration(elapsed_between(last, line.arrival_time), unit),
                content: line.content,
            },
        )
    } else {
        None
    }
}

/// The time of the latest match once `line` has been seen.
pub open spec fn last_match_after(matcher: Matcher, last: nat, line: TimedLineView) -> nat {
    if matcher.accepts(line.content) {
        line.arrival_time
    } else {
        last
    }
}

/// The time of the latest match once all of `lines` have been seen, in order.
pub open spec fn last_match_after_all(
    matcher: Matcher,
    start: nat,
    lines: Seq<TimedLineView>,
) -> nat
    decreases lines.len(),
{
    if lines.len() == 0 {
        start
    } else {
        last_match_after(
            matcher,
            last_match_after_all(matcher, start, lines.drop_last()),
            lines.last(),
        )
    }
}

/// The reports for `lines`, seen in order by a worker that began at `start`.
pub open spec fn reports_for_all(
    matcher: Matcher,
    unit: Option<TimeUnit>,
    start: nat,
    lines: Seq<TimedLineView>,
) -> Seq<ReportView>
    decreases lines.len(),
{
    if lines.len() == 0 {
        Seq::<ReportView>::empty()
    } else {
        let before = reports_for_all(matcher, unit, start, lines.drop_last());
        let last = last_match_after_all(matcher, start, lines.drop_last());
        match report_for(matcher, unit, last, lines.last()) {
            Some(report) => before.push(report),
            None => before,
        }
    }
}

/// The state of the worker and the settings it was started with.
pub struct Worker {
    matcher: Matcher,
    unit: Option<TimeUnit>,
    last_matched_time: u128,
}

impl Worker {
    /// The matcher that decides which lines are reported.
    pub closed spec fn matcher(&self) -> Matcher {
        self.matcher
    }

    /// The unit fixed for every printed duration, if one is.
    pub closed spec fn unit(&self) -> Option<TimeUnit> {
        self.unit
    }

    /// The time of the latest match, or of the worker's start before any.
    pub closed spec fn last_matched_time(&self) -> nat {
        self.last_matched_time as nat
    }

    /// A worker that begins at `start_time`.
    pub fn new(matcher: Matcher, unit: Option<TimeUnit>, start_time: u128) -> (worker: Worker)
        ensures
            worker.matcher() == matcher,
            worker.unit() == unit,
            worker.last_matched_time() == start_time as nat,
    {
        Worker { matcher, unit, last_matched_time: start_time }
    }

    /// The time of the latest match, or of the worker's start before any.
    pub fn last_match(&self) -> (time: u128)
        ensures
            time as nat == self.last_matched_time(),
    {
        self.last_matched_time
    }

    /// Takes one line. A line that matches is reported with the time since
    /// the latest match and becomes the latest match itself; any other line
    /// changes nothing.
    pub fn step(&mut self, line: &TimedLine) -> (report: Option<Report>)
        ensures
            final(self).matcher() == old(self).matcher(),
            final(self).unit() == old(self).unit(),
            final(self).last_matched_time() == last_match_after(
                old(self).matcher(),
                old(self).last_matched_time(),
                line@,
            ),
            report.deep_view() == report_for(
                old(self).matcher(),
                old(self).unit(),
                old(self).last_matched_time(),
                line@,
            ),
            report matches Some(shown) ==> is_plain(shown.duration.text@),
    {
        if self.matcher.is_match(line.content.as_str()) {
            let elapsed: u128 = if line.arrival_time >= self.last_matched_time {
                line.arrival_time - self.last_matched_time
            } else {
                0
            };
            let report = Report {
                duration: format_duration(elapsed, &self.unit),
                content: line.content.clone(),
            };
            self.last_matched_time = line.arrival_time;
            Some(report)
        } else {
            None
        }
    }

    /// Takes `lines` in order and returns the reports, one for each line
    /// that matches, in the order of the lines.
    pub fn run(&mut self, lines: &Vec<TimedLine>) -> (reports: Vec<Report>)
        ensures
            final(self).matcher() == old(self).matcher(),
            final(self).unit() == old(self).unit(),
            final(self).last_matched_time() == last_match_after_all(
                old(self).matcher(),
                old(self).last_matched_time(),
                lines.deep_view(),
            ),
            reports.deep_view() == reports_for_all(
                old(self).matcher(),
                old(self).unit(),
                old(self).last_matched_time(),
                lines.deep_view(),
            ),
    {
        let ghost matcher = self.matcher();
        let ghost unit = self.unit();
        let ghost start = self.last_matched_time();
        let ghost all = lines.deep_view();
        let mut reports: Vec<Report> = Vec::new();
        let mut i: usize = 0;
        while i < lines.len()
            invariant
                i <= lines.len(),
                all == lines.deep_view(),
                self.matcher() == matcher,
                self.unit() == unit,
                self.last_matched_time() == last_match_after_all(matcher, start, all.take(i as int)),
                reports.deep_view() == reports_for_all(matcher, unit, start, all.take(i as int)),
            decreases lines.len() - i,
        {
            proof {
                let seen = all.take(i + 1);
                assert(seen.drop_last() =~= all.take(i as int));
                assert(seen.last() == lines[i as int]@);
            }
            let ghost before = reports.deep_view();
            match self.step(&lines[i]) {
                Some(report) => {
                    reports.push(report);
                    assert(reports.deep_view() =~= before.push(report@));
                },
                None => {
                    assert(reports.deep_view() =~= before);
                },
            }
            i = i + 1;
        }
        assert(all.take(lines.len() as int) =~= all);
        reports
    }
}

/// The lines among `lines` that the matcher accepts, in their order.
pub open spec fn matching_lines(matcher: Matcher, lines: Seq<TimedLineView>) -> Seq<
    TimedLineView,
> {
    lines.filter(|line: TimedLineView| matcher.accepts(line.content))
}

/// The time from which the elapsed time of the `k`-th match is measured: the
/// arrival of the match before it, or the worker's start for the first.
pub open spec fn measured_from(start: nat, hits: Seq<TimedLineView>, k: int) -> nat {
    if k == 0 {
        start
    } else {
        hits[k - 1].arrival_time
    }
}

/// Where no line matches, nothing is reported and the state stays as it was.
pub proof fn lemma_no_match_no_report(
    matcher: Matcher,
    unit: Option<TimeUnit>,
    start: nat,
    lines: Seq<TimedLineView>,
)
    requires
        forall|i: int| 0 <= i < lines.len() ==> !matcher.accepts(#[trigger] lines[i].content),
    ensures
        reports_for_all(matcher, unit, start, lines) == Seq::<ReportView>::empty(),
        last_match_after_all(matcher, start, lines) == start,
    decreases lines.len(),
{
    if lines.len() > 0 {
        let rest = lines.drop_last();
        assert forall|i: int| 0 <= i < rest.len() implies !matcher.accepts(
            #[trigger] rest[i].content,
        ) by {
            assert(rest[i] == lines[i]);
        }
        lemma_no_match_no_report(matcher, unit, start, rest);
        assert(!matcher.accepts(lines[lines.len() - 1].content));
    }
}

/// There is one report for each matching line, in the order of the lines.
/// Each report carries its line unchanged and the time elapsed since the
/// matching line before it, or since the worker's start for the first; and
/// the latest match is the last matching line.
pub proof fn lemma_reports_follow_matches(
    matcher: Matcher,
    unit: Option<TimeUnit>,
    start: nat,
    lines: Seq<TimedLineView>,
)
    ensures
        reports_for_all(matcher, unit, start, lines).len() == matching_lines(matcher, lines).len(),
        last_match_after_all(matcher, start, lines) == measured_from(
            start,
            matching_lines(matcher, lines),
            matching_lines(matcher, lines).len() as int,
        ),
        forall|k: int|
            #![trigger reports_for_all(matcher, unit, start, lines)[k]]
            0 <= k < matching_lines(matcher, lines).len() ==> reports_for_all(
                matcher,
                unit,
                start,
                lines,
            )[k] == (ReportView {
                duration: styled_duration(
                    elapsed_between(
                        measured_from(start, matching_lines(matcher, lines), k),
                        matching_lines(matcher, lines)[k].arrival_time,
                    ),
                    unit,
                ),
                content: matching_lines(matcher, lines)[k].content,
            }),
    decreases lines.len(),
{
    reveal(Seq::filter);
    if lines.len() > 0 {
        let rest = lines.drop_last();
        lemma_reports_follow_matches(matcher, unit, start, rest);
        let hits = matching_lines(matcher, lines);
        let hits_before = matching_lines(matcher, rest);
        let reports = reports_for_all(matcher, unit, start, lines);
        let reports_before = reports_for_all(matcher, unit, start, rest);
        if matcher.accepts(lines.last().content) {
            assert(hits == hits_before.push(lines.last()));
            assert forall|k: int| 0 <= k < hits.len() implies #[trigger] reports[k] == (ReportView {
                duration: styled_duration(
                    elapsed_between(measured_from(start, hits, k), hits[k].arrival_time),
                    unit,
                ),
                content: hits[k].content,
            }) by {
                if k < hits_before.len() {
                    assert(reports[k] == reports_before[k]);
                    assert(hits[k] == hits_before[k]);
                    assert(measured_from(start, hits, k) == measured_from(start, hits_before, k));
                }
            }
        } else {
            assert(hits == hits_before);
        }
    }
}

/// With a fixed unit every report is printed in that unit, whatever the
/// times between the matches: each duration ends with the unit's suffix and
/// has the unit's colour.
pub proof fn lemma_reports_keep_fixed_unit(
    matcher: Matcher,
    unit: TimeUnit,
    start: nat,
    lines: Seq<TimedLineView>,
)
    ensures
        forall|k: int|
            #![trigger reports_for_all(matcher, Some(unit), start, lines)[k]]
            0 <= k < reports_for_all(matcher, Some(unit), start, lines).len() ==> {
                let shown = reports_for_all(matcher, Some(unit), start, lines)[k].duration;
                unit.spec_suffix().is_suffix_of(shown.text) && shown.tint == tint_of(unit)
            },
{
    let reports = reports_for_all(matcher, Some(unit), start, lines);
    let hits = matching_lines(matcher, lines);
    lemma_reports_follow_matches(matcher, Some(unit), start, lines);
    assert forall|k: int| 0 <= k < reports.len() implies ({
        let shown = (#[trigger] reports[k]).duration;
        unit.spec_suffix().is_suffix_of(shown.text) && shown.tint == tint_of(unit)
    }) by {
        let elapsed = elapsed_between(measured_from(start, hits, k), hits[k].arrival_time);
        lemma_text_ends_with_suffix(elapsed, unit);
    }
}

/// Lines taken in two runs are reported as if taken in one: the second run
/// goes on from the latest match of the first.
pub proof fn lemma_runs_compose(
    matcher: Matcher,
    unit: Option<TimeUnit>,
    start: nat,
    first: Seq<TimedLineView>,
    second: Seq<TimedLineView>,
)
    ensures
        last_match_after_all(matcher, start, first + second) == last_match_after_all(
            matcher,
            last_match_after_all(matcher, start, first),
            second,
        ),
        reports_for_all(matcher, unit, start, first + second) == reports_for_all(
            matcher,
            unit,
            start,
            first,
        ) + reports_for_all(matcher, unit, last_match_after_all(matcher, start, first), second),
    decreases second.len(),
{
    let middle = last_match_after_all(matcher, start, first);
    if second.len() == 0 {
        assert(first + second =~= first);
        assert(reports_for_all(matcher, unit, start, first) + Seq::<ReportView>::empty()
            =~= reports_for_all(matcher, unit, start, first));
    } else {
        let whole = first + second;
        assert(whole.drop_last() =~= first + second.drop_last());
        assert(whole.last() == second.last());
        lemma_runs_compose(matcher, unit, start, first, second.drop_last());
        let head = reports_for_all(matcher, unit, start, first);
        let tail_before = reports_for_all(matcher, unit, middle, second.drop_last());
        let last = last_match_after_all(matcher, middle, second.drop_last());
        match report_for(matcher, unit, last, second.last()) {
            Some(report) => {
                assert((head + tail_before).push(report) =~= head + tail_before.push(report));
            },
            None => {},
        }
    }
}

} // verus!
