//! The statistics of one filter: a series for every tracked metric, fed from
//! the reports that the filter gives of itself.

use vstd::prelude::*;
use crate::counters::{label_of, DivisionByZero, KnownCounter};
use serde_json::Value;
use crate::json::json_member;
use crate::report::{
    json_snapshot, read_snapshot, ActionCountsView, Snapshot, SnapshotView, MAX_SOURCES,
};
use crate::samples::average_micros;
use crate::series::{RspamdStatElement, SeriesView};
use crate::value::Reading;

verus! {

/// By how much a sum of message counts is multiplied before a rate counter
/// sees it, so that a rate per millisecond reads as messages per second.
pub const RATE_SCALE: u16 = 1000;

/// Why a report could not be taken in.
#[derive(Clone, Copy, Debug, PartialEq, Eq, Structural)]
pub enum AggregationError {
    /// The report has no member `actions`.
    MissingField,
    /// A rate was asked for over an interval of zero milliseconds.
    DivisionByZero,
}

impl AggregationError {
    /// The text that describes the failure.
    pub fn message(&self) -> (m: &'static str)
        ensures
            m@ == match *self {
                AggregationError::MissingField => "missing actions"@,
                AggregationError::DivisionByZero => "division by zero"@,
            },
    {
        match self {
            AggregationError::MissingField => "missing actions",
            AggregationError::DivisionByZero => "division by zero",
        }
    }
}

/// The sum of the counts that are there.
pub open spec fn count_sum(counts: Seq<Option<u64>>) -> int
    decreases counts.len(),
{
    if counts.len() == 0 {
        0
    } else {
        count_sum(counts.drop_last()) + match counts.last() {
            Some(c) => c as int,
            None => 0,
        }
    }
}

/// The raw value of a rate metric: the sum of its counts, times `mult`.
pub open spec fn scaled_total(counts: Seq<Option<u64>>, mult: u16) -> int {
    count_sum(counts) * mult
}

/// A sum of counts is no more than as many times the largest count.
pub proof fn lemma_count_sum_bounds(counts: Seq<Option<u64>>)
    ensures
        0 <= count_sum(counts) <= counts.len() * 0xffff_ffff_ffff_ffff,
    decreases counts.len(),
{
    if counts.len() > 0 {
        lemma_count_sum_bounds(counts.drop_last());
    }
}

/// A scaled total of at most `MAX_SOURCES` counts is below two to the 96th.
pub proof fn lemma_scaled_total_bounds(counts: Seq<Option<u64>>, mult: u16)
    requires
        counts.len() <= MAX_SOURCES,
    ensures
        0 <= scaled_total(counts, mult) < 0x1_0000_0000_0000_0000_0000_0000,
{
    lemma_count_sum_bounds(counts);
    let s = count_sum(counts);
    let n = counts.len() as int;
    assert(0 <= s * mult < 0x1_0000_0000_0000_0000_0000_0000) by (nonlinear_arith)
        requires
            0 <= s <= n * 0xffff_ffff_ffff_ffff,
            0 <= n <= 0xffff,
            0 <= mult <= 0xffff,
    ;
}

/// Sums the counts that are there and multiplies the sum by `mult`.
pub fn total_of(counts: &Vec<Option<u64>>, mult: u16) -> (t: i128)
    requires
        counts@.len() <= MAX_SOURCES,
    ensures
        t == scaled_total(counts@, mult),
{
    let mut sum: u128 = 0;
    let mut i: usize = 0;
    while i < counts.len()
        invariant
            i <= counts.len() <= MAX_SOURCES,
            sum == count_sum(counts@.subrange(0, i as int)),
        decreases counts.len() - i,
    {
        proof {
            assert(counts@.subrange(0, i + 1).drop_last() =~= counts@.subrange(0, i as int));
            lemma_count_sum_bounds(counts@.subrange(0, i as int));
        }
        if let Some(c) = counts[i] {
            sum = sum + c as u128;
        }
        i = i + 1;
    }
    proof {
        assert(counts@.subrange(0, i as int) =~= counts@);
        lemma_scaled_total_bounds(counts@, mult);
    }
    (sum * (mult as u128)) as i128
}

/// Updates one rate metric from the counts found under its source fields:
/// their sum, times `mult`, goes through the series. Returns that raw value,
/// or the failure of the series.
pub fn update_specific(
    elt: &mut RspamdStatElement,
    counts: &Vec<Option<u64>>,
    elapsed_ms: usize,
    mult: u16,
) -> (r: Result<i128, DivisionByZero>)
    requires
        old(elt).wf(),
        counts@.len() <= MAX_SOURCES,
    ensures
        final(elt).wf(),
        final(elt)@ == old(elt)@.step(scaled_total(counts@, mult) as i128, elapsed_ms),
        r == match old(elt)@.reading(scaled_total(counts@, mult) as i128, elapsed_ms) {
            Ok(_) => Ok::<i128, DivisionByZero>(scaled_total(counts@, mult) as i128),
            Err(e) => Err(e),
        },
{
    let total = total_of(counts, mult);
    elt.update(total, elapsed_ms)?;
    Ok(total)
}

/// The raw values of one cycle: what the series of rejected, of clean and of
/// flagged messages see, and the series of all messages, which sees their
/// sum.
pub struct RawTotals {
    pub spam: i128,
    pub ham: i128,
    pub junk: i128,
    pub total: i128,
}

impl ActionCountsView {
    /// The raw values that these counts give.
    pub open spec fn raw_totals(self) -> RawTotals {
        let spam = scaled_total(self.spam, RATE_SCALE);
        let ham = scaled_total(self.ham, RATE_SCALE);
        let junk = scaled_total(self.junk, RATE_SCALE);
        RawTotals {
            spam: spam as i128,
            ham: ham as i128,
            junk: junk as i128,
            total: (spam + ham + junk) as i128,
        }
    }
}

/// The statistics as contracts see them: the five series.
pub struct StatView {
    pub spam: SeriesView,
    pub ham: SeriesView,
    pub junk: SeriesView,
    pub total: SeriesView,
    pub avg_time: SeriesView,
}

impl StatView {
    /// Statistics that have seen no report: four rate series and the gauge of
    /// the mean scan time, each with an empty window of `nelts` values.
    pub open spec fn fresh(nelts: nat) -> StatView {
        StatView {
            spam: SeriesView::fresh(nelts, false, label_of(KnownCounter::Spam)@),
            ham: SeriesView::fresh(nelts, false, label_of(KnownCounter::Ham)@),
            junk: SeriesView::fresh(nelts, false, label_of(KnownCounter::Junk)@),
            total: SeriesView::fresh(nelts, false, label_of(KnownCounter::Total)@),
            avg_time: SeriesView::fresh(nelts, true, label_of(KnownCounter::AvgTime)@),
        }
    }

    /// No window holds more than its capacity, the mean scan time is a
    /// gauge, and the other four series are rates.
    pub open spec fn wf(self) -> bool {
        &&& self.spam.wf() && !self.spam.gauge
        &&& self.ham.wf() && !self.ham.gauge
        &&& self.junk.wf() && !self.junk.gauge
        &&& self.total.wf() && !self.total.gauge
        &&& self.avg_time.wf() && self.avg_time.gauge
    }

    /// The statistics after a report, taken in `ms` milliseconds after the
    /// one before. Without counts nothing changes. Else the series are
    /// updated one after the other, rejected, clean, flagged, all, and the
    /// mean scan time if the report holds a sample, and the first update
    /// that fails is the last one made.
    pub open spec fn advance(self, report: SnapshotView, ms: usize) -> StatView {
        match report.actions {
            None => self,
            Some(counts) => {
                let raw = counts.raw_totals();
                let s1 = StatView { spam: self.spam.step(raw.spam, ms), ..self };
                let s2 = StatView { ham: self.ham.step(raw.ham, ms), ..s1 };
                let s3 = StatView { junk: self.junk.step(raw.junk, ms), ..s2 };
                let s4 = StatView { total: self.total.step(raw.total, ms), ..s3 };
                if self.spam.reading(raw.spam, ms) is Err {
                    s1
                } else if self.ham.reading(raw.ham, ms) is Err {
                    s2
                } else if self.junk.reading(raw.junk, ms) is Err {
                    s3
                } else if self.total.reading(raw.total, ms) is Err {
                    s4
                } else {
                    match report.scan_mean() {
                        Some(m) => StatView { avg_time: self.avg_time.step(m, ms), ..s4 },
                        None => s4,
                    }
                }
            },
        }
    }

    /// Whether a report is taken in: not without counts, and not if an
    /// update fails.
    pub open spec fn outcome(self, report: SnapshotView, ms: usize) -> Result<(), AggregationError> {
        match report.actions {
            None => Err(AggregationError::MissingField),
            Some(counts) => {
                let raw = counts.raw_totals();
                if self.spam.reading(raw.spam, ms) is Err || self.ham.reading(raw.ham, ms) is Err
                    || self.junk.reading(raw.junk, ms) is Err || self.total.reading(raw.total, ms)
                    is Err {
                    Err(AggregationError::DivisionByZero)
                } else {
                    match report.scan_mean() {
                        Some(m) => if self.avg_time.reading(m, ms) is Err {
                            Err(AggregationError::DivisionByZero)
                        } else {
                            Ok(())
                        },
                        None => Ok(()),
                    }
                }
            },
        }
    }
}

impl StatView {
    /// The raw values that the four rate counters saw last add up: the one
    /// of all messages is the sum of the other three, or none has seen any.
    pub open spec fn in_step(self) -> bool {
        match (self.spam.previous, self.ham.previous, self.junk.previous, self.total.previous) {
            (Some(spam), Some(ham), Some(junk), Some(total)) => total == spam + ham + junk,
            (None, None, None, None) => true,
            _ => false,
        }
    }
}

/// A report without counts is refused with `MissingField`, and no series
/// changes.
pub proof fn lemma_missing_actions_changes_nothing(stat: StatView, report: SnapshotView, ms: usize)
    requires
        report.actions is None,
    ensures
        stat.advance(report, ms) == stat,
        stat.outcome(report, ms) == Err::<(), AggregationError>(AggregationError::MissingField),
{
}

/// A report with counts, taken in over an interval of zero milliseconds, is
/// refused with `DivisionByZero` at the first series: its counter records the
/// raw value, and nothing else changes.
pub proof fn lemma_zero_interval_stops_at_first_series(stat: StatView, report: SnapshotView)
    requires
        stat.wf(),
        report.actions is Some,
    ensures
        stat.outcome(report, 0) == Err::<(), AggregationError>(AggregationError::DivisionByZero),
        stat.advance(report, 0) == (StatView {
            spam: stat.spam.step(report.actions.unwrap().raw_totals().spam, 0),
            ..stat
        }),
        stat.advance(report, 0).spam.history == stat.spam.history,
{
}

/// A report with counts, taken in over an interval above zero, is accepted:
/// each rate series sees its raw value, and the gauge sees the mean scan time
/// if the report holds a sample, and is left alone if not.
pub proof fn lemma_report_updates_every_series(stat: StatView, report: SnapshotView, ms: usize)
    requires
        stat.wf(),
        report.actions is Some,
        ms > 0,
    ensures
        stat.outcome(report, ms) == Ok::<(), AggregationError>(()),
        stat.advance(report, ms) == (StatView {
            spam: stat.spam.step(report.actions.unwrap().raw_totals().spam, ms),
            ham: stat.ham.step(report.actions.unwrap().raw_totals().ham, ms),
            junk: stat.junk.step(report.actions.unwrap().raw_totals().junk, ms),
            total: stat.total.step(report.actions.unwrap().raw_totals().total, ms),
            avg_time: match report.scan_mean() {
                Some(m) => stat.avg_time.step(m, ms),
                None => stat.avg_time,
            },
        }),
        stat.advance(report, ms).wf(),
{
}

/// While no update has failed, the rate of all messages is the sum of the
/// three other rates: after a report that is accepted, and that is not the
/// first, the newest value of each of the four windows is a ratio over the
/// interval, and the numerator of the total is the sum of the other three.
pub proof fn lemma_total_is_sum_of_rates(stat: StatView, report: SnapshotView, ms: usize)
    requires
        stat.wf(),
        stat.in_step(),
        report.wf(),
        report.actions is Some,
        ms > 0,
    ensures
        stat.advance(report, ms).in_step(),
        stat.spam.previous is Some && stat.spam.capacity > 0 && stat.ham.capacity > 0
            && stat.junk.capacity > 0 && stat.total.capacity > 0 ==> {
            let after = stat.advance(report, ms);
            &&& after.total.history.last().numerator() == after.spam.history.last().numerator()
                + after.ham.history.last().numerator() + after.junk.history.last().numerator()
            &&& after.total.history.last().divisor == ms
            &&& after.spam.history.last().divisor == ms
            &&& after.ham.history.last().divisor == ms
            &&& after.junk.history.last().divisor == ms
        },
{
    let counts = report.actions.unwrap();
    lemma_scaled_total_bounds(counts.spam, RATE_SCALE);
    lemma_scaled_total_bounds(counts.ham, RATE_SCALE);
    lemma_scaled_total_bounds(counts.junk, RATE_SCALE);
    lemma_report_updates_every_series(stat, report, ms);
}

/// Structure that holds all elements.
pub struct RspamdStat {
    spam_stats: RspamdStatElement,
    ham_stats: RspamdStatElement,
    junk_stats: RspamdStatElement,
    total: RspamdStatElement,
    avg_time: RspamdStatElement,
}

impl View for RspamdStat {
    type V = StatView;

    closed spec fn view(&self) -> StatView {
        StatView {
            spam: self.spam_stats@,
            ham: self.ham_stats@,
            junk: self.junk_stats@,
            total: self.total@,
            avg_time: self.avg_time@,
        }
    }
}

impl RspamdStat {
    /// Create new stats object.
    pub fn new(nelts: usize) -> (stat: Self)
        ensures
            stat@ == StatView::fresh(nelts as nat),
            stat@.wf(),
    {
        Self {
            spam_stats: RspamdStatElement::new(nelts, KnownCounter::Spam, false),
            ham_stats: RspamdStatElement::new(nelts, KnownCounter::Ham, false),
            junk_stats: RspamdStatElement::new(nelts, KnownCounter::Junk, false),
            total: RspamdStatElement::new(nelts, KnownCounter::Total, false),
            avg_time: RspamdStatElement::new(nelts, KnownCounter::AvgTime, true),
        }
    }

    /// Takes in one report, `elapsed_ms` milliseconds after the one before.
    ///
    /// A report without counts fails with `MissingField` and changes
    /// nothing. Else each rate series sees its scaled total, the series of
    /// all messages sees the sum of the three, and the gauge sees the mean
    /// scan time if the report holds a sample. The first update that fails
    /// ends the cycle with `DivisionByZero`.
    pub fn update_from_snapshot(&mut self, snapshot: &Snapshot, elapsed_ms: usize) -> (r: Result<
        (),
        AggregationError,
    >)
        requires
            old(self)@.wf(),
            snapshot@.wf(),
        ensures
            final(self)@.wf(),
            final(self)@ == old(self)@.advance(snapshot@, elapsed_ms),
            r == old(self)@.outcome(snapshot@, elapsed_ms),
            r == (if snapshot@.actions is None {
                Err::<(), AggregationError>(AggregationError::MissingField)
            } else if elapsed_ms == 0 {
                Err(AggregationError::DivisionByZero)
            } else {
                Ok(())
            }),
    {
        let actions = match &snapshot.actions {
            Some(a) => a,
            None => {
                return Err(AggregationError::MissingField);
            },
        };
        proof {
            lemma_scaled_total_bounds(actions.spam@, RATE_SCALE);
            lemma_scaled_total_bounds(actions.ham@, RATE_SCALE);
            lemma_scaled_total_bounds(actions.junk@, RATE_SCALE);
        }
        let spam_cnt = match update_specific(
            &mut self.spam_stats,
            &actions.spam,
            elapsed_ms,
            RATE_SCALE,
        ) {
            Ok(c) => c,
            Err(_) => {
                return Err(AggregationError::DivisionByZero);
            },
        };
        let ham_cnt = match update_specific(&mut self.ham_stats, &actions.ham, elapsed_ms, RATE_SCALE) {
            Ok(c) => c,
            Err(_) => {
                return Err(AggregationError::DivisionByZero);
            },
        };
        let junk_cnt = match update_specific(
            &mut self.junk_stats,
            &actions.junk,
            elapsed_ms,
            RATE_SCALE,
        ) {
            Ok(c) => c,
            Err(_) => {
                return Err(AggregationError::DivisionByZero);
            },
        };
        if self.total.update(spam_cnt + ham_cnt + junk_cnt, elapsed_ms).is_err() {
            return Err(AggregationError::DivisionByZero);
        }
        if let Some(entries) = &snapshot.scan_times {
            if let Some(avg_time) = average_micros(entries) {
                if self.avg_time.update(avg_time, elapsed_ms).is_err() {
                    return Err(AggregationError::DivisionByZero);
                }
            }
        }
        Ok(())
    }

    /// Update stats from JSON received from Rspamd, `elapsed_ms`
    /// milliseconds after the report before: the report is read into a
    /// snapshot, and the snapshot taken in.
    pub fn update_from_json(&mut self, json: Value, elapsed_ms: usize) -> (r: Result<
        (),
        AggregationError,
    >)
        requires
            old(self)@.wf(),
        ensures
            final(self)@.wf(),
            final(self)@ == old(self)@.advance(json_snapshot(json), elapsed_ms),
            r == old(self)@.outcome(json_snapshot(json), elapsed_ms),
            r == (if json_member(json, "actions"@) is None {
                Err::<(), AggregationError>(AggregationError::MissingField)
            } else if elapsed_ms == 0 {
                Err(AggregationError::DivisionByZero)
            } else {
                Ok(())
            }),
    {
        let snapshot = read_snapshot(&json);
        self.update_from_snapshot(&snapshot, elapsed_ms)
    }

    /// The series of rejected messages.
    pub fn spam_stats(&self) -> (elt: &RspamdStatElement)
        ensures
            elt@ == self@.spam,
    {
        &self.spam_stats
    }

    /// The series of clean messages.
    pub fn ham_stats(&self) -> (elt: &RspamdStatElement)
        ensures
            elt@ == self@.ham,
    {
        &self.ham_stats
    }

    /// The series of flagged messages.
    pub fn junk_stats(&self) -> (elt: &RspamdStatElement)
        ensures
            elt@ == self@.junk,
    {
        &self.junk_stats
    }

    /// The series of all messages.
    pub fn total(&self) -> (elt: &RspamdStatElement)
        ensures
            elt@ == self@.total,
    {
        &self.total
    }

    /// The series of the mean scan time.
    pub fn avg_time(&self) -> (elt: &RspamdStatElement)
        ensures
            elt@ == self@.avg_time,
    {
        &self.avg_time
    }
}

} // verus!
