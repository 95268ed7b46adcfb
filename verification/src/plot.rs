//! What a chart of the statistics shows: for each series that has values, a
//! frame with its place on the screen, its values and their summary.

use vstd::prelude::*;
use std::collections::VecDeque;
use crate::series::{RspamdStatElement, SeriesView};
use crate::stats::{RspamdStat, StatView};
use crate::value::{lemma_ratio_le_transitive, ratio_le, Ratio};

verus! {

/// The screen lines between one chart and the next, besides the chart's
/// height.
pub const FRAME_MARGIN: u16 = 3;

/// Whether the value at `k` is the least of the sequence, and the first such.
pub open spec fn first_least_at(values: Seq<Ratio>, k: int) -> bool {
    &&& 0 <= k < values.len()
    &&& forall|j: int| 0 <= j < values.len() ==> ratio_le(values[k], #[trigger] values[j])
    &&& forall|j: int| 0 <= j < k ==> !ratio_le(#[trigger] values[j], values[k])
}

/// Whether the value at `k` is the greatest of the sequence, and the last
/// such.
pub open spec fn last_greatest_at(values: Seq<Ratio>, k: int) -> bool {
    &&& 0 <= k < values.len()
    &&& forall|j: int| 0 <= j < values.len() ==> ratio_le(#[trigger] values[j], values[k])
    &&& forall|j: int| k < j < values.len() ==> !ratio_le(values[k], #[trigger] values[j])
}

/// The newest, the least and the greatest value of a window.
#[derive(Clone, Copy, Debug, PartialEq, Eq, Structural)]
pub struct Summary {
    pub last: Ratio,
    pub min: Ratio,
    pub max: Ratio,
}

/// Whether a summary is that of the values: their last, the first of their
/// least and the last of their greatest.
pub open spec fn summary_of(values: Seq<Ratio>, summary: Summary) -> bool {
    &&& values.len() > 0
    &&& summary.last == values.last()
    &&& exists|k: int| first_least_at(values, k) && summary.min == values[k]
    &&& exists|k: int| last_greatest_at(values, k) && summary.max == values[k]
}

/// The summary of a window, or none where the window is empty.
pub fn summarize(values: &VecDeque<Ratio>) -> (s: Option<Summary>)
    requires
        forall|i: int| 0 <= i < values@.len() ==> (#[trigger] values@[i]).divisor > 0,
    ensures
        values@.len() == 0 ==> s is None,
        values@.len() > 0 ==> s is Some && summary_of(values@, s.unwrap()),
{
    if values.len() == 0 {
        return None;
    }
    let mut min = values[0];
    let mut max = values[0];
    let ghost mut at_min: int = 0;
    let ghost mut at_max: int = 0;
    let mut i: usize = 1;
    while i < values.len()
        invariant
            1 <= i <= values@.len(),
            forall|j: int| 0 <= j < values@.len() ==> (#[trigger] values@[j]).divisor > 0,
            first_least_at(values@.subrange(0, i as int), at_min),
            last_greatest_at(values@.subrange(0, i as int), at_max),
            min == values@[at_min],
            max == values@[at_max],
        decreases values@.len() - i,
    {
        let value = values[i];
        let ghost before = values@.subrange(0, i as int);
        let ghost after = values@.subrange(0, i + 1);
        let lower = !min.le(&value);
        let higher = max.le(&value);
        proof {
            assert(forall|j: int| 0 <= j < i ==> before[j] == after[j]);
            assert(after[i as int] == value);
            if lower {
                assert forall|j: int| 0 <= j < after.len() implies ratio_le(
                    value,
                    #[trigger] after[j],
                ) by {
                    if j < i {
                        assert(ratio_le(min, before[j]));
                        lemma_ratio_le_transitive(value, min, after[j]);
                    }
                }
                assert forall|j: int| 0 <= j < i implies !ratio_le(#[trigger] after[j], value) by {
                    if ratio_le(after[j], value) {
                        assert(ratio_le(min, before[j]));
                        lemma_ratio_le_transitive(min, after[j], value);
                    }
                }
                at_min = i as int;
            } else {
                assert forall|j: int| 0 <= j < after.len() implies ratio_le(
                    after[at_min],
                    #[trigger] after[j],
                ) by {
                    if j < i {
                        assert(ratio_le(before[at_min], before[j]));
                    }
                }
                assert forall|j: int| 0 <= j < at_min implies !ratio_le(
                    #[trigger] after[j],
                    after[at_min],
                ) by {
                    assert(!ratio_le(before[j], before[at_min]));
                }
            }
            if higher {
                assert forall|j: int| 0 <= j < after.len() implies ratio_le(
                    #[trigger] after[j],
                    value,
                ) by {
                    if j < i {
                        assert(ratio_le(before[j], max));
                        lemma_ratio_le_transitive(after[j], max, value);
                    }
                }
                at_max = i as int;
            } else {
                assert forall|j: int| 0 <= j < after.len() implies ratio_le(
                    #[trigger] after[j],
                    after[at_max],
                ) by {
                    if j < i {
                        assert(ratio_le(before[j], before[at_max]));
                    }
                }
                assert forall|j: int| at_max < j < after.len() implies !ratio_le(
                    after[at_max],
                    #[trigger] after[j],
                ) by {
                    if j < i {
                        assert(!ratio_le(before[at_max], before[j]));
                    }
                }
            }
        }
        if lower {
            min = value;
        }
        if higher {
            max = value;
        }
        i = i + 1;
    }
    proof {
        assert(values@.subrange(0, i as int) =~= values@);
    }
    Some(Summary { last: values[values.len() - 1], min, max })
}

/// One chart: a series that has values, and where it is drawn.
pub struct PlotFrame {
    /// The label of the series.
    pub label: &'static str,
    /// The screen line at which the chart begins.
    pub line: u16,
    /// The height of the chart.
    pub height: u32,
    /// The width of the chart: the capacity of the window, as far as it fits.
    pub width: u32,
    /// The values of the window, oldest first.
    pub values: Vec<Ratio>,
    /// Their summary.
    pub summary: Summary,
}

/// Whether a frame shows the series as the chart of the given row.
pub open spec fn frame_of(series: SeriesView, row: int, max_height: u16, frame: PlotFrame) -> bool {
    &&& frame.label@ == series.label
    &&& frame.line == row * (max_height + FRAME_MARGIN)
    &&& frame.height == max_height
    &&& frame.width == if series.capacity > u32::MAX {
        u32::MAX as nat
    } else {
        series.capacity
    }
    &&& frame.values@ == series.history
    &&& summary_of(series.history, frame.summary)
}

/// Prepares the chart of a series for the given row. A series without values
/// gets no chart, and the row stays free for the next series. Returns the row
/// of the next chart, and the frame if there is one.
pub fn show_specific_counter(elt: &RspamdStatElement, row: u16, max_height: u16) -> (r: (
    u16,
    Option<PlotFrame>,
))
    requires
        elt.wf(),
        elt@.history.len() > 0 ==> row < u16::MAX && max_height + FRAME_MARGIN <= u16::MAX && row
            * (max_height + FRAME_MARGIN) <= u16::MAX,
    ensures
        elt@.history.len() == 0 ==> r.0 == row && r.1 is None,
        elt@.history.len() > 0 ==> r.0 == row + 1 && r.1 is Some && frame_of(
            elt@,
            row as int,
            max_height,
            r.1.unwrap(),
        ),
{
    let summary = match summarize(&elt.values) {
        Some(summary) => summary,
        None => {
            return (row, None);
        },
    };
    let mut values: Vec<Ratio> = Vec::new();
    let mut i: usize = 0;
    while i < elt.values.len()
        invariant
            i <= elt.values@.len(),
            values@ == elt.values@.subrange(0, i as int),
        decreases elt.values@.len() - i,
    {
        values.push(elt.values[i]);
        i = i + 1;
        assert(values@ =~= elt.values@.subrange(0, i as int));
    }
    assert(values@ =~= elt.values@);
    let width: u32 = if elt.nelts() > 0xffff_ffff {
        0xffff_ffff
    } else {
        elt.nelts() as u32
    };
    let frame = PlotFrame {
        label: elt.label(),
        line: row * (max_height + FRAME_MARGIN),
        height: max_height as u32,
        width,
        values,
        summary,
    };
    (row + 1, Some(frame))
}

/// The series among the given ones that have values, in their order.
pub open spec fn charted(all: Seq<SeriesView>) -> Seq<SeriesView>
    decreases all.len(),
{
    if all.len() == 0 {
        Seq::empty()
    } else if all.last().history.len() > 0 {
        charted(all.drop_last()).push(all.last())
    } else {
        charted(all.drop_last())
    }
}

/// Whether the frames are the charts of the series that have values, one
/// below the other from the first row.
pub open spec fn frames_of(all: Seq<SeriesView>, max_height: u16, frames: Seq<PlotFrame>) -> bool {
    &&& frames.len() == charted(all).len()
    &&& forall|k: int|
        0 <= k < frames.len() ==> frame_of(charted(all)[k], k, max_height, #[trigger] frames[k])
}

impl StatView {
    /// The five series in the order in which they are drawn.
    pub open spec fn drawn(self) -> Seq<SeriesView> {
        seq![self.spam, self.ham, self.junk, self.total, self.avg_time]
    }
}

/// Adds the chart of one more series to the frames.
fn add_frame(
    frames: &mut Vec<PlotFrame>,
    elt: &RspamdStatElement,
    max_height: u16,
    Ghost(done): Ghost<Seq<SeriesView>>,
)
    requires
        elt.wf(),
        done.len() < 5,
        5 * (max_height + FRAME_MARGIN) <= u16::MAX,
        frames_of(done, max_height, old(frames)@),
    ensures
        frames_of(done.push(elt@), max_height, final(frames)@),
{
    proof {
        lemma_charted_is_no_longer(done);
        assert(done.push(elt@).drop_last() =~= done);
        assert(frames@.len() * (max_height + FRAME_MARGIN) <= 5 * (max_height + FRAME_MARGIN))
            by (nonlinear_arith)
            requires
                frames@.len() <= 5,
        ;
    }
    let row = frames.len() as u16;
    let shown = show_specific_counter(elt, row, max_height);
    if let Some(frame) = shown.1 {
        frames.push(frame);
    }
}

/// No more series are charted than there are.
proof fn lemma_charted_is_no_longer(all: Seq<SeriesView>)
    ensures
        charted(all).len() <= all.len(),
    decreases all.len(),
{
    if all.len() > 0 {
        lemma_charted_is_no_longer(all.drop_last());
    }
}

impl RspamdStat {
    /// Prepares the chart of the statistics: a frame for each series that
    /// has values, in the order rejected, clean, flagged, all, mean scan
    /// time, each `max_height` and three lines below the one before.
    pub fn display_plot(&self, max_height: u16) -> (frames: Vec<PlotFrame>)
        requires
            self@.wf(),
            5 * (max_height + FRAME_MARGIN) <= u16::MAX,
        ensures
            frames_of(self@.drawn(), max_height, frames@),
    {
        let mut frames: Vec<PlotFrame> = Vec::new();
        let ghost mut done: Seq<SeriesView> = Seq::empty();
        add_frame(&mut frames, self.spam_stats(), max_height, Ghost(done));
        proof {
            done = done.push(self@.spam);
        }
        add_frame(&mut frames, self.ham_stats(), max_height, Ghost(done));
        proof {
            done = done.push(self@.ham);
        }
        add_frame(&mut frames, self.junk_stats(), max_height, Ghost(done));
        proof {
            done = done.push(self@.junk);
        }
        add_frame(&mut frames, self.total(), max_height, Ghost(done));
        proof {
            done = done.push(self@.total);
        }
        add_frame(&mut frames, self.avg_time(), max_height, Ghost(done));
        proof {
            done = done.push(self@.avg_time);
            assert(done =~= self@.drawn());
        }
        frames
    }
}

} // verus!
