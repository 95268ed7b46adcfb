//! A series: one counter and the rolling window of what it has derived.

use vstd::prelude::*;
use std::collections::VecDeque;
use crate::counters::{label_of, reading_of, AnyCounter, DivisionByZero, KnownCounter};
use crate::value::{Ratio, Reading};

verus! {

/// A window after it has taken in one more value: with room left the value
/// is appended, in a full window the oldest value leaves first, and a window
/// of capacity zero keeps nothing.
pub open spec fn retain(history: Seq<Ratio>, capacity: nat, value: Ratio) -> Seq<Ratio> {
    if capacity == 0 {
        history
    } else if history.len() >= capacity {
        history.subrange(history.len() - capacity + 1, history.len() as int).push(value)
    } else {
        history.push(value)
    }
}

/// A series as its contracts see it.
pub struct SeriesView {
    /// Whether the counter is a gauge.
    pub gauge: bool,
    /// The raw value of the latest update.
    pub previous: Option<i128>,
    /// The derived values that the window holds, oldest first.
    pub history: Seq<Ratio>,
    /// How many derived values the window can hold.
    pub capacity: nat,
    /// The label of the counter.
    pub label: Seq<char>,
}

impl SeriesView {
    /// A series that has seen no update.
    pub open spec fn fresh(capacity: nat, gauge: bool, label: Seq<char>) -> SeriesView {
        SeriesView { gauge, previous: None, history: Seq::empty(), capacity, label }
    }

    /// What the next update yields.
    pub open spec fn reading(self, value: i128, ms: usize) -> Result<Reading, DivisionByZero> {
        reading_of(self.gauge, self.previous, value, ms)
    }

    /// The series after an update: the raw value is recorded in any case, and
    /// the window takes in what the update yields, if it yields a value.
    pub open spec fn step(self, value: i128, ms: usize) -> SeriesView {
        SeriesView {
            previous: Some(value),
            history: match self.reading(value, ms) {
                Ok(Reading::Value(q)) => retain(self.history, self.capacity, q),
                _ => self.history,
            },
            ..self
        }
    }

    /// The series after a run of updates, each a raw value and the
    /// milliseconds since the one before.
    pub open spec fn run(self, updates: Seq<(i128, usize)>) -> SeriesView
        decreases updates.len(),
    {
        if updates.len() == 0 {
            self
        } else {
            self.run(updates.drop_last()).step(updates.last().0, updates.last().1)
        }
    }

    /// The window holds no more than its capacity, and each value in it has
    /// a positive divisor.
    pub open spec fn wf(self) -> bool {
        &&& self.history.len() <= self.capacity
        &&& forall|i: int| 0 <= i < self.history.len() ==> (#[trigger] self.history[i]).divisor > 0
    }
}

/// Used to track each action.
pub struct RspamdStatElement {
    pub values: VecDeque<Ratio>,
    pub counter: AnyCounter,
    pub nelts: usize,
}

impl View for RspamdStatElement {
    type V = SeriesView;

    open spec fn view(&self) -> SeriesView {
        SeriesView {
            gauge: self.counter.is_gauge(),
            previous: self.counter.previous(),
            history: self.values@,
            capacity: self.nelts as nat,
            label: self.counter.label_text(),
        }
    }
}

impl RspamdStatElement {
    /// The window holds no more than `nelts` values, each with a positive
    /// divisor.
    pub open spec fn wf(&self) -> bool {
        self@.wf()
    }

    /// Creates a new stat element: a window of `nelts` values, empty, and a
    /// counter that has seen nothing, a gauge or a rate counter.
    pub fn new(nelts: usize, action: KnownCounter, is_gauge: bool) -> (elt: Self)
        ensures
            elt.wf(),
            elt@ == SeriesView::fresh(nelts as nat, is_gauge, label_of(action)@),
    {
        let label: &'static str = action.into();
        let counter = AnyCounter::create(label, is_gauge);
        Self { values: VecDeque::new(), counter, nelts }
    }

    /// Hands a raw value and the milliseconds since the last one to the
    /// counter. A derived value enters the window, from which the oldest
    /// value leaves if it is full; the marker of a first sample and a failure
    /// leave the window as it is. Returns what the counter returned.
    pub fn update(&mut self, value: i128, elapsed_ms: usize) -> (r: Result<Reading, DivisionByZero>)
        requires
            old(self).wf(),
        ensures
            final(self).wf(),
            final(self)@ == old(self)@.step(value, elapsed_ms),
            r == old(self)@.reading(value, elapsed_ms),
    {
        let nv = self.counter.update(value, elapsed_ms)?;
        if let Reading::Value(q) = nv {
            if self.nelts > 0 {
                // Expire one
                if self.values.len() >= self.nelts {
                    self.values.pop_front();
                }
                self.values.push_back(q);
            }
        }
        Ok(nv)
    }

    /// The capacity of the window.
    pub fn nelts(&self) -> (n: usize)
        ensures
            n == self@.capacity,
    {
        self.nelts
    }

    /// The derived values that the window holds, oldest first.
    pub fn history(&self) -> (h: &VecDeque<Ratio>)
        ensures
            h@ == self@.history,
    {
        &self.values
    }

    /// The label of the counter.
    pub fn label(&self) -> (l: &'static str)
        ensures
            l@ == self@.label,
    {
        self.counter.label()
    }
}

/// The derived values of a run of updates on a series that had seen none,
/// in the order of the updates. A gauge derives one from every update, a rate
/// counter one from every update but the first.
pub open spec fn derived(gauge: bool, updates: Seq<(i128, usize)>) -> Seq<Ratio> {
    if gauge {
        Seq::new(updates.len(), |i: int| Ratio::of(updates[i].0 as int, 1))
    } else {
        Seq::new(
            if updates.len() == 0 {
                0
            } else {
                (updates.len() - 1) as nat
            },
            |i: int| Ratio::of(updates[i + 1].0 - updates[i].0, updates[i + 1].1),
        )
    }
}

/// The last `capacity` values of a sequence, or all of it if it is shorter.
pub open spec fn newest(values: Seq<Ratio>, capacity: nat) -> Seq<Ratio> {
    if values.len() <= capacity {
        values
    } else {
        values.subrange(values.len() - capacity, values.len() as int)
    }
}

/// Whether every update of a run comes after an interval above zero.
pub open spec fn intervals_positive(updates: Seq<(i128, usize)>) -> bool {
    forall|i: int| 0 <= i < updates.len() ==> (#[trigger] updates[i]).1 > 0
}

/// The first update of a rate series stores nothing, whatever the raw value
/// and the interval.
pub proof fn lemma_first_rate_update_stores_nothing(series: SeriesView, value: i128, ms: usize)
    requires
        !series.gauge,
        series.previous is None,
    ensures
        series.step(value, ms).history == series.history,
        series.step(value, ms).previous == Some(value),
{
}

/// An update of a rate series over an interval of zero milliseconds fails,
/// leaves the window as it is, and still records the raw value.
pub proof fn lemma_zero_interval_fails_and_advances(series: SeriesView, value: i128)
    requires
        !series.gauge,
    ensures
        series.reading(value, 0) == Err::<Reading, DivisionByZero>(DivisionByZero),
        series.step(value, 0).history == series.history,
        series.step(value, 0).previous == Some(value),
{
}

/// A gauge yields the raw value itself, whatever the interval, zero
/// included, and whatever came before.
pub proof fn lemma_gauge_passes_value_through(series: SeriesView, value: i128, ms: usize)
    requires
        series.gauge,
    ensures
        series.reading(value, ms) == Ok::<Reading, DivisionByZero>(
            Reading::Value(Ratio::of(value as int, 1)),
        ),
        series.reading(value, ms) == series.reading(value, 0),
        Ratio::of(value as int, 1).numerator() == value,
{
}

/// An update never lets the window grow beyond its capacity.
pub proof fn lemma_window_never_exceeds_capacity(series: SeriesView, value: i128, ms: usize)
    requires
        series.wf(),
    ensures
        series.step(value, ms).wf(),
        series.step(value, ms).capacity == series.capacity,
{
}

/// After any run of updates, a series that began empty holds no more values
/// than its capacity.
pub proof fn lemma_run_never_exceeds_capacity(series: SeriesView, updates: Seq<(i128, usize)>)
    requires
        series.wf(),
    ensures
        series.run(updates).wf(),
        series.run(updates).capacity == series.capacity,
        series.run(updates).gauge == series.gauge,
    decreases updates.len(),
{
    if updates.len() > 0 {
        lemma_run_never_exceeds_capacity(series, updates.drop_last());
    }
}

/// After a run of updates that all succeed, a series that had seen none
/// holds the newest of the values derived from them, as many as its capacity
/// allows, oldest first.
pub proof fn lemma_run_keeps_newest(
    capacity: nat,
    gauge: bool,
    label: Seq<char>,
    updates: Seq<(i128, usize)>,
)
    requires
        gauge || intervals_positive(updates),
    ensures
        SeriesView::fresh(capacity, gauge, label).run(updates).history == newest(
            derived(gauge, updates),
            capacity,
        ),
        updates.len() > 0 ==> SeriesView::fresh(capacity, gauge, label).run(updates).previous
            == Some(updates.last().0),
        updates.len() == 0 ==> SeriesView::fresh(capacity, gauge, label).run(updates).previous
            is None,
    decreases updates.len(),
{
    let fresh = SeriesView::fresh(capacity, gauge, label);
    if updates.len() == 0 {
        assert(derived(gauge, updates) =~= Seq::<Ratio>::empty());
    } else {
        let before = updates.drop_last();
        lemma_run_keeps_newest(capacity, gauge, label, before);
        lemma_run_never_exceeds_capacity(fresh, before);
        let mid = fresh.run(before);
        let old_all = derived(gauge, before);
        let new_all = derived(gauge, updates);
        if !gauge && before.len() == 0 {
            assert(new_all =~= Seq::<Ratio>::empty());
            assert(old_all =~= Seq::<Ratio>::empty());
        } else {
            let q = if gauge {
                Ratio::of(updates.last().0 as int, 1)
            } else {
                Ratio::of(updates.last().0 - before.last().0, updates.last().1)
            };
            assert(mid.reading(updates.last().0, updates.last().1) == Ok::<Reading, DivisionByZero>(
                Reading::Value(q),
            ));
            assert(new_all =~= old_all.push(q));
            assert(retain(newest(old_all, capacity), capacity, q) =~= newest(
                old_all.push(q),
                capacity,
            ));
        }
    }
}

/// Of at most `capacity` rate updates that succeed after the first one, each
/// leaves in the window the change of the raw value over its interval: the
/// window holds them all, in order.
pub proof fn lemma_rate_history_is_differences(
    capacity: nat,
    label: Seq<char>,
    updates: Seq<(i128, usize)>,
)
    requires
        intervals_positive(updates),
        1 <= updates.len() <= capacity + 1,
    ensures
        SeriesView::fresh(capacity, false, label).run(updates).history.len() == updates.len() - 1,
        forall|i: int|
            0 <= i < updates.len() - 1 ==> {
                let value = #[trigger] SeriesView::fresh(capacity, false, label).run(
                    updates,
                ).history[i];
                &&& value == Ratio::of(updates[i + 1].0 - updates[i].0, updates[i + 1].1)
                &&& value.numerator() == updates[i + 1].0 - updates[i].0
                &&& value.divisor == updates[i + 1].1
            },
{
    lemma_run_keeps_newest(capacity, false, label, updates);
}

/// Once a series has seen one update more than its capacity, all of them
/// successful, the oldest value in its window is the one derived from the
/// second update: what the first update may have left is gone.
pub proof fn lemma_oldest_value_leaves_first(
    capacity: nat,
    gauge: bool,
    label: Seq<char>,
    updates: Seq<(i128, usize)>,
)
    requires
        gauge || intervals_positive(updates),
        capacity >= 1,
        updates.len() == capacity + 1,
    ensures
        SeriesView::fresh(capacity, gauge, label).run(updates).history.len() == capacity,
        SeriesView::fresh(capacity, gauge, label).step(updates[0].0, updates[0].1).reading(
            updates[1].0,
            updates[1].1,
        ) == Ok::<Reading, DivisionByZero>(
            Reading::Value(SeriesView::fresh(capacity, gauge, label).run(updates).history[0]),
        ),
{
    lemma_run_keeps_newest(capacity, gauge, label, updates);
}

} // verus!
