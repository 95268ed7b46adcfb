//! Counters: the stateful transforms from raw values to derived ones.

use vstd::prelude::*;
use vstd::std_specs::convert::FromSpecImpl;
use crate::value::{Ratio, Reading};

verus! {

/// The failure of a rate update over an interval of zero milliseconds.
#[derive(Clone, Copy, Debug, PartialEq, Eq, Structural)]
pub struct DivisionByZero;

impl DivisionByZero {
    /// The text that describes the failure.
    pub fn message(&self) -> (m: &'static str)
        ensures
            m@ == "division by zero"@,
    {
        "division by zero"
    }
}

/// What a counter keeps between updates.
pub struct CounterData<T> {
    /// The raw value of the latest update, absent before the first one.
    cur_value: Option<T>,
    /// Label for a counter.
    label: &'static str,
}

impl<T> CounterData<T> {
    /// The raw value of the latest update.
    pub closed spec fn current(&self) -> Option<T> {
        self.cur_value
    }

    /// The label, as text.
    pub closed spec fn label_text(&self) -> Seq<char> {
        self.label@
    }
}

/// What a gauge yields for a raw value: the value itself, whatever came
/// before and however long ago.
pub open spec fn gauge_reading(new_value: i128) -> Result<Reading, DivisionByZero> {
    Ok(Reading::Value(Ratio::of(new_value as int, 1)))
}

/// What a rate counter yields: a failure over an interval of zero
/// milliseconds, else nothing for the first raw value, else the change since
/// the previous raw value per millisecond.
pub open spec fn rate_reading(previous: Option<i128>, new_value: i128, ms: usize) -> Result<
    Reading,
    DivisionByZero,
> {
    if ms == 0 {
        Err(DivisionByZero)
    } else {
        match previous {
            None => Ok(Reading::Unavailable),
            Some(p) => Ok(Reading::Value(Ratio::of(new_value - p, ms))),
        }
    }
}

/// A counter: it takes one raw value per polling cycle and derives a reading
/// from it.
pub trait Counter<T>: Sized {
    /// The raw value most recently supplied, absent before the first update.
    spec fn previous(&self) -> Option<T>;

    /// The label, as text.
    spec fn label_text(&self) -> Seq<char>;

    /// What an update yields, given the raw value before it.
    spec fn reading(previous: Option<T>, new_value: T, ms: usize) -> Result<Reading, DivisionByZero>;

    /// Update for new value. The raw value is recorded whether or not a
    /// reading comes out.
    fn update(&mut self, new_value: T, ms: usize) -> (r: Result<Reading, DivisionByZero>)
        ensures
            final(self).previous() == Some(new_value),
            final(self).label_text() == old(self).label_text(),
            r == Self::reading(old(self).previous(), new_value, ms),
    ;

    /// Creates a new counter, which has seen no raw value.
    fn new(label: &'static str) -> (c: Self)
        ensures
            c.previous() is None,
            c.label_text() == label@,
    ;

    /// The label that the counter was created with.
    fn label(&self) -> (l: &'static str)
        ensures
            l@ == self.label_text(),
    ;
}

/// A counter which is used to represent gauge.
pub struct GaugeCounter(CounterData<i128>);

impl Counter<i128> for GaugeCounter {
    closed spec fn previous(&self) -> Option<i128> {
        self.0.current()
    }

    closed spec fn label_text(&self) -> Seq<char> {
        self.0.label_text()
    }

    open spec fn reading(previous: Option<i128>, new_value: i128, ms: usize) -> Result<
        Reading,
        DivisionByZero,
    > {
        gauge_reading(new_value)
    }

    fn update(&mut self, new_value: i128, _ms: usize) -> (r: Result<Reading, DivisionByZero>) {
        self.0.cur_value = Some(new_value);
        Ok(Reading::Value(Ratio::whole(new_value)))
    }

    fn new(label: &'static str) -> (c: Self) {
        Self(CounterData { cur_value: None, label })
    }

    fn label(&self) -> (l: &'static str) {
        self.0.label
    }
}

/// A counter that checks the difference.
pub struct DiffCounter(CounterData<i128>);

impl Counter<i128> for DiffCounter {
    closed spec fn previous(&self) -> Option<i128> {
        self.0.current()
    }

    closed spec fn label_text(&self) -> Seq<char> {
        self.0.label_text()
    }

    open spec fn reading(previous: Option<i128>, new_value: i128, ms: usize) -> Result<
        Reading,
        DivisionByZero,
    > {
        rate_reading(previous, new_value, ms)
    }

    fn update(&mut self, new_value: i128, ms: usize) -> (r: Result<Reading, DivisionByZero>) {
        let old_value = self.0.cur_value;
        self.0.cur_value = Some(new_value);
        if ms == 0 {
            return Err(DivisionByZero);
        }
        match old_value {
            None => Ok(Reading::Unavailable),
            Some(p) => Ok(Reading::Value(Ratio::between(p, new_value, ms))),
        }
    }

    fn new(label: &'static str) -> (c: Self) {
        Self(CounterData { cur_value: None, label })
    }

    fn label(&self) -> (l: &'static str) {
        self.0.label
    }
}

/// What a counter of either kind yields for a raw value.
pub open spec fn reading_of(gauge: bool, previous: Option<i128>, new_value: i128, ms: usize) -> Result<
    Reading,
    DivisionByZero,
> {
    if gauge {
        gauge_reading(new_value)
    } else {
        rate_reading(previous, new_value, ms)
    }
}

/// One of the two counters, chosen when a series is created.
pub enum AnyCounter {
    Gauge(GaugeCounter),
    Diff(DiffCounter),
}

impl AnyCounter {
    /// Whether this is the gauge.
    pub open spec fn is_gauge(&self) -> bool {
        *self is Gauge
    }

    /// The raw value most recently supplied, absent before the first update.
    pub open spec fn previous(&self) -> Option<i128> {
        match *self {
            AnyCounter::Gauge(c) => c.previous(),
            AnyCounter::Diff(c) => c.previous(),
        }
    }

    /// The label, as text.
    pub open spec fn label_text(&self) -> Seq<char> {
        match *self {
            AnyCounter::Gauge(c) => c.label_text(),
            AnyCounter::Diff(c) => c.label_text(),
        }
    }

    /// Creates a counter that has seen no raw value: a gauge or a rate
    /// counter.
    pub fn create(label: &'static str, is_gauge: bool) -> (c: Self)
        ensures
            c.is_gauge() == is_gauge,
            c.previous() is None,
            c.label_text() == label@,
    {
        if is_gauge {
            AnyCounter::Gauge(GaugeCounter::new(label))
        } else {
            AnyCounter::Diff(DiffCounter::new(label))
        }
    }

    /// Hands the raw value to the counter and returns what it yields.
    pub fn update(&mut self, new_value: i128, ms: usize) -> (r: Result<Reading, DivisionByZero>)
        ensures
            final(self).is_gauge() == old(self).is_gauge(),
            final(self).previous() == Some(new_value),
            final(self).label_text() == old(self).label_text(),
            r == reading_of(old(self).is_gauge(), old(self).previous(), new_value, ms),
    {
        match self {
            AnyCounter::Gauge(c) => c.update(new_value, ms),
            AnyCounter::Diff(c) => c.update(new_value, ms),
        }
    }

    /// The label that the counter was created with.
    pub fn label(&self) -> (l: &'static str)
        ensures
            l@ == self.label_text(),
    {
        match self {
            AnyCounter::Gauge(c) => c.label(),
            AnyCounter::Diff(c) => c.label(),
        }
    }
}

/// Counters we support.
#[derive(Clone, Copy, Debug, PartialEq, Eq, Structural)]
pub enum KnownCounter {
    Ham,
    Spam,
    Junk,
    Total,
    AvgTime,
    Unknown,
}

/// The label under which a counter is shown.
pub open spec fn label_of(a: KnownCounter) -> &'static str {
    match a {
        KnownCounter::Ham => "ham msg/sec",
        KnownCounter::Spam => "spam msg/sec",
        KnownCounter::Junk => "junk msg/sec",
        KnownCounter::Total => "total msg/sec",
        KnownCounter::AvgTime => "average_time sec",
        KnownCounter::Unknown => "unknown",
    }
}

impl From<KnownCounter> for &'static str {
    fn from(a: KnownCounter) -> (l: &'static str) {
        match a {
            KnownCounter::Ham => "ham msg/sec",
            KnownCounter::Spam => "spam msg/sec",
            KnownCounter::Junk => "junk msg/sec",
            KnownCounter::Total => "total msg/sec",
            KnownCounter::AvgTime => "average_time sec",
            KnownCounter::Unknown => "unknown",
        }
    }
}

impl FromSpecImpl<KnownCounter> for &'static str {
    open spec fn obeys_from_spec() -> bool {
        true
    }

    open spec fn from_spec(a: KnownCounter) -> &'static str {
        label_of(a)
    }
}

/// The counter that an action of the filter is counted under, by the
/// action's name as the filter reports it.
pub open spec fn counter_of(name: Seq<char>) -> KnownCounter {
    if name == "no action"@ || name == "no_action"@ {
        KnownCounter::Ham
    } else if name == "total"@ {
        KnownCounter::Total
    } else if name == "add header"@ || name == "add_header"@ || name == "rewrite subject"@ || name
        == "rewrite_subject"@ {
        KnownCounter::Junk
    } else {
        KnownCounter::Unknown
    }
}

/// Whether two pieces of text are the same.
fn same_text(a: &str, b: &str) -> (same: bool)
    ensures
        same == (a@ == b@),
{
    a.to_owned() == b.to_owned()
}

impl From<&'static str> for KnownCounter {
    fn from(s: &'static str) -> (c: KnownCounter) {
        if same_text(s, "no action") || same_text(s, "no_action") {
            KnownCounter::Ham
        } else if same_text(s, "total") {
            KnownCounter::Total
        } else if same_text(s, "add header") || same_text(s, "add_header") || same_text(
            s,
            "rewrite subject",
        ) || same_text(s, "rewrite_subject") {
            KnownCounter::Junk
        } else {
            KnownCounter::Unknown
        }
    }
}

impl FromSpecImpl<&'static str> for KnownCounter {
    open spec fn obeys_from_spec() -> bool {
        true
    }

    open spec fn from_spec(s: &'static str) -> KnownCounter {
        counter_of(s@)
    }
}

} // verus!
