//! What the library reads of one report of the filter, and how it reads it
//! from the report as decoded from JSON.

use vstd::prelude::*;
use serde_json::Value;
use crate::json::{
    as_count, double_bits, elements, json_double_bits, json_elements, json_member, json_u64, member,
};
use crate::samples::{mean, samples};

verus! {

/// The most counts that one metric is summed from.
pub const MAX_SOURCES: usize = 0xffff;

/// The counts found in a report under the source fields of each rate metric,
/// in the order of the fields. A field that the report lacks, or whose value
/// is no unsigned integer, has no count.
pub struct ActionCounts {
    pub spam: Vec<Option<u64>>,
    pub ham: Vec<Option<u64>>,
    pub junk: Vec<Option<u64>>,
}

/// `ActionCounts` as contracts see it.
pub struct ActionCountsView {
    pub spam: Seq<Option<u64>>,
    pub ham: Seq<Option<u64>>,
    pub junk: Seq<Option<u64>>,
}

impl View for ActionCounts {
    type V = ActionCountsView;

    open spec fn view(&self) -> ActionCountsView {
        ActionCountsView { spam: self.spam@, ham: self.ham@, junk: self.junk@ }
    }
}

impl ActionCountsView {
    /// No metric is summed from more counts than `MAX_SOURCES`.
    pub open spec fn wf(self) -> bool {
        &&& self.spam.len() <= MAX_SOURCES
        &&& self.ham.len() <= MAX_SOURCES
        &&& self.junk.len() <= MAX_SOURCES
    }
}

/// What the library reads of one report of the filter.
pub struct Snapshot {
    /// The counts of the member `actions`, absent where the report has no
    /// such member.
    pub actions: Option<ActionCounts>,
    /// The entries of the member `scan_times`, absent where the report has no
    /// such array: each the bit pattern of a double of seconds, or nothing
    /// where the entry is no number.
    pub scan_times: Option<Vec<Option<u64>>>,
}

/// `Snapshot` as contracts see it.
pub struct SnapshotView {
    pub actions: Option<ActionCountsView>,
    pub scan_times: Option<Seq<Option<u64>>>,
}

impl View for Snapshot {
    type V = SnapshotView;

    open spec fn view(&self) -> SnapshotView {
        SnapshotView {
            actions: match self.actions {
                Some(a) => Some(a@),
                None => None,
            },
            scan_times: match self.scan_times {
                Some(t) => Some(t@),
                None => None,
            },
        }
    }
}

impl SnapshotView {
    /// The counts, where there are any, are well formed.
    pub open spec fn wf(self) -> bool {
        self.actions matches Some(a) ==> a.wf()
    }

    /// The mean scan time of the report in whole microseconds, where it
    /// holds a sample.
    pub open spec fn scan_mean(self) -> Option<i128> {
        match self.scan_times {
            Some(entries) => mean(samples(entries)),
            None => None,
        }
    }
}


/// The source fields of the rate of rejected messages.
pub open spec fn spam_names() -> Seq<&'static str> {
    seq!["reject"]
}

/// The source fields of the rate of clean messages.
pub open spec fn ham_names() -> Seq<&'static str> {
    seq!["no action"]
}

/// The source fields of the rate of flagged messages.
pub open spec fn junk_names() -> Seq<&'static str> {
    seq!["add header", "rewrite subject"]
}

/// The source fields of the rate of rejected messages.
pub fn spam_fields() -> (fields: Vec<&'static str>)
    ensures
        fields@ == spam_names(),
{
    let mut fields = Vec::new();
    fields.push("reject");
    fields
}

/// The source fields of the rate of clean messages.
pub fn ham_fields() -> (fields: Vec<&'static str>)
    ensures
        fields@ == ham_names(),
{
    let mut fields = Vec::new();
    fields.push("no action");
    fields
}

/// The source fields of the rate of flagged messages.
pub fn junk_fields() -> (fields: Vec<&'static str>)
    ensures
        fields@ == junk_names(),
{
    let mut fields = Vec::new();
    fields.push("add header");
    fields.push("rewrite subject");
    fields
}

/// The count that a JSON object holds under a key: none where it has no such
/// member, or where the member is no unsigned integer.
pub open spec fn json_count(actions: Value, key: Seq<char>) -> Option<u64> {
    match json_member(actions, key) {
        Some(found) => json_u64(found),
        None => None,
    }
}

/// The counts that a JSON object holds under each of the keys, in their
/// order.
pub open spec fn json_counts(actions: Value, keys: Seq<&'static str>) -> Seq<Option<u64>> {
    Seq::new(keys.len(), |i: int| json_count(actions, keys[i]@))
}

/// The entries of the member `scan_times` of a report, each as the bit
/// pattern of its double, or as nothing where it is no number. None where the
/// report has no such member or it is no array.
pub open spec fn json_scan_entries(report: Value) -> Option<Seq<Option<u64>>> {
    match json_member(report, "scan_times"@) {
        Some(times) => match json_elements(times) {
            Some(entries) => Some(Seq::new(entries.len(), |i: int| json_double_bits(entries[i]))),
            None => None,
        },
        None => None,
    }
}

/// What the library reads of a report.
pub open spec fn json_snapshot(report: Value) -> SnapshotView {
    SnapshotView {
        actions: match json_member(report, "actions"@) {
            Some(actions) => Some(
                ActionCountsView {
                    spam: json_counts(actions, spam_names()),
                    ham: json_counts(actions, ham_names()),
                    junk: json_counts(actions, junk_names()),
                },
            ),
            None => None,
        },
        scan_times: json_scan_entries(report),
    }
}

/// Looks up each field in the member `actions` of a report.
pub fn field_counts(actions: &Value, fields: &Vec<&'static str>) -> (counts: Vec<Option<u64>>)
    ensures
        counts@ == json_counts(*actions, fields@),
{
    let mut counts: Vec<Option<u64>> = Vec::new();
    let mut i: usize = 0;
    while i < fields.len()
        invariant
            i <= fields.len(),
            counts@ == json_counts(*actions, fields@.subrange(0, i as int)),
        decreases fields.len() - i,
    {
        let extracted = match member(actions, fields[i]) {
            Some(found) => as_count(found),
            None => None,
        };
        counts.push(extracted);
        i = i + 1;
        assert(counts@ =~= json_counts(*actions, fields@.subrange(0, i as int)));
    }
    assert(fields@.subrange(0, i as int) =~= fields@);
    counts
}

/// Reads the scan times of a report.
pub fn scan_entries(report: &Value) -> (entries: Option<Vec<Option<u64>>>)
    ensures
        entries matches Some(found) ==> json_scan_entries(*report) == Some(found@),
        entries is None ==> json_scan_entries(*report) is None,
{
    let times = match member(report, "scan_times") {
        Some(times) => times,
        None => {
            return None;
        },
    };
    let array = match elements(times) {
        Some(array) => array,
        None => {
            return None;
        },
    };
    let mut entries: Vec<Option<u64>> = Vec::new();
    let mut i: usize = 0;
    while i < array.len()
        invariant
            i <= array.len(),
            entries@ == Seq::new(i as nat, |k: int| json_double_bits(array@[k])),
        decreases array.len() - i,
    {
        entries.push(double_bits(&array[i]));
        i = i + 1;
        assert(entries@ =~= Seq::new(i as nat, |k: int| json_double_bits(array@[k])));
    }
    assert(entries@ =~= Seq::new(array@.len(), |k: int| json_double_bits(array@[k])));
    Some(entries)
}

/// Reads a report into a snapshot.
pub fn read_snapshot(report: &Value) -> (snapshot: Snapshot)
    ensures
        snapshot@ == json_snapshot(*report),
        snapshot@.wf(),
{
    let actions = match member(report, "actions") {
        Some(actions) => Some(
            ActionCounts {
                spam: field_counts(actions, &spam_fields()),
                ham: field_counts(actions, &ham_fields()),
                junk: field_counts(actions, &junk_fields()),
            },
        ),
        None => None,
    };
    Snapshot { actions, scan_times: scan_entries(report) }
}

} // verus!
