//! The deduplicating collector: the ordered result set of one discovery
//! session, keyed by the fully-qualified service instance name.

use vstd::prelude::*;

verus! {

use crate::record::{EndpointRecord, MdnsEvent, normalize, record_of};

/// Whether some record of `s` already carries the fully-qualified name
/// `name`.
pub open spec fn seen(s: Seq<EndpointRecord>, name: Seq<char>) -> bool {
    exists|i: int| 0 <= i < s.len() && s[i].fullname@ == name
}

/// No two records of `s` share a fully-qualified name.
pub open spec fn distinct_fullnames(s: Seq<EndpointRecord>) -> bool {
    forall|i: int, j: int| 0 <= i < j < s.len() ==> s[i].fullname@ != s[j].fullname@
}

/// What feeding `s` record by record into a fresh collector
/// accumulates: a record is appended exactly when its fully-qualified
/// name has not been accumulated yet.
pub open spec fn collect_fold(s: Seq<EndpointRecord>) -> Seq<EndpointRecord>
    decreases s.len(),
{
    if s.len() == 0 {
        Seq::empty()
    } else {
        let prev = collect_fold(s.drop_last());
        if seen(prev, s.last().fullname@) {
            prev
        } else {
            prev.push(s.last())
        }
    }
}

/// The subsequence of `s` that keeps exactly the first record of each
/// distinct fully-qualified name, in input order.
pub open spec fn first_seen(s: Seq<EndpointRecord>) -> Seq<EndpointRecord>
    decreases s.len(),
{
    if s.len() == 0 {
        Seq::empty()
    } else {
        let prev = first_seen(s.drop_last());
        if seen(s.drop_last(), s.last().fullname@) {
            prev
        } else {
            prev.push(s.last())
        }
    }
}

/// Appending a record whose name is absent keeps the names distinct.
proof fn lemma_push_distinct(s: Seq<EndpointRecord>, r: EndpointRecord)
    requires
        distinct_fullnames(s),
        !seen(s, r.fullname@),
    ensures
        distinct_fullnames(s.push(r)),
{
    assert forall|i: int, j: int| 0 <= i < j < s.push(r).len() implies s.push(r)[i].fullname@
        != s.push(r)[j].fullname@ by {
        if j == s.len() {
            assert(s.push(r)[i] == s[i]);
            assert(s[i].fullname@ != r.fullname@);
        } else {
            assert(s.push(r)[i] == s[i]);
            assert(s.push(r)[j] == s[j]);
        }
    }
}

/// The accumulated output carries exactly the names of the input.
proof fn lemma_collect_fold_names(s: Seq<EndpointRecord>, name: Seq<char>)
    ensures
        seen(collect_fold(s), name) == seen(s, name),
    decreases s.len(),
{
    if s.len() > 0 {
        lemma_collect_fold_names(s.drop_last(), name);
        assert(seen(s, name) ==> (seen(s.drop_last(), name) || s.last().fullname@ == name)) by {
            if seen(s, name) {
                let i = choose|i: int| 0 <= i < s.len() && s[i].fullname@ == name;
                if i < s.len() - 1 {
                    assert(s.drop_last()[i] == s[i]);
                }
            }
        }
        assert(seen(s.drop_last(), name) ==> seen(s, name)) by {
            if seen(s.drop_last(), name) {
                let i = choose|i: int| 0 <= i < s.drop_last().len() && s.drop_last()[i].fullname@
                    == name;
                assert(s[i] == s.drop_last()[i]);
            }
        }
        if !seen(collect_fold(s.drop_last()), s.last().fullname@) {
            let out = collect_fold(s.drop_last()).push(s.last());
            assert(collect_fold(s) == out);
            if seen(s, name) && !seen(s.drop_last(), name) {
                assert(out[out.len() - 1].fullname@ == name);
            }
            if seen(collect_fold(s.drop_last()), name) {
                let i = choose|i: int| 0 <= i < collect_fold(s.drop_last()).len()
                    && collect_fold(s.drop_last())[i].fullname@ == name;
                assert(out[i] == collect_fold(s.drop_last())[i]);
            }
            if s.last().fullname@ == name {
                assert(out[out.len() - 1].fullname@ == name);
            }
        }
    }
}

/// Law: whatever record sequence is fed to the collector, the
/// accumulated output holds no two records with equal fully-qualified
/// names.
pub proof fn lemma_collect_fold_distinct(s: Seq<EndpointRecord>)
    ensures
        distinct_fullnames(collect_fold(s)),
    decreases s.len(),
{
    if s.len() == 0 {
        assert(distinct_fullnames(collect_fold(s)));
    } else {
        lemma_collect_fold_distinct(s.drop_last());
        if !seen(collect_fold(s.drop_last()), s.last().fullname@) {
            lemma_push_distinct(collect_fold(s.drop_last()), s.last());
        }
    }
}

/// Law: the accumulated output is exactly the first occurrence of each
/// distinct fully-qualified name, in order of first appearance in the
/// input.
pub proof fn lemma_collect_fold_first_seen(s: Seq<EndpointRecord>)
    ensures
        collect_fold(s) == first_seen(s),
    decreases s.len(),
{
    if s.len() > 0 {
        lemma_collect_fold_first_seen(s.drop_last());
        lemma_collect_fold_names(s.drop_last(), s.last().fullname@);
    }
}

/// Law: feeding a record whose fully-qualified name has appeared
/// before leaves the accumulated output entirely unchanged, however
/// its other fields differ from the stored record's.
pub proof fn lemma_duplicate_leaves_output_unchanged(s: Seq<EndpointRecord>, r: EndpointRecord)
    requires
        seen(s, r.fullname@),
    ensures
        collect_fold(s.push(r)) == collect_fold(s),
{
    lemma_collect_fold_names(s, r.fullname@);
    assert(s.push(r).drop_last() =~= s);
    assert(s.push(r).last() == r);
}

/// The deduplicating collector: an ordered result sequence plus, by
/// the well-formedness invariant, at most one record per name.
pub struct Collector {
    records: Vec<EndpointRecord>,
}

impl Collector {
    /// The records accumulated so far, in first-seen order.
    pub closed spec fn records_seq(self) -> Seq<EndpointRecord> {
        self.records@
    }

    /// Well-formed: no two accumulated records share a name.
    pub open spec fn wf(self) -> bool {
        distinct_fullnames(self.records_seq())
    }

    /// A fresh, empty collector.
    pub fn new() -> (c: Collector)
        ensures
            c.records_seq() == Seq::<EndpointRecord>::empty(),
            c.wf(),
    {
        Collector { records: Vec::new() }
    }

    /// Whether a record with fully-qualified name `name` is already
    /// accumulated.
    fn contains_name(&self, name: &String) -> (r: bool)
        ensures
            r == seen(self.records_seq(), name@),
    {
        let mut i: usize = 0;
        while i < self.records.len()
            invariant
                i <= self.records@.len(),
                forall|k: int| 0 <= k < i ==> self.records@[k].fullname@ != name@,
            decreases self.records@.len() - i,
        {
            if self.records[i].fullname == *name {
                assert(self.records@[i as int].fullname@ == name@);
                return true;
            }
            i += 1;
        }
        false
    }

    /// Offers one record: appends it exactly when its name is new,
    /// and returns whether it was appended. A duplicate offer leaves
    /// the accumulated records — the first-seen record included —
    /// entirely unchanged.
    pub fn offer(&mut self, r: EndpointRecord) -> (added: bool)
        requires
            old(self).wf(),
        ensures
            final(self).wf(),
            added == !seen(old(self).records_seq(), r.fullname@),
            added ==> final(self).records_seq() == old(self).records_seq().push(r),
            !added ==> final(self).records_seq() == old(self).records_seq(),
    {
        if self.contains_name(&r.fullname) {
            false
        } else {
            proof {
                lemma_push_distinct(self.records@, r);
            }
            self.records.push(r);
            true
        }
    }

    /// Consumes the collector and hands out the accumulated records.
    pub fn into_records(self) -> (v: Vec<EndpointRecord>)
        ensures
            v@ == self.records_seq(),
    {
        self.records
    }
}

/// Feeds every record of `records` into a fresh collector and returns
/// what it accumulated: the first record of each distinct name, in
/// order of first appearance.
pub fn collect_records(records: Vec<EndpointRecord>) -> (out: Vec<EndpointRecord>)
    ensures
        out@ == collect_fold(records@),
        distinct_fullnames(out@),
{
    let ghost all = records@;
    let mut rest = records;
    let mut c = Collector::new();
    while rest.len() > 0
        invariant
            c.wf(),
            rest@.len() <= all.len(),
            rest@ == all.skip(all.len() - rest@.len()),
            c.records_seq() == collect_fold(all.take(all.len() - rest@.len())),
        decreases rest@.len(),
    {
        let ghost k = all.len() - rest@.len();
        let r = rest.remove(0);
        assert(r == all[k]);
        assert(rest@ == all.skip(k + 1));
        let _ = c.offer(r);
        proof {
            assert(all.take(k + 1).drop_last() =~= all.take(k));
            assert(all.take(k + 1).last() == all[k]);
        }
    }
    assert(all.take(all.len() - rest@.len()) =~= all);
    let out = c.into_records();
    proof {
        lemma_collect_fold_distinct(all);
    }
    out
}

/// The records that a raw event sequence resolves to: each resolution
/// event's payload, normalized, in arrival order; every other event
/// dropped.
pub open spec fn resolved_records(events: Seq<MdnsEvent>) -> Seq<EndpointRecord>
    decreases events.len(),
{
    if events.len() == 0 {
        Seq::empty()
    } else {
        let prev = resolved_records(events.drop_last());
        match events.last() {
            MdnsEvent::Resolved(info) => prev.push(record_of(info)),
            MdnsEvent::Other => prev,
        }
    }
}

/// Law: a window in which no resolution event arrives accumulates
/// nothing — the snapshot is empty, whatever other events arrived.
pub proof fn lemma_no_resolutions_empty(events: Seq<MdnsEvent>)
    requires
        forall|i: int| 0 <= i < events.len() ==> !(events[i] is Resolved),
    ensures
        resolved_records(events) == Seq::<EndpointRecord>::empty(),
        collect_fold(resolved_records(events)) == Seq::<EndpointRecord>::empty(),
    decreases events.len(),
{
    if events.len() > 0 {
        assert forall|i: int| 0 <= i < events.drop_last().len() implies !(events.drop_last()[i]
            is Resolved) by {
            assert(events.drop_last()[i] == events[i]);
        }
        lemma_no_resolutions_empty(events.drop_last());
        assert(!(events[events.len() - 1] is Resolved));
    }
}

/// Runs a whole raw event sequence through normalization and
/// collection: exactly what one discovery session accumulates when it
/// receives those events in that order.
pub fn collect_events(events: Vec<MdnsEvent>) -> (out: Vec<EndpointRecord>)
    ensures
        out@ == collect_fold(resolved_records(events@)),
        distinct_fullnames(out@),
{
    let ghost all = events@;
    let mut rest = events;
    let mut c = Collector::new();
    while rest.len() > 0
        invariant
            c.wf(),
            rest@.len() <= all.len(),
            rest@ == all.skip(all.len() - rest@.len()),
            c.records_seq() == collect_fold(resolved_records(all.take(all.len() - rest@.len()))),
        decreases rest@.len(),
    {
        let ghost k = all.len() - rest@.len();
        let ev = rest.remove(0);
        assert(ev == all[k]);
        assert(rest@ == all.skip(k + 1));
        proof {
            assert(all.take(k + 1).drop_last() =~= all.take(k));
            assert(all.take(k + 1).last() == all[k]);
        }
        let ghost prev = resolved_records(all.take(k));
        match ev {
            MdnsEvent::Resolved(info) => {
                let ghost ginfo = info;
                let r = normalize(info);
                let _ = c.offer(r);
                proof {
                    assert(resolved_records(all.take(k + 1)) == prev.push(record_of(ginfo)));
                    assert(prev.push(record_of(ginfo)).drop_last() =~= prev);
                    assert(prev.push(record_of(ginfo)).last() == record_of(ginfo));
                }
            },
            MdnsEvent::Other => {
                proof {
                    assert(resolved_records(all.take(k + 1)) == prev);
                }
            },
        }
    }
    assert(all.take(all.len() - rest@.len()) =~= all);
    let out = c.into_records();
    proof {
        lemma_collect_fold_distinct(resolved_records(all));
    }
    out
}

} // verus!
