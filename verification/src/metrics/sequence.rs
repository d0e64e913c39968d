//! Duplicate and gap detection for numbered messages.

use std::collections::HashSet;
use vstd::prelude::*;
use vstd::set_lib::*;

verus! {

broadcast use vstd::std_specs::hash::group_hash_axioms;

/// What a tracker knows.
pub struct Received {
    /// The sequence numbers received.
    pub seen: Set<u64>,
    /// Receptions of a number that had been received before.
    pub duplicates: nat,
}

/// What a tracker knows that has received nothing.
pub open spec fn nothing_received() -> Received {
    Received { seen: Set::empty(), duplicates: 0 }
}

/// Whether `i` lies between two received numbers, bounds included.
pub open spec fn in_range(seen: Set<u64>, i: u64) -> bool {
    &&& exists|low: u64| #[trigger] seen.contains(low) && low <= i
    &&& exists|high: u64| #[trigger] seen.contains(high) && i <= high
}

/// The numbers within the received range that were not received.
pub open spec fn missing(seen: Set<u64>) -> Set<u64> {
    Set::new(|i: u64| in_range(seen, i) && !seen.contains(i))
}

/// Whether `low` is the least number of the set.
pub open spec fn is_least(seen: Set<u64>, low: u64) -> bool {
    seen.contains(low) && forall|s: u64| #[trigger] seen.contains(s) ==> low <= s
}

/// Whether `high` is the greatest number of the set.
pub open spec fn is_greatest(seen: Set<u64>, high: u64) -> bool {
    seen.contains(high) && forall|s: u64| #[trigger] seen.contains(s) ==> s <= high
}

/// What is known after one more reception.
pub open spec fn receive(before: Received, seq: u64) -> Received {
    Received {
        seen: before.seen.insert(seq),
        duplicates: if before.seen.contains(seq) {
            before.duplicates + 1
        } else {
            before.duplicates
        },
    }
}

/// What is known after receptions in the given order, on top of what was known.
pub open spec fn receive_all(before: Received, seqs: Seq<u64>) -> Received
    decreases seqs.len(),
{
    if seqs.len() == 0 {
        before
    } else {
        receive(receive_all(before, seqs.drop_last()), seqs.last())
    }
}

/// The missing numbers are what is left of the range once the received ones are taken out.
proof fn lemma_missing_is_difference(seen: Set<u64>, low: u64, high: u64)
    requires
        is_least(seen, low),
        is_greatest(seen, high),
    ensures
        missing(seen) == Set::<u64>::range_inclusive(low, high).difference(seen),
{
    let range = Set::<u64>::range_inclusive(low, high);
    assert forall|i: u64| in_range(seen, i) <==> range.contains(i) by {
        if range.contains(i) {
            assert(seen.contains(low) && low <= i);
            assert(seen.contains(high) && i <= high);
        }
    }
    assert(missing(seen) =~= range.difference(seen));
}

/// The number of missing numbers follows from the bounds and the number of received ones.
proof fn lemma_missing_len(seen: Set<u64>, low: u64, high: u64)
    requires
        is_least(seen, low),
        is_greatest(seen, high),
    ensures
        seen.finite(),
        missing(seen).finite(),
        missing(seen).len() + seen.len() == high - low + 1,
        1 <= seen.len() <= high - low + 1,
{
    let range = Set::<u64>::range_inclusive(low, high);
    lemma_missing_is_difference(seen, low, high);
    <u64 as FiniteRange>::range_properties(low, high);
    assert(range.finite() && range.len() == high - low + 1);
    assert(seen.subset_of(range));
    lemma_set_subset_finite(range, seen);
    lemma_set_subset_finite(range, range.difference(seen));
    lemma_set_difference_len(range, seen);
    assert(range.intersect(seen) =~= seen);
    if seen.len() == 0 {
        seen.lemma_len0_is_empty();
    }
}

/// Tracks the sequence numbers of one consumer.
pub struct SequenceTracker {
    seen: HashSet<u64>,
    min_seq: u64,
    max_seq: u64,
    duplicates: u64,
}

impl View for SequenceTracker {
    type V = Received;

    closed spec fn view(&self) -> Received {
        Received { seen: self.seen@, duplicates: self.duplicates as nat }
    }
}

impl SequenceTracker {
    #[verifier::type_invariant]
    spec fn well_formed(self) -> bool {
        &&& self.seen@.finite()
        &&& self.seen@.len() > 0 ==> is_least(self.seen@, self.min_seq) && is_greatest(
            self.seen@,
            self.max_seq,
        )
    }

    /// A tracker that has received nothing.
    pub fn new() -> (r: SequenceTracker)
        ensures
            r@ == nothing_received(),
    {
        SequenceTracker { seen: HashSet::new(), min_seq: 0, max_seq: 0, duplicates: 0 }
    }

    /// Records a reception. Returns `false` where the number had been received before.
    pub fn record(&mut self, seq: u64) -> (new: bool)
        requires
            old(self)@.duplicates < u64::MAX,
        ensures
            new == !old(self)@.seen.contains(seq),
            final(self)@ == receive(old(self)@, seq),
    {
        proof {
            use_type_invariant(&*self);
        }
        let mut seen: HashSet<u64> = HashSet::new();
        std::mem::swap(&mut seen, &mut self.seen);
        let ghost before = seen@;
        let first: bool = seen.len() == 0;
        let new: bool = seen.insert(seq);
        let min_seq: u64 = if first || seq < self.min_seq {
            seq
        } else {
            self.min_seq
        };
        let max_seq: u64 = if first || seq > self.max_seq {
            seq
        } else {
            self.max_seq
        };
        let duplicates: u64 = if new {
            self.duplicates
        } else {
            self.duplicates + 1
        };
        proof {
            if first {
                before.lemma_len0_is_empty();
            }
            assert(is_least(seen@, min_seq));
            assert(is_greatest(seen@, max_seq));
        }
        *self = SequenceTracker { seen, min_seq, max_seq, duplicates };
        new
    }

    /// Records receptions in order. Returns how many of the numbers were new.
    pub fn record_batch(&mut self, seqs: &[u64]) -> (new: usize)
        requires
            old(self)@.duplicates + seqs@.len() <= u64::MAX,
        ensures
            final(self)@ == receive_all(old(self)@, seqs@),
            new == seqs@.len() - (final(self)@.duplicates - old(self)@.duplicates),
    {
        let mut new: usize = 0;
        let mut i: usize = 0;
        assert(seqs@.take(0) =~= Seq::<u64>::empty());
        while i < seqs.len()
            invariant
                i <= seqs@.len(),
                old(self)@.duplicates + seqs@.len() <= u64::MAX,
                self@ == receive_all(old(self)@, seqs@.take(i as int)),
                new == i - (self@.duplicates - old(self)@.duplicates),
                old(self)@.duplicates <= self@.duplicates <= old(self)@.duplicates + i,
            decreases seqs@.len() - i,
        {
            assert(seqs@.take(i + 1).drop_last() =~= seqs@.take(i as int));
            if self.record(seqs[i]) {
                new = new + 1;
            }
            i = i + 1;
        }
        assert(seqs@.take(i as int) =~= seqs@);
        new
    }

    /// Receptions of a number that had been received before.
    pub fn duplicate_count(&self) -> (r: u64)
        ensures
            r == self@.duplicates,
    {
        self.duplicates
    }

    /// Numbers missing between the least and the greatest received.
    pub fn gap_count(&self) -> (r: u64)
        ensures
            missing(self@.seen).finite(),
            r == missing(self@.seen).len(),
    {
        proof {
            use_type_invariant(self);
        }
        let unique: usize = self.seen.len();
        if unique == 0 {
            proof {
                self.seen@.lemma_len0_is_empty();
                assert(missing(self.seen@) =~= Set::<u64>::empty());
            }
            0
        } else {
            proof {
                lemma_missing_len(self.seen@, self.min_seq, self.max_seq);
            }
            self.max_seq - self.min_seq - (unique as u64 - 1)
        }
    }

    /// Numbers lost before the least received, given that numbering starts at zero;
    /// zero where nothing was received.
    pub fn head_loss(&self) -> (r: u64)
        ensures
            self@.seen.len() == 0 ==> r == 0,
            self@.seen.len() > 0 ==> is_least(self@.seen, r),
            self@.seen.finite(),
    {
        proof {
            use_type_invariant(self);
        }
        if self.seen.len() == 0 {
            0
        } else {
            self.min_seq
        }
    }
}

impl Default for SequenceTracker {
    fn default() -> (r: SequenceTracker)
        ensures
            r@ == nothing_received(),
    {
        SequenceTracker::new()
    }
}

/// Every reception is counted once: as the first of its number or as a duplicate.
pub proof fn law_receptions_are_counted(seqs: Seq<u64>)
    ensures
        receive_all(nothing_received(), seqs).seen.finite(),
        receive_all(nothing_received(), seqs).seen =~= seqs.to_set(),
        receive_all(nothing_received(), seqs).seen.len() + receive_all(
            nothing_received(),
            seqs,
        ).duplicates == seqs.len(),
    decreases seqs.len(),
{
    if seqs.len() > 0 {
        let rest = seqs.drop_last();
        law_receptions_are_counted(rest);
        assert(seqs =~= rest.push(seqs.last()));
        assert forall|s: u64| seqs.to_set().contains(s) implies rest.to_set().insert(
            seqs.last(),
        ).contains(s) by {
            let i = choose|i: int| 0 <= i < seqs.len() && seqs[i] == s;
            if i < rest.len() {
                assert(rest[i] == s);
            }
        }
        assert forall|s: u64|
            rest.to_set().insert(seqs.last()).contains(s) implies seqs.to_set().contains(s) by {
            if s == seqs.last() {
                assert(seqs[seqs.len() - 1] == s);
            } else {
                let i = choose|i: int| 0 <= i < rest.len() && rest[i] == s;
                assert(seqs[i] == s);
            }
        }
    }
}

/// Every number up to the greatest received is received, missing within the received
/// range, or lost at the head.
pub proof fn law_losses_add_up(seen: Set<u64>, low: u64, high: u64)
    requires
        is_least(seen, low),
        is_greatest(seen, high),
    ensures
        low + missing(seen).len() + seen.len() == high + 1,
{
    lemma_missing_len(seen, low, high);
}

/// A reception is new just where its number was not received before; it adds that number and no
/// other, and counts as a duplicate where it was.
pub proof fn law_record_receives(t: &mut SequenceTracker, seq: u64, new: bool, other: u64)
    requires
        old(t)@.duplicates < u64::MAX,
        call_ensures(SequenceTracker::record, (t, seq), new),
    ensures
        new == !old(t)@.seen.contains(seq),
        final(t)@.seen.contains(other) <==> other == seq || old(t)@.seen.contains(other),
        final(t)@.duplicates == old(t)@.duplicates + (if new {
            0int
        } else {
            1int
        }),
{
}

/// A batch adds its numbers and no others. How many were new is by how much the set grew; every
/// other reception counts as a duplicate.
pub proof fn law_batch_receives(t: &mut SequenceTracker, seqs: &[u64], new: usize, other: u64)
    requires
        old(t)@.duplicates + seqs@.len() <= u64::MAX,
        old(t)@.seen.finite(),
        call_ensures(SequenceTracker::record_batch, (t, seqs), new),
    ensures
        final(t)@.seen.contains(other) <==> seqs@.contains(other) || old(t)@.seen.contains(other),
        final(t)@.seen.len() == old(t)@.seen.len() + new,
        final(t)@.duplicates + new == old(t)@.duplicates + seqs@.len(),
{
    lemma_receive_all(old(t)@, seqs@, other);
}

proof fn lemma_receive_all(before: Received, seqs: Seq<u64>, other: u64)
    requires
        before.seen.finite(),
    ensures
        ({
            let after = receive_all(before, seqs);
            &&& after.seen.finite()
            &&& after.seen.contains(other) <==> seqs.contains(other) || before.seen.contains(other)
            &&& after.seen.len() + after.duplicates == before.seen.len() + before.duplicates
                + seqs.len()
        }),
    decreases seqs.len(),
{
    if seqs.len() > 0 {
        let rest = seqs.drop_last();
        lemma_receive_all(before, rest, other);
        if seqs.contains(other) {
            let i = choose|i: int| 0 <= i < seqs.len() && seqs[i] == other;
            if i < rest.len() {
                assert(rest[i] == other);
            }
        }
        if rest.contains(other) {
            let i = choose|i: int| 0 <= i < rest.len() && rest[i] == other;
            assert(seqs[i] == other);
        }
        assert(seqs[seqs.len() - 1] == seqs.last());
    }
}

/// A new tracker has received nothing, and its figures are zero.
pub proof fn law_new_tracker(t: SequenceTracker, duplicates: u64, gaps: u64, head: u64)
    requires
        call_ensures(SequenceTracker::new, (), t),
        call_ensures(SequenceTracker::duplicate_count, (&t,), duplicates),
        call_ensures(SequenceTracker::gap_count, (&t,), gaps),
        call_ensures(SequenceTracker::head_loss, (&t,), head),
    ensures
        forall|seq: u64| !(#[trigger] t@.seen.contains(seq)),
        t@.duplicates == 0,
        duplicates == 0,
        gaps == 0,
        head == 0,
{
    assert(t@.seen =~= Set::<u64>::empty());
    assert(missing(t@.seen) =~= Set::<u64>::empty());
}

/// The figures of a tracker that has received something: the head loss is the least number, and
/// received and missing numbers make up the range from it to the greatest.
pub proof fn law_tracker_figures(
    t: SequenceTracker,
    low: u64,
    high: u64,
    duplicates: u64,
    gaps: u64,
    head: u64,
)
    requires
        t@.seen.contains(low),
        t@.seen.contains(high),
        forall|seq: u64| #[trigger] t@.seen.contains(seq) ==> low <= seq <= high,
        call_ensures(SequenceTracker::duplicate_count, (&t,), duplicates),
        call_ensures(SequenceTracker::gap_count, (&t,), gaps),
        call_ensures(SequenceTracker::head_loss, (&t,), head),
    ensures
        duplicates == t@.duplicates,
        gaps + t@.seen.len() == high - low + 1,
        head == low,
{
    lemma_missing_len(t@.seen, low, high);
}

} // verus!
