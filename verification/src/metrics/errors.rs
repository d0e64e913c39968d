//! Error counting by reason.

use crate::text::{decimal, decimal_text, texts};
use vstd::prelude::*;
use vstd::set_lib::FiniteRange;
use vstd::string::*;

verus! {

/// How often one reason was recorded.
#[derive(Clone, Debug)]
pub struct ErrorCount {
    /// The reason.
    pub reason: String,
    /// Its occurrences.
    pub count: u64,
}

/// The counts by reason.
pub open spec fn tally(counts: Seq<ErrorCount>) -> Map<Seq<char>, u64>
    decreases counts.len(),
{
    if counts.len() == 0 {
        Map::empty()
    } else {
        tally(counts.drop_last()).insert(counts.last().reason@, counts.last().count)
    }
}

/// Whether every reason stands once.
pub open spec fn distinct(counts: Seq<ErrorCount>) -> bool {
    forall|i: int, j: int|
        0 <= i < j < counts.len() ==> (#[trigger] counts[i]).reason@ != (
        #[trigger] counts[j]).reason@
}

/// How often `counts` holds `reason`.
pub open spec fn count_of(counts: Map<Seq<char>, u64>, reason: Seq<char>) -> u64 {
    if counts.dom().contains(reason) {
        counts[reason]
    } else {
        0
    }
}

/// The counts after one more occurrence of `reason`.
pub open spec fn counted(counts: Map<Seq<char>, u64>, reason: Seq<char>) -> Map<Seq<char>, u64> {
    counts.insert(reason, (count_of(counts, reason) + 1) as u64)
}

proof fn lemma_tally_holds(counts: Seq<ErrorCount>, reason: Seq<char>)
    ensures
        tally(counts).dom().contains(reason) <==> exists|i: int|
            0 <= i < counts.len() && (#[trigger] counts[i]).reason@ == reason,
    decreases counts.len(),
{
    if counts.len() > 0 {
        let rest = counts.drop_last();
        lemma_tally_holds(rest, reason);
        if counts.last().reason@ == reason {
            assert(counts[counts.len() - 1].reason@ == reason);
        }
        if tally(rest).dom().contains(reason) {
            let i = choose|i: int| 0 <= i < rest.len() && (#[trigger] rest[i]).reason@ == reason;
            assert(counts[i].reason@ == reason);
        }
        if exists|i: int| 0 <= i < counts.len() && (#[trigger] counts[i]).reason@ == reason {
            let i = choose|i: int|
                0 <= i < counts.len() && (#[trigger] counts[i]).reason@ == reason;
            if i < rest.len() {
                assert(rest[i].reason@ == reason);
            }
        }
    }
}

proof fn lemma_tally_at(counts: Seq<ErrorCount>, i: int)
    requires
        distinct(counts),
        0 <= i < counts.len(),
    ensures
        tally(counts).dom().contains(counts[i].reason@),
        tally(counts)[counts[i].reason@] == counts[i].count,
    decreases counts.len(),
{
    if i < counts.len() - 1 {
        let rest = counts.drop_last();
        assert(distinct(rest));
        lemma_tally_at(rest, i);
        assert(counts[i].reason@ != counts[counts.len() - 1].reason@);
    }
}

proof fn lemma_tally_update(counts: Seq<ErrorCount>, i: int, item: ErrorCount)
    requires
        distinct(counts),
        0 <= i < counts.len(),
        item.reason@ == counts[i].reason@,
    ensures
        distinct(counts.update(i, item)),
        tally(counts.update(i, item)) == tally(counts).insert(item.reason@, item.count),
    decreases counts.len(),
{
    let changed = counts.update(i, item);
    if i == counts.len() - 1 {
        assert(changed.drop_last() =~= counts.drop_last());
        assert(tally(changed) =~= tally(counts).insert(item.reason@, item.count));
    } else {
        let rest = counts.drop_last();
        assert(distinct(rest));
        lemma_tally_update(rest, i, item);
        assert(changed.drop_last() =~= rest.update(i, item));
        assert(counts[i].reason@ != counts[counts.len() - 1].reason@);
        assert(tally(changed) =~= tally(counts).insert(item.reason@, item.count));
    }
}

/// Counts errors by reason.
pub struct ErrorCounter {
    counts: Vec<ErrorCount>,
}

impl View for ErrorCounter {
    type V = Map<Seq<char>, u64>;

    closed spec fn view(&self) -> Map<Seq<char>, u64> {
        tally(self.counts@)
    }
}

impl ErrorCounter {
    #[verifier::type_invariant]
    spec fn well_formed(self) -> bool {
        distinct(self.counts@)
    }

    /// A counter that has recorded nothing.
    pub fn new() -> (r: ErrorCounter)
        ensures
            r@ == Map::<Seq<char>, u64>::empty(),
    {
        ErrorCounter { counts: Vec::new() }
    }

    /// Where `reason` stands.
    fn position(counts: &Vec<ErrorCount>, reason: &String) -> (r: Option<usize>)
        ensures
            match r {
                Some(i) => i < counts.len() && counts[i as int].reason@ == reason@,
                None => forall|i: int|
                    0 <= i < counts.len() ==> (#[trigger] counts@[i]).reason@ != reason@,
            },
    {
        let mut i: usize = 0;
        while i < counts.len()
            invariant
                i <= counts.len(),
                forall|k: int| 0 <= k < i ==> (#[trigger] counts@[k]).reason@ != reason@,
            decreases counts.len() - i,
        {
            if counts[i].reason == *reason {
                return Some(i);
            }
            i = i + 1;
        }
        None
    }

    /// How often `reason` was recorded.
    pub fn count(&self, reason: &str) -> (r: u64)
        ensures
            r == count_of(self@, reason@),
    {
        proof {
            use_type_invariant(self);
            lemma_tally_holds(self.counts@, reason@);
        }
        match Self::position(&self.counts, &reason.to_owned()) {
            Some(i) => {
                proof {
                    lemma_tally_at(self.counts@, i as int);
                }
                self.counts[i].count
            },
            None => 0,
        }
    }

    /// Records one error with the given reason.
    pub fn record(&mut self, reason: &str)
        requires
            count_of(old(self)@, reason@) < u64::MAX,
        ensures
            final(self)@ == counted(old(self)@, reason@),
    {
        proof {
            use_type_invariant(&*self);
            lemma_tally_holds(self.counts@, reason@);
        }
        let mut counts: Vec<ErrorCount> = Vec::new();
        std::mem::swap(&mut counts, &mut self.counts);
        let reason: String = reason.to_owned();
        match Self::position(&counts, &reason) {
            Some(i) => {
                proof {
                    lemma_tally_at(counts@, i as int);
                }
                let count: u64 = counts[i].count;
                let item: ErrorCount = ErrorCount { reason, count: count + 1 };
                proof {
                    lemma_tally_update(counts@, i as int, item);
                }
                counts.set(i, item);
            },
            None => {
                let ghost before = counts@;
                counts.push(ErrorCount { reason, count: 1 });
                assert(counts@.drop_last() =~= before);
            },
        }
        self.counts = counts;
    }

    /// Takes the counts and leaves the counter empty.
    pub fn take(&mut self) -> (r: Vec<ErrorCount>)
        ensures
            distinct(r@),
            tally(r@) == old(self)@,
            final(self)@ == Map::<Seq<char>, u64>::empty(),
    {
        proof {
            use_type_invariant(&*self);
        }
        let mut counts: Vec<ErrorCount> = Vec::new();
        std::mem::swap(&mut counts, &mut self.counts);
        counts
    }
}

impl Default for ErrorCounter {
    fn default() -> (r: ErrorCounter)
        ensures
            r@ == Map::<Seq<char>, u64>::empty(),
    {
        ErrorCounter::new()
    }
}

/// Occurrences of `reason` in a list of recorded reasons.
pub open spec fn occurrences(reasons: Seq<Seq<char>>, reason: Seq<char>) -> nat
    decreases reasons.len(),
{
    if reasons.len() == 0 {
        0
    } else {
        occurrences(reasons.drop_last(), reason) + if reasons.last() == reason {
            1nat
        } else {
            0nat
        }
    }
}

/// The counts of a new counter after the given reasons were recorded in order.
pub open spec fn recorded(reasons: Seq<Seq<char>>) -> Map<Seq<char>, u64>
    decreases reasons.len(),
{
    if reasons.len() == 0 {
        Map::empty()
    } else {
        counted(recorded(reasons.drop_last()), reasons.last())
    }
}

/// Errors are grouped by reason: whatever was recorded, and in whatever order, the count
/// of a reason is the number of its occurrences, and a reason that never occurred is absent.
pub proof fn law_counts_occurrences(reasons: Seq<Seq<char>>, reason: Seq<char>)
    requires
        reasons.len() <= u64::MAX,
    ensures
        count_of(recorded(reasons), reason) == occurrences(reasons, reason),
        recorded(reasons).dom().contains(reason) <==> occurrences(reasons, reason) > 0,
        occurrences(reasons, reason) <= reasons.len(),
    decreases reasons.len(),
{
    if reasons.len() > 0 {
        law_counts_occurrences(reasons.drop_last(), reason);
        law_counts_occurrences(reasons.drop_last(), reasons.last());
    }
}

/// All counts of a list together.
pub open spec fn counted_in(errors: Seq<ErrorCount>) -> nat
    decreases errors.len(),
{
    if errors.len() == 0 {
        0
    } else {
        counted_in(errors.drop_last()) + errors.last().count as nat
    }
}

/// Whether a list holds the counts of the given reasons: each reason once, with the number
/// of its occurrences.
pub open spec fn breaks_down(errors: Seq<ErrorCount>, reasons: Seq<Seq<char>>) -> bool {
    distinct(errors) && tally(errors) == recorded(reasons)
}

proof fn lemma_counted_update(errors: Seq<ErrorCount>, i: int, item: ErrorCount)
    requires
        0 <= i < errors.len(),
    ensures
        counted_in(errors.update(i, item)) + errors[i].count == counted_in(errors) + item.count,
    decreases errors.len(),
{
    let changed = errors.update(i, item);
    if i == errors.len() - 1 {
        assert(changed.drop_last() =~= errors.drop_last());
    } else {
        lemma_counted_update(errors.drop_last(), i, item);
        assert(changed.drop_last() =~= errors.drop_last().update(i, item));
    }
}

proof fn lemma_tally_remove(errors: Seq<ErrorCount>, i: int)
    requires
        distinct(errors),
        0 <= i < errors.len(),
    ensures
        distinct(errors.remove(i)),
        tally(errors.remove(i)) == tally(errors).remove(errors[i].reason@),
        counted_in(errors.remove(i)) + errors[i].count == counted_in(errors),
    decreases errors.len(),
{
    let less = errors.remove(i);
    let rest = errors.drop_last();
    let reason = errors[i].reason@;
    assert(distinct(rest));
    if i == errors.len() - 1 {
        assert(less =~= rest);
        lemma_tally_holds(rest, reason);
        if tally(rest).dom().contains(reason) {
            let k = choose|k: int| 0 <= k < rest.len() && (#[trigger] rest[k]).reason@ == reason;
            assert(errors[k].reason@ != errors[i].reason@);
        }
        assert(tally(less) =~= tally(errors).remove(reason));
    } else {
        lemma_tally_remove(rest, i);
        assert(less.drop_last() =~= rest.remove(i));
        assert(less.last() == errors.last());
        assert(errors[i].reason@ != errors[errors.len() - 1].reason@);
        assert forall|j: int, k: int| 0 <= j < k < less.len() implies (
        #[trigger] less[j]).reason@ != (#[trigger] less[k]).reason@ by {
            let j2 = if j < i {
                j
            } else {
                j + 1
            };
            let k2 = if k < i {
                k
            } else {
                k + 1
            };
            assert(errors[j2].reason@ != errors[k2].reason@);
        }
        assert(tally(less) =~= tally(errors).remove(reason));
    }
}

/// The counts of a breakdown add up to the number of errors recorded.
pub proof fn law_breakdown_adds_up(errors: Seq<ErrorCount>, reasons: Seq<Seq<char>>)
    requires
        breaks_down(errors, reasons),
        reasons.len() <= u64::MAX,
    ensures
        counted_in(errors) == reasons.len(),
    decreases reasons.len(),
{
    if reasons.len() == 0 {
        if errors.len() > 0 {
            lemma_tally_at(errors, 0);
        }
    } else {
        let rest = reasons.drop_last();
        let reason = reasons.last();
        law_counts_occurrences(reasons, reason);
        law_counts_occurrences(rest, reason);
        lemma_tally_holds(errors, reason);
        let i = choose|i: int| 0 <= i < errors.len() && (#[trigger] errors[i]).reason@ == reason;
        lemma_tally_at(errors, i);
        if errors[i].count == 1 {
            lemma_tally_remove(errors, i);
            assert(tally(errors.remove(i)) =~= recorded(rest));
            law_breakdown_adds_up(errors.remove(i), rest);
        } else {
            let item = ErrorCount { count: (errors[i].count - 1) as u64, ..errors[i] };
            lemma_tally_update(errors, i, item);
            lemma_counted_update(errors, i, item);
            assert(tally(errors.update(i, item)) =~= recorded(rest));
            law_breakdown_adds_up(errors.update(i, item), rest);
        }
    }
}

// ---------------------------------------------------------------------------
// Breakdown for reports
// ---------------------------------------------------------------------------

/// Whether the item at `a` is listed before the item at `b`: more frequent reasons
/// first, equally frequent ones in the given order.
pub open spec fn listed_before(errors: Seq<ErrorCount>, a: usize, b: usize) -> bool {
    ||| errors[a as int].count > errors[b as int].count
    ||| errors[a as int].count == errors[b as int].count && a < b
}

/// Whether `order` lists the positions of all items, each before those it precedes.
pub open spec fn is_ranking(errors: Seq<ErrorCount>, order: Seq<usize>) -> bool {
    &&& order.len() == errors.len()
    &&& forall|k: int| 0 <= k < order.len() ==> #[trigger] order[k] < errors.len()
    &&& forall|k: int, l: int|
        0 <= k < l < order.len() ==> listed_before(errors, #[trigger] order[k], #[trigger] order[l])
}

/// The positions of the items, most frequent first.
pub fn ranking(errors: &Vec<ErrorCount>) -> (order: Vec<usize>)
    ensures
        is_ranking(errors@, order@),
{
    let mut order: Vec<usize> = Vec::new();
    let mut i: usize = 0;
    while i < errors.len()
        invariant
            i <= errors.len(),
            order.len() == i,
            forall|k: int| 0 <= k < order.len() ==> #[trigger] order@[k] < i,
            forall|k: int, l: int|
                0 <= k < l < order.len() ==> listed_before(
                    errors@,
                    #[trigger] order@[k],
                    #[trigger] order@[l],
                ),
        decreases errors.len() - i,
    {
        let mut at: usize = 0;
        while at < order.len() && errors[order[at]].count >= errors[i].count
            invariant
                i < errors.len(),
                order.len() == i,
                at <= order.len(),
                forall|k: int| 0 <= k < order.len() ==> #[trigger] order@[k] < i,
                forall|k: int|
                    0 <= k < at ==> errors@[#[trigger] order@[k] as int].count
                        >= errors@[i as int].count,
            decreases order.len() - at,
        {
            at = at + 1;
        }
        let ghost before = order@;
        order.insert(at, i);
        proof {
            assert forall|k: int, l: int| 0 <= k < l < order.len() implies listed_before(
                errors@,
                #[trigger] order@[k],
                #[trigger] order@[l],
            ) by {
                if l < at {
                    assert(listed_before(errors@, before[k], before[l]));
                } else if l == at {
                    assert(order@[k] == before[k]);
                } else if k == at {
                    if at < l - 1 {
                        assert(listed_before(errors@, before[at as int], before[l - 1]));
                    }
                } else if k < at {
                    assert(listed_before(errors@, before[k], before[l - 1]));
                } else {
                    assert(listed_before(errors@, before[k - 1], before[l - 1]));
                }
            }
        }
        i = i + 1;
    }
    order
}

/// A ranking lists every position once.
proof fn lemma_ranking_lists_all(errors: Seq<ErrorCount>, order: Seq<usize>)
    requires
        is_ranking(errors, order),
        errors.len() <= usize::MAX,
    ensures
        order.no_duplicates(),
        order.to_set() == Set::<usize>::range(0, errors.len() as usize),
{
    let all = Set::<usize>::range(0, errors.len() as usize);
    assert forall|k: int, l: int| 0 <= k < order.len() && 0 <= l < order.len() && k
        != l implies order[k] != order[l] by {
        if k < l {
            assert(listed_before(errors, order[k], order[l]));
        } else {
            assert(listed_before(errors, order[l], order[k]));
        }
    }
    order.unique_seq_to_set();
    <usize as FiniteRange>::range_properties(0, errors.len() as usize);
    vstd::seq_lib::seq_to_set_is_finite(order);
    assert(order.to_set().subset_of(all));
    vstd::set_lib::lemma_subset_equality(order.to_set(), all);
}

/// There is one ranking of a list of counts, so its breakdown reads the same every time.
pub proof fn law_ranking_is_unique(errors: Seq<ErrorCount>, a: Seq<usize>, b: Seq<usize>)
    requires
        is_ranking(errors, a),
        is_ranking(errors, b),
        errors.len() <= usize::MAX,
    ensures
        a == b,
{
    broadcast use vstd::seq_lib::group_to_multiset_ensures;

    let leq = |x: usize, y: usize| x == y || listed_before(errors, x, y);
    lemma_ranking_lists_all(errors, a);
    lemma_ranking_lists_all(errors, b);
    a.lemma_multiset_has_no_duplicates();
    b.lemma_multiset_has_no_duplicates();
    assert forall|x: usize| a.to_multiset().count(x) == b.to_multiset().count(x) by {
        assert(a.to_set().contains(x) == b.to_set().contains(x));
        assert(a.to_multiset().contains(x) <==> a.contains(x));
        assert(b.to_multiset().contains(x) <==> b.contains(x));
    }
    assert(a.to_multiset() =~= b.to_multiset());
    vstd::seq_lib::lemma_sorted_unique(a, b, leq);
}

/// The line for one reason.
pub open spec fn error_line(error: ErrorCount) -> Seq<char> {
    "    "@ + error.reason@ + ": "@ + decimal(error.count as nat)
}

/// The lines of the breakdown in the given order: nothing where there is no error.
pub open spec fn breakdown(errors: Seq<ErrorCount>, order: Seq<usize>) -> Seq<Seq<char>> {
    if errors.len() == 0 {
        seq![]
    } else {
        seq!["  Errors:"@] + order.map_values(|k: usize| error_line(errors[k as int]))
    }
}

impl ErrorCounter {
    /// The lines of the error breakdown, most frequent reason first; none without errors.
    pub fn summary_lines(errors: &Vec<ErrorCount>) -> (lines: Vec<String>)
        ensures
            exists|order: Seq<usize>| #[trigger]
                is_ranking(errors@, order) && texts(lines@) == breakdown(errors@, order),
    {
        let order: Vec<usize> = ranking(errors);
        let mut lines: Vec<String> = Vec::new();
        if errors.len() == 0 {
            assert(texts(lines@) =~= breakdown(errors@, order@));
            return lines;
        }
        lines.push("  Errors:".to_owned());
        let mut k: usize = 0;
        while k < order.len()
            invariant
                k <= order.len(),
                is_ranking(errors@, order@),
                texts(lines@) == seq!["  Errors:"@] + order@.take(k as int).map_values(
                    |k: usize| error_line(errors@[k as int]),
                ),
            decreases order.len() - k,
        {
            let mut line: String = "    ".to_owned();
            let error: &ErrorCount = &errors[order[k]];
            line.append(error.reason.as_str());
            line.append(": ");
            line.append(decimal_text(error.count).as_str());
            assert(line@ =~= error_line(*error));
            let ghost before = lines@;
            lines.push(line);
            proof {
                assert(order@.take(k + 1) =~= order@.take(k as int).push(order@[k as int]));
                assert(texts(lines@) =~= texts(before).push(line@));
                assert(texts(lines@) =~= seq!["  Errors:"@] + order@.take(k + 1).map_values(
                    |k: usize| error_line(errors@[k as int]),
                ));
            }
            k = k + 1;
        }
        assert(order@.take(k as int) =~= order@);
        assert(texts(lines@) =~= breakdown(errors@, order@));
        lines
    }
}

// ---------------------------------------------------------------------------
// What counting and ranking do
// ---------------------------------------------------------------------------

/// The list of counts and the map say the same: a reason is in the map just where it stands in
/// the list, with the count that stands beside it.
pub proof fn law_tally_is_the_list(errors: Seq<ErrorCount>, reason: Seq<char>)
    requires
        forall|i: int, j: int|
            0 <= i < j < errors.len() ==> (#[trigger] errors[i]).reason@ != (
            #[trigger] errors[j]).reason@,
    ensures
        tally(errors).dom().contains(reason) <==> exists|i: int|
            0 <= i < errors.len() && (#[trigger] errors[i]).reason@ == reason,
        forall|i: int|
            0 <= i < errors.len() && (#[trigger] errors[i]).reason@ == reason ==> tally(
                errors,
            )[reason] == errors[i].count,
{
    lemma_tally_holds(errors, reason);
    assert(distinct(errors));
    assert forall|i: int| 0 <= i < errors.len() && (#[trigger] errors[i]).reason@
        == reason implies tally(errors)[reason] == errors[i].count by {
        lemma_tally_at(errors, i);
    }
}

/// A new counter holds nothing; what is asked of a counter is the count in its map, and zero
/// for a reason that is not in it.
pub proof fn law_count_is_in_the_map(c: ErrorCounter, reason: &str, n: u64, fresh: ErrorCounter)
    ensures
        call_ensures(ErrorCounter::new, (), fresh) ==> forall|q: Seq<char>| !(
        #[trigger] fresh@.dom().contains(q)),
        call_ensures(ErrorCounter::count, (&c, reason), n) ==> (if c@.dom().contains(reason@) {
            n == c@[reason@]
        } else {
            n == 0
        }),
{
}

/// A record adds one to the count of its reason, and changes no other.
pub proof fn law_record_adds_one(c: &mut ErrorCounter, reason: &str, other: Seq<char>)
    requires
        old(c)@.dom().contains(reason@) ==> old(c)@[reason@] < u64::MAX,
        call_ensures(ErrorCounter::record, (c, reason), ()),
    ensures
        final(c)@.dom().contains(reason@),
        final(c)@[reason@] == (if old(c)@.dom().contains(reason@) {
            old(c)@[reason@] + 1
        } else {
            1
        }),
        other != reason@ ==> final(c)@.dom().contains(other) == old(c)@.dom().contains(other)
            && final(c)@[other] == old(c)@[other],
{
}

/// Taking the counts gives each reason once with its count, all of them, and leaves nothing.
pub proof fn law_take_gives_all(c: &mut ErrorCounter, r: Vec<ErrorCount>, reason: Seq<char>)
    requires
        call_ensures(ErrorCounter::take, (c,), r),
    ensures
        forall|i: int, j: int|
            0 <= i < j < r@.len() ==> (#[trigger] r@[i]).reason@ != (#[trigger] r@[j]).reason@,
        old(c)@.dom().contains(reason) <==> exists|i: int|
            0 <= i < r@.len() && (#[trigger] r@[i]).reason@ == reason,
        forall|i: int|
            0 <= i < r@.len() && (#[trigger] r@[i]).reason@ == reason ==> r@[i].count == old(
                c,
            )@[reason],
        !final(c)@.dom().contains(reason),
{
    law_tally_is_the_list(r@, reason);
}

/// Whatever was recorded, the count of a reason is how often it stands in the list of records.
pub proof fn law_counts_are_multiplicities(reasons: Seq<Seq<char>>, reason: Seq<char>)
    requires
        reasons.len() <= u64::MAX,
    ensures
        occurrences(reasons, reason) == reasons.to_multiset().count(reason),
        recorded(reasons).dom().contains(reason) <==> reasons.contains(reason),
        reasons.contains(reason) ==> recorded(reasons)[reason] == reasons.to_multiset().count(
            reason,
        ),
    decreases reasons.len(),
{
    broadcast use vstd::seq_lib::group_to_multiset_ensures;

    law_counts_occurrences(reasons, reason);
    lemma_occurrences(reasons, reason);
    assert(reasons.to_multiset().contains(reason) <==> reasons.contains(reason));
}

proof fn lemma_occurrences(reasons: Seq<Seq<char>>, reason: Seq<char>)
    ensures
        occurrences(reasons, reason) == reasons.to_multiset().count(reason),
    decreases reasons.len(),
{
    broadcast use vstd::seq_lib::group_to_multiset_ensures;

    if reasons.len() > 0 {
        let rest = reasons.drop_last();
        lemma_occurrences(rest, reason);
        assert(reasons =~= rest.push(reasons.last()));
    } else {
        assert(reasons =~= Seq::<Seq<char>>::empty());
    }
}

/// Whether `order` lists every position once, higher counts before lower ones, and equal counts
/// in the order of their positions.
pub open spec fn ranks(errors: Seq<ErrorCount>, order: Seq<usize>) -> bool {
    &&& order.len() == errors.len()
    &&& forall|i: int| 0 <= i < errors.len() ==> #[trigger] order.contains(i as usize)
    &&& forall|k: int| 0 <= k < order.len() ==> #[trigger] order[k] < errors.len()
    &&& forall|k: int, l: int|
        0 <= k < l < order.len() ==> {
            let (a, b) = (#[trigger] order[k], #[trigger] order[l]);
            &&& a != b
            &&& errors[a as int].count >= errors[b as int].count
            &&& errors[a as int].count == errors[b as int].count ==> a < b
        }
}

/// A ranking lists every error once, the more frequent ones first.
pub proof fn law_ranks(errors: Seq<ErrorCount>, order: Seq<usize>)
    requires
        is_ranking(errors, order),
        errors.len() <= usize::MAX,
    ensures
        ranks(errors, order),
{
    lemma_ranking_lists_all(errors, order);
    <usize as FiniteRange>::range_properties(0, errors.len() as usize);
    assert forall|i: int| 0 <= i < errors.len() implies #[trigger] order.contains(i as usize) by {
        assert(Set::<usize>::range(0, errors.len() as usize).contains(i as usize));
        assert(order.to_set().contains(i as usize));
    }
    assert forall|k: int, l: int| 0 <= k < l < order.len() implies {
        let (a, b) = (#[trigger] order[k], #[trigger] order[l]);
        &&& a != b
        &&& errors[a as int].count >= errors[b as int].count
        &&& errors[a as int].count == errors[b as int].count ==> a < b
    } by {
        assert(listed_before(errors, order[k], order[l]));
    }
}

/// The ranking and the printed breakdown: a heading and a line for every reason with its count,
/// the more frequent first; nothing at all without errors.
pub proof fn law_breakdown_reads(errors: Vec<ErrorCount>, order: Vec<usize>, lines: Vec<String>)
    requires
        call_ensures(ranking, (&errors,), order),
        call_ensures(ErrorCounter::summary_lines, (&errors,), lines),
    ensures
        ranks(errors@, order@),
        errors@.len() == 0 ==> lines@.len() == 0,
        errors@.len() > 0 ==> {
            &&& lines@.len() == errors@.len() + 1
            &&& lines@[0]@ == "  Errors:"@
            &&& forall|k: int|
                0 <= k < order@.len() ==> #[trigger] lines@[k + 1]@ == "    "@
                    + errors@[order@[k] as int].reason@ + ": "@ + decimal(
                    errors@[order@[k] as int].count as nat,
                )
        },
{
    assert(errors.len() == errors@.len());
    law_ranks(errors@, order@);
    let other = choose|other: Seq<usize>| #[trigger]
        is_ranking(errors@, other) && texts(lines@) == breakdown(errors@, other);
    law_ranking_is_unique(errors@, order@, other);
    assert(texts(lines@).len() == lines@.len());
    if errors@.len() > 0 {
        assert(texts(lines@)[0] == lines@[0]@);
        assert forall|k: int| 0 <= k < order@.len() implies #[trigger] lines@[k + 1]@ == "    "@
            + errors@[order@[k] as int].reason@ + ": "@ + decimal(
            errors@[order@[k] as int].count as nat,
        ) by {
            assert(texts(lines@)[k + 1] == lines@[k + 1]@);
            assert(breakdown(errors@, order@)[k + 1] == error_line(errors@[order@[k] as int]));
        }
    }
}

/// A breakdown holds each reason once, with the number of times that it was recorded, and none
/// that was not.
pub proof fn law_breakdown_is_exact(errors: Seq<ErrorCount>, reasons: Seq<Seq<char>>)
    requires
        reasons.len() <= u64::MAX,
        breaks_down(errors, reasons),
    ensures
        forall|i: int, j: int|
            0 <= i < j < errors.len() ==> (#[trigger] errors[i]).reason@ != (
            #[trigger] errors[j]).reason@,
        forall|i: int|
            0 <= i < errors.len() ==> (#[trigger] errors[i]).count == reasons.to_multiset().count(
                errors[i].reason@,
            ) && errors[i].count > 0,
        forall|reason: Seq<char>| #[trigger]
            reasons.contains(reason) ==> exists|i: int|
                0 <= i < errors.len() && (#[trigger] errors[i]).reason@ == reason,
{
    assert forall|i: int| 0 <= i < errors.len() implies (#[trigger] errors[i]).count
        == reasons.to_multiset().count(errors[i].reason@) && errors[i].count > 0 by {
        lemma_tally_at(errors, i);
        law_counts_are_multiplicities(reasons, errors[i].reason@);
        law_counts_occurrences(reasons, errors[i].reason@);
    }
    assert forall|reason: Seq<char>| #[trigger] reasons.contains(reason) implies exists|i: int|
        0 <= i < errors.len() && (#[trigger] errors[i]).reason@ == reason by {
        law_counts_are_multiplicities(reasons, reason);
        lemma_tally_holds(errors, reason);
    }
}

/// The counts of a list together: none without items, and one more item adds its count.
pub proof fn law_counts_together(errors: Seq<ErrorCount>, item: ErrorCount)
    ensures
        counted_in(Seq::empty()) == 0,
        counted_in(errors.push(item)) == counted_in(errors) + item.count,
{
    assert(errors.push(item).drop_last() =~= errors);
}

} // verus!
