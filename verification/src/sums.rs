//! Sums over workers.

use vstd::multiset::Multiset;
use vstd::prelude::*;

verus! {

/// The sum of a figure over all items.
pub open spec fn total<A>(items: Seq<A>, of: spec_fn(A) -> nat) -> nat
    decreases items.len(),
{
    if items.len() == 0 {
        0
    } else {
        total(items.drop_last(), of) + of(items.last())
    }
}

/// What all items hold together.
pub open spec fn gathered<A, B>(items: Seq<A>, of: spec_fn(A) -> Multiset<B>) -> Multiset<B>
    decreases items.len(),
{
    if items.len() == 0 {
        Multiset::empty()
    } else {
        gathered(items.drop_last(), of).add(of(items.last()))
    }
}

/// A change of one item changes the sum by that much.
pub proof fn lemma_total_update<A>(items: Seq<A>, k: int, item: A, of: spec_fn(A) -> nat)
    requires
        0 <= k < items.len(),
    ensures
        total(items.update(k, item), of) + of(items[k]) == total(items, of) + of(item),
    decreases items.len(),
{
    let changed = items.update(k, item);
    if k == items.len() - 1 {
        assert(changed.drop_last() =~= items.drop_last());
    } else {
        lemma_total_update(items.drop_last(), k, item, of);
        assert(changed.drop_last() =~= items.drop_last().update(k, item));
    }
}

/// Items with the same figure, none or one each, add up to none or to their number.
pub proof fn lemma_total_same<A>(items: Seq<A>, each: nat, of: spec_fn(A) -> nat)
    requires
        each <= 1,
        forall|k: int| 0 <= k < items.len() ==> #[trigger] of(items[k]) == each,
    ensures
        total(items, of) == if each == 0 {
            0
        } else {
            items.len()
        },
    decreases items.len(),
{
    if items.len() > 0 {
        let rest = items.drop_last();
        assert forall|k: int| 0 <= k < rest.len() implies #[trigger] of(rest[k]) == each by {
            assert(of(items[k]) == each);
        }
        lemma_total_same(rest, each, of);
        assert(of(items[items.len() - 1]) == each);
    }
}

/// Where one figure is the sum of two others for every item, so it is for all.
pub proof fn lemma_total_splits<A>(
    items: Seq<A>,
    whole: spec_fn(A) -> nat,
    first: spec_fn(A) -> nat,
    second: spec_fn(A) -> nat,
)
    requires
        forall|k: int|
            0 <= k < items.len() ==> #[trigger] whole(items[k]) == first(items[k]) + second(
                items[k],
            ),
    ensures
        total(items, whole) == total(items, first) + total(items, second),
    decreases items.len(),
{
    if items.len() > 0 {
        let rest = items.drop_last();
        assert forall|k: int| 0 <= k < rest.len() implies #[trigger] whole(rest[k]) == first(
            rest[k],
        ) + second(rest[k]) by {
            assert(whole(items[k]) == first(items[k]) + second(items[k]));
        }
        lemma_total_splits(rest, whole, first, second);
        assert(whole(items[items.len() - 1]) == first(items[items.len() - 1]) + second(
            items[items.len() - 1],
        ));
    }
}

/// Where one figure is at most another for every item, so it is for all.
pub proof fn lemma_total_at_most<A>(
    items: Seq<A>,
    less: spec_fn(A) -> nat,
    more: spec_fn(A) -> nat,
)
    requires
        forall|k: int| 0 <= k < items.len() ==> #[trigger] less(items[k]) <= more(items[k]),
    ensures
        total(items, less) <= total(items, more),
    decreases items.len(),
{
    if items.len() > 0 {
        let rest = items.drop_last();
        assert forall|k: int| 0 <= k < rest.len() implies #[trigger] less(rest[k]) <= more(
            rest[k],
        ) by {
            assert(less(items[k]) <= more(items[k]));
        }
        lemma_total_at_most(rest, less, more);
        assert(less(items[items.len() - 1]) <= more(items[items.len() - 1]));
    }
}

/// Sums of figures that are the same for every item are the same.
pub proof fn lemma_total_equal<A>(items: Seq<A>, a: spec_fn(A) -> nat, b: spec_fn(A) -> nat)
    requires
        forall|k: int| 0 <= k < items.len() ==> #[trigger] a(items[k]) == b(items[k]),
    ensures
        total(items, a) == total(items, b),
{
    assert forall|k: int| 0 <= k < items.len() implies #[trigger] b(items[k]) <= a(items[k]) by {
        assert(a(items[k]) == b(items[k]));
    }
    lemma_total_at_most(items, a, b);
    lemma_total_at_most(items, b, a);
}

/// An item adds its figure to the sum.
pub proof fn lemma_total_has<A>(items: Seq<A>, k: int, of: spec_fn(A) -> nat)
    requires
        0 <= k < items.len(),
    ensures
        of(items[k]) <= total(items, of),
    decreases items.len(),
{
    if k < items.len() - 1 {
        lemma_total_has(items.drop_last(), k, of);
    }
}

/// A change of one item changes what all hold by that much.
pub proof fn lemma_gathered_update<A, B>(
    items: Seq<A>,
    k: int,
    item: A,
    of: spec_fn(A) -> Multiset<B>,
)
    requires
        0 <= k < items.len(),
    ensures
        forall|x: B| #[trigger]
            gathered(items.update(k, item), of).count(x) + of(items[k]).count(x) == gathered(
                items,
                of,
            ).count(x) + of(item).count(x),
    decreases items.len(),
{
    let changed = items.update(k, item);
    let rest = items.drop_last();
    if k == items.len() - 1 {
        assert(changed.drop_last() =~= rest);
    } else {
        lemma_gathered_update(rest, k, item, of);
        assert(changed.drop_last() =~= rest.update(k, item));
        assert forall|x: B| #[trigger]
            gathered(changed, of).count(x) + of(items[k]).count(x) == gathered(items, of).count(x)
                + of(item).count(x) by {
            assert(gathered(rest.update(k, item), of).count(x) + of(rest[k]).count(x) == gathered(
                rest,
                of,
            ).count(x) + of(item).count(x));
        }
    }
}

/// Items that hold nothing hold nothing together.
pub proof fn lemma_gathered_none<A, B>(items: Seq<A>, of: spec_fn(A) -> Multiset<B>)
    requires
        forall|k: int| 0 <= k < items.len() ==> #[trigger] of(items[k]) == Multiset::<B>::empty(),
    ensures
        gathered(items, of) == Multiset::<B>::empty(),
    decreases items.len(),
{
    if items.len() > 0 {
        let rest = items.drop_last();
        assert forall|k: int| 0 <= k < rest.len() implies #[trigger] of(rest[k])
            == Multiset::<B>::empty() by {
            assert(of(items[k]) == Multiset::<B>::empty());
        }
        lemma_gathered_none(rest, of);
        assert(of(items[items.len() - 1]) == Multiset::<B>::empty());
        assert(gathered(items, of) =~= Multiset::<B>::empty());
    }
}

/// What an item holds is among what all hold.
pub proof fn lemma_gathered_has<A, B>(
    items: Seq<A>,
    k: int,
    of: spec_fn(A) -> Multiset<B>,
    x: B,
)
    requires
        0 <= k < items.len(),
    ensures
        of(items[k]).count(x) <= gathered(items, of).count(x),
    decreases items.len(),
{
    if k < items.len() - 1 {
        lemma_gathered_has(items.drop_last(), k, of, x);
    }
}

/// One more item adds its figure to the sum and what it holds to what is held.
pub proof fn law_sums_grow<A, B>(
    items: Seq<A>,
    item: A,
    figure: spec_fn(A) -> nat,
    holds: spec_fn(A) -> Multiset<B>,
)
    ensures
        total(Seq::<A>::empty(), figure) == 0,
        total(items.push(item), figure) == total(items, figure) + figure(item),
        gathered(Seq::<A>::empty(), holds) == Multiset::<B>::empty(),
        gathered(items.push(item), holds) == gathered(items, holds).add(holds(item)),
{
    assert(items.push(item).drop_last() =~= items);
}

} // verus!
