//! Sequences without repetitions, and facts about filtered sequences that the
//! other modules lean on.

use vstd::prelude::*;

verus! {

/// A sequence without its repetitions: of every run of equal items that
/// follow one another, the first is kept.
pub open spec fn without_repeats<A>(items: Seq<A>) -> Seq<A>
    decreases items.len(),
{
    if items.len() == 0 {
        Seq::empty()
    } else if items.len() >= 2 && items[items.len() - 2] == items.last() {
        without_repeats(items.drop_last())
    } else {
        without_repeats(items.drop_last()).push(items.last())
    }
}

/// An item is in a filtered sequence exactly when it is in the sequence and
/// passes the test.
pub proof fn lemma_filter_membership<A>(items: Seq<A>, test: spec_fn(A) -> bool)
    ensures
        forall|item: A| #[trigger]
            items.filter(test).contains(item) <==> items.contains(item) && test(item),
{
    assert forall|item: A| #[trigger]
        items.filter(test).contains(item) <==> items.contains(item) && test(item) by {
        if items.filter(test).contains(item) {
            let i = choose|i: int| 0 <= i < items.filter(test).len() && items.filter(test)[i] == item;
            items.lemma_filter_pred(test, i);
            items.lemma_filter_contains_rev(test, item);
        }
        if items.contains(item) && test(item) {
            let i = choose|i: int| 0 <= i < items.len() && items[i] == item;
            items.lemma_filter_contains(test, i);
        }
    }
}

/// Filtering the first `n + 1` items: the filtered first `n`, and the next
/// item behind them where it passes the test.
pub proof fn lemma_filter_next<A>(items: Seq<A>, test: spec_fn(A) -> bool, n: int)
    requires
        0 <= n < items.len(),
    ensures
        items.take(n + 1).filter(test) == if test(items[n]) {
            items.take(n).filter(test).push(items[n])
        } else {
            items.take(n).filter(test)
        },
{
    assert(items.take(n + 1) =~= items.take(n).push(items[n]));
    items.take(n).lemma_filter_push(items[n], test);
}

/// Filtering nothing gives nothing.
pub proof fn lemma_filter_empty<A>(test: spec_fn(A) -> bool)
    ensures
        Seq::<A>::empty().filter(test) == Seq::<A>::empty(),
{
    Seq::<A>::empty().lemma_filter_len(test);
    assert(Seq::<A>::empty().filter(test) =~= Seq::<A>::empty());
}

/// Where every item passes the test, filtering changes nothing.
pub proof fn lemma_filter_all<A>(items: Seq<A>, test: spec_fn(A) -> bool)
    requires
        forall|i: int| 0 <= i < items.len() ==> test(#[trigger] items[i]),
    ensures
        items.filter(test) == items,
    decreases items.len(),
{
    if items.len() == 0 {
        lemma_filter_empty(test);
        assert(items =~= Seq::<A>::empty());
    } else {
        lemma_filter_all(items.drop_last(), test);
        assert(items =~= items.drop_last().push(items.last()));
        items.drop_last().lemma_filter_push(items.last(), test);
    }
}

/// Where no item passes the test, filtering leaves nothing.
pub proof fn lemma_filter_none<A>(items: Seq<A>, test: spec_fn(A) -> bool)
    requires
        forall|i: int| 0 <= i < items.len() ==> !test(#[trigger] items[i]),
    ensures
        items.filter(test) == Seq::<A>::empty(),
    decreases items.len(),
{
    if items.len() == 0 {
        lemma_filter_empty(test);
        assert(items =~= Seq::<A>::empty());
    } else {
        lemma_filter_none(items.drop_last(), test);
        assert(items =~= items.drop_last().push(items.last()));
        items.drop_last().lemma_filter_push(items.last(), test);
    }
}

/// Filtering by one test and then by another is filtering by both at once.
pub proof fn lemma_filter_twice<A>(
    items: Seq<A>,
    first: spec_fn(A) -> bool,
    second: spec_fn(A) -> bool,
    both: spec_fn(A) -> bool,
)
    requires
        forall|item: A| #[trigger] both(item) == (first(item) && second(item)),
    ensures
        items.filter(first).filter(second) == items.filter(both),
    decreases items.len(),
{
    if items.len() == 0 {
        lemma_filter_empty(first);
        lemma_filter_empty(second);
        lemma_filter_empty(both);
        assert(items =~= Seq::<A>::empty());
    } else {
        let front = items.drop_last();
        let last = items.last();
        lemma_filter_twice(front, first, second, both);
        assert(items =~= front.push(last));
        front.lemma_filter_push(last, first);
        front.lemma_filter_push(last, both);
        front.filter(first).lemma_filter_push(last, second);
        assert(both(last) == (first(last) && second(last)));
    }
}

/// The first item that passes the test is the first item of the filtered
/// sequence.
pub proof fn lemma_filter_first<A>(items: Seq<A>, test: spec_fn(A) -> bool, at: int)
    requires
        0 <= at < items.len(),
        test(items[at]),
        forall|before: int| 0 <= before < at ==> !test(#[trigger] items[before]),
    ensures
        items.filter(test).len() > 0,
        items.filter(test)[0] == items[at],
    decreases items.len(),
{
    let front = items.drop_last();
    assert(items =~= front.push(items.last()));
    front.lemma_filter_push(items.last(), test);
    if at == items.len() - 1 {
        lemma_filter_none(front, test);
    } else {
        lemma_filter_first(front, test, at);
    }
}

/// Filtering a sequence in which nothing occurs twice leaves a sequence in
/// which nothing occurs twice.
pub proof fn lemma_filter_no_duplicates<A>(items: Seq<A>, test: spec_fn(A) -> bool)
    requires
        items.no_duplicates(),
    ensures
        items.filter(test).no_duplicates(),
    decreases items.len(),
{
    if items.len() == 0 {
        lemma_filter_empty(test);
        assert(items =~= Seq::<A>::empty());
    } else {
        let front = items.drop_last();
        let last = items.last();
        assert(items =~= front.push(last));
        lemma_filter_no_duplicates(front, test);
        front.lemma_filter_push(last, test);
        lemma_filter_membership(front, test);
        assert(front.no_duplicates());
        assert(!front.contains(last)) by {
            if front.contains(last) {
                let i = choose|i: int| 0 <= i < front.len() && front[i] == last;
                assert(items[i] == items[items.len() - 1]);
            }
        }
        let kept = front.filter(test);
        assert(!kept.contains(last));
        if test(last) {
            assert forall|i: int, j: int|
                0 <= i < kept.push(last).len() && 0 <= j < kept.push(last).len() && i
                    != j implies kept.push(last)[i] != kept.push(last)[j] by {
                if i < kept.len() && j < kept.len() {
                    assert(kept[i] != kept[j]);
                } else if i < kept.len() {
                    assert(kept.contains(kept[i]));
                } else {
                    assert(kept.contains(kept[j]));
                }
            }
        }
    }
}

} // verus!
