//! The difference between the relations that are stored and those that are
//! wanted: what has to be created and what has to be deleted.

use vstd::prelude::*;
use crate::relation::{Triple, TripleView};

verus! {

/// The items of a sequence, each of them once, in the order in which they
/// first appear.
pub open spec fn distinct<A>(items: Seq<A>) -> Seq<A>
    decreases items.len(),
{
    if items.len() == 0 {
        Seq::empty()
    } else {
        let front = distinct(items.drop_last());
        if front.contains(items.last()) {
            front
        } else {
            front.push(items.last())
        }
    }
}

/// The test for not occurring in `other`.
pub open spec fn not_in<A>(other: Seq<A>) -> spec_fn(A) -> bool {
    |item: A| !other.contains(item)
}

/// The items of `items` that do not occur in `other`, each of them once, in
/// the order in which they first appear in `items`.
pub open spec fn lacking<A>(items: Seq<A>, other: Seq<A>) -> Seq<A> {
    distinct(items.filter(not_in(other)))
}

/// Appending an item to a sequence appends it to the distinct items unless it
/// is among them already.
pub proof fn lemma_distinct_push<A>(items: Seq<A>, item: A)
    ensures
        distinct(items.push(item)) == if distinct(items).contains(item) {
            distinct(items)
        } else {
            distinct(items).push(item)
        },
{
    assert(items.push(item).drop_last() =~= items);
}

/// The distinct items of a sequence are the items of the sequence, and none
/// of them occurs twice.
pub proof fn lemma_distinct<A>(items: Seq<A>)
    ensures
        distinct(items).no_duplicates(),
        forall|item: A| #[trigger] distinct(items).contains(item) <==> items.contains(item),
        distinct(items).to_set() == items.to_set(),
    decreases items.len(),
{
    if items.len() > 0 {
        let front = items.drop_last();
        let last = items.last();
        lemma_distinct(front);
        assert(items =~= front.push(last));
        assert forall|item: A| #[trigger] distinct(items).contains(item) <==> items.contains(
            item,
        ) by {
            if items.contains(item) {
                let i = choose|i: int| 0 <= i < items.len() && items[i] == item;
                if i < front.len() {
                    assert(front[i] == item);
                    assert(front.contains(item));
                    assert(distinct(front).contains(item));
                    if !distinct(front).contains(last) {
                        let j = choose|j: int|
                            0 <= j < distinct(front).len() && distinct(front)[j] == item;
                        assert(distinct(front).push(last)[j] == item);
                    }
                } else {
                    assert(item == last);
                    if !distinct(front).contains(last) {
                        assert(distinct(front).push(last)[distinct(front).len() as int] == last);
                    }
                }
            }
            if distinct(items).contains(item) {
                let j = choose|j: int| 0 <= j < distinct(items).len() && distinct(items)[j] == item;
                if j < distinct(front).len() {
                    assert(distinct(front)[j] == item);
                    assert(distinct(front).contains(item));
                    let i = choose|i: int| 0 <= i < front.len() && front[i] == item;
                    assert(items[i] == item);
                } else {
                    assert(item == last);
                    assert(items[items.len() - 1] == last);
                }
            }
        }
    }
    assert(distinct(items).to_set() =~= items.to_set());
}

/// An item is lacking exactly when it occurs in `items` and not in `other`,
/// and no lacking item is listed twice.
pub proof fn lemma_lacking<A>(items: Seq<A>, other: Seq<A>)
    ensures
        lacking(items, other).no_duplicates(),
        forall|item: A| #[trigger]
            lacking(items, other).contains(item) <==> items.contains(item) && !other.contains(
                item,
            ),
        lacking(items, other).to_set() == items.to_set().difference(other.to_set()),
{
    let kept = items.filter(not_in(other));
    lemma_distinct(kept);
    assert forall|item: A| #[trigger]
        lacking(items, other).contains(item) <==> items.contains(item) && !other.contains(
            item,
        ) by {
        assert(lacking(items, other).contains(item) <==> kept.contains(item));
        if kept.contains(item) {
            let i = choose|i: int| 0 <= i < kept.len() && kept[i] == item;
            items.lemma_filter_pred(not_in(other), i);
            items.lemma_filter_contains_rev(not_in(other), item);
        }
        if items.contains(item) && !other.contains(item) {
            let i = choose|i: int| 0 <= i < items.len() && items[i] == item;
            items.lemma_filter_contains(not_in(other), i);
        }
    }
    assert(lacking(items, other).to_set() =~= items.to_set().difference(other.to_set()));
}

/// What has to happen to the stored relations: which to create, which to
/// delete.
#[derive(Debug)]
pub struct Diff<T> {
    /// What is wanted and not stored.
    pub new: Vec<T>,
    /// What is stored and not wanted.
    pub deleted: Vec<T>,
}

/// Whether a relation occurs in a list.
pub fn contains_triple(list: &[Triple], triple: &Triple) -> (found: bool)
    ensures
        found == list.deep_view().contains(triple@),
{
    let mut i: usize = 0;
    while i < list.len()
        invariant
            i <= list.len(),
            forall|j: int| 0 <= j < i ==> list.deep_view()[j] != triple@,
        decreases list.len() - i,
    {
        if list[i] == *triple {
            assert(list.deep_view()[i as int] == triple@);
            return true;
        }
        i += 1;
    }
    false
}

/// The relations of `items` that `other` lacks, each once.
fn lacking_triples(items: &[Triple], other: &[Triple]) -> (out: Vec<Triple>)
    ensures
        out.deep_view() == lacking(items.deep_view(), other.deep_view()),
{
    let mut out: Vec<Triple> = Vec::new();
    let mut i: usize = 0;
    proof {
        let nothing = Seq::<TripleView>::empty();
        assert(items.deep_view().take(0) =~= nothing);
        assert(out.deep_view() =~= nothing);
        nothing.lemma_filter_len(not_in(other.deep_view()));
        assert(nothing.filter(not_in(other.deep_view())) =~= nothing);
    }
    while i < items.len()
        invariant
            i <= items.len(),
            out.deep_view() == lacking(items.deep_view().take(i as int), other.deep_view()),
        decreases items.len() - i,
    {
        let ghost seen = items.deep_view().take(i as int);
        let ghost before = out.deep_view();
        let is_new = !contains_triple(other, &items[i]) && !contains_triple(out.as_slice(), &items[i]);
        if is_new {
            out.push(items[i].clone());
        }
        proof {
            let item = items.deep_view()[i as int];
            assert(items.deep_view().take(i + 1) =~= seen.push(item));
            seen.lemma_filter_push(item, not_in(other.deep_view()));
            lemma_distinct_push(seen.filter(not_in(other.deep_view())), item);
            if is_new {
                assert(out.deep_view() =~= before.push(item));
            } else {
                assert(out.deep_view() =~= before);
            }
        }
        i += 1;
    }
    assert(items.deep_view().take(items.len() as int) =~= items.deep_view());
    out
}

/// What has to be created and what has to be deleted to turn the relations
/// `old` into the relations `new`.
///
/// Either list may hold a relation more than once; the result lists each
/// relation once, in the order of the list it is taken from.
pub fn get_triple_diff(old: &[Triple], new: &[Triple]) -> (diff: Diff<Triple>)
    ensures
        diff.new.deep_view() == lacking(new.deep_view(), old.deep_view()),
        diff.deleted.deep_view() == lacking(old.deep_view(), new.deep_view()),
{
    let to_create = lacking_triples(new, old);
    let to_delete = lacking_triples(old, new);
    Diff { new: to_create, deleted: to_delete }
}

/// Creating what the difference lists as new and then deleting what it lists
/// as deleted turns the set of the old relations into the set of the new
/// ones.
pub proof fn lemma_diff_turns_old_into_new<A>(old: Seq<A>, new: Seq<A>)
    ensures
        old.to_set().union(lacking(new, old).to_set()).difference(lacking(old, new).to_set())
            == new.to_set(),
{
    lemma_lacking(new, old);
    lemma_lacking(old, new);
    assert(old.to_set().union(lacking(new, old).to_set()).difference(lacking(old, new).to_set())
        =~= new.to_set());
}

/// Once a difference has been applied, nothing is left to do: against any
/// listing of the relations that are then stored, the difference to the same
/// wanted relations is empty on both sides.
pub proof fn lemma_diff_of_result_is_empty<A>(old: Seq<A>, new: Seq<A>, result: Seq<A>)
    requires
        result.to_set() == old.to_set().union(lacking(new, old).to_set()).difference(
            lacking(old, new).to_set(),
        ),
    ensures
        lacking(new, result) == Seq::<A>::empty(),
        lacking(result, new) == Seq::<A>::empty(),
{
    lemma_diff_turns_old_into_new(old, new);
    lemma_same_set_nothing_lacking(new, result);
    lemma_same_set_nothing_lacking(result, new);
}

/// Two lists that hold the same items, in whatever order and however often,
/// lack nothing of each other.
pub proof fn lemma_same_set_nothing_lacking<A>(items: Seq<A>, other: Seq<A>)
    requires
        items.to_set() == other.to_set(),
    ensures
        lacking(items, other) == Seq::<A>::empty(),
{
    lemma_lacking(items, other);
    if lacking(items, other).len() > 0 {
        let item = lacking(items, other)[0];
        assert(lacking(items, other).contains(item));
        assert(items.to_set().contains(item));
        assert(other.to_set().contains(item));
    }
    assert(lacking(items, other) =~= Seq::<A>::empty());
}

} // verus!
