//! Reconciliation: making the stored tag relations of an entry agree with the
//! tags that are wanted for it.

use vstd::prelude::*;
use crate::db::Db;
use crate::diff::{
    get_triple_diff, lacking, lemma_lacking, lemma_same_set_nothing_lacking, not_in,
};
use crate::error::{Error, RepoError};
use crate::relation::{EntityKind, ObjectId, ObjectIdView, Relation, Triple, TripleView};
use crate::sequences::{
    lemma_filter_all, lemma_filter_empty, lemma_filter_membership, lemma_filter_next,
    lemma_filter_no_duplicates, lemma_filter_none, lemma_filter_twice,
};
use crate::store::{other_than, storage_failed, Store};
use crate::tagging::{create_missing_tags, lemma_materialized_twice, materialized};

verus! {

/// The relation that says that an entry is tagged with a tag.
pub open spec fn tagging(entry: Seq<char>, name: Seq<char>) -> TripleView {
    TripleView {
        subject: ObjectIdView { kind: EntityKind::Entry, id: entry },
        predicate: Relation::IsTaggedWith,
        object: ObjectIdView { kind: EntityKind::Tag, id: name },
    }
}

/// The test for saying of the entry that it is tagged with something.
pub open spec fn is_tagging_of(entry: Seq<char>) -> spec_fn(TripleView) -> bool {
    |triple: TripleView|
        triple.subject == (ObjectIdView { kind: EntityKind::Entry, id: entry })
            && triple.predicate == Relation::IsTaggedWith
}

/// The relations, among `triples`, that tag the entry.
pub open spec fn taggings_of(triples: Seq<TripleView>, entry: Seq<char>) -> Seq<TripleView> {
    triples.filter(is_tagging_of(entry))
}

/// The relations that tag the entry with each of the names, in their order.
pub open spec fn wanted(entry: Seq<char>, names: Seq<Seq<char>>) -> Seq<TripleView> {
    Seq::new(names.len(), |i: int| tagging(entry, names[i]))
}

/// The relations that have to be created to tag the entry with the names.
pub open spec fn to_create(triples: Seq<TripleView>, entry: Seq<char>, names: Seq<Seq<char>>) -> Seq<
    TripleView,
> {
    lacking(wanted(entry, names), taggings_of(triples, entry))
}

/// The relations that have to be deleted to tag the entry with the names only.
pub open spec fn to_delete(triples: Seq<TripleView>, entry: Seq<char>, names: Seq<Seq<char>>) -> Seq<
    TripleView,
> {
    lacking(taggings_of(triples, entry), wanted(entry, names))
}

/// The storage after the entry has been given exactly the tags of the names:
/// every name has its tag, the relations that were lacking come last, and
/// those that are no longer wanted are gone.
pub open spec fn reconciled(store: Store, entry: Seq<char>, names: Seq<Seq<char>>) -> Store {
    Store {
        tags: materialized(store.tags, names),
        triples: (store.triples + to_create(store.triples, entry, names)).filter(
            not_in(to_delete(store.triples, entry, names)),
        ),
        ..store
    }
}

/// Whether `after` is a state that a reconciliation passes through on its way
/// from `before`: some of the tags made, or all tags made and some of the
/// relations created, or those created and some of the others deleted.
pub open spec fn partly_reconciled(
    before: Store,
    entry: Seq<char>,
    names: Seq<Seq<char>>,
    after: Store,
) -> bool {
    let ready = before.with_tags(materialized(before.tags, names));
    let creations = to_create(before.triples, entry, names);
    let deletions = to_delete(before.triples, entry, names);
    ||| exists|done: int|
        0 <= done <= names.len() && after == before.with_tags(
            materialized(before.tags, #[trigger] names.take(done)),
        )
    ||| exists|done: int|
        0 <= done <= creations.len() && after == ready.with_triples(
            before.triples + #[trigger] creations.take(done),
        )
    ||| exists|done: int|
        0 <= done <= deletions.len() && after == ready.with_triples(
            (before.triples + creations).filter(not_in(#[trigger] deletions.take(done))),
        )
}

/// How a reconciliation may end.
///
/// With a reliable storage it succeeds, and the storage is reconciled. A
/// storage that is not reliable may fail on its own; then the failure `own`
/// that it reported is handed back as it is, and the reconciliation has
/// stopped midway.
pub open spec fn reconciliation_outcome(
    before: Store,
    reliable: bool,
    entry: Seq<char>,
    names: Seq<Seq<char>>,
    after: Store,
    own: RepoError,
    res: Result<(), Error>,
) -> bool {
    match res {
        Ok(()) => after == reconciled(before, entry, names),
        Err(failure) => !reliable && storage_failed(failure, own) && partly_reconciled(
            before,
            entry,
            names,
            after,
        ),
    }
}

/// A relation that is to be created is not stored yet, and is not among the
/// creations before it.
pub proof fn lemma_creation_is_new(
    triples: Seq<TripleView>,
    entry: Seq<char>,
    names: Seq<Seq<char>>,
    at: int,
)
    requires
        0 <= at < to_create(triples, entry, names).len(),
    ensures
        !(triples + to_create(triples, entry, names).take(at)).contains(
            to_create(triples, entry, names)[at],
        ),
{
    let creations = to_create(triples, entry, names);
    let new = wanted(entry, names);
    let old = taggings_of(triples, entry);
    let item = creations[at];
    lemma_lacking(new, old);
    assert(creations.contains(item));
    assert(new.contains(item));
    let i = choose|i: int| 0 <= i < new.len() && new[i] == item;
    assert(is_tagging_of(entry)(item));
    lemma_filter_membership(triples, is_tagging_of(entry));
    assert(!triples.contains(item));
    let held = triples + creations.take(at);
    if held.contains(item) {
        let j = choose|j: int| 0 <= j < held.len() && held[j] == item;
        if j < triples.len() {
            assert(triples[j] == item);
        } else {
            assert(creations[j - triples.len()] == item);
        }
    }
}

/// The relations, among `all`, of which `subject` is the subject and tagging
/// the predicate.
fn taggings_for(all: &Vec<Triple>, subject: &ObjectId, Ghost(entry): Ghost<Seq<char>>) -> (out: Vec<
    Triple,
>)
    requires
        subject@ == (ObjectIdView { kind: EntityKind::Entry, id: entry }),
    ensures
        out.deep_view() == taggings_of(all.deep_view(), entry),
{
    let mut out: Vec<Triple> = Vec::new();
    let mut i: usize = 0;
    proof {
        lemma_filter_empty(is_tagging_of(entry));
        assert(all.deep_view().take(0) =~= Seq::empty());
        assert(out.deep_view() =~= Seq::empty());
    }
    while i < all.len()
        invariant
            i <= all.len(),
            subject@ == (ObjectIdView { kind: EntityKind::Entry, id: entry }),
            out.deep_view() == all.deep_view().take(i as int).filter(is_tagging_of(entry)),
        decreases all.len() - i,
    {
        let ghost before = out.deep_view();
        proof {
            lemma_filter_next(all.deep_view(), is_tagging_of(entry), i as int);
        }
        if all[i].subject == *subject && all[i].predicate == Relation::IsTaggedWith {
            out.push(all[i].clone());
            assert(out.deep_view() =~= before.push(all.deep_view()[i as int]));
        }
        i += 1;
    }
    assert(all.deep_view().take(all.len() as int) =~= all.deep_view());
    out
}

/// The relations that tag `subject` with each of the names.
fn taggings_wanted(subject: &ObjectId, tags: &[String], Ghost(entry): Ghost<Seq<char>>) -> (out: Vec<
    Triple,
>)
    requires
        subject@ == (ObjectIdView { kind: EntityKind::Entry, id: entry }),
    ensures
        out.deep_view() == wanted(entry, tags.deep_view()),
{
    let mut out: Vec<Triple> = Vec::new();
    let mut i: usize = 0;
    while i < tags.len()
        invariant
            i <= tags.len(),
            subject@ == (ObjectIdView { kind: EntityKind::Entry, id: entry }),
            out.len() == i,
            forall|j: int| 0 <= j < i ==> #[trigger] out.deep_view()[j] == tagging(entry, tags[j]@),
        decreases tags.len() - i,
    {
        let ghost before = out.deep_view();
        out.push(
            Triple {
                subject: subject.clone(),
                predicate: Relation::IsTaggedWith,
                object: ObjectId::Tag(tags[i].clone()),
            },
        );
        assert(out.deep_view() =~= before.push(tagging(entry, tags[i as int]@)));
        i += 1;
    }
    assert(out.deep_view() =~= wanted(entry, tags.deep_view()));
    out
}

/// Creates the relations of the list, one after the other.
fn create_triples<D: Db>(db: &mut D, list: &Vec<Triple>) -> (res: Result<(), Error>)
    requires
        forall|at: int|
            0 <= at < list.len() ==> !(old(db).store().triples + #[trigger] list.deep_view().take(
                at,
            )).contains(list.deep_view()[at]),
    ensures
        final(db).reliable() == old(db).reliable(),
        match res {
            Ok(()) => final(db).store() == old(db).store().with_triples(
                old(db).store().triples + list.deep_view(),
            ),
            Err(failure) => {
                &&& !old(db).reliable()
                &&& storage_failed(failure, final(db).own_failure())
                &&& exists|done: int|
                    0 <= done <= list.len() && final(db).store() == old(db).store().with_triples(
                        old(db).store().triples + #[trigger] list.deep_view().take(done),
                    )
            },
        },
{
    let ghost before = db.store();
    let ghost creations = list.deep_view();
    let mut i: usize = 0;
    proof {
        assert(before.triples + creations.take(0) =~= before.triples);
    }
    while i < list.len()
        invariant
            i <= list.len(),
            creations == list.deep_view(),
            before == old(db).store(),
            db.reliable() == old(db).reliable(),
            forall|at: int|
                0 <= at < creations.len() ==> !(before.triples + #[trigger] creations.take(
                    at,
                )).contains(creations[at]),
            db.store() == before.with_triples(before.triples + creations.take(i as int)),
        decreases list.len() - i,
    {
        proof {
            assert(!(before.triples + creations.take(i as int)).contains(creations[i as int]));
            assert((before.triples + creations.take(i as int)).push(creations[i as int])
                =~= before.triples + creations.take(i + 1));
        }
        match db.create_triple(&list[i]) {
            Ok(()) => {},
            Err(cause) => {
                return Err(Error::Repo(cause));
            },
        }
        i += 1;
    }
    proof {
        assert(creations.take(creations.len() as int) =~= creations);
    }
    Ok(())
}

/// Deleting one more relation: what is left is what is none of the relations
/// deleted so far nor that one.
proof fn lemma_delete_next(triples: Seq<TripleView>, deletions: Seq<TripleView>, at: int)
    requires
        0 <= at < deletions.len(),
    ensures
        triples.filter(not_in(deletions.take(at))).filter(other_than(deletions[at]))
            == triples.filter(not_in(deletions.take(at + 1))),
{
    let gone = deletions[at];
    assert(deletions.take(at + 1) =~= deletions.take(at).push(gone));
    assert forall|item: TripleView| #[trigger]
        not_in(deletions.take(at + 1))(item) == (not_in(deletions.take(at))(item) && other_than(
            gone,
        )(item)) by {
        if deletions.take(at).contains(item) {
            let k = choose|k: int|
                0 <= k < deletions.take(at).len() && deletions.take(at)[k] == item;
            assert(deletions.take(at + 1)[k] == item);
        }
        if item == gone {
            assert(deletions.take(at + 1)[at] == item);
        }
    }
    lemma_filter_twice(
        triples,
        not_in(deletions.take(at)),
        other_than(gone),
        not_in(deletions.take(at + 1)),
    );
}

/// Deletes the relations of the list, one after the other.
fn delete_triples<D: Db>(db: &mut D, list: &Vec<Triple>) -> (res: Result<(), Error>)
    ensures
        final(db).reliable() == old(db).reliable(),
        match res {
            Ok(()) => final(db).store() == old(db).store().with_triples(
                old(db).store().triples.filter(not_in(list.deep_view())),
            ),
            Err(failure) => {
                &&& !old(db).reliable()
                &&& storage_failed(failure, final(db).own_failure())
                &&& exists|done: int|
                    0 <= done <= list.len() && final(db).store() == old(db).store().with_triples(
                        old(db).store().triples.filter(
                            not_in(#[trigger] list.deep_view().take(done)),
                        ),
                    )
            },
        },
{
    let ghost before = db.store();
    let ghost deletions = list.deep_view();
    let mut j: usize = 0;
    proof {
        assert(deletions.take(0) =~= Seq::empty());
        lemma_filter_all(before.triples, not_in(deletions.take(0)));
    }
    while j < list.len()
        invariant
            j <= list.len(),
            deletions == list.deep_view(),
            before == old(db).store(),
            db.reliable() == old(db).reliable(),
            db.store() == before.with_triples(
                before.triples.filter(not_in(deletions.take(j as int))),
            ),
        decreases list.len() - j,
    {
        proof {
            lemma_delete_next(before.triples, deletions, j as int);
        }
        match db.delete_triple(&list[j]) {
            Ok(()) => {},
            Err(cause) => {
                return Err(Error::Repo(cause));
            },
        }
        j += 1;
    }
    proof {
        assert(deletions.take(deletions.len() as int) =~= deletions);
    }
    Ok(())
}

/// Gives the entry exactly the tags of the list.
///
/// A tag is made to exist for each name. Then the stored relations that tag
/// the entry are compared with those that are wanted; what is lacking is
/// created, and what is no longer wanted is deleted after that. A failure of
/// the storage ends the work where it stands: what was done before stays done.
pub fn set_tag_relations<D: Db>(db: &mut D, entry: &str, tags: &[String]) -> (res: Result<
    (),
    Error,
>)
    ensures
        final(db).reliable() == old(db).reliable(),
        reconciliation_outcome(
            old(db).store(),
            old(db).reliable(),
            entry@,
            tags.deep_view(),
            final(db).store(),
            final(db).own_failure(),
            res,
        ),
{
    let ghost before = db.store();
    let ghost names = tags.deep_view();
    let ghost ready = before.with_tags(materialized(before.tags, names));
    let ghost creations = to_create(before.triples, entry@, names);
    match create_missing_tags(db, tags) {
        Ok(()) => {},
        Err(failure) => {
            return Err(failure);
        },
    }
    let subject = ObjectId::Entry(entry.to_owned());
    let all_triples = match db.all_triples() {
        Ok(all) => all,
        Err(cause) => {
            proof {
                assert(before.triples + creations.take(0) =~= before.triples);
                assert(db.store() == ready.with_triples(before.triples + creations.take(0)));
            }
            return Err(Error::Repo(cause));
        },
    };
    let old_triples = taggings_for(&all_triples, &subject, Ghost(entry@));
    let new_triples = taggings_wanted(&subject, tags, Ghost(entry@));
    let diff = get_triple_diff(old_triples.as_slice(), new_triples.as_slice());
    proof {
        assert forall|at: int| 0 <= at < creations.len() implies !(before.triples
            + #[trigger] creations.take(at)).contains(creations[at]) by {
            lemma_creation_is_new(before.triples, entry@, names, at);
        }
    }
    match create_triples(db, &diff.new) {
        Ok(()) => {},
        Err(failure) => {
            return Err(failure);
        },
    }
    match delete_triples(db, &diff.deleted) {
        Ok(()) => {},
        Err(failure) => {
            assert(diff.deleted.deep_view() == to_delete(before.triples, entry@, names));
            return Err(failure);
        },
    }
    Ok(())
}

/// The test for not saying of the entry that it is tagged with something.
pub open spec fn is_no_tagging_of(entry: Seq<char>) -> spec_fn(TripleView) -> bool {
    |triple: TripleView| !is_tagging_of(entry)(triple)
}

/// A relation is stored after a reconciliation exactly when it was stored and
/// is not to be deleted, or is to be created.
pub proof fn lemma_reconciled_holds(store: Store, entry: Seq<char>, names: Seq<Seq<char>>)
    ensures
        forall|triple: TripleView| #[trigger]
            reconciled(store, entry, names).triples.contains(triple) <==> (store.triples.contains(
                triple,
            ) || to_create(store.triples, entry, names).contains(triple)) && !to_delete(
                store.triples,
                entry,
                names,
            ).contains(triple),
{
    let creations = to_create(store.triples, entry, names);
    let deletions = to_delete(store.triples, entry, names);
    let held = store.triples + creations;
    lemma_filter_membership(held, not_in(deletions));
    assert forall|triple: TripleView| #[trigger]
        held.contains(triple) <==> store.triples.contains(triple) || creations.contains(
            triple,
        ) by {
        if held.contains(triple) {
            let i = choose|i: int| 0 <= i < held.len() && held[i] == triple;
            if i < store.triples.len() {
                assert(store.triples[i] == triple);
            } else {
                assert(creations[i - store.triples.len()] == triple);
            }
        }
        if store.triples.contains(triple) {
            let i = choose|i: int| 0 <= i < store.triples.len() && store.triples[i] == triple;
            assert(held[i] == triple);
        }
        if creations.contains(triple) {
            let i = choose|i: int| 0 <= i < creations.len() && creations[i] == triple;
            assert(held[store.triples.len() + i] == triple);
        }
    }
}

/// After a reconciliation, the relations that tag the entry are those that
/// were wanted: the entry has each of the tags of the list and no other.
pub proof fn lemma_reconciled_tags(store: Store, entry: Seq<char>, names: Seq<Seq<char>>)
    ensures
        taggings_of(reconciled(store, entry, names).triples, entry).to_set() == wanted(
            entry,
            names,
        ).to_set(),
{
    let new = wanted(entry, names);
    let old = taggings_of(store.triples, entry);
    let after = reconciled(store, entry, names).triples;
    lemma_reconciled_holds(store, entry, names);
    lemma_lacking(new, old);
    lemma_lacking(old, new);
    lemma_filter_membership(store.triples, is_tagging_of(entry));
    lemma_filter_membership(after, is_tagging_of(entry));
    assert forall|triple: TripleView| new.contains(triple) implies is_tagging_of(entry)(
        triple,
    ) by {
        let i = choose|i: int| 0 <= i < new.len() && new[i] == triple;
    }
    assert forall|triple: TripleView|
        taggings_of(after, entry).to_set().contains(triple) <==> new.to_set().contains(
            triple,
        ) by {
        assert(taggings_of(after, entry).contains(triple) <==> after.contains(triple)
            && is_tagging_of(entry)(triple));
        assert(old.contains(triple) <==> store.triples.contains(triple) && is_tagging_of(entry)(
            triple,
        ));
        assert(lacking(new, old).contains(triple) <==> new.contains(triple) && !old.contains(
            triple,
        ));
        assert(lacking(old, new).contains(triple) <==> old.contains(triple) && !new.contains(
            triple,
        ));
    }
    assert(taggings_of(after, entry).to_set() =~= new.to_set());
}

/// A reconciliation leaves every other relation where it is: those of other
/// entries, and those with another predicate.
pub proof fn lemma_reconciled_keeps_others(store: Store, entry: Seq<char>, names: Seq<Seq<char>>)
    ensures
        reconciled(store, entry, names).triples.filter(is_no_tagging_of(entry))
            == store.triples.filter(is_no_tagging_of(entry)),
{
    let new = wanted(entry, names);
    let old = taggings_of(store.triples, entry);
    let creations = to_create(store.triples, entry, names);
    let deletions = to_delete(store.triples, entry, names);
    let others = is_no_tagging_of(entry);
    lemma_lacking(new, old);
    lemma_lacking(old, new);
    lemma_filter_membership(store.triples, is_tagging_of(entry));
    // What is to be deleted tags the entry, so no other relation is filtered out.
    assert forall|triple: TripleView| #[trigger]
        others(triple) == (not_in(deletions)(triple) && others(triple)) by {
        if deletions.contains(triple) {
            assert(old.contains(triple));
        }
    }
    lemma_filter_twice(store.triples + creations, not_in(deletions), others, others);
    // What is to be created tags the entry, so it is none of the others.
    assert forall|i: int| 0 <= i < creations.len() implies !others(#[trigger] creations[i]) by {
        assert(creations.contains(creations[i]));
        assert(new.contains(creations[i]));
        let k = choose|k: int| 0 <= k < new.len() && new[k] == creations[i];
    }
    lemma_filter_none(creations, others);
    Seq::filter_distributes_over_add(store.triples, creations, others);
    assert(store.triples.filter(others) + Seq::<TripleView>::empty() =~= store.triples.filter(
        others,
    ));
}

/// Reconciling a second time with the same tags changes nothing: nothing is
/// created, nothing is deleted, and the storage stays as the first
/// reconciliation left it.
pub proof fn lemma_reconciled_twice(store: Store, entry: Seq<char>, names: Seq<Seq<char>>)
    ensures
        to_create(reconciled(store, entry, names).triples, entry, names) == Seq::<
            TripleView,
        >::empty(),
        to_delete(reconciled(store, entry, names).triples, entry, names) == Seq::<
            TripleView,
        >::empty(),
        reconciled(reconciled(store, entry, names), entry, names) == reconciled(
            store,
            entry,
            names,
        ),
{
    let once = reconciled(store, entry, names);
    let new = wanted(entry, names);
    let old = taggings_of(once.triples, entry);
    lemma_reconciled_tags(store, entry, names);
    lemma_same_set_nothing_lacking(new, old);
    lemma_same_set_nothing_lacking(old, new);
    lemma_materialized_twice(store.tags, names);
    let nothing = Seq::<TripleView>::empty();
    assert(once.triples + nothing =~= once.triples);
    lemma_filter_all(once.triples, not_in(nothing));
}

/// A reconciliation stores no relation twice, where none was stored twice
/// before.
pub proof fn lemma_reconciled_no_duplicates(store: Store, entry: Seq<char>, names: Seq<Seq<char>>)
    requires
        store.triples.no_duplicates(),
    ensures
        reconciled(store, entry, names).triples.no_duplicates(),
{
    let creations = to_create(store.triples, entry, names);
    let deletions = to_delete(store.triples, entry, names);
    lemma_lacking(wanted(entry, names), taggings_of(store.triples, entry));
    assert forall|i: int, j: int|
        0 <= i < store.triples.len() && 0 <= j < creations.len() implies store.triples[i]
        != creations[j] by {
        lemma_creation_is_new(store.triples, entry, names, j);
        if store.triples[i] == creations[j] {
            assert((store.triples + creations.take(j))[i] == creations[j]);
        }
    }
    vstd::seq_lib::lemma_no_dup_in_concat(store.triples, creations);
    lemma_filter_no_duplicates(store.triples + creations, not_in(deletions));
}

/// Reconciling twice in a row with the same tags, with a reliable storage:
/// both times it succeeds, and the second time the storage stays as it is.
/// The entry then has the wanted tags and no others, and where no relation
/// was stored twice before, none is after.
pub proof fn lemma_reconciling_twice(
    before: Store,
    entry: Seq<char>,
    names: Seq<Seq<char>>,
    between: Store,
    first: Result<(), Error>,
    after: Store,
    second: Result<(), Error>,
    own: RepoError,
)
    requires
        reconciliation_outcome(before, true, entry, names, between, own, first),
        reconciliation_outcome(between, true, entry, names, after, own, second),
    ensures
        first is Ok,
        second is Ok,
        after == between,
        taggings_of(after.triples, entry).to_set() == wanted(entry, names).to_set(),
        before.triples.no_duplicates() ==> after.triples.no_duplicates(),
{
    lemma_reconciled_twice(before, entry, names);
    lemma_reconciled_tags(before, entry, names);
    if before.triples.no_duplicates() {
        lemma_reconciled_no_duplicates(before, entry, names);
    }
}

} // verus!
