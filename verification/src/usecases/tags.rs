//! Reading the tags that the stored relations speak of.

use vstd::prelude::*;
use vstd::hash_map::StringHashMap;
use crate::db::Db;
use crate::entities::{Tag, TagView};
use crate::error::Error;
use crate::reconcile::{is_tagging_of, taggings_of};
use crate::relation::{EntityKind, ObjectId, ObjectIdView, Relation, Triple, TripleView};
use crate::sequences::{lemma_filter_empty, lemma_filter_next, without_repeats};
use crate::store::storage_failed;

verus! {

/// The test for saying of something that it is tagged with a tag.
pub open spec fn names_a_tag() -> spec_fn(TripleView) -> bool {
    |triple: TripleView|
        triple.predicate == Relation::IsTaggedWith && triple.object.kind == EntityKind::Tag
}

/// The identities of the objects of the relations, in their order.
pub open spec fn objects(triples: Seq<TripleView>) -> Seq<Seq<char>> {
    Seq::new(triples.len(), |i: int| triples[i].object.id)
}

/// The names of the tags that the relations speak of, in the order of the
/// relations; a name that is spoken of several times in a row is listed once.
pub open spec fn tag_ids(triples: Seq<TripleView>) -> Seq<Seq<char>> {
    without_repeats(objects(triples.filter(names_a_tag())))
}

/// The tags that the relations give to the entry, in the order of the
/// relations.
pub open spec fn tags_of_entry(triples: Seq<TripleView>, entry: Seq<char>) -> Seq<TagView> {
    let named = taggings_of(triples, entry).filter(names_a_tag());
    Seq::new(named.len(), |i: int| TagView { id: named[i].object.id })
}

/// The names of all tags that some stored relation tags something with.
///
/// The names come in the order of the relations; a name that several
/// relations in a row speak of is listed once.
pub fn get_tag_ids<D: Db>(db: &D) -> (res: Result<Vec<String>, Error>)
    ensures
        match res {
            Ok(names) => names.deep_view() == tag_ids(db.store().triples),
            Err(failure) => !db.reliable() && storage_failed(failure, db.own_failure()),
        },
{
    let all = match db.all_triples() {
        Ok(all) => all,
        Err(cause) => {
            return Err(Error::Repo(cause));
        },
    };
    let ghost triples = all.deep_view();
    let mut tags: Vec<String> = Vec::new();
    let mut i: usize = 0;
    proof {
        lemma_filter_empty(names_a_tag());
        assert(triples.take(0) =~= Seq::empty());
        assert(objects(Seq::<TripleView>::empty()) =~= Seq::empty());
        assert(tags.deep_view() =~= Seq::empty());
    }
    while i < all.len()
        invariant
            i <= all.len(),
            triples == all.deep_view(),
            tags.deep_view() == without_repeats(
                objects(triples.take(i as int).filter(names_a_tag())),
            ),
            tags.len() == 0 <==> triples.take(i as int).filter(names_a_tag()).len() == 0,
            tags.len() > 0 ==> tags.deep_view().last() == objects(
                triples.take(i as int).filter(names_a_tag()),
            ).last(),
        decreases all.len() - i,
    {
        let ghost seen = triples.take(i as int).filter(names_a_tag());
        let ghost before = tags.deep_view();
        proof {
            lemma_filter_next(triples, names_a_tag(), i as int);
            assert(objects(seen.push(triples[i as int])) =~= objects(seen).push(
                triples[i as int].object.id,
            ));
            assert(objects(seen.push(triples[i as int])).drop_last() =~= objects(seen));
        }
        match (&all[i].predicate, &all[i].object) {
            (Relation::IsTaggedWith, ObjectId::Tag(id)) => {
                let repeated = tags.len() > 0 && tags[tags.len() - 1] == *id;
                if !repeated {
                    tags.push(id.clone());
                    assert(tags.deep_view() =~= before.push(id@));
                }
            },
            _ => {},
        }
        i += 1;
    }
    assert(triples.take(all.len() as int) =~= triples);
    Ok(tags)
}

/// The tags that the relations give to the entry, in the order of the
/// relations.
pub fn get_tag_ids_for_entry_id(triples: &[Triple], entry_id: &str) -> (tags: Vec<Tag>)
    ensures
        tags.deep_view() == tags_of_entry(triples.deep_view(), entry_id@),
{
    let ghost all = triples.deep_view();
    let ghost of_entry = is_tagging_of(entry_id@);
    let subject = ObjectId::Entry(entry_id.to_owned());
    let mut tags: Vec<Tag> = Vec::new();
    let mut i: usize = 0;
    proof {
        lemma_filter_empty(of_entry);
        lemma_filter_empty(names_a_tag());
        assert(all.take(0) =~= Seq::empty());
        assert(tags.deep_view() =~= Seq::empty());
    }
    while i < triples.len()
        invariant
            i <= triples.len(),
            all == triples.deep_view(),
            of_entry == is_tagging_of(entry_id@),
            subject@ == (ObjectIdView { kind: EntityKind::Entry, id: entry_id@ }),
            tags.deep_view() == tags_of_entry(all.take(i as int), entry_id@),
        decreases triples.len() - i,
    {
        let ghost before = tags.deep_view();
        let ghost kept = all.take(i as int).filter(of_entry);
        proof {
            lemma_filter_next(all, of_entry, i as int);
            kept.lemma_filter_push(all[i as int], names_a_tag());
        }
        if triples[i].subject == subject && triples[i].predicate == Relation::IsTaggedWith {
            match &triples[i].object {
                ObjectId::Tag(tag_id) => {
                    tags.push(Tag { id: tag_id.clone() });
                    assert(tags.deep_view() =~= before.push(TagView { id: tag_id@ }));
                },
                _ => {},
            }
        }
        assert(tags.deep_view() =~= tags_of_entry(all.take(i + 1), entry_id@));
        i += 1;
    }
    assert(all.take(triples.len() as int) =~= all);
    tags
}

/// For each of the entries, the tags that the stored relations give to it.
pub fn get_tags_by_entry_ids<D: Db>(db: &D, ids: &[String]) -> (res: Result<
    StringHashMap<Vec<Tag>>,
    Error,
>)
    ensures
        match res {
            Ok(tags) => {
                &&& forall|id: Seq<char>| #[trigger]
                    tags@.contains_key(id) <==> ids.deep_view().contains(id)
                &&& forall|id: Seq<char>| #[trigger]
                    tags@.contains_key(id) ==> tags@[id].deep_view() == tags_of_entry(
                        db.store().triples,
                        id,
                    )
            },
            Err(failure) => !db.reliable() && storage_failed(failure, db.own_failure()),
        },
{
    let triples = match db.all_triples() {
        Ok(all) => all,
        Err(cause) => {
            return Err(Error::Repo(cause));
        },
    };
    let mut tags: StringHashMap<Vec<Tag>> = StringHashMap::new();
    let mut i: usize = 0;
    while i < ids.len()
        invariant
            i <= ids.len(),
            triples.deep_view() == db.store().triples,
            forall|id: Seq<char>| #[trigger]
                tags@.contains_key(id) <==> ids.deep_view().take(i as int).contains(id),
            forall|id: Seq<char>| #[trigger]
                tags@.contains_key(id) ==> tags@[id].deep_view() == tags_of_entry(
                    triples.deep_view(),
                    id,
                ),
        decreases ids.len() - i,
    {
        let ghost done = ids.deep_view().take(i as int);
        let of_entry = get_tag_ids_for_entry_id(triples.as_slice(), ids[i].as_str());
        tags.insert(ids[i].clone(), of_entry);
        proof {
            assert(ids.deep_view().take(i + 1) =~= done.push(ids[i as int]@));
            assert forall|id: Seq<char>| #[trigger]
                tags@.contains_key(id) <==> ids.deep_view().take(i + 1).contains(id) by {
                if done.contains(id) {
                    let k = choose|k: int| 0 <= k < done.len() && done[k] == id;
                    assert(done.push(ids[i as int]@)[k] == id);
                }
                if id == ids[i as int]@ {
                    assert(done.push(ids[i as int]@)[i as int] == id);
                }
            }
        }
        i += 1;
    }
    assert(ids.deep_view().take(ids.len() as int) =~= ids.deep_view());
    Ok(tags)
}

} // verus!
