//! Attaching tags to entries: bringing tags into being, and making the stored
//! relations of an entry agree with the tags that are wanted for it.

use vstd::prelude::*;
use crate::db::Db;
use crate::entities::{Tag, TagView};
use crate::error::{Error, RepoError};
use crate::store::{
    is_first, lemma_absent, lemma_first, lemma_present, occurs, storage_failed, Store,
};

verus! {

/// The tags after each of the names has been made to exist: going through the
/// names in their order, a tag is appended for every name that no tag has yet.
pub open spec fn materialized(tags: Seq<TagView>, names: Seq<Seq<char>>) -> Seq<TagView>
    decreases names.len(),
{
    if names.len() == 0 {
        tags
    } else {
        let before = materialized(tags, names.drop_last());
        if occurs::<Tag>(before, names.last()) {
            before
        } else {
            before.push(TagView { id: names.last() })
        }
    }
}

/// Making names exist keeps the tags that are there, in their places, and
/// every tag that was found before is found after.
pub proof fn lemma_materialized_extends(tags: Seq<TagView>, names: Seq<Seq<char>>)
    ensures
        tags.len() <= materialized(tags, names).len(),
        materialized(tags, names).take(tags.len() as int) == tags,
        forall|name: Seq<char>|
            occurs::<Tag>(tags, name) ==> #[trigger] occurs::<Tag>(
                materialized(tags, names),
                name,
            ),
    decreases names.len(),
{
    if names.len() == 0 {
        assert(tags.take(tags.len() as int) =~= tags);
    } else {
        let before = materialized(tags, names.drop_last());
        let after = materialized(tags, names);
        lemma_materialized_extends(tags, names.drop_last());
        assert(after.take(tags.len() as int) =~= before.take(tags.len() as int));
        assert forall|name: Seq<char>| occurs::<Tag>(tags, name) implies #[trigger] occurs::<Tag>(
            after,
            name,
        ) by {
            assert(occurs::<Tag>(before, name));
            let at = choose|at: int| is_first::<Tag>(before, name, at);
            assert(after[at] == before[at]);
            lemma_present::<Tag>(after, name, at);
        }
    }
}

/// After names have been made to exist, a tag is found for each of them.
pub proof fn lemma_materialized_covers(tags: Seq<TagView>, names: Seq<Seq<char>>)
    ensures
        forall|i: int|
            0 <= i < names.len() ==> occurs::<Tag>(materialized(tags, names), #[trigger] names[i]),
    decreases names.len(),
{
    if names.len() > 0 {
        let front = names.drop_last();
        let before = materialized(tags, front);
        let after = materialized(tags, names);
        lemma_materialized_covers(tags, front);
        assert forall|i: int| 0 <= i < names.len() implies occurs::<Tag>(
            after,
            #[trigger] names[i],
        ) by {
            if i < front.len() {
                assert(front[i] == names[i]);
                assert(occurs::<Tag>(before, names[i]));
                let at = choose|at: int| is_first::<Tag>(before, names[i], at);
                assert(after[at] == before[at]);
                lemma_present::<Tag>(after, names[i], at);
            } else if !occurs::<Tag>(before, names.last()) {
                lemma_present::<Tag>(after, names[i], before.len() as int);
            }
        }
    }
}

/// Making names exist where a tag is found for each of them changes nothing.
pub proof fn lemma_materialized_nothing_missing(tags: Seq<TagView>, names: Seq<Seq<char>>)
    requires
        forall|i: int| 0 <= i < names.len() ==> occurs::<Tag>(tags, #[trigger] names[i]),
    ensures
        materialized(tags, names) == tags,
    decreases names.len(),
{
    if names.len() > 0 {
        let front = names.drop_last();
        assert forall|i: int| 0 <= i < front.len() implies occurs::<Tag>(
            tags,
            #[trigger] front[i],
        ) by {
            assert(front[i] == names[i]);
        }
        lemma_materialized_nothing_missing(tags, front);
        assert(names.last() == names[names.len() - 1]);
    }
}

/// Making the same names exist a second time changes nothing: no tag is
/// created twice.
pub proof fn lemma_materialized_twice(tags: Seq<TagView>, names: Seq<Seq<char>>)
    ensures
        materialized(materialized(tags, names), names) == materialized(tags, names),
{
    lemma_materialized_covers(tags, names);
    lemma_materialized_nothing_missing(materialized(tags, names), names);
}

/// Whether no two tags share a name.
pub open spec fn names_unique(tags: Seq<TagView>) -> bool {
    forall|i: int, j: int| 0 <= i < j < tags.len() ==> (#[trigger] tags[i]).id != (#[trigger] tags[j]).id
}

/// Making names exist never gives two tags the same name.
pub proof fn lemma_materialized_unique(tags: Seq<TagView>, names: Seq<Seq<char>>)
    requires
        names_unique(tags),
    ensures
        names_unique(materialized(tags, names)),
    decreases names.len(),
{
    if names.len() > 0 {
        let before = materialized(tags, names.drop_last());
        let after = materialized(tags, names);
        lemma_materialized_unique(tags, names.drop_last());
        if !occurs::<Tag>(before, names.last()) {
            assert forall|i: int, j: int| 0 <= i < j < after.len() implies (#[trigger] after[i]).id
                != (#[trigger] after[j]).id by {
                if j == before.len() {
                    if before[i].id == names.last() {
                        lemma_present::<Tag>(before, names.last(), i);
                    }
                } else {
                    assert(before[i].id != before[j].id);
                }
            }
        }
    }
}

/// How making tags exist for the names may end.
///
/// With a reliable storage it succeeds, and a tag exists for every name. A
/// storage that is not reliable may fail on its own; then the failure `own`
/// that it reported is handed back as it is, and tags exist for the names
/// before the one at which it failed. Nothing but tags is touched.
pub open spec fn materialization_outcome(
    before: Store,
    reliable: bool,
    names: Seq<Seq<char>>,
    after: Store,
    own: RepoError,
    res: Result<(), Error>,
) -> bool {
    match res {
        Ok(()) => after == before.with_tags(materialized(before.tags, names)),
        Err(failure) => {
            &&& !reliable
            &&& storage_failed(failure, own)
            &&& exists|done: int|
                0 <= done <= names.len() && after == before.with_tags(
                    materialized(before.tags, #[trigger] names.take(done)),
                )
        },
    }
}

/// Making the same names exist twice in a row, with a reliable storage:
/// both times it succeeds, and the second time nothing changes. Where no
/// two tags shared a name before, none do after: each name has one tag.
pub proof fn lemma_materializing_twice(
    before: Store,
    names: Seq<Seq<char>>,
    between: Store,
    first: Result<(), Error>,
    after: Store,
    second: Result<(), Error>,
    own: RepoError,
)
    requires
        materialization_outcome(before, true, names, between, own, first),
        materialization_outcome(between, true, names, after, own, second),
    ensures
        first is Ok,
        second is Ok,
        after == between,
        forall|i: int| 0 <= i < names.len() ==> occurs::<Tag>(after.tags, #[trigger] names[i]),
        names_unique(before.tags) ==> names_unique(after.tags),
{
    lemma_materialized_twice(before.tags, names);
    lemma_materialized_covers(before.tags, names);
    if names_unique(before.tags) {
        lemma_materialized_unique(before.tags, names);
    }
}

/// Whether a tag of that name is among the tags.
fn tag_exists(tags: &Vec<Tag>, name: &String) -> (found: bool)
    ensures
        found == occurs::<Tag>(tags.deep_view(), name@),
{
    let mut i: usize = 0;
    while i < tags.len()
        invariant
            i <= tags.len(),
            forall|j: int| 0 <= j < i ==> (#[trigger] tags.deep_view()[j]).id != name@,
        decreases tags.len() - i,
    {
        if tags[i].id == *name {
            proof {
                lemma_first::<Tag>(tags.deep_view(), name@, i as int);
            }
            return true;
        }
        i += 1;
    }
    proof {
        lemma_absent::<Tag>(tags.deep_view(), name@);
    }
    false
}

/// Makes sure that a tag exists for each of the names.
///
/// The tags are read once; a tag is then created for every name that was not
/// among them. That a tag turns out to exist already is no failure. Any other
/// failure of the storage ends the work: the tags for the names before the
/// one at which it failed have been created then.
pub fn create_missing_tags<D: Db>(db: &mut D, tags: &[String]) -> (res: Result<(), Error>)
    ensures
        final(db).reliable() == old(db).reliable(),
        materialization_outcome(
            old(db).store(),
            old(db).reliable(),
            tags.deep_view(),
            final(db).store(),
            final(db).own_failure(),
            res,
        ),
{
    let ghost before = db.store();
    let ghost names = tags.deep_view();
    proof {
        assert(names.take(0) =~= Seq::empty());
        assert(before.with_tags(before.tags) == before);
    }
    let existing_tags = match db.all_tags() {
        Ok(existing) => existing,
        Err(cause) => {
            return Err(Error::Repo(cause));
        },
    };
    let mut i: usize = 0;
    while i < tags.len()
        invariant
            i <= tags.len(),
            names == tags.deep_view(),
            before == old(db).store(),
            db.reliable() == old(db).reliable(),
            existing_tags.deep_view() == before.tags,
            db.store() == before.with_tags(materialized(before.tags, names.take(i as int))),
        decreases tags.len() - i,
    {
        proof {
            assert(names.take(i + 1).drop_last() =~= names.take(i as int));
            assert(names.take(i + 1).last() == tags[i as int]@);
            lemma_materialized_extends(before.tags, names.take(i as int));
        }
        if !tag_exists(&existing_tags, &tags[i]) {
            match db.create_tag(&Tag { id: tags[i].clone() }) {
                Ok(()) => {},
                Err(RepoError::AlreadyExists) => {},
                Err(cause) => {
                    return Err(Error::Repo(cause));
                },
            }
        }
        i += 1;
    }
    proof {
        assert(names.take(tags.len() as int) =~= names);
    }
    Ok(())
}

} // verus!
