//! A storage in memory: every kind of record in a vector of its own.

use vstd::prelude::*;
use crate::entities::{
    Bbox, BboxSubscription, Category, CategoryView, Comment, CommentView, Entry, EntryView, Event,
    Organization, Rating, RatingView, Tag, User,
};
use crate::db::{seen, Db};
use crate::diff::contains_triple;
use crate::error::RepoError;
use crate::identity::Id;
use crate::relation::Triple;
use crate::sequences::{
    lemma_filter_empty, lemma_filter_first, lemma_filter_next, lemma_filter_none,
};
use crate::store::{
    created, deleted, found, holds_token, is_first, lemma_absent, lemma_first, lies_in, named,
    occurs, other_than, owned_tags, performs, subscription_other_than, updated, user_other_than,
    Store,
};
use crate::tagging::materialized;

verus! {

/// A record that can be kept in a vector and copied out of it.
pub trait Record: Id + Clone {
    /// A copy stands for what the record that was copied stands for.
    proof fn lemma_copy(&self, copy: &Self)
        requires
            cloned(*self, *copy),
        ensures
            copy.deep_view() == self.deep_view(),
    ;
}

impl Record for Entry {
    proof fn lemma_copy(&self, copy: &Self) {
    }
}

impl Record for Event {
    proof fn lemma_copy(&self, copy: &Self) {
    }
}

impl Record for Category {
    proof fn lemma_copy(&self, copy: &Self) {
    }
}

impl Record for Tag {
    proof fn lemma_copy(&self, copy: &Self) {
    }
}

impl Record for User {
    proof fn lemma_copy(&self, copy: &Self) {
    }
}

impl Record for Comment {
    proof fn lemma_copy(&self, copy: &Self) {
    }
}

impl Record for Rating {
    proof fn lemma_copy(&self, copy: &Self) {
    }
}

impl Record for BboxSubscription {
    proof fn lemma_copy(&self, copy: &Self) {
    }
}

impl Record for Organization {
    proof fn lemma_copy(&self, copy: &Self) {
    }
}

/// The place of the first record with the identity, if there is one.
fn position<T: Record>(objects: &Vec<T>, id: &str) -> (place: Option<usize>)
    ensures
        match place {
            Some(at) => is_first::<T>(objects.deep_view(), id@, at as int),
            None => !occurs::<T>(objects.deep_view(), id@),
        },
{
    let wanted = id.to_owned();
    let mut i: usize = 0;
    while i < objects.len()
        invariant
            i <= objects.len(),
            wanted@ == id@,
            forall|j: int| 0 <= j < i ==> T::identity(#[trigger] objects.deep_view()[j]) != id@,
        decreases objects.len() - i,
    {
        if objects[i].id() == wanted {
            return Some(i);
        }
        i += 1;
    }
    proof {
        lemma_absent::<T>(objects.deep_view(), id@);
    }
    None
}

/// A copy of the first record with the identity.
pub(crate) fn get<T: Record>(objects: &Vec<T>, id: &str) -> (res: Result<T, RepoError>)
    ensures
        seen(res) == found::<T>(objects.deep_view(), id@),
{
    match position(objects, id) {
        Some(at) => {
            let copy = objects[at].clone();
            proof {
                lemma_first::<T>(objects.deep_view(), id@, at as int);
                objects[at as int].lemma_copy(&copy);
            }
            Ok(copy)
        },
        None => Err(RepoError::NotFound),
    }
}

/// Appends the record unless its identity is taken.
pub(crate) fn create<T: Record>(objects: &mut Vec<T>, e: T) -> (res: Result<(), RepoError>)
    ensures
        match created::<T>(old(objects).deep_view(), e.deep_view()) {
            Ok(records) => res is Ok && final(objects).deep_view() == records,
            Err(failure) => res == Err::<(), RepoError>(failure) && final(objects).deep_view()
                == old(objects).deep_view(),
        },
{
    let id = e.id();
    match position(objects, id.as_str()) {
        Some(at) => {
            proof {
                lemma_first::<T>(objects.deep_view(), id@, at as int);
            }
            Err(RepoError::AlreadyExists)
        },
        None => {
            let ghost before = objects.deep_view();
            objects.push(e);
            assert(objects.deep_view() =~= before.push(e.deep_view()));
            Ok(())
        },
    }
}

/// Puts a copy of the record in the place of the first with its identity.
pub(crate) fn update<T: Record>(objects: &mut Vec<T>, e: &T) -> (res: Result<(), RepoError>)
    ensures
        match updated::<T>(old(objects).deep_view(), e.deep_view()) {
            Ok(records) => res is Ok && final(objects).deep_view() == records,
            Err(failure) => res == Err::<(), RepoError>(failure) && final(objects).deep_view()
                == old(objects).deep_view(),
        },
{
    let id = e.id();
    match position(objects, id.as_str()) {
        Some(at) => {
            let ghost before = objects.deep_view();
            let copy = e.clone();
            proof {
                lemma_first::<T>(before, id@, at as int);
                e.lemma_copy(&copy);
            }
            objects.set(at, copy);
            assert(objects.deep_view() =~= before.update(at as int, e.deep_view()));
            Ok(())
        },
        None => Err(RepoError::NotFound),
    }
}

/// Takes the first record with the identity out.
pub(crate) fn delete<T: Record>(objects: &mut Vec<T>, id: &str) -> (res: Result<(), RepoError>)
    ensures
        match deleted::<T>(old(objects).deep_view(), id@) {
            Ok(records) => res is Ok && final(objects).deep_view() == records,
            Err(failure) => res == Err::<(), RepoError>(failure) && final(objects).deep_view()
                == old(objects).deep_view(),
        },
{
    match position(objects, id) {
        Some(at) => {
            let ghost before = objects.deep_view();
            proof {
                lemma_first::<T>(before, id@, at as int);
            }
            objects.remove(at);
            assert(objects.deep_view() =~= before.remove(at as int));
            Ok(())
        },
        None => Err(RepoError::NotFound),
    }
}

/// Copies of all records, in their order.
pub(crate) fn copies<T: Record>(objects: &Vec<T>) -> (all: Vec<T>)
    ensures
        all.deep_view() == objects.deep_view(),
{
    let mut all: Vec<T> = Vec::new();
    let mut i: usize = 0;
    while i < objects.len()
        invariant
            i <= objects.len(),
            all.len() == i,
            forall|j: int| 0 <= j < i ==> #[trigger] all.deep_view()[j] == objects.deep_view()[j],
        decreases objects.len() - i,
    {
        let copy = objects[i].clone();
        proof {
            objects[i as int].lemma_copy(&copy);
        }
        let ghost before = all.deep_view();
        all.push(copy);
        assert(all.deep_view() =~= before.push(objects.deep_view()[i as int]));
        i += 1;
    }
    assert(all.deep_view() =~= objects.deep_view());
    all
}

/// A storage in memory. It never fails on its own.
pub struct MockDb {
    pub entries: Vec<Entry>,
    pub events: Vec<Event>,
    pub categories: Vec<Category>,
    pub tags: Vec<Tag>,
    pub triples: Vec<Triple>,
    pub users: Vec<User>,
    pub ratings: Vec<Rating>,
    pub comments: Vec<Comment>,
    pub bbox_subscriptions: Vec<BboxSubscription>,
    pub orgs: Vec<Organization>,
}

impl MockDb {
    /// A storage that holds nothing.
    pub fn new() -> (db: MockDb)
        ensures
            db.store() == Store::empty(),
            db.reliable(),
    {
        let db = MockDb {
            entries: vec![],
            events: vec![],
            categories: vec![],
            tags: vec![],
            triples: vec![],
            users: vec![],
            ratings: vec![],
            comments: vec![],
            bbox_subscriptions: vec![],
            orgs: vec![],
        };
        proof {
            assert(db.entries.deep_view() =~= Seq::empty());
            assert(db.events.deep_view() =~= Seq::empty());
            assert(db.categories.deep_view() =~= Seq::empty());
            assert(db.tags.deep_view() =~= Seq::empty());
            assert(db.triples.deep_view() =~= Seq::empty());
            assert(db.users.deep_view() =~= Seq::empty());
            assert(db.ratings.deep_view() =~= Seq::empty());
            assert(db.comments.deep_view() =~= Seq::empty());
            assert(db.bbox_subscriptions.deep_view() =~= Seq::empty());
            assert(db.orgs.deep_view() =~= Seq::empty());
        }
        db
    }
}

impl Db for MockDb {
    open spec fn store(&self) -> Store {
        Store {
            entries: self.entries.deep_view(),
            events: self.events.deep_view(),
            categories: self.categories.deep_view(),
            tags: self.tags.deep_view(),
            triples: self.triples.deep_view(),
            users: self.users.deep_view(),
            ratings: self.ratings.deep_view(),
            comments: self.comments.deep_view(),
            bbox_subscriptions: self.bbox_subscriptions.deep_view(),
            orgs: self.orgs.deep_view(),
        }
    }

    open spec fn reliable(&self) -> bool {
        true
    }

    open spec fn own_failure(&self) -> RepoError {
        RepoError::Other
    }

    fn create_entry(&mut self, e: Entry) -> (res: Result<(), RepoError>) {
        create(&mut self.entries, e)
    }

    fn get_entry(&self, id: &str) -> (res: Result<Entry, RepoError>) {
        get(&self.entries, id)
    }

    fn all_entries(&self) -> (res: Result<Vec<Entry>, RepoError>) {
        Ok(copies(&self.entries))
    }

    fn update_entry(&mut self, e: &Entry) -> (res: Result<(), RepoError>) {
        update(&mut self.entries, e)
    }

    fn get_event(&self, id: &str) -> (res: Result<Event, RepoError>) {
        get(&self.events, id)
    }

    fn all_events(&self) -> (res: Result<Vec<Event>, RepoError>) {
        Ok(copies(&self.events))
    }

    fn update_event(&mut self, e: &Event) -> (res: Result<(), RepoError>) {
        update(&mut self.events, e)
    }

    fn create_user(&mut self, u: User) -> (res: Result<(), RepoError>) {
        create(&mut self.users, u)
    }

    fn get_user(&self, username: &str) -> (res: Result<User, RepoError>) {
        let wanted = username.to_owned();
        let mut i: usize = 0;
        while i < self.users.len()
            invariant
                i <= self.users.len(),
                wanted@ == username@,
                forall|j: int|
                    0 <= j < i ==> !named(username@)(#[trigger] self.users.deep_view()[j]),
            decreases self.users.len() - i,
        {
            if self.users[i].username == wanted {
                proof {
                    lemma_filter_first(self.users.deep_view(), named(username@), i as int);
                }
                return Ok(self.users[i].clone());
            }
            i += 1;
        }
        proof {
            lemma_filter_none(self.users.deep_view(), named(username@));
        }
        Err(RepoError::NotFound)
    }

    fn all_users(&self) -> (res: Result<Vec<User>, RepoError>) {
        Ok(copies(&self.users))
    }

    fn delete_user(&mut self, u_id: &str) -> (res: Result<(), RepoError>) {
        let unwanted = u_id.to_owned();
        let ghost test = user_other_than(u_id@);
        let ghost users = self.users.deep_view();
        let mut kept: Vec<User> = Vec::new();
        let mut i: usize = 0;
        proof {
            lemma_filter_empty(test);
            assert(users.take(0) =~= Seq::empty());
            assert(kept.deep_view() =~= Seq::empty());
        }
        while i < self.users.len()
            invariant
                i <= self.users.len(),
                unwanted@ == u_id@,
                test == user_other_than(u_id@),
                users == self.users.deep_view(),
                kept.deep_view() == users.take(i as int).filter(test),
            decreases self.users.len() - i,
        {
            let ghost before = kept.deep_view();
            proof {
                lemma_filter_next(users, test, i as int);
            }
            if self.users[i].id != unwanted {
                kept.push(self.users[i].clone());
                assert(kept.deep_view() =~= before.push(users[i as int]));
            }
            i += 1;
        }
        assert(users.take(users.len() as int) =~= users);
        self.users = kept;
        Ok(())
    }

    fn get_org_by_api_token(&self, token: &str) -> (res: Result<Organization, RepoError>) {
        let wanted = token.to_owned();
        let mut i: usize = 0;
        while i < self.orgs.len()
            invariant
                i <= self.orgs.len(),
                wanted@ == token@,
                forall|j: int|
                    0 <= j < i ==> !holds_token(token@)(#[trigger] self.orgs.deep_view()[j]),
            decreases self.orgs.len() - i,
        {
            if self.orgs[i].api_token == wanted {
                proof {
                    lemma_filter_first(self.orgs.deep_view(), holds_token(token@), i as int);
                }
                return Ok(self.orgs[i].clone());
            }
            i += 1;
        }
        proof {
            lemma_filter_none(self.orgs.deep_view(), holds_token(token@));
        }
        Err(RepoError::NotFound)
    }

    fn all_tags(&self) -> (res: Result<Vec<Tag>, RepoError>) {
        Ok(copies(&self.tags))
    }

    fn create_tag(&mut self, t: &Tag) -> (res: Result<(), RepoError>) {
        create(&mut self.tags, t.clone())
    }

    fn create_tag_if_it_does_not_exist(&mut self, t: &Tag) -> (res: Result<(), RepoError>) {
        match create(&mut self.tags, t.clone()) {
            Ok(()) => Ok(()),
            Err(RepoError::AlreadyExists) => Ok(()),
            Err(failure) => Err(failure),
        }
    }

    fn all_triples(&self) -> (res: Result<Vec<Triple>, RepoError>) {
        let all = self.triples.clone();
        assert(all.deep_view() =~= self.triples.deep_view());
        Ok(all)
    }

    fn create_triple(&mut self, t: &Triple) -> (res: Result<(), RepoError>) {
        if !contains_triple(self.triples.as_slice(), t) {
            let ghost before = self.triples.deep_view();
            self.triples.push(t.clone());
            assert(self.triples.deep_view() =~= before.push(t@));
        }
        Ok(())
    }

    fn delete_triple(&mut self, t: &Triple) -> (res: Result<(), RepoError>) {
        let ghost test = other_than(t@);
        let ghost triples = self.triples.deep_view();
        let mut kept: Vec<Triple> = Vec::new();
        let mut i: usize = 0;
        proof {
            lemma_filter_empty(test);
            assert(triples.take(0) =~= Seq::empty());
            assert(kept.deep_view() =~= Seq::empty());
        }
        while i < self.triples.len()
            invariant
                i <= self.triples.len(),
                test == other_than(t@),
                triples == self.triples.deep_view(),
                kept.deep_view() == triples.take(i as int).filter(test),
            decreases self.triples.len() - i,
        {
            let ghost before = kept.deep_view();
            proof {
                lemma_filter_next(triples, test, i as int);
            }
            if self.triples[i] != *t {
                kept.push(self.triples[i].clone());
                assert(kept.deep_view() =~= before.push(triples[i as int]));
            }
            i += 1;
        }
        assert(triples.take(triples.len() as int) =~= triples);
        self.triples = kept;
        Ok(())
    }

    fn all_bbox_subscriptions(&self) -> (res: Result<Vec<BboxSubscription>, RepoError>) {
        Ok(copies(&self.bbox_subscriptions))
    }

    fn create_bbox_subscription(&mut self, s: &BboxSubscription) -> (res: Result<(), RepoError>) {
        create(&mut self.bbox_subscriptions, s.clone())
    }

    fn delete_bbox_subscription(&mut self, s_id: &str) -> (res: Result<(), RepoError>) {
        let unwanted = s_id.to_owned();
        let ghost test = subscription_other_than(s_id@);
        let ghost subscriptions = self.bbox_subscriptions.deep_view();
        let mut kept: Vec<BboxSubscription> = Vec::new();
        let mut i: usize = 0;
        proof {
            lemma_filter_empty(test);
            assert(subscriptions.take(0) =~= Seq::empty());
            assert(kept.deep_view() =~= Seq::empty());
        }
        while i < self.bbox_subscriptions.len()
            invariant
                i <= self.bbox_subscriptions.len(),
                unwanted@ == s_id@,
                test == subscription_other_than(s_id@),
                subscriptions == self.bbox_subscriptions.deep_view(),
                kept.deep_view() == subscriptions.take(i as int).filter(test),
            decreases self.bbox_subscriptions.len() - i,
        {
            let ghost before = kept.deep_view();
            proof {
                lemma_filter_next(subscriptions, test, i as int);
            }
            if self.bbox_subscriptions[i].id != unwanted {
                kept.push(self.bbox_subscriptions[i].clone());
                assert(kept.deep_view() =~= before.push(subscriptions[i as int]));
            }
            i += 1;
        }
        assert(subscriptions.take(subscriptions.len() as int) =~= subscriptions);
        self.bbox_subscriptions = kept;
        Ok(())
    }
}

/// Importing one entry: the entry is created, and a tag is made to exist for
/// each of its tags.
pub open spec fn imported_one(store: Store, entry: EntryView) -> Result<Store, RepoError> {
    match store.create_entry(entry) {
        Ok(with_entry) => Ok(with_entry.with_tags(materialized(with_entry.tags, entry.tags))),
        Err(failure) => Err(failure),
    }
}

/// Importing entries one after the other, up to the first that is refused:
/// what the storage then holds, and whether an entry was refused.
pub open spec fn imported(store: Store, entries: Seq<EntryView>) -> (Store, Result<(), RepoError>)
    decreases entries.len(),
{
    if entries.len() == 0 {
        (store, Ok(()))
    } else {
        let (before, so_far) = imported(store, entries.drop_last());
        match so_far {
            Err(_) => (before, so_far),
            Ok(()) => match imported_one(before, entries.last()) {
                Ok(after) => (after, Ok(())),
                Err(failure) => (before, Err(failure)),
            },
        }
    }
}

impl MockDb {
    /// The entries that lie inside the bounding box, in the order in which
    /// they are stored.
    pub fn get_entries_by_bbox(&self, bbox: &Bbox) -> (res: Result<Vec<Entry>, RepoError>)
        ensures
            seen(res) == Ok::<Seq<EntryView>, RepoError>(self.store().entries_in_bbox(*bbox)),
    {
        let ghost test = lies_in(*bbox);
        let ghost entries = self.entries.deep_view();
        let mut inside: Vec<Entry> = Vec::new();
        let mut i: usize = 0;
        proof {
            lemma_filter_empty(test);
            assert(entries.take(0) =~= Seq::empty());
            assert(inside.deep_view() =~= Seq::empty());
        }
        while i < self.entries.len()
            invariant
                i <= self.entries.len(),
                test == lies_in(*bbox),
                entries == self.entries.deep_view(),
                inside.deep_view() == entries.take(i as int).filter(test),
            decreases self.entries.len() - i,
        {
            let ghost before = inside.deep_view();
            proof {
                lemma_filter_next(entries, test, i as int);
            }
            if bbox.is_in_bbox(self.entries[i].lat, self.entries[i].lng) {
                inside.push(self.entries[i].clone());
                assert(inside.deep_view() =~= before.push(entries[i as int]));
            }
            i += 1;
        }
        assert(entries.take(entries.len() as int) =~= entries);
        Ok(inside)
    }

    /// Makes a tag exist for each of the names.
    fn create_tags(&mut self, names: &Vec<String>)
        ensures
            final(self).store() == old(self).store().with_tags(
                materialized(old(self).store().tags, names.deep_view()),
            ),
    {
        let ghost before = self.store();
        let mut i: usize = 0;
        proof {
            assert(names.deep_view().take(0) =~= Seq::empty());
            assert(before.with_tags(before.tags) == before);
        }
        while i < names.len()
            invariant
                i <= names.len(),
                self.store() == before.with_tags(
                    materialized(before.tags, names.deep_view().take(i as int)),
                ),
            decreases names.len() - i,
        {
            proof {
                assert(names.deep_view().take(i + 1).drop_last() =~= names.deep_view().take(
                    i as int,
                ));
            }
            let _ = self.create_tag_if_it_does_not_exist(&Tag { id: names[i].clone() });
            i += 1;
        }
        assert(names.deep_view().take(names.len() as int) =~= names.deep_view());
    }

    /// Stores the entries one after the other, and makes a tag exist for each
    /// tag of an entry. Stops at the first entry whose identity is taken; the
    /// entries before it stay stored.
    pub fn import_multiple_entries(&mut self, entries: &[Entry]) -> (res: Result<(), RepoError>)
        ensures
            (final(self).store(), res) == imported(old(self).store(), entries.deep_view()),
    {
        let ghost before = self.store();
        let mut i: usize = 0;
        proof {
            assert(entries.deep_view().take(0) =~= Seq::empty());
        }
        while i < entries.len()
            invariant
                i <= entries.len(),
                before == old(self).store(),
                (self.store(), Ok::<(), RepoError>(())) == imported(
                    before,
                    entries.deep_view().take(i as int),
                ),
            decreases entries.len() - i,
        {
            proof {
                assert(entries.deep_view().take(i + 1).drop_last() =~= entries.deep_view().take(
                    i as int,
                ));
                assert(entries.deep_view().take(i + 1).last() == entries[i as int]@);
            }
            match self.create_entry(entries[i].clone()) {
                Ok(()) => {},
                Err(failure) => {
                    proof {
                        lemma_import_stops(before, entries.deep_view(), i + 1);
                    }
                    return Err(failure);
                },
            }
            self.create_tags(&entries[i].tags);
            i += 1;
        }
        assert(entries.deep_view().take(entries.len() as int) =~= entries.deep_view());
        Ok(())
    }

    /// Stores a new event.
    pub fn create_event(&mut self, e: Event) -> (res: Result<(), RepoError>)
        ensures
            performs(
                true,
                RepoError::Other,
                old(self).store().create_event(e@),
                old(self).store(),
                final(self).store(),
                res,
            ),
    {
        create(&mut self.events, e)
    }

    /// Removes the event with the identity `id`.
    pub fn delete_event(&mut self, id: &str) -> (res: Result<(), RepoError>)
        ensures
            performs(
                true,
                RepoError::Other,
                old(self).store().delete_event(id@),
                old(self).store(),
                final(self).store(),
                res,
            ),
    {
        delete(&mut self.events, id)
    }

    /// Replaces the account that has the identity of `u`.
    pub fn update_user(&mut self, u: &User) -> (res: Result<(), RepoError>)
        ensures
            performs(
                true,
                RepoError::Other,
                old(self).store().update_user(u@),
                old(self).store(),
                final(self).store(),
                res,
            ),
    {
        update(&mut self.users, u)
    }

    /// Stores a new comment.
    pub fn create_comment(&mut self, c: Comment) -> (res: Result<(), RepoError>)
        ensures
            performs(
                true,
                RepoError::Other,
                old(self).store().create_comment(c@),
                old(self).store(),
                final(self).store(),
                res,
            ),
    {
        create(&mut self.comments, c)
    }

    /// All comments, in the order in which they are stored.
    pub fn all_comments(&self) -> (res: Result<Vec<Comment>, RepoError>)
        ensures
            seen(res) == Ok::<Seq<CommentView>, RepoError>(self.store().comments),
    {
        Ok(copies(&self.comments))
    }

    /// Stores a new organization.
    pub fn create_org(&mut self, o: Organization) -> (res: Result<(), RepoError>)
        ensures
            performs(
                true,
                RepoError::Other,
                old(self).store().create_org(o@),
                old(self).store(),
                final(self).store(),
                res,
            ),
    {
        create(&mut self.orgs, o)
    }

    /// The tags that the organizations own: those of the first, then those
    /// of the second, and so on.
    pub fn get_all_tags_owned_by_orgs(&self) -> (res: Result<Vec<String>, RepoError>)
        ensures
            seen(res) == Ok::<Seq<Seq<char>>, RepoError>(owned_tags(self.store().orgs)),
    {
        let ghost orgs = self.orgs.deep_view();
        let mut tags: Vec<String> = Vec::new();
        let mut i: usize = 0;
        proof {
            assert(orgs.take(0) =~= Seq::empty());
            assert(tags.deep_view() =~= Seq::empty());
        }
        while i < self.orgs.len()
            invariant
                i <= self.orgs.len(),
                orgs == self.orgs.deep_view(),
                tags.deep_view() == owned_tags(orgs.take(i as int)),
            decreases self.orgs.len() - i,
        {
            let ghost before = tags.deep_view();
            let owned = &self.orgs[i].owned_tags;
            let mut j: usize = 0;
            proof {
                assert(orgs.take(i + 1).drop_last() =~= orgs.take(i as int));
                assert(orgs.take(i + 1).last() == orgs[i as int]);
                assert(before + owned.deep_view().take(0) =~= before);
            }
            while j < owned.len()
                invariant
                    j <= owned.len(),
                    tags.deep_view() == before + owned.deep_view().take(j as int),
                decreases owned.len() - j,
            {
                let ghost so_far = tags.deep_view();
                tags.push(owned[j].clone());
                assert(tags.deep_view() =~= so_far.push(owned.deep_view()[j as int]));
                assert(owned.deep_view().take(j + 1) =~= owned.deep_view().take(j as int).push(
                    owned.deep_view()[j as int],
                ));
                assert(tags.deep_view() =~= before + owned.deep_view().take(j + 1));
                j += 1;
            }
            assert(owned.deep_view().take(owned.len() as int) =~= owned.deep_view());
            i += 1;
        }
        assert(orgs.take(orgs.len() as int) =~= orgs);
        Ok(tags)
    }

    /// Stores a category unless one with its identity exists.
    pub fn create_category_if_it_does_not_exist(&mut self, e: &Category) -> (res: Result<
        (),
        RepoError,
    >)
        ensures
            res is Ok,
            final(self).store() == old(self).store().create_category_if_it_does_not_exist(e@),
    {
        match create(&mut self.categories, e.clone()) {
            Ok(()) => Ok(()),
            Err(RepoError::AlreadyExists) => Ok(()),
            Err(failure) => Err(failure),
        }
    }

    /// Stores a new rating.
    pub fn create_rating(&mut self, r: Rating) -> (res: Result<(), RepoError>)
        ensures
            performs(
                true,
                RepoError::Other,
                old(self).store().create_rating(r@),
                old(self).store(),
                final(self).store(),
                res,
            ),
    {
        create(&mut self.ratings, r)
    }

    /// All categories, in the order in which they are stored.
    pub fn all_categories(&self) -> (res: Result<Vec<Category>, RepoError>)
        ensures
            seen(res) == Ok::<Seq<CategoryView>, RepoError>(self.store().categories),
    {
        Ok(copies(&self.categories))
    }

    /// All ratings, in the order in which they are stored.
    pub fn all_ratings(&self) -> (res: Result<Vec<Rating>, RepoError>)
        ensures
            seen(res) == Ok::<Seq<RatingView>, RepoError>(self.store().ratings),
    {
        Ok(copies(&self.ratings))
    }
}

/// An import that has been refused at one entry stays refused however many
/// entries follow, and holds what it held.
pub proof fn lemma_import_stops(store: Store, entries: Seq<EntryView>, stopped: int)
    requires
        0 <= stopped <= entries.len(),
        imported(store, entries.take(stopped)).1 is Err,
    ensures
        imported(store, entries) == imported(store, entries.take(stopped)),
    decreases entries.len() - stopped,
{
    if stopped == entries.len() {
        assert(entries.take(stopped) =~= entries);
    } else {
        assert(entries.take(stopped + 1).drop_last() =~= entries.take(stopped));
        lemma_import_stops(store, entries, stopped + 1);
    }
}

} // verus!
