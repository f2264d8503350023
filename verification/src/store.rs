//! What a storage holds, and what each of its operations does to it.
//!
//! The model is a plain in-memory store: one sequence of records for each kind,
//! in the order in which the records were created. Records are found by their
//! identity; where two records share an identity, the first one counts.

use vstd::prelude::*;
use crate::entities::{
    Bbox, BboxSubscription, BboxSubscriptionView, Category, CategoryView, Comment, CommentView,
    Entry, EntryView, Event, EventView, Organization, OrganizationView, Rating, RatingView, Tag,
    TagView, User, UserView,
};
use crate::error::{Error, RepoError};
use crate::identity::Id;
use crate::relation::TripleView;

verus! {

/// Whether `at` is the place of the first record with the identity `id`.
pub open spec fn is_first<T: Id>(records: Seq<T::V>, id: Seq<char>, at: int) -> bool {
    &&& 0 <= at < records.len()
    &&& T::identity(records[at]) == id
    &&& forall|before: int| 0 <= before < at ==> T::identity(#[trigger] records[before]) != id
}

/// Whether some record has the identity `id`.
pub open spec fn occurs<T: Id>(records: Seq<T::V>, id: Seq<char>) -> bool {
    exists|at: int| is_first::<T>(records, id, at)
}

/// The place of the first record with the identity `id`, if there is one.
pub open spec fn first<T: Id>(records: Seq<T::V>, id: Seq<char>) -> int {
    choose|at: int| is_first::<T>(records, id, at)
}

/// There is one first record at most.
pub proof fn lemma_first<T: Id>(records: Seq<T::V>, id: Seq<char>, at: int)
    requires
        is_first::<T>(records, id, at),
    ensures
        occurs::<T>(records, id),
        first::<T>(records, id) == at,
{
    let other = first::<T>(records, id);
    assert(is_first::<T>(records, id, other));
    if other < at {
        assert(T::identity(records[other]) != id);
    }
    if at < other {
        assert(T::identity(records[at]) != id);
    }
}

/// Where no record has the identity, none is found.
pub proof fn lemma_absent<T: Id>(records: Seq<T::V>, id: Seq<char>)
    requires
        forall|at: int| 0 <= at < records.len() ==> T::identity(#[trigger] records[at]) != id,
    ensures
        !occurs::<T>(records, id),
{
}

/// Where a record has the identity, one is found.
pub proof fn lemma_present<T: Id>(records: Seq<T::V>, id: Seq<char>, at: int)
    requires
        0 <= at < records.len(),
        T::identity(records[at]) == id,
    ensures
        occurs::<T>(records, id),
        0 <= first::<T>(records, id) <= at,
    decreases at,
{
    if forall|before: int| 0 <= before < at ==> T::identity(#[trigger] records[before]) != id {
        lemma_first::<T>(records, id, at);
    } else {
        let before = choose|before: int|
            0 <= before < at && T::identity(#[trigger] records[before]) == id;
        lemma_present::<T>(records, id, before);
    }
}

/// Looking a record up by its identity.
pub open spec fn found<T: Id>(records: Seq<T::V>, id: Seq<char>) -> Result<T::V, RepoError> {
    if occurs::<T>(records, id) {
        Ok(records[first::<T>(records, id)])
    } else {
        Err(RepoError::NotFound)
    }
}

/// Adding a record: refused where its identity is taken, else it comes last.
pub open spec fn created<T: Id>(records: Seq<T::V>, record: T::V) -> Result<
    Seq<T::V>,
    RepoError,
> {
    if occurs::<T>(records, T::identity(record)) {
        Err(RepoError::AlreadyExists)
    } else {
        Ok(records.push(record))
    }
}

/// Replacing the record that has the identity of `record`.
pub open spec fn updated<T: Id>(records: Seq<T::V>, record: T::V) -> Result<
    Seq<T::V>,
    RepoError,
> {
    if occurs::<T>(records, T::identity(record)) {
        Ok(records.update(first::<T>(records, T::identity(record)), record))
    } else {
        Err(RepoError::NotFound)
    }
}

/// Removing the record with the identity `id`.
pub open spec fn deleted<T: Id>(records: Seq<T::V>, id: Seq<char>) -> Result<
    Seq<T::V>,
    RepoError,
> {
    if occurs::<T>(records, id) {
        Ok(records.remove(first::<T>(records, id)))
    } else {
        Err(RepoError::NotFound)
    }
}

/// Whether no two records share an identity.
pub open spec fn identities_unique<T: Id>(records: Seq<T::V>) -> bool {
    forall|i: int, j: int|
        0 <= i < j < records.len() ==> T::identity(#[trigger] records[i]) != T::identity(
            #[trigger] records[j],
        )
}

/// Where no two records share an identity, none do after a record has been
/// added, replaced or removed: within a kind, an identity names one record.
pub proof fn lemma_identities_stay_unique<T: Id>(records: Seq<T::V>, record: T::V, id: Seq<char>)
    requires
        identities_unique::<T>(records),
    ensures
        created::<T>(records, record) matches Ok(after) ==> identities_unique::<T>(after),
        updated::<T>(records, record) matches Ok(after) ==> identities_unique::<T>(after),
        deleted::<T>(records, id) matches Ok(after) ==> identities_unique::<T>(after),
{
    if let Ok(after) = created::<T>(records, record) {
        assert forall|i: int, j: int| 0 <= i < j < after.len() implies T::identity(
            #[trigger] after[i],
        ) != T::identity(#[trigger] after[j]) by {
            if j == records.len() {
                if T::identity(records[i]) == T::identity(record) {
                    lemma_present::<T>(records, T::identity(record), i);
                }
            } else {
                assert(T::identity(records[i]) != T::identity(records[j]));
            }
        }
    }
    if let Ok(after) = updated::<T>(records, record) {
        let at = first::<T>(records, T::identity(record));
        assert(is_first::<T>(records, T::identity(record), at));
        assert forall|i: int, j: int| 0 <= i < j < after.len() implies T::identity(
            #[trigger] after[i],
        ) != T::identity(#[trigger] after[j]) by {
            assert(T::identity(records[i]) != T::identity(records[j]));
            assert(T::identity(after[at]) == T::identity(records[at]));
        }
    }
    if let Ok(after) = deleted::<T>(records, id) {
        let at = first::<T>(records, id);
        assert(is_first::<T>(records, id, at));
        assert forall|i: int, j: int| 0 <= i < j < after.len() implies T::identity(
            #[trigger] after[i],
        ) != T::identity(#[trigger] after[j]) by {
            let from_i = if i < at { i } else { i + 1 };
            let from_j = if j < at { j } else { j + 1 };
            assert(after[i] == records[from_i]);
            assert(after[j] == records[from_j]);
            assert(T::identity(records[from_i]) != T::identity(records[from_j]));
        }
    }
}

/// The test for being another relation than `triple`.
pub open spec fn other_than(triple: TripleView) -> spec_fn(TripleView) -> bool {
    |stored: TripleView| stored != triple
}

/// The test for having the user name `username`.
pub open spec fn named(username: Seq<char>) -> spec_fn(UserView) -> bool {
    |user: UserView| user.username == username
}

/// The test for not having the identity `id`.
pub open spec fn user_other_than(id: Seq<char>) -> spec_fn(UserView) -> bool {
    |user: UserView| user.id != id
}

/// The test for not having the identity `id`.
pub open spec fn subscription_other_than(id: Seq<char>) -> spec_fn(BboxSubscriptionView) -> bool {
    |subscription: BboxSubscriptionView| subscription.id != id
}

/// The test for holding the API token `token`.
pub open spec fn holds_token(token: Seq<char>) -> spec_fn(OrganizationView) -> bool {
    |org: OrganizationView| org.api_token == token
}

/// The test for lying inside the bounding box, corners and edges included.
pub open spec fn lies_in(bbox: Bbox) -> spec_fn(EntryView) -> bool {
    |entry: EntryView| bbox.contains(entry.lat, entry.lng)
}

/// The tags that the organizations own: those of the first, then those of
/// the second, and so on.
pub open spec fn owned_tags(orgs: Seq<OrganizationView>) -> Seq<Seq<char>>
    decreases orgs.len(),
{
    if orgs.len() == 0 {
        Seq::empty()
    } else {
        owned_tags(orgs.drop_last()) + orgs.last().owned_tags
    }
}

/// What a storage holds.
pub struct Store {
    pub entries: Seq<EntryView>,
    pub events: Seq<EventView>,
    pub categories: Seq<CategoryView>,
    pub tags: Seq<TagView>,
    pub triples: Seq<TripleView>,
    pub users: Seq<UserView>,
    pub ratings: Seq<RatingView>,
    pub comments: Seq<CommentView>,
    pub bbox_subscriptions: Seq<BboxSubscriptionView>,
    pub orgs: Seq<OrganizationView>,
}

impl Store {
    /// A storage that holds nothing.
    pub open spec fn empty() -> Store {
        Store {
            entries: Seq::empty(),
            events: Seq::empty(),
            categories: Seq::empty(),
            tags: Seq::empty(),
            triples: Seq::empty(),
            users: Seq::empty(),
            ratings: Seq::empty(),
            comments: Seq::empty(),
            bbox_subscriptions: Seq::empty(),
            orgs: Seq::empty(),
        }
    }

    /// The same storage with other tags.
    pub open spec fn with_tags(self, tags: Seq<TagView>) -> Store {
        Store { tags, ..self }
    }

    /// The same storage with other relations.
    pub open spec fn with_triples(self, triples: Seq<TripleView>) -> Store {
        Store { triples, ..self }
    }

    /// The same storage with other entries.
    pub open spec fn with_entries(self, entries: Seq<EntryView>) -> Store {
        Store { entries, ..self }
    }

    /// The same storage with other events.
    pub open spec fn with_events(self, events: Seq<EventView>) -> Store {
        Store { events, ..self }
    }

    /// The same storage with other accounts.
    pub open spec fn with_users(self, users: Seq<UserView>) -> Store {
        Store { users, ..self }
    }

    /// The same storage with other subscriptions.
    pub open spec fn with_bbox_subscriptions(
        self,
        bbox_subscriptions: Seq<BboxSubscriptionView>,
    ) -> Store {
        Store { bbox_subscriptions, ..self }
    }

    /// Whether a tag with this name exists.
    pub open spec fn has_tag(self, name: Seq<char>) -> bool {
        occurs::<Tag>(self.tags, name)
    }

    /// Creating a tag: refused where a tag of that name exists.
    pub open spec fn create_tag(self, tag: TagView) -> Result<Store, RepoError> {
        match created::<Tag>(self.tags, tag) {
            Ok(tags) => Ok(self.with_tags(tags)),
            Err(e) => Err(e),
        }
    }

    /// Creating a tag unless a tag of that name exists.
    pub open spec fn create_tag_if_it_does_not_exist(self, tag: TagView) -> Store {
        if self.has_tag(tag.id) {
            self
        } else {
            self.with_tags(self.tags.push(tag))
        }
    }

    /// Creating a relation unless it is stored already.
    pub open spec fn create_triple(self, triple: TripleView) -> Store {
        if self.triples.contains(triple) {
            self
        } else {
            self.with_triples(self.triples.push(triple))
        }
    }

    /// Deleting a relation wherever it is stored.
    pub open spec fn delete_triple(self, triple: TripleView) -> Store {
        self.with_triples(self.triples.filter(other_than(triple)))
    }

    /// Looking an entry up.
    pub open spec fn get_entry(self, id: Seq<char>) -> Result<EntryView, RepoError> {
        found::<Entry>(self.entries, id)
    }

    /// Creating an entry: refused where its identity is taken.
    pub open spec fn create_entry(self, entry: EntryView) -> Result<Store, RepoError> {
        match created::<Entry>(self.entries, entry) {
            Ok(entries) => Ok(self.with_entries(entries)),
            Err(e) => Err(e),
        }
    }

    /// Replacing an entry: refused where none has its identity.
    pub open spec fn update_entry(self, entry: EntryView) -> Result<Store, RepoError> {
        match updated::<Entry>(self.entries, entry) {
            Ok(entries) => Ok(self.with_entries(entries)),
            Err(e) => Err(e),
        }
    }

    /// Looking an event up.
    pub open spec fn get_event(self, id: Seq<char>) -> Result<EventView, RepoError> {
        found::<Event>(self.events, id)
    }

    /// Creating an event: refused where its identity is taken.
    pub open spec fn create_event(self, event: EventView) -> Result<Store, RepoError> {
        match created::<Event>(self.events, event) {
            Ok(events) => Ok(self.with_events(events)),
            Err(e) => Err(e),
        }
    }

    /// Replacing an event: refused where none has its identity.
    pub open spec fn update_event(self, event: EventView) -> Result<Store, RepoError> {
        match updated::<Event>(self.events, event) {
            Ok(events) => Ok(self.with_events(events)),
            Err(e) => Err(e),
        }
    }

    /// Removing an event: refused where none has the identity.
    pub open spec fn delete_event(self, id: Seq<char>) -> Result<Store, RepoError> {
        match deleted::<Event>(self.events, id) {
            Ok(events) => Ok(self.with_events(events)),
            Err(e) => Err(e),
        }
    }

    /// Creating an account: refused where its identity is taken.
    pub open spec fn create_user(self, user: UserView) -> Result<Store, RepoError> {
        match created::<User>(self.users, user) {
            Ok(users) => Ok(self.with_users(users)),
            Err(e) => Err(e),
        }
    }

    /// Replacing an account: refused where none has its identity.
    pub open spec fn update_user(self, user: UserView) -> Result<Store, RepoError> {
        match updated::<User>(self.users, user) {
            Ok(users) => Ok(self.with_users(users)),
            Err(e) => Err(e),
        }
    }

    /// Looking an account up by its user name: the first of that name.
    pub open spec fn get_user(self, username: Seq<char>) -> Result<UserView, RepoError> {
        let matching = self.users.filter(named(username));
        if matching.len() > 0 {
            Ok(matching[0])
        } else {
            Err(RepoError::NotFound)
        }
    }

    /// Removing every account with the identity `id`.
    pub open spec fn delete_user(self, id: Seq<char>) -> Store {
        self.with_users(self.users.filter(user_other_than(id)))
    }

    /// Creating a subscription: refused where its identity is taken.
    pub open spec fn create_bbox_subscription(
        self,
        subscription: BboxSubscriptionView,
    ) -> Result<Store, RepoError> {
        match created::<BboxSubscription>(self.bbox_subscriptions, subscription) {
            Ok(subscriptions) => Ok(self.with_bbox_subscriptions(subscriptions)),
            Err(e) => Err(e),
        }
    }

    /// Removing every subscription with the identity `id`.
    pub open spec fn delete_bbox_subscription(self, id: Seq<char>) -> Store {
        self.with_bbox_subscriptions(
            self.bbox_subscriptions.filter(subscription_other_than(id)),
        )
    }

    /// The entries that lie inside the bounding box.
    pub open spec fn entries_in_bbox(self, bbox: Bbox) -> Seq<EntryView> {
        self.entries.filter(lies_in(bbox))
    }

    /// Creating a category unless one with its identity exists.
    pub open spec fn create_category_if_it_does_not_exist(self, category: CategoryView) -> Store {
        match created::<Category>(self.categories, category) {
            Ok(categories) => Store { categories, ..self },
            Err(_) => self,
        }
    }

    /// Creating a rating: refused where its identity is taken.
    pub open spec fn create_rating(self, rating: RatingView) -> Result<Store, RepoError> {
        match created::<Rating>(self.ratings, rating) {
            Ok(ratings) => Ok(Store { ratings, ..self }),
            Err(e) => Err(e),
        }
    }

    /// Creating a comment: refused where its identity is taken.
    pub open spec fn create_comment(self, comment: CommentView) -> Result<Store, RepoError> {
        match created::<Comment>(self.comments, comment) {
            Ok(comments) => Ok(Store { comments, ..self }),
            Err(e) => Err(e),
        }
    }

    /// Creating an organization: refused where its identity is taken.
    pub open spec fn create_org(self, org: OrganizationView) -> Result<Store, RepoError> {
        match created::<Organization>(self.orgs, org) {
            Ok(orgs) => Ok(Store { orgs, ..self }),
            Err(e) => Err(e),
        }
    }

    /// Looking an organization up by its API token: the first that holds it.
    pub open spec fn get_org_by_api_token(self, token: Seq<char>) -> Result<
        OrganizationView,
        RepoError,
    > {
        let matching = self.orgs.filter(holds_token(token));
        if matching.len() > 0 {
            Ok(matching[0])
        } else {
            Err(RepoError::NotFound)
        }
    }
}

/// Whether a failure is of the kind that a storage reports on its own: one
/// that says nothing about what is stored.
pub open spec fn is_own_failure(failure: RepoError) -> bool {
    failure == RepoError::InvalidVersion || failure == RepoError::Other
}

/// Whether a use case failed because the storage failed on its own: the
/// failure handed back is the very failure `own` that the storage reported.
pub open spec fn storage_failed(failure: Error, own: RepoError) -> bool {
    failure == Error::Repo(own) && is_own_failure(own)
}

/// What a storage may answer to a question of which the model says
/// `expected`: that answer, or, where the storage is not reliable, its own
/// failure `own`.
pub open spec fn answers<V>(
    reliable: bool,
    own: RepoError,
    expected: Result<V, RepoError>,
    answer: Result<V, RepoError>,
) -> bool {
    answer == expected || (!reliable && is_own_failure(own) && answer == Err::<V, RepoError>(own))
}

/// What a storage may do on a request of which the model says `expected`: go
/// where the model goes and answer as it does, or, where the storage is not
/// reliable, stay as it is and report its own failure `own`.
pub open spec fn performs(
    reliable: bool,
    own: RepoError,
    expected: Result<Store, RepoError>,
    before: Store,
    after: Store,
    answer: Result<(), RepoError>,
) -> bool {
    match answer {
        Ok(()) => expected == Ok::<Store, RepoError>(after),
        Err(failure) => after == before && (expected == Err::<Store, RepoError>(failure) || (
            !reliable && is_own_failure(own) && failure == own)),
    }
}

} // verus!
