//! Creating and updating entries.
//!
//! An entry carries a version: 0 when it is created, one more with every
//! update. An update is accepted only if it names the version that follows
//! the stored one, so that nobody overwrites a version that they have not
//! seen. The time of creation is set once, when the entry is created.

use vstd::prelude::*;
use crate::db::Db;
use crate::entities::{clone_optional, clone_strings, contains_string, Entry, EntryView};
use crate::error::{Error, RepoError};
use crate::outside::{random_id, unix_time_now, RANDOM_ID_LENGTH};
use crate::reconcile::{partly_reconciled, reconciled, set_tag_relations};
use crate::sequences::{lemma_filter_empty, lemma_filter_next};
use crate::identity::Id;
use crate::store::{
    first, is_first, is_own_failure, lemma_first, occurs, storage_failed, Store,
};

verus! {

/// What is submitted to create an entry.
#[derive(Debug)]
pub struct NewEntry {
    pub title: String,
    pub description: String,
    /// Latitude in units of 1e-7 degrees.
    pub lat: i64,
    /// Longitude in units of 1e-7 degrees.
    pub lng: i64,
    pub street: Option<String>,
    pub zip: Option<String>,
    pub city: Option<String>,
    pub country: Option<String>,
    pub email: Option<String>,
    pub telephone: Option<String>,
    pub homepage: Option<String>,
    pub categories: Vec<String>,
    pub tags: Vec<String>,
    pub license: String,
}

/// What a submission of a new entry stands for.
pub struct NewEntryView {
    pub title: Seq<char>,
    pub description: Seq<char>,
    pub lat: i64,
    pub lng: i64,
    pub street: Option<Seq<char>>,
    pub zip: Option<Seq<char>>,
    pub city: Option<Seq<char>>,
    pub country: Option<Seq<char>>,
    pub email: Option<Seq<char>>,
    pub telephone: Option<Seq<char>>,
    pub homepage: Option<Seq<char>>,
    pub categories: Seq<Seq<char>>,
    pub tags: Seq<Seq<char>>,
    pub license: Seq<char>,
}

impl DeepView for NewEntry {
    type V = NewEntryView;

    open spec fn deep_view(&self) -> NewEntryView {
        NewEntryView {
            title: self.title@,
            description: self.description@,
            lat: self.lat,
            lng: self.lng,
            street: self.street.deep_view(),
            zip: self.zip.deep_view(),
            city: self.city.deep_view(),
            country: self.country.deep_view(),
            email: self.email.deep_view(),
            telephone: self.telephone.deep_view(),
            homepage: self.homepage.deep_view(),
            categories: self.categories.deep_view(),
            tags: self.tags.deep_view(),
            license: self.license@,
        }
    }
}

impl View for NewEntry {
    type V = NewEntryView;

    open spec fn view(&self) -> NewEntryView {
        self.deep_view()
    }
}

impl Clone for NewEntry {
    fn clone(&self) -> (copy: Self)
        ensures
            copy@ == self@,
    {
        NewEntry {
            title: self.title.clone(),
            description: self.description.clone(),
            lat: self.lat,
            lng: self.lng,
            street: clone_optional(&self.street),
            zip: clone_optional(&self.zip),
            city: clone_optional(&self.city),
            country: clone_optional(&self.country),
            email: clone_optional(&self.email),
            telephone: clone_optional(&self.telephone),
            homepage: clone_optional(&self.homepage),
            categories: clone_strings(&self.categories),
            tags: clone_strings(&self.tags),
            license: self.license.clone(),
        }
    }
}

/// What is submitted to update an entry.
#[derive(Debug)]
pub struct UpdateEntry {
    /// The identity of the entry that is to be replaced.
    pub id: String,
    /// The version that the entry is to have: one more than the stored one.
    pub version: u64,
    pub title: String,
    pub description: String,
    /// Latitude in units of 1e-7 degrees.
    pub lat: i64,
    /// Longitude in units of 1e-7 degrees.
    pub lng: i64,
    pub street: Option<String>,
    pub zip: Option<String>,
    pub city: Option<String>,
    pub country: Option<String>,
    pub email: Option<String>,
    pub telephone: Option<String>,
    pub homepage: Option<String>,
    pub categories: Vec<String>,
    pub tags: Vec<String>,
}

/// What a submission of an update stands for.
pub struct UpdateEntryView {
    pub id: Seq<char>,
    pub version: u64,
    pub title: Seq<char>,
    pub description: Seq<char>,
    pub lat: i64,
    pub lng: i64,
    pub street: Option<Seq<char>>,
    pub zip: Option<Seq<char>>,
    pub city: Option<Seq<char>>,
    pub country: Option<Seq<char>>,
    pub email: Option<Seq<char>>,
    pub telephone: Option<Seq<char>>,
    pub homepage: Option<Seq<char>>,
    pub categories: Seq<Seq<char>>,
    pub tags: Seq<Seq<char>>,
}

impl DeepView for UpdateEntry {
    type V = UpdateEntryView;

    open spec fn deep_view(&self) -> UpdateEntryView {
        UpdateEntryView {
            id: self.id@,
            version: self.version,
            title: self.title@,
            description: self.description@,
            lat: self.lat,
            lng: self.lng,
            street: self.street.deep_view(),
            zip: self.zip.deep_view(),
            city: self.city.deep_view(),
            country: self.country.deep_view(),
            email: self.email.deep_view(),
            telephone: self.telephone.deep_view(),
            homepage: self.homepage.deep_view(),
            categories: self.categories.deep_view(),
            tags: self.tags.deep_view(),
        }
    }
}

impl View for UpdateEntry {
    type V = UpdateEntryView;

    open spec fn view(&self) -> UpdateEntryView {
        self.deep_view()
    }
}

impl Clone for UpdateEntry {
    fn clone(&self) -> (copy: Self)
        ensures
            copy@ == self@,
    {
        UpdateEntry {
            id: self.id.clone(),
            version: self.version,
            title: self.title.clone(),
            description: self.description.clone(),
            lat: self.lat,
            lng: self.lng,
            street: clone_optional(&self.street),
            zip: clone_optional(&self.zip),
            city: clone_optional(&self.city),
            country: clone_optional(&self.country),
            email: clone_optional(&self.email),
            telephone: clone_optional(&self.telephone),
            homepage: clone_optional(&self.homepage),
            categories: clone_strings(&self.categories),
            tags: clone_strings(&self.tags),
        }
    }
}

/// The entry that a submission creates under the identity `id` at the time
/// `created`: version 0, with the submitted fields.
pub open spec fn created_entry(e: NewEntryView, id: Seq<char>, created: u64) -> EntryView {
    EntryView {
        id,
        created,
        version: 0,
        title: e.title,
        description: e.description,
        lat: e.lat,
        lng: e.lng,
        street: e.street,
        zip: e.zip,
        city: e.city,
        country: e.country,
        email: e.email,
        telephone: e.telephone,
        homepage: e.homepage,
        categories: e.categories,
        tags: e.tags,
        license: Some(e.license),
    }
}

/// The entry that an update puts in the place of `stored`: the submitted
/// fields and version, and what the submission does not hold, the time of
/// creation and the license, from the stored entry.
pub open spec fn updated_entry(e: UpdateEntryView, stored: EntryView) -> EntryView {
    EntryView {
        id: e.id,
        created: stored.created,
        version: e.version,
        title: e.title,
        description: e.description,
        lat: e.lat,
        lng: e.lng,
        street: e.street,
        zip: e.zip,
        city: e.city,
        country: e.country,
        email: e.email,
        telephone: e.telephone,
        homepage: e.homepage,
        categories: e.categories,
        tags: e.tags,
        license: stored.license,
    }
}

/// Why an update is refused, if it is: the entry is not stored, or the
/// submitted version is not the stored version plus one.
pub open spec fn update_refusal(store: Store, e: UpdateEntryView) -> Option<RepoError> {
    match store.get_entry(e.id) {
        Err(failure) => Some(failure),
        Ok(stored) => if stored.version + 1 == e.version {
            None
        } else {
            Some(RepoError::InvalidVersion)
        },
    }
}

/// The storage with the stored entry replaced by what the update submits.
pub open spec fn with_update(store: Store, e: UpdateEntryView) -> Store {
    store.update_entry(updated_entry(e, store.get_entry(e.id)->Ok_0))->Ok_0
}

/// How an update may end.
///
/// It succeeds only where it is not refused; the entry has then been
/// replaced and its tags reconciled. Where it is refused, it fails for that
/// reason and nothing has changed. With a storage that is not reliable it may
/// also fail because the storage fails on its own; then the failure `own`
/// that the storage reported is handed back as it is, and nothing has
/// changed, or the entry has been replaced and the reconciliation has
/// stopped midway.
pub open spec fn update_outcome(
    before: Store,
    reliable: bool,
    e: UpdateEntryView,
    after: Store,
    own: RepoError,
    res: Result<(), Error>,
) -> bool {
    match res {
        Ok(()) => update_refusal(before, e) is None && after == reconciled(
            with_update(before, e),
            e.id,
            e.tags,
        ),
        Err(Error::Repo(cause)) => {
            ||| update_refusal(before, e) == Some(cause) && after == before
            ||| !reliable && is_own_failure(own) && cause == own && after == before
            ||| !reliable && is_own_failure(own) && cause == own && update_refusal(before, e)
                is None && partly_reconciled(with_update(before, e), e.id, e.tags, after)
        },
        Err(_) => false,
    }
}

/// An accepted update stores the submitted version, which is the version it
/// replaces plus one: no version is skipped, and none is used twice. The
/// time of creation and the license stay what they were, and so does the
/// number of entries.
pub proof fn lemma_accepted_update(before: Store, e: UpdateEntryView)
    requires
        update_refusal(before, e) is None,
    ensures
        before.get_entry(e.id) is Ok,
        e.version == before.get_entry(e.id)->Ok_0.version + 1,
        reconciled(with_update(before, e), e.id, e.tags).get_entry(e.id) == Ok::<
            EntryView,
            RepoError,
        >(updated_entry(e, before.get_entry(e.id)->Ok_0)),
        reconciled(with_update(before, e), e.id, e.tags).get_entry(e.id)->Ok_0.created
            == before.get_entry(e.id)->Ok_0.created,
        reconciled(with_update(before, e), e.id, e.tags).get_entry(e.id)->Ok_0.license
            == before.get_entry(e.id)->Ok_0.license,
        reconciled(with_update(before, e), e.id, e.tags).entries.len() == before.entries.len(),
{
    let stored = before.get_entry(e.id)->Ok_0;
    let new = updated_entry(e, stored);
    let at = first::<Entry>(before.entries, e.id);
    assert(is_first::<Entry>(before.entries, e.id, at));
    let entries = before.entries.update(at, new);
    assert(is_first::<Entry>(entries, e.id, at)) by {
        assert forall|sooner: int| 0 <= sooner < at implies Entry::identity(
            #[trigger] entries[sooner],
        ) != e.id by {
            assert(entries[sooner] == before.entries[sooner]);
        }
    }
    lemma_first::<Entry>(entries, e.id, at);
}

/// A refused update changes nothing, whatever the storage: it fails with the
/// reason of the refusal, or, where the storage is not reliable, with the
/// failure that the storage reported.
pub proof fn lemma_refused_update(
    before: Store,
    reliable: bool,
    e: UpdateEntryView,
    after: Store,
    own: RepoError,
    res: Result<(), Error>,
)
    requires
        update_refusal(before, e) is Some,
        update_outcome(before, reliable, e, after, own, res),
    ensures
        after == before,
        res is Err,
        reliable ==> res == Err::<(), Error>(Error::Repo(update_refusal(before, e)->Some_0)),
{
}

/// With a reliable storage, an update succeeds exactly when it is not
/// refused.
pub proof fn lemma_update_succeeds(
    before: Store,
    e: UpdateEntryView,
    after: Store,
    own: RepoError,
    res: Result<(), Error>,
)
    requires
        update_outcome(before, true, e, after, own, res),
    ensures
        res is Ok <==> update_refusal(before, e) is None,
{
}

/// Applies an update to a stored entry.
///
/// The update is accepted if the entry is stored and the submitted version
/// is the stored version plus one; any other version is refused with
/// [`RepoError::InvalidVersion`], and an entry that is not stored with
/// [`RepoError::NotFound`]. An accepted update replaces the entry and
/// reconciles its tags; the new entry keeps the time of creation and the
/// license of the one it replaces.
pub fn update_entry<D: Db>(db: &mut D, e: UpdateEntry) -> (res: Result<(), Error>)
    ensures
        final(db).reliable() == old(db).reliable(),
        update_outcome(
            old(db).store(),
            old(db).reliable(),
            e@,
            final(db).store(),
            final(db).own_failure(),
            res,
        ),
{
    let stored = match db.get_entry(e.id.as_str()) {
        Ok(stored) => stored,
        Err(cause) => {
            return Err(Error::Repo(cause));
        },
    };
    if stored.version == u64::MAX || stored.version + 1 != e.version {
        return Err(Error::Repo(RepoError::InvalidVersion));
    }
    let tags = clone_strings(&e.tags);
    let new_entry = Entry {
        id: e.id,
        created: stored.created,
        version: e.version,
        title: e.title,
        description: e.description,
        lat: e.lat,
        lng: e.lng,
        street: e.street,
        zip: e.zip,
        city: e.city,
        country: e.country,
        email: e.email,
        telephone: e.telephone,
        homepage: e.homepage,
        categories: e.categories,
        tags: e.tags,
        license: stored.license,
    };
    assert(new_entry@ == updated_entry(e@, stored@));
    match db.update_entry(&new_entry) {
        Ok(()) => {},
        Err(cause) => {
            return Err(Error::Repo(cause));
        },
    }
    set_tag_relations(db, new_entry.id.as_str(), tags.as_slice())
}

/// How the creation of an entry under the identity `id` at the time
/// `created` may end.
///
/// It succeeds unless the identity is taken; the entry is then stored, its
/// tags are reconciled, and the identity is handed back. Where the identity
/// is taken it fails with [`RepoError::AlreadyExists`] and nothing has
/// changed. With a storage that is not reliable it may also fail because the
/// storage fails on its own; then the failure `own` that the storage
/// reported is handed back as it is, and nothing has changed, or the entry
/// is stored and the reconciliation has stopped midway.
pub open spec fn creation_outcome(
    before: Store,
    reliable: bool,
    e: NewEntryView,
    id: Seq<char>,
    created: u64,
    after: Store,
    own: RepoError,
    res: Result<String, Error>,
) -> bool {
    let entry = created_entry(e, id, created);
    match res {
        Ok(given) => given@ == id && before.create_entry(entry) is Ok && after == reconciled(
            before.create_entry(entry)->Ok_0,
            id,
            e.tags,
        ),
        Err(Error::Repo(cause)) => {
            ||| before.create_entry(entry) == Err::<Store, RepoError>(cause) && after == before
            ||| !reliable && is_own_failure(own) && cause == own && after == before
            ||| !reliable && is_own_failure(own) && cause == own && before.create_entry(entry)
                is Ok && partly_reconciled(before.create_entry(entry)->Ok_0, id, e.tags, after)
        },
        Err(_) => false,
    }
}

/// An entry is stored as it is submitted: with a reliable storage, creating
/// it succeeds whenever the identity is free, whatever the fields hold.
pub proof fn lemma_entry_is_not_checked(
    before: Store,
    e: NewEntryView,
    id: Seq<char>,
    created: u64,
    after: Store,
    own: RepoError,
    res: Result<String, Error>,
)
    requires
        creation_outcome(before, true, e, id, created, after, own, res),
    ensures
        res is Ok <==> !occurs::<Entry>(before.entries, id),
        res is Ok ==> after.entries == before.entries.push(created_entry(e, id, created)),
{
}

/// Creates an entry under the identity `id`, with `created` as the time of
/// creation.
///
/// The submission is not checked here: whoever calls has made sure that its
/// fields are fit to be stored.
pub fn create_new_entry_as<D: Db>(db: &mut D, e: NewEntry, id: String, created: u64) -> (res:
    Result<String, Error>)
    ensures
        final(db).reliable() == old(db).reliable(),
        creation_outcome(
            old(db).store(),
            old(db).reliable(),
            e@,
            id@,
            created,
            final(db).store(),
            final(db).own_failure(),
            res,
        ),
{
    let tags = clone_strings(&e.tags);
    let new_entry = Entry {
        id,
        created,
        version: 0,
        title: e.title,
        description: e.description,
        lat: e.lat,
        lng: e.lng,
        street: e.street,
        zip: e.zip,
        city: e.city,
        country: e.country,
        email: e.email,
        telephone: e.telephone,
        homepage: e.homepage,
        categories: e.categories,
        tags: e.tags,
        license: Some(e.license),
    };
    assert(new_entry@ == created_entry(e@, id@, created));
    let id = new_entry.id.clone();
    match db.create_entry(new_entry) {
        Ok(()) => {},
        Err(cause) => {
            return Err(Error::Repo(cause));
        },
    }
    match set_tag_relations(db, id.as_str(), tags.as_slice()) {
        Ok(()) => Ok(id),
        Err(failure) => Err(failure),
    }
}

/// Creates an entry.
///
/// The entry gets a fresh random identity and version 0, with the time of
/// the clock as the time of creation. Its tags are reconciled, and its
/// identity is handed back.
///
/// The submission is not checked here: whoever calls has made sure that its
/// fields are fit to be stored.
pub fn create_new_entry<D: Db>(db: &mut D, e: NewEntry) -> (res: Result<String, Error>)
    ensures
        final(db).reliable() == old(db).reliable(),
        exists|id: Seq<char>, created: u64|
            id.len() == RANDOM_ID_LENGTH && creation_outcome(
                old(db).store(),
                old(db).reliable(),
                e@,
                id,
                created,
                final(db).store(),
                final(db).own_failure(),
                res,
            ),
{
    let id = random_id();
    let created = unix_time_now();
    let ghost chosen = id@;
    let res = create_new_entry_as(db, e, id, created);
    assert(creation_outcome(
        old(db).store(),
        old(db).reliable(),
        e@,
        chosen,
        created,
        db.store(),
        db.own_failure(),
        res,
    ));
    res
}

/// The test for having one of the identities.
pub open spec fn id_among(ids: Seq<Seq<char>>) -> spec_fn(EntryView) -> bool {
    |entry: EntryView| ids.contains(entry.id)
}

/// The stored entries that have one of the identities, in the order in which
/// they are stored.
pub fn get_entries<D: Db>(db: &D, ids: &[String]) -> (res: Result<Vec<Entry>, Error>)
    ensures
        match res {
            Ok(entries) => entries.deep_view() == db.store().entries.filter(
                id_among(ids.deep_view()),
            ),
            Err(failure) => !db.reliable() && storage_failed(failure, db.own_failure()),
        },
{
    let all = match db.all_entries() {
        Ok(all) => all,
        Err(cause) => {
            return Err(Error::Repo(cause));
        },
    };
    let ghost test = id_among(ids.deep_view());
    let mut entries: Vec<Entry> = Vec::new();
    let mut i: usize = 0;
    proof {
        lemma_filter_empty(test);
        assert(all.deep_view().take(0) =~= Seq::empty());
        assert(entries.deep_view() =~= Seq::empty());
    }
    while i < all.len()
        invariant
            i <= all.len(),
            test == id_among(ids.deep_view()),
            entries.deep_view() == all.deep_view().take(i as int).filter(test),
        decreases all.len() - i,
    {
        let ghost before = entries.deep_view();
        proof {
            lemma_filter_next(all.deep_view(), test, i as int);
        }
        if contains_string(ids, &all[i].id) {
            entries.push(all[i].clone());
            assert(entries.deep_view() =~= before.push(all.deep_view()[i as int]));
        }
        i += 1;
    }
    assert(all.deep_view().take(all.len() as int) =~= all.deep_view());
    Ok(entries)
}

} // verus!
