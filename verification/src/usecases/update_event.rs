//! Updating events.

use vstd::prelude::*;
use crate::db::Db;
use crate::entities::{
    clone_optional, clone_strings, Address, AddressView, Contact, ContactView, Event, EventView,
    Location, LocationView, Tag,
};
use crate::error::{Error, RepoError};
use crate::store::{storage_failed, Store};
use crate::tagging::materialized;
use crate::usecases::events::{check_token, token_refusal, username_by_email, with_email};

verus! {

/// What is submitted to create or to update an event.
#[derive(Debug)]
pub struct NewEvent {
    pub title: String,
    pub description: Option<String>,
    pub start: u64,
    pub end: Option<u64>,
    /// Latitude in units of 1e-7 degrees.
    pub lat: Option<i64>,
    /// Longitude in units of 1e-7 degrees.
    pub lng: Option<i64>,
    pub street: Option<String>,
    pub zip: Option<String>,
    pub city: Option<String>,
    pub country: Option<String>,
    pub email: Option<String>,
    pub telephone: Option<String>,
    pub homepage: Option<String>,
    pub tags: Option<Vec<String>>,
    /// The e-mail address of the account that creates the event.
    pub created_by: Option<String>,
    /// The API token of the organization on whose behalf the event is submitted.
    pub token: Option<String>,
}

/// What a submission of an event stands for.
pub struct NewEventView {
    pub title: Seq<char>,
    pub description: Option<Seq<char>>,
    pub start: u64,
    pub end: Option<u64>,
    pub lat: Option<i64>,
    pub lng: Option<i64>,
    pub street: Option<Seq<char>>,
    pub zip: Option<Seq<char>>,
    pub city: Option<Seq<char>>,
    pub country: Option<Seq<char>>,
    pub email: Option<Seq<char>>,
    pub telephone: Option<Seq<char>>,
    pub homepage: Option<Seq<char>>,
    pub tags: Option<Seq<Seq<char>>>,
    pub created_by: Option<Seq<char>>,
    pub token: Option<Seq<char>>,
}

impl DeepView for NewEvent {
    type V = NewEventView;

    open spec fn deep_view(&self) -> NewEventView {
        NewEventView {
            title: self.title@,
            description: self.description.deep_view(),
            start: self.start,
            end: self.end,
            lat: self.lat,
            lng: self.lng,
            street: self.street.deep_view(),
            zip: self.zip.deep_view(),
            city: self.city.deep_view(),
            country: self.country.deep_view(),
            email: self.email.deep_view(),
            telephone: self.telephone.deep_view(),
            homepage: self.homepage.deep_view(),
            tags: self.tags.deep_view(),
            created_by: self.created_by.deep_view(),
            token: self.token.deep_view(),
        }
    }
}

impl View for NewEvent {
    type V = NewEventView;

    open spec fn view(&self) -> NewEventView {
        self.deep_view()
    }
}

impl Clone for NewEvent {
    fn clone(&self) -> (copy: Self)
        ensures
            copy@ == self@,
    {
        NewEvent {
            title: self.title.clone(),
            description: clone_optional(&self.description),
            start: self.start,
            end: self.end,
            lat: self.lat,
            lng: self.lng,
            street: clone_optional(&self.street),
            zip: clone_optional(&self.zip),
            city: clone_optional(&self.city),
            country: clone_optional(&self.country),
            email: clone_optional(&self.email),
            telephone: clone_optional(&self.telephone),
            homepage: clone_optional(&self.homepage),
            tags: match &self.tags { Some(list) => Some(clone_strings(list)), None => None },
            created_by: clone_optional(&self.created_by),
            token: clone_optional(&self.token),
        }
    }
}

/// What is submitted to update an event.
pub type UpdateEvent = NewEvent;

/// The address that a submission gives, if it gives any part of one.
pub open spec fn address_of(e: NewEventView) -> Option<AddressView> {
    if e.street is Some || e.zip is Some || e.city is Some || e.country is Some {
        Some(AddressView { street: e.street, zip: e.zip, city: e.city, country: e.country })
    } else {
        None
    }
}

/// The location that a submission gives, if it gives a coordinate or an
/// address. A coordinate that is not given counts as 0.
pub open spec fn location_of(e: NewEventView) -> Option<LocationView> {
    if e.lat is Some || e.lng is Some || address_of(e) is Some {
        Some(
            LocationView {
                lat: match e.lat {
                    Some(lat) => lat,
                    None => 0,
                },
                lng: match e.lng {
                    Some(lng) => lng,
                    None => 0,
                },
                address: address_of(e),
            },
        )
    } else {
        None
    }
}

/// The contact that a submission gives, if it gives an e-mail address or a
/// telephone number.
pub open spec fn contact_of(e: NewEventView) -> Option<ContactView> {
    if e.email is Some || e.telephone is Some {
        Some(ContactView { email: e.email, telephone: e.telephone })
    } else {
        None
    }
}

/// The tags that a submission gives.
pub open spec fn tags_of(e: NewEventView) -> Seq<Seq<char>> {
    match e.tags {
        Some(tags) => tags,
        None => Seq::empty(),
    }
}

/// The user name of the creator that a submission names by e-mail address:
/// that of the first account with the address. An address that no account
/// has is not found.
pub open spec fn creator_of(store: Store, e: NewEventView) -> Result<Option<Seq<char>>, RepoError> {
    match e.created_by {
        None => Ok(None),
        Some(email) => {
            let creators = store.users.filter(with_email(email));
            if creators.len() > 0 {
                Ok(Some(creators[0].username))
            } else {
                Err(RepoError::NotFound)
            }
        },
    }
}

/// Why a submission is refused, if it is: its API token belongs to no
/// organization, or its creator has no account.
pub open spec fn event_refusal(store: Store, e: NewEventView) -> Option<Error> {
    match token_refusal(store, e.token) {
        Some(failure) => Some(failure),
        None => match creator_of(store, e) {
            Err(failure) => Some(Error::Repo(failure)),
            Ok(_) => None,
        },
    }
}

/// The event that a submission describes, under the identity `id`.
pub open spec fn event_of(store: Store, e: NewEventView, id: Seq<char>) -> EventView {
    EventView {
        id,
        title: e.title,
        description: e.description,
        start: e.start,
        end: e.end,
        contact: contact_of(e),
        location: location_of(e),
        homepage: e.homepage,
        tags: tags_of(e),
        created_by: creator_of(store, e)->Ok_0,
    }
}

/// Makes a tag exist for each of the names.
fn create_tags<D: Db>(db: &mut D, names: &Vec<String>) -> (res: Result<(), Error>)
    ensures
        final(db).reliable() == old(db).reliable(),
        match res {
            Ok(()) => final(db).store() == old(db).store().with_tags(
                materialized(old(db).store().tags, names.deep_view()),
            ),
            Err(failure) => {
                &&& !old(db).reliable()
                &&& storage_failed(failure, final(db).own_failure())
                &&& exists|done: int|
                    0 <= done <= names.len() && final(db).store() == old(db).store().with_tags(
                        materialized(old(db).store().tags, #[trigger] names.deep_view().take(done)),
                    )
            },
        },
{
    let ghost before = db.store();
    let mut i: usize = 0;
    proof {
        assert(names.deep_view().take(0) =~= Seq::empty());
        assert(before.with_tags(before.tags) == before);
    }
    while i < names.len()
        invariant
            i <= names.len(),
            before == old(db).store(),
            db.reliable() == old(db).reliable(),
            db.store() == before.with_tags(
                materialized(before.tags, names.deep_view().take(i as int)),
            ),
        decreases names.len() - i,
    {
        proof {
            assert(names.deep_view().take(i + 1).drop_last() =~= names.deep_view().take(i as int));
        }
        match db.create_tag_if_it_does_not_exist(&Tag { id: names[i].clone() }) {
            Ok(()) => {},
            Err(cause) => {
                return Err(Error::Repo(cause));
            },
        }
        i += 1;
    }
    assert(names.deep_view().take(names.len() as int) =~= names.deep_view());
    Ok(())
}

/// How turning a submission into an event may end.
pub open spec fn conversion_outcome(
    before: Store,
    reliable: bool,
    e: NewEventView,
    id: Seq<char>,
    after: Store,
    own: RepoError,
    res: Result<EventView, Error>,
) -> bool {
    match res {
        Ok(event) => {
            &&& event_refusal(before, e) is None
            &&& event == event_of(before, e, id)
            &&& after == before.with_tags(materialized(before.tags, tags_of(e)))
        },
        Err(failure) => {
            ||| event_refusal(before, e) == Some(failure) && after == before
            ||| {
                &&& !reliable
                &&& storage_failed(failure, own)
                &&& exists|done: int|
                    0 <= done <= tags_of(e).len() && after == before.with_tags(
                        materialized(before.tags, #[trigger] tags_of(e).take(done)),
                    )
            }
        },
    }
}

/// Turns a submission into the event that it describes, under the identity
/// `id`, and makes a tag exist for each of its tags.
pub fn try_into_new_event<D: Db>(db: &mut D, e: NewEvent, id: String) -> (res: Result<Event, Error>)
    ensures
        final(db).reliable() == old(db).reliable(),
        conversion_outcome(
            old(db).store(),
            old(db).reliable(),
            e@,
            id@,
            final(db).store(),
            final(db).own_failure(),
            match res {
                Ok(event) => Ok(event@),
                Err(failure) => Err(failure),
            },
        ),
{
    let ghost before = db.store();
    proof {
        assert(tags_of(e@).take(0) =~= Seq::empty());
        assert(before.with_tags(before.tags) == before);
    }
    match check_token(db, &e.token) {
        Ok(()) => {},
        Err(failure) => {
            return Err(failure);
        },
    }
    let created_by = match &e.created_by {
        None => None,
        Some(email) => {
            let users = match db.all_users() {
                Ok(users) => users,
                Err(cause) => {
                    return Err(Error::Repo(cause));
                },
            };
            match username_by_email(&users, email) {
                Some(username) => Some(username),
                None => {
                    return Err(Error::Repo(RepoError::NotFound));
                },
            }
        },
    };
    let address = if e.street.is_some() || e.zip.is_some() || e.city.is_some()
        || e.country.is_some() {
        Some(Address { street: e.street, zip: e.zip, city: e.city, country: e.country })
    } else {
        None
    };
    let location = if e.lat.is_some() || e.lng.is_some() || address.is_some() {
        Some(
            Location {
                lat: match e.lat {
                    Some(lat) => lat,
                    None => 0,
                },
                lng: match e.lng {
                    Some(lng) => lng,
                    None => 0,
                },
                address,
            },
        )
    } else {
        None
    };
    let contact = if e.email.is_some() || e.telephone.is_some() {
        Some(Contact { email: e.email, telephone: e.telephone })
    } else {
        None
    };
    let tags = match e.tags {
        Some(tags) => tags,
        None => {
            let none: Vec<String> = Vec::new();
            assert(none.deep_view() =~= Seq::empty());
            none
        },
    };
    let event = Event {
        id,
        title: e.title,
        description: e.description,
        start: e.start,
        end: e.end,
        contact,
        location,
        homepage: e.homepage,
        tags,
        created_by,
    };
    assert(event@ == event_of(before, e@, id@));
    match create_tags(db, &event.tags) {
        Ok(()) => Ok(event),
        Err(failure) => Err(failure),
    }
}

/// How an update of the event with the identity `id` may end.
///
/// It succeeds where the submission is not refused and the event is stored:
/// the tags of the submission exist then, and the event has been replaced.
/// Where the submission is refused, nothing has changed. Where the event is
/// not stored, the update fails with [`RepoError::NotFound`], and the tags
/// exist all the same.
pub open spec fn event_update_outcome(
    before: Store,
    reliable: bool,
    e: NewEventView,
    id: Seq<char>,
    after: Store,
    own: RepoError,
    res: Result<(), Error>,
) -> bool {
    let event = event_of(before, e, id);
    let ready = before.with_tags(materialized(before.tags, tags_of(e)));
    match res {
        Ok(()) => event_refusal(before, e) is None && ready.update_event(event) == Ok::<
            Store,
            RepoError,
        >(after),
        Err(failure) => {
            ||| event_refusal(before, e) == Some(failure) && after == before
            ||| {
                &&& event_refusal(before, e) is None
                &&& ready.update_event(event) is Err
                &&& failure == Error::Repo(ready.update_event(event)->Err_0)
                &&& after == ready
            }
            ||| {
                &&& !reliable
                &&& storage_failed(failure, own)
                &&& exists|done: int|
                    0 <= done <= tags_of(e).len() && after == before.with_tags(
                        materialized(before.tags, #[trigger] tags_of(e).take(done)),
                    )
            }
        },
    }
}

/// Replaces the event with the identity `id` by what is submitted.
pub fn update_event<D: Db>(db: &mut D, id: &str, e: UpdateEvent) -> (res: Result<(), Error>)
    ensures
        final(db).reliable() == old(db).reliable(),
        event_update_outcome(
            old(db).store(),
            old(db).reliable(),
            e@,
            id@,
            final(db).store(),
            final(db).own_failure(),
            res,
        ),
{
    let updated_event = match try_into_new_event(db, e, id.to_owned()) {
        Ok(event) => event,
        Err(failure) => {
            return Err(failure);
        },
    };
    match db.update_event(&updated_event) {
        Ok(()) => Ok(()),
        Err(cause) => {
            proof {
                assert(tags_of(e@).take(tags_of(e@).len() as int) =~= tags_of(e@));
            }
            Err(Error::Repo(cause))
        },
    }
}

} // verus!
