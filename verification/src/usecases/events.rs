//! Looking events up.

use vstd::prelude::*;
use crate::db::Db;
use crate::entities::{contains_string, Event, EventView, User, UserView};
use crate::error::{Error, ParameterError, RepoError};
use crate::sequences::{
    lemma_filter_empty, lemma_filter_first, lemma_filter_next, lemma_filter_none,
};
use crate::store::{storage_failed, Store};

verus! {

/// The test for having at least one of the tags.
pub open spec fn shares_tag(tags: Seq<Seq<char>>) -> spec_fn(EventView) -> bool {
    |event: EventView| exists|i: int| 0 <= i < tags.len() && event.tags.contains(#[trigger] tags[i])
}

/// The test for having been created by the account with that user name.
pub open spec fn created_by_user(username: Seq<char>) -> spec_fn(EventView) -> bool {
    |event: EventView| event.created_by == Some(username)
}

/// The test for having the e-mail address.
pub open spec fn with_email(email: Seq<char>) -> spec_fn(UserView) -> bool {
    |user: UserView| user.email == email
}

/// Why a request that shows an API token is refused, if it is: the token
/// belongs to no organization. A request without a token is not refused.
pub open spec fn token_refusal(store: Store, token: Option<Seq<char>>) -> Option<Error> {
    match token {
        None => None,
        Some(token) => match store.get_org_by_api_token(token) {
            Ok(_) => None,
            Err(RepoError::NotFound) => Some(Error::Parameter(ParameterError::Unauthorized)),
            Err(failure) => Some(Error::Repo(failure)),
        },
    }
}

/// The events that a query asks for.
///
/// With tags, only the events that have at least one of them. With the e-mail
/// address of a creator, only the events created by the first account with
/// that address; where no account has it, none.
pub open spec fn queried(
    store: Store,
    tags: Option<Seq<Seq<char>>>,
    created_by: Option<Seq<char>>,
) -> Seq<EventView> {
    let tagged = match tags {
        Some(tags) => store.events.filter(shares_tag(tags)),
        None => store.events,
    };
    match created_by {
        None => tagged,
        Some(email) => {
            let creators = store.users.filter(with_email(email));
            if creators.len() > 0 {
                tagged.filter(created_by_user(creators[0].username))
            } else {
                Seq::empty()
            }
        },
    }
}

/// Whether the event has at least one of the tags.
fn has_any_tag(event: &Event, tags: &Vec<String>) -> (found: bool)
    ensures
        found == shares_tag(tags.deep_view())(event@),
{
    let mut i: usize = 0;
    while i < tags.len()
        invariant
            i <= tags.len(),
            forall|j: int| 0 <= j < i ==> !event@.tags.contains(#[trigger] tags.deep_view()[j]),
        decreases tags.len() - i,
    {
        if contains_string(event.tags.as_slice(), &tags[i]) {
            assert(event@.tags.contains(tags.deep_view()[i as int]));
            return true;
        }
        i += 1;
    }
    false
}

/// The events that have at least one of the tags.
fn events_with_tags(events: Vec<Event>, tags: &Vec<String>) -> (kept: Vec<Event>)
    ensures
        kept.deep_view() == events.deep_view().filter(shares_tag(tags.deep_view())),
{
    let ghost test = shares_tag(tags.deep_view());
    let ghost all = events.deep_view();
    let mut kept: Vec<Event> = Vec::new();
    let mut i: usize = 0;
    proof {
        lemma_filter_empty(test);
        assert(all.take(0) =~= Seq::empty());
        assert(kept.deep_view() =~= Seq::empty());
    }
    while i < events.len()
        invariant
            i <= events.len(),
            test == shares_tag(tags.deep_view()),
            all == events.deep_view(),
            kept.deep_view() == all.take(i as int).filter(test),
        decreases events.len() - i,
    {
        let ghost before = kept.deep_view();
        proof {
            lemma_filter_next(all, test, i as int);
        }
        if has_any_tag(&events[i], tags) {
            kept.push(events[i].clone());
            assert(kept.deep_view() =~= before.push(all[i as int]));
        }
        i += 1;
    }
    assert(all.take(all.len() as int) =~= all);
    kept
}

/// The events that the account with the user name has created.
fn events_created_by(events: Vec<Event>, username: &String) -> (kept: Vec<Event>)
    ensures
        kept.deep_view() == events.deep_view().filter(created_by_user(username@)),
{
    let ghost test = created_by_user(username@);
    let ghost all = events.deep_view();
    let mut kept: Vec<Event> = Vec::new();
    let mut i: usize = 0;
    proof {
        lemma_filter_empty(test);
        assert(all.take(0) =~= Seq::empty());
        assert(kept.deep_view() =~= Seq::empty());
    }
    while i < events.len()
        invariant
            i <= events.len(),
            test == created_by_user(username@),
            all == events.deep_view(),
            kept.deep_view() == all.take(i as int).filter(test),
        decreases events.len() - i,
    {
        let ghost before = kept.deep_view();
        proof {
            lemma_filter_next(all, test, i as int);
        }
        let by_user = match &events[i].created_by {
            Some(creator) => *creator == *username,
            None => false,
        };
        if by_user {
            kept.push(events[i].clone());
            assert(kept.deep_view() =~= before.push(all[i as int]));
        }
        i += 1;
    }
    assert(all.take(all.len() as int) =~= all);
    kept
}

/// The user name of the first account with the e-mail address.
pub(crate) fn username_by_email(users: &Vec<User>, email: &String) -> (username: Option<String>)
    ensures
        match username {
            Some(name) => users.deep_view().filter(with_email(email@)).len() > 0 && name@
                == users.deep_view().filter(with_email(email@))[0].username,
            None => users.deep_view().filter(with_email(email@)).len() == 0,
        },
{
    let mut i: usize = 0;
    while i < users.len()
        invariant
            i <= users.len(),
            forall|j: int| 0 <= j < i ==> !with_email(email@)(#[trigger] users.deep_view()[j]),
        decreases users.len() - i,
    {
        if users[i].email == *email {
            proof {
                lemma_filter_first(users.deep_view(), with_email(email@), i as int);
            }
            return Some(users[i].username.clone());
        }
        i += 1;
    }
    proof {
        lemma_filter_none(users.deep_view(), with_email(email@));
    }
    None
}

/// Checks the API token, where one is shown.
pub(crate) fn check_token<D: Db>(db: &D, token: &Option<String>) -> (res: Result<(), Error>)
    ensures
        match res {
            Ok(()) => token_refusal(db.store(), token.deep_view()) is None,
            Err(failure) => token_refusal(db.store(), token.deep_view()) == Some(failure) || (
            !db.reliable() && storage_failed(failure, db.own_failure())),
        },
{
    match token {
        Some(token) => match db.get_org_by_api_token(token.as_str()) {
            Ok(_) => Ok(()),
            Err(RepoError::NotFound) => Err(Error::Parameter(ParameterError::Unauthorized)),
            Err(cause) => Err(Error::Repo(cause)),
        },
        None => Ok(()),
    }
}

/// The events that have at least one of the tags, where tags are given, and
/// that were created by the account with the e-mail address, where one is
/// given.
///
/// A request that shows an API token is refused as unauthorized where the
/// token belongs to no organization.
pub fn query_events<D: Db>(
    db: &D,
    tags: Option<Vec<String>>,
    created_by: &Option<String>,
    token: Option<String>,
) -> (res: Result<Vec<Event>, Error>)
    ensures
        match res {
            Ok(events) => token_refusal(db.store(), token.deep_view()) is None
                && events.deep_view() == queried(
                db.store(),
                tags.deep_view(),
                created_by.deep_view(),
            ),
            Err(failure) => token_refusal(db.store(), token.deep_view()) == Some(failure) || (
            !db.reliable() && storage_failed(failure, db.own_failure())),
        },
{
    match check_token(db, &token) {
        Ok(()) => {},
        Err(failure) => {
            return Err(failure);
        },
    }
    let mut events = match db.all_events() {
        Ok(events) => events,
        Err(cause) => {
            return Err(Error::Repo(cause));
        },
    };
    if let Some(tags) = &tags {
        events = events_with_tags(events, tags);
    }
    if let Some(email) = created_by {
        let users = match db.all_users() {
            Ok(users) => users,
            Err(cause) => {
                return Err(Error::Repo(cause));
            },
        };
        match username_by_email(&users, email) {
            Some(username) => {
                events = events_created_by(events, &username);
            },
            None => {
                events = vec![];
                assert(events.deep_view() =~= Seq::empty());
            },
        }
    }
    Ok(events)
}

/// The event with the identity `id` as it is handed out: in the place of
/// the creator's user name stands the e-mail address of the account.
pub open spec fn event_handed_out(store: Store, id: Seq<char>) -> Result<EventView, RepoError> {
    match store.get_event(id) {
        Err(failure) => Err(failure),
        Ok(event) => match event.created_by {
            None => Ok(event),
            Some(username) => match store.get_user(username) {
                Err(failure) => Err(failure),
                Ok(creator) => Ok(EventView { created_by: Some(creator.email), ..event }),
            },
        },
    }
}

/// The event with the identity `id`, with the e-mail address of its creator
/// in the place of the user name.
///
/// An event that is not stored is not found, and neither is one whose
/// creator has no account.
pub fn get_event<D: Db>(db: &mut D, id: &str) -> (res: Result<Event, Error>)
    ensures
        final(db).reliable() == old(db).reliable(),
        final(db).store() == old(db).store(),
        match res {
            Ok(event) => event_handed_out(old(db).store(), id@) == Ok::<EventView, RepoError>(
                event@,
            ),
            Err(failure) => (failure matches Error::Repo(cause) && event_handed_out(
                old(db).store(),
                id@,
            ) == Err::<EventView, RepoError>(cause)) || (!old(db).reliable() && storage_failed(
                failure,
                final(db).own_failure(),
            )),
        },
{
    let mut e = match db.get_event(id) {
        Ok(event) => event,
        Err(cause) => {
            return Err(Error::Repo(cause));
        },
    };
    let email = match &e.created_by {
        None => None,
        Some(username) => match db.get_user(username.as_str()) {
            Ok(creator) => Some(creator.email),
            Err(cause) => {
                return Err(Error::Repo(cause));
            },
        },
    };
    if email.is_some() {
        e.created_by = email;
    }
    Ok(e)
}

} // verus!
