//! Subscriptions of accounts to what happens inside a bounding box.

use vstd::prelude::*;
use crate::db::Db;
use crate::entities::{Bbox, BboxSubscription, BboxSubscriptionView, Coordinate, User, UserView};
use crate::error::{Error, ParameterError, RepoError};
use crate::outside::{random_id, RANDOM_ID_LENGTH};
use crate::sequences::{
    lemma_filter_all, lemma_filter_empty, lemma_filter_next, lemma_filter_twice, without_repeats,
};
use crate::store::{is_own_failure, storage_failed, subscription_other_than, Store};

verus! {

/// 90 degrees, in units of 1e-7 degrees: the latitude of the north pole.
pub const MAX_LAT: i64 = 900_000_000;

/// 180 degrees, in units of 1e-7 degrees: the longitude of the date line.
pub const MAX_LNG: i64 = 1_800_000_000;

/// Whether the point is on the globe.
pub open spec fn valid_coordinate(point: Coordinate) -> bool {
    -MAX_LAT <= point.lat <= MAX_LAT && -MAX_LNG <= point.lng <= MAX_LNG
}

/// Whether both corners of the box are on the globe.
pub open spec fn valid_bbox(bbox: Bbox) -> bool {
    valid_coordinate(bbox.north_east) && valid_coordinate(bbox.south_west)
}

/// Checks that both corners of the box are on the globe.
pub fn validate_bbox(bbox: &Bbox) -> (res: Result<(), ParameterError>)
    ensures
        res is Ok <==> valid_bbox(*bbox),
        res is Err ==> res == Err::<(), ParameterError>(ParameterError::Bbox),
{
    if bbox.north_east.lat < -MAX_LAT || bbox.north_east.lat > MAX_LAT || bbox.south_west.lat
        < -MAX_LAT || bbox.south_west.lat > MAX_LAT {
        return Err(ParameterError::Bbox);
    }
    if bbox.north_east.lng < -MAX_LNG || bbox.north_east.lng > MAX_LNG || bbox.south_west.lng
        < -MAX_LNG || bbox.south_west.lng > MAX_LNG {
        return Err(ParameterError::Bbox);
    }
    Ok(())
}

/// The box that a list of corners describes: there must be two, the
/// south-western first, and both on the globe.
pub open spec fn bbox_of(coordinates: Seq<Coordinate>) -> Option<Bbox> {
    if coordinates.len() == 2 && valid_bbox(
        Bbox { south_west: coordinates[0], north_east: coordinates[1] },
    ) {
        Some(Bbox { south_west: coordinates[0], north_east: coordinates[1] })
    } else {
        None
    }
}

/// The test for belonging to the account with the user name.
pub open spec fn of_user(username: Seq<char>) -> spec_fn(BboxSubscriptionView) -> bool {
    |subscription: BboxSubscriptionView| subscription.username == username
}

/// The test for having none of the identities.
pub open spec fn id_not_among(ids: Seq<Seq<char>>) -> spec_fn(BboxSubscriptionView) -> bool {
    |subscription: BboxSubscriptionView| !ids.contains(subscription.id)
}

/// The test for a box that holds the point.
pub open spec fn covers(lat: i64, lng: i64) -> spec_fn(BboxSubscriptionView) -> bool {
    |subscription: BboxSubscriptionView| subscription.bbox.contains(lat, lng)
}

/// The identities of the subscriptions, in their order.
pub open spec fn ids_of(subscriptions: Seq<BboxSubscriptionView>) -> Seq<Seq<char>> {
    Seq::new(subscriptions.len(), |i: int| subscriptions[i].id)
}

/// The user names of the subscriptions, in their order.
pub open spec fn usernames_of(subscriptions: Seq<BboxSubscriptionView>) -> Seq<Seq<char>> {
    Seq::new(subscriptions.len(), |i: int| subscriptions[i].username)
}

/// The identities of the subscriptions of the account.
pub open spec fn subscription_ids(store: Store, username: Seq<char>) -> Seq<Seq<char>> {
    ids_of(store.bbox_subscriptions.filter(of_user(username)))
}

/// The storage without the subscriptions that have one of the identities.
pub open spec fn without_subscriptions(store: Store, ids: Seq<Seq<char>>) -> Store {
    store.with_bbox_subscriptions(store.bbox_subscriptions.filter(id_not_among(ids)))
}

/// The storage without the subscriptions of the account.
pub open spec fn unsubscribed(store: Store, username: Seq<char>) -> Store {
    without_subscriptions(store, subscription_ids(store, username))
}

/// The subscriptions, among `all`, that pass the test.
fn subscriptions_where(
    all: &Vec<BboxSubscription>,
    username: Option<&String>,
    point: Option<Coordinate>,
    Ghost(test): Ghost<spec_fn(BboxSubscriptionView) -> bool>,
) -> (kept: Vec<BboxSubscription>)
    requires
        forall|subscription: BboxSubscriptionView| #[trigger]
            test(subscription) == ((username matches Some(name) ==> subscription.username == name@)
                && (point matches Some(at) ==> subscription.bbox.contains(at.lat, at.lng))),
    ensures
        kept.deep_view() == all.deep_view().filter(test),
{
    let ghost subscriptions = all.deep_view();
    let mut kept: Vec<BboxSubscription> = Vec::new();
    let mut i: usize = 0;
    proof {
        lemma_filter_empty(test);
        assert(subscriptions.take(0) =~= Seq::empty());
        assert(kept.deep_view() =~= Seq::empty());
    }
    while i < all.len()
        invariant
            i <= all.len(),
            subscriptions == all.deep_view(),
            forall|subscription: BboxSubscriptionView| #[trigger]
                test(subscription) == ((username matches Some(name) ==> subscription.username
                    == name@) && (point matches Some(at) ==> subscription.bbox.contains(
                    at.lat,
                    at.lng,
                ))),
            kept.deep_view() == subscriptions.take(i as int).filter(test),
        decreases all.len() - i,
    {
        let ghost before = kept.deep_view();
        proof {
            lemma_filter_next(subscriptions, test, i as int);
        }
        let named = match username {
            Some(name) => all[i].username == *name,
            None => true,
        };
        let inside = match point {
            Some(at) => all[i].bbox.is_in_bbox(at.lat, at.lng),
            None => true,
        };
        if named && inside {
            kept.push(all[i].clone());
            assert(kept.deep_view() =~= before.push(subscriptions[i as int]));
        }
        i += 1;
    }
    assert(subscriptions.take(subscriptions.len() as int) =~= subscriptions);
    kept
}

/// The subscriptions of the account, in the order in which they are stored.
pub fn get_bbox_subscriptions<D: Db>(username: &str, db: &D) -> (res: Result<
    Vec<BboxSubscription>,
    Error,
>)
    ensures
        match res {
            Ok(subscriptions) => subscriptions.deep_view() == db.store().bbox_subscriptions.filter(
                of_user(username@),
            ),
            Err(failure) => !db.reliable() && storage_failed(failure, db.own_failure()),
        },
{
    let all = match db.all_bbox_subscriptions() {
        Ok(all) => all,
        Err(cause) => {
            return Err(Error::Repo(cause));
        },
    };
    let name = username.to_owned();
    Ok(subscriptions_where(&all, Some(&name), None, Ghost(of_user(username@))))
}

/// The subscriptions whose box holds the point, in the order in which they
/// are stored.
pub fn bbox_subscriptions_by_coordinate<D: Db>(db: &D, x: &Coordinate) -> (res: Result<
    Vec<BboxSubscription>,
    Error,
>)
    ensures
        match res {
            Ok(subscriptions) => subscriptions.deep_view() == db.store().bbox_subscriptions.filter(
                covers(x.lat, x.lng),
            ),
            Err(failure) => !db.reliable() && storage_failed(failure, db.own_failure()),
        },
{
    let all = match db.all_bbox_subscriptions() {
        Ok(all) => all,
        Err(cause) => {
            return Err(Error::Repo(cause));
        },
    };
    Ok(subscriptions_where(&all, None, Some(*x), Ghost(covers(x.lat, x.lng))))
}

/// Deleting the subscriptions with one more identity: what is left has none
/// of the identities so far nor that one.
proof fn lemma_unsubscribe_next(
    subscriptions: Seq<BboxSubscriptionView>,
    ids: Seq<Seq<char>>,
    at: int,
)
    requires
        0 <= at < ids.len(),
    ensures
        subscriptions.filter(id_not_among(ids.take(at))).filter(subscription_other_than(ids[at]))
            == subscriptions.filter(id_not_among(ids.take(at + 1))),
{
    let gone = ids[at];
    assert(ids.take(at + 1) =~= ids.take(at).push(gone));
    assert forall|item: BboxSubscriptionView| #[trigger]
        id_not_among(ids.take(at + 1))(item) == (id_not_among(ids.take(at))(item)
            && subscription_other_than(gone)(item)) by {
        if ids.take(at).contains(item.id) {
            let k = choose|k: int| 0 <= k < ids.take(at).len() && ids.take(at)[k] == item.id;
            assert(ids.take(at + 1)[k] == item.id);
        }
        if item.id == gone {
            assert(ids.take(at + 1)[at] == item.id);
        }
    }
    lemma_filter_twice(
        subscriptions,
        id_not_among(ids.take(at)),
        subscription_other_than(gone),
        id_not_among(ids.take(at + 1)),
    );
}

/// Deletes every subscription of the account.
///
/// A failure of the storage ends the work where it stands: the
/// subscriptions deleted before stay deleted.
pub fn unsubscribe_all_bboxes_by_username<D: Db>(db: &mut D, username: &str) -> (res: Result<
    (),
    Error,
>)
    ensures
        final(db).reliable() == old(db).reliable(),
        match res {
            Ok(()) => final(db).store() == unsubscribed(old(db).store(), username@),
            Err(failure) => {
                &&& !old(db).reliable()
                &&& storage_failed(failure, final(db).own_failure())
                &&& exists|done: int|
                    0 <= done <= subscription_ids(old(db).store(), username@).len()
                        && final(db).store() == without_subscriptions(
                        old(db).store(),
                        #[trigger] subscription_ids(old(db).store(), username@).take(done),
                    )
            },
        },
{
    let ghost before = db.store();
    let ghost ids = subscription_ids(before, username@);
    proof {
        assert(ids.take(0) =~= Seq::empty());
        lemma_filter_all(before.bbox_subscriptions, id_not_among(ids.take(0)));
        assert(before.with_bbox_subscriptions(before.bbox_subscriptions) == before);
    }
    let user_subscriptions = match get_bbox_subscriptions(username, db) {
        Ok(subscriptions) => subscriptions,
        Err(failure) => {
            return Err(failure);
        },
    };
    let mut i: usize = 0;
    while i < user_subscriptions.len()
        invariant
            i <= user_subscriptions.len(),
            before == old(db).store(),
            db.reliable() == old(db).reliable(),
            ids == subscription_ids(before, username@),
            ids == ids_of(user_subscriptions.deep_view()),
            db.store() == without_subscriptions(before, ids.take(i as int)),
        decreases user_subscriptions.len() - i,
    {
        proof {
            lemma_unsubscribe_next(before.bbox_subscriptions, ids, i as int);
        }
        match db.delete_bbox_subscription(user_subscriptions[i].id.as_str()) {
            Ok(()) => {},
            Err(cause) => {
                return Err(Error::Repo(cause));
            },
        }
        i += 1;
    }
    proof {
        assert(ids.take(ids.len() as int) =~= ids);
    }
    Ok(())
}

/// How subscribing an account to a box, under the identity `id`, may end.
///
/// A list of corners that describes no box is refused, and nothing changes.
/// Else the subscriptions of the account are deleted and the new one is
/// stored; where its identity is taken, it fails with
/// [`RepoError::AlreadyExists`], and the old subscriptions are gone all the
/// same.
pub open spec fn subscription_outcome(
    before: Store,
    reliable: bool,
    coordinates: Seq<Coordinate>,
    username: Seq<char>,
    id: Seq<char>,
    after: Store,
    own: RepoError,
    res: Result<(), Error>,
) -> bool {
    match bbox_of(coordinates) {
        None => res == Err::<(), Error>(Error::Parameter(ParameterError::Bbox)) && after == before,
        Some(bbox) => {
            let cleared = unsubscribed(before, username);
            let subscription = BboxSubscriptionView { id, bbox, username };
            match res {
                Ok(()) => cleared.create_bbox_subscription(subscription) == Ok::<Store, RepoError>(
                    after,
                ),
                Err(Error::Repo(cause)) => {
                    ||| cleared.create_bbox_subscription(subscription) == Err::<Store, RepoError>(
                        cause,
                    ) && after == cleared
                    ||| {
                        &&& !reliable
                        &&& is_own_failure(own)
                        &&& cause == own
                        &&& exists|done: int|
                            0 <= done <= subscription_ids(before, username).len() && after
                                == without_subscriptions(
                                before,
                                #[trigger] subscription_ids(before, username).take(done),
                            )
                    }
                },
                Err(_) => false,
            }
        },
    }
}

/// Subscribes the account to the box, under the identity `id`.
pub fn subscribe_to_bbox_as<D: Db>(
    coordinates: &[Coordinate],
    username: &str,
    db: &mut D,
    id: String,
) -> (res: Result<(), Error>)
    ensures
        final(db).reliable() == old(db).reliable(),
        subscription_outcome(
            old(db).store(),
            old(db).reliable(),
            coordinates@,
            username@,
            id@,
            final(db).store(),
            final(db).own_failure(),
            res,
        ),
{
    if coordinates.len() != 2 {
        return Err(Error::Parameter(ParameterError::Bbox));
    }
    let bbox = Bbox { south_west: coordinates[0], north_east: coordinates[1] };
    match validate_bbox(&bbox) {
        Ok(()) => {},
        Err(failure) => {
            return Err(Error::Parameter(failure));
        },
    }
    match unsubscribe_all_bboxes_by_username(db, username) {
        Ok(()) => {},
        Err(failure) => {
            return Err(failure);
        },
    }
    let subscription = BboxSubscription { id, bbox, username: username.to_owned() };
    match db.create_bbox_subscription(&subscription) {
        Ok(()) => Ok(()),
        Err(cause) => {
            proof {
                let ids = subscription_ids(old(db).store(), username@);
                assert(ids.take(ids.len() as int) =~= ids);
            }
            Err(Error::Repo(cause))
        },
    }
}

/// Subscribes the account to the box between the two corners, the
/// south-western first.
///
/// The subscription replaces those that the account has. It gets a fresh
/// random identity.
pub fn subscribe_to_bbox<D: Db>(coordinates: &[Coordinate], username: &str, db: &mut D) -> (res:
    Result<(), Error>)
    ensures
        final(db).reliable() == old(db).reliable(),
        exists|id: Seq<char>|
            id.len() == RANDOM_ID_LENGTH && subscription_outcome(
                old(db).store(),
                old(db).reliable(),
                coordinates@,
                username@,
                id,
                final(db).store(),
                final(db).own_failure(),
                res,
            ),
{
    let id = random_id();
    let ghost chosen = id@;
    let res = subscribe_to_bbox_as(coordinates, username, db, id);
    assert(subscription_outcome(
        old(db).store(),
        old(db).reliable(),
        coordinates@,
        username@,
        chosen,
        db.store(),
        db.own_failure(),
        res,
    ));
    res
}

/// The test for having one of the user names.
pub open spec fn username_among(usernames: Seq<Seq<char>>) -> spec_fn(UserView) -> bool {
    |user: UserView| usernames.contains(user.username)
}

/// The e-mail addresses of the accounts, in their order.
pub open spec fn emails_of(users: Seq<UserView>) -> Seq<Seq<char>> {
    Seq::new(users.len(), |i: int| users[i].email)
}

/// The e-mail addresses of the accounts that hold the subscriptions, in the
/// order of the accounts; an address that several accounts in a row have is
/// listed once.
pub open spec fn subscriber_emails(
    store: Store,
    subscriptions: Seq<BboxSubscriptionView>,
) -> Seq<Seq<char>> {
    without_repeats(emails_of(store.users.filter(username_among(usernames_of(subscriptions)))))
}

/// Whether one of the subscriptions belongs to the account.
fn is_subscriber(subs: &[BboxSubscription], user: &User) -> (found: bool)
    ensures
        found == username_among(usernames_of(subs.deep_view()))(user@),
{
    let ghost usernames = usernames_of(subs.deep_view());
    let mut i: usize = 0;
    while i < subs.len()
        invariant
            i <= subs.len(),
            usernames == usernames_of(subs.deep_view()),
            forall|j: int| 0 <= j < i ==> usernames[j] != user@.username,
        decreases subs.len() - i,
    {
        if subs[i].username == user.username {
            assert(usernames[i as int] == user@.username);
            return true;
        }
        i += 1;
    }
    false
}

/// The e-mail addresses of the accounts that hold the subscriptions.
pub fn email_addresses_from_subscriptions<D: Db>(db: &D, subs: &[BboxSubscription]) -> (res:
    Result<Vec<String>, Error>)
    ensures
        match res {
            Ok(addresses) => addresses.deep_view() == subscriber_emails(
                db.store(),
                subs.deep_view(),
            ),
            Err(failure) => !db.reliable() && storage_failed(failure, db.own_failure()),
        },
{
    let users = match db.all_users() {
        Ok(users) => users,
        Err(cause) => {
            return Err(Error::Repo(cause));
        },
    };
    let ghost all = users.deep_view();
    let ghost test = username_among(usernames_of(subs.deep_view()));
    let mut addresses: Vec<String> = Vec::new();
    let mut i: usize = 0;
    proof {
        lemma_filter_empty(test);
        assert(all.take(0) =~= Seq::empty());
        assert(emails_of(Seq::<UserView>::empty()) =~= Seq::empty());
        assert(addresses.deep_view() =~= Seq::empty());
    }
    while i < users.len()
        invariant
            i <= users.len(),
            all == users.deep_view(),
            test == username_among(usernames_of(subs.deep_view())),
            addresses.deep_view() == without_repeats(emails_of(all.take(i as int).filter(test))),
            addresses.len() == 0 <==> all.take(i as int).filter(test).len() == 0,
            addresses.len() > 0 ==> addresses.deep_view().last() == emails_of(
                all.take(i as int).filter(test),
            ).last(),
        decreases users.len() - i,
    {
        let ghost seen = all.take(i as int).filter(test);
        let ghost before = addresses.deep_view();
        proof {
            lemma_filter_next(all, test, i as int);
            assert(emails_of(seen.push(all[i as int])) =~= emails_of(seen).push(all[i as int].email));
            assert(emails_of(seen.push(all[i as int])).drop_last() =~= emails_of(seen));
        }
        if is_subscriber(subs, &users[i]) {
            let repeated = addresses.len() > 0 && addresses[addresses.len() - 1] == users[i].email;
            if !repeated {
                addresses.push(users[i].email.clone());
                assert(addresses.deep_view() =~= before.push(all[i as int].email));
            }
        }
        i += 1;
    }
    assert(all.take(users.len() as int) =~= all);
    Ok(addresses)
}

/// The e-mail addresses of the accounts that have subscribed to a box that
/// holds the point.
pub fn email_addresses_by_coordinate<D: Db>(db: &mut D, lat: &i64, lng: &i64) -> (res: Result<
    Vec<String>,
    Error,
>)
    ensures
        final(db).reliable() == old(db).reliable(),
        final(db).store() == old(db).store(),
        match res {
            Ok(addresses) => addresses.deep_view() == subscriber_emails(
                old(db).store(),
                old(db).store().bbox_subscriptions.filter(covers(*lat, *lng)),
            ),
            Err(failure) => !old(db).reliable() && storage_failed(failure, final(db).own_failure()),
        },
{
    let subs = match bbox_subscriptions_by_coordinate(db, &Coordinate { lat: *lat, lng: *lng }) {
        Ok(subs) => subs,
        Err(failure) => {
            return Err(failure);
        },
    };
    email_addresses_from_subscriptions(db, subs.as_slice())
}

} // verus!
