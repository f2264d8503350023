//! The storage boundary: what the use cases ask of a storage.

use vstd::prelude::*;
use crate::entities::{BboxSubscription, Entry, Event, Organization, Tag, User};
use crate::error::RepoError;
use crate::relation::Triple;
use crate::store::{answers, performs, Store};

verus! {

/// An answer of the storage, with what was handed out replaced by what it
/// stands for.
pub open spec fn seen<T: DeepView>(answer: Result<T, RepoError>) -> Result<T::V, RepoError> {
    match answer {
        Ok(value) => Ok(value.deep_view()),
        Err(failure) => Err(failure),
    }
}

/// A storage.
///
/// Every storage stands for a [`Store`], and each operation does to it what
/// the operation of the same name does to the model. A storage that is not
/// reliable may, instead, fail on its own: it then reports its
/// [`own_failure`](Db::own_failure), which is [`RepoError::InvalidVersion`]
/// or [`RepoError::Other`], and stays as it was. It never reports
/// [`RepoError::NotFound`] or [`RepoError::AlreadyExists`] without cause.
///
/// The three functions `store`, `reliable` and `own_failure` exist for the
/// contracts only and are never called when the program runs.
pub trait Db {
    /// What the storage holds.
    spec fn store(&self) -> Store;

    /// Whether the storage never fails on its own.
    spec fn reliable(&self) -> bool;

    /// The failure that the storage reports where it fails on its own, as
    /// it stands. A request that fails leaves it as it is, so the failure of
    /// the last request can be read from the storage afterwards.
    spec fn own_failure(&self) -> RepoError;

    /// Stores a new entry.
    fn create_entry(&mut self, e: Entry) -> (res: Result<(), RepoError>)
        ensures
            final(self).reliable() == old(self).reliable(),
            res is Err ==> final(self).own_failure() == old(self).own_failure(),
            performs(
                old(self).reliable(),
                old(self).own_failure(),
                old(self).store().create_entry(e@),
                old(self).store(),
                final(self).store(),
                res,
            ),
    ;

    /// The entry with the identity `id`.
    fn get_entry(&self, id: &str) -> (res: Result<Entry, RepoError>)
        ensures
            answers(self.reliable(), self.own_failure(), self.store().get_entry(id@), seen(res)),
    ;

    /// All entries, in the order of the model.
    fn all_entries(&self) -> (res: Result<Vec<Entry>, RepoError>)
        ensures
            answers(self.reliable(), self.own_failure(), Ok(self.store().entries), seen(res)),
    ;

    /// Replaces the entry that has the identity of `e`.
    fn update_entry(&mut self, e: &Entry) -> (res: Result<(), RepoError>)
        ensures
            final(self).reliable() == old(self).reliable(),
            res is Err ==> final(self).own_failure() == old(self).own_failure(),
            performs(
                old(self).reliable(),
                old(self).own_failure(),
                old(self).store().update_entry(e@),
                old(self).store(),
                final(self).store(),
                res,
            ),
    ;

    /// The event with the identity `id`.
    fn get_event(&self, id: &str) -> (res: Result<Event, RepoError>)
        ensures
            answers(self.reliable(), self.own_failure(), self.store().get_event(id@), seen(res)),
    ;

    /// All events, in the order of the model.
    fn all_events(&self) -> (res: Result<Vec<Event>, RepoError>)
        ensures
            answers(self.reliable(), self.own_failure(), Ok(self.store().events), seen(res)),
    ;

    /// Replaces the event that has the identity of `e`.
    fn update_event(&mut self, e: &Event) -> (res: Result<(), RepoError>)
        ensures
            final(self).reliable() == old(self).reliable(),
            res is Err ==> final(self).own_failure() == old(self).own_failure(),
            performs(
                old(self).reliable(),
                old(self).own_failure(),
                old(self).store().update_event(e@),
                old(self).store(),
                final(self).store(),
                res,
            ),
    ;

    /// Stores a new account.
    fn create_user(&mut self, u: User) -> (res: Result<(), RepoError>)
        ensures
            final(self).reliable() == old(self).reliable(),
            res is Err ==> final(self).own_failure() == old(self).own_failure(),
            performs(
                old(self).reliable(),
                old(self).own_failure(),
                old(self).store().create_user(u@),
                old(self).store(),
                final(self).store(),
                res,
            ),
    ;

    /// The first account with the user name `username`.
    fn get_user(&self, username: &str) -> (res: Result<User, RepoError>)
        ensures
            answers(self.reliable(), self.own_failure(), self.store().get_user(username@), seen(res)),
    ;

    /// All accounts, in the order of the model.
    fn all_users(&self) -> (res: Result<Vec<User>, RepoError>)
        ensures
            answers(self.reliable(), self.own_failure(), Ok(self.store().users), seen(res)),
    ;

    /// Removes every account with the identity `u_id`.
    fn delete_user(&mut self, u_id: &str) -> (res: Result<(), RepoError>)
        ensures
            final(self).reliable() == old(self).reliable(),
            res is Err ==> final(self).own_failure() == old(self).own_failure(),
            performs(
                old(self).reliable(),
                old(self).own_failure(),
                Ok(old(self).store().delete_user(u_id@)),
                old(self).store(),
                final(self).store(),
                res,
            ),
    ;

    /// The first organization that holds the API token.
    fn get_org_by_api_token(&self, token: &str) -> (res: Result<Organization, RepoError>)
        ensures
            answers(self.reliable(), self.own_failure(), self.store().get_org_by_api_token(token@), seen(res)),
    ;

    /// All tags, in the order of the model.
    fn all_tags(&self) -> (res: Result<Vec<Tag>, RepoError>)
        ensures
            answers(self.reliable(), self.own_failure(), Ok(self.store().tags), seen(res)),
    ;

    /// Stores a new tag.
    fn create_tag(&mut self, t: &Tag) -> (res: Result<(), RepoError>)
        ensures
            final(self).reliable() == old(self).reliable(),
            res is Err ==> final(self).own_failure() == old(self).own_failure(),
            performs(
                old(self).reliable(),
                old(self).own_failure(),
                old(self).store().create_tag(t@),
                old(self).store(),
                final(self).store(),
                res,
            ),
    ;

    /// Stores a tag unless a tag of that name exists.
    fn create_tag_if_it_does_not_exist(&mut self, t: &Tag) -> (res: Result<(), RepoError>)
        ensures
            final(self).reliable() == old(self).reliable(),
            res is Err ==> final(self).own_failure() == old(self).own_failure(),
            performs(
                old(self).reliable(),
                old(self).own_failure(),
                Ok(old(self).store().create_tag_if_it_does_not_exist(t@)),
                old(self).store(),
                final(self).store(),
                res,
            ),
    ;

    /// All relations, in the order of the model.
    fn all_triples(&self) -> (res: Result<Vec<Triple>, RepoError>)
        ensures
            answers(self.reliable(), self.own_failure(), Ok(self.store().triples), seen(res)),
    ;

    /// Stores a relation unless it is stored already.
    fn create_triple(&mut self, t: &Triple) -> (res: Result<(), RepoError>)
        ensures
            final(self).reliable() == old(self).reliable(),
            res is Err ==> final(self).own_failure() == old(self).own_failure(),
            performs(
                old(self).reliable(),
                old(self).own_failure(),
                Ok(old(self).store().create_triple(t@)),
                old(self).store(),
                final(self).store(),
                res,
            ),
    ;

    /// Removes a relation wherever it is stored.
    fn delete_triple(&mut self, t: &Triple) -> (res: Result<(), RepoError>)
        ensures
            final(self).reliable() == old(self).reliable(),
            res is Err ==> final(self).own_failure() == old(self).own_failure(),
            performs(
                old(self).reliable(),
                old(self).own_failure(),
                Ok(old(self).store().delete_triple(t@)),
                old(self).store(),
                final(self).store(),
                res,
            ),
    ;

    /// All subscriptions, in the order of the model.
    fn all_bbox_subscriptions(&self) -> (res: Result<Vec<BboxSubscription>, RepoError>)
        ensures
            answers(self.reliable(), self.own_failure(), Ok(self.store().bbox_subscriptions), seen(res)),
    ;

    /// Stores a new subscription.
    fn create_bbox_subscription(&mut self, s: &BboxSubscription) -> (res: Result<(), RepoError>)
        ensures
            final(self).reliable() == old(self).reliable(),
            res is Err ==> final(self).own_failure() == old(self).own_failure(),
            performs(
                old(self).reliable(),
                old(self).own_failure(),
                old(self).store().create_bbox_subscription(s@),
                old(self).store(),
                final(self).store(),
                res,
            ),
    ;

    /// Removes every subscription with the identity `s_id`.
    fn delete_bbox_subscription(&mut self, s_id: &str) -> (res: Result<(), RepoError>)
        ensures
            final(self).reliable() == old(self).reliable(),
            res is Err ==> final(self).own_failure() == old(self).own_failure(),
            performs(
                old(self).reliable(),
                old(self).own_failure(),
                Ok(old(self).store().delete_bbox_subscription(s_id@)),
                old(self).store(),
                final(self).store(),
                res,
            ),
    ;
}

} // verus!
