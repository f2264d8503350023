//! Accounts: opening one, looking one up, closing one.

use vstd::prelude::*;
use crate::db::Db;
use crate::entities::{Role, User, UserView};
use crate::error::{Error, ParameterError, RepoError};
use crate::outside::{bcrypt_hash, is_bcrypt_hash};
use crate::store::{is_own_failure, occurs, storage_failed, Store};

verus! {

/// What is submitted to open an account.
#[derive(Debug)]
pub struct NewUser {
    pub username: String,
    /// The password as typed.
    pub password: String,
    pub email: String,
}

/// What a submission of a new account stands for.
pub struct NewUserView {
    pub username: Seq<char>,
    pub password: Seq<char>,
    pub email: Seq<char>,
}

impl DeepView for NewUser {
    type V = NewUserView;

    open spec fn deep_view(&self) -> NewUserView {
        NewUserView {
            username: self.username@,
            password: self.password@,
            email: self.email@,
        }
    }
}

impl View for NewUser {
    type V = NewUserView;

    open spec fn view(&self) -> NewUserView {
        self.deep_view()
    }
}

impl Clone for NewUser {
    fn clone(&self) -> (copy: Self)
        ensures
            copy@ == self@,
    {
        NewUser {
            username: self.username.clone(),
            password: self.password.clone(),
            email: self.email.clone(),
        }
    }
}

/// The account that a submission opens, with `hash` as the hashed password:
/// a guest whose identity is the user name and whose e-mail address is not
/// confirmed.
pub open spec fn new_user(u: NewUserView, hash: Seq<char>) -> UserView {
    UserView {
        id: u.username,
        username: u.username,
        password: hash,
        email: u.email,
        email_confirmed: false,
        role: Role::Guest,
    }
}

/// How a request may end of which the model says `expected`: as the model
/// says, or, where the storage is not reliable, with the failure `own` that
/// the storage reported, and nothing changed.
pub open spec fn carried_out(
    reliable: bool,
    expected: Result<Store, RepoError>,
    before: Store,
    after: Store,
    own: RepoError,
    res: Result<(), Error>,
) -> bool {
    match res {
        Ok(()) => expected == Ok::<Store, RepoError>(after),
        Err(Error::Repo(cause)) => after == before && (expected == Err::<Store, RepoError>(cause)
            || (!reliable && is_own_failure(own) && cause == own)),
        Err(_) => false,
    }
}

/// Opens an account with a password that has been hashed already.
///
/// The submission is not checked here: whoever calls has made sure that
/// user name, password and e-mail address are fit to be stored.
pub fn create_new_user_hashed<D: Db>(db: &mut D, u: NewUser, hash: String) -> (res: Result<
    (),
    Error,
>)
    ensures
        final(db).reliable() == old(db).reliable(),
        carried_out(
            old(db).reliable(),
            old(db).store().create_user(new_user(u@, hash@)),
            old(db).store(),
            final(db).store(),
            final(db).own_failure(),
            res,
        ),
{
    let user = User {
        id: u.username.clone(),
        username: u.username,
        password: hash,
        email: u.email,
        email_confirmed: false,
        role: Role::Guest,
    };
    match db.create_user(user) {
        Ok(()) => Ok(()),
        Err(cause) => Err(Error::Repo(cause)),
    }
}

/// What is stored for a password is its hash, not the password: the two
/// differ unless the password itself looks like a hash.
pub proof fn lemma_password_is_not_stored(u: NewUserView, hash: Seq<char>)
    requires
        is_bcrypt_hash(hash),
        !is_bcrypt_hash(u.password),
    ensures
        new_user(u, hash).password != u.password,
{
}

/// A submission is stored as it is: with a reliable storage, opening an
/// account succeeds whenever the user name is free, whatever user name,
/// password and e-mail address are submitted.
pub proof fn lemma_submission_is_not_checked(
    before: Store,
    u: NewUserView,
    hash: Seq<char>,
    after: Store,
    own: RepoError,
    res: Result<(), Error>,
)
    requires
        carried_out(true, before.create_user(new_user(u, hash)), before, after, own, res),
    ensures
        res is Ok <==> !occurs::<User>(before.users, u.username),
        res is Ok ==> after.users == before.users.push(new_user(u, hash)),
{
}

/// Opens an account.
///
/// The password is hashed with bcrypt and a random salt, and the account is
/// stored with the hash. Where the password cannot be hashed, the request
/// fails with [`Error::Pwhash`] and nothing is stored; where the user name is
/// taken, it fails with [`RepoError::AlreadyExists`].
///
/// The submission is not checked here: whoever calls has made sure that
/// user name, password and e-mail address are fit to be stored.
pub fn create_new_user<D: Db>(db: &mut D, u: NewUser) -> (res: Result<(), Error>)
    ensures
        final(db).reliable() == old(db).reliable(),
        res == Err::<(), Error>(Error::Pwhash) && final(db).store() == old(db).store()
            || exists|hash: Seq<char>|
            is_bcrypt_hash(hash) && carried_out(
                old(db).reliable(),
                #[trigger] old(db).store().create_user(new_user(u@, hash)),
                old(db).store(),
                final(db).store(),
                final(db).own_failure(),
                res,
            ),
{
    match bcrypt_hash(u.password.as_str()) {
        Some(hash) => {
            let ghost chosen = hash@;
            let res = create_new_user_hashed(db, u, hash);
            assert(carried_out(
                old(db).reliable(),
                old(db).store().create_user(new_user(u@, chosen)),
                old(db).store(),
                db.store(),
                db.own_failure(),
                res,
            ));
            res
        },
        None => Err(Error::Pwhash),
    }
}

/// What an account may learn about an account: everything about itself,
/// nothing about another.
pub open spec fn user_for(store: Store, logged_in: Seq<char>, requested: Seq<char>) -> Result<
    (Seq<char>, Seq<char>),
    Error,
> {
    match store.get_user(requested) {
        Err(failure) => Err(Error::Repo(failure)),
        Ok(user) => if logged_in == requested {
            Ok((user.username, user.email))
        } else {
            Err(Error::Parameter(ParameterError::Forbidden))
        },
    }
}

/// User name and e-mail address of the account `requested_username`, for the
/// account `logged_in_username`.
///
/// An account that does not exist is not found; one that exists is shown to
/// itself only.
pub fn get_user<D: Db>(db: &mut D, logged_in_username: &str, requested_username: &str) -> (res:
    Result<(String, String), Error>)
    ensures
        final(db).reliable() == old(db).reliable(),
        final(db).store() == old(db).store(),
        ({
            let expected = user_for(old(db).store(), logged_in_username@, requested_username@);
            match res {
                Ok(found) => expected == Ok::<(Seq<char>, Seq<char>), Error>((found.0@, found.1@)),
                Err(failure) => expected == Err::<(Seq<char>, Seq<char>), Error>(failure) || (
                !old(db).reliable() && storage_failed(failure, final(db).own_failure())),
            }
        }),
{
    let user = match db.get_user(requested_username) {
        Ok(user) => user,
        Err(cause) => {
            return Err(Error::Repo(cause));
        },
    };
    if logged_in_username.to_owned() != requested_username.to_owned() {
        return Err(Error::Parameter(ParameterError::Forbidden));
    }
    Ok((user.username, user.email))
}

/// Closes the account with the identity `u_id`, for the account with the
/// identity `login_id`: an account can be closed by itself only.
pub fn delete_user<D: Db>(db: &mut D, login_id: &str, u_id: &str) -> (res: Result<(), Error>)
    ensures
        final(db).reliable() == old(db).reliable(),
        match res {
            Ok(()) => login_id@ == u_id@ && final(db).store() == old(db).store().delete_user(
                u_id@,
            ),
            Err(failure) => final(db).store() == old(db).store() && if login_id@ == u_id@ {
                !old(db).reliable() && storage_failed(failure, final(db).own_failure())
            } else {
                failure == Error::Parameter(ParameterError::Forbidden)
            },
        },
{
    if login_id.to_owned() != u_id.to_owned() {
        return Err(Error::Parameter(ParameterError::Forbidden));
    }
    match db.delete_user(login_id) {
        Ok(()) => Ok(()),
        Err(cause) => Err(Error::Repo(cause)),
    }
}

} // verus!
