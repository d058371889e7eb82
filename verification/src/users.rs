//! The user service: registration with unique, normalized emails, sparse
//! profile updates, and lookup/removal by id.
//!
//! Password hashing happens outside; callers hand in the finished hash.

use vstd::prelude::*;

use crate::norm::{lower_of, lower_string, trim_of, trim_string};
use crate::store::{fresh_id, Store, User};

verus! {

/// Request to register a user.
#[derive(Debug)]
pub struct CreateUserRequestModel {
    pub email: String,
    pub password: String,
    pub name: String,
    pub two_factor_auth: bool,
}

/// Sparse update of a user: absent fields are left untouched.
#[derive(Debug)]
pub struct UpdateUserRequestModel {
    pub email: Option<String>,
    pub password: Option<String>,
    pub name: Option<String>,
    pub two_factor_enabled: Option<bool>,
}

/// A user as returned to callers.
#[derive(Debug)]
pub struct UserResponseModel {
    pub id: u128,
    pub email: String,
    pub email_verified: bool,
    pub name: String,
    pub two_factor_enabled: bool,
}

/// Failure of a user operation.
#[derive(Debug)]
pub enum Error {
    /// Another user already registered this (normalized) email.
    EmailInUse(String),
    /// No user with this id exists.
    UserNotFound(u128),
    /// A freshly generated identifier collided with an existing row; the
    /// operation was rolled back.
    IdInUse(u128),
}

/// Some user stores exactly this email string.
pub open spec fn email_taken(users: Seq<User>, email: Seq<char>) -> bool {
    exists|i: int| 0 <= i < users.len() && (#[trigger] users[i].email)@ == email
}

/// Some user carries this id.
pub open spec fn user_id_taken(users: Seq<User>, id: u128) -> bool {
    exists|i: int| 0 <= i < users.len() && (#[trigger] users[i]).id == id
}

impl Store {
    /// True when some user stores exactly this email string.
    fn is_email_taken(&self, email: &String) -> (r: bool)
        ensures
            r == email_taken(self.users@, email@),
    {
        let n = self.users.len();
        let mut i: usize = 0;
        while i < n
            invariant
                n == self.users@.len(),
                0 <= i <= n,
                forall|j: int| 0 <= j < i ==> (#[trigger] self.users@[j].email)@ != email@,
            decreases n - i,
        {
            if self.users[i].email == *email {
                return true;
            }
            i += 1;
        }
        false
    }

    /// Index of the user with this id, if any.
    pub(crate) fn find_user_index(&self, user_id: u128) -> (r: Option<usize>)
        ensures
            r matches Some(i) ==> (0 <= i < self.users@.len() && self.users@[i as int].id
                == user_id),
            r is None ==> !user_id_taken(self.users@, user_id),
    {
        let n = self.users.len();
        let mut i: usize = 0;
        while i < n
            invariant
                n == self.users@.len(),
                0 <= i <= n,
                forall|j: int| 0 <= j < i ==> (#[trigger] self.users@[j]).id != user_id,
            decreases n - i,
        {
            if self.users[i].id == user_id {
                return Some(i);
            }
            i += 1;
        }
        None
    }

    /// Registers a user under the given identifier: normalizes the email
    /// (trimmed, lower-cased), rejects one already registered, and stores
    /// the profile with the caller-supplied password hash. A new user
    /// starts unverified and without two-factor authentication.
    /// [`Store::create_user`] generates the identifier; this function pins
    /// the outcome for any value of it.
    pub fn create_user_with_id(
        &mut self,
        req: CreateUserRequestModel,
        password_hash: String,
        new_id: u128,
    ) -> (r: Result<UserResponseModel, Error>)
        requires
            old(self).wf(),
        ensures
            (r matches Err(Error::IdInUse(id)) && id == new_id) <==> (!email_taken(
                old(self).users@,
                lower_of(trim_of(req.email@)),
            ) && user_id_taken(old(self).users@, new_id)),
            (r is Ok) <==> (!email_taken(old(self).users@, lower_of(trim_of(req.email@)))
                && !user_id_taken(old(self).users@, new_id)),
            r matches Ok(m) ==> m.id == new_id,
            final(self).wf(),
            final(self).accounts@ == old(self).accounts@,
            final(self).account_users@ == old(self).account_users@,
            final(self).categories@ == old(self).categories@,
            final(self).transactions@ == old(self).transactions@,
            final(self).validations@ == old(self).validations@,
            final(self).next_tx_id == old(self).next_tx_id,
            r is Err ==> final(self).users@ == old(self).users@,
            (r matches Err(Error::EmailInUse(e)) && e@ == lower_of(trim_of(req.email@))) <==> (
            email_taken(old(self).users@, lower_of(trim_of(req.email@)))),
            (r matches Err(Error::IdInUse(id)) ==> user_id_taken(old(self).users@, id)),
            !email_taken(old(self).users@, lower_of(trim_of(req.email@))) ==> (r is Ok
                || r matches Err(Error::IdInUse(_))),
            r matches Ok(m) ==> ({
                let u = final(self).users@.last();
                &&& final(self).users@.len() == old(self).users@.len() + 1
                &&& forall|i: int|
                    0 <= i < old(self).users@.len() ==> final(self).users@[i] == old(
                        self,
                    ).users@[i]
                &&& !user_id_taken(old(self).users@, u.id)
                &&& u.id == m.id
                &&& u.email@ == lower_of(trim_of(req.email@))
                &&& m.email@ == u.email@
                &&& u.email_verified == false
                &&& m.email_verified == false
                &&& u.password_hash == password_hash
                &&& u.name == req.name
                &&& m.name@ == u.name@
                &&& u.two_factor_enabled == false
                &&& m.two_factor_enabled == false
            }),
    {
        let trimmed = trim_string(&req.email);
        let fmt_email = lower_string(&trimmed);
        if self.is_email_taken(&fmt_email) {
            return Err(Error::EmailInUse(fmt_email));
        }
        if let Some(_) = self.find_user_index(new_id) {
            return Err(Error::IdInUse(new_id));
        }
        let user = User {
            id: new_id,
            email: fmt_email,
            email_verified: false,
            password_hash,
            name: req.name,
            two_factor_enabled: false,
        };
        let result = UserResponseModel {
            id: new_id,
            email: user.email.clone(),
            email_verified: false,
            name: user.name.clone(),
            two_factor_enabled: false,
        };
        self.users.push(user);
        proof {
            assert forall|x: int, y: int|
                0 <= x < y < self.users@.len() implies self.users@[x].id != self.users@[y].id by {
                if y == self.users@.len() - 1 {
                    assert(!user_id_taken(old(self).users@, self.users@[y].id));
                }
            }
        }
        Ok(result)
    }

    /// Registers a user with a fresh identifier; see
    /// [`Store::create_user_with_id`], which states the outcome for the
    /// identifier the generator happened to return.
    pub fn create_user(&mut self, req: CreateUserRequestModel, password_hash: String) -> (r:
        Result<UserResponseModel, Error>)
        requires
            old(self).wf(),
        ensures
            final(self).wf(),
            final(self).accounts@ == old(self).accounts@,
            final(self).account_users@ == old(self).account_users@,
            final(self).categories@ == old(self).categories@,
            final(self).transactions@ == old(self).transactions@,
            final(self).validations@ == old(self).validations@,
            final(self).next_tx_id == old(self).next_tx_id,
            r is Err ==> final(self).users@ == old(self).users@,
            (r matches Err(Error::EmailInUse(e)) && e@ == lower_of(trim_of(req.email@))) <==> (
            email_taken(old(self).users@, lower_of(trim_of(req.email@)))),
            (r matches Err(Error::IdInUse(id)) ==> user_id_taken(old(self).users@, id)),
            !email_taken(old(self).users@, lower_of(trim_of(req.email@))) ==> (r is Ok
                || r matches Err(Error::IdInUse(_))),
            r matches Ok(m) ==> ({
                let u = final(self).users@.last();
                &&& final(self).users@.len() == old(self).users@.len() + 1
                &&& forall|i: int|
                    0 <= i < old(self).users@.len() ==> final(self).users@[i] == old(
                        self,
                    ).users@[i]
                &&& !user_id_taken(old(self).users@, u.id)
                &&& u.id == m.id
                &&& u.email@ == lower_of(trim_of(req.email@))
                &&& m.email@ == u.email@
                &&& u.email_verified == false
                &&& m.email_verified == false
                &&& u.password_hash == password_hash
                &&& u.name == req.name
                &&& m.name@ == u.name@
                &&& u.two_factor_enabled == false
                &&& m.two_factor_enabled == false
            }),
    {
        let new_id = fresh_id();
        self.create_user_with_id(req, password_hash, new_id)
    }

    /// Looks a user up by id.
    pub fn get_user(&self, user_id: u128) -> (r: Result<UserResponseModel, Error>)
        ensures
            (r is Ok) == user_id_taken(self.users@, user_id),
            (r matches Err(Error::UserNotFound(u)) && u == user_id) <==> !user_id_taken(
                self.users@,
                user_id,
            ),
            r matches Ok(m) ==> exists|i: int|
                0 <= i < self.users@.len() && ({
                    let u = #[trigger] self.users@[i];
                    &&& u.id == user_id
                    &&& m.id == user_id
                    &&& m.email@ == u.email@
                    &&& m.email_verified == u.email_verified
                    &&& m.name@ == u.name@
                    &&& m.two_factor_enabled == u.two_factor_enabled
                }),
    {
        match self.find_user_index(user_id) {
            Some(i) => {
                let u = &self.users[i];
                Ok(
                    UserResponseModel {
                        id: u.id,
                        email: u.email.clone(),
                        email_verified: u.email_verified,
                        name: u.name.clone(),
                        two_factor_enabled: u.two_factor_enabled,
                    },
                )
            },
            None => Err(Error::UserNotFound(user_id)),
        }
    }

    /// Removes a user row by id; relationships and history are untouched.
    pub fn delete_user(&mut self, user_id: u128) -> (r: Result<(), Error>)
        requires
            old(self).wf(),
        ensures
            final(self).wf(),
            final(self).accounts@ == old(self).accounts@,
            final(self).account_users@ == old(self).account_users@,
            final(self).categories@ == old(self).categories@,
            final(self).transactions@ == old(self).transactions@,
            final(self).validations@ == old(self).validations@,
            final(self).next_tx_id == old(self).next_tx_id,
            r is Err ==> final(self).users@ == old(self).users@,
            (r is Ok) == user_id_taken(old(self).users@, user_id),
            (r matches Err(Error::UserNotFound(u)) && u == user_id) <==> !user_id_taken(
                old(self).users@,
                user_id,
            ),
            r is Ok ==> forall|i: int|
                0 <= i < old(self).users@.len() && (#[trigger] old(self).users@[i]).id == user_id
                    ==> final(self).users@ == old(self).users@.remove(i),
    {
        match self.find_user_index(user_id) {
            Some(i) => {
                self.users.remove(i);
                proof {
                    assert forall|x: int|
                        0 <= x < old(self).users@.len() && (#[trigger] old(self).users@[x]).id
                            == user_id implies self.users@ == old(self).users@.remove(x) by {
                        assert(x == i as int);
                    }
                }
                Ok(())
            },
            None => Err(Error::UserNotFound(user_id)),
        }
    }

    /// Sparse update of a user: a present email replaces the stored one
    /// and resets its verified flag; a present password arrives as the
    /// caller-computed hash; name and two-factor flag replace directly.
    pub fn update_user(
        &mut self,
        user_id: u128,
        req: UpdateUserRequestModel,
        password_hash: Option<String>,
    ) -> (r: Result<UserResponseModel, Error>)
        requires
            old(self).wf(),
            (req.password is Some) <==> (password_hash is Some),
        ensures
            final(self).wf(),
            final(self).accounts@ == old(self).accounts@,
            final(self).account_users@ == old(self).account_users@,
            final(self).categories@ == old(self).categories@,
            final(self).transactions@ == old(self).transactions@,
            final(self).validations@ == old(self).validations@,
            final(self).next_tx_id == old(self).next_tx_id,
            r is Err ==> final(self).users@ == old(self).users@,
            (r is Ok) == user_id_taken(old(self).users@, user_id),
            (r matches Err(Error::UserNotFound(u)) && u == user_id) <==> !user_id_taken(
                old(self).users@,
                user_id,
            ),
            r is Ok ==> final(self).users@.len() == old(self).users@.len(),
            r is Ok ==> forall|i: int|
                0 <= i < old(self).users@.len() && (#[trigger] old(self).users@[i]).id != user_id
                    ==> final(self).users@[i] == old(self).users@[i],
            r matches Ok(m) ==> forall|i: int|
                0 <= i < old(self).users@.len() && (#[trigger] old(self).users@[i]).id == user_id
                    ==> ({
                    let u = final(self).users@[i];
                    let o = old(self).users@[i];
                    &&& u.id == o.id
                    &&& (req.email matches Some(e) ==> u.email == e && u.email_verified == false)
                    &&& (req.email is None ==> u.email == o.email && u.email_verified
                        == o.email_verified)
                    &&& (password_hash matches Some(h) ==> u.password_hash == h)
                    &&& (password_hash is None ==> u.password_hash == o.password_hash)
                    &&& (req.name matches Some(nm) ==> u.name == nm)
                    &&& (req.name is None ==> u.name == o.name)
                    &&& (req.two_factor_enabled matches Some(t) ==> u.two_factor_enabled == t)
                    &&& (req.two_factor_enabled is None ==> u.two_factor_enabled
                        == o.two_factor_enabled)
                    &&& m.id == u.id
                    &&& m.email@ == u.email@
                    &&& m.email_verified == u.email_verified
                    &&& m.name@ == u.name@
                    &&& m.two_factor_enabled == u.two_factor_enabled
                }),
    {
        let i = match self.find_user_index(user_id) {
            Some(i) => i,
            None => {
                return Err(Error::UserNotFound(user_id));
            },
        };
        let ex = &self.users[i];
        let (email, email_verified) = match req.email {
            Some(e) => (e, false),
            None => (ex.email.clone(), ex.email_verified),
        };
        let hash = match password_hash {
            Some(h) => h,
            None => ex.password_hash.clone(),
        };
        let name = match req.name {
            Some(nm) => nm,
            None => ex.name.clone(),
        };
        let two_factor_enabled = match req.two_factor_enabled {
            Some(t) => t,
            None => ex.two_factor_enabled,
        };
        let updated = User {
            id: ex.id,
            email,
            email_verified,
            password_hash: hash,
            name,
            two_factor_enabled,
        };
        let result = UserResponseModel {
            id: updated.id,
            email: updated.email.clone(),
            email_verified: updated.email_verified,
            name: updated.name.clone(),
            two_factor_enabled: updated.two_factor_enabled,
        };
        self.users[i] = updated;
        proof {
            assert forall|x: int, y: int|
                0 <= x < y < self.users@.len() implies self.users@[x].id != self.users@[y].id by {
                assert(self.users@[x].id == old(self).users@[x].id);
                assert(self.users@[y].id == old(self).users@[y].id);
            }
            assert forall|x: int|
                0 <= x < old(self).users@.len() && (#[trigger] old(self).users@[x]).id == user_id
                    implies x == i as int by {}
        }
        Ok(result)
    }
}

} // verus!
