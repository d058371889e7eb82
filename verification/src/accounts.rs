//! The account service: account creation with member roles, membership
//! upsert/removal under the `Admin` role, soft deletion, and lookups.
//!
//! Joining an account is confirmed out of band: for every member added,
//! a validation token is issued and an email request is handed back to
//! the caller, who performs the actual delivery.

use vstd::prelude::*;

use crate::roles::{AuthError, Role};
use crate::store::{
    authorized, auth_error_matches, fresh_id, Account, AccountUser, Store,
};
use crate::users::user_id_taken;
use crate::codec::encoded;
use crate::validations::{Config, ValidationContext};

verus! {

/// Milliseconds of grace between a delete request and the hard delete.
pub const DELETE_GRACE_MS: i64 = 30 * 86400 * 1000;

/// Request to create an account with its initial members.
pub struct CreateAccountRequestModel {
    pub name: String,
    pub users: Vec<AccountUserModel>,
}

/// One member and the role it holds on the account.
#[derive(Clone, Copy, PartialEq, Eq, Structural, Debug)]
pub struct AccountUserModel {
    pub user_id: u128,
    pub role: Role,
}

/// An account reference as listed for a user.
#[derive(Debug)]
pub struct AccountInfoResponseModel {
    pub id: u128,
    pub name: String,
}

/// An account with its members, as returned to callers.
#[derive(Debug)]
pub struct AccountResponseModel {
    pub account_id: u128,
    pub name: String,
    pub users: Vec<AccountUserModel>,
    /// When set, the moment the account will be hard-deleted.
    pub delete_on: Option<i64>,
}

/// A verification email the caller still has to send.
#[derive(Debug)]
pub struct EmailRequest {
    pub email: String,
    pub user_id: u128,
    pub name: String,
    pub token: String,
}

/// Failure of an account operation.
#[derive(Debug)]
pub enum Error {
    /// The caller failed the authorization gate.
    Auth(AuthError),
    /// No account with this id exists.
    AccountNotFound(u128),
    /// No user with this id exists.
    UserNotFound(u128),
    /// The (account, user) relationship does not exist.
    AccountUserNotFound(u128, u128),
    /// A freshly generated identifier collided with an existing row; the
    /// operation was rolled back.
    IdInUse(u128),
}

/// Some account carries this id.
pub open spec fn account_id_taken(accounts: Seq<Account>, id: u128) -> bool {
    exists|i: int| 0 <= i < accounts.len() && (#[trigger] accounts[i]).id == id
}

/// Some relationship row references this account.
pub open spec fn account_referenced(aus: Seq<AccountUser>, account_id: u128) -> bool {
    exists|i: int| 0 <= i < aus.len() && (#[trigger] aus[i]).account_id == account_id
}

/// Some relationship row links this account and user.
pub open spec fn account_user_present(aus: Seq<AccountUser>, account_id: u128, user_id: u128) -> bool {
    exists|i: int|
        0 <= i < aus.len() && (#[trigger] aus[i]).account_id == account_id && aus[i].user_id
            == user_id
}

/// The members of an account, in row order.
pub open spec fn account_members(aus: Seq<AccountUser>, account_id: u128) -> Seq<AccountUserModel>
    decreases aus.len(),
{
    if aus.len() == 0 {
        Seq::empty()
    } else {
        let rest = account_members(aus.drop_last(), account_id);
        if aus.last().account_id == account_id {
            rest.push(AccountUserModel { user_id: aus.last().user_id, role: aus.last().role })
        } else {
            rest
        }
    }
}

impl Store {
    /// Index of the account with this id, if any.
    fn find_account_index(&self, account_id: u128) -> (r: Option<usize>)
        ensures
            r matches Some(i) ==> (0 <= i < self.accounts@.len() && self.accounts@[i as int].id
                == account_id),
            r is None ==> !account_id_taken(self.accounts@, account_id),
    {
        let n = self.accounts.len();
        let mut i: usize = 0;
        while i < n
            invariant
                n == self.accounts@.len(),
                0 <= i <= n,
                forall|j: int| 0 <= j < i ==> (#[trigger] self.accounts@[j]).id != account_id,
            decreases n - i,
        {
            if self.accounts[i].id == account_id {
                return Some(i);
            }
            i += 1;
        }
        None
    }

    /// Index of the relationship row for `(account_id, user_id)`, if any.
    fn find_account_user_index(&self, account_id: u128, user_id: u128) -> (r: Option<usize>)
        ensures
            r matches Some(i) ==> (0 <= i < self.account_users@.len() && self.account_users@[
                i as int
            ].account_id == account_id && self.account_users@[i as int].user_id == user_id),
            r is None ==> !account_user_present(self.account_users@, account_id, user_id),
    {
        let n = self.account_users.len();
        let mut i: usize = 0;
        while i < n
            invariant
                n == self.account_users@.len(),
                0 <= i <= n,
                forall|j: int|
                    0 <= j < i ==> !((#[trigger] self.account_users@[j]).account_id == account_id
                        && self.account_users@[j].user_id == user_id),
            decreases n - i,
        {
            let au = &self.account_users[i];
            if au.account_id == account_id && au.user_id == user_id {
                return Some(i);
            }
            i += 1;
        }
        None
    }

    /// True when some relationship row references this account.
    fn is_account_referenced(&self, account_id: u128) -> (r: bool)
        ensures
            r == account_referenced(self.account_users@, account_id),
    {
        let n = self.account_users.len();
        let mut i: usize = 0;
        while i < n
            invariant
                n == self.account_users@.len(),
                0 <= i <= n,
                forall|j: int|
                    0 <= j < i ==> (#[trigger] self.account_users@[j]).account_id != account_id,
            decreases n - i,
        {
            if self.account_users[i].account_id == account_id {
                return true;
            }
            i += 1;
        }
        false
    }

    /// Marks an account for deletion after the grace period and returns
    /// the moment it will be hard-deleted. Requires the `Admin` role.
    pub fn delete_account(&mut self, admin_user_id: u128, account_id: u128, now: i64) -> (r:
        Result<i64, Error>)
        requires
            old(self).wf(),
            i64::MIN <= now + DELETE_GRACE_MS <= i64::MAX,
        ensures
            final(self).wf(),
            final(self).users@ == old(self).users@,
            final(self).account_users@ == old(self).account_users@,
            final(self).categories@ == old(self).categories@,
            final(self).transactions@ == old(self).transactions@,
            final(self).validations@ == old(self).validations@,
            final(self).next_tx_id == old(self).next_tx_id,
            r is Err ==> final(self).accounts@ == old(self).accounts@,
            (r matches Err(Error::Auth(e)) ==> auth_error_matches(
                e,
                old(self).account_users@,
                account_id,
                admin_user_id,
                Role::Admin,
            )),
            (r matches Err(Error::Auth(_))) <==> !authorized(
                old(self).account_users@,
                account_id,
                admin_user_id,
                Role::Admin,
            ),
            (r matches Err(Error::AccountNotFound(a)) && a == account_id) <==> (authorized(
                old(self).account_users@,
                account_id,
                admin_user_id,
                Role::Admin,
            ) && !account_id_taken(old(self).accounts@, account_id)),
            (r is Ok) <==> (authorized(
                old(self).account_users@,
                account_id,
                admin_user_id,
                Role::Admin,
            ) && account_id_taken(old(self).accounts@, account_id)),
            (r matches Ok(t) ==> t == now + DELETE_GRACE_MS),
            r is Ok ==> final(self).accounts@.len() == old(self).accounts@.len(),
            r is Ok ==> forall|i: int|
                0 <= i < old(self).accounts@.len() && (#[trigger] old(self).accounts@[i]).id
                    != account_id ==> final(self).accounts@[i] == old(self).accounts@[i],
            r is Ok ==> forall|i: int|
                0 <= i < old(self).accounts@.len() && (#[trigger] old(self).accounts@[i]).id
                    == account_id ==> final(self).accounts@[i] == (Account {
                    delete_on: Some((now + DELETE_GRACE_MS) as i64),
                    ..old(self).accounts@[i]
                }),
    {
        if let Err(e) = self.validate_user_account_role(admin_user_id, account_id, Role::Admin) {
            return Err(Error::Auth(e));
        }
        let i = match self.find_account_index(account_id) {
            Some(i) => i,
            None => {
                return Err(Error::AccountNotFound(account_id));
            },
        };
        let expires_at: i64 = now + DELETE_GRACE_MS;
        self.accounts[i].delete_on = Some(expires_at);
        proof {
            assert forall|x: int, y: int|
                0 <= x < y < self.accounts@.len() implies self.accounts@[x].id
                != self.accounts@[y].id by {
                assert(self.accounts@[x].id == old(self).accounts@[x].id);
                assert(self.accounts@[y].id == old(self).accounts@[y].id);
            }
            assert forall|x: int|
                0 <= x < old(self).accounts@.len() && (#[trigger] old(self).accounts@[x]).id
                    == account_id implies x == i as int by {}
        }
        Ok(expires_at)
    }

    /// Removes one member from an account. Requires the `Admin` role.
    pub fn remove_user_from_account(
        &mut self,
        admin_user_id: u128,
        account_id: u128,
        user_id: u128,
    ) -> (r: Result<(), Error>)
        requires
            old(self).wf(),
        ensures
            final(self).wf(),
            final(self).users@ == old(self).users@,
            final(self).accounts@ == old(self).accounts@,
            final(self).categories@ == old(self).categories@,
            final(self).transactions@ == old(self).transactions@,
            final(self).validations@ == old(self).validations@,
            final(self).next_tx_id == old(self).next_tx_id,
            r is Err ==> final(self).account_users@ == old(self).account_users@,
            (r matches Err(Error::Auth(e)) ==> auth_error_matches(
                e,
                old(self).account_users@,
                account_id,
                admin_user_id,
                Role::Admin,
            )),
            (r matches Err(Error::Auth(_))) <==> !authorized(
                old(self).account_users@,
                account_id,
                admin_user_id,
                Role::Admin,
            ),
            (r matches Err(Error::AccountUserNotFound(a, u)) && a == account_id && u == user_id)
                <==> (authorized(old(self).account_users@, account_id, admin_user_id, Role::Admin)
                && !account_user_present(old(self).account_users@, account_id, user_id)),
            (r is Ok) <==> (authorized(
                old(self).account_users@,
                account_id,
                admin_user_id,
                Role::Admin,
            ) && account_user_present(old(self).account_users@, account_id, user_id)),
            r is Ok ==> forall|i: int|
                0 <= i < old(self).account_users@.len() && (#[trigger] old(
                    self,
                ).account_users@[i]).account_id == account_id && old(self).account_users@[i].user_id
                    == user_id ==> final(self).account_users@ == old(self).account_users@.remove(
                    i,
                ),
    {
        if let Err(e) = self.validate_user_account_role(admin_user_id, account_id, Role::Admin) {
            return Err(Error::Auth(e));
        }
        let i = match self.find_account_user_index(account_id, user_id) {
            Some(i) => i,
            None => {
                return Err(Error::AccountUserNotFound(account_id, user_id));
            },
        };
        self.account_users.remove(i);
        proof {
            assert forall|x: int|
                0 <= x < old(self).account_users@.len() && (#[trigger] old(
                    self,
                ).account_users@[x]).account_id == account_id && old(
                self,
            ).account_users@[x].user_id == user_id implies x == i as int by {}
        }
        Ok(())
    }

    /// Looks an account up with its member list. Requires the `Read` role.
    pub fn get_account(&self, user_id: u128, account_id: u128) -> (r: Result<
        AccountResponseModel,
        Error,
    >)
        ensures
            (r matches Err(Error::Auth(e)) ==> auth_error_matches(
                e,
                self.account_users@,
                account_id,
                user_id,
                Role::Read,
            )),
            (r matches Err(Error::Auth(_))) <==> !authorized(
                self.account_users@,
                account_id,
                user_id,
                Role::Read,
            ),
            (r matches Err(Error::AccountNotFound(a)) && a == account_id) <==> (authorized(
                self.account_users@,
                account_id,
                user_id,
                Role::Read,
            ) && !account_id_taken(self.accounts@, account_id)),
            (r is Ok) <==> (authorized(self.account_users@, account_id, user_id, Role::Read)
                && account_id_taken(self.accounts@, account_id)),
            r matches Ok(m) ==> ({
                &&& m.account_id == account_id
                &&& m.users@ == account_members(self.account_users@, account_id)
                &&& exists|i: int|
                    0 <= i < self.accounts@.len() && (#[trigger] self.accounts@[i]).id
                        == account_id && m.name@ == self.accounts@[i].name@ && m.delete_on
                        == self.accounts@[i].delete_on
            }),
    {
        if let Err(e) = self.validate_user_account_role(user_id, account_id, Role::Read) {
            return Err(Error::Auth(e));
        }
        let i = match self.find_account_index(account_id) {
            Some(i) => i,
            None => {
                return Err(Error::AccountNotFound(account_id));
            },
        };
        let n = self.account_users.len();
        let mut members: Vec<AccountUserModel> = Vec::new();
        let mut j: usize = 0;
        proof {
            assert(self.account_users@.take(0) =~= Seq::<AccountUser>::empty());
        }
        while j < n
            invariant
                n == self.account_users@.len(),
                0 <= j <= n,
                members@ == account_members(self.account_users@.take(j as int), account_id),
            decreases n - j,
        {
            proof {
                assert(self.account_users@.take(j as int + 1).drop_last()
                    =~= self.account_users@.take(j as int));
                assert(self.account_users@.take(j as int + 1).last() == self.account_users@[
                    j as int
                ]);
            }
            let au = &self.account_users[j];
            if au.account_id == account_id {
                members.push(AccountUserModel { user_id: au.user_id, role: au.role });
            }
            j += 1;
        }
        proof {
            assert(self.account_users@.take(n as int) =~= self.account_users@);
        }
        let account = &self.accounts[i];
        Ok(
            AccountResponseModel {
                account_id,
                name: account.name.clone(),
                users: members,
                delete_on: account.delete_on,
            },
        )
    }

    /// Lists every account the user belongs to, with its name. Reads only;
    /// every relationship row must reference an existing account.
    pub fn get_account_infos(&self, user_id: u128) -> (r: Vec<AccountInfoResponseModel>)
        requires
            forall|i: int|
                0 <= i < self.account_users@.len() ==> account_id_taken(
                    self.accounts@,
                    (#[trigger] self.account_users@[i]).account_id,
                ),
        ensures
            r@.len() == account_members_of_user(self.account_users@, user_id).len(),
            forall|k: int|
                0 <= k < r@.len() ==> ({
                    let aid = account_members_of_user(self.account_users@, user_id)[k];
                    &&& (#[trigger] r@[k]).id == aid
                    &&& exists|i: int|
                        0 <= i < self.accounts@.len() && (#[trigger] self.accounts@[i]).id == aid
                            && r@[k].name@ == self.accounts@[i].name@
                }),
    {
        let n = self.account_users.len();
        let mut out: Vec<AccountInfoResponseModel> = Vec::new();
        let mut j: usize = 0;
        proof {
            assert(self.account_users@.take(0) =~= Seq::<AccountUser>::empty());
        }
        while j < n
            invariant
                n == self.account_users@.len(),
                0 <= j <= n,
                forall|i: int|
                    0 <= i < self.account_users@.len() ==> account_id_taken(
                        self.accounts@,
                        (#[trigger] self.account_users@[i]).account_id,
                    ),
                out@.len() == account_members_of_user(
                    self.account_users@.take(j as int),
                    user_id,
                ).len(),
                forall|k: int|
                    0 <= k < out@.len() ==> ({
                        let aid = account_members_of_user(
                            self.account_users@.take(j as int),
                            user_id,
                        )[k];
                        &&& (#[trigger] out@[k]).id == aid
                        &&& exists|i: int|
                            0 <= i < self.accounts@.len() && (#[trigger] self.accounts@[i]).id
                                == aid && out@[k].name@ == self.accounts@[i].name@
                    }),
            decreases n - j,
        {
            proof {
                assert(self.account_users@.take(j as int + 1).drop_last()
                    =~= self.account_users@.take(j as int));
                assert(self.account_users@.take(j as int + 1).last() == self.account_users@[
                    j as int
                ]);
            }
            let au = &self.account_users[j];
            if au.user_id == user_id {
                let i = match self.find_account_index(au.account_id) {
                    Some(i) => i,
                    None => {
                        proof {
                            assert(account_id_taken(self.accounts@, au.account_id));
                            assert(false);
                        }
                        return out;
                    },
                };
                out.push(
                    AccountInfoResponseModel {
                        id: au.account_id,
                        name: self.accounts[i].name.clone(),
                    },
                );
                proof {
                    let pref = account_members_of_user(
                        self.account_users@.take(j as int + 1),
                        user_id,
                    );
                    assert(pref.last() == au.account_id);
                }
            }
            j += 1;
        }
        proof {
            assert(self.account_users@.take(n as int) =~= self.account_users@);
        }
        out
    }
}

impl Store {
    /// Creates an account under the given identifier, with one membership
    /// row per requested member, each with its role and initially
    /// unverified. Every member must already be a registered user. For
    /// each member a join-confirmation validation is issued from the
    /// matching entry of `tokens`, and an email request to deliver it is
    /// handed back. [`Store::create_account`] generates the identifier;
    /// this function pins the outcome for any value of it.
    pub fn create_account_with_id(
        &mut self,
        user_id: u128,
        req: CreateAccountRequestModel,
        tokens: Vec<String>,
        now: i64,
        cfg: &Config,
        new_account_id: u128,
    ) -> (r: Result<(AccountResponseModel, Vec<EmailRequest>), Error>)
        requires
            old(self).wf(),
            tokens@.len() == req.users@.len(),
            forall|i: int, j: int|
                0 <= i < j < req.users@.len() ==> (#[trigger] req.users@[i]).user_id != (
                #[trigger] req.users@[j]).user_id,
            i64::MIN <= now + cfg.add_account_lt_s * 1000 <= i64::MAX,
        ensures
            (r matches Err(Error::IdInUse(id)) && id == new_account_id) <==> (account_id_taken(
                old(self).accounts@,
                new_account_id,
            ) || account_referenced(old(self).account_users@, new_account_id)),
            (r is Ok) <==> (!account_id_taken(old(self).accounts@, new_account_id)
                && !account_referenced(old(self).account_users@, new_account_id) && forall|k: int|
                0 <= k < req.users@.len() ==> user_id_taken(
                    old(self).users@,
                    (#[trigger] req.users@[k]).user_id,
                )),
            (r matches Err(Error::UserNotFound(_))) <==> (!account_id_taken(
                old(self).accounts@,
                new_account_id,
            ) && !account_referenced(old(self).account_users@, new_account_id) && exists|k: int|
                0 <= k < req.users@.len() && !user_id_taken(
                    old(self).users@,
                    (#[trigger] req.users@[k]).user_id,
                )),
            r matches Ok(p) ==> p.0.account_id == new_account_id,
            final(self).wf(),
            final(self).users@ == old(self).users@,
            final(self).categories@ == old(self).categories@,
            final(self).transactions@ == old(self).transactions@,
            final(self).next_tx_id == old(self).next_tx_id,
            r is Err ==> final(self).accounts@ == old(self).accounts@,
            r is Err ==> final(self).account_users@ == old(self).account_users@,
            r is Err ==> final(self).validations@ == old(self).validations@,
            (r matches Err(Error::IdInUse(id)) ==> (account_id_taken(old(self).accounts@, id)
                || account_referenced(old(self).account_users@, id))),
            (r matches Err(Error::UserNotFound(u)) ==> exists|k: int|
                0 <= k < req.users@.len() && !user_id_taken(
                    old(self).users@,
                    (#[trigger] req.users@[k]).user_id,
                ) && u == req.users@[k].user_id && (forall|j: int|
                    0 <= j < k ==> user_id_taken(old(self).users@, req.users@[j].user_id))),
            (forall|k: int|
                0 <= k < req.users@.len() ==> user_id_taken(
                    old(self).users@,
                    (#[trigger] req.users@[k]).user_id,
                )) ==> (r is Ok || r matches Err(Error::IdInUse(_))),
            r is Ok || r matches Err(Error::IdInUse(_)) || r matches Err(Error::UserNotFound(_)),
            r matches Ok(p) ==> ({
                let m = p.0;
                let emails = p.1;
                let aid = m.account_id;
                let nu = req.users@.len() as int;
                &&& !account_id_taken(old(self).accounts@, aid)
                &&& final(self).accounts@.len() == old(self).accounts@.len() + 1
                &&& forall|i: int|
                    0 <= i < old(self).accounts@.len() ==> final(self).accounts@[i] == old(
                        self,
                    ).accounts@[i]
                &&& final(self).accounts@.last().id == aid
                &&& final(self).accounts@.last().name@ == req.name@
                &&& final(self).accounts@.last().delete_on is None
                &&& m.name@ == req.name@
                &&& m.users@ == req.users@
                &&& m.delete_on is None
                &&& final(self).account_users@.len() == old(self).account_users@.len() + nu
                &&& forall|i: int|
                    0 <= i < old(self).account_users@.len() ==> final(self).account_users@[i]
                        == old(self).account_users@[i]
                &&& forall|k: int|
                    0 <= k < nu ==> final(self).account_users@[old(
                        self,
                    ).account_users@.len() + k] == (AccountUser {
                        account_id: aid,
                        user_id: (#[trigger] req.users@[k]).user_id,
                        role: req.users@[k].role,
                        verified: false,
                    })
                &&& final(self).validations@.len() == old(self).validations@.len() + nu
                &&& forall|i: int|
                    0 <= i < old(self).validations@.len() ==> final(self).validations@[i] == old(
                        self,
                    ).validations@[i]
                &&& forall|k: int|
                    0 <= k < nu ==> ({
                        let v = final(self).validations@[old(self).validations@.len() + k];
                        &&& v.token@ == tokens@[k]@
                        &&& v.context@ == encoded(
                            ValidationContext::AddAccount {
                                account_id: aid,
                                user_id: (#[trigger] req.users@[k]).user_id,
                            },
                        )
                        &&& v.valid_until == now + cfg.add_account_lt_s * 1000
                    })
                &&& emails@.len() == nu
                &&& forall|k: int|
                    0 <= k < nu ==> ({
                        let e = #[trigger] emails@[k];
                        &&& e.user_id == req.users@[k].user_id
                        &&& e.token@ == tokens@[k]@
                        &&& exists|i: int|
                            0 <= i < old(self).users@.len() && (#[trigger] old(
                                self,
                            ).users@[i]).id == req.users@[k].user_id && e.email@ == old(
                                self,
                            ).users@[i].email@ && e.name@ == old(self).users@[i].name@
                    })
            }),
    {
        let new_id = new_account_id;
        if let Some(_) = self.find_account_index(new_id) {
            return Err(Error::IdInUse(new_id));
        }
        if self.is_account_referenced(new_id) {
            return Err(Error::IdInUse(new_id));
        }
        let nu = req.users.len();

        // Every requested member must exist; collect the email data now
        // so a later failure leaves nothing written.
        let mut infos: Vec<(String, String)> = Vec::new();
        let mut idxs: Vec<usize> = Vec::new();
        let mut k: usize = 0;
        while k < nu
            invariant
                nu == req.users@.len(),
                0 <= k <= nu,
                self == old(self),
                old(self).wf(),
                !account_id_taken(old(self).accounts@, new_account_id),
                !account_referenced(old(self).account_users@, new_account_id),
                infos@.len() == k,
                idxs@.len() == k,
                forall|j: int|
                    0 <= j < k ==> (0 <= #[trigger] idxs@[j] < old(self).users@.len() && old(
                        self,
                    ).users@[idxs@[j] as int].id == req.users@[j].user_id && infos@[j].0@ == old(
                        self,
                    ).users@[idxs@[j] as int].email@ && infos@[j].1@ == old(self).users@[
                        idxs@[j] as int
                    ].name@),
            decreases nu - k,
        {
            let uid = req.users[k].user_id;
            let i = match self.find_user_index(uid) {
                Some(i) => i,
                None => {
                    proof {
                        assert forall|j: int| 0 <= j < k implies user_id_taken(
                            old(self).users@,
                            (#[trigger] req.users@[j]).user_id,
                        ) by {
                            assert(old(self).users@[idxs@[j] as int].id == req.users@[j].user_id);
                        }
                    }
                    return Err(Error::UserNotFound(uid));
                },
            };
            infos.push((self.users[i].email.clone(), self.users[i].name.clone()));
            idxs.push(i);
            k += 1;
        }

        // Insert the account, its membership rows, and one validation per
        // member; build the email requests to hand back.
        let account_name = req.name.clone();
        self.accounts.push(Account { id: new_id, name: account_name, delete_on: None });
        proof {
            assert forall|x: int, y: int|
                0 <= x < y < self.accounts@.len() implies self.accounts@[x].id
                != self.accounts@[y].id by {
                if y == self.accounts@.len() - 1 {
                    assert(!account_id_taken(old(self).accounts@, self.accounts@[y].id));
                }
            }
        }
        let mut emails: Vec<EmailRequest> = Vec::new();
        let mut k: usize = 0;
        while k < nu
            invariant
                nu == req.users@.len(),
                tokens@.len() == nu,
                0 <= k <= nu,
                self.wf(),
                old(self).wf(),
                self.users@ == old(self).users@,
                self.categories@ == old(self).categories@,
                self.transactions@ == old(self).transactions@,
                self.next_tx_id == old(self).next_tx_id,
                self.accounts@ == old(self).accounts@.push(
                    Account { id: new_id, name: req.name, delete_on: None },
                ),
                !account_id_taken(old(self).accounts@, new_id),
                !account_referenced(old(self).account_users@, new_id),
                i64::MIN <= now + cfg.add_account_lt_s * 1000 <= i64::MAX,
                forall|i: int, j: int|
                    0 <= i < j < req.users@.len() ==> (#[trigger] req.users@[i]).user_id != (
                    #[trigger] req.users@[j]).user_id,
                infos@.len() == nu,
                idxs@.len() == nu,
                forall|j: int|
                    0 <= j < nu ==> (0 <= #[trigger] idxs@[j] < old(self).users@.len() && old(
                        self,
                    ).users@[idxs@[j] as int].id == req.users@[j].user_id && infos@[j].0@ == old(
                        self,
                    ).users@[idxs@[j] as int].email@ && infos@[j].1@ == old(self).users@[
                        idxs@[j] as int
                    ].name@),
                self.account_users@.len() == old(self).account_users@.len() + k,
                forall|i: int|
                    0 <= i < old(self).account_users@.len() ==> self.account_users@[i] == old(
                        self,
                    ).account_users@[i],
                forall|j: int|
                    0 <= j < k ==> self.account_users@[old(self).account_users@.len() + j] == (
                    AccountUser {
                        account_id: new_id,
                        user_id: (#[trigger] req.users@[j]).user_id,
                        role: req.users@[j].role,
                        verified: false,
                    }),
                self.validations@.len() == old(self).validations@.len() + k,
                forall|i: int|
                    0 <= i < old(self).validations@.len() ==> self.validations@[i] == old(
                        self,
                    ).validations@[i],
                forall|j: int|
                    0 <= j < k ==> ({
                        let v = self.validations@[old(self).validations@.len() + j];
                        &&& v.token@ == tokens@[j]@
                        &&& v.context@ == encoded(
                            ValidationContext::AddAccount {
                                account_id: new_id,
                                user_id: (#[trigger] req.users@[j]).user_id,
                            },
                        )
                        &&& v.valid_until == now + cfg.add_account_lt_s * 1000
                    }),
                emails@.len() == k,
                forall|j: int|
                    0 <= j < k ==> ({
                        let e = #[trigger] emails@[j];
                        &&& e.user_id == req.users@[j].user_id
                        &&& e.token@ == tokens@[j]@
                        &&& e.email@ == old(self).users@[idxs@[j] as int].email@
                        &&& e.name@ == old(self).users@[idxs@[j] as int].name@
                    }),
            decreases nu - k,
        {
            let member = req.users[k];
            let ghost pre_aus = self.account_users@;
            self.account_users.push(
                AccountUser {
                    account_id: new_id,
                    user_id: member.user_id,
                    role: member.role,
                    verified: false,
                },
            );
            proof {
                assert forall|x: int, y: int|
                    0 <= x < y < self.account_users@.len() implies !(self.account_users@[
                x].account_id == self.account_users@[y].account_id && self.account_users@[
                x].user_id == self.account_users@[y].user_id) by {
                    if y == self.account_users@.len() - 1 {
                        if x < old(self).account_users@.len() {
                            assert(self.account_users@[x] == old(self).account_users@[x]);
                            if self.account_users@[x].account_id == new_id {
                                assert(account_referenced(old(self).account_users@, new_id));
                            }
                        } else {
                            assert(self.account_users@[x] == (AccountUser {
                                account_id: new_id,
                                user_id: req.users@[x - old(self).account_users@.len()].user_id,
                                role: req.users@[x - old(self).account_users@.len()].role,
                                verified: false,
                            }));
                        }
                    }
                }
            }
            let token = tokens[k].clone();
            let tr = self.add_validation(
                ValidationContext::AddAccount { account_id: new_id, user_id: member.user_id },
                token,
                now,
                cfg,
            );
            proof {
                assert(tr is Ok);
            }
            let info = &infos[k];
            emails.push(
                EmailRequest {
                    email: info.0.clone(),
                    user_id: member.user_id,
                    name: info.1.clone(),
                    token: tokens[k].clone(),
                },
            );
            k += 1;
        }
        proof {
            assert forall|j: int| 0 <= j < nu implies exists|i: int|
                0 <= i < old(self).users@.len() && (#[trigger] old(self).users@[i]).id == (
                #[trigger] req.users@[j]).user_id && emails@[j].email@ == old(
                self,
            ).users@[i].email@ && emails@[j].name@ == old(self).users@[i].name@ by {
                let w = idxs@[j] as int;
                assert(0 <= w < old(self).users@.len() && old(self).users@[w].id
                    == req.users@[j].user_id && emails@[j].email@ == old(self).users@[w].email@
                    && emails@[j].name@ == old(self).users@[w].name@);
            }
        }
        let response = AccountResponseModel {
            account_id: new_id,
            name: req.name,
            users: req.users,
            delete_on: None,
        };
        Ok((response, emails))
    }

    /// Creates an account with a fresh identifier; see
    /// [`Store::create_account_with_id`], which states the outcome for the
    /// identifier the generator happened to return.
    #[verifier::rlimit(100)]
    pub fn create_account(
        &mut self,
        user_id: u128,
        req: CreateAccountRequestModel,
        tokens: Vec<String>,
        now: i64,
        cfg: &Config,
    ) -> (r: Result<(AccountResponseModel, Vec<EmailRequest>), Error>)
        requires
            old(self).wf(),
            tokens@.len() == req.users@.len(),
            forall|i: int, j: int|
                0 <= i < j < req.users@.len() ==> (#[trigger] req.users@[i]).user_id != (
                #[trigger] req.users@[j]).user_id,
            i64::MIN <= now + cfg.add_account_lt_s * 1000 <= i64::MAX,
        ensures
            final(self).wf(),
            final(self).users@ == old(self).users@,
            final(self).categories@ == old(self).categories@,
            final(self).transactions@ == old(self).transactions@,
            final(self).next_tx_id == old(self).next_tx_id,
            r is Err ==> final(self).accounts@ == old(self).accounts@,
            r is Err ==> final(self).account_users@ == old(self).account_users@,
            r is Err ==> final(self).validations@ == old(self).validations@,
            (r matches Err(Error::IdInUse(id)) ==> (account_id_taken(old(self).accounts@, id)
                || account_referenced(old(self).account_users@, id))),
            (r matches Err(Error::UserNotFound(u)) ==> exists|k: int|
                0 <= k < req.users@.len() && !user_id_taken(
                    old(self).users@,
                    (#[trigger] req.users@[k]).user_id,
                ) && u == req.users@[k].user_id && (forall|j: int|
                    0 <= j < k ==> user_id_taken(old(self).users@, req.users@[j].user_id))),
            (forall|k: int|
                0 <= k < req.users@.len() ==> user_id_taken(
                    old(self).users@,
                    (#[trigger] req.users@[k]).user_id,
                )) ==> (r is Ok || r matches Err(Error::IdInUse(_))),
            r is Ok || r matches Err(Error::IdInUse(_)) || r matches Err(Error::UserNotFound(_)),
            r matches Ok(p) ==> ({
                let m = p.0;
                let emails = p.1;
                let aid = m.account_id;
                let nu = req.users@.len() as int;
                &&& !account_id_taken(old(self).accounts@, aid)
                &&& final(self).accounts@.len() == old(self).accounts@.len() + 1
                &&& forall|i: int|
                    0 <= i < old(self).accounts@.len() ==> final(self).accounts@[i] == old(
                        self,
                    ).accounts@[i]
                &&& final(self).accounts@.last().id == aid
                &&& final(self).accounts@.last().name@ == req.name@
                &&& final(self).accounts@.last().delete_on is None
                &&& m.name@ == req.name@
                &&& m.users@ == req.users@
                &&& m.delete_on is None
                &&& final(self).account_users@.len() == old(self).account_users@.len() + nu
                &&& forall|i: int|
                    0 <= i < old(self).account_users@.len() ==> final(self).account_users@[i]
                        == old(self).account_users@[i]
                &&& forall|k: int|
                    0 <= k < nu ==> final(self).account_users@[old(
                        self,
                    ).account_users@.len() + k] == (AccountUser {
                        account_id: aid,
                        user_id: (#[trigger] req.users@[k]).user_id,
                        role: req.users@[k].role,
                        verified: false,
                    })
                &&& final(self).validations@.len() == old(self).validations@.len() + nu
                &&& forall|i: int|
                    0 <= i < old(self).validations@.len() ==> final(self).validations@[i] == old(
                        self,
                    ).validations@[i]
                &&& forall|k: int|
                    0 <= k < nu ==> ({
                        let v = final(self).validations@[old(self).validations@.len() + k];
                        &&& v.token@ == tokens@[k]@
                        &&& v.context@ == encoded(
                            ValidationContext::AddAccount {
                                account_id: aid,
                                user_id: (#[trigger] req.users@[k]).user_id,
                            },
                        )
                        &&& v.valid_until == now + cfg.add_account_lt_s * 1000
                    })
                &&& emails@.len() == nu
                &&& forall|k: int|
                    0 <= k < nu ==> ({
                        let e = #[trigger] emails@[k];
                        &&& e.user_id == req.users@[k].user_id
                        &&& e.token@ == tokens@[k]@
                        &&& exists|i: int|
                            0 <= i < old(self).users@.len() && (#[trigger] old(
                                self,
                            ).users@[i]).id == req.users@[k].user_id && e.email@ == old(
                                self,
                            ).users@[i].email@ && e.name@ == old(self).users@[i].name@
                    })
            }),
    {
        let new_account_id = fresh_id();
        self.create_account_with_id(user_id, req, tokens, now, cfg, new_account_id)
    }

    /// Adds a user to the account with the given role, or updates the
    /// role when the membership already exists. A newly added member gets
    /// a join-confirmation validation issued from `token` and an email
    /// request handed back; a role update issues nothing. Requires the
    /// `Admin` role.
    pub fn upsert_user_account(
        &mut self,
        account_id: u128,
        admin_user_id: u128,
        req: AccountUserModel,
        token: String,
        now: i64,
        cfg: &Config,
    ) -> (r: Result<Option<EmailRequest>, Error>)
        requires
            old(self).wf(),
            i64::MIN <= now + cfg.add_account_lt_s * 1000 <= i64::MAX,
        ensures
            final(self).wf(),
            final(self).users@ == old(self).users@,
            final(self).accounts@ == old(self).accounts@,
            final(self).categories@ == old(self).categories@,
            final(self).transactions@ == old(self).transactions@,
            final(self).next_tx_id == old(self).next_tx_id,
            r is Err ==> final(self).account_users@ == old(self).account_users@,
            r is Err ==> final(self).validations@ == old(self).validations@,
            (r matches Err(Error::Auth(e)) ==> auth_error_matches(
                e,
                old(self).account_users@,
                account_id,
                admin_user_id,
                Role::Admin,
            )),
            (r matches Err(Error::Auth(_))) <==> !authorized(
                old(self).account_users@,
                account_id,
                admin_user_id,
                Role::Admin,
            ),
            (r matches Err(Error::UserNotFound(u)) && u == req.user_id) <==> (authorized(
                old(self).account_users@,
                account_id,
                admin_user_id,
                Role::Admin,
            ) && !user_id_taken(old(self).users@, req.user_id)),
            (r matches Ok(o) && o is None) <==> (authorized(
                old(self).account_users@,
                account_id,
                admin_user_id,
                Role::Admin,
            ) && user_id_taken(old(self).users@, req.user_id) && account_user_present(
                old(self).account_users@,
                account_id,
                req.user_id,
            )),
            (r matches Ok(o) && o is Some) <==> (authorized(
                old(self).account_users@,
                account_id,
                admin_user_id,
                Role::Admin,
            ) && user_id_taken(old(self).users@, req.user_id) && !account_user_present(
                old(self).account_users@,
                account_id,
                req.user_id,
            )),
            (r matches Ok(o) && o is None) ==> ({
                &&& final(self).validations@ == old(self).validations@
                &&& final(self).account_users@.len() == old(self).account_users@.len()
                &&& forall|i: int|
                    0 <= i < old(self).account_users@.len() && !((#[trigger] old(
                        self,
                    ).account_users@[i]).account_id == account_id && old(
                        self,
                    ).account_users@[i].user_id == req.user_id) ==> final(self).account_users@[i]
                        == old(self).account_users@[i]
                &&& forall|i: int|
                    0 <= i < old(self).account_users@.len() && (#[trigger] old(
                        self,
                    ).account_users@[i]).account_id == account_id && old(
                        self,
                    ).account_users@[i].user_id == req.user_id ==> final(self).account_users@[i]
                        == (AccountUser { role: req.role, ..old(self).account_users@[i] })
            }),
            r matches Ok(o) ==> (o matches Some(e) ==> {
                &&& final(self).account_users@ == old(self).account_users@.push(
                    AccountUser {
                        account_id,
                        user_id: req.user_id,
                        role: req.role,
                        verified: false,
                    },
                )
                &&& final(self).validations@.len() == old(self).validations@.len() + 1
                &&& forall|i: int|
                    0 <= i < old(self).validations@.len() ==> final(self).validations@[i] == old(
                        self,
                    ).validations@[i]
                &&& final(self).validations@.last().token@ == token@
                &&& final(self).validations@.last().context@ == encoded(
                    ValidationContext::AddAccount { account_id, user_id: req.user_id },
                )
                &&& final(self).validations@.last().valid_until == now + cfg.add_account_lt_s
                    * 1000
                &&& e.user_id == req.user_id
                &&& e.token@ == token@
                &&& exists|i: int|
                    0 <= i < old(self).users@.len() && (#[trigger] old(self).users@[i]).id
                        == req.user_id && e.email@ == old(self).users@[i].email@ && e.name@ == old(
                        self,
                    ).users@[i].name@
            }),
    {
        if let Err(e) = self.validate_user_account_role(admin_user_id, account_id, Role::Admin) {
            return Err(Error::Auth(e));
        }
        let ui = match self.find_user_index(req.user_id) {
            Some(i) => i,
            None => {
                return Err(Error::UserNotFound(req.user_id));
            },
        };
        match self.find_account_user_index(account_id, req.user_id) {
            Some(i) => {
                self.account_users[i].role = req.role;
                proof {
                    assert forall|x: int, y: int|
                        0 <= x < y < self.account_users@.len() implies !(self.account_users@[
                    x].account_id == self.account_users@[y].account_id && self.account_users@[
                    x].user_id == self.account_users@[y].user_id) by {
                        assert(self.account_users@[x].account_id == old(
                            self,
                        ).account_users@[x].account_id && self.account_users@[x].user_id == old(
                            self,
                        ).account_users@[x].user_id);
                        assert(self.account_users@[y].account_id == old(
                            self,
                        ).account_users@[y].account_id && self.account_users@[y].user_id == old(
                            self,
                        ).account_users@[y].user_id);
                    }
                    assert forall|x: int|
                        0 <= x < old(self).account_users@.len() && (#[trigger] old(
                            self,
                        ).account_users@[x]).account_id == account_id && old(
                        self,
                    ).account_users@[x].user_id == req.user_id implies x == i as int by {}
                }
                Ok(None)
            },
            None => {
                let email = self.users[ui].email.clone();
                let name = self.users[ui].name.clone();
                self.account_users.push(
                    AccountUser {
                        account_id,
                        user_id: req.user_id,
                        role: req.role,
                        verified: false,
                    },
                );
                let tr = self.add_validation(
                    ValidationContext::AddAccount { account_id, user_id: req.user_id },
                    token.clone(),
                    now,
                    cfg,
                );
                proof {
                    assert(tr is Ok);
                }
                Ok(
                    Some(
                        EmailRequest { email, user_id: req.user_id, name, token },
                    ),
                )
            },
        }
    }
}

/// The account ids a user belongs to, in row order.
pub open spec fn account_members_of_user(aus: Seq<AccountUser>, user_id: u128) -> Seq<u128>
    decreases aus.len(),
{
    if aus.len() == 0 {
        Seq::empty()
    } else {
        let rest = account_members_of_user(aus.drop_last(), user_id);
        if aus.last().user_id == user_id {
            rest.push(aus.last().account_id)
        } else {
            rest
        }
    }
}

} // verus!
