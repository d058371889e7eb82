//! The persistent state of the ledger, modelled in memory.
//!
//! A [`Store`] holds every row the services read or write. Each public
//! operation of the services is an atomic state transition on a `Store`:
//! it either succeeds and leaves the store transformed as its contract
//! states, or fails and leaves the store untouched.

use vstd::prelude::*;

use crate::norm::lower_of;
use crate::roles::{AuthError, Role};

verus! {

/// A registered user.
pub struct User {
    pub id: u128,
    pub email: String,
    pub email_verified: bool,
    pub password_hash: String,
    pub name: String,
    pub two_factor_enabled: bool,
}

/// A billing/grouping unit owning categories and transactions.
pub struct Account {
    pub id: u128,
    pub name: String,
    /// When set, the moment (unix milliseconds) the account is due for
    /// hard deletion; advisory soft-delete metadata.
    pub delete_on: Option<i64>,
}

/// The (account, user) relationship carrying the user's role.
pub struct AccountUser {
    pub account_id: u128,
    pub user_id: u128,
    pub role: Role,
    pub verified: bool,
}

/// A named budget bucket with a running balance and explicit display order.
pub struct Category {
    pub id: u128,
    pub account_id: u128,
    /// Display name, stored whitespace-trimmed.
    pub name: String,
    /// Lower-cased form of `name`, the key under which per-account
    /// uniqueness is enforced.
    pub name_key: String,
    /// Running balance in minor currency units.
    pub balance: i64,
    pub refill_value: i64,
    /// Position in the account's display order.
    pub order: i32,
}

/// An immutable ledger entry affecting exactly one category's balance.
pub struct TransactionRow {
    /// Sequential integer identifier, assigned from `Store::next_tx_id`.
    pub id: i32,
    pub account_id: u128,
    pub user_id: Option<u128>,
    pub category_id: Option<u128>,
    /// Unix milliseconds, from the caller's time source.
    pub timestamp: i64,
    /// Signed amount in USD-equivalent minor units (stored post-conversion).
    pub amount: i64,
    pub notes: Option<String>,
    pub is_refill: bool,
}

/// A time-bound, single-use validation token row.
pub struct Validation {
    pub id: u128,
    /// The opaque token string handed to the requester.
    pub token: String,
    /// The serialized validation context (see `crate::codec`).
    pub context: Vec<u8>,
    /// Unix milliseconds after which the token is expired.
    pub valid_until: i64,
}

impl TransactionRow {
    /// A field-by-field copy, equal to `self`.
    pub fn duplicate(&self) -> (r: TransactionRow)
        ensures
            r == *self,
    {
        TransactionRow {
            id: self.id,
            account_id: self.account_id,
            user_id: self.user_id,
            category_id: self.category_id,
            timestamp: self.timestamp,
            amount: self.amount,
            notes: match &self.notes {
                Some(s) => Some(s.clone()),
                None => None,
            },
            is_refill: self.is_refill,
        }
    }
}

/// The whole persistent state.
pub struct Store {
    pub users: Vec<User>,
    pub accounts: Vec<Account>,
    pub account_users: Vec<AccountUser>,
    pub categories: Vec<Category>,
    pub transactions: Vec<TransactionRow>,
    pub validations: Vec<Validation>,
    /// The identifier the next inserted transaction row will receive.
    pub next_tx_id: i32,
}

pub open spec fn user_ids_unique(users: Seq<User>) -> bool {
    forall|i: int, j: int|
        0 <= i < j < users.len() ==> users[i].id != users[j].id
}

pub open spec fn account_ids_unique(accounts: Seq<Account>) -> bool {
    forall|i: int, j: int|
        0 <= i < j < accounts.len() ==> accounts[i].id != accounts[j].id
}

pub open spec fn account_user_keys_unique(aus: Seq<AccountUser>) -> bool {
    forall|i: int, j: int|
        0 <= i < j < aus.len() ==> !(aus[i].account_id == aus[j].account_id
            && aus[i].user_id == aus[j].user_id)
}

pub open spec fn cat_ids_unique(cats: Seq<Category>) -> bool {
    forall|i: int, j: int|
        0 <= i < j < cats.len() ==> cats[i].id != cats[j].id
}

/// Every stored name key is the lower-cased form of the stored name, so
/// uniqueness of the keys is uniqueness of the names themselves.
pub open spec fn cat_names_consistent(cats: Seq<Category>) -> bool {
    forall|i: int|
        0 <= i < cats.len() ==> (#[trigger] cats[i]).name_key@ == lower_of(cats[i].name@)
}

/// Category names are unique per account under the trimmed, lower-cased key.
pub open spec fn cat_name_keys_unique(cats: Seq<Category>) -> bool {
    forall|i: int, j: int|
        0 <= i < j < cats.len() && cats[i].account_id == cats[j].account_id
            ==> cats[i].name_key@ != cats[j].name_key@
}

pub open spec fn tx_ids_unique(txs: Seq<TransactionRow>) -> bool {
    forall|i: int, j: int|
        0 <= i < j < txs.len() ==> txs[i].id != txs[j].id
}

/// Every stored transaction id was assigned before `next` was reached.
pub open spec fn tx_ids_below(txs: Seq<TransactionRow>, next: int) -> bool {
    forall|i: int| 0 <= i < txs.len() ==> txs[i].id < next
}

/// The role the store records for `user_id` on `account_id`, if any
/// (first match in row order).
pub open spec fn role_of(aus: Seq<AccountUser>, account_id: u128, user_id: u128) -> Option<
    Role,
>
    decreases aus.len(),
{
    if aus.len() == 0 {
        None
    } else if aus[0].account_id == account_id && aus[0].user_id == user_id {
        Some(aus[0].role)
    } else {
        role_of(aus.drop_first(), account_id, user_id)
    }
}

/// The caller holds at least `min` on the account.
pub open spec fn authorized(aus: Seq<AccountUser>, account_id: u128, user_id: u128, min: Role) -> bool {
    role_of(aus, account_id, user_id) matches Some(ro) && ro.rank() >= min.rank()
}

/// The authorization error an operation may surface, tied to the store's
/// membership rows exactly as [`Store::validate_user_account_role`] states.
pub open spec fn auth_error_matches(
    e: AuthError,
    aus: Seq<AccountUser>,
    account_id: u128,
    user_id: u128,
    min: Role,
) -> bool {
    match e {
        AuthError::NotMember(u, a) => u == user_id && a == account_id && role_of(
            aus,
            account_id,
            user_id,
        ) is None,
        AuthError::InsufficientRole(u, a) => u == user_id && a == account_id && (role_of(
            aus,
            account_id,
            user_id,
        ) matches Some(ro) && ro.rank() < min.rank()),
        AuthError::CouldNotParseRole(_) => false,
    }
}

impl Store {
    /// Well-formedness: row identities are unique, category names are
    /// unique per account, and transaction ids stay below the counter.
    /// Established by [`Store::new`] and preserved by every operation.
    pub open spec fn wf(self) -> bool {
        &&& user_ids_unique(self.users@)
        &&& account_ids_unique(self.accounts@)
        &&& account_user_keys_unique(self.account_users@)
        &&& cat_ids_unique(self.categories@)
        &&& cat_names_consistent(self.categories@)
        &&& cat_name_keys_unique(self.categories@)
        &&& tx_ids_unique(self.transactions@)
        &&& tx_ids_below(self.transactions@, self.next_tx_id as int)
        &&& 1 <= self.next_tx_id
    }

    /// An empty store, with the transaction counter at its first value.
    pub fn new() -> (r: Store)
        ensures
            r.wf(),
            r.users@.len() == 0,
            r.accounts@.len() == 0,
            r.account_users@.len() == 0,
            r.categories@.len() == 0,
            r.transactions@.len() == 0,
            r.validations@.len() == 0,
            r.next_tx_id == 1,
    {
        Store {
            users: Vec::new(),
            accounts: Vec::new(),
            account_users: Vec::new(),
            categories: Vec::new(),
            transactions: Vec::new(),
            validations: Vec::new(),
            next_tx_id: 1,
        }
    }

    /// The authorization gate: succeeds exactly when `user_id` is a member
    /// of `account_id` with a role at least `min_role`; reads only.
    pub fn validate_user_account_role(
        &self,
        user_id: u128,
        account_id: u128,
        min_role: Role,
    ) -> (r: Result<(), AuthError>)
        ensures
            (r is Ok) == (role_of(self.account_users@, account_id, user_id) matches Some(ro)
                && ro.rank() >= min_role.rank()),
            (r matches Err(AuthError::NotMember(u, a)) && u == user_id && a == account_id) == (
            role_of(self.account_users@, account_id, user_id) is None),
            (r matches Err(AuthError::InsufficientRole(u, a)) && u == user_id && a
                == account_id) == (role_of(self.account_users@, account_id, user_id) matches Some(
                ro,
            ) && ro.rank() < min_role.rank()),
    {
        let n = self.account_users.len();
        let mut i: usize = 0;
        proof {
            assert(self.account_users@.skip(0) =~= self.account_users@);
        }
        while i < n
            invariant
                n == self.account_users@.len(),
                0 <= i <= n,
                role_of(self.account_users@, account_id, user_id) == role_of(
                    self.account_users@.skip(i as int),
                    account_id,
                    user_id,
                ),
            decreases n - i,
        {
            let au = &self.account_users[i];
            if au.account_id == account_id && au.user_id == user_id {
                proof {
                    assert(self.account_users@.skip(i as int)[0] == self.account_users@[i as int]);
                }
                if au.role.at_least(min_role) {
                    return Ok(());
                } else {
                    return Err(AuthError::InsufficientRole(user_id, account_id));
                }
            }
            proof {
                assert(self.account_users@.skip(i as int).drop_first() =~= self.account_users@.skip(
                    i as int + 1,
                ));
            }
            i += 1;
        }
        proof {
            assert(self.account_users@.skip(n as int) =~= Seq::<AccountUser>::empty());
        }
        Err(AuthError::NotMember(user_id, account_id))
    }
}

/// Relies on `uuid::Uuid::now_v7` (via `Uuid::as_u128`) for a freshly
/// generated time-ordered identifier. Nothing is assumed about the value;
/// callers check for collisions themselves. The call itself aborts if the
/// host clock reads before the Unix epoch or the operating system's random
/// source fails, so the library's no-panic guarantee rests on the host
/// providing both.
#[verifier::external_body]
pub(crate) fn fresh_id() -> u128 {
    uuid::Uuid::now_v7().as_u128()
}

} // verus!
