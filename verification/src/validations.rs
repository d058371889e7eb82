//! The validation-token service: time-bound, context-typed, single-use
//! tokens backing email verification and account-join confirmation.
//!
//! A token row stores its context serialized through `crate::codec`. A
//! token is consumed (its row deleted) exactly once, inside the same
//! atomic transition as the state change it authorizes; an expired row
//! is left in place.

use vstd::prelude::*;

use crate::codec::{decode_context, decoded, encode_context, encoded};
use crate::store::{fresh_id, AccountUser, Store, User, Validation};

verus! {

/// Which kind of deferred state change a validation authorizes.
#[derive(Clone, Copy, PartialEq, Eq, Structural, Debug)]
pub enum ValidationKind {
    VerifyEmail,
    AddAccount,
}

/// The payload a validation token was issued for.
#[derive(Clone, Copy, PartialEq, Eq, Structural, Debug)]
pub enum ValidationContext {
    VerifyEmail { user_id: u128 },
    AddAccount { account_id: u128, user_id: u128 },
}

/// Validity durations, in seconds, per context kind.
pub struct Config {
    pub verify_email_lt_s: i64,
    pub add_account_lt_s: i64,
}

/// Failure of a validation operation.
#[derive(Debug)]
pub enum Error {
    /// No row carries this token.
    ValidationNotFound(String),
    /// The row exists but its validity window has passed; it is kept.
    ValidationExpired(String),
    /// The stored context bytes are corrupt.
    DeserializeContextError,
    /// The expected kind does not pair with the stored context.
    MismatchedValidation(ValidationKind, ValidationContext),
}

/// The validity duration configured for this context's kind.
pub open spec fn lifetime_s(cfg: Config, ctx: ValidationContext) -> i64 {
    match ctx {
        ValidationContext::VerifyEmail { .. } => cfg.verify_email_lt_s,
        ValidationContext::AddAccount { .. } => cfg.add_account_lt_s,
    }
}

/// Some stored validation row carries this token.
pub open spec fn tok_found(vals: Seq<Validation>, tok: Seq<char>) -> bool {
    exists|i: int| 0 <= i < vals.len() && (#[trigger] vals[i].token)@ == tok
}

/// Row `i` is the first one carrying this token.
pub open spec fn first_tok_at(vals: Seq<Validation>, tok: Seq<char>, i: int) -> bool {
    &&& 0 <= i < vals.len()
    &&& vals[i].token@ == tok
    &&& forall|j: int| 0 <= j < i ==> (#[trigger] vals[j].token)@ != tok
}

/// The expected kind pairs with the stored context.
pub open spec fn kind_matches(kind: ValidationKind, ctx: ValidationContext) -> bool {
    ||| (kind is VerifyEmail && ctx is VerifyEmail)
    ||| (kind is AddAccount && ctx is AddAccount)
}

/// `post` is `pre` with the user's email marked verified.
pub open spec fn users_email_verified(pre: Seq<User>, post: Seq<User>, user_id: u128) -> bool {
    &&& post.len() == pre.len()
    &&& forall|j: int|
        0 <= j < pre.len() ==> post[j] == (if (#[trigger] pre[j]).id == user_id {
            User { email_verified: true, ..pre[j] }
        } else {
            pre[j]
        })
}

/// `post` is `pre` with the (account, user) relationship marked verified.
pub open spec fn account_user_verified(
    pre: Seq<AccountUser>,
    post: Seq<AccountUser>,
    account_id: u128,
    user_id: u128,
) -> bool {
    &&& post.len() == pre.len()
    &&& forall|j: int|
        0 <= j < pre.len() ==> post[j] == (if (#[trigger] pre[j]).account_id == account_id
            && pre[j].user_id == user_id {
            AccountUser { verified: true, ..pre[j] }
        } else {
            pre[j]
        })
}

/// A validation token is single-use: once the only row carrying it is
/// removed by a successful validation, no row carries it any more, so a
/// second lookup of the same token finds nothing.
pub proof fn lemma_token_single_use(vals: Seq<Validation>, tok: Seq<char>, i: int)
    requires
        first_tok_at(vals, tok, i),
        forall|j: int| 0 <= j < vals.len() && j != i ==> (#[trigger] vals[j].token)@ != tok,
    ensures
        !tok_found(vals.remove(i), tok),
{
    let rest = vals.remove(i);
    assert forall|j: int| 0 <= j < rest.len() implies (#[trigger] rest[j].token)@ != tok by {
        if j < i {
            assert(rest[j] == vals[j]);
        } else {
            assert(rest[j] == vals[j + 1]);
        }
    }
}

impl Store {
    /// Index of the first validation row carrying this token, if any.
    fn find_validation(&self, token: &String) -> (r: Option<usize>)
        ensures
            r matches Some(i) ==> first_tok_at(self.validations@, token@, i as int),
            r is None ==> !tok_found(self.validations@, token@),
    {
        let n = self.validations.len();
        let mut i: usize = 0;
        while i < n
            invariant
                n == self.validations@.len(),
                0 <= i <= n,
                forall|j: int| 0 <= j < i ==> (#[trigger] self.validations@[j].token)@ != token@,
            decreases n - i,
        {
            if self.validations[i].token == *token {
                return Some(i);
            }
            i += 1;
        }
        None
    }

    /// Issues a validation token: computes `valid_until` from the
    /// configured duration for the context's kind, serializes the
    /// context, and inserts the row. The opaque `token` comes from the
    /// caller's token generator; the row id is freshly generated.
    pub fn add_validation(&mut self, ctx: ValidationContext, token: String, now: i64, cfg: &Config) -> (r:
        Result<String, Error>)
        requires
            old(self).wf(),
            i64::MIN <= now + lifetime_s(*cfg, ctx) * 1000 <= i64::MAX,
        ensures
            final(self).wf(),
            final(self).users@ == old(self).users@,
            final(self).accounts@ == old(self).accounts@,
            final(self).account_users@ == old(self).account_users@,
            final(self).categories@ == old(self).categories@,
            final(self).transactions@ == old(self).transactions@,
            final(self).next_tx_id == old(self).next_tx_id,
            r matches Ok(t) && t@ == token@,
            final(self).validations@.len() == old(self).validations@.len() + 1,
            forall|j: int|
                0 <= j < old(self).validations@.len() ==> final(self).validations@[j] == old(self).validations@[j],
            final(self).validations@.last().token@ == token@,
            final(self).validations@.last().context@ == encoded(ctx),
            final(self).validations@.last().valid_until == now + lifetime_s(*cfg, ctx) * 1000,
    {
        let lt: i64 = match ctx {
            ValidationContext::VerifyEmail { .. } => cfg.verify_email_lt_s,
            ValidationContext::AddAccount { .. } => cfg.add_account_lt_s,
        };
        let vu128: i128 = (now as i128) + (lt as i128) * 1000;
        let valid_until: i64 = vu128 as i64;
        let new_id = fresh_id();
        let context = encode_context(&ctx);
        let result = token.clone();
        self.validations.push(
            Validation { id: new_id, token, context, valid_until },
        );
        Ok(result)
    }

    /// Consumes a validation token: looks the row up by token, rejects a
    /// missing, expired or corrupt row and a kind/context mismatch, and
    /// otherwise applies the authorized state change and deletes the row
    /// — all in one atomic transition.
    pub fn validate(&mut self, kind: ValidationKind, token: String, now: i64) -> (r: Result<
        (),
        Error,
    >)
        requires
            old(self).wf(),
        ensures
            final(self).wf(),
            final(self).accounts@ == old(self).accounts@,
            final(self).categories@ == old(self).categories@,
            final(self).transactions@ == old(self).transactions@,
            final(self).next_tx_id == old(self).next_tx_id,
            r is Err ==> final(self).users@ == old(self).users@ && final(self).account_users@
                == old(self).account_users@ && final(self).validations@ == old(self).validations@,
            (!tok_found(old(self).validations@, token@)) <==> (r matches Err(
                Error::ValidationNotFound(t),
            ) && t@ == token@),
            r is Ok ==> tok_found(old(self).validations@, token@),
            forall|i: int|
                first_tok_at(old(self).validations@, token@, i) && now > old(self).validations@[i].valid_until ==> (r matches Err(Error::ValidationExpired(t))
                    && t@ == token@),
            forall|i: int|
                first_tok_at(old(self).validations@, token@, i) && now <= old(self).validations@[i].valid_until && decoded(old(self).validations@[i].context@)
                    is None ==> r matches Err(Error::DeserializeContextError),
            forall|i: int|
                first_tok_at(old(self).validations@, token@, i) && now <= old(self).validations@[i].valid_until ==> (decoded(old(self).validations@[i].context@)
                    matches Some(ctx) ==> (!kind_matches(kind, ctx) ==> (r matches Err(
                    Error::MismatchedValidation(k, c),
                ) && k == kind && c == ctx))),
            forall|i: int|
                first_tok_at(old(self).validations@, token@, i) && now <= old(self).validations@[i].valid_until ==> (decoded(old(self).validations@[i].context@)
                    matches Some(ctx) ==> (kind_matches(kind, ctx) ==> (r is Ok && final(self).validations@ == old(self).validations@.remove(i)))),
            forall|i: int|
                first_tok_at(old(self).validations@, token@, i) && now <= old(self).validations@[i].valid_until ==> (decoded(old(self).validations@[i].context@)
                    matches Some(ValidationContext::VerifyEmail { user_id }) ==> (kind
                    is VerifyEmail ==> (users_email_verified(
                    old(self).users@,
                    final(self).users@,
                    user_id,
                ) && final(self).account_users@ == old(self).account_users@))),
            forall|i: int|
                first_tok_at(old(self).validations@, token@, i) && now <= old(self).validations@[i].valid_until ==> (decoded(old(self).validations@[i].context@)
                    matches Some(ValidationContext::AddAccount { account_id, user_id }) ==> (kind
                    is AddAccount ==> (account_user_verified(
                    old(self).account_users@,
                    final(self).account_users@,
                    account_id,
                    user_id,
                ) && final(self).users@ == old(self).users@))),
    {
        let idx = match self.find_validation(&token) {
            Some(i) => i,
            None => {
                return Err(Error::ValidationNotFound(token));
            },
        };
        if now > self.validations[idx].valid_until {
            return Err(Error::ValidationExpired(token));
        }
        let ctx = match decode_context(&self.validations[idx].context) {
            Some(c) => c,
            None => {
                return Err(Error::DeserializeContextError);
            },
        };
        let matches_kind: bool = match kind {
            ValidationKind::VerifyEmail => matches!(ctx, ValidationContext::VerifyEmail { .. }),
            ValidationKind::AddAccount => matches!(ctx, ValidationContext::AddAccount { .. }),
        };
        if !matches_kind {
            return Err(Error::MismatchedValidation(kind, ctx));
        }
        match ctx {
            ValidationContext::VerifyEmail { user_id } => {
                let n = self.users.len();
                let mut j: usize = 0;
                while j < n
                    invariant
                        n == self.users@.len(),
                        0 <= j <= n,
                        self.accounts@ == old(self).accounts@,
                        self.account_users@ == old(self).account_users@,
                        self.categories@ == old(self).categories@,
                        self.transactions@ == old(self).transactions@,
                        self.validations@ == old(self).validations@,
                        self.next_tx_id == old(self).next_tx_id,
                        self.users@.len() == old(self).users@.len(),
                        forall|l: int|
                            0 <= l < j ==> self.users@[l] == (if (#[trigger] old(self).users@[l]).id == user_id {
                                User { email_verified: true, ..old(self).users@[l] }
                            } else {
                                old(self).users@[l]
                            }),
                        forall|l: int|
                            j <= l < n ==> #[trigger] self.users@[l] == old(self).users@[l],
                    decreases n - j,
                {
                    if self.users[j].id == user_id {
                        self.users[j].email_verified = true;
                    }
                    j += 1;
                }
            },
            ValidationContext::AddAccount { account_id, user_id } => {
                let n = self.account_users.len();
                let mut j: usize = 0;
                while j < n
                    invariant
                        n == self.account_users@.len(),
                        0 <= j <= n,
                        self.users@ == old(self).users@,
                        self.accounts@ == old(self).accounts@,
                        self.categories@ == old(self).categories@,
                        self.transactions@ == old(self).transactions@,
                        self.validations@ == old(self).validations@,
                        self.next_tx_id == old(self).next_tx_id,
                        self.account_users@.len() == old(self).account_users@.len(),
                        forall|l: int|
                            0 <= l < j ==> self.account_users@[l] == (if (#[trigger] old(self).account_users@[l]).account_id == account_id && old(self).account_users@[l].user_id == user_id {
                                AccountUser { verified: true, ..old(self).account_users@[l] }
                            } else {
                                old(self).account_users@[l]
                            }),
                        forall|l: int|
                            j <= l < n ==> #[trigger] self.account_users@[l] == old(self).account_users@[l],
                    decreases n - j,
                {
                    let au = &self.account_users[j];
                    if au.account_id == account_id && au.user_id == user_id {
                        self.account_users[j].verified = true;
                    }
                    j += 1;
                }
            },
        }
        self.validations.remove(idx);
        proof {
            assert forall|x: int, y: int|
                0 <= x < y < self.users@.len() implies self.users@[x].id != self.users@[y].id by {
                assert(old(self).users@[x].id == self.users@[x].id);
                assert(old(self).users@[y].id == self.users@[y].id);
            }
            assert forall|x: int, y: int|
                0 <= x < y < self.account_users@.len() implies !(self.account_users@[x].account_id
                == self.account_users@[y].account_id && self.account_users@[x].user_id
                == self.account_users@[y].user_id) by {
                assert(old(self).account_users@[x].account_id
                    == self.account_users@[x].account_id && old(self).account_users@[x].user_id
                    == self.account_users@[x].user_id);
                assert(old(self).account_users@[y].account_id
                    == self.account_users@[y].account_id && old(self).account_users@[y].user_id
                    == self.account_users@[y].user_id);
            }
        }
        Ok(())
    }
}

} // verus!
