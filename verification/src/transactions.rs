//! The ledger service: transaction create/delete/query with atomic,
//! per-category balance aggregation.
//!
//! Amounts are stored post-conversion in USD-equivalent minor units; the
//! currency conversion itself is an outside call whose results the caller
//! hands in (one converted amount per line, ignored for lines already in
//! USD). Each batch is a single atomic state transition: on any failure
//! nothing is written.

use vstd::prelude::*;

use crate::roles::{AuthError, Role};
use crate::store::{
    authorized, auth_error_matches, tx_ids_below, tx_ids_unique, Category, Store, TransactionRow,
};

verus! {

/// The ledger's reference currency code.
pub const USD_CURRENCY_TYPE: &'static str = "USD";

/// A single transaction as returned to callers.
#[derive(Debug)]
pub struct TransactionModel {
    pub id: i32,
    pub am: i64,
    pub cat_id: Option<u128>,
    pub user_id: Option<u128>,
    pub timestamp_utc: i64,
    pub notes: Option<String>,
}

/// Comparison operator of an amount filter.
#[derive(Clone, Copy, PartialEq, Eq, Structural, Debug)]
pub enum Cmp {
    Lt,
    Lte,
    Eq,
    Gte,
    Gt,
}

/// A single query predicate; a query applies a conjunction of these.
#[derive(Clone, Copy, PartialEq, Eq, Structural, Debug)]
pub enum TransactionFilter {
    CategoryEq { id: u128 },
    Cmp { cmp: Cmp, val: i64 },
}

/// A paged, filtered transaction query.
pub struct GetTransactionReqModel {
    pub account_id: u128,
    pub page_size: Option<u64>,
    pub page_idx: Option<u64>,
    pub filters: Option<Vec<TransactionFilter>>,
}

/// A batch of transactions to create.
pub struct CreateTransactionsModel {
    pub account_id: u128,
    pub txs: Vec<CreateTransactionModel>,
}

/// One line of a creation batch, in its native currency.
pub struct CreateTransactionModel {
    pub category_id: u128,
    pub currency_type: String,
    pub amount: i64,
    pub notes: String,
}

/// A batch of transaction ids to delete.
pub struct DeleteTransactionsModel {
    pub account_id: u128,
    pub tx_ids: Vec<i32>,
}

/// Failure of a ledger operation.
#[derive(Debug)]
pub enum Error {
    /// The caller failed the authorization gate.
    Auth(AuthError),
    /// A requested transaction does not exist or belongs to another
    /// account: `(account_id, transaction_id)`.
    AccountDoesNotOwnTransaction(u128, i32),
}

/// The line is already in the reference currency.
pub open spec fn is_usd(s: Seq<char>) -> bool {
    s == "USD"@
}

/// The amount a line contributes to the ledger: its own amount when the
/// line is in USD, the caller-supplied converted amount otherwise.
pub open spec fn eff_amount(line: CreateTransactionModel, usd: i64) -> i64 {
    if is_usd(line.currency_type@) {
        line.amount
    } else {
        usd
    }
}

/// Sum a creation batch contributes to one category's balance.
pub open spec fn batch_delta(
    lines: Seq<CreateTransactionModel>,
    usd: Seq<i64>,
    cat_id: u128,
) -> int
    decreases lines.len(),
{
    if lines.len() == 0 {
        0
    } else {
        batch_delta(lines.drop_last(), usd.drop_last(), cat_id) + if lines.last().category_id
            == cat_id {
            eff_amount(lines.last(), usd.last()) as int
        } else {
            0int
        }
    }
}

/// Signed sum of the stored transactions referencing one category.
pub open spec fn tx_sum(txs: Seq<TransactionRow>, cat_id: u128) -> int
    decreases txs.len(),
{
    if txs.len() == 0 {
        0
    } else {
        tx_sum(txs.drop_last(), cat_id) + if txs.last().category_id == Some(cat_id) {
            txs.last().amount as int
        } else {
            0int
        }
    }
}

/// The ledger consistency invariant: every category's stored balance is
/// the signed sum of the amounts of its currently-existing transactions.
pub open spec fn balanced(s: Store) -> bool {
    forall|i: int|
        0 <= i < s.categories@.len() ==> (#[trigger] s.categories@[i]).balance as int == tx_sum(
            s.transactions@,
            s.categories@[i].id,
        )
}

/// 2^63, a bound on the magnitude of any `i64`.
pub open spec fn i64_mag() -> int {
    0x8000_0000_0000_0000
}

proof fn lemma_tx_sum_concat(a: Seq<TransactionRow>, b: Seq<TransactionRow>, cat_id: u128)
    ensures
        tx_sum(a + b, cat_id) == tx_sum(a, cat_id) + tx_sum(b, cat_id),
    decreases b.len(),
{
    if b.len() == 0 {
        assert(a + b =~= a);
    } else {
        assert((a + b).drop_last() =~= a + b.drop_last());
        assert((a + b).last() == b.last());
        lemma_tx_sum_concat(a, b.drop_last(), cat_id);
    }
}

/// Staged rows mirror the lines of the batch, so their sum per category
/// is the batch's delta.
proof fn lemma_staged_sum(
    staged: Seq<TransactionRow>,
    lines: Seq<CreateTransactionModel>,
    usd: Seq<i64>,
    cat_id: u128,
)
    requires
        staged.len() == lines.len(),
        usd.len() == lines.len(),
        forall|k: int|
            0 <= k < lines.len() ==> (#[trigger] staged[k]).category_id == Some(
                lines[k].category_id,
            ) && staged[k].amount == eff_amount(lines[k], usd[k]),
    ensures
        tx_sum(staged, cat_id) == batch_delta(lines, usd, cat_id),
    decreases staged.len(),
{
    if staged.len() > 0 {
        lemma_staged_sum(staged.drop_last(), lines.drop_last(), usd.drop_last(), cat_id);
    }
}

/// The id occurs in the request list.
pub open spec fn id_in(ids: Seq<i32>, id: i32) -> bool {
    exists|k: int| 0 <= k < ids.len() && ids[k] == id
}

/// A stored transaction the request names but another account owns.
pub open spec fn mismatch_at(
    txs: Seq<TransactionRow>,
    ids: Seq<i32>,
    account_id: u128,
    i: int,
) -> bool {
    id_in(ids, txs[i].id) && txs[i].account_id != account_id
}

/// Some stored transaction carries this id.
pub open spec fn tx_id_present(txs: Seq<TransactionRow>, id: i32) -> bool {
    exists|i: int| 0 <= i < txs.len() && txs[i].id == id
}

/// The stored transactions that survive a deletion request.
pub open spec fn kept_txs(txs: Seq<TransactionRow>, ids: Seq<i32>) -> Seq<TransactionRow>
    decreases txs.len(),
{
    if txs.len() == 0 {
        Seq::empty()
    } else {
        let rest = kept_txs(txs.drop_last(), ids);
        if id_in(ids, txs.last().id) {
            rest
        } else {
            rest.push(txs.last())
        }
    }
}

/// Signed sum of the amounts a deletion request removes from one category.
pub open spec fn removed_sum(txs: Seq<TransactionRow>, ids: Seq<i32>, cat_id: u128) -> int
    decreases txs.len(),
{
    if txs.len() == 0 {
        0
    } else {
        removed_sum(txs.drop_last(), ids, cat_id) + if id_in(ids, txs.last().id)
            && txs.last().category_id == Some(cat_id) {
            txs.last().amount as int
        } else {
            0int
        }
    }
}

/// Every id present among the kept rows was present before.
proof fn lemma_kept_ids(txs: Seq<TransactionRow>, ids: Seq<i32>)
    ensures
        forall|x: i32| #[trigger] tx_id_present(kept_txs(txs, ids), x) ==> tx_id_present(txs, x),
    decreases txs.len(),
{
    if txs.len() > 0 {
        lemma_kept_ids(txs.drop_last(), ids);
        let rest = kept_txs(txs.drop_last(), ids);
        assert forall|x: i32| #[trigger] tx_id_present(kept_txs(txs, ids), x) implies tx_id_present(
            txs,
            x,
        ) by {
            let kept = kept_txs(txs, ids);
            let i = choose|i: int| 0 <= i < kept.len() && kept[i].id == x;
            if i < rest.len() {
                assert(tx_id_present(rest, x));
                let j = choose|j: int|
                    0 <= j < txs.drop_last().len() && txs.drop_last()[j].id == x;
                assert(txs[j].id == x);
            } else {
                assert(kept[i] == txs.last());
                assert(txs[txs.len() - 1].id == x);
            }
        }
    }
}

/// Deletion keeps transaction ids unique and below the id counter.
proof fn lemma_kept_wf(txs: Seq<TransactionRow>, ids: Seq<i32>, next: int)
    requires
        tx_ids_unique(txs),
        tx_ids_below(txs, next),
    ensures
        tx_ids_unique(kept_txs(txs, ids)),
        tx_ids_below(kept_txs(txs, ids), next),
    decreases txs.len(),
{
    if txs.len() > 0 {
        assert(tx_ids_unique(txs.drop_last()));
        assert(tx_ids_below(txs.drop_last(), next));
        lemma_kept_wf(txs.drop_last(), ids, next);
        lemma_kept_ids(txs.drop_last(), ids);
        let rest = kept_txs(txs.drop_last(), ids);
        let kept = kept_txs(txs, ids);
        if !id_in(ids, txs.last().id) {
            assert(kept == rest.push(txs.last()));
            assert forall|x: int, y: int| 0 <= x < y < kept.len() implies kept[x].id != kept[y].id by {
                if y == kept.len() - 1 {
                    if kept[x].id == txs.last().id {
                        assert(tx_id_present(rest, txs.last().id));
                        let j = choose|j: int|
                            0 <= j < txs.drop_last().len() && txs.drop_last()[j].id
                                == txs.last().id;
                        assert(txs[j].id == txs[txs.len() - 1].id);
                    }
                }
            }
        }
    }
}

/// Per category, the kept rows sum to the old sum minus what was removed.
proof fn lemma_tx_sum_kept(txs: Seq<TransactionRow>, ids: Seq<i32>, cat_id: u128)
    ensures
        tx_sum(kept_txs(txs, ids), cat_id) == tx_sum(txs, cat_id) - removed_sum(txs, ids, cat_id),
    decreases txs.len(),
{
    if txs.len() > 0 {
        lemma_tx_sum_kept(txs.drop_last(), ids, cat_id);
        let rest = kept_txs(txs.drop_last(), ids);
        if !id_in(ids, txs.last().id) {
            assert(rest.push(txs.last()).drop_last() =~= rest);
            assert(rest.push(txs.last()).last() == txs.last());
        }
    }
}

/// One query predicate holds of a stored transaction.
pub open spec fn filter_matches(f: TransactionFilter, tx: TransactionRow) -> bool {
    match f {
        TransactionFilter::CategoryEq { id } => tx.category_id == Some(id),
        TransactionFilter::Cmp { cmp, val } => match cmp {
            Cmp::Lt => tx.amount < val,
            Cmp::Lte => tx.amount <= val,
            Cmp::Eq => tx.amount == val,
            Cmp::Gte => tx.amount >= val,
            Cmp::Gt => tx.amount > val,
        },
    }
}

/// The transaction belongs to the account and satisfies every filter.
pub open spec fn visible(tx: TransactionRow, account_id: u128, fs: Seq<TransactionFilter>) -> bool {
    tx.account_id == account_id && forall|j: int|
        0 <= j < fs.len() ==> filter_matches(#[trigger] fs[j], tx)
}

/// The account's transactions that pass all filters, in storage order.
pub open spec fn visible_txs(
    txs: Seq<TransactionRow>,
    account_id: u128,
    fs: Seq<TransactionFilter>,
) -> Seq<TransactionRow>
    decreases txs.len(),
{
    if txs.len() == 0 {
        Seq::empty()
    } else {
        let rest = visible_txs(txs.drop_last(), account_id, fs);
        if visible(txs.last(), account_id, fs) {
            rest.push(txs.last())
        } else {
            rest
        }
    }
}

/// The caller-facing shape of a stored transaction.
pub open spec fn model_of(tx: TransactionRow) -> TransactionModel {
    TransactionModel {
        id: tx.id,
        am: tx.amount,
        cat_id: tx.category_id,
        user_id: tx.user_id,
        timestamp_utc: tx.timestamp,
        notes: tx.notes,
    }
}

/// The filters of a query; an absent list means no filtering.
pub open spec fn req_filters(req: GetTransactionReqModel) -> Seq<TransactionFilter> {
    match req.filters {
        Some(v) => v@,
        None => Seq::empty(),
    }
}

/// The page size of a query; fifteen rows when unspecified.
pub open spec fn req_page_size(req: GetTransactionReqModel) -> u64 {
    match req.page_size {
        Some(s) => s,
        None => 15,
    }
}

/// The page index of a query; the first page when unspecified.
pub open spec fn req_page_idx(req: GetTransactionReqModel) -> u64 {
    match req.page_idx {
        Some(s) => s,
        None => 0,
    }
}

/// First row index of the requested page, clamped to the result length.
pub open spec fn page_start(req: GetTransactionReqModel, len: int) -> int {
    vstd::math::min(req_page_idx(req) * req_page_size(req), len)
}

/// One past the last row index of the requested page.
pub open spec fn page_end(req: GetTransactionReqModel, len: int) -> int {
    vstd::math::min(page_start(req, len) + req_page_size(req), len)
}

impl TransactionModel {
    /// A field-by-field copy, equal to `self`.
    pub fn duplicate(&self) -> (r: TransactionModel)
        ensures
            r == *self,
    {
        TransactionModel {
            id: self.id,
            am: self.am,
            cat_id: self.cat_id,
            user_id: self.user_id,
            timestamp_utc: self.timestamp_utc,
            notes: match &self.notes {
                Some(s) => Some(s.clone()),
                None => None,
            },
        }
    }
}

/// Whether the row belongs to the account and passes every filter.
fn row_visible(tx: &TransactionRow, account_id: u128, fs: &Vec<TransactionFilter>) -> (r: bool)
    ensures
        r == visible(*tx, account_id, fs@),
{
    if tx.account_id != account_id {
        return false;
    }
    let n = fs.len();
    let mut j: usize = 0;
    while j < n
        invariant
            n == fs@.len(),
            0 <= j <= n,
            tx.account_id == account_id,
            forall|l: int| 0 <= l < j ==> filter_matches(#[trigger] fs@[l], *tx),
        decreases n - j,
    {
        let ok = match fs[j] {
            TransactionFilter::CategoryEq { id } => match tx.category_id {
                Some(c) => c == id,
                None => false,
            },
            TransactionFilter::Cmp { cmp, val } => match cmp {
                Cmp::Lt => tx.amount < val,
                Cmp::Lte => tx.amount <= val,
                Cmp::Eq => tx.amount == val,
                Cmp::Gte => tx.amount >= val,
                Cmp::Gt => tx.amount > val,
            },
        };
        if !ok {
            return false;
        }
        j += 1;
    }
    true
}

/// Whether the request list contains this id.
fn contains_id(ids: &Vec<i32>, id: i32) -> (r: bool)
    ensures
        r == id_in(ids@, id),
{
    let n = ids.len();
    let mut k: usize = 0;
    while k < n
        invariant
            n == ids@.len(),
            0 <= k <= n,
            forall|j: int| 0 <= j < k ==> ids@[j] != id,
        decreases n - k,
    {
        if ids[k] == id {
            return true;
        }
        k += 1;
    }
    false
}

impl Store {
    /// Whether some stored transaction carries this id.
    fn is_tx_id_present(&self, id: i32) -> (r: bool)
        ensures
            r == tx_id_present(self.transactions@, id),
    {
        let n = self.transactions.len();
        let mut i: usize = 0;
        while i < n
            invariant
                n == self.transactions@.len(),
                0 <= i <= n,
                forall|j: int| 0 <= j < i ==> (#[trigger] self.transactions@[j]).id != id,
            decreases n - i,
        {
            if self.transactions[i].id == id {
                return true;
            }
            i += 1;
        }
        false
    }

    /// Returns one page of the account's transactions, after applying the
    /// query's filters as a conjunction, in storage (insertion) order.
    /// An empty result is not an error. Requires at least the `Read` role.
    pub fn get_transactions(&self, user_id: u128, get_req: GetTransactionReqModel) -> (r: Result<
        Vec<TransactionModel>,
        Error,
    >)
        ensures
            (r matches Err(Error::Auth(e)) ==> auth_error_matches(
                e,
                self.account_users@,
                get_req.account_id,
                user_id,
                Role::Read,
            )),
            (r is Ok) <==> authorized(
                self.account_users@,
                get_req.account_id,
                user_id,
                Role::Read,
            ),
            r matches Ok(v) ==> ({
                let vis = visible_txs(self.transactions@, get_req.account_id, req_filters(get_req));
                &&& v@.len() == page_end(get_req, vis.len() as int) - page_start(
                    get_req,
                    vis.len() as int,
                )
                &&& forall|k: int|
                    0 <= k < v@.len() ==> #[trigger] v@[k] == model_of(
                        vis[page_start(get_req, vis.len() as int) + k],
                    )
            }),
    {
        if let Err(e) = self.validate_user_account_role(user_id, get_req.account_id, Role::Read) {
            return Err(Error::Auth(e));
        }
        let account_id = get_req.account_id;
        let empty_fs: Vec<TransactionFilter> = Vec::new();
        let fs: &Vec<TransactionFilter> = match &get_req.filters {
            Some(v) => v,
            None => &empty_fs,
        };
        proof {
            assert(fs@ == req_filters(get_req));
        }

        // Collect every row of the account that passes all filters.
        let n = self.transactions.len();
        let mut matched: Vec<TransactionModel> = Vec::new();
        let mut i: usize = 0;
        proof {
            assert(self.transactions@.take(0) =~= Seq::<TransactionRow>::empty());
        }
        while i < n
            invariant
                n == self.transactions@.len(),
                0 <= i <= n,
                fs@ == req_filters(get_req),
                account_id == get_req.account_id,
                matched@.len() == visible_txs(
                    self.transactions@.take(i as int),
                    account_id,
                    fs@,
                ).len(),
                forall|k: int|
                    0 <= k < matched@.len() ==> #[trigger] matched@[k] == model_of(
                        visible_txs(self.transactions@.take(i as int), account_id, fs@)[k],
                    ),
            decreases n - i,
        {
            proof {
                assert(self.transactions@.take(i as int + 1).drop_last() =~= self.transactions@.take(
                    i as int,
                ));
                assert(self.transactions@.take(i as int + 1).last() == self.transactions@[i as int]);
            }
            let tx = &self.transactions[i];
            if row_visible(tx, account_id, fs) {
                matched.push(
                    TransactionModel {
                        id: tx.id,
                        am: tx.amount,
                        cat_id: tx.category_id,
                        user_id: tx.user_id,
                        timestamp_utc: tx.timestamp,
                        notes: match &tx.notes {
                            Some(s) => Some(s.clone()),
                            None => None,
                        },
                    },
                );
            }
            i += 1;
        }
        proof {
            assert(self.transactions@.take(n as int) =~= self.transactions@);
        }

        // Apply pagination to the filtered rows.
        let total = matched.len();
        let page_size = match get_req.page_size {
            Some(s) => s,
            None => 15,
        };
        let page_idx = match get_req.page_idx {
            Some(s) => s,
            None => 0,
        };
        let start: usize = match page_idx.checked_mul(page_size) {
            Some(s) => {
                if s >= total as u64 {
                    total
                } else {
                    s as usize
                }
            },
            None => total,
        };
        let end: usize = match (start as u64).checked_add(page_size) {
            Some(e) => {
                if e >= total as u64 {
                    total
                } else {
                    e as usize
                }
            },
            None => total,
        };
        let mut out: Vec<TransactionModel> = Vec::new();
        let mut k: usize = start;
        while k < end
            invariant
                start <= k <= end,
                end <= matched@.len(),
                out@.len() == k - start,
                forall|l: int| 0 <= l < out@.len() ==> #[trigger] out@[l] == matched@[start + l],
            decreases end - k,
        {
            out.push(matched[k].duplicate());
            k += 1;
        }
        Ok(out)
    }

    /// Records a batch of transactions and applies each category's
    /// accumulated total to its balance, atomically. `usd_amounts` holds
    /// one converted amount per line, as handed back by the conversion
    /// collaborator; lines already in USD keep their own amount. Requires
    /// at least the `Write` role.
    pub fn create_transactions(
        &mut self,
        user_id: u128,
        create_req: CreateTransactionsModel,
        usd_amounts: &Vec<i64>,
        now: i64,
    ) -> (r: Result<(), Error>)
        requires
            old(self).wf(),
            usd_amounts@.len() == create_req.txs@.len(),
            old(self).next_tx_id + create_req.txs@.len() <= i32::MAX,
            forall|i: int|
                0 <= i < old(self).categories@.len() ==> i64::MIN <= (#[trigger] old(
                    self,
                ).categories@[i]).balance + batch_delta(
                    create_req.txs@,
                    usd_amounts@,
                    old(self).categories@[i].id,
                ) <= i64::MAX,
        ensures
            final(self).wf(),
            final(self).users@ == old(self).users@,
            final(self).accounts@ == old(self).accounts@,
            final(self).account_users@ == old(self).account_users@,
            final(self).validations@ == old(self).validations@,
            r is Err ==> final(self).categories@ == old(self).categories@,
            r is Err ==> final(self).transactions@ == old(self).transactions@,
            r is Err ==> final(self).next_tx_id == old(self).next_tx_id,
            (r matches Err(Error::Auth(e)) ==> auth_error_matches(
                e,
                old(self).account_users@,
                create_req.account_id,
                user_id,
                Role::Write,
            )),
            (r matches Err(Error::Auth(_))) <==> !authorized(
                old(self).account_users@,
                create_req.account_id,
                user_id,
                Role::Write,
            ),
            (r is Ok) <==> authorized(
                old(self).account_users@,
                create_req.account_id,
                user_id,
                Role::Write,
            ),
            r is Ok ==> final(self).next_tx_id == old(self).next_tx_id + create_req.txs@.len(),
            r is Ok ==> final(self).transactions@.len() == old(self).transactions@.len()
                + create_req.txs@.len(),
            r is Ok ==> forall|j: int|
                0 <= j < old(self).transactions@.len() ==> final(self).transactions@[j] == old(
                    self,
                ).transactions@[j],
            r is Ok ==> forall|k: int|
                0 <= k < create_req.txs@.len() ==> ({
                    let row = final(self).transactions@[old(self).transactions@.len() + k];
                    &&& row.id == old(self).next_tx_id + k
                    &&& row.account_id == create_req.account_id
                    &&& row.user_id == Some(user_id)
                    &&& row.category_id == Some((#[trigger] create_req.txs@[k]).category_id)
                    &&& row.timestamp == now
                    &&& row.amount == eff_amount(create_req.txs@[k], usd_amounts@[k])
                    &&& row.notes == Some(create_req.txs@[k].notes)
                    &&& row.is_refill == false
                }),
            r is Ok ==> forall|i: int|
                0 <= i < old(self).categories@.len() ==> final(self).categories@[i] == (Category {
                    balance: (old(self).categories@[i].balance + batch_delta(
                        create_req.txs@,
                        usd_amounts@,
                        old(self).categories@[i].id,
                    )) as i64,
                    ..(#[trigger] old(self).categories@[i])
                }),
            r is Ok && balanced(*old(self)) ==> balanced(*final(self)),
    {
        if let Err(e) = self.validate_user_account_role(
            user_id,
            create_req.account_id,
            Role::Write,
        ) {
            return Err(Error::Auth(e));
        }
        let account_id = create_req.account_id;
        let lines = create_req.txs;
        let n = lines.len();
        let usd = String::from_str(USD_CURRENCY_TYPE);

        // Stage one row per line, with the effective (converted) amount.
        let mut staged: Vec<TransactionRow> = Vec::new();
        let mut effs: Vec<i64> = Vec::new();
        let mut k: usize = 0;
        while k < n
            invariant
                n == lines@.len(),
                usd_amounts@.len() == n,
                0 <= k <= n,
                usd@ == "USD"@,
                staged@.len() == k,
                effs@.len() == k,
                old(self).next_tx_id + n <= i32::MAX,
                1 <= old(self).next_tx_id,
                self == old(self),
                forall|j: int| 0 <= j < k ==> #[trigger] effs@[j] == eff_amount(lines@[j], usd_amounts@[j]),
                forall|j: int|
                    0 <= j < k ==> ({
                        let row = #[trigger] staged@[j];
                        &&& row.id == old(self).next_tx_id + j
                        &&& row.account_id == account_id
                        &&& row.user_id == Some(user_id)
                        &&& row.category_id == Some(lines@[j].category_id)
                        &&& row.timestamp == now
                        &&& row.amount == eff_amount(lines@[j], usd_amounts@[j])
                        &&& row.notes == Some(lines@[j].notes)
                        &&& row.is_refill == false
                    }),
            decreases n - k,
        {
            let line = &lines[k];
            let eff: i64 = if line.currency_type == usd {
                line.amount
            } else {
                usd_amounts[k]
            };
            effs.push(eff);
            staged.push(
                TransactionRow {
                    id: self.next_tx_id + (k as i32),
                    account_id,
                    user_id: Some(user_id),
                    category_id: Some(line.category_id),
                    timestamp: now,
                    amount: eff,
                    notes: Some(line.notes.clone()),
                    is_refill: false,
                },
            );
            k += 1;
        }

        // Apply each category's accumulated total to its balance.
        let ncats = self.categories.len();
        let mut i: usize = 0;
        while i < ncats
            invariant
                ncats == self.categories@.len(),
                0 <= i <= ncats,
                n == lines@.len(),
                usd_amounts@.len() == n,
                effs@.len() == n,
                old(self).wf(),
                self.users@ == old(self).users@,
                self.accounts@ == old(self).accounts@,
                self.account_users@ == old(self).account_users@,
                self.transactions@ == old(self).transactions@,
                self.validations@ == old(self).validations@,
                self.next_tx_id == old(self).next_tx_id,
                self.categories@.len() == old(self).categories@.len(),
                forall|j: int| 0 <= j < n ==> #[trigger] effs@[j] == eff_amount(lines@[j], usd_amounts@[j]),
                staged@.len() == n,
                old(self).next_tx_id + n <= i32::MAX,
                forall|j: int|
                    0 <= j < n ==> ({
                        let row = #[trigger] staged@[j];
                        &&& row.id == old(self).next_tx_id + j
                        &&& row.account_id == account_id
                        &&& row.user_id == Some(user_id)
                        &&& row.category_id == Some(lines@[j].category_id)
                        &&& row.timestamp == now
                        &&& row.amount == eff_amount(lines@[j], usd_amounts@[j])
                        &&& row.notes == Some(lines@[j].notes)
                        &&& row.is_refill == false
                    }),
                forall|j: int|
                    0 <= j < old(self).categories@.len() ==> i64::MIN <= (#[trigger] old(
                        self,
                    ).categories@[j]).balance + batch_delta(
                        lines@,
                        usd_amounts@,
                        old(self).categories@[j].id,
                    ) <= i64::MAX,
                forall|j: int|
                    0 <= j < i ==> self.categories@[j] == (Category {
                        balance: (old(self).categories@[j].balance + batch_delta(
                            lines@,
                            usd_amounts@,
                            old(self).categories@[j].id,
                        )) as i64,
                        ..(#[trigger] old(self).categories@[j])
                    }),
                forall|j: int|
                    i <= j < ncats ==> #[trigger] self.categories@[j] == old(self).categories@[j],
            decreases ncats - i,
        {
            let cat_id = self.categories[i].id;
            let mut acc: i128 = 0;
            let mut k: usize = 0;
            proof {
                assert(lines@.take(0) =~= Seq::<CreateTransactionModel>::empty());
                assert(usd_amounts@.take(0) =~= Seq::<i64>::empty());
            }
            while k < n
                invariant
                    0 <= k <= n,
                    n == lines@.len(),
                    usd_amounts@.len() == n,
                    effs@.len() == n,
                    forall|j: int| 0 <= j < n ==> #[trigger] effs@[j] == eff_amount(lines@[j], usd_amounts@[j]),
                    acc as int == batch_delta(
                        lines@.take(k as int),
                        usd_amounts@.take(k as int),
                        cat_id,
                    ),
                    -(k as int) * i64_mag() <= acc as int <= (k as int) * i64_mag(),
                decreases n - k,
            {
                proof {
                    assert(lines@.take(k as int + 1).drop_last() =~= lines@.take(k as int));
                    assert(usd_amounts@.take(k as int + 1).drop_last() =~= usd_amounts@.take(
                        k as int,
                    ));
                    assert(lines@.take(k as int + 1).last() == lines@[k as int]);
                    assert(usd_amounts@.take(k as int + 1).last() == usd_amounts@[k as int]);
                    assert((k as int) * i64_mag() + i64_mag() == (k as int + 1) * i64_mag())
                        by (nonlinear_arith);
                    vstd::arithmetic::mul::lemma_mul_inequality(
                        k as int + 1,
                        0x1_0000_0000_0000_0000,
                        i64_mag(),
                    );
                }
                if lines[k].category_id == cat_id {
                    acc = acc + (effs[k] as i128);
                }
                k += 1;
            }
            proof {
                assert(lines@.take(n as int) =~= lines@);
                assert(usd_amounts@.take(n as int) =~= usd_amounts@);
            }
            let bal = self.categories[i].balance;
            let nb128: i128 = (bal as i128) + acc;
            let nb: i64 = nb128 as i64;
            self.categories[i].balance = nb;
            i += 1;
        }

        // Insert the staged rows and advance the id counter.
        let ghost staged_view = staged@;
        let ghost pre_txs = self.transactions@;
        self.transactions.append(&mut staged);
        self.next_tx_id = self.next_tx_id + (n as i32);
        proof {
            let post = self.transactions@;
            assert(post == pre_txs + staged_view);
            assert(pre_txs == old(self).transactions@);
            assert forall|j: int|
                0 <= j < self.categories@.len() implies ({
                let c = #[trigger] self.categories@[j];
                let oc = old(self).categories@[j];
                c == (Category {
                    balance: (oc.balance + batch_delta(lines@, usd_amounts@, oc.id)) as i64,
                    ..oc
                })
            }) by {
                let oc = old(self).categories@[j];
                assert(self.categories@[j] == (Category {
                    balance: (oc.balance + batch_delta(lines@, usd_amounts@, oc.id)) as i64,
                    ..oc
                }));
            }
            assert forall|x: int, y: int| 0 <= x < y < post.len() implies post[x].id != post[y].id by {
                assert(tx_ids_unique(old(self).transactions@));
                assert(tx_ids_below(old(self).transactions@, old(self).next_tx_id as int));
                if x < pre_txs.len() {
                    assert(post[x] == old(self).transactions@[x]);
                } else {
                    assert(post[x] == staged_view[x - pre_txs.len()]);
                }
                if y < pre_txs.len() {
                    assert(post[y] == old(self).transactions@[y]);
                } else {
                    assert(post[y] == staged_view[y - pre_txs.len()]);
                }
            }
            assert forall|x: int| 0 <= x < post.len() implies post[x].id < self.next_tx_id by {
                assert(tx_ids_below(old(self).transactions@, old(self).next_tx_id as int));
                if x < pre_txs.len() {
                    assert(post[x] == old(self).transactions@[x]);
                } else {
                    assert(post[x] == staged_view[x - pre_txs.len()]);
                }
            }
            if balanced(*old(self)) {
                assert forall|j: int|
                    0 <= j < self.categories@.len() implies (#[trigger] self.categories@[
                j]).balance as int == tx_sum(self.transactions@, self.categories@[j].id) by {
                    let oc = old(self).categories@[j];
                    let cid = oc.id;
                    assert(oc.balance as int == tx_sum(old(self).transactions@, cid));
                    lemma_tx_sum_concat(pre_txs, staged_view, cid);
                    lemma_staged_sum(staged_view, lines@, usd_amounts@, cid);
                    assert(self.categories@[j].id == cid);
                    assert(self.categories@[j].balance as int == oc.balance + batch_delta(
                        lines@,
                        usd_amounts@,
                        cid,
                    ));
                }
            }
        }
        Ok(())
    }

    /// Deletes a batch of transactions and subtracts their per-category
    /// sums from the balances, atomically. Fails — with nothing written —
    /// when any requested id does not exist or belongs to another account.
    /// Requires at least the `Write` role.
    pub fn delete_transactions(&mut self, user_id: u128, delete_req: DeleteTransactionsModel) -> (r:
        Result<(), Error>)
        requires
            old(self).wf(),
            forall|i: int|
                0 <= i < old(self).categories@.len() ==> i64::MIN <= (#[trigger] old(
                    self,
                ).categories@[i]).balance - removed_sum(
                    old(self).transactions@,
                    delete_req.tx_ids@,
                    old(self).categories@[i].id,
                ) <= i64::MAX,
        ensures
            final(self).wf(),
            final(self).users@ == old(self).users@,
            final(self).accounts@ == old(self).accounts@,
            final(self).account_users@ == old(self).account_users@,
            final(self).validations@ == old(self).validations@,
            final(self).next_tx_id == old(self).next_tx_id,
            r is Err ==> final(self).categories@ == old(self).categories@,
            r is Err ==> final(self).transactions@ == old(self).transactions@,
            (r matches Err(Error::Auth(e)) ==> auth_error_matches(
                e,
                old(self).account_users@,
                delete_req.account_id,
                user_id,
                Role::Write,
            )),
            (r matches Err(Error::Auth(_))) <==> !authorized(
                old(self).account_users@,
                delete_req.account_id,
                user_id,
                Role::Write,
            ),
            (r is Ok) <==> (authorized(
                old(self).account_users@,
                delete_req.account_id,
                user_id,
                Role::Write,
            ) && (forall|i: int|
                0 <= i < old(self).transactions@.len() ==> !mismatch_at(
                    old(self).transactions@,
                    delete_req.tx_ids@,
                    delete_req.account_id,
                    i,
                )) && (forall|k: int|
                0 <= k < delete_req.tx_ids@.len() ==> tx_id_present(
                    old(self).transactions@,
                    #[trigger] delete_req.tx_ids@[k],
                ))),
            (r matches Err(Error::AccountDoesNotOwnTransaction(a, t)) ==> a
                == delete_req.account_id),
            (r matches Err(Error::AccountDoesNotOwnTransaction(a, t)) ==> ((exists|i: int|
                0 <= i < old(self).transactions@.len() && #[trigger] mismatch_at(
                    old(self).transactions@,
                    delete_req.tx_ids@,
                    delete_req.account_id,
                    i,
                ) && t == old(self).transactions@[i].id && (forall|j: int|
                    0 <= j < i ==> !mismatch_at(
                        old(self).transactions@,
                        delete_req.tx_ids@,
                        delete_req.account_id,
                        j,
                    ))) || ((forall|i: int|
                0 <= i < old(self).transactions@.len() ==> !mismatch_at(
                    old(self).transactions@,
                    delete_req.tx_ids@,
                    delete_req.account_id,
                    i,
                )) && (exists|k: int|
                0 <= k < delete_req.tx_ids@.len() && !tx_id_present(
                    old(self).transactions@,
                    #[trigger] delete_req.tx_ids@[k],
                ) && t == delete_req.tx_ids@[k] && (forall|l: int|
                    0 <= l < k ==> tx_id_present(
                        old(self).transactions@,
                        #[trigger] delete_req.tx_ids@[l],
                    )))))),
            r is Ok ==> final(self).transactions@ == kept_txs(
                old(self).transactions@,
                delete_req.tx_ids@,
            ),
            r is Ok ==> final(self).categories@.len() == old(self).categories@.len(),
            r is Ok ==> forall|i: int|
                0 <= i < old(self).categories@.len() ==> final(self).categories@[i] == (Category {
                    balance: (old(self).categories@[i].balance - removed_sum(
                        old(self).transactions@,
                        delete_req.tx_ids@,
                        old(self).categories@[i].id,
                    )) as i64,
                    ..(#[trigger] old(self).categories@[i])
                }),
            r is Ok && balanced(*old(self)) ==> balanced(*final(self)),
    {
        if let Err(e) = self.validate_user_account_role(
            user_id,
            delete_req.account_id,
            Role::Write,
        ) {
            return Err(Error::Auth(e));
        }
        let aid = delete_req.account_id;
        let ids = &delete_req.tx_ids;

        // Any named transaction owned by another account fails the batch.
        let ntx = self.transactions.len();
        let mut i: usize = 0;
        while i < ntx
            invariant
                ntx == self.transactions@.len(),
                0 <= i <= ntx,
                self == old(self),
                old(self).wf(),
                aid == delete_req.account_id,
                ids == &delete_req.tx_ids,
                authorized(old(self).account_users@, aid, user_id, Role::Write),
                forall|j: int| 0 <= j < i ==> !mismatch_at(self.transactions@, ids@, aid, j),
            decreases ntx - i,
        {
            let tx = &self.transactions[i];
            if tx.account_id != aid && contains_id(ids, tx.id) {
                proof {
                    assert(mismatch_at(
                        old(self).transactions@,
                        delete_req.tx_ids@,
                        delete_req.account_id,
                        i as int,
                    ));
                }
                return Err(Error::AccountDoesNotOwnTransaction(aid, tx.id));
            }
            i += 1;
        }

        // Any requested id that matches no transaction at all fails it too.
        let nids = ids.len();
        let mut k: usize = 0;
        while k < nids
            invariant
                nids == ids@.len(),
                0 <= k <= nids,
                self == old(self),
                old(self).wf(),
                aid == delete_req.account_id,
                ids == &delete_req.tx_ids,
                authorized(old(self).account_users@, aid, user_id, Role::Write),
                forall|j: int|
                    0 <= j < self.transactions@.len() ==> !mismatch_at(
                        self.transactions@,
                        ids@,
                        aid,
                        j,
                    ),
                forall|l: int|
                    0 <= l < k ==> tx_id_present(self.transactions@, #[trigger] ids@[l]),
            decreases nids - k,
        {
            if !self.is_tx_id_present(ids[k]) {
                proof {
                    assert(!tx_id_present(
                        old(self).transactions@,
                        delete_req.tx_ids@[k as int],
                    ));
                }
                return Err(Error::AccountDoesNotOwnTransaction(aid, ids[k]));
            }
            k += 1;
        }

        // Subtract each category's removed total from its balance.
        let ncats = self.categories.len();
        let mut i: usize = 0;
        while i < ncats
            invariant
                ncats == self.categories@.len(),
                0 <= i <= ncats,
                old(self).wf(),
                aid == delete_req.account_id,
                ids == &delete_req.tx_ids,
                self.users@ == old(self).users@,
                self.accounts@ == old(self).accounts@,
                self.account_users@ == old(self).account_users@,
                self.transactions@ == old(self).transactions@,
                self.validations@ == old(self).validations@,
                self.next_tx_id == old(self).next_tx_id,
                self.categories@.len() == old(self).categories@.len(),
                authorized(old(self).account_users@, aid, user_id, Role::Write),
                forall|j: int|
                    0 <= j < self.transactions@.len() ==> !mismatch_at(
                        self.transactions@,
                        ids@,
                        aid,
                        j,
                    ),
                forall|l: int|
                    0 <= l < ids@.len() ==> tx_id_present(self.transactions@, #[trigger] ids@[l]),
                forall|j: int|
                    0 <= j < old(self).categories@.len() ==> i64::MIN <= (#[trigger] old(
                        self,
                    ).categories@[j]).balance - removed_sum(
                        old(self).transactions@,
                        ids@,
                        old(self).categories@[j].id,
                    ) <= i64::MAX,
                forall|j: int|
                    0 <= j < i ==> self.categories@[j] == (Category {
                        balance: (old(self).categories@[j].balance - removed_sum(
                            old(self).transactions@,
                            ids@,
                            old(self).categories@[j].id,
                        )) as i64,
                        ..(#[trigger] old(self).categories@[j])
                    }),
                forall|j: int|
                    i <= j < ncats ==> #[trigger] self.categories@[j] == old(self).categories@[j],
            decreases ncats - i,
        {
            let cat_id = self.categories[i].id;
            let ntx = self.transactions.len();
            let mut acc: i128 = 0;
            let mut j: usize = 0;
            proof {
                assert(self.transactions@.take(0) =~= Seq::<TransactionRow>::empty());
            }
            while j < ntx
                invariant
                    ntx == self.transactions@.len(),
                    0 <= j <= ntx,
                    ids == &delete_req.tx_ids,
                    acc as int == removed_sum(self.transactions@.take(j as int), ids@, cat_id),
                    -(j as int) * i64_mag() <= acc as int <= (j as int) * i64_mag(),
                decreases ntx - j,
            {
                proof {
                    assert(self.transactions@.take(j as int + 1).drop_last()
                        =~= self.transactions@.take(j as int));
                    assert(self.transactions@.take(j as int + 1).last()
                        == self.transactions@[j as int]);
                    assert((j as int) * i64_mag() + i64_mag() == (j as int + 1) * i64_mag())
                        by (nonlinear_arith);
                    vstd::arithmetic::mul::lemma_mul_inequality(
                        j as int + 1,
                        0x1_0000_0000_0000_0000,
                        i64_mag(),
                    );
                }
                let tx = &self.transactions[j];
                let is_cat = match tx.category_id {
                    Some(c) => c == cat_id,
                    None => false,
                };
                if is_cat && contains_id(ids, tx.id) {
                    acc = acc + (tx.amount as i128);
                }
                j += 1;
            }
            proof {
                assert(self.transactions@.take(ntx as int) =~= self.transactions@);
            }
            let bal = self.categories[i].balance;
            let nb128: i128 = (bal as i128) - acc;
            let nb: i64 = nb128 as i64;
            self.categories[i].balance = nb;
            i += 1;
        }

        // Drop the requested rows, preserving the order of the rest.
        let ghost pre_txs = self.transactions@;
        let ntx = self.transactions.len();
        let mut kept: Vec<TransactionRow> = Vec::new();
        let mut j: usize = 0;
        proof {
            assert(self.transactions@.take(0) =~= Seq::<TransactionRow>::empty());
        }
        while j < ntx
            invariant
                ntx == self.transactions@.len(),
                0 <= j <= ntx,
                ids == &delete_req.tx_ids,
                pre_txs == self.transactions@,
                kept@ == kept_txs(self.transactions@.take(j as int), ids@),
            decreases ntx - j,
        {
            proof {
                assert(self.transactions@.take(j as int + 1).drop_last() =~= self.transactions@.take(
                    j as int,
                ));
                assert(self.transactions@.take(j as int + 1).last() == self.transactions@[j as int]);
            }
            let tx = &self.transactions[j];
            if !contains_id(ids, tx.id) {
                kept.push(self.transactions[j].duplicate());
            }
            j += 1;
        }
        proof {
            assert(self.transactions@.take(ntx as int) =~= self.transactions@);
        }
        self.transactions = kept;
        proof {
            lemma_kept_wf(pre_txs, ids@, old(self).next_tx_id as int);
            assert forall|x: int|
                0 <= x < self.categories@.len() implies ({
                let c = #[trigger] self.categories@[x];
                let oc = old(self).categories@[x];
                c == (Category {
                    balance: (oc.balance - removed_sum(pre_txs, ids@, oc.id)) as i64,
                    ..oc
                })
            }) by {
                let oc = old(self).categories@[x];
                assert(self.categories@[x] == (Category {
                    balance: (oc.balance - removed_sum(pre_txs, ids@, oc.id)) as i64,
                    ..oc
                }));
            }
            if balanced(*old(self)) {
                assert forall|x: int|
                    0 <= x < self.categories@.len() implies (#[trigger] self.categories@[
                x]).balance as int == tx_sum(self.transactions@, self.categories@[x].id) by {
                    let oc = old(self).categories@[x];
                    let cid = oc.id;
                    assert(oc.balance as int == tx_sum(pre_txs, cid));
                    lemma_tx_sum_kept(pre_txs, ids@, cid);
                    assert(self.categories@[x].id == cid);
                }
            }
        }
        Ok(())
    }
}

} // verus!
