//! The category service: CRUD over an account's budget categories with
//! strict display ordering and case-insensitive unique naming.
//!
//! Within an account, category names are unique under trimmed, lower-cased
//! comparison, and `order` values of a well-kept account form a permutation
//! of `1..=N`; the contracts here state how every operation maintains both.

use vstd::prelude::*;

use crate::norm::{lower_of, lower_string, trim_of, trim_string};
use crate::roles::{AuthError, Role};
use crate::store::{authorized, auth_error_matches, fresh_id, Category, Store};

verus! {

/// A category as returned to callers.
#[derive(Debug)]
pub struct GetCategoryModel {
    pub id: u128,
    pub name: String,
    pub balance: i64,
    pub refill_val: i64,
}

/// Request to create a category.
pub struct CreateCategoryModel {
    pub account_id: u128,
    pub name: String,
    pub refill_val: i64,
    pub init_bal: i64,
}

/// Sparse update of a category: absent fields are left untouched.
pub struct UpdateCategoryModel {
    pub account_id: u128,
    pub id: u128,
    pub new_bal: Option<i64>,
    pub new_name: Option<String>,
    pub new_refill_val: Option<i64>,
}

/// Request to delete a category.
pub struct DeleteCategoryModel {
    pub account_id: u128,
    pub cat_id: u128,
}

/// Request to reassign display orders: `(category_id, new_order)` pairs.
pub struct OrderCategoriesModel {
    pub account_id: u128,
    pub orders: Vec<(u128, i32)>,
}

/// Failure of a category operation.
#[derive(Debug)]
pub enum Error {
    /// The caller failed the authorization gate.
    Auth(AuthError),
    /// The (trimmed) name is already taken in the account.
    NameReuse(String),
    /// No category with this id exists in the account.
    CategoryNotFound(u128),
    /// The same category id appears twice in a reorder request.
    OrderDuplicateId(u128),
    /// The same target order appears twice in a reorder request.
    OrderDuplicateIndex(i32),
    /// A freshly generated identifier collided with an existing row; the
    /// operation was rolled back.
    IdInUse(u128),
}

/// Number of categories belonging to `account_id`.
pub open spec fn acct_count(cats: Seq<Category>, account_id: u128) -> int
    decreases cats.len(),
{
    if cats.len() == 0 {
        0
    } else {
        acct_count(cats.drop_last(), account_id) + if cats.last().account_id == account_id {
            1int
        } else {
            0int
        }
    }
}

/// Greatest `order` value in the account, `0` when the account has no
/// categories.
pub open spec fn max_order(cats: Seq<Category>, account_id: u128) -> int
    decreases cats.len(),
{
    if cats.len() == 0 {
        0
    } else {
        let m = max_order(cats.drop_last(), account_id);
        if cats.last().account_id == account_id && cats.last().order > m {
            cats.last().order as int
        } else {
            m
        }
    }
}

/// The account's `order` values are a permutation of `1..=N` where `N` is
/// the number of its categories: each lies in range and no two collide.
pub open spec fn orders_dense(cats: Seq<Category>, account_id: u128) -> bool {
    &&& forall|i: int|
        0 <= i < cats.len() && cats[i].account_id == account_id ==> 1 <= #[trigger] cats[i].order
            <= acct_count(cats, account_id)
    &&& forall|i: int, j: int|
        0 <= i < j < cats.len() && cats[i].account_id == account_id && cats[j].account_id
            == account_id ==> cats[i].order != cats[j].order
}

/// Some category of the account carries this name key.
pub open spec fn name_key_taken(cats: Seq<Category>, account_id: u128, key: Seq<char>) -> bool {
    exists|i: int|
        0 <= i < cats.len() && cats[i].account_id == account_id && cats[i].name_key@ == key
}

/// Some category (of any account) carries this id.
pub open spec fn cat_id_taken(cats: Seq<Category>, id: u128) -> bool {
    exists|i: int| 0 <= i < cats.len() && cats[i].id == id
}

proof fn lemma_max_order_nonneg(cats: Seq<Category>, account_id: u128)
    ensures
        max_order(cats, account_id) >= 0,
    decreases cats.len(),
{
    if cats.len() > 0 {
        lemma_max_order_nonneg(cats.drop_last(), account_id);
    }
}

proof fn lemma_max_order_ge(cats: Seq<Category>, account_id: u128, i: int)
    requires
        0 <= i < cats.len(),
        cats[i].account_id == account_id,
    ensures
        max_order(cats, account_id) >= cats[i].order,
    decreases cats.len(),
{
    if i < cats.len() - 1 {
        lemma_max_order_ge(cats.drop_last(), account_id, i);
    }
}

proof fn lemma_max_order_member(cats: Seq<Category>, account_id: u128)
    requires
        max_order(cats, account_id) != 0,
    ensures
        exists|i: int|
            0 <= i < cats.len() && cats[i].account_id == account_id && cats[i].order == max_order(
                cats,
                account_id,
            ),
    decreases cats.len(),
{
    if cats.len() > 0 {
        let m = max_order(cats.drop_last(), account_id);
        if cats.last().account_id == account_id && cats.last().order > m {
            assert(cats[cats.len() - 1].order == max_order(cats, account_id));
        } else {
            lemma_max_order_member(cats.drop_last(), account_id);
            let i = choose|i: int|
                0 <= i < cats.drop_last().len() && cats.drop_last()[i].account_id == account_id
                    && cats.drop_last()[i].order == m;
            assert(cats[i].account_id == account_id && cats[i].order == max_order(
                cats,
                account_id,
            ));
        }
    }
}

proof fn lemma_acct_count_nonneg(cats: Seq<Category>, account_id: u128)
    ensures
        acct_count(cats, account_id) >= 0,
    decreases cats.len(),
{
    if cats.len() > 0 {
        lemma_acct_count_nonneg(cats.drop_last(), account_id);
    }
}

/// `acct_count` only looks at the `account_id` column.
proof fn lemma_acct_count_congruent(a: Seq<Category>, b: Seq<Category>, account_id: u128)
    requires
        a.len() == b.len(),
        forall|i: int| 0 <= i < a.len() ==> a[i].account_id == #[trigger] b[i].account_id,
    ensures
        acct_count(a, account_id) == acct_count(b, account_id),
    decreases a.len(),
{
    if a.len() > 0 {
        lemma_acct_count_congruent(a.drop_last(), b.drop_last(), account_id);
    }
}

/// Removing one row lowers `acct_count` by one exactly when the row was
/// the account's.
proof fn lemma_acct_count_remove(a: Seq<Category>, k: int, account_id: u128)
    requires
        0 <= k < a.len(),
    ensures
        acct_count(a.remove(k), account_id) == acct_count(a, account_id) - (
        if a[k].account_id == account_id {
            1int
        } else {
            0int
        }),
    decreases a.len(),
{
    if k == a.len() - 1 {
        assert(a.remove(k) =~= a.drop_last());
    } else {
        assert(a.remove(k).drop_last() =~= a.drop_last().remove(k));
        assert(a.remove(k).last() == a.last());
        lemma_acct_count_remove(a.drop_last(), k, account_id);
    }
}

/// The set of `order` values held by the account's categories.
pub open spec fn order_set(cats: Seq<Category>, account_id: u128) -> Set<int>
    decreases cats.len(),
{
    if cats.len() == 0 {
        Set::empty()
    } else {
        let rest = order_set(cats.drop_last(), account_id);
        if cats.last().account_id == account_id {
            rest.insert(cats.last().order as int)
        } else {
            rest
        }
    }
}

proof fn lemma_order_set_member(cats: Seq<Category>, account_id: u128)
    ensures
        order_set(cats, account_id).finite(),
        forall|o: int|
            #[trigger] order_set(cats, account_id).contains(o) <==> exists|i: int|
                0 <= i < cats.len() && (#[trigger] cats[i]).account_id == account_id
                    && cats[i].order == o,
    decreases cats.len(),
{
    if cats.len() > 0 {
        lemma_order_set_member(cats.drop_last(), account_id);
        assert forall|o: int| #[trigger] order_set(cats, account_id).contains(o) implies exists|
            i: int,
        |
            0 <= i < cats.len() && (#[trigger] cats[i]).account_id == account_id && cats[i].order
                == o by {
            if order_set(cats.drop_last(), account_id).contains(o) {
                let i = choose|i: int|
                    0 <= i < cats.drop_last().len() && (#[trigger] cats.drop_last()[
                        i
                    ]).account_id == account_id && cats.drop_last()[i].order == o;
                assert(cats[i].account_id == account_id && cats[i].order == o);
            } else {
                assert(cats[cats.len() - 1].account_id == account_id && cats[cats.len() - 1].order
                    == o);
            }
        }
        assert forall|o: int|
            (exists|i: int|
                0 <= i < cats.len() && (#[trigger] cats[i]).account_id == account_id
                    && cats[i].order == o) implies #[trigger] order_set(
            cats,
            account_id,
        ).contains(o) by {
            let i = choose|i: int|
                0 <= i < cats.len() && (#[trigger] cats[i]).account_id == account_id
                    && cats[i].order == o;
            if i < cats.len() - 1 {
                assert(cats.drop_last()[i].account_id == account_id && cats.drop_last()[i].order
                    == o);
            }
        }
    }
}

/// With pairwise-distinct orders, the account holds as many order values
/// as categories.
proof fn lemma_order_set_len(cats: Seq<Category>, account_id: u128)
    requires
        forall|i: int, j: int|
            0 <= i < j < cats.len() && cats[i].account_id == account_id && cats[j].account_id
                == account_id ==> cats[i].order != cats[j].order,
    ensures
        order_set(cats, account_id).len() == acct_count(cats, account_id),
    decreases cats.len(),
{
    lemma_order_set_member(cats, account_id);
    if cats.len() > 0 {
        lemma_order_set_len(cats.drop_last(), account_id);
        if cats.last().account_id == account_id {
            lemma_order_set_member(cats.drop_last(), account_id);
            if order_set(cats.drop_last(), account_id).contains(cats.last().order as int) {
                let i = choose|i: int|
                    0 <= i < cats.drop_last().len() && (#[trigger] cats.drop_last()[
                        i
                    ]).account_id == account_id && cats.drop_last()[i].order
                        == cats.last().order as int;
                assert(cats[i].order == cats[cats.len() - 1].order);
                assert(false);
            }
        }
    }
}

/// No category of the account means no order value above zero.
proof fn lemma_count_zero_max_zero(cats: Seq<Category>, account_id: u128)
    requires
        acct_count(cats, account_id) == 0,
    ensures
        max_order(cats, account_id) == 0,
    decreases cats.len(),
{
    if cats.len() > 0 {
        lemma_acct_count_nonneg(cats.drop_last(), account_id);
        lemma_count_zero_max_zero(cats.drop_last(), account_id);
    }
}

/// Pigeonhole: when the account's `N` orders are distinct values of
/// `1..=N`, the greatest of them is exactly `N`.
proof fn lemma_max_order_eq_count(cats: Seq<Category>, account_id: u128)
    requires
        orders_dense(cats, account_id),
    ensures
        max_order(cats, account_id) == acct_count(cats, account_id),
{
    let n = acct_count(cats, account_id);
    let m = max_order(cats, account_id);
    lemma_acct_count_nonneg(cats, account_id);
    lemma_max_order_nonneg(cats, account_id);
    if n == 0 {
        lemma_count_zero_max_zero(cats, account_id);
    } else {
        if m != 0 {
            lemma_max_order_member(cats, account_id);
            let w = choose|i: int|
                0 <= i < cats.len() && cats[i].account_id == account_id && cats[i].order == m;
            assert(m <= n);
        }
        let orders = order_set(cats, account_id);
        lemma_order_set_member(cats, account_id);
        lemma_order_set_len(cats, account_id);
        assert forall|o: int| orders.contains(o) implies vstd::set_lib::set_int_range(
            1,
            m + 1,
        ).contains(o) by {
            let i = choose|i: int|
                0 <= i < cats.len() && (#[trigger] cats[i]).account_id == account_id
                    && cats[i].order == o;
            lemma_max_order_ge(cats, account_id, i);
        }
        vstd::set_lib::lemma_int_range(1, m + 1);
        vstd::set_lib::lemma_len_subset(orders, vstd::set_lib::set_int_range(1, m + 1));
        assert(n <= m);
    }
}

/// A reorder entry repeats a target order seen in an earlier entry.
pub open spec fn dup_ord_at(os: Seq<(u128, i32)>, k: int) -> bool {
    exists|j: int| 0 <= j < k && os[j].1 == os[k].1
}

/// A reorder entry repeats a category id seen in an earlier entry.
pub open spec fn dup_id_at(os: Seq<(u128, i32)>, k: int) -> bool {
    exists|j: int| 0 <= j < k && os[j].0 == os[k].0
}

/// A reorder entry names a category id absent from the account.
pub open spec fn entry_missing(cats: Seq<Category>, account_id: u128, os: Seq<(u128, i32)>, k: int) -> bool {
    !exists|i: int|
        0 <= i < cats.len() && #[trigger] cats[i].id == os[k].0 && cats[i].account_id == account_id
}

/// The entry at `k` is the one a left-to-right validation rejects.
pub open spec fn entry_bad(cats: Seq<Category>, account_id: u128, os: Seq<(u128, i32)>, k: int) -> bool {
    dup_ord_at(os, k) || dup_id_at(os, k) || entry_missing(cats, account_id, os, k)
}

/// A left-to-right validation of the reorder list stops at an entry
/// repeating an earlier target order.
pub open spec fn rejects_dup_ord(cats: Seq<Category>, account_id: u128, os: Seq<(u128, i32)>) -> bool {
    exists|k: int|
        0 <= k < os.len() && #[trigger] dup_ord_at(os, k) && (forall|j: int|
            0 <= j < k ==> !entry_bad(cats, account_id, os, j))
}

/// A left-to-right validation of the reorder list stops at an entry
/// repeating an earlier category id.
pub open spec fn rejects_dup_id(cats: Seq<Category>, account_id: u128, os: Seq<(u128, i32)>) -> bool {
    exists|k: int|
        0 <= k < os.len() && !dup_ord_at(os, k) && #[trigger] dup_id_at(os, k) && (forall|j: int|
            0 <= j < k ==> !entry_bad(cats, account_id, os, j))
}

/// A left-to-right validation of the reorder list stops at an entry whose
/// id is absent from the account.
pub open spec fn rejects_missing(cats: Seq<Category>, account_id: u128, os: Seq<(u128, i32)>) -> bool {
    exists|k: int|
        0 <= k < os.len() && !dup_ord_at(os, k) && !dup_id_at(os, k) && #[trigger] entry_missing(
            cats,
            account_id,
            os,
            k,
        ) && (forall|j: int| 0 <= j < k ==> !entry_bad(cats, account_id, os, j))
}

/// At most one of the three rejection outcomes can hold: each fixes the
/// first bad entry and the checks tried on it, in order.
proof fn lemma_rejects_exclusive(cats: Seq<Category>, account_id: u128, os: Seq<(u128, i32)>)
    ensures
        !(rejects_dup_ord(cats, account_id, os) && rejects_dup_id(cats, account_id, os)),
        !(rejects_dup_ord(cats, account_id, os) && rejects_missing(cats, account_id, os)),
        !(rejects_dup_id(cats, account_id, os) && rejects_missing(cats, account_id, os)),
{
    if rejects_dup_ord(cats, account_id, os) && rejects_dup_id(cats, account_id, os) {
        let k1 = choose|k: int|
            0 <= k < os.len() && #[trigger] dup_ord_at(os, k) && (forall|j: int|
                0 <= j < k ==> !entry_bad(cats, account_id, os, j));
        let k2 = choose|k: int|
            0 <= k < os.len() && !dup_ord_at(os, k) && #[trigger] dup_id_at(os, k) && (forall|
                j: int,
            | 0 <= j < k ==> !entry_bad(cats, account_id, os, j));
        assert(entry_bad(cats, account_id, os, k1));
        assert(entry_bad(cats, account_id, os, k2));
        assert(k1 != k2);
    }
    if rejects_dup_ord(cats, account_id, os) && rejects_missing(cats, account_id, os) {
        let k1 = choose|k: int|
            0 <= k < os.len() && #[trigger] dup_ord_at(os, k) && (forall|j: int|
                0 <= j < k ==> !entry_bad(cats, account_id, os, j));
        let k2 = choose|k: int|
            0 <= k < os.len() && !dup_ord_at(os, k) && !dup_id_at(os, k)
                && #[trigger] entry_missing(cats, account_id, os, k) && (forall|j: int|
                0 <= j < k ==> !entry_bad(cats, account_id, os, j));
        assert(entry_bad(cats, account_id, os, k1));
        assert(entry_bad(cats, account_id, os, k2));
        assert(k1 != k2);
    }
    if rejects_dup_id(cats, account_id, os) && rejects_missing(cats, account_id, os) {
        let k1 = choose|k: int|
            0 <= k < os.len() && !dup_ord_at(os, k) && #[trigger] dup_id_at(os, k) && (forall|
                j: int,
            | 0 <= j < k ==> !entry_bad(cats, account_id, os, j));
        let k2 = choose|k: int|
            0 <= k < os.len() && !dup_ord_at(os, k) && !dup_id_at(os, k)
                && #[trigger] entry_missing(cats, account_id, os, k) && (forall|j: int|
                0 <= j < k ==> !entry_bad(cats, account_id, os, j));
        assert(entry_bad(cats, account_id, os, k1));
        assert(entry_bad(cats, account_id, os, k2));
        assert(k1 != k2);
    }
}

/// A list without a bad entry is rejected in none of the three ways.
proof fn lemma_rejects_imply_bad(cats: Seq<Category>, account_id: u128, os: Seq<(u128, i32)>)
    requires
        forall|k: int| 0 <= k < os.len() ==> !entry_bad(cats, account_id, os, k),
    ensures
        !rejects_dup_ord(cats, account_id, os),
        !rejects_dup_id(cats, account_id, os),
        !rejects_missing(cats, account_id, os),
{
    if rejects_dup_ord(cats, account_id, os) {
        let k = choose|k: int|
            0 <= k < os.len() && #[trigger] dup_ord_at(os, k) && (forall|j: int|
                0 <= j < k ==> !entry_bad(cats, account_id, os, j));
        assert(entry_bad(cats, account_id, os, k));
    }
    if rejects_dup_id(cats, account_id, os) {
        let k = choose|k: int|
            0 <= k < os.len() && !dup_ord_at(os, k) && #[trigger] dup_id_at(os, k) && (forall|
                j: int,
            | 0 <= j < k ==> !entry_bad(cats, account_id, os, j));
        assert(entry_bad(cats, account_id, os, k));
    }
    if rejects_missing(cats, account_id, os) {
        let k = choose|k: int|
            0 <= k < os.len() && !dup_ord_at(os, k) && !dup_id_at(os, k)
                && #[trigger] entry_missing(cats, account_id, os, k) && (forall|j: int|
                0 <= j < k ==> !entry_bad(cats, account_id, os, j));
        assert(entry_bad(cats, account_id, os, k));
    }
}

/// A reorder request that reassigns the whole account: one entry per
/// category of the account, with target orders drawn from `1..=N`.
pub open spec fn complete_reorder(cats: Seq<Category>, account_id: u128, os: Seq<(u128, i32)>) -> bool {
    &&& os.len() == acct_count(cats, account_id)
    &&& forall|i: int|
        0 <= i < cats.len() && #[trigger] cats[i].account_id == account_id ==> exists|k: int|
            0 <= k < os.len() && #[trigger] os[k].0 == cats[i].id
    &&& forall|k: int| 0 <= k < os.len() ==> 1 <= #[trigger] os[k].1 <= os.len()
}

/// The gap-closing shift applied after a deletion at order `d`: every
/// category of the account strictly after `d` moves down one position.
pub open spec fn shifted_down(c: Category, account_id: u128, d: int) -> Category {
    if c.account_id == account_id && c.order > d {
        Category { order: (c.order - 1) as i32, ..c }
    } else {
        c
    }
}

/// Scans the entries before `k` for one with the same target order.
fn ord_repeated_before(os: &Vec<(u128, i32)>, k: usize) -> (r: Option<usize>)
    requires
        k < os@.len(),
    ensures
        r is Some ==> dup_ord_at(os@, k as int),
        r is None ==> !dup_ord_at(os@, k as int),
{
    let mut j: usize = 0;
    while j < k
        invariant
            0 <= j <= k < os@.len(),
            forall|l: int| 0 <= l < j ==> (#[trigger] os@[l]).1 != os@[k as int].1,
        decreases k - j,
    {
        if os[j].1 == os[k].1 {
            return Some(j);
        }
        j += 1;
    }
    None
}

/// Scans the entries before `k` for one with the same category id.
fn id_repeated_before(os: &Vec<(u128, i32)>, k: usize) -> (r: Option<usize>)
    requires
        k < os@.len(),
    ensures
        r is Some ==> dup_id_at(os@, k as int),
        r is None ==> !dup_id_at(os@, k as int),
{
    let mut j: usize = 0;
    while j < k
        invariant
            0 <= j <= k < os@.len(),
            forall|l: int| 0 <= l < j ==> (#[trigger] os@[l]).0 != os@[k as int].0,
        decreases k - j,
    {
        if os[j].0 == os[k].0 {
            return Some(j);
        }
        j += 1;
    }
    None
}

impl Store {
    /// True when some category of the account stores this name key.
    fn is_name_key_taken(&self, account_id: u128, key: &String) -> (r: bool)
        ensures
            r == name_key_taken(self.categories@, account_id, key@),
    {
        let n = self.categories.len();
        let mut i: usize = 0;
        while i < n
            invariant
                n == self.categories@.len(),
                0 <= i <= n,
                forall|j: int|
                    0 <= j < i ==> !(#[trigger] self.categories@[j].account_id == account_id
                        && self.categories@[j].name_key@ == key@),
            decreases n - i,
        {
            let c = &self.categories[i];
            if c.account_id == account_id && c.name_key == *key {
                return true;
            }
            i += 1;
        }
        false
    }

    /// True when some category (of any account) carries this id.
    fn is_cat_id_taken(&self, id: u128) -> (r: bool)
        ensures
            r == cat_id_taken(self.categories@, id),
    {
        let n = self.categories.len();
        let mut i: usize = 0;
        while i < n
            invariant
                n == self.categories@.len(),
                0 <= i <= n,
                forall|j: int| 0 <= j < i ==> #[trigger] self.categories@[j].id != id,
            decreases n - i,
        {
            if self.categories[i].id == id {
                return true;
            }
            i += 1;
        }
        false
    }

    /// Index of the category with this id inside the account, if any.
    fn find_cat_index(&self, account_id: u128, cat_id: u128) -> (r: Option<usize>)
        ensures
            r matches Some(i) ==> (0 <= i < self.categories@.len() && self.categories@[
                i as int
            ].id == cat_id && self.categories@[i as int].account_id == account_id),
            r is None ==> forall|j: int|
                0 <= j < self.categories@.len() ==> !(#[trigger] self.categories@[j].id == cat_id
                    && self.categories@[j].account_id == account_id),
    {
        let n = self.categories.len();
        let mut i: usize = 0;
        while i < n
            invariant
                n == self.categories@.len(),
                0 <= i <= n,
                forall|j: int|
                    0 <= j < i ==> !(#[trigger] self.categories@[j].id == cat_id
                        && self.categories@[j].account_id == account_id),
            decreases n - i,
        {
            let c = &self.categories[i];
            if c.id == cat_id && c.account_id == account_id {
                return Some(i);
            }
            i += 1;
        }
        None
    }

    /// Greatest `order` value currently stored for the account (`0` when
    /// it has no categories).
    fn max_order_of(&self, account_id: u128) -> (r: i32)
        ensures
            r as int == max_order(self.categories@, account_id),
            r >= 0,
    {
        let n = self.categories.len();
        let mut i: usize = 0;
        let mut m: i32 = 0;
        proof {
            assert(self.categories@.take(0) =~= Seq::<Category>::empty());
        }
        while i < n
            invariant
                n == self.categories@.len(),
                0 <= i <= n,
                m >= 0,
                m as int == max_order(self.categories@.take(i as int), account_id),
            decreases n - i,
        {
            let c = &self.categories[i];
            proof {
                assert(self.categories@.take(i as int + 1).drop_last() =~= self.categories@.take(
                    i as int,
                ));
                assert(self.categories@.take(i as int + 1).last() == self.categories@[i as int]);
            }
            if c.account_id == account_id && c.order > m {
                m = c.order;
            }
            i += 1;
        }
        proof {
            assert(self.categories@.take(n as int) =~= self.categories@);
        }
        m
    }

    /// Returns the account's categories ordered by their display order,
    /// ascending. Requires at least the `Read` role.
    pub fn get_cats(&self, user_id: u128, account_id: u128) -> (r: Result<
        Vec<GetCategoryModel>,
        Error,
    >)
        ensures
            (r matches Err(Error::Auth(e)) ==> auth_error_matches(
                e,
                self.account_users@,
                account_id,
                user_id,
                Role::Read,
            )),
            (r is Ok) <==> authorized(self.account_users@, account_id, user_id, Role::Read),
            r matches Ok(v) ==> ({
                let cats = self.categories@;
                &&& v@.len() == acct_count(cats, account_id)
                &&& exists|m: Seq<int>|
                    #![trigger m.len()]
                    m.len() == v@.len() && (forall|k: int|
                        0 <= k < m.len() ==> (0 <= #[trigger] m[k] < cats.len()
                            && cats[m[k]].account_id == account_id && v@[k].id == cats[m[k]].id
                            && v@[k].name@ == cats[m[k]].name@ && v@[k].balance == cats[
                            m[k]
                        ].balance && v@[k].refill_val == cats[m[k]].refill_value)) && (forall|
                        k1: int,
                        k2: int,
                    |
                        0 <= k1 < k2 < m.len() ==> m[k1] != m[k2]) && (forall|k1: int, k2: int|
                        0 <= k1 < k2 < m.len() ==> cats[m[k1]].order <= cats[m[k2]].order)
            }),
    {
        if let Err(e) = self.validate_user_account_role(user_id, account_id, Role::Read) {
            return Err(Error::Auth(e));
        }
        let cats_n = self.categories.len();
        let mut work: Vec<(i32, usize)> = Vec::new();
        let mut i: usize = 0;
        proof {
            assert(self.categories@.take(0) =~= Seq::<Category>::empty());
        }
        while i < cats_n
            invariant
                cats_n == self.categories@.len(),
                0 <= i <= cats_n,
                work@.len() == acct_count(self.categories@.take(i as int), account_id),
                forall|k: int|
                    0 <= k < work@.len() ==> (0 <= (#[trigger] work@[k]).1 < cats_n
                        && self.categories@[work@[k].1 as int].account_id == account_id && work@[
                        k
                    ].0 == self.categories@[work@[k].1 as int].order),
                forall|k1: int, k2: int|
                    0 <= k1 < k2 < work@.len() ==> (#[trigger] work@[k1]).1 != (
                    #[trigger] work@[k2]).1,
                forall|k: int| 0 <= k < work@.len() ==> (#[trigger] work@[k]).1 < i,
            decreases cats_n - i,
        {
            proof {
                assert(self.categories@.take(i as int + 1).drop_last() =~= self.categories@.take(
                    i as int,
                ));
                assert(self.categories@.take(i as int + 1).last() == self.categories@[i as int]);
            }
            let c = &self.categories[i];
            if c.account_id == account_id {
                work.push((c.order, i));
            }
            i += 1;
        }
        proof {
            assert(self.categories@.take(cats_n as int) =~= self.categories@);
        }
        let ghost total = work@.len() as int;

        // Repeatedly extract the minimum order into the result.
        let mut out: Vec<GetCategoryModel> = Vec::new();
        let ghost mut out_idx: Seq<int> = Seq::empty();
        while work.len() > 0
            invariant
                out@.len() == out_idx.len(),
                out@.len() + work@.len() == total,
                total == acct_count(self.categories@, account_id),
                forall|k: int|
                    0 <= k < work@.len() ==> (0 <= (#[trigger] work@[k]).1
                        < self.categories@.len() && self.categories@[
                        work@[k].1 as int
                    ].account_id == account_id && work@[k].0 == self.categories@[
                        work@[k].1 as int
                    ].order),
                forall|k1: int, k2: int|
                    0 <= k1 < k2 < work@.len() ==> (#[trigger] work@[k1]).1 != (
                    #[trigger] work@[k2]).1,
                forall|k: int|
                    0 <= k < out_idx.len() ==> (0 <= #[trigger] out_idx[k]
                        < self.categories@.len() && self.categories@[out_idx[k]].account_id
                        == account_id && out@[k].id == self.categories@[out_idx[k]].id
                        && out@[k].name@ == self.categories@[out_idx[k]].name@ && out@[k].balance
                        == self.categories@[out_idx[k]].balance && out@[k].refill_val
                        == self.categories@[out_idx[k]].refill_value),
                forall|k1: int, k2: int|
                    0 <= k1 < k2 < out_idx.len() ==> #[trigger] out_idx[k1] != #[trigger] out_idx[k2],
                forall|k1: int, k2: int|
                    0 <= k1 < out_idx.len() && 0 <= k2 < work@.len() ==> #[trigger] out_idx[k1]
                        != (#[trigger] work@[k2]).1 as int,
                forall|k1: int, k2: int|
                    0 <= k1 < k2 < out_idx.len() ==> self.categories@[#[trigger] out_idx[
                        k1
                    ]].order <= self.categories@[#[trigger] out_idx[k2]].order,
                forall|k1: int, k2: int|
                    0 <= k1 < out_idx.len() && 0 <= k2 < work@.len() ==> self.categories@[
                        #[trigger] out_idx[k1]
                    ].order <= (#[trigger] work@[k2]).0,
            decreases work@.len(),
        {
            // Find the remaining entry with the smallest order.
            let wn = work.len();
            let mut m: usize = 0;
            let mut j: usize = 1;
            while j < wn
                invariant
                    wn == work@.len(),
                    0 <= m < wn,
                    m < j <= wn || (j <= wn && m == 0),
                    forall|k: int| 0 <= k < j ==> (#[trigger] work@[k]).0 >= work@[m as int].0,
                decreases wn - j,
            {
                if work[j].0 < work[m].0 {
                    m = j;
                }
                j += 1;
            }
            let picked = work[m];
            let c = &self.categories[picked.1];
            out.push(
                GetCategoryModel {
                    id: c.id,
                    name: c.name.clone(),
                    balance: c.balance,
                    refill_val: c.refill_value,
                },
            );
            proof {
                out_idx = out_idx.push(picked.1 as int);
            }
            let ghost pre_work = work@;
            work.swap_remove(m);
            proof {
                assert(work@ =~= pre_work.update(m as int, pre_work.last()).drop_last());
                assert forall|k: int|
                    0 <= k < work@.len() implies (0 <= (#[trigger] work@[k]).1
                        < self.categories@.len() && self.categories@[
                    work@[k].1 as int].account_id == account_id && work@[k].0 == self.categories@[
                    work@[k].1 as int].order) by {
                    if k == m as int {
                        assert(work@[k] == pre_work.last());
                    } else {
                        assert(work@[k] == pre_work[k]);
                    }
                }
            }
        }
        proof {
            assert(work@.len() == 0);
            assert(out@.len() == total);
        }
        Ok(out)
    }

    /// Creates a category in the account under the given identifier: the
    /// trimmed name, the given starting balance and refill value, and the
    /// next free display order `max(existing) + 1`. Requires the caller to
    /// hold at least the `Write` role. [`Store::create_cat`] generates the
    /// identifier; this function pins the outcome for any value of it.
    pub fn create_cat_with_id(
        &mut self,
        user_id: u128,
        create_cat: CreateCategoryModel,
        new_id: u128,
    ) -> (r: Result<GetCategoryModel, Error>)
        requires
            old(self).wf(),
            max_order(old(self).categories@, create_cat.account_id) < i32::MAX,
        ensures
            (r matches Err(Error::IdInUse(id)) && id == new_id) <==> (authorized(
                old(self).account_users@,
                create_cat.account_id,
                user_id,
                Role::Write,
            ) && !name_key_taken(
                old(self).categories@,
                create_cat.account_id,
                lower_of(trim_of(create_cat.name@)),
            ) && cat_id_taken(old(self).categories@, new_id)),
            (r is Ok) <==> (authorized(
                old(self).account_users@,
                create_cat.account_id,
                user_id,
                Role::Write,
            ) && !name_key_taken(
                old(self).categories@,
                create_cat.account_id,
                lower_of(trim_of(create_cat.name@)),
            ) && !cat_id_taken(old(self).categories@, new_id)),
            r matches Ok(m) ==> m.id == new_id,
            final(self).wf(),
            final(self).users@ == old(self).users@,
            final(self).accounts@ == old(self).accounts@,
            final(self).account_users@ == old(self).account_users@,
            final(self).transactions@ == old(self).transactions@,
            final(self).validations@ == old(self).validations@,
            final(self).next_tx_id == old(self).next_tx_id,
            r is Err ==> final(self).categories@ == old(self).categories@,
            (r matches Err(Error::Auth(e)) ==> auth_error_matches(
                e,
                old(self).account_users@,
                create_cat.account_id,
                user_id,
                Role::Write,
            )),
            (r matches Err(Error::Auth(_))) <==> !authorized(
                old(self).account_users@,
                create_cat.account_id,
                user_id,
                Role::Write,
            ),
            (r matches Err(Error::NameReuse(n)) && n@ == trim_of(create_cat.name@)) <==> (
            authorized(old(self).account_users@, create_cat.account_id, user_id, Role::Write)
                && name_key_taken(
                old(self).categories@,
                create_cat.account_id,
                lower_of(trim_of(create_cat.name@)),
            )),
            (r matches Err(Error::IdInUse(id)) ==> cat_id_taken(old(self).categories@, id)),
            authorized(old(self).account_users@, create_cat.account_id, user_id, Role::Write)
                && !name_key_taken(
                old(self).categories@,
                create_cat.account_id,
                lower_of(trim_of(create_cat.name@)),
            ) ==> (r is Ok || r matches Err(Error::IdInUse(_))),
            r matches Ok(m) ==> ({
                let c = final(self).categories@.last();
                &&& final(self).categories@.len() == old(self).categories@.len() + 1
                &&& forall|i: int|
                    0 <= i < old(self).categories@.len() ==> final(self).categories@[i] == old(
                        self,
                    ).categories@[i]
                &&& c.id == m.id
                &&& !cat_id_taken(old(self).categories@, c.id)
                &&& c.account_id == create_cat.account_id
                &&& c.name@ == trim_of(create_cat.name@)
                &&& m.name@ == c.name@
                &&& c.name_key@ == lower_of(trim_of(create_cat.name@))
                &&& c.balance == create_cat.init_bal
                &&& m.balance == create_cat.init_bal
                &&& c.refill_value == create_cat.refill_val
                &&& m.refill_val == create_cat.refill_val
                &&& c.order == max_order(old(self).categories@, create_cat.account_id) + 1
                &&& (orders_dense(old(self).categories@, create_cat.account_id) ==> c.order
                    == acct_count(old(self).categories@, create_cat.account_id) + 1)
                &&& orders_dense(old(self).categories@, create_cat.account_id) ==> orders_dense(
                    final(self).categories@,
                    create_cat.account_id,
                )
            }),
    {
        if let Err(e) = self.validate_user_account_role(
            user_id,
            create_cat.account_id,
            Role::Write,
        ) {
            return Err(Error::Auth(e));
        }
        let fmt_cat_name = trim_string(&create_cat.name);
        let key = lower_string(&fmt_cat_name);
        if self.is_name_key_taken(create_cat.account_id, &key) {
            return Err(Error::NameReuse(fmt_cat_name));
        }
        if self.is_cat_id_taken(new_id) {
            return Err(Error::IdInUse(new_id));
        }
        let max_ord = self.max_order_of(create_cat.account_id);
        let new_cat = Category {
            id: new_id,
            account_id: create_cat.account_id,
            name: fmt_cat_name,
            name_key: key,
            balance: create_cat.init_bal,
            refill_value: create_cat.refill_val,
            order: max_ord + 1,
        };
        let result = GetCategoryModel {
            id: new_id,
            name: new_cat.name.clone(),
            balance: create_cat.init_bal,
            refill_val: create_cat.refill_val,
        };
        let ghost pre = self.categories@;
        self.categories.push(new_cat);
        proof {
            let post = self.categories@;
            let aid = create_cat.account_id;
            assert(post.drop_last() =~= pre);
            assert forall|i: int, j: int|
                0 <= i < j < post.len() implies post[i].id != post[j].id by {
                if j == post.len() - 1 {
                    assert(!cat_id_taken(pre, post[j].id));
                }
            }
            assert forall|i: int, j: int|
                0 <= i < j < post.len() && post[i].account_id == post[j].account_id implies post[
                i
            ].name_key@ != post[j].name_key@ by {
                if j == post.len() - 1 && post[i].account_id == aid {
                    assert(!name_key_taken(pre, aid, post[j].name_key@));
                }
            }
            if orders_dense(pre, aid) {
                lemma_max_order_eq_count(pre, aid);
                lemma_max_order_nonneg(pre, aid);
                lemma_acct_count_nonneg(pre, aid);
                let mo = max_order(pre, aid);
                if mo != 0 {
                    lemma_max_order_member(pre, aid);
                    let w = choose|i: int|
                        0 <= i < pre.len() && pre[i].account_id == aid && pre[i].order == mo;
                    assert(1 <= mo <= acct_count(pre, aid));
                }
                assert(acct_count(post, aid) == acct_count(pre, aid) + 1);
                assert forall|i: int|
                    0 <= i < post.len() && post[i].account_id == aid implies 1 <= #[trigger] post[
                    i
                ].order <= acct_count(post, aid) by {}
                assert forall|i: int, j: int|
                    0 <= i < j < post.len() && post[i].account_id == aid && post[j].account_id
                        == aid implies post[i].order != post[j].order by {
                    if j == post.len() - 1 {
                        lemma_max_order_ge(pre, aid, i);
                    }
                }
            }
        }
        Ok(result)
    }

    /// Creates a category in the account with a fresh identifier; see
    /// [`Store::create_cat_with_id`], which states the outcome for the
    /// identifier the generator happened to return.
    pub fn create_cat(&mut self, user_id: u128, create_cat: CreateCategoryModel) -> (r: Result<
        GetCategoryModel,
        Error,
    >)
        requires
            old(self).wf(),
            max_order(old(self).categories@, create_cat.account_id) < i32::MAX,
        ensures
            final(self).wf(),
            final(self).users@ == old(self).users@,
            final(self).accounts@ == old(self).accounts@,
            final(self).account_users@ == old(self).account_users@,
            final(self).transactions@ == old(self).transactions@,
            final(self).validations@ == old(self).validations@,
            final(self).next_tx_id == old(self).next_tx_id,
            r is Err ==> final(self).categories@ == old(self).categories@,
            (r matches Err(Error::Auth(e)) ==> auth_error_matches(
                e,
                old(self).account_users@,
                create_cat.account_id,
                user_id,
                Role::Write,
            )),
            (r matches Err(Error::Auth(_))) <==> !authorized(
                old(self).account_users@,
                create_cat.account_id,
                user_id,
                Role::Write,
            ),
            (r matches Err(Error::NameReuse(n)) && n@ == trim_of(create_cat.name@)) <==> (
            authorized(old(self).account_users@, create_cat.account_id, user_id, Role::Write)
                && name_key_taken(
                old(self).categories@,
                create_cat.account_id,
                lower_of(trim_of(create_cat.name@)),
            )),
            (r matches Err(Error::IdInUse(id)) ==> cat_id_taken(old(self).categories@, id)),
            authorized(old(self).account_users@, create_cat.account_id, user_id, Role::Write)
                && !name_key_taken(
                old(self).categories@,
                create_cat.account_id,
                lower_of(trim_of(create_cat.name@)),
            ) ==> (r is Ok || r matches Err(Error::IdInUse(_))),
            r matches Ok(m) ==> ({
                let c = final(self).categories@.last();
                &&& final(self).categories@.len() == old(self).categories@.len() + 1
                &&& forall|i: int|
                    0 <= i < old(self).categories@.len() ==> final(self).categories@[i] == old(
                        self,
                    ).categories@[i]
                &&& c.id == m.id
                &&& !cat_id_taken(old(self).categories@, c.id)
                &&& c.account_id == create_cat.account_id
                &&& c.name@ == trim_of(create_cat.name@)
                &&& m.name@ == c.name@
                &&& c.name_key@ == lower_of(trim_of(create_cat.name@))
                &&& c.balance == create_cat.init_bal
                &&& m.balance == create_cat.init_bal
                &&& c.refill_value == create_cat.refill_val
                &&& m.refill_val == create_cat.refill_val
                &&& c.order == max_order(old(self).categories@, create_cat.account_id) + 1
                &&& (orders_dense(old(self).categories@, create_cat.account_id) ==> c.order
                    == acct_count(old(self).categories@, create_cat.account_id) + 1)
                &&& orders_dense(old(self).categories@, create_cat.account_id) ==> orders_dense(
                    final(self).categories@,
                    create_cat.account_id,
                )
            }),
    {
        let new_id = fresh_id();
        self.create_cat_with_id(user_id, create_cat, new_id)
    }

    /// Sparse update of one category of the account: each present field
    /// replaces the stored one, absent fields are left untouched. A new
    /// name is trimmed and checked for uniqueness exactly as in
    /// [`Store::create_cat`]. Requires at least the `Write` role.
    pub fn update_cat(&mut self, user_id: u128, cat: UpdateCategoryModel) -> (r: Result<
        GetCategoryModel,
        Error,
    >)
        requires
            old(self).wf(),
        ensures
            final(self).wf(),
            final(self).users@ == old(self).users@,
            final(self).accounts@ == old(self).accounts@,
            final(self).account_users@ == old(self).account_users@,
            final(self).transactions@ == old(self).transactions@,
            final(self).validations@ == old(self).validations@,
            final(self).next_tx_id == old(self).next_tx_id,
            r is Err ==> final(self).categories@ == old(self).categories@,
            (r matches Err(Error::Auth(e)) ==> auth_error_matches(
                e,
                old(self).account_users@,
                cat.account_id,
                user_id,
                Role::Write,
            )),
            (r matches Err(Error::Auth(_))) <==> !authorized(
                old(self).account_users@,
                cat.account_id,
                user_id,
                Role::Write,
            ),
            (r matches Err(Error::NameReuse(n)) && (cat.new_name matches Some(nn) && n@ == trim_of(
                nn@,
            ))) <==> (authorized(old(self).account_users@, cat.account_id, user_id, Role::Write)
                && (cat.new_name matches Some(nn) && name_key_taken(
                old(self).categories@,
                cat.account_id,
                lower_of(trim_of(nn@)),
            ))),
            (r matches Err(Error::CategoryNotFound(id)) && id == cat.id) <==> (authorized(
                old(self).account_users@,
                cat.account_id,
                user_id,
                Role::Write,
            ) && !(cat.new_name matches Some(nn) && name_key_taken(
                old(self).categories@,
                cat.account_id,
                lower_of(trim_of(nn@)),
            )) && !(exists|i: int|
                0 <= i < old(self).categories@.len() && #[trigger] old(self).categories@[i].id
                    == cat.id && old(self).categories@[i].account_id == cat.account_id)),
            (r is Ok) <==> (authorized(
                old(self).account_users@,
                cat.account_id,
                user_id,
                Role::Write,
            ) && !(cat.new_name matches Some(nn) && name_key_taken(
                old(self).categories@,
                cat.account_id,
                lower_of(trim_of(nn@)),
            )) && (exists|i: int|
                0 <= i < old(self).categories@.len() && #[trigger] old(self).categories@[i].id
                    == cat.id && old(self).categories@[i].account_id == cat.account_id)),
            r matches Ok(m) ==> ({
                &&& final(self).categories@.len() == old(self).categories@.len()
                &&& forall|i: int|
                    0 <= i < old(self).categories@.len() && !(#[trigger] old(
                        self,
                    ).categories@[i].id == cat.id && old(self).categories@[i].account_id
                        == cat.account_id) ==> final(self).categories@[i] == old(
                        self,
                    ).categories@[i]
                &&& exists|i: int|
                    0 <= i < old(self).categories@.len() && #[trigger] old(self).categories@[i].id
                        == cat.id && old(self).categories@[i].account_id == cat.account_id
                &&& forall|i: int|
                    0 <= i < old(self).categories@.len() && #[trigger] old(self).categories@[i].id
                        == cat.id && old(self).categories@[i].account_id == cat.account_id ==> ({
                        let c = final(self).categories@[i];
                        let o = old(self).categories@[i];
                        &&& c.id == o.id
                        &&& c.account_id == o.account_id
                        &&& c.order == o.order
                        &&& (cat.new_name matches Some(nn) ==> c.name@ == trim_of(nn@)
                            && c.name_key@ == lower_of(trim_of(nn@)))
                        &&& (cat.new_name is None ==> c.name == o.name && c.name_key == o.name_key)
                        &&& (cat.new_bal matches Some(b) ==> c.balance == b)
                        &&& (cat.new_bal is None ==> c.balance == o.balance)
                        &&& (cat.new_refill_val matches Some(v) ==> c.refill_value == v)
                        &&& (cat.new_refill_val is None ==> c.refill_value == o.refill_value)
                        &&& m.id == c.id
                        &&& m.name@ == c.name@
                        &&& m.balance == c.balance
                        &&& m.refill_val == c.refill_value
                    })
            }),
    {
        if let Err(e) = self.validate_user_account_role(user_id, cat.account_id, Role::Write) {
            return Err(Error::Auth(e));
        }
        let fmt_cat_name: Option<(String, String)> = match &cat.new_name {
            Some(unfmt) => {
                let res = trim_string(unfmt);
                let key = lower_string(&res);
                if self.is_name_key_taken(cat.account_id, &key) {
                    return Err(Error::NameReuse(res));
                }
                Some((res, key))
            },
            None => None,
        };
        let k = match self.find_cat_index(cat.account_id, cat.id) {
            Some(k) => k,
            None => {
                return Err(Error::CategoryNotFound(cat.id));
            },
        };
        let ex = &self.categories[k];
        let (name, name_key) = match fmt_cat_name {
            Some(p) => p,
            None => (ex.name.clone(), ex.name_key.clone()),
        };
        let updated = Category {
            id: ex.id,
            account_id: ex.account_id,
            name,
            name_key,
            balance: match cat.new_bal {
                Some(b) => b,
                None => ex.balance,
            },
            refill_value: match cat.new_refill_val {
                Some(v) => v,
                None => ex.refill_value,
            },
            order: ex.order,
        };
        let result = GetCategoryModel {
            id: updated.id,
            name: updated.name.clone(),
            balance: updated.balance,
            refill_val: updated.refill_value,
        };
        let ghost pre = self.categories@;
        self.categories[k] = updated;
        proof {
            let post = self.categories@;
            assert forall|i: int, j: int|
                0 <= i < j < post.len() && post[i].account_id == post[j].account_id implies post[
            i].name_key@ != post[j].name_key@ by {
                if cat.new_name is Some {
                    if i == k as int {
                        assert(!name_key_taken(pre, cat.account_id, post[i].name_key@));
                    }
                    if j == k as int {
                        assert(!name_key_taken(pre, cat.account_id, post[j].name_key@));
                    }
                }
            }
        }
        Ok(result)
    }

    /// Deletes one category of the account and closes the gap it leaves:
    /// every category of the account ordered strictly after it moves down
    /// one position. Requires at least the `Write` role.
    pub fn delete_cat(&mut self, user_id: u128, delete_cat: DeleteCategoryModel) -> (r: Result<
        (),
        Error,
    >)
        requires
            old(self).wf(),
        ensures
            final(self).wf(),
            final(self).users@ == old(self).users@,
            final(self).accounts@ == old(self).accounts@,
            final(self).account_users@ == old(self).account_users@,
            final(self).transactions@ == old(self).transactions@,
            final(self).validations@ == old(self).validations@,
            final(self).next_tx_id == old(self).next_tx_id,
            r is Err ==> final(self).categories@ == old(self).categories@,
            (r matches Err(Error::Auth(e)) ==> auth_error_matches(
                e,
                old(self).account_users@,
                delete_cat.account_id,
                user_id,
                Role::Write,
            )),
            (r matches Err(Error::Auth(_))) <==> !authorized(
                old(self).account_users@,
                delete_cat.account_id,
                user_id,
                Role::Write,
            ),
            (r matches Err(Error::CategoryNotFound(id)) && id == delete_cat.cat_id) <==> (
            authorized(old(self).account_users@, delete_cat.account_id, user_id, Role::Write)
                && !(exists|i: int|
                0 <= i < old(self).categories@.len() && #[trigger] old(self).categories@[i].id
                    == delete_cat.cat_id && old(self).categories@[i].account_id
                    == delete_cat.account_id)),
            (r is Ok) <==> (authorized(
                old(self).account_users@,
                delete_cat.account_id,
                user_id,
                Role::Write,
            ) && (exists|i: int|
                0 <= i < old(self).categories@.len() && #[trigger] old(self).categories@[i].id
                    == delete_cat.cat_id && old(self).categories@[i].account_id
                    == delete_cat.account_id)),
            r is Ok ==> ({
                &&& final(self).categories@.len() == old(self).categories@.len() - 1
                &&& exists|k: int|
                    0 <= k < old(self).categories@.len() && #[trigger] old(self).categories@[k].id
                        == delete_cat.cat_id && old(self).categories@[k].account_id
                        == delete_cat.account_id
                &&& forall|k: int|
                    0 <= k < old(self).categories@.len() && #[trigger] old(self).categories@[k].id
                        == delete_cat.cat_id && old(self).categories@[k].account_id
                        == delete_cat.account_id ==> ({
                        let d = old(self).categories@[k].order as int;
                        let aid = delete_cat.account_id;
                        &&& forall|i: int|
                            0 <= i < k ==> final(self).categories@[i] == shifted_down(
                                #[trigger] old(self).categories@[i],
                                aid,
                                d,
                            )
                        &&& forall|i: int|
                            k < i < old(self).categories@.len() ==> final(self).categories@[i - 1]
                                == shifted_down(#[trigger] old(self).categories@[i], aid, d)
                        &&& (orders_dense(old(self).categories@, aid) ==> orders_dense(
                            final(self).categories@,
                            aid,
                        ))
                    })
            }),
    {
        if let Err(e) = self.validate_user_account_role(
            user_id,
            delete_cat.account_id,
            Role::Write,
        ) {
            return Err(Error::Auth(e));
        }
        let k = match self.find_cat_index(delete_cat.account_id, delete_cat.cat_id) {
            Some(k) => k,
            None => {
                return Err(Error::CategoryNotFound(delete_cat.cat_id));
            },
        };
        let d = self.categories[k].order;
        let aid = delete_cat.account_id;
        let ghost pre = self.categories@;
        let n = self.categories.len();
        let mut i: usize = 0;
        while i < n
            invariant
                n == self.categories@.len(),
                n == pre.len(),
                0 <= i <= n,
                0 <= k < n,
                d == pre[k as int].order,
                self.users@ == old(self).users@,
                self.accounts@ == old(self).accounts@,
                self.account_users@ == old(self).account_users@,
                self.transactions@ == old(self).transactions@,
                self.validations@ == old(self).validations@,
                self.next_tx_id == old(self).next_tx_id,
                forall|j: int|
                    0 <= j < i ==> self.categories@[j] == shifted_down(
                        #[trigger] pre[j],
                        aid,
                        d as int,
                    ),
                forall|j: int| i <= j < n ==> self.categories@[j] == #[trigger] pre[j],
            decreases n - i,
        {
            let c = &self.categories[i];
            if c.account_id == aid && c.order > d {
                let dec = self.categories[i].order - 1;
                self.categories[i].order = dec;
            }
            i += 1;
        }
        self.categories.remove(k);
        proof {
            let post = self.categories@;
            let shifted = Seq::new(pre.len(), |j: int| shifted_down(pre[j], aid, d as int));
            assert(post =~= shifted.remove(k as int));
            assert forall|x: int, y: int|
                0 <= x < y < post.len() implies post[x].id != post[y].id by {
                let ox = if x < k as int {
                    x
                } else {
                    x + 1
                };
                let oy = if y < k as int {
                    y
                } else {
                    y + 1
                };
                assert(post[x] == shifted_down(pre[ox], aid, d as int));
                assert(post[y] == shifted_down(pre[oy], aid, d as int));
            }
            assert forall|x: int, y: int|
                0 <= x < y < post.len() && post[x].account_id == post[y].account_id implies post[
            x].name_key@ != post[y].name_key@ by {
                let ox = if x < k as int {
                    x
                } else {
                    x + 1
                };
                let oy = if y < k as int {
                    y
                } else {
                    y + 1
                };
                assert(post[x] == shifted_down(pre[ox], aid, d as int));
                assert(post[y] == shifted_down(pre[oy], aid, d as int));
            }
            if orders_dense(pre, aid) {
                lemma_acct_count_congruent(shifted, pre, aid);
                lemma_acct_count_remove(shifted, k as int, aid);
                let nn = acct_count(post, aid);
                assert(nn == acct_count(pre, aid) - 1);
                assert forall|x: int|
                    0 <= x < post.len() && post[x].account_id == aid implies 1 <= #[trigger] post[
                x].order <= nn by {
                    let ox = if x < k as int {
                        x
                    } else {
                        x + 1
                    };
                    assert(post[x] == shifted_down(pre[ox], aid, d as int));
                    assert(pre[ox].account_id == aid);
                    assert(1 <= pre[ox].order <= acct_count(pre, aid));
                    assert(ox != k as int);
                    assert(pre[ox].order != pre[k as int].order);
                }
                assert forall|x: int, y: int|
                    0 <= x < y < post.len() && post[x].account_id == aid && post[y].account_id
                        == aid implies post[x].order != post[y].order by {
                    let ox = if x < k as int {
                        x
                    } else {
                        x + 1
                    };
                    let oy = if y < k as int {
                        y
                    } else {
                        y + 1
                    };
                    assert(post[x] == shifted_down(pre[ox], aid, d as int));
                    assert(post[y] == shifted_down(pre[oy], aid, d as int));
                    assert(pre[ox].order != pre[oy].order);
                    assert(pre[ox].order != pre[k as int].order);
                    assert(pre[oy].order != pre[k as int].order);
                }
            }
        }
        Ok(())
    }

    /// Reassigns display orders: each `(category_id, new_order)` entry sets
    /// that category's order. The list is validated left to right before
    /// any row is touched — a duplicate target order, a duplicate category
    /// id, or an id absent from the account fails the whole batch with the
    /// store unchanged. Requires at least the `Write` role.
    pub fn order_cats(&mut self, user_id: u128, cats: OrderCategoriesModel) -> (r: Result<
        (),
        Error,
    >)
        requires
            old(self).wf(),
        ensures
            final(self).wf(),
            final(self).users@ == old(self).users@,
            final(self).accounts@ == old(self).accounts@,
            final(self).account_users@ == old(self).account_users@,
            final(self).transactions@ == old(self).transactions@,
            final(self).validations@ == old(self).validations@,
            final(self).next_tx_id == old(self).next_tx_id,
            r is Err ==> final(self).categories@ == old(self).categories@,
            (r matches Err(Error::Auth(e)) ==> auth_error_matches(
                e,
                old(self).account_users@,
                cats.account_id,
                user_id,
                Role::Write,
            )),
            (r matches Err(Error::Auth(_))) <==> !authorized(
                old(self).account_users@,
                cats.account_id,
                user_id,
                Role::Write,
            ),
            (r is Ok) <==> (authorized(
                old(self).account_users@,
                cats.account_id,
                user_id,
                Role::Write,
            ) && forall|k: int|
                0 <= k < cats.orders@.len() ==> !entry_bad(
                    old(self).categories@,
                    cats.account_id,
                    cats.orders@,
                    k,
                )),
            (r matches Err(Error::OrderDuplicateIndex(_))) <==> (authorized(
                old(self).account_users@,
                cats.account_id,
                user_id,
                Role::Write,
            ) && rejects_dup_ord(old(self).categories@, cats.account_id, cats.orders@)),
            (r matches Err(Error::OrderDuplicateId(_))) <==> (authorized(
                old(self).account_users@,
                cats.account_id,
                user_id,
                Role::Write,
            ) && rejects_dup_id(old(self).categories@, cats.account_id, cats.orders@)),
            (r matches Err(Error::CategoryNotFound(_))) <==> (authorized(
                old(self).account_users@,
                cats.account_id,
                user_id,
                Role::Write,
            ) && rejects_missing(old(self).categories@, cats.account_id, cats.orders@)),
            (r matches Err(Error::OrderDuplicateIndex(o)) ==> exists|k: int|
                0 <= k < cats.orders@.len() && #[trigger] dup_ord_at(cats.orders@, k) && o
                    == cats.orders@[k].1 && forall|j: int|
                    0 <= j < k ==> !entry_bad(
                        old(self).categories@,
                        cats.account_id,
                        cats.orders@,
                        j,
                    )),
            (r matches Err(Error::OrderDuplicateId(id)) ==> exists|k: int|
                0 <= k < cats.orders@.len() && !dup_ord_at(cats.orders@, k)
                    && #[trigger] dup_id_at(cats.orders@, k) && id == cats.orders@[k].0 && forall|
                    j: int,
                |
                    0 <= j < k ==> !entry_bad(
                        old(self).categories@,
                        cats.account_id,
                        cats.orders@,
                        j,
                    )),
            (r matches Err(Error::CategoryNotFound(id)) ==> exists|k: int|
                0 <= k < cats.orders@.len() && !dup_ord_at(cats.orders@, k) && !dup_id_at(
                    cats.orders@,
                    k,
                ) && #[trigger] entry_missing(
                    old(self).categories@,
                    cats.account_id,
                    cats.orders@,
                    k,
                ) && id == cats.orders@[k].0 && forall|j: int|
                    0 <= j < k ==> !entry_bad(
                        old(self).categories@,
                        cats.account_id,
                        cats.orders@,
                        j,
                    )),
            r is Ok ==> final(self).categories@.len() == old(self).categories@.len(),
            r is Ok ==> forall|i: int, k: int|
                0 <= i < old(self).categories@.len() && 0 <= k < cats.orders@.len()
                    && (#[trigger] old(self).categories@[i]).id == (#[trigger] cats.orders@[k]).0
                    ==> final(self).categories@[i] == (Category {
                    order: cats.orders@[k].1,
                    ..old(self).categories@[i]
                }),
            r is Ok ==> forall|i: int|
                0 <= i < old(self).categories@.len() && !(exists|k: int|
                    0 <= k < cats.orders@.len() && #[trigger] cats.orders@[k].0 == old(
                        self,
                    ).categories@[i].id) ==> final(self).categories@[i] == old(
                    self,
                ).categories@[i],
            r is Ok && orders_dense(old(self).categories@, cats.account_id) && complete_reorder(
                old(self).categories@,
                cats.account_id,
                cats.orders@,
            ) ==> orders_dense(final(self).categories@, cats.account_id),
    {
        if let Err(e) = self.validate_user_account_role(user_id, cats.account_id, Role::Write) {
            return Err(Error::Auth(e));
        }
        let aid = cats.account_id;
        let n = cats.orders.len();
        let mut idxs: Vec<usize> = Vec::new();
        let mut k: usize = 0;
        while k < n
            invariant
                n == cats.orders@.len(),
                0 <= k <= n,
                idxs@.len() == k,
                self.users@ == old(self).users@,
                self.accounts@ == old(self).accounts@,
                self.account_users@ == old(self).account_users@,
                self.categories@ == old(self).categories@,
                self.transactions@ == old(self).transactions@,
                self.validations@ == old(self).validations@,
                self.next_tx_id == old(self).next_tx_id,
                old(self).wf(),
                aid == cats.account_id,
                authorized(old(self).account_users@, aid, user_id, Role::Write),
                forall|j: int| 0 <= j < k ==> !entry_bad(self.categories@, aid, cats.orders@, j),
                forall|j: int|
                    0 <= j < k ==> (0 <= #[trigger] idxs@[j] < self.categories@.len()
                        && self.categories@[idxs@[j] as int].id == cats.orders@[j].0
                        && self.categories@[idxs@[j] as int].account_id == aid),
            decreases n - k,
        {
            let entry = cats.orders[k];
            if ord_repeated_before(&cats.orders, k).is_some() {
                proof {
                    assert(dup_ord_at(cats.orders@, k as int));
                    assert(entry_bad(old(self).categories@, cats.account_id, cats.orders@, k as int));
                    assert(rejects_dup_ord(old(self).categories@, cats.account_id, cats.orders@));
                    lemma_rejects_exclusive(old(self).categories@, cats.account_id, cats.orders@);
                }
                return Err(Error::OrderDuplicateIndex(entry.1));
            }
            if id_repeated_before(&cats.orders, k).is_some() {
                proof {
                    assert(dup_id_at(cats.orders@, k as int));
                    assert(entry_bad(old(self).categories@, cats.account_id, cats.orders@, k as int));
                    assert(rejects_dup_id(old(self).categories@, cats.account_id, cats.orders@));
                    lemma_rejects_exclusive(old(self).categories@, cats.account_id, cats.orders@);
                }
                return Err(Error::OrderDuplicateId(entry.0));
            }
            match self.find_cat_index(aid, entry.0) {
                Some(i) => {
                    idxs.push(i);
                },
                None => {
                    proof {
                        assert(entry_missing(old(self).categories@, cats.account_id, cats.orders@, k as int));
                        assert(entry_bad(old(self).categories@, cats.account_id, cats.orders@, k as int));
                        assert(rejects_missing(old(self).categories@, cats.account_id, cats.orders@));
                        lemma_rejects_exclusive(old(self).categories@, cats.account_id, cats.orders@);
                    }
                    return Err(Error::CategoryNotFound(entry.0));
                },
            }
            k += 1;
        }
        let ghost pre = self.categories@;
        let mut k: usize = 0;
        while k < n
            invariant
                n == cats.orders@.len(),
                idxs@.len() == n,
                0 <= k <= n,
                self.categories@.len() == pre.len(),
                old(self).wf(),
                pre == old(self).categories@,
                self.users@ == old(self).users@,
                self.accounts@ == old(self).accounts@,
                self.account_users@ == old(self).account_users@,
                self.transactions@ == old(self).transactions@,
                self.validations@ == old(self).validations@,
                self.next_tx_id == old(self).next_tx_id,
                aid == cats.account_id,
                authorized(old(self).account_users@, aid, user_id, Role::Write),
                forall|j: int| 0 <= j < n ==> !entry_bad(pre, aid, cats.orders@, j),
                forall|j: int|
                    0 <= j < n ==> (0 <= #[trigger] idxs@[j] < pre.len() && pre[idxs@[j] as int].id
                        == cats.orders@[j].0 && pre[idxs@[j] as int].account_id == aid),
                forall|j: int|
                    0 <= j < k ==> self.categories@[idxs@[j] as int] == (Category {
                        order: cats.orders@[j].1,
                        ..pre[#[trigger] idxs@[j] as int]
                    }),
                forall|i: int|
                    0 <= i < pre.len() && !(exists|j: int|
                        0 <= j < k && #[trigger] idxs@[j] == i) ==> self.categories@[i] == pre[i],
            decreases n - k,
        {
            let i = idxs[k];
            let entry = cats.orders[k];
            proof {
                assert forall|j: int| 0 <= j < k implies idxs@[j] != i as int by {
                    if idxs@[j] == i as int {
                        assert(cats.orders@[j].0 == pre[i as int].id);
                        assert(cats.orders@[k as int].0 == pre[i as int].id);
                        assert(dup_id_at(cats.orders@, k as int));
                        assert(!entry_bad(pre, aid, cats.orders@, k as int));
                    }
                }
            }
            self.categories[i].order = entry.1;
            k += 1;
        }
        proof {
            let post = self.categories@;
            let os = cats.orders@;
            lemma_rejects_imply_bad(pre, aid, os);
            assert forall|i: int, kk: int|
                0 <= i < pre.len() && 0 <= kk < os.len() && pre[i].id == os[kk].0 implies post[i]
                == (Category { order: os[kk].1, ..pre[i] }) by {
                assert(pre[idxs@[kk] as int].id == os[kk].0);
                assert(idxs@[kk] == i);
            }
            assert forall|x: int, y: int|
                0 <= x < y < post.len() && post[x].account_id == post[y].account_id implies post[
            x].name_key@ != post[y].name_key@ by {
                assert(post[x].name_key == pre[x].name_key && post[x].account_id
                    == pre[x].account_id);
                assert(post[y].name_key == pre[y].name_key && post[y].account_id
                    == pre[y].account_id);
            }
            assert forall|x: int, y: int| 0 <= x < y < post.len() implies post[x].id != post[y].id by {
                assert(post[x].id == pre[x].id);
                assert(post[y].id == pre[y].id);
            }
            if orders_dense(pre, aid) && complete_reorder(pre, aid, os) {
                assert forall|i: int| 0 <= i < post.len() implies post[i].account_id == pre[i].account_id by {}
                lemma_acct_count_congruent(post, pre, aid);
                assert forall|x: int|
                    0 <= x < post.len() && post[x].account_id == aid implies 1 <= #[trigger] post[
                x].order <= acct_count(post, aid) by {
                    let kk = choose|kk: int| 0 <= kk < os.len() && #[trigger] os[kk].0 == pre[x].id;
                    assert(post[x] == (Category { order: os[kk].1, ..pre[x] }));
                }
                assert forall|x: int, y: int|
                    0 <= x < y < post.len() && post[x].account_id == aid && post[y].account_id
                        == aid implies post[x].order != post[y].order by {
                    let kx = choose|kk: int| 0 <= kk < os.len() && #[trigger] os[kk].0 == pre[x].id;
                    let ky = choose|kk: int| 0 <= kk < os.len() && #[trigger] os[kk].0 == pre[y].id;
                    assert(post[x] == (Category { order: os[kx].1, ..pre[x] }));
                    assert(post[y] == (Category { order: os[ky].1, ..pre[y] }));
                    assert(pre[x].id != pre[y].id);
                    assert(kx != ky);
                    if kx < ky {
                        assert(!entry_bad(pre, aid, os, ky));
                        assert(!dup_ord_at(os, ky));
                    } else {
                        assert(!entry_bad(pre, aid, os, kx));
                        assert(!dup_ord_at(os, kx));
                    }
                }
            }
        }
        Ok(())
    }
}

} // verus!
