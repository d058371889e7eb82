use schmeconomics::accounts::{AccountUserModel, CreateAccountRequestModel};
use schmeconomics::categories::{
    CreateCategoryModel, DeleteCategoryModel, Error, OrderCategoriesModel,
};
use schmeconomics::roles::{AuthError, Role};
use schmeconomics::store::Store;
use schmeconomics::transactions::{
    CreateTransactionModel, CreateTransactionsModel, DeleteTransactionsModel, USD_CURRENCY_TYPE,
};
use schmeconomics::users::CreateUserRequestModel;
use schmeconomics::validations::Config;

const NOW: i64 = 1731240214000;

fn base_store() -> (Store, u128, u128, u128) {
    let cfg = Config { verify_email_lt_s: 3600, add_account_lt_s: 3600 };
    let mut store = Store::new();
    let admin = store
        .create_user(
            CreateUserRequestModel {
                email: String::from("admin@mail.com"),
                password: String::from("password"),
                name: String::from("admin"),
                two_factor_auth: false,
            },
            String::from("password"),
        )
        .unwrap()
        .id;
    let reader = store
        .create_user(
            CreateUserRequestModel {
                email: String::from("reader@mail.com"),
                password: String::from("password"),
                name: String::from("reader"),
                two_factor_auth: false,
            },
            String::from("password"),
        )
        .unwrap()
        .id;
    let (resp, _) = store
        .create_account(
            admin,
            CreateAccountRequestModel {
                name: String::from("shared"),
                users: vec![
                    AccountUserModel { user_id: admin, role: Role::Admin },
                    AccountUserModel { user_id: reader, role: Role::Read },
                ],
            },
            vec![String::from("t-admin"), String::from("t-reader")],
            NOW,
            &cfg,
        )
        .unwrap();
    (store, admin, reader, resp.account_id)
}

fn usd_line(cat_id: u128, amount: i64, notes: &str) -> CreateTransactionModel {
    CreateTransactionModel {
        category_id: cat_id,
        currency_type: USD_CURRENCY_TYPE.to_string(),
        amount,
        notes: String::from(notes),
    }
}

/// Recomputes every category balance from the transaction rows and holds
/// it against the stored (incrementally maintained) balance.
fn assert_balances_match_recomputation(store: &Store, baseline: &[(u128, i64)]) {
    for cat in &store.categories {
        let base = baseline
            .iter()
            .find(|(id, _)| *id == cat.id)
            .map(|(_, b)| *b)
            .unwrap_or(0);
        let sum: i64 = store
            .transactions
            .iter()
            .filter(|t| t.category_id == Some(cat.id))
            .map(|t| t.amount)
            .sum();
        assert_eq!(base + sum, cat.balance, "balance drifted for category {}", cat.id);
    }
}

#[test]
fn test_balance_equals_transaction_sum() {
    let (mut store, admin, _reader, account) = base_store();
    let mut cats = vec![];
    for (name, bal) in [("Groceries", 500), ("Rent", 0), ("Fun", -200)] {
        let c = store
            .create_cat(
                admin,
                CreateCategoryModel {
                    account_id: account,
                    name: String::from(name),
                    refill_val: 0,
                    init_bal: bal,
                },
            )
            .unwrap();
        cats.push((c.id, bal));
    }
    let (c0, c1, c2) = (cats[0].0, cats[1].0, cats[2].0);

    store
        .create_transactions(
            admin,
            CreateTransactionsModel {
                account_id: account,
                txs: vec![
                    usd_line(c0, 120, "a"),
                    usd_line(c1, -75, "b"),
                    usd_line(c0, 33, "c"),
                    usd_line(c2, 1, "d"),
                ],
            },
            &vec![120, -75, 33, 1],
            NOW,
        )
        .unwrap();
    assert_balances_match_recomputation(&store, &cats);

    store
        .delete_transactions(
            admin,
            DeleteTransactionsModel { account_id: account, tx_ids: vec![1, 4] },
        )
        .unwrap();
    assert_balances_match_recomputation(&store, &cats);

    store
        .create_transactions(
            admin,
            CreateTransactionsModel {
                account_id: account,
                txs: vec![usd_line(c1, 999, "e")],
            },
            &vec![999],
            NOW,
        )
        .unwrap();
    assert_balances_match_recomputation(&store, &cats);
}

fn assert_orders_are_permutation(store: &Store, account: u128) {
    let mut orders: Vec<i32> = store
        .categories
        .iter()
        .filter(|c| c.account_id == account)
        .map(|c| c.order)
        .collect();
    orders.sort();
    let expect: Vec<i32> = (1..=orders.len() as i32).collect();
    assert_eq!(expect, orders);
}

#[test]
fn test_orders_stay_a_permutation() {
    let (mut store, admin, _reader, account) = base_store();
    let mut ids = vec![];
    for name in ["A", "B", "C", "D"] {
        let c = store
            .create_cat(
                admin,
                CreateCategoryModel {
                    account_id: account,
                    name: String::from(name),
                    refill_val: 0,
                    init_bal: 0,
                },
            )
            .unwrap();
        ids.push(c.id);
        assert_orders_are_permutation(&store, account);
    }

    // Deleting from the middle closes the gap.
    store
        .delete_cat(
            admin,
            DeleteCategoryModel { account_id: account, cat_id: ids[1] },
        )
        .unwrap();
    assert_orders_are_permutation(&store, account);

    // A complete reassignment onto 1..=3 keeps the permutation.
    store
        .order_cats(
            admin,
            OrderCategoriesModel {
                account_id: account,
                orders: vec![(ids[0], 3), (ids[2], 1), (ids[3], 2)],
            },
        )
        .unwrap();
    assert_orders_are_permutation(&store, account);
    let find = |id: u128| store.categories.iter().find(|c| c.id == id).unwrap().order;
    assert_eq!(3, find(ids[0]));
    assert_eq!(1, find(ids[2]));
    assert_eq!(2, find(ids[3]));
}

#[test]
fn test_reorder_validation_fails_before_any_write() {
    let (mut store, admin, _reader, account) = base_store();
    let mut ids = vec![];
    for name in ["A", "B", "C"] {
        ids.push(
            store
                .create_cat(
                    admin,
                    CreateCategoryModel {
                        account_id: account,
                        name: String::from(name),
                        refill_val: 0,
                        init_bal: 0,
                    },
                )
                .unwrap()
                .id,
        );
    }
    let before: Vec<(u128, i32)> =
        store.categories.iter().map(|c| (c.id, c.order)).collect();

    // Duplicate target order: rejected with no partial change.
    let res = store.order_cats(
        admin,
        OrderCategoriesModel {
            account_id: account,
            orders: vec![(ids[0], 2), (ids[1], 2), (ids[2], 1)],
        },
    );
    assert!(matches!(res, Err(Error::OrderDuplicateIndex(2))));
    let after: Vec<(u128, i32)> = store.categories.iter().map(|c| (c.id, c.order)).collect();
    assert_eq!(before, after);

    // Duplicate category id: rejected with no partial change.
    let res = store.order_cats(
        admin,
        OrderCategoriesModel {
            account_id: account,
            orders: vec![(ids[0], 2), (ids[0], 1), (ids[2], 3)],
        },
    );
    assert!(matches!(res, Err(Error::OrderDuplicateId(id)) if id == ids[0]));
    let after: Vec<(u128, i32)> = store.categories.iter().map(|c| (c.id, c.order)).collect();
    assert_eq!(before, after);

    // Unknown category id: also rejected with no partial change, even
    // though earlier entries were valid.
    let res = store.order_cats(
        admin,
        OrderCategoriesModel {
            account_id: account,
            orders: vec![(ids[0], 2), (0xdead, 1)],
        },
    );
    assert!(matches!(res, Err(Error::CategoryNotFound(id)) if id == 0xdead));
    let after: Vec<(u128, i32)> = store.categories.iter().map(|c| (c.id, c.order)).collect();
    assert_eq!(before, after);
}

#[test]
fn test_delete_category_scenario() {
    // Account A: {Cat1: balance 1000, order 1}, {Cat2: balance 14000, order 2}.
    // Deleting Cat1 yields {Cat2: balance 14000, order 1}.
    let (mut store, admin, _reader, account) = base_store();
    let cat1 = store
        .create_cat(
            admin,
            CreateCategoryModel {
                account_id: account,
                name: String::from("Cat1"),
                refill_val: 0,
                init_bal: 1000,
            },
        )
        .unwrap()
        .id;
    let cat2 = store
        .create_cat(
            admin,
            CreateCategoryModel {
                account_id: account,
                name: String::from("Cat2"),
                refill_val: 0,
                init_bal: 14000,
            },
        )
        .unwrap()
        .id;
    assert_eq!(1, store.categories[0].order);
    assert_eq!(2, store.categories[1].order);

    store
        .delete_cat(admin, DeleteCategoryModel { account_id: account, cat_id: cat1 })
        .unwrap();

    assert_eq!(1, store.categories.len());
    assert_eq!(cat2, store.categories[0].id);
    assert_eq!(14000, store.categories[0].balance);
    assert_eq!(1, store.categories[0].order);
}

#[test]
fn test_insufficient_role_is_rejected() {
    let (mut store, _admin, reader, account) = base_store();
    let res = store.create_cat(
        reader,
        CreateCategoryModel {
            account_id: account,
            name: String::from("Nope"),
            refill_val: 0,
            init_bal: 0,
        },
    );
    assert!(matches!(
        res,
        Err(Error::Auth(AuthError::InsufficientRole(u, a))) if u == reader && a == account
    ));

    // Reading is still allowed for the Read role.
    let cats = store.get_cats(reader, account).unwrap();
    assert_eq!(0, cats.len());
}

#[test]
fn test_get_cats_sorted_by_order() {
    let (mut store, admin, _reader, account) = base_store();
    let mut ids = vec![];
    for name in ["A", "B", "C"] {
        ids.push(
            store
                .create_cat(
                    admin,
                    CreateCategoryModel {
                        account_id: account,
                        name: String::from(name),
                        refill_val: 0,
                        init_bal: 0,
                    },
                )
                .unwrap()
                .id,
        );
    }
    // Display order becomes C, A, B.
    store
        .order_cats(
            admin,
            OrderCategoriesModel {
                account_id: account,
                orders: vec![(ids[0], 2), (ids[1], 3), (ids[2], 1)],
            },
        )
        .unwrap();
    let cats = store.get_cats(admin, account).unwrap();
    assert_eq!(3, cats.len());
    assert_eq!("C", cats[0].name);
    assert_eq!("A", cats[1].name);
    assert_eq!("B", cats[2].name);
}
