use schmeconomics::accounts::{AccountUserModel, CreateAccountRequestModel};
use schmeconomics::categories::CreateCategoryModel;
use schmeconomics::roles::{AuthError, Role};
use schmeconomics::store::Store;
use schmeconomics::transactions::{
    CreateTransactionModel, CreateTransactionsModel, DeleteTransactionsModel, Error,
    GetTransactionReqModel, TransactionFilter, USD_CURRENCY_TYPE,
};
use schmeconomics::users::CreateUserRequestModel;
use schmeconomics::validations::Config;

// 2024-11-10 12:03:34 UTC, in unix milliseconds.
const TEST_DT: i64 = 1731240214000;

const TEST_CAT_1_ORIG_BAL: i64 = 1000;
const TEST_CAT_2_ORIG_BAL: i64 = 14000;

struct Fixture {
    store: Store,
    user1: u128,
    user2: u128,
    account1: u128,
    cat1: u128,
    cat2: u128,
}

fn create_test_store() -> Fixture {
    let cfg = Config { verify_email_lt_s: 3600, add_account_lt_s: 3600 };
    let mut store = Store::new();
    let user1 = store
        .create_user(
            CreateUserRequestModel {
                email: String::from("user1@mail.com"),
                password: String::from("password"),
                name: String::from("tester 1"),
                two_factor_auth: false,
            },
            String::from("password"),
        )
        .unwrap()
        .id;
    let user2 = store
        .create_user(
            CreateUserRequestModel {
                email: String::from("user2@mail.com"),
                password: String::from("password"),
                name: String::from("tester 2"),
                two_factor_auth: false,
            },
            String::from("password"),
        )
        .unwrap()
        .id;
    let (resp, _emails) = store
        .create_account(
            user1,
            CreateAccountRequestModel {
                name: String::from("account 1"),
                users: vec![AccountUserModel { user_id: user1, role: Role::Admin }],
            },
            vec![String::from("join-token-1")],
            TEST_DT,
            &cfg,
        )
        .unwrap();
    let account1 = resp.account_id;
    store
        .create_account(
            user1,
            CreateAccountRequestModel { name: String::from("account 2"), users: vec![] },
            vec![],
            TEST_DT,
            &cfg,
        )
        .unwrap();
    let cat1 = store
        .create_cat(
            user1,
            CreateCategoryModel {
                account_id: account1,
                name: String::from("Cat1"),
                refill_val: 0,
                init_bal: TEST_CAT_1_ORIG_BAL,
            },
        )
        .unwrap()
        .id;
    let cat2 = store
        .create_cat(
            user1,
            CreateCategoryModel {
                account_id: account1,
                name: String::from("Cat2"),
                refill_val: 0,
                init_bal: TEST_CAT_2_ORIG_BAL,
            },
        )
        .unwrap()
        .id;
    Fixture { store, user1, user2, account1, cat1, cat2 }
}

fn usd_line(cat_id: u128, amount: i64, notes: &str) -> CreateTransactionModel {
    CreateTransactionModel {
        category_id: cat_id,
        currency_type: USD_CURRENCY_TYPE.to_string(),
        amount,
        notes: String::from(notes),
    }
}

fn test_transact_1(f: &mut Fixture) {
    f.store
        .create_transactions(
            f.user1,
            CreateTransactionsModel {
                account_id: f.account1,
                txs: vec![usd_line(f.cat1, 1000, "Notes1")],
            },
            &vec![1000],
            TEST_DT,
        )
        .unwrap();
}

fn test_transact_2(f: &mut Fixture) {
    f.store
        .create_transactions(
            f.user1,
            CreateTransactionsModel {
                account_id: f.account1,
                txs: vec![
                    usd_line(f.cat1, 3000, "Notes2"),
                    usd_line(f.cat1, 5000, "Notes3"),
                    usd_line(f.cat1, -1500, "Notes4"),
                    usd_line(f.cat2, -300, "Notes5"),
                ],
            },
            &vec![3000, 5000, -1500, -300],
            TEST_DT,
        )
        .unwrap();
}

#[test]
fn test_new_transaction() {
    let mut f = create_test_store();

    // 1st batch
    test_transact_1(&mut f);
    let tx = f.store.transactions.iter().find(|t| t.id == 1);
    assert!(tx.is_some());

    let tx = tx.unwrap();
    assert_eq!(1, tx.id);
    assert_eq!(f.account1, tx.account_id);
    assert_eq!(Some(f.user1), tx.user_id);
    assert_eq!(1000, tx.amount);
    assert_eq!(false, tx.is_refill);
    assert_eq!(TEST_DT, tx.timestamp);
    assert_eq!("Notes1", tx.notes.as_ref().unwrap());

    let cats = &f.store.categories;
    assert_eq!(TEST_CAT_1_ORIG_BAL + 1000, cats[0].balance);
    assert_eq!(TEST_CAT_2_ORIG_BAL, cats[1].balance);

    // 2nd batch
    test_transact_2(&mut f);
    let txs = &f.store.transactions;
    assert_eq!(5, txs.len());

    assert_eq!(2, txs[1].id);
    assert_eq!(f.account1, txs[1].account_id);
    assert_eq!(Some(f.user1), txs[1].user_id);
    assert_eq!(Some(f.cat1), txs[1].category_id);
    assert_eq!(3000, txs[1].amount);
    assert_eq!(false, txs[1].is_refill);
    assert_eq!(TEST_DT, txs[1].timestamp);
    assert_eq!(Some(String::from("Notes2")), txs[1].notes);

    assert_eq!(3, txs[2].id);
    assert_eq!(f.account1, txs[2].account_id);
    assert_eq!(Some(f.user1), txs[2].user_id);
    assert_eq!(Some(f.cat1), txs[2].category_id);
    assert_eq!(5000, txs[2].amount);
    assert_eq!(false, txs[2].is_refill);
    assert_eq!(TEST_DT, txs[2].timestamp);
    assert_eq!(Some(String::from("Notes3")), txs[2].notes);

    assert_eq!(4, txs[3].id);
    assert_eq!(f.account1, txs[3].account_id);
    assert_eq!(Some(f.user1), txs[3].user_id);
    assert_eq!(Some(f.cat1), txs[3].category_id);
    assert_eq!(-1500, txs[3].amount);
    assert_eq!(false, txs[3].is_refill);
    assert_eq!(TEST_DT, txs[3].timestamp);
    assert_eq!(Some(String::from("Notes4")), txs[3].notes);

    assert_eq!(5, txs[4].id);
    assert_eq!(f.account1, txs[4].account_id);
    assert_eq!(Some(f.user1), txs[4].user_id);
    assert_eq!(Some(f.cat2), txs[4].category_id);
    assert_eq!(-300, txs[4].amount);
    assert_eq!(false, txs[4].is_refill);
    assert_eq!(TEST_DT, txs[4].timestamp);
    assert_eq!(Some(String::from("Notes5")), txs[4].notes);

    let cats = &f.store.categories;
    assert_eq!(TEST_CAT_1_ORIG_BAL + 1000 + 3000 + 5000 - 1500, cats[0].balance);
    assert_eq!(TEST_CAT_2_ORIG_BAL - 300, cats[1].balance);
}

#[test]
fn test_cc_txs() {
    let mut f = create_test_store();

    // 1000 CAD at a mid-rate of 0.5 converts to 500 USD-equivalent units.
    f.store
        .create_transactions(
            f.user1,
            CreateTransactionsModel {
                account_id: f.account1,
                txs: vec![CreateTransactionModel {
                    category_id: f.cat1,
                    currency_type: String::from("CAD"),
                    amount: 1000,
                    notes: String::new(),
                }],
            },
            &vec![500],
            TEST_DT,
        )
        .unwrap();
    let tx = f.store.transactions.iter().find(|t| t.id == 1);
    assert!(tx.is_some());

    let tx = tx.unwrap();
    assert_eq!(1, tx.id);
    assert_eq!(500, tx.amount);

    let cats = &f.store.categories;
    assert_eq!(TEST_CAT_1_ORIG_BAL + 500, cats[0].balance);
}

#[test]
fn test_delete_transactions() {
    let mut f = create_test_store();
    test_transact_1(&mut f);
    test_transact_2(&mut f);

    f.store
        .delete_transactions(
            f.user1,
            DeleteTransactionsModel { account_id: f.account1, tx_ids: vec![1, 3, 5] },
        )
        .unwrap();

    let txs = &f.store.transactions;
    assert_eq!(2, txs.len());

    assert_eq!(2, txs[0].id);
    assert_eq!(f.account1, txs[0].account_id);
    assert_eq!(Some(f.user1), txs[0].user_id);
    assert_eq!(Some(f.cat1), txs[0].category_id);
    assert_eq!(3000, txs[0].amount);
    assert_eq!(false, txs[0].is_refill);
    assert_eq!(TEST_DT, txs[0].timestamp);
    assert_eq!(Some(String::from("Notes2")), txs[0].notes);

    assert_eq!(4, txs[1].id);
    assert_eq!(f.account1, txs[1].account_id);
    assert_eq!(Some(f.user1), txs[1].user_id);
    assert_eq!(Some(f.cat1), txs[1].category_id);
    assert_eq!(-1500, txs[1].amount);
    assert_eq!(false, txs[1].is_refill);
    assert_eq!(TEST_DT, txs[1].timestamp);
    assert_eq!(Some(String::from("Notes4")), txs[1].notes);

    let cats = &f.store.categories;
    assert_eq!(TEST_CAT_1_ORIG_BAL + 3000 - 1500, cats[0].balance);
    assert_eq!(TEST_CAT_2_ORIG_BAL, cats[1].balance);
}

#[test]
fn test_attempt_delete_user_does_not_own_account() {
    let mut f = create_test_store();
    test_transact_1(&mut f);
    test_transact_2(&mut f);

    let res = f.store.delete_transactions(
        f.user2,
        DeleteTransactionsModel { account_id: f.account1, tx_ids: vec![1, 2, 3, 4, 5] },
    );

    assert!(matches!(
        res,
        Err(Error::Auth(AuthError::NotMember(user_id, account_id)))
            if user_id == f.user2 && account_id == f.account1
    ));
}

#[test]
fn test_attempt_delete_account_does_not_own_transaction() {
    let mut f = create_test_store();
    test_transact_1(&mut f);
    test_transact_2(&mut f);

    let res = f.store.delete_transactions(
        f.user1,
        DeleteTransactionsModel { account_id: f.account1, tx_ids: vec![4, 18] },
    );

    assert!(matches!(
        res,
        Err(Error::AccountDoesNotOwnTransaction(account_id, tx_id))
            if account_id == f.account1 && tx_id == 18
    ));

    // The failed batch left every balance untouched.
    let cats = &f.store.categories;
    assert_eq!(TEST_CAT_1_ORIG_BAL + 1000 + 3000 + 5000 - 1500, cats[0].balance);
    assert_eq!(TEST_CAT_2_ORIG_BAL - 300, cats[1].balance);
}

#[test]
fn test_get_txs_with_cat_filter() {
    let mut f = create_test_store();
    test_transact_1(&mut f);
    test_transact_2(&mut f);

    let cat_1_txs = f
        .store
        .get_transactions(
            f.user1,
            GetTransactionReqModel {
                account_id: f.account1,
                page_size: Some(25),
                page_idx: Some(0),
                filters: Some(vec![TransactionFilter::CategoryEq { id: f.cat1 }]),
            },
        )
        .unwrap();

    assert_eq!(4, cat_1_txs.len());
    assert_eq!(1, cat_1_txs[0].id);
    assert_eq!(TEST_DT, cat_1_txs[0].timestamp_utc);
    assert_eq!(Some(f.user1), cat_1_txs[0].user_id);
    assert_eq!(Some(String::from("Notes1")), cat_1_txs[0].notes);

    assert_eq!(2, cat_1_txs[1].id);
    assert_eq!(TEST_DT, cat_1_txs[1].timestamp_utc);
    assert_eq!(Some(f.user1), cat_1_txs[1].user_id);
    assert_eq!(Some(String::from("Notes2")), cat_1_txs[1].notes);

    assert_eq!(3, cat_1_txs[2].id);
    assert_eq!(TEST_DT, cat_1_txs[2].timestamp_utc);
    assert_eq!(Some(f.user1), cat_1_txs[2].user_id);
    assert_eq!(Some(String::from("Notes3")), cat_1_txs[2].notes);

    assert_eq!(4, cat_1_txs[3].id);
    assert_eq!(TEST_DT, cat_1_txs[3].timestamp_utc);
    assert_eq!(Some(f.user1), cat_1_txs[3].user_id);
    assert_eq!(Some(String::from("Notes4")), cat_1_txs[3].notes);

    let cat_2_txs = f
        .store
        .get_transactions(
            f.user1,
            GetTransactionReqModel {
                account_id: f.account1,
                page_size: Some(25),
                page_idx: Some(0),
                filters: Some(vec![TransactionFilter::CategoryEq { id: f.cat2 }]),
            },
        )
        .unwrap();

    assert_eq!(4, cat_1_txs.len());
    assert_eq!(5, cat_2_txs[0].id);
    assert_eq!(TEST_DT, cat_2_txs[0].timestamp_utc);
    assert_eq!(Some(f.user1), cat_2_txs[0].user_id);
    assert_eq!(Some(String::from("Notes5")), cat_2_txs[0].notes);
}

#[test]
fn test_amount_filter_and_default_page() {
    let mut f = create_test_store();
    test_transact_1(&mut f);
    test_transact_2(&mut f);

    // Conjunction of two amount bounds: 3000 <= amount < 5000.
    let txs = f
        .store
        .get_transactions(
            f.user1,
            GetTransactionReqModel {
                account_id: f.account1,
                page_size: None,
                page_idx: None,
                filters: Some(vec![
                    TransactionFilter::Cmp { cmp: schmeconomics::transactions::Cmp::Gte, val: 3000 },
                    TransactionFilter::Cmp { cmp: schmeconomics::transactions::Cmp::Lt, val: 5000 },
                ]),
            },
        )
        .unwrap();
    assert_eq!(1, txs.len());
    assert_eq!(2, txs[0].id);
    assert_eq!(3000, txs[0].am);

    // The default page holds at most fifteen rows.
    for _ in 0..4 {
        test_transact_2(&mut f);
    }
    let page = f
        .store
        .get_transactions(
            f.user1,
            GetTransactionReqModel {
                account_id: f.account1,
                page_size: None,
                page_idx: None,
                filters: None,
            },
        )
        .unwrap();
    assert_eq!(15, page.len());
    assert_eq!(1, page[0].id);

    let page2 = f
        .store
        .get_transactions(
            f.user1,
            GetTransactionReqModel {
                account_id: f.account1,
                page_size: None,
                page_idx: Some(1),
                filters: None,
            },
        )
        .unwrap();
    assert_eq!(6, page2.len());
    assert_eq!(16, page2[0].id);
}
