use schmeconomics::accounts::{AccountUserModel, CreateAccountRequestModel};
use schmeconomics::categories::{
    CreateCategoryModel, DeleteCategoryModel, Error, UpdateCategoryModel,
};
use schmeconomics::roles::Role;
use schmeconomics::store::Store;
use schmeconomics::users::CreateUserRequestModel;
use schmeconomics::validations::Config;

const NOW: i64 = 1731240214000;

fn test_config() -> Config {
    Config { verify_email_lt_s: 3600, add_account_lt_s: 3600 }
}

struct Fixture {
    store: Store,
    user1: u128,
    account1: u128,
    cat1: u128,
    cat2: u128,
}

fn create_test_store(create_cats: bool) -> Fixture {
    let mut store = Store::new();
    let cfg = test_config();
    let user1 = store
        .create_user(
            CreateUserRequestModel {
                email: String::from("user1@mail.com"),
                password: String::from("password"),
                name: String::from("tester 1"),
                two_factor_auth: false,
            },
            String::from("password"),
        )
        .unwrap()
        .id;
    store
        .create_user(
            CreateUserRequestModel {
                email: String::from("user2@mail.com"),
                password: String::from("password"),
                name: String::from("tester 2"),
                two_factor_auth: false,
            },
            String::from("password"),
        )
        .unwrap();
    let (resp, _emails) = store
        .create_account(
            user1,
            CreateAccountRequestModel {
                name: String::from("account 1"),
                users: vec![AccountUserModel { user_id: user1, role: Role::Admin }],
            },
            vec![String::from("join-token-1")],
            NOW,
            &cfg,
        )
        .unwrap();
    let account1 = resp.account_id;
    store
        .create_account(
            user1,
            CreateAccountRequestModel { name: String::from("account 2"), users: vec![] },
            vec![],
            NOW,
            &cfg,
        )
        .unwrap();
    let mut cat1 = 0;
    let mut cat2 = 0;
    if create_cats {
        cat1 = store
            .create_cat(
                user1,
                CreateCategoryModel {
                    account_id: account1,
                    name: String::from("Cat1"),
                    refill_val: 0,
                    init_bal: 1000,
                },
            )
            .unwrap()
            .id;
        cat2 = store
            .create_cat(
                user1,
                CreateCategoryModel {
                    account_id: account1,
                    name: String::from("Cat2"),
                    refill_val: 0,
                    init_bal: 14000,
                },
            )
            .unwrap()
            .id;
    }
    Fixture { store, user1, account1, cat1, cat2 }
}

#[test]
fn test_order_assignment_with_no_categories() {
    let mut f = create_test_store(false);
    let new_cat = f
        .store
        .create_cat(
            f.user1,
            CreateCategoryModel {
                account_id: f.account1,
                name: String::from("Cat1"),
                refill_val: 2000,
                init_bal: 1000,
            },
        )
        .unwrap();

    let db_cat = f.store.categories.iter().find(|c| c.id == new_cat.id);
    assert!(db_cat.is_some());

    let db_cat = db_cat.unwrap();
    assert_eq!(f.account1, db_cat.account_id);
    assert_eq!(1000, db_cat.balance);
    assert_eq!(2000, db_cat.refill_value);
    assert_eq!(1, db_cat.order);
    assert_eq!("Cat1", db_cat.name);

    assert_eq!(db_cat.name, new_cat.name);
    assert_eq!(db_cat.refill_value, new_cat.refill_val);
    assert_eq!(db_cat.balance, new_cat.balance);
}

#[test]
fn test_creation_of_category() {
    let mut f = create_test_store(true);
    let new_cat = f
        .store
        .create_cat(
            f.user1,
            CreateCategoryModel {
                account_id: f.account1,
                name: String::from("Cat3"),
                refill_val: 2000,
                init_bal: 1000,
            },
        )
        .unwrap();

    let db_cat = f.store.categories.iter().find(|c| c.id == new_cat.id);
    assert!(db_cat.is_some());

    let db_cat = db_cat.unwrap();
    assert_eq!(f.account1, db_cat.account_id);
    assert_eq!(1000, db_cat.balance);
    assert_eq!(2000, db_cat.refill_value);
    assert_eq!(3, db_cat.order);
    assert_eq!("Cat3", db_cat.name);

    assert_eq!(db_cat.name, new_cat.name);
    assert_eq!(db_cat.refill_value, new_cat.refill_val);
    assert_eq!(db_cat.balance, new_cat.balance);
}

#[test]
fn test_update_category() {
    let mut f = create_test_store(true);

    let update_cat_1 = f
        .store
        .update_cat(
            f.user1,
            UpdateCategoryModel {
                account_id: f.account1,
                id: f.cat1,
                new_name: Some(String::from("NewCat1")),
                new_refill_val: None,
                new_bal: None,
            },
        )
        .unwrap();

    let update_cat_2 = f
        .store
        .update_cat(
            f.user1,
            UpdateCategoryModel {
                account_id: f.account1,
                id: f.cat2,
                new_name: None,
                new_refill_val: Some(1200),
                new_bal: Some(200),
            },
        )
        .unwrap();

    let cats = &f.store.categories;

    assert_eq!(f.account1, cats[0].account_id);
    assert_eq!(1000, cats[0].balance);
    assert_eq!(0, cats[0].refill_value);
    assert_eq!("NewCat1", cats[0].name);

    assert_eq!(cats[0].id, update_cat_1.id);
    assert_eq!(cats[0].name, update_cat_1.name);
    assert_eq!(cats[0].refill_value, update_cat_1.refill_val);
    assert_eq!(cats[0].balance, update_cat_1.balance);

    assert_eq!(f.account1, cats[1].account_id);
    assert_eq!(200, cats[1].balance);
    assert_eq!(1200, cats[1].refill_value);
    assert_eq!("Cat2", cats[1].name);

    assert_eq!(cats[1].id, update_cat_2.id);
    assert_eq!(cats[1].name, update_cat_2.name);
    assert_eq!(cats[1].refill_value, update_cat_2.refill_val);
    assert_eq!(cats[1].balance, update_cat_2.balance);
}

#[test]
fn test_update_cat_does_not_exist() {
    let mut f = create_test_store(true);
    let test_id: u128 = 0xfeed_0001;
    let res = f.store.update_cat(
        f.user1,
        UpdateCategoryModel {
            account_id: f.account1,
            id: test_id,
            new_name: Some(String::from("NewCat1")),
            new_refill_val: Some(1000),
            new_bal: None,
        },
    );

    assert!(matches!(res, Err(Error::CategoryNotFound(id)) if id == test_id));
    let non_ex_cat_id: u128 = 0xfeed_0002;

    // Category id unknown to the account.
    let res = f.store.update_cat(
        f.user1,
        UpdateCategoryModel {
            account_id: f.account1,
            id: non_ex_cat_id,
            new_name: Some(String::from("NewCat1")),
            new_refill_val: Some(1000),
            new_bal: None,
        },
    );

    assert!(matches!(res, Err(Error::CategoryNotFound(id)) if id == non_ex_cat_id));
}

#[test]
fn test_update_cat_name_reused() {
    let mut f = create_test_store(true);
    let res = f.store.update_cat(
        f.user1,
        UpdateCategoryModel {
            account_id: f.account1,
            id: f.cat1,
            new_name: Some(String::from("Cat2")),
            new_refill_val: None,
            new_bal: None,
        },
    );

    assert!(matches!(res, Err(Error::NameReuse(name)) if name == String::from("Cat2")));

    let res = f.store.update_cat(
        f.user1,
        UpdateCategoryModel {
            account_id: f.account1,
            id: f.cat1,
            new_name: Some(String::from("  cAT2 ")),
            new_refill_val: None,
            new_bal: None,
        },
    );

    assert!(matches!(res, Err(Error::NameReuse(name)) if name == String::from("cAT2")));
}

#[test]
fn test_create_cat_name_reused() {
    let mut f = create_test_store(true);
    let res = f.store.create_cat(
        f.user1,
        CreateCategoryModel {
            account_id: f.account1,
            name: String::from("Cat1"),
            refill_val: 1000,
            init_bal: 1000,
        },
    );

    assert!(matches!(res, Err(Error::NameReuse(name)) if name == String::from("Cat1")));

    let res = f.store.create_cat(
        f.user1,
        CreateCategoryModel {
            account_id: f.account1,
            name: String::from("\t  caT1  \t"),
            refill_val: 1000,
            init_bal: 1000,
        },
    );

    assert!(matches!(res, Err(Error::NameReuse(name)) if name == String::from("caT1")));
}

#[test]
fn test_delete_cat_success() {
    let mut f = create_test_store(true);
    f.store
        .delete_cat(
            f.user1,
            DeleteCategoryModel { account_id: f.account1, cat_id: f.cat1 },
        )
        .unwrap();

    let cats = &f.store.categories;
    assert_eq!(1, cats.len());

    assert_eq!(f.cat2, cats[0].id);
}

#[test]
fn test_delete_cat_does_not_exist_err() {
    let mut f = create_test_store(true);
    let test_id: u128 = 0xfeed_0003;
    let res = f.store.delete_cat(
        f.user1,
        DeleteCategoryModel { account_id: f.account1, cat_id: test_id },
    );

    assert!(matches!(res, Err(Error::CategoryNotFound(id)) if id == test_id));
}
