use schmeconomics::accounts::{
    AccountUserModel, CreateAccountRequestModel, Error as AccountError, DELETE_GRACE_MS,
};
use schmeconomics::roles::Role;
use schmeconomics::store::Store;
use schmeconomics::users::{
    CreateUserRequestModel, Error as UserError, UpdateUserRequestModel,
};
use schmeconomics::validations::Config;

const NOW: i64 = 1731240214000;

fn test_config() -> Config {
    Config { verify_email_lt_s: 600, add_account_lt_s: 1200 }
}

fn new_user(store: &mut Store, email: &str, name: &str) -> u128 {
    store
        .create_user(
            CreateUserRequestModel {
                email: String::from(email),
                password: String::from("password"),
                name: String::from(name),
                two_factor_auth: false,
            },
            String::from("hash"),
        )
        .unwrap()
        .id
}

#[test]
fn test_create_user_normalizes_email() {
    let mut store = Store::new();
    let resp = store
        .create_user(
            CreateUserRequestModel {
                email: String::from("  Chris@Mail.COM "),
                password: String::from("pw"),
                name: String::from("chris"),
                two_factor_auth: false,
            },
            String::from("hash-1"),
        )
        .unwrap();
    assert_eq!("chris@mail.com", resp.email);
    assert!(!resp.email_verified);
    assert!(!resp.two_factor_enabled);
    assert_eq!("chris@mail.com", store.users[0].email);
    assert_eq!("hash-1", store.users[0].password_hash);
}

#[test]
fn test_create_user_email_in_use() {
    let mut store = Store::new();
    new_user(&mut store, "chris@mail.com", "chris");
    let res = store.create_user(
        CreateUserRequestModel {
            email: String::from("\tCHRIS@mail.com  "),
            password: String::from("pw"),
            name: String::from("imposter"),
            two_factor_auth: false,
        },
        String::from("hash-2"),
    );
    assert!(matches!(res, Err(UserError::EmailInUse(e)) if e == "chris@mail.com"));
    assert_eq!(1, store.users.len());
}

#[test]
fn test_get_and_update_user() {
    let mut store = Store::new();
    let id = new_user(&mut store, "a@b.c", "alpha");

    let got = store.get_user(id).unwrap();
    assert_eq!(id, got.id);
    assert_eq!("a@b.c", got.email);

    let updated = store
        .update_user(
            id,
            UpdateUserRequestModel {
                email: Some(String::from("new@b.c")),
                password: Some(String::from("secret")),
                name: None,
                two_factor_enabled: Some(true),
            },
            Some(String::from("new-hash")),
        )
        .unwrap();
    assert_eq!("new@b.c", updated.email);
    assert!(!updated.email_verified);
    assert_eq!("alpha", updated.name);
    assert!(updated.two_factor_enabled);
    assert_eq!("new-hash", store.users[0].password_hash);

    let missing = store.update_user(
        0xdead,
        UpdateUserRequestModel {
            email: None,
            password: None,
            name: None,
            two_factor_enabled: None,
        },
        None,
    );
    assert!(matches!(missing, Err(UserError::UserNotFound(u)) if u == 0xdead));
}

#[test]
fn test_delete_user() {
    let mut store = Store::new();
    let id = new_user(&mut store, "a@b.c", "alpha");
    store.delete_user(id).unwrap();
    assert_eq!(0, store.users.len());
    let res = store.delete_user(id);
    assert!(matches!(res, Err(UserError::UserNotFound(u)) if u == id));
}

#[test]
fn test_create_account_unknown_user() {
    let mut store = Store::new();
    let known = new_user(&mut store, "a@b.c", "alpha");
    let res = store.create_account(
        known,
        CreateAccountRequestModel {
            name: String::from("acct"),
            users: vec![
                AccountUserModel { user_id: known, role: Role::Admin },
                AccountUserModel { user_id: 0xbeef, role: Role::Read },
            ],
        },
        vec![String::from("t1"), String::from("t2")],
        NOW,
        &test_config(),
    );
    assert!(matches!(res, Err(AccountError::UserNotFound(u)) if u == 0xbeef));
    // The failed creation left nothing behind.
    assert_eq!(0, store.accounts.len());
    assert_eq!(0, store.account_users.len());
    assert_eq!(0, store.validations.len());
}

#[test]
fn test_upsert_user_account_insert_and_update() {
    let cfg = test_config();
    let mut store = Store::new();
    let admin = new_user(&mut store, "admin@b.c", "admin");
    let member = new_user(&mut store, "member@b.c", "member");
    let (resp, _) = store
        .create_account(
            admin,
            CreateAccountRequestModel {
                name: String::from("acct"),
                users: vec![AccountUserModel { user_id: admin, role: Role::Admin }],
            },
            vec![String::from("t-admin")],
            NOW,
            &cfg,
        )
        .unwrap();
    let account = resp.account_id;

    // Inserting a new member issues a validation and an email request.
    let email = store
        .upsert_user_account(
            account,
            admin,
            AccountUserModel { user_id: member, role: Role::Write },
            String::from("t-member"),
            NOW,
            &cfg,
        )
        .unwrap();
    let email = email.expect("new member should get a verification email");
    assert_eq!("member@b.c", email.email);
    assert_eq!("member", email.name);
    assert_eq!("t-member", email.token);
    assert_eq!(2, store.account_users.len());
    assert_eq!(2, store.validations.len());

    // Upserting an existing member only changes the role.
    let none = store
        .upsert_user_account(
            account,
            admin,
            AccountUserModel { user_id: member, role: Role::Admin },
            String::from("t-unused"),
            NOW,
            &cfg,
        )
        .unwrap();
    assert!(none.is_none());
    assert_eq!(2, store.account_users.len());
    assert_eq!(2, store.validations.len());
    let row = store
        .account_users
        .iter()
        .find(|au| au.user_id == member)
        .unwrap();
    assert!(matches!(row.role, Role::Admin));

    // A member below Admin may not upsert.
    let watcher = new_user(&mut store, "watcher@b.c", "watcher");
    store
        .upsert_user_account(
            account,
            admin,
            AccountUserModel { user_id: watcher, role: Role::Read },
            String::from("t-watcher"),
            NOW,
            &cfg,
        )
        .unwrap();
    let res = store.upsert_user_account(
        account,
        watcher,
        AccountUserModel { user_id: watcher, role: Role::Admin },
        String::from("t-x"),
        NOW,
        &cfg,
    );
    assert!(matches!(res, Err(AccountError::Auth(_))));
}

#[test]
fn test_remove_user_and_delete_account() {
    let cfg = test_config();
    let mut store = Store::new();
    let admin = new_user(&mut store, "admin@b.c", "admin");
    let member = new_user(&mut store, "member@b.c", "member");
    let (resp, _) = store
        .create_account(
            admin,
            CreateAccountRequestModel {
                name: String::from("acct"),
                users: vec![
                    AccountUserModel { user_id: admin, role: Role::Admin },
                    AccountUserModel { user_id: member, role: Role::Read },
                ],
            },
            vec![String::from("t1"), String::from("t2")],
            NOW,
            &cfg,
        )
        .unwrap();
    let account = resp.account_id;

    store.remove_user_from_account(admin, account, member).unwrap();
    assert_eq!(1, store.account_users.len());

    let res = store.remove_user_from_account(admin, account, member);
    assert!(matches!(
        res,
        Err(AccountError::AccountUserNotFound(a, u)) if a == account && u == member
    ));

    let due = store.delete_account(admin, account, NOW).unwrap();
    assert_eq!(NOW + DELETE_GRACE_MS, due);
    assert_eq!(Some(due), store.accounts[0].delete_on);
}

#[test]
fn test_get_account_and_infos() {
    let cfg = test_config();
    let mut store = Store::new();
    let admin = new_user(&mut store, "admin@b.c", "admin");
    let member = new_user(&mut store, "member@b.c", "member");
    let (resp, _) = store
        .create_account(
            admin,
            CreateAccountRequestModel {
                name: String::from("family"),
                users: vec![
                    AccountUserModel { user_id: admin, role: Role::Admin },
                    AccountUserModel { user_id: member, role: Role::Read },
                ],
            },
            vec![String::from("t1"), String::from("t2")],
            NOW,
            &cfg,
        )
        .unwrap();
    let account = resp.account_id;
    store
        .create_account(
            admin,
            CreateAccountRequestModel {
                name: String::from("solo"),
                users: vec![AccountUserModel { user_id: admin, role: Role::Admin }],
            },
            vec![String::from("t3")],
            NOW,
            &cfg,
        )
        .unwrap();

    let got = store.get_account(member, account).unwrap();
    assert_eq!(account, got.account_id);
    assert_eq!("family", got.name);
    assert_eq!(None, got.delete_on);
    assert_eq!(2, got.users.len());
    assert_eq!(admin, got.users[0].user_id);
    assert!(matches!(got.users[0].role, Role::Admin));
    assert_eq!(member, got.users[1].user_id);
    assert!(matches!(got.users[1].role, Role::Read));

    let infos = store.get_account_infos(admin);
    assert_eq!(2, infos.len());
    assert_eq!("family", infos[0].name);
    assert_eq!("solo", infos[1].name);

    let infos = store.get_account_infos(member);
    assert_eq!(1, infos.len());
    assert_eq!(account, infos[0].id);
    assert_eq!("family", infos[0].name);

    // A non-member cannot read the account.
    let outsider = new_user(&mut store, "x@b.c", "x");
    let res = store.get_account(outsider, account);
    assert!(matches!(res, Err(AccountError::Auth(_))));
}

#[test]
fn test_account_not_found() {
    let cfg = test_config();
    let mut store = Store::new();
    let admin = new_user(&mut store, "admin@b.c", "admin");
    let (resp, _) = store
        .create_account(
            admin,
            CreateAccountRequestModel {
                name: String::from("acct"),
                users: vec![AccountUserModel { user_id: admin, role: Role::Admin }],
            },
            vec![String::from("t-admin")],
            NOW,
            &cfg,
        )
        .unwrap();
    let account = resp.account_id;

    // Drop the account row while keeping the membership, as a store left
    // behind by a partial cleanup would: the member is still authorized,
    // but the account itself is gone.
    store.accounts.clear();

    let res = store.get_account(admin, account);
    assert!(matches!(res, Err(AccountError::AccountNotFound(a)) if a == account));
    let res = store.delete_account(admin, account, NOW);
    assert!(matches!(res, Err(AccountError::AccountNotFound(a)) if a == account));
}

#[test]
fn test_role_parse_round_trip() {
    for role in [Role::Read, Role::Write, Role::Admin] {
        let s = role.to_string();
        let back = Role::parse(&s).unwrap();
        assert_eq!(role, back);
    }
    let res = Role::parse(&String::from("Owner"));
    assert!(matches!(
        res,
        Err(schmeconomics::roles::AuthError::CouldNotParseRole(s)) if s == "Owner"
    ));
}
