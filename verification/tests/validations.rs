use schmeconomics::accounts::{AccountUserModel, CreateAccountRequestModel};
use schmeconomics::roles::Role;
use schmeconomics::store::{Store, Validation};
use schmeconomics::users::CreateUserRequestModel;
use schmeconomics::validations::{Config, Error, ValidationContext, ValidationKind};

const NOW: i64 = 1731240214000;

fn test_config() -> Config {
    Config { verify_email_lt_s: 600, add_account_lt_s: 1200 }
}

fn store_with_user() -> (Store, u128) {
    let mut store = Store::new();
    let user = store
        .create_user(
            CreateUserRequestModel {
                email: String::from("user1@mail.com"),
                password: String::from("password"),
                name: String::from("tester 1"),
                two_factor_auth: false,
            },
            String::from("password"),
        )
        .unwrap()
        .id;
    (store, user)
}

#[test]
fn test_verify_email_token_consumed() {
    let (mut store, user) = store_with_user();
    let cfg = test_config();
    let token = store
        .add_validation(
            ValidationContext::VerifyEmail { user_id: user },
            String::from("token-1"),
            NOW,
            &cfg,
        )
        .unwrap();
    assert_eq!("token-1", token);
    assert_eq!(1, store.validations.len());
    assert_eq!(NOW + 600 * 1000, store.validations[0].valid_until);
    assert!(!store.users[0].email_verified);

    store
        .validate(ValidationKind::VerifyEmail, token.clone(), NOW + 1000)
        .unwrap();
    assert!(store.users[0].email_verified);
    assert_eq!(0, store.validations.len());
}

#[test]
fn test_validation_single_use() {
    let (mut store, user) = store_with_user();
    let cfg = test_config();
    let token = store
        .add_validation(
            ValidationContext::VerifyEmail { user_id: user },
            String::from("token-2"),
            NOW,
            &cfg,
        )
        .unwrap();
    store
        .validate(ValidationKind::VerifyEmail, token.clone(), NOW + 1)
        .unwrap();

    // The token was consumed: a second validation finds nothing.
    let res = store.validate(ValidationKind::VerifyEmail, token.clone(), NOW + 2);
    assert!(matches!(res, Err(Error::ValidationNotFound(t)) if t == token));
}

#[test]
fn test_validation_not_found() {
    let (mut store, _user) = store_with_user();
    let res = store.validate(ValidationKind::VerifyEmail, String::from("missing"), NOW);
    assert!(matches!(res, Err(Error::ValidationNotFound(t)) if t == "missing"));
}

#[test]
fn test_validation_expired_row_persists() {
    let (mut store, user) = store_with_user();
    let cfg = test_config();
    let token = store
        .add_validation(
            ValidationContext::VerifyEmail { user_id: user },
            String::from("token-3"),
            NOW,
            &cfg,
        )
        .unwrap();

    let res = store.validate(
        ValidationKind::VerifyEmail,
        token.clone(),
        NOW + 600 * 1000 + 1,
    );
    assert!(matches!(res, Err(Error::ValidationExpired(t)) if t == token));
    // The expired row is kept, and the user stays unverified.
    assert_eq!(1, store.validations.len());
    assert!(!store.users[0].email_verified);

    // Exactly at the boundary the token is still valid.
    store
        .validate(ValidationKind::VerifyEmail, token, NOW + 600 * 1000)
        .unwrap();
    assert!(store.users[0].email_verified);
}

#[test]
fn test_validation_kind_mismatch() {
    let (mut store, user) = store_with_user();
    let cfg = test_config();
    let token = store
        .add_validation(
            ValidationContext::VerifyEmail { user_id: user },
            String::from("token-4"),
            NOW,
            &cfg,
        )
        .unwrap();

    let res = store.validate(ValidationKind::AddAccount, token.clone(), NOW + 1);
    assert!(matches!(
        res,
        Err(Error::MismatchedValidation(ValidationKind::AddAccount,
            ValidationContext::VerifyEmail { user_id })) if user_id == user
    ));
    // A mismatch does not consume the token.
    assert_eq!(1, store.validations.len());
}

#[test]
fn test_validation_corrupt_context() {
    let (mut store, _user) = store_with_user();
    store.validations.push(Validation {
        id: 7,
        token: String::from("token-5"),
        context: vec![9, 9, 9],
        valid_until: NOW + 1000,
    });
    let res = store.validate(ValidationKind::VerifyEmail, String::from("token-5"), NOW);
    assert!(matches!(res, Err(Error::DeserializeContextError)));
}

#[test]
fn test_add_account_token_verifies_membership() {
    let (mut store, user) = store_with_user();
    let cfg = test_config();
    let (resp, emails) = store
        .create_account(
            user,
            CreateAccountRequestModel {
                name: String::from("family"),
                users: vec![AccountUserModel { user_id: user, role: Role::Admin }],
            },
            vec![String::from("join-token")],
            NOW,
            &cfg,
        )
        .unwrap();
    assert_eq!(1, emails.len());
    assert_eq!("user1@mail.com", emails[0].email);
    assert_eq!("join-token", emails[0].token);
    assert!(!store.account_users[0].verified);
    assert_eq!(NOW + 1200 * 1000, store.validations[0].valid_until);

    store
        .validate(ValidationKind::AddAccount, String::from("join-token"), NOW + 1)
        .unwrap();
    assert!(store.account_users[0].verified);
    assert_eq!(resp.account_id, store.account_users[0].account_id);
    assert_eq!(0, store.validations.len());
}
