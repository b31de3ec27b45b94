use tempshare::errors::{Error, ValidationFault};
use tempshare::hashing::{generate_salt, hash_secret, verify_secret};
use tempshare::store::{Store, User};
use tempshare::user::{
    login, verify_login, UserKind, UserLoginData, UserLoginDataApiV1, UserLoginDataWeb,
    UserRegisterData,
};

const NOW: i64 = 1_700_000_000;

fn register_one(store: &mut Store, email: &str, password: &str, username: &str) -> User {
    User::register(
        UserRegisterData {
            email: email.to_owned(),
            password: password.to_owned(),
            username: username.to_owned(),
        },
        UserKind::Standard,
        store,
        NOW,
    )
    .unwrap()
}

#[test]
fn registered_pair_verifies() {
    let mut store = Store::new();
    let user = register_one(&mut store, "alice@example.com", "correct horse battery", "alice");
    assert_eq!(user.email(), "alice@example.com");
    assert_eq!(user.username(), "alice");

    let got = verify_login(
        &store,
        &UserLoginData::Web(UserLoginDataWeb {
            email: "alice@example.com".to_owned(),
            password: "correct horse battery".to_owned(),
        }),
        NOW,
    )
    .unwrap();
    assert_eq!(got.email(), "alice@example.com");
    assert_eq!(got.id(), user.id());
}

#[test]
fn wrong_password_and_unknown_user_give_same_signal() {
    let mut store = Store::new();
    register_one(&mut store, "bob@example.com", "a long password", "bob");

    let wrong_password = verify_login(
        &store,
        &UserLoginData::Web(UserLoginDataWeb {
            email: "bob@example.com".to_owned(),
            password: "a wrong password".to_owned(),
        }),
        NOW,
    );
    let unknown_user = verify_login(
        &store,
        &UserLoginData::Web(UserLoginDataWeb {
            email: "nobody@example.com".to_owned(),
            password: "a long password".to_owned(),
        }),
        NOW,
    );
    assert!(matches!(wrong_password, Err(Error::WrongPassword)));
    assert!(matches!(unknown_user, Err(Error::WrongPassword)));
}

#[test]
fn login_keeps_not_found_distinct_before_collapse() {
    let store = Store::new();
    let r = login(
        &store,
        &UserLoginData::Web(UserLoginDataWeb {
            email: "ghost@example.com".to_owned(),
            password: "some password!".to_owned(),
        }),
        NOW,
    );
    assert!(matches!(r, Err(Error::UserDoesNotExist)));
}

#[test]
fn malformed_credentials_never_touch_the_store() {
    let store = Store::new();
    let bad_email = UserLoginData::Web(UserLoginDataWeb {
        email: "not-an-email".to_owned(),
        password: "long enough password".to_owned(),
    });
    assert!(matches!(
        bad_email.validate(),
        Err(Error::Validation(ValidationFault::BadEmail))
    ));
    assert!(matches!(
        verify_login(&store, &bad_email, NOW),
        Err(Error::Validation(ValidationFault::BadEmail))
    ));

    let short_password = UserLoginData::Web(UserLoginDataWeb {
        email: "ok@example.com".to_owned(),
        password: "short".to_owned(),
    });
    assert!(matches!(
        short_password.validate(),
        Err(Error::Validation(ValidationFault::BadPasswordLength))
    ));

    let short_token = UserLoginData::ApiV1(UserLoginDataApiV1 {
        token: "tfr_tooshort".to_owned(),
    });
    assert!(matches!(
        short_token.validate(),
        Err(Error::Validation(ValidationFault::BadTokenLength))
    ));
}

#[test]
fn register_validates_and_refuses_duplicates() {
    let mut store = Store::new();
    let bad = User::register(
        UserRegisterData {
            email: "x@example.com".to_owned(),
            password: "long enough password".to_owned(),
            username: "ab".to_owned(),
        },
        UserKind::Standard,
        &mut store,
        NOW,
    );
    assert!(matches!(
        bad,
        Err(Error::Validation(ValidationFault::BadUsernameLength))
    ));

    register_one(&mut store, "dup@example.com", "a long password", "dup");
    let again = User::register(
        UserRegisterData {
            email: "dup@example.com".to_owned(),
            password: "another long password".to_owned(),
            username: "other".to_owned(),
        },
        UserKind::Standard,
        &mut store,
        NOW,
    );
    assert!(matches!(again, Err(Error::UserExists)));

    let same_name = User::register(
        UserRegisterData {
            email: "fresh@example.com".to_owned(),
            password: "another long password".to_owned(),
            username: "dup".to_owned(),
        },
        UserKind::Standard,
        &mut store,
        NOW,
    );
    assert!(matches!(same_name, Err(Error::UserExists)));
}

#[test]
fn register_reports_exhausted_identifier_space() {
    let mut store = Store::new();
    register_one(&mut store, "top@example.com", "a long password", "top");
    // Force the highest identifier to the ceiling.
    store.users[0].id = u64::MAX;
    let top = User::get_by_id(u64::MAX, &store).unwrap();
    assert_eq!(top.id(), u64::MAX);
    let r = User::register(
        UserRegisterData {
            email: "next@example.com".to_owned(),
            password: "a long password".to_owned(),
            username: "next".to_owned(),
        },
        UserKind::Standard,
        &mut store,
        NOW,
    );
    assert!(matches!(r, Err(Error::IdSpaceExhausted)));
}

#[test]
fn hash_verify_round_trip() {
    let salt = generate_salt();
    let stored = hash_secret("my deep secret", &salt).unwrap();
    assert!(verify_secret("my deep secret", &stored).unwrap());

    // Altering any single character of the secret must fail verification.
    let secret: &str = "my deep secret";
    for i in 0..secret.len() {
        let mut altered: Vec<u8> = secret.as_bytes().to_vec();
        altered[i] = if altered[i] == b'x' { b'y' } else { b'x' };
        let altered = String::from_utf8(altered).unwrap();
        assert!(!verify_secret(&altered, &stored).unwrap());
    }
}

#[test]
fn corrupt_stored_hashes_are_surfaced_distinctly() {
    // Not a PHC string at all: a hashing error.
    assert!(matches!(
        verify_secret("anything", "not a phc string"),
        Err(Error::PwHashing)
    ));
    // Parses, but embeds no salt: a distinct integrity error.
    assert!(matches!(
        verify_secret("anything", "$argon2id$v=19$m=19456,t=2,p=1"),
        Err(Error::MissingSalt)
    ));
}

#[test]
fn user_kind_round_trip() {
    assert_eq!(UserKind::from_str("administrator").unwrap(), UserKind::Admin);
    assert_eq!(UserKind::from_str("standard").unwrap(), UserKind::Standard);
    assert_eq!(UserKind::from_str("anonymous").unwrap(), UserKind::Anonymous);
    assert_eq!(UserKind::default(), UserKind::Standard);
    match UserKind::from_str("overlord") {
        Err(Error::UnknownUserKind(s)) => assert_eq!(s, "overlord"),
        other => panic!("expected UnknownUserKind, got {other:?}"),
    }
    let mut store = Store::new();
    let u = register_one(&mut store, "kinds@example.com", "a long password", "kinds");
    assert_eq!(u.kind().unwrap(), UserKind::Standard);
}
