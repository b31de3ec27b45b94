use rand::rngs::StdRng;
use rand::SeedableRng;
use tempshare::errors::{Error, ValidationFault};
use tempshare::store::{Store, TokenRecord, User};
use tempshare::token::{revoke_token, ApiV1TokenRequest, CredentialDuration};
use tempshare::user::{verify_login, UserKind, UserLoginData, UserLoginDataApiV1, UserRegisterData};

const NOW: i64 = 1_700_000_000;

fn register_one(store: &mut Store, email: &str, username: &str) -> User {
    User::register(
        UserRegisterData {
            email: email.to_owned(),
            password: "a long password".to_owned(),
            username: username.to_owned(),
        },
        UserKind::Standard,
        store,
        NOW,
    )
    .unwrap()
}

fn request(name: &str, duration: CredentialDuration) -> ApiV1TokenRequest {
    ApiV1TokenRequest {
        requested_duration: duration,
        token_name: name.to_owned(),
    }
}

#[test]
fn token_authenticates_until_expiry() {
    let mut store = Store::new();
    let mut rng = StdRng::seed_from_u64(7);
    let owner = register_one(&mut store, "carol@example.com", "carol");

    let (secret, record) = owner
        .create_api_v1_token(request("laptop", CredentialDuration::D30), &mut rng, &mut store, NOW)
        .unwrap();
    assert!(secret.starts_with("tfr_"));
    assert_eq!(secret.len(), 40);
    assert_eq!(record.expiration_time, NOW + 30 * 86400);
    assert_eq!(record.creation_time, NOW);
    assert_ne!(record.token_hash, secret);

    let cred = UserLoginData::ApiV1(UserLoginDataApiV1 { token: secret });
    // Valid at issuance, and still at the expiration instant itself.
    let got = verify_login(&store, &cred, NOW).unwrap();
    assert_eq!(got.id(), owner.id());
    let at_expiry = verify_login(&store, &cred, record.expiration_time).unwrap();
    assert_eq!(at_expiry.id(), owner.id());
    // One second past the instant the row still exists, yet verification fails.
    let past = verify_login(&store, &cred, record.expiration_time + 1);
    assert!(matches!(past, Err(Error::WrongPassword)));
    assert_eq!(store.tokens.len(), 1);
}

#[test]
fn duplicate_name_rejected_per_owner_only() {
    let mut store = Store::new();
    let mut rng = StdRng::seed_from_u64(8);
    let a = register_one(&mut store, "a@example.com", "usera");
    let b = register_one(&mut store, "b@example.com", "userb");

    a.create_api_v1_token(request("same-name", CredentialDuration::D90), &mut rng, &mut store, NOW)
        .unwrap();
    let again = a.create_api_v1_token(
        request("same-name", CredentialDuration::D90),
        &mut rng,
        &mut store,
        NOW,
    );
    match again {
        Err(Error::TokenWithThatNameExists(name)) => assert_eq!(name, "same-name"),
        other => panic!("expected TokenWithThatNameExists, got {other:?}"),
    }
    // A different owner may use the very same name.
    b.create_api_v1_token(request("same-name", CredentialDuration::D90), &mut rng, &mut store, NOW)
        .unwrap();
    assert_eq!(store.tokens.len(), 2);
}

#[test]
fn token_name_length_validated() {
    let mut store = Store::new();
    let mut rng = StdRng::seed_from_u64(9);
    let owner = register_one(&mut store, "short@example.com", "short");
    let r = owner.create_api_v1_token(
        request("abcd", CredentialDuration::D30),
        &mut rng,
        &mut store,
        NOW,
    );
    assert!(matches!(
        r,
        Err(Error::Validation(ValidationFault::BadTokenNameLength))
    ));
}

#[test]
fn duration_tiers_map_to_days() {
    assert_eq!(CredentialDuration::D30.days(), 30);
    assert_eq!(CredentialDuration::D90.days(), 90);
    assert_eq!(CredentialDuration::D365.days(), 365);
    let req = request("a name", CredentialDuration::D365);
    assert_eq!(req.expiration_timestamp(NOW), NOW + 365 * 86400);
}

#[test]
fn listing_includes_expired_tokens() {
    let mut store = Store::new();
    let mut rng = StdRng::seed_from_u64(10);
    let owner = register_one(&mut store, "list@example.com", "lister");
    let other = register_one(&mut store, "other@example.com", "other");

    owner
        .create_api_v1_token(request("fresh", CredentialDuration::D30), &mut rng, &mut store, NOW)
        .unwrap();
    owner
        .create_api_v1_token(request("stale", CredentialDuration::D30), &mut rng, &mut store, NOW)
        .unwrap();
    other
        .create_api_v1_token(request("theirs", CredentialDuration::D30), &mut rng, &mut store, NOW)
        .unwrap();
    // Age the second token far past its expiration.
    store.tokens[1].expiration_time = NOW - 1;

    let listed = owner.tokens(&store);
    assert_eq!(listed.len(), 2);
    assert_eq!(listed[0].name, "fresh");
    assert_eq!(listed[1].name, "stale");
}

#[test]
fn revoking_by_name_removes_only_the_owners_token() {
    let mut store = Store::new();
    let mut rng = StdRng::seed_from_u64(11);
    let a = register_one(&mut store, "ra@example.com", "ruth");
    let b = register_one(&mut store, "rb@example.com", "rene");
    a.create_api_v1_token(request("shared", CredentialDuration::D30), &mut rng, &mut store, NOW)
        .unwrap();
    b.create_api_v1_token(request("shared", CredentialDuration::D30), &mut rng, &mut store, NOW)
        .unwrap();

    let removed: Option<TokenRecord> = revoke_token(&mut store, a.id(), "shared");
    let removed = removed.unwrap();
    assert_eq!(removed.user_id, a.id());
    assert_eq!(removed.name, "shared");
    assert_eq!(store.tokens.len(), 1);
    assert_eq!(store.tokens[0].user_id, b.id());

    assert!(revoke_token(&mut store, a.id(), "shared").is_none());
    assert_eq!(store.tokens.len(), 1);
}

#[test]
fn token_record_without_salt_is_an_integrity_error() {
    let mut store = Store::new();
    let owner = register_one(&mut store, "salty@example.com", "salty");
    store.tokens.push(TokenRecord {
        user_id: owner.id(),
        name: "broken".to_owned(),
        token_hash: "$argon2id$v=19$m=19456,t=2,p=1".to_owned(),
        creation_time: NOW,
        expiration_time: NOW + 86400,
    });
    let cred = UserLoginData::ApiV1(UserLoginDataApiV1 {
        token: "tfr_0123456789012345678901234567890123456789".to_owned(),
    });
    match verify_login(&store, &cred, NOW) {
        Err(Error::NoSaltStoredForToken(name)) => assert_eq!(name, "broken"),
        other => panic!("expected NoSaltStoredForToken, got {other:?}"),
    }
}
