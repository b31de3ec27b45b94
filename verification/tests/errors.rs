use tempshare::config::{AccountsConfig, Config, FilesConfig, ServiceConfig};
use tempshare::errors::{Error, ErrorPageDetails, ErrorResponse, ValidationFault};

#[test]
fn status_codes_match_the_failure_class() {
    assert_eq!(Error::FileNotFound.status_code(), 404);
    assert_eq!(Error::SiteDoesNotExist.status_code(), 404);
    assert_eq!(Error::Unauthorized.status_code(), 401);
    assert_eq!(Error::WrongPassword.status_code(), 401);
    assert_eq!(Error::RegistrationClosed.status_code(), 401);
    assert_eq!(
        Error::TokenWithThatNameExists("x".to_owned()).status_code(),
        409
    );
    assert_eq!(Error::BadFileID.status_code(), 400);
    assert_eq!(Error::PwHashing.status_code(), 500);
    assert_eq!(Error::MissingSalt.status_code(), 500);
    assert_eq!(Error::IdSpaceExhausted.status_code(), 500);
    assert_eq!(
        Error::Validation(ValidationFault::BadEmail).status_code(),
        500
    );
}

#[test]
fn messages_carry_their_payloads() {
    assert_eq!(Error::WrongPassword.message(), "Wrong login password");
    assert_eq!(
        Error::TokenWithThatNameExists("laptop".to_owned()).message(),
        "A token with this name already exists: laptop"
    );
    assert_eq!(
        Error::UnknownUserKind("overlord".to_owned()).message(),
        "Unknown user kind: overlord"
    );
    assert_eq!(
        Error::Validation(ValidationFault::BadPasswordLength).message(),
        "Validation of a datastructure failed: password length out of bounds"
    );
}

#[test]
fn error_pages_follow_the_status() {
    let unauthorized = ErrorPageDetails::from_error(&Error::WrongPassword);
    assert_eq!(unauthorized.code, 401);
    assert_eq!(unauthorized.icon, "slash-circle-fill");
    assert_eq!(unauthorized.heading, "401 Unauthorized");
    assert_eq!(unauthorized.message, "Wrong login password");

    let not_found = ErrorPageDetails::from_error(&Error::FileNotFound);
    assert_eq!(not_found.icon, "question-circle-fill");
    assert_eq!(not_found.heading, "404 Not Found");

    let conflict = ErrorPageDetails::from_error(&Error::TokenWithThatNameExists("x".to_owned()));
    assert_eq!(conflict.icon, "x");
    assert_eq!(conflict.heading, "409 Conflict");

    // Server errors hide internals behind a generic message.
    let server = ErrorPageDetails::from_error(&Error::PwHashing);
    assert_eq!(server.code, 500);
    assert_eq!(server.icon, "bug");
    assert_eq!(server.heading, "500 Internal Server Error");
    assert_eq!(
        server.message,
        "The server ran into a problem it did not know how to handle. Please contact the administrator."
    );

    let wrapped = ErrorResponse { error: Error::BadFileID };
    assert_eq!(wrapped.error.status_code(), 400);
}

fn demo_config() -> Config {
    Config {
        files: FilesConfig {
            max_size_kb_anon: 1024,
            max_size_kb_users: 4096,
            max_storage_per_user: 0,
            max_storage: 0,
            storage_dir: "/tmp/storage".to_owned(),
            default_expiration_days: 7,
            delete_old_files: true,
        },
        accounts: AccountsConfig { allow_anon: true, allow_registration: true },
        service: ServiceConfig {
            secret: "a demo session secret".to_owned(),
            rate_limit_window_ms: 1000,
            rate_limit_max_uploads: 10,
            db_sqlite: "/tmp/db.sqlite".to_owned(),
            bind: "127.0.0.1:8080".to_owned(),
            base_url: "http://localhost:8080".to_owned(),
            data_dir: "/tmp/data".to_owned(),
            clear_interval: 5,
        },
    }
}

#[test]
fn config_arithmetic() {
    let config = demo_config();
    assert_eq!(config.largest_possible_upload(), 4096 * 1024);
    assert_eq!(config.max_upload_size(false), 1024 * 1024);
    assert_eq!(config.max_upload_size(true), 4096 * 1024);
    assert_eq!(config.expiration_offset_seconds(), 7 * 86400);
    assert_eq!(config.garbage_collection_duration(), 300);
}

#[test]
fn anonymous_uploads_follow_the_policy_switch() {
    let mut config = demo_config();
    assert!(config.upload_permitted(false));
    assert!(config.upload_permitted(true));
    config.accounts.allow_anon = false;
    assert!(!config.upload_permitted(false));
    assert!(config.upload_permitted(true));
}
