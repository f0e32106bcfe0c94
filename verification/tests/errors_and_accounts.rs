use formvault::accounts::{Developer, Identifiable, Staff, StaffRole, User as AccountUser};
use formvault::entries::{EncryptedString, Encrypted, Form, FormEntry, FormType, NewsLetter};
use formvault::errors::ErrorResponse;
use formvault::routes::api_route_list;
use formvault::users::{CustomerType, User, UserType};
use formvault::FormVaultError;

#[test]
fn status_codes_follow_the_error_class() {
    assert_eq!(FormVaultError::NotFound.status_code(), 404);
    assert_eq!(FormVaultError::DeveloperNotFound.status_code(), 404);
    assert_eq!(FormVaultError::FormNotFound.status_code(), 404);
    assert_eq!(FormVaultError::SubmissionNotFound.status_code(), 404);
    assert_eq!(FormVaultError::Unauthorized.status_code(), 401);
    assert_eq!(FormVaultError::InvalidApiKey.status_code(), 401);
    assert_eq!(FormVaultError::ValidationFailed(vec![]).status_code(), 400);
    assert_eq!(FormVaultError::InvalidEmail.status_code(), 400);
    assert_eq!(FormVaultError::InvalidPublicKey.status_code(), 400);
    assert_eq!(FormVaultError::DuplicateEmail.status_code(), 400);
    assert_eq!(FormVaultError::FormLimitExceeded.status_code(), 429);
    assert_eq!(FormVaultError::SubmissionLimitExceeded.status_code(), 429);
    assert_eq!(FormVaultError::InactiveAccount.status_code(), 403);
    assert_eq!(FormVaultError::DatabaseError("x".to_string()).status_code(), 500);
    assert_eq!(FormVaultError::WebhookTimeout.status_code(), 500);
    assert_eq!(FormVaultError::InvalidTransition.status_code(), 500);
    assert_eq!(FormVaultError::PersistenceFailed("x".to_string()).status_code(), 500);
}

#[test]
fn messages_name_the_failure() {
    assert_eq!(FormVaultError::NotFound.message(), "Resource not found");
    assert_eq!(
        FormVaultError::DatabaseError("timeout".to_string()).message(),
        "Database error: timeout"
    );
    assert_eq!(
        FormVaultError::ValidationFailed(vec!["a".to_string(), "b".to_string(), "c".to_string()])
            .message(),
        "Validation failed: a, b, c"
    );
    assert_eq!(
        FormVaultError::ValidationFailed(vec![]).message(),
        "Validation failed: "
    );
    assert_eq!(
        FormVaultError::WebhookFailed("503".to_string()).message(),
        "Webhook delivery failed: 503"
    );
    assert_eq!(FormVaultError::WebhookTimeout.message(), "Webhook request timed out");
    assert_eq!(
        FormVaultError::EncryptionError("bad key".to_string()).message(),
        "Encryption error: bad key"
    );
    assert_eq!(
        FormVaultError::PersistenceFailed("disk full".to_string()).message(),
        "Persistence failed: disk full"
    );
}

#[test]
fn responses_hide_internals_and_keep_details() {
    let r: ErrorResponse = FormVaultError::NotFound.to_response();
    assert_eq!(r.error, "Resource not found");
    assert_eq!(r.code, "NOT_FOUND");
    assert!(r.details.is_none());

    let r = FormVaultError::InvalidApiKey.to_response();
    assert_eq!(r.error, "Access denied");
    assert_eq!(r.code, "UNAUTHORIZED");

    let r = FormVaultError::ValidationFailed(vec!["one".to_string(), "two".to_string()])
        .to_response();
    assert_eq!(r.error, "Validation failed");
    assert_eq!(r.code, "VALIDATION_ERROR");
    assert_eq!(r.details, Some(vec!["one".to_string(), "two".to_string()]));

    let r = FormVaultError::DuplicateEmail.to_response();
    assert_eq!(r.code, "DUPLICATE_EMAIL");

    let r = FormVaultError::SubmissionLimitExceeded.to_response();
    assert_eq!(r.code, "LIMIT_EXCEEDED");

    let r = FormVaultError::DatabaseError("secret dsn".to_string()).to_response();
    assert_eq!(r.error, "Internal server error");
    assert_eq!(r.code, "INTERNAL_ERROR");
    assert!(r.details.is_none());
}

#[test]
fn developer_registration_and_keys() {
    let long_key = "k".repeat(120);
    let dev = Developer::new("Dana".to_string(), "dana@example.org".to_string(), long_key.clone());
    assert_eq!(dev.name(), "Dana");
    assert_eq!(dev.email(), "dana@example.org");
    assert_eq!(dev.public_key(), long_key);
    assert!(dev.is_active());
    assert!(dev.api_key().starts_with("fv_"));
    assert_eq!(dev.api_key().len(), 3 + 32);

    // The registration decision.
    let taken = Developer::create_unique(
        "Dana".to_string(),
        "dana@example.org".to_string(),
        long_key.clone(),
        true,
    );
    assert!(matches!(taken, Err(FormVaultError::DuplicateEmail)));
    let short = Developer::create_unique(
        "Dana".to_string(),
        "dana@example.org".to_string(),
        "short".to_string(),
        false,
    );
    assert!(matches!(short, Err(FormVaultError::InvalidPublicKey)));
    let ok = Developer::create_unique(
        "Dana".to_string(),
        "dana@example.org".to_string(),
        long_key.clone(),
        false,
    );
    assert!(ok.is_ok());
}

#[test]
fn developer_key_rotation_and_deactivation() {
    let long_key = "k".repeat(120);
    let mut dev = Developer::new("D".to_string(), "d@e.f".to_string(), long_key);
    let old_api = dev.api_key().to_string();
    let new_api = dev.regenerate_api_key();
    assert_eq!(dev.api_key(), new_api);
    assert_ne!(new_api, old_api);

    let rotated = "p".repeat(150);
    assert!(dev.update_public_key(rotated.clone()).is_ok());
    assert_eq!(dev.public_key(), rotated);
    assert!(matches!(
        dev.update_public_key("tiny".to_string()),
        Err(FormVaultError::InvalidPublicKey)
    ));
    assert_eq!(dev.public_key(), rotated);

    dev.deactivate();
    assert!(!dev.is_active());
}

#[test]
fn developer_authentication_decision() {
    let long_key = "k".repeat(120);
    let dev = Developer::new("D".to_string(), "d@e.f".to_string(), long_key);
    let id = dev.id();
    let found = Developer::authenticate(Some(dev));
    assert_eq!(found.map(|d| d.id()).ok(), Some(id));
    assert!(matches!(
        Developer::authenticate(None),
        Err(FormVaultError::Unauthorized)
    ));
}

#[test]
fn staff_labels_and_permissions() {
    let base = AccountUser::new("s@example.org".to_string());
    let staff = Staff::new(base, StaffRole::Admin, vec!["read".to_string(), "write".to_string()]);
    assert_eq!(staff.role_label(), "Admin");
    assert_eq!(staff.permissions_json(), b"[\"read\",\"write\"]".to_vec());
    assert_eq!(staff.email(), "s@example.org");

    let base = AccountUser::new("t@example.org".to_string());
    let custom = Staff::new(base, StaffRole::Custom("oncall".to_string()), vec![]);
    assert_eq!(custom.role_label(), "Custom:oncall");
    assert_eq!(custom.permissions_json(), b"[]".to_vec());

    let base = AccountUser::new("u@example.org".to_string());
    let support = Staff::new(base, StaffRole::Support, vec!["respond \"fast\"".to_string()]);
    assert_eq!(support.role_label(), "Support");
    assert_eq!(
        support.permissions_json(),
        b"[\"respond \\\"fast\\\"\"]".to_vec()
    );
}

#[test]
fn user_kinds() {
    let u = User::new(
        "Kim".to_string(),
        "kim@example.org".to_string(),
        UserType::Customer(CustomerType::Beta),
    );
    assert_eq!(u.name, "Kim");
    assert_eq!(u.user_type, UserType::Customer(CustomerType::Beta));
    assert_ne!(u.user_type, UserType::Customer(CustomerType::Regular));
}

#[test]
fn encrypted_string_wraps_bytes() {
    let e = EncryptedString::new("opaque-bytes");
    assert_eq!(e.0, "opaque-bytes");
    assert_eq!(e.raw(), b"opaque-bytes");
    assert_eq!(e.content_type(), "an encrypted string");
    assert_eq!(e.encrypter().name, "form_vault_string_encrypter");
    assert_eq!(e.encrypter().version, "v1");
}

#[test]
fn newsletter_and_entries() {
    let n = NewsLetter::new("enc-name", "enc-email");
    assert!(matches!(n.form_type(), FormType::Newsletter));
    let mut entry: FormEntry<NewsLetter> = FormEntry::new(FormType::Newsletter);
    assert_eq!(entry.all().len(), 0);
    entry.add_submission(NewsLetter::new("a", "b"));
    entry.add_submission(NewsLetter::new("c", "d"));
    assert_eq!(entry.all().len(), 2);
}

#[test]
fn route_list_addresses_the_host() {
    let routes = api_route_list("https", "vault.example.org");
    assert_eq!(routes.len(), 2);
    assert_eq!(routes[0].method, "GET");
    assert_eq!(routes[0].url, "https://vault.example.org/health_check");
    assert_eq!(routes[0].description, Some("Health check endpoint"));
    assert_eq!(routes[1].url, "https://vault.example.org/");
    assert_eq!(routes[1].description, Some("API root"));
}
