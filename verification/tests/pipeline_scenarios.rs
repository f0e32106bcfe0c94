use formvault::crypto::generate_keypair;
use formvault::data::FormData;
use formvault::pipeline::{StoreError, SubmissionStore};
use formvault::schema::{FieldDefinition, FieldType, FormSchema, ValidationRules};
use formvault::submission::{FormSubmission, SubmissionMetadata, SubmissionStatus};
use formvault::webhook::{AttemptOutcome, RetryPolicy, WebhookTransport};
use formvault::FormVaultError;

struct MemoryStore {
    saved: Vec<(u128, SubmissionStatus)>,
    updates: Vec<(u128, SubmissionStatus)>,
    fail_save: bool,
    fail_update: bool,
}

impl MemoryStore {
    fn new() -> MemoryStore {
        MemoryStore { saved: Vec::new(), updates: Vec::new(), fail_save: false, fail_update: false }
    }
}

impl SubmissionStore for MemoryStore {
    fn save(&mut self, submission: &FormSubmission) -> Result<(), StoreError> {
        if self.fail_save {
            return Err(StoreError { message: "disk full".to_string() });
        }
        self.saved.push((submission.id, submission.status));
        Ok(())
    }

    fn update_status(&mut self, submission: &FormSubmission) -> Result<(), StoreError> {
        if self.fail_update {
            return Err(StoreError { message: "connection lost".to_string() });
        }
        self.updates.push((submission.id, submission.status));
        Ok(())
    }

    fn find_by_schema(&self, _schema_id: u128) -> Vec<FormSubmission> {
        Vec::new()
    }
}

enum Responder {
    AlwaysOk,
    AlwaysRefused,
    StatusCode(u16),
    FailThenOk(u32),
}

struct FakeTransport {
    responder: Responder,
    posts: u32,
    waits: Vec<u64>,
}

impl FakeTransport {
    fn new(responder: Responder) -> FakeTransport {
        FakeTransport { responder, posts: 0, waits: Vec::new() }
    }
}

impl WebhookTransport for FakeTransport {
    fn post(&mut self, _url: &str, _payload: &[u8], _timeout_ms: u64) -> AttemptOutcome {
        self.posts += 1;
        match self.responder {
            Responder::AlwaysOk => AttemptOutcome::Status(200),
            Responder::AlwaysRefused => {
                AttemptOutcome::ConnectionFailed("connection refused".to_string())
            },
            Responder::StatusCode(c) => AttemptOutcome::Status(c),
            Responder::FailThenOk(n) => {
                if self.posts <= n {
                    AttemptOutcome::TimedOut
                } else {
                    AttemptOutcome::Status(204)
                }
            },
        }
    }

    fn wait(&mut self, delay_ms: u64) {
        self.waits.push(delay_ms);
    }
}

fn schema(public_key: String, webhook_url: Option<String>) -> FormSchema {
    let fields = vec![FieldDefinition {
        id: "email".to_string(),
        name: "Email".to_string(),
        field_type: FieldType::Email,
        required: true,
        validation_rules: ValidationRules { regex: None, custom_error_message: None },
    }];
    let mut s = FormSchema::new("Signup".to_string(), 3, public_key, fields);
    s.webhook_url = webhook_url;
    s
}

fn good_data() -> FormData {
    let mut data = FormData::new();
    data.insert("email".to_string(), "dana@example.org".to_string());
    data
}

fn metadata() -> SubmissionMetadata {
    SubmissionMetadata { ip_address: None, user_agent: None, referrer: None, country: None }
}

#[test]
fn webhook_unreachable_ends_failed_after_three_attempts() {
    let (public_key, _) = generate_keypair();
    let schema = schema(public_key, Some("http://localhost:9/hook".to_string()));
    let mut store = MemoryStore::new();
    let mut transport = FakeTransport::new(Responder::AlwaysRefused);
    let policy = RetryPolicy::default();
    let submission = schema
        .process_submission(&good_data(), metadata(), &mut store, &mut transport, &policy)
        .expect("delivery failure is not a pipeline failure");
    assert_eq!(transport.posts, 3);
    assert_eq!(submission.status, SubmissionStatus::Failed);
    let reason = submission.failure_reason.clone().unwrap();
    assert!(reason.contains("connection error"), "reason was {reason}");
    // The submission was persisted before delivery was attempted.
    assert_eq!(store.saved.len(), 1);
    assert_eq!(store.saved[0].1, SubmissionStatus::New);
    // The failed status was persisted afterwards.
    assert_eq!(store.updates.len(), 1);
    assert_eq!(store.updates[0].1, SubmissionStatus::Failed);
    // Backoff doubled between attempts.
    assert_eq!(transport.waits, vec![500, 1000]);
}

#[test]
fn no_webhook_leaves_submission_new() {
    let (public_key, _) = generate_keypair();
    let schema = schema(public_key, None);
    let mut store = MemoryStore::new();
    let mut transport = FakeTransport::new(Responder::AlwaysOk);
    let policy = RetryPolicy::default();
    let submission = schema
        .process_submission(&good_data(), metadata(), &mut store, &mut transport, &policy)
        .expect("pipeline should succeed");
    assert_eq!(submission.status, SubmissionStatus::New);
    assert!(submission.failure_reason.is_none());
    assert_eq!(transport.posts, 0);
    assert_eq!(store.saved.len(), 1);
    assert_eq!(store.updates.len(), 0);
}

#[test]
fn save_failure_aborts_pipeline() {
    let (public_key, _) = generate_keypair();
    let schema = schema(public_key, Some("http://localhost:9/hook".to_string()));
    let mut store = MemoryStore::new();
    store.fail_save = true;
    let mut transport = FakeTransport::new(Responder::AlwaysOk);
    let policy = RetryPolicy::default();
    let r = schema.process_submission(&good_data(), metadata(), &mut store, &mut transport, &policy);
    match r {
        Err(FormVaultError::PersistenceFailed(msg)) => assert_eq!(msg, "disk full"),
        _ => panic!("expected PersistenceFailed"),
    }
    // No submission is retrievable for the attempt, and no delivery ran.
    assert_eq!(store.saved.len(), 0);
    assert_eq!(store.updates.len(), 0);
    assert_eq!(transport.posts, 0);
}

#[test]
fn successful_delivery_ends_delivered() {
    let (public_key, private_key) = generate_keypair();
    let schema = schema(public_key, Some("http://localhost:9/hook".to_string()));
    let mut store = MemoryStore::new();
    let mut transport = FakeTransport::new(Responder::AlwaysOk);
    let policy = RetryPolicy::default();
    let submission = schema
        .process_submission(&good_data(), metadata(), &mut store, &mut transport, &policy)
        .expect("pipeline should succeed");
    assert_eq!(submission.status, SubmissionStatus::Delivered);
    assert!(submission.failure_reason.is_none());
    assert_eq!(transport.posts, 1);
    assert_eq!(store.updates, vec![(submission.id, SubmissionStatus::Delivered)]);
    // What was recorded decrypts back to what was submitted.
    let recovered =
        formvault::crypto::decrypt(&submission.encrypted_data, &submission.encrypted_key, &private_key)
            .expect("the developer can decrypt the record");
    assert_eq!(recovered.entries(), good_data().entries());
}

#[test]
fn validation_failure_creates_nothing() {
    let (public_key, _) = generate_keypair();
    let schema = schema(public_key, Some("http://localhost:9/hook".to_string()));
    let mut store = MemoryStore::new();
    let mut transport = FakeTransport::new(Responder::AlwaysOk);
    let policy = RetryPolicy::default();
    let r = schema.process_submission(
        &FormData::new(),
        metadata(),
        &mut store,
        &mut transport,
        &policy,
    );
    match r {
        Err(FormVaultError::ValidationFailed(errors)) => {
            assert_eq!(errors, vec!["Field 'Email' is required".to_string()]);
        },
        _ => panic!("expected ValidationFailed"),
    }
    assert_eq!(store.saved.len(), 0);
    assert_eq!(transport.posts, 0);
}

#[test]
fn encryption_failure_creates_nothing() {
    let schema = schema("not-a-key".to_string(), None);
    let mut store = MemoryStore::new();
    let mut transport = FakeTransport::new(Responder::AlwaysOk);
    let policy = RetryPolicy::default();
    let r = schema.process_submission(&good_data(), metadata(), &mut store, &mut transport, &policy);
    assert!(matches!(r, Err(FormVaultError::EncryptionError(_))));
    assert_eq!(store.saved.len(), 0);
}

#[test]
fn non_2xx_status_counts_as_failure() {
    let (public_key, _) = generate_keypair();
    let schema = schema(public_key, Some("http://localhost:9/hook".to_string()));
    let mut store = MemoryStore::new();
    let mut transport = FakeTransport::new(Responder::StatusCode(503));
    let policy = RetryPolicy { max_attempts: 2, base_delay_ms: 10, timeout_ms: 1000 };
    let submission = schema
        .process_submission(&good_data(), metadata(), &mut store, &mut transport, &policy)
        .expect("delivery failure is not a pipeline failure");
    assert_eq!(transport.posts, 2);
    assert_eq!(submission.status, SubmissionStatus::Failed);
    assert_eq!(submission.failure_reason.as_deref(), Some("webhook returned status 503"));
}

#[test]
fn retry_succeeds_within_budget() {
    let (public_key, _) = generate_keypair();
    let schema = schema(public_key, Some("http://localhost:9/hook".to_string()));
    let mut store = MemoryStore::new();
    let mut transport = FakeTransport::new(Responder::FailThenOk(2));
    let policy = RetryPolicy::default();
    let submission = schema
        .process_submission(&good_data(), metadata(), &mut store, &mut transport, &policy)
        .expect("pipeline should succeed");
    assert_eq!(transport.posts, 3);
    assert_eq!(submission.status, SubmissionStatus::Delivered);
}

#[test]
fn retry_webhook_redelivers_failed_submission() {
    let mut submission =
        FormSubmission::new(3, "ed".to_string(), "ek".to_string(), metadata());
    submission.mark_processing().unwrap();
    submission.mark_failed("request timed out".to_string()).unwrap();
    let mut store = MemoryStore::new();
    let mut transport = FakeTransport::new(Responder::AlwaysOk);
    let policy = RetryPolicy::default();
    let url = Some("http://localhost:9/hook".to_string());
    submission
        .retry_webhook(&url, &mut store, &mut transport, &policy)
        .expect("retry should run");
    assert_eq!(submission.status, SubmissionStatus::Delivered);
    assert!(submission.failure_reason.is_none());
    assert_eq!(store.updates.len(), 1);
    // A delivered submission cannot re-enter delivery.
    let refused = submission.retry_webhook(&url, &mut store, &mut transport, &policy);
    assert!(matches!(refused, Err(FormVaultError::InvalidTransition)));
    // With no webhook configured nothing happens.
    let mut other = FormSubmission::new(3, "e".to_string(), "k".to_string(), metadata());
    other.retry_webhook(&None, &mut store, &mut transport, &policy).unwrap();
    assert_eq!(other.status, SubmissionStatus::New);
}

#[test]
fn retry_webhook_surfaces_a_refused_status_update() {
    let mut submission =
        FormSubmission::new(3, "ed".to_string(), "ek".to_string(), metadata());
    submission.mark_processing().unwrap();
    submission.mark_failed("request timed out".to_string()).unwrap();
    let mut store = MemoryStore::new();
    store.fail_update = true;
    let mut transport = FakeTransport::new(Responder::AlwaysOk);
    let policy = RetryPolicy::default();
    let url = Some("http://localhost:9/hook".to_string());
    let r = submission.retry_webhook(&url, &mut store, &mut transport, &policy);
    // The transition stands; the refused update is reported.
    match r {
        Err(FormVaultError::DatabaseError(msg)) => assert_eq!(msg, "connection lost"),
        _ => panic!("expected DatabaseError"),
    }
    assert_eq!(submission.status, SubmissionStatus::Delivered);
    assert!(submission.failure_reason.is_none());
}

#[test]
fn delivery_payload_is_json_with_the_record() {
    let submission = FormSubmission::new(
        3,
        "abcd".to_string(),
        "ef01".to_string(),
        SubmissionMetadata {
            ip_address: Some("192.0.2.1".to_string()),
            user_agent: Some("agent \"quoted\"".to_string()),
            referrer: None,
            country: Some("NZ".to_string()),
        },
    );
    let payload = formvault::webhook::delivery_payload(&submission);
    let text = String::from_utf8(payload).expect("payload is UTF-8");
    assert!(text.starts_with("{\"submission_id\":\""));
    assert!(text.ends_with("}"));
    assert!(text.contains("\"encrypted_data\":\"abcd\""));
    assert!(text.contains("\"encrypted_key\":\"ef01\""));
    assert!(text.contains("\"ip_address\":\"192.0.2.1\""));
    assert!(text.contains("\"user_agent\":\"agent \\\"quoted\\\"\""));
    assert!(text.contains("\"referrer\":null"));
    assert!(text.contains("\"country\":\"NZ\""));
    assert!(text.contains("\"created_at\":\""));
}

#[test]
fn created_at_is_formatted_iso8601() {
    let submission = FormSubmission {
        id: 1,
        form_schema_id: 2,
        encrypted_data: "aa".to_string(),
        encrypted_key: "bb".to_string(),
        metadata: metadata(),
        created_at: 1_000_000_000_000,
        status: SubmissionStatus::New,
        failure_reason: None,
    };
    let payload = formvault::webhook::delivery_payload(&submission);
    let text = String::from_utf8(payload).expect("payload is UTF-8");
    assert!(
        text.contains("\"created_at\":\"2001-09-09T01:46:40+00:00\""),
        "payload was {text}"
    );
}

#[test]
fn submissions_are_stamped_with_the_clock() {
    let submission = FormSubmission::new(1, "a".to_string(), "b".to_string(), metadata());
    // After 2020, before the year 3000.
    assert!(submission.created_at > 1_577_836_800_000);
    assert!(submission.created_at < 32_503_680_000_000);
}

#[test]
fn backoff_caps_at_one_minute() {
    assert_eq!(formvault::webhook::backoff_delay_ms(500, 0), 500);
    assert_eq!(formvault::webhook::backoff_delay_ms(500, 1), 1000);
    assert_eq!(formvault::webhook::backoff_delay_ms(500, 7), 64000.min(60000));
    assert_eq!(formvault::webhook::backoff_delay_ms(500, 30), 60000);
    assert_eq!(formvault::webhook::backoff_delay_ms(90_000, 0), 60000);
}
