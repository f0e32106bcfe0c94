use formvault::submission::{FormSubmission, SubmissionMetadata, SubmissionStatus};
use formvault::FormVaultError;

fn metadata() -> SubmissionMetadata {
    SubmissionMetadata {
        ip_address: Some("192.0.2.1".to_string()),
        user_agent: None,
        referrer: None,
        country: Some("NZ".to_string()),
    }
}

fn fresh() -> FormSubmission {
    FormSubmission::new(11, "ed".to_string(), "ek".to_string(), metadata())
}

#[test]
fn new_submission_starts_new_without_reason() {
    let s = fresh();
    assert_eq!(s.status, SubmissionStatus::New);
    assert!(s.failure_reason.is_none());
    assert_eq!(s.form_schema_id, 11);
    assert_eq!(s.encrypted_data, "ed");
    assert_eq!(s.encrypted_key, "ek");
}

#[test]
fn normal_delivery_path() {
    let mut s = fresh();
    assert!(s.mark_processing().is_ok());
    assert_eq!(s.status, SubmissionStatus::Processing);
    assert!(s.mark_delivered().is_ok());
    assert_eq!(s.status, SubmissionStatus::Delivered);
    assert!(s.failure_reason.is_none());
    assert!(s.archive().is_ok());
    assert_eq!(s.status, SubmissionStatus::Archived);
}

#[test]
fn marking_delivered_twice_is_refused_and_changes_nothing() {
    let mut s = fresh();
    s.mark_processing().unwrap();
    s.mark_delivered().unwrap();
    let again = s.mark_delivered();
    assert!(matches!(again, Err(FormVaultError::InvalidTransition)));
    assert_eq!(s.status, SubmissionStatus::Delivered);
    assert!(s.failure_reason.is_none());
}

#[test]
fn failure_records_reason_and_retry_clears_it() {
    let mut s = fresh();
    s.mark_processing().unwrap();
    s.mark_failed("connection error: refused".to_string()).unwrap();
    assert_eq!(s.status, SubmissionStatus::Failed);
    assert_eq!(s.failure_reason.as_deref(), Some("connection error: refused"));
    // A failed submission may re-enter delivery.
    assert!(s.mark_processing().is_ok());
    assert_eq!(s.status, SubmissionStatus::Processing);
    assert!(s.failure_reason.is_none());
}

#[test]
fn failure_reason_is_none_outside_failed() {
    let mut s = fresh();
    assert!(s.failure_reason.is_none());
    s.mark_processing().unwrap();
    assert!(s.failure_reason.is_none());
    s.mark_failed("boom".to_string()).unwrap();
    assert!(s.failure_reason.is_some());
    s.archive().unwrap();
    assert_eq!(s.status, SubmissionStatus::Archived);
    assert!(s.failure_reason.is_none());
}

#[test]
fn illegal_transitions_are_refused() {
    let mut s = fresh();
    // New cannot be delivered, failed, or archived directly.
    assert!(matches!(s.mark_delivered(), Err(FormVaultError::InvalidTransition)));
    assert!(matches!(s.mark_failed("x".to_string()), Err(FormVaultError::InvalidTransition)));
    assert!(matches!(s.archive(), Err(FormVaultError::InvalidTransition)));
    assert_eq!(s.status, SubmissionStatus::New);
    // Archived is terminal.
    s.mark_processing().unwrap();
    s.mark_delivered().unwrap();
    s.archive().unwrap();
    assert!(matches!(s.mark_processing(), Err(FormVaultError::InvalidTransition)));
    assert!(matches!(s.mark_delivered(), Err(FormVaultError::InvalidTransition)));
    assert!(matches!(s.archive(), Err(FormVaultError::InvalidTransition)));
    assert_eq!(s.status, SubmissionStatus::Archived);
}
