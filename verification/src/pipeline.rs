//! The submission pipeline: validate, encrypt, persist, deliver.
//!
//! Persistence is a collaborator behind the `SubmissionStore` trait and
//! the network behind `WebhookTransport`; the pipeline owns the order of
//! the steps, which failures abort it, and how the submission's lifecycle
//! state reflects the outcome.

use vstd::prelude::*;
use crate::crypto::{spec_parse_key, spec_encrypt_data, spec_encrypt_key, encrypt};
use crate::data::FormData;
use crate::errors::FormVaultError;
use crate::schema::{FormSchema, spec_validation_errors};
use crate::submission::{FormSubmission, SubmissionMetadata, SubmissionStatus};
use crate::webhook::{
    WebhookTransport, RetryPolicy, DeliveryOutcome, delivery_payload, deliver,
    spec_attempt_succeeded, spec_failure_text,
};

verus! {

/// What the backing store reports when an operation fails.
pub struct StoreError {
    /// The store's own description of the failure.
    pub message: String,
}

/// Durable storage for submissions: a collaborator implemented outside
/// the library. Nothing is assumed of what its methods return.
pub trait SubmissionStore {
    /// Records a new submission.
    fn save(&mut self, submission: &FormSubmission) -> Result<(), StoreError>;

    /// Persists a submission's current status and failure reason.
    fn update_status(&mut self, submission: &FormSubmission) -> Result<(), StoreError>;

    /// All submissions recorded against a schema.
    fn find_by_schema(&self, schema_id: u128) -> Vec<FormSubmission>;
}

impl FormSchema {
    /// Processes one submission: validates the raw data, envelope-encrypts
    /// it, records it, and — when a webhook is configured — delivers it and
    /// settles its status.
    ///
    /// Validation, encryption and the initial save abort the pipeline, in
    /// that order, before any later step runs and before the store or the
    /// transport is touched; a delivery failure does not: it is recorded on
    /// the submission, which is returned either way. The final status
    /// update is best-effort: a store that refuses it does not roll back a
    /// delivery that happened, and — since the submission is returned
    /// regardless of the webhook outcome — that refusal is not surfaced
    /// here; `retry_webhook` does surface it.
    pub fn process_submission<S: SubmissionStore, T: WebhookTransport>(
        &self,
        raw_data: &FormData,
        metadata: SubmissionMetadata,
        store: &mut S,
        transport: &mut T,
        policy: &RetryPolicy,
    ) -> (r: Result<FormSubmission, FormVaultError>)
        requires
            policy.wf(),
        ensures
            (r is Err && r->Err_0 is ValidationFailed) <==> spec_validation_errors(
                self.fields@,
                raw_data@,
            ).len() > 0,
            r is Err && r->Err_0 is ValidationFailed ==> r->Err_0->ValidationFailed_0.deep_view()
                == spec_validation_errors(self.fields@, raw_data@),
            spec_validation_errors(self.fields@, raw_data@).len() == 0 && spec_parse_key(
                self.public_key@,
            ) is None ==> r is Err && r->Err_0 is EncryptionError,
            r is Err && r->Err_0 is EncryptionError ==> spec_validation_errors(
                self.fields@,
                raw_data@,
            ).len() == 0 && spec_parse_key(self.public_key@) is None
                && r->Err_0->EncryptionError_0@ == "public key is not sixteen hexadecimal digits"@,
            r is Err && (r->Err_0 is ValidationFailed || r->Err_0 is EncryptionError)
                ==> *final(store) == *old(store) && *final(transport) == *old(transport),
            r is Err && r->Err_0 is PersistenceFailed ==> *final(transport) == *old(transport),
            r is Err ==> r->Err_0 is ValidationFailed || r->Err_0 is EncryptionError || r->Err_0
                is PersistenceFailed,
            r is Err && r->Err_0 is PersistenceFailed ==> spec_validation_errors(
                self.fields@,
                raw_data@,
            ).len() == 0 && spec_parse_key(self.public_key@) is Some,
            r is Ok ==> {
                let sub = r->Ok_0;
                &&& sub.wf()
                &&& sub.form_schema_id == self.id
                &&& sub.metadata == metadata
                &&& spec_validation_errors(self.fields@, raw_data@).len() == 0
                &&& spec_parse_key(self.public_key@) is Some
                &&& exists|ck: u64, nonce: u64|
                    sub.encrypted_data@ == spec_encrypt_data(raw_data@, ck, nonce)
                        && sub.encrypted_key@ == spec_encrypt_key(
                        ck,
                        spec_parse_key(self.public_key@)->Some_0,
                    )
                &&& self.webhook_url is None ==> sub.status is New && sub.failure_reason is None
                &&& self.webhook_url is Some ==> (sub.status is Delivered || sub.status is Failed)
                &&& sub.status is Failed ==> exists|o: crate::webhook::AttemptOutcome|
                    !spec_attempt_succeeded(o) && sub.failure_reason->0@ == spec_failure_text(o)
            },
    {
        match self.validate_submission(raw_data) {
            Ok(()) => {},
            Err(e) => {
                return Err(e);
            },
        }
        let (encrypted_data, encrypted_key) = match encrypt(raw_data, self.public_key.as_str()) {
            Ok(p) => p,
            Err(e) => {
                return Err(e);
            },
        };
        let mut submission = FormSubmission::new(self.id, encrypted_data, encrypted_key, metadata);
        match store.save(&submission) {
            Ok(()) => {},
            Err(e) => {
                // At-most-once creation: the unrecorded submission is
                // discarded with the error.
                return Err(FormVaultError::PersistenceFailed(e.message));
            },
        }
        match &self.webhook_url {
            Some(url) => {
                let started = submission.mark_processing();
                proof {
                    assert(started is Ok);
                }
                let payload = delivery_payload(&submission);
                let outcome = deliver(transport, url.as_str(), payload.as_slice(), policy);
                match outcome {
                    DeliveryOutcome::Delivered => {
                        let marked = submission.mark_delivered();
                        proof {
                            assert(marked is Ok);
                        }
                    },
                    DeliveryOutcome::Failed(reason) => {
                        let marked = submission.mark_failed(reason);
                        proof {
                            assert(marked is Ok);
                        }
                    },
                }
                // Best-effort: a refused status update does not undo the
                // delivery outcome.
                let _ = store.update_status(&submission);
            },
            None => {},
        }
        Ok(submission)
    }
}

impl FormSubmission {
    /// Retries delivery of a recorded submission to the schema's webhook.
    /// With no webhook configured the submission is left untouched. A
    /// submission that is neither `New` nor `Failed` cannot re-enter
    /// delivery and is refused unchanged, with nothing else touched.
    /// Otherwise the submission ends `Delivered` or `Failed` by the
    /// delivery outcome, and the new status is persisted: a store that
    /// refuses the update does not undo the transition, and the refusal is
    /// surfaced as a `DatabaseError`.
    pub fn retry_webhook<S: SubmissionStore, T: WebhookTransport>(
        &mut self,
        webhook_url: &Option<String>,
        store: &mut S,
        transport: &mut T,
        policy: &RetryPolicy,
    ) -> (r: Result<(), FormVaultError>)
        requires
            old(self).wf(),
            policy.wf(),
        ensures
            final(self).wf(),
            final(self).same_record(old(self)),
            webhook_url is None ==> r is Ok && *final(self) == *old(self),
            webhook_url is Some && !(old(self).status is New || old(self).status is Failed) ==> r
                is Err && r->Err_0 is InvalidTransition,
            r is Err && r->Err_0 is InvalidTransition ==> *final(self) == *old(self)
                && *final(store) == *old(store) && *final(transport) == *old(transport),
            webhook_url is Some && (old(self).status is New || old(self).status is Failed) ==> (
            final(self).status is Delivered || final(self).status is Failed) && (r is Ok || r->Err_0
                is DatabaseError),
            webhook_url is Some && (old(self).status is New || old(self).status is Failed)
                && final(self).status is Failed ==> exists|o: crate::webhook::AttemptOutcome|
                !spec_attempt_succeeded(o) && final(self).failure_reason->0@ == spec_failure_text(o),
    {
        match webhook_url {
            Some(url) => {
                match self.mark_processing() {
                    Ok(()) => {},
                    Err(e) => {
                        return Err(e);
                    },
                }
                let payload = delivery_payload(self);
                let outcome = deliver(transport, url.as_str(), payload.as_slice(), policy);
                match outcome {
                    DeliveryOutcome::Delivered => {
                        let marked = self.mark_delivered();
                        proof {
                            assert(marked is Ok);
                        }
                    },
                    DeliveryOutcome::Failed(reason) => {
                        let marked = self.mark_failed(reason);
                        proof {
                            assert(marked is Ok);
                        }
                    },
                }
                // The transition stands either way; a refused update is
                // reported, not rolled back.
                match store.update_status(self) {
                    Ok(()) => Ok(()),
                    Err(e) => Err(FormVaultError::DatabaseError(e.message)),
                }
            },
            None => Ok(()),
        }
    }
}

} // verus!
