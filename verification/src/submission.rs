//! Form submissions and their delivery lifecycle.
//!
//! A submission's status moves only through the transition functions here:
//! `New → Processing → {Delivered, Failed} → Archived`, with `Failed →
//! Processing` allowed for retries and `Archived` terminal. Each exec
//! transition is pinned to its spec counterpart, every illegal move is
//! refused with `InvalidTransition` and leaves the value unchanged, and
//! `failure_reason` is present exactly while the status is `Failed`.

use vstd::prelude::*;
use vstd::utf8::{encode_utf8, decode_utf8, encode_utf8_decode_utf8};
use crate::errors::FormVaultError;
use crate::bridge::{fresh_random_id, now_timestamp_millis};

verus! {

/// Where a submission stands in its delivery lifecycle.
#[derive(Clone, Copy, PartialEq, Eq, Structural, Debug)]
pub enum SubmissionStatus {
    /// Recorded, delivery not yet attempted.
    New,
    /// Delivery in progress.
    Processing,
    /// Delivered to the webhook.
    Delivered,
    /// Delivery failed; `failure_reason` says why.
    Failed,
    /// Closed; no further transitions.
    Archived,
}

/// The label a status is stored and reported under.
pub open spec fn spec_status_label(s: SubmissionStatus) -> Seq<char> {
    match s {
        SubmissionStatus::New => "new"@,
        SubmissionStatus::Processing => "processing"@,
        SubmissionStatus::Delivered => "delivered"@,
        SubmissionStatus::Failed => "failed"@,
        SubmissionStatus::Archived => "archived"@,
    }
}

/// The status a stored label denotes; an unknown label reads as `New`.
pub open spec fn spec_status_from_label(l: Seq<char>) -> SubmissionStatus {
    if l == spec_status_label(SubmissionStatus::Processing) {
        SubmissionStatus::Processing
    } else if l == spec_status_label(SubmissionStatus::Delivered) {
        SubmissionStatus::Delivered
    } else if l == spec_status_label(SubmissionStatus::Failed) {
        SubmissionStatus::Failed
    } else if l == spec_status_label(SubmissionStatus::Archived) {
        SubmissionStatus::Archived
    } else {
        SubmissionStatus::New
    }
}

/// Writes the label a status is stored under.
pub fn status_label(s: SubmissionStatus) -> (r: &'static str)
    ensures
        r@ == spec_status_label(s),
{
    match s {
        SubmissionStatus::New => "new",
        SubmissionStatus::Processing => "processing",
        SubmissionStatus::Delivered => "delivered",
        SubmissionStatus::Failed => "failed",
        SubmissionStatus::Archived => "archived",
    }
}

/// Two byte strings are the same.
fn bytes_eq(a: &[u8], b: &[u8]) -> (r: bool)
    ensures
        r == (a@ == b@),
{
    if a.len() != b.len() {
        proof {
            assert(a@.len() != b@.len());
        }
        return false;
    }
    let mut i: usize = 0;
    while i < a.len()
        invariant
            i <= a@.len(),
            a@.len() == b@.len(),
            forall|j: int| 0 <= j < i ==> a@[j] == b@[j],
        decreases a@.len() - i,
    {
        if a[i] != b[i] {
            return false;
        }
        i = i + 1;
    }
    proof {
        assert(a@ =~= b@);
    }
    true
}

/// Two strings whose UTF-8 bytes agree are the same string.
proof fn lemma_encode_utf8_injective(a: Seq<char>, b: Seq<char>)
    requires
        encode_utf8(a) == encode_utf8(b),
    ensures
        a == b,
{
    broadcast use encode_utf8_decode_utf8;

    assert(decode_utf8(encode_utf8(a)) == a);
    assert(decode_utf8(encode_utf8(b)) == b);
}

/// Reads a status back from its stored label; an unknown label reads as
/// `New`.
pub fn status_from_label(label: &str) -> (r: SubmissionStatus)
    ensures
        r == spec_status_from_label(label@),
{
    let bytes = label.as_bytes();
    proof {
        lemma_label_comparisons(label@);
    }
    if bytes_eq(bytes, "processing".as_bytes()) {
        SubmissionStatus::Processing
    } else if bytes_eq(bytes, "delivered".as_bytes()) {
        SubmissionStatus::Delivered
    } else if bytes_eq(bytes, "failed".as_bytes()) {
        SubmissionStatus::Failed
    } else if bytes_eq(bytes, "archived".as_bytes()) {
        SubmissionStatus::Archived
    } else {
        SubmissionStatus::New
    }
}

/// Byte agreement with a label's encoding decides string agreement with
/// the label.
proof fn lemma_label_comparisons(l: Seq<char>)
    ensures
        (encode_utf8(l) == encode_utf8("processing"@)) == (l == "processing"@),
        (encode_utf8(l) == encode_utf8("delivered"@)) == (l == "delivered"@),
        (encode_utf8(l) == encode_utf8("failed"@)) == (l == "failed"@),
        (encode_utf8(l) == encode_utf8("archived"@)) == (l == "archived"@),
{
    if encode_utf8(l) == encode_utf8("processing"@) {
        lemma_encode_utf8_injective(l, "processing"@);
    }
    if encode_utf8(l) == encode_utf8("delivered"@) {
        lemma_encode_utf8_injective(l, "delivered"@);
    }
    if encode_utf8(l) == encode_utf8("failed"@) {
        lemma_encode_utf8_injective(l, "failed"@);
    }
    if encode_utf8(l) == encode_utf8("archived"@) {
        lemma_encode_utf8_injective(l, "archived"@);
    }
}

/// Non-sensitive request context kept for analytics; never form content.
pub struct SubmissionMetadata {
    /// The client's address, if captured.
    pub ip_address: Option<String>,
    /// The client's user agent, if captured.
    pub user_agent: Option<String>,
    /// The referring page, if captured.
    pub referrer: Option<String>,
    /// The client's country, if derived.
    pub country: Option<String>,
}

/// One recorded submission: the encrypted payload, the wrapped content
/// key, its context, and its lifecycle state.
pub struct FormSubmission {
    /// This submission's identifier.
    pub id: u128,
    /// The schema it was submitted against.
    pub form_schema_id: u128,
    /// The sealed form data, hexadecimal.
    pub encrypted_data: String,
    /// The wrapped content key, hexadecimal.
    pub encrypted_key: String,
    /// Non-sensitive request context.
    pub metadata: SubmissionMetadata,
    /// When the submission was recorded, in Unix milliseconds.
    pub created_at: i64,
    /// Where the submission stands.
    pub status: SubmissionStatus,
    /// Why delivery failed; present exactly while `status` is `Failed`.
    pub failure_reason: Option<String>,
}

impl FormSubmission {
    /// The lifecycle invariant: a failure reason is recorded exactly
    /// while the submission stands at `Failed`.
    pub open spec fn wf(&self) -> bool {
        self.failure_reason is Some <==> self.status is Failed
    }

    /// Everything but the lifecycle state is the same in both values.
    pub open spec fn same_record(&self, other: &FormSubmission) -> bool {
        &&& self.id == other.id
        &&& self.form_schema_id == other.form_schema_id
        &&& self.encrypted_data == other.encrypted_data
        &&& self.encrypted_key == other.encrypted_key
        &&& self.metadata == other.metadata
        &&& self.created_at == other.created_at
    }

    /// Makes a new submission record with a fresh identifier and the
    /// current time, standing at `New`. The encrypted payload and wrapped
    /// key enter together, here alone.
    pub fn new(
        form_schema_id: u128,
        encrypted_data: String,
        encrypted_key: String,
        metadata: SubmissionMetadata,
    ) -> (r: FormSubmission)
        ensures
            r.wf(),
            r.status is New,
            r.failure_reason is None,
            r.form_schema_id == form_schema_id,
            r.encrypted_data == encrypted_data,
            r.encrypted_key == encrypted_key,
            r.metadata == metadata,
    {
        FormSubmission {
            id: fresh_random_id(),
            form_schema_id,
            encrypted_data,
            encrypted_key,
            metadata,
            created_at: now_timestamp_millis(),
            status: SubmissionStatus::New,
            failure_reason: None,
        }
    }

    /// What `mark_processing` does: delivery may begin from `New`, or
    /// again from `Failed` on a retry.
    pub open spec fn spec_mark_processing(s: FormSubmission) -> Result<
        FormSubmission,
        FormVaultError,
    > {
        if s.status is New || s.status is Failed {
            Ok(
                FormSubmission {
                    status: SubmissionStatus::Processing,
                    failure_reason: None,
                    ..s
                },
            )
        } else {
            Err(FormVaultError::InvalidTransition)
        }
    }

    /// What `mark_delivered` does: only an in-flight delivery can finish.
    pub open spec fn spec_mark_delivered(s: FormSubmission) -> Result<
        FormSubmission,
        FormVaultError,
    > {
        if s.status is Processing {
            Ok(FormSubmission { status: SubmissionStatus::Delivered, failure_reason: None, ..s })
        } else {
            Err(FormVaultError::InvalidTransition)
        }
    }

    /// What `mark_failed` does: only an in-flight delivery can fail, and
    /// the reason is recorded with it.
    pub open spec fn spec_mark_failed(s: FormSubmission, reason: String) -> Result<
        FormSubmission,
        FormVaultError,
    > {
        if s.status is Processing {
            Ok(
                FormSubmission {
                    status: SubmissionStatus::Failed,
                    failure_reason: Some(reason),
                    ..s
                },
            )
        } else {
            Err(FormVaultError::InvalidTransition)
        }
    }

    /// What `archive` does: only settled submissions can be closed, and
    /// closing clears any failure reason.
    pub open spec fn spec_archive(s: FormSubmission) -> Result<FormSubmission, FormVaultError> {
        if s.status is Delivered || s.status is Failed {
            Ok(FormSubmission { status: SubmissionStatus::Archived, failure_reason: None, ..s })
        } else {
            Err(FormVaultError::InvalidTransition)
        }
    }

    /// Begins (or retries) delivery: `New` or `Failed` becomes
    /// `Processing`. Any other starting state is refused unchanged.
    pub fn mark_processing(&mut self) -> (r: Result<(), FormVaultError>)
        requires
            old(self).wf(),
        ensures
            final(self).wf(),
            final(self).same_record(old(self)),
            match Self::spec_mark_processing(*old(self)) {
                Ok(next) => r is Ok && *final(self) == next,
                Err(e) => r is Err && r->Err_0 == e && *final(self) == *old(self),
            },
    {
        match self.status {
            SubmissionStatus::New | SubmissionStatus::Failed => {
                self.status = SubmissionStatus::Processing;
                self.failure_reason = None;
                Ok(())
            },
            _ => Err(FormVaultError::InvalidTransition),
        }
    }

    /// Finishes delivery: `Processing` becomes `Delivered` and any
    /// failure reason is cleared. Any other starting state is refused
    /// unchanged.
    pub fn mark_delivered(&mut self) -> (r: Result<(), FormVaultError>)
        requires
            old(self).wf(),
        ensures
            final(self).wf(),
            final(self).same_record(old(self)),
            match Self::spec_mark_delivered(*old(self)) {
                Ok(next) => r is Ok && *final(self) == next,
                Err(e) => r is Err && r->Err_0 == e && *final(self) == *old(self),
            },
    {
        match self.status {
            SubmissionStatus::Processing => {
                self.status = SubmissionStatus::Delivered;
                self.failure_reason = None;
                Ok(())
            },
            _ => Err(FormVaultError::InvalidTransition),
        }
    }

    /// Records a delivery failure: `Processing` becomes `Failed` with the
    /// given reason. Any other starting state is refused unchanged.
    pub fn mark_failed(&mut self, reason: String) -> (r: Result<(), FormVaultError>)
        requires
            old(self).wf(),
        ensures
            final(self).wf(),
            final(self).same_record(old(self)),
            match Self::spec_mark_failed(*old(self), reason) {
                Ok(next) => r is Ok && *final(self) == next,
                Err(e) => r is Err && r->Err_0 == e && *final(self) == *old(self),
            },
    {
        match self.status {
            SubmissionStatus::Processing => {
                self.status = SubmissionStatus::Failed;
                self.failure_reason = Some(reason);
                Ok(())
            },
            _ => Err(FormVaultError::InvalidTransition),
        }
    }

    /// Closes a settled submission: `Delivered` or `Failed` becomes
    /// `Archived`, terminally. Any other starting state is refused
    /// unchanged.
    pub fn archive(&mut self) -> (r: Result<(), FormVaultError>)
        requires
            old(self).wf(),
        ensures
            final(self).wf(),
            final(self).same_record(old(self)),
            match Self::spec_archive(*old(self)) {
                Ok(next) => r is Ok && *final(self) == next,
                Err(e) => r is Err && r->Err_0 == e && *final(self) == *old(self),
            },
    {
        match self.status {
            SubmissionStatus::Delivered | SubmissionStatus::Failed => {
                self.status = SubmissionStatus::Archived;
                self.failure_reason = None;
                Ok(())
            },
            _ => Err(FormVaultError::InvalidTransition),
        }
    }
}

/// Marking a submission delivered a second time is refused with
/// `InvalidTransition` and, by the transition contracts, leaves it exactly
/// as the first call left it: repeating the call cannot corrupt the record.
pub proof fn lemma_mark_delivered_twice(s: FormSubmission)
    requires
        s.wf(),
        FormSubmission::spec_mark_delivered(s) is Ok,
    ensures
        FormSubmission::spec_mark_delivered(FormSubmission::spec_mark_delivered(s)->Ok_0)
            == Err::<FormSubmission, FormVaultError>(FormVaultError::InvalidTransition),
        FormSubmission::spec_mark_delivered(s)->Ok_0.wf(),
{
}

/// A failure reason is never seen outside the `Failed` state: for every
/// well-formed submission whose status is anything else, `failure_reason`
/// is `None`.
pub proof fn lemma_failure_reason_only_when_failed(s: FormSubmission)
    requires
        s.wf(),
        !(s.status is Failed),
    ensures
        s.failure_reason is None,
{
}

/// Every lifecycle transition preserves the invariant and the record
/// fields: whatever sequence of transitions runs, a submission stays
/// well-formed and its identity, payload and context never change.
pub proof fn lemma_transitions_preserve_record(s: FormSubmission)
    requires
        s.wf(),
    ensures
        FormSubmission::spec_mark_processing(s) is Ok ==> {
            let n = FormSubmission::spec_mark_processing(s)->Ok_0;
            n.wf() && n.same_record(&s)
        },
        FormSubmission::spec_mark_delivered(s) is Ok ==> {
            let n = FormSubmission::spec_mark_delivered(s)->Ok_0;
            n.wf() && n.same_record(&s)
        },
        forall|reason: String|
            FormSubmission::spec_mark_failed(s, reason) is Ok ==> {
                let n = #[trigger] FormSubmission::spec_mark_failed(s, reason)->Ok_0;
                n.wf() && n.same_record(&s)
            },
        FormSubmission::spec_archive(s) is Ok ==> {
            let n = FormSubmission::spec_archive(s)->Ok_0;
            n.wf() && n.same_record(&s)
        },
{
}

} // verus!
