//! The unified error type of the library, with its HTTP presentation.

use vstd::prelude::*;
use vstd::string::StringExecFns;

verus! {

/// The items joined with a comma and a space between each two.
pub open spec fn spec_join_comma(items: Seq<Seq<char>>) -> Seq<char>
    decreases items.len(),
{
    if items.len() == 0 {
        Seq::empty()
    } else if items.len() == 1 {
        items[0]
    } else {
        spec_join_comma(items.drop_last()) + ", "@ + items.last()
    }
}

/// Joins strings with a comma and a space between each two.
pub fn join_comma(items: &Vec<String>) -> (r: String)
    ensures
        r@ == spec_join_comma(items.deep_view()),
{
    let mut out = String::new();
    let mut i: usize = 0;
    proof {
        assert(items.deep_view().take(0) =~= Seq::<Seq<char>>::empty());
    }
    while i < items.len()
        invariant
            i <= items@.len(),
            items.deep_view().len() == items@.len(),
            out@ == spec_join_comma(items.deep_view().take(i as int)),
        decreases items@.len() - i,
    {
        if i > 0 {
            out.append(", ");
        }
        out.append(items[i].as_str());
        i = i + 1;
        proof {
            let dv = items.deep_view();
            assert(dv.take(i as int).drop_last() =~= dv.take(i - 1));
            assert(dv.take(i as int).last() == dv[i - 1]);
            assert(dv[i - 1] == items@[i - 1]@);
            if i == 1 {
                assert(out@ == spec_join_comma(dv.take(1)));
            } else {
                assert(out@ == spec_join_comma(dv.take(i as int)));
            }
        }
    }
    proof {
        assert(items.deep_view().take(items@.len() as int) =~= items.deep_view());
    }
    out
}

/// Single unified error type for the whole library.
///
/// Errors that arise in unverified collaborators (the database, the
/// network) carry the collaborator's message as a plain string.
#[derive(Debug)]
pub enum FormVaultError {
    /// The backing store reported an error.
    DatabaseError(String),
    /// A requested resource does not exist.
    NotFound,
    /// The developer account does not exist.
    DeveloperNotFound,
    /// The form does not exist.
    FormNotFound,
    /// The submission does not exist.
    SubmissionNotFound,
    /// The caller is not allowed to perform the operation.
    Unauthorized,
    /// The presented API key is unknown or expired.
    InvalidApiKey,
    /// Schema validation rejected the submitted data; one message per
    /// failed check, in schema order.
    ValidationFailed(Vec<String>),
    /// A single validation rule failed.
    ValidationError(String),
    /// An email address is not syntactically acceptable.
    InvalidEmail,
    /// A developer public key is malformed.
    InvalidPublicKey,
    /// The email address is already registered.
    DuplicateEmail,
    /// Encrypting a submission failed.
    EncryptionError(String),
    /// Decrypting a submission failed.
    DecryptionError(String),
    /// Webhook delivery failed after all attempts.
    WebhookFailed(String),
    /// A webhook attempt timed out.
    WebhookTimeout,
    /// A network operation failed.
    NetworkError(String),
    /// Saving a new submission failed; the submission was discarded.
    PersistenceFailed(String),
    /// A lifecycle transition was requested that the state machine forbids.
    InvalidTransition,
    /// The developer's plan allows no further forms.
    FormLimitExceeded,
    /// The developer's plan allows no further submissions this period.
    SubmissionLimitExceeded,
    /// The developer account is inactive or suspended.
    InactiveAccount,
}

/// The message each error presents.
pub open spec fn spec_message(e: FormVaultError) -> Seq<char> {
    match e {
        FormVaultError::DatabaseError(m) => "Database error: "@ + m@,
        FormVaultError::NotFound => "Resource not found"@,
        FormVaultError::DeveloperNotFound => "Developer account not found"@,
        FormVaultError::FormNotFound => "Form not found"@,
        FormVaultError::SubmissionNotFound => "Form submission not found"@,
        FormVaultError::Unauthorized => "Unauthorized access"@,
        FormVaultError::InvalidApiKey => "Invalid or expired API key"@,
        FormVaultError::ValidationFailed(errors) => "Validation failed: "@ + spec_join_comma(
            errors.deep_view(),
        ),
        FormVaultError::ValidationError(m) => "Validation Failed "@ + m@,
        FormVaultError::InvalidEmail => "Invalid email address format"@,
        FormVaultError::InvalidPublicKey => "Invalid public key format"@,
        FormVaultError::DuplicateEmail => "Email address already registered"@,
        FormVaultError::EncryptionError(m) => "Encryption error: "@ + m@,
        FormVaultError::DecryptionError(m) => "Decryption error: "@ + m@,
        FormVaultError::WebhookFailed(m) => "Webhook delivery failed: "@ + m@,
        FormVaultError::WebhookTimeout => "Webhook request timed out"@,
        FormVaultError::NetworkError(m) => "Network error: "@ + m@,
        FormVaultError::PersistenceFailed(m) => "Persistence failed: "@ + m@,
        FormVaultError::InvalidTransition => "Invalid submission status transition"@,
        FormVaultError::FormLimitExceeded => "Maximum number of forms exceeded for your plan"@,
        FormVaultError::SubmissionLimitExceeded => "Monthly submission limit exceeded"@,
        FormVaultError::InactiveAccount => "Account is inactive or suspended"@,
    }
}

/// An error as an HTTP API reports it.
pub struct ErrorResponse {
    /// The message shown to the caller.
    pub error: String,
    /// A stable machine-readable code.
    pub code: String,
    /// The individual validation messages, when validation failed.
    pub details: Option<Vec<String>>,
}

/// The machine-readable code each error is reported under.
pub open spec fn spec_response_code(e: FormVaultError) -> Seq<char> {
    match e {
        FormVaultError::NotFound
        | FormVaultError::DeveloperNotFound
        | FormVaultError::FormNotFound
        | FormVaultError::SubmissionNotFound => "NOT_FOUND"@,
        FormVaultError::Unauthorized | FormVaultError::InvalidApiKey => "UNAUTHORIZED"@,
        FormVaultError::ValidationFailed(_) => "VALIDATION_ERROR"@,
        FormVaultError::DuplicateEmail => "DUPLICATE_EMAIL"@,
        FormVaultError::FormLimitExceeded | FormVaultError::SubmissionLimitExceeded => "LIMIT_EXCEEDED"@,
        _ => "INTERNAL_ERROR"@,
    }
}

/// The caller-facing message of each error's HTTP report: specific where
/// the caller may act on it, generic where it would leak internals.
pub open spec fn spec_response_error(e: FormVaultError) -> Seq<char> {
    match e {
        FormVaultError::NotFound
        | FormVaultError::DeveloperNotFound
        | FormVaultError::FormNotFound
        | FormVaultError::SubmissionNotFound => spec_message(e),
        FormVaultError::Unauthorized | FormVaultError::InvalidApiKey => "Access denied"@,
        FormVaultError::ValidationFailed(_) => "Validation failed"@,
        FormVaultError::DuplicateEmail => spec_message(e),
        FormVaultError::FormLimitExceeded | FormVaultError::SubmissionLimitExceeded => spec_message(
            e,
        ),
        _ => "Internal server error"@,
    }
}

/// Builds `prefix + m`.
fn prefixed(prefix: &str, m: &String) -> (r: String)
    ensures
        r@ == prefix@ + m@,
{
    let mut s = String::from_str(prefix);
    s.append(m.as_str());
    s
}

/// Copies a list of strings.
fn clone_strings(v: &Vec<String>) -> (r: Vec<String>)
    ensures
        r@ == v@,
{
    let mut out: Vec<String> = Vec::new();
    let mut i: usize = 0;
    while i < v.len()
        invariant
            i <= v@.len(),
            out@ =~= v@.take(i as int),
        decreases v@.len() - i,
    {
        out.push(v[i].clone());
        i = i + 1;
        proof {
            assert(out@ =~= v@.take(i as int));
        }
    }
    proof {
        assert(v@.take(v@.len() as int) =~= v@);
    }
    out
}

impl FormVaultError {
    /// The message this error presents.
    pub fn message(&self) -> (r: String)
        ensures
            r@ == spec_message(*self),
    {
        match self {
            FormVaultError::DatabaseError(m) => prefixed("Database error: ", m),
            FormVaultError::NotFound => String::from_str("Resource not found"),
            FormVaultError::DeveloperNotFound => String::from_str("Developer account not found"),
            FormVaultError::FormNotFound => String::from_str("Form not found"),
            FormVaultError::SubmissionNotFound => String::from_str("Form submission not found"),
            FormVaultError::Unauthorized => String::from_str("Unauthorized access"),
            FormVaultError::InvalidApiKey => String::from_str("Invalid or expired API key"),
            FormVaultError::ValidationFailed(errors) => {
                let mut s = String::from_str("Validation failed: ");
                let joined = join_comma(errors);
                s.append(joined.as_str());
                s
            },
            FormVaultError::ValidationError(m) => prefixed("Validation Failed ", m),
            FormVaultError::InvalidEmail => String::from_str("Invalid email address format"),
            FormVaultError::InvalidPublicKey => String::from_str("Invalid public key format"),
            FormVaultError::DuplicateEmail => String::from_str("Email address already registered"),
            FormVaultError::EncryptionError(m) => prefixed("Encryption error: ", m),
            FormVaultError::DecryptionError(m) => prefixed("Decryption error: ", m),
            FormVaultError::WebhookFailed(m) => prefixed("Webhook delivery failed: ", m),
            FormVaultError::WebhookTimeout => String::from_str("Webhook request timed out"),
            FormVaultError::NetworkError(m) => prefixed("Network error: ", m),
            FormVaultError::PersistenceFailed(m) => prefixed("Persistence failed: ", m),
            FormVaultError::InvalidTransition => String::from_str(
                "Invalid submission status transition",
            ),
            FormVaultError::FormLimitExceeded => String::from_str(
                "Maximum number of forms exceeded for your plan",
            ),
            FormVaultError::SubmissionLimitExceeded => String::from_str(
                "Monthly submission limit exceeded",
            ),
            FormVaultError::InactiveAccount => String::from_str("Account is inactive or suspended"),
        }
    }

    /// How the error is reported over HTTP: the caller-facing message, the
    /// stable code, and the validation details when there are any.
    pub fn to_response(&self) -> (r: ErrorResponse)
        ensures
            r.error@ == spec_response_error(*self),
            r.code@ == spec_response_code(*self),
            match *self {
                FormVaultError::ValidationFailed(errors) => r.details is Some && r.details->0@
                    == errors@,
                _ => r.details is None,
            },
    {
        match self {
            FormVaultError::NotFound
            | FormVaultError::DeveloperNotFound
            | FormVaultError::FormNotFound
            | FormVaultError::SubmissionNotFound => ErrorResponse {
                error: self.message(),
                code: String::from_str("NOT_FOUND"),
                details: None,
            },
            FormVaultError::Unauthorized | FormVaultError::InvalidApiKey => ErrorResponse {
                error: String::from_str("Access denied"),
                code: String::from_str("UNAUTHORIZED"),
                details: None,
            },
            FormVaultError::ValidationFailed(errors) => ErrorResponse {
                error: String::from_str("Validation failed"),
                code: String::from_str("VALIDATION_ERROR"),
                details: Some(clone_strings(errors)),
            },
            FormVaultError::DuplicateEmail => ErrorResponse {
                error: self.message(),
                code: String::from_str("DUPLICATE_EMAIL"),
                details: None,
            },
            FormVaultError::FormLimitExceeded | FormVaultError::SubmissionLimitExceeded => ErrorResponse {
                error: self.message(),
                code: String::from_str("LIMIT_EXCEEDED"),
                details: None,
            },
            _ => ErrorResponse {
                error: String::from_str("Internal server error"),
                code: String::from_str("INTERNAL_ERROR"),
                details: None,
            },
        }
    }

    /// The HTTP status code under which the error is reported.
    pub fn status_code(&self) -> (code: u16)
        ensures
            code == self.spec_status_code(),
    {
        match self {
            FormVaultError::NotFound
            | FormVaultError::DeveloperNotFound
            | FormVaultError::FormNotFound
            | FormVaultError::SubmissionNotFound => 404,
            FormVaultError::Unauthorized | FormVaultError::InvalidApiKey => 401,
            FormVaultError::ValidationFailed(_)
            | FormVaultError::InvalidEmail
            | FormVaultError::InvalidPublicKey
            | FormVaultError::DuplicateEmail => 400,
            FormVaultError::FormLimitExceeded | FormVaultError::SubmissionLimitExceeded => 429,
            FormVaultError::InactiveAccount => 403,
            _ => 500,
        }
    }

    /// What `status_code` returns, for use in contracts.
    pub open spec fn spec_status_code(&self) -> u16 {
        match self {
            FormVaultError::NotFound
            | FormVaultError::DeveloperNotFound
            | FormVaultError::FormNotFound
            | FormVaultError::SubmissionNotFound => 404u16,
            FormVaultError::Unauthorized | FormVaultError::InvalidApiKey => 401u16,
            FormVaultError::ValidationFailed(_)
            | FormVaultError::InvalidEmail
            | FormVaultError::InvalidPublicKey
            | FormVaultError::DuplicateEmail => 400u16,
            FormVaultError::FormLimitExceeded | FormVaultError::SubmissionLimitExceeded => 429u16,
            FormVaultError::InactiveAccount => 403u16,
            _ => 500u16,
        }
    }
}

} // verus!
