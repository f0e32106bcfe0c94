//! FormVault: a verified submission-processing library.
//!
//! The library validates structured form submissions against a
//! developer-defined schema, envelope-encrypts the submitted data so that
//! only the developer can read it, tracks each submission's delivery
//! lifecycle, and drives best-effort webhook delivery with a bounded retry
//! policy. Persistence and transport are reached only through the
//! `SubmissionStore` and `WebhookTransport` traits, so the core stays pure
//! and fully verified.

pub mod accounts;
pub mod bridge;
pub mod codec;
pub mod crypto;
pub mod data;
pub mod entries;
pub mod errors;
pub mod numbers;
pub mod pipeline;
pub mod routes;
pub mod schema;
pub mod submission;
pub mod users;
pub mod webhook;

pub use errors::{FormVaultError, ErrorResponse};
