//! Client library for checking license keys issued by a licensing service.
//!
//! - Offline verification: check a signed license key with only the issuing
//!   server's Ed25519 public key.
//! - Online validation and the purchase flow: the request and response types
//!   and the decisions on replies; the HTTP transport is the caller's.

pub mod error;
pub mod format;
pub mod key;
pub mod laws;
pub mod online;
pub mod pubkey;
pub mod text;
pub mod verify;

pub use error::{Error, Result};
pub use key::{
    LicenseKey, LicensePayload, FLAG_FINGERPRINT_BOUND, FLAG_TRIAL, KEY_VERSION, KEY_VERSION_V1,
    KEY_VERSION_V2,
};
pub use online::{
    MachineResponse, PollResponse, PurchaseSession, StartPurchaseOptions, StatusRule,
    ValidateRequest, ValidateResponse,
};
pub use pubkey::PublicKeyPem;
pub use verify::{hash_fingerprint, Verifier, VerifyOk};
