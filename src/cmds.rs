//! Payloads of individual protocol messages.

pub mod algorithm;
pub mod attestation;
pub mod capability;
pub mod error;
pub mod key_exchange;
pub mod psk_exchange;
pub mod version;
