//! Core of an SPDM device-attestation stack: wire codec, transcript
//! buffers, session pool and key schedule, and the two protocol roles.

pub mod cmds;
pub mod codec;
pub mod common;
pub mod config;
pub mod crypto;
pub mod error;
pub mod msgs;
pub mod requester;
pub mod responder;
pub mod session;
pub mod spdm_codec;
pub mod transcript;
