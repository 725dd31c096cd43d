use vstd::prelude::*;

verus! {

/// Number of protocol versions a context can hold.
pub const MAX_SPDM_VERSION_COUNT: usize = 2;

/// Largest number of blocks in one measurement record.
pub const MAX_SPDM_MEASUREMENT_BLOCK_COUNT: usize = 8;

/// Largest measurement value, in bytes.
pub const MAX_SPDM_MEASUREMENT_VALUE_LEN: usize = 64;

/// Largest PSK context, in bytes.
pub const MAX_SPDM_PSK_CONTEXT_SIZE: usize = 64;

/// Largest PSK hint, in bytes.
pub const MAX_SPDM_PSK_HINT_SIZE: usize = 32;

/// Largest opaque data field, in bytes.
pub const MAX_SPDM_OPAQUE_SIZE: usize = 64;

/// Largest certificate chain payload, in bytes.
pub const MAX_SPDM_CERT_CHAIN_DATA_SIZE: usize = 4096;

/// Largest frame handed to or taken from the transport.
pub const MAX_SPDM_TRANSPORT_SIZE: usize = 0x1200;

/// Largest SPDM message, and capacity of each transcript buffer.
pub const MAX_SPDM_MESSAGE_BUFFER_SIZE: usize = 0x1200;

/// Number of session slots in a context.
pub const MAX_SPDM_SESSION_COUNT: usize = 4;

/// Largest digest, in bytes.
pub const SPDM_MAX_HASH_SIZE: usize = 64;

/// Largest signature, in bytes.
pub const SPDM_MAX_ASYM_KEY_SIZE: usize = 512;

/// Largest DHE public value, in bytes.
pub const SPDM_MAX_DHE_KEY_SIZE: usize = 512;

/// Size of the random field of the exchange messages.
pub const SPDM_RANDOM_SIZE: usize = 32;

/// Largest AEAD key, in bytes.
pub const SPDM_MAX_AEAD_KEY_SIZE: usize = 32;

/// AEAD nonce size, in bytes.
pub const SPDM_MAX_AEAD_IV_SIZE: usize = 12;

} // verus!
