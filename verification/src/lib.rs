//! Device signer: one ECDSA P-256 key pair held by a Trusted Application,
//! the protocol shared with its normal-world client, and the client's
//! command-line and output logic.
pub mod proto;
pub mod tee;
pub mod keyblob;
pub mod keystore;
pub mod ta;
pub mod text;
pub mod wire;
pub mod client;
pub mod probe;

pub use proto::{Command, CURVE, DIGEST_LEN, PUBKEY_LEN, SIGNATURE_LEN, UUID};
