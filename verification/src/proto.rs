//! Protocol shared between the host client and the Trusted Application.
//!
//!   ID | Command   | param0                  | param1
//!   ---+-----------+-------------------------+--------------------------
//!    0 | GetPubkey | memref-out: X||Y, 64 B  | -
//!    1 | Sign      | memref-in: 32 B digest  | memref-out: r||s, 64 B
//!   any other id -> NotSupported, no state change
//!
//! All coordinates and scalars are big-endian, each left-padded to 32 bytes.
//! The digest is a SHA-256 value computed by the caller; the TA does not hash.
use vstd::prelude::*;

verus! {

/// Command identifiers; the raw values are the TEEC_InvokeCommand command IDs.
#[derive(Clone, Copy, Debug, PartialEq, Eq, Structural)]
pub enum Command {
    /// Return the public key as X || Y, 64 bytes.
    GetPubkey,
    /// Sign a 32-byte SHA-256 digest; returns r || s, 64 bytes.
    Sign,
    /// Any other id.
    Unknown,
}

/// The command that a raw command ID selects.
pub open spec fn command_of(value: u32) -> Command {
    if value == 0 {
        Command::GetPubkey
    } else if value == 1 {
        Command::Sign
    } else {
        Command::Unknown
    }
}

/// The raw value of each command (its position in the declaration).
pub open spec fn command_code(c: Command) -> u32 {
    match c {
        Command::GetPubkey => 0,
        Command::Sign => 1,
        Command::Unknown => 2,
    }
}

impl Command {
    /// The raw command ID that a client sends for this command.
    pub fn code(self) -> (r: u32)
        ensures
            r == command_code(self),
    {
        match self {
            Command::GetPubkey => 0,
            Command::Sign => 1,
            Command::Unknown => 2,
        }
    }
}

impl From<u32> for Command {
    fn from(value: u32) -> (r: Command) {
        match value {
            0 => Command::GetPubkey,
            1 => Command::Sign,
            _ => Command::Unknown,
        }
    }
}

impl vstd::std_specs::convert::FromSpecImpl<u32> for Command {
    open spec fn obeys_from_spec() -> bool {
        true
    }

    open spec fn from_spec(value: u32) -> Command {
        command_of(value)
    }
}

/// Decoding a command's raw value gives back the command, for the two
/// protocol commands.
pub proof fn lemma_command_code_roundtrip(c: Command)
    requires
        c != Command::Unknown,
    ensures
        command_of(command_code(c)) == c,
{
}

/// Input to Sign: one SHA-256 digest.
pub const DIGEST_LEN: usize = 32;

/// Output of GetPubkey: X || Y, each left-padded to 32 bytes.
pub const PUBKEY_LEN: usize = 64;

/// Output of Sign: r || s, each left-padded to 32 bytes.
pub const SIGNATURE_LEN: usize = 64;

/// Curve name as it appears in the client's JSON output.
pub const CURVE: &'static str = "p256";

/// The TA's identifier: the UUID by which a client opens a session with it.
pub const UUID: &'static str = "e1975de8-38de-4cf2-ae71-8c010c86425e";

} // verus!
