use signer::proto::Command;
use signer::{DIGEST_LEN, PUBKEY_LEN, SIGNATURE_LEN};

#[test]
fn command_ids_select_commands() {
    assert_eq!(Command::from(0u32), Command::GetPubkey);
    assert_eq!(Command::from(1u32), Command::Sign);
    assert_eq!(Command::from(2u32), Command::Unknown);
    assert_eq!(Command::from(0x1337u32), Command::Unknown);
    assert_eq!(Command::from(u32::MAX), Command::Unknown);
}

#[test]
fn command_codes_round_trip() {
    assert_eq!(Command::GetPubkey.code(), 0);
    assert_eq!(Command::Sign.code(), 1);
    assert_eq!(Command::from(Command::GetPubkey.code()), Command::GetPubkey);
    assert_eq!(Command::from(Command::Sign.code()), Command::Sign);
}

#[test]
fn protocol_sizes() {
    assert_eq!(DIGEST_LEN, 32);
    assert_eq!(PUBKEY_LEN, 64);
    assert_eq!(SIGNATURE_LEN, 64);
}
