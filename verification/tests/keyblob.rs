use signer::keyblob::{
    place_padded, rd_u32, validate_stored_blob, wr_u32, write_public_key, zeroize, BLOB_SIZE,
    FORMAT, MAGIC, O_FORMAT, O_MAGIC, O_X, O_Y,
};
use signer::keystore::{finish_signature, is_first_boot, key_object_id, place_attribute};
use signer::tee::{TeeError, ERROR_CORRUPT_OBJECT, ERROR_ITEM_NOT_FOUND};

/// A record as read back into a buffer one byte longer than a record.
fn read_buffer(b: &[u8]) -> Vec<u8> {
    let mut r = b.to_vec();
    r.push(0);
    r
}

fn good_blob() -> Vec<u8> {
    let mut b = vec![0u8; BLOB_SIZE];
    wr_u32(&mut b, O_MAGIC, MAGIC);
    wr_u32(&mut b, O_FORMAT, FORMAT);
    for i in 8..BLOB_SIZE {
        b[i] = i as u8;
    }
    b
}

#[test]
fn le_u32_is_little_endian() {
    let mut b = vec![0xeeu8; 8];
    wr_u32(&mut b, 2, 0x5349_474B);
    assert_eq!(b, vec![0xee, 0xee, 0x4B, 0x47, 0x49, 0x53, 0xee, 0xee]);
    assert_eq!(rd_u32(&b, 2), 0x5349_474B);
    assert_eq!(rd_u32(&[1, 0, 0, 0], 0), 1);
    assert_eq!(rd_u32(&[0xff, 0xff, 0xff, 0xff], 0), u32::MAX);
}

#[test]
fn magic_spells_sigk() {
    let mut b = vec![0u8; 4];
    wr_u32(&mut b, 0, MAGIC);
    assert_eq!(b, b"KGIS".to_vec());
}

#[test]
fn zeroize_clears_every_byte() {
    let mut b = vec![1u8, 2, 3, 255];
    zeroize(&mut b);
    assert_eq!(b, vec![0u8; 4]);
    let mut empty: Vec<u8> = Vec::new();
    zeroize(&mut empty);
    assert!(empty.is_empty());
}

#[test]
fn short_value_is_left_padded() {
    let mut out = vec![0x55u8; 40];
    out[0] = 9;
    out[39] = 7;
    let mut tmp = vec![0u8; 32];
    tmp[0] = 0xaa;
    tmp[1] = 0xbb;
    tmp[2] = 0xcc;
    place_padded(&mut out, 4, &tmp, 3);
    let mut want = vec![0x55u8; 40];
    for i in 4..33 {
        want[i] = 0;
    }
    want[0] = 9;
    want[33] = 0xaa;
    want[34] = 0xbb;
    want[35] = 0xcc;
    want[39] = 7;
    assert_eq!(out, want);
}

#[test]
fn full_width_value_fills_field() {
    let mut out = vec![0u8; 32];
    let tmp: Vec<u8> = (1..=32).collect();
    place_padded(&mut out, 0, &tmp, 32);
    assert_eq!(out, tmp);
}

#[test]
fn empty_value_zeroes_field() {
    let mut out = vec![5u8; 36];
    let tmp = vec![1u8; 32];
    place_padded(&mut out, 2, &tmp, 0);
    let mut want = vec![0u8; 36];
    want[0] = 5;
    want[1] = 5;
    want[34] = 5;
    want[35] = 5;
    assert_eq!(out, want);
}

#[test]
fn stored_blob_accepted_when_whole_and_ours() {
    let good = good_blob();
    let mut b = read_buffer(&good);
    assert_eq!(validate_stored_blob(BLOB_SIZE as u32, &mut b), Ok(()));
    assert_eq!(b, good);
}

#[test]
fn short_read_fails_closed() {
    let mut b = read_buffer(&good_blob());
    let r = validate_stored_blob(103, &mut b);
    assert_eq!(r, Err(TeeError { code: ERROR_CORRUPT_OBJECT }));
    assert_eq!(b, vec![0u8; BLOB_SIZE + 1]);
}

#[test]
fn long_object_fails_closed() {
    let mut b = read_buffer(&good_blob());
    b[BLOB_SIZE] = 0x41;
    let r = validate_stored_blob(BLOB_SIZE as u32 + 1, &mut b);
    assert_eq!(r, Err(TeeError { code: ERROR_CORRUPT_OBJECT }));
    assert_eq!(b, vec![0u8; BLOB_SIZE + 1]);
}

#[test]
fn zeroed_record_fails_closed() {
    let mut b = vec![0u8; BLOB_SIZE + 1];
    let r = validate_stored_blob(BLOB_SIZE as u32, &mut b);
    assert_eq!(r, Err(TeeError { code: ERROR_CORRUPT_OBJECT }));
}

#[test]
fn wrong_magic_fails_closed() {
    let mut g = good_blob();
    g[O_MAGIC] ^= 1;
    let mut b = read_buffer(&g);
    let r = validate_stored_blob(BLOB_SIZE as u32, &mut b);
    assert_eq!(r, Err(TeeError { code: ERROR_CORRUPT_OBJECT }));
    assert_eq!(b, vec![0u8; BLOB_SIZE + 1]);
}

#[test]
fn wrong_format_fails_closed() {
    let mut g = good_blob();
    wr_u32(&mut g, O_FORMAT, 2);
    let mut b = read_buffer(&g);
    let r = validate_stored_blob(BLOB_SIZE as u32, &mut b);
    assert_eq!(r, Err(TeeError { code: ERROR_CORRUPT_OBJECT }));
    assert_eq!(b, vec![0u8; BLOB_SIZE + 1]);
}

#[test]
fn public_key_is_x_then_y() {
    let b = good_blob();
    let mut out = vec![0xffu8; 70];
    write_public_key(&b, &mut out);
    assert_eq!(&out[..32], &b[O_X..O_X + 32]);
    assert_eq!(&out[32..64], &b[O_Y..O_Y + 32]);
    assert_eq!(&out[64..], &[0xffu8; 6]);
}

#[test]
fn key_object_id_is_versioned_name() {
    assert_eq!(key_object_id(), b"signer.key.v1".to_vec());
}

#[test]
fn only_item_not_found_is_first_boot() {
    assert!(is_first_boot(TeeError { code: ERROR_ITEM_NOT_FOUND }));
    assert!(!is_first_boot(TeeError { code: ERROR_CORRUPT_OBJECT }));
    assert!(!is_first_boot(TeeError { code: 0xFFFF_0000 }));
}

#[test]
fn public_key_ignores_private_field() {
    let a = good_blob();
    let mut b = good_blob();
    for i in 8..40 {
        b[i] = 0x5a;
    }
    let mut out_a = vec![0u8; 64];
    let mut out_b = vec![0u8; 64];
    write_public_key(&a, &mut out_a);
    write_public_key(&b, &mut out_b);
    assert_eq!(out_a, out_b);
    assert!(!out_a.windows(32).any(|w| w == &b[8..40]));
}

#[test]
fn attribute_read_is_placed_right_aligned() {
    let mut tmp = vec![0u8; 32];
    tmp[0] = 1;
    tmp[1] = 2;
    let mut out = vec![9u8; 40];
    assert_eq!(place_attribute(Ok(2), &tmp, &mut out, 4), Ok(()));
    let mut want = vec![9u8; 40];
    for i in 4..34 {
        want[i] = 0;
    }
    want[34] = 1;
    want[35] = 2;
    assert_eq!(out, want);
}

#[test]
fn overlong_attribute_is_refused() {
    let tmp = vec![7u8; 32];
    let mut out = vec![0u8; 32];
    assert_eq!(
        place_attribute(Ok(33), &tmp, &mut out, 0),
        Err(TeeError { code: 0xFFFF_0000 })
    );
    assert_eq!(out, vec![0u8; 32]);
    let e = TeeError { code: ERROR_ITEM_NOT_FOUND };
    assert_eq!(place_attribute(Err(e), &tmp, &mut out, 0), Err(e));
    assert_eq!(out, vec![0u8; 32]);
}

#[test]
fn signature_of_64_bytes_is_copied_in_front() {
    let sig: Vec<u8> = (1..=64).collect();
    let mut out = vec![0xeeu8; 70];
    assert_eq!(finish_signature(Ok(64), &sig, &mut out), Ok(()));
    assert_eq!(&out[..64], &sig[..]);
    assert_eq!(&out[64..], &[0xeeu8; 6]);
}

#[test]
fn signature_of_other_size_is_refused() {
    let sig = vec![1u8; 64];
    let mut out = vec![0xeeu8; 64];
    assert_eq!(finish_signature(Ok(63), &sig, &mut out), Err(TeeError { code: 0xFFFF_0000 }));
    assert_eq!(out, vec![0xeeu8; 64]);
    let e = TeeError { code: 0xFFFF_0010 };
    assert_eq!(finish_signature(Err(e), &sig, &mut out), Err(e));
    assert_eq!(out, vec![0xeeu8; 64]);
}
