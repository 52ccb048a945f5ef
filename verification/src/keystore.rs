//! The key pair's lifecycle inside the TA: generation, serialization into
//! the persistent record, loading it back, and signing with it.
//!
//! Fail-closed rule: `ItemNotFound` on open means first boot and triggers
//! key generation. Any other failure (a key object that is present but
//! unreadable, of any other size than one record, or carrying the wrong
//! magic or format) is returned as an error. The TA never regenerates over a damaged object: minting a
//! fresh key would replace the device's identity, which is exactly what a
//! tamperer wants to look like a first boot.
//!
//! Buffers that may hold the private scalar are scrubbed on every path out.
use crate::keyblob::{
    be_value, blob_header_ok, left_pad, place_padded, validate_stored_blob, wr_u32, zeroize,
    BLOB_SIZE, FIELD, FORMAT, KEY_BITS, MAGIC, O_D, O_FORMAT, O_MAGIC, O_X, O_Y,
};
use crate::tee::{
    ecdsa_keypair_allocate, ecdsa_keypair_generate, ecdsa_keypair_populate,
    ecdsa_keypair_ref_attribute, ecdsa_p256_signature_valid, ecdsa_sign_allocate,
    ecdsa_sign_digest, ecdsa_sign_set_key, extends, outcome, p256_order, p256_public_point,
    part_of,
    private_object_create, private_object_open, private_object_read, since, EcKey, KeyPart,
    StoredObject, TeeError, TeeEvent, TeeLog, DATA_FLAG_ACCESS_READ, DATA_FLAG_ACCESS_WRITE,
    ECC_CURVE_NIST_P256, ERROR_CORRUPT_OBJECT, ERROR_GENERIC, ERROR_ITEM_NOT_FOUND,
    OBJECT_ID_MAX_LEN,
};
use vstd::prelude::*;

verus! {

/// The storage identifier of the key record, "signer.key.v1".
pub open spec fn key_object_id_bytes() -> Seq<u8> {
    // s     i     g     n     e     r     .     k     e     y     .     v     1
    seq![0x73u8, 0x69, 0x67, 0x6e, 0x65, 0x72, 0x2e, 0x6b, 0x65, 0x79, 0x2e, 0x76, 0x31]
}

/// The storage identifier of the key record.
pub fn key_object_id() -> (r: Vec<u8>)
    ensures
        r@ == key_object_id_bytes(),
{
    let r = vec![0x73u8, 0x69, 0x67, 0x6e, 0x65, 0x72, 0x2e, 0x6b, 0x65, 0x79, 0x2e, 0x76, 0x31];
    assert(r@ =~= key_object_id_bytes());
    r
}

/// Whether an error from opening the key record means that no record exists
/// yet: only `ItemNotFound` is a genuine first boot.
pub fn is_first_boot(e: TeeError) -> (r: bool)
    ensures
        r == (e.code == ERROR_ITEM_NOT_FOUND),
{
    e.code == ERROR_ITEM_NOT_FOUND
}

/// The key record is opened with the read right only.
pub open spec fn open_flags() -> u32 {
    DATA_FLAG_ACCESS_READ
}

/// The key record is created with the read and write rights, and without
/// the overwrite flag: creation is exclusive.
pub open spec fn create_flags() -> u32 {
    DATA_FLAG_ACCESS_READ | DATA_FLAG_ACCESS_WRITE
}

/// A record of a key pair generated in the TEE: a well-formed header, a
/// field d that is a valid P-256 private scalar (1 <= d < n), and fields X,
/// Y that denote the public point of d.
pub open spec fn generated_record(b: Seq<u8>) -> bool {
    &&& blob_header_ok(b)
    &&& 1 <= be_value(b.subrange(O_D as int, O_D + FIELD)) < p256_order()
    &&& p256_public_point(be_value(b.subrange(O_D as int, O_D + FIELD))) == (
        be_value(b.subrange(O_X as int, O_X + FIELD)),
        be_value(b.subrange(O_Y as int, O_Y + FIELD)),
    )
}

/// The 32-byte field of a record that starts at `start`.
pub open spec fn field(b: Seq<u8>, start: int) -> Seq<u8> {
    b.subrange(start, start + FIELD)
}

/// A key-pair object for a 256-bit key was allocated.
pub open spec fn key_allocated(result: Result<(), TeeError>) -> TeeEvent {
    TeeEvent::AllocateKeyPair { max_bits: KEY_BITS as nat, result }
}

/// A 256-bit P-256 key pair was generated.
pub open spec fn key_generated(result: Result<(), TeeError>) -> TeeEvent {
    TeeEvent::Generate { bits: KEY_BITS as nat, curve: ECC_CURVE_NIST_P256, result }
}

/// The TEE calls of reading a key pair's attributes d, X and Y in turn into
/// 32-byte buffers, and what comes of them: the first error is the result
/// and ends the reads; if all three are read, the result is their record.
pub open spec fn serialize_run(ev: Seq<TeeEvent>, r: Result<Seq<u8>, TeeError>) -> bool {
    ||| r is Err && ev == seq![TeeEvent::Attribute { part: KeyPart::PrivateValue, got: r }]
    ||| r is Err && ev.len() == 2 && (ev[0] matches TeeEvent::Attribute {
        part: KeyPart::PrivateValue,
        got: Ok(_),
    }) && ev[1] == TeeEvent::Attribute { part: KeyPart::PublicValueX, got: r }
    ||| r is Err && ev.len() == 3 && (ev[0] matches TeeEvent::Attribute {
        part: KeyPart::PrivateValue,
        got: Ok(_),
    }) && (ev[1] matches TeeEvent::Attribute { part: KeyPart::PublicValueX, got: Ok(_) })
        && ev[2] == TeeEvent::Attribute { part: KeyPart::PublicValueY, got: r }
    ||| ev.len() == 3 && match (ev[0], ev[1], ev[2]) {
        (
            TeeEvent::Attribute { part: KeyPart::PrivateValue, got: Ok(d) },
            TeeEvent::Attribute { part: KeyPart::PublicValueX, got: Ok(x) },
            TeeEvent::Attribute { part: KeyPart::PublicValueY, got: Ok(y) },
        ) => {
            &&& d.len() <= FIELD
            &&& x.len() <= FIELD
            &&& y.len() <= FIELD
            &&& r == Ok::<Seq<u8>, TeeError>(record_of((d, x, y)))
        },
        _ => false,
    }
}

/// The TEE calls of generating and serializing a key pair, and what comes
/// of them: a key-pair object for 256 bits is allocated, a 256-bit P-256
/// key pair is generated in it, and its attributes are read
/// (`serialize_run`); the first error is the result and ends the calls.
pub open spec fn keygen_run(ev: Seq<TeeEvent>, r: Result<Seq<u8>, TeeError>) -> bool {
    ||| r is Err && ev == seq![key_allocated(outcome(r))]
    ||| r is Err && ev == seq![key_allocated(Ok(())), key_generated(outcome(r))]
    ||| ev.len() >= 2 && ev.subrange(0, 2) == seq![key_allocated(Ok(())), key_generated(Ok(()))]
        && serialize_run(ev.subrange(2, ev.len() as int), r)
}

/// The TEE calls of a first boot, after the open answered `ItemNotFound`,
/// and what comes of them: a key pair is generated and serialized
/// (`keygen_run`); only if that succeeds is a record created, exclusively,
/// under `id`, holding the generated record; the record is the result only
/// if the creation succeeded.
pub open spec fn generation_run(id: Seq<u8>, ev: Seq<TeeEvent>, r: Result<Seq<u8>, TeeError>) -> bool {
    ||| r is Err && keygen_run(ev, r)
    ||| ev.len() >= 1 && match ev.last() {
        TeeEvent::Create { id: cid, flags, data, result } => {
            &&& cid == id
            &&& flags == create_flags()
            &&& keygen_run(ev.drop_last(), Ok(data))
            &&& generated_record(data)
            &&& match result {
                Ok(()) => r == Ok::<Seq<u8>, TeeError>(data),
                Err(e) => r == Err::<Seq<u8>, TeeError>(e),
            }
        },
        _ => false,
    }
}

/// The TEE calls made after the key record was opened with the answer
/// `opened`, and what comes of them. A record that opened is read once,
/// into a buffer one byte longer than a record, and nothing else: it is
/// the result if exactly one well-formed record was read, and
/// `CorruptObject` otherwise; a read error is passed on. An open error
/// other than `ItemNotFound` is passed on with no further call. Only
/// `ItemNotFound` leads to a key being generated.
pub open spec fn after_open(
    opened: Result<(), TeeError>,
    id: Seq<u8>,
    ev: Seq<TeeEvent>,
    r: Result<Seq<u8>, TeeError>,
) -> bool {
    match opened {
        Ok(()) => ev.len() == 1 && match ev[0] {
            TeeEvent::Read { capacity, got } => capacity == BLOB_SIZE + 1 && match got {
                Ok(data) => if blob_header_ok(data) {
                    r == Ok::<Seq<u8>, TeeError>(data)
                } else {
                    r == Err::<Seq<u8>, TeeError>(TeeError { code: ERROR_CORRUPT_OBJECT })
                },
                Err(e) => r == Err::<Seq<u8>, TeeError>(e),
            },
            _ => false,
        },
        Err(e) => if e.code == ERROR_ITEM_NOT_FOUND {
            generation_run(id, ev, r)
        } else {
            ev.len() == 0 && r == Err::<Seq<u8>, TeeError>(e)
        },
    }
}

/// The TEE calls of loading the key record, and what comes of them: the
/// record is opened for reading, then `after_open`.
pub open spec fn load_run(ev: Seq<TeeEvent>, r: Result<Seq<u8>, TeeError>) -> bool {
    &&& ev.len() >= 1
    &&& match ev[0] {
        TeeEvent::Open { id, flags, result } => {
            &&& id == key_object_id_bytes()
            &&& flags == open_flags()
            &&& after_open(result, id, ev.drop_first(), r)
        },
        _ => false,
    }
}

/// The record that a successful load yields: the one read back, or the
/// one created.
pub open spec fn loaded_record(ev: Seq<TeeEvent>) -> Seq<u8> {
    match ev.last() {
        TeeEvent::Read { got: Ok(data), .. } => data,
        TeeEvent::Create { data, .. } => data,
        _ => Seq::empty(),
    }
}

/// The TEE calls of signing `digest` with the key record `rec`, and what
/// comes of them: a key-pair object for 256 bits is allocated and populated
/// as a P-256 key pair with the record's d, X and Y; a signing operation
/// for 256-bit keys is allocated and the key set into it; the digest is
/// signed. The first error is the result and ends the calls. A signature
/// of 64 bytes is the result, and it is valid for the digest under the
/// record's d; any other size is refused with `Generic`.
pub open spec fn sign_run(rec: Seq<u8>, digest: Seq<u8>, ev: Seq<TeeEvent>, r: Result<Seq<u8>, TeeError>) -> bool {
    let populated = |res: Result<(), TeeError>|
        TeeEvent::Populate {
            curve: ECC_CURVE_NIST_P256,
            d: field(rec, O_D as int),
            x: field(rec, O_X as int),
            y: field(rec, O_Y as int),
            result: res,
        };
    let op_allocated = |res: Result<(), TeeError>|
        TeeEvent::AllocateSign { max_bits: KEY_BITS as nat, result: res };
    ||| r is Err && ev == seq![key_allocated(outcome(r))]
    ||| r is Err && ev == seq![key_allocated(Ok(())), populated(outcome(r))]
    ||| r is Err && ev == seq![key_allocated(Ok(())), populated(Ok(())), op_allocated(outcome(r))]
    ||| r is Err && ev == seq![
        key_allocated(Ok(())),
        populated(Ok(())),
        op_allocated(Ok(())),
        TeeEvent::SetKey { result: outcome(r) },
    ]
    ||| ev.len() == 5 && ev.subrange(0, 4) == seq![
        key_allocated(Ok(())),
        populated(Ok(())),
        op_allocated(Ok(())),
        TeeEvent::SetKey { result: Ok(()) },
    ] && match ev[4] {
        TeeEvent::SignDigest { digest: dg, got } => dg == digest && match got {
            Err(e) => r == Err::<Seq<u8>, TeeError>(e),
            Ok(sig) => if sig.len() == crate::proto::SIGNATURE_LEN {
                r == Ok::<Seq<u8>, TeeError>(sig) && ecdsa_p256_signature_valid(
                    field(rec, O_D as int),
                    digest,
                    sig,
                )
            } else {
                r == Err::<Seq<u8>, TeeError>(TeeError { code: ERROR_GENERIC })
            },
        },
        _ => false,
    }
}

/// A result carrying a record, by its bytes.
pub open spec fn record_view(r: Result<Vec<u8>, TeeError>) -> Result<Seq<u8>, TeeError> {
    match r {
        Ok(b) => Ok(b@),
        Err(e) => Err(e),
    }
}

/// What an attribute read makes of the field of `out` that starts at
/// `start`: a read of `n <= 32` bytes (the first `n` of `tmp`) is placed
/// left-padded with zeros into the field; a longer attribute is refused
/// with `Generic` and an error from the TEE is passed on, both leaving
/// `out` as it was.
pub fn place_attribute(
    read: Result<usize, TeeError>,
    tmp: &[u8],
    out: &mut Vec<u8>,
    start: usize,
) -> (r: Result<(), TeeError>)
    requires
        tmp@.len() == FIELD,
        start + FIELD <= old(out)@.len(),
    ensures
        match read {
            Ok(n) => if n <= FIELD {
                &&& r is Ok
                &&& final(out)@ == old(out)@.subrange(0, start as int) + left_pad(
                    tmp@.subrange(0, n as int),
                ) + old(out)@.subrange(start + FIELD, old(out)@.len() as int)
            } else {
                r == Err::<(), TeeError>(TeeError { code: ERROR_GENERIC }) && final(out)@ == old(
                    out,
                )@
            },
            Err(e) => r == Err::<(), TeeError>(e) && final(out)@ == old(out)@,
        },
{
    match read {
        Ok(n) => {
            if n <= FIELD {
                place_padded(out.as_mut_slice(), start, tmp, n);
                Ok(())
            } else {
                Err(TeeError { code: ERROR_GENERIC })
            }
        },
        Err(e) => Err(e),
    }
}

/// Reads one key attribute left-padded into the 32-byte field of `out`
/// that starts at `start`. The read is recorded in `log` as one call; an
/// error from it is the result and leaves `out` unchanged; otherwise the
/// bytes read (at most 32, the buffer's size) are placed left-padded with
/// zeros into the field, nothing else changes, and for a key pair
/// generated in the TEE they are that attribute. The scratch buffer, which
/// may hold private material, is scrubbed on every path.
pub fn read_padded(key: &EcKey, part: KeyPart, out: &mut Vec<u8>, start: usize, log: &mut TeeLog) -> (r: Result<
    (),
    TeeError,
>)
    requires
        key.initialized(),
        start + FIELD <= old(out)@.len(),
    ensures
        final(out)@.len() == old(out)@.len(),
        final(log).events().len() == old(log).events().len() + 1,
        final(log).events().drop_last() == old(log).events(),
        match final(log).events().last() {
            TeeEvent::Attribute { part: p, got } => p == part && match got {
                Err(e) => r == Err::<(), TeeError>(e) && final(out)@ == old(out)@,
                Ok(v) => {
                    &&& r is Ok
                    &&& v.len() <= FIELD
                    &&& final(out)@ == old(out)@.subrange(0, start as int) + left_pad(v) + old(
                        out,
                    )@.subrange(start + FIELD, old(out)@.len() as int)
                    &&& match key.generated_parts() {
                        Some(pp) => v == part_of(pp, part),
                        None => true,
                    }
                },
            },
            _ => false,
        },
{
    let mut tmp = vec![0u8; FIELD];
    let read = ecdsa_keypair_ref_attribute(key, part, &mut tmp, log);
    let res = place_attribute(read, tmp.as_slice(), out, start);
    assert(log.events().drop_last() =~= old(log).events());
    zeroize(tmp.as_mut_slice());
    res
}

/// What one attribute read did to a record buffer, as `read_padded`
/// states it, for the field at `start`.
spec fn placed(before: Seq<u8>, after: Seq<u8>, start: int, e: TeeEvent) -> bool {
    match e {
        TeeEvent::Attribute { got: Ok(v), .. } => v.len() <= FIELD && after == before.subrange(
            0,
            start,
        ) + left_pad(v) + before.subrange(start + FIELD, before.len() as int),
        _ => after == before,
    }
}

/// Serializes the key pair into `blob`. The header (magic and format) is
/// written first, whatever the TEE answers afterwards; then d, X and Y are
/// each read left-padded into its field. The reads are recorded in `log`
/// and the result is that of `serialize_run`: on success `blob` is the
/// record of what was read, for a key pair generated in the TEE exactly its
/// record. On an error the private scalar may already be in `blob`, so the
/// caller must scrub it.
pub fn fill_key_blob(key: &EcKey, blob: &mut Vec<u8>, log: &mut TeeLog) -> (r: Result<(), TeeError>)
    requires
        key.initialized(),
        old(blob)@.len() == BLOB_SIZE,
    ensures
        final(blob)@.len() == BLOB_SIZE,
        blob_header_ok(final(blob)@),
        extends(old(log).events(), final(log).events()),
        serialize_run(
            since(old(log).events(), final(log).events()),
            match r {
                Ok(()) => Ok(final(blob)@),
                Err(e) => Err(e),
            },
        ),
        r is Ok ==> match key.generated_parts() {
            Some(p) => final(blob)@ == record_of(p),
            None => true,
        },
{
    let ghost l0 = log.events();
    wr_u32(blob.as_mut_slice(), O_MAGIC, MAGIC);
    wr_u32(blob.as_mut_slice(), O_FORMAT, FORMAT);
    proof {
        crate::keyblob::lemma_le_u32_roundtrip(MAGIC);
        crate::keyblob::lemma_le_u32_roundtrip(FORMAT);
    }
    let ghost b0 = blob@;
    let ghost header = crate::keyblob::le_bytes(MAGIC) + crate::keyblob::le_bytes(FORMAT);
    assert(b0.subrange(0, 8) =~= header);
    assert(blob_header_ok(b0)) by {
        assert(crate::keyblob::le_u32(b0, 0) == crate::keyblob::le_u32(header, 0));
        assert(crate::keyblob::le_u32(b0, 4) == crate::keyblob::le_u32(header, 4));
    }
    let r1 = read_padded(key, KeyPart::PrivateValue, blob, O_D, log);
    let ghost l1 = log.events();
    let ghost b1 = blob@;
    let ghost e1 = l1.last();
    proof {
        assert(l1 =~= l0.push(e1));
        crate::tee::lemma_extends_refl(l0);
        crate::tee::lemma_extends_push(l0, l0, e1);
        assert(placed(b0, b1, O_D as int, e1));
        assert forall|k: int| 0 <= k < 8 implies b1[k] == b0[k] by {}
        assert(crate::keyblob::le_u32(b1, 0) == crate::keyblob::le_u32(b0, 0));
        assert(crate::keyblob::le_u32(b1, 4) == crate::keyblob::le_u32(b0, 4));
    }
    if r1.is_err() {
        assert(since(l0, l1) =~= seq![e1]);
        return r1;
    }
    let r2 = read_padded(key, KeyPart::PublicValueX, blob, O_X, log);
    let ghost l2 = log.events();
    let ghost b2 = blob@;
    let ghost e2 = l2.last();
    proof {
        assert(l2 =~= l1.push(e2));
        crate::tee::lemma_extends_push(l0, l1, e2);
        assert(placed(b1, b2, O_X as int, e2));
        assert forall|k: int| 0 <= k < 8 implies b2[k] == b0[k] by {}
        assert(crate::keyblob::le_u32(b2, 0) == crate::keyblob::le_u32(b0, 0));
        assert(crate::keyblob::le_u32(b2, 4) == crate::keyblob::le_u32(b0, 4));
    }
    if r2.is_err() {
        assert(since(l0, l2) =~= seq![e1, e2]);
        return r2;
    }
    let r3 = read_padded(key, KeyPart::PublicValueY, blob, O_Y, log);
    let ghost l3 = log.events();
    let ghost b3 = blob@;
    let ghost e3 = l3.last();
    proof {
        assert(l3 =~= l2.push(e3));
        crate::tee::lemma_extends_push(l0, l2, e3);
        assert(since(l0, l3) =~= seq![e1, e2, e3]);
        assert(placed(b2, b3, O_Y as int, e3));
        assert forall|k: int| 0 <= k < 8 implies b3[k] == b0[k] by {}
        assert(crate::keyblob::le_u32(b3, 0) == crate::keyblob::le_u32(b0, 0));
        assert(crate::keyblob::le_u32(b3, 4) == crate::keyblob::le_u32(b0, 4));
    }
    if r3.is_err() {
        return r3;
    }
    proof {
        if let (
            TeeEvent::Attribute { got: Ok(d), .. },
            TeeEvent::Attribute { got: Ok(x), .. },
            TeeEvent::Attribute { got: Ok(y), .. },
        ) = (e1, e2, e3) {
            assert(left_pad(d).len() == FIELD);
            assert(left_pad(x).len() == FIELD);
            assert(left_pad(y).len() == FIELD);
            assert(b3 =~= record_of((d, x, y)));
            if let Some(p) = key.generated_parts() {
                assert((d, x, y) == p);
            }
        }
    }
    Ok(())
}

/// The record of a key pair whose attributes are `parts`: the header, then
/// d, X and Y, each left-padded to its field.
pub open spec fn record_of(parts: (Seq<u8>, Seq<u8>, Seq<u8>)) -> Seq<u8> {
    crate::keyblob::le_bytes(MAGIC) + crate::keyblob::le_bytes(FORMAT) + left_pad(parts.0)
        + left_pad(parts.1) + left_pad(parts.2)
}

/// A record built from the attributes of a generated P-256 key pair is a
/// generated record: left-padding keeps each value, so X and Y still
/// denote the public point of d.
proof fn lemma_record_of_generated(p: (Seq<u8>, Seq<u8>, Seq<u8>))
    requires
        crate::tee::p256_key_parts(p),
    ensures
        generated_record(record_of(p)),
{
    let b = record_of(p);
    crate::keyblob::lemma_le_u32_roundtrip(MAGIC);
    crate::keyblob::lemma_le_u32_roundtrip(FORMAT);
    crate::keyblob::lemma_left_pad_preserves_value(p.0);
    crate::keyblob::lemma_left_pad_preserves_value(p.1);
    crate::keyblob::lemma_left_pad_preserves_value(p.2);
    assert(b.subrange(O_D as int, O_D + FIELD) =~= left_pad(p.0));
    assert(b.subrange(O_X as int, O_X + FIELD) =~= left_pad(p.1));
    assert(b.subrange(O_Y as int, O_Y + FIELD) =~= left_pad(p.2));
    assert(b.subrange(0, 4) =~= crate::keyblob::le_bytes(MAGIC));
    assert(b.subrange(4, 8) =~= crate::keyblob::le_bytes(FORMAT));
    assert(crate::keyblob::le_u32(b, 0) == crate::keyblob::le_u32(b.subrange(0, 4), 0));
    assert(crate::keyblob::le_u32(b, 4) == crate::keyblob::le_u32(b.subrange(4, 8), 0));
}

/// Generates a fresh P-256 key pair inside the TEE and serializes it into a
/// new record. The TEE calls, recorded in `log`, and the result are those of
/// `keygen_run`; a record that comes out is a generated record. On an
/// error no record leaves this function and the buffer is scrubbed.
pub fn generate_key_blob(log: &mut TeeLog) -> (r: Result<Vec<u8>, TeeError>)
    ensures
        extends(old(log).events(), final(log).events()),
        keygen_run(since(old(log).events(), final(log).events()), record_view(r)),
        r matches Ok(b) ==> generated_record(b@),
{
    let ghost l0 = log.events();
    proof {
        crate::tee::lemma_extends_refl(l0);
    }
    let allocated = ecdsa_keypair_allocate(KEY_BITS, log);
    proof {
        crate::tee::lemma_extends_push(l0, l0, log.events().last());
        assert(log.events() =~= l0.push(log.events().last()));
    }
    let mut key = match allocated {
        Ok(k) => k,
        Err(e) => {
            assert(since(l0, log.events()) =~= seq![key_allocated(Err(e))]);
            return Err(e);
        },
    };
    let ghost l1 = log.events();
    let generated = ecdsa_keypair_generate(&mut key, KEY_BITS, ECC_CURVE_NIST_P256, log);
    let ghost l2 = log.events();
    proof {
        crate::tee::lemma_extends_push(l0, l1, key_generated(generated));
        assert(since(l0, l2) =~= seq![key_allocated(Ok(())), key_generated(generated)]);
    }
    match generated {
        Ok(u) => {
            assert(u == ());
        },
        Err(e) => {
            return Err(e);
        },
    }
    let mut blob = vec![0u8; BLOB_SIZE];
    let filled = fill_key_blob(&key, &mut blob, log);
    proof {
        let l3 = log.events();
        crate::tee::lemma_extends_trans(l0, l2, l3);
        let ev = since(l0, l3);
        assert(ev.subrange(0, 2) =~= since(l0, l2));
        assert(ev.subrange(2, ev.len() as int) =~= since(l2, l3));
        assert(ev.subrange(0, 2) == seq![key_allocated(Ok(())), key_generated(Ok(()))]);
    }
    match filled {
        Ok(()) => {
            proof {
                let p = key.generated_parts().unwrap();
                lemma_record_of_generated(p);
            }
            Ok(blob)
        },
        Err(e) => {
            zeroize(blob.as_mut_slice());
            Err(e)
        },
    }
}

/// Loads the key record, generating and persisting one on genuine first
/// boot only. A record that opens but cannot be read, or that is not
/// exactly one well-formed record, is an error; it is never replaced. The
/// TEE calls made, recorded in `log`, and the result are those of
/// `load_run`; a record returned is the one read back or created.
pub fn load_or_create_blob(log: &mut TeeLog) -> (r: Result<Vec<u8>, TeeError>)
    ensures
        extends(old(log).events(), final(log).events()),
        load_run(since(old(log).events(), final(log).events()), record_view(r)),
        r matches Ok(b) ==> b@ == loaded_record(since(old(log).events(), final(log).events()))
            && blob_header_ok(b@),
{
    let id = key_object_id();
    assert(DATA_FLAG_ACCESS_READ & !crate::tee::OPEN_FLAGS_DEFINED == 0) by (bit_vector);
    let ghost before = log.events();
    let opened = private_object_open(id.as_slice(), DATA_FLAG_ACCESS_READ, log);
    assert(DATA_FLAG_ACCESS_READ & DATA_FLAG_ACCESS_READ == DATA_FLAG_ACCESS_READ) by (bit_vector);
    let ghost mid = log.events();
    let r = load_or_create_from(opened, id.as_slice(), log);
    proof {
        crate::tee::lemma_extends_refl(before);
        crate::tee::lemma_extends_push(before, before, mid.last());
        assert(mid =~= before.push(mid.last()));
        crate::tee::lemma_extends_trans(before, mid, log.events());
        let all = since(before, log.events());
        let rest = since(mid, log.events());
        assert(all.drop_first() =~= rest);
        assert(all[0] == mid.last());
        if all.len() > 1 {
            assert(all.last() == rest.last());
        }
    }
    r
}

/// The rest of `load_or_create_blob`, given the result of opening the key
/// record `id` (with the read right). Whatever storage answered, the TEE
/// calls made after the open and the result are those of `after_open`: an
/// open error other than `ItemNotFound` is returned as it is with no
/// further call; a key is generated only after `ItemNotFound`; a record
/// that opened is never replaced, only read back once, into a buffer one
/// byte longer than a record, and checked.
pub fn load_or_create_from(opened: Result<StoredObject, TeeError>, id: &[u8], log: &mut TeeLog) -> (r: Result<Vec<u8>, TeeError>)
    requires
        opened matches Ok(o) ==> o.readable(),
        id@.len() <= OBJECT_ID_MAX_LEN,
    ensures
        extends(old(log).events(), final(log).events()),
        after_open(outcome(opened), id@, since(old(log).events(), final(log).events()), record_view(r)),
        opened is Err && final(log).events().len() > old(log).events().len() ==> match final(log).events().last() {
            TeeEvent::Create { result: Ok(()), data, .. } => r is Ok && record_view(r) == Ok::<
                Seq<u8>,
                TeeError,
            >(data),
            _ => true,
        },
        r matches Ok(b) ==> b@ == loaded_record(since(old(log).events(), final(log).events()))
            && blob_header_ok(b@),
{
    let ghost before = log.events();
    proof {
        crate::tee::lemma_extends_refl(before);
    }
    match opened {
        Ok(obj) => {
            let mut obj = obj;
            let mut blob = vec![0u8; BLOB_SIZE + 1];
            let read = private_object_read(&mut obj, &mut blob, log);
            proof {
                crate::tee::lemma_extends_push(before, before, log.events().last());
                assert(log.events() =~= before.push(log.events().last()));
                assert(since(before, log.events()) =~= seq![log.events().last()]);
            }
            let n = match read {
                Ok(n) => n,
                Err(e) => {
                    // A failed read may still have partially filled the buffer.
                    zeroize(blob.as_mut_slice());
                    return Err(e);
                },
            };
            let ghost data = blob@.subrange(0, n as int);
            let ghost whole = blob@;
            let res = validate_stored_blob(n, &mut blob);
            assert(crate::keyblob::stored_blob_accepted(n, whole) == blob_header_ok(data)) by {
                if n == BLOB_SIZE {
                    assert(whole.subrange(0, BLOB_SIZE as int) =~= data);
                }
            }
            match res {
                Ok(()) => Ok(blob),
                Err(e) => Err(e),
            }
        },
        Err(e) => {
            if is_first_boot(e) {
                let generated = generate_key_blob(log);
                let ghost gen = log.events();
                let mut blob = match generated {
                    Ok(b) => b,
                    Err(e) => {
                        proof {
                            let g = since(before, gen);
                            lemma_keygen_creates_nothing(g, Err(e));
                            assert(gen.last() == g.last());
                        }
                        return Err(e);
                    },
                };
                assert(DATA_FLAG_ACCESS_READ | DATA_FLAG_ACCESS_WRITE == 3u32) by (bit_vector);
                assert(3u32 & !crate::tee::DATA_FLAGS_DEFINED == 0) by (bit_vector);
                // No overwrite flag: creation is exclusive, so a concurrent or
                // leftover object fails instead of being silently replaced.
                let created = private_object_create(
                    id,
                    DATA_FLAG_ACCESS_READ | DATA_FLAG_ACCESS_WRITE,
                    blob.as_slice(),
                    log,
                );
                proof {
                    crate::tee::lemma_extends_push(before, gen, log.events().last());
                    assert(log.events() =~= gen.push(log.events().last()));
                    let ev = since(before, log.events());
                    assert(ev.drop_last() =~= since(before, gen));
                }
                match created {
                    Ok(_obj) => Ok(blob),
                    Err(e) => {
                        zeroize(blob.as_mut_slice());
                        Err(e)
                    },
                }
            } else {
                Err(e)
            }
        },
    }
}

/// A record that this library generated is accepted when it is read back
/// whole: the fail-closed check refuses damaged or foreign objects, never
/// the device's own key.
pub proof fn lemma_generated_record_accepted(id: Seq<u8>, b: Seq<u8>)
    requires
        generated_record(b),
    ensures
        after_open(
            Ok(()),
            id,
            seq![TeeEvent::Read { capacity: (BLOB_SIZE + 1) as nat, got: Ok(b) }],
            Ok(b),
        ),
{
}

/// Fail closed: when the key record opens but what is read back is not
/// exactly one well-formed record (a wrong size, magic or format), loading
/// answers `CorruptObject` and makes no other TEE call: no key is
/// generated and nothing is written over the object. The read asks for
/// one byte more than a record, so an object longer than a record shows
/// as a read of the wrong size.
pub proof fn lemma_damaged_record_fails_closed(ev: Seq<TeeEvent>, r: Result<Seq<u8>, TeeError>, data: Seq<u8>)
    requires
        load_run(ev, r),
        ev[0] matches TeeEvent::Open { result: Ok(()), .. },
        ev.len() >= 2,
        ev[1] matches TeeEvent::Read { got: Ok(got), .. } && got == data,
        !blob_header_ok(data),
    ensures
        r == Err::<Seq<u8>, TeeError>(TeeError { code: ERROR_CORRUPT_OBJECT }),
        ev.len() == 2,
        ev[1] matches TeeEvent::Read { capacity, .. } && capacity == BLOB_SIZE + 1,
{
    assert(ev.drop_first()[0] == ev[1]);
}

/// The calls of generating a key pair include no record creation.
proof fn lemma_keygen_creates_nothing(ev: Seq<TeeEvent>, r: Result<Seq<u8>, TeeError>)
    requires
        keygen_run(ev, r),
    ensures
        ev.len() >= 1,
        !(ev.last() is Create),
{
    if ev.len() >= 2 && ev.subrange(0, 2) == seq![key_allocated(Ok(())), key_generated(Ok(()))]
        && serialize_run(ev.subrange(2, ev.len() as int), r) {
        let s = ev.subrange(2, ev.len() as int);
        assert(ev.last() == s.last());
        if s.len() == 1 {
            assert(s.last() == s[0]);
        } else if s.len() == 2 {
            assert(s.last() == s[1]);
        } else {
            assert(s.last() == s[2]);
        }
    } else if ev.len() == 1 {
        assert(ev.last() == ev[0]);
    } else {
        assert(ev.last() == ev[1]);
    }
}

/// Only a genuine first boot mints a key: in any load of the key record, a
/// key-pair object, a key generation, an attribute read or a record
/// creation happens only after the open answered `ItemNotFound`. Any other
/// open error, and any record that opened, leads to none of them.
pub proof fn lemma_key_generated_only_on_first_boot(ev: Seq<TeeEvent>, r: Result<Seq<u8>, TeeError>, i: int)
    requires
        load_run(ev, r),
        0 <= i < ev.len(),
        ev[i] is AllocateKeyPair || ev[i] is Generate || ev[i] is Attribute || ev[i] is Create,
    ensures
        ev[0] matches TeeEvent::Open { result: Err(e), .. } && e.code == ERROR_ITEM_NOT_FOUND,
{
    assert(i >= 1);
    assert(ev.drop_first()[i - 1] == ev[i]);
}

/// The record that a first boot creates holds one key pair: d is a valid
/// scalar and the public key X || Y is its P-256 public point, so what Sign
/// signs under d verifies under the public key that GetPubkey returns.
pub proof fn lemma_created_record_is_key_pair(ev: Seq<TeeEvent>, r: Result<Seq<u8>, TeeError>)
    requires
        load_run(ev, r),
        ev.last() is Create,
    ensures
        generated_record(loaded_record(ev)),
{
    let rest = ev.drop_first();
    if rest.len() == 0 {
        assert(ev.last() == ev[0]);
    } else {
        assert(rest.last() == ev.last());
        if rest.len() == 1 {
            assert(rest[0] == ev.last());
        }
        if r is Err && keygen_run(rest, r) {
            lemma_keygen_creates_nothing(rest, r);
        }
    }
}

/// A successful load yields exactly the record that storage answered with:
/// the bytes the read returned, or the data of the record whose creation
/// succeeded; its last call is that read or that creation.
pub proof fn lemma_loaded_record_is_last_answer(ev: Seq<TeeEvent>, b: Seq<u8>)
    requires
        load_run(ev, Ok(b)),
    ensures
        match ev.last() {
            TeeEvent::Read { got: Ok(data), .. } => data == b && blob_header_ok(b),
            TeeEvent::Create { data, result: Ok(()), .. } => data == b,
            _ => false,
        },
        b == loaded_record(ev),
{
    let rest = ev.drop_first();
    if let TeeEvent::Open { result, .. } = ev[0] {
        match result {
            Ok(()) => {
                assert(ev.last() == rest[0]);
            },
            Err(e) => {
                assert(rest.len() >= 1);
                assert(ev.last() == rest.last());
            },
        }
    }
}

/// First boot: when the open answered `ItemNotFound` and the record was
/// created, the load succeeds with exactly the created record, so the
/// first GetPubkey or Sign on a new device is served.
pub proof fn lemma_first_boot_loads_created_record(ev: Seq<TeeEvent>, r: Result<Seq<u8>, TeeError>, data: Seq<u8>)
    requires
        load_run(ev, r),
        ev.last() matches TeeEvent::Create { result: Ok(()), data: d, .. } && d == data,
    ensures
        r == Ok::<Seq<u8>, TeeError>(data),
        ev[0] matches TeeEvent::Open { result: Err(e), .. } && e.code == ERROR_ITEM_NOT_FOUND,
{
    let rest = ev.drop_first();
    if let TeeEvent::Open { result, .. } = ev[0] {
        match result {
            Ok(()) => {
                assert(ev.last() == rest[0]);
            },
            Err(e) => {
                if e.code == ERROR_ITEM_NOT_FOUND {
                    assert(ev.last() == rest.last());
                    if r is Err && keygen_run(rest, r) {
                        lemma_keygen_creates_nothing(rest, r);
                    }
                } else {
                    assert(ev.len() == 1);
                }
            },
        }
    }
}

/// A record that opens and reads back as exactly one well-formed record
/// is the load's result, whatever it holds.
pub proof fn lemma_stored_record_loaded(ev: Seq<TeeEvent>, r: Result<Seq<u8>, TeeError>, data: Seq<u8>)
    requires
        load_run(ev, r),
        ev[0] matches TeeEvent::Open { result: Ok(()), .. },
        ev.len() >= 2,
        ev[1] matches TeeEvent::Read { got: Ok(got), .. } && got == data,
        data.len() == BLOB_SIZE,
        crate::keyblob::le_u32(data, O_MAGIC as int) == MAGIC,
        crate::keyblob::le_u32(data, O_FORMAT as int) == FORMAT,
    ensures
        r == Ok::<Seq<u8>, TeeError>(data),
        ev.len() == 2,
{
    assert(ev.drop_first()[0] == ev[1]);
}

/// A signing run that succeeds signed exactly the digest it was given, with
/// the key populated from the record's d, X and Y on P-256, and its result
/// is the signature the TEE returned: 64 bytes, valid for that digest
/// under the record's d.
pub proof fn lemma_signature_is_of_given_digest(rec: Seq<u8>, digest: Seq<u8>, ev: Seq<TeeEvent>, sig: Seq<u8>)
    requires
        sign_run(rec, digest, ev, Ok(sig)),
    ensures
        ev.len() == 5,
        ev[4] == (TeeEvent::SignDigest { digest, got: Ok(sig) }),
        ev[1] == (TeeEvent::Populate {
            curve: ECC_CURVE_NIST_P256,
            d: rec.subrange(8, 40),
            x: rec.subrange(40, 72),
            y: rec.subrange(72, 104),
            result: Ok(()),
        }),
        sig.len() == 64,
        ecdsa_p256_signature_valid(rec.subrange(8, 40), digest, sig),
{
    assert(ev[1] == ev.subrange(0, 4)[1]);
}

/// Signs a 32-byte digest with the key held in `blob` and writes r || s to
/// the front of `sig_out`. The TEE calls, recorded in `log`, and the result
/// are those of `sign_run`: the key is populated as a 256-bit P-256 key
/// pair from the record's d, X and Y, the operation is allocated for
/// 256-bit keys, and the signature is `finish_signature` of the TEE's
/// answer. On an error `sig_out` is unchanged; on success only its first
/// 64 bytes are written, and they are a signature of the digest under the
/// record's d.
pub fn sign_with_blob(blob: &Vec<u8>, digest: &[u8], sig_out: &mut Vec<u8>, log: &mut TeeLog) -> (r: Result<
    (),
    TeeError,
>)
    requires
        blob@.len() == BLOB_SIZE,
        digest@.len() == crate::proto::DIGEST_LEN,
        old(sig_out)@.len() >= crate::proto::SIGNATURE_LEN,
    ensures
        extends(old(log).events(), final(log).events()),
        sign_run(
            blob@,
            digest@,
            since(old(log).events(), final(log).events()),
            match r {
                Ok(()) => Ok(final(sig_out)@.subrange(0, 64)),
                Err(e) => Err(e),
            },
        ),
        final(sig_out)@.len() == old(sig_out)@.len(),
        r is Err ==> final(sig_out)@ == old(sig_out)@,
        r is Ok ==> final(sig_out)@.subrange(64, final(sig_out)@.len() as int) == old(
            sig_out,
        )@.subrange(64, old(sig_out)@.len() as int),
        r is Ok ==> ecdsa_p256_signature_valid(
            blob@.subrange(O_D as int, O_D + FIELD),
            digest@,
            final(sig_out)@.subrange(0, 64),
        ),
{
    let ghost l0 = log.events();
    let ghost rec = blob@;
    let ghost pop = |res: Result<(), TeeError>|
        TeeEvent::Populate {
            curve: ECC_CURVE_NIST_P256,
            d: field(rec, O_D as int),
            x: field(rec, O_X as int),
            y: field(rec, O_Y as int),
            result: res,
        };
    proof {
        crate::tee::lemma_extends_refl(l0);
    }
    let allocated = ecdsa_keypair_allocate(KEY_BITS, log);
    let ghost l1 = log.events();
    proof {
        crate::tee::lemma_extends_push(l0, l0, l1.last());
        assert(l1 =~= l0.push(l1.last()));
        assert(since(l0, l1) =~= seq![key_allocated(outcome(allocated))]);
    }
    let mut key = match allocated {
        Ok(k) => k,
        Err(e) => {
            return Err(e);
        },
    };
    let b = blob.as_slice();
    let populated = ecdsa_keypair_populate(
        &mut key,
        ECC_CURVE_NIST_P256,
        &b[O_D..O_D + FIELD],
        &b[O_X..O_X + FIELD],
        &b[O_Y..O_Y + FIELD],
        log,
    );
    let ghost l2 = log.events();
    proof {
        crate::tee::lemma_extends_push(l0, l1, l2.last());
        assert(l2 =~= l1.push(l2.last()));
        assert(l2.last() == pop(populated));
        assert(since(l0, l2) =~= seq![key_allocated(Ok(())), pop(populated)]);
    }
    match populated {
        Ok(u) => {
            assert(u == ());
        },
        Err(e) => {
            return Err(e);
        },
    }
    let op_allocated = ecdsa_sign_allocate(KEY_BITS, log);
    let ghost l3 = log.events();
    proof {
        crate::tee::lemma_extends_push(l0, l2, l3.last());
        assert(l3 =~= l2.push(l3.last()));
        assert(since(l0, l2) =~= seq![key_allocated(Ok(())), pop(Ok(()))]);
        assert(since(l0, l3) == since(l0, l2).push(l3.last()));
        assert(l3.last() == TeeEvent::AllocateSign { max_bits: KEY_BITS as nat, result: outcome(op_allocated) });
        assert(since(l0, l3) =~= seq![
            key_allocated(Ok(())),
            pop(Ok(())),
            TeeEvent::AllocateSign { max_bits: KEY_BITS as nat, result: outcome(op_allocated) },
        ]);
    }
    let mut op = match op_allocated {
        Ok(op) => op,
        Err(e) => {
            return Err(e);
        },
    };
    let keyed = ecdsa_sign_set_key(&mut op, &key, log);
    let ghost l4 = log.events();
    proof {
        crate::tee::lemma_extends_push(l0, l3, l4.last());
        assert(l4 =~= l3.push(l4.last()));
        assert(since(l0, l4) =~= seq![
            key_allocated(Ok(())),
            pop(Ok(())),
            TeeEvent::AllocateSign { max_bits: KEY_BITS as nat, result: Ok(()) },
            TeeEvent::SetKey { result: keyed },
        ]);
    }
    match keyed {
        Ok(u) => {
            assert(u == ());
        },
        Err(e) => {
            return Err(e);
        },
    }
    let mut sig = vec![0u8; crate::proto::SIGNATURE_LEN];
    let signed = ecdsa_sign_digest(&op, digest, &mut sig, log);
    let ghost l5 = log.events();
    proof {
        crate::tee::lemma_extends_push(l0, l4, l5.last());
        assert(l5 =~= l4.push(l5.last()));
        let ev = since(l0, l5);
        assert(ev.len() == 5);
        assert(ev.subrange(0, 4) =~= since(l0, l4));
        assert(ev[4] == l5.last());
    }
    let r = finish_signature(signed, sig.as_slice(), sig_out);
    proof {
        if r is Ok {
            assert(sig@.subrange(0, 64) =~= sig@);
            assert(sig_out@.subrange(0, 64) =~= sig@);
            assert(sig_out@.subrange(64, sig_out@.len() as int) =~= old(sig_out)@.subrange(
                64,
                old(sig_out)@.len() as int,
            ));
        }
    }
    r
}

/// Turns the TEE's answer to a signing request (the size of the signature
/// it wrote to the front of `sig`) into the command's answer. An error is
/// passed on. The TEE writes r and s each left-padded into a 32-byte half,
/// so a signature of any other size than 64 bytes means an assumption
/// broke: it is refused with `Generic` rather than emitted with ambiguous
/// component boundaries. A 64-byte signature is copied to the front of
/// `sig_out`, and nothing else of it changes; on an error `sig_out` is
/// unchanged.
pub fn finish_signature(signed: Result<usize, TeeError>, sig: &[u8], sig_out: &mut Vec<u8>) -> (r:
    Result<(), TeeError>)
    requires
        sig@.len() == crate::proto::SIGNATURE_LEN,
        old(sig_out)@.len() >= crate::proto::SIGNATURE_LEN,
    ensures
        match signed {
            Ok(n) => if n == crate::proto::SIGNATURE_LEN {
                r is Ok && final(sig_out)@ == sig@ + old(sig_out)@.subrange(
                    64,
                    old(sig_out)@.len() as int,
                )
            } else {
                r == Err::<(), TeeError>(TeeError { code: ERROR_GENERIC }) && final(sig_out)@
                    == old(sig_out)@
            },
            Err(e) => r == Err::<(), TeeError>(e) && final(sig_out)@ == old(sig_out)@,
        },
{
    let n = match signed {
        Ok(n) => n,
        Err(e) => {
            return Err(e);
        },
    };
    if n != crate::proto::SIGNATURE_LEN {
        return Err(TeeError { code: ERROR_GENERIC });
    }
    let len = sig_out.len();
    for i in 0..crate::proto::SIGNATURE_LEN
        invariant
            len == sig_out@.len(),
            len == old(sig_out)@.len(),
            len >= 64,
            sig@.len() == 64,
            forall|j: int| 64 <= j < len ==> sig_out@[j] == old(sig_out)@[j],
            forall|j: int| 0 <= j < i ==> sig_out@[j] == sig@[j],
    {
        sig_out[i] = sig[i];
    }
    assert(sig_out@ =~= sig@ + old(sig_out)@.subrange(64, old(sig_out)@.len() as int));
    Ok(())
}

} // verus!
