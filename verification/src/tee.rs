//! The calls that the Trusted Application makes into the GlobalPlatform TEE
//! Internal Core API (through `optee_utee`): key objects, asymmetric
//! signing and secure storage.
//!
//! Every result here depends on state that the library cannot see (the
//! random number generator, the secure storage, the key material inside an
//! object handle), so these items state only what holds of every outcome:
//! a signature is one of the digest under the operation's key, a generated
//! key pair's public point is the one of its private scalar. They also
//! carry the state that decides which later calls are allowed:
//! an object must be initialized before its attributes are read or it is
//! used as a key, an operation must hold a key before it signs, and a
//! storage object must be opened with the read right before it is read.
//!
//! Every call is recorded in a `TeeLog`, a ghost record of the TEE calls
//! made, what was handed to each and what each answered; it is how the
//! library's contracts say what a command did with the device's key.
use crate::keyblob::be_value;
use optee_utee::{
    AlgorithmId, Asymmetric, AttributeId, AttributeMemref, AttributeValue, DataFlag, GenericObject,
    ObjectStorageConstants, OperationMode, PersistentObject, TransientObject, TransientObjectType,
};
use vstd::prelude::*;

verus! {

/// A TEE result code other than success (the `TEE_ERROR_*` values).
#[derive(Clone, Copy, Debug, PartialEq, Eq, Structural)]
pub struct TeeError {
    pub code: u32,
}

/// `TEE_ERROR_GENERIC`: non-specific cause.
pub const ERROR_GENERIC: u32 = 0xFFFF_0000;

/// `TEE_ERROR_BAD_PARAMETERS`: input parameters were invalid.
pub const ERROR_BAD_PARAMETERS: u32 = 0xFFFF_0006;

/// `TEE_ERROR_ITEM_NOT_FOUND`: the requested data item is not found.
pub const ERROR_ITEM_NOT_FOUND: u32 = 0xFFFF_0008;

/// `TEE_ERROR_NOT_SUPPORTED`: the operation is not supported.
pub const ERROR_NOT_SUPPORTED: u32 = 0xFFFF_000A;

/// `TEE_ERROR_SHORT_BUFFER`: the supplied buffer is too short for the output.
pub const ERROR_SHORT_BUFFER: u32 = 0xFFFF_0010;

/// `TEE_ERROR_CORRUPT_OBJECT`: object corruption.
pub const ERROR_CORRUPT_OBJECT: u32 = 0xF010_0001;

/// `TEE_DATA_FLAG_ACCESS_READ`: the object is opened with the read right.
pub const DATA_FLAG_ACCESS_READ: u32 = 0x0000_0001;

/// `TEE_DATA_FLAG_ACCESS_WRITE`: the object is opened with the write right.
pub const DATA_FLAG_ACCESS_WRITE: u32 = 0x0000_0002;

/// The data flags that `DataFlag` defines: the access rights read, write
/// and write-meta, the two share rights, and overwrite.
pub const DATA_FLAGS_DEFINED: u32 = 0x0000_0437;

/// The data flags that open an existing object: the access and share
/// rights, without overwrite (which only creation takes).
pub const OPEN_FLAGS_DEFINED: u32 = 0x0000_0037;

/// The size of a NIST P-256 key, in bits.
pub const P256_BITS: usize = 256;

/// `TEE_ECC_CURVE_NIST_P256`: the value of the curve attribute for P-256.
pub const ECC_CURVE_NIST_P256: u32 = 0x0000_0003;

/// Longest object identifier that secure storage accepts
/// (`TEE_OBJECT_ID_MAX_LEN`).
pub const OBJECT_ID_MAX_LEN: usize = 64;

#[verifier::external_type_specification]
#[verifier::external_body]
pub struct ExTransientObject(optee_utee::TransientObject);

#[verifier::external_type_specification]
#[verifier::external_body]
pub struct ExPersistentObject(optee_utee::PersistentObject);

#[verifier::external_type_specification]
#[verifier::external_body]
pub struct ExAsymmetric(optee_utee::Asymmetric);

/// One of the buffer attributes of an ECC key pair.
#[derive(Clone, Copy, Debug, PartialEq, Eq, Structural)]
pub enum KeyPart {
    /// The private scalar d.
    PrivateValue,
    /// The public point's X coordinate.
    PublicValueX,
    /// The public point's Y coordinate.
    PublicValueY,
}

/// A transient ECDSA key-pair object, with the largest key size it was
/// allocated for and whether it holds key material yet.
pub struct EcKey {
    obj: optee_utee::TransientObject,
    max_bits: Ghost<nat>,
    initialized: Ghost<bool>,
    private: Ghost<Option<Seq<u8>>>,
    parts: Ghost<Option<(Seq<u8>, Seq<u8>, Seq<u8>)>>,
}

impl EcKey {
    /// The largest key size, in bits, that the object was allocated for.
    pub closed spec fn max_bits(&self) -> nat {
        self.max_bits@
    }

    /// Whether the object holds key material.
    pub closed spec fn initialized(&self) -> bool {
        self.initialized@
    }

    /// The private scalar d that the object was populated with, when the
    /// library handed it in; `None` for a key generated inside the TEE.
    pub closed spec fn private_value(&self) -> Option<Seq<u8>> {
        self.private@
    }

    /// The attributes d, X and Y, as the TEE hands them out, of a key pair
    /// generated inside the TEE; `None` for any other object.
    pub closed spec fn generated_parts(&self) -> Option<(Seq<u8>, Seq<u8>, Seq<u8>)> {
        self.parts@
    }
}

/// The attribute that `part` names, out of d, X and Y.
pub open spec fn part_of(parts: (Seq<u8>, Seq<u8>, Seq<u8>), part: KeyPart) -> Seq<u8> {
    match part {
        KeyPart::PrivateValue => parts.0,
        KeyPart::PublicValueX => parts.1,
        KeyPart::PublicValueY => parts.2,
    }
}

/// The public point d·G of the NIST P-256 key pair whose private scalar is
/// `d`, as the coordinates (X, Y): what `TEE_GenerateKey` puts beside a
/// private value it generates. Point multiplication is a function of `d`
/// alone.
pub uninterp spec fn p256_public_point(d: nat) -> (nat, nat);

/// The order n of the NIST P-256 base point.
pub open spec fn p256_order() -> nat {
    0xFFFFFFFF00000000FFFFFFFFFFFFFFFFBCE6FAADA7179E84F3B9CAC2FC632551nat
}

/// A P-256 key pair's attributes d, X and Y as big-endian byte strings:
/// each fits 32 bytes, d is a valid private scalar (1 <= d < n), and
/// (X, Y) is the public point of d.
pub open spec fn p256_key_parts(parts: (Seq<u8>, Seq<u8>, Seq<u8>)) -> bool {
    &&& parts.0.len() <= 32
    &&& parts.1.len() <= 32
    &&& parts.2.len() <= 32
    &&& 1 <= be_value(parts.0) < p256_order()
    &&& p256_public_point(be_value(parts.0)) == (be_value(parts.1), be_value(parts.2))
}

/// One call into the TEE, with what was handed to it and what it answered.
pub enum TeeEvent {
    /// `TransientObject::allocate` of an ECDSA key-pair object of at most
    /// `max_bits` bits.
    AllocateKeyPair { max_bits: nat, result: Result<(), TeeError> },
    /// `TransientObject::generate_key` of a `bits`-bit key pair on `curve`.
    Generate { bits: nat, curve: u32, result: Result<(), TeeError> },
    /// `GenericObject::ref_attribute` of one key part: its bytes, or the
    /// error.
    Attribute { part: KeyPart, got: Result<Seq<u8>, TeeError> },
    /// `TransientObject::populate` with `curve` and the values d, X and Y.
    Populate { curve: u32, d: Seq<u8>, x: Seq<u8>, y: Seq<u8>, result: Result<(), TeeError> },
    /// `Asymmetric::allocate` of an ECDSA/SHA-256 signing operation for keys
    /// of at most `max_bits` bits.
    AllocateSign { max_bits: nat, result: Result<(), TeeError> },
    /// `Asymmetric::set_key`.
    SetKey { result: Result<(), TeeError> },
    /// `Asymmetric::sign_digest` of `digest`: the signature, or the error.
    SignDigest { digest: Seq<u8>, got: Result<Seq<u8>, TeeError> },
    /// `PersistentObject::open` of object `id` with `flags`.
    Open { id: Seq<u8>, flags: u32, result: Result<(), TeeError> },
    /// `PersistentObject::read` into a buffer of `capacity` bytes: the bytes
    /// read, or the error.
    Read { capacity: nat, got: Result<Seq<u8>, TeeError> },
    /// `PersistentObject::create` of object `id` with `flags` and initial
    /// data `data`.
    Create { id: Seq<u8>, flags: u32, data: Seq<u8>, result: Result<(), TeeError> },
}

/// The record of an attribute read that answered `r` into `buf`.
pub open spec fn attribute_event(part: KeyPart, r: Result<usize, TeeError>, buf: Seq<u8>) -> TeeEvent {
    TeeEvent::Attribute { part, got: read_bytes(r, buf) }
}

/// The bytes a call that answered `r` placed at the front of `buf`, or its
/// error.
pub open spec fn read_bytes<N: Integer>(r: Result<N, TeeError>, buf: Seq<u8>) -> Result<Seq<u8>, TeeError> {
    match r {
        Ok(n) => Ok(buf.subrange(0, n as int)),
        Err(e) => Err(e),
    }
}

/// Only whether a call succeeded, and its error.
pub open spec fn outcome<T>(r: Result<T, TeeError>) -> Result<(), TeeError> {
    match r {
        Ok(_) => Ok(()),
        Err(e) => Err(e),
    }
}

/// The TEE calls made so far, in order (a ghost record: nothing of it
/// exists at run time).
pub struct TeeLog {
    events: Ghost<Seq<TeeEvent>>,
}

impl TeeLog {
    /// The calls recorded, oldest first.
    pub closed spec fn events(&self) -> Seq<TeeEvent> {
        self.events@
    }

    /// A record of no calls.
    pub fn new() -> (r: TeeLog)
        ensures
            r.events() == Seq::<TeeEvent>::empty(),
    {
        TeeLog { events: Ghost(Seq::empty()) }
    }
}

/// The calls recorded in `after` past those of `before`.
pub open spec fn since(before: Seq<TeeEvent>, after: Seq<TeeEvent>) -> Seq<TeeEvent> {
    after.subrange(before.len() as int, after.len() as int)
}

/// `after` is `before` with more calls recorded behind it.
pub open spec fn extends(before: Seq<TeeEvent>, after: Seq<TeeEvent>) -> bool {
    &&& before.len() <= after.len()
    &&& after.subrange(0, before.len() as int) == before
}

/// Recording one more call extends a record, by that call.
pub proof fn lemma_extends_push(before: Seq<TeeEvent>, mid: Seq<TeeEvent>, e: TeeEvent)
    requires
        extends(before, mid),
    ensures
        extends(before, mid.push(e)),
        since(before, mid.push(e)) == since(before, mid).push(e),
{
    assert(mid.push(e).subrange(0, before.len() as int) =~= mid.subrange(0, before.len() as int));
    assert(since(before, mid.push(e)) =~= since(before, mid).push(e));
}

/// Every record extends itself, by no call.
pub proof fn lemma_extends_refl(s: Seq<TeeEvent>)
    ensures
        extends(s, s),
        since(s, s) == Seq::<TeeEvent>::empty(),
{
    assert(s.subrange(0, s.len() as int) =~= s);
    assert(since(s, s) =~= Seq::<TeeEvent>::empty());
}

/// Extending is transitive, and the calls add up.
pub proof fn lemma_extends_trans(a: Seq<TeeEvent>, b: Seq<TeeEvent>, c: Seq<TeeEvent>)
    requires
        extends(a, b),
        extends(b, c),
    ensures
        extends(a, c),
        since(a, c) == since(a, b) + since(b, c),
{
    assert(c.subrange(0, a.len() as int) =~= c.subrange(0, b.len() as int).subrange(0, a.len() as int));
    assert(since(a, c) =~= since(a, b) + since(b, c));
}

/// An asymmetric operation in ECDSA/SHA-256 sign mode, and whether a key
/// has been set into it.
pub struct SignOp {
    op: optee_utee::Asymmetric,
    max_bits: Ghost<nat>,
    keyed: Ghost<bool>,
    key: Ghost<Option<Seq<u8>>>,
}

impl SignOp {
    /// The largest key size, in bits, that the operation was allocated for.
    pub closed spec fn max_bits(&self) -> nat {
        self.max_bits@
    }

    /// Whether a key has been set into the operation.
    pub closed spec fn keyed(&self) -> bool {
        self.keyed@
    }

    /// The private scalar of the key set into the operation, when the
    /// library knows it.
    pub closed spec fn signing_key(&self) -> Option<Seq<u8>> {
        self.key@
    }
}

/// An open handle on a persistent object, and whether it carries the read
/// access right.
pub struct StoredObject {
    obj: optee_utee::PersistentObject,
    readable: Ghost<bool>,
}

impl StoredObject {
    /// Whether the handle carries the read access right.
    pub closed spec fn readable(&self) -> bool {
        self.readable@
    }
}

/// Whether `signature` (r || s, each a 32-byte big-endian integer) is an
/// ECDSA P-256 signature of `digest` under the key pair whose private
/// scalar is `private_value` (big-endian): what `Asymmetric::verify_digest`
/// answers, with `EcDsaSha256` and that key, for this digest and signature.
/// Verification is a function of these values alone.
pub uninterp spec fn ecdsa_p256_signature_valid(
    private_value: Seq<u8>,
    digest: Seq<u8>,
    signature: Seq<u8>,
) -> bool;

/// Whether a set of data flags grants the read access right.
pub open spec fn grants_read(flags: u32) -> bool {
    flags & DATA_FLAG_ACCESS_READ == DATA_FLAG_ACCESS_READ
}

/// Whether a set of data flags holds only flags that `DataFlag` defines.
pub open spec fn data_flags_defined(flags: u32) -> bool {
    flags & !DATA_FLAGS_DEFINED == 0
}

/// Whether a set of data flags holds only access and share rights, the
/// flags that opening an existing object takes.
pub open spec fn open_flags_defined(flags: u32) -> bool {
    flags & !OPEN_FLAGS_DEFINED == 0
}

/// Calls `TransientObject::allocate` for an `EcdsaKeypair` object of at most
/// `max_bits` bits (the size reaches the TEE as a `u32`). A newly allocated
/// transient object holds no key material. Whether allocation succeeds
/// depends on the TEE's memory and is not stated. The call is recorded in
/// `log`.
#[verifier::external_body]
pub fn ecdsa_keypair_allocate(max_bits: usize, log: &mut TeeLog) -> (r: Result<EcKey, TeeError>)
    requires
        max_bits <= u32::MAX,
    ensures
        r matches Ok(k) ==> !k.initialized() && k.max_bits() == max_bits && k.private_value() is None
            && k.generated_parts() is None,
        final(log).events() == old(log).events().push(
            TeeEvent::AllocateKeyPair { max_bits: max_bits as nat, result: outcome(r) },
        ),
{
    let r = match TransientObject::allocate(TransientObjectType::EcdsaKeypair, max_bits) {
        Ok(obj) => Ok(EcKey { obj, max_bits: Ghost(max_bits as nat), initialized: Ghost(false), private: Ghost(None), parts: Ghost(None) }),
        Err(e) => Err(TeeError { code: e.raw_code() }),
    };
    log.events = Ghost(log.events@.push(TeeEvent::AllocateKeyPair { max_bits: max_bits as nat, result: outcome(r) }));
    r
}

/// Calls `TransientObject::generate_key` for a 256-bit key with one value
/// attribute, `EccCurve` set to P-256, on an object allocated for 256 bits.
/// On success the object is initialized with a fresh key pair: its private
/// scalar is random and is not stated; it is a valid scalar, and the public
/// point is the one of that scalar. On failure the object stays
/// uninitialized. The call is recorded in `log`.
#[verifier::external_body]
pub fn ecdsa_keypair_generate(key: &mut EcKey, bits: usize, curve: u32, log: &mut TeeLog) -> (r: Result<(), TeeError>)
    requires
        !old(key).initialized(),
        bits == P256_BITS,
        old(key).max_bits() == P256_BITS,
        curve == ECC_CURVE_NIST_P256,
    ensures
        final(key).max_bits() == old(key).max_bits(),
        final(key).initialized() == (r is Ok),
        final(key).private_value() == old(key).private_value(),
        r is Ok ==> (final(key).generated_parts() matches Some(p) && p.0.len() <= 32 && p.1.len()
            <= 32 && p.2.len() <= 32 && 1 <= be_value(p.0) < p256_order() && p256_public_point(
            be_value(p.0),
        ) == (be_value(p.1), be_value(p.2))),
        r is Err ==> final(key).generated_parts() == old(key).generated_parts(),
        final(log).events() == old(log).events().push(
            TeeEvent::Generate { bits: bits as nat, curve, result: r },
        ),
{
    let attr = AttributeValue::from_value(AttributeId::EccCurve, curve, 0);
    let r = match key.obj.generate_key(bits, &[attr.into()]) {
        Ok(()) => Ok(()),
        Err(e) => Err(TeeError { code: e.raw_code() }),
    };
    key.initialized = Ghost(r is Ok);
    key.parts = Ghost(if r is Ok { Some(choose|p: (Seq<u8>, Seq<u8>, Seq<u8>)| p256_key_parts(p)) } else { key.parts@ });
    log.events = Ghost(log.events@.push(TeeEvent::Generate { bits: bits as nat, curve, result: r }));
    r
}

/// Calls `GenericObject::ref_attribute` for one key part into `buf`, and
/// returns the attribute's size in bytes, which fits the buffer (a buffer
/// too small is a `ShortBuffer` error). For a key pair generated in the TEE
/// the bytes written are that attribute; for another object they are not
/// stated. The buffer keeps its length. The call and the bytes it wrote
/// are recorded in `log`.
#[verifier::external_body]
pub fn ecdsa_keypair_ref_attribute(key: &EcKey, part: KeyPart, buf: &mut Vec<u8>, log: &mut TeeLog) -> (r: Result<
    usize,
    TeeError,
>)
    requires
        key.initialized(),
    ensures
        final(buf)@.len() == old(buf)@.len(),
        r matches Ok(n) ==> n <= old(buf)@.len() && match key.generated_parts() {
            Some(p) => final(buf)@.subrange(0, n as int) == part_of(p, part),
            None => true,
        },
        final(log).events() == old(log).events().push(attribute_event(part, r, final(buf)@)),
{
    let id = match part {
        KeyPart::PrivateValue => AttributeId::EccPrivateValue,
        KeyPart::PublicValueX => AttributeId::EccPublicValueX,
        KeyPart::PublicValueY => AttributeId::EccPublicValueY,
    };
    let r = match key.obj.ref_attribute(id, buf.as_mut_slice()) {
        Ok(n) => Ok(n),
        Err(e) => Err(TeeError { code: e.raw_code() }),
    };
    log.events = Ghost(log.events@.push(attribute_event(part, r, buf@)));
    r
}

/// Calls `TransientObject::populate` with the curve value attribute (P-256)
/// and the buffer attributes d, X and Y, on an object allocated for 256
/// bits. On success the object is initialized as a P-256 key pair with
/// private scalar d; on failure (an inconsistent attribute) it stays
/// uninitialized. Each value fits 32 bytes. The call is recorded in `log`.
#[verifier::external_body]
pub fn ecdsa_keypair_populate(
    key: &mut EcKey,
    curve: u32,
    d: &[u8],
    x: &[u8],
    y: &[u8],
    log: &mut TeeLog,
) -> (r: Result<(), TeeError>)
    requires
        !old(key).initialized(),
        old(key).max_bits() == P256_BITS,
        curve == ECC_CURVE_NIST_P256,
        d@.len() <= 32,
        x@.len() <= 32,
        y@.len() <= 32,
    ensures
        final(key).max_bits() == old(key).max_bits(),
        final(key).initialized() == (r is Ok),
        final(key).private_value() == if r is Ok {
            Some(d@)
        } else {
            old(key).private_value()
        },
        final(key).generated_parts() == old(key).generated_parts(),
        final(log).events() == old(log).events().push(
            TeeEvent::Populate { curve, d: d@, x: x@, y: y@, result: r },
        ),
{
    let r = match key.obj.populate(&[
        AttributeValue::from_value(AttributeId::EccCurve, curve, 0).into(),
        AttributeMemref::from_ref(AttributeId::EccPrivateValue, d).into(),
        AttributeMemref::from_ref(AttributeId::EccPublicValueX, x).into(),
        AttributeMemref::from_ref(AttributeId::EccPublicValueY, y).into(),
    ]) {
        Ok(()) => Ok(()),
        Err(e) => Err(TeeError { code: e.raw_code() }),
    };
    key.initialized = Ghost(r is Ok);
    key.private = Ghost(if r is Ok { Some(d@) } else { key.private@ });
    log.events = Ghost(log.events@.push(TeeEvent::Populate { curve, d: d@, x: x@, y: y@, result: r }));
    r
}

/// Calls `Asymmetric::allocate` for `EcDsaSha256` in `Sign` mode with keys
/// of at most `max_bits` bits (the size reaches the TEE as a `u32`). A new
/// operation holds no key. The call is recorded in `log`.
#[verifier::external_body]
pub fn ecdsa_sign_allocate(max_bits: usize, log: &mut TeeLog) -> (r: Result<SignOp, TeeError>)
    requires
        max_bits <= u32::MAX,
    ensures
        r matches Ok(op) ==> !op.keyed() && op.max_bits() == max_bits && op.signing_key() is None,
        final(log).events() == old(log).events().push(
            TeeEvent::AllocateSign { max_bits: max_bits as nat, result: outcome(r) },
        ),
{
    let mode = OperationMode::Sign;
    let r = match Asymmetric::allocate(AlgorithmId::EcDsaSha256, mode, max_bits) {
        Ok(op) => Ok(SignOp { op, max_bits: Ghost(max_bits as nat), keyed: Ghost(false), key: Ghost(None) }),
        Err(e) => Err(TeeError { code: e.raw_code() }),
    };
    log.events = Ghost(log.events@.push(TeeEvent::AllocateSign { max_bits: max_bits as nat, result: outcome(r) }));
    r
}

/// Calls `Asymmetric::set_key` with an initialized ECDSA key pair whose
/// size fits the operation. On success the operation holds a copy of the
/// key. The call is recorded in `log`.
#[verifier::external_body]
pub fn ecdsa_sign_set_key(op: &mut SignOp, key: &EcKey, log: &mut TeeLog) -> (r: Result<(), TeeError>)
    requires
        !old(op).keyed(),
        key.initialized(),
        key.max_bits() <= old(op).max_bits(),
    ensures
        final(op).max_bits() == old(op).max_bits(),
        final(op).keyed() == (r is Ok),
        r is Ok ==> final(op).signing_key() == key.private_value(),
        r is Err ==> final(op).signing_key() == old(op).signing_key(),
        final(log).events() == old(log).events().push(TeeEvent::SetKey { result: r }),
{
    let r = match op.op.set_key(&key.obj) {
        Ok(()) => Ok(()),
        Err(e) => Err(TeeError { code: e.raw_code() }),
    };
    op.keyed = Ghost(r is Ok);
    op.key = Ghost(if r is Ok { key.private_value() } else { op.key@ });
    log.events = Ghost(log.events@.push(TeeEvent::SetKey { result: r }));
    r
}

/// Calls `Asymmetric::sign_digest` with no extra parameters, and returns the
/// size of the signature written to the front of `sig`; a buffer too small
/// for it is a `ShortBuffer` error, so the size fits the buffer. ECDSA
/// signing is randomized, so the bytes themselves are not stated; what
/// holds of every outcome is that they are a signature of the digest under
/// the operation's key, which the library populated as a P-256 key pair
/// with a known private scalar. The digest must be exactly one SHA-256
/// value. The call and the signature are recorded in `log`.
#[verifier::external_body]
pub fn ecdsa_sign_digest(op: &SignOp, digest: &[u8], sig: &mut Vec<u8>, log: &mut TeeLog) -> (r: Result<
    usize,
    TeeError,
>)
    requires
        op.keyed(),
        digest@.len() == 32,
    ensures
        final(sig)@.len() == old(sig)@.len(),
        r matches Ok(n) ==> n <= old(sig)@.len() && (op.signing_key() matches Some(d)
            ==> ecdsa_p256_signature_valid(d, digest@, final(sig)@.subrange(0, n as int))),
        final(log).events() == old(log).events().push(
            TeeEvent::SignDigest { digest: digest@, got: read_bytes(r, final(sig)@) },
        ),
{
    let r = match op.op.sign_digest(&[], digest, sig.as_mut_slice()) {
        Ok(n) => Ok(n),
        Err(e) => Err(TeeError { code: e.raw_code() }),
    };
    log.events = Ghost(log.events@.push(TeeEvent::SignDigest { digest: digest@, got: read_bytes(r, sig@) }));
    r
}

/// Calls `PersistentObject::open` on the TA's private storage, with access
/// and share rights only. Whether the object exists, and what it holds, is
/// the state of the secure storage and is not stated. A handle opened with
/// the read flag may be read. The call is recorded in `log`.
#[verifier::external_body]
pub fn private_object_open(id: &[u8], flags: u32, log: &mut TeeLog) -> (r: Result<StoredObject, TeeError>)
    requires
        id@.len() <= OBJECT_ID_MAX_LEN,
        open_flags_defined(flags),
    ensures
        r matches Ok(o) ==> o.readable() == grants_read(flags),
        final(log).events() == old(log).events().push(
            TeeEvent::Open { id: id@, flags, result: outcome(r) },
        ),
{
    let flag = DataFlag::from_bits_retain(flags);
    let r = match PersistentObject::open(ObjectStorageConstants::Private, id, flag) {
        Ok(obj) => Ok(StoredObject { obj, readable: Ghost(grants_read(flags)) }),
        Err(e) => Err(TeeError { code: e.raw_code() }),
    };
    log.events = Ghost(log.events@.push(TeeEvent::Open { id: id@, flags, result: outcome(r) }));
    r
}

/// Calls `PersistentObject::create` in the TA's private storage, with no
/// attributes and `data` as the initial data stream. Creation without the
/// overwrite flag fails if the object already exists. The call is recorded
/// in `log`.
#[verifier::external_body]
pub fn private_object_create(id: &[u8], flags: u32, data: &[u8], log: &mut TeeLog) -> (r: Result<
    StoredObject,
    TeeError,
>)
    requires
        id@.len() <= OBJECT_ID_MAX_LEN,
        data_flags_defined(flags),
    ensures
        r matches Ok(o) ==> o.readable() == grants_read(flags),
        final(log).events() == old(log).events().push(
            TeeEvent::Create { id: id@, flags, data: data@, result: outcome(r) },
        ),
{
    let flag = DataFlag::from_bits_retain(flags);
    let r = match PersistentObject::create(ObjectStorageConstants::Private, id, flag, None, data) {
        Ok(obj) => Ok(StoredObject { obj, readable: Ghost(grants_read(flags)) }),
        Err(e) => Err(TeeError { code: e.raw_code() }),
    };
    log.events = Ghost(log.events@.push(TeeEvent::Create { id: id@, flags, data: data@, result: outcome(r) }));
    r
}

/// Calls `PersistentObject::read` into `buf` and returns the number of bytes
/// read, which fits the buffer. What the bytes are is the state of the
/// secure storage and is not stated; the call, the buffer's size and the
/// bytes it placed at the front of the buffer are recorded in `log`. The
/// buffer keeps its length.
#[verifier::external_body]
pub fn private_object_read(obj: &mut StoredObject, buf: &mut Vec<u8>, log: &mut TeeLog) -> (r: Result<
    u32,
    TeeError,
>)
    requires
        old(obj).readable(),
    ensures
        final(obj).readable() == old(obj).readable(),
        final(buf)@.len() == old(buf)@.len(),
        r matches Ok(n) ==> n <= old(buf)@.len(),
        final(log).events() == old(log).events().push(
            TeeEvent::Read { capacity: old(buf)@.len(), got: read_bytes(r, final(buf)@) },
        ),
{
    let cap = Ghost(buf@.len());
    let r = match obj.obj.read(buf.as_mut_slice()) {
        Ok(n) => Ok(n),
        Err(e) => Err(TeeError { code: e.raw_code() }),
    };
    log.events = Ghost(log.events@.push(TeeEvent::Read { capacity: cap@, got: read_bytes(r, buf@) }));
    r
}

} // verus!
