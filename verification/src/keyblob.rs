//! The persistent key record: a fixed 104-byte blob with a little-endian
//! header and three 32-byte big-endian fields.
//!
//! ```text
//! magic (4) | format (4) | private d (32) | public X (32) | public Y (32)
//! ```
//!
//! Every scalar or coordinate field is stored left-padded to 32 bytes: the
//! TEE strips leading zero bytes when it hands an attribute out, so a value
//! can legitimately come back short, and writing it flush-left would
//! corrupt the key.
use crate::tee::{TeeError, ERROR_CORRUPT_OBJECT};
use vstd::prelude::*;

verus! {

/// Offset of the magic number (u32, little-endian).
pub const O_MAGIC: usize = 0;

/// Offset of the format version (u32, little-endian).
pub const O_FORMAT: usize = 4;

/// Offset of the private scalar d.
pub const O_D: usize = 8;

/// Offset of the public X coordinate.
pub const O_X: usize = 40;

/// Offset of the public Y coordinate.
pub const O_Y: usize = 72;

/// Size of the whole record.
pub const BLOB_SIZE: usize = 104;

/// "SIGK".
pub const MAGIC: u32 = 0x5349_474B;

/// The only record format this library writes or accepts.
pub const FORMAT: u32 = 1;

/// Width of each scalar or coordinate field.
pub const FIELD: usize = 32;

/// Size of the key pair, in bits.
pub const KEY_BITS: usize = 256;

/// The little-endian u32 stored at `off`.
pub open spec fn le_u32(b: Seq<u8>, off: int) -> int {
    b[off] + 256 * b[off + 1] + 65536 * b[off + 2] + 16777216 * b[off + 3]
}

/// The four little-endian bytes of `v`.
pub open spec fn le_bytes(v: u32) -> Seq<u8> {
    seq![
        (v % 256) as u8,
        ((v / 256) % 256) as u8,
        ((v / 65536) % 256) as u8,
        (v / 16777216) as u8,
    ]
}

/// `n` zero bytes.
pub open spec fn zeros(n: nat) -> Seq<u8> {
    Seq::new(n, |i: int| 0u8)
}

/// A record whose header names this library's format.
pub open spec fn blob_header_ok(b: Seq<u8>) -> bool {
    &&& b.len() == BLOB_SIZE
    &&& le_u32(b, O_MAGIC as int) == MAGIC
    &&& le_u32(b, O_FORMAT as int) == FORMAT
}

/// Whether a read of `n` bytes into `b` yields a record that the library
/// accepts: exactly the record's size, with the right magic and format in
/// its first `BLOB_SIZE` bytes.
pub open spec fn stored_blob_accepted(n: u32, b: Seq<u8>) -> bool {
    n == BLOB_SIZE && b.len() >= BLOB_SIZE && blob_header_ok(b.subrange(0, BLOB_SIZE as int))
}

/// The public key X || Y that a record holds.
pub open spec fn public_key(b: Seq<u8>) -> Seq<u8> {
    b.subrange(O_X as int, O_X + FIELD) + b.subrange(O_Y as int, O_Y + FIELD)
}

/// A value of at most 32 bytes, left-padded with zeros to 32 bytes.
pub open spec fn left_pad(v: Seq<u8>) -> Seq<u8> {
    zeros((FIELD - v.len()) as nat) + v
}

/// The unsigned integer that a big-endian byte string denotes.
pub open spec fn be_value(s: Seq<u8>) -> nat
    decreases s.len(),
{
    if s.len() == 0 {
        0
    } else {
        be_value(s.drop_last()) * 256 + s.last() as nat
    }
}

/// Reads the little-endian u32 at `off`.
pub fn rd_u32(b: &[u8], off: usize) -> (r: u32)
    requires
        off + 4 <= b@.len(),
    ensures
        r == le_u32(b@, off as int),
{
    let b0 = b[off] as u32;
    let b1 = b[off + 1] as u32;
    let b2 = b[off + 2] as u32;
    let b3 = b[off + 3] as u32;
    b0 + b1 * 256 + b2 * 65536 + b3 * 16777216
}

/// Writes `v` as four little-endian bytes at `off`; nothing else changes.
pub fn wr_u32(b: &mut [u8], off: usize, v: u32)
    requires
        off + 4 <= old(b)@.len(),
    ensures
        final(b)@ == old(b)@.subrange(0, off as int) + le_bytes(v) + old(b)@.subrange(
            off + 4,
            old(b)@.len() as int,
        ),
{
    b[off] = (v % 256) as u8;
    b[off + 1] = ((v / 256) % 256) as u8;
    b[off + 2] = ((v / 65536) % 256) as u8;
    b[off + 3] = (v / 16777216) as u8;
    assert(b@ =~= old(b)@.subrange(0, off as int) + le_bytes(v) + old(b)@.subrange(
        off + 4,
        old(b)@.len() as int,
    ));
}

/// Calls `std::hint::black_box` on the buffer, a hint to the compiler to
/// treat its current contents as used. It changes nothing.
#[verifier::external_body]
fn keep_stores(buf: &[u8]) {
    std::hint::black_box(buf);
}

/// Overwrites every byte of `buf` with zero: a best-effort scrub of key
/// material before a buffer is released. The stores are followed by
/// `black_box`, a hint against removing them as dead, not a guarantee.
pub fn zeroize(buf: &mut [u8])
    ensures
        final(buf)@ == zeros(old(buf)@.len()),
{
    let n = buf.len();
    for i in 0..n
        invariant
            n == buf@.len(),
            n == old(buf)@.len(),
            forall|j: int| 0 <= j < i ==> buf@[j] == 0u8,
    {
        buf[i] = 0;
    }
    keep_stores(buf);
    assert(buf@ =~= zeros(old(buf)@.len()));
}

/// Writes the `n` significant bytes of an attribute read (`tmp[..n]`)
/// left-padded into the 32-byte field that starts at `start`: the field's
/// first `32 - n` bytes become zero, whatever they held, and everything
/// outside the field is left as it was.
pub fn place_padded(out: &mut [u8], start: usize, tmp: &[u8], n: usize)
    requires
        n <= FIELD,
        n <= tmp@.len(),
        start + FIELD <= old(out)@.len(),
    ensures
        final(out)@ == old(out)@.subrange(0, start as int) + left_pad(tmp@.subrange(0, n as int))
            + old(out)@.subrange(start + FIELD, old(out)@.len() as int),
{
    let len = out.len();
    let base = start + FIELD - n;
    for i in 0..FIELD
        invariant
            len == out@.len(),
            len == old(out)@.len(),
            base == start + FIELD - n,
            n <= FIELD,
            n <= tmp@.len(),
            start + FIELD <= len,
            forall|j: int| 0 <= j < start ==> out@[j] == old(out)@[j],
            forall|j: int| start <= j < start + i ==> out@[j] == (if j < base {
                0u8
            } else {
                tmp@[j - base]
            }),
            forall|j: int| start + FIELD <= j < len ==> out@[j] == old(out)@[j],
    {
        if start + i < base {
            out[start + i] = 0;
        } else {
            out[start + i] = tmp[start + i - base];
        }
    }
    assert(out@ =~= old(out)@.subrange(0, start as int) + left_pad(tmp@.subrange(0, n as int))
        + old(out)@.subrange(start + FIELD, old(out)@.len() as int));
}

/// Checks a record read back from storage into a buffer one byte longer
/// than a record, so that an object of any other size shows. It is
/// accepted only if exactly `BLOB_SIZE` bytes were read and its magic and
/// format are this library's; the buffer is then cut to the record.
/// Anything else is a present but damaged or foreign object: the buffer is
/// scrubbed and `CorruptObject` is returned, never a fresh key.
pub fn validate_stored_blob(n: u32, blob: &mut Vec<u8>) -> (r: Result<(), TeeError>)
    requires
        old(blob)@.len() == BLOB_SIZE + 1,
    ensures
        r is Ok <==> stored_blob_accepted(n, old(blob)@),
        r is Ok ==> final(blob)@ == old(blob)@.subrange(0, BLOB_SIZE as int),
        r is Err ==> r == Err::<(), TeeError>(TeeError { code: ERROR_CORRUPT_OBJECT })
            && final(blob)@ == zeros((BLOB_SIZE + 1) as nat),
{
    if n as usize != BLOB_SIZE || rd_u32(blob.as_slice(), O_MAGIC) != MAGIC || rd_u32(
        blob.as_slice(),
        O_FORMAT,
    ) != FORMAT {
        zeroize(blob.as_mut_slice());
        return Err(TeeError { code: ERROR_CORRUPT_OBJECT });
    }
    blob.truncate(BLOB_SIZE);
    Ok(())
}

/// Writes the public key X || Y held in `blob` to the front of `out`; the
/// rest of `out` is left as it was.
pub fn write_public_key(blob: &[u8], out: &mut [u8])
    requires
        blob@.len() == BLOB_SIZE,
        old(out)@.len() >= 2 * FIELD,
    ensures
        final(out)@ == public_key(blob@) + old(out)@.subrange(2 * FIELD, old(out)@.len() as int),
{
    let n = out.len();
    for i in 0..FIELD
        invariant
            n == out@.len(),
            n == old(out)@.len(),
            n >= 2 * FIELD,
            blob@.len() == BLOB_SIZE,
            forall|j: int| 0 <= j < i ==> out@[j] == blob@[O_X + j],
            forall|j: int| i <= j < n ==> out@[j] == old(out)@[j],
    {
        out[i] = blob[O_X + i];
    }
    for i in 0..FIELD
        invariant
            n == out@.len(),
            n == old(out)@.len(),
            n >= 2 * FIELD,
            blob@.len() == BLOB_SIZE,
            forall|j: int| 0 <= j < FIELD ==> out@[j] == blob@[O_X + j],
            forall|j: int| FIELD <= j < FIELD + i ==> out@[j] == blob@[O_Y + j - FIELD],
            forall|j: int| FIELD + i <= j < n ==> out@[j] == old(out)@[j],
    {
        out[FIELD + i] = blob[O_Y + i];
    }
    assert(out@ =~= public_key(blob@) + old(out)@.subrange(2 * FIELD, old(out)@.len() as int));
}

/// The public key that a record yields does not depend on its private
/// field: no answer built from `public_key` carries private key material.
pub proof fn lemma_public_key_excludes_private_scalar(a: Seq<u8>, b: Seq<u8>)
    requires
        a.len() == BLOB_SIZE,
        b.len() == BLOB_SIZE,
        a.subrange(O_X as int, BLOB_SIZE as int) == b.subrange(O_X as int, BLOB_SIZE as int),
    ensures
        public_key(a) == public_key(b),
{
    assert(a.subrange(O_X as int, O_X + FIELD) =~= a.subrange(O_X as int, BLOB_SIZE as int).subrange(0, FIELD as int));
    assert(b.subrange(O_X as int, O_X + FIELD) =~= b.subrange(O_X as int, BLOB_SIZE as int).subrange(0, FIELD as int));
    assert(a.subrange(O_Y as int, O_Y + FIELD) =~= a.subrange(O_X as int, BLOB_SIZE as int).subrange(FIELD as int, 2 * FIELD));
    assert(b.subrange(O_Y as int, O_Y + FIELD) =~= b.subrange(O_X as int, BLOB_SIZE as int).subrange(FIELD as int, 2 * FIELD));
}

/// Reading back a little-endian u32 gives the value that was written.
pub proof fn lemma_le_u32_roundtrip(v: u32)
    ensures
        le_u32(le_bytes(v), 0) == v,
{
    let b = le_bytes(v);
    assert(b[0] == v % 256);
    assert(b[1] == (v / 256) % 256);
    assert(b[2] == (v / 65536) % 256);
    assert(b[3] == v / 16777216);
    assert(v == v % 256 + 256 * ((v / 256) % 256) + 65536 * ((v / 65536) % 256) + 16777216 * (v
        / 16777216)) by (nonlinear_arith);
}

/// Leading zero bytes do not change a big-endian value.
pub proof fn lemma_be_value_leading_zeros(k: nat, v: Seq<u8>)
    ensures
        be_value(zeros(k) + v) == be_value(v),
    decreases v.len(), k,
{
    if v.len() == 0 {
        assert(zeros(k) + v =~= zeros(k));
        if k > 0 {
            assert(zeros(k).drop_last() =~= zeros((k - 1) as nat));
            lemma_be_value_leading_zeros((k - 1) as nat, v);
            assert(zeros((k - 1) as nat) + v =~= zeros((k - 1) as nat));
        }
    } else {
        assert((zeros(k) + v).drop_last() =~= zeros(k) + v.drop_last());
        lemma_be_value_leading_zeros(k, v.drop_last());
    }
}

/// A field value that the TEE handed out without its leading zero bytes
/// denotes, once left-padded to the field's width, the same integer: the
/// padding restores the key or signature component instead of corrupting
/// it.
pub proof fn lemma_left_pad_preserves_value(v: Seq<u8>)
    requires
        v.len() <= FIELD,
    ensures
        left_pad(v).len() == FIELD,
        be_value(left_pad(v)) == be_value(v),
{
    lemma_be_value_leading_zeros((FIELD - v.len()) as nat, v);
}

} // verus!
