//! The Trusted Application's command handling: the exact parameter
//! contract of each command, the checks made before the key is touched, and
//! the handlers that answer GetPubkey and Sign.
//!
//! A request is seen as the TA sees it: the four raw GlobalPlatform
//! parameter types and the two memory references the protocol uses. A
//! memory reference carries its buffer and the size that the TA reports
//! back to the client (the buffer's length until the TA updates it).
use crate::keyblob::{public_key, write_public_key, zeroize, FIELD, O_D};
use crate::keystore::{load_or_create_blob, load_run, loaded_record, sign_run, sign_with_blob};
use crate::proto::{command_of, Command, DIGEST_LEN, PUBKEY_LEN, SIGNATURE_LEN};
use crate::tee::{
    ecdsa_p256_signature_valid, ECC_CURVE_NIST_P256, extends, since, TeeError, TeeEvent, TeeLog,
    ERROR_BAD_PARAMETERS, ERROR_NOT_SUPPORTED, ERROR_SHORT_BUFFER,
};
use vstd::prelude::*;

verus! {

/// `TEE_PARAM_TYPE_NONE`.
pub const PARAM_NONE: u32 = 0;

/// `TEE_PARAM_TYPE_VALUE_INPUT`.
pub const PARAM_VALUE_INPUT: u32 = 1;

/// `TEE_PARAM_TYPE_VALUE_OUTPUT`.
pub const PARAM_VALUE_OUTPUT: u32 = 2;

/// `TEE_PARAM_TYPE_VALUE_INOUT`.
pub const PARAM_VALUE_INOUT: u32 = 3;

/// `TEE_PARAM_TYPE_MEMREF_INPUT`.
pub const PARAM_MEMREF_INPUT: u32 = 5;

/// `TEE_PARAM_TYPE_MEMREF_OUTPUT`.
pub const PARAM_MEMREF_OUTPUT: u32 = 6;

/// `TEE_PARAM_TYPE_MEMREF_INOUT`.
pub const PARAM_MEMREF_INOUT: u32 = 7;

/// A memory reference parameter: the shared buffer and the size reported
/// back to the client.
pub struct Memref {
    pub buffer: Vec<u8>,
    pub size: usize,
}

/// The parameters of one invocation as the TA receives them.
pub struct TaParams {
    /// The raw parameter type of each of the four slots.
    pub types: [u32; 4],
    /// Slot 0, when it is a memory reference.
    pub p0: Memref,
    /// Slot 1, when it is a memory reference.
    pub p1: Memref,
}

/// GetPubkey: one output memref, every other slot unused.
pub open spec fn get_pubkey_layout() -> Seq<u32> {
    seq![PARAM_MEMREF_OUTPUT, PARAM_NONE, PARAM_NONE, PARAM_NONE]
}

/// Sign: an input memref (the digest) and an output memref (the signature).
pub open spec fn sign_layout() -> Seq<u32> {
    seq![PARAM_MEMREF_INPUT, PARAM_MEMREF_OUTPUT, PARAM_NONE, PARAM_NONE]
}

/// Sessions carry no parameters.
pub open spec fn session_layout() -> Seq<u32> {
    seq![PARAM_NONE, PARAM_NONE, PARAM_NONE, PARAM_NONE]
}

/// The error that the TA answers an invocation with before it touches the
/// key, if any: an unknown command is not supported; a command with any
/// other parameter layout than its own, or a Sign whose input is not
/// exactly one digest, has bad parameters; an output buffer too small for
/// the answer is a short buffer.
pub open spec fn rejection(cmd_id: u32, p: TaParams) -> Option<TeeError> {
    match command_of(cmd_id) {
        Command::Unknown => Some(TeeError { code: ERROR_NOT_SUPPORTED }),
        Command::GetPubkey => {
            if p.types@ != get_pubkey_layout() {
                Some(TeeError { code: ERROR_BAD_PARAMETERS })
            } else if p.p0.buffer@.len() < PUBKEY_LEN {
                Some(TeeError { code: ERROR_SHORT_BUFFER })
            } else {
                None
            }
        },
        Command::Sign => {
            if p.types@ != sign_layout() {
                Some(TeeError { code: ERROR_BAD_PARAMETERS })
            } else if p.p0.buffer@.len() != DIGEST_LEN {
                Some(TeeError { code: ERROR_BAD_PARAMETERS })
            } else if p.p1.buffer@.len() < SIGNATURE_LEN {
                Some(TeeError { code: ERROR_SHORT_BUFFER })
            } else {
                None
            }
        },
    }
}

/// The size that the TA reports for slot 0 after its checks: on a short
/// GetPubkey buffer, the size the client must supply.
pub open spec fn checked_p0_size(cmd_id: u32, p: TaParams) -> usize {
    if command_of(cmd_id) == Command::GetPubkey && p.types@ == get_pubkey_layout()
        && p.p0.buffer@.len() < PUBKEY_LEN {
        PUBKEY_LEN
    } else {
        p.p0.size
    }
}

/// The size that the TA reports for slot 1 after its checks: on a short
/// Sign output buffer, the size the client must supply.
pub open spec fn checked_p1_size(cmd_id: u32, p: TaParams) -> usize {
    if command_of(cmd_id) == Command::Sign && p.types@ == sign_layout() && p.p0.buffer@.len()
        == DIGEST_LEN && p.p1.buffer@.len() < SIGNATURE_LEN {
        SIGNATURE_LEN
    } else {
        p.p1.size
    }
}

/// The parameters after the checks: only the reported sizes may change.
pub open spec fn checked_params(cmd_id: u32, before: TaParams, after: TaParams) -> bool {
    &&& after.types@ == before.types@
    &&& after.p0.buffer@ == before.p0.buffer@
    &&& after.p1.buffer@ == before.p1.buffer@
    &&& after.p0.size == checked_p0_size(cmd_id, before)
    &&& after.p1.size == checked_p1_size(cmd_id, before)
}

/// A Sign request with the Sign layout (input memref, output memref, two
/// unused slots), exactly 32 input bytes and an output buffer of at least
/// 64 bytes is not refused by the checks, however much larger the output
/// buffer is.
pub proof fn lemma_well_formed_sign_accepted(p: TaParams)
    requires
        p.types@ == seq![PARAM_MEMREF_INPUT, PARAM_MEMREF_OUTPUT, PARAM_NONE, PARAM_NONE],
        p.p0.buffer@.len() == 32,
        p.p1.buffer@.len() >= 64,
    ensures
        rejection(1, p) is None,
        checked_p0_size(1, p) == p.p0.size,
        checked_p1_size(1, p) == p.p1.size,
{
}

/// A Sign request with the Sign layout and 32 input bytes whose output
/// buffer is shorter than 64 bytes is refused with `ShortBuffer`, and the
/// size reported back is the 64 bytes a signature needs.
pub proof fn lemma_short_sign_output_refused(p: TaParams)
    requires
        p.types@ == seq![PARAM_MEMREF_INPUT, PARAM_MEMREF_OUTPUT, PARAM_NONE, PARAM_NONE],
        p.p0.buffer@.len() == 32,
        p.p1.buffer@.len() < 64,
    ensures
        rejection(1, p) == Some(TeeError { code: ERROR_SHORT_BUFFER }),
        checked_p1_size(1, p) == 64,
{
}

/// A GetPubkey request with one output memref of at least 64 bytes and the
/// other slots unused is not refused by the checks.
pub proof fn lemma_well_formed_get_pubkey_accepted(p: TaParams)
    requires
        p.types@ == seq![PARAM_MEMREF_OUTPUT, PARAM_NONE, PARAM_NONE, PARAM_NONE],
        p.p0.buffer@.len() >= 64,
    ensures
        rejection(0, p) is None,
        checked_p0_size(0, p) == p.p0.size,
{
}

/// A Sign request whose input is not exactly 32 bytes is refused with
/// `BadParameters`, whatever its layout; and any request of a known
/// command with another layout than its own is refused with
/// `BadParameters`.
pub proof fn lemma_malformed_requests_refused(p: TaParams, cmd_id: u32)
    requires
        cmd_id == 0 || cmd_id == 1,
    ensures
        cmd_id == 1 && p.p0.buffer@.len() != 32 ==> rejection(cmd_id, p) == Some(
            TeeError { code: ERROR_BAD_PARAMETERS },
        ),
        cmd_id == 1 && p.types@ != seq![PARAM_MEMREF_INPUT, PARAM_MEMREF_OUTPUT, PARAM_NONE, PARAM_NONE]
            ==> rejection(cmd_id, p) == Some(TeeError { code: ERROR_BAD_PARAMETERS }),
        cmd_id == 0 && p.types@ != seq![PARAM_MEMREF_OUTPUT, PARAM_NONE, PARAM_NONE, PARAM_NONE]
            ==> rejection(cmd_id, p) == Some(TeeError { code: ERROR_BAD_PARAMETERS }),
{
    assert(sign_layout() =~= seq![PARAM_MEMREF_INPUT, PARAM_MEMREF_OUTPUT, PARAM_NONE, PARAM_NONE]);
    assert(get_pubkey_layout() =~= seq![PARAM_MEMREF_OUTPUT, PARAM_NONE, PARAM_NONE, PARAM_NONE]);
}

/// Requires the exact parameter layout `want`. Any other type in any slot,
/// including a memref of the wrong direction or a filled unused slot, is
/// refused with `BadParameters`.
pub fn expect_layout(params: &TaParams, want: [u32; 4]) -> (r: Result<(), TeeError>)
    ensures
        r is Ok <==> params.types@ == want@,
        r is Err ==> r == Err::<(), TeeError>(TeeError { code: ERROR_BAD_PARAMETERS }),
{
    for i in 0..4
        invariant
            params.types@.len() == 4,
            want@.len() == 4,
            forall|j: int| 0 <= j < i ==> params.types@[j] == want@[j],
    {
        if params.types[i] != want[i] {
            return Err(TeeError { code: ERROR_BAD_PARAMETERS });
        }
    }
    assert(params.types@ =~= want@);
    Ok(())
}

/// The checks of GetPubkey that come before the key is loaded.
pub fn check_get_pubkey(params: &mut TaParams) -> (r: Result<(), TeeError>)
    ensures
        old(params).types@ == seq![PARAM_MEMREF_OUTPUT, PARAM_NONE, PARAM_NONE, PARAM_NONE]
            && old(params).p0.buffer@.len() >= 64 ==> r is Ok && final(params).p0.size == old(
            params,
        ).p0.size,
        rejection(0, *old(params)) matches Some(e) ==> r == Err::<(), TeeError>(e),
        rejection(0, *old(params)) is None ==> r is Ok,
        checked_params(0, *old(params), *final(params)),
{
    expect_layout(params, [PARAM_MEMREF_OUTPUT, PARAM_NONE, PARAM_NONE, PARAM_NONE])?;
    assert(params.types@ == get_pubkey_layout());
    if params.p0.buffer.len() < PUBKEY_LEN {
        params.p0.size = PUBKEY_LEN;
        return Err(TeeError { code: ERROR_SHORT_BUFFER });
    }
    Ok(())
}

/// The checks of Sign that come before the key is loaded. On success the
/// digest is returned: exactly the 32 input bytes, since the TA does not
/// hash and accepts nothing it could mistake for a message.
pub fn check_sign(params: &mut TaParams) -> (r: Result<Vec<u8>, TeeError>)
    ensures
        rejection(1, *old(params)) matches Some(e) ==> r == Err::<Vec<u8>, TeeError>(e),
        rejection(1, *old(params)) is None ==> r is Ok,
        r matches Ok(d) ==> d@ == old(params).p0.buffer@,
        checked_params(1, *old(params), *final(params)),
        old(params).types@ == seq![PARAM_MEMREF_INPUT, PARAM_MEMREF_OUTPUT, PARAM_NONE, PARAM_NONE]
            && old(params).p0.buffer@.len() == 32 && old(params).p1.buffer@.len() >= 64 ==> (r matches Ok(
            d,
        ) && d@ == old(params).p0.buffer@ && final(params).p1.size == old(params).p1.size),
{
    expect_layout(params, [PARAM_MEMREF_INPUT, PARAM_MEMREF_OUTPUT, PARAM_NONE, PARAM_NONE])?;
    assert(params.types@ == sign_layout());
    if params.p0.buffer.len() != DIGEST_LEN {
        return Err(TeeError { code: ERROR_BAD_PARAMETERS });
    }
    let digest = copy_bytes(params.p0.buffer.as_slice());
    if params.p1.buffer.len() < SIGNATURE_LEN {
        params.p1.size = SIGNATURE_LEN;
        return Err(TeeError { code: ERROR_SHORT_BUFFER });
    }
    Ok(digest)
}

/// A fresh vector holding the same bytes.
pub fn copy_bytes(src: &[u8]) -> (r: Vec<u8>)
    ensures
        r@ == src@,
{
    let mut r: Vec<u8> = Vec::new();
    for i in 0..src.len()
        invariant
            r@ == src@.subrange(0, i as int),
    {
        r.push(src[i]);
        assert(r@ =~= src@.subrange(0, i + 1));
    }
    assert(r@ =~= src@);
    r
}

/// What a command is accepted as: the TA's checks decide which command runs
/// and, for Sign, which digest is signed.
pub enum Accepted {
    GetPubkey,
    Sign(Vec<u8>),
}

/// All checks that the TA makes on an invocation before it touches the key,
/// in the order it makes them.
pub fn check_request(cmd_id: u32, params: &mut TaParams) -> (r: Result<Accepted, TeeError>)
    ensures
        rejection(cmd_id, *old(params)) matches Some(e) ==> r == Err::<Accepted, TeeError>(
            e,
        ),
        rejection(cmd_id, *old(params)) is None ==> r is Ok,
        r matches Ok(Accepted::GetPubkey) ==> command_of(cmd_id) == Command::GetPubkey,
        r matches Ok(Accepted::Sign(d)) ==> command_of(cmd_id) == Command::Sign && d@ == old(
            params,
        ).p0.buffer@,
        checked_params(cmd_id, *old(params), *final(params)),
{
    match Command::from(cmd_id) {
        Command::GetPubkey => {
            check_get_pubkey(params)?;
            Ok(Accepted::GetPubkey)
        },
        Command::Sign => {
            let d = check_sign(params)?;
            Ok(Accepted::Sign(d))
        },
        Command::Unknown => Err(TeeError { code: ERROR_NOT_SUPPORTED }),
    }
}

/// What a command that loads the key did with the TEE, from the calls
/// recorded before (`pre`) and after (`post`): a rejected request made no
/// TEE call; otherwise the calls made are exactly those of loading the key
/// record (`load_run`), whose result was `loaded`.
pub open spec fn key_loaded(
    rejected: bool,
    pre: Seq<TeeEvent>,
    post: Seq<TeeEvent>,
    loaded: Result<Seq<u8>, TeeError>,
) -> bool {
    if rejected {
        post == pre
    } else {
        extends(pre, post) && load_run(since(pre, post), loaded)
    }
}

/// What GetPubkey leaves behind, whatever the key storage answered: a
/// rejected request is answered with its rejection, touches no storage,
/// and only the reported size may change; otherwise the key record is
/// loaded and its outcome is the answer. Slot 1 and the types are never
/// touched, a failure leaves slot 0 as it was, and success writes the
/// public key X || Y of the loaded record to the front of slot 0 and
/// reports size 64.
pub open spec fn get_pubkey_answer(
    before: TaParams,
    after: TaParams,
    pre: Seq<TeeEvent>,
    post: Seq<TeeEvent>,
    r: Result<(), TeeError>,
) -> bool {
    &&& rejection(0, before) matches Some(e) ==> r == Err::<(), TeeError>(e) && checked_params(
        0,
        before,
        after,
    )
    &&& key_loaded(
        rejection(0, before) is Some,
        pre,
        post,
        match r {
            Ok(_) => Ok(loaded_record(since(pre, post))),
            Err(e) => Err(e),
        },
    )
    &&& after.types@ == before.types@
    &&& after.p1.buffer@ == before.p1.buffer@
    &&& after.p1.size == before.p1.size
    &&& r is Err ==> after.p0.buffer@ == before.p0.buffer@
    &&& r is Err && rejection(0, before) is None ==> after.p0.size == before.p0.size
    &&& r is Ok ==> after.p0.size == PUBKEY_LEN && after.p0.buffer@ == public_key(
        loaded_record(since(pre, post)),
    ) + before.p0.buffer@.subrange(PUBKEY_LEN as int, before.p0.buffer@.len() as int)
}

/// Answers GetPubkey: after the checks, loads (or on first boot creates) the
/// key record and returns X || Y in the output buffer with size 64. The
/// record, which holds the private scalar, is scrubbed before returning.
pub fn handle_get_pubkey(params: &mut TaParams, log: &mut TeeLog) -> (r: Result<(), TeeError>)
    ensures
        get_pubkey_answer(*old(params), *final(params), old(log).events(), final(log).events(), r),
        r is Ok ==> final(params).p0.size == 64 && match final(log).events().last() {
            TeeEvent::Read { got: Ok(data), .. } => final(params).p0.buffer@.subrange(0, 32)
                == data.subrange(40, 72) && final(params).p0.buffer@.subrange(32, 64)
                == data.subrange(72, 104),
            TeeEvent::Create { data, result: Ok(()), .. } => final(params).p0.buffer@.subrange(
                0,
                32,
            ) == data.subrange(40, 72) && final(params).p0.buffer@.subrange(32, 64)
                == data.subrange(72, 104),
            _ => false,
        },
{
    let ghost pre = log.events();
    check_get_pubkey(params)?;
    let mut blob = load_or_create_blob(log)?;
    write_public_key(blob.as_slice(), params.p0.buffer.as_mut_slice());
    params.p0.size = PUBKEY_LEN;
    proof {
        let ev = since(pre, log.events());
        crate::keystore::lemma_loaded_record_is_last_answer(ev, blob@);
        assert(ev.last() == log.events().last());
        assert(params.p0.buffer@.subrange(0, 32) =~= blob@.subrange(40, 72));
        assert(params.p0.buffer@.subrange(32, 64) =~= blob@.subrange(72, 104));
    }
    zeroize(blob.as_mut_slice());
    Ok(())
}

/// The TEE calls of a Sign that got past the checks, and what comes of
/// them: first those of loading the key record (`load_run`); a load error
/// is the result and ends the calls; otherwise those of signing the digest
/// with the loaded record (`sign_run`), whose result is the answer. `k` is
/// the number of calls that the load made.
pub open spec fn load_then_sign(ev: Seq<TeeEvent>, k: int, digest: Seq<u8>, r: Result<Seq<u8>, TeeError>) -> bool {
    let l = ev.subrange(0, k);
    let s = ev.subrange(k, ev.len() as int);
    ||| r is Err && s.len() == 0 && load_run(l, r)
    ||| load_run(l, Ok(loaded_record(l))) && sign_run(loaded_record(l), digest, s, r)
}

/// `load_then_sign`, for the number of calls the load made.
pub open spec fn sign_command_run(ev: Seq<TeeEvent>, digest: Seq<u8>, r: Result<Seq<u8>, TeeError>) -> bool {
    exists|k: int| 1 <= k <= ev.len() && #[trigger] load_then_sign(ev, k, digest, r)
}

/// What Sign leaves behind, whatever the key storage and the signing
/// operation answered: a rejected request is answered with its rejection,
/// touches no storage, and only the reported size may change; otherwise
/// the TEE calls made and the answer are those of `sign_command_run` for
/// the input digest, the answer on success being the 64 bytes written to
/// the front of slot 1 (a valid signature under the loaded record's d).
/// Slot 0 and the types are never touched, a failure leaves slot 1 as it
/// was, and success reports size 64.
pub open spec fn sign_answer(
    before: TaParams,
    after: TaParams,
    pre: Seq<TeeEvent>,
    post: Seq<TeeEvent>,
    r: Result<(), TeeError>,
) -> bool {
    &&& rejection(1, before) matches Some(e) ==> r == Err::<(), TeeError>(e) && checked_params(
        1,
        before,
        after,
    )
    &&& rejection(1, before) is Some ==> post == pre
    &&& rejection(1, before) is None ==> extends(pre, post) && sign_command_run(
        since(pre, post),
        before.p0.buffer@,
        match r {
            Ok(()) => Ok(after.p1.buffer@.subrange(0, SIGNATURE_LEN as int)),
            Err(e) => Err(e),
        },
    )
    &&& after.types@ == before.types@
    &&& after.p0.buffer@ == before.p0.buffer@
    &&& after.p0.size == before.p0.size
    &&& after.p1.buffer@.len() == before.p1.buffer@.len()
    &&& r is Err && rejection(1, before) is None ==> after.p1.buffer@ == before.p1.buffer@
        && after.p1.size == before.p1.size
    &&& r is Ok ==> {
        &&& rejection(1, before) is None
        &&& after.p1.size == SIGNATURE_LEN
        &&& after.p1.buffer@.subrange(SIGNATURE_LEN as int, after.p1.buffer@.len() as int)
            == before.p1.buffer@.subrange(SIGNATURE_LEN as int, before.p1.buffer@.len() as int)
    }
}

/// Answers Sign: after the checks, loads (or on first boot creates) the key
/// record, signs the digest and returns r || s in the output buffer with
/// size 64. The record is scrubbed whether signing succeeds or not.
pub fn handle_sign(params: &mut TaParams, log: &mut TeeLog) -> (r: Result<(), TeeError>)
    ensures
        sign_answer(*old(params), *final(params), old(log).events(), final(log).events(), r),
        r is Ok ==> ({
            let ev = since(old(log).events(), final(log).events());
            let sig = final(params).p1.buffer@.subrange(0, 64);
            let loaded = ev.subrange(0, ev.len() - 5);
            let rec = loaded_record(loaded);
            &&& final(params).p1.size == 64
            &&& ev.len() >= 6
            &&& load_run(loaded, Ok(rec))
            &&& ev.last() == (TeeEvent::SignDigest { digest: old(params).p0.buffer@, got: Ok(sig) })
            &&& ev[ev.len() - 4] == (TeeEvent::Populate {
                curve: ECC_CURVE_NIST_P256,
                d: rec.subrange(8, 40),
                x: rec.subrange(40, 72),
                y: rec.subrange(72, 104),
                result: Ok(()),
            })
            &&& ecdsa_p256_signature_valid(rec.subrange(8, 40), old(params).p0.buffer@, sig)
        }),
{
    let ghost pre = log.events();
    let digest = check_sign(params)?;
    let loaded = load_or_create_blob(log);
    let ghost mid = log.events();
    let mut blob = match loaded {
        Ok(b) => b,
        Err(e) => {
            proof {
                let ev = since(pre, mid);
                assert(ev.subrange(0, ev.len() as int) =~= ev);
                assert(load_then_sign(ev, ev.len() as int, old(params).p0.buffer@, Err(e)));
            }
            return Err(e);
        },
    };
    let res = sign_with_blob(&blob, digest.as_slice(), &mut params.p1.buffer, log);
    proof {
        crate::tee::lemma_extends_trans(pre, mid, log.events());
        let ev = since(pre, log.events());
        let k = since(pre, mid).len() as int;
        assert(ev.subrange(0, k) =~= since(pre, mid));
        assert(ev.subrange(k, ev.len() as int) =~= since(mid, log.events()));
        let sr = match res {
            Ok(()) => Ok(params.p1.buffer@.subrange(0, SIGNATURE_LEN as int)),
            Err(e) => Err(e),
        };
        assert(load_then_sign(ev, k, old(params).p0.buffer@, sr));
        if let Ok(sig) = sr {
            let l = ev.subrange(0, k);
            let sv = ev.subrange(k, ev.len() as int);
            crate::keystore::lemma_signature_is_of_given_digest(
                loaded_record(l),
                old(params).p0.buffer@,
                sv,
                sig,
            );
            assert(ev.len() == k + 5);
            assert(ev.last() == sv[4]);
            assert(ev[ev.len() - 4] == sv[1]);
            assert(ev.subrange(0, ev.len() - 5) == l);
            assert(k >= 1);
        }
    }
    zeroize(blob.as_mut_slice());
    res?;
    params.p1.size = SIGNATURE_LEN;
    Ok(())
}

/// Dispatches one invocation. An unknown command ID is answered with
/// `NotSupported`, changes nothing and makes no TEE call; every rejected
/// invocation is answered before the key is touched.
pub fn invoke_command(cmd_id: u32, params: &mut TaParams, log: &mut TeeLog) -> (r: Result<(), TeeError>)
    ensures
        rejection(cmd_id, *old(params)) matches Some(e) ==> r == Err::<(), TeeError>(e)
            && checked_params(cmd_id, *old(params), *final(params)) && final(log).events() == old(
            log,
        ).events(),
        command_of(cmd_id) == Command::GetPubkey ==> get_pubkey_answer(
            *old(params),
            *final(params),
            old(log).events(),
            final(log).events(),
            r,
        ),
        command_of(cmd_id) == Command::Sign ==> sign_answer(
            *old(params),
            *final(params),
            old(log).events(),
            final(log).events(),
            r,
        ),
{
    match Command::from(cmd_id) {
        Command::GetPubkey => handle_get_pubkey(params, log),
        Command::Sign => handle_sign(params, log),
        Command::Unknown => Err(TeeError { code: ERROR_NOT_SUPPORTED }),
    }
}

/// Opening a session: sessions carry no parameters, so every slot must be
/// unused.
pub fn open_session(params: &TaParams) -> (r: Result<(), TeeError>)
    ensures
        r is Ok <==> params.types@ == session_layout(),
        r is Err ==> r == Err::<(), TeeError>(TeeError { code: ERROR_BAD_PARAMETERS }),
{
    let r = expect_layout(params, [PARAM_NONE, PARAM_NONE, PARAM_NONE, PARAM_NONE]);
    proof {
        let want = [PARAM_NONE, PARAM_NONE, PARAM_NONE, PARAM_NONE];
        assert(want@ =~= session_layout());
    }
    r
}

} // verus!
