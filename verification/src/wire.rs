//! Invocations as a client application sends them through the TEE client
//! API, and how the TA receives them.
//!
//! A temporary memory reference is an input or an output buffer of the
//! client; a value parameter carries two integers. The TA sees each slot's
//! raw parameter type, and the client's buffer for each memory reference.
use crate::proto::{Command, DIGEST_LEN, PUBKEY_LEN, SIGNATURE_LEN};
use crate::ta::{
    Memref, TaParams, PARAM_MEMREF_INPUT, PARAM_MEMREF_OUTPUT, PARAM_NONE, PARAM_VALUE_INPUT,
};
use vstd::prelude::*;

verus! {

/// One parameter slot of an invocation.
pub enum Param {
    /// An unused slot.
    Unused,
    /// A temporary memory reference that the TA may read.
    TmpInput(Vec<u8>),
    /// A temporary memory reference that the TA may write; the vector is
    /// the client's buffer as it is before the call.
    TmpOutput(Vec<u8>),
    /// A value parameter that the TA may read.
    ValueInput(u32, u32),
}

/// The mathematical content of a parameter slot.
pub enum ParamView {
    Unused,
    TmpInput(Seq<u8>),
    TmpOutput(Seq<u8>),
    ValueInput(u32, u32),
}

impl View for Param {
    type V = ParamView;

    open spec fn view(&self) -> ParamView {
        match self {
            Param::Unused => ParamView::Unused,
            Param::TmpInput(d) => ParamView::TmpInput(d@),
            Param::TmpOutput(d) => ParamView::TmpOutput(d@),
            Param::ValueInput(a, b) => ParamView::ValueInput(*a, *b),
        }
    }
}

/// A command ID and four parameter slots.
pub struct Invocation {
    pub command: u32,
    pub p0: Param,
    pub p1: Param,
    pub p2: Param,
    pub p3: Param,
}

/// The mathematical content of an invocation.
pub struct InvocationView {
    pub command: u32,
    pub params: Seq<ParamView>,
}

impl View for Invocation {
    type V = InvocationView;

    open spec fn view(&self) -> InvocationView {
        InvocationView { command: self.command, params: seq![self.p0@, self.p1@, self.p2@, self.p3@] }
    }
}

/// The raw parameter type under which the TA receives a slot.
pub open spec fn param_type(p: ParamView) -> u32 {
    match p {
        ParamView::Unused => PARAM_NONE,
        ParamView::TmpInput(_) => PARAM_MEMREF_INPUT,
        ParamView::TmpOutput(_) => PARAM_MEMREF_OUTPUT,
        ParamView::ValueInput(_, _) => PARAM_VALUE_INPUT,
    }
}

/// The buffer that the TA sees in a slot: the client's buffer for a memory
/// reference, nothing otherwise.
pub open spec fn param_buffer(p: ParamView) -> Seq<u8> {
    match p {
        ParamView::TmpInput(d) => d,
        ParamView::TmpOutput(d) => d,
        _ => Seq::empty(),
    }
}

/// The raw parameter types of all four slots.
pub open spec fn param_types(v: InvocationView) -> Seq<u32> {
    seq![
        param_type(v.params[0]),
        param_type(v.params[1]),
        param_type(v.params[2]),
        param_type(v.params[3]),
    ]
}

fn param_type_of(p: &Param) -> (r: u32)
    ensures
        r == param_type(p@),
{
    match p {
        Param::Unused => PARAM_NONE,
        Param::TmpInput(_) => PARAM_MEMREF_INPUT,
        Param::TmpOutput(_) => PARAM_MEMREF_OUTPUT,
        Param::ValueInput(_, _) => PARAM_VALUE_INPUT,
    }
}

fn memref_of(p: &Param) -> (r: Memref)
    ensures
        r.buffer@ == param_buffer(p@),
        r.size == r.buffer@.len(),
{
    match p {
        Param::TmpInput(d) => Memref { buffer: crate::ta::copy_bytes(d.as_slice()), size: d.len() },
        Param::TmpOutput(d) => Memref { buffer: crate::ta::copy_bytes(d.as_slice()), size: d.len() },
        _ => Memref { buffer: Vec::new(), size: 0 },
    }
}

/// `p` is how the TA receives the invocation `v`: each slot's raw type, and
/// the client's buffers in slots 0 and 1.
pub open spec fn delivered_as(p: TaParams, v: InvocationView) -> bool {
    &&& p.types@ == param_types(v)
    &&& p.p0.buffer@ == param_buffer(v.params[0])
    &&& p.p1.buffer@ == param_buffer(v.params[1])
}

/// The parameters of an invocation as the TA receives them: each slot's
/// raw type, and the buffers of slots 0 and 1 with their sizes.
pub fn deliver(inv: &Invocation) -> (r: TaParams)
    ensures
        delivered_as(r, inv@),
        r.p0.size == r.p0.buffer@.len(),
        r.p1.size == r.p1.buffer@.len(),
{
    let types = [
        param_type_of(&inv.p0),
        param_type_of(&inv.p1),
        param_type_of(&inv.p2),
        param_type_of(&inv.p3),
    ];
    assert(types@ =~= param_types(inv@));
    TaParams { types, p0: memref_of(&inv.p0), p1: memref_of(&inv.p1) }
}

/// `n` zero bytes.
pub fn zero_buffer(n: usize) -> (r: Vec<u8>)
    ensures
        r@ == crate::keyblob::zeros(n as nat),
{
    let r = vec![0u8; n];
    assert(r@ =~= crate::keyblob::zeros(n as nat));
    r
}

/// The client's GetPubkey request: one 64-byte output buffer.
pub fn get_pubkey() -> (r: Invocation)
    ensures
        r@.command == 0,
        r@.params == seq![
            ParamView::TmpOutput(crate::keyblob::zeros(PUBKEY_LEN as nat)),
            ParamView::Unused,
            ParamView::Unused,
            ParamView::Unused,
        ],
{
    Invocation {
        command: Command::GetPubkey.code(),
        p0: Param::TmpOutput(zero_buffer(PUBKEY_LEN)),
        p1: Param::Unused,
        p2: Param::Unused,
        p3: Param::Unused,
    }
}

/// The client's Sign request: the digest as input and a 64-byte output
/// buffer for the signature.
pub fn sign(digest: &[u8]) -> (r: Invocation)
    requires
        digest@.len() == DIGEST_LEN,
    ensures
        r@.command == 1,
        r@.params == seq![
            ParamView::TmpInput(digest@),
            ParamView::TmpOutput(crate::keyblob::zeros(SIGNATURE_LEN as nat)),
            ParamView::Unused,
            ParamView::Unused,
        ],
{
    Invocation {
        command: Command::Sign.code(),
        p0: Param::TmpInput(crate::ta::copy_bytes(digest)),
        p1: Param::TmpOutput(zero_buffer(SIGNATURE_LEN)),
        p2: Param::Unused,
        p3: Param::Unused,
    }
}

/// The client's own requests always get past the TA's checks: a GetPubkey
/// request, and a Sign request for any 32-byte digest.
pub proof fn lemma_client_requests_accepted(p: TaParams, q: TaParams, digest: Seq<u8>)
    requires
        delivered_as(
            p,
            InvocationView {
                command: 0,
                params: seq![
                    ParamView::TmpOutput(crate::keyblob::zeros(PUBKEY_LEN as nat)),
                    ParamView::Unused,
                    ParamView::Unused,
                    ParamView::Unused,
                ],
            },
        ),
        digest.len() == DIGEST_LEN,
        delivered_as(
            q,
            InvocationView {
                command: 1,
                params: seq![
                    ParamView::TmpInput(digest),
                    ParamView::TmpOutput(crate::keyblob::zeros(SIGNATURE_LEN as nat)),
                    ParamView::Unused,
                    ParamView::Unused,
                ],
            },
        ),
    ensures
        crate::ta::rejection(0, p) is None,
        crate::ta::rejection(1, q) is None,
{
    assert(p.types@ =~= crate::ta::get_pubkey_layout());
    assert(q.types@ =~= crate::ta::sign_layout());
}

} // verus!
