//! The TA-boundary probes: invocations that bypass the client's own
//! argument checks and go straight to the TA, so that a rejection is known
//! to come from the TA itself. One case per run; the run passes iff the TA
//! behaved as the protocol requires (an error for each malformed case,
//! success for the valid one).
use crate::proto::{Command, DIGEST_LEN, PUBKEY_LEN, SIGNATURE_LEN};
use crate::ta::{rejection, TaParams};
use crate::tee::{TeeError, ERROR_BAD_PARAMETERS, ERROR_NOT_SUPPORTED};
use crate::wire::{delivered_as, zero_buffer, Invocation, InvocationView, Param, ParamView};
use vstd::prelude::*;
use vstd::string::StringExecFns;

verus! {

/// The probe cases.
#[derive(Clone, Copy, Debug, PartialEq, Eq, Structural)]
pub enum ProbeCase {
    SignShortDigest,
    UnknownCommand,
    PubkeyWrongDirection,
    SignWrongDirection,
    PubkeyExtraParam,
    Valid,
}

/// The invocation that each case sends.
pub open spec fn probe_request(c: ProbeCase) -> InvocationView {
    match c {
        ProbeCase::SignShortDigest => InvocationView {
            command: 1,
            params: seq![
                ParamView::TmpInput(Seq::new(8, |i: int| 0xabu8)),
                ParamView::TmpOutput(crate::keyblob::zeros(SIGNATURE_LEN as nat)),
                ParamView::Unused,
                ParamView::Unused,
            ],
        },
        ProbeCase::UnknownCommand => InvocationView {
            command: 0x1337,
            params: seq![ParamView::Unused, ParamView::Unused, ParamView::Unused, ParamView::Unused],
        },
        ProbeCase::PubkeyWrongDirection => InvocationView {
            command: 0,
            params: seq![
                ParamView::TmpInput(crate::keyblob::zeros(PUBKEY_LEN as nat)),
                ParamView::Unused,
                ParamView::Unused,
                ParamView::Unused,
            ],
        },
        ProbeCase::SignWrongDirection => InvocationView {
            command: 1,
            params: seq![
                ParamView::TmpOutput(crate::keyblob::zeros(DIGEST_LEN as nat)),
                ParamView::TmpOutput(crate::keyblob::zeros(SIGNATURE_LEN as nat)),
                ParamView::Unused,
                ParamView::Unused,
            ],
        },
        ProbeCase::PubkeyExtraParam => InvocationView {
            command: 0,
            params: seq![
                ParamView::TmpOutput(crate::keyblob::zeros(PUBKEY_LEN as nat)),
                ParamView::ValueInput(7, 7),
                ParamView::Unused,
                ParamView::Unused,
            ],
        },
        ProbeCase::Valid => InvocationView {
            command: 0,
            params: seq![
                ParamView::TmpOutput(crate::keyblob::zeros(PUBKEY_LEN as nat)),
                ParamView::Unused,
                ParamView::Unused,
                ParamView::Unused,
            ],
        },
    }
}

/// The answer that the protocol requires of the TA's checks for each case:
/// `NotSupported` for the unknown command, `BadParameters` for every other
/// malformed case, and no rejection for the valid request.
pub open spec fn required_rejection(c: ProbeCase) -> Option<TeeError> {
    match c {
        ProbeCase::UnknownCommand => Some(TeeError { code: ERROR_NOT_SUPPORTED }),
        ProbeCase::Valid => None,
        _ => Some(TeeError { code: ERROR_BAD_PARAMETERS }),
    }
}

/// The invocation a probe sends has exactly the content of its case.
pub open spec fn sends(r: Invocation, c: ProbeCase) -> bool {
    r@.command == probe_request(c).command && r@.params == probe_request(c).params
}

/// Correct layout (input, output), so the call gets past the type check
/// and exercises the digest-length check: 8 bytes instead of 32.
pub fn sign_short_digest() -> (r: Invocation)
    ensures
        sends(r, ProbeCase::SignShortDigest),
{
    let short = vec![0xabu8; 8];
    assert(short@ =~= Seq::new(8, |i: int| 0xabu8));
    Invocation {
        command: Command::Sign.code(),
        p0: Param::TmpInput(short),
        p1: Param::TmpOutput(zero_buffer(SIGNATURE_LEN)),
        p2: Param::Unused,
        p3: Param::Unused,
    }
}

/// A command ID outside the protocol.
pub fn unknown_command() -> (r: Invocation)
    ensures
        sends(r, ProbeCase::UnknownCommand),
{
    Invocation {
        command: 0x1337,
        p0: Param::Unused,
        p1: Param::Unused,
        p2: Param::Unused,
        p3: Param::Unused,
    }
}

/// GetPubkey requires an output memref; this sends an input memref.
pub fn pubkey_wrong_direction() -> (r: Invocation)
    ensures
        sends(r, ProbeCase::PubkeyWrongDirection),
{
    Invocation {
        command: Command::GetPubkey.code(),
        p0: Param::TmpInput(zero_buffer(PUBKEY_LEN)),
        p1: Param::Unused,
        p2: Param::Unused,
        p3: Param::Unused,
    }
}

/// Sign requires (input, output); this sends (output, output). The first
/// buffer is digest-sized, so that without the type check the call would
/// look valid and succeed.
pub fn sign_wrong_direction() -> (r: Invocation)
    ensures
        sends(r, ProbeCase::SignWrongDirection),
{
    Invocation {
        command: Command::Sign.code(),
        p0: Param::TmpOutput(zero_buffer(DIGEST_LEN)),
        p1: Param::TmpOutput(zero_buffer(SIGNATURE_LEN)),
        p2: Param::Unused,
        p3: Param::Unused,
    }
}

/// GetPubkey with a correct slot 0 but an unexpected extra value parameter.
pub fn pubkey_extra_param() -> (r: Invocation)
    ensures
        sends(r, ProbeCase::PubkeyExtraParam),
{
    Invocation {
        command: Command::GetPubkey.code(),
        p0: Param::TmpOutput(zero_buffer(PUBKEY_LEN)),
        p1: Param::ValueInput(7, 7),
        p2: Param::Unused,
        p3: Param::Unused,
    }
}

/// A fully well-formed GetPubkey, sent after the malformed cases to show
/// that the TA is still alive and functional.
pub fn valid_pubkey() -> (r: Invocation)
    ensures
        sends(r, ProbeCase::Valid),
{
    Invocation {
        command: Command::GetPubkey.code(),
        p0: Param::TmpOutput(zero_buffer(PUBKEY_LEN)),
        p1: Param::Unused,
        p2: Param::Unused,
        p3: Param::Unused,
    }
}

/// The invocation that a case sends.
pub fn invocation(c: ProbeCase) -> (r: Invocation)
    ensures
        sends(r, c),
{
    match c {
        ProbeCase::SignShortDigest => sign_short_digest(),
        ProbeCase::UnknownCommand => unknown_command(),
        ProbeCase::PubkeyWrongDirection => pubkey_wrong_direction(),
        ProbeCase::SignWrongDirection => sign_wrong_direction(),
        ProbeCase::PubkeyExtraParam => pubkey_extra_param(),
        ProbeCase::Valid => valid_pubkey(),
    }
}

/// The case that a command-line name selects.
pub open spec fn case_named(s: Seq<char>) -> Option<ProbeCase> {
    if s == "sign-short-digest"@ {
        Some(ProbeCase::SignShortDigest)
    } else if s == "unknown-command"@ {
        Some(ProbeCase::UnknownCommand)
    } else if s == "pubkey-wrong-direction"@ {
        Some(ProbeCase::PubkeyWrongDirection)
    } else if s == "sign-wrong-direction"@ {
        Some(ProbeCase::SignWrongDirection)
    } else if s == "pubkey-extra-param"@ {
        Some(ProbeCase::PubkeyExtraParam)
    } else if s == "valid"@ {
        Some(ProbeCase::Valid)
    } else {
        None
    }
}

/// The case that a command-line name selects, if any.
pub fn probe_case(name: &str) -> (r: Option<ProbeCase>)
    ensures
        r == case_named(name@),
{
    if crate::text::str_eq(name, "sign-short-digest") {
        Some(ProbeCase::SignShortDigest)
    } else if crate::text::str_eq(name, "unknown-command") {
        Some(ProbeCase::UnknownCommand)
    } else if crate::text::str_eq(name, "pubkey-wrong-direction") {
        Some(ProbeCase::PubkeyWrongDirection)
    } else if crate::text::str_eq(name, "sign-wrong-direction") {
        Some(ProbeCase::SignWrongDirection)
    } else if crate::text::str_eq(name, "pubkey-extra-param") {
        Some(ProbeCase::PubkeyExtraParam)
    } else if crate::text::str_eq(name, "valid") {
        Some(ProbeCase::Valid)
    } else {
        None
    }
}

/// Whether the protocol requires the TA to refuse this case.
pub fn expects_rejection(c: ProbeCase) -> (r: bool)
    ensures
        r == (required_rejection(c) is Some),
{
    match c {
        ProbeCase::Valid => false,
        _ => true,
    }
}

/// The answer that the protocol requires of the TA for this case.
pub fn required_error(c: ProbeCase) -> (r: Option<TeeError>)
    ensures
        r == required_rejection(c),
{
    match c {
        ProbeCase::UnknownCommand => Some(TeeError { code: ERROR_NOT_SUPPORTED }),
        ProbeCase::Valid => None,
        _ => Some(TeeError { code: ERROR_BAD_PARAMETERS }),
    }
}

/// A failed invocation as the client observed it: the result code, whether
/// the TA itself returned it (rather than the TEE or the transport), and
/// its text for the report.
pub struct ProbeError {
    pub code: u32,
    pub from_ta: bool,
    pub text: String,
}

/// A probe's report: one line for stderr and the exit code.
pub struct Verdict {
    pub message: String,
    pub code: i32,
}

/// A malformed case passes iff the TA itself refused it with exactly the
/// required code; an acceptance, a transport failure, a TA panic or any
/// other code fails it.
pub fn expect_err(case: &str, required: TeeError, res: Result<(), ProbeError>) -> (r: Verdict)
    ensures
        res matches Err(e) ==> (if e.from_ta && e.code == required.code {
            r.code == 0 && r.message@ == "ta-probe "@ + case@ + ": rejected as required ("@
                + e.text@ + ")"@
        } else {
            r.code == 1 && r.message@ == "ta-probe "@ + case@
                + ": rejected, but not by the TA with the required code ("@ + e.text@ + ")"@
        }),
        res is Ok ==> r.code == 1 && r.message@ == "ta-probe "@ + case@
            + ": TA ACCEPTED a malformed invocation"@,
{
    let mut m = String::from_str("ta-probe ");
    m.append(case);
    match res {
        Err(e) => {
            if e.from_ta && e.code == required.code {
                m.append(": rejected as required (");
                m.append(e.text.as_str());
                m.append(")");
                Verdict { message: m, code: 0 }
            } else {
                m.append(": rejected, but not by the TA with the required code (");
                m.append(e.text.as_str());
                m.append(")");
                Verdict { message: m, code: 1 }
            }
        },
        Ok(()) => {
            m.append(": TA ACCEPTED a malformed invocation");
            Verdict { message: m, code: 1 }
        },
    }
}

/// The valid case passes iff the TA served it.
pub fn expect_ok(case: &str, res: Result<(), ProbeError>) -> (r: Verdict)
    ensures
        res is Ok ==> r.code == 0 && r.message@ == "ta-probe "@ + case@ + ": succeeded as required"@,
        res matches Err(e) ==> r.code == 1 && r.message@ == "ta-probe "@ + case@
            + ": valid invocation FAILED ("@ + e.text@ + ")"@,
{
    let mut m = String::from_str("ta-probe ");
    m.append(case);
    match res {
        Ok(()) => {
            m.append(": succeeded as required");
            Verdict { message: m, code: 0 }
        },
        Err(e) => {
            m.append(": valid invocation FAILED (");
            m.append(e.text.as_str());
            m.append(")");
            Verdict { message: m, code: 1 }
        },
    }
}

/// The verdict on one case's outcome: a malformed case is judged by
/// `expect_err` against its required code, the valid case by `expect_ok`.
pub fn judge(name: &str, c: ProbeCase, res: Result<(), ProbeError>) -> (r: Verdict)
    ensures
        required_rejection(c) matches Some(e) ==> (match res {
            Ok(()) => r.code == 1,
            Err(pe) => r.code == 0 <==> (pe.from_ta && pe.code == e.code),
        }),
        required_rejection(c) is None ==> (r.code == 0 <==> res is Ok),
{
    match required_error(c) {
        Some(e) => expect_err(name, e, res),
        None => expect_ok(name, res),
    }
}

/// The probe's own setup failed (no context or session): neither a pass
/// nor a failure, and never counted as a TA rejection.
pub fn broken(msg: &str) -> (r: Verdict)
    ensures
        r.code == 2,
        r.message@ == "ta-probe: setup failed: "@ + msg@,
{
    let mut m = String::from_str("ta-probe: setup failed: ");
    m.append(msg);
    Verdict { message: m, code: 2 }
}

/// Every malformed probe is refused by the TA's own checks, with exactly
/// the required code, and the valid probe gets past them: the rejections
/// that the probes observe come from the TA, not from the client.
pub proof fn lemma_ta_answers_probes(c: ProbeCase, p: TaParams)
    requires
        delivered_as(p, probe_request(c)),
    ensures
        rejection(probe_request(c).command, p) == required_rejection(c),
{
    match c {
        ProbeCase::SignShortDigest => {
            assert(p.types@ =~= crate::ta::sign_layout());
        },
        ProbeCase::UnknownCommand => {},
        ProbeCase::PubkeyWrongDirection => {
            assert(p.types@[0] != crate::ta::get_pubkey_layout()[0]);
        },
        ProbeCase::SignWrongDirection => {
            assert(p.types@[0] != crate::ta::sign_layout()[0]);
        },
        ProbeCase::PubkeyExtraParam => {
            assert(p.types@[1] != crate::ta::get_pubkey_layout()[1]);
        },
        ProbeCase::Valid => {
            assert(p.types@ =~= crate::ta::get_pubkey_layout());
        },
    }
}

} // verus!
