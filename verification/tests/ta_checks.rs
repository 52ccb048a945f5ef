use signer::probe::{
    pubkey_extra_param, pubkey_wrong_direction, sign_short_digest, sign_wrong_direction,
    unknown_command, valid_pubkey,
};
use signer::ta::{
    check_request, expect_layout, open_session, Accepted, Memref, TaParams, PARAM_MEMREF_INPUT,
    PARAM_MEMREF_OUTPUT, PARAM_NONE, PARAM_VALUE_INPUT,
};
use signer::tee::{TeeError, ERROR_BAD_PARAMETERS, ERROR_NOT_SUPPORTED, ERROR_SHORT_BUFFER};
use signer::wire::{deliver, get_pubkey, sign, Invocation, Param};

fn bad_parameters() -> TeeError {
    TeeError { code: ERROR_BAD_PARAMETERS }
}

fn outcome(inv: &Invocation) -> (Result<&'static str, TeeError>, usize, usize) {
    let mut p = deliver(inv);
    let r = match check_request(inv.command, &mut p) {
        Ok(Accepted::GetPubkey) => Ok("get_pubkey"),
        Ok(Accepted::Sign(_)) => Ok("sign"),
        Err(e) => Err(e),
    };
    (r, p.p0.size, p.p1.size)
}

#[test]
fn probe_short_digest_rejected() {
    assert_eq!(outcome(&sign_short_digest()).0, Err(bad_parameters()));
}

#[test]
fn probe_unknown_command_not_supported() {
    let (r, s0, s1) = outcome(&unknown_command());
    assert_eq!(r, Err(TeeError { code: ERROR_NOT_SUPPORTED }));
    assert_eq!((s0, s1), (0, 0));
}

#[test]
fn probe_pubkey_wrong_direction_rejected() {
    assert_eq!(outcome(&pubkey_wrong_direction()).0, Err(bad_parameters()));
}

#[test]
fn probe_sign_wrong_direction_rejected() {
    assert_eq!(outcome(&sign_wrong_direction()).0, Err(bad_parameters()));
}

#[test]
fn probe_pubkey_extra_param_rejected() {
    assert_eq!(outcome(&pubkey_extra_param()).0, Err(bad_parameters()));
}

#[test]
fn probe_valid_accepted() {
    assert_eq!(outcome(&valid_pubkey()).0, Ok("get_pubkey"));
}

#[test]
fn client_requests_accepted() {
    assert_eq!(outcome(&get_pubkey()).0, Ok("get_pubkey"));
    let digest: Vec<u8> = (0..32).collect();
    let inv = sign(&digest);
    let mut p = deliver(&inv);
    match check_request(inv.command, &mut p) {
        Ok(Accepted::Sign(d)) => assert_eq!(d, digest),
        _ => panic!("sign request refused"),
    }
}

#[test]
fn short_pubkey_buffer_reports_needed_size() {
    let inv = Invocation {
        command: 0,
        p0: Param::TmpOutput(vec![0u8; 10]),
        p1: Param::Unused,
        p2: Param::Unused,
        p3: Param::Unused,
    };
    let (r, s0, s1) = outcome(&inv);
    assert_eq!(r, Err(TeeError { code: ERROR_SHORT_BUFFER }));
    assert_eq!((s0, s1), (64, 0));
}

#[test]
fn short_signature_buffer_reports_needed_size() {
    let inv = Invocation {
        command: 1,
        p0: Param::TmpInput(vec![1u8; 32]),
        p1: Param::TmpOutput(vec![0u8; 63]),
        p2: Param::Unused,
        p3: Param::Unused,
    };
    let (r, s0, s1) = outcome(&inv);
    assert_eq!(r, Err(TeeError { code: ERROR_SHORT_BUFFER }));
    assert_eq!((s0, s1), (32, 64));
}

#[test]
fn long_digest_rejected_without_size_hint() {
    let inv = Invocation {
        command: 1,
        p0: Param::TmpInput(vec![1u8; 33]),
        p1: Param::TmpOutput(vec![0u8; 10]),
        p2: Param::Unused,
        p3: Param::Unused,
    };
    let (r, s0, s1) = outcome(&inv);
    assert_eq!(r, Err(bad_parameters()));
    assert_eq!((s0, s1), (33, 10));
}

#[test]
fn larger_output_buffers_accepted() {
    let inv = Invocation {
        command: 0,
        p0: Param::TmpOutput(vec![0u8; 100]),
        p1: Param::Unused,
        p2: Param::Unused,
        p3: Param::Unused,
    };
    assert_eq!(outcome(&inv).0, Ok("get_pubkey"));
}

fn params(types: [u32; 4]) -> TaParams {
    TaParams {
        types,
        p0: Memref { buffer: Vec::new(), size: 0 },
        p1: Memref { buffer: Vec::new(), size: 0 },
    }
}

#[test]
fn layout_must_match_exactly() {
    let want = [PARAM_MEMREF_INPUT, PARAM_MEMREF_OUTPUT, PARAM_NONE, PARAM_NONE];
    assert_eq!(expect_layout(&params(want), want), Ok(()));
    let swapped = [PARAM_MEMREF_OUTPUT, PARAM_MEMREF_INPUT, PARAM_NONE, PARAM_NONE];
    assert_eq!(expect_layout(&params(swapped), want), Err(bad_parameters()));
    let extra = [PARAM_MEMREF_INPUT, PARAM_MEMREF_OUTPUT, PARAM_NONE, PARAM_VALUE_INPUT];
    assert_eq!(expect_layout(&params(extra), want), Err(bad_parameters()));
}

#[test]
fn sessions_carry_no_parameters() {
    assert_eq!(open_session(&params([PARAM_NONE; 4])), Ok(()));
    let one = [PARAM_VALUE_INPUT, PARAM_NONE, PARAM_NONE, PARAM_NONE];
    assert_eq!(open_session(&params(one)), Err(bad_parameters()));
}
