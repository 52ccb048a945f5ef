use signer::probe::{
    broken, expect_err, expect_ok, expects_rejection, invocation, judge, probe_case,
    required_error, ProbeCase, ProbeError,
};
use signer::tee::{TeeError, ERROR_BAD_PARAMETERS, ERROR_NOT_SUPPORTED};
use signer::wire::Param;

#[test]
fn case_names() {
    assert_eq!(probe_case("sign-short-digest"), Some(ProbeCase::SignShortDigest));
    assert_eq!(probe_case("unknown-command"), Some(ProbeCase::UnknownCommand));
    assert_eq!(probe_case("pubkey-wrong-direction"), Some(ProbeCase::PubkeyWrongDirection));
    assert_eq!(probe_case("sign-wrong-direction"), Some(ProbeCase::SignWrongDirection));
    assert_eq!(probe_case("pubkey-extra-param"), Some(ProbeCase::PubkeyExtraParam));
    assert_eq!(probe_case("valid"), Some(ProbeCase::Valid));
    assert_eq!(probe_case("Valid"), None);
    assert_eq!(probe_case(""), None);
}

#[test]
fn only_valid_case_expects_success() {
    assert!(!expects_rejection(ProbeCase::Valid));
    assert!(expects_rejection(ProbeCase::UnknownCommand));
    assert!(expects_rejection(ProbeCase::SignShortDigest));
}

#[test]
fn probe_invocations() {
    let inv = invocation(ProbeCase::UnknownCommand);
    assert_eq!(inv.command, 0x1337);
    let inv = invocation(ProbeCase::SignShortDigest);
    assert_eq!(inv.command, 1);
    match inv.p0 {
        Param::TmpInput(d) => assert_eq!(d, vec![0xab; 8]),
        _ => panic!("expected an input buffer"),
    }
    let inv = invocation(ProbeCase::PubkeyExtraParam);
    assert!(matches!(inv.p1, Param::ValueInput(7, 7)));
}

fn ta_error(code: u32, text: &str) -> ProbeError {
    ProbeError { code, from_ta: true, text: text.to_string() }
}

#[test]
fn verdicts() {
    let ns = TeeError { code: ERROR_NOT_SUPPORTED };
    let v = expect_err("unknown-command", ns, Err(ta_error(ERROR_NOT_SUPPORTED, "not supported")));
    assert_eq!(v.code, 0);
    assert_eq!(v.message, "ta-probe unknown-command: rejected as required (not supported)");
    let v = expect_err("unknown-command", ns, Ok(()));
    assert_eq!(v.code, 1);
    assert_eq!(v.message, "ta-probe unknown-command: TA ACCEPTED a malformed invocation");
    let v = expect_ok("valid", Ok(()));
    assert_eq!((v.code, v.message.as_str()), (0, "ta-probe valid: succeeded as required"));
    let v = expect_ok("valid", Err(ta_error(1, "x")));
    assert_eq!((v.code, v.message.as_str()), (1, "ta-probe valid: valid invocation FAILED (x)"));
    let v = broken("context: y");
    assert_eq!((v.code, v.message.as_str()), (2, "ta-probe: setup failed: context: y"));
}

#[test]
fn wrong_code_or_origin_fails_the_probe() {
    let bp = TeeError { code: ERROR_BAD_PARAMETERS };
    let v = expect_err("sign-wrong-direction", bp, Err(ta_error(0xFFFF_0000, "generic")));
    assert_eq!(v.code, 1);
    assert_eq!(
        v.message,
        "ta-probe sign-wrong-direction: rejected, but not by the TA with the required code (generic)"
    );
    let transport = ProbeError {
        code: ERROR_BAD_PARAMETERS,
        from_ta: false,
        text: "comms".to_string(),
    };
    assert_eq!(expect_err("sign-wrong-direction", bp, Err(transport)).code, 1);
    assert_eq!(
        expect_err("sign-wrong-direction", bp, Err(ta_error(ERROR_BAD_PARAMETERS, "bad"))).code,
        0
    );
}

#[test]
fn required_codes_per_case() {
    assert_eq!(required_error(ProbeCase::UnknownCommand), Some(TeeError { code: ERROR_NOT_SUPPORTED }));
    assert_eq!(required_error(ProbeCase::SignShortDigest), Some(TeeError { code: ERROR_BAD_PARAMETERS }));
    assert_eq!(required_error(ProbeCase::Valid), None);
    let v = judge("unknown-command", ProbeCase::UnknownCommand, Err(ta_error(ERROR_BAD_PARAMETERS, "bad")));
    assert_eq!(v.code, 1);
    let v = judge("pubkey-extra-param", ProbeCase::PubkeyExtraParam, Err(ta_error(ERROR_BAD_PARAMETERS, "bad")));
    assert_eq!(v.code, 0);
    assert_eq!(judge("valid", ProbeCase::Valid, Ok(())).code, 0);
}
