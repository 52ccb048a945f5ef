use signer::client::{
    cmd_help, cmd_pubkey, cmd_sign, cmd_version, emit, fail, finish_sign, parse_digest, run, usage,
    Next, Outcome,
};
use signer::text::hex;

fn args(v: &[&str]) -> Vec<String> {
    v.iter().map(|s| s.to_string()).collect()
}

fn done(n: Next) -> Outcome {
    match n {
        Next::Done(o) => o,
        _ => panic!("expected a finished outcome"),
    }
}

const DIGEST_HEX: &str = "000102030405060708090a0b0c0d0e0f101112131415161718191a1b1c1d1e1f";

#[test]
fn parse_digest_accepts_64_hex_chars() {
    let d = parse_digest(DIGEST_HEX).unwrap();
    assert_eq!(d, (0u8..32).collect::<Vec<u8>>());
}

#[test]
fn parse_digest_accepts_uppercase() {
    let d = parse_digest(&"AB".repeat(32)).unwrap();
    assert_eq!(d, vec![0xab; 32]);
}

#[test]
fn parse_digest_rejects_plus_sign_pair() {
    let s = format!("+f{}", "00".repeat(31));
    assert_eq!(parse_digest(&s), Err("digest is not valid hex at byte 0".to_string()));
    assert_eq!(
        parse_digest(&"+f".repeat(32)),
        Err("digest is not valid hex at byte 0".to_string())
    );
}

#[test]
fn parse_digest_multibyte_char_is_invalid_hex() {
    // "€" is three bytes: 61 + 3 = 64 bytes, and the pair at byte 30 cuts it.
    let s = format!("{}€", "0".repeat(61));
    assert_eq!(s.len(), 64);
    assert_eq!(parse_digest(&s), Err("digest is not valid hex at byte 30".to_string()));
    let s = format!("ab{}€", "0".repeat(59));
    assert_eq!(s.len(), 64);
    assert_eq!(parse_digest(&s), Err("digest is not valid hex at byte 30".to_string()));
}

#[test]
fn parse_digest_wrong_length() {
    assert_eq!(
        parse_digest("abcd"),
        Err("digest must be 64 hex chars (a SHA-256 value), got 4".to_string())
    );
    assert_eq!(
        parse_digest(""),
        Err("digest must be 64 hex chars (a SHA-256 value), got 0".to_string())
    );
}

#[test]
fn parse_digest_length_counts_bytes() {
    let s = format!("é{}", "0".repeat(61));
    assert_eq!(s.len(), 63);
    assert_eq!(
        parse_digest(&s),
        Err("digest must be 64 hex chars (a SHA-256 value), got 63".to_string())
    );
}

#[test]
fn parse_digest_reports_first_bad_byte() {
    let s = format!("{}zz{}", "00".repeat(5), "00".repeat(26));
    assert_eq!(
        parse_digest(&s),
        Err("digest is not valid hex at byte 5".to_string())
    );
    let s = format!("{}-1", "00".repeat(31));
    assert_eq!(
        parse_digest(&s),
        Err("digest is not valid hex at byte 31".to_string())
    );
}

#[test]
fn parse_digest_rejects_two_byte_character() {
    let s = format!("é{}", "00".repeat(31));
    assert_eq!(s.len(), 64);
    assert_eq!(
        parse_digest(&s),
        Err("digest is not valid hex at byte 0".to_string())
    );
}

#[test]
fn hex_digest_round_trips() {
    let d: Vec<u8> = (0u8..32).map(|i| i.wrapping_mul(37)).collect();
    assert_eq!(parse_digest(&hex(&d)).unwrap(), d);
}

#[test]
fn emit_writes_one_object() {
    let fields = vec![
        ("a".to_string(), "1".to_string()),
        ("b\"".to_string(), "[2]".to_string()),
    ];
    assert_eq!(emit("x", &fields), "{\"command\":\"x\",\"a\":1,\"b\\\"\":[2]}");
    assert_eq!(emit("y", &[]), "{\"command\":\"y\"}");
}

#[test]
fn fail_reports_on_both_streams() {
    let o = fail("sign", "bad \"thing\"", 3);
    assert_eq!(o.code, 3);
    assert_eq!(o.stdout, "{\"command\":\"sign\",\"error\":\"bad \\\"thing\\\"\"}");
    assert_eq!(o.stderr, vec!["signer-client sign: bad \"thing\"".to_string()]);
}

#[test]
fn help_lists_subcommands() {
    let o = cmd_help();
    assert_eq!(o.code, 0);
    assert_eq!(
        o.stdout,
        "{\"command\":\"help\",\"subcommands\":[\"pubkey\",\"sign\",\"version\",\"help\"]}"
    );
    assert_eq!(o.stderr, vec![usage()]);
    assert!(usage().starts_with("usage:\n  signer-client pubkey"));
    assert_eq!(usage().lines().count(), 5);
}

#[test]
fn version_reports_version() {
    let o = cmd_version("1.2.3");
    assert_eq!(o.code, 0);
    assert_eq!(o.stdout, "{\"command\":\"version\",\"version\":\"1.2.3\"}");
    assert!(o.stderr.is_empty());
}

#[test]
fn pubkey_success_and_failure() {
    let mut pk = vec![0u8; 64];
    pk[0] = 0xab;
    pk[63] = 0x01;
    let o = cmd_pubkey(Ok(pk.clone()));
    assert_eq!(o.code, 0);
    let want = format!("{{\"command\":\"pubkey\",\"curve\":\"p256\",\"pubkey\":\"{}\"}}", hex(&pk));
    assert_eq!(o.stdout, want);
    let o = cmd_pubkey(Err("open_session: boom".to_string()));
    assert_eq!(o.code, 2);
    assert_eq!(o.stdout, "{\"command\":\"pubkey\",\"error\":\"open_session: boom\"}");
    assert_eq!(o.stderr, vec!["signer-client pubkey: open_session: boom".to_string()]);
}

#[test]
fn sign_success_carries_key_digest_and_signature() {
    let digest = vec![0x11u8; 32];
    let pk = vec![0x22u8; 64];
    let sig = vec![0x33u8; 64];
    let o = finish_sign(&digest, Ok((pk.clone(), sig.clone())));
    assert_eq!(o.code, 0);
    let want = format!(
        "{{\"command\":\"sign\",\"curve\":\"p256\",\"pubkey\":\"{}\",\"digest\":\"{}\",\"signature\":\"{}\"}}",
        "22".repeat(64),
        "11".repeat(32),
        "33".repeat(64)
    );
    assert_eq!(o.stdout, want);
    let o = finish_sign(&digest, Err("invoke_command(sign): x".to_string()));
    assert_eq!(o.code, 2);
}

#[test]
fn cmd_sign_needs_exactly_one_argument() {
    let o = done(cmd_sign(&args(&[])));
    assert_eq!(o.code, 3);
    assert_eq!(
        o.stdout,
        "{\"command\":\"sign\",\"error\":\"usage: signer-client sign <64-hex-digest>\"}"
    );
    let o = done(cmd_sign(&args(&[DIGEST_HEX, DIGEST_HEX])));
    assert_eq!(o.code, 3);
}

#[test]
fn cmd_sign_rejects_bad_digest_before_any_session() {
    let o = done(cmd_sign(&args(&["abc"])));
    assert_eq!(o.code, 3);
    assert_eq!(
        o.stderr,
        vec!["signer-client sign: digest must be 64 hex chars (a SHA-256 value), got 3".to_string()]
    );
}

#[test]
fn cmd_sign_asks_for_signature() {
    match cmd_sign(&args(&[DIGEST_HEX])) {
        Next::FetchSignature(d) => assert_eq!(d, (0u8..32).collect::<Vec<u8>>()),
        _ => panic!("expected a signing request"),
    }
}

#[test]
fn run_missing_subcommand() {
    let o = done(run(&args(&["signer-client"]), "0.1.0"));
    assert_eq!(o.code, 3);
    assert_eq!(o.stdout, "{\"command\":\"(none)\",\"error\":\"missing subcommand\"}");
    assert_eq!(
        o.stderr,
        vec![usage(), "signer-client (none): missing subcommand".to_string()]
    );
}

#[test]
fn run_unknown_subcommand() {
    let o = done(run(&args(&["signer-client", "frob"]), "0.1.0"));
    assert_eq!(o.code, 3);
    assert_eq!(o.stdout, "{\"command\":\"frob\",\"error\":\"unknown subcommand\"}");
    assert_eq!(o.stderr.len(), 2);
}

#[test]
fn run_dispatches_aliases() {
    for h in ["help", "--help", "-h"] {
        let o = done(run(&args(&["c", h]), "0.1.0"));
        assert_eq!(o.stdout, cmd_help().stdout);
    }
    for v in ["version", "--version", "-V"] {
        let o = done(run(&args(&["c", v]), "9.9"));
        assert_eq!(o.stdout, "{\"command\":\"version\",\"version\":\"9.9\"}");
    }
    assert!(matches!(run(&args(&["c", "pubkey"]), "0"), Next::FetchPubkey));
    assert!(matches!(run(&args(&["c", "sign", DIGEST_HEX]), "0"), Next::FetchSignature(_)));
    let o = done(run(&args(&["c", "sign"]), "0"));
    assert_eq!(o.code, 3);
}

#[test]
fn printed_digest_is_lowercased_argument() {
    let arg = "AbCdEf0123456789".repeat(4);
    let d = parse_digest(&arg).unwrap();
    let o = finish_sign(&d, Ok((vec![0x22; 64], vec![0x33; 64])));
    assert!(o.stdout.contains(&format!("\"digest\":\"{}\"", arg.to_lowercase())));
}
