//! The normal-world client's logic: command-line dispatch, digest parsing,
//! and the one JSON object that each invocation writes to stdout.
//!
//! Contract:
//!   * exactly one JSON object is written to stdout per invocation;
//!   * all human-readable text goes to stderr;
//!   * exit codes: 0 success, 2 TEE/transport error, 3 invalid arguments.
//!
//! The calls into the TEE are the program's I/O: `run` and `cmd_sign` say
//! which request must be made, and `cmd_pubkey` and `finish_sign` turn its
//! result into the output.
use crate::text::{
    decimal, decimal_of, hex, hex_of, json_quoted, jstr, push_char, str_eq,
};
use crate::proto::CURVE;
use vstd::prelude::*;
use vstd::string::{StringExecFns, StringSliceAdditionalSpecFns};
use vstd::utf8::encode_utf8;

verus! {

/// Success.
pub const EXIT_SUCCESS: i32 = 0;

/// TEE or transport error.
pub const EXIT_TRANSPORT: i32 = 2;

/// Invalid arguments.
pub const EXIT_INVALID: i32 = 3;

/// What one invocation of the client prints and returns.
pub struct Outcome {
    /// The single JSON object written to stdout.
    pub stdout: String,
    /// The human-readable lines written to stderr.
    pub stderr: Vec<String>,
    /// The process exit code.
    pub code: i32,
}

/// What the client does next: finish with an outcome, or make one TEE
/// request and then finish with its result.
pub enum Next {
    Done(Outcome),
    /// Read the public key (`cmd_pubkey` finishes).
    FetchPubkey,
    /// Read the public key and sign this digest (`finish_sign` finishes).
    FetchSignature(Vec<u8>),
}

/// The JSON members after `"command"`, each as `,"key":value`.
pub open spec fn json_fields(fs: Seq<(Seq<char>, Seq<char>)>) -> Seq<char>
    decreases fs.len(),
{
    if fs.len() == 0 {
        Seq::empty()
    } else {
        json_fields(fs.drop_last()) + seq![','] + json_quoted(fs.last().0) + seq![':']
            + fs.last().1
    }
}

/// One JSON object: `{"command":<command>` then the fields, then `}`.
pub open spec fn json_line(command: Seq<char>, fs: Seq<(Seq<char>, Seq<char>)>) -> Seq<char> {
    seq!['{'] + "\"command\":"@ + json_quoted(command) + json_fields(fs) + seq!['}']
}

/// The mathematical content of a list of fields.
pub open spec fn field_views(fs: Seq<(String, String)>) -> Seq<(Seq<char>, Seq<char>)> {
    fs.map_values(|f: (String, String)| (f.0@, f.1@))
}

/// The lines of an outcome's stderr.
pub open spec fn stderr_lines(o: Outcome) -> Seq<Seq<char>> {
    o.stderr@.map_values(|l: String| l@)
}

/// The stdout object that reports an error.
pub open spec fn error_line(command: Seq<char>, msg: Seq<char>) -> Seq<char> {
    json_line(command, seq![("error"@, json_quoted(msg))])
}

/// The stderr line that reports an error.
pub open spec fn diagnostic(command: Seq<char>, msg: Seq<char>) -> Seq<char> {
    "signer-client "@ + command + ": "@ + msg
}

/// The usage text.
pub open spec fn usage_text() -> Seq<char> {
    "usage:\n  signer-client pubkey            # print the device public key (X||Y hex)\n  signer-client sign <64-hex>     # sign a SHA-256 digest, print r||s hex\n  signer-client version           # print client version\n  signer-client help              # this message"@
}

/// An outcome that reports `msg` for `command` with exit code `code`.
pub open spec fn is_failure(o: Outcome, command: Seq<char>, msg: Seq<char>, code: i32) -> bool {
    &&& o.code == code
    &&& o.stdout@ == error_line(command, msg)
    &&& stderr_lines(o) == seq![diagnostic(command, msg)]
}

/// The same, with the usage text printed to stderr first.
pub open spec fn is_usage_failure(o: Outcome, command: Seq<char>, msg: Seq<char>, code: i32) -> bool {
    &&& o.code == code
    &&& o.stdout@ == error_line(command, msg)
    &&& stderr_lines(o) == seq![usage_text(), diagnostic(command, msg)]
}

/// The output of `help`.
pub open spec fn is_help(o: Outcome) -> bool {
    &&& o.code == EXIT_SUCCESS
    &&& o.stdout@ == json_line(
        "help"@,
        seq![("subcommands"@, "[\"pubkey\",\"sign\",\"version\",\"help\"]"@)],
    )
    &&& stderr_lines(o) == seq![usage_text()]
}

/// The output of `version`.
pub open spec fn is_version(o: Outcome, version: Seq<char>) -> bool {
    &&& o.code == EXIT_SUCCESS
    &&& o.stdout@ == json_line("version"@, seq![("version"@, json_quoted(version))])
    &&& stderr_lines(o) == Seq::<Seq<char>>::empty()
}

/// The output of a successful `pubkey`.
pub open spec fn pubkey_line(pk: Seq<u8>) -> Seq<char> {
    json_line("pubkey"@, seq![("curve"@, json_quoted(CURVE@)), ("pubkey"@, json_quoted(hex_of(pk)))])
}

/// The output of a successful `sign`: the public key, the digest and the
/// signature, so that it can be verified on its own.
pub open spec fn sign_line(pk: Seq<u8>, digest: Seq<u8>, sig: Seq<u8>) -> Seq<char> {
    json_line(
        "sign"@,
        seq![
            ("curve"@, json_quoted(CURVE@)),
            ("pubkey"@, json_quoted(hex_of(pk))),
            ("digest"@, json_quoted(hex_of(digest))),
            ("signature"@, json_quoted(hex_of(sig))),
        ],
    )
}

/// No character of `s` is a line break.
pub open spec fn single_line(s: Seq<char>) -> bool {
    forall|i: int| 0 <= i < s.len() ==> #[trigger] s[i] != '\n'
}

/// What one run of the client prints and returns: exactly one JSON object
/// on one line on stdout, whose first member is `"command"`, and the exit
/// code 0 (success), 2 (TEE or transport error) or 3 (invalid arguments).
pub open spec fn one_json_line(o: Outcome) -> bool {
    &&& o.code == EXIT_SUCCESS || o.code == EXIT_TRANSPORT || o.code == EXIT_INVALID
    &&& single_line(o.stdout@)
    &&& exists|c: Seq<char>, fs: Seq<(Seq<char>, Seq<char>)>| #[trigger] json_line(c, fs) == o.stdout@
}

/// Two strings without a line break make one without.
proof fn lemma_single_line_concat(a: Seq<char>, b: Seq<char>)
    requires
        single_line(a),
        single_line(b),
    ensures
        single_line(a + b),
{
    assert forall|i: int| 0 <= i < (a + b).len() implies #[trigger] (a + b)[i] != '\n' by {
        if i < a.len() {
            assert((a + b)[i] == a[i]);
        } else {
            assert((a + b)[i] == b[i - a.len()]);
        }
    }
}

/// A JSON string literal holds no raw line break: the escape writes a line
/// break as `\u000a`.
proof fn lemma_quoted_single_line(t: Seq<char>)
    ensures
        single_line(json_quoted(t)),
    decreases t.len(),
{
    lemma_escape_single_line(t);
    lemma_single_line_concat(seq!['"'], crate::text::json_escape(t));
    lemma_single_line_concat(seq!['"'] + crate::text::json_escape(t), seq!['"']);
}

/// The escaped body of a JSON string holds no raw line break.
proof fn lemma_escape_single_line(t: Seq<char>)
    ensures
        single_line(crate::text::json_escape(t)),
    decreases t.len(),
{
    if t.len() > 0 {
        lemma_escape_single_line(t.skip(1));
        let e = crate::text::json_escape_char(t[0]);
        assert(single_line(e)) by {
            let v = t[0] as u32;
            if v < 0x20 {
                assert(crate::text::hex_digit((v / 16) as int) != '\n');
                assert(crate::text::hex_digit((v % 16) as int) != '\n');
            }
        }
        lemma_single_line_concat(e, crate::text::json_escape(t.skip(1)));
    }
}

/// The members of a JSON object hold no raw line break when their values
/// hold none.
proof fn lemma_fields_single_line(fs: Seq<(Seq<char>, Seq<char>)>)
    requires
        forall|i: int| 0 <= i < fs.len() ==> single_line(#[trigger] fs[i].1),
    ensures
        single_line(json_fields(fs)),
    decreases fs.len(),
{
    if fs.len() > 0 {
        lemma_fields_single_line(fs.drop_last());
        assert(single_line(fs.last().1)) by {
            assert(fs.last() == fs[fs.len() - 1]);
        }
        lemma_quoted_single_line(fs.last().0);
        let a = json_fields(fs.drop_last());
        lemma_single_line_concat(a, seq![',']);
        lemma_single_line_concat(a + seq![','], json_quoted(fs.last().0));
        lemma_single_line_concat(a + seq![','] + json_quoted(fs.last().0), seq![':']);
        lemma_single_line_concat(a + seq![','] + json_quoted(fs.last().0) + seq![':'], fs.last().1);
    }
}

/// A JSON object line holds no raw line break when its values hold none.
proof fn lemma_json_line_single_line(c: Seq<char>, fs: Seq<(Seq<char>, Seq<char>)>)
    requires
        forall|i: int| 0 <= i < fs.len() ==> single_line(#[trigger] fs[i].1),
    ensures
        single_line(json_line(c, fs)),
{
    reveal_strlit("\"command\":");
    let k = "\"command\":"@;
    assert(single_line(k));
    lemma_quoted_single_line(c);
    lemma_fields_single_line(fs);
    lemma_single_line_concat(seq!['{'], k);
    lemma_single_line_concat(seq!['{'] + k, json_quoted(c));
    lemma_single_line_concat(seq!['{'] + k + json_quoted(c), json_fields(fs));
    lemma_single_line_concat(seq!['{'] + k + json_quoted(c) + json_fields(fs), seq!['}']);
}

/// An error report is one JSON line.
proof fn lemma_failure_is_one_json_line(o: Outcome, command: Seq<char>, msg: Seq<char>, code: i32)
    requires
        o.code == code,
        o.stdout@ == error_line(command, msg),
        code == EXIT_TRANSPORT || code == EXIT_INVALID,
    ensures
        one_json_line(o),
{
    let fs = seq![("error"@, json_quoted(msg))];
    lemma_quoted_single_line(msg);
    assert(fs[0].1 == json_quoted(msg));
    lemma_json_line_single_line(command, fs);
    assert(json_line(command, fs) == o.stdout@);
}

/// The value of a hexadecimal digit byte, in either case.
pub open spec fn hex_value(c: u8) -> Option<u8> {
    if 48 <= c <= 57 {
        Some((c - 48) as u8)
    } else if 97 <= c <= 102 {
        Some((c - 87) as u8)
    } else if 65 <= c <= 70 {
        Some((c - 55) as u8)
    } else {
        None
    }
}

/// The byte that two hexadecimal digits denote, high digit first; `None`
/// unless both are hexadecimal digits.
pub open spec fn hex_pair(b0: u8, b1: u8) -> Option<u8> {
    match (hex_value(b0), hex_value(b1)) {
        (Some(h), Some(l)) => Some((16 * h + l) as u8),
        _ => None,
    }
}

/// Digest byte `i` of a 64-byte argument.
pub open spec fn digest_pair(b: Seq<u8>, i: int) -> Option<u8> {
    hex_pair(b[2 * i], b[2 * i + 1])
}

/// Byte `i` is the first digest byte that does not parse.
pub open spec fn first_bad_pair(b: Seq<u8>, i: int) -> bool {
    &&& 0 <= i < 32
    &&& digest_pair(b, i) is None
    &&& forall|j: int| 0 <= j < i ==> #[trigger] digest_pair(b, j) is Some
}

/// The message for an argument of the wrong length (in bytes).
pub open spec fn digest_length_message(n: nat) -> Seq<char> {
    "digest must be 64 hex chars (a SHA-256 value), got "@ + decimal_of(n)
}

/// The message for the first byte that does not parse.
pub open spec fn digest_hex_message(i: nat) -> Seq<char> {
    "digest is not valid hex at byte "@ + decimal_of(i)
}

/// The result of parsing the bytes of a digest argument.
pub open spec fn digest_parse(b: Seq<u8>) -> Result<Seq<u8>, Seq<char>> {
    if b.len() != 64 {
        Err(digest_length_message(b.len()))
    } else if exists|i: int| first_bad_pair(b, i) {
        Err(digest_hex_message((choose|i: int| first_bad_pair(b, i)) as nat))
    } else {
        Ok(Seq::new(32, |i: int| digest_pair(b, i).unwrap()))
    }
}

/// The value of a hexadecimal digit byte.
pub fn hex_value_of(c: u8) -> (r: Option<u8>)
    ensures
        r == hex_value(c),
{
    if 48 <= c && c <= 57 {
        Some(c - 48)
    } else if 97 <= c && c <= 102 {
        Some(c - 87)
    } else if 65 <= c && c <= 70 {
        Some(c - 55)
    } else {
        None
    }
}

/// One digest byte from its two characters.
pub fn parse_pair(b0: u8, b1: u8) -> (r: Option<u8>)
    ensures
        r == hex_pair(b0, b1),
{
    match (hex_value_of(b0), hex_value_of(b1)) {
        (Some(h), Some(l)) => Some(16 * h + l),
        _ => None,
    }
}

/// Two strings, one after the other.
pub fn concat(a: &str, b: &str) -> (r: String)
    ensures
        r@ == a@ + b@,
{
    let mut r = String::from_str(a);
    r.append(b);
    r
}

/// Parses a SHA-256 digest given as 64 hexadecimal characters. Any other
/// byte, a sign or part of a multi-byte character included, makes the pair
/// it stands in invalid.
pub fn parse_digest(s: &str) -> (r: Result<Vec<u8>, String>)
    ensures
        r matches Ok(d) ==> digest_parse(s.spec_bytes()) == Ok::<Seq<u8>, Seq<char>>(d@),
        r matches Err(m) ==> digest_parse(s.spec_bytes()) == Err::<Seq<u8>, Seq<char>>(m@),
{
    let b = s.as_bytes();
    let n = b.len();
    if n != 64 {
        let m = concat("digest must be 64 hex chars (a SHA-256 value), got ", decimal(n).as_str());
        return Err(m);
    }
    let mut out: Vec<u8> = Vec::new();
    for i in 0..32
        invariant
            b@ == s.spec_bytes(),
            b@.len() == 64,
            out@.len() == i,
            forall|j: int| 0 <= j < i ==> #[trigger] digest_pair(b@, j) is Some,
            forall|j: int| 0 <= j < i ==> out@[j] == digest_pair(b@, j).unwrap(),
    {
        match parse_pair(b[2 * i], b[2 * i + 1]) {
            Some(v) => {
                out.push(v);
            },
            None => {
                proof {
                    assert(first_bad_pair(b@, i as int));
                    let k = choose|k: int| first_bad_pair(b@, k);
                    if k < i {
                        assert(digest_pair(b@, k) is Some);
                    }
                    if k > i {
                        assert(digest_pair(b@, i as int) is Some);
                    }
                    assert(k == i);
                }
                let m = concat("digest is not valid hex at byte ", decimal(i).as_str());
                return Err(m);
            },
        }
    }
    proof {
        if exists|i: int| first_bad_pair(b@, i) {
            let k = choose|k: int| first_bad_pair(b@, k);
            assert(digest_pair(b@, k) is Some);
        }
        assert(out@ =~= Seq::new(32, |i: int| digest_pair(b@, i).unwrap()));
    }
    Ok(out)
}

/// The fields of one JSON object, written after `{"command":<command>`.
pub fn emit(command: &str, fields: &[(String, String)]) -> (r: String)
    ensures
        r@ == json_line(command@, field_views(fields@)),
{
    let mut s = String::new();
    push_char(&mut s, '{');
    s.append("\"command\":");
    let q = jstr(command);
    s.append(q.as_str());
    let ghost head = s@;
    assert(head == seq!['{'] + "\"command\":"@ + json_quoted(command@));
    let n = fields.len();
    for i in 0..n
        invariant
            n == fields@.len(),
            head == seq!['{'] + "\"command\":"@ + json_quoted(command@),
            s@ == head + json_fields(field_views(fields@).subrange(0, i as int)),
    {
        let ghost before = s@;
        push_char(&mut s, ',');
        let k = jstr(fields[i].0.as_str());
        s.append(k.as_str());
        push_char(&mut s, ':');
        s.append(fields[i].1.as_str());
        let ghost fv = field_views(fields@);
        assert(fv.subrange(0, i + 1).drop_last() =~= fv.subrange(0, i as int));
        assert(fv.subrange(0, i + 1).last() == (fields@[i as int].0@, fields@[i as int].1@));
        assert(s@ =~= head + json_fields(fv.subrange(0, i + 1)));
    }
    push_char(&mut s, '}');
    assert(field_views(fields@).subrange(0, n as int) =~= field_views(fields@));
    assert(s@ =~= json_line(command@, field_views(fields@)));
    s
}

/// Reports `msg` for `command`: one line on stderr and an `error` object on
/// stdout, with the given exit code.
pub fn fail(command: &str, msg: &str, code: i32) -> (r: Outcome)
    ensures
        is_failure(r, command@, msg@, code),
        code == EXIT_TRANSPORT || code == EXIT_INVALID ==> one_json_line(r),
{
    let mut line = String::from_str("signer-client ");
    line.append(command);
    line.append(": ");
    line.append(msg);
    let fields = vec![(String::from_str("error"), jstr(msg))];
    let stdout = emit(command, fields.as_slice());
    assert(field_views(fields@) =~= seq![("error"@, json_quoted(msg@))]);
    let stderr = vec![line];
    assert(stderr_lines(Outcome { stdout, stderr, code }) =~= seq![diagnostic(command@, msg@)]);
    let r = Outcome { stdout, stderr, code };
    proof {
        if code == EXIT_TRANSPORT || code == EXIT_INVALID {
            lemma_failure_is_one_json_line(r, command@, msg@, code);
        }
    }
    r
}

/// The usage text.
pub fn usage() -> (r: String)
    ensures
        r@ == usage_text(),
{
    String::from_str(
        "usage:\n  signer-client pubkey            # print the device public key (X||Y hex)\n  signer-client sign <64-hex>     # sign a SHA-256 digest, print r||s hex\n  signer-client version           # print client version\n  signer-client help              # this message",
    )
}

/// The same outcome, with the usage text printed to stderr first.
pub fn with_usage(o: Outcome) -> (r: Outcome)
    ensures
        r.code == o.code,
        r.stdout@ == o.stdout@,
        stderr_lines(r) == seq![usage_text()] + stderr_lines(o),
        one_json_line(o) ==> one_json_line(r),
{
    let ghost before = stderr_lines(o);
    let mut o = o;
    o.stderr.insert(0, usage());
    assert(stderr_lines(o) =~= seq![usage_text()] + before);
    o
}

/// `help`: the usage text on stderr and the list of subcommands.
pub fn cmd_help() -> (r: Outcome)
    ensures
        is_help(r),
        one_json_line(r),
{
    let fields = vec![
        (String::from_str("subcommands"), String::from_str("[\"pubkey\",\"sign\",\"version\",\"help\"]")),
    ];
    let stdout = emit("help", fields.as_slice());
    assert(field_views(fields@) =~= seq![("subcommands"@, "[\"pubkey\",\"sign\",\"version\",\"help\"]"@)]);
    let stderr = vec![usage()];
    let r = Outcome { stdout, stderr, code: EXIT_SUCCESS };
    assert(stderr_lines(r) =~= seq![usage_text()]);
    proof {
        let fs = seq![("subcommands"@, "[\"pubkey\",\"sign\",\"version\",\"help\"]"@)];
        reveal_strlit("[\"pubkey\",\"sign\",\"version\",\"help\"]");
        assert(single_line(fs[0].1));
        lemma_json_line_single_line("help"@, fs);
        assert(json_line("help"@, fs) == r.stdout@);
    }
    r
}

/// `version`: the client's version.
pub fn cmd_version(version: &str) -> (r: Outcome)
    ensures
        is_version(r, version@),
        one_json_line(r),
{
    let fields = vec![(String::from_str("version"), jstr(version))];
    let stdout = emit("version", fields.as_slice());
    assert(field_views(fields@) =~= seq![("version"@, json_quoted(version@))]);
    let r = Outcome { stdout, stderr: Vec::new(), code: EXIT_SUCCESS };
    assert(stderr_lines(r) =~= Seq::<Seq<char>>::empty());
    proof {
        let fs = seq![("version"@, json_quoted(version@))];
        lemma_quoted_single_line(version@);
        assert(fs[0].1 == json_quoted(version@));
        lemma_json_line_single_line("version"@, fs);
        assert(json_line("version"@, fs) == r.stdout@);
    }
    r
}

/// `pubkey`, given the result of reading the public key from the TA: the
/// curve and the key in hex, or the error with the transport exit code.
pub fn cmd_pubkey(res: Result<Vec<u8>, String>) -> (r: Outcome)
    ensures
        res matches Ok(pk) ==> r.code == EXIT_SUCCESS && r.stdout@ == pubkey_line(pk@)
            && stderr_lines(r) == Seq::<Seq<char>>::empty(),
        res matches Err(e) ==> is_failure(r, "pubkey"@, e@, EXIT_TRANSPORT),
        one_json_line(r),
{
    match res {
        Ok(pk) => {
            let fields = vec![
                (String::from_str("curve"), jstr(CURVE)),
                (String::from_str("pubkey"), jstr(hex(pk.as_slice()).as_str())),
            ];
            let stdout = emit("pubkey", fields.as_slice());
            assert(field_views(fields@) =~= seq![
                ("curve"@, json_quoted(CURVE@)),
                ("pubkey"@, json_quoted(hex_of(pk@))),
            ]);
            let r = Outcome { stdout, stderr: Vec::new(), code: EXIT_SUCCESS };
            assert(stderr_lines(r) =~= Seq::<Seq<char>>::empty());
            proof {
                let fs = field_views(fields@);
                lemma_quoted_single_line(CURVE@);
                lemma_quoted_single_line(hex_of(pk@));
                assert(forall|i: int| 0 <= i < fs.len() ==> single_line(#[trigger] fs[i].1));
                lemma_json_line_single_line("pubkey"@, fs);
                assert(json_line("pubkey"@, fs) == r.stdout@);
            }
            r
        },
        Err(e) => fail("pubkey", e.as_str(), EXIT_TRANSPORT),
    }
}

/// `sign`, given the digest and the result of reading the public key and
/// signing the digest: the public key, the digest and the signature in hex,
/// or the error with the transport exit code.
pub fn finish_sign(digest: &[u8], res: Result<(Vec<u8>, Vec<u8>), String>) -> (r: Outcome)
    ensures
        res matches Ok((pk, sig)) ==> r.code == EXIT_SUCCESS && r.stdout@ == sign_line(
            pk@,
            digest@,
            sig@,
        ) && stderr_lines(r) == Seq::<Seq<char>>::empty(),
        res matches Err(e) ==> is_failure(r, "sign"@, e@, EXIT_TRANSPORT),
        one_json_line(r),
{
    match res {
        Ok((pk, sig)) => {
            let fields = vec![
                (String::from_str("curve"), jstr(CURVE)),
                (String::from_str("pubkey"), jstr(hex(pk.as_slice()).as_str())),
                (String::from_str("digest"), jstr(hex(digest).as_str())),
                (String::from_str("signature"), jstr(hex(sig.as_slice()).as_str())),
            ];
            let stdout = emit("sign", fields.as_slice());
            assert(field_views(fields@) =~= seq![
                ("curve"@, json_quoted(CURVE@)),
                ("pubkey"@, json_quoted(hex_of(pk@))),
                ("digest"@, json_quoted(hex_of(digest@))),
                ("signature"@, json_quoted(hex_of(sig@))),
            ]);
            let r = Outcome { stdout, stderr: Vec::new(), code: EXIT_SUCCESS };
            assert(stderr_lines(r) =~= Seq::<Seq<char>>::empty());
            proof {
                let fs = field_views(fields@);
                lemma_quoted_single_line(CURVE@);
                lemma_quoted_single_line(hex_of(pk@));
                lemma_quoted_single_line(hex_of(digest@));
                lemma_quoted_single_line(hex_of(sig@));
                assert(forall|i: int| 0 <= i < fs.len() ==> single_line(#[trigger] fs[i].1));
                lemma_json_line_single_line("sign"@, fs);
                assert(json_line("sign"@, fs) == r.stdout@);
            }
            r
        },
        Err(e) => fail("sign", e.as_str(), EXIT_TRANSPORT),
    }
}

/// The message for a `sign` without exactly one argument.
pub open spec fn sign_usage_message() -> Seq<char> {
    "usage: signer-client sign <64-hex-digest>"@
}

/// The client finishes with a failure report.
pub open spec fn done_failure(r: Next, command: Seq<char>, msg: Seq<char>, code: i32) -> bool {
    r matches Next::Done(o) && is_failure(o, command, msg, code)
}

/// The client finishes with a failure report after the usage text.
pub open spec fn done_usage_failure(r: Next, command: Seq<char>, msg: Seq<char>, code: i32) -> bool {
    r matches Next::Done(o) && is_usage_failure(o, command, msg, code)
}

/// The client finishes with the output of `help`.
pub open spec fn done_help(r: Next) -> bool {
    r matches Next::Done(o) && is_help(o)
}

/// The client finishes with the output of `version`.
pub open spec fn done_version(r: Next, version: Seq<char>) -> bool {
    r matches Next::Done(o) && is_version(o, version)
}

/// What the client does with the single argument of `sign`: sign the digest
/// it denotes, or report why it denotes none.
pub open spec fn sign_step(r: Next, arg: Seq<char>) -> bool {
    match digest_parse(encode_utf8(arg)) {
        Ok(d) => r matches Next::FetchSignature(x) && x@ == d,
        Err(m) => done_failure(r, "sign"@, m, EXIT_INVALID),
    }
}

/// `sign <digest>`: with exactly one argument that parses as a digest, the
/// digest must be signed; otherwise the client reports the problem with the
/// invalid-arguments exit code, before any session is opened.
pub fn cmd_sign(rest: &[String]) -> (r: Next)
    ensures
        r matches Next::Done(o) ==> one_json_line(o),
        rest@.len() != 1 ==> done_failure(r, "sign"@, sign_usage_message(), EXIT_INVALID),
        rest@.len() == 1 ==> sign_step(r, rest@[0]@),
{
    if rest.len() == 1 {
        match parse_digest(rest[0].as_str()) {
            Ok(d) => Next::FetchSignature(d),
            Err(e) => Next::Done(fail("sign", e.as_str(), EXIT_INVALID)),
        }
    } else {
        Next::Done(fail("sign", "usage: signer-client sign <64-hex-digest>", EXIT_INVALID))
    }
}

/// The subcommands, by name.
pub open spec fn is_help_name(s: Seq<char>) -> bool {
    s == "help"@ || s == "--help"@ || s == "-h"@
}

/// The names that ask for the client's version.
pub open spec fn is_version_name(s: Seq<char>) -> bool {
    s == "version"@ || s == "--version"@ || s == "-V"@
}

/// No name selects two subcommands.
proof fn lemma_subcommand_names_distinct()
    ensures
        forall|s: Seq<char>| is_help_name(s) ==> !is_version_name(s) && s != "pubkey"@ && s != "sign"@,
        forall|s: Seq<char>| is_version_name(s) ==> s != "pubkey"@ && s != "sign"@,
        "pubkey"@ != "sign"@,
{
    reveal_strlit("help");
    reveal_strlit("--help");
    reveal_strlit("-h");
    reveal_strlit("version");
    reveal_strlit("--version");
    reveal_strlit("-V");
    reveal_strlit("pubkey");
    reveal_strlit("sign");
    assert("help"@.len() == 4);
    assert("--help"@.len() == 6);
    assert("-h"@.len() == 2);
    assert("version"@.len() == 7);
    assert("--version"@.len() == 9);
    assert("-V"@.len() == 2);
    assert("pubkey"@.len() == 6);
    assert("sign"@.len() == 4);
    assert("help"@[0] != "sign"@[0]);
    assert("--help"@[0] != "pubkey"@[0]);
    assert("-h"@[1] != "-V"@[1]);
}

/// Dispatches the command line (`args[0]` is the program name).
pub fn run(args: &[String], version: &str) -> (r: Next)
    ensures
        r matches Next::Done(o) ==> one_json_line(o),
        args@.len() < 2 ==> done_usage_failure(r, "(none)"@, "missing subcommand"@, EXIT_INVALID),
        args@.len() >= 2 && is_help_name(args@[1]@) ==> done_help(r),
        args@.len() >= 2 && is_version_name(args@[1]@) ==> done_version(r, version@),
        args@.len() >= 2 && args@[1]@ == "pubkey"@ ==> r is FetchPubkey,
        args@.len() >= 2 && args@[1]@ == "sign"@ && args@.len() != 3 ==> done_failure(
            r,
            "sign"@,
            sign_usage_message(),
            EXIT_INVALID,
        ),
        args@.len() == 3 && args@[1]@ == "sign"@ ==> sign_step(r, args@[2]@),
        args@.len() >= 2 && !is_help_name(args@[1]@) && !is_version_name(args@[1]@) && args@[1]@
            != "pubkey"@ && args@[1]@ != "sign"@ ==> done_usage_failure(
            r,
            args@[1]@,
            "unknown subcommand"@,
            EXIT_INVALID,
        ),
{
    if args.len() < 2 {
        let o = with_usage(fail("(none)", "missing subcommand", EXIT_INVALID));
        assert(stderr_lines(o) =~= seq![
            usage_text(),
            diagnostic("(none)"@, "missing subcommand"@),
        ]);
        return Next::Done(o);
    }
    proof {
        lemma_subcommand_names_distinct();
    }
    let sub = args[1].as_str();
    if str_eq(sub, "help") || str_eq(sub, "--help") || str_eq(sub, "-h") {
        assert(is_help_name(sub@));
        Next::Done(cmd_help())
    } else if str_eq(sub, "version") || str_eq(sub, "--version") || str_eq(sub, "-V") {
        assert(is_version_name(sub@));
        Next::Done(cmd_version(version))
    } else if str_eq(sub, "pubkey") {
        Next::FetchPubkey
    } else if str_eq(sub, "sign") {
        let rest = &args[2..args.len()];
        assert(rest@ =~= args@.subrange(2, args@.len() as int));
        if args.len() == 3 {
            assert(rest@[0] == args@[2]);
        }
        let r = cmd_sign(rest);
        if args.len() == 3 {
            assert(sign_step(r, rest@[0]@));
            assert(rest@[0]@ == args@[2]@);
            assert(sign_step(r, args@[2]@));
        }
        r
    } else {
        let o = with_usage(fail(sub, "unknown subcommand", EXIT_INVALID));
        assert(stderr_lines(o) =~= seq![usage_text(), diagnostic(sub@, "unknown subcommand"@)]);
        Next::Done(o)
    }
}

/// The hexadecimal encoding writes each byte, in order, as two lower-case
/// digits: byte `i` becomes the digits at `2i` (its high half) and `2i + 1`
/// (its low half).
pub proof fn lemma_hex_of_index(b: Seq<u8>)
    ensures
        hex_of(b).len() == 2 * b.len(),
        forall|i: int|
            0 <= i < b.len() ==> #[trigger] hex_of(b)[2 * i] == crate::text::hex_digit(
                (b[i] / 16) as int,
            ) && hex_of(b)[2 * i + 1] == crate::text::hex_digit((b[i] % 16) as int),
    decreases b.len(),
{
    if b.len() > 0 {
        lemma_hex_of_index(b.drop_last());
        assert forall|i: int| 0 <= i < b.len() implies #[trigger] hex_of(b)[2 * i]
            == crate::text::hex_digit((b[i] / 16) as int) && hex_of(b)[2 * i + 1]
            == crate::text::hex_digit((b[i] % 16) as int) by {
            if i < b.len() - 1 {
                assert(b.drop_last()[i] == b[i]);
                assert(hex_of(b)[2 * i] == hex_of(b.drop_last())[2 * i]);
            }
        }
    }
}

/// A hexadecimal digit is an ASCII character whose byte reads back as its
/// value.
proof fn lemma_hex_digit_reads_back(v: int)
    requires
        0 <= v < 16,
    ensures
        '\0' <= crate::text::hex_digit(v) <= '\u{7f}',
        hex_value(crate::text::hex_digit(v) as u8) == Some(v as u8),
{
}

/// The digest that the client prints in hex parses back to the same digest:
/// the `digest` field of a `sign` output is accepted by `sign` and denotes
/// the bytes that were signed.
pub proof fn lemma_digest_hex_roundtrip(d: Seq<u8>)
    requires
        d.len() == crate::proto::DIGEST_LEN,
    ensures
        digest_parse(encode_utf8(hex_of(d))) == Ok::<Seq<u8>, Seq<char>>(d),
{
    let t = hex_of(d);
    lemma_hex_of_index(d);
    assert forall|k: int| 0 <= k < t.len() implies '\0' <= #[trigger] t[k] <= '\u{7f}' by {
        let i = k / 2;
        assert(0 <= i < d.len());
        assert(hex_of(d)[2 * i] == crate::text::hex_digit((d[i] / 16) as int));
        lemma_hex_digit_reads_back((d[i] / 16) as int);
        lemma_hex_digit_reads_back((d[i] % 16) as int);
        if k % 2 == 0 {
            assert(k == 2 * i);
        } else {
            assert(k == 2 * i + 1);
        }
    }
    assert(vstd::utf8::is_ascii_chars(t));
    vstd::utf8::is_ascii_chars_encode_utf8(t);
    let b = encode_utf8(t);
    assert forall|i: int| 0 <= i < 32 implies #[trigger] digest_pair(b, i) == Some(d[i]) by {
        lemma_hex_digit_reads_back((d[i] / 16) as int);
        lemma_hex_digit_reads_back((d[i] % 16) as int);
        assert(b[2 * i] == t[2 * i] as u8);
        assert(b[2 * i + 1] == t[2 * i + 1] as u8);
        assert(16 * (d[i] / 16) + d[i] % 16 == d[i]);
    }
    assert forall|i: int| !first_bad_pair(b, i) by {
        if 0 <= i < 32 {
            assert(digest_pair(b, i) is Some);
        }
    }
    assert(Seq::new(32, |i: int| digest_pair(b, i).unwrap()) =~= d);
}

/// A character in lower case, where it is an ASCII capital letter.
pub open spec fn ascii_lower(c: char) -> char {
    if 'A' <= c <= 'Z' {
        ((c as u32) + 32) as char
    } else {
        c
    }
}

/// A string whose UTF-8 encoding holds only bytes below 0x80 is ASCII.
proof fn lemma_ascii_bytes_ascii_chars(s: Seq<char>)
    requires
        forall|k: int| 0 <= k < encode_utf8(s).len() ==> #[trigger] encode_utf8(s)[k] < 128,
    ensures
        vstd::utf8::is_ascii_chars(s),
    decreases s.len(),
{
    if s.len() > 0 {
        let c0 = s[0] as u32;
        let e = vstd::utf8::encode_scalar(c0);
        let rest = s.drop_first();
        assert(encode_utf8(s) == e + encode_utf8(rest));
        assert(e.len() >= 1);
        assert(encode_utf8(s)[0] == e[0]);
        assert(vstd::utf8::leading_byte_width_2(c0) >= 0xC0) by (bit_vector);
        assert(vstd::utf8::leading_byte_width_3(c0) >= 0xC0) by (bit_vector);
        assert(vstd::utf8::leading_byte_width_4(c0) >= 0xC0) by (bit_vector);
        assert(vstd::utf8::has_width_1_encoding(c0));
        assert forall|k: int| 0 <= k < encode_utf8(rest).len() implies #[trigger] encode_utf8(
            rest,
        )[k] < 128 by {
            assert(encode_utf8(rest)[k] == encode_utf8(s)[e.len() + k]);
        }
        lemma_ascii_bytes_ascii_chars(rest);
        assert forall|i: int| 0 <= i < s.len() implies '\0' <= #[trigger] s[i] <= '\u{7f}' by {
            if i > 0 {
                assert(s[i] == rest[i - 1]);
                assert('\0' <= rest[i - 1] <= '\u{7f}');
            } else {
                vstd::utf8::char_u32_cast(s[0], c0);
                assert((c0 as char) == s[0]);
            }
        }
    }
}

/// The hexadecimal digit that `sign` prints for a digit it parsed is that
/// digit in lower case.
proof fn lemma_hex_digit_of_parsed(c: char)
    requires
        '\0' <= c <= '\u{7f}',
        hex_value(c as u8) is Some,
    ensures
        crate::text::hex_digit(hex_value(c as u8).unwrap() as int) == ascii_lower(c),
{
}

/// A pair that does not parse means that some pair is the first that does
/// not.
proof fn lemma_first_bad_pair_exists(b: Seq<u8>, i: int)
    requires
        0 <= i < 32,
        digest_pair(b, i) is None,
    ensures
        exists|k: int| first_bad_pair(b, k),
    decreases i,
{
    if forall|j: int| 0 <= j < i ==> #[trigger] digest_pair(b, j) is Some {
        assert(first_bad_pair(b, i));
    } else {
        let j = choose|j: int| 0 <= j < i && !(#[trigger] digest_pair(b, j) is Some);
        lemma_first_bad_pair_exists(b, j);
    }
}

/// The digest that `sign` prints is the argument it was given, in lower
/// case: parsing reads each pair of hexadecimal digits as one byte, and
/// printing writes each byte back as two lower-case digits.
pub proof fn lemma_printed_digest_is_lowercased_argument(arg: Seq<char>)
    requires
        digest_parse(encode_utf8(arg)) is Ok,
    ensures
        hex_of(digest_parse(encode_utf8(arg))->Ok_0) == arg.map_values(|c: char| ascii_lower(c)),
{
    let b = encode_utf8(arg);
    let d = digest_parse(b)->Ok_0;
    assert(b.len() == 64);
    assert forall|i: int| 0 <= i < 32 implies #[trigger] digest_pair(b, i) is Some by {
        if digest_pair(b, i) is None {
            lemma_first_bad_pair_exists(b, i);
        }
    }
    assert(d == Seq::new(32, |i: int| digest_pair(b, i).unwrap()));
    assert forall|k: int| 0 <= k < b.len() implies #[trigger] b[k] < 128 by {
        let i = k / 2;
        assert(digest_pair(b, i) is Some);
        if k % 2 == 0 {
            assert(k == 2 * i);
        } else {
            assert(k == 2 * i + 1);
        }
    }
    lemma_ascii_bytes_ascii_chars(arg);
    vstd::utf8::is_ascii_chars_encode_utf8(arg);
    lemma_hex_of_index(d);
    let want = arg.map_values(|c: char| ascii_lower(c));
    assert forall|k: int| 0 <= k < 64 implies #[trigger] hex_of(d)[k] == want[k] by {
        let i = k / 2;
        let h = hex_value(b[2 * i]).unwrap();
        let l = hex_value(b[2 * i + 1]).unwrap();
        assert(digest_pair(b, i) is Some);
        assert(d[i] == (16 * h + l) as u8);
        assert(d[i] / 16 == h && d[i] % 16 == l);
        assert(arg[2 * i] as u8 == b[2 * i]);
        assert(arg[2 * i + 1] as u8 == b[2 * i + 1]);
        lemma_hex_digit_of_parsed(arg[2 * i]);
        lemma_hex_digit_of_parsed(arg[2 * i + 1]);
        assert(want[k] == ascii_lower(arg[k]));
        assert(0 <= i < d.len());
        assert(hex_of(d)[2 * i] == crate::text::hex_digit((d[i] / 16) as int));
        assert(hex_of(d)[2 * i + 1] == crate::text::hex_digit((d[i] % 16) as int));
        if k % 2 == 0 {
            assert(k == 2 * i);
        } else {
            assert(k == 2 * i + 1);
        }
    }
    assert(hex_of(d) =~= want);
}

/// A character that JSON escaping leaves as it is.
pub open spec fn json_plain(c: char) -> bool {
    c != '"' && c != '\\' && (c as u32) >= 0x20
}

/// Escaping a string of plain characters leaves it unchanged.
proof fn lemma_escape_plain(t: Seq<char>)
    requires
        forall|i: int| 0 <= i < t.len() ==> json_plain(#[trigger] t[i]),
    ensures
        crate::text::json_escape(t) == t,
    decreases t.len(),
{
    if t.len() > 0 {
        lemma_escape_plain(t.skip(1));
        assert(json_plain(t[0]));
        assert(seq![t[0]] + t.skip(1) =~= t);
    }
}

/// A hexadecimal digit is plain.
proof fn lemma_hex_digit_plain(v: int)
    requires
        0 <= v < 16,
    ensures
        json_plain(crate::text::hex_digit(v)),
{
    if v < 10 {
        assert(crate::text::hex_digit(v) == (48 + v) as char);
        assert(((48 + v) as char) as u32 == 48 + v);
    } else {
        assert(crate::text::hex_digit(v) == (87 + v) as char);
        assert(((87 + v) as char) as u32 == 87 + v);
    }
}

/// Hexadecimal text is plain, so it is quoted as it is.
proof fn lemma_quoted_hex(b: Seq<u8>)
    ensures
        json_quoted(hex_of(b)) == seq!['"'] + hex_of(b) + seq!['"'],
{
    lemma_hex_of_index(b);
    let h = hex_of(b);
    assert forall|k: int| 0 <= k < h.len() implies json_plain(#[trigger] h[k]) by {
        let i = k / 2;
        assert(0 <= i < b.len());
        lemma_hex_digit_plain((b[i] / 16) as int);
        lemma_hex_digit_plain((b[i] % 16) as int);
        assert(h[2 * i] == crate::text::hex_digit((b[i] / 16) as int));
        assert(h[2 * i + 1] == crate::text::hex_digit((b[i] % 16) as int));
        if k % 2 == 0 {
            assert(k == 2 * i);
        } else {
            assert(k == 2 * i + 1);
        }
    }
    lemma_escape_plain(h);
}

/// A literal of plain characters is quoted as it is.
proof fn lemma_quoted_plain(t: Seq<char>)
    requires
        forall|i: int| 0 <= i < t.len() ==> json_plain(#[trigger] t[i]),
    ensures
        json_quoted(t) == seq!['"'] + t + seq!['"'],
{
    lemma_escape_plain(t);
}

/// The members of a JSON object, one more member at a time.
proof fn lemma_fields_push(fs: Seq<(Seq<char>, Seq<char>)>, k: Seq<char>, v: Seq<char>)
    ensures
        json_fields(fs.push((k, v))) == json_fields(fs) + seq![','] + json_quoted(k) + seq![':'] + v,
{
    assert(fs.push((k, v)).drop_last() =~= fs);
}

/// The object line of one or more members, written out.
proof fn lemma_line_of_fields(c: Seq<char>, fs: Seq<(Seq<char>, Seq<char>)>)
    ensures
        json_line(c, fs) == seq!['{'] + "\"command\":"@ + json_quoted(c) + json_fields(fs) + seq!['}'],
{
}

/// What a successful `sign` prints, character for character: the curve,
/// then the public key, the digest and the signature, each as the
/// lower-case hex of its bytes in order (two digits per byte, see
/// `lemma_hex_of_index`).
#[verifier::rlimit(100)]
#[verifier::spinoff_prover]
pub proof fn lemma_sign_line_text(pk: Seq<u8>, digest: Seq<u8>, sig: Seq<u8>)
    ensures
        sign_line(pk, digest, sig) == "{\"command\":\"sign\",\"curve\":\"p256\",\"pubkey\":\""@
            + hex_of(pk) + "\",\"digest\":\""@ + hex_of(digest) + "\",\"signature\":\""@
            + hex_of(sig) + "\"}"@,
{
    let e = Seq::<(Seq<char>, Seq<char>)>::empty();
    let f1 = e.push(("curve"@, json_quoted(CURVE@)));
    let f2 = f1.push(("pubkey"@, json_quoted(hex_of(pk))));
    let f3 = f2.push(("digest"@, json_quoted(hex_of(digest))));
    let f4 = f3.push(("signature"@, json_quoted(hex_of(sig))));
    assert(f4 =~= seq![
        ("curve"@, json_quoted(CURVE@)),
        ("pubkey"@, json_quoted(hex_of(pk))),
        ("digest"@, json_quoted(hex_of(digest))),
        ("signature"@, json_quoted(hex_of(sig))),
    ]);
    lemma_fields_push(e, "curve"@, json_quoted(CURVE@));
    lemma_fields_push(f1, "pubkey"@, json_quoted(hex_of(pk)));
    lemma_fields_push(f2, "digest"@, json_quoted(hex_of(digest)));
    lemma_fields_push(f3, "signature"@, json_quoted(hex_of(sig)));
    lemma_line_of_fields("sign"@, f4);
    reveal_strlit("p256");
    assert(CURVE@ == "p256"@);
    lemma_quoted_plain_words();
    lemma_quoted_hex(pk);
    lemma_quoted_hex(digest);
    lemma_quoted_hex(sig);
    reveal_strlit("{\"command\":\"sign\",\"curve\":\"p256\",\"pubkey\":\"");
    reveal_strlit("\",\"digest\":\"");
    reveal_strlit("\",\"signature\":\"");
    reveal_strlit("\"}");
    reveal_strlit("\"command\":");
    reveal_strlit("sign");
    reveal_strlit("curve");
    reveal_strlit("pubkey");
    reveal_strlit("digest");
    reveal_strlit("signature");
    assert(sign_line(pk, digest, sig) =~= "{\"command\":\"sign\",\"curve\":\"p256\",\"pubkey\":\""@
        + hex_of(pk) + "\",\"digest\":\""@ + hex_of(digest) + "\",\"signature\":\""@ + hex_of(sig)
        + "\"}"@);
}

/// The member names and the curve are quoted as they are.
proof fn lemma_quoted_plain_words()
    ensures
        json_quoted("sign"@) == seq!['"'] + "sign"@ + seq!['"'],
        json_quoted("pubkey"@) == seq!['"'] + "pubkey"@ + seq!['"'],
        json_quoted("curve"@) == seq!['"'] + "curve"@ + seq!['"'],
        json_quoted("p256"@) == seq!['"'] + "p256"@ + seq!['"'],
        json_quoted("digest"@) == seq!['"'] + "digest"@ + seq!['"'],
        json_quoted("signature"@) == seq!['"'] + "signature"@ + seq!['"'],
{
    reveal_strlit("sign");
    reveal_strlit("pubkey");
    reveal_strlit("curve");
    reveal_strlit("p256");
    reveal_strlit("digest");
    reveal_strlit("signature");
    lemma_quoted_plain("sign"@);
    lemma_quoted_plain("pubkey"@);
    lemma_quoted_plain("curve"@);
    lemma_quoted_plain("p256"@);
    lemma_quoted_plain("digest"@);
    lemma_quoted_plain("signature"@);
}

/// What a successful `pubkey` prints, character for character: the curve
/// and the public key as the lower-case hex of its bytes in order.
pub proof fn lemma_pubkey_line_text(pk: Seq<u8>)
    ensures
        pubkey_line(pk) == "{\"command\":\"pubkey\",\"curve\":\"p256\",\"pubkey\":\""@ + hex_of(pk)
            + "\"}"@,
{
    let e = Seq::<(Seq<char>, Seq<char>)>::empty();
    let f1 = e.push(("curve"@, json_quoted(CURVE@)));
    let f2 = f1.push(("pubkey"@, json_quoted(hex_of(pk))));
    assert(f2 =~= seq![("curve"@, json_quoted(CURVE@)), ("pubkey"@, json_quoted(hex_of(pk)))]);
    lemma_fields_push(e, "curve"@, json_quoted(CURVE@));
    lemma_fields_push(f1, "pubkey"@, json_quoted(hex_of(pk)));
    lemma_line_of_fields("pubkey"@, f2);
    reveal_strlit("p256");
    assert(CURVE@ == "p256"@);
    lemma_quoted_plain_words();
    lemma_quoted_hex(pk);
    reveal_strlit("{\"command\":\"pubkey\",\"curve\":\"p256\",\"pubkey\":\"");
    reveal_strlit("\"}");
    reveal_strlit("\"command\":");
    reveal_strlit("curve");
    reveal_strlit("pubkey");
    assert(pubkey_line(pk) =~= "{\"command\":\"pubkey\",\"curve\":\"p256\",\"pubkey\":\""@
        + hex_of(pk) + "\"}"@);
}

} // verus!
