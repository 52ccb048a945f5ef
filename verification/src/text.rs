//! Text building blocks of the client's output: lowercase hexadecimal,
//! decimal numbers, and JSON string literals.
use vstd::prelude::*;

verus! {

/// Calls `String::push`: appends one character to the string.
#[verifier::external_body]
pub fn push_char(s: &mut String, c: char)
    ensures
        final(s)@ == old(s)@.push(c),
{
    s.push(c);
}

/// The lowercase hexadecimal digit of a value below 16.
pub open spec fn hex_digit(v: int) -> char {
    if v < 10 {
        (48 + v) as char
    } else {
        (87 + v) as char
    }
}

/// The decimal digit of a value below 10.
pub open spec fn dec_digit(v: int) -> char {
    (48 + v) as char
}

/// Two lowercase hexadecimal digits per byte, most significant first.
pub open spec fn hex_of(b: Seq<u8>) -> Seq<char>
    decreases b.len(),
{
    if b.len() == 0 {
        Seq::empty()
    } else {
        hex_of(b.drop_last()) + seq![hex_digit((b.last() / 16) as int), hex_digit((b.last() % 16) as int)]
    }
}

/// The decimal representation of `n`, without leading zeros.
pub open spec fn decimal_of(n: nat) -> Seq<char>
    decreases n,
{
    if n < 10 {
        seq![dec_digit(n as int)]
    } else {
        decimal_of(n / 10) + seq![dec_digit((n % 10) as int)]
    }
}

/// How one character appears inside a JSON string literal: the quote and
/// the backslash are escaped, control characters become `\u00XX`, every
/// other character stands for itself.
pub open spec fn json_escape_char(c: char) -> Seq<char> {
    if c == '"' {
        seq!['\\', '"']
    } else if c == '\\' {
        seq!['\\', '\\']
    } else if (c as u32) < 0x20 {
        seq!['\\', 'u', '0', '0', hex_digit(((c as u32) / 16) as int), hex_digit(((c as u32) % 16) as int)]
    } else {
        seq![c]
    }
}

/// The escaped body of a JSON string literal.
pub open spec fn json_escape(s: Seq<char>) -> Seq<char>
    decreases s.len(),
{
    if s.len() == 0 {
        Seq::empty()
    } else {
        json_escape_char(s[0]) + json_escape(s.skip(1))
    }
}

/// Escaping a string with one more character appends that character's
/// escape.
pub proof fn lemma_json_escape_push(s: Seq<char>, c: char)
    ensures
        json_escape(s.push(c)) == json_escape(s) + json_escape_char(c),
    decreases s.len(),
{
    if s.len() == 0 {
        assert(s.push(c).skip(1) =~= Seq::<char>::empty());
        assert(json_escape(s.push(c).skip(1)) =~= Seq::<char>::empty());
        assert(s.push(c)[0] == c);
        assert(json_escape(s) =~= Seq::<char>::empty());
        assert(json_escape(s.push(c)) =~= json_escape_char(c));
    } else {
        assert(s.push(c)[0] == s[0]);
        assert(s.push(c).skip(1) =~= s.skip(1).push(c));
        lemma_json_escape_push(s.skip(1), c);
        assert(json_escape(s.push(c)) =~= json_escape(s) + json_escape_char(c));
    }
}

/// The value of a hexadecimal digit character, in either case.
pub open spec fn hex_char_value(c: char) -> Option<int> {
    if '0' <= c <= '9' {
        Some(c as int - 48)
    } else if 'a' <= c <= 'f' {
        Some(c as int - 87)
    } else if 'A' <= c <= 'F' {
        Some(c as int - 55)
    } else {
        None
    }
}

/// The code unit that a `\uXXXX` escape denotes, if its four characters
/// are hexadecimal digits.
pub open spec fn unicode_escape_value(t: Seq<char>) -> Option<int>
    recommends
        t.len() >= 6,
{
    match (hex_char_value(t[2]), hex_char_value(t[3]), hex_char_value(t[4]), hex_char_value(t[5])) {
        (Some(a), Some(b), Some(c), Some(d)) => Some(a * 4096 + b * 256 + c * 16 + d),
        _ => None,
    }
}

/// The one-character escapes of JSON other than `\uXXXX`.
pub open spec fn short_escape(c: char) -> Option<char> {
    if c == '"' || c == '\\' || c == '/' {
        Some(c)
    } else if c == 'b' {
        Some('\u{8}')
    } else if c == 'f' {
        Some('\u{c}')
    } else if c == 'n' {
        Some('\n')
    } else if c == 'r' {
        Some('\r')
    } else if c == 't' {
        Some('\t')
    } else {
        None
    }
}

/// Decodes the body of a JSON string literal (RFC 8259): the characters it
/// denotes, or `None` if it holds a bare quote, a raw control character or
/// a malformed escape. A `\uXXXX` escape of a surrogate code unit, which
/// only a pair of escapes can complete, is not decoded.
pub open spec fn json_unescape(t: Seq<char>) -> Option<Seq<char>>
    decreases t.len(),
{
    if t.len() == 0 {
        Some(Seq::empty())
    } else if t[0] == '\\' {
        if t.len() >= 2 && short_escape(t[1]) is Some {
            match json_unescape(t.skip(2)) {
                Some(r) => Some(seq![short_escape(t[1]).unwrap()] + r),
                None => None,
            }
        } else if t.len() >= 6 && t[1] == 'u' && unicode_escape_value(t) is Some {
            let v = unicode_escape_value(t).unwrap();
            if 0xD800 <= v <= 0xDFFF {
                None
            } else {
                match json_unescape(t.skip(6)) {
                    Some(r) => Some(seq![v as char] + r),
                    None => None,
                }
            }
        } else {
            None
        }
    } else if t[0] == '"' || (t[0] as u32) < 0x20 {
        None
    } else {
        match json_unescape(t.skip(1)) {
            Some(r) => Some(seq![t[0]] + r),
            None => None,
        }
    }
}

proof fn lemma_char_code_roundtrip(c: char)
    ensures
        ((c as u32) as int) as char == c,
{
    assert((c as u32) as char == c);
}

/// What `jstr` writes between the quotes reads back, by any JSON decoder,
/// as exactly the string it was given.
pub proof fn lemma_json_string_roundtrip(s: Seq<char>)
    ensures
        json_unescape(json_escape(s)) == Some(s),
    decreases s.len(),
{
    if s.len() > 0 {
        let c = s[0];
        let e = json_escape_char(c);
        let rest = json_escape(s.skip(1));
        lemma_json_string_roundtrip(s.skip(1));
        let t = e + rest;
        assert(json_escape(s) == t);
        if c == '"' || c == '\\' {
            assert(t.skip(2) =~= rest);
        } else if (c as u32) < 0x20 {
            assert(t.skip(6) =~= rest);
            let v = c as u32;
            lemma_char_code_roundtrip(c);
            assert(hex_char_value(hex_digit((v / 16) as int)) == Some((v / 16) as int));
            assert(hex_char_value(hex_digit((v % 16) as int)) == Some((v % 16) as int));
            assert(unicode_escape_value(t) == Some(v as int));
            assert((v as int) as char == c);
        } else {
            assert(t.skip(1) =~= rest);
        }
        assert(seq![c] + s.skip(1) =~= s);
    } else {
        assert(json_escape(s) =~= Seq::<char>::empty());
    }
}

/// The JSON string literal of `s`.
pub open spec fn json_quoted(s: Seq<char>) -> Seq<char> {
    seq!['"'] + json_escape(s) + seq!['"']
}

/// What `jstr` writes is one JSON string literal: a quote, a content that
/// decodes back to exactly the text given, and a closing quote.
pub proof fn lemma_quoted_string_decodes(s: Seq<char>)
    ensures
        json_quoted(s).len() >= 2,
        json_quoted(s)[0] == '"',
        json_quoted(s).last() == '"',
        json_unescape(json_quoted(s).subrange(1, json_quoted(s).len() - 1)) == Some(s),
{
    let q = json_quoted(s);
    assert(q.subrange(1, q.len() - 1) =~= json_escape(s));
    lemma_json_string_roundtrip(s);
}

/// The lowercase hexadecimal digit of `v`.
pub fn hex_digit_char(v: u8) -> (c: char)
    requires
        v < 16,
    ensures
        c == hex_digit(v as int),
{
    if v < 10 {
        (48 + v) as char
    } else {
        (87 + v) as char
    }
}

/// Lowercase hexadecimal encoding of `bytes`, two digits per byte.
pub fn hex(bytes: &[u8]) -> (r: String)
    ensures
        r@ == hex_of(bytes@),
{
    let mut s = String::new();
    let n = bytes.len();
    for i in 0..n
        invariant
            n == bytes@.len(),
            s@ == hex_of(bytes@.subrange(0, i as int)),
    {
        let b = bytes[i];
        push_char(&mut s, hex_digit_char(b / 16));
        push_char(&mut s, hex_digit_char(b % 16));
        assert(bytes@.subrange(0, i + 1).drop_last() =~= bytes@.subrange(0, i as int));
    }
    assert(bytes@.subrange(0, n as int) =~= bytes@);
    s
}

/// Decimal representation of `n`.
pub fn decimal(n: usize) -> (r: String)
    ensures
        r@ == decimal_of(n as nat),
    decreases n,
{
    if n < 10 {
        let mut s = String::new();
        push_char(&mut s, (48 + n as u8) as char);
        assert(s@ =~= decimal_of(n as nat));
        s
    } else {
        let mut s = decimal(n / 10);
        push_char(&mut s, (48 + (n % 10) as u8) as char);
        s
    }
}

/// Whether two strings hold the same characters.
pub fn str_eq(a: &str, b: &str) -> (r: bool)
    ensures
        r == (a@ == b@),
{
    let n = a.unicode_len();
    if n != b.unicode_len() {
        return false;
    }
    for i in 0..n
        invariant
            n == a@.len(),
            n == b@.len(),
            forall|j: int| 0 <= j < i ==> a@[j] == b@[j],
    {
        if a.get_char(i) != b.get_char(i) {
            return false;
        }
    }
    assert(a@ =~= b@);
    true
}

/// The JSON string literal of `s`: in double quotes, with the quote, the
/// backslash and every control character escaped.
pub fn jstr(s: &str) -> (r: String)
    ensures
        r@ == json_quoted(s@),
{
    let mut out = String::new();
    push_char(&mut out, '"');
    let n = s.unicode_len();
    for i in 0..n
        invariant
            n == s@.len(),
            out@ == seq!['"'] + json_escape(s@.subrange(0, i as int)),
    {
        let c = s.get_char(i);
        let ghost before = out@;
        if c == '"' {
            push_char(&mut out, '\\');
            push_char(&mut out, '"');
        } else if c == '\\' {
            push_char(&mut out, '\\');
            push_char(&mut out, '\\');
        } else if (c as u32) < 0x20 {
            let v = c as u32 as u8;
            push_char(&mut out, '\\');
            push_char(&mut out, 'u');
            push_char(&mut out, '0');
            push_char(&mut out, '0');
            push_char(&mut out, hex_digit_char(v / 16));
            push_char(&mut out, hex_digit_char(v % 16));
        } else {
            push_char(&mut out, c);
        }
        assert(out@ =~= before + json_escape_char(c));
        assert(s@.subrange(0, i + 1) =~= s@.subrange(0, i as int).push(c));
        proof {
            lemma_json_escape_push(s@.subrange(0, i as int), c);
        }
    }
    push_char(&mut out, '"');
    assert(s@.subrange(0, n as int) =~= s@);
    out
}

} // verus!
