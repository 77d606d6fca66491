use base64::engine::general_purpose;
use base64::Engine;
use vstd::prelude::*;

verus! {

/// The character of the standard base64 alphabet for a six-bit value.
pub open spec fn sextet_char(v: int) -> char {
    if v < 26 {
        (v + 65) as char
    } else if v < 52 {
        (v - 26 + 97) as char
    } else if v < 62 {
        (v - 52 + 48) as char
    } else if v == 62 {
        '+'
    } else {
        '/'
    }
}

/// The six-bit value of a character of the standard base64 alphabet.
pub open spec fn char_sextet(c: char) -> int {
    let k = c as int;
    if 65 <= k <= 90 {
        k - 65
    } else if 97 <= k <= 122 {
        k - 97 + 26
    } else if 48 <= k <= 57 {
        k - 48 + 52
    } else if c == '+' {
        62
    } else {
        63
    }
}

/// Standard base64 (RFC 4648, section 4): each group of three bytes becomes
/// four characters; a final group of one or two bytes is padded with `=`.
pub open spec fn base64_encode(b: Seq<u8>) -> Seq<char>
    decreases b.len(),
{
    if b.len() == 0 {
        seq![]
    } else if b.len() == 1 {
        let b0 = b[0] as int;
        seq![sextet_char(b0 / 4), sextet_char((b0 % 4) * 16), '=', '=']
    } else if b.len() == 2 {
        let (b0, b1) = (b[0] as int, b[1] as int);
        seq![
            sextet_char(b0 / 4),
            sextet_char((b0 % 4) * 16 + b1 / 16),
            sextet_char((b1 % 16) * 4),
            '=',
        ]
    } else {
        let (b0, b1, b2) = (b[0] as int, b[1] as int, b[2] as int);
        seq![
            sextet_char(b0 / 4),
            sextet_char((b0 % 4) * 16 + b1 / 16),
            sextet_char((b1 % 16) * 4 + b2 / 64),
            sextet_char(b2 % 64),
        ] + base64_encode(b.subrange(3, b.len() as int))
    }
}

/// Standard base64 decoding of well-formed text: each group of four
/// characters gives three bytes, or fewer where it ends in `=` padding.
pub open spec fn base64_decode(s: Seq<char>) -> Seq<u8>
    decreases s.len(),
{
    if s.len() < 4 {
        seq![]
    } else {
        let v0 = char_sextet(s[0]);
        let v1 = char_sextet(s[1]);
        let v2 = char_sextet(s[2]);
        let v3 = char_sextet(s[3]);
        let first = (v0 * 4 + v1 / 16) as u8;
        let second = ((v1 % 16) * 16 + v2 / 4) as u8;
        let third = ((v2 % 4) * 64 + v3) as u8;
        let group = if s[2] == '=' {
            seq![first]
        } else if s[3] == '=' {
            seq![first, second]
        } else {
            seq![first, second, third]
        };
        group + base64_decode(s.subrange(4, s.len() as int))
    }
}

proof fn lemma_group_arith(b0: int, b1: int, b2: int)
    requires
        0 <= b0 < 256,
        0 <= b1 < 256,
        0 <= b2 < 256,
    ensures
        (b0 / 4) * 4 + ((b0 % 4) * 16 + b1 / 16) / 16 == b0,
        (((b0 % 4) * 16 + b1 / 16) % 16) * 16 + ((b1 % 16) * 4 + b2 / 64) / 4 == b1,
        ((((b1 % 16) * 4 + b2 / 64) % 4) * 64 + b2 % 64) == b2,
        0 <= b0 / 4 < 64,
        0 <= (b0 % 4) * 16 + b1 / 16 < 64,
        0 <= (b1 % 16) * 4 + b2 / 64 < 64,
        0 <= b2 % 64 < 64,
{
    assert(((b0 % 4) * 16 + b1 / 16) / 16 == b0 % 4) by (nonlinear_arith)
        requires 0 <= b1 / 16 < 16, 0 <= b0 % 4 < 4;
    assert(((b0 % 4) * 16 + b1 / 16) % 16 == b1 / 16) by (nonlinear_arith)
        requires 0 <= b1 / 16 < 16, 0 <= b0 % 4 < 4;
    assert(((b1 % 16) * 4 + b2 / 64) / 4 == b1 % 16) by (nonlinear_arith)
        requires 0 <= b2 / 64 < 4, 0 <= b1 % 16 < 16;
    assert(((b1 % 16) * 4 + b2 / 64) % 4 == b2 / 64) by (nonlinear_arith)
        requires 0 <= b2 / 64 < 4, 0 <= b1 % 16 < 16;
}

proof fn lemma_sextet_inverse(v: int)
    requires
        0 <= v < 64,
    ensures
        char_sextet(sextet_char(v)) == v,
        sextet_char(v) != '=',
{
}

/// Decoding the base64 text of a byte sequence gives back exactly those bytes.
pub proof fn lemma_base64_round_trip(b: Seq<u8>)
    ensures
        base64_decode(base64_encode(b)) == b,
    decreases b.len(),
{
    let e = base64_encode(b);
    if b.len() == 0 {
        assert(base64_decode(e) =~= b);
    } else if b.len() == 1 {
        let b0 = b[0] as int;
        lemma_group_arith(b0, 0, 0);
        lemma_sextet_inverse(b0 / 4);
        lemma_sextet_inverse((b0 % 4) * 16);
        assert(e.subrange(4, e.len() as int) =~= seq![]);
        assert(base64_decode(e.subrange(4, e.len() as int)) =~= seq![]);
        assert(base64_decode(e) =~= b);
    } else if b.len() == 2 {
        let (b0, b1) = (b[0] as int, b[1] as int);
        lemma_group_arith(b0, b1, 0);
        lemma_sextet_inverse(b0 / 4);
        lemma_sextet_inverse((b0 % 4) * 16 + b1 / 16);
        lemma_sextet_inverse((b1 % 16) * 4);
        assert(e.subrange(4, e.len() as int) =~= seq![]);
        assert(base64_decode(e.subrange(4, e.len() as int)) =~= seq![]);
        assert(base64_decode(e) =~= b);
    } else {
        let (b0, b1, b2) = (b[0] as int, b[1] as int, b[2] as int);
        let rest = b.subrange(3, b.len() as int);
        lemma_group_arith(b0, b1, b2);
        lemma_sextet_inverse(b0 / 4);
        lemma_sextet_inverse((b0 % 4) * 16 + b1 / 16);
        lemma_sextet_inverse((b1 % 16) * 4 + b2 / 64);
        lemma_sextet_inverse(b2 % 64);
        lemma_base64_round_trip(rest);
        assert(e.subrange(4, e.len() as int) =~= base64_encode(rest));
        assert(base64_decode(e) =~= b);
    }
}

/// Base64 text is empty exactly when the bytes are.
pub proof fn lemma_base64_empty(b: Seq<u8>)
    ensures
        (base64_encode(b).len() == 0) == (b.len() == 0),
{
}

/// Relies on base64's `Engine::encode` of the `general_purpose::STANDARD`
/// engine: standard alphabet, `=` padding. Its only panic is an overflow of
/// the output length, which no slice can reach.
#[verifier::external_body]
pub(crate) fn encode_base64(bytes: &[u8]) -> (r: String)
    ensures
        r@ == base64_encode(bytes@),
{
    general_purpose::STANDARD.encode(bytes)
}

} // verus!
