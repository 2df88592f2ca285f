//! Standard base64 encoding (RFC 4648 alphabet, `=` padding), used to embed
//! binary mesh buffers in glTF data URIs.

use vstd::prelude::*;

use crate::text::push_char;

verus! {

/// The base64 digit for a 6-bit value `v`.
pub open spec fn b64_digit(v: int) -> char {
    if v < 26 {
        ('A' as int + v) as char
    } else if v < 52 {
        ('a' as int + (v - 26)) as char
    } else if v < 62 {
        ('0' as int + (v - 52)) as char
    } else if v == 62 {
        '+'
    } else {
        '/'
    }
}

/// Encoding of one group of up to three bytes: the 24-bit big-endian value
/// of the group is cut into four 6-bit digits; digits that carry no input
/// bits are replaced by `=`.
#[verifier::opaque]
pub open spec fn b64_group(s: Seq<u8>) -> Seq<char>
    recommends 1 <= s.len() <= 3,
{
    let b0: int = s[0] as int;
    let b1: int = if s.len() > 1 { s[1] as int } else { 0 };
    let b2: int = if s.len() > 2 { s[2] as int } else { 0 };
    let n = b0 * 65536 + b1 * 256 + b2;
    seq![
        b64_digit(n / 262144),
        b64_digit((n / 4096) % 64),
        if s.len() > 1 { b64_digit((n / 64) % 64) } else { '=' },
        if s.len() > 2 { b64_digit(n % 64) } else { '=' },
    ]
}

/// Base64 encoding of a byte sequence, group by group from the front.
pub open spec fn base64_spec(s: Seq<u8>) -> Seq<char>
    decreases s.len(),
{
    if s.len() == 0 {
        seq![]
    } else if s.len() <= 3 {
        b64_group(s)
    } else {
        b64_group(s.take(3)) + base64_spec(s.skip(3))
    }
}

fn digit(v: u32) -> (c: char)
    requires
        v < 64,
    ensures
        c == b64_digit(v as int),
{
    if v < 26 {
        ((65 + v) as u8) as char
    } else if v < 52 {
        ((97 + (v - 26)) as u8) as char
    } else if v < 62 {
        ((48 + (v - 52)) as u8) as char
    } else if v == 62 {
        '+'
    } else {
        '/'
    }
}

proof fn lemma_base64_step(s: Seq<u8>, i: int)
    requires
        0 <= i <= s.len(),
        i % 3 == 0,
    ensures
        base64_spec(s.skip(i)) == if s.len() - i == 0 {
            seq![]
        } else if s.len() - i <= 3 {
            b64_group(s.skip(i))
        } else {
            b64_group(s.skip(i).take(3)) + base64_spec(s.skip(i + 3))
        },
{
    if s.len() - i > 3 {
        assert(s.skip(i).skip(3) =~= s.skip(i + 3));
    }
}

fn push_group3(out: &mut String, a: u8, b: u8, c: u8)
    ensures
        final(out)@ == old(out)@ + b64_group(seq![a, b, c]),
{
    let b0 = a as u32;
    let b1 = b as u32;
    let b2 = c as u32;
    let n: u32 = (b0 << 16) | (b1 << 8) | b2;
    assert(n == b0 * 65536 + b1 * 256 + b2 && (n >> 18) & 0x3F == n / 262144 && (n >> 12)
        & 0x3F == (n / 4096) % 64 && (n >> 6) & 0x3F == (n / 64) % 64 && n & 0x3F == n % 64)
        by (bit_vector)
        requires
            b0 < 256 && b1 < 256 && b2 < 256 && n == (b0 << 16) | (b1 << 8) | b2,
    ;
    push_char(out, digit((n >> 18) & 0x3F));
    push_char(out, digit((n >> 12) & 0x3F));
    push_char(out, digit((n >> 6) & 0x3F));
    push_char(out, digit(n & 0x3F));
    reveal(b64_group);
    assert(final(out)@ =~= old(out)@ + b64_group(seq![a, b, c]));
}

fn push_group2(out: &mut String, a: u8, b: u8)
    ensures
        final(out)@ == old(out)@ + b64_group(seq![a, b]),
{
    let b0 = a as u32;
    let b1 = b as u32;
    let n: u32 = (b0 << 16) | (b1 << 8);
    assert(n == b0 * 65536 + b1 * 256 && (n >> 18) & 0x3F == n / 262144 && (n >> 12) & 0x3F
        == (n / 4096) % 64 && (n >> 6) & 0x3F == (n / 64) % 64) by (bit_vector)
        requires
            b0 < 256 && b1 < 256 && n == (b0 << 16) | (b1 << 8),
    ;
    push_char(out, digit((n >> 18) & 0x3F));
    push_char(out, digit((n >> 12) & 0x3F));
    push_char(out, digit((n >> 6) & 0x3F));
    push_char(out, '=');
    reveal(b64_group);
    assert(final(out)@ =~= old(out)@ + b64_group(seq![a, b]));
}

fn push_group1(out: &mut String, a: u8)
    ensures
        final(out)@ == old(out)@ + b64_group(seq![a]),
{
    let b0 = a as u32;
    let n: u32 = b0 << 16;
    assert(n == b0 * 65536 && (n >> 18) & 0x3F == n / 262144 && (n >> 12) & 0x3F == (n / 4096)
        % 64) by (bit_vector)
        requires
            b0 < 256 && n == b0 << 16,
    ;
    push_char(out, digit((n >> 18) & 0x3F));
    push_char(out, digit((n >> 12) & 0x3F));
    push_char(out, '=');
    push_char(out, '=');
    reveal(b64_group);
    assert(final(out)@ =~= old(out)@ + b64_group(seq![a]));
}

/// Base64-encode a byte slice using the standard alphabet with `=` padding.
pub fn base64_encode(input: &[u8]) -> (out: String)
    ensures
        out@ == base64_spec(input@),
{
    let len = input.len();
    let mut out = String::new();
    let mut i: usize = 0;
    assert(input@.skip(0) =~= input@);
    while len - i >= 3
        invariant
            len == input@.len(),
            i <= len,
            i % 3 == 0,
            base64_spec(input@) == out@ + base64_spec(input@.skip(i as int)),
        decreases len - i,
    {
        proof {
            lemma_base64_step(input@, i as int);
            let g = input@.skip(i as int).take(3);
            assert(g =~= seq![input@[i as int], input@[i + 1], input@[i + 2]]);
            if len - i == 3 {
                assert(input@.skip(i + 3) =~= Seq::<u8>::empty());
                assert(input@.skip(i as int) =~= g);
            }
        }
        let ghost before = out@;
        push_group3(&mut out, input[i], input[i + 1], input[i + 2]);
        assert(out@ + base64_spec(input@.skip(i + 3)) =~= before + (b64_group(
            input@.skip(i as int).take(3),
        ) + base64_spec(input@.skip(i + 3))));
        i = i + 3;
    }
    proof {
        lemma_base64_step(input@, i as int);
    }
    let rem = len - i;
    if rem == 1 {
        assert(input@.skip(i as int) =~= seq![input@[i as int]]);
        push_group1(&mut out, input[i]);
    } else if rem == 2 {
        assert(input@.skip(i as int) =~= seq![input@[i as int], input@[i + 1]]);
        push_group2(&mut out, input[i], input[i + 1]);
    } else {
        assert(out@ =~= out@ + Seq::<char>::empty());
    }
    out
}

/// Length of a base64 encoding: four characters for each started group of
/// three input bytes.
pub proof fn lemma_base64_len(s: Seq<u8>)
    ensures
        base64_spec(s).len() == (s.len() + 2) / 3 * 4,
    decreases s.len(),
{
    reveal(b64_group);
    if s.len() > 3 {
        lemma_base64_len(s.skip(3));
        assert((s.len() + 2) / 3 * 4 == (s.len() - 3 + 2) / 3 * 4 + 4);
    }
}

/// The 6-bit value of a base64 digit (RFC 4648 standard alphabet).
pub open spec fn b64_value(c: char) -> int {
    let x = c as int;
    if 'A' as int <= x <= 'Z' as int {
        x - 'A' as int
    } else if 'a' as int <= x <= 'z' as int {
        x - 'a' as int + 26
    } else if '0' as int <= x <= '9' as int {
        x - '0' as int + 52
    } else if c == '+' {
        62
    } else {
        63
    }
}

/// Decoding of one group of four characters: one, two or three bytes as
/// the group ends in two, one or no `=`.
pub open spec fn b64_decode_group(g: Seq<char>) -> Seq<u8> {
    let n = b64_value(g[0]) * 262144 + b64_value(g[1]) * 4096 + (if g[2] == '=' {
        0
    } else {
        b64_value(g[2]) * 64
    }) + (if g[3] == '=' {
        0
    } else {
        b64_value(g[3])
    });
    if g[2] == '=' {
        seq![(n / 65536) as u8]
    } else if g[3] == '=' {
        seq![(n / 65536) as u8, ((n / 256) % 256) as u8]
    } else {
        seq![(n / 65536) as u8, ((n / 256) % 256) as u8, (n % 256) as u8]
    }
}

/// RFC 4648 base64 decoding, group by group from the front (trailing
/// characters short of a group are ignored).
pub open spec fn base64_decode(t: Seq<char>) -> Seq<u8>
    decreases t.len(),
{
    if t.len() < 4 {
        seq![]
    } else {
        b64_decode_group(t.take(4)) + base64_decode(t.skip(4))
    }
}

proof fn lemma_digit_value(v: int)
    requires
        0 <= v < 64,
    ensures
        b64_value(b64_digit(v)) == v,
        b64_digit(v) != '=',
{
}

proof fn lemma_group_round_trip(s: Seq<u8>)
    requires
        1 <= s.len() <= 3,
    ensures
        b64_group(s).len() == 4,
        b64_decode_group(b64_group(s)) == s,
{
    reveal(b64_group);
    let b0: int = s[0] as int;
    let b1: int = if s.len() > 1 { s[1] as int } else { 0 };
    let b2: int = if s.len() > 2 { s[2] as int } else { 0 };
    let n = b0 * 65536 + b1 * 256 + b2;
    let d0 = n / 262144;
    let d1 = (n / 4096) % 64;
    let d2 = (n / 64) % 64;
    let d3 = n % 64;
    assert(0 <= d0 < 64 && 0 <= d1 < 64 && 0 <= d2 < 64 && 0 <= d3 < 64
        && d0 * 262144 + d1 * 4096 + d2 * 64 + d3 == n
        && n / 65536 == b0 && (n / 256) % 256 == b1 && n % 256 == b2
        && (b2 == 0 ==> d3 == 0) && (b1 == 0 && b2 == 0 ==> d2 == 0)) by (nonlinear_arith)
        requires
            0 <= b0 < 256,
            0 <= b1 < 256,
            0 <= b2 < 256,
            n == b0 * 65536 + b1 * 256 + b2,
            d0 == n / 262144,
            d1 == (n / 4096) % 64,
            d2 == (n / 64) % 64,
            d3 == n % 64,
    ;
    lemma_digit_value(d0);
    lemma_digit_value(d1);
    lemma_digit_value(d2);
    lemma_digit_value(d3);
    let g = b64_group(s);
    assert(b64_decode_group(g) =~= s);
}

/// Decoding gives back what was encoded; so the encoding is injective.
pub proof fn lemma_base64_round_trip(s: Seq<u8>)
    ensures
        base64_decode(base64_spec(s)) == s,
    decreases s.len(),
{
    if s.len() == 0 {
    } else if s.len() <= 3 {
        lemma_group_round_trip(s);
        let g = b64_group(s);
        assert(g.take(4) =~= g);
        assert(g.skip(4) =~= Seq::<char>::empty());
        assert(base64_decode(g.skip(4)) == Seq::<u8>::empty());
        assert(base64_decode(g) == b64_decode_group(g.take(4)) + base64_decode(g.skip(4)));
        assert(base64_decode(g) =~= s);
    } else {
        lemma_group_round_trip(s.take(3));
        lemma_base64_round_trip(s.skip(3));
        let g = b64_group(s.take(3));
        let t = g + base64_spec(s.skip(3));
        assert(t.take(4) =~= g);
        assert(t.skip(4) =~= base64_spec(s.skip(3)));
        assert(base64_decode(t) == b64_decode_group(t.take(4)) + base64_decode(t.skip(4)));
        assert(s.take(3) + s.skip(3) =~= s);
    }
}

/// Different inputs have different encodings.
pub proof fn lemma_base64_injective(a: Seq<u8>, b: Seq<u8>)
    requires
        base64_spec(a) == base64_spec(b),
    ensures
        a == b,
{
    lemma_base64_round_trip(a);
    lemma_base64_round_trip(b);
}

} // verus!
