//! Base64 (standard alphabet, `=` padding).
use vstd::prelude::*;
use crate::text::{push_char, string_from_chars};

verus! {

/// The base64 digit for `v < 64`.
pub open spec fn b64_digit(v: int) -> char {
    if v < 26 {
        (65 + v) as char
    } else if v < 52 {
        (97 + (v - 26)) as char
    } else if v < 62 {
        (48 + (v - 52)) as char
    } else if v == 62 {
        '+'
    } else {
        '/'
    }
}

/// The base64 encoding of `data`: every group of three bytes becomes four
/// digits of six bits each; a final group of one or two bytes is padded
/// with `=`.
pub open spec fn base64(data: Seq<u8>) -> Seq<char>
    decreases data.len(),
{
    if data.len() == 0 {
        Seq::empty()
    } else if data.len() == 1 {
        let b0 = data[0] as int;
        seq![b64_digit(b0 / 4), b64_digit((b0 % 4) * 16), '=', '=']
    } else if data.len() == 2 {
        let b0 = data[0] as int;
        let b1 = data[1] as int;
        seq![b64_digit(b0 / 4), b64_digit((b0 % 4) * 16 + b1 / 16), b64_digit((b1 % 16) * 4), '=']
    } else {
        let b0 = data[0] as int;
        let b1 = data[1] as int;
        let b2 = data[2] as int;
        seq![
            b64_digit(b0 / 4),
            b64_digit((b0 % 4) * 16 + b1 / 16),
            b64_digit((b1 % 16) * 4 + b2 / 64),
            b64_digit(b2 % 64),
        ] + base64(data.skip(3))
    }
}

fn digit(v: u32) -> (c: char)
    requires
        v < 64,
    ensures
        c == b64_digit(v as int),
{
    if v < 26 {
        ((65 + v) as u8) as char
    } else if v < 52 {
        ((97 + (v - 26)) as u8) as char
    } else if v < 62 {
        ((48 + (v - 52)) as u8) as char
    } else if v == 62 {
        '+'
    } else {
        '/'
    }
}

proof fn lemma_base64_step(data: Seq<u8>, i: int)
    requires
        0 <= i < data.len(),
    ensures
        data.skip(i).len() >= 3 ==> data.skip(i).skip(3) =~= data.skip(i + 3),
{
}

/// Base64-encodes `data` (standard alphabet, padded).
pub fn base64_encode(data: &[u8]) -> (s: String)
    ensures
        s@ == base64(data@),
{
    let mut out: Vec<char> = Vec::new();
    let mut i: usize = 0;
    assert(data@.skip(0) =~= data@);
    while i < data.len()
        invariant
            i <= data@.len(),
            out@ + base64(data@.skip(i as int)) == base64(data@),
        decreases data.len() - i,
    {
        let rest = data.len() - i;
        let b0 = data[i] as u32;
        let b1: u32 = if rest > 1 { data[i + 1] as u32 } else { 0 };
        let b2: u32 = if rest > 2 { data[i + 2] as u32 } else { 0 };
        let n: u32 = (b0 << 16) | (b1 << 8) | b2;
        assert(((n >> 18) & 63) == b0 / 4 && ((n >> 12) & 63) == (b0 % 4) * 16 + b1 / 16 && ((n >> 6)
            & 63) == (b1 % 16) * 4 + b2 / 64 && (n & 63) == b2 % 64) by (bit_vector)
            requires
                b0 < 256,
                b1 < 256,
                b2 < 256,
                n == (b0 << 16) | (b1 << 8) | b2,
        ;
        let ghost t = data@.skip(i as int);
        let ghost before = out@;
        out.push(digit((n >> 18) & 63));
        out.push(digit((n >> 12) & 63));
        out.push(if rest > 1 { digit((n >> 6) & 63) } else { '=' });
        out.push(if rest > 2 { digit(n & 63) } else { '=' });
        proof {
            assert(t[0] == data@[i as int]);
            if rest > 2 {
                assert(t[1] == data@[i + 1]);
                assert(t[2] == data@[i + 2]);
                lemma_base64_step(data@, i as int);
                assert(out@ + base64(data@.skip(i + 3)) =~= before + base64(t));
            } else {
                if rest > 1 {
                    assert(t[1] == data@[i + 1]);
                }
                assert(data@.skip(data@.len() as int) =~= Seq::<u8>::empty());
                assert(out@ =~= before + base64(t));
            }
        }
        i = if rest > 2 { i + 3 } else { data.len() };
    }
    assert(data@.skip(i as int) =~= Seq::<u8>::empty());
    assert(out@ + Seq::<char>::empty() =~= out@);
    string_from_chars(out.as_slice())
}

/// Base64-encodes `data` as the WebSocket handshake does (standard
/// alphabet, padded).
pub fn b64(data: &[u8]) -> (s: String)
    ensures
        s@ == base64(data@),
{
    let mut out = String::new();
    let mut i: usize = 0;
    assert(data@.skip(0) =~= data@);
    while i < data.len()
        invariant
            i <= data@.len(),
            out@ + base64(data@.skip(i as int)) == base64(data@),
        decreases data.len() - i,
    {
        let rest = data.len() - i;
        let c0 = data[i] as u32;
        let c1: u32 = if rest > 1 { data[i + 1] as u32 } else { 0 };
        let c2: u32 = if rest > 2 { data[i + 2] as u32 } else { 0 };
        assert((c0 >> 2) == c0 / 4 && (((c0 & 3) << 4) | (c1 >> 4)) == (c0 % 4) * 16 + c1 / 16 && (((c1
            & 0xf) << 2) | (c2 >> 6)) == (c1 % 16) * 4 + c2 / 64 && (c2 & 0x3f) == c2 % 64 && (c0 >> 2)
            < 64 && (((c0 & 3) << 4) | (c1 >> 4)) < 64 && (((c1 & 0xf) << 2) | (c2 >> 6)) < 64) by (
        bit_vector)
            requires
                c0 < 256,
                c1 < 256,
                c2 < 256,
        ;
        let ghost t = data@.skip(i as int);
        let ghost before = out@;
        push_char(&mut out, digit(c0 >> 2));
        push_char(&mut out, digit(((c0 & 3) << 4) | (c1 >> 4)));
        push_char(&mut out, if rest > 1 { digit(((c1 & 0xf) << 2) | (c2 >> 6)) } else { '=' });
        push_char(&mut out, if rest > 2 { digit(c2 & 0x3f) } else { '=' });
        proof {
            assert(t[0] == data@[i as int]);
            if rest > 2 {
                assert(t[1] == data@[i + 1]);
                assert(t[2] == data@[i + 2]);
                lemma_base64_step(data@, i as int);
                assert(out@ + base64(data@.skip(i + 3)) =~= before + base64(t));
            } else {
                if rest > 1 {
                    assert(t[1] == data@[i + 1]);
                }
                assert(data@.skip(data@.len() as int) =~= Seq::<u8>::empty());
                assert(out@ =~= before + base64(t));
            }
        }
        i = if rest > 2 { i + 3 } else { data.len() };
    }
    assert(data@.skip(i as int) =~= Seq::<u8>::empty());
    assert(out@ + Seq::<char>::empty() =~= out@);
    out
}

/// The base64 text is four chars for every started group of three bytes.
pub proof fn lemma_base64_len(data: Seq<u8>)
    ensures
        base64(data).len() == (data.len() + 2) / 3 * 4,
    decreases data.len(),
{
    if data.len() > 2 {
        lemma_base64_len(data.skip(3));
    }
}

/// Base64 of a concatenation whose first part is a whole number of groups
/// is the concatenation of the encodings.
pub proof fn lemma_base64_concat(a: Seq<u8>, b: Seq<u8>)
    requires
        a.len() % 3 == 0,
    ensures
        base64(a + b) == base64(a) + base64(b),
    decreases a.len(),
{
    if a.len() == 0 {
        assert(a + b =~= b);
    } else {
        assert((a + b).skip(3) =~= a.skip(3) + b);
        lemma_base64_concat(a.skip(3), b);
        assert((a + b)[0] == a[0] && (a + b)[1] == a[1] && (a + b)[2] == a[2]);
    }
}

} // verus!
