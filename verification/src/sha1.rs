//! SHA-1 (FIPS 180-4), used for the WebSocket handshake's accept key.
use vstd::prelude::*;
use vstd::string::*;
use crate::frames::{be_bytes, be_encode};
use crate::codec::{b64, base64};

verus! {

/// Five words of hash state.
pub type Sha1State = (u32, u32, u32, u32, u32);

/// The initial hash state.
pub open spec fn h0() -> Sha1State {
    (0x67452301u32, 0xEFCDAB89u32, 0x98BADCFEu32, 0x10325476u32, 0xC3D2E1F0u32)
}

/// Addition modulo 2^32.
pub open spec fn wadd(x: u32, y: u32) -> u32 {
    vstd::wrapping::u32_specs::wrapping_add(x, y)
}

pub open spec fn rotl1(x: u32) -> u32 {
    (x << 1u32) | (x >> 31u32)
}

pub open spec fn rotl5(x: u32) -> u32 {
    (x << 5u32) | (x >> 27u32)
}

pub open spec fn rotl30(x: u32) -> u32 {
    (x << 30u32) | (x >> 2u32)
}

/// The big-endian word at byte `i` of `b`.
pub open spec fn be32(b: Seq<u8>, i: int) -> u32 {
    (b[i] as int * 0x1000000 + b[i + 1] as int * 0x10000 + b[i + 2] as int * 0x100 + b[i + 3] as int) as u32
}

/// Word `t` of the message schedule of `block`, given the words before it.
pub open spec fn sched_word(block: Seq<u8>, prev: Seq<u32>, t: int) -> u32 {
    if t < 16 {
        be32(block, 4 * t)
    } else {
        rotl1(prev[t - 3] ^ prev[t - 8] ^ prev[t - 14] ^ prev[t - 16])
    }
}

/// The first `t` words of the message schedule of `block`.
pub open spec fn sched(block: Seq<u8>, t: nat) -> Seq<u32>
    decreases t,
{
    if t == 0 {
        seq![]
    } else {
        let prev = sched(block, (t - 1) as nat);
        prev.push(sched_word(block, prev, t - 1))
    }
}

/// The round function and constant of round `t`.
pub open spec fn f_k(t: int, b: u32, c: u32, d: u32) -> (u32, u32) {
    if t < 20 {
        ((b & c) | (!b & d), 0x5A827999u32)
    } else if t < 40 {
        (b ^ c ^ d, 0x6ED9EBA1u32)
    } else if t < 60 {
        ((b & c) | (b & d) | (c & d), 0x8F1BBCDCu32)
    } else {
        (b ^ c ^ d, 0xCA62C1D6u32)
    }
}

/// One round applied to `s` with the schedule word `wt`.
pub open spec fn round(s: Sha1State, t: int, wt: u32) -> Sha1State {
    let fk = f_k(t, s.1, s.2, s.3);
    let temp = wadd(wadd(wadd(wadd(rotl5(s.0), fk.0), s.4), fk.1), wt);
    (temp, s.0, rotl30(s.1), s.2, s.3)
}

/// The first `t` rounds applied to `s` with the schedule `w`.
pub open spec fn rounds(s: Sha1State, w: Seq<u32>, t: nat) -> Sha1State
    decreases t,
{
    if t == 0 {
        s
    } else {
        round(rounds(s, w, (t - 1) as nat), t - 1, w[t - 1])
    }
}

/// The state after absorbing one 64-byte block.
pub open spec fn compress(h: Sha1State, block: Seq<u8>) -> Sha1State {
    let r = rounds(h, sched(block, 80), 80);
    (wadd(h.0, r.0), wadd(h.1, r.1), wadd(h.2, r.2), wadd(h.3, r.3), wadd(h.4, r.4))
}

/// The state after absorbing the first `k` blocks of `m`.
pub open spec fn absorb(m: Seq<u8>, k: nat) -> Sha1State
    decreases k,
{
    if k == 0 {
        h0()
    } else {
        compress(absorb(m, (k - 1) as nat), m.subrange(64 * (k - 1), 64 * k as int))
    }
}

/// Zero bytes of padding after the `0x80` marker for a message of `n`
/// bytes.
pub open spec fn pad_zeros(n: nat) -> nat {
    ((56 + 64 - ((n + 1) % 64)) % 64) as nat
}

/// The padded message: the data, `0x80`, zeros up to 56 mod 64, and the
/// bit length as eight big-endian bytes.
pub open spec fn padded(data: Seq<u8>) -> Seq<u8> {
    data + seq![0x80u8] + Seq::new(pad_zeros(data.len()), |i: int| 0u8) + be_bytes(data.len() * 8, 8)
}

/// The bytes of a hash state, word by word, big-endian.
pub open spec fn state_bytes(h: Sha1State) -> Seq<u8> {
    be_bytes(h.0 as nat, 4) + be_bytes(h.1 as nat, 4) + be_bytes(h.2 as nat, 4) + be_bytes(h.3 as nat, 4)
        + be_bytes(h.4 as nat, 4)
}

/// The SHA-1 digest of `data`.
pub open spec fn sha1_digest(data: Seq<u8>) -> Seq<u8> {
    let m = padded(data);
    state_bytes(absorb(m, m.len() / 64))
}

fn pad_message(data: &[u8]) -> (m: Vec<u8>)
    requires
        data@.len() * 8 <= u64::MAX,
    ensures
        m@ == padded(data@),
        m@.len() % 64 == 0,
{
    let mut m: Vec<u8> = Vec::new();
    m.extend_from_slice(data);
    m.push(0x80);
    let n = data.len();
    let z = (56 + 64 - ((n % 64 + 1) % 64)) % 64;
    assert((n % 64 + 1) % 64 == (n + 1) % 64) by (nonlinear_arith);
    let ghost head = m@;
    let mut i: usize = 0;
    while i < z
        invariant
            i <= z,
            m@ == head + Seq::new(i as nat, |k: int| 0u8),
        decreases z - i,
    {
        m.push(0);
        assert(m@ =~= head + Seq::new((i + 1) as nat, |k: int| 0u8));
        i += 1;
    }
    let ml = be_encode((n as u64) * 8, 8);
    proof {
        lemma_be_len((n * 8) as nat, 8);
    }
    m.extend_from_slice(ml.as_slice());
    assert(m@ =~= padded(data@));
    assert((n + 1 + z + 8) % 64 == 0) by (nonlinear_arith)
        requires
            z == (56 + 64 - ((n + 1) % 64)) % 64,
    ;
    m
}

fn word_at(b: &[u8], i: usize) -> (w: u32)
    requires
        i + 4 <= b@.len(),
    ensures
        w == be32(b@, i as int),
{
    (b[i] as u32) * 0x1000000 + (b[i + 1] as u32) * 0x10000 + (b[i + 2] as u32) * 0x100 + (b[i + 3] as u32)
}

fn schedule(block: &[u8]) -> (w: Vec<u32>)
    requires
        block@.len() == 64,
    ensures
        w@ == sched(block@, 80),
{
    let mut w: Vec<u32> = Vec::new();
    let mut t: usize = 0;
    while t < 80
        invariant
            t <= 80,
            block@.len() == 64,
            w@ == sched(block@, t as nat),
            w@.len() == t,
        decreases 80 - t,
    {
        let x = if t < 16 {
            word_at(block, 4 * t)
        } else {
            let v = w[t - 3] ^ w[t - 8] ^ w[t - 14] ^ w[t - 16];
            (v << 1u32) | (v >> 31u32)
        };
        w.push(x);
        t += 1;
    }
    w
}

fn compress_exec(h: Sha1State, block: &[u8]) -> (r: Sha1State)
    requires
        block@.len() == 64,
    ensures
        r == compress(h, block@),
{
    let w = schedule(block);
    proof {
        lemma_sched_len(block@, 80);
    }
    let (mut a, mut b, mut c, mut d, mut e) = h;
    let mut t: usize = 0;
    while t < 80
        invariant
            t <= 80,
            w@ == sched(block@, 80),
            w@.len() == 80,
            (a, b, c, d, e) == rounds(h, w@, t as nat),
        decreases 80 - t,
    {
        let (f, k) = if t < 20 {
            ((b & c) | (!b & d), 0x5A827999u32)
        } else if t < 40 {
            (b ^ c ^ d, 0x6ED9EBA1u32)
        } else if t < 60 {
            ((b & c) | (b & d) | (c & d), 0x8F1BBCDCu32)
        } else {
            (b ^ c ^ d, 0xCA62C1D6u32)
        };
        let r5 = (a << 5u32) | (a >> 27u32);
        let temp = r5.wrapping_add(f).wrapping_add(e).wrapping_add(k).wrapping_add(w[t]);
        e = d;
        d = c;
        c = (b << 30u32) | (b >> 2u32);
        b = a;
        a = temp;
        t += 1;
    }
    let (h0, h1, h2, h3, h4) = h;
    (h0.wrapping_add(a), h1.wrapping_add(b), h2.wrapping_add(c), h3.wrapping_add(d), h4.wrapping_add(e))
}

/// The SHA-1 digest of `data`.
pub fn sha1(data: &[u8]) -> (out: Vec<u8>)
    requires
        data@.len() * 8 <= u64::MAX,
    ensures
        out@ == sha1_digest(data@),
        out@.len() == 20,
{
    let m = pad_message(data);
    let mlen = m.len();
    let nblocks = mlen / 64;
    let mut h: Sha1State = (0x67452301u32, 0xEFCDAB89u32, 0x98BADCFEu32, 0x10325476u32, 0xC3D2E1F0u32);
    let mut k: usize = 0;
    while k < nblocks
        invariant
            k <= nblocks,
            nblocks == m@.len() / 64,
            mlen == m@.len(),
            m@.len() % 64 == 0,
            h == absorb(m@, k as nat),
        decreases nblocks - k,
    {
        assert(64 * k + 64 <= m@.len()) by (nonlinear_arith)
            requires
                k < nblocks,
                nblocks == m@.len() / 64,
                m@.len() % 64 == 0,
        ;
        let block = &m.as_slice()[64 * k..64 * k + 64];
        assert(block@ =~= m@.subrange(64 * k, 64 * k + 64));
        h = compress_exec(h, block);
        k += 1;
    }
    let mut out: Vec<u8> = Vec::new();
    let (h0, h1, h2, h3, h4) = h;
    out.extend_from_slice(be_encode(h0 as u64, 4).as_slice());
    out.extend_from_slice(be_encode(h1 as u64, 4).as_slice());
    out.extend_from_slice(be_encode(h2 as u64, 4).as_slice());
    out.extend_from_slice(be_encode(h3 as u64, 4).as_slice());
    out.extend_from_slice(be_encode(h4 as u64, 4).as_slice());
    proof {
        lemma_be_len(h0 as nat, 4);
        lemma_be_len(h1 as nat, 4);
        lemma_be_len(h2 as nat, 4);
        lemma_be_len(h3 as nat, 4);
        lemma_be_len(h4 as nat, 4);
    }
    assert(out@ =~= state_bytes(h));
    out
}

proof fn lemma_sched_len(block: Seq<u8>, t: nat)
    ensures
        sched(block, t).len() == t,
    decreases t,
{
    if t > 0 {
        lemma_sched_len(block, (t - 1) as nat);
    }
}

proof fn lemma_be_len(n: nat, k: nat)
    ensures
        be_bytes(n, k).len() == k,
    decreases k,
{
    if k > 0 {
        lemma_be_len(n / 256, (k - 1) as nat);
    }
}

/// The GUID that RFC 6455 appends to the client's key.
pub open spec fn ws_guid() -> Seq<char> {
    "258EAFA5-E914-47DA-95CA-C5AB0DC85B11"@
}

/// The `Sec-WebSocket-Accept` value for the client key `key`: base64 of
/// the SHA-1 of the key followed by the GUID.
pub open spec fn accept_for(key: Seq<char>) -> Seq<char> {
    base64(sha1_digest(vstd::utf8::encode_utf8(key + ws_guid())))
}

/// The accept key the server answers an upgrade request with.
pub fn accept_key(key: &str) -> (r: String)
    requires
        vstd::utf8::encode_utf8(key@ + ws_guid()).len() * 8 <= u64::MAX,
    ensures
        r@ == accept_for(key@),
{
    let mut s = String::from_str(key);
    s.append("258EAFA5-E914-47DA-95CA-C5AB0DC85B11");
    let bytes = s.as_str().as_bytes();
    let d = sha1(bytes);
    b64(d.as_slice())
}

} // verus!
