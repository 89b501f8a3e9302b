//! WebSocket framing (RFC 6455) as the server and the remote client speak
//! it: single-fragment frames, unmasked from the server, masked with a
//! fixed key from the client.
use vstd::prelude::*;

verus! {

/// Opcode of a text frame.
pub const OP_TEXT: u8 = 1;
/// Opcode of a close frame.
pub const OP_CLOSE: u8 = 8;
/// Opcode of a ping frame.
pub const OP_PING: u8 = 9;
/// Opcode of a pong frame.
pub const OP_PONG: u8 = 10;

/// The masking key the client puts on every frame it sends.
pub open spec fn client_mask() -> Seq<u8> {
    seq![0x37u8, 0x4fu8, 0x2au8, 0x8cu8]
}

/// `256^k`.
pub open spec fn pow256(k: nat) -> nat
    decreases k,
{
    if k == 0 {
        1
    } else {
        256 * pow256((k - 1) as nat)
    }
}

/// The `k` low bytes of `n`, most significant first.
pub open spec fn be_bytes(n: nat, k: nat) -> Seq<u8>
    decreases k,
{
    if k == 0 {
        seq![]
    } else {
        be_bytes(n / 256, (k - 1) as nat).push((n % 256) as u8)
    }
}

/// The number that the big-endian bytes `b` spell.
pub open spec fn be_value(b: Seq<u8>) -> nat
    decreases b.len(),
{
    if b.len() == 0 {
        0
    } else {
        be_value(b.drop_last()) * 256 + (b.last() as nat)
    }
}

/// `b` with each byte xored with the mask byte at its position mod 4.
pub open spec fn masked(b: Seq<u8>, mask: Seq<u8>) -> Seq<u8> {
    Seq::new(b.len(), |i: int| b[i] ^ mask[i % 4])
}

/// The length field of a frame: the 7-bit code (with the mask bit when
/// `mask_bit`) and the extended length bytes.
pub open spec fn length_field(n: nat, mask_bit: bool) -> Seq<u8> {
    let m: u8 = if mask_bit { 0x80 } else { 0 };
    if n < 126 {
        seq![m | (n as u8)]
    } else if n < 65536 {
        seq![m | 126u8] + be_bytes(n, 2)
    } else {
        seq![m | 127u8] + be_bytes(n, 8)
    }
}

/// A final frame with opcode `op` carrying `payload`, as the server sends
/// it.
pub open spec fn server_frame(op: u8, payload: Seq<u8>) -> Seq<u8> {
    seq![0x80u8 | op] + length_field(payload.len(), false) + payload
}

/// A final frame with opcode `op` carrying `payload`, as the client sends
/// it: masked with `client_mask`.
pub open spec fn client_frame(op: u8, payload: Seq<u8>) -> Seq<u8> {
    seq![0x80u8 | op] + length_field(payload.len(), true) + client_mask() + masked(
        payload,
        client_mask(),
    )
}

/// The `k` low bytes of `n`, most significant first.
pub fn be_encode(n: u64, k: usize) -> (v: Vec<u8>)
    ensures
        v@ == be_bytes(n as nat, k as nat),
    decreases k,
{
    if k == 0 {
        Vec::new()
    } else {
        let mut v = be_encode(n / 256, k - 1);
        v.push((n % 256) as u8);
        v
    }
}

fn length_bytes(n: usize, mask_bit: bool) -> (v: Vec<u8>)
    ensures
        v@ == length_field(n as nat, mask_bit),
{
    let m: u8 = if mask_bit {
        0x80
    } else {
        0
    };
    if n < 126 {
        vec![m | (n as u8)]
    } else if n < 65536 {
        let mut v = vec![m | 126u8];
        let e = be_encode(n as u64, 2);
        v.extend_from_slice(e.as_slice());
        assert(v@ =~= seq![m | 126u8] + be_bytes(n as nat, 2));
        v
    } else {
        let mut v = vec![m | 127u8];
        let e = be_encode(n as u64, 8);
        v.extend_from_slice(e.as_slice());
        assert(v@ =~= seq![m | 127u8] + be_bytes(n as nat, 8));
        v
    }
}

/// The bytes of a server frame with opcode `opcode` carrying `payload`.
pub fn encode_frame(opcode: u8, payload: &[u8]) -> (f: Vec<u8>)
    ensures
        f@ == server_frame(opcode, payload@),
{
    let mut f = vec![0x80u8 | opcode];
    let l = length_bytes(payload.len(), false);
    f.extend_from_slice(l.as_slice());
    f.extend_from_slice(payload);
    assert(f@ =~= server_frame(opcode, payload@));
    f
}

fn mask_byte(i: usize) -> (b: u8)
    ensures
        b == client_mask()[(i % 4) as int],
{
    let k = i % 4;
    if k == 0 {
        0x37
    } else if k == 1 {
        0x4f
    } else if k == 2 {
        0x2a
    } else {
        0x8c
    }
}

/// The bytes of a client frame with opcode `opcode` carrying `payload`.
pub fn encode_client_frame(opcode: u8, payload: &[u8]) -> (f: Vec<u8>)
    ensures
        f@ == client_frame(opcode, payload@),
{
    let mut f = vec![0x80u8 | opcode];
    let l = length_bytes(payload.len(), true);
    f.extend_from_slice(l.as_slice());
    let key = vec![0x37u8, 0x4fu8, 0x2au8, 0x8cu8];
    assert(key@ == client_mask());
    f.extend_from_slice(key.as_slice());
    let ghost head = f@;
    let mut i: usize = 0;
    while i < payload.len()
        invariant
            i <= payload@.len(),
            f@ == head + masked(payload@.take(i as int), client_mask()),
        decreases payload.len() - i,
    {
        f.push(payload[i] ^ mask_byte(i));
        assert(masked(payload@.take(i + 1), client_mask()) =~= masked(payload@.take(i as int), client_mask()).push(
            payload@[i as int] ^ client_mask()[(i % 4) as int],
        ));
        i += 1;
    }
    assert(payload@.take(payload@.len() as int) =~= payload@);
    assert(f@ =~= client_frame(opcode, payload@));
    f
}

// ── reading ───────────────────────────────────────────────────────────────

/// The fields of a frame's first two bytes: opcode, whether the payload is
/// masked, and the 7-bit length code.
pub open spec fn header_fields(b0: u8, b1: u8) -> (u8, bool, u8) {
    (b0 & 0x0f, (b1 & 0x80) != 0, b1 & 0x7f)
}

/// Reads the fields of a frame's first two bytes.
pub fn frame_header(b0: u8, b1: u8) -> (r: (u8, bool, u8))
    ensures
        r == header_fields(b0, b1),
{
    (b0 & 0x0f, (b1 & 0x80) != 0, b1 & 0x7f)
}

/// Number of extended length bytes after a 7-bit length code.
pub open spec fn ext_len_size(len7: u8) -> nat {
    if len7 == 126 {
        2
    } else if len7 == 127 {
        8
    } else {
        0
    }
}

/// Number of extended length bytes that follow the 7-bit length code
/// `len7`.
pub fn extended_length_size(len7: u8) -> (n: usize)
    ensures
        n == ext_len_size(len7),
{
    if len7 == 126 {
        2
    } else if len7 == 127 {
        8
    } else {
        0
    }
}

/// The payload length a frame declares.
pub open spec fn declared_len(len7: u8, ext: Seq<u8>) -> nat {
    if len7 < 126 {
        len7 as nat
    } else {
        be_value(ext)
    }
}

proof fn lemma_be_value_bound(b: Seq<u8>)
    ensures
        be_value(b) < pow256(b.len()),
    decreases b.len(),
{
    if b.len() > 0 {
        lemma_be_value_bound(b.drop_last());
        assert(be_value(b.drop_last()) * 256 + 256 <= pow256((b.len() - 1) as nat) * 256) by (nonlinear_arith)
            requires
                be_value(b.drop_last()) < pow256((b.len() - 1) as nat),
        ;
    }
}

/// The payload length declared by the length code `len7` and the
/// extended length bytes `ext`.
pub fn payload_length(len7: u8, ext: &[u8]) -> (n: u64)
    requires
        len7 < 126 || ext@.len() == ext_len_size(len7),
    ensures
        n == declared_len(len7, ext@),
{
    if len7 < 126 {
        return len7 as u64;
    }
    proof {
        reveal_with_fuel(pow256, 9);
        assert(pow256(8) == 0x1_0000_0000_0000_0000);
    }
    let mut acc: u64 = 0;
    let mut i: usize = 0;
    assert(ext@.take(0) =~= Seq::<u8>::empty());
    while i < ext.len()
        invariant
            i <= ext@.len() <= 8,
            acc == be_value(ext@.take(i as int)),
            pow256(8) == 0x1_0000_0000_0000_0000,
        decreases ext.len() - i,
    {
        proof {
            assert(ext@.take(i + 1).drop_last() =~= ext@.take(i as int));
            lemma_be_value_bound(ext@.take(i + 1));
            lemma_pow256_mono((i + 1) as nat, 8);
        }
        acc = acc * 256 + ext[i] as u64;
        i += 1;
    }
    assert(ext@.take(ext@.len() as int) =~= ext@);
    acc
}

proof fn lemma_pow256_mono(a: nat, b: nat)
    requires
        a <= b,
    ensures
        pow256(a) <= pow256(b),
    decreases b,
{
    if a < b {
        lemma_pow256_mono(a, (b - 1) as nat);
    }
}

/// Removes the masking of a received payload.
pub fn unmask(payload: &[u8], mask: &[u8]) -> (r: Vec<u8>)
    requires
        mask@.len() == 4,
    ensures
        r@ == masked(payload@, mask@),
{
    let mut r: Vec<u8> = Vec::new();
    let mut i: usize = 0;
    while i < payload.len()
        invariant
            i <= payload@.len(),
            mask@.len() == 4,
            r@ == masked(payload@.take(i as int), mask@),
        decreases payload.len() - i,
    {
        r.push(payload[i] ^ mask[i % 4]);
        assert(masked(payload@.take(i + 1), mask@) =~= masked(payload@.take(i as int), mask@).push(
            payload@[i as int] ^ mask@[(i % 4) as int],
        ));
        i += 1;
    }
    assert(payload@.take(payload@.len() as int) =~= payload@);
    r
}

// ── laws ──────────────────────────────────────────────────────────────────

proof fn lemma_be_roundtrip(n: nat, k: nat)
    requires
        n < pow256(k),
    ensures
        be_bytes(n, k).len() == k,
        be_value(be_bytes(n, k)) == n,
    decreases k,
{
    if k > 0 {
        assert(n / 256 < pow256((k - 1) as nat)) by (nonlinear_arith)
            requires
                n < 256 * pow256((k - 1) as nat),
        ;
        lemma_be_roundtrip(n / 256, (k - 1) as nat);
        assert(be_bytes(n, k).drop_last() =~= be_bytes(n / 256, (k - 1) as nat));
        assert(n == (n / 256) * 256 + n % 256) by (nonlinear_arith);
    }
}

proof fn lemma_len_byte(m: u8, x: u8)
    requires
        m == 0 || m == 0x80,
        x < 128,
    ensures
        ((m | x) & 0x80 != 0) == (m == 0x80),
        (m | x) & 0x7f == x,
{
    assert(((m | x) & 0x80 != 0) == (m == 0x80) && (m | x) & 0x7f == x) by (bit_vector)
        requires
            m == 0 || m == 0x80,
            x < 128,
    ;
}

proof fn lemma_length_field(n: nat, mask_bit: bool)
    requires
        n < pow256(8),
    ensures
        length_field(n, mask_bit).len() == 1 + ext_len_size(length_field(n, mask_bit)[0] & 0x7f),
        (length_field(n, mask_bit)[0] & 0x80 != 0) == mask_bit,
        declared_len(
            length_field(n, mask_bit)[0] & 0x7f,
            length_field(n, mask_bit).skip(1),
        ) == n,
{
    let m: u8 = if mask_bit { 0x80 } else { 0 };
    let f = length_field(n, mask_bit);
    if n < 126 {
        lemma_len_byte(m, n as u8);
    } else if n < 65536 {
        lemma_len_byte(m, 126);
        reveal_with_fuel(pow256, 3);
        lemma_be_roundtrip(n, 2);
        assert(f.skip(1) =~= be_bytes(n, 2));
    } else {
        lemma_len_byte(m, 127);
        lemma_be_roundtrip(n, 8);
        assert(f.skip(1) =~= be_bytes(n, 8));
    }
}

proof fn lemma_opcode_byte(op: u8)
    requires
        op < 16,
    ensures
        (0x80u8 | op) & 0x0f == op,
{
    assert((0x80u8 | op) & 0x0f == op) by (bit_vector)
        requires
            op < 16,
    ;
}

/// Masking twice with the same key gives the bytes back.
pub proof fn lemma_mask_twice(b: Seq<u8>, mask: Seq<u8>)
    requires
        mask.len() == 4,
    ensures
        masked(masked(b, mask), mask) == b,
{
    assert forall|i: int| 0 <= i < b.len() implies #[trigger] masked(masked(b, mask), mask)[i] == b[i] by {
        let x = b[i];
        let k = mask[i % 4];
        assert((x ^ k) ^ k == x) by (bit_vector);
    }
    assert(masked(masked(b, mask), mask) =~= b);
}

/// A frame the server writes reads back, through `frame_header`,
/// `extended_length_size` and `payload_length`, as the same opcode, an
/// unmasked payload of the declared length, and the same payload bytes.
pub proof fn lemma_server_frame_roundtrip(op: u8, payload: Seq<u8>)
    requires
        op < 16,
        payload.len() < pow256(8),
    ensures
        ({
            let f = server_frame(op, payload);
            let h = header_fields(f[0], f[1]);
            let ext = ext_len_size(h.2) as int;
            &&& h.0 == op
            &&& !h.1
            &&& f.len() == 2 + ext + payload.len()
            &&& declared_len(h.2, f.subrange(2, 2 + ext)) == payload.len()
            &&& f.skip(2 + ext) == payload
        }),
{
    let f = server_frame(op, payload);
    let lf = length_field(payload.len(), false);
    lemma_opcode_byte(op);
    lemma_length_field(payload.len(), false);
    let ext = ext_len_size(lf[0] & 0x7f) as int;
    assert(f[1] == lf[0]);
    assert(f.subrange(2, 2 + ext) =~= lf.skip(1));
    assert(f.skip(2 + ext) =~= payload);
}

/// A frame the client writes reads back as the same opcode, a masked
/// payload of the declared length, the client's key, and, unmasked with
/// that key, the same payload bytes.
pub proof fn lemma_client_frame_roundtrip(op: u8, payload: Seq<u8>)
    requires
        op < 16,
        payload.len() < pow256(8),
    ensures
        ({
            let f = client_frame(op, payload);
            let h = header_fields(f[0], f[1]);
            let ext = ext_len_size(h.2) as int;
            &&& h.0 == op
            &&& h.1
            &&& f.len() == 2 + ext + 4 + payload.len()
            &&& declared_len(h.2, f.subrange(2, 2 + ext)) == payload.len()
            &&& f.subrange(2 + ext, 6 + ext) == client_mask()
            &&& masked(f.skip(6 + ext), f.subrange(2 + ext, 6 + ext)) == payload
        }),
{
    let f = client_frame(op, payload);
    let lf = length_field(payload.len(), true);
    lemma_opcode_byte(op);
    lemma_length_field(payload.len(), true);
    let ext = ext_len_size(lf[0] & 0x7f) as int;
    assert(f[1] == lf[0]);
    assert(f.subrange(2, 2 + ext) =~= lf.skip(1));
    assert(f.subrange(2 + ext, 6 + ext) =~= client_mask());
    assert(f.skip(6 + ext) =~= masked(payload, client_mask()));
    lemma_mask_twice(payload, client_mask());
}

} // verus!
