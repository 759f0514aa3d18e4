//! Little-endian integers in byte buffers.
//!
//! Two families of readers are offered. The lenient ones answer zero and move
//! to the end of the buffer when too few bytes are left; the strict ones are
//! only called where the bytes are there.
use vstd::prelude::*;

verus! {

/// The four bytes of `v`, least significant first.
#[verifier::opaque]
pub open spec fn le32(v: u32) -> Seq<u8> {
    seq![
        (v % 0x100) as u8,
        ((v / 0x100) % 0x100) as u8,
        ((v / 0x1_0000) % 0x100) as u8,
        ((v / 0x100_0000) % 0x100) as u8,
    ]
}

/// The eight bytes of `v`, least significant first.
#[verifier::opaque]
pub open spec fn le64(v: u64) -> Seq<u8> {
    le32((v % 0x1_0000_0000) as u32) + le32((v / 0x1_0000_0000) as u32)
}

/// The number whose little-endian digits stand at `d[p..p + 4]`.
#[verifier::opaque]
pub open spec fn from_le32(d: Seq<u8>, p: int) -> u32 {
    (d[p] + d[p + 1] * 0x100 + d[p + 2] * 0x1_0000 + d[p + 3] * 0x100_0000) as u32
}

/// The number whose little-endian digits stand at `d[p..p + 8]`.
#[verifier::opaque]
pub open spec fn from_le64(d: Seq<u8>, p: int) -> u64 {
    (from_le32(d, p) + from_le32(d, p + 4) * 0x1_0000_0000) as u64
}

/// Reading back the four bytes of a number gives the number.
pub proof fn le32_round_trip(d: Seq<u8>, p: int, v: u32)
    requires
        0 <= p,
        p + 4 <= d.len(),
        d.subrange(p, p + 4) == le32(v),
    ensures
        from_le32(d, p) == v,
{
    reveal(le32);
    reveal(from_le32);
    let s = d.subrange(p, p + 4);
    assert(s[0] == d[p] && s[1] == d[p + 1] && s[2] == d[p + 2] && s[3] == d[p + 3]);
    assert(v == v % 0x100 + ((v / 0x100) % 0x100) * 0x100 + ((v / 0x1_0000) % 0x100) * 0x1_0000 + ((
    v / 0x100_0000) % 0x100) * 0x100_0000);
}

/// Reading back the eight bytes of a number gives the number.
pub proof fn le64_round_trip(d: Seq<u8>, p: int, v: u64)
    requires
        0 <= p,
        p + 8 <= d.len(),
        d.subrange(p, p + 8) == le64(v),
    ensures
        from_le64(d, p) == v,
{
    reveal(le64);
    reveal(from_le64);
    le_lengths(v, 0);
    let lo = (v % 0x1_0000_0000) as u32;
    le_lengths(v, lo);
    let hi = (v / 0x1_0000_0000) as u32;
    let s = d.subrange(p, p + 8);
    assert(d.subrange(p, p + 4) == s.subrange(0, 4));
    assert(d.subrange(p + 4, p + 8) == s.subrange(4, 8));
    reveal(le32);
    assert(s.subrange(0, 4) == le32(lo));
    assert(s.subrange(4, 8) == le32(hi));
    le32_round_trip(d, p, lo);
    le32_round_trip(d, p + 4, hi);
}

/// The encodings have four and eight bytes.
pub proof fn le_lengths(v: u64, w: u32)
    ensures
        le64(v).len() == 8,
        le32(w).len() == 4,
{
    reveal(le64);
    reveal(le32);
}

/// Concatenation may be regrouped.
pub proof fn cat_assoc<T>(a: Seq<T>, b: Seq<T>, c: Seq<T>)
    ensures
        (a + b) + c == a + (b + c),
{
}

/// The bytes `s` stand in `d` from `p` on.
pub open spec fn stands_at(d: Seq<u8>, p: int, s: Seq<u8>) -> bool {
    0 <= p && p + s.len() <= d.len() && d.subrange(p, p + s.len()) == s
}

/// Two byte sequences that stand together stand one behind the other.
pub proof fn split_at(d: Seq<u8>, p: int, a: Seq<u8>, b: Seq<u8>)
    requires
        stands_at(d, p, a + b),
    ensures
        stands_at(d, p, a),
        stands_at(d, p + a.len(), b),
{
    let s = d.subrange(p, p + (a + b).len());
    assert(d.subrange(p, p + a.len()) == s.subrange(0, a.len() as int));
    assert(d.subrange(p + a.len(), p + a.len() + b.len()) == s.subrange(
        a.len() as int,
        s.len() as int,
    ));
    assert((a + b).subrange(0, a.len() as int) == a);
    assert((a + b).subrange(a.len() as int, (a + b).len() as int) == b);
}

/// Two's complement and back is the identity.
pub proof fn signed_bits_round_trip(v: i64)
    ensures
        (v as u64) as i64 == v,
{
    assert((v as u64) as i64 == v) by (bit_vector);
}

/// What a lenient one-byte read at `p` gives: the byte and the next position.
pub open spec fn lenient_u8(d: Seq<u8>, p: int) -> (u8, int) {
    if p >= d.len() {
        (0u8, p)
    } else {
        (d[p], p + 1)
    }
}

/// What a lenient four-byte read at `p` gives.
pub open spec fn lenient_u32(d: Seq<u8>, p: int) -> (u32, int) {
    if p + 4 > d.len() {
        (0u32, d.len() as int)
    } else {
        (from_le32(d, p), p + 4)
    }
}

/// What a lenient eight-byte read at `p` gives.
pub open spec fn lenient_u64(d: Seq<u8>, p: int) -> (u64, int) {
    if p + 8 > d.len() {
        (0u64, d.len() as int)
    } else {
        (from_le64(d, p), p + 8)
    }
}

/// Appends the four bytes of `v`.
pub fn write_u32(buf: &mut Vec<u8>, v: u32)
    ensures
        final(buf)@ == old(buf)@ + le32(v),
{
    reveal(le32);
    buf.push((v % 0x100) as u8);
    buf.push(((v / 0x100) % 0x100) as u8);
    buf.push(((v / 0x1_0000) % 0x100) as u8);
    buf.push(((v / 0x100_0000) % 0x100) as u8);
}

/// Appends the eight bytes of `v`.
pub fn write_u64(buf: &mut Vec<u8>, v: u64)
    ensures
        final(buf)@ == old(buf)@ + le64(v),
{
    reveal(le64);
    write_u32(buf, (v % 0x1_0000_0000) as u32);
    write_u32(buf, (v / 0x1_0000_0000) as u32);
}

/// Appends the two's complement of `v` as eight bytes.
pub fn write_i64(buf: &mut Vec<u8>, v: i64)
    ensures
        final(buf)@ == old(buf)@ + le64(v as u64),
{
    write_u64(buf, v as u64);
}

/// Appends all of `bytes`.
pub fn write_bytes(buf: &mut Vec<u8>, bytes: &[u8])
    ensures
        final(buf)@ == old(buf)@ + bytes@,
{
    let ghost before = buf@;
    let mut i: usize = 0;
    while i < bytes.len()
        invariant
            i <= bytes.len(),
            buf@ == before + bytes@.take(i as int),
        decreases bytes.len() - i,
    {
        buf.push(bytes[i]);
        i = i + 1;
        assert(bytes@.take(i as int) == bytes@.take(i - 1).push(bytes@[i - 1]));
    }
    assert(bytes@.take(i as int) == bytes@);
}

/// The number at `d[p..p + 4]`.
pub fn get_u32(d: &[u8], p: usize) -> (v: u32)
    requires
        p + 4 <= d.len(),
    ensures
        v == from_le32(d@, p as int),
{
    reveal(from_le32);
    d[p] as u32 + d[p + 1] as u32 * 0x100 + d[p + 2] as u32 * 0x1_0000 + d[p + 3] as u32
        * 0x100_0000
}

/// The number at `d[p..p + 8]`.
pub fn get_u64(d: &[u8], p: usize) -> (v: u64)
    requires
        p + 8 <= d.len(),
    ensures
        v == from_le64(d@, p as int),
{
    reveal(from_le64);
    get_u32(d, p) as u64 + get_u32(d, p + 4) as u64 * 0x1_0000_0000
}

/// Reads one byte, or zero at the end of the buffer.
pub fn read_u8(data: &[u8], pos: &mut usize) -> (v: u8)
    requires
        *old(pos) <= data.len(),
    ensures
        (v, *final(pos) as int) == lenient_u8(data@, *old(pos) as int),
        *final(pos) <= data.len(),
{
    if *pos >= data.len() {
        return 0;
    }
    let v: u8 = data[*pos];
    *pos = *pos + 1;
    v
}

/// Reads four bytes, or moves to the end and answers zero.
pub fn read_u32(data: &[u8], pos: &mut usize) -> (v: u32)
    requires
        *old(pos) <= data.len(),
    ensures
        (v, *final(pos) as int) == lenient_u32(data@, *old(pos) as int),
        *final(pos) <= data.len(),
{
    if data.len() - *pos < 4 {
        *pos = data.len();
        return 0;
    }
    let v: u32 = get_u32(data, *pos);
    *pos = *pos + 4;
    v
}

/// Reads eight bytes, or moves to the end and answers zero.
pub fn read_u64(data: &[u8], pos: &mut usize) -> (v: u64)
    requires
        *old(pos) <= data.len(),
    ensures
        (v, *final(pos) as int) == lenient_u64(data@, *old(pos) as int),
        *final(pos) <= data.len(),
{
    if data.len() - *pos < 8 {
        *pos = data.len();
        return 0;
    }
    let v: u64 = get_u64(data, *pos);
    *pos = *pos + 8;
    v
}

/// Reads eight bytes as a two's complement number, or zero.
pub fn read_i64(data: &[u8], pos: &mut usize) -> (v: i64)
    requires
        *old(pos) <= data.len(),
    ensures
        v == lenient_u64(data@, *old(pos) as int).0 as i64,
        *final(pos) == lenient_u64(data@, *old(pos) as int).1,
        *final(pos) <= data.len(),
{
    read_u64(data, pos) as i64
}

/// A copy of `data[from..from + len]`.
pub fn copy_range(data: &[u8], from: usize, len: usize) -> (out: Vec<u8>)
    requires
        from + len <= data.len(),
    ensures
        out@ == data@.subrange(from as int, from + len),
{
    let mut out: Vec<u8> = Vec::new();
    let mut i: usize = 0;
    while i < len
        invariant
            i <= len,
            from + len <= data.len(),
            out@ == data@.subrange(from as int, from + i),
        decreases len - i,
    {
        out.push(data[from + i]);
        i = i + 1;
        assert(data@.subrange(from as int, from + i) == data@.subrange(from as int, from + i
            - 1).push(data@[from + i - 1]));
    }
    out
}

} // verus!
