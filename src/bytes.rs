use vstd::prelude::*;

verus! {

/// Two's-complement bit pattern of a signed 16-bit value.
pub open spec fn u16_of_i16(x: i16) -> u16 {
    if x < 0 {
        (x + 0x10000) as u16
    } else {
        x as u16
    }
}

/// Signed reading of a 16-bit bit pattern.
pub open spec fn i16_of_u16(x: u16) -> i16 {
    if x >= 0x8000 {
        (x - 0x10000) as i16
    } else {
        x as i16
    }
}

/// Little-endian bytes of a `u16`.
pub open spec fn u16_le(x: u16) -> Seq<u8> {
    seq![(x % 0x100) as u8, (x / 0x100) as u8]
}

/// Little-endian bytes of an `i16`.
pub open spec fn i16_le(x: i16) -> Seq<u8> {
    u16_le(u16_of_i16(x))
}

/// Little-endian bytes of a `u32`.
pub open spec fn u32_le(x: u32) -> Seq<u8> {
    seq![
        (x % 0x100) as u8,
        (x / 0x100 % 0x100) as u8,
        (x / 0x10000 % 0x100) as u8,
        (x / 0x1000000) as u8,
    ]
}

/// The little-endian `u16` stored at position `p`.
pub open spec fn read_u16_at(b: Seq<u8>, p: int) -> u16 {
    (b[p] + 0x100 * b[p + 1]) as u16
}

/// The little-endian `i16` stored at position `p`.
pub open spec fn read_i16_at(b: Seq<u8>, p: int) -> i16 {
    i16_of_u16(read_u16_at(b, p))
}

/// The little-endian `u32` stored at position `p`.
pub open spec fn read_u32_at(b: Seq<u8>, p: int) -> u32 {
    (b[p] + 0x100 * b[p + 1] + 0x10000 * b[p + 2] + 0x1000000 * b[p + 3]) as u32
}

/// `n` copies of the byte `v`.
pub open spec fn fill(v: u8, n: nat) -> Seq<u8> {
    Seq::new(n, |i: int| v)
}

pub proof fn lemma_u16_le_round_trip(x: u16)
    ensures
        read_u16_at(u16_le(x), 0) == x,
        u16_le(x).len() == 2,
{
    assert(x % 0x100 + 0x100 * (x / 0x100) == x) by (nonlinear_arith);
}

pub proof fn lemma_i16_le_round_trip(x: i16)
    ensures
        read_i16_at(i16_le(x), 0) == x,
        i16_le(x).len() == 2,
{
    lemma_u16_le_round_trip(u16_of_i16(x));
}

pub proof fn lemma_u32_le_round_trip(x: u32)
    ensures
        read_u32_at(u32_le(x), 0) == x,
        u32_le(x).len() == 4,
{
    let b = u32_le(x);
    assert(x % 0x100 + 0x100 * (x / 0x100 % 0x100) + 0x10000 * (x / 0x10000 % 0x100) + 0x1000000
        * (x / 0x1000000) == x) by (nonlinear_arith);
}

/// Appends the little-endian bytes of `x`.
pub fn push_u16(out: &mut Vec<u8>, x: u16)
    ensures
        final(out)@ == old(out)@ + u16_le(x),
{
    out.push((x % 0x100) as u8);
    out.push((x / 0x100) as u8);
    assert(final(out)@ =~= old(out)@ + u16_le(x));
}

/// Appends the little-endian two's-complement bytes of `x`.
pub fn push_i16(out: &mut Vec<u8>, x: i16)
    ensures
        final(out)@ == old(out)@ + i16_le(x),
{
    let u: u16 = if x < 0 {
        (x as i32 + 0x10000) as u16
    } else {
        x as u16
    };
    push_u16(out, u);
}

/// Appends the little-endian bytes of `x`.
pub fn push_u32(out: &mut Vec<u8>, x: u32)
    ensures
        final(out)@ == old(out)@ + u32_le(x),
{
    out.push((x % 0x100) as u8);
    out.push((x / 0x100 % 0x100) as u8);
    out.push((x / 0x10000 % 0x100) as u8);
    out.push((x / 0x1000000) as u8);
    assert(final(out)@ =~= old(out)@ + u32_le(x));
}

/// Appends `n` copies of the byte `v`.
pub fn push_fill(out: &mut Vec<u8>, v: u8, n: usize)
    ensures
        final(out)@ == old(out)@ + fill(v, n as nat),
{
    let ghost start = out@;
    let mut k: usize = 0;
    while k < n
        invariant
            k <= n,
            out@ == start + fill(v, k as nat),
        decreases n - k,
    {
        out.push(v);
        k = k + 1;
        assert(out@ =~= start + fill(v, k as nat));
    }
}

/// Reads the little-endian `u16` at position `p`.
pub fn read_u16(b: &[u8], p: usize) -> (r: u16)
    requires
        p + 2 <= b@.len(),
    ensures
        r == read_u16_at(b@, p as int),
{
    b[p] as u16 + 0x100 * (b[p + 1] as u16)
}

/// Reads the little-endian `i16` at position `p`.
pub fn read_i16(b: &[u8], p: usize) -> (r: i16)
    requires
        p + 2 <= b@.len(),
    ensures
        r == read_i16_at(b@, p as int),
{
    let u = read_u16(b, p);
    if u >= 0x8000 {
        (u as i32 - 0x10000) as i16
    } else {
        u as i16
    }
}

/// Reads the little-endian `u32` at position `p`.
pub fn read_u32(b: &[u8], p: usize) -> (r: u32)
    requires
        p + 4 <= b@.len(),
    ensures
        r == read_u32_at(b@, p as int),
{
    b[p] as u32 + 0x100 * (b[p + 1] as u32) + 0x10000 * (b[p + 2] as u32) + 0x1000000 * (
    b[p + 3] as u32)
}

/// Appends the bytes of `src`.
pub fn push_bytes(out: &mut Vec<u8>, src: &[u8])
    ensures
        final(out)@ == old(out)@ + src@,
{
    let ghost start = out@;
    let mut k: usize = 0;
    while k < src.len()
        invariant
            k <= src@.len(),
            out@ == start + src@.take(k as int),
        decreases src@.len() - k,
    {
        out.push(src[k]);
        k = k + 1;
        assert(out@ =~= start + src@.take(k as int));
    }
    assert(src@.take(k as int) =~= src@);
}

} // verus!
