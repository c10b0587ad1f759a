use vstd::prelude::*;

use crate::psx_structs::TextureCellPSX;

verus! {

/// A truecolour RGBA8 colour.
#[derive(Clone, Copy, PartialEq, Eq, Structural, Debug)]
pub struct Rgba8 {
    pub r: u8,
    pub g: u8,
    pub b: u8,
    pub a: u8,
}

/// Number of colours in a base palette.
pub const BASE_PALETTE_SIZE: usize = 16;

/// Number of entries in a fade palette: sixteen levels of sixteen colours.
pub const FADE_PALETTE_SIZE: usize = 256;

/// Channel `k` (0 to 3, lowest byte first) of a packed 32-bit colour.
pub open spec fn channel(x: u32, k: int) -> u8 {
    if k == 0 {
        (x % 0x100) as u8
    } else if k == 1 {
        (x / 0x100 % 0x100) as u8
    } else if k == 2 {
        (x / 0x10000 % 0x100) as u8
    } else {
        (x / 0x1000000) as u8
    }
}

/// A packed colour with red in the lowest byte and alpha in the highest.
pub open spec fn rgba_of(x: u32) -> Rgba8 {
    Rgba8 { r: channel(x, 0), g: channel(x, 1), b: channel(x, 2), a: channel(x, 3) }
}

/// A 1-5-5-5 colour: alpha bit on top, then blue, green and red.
pub open spec fn color_1555(alpha: int, r: int, g: int, b: int) -> u16 {
    (alpha * 0x8000 + b * 0x400 + g * 0x20 + r) as u16
}

/// The semi-transparency bit of an alpha value.
pub open spec fn alpha_bit(a: u8) -> int {
    if a == 0 {
        0
    } else {
        1
    }
}

/// A truecolour colour reduced to 1-5-5-5.
pub open spec fn quantize_1555(c: Rgba8) -> u16 {
    color_1555(alpha_bit(c.a), c.r as int / 8, c.g as int / 8, c.b as int / 8)
}

/// A channel blended `level` fifteenths of the way from `base` to `target`,
/// reduced to five bits.
pub open spec fn fade_channel(level: int, target: u8, base: u8) -> int {
    let v = (level * target + (15 - level) * base) / 15 / 8;
    if v > 31 {
        31
    } else {
        v
    }
}

/// Entry of the fade table for `base` at `level`: channels blended, alpha
/// taken from `base` alone.
pub open spec fn fade_entry(base: Rgba8, target: Rgba8, level: int) -> u16 {
    color_1555(
        alpha_bit(base.a),
        fade_channel(level, target.r, base.r),
        fade_channel(level, target.g, base.g),
        fade_channel(level, target.b, base.b),
    )
}

/// Colour `c` of a base palette; transparent black past its end.
pub open spec fn padded_color(base: Seq<Rgba8>, c: int) -> Rgba8 {
    if c < base.len() {
        base[c]
    } else {
        Rgba8 { r: 0, g: 0, b: 0, a: 0 }
    }
}

/// The fade table: entry `16 * level + c` is colour `c` faded to `level`.
pub open spec fn fade_table(base: Seq<Rgba8>, target: Rgba8) -> Seq<u16> {
    Seq::new(
        FADE_PALETTE_SIZE as nat,
        |k: int| fade_entry(padded_color(base, k % 16), target, k / 16),
    )
}

/// Byte `k` of packed indices: index `2k` in the high nibble, index `2k+1`
/// (or zero past the end) in the low nibble.
pub open spec fn packed_byte(idx: Seq<u8>, k: int) -> u8 {
    let hi = idx[2 * k] % 16;
    let lo = if 2 * k + 1 < idx.len() {
        idx[2 * k + 1] % 16
    } else {
        0
    };
    (hi * 16 + lo) as u8
}

/// Indices packed two per byte.
pub open spec fn packed_of(idx: Seq<u8>) -> Seq<u8> {
    Seq::new((idx.len() + 1) / 2, |k: int| packed_byte(idx, k))
}

/// Index `i` of packed data: the high nibble for even `i`, the low for odd.
pub open spec fn nibble_at(p: Seq<u8>, i: int) -> u8 {
    if i % 2 == 0 {
        p[i / 2] / 16
    } else {
        p[i / 2] % 16
    }
}

/// The first `n` indices of packed data.
pub open spec fn unpacked_of(p: Seq<u8>, n: nat) -> Seq<u8> {
    Seq::new(n, |i: int| nibble_at(p, i))
}

fn fade_channel_exec(level: u32, target: u8, base: u8) -> (r: u16)
    requires
        level < 16,
    ensures
        r == fade_channel(level as int, target, base),
        r <= 31,
{
    assert(level * target + (15 - level) * base <= 15 * 255) by (nonlinear_arith)
        requires
            level < 16,
            target <= 255,
            base <= 255,
    ;
    let v = (level * target as u32 + (15 - level) * base as u32) / 15 / 8;
    if v > 31 {
        31
    } else {
        v as u16
    }
}

/// Expands a base palette of up to sixteen colours into a 256-entry fade
/// table toward `target`: for level `l` and colour `c`, each channel is
/// `(l * target + (15 - l) * base) / 15`, shifted right by three; the alpha
/// bit comes from the base colour only. Missing base colours count as
/// transparent black.
pub fn build_fade_palette(base: &Vec<Rgba8>, target: Rgba8) -> (r: Vec<u16>)
    requires
        base@.len() <= BASE_PALETTE_SIZE,
    ensures
        r@ == fade_table(base@, target),
        r@.len() == FADE_PALETTE_SIZE,
{
    let mut out: Vec<u16> = Vec::new();
    let mut k: usize = 0;
    while k < FADE_PALETTE_SIZE
        invariant
            k <= FADE_PALETTE_SIZE,
            out@ == fade_table(base@, target).take(k as int),
        decreases FADE_PALETTE_SIZE - k,
    {
        let level = (k / 16) as u32;
        let c = k % 16;
        let col = if c < base.len() {
            base[c]
        } else {
            Rgba8 { r: 0, g: 0, b: 0, a: 0 }
        };
        let r5 = fade_channel_exec(level, target.r, col.r);
        let g5 = fade_channel_exec(level, target.g, col.g);
        let b5 = fade_channel_exec(level, target.b, col.b);
        let a1: u16 = if col.a == 0 {
            0
        } else {
            1
        };
        let entry: u16 = a1 * 0x8000 + b5 * 0x400 + g5 * 0x20 + r5;
        out.push(entry);
        k = k + 1;
        assert(out@ =~= fade_table(base@, target).take(k as int));
    }
    assert(fade_table(base@, target).take(256) =~= fade_table(base@, target));
    out
}

/// Packs 4-bit indices two per byte in order: the even index in the high
/// nibble, the odd one in the low nibble; an odd count leaves the last low
/// nibble zero. Only the low four bits of each index are kept.
pub fn pack_indices(indices: &Vec<u8>) -> (r: Vec<u8>)
    ensures
        r@ == packed_of(indices@),
{
    let n = indices.len();
    let mut out: Vec<u8> = Vec::new();
    let mut i: usize = 0;
    while i < n
        invariant
            n == indices@.len(),
            i <= n,
            i % 2 == 0,
            out@ == packed_of(indices@).take(i as int / 2),
        decreases n - i,
    {
        let hi = indices[i] % 16;
        if i + 1 < n {
            let lo = indices[i + 1] % 16;
            out.push(hi * 16 + lo);
            i = i + 2;
        } else {
            out.push(hi * 16);
            assert(out@ =~= packed_of(indices@));
            return out;
        }
        assert(out@ =~= packed_of(indices@).take(i as int / 2));
    }
    assert(out@ =~= packed_of(indices@));
    out
}

/// Unpacks the first `count` 4-bit indices in row-major order.
pub fn unpack_indices(packed: &[u8], count: usize) -> (r: Vec<u8>)
    requires
        count <= 2 * packed@.len(),
    ensures
        r@ == unpacked_of(packed@, count as nat),
{
    let mut out: Vec<u8> = Vec::new();
    let mut i: usize = 0;
    while i < count
        invariant
            i <= count,
            count <= 2 * packed@.len(),
            out@ == unpacked_of(packed@, count as nat).take(i as int),
        decreases count - i,
    {
        let byte = packed[i / 2];
        let v = if i % 2 == 0 {
            byte / 16
        } else {
            byte % 16
        };
        out.push(v);
        i = i + 1;
        assert(out@ =~= unpacked_of(packed@, count as nat).take(i as int));
    }
    assert(out@ =~= unpacked_of(packed@, count as nat));
    out
}

/// Unpacking packed 4-bit indices gives back the indices, in order.
pub proof fn lemma_pack_round_trip(idx: Seq<u8>)
    requires
        forall|i: int| 0 <= i < idx.len() ==> idx[i] < 16,
    ensures
        unpacked_of(packed_of(idx), idx.len()) == idx,
{
    let p = packed_of(idx);
    assert forall|i: int| 0 <= i < idx.len() implies #[trigger] nibble_at(p, i) == idx[i] by {
        let k = i / 2;
        let hi = idx[2 * k] % 16;
        let lo: int = if 2 * k + 1 < idx.len() {
            idx[2 * k + 1] as int % 16
        } else {
            0
        };
        assert(p[k] == hi * 16 + lo);
        assert((hi * 16 + lo) / 16 == hi && (hi * 16 + lo) % 16 == lo) by (nonlinear_arith)
            requires
                0 <= hi < 16,
                0 <= lo < 16,
        ;
    }
    assert(unpacked_of(p, idx.len()) =~= idx);
}

/// Level 0 of a fade table is the base palette reduced to 1-5-5-5, and
/// level 15 is the target's colour with each base colour's alpha bit.
pub proof fn lemma_fade_levels(base: Seq<Rgba8>, target: Rgba8, c: int)
    requires
        0 <= c < 16,
    ensures
        fade_table(base, target)[c] == quantize_1555(padded_color(base, c)),
        fade_table(base, target)[15 * 16 + c] == color_1555(
            alpha_bit(padded_color(base, c).a),
            target.r as int / 8,
            target.g as int / 8,
            target.b as int / 8,
        ),
{
    let col = padded_color(base, c);
    assert((15 * 16 + c) / 16 == 15 && (15 * 16 + c) % 16 == c);
    lemma_fade_channel_ends(target.r, col.r);
    lemma_fade_channel_ends(target.g, col.g);
    lemma_fade_channel_ends(target.b, col.b);
}

proof fn lemma_fade_channel_ends(t: u8, b: u8)
    ensures
        fade_channel(0, t, b) == b as int / 8,
        fade_channel(15, t, b) == t as int / 8,
{
    let ti = t as int;
    let bi = b as int;
    assert(0 * ti + (15 - 0) * bi == 15 * bi) by (nonlinear_arith);
    assert(15 * ti + (15 - 15) * bi == 15 * ti) by (nonlinear_arith);
    assert((15 * bi) / 15 == bi) by (nonlinear_arith);
    assert((15 * ti) / 15 == ti) by (nonlinear_arith);
}

/// The texture cell of a quantized image: its fade palette toward `avg_color`
/// and its packed indices.
pub open spec fn cell_matches(
    cell: TextureCellPSX,
    base: Seq<Rgba8>,
    indices: Seq<u8>,
    width: u8,
    height: u8,
    avg_color: u32,
) -> bool {
    &&& cell.palette@ == fade_table(base, rgba_of(avg_color))
    &&& cell.texture_data@ == packed_of(indices)
    &&& cell.texture_width == width
    &&& cell.texture_height == height
    &&& cell.avg_color == avg_color
}

impl TextureCellPSX {
    /// Builds a cell from a quantized image: a base palette of up to sixteen
    /// colours and one index per pixel in row-major order. The palette is
    /// faded toward the average colour.
    pub fn from_quantized(
        base: &Vec<Rgba8>,
        indices: &Vec<u8>,
        width: u8,
        height: u8,
        avg_color: u32,
    ) -> (r: TextureCellPSX)
        requires
            base@.len() <= BASE_PALETTE_SIZE,
        ensures
            cell_matches(r, base@, indices@, width, height, avg_color),
    {
        let target = Rgba8 {
            r: (avg_color % 0x100) as u8,
            g: (avg_color / 0x100 % 0x100) as u8,
            b: (avg_color / 0x10000 % 0x100) as u8,
            a: (avg_color / 0x1000000) as u8,
        };
        TextureCellPSX {
            texture_data: pack_indices(indices),
            palette: build_fade_palette(base, target),
            texture_width: width,
            texture_height: height,
            avg_color,
        }
    }
}

} // verus!
