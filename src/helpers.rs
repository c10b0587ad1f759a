use vstd::prelude::*;

verus! {

/// Row-major linear index of the pixel at column `x`, row `y`.
pub fn coords_to_index(x: usize, y: usize, width: usize) -> (r: usize)
    requires
        x + y * width <= usize::MAX,
    ensures
        r == x + y * width,
{
    x + (y * width)
}

/// Packs red, green and blue channels into `0x00RRGGBB`.
pub fn colour_rgb(red: u8, green: u8, blue: u8) -> (r: u32)
    ensures
        r == red * 0x10000 + green * 0x100 + blue,
{
    let rr = red as u32;
    let gg = green as u32;
    assert(rr << 16 == rr * 0x10000) by (bit_vector)
        requires
            rr < 256,
    ;
    assert(gg << 8 == gg * 0x100) by (bit_vector)
        requires
            gg < 256,
    ;
    (rr << 16) + (gg << 8) + (blue as u32)
}

/// Packs alpha, red, green and blue channels into `0xAARRGGBB` by addition.
pub fn colour_rgba(alpha: u8, red: u8, green: u8, blue: u8) -> (r: u32)
    ensures
        r == argb_value(alpha, red, green, blue),
{
    let aa = alpha as u32;
    let rr = red as u32;
    let gg = green as u32;
    assert(aa << 24 == aa * 0x1000000) by (bit_vector)
        requires
            aa < 256,
    ;
    assert(rr << 16 == rr * 0x10000) by (bit_vector)
        requires
            rr < 256,
    ;
    assert(gg << 8 == gg * 0x100) by (bit_vector)
        requires
            gg < 256,
    ;
    (aa << 24) + (rr << 16) + (gg << 8) + (blue as u32)
}

/// The 32-bit value `0xAARRGGBB` of four channels.
pub open spec fn argb_value(a: u8, r: u8, g: u8, b: u8) -> int {
    a * 0x1000000 + r * 0x10000 + g * 0x100 + b
}

/// Packs alpha, red, green and blue channels into `0xAARRGGBB` by bitwise or.
pub fn to_argb8(a: u8, r: u8, g: u8, b: u8) -> (res: u32)
    ensures
        res == argb_value(a, r, g, b),
{
    let aa = a as u32;
    let rr = r as u32;
    let gg = g as u32;
    let bb = b as u32;
    let res = aa << 24 | rr << 16 | gg << 8 | bb;
    assert(res == aa * 0x1000000 + rr * 0x10000 + gg * 0x100 + bb) by (bit_vector)
        requires
            aa < 256,
            rr < 256,
            gg < 256,
            bb < 256,
            res == aa << 24 | rr << 16 | gg << 8 | bb,
    ;
    res
}

} // verus!
