use vstd::prelude::*;

use crate::palette::{cell_matches, channel, rgba_of, Rgba8, BASE_PALETTE_SIZE};
use crate::psx_structs::TextureCellPSX;
use crate::texture::pack_channels;
use crate::texture_codec::cell_wf;

verus! {

/// Sum of channel `k` over all pixels.
pub open spec fn channel_sum(px: Seq<u32>, k: int) -> nat
    decreases px.len(),
{
    if px.len() == 0 {
        0
    } else {
        channel_sum(px.drop_last(), k) + channel(px.last(), k) as nat
    }
}

/// Per-channel mean of the pixels, rounded down; zero for no pixels.
pub open spec fn average_color_of(px: Seq<u32>) -> u32 {
    if px.len() == 0 {
        0
    } else {
        pack_channels(
            channel_sum(px, 0) as int / px.len() as int,
            channel_sum(px, 1) as int / px.len() as int,
            channel_sum(px, 2) as int / px.len() as int,
            channel_sum(px, 3) as int / px.len() as int,
        )
    }
}

/// Per-channel mean of the pixels, rounded down; zero for no pixels.
pub fn average_color(pixels: &Vec<u32>) -> (r: u32)
    ensures
        r == average_color_of(pixels@),
{
    let n = pixels.len();
    let mut s0: u128 = 0;
    let mut s1: u128 = 0;
    let mut s2: u128 = 0;
    let mut s3: u128 = 0;
    let mut i: usize = 0;
    while i < n
        invariant
            n == pixels@.len(),
            i <= n,
            s0 == channel_sum(pixels@.take(i as int), 0),
            s1 == channel_sum(pixels@.take(i as int), 1),
            s2 == channel_sum(pixels@.take(i as int), 2),
            s3 == channel_sum(pixels@.take(i as int), 3),
            s0 <= 255 * i,
            s1 <= 255 * i,
            s2 <= 255 * i,
            s3 <= 255 * i,
        decreases n - i,
    {
        let p = pixels[i];
        proof {
            let t = pixels@.take(i as int + 1);
            assert(t.drop_last() =~= pixels@.take(i as int));
            assert(t.last() == p);
        }
        s0 = s0 + (p % 0x100) as u128;
        s1 = s1 + (p / 0x100 % 0x100) as u128;
        s2 = s2 + (p / 0x10000 % 0x100) as u128;
        s3 = s3 + (p / 0x1000000) as u128;
        i = i + 1;
    }
    assert(pixels@.take(n as int) =~= pixels@);
    if n == 0 {
        return 0;
    }
    let d = n as u128;
    assert(s0 / d <= 255 && s1 / d <= 255 && s2 / d <= 255 && s3 / d <= 255) by (nonlinear_arith)
        requires
            d > 0,
            s0 <= 255 * d,
            s1 <= 255 * d,
            s2 <= 255 * d,
            s3 <= 255 * d,
    ;
    let c0 = (s0 / d) as u32;
    let c1 = (s1 / d) as u32;
    let c2 = (s2 / d) as u32;
    let c3 = (s3 / d) as u32;
    c0 + c1 * 0x100 + c2 * 0x10000 + c3 * 0x1000000
}

/// Relies on exoquant::convert_to_indexed with the k-means optimizer and the
/// ordered ditherer, asked for sixteen colours: it returns a palette of
/// exactly that many colours and one palette index per input pixel. Which
/// colours come out depends on the walk order of a hash map inside the
/// crate, so nothing more is stated.
#[verifier::external_body]
fn quantize_to_16(pixels: &Vec<Rgba8>, width: usize) -> (r: (Vec<Rgba8>, Vec<u8>))
    requires
        width > 0,
    ensures
        r.0@.len() == BASE_PALETTE_SIZE,
        r.1@.len() == pixels@.len(),
        forall|i: int| 0 <= i < r.1@.len() ==> r.1@[i] < BASE_PALETTE_SIZE,
{
    let image: Vec<exoquant::Color> =
        pixels.iter().map(|c| exoquant::Color::new(c.r, c.g, c.b, c.a)).collect();
    let (palette, indices) = exoquant::convert_to_indexed(
        &image,
        width,
        BASE_PALETTE_SIZE,
        &exoquant::optimizer::KMeans,
        &exoquant::ditherer::Ordered,
    );
    (palette.iter().map(|c| Rgba8 { r: c.r, g: c.g, b: c.b, a: c.a }).collect(), indices)
}

fn to_rgba(pixels: &Vec<u32>) -> (r: Vec<Rgba8>)
    ensures
        r@ == pixels@.map_values(|p: u32| rgba_of(p)),
{
    let mut out: Vec<Rgba8> = Vec::new();
    let mut i: usize = 0;
    while i < pixels.len()
        invariant
            i <= pixels@.len(),
            out@ == pixels@.take(i as int).map_values(|p: u32| rgba_of(p)),
        decreases pixels@.len() - i,
    {
        let p = pixels[i];
        out.push(
            Rgba8 {
                r: (p % 0x100) as u8,
                g: (p / 0x100 % 0x100) as u8,
                b: (p / 0x10000 % 0x100) as u8,
                a: (p / 0x1000000) as u8,
            },
        );
        i = i + 1;
        assert(out@ =~= pixels@.take(i as int).map_values(|p: u32| rgba_of(p)));
    }
    assert(pixels@.take(i as int) =~= pixels@);
    out
}

/// Builds the texture cell of a `width` by `height` image given row by row:
/// quantizes it to sixteen colours, fades that palette toward the image's
/// average colour, and packs the indices. Returns `None` when the image is
/// empty in width or the pixel count does not match the size.
pub fn build_texture_cell(pixels: &Vec<u32>, width: u8, height: u8) -> (r: Option<
    TextureCellPSX,
>)
    ensures
        r is Some <==> width > 0 && pixels@.len() == width * height,
        r matches Some(c) ==> {
            &&& cell_wf(c)
            &&& c.palette@.len() == 256
            &&& exists|base: Seq<Rgba8>, idx: Seq<u8>|
                {
                    &&& base.len() == BASE_PALETTE_SIZE
                    &&& idx.len() == pixels@.len()
                    &&& forall|i: int| 0 <= i < idx.len() ==> idx[i] < 16
                    &&& #[trigger] cell_matches(
                        c,
                        base,
                        idx,
                        width,
                        height,
                        average_color_of(pixels@),
                    )
                }
        },
{
    assert(width * height <= 255 * 255) by (nonlinear_arith)
        requires
            width <= 255,
            height <= 255,
    ;
    if width == 0 || pixels.len() != width as usize * height as usize {
        return None;
    }
    let avg = average_color(pixels);
    let rgba = to_rgba(pixels);
    let (base, indices) = quantize_to_16(&rgba, width as usize);
    let cell = TextureCellPSX::from_quantized(&base, &indices, width, height, avg);
    assert(cell_matches(cell, base@, indices@, width, height, average_color_of(pixels@)));
    assert(cell.palette@.len() == 256);
    assert(cell.texture_data@.len() == (width * height + 1) / 2);
    Some(cell)
}

} // verus!
