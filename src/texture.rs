use vstd::prelude::*;

use vstd::arithmetic::div_mod::lemma_fundamental_div_mod_converse;

use crate::helpers::{argb_value, colour_rgba};
use crate::palette::channel;

verus! {

/// A truecolour image and the mip levels generated from it, all stored one
/// after the other in `data`; level `i` starts at `mipmap_offsets[i]`.
/// Pixels are packed with red in the lowest byte and alpha in the highest.
pub struct Texture {
    pub width: usize,
    pub height: usize,
    pub depth: usize,
    pub data: Vec<u32>,
    pub mipmap_offsets: Vec<usize>,
}

#[derive(Clone, Copy, PartialEq, Eq, Structural, Debug)]
pub enum FilterMode {
    Point,
    Linear,
}

#[derive(Clone, Copy, PartialEq, Eq, Structural, Debug)]
pub enum WrapMode {
    Repeat,
    Mirror,
    Clamp,
}

#[derive(Clone, Copy, PartialEq, Eq, Structural, Debug)]
pub struct Sampler {
    pub filter_mode_mag: FilterMode,
    pub filter_mode_min: FilterMode,
    pub filter_mode_mipmap: FilterMode,
    pub wrap_mode_s: WrapMode,
    pub wrap_mode_t: WrapMode,
    pub mipmap_enabled: bool,
}

/// Layout of the raw pixels of a decoded image: which channels each pixel
/// stores, in red, green, blue, alpha order, and whether each takes one
/// byte or two (little-endian, so the second byte is the significant one).
#[derive(Clone, Copy, PartialEq, Eq, Structural, Debug)]
pub enum PixelFormat {
    R8,
    R8G8,
    R8G8B8,
    R8G8B8A8,
    R16,
    R16G16,
    R16G16B16,
    R16G16B16A16,
    R32G32B32Float,
    R32G32B32A32Float,
}

/// Number of channels each pixel stores; zero for the formats this library
/// does not convert.
pub open spec fn channel_count(f: PixelFormat) -> int {
    match f {
        PixelFormat::R8 | PixelFormat::R16 => 1,
        PixelFormat::R8G8 | PixelFormat::R16G16 => 2,
        PixelFormat::R8G8B8 | PixelFormat::R16G16B16 => 3,
        PixelFormat::R8G8B8A8 | PixelFormat::R16G16B16A16 => 4,
        _ => 0,
    }
}

/// Bytes per channel.
pub open spec fn channel_width(f: PixelFormat) -> int {
    match f {
        PixelFormat::R8 | PixelFormat::R8G8 | PixelFormat::R8G8B8 | PixelFormat::R8G8B8A8 => 1,
        _ => 2,
    }
}

/// Channel `c` of raw pixel `i`: its most significant byte, or 255 for a
/// channel the format does not store.
pub open spec fn raw_channel(raw: Seq<u8>, f: PixelFormat, i: int, c: int) -> int {
    let w = channel_width(f);
    if c < channel_count(f) {
        raw[i * channel_count(f) * w + c * w + (w - 1)] as int
    } else {
        255
    }
}

/// Raw pixel `i` packed with red in the lowest byte and alpha in the highest.
pub open spec fn raw_pixel(raw: Seq<u8>, f: PixelFormat, i: int) -> u32 {
    pack_channels(
        raw_channel(raw, f, i, 0),
        raw_channel(raw, f, i, 1),
        raw_channel(raw, f, i, 2),
        raw_channel(raw, f, i, 3),
    )
}

/// Pixel `i` of interleaved 8-bit RGB (`depth` 3) or RGBA (`depth` 4) data,
/// packed as `0xAARRGGBB`; alpha is 255 for RGB.
pub open spec fn interleaved_pixel(raw: Seq<u8>, depth: int, i: int) -> int {
    let a = if depth == 4 {
        raw[depth * i + 3]
    } else {
        255u8
    };
    argb_value(a, raw[depth * i], raw[depth * i + 1], raw[depth * i + 2])
}

/// A texture with the sampler state it is drawn with.
pub struct Material {
    pub texture: Texture,
    pub sampler: Sampler,
}

/// Packs four channels, lowest byte first.
pub open spec fn pack_channels(c0: int, c1: int, c2: int, c3: int) -> u32 {
    (c0 + c1 * 0x100 + c2 * 0x10000 + c3 * 0x1000000) as u32
}

/// Channel `k` of the mean of four pixels, rounded down.
pub open spec fn mean4_channel(s1: u32, s2: u32, s3: u32, s4: u32, k: int) -> int {
    (channel(s1, k) + channel(s2, k) + channel(s3, k) + channel(s4, k)) / 4
}

/// The per-channel mean of four pixels, rounded down.
pub open spec fn avg4(s1: u32, s2: u32, s3: u32, s4: u32) -> u32 {
    pack_channels(
        mean4_channel(s1, s2, s3, s4, 0),
        mean4_channel(s1, s2, s3, s4, 1),
        mean4_channel(s1, s2, s3, s4, 2),
        mean4_channel(s1, s2, s3, s4, 3),
    )
}

/// Pixel `(x, y)` of the level below `src`, a `sw` pixels wide image: the
/// mean of the 2x2 block at `(2x, 2y)`.
pub open spec fn down_pixel(src: Seq<u32>, sw: int, x: int, y: int) -> u32 {
    avg4(
        src[2 * x + 2 * y * sw],
        src[2 * x + 1 + 2 * y * sw],
        src[2 * x + (2 * y + 1) * sw],
        src[2 * x + 1 + (2 * y + 1) * sw],
    )
}

/// The `dw` by `dh` level below `src`, row by row.
pub open spec fn downsample(src: Seq<u32>, sw: int, dw: int, dh: int) -> Seq<u32> {
    Seq::new((dw * dh) as nat, |i: int| down_pixel(src, sw, i % dw, i / dw))
}

/// All levels below a `w` by `h` image, halving both sides each time until
/// one side is a single pixel.
pub open spec fn mip_chain(src: Seq<u32>, w: int, h: int) -> Seq<u32>
    decreases w,
{
    if w <= 1 || h <= 1 {
        Seq::empty()
    } else {
        let d = downsample(src, w, w / 2, h / 2);
        d + mip_chain(d, w / 2, h / 2)
    }
}

/// Start of each level of `mip_chain(_, w, h)` when it is stored from `start`.
pub open spec fn mip_offsets(start: int, w: int, h: int) -> Seq<usize>
    decreases w,
{
    if w <= 1 || h <= 1 {
        Seq::empty()
    } else {
        seq![start as usize] + mip_offsets(start + (w / 2) * (h / 2), w / 2, h / 2)
    }
}

/// The per-channel mean of four pixels, rounded down.
pub fn average_four_pixels(s1: u32, s2: u32, s3: u32, s4: u32) -> (r: u32)
    ensures
        r == avg4(s1, s2, s3, s4),
{
    let c0 = (s1 % 0x100 + s2 % 0x100 + s3 % 0x100 + s4 % 0x100) / 4;
    let c1 = (s1 / 0x100 % 0x100 + s2 / 0x100 % 0x100 + s3 / 0x100 % 0x100 + s4 / 0x100 % 0x100)
        / 4;
    let c2 = (s1 / 0x10000 % 0x100 + s2 / 0x10000 % 0x100 + s3 / 0x10000 % 0x100 + s4 / 0x10000
        % 0x100) / 4;
    let c3 = (s1 / 0x1000000 + s2 / 0x1000000 + s3 / 0x1000000 + s4 / 0x1000000) / 4;
    c0 + c1 * 0x100 + c2 * 0x10000 + c3 * 0x1000000
}

proof fn lemma_block_in_bounds(x: int, y: int, sw: int, sh: int)
    requires
        0 <= x < sw / 2,
        0 <= y < sh / 2,
        sw >= 2,
    ensures
        0 <= 2 * x + 2 * y * sw,
        2 * x + 1 + (2 * y + 1) * sw < sw * sh,
        2 * x + 1 + 2 * y * sw < 2 * x + (2 * y + 1) * sw,
{
    assert(2 * x + 1 + (2 * y + 1) * sw < sw * sh) by (nonlinear_arith)
        requires
            0 <= x < sw / 2,
            0 <= y < sh / 2,
            sw >= 2,
    ;
    assert(0 <= 2 * x + 2 * y * sw) by (nonlinear_arith)
        requires
            0 <= x,
            0 <= y,
            sw >= 2,
    ;
    assert(2 * x + 1 + 2 * y * sw < 2 * x + (2 * y + 1) * sw) by (nonlinear_arith)
        requires
            0 <= x < sw / 2,
    ;
}

impl Texture {
    /// Appends every mip level below the base image to `data`, each the
    /// 2x2 per-channel mean of the level above, halving both sides until
    /// one side is a single pixel, and records where each level starts.
    #[verifier::rlimit(40)]
    pub fn generate_mipmaps(&mut self)
        requires
            old(self).width >= 1,
            old(self).height >= 1,
            old(self).width * old(self).height <= old(self).data@.len(),
        ensures
            final(self).width == old(self).width,
            final(self).height == old(self).height,
            final(self).depth == old(self).depth,
            final(self).data@ == old(self).data@ + mip_chain(
                old(self).data@.take(old(self).width * old(self).height),
                old(self).width as int,
                old(self).height as int,
            ),
            final(self).mipmap_offsets@ == old(self).mipmap_offsets@ + mip_offsets(
                old(self).data@.len() as int,
                old(self).width as int,
                old(self).height as int,
            ),
    {
        let ghost w0 = self.width as int;
        let ghost h0 = self.height as int;
        let ghost depth0 = self.depth;
        let ghost d0 = self.data@;
        let ghost o0 = self.mipmap_offsets@;
        let ghost chain = mip_chain(d0.take(w0 * h0), w0, h0);
        let ghost offs = mip_offsets(d0.len() as int, w0, h0);
        let mut src_offset: usize = 0;
        let mut sw: usize = self.width;
        let mut sh: usize = self.height;
        assert(d0.take(w0 * h0) =~= self.data@.subrange(0, w0 * h0));
        while sw > 1 && sh > 1
            invariant
                self.width == w0,
                self.height == h0,
                self.depth == depth0,
                sw >= 1,
                sh >= 1,
                src_offset + sw * sh <= self.data@.len(),
                d0 + chain == self.data@ + mip_chain(
                    self.data@.subrange(src_offset as int, src_offset + sw * sh),
                    sw as int,
                    sh as int,
                ),
                o0 + offs == self.mipmap_offsets@ + mip_offsets(
                    self.data@.len() as int,
                    sw as int,
                    sh as int,
                ),
            decreases sw,
        {
            let ghost cur = self.data@.subrange(src_offset as int, src_offset + sw * sh);
            let dw = sw / 2;
            let dh = sh / 2;
            let dlen = self.data.len();
            let mut level: Vec<u32> = Vec::new();
            let mut y: usize = 0;
            while y < dh
                invariant
                    dw == sw / 2,
                    dh == sh / 2,
                    sw >= 2,
                    sh >= 2,
                    y <= dh,
                    dlen == self.data@.len(),
                    src_offset + sw * sh <= self.data@.len(),
                    cur == self.data@.subrange(src_offset as int, src_offset + sw * sh),
                    level@ == downsample(cur, sw as int, dw as int, dh as int).take(y * dw),
                decreases dh - y,
            {
                let mut x: usize = 0;
                while x < dw
                    invariant
                        dw == sw / 2,
                        dh == sh / 2,
                        sw >= 2,
                        sh >= 2,
                        y < dh,
                        x <= dw,
                        dlen == self.data@.len(),
                        src_offset + sw * sh <= self.data@.len(),
                        cur == self.data@.subrange(src_offset as int, src_offset + sw * sh),
                        level@ == downsample(cur, sw as int, dw as int, dh as int).take(
                            y * dw + x,
                        ),
                    decreases dw - x,
                {
                    proof {
                        lemma_block_in_bounds(x as int, y as int, sw as int, sh as int);
                        assert(2 * y * sw <= (2 * y + 1) * sw) by (nonlinear_arith)
                            requires
                                sw >= 0,
                        ;
                        assert(y * dw + x < dw * dh) by (nonlinear_arith)
                            requires
                                x < dw,
                                y < dh,
                        ;
                        lemma_fundamental_div_mod_converse(
                            y * dw + x,
                            dw as int,
                            y as int,
                            x as int,
                        );
                    }
                    let row0 = src_offset + 2 * y * sw;
                    let row1 = src_offset + (2 * y + 1) * sw;
                    let s1 = self.data[row0 + 2 * x];
                    let s2 = self.data[row0 + 2 * x + 1];
                    let s3 = self.data[row1 + 2 * x];
                    let s4 = self.data[row1 + 2 * x + 1];
                    level.push(average_four_pixels(s1, s2, s3, s4));
                    x = x + 1;
                    assert(level@ =~= downsample(cur, sw as int, dw as int, dh as int).take(
                        y * dw + x,
                    ));
                }
                y = y + 1;
                assert(y * dw == (y - 1) * dw + dw) by (nonlinear_arith);
            }
            assert(dh * dw == dw * dh) by (nonlinear_arith);
            assert(level@ =~= downsample(cur, sw as int, dw as int, dh as int));
            let new_offset = self.data.len();
            self.mipmap_offsets.push(new_offset);
            self.data.append(&mut level);
            proof {
                let d = downsample(cur, sw as int, dw as int, dh as int);
                assert(self.data@.subrange(new_offset as int, new_offset + dw * dh) =~= d);
            }
            src_offset = new_offset;
            sw = dw;
            sh = dh;
        }
    }
}

impl Texture {
    /// Builds a texture from the raw pixels of a decoded image in format
    /// `format`, each pixel packed with red in the lowest byte and alpha in
    /// the highest; channels the format lacks are 255. Returns `None` for
    /// the floating-point formats and for data that is not a whole number of
    /// pixels.
    pub fn from_raw_pixels(width: usize, height: usize, format: PixelFormat, raw: &Vec<u8>) -> (r:
        Option<Texture>)
        ensures
            r is Some <==> channel_count(format) > 0 && raw@.len() as int % (channel_count(format)
                * channel_width(format)) == 0,
            r matches Some(t) ==> {
                &&& t.width == width
                &&& t.height == height
                &&& t.depth == 4
                &&& t.mipmap_offsets@ == seq![0usize]
                &&& t.data@.len() == raw@.len() as int / (channel_count(format) * channel_width(format))
                &&& forall|i: int|
                    0 <= i < t.data@.len() ==> #[trigger] t.data@[i] == raw_pixel(raw@, format, i)
            },
    {
        let (n, w): (usize, usize) = match format {
            PixelFormat::R8 => (1, 1),
            PixelFormat::R8G8 => (2, 1),
            PixelFormat::R8G8B8 => (3, 1),
            PixelFormat::R8G8B8A8 => (4, 1),
            PixelFormat::R16 => (1, 2),
            PixelFormat::R16G16 => (2, 2),
            PixelFormat::R16G16B16 => (3, 2),
            PixelFormat::R16G16B16A16 => (4, 2),
            _ => {
                return None;
            },
        };
        let stride = n * w;
        if raw.len() % stride != 0 {
            return None;
        }
        let rlen = raw.len();
        let count = rlen / stride;
        let mut data: Vec<u32> = Vec::new();
        let mut i: usize = 0;
        while i < count
            invariant
                n == channel_count(format),
                w == channel_width(format),
                stride == n * w,
                1 <= n <= 4,
                1 <= w <= 2,
                rlen == raw@.len(),
                count == raw@.len() as int / stride as int,
                raw@.len() as int % stride as int == 0,
                i <= count,
                data@.len() == i,
                forall|j: int| 0 <= j < i ==> #[trigger] data@[j] == raw_pixel(raw@, format, j),
            decreases count - i,
        {
            assert(i * stride + stride <= raw@.len()) by (nonlinear_arith)
                requires
                    i < count,
                    count == raw@.len() as int / stride as int,
                    raw@.len() as int % stride as int == 0,
                    stride >= 1,
            ;
            let base = i * stride;
            let mut ch: [u32; 4] = [255, 255, 255, 255];
            let mut c: usize = 0;
            while c < n
                invariant
                    n == channel_count(format),
                    w == channel_width(format),
                    stride == n * w,
                    1 <= n <= 4,
                    1 <= w <= 2,
                    base == i * stride,
                    rlen == raw@.len(),
                    base + stride <= raw@.len(),
                    c <= n,
                    forall|k: int| 0 <= k < 4 ==> #[trigger] ch@[k] <= 255,
                    forall|k: int|
                        0 <= k < 4 ==> #[trigger] ch@[k] == if k < c {
                            raw_channel(raw@, format, i as int, k)
                        } else {
                            255
                        },
                decreases n - c,
            {
                assert(c * w + (w - 1) < stride) by (nonlinear_arith)
                    requires
                        c < n,
                        stride == n * w,
                        w >= 1,
                ;
                assert(base + c * w + (w - 1) == i * n * w + c * w + (w - 1)) by (nonlinear_arith)
                    requires
                        base == i * stride,
                        stride == n * w,
                ;
                ch[c] = raw[base + c * w + (w - 1)] as u32;
                c = c + 1;
            }
            data.push(ch[0] + ch[1] * 0x100 + ch[2] * 0x10000 + ch[3] * 0x1000000);
            i = i + 1;
        }
        Some(Texture { width, height, depth: 4, data, mipmap_offsets: vec![0] })
    }

    /// Builds a texture from interleaved 8-bit RGB (`depth` 3) or RGBA
    /// (`depth` 4) pixels, each packed as `0xAARRGGBB` with alpha 255 for
    /// RGB. Returns `None` for any other depth.
    pub fn from_interleaved(width: usize, height: usize, depth: usize, raw: &Vec<u8>) -> (r:
        Option<Texture>)
        ensures
            r is Some <==> depth == 3 || depth == 4,
            r matches Some(t) ==> {
                &&& t.width == width
                &&& t.height == height
                &&& t.depth == depth
                &&& t.mipmap_offsets@ == seq![0usize]
                &&& t.data@.len() == raw@.len() as int / depth as int
                &&& forall|i: int|
                    0 <= i < t.data@.len() ==> #[trigger] t.data@[i] == interleaved_pixel(
                        raw@,
                        depth as int,
                        i,
                    )
            },
    {
        if depth != 3 && depth != 4 {
            return None;
        }
        let rlen = raw.len();
        let count = rlen / depth;
        let mut data: Vec<u32> = Vec::new();
        let mut i: usize = 0;
        while i < count
            invariant
                depth == 3 || depth == 4,
                rlen == raw@.len(),
                count == raw@.len() as int / depth as int,
                i <= count,
                data@.len() == i,
                forall|j: int|
                    0 <= j < i ==> #[trigger] data@[j] == interleaved_pixel(raw@, depth as int, j),
            decreases count - i,
        {
            assert(depth * i + depth <= raw@.len()) by (nonlinear_arith)
                requires
                    i < count,
                    count == raw@.len() as int / depth as int,
                    depth >= 3,
            ;
            let b = depth * i;
            let a = if depth == 4 {
                raw[b + 3]
            } else {
                255
            };
            data.push(colour_rgba(a, raw[b], raw[b + 1], raw[b + 2]));
            i = i + 1;
        }
        Some(Texture { width, height, depth, data, mipmap_offsets: vec![0] })
    }
}

} // verus!
