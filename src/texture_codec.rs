use vstd::prelude::*;

use crate::bytes::{
    fill, lemma_u16_le_round_trip, lemma_u32_le_round_trip, push_bytes, push_fill, push_u16,
    push_u32, read_u16, read_u16_at, read_u32, read_u32_at, u16_le, u32_le,
};
use crate::error::{ContainerError, EncodeError};
use crate::palette::{nibble_at, Rgba8, FADE_PALETTE_SIZE};
use crate::psx_structs::{
    cell_desc_at, cell_desc_bytes, TextureCellBinary, TextureCellPSX, TextureCollectionPSX,
};

verus! {

/// Magic number at the start of a texture container.
pub const TEXTURE_MAGIC: u32 = 0x464D5348;

/// Size of the texture container header.
pub const TEXTURE_HEADER_SIZE: usize = 24;

/// Disc sector size; every cell's pixel data starts on a sector boundary.
pub const SECTOR_SIZE: usize = 2048;

/// Name-table offset that marks the table as absent.
pub const NAME_TABLE_ABSENT: u32 = 0xFFFF_FFFF;

/// Number of cells a texture container can describe.
pub const MAX_CELLS: usize = 256;

/// Bytes of one cell's palette in the container: 256 colours of two bytes.
pub const PALETTE_BYTES: usize = 512;

/// `n` rounded up to a multiple of the sector size.
pub open spec fn align_sector(n: int) -> int {
    (n + 2047) / 2048 * 2048
}

/// Whether a cell holds what its fields promise: a full 256-entry fade
/// palette and one nibble per pixel.
pub open spec fn cell_wf(c: TextureCellPSX) -> bool {
    &&& c.palette@.len() == FADE_PALETTE_SIZE
    &&& c.texture_data@.len() == (c.texture_width * c.texture_height + 1) / 2
}

/// Whether every cell holds what its fields promise.
pub open spec fn cells_wf(cells: Seq<TextureCellPSX>) -> bool {
    forall|i: int| 0 <= i < cells.len() ==> cell_wf(#[trigger] cells[i])
}

/// Length of the texture blob holding the first `k` cells.
pub open spec fn blob_end(cells: Seq<TextureCellPSX>, k: int) -> int
    decreases k,
{
    if k <= 0 {
        0
    } else {
        align_sector(blob_end(cells, k - 1)) + cells[k - 1].texture_data@.len()
    }
}

/// Offset of cell `i`'s pixel data within the texture blob.
pub open spec fn cell_start(cells: Seq<TextureCellPSX>, i: int) -> int {
    align_sector(blob_end(cells, i))
}

/// Sector index of cell `i`'s pixel data within the texture blob.
pub open spec fn cell_sector(cells: Seq<TextureCellPSX>, i: int) -> int {
    cell_start(cells, i) / 2048
}

/// The texture blob of the first `k` cells, each padded with zeros to a
/// sector boundary before its data.
pub open spec fn texture_blob(cells: Seq<TextureCellPSX>, k: int) -> Seq<u8>
    decreases k,
{
    if k <= 0 {
        Seq::empty()
    } else {
        texture_blob(cells, k - 1) + fill(
            0,
            (cell_start(cells, k - 1) - blob_end(cells, k - 1)) as nat,
        ) + cells[k - 1].texture_data@
    }
}

/// Descriptor of cell `i`.
pub open spec fn cell_desc(cells: Seq<TextureCellPSX>, i: int) -> TextureCellBinary {
    TextureCellBinary {
        sector_offset_texture: cell_sector(cells, i) as u8,
        palette_index: i as u8,
        texture_width: cells[i].texture_width,
        texture_height: cells[i].texture_height,
        avg_color: cells[i].avg_color,
    }
}

/// Descriptor table of the first `k` cells.
pub open spec fn cell_descs_bytes(cells: Seq<TextureCellPSX>, k: int) -> Seq<u8>
    decreases k,
{
    if k <= 0 {
        Seq::empty()
    } else {
        cell_descs_bytes(cells, k - 1) + cell_desc_bytes(cell_desc(cells, k - 1))
    }
}

/// Little-endian bytes of a palette.
pub open spec fn palette_bytes(p: Seq<u16>) -> Seq<u8>
    decreases p.len(),
{
    if p.len() == 0 {
        Seq::empty()
    } else {
        palette_bytes(p.drop_last()) + u16_le(p.last())
    }
}

/// Palette blob of the first `k` cells.
pub open spec fn palettes_bytes(cells: Seq<TextureCellPSX>, k: int) -> Seq<u8>
    decreases k,
{
    if k <= 0 {
        Seq::empty()
    } else {
        palettes_bytes(cells, k - 1) + palette_bytes(cells[k - 1].palette@)
    }
}

/// Offset of the texture blob, from the end of the header: the descriptor
/// table and the palette blob rounded up to a whole number of sectors.
pub open spec fn texture_offset(cells: Seq<TextureCellPSX>) -> int {
    align_sector(8 * cells.len() + palettes_bytes(cells, cells.len() as int).len() as int)
}

/// Header of the texture container of `cells`.
pub open spec fn texture_header(cells: Seq<TextureCellPSX>) -> Seq<u8> {
    u32_le(TEXTURE_MAGIC) + u32_le(cells.len() as u32) + u32_le(0) + u32_le(
        (8 * cells.len()) as u32,
    ) + u32_le(texture_offset(cells) as u32) + u32_le(NAME_TABLE_ABSENT)
}

/// Whether the cells fit the one-byte sector and palette fields.
pub open spec fn texture_encodable(cells: Seq<TextureCellPSX>) -> bool {
    &&& cells.len() <= MAX_CELLS
    &&& cells.len() > 0 ==> cell_sector(cells, cells.len() - 1) <= 255
}

/// The texture container of `cells`: header, descriptor table, palette
/// blob, zero padding to a sector boundary, texture blob.
pub open spec fn texture_bytes(cells: Seq<TextureCellPSX>) -> Seq<u8> {
    let n = cells.len() as int;
    let pal = palettes_bytes(cells, n);
    texture_header(cells) + cell_descs_bytes(cells, n) + pal + fill(
        0,
        (texture_offset(cells) - 8 * n - pal.len()) as nat,
    ) + texture_blob(cells, n)
}

proof fn lemma_align_sector(x: int)
    requires
        x >= 0,
    ensures
        x <= align_sector(x) < x + 2048,
        align_sector(x) % 2048 == 0,
{
    assert(x <= (x + 2047) / 2048 * 2048 < x + 2048) by (nonlinear_arith)
        requires
            x >= 0,
    ;
    assert(((x + 2047) / 2048 * 2048) % 2048 == 0) by (nonlinear_arith);
}

proof fn lemma_align_sector_mono(x: int, y: int)
    requires
        0 <= x <= y,
    ensures
        align_sector(x) <= align_sector(y),
{
    assert((x + 2047) / 2048 <= (y + 2047) / 2048) by (nonlinear_arith)
        requires
            x <= y,
    ;
    assert((x + 2047) / 2048 * 2048 <= (y + 2047) / 2048 * 2048) by (nonlinear_arith)
        requires
            (x + 2047) / 2048 <= (y + 2047) / 2048,
    ;
}

proof fn lemma_blob_end_mono(cells: Seq<TextureCellPSX>, i: int, j: int)
    requires
        0 <= i <= j <= cells.len(),
    ensures
        0 <= blob_end(cells, i) <= blob_end(cells, j),
        cell_start(cells, i) <= cell_start(cells, j),
    decreases j - i,
{
    if i < j {
        lemma_blob_end_mono(cells, i, j - 1);
        lemma_align_sector(blob_end(cells, j - 1));
        lemma_align_sector_mono(blob_end(cells, i), blob_end(cells, j));
    } else {
        lemma_blob_end_nonneg(cells, i);
    }
}

proof fn lemma_blob_end_nonneg(cells: Seq<TextureCellPSX>, k: int)
    requires
        0 <= k <= cells.len(),
    ensures
        blob_end(cells, k) >= 0,
    decreases k,
{
    if k > 0 {
        lemma_blob_end_nonneg(cells, k - 1);
        lemma_align_sector(blob_end(cells, k - 1));
    }
}

/// In every texture container the encoder produces, each cell's pixel data
/// starts at its sector index times the sector size, and the data of an
/// earlier cell ends at or before the start of every later cell's data.
pub proof fn lemma_sectors_disjoint(cells: Seq<TextureCellPSX>, i: int, j: int)
    requires
        0 <= i < j < cells.len(),
    ensures
        cell_start(cells, i) == 2048 * cell_sector(cells, i),
        cell_start(cells, i) + cells[i].texture_data@.len() <= cell_start(cells, j),
        cell_sector(cells, i) < cell_sector(cells, j) || cells[i].texture_data@.len() == 0,
{
    lemma_blob_end_nonneg(cells, i);
    lemma_align_sector(blob_end(cells, i));
    lemma_blob_end_mono(cells, i + 1, j);
    lemma_align_sector(blob_end(cells, j));
    lemma_align_sector(blob_end(cells, i + 1));
    let si = cell_start(cells, i);
    let sj = cell_start(cells, j);
    assert(si == 2048 * (si / 2048));
    assert(sj == 2048 * (sj / 2048));
    if cells[i].texture_data@.len() > 0 {
        assert(si < sj);
        assert(si / 2048 < sj / 2048) by (nonlinear_arith)
            requires
                si < sj,
                si == 2048 * (si / 2048),
                sj == 2048 * (sj / 2048),
        ;
    }
}

proof fn lemma_texture_blob_len(cells: Seq<TextureCellPSX>, k: int)
    requires
        0 <= k <= cells.len(),
    ensures
        texture_blob(cells, k).len() == blob_end(cells, k),
    decreases k,
{
    if k > 0 {
        lemma_texture_blob_len(cells, k - 1);
        lemma_blob_end_nonneg(cells, k - 1);
        lemma_align_sector(blob_end(cells, k - 1));
    }
}

proof fn lemma_texture_blob_prefix(cells: Seq<TextureCellPSX>, i: int, k: int)
    requires
        0 <= i < k <= cells.len(),
    ensures
        texture_blob(cells, k).subrange(0, blob_end(cells, i + 1)) == texture_blob(cells, i + 1),
    decreases k,
{
    lemma_texture_blob_len(cells, i + 1);
    if k == i + 1 {
        assert(texture_blob(cells, k).subrange(0, blob_end(cells, i + 1)) =~= texture_blob(
            cells,
            k,
        ));
    } else {
        lemma_texture_blob_prefix(cells, i, k - 1);
        lemma_texture_blob_len(cells, k - 1);
        lemma_blob_end_mono(cells, i + 1, k - 1);
        assert(texture_blob(cells, k).subrange(0, blob_end(cells, i + 1)) =~= texture_blob(
            cells,
            k - 1,
        ).subrange(0, blob_end(cells, i + 1)));
    }
}

/// In every texture container the encoder produces, the sector byte of
/// cell `i`'s descriptor, times the sector size, is where that cell's packed
/// pixels sit in the texture blob.
pub proof fn lemma_cell_block(cells: Seq<TextureCellPSX>, i: int)
    requires
        texture_encodable(cells),
        0 <= i < cells.len(),
    ensures
        cell_desc(cells, i).sector_offset_texture * 2048 == cell_start(cells, i),
        texture_blob(cells, cells.len() as int).subrange(
            cell_start(cells, i),
            cell_start(cells, i) + cells[i].texture_data@.len(),
        ) == cells[i].texture_data@,
{
    let n = cells.len() as int;
    lemma_blob_end_nonneg(cells, i);
    lemma_align_sector(blob_end(cells, i));
    lemma_blob_end_mono(cells, i, n - 1);
    let si = cell_start(cells, i);
    let sl = cell_start(cells, n - 1);
    assert(si / 2048 <= sl / 2048) by (nonlinear_arith)
        requires
            si <= sl,
    ;
    assert(si == 2048 * (si / 2048));
    lemma_texture_blob_len(cells, i);
    lemma_texture_blob_len(cells, i + 1);
    lemma_texture_blob_len(cells, n);
    lemma_blob_end_mono(cells, i + 1, n);
    lemma_texture_blob_prefix(cells, i, n);
    let b = texture_blob(cells, i + 1);
    assert(b.subrange(si, si + cells[i].texture_data@.len()) =~= cells[i].texture_data@);
    assert(texture_blob(cells, n).subrange(si, si + cells[i].texture_data@.len()) =~= b.subrange(
        si,
        si + cells[i].texture_data@.len(),
    ));
}

fn push_palette(out: &mut Vec<u8>, p: &Vec<u16>)
    ensures
        final(out)@ == old(out)@ + palette_bytes(p@),
{
    let ghost start = out@;
    let mut k: usize = 0;
    while k < p.len()
        invariant
            k <= p@.len(),
            out@ == start + palette_bytes(p@.take(k as int)),
        decreases p@.len() - k,
    {
        push_u16(out, p[k]);
        proof {
            let t = p@.take(k as int + 1);
            assert(t.drop_last() =~= p@.take(k as int));
        }
        k = k + 1;
        assert(out@ =~= start + palette_bytes(p@.take(k as int)));
    }
    assert(p@.take(k as int) =~= p@);
}

proof fn lemma_palette_bytes_len(p: Seq<u16>)
    ensures
        palette_bytes(p).len() == 2 * p.len(),
    decreases p.len(),
{
    if p.len() > 0 {
        lemma_palette_bytes_len(p.drop_last());
    }
}

impl TextureCollectionPSX {
    /// Encodes the cells as a texture container. Fails when there are more
    /// than 256 cells or a cell's data would start beyond sector 255; never
    /// yields a partial container. The name table is written as absent.
    pub fn encode(&self) -> (r: Result<Vec<u8>, EncodeError>)
        requires
            cells_wf(self.texture_cells@),
        ensures
            match r {
                Ok(b) => texture_encodable(self.texture_cells@) && b@ == texture_bytes(
                    self.texture_cells@,
                ),
                Err(e) => !texture_encodable(self.texture_cells@) && e
                    == EncodeError::QuantizationOverflow,
            },
    {
        let ghost cells = self.texture_cells@;
        let n = self.texture_cells.len();
        if n > MAX_CELLS {
            return Err(EncodeError::QuantizationOverflow);
        }
        let mut descs: Vec<u8> = Vec::new();
        let mut pals: Vec<u8> = Vec::new();
        let mut blob: Vec<u8> = Vec::new();
        let mut i: usize = 0;
        while i < n
            invariant
                cells == self.texture_cells@,
                n == cells.len() <= MAX_CELLS,
                forall|j: int| 0 <= j < cells.len() ==> cell_wf(#[trigger] cells[j]),
                i <= n,
                descs@ == cell_descs_bytes(cells, i as int),
                pals@ == palettes_bytes(cells, i as int),
                blob@ == texture_blob(cells, i as int),
                blob@.len() == blob_end(cells, i as int),
                i > 0 ==> cell_sector(cells, i - 1) <= 255,
                blob@.len() <= 256 * 2048 + 0x8000,
                descs@.len() == 8 * i,
                pals@.len() <= 512 * i,
            decreases n - i,
        {
            let cell = &self.texture_cells[i];
            assert(cell_wf(cells[i as int]));
            assert(cell.texture_data@.len() <= 0x8000) by (nonlinear_arith)
                requires
                    cell.texture_data@.len() == (cell.texture_width * cell.texture_height + 1) / 2,
                    cell.texture_width <= 255,
                    cell.texture_height <= 255,
            ;
            proof {
                lemma_palette_bytes_len(cell.palette@);
            }
            push_palette(&mut pals, &cell.palette);
            let cur = blob.len();
            let start = (cur + 2047) / 2048 * 2048;
            let sector = start / 2048;
            proof {
                lemma_align_sector(cur as int);
            }
            if sector > 255 {
                proof {
                    lemma_blob_end_mono(cells, i as int, n - 1);
                    lemma_align_sector(cell_start(cells, n - 1));
                    assert(cell_start(cells, i as int) / 2048 <= cell_start(cells, n - 1) / 2048)
                        by (nonlinear_arith)
                        requires
                            cell_start(cells, i as int) <= cell_start(cells, n - 1),
                    ;
                }
                return Err(EncodeError::QuantizationOverflow);
            }
            push_fill(&mut blob, 0, start - cur);
            push_bytes(&mut blob, cell.texture_data.as_slice());
            let d = TextureCellBinary {
                sector_offset_texture: sector as u8,
                palette_index: i as u8,
                texture_width: cell.texture_width,
                texture_height: cell.texture_height,
                avg_color: cell.avg_color,
            };
            assert(d == cell_desc(cells, i as int));
            descs.push(d.sector_offset_texture);
            descs.push(d.palette_index);
            descs.push(d.texture_width);
            descs.push(d.texture_height);
            push_u32(&mut descs, d.avg_color);
            i = i + 1;
            assert(descs@ =~= cell_descs_bytes(cells, i as int));
            assert(blob@ =~= texture_blob(cells, i as int));
        }
        let desc_len = descs.len();
        let pal_len = pals.len();
        let used = desc_len + pal_len;
        let aligned = (used + 2047) / 2048 * 2048;
        proof {
            lemma_align_sector(used as int);
        }
        let mut out: Vec<u8> = Vec::new();
        push_u32(&mut out, TEXTURE_MAGIC);
        push_u32(&mut out, n as u32);
        push_u32(&mut out, 0);
        push_u32(&mut out, desc_len as u32);
        push_u32(&mut out, aligned as u32);
        push_u32(&mut out, NAME_TABLE_ABSENT);
        assert(out@ =~= texture_header(cells));
        push_bytes(&mut out, descs.as_slice());
        push_bytes(&mut out, pals.as_slice());
        push_fill(&mut out, 0, aligned - used);
        push_bytes(&mut out, blob.as_slice());
        assert(out@ =~= texture_bytes(cells));
        Ok(out)
    }
}

/// Truecolour of a 1-5-5-5 colour: each five-bit channel shifted left by
/// three, the alpha bit widened to 0 or 255.
pub open spec fn truecolor_of(c: u16) -> Rgba8 {
    Rgba8 {
        r: (c % 32 * 8) as u8,
        g: (c / 32 % 32 * 8) as u8,
        b: (c / 1024 % 32 * 8) as u8,
        a: if c / 0x8000 == 1 {
            255
        } else {
            0
        },
    }
}

/// Bytes after the texture container header.
pub open spec fn texture_section_len(b: Seq<u8>) -> int {
    b.len() - TEXTURE_HEADER_SIZE
}

/// Position of cell `i`'s descriptor.
pub open spec fn cell_desc_pos(b: Seq<u8>, i: int) -> int {
    TEXTURE_HEADER_SIZE + read_u32_at(b, 8) + 8 * i
}

/// Position of the pixel data that descriptor `d` points at.
pub open spec fn cell_pixels_pos(b: Seq<u8>, d: TextureCellBinary) -> int {
    TEXTURE_HEADER_SIZE + read_u32_at(b, 16) + SECTOR_SIZE * d.sector_offset_texture
}

/// Position of the palette that descriptor `d` points at.
pub open spec fn cell_palette_pos(b: Seq<u8>, d: TextureCellBinary) -> int {
    TEXTURE_HEADER_SIZE + read_u32_at(b, 12) + PALETTE_BYTES * d.palette_index
}

/// Number of pixels of the cell that descriptor `d` describes.
pub open spec fn pixel_count(d: TextureCellBinary) -> int {
    d.texture_width * d.texture_height
}

/// Whether cell `i`'s descriptor, pixel data and palette all lie in the file.
pub open spec fn cell_readable(b: Seq<u8>, i: int) -> bool {
    let p = cell_desc_pos(b, i);
    &&& p + 8 <= b.len()
    &&& cell_pixels_pos(b, cell_desc_at(b, p)) + (pixel_count(cell_desc_at(b, p)) + 1) / 2
        <= b.len()
    &&& cell_palette_pos(b, cell_desc_at(b, p)) + PALETTE_BYTES <= b.len()
}

/// Pixel `k` of the cell that descriptor `d` describes: its 4-bit index
/// looked up in the cell's palette.
pub open spec fn decoded_pixel(b: Seq<u8>, d: TextureCellBinary, k: int) -> Rgba8 {
    let byte = b[cell_pixels_pos(b, d) + k / 2];
    let nib = if k % 2 == 0 {
        byte / 16
    } else {
        byte % 16
    };
    truecolor_of(read_u16_at(b, cell_palette_pos(b, d) + 2 * nib))
}

/// All pixels of the cell that descriptor `d` describes, row by row.
pub open spec fn decoded_pixels(b: Seq<u8>, d: TextureCellBinary) -> Seq<Rgba8> {
    Seq::new(pixel_count(d) as nat, |k: int| decoded_pixel(b, d, k))
}

/// Outcome of validating a texture container: `None` when it is sound.
pub open spec fn texture_verdict(b: Seq<u8>) -> Option<ContainerError> {
    let sec = texture_section_len(b);
    if b.len() < TEXTURE_HEADER_SIZE {
        Some(ContainerError::Truncated)
    } else if read_u32_at(b, 0) != TEXTURE_MAGIC {
        Some(ContainerError::BadMagic)
    } else if read_u32_at(b, 8) > sec || read_u32_at(b, 12) > sec || read_u32_at(b, 16) > sec || (
    read_u32_at(b, 20) != NAME_TABLE_ABSENT && read_u32_at(b, 20) > sec) {
        Some(ContainerError::OutOfBounds)
    } else if exists|i: int| 0 <= i < read_u32_at(b, 4) && !#[trigger] cell_readable(b, i) {
        Some(ContainerError::OutOfBounds)
    } else {
        None
    }
}

/// A cell read back from a texture container.
pub struct DecodedCell {
    pub desc: TextureCellBinary,
    pub pixels: Vec<Rgba8>,
}

/// What the validator read from a sound texture container.
pub struct TextureInfo {
    pub cell_count: u32,
    pub descriptor_offset: u32,
    pub palette_offset: u32,
    pub texture_offset: u32,
    pub name_table_offset: u32,
    pub cells: Vec<DecodedCell>,
}

fn truecolor(c: u16) -> (r: Rgba8)
    ensures
        r == truecolor_of(c),
{
    Rgba8 {
        r: (c % 32 * 8) as u8,
        g: (c / 32 % 32 * 8) as u8,
        b: (c / 1024 % 32 * 8) as u8,
        a: if c / 0x8000 == 1 {
            255
        } else {
            0
        },
    }
}

fn decode_cell_pixels(bytes: &[u8], d: TextureCellBinary, pix: usize, pal: usize) -> (r: Vec<
    Rgba8,
>)
    requires
        pix == cell_pixels_pos(bytes@, d),
        pal == cell_palette_pos(bytes@, d),
        pix + (pixel_count(d) + 1) / 2 <= bytes@.len(),
        pal + PALETTE_BYTES <= bytes@.len(),
    ensures
        r@ == decoded_pixels(bytes@, d),
{
    assert(d.texture_width * d.texture_height <= 255 * 255) by (nonlinear_arith)
        requires
            d.texture_width <= 255,
            d.texture_height <= 255,
    ;
    let n: usize = d.texture_width as usize * d.texture_height as usize;
    let blen = bytes.len();
    let mut out: Vec<Rgba8> = Vec::new();
    let mut k: usize = 0;
    while k < n
        invariant
            blen == bytes@.len(),
            n == pixel_count(d),
            k <= n,
            pix == cell_pixels_pos(bytes@, d),
            pal == cell_palette_pos(bytes@, d),
            pix + (n + 1) / 2 <= bytes@.len(),
            pal + PALETTE_BYTES <= bytes@.len(),
            out@ == decoded_pixels(bytes@, d).take(k as int),
        decreases n - k,
    {
        assert(k / 2 < (n + 1) / 2);
        assert(pix + k / 2 < bytes@.len());
        let byte = bytes[pix + k / 2];
        let nib: usize = if k % 2 == 0 {
            (byte / 16) as usize
        } else {
            (byte % 16) as usize
        };
        let c = read_u16(bytes, pal + 2 * nib);
        out.push(truecolor(c));
        k = k + 1;
        assert(out@ =~= decoded_pixels(bytes@, d).take(k as int));
    }
    assert(out@ =~= decoded_pixels(bytes@, d));
    out
}

/// Validates a texture container and decodes every cell. Checks, in order:
/// the header is complete; the magic number; the descriptor, palette and
/// texture offsets, and the name-table offset unless it marks the table
/// absent, lie within the bytes after the header; then for each cell, that
/// its descriptor, the pixel data at its sector and its palette lie within
/// the file. The first failing check decides the error.
pub fn decode_texture(bytes: &[u8]) -> (r: Result<TextureInfo, ContainerError>)
    ensures
        match r {
            Ok(info) => {
                &&& texture_verdict(bytes@) is None
                &&& info.cell_count == read_u32_at(bytes@, 4)
                &&& info.descriptor_offset == read_u32_at(bytes@, 8)
                &&& info.palette_offset == read_u32_at(bytes@, 12)
                &&& info.texture_offset == read_u32_at(bytes@, 16)
                &&& info.name_table_offset == read_u32_at(bytes@, 20)
                &&& info.cells@.len() == info.cell_count
                &&& forall|i: int|
                    0 <= i < info.cell_count ==> {
                        let d = cell_desc_at(bytes@, cell_desc_pos(bytes@, i));
                        &&& (#[trigger] info.cells@[i]).desc == d
                        &&& info.cells@[i].pixels@ == decoded_pixels(bytes@, d)
                    }
            },
            Err(e) => texture_verdict(bytes@) == Some(e),
        },
{
    let ghost b = bytes@;
    let len = bytes.len();
    if len < TEXTURE_HEADER_SIZE {
        return Err(ContainerError::Truncated);
    }
    if read_u32(bytes, 0) != TEXTURE_MAGIC {
        return Err(ContainerError::BadMagic);
    }
    let count = read_u32(bytes, 4);
    let doff = read_u32(bytes, 8);
    let poff = read_u32(bytes, 12);
    let toff = read_u32(bytes, 16);
    let noff = read_u32(bytes, 20);
    let sec = len - TEXTURE_HEADER_SIZE;
    if doff as usize > sec || poff as usize > sec || toff as usize > sec || (noff
        != NAME_TABLE_ABSENT && noff as usize > sec) {
        return Err(ContainerError::OutOfBounds);
    }
    let mut cells: Vec<DecodedCell> = Vec::new();
    let mut i: u32 = 0;
    while i < count
        invariant
            b == bytes@,
            len == b.len(),
            len >= TEXTURE_HEADER_SIZE,
            count == read_u32_at(b, 4),
            doff == read_u32_at(b, 8),
            poff == read_u32_at(b, 12),
            toff == read_u32_at(b, 16),
            read_u32_at(b, 0) == TEXTURE_MAGIC,
            noff == read_u32_at(b, 20),
            doff <= len - TEXTURE_HEADER_SIZE,
            poff <= len - TEXTURE_HEADER_SIZE,
            toff <= len - TEXTURE_HEADER_SIZE,
            noff != NAME_TABLE_ABSENT ==> noff <= len - TEXTURE_HEADER_SIZE,
            i <= count,
            cells@.len() == i,
            forall|j: int| 0 <= j < i ==> #[trigger] cell_readable(b, j),
            forall|j: int|
                0 <= j < i ==> {
                    let d = cell_desc_at(b, cell_desc_pos(b, j));
                    &&& (#[trigger] cells@[j]).desc == d
                    &&& cells@[j].pixels@ == decoded_pixels(b, d)
                },
        decreases count - i,
    {
        let p64: u64 = 24 + doff as u64 + 8 * i as u64;
        if p64 + 8 > len as u64 {
            assert(!cell_readable(b, i as int));
            assert(texture_verdict(b) == Some(ContainerError::OutOfBounds));
            return Err(ContainerError::OutOfBounds);
        }
        let p = p64 as usize;
        let d = TextureCellBinary::from_bytes(&bytes[p..p + 8]);
        assert(d == cell_desc_at(b, p as int)) by {
            assert(bytes@.subrange(p as int, p + 8) =~= b.subrange(p as int, p + 8));
        }
        assert(d.texture_width * d.texture_height <= 255 * 255) by (nonlinear_arith)
            requires
                d.texture_width <= 255,
                d.texture_height <= 255,
        ;
        let npix: u64 = d.texture_width as u64 * d.texture_height as u64;
        let pix64: u64 = 24 + toff as u64 + 2048 * d.sector_offset_texture as u64;
        let pal64: u64 = 24 + poff as u64 + 512 * d.palette_index as u64;
        if pix64 + (npix + 1) / 2 > len as u64 || pal64 + 512 > len as u64 {
            assert(!cell_readable(b, i as int));
            assert(texture_verdict(b) == Some(ContainerError::OutOfBounds));
            return Err(ContainerError::OutOfBounds);
        }
        let pixels = decode_cell_pixels(bytes, d, pix64 as usize, pal64 as usize);
        cells.push(DecodedCell { desc: d, pixels });
        i = i + 1;
    }
    Ok(
        TextureInfo {
            cell_count: count,
            descriptor_offset: doff,
            palette_offset: poff,
            texture_offset: toff,
            name_table_offset: noff,
            cells,
        },
    )
}

proof fn lemma_cell_descs_bytes_index(cells: Seq<TextureCellPSX>, k: int, i: int, j: int)
    requires
        0 <= i < k <= cells.len(),
        0 <= j < 8,
    ensures
        cell_descs_bytes(cells, k).len() == 8 * k,
        cell_descs_bytes(cells, k)[8 * i + j] == cell_desc_bytes(cell_desc(cells, i))[j],
    decreases k,
{
    lemma_cell_descs_bytes_len(cells, k - 1);
    if i < k - 1 {
        lemma_cell_descs_bytes_index(cells, k - 1, i, j);
    }
}

proof fn lemma_cell_descs_bytes_len(cells: Seq<TextureCellPSX>, k: int)
    requires
        0 <= k <= cells.len(),
    ensures
        cell_descs_bytes(cells, k).len() == 8 * k,
    decreases k,
{
    if k > 0 {
        lemma_cell_descs_bytes_len(cells, k - 1);
    }
}

proof fn lemma_palette_bytes_index(p: Seq<u16>, m: int, j: int)
    requires
        0 <= m < p.len(),
        0 <= j < 2,
    ensures
        palette_bytes(p)[2 * m + j] == u16_le(p[m])[j],
    decreases p.len(),
{
    lemma_palette_bytes_len(p.drop_last());
    if m < p.len() - 1 {
        lemma_palette_bytes_index(p.drop_last(), m, j);
    }
}

proof fn lemma_palettes_bytes_index(cells: Seq<TextureCellPSX>, k: int, i: int, t: int)
    requires
        0 <= i < k <= cells.len(),
        0 <= t < PALETTE_BYTES,
        forall|c: int| 0 <= c < cells.len() ==> (#[trigger] cells[c]).palette@.len() == 256,
    ensures
        palettes_bytes(cells, k).len() == PALETTE_BYTES * k,
        palettes_bytes(cells, k)[PALETTE_BYTES * i + t] == palette_bytes(cells[i].palette@)[t],
    decreases k,
{
    lemma_full_palettes_len(cells, k - 1);
    lemma_palette_bytes_len(cells[k - 1].palette@);
    if i < k - 1 {
        lemma_palettes_bytes_index(cells, k - 1, i, t);
    }
}

proof fn lemma_full_palettes_len(cells: Seq<TextureCellPSX>, k: int)
    requires
        0 <= k <= cells.len(),
        forall|c: int| 0 <= c < cells.len() ==> (#[trigger] cells[c]).palette@.len() == 256,
    ensures
        palettes_bytes(cells, k).len() == PALETTE_BYTES * k,
    decreases k,
{
    if k > 0 {
        lemma_full_palettes_len(cells, k - 1);
        lemma_palette_bytes_len(cells[k - 1].palette@);
    }
}


proof fn lemma_texture_regions(cells: Seq<TextureCellPSX>)
    requires
        cells_wf(cells),
    ensures
        cell_descs_bytes(cells, cells.len() as int).len() == 8 * cells.len(),
        palettes_bytes(cells, cells.len() as int).len() == PALETTE_BYTES * cells.len(),
        8 * cells.len() + PALETTE_BYTES * cells.len() <= texture_offset(cells),
        texture_bytes(cells).len() == TEXTURE_HEADER_SIZE + texture_offset(cells) + blob_end(
            cells,
            cells.len() as int,
        ),
        blob_end(cells, cells.len() as int) >= 0,
        forall|q: int|
            0 <= q < TEXTURE_HEADER_SIZE ==> #[trigger] texture_bytes(cells)[q] == texture_header(
                cells,
            )[q],
        forall|q: int|
            0 <= q < 8 * cells.len() ==> #[trigger] texture_bytes(cells)[TEXTURE_HEADER_SIZE + q]
                == cell_descs_bytes(cells, cells.len() as int)[q],
        forall|q: int|
            0 <= q < PALETTE_BYTES * cells.len() ==> #[trigger] texture_bytes(cells)[
            TEXTURE_HEADER_SIZE + 8 * cells.len() + q] == palettes_bytes(
                cells,
                cells.len() as int,
            )[q],
        forall|q: int|
            0 <= q < blob_end(cells, cells.len() as int) ==> #[trigger] texture_bytes(cells)[
            TEXTURE_HEADER_SIZE + texture_offset(cells) + q] == texture_blob(
                cells,
                cells.len() as int,
            )[q],
{
    let n = cells.len() as int;
    assert forall|c: int| 0 <= c < cells.len() implies (#[trigger] cells[c]).palette@.len()
        == 256 by {
        assert(cell_wf(cells[c]));
    }
    lemma_cell_descs_bytes_len(cells, n);
    lemma_full_palettes_len(cells, n);
    lemma_align_sector(8 * n + 512 * n);
    lemma_texture_blob_len(cells, n);
    lemma_blob_end_nonneg(cells, n);
}

#[verifier::rlimit(40)]
proof fn lemma_texture_header_fields(cells: Seq<TextureCellPSX>)
    requires
        cells_wf(cells),
        texture_encodable(cells),
    ensures
        read_u32_at(texture_bytes(cells), 0) == TEXTURE_MAGIC,
        read_u32_at(texture_bytes(cells), 4) == cells.len(),
        read_u32_at(texture_bytes(cells), 8) == 0,
        read_u32_at(texture_bytes(cells), 12) == 8 * cells.len(),
        read_u32_at(texture_bytes(cells), 16) == texture_offset(cells),
        read_u32_at(texture_bytes(cells), 20) == NAME_TABLE_ABSENT,
{
    let n = cells.len() as int;
    let b = texture_bytes(cells);
    let h = texture_header(cells);
    lemma_texture_regions(cells);
    lemma_align_sector(8 * n + 512 * n);
    assert(texture_offset(cells) < 8 * 256 + 512 * 256 + 2048);
    lemma_u32_le_round_trip(TEXTURE_MAGIC);
    lemma_u32_le_round_trip(n as u32);
    lemma_u32_le_round_trip(0);
    lemma_u32_le_round_trip((8 * n) as u32);
    lemma_u32_le_round_trip(texture_offset(cells) as u32);
    lemma_u32_le_round_trip(NAME_TABLE_ABSENT);
    assert(b[0] == h[0] && b[1] == h[1] && b[2] == h[2] && b[3] == h[3]);
    assert(b[4] == h[4] && b[5] == h[5] && b[6] == h[6] && b[7] == h[7]);
    assert(b[8] == h[8] && b[9] == h[9] && b[10] == h[10] && b[11] == h[11]);
    assert(b[12] == h[12] && b[13] == h[13] && b[14] == h[14] && b[15] == h[15]);
    assert(b[16] == h[16] && b[17] == h[17] && b[18] == h[18] && b[19] == h[19]);
    assert(b[20] == h[20] && b[21] == h[21] && b[22] == h[22] && b[23] == h[23]);
}

#[verifier::rlimit(40)]
proof fn lemma_texture_desc(cells: Seq<TextureCellPSX>, i: int)
    requires
        cells_wf(cells),
        texture_encodable(cells),
        0 <= i < cells.len(),
    ensures
        cell_desc_at(texture_bytes(cells), TEXTURE_HEADER_SIZE + 8 * i) == cell_desc(cells, i),
{
    let n = cells.len() as int;
    let b = texture_bytes(cells);
    let e = cell_desc_bytes(cell_desc(cells, i));
    lemma_texture_regions(cells);
    assert forall|j: int| 0 <= j < 8 implies b[24 + 8 * i + j] == #[trigger] e[j] by {
        lemma_cell_descs_bytes_index(cells, n, i, j);
        assert(b[24 + (8 * i + j)] == cell_descs_bytes(cells, n)[8 * i + j]);
    }
    lemma_u32_le_round_trip(cell_desc(cells, i).avg_color);
    assert(b[24 + 8 * i] == e[0] && b[24 + 8 * i + 1] == e[1] && b[24 + 8 * i + 2] == e[2] && b[24
        + 8 * i + 3] == e[3]);
    assert(b[24 + 8 * i + 4] == e[4] && b[24 + 8 * i + 5] == e[5] && b[24 + 8 * i + 6] == e[6]
        && b[24 + 8 * i + 7] == e[7]);
}

#[verifier::rlimit(40)]
proof fn lemma_texture_payload(cells: Seq<TextureCellPSX>, i: int)
    requires
        cells_wf(cells),
        texture_encodable(cells),
        0 <= i < cells.len(),
    ensures
        cell_pixels_pos(texture_bytes(cells), cell_desc(cells, i)) + (pixel_count(
            cell_desc(cells, i),
        ) + 1) / 2 <= texture_bytes(cells).len(),
        cell_palette_pos(texture_bytes(cells), cell_desc(cells, i)) + PALETTE_BYTES
            <= texture_bytes(cells).len(),
{
    let n = cells.len() as int;
    assert(cell_wf(cells[i]));
    lemma_texture_regions(cells);
    lemma_texture_header_fields(cells);
    lemma_cell_block(cells, i);
    lemma_blob_end_mono(cells, i + 1, n);
    assert(512 * i + 512 <= 512 * n) by (nonlinear_arith)
        requires
            i < n,
    ;
}

#[verifier::rlimit(40)]
proof fn lemma_texture_pixel(cells: Seq<TextureCellPSX>, i: int, k: int)
    requires
        cells_wf(cells),
        texture_encodable(cells),
        0 <= i < cells.len(),
        0 <= k < cells[i].texture_width * cells[i].texture_height,
    ensures
        decoded_pixel(texture_bytes(cells), cell_desc(cells, i), k) == truecolor_of(
            cells[i].palette@[nibble_at(cells[i].texture_data@, k) as int],
        ),
{
    let n = cells.len() as int;
    let b = texture_bytes(cells);
    let c = cells[i];
    let dd = cell_desc(cells, i);
    let blob = texture_blob(cells, n);
    assert(cell_wf(c));
    assert forall|q: int| 0 <= q < cells.len() implies (#[trigger] cells[q]).palette@.len()
        == 256 by {
        assert(cell_wf(cells[q]));
    }
    lemma_texture_regions(cells);
    lemma_texture_header_fields(cells);
    lemma_cell_block(cells, i);
    lemma_blob_end_mono(cells, i + 1, n);
    let start = cell_start(cells, i);
    assert(k / 2 < c.texture_data@.len());
    assert(b[24 + texture_offset(cells) + (start + k / 2)] == blob[start + k / 2]);
    assert(blob.subrange(start, start + c.texture_data@.len())[k / 2] == c.texture_data@[k / 2]);
    let nib = nibble_at(c.texture_data@, k) as int;
    lemma_palette_bytes_len(c.palette@);
    lemma_palettes_bytes_index(cells, n, i, 2 * nib);
    lemma_palettes_bytes_index(cells, n, i, 2 * nib + 1);
    lemma_palette_bytes_index(c.palette@, nib, 0);
    lemma_palette_bytes_index(c.palette@, nib, 1);
    lemma_u16_le_round_trip(c.palette@[nib]);
    assert(512 * i + 2 * nib + 1 < 512 * n) by (nonlinear_arith)
        requires
            i < n,
            0 <= nib < 16,
    ;
    let pp = 24 + 8 * n + 512 * i + 2 * nib;
    assert(b[24 + 8 * n + (512 * i + 2 * nib)] == palettes_bytes(cells, n)[512 * i + 2 * nib]);
    assert(b[24 + 8 * n + (512 * i + 2 * nib + 1)] == palettes_bytes(cells, n)[512 * i + 2 * nib
        + 1]);
    assert(read_u16_at(b, pp) == c.palette@[nib]);
}

/// Reading back an encoded texture container: for cells whose palettes hold
/// the full 256 fade entries, the validator accepts the container, each
/// descriptor reads back as the encoder wrote it, and each pixel resolves to
/// its cell's palette colour at the pixel's 4-bit index.
pub proof fn lemma_texture_round_trip(cells: Seq<TextureCellPSX>)
    requires
        texture_encodable(cells),
        cells_wf(cells),
    ensures
        texture_verdict(texture_bytes(cells)) is None,
        read_u32_at(texture_bytes(cells), 4) == cells.len(),
        forall|i: int|
            0 <= i < cells.len() ==> #[trigger] cell_desc_at(
                texture_bytes(cells),
                cell_desc_pos(texture_bytes(cells), i),
            ) == cell_desc(cells, i),
        forall|i: int, k: int|
            0 <= i < cells.len() && 0 <= k < cells[i].texture_width * cells[i].texture_height
                ==> #[trigger] decoded_pixel(texture_bytes(cells), cell_desc(cells, i), k)
                == truecolor_of(cells[i].palette@[nibble_at(cells[i].texture_data@, k) as int]),
{
    let b = texture_bytes(cells);
    lemma_texture_regions(cells);
    lemma_texture_header_fields(cells);
    assert forall|i: int| 0 <= i < cells.len() implies #[trigger] cell_desc_at(
        b,
        cell_desc_pos(b, i),
    ) == cell_desc(cells, i) by {
        lemma_texture_desc(cells, i);
    }
    assert forall|i: int| 0 <= i < cells.len() implies #[trigger] cell_readable(b, i) by {
        lemma_texture_desc(cells, i);
        lemma_texture_payload(cells, i);
    }
    assert forall|i: int, k: int|
        0 <= i < cells.len() && 0 <= k < cells[i].texture_width * cells[i].texture_height
            implies #[trigger] decoded_pixel(b, cell_desc(cells, i), k) == truecolor_of(
        cells[i].palette@[nibble_at(cells[i].texture_data@, k) as int],
    ) by {
        lemma_texture_pixel(cells, i, k);
    }
}

/// In every texture container the encoder produces, the bytes at the texture
/// blob offset plus cell `i`'s descriptor sector times the sector size are
/// that cell's packed pixels; with `lemma_sectors_disjoint`, no two cells'
/// blocks overlap.
#[verifier::rlimit(40)]
pub proof fn lemma_encoded_cell_block(cells: Seq<TextureCellPSX>, i: int)
    requires
        texture_encodable(cells),
        cells_wf(cells),
        0 <= i < cells.len(),
    ensures
        ({
            let b = texture_bytes(cells);
            let p = TEXTURE_HEADER_SIZE + read_u32_at(b, 16) + SECTOR_SIZE * b[TEXTURE_HEADER_SIZE
                + 8 * i];
            &&& p + cells[i].texture_data@.len() <= b.len()
            &&& b.subrange(p, p + cells[i].texture_data@.len()) == cells[i].texture_data@
        }),
{
    let n = cells.len() as int;
    let b = texture_bytes(cells);
    lemma_texture_regions(cells);
    lemma_texture_header_fields(cells);
    lemma_texture_desc(cells, i);
    lemma_cell_block(cells, i);
    lemma_blob_end_mono(cells, i + 1, n);
    lemma_texture_blob_len(cells, n);
    let start = cell_start(cells, i);
    let len = cells[i].texture_data@.len();
    let blob = texture_blob(cells, n);
    let p = 24 + texture_offset(cells) + start;
    assert(b[24 + 8 * i] == cell_desc(cells, i).sector_offset_texture);
    assert forall|q: int| 0 <= q < len implies #[trigger] b.subrange(p, p + len)[q]
        == cells[i].texture_data@[q] by {
        assert(b[24 + texture_offset(cells) + (start + q)] == blob[start + q]);
        assert(blob.subrange(start, start + len)[q] == cells[i].texture_data@[q]);
    }
    assert(b.subrange(p, p + len) =~= cells[i].texture_data@);
}

} // verus!
