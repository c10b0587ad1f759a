use psx_assets::error::{ContainerError, EncodeError};
use psx_assets::palette::{build_fade_palette, pack_indices, unpack_indices, Rgba8};
use psx_assets::psx_structs::{TextureCellBinary, TextureCellPSX, TextureCollectionPSX};
use psx_assets::quantize::{average_color, build_texture_cell};
use psx_assets::texture::{average_four_pixels, PixelFormat, Texture};
use psx_assets::texture_codec::{decode_texture, NAME_TABLE_ABSENT, TEXTURE_MAGIC};

fn cell(width: u8, height: u8, fill: u8, avg: u32) -> TextureCellPSX {
    let n = (width as usize * height as usize + 1) / 2;
    TextureCellPSX {
        texture_data: vec![fill; n],
        palette: (0..256).map(|i| i as u16 * 3).collect(),
        texture_width: width,
        texture_height: height,
        avg_color: avg,
    }
}

fn u32_at(b: &[u8], p: usize) -> u32 {
    u32::from_le_bytes([b[p], b[p + 1], b[p + 2], b[p + 3]])
}

#[test]
fn pack_two_by_two() {
    let packed = pack_indices(&vec![1, 2, 3, 4]);
    assert_eq!(packed, vec![0x12, 0x34]);
    assert_eq!(unpack_indices(&packed, 4), vec![1, 2, 3, 4]);
}

#[test]
fn pack_odd_count_leaves_low_nibble_zero() {
    let packed = pack_indices(&vec![15, 0, 7]);
    assert_eq!(packed, vec![0xf0, 0x70]);
    assert_eq!(unpack_indices(&packed, 3), vec![15, 0, 7]);
}

#[test]
fn fade_levels_zero_and_fifteen() {
    let base = vec![
        Rgba8 { r: 255, g: 128, b: 8, a: 1 },
        Rgba8 { r: 16, g: 32, b: 64, a: 0 },
    ];
    let target = Rgba8 { r: 80, g: 160, b: 240, a: 0 };
    let table = build_fade_palette(&base, target);
    assert_eq!(table.len(), 256);
    // level 0: the base colours in 1-5-5-5
    assert_eq!(table[0], 0x8000 | (1 << 10) | (16 << 5) | 31);
    assert_eq!(table[1], (8 << 10) | (4 << 5) | 2);
    // padding colours are transparent black
    assert_eq!(table[2], 0);
    // level 15: the target's colour with the base alpha bit
    assert_eq!(table[15 * 16], 0x8000 | (30 << 10) | (20 << 5) | 10);
    assert_eq!(table[15 * 16 + 1], (30 << 10) | (20 << 5) | 10);
    // level 5 of colour 0: (5*80 + 10*255)/15 = 196 -> 24
    assert_eq!(table[5 * 16] & 0x1f, 24);
    assert_eq!(build_fade_palette(&base, target), table);
}

#[test]
fn texture_container_layout() {
    let mut coll = TextureCollectionPSX::new();
    coll.texture_cells.push(cell(4, 4, 0x12, 0xAABBCCDD));
    coll.texture_cells.push(cell(3, 1, 0x34, 7));
    coll.texture_names.push(String::from("a"));
    coll.texture_names.push(String::from("b"));
    let bytes = coll.encode().unwrap();
    assert_eq!(u32_at(&bytes, 0), TEXTURE_MAGIC);
    assert_eq!(u32_at(&bytes, 4), 2);
    assert_eq!(u32_at(&bytes, 8), 0);
    assert_eq!(u32_at(&bytes, 12), 16);
    assert_eq!(u32_at(&bytes, 16), 2048);
    assert_eq!(u32_at(&bytes, 20), NAME_TABLE_ABSENT);
    assert_eq!(&bytes[24..32], &[0, 0, 4, 4, 0xDD, 0xCC, 0xBB, 0xAA]);
    assert_eq!(&bytes[32..40], &[1, 1, 3, 1, 7, 0, 0, 0]);
    assert_eq!(&bytes[40..44], &[0, 0, 3, 0]);
    assert!(bytes[24 + 16 + 1024..24 + 2048].iter().all(|&b| b == 0));
    assert_eq!(bytes.len(), 24 + 2048 + 2048 + 2);
    assert_eq!(&bytes[2072..2080], &[0x12; 8]);
    assert!(bytes[2080..4120].iter().all(|&b| b == 0));
    assert_eq!(&bytes[4120..4122], &[0x34; 2]);
}

#[test]
fn empty_collection_is_header_only() {
    let bytes = TextureCollectionPSX::new().encode().unwrap();
    let mut expected = TEXTURE_MAGIC.to_le_bytes().to_vec();
    expected.extend_from_slice(&[0; 16]);
    expected.extend_from_slice(&NAME_TABLE_ABSENT.to_le_bytes());
    assert_eq!(bytes, expected);
    let info = decode_texture(&bytes).unwrap();
    assert_eq!(info.cell_count, 0);
    assert!(info.cells.is_empty());
}

#[test]
fn sector_byte_locates_cell_data() {
    let mut coll = TextureCollectionPSX::new();
    coll.texture_cells.push(cell(64, 64, 1, 0));
    coll.texture_cells.push(cell(3, 3, 2, 0));
    let bytes = coll.encode().unwrap();
    let toff = u32_at(&bytes, 16) as usize;
    assert_eq!(toff % 2048, 0);
    for (i, fill, len) in [(0usize, 1u8, 2048usize), (1, 2, 5)] {
        let start = 24 + toff + 2048 * bytes[24 + 8 * i] as usize;
        assert!(bytes[start..start + len].iter().all(|&b| b == fill));
    }
}

#[test]
fn cells_start_on_distinct_sectors() {
    let mut coll = TextureCollectionPSX::new();
    coll.texture_cells.push(cell(64, 64, 1, 0));
    coll.texture_cells.push(cell(100, 50, 2, 0));
    coll.texture_cells.push(cell(2, 2, 3, 0));
    let bytes = coll.encode().unwrap();
    let info = decode_texture(&bytes).unwrap();
    let sectors: Vec<u8> = info.cells.iter().map(|c| c.desc.sector_offset_texture).collect();
    assert_eq!(sectors, vec![0, 1, 3]);
}

#[test]
fn texture_decode_resolves_palette_colours() {
    let mut c = cell(2, 2, 0, 0);
    c.texture_data = vec![0x01, 0x10];
    c.palette = vec![0; 256];
    c.palette[0] = 0x8000 | 31;
    c.palette[1] = (31 << 10) | (1 << 5);
    let mut coll = TextureCollectionPSX::new();
    coll.texture_cells.push(c);
    let info = decode_texture(&coll.encode().unwrap()).unwrap();
    assert_eq!(info.cell_count, 1);
    let red = Rgba8 { r: 248, g: 0, b: 0, a: 255 };
    let blue = Rgba8 { r: 0, g: 8, b: 248, a: 0 };
    assert_eq!(info.cells[0].pixels, vec![red, blue, blue, red]);
    assert_eq!(
        info.cells[0].desc,
        TextureCellBinary {
            sector_offset_texture: 0,
            palette_index: 0,
            texture_width: 2,
            texture_height: 2,
            avg_color: 0,
        }
    );
}

#[test]
fn too_many_cells_overflow() {
    let mut coll = TextureCollectionPSX::new();
    for _ in 0..257 {
        coll.texture_cells.push(cell(1, 1, 0, 0));
    }
    assert_eq!(coll.encode(), Err(EncodeError::QuantizationOverflow));
}

#[test]
fn more_than_256_sectors_overflow() {
    let mut coll = TextureCollectionPSX::new();
    for _ in 0..16 {
        coll.texture_cells.push(cell(255, 255, 0, 0));
    }
    assert!(coll.encode().is_ok());
    coll.texture_cells.push(cell(1, 1, 0, 0));
    assert_eq!(coll.encode(), Err(EncodeError::QuantizationOverflow));
}

#[test]
fn texture_decode_rejects_bad_input() {
    assert_eq!(decode_texture(&[0u8; 23]).err(), Some(ContainerError::Truncated));
    let mut coll = TextureCollectionPSX::new();
    coll.texture_cells.push(cell(2, 2, 0, 0));
    let good = coll.encode().unwrap();
    let mut bad = good.clone();
    bad[3] ^= 0x40;
    assert_eq!(decode_texture(&bad).err(), Some(ContainerError::BadMagic));
    let mut bad = good.clone();
    bad[20..24].copy_from_slice(&[0, 0, 1, 0]);
    assert_eq!(decode_texture(&bad).err(), Some(ContainerError::OutOfBounds));
    let mut bad = good.clone();
    bad[24] = 9;
    assert_eq!(decode_texture(&bad).err(), Some(ContainerError::OutOfBounds));
    let mut bad = good;
    bad[5] = 1;
    assert_eq!(decode_texture(&bad).err(), Some(ContainerError::OutOfBounds));
}

#[test]
fn average_colour_per_channel() {
    assert_eq!(average_color(&vec![]), 0);
    assert_eq!(average_color(&vec![0x10203040, 0x30405060]), 0x20304050);
    assert_eq!(average_color(&vec![0x000000ff, 0x00000000]), 0x0000007f);
}

#[test]
fn texture_cell_from_image() {
    let mut pixels = vec![0xff0000ffu32; 8];
    pixels.extend(vec![0xffff0000u32; 8]);
    let c = build_texture_cell(&pixels, 4, 4).unwrap();
    assert_eq!(c.palette.len(), 256);
    assert_eq!(c.texture_data.len(), 8);
    assert_eq!((c.texture_width, c.texture_height), (4, 4));
    assert_eq!(c.avg_color, 0xff7f007f);
    // the two halves of the image use different palette entries
    assert_ne!(c.texture_data[0] >> 4, c.texture_data[7] & 0xf);
    assert!(build_texture_cell(&pixels, 4, 3).is_none());
    assert!(build_texture_cell(&vec![], 0, 0).is_none());
}

#[test]
fn mean_of_four_pixels() {
    assert_eq!(average_four_pixels(0x04030201, 0x08070605, 0, 0xff), 0x0302_0241);
}

#[test]
fn mipmaps_halve_until_one_side_is_one() {
    let mut t = Texture {
        width: 4,
        height: 2,
        depth: 4,
        data: vec![4, 8, 12, 16, 20, 24, 28, 32],
        mipmap_offsets: vec![0],
    };
    t.generate_mipmaps();
    assert_eq!(t.mipmap_offsets, vec![0, 8]);
    assert_eq!(t.data, vec![4, 8, 12, 16, 20, 24, 28, 32, 14, 22]);
    let mut sq = Texture {
        width: 4,
        height: 4,
        depth: 4,
        data: vec![0x40; 16],
        mipmap_offsets: vec![0],
    };
    sq.generate_mipmaps();
    assert_eq!(sq.mipmap_offsets, vec![0, 16, 20]);
    assert_eq!(sq.data.len(), 21);
    assert_eq!(sq.data[20], 0x40);
}

#[test]
fn raw_pixels_swizzle_into_words() {
    let t = Texture::from_raw_pixels(2, 1, PixelFormat::R8G8B8A8, &vec![1, 2, 3, 4, 5, 6, 7, 8])
        .unwrap();
    assert_eq!(t.data, vec![0x04030201, 0x08070605]);
    assert_eq!((t.width, t.height, t.depth), (2, 1, 4));
    assert_eq!(t.mipmap_offsets, vec![0]);
    let t = Texture::from_raw_pixels(1, 1, PixelFormat::R16, &vec![0x00, 0xAB]).unwrap();
    assert_eq!(t.data, vec![0xFFFFFFAB]);
    let t = Texture::from_raw_pixels(1, 1, PixelFormat::R8G8, &vec![1, 2]).unwrap();
    assert_eq!(t.data, vec![0xFFFF0201]);
    let t = Texture::from_raw_pixels(1, 1, PixelFormat::R16G16B16, &vec![0, 1, 0, 2, 0, 3])
        .unwrap();
    assert_eq!(t.data, vec![0xFF030201]);
    assert!(Texture::from_raw_pixels(1, 1, PixelFormat::R32G32B32Float, &vec![0; 12]).is_none());
    assert!(Texture::from_raw_pixels(1, 1, PixelFormat::R8G8B8, &vec![0; 4]).is_none());
}

#[test]
fn interleaved_pixels_pack_as_argb() {
    let t = Texture::from_interleaved(1, 1, 3, &vec![1, 2, 3]).unwrap();
    assert_eq!(t.data, vec![0xFF010203]);
    let t = Texture::from_interleaved(2, 1, 4, &vec![1, 2, 3, 4, 5, 6, 7, 8]).unwrap();
    assert_eq!(t.data, vec![0x04010203, 0x08050607]);
    assert_eq!(t.depth, 4);
    assert!(Texture::from_interleaved(1, 1, 2, &vec![1, 2]).is_none());
}
