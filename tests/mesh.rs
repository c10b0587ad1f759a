use psx_assets::error::{ContainerError, EncodeError};
use psx_assets::mesh_codec::{decode_mesh, MESH_MAGIC};
use psx_assets::psx_structs::{Aabb, MeshDesc, MeshPSX, ModelPSX, VertexPSX};

fn vertex(x: i16, y: i16, z: i16) -> VertexPSX {
    VertexPSX {
        pos_x: x,
        pos_y: y,
        pos_z: z,
        color_r: 1,
        color_g: 2,
        color_b: 3,
        tex_u: 4,
        tex_v: 5,
        texture_id: 6,
    }
}

fn model(chunks: Vec<Vec<VertexPSX>>) -> ModelPSX {
    let mut m = ModelPSX::new();
    for verts in chunks {
        m.meshes.push(MeshPSX { verts });
    }
    m
}

#[test]
fn single_vertex_quantizes_with_inverted_y() {
    let v = VertexPSX::quantize([256, 256, 256], [255, 255, 255], [0, 0], 0);
    assert_eq!((v.pos_x, v.pos_y, v.pos_z), (256, -256, 256));
    let mut mesh = MeshPSX::new();
    mesh.verts.push(v);
    let b = mesh.aabb();
    assert_eq!(
        b,
        Aabb { x_min: 256, x_max: 256, y_min: -256, y_max: -256, z_min: 256, z_max: 256 }
    );
}

#[test]
fn quantize_saturates_clamps_and_wraps() {
    let v = VertexPSX::quantize([40000, -40000, -32768], [-5, 300, 128], [300, -1], 9);
    assert_eq!(v.pos_x, 32767);
    assert_eq!(v.pos_y, 32767);
    assert_eq!(v.pos_z, -32768);
    assert_eq!((v.color_r, v.color_g, v.color_b), (0, 255, 128));
    assert_eq!((v.tex_u, v.tex_v), (44, 255));
    assert_eq!(v.texture_id, 9);
    let w = VertexPSX::quantize([0, 32768, 0], [0, 0, 0], [0, 0], 0);
    assert_eq!(w.pos_y, -32768);
}

#[test]
fn vertex_bytes_are_little_endian() {
    let v = vertex(0x0102, -2, 0x7fff);
    assert_eq!(v.get_bytes(), vec![0x02, 0x01, 0xfe, 0xff, 0xff, 0x7f, 1, 2, 3, 4, 5, 6]);
}

#[test]
fn empty_chunk_has_sentinel_box() {
    let b = MeshPSX::new().aabb();
    assert_eq!((b.x_min, b.x_max), (32767, -32768));
    assert_eq!((b.y_min, b.y_max), (32767, -32768));
    assert_eq!((b.z_min, b.z_max), (32767, -32768));
}

#[test]
fn empty_model_is_header_only_and_valid() {
    let bytes = ModelPSX::new().encode().unwrap();
    let mut expected = MESH_MAGIC.to_le_bytes().to_vec();
    expected.extend_from_slice(&[0; 12]);
    assert_eq!(bytes, expected);
    let info = decode_mesh(&bytes).unwrap();
    assert_eq!(info.chunk_count, 0);
    assert!(info.descs.is_empty());
}

#[test]
fn mesh_round_trip_keeps_ranges_and_bounds() {
    let m = model(vec![
        vec![vertex(1, 2, 3), vertex(-4, 5, 6), vertex(7, -8, 9)],
        vec![vertex(10, 10, 10), vertex(11, 12, 13), vertex(-1, -1, -1)],
    ]);
    let bytes = m.encode().unwrap();
    assert_eq!(bytes.len(), 16 + 2 * 16 + 6 * 12);
    let info = decode_mesh(&bytes).unwrap();
    assert_eq!(info.chunk_count, 2);
    assert_eq!(info.descriptor_offset, 0);
    assert_eq!(info.vertex_offset, 32);
    assert_eq!(
        info.descs,
        vec![
            MeshDesc {
                vertex_start: 0,
                n_vertices: 3,
                x_min: -4,
                x_max: 7,
                y_min: -8,
                y_max: 5,
                z_min: 3,
                z_max: 9,
            },
            MeshDesc {
                vertex_start: 3,
                n_vertices: 3,
                x_min: -1,
                x_max: 11,
                y_min: -1,
                y_max: 12,
                z_min: -1,
                z_max: 13,
            },
        ]
    );
    assert_eq!(&bytes[48..60], vertex(1, 2, 3).get_bytes().as_slice());
}

#[test]
fn vertex_offset_is_four_byte_aligned() {
    for n in 0..5 {
        let chunks = (0..n).map(|i| vec![vertex(i, i, i); 3]).collect();
        let bytes = model(chunks).encode().unwrap();
        let off = u32::from_le_bytes([bytes[12], bytes[13], bytes[14], bytes[15]]);
        assert_eq!(off % 4, 0);
        assert_eq!(off, 16 * n as u32);
    }
}

#[test]
fn more_than_65535_vertices_overflow() {
    let m = model(vec![vec![vertex(0, 0, 0); 40000], vec![vertex(1, 1, 1); 25536]]);
    assert_eq!(m.encode(), Err(EncodeError::QuantizationOverflow));
    let ok = model(vec![vec![vertex(0, 0, 0); 40000], vec![vertex(1, 1, 1); 25535]]);
    assert!(ok.encode().is_ok());
}

#[test]
fn mesh_decode_rejects_short_and_bad_magic() {
    assert_eq!(decode_mesh(&[0u8; 15]).err(), Some(ContainerError::Truncated));
    let mut bytes = ModelPSX::new().encode().unwrap();
    bytes[0] ^= 1;
    assert_eq!(decode_mesh(&bytes).err(), Some(ContainerError::BadMagic));
}

#[test]
fn mesh_decode_rejects_offsets_past_end() {
    let mut bytes = model(vec![vec![vertex(0, 0, 0); 3]]).encode().unwrap();
    bytes[12] = 200;
    assert_eq!(decode_mesh(&bytes).err(), Some(ContainerError::OutOfBounds));
}

#[test]
fn mesh_decode_tracks_highest_vertex_index() {
    // The second descriptor reaches past the vertex blob; a running minimum
    // would miss it.
    let mut bytes = model(vec![vec![vertex(0, 0, 0); 3], vec![vertex(1, 1, 1); 3]])
        .encode()
        .unwrap();
    assert!(decode_mesh(&bytes).is_ok());
    bytes[16 + 16 + 2] = 4;
    assert_eq!(decode_mesh(&bytes).err(), Some(ContainerError::OutOfBounds));
}

#[test]
fn mesh_desc_from_bytes_reads_fields() {
    let bytes = [1u8, 0, 3, 0, 0xff, 0xff, 2, 0, 0, 0x80, 0xff, 0x7f, 5, 0, 6, 0];
    let d = MeshDesc::from_bytes(&bytes);
    assert_eq!(
        d,
        MeshDesc {
            vertex_start: 1,
            n_vertices: 3,
            x_min: -1,
            x_max: 2,
            y_min: -32768,
            y_max: 32767,
            z_min: 5,
            z_max: 6,
        }
    );
}
