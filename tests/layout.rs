use psx_assets::grid::{bucket_triangles, grid_key};
use psx_assets::helpers::{colour_rgb, colour_rgba, coords_to_index, to_argb8};
use psx_assets::psx_structs::VertexPSX;

fn v(id: u8) -> VertexPSX {
    VertexPSX::quantize([id as i64, 0, 0], [0, 0, 0], [0, 0], id)
}

#[test]
fn colour_packing() {
    assert_eq!(colour_rgb(0x12, 0x34, 0x56), 0x00123456);
    assert_eq!(colour_rgba(0x78, 0x12, 0x34, 0x56), 0x78123456);
    assert_eq!(to_argb8(0xff, 0x01, 0x02, 0x03), 0xff010203);
    assert_eq!(coords_to_index(3, 2, 10), 23);
}

#[test]
fn grid_keys_order_by_z_then_y_then_x() {
    assert_eq!(grid_key(0, 0, 0), 0);
    assert_eq!(grid_key(-1, 0, 0), -1);
    assert_eq!(grid_key(0, 1, 0), 1 << 32);
    assert_eq!(grid_key(0, 0, 1), 1 << 64);
    assert_eq!(grid_key(-1, 0, 1), (1 << 64) - 1);
    assert!(grid_key(5, 5, -1) < grid_key(-5, -5, 0));
    assert_ne!(grid_key(-1, 0, 0), grid_key(0, -1, 0));
}

#[test]
fn triangles_grouped_by_key_in_key_order() {
    let keys = vec![7, -3, 7, 2];
    let verts: Vec<VertexPSX> = (0..12).map(v).collect();
    let (ks, model) = bucket_triangles(&keys, &verts);
    assert_eq!(ks, vec![-3, 2, 7]);
    assert_eq!(model.meshes.len(), 3);
    assert_eq!(model.meshes[0].verts, vec![v(3), v(4), v(5)]);
    assert_eq!(model.meshes[1].verts, vec![v(9), v(10), v(11)]);
    assert_eq!(model.meshes[2].verts, vec![v(0), v(1), v(2), v(6), v(7), v(8)]);
}

#[test]
fn no_triangles_no_chunks() {
    let (ks, model) = bucket_triangles(&vec![], &vec![]);
    assert!(ks.is_empty());
    assert!(model.meshes.is_empty());
}
