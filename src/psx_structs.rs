use vstd::prelude::*;

use crate::bytes::{
    i16_le, push_i16, read_i16, read_i16_at, read_u16, read_u16_at, read_u32, read_u32_at,
    u16_le, u32_le,
};

verus! {

/// A console-native vertex record: fixed-point position in 1/256 units, 8-bit
/// colour, 8-bit texture coordinates and a texture id. Twelve bytes on disc.
#[derive(Clone, Copy, PartialEq, Eq, Structural, Debug)]
pub struct VertexPSX {
    pub pos_x: i16,
    pub pos_y: i16,
    pub pos_z: i16,
    pub color_r: u8,
    pub color_g: u8,
    pub color_b: u8,
    pub tex_u: u8,
    pub tex_v: u8,
    pub texture_id: u8,
}

/// An ordered run of vertices, three per triangle.
pub struct MeshPSX {
    pub verts: Vec<VertexPSX>,
}

/// An ordered sequence of mesh chunks.
pub struct ModelPSX {
    pub meshes: Vec<MeshPSX>,
}

/// Axis-aligned bounds of a chunk in fixed-point units.
#[derive(Clone, Copy, PartialEq, Eq, Structural, Debug)]
pub struct Aabb {
    pub x_min: i16,
    pub x_max: i16,
    pub y_min: i16,
    pub y_max: i16,
    pub z_min: i16,
    pub z_max: i16,
}

/// The 16-byte descriptor of one chunk in a mesh container.
#[derive(Clone, Copy, PartialEq, Eq, Structural, Debug)]
pub struct MeshDesc {
    pub vertex_start: u16,
    pub n_vertices: u16,
    pub x_min: i16,
    pub x_max: i16,
    pub y_min: i16,
    pub y_max: i16,
    pub z_min: i16,
    pub z_max: i16,
}

/// The textures of a scene with their names, in the same order.
pub struct TextureCollectionPSX {
    pub texture_cells: Vec<TextureCellPSX>,
    pub texture_names: Vec<String>,
}

/// One texture: 4-bit packed pixel indices, its 1-5-5-5 fade palette, its
/// size and its average colour.
pub struct TextureCellPSX {
    pub texture_data: Vec<u8>,
    pub palette: Vec<u16>,
    pub texture_width: u8,
    pub texture_height: u8,
    pub avg_color: u32,
}

/// The 8-byte descriptor of one cell in a texture container.
#[derive(Clone, Copy, PartialEq, Eq, Structural, Debug)]
pub struct TextureCellBinary {
    pub sector_offset_texture: u8,
    pub palette_index: u8,
    pub texture_width: u8,
    pub texture_height: u8,
    pub avg_color: u32,
}

impl View for MeshPSX {
    type V = Seq<VertexPSX>;

    open spec fn view(&self) -> Seq<VertexPSX> {
        self.verts@
    }
}

impl View for ModelPSX {
    type V = Seq<Seq<VertexPSX>>;

    open spec fn view(&self) -> Seq<Seq<VertexPSX>> {
        self.meshes@.map_values(|m: MeshPSX| m.verts@)
    }
}

/// Saturates an integer to the `i16` range.
pub open spec fn saturate_i16(x: int) -> i16 {
    if x < -0x8000 {
        i16::MIN
    } else if x > 0x7fff {
        i16::MAX
    } else {
        x as i16
    }
}

/// Clamps an integer to the `u8` range.
pub open spec fn clamp_u8(x: int) -> u8 {
    if x < 0 {
        0
    } else if x > 255 {
        255
    } else {
        x as u8
    }
}

/// The record for fixed-point inputs: `position` in 1/256 units (y pointing
/// up, stored inverted), `colour` and `uv` in 1/255 units.
pub open spec fn quantized(position: Seq<i64>, colour: Seq<i64>, uv: Seq<i64>, texture_id: u8) -> VertexPSX {
    VertexPSX {
        pos_x: saturate_i16(position[0] as int),
        pos_y: saturate_i16(-position[1]),
        pos_z: saturate_i16(position[2] as int),
        color_r: clamp_u8(colour[0] as int),
        color_g: clamp_u8(colour[1] as int),
        color_b: clamp_u8(colour[2] as int),
        tex_u: uv[0] as u8,
        tex_v: uv[1] as u8,
        texture_id,
    }
}

/// The twelve bytes of a vertex record.
pub open spec fn vertex_bytes(v: VertexPSX) -> Seq<u8> {
    i16_le(v.pos_x) + i16_le(v.pos_y) + i16_le(v.pos_z) + seq![
        v.color_r,
        v.color_g,
        v.color_b,
        v.tex_u,
        v.tex_v,
        v.texture_id,
    ]
}

/// Coordinate `axis` (0, 1 or 2) of a vertex.
pub open spec fn coord(v: VertexPSX, axis: int) -> i16 {
    if axis == 0 {
        v.pos_x
    } else if axis == 1 {
        v.pos_y
    } else {
        v.pos_z
    }
}

/// Smallest coordinate along `axis`; `i16::MAX` for no vertices.
pub open spec fn min_coord(vs: Seq<VertexPSX>, axis: int) -> i16
    decreases vs.len(),
{
    if vs.len() == 0 {
        0x7fff
    } else {
        let m = min_coord(vs.drop_last(), axis);
        let c = coord(vs.last(), axis);
        if c < m {
            c
        } else {
            m
        }
    }
}

/// Largest coordinate along `axis`; `i16::MIN` for no vertices.
pub open spec fn max_coord(vs: Seq<VertexPSX>, axis: int) -> i16
    decreases vs.len(),
{
    if vs.len() == 0 {
        i16::MIN
    } else {
        let m = max_coord(vs.drop_last(), axis);
        let c = coord(vs.last(), axis);
        if c > m {
            c
        } else {
            m
        }
    }
}

/// Bounding box of a vertex sequence; inverted sentinel box when empty.
pub open spec fn aabb_of(vs: Seq<VertexPSX>) -> Aabb {
    Aabb {
        x_min: min_coord(vs, 0),
        x_max: max_coord(vs, 0),
        y_min: min_coord(vs, 1),
        y_max: max_coord(vs, 1),
        z_min: min_coord(vs, 2),
        z_max: max_coord(vs, 2),
    }
}

/// Descriptor of a chunk whose vertices start at `start` in the vertex blob.
pub open spec fn desc_of(start: int, vs: Seq<VertexPSX>) -> MeshDesc {
    let b = aabb_of(vs);
    MeshDesc {
        vertex_start: start as u16,
        n_vertices: vs.len() as u16,
        x_min: b.x_min,
        x_max: b.x_max,
        y_min: b.y_min,
        y_max: b.y_max,
        z_min: b.z_min,
        z_max: b.z_max,
    }
}

/// The sixteen bytes of a chunk descriptor.
pub open spec fn mesh_desc_bytes(d: MeshDesc) -> Seq<u8> {
    u16_le(d.vertex_start) + u16_le(d.n_vertices) + i16_le(d.x_min) + i16_le(d.x_max) + i16_le(
        d.y_min,
    ) + i16_le(d.y_max) + i16_le(d.z_min) + i16_le(d.z_max)
}

/// The chunk descriptor stored at position `p`.
pub open spec fn mesh_desc_at(b: Seq<u8>, p: int) -> MeshDesc {
    MeshDesc {
        vertex_start: read_u16_at(b, p),
        n_vertices: read_u16_at(b, p + 2),
        x_min: read_i16_at(b, p + 4),
        x_max: read_i16_at(b, p + 6),
        y_min: read_i16_at(b, p + 8),
        y_max: read_i16_at(b, p + 10),
        z_min: read_i16_at(b, p + 12),
        z_max: read_i16_at(b, p + 14),
    }
}

/// The texture cell descriptor stored at position `p`.
pub open spec fn cell_desc_at(b: Seq<u8>, p: int) -> TextureCellBinary {
    TextureCellBinary {
        sector_offset_texture: b[p],
        palette_index: b[p + 1],
        texture_width: b[p + 2],
        texture_height: b[p + 3],
        avg_color: read_u32_at(b, p + 4),
    }
}

/// The eight bytes of a texture cell descriptor.
pub open spec fn cell_desc_bytes(d: TextureCellBinary) -> Seq<u8> {
    seq![d.sector_offset_texture, d.palette_index, d.texture_width, d.texture_height] + u32_le(
        d.avg_color,
    )
}

/// The bounding box of a single vertex is that point: minimum equals
/// maximum equals its coordinates on every axis.
pub proof fn lemma_single_vertex_aabb(v: VertexPSX)
    ensures
        aabb_of(seq![v]) == (Aabb {
            x_min: v.pos_x,
            x_max: v.pos_x,
            y_min: v.pos_y,
            y_max: v.pos_y,
            z_min: v.pos_z,
            z_max: v.pos_z,
        }),
{
    let s = seq![v];
    assert(s.drop_last() =~= Seq::<VertexPSX>::empty());
    assert(s.last() == v);
    assert forall|axis: int| 0 <= axis < 3 implies min_coord(s, axis) == coord(v, axis)
        && max_coord(s, axis) == coord(v, axis) by {
        assert(min_coord(s.drop_last(), axis) == i16::MAX);
        assert(max_coord(s.drop_last(), axis) == i16::MIN);
    }
    assert(min_coord(s, 0) == v.pos_x && max_coord(s, 0) == v.pos_x);
    assert(min_coord(s, 1) == v.pos_y && max_coord(s, 1) == v.pos_y);
    assert(min_coord(s, 2) == v.pos_z && max_coord(s, 2) == v.pos_z);
}

fn saturating_i16(x: i64) -> (r: i16)
    ensures
        r == saturate_i16(x as int),
{
    if x < -0x8000 {
        -0x8000
    } else if x > 0x7fff {
        0x7fff
    } else {
        x as i16
    }
}

fn saturating_neg_i16(x: i64) -> (r: i16)
    ensures
        r == saturate_i16(-x),
{
    if x >= 0x8000 {
        -0x8000
    } else if x <= -0x7fff {
        0x7fff
    } else {
        (-x) as i16
    }
}

fn clamping_u8(x: i64) -> (r: u8)
    ensures
        r == clamp_u8(x as int),
{
    if x < 0 {
        0
    } else if x > 255 {
        255
    } else {
        x as u8
    }
}

impl VertexPSX {
    /// Quantizes fixed-point vertex attributes: position channels saturate to
    /// the `i16` range (y inverted), colour channels clamp to `0..=255`, and
    /// texture coordinates keep their low eight bits.
    pub fn quantize(position: [i64; 3], colour: [i64; 3], uv: [i64; 2], texture_id: u8) -> (r:
        VertexPSX)
        ensures
            r == quantized(position@, colour@, uv@, texture_id),
    {
        VertexPSX {
            pos_x: saturating_i16(position[0]),
            pos_y: saturating_neg_i16(position[1]),
            pos_z: saturating_i16(position[2]),
            color_r: clamping_u8(colour[0]),
            color_g: clamping_u8(colour[1]),
            color_b: clamping_u8(colour[2]),
            tex_u: uv[0] as u8,
            tex_v: uv[1] as u8,
            texture_id,
        }
    }

    /// The twelve little-endian bytes of this record.
    pub fn get_bytes(&self) -> (r: Vec<u8>)
        ensures
            r@ == vertex_bytes(*self),
    {
        let mut bytes = Vec::new();
        push_i16(&mut bytes, self.pos_x);
        push_i16(&mut bytes, self.pos_y);
        push_i16(&mut bytes, self.pos_z);
        bytes.push(self.color_r);
        bytes.push(self.color_g);
        bytes.push(self.color_b);
        bytes.push(self.tex_u);
        bytes.push(self.tex_v);
        bytes.push(self.texture_id);
        assert(bytes@ =~= vertex_bytes(*self));
        bytes
    }
}

impl MeshPSX {
    pub fn new() -> (r: MeshPSX)
        ensures
            r@ == Seq::<VertexPSX>::empty(),
    {
        MeshPSX { verts: Vec::new() }
    }

    /// Per-axis bounds of the vertices; the inverted sentinel box
    /// (minimum `i16::MAX`, maximum `i16::MIN`) when there are none.
    pub fn aabb(&self) -> (r: Aabb)
        ensures
            r == aabb_of(self@),
    {
        let mut b = Aabb {
            x_min: 0x7fff,
            x_max: -0x8000,
            y_min: 0x7fff,
            y_max: -0x8000,
            z_min: 0x7fff,
            z_max: -0x8000,
        };
        let mut i: usize = 0;
        while i < self.verts.len()
            invariant
                i <= self.verts@.len(),
                b == aabb_of(self.verts@.take(i as int)),
            decreases self.verts@.len() - i,
        {
            let v = self.verts[i];
            proof {
                let t = self.verts@.take(i as int + 1);
                assert(t.drop_last() =~= self.verts@.take(i as int));
                assert(t.last() == v);
            }
            if v.pos_x < b.x_min {
                b.x_min = v.pos_x;
            }
            if v.pos_x > b.x_max {
                b.x_max = v.pos_x;
            }
            if v.pos_y < b.y_min {
                b.y_min = v.pos_y;
            }
            if v.pos_y > b.y_max {
                b.y_max = v.pos_y;
            }
            if v.pos_z < b.z_min {
                b.z_min = v.pos_z;
            }
            if v.pos_z > b.z_max {
                b.z_max = v.pos_z;
            }
            i = i + 1;
        }
        assert(self.verts@.take(i as int) =~= self.verts@);
        b
    }
}

impl ModelPSX {
    pub fn new() -> (r: ModelPSX)
        ensures
            r@ == Seq::<Seq<VertexPSX>>::empty(),
    {
        let r = ModelPSX { meshes: Vec::new() };
        assert(r@ =~= Seq::<Seq<VertexPSX>>::empty());
        r
    }
}

impl MeshDesc {
    /// Reads a descriptor field by field from its sixteen little-endian bytes.
    pub fn from_bytes(buffer: &[u8]) -> (r: MeshDesc)
        requires
            buffer@.len() >= 16,
        ensures
            r == mesh_desc_at(buffer@, 0),
    {
        MeshDesc {
            vertex_start: read_u16(buffer, 0),
            n_vertices: read_u16(buffer, 2),
            x_min: read_i16(buffer, 4),
            x_max: read_i16(buffer, 6),
            y_min: read_i16(buffer, 8),
            y_max: read_i16(buffer, 10),
            z_min: read_i16(buffer, 12),
            z_max: read_i16(buffer, 14),
        }
    }
}

impl TextureCollectionPSX {
    pub fn new() -> (r: Self)
        ensures
            r.texture_cells@.len() == 0,
            r.texture_names@.len() == 0,
    {
        TextureCollectionPSX { texture_cells: Vec::new(), texture_names: Vec::new() }
    }
}

impl TextureCellBinary {
    /// Reads a descriptor field by field from its eight little-endian bytes.
    pub fn from_bytes(buffer: &[u8]) -> (r: Self)
        requires
            buffer@.len() >= 8,
        ensures
            r == cell_desc_at(buffer@, 0),
    {
        TextureCellBinary {
            sector_offset_texture: buffer[0],
            palette_index: buffer[1],
            texture_width: buffer[2],
            texture_height: buffer[3],
            avg_color: read_u32(buffer, 4),
        }
    }
}

} // verus!
