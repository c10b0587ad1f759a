use vstd::prelude::*;

use crate::bytes::{
    fill, lemma_i16_le_round_trip, lemma_u16_le_round_trip, lemma_u32_le_round_trip, push_fill,
    push_i16, push_u16, push_u32, read_u32, read_u32_at, u32_le,
};
use crate::error::{ContainerError, EncodeError};
use crate::psx_structs::{
    desc_of, mesh_desc_at, mesh_desc_bytes, vertex_bytes, MeshDesc, ModelPSX, VertexPSX,
};

verus! {

/// Magic number at the start of a mesh container.
pub const MESH_MAGIC: u32 = 0x424D9640;

/// Byte that fills the gap between the descriptor table and the vertex blob.
pub const MESH_PADDING_BYTE: u8 = 0x69;

/// Size of the mesh container header.
pub const MESH_HEADER_SIZE: usize = 16;

/// Largest number of vertices a mesh container can address.
pub const MAX_TOTAL_VERTICES: usize = 65535;

/// Number of vertices over all chunks.
pub open spec fn total_vertices(c: Seq<Seq<VertexPSX>>) -> nat
    decreases c.len(),
{
    if c.len() == 0 {
        0
    } else {
        total_vertices(c.drop_last()) + c.last().len()
    }
}

/// Descriptor of chunk `i`: its vertices start after those of the chunks before it.
pub open spec fn chunk_desc(c: Seq<Seq<VertexPSX>>, i: int) -> MeshDesc {
    desc_of(total_vertices(c.take(i)) as int, c[i])
}

/// Descriptors of all chunks, in order.
pub open spec fn chunk_descs(c: Seq<Seq<VertexPSX>>) -> Seq<MeshDesc> {
    Seq::new(c.len(), |i: int| chunk_desc(c, i))
}

/// Bytes of a descriptor table.
pub open spec fn descs_bytes(ds: Seq<MeshDesc>) -> Seq<u8>
    decreases ds.len(),
{
    if ds.len() == 0 {
        Seq::empty()
    } else {
        descs_bytes(ds.drop_last()) + mesh_desc_bytes(ds.last())
    }
}

/// Bytes of a run of vertex records.
pub open spec fn vertices_bytes(vs: Seq<VertexPSX>) -> Seq<u8>
    decreases vs.len(),
{
    if vs.len() == 0 {
        Seq::empty()
    } else {
        vertices_bytes(vs.drop_last()) + vertex_bytes(vs.last())
    }
}

/// The vertex blob: the records of all chunks, chunk after chunk.
pub open spec fn vertex_blob(c: Seq<Seq<VertexPSX>>) -> Seq<u8>
    decreases c.len(),
{
    if c.len() == 0 {
        Seq::empty()
    } else {
        vertex_blob(c.drop_last()) + vertices_bytes(c.last())
    }
}

/// `n` rounded up to a multiple of four.
pub open spec fn align4(n: int) -> int {
    (n + 3) / 4 * 4
}

/// Offset of the vertex blob, from the end of the header, for `n` chunks.
pub open spec fn mesh_vertex_offset(n: int) -> int {
    align4(16 * n)
}

/// Header of a mesh container of `n` chunks.
pub open spec fn mesh_header(n: nat) -> Seq<u8> {
    u32_le(MESH_MAGIC) + u32_le(n as u32) + u32_le(0) + u32_le(mesh_vertex_offset(n as int) as u32)
}

/// Whether the counts of a model fit the fields of a mesh container.
pub open spec fn mesh_encodable(c: Seq<Seq<VertexPSX>>) -> bool {
    total_vertices(c) <= MAX_TOTAL_VERTICES && 16 * c.len() <= u32::MAX
}

/// The mesh container of a model: header, descriptor table, padding, vertex blob.
pub open spec fn mesh_bytes(c: Seq<Seq<VertexPSX>>) -> Seq<u8> {
    mesh_header(c.len()) + descs_bytes(chunk_descs(c)) + fill(
        MESH_PADDING_BYTE,
        (mesh_vertex_offset(c.len() as int) - 16 * c.len()) as nat,
    ) + vertex_blob(c)
}

/// Bytes after the vertex-blob offset, as the validator counts them.
pub open spec fn mesh_section_len(b: Seq<u8>) -> int {
    b.len() - MESH_HEADER_SIZE - read_u32_at(b, 12)
}

/// The descriptors that the header of `b` announces.
pub open spec fn mesh_descs_in(b: Seq<u8>) -> Seq<MeshDesc> {
    Seq::new(
        read_u32_at(b, 4) as nat,
        |i: int| mesh_desc_at(b, MESH_HEADER_SIZE + read_u32_at(b, 8) + 16 * i),
    )
}

/// One past the highest vertex index that the descriptors reference.
pub open spec fn max_vertex_end(ds: Seq<MeshDesc>) -> int
    decreases ds.len(),
{
    if ds.len() == 0 {
        0
    } else {
        let m = max_vertex_end(ds.drop_last());
        let e = ds.last().vertex_start + ds.last().n_vertices;
        if e > m {
            e
        } else {
            m
        }
    }
}

/// Outcome of validating a mesh container: `None` when it is sound.
pub open spec fn mesh_verdict(b: Seq<u8>) -> Option<ContainerError> {
    if b.len() < MESH_HEADER_SIZE {
        Some(ContainerError::Truncated)
    } else if read_u32_at(b, 0) != MESH_MAGIC {
        Some(ContainerError::BadMagic)
    } else if read_u32_at(b, 8) > mesh_section_len(b) || read_u32_at(b, 12) > mesh_section_len(b) {
        Some(ContainerError::OutOfBounds)
    } else if MESH_HEADER_SIZE + read_u32_at(b, 8) + 16 * read_u32_at(b, 4) > b.len() {
        Some(ContainerError::OutOfBounds)
    } else if max_vertex_end(mesh_descs_in(b)) * 12 > mesh_section_len(b) {
        Some(ContainerError::OutOfBounds)
    } else {
        None
    }
}

/// What the validator read from a sound mesh container.
pub struct MeshInfo {
    pub chunk_count: u32,
    pub descriptor_offset: u32,
    pub vertex_offset: u32,
    pub descs: Vec<MeshDesc>,
}

proof fn lemma_total_take_le(c: Seq<Seq<VertexPSX>>, k: int)
    requires
        0 <= k <= c.len(),
    ensures
        total_vertices(c.take(k)) <= total_vertices(c),
    decreases c.len(),
{
    if k == c.len() {
        assert(c.take(k) =~= c);
    } else {
        assert(c.drop_last().take(k) =~= c.take(k));
        lemma_total_take_le(c.drop_last(), k);
    }
}

proof fn lemma_total_step(c: Seq<Seq<VertexPSX>>, i: int)
    requires
        0 <= i < c.len(),
    ensures
        total_vertices(c.take(i + 1)) == total_vertices(c.take(i)) + c[i].len(),
{
    assert(c.take(i + 1).drop_last() =~= c.take(i));
}

fn push_mesh_desc(out: &mut Vec<u8>, d: &MeshDesc)
    ensures
        final(out)@ == old(out)@ + mesh_desc_bytes(*d),
{
    push_u16(out, d.vertex_start);
    push_u16(out, d.n_vertices);
    push_i16(out, d.x_min);
    push_i16(out, d.x_max);
    push_i16(out, d.y_min);
    push_i16(out, d.y_max);
    push_i16(out, d.z_min);
    push_i16(out, d.z_max);
    assert(final(out)@ =~= old(out)@ + mesh_desc_bytes(*d));
}

impl ModelPSX {
    /// Encodes the model as a mesh container. Fails when the vertices of all
    /// chunks together exceed 65535, or the descriptor table outgrows a
    /// 32-bit offset; never yields a partial container.
    pub fn encode(&self) -> (r: Result<Vec<u8>, EncodeError>)
        ensures
            match r {
                Ok(b) => mesh_encodable(self@) && b@ == mesh_bytes(self@),
                Err(e) => !mesh_encodable(self@) && e == EncodeError::QuantizationOverflow,
            },
    {
        let ghost c = self@;
        let n = self.meshes.len();
        if n > 0x0fff_ffff {
            return Err(EncodeError::QuantizationOverflow);
        }
        let voff: usize = (n * 16 + 3) / 4 * 4;
        let mut out: Vec<u8> = Vec::new();
        push_u32(&mut out, MESH_MAGIC);
        push_u32(&mut out, n as u32);
        push_u32(&mut out, 0);
        push_u32(&mut out, voff as u32);
        assert(out@ =~= mesh_header(c.len()));
        let mut total: usize = 0;
        let mut i: usize = 0;
        while i < n
            invariant
                n == self.meshes@.len() == c.len(),
                c == self@,
                0 <= i <= n,
                n <= 0x0fff_ffff,
                total <= MAX_TOTAL_VERTICES,
                total == total_vertices(c.take(i as int)),
                out@ == mesh_header(c.len()) + descs_bytes(chunk_descs(c).take(i as int)),
            decreases n - i,
        {
            let mesh = &self.meshes[i];
            assert(mesh@ == c[i as int]);
            let len = mesh.verts.len();
            proof {
                lemma_total_step(c, i as int);
            }
            if len > MAX_TOTAL_VERTICES - total {
                proof {
                    lemma_total_take_le(c, i as int + 1);
                }
                return Err(EncodeError::QuantizationOverflow);
            }
            let b = mesh.aabb();
            let d = MeshDesc {
                vertex_start: total as u16,
                n_vertices: len as u16,
                x_min: b.x_min,
                x_max: b.x_max,
                y_min: b.y_min,
                y_max: b.y_max,
                z_min: b.z_min,
                z_max: b.z_max,
            };
            assert(d == chunk_desc(c, i as int));
            push_mesh_desc(&mut out, &d);
            proof {
                let t = chunk_descs(c).take(i as int + 1);
                assert(t.drop_last() =~= chunk_descs(c).take(i as int));
                assert(t.last() == d);
            }
            total = total + len;
            i = i + 1;
        }
        assert(c.take(n as int) =~= c);
        assert(chunk_descs(c).take(n as int) =~= chunk_descs(c));
        push_fill(&mut out, MESH_PADDING_BYTE, voff - n * 16);
        let ghost prefix = out@;
        let mut i: usize = 0;
        while i < n
            invariant
                n == self.meshes@.len() == c.len(),
                c == self@,
                0 <= i <= n,
                out@ == prefix + vertex_blob(c.take(i as int)),
            decreases n - i,
        {
            let mesh = &self.meshes[i];
            assert(mesh@ == c[i as int]);
            let ghost before = out@;
            let mut j: usize = 0;
            while j < mesh.verts.len()
                invariant
                    mesh@ == c[i as int],
                    0 <= j <= mesh@.len(),
                    out@ == before + vertices_bytes(mesh@.take(j as int)),
                decreases mesh@.len() - j,
            {
                let mut vb = mesh.verts[j].get_bytes();
                out.append(&mut vb);
                proof {
                    let t = mesh@.take(j as int + 1);
                    assert(t.drop_last() =~= mesh@.take(j as int));
                    assert(t.last() == mesh@[j as int]);
                }
                j = j + 1;
                assert(out@ =~= before + vertices_bytes(mesh@.take(j as int)));
            }
            assert(mesh@.take(j as int) =~= mesh@);
            proof {
                let t = c.take(i as int + 1);
                assert(t.drop_last() =~= c.take(i as int));
                assert(t.last() == c[i as int]);
            }
            i = i + 1;
            assert(out@ =~= prefix + vertex_blob(c.take(i as int)));
        }
        assert(c.take(n as int) =~= c);
        Ok(out)
    }
}

/// Validates a mesh container and reads its descriptors. Checks, in order:
/// the header is complete; the magic number; both offsets lie within the
/// bytes after the vertex-blob offset; the descriptor table lies within the
/// file; the highest vertex index that any descriptor references, times the
/// record size, lies within the bytes after the vertex-blob offset. The
/// first failing check decides the error and nothing after it is read.
pub fn decode_mesh(bytes: &[u8]) -> (r: Result<MeshInfo, ContainerError>)
    ensures
        match r {
            Ok(info) => {
                &&& mesh_verdict(bytes@) is None
                &&& info.chunk_count == read_u32_at(bytes@, 4)
                &&& info.descriptor_offset == read_u32_at(bytes@, 8)
                &&& info.vertex_offset == read_u32_at(bytes@, 12)
                &&& info.descs@ == mesh_descs_in(bytes@)
            },
            Err(e) => mesh_verdict(bytes@) == Some(e),
        },
{
    let ghost b = bytes@;
    let len = bytes.len();
    if len < MESH_HEADER_SIZE {
        return Err(ContainerError::Truncated);
    }
    if read_u32(bytes, 0) != MESH_MAGIC {
        return Err(ContainerError::BadMagic);
    }
    let count = read_u32(bytes, 4);
    let doff = read_u32(bytes, 8);
    let voff = read_u32(bytes, 12);
    let len64 = len as u64;
    if len64 < 16 + voff as u64 {
        return Err(ContainerError::OutOfBounds);
    }
    let section: u64 = len64 - 16 - voff as u64;
    if doff as u64 > section || voff as u64 > section {
        return Err(ContainerError::OutOfBounds);
    }
    if 16 + doff as u64 + 16 * (count as u64) > len64 {
        return Err(ContainerError::OutOfBounds);
    }
    let mut descs: Vec<MeshDesc> = Vec::new();
    let mut max_end: u32 = 0;
    let mut i: u32 = 0;
    while i < count
        invariant
            b == bytes@,
            len == b.len(),
            count == read_u32_at(b, 4),
            doff == read_u32_at(b, 8),
            16 + doff + 16 * count <= len,
            i <= count,
            descs@ == mesh_descs_in(b).take(i as int),
            max_end == max_vertex_end(descs@),
            max_end <= 0x20000,
        decreases count - i,
    {
        let p: usize = 16 + doff as usize + 16 * (i as usize);
        let d = MeshDesc::from_bytes(&bytes[p..p + 16]);
        assert(d == mesh_desc_at(b, p as int)) by {
            assert(bytes@.subrange(p as int, p + 16) =~= b.subrange(p as int, p + 16));
        }
        let e: u32 = d.vertex_start as u32 + d.n_vertices as u32;
        proof {
            let t = descs@.push(d);
            assert(t.drop_last() =~= descs@);
        }
        descs.push(d);
        if e > max_end {
            max_end = e;
        }
        i = i + 1;
        assert(descs@ =~= mesh_descs_in(b).take(i as int));
    }
    assert(mesh_descs_in(b).take(count as int) =~= mesh_descs_in(b));
    if max_end as u64 * 12 > section {
        return Err(ContainerError::OutOfBounds);
    }
    Ok(MeshInfo { chunk_count: count, descriptor_offset: doff, vertex_offset: voff, descs })
}

proof fn lemma_descs_bytes_len(ds: Seq<MeshDesc>)
    ensures
        descs_bytes(ds).len() == 16 * ds.len(),
    decreases ds.len(),
{
    if ds.len() > 0 {
        lemma_descs_bytes_len(ds.drop_last());
    }
}

proof fn lemma_descs_bytes_index(ds: Seq<MeshDesc>, i: int, k: int)
    requires
        0 <= i < ds.len(),
        0 <= k < 16,
    ensures
        descs_bytes(ds)[16 * i + k] == mesh_desc_bytes(ds[i])[k],
    decreases ds.len(),
{
    lemma_descs_bytes_len(ds.drop_last());
    if i < ds.len() - 1 {
        lemma_descs_bytes_index(ds.drop_last(), i, k);
    }
}

proof fn lemma_vertices_bytes_len(vs: Seq<VertexPSX>)
    ensures
        vertices_bytes(vs).len() == 12 * vs.len(),
    decreases vs.len(),
{
    if vs.len() > 0 {
        lemma_vertices_bytes_len(vs.drop_last());
    }
}

proof fn lemma_vertex_blob_len(c: Seq<Seq<VertexPSX>>)
    ensures
        vertex_blob(c).len() == 12 * total_vertices(c),
    decreases c.len(),
{
    if c.len() > 0 {
        lemma_vertex_blob_len(c.drop_last());
        lemma_vertices_bytes_len(c.last());
    }
}

/// Reading a descriptor back from its bytes gives the descriptor.
proof fn lemma_mesh_desc_round_trip(b: Seq<u8>, p: int, d: MeshDesc)
    requires
        0 <= p,
        p + 16 <= b.len(),
        forall|k: int| 0 <= k < 16 ==> b[p + k] == #[trigger] mesh_desc_bytes(d)[k],
    ensures
        mesh_desc_at(b, p) == d,
{
    let m = mesh_desc_bytes(d);
    assert(b.subrange(p, p + 16) =~= m);
    lemma_u16_le_round_trip(d.vertex_start);
    lemma_u16_le_round_trip(d.n_vertices);
    lemma_i16_le_round_trip(d.x_min);
    lemma_i16_le_round_trip(d.x_max);
    lemma_i16_le_round_trip(d.y_min);
    lemma_i16_le_round_trip(d.y_max);
    lemma_i16_le_round_trip(d.z_min);
    lemma_i16_le_round_trip(d.z_max);
    assert(b[p] == m[0] && b[p + 1] == m[1] && b[p + 2] == m[2] && b[p + 3] == m[3]);
    assert(b[p + 4] == m[4] && b[p + 5] == m[5] && b[p + 6] == m[6] && b[p + 7] == m[7]);
    assert(b[p + 8] == m[8] && b[p + 9] == m[9] && b[p + 10] == m[10] && b[p + 11] == m[11]);
    assert(b[p + 12] == m[12] && b[p + 13] == m[13] && b[p + 14] == m[14] && b[p + 15] == m[15]);
}

proof fn lemma_chunk_descs_drop_last(c: Seq<Seq<VertexPSX>>)
    requires
        c.len() > 0,
    ensures
        chunk_descs(c).drop_last() == chunk_descs(c.drop_last()),
{
    assert forall|i: int| 0 <= i < c.len() - 1 implies chunk_desc(c, i) == chunk_desc(
        c.drop_last(),
        i,
    ) by {
        assert(c.take(i) =~= c.drop_last().take(i));
    }
    assert(chunk_descs(c).drop_last() =~= chunk_descs(c.drop_last()));
}

proof fn lemma_max_vertex_end(c: Seq<Seq<VertexPSX>>)
    requires
        total_vertices(c) <= MAX_TOTAL_VERTICES,
    ensures
        max_vertex_end(chunk_descs(c)) == total_vertices(c),
    decreases c.len(),
{
    if c.len() > 0 {
        let n = c.len() - 1;
        assert(c.drop_last() =~= c.take(n));
        lemma_total_take_le(c, n);
        lemma_chunk_descs_drop_last(c);
        lemma_max_vertex_end(c.drop_last());
    }
}

/// Vertex blob offset is a multiple of four in every encoded mesh container.
pub proof fn lemma_mesh_vertex_offset_aligned(c: Seq<Seq<VertexPSX>>)
    requires
        mesh_encodable(c),
    ensures
        read_u32_at(mesh_bytes(c), 12) == mesh_vertex_offset(c.len() as int),
        read_u32_at(mesh_bytes(c), 12) % 4 == 0,
{
    let n = c.len() as int;
    assert((16 * n + 3) / 4 == 4 * n) by (nonlinear_arith)
        requires
            n >= 0,
    ;
    let b = mesh_bytes(c);
    let h = mesh_header(c.len());
    lemma_u32_le_round_trip(mesh_vertex_offset(n) as u32);
    assert(b[12] == h[12] && b[13] == h[13] && b[14] == h[14] && b[15] == h[15]);
}

/// Decoding an encoded model gives back its chunk count and, for each chunk,
/// its vertex range and bounding box. The validator's bound on the offsets
/// counts only the bytes after the vertex blob offset, so this holds for
/// models with at least three quarters of a vertex per chunk on average.
pub proof fn lemma_mesh_round_trip(c: Seq<Seq<VertexPSX>>)
    requires
        mesh_encodable(c),
        16 * c.len() <= 12 * total_vertices(c),
    ensures
        mesh_verdict(mesh_bytes(c)) is None,
        read_u32_at(mesh_bytes(c), 4) == c.len(),
        mesh_descs_in(mesh_bytes(c)) == chunk_descs(c),
{
    let n = c.len() as int;
    let b = mesh_bytes(c);
    let h = mesh_header(c.len());
    let ds = chunk_descs(c);
    lemma_mesh_vertex_offset_aligned(c);
    assert((16 * n + 3) / 4 == 4 * n) by (nonlinear_arith)
        requires
            n >= 0,
    ;
    lemma_u32_le_round_trip(MESH_MAGIC);
    lemma_u32_le_round_trip(n as u32);
    lemma_u32_le_round_trip(0);
    assert(b[0] == h[0] && b[1] == h[1] && b[2] == h[2] && b[3] == h[3]);
    assert(b[4] == h[4] && b[5] == h[5] && b[6] == h[6] && b[7] == h[7]);
    assert(b[8] == h[8] && b[9] == h[9] && b[10] == h[10] && b[11] == h[11]);
    lemma_descs_bytes_len(ds);
    lemma_vertex_blob_len(c);
    assert(b.len() == 16 + 16 * n + 12 * total_vertices(c));
    assert(read_u32_at(b, 4) == n);
    assert(read_u32_at(b, 8) == 0);
    assert(mesh_section_len(b) == 12 * total_vertices(c));
    assert forall|i: int| 0 <= i < n implies #[trigger] mesh_descs_in(b)[i] == ds[i] by {
        assert forall|k: int| 0 <= k < 16 implies b[16 + 16 * i + k] == #[trigger] mesh_desc_bytes(
            ds[i],
        )[k] by {
            lemma_descs_bytes_index(ds, i, k);
            assert(b[16 + 16 * i + k] == descs_bytes(ds)[16 * i + k]);
        }
        lemma_mesh_desc_round_trip(b, 16 + 16 * i, ds[i]);
    }
    assert(mesh_descs_in(b) =~= ds);
    lemma_max_vertex_end(c);
}

} // verus!
