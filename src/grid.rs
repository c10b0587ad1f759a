use vstd::prelude::*;

use crate::psx_structs::{MeshPSX, ModelPSX, VertexPSX};

verus! {

/// Weight of the y grid index in a composite key.
pub const GRID_Y_WEIGHT: i128 = 0x1_0000_0000;

/// Weight of the z grid index in a composite key.
pub const GRID_Z_WEIGHT: i128 = 0x1_0000_0000_0000_0000;

/// Composite key of a grid cell: each axis index owns its own 32-bit digit,
/// so keys order cells by z, then y, then x.
pub open spec fn grid_key_of(x: i32, y: i32, z: i32) -> int {
    x + y * GRID_Y_WEIGHT + z * GRID_Z_WEIGHT
}

/// Composite key of the grid cell `(x, y, z)`.
pub fn grid_key(x: i32, y: i32, z: i32) -> (r: i128)
    ensures
        r == grid_key_of(x, y, z),
{
    assert(-0x8000_0000 * GRID_Y_WEIGHT <= y * GRID_Y_WEIGHT <= 0x7fff_ffff * GRID_Y_WEIGHT)
        by (nonlinear_arith)
        requires
            -0x8000_0000 <= y <= 0x7fff_ffff,
    ;
    assert(-0x8000_0000 * GRID_Z_WEIGHT <= z * GRID_Z_WEIGHT <= 0x7fff_ffff * GRID_Z_WEIGHT)
        by (nonlinear_arith)
        requires
            -0x8000_0000 <= z <= 0x7fff_ffff,
    ;
    x as i128 + (y as i128) * GRID_Y_WEIGHT + (z as i128) * GRID_Z_WEIGHT
}

proof fn lemma_digit_zero(d: int, e: int, w: int)
    requires
        w > 0,
        -w < d < w,
        d + e * w == 0,
    ensures
        d == 0,
        e == 0,
{
    if e > 0 {
        assert(e * w >= w) by (nonlinear_arith)
            requires
                e >= 1,
                w > 0,
        ;
    } else if e < 0 {
        assert(e * w <= -w) by (nonlinear_arith)
            requires
                e <= -1,
                w > 0,
        ;
    }
}

/// Distinct grid cells have distinct composite keys.
pub proof fn lemma_grid_key_injective(x1: i32, y1: i32, z1: i32, x2: i32, y2: i32, z2: i32)
    requires
        grid_key_of(x1, y1, z1) == grid_key_of(x2, y2, z2),
    ensures
        x1 == x2,
        y1 == y2,
        z1 == z2,
{
    let w = GRID_Y_WEIGHT as int;
    let dx = x1 - x2;
    let dy = y1 - y2;
    let dz = z1 - z2;
    assert(GRID_Z_WEIGHT == w * w);
    assert(dx + (dy + dz * w) * w == 0) by (nonlinear_arith)
        requires
            x1 + y1 * w + z1 * (w * w) == x2 + y2 * w + z2 * (w * w),
            dx == x1 - x2,
            dy == y1 - y2,
            dz == z1 - z2,
    ;
    lemma_digit_zero(dx, dy + dz * w, w);
    lemma_digit_zero(dy, dz, w);
}

/// The three vertices of triangle `t`.
pub open spec fn triangle(verts: Seq<VertexPSX>, t: int) -> Seq<VertexPSX> {
    verts.subrange(3 * t, 3 * t + 3)
}

/// The vertices of the triangles whose key is `k`, in input order.
pub open spec fn gather(keys: Seq<i128>, verts: Seq<VertexPSX>, k: i128) -> Seq<VertexPSX>
    decreases keys.len(),
{
    if keys.len() == 0 {
        Seq::empty()
    } else {
        let t = keys.len() - 1;
        gather(keys.drop_last(), verts, k) + if keys[t] == k {
            triangle(verts, t)
        } else {
            Seq::empty()
        }
    }
}

/// Whether a key sequence is strictly increasing.
pub open spec fn strictly_increasing(s: Seq<i128>) -> bool {
    forall|i: int, j: int| 0 <= i < j < s.len() ==> s[i] < s[j]
}

proof fn lemma_gather_absent(keys: Seq<i128>, verts: Seq<VertexPSX>, k: i128)
    requires
        !keys.contains(k),
    ensures
        gather(keys, verts, k) == Seq::<VertexPSX>::empty(),
    decreases keys.len(),
{
    if keys.len() > 0 {
        assert(!keys.drop_last().contains(k)) by {
            if keys.drop_last().contains(k) {
                let i = choose|i: int| 0 <= i < keys.drop_last().len() && keys.drop_last()[i] == k;
                assert(keys[i] == k);
            }
        }
        lemma_gather_absent(keys.drop_last(), verts, k);
        assert(keys[keys.len() - 1] != k);
        assert(gather(keys, verts, k) =~= Seq::<VertexPSX>::empty());
    }
}

/// Groups triangles into chunks by grid key. Triangle `t` has key `keys[t]`
/// and vertices `verts[3t..3t+3]`. Returns the distinct keys in increasing
/// order and one chunk per key holding the vertices of its triangles in
/// input order.
pub fn bucket_triangles(keys: &Vec<i128>, verts: &Vec<VertexPSX>) -> (r: (Vec<i128>, ModelPSX))
    requires
        verts@.len() == 3 * keys@.len(),
    ensures
        strictly_increasing(r.0@),
        forall|k: i128| r.0@.contains(k) <==> keys@.contains(k),
        r.1@.len() == r.0@.len(),
        forall|j: int| 0 <= j < r.0@.len() ==> #[trigger] r.1@[j] == gather(keys@, verts@, r.0@[j]),
{
    let n = keys.len();
    let vn = verts.len();
    let mut ks: Vec<i128> = Vec::new();
    let mut meshes: Vec<MeshPSX> = Vec::new();
    let mut t: usize = 0;
    while t < n
        invariant
            n == keys@.len(),
            vn == verts@.len(),
            verts@.len() == 3 * n,
            t <= n,
            strictly_increasing(ks@),
            forall|k: i128| ks@.contains(k) <==> keys@.take(t as int).contains(k),
            meshes@.len() == ks@.len(),
            forall|j: int|
                0 <= j < ks@.len() ==> (#[trigger] meshes@[j]).verts@ == gather(
                    keys@.take(t as int),
                    verts@,
                    ks@[j],
                ),
        decreases n - t,
    {
        let key = keys[t];
        let ghost prev = keys@.take(t as int);
        let ghost next = keys@.take(t as int + 1);
        proof {
            assert(next.drop_last() =~= prev);
            assert(next[t as int] == key);
            assert(triangle(verts@, t as int).len() == 3);
        }
        let mut pos: usize = 0;
        while pos < ks.len() && ks[pos] < key
            invariant
                pos <= ks@.len(),
                forall|i: int| 0 <= i < pos ==> ks@[i] < key,
            decreases ks@.len() - pos,
        {
            pos = pos + 1;
        }
        let v0 = verts[3 * t];
        let v1 = verts[3 * t + 1];
        let v2 = verts[3 * t + 2];
        proof {
            assert(triangle(verts@, t as int) =~= seq![v0, v1, v2]);
        }
        if pos < ks.len() && ks[pos] == key {
            let ghost old_meshes = meshes@;
            meshes[pos].verts.push(v0);
            meshes[pos].verts.push(v1);
            meshes[pos].verts.push(v2);
            proof {
                assert forall|j: int| 0 <= j < ks@.len() implies (#[trigger] meshes@[j]).verts@
                    == gather(next, verts@, ks@[j]) by {
                    if j == pos {
                        assert(meshes@[j].verts@ =~= old_meshes[j].verts@ + seq![v0, v1, v2]);
                    } else {
                        assert(meshes@[j] == old_meshes[j]);
                        assert(ks@[j] != key);
                        assert(gather(next, verts@, ks@[j]) =~= gather(prev, verts@, ks@[j]));
                    }
                }
                assert forall|k: i128| ks@.contains(k) <==> next.contains(k) by {
                    if next.contains(k) && !prev.contains(k) {
                        let i = choose|i: int| 0 <= i < next.len() && next[i] == k;
                        if i < t {
                            assert(prev[i] == k);
                        }
                    }
                    if prev.contains(k) {
                        let i = choose|i: int| 0 <= i < prev.len() && prev[i] == k;
                        assert(next[i] == k);
                    }
                }
            }
        } else {
            let ghost old_ks = ks@;
            let ghost old_meshes = meshes@;
            proof {
                assert(!old_ks.contains(key)) by {
                    if old_ks.contains(key) {
                        let i = choose|i: int| 0 <= i < old_ks.len() && old_ks[i] == key;
                        if i >= pos {
                            assert(old_ks[pos as int] <= old_ks[i]);
                        }
                    }
                }
                lemma_gather_absent(prev, verts@, key);
            }
            let mut fresh = MeshPSX::new();
            fresh.verts.push(v0);
            fresh.verts.push(v1);
            fresh.verts.push(v2);
            ks.insert(pos, key);
            meshes.insert(pos, fresh);
            proof {
                assert forall|i: int, j: int| 0 <= i < j < ks@.len() implies ks@[i] < ks@[j] by {
                    if i <= pos && pos < j {
                        assert(old_ks[pos as int] != key);
                        assert(old_ks[pos as int] <= old_ks[j - 1]);
                    }
                }
                assert forall|j: int| 0 <= j < ks@.len() implies (#[trigger] meshes@[j]).verts@
                    == gather(next, verts@, ks@[j]) by {
                    if j == pos {
                        assert(gather(next, verts@, key) =~= seq![v0, v1, v2]);
                    } else {
                        let jj = if j < pos {
                            j
                        } else {
                            j - 1
                        };
                        assert(ks@[j] == old_ks[jj]);
                        assert(meshes@[j] == old_meshes[jj]);
                        assert(old_ks[jj] != key);
                        assert(gather(next, verts@, ks@[j]) =~= gather(prev, verts@, ks@[j]));
                    }
                }
                assert forall|k: i128| ks@.contains(k) <==> next.contains(k) by {
                    if ks@.contains(k) {
                        let i = choose|i: int| 0 <= i < ks@.len() && ks@[i] == k;
                        if i < pos {
                            assert(old_ks[i] == k);
                        } else if i > pos {
                            assert(old_ks[i - 1] == k);
                        } else {
                            assert(next[t as int] == k);
                        }
                        if k != key {
                            assert(old_ks.contains(k));
                            assert(prev.contains(k));
                            let m = choose|m: int| 0 <= m < prev.len() && prev[m] == k;
                            assert(next[m] == k);
                        }
                    }
                    if next.contains(k) {
                        let i = choose|i: int| 0 <= i < next.len() && next[i] == k;
                        if i < t {
                            assert(prev[i] == k);
                            assert(old_ks.contains(k));
                            let m = choose|m: int| 0 <= m < old_ks.len() && old_ks[m] == k;
                            if m < pos {
                                assert(ks@[m] == k);
                            } else {
                                assert(ks@[m + 1] == k);
                            }
                        } else {
                            assert(ks@[pos as int] == k);
                        }
                    }
                }
            }
        }
        t = t + 1;
    }
    assert(keys@.take(n as int) =~= keys@);
    let model = ModelPSX { meshes };
    proof {
        assert forall|j: int| 0 <= j < ks@.len() implies #[trigger] model@[j] == gather(
            keys@,
            verts@,
            ks@[j],
        ) by {
            assert(model@[j] == model.meshes@[j].verts@);
        }
    }
    (ks, model)
}

} // verus!
