//! Triangle meshes: a vertex buffer, an index list, a cached vertex average
//! and the shader the mesh is drawn with.

use vstd::prelude::*;

use crate::fixed::{iabs, tdiv};
use crate::shader::{DefaultShader, Shader};
use crate::vector::{v3_abs_le, v3_add, V3};
use crate::vertex::Vertex;

verus! {

/// A renderable triangle mesh.
#[derive(Clone, Debug)]
pub struct MeshRenderable {
    pub vertices: Vec<Vertex>,
    /// Average of the vertex positions, cached at construction.
    pub vertices_center: V3,
    /// Index triples into `vertices`.
    pub triangles: Vec<[usize; 3]>,
    pub shader: Shader,
}

/// A mesh whose construction went wrong.
#[derive(Clone, Copy, Debug, PartialEq, Eq, Structural)]
pub enum MeshError {
    /// A triangle names a vertex index outside the vertex buffer.
    IndexOutOfRange,
}

/// Every triangle's indices point into the vertex buffer.
pub open spec fn mesh_indices_ok(vertices: Seq<Vertex>, triangles: Seq<[usize; 3]>) -> bool {
    forall|k: int|
        0 <= k < triangles.len() ==> (#[trigger] triangles[k])[0] < vertices.len()
            && triangles[k][1] < vertices.len() && triangles[k][2] < vertices.len()
}

/// Mesh size and coordinate bounds under which the center computation and
/// the geometry passes cannot overflow.
pub open spec fn mesh_bounded(vertices: Seq<Vertex>) -> bool {
    vertices.len() <= 0x10_0000 && forall|k: int|
        0 <= k < vertices.len() ==> v3_abs_le((#[trigger] vertices[k]).position,
            0x100_0000_0000) && v3_abs_le(vertices[k].normal, 0x100_0000_0000)
}

/// A well-formed mesh: indices in range and the cached center correct.
pub open spec fn mesh_wf(m: MeshRenderable) -> bool {
    mesh_indices_ok(m.vertices@, m.triangles@) && m.vertices_center == mesh_center_spec(
        m.vertices@,
    )
}

pub open spec fn sum_pos_x(s: Seq<Vertex>) -> int
    decreases s.len(),
{
    if s.len() == 0 {
        0
    } else {
        sum_pos_x(s.drop_last()) + s.last().position.x
    }
}

pub open spec fn sum_pos_y(s: Seq<Vertex>) -> int
    decreases s.len(),
{
    if s.len() == 0 {
        0
    } else {
        sum_pos_y(s.drop_last()) + s.last().position.y
    }
}

pub open spec fn sum_pos_z(s: Seq<Vertex>) -> int
    decreases s.len(),
{
    if s.len() == 0 {
        0
    } else {
        sum_pos_z(s.drop_last()) + s.last().position.z
    }
}

/// The average of the vertex positions, truncated per component; the zero
/// vector for an empty buffer.
pub open spec fn mesh_center_spec(s: Seq<Vertex>) -> V3 {
    if s.len() == 0 {
        V3 { x: 0i64, y: 0i64, z: 0i64 }
    } else {
        V3 {
            x: tdiv(sum_pos_x(s), s.len() as int) as i64,
            y: tdiv(sum_pos_y(s), s.len() as int) as i64,
            z: tdiv(sum_pos_z(s), s.len() as int) as i64,
        }
    }
}

/// The exact shape of a built plane mesh: four white vertices at the
/// half-extent corners of the x–z plane carrying the normal `n`, two
/// triangles fanned from the first corner, the zero centroid, and the stock
/// shader.
pub open spec fn plane_mesh_shape(r: MeshRenderable, e: int, n: V3) -> bool {
    &&& mesh_wf(r)
    &&& r.vertices@.len() == 4
    &&& r.vertices@[0].position == (V3 { x: (-e) as i64, y: 0i64, z: (-e) as i64 })
    &&& r.vertices@[1].position == (V3 { x: (-e) as i64, y: 0i64, z: e as i64 })
    &&& r.vertices@[2].position == (V3 { x: e as i64, y: 0i64, z: e as i64 })
    &&& r.vertices@[3].position == (V3 { x: e as i64, y: 0i64, z: (-e) as i64 })
    &&& forall|k: int|
        0 <= k < 4 ==> (#[trigger] r.vertices@[k]).color == [255u8, 255u8, 255u8]
            && r.vertices@[k].normal == n
    &&& r.triangles@ == seq![[0usize, 1usize, 2usize], [0usize, 2usize, 3usize]]
    &&& r.vertices_center == (V3 { x: 0i64, y: 0i64, z: 0i64 })
    &&& r.shader == Shader::Default(DefaultShader)
}

/// Bounded vertices have a bounded position sum.
pub proof fn lemma_sum_pos_bound(s: Seq<Vertex>)
    requires
        mesh_bounded(s),
    ensures
        iabs(sum_pos_x(s)) <= s.len() * 0x100_0000_0000,
        iabs(sum_pos_y(s)) <= s.len() * 0x100_0000_0000,
        iabs(sum_pos_z(s)) <= s.len() * 0x100_0000_0000,
    decreases s.len(),
{
    if s.len() > 0 {
        assert(mesh_bounded(s.drop_last())) by {
            assert(forall|k: int|
                0 <= k < s.drop_last().len() ==> s.drop_last()[k] == s[k]);
        }
        lemma_sum_pos_bound(s.drop_last());
    }
}

impl MeshRenderable {
    /// Builds a mesh from parts, checking that every triangle's indices are
    /// in range and caching the vertex average; fails loudly otherwise.
    pub fn from_parts(vertices: Vec<Vertex>, triangles: Vec<[usize; 3]>, shader: Shader) -> (r:
        Result<MeshRenderable, MeshError>)
        requires
            mesh_bounded(vertices@),
        ensures
            match r {
                Ok(m) => {
                    &&& mesh_wf(m)
                    &&& m.vertices@ == vertices@
                    &&& m.triangles@ == triangles@
                    &&& m.shader == shader
                    &&& mesh_indices_ok(vertices@, triangles@)
                },
                Err(e) => e == MeshError::IndexOutOfRange && !mesh_indices_ok(vertices@,
                    triangles@),
            },
    {
        let nv = vertices.len();
        let nt = triangles.len();
        let mut k: usize = 0;
        while k < nt
            invariant
                k <= nt,
                nt == triangles@.len(),
                nv == vertices@.len(),
                forall|j: int|
                    0 <= j < k ==> (#[trigger] triangles@[j])[0] < nv && triangles@[j][1] < nv
                        && triangles@[j][2] < nv,
            decreases nt - k,
        {
            let t = triangles[k];
            if t[0] >= nv || t[1] >= nv || t[2] >= nv {
                return Err(MeshError::IndexOutOfRange);
            }
            k += 1;
        }
        let vertices_center = Self::find_vertex_average(&vertices);
        Ok(MeshRenderable { vertices, vertices_center, triangles, shader })
    }

    /// A unit plane in the x–z plane: four white vertices with the upward
    /// unit normal, two triangles.
    pub fn plane() -> (r: MeshRenderable)
        ensures
            plane_mesh_shape(r, crate::fixed::SCALE as int,
                V3 { x: 0i64, y: crate::fixed::SCALE, z: 0i64 }),
    {
        Self::plane_sized(crate::fixed::SCALE, V3 { x: 0, y: crate::fixed::SCALE, z: 0 })
    }

    /// A small plane of extent 0.2: four white vertices with a zero normal,
    /// two triangles.
    pub fn small_plane() -> (r: MeshRenderable)
        ensures
            plane_mesh_shape(r, 200, V3 { x: 0i64, y: 0i64, z: 0i64 }),
    {
        Self::plane_sized(200, V3 { x: 0, y: 0, z: 0 })
    }

    /// A square plane of the given half-extent in the x–z plane, with four
    /// white vertices carrying the given normal.
    pub fn plane_sized(e: i64, n: V3) -> (r: MeshRenderable)
        requires
            0 < e <= 0x100_0000_0000,
            v3_abs_le(n, 0x100_0000_0000),
        ensures
            plane_mesh_shape(r, e as int, n),
    {
        let mut vertices: Vec<Vertex> = Vec::new();
        vertices.push(Vertex::new(V3 { x: -e, y: 0, z: -e }, [255, 255, 255], n));
        vertices.push(Vertex::new(V3 { x: -e, y: 0, z: e }, [255, 255, 255], n));
        vertices.push(Vertex::new(V3 { x: e, y: 0, z: e }, [255, 255, 255], n));
        vertices.push(Vertex::new(V3 { x: e, y: 0, z: -e }, [255, 255, 255], n));
        let mut triangles: Vec<[usize; 3]> = Vec::new();
        triangles.push([0, 1, 2]);
        triangles.push([0, 2, 3]);
        proof {
            lemma_plane_bounds(vertices@, e as int);
            lemma_sum4(vertices@);
        }
        let vertices_center = Self::find_vertex_average(&vertices);
        let r = MeshRenderable {
            vertices,
            vertices_center,
            triangles,
            shader: Shader::Default(DefaultShader),
        };
        proof {
            assert(r.triangles@ =~= seq![[0usize, 1usize, 2usize], [0usize, 2usize, 3usize]]);
            assert forall|k: int| 0 <= k < 4 implies (#[trigger] r.vertices@[k]).color == [
                255u8,
                255u8,
                255u8,
            ] && r.vertices@[k].normal == n by {
                assert(r.vertices@[0].color == [255u8, 255u8, 255u8]);
                assert(r.vertices@[1].color == [255u8, 255u8, 255u8]);
                assert(r.vertices@[2].color == [255u8, 255u8, 255u8]);
                assert(r.vertices@[3].color == [255u8, 255u8, 255u8]);
            }
        }
        r
    }

    /// The mesh's centroid in world space: the cached vertex average taken
    /// through the entity's rotation (whose trig triple is `t`) and then
    /// displaced by its position.
    pub fn calculate_center(&self, transform: &crate::transform::Transform,
        t: &crate::matrix::EulerTrig) -> (r: V3)
        requires
            crate::matrix::trig_wf(*t),
            v3_abs_le(self.vertices_center, 0x0010_0000_0000_0000),
            crate::fixed::fits64(crate::matrix::rotate_spec(self.vertices_center, *t).x
                + transform.position.x),
            crate::fixed::fits64(crate::matrix::rotate_spec(self.vertices_center, *t).y
                + transform.position.y),
            crate::fixed::fits64(crate::matrix::rotate_spec(self.vertices_center, *t).z
                + transform.position.z),
        ensures
            r == v3_add(crate::matrix::rotate_spec(self.vertices_center, *t),
                transform.position),
    {
        self.vertices_center.rotate(t).add(&transform.position)
    }

    /// The average of the vertex positions, the zero vector for an empty
    /// buffer.
    pub fn find_vertex_average(vertices: &Vec<Vertex>) -> (r: V3)
        requires
            mesh_bounded(vertices@),
        ensures
            r == mesh_center_spec(vertices@),
    {
        let n = vertices.len();
        if n == 0 {
            return V3 { x: 0, y: 0, z: 0 };
        }
        let mut sx: i64 = 0;
        let mut sy: i64 = 0;
        let mut sz: i64 = 0;
        let mut i: usize = 0;
        while i < n
            invariant
                i <= n,
                n == vertices@.len(),
                mesh_bounded(vertices@),
                sx as int == sum_pos_x(vertices@.take(i as int)),
                sy as int == sum_pos_y(vertices@.take(i as int)),
                sz as int == sum_pos_z(vertices@.take(i as int)),
                iabs(sx as int) <= i * 0x100_0000_0000,
                iabs(sy as int) <= i * 0x100_0000_0000,
                iabs(sz as int) <= i * 0x100_0000_0000,
            decreases n - i,
        {
            proof {
                assert(vertices@.take(i + 1).drop_last() =~= vertices@.take(i as int));
                assert(vertices@.take(i + 1).last() == vertices@[i as int]);
            }
            let v = vertices[i];
            sx = sx + v.position.x;
            sy = sy + v.position.y;
            sz = sz + v.position.z;
            i += 1;
        }
        proof {
            assert(vertices@.take(n as int) =~= vertices@);
        }
        proof {
            crate::fixed::lemma_tdiv_le(sx as int, n as int);
            crate::fixed::lemma_tdiv_le(sy as int, n as int);
            crate::fixed::lemma_tdiv_le(sz as int, n as int);
        }
        let cx = crate::fixed::div_trunc(sx, n as i64);
        let cy = crate::fixed::div_trunc(sy, n as i64);
        let cz = crate::fixed::div_trunc(sz, n as i64);
        V3 { x: cx, y: cy, z: cz }
    }
}

/// The four plane vertices are within the mesh bounds.
proof fn lemma_plane_bounds(s: Seq<Vertex>, e: int)
    requires
        s.len() == 4,
        0 < e <= 0x100_0000_0000,
        forall|k: int|
            0 <= k < 4 ==> iabs((#[trigger] s[k]).position.x as int) <= e && iabs(
                s[k].position.y as int) <= e && iabs(s[k].position.z as int) <= e && v3_abs_le(
                s[k].normal, 0x100_0000_0000),
    ensures
        mesh_bounded(s),
{
}

/// The position sum of a four-vertex buffer, written out.
proof fn lemma_sum4(s: Seq<Vertex>)
    requires
        s.len() == 4,
    ensures
        sum_pos_x(s) == s[0].position.x + s[1].position.x + s[2].position.x + s[3].position.x,
        sum_pos_y(s) == s[0].position.y + s[1].position.y + s[2].position.y + s[3].position.y,
        sum_pos_z(s) == s[0].position.z + s[1].position.z + s[2].position.z + s[3].position.z,
{
    let s3 = s.drop_last();
    let s2 = s3.drop_last();
    let s1 = s2.drop_last();
    let s0 = s1.drop_last();
    assert(s3.len() == 3 && s2.len() == 2 && s1.len() == 1 && s0.len() == 0);
    assert(s3.last() == s[2] && s2.last() == s[1] && s1.last() == s[0]);
    assert(s.last() == s[3]);
    assert(sum_pos_x(s0) == 0 && sum_pos_y(s0) == 0 && sum_pos_z(s0) == 0);
    assert(sum_pos_x(s1) == s[0].position.x && sum_pos_y(s1) == s[0].position.y && sum_pos_z(s1)
        == s[0].position.z);
    assert(sum_pos_x(s2) == sum_pos_x(s1) + s[1].position.x && sum_pos_y(s2) == sum_pos_y(s1)
        + s[1].position.y && sum_pos_z(s2) == sum_pos_z(s1) + s[1].position.z);
    assert(sum_pos_x(s3) == sum_pos_x(s2) + s[2].position.x && sum_pos_y(s3) == sum_pos_y(s2)
        + s[2].position.y && sum_pos_z(s3) == sum_pos_z(s2) + s[2].position.z);
    assert(sum_pos_x(s) == sum_pos_x(s3) + s[3].position.x && sum_pos_y(s) == sum_pos_y(s3)
        + s[3].position.y && sum_pos_z(s) == sum_pos_z(s3) + s[3].position.z);
}

} // verus!
