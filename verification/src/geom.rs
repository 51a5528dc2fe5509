//! The passive data model: joints, vertices, weights, triangles and meshes,
//! together with the referential invariants they must satisfy.

use vstd::prelude::*;
use crate::fixed::Fx;
use crate::vecmath::{Vec2, Vec3, Quat, Vec2V, Vec3V, QuatV, v3_zero};

verus! {

#[verifier::ext_equal]
pub ghost struct JointV {
    pub name: Seq<u8>,
    pub parent: int,
    pub position: Vec3V,
    pub orientation: QuatV,
}

/// A node of the bind-pose skeleton. `parent` indexes the owning model's
/// joint array; a negative value marks a root.
pub struct Joint {
    pub name: Vec<u8>,
    pub parent: i32,
    pub position: Vec3,
    pub orientation: Quat,
}

impl View for Joint {
    type V = JointV;

    open spec fn view(&self) -> JointV {
        JointV {
            name: self.name@,
            parent: self.parent as int,
            position: self.position@,
            orientation: self.orientation@,
        }
    }
}

pub open spec fn joint_new_s() -> JointV {
    JointV {
        name: Seq::empty(),
        parent: 0,
        position: v3_zero(),
        orientation: QuatV { x: 0, y: 0, z: 0, w: 0 },
    }
}

impl Joint {
    pub fn new() -> (j: Joint)
        ensures
            j@ == joint_new_s(),
    {
        Joint {
            name: Vec::new(),
            parent: 0,
            position: Vec3::zero(),
            orientation: Quat { x: Fx::zero(), y: Fx::zero(), z: Fx::zero(), w: Fx::zero() },
        }
    }

    pub fn duplicate(&self) -> (j: Joint)
        ensures
            j@ == self@,
    {
        Joint {
            name: clone_bytes(&self.name),
            parent: self.parent,
            position: self.position,
            orientation: self.orientation,
        }
    }
}

/// A value copy of a byte string.
pub fn clone_bytes(v: &Vec<u8>) -> (out: Vec<u8>)
    ensures
        out@ == v@,
{
    let mut out: Vec<u8> = Vec::new();
    let mut k: usize = 0;
    while k < v.len()
        invariant
            k <= v@.len(),
            out@ == v@.subrange(0, k as int),
        decreases v@.len() - k,
    {
        out.push(v[k]);
        k = k + 1;
        proof {
            assert(out@ =~= v@.subrange(0, k as int));
        }
    }
    proof {
        assert(out@ =~= v@);
    }
    out
}

/// Byte-string equality.
pub fn bytes_eq(a: &Vec<u8>, b: &Vec<u8>) -> (r: bool)
    ensures
        r == (a@ == b@),
{
    if a.len() != b.len() {
        proof {
            assert(a@.len() != b@.len());
        }
        return false;
    }
    let mut k: usize = 0;
    while k < a.len()
        invariant
            k <= a@.len(),
            a@.len() == b@.len(),
            forall|j: int| 0 <= j < k ==> a@[j] == b@[j],
        decreases a@.len() - k,
    {
        if a[k] != b[k] {
            return false;
        }
        k = k + 1;
    }
    proof {
        assert(a@ =~= b@);
    }
    true
}

#[verifier::ext_equal]
pub ghost struct VertexV {
    pub tex_coord: Vec2V,
    pub start_weight: int,
    pub weight_count: int,
    pub position: Vec3V,
    pub normal: Vec3V,
}

/// A mesh vertex: a texture coordinate plus a range of weights
/// (`start_weight`, `weight_count`) in the owning mesh's weight array.
/// `position` and `normal` are computed by the skinning kernels, not parsed.
#[derive(Clone, Copy)]
pub struct Vertex {
    pub tex_coord: Vec2,
    pub start_weight: i32,
    pub weight_count: i32,
    pub position: Vec3,
    pub normal: Vec3,
}

impl View for Vertex {
    type V = VertexV;

    open spec fn view(&self) -> VertexV {
        VertexV {
            tex_coord: self.tex_coord@,
            start_weight: self.start_weight as int,
            weight_count: self.weight_count as int,
            position: self.position@,
            normal: self.normal@,
        }
    }
}

pub open spec fn vertex_new_s() -> VertexV {
    VertexV {
        tex_coord: Vec2V { x: 0, y: 0 },
        start_weight: 0,
        weight_count: 0,
        position: v3_zero(),
        normal: v3_zero(),
    }
}

impl Vertex {
    pub fn new() -> (v: Vertex)
        ensures
            v@ == vertex_new_s(),
    {
        Vertex {
            tex_coord: Vec2::zero(),
            start_weight: 0,
            weight_count: 0,
            position: Vec3::zero(),
            normal: Vec3::zero(),
        }
    }
}

#[verifier::ext_equal]
pub ghost struct WeightV {
    pub joint_id: int,
    pub bias: int,
    pub position: Vec3V,
}

/// One bone influence: the joint it references, its blend factor, and the
/// vertex offset expressed in that joint's local frame.
#[derive(Clone, Copy)]
pub struct Weight {
    pub joint_id: i32,
    pub bias: Fx,
    pub position: Vec3,
}

impl View for Weight {
    type V = WeightV;

    open spec fn view(&self) -> WeightV {
        WeightV { joint_id: self.joint_id as int, bias: self.bias@, position: self.position@ }
    }
}

pub open spec fn weight_new_s() -> WeightV {
    WeightV { joint_id: 0, bias: 0, position: v3_zero() }
}

impl Weight {
    pub fn new() -> (w: Weight)
        ensures
            w@ == weight_new_s(),
    {
        Weight { joint_id: 0, bias: Fx::zero(), position: Vec3::zero() }
    }
}

#[verifier::ext_equal]
pub ghost struct TriangleV {
    pub i0: int,
    pub i1: int,
    pub i2: int,
}

/// Three vertex indices into the owning mesh's vertex array.
#[derive(Clone, Copy)]
pub struct Triangle {
    pub i0: i32,
    pub i1: i32,
    pub i2: i32,
}

impl View for Triangle {
    type V = TriangleV;

    open spec fn view(&self) -> TriangleV {
        TriangleV { i0: self.i0 as int, i1: self.i1 as int, i2: self.i2 as int }
    }
}

pub open spec fn triangle_new_s() -> TriangleV {
    TriangleV { i0: 0, i1: 0, i2: 0 }
}

impl Triangle {
    pub fn new() -> (t: Triangle)
        ensures
            t@ == triangle_new_s(),
    {
        Triangle { i0: 0, i1: 0, i2: 0 }
    }
}

#[verifier::ext_equal]
pub ghost struct MeshV {
    pub texture: Seq<u8>,
    pub verts: Seq<VertexV>,
    pub triangles: Seq<TriangleV>,
    pub weights: Seq<WeightV>,
    pub positions: Seq<Vec3V>,
    pub tex_coords: Seq<Vec2V>,
    pub indices: Seq<int>,
}

/// A mesh: its vertices, triangles and weights, the resolved texture path,
/// and the parallel output buffers consumed by rendering.
pub struct Mesh {
    pub texture: Vec<u8>,
    pub verts: Vec<Vertex>,
    pub triangles: Vec<Triangle>,
    pub weights: Vec<Weight>,
    pub positions: Vec<Vec3>,
    pub tex_coords: Vec<Vec2>,
    pub indices: Vec<u32>,
}

impl View for Mesh {
    type V = MeshV;

    open spec fn view(&self) -> MeshV {
        MeshV {
            texture: self.texture@,
            verts: self.verts@.map_values(|v: Vertex| v@),
            triangles: self.triangles@.map_values(|t: Triangle| t@),
            weights: self.weights@.map_values(|w: Weight| w@),
            positions: self.positions@.map_values(|p: Vec3| p@),
            tex_coords: self.tex_coords@.map_values(|t: Vec2| t@),
            indices: self.indices@.map_values(|i: u32| i as int),
        }
    }
}

pub open spec fn mesh_new_s() -> MeshV {
    MeshV {
        texture: Seq::empty(),
        verts: Seq::empty(),
        triangles: Seq::empty(),
        weights: Seq::empty(),
        positions: Seq::empty(),
        tex_coords: Seq::empty(),
        indices: Seq::empty(),
    }
}

impl Mesh {
    pub fn new() -> (m: Mesh)
        ensures
            m@ == mesh_new_s(),
    {
        let m = Mesh {
            texture: Vec::new(),
            verts: Vec::new(),
            triangles: Vec::new(),
            weights: Vec::new(),
            positions: Vec::new(),
            tex_coords: Vec::new(),
            indices: Vec::new(),
        };
        proof {
            assert(m@ =~= mesh_new_s());
        }
        m
    }
}

/// The vertex's weight range lies inside a weight array of length `wlen`.
pub open spec fn vertex_range_ok(v: VertexV, wlen: int) -> bool {
    &&& 0 <= v.start_weight
    &&& 0 <= v.weight_count
    &&& v.start_weight + v.weight_count <= wlen
}

/// Every vertex range is contained and every weight references a joint of
/// the owning model.
pub open spec fn mesh_wf(m: MeshV, num_joints: int) -> bool {
    &&& forall|i: int| 0 <= i < m.verts.len() ==> vertex_range_ok(#[trigger] m.verts[i], m.weights.len() as int)
    &&& forall|i: int| 0 <= i < m.weights.len() ==> 0 <= (#[trigger] m.weights[i]).joint_id < num_joints
}

/// Every joint's parent index is strictly below its own index, with a
/// negative sentinel for roots.
pub open spec fn joints_topology_ok(joints: Seq<JointV>) -> bool {
    forall|i: int| 0 <= i < joints.len() ==> -1 <= (#[trigger] joints[i]).parent < i
}

} // verus!
