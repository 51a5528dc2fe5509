//! The linear-blend-skinning kernels: object-space vertex positions as the
//! bias-weighted sum of each influencing joint's transform applied to the
//! weight's local offset. One kernel runs at load against the bind skeleton,
//! the other each frame against an animated skeleton; both compute the same
//! weighted sum. A weight whose indices fall outside the joint or weight
//! arrays adds nothing (indices are validated at consumption time).

use vstd::prelude::*;
use crate::vecmath::{Vec3, Vec3V, v3_zero, v3_add_s, v3_scale_s, quat_rotate_s};
use crate::geom::{Joint, JointV, Mesh, MeshV, VertexV, Weight, WeightV};
use crate::anim::{JointPose, JointPoseV};

verus! {

pub open spec fn joint_pose_s(j: JointV) -> JointPoseV {
    JointPoseV { position: j.position, orientation: j.orientation }
}

/// The bind skeleton, seen as a sequence of poses.
pub open spec fn joints_to_poses(js: Seq<JointV>) -> Seq<JointPoseV> {
    js.map_values(|j: JointV| joint_pose_s(j))
}

/// One weight's term: the local offset rotated by the joint's
/// orientation, translated by the joint's position, scaled by the bias.
pub open spec fn weight_term_s(pose: JointPoseV, w: WeightV) -> Vec3V {
    v3_scale_s(v3_add_s(pose.position, quat_rotate_s(pose.orientation, w.position)), w.bias)
}

/// The accumulated position after the first `k` weights of the range that
/// starts at `start`. Out-of-range references are skipped.
pub open spec fn skinned_vertex_s(
    poses: Seq<JointPoseV>,
    weights: Seq<WeightV>,
    start: int,
    k: int,
) -> Vec3V
    decreases k,
{
    if k <= 0 {
        v3_zero()
    } else {
        let acc = skinned_vertex_s(poses, weights, start, k - 1);
        let idx = start + k - 1;
        if 0 <= idx < weights.len() && 0 <= weights[idx].joint_id < poses.len() {
            v3_add_s(acc, weight_term_s(poses[weights[idx].joint_id], weights[idx]))
        } else {
            acc
        }
    }
}

pub open spec fn skinned_position_s(
    poses: Seq<JointPoseV>,
    weights: Seq<WeightV>,
    v: VertexV,
) -> Vec3V {
    skinned_vertex_s(poses, weights, v.start_weight, v.weight_count)
}

/// A vertex after the bind-pose kernel: its position is the weighted sum,
/// its normal is reset, everything else is kept.
pub open spec fn skinned_vert_s(poses: Seq<JointPoseV>, weights: Seq<WeightV>, v: VertexV) -> VertexV {
    VertexV { position: skinned_position_s(poses, weights, v), normal: v3_zero(), ..v }
}

/// A mesh after the bind-pose kernel: vertices carry their skinned
/// positions, and the `positions` / `tex_coords` output buffers are rebuilt,
/// one entry per vertex.
pub open spec fn prepared_mesh_s(poses: Seq<JointPoseV>, m: MeshV) -> MeshV {
    MeshV {
        verts: Seq::new(m.verts.len(), |i: int| skinned_vert_s(poses, m.weights, m.verts[i])),
        positions: Seq::new(
            m.verts.len(),
            |i: int| skinned_position_s(poses, m.weights, m.verts[i]),
        ),
        tex_coords: Seq::new(m.verts.len(), |i: int| m.verts[i].tex_coord),
        ..m
    }
}

/// A mesh after the animated kernel: the first `verts.len()` entries of the
/// `positions` buffer are overwritten in place, one per vertex, and the
/// buffer keeps its length; nothing else changes.
pub open spec fn reskinned_mesh_s(poses: Seq<JointPoseV>, m: MeshV) -> MeshV {
    MeshV {
        positions: Seq::new(
            m.positions.len(),
            |i: int|
                if i < m.verts.len() {
                    skinned_position_s(poses, m.weights, m.verts[i])
                } else {
                    m.positions[i]
                },
        ),
        ..m
    }
}

/// The bind skeleton copied into pose form.
pub fn poses_of_joints(joints: &Vec<Joint>) -> (out: Vec<JointPose>)
    ensures
        out@.map_values(|p: JointPose| p@) == joints_to_poses(
            joints@.map_values(|j: Joint| j@),
        ),
{
    let mut out: Vec<JointPose> = Vec::new();
    let mut k: usize = 0;
    while k < joints.len()
        invariant
            k <= joints@.len(),
            out@.len() == k,
            forall|j: int| 0 <= j < k ==> (#[trigger] out@[j])@ == joint_pose_s(joints@[j]@),
        decreases joints@.len() - k,
    {
        let j = &joints[k];
        out.push(JointPose { position: j.position, orientation: j.orientation });
        k = k + 1;
    }
    proof {
        assert(out@.map_values(|p: JointPose| p@) =~= joints_to_poses(
            joints@.map_values(|j: Joint| j@),
        ));
    }
    out
}

/// The weighted sum for one vertex's weight range.
pub fn skin_vertex(poses: &Vec<JointPose>, weights: &Vec<Weight>, start: i32, count: i32) -> (p:
    Vec3)
    ensures
        p@ == skinned_vertex_s(
            poses@.map_values(|q: JointPose| q@),
            weights@.map_values(|w: Weight| w@),
            start as int,
            count as int,
        ),
{
    let ghost poses_v = poses@.map_values(|q: JointPose| q@);
    let ghost weights_v = weights@.map_values(|w: Weight| w@);
    let mut acc = Vec3::zero();
    if count <= 0 {
        return acc;
    }
    let mut w: i32 = 0;
    while w < count
        invariant
            0 <= w <= count,
            poses_v == poses@.map_values(|q: JointPose| q@),
            weights_v == weights@.map_values(|w: Weight| w@),
            acc@ == skinned_vertex_s(poses_v, weights_v, start as int, w as int),
        decreases count - w,
    {
        let idx: i64 = start as i64 + w as i64;
        proof {
            assert(weights_v.len() == weights@.len());
            assert(poses_v.len() == poses@.len());
            if 0 <= idx < weights_v.len() {
                assert(weights_v[idx as int] == weights@[idx as int]@);
                let jid = weights_v[idx as int].joint_id;
                if 0 <= jid < poses_v.len() {
                    assert(poses_v[jid] == poses@[jid]@);
                }
            }
        }
        if 0 <= idx && (idx as u64) < weights.len() as u64 {
            let wt = weights[idx as usize];
            if 0 <= wt.joint_id && (wt.joint_id as usize) < poses.len() {
                let pose = poses[wt.joint_id as usize];
                let rot = pose.orientation.rotate_vec(&wt.position);
                let term = pose.position.add(rot).scale(wt.bias);
                acc = acc.add(term);
            }
        }
        w = w + 1;
    }
    acc
}

/// The bind-pose kernel: recomputes every vertex position of `mesh` from the
/// bind skeleton `joints`, and rebuilds the `positions` and `tex_coords`
/// output buffers.
pub fn prepare_mesh(joints: &Vec<Joint>, mesh: &mut Mesh)
    ensures
        final (mesh)@ == prepared_mesh_s(
            joints_to_poses(joints@.map_values(|j: Joint| j@)),
            old(mesh)@,
        ),
{
    let ghost m0 = old(mesh)@;
    let ghost poses_v = joints_to_poses(joints@.map_values(|j: Joint| j@));
    let poses = poses_of_joints(joints);
    mesh.positions = Vec::new();
    mesh.tex_coords = Vec::new();
    let n = mesh.verts.len();
    let mut x: usize = 0;
    while x < n
        invariant
            x <= n,
            poses@.map_values(|p: JointPose| p@) == poses_v,
            mesh@.texture == m0.texture,
            mesh@.triangles == m0.triangles,
            mesh@.weights == m0.weights,
            mesh@.indices == m0.indices,
            mesh@.verts.len() == n == m0.verts.len(),
            forall|j: int|
                0 <= j < x ==> mesh@.verts[j] == skinned_vert_s(poses_v, m0.weights, #[trigger] m0.verts[j]),
            forall|j: int| x <= j < n ==> mesh@.verts[j] == #[trigger] m0.verts[j],
            mesh@.positions.len() == x,
            forall|j: int|
                0 <= j < x ==> mesh@.positions[j] == skinned_position_s(
                    poses_v,
                    m0.weights,
                    #[trigger] m0.verts[j],
                ),
            mesh@.tex_coords.len() == x,
            forall|j: int| 0 <= j < x ==> mesh@.tex_coords[j] == (#[trigger] m0.verts[j]).tex_coord,
        decreases n - x,
    {
        let mut vert = mesh.verts[x];
        let p = skin_vertex(&poses, &mesh.weights, vert.start_weight, vert.weight_count);
        vert.position = p;
        vert.normal = Vec3::zero();
        mesh.verts.set(x, vert);
        mesh.positions.push(p);
        mesh.tex_coords.push(vert.tex_coord);
        x = x + 1;
    }
    proof {
        assert(mesh@ =~= prepared_mesh_s(poses_v, m0));
    }
}

/// The animated kernel: recomputes the `positions` buffer of `mesh` from an
/// externally supplied frame skeleton; vertices and texture coordinates are
/// left as they are.
pub fn prepare_mesh_with_skeleton(skel: &Vec<JointPose>, mesh: &mut Mesh)
    requires
        old(mesh)@.positions.len() >= old(mesh)@.verts.len(),
    ensures
        final (mesh)@ == reskinned_mesh_s(skel@.map_values(|p: JointPose| p@), old(mesh)@),
{
    let ghost m0 = old(mesh)@;
    let ghost poses_v = skel@.map_values(|p: JointPose| p@);
    let n = mesh.verts.len();
    let mut x: usize = 0;
    while x < n
        invariant
            x <= n,
            mesh@.texture == m0.texture,
            mesh@.verts == m0.verts,
            mesh@.triangles == m0.triangles,
            mesh@.weights == m0.weights,
            mesh@.tex_coords == m0.tex_coords,
            mesh@.indices == m0.indices,
            n == m0.verts.len(),
            mesh@.positions.len() == m0.positions.len() >= n,
            poses_v == skel@.map_values(|p: JointPose| p@),
            forall|j: int|
                0 <= j < x ==> mesh@.positions[j] == skinned_position_s(
                    poses_v,
                    m0.weights,
                    #[trigger] m0.verts[j],
                ),
            forall|j: int| x <= j < m0.positions.len() ==> mesh@.positions[j] == #[trigger] m0.positions[j],
        decreases n - x,
    {
        let vert = mesh.verts[x];
        let p = skin_vertex(skel, &mesh.weights, vert.start_weight, vert.weight_count);
        mesh.positions.set(x, p);
        x = x + 1;
    }
    proof {
        assert(mesh@ =~= reskinned_mesh_s(poses_v, m0));
    }
}

} // verus!
