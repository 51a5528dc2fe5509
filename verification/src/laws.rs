//! The library's stated laws, each proved from the public contracts: what
//! validation guarantees of the loaded topology and weight ranges, that the
//! skinning kernels are functions of their inputs alone, what quaternion
//! reconstruction yields, and when an animation is accepted.

use vstd::prelude::*;
use crate::fixed::{FX_SCALE, fx_wf, fx_mul_s, div_scale_trunc};
use crate::vecmath::{
    Vec3V, QuatV, quat_w_s, quat_rotate_s, lemma_isqrt_bounds, lemma_isqrt_unique,
};
use crate::geom::MeshV;
use crate::anim::{AnimationV, JointPoseV};
use crate::skin::prepared_mesh_s;
use crate::lex::{token_at, after_token, parse_i32_s, parse_fx_s};
use crate::parse::{read_i32_s, read_fx_s};
use crate::model::{ModelV, model_wf, anim_compatible_s, anim_joint_match};

verus! {

/// In a model that validates, every joint's parent index is strictly below
/// its own index (with -1 for roots), and every weight's joint id indexes a
/// joint of the model.
pub proof fn lemma_valid_model_topology(m: ModelV)
    requires
        model_wf(m),
    ensures
        forall|i: int| 0 <= i < m.joints.len() ==> -1 <= (#[trigger] m.joints[i]).parent < i,
        forall|k: int, i: int|
            0 <= k < m.meshes.len() && 0 <= i < m.meshes[k].weights.len() ==> 0 <= (
            #[trigger] m.meshes[k].weights[i]).joint_id < m.joints.len(),
{
    assert forall|k: int, i: int|
        0 <= k < m.meshes.len() && 0 <= i < m.meshes[k].weights.len() implies 0 <= (
    #[trigger] m.meshes[k].weights[i]).joint_id < m.joints.len() by {
        assert(crate::geom::mesh_wf(m.meshes[k], m.joints.len() as int));
    }
}

/// In a model that validates, every vertex's weight range lies inside the
/// owning mesh's weight array.
pub proof fn lemma_valid_model_weight_ranges(m: ModelV)
    requires
        model_wf(m),
    ensures
        forall|k: int, i: int|
            0 <= k < m.meshes.len() && 0 <= i < m.meshes[k].verts.len() ==> (
            #[trigger] m.meshes[k].verts[i]).start_weight + m.meshes[k].verts[i].weight_count
                <= m.meshes[k].weights.len() && 0 <= m.meshes[k].verts[i].start_weight && 0
                <= m.meshes[k].verts[i].weight_count,
{
    assert forall|k: int, i: int|
        0 <= k < m.meshes.len() && 0 <= i < m.meshes[k].verts.len() implies (
    #[trigger] m.meshes[k].verts[i]).start_weight + m.meshes[k].verts[i].weight_count
        <= m.meshes[k].weights.len() && 0 <= m.meshes[k].verts[i].start_weight && 0
        <= m.meshes[k].verts[i].weight_count by {
        assert(crate::geom::mesh_wf(m.meshes[k], m.joints.len() as int));
        assert(crate::geom::vertex_range_ok(m.meshes[k].verts[i], m.meshes[k].weights.len() as int));
    }
}

/// The bind-pose kernel is deterministic: its result is a function of the
/// skeleton and the mesh alone, so two runs on the same data agree.
pub proof fn lemma_skinning_deterministic(
    poses: Seq<JointPoseV>,
    m: MeshV,
    first: MeshV,
    second: MeshV,
)
    requires
        first == prepared_mesh_s(poses, m),
        second == prepared_mesh_s(poses, m),
    ensures
        first.positions == second.positions,
        first == second,
{
}

/// Quaternion reconstruction at the origin: zero vector components derive
/// the unit scalar component (the identity rotation).
pub proof fn lemma_quat_w_identity()
    ensures
        quat_w_s(0, 0, 0) == FX_SCALE as int,
{
    let s = FX_SCALE as int;
    assert(s * s <= s * s && s * s < (s + 1) * (s + 1)) by (nonlinear_arith)
        requires
            s == FX_SCALE as int,
    ;
    lemma_isqrt_unique(s * s, s);
}

/// Quaternion reconstruction in general: for vector components within the
/// unit sphere, the derived scalar component is non-negative and completes
/// the raw norm to the unit scale, to within the floor-square-root step.
pub proof fn lemma_quat_w_unit(x: int, y: int, z: int)
    requires
        x * x + y * y + z * z <= (FX_SCALE as int) * (FX_SCALE as int),
    ensures
        quat_w_s(x, y, z) >= 0,
        x * x + y * y + z * z + quat_w_s(x, y, z) * quat_w_s(x, y, z) <= (FX_SCALE as int) * (
        FX_SCALE as int),
        (FX_SCALE as int) * (FX_SCALE as int) < x * x + y * y + z * z + (quat_w_s(x, y, z) + 1) * (
        quat_w_s(x, y, z) + 1),
{
    let ss = (FX_SCALE as int) * (FX_SCALE as int);
    let d = ss - x * x - y * y - z * z;
    assert(x * x >= 0 && y * y >= 0 && z * z >= 0) by (nonlinear_arith);
    if d <= 0 {
        assert(d == 0);
    } else {
        lemma_isqrt_bounds(d);
    }
}

/// A full bias leaves a scalar unchanged: scaling by 1.0 is the identity
/// on representable values.
pub proof fn lemma_unit_bias_scaling(x: int)
    requires
        fx_wf(x),
    ensures
        fx_mul_s(x, FX_SCALE as int) == x,
{
    let s = FX_SCALE as int;
    if x >= 0 {
        assert(x * s == s * x) by (nonlinear_arith);
        vstd::arithmetic::div_mod::lemma_div_multiples_vanish(x, s);
    } else {
        assert(-(x * s) == s * (-x)) by (nonlinear_arith);
        vstd::arithmetic::div_mod::lemma_div_multiples_vanish(-x, s);
        assert(div_scale_trunc(x * s) == x);
    }
}

/// Rotation by the identity quaternion returns the vector unchanged.
pub proof fn lemma_identity_rotation(v: Vec3V)
    requires
        fx_wf(v.x),
        fx_wf(v.y),
        fx_wf(v.z),
    ensures
        quat_rotate_s(QuatV { x: 0, y: 0, z: 0, w: FX_SCALE as int }, v) == v,
{
    let q = QuatV { x: 0, y: 0, z: 0, w: FX_SCALE as int };
    assert(quat_rotate_s(q, v) =~= v);
}

/// Tolerant integer reads: a malformed token leaves the field at its prior
/// value, a valid token replaces it, and either way exactly one word is
/// consumed, so a single bad field never desynchronizes the rest of the
/// parse.
pub proof fn lemma_tolerant_integer_read(s: Seq<u8>, i: int, cur: int)
    ensures
        parse_i32_s(token_at(s, i)) is None ==> read_i32_s(s, i, cur).0 == cur,
        parse_i32_s(token_at(s, i)) is Some ==> read_i32_s(s, i, cur).0 == parse_i32_s(
            token_at(s, i),
        )->0,
        read_i32_s(s, i, cur).1 == after_token(s, i),
{
}

/// Tolerant scalar reads: the same resynchronization law for fixed-point
/// fields.
pub proof fn lemma_tolerant_scalar_read(s: Seq<u8>, i: int, cur: int)
    ensures
        parse_fx_s(token_at(s, i)) is None ==> read_fx_s(s, i, cur).0 == cur,
        parse_fx_s(token_at(s, i)) is Some ==> read_fx_s(s, i, cur).0 == parse_fx_s(
            token_at(s, i),
        )->0,
        read_fx_s(s, i, cur).1 == after_token(s, i),
{
}

/// An animation whose joint count, names and parent indices exactly mirror
/// the bind joints is accepted by the compatibility check.
pub proof fn lemma_matching_animation_accepted(m: ModelV, a: AnimationV)
    requires
        a.num_joints == m.num_joints,
        a.joint_infos.len() >= m.joints.len(),
        forall|i: int|
            0 <= i < m.joints.len() ==> (#[trigger] m.joints[i]).name == a.joint_infos[i].name
                && m.joints[i].parent == a.joint_infos[i].parent_id,
    ensures
        anim_compatible_s(m, a),
{
    assert forall|i: int| 0 <= i < m.joints.len() implies #[trigger] anim_joint_match(m, a, i) by {
        assert(m.joints[i].name == a.joint_infos[i].name);
    }
}

/// Changing any single joint's name or parent index in the candidate makes
/// the compatibility check reject it.
pub proof fn lemma_mismatched_animation_rejected(m: ModelV, a: AnimationV, i: int)
    requires
        0 <= i < m.joints.len(),
        i < a.joint_infos.len() ==> m.joints[i].name != a.joint_infos[i].name || m.joints[i].parent
            != a.joint_infos[i].parent_id,
    ensures
        !anim_compatible_s(m, a),
{
    assert(!anim_joint_match(m, a, i));
}

} // verus!
