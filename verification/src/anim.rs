//! The animation collaborator's data as this core consumes it: per-joint
//! metadata for the compatibility check and a current skeleton of joint
//! poses for the animated skinning kernel.

use vstd::prelude::*;
use crate::vecmath::{Vec3, Quat, Vec3V, QuatV};

verus! {

#[verifier::ext_equal]
pub ghost struct JointInfoV {
    pub name: Seq<u8>,
    pub parent_id: int,
}

/// Per-joint metadata of an animation, checked against the bind skeleton.
pub struct JointInfo {
    pub name: Vec<u8>,
    pub parent_id: i32,
}

impl View for JointInfo {
    type V = JointInfoV;

    open spec fn view(&self) -> JointInfoV {
        JointInfoV { name: self.name@, parent_id: self.parent_id as int }
    }
}

#[verifier::ext_equal]
pub ghost struct JointPoseV {
    pub position: Vec3V,
    pub orientation: QuatV,
}

/// One joint's pose in a frame skeleton: a translation and a rotation.
#[derive(Clone, Copy)]
pub struct JointPose {
    pub position: Vec3,
    pub orientation: Quat,
}

impl View for JointPose {
    type V = JointPoseV;

    open spec fn view(&self) -> JointPoseV {
        JointPoseV { position: self.position@, orientation: self.orientation@ }
    }
}

#[verifier::ext_equal]
pub ghost struct AnimationV {
    pub num_joints: int,
    pub joint_infos: Seq<JointInfoV>,
    pub animated_skeleton: Seq<JointPoseV>,
}

/// A loaded animation: joint metadata plus the current frame's skeleton,
/// index-aligned with the model's bind joints.
pub struct Animation {
    pub num_joints: i32,
    pub joint_infos: Vec<JointInfo>,
    pub animated_skeleton: Vec<JointPose>,
}

impl View for Animation {
    type V = AnimationV;

    open spec fn view(&self) -> AnimationV {
        AnimationV {
            num_joints: self.num_joints as int,
            joint_infos: self.joint_infos@.map_values(|j: JointInfo| j@),
            animated_skeleton: self.animated_skeleton@.map_values(|p: JointPose| p@),
        }
    }
}

} // verus!
