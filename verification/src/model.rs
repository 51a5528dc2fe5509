//! The model: the bind skeleton, the meshes, scalar metadata, and the
//! optional animation, together with the public operations around them.

use vstd::prelude::*;
use crate::geom::{
    Joint, JointV, Mesh, MeshV, bytes_eq, mesh_wf, joints_topology_ok, vertex_range_ok,
};
use crate::anim::{Animation, AnimationV};
use crate::skin::{prepare_mesh_with_skeleton, reskinned_mesh_s};
use crate::parse::{dirname_s, dirname_e, load_s, run_top_e};

verus! {

#[verifier::ext_equal]
pub ghost struct ModelV {
    pub file_directory: Seq<u8>,
    pub version: int,
    pub num_joints: int,
    pub num_meshes: int,
    pub joints: Seq<JointV>,
    pub meshes: Seq<MeshV>,
    pub animation: Option<AnimationV>,
}

/// A loaded model: the bind skeleton, the meshes, the declared counts used
/// to drive parsing, the directory texture paths resolve against, and the
/// currently accepted animation, if any.
pub struct Model {
    pub file_directory: Vec<u8>,
    pub version: i32,
    pub num_joints: i32,
    pub num_meshes: i32,
    pub joints: Vec<Joint>,
    pub meshes: Vec<Mesh>,
    pub animation: Option<Animation>,
}

impl View for Model {
    type V = ModelV;

    open spec fn view(&self) -> ModelV {
        ModelV {
            file_directory: self.file_directory@,
            version: self.version as int,
            num_joints: self.num_joints as int,
            num_meshes: self.num_meshes as int,
            joints: self.joints@.map_values(|j: Joint| j@),
            meshes: self.meshes@.map_values(|m: Mesh| m@),
            animation: match self.animation {
                Option::Some(a) => Option::Some(a@),
                Option::None => Option::None,
            },
        }
    }
}

/// A model before anything is read into it.
pub open spec fn empty_model_s(dir: Seq<u8>) -> ModelV {
    ModelV {
        file_directory: dir,
        version: 0,
        num_joints: 0,
        num_meshes: 0,
        joints: Seq::empty(),
        meshes: Seq::empty(),
        animation: Option::None,
    }
}

/// The joint topology and every mesh's weak references are in bounds.
pub open spec fn model_wf(m: ModelV) -> bool {
    &&& joints_topology_ok(m.joints)
    &&& forall|i: int|
        0 <= i < m.meshes.len() ==> mesh_wf(#[trigger] m.meshes[i], m.joints.len() as int)
}

/// The bind joint at index `i` is mirrored by the candidate's joint
/// metadata at the same index: same name, same parent.
pub open spec fn anim_joint_match(m: ModelV, a: AnimationV, i: int) -> bool {
    &&& i < a.joint_infos.len()
    &&& m.joints[i].name == a.joint_infos[i].name
    &&& m.joints[i].parent == a.joint_infos[i].parent_id
}

/// A candidate animation matches the bind skeleton: same joint count, and
/// at every index the same name and the same parent.
pub open spec fn anim_compatible_s(m: ModelV, a: AnimationV) -> bool {
    &&& m.num_joints == a.num_joints
    &&& forall|i: int| 0 <= i < m.joints.len() ==> #[trigger] anim_joint_match(m, a, i)
}

/// The model after one animated-skinning pass: every mesh's `positions`
/// buffer is recomputed from the current animation's skeleton; without an
/// animation nothing changes.
pub open spec fn updated_model_s(m: ModelV) -> ModelV {
    match m.animation {
        Option::Some(a) => ModelV {
            meshes: m.meshes.map_values(|mm: MeshV| reskinned_mesh_s(a.animated_skeleton, mm)),
            ..m
        },
        Option::None => m,
    }
}

impl Model {
    /// Builds a model from the path it was named by (whose directory
    /// becomes the texture base directory) and the file's bytes.
    pub fn new(mesh_file: &[u8], contents: &[u8]) -> (m: Model)
        ensures
            m@ == load_s(empty_model_s(dirname_s(mesh_file@)), contents@),
    {
        let dir = dirname_e(mesh_file);
        let mut model = Model {
            file_directory: dir,
            version: 0,
            num_joints: 0,
            num_meshes: 0,
            joints: Vec::new(),
            meshes: Vec::new(),
            animation: None,
        };
        proof {
            assert(model@ =~= empty_model_s(dirname_s(mesh_file@)));
        }
        model.load(contents);
        model
    }

    /// Reads a model file: clears the joints and meshes, then consumes the
    /// byte stream keyword by keyword as the grammar describes, skinning
    /// each mesh against the bind skeleton as its block closes.
    pub fn load(&mut self, contents: &[u8])
        ensures
            final (self)@ == load_s(old(self)@, contents@),
    {
        self.joints = Vec::new();
        self.meshes = Vec::new();
        proof {
            assert(self@ =~= (ModelV {
                joints: Seq::empty(),
                meshes: Seq::empty(),
                ..old(self)@
            }));
        }
        run_top_e(contents, 0, self);
    }

    /// Decides whether a candidate animation's topology matches the bind
    /// skeleton.
    #[verifier::loop_isolation(false)]
    pub fn check_animation(&self, animation: &Animation) -> (ok: bool)
        ensures
            ok == anim_compatible_s(self@, animation@),
    {
        if self.num_joints != animation.num_joints {
            return false;
        }
        let mut i: usize = 0;
        while i < self.joints.len()
            invariant
                i <= self.joints@.len(),
                self.num_joints == animation.num_joints,
                forall|j: int| 0 <= j < i ==> #[trigger] anim_joint_match(self@, animation@, j),
            decreases self.joints@.len() - i,
        {
            proof {
                assert(self@.joints.len() == self.joints@.len());
                assert(animation@.joint_infos.len() == animation.joint_infos@.len());
                assert(self@.joints[i as int] == self.joints@[i as int]@);
            }
            if i >= animation.joint_infos.len() {
                assert(!anim_joint_match(self@, animation@, i as int));
                assert(!anim_compatible_s(self@, animation@));
                return false;
            }
            proof {
                assert(animation@.joint_infos[i as int] == animation.joint_infos@[i as int]@);
            }
            let mesh_joint = &self.joints[i];
            let anim_joint = &animation.joint_infos[i];
            if !bytes_eq(&mesh_joint.name, &anim_joint.name) || mesh_joint.parent
                != anim_joint.parent_id {
                assert(!anim_joint_match(self@, animation@, i as int));
                assert(!anim_compatible_s(self@, animation@));
                return false;
            }
            proof {
                assert(anim_joint_match(self@, animation@, i as int));
            }
            i = i + 1;
        }
        proof {
            assert(self@.joints.len() == self.joints@.len());
            assert(anim_compatible_s(self@, animation@));
        }
        true
    }

    /// Accepts the candidate if its topology matches the bind skeleton, in
    /// which case it becomes the model's current animation. A candidate that
    /// failed to load (`None`) or whose topology is rejected is discarded,
    /// and the animation slot is cleared: the model reverts to bind pose
    /// with no animation attached. Nothing else is modified.
    pub fn load_animation(&mut self, candidate: Option<Animation>) -> (ok: bool)
        ensures
            ok == (candidate is Some && anim_compatible_s(old(self)@, candidate->0@)),
            ok ==> final (self)@ == (ModelV {
                animation: Option::Some(candidate->0@),
                ..old(self)@
            }),
            !ok ==> final (self)@ == (ModelV { animation: Option::None, ..old(self)@ }),
            ok == (final (self)@.animation is Some),
    {
        match candidate {
            Some(a) => {
                let ok = self.check_animation(&a);
                if ok {
                    self.animation = Some(a);
                    proof {
                        assert(self@ =~= (ModelV {
                            animation: Option::Some(a@),
                            ..old(self)@
                        }));
                    }
                } else {
                    self.animation = None;
                    proof {
                        assert(self@ =~= (ModelV { animation: Option::None, ..old(self)@ }));
                    }
                }
                ok
            },
            None => {
                self.animation = None;
                proof {
                    assert(self@ =~= (ModelV { animation: Option::None, ..old(self)@ }));
                }
                false
            },
        }
    }

    /// One animated-skinning pass: with an animation present, overwrites
    /// every mesh's positions in place from its current skeleton, in mesh
    /// order. The caller advances the animation's playback state beforehand.
    /// Each mesh's positions buffer must hold at least one entry per vertex,
    /// as every mesh the loader produces does.
    #[verifier::loop_isolation(false)]
    pub fn update(&mut self)
        requires
            forall|k: int|
                0 <= k < old(self)@.meshes.len() ==> (#[trigger] old(self)@.meshes[k]).positions.len()
                    >= old(self)@.meshes[k].verts.len(),
        ensures
            final (self)@ == updated_model_s(old(self)@),
    {
        if self.animation.is_none() {
            return ;
        }
        let ghost m0 = old(self)@;
        let ghost skel = m0.animation->0.animated_skeleton;
        let n = self.meshes.len();
        let mut x: usize = 0;
        while x < n
            invariant
                x <= n,
                self.animation == old(self).animation,
                self.animation is Some,
                skel == self@.animation->0.animated_skeleton,
                self@.file_directory == m0.file_directory,
                self@.version == m0.version,
                self@.num_joints == m0.num_joints,
                self@.num_meshes == m0.num_meshes,
                self@.joints == m0.joints,
                self@.meshes.len() == n == m0.meshes.len(),
                forall|j: int|
                    0 <= j < x ==> self@.meshes[j] == reskinned_mesh_s(skel, #[trigger] m0.meshes[j]),
                forall|j: int| x <= j < n ==> self@.meshes[j] == #[trigger] m0.meshes[j],
            decreases n - x,
        {
            proof {
                assert(self@.meshes[x as int] == self.meshes@[x as int]@);
                assert(self@.meshes[x as int] == m0.meshes[x as int]);
                assert(m0.meshes[x as int].positions.len() >= m0.meshes[x as int].verts.len());
            }
            let mut mesh = self.meshes.remove(x);
            match &self.animation {
                Some(anim) => {
                    prepare_mesh_with_skeleton(&anim.animated_skeleton, &mut mesh);
                },
                None => {},
            }
            self.meshes.insert(x, mesh);
            x = x + 1;
        }
        proof {
            assert(self@ =~= updated_model_s(m0));
        }
    }

    /// The explicit post-load validation pass: decides whether every
    /// joint's parent index is strictly below its own (roots excepted) and
    /// every weak reference (weight ranges, weight joint ids) is in bounds.
    #[verifier::loop_isolation(false)]
    pub fn validate(&self) -> (ok: bool)
        ensures
            ok == model_wf(self@),
    {
        let mut i: usize = 0;
        while i < self.joints.len()
            invariant
                i <= self.joints@.len(),
                forall|j: int| 0 <= j < i ==> -1 <= (#[trigger] self@.joints[j]).parent < j,
            decreases self.joints@.len() - i,
        {
            let p = self.joints[i].parent;
            if p < -1 || (p >= 0 && p as usize >= i) {
                assert(self@.joints[i as int] == self.joints@[i as int]@);
                assert(!joints_topology_ok(self@.joints));
                return false;
            }
            i = i + 1;
        }
        let mut mi: usize = 0;
        while mi < self.meshes.len()
            invariant
                mi <= self.meshes@.len(),
                joints_topology_ok(self@.joints),
                forall|j: int|
                    0 <= j < mi ==> mesh_wf(#[trigger] self@.meshes[j], self@.joints.len() as int),
            decreases self.meshes@.len() - mi,
        {
            let mesh = &self.meshes[mi];
            let mut vi: usize = 0;
            while vi < mesh.verts.len()
                invariant
                    vi <= mesh.verts@.len(),
                    forall|j: int|
                        0 <= j < vi ==> vertex_range_ok(
                            #[trigger] mesh@.verts[j],
                            mesh@.weights.len() as int,
                        ),
                decreases mesh.verts@.len() - vi,
            {
                let v = &mesh.verts[vi];
                if v.start_weight < 0 || v.weight_count < 0 || (v.start_weight as u64
                    + v.weight_count as u64) > mesh.weights.len() as u64 {
                    assert(mesh@.verts[vi as int] == mesh.verts@[vi as int]@);
                    assert(!vertex_range_ok(mesh@.verts[vi as int], mesh@.weights.len() as int));
                    assert(!mesh_wf(self@.meshes[mi as int], self@.joints.len() as int));
                    return false;
                }
                vi = vi + 1;
            }
            let mut wi: usize = 0;
            while wi < mesh.weights.len()
                invariant
                    wi <= mesh.weights@.len(),
                    forall|j: int|
                        0 <= j < wi ==> 0 <= (#[trigger] mesh@.weights[j]).joint_id
                            < self@.joints.len(),
                decreases mesh.weights@.len() - wi,
            {
                let w = &mesh.weights[wi];
                if w.joint_id < 0 || (w.joint_id as u64) >= self.joints.len() as u64 {
                    assert(mesh@.weights[wi as int] == mesh.weights@[wi as int]@);
                    assert(!(0 <= mesh@.weights[wi as int].joint_id < self@.joints.len()));
                    assert(!mesh_wf(self@.meshes[mi as int], self@.joints.len() as int));
                    return false;
                }
                wi = wi + 1;
            }
            assert(mesh_wf(self@.meshes[mi as int], self@.joints.len() as int));
            mi = mi + 1;
        }
        true
    }
}

} // verus!
