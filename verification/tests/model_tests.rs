use md5_model::anim::{Animation, JointInfo, JointPose};
use md5_model::fixed::{Fx, FX_SCALE};
use md5_model::model::Model;
use md5_model::skin::prepare_mesh;
use md5_model::vecmath::{Quat, Vec3};

fn scenario_a_text() -> Vec<u8> {
    let text = "MD5Version 10\n\
commandline \"made by hand\"\n\
numJoints 1\n\
numMeshes 1\n\
joints {\n\
\t\"root\" -1 ( 0 0 0 ) ( 0 0 0 )\n\
}\n\
mesh {\n\
\tshader \"models/tex.tga\"\n\
\tnumverts 1\n\
\tvert 0 ( 0.5 0.5 ) 0 1\n\
\tnumtris 1\n\
\ttri 0 0 0 0\n\
\tnumweights 1\n\
\tweight 0 0 1.0 ( 1 0 0 )\n\
}\n";
    text.as_bytes().to_vec()
}

fn raw3(v: &Vec3) -> (i64, i64, i64) {
    (v.x.raw(), v.y.raw(), v.z.raw())
}

#[test]
fn scenario_a_bind_pose_position() {
    let m = Model::new(b"data/models/guy.md5mesh", &scenario_a_text());
    assert_eq!(m.version, 10);
    assert_eq!(m.num_joints, 1);
    assert_eq!(m.num_meshes, 1);
    assert_eq!(m.joints.len(), 1);
    assert_eq!(m.joints[0].name, b"\"root\"".to_vec());
    assert_eq!(m.joints[0].parent, -1);
    assert_eq!(m.meshes.len(), 1);
    let mesh = &m.meshes[0];
    assert_eq!(mesh.texture, b"data/models/tex.tga".to_vec());
    assert_eq!(mesh.verts.len(), 1);
    assert_eq!(mesh.verts[0].start_weight, 0);
    assert_eq!(mesh.verts[0].weight_count, 1);
    assert_eq!(mesh.weights.len(), 1);
    assert_eq!(mesh.weights[0].bias.raw(), FX_SCALE);
    assert_eq!(mesh.triangles.len(), 1);
    assert_eq!(mesh.indices, vec![0u32, 0, 0]);
    // one vertex weighted 100% to the root at local offset (1, 0, 0)
    assert_eq!(mesh.positions.len(), 1);
    assert_eq!(raw3(&mesh.positions[0]), (FX_SCALE, 0, 0));
    assert_eq!(raw3(&mesh.verts[0].position), (FX_SCALE, 0, 0));
    assert_eq!(mesh.tex_coords.len(), 1);
    assert_eq!(mesh.tex_coords[0].x.raw(), FX_SCALE / 2);
    assert_eq!(mesh.tex_coords[0].y.raw(), FX_SCALE / 2);
    assert!(m.validate());
}

#[test]
fn scenario_b_translated_joint() {
    let text = String::from_utf8(scenario_a_text())
        .unwrap()
        .replace("\"root\" -1 ( 0 0 0 )", "\"root\" -1 ( 2 0 0 )");
    let m = Model::new(b"data/models/guy.md5mesh", text.as_bytes());
    assert_eq!(raw3(&m.meshes[0].positions[0]), (3 * FX_SCALE, 0, 0));
}

#[test]
fn scenario_c_tolerant_parsing_keeps_default() {
    // a malformed texture coordinate leaves the field at its default while
    // everything after it is still read
    let text = String::from_utf8(scenario_a_text())
        .unwrap()
        .replace("( 0.5 0.5 )", "( oops 0.5 )");
    let m = Model::new(b"data/models/guy.md5mesh", text.as_bytes());
    assert_eq!(m.meshes[0].tex_coords[0].x.raw(), 0);
    assert_eq!(m.meshes[0].tex_coords[0].y.raw(), FX_SCALE / 2);
    assert_eq!(m.meshes[0].verts[0].weight_count, 1);
    assert_eq!(raw3(&m.meshes[0].positions[0]), (FX_SCALE, 0, 0));
}

#[test]
fn scenario_c_malformed_version_and_bias() {
    let text = String::from_utf8(scenario_a_text())
        .unwrap()
        .replace("MD5Version 10", "MD5Version ten")
        .replace("0 1.0 (", "0 bad (");
    let m = Model::new(b"data/models/guy.md5mesh", text.as_bytes());
    // the version keeps its zero default, the bias too, so the weighted sum
    // is empty
    assert_eq!(m.version, 0);
    assert_eq!(m.meshes[0].weights[0].bias.raw(), 0);
    assert_eq!(raw3(&m.meshes[0].positions[0]), (0, 0, 0));
}

#[test]
fn unknown_keywords_are_skipped() {
    let text = String::from_utf8(scenario_a_text())
        .unwrap()
        .replace("numMeshes 1", "numMeshes 1\nfancyExtension 3 4 5")
        .replace("shader", "glowmap \"x\"\n\tshader");
    let m = Model::new(b"data/models/guy.md5mesh", text.as_bytes());
    assert_eq!(m.meshes[0].texture, b"data/models/tex.tga".to_vec());
    assert_eq!(raw3(&m.meshes[0].positions[0]), (FX_SCALE, 0, 0));
}

#[test]
fn windows_paths_resolve() {
    let text = String::from_utf8(scenario_a_text())
        .unwrap()
        .replace("\"models/tex.tga\"", "\"mdl\\\\skins\\\\skin.tga\"");
    let m = Model::new(b"data\\guy.md5mesh", text.as_bytes());
    assert_eq!(m.file_directory, b"data".to_vec());
    assert_eq!(m.meshes[0].texture, b"data/skin.tga".to_vec());
}

#[test]
fn bare_filename_gets_dot_directory() {
    let m = Model::new(b"guy.md5mesh", &scenario_a_text());
    assert_eq!(m.file_directory, b".".to_vec());
    assert_eq!(m.meshes[0].texture, b"./tex.tga".to_vec());
}

#[test]
fn skinning_is_deterministic() {
    let m1 = Model::new(b"a/guy.md5mesh", &scenario_a_text());
    let m2 = Model::new(b"a/guy.md5mesh", &scenario_a_text());
    assert_eq!(raw3(&m1.meshes[0].positions[0]), raw3(&m2.meshes[0].positions[0]));
    // running the kernel again over the same data changes nothing
    let mut m3 = Model::new(b"a/guy.md5mesh", &scenario_a_text());
    let mut mesh = m3.meshes.remove(0);
    prepare_mesh(&m3.joints, &mut mesh);
    prepare_mesh(&m3.joints, &mut mesh);
    assert_eq!(raw3(&mesh.positions[0]), (FX_SCALE, 0, 0));
}

#[test]
fn out_of_range_weight_is_skipped_and_flagged() {
    let text = String::from_utf8(scenario_a_text())
        .unwrap()
        .replace("weight 0 0 1.0", "weight 0 7 1.0");
    let m = Model::new(b"data/guy.md5mesh", text.as_bytes());
    assert!(!m.validate());
    assert_eq!(raw3(&m.meshes[0].positions[0]), (0, 0, 0));
}

#[test]
fn bad_parent_index_fails_validation() {
    let text = String::from_utf8(scenario_a_text())
        .unwrap()
        .replace("\"root\" -1", "\"root\" 3");
    let m = Model::new(b"data/guy.md5mesh", text.as_bytes());
    assert!(!m.validate());
}

fn matching_animation() -> Animation {
    Animation {
        num_joints: 1,
        joint_infos: vec![JointInfo { name: b"\"root\"".to_vec(), parent_id: -1 }],
        animated_skeleton: vec![JointPose {
            position: Vec3::zero(),
            orientation: Quat::identity(),
        }],
    }
}

#[test]
fn matching_animation_is_accepted() {
    let mut m = Model::new(b"data/guy.md5mesh", &scenario_a_text());
    assert!(m.load_animation(Some(matching_animation())));
    assert!(m.animation.is_some());
}

#[test]
fn renamed_joint_is_rejected_and_slot_cleared() {
    let mut m = Model::new(b"data/guy.md5mesh", &scenario_a_text());
    assert!(m.load_animation(Some(matching_animation())));
    let mut bad = matching_animation();
    bad.joint_infos[0].name = b"\"hips\"".to_vec();
    assert!(!m.load_animation(Some(bad)));
    // the candidate is discarded and the model reverts to bind pose with no
    // animation attached; the rest of the model is untouched
    assert!(m.animation.is_none());
    assert_eq!(m.joints.len(), 1);
    assert_eq!(raw3(&m.meshes[0].positions[0]), (FX_SCALE, 0, 0));
}

#[test]
fn changed_parent_is_rejected() {
    let mut m = Model::new(b"data/guy.md5mesh", &scenario_a_text());
    let mut bad = matching_animation();
    bad.joint_infos[0].parent_id = 0;
    assert!(!m.load_animation(Some(bad)));
    assert!(m.animation.is_none());
}

#[test]
fn wrong_joint_count_is_rejected() {
    let mut m = Model::new(b"data/guy.md5mesh", &scenario_a_text());
    let mut bad = matching_animation();
    bad.num_joints = 2;
    assert!(!m.load_animation(Some(bad)));
    assert!(m.animation.is_none());
}

#[test]
fn failed_animation_load_clears_prior_animation() {
    let mut m = Model::new(b"data/guy.md5mesh", &scenario_a_text());
    assert!(m.load_animation(Some(matching_animation())));
    assert!(m.animation.is_some());
    // a candidate that failed to load leaves the model with no animation
    assert!(!m.load_animation(None));
    assert!(m.animation.is_none());
}

#[test]
fn update_reskins_from_animated_skeleton() {
    let mut m = Model::new(b"data/guy.md5mesh", &scenario_a_text());
    let mut anim = matching_animation();
    anim.animated_skeleton[0].position = Vec3 {
        x: Fx::zero(),
        y: Fx::zero(),
        z: Fx::from_raw(2 * FX_SCALE),
    };
    assert!(m.load_animation(Some(anim)));
    m.update();
    assert_eq!(raw3(&m.meshes[0].positions[0]), (FX_SCALE, 0, 2 * FX_SCALE));
    // a second pass over the same skeleton is idempotent
    m.update();
    assert_eq!(raw3(&m.meshes[0].positions[0]), (FX_SCALE, 0, 2 * FX_SCALE));
    // texture coordinates are not recomputed per frame
    assert_eq!(m.meshes[0].tex_coords[0].x.raw(), FX_SCALE / 2);
}

#[test]
fn update_without_animation_keeps_bind_pose() {
    let mut m = Model::new(b"data/guy.md5mesh", &scenario_a_text());
    m.update();
    assert_eq!(raw3(&m.meshes[0].positions[0]), (FX_SCALE, 0, 0));
}

#[test]
fn quaternion_reconstruction_identity() {
    let mut q = Quat { x: Fx::zero(), y: Fx::zero(), z: Fx::zero(), w: Fx::zero() };
    q.compute_w();
    assert_eq!(q.w.raw(), FX_SCALE);
}

#[test]
fn quaternion_reconstruction_unit_norm() {
    // 0.6^2 + 0.8^2 = 1, so the derived component is exactly zero
    let mut q = Quat {
        x: Fx::from_raw(600_000),
        y: Fx::from_raw(800_000),
        z: Fx::zero(),
        w: Fx::zero(),
    };
    q.compute_w();
    assert_eq!(q.w.raw(), 0);
    // 1 - 0.5^2 = 0.75, whose floor square root is 0.866025
    let mut h = Quat { x: Fx::from_raw(500_000), y: Fx::zero(), z: Fx::zero(), w: Fx::zero() };
    h.compute_w();
    assert_eq!(h.w.raw(), 866_025);
    let norm = 500_000i64 * 500_000 + 866_025i64 * 866_025;
    assert!(norm <= 1_000_000_000_000);
    assert!(1_000_000_000_000 < 500_000i64 * 500_000 + 866_026i64 * 866_026);
    // components outside the unit sphere derive a zero component
    let mut far = Quat {
        x: Fx::from_raw(2 * FX_SCALE),
        y: Fx::zero(),
        z: Fx::zero(),
        w: Fx::from_raw(123),
    };
    far.compute_w();
    assert_eq!(far.w.raw(), 0);
}

#[test]
fn identity_rotation_preserves_vectors() {
    let q = Quat::identity();
    let v = Vec3 {
        x: Fx::from_raw(123_456),
        y: Fx::from_raw(-654_321),
        z: Fx::from_raw(42),
    };
    let r = q.rotate_vec(&v);
    assert_eq!(raw3(&r), (123_456, -654_321, 42));
}

#[test]
fn load_clears_previous_content() {
    let mut m = Model::new(b"data/guy.md5mesh", &scenario_a_text());
    assert_eq!(m.joints.len(), 1);
    m.load(b"MD5Version 11\n");
    assert_eq!(m.version, 11);
    assert_eq!(m.joints.len(), 0);
    assert_eq!(m.meshes.len(), 0);
}

#[test]
fn empty_input_gives_empty_model() {
    let m = Model::new(b"dir/file.md5mesh", b"");
    assert_eq!(m.version, 0);
    assert_eq!(m.num_joints, 0);
    assert!(m.joints.is_empty());
    assert!(m.meshes.is_empty());
    assert!(m.animation.is_none());
    assert!(m.validate());
}
