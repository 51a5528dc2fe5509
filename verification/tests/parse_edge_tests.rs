use md5_model::fixed::FX_SCALE;
use md5_model::model::Model;

fn two_joint_text() -> Vec<u8> {
    let text = "MD5Version 10\n\
numJoints 2\n\
numMeshes 1\n\
joints {\n\
\t\"root\" -1 ( 0 0 0 ) ( 0 0 0 )\n\
\t\"arm\" 0 ( 2 0 0 ) ( 0 0 0 )\n\
}\n\
mesh {\n\
\tshader \"tex.tga\"\n\
\tnumverts 1\n\
\tvert 0 ( 0 0 ) 0 2\n\
\tnumweights 2\n\
\tweight 0 0 0.5 ( 1 0 0 )\n\
\tweight 1 1 0.5 ( 1 0 0 )\n\
}\n";
    text.as_bytes().to_vec()
}

#[test]
fn two_weight_blend() {
    let m = Model::new(b"d/guy.md5mesh", &two_joint_text());
    assert_eq!(m.joints.len(), 2);
    assert_eq!(m.joints[1].parent, 0);
    assert!(m.validate());
    // 0.5 * (1,0,0) + 0.5 * (3,0,0) = (2,0,0)
    let p = &m.meshes[0].positions[0];
    assert_eq!(p.x.raw(), 2 * FX_SCALE);
    assert_eq!(p.y.raw(), 0);
    assert_eq!(p.z.raw(), 0);
}

#[test]
fn malformed_field_keeps_previous_entry_value() {
    // the second joint's parent token is malformed: the field keeps the
    // value read for the first joint, -1
    let text = String::from_utf8(two_joint_text())
        .unwrap()
        .replace("\"arm\" 0 (", "\"arm\" zz (");
    let m = Model::new(b"d/guy.md5mesh", text.as_bytes());
    assert_eq!(m.joints[0].parent, -1);
    assert_eq!(m.joints[1].parent, -1);
    assert_eq!(m.joints[1].name, b"\"arm\"".to_vec());
}

#[test]
fn truncated_mesh_block_still_loads() {
    let full = String::from_utf8(two_joint_text()).unwrap();
    let cut = full.rfind("}\n").unwrap();
    let m = Model::new(b"d/guy.md5mesh", full[..cut].as_bytes());
    // end of input closes the mesh block; what was read is kept and skinned
    assert_eq!(m.meshes.len(), 1);
    assert_eq!(m.meshes[0].weights.len(), 2);
    assert_eq!(m.meshes[0].positions[0].x.raw(), 2 * FX_SCALE);
}

#[test]
fn missing_trailing_newline() {
    let full = String::from_utf8(two_joint_text()).unwrap();
    let trimmed = full.trim_end().to_string();
    let m = Model::new(b"d/guy.md5mesh", trimmed.as_bytes());
    assert_eq!(m.meshes.len(), 1);
    assert_eq!(m.meshes[0].positions[0].x.raw(), 2 * FX_SCALE);
}

#[test]
fn negative_counts_read_nothing() {
    let text = String::from_utf8(two_joint_text())
        .unwrap()
        .replace("numverts 1", "numverts -4");
    let m = Model::new(b"d/guy.md5mesh", text.as_bytes());
    // a negative count runs no entries; the entry lines that follow are
    // unknown words inside the block and lose their lines one by one
    assert_eq!(m.meshes[0].verts.len(), 0);
    assert_eq!(m.meshes[0].positions.len(), 0);
}

#[test]
fn repeated_mesh_blocks_append() {
    let full = String::from_utf8(two_joint_text()).unwrap();
    let mesh_start = full.find("mesh {").unwrap();
    let doubled = format!("{}{}", full, &full[mesh_start..]);
    let m = Model::new(b"d/guy.md5mesh", doubled.as_bytes());
    assert_eq!(m.meshes.len(), 2);
    assert_eq!(m.meshes[1].positions[0].x.raw(), 2 * FX_SCALE);
}
