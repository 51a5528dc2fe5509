//! The model-file grammar: top-level keywords, the joints block and the
//! repeatable mesh blocks, read as a stream of whitespace-delimited words.
//! Unknown words are skipped with the rest of their line, malformed numbers
//! leave the field at its previous value, and end of input terminates every
//! loop, so reading never fails.

use vstd::prelude::*;
use crate::fixed::Fx;
use crate::lex::{
    token_at, after_token, skip_line, next_token, skip_line_e, parse_i32_s, parse_i32_e,
    parse_fx_s, parse_fx_e, lemma_token_bounds, lemma_skip_line_bounds,
};
use crate::vecmath::{Vec2V, Vec3V, QuatV, quat_w_s};
use crate::geom::{
    Joint, JointV, Mesh, MeshV, Vertex, VertexV, Triangle, TriangleV, Weight, WeightV,
    joint_new_s, vertex_new_s, triangle_new_s, weight_new_s, mesh_new_s, clone_bytes,
};
use crate::skin::{joints_to_poses, prepared_mesh_s, prepare_mesh};
use crate::model::{Model, ModelV};

verus! {

// ---------------------------------------------------------------------------
// Path handling: explicit rules in place of platform path types. The
// separator style is detected by scanning for a backslash; the filename is
// what follows the last separator; the directory is what precedes it.
// ---------------------------------------------------------------------------

pub open spec fn has_backslash(t: Seq<u8>) -> bool {
    exists|k: int| 0 <= k < t.len() && t[k] == 92
}

pub open spec fn sep_of(t: Seq<u8>) -> u8 {
    if has_backslash(t) {
        92u8
    } else {
        47u8
    }
}

/// Index of the last separator, or -1 when there is none.
pub open spec fn last_sep(t: Seq<u8>, sep: u8) -> int
    decreases t.len(),
{
    if t.len() == 0 {
        -1
    } else if t.last() == sep {
        t.len() - 1
    } else {
        last_sep(t.drop_last(), sep)
    }
}

pub proof fn lemma_last_sep_bounds(t: Seq<u8>, sep: u8)
    ensures
        -1 <= last_sep(t, sep) < t.len(),
    decreases t.len(),
{
    if t.len() > 0 && t.last() != sep {
        lemma_last_sep_bounds(t.drop_last(), sep);
    }
}

/// The filename component: everything after the last separator of the
/// detected style.
pub open spec fn filename_from(t: Seq<u8>) -> Seq<u8> {
    t.subrange(last_sep(t, sep_of(t)) + 1, t.len() as int)
}

/// The directory component: everything before the last separator; a dot
/// when there is no separator; the separator itself when it leads.
pub open spec fn dirname_s(t: Seq<u8>) -> Seq<u8> {
    let p = last_sep(t, sep_of(t));
    if p < 0 {
        seq![46u8]
    } else if p == 0 {
        t.subrange(0, 1)
    } else {
        t.subrange(0, p)
    }
}

/// The string with every double-quote byte removed.
pub open spec fn remove_quotes(t: Seq<u8>) -> Seq<u8>
    decreases t.len(),
{
    if t.len() == 0 {
        Seq::empty()
    } else {
        let r = remove_quotes(t.drop_last());
        if t.last() == 34 {
            r
        } else {
            r.push(t.last())
        }
    }
}

/// The resolved texture path: base directory, a slash, and the unquoted
/// filename component of the shader token.
pub open spec fn texture_path_s(dir: Seq<u8>, shader_tok: Seq<u8>) -> Seq<u8> {
    dir + seq![47u8] + remove_quotes(filename_from(shader_tok))
}

#[verifier::loop_isolation(false)]
pub fn has_backslash_e(t: &[u8]) -> (r: bool)
    ensures
        r == has_backslash(t@),
{
    let mut k: usize = 0;
    while k < t.len()
        invariant
            k <= t@.len(),
            forall|j: int| 0 <= j < k ==> t@[j] != 92,
        decreases t@.len() - k,
    {
        if t[k] == 92 {
            return true;
        }
        k = k + 1;
    }
    false
}

/// Last separator position, scanning from the end.
#[verifier::loop_isolation(false)]
pub fn last_sep_e(t: &[u8], sep: u8) -> (r: (bool, usize))
    ensures
        r.0 ==> r.1 < t@.len() && last_sep(t@, sep) == r.1 as int,
        !r.0 ==> last_sep(t@, sep) == -1,
{
    let mut k: usize = t.len();
    proof {
        assert(t@.subrange(0, t@.len() as int) =~= t@);
    }
    while k > 0
        invariant
            k <= t@.len(),
            last_sep(t@, sep) == last_sep(t@.subrange(0, k as int), sep),
        decreases k,
    {
        proof {
            let pre = t@.subrange(0, k as int);
            assert(pre.drop_last() =~= t@.subrange(0, k - 1));
            assert(pre.last() == t@[k - 1]);
        }
        if t[k - 1] == sep {
            return (true, k - 1);
        }
        k = k - 1;
    }
    proof {
        assert(t@.subrange(0, 0) =~= Seq::<u8>::empty());
    }
    (false, 0)
}

#[verifier::loop_isolation(false)]
pub fn remove_quotes_e(t: &[u8]) -> (r: Vec<u8>)
    ensures
        r@ == remove_quotes(t@),
{
    let mut out: Vec<u8> = Vec::new();
    let mut k: usize = 0;
    while k < t.len()
        invariant
            k <= t@.len(),
            out@ == remove_quotes(t@.subrange(0, k as int)),
        decreases t@.len() - k,
    {
        proof {
            let pre2 = t@.subrange(0, k + 1);
            assert(pre2.drop_last() =~= t@.subrange(0, k as int));
            assert(pre2.last() == t@[k as int]);
        }
        if t[k] != 34 {
            out.push(t[k]);
        }
        k = k + 1;
    }
    proof {
        assert(t@.subrange(0, t@.len() as int) =~= t@);
    }
    out
}

/// The directory component of a path token.
pub fn dirname_e(t: &[u8]) -> (r: Vec<u8>)
    ensures
        r@ == dirname_s(t@),
{
    let sep: u8 = if has_backslash_e(t) {
        92
    } else {
        47
    };
    let (found, p) = last_sep_e(t, sep);
    proof {
        lemma_last_sep_bounds(t@, sep);
    }
    let mut out: Vec<u8> = Vec::new();
    if !found {
        out.push(46);
        proof {
            assert(out@ =~= dirname_s(t@));
        }
        return out;
    }
    let stop: usize = if p == 0 {
        1
    } else {
        p
    };
    let mut k: usize = 0;
    #[verifier::loop_isolation(false)]
    while k < stop
        invariant
            k <= stop <= t@.len(),
            out@ == t@.subrange(0, k as int),
        decreases stop - k,
    {
        out.push(t[k]);
        k = k + 1;
        proof {
            assert(out@ =~= t@.subrange(0, k as int));
        }
    }
    proof {
        assert(out@ =~= dirname_s(t@));
    }
    out
}

/// The resolved texture path for a shader token.
pub fn texture_of_e(dir: &Vec<u8>, shader_tok: &Vec<u8>) -> (r: Vec<u8>)
    ensures
        r@ == texture_path_s(dir@, shader_tok@),
{
    let sep: u8 = if has_backslash_e(shader_tok.as_slice()) {
        92
    } else {
        47
    };
    let (found, p) = last_sep_e(shader_tok.as_slice(), sep);
    proof {
        lemma_last_sep_bounds(shader_tok@, sep);
    }
    let slen: usize = shader_tok.len();
    let start: usize = if found {
        assert(p < slen);
        p + 1
    } else {
        0
    };
    let mut name: Vec<u8> = Vec::new();
    let mut k: usize = start;
    #[verifier::loop_isolation(false)]
    while k < shader_tok.len()
        invariant
            start <= k <= shader_tok@.len(),
            name@ == shader_tok@.subrange(start as int, k as int),
        decreases shader_tok@.len() - k,
    {
        name.push(shader_tok[k]);
        k = k + 1;
        proof {
            assert(name@ =~= shader_tok@.subrange(start as int, k as int));
        }
    }
    proof {
        assert(name@ =~= filename_from(shader_tok@));
    }
    let stripped = remove_quotes_e(name.as_slice());
    let mut out = clone_bytes(dir);
    out.push(47);
    let mut j: usize = 0;
    #[verifier::loop_isolation(false)]
    while j < stripped.len()
        invariant
            j <= stripped@.len(),
            out@ == dir@ + seq![47u8] + stripped@.subrange(0, j as int),
        decreases stripped@.len() - j,
    {
        out.push(stripped[j]);
        j = j + 1;
        proof {
            assert(out@ =~= dir@ + seq![47u8] + stripped@.subrange(0, j as int));
        }
    }
    proof {
        assert(stripped@.subrange(0, stripped@.len() as int) =~= stripped@);
        assert(out@ =~= texture_path_s(dir@, shader_tok@));
    }
    out
}

// ---------------------------------------------------------------------------
// Keywords
// ---------------------------------------------------------------------------

pub open spec fn kw_md5version() -> Seq<u8> {
    seq![77u8, 68u8, 53u8, 86u8, 101u8, 114u8, 115u8, 105u8, 111u8, 110u8]
}

pub open spec fn kw_commandline() -> Seq<u8> {
    seq![99u8, 111u8, 109u8, 109u8, 97u8, 110u8, 100u8, 108u8, 105u8, 110u8, 101u8]
}

pub open spec fn kw_num_joints() -> Seq<u8> {
    seq![110u8, 117u8, 109u8, 74u8, 111u8, 105u8, 110u8, 116u8, 115u8]
}

pub open spec fn kw_num_meshes() -> Seq<u8> {
    seq![110u8, 117u8, 109u8, 77u8, 101u8, 115u8, 104u8, 101u8, 115u8]
}

pub open spec fn kw_joints() -> Seq<u8> {
    seq![106u8, 111u8, 105u8, 110u8, 116u8, 115u8]
}

pub open spec fn kw_mesh() -> Seq<u8> {
    seq![109u8, 101u8, 115u8, 104u8]
}

pub open spec fn kw_shader() -> Seq<u8> {
    seq![115u8, 104u8, 97u8, 100u8, 101u8, 114u8]
}

pub open spec fn kw_numverts() -> Seq<u8> {
    seq![110u8, 117u8, 109u8, 118u8, 101u8, 114u8, 116u8, 115u8]
}

pub open spec fn kw_numtris() -> Seq<u8> {
    seq![110u8, 117u8, 109u8, 116u8, 114u8, 105u8, 115u8]
}

pub open spec fn kw_numweights() -> Seq<u8> {
    seq![110u8, 117u8, 109u8, 119u8, 101u8, 105u8, 103u8, 104u8, 116u8, 115u8]
}

pub open spec fn kw_close_brace() -> Seq<u8> {
    seq![125u8]
}

pub fn is_kw_md5version(t: &Vec<u8>) -> (r: bool)
    ensures
        r == (t@ == kw_md5version()),
{
    let r = t.len() == 10 && t[0] == 77 && t[1] == 68 && t[2] == 53 && t[3] == 86 && t[4] == 101
        && t[5] == 114 && t[6] == 115 && t[7] == 105 && t[8] == 111 && t[9] == 110;
    proof {
        if r {
            assert(t@ =~= kw_md5version());
        }
    }
    r
}

pub fn is_kw_commandline(t: &Vec<u8>) -> (r: bool)
    ensures
        r == (t@ == kw_commandline()),
{
    let r = t.len() == 11 && t[0] == 99 && t[1] == 111 && t[2] == 109 && t[3] == 109 && t[4] == 97
        && t[5] == 110 && t[6] == 100 && t[7] == 108 && t[8] == 105 && t[9] == 110 && t[10] == 101;
    proof {
        if r {
            assert(t@ =~= kw_commandline());
        }
    }
    r
}

pub fn is_kw_num_joints(t: &Vec<u8>) -> (r: bool)
    ensures
        r == (t@ == kw_num_joints()),
{
    let r = t.len() == 9 && t[0] == 110 && t[1] == 117 && t[2] == 109 && t[3] == 74 && t[4] == 111
        && t[5] == 105 && t[6] == 110 && t[7] == 116 && t[8] == 115;
    proof {
        if r {
            assert(t@ =~= kw_num_joints());
        }
    }
    r
}

pub fn is_kw_num_meshes(t: &Vec<u8>) -> (r: bool)
    ensures
        r == (t@ == kw_num_meshes()),
{
    let r = t.len() == 9 && t[0] == 110 && t[1] == 117 && t[2] == 109 && t[3] == 77 && t[4] == 101
        && t[5] == 115 && t[6] == 104 && t[7] == 101 && t[8] == 115;
    proof {
        if r {
            assert(t@ =~= kw_num_meshes());
        }
    }
    r
}

pub fn is_kw_joints(t: &Vec<u8>) -> (r: bool)
    ensures
        r == (t@ == kw_joints()),
{
    let r = t.len() == 6 && t[0] == 106 && t[1] == 111 && t[2] == 105 && t[3] == 110 && t[4] == 116
        && t[5] == 115;
    proof {
        if r {
            assert(t@ =~= kw_joints());
        }
    }
    r
}

pub fn is_kw_mesh(t: &Vec<u8>) -> (r: bool)
    ensures
        r == (t@ == kw_mesh()),
{
    let r = t.len() == 4 && t[0] == 109 && t[1] == 101 && t[2] == 115 && t[3] == 104;
    proof {
        if r {
            assert(t@ =~= kw_mesh());
        }
    }
    r
}

pub fn is_kw_shader(t: &Vec<u8>) -> (r: bool)
    ensures
        r == (t@ == kw_shader()),
{
    let r = t.len() == 6 && t[0] == 115 && t[1] == 104 && t[2] == 97 && t[3] == 100 && t[4] == 101
        && t[5] == 114;
    proof {
        if r {
            assert(t@ =~= kw_shader());
        }
    }
    r
}

pub fn is_kw_numverts(t: &Vec<u8>) -> (r: bool)
    ensures
        r == (t@ == kw_numverts()),
{
    let r = t.len() == 8 && t[0] == 110 && t[1] == 117 && t[2] == 109 && t[3] == 118 && t[4] == 101
        && t[5] == 114 && t[6] == 116 && t[7] == 115;
    proof {
        if r {
            assert(t@ =~= kw_numverts());
        }
    }
    r
}

pub fn is_kw_numtris(t: &Vec<u8>) -> (r: bool)
    ensures
        r == (t@ == kw_numtris()),
{
    let r = t.len() == 7 && t[0] == 110 && t[1] == 117 && t[2] == 109 && t[3] == 116 && t[4] == 114
        && t[5] == 105 && t[6] == 115;
    proof {
        if r {
            assert(t@ =~= kw_numtris());
        }
    }
    r
}

pub fn is_kw_numweights(t: &Vec<u8>) -> (r: bool)
    ensures
        r == (t@ == kw_numweights()),
{
    let r = t.len() == 10 && t[0] == 110 && t[1] == 117 && t[2] == 109 && t[3] == 119 && t[4]
        == 101 && t[5] == 105 && t[6] == 103 && t[7] == 104 && t[8] == 116 && t[9] == 115;
    proof {
        if r {
            assert(t@ =~= kw_numweights());
        }
    }
    r
}

pub fn is_kw_close_brace(t: &Vec<u8>) -> (r: bool)
    ensures
        r == (t@ == kw_close_brace()),
{
    let r = t.len() == 1 && t[0] == 125;
    proof {
        if r {
            assert(t@ =~= kw_close_brace());
        }
    }
    r
}

// ---------------------------------------------------------------------------
// Tolerant field reads: the next word is converted; on failure the field
// keeps its current value.
// ---------------------------------------------------------------------------

pub open spec fn read_i32_s(s: Seq<u8>, i: int, cur: int) -> (int, int) {
    let v = match parse_i32_s(token_at(s, i)) {
        Option::Some(x) => x,
        Option::None => cur,
    };
    (v, after_token(s, i))
}

pub open spec fn read_fx_s(s: Seq<u8>, i: int, cur: int) -> (int, int) {
    let v = match parse_fx_s(token_at(s, i)) {
        Option::Some(x) => x,
        Option::None => cur,
    };
    (v, after_token(s, i))
}

pub fn read_i32_e(s: &[u8], i: usize, cur: i32) -> (r: (i32, usize))
    requires
        i <= s@.len(),
    ensures
        r.0 as int == read_i32_s(s@, i as int, cur as int).0,
        r.1 as int == read_i32_s(s@, i as int, cur as int).1,
        i <= r.1 <= s@.len(),
{
    let (tok, j) = next_token(s, i);
    let v = match parse_i32_e(tok.as_slice()) {
        Some(x) => x,
        None => cur,
    };
    (v, j)
}

pub fn read_fx_e(s: &[u8], i: usize, cur: Fx) -> (r: (Fx, usize))
    requires
        i <= s@.len(),
    ensures
        r.0@ == read_fx_s(s@, i as int, cur@).0,
        r.1 as int == read_fx_s(s@, i as int, cur@).1,
        i <= r.1 <= s@.len(),
{
    let (tok, j) = next_token(s, i);
    let v = match parse_fx_e(tok.as_slice()) {
        Some(x) => x,
        None => cur,
    };
    (v, j)
}

// ---------------------------------------------------------------------------
// The grammar, as one spec function per production, and executable readers
// proved equal to them.
// ---------------------------------------------------------------------------

/// The unsigned 32-bit reinterpretation of a signed index, as the flattened
/// index buffer stores it.
pub open spec fn u32_of_i32(x: int) -> int {
    if x >= 0 {
        x
    } else {
        x + 0x1_0000_0000
    }
}

pub fn u32_of_i32_e(x: i32) -> (r: u32)
    ensures
        r as int == u32_of_i32(x as int),
{
    if x >= 0 {
        x as u32
    } else {
        ((x as i64) + 0x1_0000_0000i64) as u32
    }
}

/// One joints-block entry: name, parent, a bracket, three position
/// components, two brackets, three orientation components, a bracket, then
/// the rest of the line; the scalar component of the orientation is derived.
pub open spec fn joint_entry_s(s: Seq<u8>, i: int, j: JointV) -> (JointV, int) {
    let name = token_at(s, i);
    let i1 = after_token(s, i);
    let pr = read_i32_s(s, i1, j.parent);
    let i3 = after_token(s, pr.1);
    let px = read_fx_s(s, i3, j.position.x);
    let py = read_fx_s(s, px.1, j.position.y);
    let pz = read_fx_s(s, py.1, j.position.z);
    let i7 = after_token(s, pz.1);
    let i8 = after_token(s, i7);
    let ox = read_fx_s(s, i8, j.orientation.x);
    let oy = read_fx_s(s, ox.1, j.orientation.y);
    let oz = read_fx_s(s, oy.1, j.orientation.z);
    let i12 = after_token(s, oz.1);
    let i13 = skip_line(s, i12);
    (JointV {
        name: name,
        parent: pr.0,
        position: Vec3V { x: px.0, y: py.0, z: pz.0 },
        orientation: QuatV { x: ox.0, y: oy.0, z: oz.0, w: quat_w_s(ox.0, oy.0, oz.0) },
    }, i13)
}

pub proof fn lemma_joint_entry_bounds(s: Seq<u8>, i: int, j: JointV)
    requires
        0 <= i <= s.len(),
    ensures
        i <= joint_entry_s(s, i, j).1 <= s.len(),
{
    lemma_token_bounds(s, i);
    let i1 = after_token(s, i);
    lemma_token_bounds(s, i1);
    let i2 = after_token(s, i1);
    lemma_token_bounds(s, i2);
    let i3 = after_token(s, i2);
    lemma_token_bounds(s, i3);
    let i4 = after_token(s, i3);
    lemma_token_bounds(s, i4);
    let i5 = after_token(s, i4);
    lemma_token_bounds(s, i5);
    let i6 = after_token(s, i5);
    lemma_token_bounds(s, i6);
    let i7 = after_token(s, i6);
    lemma_token_bounds(s, i7);
    let i8 = after_token(s, i7);
    lemma_token_bounds(s, i8);
    let i9 = after_token(s, i8);
    lemma_token_bounds(s, i9);
    let i10 = after_token(s, i9);
    lemma_token_bounds(s, i10);
    let i11 = after_token(s, i10);
    lemma_token_bounds(s, i11);
    let i12 = after_token(s, i11);
    lemma_skip_line_bounds(s, i12);
}

/// The joints block body: `n` entries appended in file order, the running
/// entry value carrying over into fields a malformed token leaves unset.
pub open spec fn joints_loop_s(s: Seq<u8>, i: int, j: JointV, acc: Seq<JointV>, n: int) -> (
    Seq<JointV>,
    int,
)
    decreases n,
{
    if n <= 0 {
        (acc, i)
    } else {
        let e = joint_entry_s(s, i, j);
        joints_loop_s(s, e.1, e.0, acc.push(e.0), n - 1)
    }
}

pub proof fn lemma_joints_loop_bounds(s: Seq<u8>, i: int, j: JointV, acc: Seq<JointV>, n: int)
    requires
        0 <= i <= s.len(),
    ensures
        i <= joints_loop_s(s, i, j, acc, n).1 <= s.len(),
    decreases n,
{
    if n > 0 {
        lemma_joint_entry_bounds(s, i, j);
        let e = joint_entry_s(s, i, j);
        lemma_joints_loop_bounds(s, e.1, e.0, acc.push(e.0), n - 1);
    }
}

#[verifier::ext_equal]
pub ghost struct MeshStV {
    pub mesh: MeshV,
    pub vert: VertexV,
    pub tri: TriangleV,
    pub weight: WeightV,
    pub num_verts: int,
    pub num_tris: int,
    pub num_weights: int,
}

/// The running state of one mesh block: the mesh under construction plus
/// the carry-over entry values and the declared section counts.
pub struct MeshSt {
    pub mesh: Mesh,
    pub vert: Vertex,
    pub tri: Triangle,
    pub weight: Weight,
    pub num_verts: i32,
    pub num_tris: i32,
    pub num_weights: i32,
}

impl View for MeshSt {
    type V = MeshStV;

    open spec fn view(&self) -> MeshStV {
        MeshStV {
            mesh: self.mesh@,
            vert: self.vert@,
            tri: self.tri@,
            weight: self.weight@,
            num_verts: self.num_verts as int,
            num_tris: self.num_tris as int,
            num_weights: self.num_weights as int,
        }
    }
}

pub open spec fn mesh_st_new_s() -> MeshStV {
    MeshStV {
        mesh: mesh_new_s(),
        vert: vertex_new_s(),
        tri: triangle_new_s(),
        weight: weight_new_s(),
        num_verts: 0,
        num_tris: 0,
        num_weights: 0,
    }
}

impl MeshSt {
    pub fn new() -> (st: MeshSt)
        ensures
            st@ == mesh_st_new_s(),
    {
        let st = MeshSt {
            mesh: Mesh::new(),
            vert: Vertex::new(),
            tri: Triangle::new(),
            weight: Weight::new(),
            num_verts: 0,
            num_tris: 0,
            num_weights: 0,
        };
        proof {
            assert(st@ =~= mesh_st_new_s());
        }
        st
    }
}

/// One vertex entry: three discarded words, the texture coordinates, a
/// discarded word, the weight range, the rest of the line; the vertex and
/// its texture coordinate are appended.
pub open spec fn vert_entry_s(s: Seq<u8>, i: int, st: MeshStV) -> (MeshStV, int) {
    let i1 = after_token(s, i);
    let i2 = after_token(s, i1);
    let i3 = after_token(s, i2);
    let tx = read_fx_s(s, i3, st.vert.tex_coord.x);
    let ty = read_fx_s(s, tx.1, st.vert.tex_coord.y);
    let i6 = after_token(s, ty.1);
    let sw = read_i32_s(s, i6, st.vert.start_weight);
    let wc = read_i32_s(s, sw.1, st.vert.weight_count);
    let i9 = skip_line(s, wc.1);
    let vert = VertexV {
        tex_coord: Vec2V { x: tx.0, y: ty.0 },
        start_weight: sw.0,
        weight_count: wc.0,
        position: st.vert.position,
        normal: st.vert.normal,
    };
    (MeshStV {
        mesh: MeshV {
            verts: st.mesh.verts.push(vert),
            tex_coords: st.mesh.tex_coords.push(vert.tex_coord),
            ..st.mesh
        },
        vert: vert,
        ..st
    }, i9)
}

pub proof fn lemma_vert_entry_bounds(s: Seq<u8>, i: int, st: MeshStV)
    requires
        0 <= i <= s.len(),
    ensures
        i <= vert_entry_s(s, i, st).1 <= s.len(),
{
    lemma_token_bounds(s, i);
    let i1 = after_token(s, i);
    lemma_token_bounds(s, i1);
    let i2 = after_token(s, i1);
    lemma_token_bounds(s, i2);
    let i3 = after_token(s, i2);
    lemma_token_bounds(s, i3);
    let i4 = after_token(s, i3);
    lemma_token_bounds(s, i4);
    let i5 = after_token(s, i4);
    lemma_token_bounds(s, i5);
    let i6 = after_token(s, i5);
    lemma_token_bounds(s, i6);
    let i7 = after_token(s, i6);
    lemma_token_bounds(s, i7);
    let i8 = after_token(s, i7);
    lemma_skip_line_bounds(s, i8);
}

pub open spec fn verts_loop_s(s: Seq<u8>, i: int, st: MeshStV, n: int) -> (MeshStV, int)
    decreases n,
{
    if n <= 0 {
        (st, i)
    } else {
        let e = vert_entry_s(s, i, st);
        verts_loop_s(s, e.1, e.0, n - 1)
    }
}

pub proof fn lemma_verts_loop_bounds(s: Seq<u8>, i: int, st: MeshStV, n: int)
    requires
        0 <= i <= s.len(),
    ensures
        i <= verts_loop_s(s, i, st, n).1 <= s.len(),
    decreases n,
{
    if n > 0 {
        lemma_vert_entry_bounds(s, i, st);
        let e = vert_entry_s(s, i, st);
        lemma_verts_loop_bounds(s, e.1, e.0, n - 1);
    }
}

/// One triangle entry: two discarded words, three vertex indices, the rest
/// of the line; the triangle and its flattened indices are appended.
pub open spec fn tri_entry_s(s: Seq<u8>, i: int, st: MeshStV) -> (MeshStV, int) {
    let i1 = after_token(s, i);
    let i2 = after_token(s, i1);
    let a = read_i32_s(s, i2, st.tri.i0);
    let b = read_i32_s(s, a.1, st.tri.i1);
    let c = read_i32_s(s, b.1, st.tri.i2);
    let i6 = skip_line(s, c.1);
    let tri = TriangleV { i0: a.0, i1: b.0, i2: c.0 };
    (MeshStV {
        mesh: MeshV {
            triangles: st.mesh.triangles.push(tri),
            indices: st.mesh.indices.push(u32_of_i32(a.0)).push(u32_of_i32(b.0)).push(
                u32_of_i32(c.0),
            ),
            ..st.mesh
        },
        tri: tri,
        ..st
    }, i6)
}

pub proof fn lemma_tri_entry_bounds(s: Seq<u8>, i: int, st: MeshStV)
    requires
        0 <= i <= s.len(),
    ensures
        i <= tri_entry_s(s, i, st).1 <= s.len(),
{
    lemma_token_bounds(s, i);
    let i1 = after_token(s, i);
    lemma_token_bounds(s, i1);
    let i2 = after_token(s, i1);
    lemma_token_bounds(s, i2);
    let i3 = after_token(s, i2);
    lemma_token_bounds(s, i3);
    let i4 = after_token(s, i3);
    lemma_token_bounds(s, i4);
    let i5 = after_token(s, i4);
    lemma_skip_line_bounds(s, i5);
}

pub open spec fn tris_loop_s(s: Seq<u8>, i: int, st: MeshStV, n: int) -> (MeshStV, int)
    decreases n,
{
    if n <= 0 {
        (st, i)
    } else {
        let e = tri_entry_s(s, i, st);
        tris_loop_s(s, e.1, e.0, n - 1)
    }
}

pub proof fn lemma_tris_loop_bounds(s: Seq<u8>, i: int, st: MeshStV, n: int)
    requires
        0 <= i <= s.len(),
    ensures
        i <= tris_loop_s(s, i, st, n).1 <= s.len(),
    decreases n,
{
    if n > 0 {
        lemma_tri_entry_bounds(s, i, st);
        let e = tri_entry_s(s, i, st);
        lemma_tris_loop_bounds(s, e.1, e.0, n - 1);
    }
}

/// One weight entry: two discarded words, the joint id and bias, a
/// discarded word, the local position, a discarded word, the rest of the
/// line; the weight is appended.
pub open spec fn weight_entry_s(s: Seq<u8>, i: int, st: MeshStV) -> (MeshStV, int) {
    let i1 = after_token(s, i);
    let i2 = after_token(s, i1);
    let jid = read_i32_s(s, i2, st.weight.joint_id);
    let bs = read_fx_s(s, jid.1, st.weight.bias);
    let i5 = after_token(s, bs.1);
    let wx = read_fx_s(s, i5, st.weight.position.x);
    let wy = read_fx_s(s, wx.1, st.weight.position.y);
    let wz = read_fx_s(s, wy.1, st.weight.position.z);
    let i9 = after_token(s, wz.1);
    let i10 = skip_line(s, i9);
    let weight = WeightV {
        joint_id: jid.0,
        bias: bs.0,
        position: Vec3V { x: wx.0, y: wy.0, z: wz.0 },
    };
    (MeshStV { mesh: MeshV { weights: st.mesh.weights.push(weight), ..st.mesh }, weight: weight, ..st }, i10)
}

pub proof fn lemma_weight_entry_bounds(s: Seq<u8>, i: int, st: MeshStV)
    requires
        0 <= i <= s.len(),
    ensures
        i <= weight_entry_s(s, i, st).1 <= s.len(),
{
    lemma_token_bounds(s, i);
    let i1 = after_token(s, i);
    lemma_token_bounds(s, i1);
    let i2 = after_token(s, i1);
    lemma_token_bounds(s, i2);
    let i3 = after_token(s, i2);
    lemma_token_bounds(s, i3);
    let i4 = after_token(s, i3);
    lemma_token_bounds(s, i4);
    let i5 = after_token(s, i4);
    lemma_token_bounds(s, i5);
    let i6 = after_token(s, i5);
    lemma_token_bounds(s, i6);
    let i7 = after_token(s, i6);
    lemma_token_bounds(s, i7);
    let i8 = after_token(s, i7);
    lemma_token_bounds(s, i8);
    let i9 = after_token(s, i8);
    lemma_skip_line_bounds(s, i9);
}

pub open spec fn weights_loop_s(s: Seq<u8>, i: int, st: MeshStV, n: int) -> (MeshStV, int)
    decreases n,
{
    if n <= 0 {
        (st, i)
    } else {
        let e = weight_entry_s(s, i, st);
        weights_loop_s(s, e.1, e.0, n - 1)
    }
}

pub proof fn lemma_weights_loop_bounds(s: Seq<u8>, i: int, st: MeshStV, n: int)
    requires
        0 <= i <= s.len(),
    ensures
        i <= weights_loop_s(s, i, st, n).1 <= s.len(),
    decreases n,
{
    if n > 0 {
        lemma_weight_entry_bounds(s, i, st);
        let e = weight_entry_s(s, i, st);
        lemma_weights_loop_bounds(s, e.1, e.0, n - 1);
    }
}

/// One keyword inside a mesh block, `tok` already read and `i` just past
/// it; an unknown word loses the rest of its line.
pub open spec fn mesh_handle_s(s: Seq<u8>, i: int, tok: Seq<u8>, dir: Seq<u8>, st: MeshStV) -> (
    MeshStV,
    int,
) {
    if tok == kw_shader() {
        let sh = token_at(s, i);
        let i1 = after_token(s, i);
        (MeshStV { mesh: MeshV { texture: texture_path_s(dir, sh), ..st.mesh }, ..st }, skip_line(s, i1))
    } else if tok == kw_numverts() {
        let r = read_i32_s(s, i, st.num_verts);
        let i2 = skip_line(s, r.1);
        verts_loop_s(s, i2, MeshStV { num_verts: r.0, ..st }, r.0)
    } else if tok == kw_numtris() {
        let r = read_i32_s(s, i, st.num_tris);
        let i2 = skip_line(s, r.1);
        tris_loop_s(s, i2, MeshStV { num_tris: r.0, ..st }, r.0)
    } else if tok == kw_numweights() {
        let r = read_i32_s(s, i, st.num_weights);
        let i2 = skip_line(s, r.1);
        weights_loop_s(s, i2, MeshStV { num_weights: r.0, ..st }, r.0)
    } else {
        (st, skip_line(s, i))
    }
}

pub proof fn lemma_mesh_handle_bounds(s: Seq<u8>, i: int, tok: Seq<u8>, dir: Seq<u8>, st: MeshStV)
    requires
        0 <= i <= s.len(),
    ensures
        i <= mesh_handle_s(s, i, tok, dir, st).1 <= s.len(),
{
    lemma_token_bounds(s, i);
    let i1 = after_token(s, i);
    lemma_skip_line_bounds(s, i1);
    lemma_skip_line_bounds(s, i);
    if tok == kw_numverts() {
        let r = read_i32_s(s, i, st.num_verts);
        lemma_skip_line_bounds(s, r.1);
        lemma_verts_loop_bounds(s, skip_line(s, r.1), MeshStV { num_verts: r.0, ..st }, r.0);
    }
    if tok == kw_numtris() {
        let r = read_i32_s(s, i, st.num_tris);
        lemma_skip_line_bounds(s, r.1);
        lemma_tris_loop_bounds(s, skip_line(s, r.1), MeshStV { num_tris: r.0, ..st }, r.0);
    }
    if tok == kw_numweights() {
        let r = read_i32_s(s, i, st.num_weights);
        lemma_skip_line_bounds(s, r.1);
        lemma_weights_loop_bounds(s, skip_line(s, r.1), MeshStV { num_weights: r.0, ..st }, r.0);
    }
}

/// The mesh block body: keywords handled in the order encountered until a
/// closing brace, or the end of input.
pub open spec fn mesh_loop_s(s: Seq<u8>, i: int, dir: Seq<u8>, st: MeshStV) -> (MeshStV, int)
    decreases s.len() - i,
        when 0 <= i <= s.len()
{
    let tok = token_at(s, i);
    let j = after_token(s, i);
    if tok.len() == 0 || tok == kw_close_brace() {
        (st, j)
    } else {
        proof {
            lemma_token_bounds(s, i);
            lemma_mesh_handle_bounds(s, j, tok, dir, st);
        }
        let nx = mesh_handle_s(s, j, tok, dir, st);
        mesh_loop_s(s, nx.1, dir, nx.0)
    }
}

pub proof fn lemma_mesh_loop_bounds(s: Seq<u8>, i: int, dir: Seq<u8>, st: MeshStV)
    requires
        0 <= i <= s.len(),
    ensures
        i <= mesh_loop_s(s, i, dir, st).1 <= s.len(),
    decreases s.len() - i,
{
    let tok = token_at(s, i);
    let j = after_token(s, i);
    lemma_token_bounds(s, i);
    if !(tok.len() == 0 || tok == kw_close_brace()) {
        lemma_mesh_handle_bounds(s, j, tok, dir, st);
        let nx = mesh_handle_s(s, j, tok, dir, st);
        lemma_mesh_loop_bounds(s, nx.1, dir, nx.0);
    }
}

/// One top-level keyword, `tok` already read and `i` just past it.
pub open spec fn top_handle_s(s: Seq<u8>, i: int, tok: Seq<u8>, m: ModelV) -> (ModelV, int) {
    if tok == kw_md5version() {
        let r = read_i32_s(s, i, m.version);
        (ModelV { version: r.0, ..m }, r.1)
    } else if tok == kw_commandline() {
        (m, skip_line(s, i))
    } else if tok == kw_num_joints() {
        let r = read_i32_s(s, i, m.num_joints);
        (ModelV { num_joints: r.0, joints: Seq::empty(), ..m }, r.1)
    } else if tok == kw_num_meshes() {
        let r = read_i32_s(s, i, m.num_meshes);
        (ModelV { num_meshes: r.0, meshes: Seq::empty(), ..m }, r.1)
    } else if tok == kw_joints() {
        let i1 = after_token(s, i);
        let jl = joints_loop_s(s, i1, joint_new_s(), m.joints, m.num_joints);
        let i2 = after_token(s, jl.1);
        (ModelV { joints: jl.0, ..m }, i2)
    } else if tok == kw_mesh() {
        let i1 = after_token(s, i);
        let ml = mesh_loop_s(s, i1, m.file_directory, mesh_st_new_s());
        (ModelV {
            meshes: m.meshes.push(prepared_mesh_s(joints_to_poses(m.joints), ml.0.mesh)),
            ..m
        }, ml.1)
    } else {
        (m, skip_line(s, i))
    }
}

pub proof fn lemma_top_handle_bounds(s: Seq<u8>, i: int, tok: Seq<u8>, m: ModelV)
    requires
        0 <= i <= s.len(),
    ensures
        i <= top_handle_s(s, i, tok, m).1 <= s.len(),
{
    lemma_token_bounds(s, i);
    lemma_skip_line_bounds(s, i);
    let i1 = after_token(s, i);
    if tok == kw_joints() {
        lemma_joints_loop_bounds(s, i1, joint_new_s(), m.joints, m.num_joints);
        let jl = joints_loop_s(s, i1, joint_new_s(), m.joints, m.num_joints);
        lemma_token_bounds(s, jl.1);
    }
    if tok == kw_mesh() {
        lemma_mesh_loop_bounds(s, i1, m.file_directory, mesh_st_new_s());
    }
}

/// The whole stream: top-level words handled until the end of input.
pub open spec fn run_top_s(s: Seq<u8>, i: int, m: ModelV) -> ModelV
    decreases s.len() - i,
        when 0 <= i <= s.len()
{
    let tok = token_at(s, i);
    let j = after_token(s, i);
    if tok.len() == 0 {
        m
    } else {
        proof {
            lemma_token_bounds(s, i);
            lemma_top_handle_bounds(s, j, tok, m);
        }
        let nx = top_handle_s(s, j, tok, m);
        run_top_s(s, nx.1, nx.0)
    }
}

/// A full load: the joints and meshes are cleared, then the stream is read.
pub open spec fn load_s(m: ModelV, s: Seq<u8>) -> ModelV {
    run_top_s(s, 0, ModelV { joints: Seq::empty(), meshes: Seq::empty(), ..m })
}

pub fn joint_entry_e(s: &[u8], i: usize, j: Joint) -> (r: (Joint, usize))
    requires
        i <= s@.len(),
    ensures
        r.0@ == joint_entry_s(s@, i as int, j@).0,
        r.1 as int == joint_entry_s(s@, i as int, j@).1,
        i <= r.1 <= s@.len(),
{
    let ghost j0 = j@;
    let mut j = j;
    let (name, i1) = next_token(s, i);
    j.name = name;
    let (pv, i2) = read_i32_e(s, i1, j.parent);
    j.parent = pv;
    let (_b1, i3) = next_token(s, i2);
    let (px, i4) = read_fx_e(s, i3, j.position.x);
    j.position.x = px;
    let (py, i5) = read_fx_e(s, i4, j.position.y);
    j.position.y = py;
    let (pz, i6) = read_fx_e(s, i5, j.position.z);
    j.position.z = pz;
    let (_b2, i7) = next_token(s, i6);
    let (_b3, i8) = next_token(s, i7);
    let (ox, i9) = read_fx_e(s, i8, j.orientation.x);
    j.orientation.x = ox;
    let (oy, i10) = read_fx_e(s, i9, j.orientation.y);
    j.orientation.y = oy;
    let (oz, i11) = read_fx_e(s, i10, j.orientation.z);
    j.orientation.z = oz;
    let (_b4, i12) = next_token(s, i11);
    j.orientation.compute_w();
    let i13 = skip_line_e(s, i12);
    proof {
        assert(j@ =~~= joint_entry_s(s@, i as int, j0).0);
    }
    (j, i13)
}

pub fn joints_loop_e(s: &[u8], i: usize, j: Joint, out: &mut Vec<Joint>, n: i32) -> (r: usize)
    requires
        i <= s@.len(),
    ensures
        final (out)@.map_values(|x: Joint| x@) == joints_loop_s(
            s@,
            i as int,
            j@,
            old(out)@.map_values(|x: Joint| x@),
            n as int,
        ).0,
        r as int == joints_loop_s(
            s@,
            i as int,
            j@,
            old(out)@.map_values(|x: Joint| x@),
            n as int,
        ).1,
        i <= r <= s@.len(),
    decreases n,
{
    if n <= 0 {
        return i;
    }
    let (j2, i2) = joint_entry_e(s, i, j);
    let ghost before = out@.map_values(|x: Joint| x@);
    out.push(j2.duplicate());
    proof {
        assert(out@.map_values(|x: Joint| x@) =~= before.push(j2@));
    }
    joints_loop_e(s, i2, j2, out, n - 1)
}

pub fn vert_entry_e(s: &[u8], i: usize, st: MeshSt) -> (r: (MeshSt, usize))
    requires
        i <= s@.len(),
    ensures
        r.0@ == vert_entry_s(s@, i as int, st@).0,
        r.1 as int == vert_entry_s(s@, i as int, st@).1,
        i <= r.1 <= s@.len(),
{
    let ghost st0 = st@;
    let mut st = st;
    let (_a, i1) = next_token(s, i);
    let (_b, i2) = next_token(s, i1);
    let (_c, i3) = next_token(s, i2);
    let (tx, i4) = read_fx_e(s, i3, st.vert.tex_coord.x);
    st.vert.tex_coord.x = tx;
    let (ty, i5) = read_fx_e(s, i4, st.vert.tex_coord.y);
    st.vert.tex_coord.y = ty;
    let (_d, i6) = next_token(s, i5);
    let (sw, i7) = read_i32_e(s, i6, st.vert.start_weight);
    st.vert.start_weight = sw;
    let (wc, i8) = read_i32_e(s, i7, st.vert.weight_count);
    st.vert.weight_count = wc;
    let i9 = skip_line_e(s, i8);
    st.mesh.verts.push(st.vert);
    st.mesh.tex_coords.push(st.vert.tex_coord);
    proof {
        assert(st@ =~~= vert_entry_s(s@, i as int, st0).0);
    }
    (st, i9)
}

pub fn verts_loop_e(s: &[u8], i: usize, st: MeshSt, n: i32) -> (r: (MeshSt, usize))
    requires
        i <= s@.len(),
    ensures
        r.0@ == verts_loop_s(s@, i as int, st@, n as int).0,
        r.1 as int == verts_loop_s(s@, i as int, st@, n as int).1,
        i <= r.1 <= s@.len(),
    decreases n,
{
    if n <= 0 {
        return (st, i);
    }
    let (st2, i2) = vert_entry_e(s, i, st);
    verts_loop_e(s, i2, st2, n - 1)
}

pub fn tri_entry_e(s: &[u8], i: usize, st: MeshSt) -> (r: (MeshSt, usize))
    requires
        i <= s@.len(),
    ensures
        r.0@ == tri_entry_s(s@, i as int, st@).0,
        r.1 as int == tri_entry_s(s@, i as int, st@).1,
        i <= r.1 <= s@.len(),
{
    let ghost st0 = st@;
    let mut st = st;
    let (_a, i1) = next_token(s, i);
    let (_b, i2) = next_token(s, i1);
    let (av, i3) = read_i32_e(s, i2, st.tri.i0);
    st.tri.i0 = av;
    let (bv, i4) = read_i32_e(s, i3, st.tri.i1);
    st.tri.i1 = bv;
    let (cv, i5) = read_i32_e(s, i4, st.tri.i2);
    st.tri.i2 = cv;
    let i6 = skip_line_e(s, i5);
    st.mesh.triangles.push(st.tri);
    st.mesh.indices.push(u32_of_i32_e(st.tri.i0));
    st.mesh.indices.push(u32_of_i32_e(st.tri.i1));
    st.mesh.indices.push(u32_of_i32_e(st.tri.i2));
    proof {
        assert(st@ =~~= tri_entry_s(s@, i as int, st0).0);
    }
    (st, i6)
}

pub fn tris_loop_e(s: &[u8], i: usize, st: MeshSt, n: i32) -> (r: (MeshSt, usize))
    requires
        i <= s@.len(),
    ensures
        r.0@ == tris_loop_s(s@, i as int, st@, n as int).0,
        r.1 as int == tris_loop_s(s@, i as int, st@, n as int).1,
        i <= r.1 <= s@.len(),
    decreases n,
{
    if n <= 0 {
        return (st, i);
    }
    let (st2, i2) = tri_entry_e(s, i, st);
    tris_loop_e(s, i2, st2, n - 1)
}

pub fn weight_entry_e(s: &[u8], i: usize, st: MeshSt) -> (r: (MeshSt, usize))
    requires
        i <= s@.len(),
    ensures
        r.0@ == weight_entry_s(s@, i as int, st@).0,
        r.1 as int == weight_entry_s(s@, i as int, st@).1,
        i <= r.1 <= s@.len(),
{
    let ghost st0 = st@;
    let mut st = st;
    let (_a, i1) = next_token(s, i);
    let (_b, i2) = next_token(s, i1);
    let (jid, i3) = read_i32_e(s, i2, st.weight.joint_id);
    st.weight.joint_id = jid;
    let (bs, i4) = read_fx_e(s, i3, st.weight.bias);
    st.weight.bias = bs;
    let (_c, i5) = next_token(s, i4);
    let (wx, i6) = read_fx_e(s, i5, st.weight.position.x);
    st.weight.position.x = wx;
    let (wy, i7) = read_fx_e(s, i6, st.weight.position.y);
    st.weight.position.y = wy;
    let (wz, i8) = read_fx_e(s, i7, st.weight.position.z);
    st.weight.position.z = wz;
    let (_d, i9) = next_token(s, i8);
    let i10 = skip_line_e(s, i9);
    st.mesh.weights.push(st.weight);
    proof {
        assert(st@ =~~= weight_entry_s(s@, i as int, st0).0);
    }
    (st, i10)
}

pub fn weights_loop_e(s: &[u8], i: usize, st: MeshSt, n: i32) -> (r: (MeshSt, usize))
    requires
        i <= s@.len(),
    ensures
        r.0@ == weights_loop_s(s@, i as int, st@, n as int).0,
        r.1 as int == weights_loop_s(s@, i as int, st@, n as int).1,
        i <= r.1 <= s@.len(),
    decreases n,
{
    if n <= 0 {
        return (st, i);
    }
    let (st2, i2) = weight_entry_e(s, i, st);
    weights_loop_e(s, i2, st2, n - 1)
}

pub fn mesh_handle_e(s: &[u8], i: usize, tok: &Vec<u8>, dir: &Vec<u8>, st: MeshSt) -> (r: (
    MeshSt,
    usize,
))
    requires
        i <= s@.len(),
    ensures
        r.0@ == mesh_handle_s(s@, i as int, tok@, dir@, st@).0,
        r.1 as int == mesh_handle_s(s@, i as int, tok@, dir@, st@).1,
        i <= r.1 <= s@.len(),
{
    let mut st = st;
    if is_kw_shader(tok) {
        let (sh, i1) = next_token(s, i);
        st.mesh.texture = texture_of_e(dir, &sh);
        let i2 = skip_line_e(s, i1);
        (st, i2)
    } else if is_kw_numverts(tok) {
        let (nv, i1) = read_i32_e(s, i, st.num_verts);
        st.num_verts = nv;
        let i2 = skip_line_e(s, i1);
        verts_loop_e(s, i2, st, nv)
    } else if is_kw_numtris(tok) {
        let (nt, i1) = read_i32_e(s, i, st.num_tris);
        st.num_tris = nt;
        let i2 = skip_line_e(s, i1);
        tris_loop_e(s, i2, st, nt)
    } else if is_kw_numweights(tok) {
        let (nw, i1) = read_i32_e(s, i, st.num_weights);
        st.num_weights = nw;
        let i2 = skip_line_e(s, i1);
        weights_loop_e(s, i2, st, nw)
    } else {
        let i2 = skip_line_e(s, i);
        (st, i2)
    }
}

pub fn mesh_loop_e(s: &[u8], i: usize, dir: &Vec<u8>, st: MeshSt) -> (r: (MeshSt, usize))
    requires
        i <= s@.len(),
    ensures
        r.0@ == mesh_loop_s(s@, i as int, dir@, st@).0,
        r.1 as int == mesh_loop_s(s@, i as int, dir@, st@).1,
        i <= r.1 <= s@.len(),
    decreases s@.len() - i,
{
    let (tok, j) = next_token(s, i);
    proof {
        lemma_token_bounds(s@, i as int);
    }
    if tok.len() == 0 || is_kw_close_brace(&tok) {
        return (st, j);
    }
    let (st2, k) = mesh_handle_e(s, j, &tok, dir, st);
    mesh_loop_e(s, k, dir, st2)
}

/// Reads top-level keywords into the model until the end of input.
pub fn run_top_e(s: &[u8], i: usize, m: &mut Model)
    requires
        i <= s@.len(),
    ensures
        final (m)@ == run_top_s(s@, i as int, old(m)@),
    decreases s@.len() - i,
{
    let ghost m0 = m@;
    let (tok, j) = next_token(s, i);
    proof {
        lemma_token_bounds(s@, i as int);
    }
    if tok.len() == 0 {
        return ;
    }
    let k: usize = if is_kw_md5version(&tok) {
        let (v, i2) = read_i32_e(s, j, m.version);
        m.version = v;
        i2
    } else if is_kw_commandline(&tok) {
        skip_line_e(s, j)
    } else if is_kw_num_joints(&tok) {
        let (v, i2) = read_i32_e(s, j, m.num_joints);
        m.num_joints = v;
        m.joints = Vec::new();
        i2
    } else if is_kw_num_meshes(&tok) {
        let (v, i2) = read_i32_e(s, j, m.num_meshes);
        m.num_meshes = v;
        m.meshes = Vec::new();
        i2
    } else if is_kw_joints(&tok) {
        let (_b, i1) = next_token(s, j);
        let nj = m.num_joints;
        let i2 = joints_loop_e(s, i1, Joint::new(), &mut m.joints, nj);
        let (_c, i3) = next_token(s, i2);
        i3
    } else if is_kw_mesh(&tok) {
        let (_b, i1) = next_token(s, j);
        let st0 = MeshSt::new();
        let (st, i2) = mesh_loop_e(s, i1, &m.file_directory, st0);
        let mut mesh = st.mesh;
        prepare_mesh(&m.joints, &mut mesh);
        m.meshes.push(mesh);
        i2
    } else {
        skip_line_e(s, j)
    };
    proof {
        assert(m@ =~~= top_handle_s(s@, j as int, tok@, m0).0);
        assert(k as int == top_handle_s(s@, j as int, tok@, m0).1);
        lemma_top_handle_bounds(s@, j as int, tok@, m0);
    }
    run_top_e(s, k, m);
}

} // verus!
