//! Adapter to the external vector-geometry library (the `lyon` crate):
//! paths are assembled one command at a time through lyon's path builder,
//! and a finished path is tessellated into a triangle mesh.
use vstd::prelude::*;

use lyon::tessellation::{BuffersBuilder, FillOptions, FillTessellator, FillVertex, VertexBuffers};

use crate::widget::PathCmd;

verus! {

#[verifier::external_type_specification]
#[verifier::external_body]
pub struct ExPath(lyon::path::Path);

/// A path under construction, held through lyon's default path builder
/// (whose type Verus cannot declare: it is generic over a builder trait).
#[verifier::external_body]
pub struct PathAssembler {
    inner: lyon::path::path::Builder,
}

/// The path commands recorded in an assembler so far.
pub uninterp spec fn builder_cmds(b: &PathAssembler) -> Seq<PathCmd>;

/// The path commands a finished path holds. Paths reach this crate only
/// through the assembler below, with integer coordinates, so the recorded
/// commands determine the path's geometry exactly.
pub uninterp spec fn path_cmds(p: &lyon::path::Path) -> Seq<PathCmd>;

/// The triangle mesh lyon's fill tessellator produces for a path, with the
/// default fill options: vertex coordinates truncated to integers, and
/// triangle indices. A pure function of the path alone.
pub uninterp spec fn mesh_of(cmds: Seq<PathCmd>) -> (Seq<(i32, i32)>, Seq<u16>);

/// Whether a command sequence leaves a sub-path open: lyon's builder
/// panics when a sub-path is begun while one is open, extended while none
/// is, or built while one is open.
pub open spec fn subpath_open(cmds: Seq<PathCmd>) -> bool
    decreases cmds.len(),
{
    if cmds.len() == 0 {
        false
    } else {
        match cmds.last() {
            PathCmd::Begin { .. } => true,
            PathCmd::LineTo { .. } => subpath_open(cmds.drop_last()),
            PathCmd::Close => false,
        }
    }
}

/// Whether every command in the sequence was legal when it was recorded.
pub open spec fn cmds_valid(cmds: Seq<PathCmd>) -> bool
    decreases cmds.len(),
{
    if cmds.len() == 0 {
        true
    } else {
        cmds_valid(cmds.drop_last()) && match cmds.last() {
            PathCmd::Begin { .. } => !subpath_open(cmds.drop_last()),
            PathCmd::LineTo { .. } => subpath_open(cmds.drop_last()),
            PathCmd::Close => subpath_open(cmds.drop_last()),
        }
    }
}

pub proof fn lemma_cmds_valid_take(s: Seq<PathCmd>, j: int)
    requires
        cmds_valid(s),
        0 <= j <= s.len(),
    ensures
        cmds_valid(s.take(j)),
    decreases s.len() - j,
{
    if j == s.len() {
        assert(s.take(j) =~= s);
    } else {
        lemma_cmds_valid_take(s, j + 1);
        assert(s.take(j + 1).drop_last() =~= s.take(j));
    }
}

/// A generated path is always a legal, closed command sequence: one Begin,
/// a run of LineTo, one Close.
pub proof fn lemma_five_cmds_valid(c0: PathCmd, c1: PathCmd, c2: PathCmd, c3: PathCmd, c4: PathCmd)
    requires
        c0 is Begin,
        c1 is LineTo,
        c2 is LineTo,
        c3 is LineTo,
        c4 is Close,
    ensures
        cmds_valid(seq![c0, c1, c2, c3, c4]),
        !subpath_open(seq![c0, c1, c2, c3, c4]),
{
    let s = seq![c0, c1, c2, c3, c4];
    assert(s.drop_last() =~= seq![c0, c1, c2, c3]);
    assert(seq![c0, c1, c2, c3].drop_last() =~= seq![c0, c1, c2]);
    assert(seq![c0, c1, c2].drop_last() =~= seq![c0, c1]);
    assert(seq![c0, c1].drop_last() =~= seq![c0]);
    assert(seq![c0].drop_last() =~= Seq::<PathCmd>::empty());
    assert(!subpath_open(Seq::<PathCmd>::empty()));
    assert(cmds_valid(Seq::<PathCmd>::empty()));
    assert(subpath_open(seq![c0]));
    assert(subpath_open(seq![c0, c1]));
    assert(subpath_open(seq![c0, c1, c2]));
    assert(subpath_open(seq![c0, c1, c2, c3]));
    assert(cmds_valid(seq![c0]));
    assert(cmds_valid(seq![c0, c1]));
    assert(cmds_valid(seq![c0, c1, c2]));
    assert(cmds_valid(seq![c0, c1, c2, c3]));
}

/// Every path a `PathGen` yields is a legal, closed command sequence.
pub proof fn lemma_path_spec_wf(g: crate::widget::PathGen, w: i64, h: i64)
    ensures
        cmds_valid(crate::widget::path_spec(g, w, h)),
        !subpath_open(crate::widget::path_spec(g, w, h)),
{
    let s = crate::widget::path_spec(g, w, h);
    match g {
        crate::widget::PathGen::Rect => {
            lemma_five_cmds_valid(s[0], s[1], s[2], s[3], s[4]);
            assert(s =~= seq![s[0], s[1], s[2], s[3], s[4]]);
        },
        crate::widget::PathGen::Diamond => {
            lemma_five_cmds_valid(s[0], s[1], s[2], s[3], s[4]);
            assert(s =~= seq![s[0], s[1], s[2], s[3], s[4]]);
        },
    }
}

/// Relies on lyon::path::Path::builder: a fresh builder has recorded
/// nothing.
#[verifier::external_body]
pub fn path_builder_new() -> (b: PathAssembler)
    ensures
        builder_cmds(&b) == Seq::<PathCmd>::empty(),
{
    PathAssembler { inner: lyon::path::Path::builder() }
}

/// Relies on lyon's NoAttributes::begin: starts a sub-path at the point.
#[verifier::external_body]
pub fn builder_begin(b: &mut PathAssembler, x: i64, y: i64)
    requires
        !subpath_open(builder_cmds(&*old(b))),
    ensures
        builder_cmds(&*final(b)) == builder_cmds(&*old(b)).push(PathCmd::Begin { x, y }),
{
    b.inner.begin(lyon::math::point(x as _, y as _));
}

/// Relies on lyon's NoAttributes::line_to: adds a line segment to the open
/// sub-path.
#[verifier::external_body]
pub fn builder_line_to(b: &mut PathAssembler, x: i64, y: i64)
    requires
        subpath_open(builder_cmds(&*old(b))),
    ensures
        builder_cmds(&*final(b)) == builder_cmds(&*old(b)).push(PathCmd::LineTo { x, y }),
{
    b.inner.line_to(lyon::math::point(x as _, y as _));
}

/// Relies on lyon's NoAttributes::close: closes the open sub-path.
#[verifier::external_body]
pub fn builder_close(b: &mut PathAssembler)
    requires
        subpath_open(builder_cmds(&*old(b))),
    ensures
        builder_cmds(&*final(b)) == builder_cmds(&*old(b)).push(PathCmd::Close),
{
    b.inner.close();
}

/// Relies on lyon's NoAttributes::build: a finished path holds exactly the
/// recorded commands.
#[verifier::external_body]
pub fn builder_build(b: PathAssembler) -> (p: lyon::path::Path)
    requires
        !subpath_open(builder_cmds(&b)),
    ensures
        path_cmds(&p) == builder_cmds(&b),
{
    b.inner.build()
}

/// A triangle mesh: integer vertex coordinates and triangle indices.
#[derive(Debug, PartialEq, Eq)]
pub struct Mesh {
    pub vertices: Vec<(i32, i32)>,
    pub indices: Vec<u16>,
}

/// A well-formed indexed triangle list: whole triangles, every index below
/// the vertex count.
pub open spec fn mesh_wf(vertices: Seq<(i32, i32)>, indices: Seq<u16>) -> bool {
    &&& indices.len() % 3 == 0
    &&& forall|i: int| 0 <= i < indices.len() ==> (#[trigger] indices[i]) < vertices.len()
}

/// Relies on lyon::tessellation::FillTessellator::tessellate_path with the
/// default fill options: fills the path into triangles, deterministically
/// in the path alone; the vertex constructor only truncates coordinates.
/// The buffers builder pushes indices three at a time, each the id of a
/// vertex already in the buffer, and on a tessellation error truncates
/// both buffers back to where it started, so the result is always a
/// well-formed triangle list.
#[verifier::external_body]
pub fn tessellate_fill(p: &lyon::path::Path) -> (m: Mesh)
    ensures
        m.vertices@ == mesh_of(path_cmds(p)).0,
        m.indices@ == mesh_of(path_cmds(p)).1,
        mesh_wf(m.vertices@, m.indices@),
{
    let mut buffers: VertexBuffers<(i32, i32), u16> = VertexBuffers::new();
    let mut tess = FillTessellator::new();
    let mut builder = BuffersBuilder::new(&mut buffers, |v: FillVertex| {
        let pt = v.position();
        (pt.x as i32, pt.y as i32)
    });
    let _ = tess.tessellate_path(p.as_slice(), &FillOptions::default(), &mut builder);
    drop(builder);
    Mesh { vertices: buffers.vertices, indices: buffers.indices }
}

/// Assembles a legal command sequence into a lyon path.
#[verifier::loop_isolation(false)]
pub fn build_path(cmds: &Vec<PathCmd>) -> (p: lyon::path::Path)
    requires
        cmds_valid(cmds@),
        !subpath_open(cmds@),
    ensures
        path_cmds(&p) == cmds@,
{
    let mut b = path_builder_new();
    let mut i: usize = 0;
    while i < cmds.len()
        invariant
            0 <= i <= cmds@.len(),
            builder_cmds(&b) == cmds@.take(i as int),
        decreases cmds@.len() - i,
    {
        proof {
            lemma_cmds_valid_take(cmds@, i as int + 1);
            assert(cmds@.take(i as int + 1).drop_last() =~= cmds@.take(i as int));
            assert(cmds@.take(i as int + 1).last() == cmds@[i as int]);
        }
        match cmds[i] {
            PathCmd::Begin { x, y } => builder_begin(&mut b, x, y),
            PathCmd::LineTo { x, y } => builder_line_to(&mut b, x, y),
            PathCmd::Close => builder_close(&mut b),
        }
        i = i + 1;
        proof {
            assert(builder_cmds(&b) =~= cmds@.take(i as int));
        }
    }
    proof {
        assert(cmds@.take(i as int) =~= cmds@);
    }
    builder_build(b)
}

/// Copies a mesh element by element.
#[verifier::loop_isolation(false)]
pub fn copy_mesh(m: &Mesh) -> (r: Mesh)
    ensures
        r.vertices@ == m.vertices@,
        r.indices@ == m.indices@,
{
    let mut vertices: Vec<(i32, i32)> = Vec::new();
    let mut i: usize = 0;
    while i < m.vertices.len()
        invariant
            0 <= i <= m.vertices@.len(),
            vertices@ == m.vertices@.take(i as int),
        decreases m.vertices@.len() - i,
    {
        let v = m.vertices[i];
        vertices.push(v);
        i = i + 1;
        proof {
            assert(vertices@ =~= m.vertices@.take(i as int));
        }
    }
    let mut indices: Vec<u16> = Vec::new();
    let mut j: usize = 0;
    while j < m.indices.len()
        invariant
            0 <= j <= m.indices@.len(),
            indices@ == m.indices@.take(j as int),
        decreases m.indices@.len() - j,
    {
        let v = m.indices[j];
        indices.push(v);
        j = j + 1;
        proof {
            assert(indices@ =~= m.indices@.take(j as int));
        }
    }
    proof {
        assert(vertices@ =~= m.vertices@);
        assert(indices@ =~= m.indices@);
    }
    Mesh { vertices, indices }
}

} // verus!
