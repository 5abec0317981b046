//! The layout stage: hands the materialized `LayoutTree` to the external
//! box-layout engine once per pass (styles in, geometry out), then pairs
//! every node's render objects with its resolved absolute position and
//! size. The output order is the paint order: a node's own render objects
//! come before its descendants', and siblings keep declaration order.
use vstd::prelude::*;

use crate::evaluate::{forest_view, tree_view, LayoutTree, LayoutTreeSpec};
use crate::solver::{
    solver_add_leaf, solver_add_node, solver_compute, solver_fresh, solver_len, solver_new,
    solver_rect, solver_rects, solver_nodes, stretch_solution, LayoutSolver, SolverEntry,
};
use crate::widget::{Dim, Direction, MeasureSpec, RenderObject, RenderObjectView, Style};

verus! {

/// Positions and offsets are clamped into this symmetric range before any
/// further arithmetic, so coordinate sums cannot overflow.
pub const MAX_COORD: i64 = 0x100_0000_0000;

/// Largest accepted style dimension, and the bound resolved widths and
/// heights are clamped to.
pub const MAX_DIM: u32 = 0x100_0000;

/// A render object paired with its resolved absolute position and size.
#[derive(Debug, PartialEq, Eq)]
pub struct PositionedRenderObject {
    pub render_object: RenderObject,
    pub x: i64,
    pub y: i64,
    pub width: i64,
    pub height: i64,
}

/// Mathematical image of a `PositionedRenderObject`.
#[verifier::ext_equal]
pub struct PositionedRenderObjectView {
    pub render_object: RenderObjectView,
    pub x: i64,
    pub y: i64,
    pub width: i64,
    pub height: i64,
}

impl View for PositionedRenderObject {
    type V = PositionedRenderObjectView;

    open spec fn view(&self) -> PositionedRenderObjectView {
        PositionedRenderObjectView {
            render_object: self.render_object@,
            x: self.x,
            y: self.y,
            width: self.width,
            height: self.height,
        }
    }
}

pub open spec fn positioned_view(s: Seq<PositionedRenderObject>) -> Seq<
    PositionedRenderObjectView,
> {
    s.map_values(|p: PositionedRenderObject| p@)
}

/// Why a frame's layout was aborted.
#[derive(Clone, Copy, PartialEq, Eq, Structural, Debug)]
pub enum LayoutError {
    /// A style value the layout engine cannot satisfy: a fixed dimension or
    /// font size above `MAX_DIM`.
    MalformedStyle,
}

pub open spec fn dim_valid(d: Dim) -> bool {
    match d {
        Dim::Auto => true,
        Dim::Points(p) => p <= MAX_DIM,
    }
}

pub open spec fn style_valid(s: Style) -> bool {
    dim_valid(s.width) && dim_valid(s.height)
}

pub open spec fn measure_valid(m: Option<MeasureSpec>) -> bool {
    match m {
        Some(ms) => ms.font_size <= MAX_DIM,
        None => true,
    }
}

/// A tree the layout engine is given: every style and measurement in it is
/// within bounds.
pub open spec fn tree_valid(t: LayoutTreeSpec) -> bool
    decreases t, 1int,
{
    style_valid(t.layout.style) && measure_valid(t.layout.measure_function) && forest_valid(
        t.children,
    )
}

pub open spec fn forest_valid(f: Seq<LayoutTreeSpec>) -> bool
    decreases f, 0int,
{
    if f.len() == 0 {
        true
    } else {
        forest_valid(f.drop_last()) && tree_valid(f.last())
    }
}

/// Number of nodes in a subtree; a subtree's entries occupy a contiguous
/// index range of this length, its own entry last.
pub open spec fn tree_size(t: LayoutTreeSpec) -> nat
    decreases t, 1int,
{
    forest_size(t.children) + 1
}

pub open spec fn forest_size(f: Seq<LayoutTreeSpec>) -> nat
    decreases f, 0int,
{
    if f.len() == 0 {
        0nat
    } else {
        forest_size(f.drop_last()) + tree_size(f.last())
    }
}

pub open spec fn style_row(s: Style) -> bool {
    s.direction is Row
}

pub open spec fn dim_opt(d: Dim) -> Option<u32> {
    match d {
        Dim::Auto => None,
        Dim::Points(p) => Some(p),
    }
}

/// The engine entry a node maps to. A measurement applies to leaf content
/// only: it is dropped on nodes that have children.
pub open spec fn entry_of(t: LayoutTreeSpec, base: int) -> SolverEntry {
    (
        style_row(t.layout.style),
        dim_opt(t.layout.style.width),
        dim_opt(t.layout.style.height),
        if t.children.len() == 0 {
            t.layout.measure_function
        } else {
            None
        },
        child_roots(t.children, base),
    )
}

/// Indices of the root entries of a forest laid out from `base` on.
pub open spec fn child_roots(f: Seq<LayoutTreeSpec>, base: int) -> Seq<usize>
    decreases f, 0int,
{
    if f.len() == 0 {
        Seq::empty()
    } else {
        child_roots(f.drop_last(), base).push(((base + forest_size(f)) - 1) as usize)
    }
}

/// The engine entries of a subtree laid out from `base` on: children's
/// entries first (each subtree contiguous), the node's own entry last.
pub open spec fn encode_tree(t: LayoutTreeSpec, base: int) -> Seq<SolverEntry>
    decreases t, 1int,
{
    encode_forest(t.children, base).push(entry_of(t, base))
}

pub open spec fn encode_forest(f: Seq<LayoutTreeSpec>, base: int) -> Seq<SolverEntry>
    decreases f, 0int,
{
    if f.len() == 0 {
        Seq::empty()
    } else {
        encode_forest(f.drop_last(), base) + encode_tree(
            f.last(),
            base + forest_size(f.drop_last()),
        )
    }
}

/// All-zero geometry for `n` freshly built nodes.
pub open spec fn zero_rects(n: nat) -> Seq<(i64, i64, i64, i64)> {
    Seq::new(n, |i: int| (0i64, 0i64, 0i64, 0i64))
}

/// Clamp a coordinate into the symmetric safe range.
pub open spec fn clamp_coord(v: int) -> i64 {
    if v < -MAX_COORD {
        (-MAX_COORD) as i64
    } else if v > MAX_COORD {
        MAX_COORD as i64
    } else {
        v as i64
    }
}

/// An absolute position: the parent's absolute position plus the node's
/// relative one, each clamped.
pub open spec fn abs_coord(off: i64, rel: i64) -> i64 {
    clamp_coord(off + clamp_coord(rel as int) as int)
}

/// Clamp a resolved dimension to `[0, MAX_DIM]`.
pub open spec fn clamp_dim(v: i64) -> i64 {
    if v < 0 {
        0i64
    } else if v > MAX_DIM as i64 {
        MAX_DIM as i64
    } else {
        v
    }
}

/// The positioned render objects of a subtree whose entries start at
/// `base`, painted under an absolute parent offset `(ox, oy)`: the node's
/// own render objects first, then its children's, in declaration order.
pub open spec fn emit_tree_spec(
    t: LayoutTreeSpec,
    base: int,
    ox: i64,
    oy: i64,
    rects: Seq<(i64, i64, i64, i64)>,
) -> Seq<PositionedRenderObjectView>
    decreases t, 1int,
{
    let rect = rects[base + tree_size(t) - 1];
    let ax = abs_coord(ox, rect.0);
    let ay = abs_coord(oy, rect.1);
    let w = clamp_dim(rect.2);
    let h = clamp_dim(rect.3);
    t.layout.render_objects.map_values(
        |ro: RenderObjectView|
            PositionedRenderObjectView { render_object: ro, x: ax, y: ay, width: w, height: h },
    ) + emit_forest_spec(t.children, base, ax, ay, rects)
}

pub open spec fn emit_forest_spec(
    f: Seq<LayoutTreeSpec>,
    base: int,
    ox: i64,
    oy: i64,
    rects: Seq<(i64, i64, i64, i64)>,
) -> Seq<PositionedRenderObjectView>
    decreases f, 0int,
{
    if f.len() == 0 {
        Seq::empty()
    } else {
        emit_forest_spec(f.drop_last(), base, ox, oy, rects) + emit_tree_spec(
            f.last(),
            base + forest_size(f.drop_last()),
            ox,
            oy,
            rects,
        )
    }
}

/// Everything the layout stage resolves for a valid tree: the engine's
/// solution for the whole tree at the given available space, paired with
/// the tree's render objects in paint order.
pub open spec fn frame_spec(t: LayoutTreeSpec, aw: Option<u32>, ah: Option<u32>) -> Seq<
    PositionedRenderObjectView,
> {
    emit_tree_spec(t, 0, 0, 0, stretch_solution(encode_tree(t, 0), tree_size(t) - 1, aw, ah))
}

pub proof fn lemma_forest_take_step(f: Seq<LayoutTreeSpec>, base: int, i: int)
    requires
        0 <= i < f.len(),
    ensures
        forest_size(f.take(i + 1)) == forest_size(f.take(i)) + tree_size(f[i]),
        forest_valid(f.take(i + 1)) == (forest_valid(f.take(i)) && tree_valid(f[i])),
        encode_forest(f.take(i + 1), base) == encode_forest(f.take(i), base) + encode_tree(
            f[i],
            base + forest_size(f.take(i)),
        ),
        child_roots(f.take(i + 1), base) == child_roots(f.take(i), base).push(
            ((base + forest_size(f.take(i + 1))) - 1) as usize,
        ),
{
    assert(f.take(i + 1).drop_last() =~= f.take(i));
    assert(f.take(i + 1).last() == f[i]);
}

pub proof fn lemma_emit_forest_take_step(
    f: Seq<LayoutTreeSpec>,
    base: int,
    ox: i64,
    oy: i64,
    rects: Seq<(i64, i64, i64, i64)>,
    i: int,
)
    requires
        0 <= i < f.len(),
    ensures
        emit_forest_spec(f.take(i + 1), base, ox, oy, rects) == emit_forest_spec(
            f.take(i),
            base,
            ox,
            oy,
            rects,
        ) + emit_tree_spec(f[i], base + forest_size(f.take(i)), ox, oy, rects),
{
    assert(f.take(i + 1).drop_last() =~= f.take(i));
    assert(f.take(i + 1).last() == f[i]);
}

pub proof fn lemma_take_all<A>(s: Seq<A>)
    ensures
        s.take(s.len() as int) =~= s,
{
}

/// Number of nodes in a subtree.
#[verifier::loop_isolation(false)]
pub fn subtree_size(t: &LayoutTree) -> (n: usize)
    requires
        tree_size(tree_view(*t)) <= usize::MAX,
    ensures
        n == tree_size(tree_view(*t)),
    decreases *t,
{
    let ghost fv = forest_view(t.children@);
    proof {
        crate::evaluate::lemma_forest_view(t.children@);
    }
    let mut total: usize = 0;
    let mut i: usize = 0;
    while i < t.children.len()
        invariant
            0 <= i <= t.children@.len(),
            total == forest_size(fv.take(i as int)),
            total <= usize::MAX - 1,
        decreases t.children@.len() - i,
    {
        proof {
            lemma_forest_take_step(fv, 0, i as int);
            lemma_forest_size_prefix_bound(fv, i as int + 1);
        }
        let sub = subtree_size(&t.children[i]);
        total = total + sub;
        i = i + 1;
    }
    proof {
        lemma_take_all(fv);
    }
    total + 1
}

/// A prefix of a forest never holds more nodes than the whole forest.
pub proof fn lemma_forest_size_prefix_bound(f: Seq<LayoutTreeSpec>, i: int)
    requires
        0 <= i <= f.len(),
    ensures
        forest_size(f.take(i)) <= forest_size(f),
    decreases f.len() - i,
{
    if i < f.len() {
        lemma_forest_size_prefix_bound(f, i + 1);
        lemma_forest_take_step(f, 0, i);
    } else {
        lemma_take_all(f);
    }
}

/// Every member of a valid forest is itself valid.
pub proof fn lemma_forest_valid_index(f: Seq<LayoutTreeSpec>, i: int)
    requires
        0 <= i < f.len(),
        forest_valid(f),
    ensures
        tree_valid(f[i]),
    decreases f.len(),
{
    if i == f.len() - 1 {
    } else {
        lemma_forest_valid_index(f.drop_last(), i);
        assert(f.drop_last()[i] == f[i]);
    }
}

/// Checks that every style and measurement in the tree is within bounds.
#[verifier::loop_isolation(false)]
pub fn validate_tree(t: &LayoutTree) -> (ok: bool)
    ensures
        ok == tree_valid(tree_view(*t)),
    decreases *t,
{
    let ghost fv = forest_view(t.children@);
    proof {
        crate::evaluate::lemma_forest_view(t.children@);
    }
    let style_ok = match t.layout.style.width {
        Dim::Points(p) => p <= MAX_DIM,
        Dim::Auto => true,
    } && match t.layout.style.height {
        Dim::Points(p) => p <= MAX_DIM,
        Dim::Auto => true,
    };
    let measure_ok = match t.layout.measure_function {
        Some(m) => m.font_size <= MAX_DIM,
        None => true,
    };
    if !style_ok || !measure_ok {
        return false;
    }
    let mut i: usize = 0;
    while i < t.children.len()
        invariant
            0 <= i <= t.children@.len(),
            forest_valid(fv.take(i as int)),
        decreases t.children@.len() - i,
    {
        proof {
            lemma_forest_take_step(fv, 0, i as int);
        }
        if !validate_tree(&t.children[i]) {
            proof {
                if forest_valid(fv) {
                    lemma_forest_valid_index(fv, i as int);
                }
            }
            return false;
        }
        i = i + 1;
    }
    proof {
        lemma_take_all(fv);
    }
    true
}

/// Builds the engine nodes for one subtree, children before parent, and
/// returns the index of the subtree's own entry.
#[verifier::loop_isolation(false)]
fn build_tree(t: &LayoutTree, s: &mut LayoutSolver) -> (root: usize)
    requires
        solver_nodes(&*old(s)).len() + tree_size(tree_view(*t)) <= usize::MAX,
        solver_rects(&*old(s)) == zero_rects(solver_nodes(&*old(s)).len() as nat),
    ensures
        solver_nodes(&*final(s)) == solver_nodes(&*old(s)) + encode_tree(
            tree_view(*t),
            solver_nodes(&*old(s)).len() as int,
        ),
        solver_rects(&*final(s)) == zero_rects(solver_nodes(&*final(s)).len() as nat),
        solver_fresh(&*final(s)) == solver_fresh(&*old(s)),
        root == solver_nodes(&*final(s)).len() - 1,
        solver_nodes(&*final(s)).len() == solver_nodes(&*old(s)).len() + tree_size(tree_view(*t)),
    decreases *t,
{
    let ghost base = solver_nodes(&*old(s)).len() as int;
    let ghost fv = forest_view(t.children@);
    proof {
        crate::evaluate::lemma_forest_view(t.children@);
        lemma_forest_size_prefix_bound(fv, 0);
    }
    let mut roots: Vec<usize> = Vec::new();
    let mut i: usize = 0;
    while i < t.children.len()
        invariant
            0 <= i <= t.children@.len(),
            solver_nodes(s).len() == base + forest_size(fv.take(i as int)),
            solver_nodes(s) == solver_nodes(&*old(s)) + encode_forest(fv.take(i as int), base),
            solver_rects(s) == zero_rects(solver_nodes(s).len() as nat),
            solver_fresh(s) == solver_fresh(&*old(s)),
            roots@ == child_roots(fv.take(i as int), base),
            forall|j: int| 0 <= j < roots@.len() ==> roots@[j] < solver_nodes(s).len(),
        decreases t.children@.len() - i,
    {
        proof {
            lemma_forest_take_step(fv, base, i as int);
            lemma_forest_size_prefix_bound(fv, i as int + 1);
            assert(forest_size(fv) + 1 == tree_size(tree_view(*t)));
        }
        let sub_root = build_tree(&t.children[i], s);
        roots.push(sub_root);
        i = i + 1;
        proof {
            assert(roots@ =~= child_roots(fv.take(i as int), base));
        }
    }
    proof {
        lemma_take_all(fv);
    }
    let row = match t.layout.style.direction {
        Direction::Row => true,
        Direction::Column => false,
    };
    let w = match t.layout.style.width {
        Dim::Auto => None,
        Dim::Points(p) => Some(p),
    };
    let h = match t.layout.style.height {
        Dim::Auto => None,
        Dim::Points(p) => Some(p),
    };
    let idx = if t.children.len() == 0 {
        match t.layout.measure_function {
            Some(m) => solver_add_leaf(s, row, w, h, m),
            None => solver_add_node(s, row, w, h, &roots),
        }
    } else {
        solver_add_node(s, row, w, h, &roots)
    };
    proof {
        assert(roots@ == child_roots(fv, base));
        assert(entry_of(tree_view(*t), base) == solver_nodes(s).last());
        assert(solver_nodes(s) =~= solver_nodes(&*old(s)) + encode_tree(tree_view(*t), base));
        assert(solver_rects(s) =~= zero_rects(solver_nodes(s).len() as nat));
    }
    idx
}

/// Reads back the engine's reported geometry for every node.
#[verifier::loop_isolation(false)]
fn read_rects(s: &LayoutSolver) -> (r: Vec<(i64, i64, i64, i64)>)
    requires
        solver_rects(s).len() == solver_nodes(s).len(),
    ensures
        r@ == solver_rects(s),
{
    let ghost n = solver_nodes(s).len();
    let count = solver_len(s);
    let mut r: Vec<(i64, i64, i64, i64)> = Vec::new();
    let mut i: usize = 0;
    while i < count
        invariant
            0 <= i <= n,
            r@ == solver_rects(s).take(i as int),
        decreases n - i,
    {
        let rect = solver_rect(s, i);
        r.push(rect);
        i = i + 1;
        proof {
            assert(r@ =~= solver_rects(s).take(i as int));
        }
    }
    proof {
        lemma_take_all(solver_rects(s));
    }
    r
}

/// Clamps a relative coordinate and adds it to a clamped offset.
pub fn clamped_add(off: i64, rel: i64) -> (r: i64)
    requires
        -MAX_COORD <= off <= MAX_COORD,
    ensures
        r == abs_coord(off, rel),
        -MAX_COORD <= r <= MAX_COORD,
{
    let c = if rel < -MAX_COORD {
        -MAX_COORD
    } else if rel > MAX_COORD {
        MAX_COORD
    } else {
        rel
    };
    let sum = off + c;
    if sum < -MAX_COORD {
        -MAX_COORD
    } else if sum > MAX_COORD {
        MAX_COORD
    } else {
        sum
    }
}

/// Clamps a resolved dimension to `[0, MAX_DIM]`.
pub fn clamped_dim(v: i64) -> (r: i64)
    ensures
        r == clamp_dim(v),
{
    if v < 0 {
        0
    } else if v > MAX_DIM as i64 {
        MAX_DIM as i64
    } else {
        v
    }
}

/// Emits the subtree's positioned render objects in paint order.
#[verifier::loop_isolation(false)]
fn emit_tree(
    t: LayoutTree,
    base: usize,
    ox: i64,
    oy: i64,
    rects: &Vec<(i64, i64, i64, i64)>,
    out: &mut Vec<PositionedRenderObject>,
)
    requires
        -MAX_COORD <= ox <= MAX_COORD,
        -MAX_COORD <= oy <= MAX_COORD,
        base + tree_size(tree_view(t)) <= rects@.len(),
    ensures
        positioned_view(final(out)@) == positioned_view(old(out)@) + emit_tree_spec(
            tree_view(t),
            base as int,
            ox,
            oy,
            rects@,
        ),
    decreases t,
{
    let ghost tv = tree_view(t);
    let LayoutTree { layout, mut children } = t;
    let ghost cs_all = children@;
    let ghost fv = forest_view(cs_all);
    proof {
        crate::evaluate::lemma_forest_view(cs_all);
        lemma_forest_size_prefix_bound(fv, 0);
        assert(tree_size(tv) == forest_size(fv) + 1);
        assert forall|i: int| 0 <= i < cs_all.len() implies decreases_to!(t => cs_all[i]) by {
            assert(decreases_to!(cs_all => cs_all[i]));
        }
    }
    let rlen = rects.len();
    let size = base + subtree_size_from_bound(&children);
    let rect = rects[size];
    let ax = clamped_add(ox, rect.0);
    let ay = clamped_add(oy, rect.1);
    let w = clamped_dim(rect.2);
    let h = clamped_dim(rect.3);
    let ghost ros0 = layout.render_objects@;
    let mut ros = layout.render_objects;
    let ghost out0 = positioned_view(old(out)@);
    let mut i: usize = 0;
    let ghost own = ros0.map_values(
        |ro: RenderObject|
            PositionedRenderObjectView {
                render_object: ro@,
                x: ax,
                y: ay,
                width: w,
                height: h,
            },
    );
    let n_ros = ros.len();
    while ros.len() > 0
        invariant
            ros0.len() == n_ros,
            i + ros@.len() == ros0.len(),
            ros@ == ros0.skip(i as int),
            positioned_view(out@) == out0 + own.take(i as int),
        decreases ros@.len(),
    {
        let ro = ros.remove(0);
        proof {
            assert(ros0.skip(i as int)[0] == ros0[i as int]);
            assert(ro == ros0[i as int]);
            assert(own[i as int] == PositionedRenderObjectView {
                render_object: ros0[i as int]@,
                x: ax,
                y: ay,
                width: w,
                height: h,
            });
        }
        let pro = PositionedRenderObject { render_object: ro, x: ax, y: ay, width: w, height: h };
        let ghost pre_out = out@;
        out.push(pro);
        proof {
            assert(ros0.skip(i as int).remove(0) =~= ros0.skip(i as int).skip(1));
            assert(ros0.skip(i as int).skip(1) =~= ros0.skip(i as int + 1));
            assert(pro@ =~= own[i as int]);
            assert(positioned_view(out@) =~= positioned_view(pre_out).push(pro@));
            assert(own.take(i as int + 1) =~= own.take(i as int).push(own[i as int]));
            assert(positioned_view(out@) =~= out0 + own.take(i as int + 1));
        }
        i = i + 1;
    }
    proof {
        assert(own.take(i as int) =~= own);
        assert(tv.layout.render_objects =~= ros0.map_values(|ro: RenderObject| ro@));
    }
    let mut cbase = base;
    let mut ci: usize = 0;
    let n_children = children.len();
    while children.len() > 0
        invariant
            -MAX_COORD <= ax <= MAX_COORD,
            -MAX_COORD <= ay <= MAX_COORD,
            0 <= ci,
            cs_all.len() == n_children,
            ci + children@.len() == cs_all.len(),
            children@ == cs_all.skip(ci as int),
            cbase == base + forest_size(fv.take(ci as int)),
            positioned_view(out@) == out0 + own + emit_forest_spec(
                fv.take(ci as int),
                base as int,
                ax,
                ay,
                rects@,
            ),
        decreases children@.len(),
    {
        let c = children.remove(0);
        proof {
            assert(cs_all.skip(ci as int)[0] == cs_all[ci as int]);
            assert(c == cs_all[ci as int]);
            assert(tree_view(c) == fv[ci as int]);
            lemma_forest_take_step(fv, base as int, ci as int);
            lemma_forest_size_prefix_bound(fv, ci as int + 1);
        }
        let csz = subtree_size_checked(&c);
        emit_tree(c, cbase, ax, ay, rects, out);
        cbase = cbase + csz;
        ci = ci + 1;
        proof {
            assert(cs_all.skip(ci as int - 1).remove(0) =~= cs_all.skip(ci as int - 1).skip(1));
            assert(cs_all.skip(ci as int - 1).skip(1) =~= cs_all.skip(ci as int));
            lemma_emit_forest_take_step(fv, base as int, ax, ay, rects@, ci as int - 1);
        }
    }
    proof {
        lemma_take_all(fv);
        assert(own =~= tv.layout.render_objects.map_values(
            |ro: RenderObjectView|
                PositionedRenderObjectView {
                    render_object: ro,
                    x: ax,
                    y: ay,
                    width: w,
                    height: h,
                },
        ));
        assert(positioned_view(out@) =~= out0 + emit_tree_spec(tv, base as int, ox, oy, rects@));
    }
}

/// Number of nodes in a forest already known to fit in `usize`.
#[verifier::loop_isolation(false)]
fn subtree_size_from_bound(children: &Vec<LayoutTree>) -> (n: usize)
    requires
        forest_size(forest_view(children@)) < usize::MAX,
    ensures
        n == forest_size(forest_view(children@)),
{
    let ghost fv = forest_view(children@);
    proof {
        crate::evaluate::lemma_forest_view(children@);
    }
    let mut total: usize = 0;
    let mut i: usize = 0;
    while i < children.len()
        invariant
            0 <= i <= children@.len(),
            total == forest_size(fv.take(i as int)),
        decreases children@.len() - i,
    {
        proof {
            lemma_forest_take_step(fv, 0, i as int);
            lemma_forest_size_prefix_bound(fv, i as int + 1);
        }
        let sub = subtree_size_checked(&children[i]);
        total = total + sub;
        i = i + 1;
    }
    proof {
        lemma_take_all(fv);
    }
    total
}

/// Number of nodes in a subtree already known to fit in `usize`.
fn subtree_size_checked(t: &LayoutTree) -> (n: usize)
    requires
        tree_size(tree_view(*t)) <= usize::MAX,
    ensures
        n == tree_size(tree_view(*t)),
{
    subtree_size(t)
}

/// Resolves a layout tree at the given available space. Returns
/// `MalformedStyle`, and resolves nothing, exactly when some style or
/// measurement in the tree is out of bounds; otherwise returns every render
/// object of the tree, in paint order, at its absolute position and size.
#[verifier::loop_isolation(false)]
pub fn layout_frame(root: LayoutTree, avail_w: Option<u32>, avail_h: Option<u32>) -> (r: Result<
    Vec<PositionedRenderObject>,
    LayoutError,
>)
    requires
        tree_size(tree_view(root)) <= usize::MAX,
    ensures
        r is Ok <==> tree_valid(tree_view(root)),
        r matches Ok(v) ==> positioned_view(v@) == frame_spec(tree_view(root), avail_w, avail_h),
        r matches Err(e) ==> e == LayoutError::MalformedStyle,
{
    let ghost tv = tree_view(root);
    if !validate_tree(&root) {
        return Err(LayoutError::MalformedStyle);
    }
    let mut solver = solver_new();
    proof {
        assert(solver_rects(&solver) =~= zero_rects(0));
    }
    let root_idx = build_tree(&root, &mut solver);
    solver_compute(&mut solver, root_idx, avail_w, avail_h);
    proof {
        assert(solver_nodes(&solver) =~= encode_tree(tv, 0));
    }
    let rects = read_rects(&solver);
    let mut out: Vec<PositionedRenderObject> = Vec::new();
    emit_tree(root, 0, 0, 0, &rects, &mut out);
    proof {
        assert(positioned_view(out@) =~= frame_spec(tv, avail_w, avail_h));
    }
    Ok(out)
}

/// Law: paint order. For a node with two layout children, the resolved
/// frame lists the node's own render objects first, then every positioned
/// render object of the first child's subtree, then every one of the
/// second's: ancestors paint before descendants, siblings in declaration
/// order.
pub proof fn lemma_paint_order(
    t: LayoutTreeSpec,
    base: int,
    ox: i64,
    oy: i64,
    rects: Seq<(i64, i64, i64, i64)>,
)
    requires
        t.children.len() == 2,
    ensures
        ({
            let rect = rects[base + tree_size(t) - 1];
            let ax = abs_coord(ox, rect.0);
            let ay = abs_coord(oy, rect.1);
            let w = clamp_dim(rect.2);
            let h = clamp_dim(rect.3);
            emit_tree_spec(t, base, ox, oy, rects) == t.layout.render_objects.map_values(
                |ro: RenderObjectView|
                    PositionedRenderObjectView {
                        render_object: ro,
                        x: ax,
                        y: ay,
                        width: w,
                        height: h,
                    },
            ) + emit_tree_spec(t.children[0], base, ax, ay, rects) + emit_tree_spec(
                t.children[1],
                base + tree_size(t.children[0]),
                ax,
                ay,
                rects,
            )
        }),
{
    let f = t.children;
    let rect = rects[base + tree_size(t) - 1];
    let ax = abs_coord(ox, rect.0);
    let ay = abs_coord(oy, rect.1);
    assert(f.drop_last() =~= seq![f[0]]);
    assert(f.last() == f[1]);
    assert(seq![f[0]].drop_last() =~= Seq::<LayoutTreeSpec>::empty());
    assert(seq![f[0]].last() == f[0]);
    assert(forest_size(Seq::<LayoutTreeSpec>::empty()) == 0);
    assert(forest_size(seq![f[0]]) == tree_size(f[0]));
    assert(emit_forest_spec(Seq::<LayoutTreeSpec>::empty(), base, ax, ay, rects)
        == Seq::<PositionedRenderObjectView>::empty());
    assert(emit_forest_spec(seq![f[0]], base, ax, ay, rects) =~= emit_tree_spec(
        f[0],
        base,
        ax,
        ay,
        rects,
    ));
    assert(emit_forest_spec(f, base, ax, ay, rects) =~= emit_tree_spec(f[0], base, ax, ay, rects)
        + emit_tree_spec(f[1], base + tree_size(f[0]), ax, ay, rects));
    assert(emit_tree_spec(t, base, ox, oy, rects) =~= t.layout.render_objects.map_values(
        |ro: RenderObjectView|
            PositionedRenderObjectView {
                render_object: ro,
                x: ax,
                y: ay,
                width: clamp_dim(rect.2),
                height: clamp_dim(rect.3),
            },
    ) + emit_tree_spec(f[0], base, ax, ay, rects) + emit_tree_spec(
        f[1],
        base + tree_size(f[0]),
        ax,
        ay,
        rects,
    ));
}

/// Law: layout is pure. The resolved geometry of a frame is a function of
/// the layout tree (its styles, measurements and children) and the
/// available space alone; no other state enters `frame_spec`.
pub proof fn lemma_layout_pure(
    a: LayoutTreeSpec,
    b: LayoutTreeSpec,
    aw: Option<u32>,
    ah: Option<u32>,
)
    requires
        a == b,
    ensures
        frame_spec(a, aw, ah) == frame_spec(b, aw, ah),
{
}

} // verus!
