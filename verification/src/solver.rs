//! Adapter to the external box-layout engine (the `stretch` crate). The
//! solver session holds the engine's node handles privately; contracts
//! speak of the session's contents by node index, in insertion order.
use vstd::prelude::*;

use stretch::geometry::Size;
use stretch::number::Number;
use stretch::style::{Dimension, FlexDirection, Style};

use crate::widget::MeasureSpec;

verus! {

/// One node as handed to the layout engine: main-axis direction (`true`
/// for a row), optional fixed width and height in layout points, optional
/// intrinsic measurement, and the indices of its children.
pub type SolverEntry = (bool, Option<u32>, Option<u32>, Option<MeasureSpec>, Seq<usize>);

/// A layout-engine session: the engine paired with the handles of the
/// nodes built so far, indexed in insertion order.
#[verifier::external_body]
pub struct LayoutSolver {
    inner: stretch::node::Stretch,
    nodes: Vec<stretch::node::Node>,
}

/// The nodes a session holds, in insertion order.
pub uninterp spec fn solver_nodes(s: &LayoutSolver) -> Seq<SolverEntry>;

/// The geometry the engine currently reports for each node, in insertion
/// order: x and y relative to the parent, then width and height, each
/// truncated to an integer. Freshly built nodes report all zeroes.
pub uninterp spec fn solver_rects(s: &LayoutSolver) -> Seq<(i64, i64, i64, i64)>;

/// Whether no layout computation has run on this session yet. The engine
/// keeps a per-node cache of earlier computations that later solves may be
/// served from, so only on a session that has never solved is the reported
/// geometry a function of the nodes and the available space alone.
pub uninterp spec fn solver_fresh(s: &LayoutSolver) -> bool;

/// The geometry stretch's flexbox solver reports after `compute_layout` on
/// a session that has never solved before (every per-node cache empty, all
/// reported geometry zero): a pure function of the node tree, the root
/// index, and the available space.
pub uninterp spec fn stretch_solution(
    nodes: Seq<SolverEntry>,
    root: int,
    aw: Option<u32>,
    ah: Option<u32>,
) -> Seq<(i64, i64, i64, i64)>;

/// Relies on stretch::node::Stretch::new: a fresh engine holds no nodes.
#[verifier::external_body]
pub fn solver_new() -> (s: LayoutSolver)
    ensures
        solver_nodes(&s) == Seq::<SolverEntry>::empty(),
        solver_rects(&s) == Seq::<(i64, i64, i64, i64)>::empty(),
        solver_fresh(&s),
{
    LayoutSolver { inner: stretch::node::Stretch::new(), nodes: Vec::new() }
}

/// Relies on stretch::node::Stretch::new_node: appends one styled node
/// whose children are the given, already-built nodes; its reported layout
/// starts out as all zeroes. `new_node` only errs on an unknown child
/// handle, and every handle passed here came from this session.
#[verifier::external_body]
pub fn solver_add_node(
    s: &mut LayoutSolver,
    row: bool,
    w: Option<u32>,
    h: Option<u32>,
    children: &Vec<usize>,
) -> (idx: usize)
    requires
        forall|j: int|
            0 <= j < children@.len() ==> children@[j] < solver_nodes(&*old(s)).len(),
    ensures
        solver_nodes(&*final(s)) == solver_nodes(&*old(s)).push(
            (row, w, h, None::<MeasureSpec>, children@),
        ),
        solver_rects(&*final(s)) == solver_rects(&*old(s)).push((0i64, 0i64, 0i64, 0i64)),
        solver_fresh(&*final(s)) == solver_fresh(&*old(s)),
        idx == solver_nodes(&*old(s)).len(),
{
    let dim = |v: Option<u32>| v.map(|p| Dimension::Points(p as _)).unwrap_or(Dimension::Auto);
    let dir = if row { FlexDirection::Row } else { FlexDirection::Column };
    let size = Size { width: dim(w), height: dim(h) };
    let style = Style { flex_direction: dir, size, ..Default::default() };
    let kids: Vec<stretch::node::Node> = children.iter().map(|j| s.nodes[*j]).collect();
    let idx = s.nodes.len();
    let node = s.inner.new_node(style, kids).unwrap();
    s.nodes.push(node);
    idx
}

/// Relies on stretch::node::Stretch::new_leaf: appends one styled,
/// childless node measured by the given `MeasureSpec` through the
/// library's own `measure_size`; its reported layout starts as all zeroes.
/// `new_leaf` never errs.
#[verifier::external_body]
pub fn solver_add_leaf(
    s: &mut LayoutSolver,
    row: bool,
    w: Option<u32>,
    h: Option<u32>,
    m: MeasureSpec,
) -> (idx: usize)
    ensures
        solver_nodes(&*final(s)) == solver_nodes(&*old(s)).push(
            (row, w, h, Some(m), Seq::<usize>::empty()),
        ),
        solver_rects(&*final(s)) == solver_rects(&*old(s)).push((0i64, 0i64, 0i64, 0i64)),
        solver_fresh(&*final(s)) == solver_fresh(&*old(s)),
        idx == solver_nodes(&*old(s)).len(),
{
    let dim = |v: Option<u32>| v.map(|p| Dimension::Points(p as _)).unwrap_or(Dimension::Auto);
    let dir = if row { FlexDirection::Row } else { FlexDirection::Column };
    let size = Size { width: dim(w), height: dim(h) };
    let style = Style { flex_direction: dir, size, ..Default::default() };
    let idx = s.nodes.len();
    let measure = Box::new(move |_avail| {
        let (mw, mh) = crate::widget::measure_size(&m);
        Ok(Size { width: mw as _, height: mh as _ })
    });
    s.nodes.push(s.inner.new_leaf(style, measure).unwrap());
    idx
}

/// Relies on stretch::node::Stretch::compute_layout: solves the flexbox
/// constraints below the given root for the available space. On a session
/// that has never solved, the result is a pure function of the nodes (the
/// measurements among them are pure functions of their `MeasureSpec`), the
/// root and the available space; after a solve the per-node caches hold
/// state this model does not track, so nothing is claimed of the geometry
/// a later solve on the same session reports beyond its length.
#[verifier::external_body]
pub fn solver_compute(s: &mut LayoutSolver, root: usize, aw: Option<u32>, ah: Option<u32>)
    requires
        root < solver_nodes(&*old(s)).len(),
    ensures
        solver_nodes(&*final(s)) == solver_nodes(&*old(s)),
        solver_fresh(&*old(s)) ==> solver_rects(&*final(s)) == stretch_solution(
            solver_nodes(&*old(s)),
            root as int,
            aw,
            ah,
        ),
        solver_rects(&*final(s)).len() == solver_rects(&*old(s)).len(),
{
    let num = |v: Option<u32>| v.map(|x| Number::Defined(x as _)).unwrap_or(Number::Undefined);
    let size = Size { width: num(aw), height: num(ah) };
    let _ = s.inner.compute_layout(s.nodes[root], size);
}

/// Relies on Vec::len of the session's node list: how many nodes the
/// session holds.
#[verifier::external_body]
pub fn solver_len(s: &LayoutSolver) -> (n: usize)
    ensures
        n == solver_nodes(s).len(),
{
    s.nodes.len()
}

/// Relies on stretch::node::Stretch::layout: reports the geometry of one
/// node, relative to its parent; `layout` only errs on an unknown handle.
#[verifier::external_body]
pub fn solver_rect(s: &LayoutSolver, i: usize) -> (r: (i64, i64, i64, i64))
    requires
        i < solver_nodes(s).len(),
    ensures
        r == solver_rects(s)[i as int],
{
    let l = s.inner.layout(s.nodes[i]).unwrap();
    (l.location.x as i64, l.location.y as i64, l.size.width as i64, l.size.height as i64)
}

} // verus!
