//! The data model of the evaluation pipeline: widgets are described by
//! `Producer` values, evaluation turns them into `EvalObject`s, and a fully
//! materialized node carries a `LayoutObject` with its `RenderObject`s.
use vstd::prelude::*;

verus! {

/// Identity of a child among its siblings; used to scope the `Context`
/// handed to that child so state can be correlated across evaluation passes.
/// `Nop` marks a single-child wrapper with no identity of its own.
#[derive(Clone, Copy, PartialEq, Eq, Structural, Debug)]
pub enum KeyPart {
    Nop,
    Indexed(u64),
}

/// Opaque, cheaply copyable handle threaded through every producer
/// invocation. `scope` encodes the path of `KeyPart`s from the root.
#[derive(Clone, Copy, PartialEq, Eq, Structural, Debug)]
pub struct Context {
    pub frame: u64,
    pub scope: u64,
}

/// Scopes stay below this bound so re-scoping arithmetic cannot overflow.
pub const SCOPE_BOUND: u64 = 0x8000_0000;

/// How the scope of a child context is derived from its parent's scope and
/// the child's key. A `Nop` key leaves the context unchanged. The scope is
/// a bounded hash of the key path, a memoization hint for the host: like
/// any fixed-width hash it can collide across distinct paths; correlation
/// itself rests on sibling keys, whose uniqueness the evaluator enforces.
pub open spec fn child_scope(scope: u64, k: KeyPart) -> u64 {
    match k {
        KeyPart::Nop => scope,
        KeyPart::Indexed(i) => ((((scope as int) % (SCOPE_BOUND as int)) * 31 + (i as int) % (
            SCOPE_BOUND as int) + 1) % (SCOPE_BOUND as int)) as u64,
    }
}

pub open spec fn child_context_spec(ctx: Context, k: KeyPart) -> Context {
    Context { frame: ctx.frame, scope: child_scope(ctx.scope, k) }
}

/// The context a child producer is invoked with.
pub fn child_context(ctx: Context, k: KeyPart) -> (r: Context)
    ensures
        r == child_context_spec(ctx, k),
{
    match k {
        KeyPart::Nop => ctx,
        KeyPart::Indexed(i) => Context {
            frame: ctx.frame,
            scope: ((ctx.scope % SCOPE_BOUND) * 31 + i % SCOPE_BOUND + 1) % SCOPE_BOUND,
        },
    }
}

/// An RGBA fill color.
#[derive(Clone, Copy, PartialEq, Eq, Structural, Debug)]
pub struct Color {
    pub r: u8,
    pub g: u8,
    pub b: u8,
    pub a: u8,
}

/// One box-layout dimension: either unconstrained or a fixed number of
/// layout units. "No constraint" is an explicit variant, never a sentinel.
#[derive(Clone, Copy, PartialEq, Eq, Structural, Debug)]
pub enum Dim {
    Auto,
    Points(u32),
}

/// Main axis of a container's children.
#[derive(Clone, Copy, PartialEq, Eq, Structural, Debug)]
pub enum Direction {
    Row,
    Column,
}

/// Box-layout style parameters handed to the external layout engine.
#[derive(Clone, Copy, PartialEq, Eq, Structural, Debug)]
pub struct Style {
    pub direction: Direction,
    pub width: Dim,
    pub height: Dim,
}

pub open spec fn default_style_spec() -> Style {
    Style { direction: Direction::Row, width: Dim::Auto, height: Dim::Auto }
}

pub fn default_style() -> (r: Style)
    ensures
        r == default_style_spec(),
{
    Style { direction: Direction::Row, width: Dim::Auto, height: Dim::Auto }
}

/// Intrinsic-size measurement for leaf content: a pure function of these
/// two fields, so the layout engine may invoke and cache it freely.
#[derive(Clone, Copy, PartialEq, Eq, Structural, Debug)]
pub struct MeasureSpec {
    pub chars: u32,
    pub font_size: u32,
}

/// Character count above which measured text no longer grows.
pub const MEASURE_CHAR_CAP: u32 = 4096;

/// Intrinsic size of measured content: half a font-size per character wide,
/// one font-size tall.
pub open spec fn measured_size(m: MeasureSpec) -> (u64, u64) {
    (
        ((if m.chars > MEASURE_CHAR_CAP { MEASURE_CHAR_CAP } else { m.chars }) as int
            * m.font_size as int / 2) as u64,
        m.font_size as u64,
    )
}

/// Resolves a `MeasureSpec` to an intrinsic width and height.
pub fn measure_size(m: &MeasureSpec) -> (r: (u64, u64))
    ensures
        r == measured_size(*m),
{
    let c: u64 = if m.chars > MEASURE_CHAR_CAP { MEASURE_CHAR_CAP } else { m.chars } as u64;
    let f: u64 = m.font_size as u64;
    proof {
        assert(c * f <= 4096 * 0xffff_ffffu64) by (nonlinear_arith)
            requires
                c <= 4096,
                f <= 0xffff_ffffu64,
        ;
    }
    (c * f / 2, f)
}

/// One step of a vector path, in coordinates local to the drawn box.
#[derive(Clone, Copy, PartialEq, Eq, Structural, Debug)]
pub enum PathCmd {
    Begin { x: i64, y: i64 },
    LineTo { x: i64, y: i64 },
    Close,
}

/// A size-dependent path generator: re-invoked whenever the resolved size
/// changes, pure with respect to that size.
#[derive(Clone, Copy, PartialEq, Eq, Structural, Debug)]
pub enum PathGen {
    Rect,
    Diamond,
}

/// The path a generator yields at a resolved width and height.
pub open spec fn path_spec(g: PathGen, w: i64, h: i64) -> Seq<PathCmd> {
    match g {
        PathGen::Rect => seq![
            PathCmd::Begin { x: 0, y: 0 },
            PathCmd::LineTo { x: w, y: 0 },
            PathCmd::LineTo { x: w, y: h },
            PathCmd::LineTo { x: 0, y: h },
            PathCmd::Close,
        ],
        PathGen::Diamond => seq![
            PathCmd::Begin { x: (w / 2) as i64, y: 0 },
            PathCmd::LineTo { x: w, y: (h / 2) as i64 },
            PathCmd::LineTo { x: (w / 2) as i64, y: h },
            PathCmd::LineTo { x: 0, y: (h / 2) as i64 },
            PathCmd::Close,
        ],
    }
}

/// Evaluates a path generator at a resolved size.
pub fn generate_path(g: &PathGen, w: i64, h: i64) -> (r: Vec<PathCmd>)
    requires
        0 <= w,
        0 <= h,
    ensures
        r@ == path_spec(*g, w, h),
{
    match g {
        PathGen::Rect => {
            let mut r: Vec<PathCmd> = Vec::new();
            r.push(PathCmd::Begin { x: 0, y: 0 });
            r.push(PathCmd::LineTo { x: w, y: 0 });
            r.push(PathCmd::LineTo { x: w, y: h });
            r.push(PathCmd::LineTo { x: 0, y: h });
            r.push(PathCmd::Close);
            proof {
                assert(r@ =~= path_spec(*g, w, h));
            }
            r
        },
        PathGen::Diamond => {
            let mut r: Vec<PathCmd> = Vec::new();
            r.push(PathCmd::Begin { x: w / 2, y: 0 });
            r.push(PathCmd::LineTo { x: w, y: h / 2 });
            r.push(PathCmd::LineTo { x: w / 2, y: h });
            r.push(PathCmd::LineTo { x: 0, y: h / 2 });
            r.push(PathCmd::Close);
            proof {
                assert(r@ =~= path_spec(*g, w, h));
            }
            r
        },
    }
}

/// Terminal drawable or interactive primitive. Input callbacks are carried
/// as host-registered identifiers; the host's dispatch subsystem resolves
/// them to the actual handlers.
#[derive(Debug, PartialEq, Eq)]
pub enum RenderObject {
    Path { path_gen: PathGen, color: Color },
    Text { text: String, size: u32, color: Color },
    Input { on_click: u64, on_hover: u64, on_move: u64 },
}

/// Mathematical image of a `RenderObject`.
#[verifier::ext_equal]
pub enum RenderObjectView {
    Path { path_gen: PathGen, color: Color },
    Text { text: Seq<char>, size: u32, color: Color },
    Input { on_click: u64, on_hover: u64, on_move: u64 },
}

impl View for RenderObject {
    type V = RenderObjectView;

    open spec fn view(&self) -> RenderObjectView {
        match self {
            RenderObject::Path { path_gen, color } => RenderObjectView::Path {
                path_gen: *path_gen,
                color: *color,
            },
            RenderObject::Text { text, size, color } => RenderObjectView::Text {
                text: text@,
                size: *size,
                color: *color,
            },
            RenderObject::Input { on_click, on_hover, on_move } => RenderObjectView::Input {
                on_click: *on_click,
                on_hover: *on_hover,
                on_move: *on_move,
            },
        }
    }
}

/// A node with layout semantics: a style, optional intrinsic measurement,
/// and the drawable content owned by this node, in paint order.
#[derive(Debug, PartialEq, Eq)]
pub struct LayoutObject {
    pub style: Style,
    pub measure_function: Option<MeasureSpec>,
    pub render_objects: Vec<RenderObject>,
}

/// Mathematical image of a `LayoutObject`.
#[verifier::ext_equal]
pub struct LayoutObjectView {
    pub style: Style,
    pub measure_function: Option<MeasureSpec>,
    pub render_objects: Seq<RenderObjectView>,
}

impl View for LayoutObject {
    type V = LayoutObjectView;

    open spec fn view(&self) -> LayoutObjectView {
        LayoutObjectView {
            style: self.style,
            measure_function: self.measure_function,
            render_objects: self.render_objects@.map_values(|r: RenderObject| r@),
        }
    }
}

/// A lazy child producer: the description a widget invocation leaves for
/// the evaluator, expanded on demand (never eagerly) by `produce`.
#[derive(Debug)]
pub enum Producer {
    /// A childless widget contributing a layout-participating node.
    Leaf { layout: LayoutObject },
    /// A layout-participating node with keyed children; its `layout` may
    /// carry render objects and a measurement of its own, and the
    /// children's nodes become children of this node.
    Container { layout: LayoutObject, children: Vec<(KeyPart, Producer)> },
    /// A pure pass-through composer: its children are lifted to the nearest
    /// layout-bearing ancestor.
    Fragment { children: Vec<(KeyPart, Producer)> },
}

/// Output of evaluating one widget invocation: an optional layout node and
/// the keyed producers of its children.
#[derive(Debug)]
pub struct EvalObject {
    pub children: Vec<(KeyPart, Producer)>,
    pub layout_object: Option<LayoutObject>,
}

/// Mathematical image of an `EvalObject`.
#[verifier::ext_equal]
pub struct EvalObjectView {
    pub children: Seq<(KeyPart, Producer)>,
    pub layout_object: Option<LayoutObjectView>,
}

impl View for EvalObject {
    type V = EvalObjectView;

    open spec fn view(&self) -> EvalObjectView {
        EvalObjectView {
            children: self.children@,
            layout_object: match self.layout_object {
                Some(lo) => Some(lo@),
                None => None,
            },
        }
    }
}

/// The `EvalObject` a producer expands to. The expansion is a pure function
/// of the producer alone; the context only threads through to the children.
pub open spec fn produce_spec(p: Producer, ctx: Context) -> EvalObjectView {
    match p {
        Producer::Leaf { layout } => EvalObjectView {
            children: Seq::empty(),
            layout_object: Some(layout@),
        },
        Producer::Container { layout, children } => EvalObjectView {
            children: children@,
            layout_object: Some(layout@),
        },
        Producer::Fragment { children } => EvalObjectView {
            children: children@,
            layout_object: None,
        },
    }
}

/// Expands one producer into its `EvalObject`, on demand.
pub fn produce(p: Producer, ctx: Context) -> (r: EvalObject)
    ensures
        r@ == produce_spec(p, ctx),
{
    match p {
        Producer::Leaf { layout } => {
            let r = EvalObject { children: Vec::new(), layout_object: Some(layout) };
            proof {
                assert(r@.children =~= produce_spec(p, ctx).children);
            }
            r
        },
        Producer::Container { layout, children } => EvalObject {
            children,
            layout_object: Some(layout),
        },
        Producer::Fragment { children } => EvalObject { children, layout_object: None },
    }
}

} // verus!
