//! Renderer dispatch: partitions the positioned render objects into
//! geometry draws, text draws and hit-test regions. Geometry is tessellated
//! through the external geometry library and cached by generator and
//! resolved size, so an unchanged path at an unchanged size is never
//! re-tessellated, whatever its fill color.
use vstd::prelude::*;

use crate::layout::{clamp_dim, clamped_dim, PositionedRenderObject, PositionedRenderObjectView,
    positioned_view};
use crate::tess::{build_path, copy_mesh, lemma_path_spec_wf, mesh_of, mesh_wf, tessellate_fill, Mesh};
use crate::widget::{generate_path, path_spec, Color, PathGen, RenderObject, RenderObjectView};

verus! {

/// One cached tessellation, keyed by generator and clamped resolved size.
#[derive(Debug)]
pub struct CacheEntry {
    pub gen: PathGen,
    pub width: i64,
    pub height: i64,
    pub mesh: Mesh,
}

/// Mathematical image of a `CacheEntry`.
#[verifier::ext_equal]
pub struct CacheEntryView {
    pub gen: PathGen,
    pub width: i64,
    pub height: i64,
    pub vertices: Seq<(i32, i32)>,
    pub indices: Seq<u16>,
}

impl View for CacheEntry {
    type V = CacheEntryView;

    open spec fn view(&self) -> CacheEntryView {
        CacheEntryView {
            gen: self.gen,
            width: self.width,
            height: self.height,
            vertices: self.mesh.vertices@,
            indices: self.mesh.indices@,
        }
    }
}

pub open spec fn cache_view(c: Seq<CacheEntry>) -> Seq<CacheEntryView> {
    c.map_values(|e: CacheEntry| e@)
}

/// A cache entry holds exactly the mesh its key tessellates to.
pub open spec fn entry_wf(e: CacheEntryView) -> bool {
    &&& 0 <= e.width
    &&& 0 <= e.height
    &&& (e.vertices, e.indices) == mesh_of(path_spec(e.gen, e.width, e.height))
}

pub open spec fn cache_wf(c: Seq<CacheEntryView>) -> bool {
    forall|i: int| 0 <= i < c.len() ==> entry_wf(#[trigger] c[i])
}

/// Every cached mesh is a well-formed triangle list.
pub open spec fn cache_meshes_wf(c: Seq<CacheEntryView>) -> bool {
    forall|i: int| 0 <= i < c.len() ==> mesh_wf((#[trigger] c[i]).vertices, c[i].indices)
}

pub open spec fn cache_has(c: Seq<CacheEntryView>, g: PathGen, w: i64, h: i64) -> bool {
    exists|i: int|
        0 <= i < c.len() && (#[trigger] c[i]).gen == g && c[i].width == w && c[i].height == h
}

/// One geometry draw call: the mesh, the absolute offset it is drawn at,
/// the fill color, and whether this frame had to tessellate it afresh.
#[derive(Debug)]
pub struct PathDraw {
    pub mesh: Mesh,
    pub x: i64,
    pub y: i64,
    pub color: Color,
    pub retessellated: bool,
}

/// Mathematical image of a `PathDraw`.
#[verifier::ext_equal]
pub struct PathDrawView {
    pub vertices: Seq<(i32, i32)>,
    pub indices: Seq<u16>,
    pub x: i64,
    pub y: i64,
    pub color: Color,
    pub retessellated: bool,
}

impl View for PathDraw {
    type V = PathDrawView;

    open spec fn view(&self) -> PathDrawView {
        PathDrawView {
            vertices: self.mesh.vertices@,
            indices: self.mesh.indices@,
            x: self.x,
            y: self.y,
            color: self.color,
            retessellated: self.retessellated,
        }
    }
}

pub open spec fn paths_view(s: Seq<PathDraw>) -> Seq<PathDrawView> {
    s.map_values(|d: PathDraw| d@)
}

/// One text draw call for the external text-paint backend.
#[derive(Debug)]
pub struct TextDraw {
    pub text: String,
    pub font_size: u32,
    pub color: Color,
    pub x: i64,
    pub y: i64,
    pub width: i64,
    pub height: i64,
}

/// Mathematical image of a `TextDraw`.
#[verifier::ext_equal]
pub struct TextDrawView {
    pub text: Seq<char>,
    pub font_size: u32,
    pub color: Color,
    pub x: i64,
    pub y: i64,
    pub width: i64,
    pub height: i64,
}

impl View for TextDraw {
    type V = TextDrawView;

    open spec fn view(&self) -> TextDrawView {
        TextDrawView {
            text: self.text@,
            font_size: self.font_size,
            color: self.color,
            x: self.x,
            y: self.y,
            width: self.width,
            height: self.height,
        }
    }
}

pub open spec fn texts_view(s: Seq<TextDraw>) -> Seq<TextDrawView> {
    s.map_values(|d: TextDraw| d@)
}

/// A hit-testable region bound to host-registered callbacks, registered in
/// paint order: a later region lies above an earlier one.
#[derive(Clone, Copy, PartialEq, Eq, Structural, Debug)]
pub struct HitRegion {
    pub x: i64,
    pub y: i64,
    pub width: i64,
    pub height: i64,
    pub on_click: u64,
    pub on_hover: u64,
    pub on_move: u64,
}

/// Everything one frame hands the external backends, with the viewport
/// dimensions the geometry backend needs as push constants to normalize
/// device coordinates; they must be resupplied whenever the viewport
/// changes.
#[derive(Debug)]
pub struct FrameOutput {
    pub paths: Vec<PathDraw>,
    pub texts: Vec<TextDraw>,
    pub inputs: Vec<HitRegion>,
    pub viewport_width: u32,
    pub viewport_height: u32,
}

/// The renderer dispatch, one step per positioned render object, front to
/// back. A `Path` is tessellated at its clamped resolved size unless the
/// cache already holds that generator at that size; either way the draw
/// carries exactly the mesh the key tessellates to, and the fill color of
/// this frame's object. A `Text` or `Input` object is passed through.
pub open spec fn process_spec(
    objs: Seq<PositionedRenderObjectView>,
    paths: Seq<PathDrawView>,
    texts: Seq<TextDrawView>,
    inputs: Seq<HitRegion>,
    cache: Seq<CacheEntryView>,
) -> (Seq<PathDrawView>, Seq<TextDrawView>, Seq<HitRegion>, Seq<CacheEntryView>)
    decreases objs.len(),
{
    if objs.len() == 0 {
        (paths, texts, inputs, cache)
    } else {
        let o = objs[0];
        let rest = objs.skip(1);
        match o.render_object {
            RenderObjectView::Path { path_gen, color } => {
                let w = clamp_dim(o.width);
                let h = clamp_dim(o.height);
                let hit = cache_has(cache, path_gen, w, h);
                let mesh = mesh_of(path_spec(path_gen, w, h));
                let draw = PathDrawView {
                    vertices: mesh.0,
                    indices: mesh.1,
                    x: o.x,
                    y: o.y,
                    color: color,
                    retessellated: !hit,
                };
                let cache2 = if hit {
                    cache
                } else {
                    cache.push(
                        CacheEntryView {
                            gen: path_gen,
                            width: w,
                            height: h,
                            vertices: mesh.0,
                            indices: mesh.1,
                        },
                    )
                };
                process_spec(rest, paths.push(draw), texts, inputs, cache2)
            },
            RenderObjectView::Text { text, size, color } => process_spec(
                rest,
                paths,
                texts.push(
                    TextDrawView {
                        text: text,
                        font_size: size,
                        color: color,
                        x: o.x,
                        y: o.y,
                        width: o.width,
                        height: o.height,
                    },
                ),
                inputs,
                cache,
            ),
            RenderObjectView::Input { on_click, on_hover, on_move } => process_spec(
                rest,
                paths,
                texts,
                inputs.push(
                    HitRegion {
                        x: o.x,
                        y: o.y,
                        width: o.width,
                        height: o.height,
                        on_click: on_click,
                        on_hover: on_hover,
                        on_move: on_move,
                    },
                ),
                cache,
            ),
        }
    }
}

/// Looks a generator and clamped size up in the cache.
#[verifier::loop_isolation(false)]
fn cache_lookup(cache: &Vec<CacheEntry>, g: &PathGen, w: i64, h: i64) -> (r: Option<usize>)
    ensures
        r matches Some(j) ==> j < cache@.len() && cache@[j as int].gen == *g && cache@[
            j as int
        ].width == w && cache@[j as int].height == h,
        r is Some <==> cache_has(cache_view(cache@), *g, w, h),
{
    let mut i: usize = 0;
    while i < cache.len()
        invariant
            0 <= i <= cache@.len(),
            forall|k: int|
                0 <= k < i ==> !((#[trigger] cache_view(cache@)[k]).gen == *g && cache_view(
                    cache@,
                )[k].width == w && cache_view(cache@)[k].height == h),
        decreases cache@.len() - i,
    {
        let e = &cache[i];
        if e.width == w && e.height == h && e.gen == *g {
            proof {
                assert(cache_view(cache@)[i as int].gen == *g);
            }
            return Some(i);
        }
        i = i + 1;
    }
    None
}

/// The renderer: owns the tessellation cache carried across frames.
pub struct LyonRenderer {
    cache: Vec<CacheEntry>,
}

impl LyonRenderer {
    /// The cached tessellations, in insertion order.
    pub closed spec fn cache_model(&self) -> Seq<CacheEntryView> {
        cache_view(self.cache@)
    }

    /// Every cached mesh is exactly what its key tessellates to, and a
    /// well-formed triangle list.
    pub closed spec fn wf(&self) -> bool {
        cache_wf(self.cache_model()) && cache_meshes_wf(self.cache_model())
    }

    /// A renderer with an empty cache.
    pub fn new() -> (r: LyonRenderer)
        ensures
            r.wf(),
            r.cache_model() == Seq::<CacheEntryView>::empty(),
    {
        let r = LyonRenderer { cache: Vec::new() };
        proof {
            assert(cache_view(r.cache@) =~= Seq::<CacheEntryView>::empty());
        }
        r
    }

    /// Dispatches one frame's positioned render objects: exactly
    /// `process_spec` over the incoming cache.
    #[verifier::loop_isolation(false)]
    pub fn render(
        &mut self,
        objects: Vec<PositionedRenderObject>,
        viewport_width: u32,
        viewport_height: u32,
    ) -> (out: FrameOutput)
        requires
            old(self).wf(),
        ensures
            final(self).wf(),
            out.viewport_width == viewport_width,
            out.viewport_height == viewport_height,
            forall|k: int|
                0 <= k < out.paths@.len() ==> mesh_wf(
                    (#[trigger] paths_view(out.paths@)[k]).vertices,
                    paths_view(out.paths@)[k].indices,
                ),
            ({
                let r = process_spec(
                    positioned_view(objects@),
                    Seq::empty(),
                    Seq::empty(),
                    Seq::empty(),
                    old(self).cache_model(),
                );
                paths_view(out.paths@) == r.0 && texts_view(out.texts@) == r.1 && out.inputs@
                    == r.2 && final(self).cache_model() == r.3
            }),
    {
        let ghost goal = process_spec(
            positioned_view(objects@),
            Seq::empty(),
            Seq::empty(),
            Seq::empty(),
            old(self).cache_model(),
        );
        let mut objects = objects;
        let mut paths: Vec<PathDraw> = Vec::new();
        let mut texts: Vec<TextDraw> = Vec::new();
        let mut inputs: Vec<HitRegion> = Vec::new();
        proof {
            assert(paths_view(paths@) =~= Seq::<PathDrawView>::empty());
            assert(texts_view(texts@) =~= Seq::<TextDrawView>::empty());
        }
        while objects.len() > 0
            invariant
                cache_wf(cache_view(self.cache@)),
                cache_meshes_wf(cache_view(self.cache@)),
                forall|k: int|
                    0 <= k < paths@.len() ==> mesh_wf(
                        (#[trigger] paths_view(paths@)[k]).vertices,
                        paths_view(paths@)[k].indices,
                    ),
                process_spec(
                    positioned_view(objects@),
                    paths_view(paths@),
                    texts_view(texts@),
                    inputs@,
                    cache_view(self.cache@),
                ) == goal,
            decreases objects@.len(),
        {
            let ghost pre_objs = positioned_view(objects@);
            let ghost pre_paths = paths_view(paths@);
            let ghost pre_texts = texts_view(texts@);
            let ghost pre_inputs = inputs@;
            let ghost pre_cache = cache_view(self.cache@);
            let o = objects.remove(0);
            proof {
                assert(pre_objs[0] == o@);
                assert(positioned_view(objects@) =~= pre_objs.skip(1));
            }
            let PositionedRenderObject { render_object, x, y, width, height } = o;
            match render_object {
                RenderObject::Path { path_gen, color } => {
                    let nw = clamped_dim(width);
                    let nh = clamped_dim(height);
                    let found = cache_lookup(&self.cache, &path_gen, nw, nh);
                    let ghost hit = cache_has(pre_cache, path_gen, nw, nh);
                    let mesh: Mesh;
                    let retess: bool;
                    match found {
                        Some(j) => {
                            proof {
                                assert(entry_wf(pre_cache[j as int]));
                                assert(mesh_wf(
                                    pre_cache[j as int].vertices,
                                    pre_cache[j as int].indices,
                                ));
                            }
                            mesh = copy_mesh(&self.cache[j].mesh);
                            retess = false;
                        },
                        None => {
                            let cmds = generate_path(&path_gen, nw, nh);
                            proof {
                                lemma_path_spec_wf(path_gen, nw, nh);
                            }
                            let path = build_path(&cmds);
                            mesh = tessellate_fill(&path);
                            let stored = copy_mesh(&mesh);
                            self.cache.push(
                                CacheEntry { gen: path_gen, width: nw, height: nh, mesh: stored },
                            );
                            retess = true;
                            proof {
                                assert(cache_view(self.cache@) =~= pre_cache.push(
                                    CacheEntryView {
                                        gen: path_gen,
                                        width: nw,
                                        height: nh,
                                        vertices: mesh.vertices@,
                                        indices: mesh.indices@,
                                    },
                                ));
                                assert forall|k: int|
                                    0 <= k < cache_view(self.cache@).len() implies entry_wf(
                                    #[trigger] cache_view(self.cache@)[k],
                                ) by {
                                    if k < pre_cache.len() {
                                        assert(entry_wf(pre_cache[k]));
                                    }
                                }
                                assert forall|k: int|
                                    0 <= k < cache_view(self.cache@).len() implies mesh_wf(
                                    (#[trigger] cache_view(self.cache@)[k]).vertices,
                                    cache_view(self.cache@)[k].indices,
                                ) by {
                                    if k < pre_cache.len() {
                                        assert(mesh_wf(pre_cache[k].vertices, pre_cache[k].indices));
                                    }
                                }
                            }
                        },
                    }
                    let draw = PathDraw { mesh, x, y, color, retessellated: retess };
                    let ghost drawv = draw@;
                    paths.push(draw);
                    proof {
                        assert(paths_view(paths@) =~= pre_paths.push(drawv));
                        assert(mesh_wf(drawv.vertices, drawv.indices));
                        assert forall|k: int|
                            0 <= k < paths@.len() implies mesh_wf(
                            (#[trigger] paths_view(paths@)[k]).vertices,
                            paths_view(paths@)[k].indices,
                        ) by {
                            if k < pre_paths.len() {
                                assert(mesh_wf(pre_paths[k].vertices, pre_paths[k].indices));
                            }
                        }
                    }
                },
                RenderObject::Text { text, size, color } => {
                    let t = TextDraw { text, font_size: size, color, x, y, width, height };
                    let ghost tv = t@;
                    texts.push(t);
                    proof {
                        assert(texts_view(texts@) =~= pre_texts.push(tv));
                    }
                },
                RenderObject::Input { on_click, on_hover, on_move } => {
                    inputs.push(HitRegion { x, y, width, height, on_click, on_hover, on_move });
                },
            }
        }
        proof {
            assert(positioned_view(objects@) =~= Seq::<PositionedRenderObjectView>::empty());
        }
        FrameOutput { paths, texts, inputs, viewport_width, viewport_height }
    }
}

/// Whether a point lies inside a region.
pub open spec fn region_contains(r: HitRegion, px: i64, py: i64) -> bool {
    &&& r.x <= px
    &&& px < r.x + r.width
    &&& r.y <= py
    &&& py < r.y + r.height
}

fn contains(r: &HitRegion, px: i64, py: i64) -> (b: bool)
    ensures
        b == region_contains(*r, px, py),
{
    px as i128 >= r.x as i128 && (px as i128) < r.x as i128 + r.width as i128 && py as i128
        >= r.y as i128 && (py as i128) < r.y as i128 + r.height as i128
}

/// Resolves a pointer event to the topmost hit region at the point: the
/// last-registered region that contains it, since registration follows
/// paint order. Returns its index, or nothing when no region contains the
/// point.
#[verifier::loop_isolation(false)]
pub fn topmost_hit(regions: &Vec<HitRegion>, px: i64, py: i64) -> (r: Option<usize>)
    ensures
        r matches Some(j) ==> j < regions@.len() && region_contains(regions@[j as int], px, py)
            && forall|k: int|
            j < k < regions@.len() ==> !region_contains(#[trigger] regions@[k], px, py),
        r is None ==> forall|k: int|
            0 <= k < regions@.len() ==> !region_contains(#[trigger] regions@[k], px, py),
{
    let mut i: usize = regions.len();
    while i > 0
        invariant
            0 <= i <= regions@.len(),
            forall|k: int|
                i <= k < regions@.len() ==> !region_contains(#[trigger] regions@[k], px, py),
        decreases i,
    {
        i = i - 1;
        if contains(&regions[i], px, py) {
            return Some(i);
        }
    }
    None
}

} // verus!

verus! {

/// The `Path` objects of a frame, reduced to their cache keys: generator
/// and clamped resolved size, in paint order.
pub open spec fn path_keys(objs: Seq<PositionedRenderObjectView>) -> Seq<(PathGen, i64, i64)>
    decreases objs.len(),
{
    if objs.len() == 0 {
        Seq::empty()
    } else {
        let rest = path_keys(objs.skip(1));
        match objs[0].render_object {
            RenderObjectView::Path { path_gen, color } => seq![
                (path_gen, clamp_dim(objs[0].width), clamp_dim(objs[0].height)),
            ] + rest,
            _ => rest,
        }
    }
}

/// The fill colors of a frame's `Path` objects, in paint order.
pub open spec fn path_fills(objs: Seq<PositionedRenderObjectView>) -> Seq<Color>
    decreases objs.len(),
{
    if objs.len() == 0 {
        Seq::empty()
    } else {
        let rest = path_fills(objs.skip(1));
        match objs[0].render_object {
            RenderObjectView::Path { path_gen, color } => seq![color] + rest,
            _ => rest,
        }
    }
}

/// A frame has as many path fill colors as path keys.
pub proof fn lemma_path_seqs_len(objs: Seq<PositionedRenderObjectView>)
    ensures
        path_fills(objs).len() == path_keys(objs).len(),
    decreases objs.len(),
{
    if objs.len() > 0 {
        lemma_path_seqs_len(objs.skip(1));
    }
}

/// What one dispatch pass guarantees: the cache stays well formed and only
/// grows; earlier draws pass through; each new geometry draw carries
/// exactly the mesh its generator tessellates to at its clamped resolved
/// size, and its object's fill color; and afterwards the cache holds every
/// key the pass touched.
pub proof fn lemma_process_props(
    objs: Seq<PositionedRenderObjectView>,
    paths: Seq<PathDrawView>,
    texts: Seq<TextDrawView>,
    inputs: Seq<HitRegion>,
    cache: Seq<CacheEntryView>,
)
    requires
        cache_wf(cache),
    ensures
        ({
            let r = process_spec(objs, paths, texts, inputs, cache);
            &&& cache_wf(r.3)
            &&& r.3.len() >= cache.len()
            &&& forall|j: int| 0 <= j < cache.len() ==> r.3[j] == cache[j]
            &&& r.0.len() == paths.len() + path_keys(objs).len()
            &&& forall|k: int| 0 <= k < paths.len() ==> (#[trigger] r.0[k]) == paths[k]
            &&& forall|k: int|
                paths.len() <= k < r.0.len() ==> ((#[trigger] r.0[k]).vertices, r.0[k].indices)
                    == mesh_of(
                    path_spec(
                        path_keys(objs)[k - paths.len()].0,
                        path_keys(objs)[k - paths.len()].1,
                        path_keys(objs)[k - paths.len()].2,
                    ),
                ) && r.0[k].color == path_fills(objs)[k - paths.len()]
            &&& forall|k: int|
                0 <= k < path_keys(objs).len() ==> cache_has(
                    r.3,
                    (#[trigger] path_keys(objs)[k]).0,
                    path_keys(objs)[k].1,
                    path_keys(objs)[k].2,
                )
        }),
    decreases objs.len(),
{
    if objs.len() > 0 {
        let o = objs[0];
        let rest = objs.skip(1);
        match o.render_object {
            RenderObjectView::Path { path_gen, color } => {
                let w = clamp_dim(o.width);
                let h = clamp_dim(o.height);
                let hit = cache_has(cache, path_gen, w, h);
                let mesh = mesh_of(path_spec(path_gen, w, h));
                let draw = PathDrawView {
                    vertices: mesh.0,
                    indices: mesh.1,
                    x: o.x,
                    y: o.y,
                    color: color,
                    retessellated: !hit,
                };
                let entry = CacheEntryView {
                    gen: path_gen,
                    width: w,
                    height: h,
                    vertices: mesh.0,
                    indices: mesh.1,
                };
                let cache2 = if hit {
                    cache
                } else {
                    cache.push(entry)
                };
                assert(cache_wf(cache2)) by {
                    if !hit {
                        assert forall|i: int| 0 <= i < cache2.len() implies entry_wf(
                            #[trigger] cache2[i],
                        ) by {
                            if i < cache.len() {
                                assert(entry_wf(cache[i]));
                            }
                        }
                    }
                }
                lemma_process_props(rest, paths.push(draw), texts, inputs, cache2);
                lemma_path_seqs_len(rest);
                lemma_path_seqs_len(objs);
                let r = process_spec(objs, paths, texts, inputs, cache);
                assert(r == process_spec(rest, paths.push(draw), texts, inputs, cache2));
                assert forall|j: int| 0 <= j < cache.len() implies r.3[j] == cache[j] by {
                    assert(r.3[j] == cache2[j]);
                    if !hit {
                        assert(cache2[j] == cache[j]);
                    }
                }
                assert(path_keys(objs) == seq![(path_gen, w, h)] + path_keys(rest));
                assert(path_fills(objs) == seq![color] + path_fills(rest));
                assert forall|k: int|
                    paths.len() <= k < r.0.len() implies ((#[trigger] r.0[k]).vertices, r.0[
                    k
                ].indices) == mesh_of(
                    path_spec(
                        path_keys(objs)[k - paths.len()].0,
                        path_keys(objs)[k - paths.len()].1,
                        path_keys(objs)[k - paths.len()].2,
                    ),
                ) && r.0[k].color == path_fills(objs)[k - paths.len()] by {
                    if k == paths.len() {
                        assert(r.0[k] == paths.push(draw)[k]);
                        assert(paths.push(draw)[k] == draw);
                        assert(path_keys(objs)[0] == (path_gen, w, h));
                        assert(path_fills(objs)[0] == color);
                        assert((draw.vertices, draw.indices) == mesh);
                    } else {
                        assert(path_keys(objs)[k - paths.len()] == path_keys(rest)[k - paths.len()
                            - 1]);
                        assert(path_fills(objs)[k - paths.len()] == path_fills(rest)[k
                            - paths.len() - 1]);
                    }
                }
                assert(cache_has(cache2, path_gen, w, h)) by {
                    if !hit {
                        assert(cache2[cache.len() as int] == entry);
                    }
                }
                assert forall|k: int|
                    0 <= k < path_keys(objs).len() implies cache_has(
                    r.3,
                    (#[trigger] path_keys(objs)[k]).0,
                    path_keys(objs)[k].1,
                    path_keys(objs)[k].2,
                ) by {
                    if k == 0 {
                        let i = choose|i: int|
                            0 <= i < cache2.len() && (#[trigger] cache2[i]).gen == path_gen
                                && cache2[i].width == w && cache2[i].height == h;
                        assert(r.3[i] == cache2[i]);
                    } else {
                        assert(path_keys(objs)[k] == path_keys(rest)[k - 1]);
                    }
                }
            },
            RenderObjectView::Text { text, size, color } => {
                let t = TextDrawView {
                    text: text,
                    font_size: size,
                    color: color,
                    x: o.x,
                    y: o.y,
                    width: o.width,
                    height: o.height,
                };
                lemma_process_props(rest, paths, texts.push(t), inputs, cache);
                assert(process_spec(objs, paths, texts, inputs, cache) == process_spec(
                    rest,
                    paths,
                    texts.push(t),
                    inputs,
                    cache,
                ));
                assert(path_keys(objs) == path_keys(rest));
                assert(path_fills(objs) == path_fills(rest));
            },
            RenderObjectView::Input { on_click, on_hover, on_move } => {
                let reg = HitRegion {
                    x: o.x,
                    y: o.y,
                    width: o.width,
                    height: o.height,
                    on_click: on_click,
                    on_hover: on_hover,
                    on_move: on_move,
                };
                lemma_process_props(rest, paths, texts, inputs.push(reg), cache);
                assert(process_spec(objs, paths, texts, inputs, cache) == process_spec(
                    rest,
                    paths,
                    texts,
                    inputs.push(reg),
                    cache,
                ));
                assert(path_keys(objs) == path_keys(rest));
                assert(path_fills(objs) == path_fills(rest));
            },
        }
    }
}

/// When the cache already holds every key a pass will touch, nothing is
/// re-tessellated: every geometry draw of the pass reports a cache hit.
pub proof fn lemma_process_all_hits(
    objs: Seq<PositionedRenderObjectView>,
    paths: Seq<PathDrawView>,
    texts: Seq<TextDrawView>,
    inputs: Seq<HitRegion>,
    cache: Seq<CacheEntryView>,
)
    requires
        forall|k: int|
            0 <= k < path_keys(objs).len() ==> cache_has(
                cache,
                (#[trigger] path_keys(objs)[k]).0,
                path_keys(objs)[k].1,
                path_keys(objs)[k].2,
            ),
    ensures
        ({
            let r = process_spec(objs, paths, texts, inputs, cache);
            &&& r.0.len() == paths.len() + path_keys(objs).len()
            &&& forall|k: int| 0 <= k < paths.len() ==> (#[trigger] r.0[k]) == paths[k]
            &&& forall|k: int|
                paths.len() <= k < r.0.len() ==> !(#[trigger] r.0[k]).retessellated
        }),
    decreases objs.len(),
{
    if objs.len() > 0 {
        let o = objs[0];
        let rest = objs.skip(1);
        match o.render_object {
            RenderObjectView::Path { path_gen, color } => {
                let w = clamp_dim(o.width);
                let h = clamp_dim(o.height);
                assert(path_keys(objs) == seq![(path_gen, w, h)] + path_keys(rest));
                assert(path_keys(objs)[0] == (path_gen, w, h));
                let hit = cache_has(cache, path_gen, w, h);
                assert(hit);
                let mesh = mesh_of(path_spec(path_gen, w, h));
                let draw = PathDrawView {
                    vertices: mesh.0,
                    indices: mesh.1,
                    x: o.x,
                    y: o.y,
                    color: color,
                    retessellated: false,
                };
                assert forall|k: int|
                    0 <= k < path_keys(rest).len() implies cache_has(
                    cache,
                    (#[trigger] path_keys(rest)[k]).0,
                    path_keys(rest)[k].1,
                    path_keys(rest)[k].2,
                ) by {
                    assert(path_keys(objs)[k + 1] == path_keys(rest)[k]);
                }
                lemma_process_all_hits(rest, paths.push(draw), texts, inputs, cache);
            },
            RenderObjectView::Text { text, size, color } => {
                let t = TextDrawView {
                    text: text,
                    font_size: size,
                    color: color,
                    x: o.x,
                    y: o.y,
                    width: o.width,
                    height: o.height,
                };
                assert(path_keys(objs) == path_keys(rest));
                lemma_process_all_hits(rest, paths, texts.push(t), inputs, cache);
            },
            RenderObjectView::Input { on_click, on_hover, on_move } => {
                let reg = HitRegion {
                    x: o.x,
                    y: o.y,
                    width: o.width,
                    height: o.height,
                    on_click: on_click,
                    on_hover: on_hover,
                    on_move: on_move,
                };
                assert(path_keys(objs) == path_keys(rest));
                lemma_process_all_hits(rest, paths, texts, inputs.push(reg), cache);
            },
        }
    }
}

/// Law: re-tessellation is deterministic. Any two geometry draws whose
/// generator and clamped resolved size agree carry bit-identical meshes,
/// whichever frames and caches produced them.
pub proof fn lemma_retessellation_deterministic(
    objs1: Seq<PositionedRenderObjectView>,
    cache1: Seq<CacheEntryView>,
    objs2: Seq<PositionedRenderObjectView>,
    cache2: Seq<CacheEntryView>,
    k1: int,
    k2: int,
)
    requires
        cache_wf(cache1),
        cache_wf(cache2),
        0 <= k1 < path_keys(objs1).len(),
        0 <= k2 < path_keys(objs2).len(),
        path_keys(objs1)[k1] == path_keys(objs2)[k2],
    ensures
        ({
            let d1 = process_spec(objs1, Seq::empty(), Seq::empty(), Seq::empty(), cache1).0[k1];
            let d2 = process_spec(objs2, Seq::empty(), Seq::empty(), Seq::empty(), cache2).0[k2];
            d1.vertices == d2.vertices && d1.indices == d2.indices
        }),
{
    lemma_process_props(objs1, Seq::empty(), Seq::empty(), Seq::empty(), cache1);
    lemma_process_props(objs2, Seq::empty(), Seq::empty(), Seq::empty(), cache2);
}

/// Law: changing only fill colors between two frames re-tessellates
/// nothing. When a second frame's paths have the same generators at the
/// same resolved sizes, every one of its geometry draws is served from the
/// cache the first frame left behind, while carrying the second frame's
/// own fill colors and the exact meshes of its keys.
pub proof fn lemma_recolor_hits_cache(
    objs1: Seq<PositionedRenderObjectView>,
    objs2: Seq<PositionedRenderObjectView>,
    cache0: Seq<CacheEntryView>,
)
    requires
        cache_wf(cache0),
        path_keys(objs2) == path_keys(objs1),
    ensures
        ({
            let c1 = process_spec(objs1, Seq::empty(), Seq::empty(), Seq::empty(), cache0).3;
            let r2 = process_spec(objs2, Seq::empty(), Seq::empty(), Seq::empty(), c1);
            &&& r2.0.len() == path_keys(objs2).len()
            &&& forall|k: int| 0 <= k < r2.0.len() ==> !(#[trigger] r2.0[k]).retessellated
            &&& forall|k: int|
                0 <= k < r2.0.len() ==> (#[trigger] r2.0[k]).color == path_fills(objs2)[k]
            &&& forall|k: int|
                0 <= k < r2.0.len() ==> ((#[trigger] r2.0[k]).vertices, r2.0[k].indices)
                    == mesh_of(
                    path_spec(path_keys(objs2)[k].0, path_keys(objs2)[k].1, path_keys(objs2)[k].2),
                )
        }),
{
    lemma_process_props(objs1, Seq::empty(), Seq::empty(), Seq::empty(), cache0);
    let c1 = process_spec(objs1, Seq::empty(), Seq::empty(), Seq::empty(), cache0).3;
    lemma_process_all_hits(objs2, Seq::empty(), Seq::empty(), Seq::empty(), c1);
    lemma_process_props(objs2, Seq::empty(), Seq::empty(), Seq::empty(), c1);
}

} // verus!
