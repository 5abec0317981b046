//! Renderer dispatch: partitioning, the tessellation cache across frames,
//! and hit-testing of input regions.
use narui_core::layout::PositionedRenderObject;
use narui_core::render::{topmost_hit, FrameOutput, HitRegion, LyonRenderer};
use narui_core::widget::{Color, PathGen, RenderObject};

fn red() -> Color {
    Color { r: 255, g: 0, b: 0, a: 255 }
}

fn blue() -> Color {
    Color { r: 0, g: 0, b: 255, a: 255 }
}

fn path_at(gen: PathGen, color: Color, x: i64, y: i64, w: i64, h: i64) -> PositionedRenderObject {
    PositionedRenderObject {
        render_object: RenderObject::Path { path_gen: gen, color },
        x,
        y,
        width: w,
        height: h,
    }
}

fn one_frame(renderer: &mut LyonRenderer, objs: Vec<PositionedRenderObject>) -> FrameOutput {
    renderer.render(objs, 800, 600)
}

#[test]
fn first_frame_tessellates() {
    let mut renderer = LyonRenderer::new();
    let out = one_frame(&mut renderer, vec![path_at(PathGen::Rect, red(), 5, 6, 10, 10)]);
    assert_eq!(out.paths.len(), 1);
    assert!(out.paths[0].retessellated);
    assert_eq!(out.paths[0].color, red());
    assert_eq!((out.paths[0].x, out.paths[0].y), (5, 6));
    assert!(!out.paths[0].mesh.vertices.is_empty());
    assert!(!out.paths[0].mesh.indices.is_empty());
    assert_eq!(out.paths[0].mesh.indices.len() % 3, 0);
    assert_eq!((out.viewport_width, out.viewport_height), (800, 600));
}

#[test]
fn recolor_hits_cache_and_updates_color() {
    // Changing only the fill color between two frames must not re-trigger
    // tessellation, and the mesh must be bit-identical.
    let mut renderer = LyonRenderer::new();
    let out1 = one_frame(&mut renderer, vec![path_at(PathGen::Rect, red(), 0, 0, 10, 10)]);
    let out2 = one_frame(&mut renderer, vec![path_at(PathGen::Rect, blue(), 0, 0, 10, 10)]);
    assert!(out1.paths[0].retessellated);
    assert!(!out2.paths[0].retessellated);
    assert_eq!(out2.paths[0].color, blue());
    assert_eq!(out1.paths[0].mesh, out2.paths[0].mesh);
}

#[test]
fn resize_retessellates() {
    let mut renderer = LyonRenderer::new();
    let _ = one_frame(&mut renderer, vec![path_at(PathGen::Rect, red(), 0, 0, 10, 10)]);
    let out2 = one_frame(&mut renderer, vec![path_at(PathGen::Rect, red(), 0, 0, 20, 10)]);
    assert!(out2.paths[0].retessellated);
}

#[test]
fn position_change_alone_keeps_cache() {
    // The cache is keyed by generator and size; a moved path reuses it.
    let mut renderer = LyonRenderer::new();
    let _ = one_frame(&mut renderer, vec![path_at(PathGen::Rect, red(), 0, 0, 10, 10)]);
    let out2 = one_frame(&mut renderer, vec![path_at(PathGen::Rect, red(), 30, 40, 10, 10)]);
    assert!(!out2.paths[0].retessellated);
    assert_eq!((out2.paths[0].x, out2.paths[0].y), (30, 40));
}

#[test]
fn different_generators_do_not_share_meshes() {
    let mut renderer = LyonRenderer::new();
    let out = one_frame(
        &mut renderer,
        vec![
            path_at(PathGen::Rect, red(), 0, 0, 10, 10),
            path_at(PathGen::Diamond, red(), 0, 0, 10, 10),
        ],
    );
    assert!(out.paths[0].retessellated);
    assert!(out.paths[1].retessellated);
    assert_ne!(out.paths[0].mesh, out.paths[1].mesh);
}

#[test]
fn dispatch_partitions_by_variant() {
    let mut renderer = LyonRenderer::new();
    let out = one_frame(
        &mut renderer,
        vec![
            path_at(PathGen::Rect, red(), 0, 0, 10, 10),
            PositionedRenderObject {
                render_object: RenderObject::Text {
                    text: "hi".to_string(),
                    size: 12,
                    color: red(),
                },
                x: 1,
                y: 2,
                width: 12,
                height: 12,
            },
            PositionedRenderObject {
                render_object: RenderObject::Input { on_click: 1, on_hover: 2, on_move: 3 },
                x: 0,
                y: 0,
                width: 10,
                height: 10,
            },
        ],
    );
    assert_eq!(out.paths.len(), 1);
    assert_eq!(out.texts.len(), 1);
    assert_eq!(out.inputs.len(), 1);
    assert_eq!(out.texts[0].text, "hi");
    assert_eq!(out.inputs[0].on_move, 3);
}

#[test]
fn overlapping_inputs_dispatch_to_topmost() {
    // Two overlapping regions: the later-registered (topmost) one wins.
    let below = HitRegion { x: 0, y: 0, width: 100, height: 100, on_click: 1, on_hover: 2, on_move: 3 };
    let above = HitRegion { x: 0, y: 0, width: 100, height: 100, on_click: 4, on_hover: 5, on_move: 6 };
    let regions = vec![below, above];
    let hit = topmost_hit(&regions, 50, 50);
    assert_eq!(hit, Some(1));
    assert_eq!(regions[hit.unwrap()].on_move, 6);
}

#[test]
fn miss_outside_all_regions() {
    let r = HitRegion { x: 10, y: 10, width: 5, height: 5, on_click: 1, on_hover: 2, on_move: 3 };
    assert_eq!(topmost_hit(&vec![r], 50, 50), None);
    assert_eq!(topmost_hit(&vec![r], 10, 10), Some(0));
    assert_eq!(topmost_hit(&vec![r], 15, 10), None);
}

#[test]
fn partially_overlapping_inputs_hit_correctly() {
    let left = HitRegion { x: 0, y: 0, width: 20, height: 20, on_click: 1, on_hover: 1, on_move: 1 };
    let right = HitRegion { x: 10, y: 0, width: 20, height: 20, on_click: 2, on_hover: 2, on_move: 2 };
    let regions = vec![left, right];
    assert_eq!(topmost_hit(&regions, 5, 5), Some(0));
    assert_eq!(topmost_hit(&regions, 15, 5), Some(1));
    assert_eq!(topmost_hit(&regions, 25, 5), Some(1));
}
