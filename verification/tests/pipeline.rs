//! Evaluation and layout: flattening, materialization, paint order,
//! row placement, and style validation.
use narui_core::evaluate::{eval_producer, evaluate, EvalError, LayoutTree};
use narui_core::layout::{layout_frame, LayoutError, PositionedRenderObject, MAX_DIM};
use narui_core::widget::{
    child_context, generate_path, measure_size, Color, Context, Dim, Direction, EvalObject,
    KeyPart, LayoutObject, MeasureSpec, PathCmd, PathGen, Producer, RenderObject, Style,
};

fn ctx() -> Context {
    Context { frame: 1, scope: 0 }
}

fn red() -> Color {
    Color { r: 255, g: 0, b: 0, a: 255 }
}

fn text_leaf(text: &str, font_size: u32) -> Producer {
    Producer::Leaf {
        layout: LayoutObject {
            style: Style { direction: Direction::Row, width: Dim::Auto, height: Dim::Auto },
            measure_function: Some(MeasureSpec { chars: text.len() as u32, font_size }),
            render_objects: vec![RenderObject::Text {
                text: text.to_string(),
                size: font_size,
                color: red(),
            }],
        },
    }
}

fn row(children: Vec<(KeyPart, Producer)>) -> Producer {
    Producer::Container {
        layout: LayoutObject {
            style: Style { direction: Direction::Row, width: Dim::Auto, height: Dim::Auto },
            measure_function: None,
            render_objects: vec![],
        },
        children,
    }
}

#[test]
fn flattening_is_transparent() {
    // A pass-through wrapper with one no-op-keyed child evaluates to exactly
    // what the child evaluates to with the same context.
    let direct = eval_producer(text_leaf("A", 10), ctx());
    let wrapped = EvalObject {
        children: vec![(KeyPart::Nop, text_leaf("A", 10))],
        layout_object: None,
    };
    let via_wrapper = evaluate(wrapped, ctx()).unwrap();
    assert_eq!(direct, via_wrapper);
}

#[test]
fn nop_key_keeps_context() {
    let c = ctx();
    assert_eq!(child_context(c, KeyPart::Nop), c);
    assert_ne!(child_context(c, KeyPart::Indexed(0)), child_context(c, KeyPart::Indexed(1)));
}

#[test]
fn container_materializes_children_in_order() {
    let tree = eval_producer(
        row(vec![
            (KeyPart::Indexed(0), text_leaf("A", 10)),
            (KeyPart::Indexed(1), text_leaf("B", 10)),
        ]),
        ctx(),
    );
    assert_eq!(tree.len(), 1);
    assert_eq!(tree[0].children.len(), 2);
    match &tree[0].children[0].layout.render_objects[0] {
        RenderObject::Text { text, .. } => assert_eq!(text, "A"),
        other => panic!("expected text, got {:?}", other),
    }
    match &tree[0].children[1].layout.render_objects[0] {
        RenderObject::Text { text, .. } => assert_eq!(text, "B"),
        other => panic!("expected text, got {:?}", other),
    }
}

#[test]
fn fragment_splices_children() {
    // A fragment in the middle lifts its children into the surrounding
    // container, preserving relative order.
    let tree = eval_producer(
        row(vec![
            (KeyPart::Indexed(0), text_leaf("A", 10)),
            (
                KeyPart::Indexed(1),
                Producer::Fragment {
                    children: vec![
                        (KeyPart::Indexed(0), text_leaf("B", 10)),
                        (KeyPart::Indexed(1), text_leaf("C", 10)),
                    ],
                },
            ),
        ]),
        ctx(),
    );
    assert_eq!(tree[0].children.len(), 3);
    let texts: Vec<String> = tree[0]
        .children
        .iter()
        .map(|c| match &c.layout.render_objects[0] {
            RenderObject::Text { text, .. } => text.clone(),
            other => panic!("expected text, got {:?}", other),
        })
        .collect();
    assert_eq!(texts, vec!["A".to_string(), "B".to_string(), "C".to_string()]);
}

#[test]
fn measure_size_is_half_font_per_char() {
    assert_eq!(measure_size(&MeasureSpec { chars: 4, font_size: 10 }), (20, 10));
    assert_eq!(measure_size(&MeasureSpec { chars: 1, font_size: 10 }), (5, 10));
    assert_eq!(measure_size(&MeasureSpec { chars: 0, font_size: 16 }), (0, 16));
}

#[test]
fn rect_generator_exact_path() {
    let cmds = generate_path(&PathGen::Rect, 4, 2);
    assert_eq!(
        cmds,
        vec![
            PathCmd::Begin { x: 0, y: 0 },
            PathCmd::LineTo { x: 4, y: 0 },
            PathCmd::LineTo { x: 4, y: 2 },
            PathCmd::LineTo { x: 0, y: 2 },
            PathCmd::Close,
        ]
    );
}

#[test]
fn diamond_generator_exact_path() {
    let cmds = generate_path(&PathGen::Diamond, 8, 6);
    assert_eq!(
        cmds,
        vec![
            PathCmd::Begin { x: 4, y: 0 },
            PathCmd::LineTo { x: 8, y: 3 },
            PathCmd::LineTo { x: 4, y: 6 },
            PathCmd::LineTo { x: 0, y: 3 },
            PathCmd::Close,
        ]
    );
}

fn single_root(mut forest: Vec<LayoutTree>) -> LayoutTree {
    assert_eq!(forest.len(), 1);
    forest.remove(0)
}

#[test]
fn row_of_two_texts_places_left_to_right() {
    // Container{row} -> [Text "A" size 10, Text "B" size 10]: exactly two
    // positioned text entries, x strictly increasing, identical y.
    let root = single_root(eval_producer(
        row(vec![
            (KeyPart::Indexed(0), text_leaf("A", 10)),
            (KeyPart::Indexed(1), text_leaf("B", 10)),
        ]),
        ctx(),
    ));
    let out = layout_frame(root, Some(100), Some(100)).unwrap();
    let texts: Vec<&PositionedRenderObject> = out
        .iter()
        .filter(|p| matches!(p.render_object, RenderObject::Text { .. }))
        .collect();
    assert_eq!(texts.len(), 2);
    assert!(texts[0].x < texts[1].x, "x must increase left to right");
    assert_eq!(texts[0].y, texts[1].y, "y must be identical");
}

#[test]
fn paint_order_parent_before_children_siblings_in_order() {
    // root holds its own render object, then child A's, then child B's.
    let own = RenderObject::Input { on_click: 7, on_hover: 8, on_move: 9 };
    let child = |label: &str| LayoutTree {
        layout: LayoutObject {
            style: Style { direction: Direction::Row, width: Dim::Points(10), height: Dim::Points(10) },
            measure_function: None,
            render_objects: vec![RenderObject::Text {
                text: label.to_string(),
                size: 10,
                color: red(),
            }],
        },
        children: vec![],
    };
    let root = LayoutTree {
        layout: LayoutObject {
            style: Style { direction: Direction::Row, width: Dim::Auto, height: Dim::Auto },
            measure_function: None,
            render_objects: vec![own],
        },
        children: vec![child("A"), child("B")],
    };
    let out = layout_frame(root, Some(100), Some(100)).unwrap();
    assert_eq!(out.len(), 3);
    assert!(matches!(out[0].render_object, RenderObject::Input { .. }));
    match (&out[1].render_object, &out[2].render_object) {
        (RenderObject::Text { text: a, .. }, RenderObject::Text { text: b, .. }) => {
            assert_eq!(a, "A");
            assert_eq!(b, "B");
        },
        other => panic!("expected two texts, got {:?}", other),
    }
}

#[test]
fn oversized_style_is_malformed() {
    let root = LayoutTree {
        layout: LayoutObject {
            style: Style {
                direction: Direction::Row,
                width: Dim::Points(MAX_DIM + 1),
                height: Dim::Auto,
            },
            measure_function: None,
            render_objects: vec![],
        },
        children: vec![],
    };
    assert_eq!(layout_frame(root, None, None), Err(LayoutError::MalformedStyle));
}

#[test]
fn valid_fixed_style_resolves_to_its_size() {
    let root = LayoutTree {
        layout: LayoutObject {
            style: Style {
                direction: Direction::Column,
                width: Dim::Points(40),
                height: Dim::Points(30),
            },
            measure_function: None,
            render_objects: vec![RenderObject::Path { path_gen: PathGen::Rect, color: red() }],
        },
        children: vec![],
    };
    let out = layout_frame(root, Some(100), Some(100)).unwrap();
    assert_eq!(out.len(), 1);
    assert_eq!((out[0].x, out[0].y), (0, 0));
    assert_eq!((out[0].width, out[0].height), (40, 30));
}

#[test]
fn nested_container_accumulates_absolute_positions() {
    // A column holding a fixed box and a sub-container: the sub-container's
    // content is positioned below the box, in absolute coordinates.
    let fixed_box = |label: &str| LayoutTree {
        layout: LayoutObject {
            style: Style {
                direction: Direction::Row,
                width: Dim::Points(10),
                height: Dim::Points(10),
            },
            measure_function: None,
            render_objects: vec![RenderObject::Text {
                text: label.to_string(),
                size: 10,
                color: red(),
            }],
        },
        children: vec![],
    };
    let inner = LayoutTree {
        layout: LayoutObject {
            style: Style { direction: Direction::Column, width: Dim::Auto, height: Dim::Auto },
            measure_function: None,
            render_objects: vec![],
        },
        children: vec![fixed_box("inner")],
    };
    let root = LayoutTree {
        layout: LayoutObject {
            style: Style { direction: Direction::Column, width: Dim::Auto, height: Dim::Auto },
            measure_function: None,
            render_objects: vec![],
        },
        children: vec![fixed_box("top"), inner],
    };
    let out = layout_frame(root, Some(100), Some(100)).unwrap();
    assert_eq!(out.len(), 2);
    assert_eq!((out[0].x, out[0].y), (0, 0));
    assert_eq!((out[1].x, out[1].y), (0, 10), "nested content sits below the first box");
}


#[test]
fn duplicate_sibling_keys_are_rejected() {
    let wrapped = EvalObject {
        children: vec![
            (KeyPart::Indexed(3), text_leaf("A", 10)),
            (KeyPart::Indexed(3), text_leaf("B", 10)),
        ],
        layout_object: None,
    };
    assert_eq!(evaluate(wrapped, ctx()), Err(EvalError::DuplicateKey));

    let nested = EvalObject {
        children: vec![(
            KeyPart::Nop,
            row(vec![
                (KeyPart::Indexed(0), text_leaf("A", 10)),
                (KeyPart::Indexed(0), text_leaf("B", 10)),
            ]),
        )],
        layout_object: None,
    };
    assert_eq!(evaluate(nested, ctx()), Err(EvalError::DuplicateKey));

    let unique = EvalObject {
        children: vec![
            (KeyPart::Indexed(0), text_leaf("A", 10)),
            (KeyPart::Indexed(1), text_leaf("B", 10)),
        ],
        layout_object: None,
    };
    assert!(evaluate(unique, ctx()).is_ok());
}

#[test]
fn container_owns_render_objects_and_children() {
    // A layout-participating node may carry its own render objects and a
    // measurement while adopting its children.
    let root = single_root(eval_producer(
        Producer::Container {
            layout: LayoutObject {
                style: Style { direction: Direction::Row, width: Dim::Auto, height: Dim::Auto },
                measure_function: None,
                render_objects: vec![RenderObject::Input {
                    on_click: 1,
                    on_hover: 2,
                    on_move: 3,
                }],
            },
            children: vec![(KeyPart::Indexed(0), text_leaf("A", 10))],
        },
        ctx(),
    ));
    let out = layout_frame(root, Some(100), Some(100)).unwrap();
    assert_eq!(out.len(), 2);
    assert!(matches!(out[0].render_object, RenderObject::Input { .. }));
    assert!(matches!(out[1].render_object, RenderObject::Text { .. }));
}
