use bevy_svg::{
    convert_path, convert_stroke, placeholder_color, render_node, Constants, DrawType, Fill, LineCap, LineJoin, Node,
    Paint, PathCommand, PathDescriptor, PathEvent, Point, Rgba, Stroke, StrokeStyle, Svg, Transform, ViewBox,
};

fn multiply(p: Transform<f64>, c: Transform<f64>) -> Transform<f64> {
    Transform {
        a: p.a * c.a + p.c * c.b,
        b: p.b * c.a + p.d * c.b,
        c: p.a * c.c + p.c * c.d,
        d: p.b * c.c + p.d * c.d,
        e: p.a * c.e + p.c * c.f + p.e,
        f: p.b * c.e + p.d * c.f + p.f,
    }
}

fn identity() -> Transform<f64> {
    Transform { a: 1.0, b: 0.0, c: 0.0, d: 1.0, e: 0.0, f: 0.0 }
}

fn translate(x: f64, y: f64) -> Transform<f64> {
    Transform { a: 1.0, b: 0.0, c: 0.0, d: 1.0, e: x, f: y }
}

fn scale(x: f64, y: f64) -> Transform<f64> {
    Transform { a: x, b: 0.0, c: 0.0, d: y, e: 0.0, f: 0.0 }
}

fn consts() -> Constants<f64> {
    Constants { origin: Point { x: 0.0, y: 0.0 }, tolerance: 0.01 }
}

fn square() -> Vec<PathCommand<f64>> {
    vec![
        PathCommand::MoveTo { x: 0.0, y: 0.0 },
        PathCommand::LineTo { x: 1.0, y: 0.0 },
        PathCommand::LineTo { x: 1.0, y: 1.0 },
        PathCommand::ClosePath,
    ]
}

fn red_fill() -> Option<Fill> {
    Some(Fill { paint: Paint::Color { red: 255, green: 0, blue: 0 }, alpha: 128 })
}

fn blue_stroke() -> Option<Stroke<f64>> {
    Some(Stroke {
        paint: Paint::Color { red: 0, green: 0, blue: 255 },
        alpha: 255,
        width: 2.5,
        linecap: LineCap::Round,
        linejoin: LineJoin::Bevel,
    })
}

fn path(transform: Transform<f64>, fill: Option<Fill>, stroke: Option<Stroke<f64>>) -> Node<f64> {
    Node::Path { transform, data: square(), fill, stroke }
}

fn walk(node: &Node<f64>) -> Vec<PathDescriptor<f64>> {
    let mut out = Vec::new();
    render_node(node, identity(), &multiply, &consts(), &mut out);
    out
}

fn same(x: &PathDescriptor<f64>, y: &PathDescriptor<f64>) -> bool {
    x.segments == y.segments && x.abs_transform == y.abs_transform && x.color == y.color && x.draw_type == y.draw_type
}

#[test]
fn fill_comes_right_before_stroke() {
    let out = walk(&path(identity(), red_fill(), blue_stroke()));
    assert_eq!(out.len(), 2);
    assert_eq!(out[0].draw_type, DrawType::Fill);
    assert_eq!(out[0].color, Rgba { red: 255, green: 0, blue: 0, alpha: 128 });
    assert_eq!(
        out[1].draw_type,
        DrawType::Stroke(StrokeStyle { line_width: 2.5, tolerance: 0.01, line_cap: LineCap::Round, line_join: LineJoin::Bevel })
    );
    assert_eq!(out[1].color, Rgba { red: 0, green: 0, blue: 255, alpha: 255 });
    assert_eq!(out[0].segments, out[1].segments);
    assert_eq!(out[0].segments, convert_path(&square(), Point { x: 0.0, y: 0.0 }));
}

#[test]
fn path_without_style_yields_nothing() {
    assert!(walk(&path(identity(), None, None)).is_empty());
    assert_eq!(walk(&path(identity(), red_fill(), None)).len(), 1);
    assert_eq!(walk(&path(identity(), None, blue_stroke())).len(), 1);
}

#[test]
fn siblings_start_from_the_group_transform() {
    let group = Node::Group {
        transform: translate(10.0, 0.0),
        filter: None,
        clip_path: None,
        mask: None,
        children: vec![path(translate(1.0, 0.0), red_fill(), None), path(translate(1.0, 0.0), red_fill(), None)],
    };
    let out = walk(&Node::Svg { children: vec![group] });
    assert_eq!(out.len(), 2);
    assert_eq!(out[0].abs_transform, translate(11.0, 0.0));
    assert_eq!(out[1].abs_transform, translate(11.0, 0.0));
}

#[test]
fn nested_groups_compose_parent_then_child() {
    let inner = Node::Group {
        transform: translate(3.0, 4.0),
        filter: None,
        clip_path: None,
        mask: None,
        children: vec![path(identity(), red_fill(), None)],
    };
    let outer = Node::Group {
        transform: scale(2.0, 3.0),
        filter: None,
        clip_path: None,
        mask: None,
        children: vec![inner],
    };
    let out = walk(&Node::Svg { children: vec![outer] });
    assert_eq!(out.len(), 1);
    assert_eq!(out[0].abs_transform, Transform { a: 2.0, b: 0.0, c: 0.0, d: 3.0, e: 6.0, f: 12.0 });
}

#[test]
fn group_effects_do_not_change_the_output() {
    let make = |with: bool| {
        let r = |s: &str| if with { Some(s.to_string()) } else { None };
        Node::Svg {
            children: vec![Node::Group {
                transform: translate(5.0, 5.0),
                filter: r("f1"),
                clip_path: r("c1"),
                mask: r("m1"),
                children: vec![path(scale(2.0, 2.0), red_fill(), blue_stroke())],
            }],
        }
    };
    let with = walk(&make(true));
    let without = walk(&make(false));
    assert_eq!(with.len(), 2);
    assert_eq!(with.len(), without.len());
    for i in 0..with.len() {
        assert!(same(&with[i], &without[i]));
    }
}

#[test]
fn defs_and_unknown_nodes_are_skipped() {
    let root = Node::Svg {
        children: vec![Node::Defs, path(identity(), red_fill(), None), Node::Other, path(identity(), None, blue_stroke())],
    };
    let out = walk(&root);
    assert_eq!(out.len(), 2);
    assert_eq!(out[0].draw_type, DrawType::Fill);
    assert!(matches!(out[1].draw_type, DrawType::Stroke(_)));
}

#[test]
fn document_order_is_kept() {
    let green = Some(Fill { paint: Paint::Color { red: 0, green: 255, blue: 0 }, alpha: 255 });
    let root = Node::Svg { children: vec![path(identity(), red_fill(), None), path(identity(), green, None)] };
    let out = walk(&root);
    assert_eq!(out[0].color.red, 255);
    assert_eq!(out[1].color.green, 255);
}

#[test]
fn gradient_paint_degrades_to_placeholder() {
    let fill = Some(Fill { paint: Paint::Server, alpha: 10 });
    let out = walk(&path(identity(), fill, None));
    assert_eq!(out.len(), 1);
    assert_eq!(out[0].color, Rgba { red: 255, green: 255, blue: 255, alpha: 255 });
    assert_eq!(placeholder_color(), Rgba { red: 255, green: 255, blue: 255, alpha: 255 });
}

#[test]
fn paint_colors_take_their_alpha() {
    let paint = Paint::Color { red: 1, green: 2, blue: 3 };
    assert_eq!(paint.to_rgba(), Rgba { red: 1, green: 2, blue: 3, alpha: 255 });
    assert_eq!(paint.to_rgba_with_alpha(7), Rgba { red: 1, green: 2, blue: 3, alpha: 7 });
}

#[test]
fn stroke_conversion_maps_every_field() {
    let s = Stroke { paint: Paint::Color { red: 9, green: 8, blue: 7 }, alpha: 6, width: 4.0, linecap: LineCap::Square, linejoin: LineJoin::Miter };
    let (color, style) = convert_stroke(&s, 0.01);
    assert_eq!(color, Rgba { red: 9, green: 8, blue: 7, alpha: 6 });
    assert_eq!(style, StrokeStyle { line_width: 4.0, tolerance: 0.01, line_cap: LineCap::Square, line_join: LineJoin::Miter });
    let s2 = Stroke { paint: Paint::Server, alpha: 6, width: 1.0, linecap: LineCap::Butt, linejoin: LineJoin::Round };
    let (color2, style2) = convert_stroke(&s2, 0.5);
    assert_eq!(color2, Rgba { red: 255, green: 255, blue: 255, alpha: 255 });
    assert_eq!(style2.line_cap, LineCap::Butt);
    assert_eq!(style2.line_join, LineJoin::Round);
}

#[test]
fn document_takes_the_view_transform() {
    let root = Node::Svg { children: vec![path(translate(1.0, 1.0), red_fill(), None)] };
    let vb = ViewBox { x: 0.0, y: 0.0, w: 50.0, h: 25.0 };
    let svg = Svg::from_tree(&root, 100.0, 50.0, vb, scale(2.0, 2.0), &multiply, &consts());
    assert_eq!(svg.file, "");
    assert_eq!(svg.width, 100.0);
    assert_eq!(svg.height, 50.0);
    assert_eq!(svg.view_box, vb);
    assert_eq!(svg.origin, bevy_svg::Origin::TopLeft);
    assert_eq!(svg.paths.len(), 1);
    assert_eq!(svg.paths[0].abs_transform, Transform { a: 2.0, b: 0.0, c: 0.0, d: 2.0, e: 2.0, f: 2.0 });
    assert!(matches!(svg.paths[0].segments[0], PathEvent::Begin { .. }));
}
