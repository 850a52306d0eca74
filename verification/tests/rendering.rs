use scene_svg::render_drawing;
use scene_svg::render_shape;
use scene_svg::Canvas;
use scene_svg::DisplayList;
use scene_svg::Document;
use scene_svg::Drawing;
use scene_svg::Position;
use scene_svg::Shape;
use scene_svg::SvgRenderer;

fn rect(width: i64, height: i64) -> Shape {
    Shape::Rectangle { width, height }
}

fn leaf(x: i64, y: i64, width: i64, height: i64) -> Drawing {
    Drawing {
        position: Position::new(x, y),
        shape: rect(width, height),
        display_list: DisplayList { drawings: vec![] },
    }
}

fn node(x: i64, y: i64, width: i64, height: i64, children: Vec<Drawing>) -> Drawing {
    Drawing {
        position: Position::new(x, y),
        shape: rect(width, height),
        display_list: DisplayList { drawings: children },
    }
}

fn header(width: i64, height: i64) -> String {
    format!(
        "<svg viewBox=\"0 0 {} {}\" xmlns=\"http://www.w3.org/2000/svg\">",
        width, height
    )
}

fn rect_markup(x: i64, y: i64, width: i64, height: i64) -> String {
    format!(
        "<rect x=\"{}\" y=\"{}\" width=\"{}\" height=\"{}\" fill=\"black\" stroke=\"gray\" stroke-width=\"1\"/>",
        x, y, width, height
    )
}

fn render_to_string(canvas: &Canvas) -> String {
    let renderer = SvgRenderer::new();
    String::from_utf8(renderer.render(canvas)).unwrap()
}

#[test]
fn empty_canvas_has_only_viewport() {
    let canvas = Canvas { width: 100, height: 100, background: None, drawings: vec![] };
    let expected = format!("{}</svg>", header(100, 100));
    assert_eq!(render_to_string(&canvas), expected);
}

#[test]
fn render_is_deterministic() {
    let canvas = Canvas {
        width: 64,
        height: 48,
        background: Some(rect(64, 48)),
        drawings: vec![node(3, 4, 5, 6, vec![leaf(7, 8, 9, 10)]), leaf(11, 12, 13, 14)],
    };
    let renderer = SvgRenderer::new();
    let first = renderer.render(&canvas);
    let second = renderer.render(&canvas);
    assert_eq!(first, second);
}

#[test]
fn background_then_drawing() {
    let canvas = Canvas {
        width: 100,
        height: 100,
        background: Some(rect(100, 100)),
        drawings: vec![leaf(10, 10, 20, 20)],
    };
    let expected = format!(
        "{}{}{}</svg>",
        header(100, 100),
        rect_markup(0, 0, 100, 100),
        rect_markup(10, 10, 20, 20)
    );
    assert_eq!(render_to_string(&canvas), expected);
}

#[test]
fn background_markup_precedes_drawings() {
    let canvas = Canvas {
        width: 30,
        height: 40,
        background: Some(rect(30, 40)),
        drawings: vec![leaf(1, 2, 3, 4)],
    };
    let text = render_to_string(&canvas);
    let background_at = text.find(&rect_markup(0, 0, 30, 40)).unwrap();
    let drawing_at = text.find(&rect_markup(1, 2, 3, 4)).unwrap();
    assert!(background_at < drawing_at);
}

#[test]
fn nested_child_not_offset_by_parent() {
    let canvas = Canvas {
        width: 50,
        height: 50,
        background: None,
        drawings: vec![node(5, 5, 10, 10, vec![leaf(1, 1, 2, 2)])],
    };
    let expected = format!(
        "{}{}{}</svg>",
        header(50, 50),
        rect_markup(5, 5, 10, 10),
        rect_markup(1, 1, 2, 2)
    );
    assert_eq!(render_to_string(&canvas), expected);
}

#[test]
fn sibling_subtrees_emitted_in_order() {
    let a = node(1, 1, 1, 1, vec![leaf(2, 2, 2, 2)]);
    let b = node(3, 3, 3, 3, vec![leaf(4, 4, 4, 4)]);
    let canvas = Canvas { width: 9, height: 9, background: None, drawings: vec![a, b] };
    let expected = format!(
        "{}{}{}{}{}</svg>",
        header(9, 9),
        rect_markup(1, 1, 1, 1),
        rect_markup(2, 2, 2, 2),
        rect_markup(3, 3, 3, 3),
        rect_markup(4, 4, 4, 4)
    );
    assert_eq!(render_to_string(&canvas), expected);
}

#[test]
fn parent_emitted_before_children() {
    let parent = node(
        0,
        0,
        8,
        8,
        vec![node(1, 1, 1, 1, vec![leaf(5, 5, 5, 5)]), leaf(2, 2, 2, 2)],
    );
    let document = Document::new(20, 20);
    let document = render_drawing(&parent, document);
    let text = String::from_utf8(document.to_bytes()).unwrap();
    let expected = format!(
        "{}{}{}{}{}</svg>",
        header(20, 20),
        rect_markup(0, 0, 8, 8),
        rect_markup(1, 1, 1, 1),
        rect_markup(5, 5, 5, 5),
        rect_markup(2, 2, 2, 2)
    );
    assert_eq!(text, expected);
}

#[test]
fn render_shape_appends_rectangle() {
    let document = Document::new(40, 30);
    let shape = rect(7, 8);
    let position = Position::new(3, 4);
    let document = render_shape(&shape, &position, document);
    let text = String::from_utf8(document.to_bytes()).unwrap();
    let expected = format!("{}{}</svg>", header(40, 30), rect_markup(3, 4, 7, 8));
    assert_eq!(text, expected);
}

#[test]
fn negative_and_zero_dimensions_forwarded_unchanged() {
    let canvas = Canvas {
        width: 10,
        height: 10,
        background: None,
        drawings: vec![leaf(-5, -7, 0, -3)],
    };
    let expected = format!("{}{}</svg>", header(10, 10), rect_markup(-5, -7, 0, -3));
    assert_eq!(render_to_string(&canvas), expected);
}

#[test]
fn extreme_coordinates_render_in_full() {
    let canvas = Canvas {
        width: 1,
        height: 1,
        background: None,
        drawings: vec![leaf(i64::MIN, i64::MAX, 1, 1)],
    };
    let text = render_to_string(&canvas);
    assert!(text.contains("x=\"-9223372036854775808\""));
    assert!(text.contains("y=\"9223372036854775807\""));
}

#[test]
fn deep_nesting_emits_in_preorder() {
    let innermost = leaf(4, 4, 4, 4);
    let middle = node(3, 3, 3, 3, vec![innermost]);
    let outer = node(2, 2, 2, 2, vec![middle]);
    let canvas = Canvas { width: 6, height: 7, background: None, drawings: vec![outer] };
    let expected = format!(
        "{}{}{}{}</svg>",
        header(6, 7),
        rect_markup(2, 2, 2, 2),
        rect_markup(3, 3, 3, 3),
        rect_markup(4, 4, 4, 4)
    );
    assert_eq!(render_to_string(&canvas), expected);
}
