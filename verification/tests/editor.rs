use screenink::editor::{Annotation, Brush, Editor, Key, KeyAction, Tool, X11_KEYCODE_Z};
use screenink::geometry::{content_size, preview_scale, preview_size};
use screenink::outline::{corners, marks, shape, Mark, Shape};

type Point = (f64, f64);

const BRUSH: Brush<f64> = Brush { red: 0.9, green: 0.02, blue: 0.02, width: 5.0 };

fn editor() -> Editor<Point, f64> {
    Editor::new(BRUSH)
}

fn points(annotation: &Annotation<Point, f64>) -> Vec<Point> {
    match annotation {
        Annotation::Freehand { points, .. } => points.clone(),
        Annotation::Rectangle { start, end, .. } => vec![*start, *end],
    }
}

fn style(annotation: &Annotation<Point, f64>) -> (f64, f64, f64, f64) {
    let style = match annotation {
        Annotation::Freehand { style, .. } => style,
        Annotation::Rectangle { style, .. } => style,
    };
    (style.red, style.green, style.blue, style.width)
}

#[test]
fn pen_is_the_default_tool() {
    assert_eq!(Tool::default(), Tool::Pen);
    let mut editor = editor();
    editor.begin_drag((1.0, 2.0));
    assert!(matches!(editor.annotations()[0], Annotation::Freehand { .. }));
}

#[test]
fn pen_drag_records_every_point() {
    let mut editor = editor();
    editor.begin_drag((1.0, 2.0));
    editor.update_drag((3.0, 4.5));
    editor.update_drag((3.0, 4.5));
    assert_eq!(editor.annotations().len(), 1);
    assert_eq!(points(&editor.annotations()[0]), [(1.0, 2.0), (3.0, 4.5), (3.0, 4.5)]);
    assert_eq!(style(&editor.annotations()[0]), (0.9, 0.02, 0.02, 5.0));
}

#[test]
fn rectangle_drag_keeps_its_ends() {
    let mut editor = editor();
    editor.select_tool(Tool::Rectangle);
    editor.begin_drag((8.0, 1.0));
    assert_eq!(points(&editor.annotations()[0]), [(8.0, 1.0), (8.0, 1.0)]);
    editor.update_drag((5.0, 5.0));
    editor.update_drag((2.0, 3.0));
    assert_eq!(points(&editor.annotations()[0]), [(8.0, 1.0), (2.0, 3.0)]);
}

#[test]
fn brush_changes_count_for_later_drags() {
    let mut editor = editor();
    editor.begin_drag((0.0, 0.0));
    editor.set_width(12.0);
    editor.set_color(0.1, 0.2, 0.3);
    editor.update_drag((1.0, 1.0));
    editor.begin_drag((2.0, 2.0));
    assert_eq!(style(&editor.annotations()[0]), (0.9, 0.02, 0.02, 5.0));
    assert_eq!(style(&editor.annotations()[1]), (0.1, 0.2, 0.3, 12.0));
    assert_eq!(editor.brush().width, 12.0);
}

#[test]
fn dragging_without_annotation_does_nothing() {
    let mut editor = editor();
    editor.update_drag((1.0, 1.0));
    assert!(editor.annotations().is_empty());
}

#[test]
fn undo_removes_the_last_annotation() {
    let mut editor = editor();
    editor.begin_drag((1.0, 1.0));
    editor.select_tool(Tool::Rectangle);
    editor.begin_drag((2.0, 2.0));
    editor.update_drag((3.0, 3.0));
    editor.undo();
    assert_eq!(editor.annotations().len(), 1);
    assert_eq!(points(&editor.annotations()[0]), [(1.0, 1.0)]);
    editor.undo();
    editor.undo();
    assert!(editor.annotations().is_empty());
}

#[test]
fn keys() {
    let mut editor = editor();
    editor.begin_drag((1.0, 1.0));
    editor.begin_drag((2.0, 2.0));
    assert_eq!(editor.press_key(Key::Other, X11_KEYCODE_Z, false), KeyAction::Proceed);
    assert_eq!(editor.press_key(Key::Other, 53, true), KeyAction::Proceed);
    assert_eq!(editor.press_key(Key::Escape, 9, false), KeyAction::Close);
    assert_eq!(editor.press_key(Key::Return, 36, true), KeyAction::Save);
    assert_eq!(editor.annotations().len(), 2);
    assert_eq!(editor.press_key(Key::Other, 52, true), KeyAction::Redraw);
    assert_eq!(editor.annotations().len(), 1);
    assert_eq!(editor.press_key(Key::Return, 52, true), KeyAction::Redraw);
    assert!(editor.annotations().is_empty());
}

fn lines(shape: &Shape<Point>) -> Vec<(Point, Point)> {
    marks(shape)
        .into_iter()
        .map(|mark| match mark {
            Mark::Dot(point) => (point, point),
            Mark::Line(from, to) => (from, to),
        })
        .collect()
}

#[test]
fn a_single_point_is_a_dot() {
    let annotation = Annotation::Freehand { points: vec![(4.0, 5.0)], style: BRUSH };
    let dot = shape(&annotation);
    assert!(matches!(dot, Shape::Dot((x, y)) if x == 4.0 && y == 5.0));
    assert!(matches!(marks(&dot)[..], [Mark::Dot(_)]));
}

#[test]
fn no_point_is_nothing() {
    let annotation: Annotation<Point, f64> = Annotation::Freehand { points: vec![], style: BRUSH };
    let nothing = shape(&annotation);
    assert!(matches!(nothing, Shape::Empty));
    assert!(marks(&nothing).is_empty());
}

#[test]
fn a_path_is_connected() {
    let path = vec![(0.0, 0.0), (1.0, 0.0), (1.0, 2.0)];
    let annotation = Annotation::Freehand { points: path, style: BRUSH };
    assert_eq!(
        lines(&shape(&annotation)),
        [((0.0, 0.0), (1.0, 0.0)), ((1.0, 0.0), (1.0, 2.0))]
    );
    assert!(marks(&Shape::Path::<Point>(Vec::new())).is_empty());
}

#[test]
fn a_frame_is_closed() {
    let annotation = Annotation::Rectangle { start: (1.0, 2.0), end: (5.0, 9.0), style: BRUSH };
    assert_eq!(
        lines(&shape(&annotation)),
        [
            ((1.0, 2.0), (5.0, 2.0)),
            ((5.0, 2.0), (5.0, 9.0)),
            ((5.0, 9.0), (1.0, 9.0)),
            ((1.0, 9.0), (1.0, 2.0)),
        ]
    );
}

#[test]
fn preview_scales() {
    assert_eq!(preview_scale(None), 1);
    assert_eq!(preview_scale(Some(0)), 1);
    assert_eq!(preview_scale(Some(-3)), 1);
    assert_eq!(preview_scale(Some(2)), 2);
}

#[test]
fn preview_sizes() {
    assert_eq!(preview_size((1920, 1081), 1), (1920, 1081));
    assert_eq!(preview_size((1921, 1080), 2), (961, 540));
    assert_eq!(preview_size((100, 101), 3), (33, 34));
    assert_eq!(preview_size((0, 1), 4), (1, 1));
    assert_eq!(preview_size((u32::MAX, 3), 1), (i32::MAX, 3));
}

#[test]
fn preview_sizes_round_like_floating_point() {
    for scale in 1..8 {
        for length in [0u32, 1, 2, 3, 5, 7, 767, 1079, 4320, 65_537, u32::MAX - 1, u32::MAX] {
            let expected = ((length as f64 / scale as f64).round() as i32).max(1);
            assert_eq!(preview_size((length, length), scale), (expected, expected));
        }
    }
}

#[test]
fn window_sizes() {
    assert_eq!(content_size((800, 600), 500, 46), (800, 646));
    assert_eq!(content_size((40, 30), 500, 46), (500, 76));
    assert_eq!(content_size((40, i32::MAX), 1, 46), (40, i32::MAX));
    assert_eq!(content_size((40, i32::MIN), 1, -1), (40, i32::MIN));
}

#[test]
fn corners_of_a_frame() {
    let sorted = ((2.0, 3.0), (9.0, 8.0));
    assert_eq!(corners((2.0, 3.0), (9.0, 8.0), &f64::min, &f64::max), sorted);
    assert_eq!(corners((9.0, 8.0), (2.0, 3.0), &f64::min, &f64::max), sorted);
    assert_eq!(corners((2.0, 8.0), (9.0, 3.0), &f64::min, &f64::max), sorted);
    assert_eq!(corners((9.0, 3.0), (2.0, 8.0), &f64::min, &f64::max), sorted);
}

#[test]
fn points_stay_inside() {
    let inside = |point: &Point| (0.0..=10.0).contains(&point.0) && (0.0..=5.0).contains(&point.1);
    let mut editor = editor();
    for round in 0..4 {
        let tool = if round % 2 == 0 { Tool::Pen } else { Tool::Rectangle };
        editor.select_tool(tool);
        editor.begin_drag((0.0, 5.0));
        editor.update_drag((10.0, f64::from(round)));
        if round == 2 {
            editor.undo();
            editor.update_drag((3.0, 4.0));
        }
        for annotation in editor.annotations() {
            assert!(points(annotation).iter().all(inside));
        }
    }
}
