use screenink::editor::{Annotation, Brush, Editor, Tool};
use screenink::ink::{ink, line_centers, place_shape, render_annotations, stroke_of};
use screenink::outline::{Mark, Shape};
use screenink::picture::Picture;
use screenink::raster::{render_strokes, Color, Stroke};
use screenink::saving::{annotated_file_created, SaveStep};

type Point = (f64, f64);

const BRUSH: Brush<f64> = Brush { red: 0.9, green: 0.02, blue: 0.02, width: 5.0 };

fn corners(start: Point, end: Point) -> (Point, Point) {
    (
        (start.0.min(end.0), start.1.min(end.1)),
        (start.0.max(end.0), start.1.max(end.1)),
    )
}

fn pixel(point: Point) -> (i32, i32) {
    (point.0.round() as i32, point.1.round() as i32)
}

fn sample(mark: Mark<Point>) -> Vec<(i32, i32)> {
    match mark {
        Mark::Dot(point) => vec![pixel(point)],
        Mark::Line(start, end) => {
            let (dx, dy) = (end.0 - start.0, end.1 - start.1);
            let steps = dx.abs().max(dy.abs()).max(1.0) as i32;
            line_centers(steps, &|step| {
                let t = step as f64 / steps as f64;
                pixel((start.0 + dx * t, start.1 + dy * t))
            })
        }
    }
}

fn color(brush: Brush<f64>) -> Color {
    let channel = |value: f64| (value * 255.0).round() as u8;
    Color { red: channel(brush.red), green: channel(brush.green), blue: channel(brush.blue) }
}

fn strokes(annotations: &Vec<Annotation<Point, f64>>, scale: f64) -> Vec<Stroke> {
    let grow = |point: Point| (point.0 * scale, point.1 * scale);
    let pen = |brush: Brush<f64>| ((brush.width * scale / 2.0).ceil() as i32, color(brush));
    ink(annotations, &grow, &corners, &sample, &pen)
}

fn render(source: &Picture, annotations: &Vec<Annotation<Point, f64>>, scale: f64) -> Picture {
    let grow = |point: Point| (point.0 * scale, point.1 * scale);
    let pen = |brush: Brush<f64>| ((brush.width * scale / 2.0).ceil() as i32, color(brush));
    render_annotations(source, annotations, &grow, &corners, &sample, &pen)
}

fn blank(width: u32, height: u32) -> Picture {
    Picture::from_rgba8(width, height, vec![0; (4 * width * height) as usize]).unwrap()
}

#[test]
fn centres_of_a_line() {
    assert_eq!(line_centers(2, &|step| (step, 10 * step)), [(0, 0), (1, 10), (2, 20)]);
    assert_eq!(line_centers(0, &|step| (step, 7)), [(0, 7)]);
    assert!(line_centers(-1, &|step| (step, 7)).is_empty());
}

#[test]
fn placing_shapes() {
    let grow = |point: Point| (point.0 * 2.0, point.1 * 3.0);
    match place_shape(Shape::Frame((5.0, 1.0), (2.0, 4.0)), &grow, &corners) {
        Shape::Frame(top_left, bottom_right) => {
            assert_eq!(top_left, (4.0, 3.0));
            assert_eq!(bottom_right, (10.0, 12.0));
        }
        _ => panic!("no frame"),
    }
    match place_shape(Shape::Path(vec![(1.0, 1.0), (2.0, 2.0)]), &grow, &corners) {
        Shape::Path(points) => assert_eq!(points, [(2.0, 3.0), (4.0, 6.0)]),
        _ => panic!("no path"),
    }
    match place_shape(Shape::Dot((1.0, 1.0)), &grow, &corners) {
        Shape::Dot(point) => assert_eq!(point, (2.0, 3.0)),
        _ => panic!("no dot"),
    }
    assert!(matches!(place_shape(Shape::Empty, &grow, &corners), Shape::Empty));
}

#[test]
fn a_dot_is_one_disc() {
    let dot = Annotation::Freehand { points: vec![(3.4, 2.6)], style: BRUSH };
    let grow = |point: Point| point;
    let pen = |brush: Brush<f64>| ((brush.width / 2.0).ceil() as i32, color(brush));
    let stroke = stroke_of(&dot, &grow, &corners, &sample, &pen);
    assert_eq!(stroke.lines, [[(3, 3)]]);
    assert_eq!(stroke.radius, 3);
    assert_eq!(stroke.color, Color { red: 230, green: 5, blue: 5 });
}

#[test]
fn lines_for_every_step() {
    let mut editor = Editor::new(BRUSH);
    for x in 0..4 {
        if x == 0 {
            editor.begin_drag((0.0, 0.0));
        } else {
            editor.update_drag((x as f64, 0.0));
        }
    }
    editor.select_tool(Tool::Rectangle);
    editor.begin_drag((1.0, 1.0));
    editor.update_drag((4.0, 4.0));
    let strokes = strokes(editor.annotations(), 1.0);
    assert_eq!(strokes.len(), 2);
    assert_eq!(strokes[0].lines.len(), 3);
    assert_eq!(strokes[1].lines.len(), 4);
    assert_eq!(strokes[1].lines[0], [(1, 1), (2, 1), (3, 1), (4, 1)]);
    assert_eq!(strokes[1].lines[2], [(4, 4), (3, 4), (2, 4), (1, 4)]);
}

fn paint(image: &mut image::RgbaImage, center: (i32, i32), radius: i32, brush: Brush<f64>) {
    let color = color(brush);
    for y in (center.1 - radius)..=(center.1 + radius) {
        for x in (center.0 - radius)..=(center.0 + radius) {
            if x >= 0
                && y >= 0
                && (x as u32) < image.width()
                && (y as u32) < image.height()
                && (x - center.0).pow(2) + (y - center.1).pow(2) <= radius.pow(2)
            {
                let pixel = image::Rgba([color.red, color.green, color.blue, 255]);
                image.put_pixel(x as u32, y as u32, pixel);
            }
        }
    }
}

fn line(image: &mut image::RgbaImage, from: Point, to: Point, width: f64, brush: Brush<f64>) {
    let (dx, dy) = (to.0 - from.0, to.1 - from.1);
    let steps = dx.abs().max(dy.abs()).max(1.0) as i32;
    for step in 0..=steps {
        let t = step as f64 / steps as f64;
        let center = pixel((from.0 + dx * t, from.1 + dy * t));
        paint(image, center, (width / 2.0).ceil() as i32, brush);
    }
}

#[test]
fn rendering_agrees_with_painting_by_hand() {
    let wide = Brush { red: 0.1, green: 0.7, blue: 1.0, width: 2.0 };
    let annotations = vec![
        Annotation::Freehand { points: vec![(2.0, 3.0), (18.5, 4.25), (9.0, 14.0)], style: BRUSH },
        Annotation::Rectangle { start: (17.0, 12.0), end: (3.5, 1.5), style: wide },
        Annotation::Freehand { points: vec![(10.2, 7.7)], style: wide },
    ];
    for scale in [1.0, 2.0] {
        let mut expected = image::RgbaImage::new(40, 30);
        let grow = |point: Point| (point.0 * scale, point.1 * scale);
        let path = [(2.0, 3.0), (18.5, 4.25), (9.0, 14.0)].map(grow);
        line(&mut expected, path[0], path[1], 5.0 * scale, BRUSH);
        line(&mut expected, path[1], path[2], 5.0 * scale, BRUSH);
        let [a, b, c, d] = [(3.5, 1.5), (17.0, 1.5), (17.0, 12.0), (3.5, 12.0)].map(grow);
        line(&mut expected, a, b, 2.0 * scale, wide);
        line(&mut expected, b, c, 2.0 * scale, wide);
        line(&mut expected, c, d, 2.0 * scale, wide);
        line(&mut expected, d, a, 2.0 * scale, wide);
        let dot = pixel(grow((10.2, 7.7)));
        paint(&mut expected, dot, (2.0 * scale / 2.0_f64).ceil() as i32, wide);

        let rendered = render(&blank(40, 30), &annotations, scale);
        assert_eq!(rendered.into_rgba8(), expected.into_raw());
    }
}

#[test]
fn undo_takes_the_last_ink_away() {
    let mut editor = Editor::new(BRUSH);
    editor.begin_drag((3.0, 3.0));
    editor.update_drag((9.0, 5.0));
    let before = render(&blank(20, 20), editor.annotations(), 1.0);
    editor.select_tool(Tool::Rectangle);
    editor.begin_drag((4.0, 4.0));
    editor.update_drag((15.0, 12.0));
    let last = strokes(editor.annotations(), 1.0).pop().unwrap();
    let with_both = render(&blank(20, 20), editor.annotations(), 1.0);
    let over = render_strokes(&before, &vec![last]);
    assert_eq!(over.into_rgba8(), with_both.into_rgba8());
    editor.undo();
    let after = render(&blank(20, 20), editor.annotations(), 1.0);
    assert_eq!(after.into_rgba8(), before.into_rgba8());
}

fn mixed() -> Vec<Annotation<Point, f64>> {
    let thin = Brush { red: 0.2, green: 0.4, blue: 0.6, width: 2.0 };
    vec![
        Annotation::Freehand { points: vec![(2.0, 3.0), (8.0, 5.5)], style: BRUSH },
        Annotation::Rectangle { start: (9.0, 8.0), end: (3.0, 2.0), style: thin },
        Annotation::Freehand { points: vec![(5.0, 5.0)], style: thin },
        Annotation::Rectangle { start: (4.0, 1.0), end: (7.0, 6.0), style: BRUSH },
    ]
}

#[test]
fn annotations_in_two_rounds() {
    let at_once = render(&blank(25, 20), &mixed(), 2.0);
    let mut first = mixed();
    let second = first.split_off(2);
    let below = render(&blank(25, 20), &first, 2.0);
    assert_eq!(render(&below, &second, 2.0).into_rgba8(), at_once.into_rgba8());
}

#[test]
fn direction_of_a_rectangle() {
    let framed = |start: Point, end: Point| {
        let rectangle = Annotation::Rectangle { start, end, style: BRUSH };
        render(&blank(20, 20), &vec![rectangle], 1.5).into_rgba8()
    };
    let down_right = framed((2.0, 3.0), (9.0, 8.0));
    assert_ne!(down_right, vec![0; 4 * 20 * 20]);
    assert_eq!(framed((9.0, 8.0), (2.0, 3.0)), down_right);
    assert_eq!(framed((2.0, 8.0), (9.0, 3.0)), down_right);
    assert_eq!(framed((9.0, 3.0), (2.0, 8.0)), down_right);
}

#[test]
fn scaling_the_annotations_instead() {
    let scale = 2.5;
    let point = |at: Point| (at.0 * scale, at.1 * scale);
    let brush = |style: Brush<f64>| Brush { width: style.width * scale, ..style };
    let scaled: Vec<Annotation<Point, f64>> = mixed()
        .into_iter()
        .map(|annotation| match annotation {
            Annotation::Freehand { points, style } => Annotation::Freehand {
                points: points.into_iter().map(point).collect(),
                style: brush(style),
            },
            Annotation::Rectangle { start, end, style } => Annotation::Rectangle {
                start: point(start),
                end: point(end),
                style: brush(style),
            },
        })
        .collect();
    let at_scale = render(&blank(30, 25), &mixed(), scale).into_rgba8();
    assert_ne!(at_scale, render(&blank(30, 25), &mixed(), 1.0).into_rgba8());
    assert_eq!(render(&blank(30, 25), &scaled, 1.0).into_rgba8(), at_scale);
}

#[test]
fn the_saved_file_holds_the_annotated_picture() {
    let grow = |point: Point| (point.0 * 2.0, point.1 * 2.0);
    let pen = |brush: Brush<f64>| (brush.width.ceil() as i32, color(brush));
    let save = |created: Result<(), String>| {
        let path = b"/out/a.png".to_vec();
        let source = blank(25, 20);
        annotated_file_created(created, path, &source, &mixed(), &grow, &corners, &sample, &pen)
    };
    let SaveStep::WriteFile { path, bytes } = save(Ok(())) else {
        panic!("nothing written");
    };
    assert_eq!(path, b"/out/a.png");
    let saved = image::load_from_memory(&bytes).unwrap().to_rgba8();
    assert_eq!(saved.into_raw(), render(&blank(25, 20), &mixed(), 2.0).into_rgba8());
    match save(Err("e".to_string())) {
        SaveStep::Failed(failure) => assert_eq!(failure.message(), "Could not save PNG: e"),
        _ => panic!("the save went on"),
    }
}
