use screenink::picture::Picture;
use screenink::raster::{draw_line, paint_circle, render_strokes, Color, Stroke};

const RED: Color = Color { red: 230, green: 5, blue: 5 };
const BLUE: Color = Color { red: 1, green: 2, blue: 250 };
const GREY: [u8; 4] = [9, 9, 9, 7];

fn canvas(width: u32, height: u32) -> Picture {
    let mut bytes = Vec::new();
    for _ in 0..width * height {
        bytes.extend_from_slice(&GREY);
    }
    Picture::from_rgba8(width, height, bytes).unwrap()
}

fn map(picture: Picture, legend: &[(char, [u8; 4])]) -> Vec<String> {
    let (width, _) = picture.dimensions();
    let bytes = picture.into_rgba8();
    bytes
        .chunks(4 * width as usize)
        .map(|row| {
            row.chunks(4)
                .map(|pixel| {
                    legend
                        .iter()
                        .find(|(_, color)| color == pixel)
                        .map_or('?', |(mark, _)| *mark)
                })
                .collect()
        })
        .collect()
}

fn shown(picture: Picture) -> Vec<String> {
    map(
        picture,
        &[
            ('.', GREY),
            ('r', [230, 5, 5, 255]),
            ('b', [1, 2, 250, 255]),
        ],
    )
}

#[test]
fn bytes_go_in_and_come_out() {
    let bytes: Vec<u8> = (0..24).collect();
    let picture = Picture::from_rgba8(3, 2, bytes.clone()).unwrap();
    assert_eq!(picture.dimensions(), (3, 2));
    assert_eq!(picture.into_rgba8(), bytes);
}

#[test]
fn surplus_bytes_are_left_out() {
    let picture = Picture::from_rgba8(1, 1, vec![1, 2, 3, 4, 5, 6]).unwrap();
    assert_eq!(picture.into_rgba8(), vec![1, 2, 3, 4]);
}

#[test]
fn too_few_bytes_make_no_picture() {
    assert!(Picture::from_rgba8(2, 2, vec![0; 15]).is_none());
    assert!(Picture::from_rgba8(u32::MAX, u32::MAX, vec![0; 16]).is_none());
    assert!(Picture::from_rgba8(0, 7, Vec::new()).is_some());
}

#[test]
fn disc_of_radius_two() {
    let mut picture = canvas(7, 7);
    paint_circle(&mut picture, 3, 3, 2, RED);
    assert_eq!(
        shown(picture),
        ["....... ", "...r...", "..rrr..", ".rrrrr.", "..rrr..", "...r...", "......."]
            .map(|row| row.trim().to_string())
    );
}

#[test]
fn disc_is_clipped_at_the_edges() {
    let mut picture = canvas(3, 2);
    paint_circle(&mut picture, -1, 0, 2, RED);
    assert_eq!(shown(picture), ["rr.", "r.."]);
    let mut picture = canvas(3, 2);
    paint_circle(&mut picture, 100, 100, 5, RED);
    assert_eq!(shown(picture), ["...", "..."]);
}

#[test]
fn extreme_discs() {
    let mut picture = canvas(2, 2);
    paint_circle(&mut picture, 0, 0, -1, RED);
    paint_circle(&mut picture, i32::MIN, i32::MAX, 10, RED);
    assert_eq!(shown(picture), ["..", ".."]);
    let mut picture = canvas(2, 2);
    paint_circle(&mut picture, 1, 0, 0, RED);
    assert_eq!(shown(picture), [".r", ".."]);
    let mut picture = canvas(2, 2);
    paint_circle(&mut picture, 0, 0, i32::MAX, RED);
    assert_eq!(shown(picture), ["rr", "rr"]);
}

#[test]
fn painting_a_disc_twice_is_painting_it_once() {
    let mut once = canvas(9, 9);
    paint_circle(&mut once, 4, 5, 3, RED);
    let mut twice = canvas(9, 9);
    paint_circle(&mut twice, 4, 5, 3, RED);
    paint_circle(&mut twice, 4, 5, 3, RED);
    assert_eq!(once.into_rgba8(), twice.into_rgba8());
}

#[test]
fn line_paints_around_every_centre() {
    let mut picture = canvas(6, 3);
    draw_line(&mut picture, &vec![(1, 1), (2, 1), (3, 1)], 1, RED);
    assert_eq!(shown(picture), [".rrr..", "rrrrr.", ".rrr.."]);
    let mut picture = canvas(2, 1);
    draw_line(&mut picture, &Vec::new(), 5, RED);
    assert_eq!(shown(picture), [".."]);
}

fn stroke(lines: Vec<Vec<(i32, i32)>>, radius: i32, color: Color) -> Stroke {
    Stroke { lines, radius, color }
}

#[test]
fn later_strokes_cover_earlier_ones() {
    let source = canvas(5, 1);
    let strokes = vec![
        stroke(vec![vec![(0, 0), (1, 0), (2, 0)]], 0, RED),
        stroke(vec![vec![(2, 0)], vec![(3, 0)]], 0, BLUE),
    ];
    let result = render_strokes(&source, &strokes);
    assert_eq!(shown(result), ["rrbb."]);
    assert_eq!(shown(source), ["....."]);
}

#[test]
fn no_strokes_no_change() {
    let source = canvas(4, 4);
    let result = render_strokes(&source, &Vec::new());
    assert_eq!(result.dimensions(), (4, 4));
    assert_eq!(result.into_rgba8(), source.into_rgba8());
}

#[test]
fn rendering_in_two_rounds() {
    let first = vec![stroke(vec![vec![(1, 1)]], 1, RED)];
    let second = vec![stroke(vec![vec![(2, 2)]], 1, BLUE)];
    let two_rounds = render_strokes(&render_strokes(&canvas(4, 4), &first), &second);
    let both = vec![
        stroke(vec![vec![(1, 1)]], 1, RED),
        stroke(vec![vec![(2, 2)]], 1, BLUE),
    ];
    let one_round = render_strokes(&canvas(4, 4), &both);
    assert_eq!(two_rounds.into_rgba8(), one_round.into_rgba8());
}

#[test]
fn png_of_an_annotated_picture() {
    let source = canvas(5, 4);
    let strokes = vec![stroke(vec![vec![(2, 1)]], 1, RED)];
    let png = render_strokes(&source, &strokes).to_png().unwrap();
    let decoded = image::load_from_memory_with_format(&png, image::ImageFormat::Png)
        .unwrap()
        .to_rgba8();
    assert_eq!(decoded.dimensions(), (5, 4));
    assert_eq!(
        decoded.into_raw(),
        render_strokes(&source, &strokes).into_rgba8()
    );
}

#[test]
fn png_of_a_preview() {
    let bytes: Vec<u8> = (0..16).collect();
    let picture = Picture::from_rgba8(2, 2, bytes.clone()).unwrap();
    let png = picture.to_png().unwrap();
    assert_eq!(&png[..8], &[0x89, b'P', b'N', b'G', 13, 10, 26, 10]);
    let decoded = image::load_from_memory(&png).unwrap().to_rgba8();
    assert_eq!(decoded.into_raw(), bytes);
}

#[test]
fn an_empty_picture_has_no_png() {
    let picture = Picture::from_rgba8(0, 0, Vec::new()).unwrap();
    assert!(picture.to_png().is_err());
}
