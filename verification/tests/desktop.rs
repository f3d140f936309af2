use screenink::desktop::{
    connected_monitors, crop_monitor_image, decode_screen, find_bits_per_pixel, find_visual,
    image_received, image_requested, image_saved, server_reached, x11_channel, MonitorGeometry,
    PixmapFormat, ScreenImage, ScreenStep, Visual,
};
use screenink::failure::Failure;
use screenink::picture::Picture;
use screenink::selection::{
    selection_timeout, selection_title, Dismissal, SelectionEvent, SelectionLatch, SelectionState,
};

const TRUE_COLOR: Visual =
    Visual { id: 33, red_mask: 0xff0000, green_mask: 0x00ff00, blue_mask: 0x0000ff };
const HIGH_COLOR: Visual =
    Visual { id: 34, red_mask: 0xf800, green_mask: 0x07e0, blue_mask: 0x001f };

#[test]
fn channels() {
    assert_eq!(x11_channel(0x123456, 0xff0000), 0x12);
    assert_eq!(x11_channel(0x123456, 0x00ff00), 0x34);
    assert_eq!(x11_channel(0xf800, 0xf800), 255);
    assert_eq!(x11_channel(0x07ff, 0xf800), 0);
    assert_eq!(x11_channel(0x8000, 0xf800), 131);
    assert_eq!(x11_channel(0x8000_0000, 0x8000_0000), 255);
}

#[test]
fn first_matching_visual() {
    let other = Visual { id: 33, red_mask: 1, green_mask: 2, blue_mask: 4 };
    let visuals = vec![HIGH_COLOR, TRUE_COLOR, other];
    assert_eq!(find_visual(&visuals, 33).unwrap(), TRUE_COLOR);
    assert!(matches!(find_visual(&visuals, 35), Err(Failure::X11Visual)));
}

#[test]
fn first_matching_format() {
    let formats = vec![
        PixmapFormat { depth: 1, bits_per_pixel: 1 },
        PixmapFormat { depth: 24, bits_per_pixel: 32 },
        PixmapFormat { depth: 24, bits_per_pixel: 24 },
    ];
    assert_eq!(find_bits_per_pixel(&formats, 24).unwrap(), 32);
    assert!(matches!(find_bits_per_pixel(&formats, 16), Err(Failure::X11PixelFormat)));
}

#[test]
fn decoding_with_padded_rows() {
    let screen = ScreenImage {
        data: vec![0x56, 0x34, 0x12, 0, 1, 2, 3, 0, 99, 99, 4, 5, 6, 0, 7, 8, 9, 0, 99, 99],
        width: 2,
        height: 2,
        bits_per_pixel: 32,
        visual: TRUE_COLOR,
    };
    let picture = decode_screen(&screen);
    assert_eq!(picture.dimensions(), (2, 2));
    assert_eq!(
        picture.into_rgba8(),
        [0x12, 0x34, 0x56, 255, 3, 2, 1, 255, 6, 5, 4, 255, 9, 8, 7, 255]
    );
}

#[test]
fn decoding_high_color() {
    let screen = ScreenImage {
        data: vec![0x00, 0xf8, 0x1f, 0x00],
        width: 2,
        height: 1,
        bits_per_pixel: 15,
        visual: HIGH_COLOR,
    };
    assert_eq!(decode_screen(&screen).into_rgba8(), [255, 0, 0, 255, 0, 0, 255, 255]);
}

fn monitor(x: i32, y: i32, width: u32, height: u32) -> MonitorGeometry {
    MonitorGeometry { x, y, width, height }
}

#[test]
fn monitors() {
    let left = monitor(0, 0, 1920, 1080);
    let right = monitor(1920, 0, 1280, 1024);
    let reported = vec![left, monitor(5, 5, 0, 7), right, monitor(5, 5, 7, 0)];
    assert_eq!(connected_monitors(Some(reported), 10, 20), [left, right]);
    assert_eq!(connected_monitors(None, 10, 20), [monitor(0, 0, 10, 20)]);
    let hidden = vec![monitor(1, 1, 0, 0)];
    assert_eq!(connected_monitors(Some(hidden), 10, 20), [MonitorGeometry::fallback(10, 20)]);
}

fn numbered(width: u32, height: u32) -> Picture {
    let mut bytes = Vec::new();
    for y in 0..height {
        for x in 0..width {
            bytes.extend_from_slice(&[x as u8, y as u8, 0, 255]);
        }
    }
    Picture::from_rgba8(width, height, bytes).unwrap()
}

#[test]
fn cutting_out_a_monitor() {
    let source = numbered(4, 3);
    let part = crop_monitor_image(&source, monitor(1, 1, 2, 2));
    assert_eq!(part.dimensions(), (2, 2));
    assert_eq!(
        part.into_rgba8(),
        [1, 1, 0, 255, 2, 1, 0, 255, 1, 2, 0, 255, 2, 2, 0, 255]
    );
    let part = crop_monitor_image(&source, monitor(2, -5, 100, 1));
    assert_eq!(part.dimensions(), (2, 1));
    assert_eq!(part.into_rgba8(), [2, 0, 0, 255, 3, 0, 0, 255]);
    let part = crop_monitor_image(&source, monitor(50, 50, 9, 9));
    assert_eq!(part.into_rgba8(), [3, 2, 0, 255]);
    let part = crop_monitor_image(&source, monitor(0, 0, 0, 0));
    assert_eq!(part.dimensions(), (1, 1));
    let part = crop_monitor_image(&numbered(0, 0), monitor(1, 1, 2, 2));
    assert_eq!(part.dimensions(), (0, 0));
}

#[test]
fn dragging_out_an_area() {
    let mut state: SelectionState<(f64, f64)> = SelectionState::default();
    assert!(!state.drag_to((1.0, 1.0)));
    assert_eq!(state.current, None);
    state.begin((2.0, 3.0));
    assert!(state.drag_to((4.0, 5.0)));
    assert_eq!(state.start, Some((2.0, 3.0)));
    assert_eq!(state.current, Some((4.0, 5.0)));
}

#[test]
fn overlays_close_once() {
    let mut latch = SelectionLatch::new();
    assert!(!latch.take(SelectionEvent::Expired { drag_begun: true }));
    assert!(!latch.take(SelectionEvent::Dragged { drag_begun: true, large_enough: false }));
    assert!(!latch.take(SelectionEvent::Dragged { drag_begun: false, large_enough: true }));
    assert!(latch.take(SelectionEvent::Dragged { drag_begun: true, large_enough: true }));
    assert!(!latch.take(SelectionEvent::Cancelled));
    assert!(!latch.take(SelectionEvent::Expired { drag_begun: false }));
    assert_eq!(latch.escape(), Dismissal::This);
    let mut latch = SelectionLatch::new();
    assert_eq!(latch.escape(), Dismissal::All);
    let mut latch = SelectionLatch::new();
    assert!(latch.take(SelectionEvent::Expired { drag_begun: false }));
}

#[test]
fn overlay_titles() {
    assert_eq!(selection_title(77, 1, 2), "ScreenInk Selection 77-1");
    assert_eq!(selection_title(77, 0, 1), "ScreenInk — Select an area");
}

fn screen_failure(step: ScreenStep) -> String {
    match step {
        ScreenStep::Failed(failure) => failure.message(),
        _ => panic!("the capture went on"),
    }
}

#[test]
fn a_screen_capture_takes_its_steps() {
    let visuals = vec![TRUE_COLOR, HIGH_COLOR];
    match server_reached(Ok(visuals.clone()), 34) {
        ScreenStep::RequestImage { visual } => assert_eq!(visual, HIGH_COLOR),
        _ => panic!("no request"),
    }
    assert!(matches!(image_requested(Ok(())), ScreenStep::ReceiveImage));
    let formats = vec![PixmapFormat { depth: 24, bits_per_pixel: 32 }];
    match image_received(Ok(24), &formats) {
        ScreenStep::SaveImage { bits_per_pixel } => assert_eq!(bits_per_pixel, 32),
        _ => panic!("nothing saved"),
    }
    match image_saved(Ok(()), b"/tmp/a.png".to_vec()) {
        ScreenStep::Done { path } => assert_eq!(path, b"/tmp/a.png"),
        _ => panic!("not done"),
    }
}

#[test]
fn a_screen_capture_ends_with_the_step_that_fails() {
    let error = || "e".to_string();
    assert_eq!(
        screen_failure(server_reached(Err(error()), 33)),
        "Could not connect to X11: e"
    );
    assert_eq!(
        screen_failure(server_reached(Ok(vec![TRUE_COLOR]), 34)),
        "Could not find the X11 root visual"
    );
    assert_eq!(
        screen_failure(image_requested(Err(error()))),
        "Could not request the X11 screen image: e"
    );
    assert_eq!(
        screen_failure(image_received(Err(error()), &Vec::new())),
        "Could not receive the X11 screen image: e"
    );
    assert_eq!(
        screen_failure(image_received(Ok(24), &Vec::new())),
        "Could not determine the X11 pixel format"
    );
    assert_eq!(
        screen_failure(image_saved(Err(error()), Vec::new())),
        "Could not save the X11 screen image: e"
    );
}

#[test]
fn a_screenshot_that_cannot_be_opened_leaves_the_selection() {
    let mut latch = SelectionLatch::new();
    assert!(latch.opens_screenshot(true, true));
    assert!(!latch.opens_screenshot(false, true));
    assert!(!latch.opens_screenshot(true, false));
    assert_eq!(
        latch.screenshot_opened(Err("e".to_string())),
        Some("Could not open the screenshot: e".to_string())
    );
    assert!(!latch.finished);
    assert_eq!(latch.screenshot_opened(Ok(())), None);
    assert!(latch.take(SelectionEvent::Dragged { drag_begun: true, large_enough: true }));
    assert!(!latch.opens_screenshot(true, true));
}

#[test]
fn selection_timeouts() {
    assert_eq!(selection_timeout(1), Some(45));
    assert_eq!(selection_timeout(2), None);
}
