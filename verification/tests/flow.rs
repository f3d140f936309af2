use screenink::command::{
    capture_argument, daemon_argument, is_capture_request, open_argument, service_command,
    ServiceCommand,
};
use screenink::failure::Failure;
use screenink::log::log_line;
use screenink::naming::Moment;
use screenink::picture::Picture;
use screenink::portal::{
    capture_delivered, capture_with_portal, deliver_capture_to_service, handoff_copied,
    portal_answered, portal_deadline, service_ensured, service_started, Delivery, HelperStep,
    PortalResponse, ServiceStart,
};
use screenink::saving::{
    begin_save, clipboard_searched, directory_made, file_created, file_read, file_written,
    picture_encoded, picture_published, SaveStep,
};

fn text(text: &str) -> String {
    text.to_string()
}

#[test]
fn messages() {
    let cases = [
        (Failure::Executable(text("e")), "Could not find ScreenInk executable: e"),
        (Failure::Service(text("e")), "Could not start the ScreenInk service: e"),
        (Failure::PortalRuntime(text("e")), "Could not start the portal runtime: e"),
        (Failure::PortalLocation, "The screenshot portal returned a non-local file"),
        (
            Failure::PortalTimeout(60),
            "The desktop screenshot portal timed out after 60 seconds",
        ),
        (Failure::Portal(text("e")), "The desktop screenshot portal failed: e"),
        (Failure::Handoff(text("e")), "Could not prepare the portal image for editing: e"),
        (Failure::Delivery(text("e")), "Could not send screenshot to ScreenInk: e"),
        (
            Failure::Rejection(text("exit status: 3")),
            "ScreenInk rejected the screenshot (exit status exit status: 3)",
        ),
        (Failure::Screenshot(text("e")), "Could not open the portal screenshot: e"),
        (
            Failure::OutputDirectory { directory: text("/a/b"), error: text("e") },
            "Could not create output directory /a/b: e",
        ),
        (Failure::Png(text("e")), "Could not save PNG: e"),
        (Failure::Display, "No graphical display is available"),
        (Failure::PngReading(text("e")), "Could not read saved PNG for clipboard: e"),
        (Failure::Clipboard(text("e")), "Could not place PNG in the clipboard: e"),
        (Failure::X11Connection(text("e")), "Could not connect to X11: e"),
        (Failure::X11Request(text("e")), "Could not request the X11 screen image: e"),
        (Failure::X11Reply(text("e")), "Could not receive the X11 screen image: e"),
        (Failure::X11Saving(text("e")), "Could not save the X11 screen image: e"),
        (Failure::Selection(text("e")), "Could not open the screenshot: e"),
        (Failure::X11Visual, "Could not find the X11 root visual"),
        (Failure::X11PixelFormat, "Could not determine the X11 pixel format"),
    ];
    for (failure, message) in cases {
        assert_eq!(failure.message(), message);
    }
}

#[test]
fn portal_outcomes() {
    assert_eq!(
        capture_with_portal(PortalResponse::Image { path: Some(b"/tmp/a.png".to_vec()) }).unwrap(),
        Some(b"/tmp/a.png".to_vec())
    );
    assert_eq!(capture_with_portal(PortalResponse::Cancelled).unwrap(), None);
    assert!(matches!(
        capture_with_portal(PortalResponse::Image { path: None }),
        Err(Failure::PortalLocation)
    ));
    assert!(matches!(
        capture_with_portal(PortalResponse::TimedOut(5)),
        Err(Failure::PortalTimeout(5))
    ));
    assert!(matches!(
        capture_with_portal(PortalResponse::Failed(text("x"))),
        Err(Failure::Portal(error)) if error == "x"
    ));
    assert!(matches!(
        capture_with_portal(PortalResponse::NoRuntime(text("x"))),
        Err(Failure::PortalRuntime(error)) if error == "x"
    ));
}

#[test]
fn no_timeout_waits_forever() {
    assert_eq!(portal_deadline(0), None);
    assert_eq!(portal_deadline(60), Some(60));
}

fn exit(step: HelperStep) -> (i32, Option<String>) {
    match step {
        HelperStep::Exit { code, message } => (code, message),
        _ => panic!("the helper goes on"),
    }
}

#[test]
fn helper_runs_through() {
    assert!(matches!(service_ensured(Ok(())), HelperStep::Capture));
    match portal_answered(PortalResponse::Image { path: Some(b"/x".to_vec()) }) {
        HelperStep::Copy { path } => assert_eq!(path, b"/x"),
        _ => panic!("no copy"),
    }
    match handoff_copied(Ok(b"/tmp/y".to_vec())) {
        HelperStep::Deliver { copy } => assert_eq!(copy, b"/tmp/y"),
        _ => panic!("no delivery"),
    }
    let delivery = Delivery::Ended { success: true, status: text("exit status: 0") };
    assert_eq!(exit(capture_delivered(delivery)), (0, None));
}

#[test]
fn helper_exits_quietly_when_cancelled() {
    assert_eq!(exit(portal_answered(PortalResponse::Cancelled)), (0, None));
}

#[test]
fn helper_tells_what_failed() {
    assert_eq!(
        exit(service_ensured(Err(Failure::Service(text("no"))))),
        (1, Some(text("Could not start the ScreenInk service: no")))
    );
    assert_eq!(
        exit(portal_answered(PortalResponse::TimedOut(12))),
        (1, Some(text("The desktop screenshot portal timed out after 12 seconds")))
    );
    assert_eq!(
        exit(handoff_copied(Err(text("no")))),
        (1, Some(text("Could not prepare the portal image for editing: no")))
    );
    let delivery = Delivery::Ended { success: false, status: text("signal: 9") };
    assert_eq!(
        exit(capture_delivered(delivery)),
        (1, Some(text("ScreenInk rejected the screenshot (exit status signal: 9)")))
    );
}

#[test]
fn starts_of_the_service() {
    assert!(service_started(ServiceStart::Started).is_ok());
    let start = service_started(ServiceStart::NoExecutable(text("x")));
    assert_eq!(start.unwrap_err().message(), "Could not find ScreenInk executable: x");
    let start = service_started(ServiceStart::NotStarted(text("x")));
    assert_eq!(start.unwrap_err().message(), "Could not start the ScreenInk service: x");
}

#[test]
fn deliveries() {
    assert!(matches!(
        deliver_capture_to_service(Delivery::NoExecutable(text("x"))),
        Err(Failure::Executable(_))
    ));
    assert!(matches!(
        deliver_capture_to_service(Delivery::NotSent(text("x"))),
        Err(Failure::Delivery(_))
    ));
    let delivery = Delivery::Ended { success: true, status: text("ok") };
    assert!(deliver_capture_to_service(delivery).is_ok());
}

const MOMENT: Moment = Moment { year: 2024, month: 2, day: 29, hour: 7, minute: 5, second: 9 };

fn picture(width: u32, height: u32) -> Picture {
    Picture::from_rgba8(width, height, vec![8; (4 * width * height) as usize]).unwrap()
}

#[test]
fn a_save_takes_its_steps_in_order() {
    let output_dir = b"/out".to_vec();
    match begin_save(&output_dir) {
        SaveStep::CreateDirectory { path } => assert_eq!(path, b"/out"),
        _ => panic!("no directory"),
    }
    let saved = picture(3, 3);
    let step = directory_made(Ok(()), text("/out"), &output_dir, MOMENT);
    let SaveStep::CreateFile { path } = step else {
        panic!("no file");
    };
    assert_eq!(path, b"/out/screenink-2024-02-29_07-05-09.png");
    let SaveStep::WriteFile { path, bytes } = file_created(Ok(()), path, &saved) else {
        panic!("nothing written");
    };
    assert_eq!(path, b"/out/screenink-2024-02-29_07-05-09.png");
    assert_eq!(bytes, saved.to_png().unwrap());
    let SaveStep::FindClipboard { path } = file_written(Ok(()), path) else {
        panic!("no search");
    };
    let SaveStep::ReadFile { path } = clipboard_searched(true, path) else {
        panic!("nothing read");
    };
    assert_eq!(path, b"/out/screenink-2024-02-29_07-05-09.png");
    let SaveStep::Publish { bytes: published } = file_read(Ok(bytes.clone())) else {
        panic!("nothing published");
    };
    assert_eq!(published, bytes);
    assert!(matches!(picture_published(Ok(())), SaveStep::Done));
}

fn failure(step: SaveStep) -> String {
    match step {
        SaveStep::Failed(failure) => failure.message(),
        _ => panic!("the save went on"),
    }
}

#[test]
fn a_save_ends_with_the_step_that_fails() {
    let error = || Err(text("e"));
    let output_dir = b"/out".to_vec();
    let step = directory_made(error(), text("/out"), &output_dir, MOMENT);
    assert_eq!(failure(step), "Could not create output directory /out: e");
    let step = file_created(error(), Vec::new(), &picture(1, 1));
    assert_eq!(failure(step), "Could not save PNG: e");
    let step = file_created(Ok(()), Vec::new(), &picture(0, 0));
    assert!(failure(step).starts_with("Could not save PNG: "));
    let step = picture_encoded(Err(text("e")), Vec::new());
    assert_eq!(failure(step), "Could not save PNG: e");
    assert_eq!(failure(file_written(error(), Vec::new())), "Could not save PNG: e");
    assert_eq!(
        failure(clipboard_searched(false, Vec::new())),
        "No graphical display is available"
    );
    assert_eq!(
        failure(file_read(Err(text("e")))),
        "Could not read saved PNG for clipboard: e"
    );
    assert_eq!(
        failure(picture_published(error())),
        "Could not place PNG in the clipboard: e"
    );
}

fn line(arguments: &[&str]) -> Vec<String> {
    arguments.iter().map(|argument| text(argument)).collect()
}

#[test]
fn capture_requests() {
    assert!(is_capture_request(&line(&["screenink", "--capture"])));
    assert!(is_capture_request(&line(&["screenink", "--capture", "more"])));
    assert!(!is_capture_request(&line(&["--capture"])));
    assert!(!is_capture_request(&line(&["screenink", "--daemon", "--capture"])));
    assert!(!is_capture_request(&line(&[])));
}

#[test]
fn service_commands() {
    let daemon = line(&["screenink", "--daemon"]);
    assert!(matches!(service_command(&daemon), ServiceCommand::Activate));
    match service_command(&line(&["screenink", "--open", "/tmp/a b.png"])) {
        ServiceCommand::Open { path } => assert_eq!(path, "/tmp/a b.png"),
        _ => panic!("not opened"),
    }
    assert!(matches!(service_command(&line(&["screenink"])), ServiceCommand::StartCapture));
    assert!(matches!(service_command(&line(&[])), ServiceCommand::StartCapture));
    for arguments in [
        &["screenink", "--open"][..],
        &["screenink", "--daemon", "x"],
        &["screenink", "--open", "a", "b"],
        &["screenink", "a.png"],
    ] {
        assert!(matches!(service_command(&line(arguments)), ServiceCommand::Unsupported));
    }
}

#[test]
fn own_commands_are_understood() {
    let started = line(&["screenink", daemon_argument()]);
    assert!(matches!(service_command(&started), ServiceCommand::Activate));
    assert!(!is_capture_request(&started));
    let sent = line(&["screenink", open_argument(), "/tmp/x.png"]);
    match service_command(&sent) {
        ServiceCommand::Open { path } => assert_eq!(path, "/tmp/x.png"),
        _ => panic!("not opened"),
    }
    assert!(!is_capture_request(&sent));
    assert!(is_capture_request(&line(&["screenink", capture_argument()])));
}

#[test]
fn lines_of_the_log() {
    assert_eq!(log_line(MOMENT, 42, "x: y"), "2024-02-29 07:05:09.042 x: y\n");
    assert_eq!(log_line(MOMENT, 999, ""), "2024-02-29 07:05:09.999 \n");
    let ancient = Moment { year: -5, ..MOMENT };
    assert_eq!(
        log_line(Moment { day: 28, ..ancient }, 0, "a\nb"),
        "-0005-02-28 07:05:09.000 a\nb\n"
    );
    let far = Moment { year: 12_024, month: 12, day: 31, hour: 23, minute: 59, second: 59 };
    assert_eq!(log_line(far, 5, "m"), "+12024-12-31 23:59:59.005 m\n");
}
