use screenink::config::{load_config, Config, FileConfig};
use screenink::naming::{
    capture_file_name, capture_path, handoff_path, handoff_suffix, temporary_capture_path, Moment,
};
use screenink::paths::{
    application_dir, config_path, default_output_dir, join_file, join_path, log_path,
};
use screenink::text::{decimal_text, signed_decimal_text};

fn bytes(text: &str) -> Vec<u8> {
    text.as_bytes().to_vec()
}

#[test]
fn numbers_as_text() {
    for value in [0, 7, 10, 99, 1000, 18_446_744_073_709_551_615] {
        assert_eq!(decimal_text(value), value.to_string());
    }
    for value in [0, 5, -1, -10, i64::MAX, i64::MIN] {
        assert_eq!(signed_decimal_text(value), value.to_string());
    }
}

#[test]
fn joining_agrees_with_the_standard_library() {
    for directory in ["", ".", "/", "/home/u", "/home/u/", "relative"] {
        for name in ["", "x", "/x", "a/b", "./c"] {
            let expected = std::path::Path::new(directory).join(name);
            assert_eq!(
                join_path(&bytes(directory), &bytes(name)),
                expected.to_str().unwrap().as_bytes()
            );
        }
    }
    assert_eq!(join_file(&vec![0xff, 0xfe], "x"), [0xff, 0xfe, b'/', b'x']);
}

#[test]
fn files_beside_the_executable() {
    assert_eq!(application_dir(None), b".");
    assert_eq!(application_dir(Some(bytes("/opt/ink"))), b"/opt/ink");
    assert_eq!(log_path(Some(bytes("/opt/ink"))), b"/opt/ink/screenink.log");
    assert_eq!(log_path(None), b"./screenink.log");
    assert_eq!(config_path(Some(bytes("/opt/ink/"))), b"/opt/ink/config.toml");
}

#[test]
fn standard_settings() {
    assert_eq!(default_output_dir(None), b"./Screenshots");
    let config = Config::standard(Some(bytes("/home/u/Pictures")));
    assert_eq!(config.output_dir, b"/home/u/Pictures/Screenshots");
    assert_eq!(config.portal_timeout_seconds, 60);
}

#[test]
fn settings_from_the_file_win() {
    let pictures = || Some(bytes("/p"));
    let config = load_config(None, pictures());
    assert_eq!(config.output_dir, b"/p/Screenshots");
    assert_eq!(config.portal_timeout_seconds, 60);
    let file = FileConfig { output_dir: Some(bytes("/out")), portal_timeout_seconds: None };
    let config = load_config(Some(file), pictures());
    assert_eq!(config.output_dir, b"/out");
    assert_eq!(config.portal_timeout_seconds, 60);
    let file = FileConfig { output_dir: None, portal_timeout_seconds: Some(0) };
    let config = load_config(Some(file), pictures());
    assert_eq!(config.output_dir, b"/p/Screenshots");
    assert_eq!(config.portal_timeout_seconds, 0);
}

fn moment(year: i32, month: u32, day: u32, hour: u32, minute: u32, second: u32) -> Moment {
    Moment { year, month, day, hour, minute, second }
}

#[test]
fn picture_names() {
    assert_eq!(
        capture_file_name(moment(2024, 2, 29, 7, 5, 9)).unwrap(),
        "screenink-2024-02-29_07-05-09.png"
    );
    assert_eq!(
        capture_file_name(moment(33, 12, 31, 23, 59, 59)).unwrap(),
        "screenink-0033-12-31_23-59-59.png"
    );
    assert_eq!(
        capture_file_name(moment(12345, 1, 1, 0, 0, 0)).unwrap(),
        "screenink-+12345-01-01_00-00-00.png"
    );
    assert_eq!(
        capture_file_name(moment(-7, 1, 1, 0, 0, 0)).unwrap(),
        "screenink--0007-01-01_00-00-00.png"
    );
    assert_eq!(
        capture_path(&bytes("/out"), moment(2025, 11, 3, 18, 0, 1)).unwrap(),
        b"/out/screenink-2025-11-03_18-00-01.png"
    );
}

#[test]
fn moments_that_never_come() {
    for moment in [
        moment(2023, 2, 29, 0, 0, 0),
        moment(1900, 2, 29, 0, 0, 0),
        moment(2023, 4, 31, 0, 0, 0),
        moment(2023, 0, 1, 0, 0, 0),
        moment(2023, 13, 1, 0, 0, 0),
        moment(2023, 1, 0, 0, 0, 0),
        moment(2023, 1, 32, 0, 0, 0),
        moment(2023, 1, 1, 24, 0, 0),
        moment(2023, 1, 1, 0, 60, 0),
        moment(2023, 1, 1, 0, 0, 60),
        moment(262_143, 1, 1, 0, 0, 0),
        moment(-262_144, 1, 1, 0, 0, 0),
    ] {
        assert!(capture_file_name(moment).is_none());
        assert!(capture_path(&bytes("/out"), moment).is_none());
    }
    assert!(capture_file_name(moment(262_142, 12, 31, 0, 0, 0)).is_some());
    assert!(capture_file_name(moment(-262_143, 1, 1, 0, 0, 0)).is_some());
    assert!(capture_file_name(moment(2000, 2, 29, 0, 0, 0)).is_some());
}

#[test]
fn every_day_of_some_years_exists_as_chrono_says() {
    for year in [-4, 0, 1900, 2000, 2023, 2024] {
        for month in 0..14 {
            for day in 0..33 {
                assert_eq!(
                    capture_file_name(moment(year, month, day, 1, 2, 3)).is_some(),
                    chrono::NaiveDate::from_ymd_opt(year, month, day).is_some()
                );
            }
        }
    }
}

#[test]
fn names_sort_by_time() {
    let mut names: Vec<String> = [
        moment(2024, 2, 29, 7, 5, 9),
        moment(2024, 2, 29, 7, 5, 10),
        moment(2024, 2, 29, 7, 6, 0),
        moment(2024, 2, 29, 12, 0, 0),
        moment(2024, 10, 1, 0, 0, 0),
        moment(2025, 1, 1, 0, 0, 0),
    ]
    .into_iter()
    .map(|moment| capture_file_name(moment).unwrap())
    .collect();
    let in_time = names.clone();
    names.sort();
    assert_eq!(names, in_time);
    names.dedup();
    assert_eq!(names.len(), 6);
}

#[test]
fn handed_over_screenshots() {
    assert_eq!(handoff_suffix(Some(17), 3), 17);
    assert_eq!(handoff_suffix(None, 3), 3000);
    assert_eq!(
        handoff_path(&bytes("/tmp"), 4321, 1_700_000_000_123_456_789),
        b"/tmp/screenink-portal-4321-1700000000123456789.png"
    );
    assert_eq!(handoff_path(&bytes("/tmp"), 1, -5), b"/tmp/screenink-portal-1--5.png");
    assert_ne!(handoff_path(&bytes("/tmp"), 1, 23), handoff_path(&bytes("/tmp"), 12, 3));
}

#[test]
fn screenshots_from_the_server() {
    assert_eq!(
        temporary_capture_path(&bytes("/tmp"), 4321),
        bytes("/tmp/screenink-source-4321.png")
    );
}
