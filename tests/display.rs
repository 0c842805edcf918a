use background_manager::display::{
    get_monitor_count, get_monitor_size, select_monitors, MonitorInfo, SelectError,
};
use background_manager::profile::parse_display_profile;
use background_manager::text::{is_target_file_name, set_picture_script, target_file_name};

fn monitors() -> Vec<MonitorInfo> {
    vec![
        MonitorInfo { name: "Built-in".to_string(), id: 1, width: 3024, height: 1964 },
        MonitorInfo { name: "DELL".to_string(), id: 2, width: 2560, height: 1440 },
    ]
}

#[test]
fn counts_monitors() {
    assert_eq!(get_monitor_count(&monitors()), 2);
    assert_eq!(get_monitor_count(&[]), 0);
}

#[test]
fn monitor_size_by_number() {
    let m = monitors();
    assert_eq!(get_monitor_size(&m, 1), Ok((3024, 1964)));
    assert_eq!(get_monitor_size(&m, 2), Ok((2560, 1440)));
    assert_eq!(get_monitor_size(&m, 0), Err("Monitor number 0 is out of range (1-2)".to_string()));
    assert_eq!(get_monitor_size(&m, 3), Err("Monitor number 3 is out of range (1-2)".to_string()));
    assert_eq!(get_monitor_size(&m, -7), Err("Monitor number -7 is out of range (1-2)".to_string()));
    assert_eq!(get_monitor_size(&[], 1), Err("Monitor number 1 is out of range (1-0)".to_string()));
}

#[test]
fn selects_all_or_one_monitor() {
    assert_eq!(select_monitors(3, None), Ok(vec![1, 2, 3]));
    assert_eq!(select_monitors(0, None), Ok(vec![]));
    assert_eq!(select_monitors(3, Some("2")), Ok(vec![2]));
    assert_eq!(select_monitors(3, Some("+3")), Ok(vec![3]));
    assert_eq!(select_monitors(3, Some("4")), Err(SelectError::OutOfRange));
    assert_eq!(select_monitors(3, Some("0")), Err(SelectError::OutOfRange));
    assert_eq!(select_monitors(3, Some("-1")), Err(SelectError::OutOfRange));
    assert_eq!(select_monitors(3, Some("two")), Err(SelectError::InvalidNumber));
    assert_eq!(select_monitors(3, Some("")), Err(SelectError::InvalidNumber));
    assert_eq!(select_monitors(3, Some("3000000000")), Err(SelectError::InvalidNumber));
}

#[test]
fn names_target_files() {
    assert_eq!(target_file_name(2, 1700000000), "2_1700000000.png");
    assert_eq!(target_file_name(10, 0), "10_0.png");
    assert_eq!(target_file_name(-3, 45), "-3_45.png");
    assert!(is_target_file_name("1_99.png", 1, 99));
    assert!(!is_target_file_name("1_99.jpg", 1, 99));
    assert!(!is_target_file_name("photo.png", 1, 99));
}

#[test]
fn builds_picture_script() {
    assert_eq!(
        set_picture_script(2, "/Users/me/2_5.png"),
        "tell application \"System Events\"\n                set picture of desktop 2 to \"/Users/me/2_5.png\"\n            end tell"
    );
}

const REPORT: &str = "Graphics/Displays:

    Apple M1 Pro:

      Chipset Model: Apple M1 Pro
      Type: GPU
      Displays:
        Color LCD:
          Display Type: Built-in Liquid Retina XDR Display
          Resolution: 3024 x 1964 Retina
          Main Display: Yes
        DELL U2720Q:
          Resolution: 3840x2160 (2160p/4K UHD 1 - Ultra High Definition)
          UI Looks like: 1920 x 1080 @ 60.00Hz
        Sidecar::
          Resolution: unknown
        LG:
          Resolution: 2560 × 1440
";

#[test]
fn parses_display_report() {
    let found = parse_display_profile(REPORT);
    let got: Vec<(String, usize, usize, usize)> =
        found.into_iter().map(|m| (m.name, m.id, m.width, m.height)).collect();
    assert_eq!(
        got,
        vec![
            ("Color LCD".to_string(), 1, 3024, 1964),
            ("DELL U2720Q".to_string(), 2, 3840, 2160),
            ("LG".to_string(), 4, 2560, 1440),
        ]
    );
}

#[test]
fn report_without_displays_section_lists_nothing() {
    assert!(parse_display_profile("Graphics:\n  Resolution: 800 x 600\n").is_empty());
    assert!(parse_display_profile("").is_empty());
}

#[test]
fn unnamed_display_is_unknown() {
    let found = parse_display_profile("Displays:\r\n  Resolution: 1280X800\r\n");
    assert_eq!(found.len(), 1);
    assert_eq!(found[0].name, "Unknown");
    assert_eq!((found[0].id, found[0].width, found[0].height), (1, 1280, 800));
}
