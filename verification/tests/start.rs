use lapsphere::config::PollRates;
use lapsphere::daemon_args::{
    console_log, is_systemd_managed, read_args, shuts_down, startup, target_uid, ConsoleLog,
    Startup,
};
use lapsphere::frontend::{
    component_query, component_schedule, crash_file, crash_report, load_icon, may_start,
    starts_in_tray, NameRequest, Query,
};
use lapsphere::update_check::{check_release, newer_release};

fn args(list: &[&str]) -> Vec<String> {
    list.iter().map(|s| s.to_string()).collect()
}

#[test]
fn arguments_of_the_daemon() {
    let read = read_args(&args(&["lapsphere-daemon", "--gui", "--debug", "--tray", "--gui"]));
    assert!(read.launch_gui && read.launch_tray && !read.help);
    assert_eq!(read.gui_args, ["--debug", "--tray"]);
    assert_eq!(console_log(&read, true), ConsoleLog::Debug);
    let read = read_args(&args(&["--gui"]));
    assert!(read.launch_gui);
    assert!(read.gui_args.is_empty());
    assert!(read_args(&args(&["d", "-h"])).help);
    assert!(read_args(&args(&["d", "--help"])).help);
    assert!(!read_args(&args(&[])).help);
    let plain = read_args(&args(&["d"]));
    assert_eq!(console_log(&plain, true), ConsoleLog::Configured);
    assert_eq!(console_log(&plain, false), ConsoleLog::Warnings);
}

#[test]
fn starting_the_daemon() {
    let plain = read_args(&args(&["d"]));
    let gui = read_args(&args(&["d", "--gui"]));
    let tray = read_args(&args(&["d", "--tray"]));
    let help = read_args(&args(&["d", "--gui", "-h"]));
    assert_eq!(startup(&help, false), Startup::ShowHelp);
    assert_eq!(startup(&plain, false), Startup::ShowLimited);
    assert_eq!(startup(&plain, true), Startup::ShowAndRun);
    assert_eq!(startup(&gui, false), Startup::Refuse);
    assert_eq!(startup(&tray, true), Startup::Run);
}

#[test]
fn the_user_of_the_frontend() {
    assert_eq!(target_uid(Some("1000"), Some("1001")), Some(1000));
    assert_eq!(target_uid(Some("root"), Some("1001")), Some(1001));
    assert_eq!(target_uid(None, Some("4294967296")), None);
    assert_eq!(target_uid(None, None), None);
    assert_eq!(target_uid(Some(" 1000"), None), None);
}

#[test]
fn shutting_down() {
    assert!(shuts_down(false, false));
    assert!(!shuts_down(true, false));
    assert!(is_systemd_managed(false, true));
}

#[test]
fn the_schedule_of_the_frontend() {
    let rates = PollRates {
        cpu_poll_rate: 1,
        gpu_poll_rate: 2,
        memory_poll_rate: 3,
        fans_poll_rate: 4,
        battery_poll_rate: 5,
        wifi_poll_rate: 6,
        gamepad_poll_rate: 7,
        storage_poll_rate: 8,
        gpu_overclock_poll_rate: 9,
    };
    let schedule = component_schedule(&rates);
    assert_eq!(schedule.len(), 12);
    assert_eq!(schedule[8], ("mount", 8));
    assert_eq!(schedule[9], ("gpu_overclock", 9));
    assert_eq!(schedule[11], ("logs", 5000));
    for (component, _) in schedule {
        assert_eq!(component_query(component).is_some(), component != "gpu_overclock");
    }
    assert_eq!(component_query("wifi"), Some(Query::Wifi));
    assert_eq!(component_query("mount"), Some(Query::Mount));
    assert_eq!(component_query("CPU"), None);
}

#[test]
fn starting_the_frontend() {
    assert!(starts_in_tray(&args(&["lapsphere", "--tray"]), false));
    assert!(starts_in_tray(&args(&["lapsphere"]), true));
    assert!(!starts_in_tray(&args(&["lapsphere", "--tra"]), false));
    assert!(may_start(NameRequest::Owned));
    assert!(may_start(NameRequest::NoProxy));
    assert!(may_start(NameRequest::Refused));
    assert!(!may_start(NameRequest::Taken));
    assert!(!may_start(NameRequest::NoBus));
}

#[test]
fn crash_reports() {
    assert_eq!(crash_file("/c", "20260101_120000"), "/c/crash_20260101_120000.log");
    assert_eq!(
        crash_report("2026-01-01 12:00:00", "boom", Some(("src/main.rs", 7)), "0: main"),
        "LapSphere GUI Crash Report\n==========================\nTime: 2026-01-01 12:00:00\nPanic: boom at src/main.rs:7\n\nBacktrace:\n0: main"
    );
    assert!(crash_report("t", "m", None, "b").contains("Panic: m\n\nBacktrace"));
}

#[test]
fn the_icon() {
    let (rgba, width, height) = load_icon();
    assert_eq!((width, height, rgba.len()), (32, 32, 4096));
    for y in 0..32usize {
        for x in 0..32usize {
            let letter = (10..=14).contains(&x) && (6..=26).contains(&y)
                || (10..=22).contains(&x) && (22..=26).contains(&y);
            let expected = if letter { [0, 255, 0, 255] } else { [26, 26, 26, 255] };
            let at = (y * 32 + x) * 4;
            assert_eq!(rgba[at..at + 4], expected);
        }
    }
}

#[test]
fn releases_are_compared_by_version() {
    let release = newer_release(Some("v1.2.0".to_string()), None, "1.1.0").unwrap();
    assert_eq!(release.version, "1.2.0");
    assert_eq!(release.changelog, "No changelog provided.");
    assert!(newer_release(Some("v1.1.0".to_string()), None, "1.1.0").is_none());
    assert!(newer_release(None, Some("text".to_string()), "1.1.0").is_none());
}

#[test]
fn release_documents_are_read() {
    let document = br#"{"tag_name": "v2.0", "body": "Faster \u00e4", "draft": false}"#;
    let release = check_release(document, "1.0").unwrap();
    assert_eq!(release.version, "2.0");
    assert_eq!(release.changelog, "Faster ä");
    assert!(check_release(document, "2.0").is_none());
    assert!(check_release(br#"{"tag_name": 7}"#, "1.0").is_none());
    assert!(check_release(br#"["tag_name"]"#, "1.0").is_none());
    assert!(check_release(b"{not json", "1.0").is_none());
    let release = check_release(br#"{"tag_name": "3", "body": null}"#, "1.0").unwrap();
    assert_eq!(release.changelog, "No changelog provided.");
}
