use lapsphere::access::{Action, Reply, Step};
use lapsphere::keyboard_control::{
    apply_keyboard_settings, preview_keyboard_settings, KeyboardMode, KeyboardSettings, Rgb,
    RgbKeyboardControl,
};
use lapsphere::screen_control::{apply_screen_settings, ScreenSettings};
use lapsphere::tuxedo_io::{HardwareInterface, TuxedoIo};

const CLEVO: TuxedoIo = TuxedoIo { interface: HardwareInterface::Clevo, fan_count: 2 };

fn describe(action: &Action) -> String {
    match action {
        Action::Probe(path) => format!("probe {}", path),
        Action::Read(path) => format!("read {}", path),
        Action::Write(path, value) => format!("{} <- {}", path, value),
        Action::List(path) => format!("list {}", path),
        other => format!("{:?}", other),
    }
}

fn run<T>(
    op: impl Fn(&[Reply]) -> Step<T>,
    answer: impl Fn(&str) -> Reply,
) -> (Vec<String>, Result<T, String>) {
    let mut done = Vec::new();
    let mut replies = Vec::new();
    loop {
        match op(&replies) {
            Step::Do(action) => {
                let text = describe(&action);
                replies.push(answer(&text));
                done.push(text);
            }
            Step::Done(result) => return (done, result),
        }
    }
}

fn agree(action: &str) -> Reply {
    if action.starts_with("probe ") {
        Reply::Present(true)
    } else if action.starts_with("read ") {
        Reply::Text("200\n".to_string())
    } else {
        Reply::Done
    }
}

fn refuse(action: &str) -> Reply {
    if action.starts_with("probe ") {
        Reply::Present(true)
    } else {
        Reply::Failed("denied".to_string())
    }
}

fn keyboard(paths: &[&str], tuxedo_io: Option<TuxedoIo>) -> RgbKeyboardControl {
    RgbKeyboardControl { paths: paths.iter().map(|p| p.to_string()).collect(), tuxedo_io }
}

#[test]
fn lights_of_the_platform_come_first() {
    let base = "/sys/devices/platform/tuxedo_keyboard/leds";
    let (done, found) = run(RgbKeyboardControl::find_all_keyboard_backlight_paths, |a| {
        Reply::Present(!a.contains("center"))
    });
    assert_eq!(done.len(), 4);
    assert_eq!(
        found,
        Ok(vec![format!("{}/left:kbd_backlight", base), format!("{}/right:kbd_backlight", base)])
    );
    let (_, found) = run(RgbKeyboardControl::find_all_keyboard_backlight_paths, |a| {
        Reply::Present(a.ends_with("leds") || a.contains("rgb:"))
    });
    assert_eq!(found, Ok(vec![format!("{}/rgb:kbd_backlight", base)]));
}

#[test]
fn other_lights_are_found_by_name_and_sorted() {
    let names = |a: &str| {
        if a == "list /sys/class/leds" {
            Reply::Names(vec![
                "right:kbd_backlight".to_string(),
                "input3::capslock".to_string(),
                "left:kbd_backlight".to_string(),
            ])
        } else {
            Reply::Present(false)
        }
    };
    let (_, found) = run(RgbKeyboardControl::find_all_keyboard_backlight_paths, names);
    assert_eq!(
        found,
        Ok(vec![
            "/sys/class/leds/left:kbd_backlight".to_string(),
            "/sys/class/leds/right:kbd_backlight".to_string(),
        ])
    );
    let nothing = |a: &str| {
        if a.starts_with("list") {
            Reply::Failed("no".to_string())
        } else {
            Reply::Present(false)
        }
    };
    match run(|r| RgbKeyboardControl::new(None, r), nothing).1 {
        Err(message) => assert_eq!(message, "No keyboard backlight control available"),
        Ok(found) => panic!("{:?}", found),
    }
    assert!(run(|r| RgbKeyboardControl::new(Some(CLEVO), r), nothing).1.is_ok());
}

#[test]
fn one_zone_is_coloured() {
    let kbd = keyboard(&["/l/a"], None);
    let (done, result) = run(|r| kbd.set_zone_color(0, 1, 20, 255, r), agree);
    assert_eq!(result, Ok(()));
    assert_eq!(done, ["probe /l/a/multi_intensity", "/l/a/multi_intensity <- 1 20 255"]);
    assert_eq!(
        run(|r| kbd.set_zone_color(1, 1, 2, 3, r), agree).1,
        Err("Invalid zone index: 1".to_string())
    );
    assert_eq!(
        run(|r| kbd.set_zone_color(0, 1, 2, 3, r), |_| Reply::Present(false)).1,
        Err("RGB control not available for zone 0".to_string())
    );
    assert_eq!(
        run(|r| kbd.set_zone_color(0, 1, 2, 3, r), refuse).1,
        Err("denied".to_string())
    );
}

#[test]
fn a_zone_that_the_firmware_has_coloured_needs_no_light() {
    let kbd = keyboard(&["/l/a"], Some(CLEVO));
    let firmware_only = |action: &str| {
        if action.contains("WriteWide") {
            Reply::Done
        } else {
            refuse(action)
        }
    };
    let (done, result) = run(|r| kbd.set_zone_color(0, 1, 2, 3, r), firmware_only);
    assert_eq!(result, Ok(()));
    assert_eq!(done.len(), 3);
    assert_eq!(done[2], "/l/a/multi_intensity <- 1 2 3");
    let (done, result) = run(|r| kbd.set_zone_color(2, 1, 2, 3, r), firmware_only);
    assert_eq!(result, Ok(()));
    assert_eq!(done.len(), 1);
    assert_eq!(
        run(|r| kbd.set_zone_color(0, 1, 2, 3, r), refuse).1,
        Err("denied".to_string())
    );
    assert_eq!(
        run(|r| kbd.set_zone_color(3, 1, 2, 3, r), agree).1,
        Err("Invalid zone index: 3".to_string())
    );
}

#[test]
fn brightness_is_scaled_to_the_light() {
    let kbd = keyboard(&["/l/a", "/l/b"], None);
    let (done, result) = run(|r| kbd.set_brightness(50, r), agree);
    assert_eq!(result, Ok(()));
    assert_eq!(
        done,
        [
            "read /l/a/max_brightness",
            "/l/a/brightness <- 100",
            "read /l/b/max_brightness",
            "/l/b/brightness <- 100",
        ]
    );
    let (done, _) = run(|r| kbd.set_brightness(50, r), refuse);
    assert_eq!(done[1], "/l/a/brightness <- 127");
}

#[test]
fn a_single_colour_goes_to_three_zones_of_the_firmware() {
    let kbd = keyboard(&["/l/a"], Some(CLEVO));
    let mode = KeyboardMode::SingleColor { r: 1, g: 2, b: 3, brightness: 10 };
    let (done, result) = run(|r| kbd.set_mode(&mode, r), agree);
    assert_eq!(result, Ok(()));
    let commands: Vec<&String> = done.iter().filter(|a| a.contains("WriteWide")).collect();
    let code = 0x4008_ee67u64;
    let expected: Vec<String> = [0u64, 0xf003_0102, 0xf103_0102, 0xf203_0102, 0xf400_000a]
        .iter()
        .map(|command| format!("Control(WriteWide({}, {}))", code, command))
        .collect();
    assert_eq!(commands, expected.iter().collect::<Vec<_>>());
    assert!(done.contains(&"/l/a/multi_intensity <- 1 2 3".to_string()));
    assert!(done.contains(&"/l/a/brightness <- 20".to_string()));
}

#[test]
fn effects_fall_back_to_their_names() {
    let kbd = keyboard(&["/l/a"], None);
    let modes = [
        (KeyboardMode::Breathe { r: 9, g: 8, b: 7, brightness: 1, speed: 4 }, "1", "breathing"),
        (KeyboardMode::Cycle { brightness: 1, speed: 4 }, "2", "cycle"),
        (KeyboardMode::Dance { brightness: 1, speed: 4 }, "3", "dance"),
        (KeyboardMode::Flash { r: 9, g: 8, b: 7, brightness: 1, speed: 4 }, "4", "flash"),
        (KeyboardMode::RandomColor { brightness: 1, speed: 4 }, "5", "random"),
        (KeyboardMode::Tempo { brightness: 1, speed: 4 }, "6", "tempo"),
        (KeyboardMode::Wave { brightness: 1, speed: 4 }, "7", "wave"),
    ];
    for (mode, number, name) in modes {
        let (done, result) = run(|r| kbd.set_mode(&mode, r), refuse);
        assert_eq!(result, Ok(()));
        assert_eq!(done[1], format!("/l/a/mode <- {}", number));
        assert_eq!(done[2], format!("/l/a/mode <- {}", name));
        assert_eq!(done[4], "/l/a/speed <- 4");
        assert_eq!(done.contains(&"/l/a/multi_intensity <- 9 8 7".to_string()), name == "flash" || name == "breathing");
    }
}

#[test]
fn zones_have_colours_of_their_own() {
    let kbd = keyboard(&["/l/a", "/l/b"], None);
    let colors = || vec![Rgb { r: 1, g: 1, b: 1 }, Rgb { r: 2, g: 2, b: 2 }];
    for mode in [
        KeyboardMode::PerKeyRGB { keys: colors(), brightness: 0 },
        KeyboardMode::MultipleZones { zones: colors(), brightness: 0 },
    ] {
        let (done, _) = run(|r| kbd.set_mode(&mode, r), agree);
        assert_eq!(done[1], "/l/a/multi_intensity <- 1 1 1");
        assert_eq!(done[3], "/l/b/multi_intensity <- 2 2 2");
    }
}

#[test]
fn keyboard_settings_of_a_profile() {
    let kbd = keyboard(&["/l/a"], None);
    let off = KeyboardSettings {
        control_enabled: false,
        mode: KeyboardMode::Wave { brightness: 1, speed: 1 },
    };
    let (done, result) = run(|r| apply_keyboard_settings(&off, Some(&kbd), r), agree);
    assert_eq!(result, Ok(()));
    assert_eq!(done[1], "/l/a/multi_intensity <- 255 255 255");
    assert_eq!(done.last().unwrap(), "/l/a/brightness <- 100");
    assert_eq!(run(|r| apply_keyboard_settings(&off, None, r), agree).1, Ok(()));
    let on = KeyboardSettings { control_enabled: true, mode: off.mode.clone() };
    let missing = Err("Keyboard control not available".to_string());
    assert_eq!(run(|r| apply_keyboard_settings(&on, None, r), agree).1, missing);
    assert_eq!(run(|r| preview_keyboard_settings(&off, None, r), agree).1, missing);
    let (done, _) = run(|r| preview_keyboard_settings(&off, Some(&kbd), r), agree);
    assert_eq!(done[1], "/l/a/mode <- 7");
}

#[test]
fn modes_are_compared_in_every_part() {
    let wave = KeyboardMode::Wave { brightness: 1, speed: 2 };
    assert!(wave.same_as(&wave.clone()));
    assert!(!wave.same_as(&KeyboardMode::Wave { brightness: 1, speed: 3 }));
    assert!(!wave.same_as(&KeyboardMode::Cycle { brightness: 1, speed: 2 }));
    let zones = |r| KeyboardMode::MultipleZones { zones: vec![Rgb { r, g: 0, b: 0 }], brightness: 1 };
    assert!(zones(3).same_as(&zones(3)));
    assert!(!zones(3).same_as(&zones(4)));
}

#[test]
fn the_first_writable_backlight_takes_the_brightness() {
    let settings = ScreenSettings { brightness: 50, system_control: false };
    let answer = |a: &str| {
        if a.starts_with("probe ") {
            Reply::Present(a.contains("amdgpu"))
        } else if a.starts_with("read ") {
            Reply::Text("255\n".to_string())
        } else if a.contains("bl0") {
            Reply::Failed("denied".to_string())
        } else {
            Reply::Done
        }
    };
    let (done, result) = run(|r| apply_screen_settings(&settings, r), answer);
    assert_eq!(result, Ok(()));
    assert_eq!(done[0], "probe /sys/class/backlight/intel_backlight/brightness");
    assert_eq!(done[4], "/sys/class/backlight/amdgpu_bl0/actual_brightness <- 127");
    assert_eq!(done.last().unwrap(), "/sys/class/backlight/amdgpu_bl1/brightness <- 127");
    assert_eq!(
        run(|r| apply_screen_settings(&settings, r), refuse).1,
        Err("No writable backlight control found".to_string())
    );
    let system = ScreenSettings { brightness: 50, system_control: true };
    assert_eq!(run(|r| apply_screen_settings(&system, r), refuse), (vec![], Ok(())));
}
