use lapsphere::access::{Action, Ioctl, Reply, Step};
use lapsphere::hardware_control::{
    get_fan_temperature, get_hardware_interface_info, get_webcam_state, set_fan_auto,
    set_fan_speed, set_tdp_profile, set_webcam_state,
};
use lapsphere::tuxedo_io::{track_manual, HardwareInterface, TuxedoIo};

const CLEVO: TuxedoIo = TuxedoIo { interface: HardwareInterface::Clevo, fan_count: 2 };
const UNIWILL: TuxedoIo = TuxedoIo { interface: HardwareInterface::Uniwill, fan_count: 2 };
const NOTHING: TuxedoIo = TuxedoIo { interface: HardwareInterface::Absent, fan_count: 0 };

fn run<T: std::fmt::Debug>(
    op: impl Fn(&[Reply]) -> Step<T>,
    script: Vec<Reply>,
) -> (Vec<Ioctl>, Result<T, String>) {
    let mut sent = Vec::new();
    let mut replies = Vec::new();
    let mut script = script.into_iter();
    loop {
        match op(&replies) {
            Step::Do(Action::Control(request)) => {
                sent.push(request);
                replies.push(script.next().expect("one more reply"));
            }
            Step::Do(Action::Probe(path)) => {
                assert_eq!(path, "/dev/tuxedo_io");
                replies.push(script.next().expect("one more reply"));
            }
            Step::Do(other) => panic!("{:?}", other),
            Step::Done(result) => {
                assert!(script.next().is_none());
                return (sent, result);
            }
        }
    }
}

fn failed(s: &str) -> Reply {
    Reply::Failed(s.to_string())
}

fn error(s: &str) -> String {
    s.to_string()
}

#[test]
fn request_codes() {
    assert_eq!(TuxedoIo::ior(0xED, 0x10, 8), 0x8008_ed10);
    assert_eq!(TuxedoIo::iow(0xEE, 0x10, 8), 0x4008_ee10);
    assert_eq!(TuxedoIo::io(0xF0, 0x14), 0xf014);
}

#[test]
fn duties_and_percentages() {
    assert_eq!(TuxedoIo::clevo_raw_to_percent(0), 0);
    assert_eq!(TuxedoIo::clevo_raw_to_percent(128), 50);
    assert_eq!(TuxedoIo::clevo_raw_to_percent(255), 100);
    assert_eq!(TuxedoIo::clevo_percent_to_raw(50), 128);
    assert_eq!(TuxedoIo::clevo_percent_to_raw(100), 255);
    assert_eq!(TuxedoIo::clevo_percent_to_raw(4000), 255);
    for percent in 0..=100 {
        let raw = TuxedoIo::clevo_percent_to_raw(percent);
        assert_eq!(TuxedoIo::clevo_raw_to_percent(raw), percent);
    }
}

#[test]
fn the_interface_is_detected() {
    let (sent, found) = run(TuxedoIo::detect_interface, vec![Reply::Value(1), Reply::Value(0)]);
    assert_eq!(sent, [Ioctl::Read(0x8008_ec05), Ioctl::Read(0x8008_ec06)]);
    assert_eq!(found, Ok(HardwareInterface::Clevo));
    let uniwill = vec![failed("no"), Reply::Value(1)];
    assert_eq!(run(TuxedoIo::detect_interface, uniwill).1, Ok(HardwareInterface::Uniwill));
    let by_fans = vec![failed("no"), failed("no"), failed("no"), Reply::Value(7)];
    assert_eq!(run(TuxedoIo::detect_interface, by_fans).1, Ok(HardwareInterface::Uniwill));
    let none = vec![failed("no"), failed("no"), failed("no"), failed("no")];
    assert_eq!(run(TuxedoIo::detect_interface, none).1, Ok(HardwareInterface::Absent));
}

#[test]
fn opening_counts_the_fans() {
    let fan = Reply::Value(40 << 16);
    let (_, opened) = run(
        TuxedoIo::new,
        vec![Reply::Value(1), Reply::Value(0), fan, Reply::Value(1 << 16)],
    );
    let io = opened.unwrap();
    assert_eq!(io.get_interface(), HardwareInterface::Clevo);
    assert_eq!(io.get_fan_count(), 1);
    let (_, opened) = run(
        TuxedoIo::new,
        vec![Reply::Value(0), Reply::Value(1), Reply::Value(3), failed("no")],
    );
    assert_eq!(opened.unwrap().get_fan_count(), 1);
}

#[test]
fn fan_speeds_and_temperatures() {
    let report = 0x0032_0080;
    assert_eq!(run(|r| CLEVO.get_fan_speed(1, r), vec![Reply::Value(report)]).1, Ok(50));
    assert_eq!(run(|r| CLEVO.get_fan_temperature(1, r), vec![Reply::Value(report)]).1, Ok(0x32));
    assert_eq!(
        run(|r| CLEVO.get_fan_temperature(0, r), vec![Reply::Value(0x0001_0080)]).1,
        Err(error("Fan 0 not available"))
    );
    assert_eq!(
        run(|r| CLEVO.get_fan_speed(3, r), vec![]).1,
        Err(error("Invalid Clevo fan ID: 3"))
    );
    assert_eq!(run(|r| UNIWILL.get_fan_temperature(1, r), vec![Reply::Value(61)]).1, Ok(61));
    assert_eq!(
        run(|r| UNIWILL.get_fan_temperature(1, r), vec![Reply::Value(0)]).1,
        Err(error("Fan 1 not available"))
    );
    assert_eq!(
        run(|r| UNIWILL.get_fan_temperature(2, r), vec![]).1,
        Err(error("Invalid Uniwill fan ID: 2"))
    );
    assert_eq!(
        run(|r| NOTHING.get_fan_speed(0, r), vec![]).1,
        Err(error("No hardware interface"))
    );
    assert_eq!(
        run(|r| CLEVO.get_fan_speed(0, r), vec![failed("EPERM: no")]).1,
        Err(error("ioctl read failed (req=0x8008ed10): EPERM: no"))
    );
}

#[test]
fn setting_one_fan_keeps_the_duty_of_the_other() {
    let (sent, result) = run(
        |r| CLEVO.set_fan_speed(false, 0, 50, r),
        vec![Reply::Done, Reply::Value(0x1234_0011), Reply::Value(0x5678_0022), Reply::Done],
    );
    assert_eq!(result, Ok(()));
    assert_eq!(
        sent,
        [
            Ioctl::Write(0x4008_ee11, 0),
            Ioctl::Read(0x8008_ed10),
            Ioctl::Read(0x8008_ed11),
            Ioctl::Write(0x4008_ee10, 0x2280),
        ]
    );
    let (sent, result) = run(
        |r| CLEVO.set_fan_speed(true, 1, 100, r),
        vec![Reply::Value(0x11), failed("no"), failed("busy")],
    );
    assert_eq!(sent.last(), Some(&Ioctl::Write(0x4008_ee10, 0xff11)));
    assert_eq!(result, Err(error("ioctl write failed (req=0x4008ee10): busy")));
}

#[test]
fn manual_control_is_tracked() {
    let manual = Action::Control(Ioctl::Write(0x4008_ee11, 0));
    let auto = Action::Control(Ioctl::Write(0x4008_ee11, 0xF));
    assert!(track_manual(false, &manual, &Reply::Done));
    assert!(!track_manual(false, &manual, &failed("no")));
    assert!(!track_manual(true, &auto, &Reply::Done));
    assert!(track_manual(true, &auto, &failed("no")));
    assert!(track_manual(true, &Action::RefreshCache, &Reply::Done));
}

#[test]
fn uniwill_fans() {
    let (sent, _) = run(|r| UNIWILL.set_fan_speed(false, 1, 500, r), vec![Reply::Done]);
    assert_eq!(sent, [Ioctl::Write(0x4008_f011, 200)]);
    let (sent, _) = run(|r| UNIWILL.set_fan_auto(r), vec![Reply::Done]);
    assert_eq!(sent, [Ioctl::Command(0xf014, 1)]);
    let (sent, _) = run(|r| CLEVO.set_fan_auto(r), vec![Reply::Done]);
    assert_eq!(sent, [Ioctl::Write(0x4008_ee11, 0xF)]);
}

#[test]
fn power_limits() {
    let (sent, value) = run(|r| UNIWILL.get_tdp(1, r), vec![Reply::Value(45)]);
    assert_eq!(sent, [Ioctl::Read(0x8008_ef19)]);
    assert_eq!(value, Ok(45));
    let (sent, _) = run(|r| UNIWILL.set_tdp(2, 60, r), vec![Reply::Done]);
    assert_eq!(sent, [Ioctl::Write(0x4008_f017, 60)]);
    assert_eq!(
        run(|r| CLEVO.set_tdp(0, 60, r), vec![]).1,
        Err(error("TDP control only available on Uniwill interface"))
    );
    assert_eq!(run(|r| UNIWILL.get_tdp_min(0, r), vec![Reply::Value(5)]).0, [Ioctl::Read(0x8008_ef1b)]);
    assert_eq!(run(|r| UNIWILL.get_tdp_max(0, r), vec![Reply::Value(90)]).0, [Ioctl::Read(0x8008_ef1e)]);
}

#[test]
fn uniwill_profiles_are_decoded() {
    for (mode, profile) in [(0xa0, 1), (0, 2), (0x10, 3), (0xb0, 2), (0x20, 2)] {
        assert_eq!(
            run(|r| UNIWILL.get_uw_performance_profile(r), vec![Reply::Value(mode)]).1,
            Ok(profile)
        );
    }
}

#[test]
fn performance_profiles_by_name() {
    let (sent, result) = run(
        |r| set_tdp_profile("performance", Some(CLEVO), r),
        vec![Reply::Present(true), Reply::Done],
    );
    assert_eq!(result, Ok(()));
    assert_eq!(sent, [Ioctl::Write(0x4008_ee15, 2)]);
    assert_eq!(
        run(|r| set_tdp_profile("x", None, r), vec![Reply::Present(false)]).1,
        Err(error("TDP profiles not available"))
    );
    assert_eq!(
        run(|r| set_tdp_profile("x", None, r), vec![Reply::Present(true)]).1,
        Err(error("tuxedo_io not available"))
    );
    assert_eq!(
        run(
            |r| set_tdp_profile("loud", Some(UNIWILL), r),
            vec![Reply::Present(true), Reply::Value(3)]
        )
        .1,
        Err(error(
            "Profile 'loud' not found. Available: [\"power_save\", \"enthusiast\", \"overboost\"]"
        ))
    );
    for (name, number) in [("power_save", 1), ("enthusiast", 2), ("overboost", 3)] {
        let (sent, result) = run(
            |r| set_tdp_profile(name, Some(UNIWILL), r),
            vec![Reply::Present(true), Reply::Value(3), Reply::Done],
        );
        assert_eq!(result, Ok(()));
        assert_eq!(sent[1], Ioctl::Write(0x4008_f018, number));
    }
    let (sent, result) = run(
        |r| set_tdp_profile("overboost", Some(UNIWILL), r),
        vec![Reply::Present(true), Reply::Value(2)],
    );
    assert_eq!(
        result,
        Err(error("Profile 'overboost' not found. Available: [\"power_save\", \"enthusiast\"]"))
    );
    assert_eq!(sent.len(), 1);
    let (sent, result) = run(
        |r| set_tdp_profile("quiet", Some(CLEVO), r),
        vec![Reply::Present(true), Reply::Done],
    );
    assert_eq!(result, Ok(()));
    assert_eq!(sent, [Ioctl::Write(0x4008_ee15, 0)]);
}

#[test]
fn fan_requests_from_outside_are_capped() {
    let (sent, result) = run(
        |r| set_fan_speed(0, 180, true, Some(UNIWILL), r),
        vec![Reply::Present(true), Reply::Done],
    );
    assert_eq!(result, Ok(()));
    assert_eq!(sent, [Ioctl::Write(0x4008_f010, 100)]);
    assert_eq!(
        run(|r| set_fan_speed(0, 50, true, Some(UNIWILL), r), vec![Reply::Present(false)]).1,
        Err(error("Fan control not available"))
    );
    assert_eq!(
        run(|r| set_fan_auto(0, None, r), vec![Reply::Present(true)]).1,
        Err(error("tuxedo_io not available"))
    );
    assert_eq!(
        run(|r| get_fan_temperature(0, None, r), vec![Reply::Present(false)]).1,
        Err(error("tuxedo_io not available"))
    );
}

#[test]
fn the_webcam_counts_as_on_unless_it_says_otherwise() {
    let present = || Reply::Present(true);
    assert_eq!(run(|r| get_webcam_state(None, r), vec![Reply::Present(false)]).1, Ok(true));
    assert_eq!(run(|r| get_webcam_state(Some(UNIWILL), r), vec![present()]).1, Ok(true));
    assert_eq!(
        run(|r| get_webcam_state(Some(CLEVO), r), vec![present(), Reply::Value(0)]).1,
        Ok(false)
    );
    assert_eq!(
        run(|r| get_webcam_state(Some(CLEVO), r), vec![present(), failed("no")]).1,
        Ok(true)
    );
    let (sent, _) = run(|r| set_webcam_state(false, Some(CLEVO), r), vec![present(), Reply::Done]);
    assert_eq!(sent, [Ioctl::Write(0x4008_ee12, 0)]);
    assert_eq!(
        run(|r| set_webcam_state(true, Some(UNIWILL), r), vec![present()]).1,
        Err(error("Webcam control only available on Clevo interface"))
    );
    assert_eq!(
        run(|r| set_webcam_state(true, None, r), vec![Reply::Present(false)]).1,
        Err(error("Webcam control not available"))
    );
}

#[test]
fn the_interface_describes_itself() {
    assert_eq!(
        run(|r| get_hardware_interface_info(Some(CLEVO), r), vec![Reply::Present(true)]).1,
        Ok(error("Interface: Clevo, Fans: 2"))
    );
    assert_eq!(
        run(|r| get_hardware_interface_info(Some(NOTHING), r), vec![Reply::Present(true)]).1,
        Ok(error("Interface: None, Fans: 0"))
    );
    assert_eq!(
        run(|r| get_hardware_interface_info(None, r), vec![Reply::Present(false)]).1,
        Ok(error("None"))
    );
}

#[test]
fn keyboard_commands() {
    let (sent, _) = run(
        |r| CLEVO.set_clevo_keyboard_color(1, 0x11, 0x22, 0x33, r),
        vec![Reply::Done],
    );
    assert_eq!(sent, [Ioctl::WriteWide(0x4008_ee67, 0xf133_1122)]);
    assert!(run(|r| CLEVO.set_clevo_keyboard_color(3, 0, 0, 0, r), vec![]).1.is_err());
    let (sent, _) = run(|r| CLEVO.set_clevo_keyboard_brightness(100, r), vec![Reply::Done]);
    assert_eq!(sent, [Ioctl::WriteWide(0x4008_ee67, 0xf400_0064)]);
    let (sent, _) = run(|r| CLEVO.set_clevo_keyboard_mode(0xB000_0000, r), vec![Reply::Done]);
    assert_eq!(sent, [Ioctl::WriteWide(0x4008_ee67, 0xb000_0000)]);
}

#[test]
fn the_fans_of_an_interface_are_counted() {
    let count = |interface: HardwareInterface, script: Vec<Reply>| {
        run(|r| TuxedoIo::detect_fan_count(interface, r), script).1
    };
    let fan = || Reply::Value(0x0028_0000);
    let no_fan = || Reply::Value(0x0001_0000);
    assert_eq!(count(HardwareInterface::Clevo, vec![no_fan()]), Ok(0));
    assert_eq!(count(HardwareInterface::Clevo, vec![fan(), failed("x")]), Ok(1));
    assert_eq!(count(HardwareInterface::Clevo, vec![fan(), fan(), fan()]), Ok(3));
    assert_eq!(count(HardwareInterface::Uniwill, vec![failed("x")]), Ok(0));
    assert_eq!(count(HardwareInterface::Uniwill, vec![Reply::Value(1), failed("x")]), Ok(1));
    assert_eq!(count(HardwareInterface::Uniwill, vec![Reply::Value(1), Reply::Value(1)]), Ok(2));
    assert_eq!(count(HardwareInterface::Absent, vec![]), Ok(0));
}
