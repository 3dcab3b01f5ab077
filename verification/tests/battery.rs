use lapsphere::access::{Action, Reply, Step};
use lapsphere::battery_control::{check_gate, BatteryControl, GatedStep};
use lapsphere::hardware_control::{apply_battery_settings, BatterySettings};
use lapsphere::hw_gate::{enabled, note_failure, rearm_after_resume, HwGate, BATTERY_CHARGE_CONTROL};

const START: &str = "/sys/class/power_supply/BAT0/charge_control_start_threshold";

fn battery() -> BatteryControl {
    match BatteryControl::new(&[Reply::Present(true), Reply::Present(true)]) {
        Step::Done(Ok(battery)) => battery,
        other => panic!("{:?}", other),
    }
}

fn text(s: &str) -> Reply {
    Reply::Text(s.to_string())
}

fn failed(s: &str) -> Reply {
    Reply::Failed(s.to_string())
}

fn value<T>(step: GatedStep<T>) -> Result<T, String> {
    match step {
        GatedStep::Done(result, _) => result,
        GatedStep::Do(action) => panic!("{:?}", action),
    }
}

fn probe_of<T: std::fmt::Debug>(step: Step<T>) -> String {
    match step {
        Step::Do(Action::Probe(path)) => path,
        other => panic!("{:?}", other),
    }
}

#[test]
fn the_first_battery_with_charge_control_is_used() {
    let no = || Reply::Present(false);
    let yes = || Reply::Present(true);
    assert_eq!(probe_of(BatteryControl::new(&[])), "/sys/class/power_supply/BAT0");
    assert_eq!(
        probe_of(BatteryControl::new(&[yes()])),
        "/sys/class/power_supply/BAT0/charge_type"
    );
    assert_eq!(probe_of(BatteryControl::new(&[no()])), "/sys/class/power_supply/BAT1");
    assert_eq!(
        probe_of(BatteryControl::new(&[yes(), no(), yes()])),
        "/sys/class/power_supply/BAT1/charge_type"
    );
    match BatteryControl::new(&[no(), no()]) {
        Step::Done(Err(message)) => assert_eq!(message, "No battery with charge control found"),
        other => panic!("{:?}", other),
    }
    assert!(matches!(
        BatteryControl::is_available(&[no(), yes(), yes()]),
        Step::Done(Ok(true))
    ));
    assert!(matches!(BatteryControl::is_available(&[no(), no()]), Step::Done(Ok(false))));
}

#[test]
fn thresholds_are_read_and_written() {
    let battery = battery();
    let mut gate = HwGate::new();
    match battery.set_charge_control_start_threshold(40, &mut gate, &[]) {
        GatedStep::Do(Action::Write(path, value)) => {
            assert_eq!(path, START);
            assert_eq!(value, "40");
        }
        other => panic!("{:?}", other),
    }
    assert_eq!(
        value(battery.set_charge_control_start_threshold(40, &mut gate, &[Reply::Done])),
        Ok(())
    );
    assert_eq!(
        value(battery.get_charge_control_start_threshold(&mut gate, &[text("40\n")])),
        Ok(40)
    );
    assert_eq!(
        value(battery.get_charge_control_start_threshold(&mut gate, &[text("\t 40 \r\n\n")])),
        Ok(40)
    );
    assert_eq!(
        value(battery.get_charge_control_end_threshold(&mut gate, &[text("300\n")])),
        Err("number too large to fit in target type".to_string())
    );
    assert_eq!(
        value(battery.set_charge_control_end_threshold(101, &mut gate, &[])),
        Err("Threshold must be between 0 and 100".to_string())
    );
    assert!(matches!(
        battery.set_charge_control_end_threshold(100, &mut gate, &[]),
        GatedStep::Do(Action::Write(_, _))
    ));
}

#[test]
fn charge_types_are_checked() {
    let battery = battery();
    let mut gate = HwGate::new();
    assert_eq!(
        value(battery.set_charge_type("Fast", &mut gate, &[])),
        Err("Invalid charge type. Must be 'Standard' or 'Custom'".to_string())
    );
    assert_eq!(
        value(battery.get_charge_type(&mut gate, &[text("Custom\n")])),
        Ok("Custom".to_string())
    );
}

#[test]
fn available_thresholds_have_defaults() {
    let battery = battery();
    let mut gate = HwGate::new();
    let missing = [Reply::Present(false)];
    assert_eq!(
        value(battery.get_available_start_thresholds(&mut gate, &missing)),
        Ok(vec![40, 50, 60, 70, 80, 95])
    );
    assert_eq!(
        value(battery.get_available_end_thresholds(&mut gate, &missing)),
        Ok(vec![60, 70, 80, 90, 100])
    );
    assert_eq!(
        value(battery.get_available_end_thresholds(
            &mut gate,
            &[Reply::Present(true), text("60 x 80\t999 100\n")]
        )),
        Ok(vec![60, 80, 100])
    );
}

#[test]
fn a_failure_disables_charge_control_with_one_warning() {
    let battery = battery();
    let mut gate = HwGate::new();
    assert_eq!(check_gate(&gate), Ok(()));
    match battery.get_charge_type(&mut gate, &[failed("I/O error")]) {
        GatedStep::Done(Err(message), Some(warning)) => {
            assert_eq!(message, "I/O error");
            assert!(warning.contains(BATTERY_CHARGE_CONTROL));
        }
        other => panic!("{:?}", other),
    }
    assert!(!enabled(&gate, BATTERY_CHARGE_CONTROL));
    let message = value(battery.set_charge_type("Custom", &mut gate, &[])).unwrap_err();
    assert!(message.starts_with("battery charge control unavailable: "));
    assert!(message.ends_with("capability disabled until the daemon restarts"));
    assert_eq!(check_gate(&gate), Err(message));
    assert!(note_failure(&mut gate, BATTERY_CHARGE_CONTROL).is_none());
    assert_eq!(rearm_after_resume(&mut gate), Some(vec![BATTERY_CHARGE_CONTROL]));
    assert_eq!(rearm_after_resume(&mut gate), None);
    assert_eq!(check_gate(&gate), Ok(()));
}

#[test]
fn battery_settings_are_applied_in_order() {
    let settings = BatterySettings {
        control_enabled: true,
        charge_start_threshold: 40,
        charge_end_threshold: 80,
    };
    let mut gate = HwGate::new();
    let mut replies: Vec<Reply> = Vec::new();
    let mut written = Vec::new();
    let result = loop {
        match apply_battery_settings(&settings, &mut gate, &replies) {
            GatedStep::Do(Action::Probe(_)) => replies.push(Reply::Present(true)),
            GatedStep::Do(Action::Write(path, value)) => {
                written.push((path, value));
                replies.push(Reply::Done);
            }
            GatedStep::Do(other) => panic!("{:?}", other),
            GatedStep::Done(result, warning) => {
                assert_eq!(warning, None);
                break result;
            }
        }
    };
    assert_eq!(result, Ok(()));
    let dir = "/sys/class/power_supply/BAT0/";
    let expected = [
        ("charge_type", "Custom"),
        ("charge_control_start_threshold", "40"),
        ("charge_control_end_threshold", "80"),
    ];
    assert_eq!(written.len(), 3);
    for i in 0..3 {
        assert_eq!(written[i].0, format!("{}{}", dir, expected[i].0));
        assert_eq!(written[i].1, expected[i].1);
    }
}

#[test]
fn battery_settings_without_a_battery_are_no_error() {
    let settings = BatterySettings {
        control_enabled: true,
        charge_start_threshold: 40,
        charge_end_threshold: 80,
    };
    let mut gate = HwGate::new();
    let none = [Reply::Present(false), Reply::Present(false)];
    assert_eq!(value(apply_battery_settings(&settings, &mut gate, &none)), Ok(()));
    let yes = || Reply::Present(true);
    match apply_battery_settings(
        &settings,
        &mut gate,
        &[yes(), yes(), yes(), yes(), failed("denied")],
    ) {
        GatedStep::Done(Err(message), Some(_)) => assert_eq!(message, "denied"),
        other => panic!("{:?}", other),
    }
    assert!(!enabled(&gate, BATTERY_CHARGE_CONTROL));
}
