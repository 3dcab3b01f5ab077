use lapsphere::access::{Action, Ioctl, Reply, Step};
use lapsphere::fan_curve::{
    apply_fan_curves, calculate_fan_speed, poll_fans, sort_curves, sort_points, FanCurve, FanEvent,
    FanSettings, FanTask,
};
use lapsphere::hardware_control::apply_fan_settings;
use lapsphere::single::round_fraction;
use lapsphere::tuxedo_io::{HardwareInterface, TuxedoIo};

fn in_single_precision(points: &[(u8, u8)], temp: f32) -> u8 {
    if points.is_empty() {
        return 50;
    }
    if points.len() == 1 || temp <= points[0].0 as f32 {
        return points[0].1;
    }
    if temp >= points[points.len() - 1].0 as f32 {
        return points[points.len() - 1].1;
    }
    for i in 0..points.len() - 1 {
        let (temp1, speed1) = points[i];
        let (temp2, speed2) = points[i + 1];
        if temp >= temp1 as f32 && temp <= temp2 as f32 {
            let ratio = (temp - temp1 as f32) / (temp2 as f32 - temp1 as f32);
            let speed = speed1 as f32 + ratio * (speed2 as f32 - speed1 as f32);
            return speed.round() as u8;
        }
    }
    50
}

#[test]
fn speeds_are_those_of_single_precision() {
    for width in (1..=100u8).step_by(3) {
        for low in (0..=255u16).step_by(5) {
            for high in (0..=255u16).step_by(3) {
                let points = vec![(0, low as u8), (width, high as u8), (width, 7)];
                for temp in 0..=width as u32 {
                    assert_eq!(
                        calculate_fan_speed(&points, temp),
                        in_single_precision(&points, temp as f32),
                        "{:?} at {}",
                        points,
                        temp
                    );
                }
            }
        }
    }
}

#[test]
fn wide_stretches_are_those_of_single_precision() {
    for width in [101u8, 127, 128, 200, 251, 255] {
        for (low, high) in [(0u8, 255u8), (255, 0), (3, 254), (54, 0), (0, 54), (17, 18)] {
            let points = vec![(0, low), (width, high)];
            for temp in 0..=300u32 {
                assert_eq!(
                    calculate_fan_speed(&points, temp),
                    in_single_precision(&points, temp as f32)
                );
            }
        }
    }
}

#[test]
fn a_tie_that_single_precision_breaks() {
    let points = vec![(0, 0), (12, 54)];
    assert_eq!(calculate_fan_speed(&points, 7), in_single_precision(&points, 7.0));
    assert_eq!(calculate_fan_speed(&vec![(40, 20), (60, 40)], 50), 30);
    assert_eq!(calculate_fan_speed(&vec![(40, 20), (60, 41)], 50), 31);
}

#[test]
fn curves_without_a_stretch() {
    assert_eq!(calculate_fan_speed(&vec![], 70), 50);
    assert_eq!(calculate_fan_speed(&vec![(60, 33)], 99), 33);
    let curve = vec![(50, 20), (80, 90)];
    assert_eq!(calculate_fan_speed(&curve, 10), 20);
    assert_eq!(calculate_fan_speed(&curve, 80), 90);
    assert_eq!(calculate_fan_speed(&curve, 4_000_000_000), 90);
    // Points out of order: no stretch, or one without a width.
    let back = vec![(10, 1), (5, 2), (60, 3), (60, 4), (90, 5)];
    assert_eq!(calculate_fan_speed(&back, 30), in_single_precision(&back, 30.0));
    let flat = vec![(10, 1), (70, 2), (60, 3), (60, 4), (90, 5)];
    for temp in 0..100 {
        assert_eq!(calculate_fan_speed(&flat, temp), in_single_precision(&flat, temp as f32));
    }
    let gap = vec![(20, 1), (40, 2), (10, 3), (35, 4), (35, 9), (90, 5)];
    for temp in 0..100 {
        assert_eq!(calculate_fan_speed(&gap, temp), in_single_precision(&gap, temp as f32));
    }
}

#[test]
fn points_of_a_curve_are_met_and_warmer_is_never_slower() {
    let curve = vec![(30, 10), (45, 10), (52, 37), (71, 71), (90, 100)];
    for (temp, speed) in &curve {
        assert_eq!(calculate_fan_speed(&curve, *temp as u32), *speed);
    }
    for temp in 0..120 {
        assert!(calculate_fan_speed(&curve, temp) <= calculate_fan_speed(&curve, temp + 1));
    }
}

#[test]
fn fractions_are_rounded_like_single_precision_rounds_them() {
    for num in [1u32, 2, 3, 7, 100, 254, 255] {
        for den in [1u32, 3, 7, 11, 49, 253, 255] {
            let (m, d) = round_fraction(num as u128, den as u128);
            assert_eq!((m as f64 / d as f64) as f32, num as f32 / den as f32);
            assert_eq!(m as f64 / d as f64, (num as f32 / den as f32) as f64);
        }
    }
    assert_eq!(round_fraction(0, 9), (0, 1));
    assert_eq!(round_fraction(1, 1), (0x80_0000, 0x80_0000));
}

#[test]
fn points_are_sorted_without_turning_equals_round() {
    let points = vec![(70, 5), (40, 9), (70, 1), (40, 2), (10, 0), (70, 3)];
    let mut expected = points.clone();
    expected.sort_by_key(|p| p.0);
    assert_eq!(sort_points(&points), expected);
    assert_eq!(sort_points(&vec![]), vec![]);
}

fn settings() -> FanSettings {
    FanSettings {
        control_enabled: true,
        curves: vec![
            FanCurve { fan_id: 0, points: vec![(60, 50), (40, 20)] },
            FanCurve { fan_id: 9, points: vec![] },
            FanCurve { fan_id: 1, points: vec![] },
        ],
    }
}

const IO: TuxedoIo = TuxedoIo { interface: HardwareInterface::Clevo, fan_count: 2 };

#[test]
fn a_round_over_the_fans() {
    let state = Some(settings());
    let mut events = Vec::new();
    assert_eq!(poll_fans(&state, &IO, &events), Some(FanTask::ReadTemperature(0)));
    events.push(FanEvent::Temperature(50));
    assert_eq!(poll_fans(&state, &IO, &events), Some(FanTask::SetSpeed(0, 35)));
    events.push(FanEvent::SpeedSent);
    assert_eq!(poll_fans(&state, &IO, &events), Some(FanTask::ReadTemperature(1)));
    events.push(FanEvent::Unreadable);
    assert_eq!(poll_fans(&state, &IO, &events), None);
    assert_eq!(poll_fans(&None, &IO, &[]), None);
    let off = Some(FanSettings { control_enabled: false, curves: settings().curves });
    assert_eq!(poll_fans(&off, &IO, &[]), None);
    let sorted = sort_curves(&settings());
    assert_eq!(sorted[0], [(40, 20), (60, 50)]);
    assert_eq!(
        apply_fan_curves(&IO, &settings(), &sorted, &[FanEvent::Temperature(60)]),
        Some(FanTask::SetSpeed(0, 50))
    );
}

#[test]
fn fan_settings_reach_the_fan_control() {
    let mut state = None;
    assert!(matches!(
        apply_fan_settings(&settings(), &mut state, None, &[Reply::Present(false)]),
        Step::Done(Ok(()))
    ));
    assert!(state.is_none());
    assert!(matches!(
        apply_fan_settings(&settings(), &mut state, None, &[Reply::Present(true)]),
        Step::Done(Ok(()))
    ));
    assert_eq!(state.as_ref().unwrap().curves.len(), 3);
    let off = FanSettings { control_enabled: false, curves: vec![] };
    let replies = [Reply::Present(true), Reply::Present(true)];
    match apply_fan_settings(&off, &mut state, Some(IO), &replies) {
        Step::Do(Action::Control(request)) => match request {
            Ioctl::Write(_, value) => assert_eq!(value, 0xF),
            other => panic!("{:?}", other),
        },
        other => panic!("{:?}", other),
    }
    assert!(state.is_none());
    match apply_fan_settings(&off, &mut state, None, &replies) {
        Step::Done(Err(message)) => assert_eq!(message, "tuxedo_io not available"),
        other => panic!("{:?}", other),
    }
}
