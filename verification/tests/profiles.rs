use lapsphere::access::GpuRequest;
use lapsphere::fan_curve::{FanCurve, FanSettings};
use lapsphere::gpu_overclock::AdvancedGpuSettings;
use lapsphere::keyboard_control::{KeyboardMode, KeyboardSettings};
use lapsphere::profile::{
    apply_profile, CpuSettings, GpuSettings, NvidiaFanSetting, Profile, ProfileMove, ProfileStep,
    StepOutcome,
};
use lapsphere::screen_control::ScreenSettings;

fn advanced() -> AdvancedGpuSettings {
    AdvancedGpuSettings {
        frequency_min: 0,
        frequency_max: 0,
        freq_offset_min: 0,
        freq_offset_max: 0,
        drain_offset_control: false,
        high_freq_min: 0,
        high_freq_max: 0,
        low_freq_min: 0,
        low_freq_max: 0,
        critical_temp_range_control: false,
        critical_temp_min: 0,
        critical_temp_max: 0,
        temperature_min: 0,
        temperature_max: 0,
        drain_offset_lmin: 0,
        drain_offset_lmax: 0,
        drain_offset_hmin: 0,
        drain_offset_hmax: 0,
        power_offset_control: false,
        plimit_min: 0,
        plimit_max: 0,
        power_offset_min: 0,
        power_offset_max: 0,
        smart_rounding_threshold: 0,
    }
}

fn bare(name: &str) -> Profile {
    Profile {
        name: name.to_string(),
        cpu_settings: CpuSettings {
            governor: None,
            tdp_profile: None,
            tdp0: None,
            tdp1: None,
            tdp2: None,
            amd_pstate_status: None,
            intel_pstate_status: None,
            energy_performance_preference: None,
            min_frequency: None,
            max_frequency: None,
            boost: None,
            smt: None,
        },
        gpu_settings: GpuSettings {
            power_limit: None,
            core_offset: None,
            memory_offset: None,
            min_gpu_clock: None,
            max_gpu_clock: None,
            nvidia_fans: vec![],
            advanced_control: false,
            manual_clocks: false,
            advanced: advanced(),
        },
        keyboard_settings: KeyboardSettings {
            control_enabled: true,
            mode: KeyboardMode::Wave { brightness: 1, speed: 1 },
        },
        screen_settings: ScreenSettings { brightness: 80, system_control: true },
        fan_settings: FanSettings {
            control_enabled: true,
            curves: vec![FanCurve { fan_id: 0, points: vec![(40, 20)] }],
        },
    }
}

fn full() -> Profile {
    let mut profile = bare("full");
    let cpu = &mut profile.cpu_settings;
    cpu.governor = Some("powersave".to_string());
    cpu.tdp_profile = Some("quiet".to_string());
    cpu.tdp0 = Some(15);
    cpu.tdp1 = Some(25);
    cpu.tdp2 = Some(35);
    cpu.amd_pstate_status = Some("active".to_string());
    cpu.intel_pstate_status = Some("passive".to_string());
    cpu.energy_performance_preference = Some("power".to_string());
    cpu.min_frequency = Some(400);
    cpu.max_frequency = Some(5000);
    cpu.boost = Some(true);
    cpu.smt = Some(false);
    let gpu = &mut profile.gpu_settings;
    gpu.power_limit = Some(80);
    gpu.core_offset = Some(50);
    gpu.memory_offset = Some(-20);
    gpu.min_gpu_clock = Some(300);
    gpu.max_gpu_clock = Some(1500);
    gpu.nvidia_fans = vec![
        NvidiaFanSetting { device_index: 0, fan_id: 0, manual: true, speed: 60 },
        NvidiaFanSetting { device_index: 1, fan_id: 2, manual: false, speed: 0 },
    ];
    profile
}

fn apply(
    profile: &Profile,
    last: &mut Option<Profile>,
    uniwill: bool,
    outcome: impl Fn(&ProfileStep) -> StepOutcome,
) -> (Vec<String>, Result<(), String>) {
    let mut done = Vec::new();
    let mut outcomes = Vec::new();
    loop {
        match apply_profile(profile, last, uniwill, &outcomes) {
            ProfileMove::Do(step) => {
                outcomes.push(outcome(&step));
                done.push(format!("{:?}", step));
            }
            ProfileMove::Done(result) => return (done, result),
        }
    }
}

fn agree(step: &ProfileStep) -> StepOutcome {
    match step {
        ProfileStep::SelectGpu => StepOutcome::GpuIndex(4),
        _ => StepOutcome::Done,
    }
}

#[test]
fn all_settings_are_applied_in_order() {
    let mut last = None;
    let (done, result) = apply(&full(), &mut last, true, agree);
    assert_eq!(result, Ok(()));
    assert_eq!(
        done,
        [
            "Governor(\"powersave\")",
            "TdpProfile(\"quiet\")",
            "TdpLimit(0, 15)",
            "TdpLimit(1, 25)",
            "TdpLimit(2, 35)",
            "AmdPstate(\"active\")",
            "IntelPstate(\"passive\")",
            "EnergyPreference(\"power\")",
            "FrequencyLimits(400, 5000)",
            "SelectGpu",
            "GpuPowerLimit(4, 80)",
            "Gpu(4, CoreOffset(50))",
            "Gpu(4, MemoryOffset(-20))",
            "Gpu(4, LockClocks(300, 1500))",
            "Boost(true)",
            "Smt(false)",
            "Keyboard",
            "Screen",
            "Fans",
            "Gpu(0, FanSpeed(0, 60))",
            "Gpu(1, FanAuto(2))",
        ]
    );
    assert!(last.unwrap().same_as(&full()));
}

#[test]
fn a_bare_profile_lets_the_clocks_go() {
    let (done, result) = apply(&bare("x"), &mut None, true, agree);
    assert_eq!(result, Ok(()));
    assert_eq!(done, ["SelectGpu", "Gpu(4, ResetClocks)", "Keyboard", "Screen", "Fans"]);
    let mut half = bare("x");
    half.cpu_settings.min_frequency = Some(1);
    half.cpu_settings.tdp0 = Some(1);
    half.gpu_settings.max_gpu_clock = Some(1);
    let (done, _) = apply(&half, &mut None, false, agree);
    assert_eq!(done, ["SelectGpu", "Gpu(4, ResetClocks)", "Keyboard", "Screen", "Fans"]);
}

#[test]
fn the_same_profile_is_applied_once() {
    let mut last = None;
    let failing = |_: &ProfileStep| StepOutcome::Failed("no".to_string());
    let (done, result) = apply(&full(), &mut last, false, failing);
    assert_eq!(done.len(), 1);
    assert_eq!(result, Err("no".to_string()));
    assert!(last.is_none());
    let (done, result) = apply(&full(), &mut last, false, agree);
    assert_eq!(done[0], "Governor(\"powersave\")");
    assert!(done.len() > 1);
    assert_eq!(result, Ok(()));
    let (done, result) = apply(&full(), &mut last, false, agree);
    assert!(done.is_empty());
    assert_eq!(result, Ok(()));
    let (done, _) = apply(&bare("other"), &mut last, false, agree);
    assert!(!done.is_empty());
    let (done, _) = apply(&full(), &mut last, false, agree);
    assert!(!done.is_empty());
}

#[test]
fn a_failed_profile_leaves_none_applied() {
    let mut last = None;
    assert_eq!(apply(&bare("one"), &mut last, false, agree).1, Ok(()));
    let broken = |step: &ProfileStep| match step {
        ProfileStep::Screen => StepOutcome::Failed("broken".to_string()),
        _ => StepOutcome::Done,
    };
    assert_eq!(apply(&bare("two"), &mut last, false, broken).1, Err("broken".to_string()));
    let (done, result) = apply(&bare("one"), &mut last, false, agree);
    assert_eq!(result, Ok(()));
    assert!(!done.is_empty());
}

#[test]
fn failures_of_the_card_are_tolerated() {
    let outcome = |step: &ProfileStep| match step {
        ProfileStep::Gpu(_, GpuRequest::LockClocks(_, _)) => StepOutcome::Failed("x".to_string()),
        ProfileStep::Gpu(_, _) | ProfileStep::GpuPowerLimit(_, _) | ProfileStep::TdpLimit(_, _) => {
            StepOutcome::Failed("no driver".to_string())
        }
        _ => StepOutcome::Done,
    };
    let (done, result) = apply(&full(), &mut None, true, outcome);
    assert_eq!(result, Ok(()));
    assert_eq!(done.len(), 21);
    assert_eq!(done[10], "GpuPowerLimit(0, 80)");
}

#[test]
fn other_failures_end_the_profile() {
    for (failing, count) in [("Smt(false)", 16), ("Keyboard", 17), ("Screen", 18), ("Fans", 19)] {
        let outcome = |step: &ProfileStep| {
            if format!("{:?}", step) == failing {
                StepOutcome::Failed("broken".to_string())
            } else {
                StepOutcome::Done
            }
        };
        let (done, result) = apply(&full(), &mut None, true, outcome);
        assert_eq!(result, Err("broken".to_string()));
        assert_eq!(done.len(), count);
    }
}

#[test]
fn profiles_differ_in_any_setting() {
    assert!(full().same_as(&full().clone()));
    let mut changed: Vec<Profile> = (0..9).map(|_| full()).collect();
    changed[0].name.push('!');
    changed[1].cpu_settings.smt = None;
    changed[2].cpu_settings.governor = Some("performance".to_string());
    changed[3].gpu_settings.nvidia_fans[1].speed = 1;
    changed[4].gpu_settings.advanced.plimit_max = 1;
    changed[5].keyboard_settings.mode = KeyboardMode::Cycle { brightness: 1, speed: 1 };
    changed[6].screen_settings.brightness = 81;
    changed[7].fan_settings.curves[0].points.push((1, 1));
    changed[8].keyboard_settings.control_enabled = false;
    for profile in &changed {
        assert!(!profile.same_as(&full()), "{:?}", profile);
        assert!(profile.same_as(&profile.clone()));
    }
}
