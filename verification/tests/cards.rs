use lapsphere::access::{Action, GpuRequest, Reply, Step};
use lapsphere::gpu_overclock::{
    activity, apply_gpu_overclocking, drain_rule, find_nvidia, freq_rule, power_rule,
    AdvancedGpuSettings, DrainReading, GpuActivity, GpuOverclockStats, MeasuredGpu, OffsetRule,
    OverclockEvent, OverclockState, OverclockStep, OverclockSwitches, Zone,
};
use lapsphere::hardware_cache::{
    available, get_fan_speeds, nvidia_index, refresh_hardware_cache, FanInfo, GpuInfo,
    HardwareCache, Readings,
};
use lapsphere::hardware_control::{
    reset_gpu_clocks, set_gpu_fan_auto, set_gpu_fan_speed, set_gpu_locked_clocks,
    set_gpu_power_limit, set_prime_profile,
};

fn settings() -> AdvancedGpuSettings {
    AdvancedGpuSettings {
        frequency_min: 500,
        frequency_max: 2000,
        freq_offset_min: 10,
        freq_offset_max: 200,
        drain_offset_control: true,
        high_freq_min: 1500,
        high_freq_max: 2500,
        low_freq_min: 0,
        low_freq_max: 1000,
        critical_temp_range_control: true,
        critical_temp_min: 85,
        critical_temp_max: 95,
        temperature_min: 40,
        temperature_max: 80,
        drain_offset_lmin: -5,
        drain_offset_lmax: 15,
        drain_offset_hmin: -30,
        drain_offset_hmax: 30,
        power_offset_control: true,
        plimit_min: 40,
        plimit_max: 100,
        power_offset_min: -20,
        power_offset_max: 50,
        smart_rounding_threshold: 15,
    }
}

fn stats(total_offset: i32) -> GpuOverclockStats {
    GpuOverclockStats { freq_offset: 1, drain_offset: 2, power_offset: 3, total_offset }
}

fn gpu(name: &str, status: &str, total: i32) -> MeasuredGpu {
    MeasuredGpu { name: name.to_string(), status: status.to_string(), offsets: stats(total) }
}

fn measured(status: &str, total: i32) -> OverclockEvent {
    OverclockEvent::Measured(vec![gpu("AMD Radeon", "D0", 0), gpu("NVIDIA GeForce", status, total)])
}

const ON: Option<OverclockSwitches> =
    Some(OverclockSwitches { advanced_control: true, manual_clocks: true });
const FRESH: OverclockState = OverclockState { last_applied_offset: None, stats: None };

#[test]
fn rules_by_frequency_and_power() {
    let adv = settings();
    assert_eq!(freq_rule(&adv, Zone::Low), OffsetRule::Fixed(200));
    assert_eq!(freq_rule(&adv, Zone::High), OffsetRule::Fixed(10));
    assert_eq!(freq_rule(&adv, Zone::Inside), OffsetRule::Between(200, 10));
    assert_eq!(power_rule(&adv, Zone::Low), OffsetRule::Fixed(50));
    assert_eq!(power_rule(&adv, Zone::High), OffsetRule::Fixed(-20));
    assert_eq!(power_rule(&adv, Zone::Inside), OffsetRule::Between(50, -20));
    let off = AdvancedGpuSettings { power_offset_control: false, ..adv };
    assert_eq!(power_rule(&off, Zone::Low), OffsetRule::Fixed(0));
}

#[test]
fn rules_by_temperature() {
    let adv = settings();
    let reading = |in_critical_range, above_maximum, low_frequency, high_frequency| DrainReading {
        in_critical_range,
        above_maximum,
        low_frequency,
        high_frequency,
    };
    assert_eq!(drain_rule(&adv, reading(true, true, true, true)), OffsetRule::Fixed(-5));
    assert_eq!(drain_rule(&adv, reading(true, true, false, true)), OffsetRule::Fixed(-30));
    assert_eq!(drain_rule(&adv, reading(true, true, false, false)), OffsetRule::Fixed(0));
    assert_eq!(drain_rule(&adv, reading(false, true, true, false)), OffsetRule::Fixed(15));
    assert_eq!(drain_rule(&adv, reading(false, true, false, true)), OffsetRule::Fixed(-30));
    assert_eq!(drain_rule(&adv, reading(false, true, false, false)), OffsetRule::Fixed(0));
    assert_eq!(drain_rule(&adv, reading(false, false, true, true)), OffsetRule::Between(30, -30));
    assert_eq!(drain_rule(&adv, reading(false, false, false, false)), OffsetRule::Between(-5, 15));
    let tame = AdvancedGpuSettings { critical_temp_range_control: false, ..adv };
    assert_eq!(drain_rule(&tame, reading(true, false, false, true)), OffsetRule::Between(30, -30));
    let off = AdvancedGpuSettings { drain_offset_control: false, ..adv };
    assert_eq!(drain_rule(&off, reading(true, true, true, true)), OffsetRule::Fixed(0));
}

#[test]
fn the_status_decides_what_a_card_gets() {
    assert_eq!(activity("p0"), GpuActivity::Drive);
    assert_eq!(activity("p8"), GpuActivity::TakeBack);
    assert_eq!(activity("p0 "), GpuActivity::TakeBack);
    assert_eq!(activity("p (suspended)"), GpuActivity::LeaveAlone);
    assert_eq!(activity("suspended"), GpuActivity::LeaveAlone);
    assert_eq!(activity("active"), GpuActivity::LeaveAlone);
    assert_eq!(activity(""), GpuActivity::LeaveAlone);
}

#[test]
fn nvidia_cards_are_found_in_any_case() {
    let names: Vec<String> =
        ["AMD", "GeForce by NvIdIa", "NVIDIA"].iter().map(|s| s.to_string()).collect();
    assert_eq!(find_nvidia(&names), Some(1));
    assert_eq!(find_nvidia(&names[..1].to_vec()), None);
}

#[test]
fn offsets_are_sent_when_they_change() {
    let mut state = FRESH;
    assert!(matches!(
        apply_gpu_overclocking(ON, None, &mut state, &[]),
        OverclockStep::Measure
    ));
    assert!(matches!(
        apply_gpu_overclocking(ON, None, &mut state, &[measured("P0", 45)]),
        OverclockStep::SendCore(45)
    ));
    assert_eq!(state, FRESH);
    let failure = OverclockEvent::Failed("no driver".to_string());
    match apply_gpu_overclocking(ON, None, &mut state, &[measured("P0", 45), failure]) {
        OverclockStep::Done(Err(message)) => assert_eq!(message, "no driver"),
        other => panic!("{:?}", other),
    }
    assert_eq!(state, FRESH);
    assert!(matches!(
        apply_gpu_overclocking(ON, None, &mut state, &[measured("P0", 45), OverclockEvent::Done]),
        OverclockStep::Done(Ok(()))
    ));
    assert_eq!(state.last_applied_offset, Some(45));
    assert_eq!(state.stats, Some(stats(45)));
    assert!(matches!(
        apply_gpu_overclocking(ON, None, &mut state, &[measured("P0", 45)]),
        OverclockStep::Done(Ok(()))
    ));
    assert!(matches!(
        apply_gpu_overclocking(ON, None, &mut state, &[measured("P8", 45)]),
        OverclockStep::SendCore(0)
    ));
    assert!(matches!(
        apply_gpu_overclocking(ON, None, &mut state, &[measured("P8", 45), OverclockEvent::Done]),
        OverclockStep::Done(Ok(()))
    ));
    assert_eq!(state, OverclockState { last_applied_offset: Some(0), stats: None });
}

#[test]
fn a_suspended_card_is_left_alone() {
    let before = OverclockState { last_applied_offset: Some(30), stats: Some(stats(30)) };
    let mut state = before;
    assert!(matches!(
        apply_gpu_overclocking(ON, None, &mut state, &[measured("Suspended", 45)]),
        OverclockStep::Done(Ok(()))
    ));
    assert_eq!(state, before);
    match apply_gpu_overclocking(ON, None, &mut state, &[OverclockEvent::Failed("x".to_string())]) {
        OverclockStep::Done(Err(message)) => assert_eq!(message, "x"),
        other => panic!("{:?}", other),
    }
}

#[test]
fn offsets_set_by_hand_are_taken_back_once() {
    let off = Some(OverclockSwitches { advanced_control: true, manual_clocks: false });
    let mut state = OverclockState { last_applied_offset: Some(30), stats: Some(stats(30)) };
    let mut events = Vec::new();
    let mut steps = Vec::new();
    loop {
        match apply_gpu_overclocking(off, Some(false), &mut state, &events) {
            OverclockStep::Done(result) => {
                assert_eq!(result, Ok(()));
                break;
            }
            step => {
                steps.push(format!("{:?}", step));
                events.push(OverclockEvent::Failed("ignored".to_string()));
            }
        }
    }
    assert_eq!(steps, ["SendCore(0)", "SendMemory(0)", "NoteCleared"]);
    assert_eq!(state, FRESH);
    assert!(matches!(
        apply_gpu_overclocking(off, Some(true), &mut state, &[]),
        OverclockStep::Done(Ok(()))
    ));
    let mut state = OverclockState { last_applied_offset: Some(30), stats: None };
    apply_gpu_overclocking(None, None, &mut state, &[]);
    assert_eq!(state, FRESH);
}

#[test]
fn requests_to_a_card() {
    let sent = |step: Step<()>| match step {
        Step::Do(Action::Gpu(index, request)) => (index, request),
        other => panic!("{:?}", other),
    };
    assert_eq!(sent(set_gpu_power_limit(1, 115, &[])), (1, GpuRequest::PowerLimit(115_000)));
    assert_eq!(sent(set_gpu_locked_clocks(0, 300, 1800, &[])), (0, GpuRequest::LockClocks(300, 1800)));
    assert_eq!(sent(reset_gpu_clocks(2, &[])), (2, GpuRequest::ResetClocks));
    assert_eq!(sent(set_gpu_fan_speed(0, 1, 60, &[])), (0, GpuRequest::FanSpeed(1, 60)));
    assert_eq!(sent(set_gpu_fan_auto(0, 1, &[])), (0, GpuRequest::FanAuto(1)));
    assert!(matches!(reset_gpu_clocks(0, &[Reply::Done]), Step::Done(Ok(()))));
    match reset_gpu_clocks(0, &[Reply::Failed("lost".to_string())]) {
        Step::Done(Err(message)) => assert_eq!(message, "lost"),
        other => panic!("{:?}", other),
    }
}

#[test]
fn graphics_profiles() {
    let absent = |n: usize| (0..n).map(|_| Reply::Present(false)).collect::<Vec<_>>();
    match set_prime_profile("best", &[]) {
        Step::Done(Err(message)) => assert_eq!(message, "Invalid prime profile: best"),
        other => panic!("{:?}", other),
    }
    match set_prime_profile("intel", &absent(2)) {
        Step::Do(Action::Probe(path)) => assert_eq!(path, "/usr/local/bin/optimus-manager"),
        other => panic!("{:?}", other),
    }
    for (profile, mode) in [("on-demand", "hybrid"), ("intel", "integrated"), ("nvidia", "nvidia")] {
        let mut replies = absent(1);
        replies.push(Reply::Present(true));
        match set_prime_profile(profile, &replies) {
            Step::Do(Action::Run(program, args)) => {
                assert_eq!(program, "/usr/sbin/optimus-manager");
                assert_eq!(args, ["--switch", mode, "--no-confirm"]);
            }
            other => panic!("{:?}", other),
        }
        replies.push(Reply::Exit(false, "no X".to_string()));
        match set_prime_profile(profile, &replies) {
            Step::Done(Err(message)) => assert_eq!(message, "optimus-manager command failed: no X"),
            other => panic!("{:?}", other),
        }
    }
    let mut replies = absent(6);
    match set_prime_profile("nvidia", &replies) {
        Step::Do(Action::Run(program, args)) => {
            assert_eq!(program, "prime-select");
            assert_eq!(args, ["nvidia"]);
        }
        other => panic!("{:?}", other),
    }
    replies.push(Reply::Exit(true, String::new()));
    assert!(matches!(set_prime_profile("nvidia", &replies), Step::Done(Ok(()))));
    let mut replies = absent(6);
    replies.push(Reply::Failed("not found".to_string()));
    match set_prime_profile("nvidia", &replies) {
        Step::Done(Err(message)) => assert_eq!(message, "not found"),
        other => panic!("{:?}", other),
    }
}

fn card(name: &str, nvml_index: Option<u32>) -> GpuInfo<u8> {
    GpuInfo {
        name: name.to_string(),
        status: "P0".to_string(),
        nvml_index,
        core_clock_range: None,
        core_offset_limits: None,
        memory_offset_limits: None,
        reading: 0,
    }
}

#[test]
fn the_cache_forgets_what_cannot_be_read() {
    let mut cache: HardwareCache<u8> = HardwareCache::new();
    assert!(cache.cpu_info.is_none());
    let no = || "no".to_string();
    refresh_hardware_cache(
        &mut cache,
        Readings {
            cpu_info: Ok(1),
            memory_info: Err(no()),
            gpu_info: Ok(vec![card("AMD", Some(4)), card("Nvidia", Some(3))]),
            battery_info: Ok(2),
            fan_info: Ok(vec![FanInfo { id: 7, rpm_or_percent: 40, reading: 0 }]),
            wifi_info: Ok(vec![3]),
            gamepad_info: Err(no()),
            storage_device_info: Ok(vec![4, 5]),
            mount_info: Err(no()),
            system_info: Ok(6),
        },
    );
    assert_eq!(cache.cpu_info, Some(1));
    assert_eq!(cache.memory_info, None);
    assert_eq!(cache.storage_device_info, [4, 5]);
    assert_eq!(nvidia_index(&cache.gpu_info), 3);
    assert_eq!(get_fan_speeds(&cache.fan_info), [(7, 40)]);
    assert_eq!(available(&cache.cpu_info, "CPU"), Ok(&1));
    assert_eq!(
        available(&cache.memory_info, "Memory"),
        Err("Memory info not available".to_string())
    );
    assert_eq!(nvidia_index(&vec![card("Nvidia", None)]), 0);
    assert_eq!(nvidia_index::<u8>(&vec![]), 0);
}
