use lapsphere::access::{Action, Reply, Step};
use lapsphere::cpu_control::{
    get_cpu_count, restore_cpu_frequency_limits, set_amd_pstate_status, set_cpu_boost,
    set_cpu_frequency_limits, set_cpu_governor, set_energy_performance_preference,
    set_intel_pstate_status, set_smt,
};

const TWO_CPUS: &str = "processor\t: 0\nmodel name\t: x\n\nprocessor\t: 1\n";

fn describe(action: Action) -> String {
    match action {
        Action::Probe(path) => format!("probe {}", path),
        Action::Read(path) => format!("read {}", path),
        Action::Write(path, value) => format!("{} <- {}", path, value),
        other => format!("{:?}", other),
    }
}

fn run<T>(
    mut op: impl FnMut(&[Reply]) -> Step<T>,
    script: Vec<Reply>,
) -> (Vec<String>, Result<T, String>) {
    let mut done = Vec::new();
    let mut replies = Vec::new();
    let mut script = script.into_iter();
    loop {
        match op(&replies) {
            Step::Do(action) => {
                done.push(describe(action));
                replies.push(script.next().expect("one more reply"));
            }
            Step::Done(result) => {
                assert!(script.next().is_none());
                return (done, result);
            }
        }
    }
}

fn text(s: &str) -> Reply {
    Reply::Text(s.to_string())
}

fn failed(s: &str) -> Reply {
    Reply::Failed(s.to_string())
}

fn file(cpu: u32, name: &str) -> String {
    format!("/sys/devices/system/cpu/cpu{}/cpufreq/{}", cpu, name)
}

#[test]
fn processors_are_counted() {
    assert_eq!(get_cpu_count(TWO_CPUS), 2);
    assert_eq!(get_cpu_count(""), 0);
    assert_eq!(get_cpu_count(" processor : 0"), 0);
    assert_eq!(get_cpu_count("processors\nprocessor\r\n"), 2);
}

#[test]
fn the_governor_goes_to_every_processor() {
    let (done, result) = run(
        |r| set_cpu_governor("powersave", r),
        vec![text(TWO_CPUS), Reply::Done, Reply::Done, Reply::Done],
    );
    assert_eq!(result, Ok(()));
    assert_eq!(
        done,
        [
            "read /proc/cpuinfo".to_string(),
            format!("{} <- powersave", file(0, "scaling_governor")),
            format!("{} <- powersave", file(1, "scaling_governor")),
            "RefreshCache".to_string(),
        ]
    );
    assert_eq!(
        run(|r| set_cpu_governor("x", r), vec![text(TWO_CPUS), Reply::Done, failed("denied")]).1,
        Err("Failed to set governor for CPU 1: denied".to_string())
    );
    assert_eq!(
        run(|r| set_cpu_governor("x", r), vec![failed("gone")]).1,
        Err("gone".to_string())
    );
}

#[test]
fn raised_limits_are_set_from_above() {
    let mut modified = false;
    let (done, result) = run(
        |r| set_cpu_frequency_limits(&mut modified, 2500, 4000, r),
        vec![text("processor : 0\n"), text("800\n"), text("2000\n"), Reply::Done, Reply::Done],
    );
    assert_eq!(result, Ok(()));
    assert!(modified);
    assert_eq!(done[3], format!("{} <- 4000", file(0, "scaling_max_freq")));
    assert_eq!(done[4], format!("{} <- 2500", file(0, "scaling_min_freq")));
}

#[test]
fn lowered_minimum_is_set_first() {
    let mut modified = false;
    let (done, result) = run(
        |r| set_cpu_frequency_limits(&mut modified, 400, 2000, r),
        vec![text("processor : 0\n"), text("800"), failed("no"), Reply::Done, failed("busy")],
    );
    assert_eq!(result, Err("Failed to set max frequency for CPU 0: busy".to_string()));
    assert!(!modified);
    assert_eq!(done[3], format!("{} <- 400", file(0, "scaling_min_freq")));
}

#[test]
fn limits_never_cross_on_the_way() {
    let cases = [
        ((800, 2000), (400, 600)),
        ((800, 2000), (400, 800)),
        ((800, 2000), (900, 1500)),
        ((800, 2000), (2500, 3000)),
        ((800, 2000), (400, 3000)),
        ((800, 2000), (2000, 2000)),
        ((800, 800), (800, 800)),
    ];
    for (current, new) in cases {
        let mut modified = false;
        let (done, result) = run(
            |r| set_cpu_frequency_limits(&mut modified, new.0, new.1, r),
            vec![
                text("processor : 0\n"),
                text(&current.0.to_string()),
                text(&current.1.to_string()),
                Reply::Done,
                Reply::Done,
            ],
        );
        assert_eq!(result, Ok(()));
        let (mut low, mut high) = current;
        for write in &done[3..] {
            if *write == format!("{} <- {}", file(0, "scaling_min_freq"), new.0) {
                low = new.0;
            } else {
                assert_eq!(*write, format!("{} <- {}", file(0, "scaling_max_freq"), new.1));
                high = new.1;
            }
            assert!(low <= high, "{:?} to {:?}", current, new);
        }
        assert_eq!((low, high), new);
    }
}

#[test]
fn untouched_limits_are_not_restored() {
    let (done, result) = run(|r| restore_cpu_frequency_limits(false, r), vec![]);
    assert_eq!(result, Ok(()));
    assert!(done.is_empty());
    let (done, result) = run(
        |r| restore_cpu_frequency_limits(true, r),
        vec![
            Reply::Limits(Some(400), Some(5000)),
            text("processor : 0\n"),
            text("400"),
            text("3000"),
            Reply::Done,
            Reply::Done,
        ],
    );
    assert_eq!(result, Ok(()));
    assert_eq!(done[0], "ReadHwLimits");
    assert_eq!(done[4], format!("{} <- 400", file(0, "scaling_min_freq")));
    assert_eq!(done[5], format!("{} <- 5000", file(0, "scaling_max_freq")));
    let (_, result) =
        run(|r| restore_cpu_frequency_limits(true, r), vec![Reply::Limits(None, Some(1))]);
    assert_eq!(result, Ok(()));
}

#[test]
fn boost_uses_the_first_switch() {
    let (done, result) = run(
        |r| set_cpu_boost(true, r),
        vec![Reply::Present(false), Reply::Present(true), Reply::Done],
    );
    assert_eq!(result, Ok(()));
    assert_eq!(done[2], "/sys/devices/system/cpu/intel_pstate/no_turbo <- 0");
    let none = || vec![Reply::Present(false), Reply::Present(false), Reply::Present(false)];
    assert_eq!(
        run(|r| set_cpu_boost(false, r), none()).1,
        Err("Boost control not available".to_string())
    );
    let (done, _) = run(|r| set_cpu_boost(false, r), vec![Reply::Present(true), Reply::Done]);
    assert_eq!(done[1], "/sys/devices/system/cpu/cpufreq/boost <- 0");
}

#[test]
fn smt_and_pstate() {
    let (done, _) = run(|r| set_smt(false, r), vec![Reply::Present(true), Reply::Done]);
    assert_eq!(done[1], "/sys/devices/system/cpu/smt/control <- off");
    assert_eq!(
        run(|r| set_smt(true, r), vec![Reply::Present(false)]).1,
        Err("SMT control not available".to_string())
    );
    assert_eq!(
        run(|r| set_amd_pstate_status("fast", r), vec![Reply::Present(true)]).1,
        Err("Invalid AMD pstate status: fast".to_string())
    );
    assert_eq!(
        run(|r| set_amd_pstate_status("guided", r), vec![Reply::Present(false)]).1,
        Err("AMD pstate not available".to_string())
    );
    assert_eq!(
        run(|r| set_intel_pstate_status("guided", r), vec![Reply::Present(true)]).1,
        Err("Invalid Intel pstate status: guided".to_string())
    );
    assert_eq!(
        run(|r| set_intel_pstate_status("active", r), vec![Reply::Present(false)]).1,
        Err("Intel pstate not available".to_string())
    );
    let (done, result) = run(
        |r| set_amd_pstate_status("guided", r),
        vec![Reply::Present(true), Reply::Done, Reply::Done],
    );
    assert_eq!(result, Ok(()));
    assert_eq!(done[1], "/sys/devices/system/cpu/amd_pstate/status <- guided");
    assert_eq!(done[2], "RefreshCache");
}

#[test]
fn energy_preference_skips_processors_without_it() {
    let (done, result) = run(
        |r| set_energy_performance_preference("balance_power", r),
        vec![text(TWO_CPUS), Reply::Present(false), Reply::Present(true), Reply::Done],
    );
    assert_eq!(result, Ok(()));
    assert_eq!(
        done[3],
        format!("{} <- balance_power", file(1, "energy_performance_preference"))
    );
    assert_eq!(
        run(|r| set_energy_performance_preference("max", r), vec![text(TWO_CPUS)]).1,
        Err("Invalid EPP value: max".to_string())
    );
    assert_eq!(
        run(
            |r| set_energy_performance_preference("power", r),
            vec![text(TWO_CPUS), Reply::Present(true), failed("denied")]
        )
        .1,
        Err("Failed to set EPP for CPU 0: denied".to_string())
    );
}
