//! CPU tuning: governor, frequency limits, boost, simultaneous multithreading,
//! P-state mode and energy preference.

use crate::access::{
    attempt, demand, entries, plan_attempt, plan_demand, plan_move, run_plan, Act, Action, Entry,
    Move, PlanEntry, Reply, Step,
};
use crate::text::{
    chars_of, decimal, decimal_of, found_at, join, join3, law_number_is_read_back, number,
    parse_number, same, stands_at, trim, trimmed,
};
use vstd::prelude::*;

verus! {

/// Whether a line of `text` that starts at `at` names a processor.
pub open spec fn names_processor(text: Seq<char>, at: int) -> bool {
    (at == 0 || text[at - 1] == '\n') && stands_at(text, "processor"@, at)
}

/// How many of the lines that start before `to` name a processor.
pub open spec fn processor_lines(text: Seq<char>, to: nat) -> nat
    decreases to,
{
    if to == 0 {
        0
    } else {
        processor_lines(text, (to - 1) as nat) + if names_processor(text, to - 1) {
            1nat
        } else {
            0nat
        }
    }
}

/// The number of CPUs that the text of `/proc/cpuinfo` lists.
pub open spec fn cpu_count(cpuinfo: Seq<char>) -> u32 {
    processor_lines(cpuinfo, cpuinfo.len()) as u32
}

/// Counts the CPUs in the text of `/proc/cpuinfo`.
pub fn get_cpu_count(cpuinfo: &str) -> (r: u32)
    ensures
        r == cpu_count(cpuinfo@),
{
    let text = chars_of(cpuinfo);
    let wanted = chars_of("processor");
    let mut count: usize = 0;
    let mut at: usize = 0;
    while at < text.len()
        invariant
            at <= text@.len(),
            text@ == cpuinfo@,
            wanted@ == "processor"@,
            count <= at,
            count == processor_lines(cpuinfo@, at as nat),
        decreases text@.len() - at,
    {
        if (at == 0 || text[at - 1] == '\n') && found_at(&text, &wanted, at) {
            count = count + 1;
        }
        at = at + 1;
    }
    count as u32
}

/// A file in the frequency directory of a CPU.
pub open spec fn cpufreq_file(cpu: nat, name: Seq<char>) -> Seq<char> {
    "/sys/devices/system/cpu/cpu"@ + decimal(cpu) + "/cpufreq/"@ + name
}

fn cpufreq_path(cpu: u32, name: &str) -> (r: String)
    ensures
        r@ == cpufreq_file(cpu as nat, name@),
{
    let head = join3("/sys/devices/system/cpu/cpu", decimal_of(cpu as u64).as_str(), "/cpufreq/");
    join(head.as_str(), name)
}

/// What stands before the reason when an access to a CPU fails.
pub open spec fn for_cpu(what: Seq<char>, cpu: nat) -> Seq<char> {
    what + decimal(cpu) + ": "@
}

/// The writes that set the governor, one per CPU.
pub open spec fn governor_plan(governor: Seq<char>, cpus: nat) -> Seq<Entry> {
    Seq::new(
        cpus,
        |i: int|
            demand(
                Act::Write(cpufreq_file(i as nat, "scaling_governor"@), governor),
                for_cpu("Failed to set governor for CPU "@, i as nat),
            ),
    ).push(attempt(Act::RefreshCache))
}

/// Setting the governor of all CPUs.
pub open spec fn governor_move(governor: Seq<char>, replies: Seq<Reply>) -> Move<()> {
    if replies.len() == 0 {
        Move::Do(Act::Read("/proc/cpuinfo"@))
    } else {
        match replies[0].as_text() {
            Err(message) => Move::Done(Err(message)),
            Ok(text) => plan_move(
                governor_plan(governor, cpu_count(text) as nat),
                replies.skip(1),
            ),
        }
    }
}

/// Sets the scaling governor of all CPUs.
pub fn set_cpu_governor(governor: &str, replies: &[Reply]) -> (r: Step<()>)
    ensures
        r@ == governor_move(governor@, replies@),
{
    if replies.len() == 0 {
        return Step::Do(Action::Read("/proc/cpuinfo".to_string()));
    }
    match replies[0].text() {
        Err(message) => Step::Done(Err(message)),
        Ok(text) => {
            let cpus = get_cpu_count(text.as_str());
            let mut plan: Vec<PlanEntry> = Vec::new();
            let ghost wanted = governor_plan(governor@, cpus as nat);
            let mut i: u32 = 0;
            while i < cpus
                invariant
                    i <= cpus,
                    wanted == governor_plan(governor@, cpus as nat),
                    entries(plan@) == wanted.take(i as int),
                decreases cpus - i,
            {
                let ghost before = plan@;
                plan.push(
                    plan_demand(
                        Action::Write(cpufreq_path(i, "scaling_governor"), governor.to_string()),
                        join3(
                            "Failed to set governor for CPU ",
                            decimal_of(i as u64).as_str(),
                            ": ",
                        ),
                    ),
                );
                assert(entries(plan@) =~= entries(before).push(plan@.last()@));
                assert(wanted.take(i + 1) =~= wanted.take(i as int).push(wanted[i as int]));
                i = i + 1;
            }
            let ghost before = plan@;
            plan.push(plan_attempt(Action::RefreshCache));
            assert(entries(plan@) =~= entries(before).push(plan@.last()@));
            assert(entries(plan@) =~= wanted);
            run_plan(&plan, replies, 1)
        },
    }
}

/// The number in the text of a file, or `default` where there is none.
pub open spec fn frequency_or(reply: Reply, default: u64) -> u64 {
    match reply.as_text() {
        Ok(text) => match number(trimmed(text), u64::MAX as nat) {
            Ok(n) => n as u64,
            Err(_) => default,
        },
        Err(_) => default,
    }
}

fn read_frequency(reply: &Reply, default: u64) -> (r: u64)
    ensures
        r == frequency_or(*reply, default),
{
    match reply.text() {
        Ok(text) => match parse_number(trim(text.as_str()).as_str(), u64::MAX) {
            Ok(n) => n,
            Err(_) => default,
        },
        Err(_) => default,
    }
}

/// Whether the upper limit is written before the lower one: it is when the
/// upper limit falls or the lower one rises, unless it falls below the lower
/// limit that still holds.
pub open spec fn max_first(
    min_freq: u64,
    max_freq: u64,
    current_min: u64,
    current_max: u64,
) -> bool {
    max_freq >= current_min && (max_freq < current_max || min_freq > current_min)
}

/// The write of one of the limits of a CPU.
pub open spec fn limit_entry(cpu: nat, upper: bool, min_freq: u64, max_freq: u64) -> Entry {
    if upper {
        demand(
            Act::Write(cpufreq_file(cpu, "scaling_max_freq"@), decimal(max_freq as nat)),
            for_cpu("Failed to set max frequency for CPU "@, cpu),
        )
    } else {
        demand(
            Act::Write(cpufreq_file(cpu, "scaling_min_freq"@), decimal(min_freq as nat)),
            for_cpu("Failed to set min frequency for CPU "@, cpu),
        )
    }
}

/// The writes of the limits, two per CPU.
pub open spec fn limits_plan(min_freq: u64, max_freq: u64, upper_first: bool, cpus: nat) -> Seq<
    Entry,
> {
    Seq::new(
        2 * cpus,
        |k: int| limit_entry((k / 2) as nat, upper_first == (k % 2 == 0), min_freq, max_freq),
    )
}

/// Setting the frequency limits of all CPUs.
pub open spec fn limits_move(min_freq: u64, max_freq: u64, replies: Seq<Reply>) -> Move<()> {
    if replies.len() == 0 {
        Move::Do(Act::Read("/proc/cpuinfo"@))
    } else {
        match replies[0].as_text() {
            Err(message) => Move::Done(Err(message)),
            Ok(text) => if replies.len() == 1 {
                Move::Do(Act::Read(cpufreq_file(0, "scaling_min_freq"@)))
            } else if replies.len() == 2 {
                Move::Do(Act::Read(cpufreq_file(0, "scaling_max_freq"@)))
            } else {
                plan_move(
                    limits_plan(
                        min_freq,
                        max_freq,
                        max_first(
                            min_freq,
                            max_freq,
                            frequency_or(replies[1], min_freq),
                            frequency_or(replies[2], max_freq),
                        ),
                        cpu_count(text) as nat,
                    ),
                    replies.skip(3),
                )
            },
        }
    }
}

fn write_limit(cpu: u32, upper: bool, min_freq: u64, max_freq: u64) -> (r: PlanEntry)
    ensures
        r@ == limit_entry(cpu as nat, upper, min_freq, max_freq),
{
    if upper {
        plan_demand(
            Action::Write(cpufreq_path(cpu, "scaling_max_freq"), decimal_of(max_freq)),
            join3("Failed to set max frequency for CPU ", decimal_of(cpu as u64).as_str(), ": "),
        )
    } else {
        plan_demand(
            Action::Write(cpufreq_path(cpu, "scaling_min_freq"), decimal_of(min_freq)),
            join3("Failed to set min frequency for CPU ", decimal_of(cpu as u64).as_str(), ": "),
        )
    }
}

fn set_limits_from(min_freq: u64, max_freq: u64, replies: &[Reply], from: usize) -> (r: Step<()>)
    requires
        from <= replies@.len(),
    ensures
        r@ == limits_move(min_freq, max_freq, replies@.skip(from as int)),
{
    let ghost rest = replies@.skip(from as int);
    assert(forall|k: int| 0 <= k < rest.len() ==> rest[k] == replies@[from + k]);
    if replies.len() == from {
        return Step::Do(Action::Read("/proc/cpuinfo".to_string()));
    }
    let text = match replies[from].text() {
        Err(message) => {
            return Step::Done(Err(message));
        },
        Ok(text) => text,
    };
    if replies.len() - from == 1 {
        return Step::Do(Action::Read(cpufreq_path(0, "scaling_min_freq")));
    }
    if replies.len() - from == 2 {
        return Step::Do(Action::Read(cpufreq_path(0, "scaling_max_freq")));
    }
    let cpus = get_cpu_count(text.as_str());
    let current_min = read_frequency(&replies[from + 1], min_freq);
    let current_max = read_frequency(&replies[from + 2], max_freq);
    let upper_first = max_freq >= current_min && (max_freq < current_max || min_freq
        > current_min);
    let mut plan: Vec<PlanEntry> = Vec::new();
    let ghost wanted = limits_plan(min_freq, max_freq, upper_first, cpus as nat);
    let mut i: u32 = 0;
    while i < cpus
        invariant
            i <= cpus,
            wanted == limits_plan(min_freq, max_freq, upper_first, cpus as nat),
            entries(plan@) == wanted.take(2 * i),
        decreases cpus - i,
    {
        let ghost before = plan@;
        plan.push(write_limit(i, upper_first, min_freq, max_freq));
        plan.push(write_limit(i, !upper_first, min_freq, max_freq));
        proof {
            let k = 2 * i as int;
            assert(entries(plan@) =~= entries(before).push(plan@[k]@).push(plan@[k + 1]@));
            assert(wanted[k] == plan@[k]@);
            assert(wanted[k + 1] == plan@[k + 1]@);
            assert(wanted.take(2 * (i + 1)) =~= wanted.take(k).push(wanted[k]).push(
                wanted[k + 1],
            ));
        }
        i = i + 1;
    }
    assert(wanted.take(2 * cpus) =~= wanted);
    assert(rest.skip(3) =~= replies@.skip(from + 3));
    run_plan(&plan, replies, from + 3)
}

/// Sets the frequency limits of all CPUs, in kHz, in an order in which they do
/// not cross on the way. `modified` says afterwards whether limits have been set
/// since the start.
pub fn set_cpu_frequency_limits(
    modified: &mut bool,
    min_freq: u64,
    max_freq: u64,
    replies: &[Reply],
) -> (r: Step<()>)
    ensures
        r@ == limits_move(min_freq, max_freq, replies@),
        *final(modified) == (*old(modified) || r@ == Move::<()>::Done(Ok(()))),
{
    assert(replies@.skip(0) =~= replies@);
    let r = set_limits_from(min_freq, max_freq, replies, 0);
    if matches!(r, Step::Done(Ok(()))) {
        *modified = true;
    }
    r
}

/// Restoring the limits of the hardware, if they have been modified.
pub open spec fn restore_move(modified: bool, replies: Seq<Reply>) -> Move<()> {
    if !modified {
        Move::Done(Ok(()))
    } else if replies.len() == 0 {
        Move::Do(Act::ReadHwLimits)
    } else {
        match replies[0] {
            Reply::Failed(message) => Move::Done(Err(message@)),
            Reply::Limits(Some(min), Some(max)) => limits_move(min, max, replies.skip(1)),
            _ => Move::Done(Ok(())),
        }
    }
}

/// Sets the frequency limits back to those of the hardware, if they have been
/// modified and the hardware says what they are.
pub fn restore_cpu_frequency_limits(modified: bool, replies: &[Reply]) -> (r: Step<()>)
    ensures
        r@ == restore_move(modified, replies@),
{
    if !modified {
        return Step::Done(Ok(()));
    }
    if replies.len() == 0 {
        return Step::Do(Action::ReadHwLimits);
    }
    match &replies[0] {
        Reply::Failed(message) => Step::Done(Err(message.clone())),
        Reply::Limits(Some(min), Some(max)) => set_limits_from(*min, *max, replies, 1),
        _ => Step::Done(Ok(())),
    }
}

/// The files that may control the boost, with the value that switches it, in
/// the order in which they are tried.
pub open spec fn boost_files(on: bool) -> Seq<(Seq<char>, Seq<char>)> {
    let yes = if on {
        "1"@
    } else {
        "0"@
    };
    let no = if on {
        "0"@
    } else {
        "1"@
    };
    seq![
        ("/sys/devices/system/cpu/cpufreq/boost"@, yes),
        ("/sys/devices/system/cpu/intel_pstate/no_turbo"@, no),
        ("/sys/devices/system/cpu/amd_pstate/cpb_boost"@, yes),
    ]
}

/// Writing to the first of the files that exists.
pub open spec fn first_file_move(
    files: Seq<(Seq<char>, Seq<char>)>,
    none: Seq<char>,
    replies: Seq<Reply>,
) -> Move<()>
    decreases files.len(),
{
    if files.len() == 0 {
        Move::Done(Err(none))
    } else if replies.len() == 0 {
        Move::Do(Act::Probe(files[0].0))
    } else if !replies[0].says_present() {
        first_file_move(files.drop_first(), none, replies.drop_first())
    } else if replies.len() == 1 {
        Move::Do(Act::Write(files[0].0, files[0].1))
    } else {
        match replies[1].fault() {
            None => Move::Done(Ok(())),
            Some(message) => Move::Done(Err(message)),
        }
    }
}

/// Switches the CPU boost through whichever control exists.
pub fn set_cpu_boost(enabled: bool, replies: &[Reply]) -> (r: Step<()>)
    ensures
        r@ == first_file_move(boost_files(enabled), "Boost control not available"@, replies@),
{
    let yes = if enabled {
        "1"
    } else {
        "0"
    };
    let no = if enabled {
        "0"
    } else {
        "1"
    };
    let paths: [&'static str; 3] = [
        "/sys/devices/system/cpu/cpufreq/boost",
        "/sys/devices/system/cpu/intel_pstate/no_turbo",
        "/sys/devices/system/cpu/amd_pstate/cpb_boost",
    ];
    let ghost files = boost_files(enabled);
    let ghost none = "Boost control not available"@;
    let mut i: usize = 0;
    assert(files.skip(0) =~= files);
    assert(replies@.skip(0) =~= replies@);
    while i < 3
        invariant
            i <= 3,
            i <= replies@.len(),
            files == boost_files(enabled),
            none == "Boost control not available"@,
            yes@ == (if enabled {
                "1"@
            } else {
                "0"@
            }),
            no@ == (if enabled {
                "0"@
            } else {
                "1"@
            }),
            paths@[0]@ == files[0].0,
            paths@[1]@ == files[1].0,
            paths@[2]@ == files[2].0,
            first_file_move(files, none, replies@) == first_file_move(
                files.skip(i as int),
                none,
                replies@.skip(i as int),
            ),
        decreases 3 - i,
    {
        let ghost rest = replies@.skip(i as int);
        assert(files.skip(i as int)[0] == files[i as int]);
        assert(files.skip(i as int).drop_first() =~= files.skip(i + 1));
        assert(rest.len() > 0 ==> rest[0] == replies@[i as int]);
        assert(rest.len() > 1 ==> rest[1] == replies@[i + 1]);
        assert(rest.len() > 0 ==> rest.drop_first() =~= replies@.skip(i + 1));
        if replies.len() == i {
            return Step::Do(Action::Probe(paths[i].to_string()));
        }
        if replies[i].present() {
            let value = if i == 1 {
                no
            } else {
                yes
            };
            if replies.len() == i + 1 {
                return Step::Do(Action::Write(paths[i].to_string(), value.to_string()));
            }
            return match replies[i + 1].failure() {
                None => Step::Done(Ok(())),
                Some(message) => Step::Done(Err(message)),
            };
        }
        i = i + 1;
    }
    Step::Done(Err("Boost control not available".to_string()))
}

/// Switching simultaneous multithreading.
pub open spec fn smt_entry(on: bool) -> Entry {
    Entry::Access {
        guard: Some("/sys/devices/system/cpu/smt/control"@),
        absent: Some("SMT control not available"@),
        action: Act::Write(
            "/sys/devices/system/cpu/smt/control"@,
            if on {
                "on"@
            } else {
                "off"@
            },
        ),
        fallback: None,
        failure: Some(""@),
    }
}

/// Switches simultaneous multithreading.
pub fn set_smt(enabled: bool, replies: &[Reply]) -> (r: Step<()>)
    ensures
        r@ == plan_move(seq![smt_entry(enabled)], replies@),
{
    let path = "/sys/devices/system/cpu/smt/control";
    let value = if enabled {
        "on"
    } else {
        "off"
    };
    let plan: Vec<PlanEntry> = vec![
        PlanEntry::Access {
            guard: Some(path.to_string()),
            absent: Some("SMT control not available".to_string()),
            action: Action::Write(path.to_string(), value.to_string()),
            fallback: None,
            failure: Some("".to_string()),
        },
    ];
    assert(entries(plan@) =~= seq![smt_entry(enabled)]);
    assert(replies@.skip(0) =~= replies@);
    run_plan(&plan, replies, 0)
}

/// The modes of the AMD P-state driver.
pub open spec fn amd_mode(status: Seq<char>) -> bool {
    status == "passive"@ || status == "active"@ || status == "guided"@
}

/// The modes of the Intel P-state driver.
pub open spec fn intel_mode(status: Seq<char>) -> bool {
    status == "passive"@ || status == "active"@
}

/// Setting the mode of a P-state driver: it has to be there, and to have the
/// mode.
pub open spec fn pstate_move(
    path: Seq<char>,
    absent: Seq<char>,
    invalid: Seq<char>,
    status: Seq<char>,
    known: bool,
    replies: Seq<Reply>,
) -> Move<()> {
    if replies.len() == 0 {
        Move::Do(Act::Probe(path))
    } else if !replies[0].says_present() {
        Move::Done(Err(absent))
    } else if !known {
        Move::Done(Err(invalid + status))
    } else {
        plan_move(
            seq![demand(Act::Write(path, status), ""@), attempt(Act::RefreshCache)],
            replies.skip(1),
        )
    }
}

fn set_pstate(
    path: &str,
    absent: &str,
    invalid: &str,
    status: &str,
    known: bool,
    replies: &[Reply],
) -> (r: Step<()>)
    ensures
        r@ == pstate_move(path@, absent@, invalid@, status@, known, replies@),
{
    if replies.len() == 0 {
        return Step::Do(Action::Probe(path.to_string()));
    }
    if !replies[0].present() {
        return Step::Done(Err(absent.to_string()));
    }
    if !known {
        return Step::Done(Err(join(invalid, status)));
    }
    let plan: Vec<PlanEntry> = vec![
        plan_demand(Action::Write(path.to_string(), status.to_string()), "".to_string()),
        plan_attempt(Action::RefreshCache),
    ];
    assert(entries(plan@) =~= seq![
        demand(Act::Write(path@, status@), ""@),
        attempt(Act::RefreshCache),
    ]);
    run_plan(&plan, replies, 1)
}

/// Sets the mode of the AMD P-state driver.
pub fn set_amd_pstate_status(status: &str, replies: &[Reply]) -> (r: Step<()>)
    ensures
        r@ == pstate_move(
            "/sys/devices/system/cpu/amd_pstate/status"@,
            "AMD pstate not available"@,
            "Invalid AMD pstate status: "@,
            status@,
            amd_mode(status@),
            replies@,
        ),
{
    let known = same(status, "passive") || same(status, "active") || same(status, "guided");
    set_pstate(
        "/sys/devices/system/cpu/amd_pstate/status",
        "AMD pstate not available",
        "Invalid AMD pstate status: ",
        status,
        known,
        replies,
    )
}

/// Sets the mode of the Intel P-state driver.
pub fn set_intel_pstate_status(status: &str, replies: &[Reply]) -> (r: Step<()>)
    ensures
        r@ == pstate_move(
            "/sys/devices/system/cpu/intel_pstate/status"@,
            "Intel pstate not available"@,
            "Invalid Intel pstate status: "@,
            status@,
            intel_mode(status@),
            replies@,
        ),
{
    let known = same(status, "passive") || same(status, "active");
    set_pstate(
        "/sys/devices/system/cpu/intel_pstate/status",
        "Intel pstate not available",
        "Invalid Intel pstate status: ",
        status,
        known,
        replies,
    )
}

/// The energy preferences.
pub open spec fn energy_preference(epp: Seq<char>) -> bool {
    ||| epp == "performance"@
    ||| epp == "balance_performance"@
    ||| epp == "balance_power"@
    ||| epp == "power"@
    ||| epp == "default"@
    ||| epp == "balance-performance"@
    ||| epp == "balance-power"@
}

/// The writes that set the energy preference, one for each CPU that has one.
pub open spec fn energy_plan(epp: Seq<char>, cpus: nat) -> Seq<Entry> {
    Seq::new(
        cpus,
        |i: int|
            Entry::Access {
                guard: Some(cpufreq_file(i as nat, "energy_performance_preference"@)),
                absent: None,
                action: Act::Write(cpufreq_file(i as nat, "energy_performance_preference"@), epp),
                fallback: None,
                failure: Some(for_cpu("Failed to set EPP for CPU "@, i as nat)),
            },
    )
}

/// Setting the energy preference of all CPUs.
pub open spec fn energy_move(epp: Seq<char>, replies: Seq<Reply>) -> Move<()> {
    if replies.len() == 0 {
        Move::Do(Act::Read("/proc/cpuinfo"@))
    } else {
        match replies[0].as_text() {
            Err(message) => Move::Done(Err(message)),
            Ok(text) => if !energy_preference(epp) {
                Move::Done(Err("Invalid EPP value: "@ + epp))
            } else {
                plan_move(energy_plan(epp, cpu_count(text) as nat), replies.skip(1))
            },
        }
    }
}

/// Sets the energy preference of all CPUs that have one.
pub fn set_energy_performance_preference(epp: &str, replies: &[Reply]) -> (r: Step<()>)
    ensures
        r@ == energy_move(epp@, replies@),
{
    if replies.len() == 0 {
        return Step::Do(Action::Read("/proc/cpuinfo".to_string()));
    }
    let text = match replies[0].text() {
        Err(message) => {
            return Step::Done(Err(message));
        },
        Ok(text) => text,
    };
    if !(same(epp, "performance") || same(epp, "balance_performance") || same(epp, "balance_power")
        || same(epp, "power") || same(epp, "default") || same(epp, "balance-performance") || same(
        epp,
        "balance-power",
    )) {
        return Step::Done(Err(join("Invalid EPP value: ", epp)));
    }
    let cpus = get_cpu_count(text.as_str());
    let mut plan: Vec<PlanEntry> = Vec::new();
    let ghost wanted = energy_plan(epp@, cpus as nat);
    let mut i: u32 = 0;
    while i < cpus
        invariant
            i <= cpus,
            wanted == energy_plan(epp@, cpus as nat),
            entries(plan@) == wanted.take(i as int),
        decreases cpus - i,
    {
        let ghost before = plan@;
        let path = cpufreq_path(i, "energy_performance_preference");
        plan.push(
            PlanEntry::Access {
                guard: Some(path.clone()),
                absent: None,
                action: Action::Write(path, epp.to_string()),
                fallback: None,
                failure: Some(
                    join3("Failed to set EPP for CPU ", decimal_of(i as u64).as_str(), ": "),
                ),
            },
        );
        assert(entries(plan@) =~= entries(before).push(plan@.last()@));
        assert(wanted.take(i + 1) =~= wanted.take(i as int).push(wanted[i as int]));
        i = i + 1;
    }
    assert(wanted.take(cpus as int) =~= wanted);
    run_plan(&plan, replies, 1)
}

/// The order of the writes: the upper limit comes first only where it does not
/// fall below the current lower one, and the lower limit comes first only where
/// it does not rise above the current upper one.
pub proof fn law_order_of_limits(min_freq: u64, max_freq: u64, current_min: u64, current_max: u64)
    requires
        min_freq <= max_freq,
        current_min <= current_max,
    ensures
        max_first(min_freq, max_freq, current_min, current_max) ==> current_min <= max_freq,
        !max_first(min_freq, max_freq, current_min, current_max) ==> min_freq <= current_max,
{
}

/// The lower and the upper limit of a CPU once these writes were made.
pub open spec fn limits_after(
    writes: Seq<Entry>,
    cpu: nat,
    min_freq: u64,
    max_freq: u64,
    current_min: u64,
    current_max: u64,
) -> (u64, u64) {
    (
        if writes.contains(limit_entry(cpu, false, min_freq, max_freq)) {
            min_freq
        } else {
            current_min
        },
        if writes.contains(limit_entry(cpu, true, min_freq, max_freq)) {
            max_freq
        } else {
            current_max
        },
    )
}

proof fn lemma_limit_entries_differ(
    cpu: nat,
    upper: bool,
    other: nat,
    other_upper: bool,
    min_freq: u64,
    max_freq: u64,
)
    requires
        limit_entry(cpu, upper, min_freq, max_freq) == limit_entry(
            other,
            other_upper,
            min_freq,
            max_freq,
        ),
    ensures
        cpu == other,
        upper == other_upper,
{
    reveal_strlit("scaling_max_freq");
    reveal_strlit("scaling_min_freq");
    let name = if upper {
        "scaling_max_freq"@
    } else {
        "scaling_min_freq"@
    };
    let other_name = if other_upper {
        "scaling_max_freq"@
    } else {
        "scaling_min_freq"@
    };
    let head = "/sys/devices/system/cpu/cpu"@;
    let tail = "/cpufreq/"@;
    let path = cpufreq_file(cpu, name);
    assert(path == cpufreq_file(other, other_name));
    let end = path.len() as int;
    assert(path.subrange(end - 16, end) =~= name);
    assert(path.subrange(end - 16, end) =~= other_name);
    assert("scaling_max_freq"@[9] == 'a' && "scaling_min_freq"@[9] == 'i');
    let from = head.len() as int;
    let to = end - 16 - tail.len();
    assert(path.subrange(from, to) =~= decimal(cpu));
    assert(path.subrange(from, to) =~= decimal(other));
    let max = cpu + other;
    law_number_is_read_back(cpu, max, Seq::empty(), Seq::empty());
    law_number_is_read_back(other, max, Seq::empty(), Seq::empty());
}

/// On no CPU do the limits cross, however many of the writes were made: from
/// limits in order to new ones in order every single write leaves them in order.
/// After the last write each CPU has the new limits.
pub proof fn law_limits_never_cross(
    min_freq: u64,
    max_freq: u64,
    current_min: u64,
    current_max: u64,
    cpus: nat,
    made: int,
    cpu: nat,
)
    requires
        min_freq <= max_freq,
        current_min <= current_max,
        0 <= made <= 2 * cpus,
        cpu < cpus,
    ensures
        ({
            let first = max_first(min_freq, max_freq, current_min, current_max);
            let plan = limits_plan(min_freq, max_freq, first, cpus);
            let (lower, upper) = limits_after(
                plan.take(made),
                cpu,
                min_freq,
                max_freq,
                current_min,
                current_max,
            );
            &&& lower <= upper
            &&& made == 2 * cpus ==> lower == min_freq && upper == max_freq
        }),
{
    let first = max_first(min_freq, max_freq, current_min, current_max);
    let plan = limits_plan(min_freq, max_freq, first, cpus);
    let writes = plan.take(made);
    let early = limit_entry(cpu, first, min_freq, max_freq);
    let late = limit_entry(cpu, !first, min_freq, max_freq);
    let at = 2 * cpu as int;
    assert(plan[at] == early);
    assert(plan[at + 1] == late);
    if made > at {
        assert(writes[at] == early);
    }
    if made > at + 1 {
        assert(writes[at + 1] == late);
    }
    if writes.contains(late) {
        let k = choose|k: int| 0 <= k < writes.len() && writes[k] == late;
        lemma_limit_entries_differ(
            cpu,
            !first,
            (k / 2) as nat,
            first == (k % 2 == 0),
            min_freq,
            max_freq,
        );
        assert(k == at + 1);
    }
}

/// With every write made the limits are set.
pub proof fn law_limits_are_set(
    min_freq: u64,
    max_freq: u64,
    upper_first: bool,
    cpus: nat,
    replies: Seq<Reply>,
)
    requires
        replies.len() >= 2 * cpus,
        forall|k: int| 0 <= k < replies.len() ==> (#[trigger] replies[k]).fault() is None,
    ensures
        plan_move(limits_plan(min_freq, max_freq, upper_first, cpus), replies) == Move::<()>::Done(
            Ok(()),
        ),
{
    let plan = limits_plan(min_freq, max_freq, upper_first, cpus);
    assert forall|k: int| 0 <= k < plan.len() implies plain_demand(#[trigger] plan[k]) by {
    }
    lemma_demands_met(plan, replies);
}

/// An access that is made in any case and whose failure ends its plan.
spec fn plain_demand(entry: Entry) -> bool {
    entry matches Entry::Access { guard: None, fallback: None, failure: Some(_), .. }
}

proof fn lemma_demands_met(plan: Seq<Entry>, replies: Seq<Reply>)
    requires
        replies.len() >= plan.len(),
        forall|k: int| 0 <= k < plan.len() ==> plain_demand(#[trigger] plan[k]),
        forall|k: int| 0 <= k < replies.len() ==> (#[trigger] replies[k]).fault() is None,
    ensures
        plan_move(plan, replies) == Move::<()>::Done(Ok(())),
    decreases plan.len(),
{
    if plan.len() > 0 {
        assert(plain_demand(plan[0]));
        assert(replies[0].fault() is None);
        let rest = plan.drop_first();
        let left = replies.skip(1);
        assert forall|k: int| 0 <= k < rest.len() implies plain_demand(#[trigger] rest[k]) by {
            assert(rest[k] == plan[k + 1]);
        }
        assert forall|k: int| 0 <= k < left.len() implies (#[trigger] left[k]).fault() is None by {
            assert(left[k] == replies[k + 1]);
        }
        lemma_demands_met(rest, left);
    }
}

/// Modified limits go back to those of the hardware at the end, as far as it
/// says what they are.
pub proof fn law_modified_limits_go_back(min: u64, max: u64, rest: Seq<Reply>)
    ensures
        restore_move(true, seq![Reply::Limits(Some(min), Some(max))] + rest) == limits_move(
            min,
            max,
            rest,
        ),
{
    let replies = seq![Reply::Limits(Some(min), Some(max))] + rest;
    assert(replies.skip(1) =~= rest);
    assert(replies[0] == Reply::Limits(Some(min), Some(max)));
}

/// Unmodified limits are left alone at the end.
pub proof fn law_unmodified_limits_stay(replies: Seq<Reply>)
    ensures
        restore_move(false, replies) == Move::<()>::Done(Ok(())),
{
}

} // verus!
