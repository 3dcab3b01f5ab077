//! What holds of tuning the processor: the accesses that each setting makes on any
//! machine.

use crate::access::{plan_move, Act, Entry, Move, Reply};
use crate::cpu_control::{
    amd_mode, boost_files, cpu_count, energy_move, energy_plan, first_file_move, governor_move,
    governor_plan, intel_mode, limits_move, limits_plan, processor_lines, pstate_move, restore_move,
    smt_entry,
};
use crate::session_laws::{
    answers, entry_acts, entry_break, for_each, law_plan_performs, lemma_for_each, lemma_one_entry,
    lemma_unbroken_sum, performs, plan_acts, plan_outcome,
};
use crate::text::{decimal, has_prefix, number, stands_at, trimmed};
use vstd::prelude::*;

verus! {

/// A file in the frequency directory of a processor.
pub open spec fn cpu_file(cpu: int, name: Seq<char>) -> Seq<char> {
    "/sys/devices/system/cpu/cpu"@ + decimal(cpu as nat) + "/cpufreq/"@ + name
}

/// The question for the processors.
pub open spec fn ask_cpus() -> Act {
    Act::Read("/proc/cpuinfo"@)
}

proof fn lemma_lines_of_sum(a: Seq<char>, b: Seq<char>, to: nat)
    requires
        to <= b.len(),
    ensures
        processor_lines(a.push('\n') + b, a.len() + 1 + to) == processor_lines(
            a.push('\n') + b,
            a.len() + 1,
        ) + processor_lines(b, to),
    decreases to,
{
    let all = a.push('\n') + b;
    if to > 0 {
        lemma_lines_of_sum(a, b, (to - 1) as nat);
        let at = to - 1;
        let n = "processor"@.len() as int;
        if at == 0 {
            assert(all[a.len() as int] == '\n');
        } else {
            assert(all[a.len() + at] == b[at - 1]);
        }
        if at + n <= b.len() {
            assert(all.subrange(a.len() + 1 + at, a.len() + 1 + at + n) =~= b.subrange(at, at + n));
        }
    }
}

proof fn lemma_lines_before_break(a: Seq<char>, b: Seq<char>, to: nat)
    requires
        to <= a.len(),
    ensures
        processor_lines(a.push('\n') + b, to) == processor_lines(a, to),
    decreases to,
{
    reveal_strlit("processor");
    let all = a.push('\n') + b;
    if to > 0 {
        lemma_lines_before_break(a, b, (to - 1) as nat);
        let at = to - 1;
        let n = "processor"@.len() as int;
        if at > 0 {
            assert(all[at - 1] == a[at - 1]);
        }
        if at + n <= a.len() {
            assert(all.subrange(at, at + n) =~= a.subrange(at, at + n));
        } else if stands_at(all, "processor"@, at) {
            let i = a.len() - at;
            assert(all.subrange(at, at + n)[i] == all[a.len() as int]);
            assert("processor"@[i] == '\n');
        }
    }
}

proof fn lemma_one_line(line: Seq<char>, to: nat)
    requires
        !line.contains('\n'),
        to <= line.len(),
    ensures
        processor_lines(line, to) == (if to > 0 && has_prefix(line, "processor"@) {
            1nat
        } else {
            0nat
        }),
    decreases to,
{
    reveal_strlit("processor");
    let n = "processor"@.len() as int;
    if to > 0 {
        lemma_one_line(line, (to - 1) as nat);
        let at = to - 1;
        if at > 0 {
            assert(line.contains(line[at - 1]));
        } else {
            if has_prefix(line, "processor"@) {
                assert(line.subrange(0, n) =~= "processor"@);
            }
            if stands_at(line, "processor"@, 0) {
                assert("processor"@.is_prefix_of(line));
            }
        }
    }
}

/// The processors are counted line by line: a line counts if it begins with the
/// word, and what stands behind a line break is counted for itself.
pub proof fn law_processors_are_counted(line: Seq<char>, rest: Seq<char>)
    requires
        !line.contains('\n'),
    ensures
        processor_lines(line, line.len()) == (if has_prefix(line, "processor"@) {
            1nat
        } else {
            0nat
        }),
        processor_lines(line.push('\n') + rest, line.len() + 1 + rest.len()) == processor_lines(
            line,
            line.len(),
        ) + processor_lines(rest, rest.len()),
        cpu_count(rest) == processor_lines(rest, rest.len()) as u32,
{
    reveal_strlit("processor");
    lemma_one_line(line, line.len());
    lemma_lines_of_sum(line, rest, rest.len());
    lemma_lines_before_break(line, rest, line.len());
    let all = line.push('\n') + rest;
    let at = line.len() as int;
    let n = "processor"@.len() as int;
    if stands_at(all, "processor"@, at) {
        assert(all.subrange(at, at + n)[0] == all[at]);
        assert("processor"@[0] == '\n');
    }
    if line.len() == 0 {
        if has_prefix(line, "processor"@) {
            assert("processor"@.len() <= line.len());
        }
    }
}

/// An operation that asks for the processors and then carries out a plan.
proof fn lemma_behind_question(
    op: spec_fn(Seq<Reply>) -> Move<()>,
    asked: Seq<Act>,
    plan: Seq<Entry>,
    world: spec_fn(Act) -> Reply,
)
    requires
        forall|k: int|
            0 <= k < asked.len() ==> op(#[trigger] answers(world, asked.take(k))) == Move::<()>::Do(
                asked[k],
            ),
        forall|later: Seq<Reply>|
            op(#[trigger] (answers(world, asked) + later)) == plan_move(plan, later),
    ensures
        performs(op, world, asked + plan_acts(plan, world), plan_outcome(plan, world)),
{
    law_plan_performs(plan, world);
    let planned = |replies: Seq<Reply>| plan_move(plan, replies);
    let rest = plan_acts(plan, world);
    let acts = asked + rest;
    let n = asked.len() as int;
    assert forall|k: int| 0 <= k < acts.len() implies op(#[trigger] answers(world, acts.take(k)))
        == Move::<()>::Do(acts[k]) by {
        if k < n {
            assert(acts.take(k) =~= asked.take(k));
        } else {
            let later = answers(world, rest.take(k - n));
            assert(answers(world, acts.take(k)) =~= answers(world, asked) + later);
            assert(planned(later) == Move::<()>::Do(rest[k - n]));
        }
    }
    let later = answers(world, rest);
    assert(answers(world, acts) =~= answers(world, asked) + later);
    assert(planned(later) == Move::<()>::Done(plan_outcome(plan, world)));
}

/// The number of processors that the machine reports.
pub open spec fn cpus_of(world: spec_fn(Act) -> Reply) -> nat {
    match world(ask_cpus()) {
        Reply::Text(text) => cpu_count(text@) as nat,
        _ => 0,
    }
}

/// The write of the governor of a processor.
pub open spec fn governor_write(cpu: int, governor: Seq<char>) -> Act {
    Act::Write(cpu_file(cpu, "scaling_governor"@), governor)
}

/// Setting the governor writes it for every processor, in order, and then reads the
/// hardware anew. Without the list of processors nothing is written.
pub proof fn law_governor_of_every_processor(governor: Seq<char>, world: spec_fn(Act) -> Reply)
    requires
        forall|i: int|
            0 <= i < cpus_of(world) ==> !(world(#[trigger] governor_write(i, governor)) is Failed),
    ensures
        ({
            let op = |replies: Seq<Reply>| governor_move(governor, replies);
            &&& world(ask_cpus()) is Text ==> performs(
                op,
                world,
                seq![ask_cpus()] + for_each(
                    cpus_of(world),
                    |i: int| seq![governor_write(i, governor)],
                ) + seq![Act::RefreshCache],
                Ok(()),
            )
            &&& world(ask_cpus()) matches Reply::Failed(reason) ==> performs(
                op,
                world,
                seq![ask_cpus()],
                Err(reason@),
            )
        }),
{
    let op = |replies: Seq<Reply>| governor_move(governor, replies);
    let asked = seq![ask_cpus()];
    assert(answers(world, asked) =~= seq![world(ask_cpus())]);
    assert forall|k: int| 0 <= k < asked.len() implies op(#[trigger] answers(world, asked.take(k)))
        == Move::<()>::Do(asked[k]) by {
        assert(answers(world, asked.take(k)) =~= Seq::<Reply>::empty());
    }
    if world(ask_cpus()) is Text {
        let n = cpus_of(world);
        let plan = governor_plan(governor, n);
        let writes = plan.drop_last();
        assert forall|later: Seq<Reply>|
            op(#[trigger] (answers(world, asked) + later)) == plan_move(plan, later) by {
            assert((answers(world, asked) + later).skip(1) =~= later);
            assert((answers(world, asked) + later)[0] == world(ask_cpus()));
        }
        lemma_behind_question(op, asked, plan, world);
        assert forall|i: int| 0 <= i < n implies entry_acts(#[trigger] writes[i], world) == seq![
            governor_write(i, governor),
        ] && entry_break(writes[i], world) is None by {
            assert(!(world(governor_write(i, governor)) is Failed));
            assert(entry_acts(writes[i], world) =~= seq![governor_write(i, governor)]);
        }
        lemma_for_each(writes, world, |i: int| seq![governor_write(i, governor)]);
        let last = plan.last();
        lemma_one_entry(last, world);
        lemma_unbroken_sum(writes, seq![last], world);
        assert(plan =~= writes + seq![last]);
        assert(entry_acts(last, world) =~= seq![Act::RefreshCache]);
        assert(asked + (for_each(n, |i: int| seq![governor_write(i, governor)]) + seq![
            Act::RefreshCache,
        ]) =~= asked + for_each(n, |i: int| seq![governor_write(i, governor)]) + seq![
            Act::RefreshCache,
        ]);
    }
}

/// The first processor whose governor cannot be written ends it, with its number and
/// the reason; no other one is written after it.
pub proof fn law_failed_governor(
    governor: Seq<char>,
    world: spec_fn(Act) -> Reply,
    at: nat,
    reason: String,
)
    requires
        at < cpus_of(world),
        forall|i: int|
            0 <= i < at ==> !(world(#[trigger] governor_write(i, governor)) is Failed),
        world(governor_write(at as int, governor)) == Reply::Failed(reason),
    ensures
        performs(
            |replies: Seq<Reply>| governor_move(governor, replies),
            world,
            seq![ask_cpus()] + for_each(at + 1, |i: int| seq![governor_write(i, governor)]),
            Err("Failed to set governor for CPU "@ + decimal(at) + ": "@ + reason@),
        ),
{
    let op = |replies: Seq<Reply>| governor_move(governor, replies);
    let asked = seq![ask_cpus()];
    assert(answers(world, asked) =~= seq![world(ask_cpus())]);
    assert forall|k: int| 0 <= k < asked.len() implies op(#[trigger] answers(world, asked.take(k)))
        == Move::<()>::Do(asked[k]) by {
        assert(answers(world, asked.take(k)) =~= Seq::<Reply>::empty());
    }
    let n = cpus_of(world);
    let plan = governor_plan(governor, n);
    assert forall|later: Seq<Reply>|
        op(#[trigger] (answers(world, asked) + later)) == plan_move(plan, later) by {
        assert((answers(world, asked) + later).skip(1) =~= later);
        assert((answers(world, asked) + later)[0] == world(ask_cpus()));
    }
    lemma_behind_question(op, asked, plan, world);
    let acts = |i: int| seq![governor_write(i, governor)];
    let head = plan.take(at as int);
    assert forall|i: int| 0 <= i < at implies entry_acts(#[trigger] head[i], world) == acts(i)
        && entry_break(head[i], world) is None by {
        assert(!(world(governor_write(i, governor)) is Failed));
        assert(entry_acts(head[i], world) =~= acts(i));
    }
    lemma_for_each(head, world, acts);
    let tail = plan.skip(at as int);
    lemma_unbroken_sum(head, tail, world);
    assert(plan =~= head + tail);
    assert(tail[0] == plan[at as int]);
    assert(entry_break(tail[0], world) is Some);
    assert(entry_acts(tail[0], world) =~= acts(at as int));
    assert(asked + (for_each(at, acts) + acts(at as int)) =~= asked + for_each(at + 1, acts));
}

/// The number in a file, or another one where there is none.
pub open spec fn number_or(reply: Reply, other: u64) -> int {
    match reply {
        Reply::Text(text) => match number(trimmed(text@), 0xffff_ffff_ffff_ffff) {
            Ok(n) => n as int,
            Err(_) => other as int,
        },
        _ => other as int,
    }
}

/// The write of a limit of a processor.
pub open spec fn limit_write(cpu: int, upper: bool, min: u64, max: u64) -> Act {
    if upper {
        Act::Write(cpu_file(cpu, "scaling_max_freq"@), decimal(max as nat))
    } else {
        Act::Write(cpu_file(cpu, "scaling_min_freq"@), decimal(min as nat))
    }
}

/// The questions before the limits are set.
pub open spec fn limit_questions() -> Seq<Act> {
    seq![
        ask_cpus(),
        Act::Read(cpu_file(0, "scaling_min_freq"@)),
        Act::Read(cpu_file(0, "scaling_max_freq"@)),
    ]
}

/// Setting the limits asks for those of the first processor, and then writes both
/// limits of every processor: the upper one first exactly if it falls or the lower
/// one rises, and it does not fall below the lower one that still holds.
pub proof fn law_limits_of_every_processor(min: u64, max: u64, world: spec_fn(Act) -> Reply)
    requires
        world(ask_cpus()) is Text,
        forall|i: int, upper: bool|
            0 <= i < cpus_of(world) ==> !(world(#[trigger] limit_write(i, upper, min, max))
                is Failed),
    ensures
        ({
            let low = number_or(world(limit_questions()[1]), min);
            let high = number_or(world(limit_questions()[2]), max);
            let first = max >= low && (max < high || min > low);
            performs(
                |replies: Seq<Reply>| limits_move(min, max, replies),
                world,
                limit_questions() + for_each(
                    2 * cpus_of(world),
                    |k: int| seq![limit_write(k / 2, first == (k % 2 == 0), min, max)],
                ),
                Ok(()),
            )
        }),
{
    let op = |replies: Seq<Reply>| limits_move(min, max, replies);
    let asked = limit_questions();
    let low = number_or(world(limit_questions()[1]), min);
    let high = number_or(world(limit_questions()[2]), max);
    let first = max >= low && (max < high || min > low);
    let n = cpus_of(world);
    let plan = limits_plan(min, max, first, n);
    let base = answers(world, asked);
    assert(base[0] == world(asked[0]) && base[1] == world(asked[1]) && base[2] == world(asked[2]));
    assert forall|k: int| 0 <= k < asked.len() implies op(#[trigger] answers(world, asked.take(k)))
        == Move::<()>::Do(asked[k]) by {
        let replies = answers(world, asked.take(k));
        assert(replies.len() == k);
        if k > 0 {
            assert(replies[0] == world(asked[0]));
        }
    }
    assert forall|later: Seq<Reply>|
        op(#[trigger] (base + later)) == plan_move(plan, later) by {
        let replies = base + later;
        assert(replies.skip(3) =~= later);
        assert(replies[0] == base[0] && replies[1] == base[1] && replies[2] == base[2]);
        lemma_numbers(world, min, max);
    }
    lemma_behind_question(op, asked, plan, world);
    let acts = |k: int| seq![limit_write(k / 2, first == (k % 2 == 0), min, max)];
    assert forall|k: int| 0 <= k < plan.len() implies entry_acts(#[trigger] plan[k], world)
        == acts(k) && entry_break(plan[k], world) is None by {
        let upper = first == (k % 2 == 0);
        assert(!(world(limit_write(k / 2, upper, min, max)) is Failed));
        assert(entry_acts(plan[k], world) =~= acts(k));
    }
    lemma_for_each(plan, world, acts);
}

proof fn lemma_numbers(world: spec_fn(Act) -> Reply, min: u64, max: u64)
    ensures
        ({
            let low = world(limit_questions()[1]);
            let high = world(limit_questions()[2]);
            &&& crate::cpu_control::frequency_or(low, min) == number_or(low, min)
            &&& crate::cpu_control::frequency_or(high, max) == number_or(high, max)
        }),
{
    let low = world(limit_questions()[1]);
    let high = world(limit_questions()[2]);
    if let Reply::Text(text) = low {
        crate::text::lemma_number_bound(trimmed(text@), u64::MAX as nat);
    }
    if let Reply::Text(text) = high {
        crate::text::lemma_number_bound(trimmed(text@), u64::MAX as nat);
    }
}

/// Limits that were modified are set back to those of the hardware, if it says both;
/// if it cannot be asked that is the error, and otherwise nothing is done.
pub proof fn law_limits_are_restored(rest: Seq<Reply>, min: u64, max: u64, reason: String)
    ensures
        restore_move(false, rest) == Move::<()>::Done(Ok(())),
        restore_move(true, Seq::empty()) == Move::<()>::Do(Act::ReadHwLimits),
        restore_move(true, seq![Reply::Limits(Some(min), Some(max))] + rest) == limits_move(
            min,
            max,
            rest,
        ),
        restore_move(true, seq![Reply::Limits(None, Some(max))]) == Move::<()>::Done(Ok(())),
        restore_move(true, seq![Reply::Limits(Some(min), None)]) == Move::<()>::Done(Ok(())),
        restore_move(true, seq![Reply::Limits(None, None)]) == Move::<()>::Done(Ok(())),
        restore_move(true, seq![Reply::Failed(reason)]) == Move::<()>::Done(Err(reason@)),
{
    let replies = seq![Reply::Limits(Some(min), Some(max))] + rest;
    assert(replies.skip(1) =~= rest);
    assert(replies[0] == Reply::Limits(Some(min), Some(max)));
}

/// A file is there.
pub open spec fn there(path: Seq<char>, world: spec_fn(Act) -> Reply) -> bool {
    world(Act::Probe(path)) == Reply::Present(true)
}

/// The outcome of a write.
pub open spec fn written(reply: Reply, prefix: Seq<char>) -> Result<(), Seq<char>> {
    match reply {
        Reply::Failed(reason) => Err(prefix + reason@),
        _ => Ok(()),
    }
}

/// The boost is switched by the first of three controls that is there. The one of
/// Intel takes the opposite: it says whether there is no turbo.
pub proof fn law_boost_is_switched(on: bool, world: spec_fn(Act) -> Reply)
    ensures
        ({
            let op = |replies: Seq<Reply>|
                first_file_move(boost_files(on), "Boost control not available"@, replies);
            let yes = if on {
                "1"@
            } else {
                "0"@
            };
            let no = if on {
                "0"@
            } else {
                "1"@
            };
            let a = "/sys/devices/system/cpu/cpufreq/boost"@;
            let b = "/sys/devices/system/cpu/intel_pstate/no_turbo"@;
            let c = "/sys/devices/system/cpu/amd_pstate/cpb_boost"@;
            let ask = seq![Act::Probe(a), Act::Probe(b), Act::Probe(c)];
            if there(a, world) {
                performs(
                    op,
                    world,
                    ask.take(1).push(Act::Write(a, yes)),
                    written(world(Act::Write(a, yes)), Seq::empty()),
                )
            } else if there(b, world) {
                performs(
                    op,
                    world,
                    ask.take(2).push(Act::Write(b, no)),
                    written(world(Act::Write(b, no)), Seq::empty()),
                )
            } else if there(c, world) {
                performs(
                    op,
                    world,
                    ask.push(Act::Write(c, yes)),
                    written(world(Act::Write(c, yes)), Seq::empty()),
                )
            } else {
                performs(op, world, ask, Err("Boost control not available"@))
            }
        }),
{
    let none = "Boost control not available"@;
    let files = boost_files(on);
    let op = |replies: Seq<Reply>| first_file_move(files, none, replies);
    assert(files.skip(0) =~= files);
    let ask = Seq::new(files.len(), |i: int| Act::Probe(files[i].0));
    lemma_first_file(files, none, world);
    assert(ask =~= seq![
        Act::Probe("/sys/devices/system/cpu/cpufreq/boost"@),
        Act::Probe("/sys/devices/system/cpu/intel_pstate/no_turbo"@),
        Act::Probe("/sys/devices/system/cpu/amd_pstate/cpb_boost"@),
    ]);
    reveal_with_fuel(first_there, 4);
    assert(ask.take(3) =~= ask);
    assert forall|r: Seq<char>| #[trigger] (Seq::<char>::empty() + r) == r by {
        assert(Seq::<char>::empty() + r =~= r);
    }
}

/// The first of the files that is there.
spec fn first_there(
    files: Seq<(Seq<char>, Seq<char>)>,
    from: int,
    world: spec_fn(Act) -> Reply,
) -> int
    decreases files.len() - from,
{
    if from < 0 || from >= files.len() {
        files.len() as int
    } else if there(files[from].0, world) {
        from
    } else {
        first_there(files, from + 1, world)
    }
}

proof fn lemma_first_file(
    files: Seq<(Seq<char>, Seq<char>)>,
    none: Seq<char>,
    world: spec_fn(Act) -> Reply,
)
    ensures
        ({
            let op = |replies: Seq<Reply>| first_file_move(files, none, replies);
            let ask = Seq::new(files.len(), |i: int| Act::Probe(files[i].0));
            let at = first_there(files, 0, world);
            &&& 0 <= at <= files.len()
            &&& at < files.len() ==> performs(
                op,
                world,
                ask.take(at + 1).push(Act::Write(files[at].0, files[at].1)),
                match world(Act::Write(files[at].0, files[at].1)) {
                    Reply::Failed(reason) => Err(reason@),
                    _ => Ok(()),
                },
            )
            &&& at == files.len() ==> performs(op, world, ask, Err(none))
        }),
    decreases files.len(),
{
    let op = |replies: Seq<Reply>| first_file_move(files, none, replies);
    let ask = Seq::new(files.len(), |i: int| Act::Probe(files[i].0));
    if files.len() == 0 {
        assert(answers(world, ask) =~= Seq::<Reply>::empty());
    } else {
        let rest = files.drop_first();
        let rest_op = |replies: Seq<Reply>| first_file_move(rest, none, replies);
        let rest_ask = Seq::new(rest.len(), |i: int| Act::Probe(rest[i].0));
        lemma_first_file(rest, none, world);
        lemma_first_shift(files, 1, world);
        let at = first_there(files, 0, world);
        if at == 0 {
            let acts = ask.take(1).push(Act::Write(files[0].0, files[0].1));
            assert forall|k: int| 0 <= k < acts.len() implies op(
                #[trigger] answers(world, acts.take(k)),
            ) == Move::<()>::Do(acts[k]) by {
                let replies = answers(world, acts.take(k));
                assert(replies.len() == k);
                if k > 0 {
                    assert(replies[0] == world(acts[0]));
                }
            }
            let replies = answers(world, acts);
            assert(replies[0] == world(acts[0]) && replies[1] == world(acts[1]));
        } else {
            let rest_acts = if at < files.len() {
                rest_ask.take(at).push(Act::Write(files[at].0, files[at].1))
            } else {
                rest_ask
            };
            let acts = if at < files.len() {
                ask.take(at + 1).push(Act::Write(files[at].0, files[at].1))
            } else {
                ask
            };
            assert(acts =~= seq![Act::Probe(files[0].0)] + rest_acts);
            if at < files.len() {
                assert(rest[at - 1] == files[at]);
            }
            assert forall|k: int| 0 < k <= acts.len() implies op(
                #[trigger] answers(world, acts.take(k)),
            ) == rest_op(answers(world, rest_acts.take(k - 1))) by {
                let replies = answers(world, acts.take(k));
                assert(replies[0] == world(acts[0]));
                assert(replies.drop_first() =~= answers(world, rest_acts.take(k - 1)));
            }
            assert forall|k: int| 0 <= k < acts.len() implies op(
                #[trigger] answers(world, acts.take(k)),
            ) == Move::<()>::Do(acts[k]) by {
                if k == 0 {
                    assert(answers(world, acts.take(k)) =~= Seq::<Reply>::empty());
                } else {
                    assert(rest_op(answers(world, rest_acts.take(k - 1))) == Move::<()>::Do(
                        rest_acts[k - 1],
                    ));
                }
            }
            assert(acts.take(acts.len() as int) =~= acts);
            assert(rest_acts.take(rest_acts.len() as int) =~= rest_acts);
        }
    }
}

proof fn lemma_first_shift(
    files: Seq<(Seq<char>, Seq<char>)>,
    from: int,
    world: spec_fn(Act) -> Reply,
)
    requires
        files.len() > 0,
        1 <= from,
    ensures
        first_there(files, from, world) == first_there(files.drop_first(), from - 1, world) + 1,
    decreases files.len() - from,
{
    if from < files.len() {
        assert(files.drop_first()[from - 1] == files[from]);
        lemma_first_shift(files, from + 1, world);
    }
}

/// Multithreading is switched on and off through its control, which has to be there.
pub proof fn law_smt_is_switched(on: bool, world: spec_fn(Act) -> Reply)
    ensures
        ({
            let op = |replies: Seq<Reply>| plan_move(seq![smt_entry(on)], replies);
            let file = "/sys/devices/system/cpu/smt/control"@;
            let sent = Act::Write(
                file,
                if on {
                    "on"@
                } else {
                    "off"@
                },
            );
            if there(file, world) {
                performs(
                    op,
                    world,
                    seq![Act::Probe(file), sent],
                    written(world(sent), Seq::empty()),
                )
            } else {
                performs(op, world, seq![Act::Probe(file)], Err("SMT control not available"@))
            }
        }),
{
    let entry = smt_entry(on);
    let file = "/sys/devices/system/cpu/smt/control"@;
    let sent = Act::Write(
        file,
        if on {
            "on"@
        } else {
            "off"@
        },
    );
    lemma_one_entry(entry, world);
    law_plan_performs(seq![entry], world);
    reveal_strlit("");
    assert forall|r: Seq<char>| #[trigger] (""@ + r) == Seq::<char>::empty() + r by {
        assert(""@ + r =~= Seq::<char>::empty() + r);
    }
    if there(file, world) {
        assert(entry_acts(entry, world) =~= seq![Act::Probe(file), sent]);
    } else {
        assert(entry_acts(entry, world) =~= seq![Act::Probe(file)]);
    }
}

/// The mode of a P-state driver is written to its file if the driver is there and has
/// the mode; then the hardware is read anew, whatever comes of it.
pub proof fn law_pstate_is_set(
    path: Seq<char>,
    absent: Seq<char>,
    invalid: Seq<char>,
    status: Seq<char>,
    known: bool,
    world: spec_fn(Act) -> Reply,
)
    ensures
        ({
            let op = |replies: Seq<Reply>|
                pstate_move(path, absent, invalid, status, known, replies);
            let sent = Act::Write(path, status);
            if !there(path, world) {
                performs(op, world, seq![Act::Probe(path)], Err(absent))
            } else if !known {
                performs(op, world, seq![Act::Probe(path)], Err(invalid + status))
            } else if world(sent) is Failed {
                performs(
                    op,
                    world,
                    seq![Act::Probe(path), sent],
                    written(world(sent), Seq::empty()),
                )
            } else {
                performs(op, world, seq![Act::Probe(path), sent, Act::RefreshCache], Ok(()))
            }
        }),
        amd_mode(status) <==> status == "active"@ || status == "passive"@ || status == "guided"@,
        intel_mode(status) <==> status == "active"@ || status == "passive"@,
{
    reveal_with_fuel(plan_move, 3);
    let op = |replies: Seq<Reply>| pstate_move(path, absent, invalid, status, known, replies);
    let sent = Act::Write(path, status);
    let acts = seq![Act::Probe(path), sent, Act::RefreshCache];
    reveal_strlit("");
    assert forall|r: Seq<char>| #[trigger] (""@ + r) == Seq::<char>::empty() + r by {
        assert(""@ + r =~= Seq::<char>::empty() + r);
    }
    assert forall|k: int| 0 <= k <= 3 implies {
        let replies = #[trigger] answers(world, acts.take(k));
        &&& replies.len() == k
        &&& k > 0 ==> replies[0] == world(acts[0]) && replies.skip(1).len() == k - 1
        &&& k > 1 ==> replies.skip(1)[0] == world(acts[1]) && replies.skip(1).skip(1).len() == k - 2
        &&& k > 2 ==> replies.skip(1).skip(1)[0] == world(acts[2])
    } by {
        let replies = answers(world, acts.take(k));
        if k > 0 {
            assert(replies[0] == world(acts[0]));
        }
        if k > 1 {
            assert(replies.skip(1)[0] == world(acts[1]));
        }
        if k > 2 {
            assert(replies.skip(1).skip(1)[0] == world(acts[2]));
        }
    }
    let one = seq![Act::Probe(path)];
    let two = seq![Act::Probe(path), sent];
    assert forall|k: int| 0 <= k < 1 implies op(#[trigger] answers(world, one.take(k)))
        == Move::<()>::Do(one[k]) by {
        assert(one.take(k) =~= acts.take(k));
        assert(answers(world, acts.take(k)).len() == k);
    }
    assert(acts.take(1) =~= one);
    assert(acts.take(2) =~= two);
    assert(acts.take(3) =~= acts);
    assert(answers(world, acts.take(1)).len() == 1);
    if there(path, world) && known {
        assert forall|k: int| 0 <= k < 2 implies op(#[trigger] answers(world, two.take(k)))
            == Move::<()>::Do(two[k]) by {
            assert(two.take(k) =~= acts.take(k));
            assert(answers(world, acts.take(k)).len() == k);
        }
        assert(answers(world, acts.take(2)).len() == 2);
        if !(world(sent) is Failed) {
            assert forall|k: int| 0 <= k < 3 implies op(#[trigger] answers(world, acts.take(k)))
                == Move::<()>::Do(acts[k]) by {
                assert(answers(world, acts.take(k)).len() == k);
            }
            assert(answers(world, acts.take(3)).len() == 3);
        }
    }
}

/// The write of the energy preference of a processor, if it has one.
pub open spec fn energy_acts(cpu: int, epp: Seq<char>, world: spec_fn(Act) -> Reply) -> Seq<Act> {
    let file = cpu_file(cpu, "energy_performance_preference"@);
    if there(file, world) {
        seq![Act::Probe(file), Act::Write(file, epp)]
    } else {
        seq![Act::Probe(file)]
    }
}

/// A preference that there is goes to every processor that has one; any other one is
/// refused before anything is written.
pub proof fn law_energy_preference(epp: Seq<char>, world: spec_fn(Act) -> Reply)
    requires
        world(ask_cpus()) is Text,
        forall|i: int|
            0 <= i < cpus_of(world) ==> !(world(
                Act::Write(#[trigger] cpu_file(i, "energy_performance_preference"@), epp),
            ) is Failed),
    ensures
        ({
            let op = |replies: Seq<Reply>| energy_move(epp, replies);
            let known = seq![
                "performance"@,
                "balance_performance"@,
                "balance_power"@,
                "power"@,
                "default"@,
                "balance-performance"@,
                "balance-power"@,
            ].contains(epp);
            if known {
                performs(
                    op,
                    world,
                    seq![ask_cpus()] + for_each(
                        cpus_of(world),
                        |i: int| energy_acts(i, epp, world),
                    ),
                    Ok(()),
                )
            } else {
                performs(op, world, seq![ask_cpus()], Err("Invalid EPP value: "@ + epp))
            }
        }),
{
    let op = |replies: Seq<Reply>| energy_move(epp, replies);
    let asked = seq![ask_cpus()];
    assert(answers(world, asked) =~= seq![world(ask_cpus())]);
    assert forall|k: int| 0 <= k < asked.len() implies op(#[trigger] answers(world, asked.take(k)))
        == Move::<()>::Do(asked[k]) by {
        assert(answers(world, asked.take(k)) =~= Seq::<Reply>::empty());
    }
    let list = seq![
        "performance"@,
        "balance_performance"@,
        "balance_power"@,
        "power"@,
        "default"@,
        "balance-performance"@,
        "balance-power"@,
    ];
    assert(list.contains(epp) <==> crate::cpu_control::energy_preference(epp)) by {
        assert(list[0] == "performance"@ && list[1] == "balance_performance"@ && list[2]
            == "balance_power"@ && list[3] == "power"@ && list[4] == "default"@ && list[5]
            == "balance-performance"@ && list[6] == "balance-power"@);
    }
    if list.contains(epp) {
        let n = cpus_of(world);
        let plan = energy_plan(epp, n);
        assert forall|later: Seq<Reply>|
            op(#[trigger] (answers(world, asked) + later)) == plan_move(plan, later) by {
            assert((answers(world, asked) + later).skip(1) =~= later);
            assert((answers(world, asked) + later)[0] == world(ask_cpus()));
        }
        lemma_behind_question(op, asked, plan, world);
        let acts = |i: int| energy_acts(i, epp, world);
        assert forall|i: int| 0 <= i < n implies entry_acts(#[trigger] plan[i], world) == acts(i)
            && entry_break(plan[i], world) is None by {
            let file = cpu_file(i, "energy_performance_preference"@);
            assert(!(world(Act::Write(file, epp)) is Failed));
            assert(entry_acts(plan[i], world) =~= acts(i));
        }
        lemma_for_each(plan, world, acts);
    }
}

/// A write of a limit that fails ends it, with the limit, the number of the processor
/// and the reason; nothing is written after it.
pub proof fn law_failed_limit(
    min: u64,
    max: u64,
    world: spec_fn(Act) -> Reply,
    at: nat,
    reason: String,
)
    requires
        world(ask_cpus()) is Text,
        at < 2 * cpus_of(world),
        ({
            let low = number_or(world(limit_questions()[1]), min);
            let high = number_or(world(limit_questions()[2]), max);
            let first = max >= low && (max < high || min > low);
            &&& forall|k: int|
                0 <= k < at ==> !(world(
                    limit_write(k / 2, first == (#[trigger] (k % 2) == 0), min, max),
                ) is Failed)
            &&& world(limit_write(at as int / 2, first == (at as int % 2 == 0), min, max))
                == Reply::Failed(reason)
        }),
    ensures
        ({
            let low = number_or(world(limit_questions()[1]), min);
            let high = number_or(world(limit_questions()[2]), max);
            let first = max >= low && (max < high || min > low);
            let upper = first == (at as int % 2 == 0);
            performs(
                |replies: Seq<Reply>| limits_move(min, max, replies),
                world,
                limit_questions() + for_each(
                    at + 1,
                    |k: int| seq![limit_write(k / 2, first == (k % 2 == 0), min, max)],
                ),
                Err(
                    (if upper {
                        "Failed to set max frequency for CPU "@
                    } else {
                        "Failed to set min frequency for CPU "@
                    }) + decimal(at / 2) + ": "@ + reason@,
                ),
            )
        }),
{
    let op = |replies: Seq<Reply>| limits_move(min, max, replies);
    let asked = limit_questions();
    let low = number_or(world(limit_questions()[1]), min);
    let high = number_or(world(limit_questions()[2]), max);
    let first = max >= low && (max < high || min > low);
    let n = cpus_of(world);
    let plan = limits_plan(min, max, first, n);
    let base = answers(world, asked);
    assert(base[0] == world(asked[0]) && base[1] == world(asked[1]) && base[2] == world(asked[2]));
    assert forall|k: int| 0 <= k < asked.len() implies op(#[trigger] answers(world, asked.take(k)))
        == Move::<()>::Do(asked[k]) by {
        let replies = answers(world, asked.take(k));
        assert(replies.len() == k);
        if k > 0 {
            assert(replies[0] == world(asked[0]));
        }
    }
    assert forall|later: Seq<Reply>|
        op(#[trigger] (base + later)) == plan_move(plan, later) by {
        let replies = base + later;
        assert(replies.skip(3) =~= later);
        assert(replies[0] == base[0] && replies[1] == base[1] && replies[2] == base[2]);
        lemma_numbers(world, min, max);
    }
    lemma_behind_question(op, asked, plan, world);
    let acts = |k: int| seq![limit_write(k / 2, first == (k % 2 == 0), min, max)];
    let head = plan.take(at as int);
    let tail = plan.skip(at as int);
    assert forall|k: int| 0 <= k < at implies entry_acts(#[trigger] head[k], world) == acts(k)
        && entry_break(head[k], world) is None by {
        let parity = k % 2;
        assert(!(world(limit_write(k / 2, first == (parity == 0), min, max)) is Failed));
        assert(entry_acts(head[k], world) =~= acts(k));
    }
    lemma_for_each(head, world, acts);
    lemma_unbroken_sum(head, tail, world);
    assert(plan =~= head + tail);
    assert(tail[0] == plan[at as int]);
    assert(entry_break(tail[0], world) is Some);
    assert(entry_acts(tail[0], world) =~= acts(at as int));
    assert(asked + (for_each(at, acts) + acts(at as int)) =~= asked + for_each(at + 1, acts));
}

/// A preference that cannot be written ends it, with the number of the processor and
/// the reason.
pub proof fn law_failed_energy_preference(
    epp: Seq<char>,
    world: spec_fn(Act) -> Reply,
    at: nat,
    reason: String,
)
    requires
        at < cpus_of(world),
        crate::cpu_control::energy_preference(epp),
        forall|i: int|
            0 <= i < at ==> !(world(
                Act::Write(#[trigger] cpu_file(i, "energy_performance_preference"@), epp),
            ) is Failed),
        there(cpu_file(at as int, "energy_performance_preference"@), world),
        world(Act::Write(cpu_file(at as int, "energy_performance_preference"@), epp))
            == Reply::Failed(reason),
    ensures
        performs(
            |replies: Seq<Reply>| energy_move(epp, replies),
            world,
            seq![ask_cpus()] + for_each(at + 1, |i: int| energy_acts(i, epp, world)),
            Err("Failed to set EPP for CPU "@ + decimal(at) + ": "@ + reason@),
        ),
{
    let op = |replies: Seq<Reply>| energy_move(epp, replies);
    let asked = seq![ask_cpus()];
    assert(answers(world, asked) =~= seq![world(ask_cpus())]);
    assert forall|k: int| 0 <= k < asked.len() implies op(#[trigger] answers(world, asked.take(k)))
        == Move::<()>::Do(asked[k]) by {
        assert(answers(world, asked.take(k)) =~= Seq::<Reply>::empty());
    }
    let n = cpus_of(world);
    let plan = energy_plan(epp, n);
    assert forall|later: Seq<Reply>|
        op(#[trigger] (answers(world, asked) + later)) == plan_move(plan, later) by {
        assert((answers(world, asked) + later).skip(1) =~= later);
        assert((answers(world, asked) + later)[0] == world(ask_cpus()));
    }
    lemma_behind_question(op, asked, plan, world);
    let acts = |i: int| energy_acts(i, epp, world);
    let head = plan.take(at as int);
    let tail = plan.skip(at as int);
    assert forall|i: int| 0 <= i < at implies entry_acts(#[trigger] head[i], world) == acts(i)
        && entry_break(head[i], world) is None by {
        let file = cpu_file(i, "energy_performance_preference"@);
        assert(!(world(Act::Write(file, epp)) is Failed));
        assert(entry_acts(head[i], world) =~= acts(i));
    }
    lemma_for_each(head, world, acts);
    lemma_unbroken_sum(head, tail, world);
    assert(plan =~= head + tail);
    assert(tail[0] == plan[at as int]);
    assert(entry_break(tail[0], world) is Some);
    assert(entry_acts(tail[0], world) =~= acts(at as int));
    assert(asked + (for_each(at, acts) + acts(at as int)) =~= asked + for_each(at + 1, acts));
}

} // verus!
