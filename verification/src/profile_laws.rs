//! What holds of applying any profile.

use crate::access::GpuRequest;
use crate::profile::{
    cpu_stages, fan_stage, gpu_stages, last_stages, lemma_tolerated, next_stage, profile_next,
    profile_stages, required, selected_gpu, stage_if, Next, NvidiaFanSetting, Profile, Stage,
    StepOutcome, Tuning,
};
use vstd::prelude::*;

verus! {

/// How often a step is among the steps of a list.
pub open spec fn times(list: Seq<Stage>, stage: Stage) -> nat
    decreases list.len(),
{
    if list.len() == 0 {
        0
    } else {
        times(list.drop_last(), stage) + if list.last() == stage {
            1nat
        } else {
            0nat
        }
    }
}

/// Whether a fan setting of a card asks for this step.
pub open spec fn fan_asks(fan: NvidiaFanSetting, stage: Stage) -> bool {
    match stage {
        Stage::Gpu(card, GpuRequest::FanSpeed(id, speed)) => fan.manual && fan.device_index == card
            && fan.fan_id == id && fan.speed == speed,
        Stage::Gpu(card, GpuRequest::FanAuto(id)) => !fan.manual && fan.device_index == card
            && fan.fan_id == id,
        _ => false,
    }
}

/// How many fan settings ask for this step.
pub open spec fn fans_asking(fans: Seq<NvidiaFanSetting>, stage: Stage) -> nat
    decreases fans.len(),
{
    if fans.len() == 0 {
        0
    } else {
        fans_asking(fans.drop_last(), stage) + if fan_asks(fans.last(), stage) {
            1nat
        } else {
            0nat
        }
    }
}

/// An optional text is there and reads so.
pub open spec fn reads(setting: Option<String>, text: Seq<char>) -> bool {
    setting matches Some(s) && s@ == text
}

/// Whether a setting of the profile, other than those of the fans of a card, asks
/// for this step on a laptop whose NVIDIA card has this index.
pub open spec fn asked(profile: Profile, uniwill: bool, card: u32, stage: Stage) -> bool {
    let cpu = profile.cpu_settings;
    let gpu = profile.gpu_settings;
    match stage {
        Stage::Governor(name) => reads(cpu.governor, name),
        Stage::TdpProfile(name) => reads(cpu.tdp_profile, name),
        Stage::TdpLimit(index, value) => uniwill && {
            ||| index == 0 && cpu.tdp0 == Some(value)
            ||| index == 1 && cpu.tdp1 == Some(value)
            ||| index == 2 && cpu.tdp2 == Some(value)
        },
        Stage::AmdPstate(status) => reads(cpu.amd_pstate_status, status),
        Stage::IntelPstate(status) => reads(cpu.intel_pstate_status, status),
        Stage::EnergyPreference(epp) => reads(cpu.energy_performance_preference, epp),
        Stage::FrequencyLimits(min, max) => cpu.min_frequency == Some(min) && cpu.max_frequency
            == Some(max),
        Stage::SelectGpu => true,
        Stage::GpuPowerLimit(index, watts) => index == card && gpu.power_limit == Some(watts),
        Stage::Gpu(index, GpuRequest::CoreOffset(offset)) => index == card && gpu.core_offset
            == Some(offset),
        Stage::Gpu(index, GpuRequest::MemoryOffset(offset)) => index == card && gpu.memory_offset
            == Some(offset),
        Stage::Gpu(index, GpuRequest::LockClocks(min, max)) => index == card && gpu.min_gpu_clock
            == Some(min) && gpu.max_gpu_clock == Some(max),
        Stage::Gpu(index, GpuRequest::ResetClocks) => index == card && (gpu.min_gpu_clock is None
            || gpu.max_gpu_clock is None),
        Stage::Gpu(_, _) => false,
        Stage::Boost(on) => cpu.boost == Some(on),
        Stage::Smt(on) => cpu.smt == Some(on),
        Stage::Keyboard => true,
        Stage::Screen => true,
        Stage::Fans => true,
    }
}

/// The steps that are taken one after the other while these outcomes come in.
pub open spec fn steps_taken(tuning: Tuning, uniwill: bool, outcomes: Seq<StepOutcome>) -> Seq<
    Stage,
> {
    Seq::new(
        outcomes.len(),
        |k: int| profile_next(tuning, None, uniwill, outcomes.take(k))->Do_0,
    )
}

/// These outcomes are those of a profile that was applied to its end, and no step
/// failed.
pub open spec fn applied_smoothly(
    tuning: Tuning,
    uniwill: bool,
    outcomes: Seq<StepOutcome>,
) -> bool {
    &&& forall|k: int| 0 <= k < outcomes.len() ==> !(#[trigger] outcomes[k] is Failed)
    &&& forall|k: int|
        0 <= k < outcomes.len() ==> #[trigger] profile_next(
            tuning,
            None,
            uniwill,
            outcomes.take(k),
        ) is Do
    &&& profile_next(tuning, None, uniwill, outcomes) is Done
}

/// The index of the card that the outcome of the choice gives.
pub open spec fn index_in(outcome: StepOutcome) -> u32 {
    match outcome {
        StepOutcome::GpuIndex(index) => index,
        _ => 0,
    }
}

proof fn lemma_times_sum(a: Seq<Stage>, b: Seq<Stage>, stage: Stage)
    ensures
        times(a + b, stage) == times(a, stage) + times(b, stage),
    decreases b.len(),
{
    if b.len() == 0 {
        assert(a + b =~= a);
    } else {
        lemma_times_sum(a, b.drop_last(), stage);
        assert((a + b).drop_last() =~= a + b.drop_last());
    }
}

proof fn lemma_times_one(one: Stage, stage: Stage)
    ensures
        times(seq![one], stage) == (if one == stage {
            1nat
        } else {
            0nat
        }),
        times(Seq::<Stage>::empty(), stage) == 0,
{
    reveal_with_fuel(times, 2);
    assert(seq![one].drop_last() =~= Seq::<Stage>::empty());
}

proof fn lemma_times_if<T>(setting: Option<T>, make: spec_fn(T) -> Stage, stage: Stage)
    ensures
        times(stage_if(setting, make), stage) == (if setting is Some && make(setting->0) == stage {
            1nat
        } else {
            0nat
        }),
{
    lemma_times_one(stage, stage);
    if let Some(value) = setting {
        lemma_times_one(make(value), stage);
    }
}

proof fn lemma_times_fans(fans: Seq<NvidiaFanSetting>, stage: Stage)
    ensures
        times(fans.map_values(|fan: NvidiaFanSetting| fan_stage(fan)), stage) == fans_asking(
            fans,
            stage,
        ),
    decreases fans.len(),
{
    let list = fans.map_values(|fan: NvidiaFanSetting| fan_stage(fan));
    if fans.len() > 0 {
        let init = fans.drop_last();
        lemma_times_fans(init, stage);
        assert(list.drop_last() =~= init.map_values(|fan: NvidiaFanSetting| fan_stage(fan)));
        assert(list.last() == fan_stage(fans.last()));
        assert(fan_asks(fans.last(), stage) <==> fan_stage(fans.last()) == stage);
    }
}

proof fn lemma_cpu_times(profile: Profile, uniwill: bool, stage: Stage)
    ensures
        ({
            let n = times(cpu_stages(profile@.cpu, uniwill), stage);
            match stage {
                Stage::Governor(_) | Stage::TdpProfile(_) | Stage::TdpLimit(_, _)
                | Stage::AmdPstate(_) | Stage::IntelPstate(_) | Stage::EnergyPreference(_)
                | Stage::FrequencyLimits(_, _) => n == (if asked(profile, uniwill, 0, stage) {
                    1nat
                } else {
                    0nat
                }),
                _ => n == 0,
            }
        }),
{
    let c = profile@.cpu;
    let q0 = stage_if(c.tdp0, |v: u32| Stage::TdpLimit(0, v));
    let q1 = stage_if(c.tdp1, |v: u32| Stage::TdpLimit(1, v));
    let q2 = stage_if(c.tdp2, |v: u32| Stage::TdpLimit(2, v));
    let p1 = stage_if(c.governor, |s: Seq<char>| Stage::Governor(s));
    let p2 = stage_if(c.tdp_profile, |s: Seq<char>| Stage::TdpProfile(s));
    let p3 = if uniwill {
        q0 + q1 + q2
    } else {
        Seq::empty()
    };
    let p4 = stage_if(c.amd_pstate_status, |s: Seq<char>| Stage::AmdPstate(s));
    let p5 = stage_if(c.intel_pstate_status, |s: Seq<char>| Stage::IntelPstate(s));
    let p6 = stage_if(
        c.energy_performance_preference,
        |s: Seq<char>| Stage::EnergyPreference(s),
    );
    let p7: Seq<Stage> = match (c.min_frequency, c.max_frequency) {
        (Some(min), Some(max)) => seq![Stage::FrequencyLimits(min, max)],
        _ => Seq::empty(),
    };
    lemma_times_if(c.tdp0, |v: u32| Stage::TdpLimit(0, v), stage);
    lemma_times_if(c.tdp1, |v: u32| Stage::TdpLimit(1, v), stage);
    lemma_times_if(c.tdp2, |v: u32| Stage::TdpLimit(2, v), stage);
    lemma_times_if(c.governor, |s: Seq<char>| Stage::Governor(s), stage);
    lemma_times_if(c.tdp_profile, |s: Seq<char>| Stage::TdpProfile(s), stage);
    lemma_times_if(c.amd_pstate_status, |s: Seq<char>| Stage::AmdPstate(s), stage);
    lemma_times_if(c.intel_pstate_status, |s: Seq<char>| Stage::IntelPstate(s), stage);
    lemma_times_if(
        c.energy_performance_preference,
        |s: Seq<char>| Stage::EnergyPreference(s),
        stage,
    );
    lemma_times_one(stage, stage);
    if let (Some(min), Some(max)) = (c.min_frequency, c.max_frequency) {
        lemma_times_one(Stage::FrequencyLimits(min, max), stage);
    }
    lemma_times_sum(q0, q1, stage);
    lemma_times_sum(q0 + q1, q2, stage);
    lemma_times_sum(p1, p2, stage);
    lemma_times_sum(p1 + p2, p3, stage);
    lemma_times_sum(p1 + p2 + p3, p4, stage);
    lemma_times_sum(p1 + p2 + p3 + p4, p5, stage);
    lemma_times_sum(p1 + p2 + p3 + p4 + p5, p6, stage);
    lemma_times_sum(p1 + p2 + p3 + p4 + p5 + p6, p7, stage);
    assert(cpu_stages(c, uniwill) =~= p1 + p2 + p3 + p4 + p5 + p6 + p7);
}

proof fn lemma_gpu_times(profile: Profile, card: u32, stage: Stage)
    ensures
        ({
            let n = times(gpu_stages(profile@.gpu, card), stage);
            match stage {
                Stage::GpuPowerLimit(_, _) | Stage::Gpu(_, _) => n == (if asked(
                    profile,
                    false,
                    card,
                    stage,
                ) {
                    1nat
                } else {
                    0nat
                }),
                _ => n == 0,
            }
        }),
{
    let g = profile@.gpu;
    let p1 = stage_if(g.power_limit, |w: u32| Stage::GpuPowerLimit(card, w));
    let p2 = stage_if(g.core_offset, |o: i32| Stage::Gpu(card, GpuRequest::CoreOffset(o)));
    let p3 = stage_if(g.memory_offset, |o: i32| Stage::Gpu(card, GpuRequest::MemoryOffset(o)));
    let clocks = match (g.min_gpu_clock, g.max_gpu_clock) {
        (Some(min), Some(max)) => GpuRequest::LockClocks(min, max),
        _ => GpuRequest::ResetClocks,
    };
    let p4 = seq![Stage::Gpu(card, clocks)];
    lemma_times_if(g.power_limit, |w: u32| Stage::GpuPowerLimit(card, w), stage);
    lemma_times_if(
        g.core_offset,
        |o: i32| Stage::Gpu(card, GpuRequest::CoreOffset(o)),
        stage,
    );
    lemma_times_if(
        g.memory_offset,
        |o: i32| Stage::Gpu(card, GpuRequest::MemoryOffset(o)),
        stage,
    );
    lemma_times_one(Stage::Gpu(card, clocks), stage);
    lemma_times_sum(p1, p2, stage);
    lemma_times_sum(p1 + p2, p3, stage);
    lemma_times_sum(p1 + p2 + p3, p4, stage);
    assert(gpu_stages(g, card) =~= p1 + p2 + p3 + p4);
}

proof fn lemma_last_times(profile: Profile, stage: Stage)
    ensures
        ({
            let n = times(last_stages(profile@), stage);
            let fans = fans_asking(profile.gpu_settings.nvidia_fans@, stage);
            match stage {
                Stage::Boost(_) | Stage::Smt(_) | Stage::Keyboard | Stage::Screen | Stage::Fans => n
                    == (if asked(profile, false, 0, stage) {
                    1nat
                } else {
                    0nat
                }),
                _ => n == fans,
            }
        }),
{
    let t = profile@;
    let fans = profile.gpu_settings.nvidia_fans@;
    let p1 = stage_if(t.cpu.boost, |on: bool| Stage::Boost(on));
    let p2 = stage_if(t.cpu.smt, |on: bool| Stage::Smt(on));
    let p3 = seq![Stage::Keyboard, Stage::Screen, Stage::Fans];
    let p4 = t.gpu.nvidia_fans.map_values(|fan: NvidiaFanSetting| fan_stage(fan));
    lemma_times_if(t.cpu.boost, |on: bool| Stage::Boost(on), stage);
    lemma_times_if(t.cpu.smt, |on: bool| Stage::Smt(on), stage);
    lemma_times_one(Stage::Keyboard, stage);
    lemma_times_one(Stage::Screen, stage);
    lemma_times_one(Stage::Fans, stage);
    lemma_times_sum(seq![Stage::Keyboard], seq![Stage::Screen], stage);
    lemma_times_sum(seq![Stage::Keyboard] + seq![Stage::Screen], seq![Stage::Fans], stage);
    assert(p3 =~= seq![Stage::Keyboard] + seq![Stage::Screen] + seq![Stage::Fans]);
    lemma_times_fans(fans, stage);
    lemma_times_sum(p1, p2, stage);
    lemma_times_sum(p1 + p2, p3, stage);
    lemma_times_sum(p1 + p2 + p3, p4, stage);
    assert(last_stages(t) =~= p1 + p2 + p3 + p4);
    lemma_no_fan_asks(fans, stage);
}

proof fn lemma_no_fan_asks(fans: Seq<NvidiaFanSetting>, stage: Stage)
    ensures
        !(stage is Gpu) ==> fans_asking(fans, stage) == 0,
        stage matches Stage::Gpu(_, request) ==> request is FanSpeed || request is FanAuto
            || fans_asking(fans, stage) == 0,
    decreases fans.len(),
{
    if fans.len() > 0 {
        lemma_no_fan_asks(fans.drop_last(), stage);
    }
}

proof fn lemma_all_times(profile: Profile, uniwill: bool, card: u32, stage: Stage)
    ensures
        times(profile_stages(profile@, uniwill, card), stage) == (if asked(
            profile,
            uniwill,
            card,
            stage,
        ) {
            1nat
        } else {
            fans_asking(profile.gpu_settings.nvidia_fans@, stage)
        }),
{
    let a = cpu_stages(profile@.cpu, uniwill);
    let b = seq![Stage::SelectGpu];
    let c = gpu_stages(profile@.gpu, card);
    let d = last_stages(profile@);
    lemma_cpu_times(profile, uniwill, stage);
    lemma_times_one(Stage::SelectGpu, stage);
    lemma_gpu_times(profile, card, stage);
    lemma_last_times(profile, stage);
    lemma_no_fan_asks(profile.gpu_settings.nvidia_fans@, stage);
    lemma_times_sum(a, b, stage);
    lemma_times_sum(a + b, c, stage);
    lemma_times_sum(a + b + c, d, stage);
    assert(profile_stages(profile@, uniwill, card) =~= a + b + c + d);
}

/// The stages up to the choice of the card do not depend on its index.
proof fn lemma_before_the_card(tuning: Tuning, uniwill: bool, one: u32, other: u32)
    ensures
        ({
            let at = cpu_stages(tuning.cpu, uniwill).len() as int;
            let a = profile_stages(tuning, uniwill, one);
            let b = profile_stages(tuning, uniwill, other);
            &&& a.len() == b.len()
            &&& at < a.len()
            &&& a[at] == Stage::SelectGpu
            &&& forall|k: int| 0 <= k <= at ==> #[trigger] a[k] == b[k]
        }),
{
}

/// In a smooth run the steps are the stages with the index that the choice of the
/// card gave.
proof fn lemma_steps_are_stages(tuning: Tuning, uniwill: bool, outcomes: Seq<StepOutcome>)
    requires
        applied_smoothly(tuning, uniwill, outcomes),
    ensures
        steps_taken(tuning, uniwill, outcomes) == profile_stages(
            tuning,
            uniwill,
            selected_gpu(tuning, uniwill, outcomes),
        ),
        selected_gpu(tuning, uniwill, outcomes) == index_in(
            outcomes[cpu_stages(tuning.cpu, uniwill).len() as int],
        ),
        profile_next(tuning, None, uniwill, outcomes) == Next::Done(Ok(())),
        cpu_stages(tuning.cpu, uniwill).len() < outcomes.len(),
{
    let card = selected_gpu(tuning, uniwill, outcomes);
    let all = profile_stages(tuning, uniwill, card);
    let at = cpu_stages(tuning.cpu, uniwill).len() as int;
    assert forall|k: int| 0 <= k < outcomes.len() implies k < all.len() && #[trigger] profile_next(
        tuning,
        None,
        uniwill,
        outcomes.take(k),
    ) == Next::Do(all[k]) by {
        let some = outcomes.take(k);
        let index = selected_gpu(tuning, uniwill, some);
        let stages = profile_stages(tuning, uniwill, index);
        assert forall|i: int|
            0 <= i < stages.len() && i < some.len() && required(stages[i]) implies (
        #[trigger] some[i]).fault() is None by {
            assert(some[i] == outcomes[i]);
        }
        lemma_tolerated(stages, some);
        lemma_before_the_card(tuning, uniwill, index, card);
        assert(profile_next(tuning, None, uniwill, some) is Do);
        if k > at {
            assert(some[at] == outcomes[at]);
            assert(index == card);
        } else {
            assert(stages[k] == all[k]);
        }
    }
    assert forall|i: int| 0 <= i < all.len() && i < outcomes.len() && required(all[i]) implies (
    #[trigger] outcomes[i]).fault() is None by {
    }
    lemma_tolerated(all, outcomes);
    lemma_before_the_card(tuning, uniwill, card, card);
    assert(outcomes.len() >= all.len());
    if outcomes.len() > all.len() {
        assert(profile_next(tuning, None, uniwill, outcomes.take(all.len() as int)) is Do);
    }
    assert(steps_taken(tuning, uniwill, outcomes) =~= all);
}

/// Every setting of a profile reaches the hardware. When a profile is applied and
/// no step fails, a setting that is there has exactly one step, which carries its
/// value; one that is not there has none; each fan setting of a card has its own.
/// The steps of the NVIDIA card go to the card that was chosen.
pub proof fn law_every_setting_has_its_step(
    profile: Profile,
    uniwill: bool,
    outcomes: Seq<StepOutcome>,
    stage: Stage,
)
    requires
        applied_smoothly(profile@, uniwill, outcomes),
    ensures
        profile_next(profile@, None, uniwill, outcomes) == Next::Done(Ok(())),
        exists|chosen: int|
            0 <= chosen < outcomes.len() && steps_taken(profile@, uniwill, outcomes)[chosen]
                == Stage::SelectGpu && times(steps_taken(profile@, uniwill, outcomes), stage) == (
            if asked(profile, uniwill, index_in(#[trigger] outcomes[chosen]), stage) {
                1nat
            } else {
                fans_asking(profile.gpu_settings.nvidia_fans@, stage)
            }),
{
    let at = cpu_stages(profile@.cpu, uniwill).len() as int;
    let card = selected_gpu(profile@, uniwill, outcomes);
    lemma_steps_are_stages(profile@, uniwill, outcomes);
    lemma_all_times(profile, uniwill, card, stage);
    lemma_before_the_card(profile@, uniwill, card, card);
    assert(index_in(outcomes[at]) == card);
}

/// A profile that no step fails is applied to its end: after one outcome for each
/// setting that there can be, the choice of the card, the keyboard, the screen, the
/// fans and each fan of a card, there is nothing left to do.
pub proof fn law_profile_ends(profile: Profile, uniwill: bool, outcomes: Seq<StepOutcome>)
    requires
        outcomes.len() >= 19 + profile.gpu_settings.nvidia_fans@.len(),
        forall|k: int| 0 <= k < outcomes.len() ==> !(#[trigger] outcomes[k] is Failed),
    ensures
        profile_next(profile@, None, uniwill, outcomes) == Next::Done(Ok(())),
{
    let all = profile_stages(profile@, uniwill, selected_gpu(profile@, uniwill, outcomes));
    assert(all.len() <= 19 + profile.gpu_settings.nvidia_fans@.len());
    lemma_tolerated(all, outcomes);
}

/// Which other profile was applied before makes no difference.
pub proof fn law_profile_before_does_not_matter(
    tuning: Tuning,
    last: Option<Tuning>,
    uniwill: bool,
    outcomes: Seq<StepOutcome>,
)
    requires
        last != Some(tuning) || outcomes.len() > 0,
    ensures
        profile_next(tuning, last, uniwill, outcomes) == profile_next(
            tuning,
            None,
            uniwill,
            outcomes,
        ),
{
}

/// The place of a step in the order in which settings are applied.
pub open spec fn rank(stage: Stage) -> int {
    match stage {
        Stage::Governor(_) => 0,
        Stage::TdpProfile(_) => 1,
        Stage::TdpLimit(index, _) => 2 + index,
        Stage::AmdPstate(_) => 300,
        Stage::IntelPstate(_) => 301,
        Stage::EnergyPreference(_) => 302,
        Stage::FrequencyLimits(_, _) => 303,
        Stage::SelectGpu => 304,
        Stage::GpuPowerLimit(_, _) => 305,
        Stage::Gpu(_, GpuRequest::CoreOffset(_)) => 306,
        Stage::Gpu(_, GpuRequest::MemoryOffset(_)) => 307,
        Stage::Gpu(_, GpuRequest::LockClocks(_, _)) => 308,
        Stage::Gpu(_, GpuRequest::ResetClocks) => 308,
        Stage::Boost(_) => 309,
        Stage::Smt(_) => 310,
        Stage::Keyboard => 311,
        Stage::Screen => 312,
        Stage::Fans => 313,
        Stage::Gpu(_, _) => 314,
    }
}

#[verifier::opaque]
spec fn ordered(list: Seq<Stage>, low: int, high: int) -> bool {
    &&& forall|i: int| 0 <= i < list.len() ==> low <= rank(#[trigger] list[i]) <= high
    &&& forall|i: int, j: int|
        0 <= i < j < list.len() ==> rank(#[trigger] list[i]) <= rank(#[trigger] list[j])
}

proof fn lemma_ordered_sum(
    a: Seq<Stage>,
    b: Seq<Stage>,
    low: int,
    a_high: int,
    b_low: int,
    high: int,
)
    requires
        ordered(a, low, a_high),
        ordered(b, b_low, high),
        low <= a_high <= b_low <= high,
    ensures
        ordered(a + b, low, high),
{
    reveal(ordered);
    let all = a + b;
    assert forall|i: int, j: int| 0 <= i < j < all.len() implies rank(#[trigger] all[i]) <= rank(
        #[trigger] all[j],
    ) by {
        if i < a.len() {
            assert(all[i] == a[i]);
        } else {
            assert(all[i] == b[i - a.len()]);
        }
        if j < a.len() {
            assert(all[j] == a[j]);
        } else {
            assert(all[j] == b[j - a.len()]);
        }
    }
    assert forall|i: int| 0 <= i < all.len() implies low <= rank(#[trigger] all[i]) <= high by {
        if i < a.len() {
            assert(all[i] == a[i]);
        } else {
            assert(all[i] == b[i - a.len()]);
        }
    }
}

proof fn lemma_ordered_if<T>(setting: Option<T>, make: spec_fn(T) -> Stage, place: int)
    requires
        forall|v: T| rank(#[trigger] make(v)) == place,
    ensures
        ordered(stage_if(setting, make), place, place),
{
    reveal(ordered);
}

proof fn lemma_cpu_ordered(tuning: Tuning, uniwill: bool)
    ensures
        ordered(cpu_stages(tuning.cpu, uniwill), 0, 303),
{
    let c = tuning.cpu;
    let q0 = stage_if(c.tdp0, |v: u32| Stage::TdpLimit(0, v));
    let q1 = stage_if(c.tdp1, |v: u32| Stage::TdpLimit(1, v));
    let q2 = stage_if(c.tdp2, |v: u32| Stage::TdpLimit(2, v));
    let limits = if uniwill {
        q0 + q1 + q2
    } else {
        Seq::empty()
    };
    lemma_ordered_if(c.tdp0, |v: u32| Stage::TdpLimit(0, v), 2);
    lemma_ordered_if(c.tdp1, |v: u32| Stage::TdpLimit(1, v), 3);
    lemma_ordered_if(c.tdp2, |v: u32| Stage::TdpLimit(2, v), 4);
    lemma_ordered_sum(q0, q1, 2, 2, 3, 3);
    lemma_ordered_sum(q0 + q1, q2, 2, 3, 4, 4);
    assert(ordered(Seq::empty(), 2, 4)) by {
        reveal(ordered);
    }
    let p1 = stage_if(c.governor, |s: Seq<char>| Stage::Governor(s));
    let p2 = stage_if(c.tdp_profile, |s: Seq<char>| Stage::TdpProfile(s));
    let p4 = stage_if(c.amd_pstate_status, |s: Seq<char>| Stage::AmdPstate(s));
    let p5 = stage_if(c.intel_pstate_status, |s: Seq<char>| Stage::IntelPstate(s));
    let p6 = stage_if(
        c.energy_performance_preference,
        |s: Seq<char>| Stage::EnergyPreference(s),
    );
    let p7: Seq<Stage> = match (c.min_frequency, c.max_frequency) {
        (Some(min), Some(max)) => seq![Stage::FrequencyLimits(min, max)],
        _ => Seq::empty(),
    };
    lemma_ordered_if(c.governor, |s: Seq<char>| Stage::Governor(s), 0);
    lemma_ordered_if(c.tdp_profile, |s: Seq<char>| Stage::TdpProfile(s), 1);
    lemma_ordered_if(c.amd_pstate_status, |s: Seq<char>| Stage::AmdPstate(s), 300);
    lemma_ordered_if(c.intel_pstate_status, |s: Seq<char>| Stage::IntelPstate(s), 301);
    lemma_ordered_if(
        c.energy_performance_preference,
        |s: Seq<char>| Stage::EnergyPreference(s),
        302,
    );
    assert(ordered(p7, 303, 303)) by {
        reveal(ordered);
    }
    let s2 = p1 + p2;
    lemma_ordered_sum(p1, p2, 0, 0, 1, 1);
    let s3 = s2 + limits;
    lemma_ordered_sum(s2, limits, 0, 1, 2, 4);
    let s4 = s3 + p4;
    lemma_ordered_sum(s3, p4, 0, 4, 300, 300);
    let s5 = s4 + p5;
    lemma_ordered_sum(s4, p5, 0, 300, 301, 301);
    let s6 = s5 + p6;
    lemma_ordered_sum(s5, p6, 0, 301, 302, 302);
    lemma_ordered_sum(s6, p7, 0, 302, 303, 303);
    assert(cpu_stages(c, uniwill) =~= s6 + p7);
}

proof fn lemma_gpu_ordered(tuning: Tuning, card: u32)
    ensures
        ordered(gpu_stages(tuning.gpu, card), 305, 308),
{
    let g = tuning.gpu;
    let g1 = stage_if(g.power_limit, |w: u32| Stage::GpuPowerLimit(card, w));
    let g2 = stage_if(g.core_offset, |o: i32| Stage::Gpu(card, GpuRequest::CoreOffset(o)));
    let g3 = stage_if(g.memory_offset, |o: i32| Stage::Gpu(card, GpuRequest::MemoryOffset(o)));
    let clocks = match (g.min_gpu_clock, g.max_gpu_clock) {
        (Some(min), Some(max)) => GpuRequest::LockClocks(min, max),
        _ => GpuRequest::ResetClocks,
    };
    let g4 = seq![Stage::Gpu(card, clocks)];
    lemma_ordered_if(g.power_limit, |w: u32| Stage::GpuPowerLimit(card, w), 305);
    lemma_ordered_if(g.core_offset, |o: i32| Stage::Gpu(card, GpuRequest::CoreOffset(o)), 306);
    lemma_ordered_if(g.memory_offset, |o: i32| Stage::Gpu(card, GpuRequest::MemoryOffset(o)), 307);
    assert(ordered(g4, 308, 308)) by {
        reveal(ordered);
    }
    lemma_ordered_sum(g1, g2, 305, 305, 306, 306);
    lemma_ordered_sum(g1 + g2, g3, 305, 306, 307, 307);
    lemma_ordered_sum(g1 + g2 + g3, g4, 305, 307, 308, 308);
    assert(gpu_stages(g, card) =~= g1 + g2 + g3 + g4);
}

proof fn lemma_last_ordered(tuning: Tuning)
    ensures
        ordered(last_stages(tuning), 309, 314),
{
    let c = tuning.cpu;
    let l1 = stage_if(c.boost, |on: bool| Stage::Boost(on));
    let l2 = stage_if(c.smt, |on: bool| Stage::Smt(on));
    let l3 = seq![Stage::Keyboard, Stage::Screen, Stage::Fans];
    let l4 = tuning.gpu.nvidia_fans.map_values(|fan: NvidiaFanSetting| fan_stage(fan));
    lemma_ordered_if(c.boost, |on: bool| Stage::Boost(on), 309);
    lemma_ordered_if(c.smt, |on: bool| Stage::Smt(on), 310);
    assert(ordered(l3, 311, 313)) by {
        reveal(ordered);
    }
    assert(ordered(l4, 314, 314)) by {
        reveal(ordered);
    }
    lemma_ordered_sum(l1, l2, 309, 309, 310, 310);
    lemma_ordered_sum(l1 + l2, l3, 309, 310, 311, 313);
    lemma_ordered_sum(l1 + l2 + l3, l4, 309, 313, 314, 314);
    assert(last_stages(tuning) =~= l1 + l2 + l3 + l4);
}

proof fn lemma_stages_ordered(tuning: Tuning, uniwill: bool, card: u32)
    ensures
        ordered(profile_stages(tuning, uniwill, card), 0, 314),
{
    let cpu = cpu_stages(tuning.cpu, uniwill);
    let gpu = gpu_stages(tuning.gpu, card);
    let last = last_stages(tuning);
    let select = seq![Stage::SelectGpu];
    lemma_cpu_ordered(tuning, uniwill);
    lemma_gpu_ordered(tuning, card);
    lemma_last_ordered(tuning);
    assert(ordered(select, 304, 304)) by {
        reveal(ordered);
    }
    lemma_ordered_sum(cpu, select, 0, 303, 304, 304);
    lemma_ordered_sum(cpu + select, gpu, 0, 304, 305, 308);
    lemma_ordered_sum(cpu + select + gpu, last, 0, 308, 309, 314);
    assert(profile_stages(tuning, uniwill, card) =~= cpu + select + gpu + last);
}

/// The settings are applied in a fixed order, and the fans of the cards at the end
/// in the order in which the profile lists them.
pub proof fn law_settings_have_an_order(
    profile: Profile,
    uniwill: bool,
    outcomes: Seq<StepOutcome>,
)
    requires
        applied_smoothly(profile@, uniwill, outcomes),
    ensures
        ({
            let steps = steps_taken(profile@, uniwill, outcomes);
            let fans = profile.gpu_settings.nvidia_fans@;
            &&& forall|i: int, j: int|
                0 <= i < j < steps.len() ==> rank(#[trigger] steps[i]) <= rank(#[trigger] steps[j])
            &&& fans.len() <= steps.len()
            &&& forall|k: int|
                0 <= k < fans.len() ==> fan_asks(
                    #[trigger] fans[k],
                    steps[steps.len() - fans.len() + k],
                )
        }),
{
    let card = selected_gpu(profile@, uniwill, outcomes);
    lemma_steps_are_stages(profile@, uniwill, outcomes);
    lemma_stages_ordered(profile@, uniwill, card);
    reveal(ordered);
    let steps = steps_taken(profile@, uniwill, outcomes);
    let fans = profile.gpu_settings.nvidia_fans@;
    let list = fans.map_values(|fan: NvidiaFanSetting| fan_stage(fan));
    assert forall|k: int| 0 <= k < fans.len() implies fan_asks(
        #[trigger] fans[k],
        steps[steps.len() - fans.len() + k],
    ) by {
        assert(list[k] == fan_stage(fans[k]));
        assert(steps[steps.len() - fans.len() + k] == list[k]);
    }
}

proof fn lemma_going_on(stages: Seq<Stage>, outcomes: Seq<StepOutcome>)
    requires
        next_stage(stages, outcomes) is Do,
    ensures
        outcomes.len() < stages.len(),
        next_stage(stages, outcomes) == Next::Do(stages[outcomes.len() as int]),
        forall|i: int|
            0 <= i < outcomes.len() && required(stages[i]) ==> (#[trigger] outcomes[i]).fault()
                is None,
    decreases stages.len(),
{
    if outcomes.len() > 0 {
        lemma_going_on(stages.drop_first(), outcomes.drop_first());
        assert forall|i: int| 0 <= i < outcomes.len() && required(stages[i]) implies (
        #[trigger] outcomes[i]).fault() is None by {
            if i > 0 {
                assert(outcomes.drop_first()[i - 1] == outcomes[i]);
                assert(stages.drop_first()[i - 1] == stages[i]);
            }
        }
    }
}

proof fn lemma_failing(stages: Seq<Stage>, outcomes: Seq<StepOutcome>, reason: String)
    requires
        next_stage(stages, outcomes) is Do,
        required(stages[outcomes.len() as int]),
    ensures
        next_stage(stages, outcomes.push(StepOutcome::Failed(reason))) == Next::Done(
            Err(reason@),
        ),
    decreases stages.len(),
{
    let more = outcomes.push(StepOutcome::Failed(reason));
    lemma_going_on(stages, outcomes);
    if outcomes.len() == 0 {
        assert(more[0] == StepOutcome::Failed(reason));
    } else {
        assert(more[0] == outcomes[0]);
        assert(more.drop_first() =~= outcomes.drop_first().push(StepOutcome::Failed(reason)));
        lemma_failing(stages.drop_first(), outcomes.drop_first(), reason);
    }
}

/// A failure of the graphics card or of a power limit of the firmware changes
/// nothing: the profile goes on as if the step had been done. Any other failure
/// ends the profile at once, with its reason.
pub proof fn law_failures_of_steps(
    tuning: Tuning,
    uniwill: bool,
    outcomes: Seq<StepOutcome>,
    stage: Stage,
    reason: String,
)
    requires
        profile_next(tuning, None, uniwill, outcomes) == Next::Do(stage),
    ensures
        ({
            let after = profile_next(
                tuning,
                None,
                uniwill,
                outcomes.push(StepOutcome::Failed(reason)),
            );
            match stage {
                Stage::TdpLimit(_, _) | Stage::SelectGpu | Stage::GpuPowerLimit(_, _) | Stage::Gpu(
                    _,
                    _,
                ) => after == profile_next(
                    tuning,
                    None,
                    uniwill,
                    outcomes.push(StepOutcome::Done),
                ) && after != Next::Done(Err(reason@)),
                _ => after == Next::Done(Err(reason@)),
            }
        }),
{
    let card = selected_gpu(tuning, uniwill, outcomes);
    let all = profile_stages(tuning, uniwill, card);
    let n = outcomes.len() as int;
    lemma_going_on(all, outcomes);
    let at = cpu_stages(tuning.cpu, uniwill).len() as int;
    let failed = outcomes.push(StepOutcome::Failed(reason));
    let done = outcomes.push(StepOutcome::Done);
    let next_card = selected_gpu(tuning, uniwill, failed);
    assert(next_card == selected_gpu(tuning, uniwill, done)) by {
        if at < n {
            assert(failed[at] == outcomes[at] && done[at] == outcomes[at]);
        }
    }
    let next_all = profile_stages(tuning, uniwill, next_card);
    lemma_before_the_card(tuning, uniwill, card, next_card);
    if at < n {
        assert(failed[at] == outcomes[at]);
        assert(next_card == card);
    }
    assert forall|i: int| 0 <= i <= n implies #[trigger] next_all[i] == all[i] by {
        if at < n {
        } else {
            assert(next_all[i] == all[i]);
        }
    }
    if required(stage) {
        assert forall|i: int|
            0 <= i < next_all.len() && i < outcomes.len() && required(next_all[i]) implies (
        #[trigger] outcomes[i]).fault() is None by {
            assert(next_all[i] == all[i]);
        }
        lemma_tolerated(next_all, outcomes);
        lemma_failing(next_all, outcomes, reason);
    } else {
        assert forall|i: int|
            0 <= i < next_all.len() && i < failed.len() && required(next_all[i]) implies (
        #[trigger] failed[i]).fault() is None by {
            assert(next_all[i] == all[i]);
            if i < n {
                assert(failed[i] == outcomes[i]);
            }
        }
        assert forall|i: int|
            0 <= i < next_all.len() && i < done.len() && required(next_all[i]) implies (
        #[trigger] done[i]).fault() is None by {
            assert(next_all[i] == all[i]);
            if i < n {
                assert(done[i] == outcomes[i]);
            }
        }
        lemma_tolerated(next_all, failed);
        lemma_tolerated(next_all, done);
    }
}

} // verus!
