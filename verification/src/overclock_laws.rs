//! What holds of every poll of the dynamic overclocking.

use crate::gpu_overclock::{
    activity_for, drain_rule_of, freq_rule_of, gpu_names, nvidia_place, overclock_after,
    overclock_move, power_rule_of, AdvancedGpuSettings, DrainReading, GpuActivity,
    GpuOverclockStats, MeasuredGpu, OffsetRule, OverclockEvent, OverclockMove, OverclockState,
    OverclockSwitches, Zone,
};
use crate::hardware_cache::{card_names, GpuInfo};
use crate::text::{first_with, has_infix, is_first_with, lowercase_all, lowercase_of};
use vstd::prelude::*;

verus! {

/// Both switches of the dynamic overclocking are on.
pub open spec fn all_on() -> Option<OverclockSwitches> {
    Some(OverclockSwitches { advanced_control: true, manual_clocks: true })
}

/// The card at this place is an NVIDIA card, and the first one.
pub open spec fn is_the_card(gpus: Seq<MeasuredGpu>, place: int) -> bool {
    &&& 0 <= place < gpus.len()
    &&& has_infix(lowercase_of(gpus[place].name@), "nvidia"@)
    &&& forall|j: int|
        0 <= j < place ==> !has_infix(lowercase_of((#[trigger] gpus[j]).name@), "nvidia"@)
}

proof fn lemma_first_with(list: Seq<Seq<char>>, needle: Seq<char>, i: int)
    requires
        is_first_with(list, needle, i),
    ensures
        first_with(list, needle) == Some(i),
{
    let c = choose|k: int| is_first_with(list, needle, k);
    assert(is_first_with(list, needle, c));
    if c < i {
        assert(!has_infix(list[c], needle));
    } else if i < c {
        assert(!has_infix(list[i], needle));
    }
}

proof fn lemma_place(names: Seq<Seq<char>>, place: int)
    requires
        0 <= place < names.len(),
        has_infix(lowercase_of(names[place]), "nvidia"@),
        forall|j: int| 0 <= j < place ==> !has_infix(lowercase_of(#[trigger] names[j]), "nvidia"@),
    ensures
        nvidia_place(names) == Some(place),
{
    let lowered = lowercase_all(names);
    assert forall|j: int| 0 <= j < place implies !has_infix(#[trigger] lowered[j], "nvidia"@) by {
        assert(lowered[j] == lowercase_of(names[j]));
    }
    lemma_first_with(lowered, "nvidia"@, place);
}

proof fn lemma_card(gpus: Seq<MeasuredGpu>, place: int)
    requires
        is_the_card(gpus, place),
    ensures
        nvidia_place(gpu_names(gpus)) == Some(place),
{
    let names = gpu_names(gpus);
    assert forall|j: int| 0 <= j < place implies !has_infix(
        lowercase_of(#[trigger] names[j]),
        "nvidia"@,
    ) by {
        assert(names[j] == gpus[j].name@);
    }
    lemma_place(names, place);
}

/// The NVIDIA card of a list of cards is the first one whose name has the word in
/// it, in capitals or not; there is none only if no name has.
pub proof fn law_first_nvidia_card<R>(gpus: Seq<GpuInfo<R>>, place: int)
    ensures
        nvidia_place(card_names(gpus)) == Some(place) <==> {
            &&& 0 <= place < gpus.len()
            &&& has_infix(lowercase_of(gpus[place].name@), "nvidia"@)
            &&& forall|j: int|
                0 <= j < place ==> !has_infix(lowercase_of((#[trigger] gpus[j]).name@), "nvidia"@)
        },
        nvidia_place(card_names(gpus)) is None && 0 <= place < gpus.len() ==> !has_infix(
            lowercase_of(gpus[place].name@),
            "nvidia"@,
        ),
{
    let names = card_names(gpus);
    let lowered = lowercase_all(names);
    assert forall|j: int| 0 <= j < gpus.len() implies #[trigger] lowered[j] == lowercase_of(
        gpus[j].name@,
    ) by {
        assert(names[j] == gpus[j].name@);
    }
    if nvidia_place(names) == Some(place) {
        assert(is_first_with(lowered, "nvidia"@, place));
        assert forall|j: int| 0 <= j < place implies !has_infix(
            lowercase_of((#[trigger] gpus[j]).name@),
            "nvidia"@,
        ) by {
            assert(!has_infix(lowered[j], "nvidia"@));
        }
    } else if 0 <= place < gpus.len() && has_infix(lowercase_of(gpus[place].name@), "nvidia"@) {
        if forall|j: int|
            0 <= j < place ==> !has_infix(lowercase_of((#[trigger] gpus[j]).name@), "nvidia"@) {
            assert forall|j: int| 0 <= j < place implies !has_infix(
                lowercase_of(#[trigger] names[j]),
                "nvidia"@,
            ) by {
                assert(names[j] == gpus[j].name@);
            }
            lemma_place(names, place);
        }
        lemma_some_first(lowered, "nvidia"@, place);
    }
}

proof fn lemma_some_first(list: Seq<Seq<char>>, needle: Seq<char>, i: int)
    requires
        0 <= i < list.len(),
        has_infix(list[i], needle),
    ensures
        first_with(list, needle) is Some,
    decreases i,
{
    if exists|j: int| 0 <= j < i && has_infix(#[trigger] list[j], needle) {
        let j = choose|j: int| 0 <= j < i && has_infix(#[trigger] list[j], needle);
        lemma_some_first(list, needle, j);
    } else {
        assert(is_first_with(list, needle, i));
    }
}

/// The offset that a card with this status is to have, and what is shown of it:
/// the measured one in the highest performance state, none in a lower one.
pub open spec fn due_offset(gpu: MeasuredGpu) -> (i32, Option<GpuOverclockStats>) {
    if lowercase_of(gpu.status@) == "p0"@ {
        (gpu.offsets.total_offset, Some(gpu.offsets))
    } else {
        (0, None)
    }
}

/// The card is in some performance state.
pub open spec fn performs(gpu: MeasuredGpu) -> bool {
    &&& lowercase_of(gpu.status@).len() > 0
    &&& lowercase_of(gpu.status@)[0] == 'p'
    &&& !has_infix(lowercase_of(gpu.status@), "suspended"@)
}

proof fn lemma_performs(gpu: MeasuredGpu)
    ensures
        performs(gpu) <==> activity_for(lowercase_of(gpu.status@)) != GpuActivity::LeaveAlone,
        performs(gpu) && lowercase_of(gpu.status@) == "p0"@ ==> activity_for(
            lowercase_of(gpu.status@),
        ) == GpuActivity::Drive,
        performs(gpu) && lowercase_of(gpu.status@) != "p0"@ ==> activity_for(
            lowercase_of(gpu.status@),
        ) == GpuActivity::TakeBack,
{
    reveal_strlit("p");
    let s = lowercase_of(gpu.status@);
    if s.len() > 0 && s[0] == 'p' {
        assert("p"@ =~= s.subrange(0, 1));
        assert("p"@.is_prefix_of(s));
    }
    if "p"@.is_prefix_of(s) {
        assert(s[0] == "p"@[0]);
    }
}

/// With both switches on, a poll that finds the NVIDIA card in a performance
/// state sends the offset that is due, if it is any other than the last one that
/// was sent, and nothing if it is that one.
pub proof fn law_due_offset_is_sent(
    offsets_zero: Option<bool>,
    state: OverclockState,
    gpus: Vec<MeasuredGpu>,
    place: int,
)
    requires
        is_the_card(gpus@, place),
        performs(gpus@[place]),
    ensures
        state.last_applied_offset != Some(due_offset(gpus@[place]).0) ==> overclock_move(
            all_on(),
            offsets_zero,
            state,
            seq![OverclockEvent::Measured(gpus)],
        ) == OverclockMove::SendCore(due_offset(gpus@[place]).0) && overclock_after(
            all_on(),
            state,
            seq![OverclockEvent::Measured(gpus)],
        ) == state,
        state.last_applied_offset == Some(due_offset(gpus@[place]).0) ==> overclock_move(
            all_on(),
            offsets_zero,
            state,
            seq![OverclockEvent::Measured(gpus)],
        ) == OverclockMove::Done(Ok(())),
{
    lemma_card(gpus@, place);
    lemma_performs(gpus@[place]);
    assert(seq![OverclockEvent::Measured(gpus)].skip(1) =~= Seq::<OverclockEvent>::empty());
}

/// Once the offset was sent, it counts as the card's, and its parts are shown. If
/// the card refuses it the poll fails with the reason, and nothing new is
/// remembered, so that the next poll sends it again.
pub proof fn law_sent_offset_is_remembered(
    offsets_zero: Option<bool>,
    state: OverclockState,
    gpus: Vec<MeasuredGpu>,
    place: int,
    answer: OverclockEvent,
)
    requires
        is_the_card(gpus@, place),
        performs(gpus@[place]),
        state.last_applied_offset != Some(due_offset(gpus@[place]).0),
    ensures
        ({
            let events = seq![OverclockEvent::Measured(gpus), answer];
            let next = overclock_move(all_on(), offsets_zero, state, events);
            let after = overclock_after(all_on(), state, events);
            match answer {
                OverclockEvent::Failed(reason) => next == OverclockMove::Done(Err(reason@))
                    && after == state,
                _ => next == OverclockMove::Done(Ok(())) && after == (OverclockState {
                    last_applied_offset: Some(due_offset(gpus@[place]).0),
                    stats: due_offset(gpus@[place]).1,
                }),
            }
        }),
{
    lemma_card(gpus@, place);
    lemma_performs(gpus@[place]);
    let events = seq![OverclockEvent::Measured(gpus), answer];
    assert(events.skip(1) =~= seq![answer]);
}

/// An unchanged offset stays remembered, with the parts that were measured last.
pub proof fn law_unchanged_offset_is_shown(
    state: OverclockState,
    gpus: Vec<MeasuredGpu>,
    place: int,
)
    requires
        is_the_card(gpus@, place),
        performs(gpus@[place]),
        state.last_applied_offset == Some(due_offset(gpus@[place]).0),
    ensures
        overclock_after(all_on(), state, seq![OverclockEvent::Measured(gpus)]) == (OverclockState {
            last_applied_offset: state.last_applied_offset,
            stats: due_offset(gpus@[place]).1,
        }),
{
    lemma_card(gpus@, place);
    lemma_performs(gpus@[place]);
    assert(seq![OverclockEvent::Measured(gpus)].skip(1) =~= Seq::<OverclockEvent>::empty());
}

/// An offset counts as the card's only if it did before, or if this poll asked
/// for it to be sent and the answer was no failure.
pub proof fn law_remembered_offset_was_sent(
    switches: Option<OverclockSwitches>,
    offsets_zero: Option<bool>,
    state: OverclockState,
    events: Seq<OverclockEvent>,
    offset: i32,
)
    requires
        overclock_after(switches, state, events).last_applied_offset == Some(offset),
    ensures
        state.last_applied_offset == Some(offset) || {
            &&& events.len() >= 2
            &&& overclock_move(switches, offsets_zero, state, events.take(1))
                == OverclockMove::SendCore(offset)
            &&& !(events[1] is Failed)
        },
{
    if state.last_applied_offset != Some(offset) {
        assert(events.len() > 0);
        assert(events.take(1) =~= seq![events[0]]);
        assert(events.take(1).skip(1) =~= Seq::<OverclockEvent>::empty());
        assert(events.skip(1).len() > 0);
        assert(events.skip(1)[0] == events[1]);
    }
}

/// A poll that finds no NVIDIA card, or one in no performance state, sends nothing
/// and remembers what it did.
pub proof fn law_other_cards_are_left_alone(
    offsets_zero: Option<bool>,
    state: OverclockState,
    gpus: Vec<MeasuredGpu>,
)
    requires
        forall|j: int|
            0 <= j < gpus@.len() ==> !has_infix(
                lowercase_of((#[trigger] gpus@[j]).name@),
                "nvidia"@,
            ) || exists|i: int| i <= j && #[trigger] is_the_card(gpus@, i) && !performs(gpus@[i]),
    ensures
        overclock_move(all_on(), offsets_zero, state, seq![OverclockEvent::Measured(gpus)])
            == OverclockMove::Done(Ok(())),
        overclock_after(all_on(), state, seq![OverclockEvent::Measured(gpus)]) == state,
{
    let names = gpu_names(gpus@);
    let lowered = lowercase_all(names);
    if let Some(place) = nvidia_place(names) {
        assert(is_first_with(lowered, "nvidia"@, place));
        assert(lowered[place] == lowercase_of(gpus@[place].name@));
        let i = choose|i: int| i <= place && #[trigger] is_the_card(gpus@, i) && !performs(gpus@[i]);
        lemma_card(gpus@, i);
        assert(i == place);
        lemma_performs(gpus@[place]);
    }
}

/// A poll begins with a measurement, and one that fails ends it with its reason.
pub proof fn law_poll_measures_first(
    offsets_zero: Option<bool>,
    state: OverclockState,
    reason: String,
)
    ensures
        overclock_move(all_on(), offsets_zero, state, Seq::empty()) == OverclockMove::Measure,
        overclock_after(all_on(), state, Seq::empty()) == state,
        overclock_move(all_on(), offsets_zero, state, seq![OverclockEvent::Failed(reason)])
            == OverclockMove::Done(Err(reason@)),
        overclock_after(all_on(), state, seq![OverclockEvent::Failed(reason)]) == state,
{
}

/// With a switch off, or without settings, no card is measured and nothing is
/// remembered. Only offsets that are still set by hand while clocks no longer are
/// make the poll send anything: zero to the core clock, then zero to the memory
/// clock, and then it is noted, whatever the card answers.
pub proof fn law_switched_off_clears(
    switches: Option<OverclockSwitches>,
    offsets_zero: Option<bool>,
    state: OverclockState,
    events: Seq<OverclockEvent>,
)
    requires
        switches != all_on(),
    ensures
        overclock_after(switches, state, events).last_applied_offset is None,
        overclock_after(switches, state, events).stats is None,
        ({
            let next = overclock_move(switches, offsets_zero, state, events);
            let clears = switches is Some && !switches->0.manual_clocks && offsets_zero != Some(
                true,
            );
            &&& !clears ==> next == OverclockMove::Done(Ok(()))
            &&& clears && events.len() == 0 ==> next == OverclockMove::SendCore(0)
            &&& clears && events.len() == 1 ==> next == OverclockMove::SendMemory(0)
            &&& clears && events.len() == 2 ==> next == OverclockMove::NoteCleared
            &&& clears && events.len() >= 3 ==> next == OverclockMove::Done(Ok(()))
        }),
{
}

/// The ends of a rule: the offset at the lower and at the upper end of the range.
pub open spec fn rule_ends(rule: OffsetRule) -> (i32, i32) {
    match rule {
        OffsetRule::Fixed(offset) => (offset, offset),
        OffsetRule::Between(from, to) => (from, to),
    }
}

/// The offsets by frequency and by power begin with the greatest one at the lower
/// end of their range and end with the least one at the upper end, without a jump
/// at either; without power control there is no offset by power.
pub proof fn law_offsets_fall_along_the_range(adv: AdvancedGpuSettings, zone: Zone)
    ensures
        ({
            let rule = freq_rule_of(adv, zone);
            &&& rule is Between <==> zone == Zone::Inside
            &&& zone != Zone::High ==> rule_ends(rule).0 == adv.freq_offset_max
            &&& zone != Zone::Low ==> rule_ends(rule).1 == adv.freq_offset_min
        }),
        ({
            let rule = power_rule_of(adv, zone);
            &&& adv.power_offset_control ==> {
                &&& rule is Between <==> zone == Zone::Inside
                &&& zone != Zone::High ==> rule_ends(rule).0 == adv.power_offset_max
                &&& zone != Zone::Low ==> rule_ends(rule).1 == adv.power_offset_min
            }
            &&& !adv.power_offset_control ==> rule == OffsetRule::Fixed(0)
        }),
{
}

/// The offset by temperature. Up to the highest temperature it goes from the
/// greatest to the least offset of a high frequency, and from the least to the
/// greatest one of any other. Above it, and in the critical range where that is
/// watched, it is fixed: the least one of a high frequency; of a low frequency the
/// least one in the critical range and otherwise the greatest; none of any other.
/// Without drain control there is no such offset.
pub proof fn law_offset_by_temperature(adv: AdvancedGpuSettings, reading: DrainReading)
    ensures
        ({
            let rule = drain_rule_of(adv, reading);
            let critical = adv.critical_temp_range_control && reading.in_critical_range;
            let hot = critical || reading.above_maximum;
            let on = adv.drain_offset_control;
            &&& !on ==> rule == OffsetRule::Fixed(0)
            &&& on ==> (rule is Fixed <==> hot)
            &&& on && !hot && reading.high_frequency ==> rule_ends(rule) == (
                adv.drain_offset_hmax,
                adv.drain_offset_hmin,
            )
            &&& on && !hot && !reading.high_frequency ==> rule_ends(rule) == (
                adv.drain_offset_lmin,
                adv.drain_offset_lmax,
            )
            &&& on && hot && reading.low_frequency && critical ==> rule_ends(rule).0
                == adv.drain_offset_lmin
            &&& on && hot && reading.low_frequency && !critical ==> rule_ends(rule).0
                == adv.drain_offset_lmax
            &&& on && hot && !reading.low_frequency && reading.high_frequency ==> rule_ends(rule).0
                == adv.drain_offset_hmin
            &&& on && hot && !reading.low_frequency && !reading.high_frequency ==> rule_ends(rule).0
                == 0
        }),
{
}

} // verus!
