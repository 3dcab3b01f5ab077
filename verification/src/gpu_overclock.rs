//! Overclocking of the NVIDIA card by temperature, frequency and power.
//!
//! A poll measures the card, shifts its core clock by an offset that depends on
//! the readings, and sends the offset only when it changes. The readings are
//! fractions and are compared and scaled where they are measured; which rule
//! applies to them, and what is sent when, is decided here.

use crate::text::{
    contains, find_with, first_with, has_infix, has_prefix, lowercase, lowercase_all, lowercase_of,
    same, starts_with, views,
};
use vstd::prelude::*;

verus! {

/// The bounds and offsets of the dynamic overclocking.
#[derive(Clone, Copy, PartialEq, Eq, Structural, Debug)]
pub struct AdvancedGpuSettings {
    pub frequency_min: i32,
    pub frequency_max: i32,
    pub freq_offset_min: i32,
    pub freq_offset_max: i32,
    pub drain_offset_control: bool,
    pub high_freq_min: i32,
    pub high_freq_max: i32,
    pub low_freq_min: i32,
    pub low_freq_max: i32,
    pub critical_temp_range_control: bool,
    pub critical_temp_min: i32,
    pub critical_temp_max: i32,
    pub temperature_min: i32,
    pub temperature_max: i32,
    pub drain_offset_lmin: i32,
    pub drain_offset_lmax: i32,
    pub drain_offset_hmin: i32,
    pub drain_offset_hmax: i32,
    pub power_offset_control: bool,
    pub plimit_min: i32,
    pub plimit_max: i32,
    pub power_offset_min: i32,
    pub power_offset_max: i32,
    pub smart_rounding_threshold: i32,
}

/// Where a reading stands to a range.
#[derive(Clone, Copy, PartialEq, Eq, Structural, Debug)]
pub enum Zone {
    /// At its lower end or below.
    Low,
    /// Between its ends.
    Inside,
    /// At its upper end or above.
    High,
}

/// How an offset follows from a reading.
#[derive(Clone, Copy, PartialEq, Eq, Structural, Debug)]
pub enum OffsetRule {
    /// It does not depend on the reading.
    Fixed(i32),
    /// It goes from the first to the second value as the reading goes through
    /// its range.
    Between(i32, i32),
}

/// The rule of the offset by frequency: the slower the card runs, the greater
/// the offset.
pub open spec fn freq_rule_of(adv: AdvancedGpuSettings, zone: Zone) -> OffsetRule {
    match zone {
        Zone::Low => OffsetRule::Fixed(adv.freq_offset_max),
        Zone::High => OffsetRule::Fixed(adv.freq_offset_min),
        Zone::Inside => OffsetRule::Between(adv.freq_offset_max, adv.freq_offset_min),
    }
}

/// The rule of the offset by power.
pub open spec fn power_rule_of(adv: AdvancedGpuSettings, zone: Zone) -> OffsetRule {
    if !adv.power_offset_control {
        OffsetRule::Fixed(0)
    } else {
        match zone {
            Zone::Low => OffsetRule::Fixed(adv.power_offset_max),
            Zone::High => OffsetRule::Fixed(adv.power_offset_min),
            Zone::Inside => OffsetRule::Between(adv.power_offset_max, adv.power_offset_min),
        }
    }
}

/// What the rule of the offset by temperature looks at.
#[derive(Clone, Copy, PartialEq, Eq, Structural, Debug)]
pub struct DrainReading {
    /// The temperature lies in the critical range.
    pub in_critical_range: bool,
    /// The temperature lies above the range of temperatures.
    pub above_maximum: bool,
    /// The frequency lies in the low range.
    pub low_frequency: bool,
    /// The frequency lies in the high range.
    pub high_frequency: bool,
}

/// The rule of the offset by temperature.
pub open spec fn drain_rule_of(adv: AdvancedGpuSettings, reading: DrainReading) -> OffsetRule {
    if !adv.drain_offset_control {
        OffsetRule::Fixed(0)
    } else if adv.critical_temp_range_control && reading.in_critical_range {
        if reading.low_frequency {
            OffsetRule::Fixed(adv.drain_offset_lmin)
        } else if reading.high_frequency {
            OffsetRule::Fixed(adv.drain_offset_hmin)
        } else {
            OffsetRule::Fixed(0)
        }
    } else if reading.above_maximum {
        if reading.low_frequency {
            OffsetRule::Fixed(adv.drain_offset_lmax)
        } else if reading.high_frequency {
            OffsetRule::Fixed(adv.drain_offset_hmin)
        } else {
            OffsetRule::Fixed(0)
        }
    } else if reading.high_frequency {
        OffsetRule::Between(adv.drain_offset_hmax, adv.drain_offset_hmin)
    } else {
        OffsetRule::Between(adv.drain_offset_lmin, adv.drain_offset_lmax)
    }
}

/// Finds the rule of the offset by frequency.
pub fn freq_rule(adv: &AdvancedGpuSettings, zone: Zone) -> (r: OffsetRule)
    ensures
        r == freq_rule_of(*adv, zone),
{
    match zone {
        Zone::Low => OffsetRule::Fixed(adv.freq_offset_max),
        Zone::High => OffsetRule::Fixed(adv.freq_offset_min),
        Zone::Inside => OffsetRule::Between(adv.freq_offset_max, adv.freq_offset_min),
    }
}

/// Finds the rule of the offset by power.
pub fn power_rule(adv: &AdvancedGpuSettings, zone: Zone) -> (r: OffsetRule)
    ensures
        r == power_rule_of(*adv, zone),
{
    if !adv.power_offset_control {
        return OffsetRule::Fixed(0);
    }
    match zone {
        Zone::Low => OffsetRule::Fixed(adv.power_offset_max),
        Zone::High => OffsetRule::Fixed(adv.power_offset_min),
        Zone::Inside => OffsetRule::Between(adv.power_offset_max, adv.power_offset_min),
    }
}

/// Finds the rule of the offset by temperature.
pub fn drain_rule(adv: &AdvancedGpuSettings, reading: DrainReading) -> (r: OffsetRule)
    ensures
        r == drain_rule_of(*adv, reading),
{
    if !adv.drain_offset_control {
        return OffsetRule::Fixed(0);
    }
    let critical = adv.critical_temp_range_control && reading.in_critical_range;
    if critical || reading.above_maximum {
        if reading.low_frequency {
            return OffsetRule::Fixed(
                if critical {
                    adv.drain_offset_lmin
                } else {
                    adv.drain_offset_lmax
                },
            );
        }
        if reading.high_frequency {
            return OffsetRule::Fixed(adv.drain_offset_hmin);
        }
        return OffsetRule::Fixed(0);
    }
    if reading.high_frequency {
        OffsetRule::Between(adv.drain_offset_hmax, adv.drain_offset_hmin)
    } else {
        OffsetRule::Between(adv.drain_offset_lmin, adv.drain_offset_lmax)
    }
}

/// The parts of the offset that was last found, for display.
#[derive(Clone, Copy, PartialEq, Eq, Structural, Debug)]
pub struct GpuOverclockStats {
    pub freq_offset: i32,
    pub drain_offset: i32,
    pub power_offset: i32,
    pub total_offset: i32,
}

/// What the overclocking remembers from poll to poll.
#[derive(Clone, Copy, PartialEq, Eq, Structural, Debug)]
pub struct OverclockState {
    /// The offset that was last sent, if the card still has it.
    pub last_applied_offset: Option<i32>,
    pub stats: Option<GpuOverclockStats>,
}

/// A card as a poll finds it. `total_offset` of the offsets is what is to be
/// sent.
#[derive(Debug)]
pub struct MeasuredGpu {
    pub name: String,
    pub status: String,
    pub offsets: GpuOverclockStats,
}

/// What a poll does next.
#[derive(Debug)]
pub enum OverclockStep {
    /// Measure the cards.
    Measure,
    /// Shift the core clock.
    SendCore(i32),
    /// Shift the memory clock.
    SendMemory(i32),
    /// Note that no offset is set by hand any more.
    NoteCleared,
    /// The poll is over.
    Done(Result<(), String>),
}

/// What an `OverclockStep` says.
pub enum OverclockMove {
    Measure,
    SendCore(i32),
    SendMemory(i32),
    NoteCleared,
    Done(Result<(), Seq<char>>),
}

impl View for OverclockStep {
    type V = OverclockMove;

    open spec fn view(&self) -> OverclockMove {
        match self {
            OverclockStep::Measure => OverclockMove::Measure,
            OverclockStep::SendCore(offset) => OverclockMove::SendCore(*offset),
            OverclockStep::SendMemory(offset) => OverclockMove::SendMemory(*offset),
            OverclockStep::NoteCleared => OverclockMove::NoteCleared,
            OverclockStep::Done(Ok(_)) => OverclockMove::Done(Ok(())),
            OverclockStep::Done(Err(message)) => OverclockMove::Done(Err(message@)),
        }
    }
}

/// What came of it.
#[derive(Debug)]
pub enum OverclockEvent {
    Measured(Vec<MeasuredGpu>),
    /// It was done.
    Done,
    /// It failed, with this message.
    Failed(String),
}

impl OverclockEvent {
    pub open spec fn fault(self) -> Option<Seq<char>> {
        match self {
            OverclockEvent::Failed(message) => Some(message@),
            _ => None,
        }
    }
}

/// The switches of the overclocking.
#[derive(Clone, Copy, PartialEq, Eq, Structural, Debug)]
pub struct OverclockSwitches {
    pub advanced_control: bool,
    pub manual_clocks: bool,
}

/// What a card with this status is to get.
#[derive(Clone, Copy, PartialEq, Eq, Structural, Debug)]
pub enum GpuActivity {
    /// It is asleep or in no performance state: it is left alone.
    LeaveAlone,
    /// It runs below the highest performance state: its offset is taken back.
    TakeBack,
    /// It runs in the highest performance state: it gets its offset.
    Drive,
}

/// What a card whose status reads so in lowercase is to get.
pub open spec fn activity_for(lowered: Seq<char>) -> GpuActivity {
    if has_infix(lowered, "suspended"@) || !has_prefix(lowered, "p"@) {
        GpuActivity::LeaveAlone
    } else if lowered == "p0"@ {
        GpuActivity::Drive
    } else {
        GpuActivity::TakeBack
    }
}

/// Finds what a card whose status reads so in lowercase is to get.
pub fn activity(lowered: &str) -> (r: GpuActivity)
    ensures
        r == activity_for(lowered@),
{
    if contains(lowered, "suspended") || !starts_with(lowered, "p") {
        GpuActivity::LeaveAlone
    } else if same(lowered, "p0") {
        GpuActivity::Drive
    } else {
        GpuActivity::TakeBack
    }
}

/// The names of the cards.
pub open spec fn gpu_names(gpus: Seq<MeasuredGpu>) -> Seq<Seq<char>> {
    gpus.map_values(|g: MeasuredGpu| g.name@)
}

/// The first place of an NVIDIA card among cards with these names.
pub open spec fn nvidia_place(names: Seq<Seq<char>>) -> Option<int> {
    first_with(lowercase_all(names), "nvidia"@)
}

/// Finds the first NVIDIA card by the names of the cards.
pub fn find_nvidia(names: &Vec<String>) -> (r: Option<usize>)
    ensures
        match r {
            Some(i) => nvidia_place(views(names@)) == Some(i as int) && i < names@.len(),
            None => nvidia_place(views(names@)) is None,
        },
{
    let mut lowered: Vec<String> = Vec::new();
    let mut i: usize = 0;
    while i < names.len()
        invariant
            i <= names@.len(),
            lowered@.len() == i,
            forall|k: int| 0 <= k < i ==> (#[trigger] lowered@[k])@ == lowercase_of(names@[k]@),
        decreases names@.len() - i,
    {
        lowered.push(lowercase(names[i].as_str()));
        i = i + 1;
    }
    assert(views(lowered@) =~= lowercase_all(views(names@)));
    find_with(&lowered, "nvidia")
}

/// Sending an offset if the card does not have it yet.
pub open spec fn settle_move(
    state: OverclockState,
    offset: i32,
    events: Seq<OverclockEvent>,
) -> OverclockMove {
    if state.last_applied_offset == Some(offset) {
        OverclockMove::Done(Ok(()))
    } else if events.len() == 0 {
        OverclockMove::SendCore(offset)
    } else {
        match events[0].fault() {
            None => OverclockMove::Done(Ok(())),
            Some(message) => OverclockMove::Done(Err(message)),
        }
    }
}

/// What is remembered after that: nothing new unless the poll succeeded.
pub open spec fn settled(
    state: OverclockState,
    offset: i32,
    stats: Option<GpuOverclockStats>,
    events: Seq<OverclockEvent>,
) -> OverclockState {
    if settle_move(state, offset, events) == OverclockMove::Done(Ok(())) {
        OverclockState { last_applied_offset: Some(offset), stats }
    } else {
        state
    }
}

/// Sends an offset if the card does not have it yet.
fn settle(
    state: &mut OverclockState,
    offset: i32,
    stats: Option<GpuOverclockStats>,
    events: &[OverclockEvent],
    from: usize,
) -> (r: OverclockStep)
    requires
        from <= events@.len(),
    ensures
        r@ == settle_move(*old(state), offset, events@.skip(from as int)),
        *final(state) == settled(*old(state), offset, stats, events@.skip(from as int)),
{
    let known = match state.last_applied_offset {
        Some(last) => last == offset,
        None => false,
    };
    if !known {
        if events.len() == from {
            return OverclockStep::SendCore(offset);
        }
        assert(events@.skip(from as int)[0] == events@[from as int]);
        match &events[from] {
            OverclockEvent::Failed(message) => {
                return OverclockStep::Done(Err(message.clone()));
            },
            _ => {},
        }
    }
    state.last_applied_offset = Some(offset);
    state.stats = stats;
    OverclockStep::Done(Ok(()))
}

/// The card and the offset that a measured poll is about: none if there is no
/// NVIDIA card or it is left alone.
pub open spec fn drive(gpus: Seq<MeasuredGpu>) -> Option<(i32, Option<GpuOverclockStats>)> {
    match nvidia_place(gpu_names(gpus)) {
        Some(i) => {
            let gpu = gpus[i];
            match activity_for(lowercase_of(gpu.status@)) {
                GpuActivity::LeaveAlone => None,
                GpuActivity::TakeBack => Some((0, None)),
                GpuActivity::Drive => Some((gpu.offsets.total_offset, Some(gpu.offsets))),
            }
        },
        None => None,
    }
}

/// The state in which nothing is remembered.
pub open spec fn nothing_applied() -> OverclockState {
    OverclockState { last_applied_offset: None, stats: None }
}

/// Taking back the offsets that were set by hand, whatever comes of it, and
/// noting it.
pub open spec fn clearing_move(done: nat) -> OverclockMove {
    if done == 0 {
        OverclockMove::SendCore(0)
    } else if done == 1 {
        OverclockMove::SendMemory(0)
    } else if done == 2 {
        OverclockMove::NoteCleared
    } else {
        OverclockMove::Done(Ok(()))
    }
}

/// The next move of a poll. `offsets_zero` says whether the offsets that were
/// set by hand are zero, if any were.
pub open spec fn overclock_move(
    switches: Option<OverclockSwitches>,
    offsets_zero: Option<bool>,
    state: OverclockState,
    events: Seq<OverclockEvent>,
) -> OverclockMove {
    match switches {
        None => OverclockMove::Done(Ok(())),
        Some(on) => if !on.manual_clocks {
            if offsets_zero == Some(true) {
                OverclockMove::Done(Ok(()))
            } else {
                clearing_move(events.len())
            }
        } else if !on.advanced_control {
            OverclockMove::Done(Ok(()))
        } else if events.len() == 0 {
            OverclockMove::Measure
        } else {
            match events[0] {
                OverclockEvent::Measured(gpus) => match drive(gpus@) {
                    Some((offset, _)) => settle_move(state, offset, events.skip(1)),
                    None => OverclockMove::Done(Ok(())),
                },
                OverclockEvent::Failed(message) => OverclockMove::Done(Err(message@)),
                OverclockEvent::Done => OverclockMove::Done(Err("no cards in event"@)),
            }
        },
    }
}

/// What is remembered after that.
pub open spec fn overclock_after(
    switches: Option<OverclockSwitches>,
    state: OverclockState,
    events: Seq<OverclockEvent>,
) -> OverclockState {
    match switches {
        Some(on) => if on.manual_clocks && on.advanced_control {
            if events.len() > 0 {
                match events[0] {
                    OverclockEvent::Measured(gpus) => match drive(gpus@) {
                        Some((offset, stats)) => settled(state, offset, stats, events.skip(1)),
                        None => state,
                    },
                    _ => state,
                }
            } else {
                state
            }
        } else {
            nothing_applied()
        },
        None => nothing_applied(),
    }
}

fn names_of(gpus: &Vec<MeasuredGpu>) -> (r: Vec<String>)
    ensures
        views(r@) == gpu_names(gpus@),
{
    let mut names: Vec<String> = Vec::new();
    let mut i: usize = 0;
    while i < gpus.len()
        invariant
            i <= gpus@.len(),
            names@.len() == i,
            forall|k: int| 0 <= k < i ==> (#[trigger] names@[k])@ == gpus@[k].name@,
        decreases gpus@.len() - i,
    {
        names.push(gpus[i].name.clone());
        i = i + 1;
    }
    assert(views(names@) =~= gpu_names(gpus@));
    names
}

/// Polls the overclocking. Without settings, or with settings that do not
/// overclock dynamically, nothing is remembered; offsets that were set by hand
/// are taken back once when clocks are no longer set by hand.
pub fn apply_gpu_overclocking(
    switches: Option<OverclockSwitches>,
    offsets_zero: Option<bool>,
    state: &mut OverclockState,
    events: &[OverclockEvent],
) -> (r: OverclockStep)
    ensures
        r@ == overclock_move(switches, offsets_zero, *old(state), events@),
        *final(state) == overclock_after(switches, *old(state), events@),
{
    let on = match switches {
        Some(on) => on,
        None => {
            state.last_applied_offset = None;
            state.stats = None;
            return OverclockStep::Done(Ok(()));
        },
    };
    if !on.advanced_control || !on.manual_clocks {
        state.last_applied_offset = None;
        state.stats = None;
        if on.manual_clocks {
            return OverclockStep::Done(Ok(()));
        }
        let clear = match offsets_zero {
            Some(zero) => zero,
            None => false,
        };
        if clear {
            return OverclockStep::Done(Ok(()));
        }
        return match events.len() {
            0 => OverclockStep::SendCore(0),
            1 => OverclockStep::SendMemory(0),
            2 => OverclockStep::NoteCleared,
            _ => OverclockStep::Done(Ok(())),
        };
    }
    if events.len() == 0 {
        return OverclockStep::Measure;
    }
    match &events[0] {
        OverclockEvent::Failed(message) => OverclockStep::Done(Err(message.clone())),
        OverclockEvent::Done => OverclockStep::Done(Err("no cards in event".to_string())),
        OverclockEvent::Measured(gpus) => {
            match find_nvidia(&names_of(gpus)) {
                None => OverclockStep::Done(Ok(())),
                Some(i) => {
                    let gpu = &gpus[i];
                    match activity(lowercase(gpu.status.as_str()).as_str()) {
                        GpuActivity::LeaveAlone => OverclockStep::Done(Ok(())),
                        GpuActivity::TakeBack => settle(state, 0, None, events, 1),
                        GpuActivity::Drive => settle(
                            state,
                            gpu.offsets.total_offset,
                            Some(gpu.offsets),
                            events,
                            1,
                        ),
                    }
                },
            }
        },
    }
}

/// A poll that finds the offset unchanged sends nothing: after one that
/// succeeded, the same measurement is answered without touching the card.
pub proof fn law_unchanged_offset_is_not_sent(
    switches: OverclockSwitches,
    offsets_zero: Option<bool>,
    state: OverclockState,
    events: Seq<OverclockEvent>,
    again: OverclockEvent,
)
    requires
        switches.advanced_control && switches.manual_clocks,
        events.len() > 0,
        again == events[0],
        overclock_move(Some(switches), offsets_zero, state, events) == OverclockMove::Done(Ok(())),
    ensures
        overclock_move(
            Some(switches),
            offsets_zero,
            overclock_after(Some(switches), state, events),
            seq![again],
        ) == OverclockMove::Done(Ok(())),
{
    assert(seq![again].skip(1) =~= Seq::<OverclockEvent>::empty());
}

/// A card that is suspended is never touched: a poll that finds it so sends
/// nothing and remembers what it did.
pub proof fn law_suspended_card_sleeps_on(
    switches: OverclockSwitches,
    offsets_zero: Option<bool>,
    state: OverclockState,
    gpus: Vec<MeasuredGpu>,
    place: int,
)
    requires
        switches.advanced_control && switches.manual_clocks,
        nvidia_place(gpu_names(gpus@)) == Some(place),
        has_infix(lowercase_of(gpus@[place].status@), "suspended"@),
    ensures
        overclock_move(
            Some(switches),
            offsets_zero,
            state,
            seq![OverclockEvent::Measured(gpus)],
        ) == OverclockMove::Done(Ok(())),
        overclock_after(Some(switches), state, seq![OverclockEvent::Measured(gpus)]) == state,
{
}

/// When clocks are no longer set by hand, both offsets are taken back once: the
/// poll after that leaves the card alone.
pub proof fn law_offsets_are_taken_back_once(
    advanced_control: bool,
    state: OverclockState,
    events: Seq<OverclockEvent>,
)
    ensures
        ({
            let off = Some(OverclockSwitches { advanced_control, manual_clocks: false });
            &&& overclock_move(off, Some(true), state, events) == OverclockMove::Done(Ok(()))
            &&& overclock_move(off, Some(false), state, Seq::empty()) == OverclockMove::SendCore(0)
            &&& overclock_move(off, None, state, Seq::empty()) == OverclockMove::SendCore(0)
            &&& events.len() >= 3 ==> overclock_move(off, None, state, events)
                == OverclockMove::Done(Ok(()))
        }),
{
}

} // verus!
