//! Tuning profiles and the order in which their settings are applied.

use crate::access::{opt_text, GpuRequest};
use crate::fan_curve::{FanCurve, FanPlan, FanSettings};
use crate::gpu_overclock::AdvancedGpuSettings;
use crate::keyboard_control::{KeyboardSettings, Mode};
use crate::screen_control::ScreenSettings;
use crate::text::{copy_optional, same, same_optional};
use vstd::prelude::*;

verus! {

/// The processor settings of a profile.
#[derive(Debug)]
pub struct CpuSettings {
    pub governor: Option<String>,
    pub tdp_profile: Option<String>,
    pub tdp0: Option<u32>,
    pub tdp1: Option<u32>,
    pub tdp2: Option<u32>,
    pub amd_pstate_status: Option<String>,
    pub intel_pstate_status: Option<String>,
    pub energy_performance_preference: Option<String>,
    pub min_frequency: Option<u64>,
    pub max_frequency: Option<u64>,
    pub boost: Option<bool>,
    pub smt: Option<bool>,
}

/// The setting of a fan of a graphics card.
#[derive(Clone, Copy, PartialEq, Eq, Structural, Debug)]
pub struct NvidiaFanSetting {
    pub device_index: u32,
    pub fan_id: u32,
    pub manual: bool,
    pub speed: u32,
}

/// The graphics settings of a profile.
#[derive(Debug)]
pub struct GpuSettings {
    pub power_limit: Option<u32>,
    pub core_offset: Option<i32>,
    pub memory_offset: Option<i32>,
    pub min_gpu_clock: Option<u32>,
    pub max_gpu_clock: Option<u32>,
    pub nvidia_fans: Vec<NvidiaFanSetting>,
    pub advanced_control: bool,
    pub manual_clocks: bool,
    pub advanced: AdvancedGpuSettings,
}

/// A tuning profile.
#[derive(Debug)]
pub struct Profile {
    pub name: String,
    pub cpu_settings: CpuSettings,
    pub gpu_settings: GpuSettings,
    pub keyboard_settings: KeyboardSettings,
    pub screen_settings: ScreenSettings,
    pub fan_settings: FanSettings,
}

/// What `CpuSettings` say.
pub struct CpuPlan {
    pub governor: Option<Seq<char>>,
    pub tdp_profile: Option<Seq<char>>,
    pub tdp0: Option<u32>,
    pub tdp1: Option<u32>,
    pub tdp2: Option<u32>,
    pub amd_pstate_status: Option<Seq<char>>,
    pub intel_pstate_status: Option<Seq<char>>,
    pub energy_performance_preference: Option<Seq<char>>,
    pub min_frequency: Option<u64>,
    pub max_frequency: Option<u64>,
    pub boost: Option<bool>,
    pub smt: Option<bool>,
}

/// What `GpuSettings` say.
pub struct GpuPlan {
    pub power_limit: Option<u32>,
    pub core_offset: Option<i32>,
    pub memory_offset: Option<i32>,
    pub min_gpu_clock: Option<u32>,
    pub max_gpu_clock: Option<u32>,
    pub nvidia_fans: Seq<NvidiaFanSetting>,
    pub advanced_control: bool,
    pub manual_clocks: bool,
    pub advanced: AdvancedGpuSettings,
}

/// What a `Profile` says.
pub struct Tuning {
    pub name: Seq<char>,
    pub cpu: CpuPlan,
    pub gpu: GpuPlan,
    pub keyboard_enabled: bool,
    pub keyboard_mode: Mode,
    pub screen: ScreenSettings,
    pub fans: FanPlan,
}

impl View for CpuSettings {
    type V = CpuPlan;

    open spec fn view(&self) -> CpuPlan {
        CpuPlan {
            governor: opt_text(self.governor),
            tdp_profile: opt_text(self.tdp_profile),
            tdp0: self.tdp0,
            tdp1: self.tdp1,
            tdp2: self.tdp2,
            amd_pstate_status: opt_text(self.amd_pstate_status),
            intel_pstate_status: opt_text(self.intel_pstate_status),
            energy_performance_preference: opt_text(self.energy_performance_preference),
            min_frequency: self.min_frequency,
            max_frequency: self.max_frequency,
            boost: self.boost,
            smt: self.smt,
        }
    }
}

impl View for GpuSettings {
    type V = GpuPlan;

    open spec fn view(&self) -> GpuPlan {
        GpuPlan {
            power_limit: self.power_limit,
            core_offset: self.core_offset,
            memory_offset: self.memory_offset,
            min_gpu_clock: self.min_gpu_clock,
            max_gpu_clock: self.max_gpu_clock,
            nvidia_fans: self.nvidia_fans@,
            advanced_control: self.advanced_control,
            manual_clocks: self.manual_clocks,
            advanced: self.advanced,
        }
    }
}

impl View for Profile {
    type V = Tuning;

    open spec fn view(&self) -> Tuning {
        Tuning {
            name: self.name@,
            cpu: self.cpu_settings@,
            gpu: self.gpu_settings@,
            keyboard_enabled: self.keyboard_settings.control_enabled,
            keyboard_mode: self.keyboard_settings.mode@,
            screen: self.screen_settings,
            fans: self.fan_settings@,
        }
    }
}

/// What an optional profile says.
pub open spec fn opt_tuning(profile: Option<Profile>) -> Option<Tuning> {
    match profile {
        Some(p) => Some(p@),
        None => None,
    }
}

impl Clone for CpuSettings {
    fn clone(&self) -> (r: CpuSettings)
        ensures
            r@ == self@,
    {
        CpuSettings {
            governor: copy_optional(&self.governor),
            tdp_profile: copy_optional(&self.tdp_profile),
            tdp0: self.tdp0,
            tdp1: self.tdp1,
            tdp2: self.tdp2,
            amd_pstate_status: copy_optional(&self.amd_pstate_status),
            intel_pstate_status: copy_optional(&self.intel_pstate_status),
            energy_performance_preference: copy_optional(&self.energy_performance_preference),
            min_frequency: self.min_frequency,
            max_frequency: self.max_frequency,
            boost: self.boost,
            smt: self.smt,
        }
    }
}

fn copy_fans(list: &Vec<NvidiaFanSetting>) -> (r: Vec<NvidiaFanSetting>)
    ensures
        r@ == list@,
{
    let mut out: Vec<NvidiaFanSetting> = Vec::new();
    let mut i: usize = 0;
    while i < list.len()
        invariant
            i <= list@.len(),
            out@ == list@.take(i as int),
        decreases list@.len() - i,
    {
        out.push(list[i]);
        assert(out@ =~= list@.take(i + 1));
        i = i + 1;
    }
    assert(list@.take(list@.len() as int) =~= list@);
    out
}

impl Clone for GpuSettings {
    fn clone(&self) -> (r: GpuSettings)
        ensures
            r@ == self@,
    {
        GpuSettings {
            power_limit: self.power_limit,
            core_offset: self.core_offset,
            memory_offset: self.memory_offset,
            min_gpu_clock: self.min_gpu_clock,
            max_gpu_clock: self.max_gpu_clock,
            nvidia_fans: copy_fans(&self.nvidia_fans),
            advanced_control: self.advanced_control,
            manual_clocks: self.manual_clocks,
            advanced: self.advanced,
        }
    }
}

impl Clone for Profile {
    fn clone(&self) -> (r: Profile)
        ensures
            r@ == self@,
    {
        Profile {
            name: self.name.clone(),
            cpu_settings: self.cpu_settings.clone(),
            gpu_settings: self.gpu_settings.clone(),
            keyboard_settings: KeyboardSettings {
                control_enabled: self.keyboard_settings.control_enabled,
                mode: self.keyboard_settings.mode.clone(),
            },
            screen_settings: self.screen_settings,
            fan_settings: self.fan_settings.clone(),
        }
    }
}

impl CpuSettings {
    fn same_as(&self, other: &CpuSettings) -> (r: bool)
        ensures
            r == (self@ == other@),
    {
        same_optional(&self.governor, &other.governor) && same_optional(
            &self.tdp_profile,
            &other.tdp_profile,
        ) && self.tdp0 == other.tdp0 && self.tdp1 == other.tdp1 && self.tdp2 == other.tdp2
            && same_optional(&self.amd_pstate_status, &other.amd_pstate_status) && same_optional(
            &self.intel_pstate_status,
            &other.intel_pstate_status,
        ) && same_optional(
            &self.energy_performance_preference,
            &other.energy_performance_preference,
        ) && self.min_frequency == other.min_frequency && self.max_frequency
            == other.max_frequency && self.boost == other.boost && self.smt == other.smt
    }
}

fn same_fans(a: &Vec<NvidiaFanSetting>, b: &Vec<NvidiaFanSetting>) -> (r: bool)
    ensures
        r == (a@ == b@),
{
    if a.len() != b.len() {
        return false;
    }
    let mut i: usize = 0;
    while i < a.len()
        invariant
            i <= a@.len(),
            a@.len() == b@.len(),
            forall|k: int| 0 <= k < i ==> a@[k] == b@[k],
        decreases a@.len() - i,
    {
        if a[i] != b[i] {
            return false;
        }
        i = i + 1;
    }
    assert(a@ =~= b@);
    true
}

impl GpuSettings {
    fn same_as(&self, other: &GpuSettings) -> (r: bool)
        ensures
            r == (self@ == other@),
    {
        self.power_limit == other.power_limit && self.core_offset == other.core_offset
            && self.memory_offset == other.memory_offset && self.min_gpu_clock
            == other.min_gpu_clock && self.max_gpu_clock == other.max_gpu_clock && same_fans(
            &self.nvidia_fans,
            &other.nvidia_fans,
        ) && self.advanced_control == other.advanced_control && self.manual_clocks
            == other.manual_clocks && self.advanced == other.advanced
    }
}

fn same_points(a: &Vec<(u8, u8)>, b: &Vec<(u8, u8)>) -> (r: bool)
    ensures
        r == (a@ == b@),
{
    if a.len() != b.len() {
        return false;
    }
    let mut i: usize = 0;
    while i < a.len()
        invariant
            i <= a@.len(),
            a@.len() == b@.len(),
            forall|k: int| 0 <= k < i ==> a@[k] == b@[k],
        decreases a@.len() - i,
    {
        if a[i].0 != b[i].0 || a[i].1 != b[i].1 {
            return false;
        }
        i = i + 1;
    }
    assert(a@ =~= b@);
    true
}

fn same_curves(a: &Vec<FanCurve>, b: &Vec<FanCurve>) -> (r: bool)
    ensures
        r == (crate::fan_curve::curves(a@) == crate::fan_curve::curves(b@)),
{
    let ghost left = crate::fan_curve::curves(a@);
    let ghost right = crate::fan_curve::curves(b@);
    if a.len() != b.len() {
        assert(left.len() != right.len());
        return false;
    }
    let mut i: usize = 0;
    while i < a.len()
        invariant
            i <= a@.len(),
            a@.len() == b@.len(),
            left == crate::fan_curve::curves(a@),
            right == crate::fan_curve::curves(b@),
            forall|k: int| 0 <= k < i ==> left[k] == right[k],
        decreases a@.len() - i,
    {
        assert(left[i as int] == a@[i as int]@);
        assert(right[i as int] == b@[i as int]@);
        if a[i].fan_id != b[i].fan_id || !same_points(&a[i].points, &b[i].points) {
            return false;
        }
        i = i + 1;
    }
    assert(left =~= right);
    true
}

impl Profile {
    /// Whether two profiles are the same in every setting.
    pub fn same_as(&self, other: &Profile) -> (r: bool)
        ensures
            r == (self@ == other@),
    {
        same(self.name.as_str(), other.name.as_str()) && self.cpu_settings.same_as(
            &other.cpu_settings,
        ) && self.gpu_settings.same_as(&other.gpu_settings)
            && self.keyboard_settings.control_enabled == other.keyboard_settings.control_enabled
            && self.keyboard_settings.mode.same_as(&other.keyboard_settings.mode)
            && self.screen_settings == other.screen_settings
            && self.fan_settings.control_enabled == other.fan_settings.control_enabled
            && same_curves(&self.fan_settings.curves, &other.fan_settings.curves)
    }
}

/// One step of applying a profile.
#[derive(Debug)]
pub enum ProfileStep {
    Governor(String),
    TdpProfile(String),
    /// A power limit of Uniwill firmware, by its index.
    TdpLimit(u8, u32),
    AmdPstate(String),
    IntelPstate(String),
    EnergyPreference(String),
    FrequencyLimits(u64, u64),
    /// Find the index of the NVIDIA card.
    SelectGpu,
    /// Limit the power of a card, in watts.
    GpuPowerLimit(u32, u32),
    /// Send another request to a card.
    Gpu(u32, GpuRequest),
    Boost(bool),
    Smt(bool),
    Keyboard,
    Screen,
    Fans,
}

/// What a `ProfileStep` says.
pub enum Stage {
    Governor(Seq<char>),
    TdpProfile(Seq<char>),
    TdpLimit(u8, u32),
    AmdPstate(Seq<char>),
    IntelPstate(Seq<char>),
    EnergyPreference(Seq<char>),
    FrequencyLimits(u64, u64),
    SelectGpu,
    GpuPowerLimit(u32, u32),
    Gpu(u32, GpuRequest),
    Boost(bool),
    Smt(bool),
    Keyboard,
    Screen,
    Fans,
}

impl View for ProfileStep {
    type V = Stage;

    open spec fn view(&self) -> Stage {
        match self {
            ProfileStep::Governor(name) => Stage::Governor(name@),
            ProfileStep::TdpProfile(name) => Stage::TdpProfile(name@),
            ProfileStep::TdpLimit(index, value) => Stage::TdpLimit(*index, *value),
            ProfileStep::AmdPstate(status) => Stage::AmdPstate(status@),
            ProfileStep::IntelPstate(status) => Stage::IntelPstate(status@),
            ProfileStep::EnergyPreference(epp) => Stage::EnergyPreference(epp@),
            ProfileStep::FrequencyLimits(min, max) => Stage::FrequencyLimits(*min, *max),
            ProfileStep::SelectGpu => Stage::SelectGpu,
            ProfileStep::GpuPowerLimit(index, watts) => Stage::GpuPowerLimit(*index, *watts),
            ProfileStep::Gpu(index, request) => Stage::Gpu(*index, *request),
            ProfileStep::Boost(on) => Stage::Boost(*on),
            ProfileStep::Smt(on) => Stage::Smt(*on),
            ProfileStep::Keyboard => Stage::Keyboard,
            ProfileStep::Screen => Stage::Screen,
            ProfileStep::Fans => Stage::Fans,
        }
    }
}

/// The steps whose failure fails the profile. The power limits of the firmware
/// and the graphics card are not among them.
pub open spec fn required(stage: Stage) -> bool {
    match stage {
        Stage::TdpLimit(_, _) | Stage::SelectGpu | Stage::GpuPowerLimit(_, _) | Stage::Gpu(
            _,
            _,
        ) => false,
        _ => true,
    }
}

/// A list with one stage if the setting is there.
pub open spec fn stage_if<T>(setting: Option<T>, stage: spec_fn(T) -> Stage) -> Seq<Stage> {
    match setting {
        Some(value) => seq![stage(value)],
        None => Seq::empty(),
    }
}

/// A list with one stage if both settings are there.
pub open spec fn stage_if_both<T>(
    a: Option<T>,
    b: Option<T>,
    stage: spec_fn(T, T) -> Stage,
) -> Seq<Stage> {
    match (a, b) {
        (Some(x), Some(y)) => seq![stage(x, y)],
        _ => Seq::empty(),
    }
}

/// The processor settings, up to the choice of the card.
pub open spec fn cpu_stages(cpu: CpuPlan, uniwill: bool) -> Seq<Stage> {
    let limits = if uniwill {
        stage_if(cpu.tdp0, |v: u32| Stage::TdpLimit(0, v)) + stage_if(
            cpu.tdp1,
            |v: u32| Stage::TdpLimit(1, v),
        ) + stage_if(cpu.tdp2, |v: u32| Stage::TdpLimit(2, v))
    } else {
        Seq::empty()
    };
    stage_if(cpu.governor, |s: Seq<char>| Stage::Governor(s)) + stage_if(
        cpu.tdp_profile,
        |s: Seq<char>| Stage::TdpProfile(s),
    ) + limits + stage_if(cpu.amd_pstate_status, |s: Seq<char>| Stage::AmdPstate(s)) + stage_if(
        cpu.intel_pstate_status,
        |s: Seq<char>| Stage::IntelPstate(s),
    ) + stage_if(
        cpu.energy_performance_preference,
        |s: Seq<char>| Stage::EnergyPreference(s),
    ) + stage_if_both(
        cpu.min_frequency,
        cpu.max_frequency,
        |min: u64, max: u64| Stage::FrequencyLimits(min, max),
    )
}

/// The settings of the card: its clocks are locked if both ends are given, and
/// otherwise let go.
pub open spec fn gpu_stages(gpu: GpuPlan, index: u32) -> Seq<Stage> {
    let clocks = match (gpu.min_gpu_clock, gpu.max_gpu_clock) {
        (Some(min), Some(max)) => GpuRequest::LockClocks(min, max),
        _ => GpuRequest::ResetClocks,
    };
    stage_if(gpu.power_limit, |w: u32| Stage::GpuPowerLimit(index, w)) + stage_if(
        gpu.core_offset,
        |o: i32| Stage::Gpu(index, GpuRequest::CoreOffset(o)),
    ) + stage_if(
        gpu.memory_offset,
        |o: i32| Stage::Gpu(index, GpuRequest::MemoryOffset(o)),
    ) + seq![Stage::Gpu(index, clocks)]
}

/// The request that a fan setting of a card makes.
pub open spec fn fan_stage(fan: NvidiaFanSetting) -> Stage {
    Stage::Gpu(
        fan.device_index,
        if fan.manual {
            GpuRequest::FanSpeed(fan.fan_id, fan.speed)
        } else {
            GpuRequest::FanAuto(fan.fan_id)
        },
    )
}

/// The steps after those of the card.
pub open spec fn last_stages(tuning: Tuning) -> Seq<Stage> {
    stage_if(tuning.cpu.boost, |on: bool| Stage::Boost(on)) + stage_if(
        tuning.cpu.smt,
        |on: bool| Stage::Smt(on),
    ) + seq![Stage::Keyboard, Stage::Screen, Stage::Fans] + tuning.gpu.nvidia_fans.map_values(
        |fan: NvidiaFanSetting| fan_stage(fan),
    )
}

/// All steps of a profile on a laptop whose NVIDIA card has this index.
pub open spec fn profile_stages(tuning: Tuning, uniwill: bool, gpu_index: u32) -> Seq<Stage> {
    cpu_stages(tuning.cpu, uniwill) + seq![Stage::SelectGpu] + gpu_stages(tuning.gpu, gpu_index)
        + last_stages(tuning)
}

/// What came of a step.
#[derive(Debug)]
pub enum StepOutcome {
    Done,
    /// The index of the NVIDIA card.
    GpuIndex(u32),
    Failed(String),
}

impl StepOutcome {
    pub open spec fn fault(self) -> Option<Seq<char>> {
        match self {
            StepOutcome::Failed(message) => Some(message@),
            _ => None,
        }
    }
}

/// The next step of applying a profile, or the outcome.
#[derive(Debug)]
pub enum ProfileMove {
    Do(ProfileStep),
    Done(Result<(), String>),
}

/// What a `ProfileMove` says.
pub enum Next {
    Do(Stage),
    Done(Result<(), Seq<char>>),
}

impl View for ProfileMove {
    type V = Next;

    open spec fn view(&self) -> Next {
        match self {
            ProfileMove::Do(step) => Next::Do(step@),
            ProfileMove::Done(Ok(_)) => Next::Done(Ok(())),
            ProfileMove::Done(Err(message)) => Next::Done(Err(message@)),
        }
    }
}

/// The next of several steps: each in its turn, up to a required one that fails.
pub open spec fn next_stage(stages: Seq<Stage>, outcomes: Seq<StepOutcome>) -> Next
    decreases stages.len(),
{
    if stages.len() == 0 {
        Next::Done(Ok(()))
    } else if outcomes.len() == 0 {
        Next::Do(stages[0])
    } else if required(stages[0]) && outcomes[0].fault() is Some {
        Next::Done(Err(outcomes[0].fault()->0))
    } else {
        next_stage(stages.drop_first(), outcomes.drop_first())
    }
}

/// The index of the card that the outcomes give, or zero.
pub open spec fn selected_gpu(tuning: Tuning, uniwill: bool, outcomes: Seq<StepOutcome>) -> u32 {
    let at = cpu_stages(tuning.cpu, uniwill).len();
    if at < outcomes.len() {
        match outcomes[at as int] {
            StepOutcome::GpuIndex(index) => index,
            _ => 0,
        }
    } else {
        0
    }
}

/// The next step of applying a profile: nothing if it was the last one applied.
pub open spec fn profile_next(
    tuning: Tuning,
    last: Option<Tuning>,
    uniwill: bool,
    outcomes: Seq<StepOutcome>,
) -> Next {
    if outcomes.len() == 0 && last == Some(tuning) {
        Next::Done(Ok(()))
    } else {
        next_stage(
            profile_stages(tuning, uniwill, selected_gpu(tuning, uniwill, outcomes)),
            outcomes,
        )
    }
}

/// The profile that counts as applied after a move of applying one: none before
/// the last of its steps, nor if one of them fails it.
pub open spec fn applied_after(tuning: Tuning, next: Next) -> Option<Tuning> {
    if next == Next::Done(Ok(())) {
        Some(tuning)
    } else {
        None
    }
}

/// What the steps of a list say.
pub open spec fn stages(list: Seq<ProfileStep>) -> Seq<Stage> {
    list.map_values(|s: ProfileStep| s@)
}

fn add_step(list: &mut Vec<ProfileStep>, step: ProfileStep)
    ensures
        stages(final(list)@) == stages(old(list)@) + seq![step@],
{
    let ghost before = list@;
    list.push(step);
    assert(stages(list@) =~= stages(before) + seq![list@.last()@]);
}

fn cpu_steps(cpu: &CpuSettings, uniwill: bool) -> (r: Vec<ProfileStep>)
    ensures
        stages(r@) == cpu_stages(cpu@, uniwill),
{
    let mut list: Vec<ProfileStep> = Vec::new();
    let ghost c = cpu@;
    assert(stages(list@) =~= Seq::<Stage>::empty());
    let ghost p1 = stage_if(c.governor, |s: Seq<char>| Stage::Governor(s));
    if let Some(governor) = &cpu.governor {
        add_step(&mut list, ProfileStep::Governor(governor.clone()));
    }
    assert(stages(list@) =~= p1);
    let ghost p2 = stage_if(c.tdp_profile, |s: Seq<char>| Stage::TdpProfile(s));
    if let Some(name) = &cpu.tdp_profile {
        add_step(&mut list, ProfileStep::TdpProfile(name.clone()));
    }
    assert(stages(list@) =~= p1 + p2);
    let ghost q0 = stage_if(c.tdp0, |v: u32| Stage::TdpLimit(0, v));
    let ghost q1 = stage_if(c.tdp1, |v: u32| Stage::TdpLimit(1, v));
    let ghost q2 = stage_if(c.tdp2, |v: u32| Stage::TdpLimit(2, v));
    let ghost p3 = if uniwill {
        q0 + q1 + q2
    } else {
        Seq::empty()
    };
    if uniwill {
        if let Some(value) = cpu.tdp0 {
            add_step(&mut list, ProfileStep::TdpLimit(0, value));
        }
        assert(stages(list@) =~= p1 + p2 + q0);
        if let Some(value) = cpu.tdp1 {
            add_step(&mut list, ProfileStep::TdpLimit(1, value));
        }
        assert(stages(list@) =~= p1 + p2 + q0 + q1);
        if let Some(value) = cpu.tdp2 {
            add_step(&mut list, ProfileStep::TdpLimit(2, value));
        }
        assert(stages(list@) =~= p1 + p2 + q0 + q1 + q2);
    }
    assert(stages(list@) =~= p1 + p2 + p3);
    let ghost p4 = stage_if(c.amd_pstate_status, |s: Seq<char>| Stage::AmdPstate(s));
    if let Some(status) = &cpu.amd_pstate_status {
        add_step(&mut list, ProfileStep::AmdPstate(status.clone()));
    }
    assert(stages(list@) =~= p1 + p2 + p3 + p4);
    let ghost p5 = stage_if(c.intel_pstate_status, |s: Seq<char>| Stage::IntelPstate(s));
    if let Some(status) = &cpu.intel_pstate_status {
        add_step(&mut list, ProfileStep::IntelPstate(status.clone()));
    }
    assert(stages(list@) =~= p1 + p2 + p3 + p4 + p5);
    let ghost p6 = stage_if(
        c.energy_performance_preference,
        |s: Seq<char>| Stage::EnergyPreference(s),
    );
    if let Some(epp) = &cpu.energy_performance_preference {
        add_step(&mut list, ProfileStep::EnergyPreference(epp.clone()));
    }
    assert(stages(list@) =~= p1 + p2 + p3 + p4 + p5 + p6);
    if let (Some(min), Some(max)) = (cpu.min_frequency, cpu.max_frequency) {
        add_step(&mut list, ProfileStep::FrequencyLimits(min, max));
    }
    assert(stages(list@) =~= cpu_stages(c, uniwill));
    list
}

fn add_gpu_steps(list: &mut Vec<ProfileStep>, gpu: &GpuSettings, index: u32)
    ensures
        stages(final(list)@) == stages(old(list)@) + gpu_stages(gpu@, index),
{
    let ghost g = gpu@;
    let ghost p0 = stages(list@);
    let ghost p1 = stage_if(g.power_limit, |w: u32| Stage::GpuPowerLimit(index, w));
    if let Some(watts) = gpu.power_limit {
        add_step(list, ProfileStep::GpuPowerLimit(index, watts));
    }
    assert(stages(list@) =~= p0 + p1);
    let ghost p2 = stage_if(
        g.core_offset,
        |o: i32| Stage::Gpu(index, GpuRequest::CoreOffset(o)),
    );
    if let Some(offset) = gpu.core_offset {
        add_step(list, ProfileStep::Gpu(index, GpuRequest::CoreOffset(offset)));
    }
    assert(stages(list@) =~= p0 + p1 + p2);
    let ghost p3 = stage_if(
        g.memory_offset,
        |o: i32| Stage::Gpu(index, GpuRequest::MemoryOffset(o)),
    );
    if let Some(offset) = gpu.memory_offset {
        add_step(list, ProfileStep::Gpu(index, GpuRequest::MemoryOffset(offset)));
    }
    assert(stages(list@) =~= p0 + p1 + p2 + p3);
    let clocks = match (gpu.min_gpu_clock, gpu.max_gpu_clock) {
        (Some(min), Some(max)) => GpuRequest::LockClocks(min, max),
        _ => GpuRequest::ResetClocks,
    };
    add_step(list, ProfileStep::Gpu(index, clocks));
    assert(stages(list@) =~= p0 + gpu_stages(g, index));
}

fn add_last_steps(list: &mut Vec<ProfileStep>, profile: &Profile)
    ensures
        stages(final(list)@) == stages(old(list)@) + last_stages(profile@),
{
    let ghost t = profile@;
    let ghost p0 = stages(list@);
    let ghost p1 = stage_if(t.cpu.boost, |on: bool| Stage::Boost(on));
    if let Some(on) = profile.cpu_settings.boost {
        add_step(list, ProfileStep::Boost(on));
    }
    assert(stages(list@) =~= p0 + p1);
    let ghost p2 = stage_if(t.cpu.smt, |on: bool| Stage::Smt(on));
    if let Some(on) = profile.cpu_settings.smt {
        add_step(list, ProfileStep::Smt(on));
    }
    assert(stages(list@) =~= p0 + p1 + p2);
    add_step(list, ProfileStep::Keyboard);
    add_step(list, ProfileStep::Screen);
    add_step(list, ProfileStep::Fans);
    let ghost p3 = seq![Stage::Keyboard, Stage::Screen, Stage::Fans];
    assert(stages(list@) =~= p0 + p1 + p2 + p3);
    let ghost fans = t.gpu.nvidia_fans.map_values(|fan: NvidiaFanSetting| fan_stage(fan));
    let ghost base = stages(list@);
    let mut i: usize = 0;
    assert(base =~= base + fans.take(0));
    while i < profile.gpu_settings.nvidia_fans.len()
        invariant
            i <= profile.gpu_settings.nvidia_fans@.len(),
            fans == profile.gpu_settings.nvidia_fans@.map_values(
                |fan: NvidiaFanSetting| fan_stage(fan),
            ),
            stages(list@) == base + fans.take(i as int),
        decreases profile.gpu_settings.nvidia_fans@.len() - i,
    {
        let fan = profile.gpu_settings.nvidia_fans[i];
        let request = if fan.manual {
            GpuRequest::FanSpeed(fan.fan_id, fan.speed)
        } else {
            GpuRequest::FanAuto(fan.fan_id)
        };
        assert(fans[i as int] == fan_stage(fan));
        add_step(list, ProfileStep::Gpu(fan.device_index, request));
        assert(stages(list@) =~= base + fans.take(i + 1));
        i = i + 1;
    }
    assert(fans.take(fans.len() as int) =~= fans);
    assert(stages(list@) =~= p0 + last_stages(t));
}

fn is_required(step: &ProfileStep) -> (r: bool)
    ensures
        r == required(step@),
{
    match step {
        ProfileStep::TdpLimit(_, _) => false,
        ProfileStep::SelectGpu => false,
        ProfileStep::GpuPowerLimit(_, _) => false,
        ProfileStep::Gpu(_, _) => false,
        _ => true,
    }
}

fn copy_step(step: &ProfileStep) -> (r: ProfileStep)
    ensures
        r@ == step@,
{
    match step {
        ProfileStep::Governor(name) => ProfileStep::Governor(name.clone()),
        ProfileStep::TdpProfile(name) => ProfileStep::TdpProfile(name.clone()),
        ProfileStep::TdpLimit(index, value) => ProfileStep::TdpLimit(*index, *value),
        ProfileStep::AmdPstate(status) => ProfileStep::AmdPstate(status.clone()),
        ProfileStep::IntelPstate(status) => ProfileStep::IntelPstate(status.clone()),
        ProfileStep::EnergyPreference(epp) => ProfileStep::EnergyPreference(epp.clone()),
        ProfileStep::FrequencyLimits(min, max) => ProfileStep::FrequencyLimits(*min, *max),
        ProfileStep::SelectGpu => ProfileStep::SelectGpu,
        ProfileStep::GpuPowerLimit(index, watts) => ProfileStep::GpuPowerLimit(*index, *watts),
        ProfileStep::Gpu(index, request) => ProfileStep::Gpu(*index, *request),
        ProfileStep::Boost(on) => ProfileStep::Boost(*on),
        ProfileStep::Smt(on) => ProfileStep::Smt(*on),
        ProfileStep::Keyboard => ProfileStep::Keyboard,
        ProfileStep::Screen => ProfileStep::Screen,
        ProfileStep::Fans => ProfileStep::Fans,
    }
}

fn next_of(list: &Vec<ProfileStep>, outcomes: &[StepOutcome]) -> (r: ProfileMove)
    ensures
        r@ == next_stage(stages(list@), outcomes@),
{
    let ghost all = stages(list@);
    let mut i: usize = 0;
    assert(all.skip(0) =~= all);
    assert(outcomes@.skip(0) =~= outcomes@);
    while i < list.len()
        invariant
            i <= list@.len(),
            i <= outcomes@.len(),
            all == stages(list@),
            next_stage(all, outcomes@) == next_stage(
                all.skip(i as int),
                outcomes@.skip(i as int),
            ),
        decreases list@.len() - i,
    {
        assert(all.skip(i as int)[0] == list@[i as int]@);
        assert(all.skip(i as int).drop_first() =~= all.skip(i + 1));
        if i == outcomes.len() {
            return ProfileMove::Do(copy_step(&list[i]));
        }
        assert(outcomes@.skip(i as int)[0] == outcomes@[i as int]);
        assert(outcomes@.skip(i as int).drop_first() =~= outcomes@.skip(i + 1));
        if is_required(&list[i]) {
            match &outcomes[i] {
                StepOutcome::Failed(message) => {
                    return ProfileMove::Done(Err(message.clone()));
                },
                _ => {},
            }
        }
        i = i + 1;
    }
    ProfileMove::Done(Ok(()))
}

/// Applies a profile. `last` is the one that is applied, if any: from the first
/// step on it is none, until all steps are through. Applying the profile that is
/// applied does nothing.
pub fn apply_profile(
    profile: &Profile,
    last: &mut Option<Profile>,
    uniwill: bool,
    outcomes: &[StepOutcome],
) -> (r: ProfileMove)
    ensures
        r@ == profile_next(profile@, opt_tuning(*old(last)), uniwill, outcomes@),
        opt_tuning(*final(last)) == applied_after(profile@, r@),
{
    if outcomes.len() == 0 {
        let known = match last.as_ref() {
            Some(other) => other.same_as(profile),
            None => false,
        };
        if known {
            return ProfileMove::Done(Ok(()));
        }
    }
    let mut list = cpu_steps(&profile.cpu_settings, uniwill);
    let at = list.len();
    assert(stages(list@).len() == list@.len());
    let index: u32 = if at < outcomes.len() {
        match &outcomes[at] {
            StepOutcome::GpuIndex(index) => *index,
            _ => 0,
        }
    } else {
        0
    };
    add_step(&mut list, ProfileStep::SelectGpu);
    add_gpu_steps(&mut list, &profile.gpu_settings, index);
    add_last_steps(&mut list, profile);
    assert(stages(list@) =~= profile_stages(profile@, uniwill, index));
    let next = next_of(&list, outcomes);
    *last = if matches!(next, ProfileMove::Done(Ok(()))) {
        Some(profile.clone())
    } else {
        None
    };
    next
}

/// Once a profile is applied, applying it again does nothing.
pub proof fn law_profile_is_applied_once(
    tuning: Tuning,
    last: Option<Tuning>,
    uniwill: bool,
    outcomes: Seq<StepOutcome>,
)
    requires
        profile_next(tuning, last, uniwill, outcomes) == Next::Done(Ok(())),
    ensures
        ({
            let applied = applied_after(tuning, profile_next(tuning, last, uniwill, outcomes));
            profile_next(tuning, applied, uniwill, Seq::empty()) == Next::Done(Ok(()))
        }),
{
}

/// A profile that was not applied to its end, because a step failed or is still
/// due, is applied from its first step when it is applied again.
pub proof fn law_failed_profile_is_tried_again(
    tuning: Tuning,
    last: Option<Tuning>,
    uniwill: bool,
    outcomes: Seq<StepOutcome>,
)
    requires
        profile_next(tuning, last, uniwill, outcomes) != Next::Done(Ok(())),
    ensures
        ({
            let applied = applied_after(tuning, profile_next(tuning, last, uniwill, outcomes));
            let all = profile_stages(tuning, uniwill, 0);
            &&& all.len() > 0
            &&& profile_next(tuning, applied, uniwill, Seq::empty()) == Next::Do(all[0])
        }),
{
}

pub proof fn lemma_tolerated(stages: Seq<Stage>, outcomes: Seq<StepOutcome>)
    requires
        forall|i: int|
            0 <= i < stages.len() && i < outcomes.len() && required(stages[i]) ==> (
            #[trigger] outcomes[i]).fault() is None,
    ensures
        next_stage(stages, outcomes) == (if outcomes.len() < stages.len() {
            Next::Do(stages[outcomes.len() as int])
        } else {
            Next::Done(Ok(()))
        }),
    decreases stages.len(),
{
    if stages.len() > 0 && outcomes.len() > 0 {
        let rest = stages.drop_first();
        let left = outcomes.drop_first();
        assert forall|i: int|
            0 <= i < rest.len() && i < left.len() && required(rest[i]) implies (
        #[trigger] left[i]).fault() is None by {
            assert(rest[i] == stages[i + 1] && left[i] == outcomes[i + 1]);
        }
        lemma_tolerated(rest, left);
    }
}

/// As long as only steps fail that a profile can do without, such as those of
/// the graphics card, all steps are taken in turn and the profile succeeds.
pub proof fn law_card_cannot_fail_a_profile(
    tuning: Tuning,
    uniwill: bool,
    outcomes: Seq<StepOutcome>,
)
    requires
        outcomes.len() > 0,
        ({
            let all = profile_stages(tuning, uniwill, selected_gpu(tuning, uniwill, outcomes));
            forall|i: int|
                0 <= i < all.len() && i < outcomes.len() && required(all[i]) ==> (
                #[trigger] outcomes[i]).fault() is None
        }),
    ensures
        ({
            let all = profile_stages(tuning, uniwill, selected_gpu(tuning, uniwill, outcomes));
            profile_next(tuning, None, uniwill, outcomes) == (if outcomes.len() < all.len() {
                Next::Do(all[outcomes.len() as int])
            } else {
                Next::Done(Ok(()))
            })
        }),
{
    lemma_tolerated(
        profile_stages(tuning, uniwill, selected_gpu(tuning, uniwill, outcomes)),
        outcomes,
    );
}

/// After a required step has failed no other step is taken, whatever else is
/// reported.
pub proof fn law_failure_ends_a_profile(
    stages: Seq<Stage>,
    before: Seq<StepOutcome>,
    failure: StepOutcome,
    after: Seq<StepOutcome>,
)
    requires
        before.len() < stages.len(),
        required(stages[before.len() as int]),
        failure.fault() is Some,
        forall|i: int| 0 <= i < before.len() ==> (#[trigger] before[i]).fault() is None,
    ensures
        next_stage(stages, before.push(failure) + after) == Next::Done(Err(failure.fault()->0)),
    decreases before.len(),
{
    let all = before.push(failure) + after;
    if before.len() == 0 {
        assert(all[0] == failure);
    } else {
        let rest = before.drop_first();
        assert forall|i: int| 0 <= i < rest.len() implies (#[trigger] rest[i]).fault() is None by {
            assert(rest[i] == before[i + 1]);
        }
        assert(all[0] == before[0]);
        assert(all.drop_first() =~= rest.push(failure) + after);
        law_failure_ends_a_profile(stages.drop_first(), rest, failure, after);
    }
}

} // verus!
