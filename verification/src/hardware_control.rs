//! Control of fans, performance profiles, webcam, battery and graphics switch.

use crate::access::{Act, Action, GpuRequest, Ioctl, Move, Reply, Step};
use crate::battery_control::{
    battery_found, find_battery, gated_threshold, gated_write, ruled_out, rules_out,
    BatteryControl, GatedMove, GatedStep,
};
use crate::fan_curve::{FanPlan, FanSettings};
use crate::hw_gate::{after_failure, HwGate, BATTERY_CHARGE_CONTROL};
use crate::text::{
    decimal, decimal_of, first_index, join, join3, lemma_first_index, position, quote_list,
    quoted_list, same, views,
};
use crate::tuxedo_io::{
    clevo_profiles, fan_auto_move, fan_temperature_move, min_of, profiles_move, set_fan_move,
    set_profile_move, uniwill_profiles, webcam_read_move, webcam_write_move, write_code,
    HardwareInterface, TuxedoIo, MAGIC_WRITE_CL, MAGIC_WRITE_UW, TUXEDO_IO_DEVICE,
};
use vstd::prelude::*;
use vstd::slice::slice_subrange;

verus! {

/// An operation on the control device: the device has to exist, or the
/// operation ends as `absent` says, and to have been opened.
pub open spec fn behind_device<T>(
    absent: Result<T, Seq<char>>,
    io: Option<TuxedoIo>,
    replies: Seq<Reply>,
    rest: spec_fn(TuxedoIo, Seq<Reply>) -> Move<T>,
) -> Move<T> {
    if replies.len() == 0 {
        Move::Do(Act::Probe(TUXEDO_IO_DEVICE@))
    } else if !replies[0].says_present() {
        Move::Done(absent)
    } else {
        match io {
            None => Move::Done(Err("tuxedo_io not available"@)),
            Some(io) => rest(io, replies.skip(1)),
        }
    }
}

enum Door {
    Ask,
    Shut,
    Lost,
    Open(TuxedoIo),
}

fn door(io: Option<TuxedoIo>, replies: &[Reply]) -> (r: Door)
    ensures
        match r {
            Door::Ask => replies@.len() == 0,
            Door::Shut => replies@.len() > 0 && !replies@[0].says_present(),
            Door::Lost => replies@.len() > 0 && replies@[0].says_present() && io is None,
            Door::Open(device) => replies@.len() > 0 && replies@[0].says_present() && io == Some(
                device,
            ),
        },
{
    if replies.len() == 0 {
        return Door::Ask;
    }
    if !replies[0].present() {
        return Door::Shut;
    }
    match io {
        None => Door::Lost,
        Some(device) => Door::Open(device),
    }
}

fn ask<T>() -> (r: Step<T>)
    ensures
        r == Step::<T>::Do(r->Do_0),
        r->Do_0@ == Act::Probe(TUXEDO_IO_DEVICE@),
{
    Step::Do(Action::Probe(TUXEDO_IO_DEVICE.to_string()))
}

fn rest_of(replies: &[Reply], from: usize) -> (r: &[Reply])
    requires
        from <= replies@.len(),
    ensures
        r@ == replies@.skip(from as int),
{
    slice_subrange(replies, from, replies.len())
}

/// The number of the profile at a place in the list that the device offers: Clevo
/// firmware counts from zero, Uniwill firmware from one.
pub open spec fn profile_number(interface: HardwareInterface, at: int) -> u32 {
    if interface == HardwareInterface::Uniwill {
        (at + 1) as u32
    } else {
        at as u32
    }
}

/// Choosing a performance profile by its name among those that the device
/// offers.
pub open spec fn choose_profile_move(
    io: TuxedoIo,
    name: Seq<char>,
    replies: Seq<Reply>,
) -> Move<()> {
    match profiles_move(io, replies) {
        Move::Do(action) => Move::Do(action),
        Move::Done(Err(message)) => Move::Done(Err(message)),
        Move::Done(Ok(list)) => match first_index(list, name) {
            Some(at) => set_profile_move(
                io,
                profile_number(io.interface, at),
                replies.skip(
                    if io.interface == HardwareInterface::Uniwill {
                        1
                    } else {
                        0
                    },
                ),
            ),
            None => Move::Done(
                Err("Profile '"@ + name + ("' not found. Available: "@ + quoted_list(list))),
            ),
        },
    }
}

/// Chooses a performance profile by its name.
pub fn set_tdp_profile(profile_name: &str, io: Option<TuxedoIo>, replies: &[Reply]) -> (r: Step<()>)
    ensures
        r@ == behind_device(
            Err("TDP profiles not available"@),
            io,
            replies@,
            |io: TuxedoIo, rest: Seq<Reply>| choose_profile_move(io, profile_name@, rest),
        ),
{
    match door(io, replies) {
        Door::Ask => ask(),
        Door::Shut => Step::Done(Err("TDP profiles not available".to_string())),
        Door::Lost => Step::Done(Err("tuxedo_io not available".to_string())),
        Door::Open(device) => {
            let rest = rest_of(replies, 1);
            match device.get_available_profiles(rest) {
                Step::Do(action) => Step::Do(action),
                Step::Done(Err(message)) => Step::Done(Err(message)),
                Step::Done(Ok(profiles)) => {
                    assert(profiles.deep_view() =~= views(profiles@));
                    match position(&profiles, profile_name) {
                        Some(at) => if device.get_interface() == HardwareInterface::Uniwill {
                            assert(at < profiles@.len() <= 3);
                            device.set_performance_profile(at as u32 + 1, rest_of(rest, 1))
                        } else {
                            device.set_performance_profile(at as u32, rest_of(rest, 0))
                        },
                        None => {
                            let list = join(
                                "' not found. Available: ",
                                quote_list(&profiles).as_str(),
                            );
                            Step::Done(Err(join3("Profile '", profile_name, list.as_str())))
                        },
                    }
                },
            }
        },
    }
}

/// Sets the speed of a fan, at most one hundred percent.
pub fn set_fan_speed(
    fan_id: u32,
    speed_percent: u32,
    manual: bool,
    io: Option<TuxedoIo>,
    replies: &[Reply],
) -> (r: Step<()>)
    ensures
        r@ == behind_device(
            Err("Fan control not available"@),
            io,
            replies@,
            |io: TuxedoIo, rest: Seq<Reply>|
                set_fan_move(
                    io,
                    manual,
                    fan_id,
                    min_of(speed_percent as nat, 100) as u32,
                    rest,
                ),
        ),
{
    match door(io, replies) {
        Door::Ask => ask(),
        Door::Shut => Step::Done(Err("Fan control not available".to_string())),
        Door::Lost => Step::Done(Err("tuxedo_io not available".to_string())),
        Door::Open(device) => {
            let speed: u32 = if speed_percent < 100 {
                speed_percent
            } else {
                100
            };
            device.set_fan_speed(manual, fan_id, speed, rest_of(replies, 1))
        },
    }
}

/// Handing all fans back to the firmware.
pub open spec fn all_fans_auto_move(io: Option<TuxedoIo>, replies: Seq<Reply>) -> Move<()> {
    behind_device(
        Err("Fan control not available"@),
        io,
        replies,
        |io: TuxedoIo, rest: Seq<Reply>| fan_auto_move(io, rest),
    )
}

/// Hands the fans back to the firmware: all of them, whichever is named.
pub fn set_fan_auto(_fan_id: u32, io: Option<TuxedoIo>, replies: &[Reply]) -> (r: Step<()>)
    ensures
        r@ == all_fans_auto_move(io, replies@),
{
    match door(io, replies) {
        Door::Ask => ask(),
        Door::Shut => Step::Done(Err("Fan control not available".to_string())),
        Door::Lost => Step::Done(Err("tuxedo_io not available".to_string())),
        Door::Open(device) => device.set_fan_auto(rest_of(replies, 1)),
    }
}

/// What optional fan settings say.
pub open spec fn opt_fan_plan(settings: Option<FanSettings>) -> Option<FanPlan> {
    match settings {
        Some(s) => Some(s@),
        None => None,
    }
}

/// Applying fan settings: without the control device there is nothing to do;
/// settings that leave the fans alone hand them back to the firmware.
pub open spec fn fan_settings_move(
    settings: FanPlan,
    io: Option<TuxedoIo>,
    replies: Seq<Reply>,
) -> Move<()> {
    if replies.len() == 0 {
        Move::Do(Act::Probe(TUXEDO_IO_DEVICE@))
    } else if !replies[0].says_present() || settings.control_enabled {
        Move::Done(Ok(()))
    } else {
        all_fans_auto_move(io, replies.skip(1))
    }
}

/// The settings that the fan control works by after that.
pub open spec fn fan_state_after(
    state: Option<FanPlan>,
    settings: FanPlan,
    replies: Seq<Reply>,
) -> Option<FanPlan> {
    if replies.len() == 0 || !replies[0].says_present() {
        state
    } else if settings.control_enabled {
        Some(settings)
    } else {
        None
    }
}

/// Applies the fan settings of a profile. `state` holds the settings that the
/// fan control works by.
pub fn apply_fan_settings(
    settings: &FanSettings,
    state: &mut Option<FanSettings>,
    io: Option<TuxedoIo>,
    replies: &[Reply],
) -> (r: Step<()>)
    ensures
        r@ == fan_settings_move(settings@, io, replies@),
        opt_fan_plan(*final(state)) == fan_state_after(
            opt_fan_plan(*old(state)),
            settings@,
            replies@,
        ),
{
    if replies.len() == 0 {
        return ask();
    }
    if !replies[0].present() {
        return Step::Done(Ok(()));
    }
    if settings.control_enabled {
        *state = Some(settings.clone());
        return Step::Done(Ok(()));
    }
    *state = None;
    set_fan_auto(0, io, rest_of(replies, 1))
}

/// Switches the webcam.
pub fn set_webcam_state(enabled: bool, io: Option<TuxedoIo>, replies: &[Reply]) -> (r: Step<()>)
    ensures
        r@ == behind_device(
            Err("Webcam control not available"@),
            io,
            replies@,
            |io: TuxedoIo, rest: Seq<Reply>| webcam_write_move(io, enabled, rest),
        ),
{
    match door(io, replies) {
        Door::Ask => ask(),
        Door::Shut => Step::Done(Err("Webcam control not available".to_string())),
        Door::Lost => Step::Done(Err("tuxedo_io not available".to_string())),
        Door::Open(device) => device.set_webcam_state(enabled, rest_of(replies, 1)),
    }
}

/// Reading the webcam switch, which counts as on where it cannot be read.
pub open spec fn webcam_state_move(io: TuxedoIo, replies: Seq<Reply>) -> Move<bool> {
    if io.interface != HardwareInterface::Clevo {
        Move::Done(Ok(true))
    } else {
        match webcam_read_move(io, replies) {
            Move::Do(action) => Move::Do(action),
            Move::Done(Ok(on)) => Move::Done(Ok(on)),
            Move::Done(Err(_)) => Move::Done(Ok(true)),
        }
    }
}

/// Whether the webcam is on.
pub fn get_webcam_state(io: Option<TuxedoIo>, replies: &[Reply]) -> (r: Step<bool>)
    ensures
        r@ == behind_device(
            Ok(true),
            io,
            replies@,
            |io: TuxedoIo, rest: Seq<Reply>| webcam_state_move(io, rest),
        ),
{
    match door(io, replies) {
        Door::Ask => ask(),
        Door::Shut => Step::Done(Ok(true)),
        Door::Lost => Step::Done(Err("tuxedo_io not available".to_string())),
        Door::Open(device) => {
            if device.get_interface() != HardwareInterface::Clevo {
                return Step::Done(Ok(true));
            }
            match device.get_webcam_state(rest_of(replies, 1)) {
                Step::Do(action) => Step::Do(action),
                Step::Done(Ok(on)) => Step::Done(Ok(on)),
                Step::Done(Err(_)) => Step::Done(Ok(true)),
            }
        },
    }
}

/// The battery settings.
#[derive(Clone, Copy, PartialEq, Eq, Structural, Debug)]
pub struct BatterySettings {
    pub control_enabled: bool,
    pub charge_start_threshold: u8,
    pub charge_end_threshold: u8,
}

/// How many replies a finished search for a battery has used.
pub open spec fn search_used(replies: Seq<Reply>) -> int {
    match ruled_out(replies) {
        None => 2,
        Some(n) => match ruled_out(replies.skip(n)) {
            None => n + 2,
            Some(m) => n + m,
        },
    }
}

/// Setting both thresholds of a battery whose charge type has been set.
pub open spec fn thresholds_move(
    settings: BatterySettings,
    dir: Seq<char>,
    disabled: Set<Seq<char>>,
    replies: Seq<Reply>,
) -> GatedMove<()> {
    match gated_threshold(
        dir + "/charge_control_start_threshold"@,
        settings.charge_start_threshold,
        disabled,
        replies,
    ) {
        GatedMove::Done(Ok(_), _) => gated_threshold(
            dir + "/charge_control_end_threshold"@,
            settings.charge_end_threshold,
            disabled,
            replies.skip(1),
        ),
        other => other,
    }
}

/// The settings of a battery that has been found: the charge type, and both
/// thresholds where charging is to be controlled.
pub open spec fn charge_settings_move(
    settings: BatterySettings,
    dir: Seq<char>,
    disabled: Set<Seq<char>>,
    replies: Seq<Reply>,
) -> GatedMove<()> {
    let charge_type = if settings.control_enabled {
        "Custom"@
    } else {
        "Standard"@
    };
    match gated_write(dir + "/charge_type"@, charge_type, disabled, replies) {
        GatedMove::Done(Ok(_), warning) => if settings.control_enabled {
            thresholds_move(settings, dir, disabled, replies.skip(1))
        } else {
            GatedMove::Done(Ok(()), warning)
        },
        other => other,
    }
}

/// Applying battery settings: without a battery with charge control there is
/// nothing to do.
pub open spec fn battery_settings_move(
    settings: BatterySettings,
    disabled: Set<Seq<char>>,
    replies: Seq<Reply>,
) -> GatedMove<()> {
    match battery_found(replies) {
        Move::Do(action) => GatedMove::Do(action),
        Move::Done(found) => if found == Ok::<bool, Seq<char>>(true) {
            let rest = replies.skip(search_used(replies));
            match find_battery(rest) {
                Move::Do(action) => GatedMove::Do(action),
                Move::Done(Err(message)) => GatedMove::Done(Err(message), None),
                Move::Done(Ok(dir)) => charge_settings_move(
                    settings,
                    dir,
                    disabled,
                    rest.skip(search_used(rest)),
                ),
            }
        } else {
            GatedMove::Done(Ok(()), None)
        },
    }
}

/// The capabilities that are disabled after that: those that were, and charge
/// control if the last access was a write that failed.
pub open spec fn gate_after_settings(
    settings: BatterySettings,
    disabled: Set<Seq<char>>,
    replies: Seq<Reply>,
) -> Set<Seq<char>> {
    match battery_settings_move(settings, disabled, replies) {
        GatedMove::Done(Err(_), Some(_)) => after_failure(disabled, BATTERY_CHARGE_CONTROL@),
        _ => disabled,
    }
}

fn used_by_search(replies: &[Reply]) -> (r: usize)
    requires
        find_battery(replies@) is Done,
    ensures
        r == search_used(replies@),
        r <= replies@.len(),
{
    assert(replies@.skip(0) =~= replies@);
    match rules_out(replies, 0) {
        None => 2,
        Some(next) => match rules_out(replies, next) {
            None => next + 2,
            Some(end) => end,
        },
    }
}

/// Applies the battery settings.
pub fn apply_battery_settings(
    settings: &BatterySettings,
    gate: &mut HwGate,
    replies: &[Reply],
) -> (r: GatedStep<()>)
    ensures
        r@ == battery_settings_move(*settings, old(gate)@, replies@),
        final(gate)@ == gate_after_settings(*settings, old(gate)@, replies@),
{
    match BatteryControl::is_available(replies) {
        Step::Do(action) => {
            return GatedStep::Do(action);
        },
        Step::Done(Ok(true)) => {},
        Step::Done(_) => {
            return GatedStep::Done(Ok(()), None);
        },
    }
    let rest = rest_of(replies, used_by_search(replies));
    match BatteryControl::new(rest) {
        Step::Do(action) => GatedStep::Do(action),
        Step::Done(Err(message)) => GatedStep::Done(Err(message), None),
        Step::Done(Ok(battery)) => {
            let replies = rest_of(rest, used_by_search(rest));
            if !settings.control_enabled {
                return battery.set_charge_type("Standard", gate, replies);
            }
            match battery.set_charge_type("Custom", gate, replies) {
                GatedStep::Done(Ok(()), _) => {},
                other => {
                    return other;
                },
            }
            let replies = rest_of(replies, 1);
            match battery.set_charge_control_start_threshold(
                settings.charge_start_threshold,
                gate,
                replies,
            ) {
                GatedStep::Done(Ok(()), _) => {},
                other => {
                    return other;
                },
            }
            battery.set_charge_control_end_threshold(
                settings.charge_end_threshold,
                gate,
                rest_of(replies, 1),
            )
        },
    }
}

/// Sending a request to a graphics card.
pub open spec fn gpu_move(index: u32, request: GpuRequest, replies: Seq<Reply>) -> Move<()> {
    if replies.len() == 0 {
        Move::Do(Act::Gpu(index, request))
    } else {
        match replies[0].fault() {
            None => Move::Done(Ok(())),
            Some(message) => Move::Done(Err(message)),
        }
    }
}

fn send_to_gpu(index: u32, request: GpuRequest, replies: &[Reply]) -> (r: Step<()>)
    ensures
        r@ == gpu_move(index, request, replies@),
{
    if replies.len() == 0 {
        return Step::Do(Action::Gpu(index, request));
    }
    match replies[0].failure() {
        None => Step::Done(Ok(())),
        Some(message) => Step::Done(Err(message)),
    }
}

/// Keeps the core clock of a graphics card between two frequencies.
pub fn set_gpu_locked_clocks(
    device_index: u32,
    min_clock: u32,
    max_clock: u32,
    replies: &[Reply],
) -> (r: Step<()>)
    ensures
        r@ == gpu_move(device_index, GpuRequest::LockClocks(min_clock, max_clock), replies@),
{
    send_to_gpu(device_index, GpuRequest::LockClocks(min_clock, max_clock), replies)
}

/// Lets the core clock of a graphics card go.
pub fn reset_gpu_clocks(device_index: u32, replies: &[Reply]) -> (r: Step<()>)
    ensures
        r@ == gpu_move(device_index, GpuRequest::ResetClocks, replies@),
{
    send_to_gpu(device_index, GpuRequest::ResetClocks, replies)
}

/// Limits the power of a graphics card. The limit is given in watts; in
/// milliwatts it has to fit in 32 bits.
pub fn set_gpu_power_limit(device_index: u32, limit_watts: u32, replies: &[Reply]) -> (r: Step<()>)
    requires
        limit_watts * 1000 <= u32::MAX,
    ensures
        r@ == gpu_move(
            device_index,
            GpuRequest::PowerLimit((limit_watts * 1000) as u32),
            replies@,
        ),
{
    send_to_gpu(device_index, GpuRequest::PowerLimit(limit_watts * 1000), replies)
}

/// Runs a fan of a graphics card at a percentage of its speed.
pub fn set_gpu_fan_speed(
    device_index: u32,
    fan_index: u32,
    speed_percent: u32,
    replies: &[Reply],
) -> (r: Step<()>)
    ensures
        r@ == gpu_move(device_index, GpuRequest::FanSpeed(fan_index, speed_percent), replies@),
{
    send_to_gpu(device_index, GpuRequest::FanSpeed(fan_index, speed_percent), replies)
}

/// Hands a fan of a graphics card back to the card.
pub fn set_gpu_fan_auto(device_index: u32, fan_index: u32, replies: &[Reply]) -> (r: Step<()>)
    ensures
        r@ == gpu_move(device_index, GpuRequest::FanAuto(fan_index), replies@),
{
    send_to_gpu(device_index, GpuRequest::FanAuto(fan_index), replies)
}

/// The directories in which programs are looked for, in order.
pub open spec fn program_dirs() -> Seq<Seq<char>> {
    seq![
        "/usr/bin"@,
        "/usr/sbin"@,
        "/usr/local/bin"@,
        "/usr/local/sbin"@,
        "/sbin"@,
        "/bin"@,
    ]
}

/// Looking for a program from the `k`-th directory on.
pub open spec fn program_move(cmd: Seq<char>, k: nat, replies: Seq<Reply>) -> Move<
    Option<Seq<char>>,
>
    decreases 6 - k,
{
    if k >= 6 {
        Move::Done(Ok(None))
    } else if replies.len() <= k {
        Move::Do(Act::Probe(program_dirs()[k as int] + "/"@ + cmd))
    } else if replies[k as int].says_present() {
        Move::Done(Ok(Some(program_dirs()[k as int] + "/"@ + cmd)))
    } else {
        program_move(cmd, k + 1, replies)
    }
}

/// How many replies the search has used when it is over.
pub open spec fn program_used(k: nat, replies: Seq<Reply>) -> nat
    decreases 6 - k,
{
    if k >= 6 {
        6
    } else if replies[k as int].says_present() {
        k + 1
    } else {
        program_used(k + 1, replies)
    }
}

/// Looks for a program, and counts the replies used.
fn find_binary(cmd: &str, replies: &[Reply]) -> (r: (Step<Option<String>>, usize))
    ensures
        r.0@ == program_move(cmd@, 0, replies@),
        r.0@ is Done ==> r.1 == program_used(0, replies@) && r.1 <= replies@.len(),
{
    let dirs: [&'static str; 6] = [
        "/usr/bin",
        "/usr/sbin",
        "/usr/local/bin",
        "/usr/local/sbin",
        "/sbin",
        "/bin",
    ];
    assert(forall|j: int| 0 <= j < 6 ==> (#[trigger] dirs@[j])@ == program_dirs()[j]);
    let mut k: usize = 0;
    while k < 6
        invariant
            k <= 6,
            k <= replies.len(),
            dirs@.len() == 6,
            forall|j: int| 0 <= j < 6 ==> (#[trigger] dirs@[j])@ == program_dirs()[j],
            program_move(cmd@, 0, replies@) == program_move(cmd@, k as nat, replies@),
            program_used(0, replies@) == program_used(k as nat, replies@),
        decreases 6 - k,
    {
        let path = join3(dirs[k], "/", cmd);
        assert(path@ =~= program_dirs()[k as int] + "/"@ + cmd@);
        if replies.len() == k {
            return (Step::Do(Action::Probe(path)), 0);
        }
        if replies[k].present() {
            let found: Option<String> = Some(path);
            return (Step::Done(Ok(found)), k + 1);
        }
        k = k + 1;
    }
    let missing: Option<String> = None;
    (Step::Done(Ok(missing)), 6)
}

/// The outcome of running a program.
pub open spec fn exit_outcome(prefix: Seq<char>, reply: Reply) -> Result<(), Seq<char>> {
    match reply {
        Reply::Exit(true, _) => Ok(()),
        Reply::Exit(false, output) => Err(prefix + output@),
        Reply::Failed(message) => Err(message@),
        _ => Err("no exit status in reply"@),
    }
}

/// Running a program.
pub open spec fn run_move(
    program: Seq<char>,
    args: Seq<Seq<char>>,
    prefix: Seq<char>,
    replies: Seq<Reply>,
) -> Move<()> {
    if replies.len() == 0 {
        Move::Do(Act::Run(program, args))
    } else {
        Move::Done(exit_outcome(prefix, replies[0]))
    }
}

fn run(program: String, args: Vec<String>, prefix: &str, replies: &[Reply]) -> (r: Step<()>)
    ensures
        r@ == run_move(program@, views(args@), prefix@, replies@),
{
    if replies.len() == 0 {
        return Step::Do(Action::Run(program, args));
    }
    match &replies[0] {
        Reply::Exit(true, _) => Step::Done(Ok(())),
        Reply::Exit(false, output) => Step::Done(Err(join(prefix, output.as_str()))),
        Reply::Failed(message) => Step::Done(Err(message.clone())),
        _ => Step::Done(Err("no exit status in reply".to_string())),
    }
}

/// The graphics profiles that can be chosen.
pub open spec fn prime_profile(profile: Seq<char>) -> bool {
    profile == "on-demand"@ || profile == "nvidia"@ || profile == "intel"@
}

/// What `optimus-manager` calls a graphics profile.
pub open spec fn optimus_mode(profile: Seq<char>) -> Seq<char> {
    if profile == "on-demand"@ {
        "hybrid"@
    } else if profile == "intel"@ {
        "integrated"@
    } else {
        "nvidia"@
    }
}

/// Choosing a graphics profile: with `optimus-manager` where it is installed,
/// otherwise with `prime-select`.
pub open spec fn prime_move(profile: Seq<char>, replies: Seq<Reply>) -> Move<()> {
    if !prime_profile(profile) {
        Move::Done(Err("Invalid prime profile: "@ + profile))
    } else {
        match program_move("optimus-manager"@, 0, replies) {
            Move::Do(action) => Move::Do(action),
            Move::Done(Err(message)) => Move::Done(Err(message)),
            Move::Done(Ok(found)) => {
                let rest = replies.skip(program_used(0, replies) as int);
                match found {
                    Some(path) => run_move(
                        path,
                        seq!["--switch"@, optimus_mode(profile), "--no-confirm"@],
                        "optimus-manager command failed: "@,
                        rest,
                    ),
                    None => run_move(
                        "prime-select"@,
                        seq![profile],
                        "prime-select command failed: "@,
                        rest,
                    ),
                }
            },
        }
    }
}

/// Chooses a graphics profile: "on-demand", "nvidia" or "intel".
pub fn set_prime_profile(profile: &str, replies: &[Reply]) -> (r: Step<()>)
    ensures
        r@ == prime_move(profile@, replies@),
{
    if !same(profile, "on-demand") && !same(profile, "nvidia") && !same(profile, "intel") {
        return Step::Done(Err(join("Invalid prime profile: ", profile)));
    }
    let (search, used) = find_binary("optimus-manager", replies);
    match search {
        Step::Do(action) => Step::Do(action),
        Step::Done(Err(message)) => Step::Done(Err(message)),
        Step::Done(Ok(Some(path))) => {
            let mode = if same(profile, "on-demand") {
                "hybrid"
            } else if same(profile, "intel") {
                "integrated"
            } else {
                "nvidia"
            };
            let args: Vec<String> = vec![
                "--switch".to_string(),
                mode.to_string(),
                "--no-confirm".to_string(),
            ];
            assert(views(args@) =~= seq!["--switch"@, optimus_mode(profile@), "--no-confirm"@]);
            run(path, args, "optimus-manager command failed: ", rest_of(replies, used))
        },
        Step::Done(Ok(None)) => {
            let args: Vec<String> = vec![profile.to_string()];
            assert(views(args@) =~= seq![profile@]);
            run(
                "prime-select".to_string(),
                args,
                "prime-select command failed: ",
                rest_of(replies, used),
            )
        },
    }
}

/// The name of a hardware interface.
pub open spec fn interface_name(interface: HardwareInterface) -> Seq<char> {
    match interface {
        HardwareInterface::Clevo => "Clevo"@,
        HardwareInterface::Uniwill => "Uniwill"@,
        HardwareInterface::Absent => "None"@,
    }
}

/// Describing the hardware interface.
pub fn get_hardware_interface_info(io: Option<TuxedoIo>, replies: &[Reply]) -> (r: Step<String>)
    ensures
        r@ == behind_device(
            Ok("None"@),
            io,
            replies@,
            |io: TuxedoIo, rest: Seq<Reply>|
                Move::Done(
                    Ok(
                        "Interface: "@ + interface_name(io.interface) + (", Fans: "@ + decimal(
                            io.fan_count as nat,
                        )),
                    ),
                ),
        ),
{
    match door(io, replies) {
        Door::Ask => ask(),
        Door::Shut => Step::Done(Ok("None".to_string())),
        Door::Lost => Step::Done(Err("tuxedo_io not available".to_string())),
        Door::Open(device) => {
            let name = match device.get_interface() {
                HardwareInterface::Clevo => "Clevo",
                HardwareInterface::Uniwill => "Uniwill",
                HardwareInterface::Absent => "None",
            };
            let fans = join(", Fans: ", decimal_of(device.get_fan_count() as u64).as_str());
            Step::Done(Ok(join3("Interface: ", name, fans.as_str())))
        },
    }
}

/// The temperature at a fan.
pub fn get_fan_temperature(fan_id: u32, io: Option<TuxedoIo>, replies: &[Reply]) -> (r: Step<u32>)
    ensures
        r@ == behind_device(
            Err("tuxedo_io not available"@),
            io,
            replies@,
            |io: TuxedoIo, rest: Seq<Reply>| fan_temperature_move(io, fan_id, rest),
        ),
{
    match door(io, replies) {
        Door::Ask => ask(),
        Door::Shut => Step::Done(Err("tuxedo_io not available".to_string())),
        Door::Lost => Step::Done(Err("tuxedo_io not available".to_string())),
        Door::Open(device) => device.get_fan_temperature(fan_id, rest_of(replies, 1)),
    }
}

/// A profile that does not control the fans hands them back to the firmware,
/// whatever the profile before it did: the curves are forgotten, and behind the
/// two questions for the device stands the request that switches the automatic
/// control on.
pub proof fn law_fans_go_back_to_automatic(
    settings: FanPlan,
    before: Option<FanPlan>,
    io: TuxedoIo,
    present: Reply,
    rest: Seq<Reply>,
)
    requires
        !settings.control_enabled,
        present.says_present(),
    ensures
        fan_state_after(before, settings, seq![present, present] + rest) is None,
        fan_settings_move(settings, Some(io), seq![present, present] + rest) == fan_auto_move(
            io,
            rest,
        ),
{
    let replies = seq![present, present] + rest;
    assert(replies.skip(1).skip(1) =~= rest);
    assert(replies.skip(1)[0] == present);
}

/// No name stands twice in the list of profiles that a device offers.
proof fn lemma_profiles_differ(list: Seq<Seq<char>>, at: int)
    requires
        0 <= at < list.len(),
        list == clevo_profiles() || exists|count: i32| list == uniwill_profiles(count),
    ensures
        first_index(list, list[at]) == Some(at),
{
    reveal_strlit("quiet");
    reveal_strlit("power_saving");
    reveal_strlit("performance");
    reveal_strlit("entertainment");
    reveal_strlit("power_save");
    reveal_strlit("enthusiast");
    reveal_strlit("overboost");
    assert("power_save"@[0] == 'p' && "enthusiast"@[0] == 'e');
    assert forall|j: int| 0 <= j < at implies #[trigger] list[j] != list[at] by {
        assert(list[j].len() != list[at].len() || list[j][0] != list[at][0]);
    }
    lemma_first_index(list, list[at], at);
}

/// Every profile that Uniwill firmware offers can be chosen by its name, and each
/// has its own number: one for `power_save`, two for `enthusiast`, three for
/// `overboost`.
pub proof fn law_uniwill_profile_is_chosen(io: TuxedoIo, count: i32, at: int, done: Reply)
    requires
        io.interface == HardwareInterface::Uniwill,
        0 <= at < uniwill_profiles(count).len(),
        done.fault() is None,
    ensures
        choose_profile_move(io, uniwill_profiles(count)[at], seq![Reply::Value(count)])
            == Move::<()>::Do(
            Act::Control(Ioctl::Write(write_code(MAGIC_WRITE_UW, 0x18), (at + 1) as i32)),
        ),
        choose_profile_move(io, uniwill_profiles(count)[at], seq![Reply::Value(count), done])
            == Move::<()>::Done(Ok(())),
{
    lemma_profiles_differ(uniwill_profiles(count), at);
    let asked = seq![Reply::Value(count)];
    let through = seq![Reply::Value(count), done];
    assert(asked.skip(1) =~= Seq::<Reply>::empty());
    assert(through.skip(1) =~= seq![done]);
}

/// Every profile that Clevo firmware offers can be chosen by its name; its number
/// is its place in the list.
pub proof fn law_clevo_profile_is_chosen(io: TuxedoIo, at: int, done: Reply)
    requires
        io.interface == HardwareInterface::Clevo,
        0 <= at < clevo_profiles().len(),
        done.fault() is None,
    ensures
        choose_profile_move(io, clevo_profiles()[at], Seq::empty()) == Move::<()>::Do(
            Act::Control(Ioctl::Write(write_code(MAGIC_WRITE_CL, 0x15), at as i32)),
        ),
        choose_profile_move(io, clevo_profiles()[at], seq![done]) == Move::<()>::Done(Ok(())),
{
    lemma_profiles_differ(clevo_profiles(), at);
    assert(Seq::<Reply>::empty().skip(0) =~= Seq::<Reply>::empty());
    assert(seq![done].skip(0) =~= seq![done]);
}

/// A profile that is not offered is refused, and nothing is written.
pub proof fn law_unknown_profile_is_refused(io: TuxedoIo, name: Seq<char>, replies: Seq<Reply>)
    requires
        profiles_move(io, replies) matches Move::Done(Ok(list)) && !list.contains(name),
    ensures
        choose_profile_move(io, name, replies) matches Move::Done(Err(_)),
{
}

/// A laptop without the control device or without charge control takes every
/// profile's fan and battery settings: there is nothing to do, and no error.
pub proof fn law_missing_hardware_is_no_error(
    fans: FanPlan,
    battery: BatterySettings,
    disabled: Set<Seq<char>>,
    io: Option<TuxedoIo>,
    absent: Reply,
)
    requires
        !absent.says_present(),
    ensures
        fan_settings_move(fans, io, seq![absent]) == Move::<()>::Done(Ok(())),
        battery_settings_move(battery, disabled, seq![absent, absent]) == GatedMove::<()>::Done(
            Ok(()),
            None,
        ),
{
    let replies = seq![absent, absent];
    assert(replies.skip(1) =~= seq![absent]);
    assert(ruled_out(replies) == Some(1int));
    assert(ruled_out(seq![absent]) == Some(1int));
}

} // verus!
