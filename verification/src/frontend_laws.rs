//! What holds of the frontend, its configuration, the log and the readings.

use crate::access::{opt_act, opt_text, Act, Action, GpuRequest, Move, Step};
use crate::app_state::{
    battery_message, clamped, needs_saving, shows, updated, with_cards, AppState, BatteryPoll,
    GpuRanges, HardwareInfo, HardwareUpdate, MESSAGE_TIME, SHOWN_LOGS,
};
use crate::config::{
    broken_file, loaded_settings, migrates, or_dot, profile_names, profiles_to_use, replaced,
    settings_to_use, tunings, AppConfig, Configuration, FileState, PollRates, ProfilesConfig,
    Settings, SettingsConfig,
};
use crate::daemon_args::{after_name, uid_in, without};
use crate::daemon_log::{kept_level, lines, logged, Line, LogEntry};
use crate::fan_curve::{curves, point_lists, FanCurve, FanSettings};
use crate::frontend::{icon_pixel, place_text, query_of, refreshed_components, report_text, Query};
use crate::gamepad_laws::law_reported_means_changed;
use crate::gamepad_registry::{pads, reconciled, GamepadInfo};
use crate::hardware_cache::{card_names, list_of, speeds_of, value_of, FanInfo, GpuInfo};
use crate::hardware_control::opt_fan_plan;
use crate::hw_gate::{after_failure, failure_warning, is_enabled};
use crate::keyboard_control::{opt_lights, KeyboardMode, RgbKeyboardControl};
use crate::profile::{opt_tuning, stages, Profile, ProfileStep, Stage};
use crate::text::{decimal, has_infix, is_first_with, number, views};
use crate::update_check::{opt_release, release_of, Release};
use vstd::prelude::*;

verus! {

/// One more line in the log. A line that says the same as the last one is left out,
/// whenever it comes. Any other one stands behind all the others, and of two thousand
/// the oldest goes.
pub proof fn law_one_more_line(log: Seq<Line>, line: Line)
    ensures
        ({
            let repeats = log.len() > 0 && log.last().level == line.level && log.last().target
                == line.target && log.last().message == line.message;
            logged(log, line) == (if repeats {
                log
            } else if log.len() >= 2000 {
                log.skip(1).push(line)
            } else {
                log.push(line)
            })
        }),
{
    if log.len() > 0 {
        assert(log.drop_first() =~= log.skip(1));
    }
}

/// The level of a message is kept, but for two kinds of them: what comes from the bus
/// is a trace, and what the hardware is debugged with is an information.
pub proof fn law_levels_are_kept(level: Seq<char>, target: Seq<char>, message: Seq<char>)
    ensures
        ({
            let bus = "zbus"@.is_prefix_of(target) || "zbus::"@.is_prefix_of(message);
            let debugging = "hw."@.is_prefix_of(target) && level == "DEBUG"@;
            kept_level(level, target, message) == (if bus {
                "TRACE"@
            } else if debugging {
                "INFO"@
            } else {
                level
            })
        }),
{
}

/// What was read is kept, and what could not be read is gone.
pub proof fn law_readings_are_kept<T>(value: T, list: Vec<T>, reason: String)
    ensures
        value_of(Ok::<T, String>(value)) == Some(value),
        value_of(Err::<T, String>(reason)) is None,
        list_of(Ok::<Vec<T>, String>(list)) == list@,
        list_of(Err::<Vec<T>, String>(reason)) == Seq::<T>::empty(),
{
}

/// The speeds of the fans are those of all fans, in their order, each with its id.
pub proof fn law_fan_speeds<R>(fans: Seq<FanInfo<R>>, i: int)
    ensures
        speeds_of(fans).len() == fans.len(),
        0 <= i < fans.len() ==> speeds_of(fans)[i] == (fans[i].id, fans[i].rpm_or_percent),
{
}

/// A release is reported exactly if its version, the tag without the letters v before
/// it, is another one than the current. It is reported with its description, or with
/// a note that there is none.
pub proof fn law_release_is_reported(
    letters: Seq<char>,
    version: Seq<char>,
    body: Option<Seq<char>>,
    current: Seq<char>,
)
    requires
        forall|i: int| 0 <= i < letters.len() ==> #[trigger] letters[i] == 'v',
        version.len() > 0 ==> version[0] != 'v',
    ensures
        version != current ==> release_of(Some(letters + version), body, current) == Some(
            (
                version,
                match body {
                    Some(text) => text,
                    None => "No changelog provided."@,
                },
            ),
        ),
        release_of(Some(letters + version), body, version) is None,
        release_of(None, body, current) is None,
    decreases letters.len(),
{
    lemma_without_letters(letters, version);
}

proof fn lemma_without_letters(letters: Seq<char>, version: Seq<char>)
    requires
        forall|i: int| 0 <= i < letters.len() ==> #[trigger] letters[i] == 'v',
        version.len() > 0 ==> version[0] != 'v',
    ensures
        crate::text::without_leading(letters + version, 'v') == version,
    decreases letters.len(),
{
    let all = letters + version;
    if letters.len() > 0 {
        assert(letters[0] == 'v');
        let rest = letters.drop_first();
        assert forall|i: int| 0 <= i < rest.len() implies #[trigger] rest[i] == 'v' by {
            assert(rest[i] == letters[i + 1]);
        }
        lemma_without_letters(rest, version);
        assert(all.drop_first() =~= rest + version);
        assert(all[0] == 'v');
    } else {
        assert(all =~= version);
    }
}

/// The frontend gets all arguments behind the name of the program but those that ask
/// for a frontend, in their order.
pub proof fn law_arguments_are_handed_on(name: Seq<char>, args: Seq<Seq<char>>, x: Seq<char>)
    ensures
        without(args, x) == args.filter(|a: Seq<char>| a != x),
        after_name(seq![name] + args) == args,
        after_name(Seq::empty()) == Seq::<Seq<char>>::empty(),
{
    lemma_without(args, x);
    assert((seq![name] + args).skip(1) =~= args);
}

proof fn lemma_without(args: Seq<Seq<char>>, x: Seq<char>)
    ensures
        without(args, x) == args.filter(|a: Seq<char>| a != x),
    decreases args.len(),
{
    reveal(Seq::filter);
    if args.len() > 0 {
        lemma_without(args.drop_last(), x);
    }
    assert(without(args, x) =~= args.filter(|a: Seq<char>| a != x));
}

/// A user id is the number in the variable, if it is there and holds one that fits.
pub proof fn law_user_id(variable: Option<&str>)
    ensures
        variable is None ==> uid_in(variable) is None,
        variable matches Some(text) ==> (match number(text@, 0xffff_ffff) {
            Ok(n) => uid_in(variable) == Some(n as u32),
            Err(_) => uid_in(variable) is None,
        }),
{
}

proof fn lemma_component_names()
    ensures
        ({
            let names = seq![
                "cpu"@,
                "gpu"@,
                "memory"@,
                "fans"@,
                "battery"@,
                "wifi"@,
                "gamepads"@,
                "storage"@,
                "mount"@,
                "webcam"@,
                "logs"@,
                "gpu_overclock"@,
            ];
            forall|i: int, j: int| 0 <= i < j < 12 ==> #[trigger] names[i] != #[trigger] names[j]
        }),
{
    reveal_strlit("cpu");
    reveal_strlit("gpu");
    reveal_strlit("memory");
    reveal_strlit("fans");
    reveal_strlit("battery");
    reveal_strlit("wifi");
    reveal_strlit("gamepads");
    reveal_strlit("storage");
    reveal_strlit("mount");
    reveal_strlit("webcam");
    reveal_strlit("logs");
    reveal_strlit("gpu_overclock");
    let names = seq![
        "cpu"@,
        "gpu"@,
        "memory"@,
        "fans"@,
        "battery"@,
        "wifi"@,
        "gamepads"@,
        "storage"@,
        "mount"@,
        "webcam"@,
        "logs"@,
        "gpu_overclock"@,
    ];
    assert forall|i: int, j: int| 0 <= i < j < 12 implies #[trigger] names[i]
        != #[trigger] names[j] by {
        assert(names[i].len() != names[j].len() || names[i][0] != names[j][0] || names[i][1]
            != names[j][1]);
    }
}

/// Every component asks its own question, and no other name asks any.
pub proof fn law_components_ask(component: Seq<char>)
    ensures
        query_of("cpu"@) == Some(Query::Cpu),
        query_of("gpu"@) == Some(Query::Gpu),
        query_of("memory"@) == Some(Query::Memory),
        query_of("fans"@) == Some(Query::Fans),
        query_of("battery"@) == Some(Query::Battery),
        query_of("wifi"@) == Some(Query::Wifi),
        query_of("gamepads"@) == Some(Query::Gamepads),
        query_of("storage"@) == Some(Query::Storage),
        query_of("mount"@) == Some(Query::Mount),
        query_of("webcam"@) == Some(Query::Webcam),
        query_of("logs"@) == Some(Query::Logs),
        query_of(component) is Some ==> seq![
            "cpu"@,
            "gpu"@,
            "memory"@,
            "fans"@,
            "battery"@,
            "wifi"@,
            "gamepads"@,
            "storage"@,
            "mount"@,
            "webcam"@,
            "logs"@,
        ].contains(component),
{
    lemma_component_names();
    let names = seq![
        "cpu"@,
        "gpu"@,
        "memory"@,
        "fans"@,
        "battery"@,
        "wifi"@,
        "gamepads"@,
        "storage"@,
        "mount"@,
        "webcam"@,
        "logs"@,
        "gpu_overclock"@,
    ];
    assert(names[0] != names[1]);
    assert(forall|j: int| 0 < j < 12 ==> names[0] != #[trigger] names[j]);
    assert(forall|j: int| 1 < j < 12 ==> names[1] != #[trigger] names[j]);
    assert(forall|j: int| 2 < j < 12 ==> names[2] != #[trigger] names[j]);
    assert(forall|j: int| 3 < j < 12 ==> names[3] != #[trigger] names[j]);
    assert(forall|j: int| 4 < j < 12 ==> names[4] != #[trigger] names[j]);
    assert(forall|j: int| 5 < j < 12 ==> names[5] != #[trigger] names[j]);
    assert(forall|j: int| 6 < j < 12 ==> names[6] != #[trigger] names[j]);
    assert(forall|j: int| 7 < j < 12 ==> names[7] != #[trigger] names[j]);
    assert(forall|j: int| 8 < j < 12 ==> names[8] != #[trigger] names[j]);
    assert(forall|j: int| 9 < j < 12 ==> names[9] != #[trigger] names[j]);
    assert(names[1] == "gpu"@ && names[2] == "memory"@ && names[3] == "fans"@ && names[4]
        == "battery"@ && names[5] == "wifi"@ && names[6] == "gamepads"@ && names[7] == "storage"@
        && names[8] == "mount"@ && names[9] == "webcam"@ && names[10] == "logs"@);
    let asking = seq![
        "cpu"@,
        "gpu"@,
        "memory"@,
        "fans"@,
        "battery"@,
        "wifi"@,
        "gamepads"@,
        "storage"@,
        "mount"@,
        "webcam"@,
        "logs"@,
    ];
    assert(asking[0] == "cpu"@ && asking[1] == "gpu"@ && asking[2] == "memory"@ && asking[3]
        == "fans"@ && asking[4] == "battery"@ && asking[5] == "wifi"@ && asking[6] == "gamepads"@
        && asking[7] == "storage"@ && asking[8] == "mount"@ && asking[9] == "webcam"@ && asking[10]
        == "logs"@);
}

/// Every component is refreshed once in its own time: most at the rate of their
/// section, the mounts with the storage, the webcam and the log every five seconds.
pub proof fn law_components_are_refreshed(rates: PollRates)
    ensures
        refreshed_components(rates).contains(("cpu"@, rates.cpu_poll_rate)),
        refreshed_components(rates).contains(("gpu"@, rates.gpu_poll_rate)),
        refreshed_components(rates).contains(("memory"@, rates.memory_poll_rate)),
        refreshed_components(rates).contains(("fans"@, rates.fans_poll_rate)),
        refreshed_components(rates).contains(("battery"@, rates.battery_poll_rate)),
        refreshed_components(rates).contains(("wifi"@, rates.wifi_poll_rate)),
        refreshed_components(rates).contains(("gamepads"@, rates.gamepad_poll_rate)),
        refreshed_components(rates).contains(("storage"@, rates.storage_poll_rate)),
        refreshed_components(rates).contains(("mount"@, rates.storage_poll_rate)),
        refreshed_components(rates).contains(("gpu_overclock"@, rates.gpu_overclock_poll_rate)),
        refreshed_components(rates).contains(("webcam"@, 5000)),
        refreshed_components(rates).contains(("logs"@, 5000)),
        refreshed_components(rates).len() == 12,
        forall|i: int, j: int|
            0 <= i < j < 12 ==> (#[trigger] refreshed_components(rates)[i]).0 != (
            #[trigger] refreshed_components(rates)[j]).0,
{
    let list = refreshed_components(rates);
    assert(list[0] == ("cpu"@, rates.cpu_poll_rate));
    assert(list[1] == ("gpu"@, rates.gpu_poll_rate));
    assert(list[2] == ("memory"@, rates.memory_poll_rate));
    assert(list[3] == ("fans"@, rates.fans_poll_rate));
    assert(list[4] == ("battery"@, rates.battery_poll_rate));
    assert(list[5] == ("wifi"@, rates.wifi_poll_rate));
    assert(list[6] == ("gamepads"@, rates.gamepad_poll_rate));
    assert(list[7] == ("storage"@, rates.storage_poll_rate));
    assert(list[8] == ("mount"@, rates.storage_poll_rate));
    assert(list[9] == ("gpu_overclock"@, rates.gpu_overclock_poll_rate));
    assert(list[10] == ("webcam"@, 5000u64));
    assert(list[11] == ("logs"@, 5000u64));
    lemma_component_names();
    let names = seq![
        "cpu"@,
        "gpu"@,
        "memory"@,
        "fans"@,
        "battery"@,
        "wifi"@,
        "gamepads"@,
        "storage"@,
        "mount"@,
        "webcam"@,
        "logs"@,
        "gpu_overclock"@,
    ];
    assert forall|i: int, j: int| 0 <= i < j < 12 implies (#[trigger] list[i]).0 != (
    #[trigger] list[j]).0 by {
        let a = if i == 9 {
            11
        } else if i > 9 {
            i - 1
        } else {
            i
        };
        let b = if j == 9 {
            11
        } else if j > 9 {
            j - 1
        } else {
            j
        };
        assert(list[i].0 == names[a] && list[j].0 == names[b]);
        assert(a != b);
        if a < b {
            assert(names[a] != names[b]);
        } else {
            assert(names[b] != names[a]);
        }
    }
}

/// The icon shows the letter L in green: a bar of five pixels from the sixth line
/// down, and one of five lines at its foot. The rest of it is dark.
pub proof fn law_icon(x: int, y: int)
    ensures
        ({
            let bar = 10 <= x < 15 && 6 <= y < 27;
            let foot = 10 <= x < 23 && 22 <= y < 27;
            icon_pixel(x, y) == (if bar || foot {
                seq![0u8, 255, 0, 255]
            } else {
                seq![26u8, 26, 26, 255]
            })
        }),
{
}

/// A crash report says when and why the frontend ended, where, and how it got there.
pub proof fn law_crash_report(
    time: Seq<char>,
    message: Seq<char>,
    file: Seq<char>,
    line: nat,
    place: Seq<char>,
    backtrace: Seq<char>,
)
    ensures
        report_text(time, message, place, backtrace)
            == "LapSphere GUI Crash Report\n==========================\nTime: "@ + (time
            + "\nPanic: "@ + (message + (place + ("\n\nBacktrace:\n"@ + backtrace)))),
        place_text(file, line) == " at "@ + (file + (":"@ + decimal(line))),
{
    assert(report_text(time, message, place, backtrace)
        =~= "LapSphere GUI Crash Report\n==========================\nTime: "@ + (time
        + "\nPanic: "@ + (message + (place + ("\n\nBacktrace:\n"@ + backtrace)))));
    assert(place_text(file, line) =~= " at "@ + (file + (":"@ + decimal(line))));
}

/// Settings and profiles are each taken from their own file; where it is missing, from
/// the older one; and where that is missing too they are the defaults. Nothing of them
/// changes but that the tray is on if the frontend starts in it, and the order of the
/// sections.
pub proof fn law_files_that_count(
    default: Configuration,
    legacy: AppConfig,
    settings: SettingsConfig,
    profiles: ProfilesConfig,
    older: FileState<AppConfig>,
    order: Seq<Seq<char>>,
)
    ensures
        settings_to_use(default, older, FileState::Loaded(settings)) == settings@,
        settings_to_use(default, FileState::Loaded(legacy), FileState::Missing)
            == legacy@.settings,
        settings_to_use(default, FileState::Missing, FileState::Missing) == default.settings,
        profiles_to_use(default, older, FileState::Loaded(profiles)) == profiles@,
        profiles_to_use(default, FileState::Loaded(legacy), FileState::Missing)
            == legacy@.profiles,
        profiles_to_use(default, FileState::Missing, FileState::Missing) == default.profiles,
        loaded_settings(default, older, FileState::Loaded(settings), order) == (Settings {
            tray_enabled: settings@.tray_enabled || settings@.start_minimized,
            section_order: order,
            ..settings@
        }),
{
}

/// The older file is taken over exactly if it is there and one of the new ones is
/// missing. A file that is there and cannot be read is an error, the older one first,
/// then that of the settings.
pub proof fn law_taking_over(
    legacy: FileState<AppConfig>,
    settings: FileState<SettingsConfig>,
    profiles: FileState<ProfilesConfig>,
)
    ensures
        migrates(legacy, settings, profiles) <==> legacy is Loaded && (settings is Missing
            || profiles is Missing),
        legacy matches FileState::Broken(reason) ==> broken_file(legacy, settings, profiles)
            == Some(reason@),
        !(legacy is Broken) ==> (settings matches FileState::Broken(reason) ==> broken_file(
            legacy,
            settings,
            profiles,
        ) == Some(reason@)),
        !(legacy is Broken) && !(settings is Broken) ==> (profiles matches FileState::Broken(reason)
            ==> broken_file(legacy, settings, profiles) == Some(reason@)),
        !(legacy is Broken) && !(settings is Broken) && !(profiles is Broken) ==> broken_file(
            legacy,
            settings,
            profiles,
        ) is None,
{
}

/// What a configuration says is all of its settings and profiles, and the same of the
/// two files.
pub proof fn law_configuration_is_complete(
    config: AppConfig,
    settings: SettingsConfig,
    profiles: ProfilesConfig,
)
    ensures
        ({
            let s = config@.settings;
            &&& s.theme == config.theme
            &&& s.start_minimized == config.start_minimized
            &&& s.tray_enabled == config.tray_enabled
            &&& s.autostart == config.autostart
            &&& s.cpu_scheduler == config.cpu_scheduler@
            &&& s.font_size == config.font_size
            &&& s.rates == config.statistics_sections.rates
            &&& s.section_order == views(config.statistics_sections.section_order@)
            &&& s.tuning_section_order == views(config.tuning_section_order@)
            &&& s.battery_settings == config.battery_settings
            &&& s.log_limit == config.log_limit
            &&& s.log_filter_trace == config.log_filter_trace
            &&& s.remembered_gamepads == pads(config.remembered_gamepads@)
            &&& config@.profiles.profiles == tunings(config.profiles@)
            &&& config@.profiles.current_profile == config.current_profile@
        }),
        ({
            let s = settings@;
            &&& s.theme == settings.theme
            &&& s.start_minimized == settings.start_minimized
            &&& s.tray_enabled == settings.tray_enabled
            &&& s.autostart == settings.autostart
            &&& s.cpu_scheduler == settings.cpu_scheduler@
            &&& s.font_size == settings.font_size
            &&& s.rates == settings.statistics_sections.rates
            &&& s.section_order == views(settings.statistics_sections.section_order@)
            &&& s.tuning_section_order == views(settings.tuning_section_order@)
            &&& s.battery_settings == settings.battery_settings
            &&& s.log_limit == settings.log_limit
            &&& s.log_filter_trace == settings.log_filter_trace
            &&& s.remembered_gamepads == pads(settings.remembered_gamepads@)
        }),
        profiles@.profiles == tunings(profiles.profiles@),
        profiles@.current_profile == profiles.current_profile@,
{
}

/// What the lists say is what each of their members says, in order.
pub proof fn law_lists_are_complete(
    profiles: Seq<Profile>,
    gamepads: Seq<GamepadInfo>,
    texts: Seq<String>,
    entries: Seq<LogEntry>,
    fans: Seq<FanCurve>,
    i: int,
)
    ensures
        tunings(profiles).len() == profiles.len(),
        0 <= i < profiles.len() ==> tunings(profiles)[i] == profiles[i]@,
        profile_names(profiles).len() == profiles.len(),
        0 <= i < profiles.len() ==> profile_names(profiles)[i] == profiles[i].name@,
        pads(gamepads).len() == gamepads.len(),
        0 <= i < gamepads.len() ==> pads(gamepads)[i] == gamepads[i]@,
        views(texts).len() == texts.len(),
        0 <= i < texts.len() ==> views(texts)[i] == texts[i]@,
        lines(entries).len() == entries.len(),
        0 <= i < entries.len() ==> lines(entries)[i] == entries[i]@,
        curves(fans).len() == fans.len(),
        0 <= i < fans.len() ==> curves(fans)[i] == fans[i]@,
{
}

/// A profile, a gamepad and an entry of the log say all that stands in them.
pub proof fn law_records_are_complete(
    profile: Profile,
    gamepad: GamepadInfo,
    entry: LogEntry,
    curve: FanCurve,
    fans: FanSettings,
)
    ensures
        ({
            let c = profile.cpu_settings;
            let p = profile@.cpu;
            &&& p.governor == opt_text(c.governor)
            &&& p.tdp_profile == opt_text(c.tdp_profile)
            &&& p.tdp0 == c.tdp0
            &&& p.tdp1 == c.tdp1
            &&& p.tdp2 == c.tdp2
            &&& p.amd_pstate_status == opt_text(c.amd_pstate_status)
            &&& p.intel_pstate_status == opt_text(c.intel_pstate_status)
            &&& p.energy_performance_preference == opt_text(c.energy_performance_preference)
            &&& p.min_frequency == c.min_frequency
            &&& p.max_frequency == c.max_frequency
            &&& p.boost == c.boost
            &&& p.smt == c.smt
        }),
        ({
            let g = profile.gpu_settings;
            let p = profile@.gpu;
            &&& p.power_limit == g.power_limit
            &&& p.core_offset == g.core_offset
            &&& p.memory_offset == g.memory_offset
            &&& p.min_gpu_clock == g.min_gpu_clock
            &&& p.max_gpu_clock == g.max_gpu_clock
            &&& p.nvidia_fans == g.nvidia_fans@
            &&& p.advanced_control == g.advanced_control
            &&& p.manual_clocks == g.manual_clocks
            &&& p.advanced == g.advanced
        }),
        profile@.name == profile.name@,
        profile@.keyboard_enabled == profile.keyboard_settings.control_enabled,
        profile@.keyboard_mode == profile.keyboard_settings.mode@,
        profile@.screen == profile.screen_settings,
        profile@.fans == profile.fan_settings@,
        gamepad@.name == gamepad.name@,
        gamepad@.id == gamepad.id@,
        gamepad@.uid == gamepad.uid@,
        gamepad@.status == gamepad.status,
        gamepad@.battery_level == gamepad.battery_level,
        gamepad@.connection_type == gamepad.connection_type,
        gamepad@.power_status == gamepad.power_status,
        entry@.level == entry.level@,
        entry@.target == entry.target@,
        entry@.message == entry.message@,
        entry@.timestamp == entry.timestamp@,
        curve@.fan_id == curve.fan_id,
        curve@.points == curve.points@,
        fans@.control_enabled == fans.control_enabled,
        fans@.curves == curves(fans.curves@),
        opt_text(Some(entry.level)) == Some(entry.level@),
        opt_text(None) is None,
{
}

/// Two modes of the keyboard that say the same are the same mode in every setting.
pub proof fn law_modes_are_told_apart(a: KeyboardMode, b: KeyboardMode)
    requires
        a@ == b@,
    ensures
        match (a, b) {
            (
                KeyboardMode::SingleColor { r, g, b: blue, brightness },
                KeyboardMode::SingleColor { r: r2, g: g2, b: blue2, brightness: brightness2 },
            ) => r == r2 && g == g2 && blue == blue2 && brightness == brightness2,
            (
                KeyboardMode::PerKeyRGB { keys, brightness },
                KeyboardMode::PerKeyRGB { keys: keys2, brightness: brightness2 },
            ) => keys@ == keys2@ && brightness == brightness2,
            (
                KeyboardMode::MultipleZones { zones, brightness },
                KeyboardMode::MultipleZones { zones: zones2, brightness: brightness2 },
            ) => zones@ == zones2@ && brightness == brightness2,
            (
                KeyboardMode::Breathe { r, g, b: blue, brightness, speed },
                KeyboardMode::Breathe {
                    r: r2,
                    g: g2,
                    b: blue2,
                    brightness: brightness2,
                    speed: speed2,
                },
            ) => r == r2 && g == g2 && blue == blue2 && brightness == brightness2 && speed
                == speed2,
            (
                KeyboardMode::Flash { r, g, b: blue, brightness, speed },
                KeyboardMode::Flash {
                    r: r2,
                    g: g2,
                    b: blue2,
                    brightness: brightness2,
                    speed: speed2,
                },
            ) => r == r2 && g == g2 && blue == blue2 && brightness == brightness2 && speed
                == speed2,
            (
                KeyboardMode::Wave { brightness, speed },
                KeyboardMode::Wave { brightness: brightness2, speed: speed2 },
            ) => brightness == brightness2 && speed == speed2,
            (
                KeyboardMode::Cycle { brightness, speed },
                KeyboardMode::Cycle { brightness: brightness2, speed: speed2 },
            ) => brightness == brightness2 && speed == speed2,
            (
                KeyboardMode::Dance { brightness, speed },
                KeyboardMode::Dance { brightness: brightness2, speed: speed2 },
            ) => brightness == brightness2 && speed == speed2,
            (
                KeyboardMode::RandomColor { brightness, speed },
                KeyboardMode::RandomColor { brightness: brightness2, speed: speed2 },
            ) => brightness == brightness2 && speed == speed2,
            (
                KeyboardMode::Tempo { brightness, speed },
                KeyboardMode::Tempo { brightness: brightness2, speed: speed2 },
            ) => brightness == brightness2 && speed == speed2,
            _ => false,
        },
{
    let one = a@.colors;
    let two = b@.colors;
    if one.len() == 1 && two.len() == 1 {
        assert(one[0] == two[0]);
    }
}

/// An access says what it is and all that it is about, and a step says which access
/// comes next or how it ended.
pub proof fn law_accesses_are_complete(
    path: String,
    value: String,
    args: Vec<String>,
    action: Action,
    message: String,
)
    ensures
        Action::Probe(path)@ == Act::Probe(path@),
        Action::Read(path)@ == Act::Read(path@),
        Action::Write(path, value)@ == Act::Write(path@, value@),
        Action::List(path)@ == Act::List(path@),
        Action::Run(path, args)@ == Act::Run(path@, views(args@)),
        Step::<()>::Do(action)@ == Move::<()>::Do(action@),
        Step::<()>::Done(Ok(()))@ == Move::<()>::Done(Ok(())),
        Step::<()>::Done(Err(message))@ == Move::<()>::Done(Err(message@)),
        opt_act(Some(action)) == Some(action@),
        opt_act(None) is None,
{
}

/// Each reading has its place, and nothing else of what is known about the hardware
/// changes with it.
pub proof fn law_readings_have_their_places<R>(
    before: AppState<R>,
    update: HardwareUpdate<R>,
    after: AppState<R>,
)
    requires
        updated(before, update, after),
    ensures
        ({
            let old_one = before.hardware;
            let new_one = after.hardware;
            match update {
                HardwareUpdate::SystemInfo(x) => new_one == (HardwareInfo {
                    system_info: Some(x),
                    ..old_one
                }),
                HardwareUpdate::MemoryInfo(x) => new_one == (HardwareInfo {
                    memory_info: Some(x),
                    ..old_one
                }),
                HardwareUpdate::CpuInfo(x) => new_one == (HardwareInfo {
                    cpu_info: Some(x),
                    ..old_one
                }),
                HardwareUpdate::GpuInfo(x) => new_one == (HardwareInfo { gpu_info: x, ..old_one }),
                HardwareUpdate::BatteryInfo(x) => new_one == (HardwareInfo {
                    battery_info: Some(x),
                    ..old_one
                }),
                HardwareUpdate::WifiInfo(x) => new_one == (HardwareInfo {
                    wifi_info: x,
                    ..old_one
                }),
                HardwareUpdate::GamepadInfo(x) => new_one == (HardwareInfo {
                    gamepad_info: x,
                    ..old_one
                }),
                HardwareUpdate::FanInfo(x) => new_one == (HardwareInfo { fan_info: x, ..old_one }),
                HardwareUpdate::StorageDeviceInfo(x) => new_one == (HardwareInfo {
                    storage_device_info: x,
                    ..old_one
                }),
                HardwareUpdate::MountInfo(x) => new_one == (HardwareInfo {
                    mount_info: x,
                    ..old_one
                }),
                HardwareUpdate::HardwareInterface(x) => new_one == (HardwareInfo {
                    hardware_interface: Some(x),
                    ..old_one
                }),
                HardwareUpdate::WebcamState(x) => new_one == (HardwareInfo {
                    webcam_enabled: Some(x),
                    ..old_one
                }),
                HardwareUpdate::AvailableThresholds(x, y) => new_one == (HardwareInfo {
                    available_start_thresholds: x,
                    available_end_thresholds: y,
                    ..old_one
                }),
                HardwareUpdate::TdpProfiles(x) => new_one == (HardwareInfo {
                    available_tdp_profiles: x,
                    ..old_one
                }),
                HardwareUpdate::KeyboardCapabilities(x) => new_one == (HardwareInfo {
                    keyboard_capabilities: Some(x),
                    ..old_one
                }),
                _ => new_one == old_one,
            }
        }),
        update matches HardwareUpdate::UpdateInfo(version, changelog) ==> {
            &&& after.new_version_available == Some(version)
            &&& after.latest_changelog == Some(changelog)
        },
        !(update is UpdateInfo) ==> {
            &&& after.new_version_available == before.new_version_available
            &&& after.latest_changelog == before.latest_changelog
        },
        after.current_page == before.current_page,
        after.settings_tab == before.settings_tab,
        after.status_message == before.status_message,
        after.selected_fan_curve == before.selected_fan_curve,
        after.config.profiles == before.config.profiles,
        after.config.current_profile == before.config.current_profile,
        after.config.statistics_sections == before.config.statistics_sections,
        after.config.battery_settings == before.config.battery_settings,
        !(update is GamepadInfo) ==> pads(after.config.remembered_gamepads@) == pads(
            before.config.remembered_gamepads@,
        ),
{
}

/// The log viewer shows the last two thousand entries of the daemon's log, in their
/// order, unless it is paused; its other settings stay.
pub proof fn law_log_viewer<R>(
    before: AppState<R>,
    update: HardwareUpdate<R>,
    after: AppState<R>,
)
    requires
        updated(before, update, after),
    ensures
        !(update is DaemonLogs) || before.logs.log_paused ==> after.logs.daemon_logs@
            == before.logs.daemon_logs@,
        update matches HardwareUpdate::DaemonLogs(logs) ==> !before.logs.log_paused ==> {
            let shown = after.logs.daemon_logs@;
            &&& shown.len() == (if logs@.len() < 2000 {
                logs@.len() as int
            } else {
                2000
            })
            &&& forall|i: int|
                0 <= i < shown.len() ==> #[trigger] shown[i] == logs@[logs@.len() - shown.len()
                    + i]
        },
        after.logs.log_paused == before.logs.log_paused,
        after.logs.log_filter_trace == before.logs.log_filter_trace,
        after.logs.log_filter_debug == before.logs.log_filter_debug,
        after.logs.log_filter_info == before.logs.log_filter_info,
        after.logs.log_filter_warn == before.logs.log_filter_warn,
        after.logs.log_filter_error == before.logs.log_filter_error,
        after.logs.log_search_text == before.logs.log_search_text,
{
}

/// The settings have to be saved exactly if the news has changed the remembered
/// gamepads.
pub proof fn law_changed_gamepads_are_saved<R>(
    before: AppState<R>,
    update: HardwareUpdate<R>,
    after: AppState<R>,
)
    requires
        updated(before, update, after),
    ensures
        needs_saving(before, update) <==> pads(after.config.remembered_gamepads@) != pads(
            before.config.remembered_gamepads@,
        ),
{
    if let HardwareUpdate::GamepadInfo(connected) = update {
        law_reported_means_changed(
            pads(before.config.remembered_gamepads@),
            pads(connected@),
        );
    }
}

/// The answer to a query for a range or for limits of the clocks puts them in place
/// and clears the error; a failure is shown as the error and leaves them alone. Each
/// query has its own place.
pub proof fn law_clock_queries<R>(
    before: AppState<R>,
    update: HardwareUpdate<R>,
    after: AppState<R>,
)
    requires
        updated(before, update, after),
    ensures
        ({
            let a = before.ranges;
            let b = after.ranges;
            match update {
                HardwareUpdate::GpuClockRanges(Ok(found)) => b == (GpuRanges {
                    gpu_clock_ranges: Some(found),
                    gpu_clock_ranges_error: None,
                    ..a
                }),
                HardwareUpdate::GpuClockRanges(Err(e)) => b == (GpuRanges {
                    gpu_clock_ranges_error: Some(e),
                    ..a
                }),
                HardwareUpdate::GpuCoreOffsetLimits(Ok(found)) => b == (GpuRanges {
                    gpu_core_offset_limits: Some(found),
                    gpu_core_offset_error: None,
                    ..a
                }),
                HardwareUpdate::GpuCoreOffsetLimits(Err(e)) => b == (GpuRanges {
                    gpu_core_offset_error: Some(e),
                    ..a
                }),
                HardwareUpdate::GpuMemOffsetLimits(Ok(found)) => b == (GpuRanges {
                    gpu_mem_offset_limits: Some(found),
                    gpu_mem_offset_error: None,
                    ..a
                }),
                HardwareUpdate::GpuMemOffsetLimits(Err(e)) => b == (GpuRanges {
                    gpu_mem_offset_error: Some(e),
                    ..a
                }),
                HardwareUpdate::GpuInfo(_) => true,
                _ => b == a,
            }
        }),
{
}

/// A reading of the cards fills in the range and the limits that are not known yet,
/// each for itself, from the first NVIDIA card, as far as it has them; what it fills in
/// has no error any more. Without such a card nothing changes.
pub proof fn law_cards_fill_in<R>(before: GpuRanges, gpus: Seq<GpuInfo<R>>, place: int)
    requires
        0 <= place < gpus.len(),
        has_infix(gpus[place].name@, "NVIDIA"@),
        forall|j: int| 0 <= j < place ==> !has_infix((#[trigger] gpus[j]).name@, "NVIDIA"@),
    ensures
        ({
            let after = with_cards(before, gpus);
            let card = gpus[place];
            let clocks = before.gpu_clock_ranges is None && card.core_clock_range is Some;
            let core = before.gpu_core_offset_limits is None && card.core_offset_limits is Some;
            let memory = before.gpu_mem_offset_limits is None && card.memory_offset_limits is Some;
            &&& clocks ==> after.gpu_clock_ranges == card.core_clock_range
                && after.gpu_clock_ranges_error is None
            &&& !clocks ==> after.gpu_clock_ranges == before.gpu_clock_ranges
                && after.gpu_clock_ranges_error == before.gpu_clock_ranges_error
            &&& core ==> after.gpu_core_offset_limits == card.core_offset_limits
                && after.gpu_core_offset_error is None
            &&& !core ==> after.gpu_core_offset_limits == before.gpu_core_offset_limits
                && after.gpu_core_offset_error == before.gpu_core_offset_error
            &&& memory ==> after.gpu_mem_offset_limits == card.memory_offset_limits
                && after.gpu_mem_offset_error is None
            &&& !memory ==> after.gpu_mem_offset_limits == before.gpu_mem_offset_limits
                && after.gpu_mem_offset_error == before.gpu_mem_offset_error
            &&& after.gpu_mem_clock_ranges == before.gpu_mem_clock_ranges
        }),
{
    let names = card_names(gpus);
    assert forall|j: int| 0 <= j < place implies !has_infix(#[trigger] names[j], "NVIDIA"@) by {
        assert(names[j] == gpus[j].name@);
    }
    assert(is_first_with(names, "NVIDIA"@, place));
    let c = choose|k: int| is_first_with(names, "NVIDIA"@, k);
    assert(is_first_with(names, "NVIDIA"@, c));
    if c < place {
        assert(!has_infix(names[c], "NVIDIA"@));
    } else if place < c {
        assert(!has_infix(names[place], "NVIDIA"@));
    }
}

/// Without an NVIDIA card a reading of the cards changes nothing about the clocks.
pub proof fn law_other_cards_fill_nothing_in<R>(before: GpuRanges, gpus: Seq<GpuInfo<R>>)
    requires
        forall|j: int| 0 <= j < gpus.len() ==> !has_infix((#[trigger] gpus[j]).name@, "NVIDIA"@),
    ensures
        with_cards(before, gpus) == before,
{
    let names = card_names(gpus);
    if exists|i: int| is_first_with(names, "NVIDIA"@, i) {
        let i = choose|i: int| is_first_with(names, "NVIDIA"@, i);
        assert(names[i] == gpus[i].name@);
    }
}

/// A message is shown as it is, from this time on, and nothing else changes. It stays
/// for five seconds.
pub proof fn law_messages<R>(
    before: AppState<R>,
    text: Seq<char>,
    is_error: bool,
    now: u64,
    after: AppState<R>,
)
    requires
        shows(before, text, is_error, now, after),
    ensures
        after.status_message is Some,
        after.status_message->0.text@ == text,
        after.status_message->0.is_error == is_error,
        after.status_message->0.shown_at == now,
        after.config == before.config,
        after.hardware == before.hardware,
        after.current_page == before.current_page,
        MESSAGE_TIME == 5000,
        SHOWN_LOGS == 2000,
{
}

/// A battery change that fails or gets no answer is told; one that succeeds or is
/// pending is not.
pub proof fn law_battery_messages(reason: String)
    ensures
        battery_message(BatteryPoll::Failed(reason)) == Some("Battery update failed: "@ + reason@),
        battery_message(BatteryPoll::Closed) == Some("Battery update channel closed"@),
        battery_message(BatteryPoll::Done) is None,
        battery_message(BatteryPoll::Pending) is None,
{
}

/// The selected fan stays if it is there; otherwise it is the last one, or the first
/// place where there is none.
pub proof fn law_selected_fan(selected: usize, count: nat)
    requires
        count <= usize::MAX,
    ensures
        selected < count ==> clamped(selected, count) == selected,
        0 < count <= selected ==> clamped(selected, count) == count - 1,
        count == 0 ==> clamped(selected, count) == 0,
{
}

/// A replaced text has as many characters, the other one in place of every one that is
/// to go, and the rest as it was.
pub proof fn law_replaced_characters(s: Seq<char>, from: char, to: char, i: int)
    requires
        0 <= i < s.len(),
    ensures
        replaced(s, from, to).len() == s.len(),
        s[i] == from ==> replaced(s, from, to)[i] == to,
        s[i] != from ==> replaced(s, from, to)[i] == s[i],
        or_dot(None) == "."@,
{
}

/// What may be there says what it says if it is, and nothing if it is not.
pub proof fn law_options_are_complete(
    fans: FanSettings,
    profile: Profile,
    keyboard: &RgbKeyboardControl,
    release: Release,
    steps: Seq<ProfileStep>,
    points: Seq<Vec<(u8, u8)>>,
    names: Seq<&'static str>,
    i: int,
)
    ensures
        opt_fan_plan(Some(fans)) == Some(fans@),
        opt_fan_plan(None) is None,
        opt_tuning(Some(profile)) == Some(profile@),
        opt_tuning(None) is None,
        opt_lights(Some(keyboard)) == Some(keyboard@),
        opt_lights(None) is None,
        keyboard@.paths == views(keyboard.paths@),
        keyboard@.tuxedo_io == keyboard.tuxedo_io,
        opt_release(Some(release)) == Some((release.version@, release.changelog@)),
        opt_release(None) is None,
        stages(steps).len() == steps.len(),
        0 <= i < steps.len() ==> stages(steps)[i] == steps[i]@,
        point_lists(points).len() == points.len(),
        0 <= i < points.len() ==> point_lists(points)[i] == points[i]@,
        crate::hw_gate::names(names).len() == names.len(),
        0 <= i < names.len() ==> crate::hw_gate::names(names)[i] == names[i]@,
{
}

/// A step of a profile says which setting it is for and all of its value.
pub proof fn law_steps_are_complete(
    name: String,
    index: u8,
    card: u32,
    value: u32,
    min: u64,
    max: u64,
    request: GpuRequest,
    on: bool,
)
    ensures
        ProfileStep::Governor(name)@ == Stage::Governor(name@),
        ProfileStep::TdpProfile(name)@ == Stage::TdpProfile(name@),
        ProfileStep::TdpLimit(index, value)@ == Stage::TdpLimit(index, value),
        ProfileStep::AmdPstate(name)@ == Stage::AmdPstate(name@),
        ProfileStep::IntelPstate(name)@ == Stage::IntelPstate(name@),
        ProfileStep::EnergyPreference(name)@ == Stage::EnergyPreference(name@),
        ProfileStep::FrequencyLimits(min, max)@ == Stage::FrequencyLimits(min, max),
        ProfileStep::SelectGpu@ == Stage::SelectGpu,
        ProfileStep::GpuPowerLimit(card, value)@ == Stage::GpuPowerLimit(card, value),
        ProfileStep::Gpu(card, request)@ == Stage::Gpu(card, request),
        ProfileStep::Boost(on)@ == Stage::Boost(on),
        ProfileStep::Smt(on)@ == Stage::Smt(on),
        ProfileStep::Keyboard@ == Stage::Keyboard,
        ProfileStep::Screen@ == Stage::Screen,
        ProfileStep::Fans@ == Stage::Fans,
{
}

/// A capability may be accessed exactly if it is not disabled; a failure disables it
/// and leaves all others as they were.
pub proof fn law_guard(disabled: Set<Seq<char>>, capability: Seq<char>)
    ensures
        is_enabled(disabled, capability) <==> !disabled.contains(capability),
        after_failure(disabled, capability) == disabled.insert(capability),
        failure_warning(capability) == "read failed ("@ + (capability
            + ") - capability disabled for this daemon run"@),
{
    assert(failure_warning(capability) =~= "read failed ("@ + (capability
        + ") - capability disabled for this daemon run"@));
}

/// The remembered gamepads are reconciled with every snapshot of the connected ones.
pub proof fn law_gamepads_are_reconciled<R>(
    before: AppState<R>,
    connected: Vec<GamepadInfo>,
    after: AppState<R>,
)
    requires
        updated(before, HardwareUpdate::GamepadInfo(connected), after),
    ensures
        pads(after.config.remembered_gamepads@) == reconciled(
            pads(before.config.remembered_gamepads@),
            pads(connected@),
        ),
{
}

} // verus!
