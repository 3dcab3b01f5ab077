//! The configuration of the frontend and the two files it is kept in.
//!
//! `settings.json` holds everything but the profiles, `profiles.json` the
//! profiles and which of them is active. An older `config.json` holds all of it
//! and is taken over file by file.

use crate::access::copy_texts;
use crate::gamepad_registry::{pads, GamepadInfo, Pad};
use crate::hardware_control::BatterySettings;
use crate::profile::{Profile, Tuning};
use crate::text::{first_index, join, lemma_first_index, same, views};
use vstd::prelude::*;

verus! {

#[derive(Clone, Copy, PartialEq, Eq, Structural, Debug)]
pub enum Theme {
    Auto,
    Light,
    Dark,
}

#[derive(Clone, Copy, PartialEq, Eq, Structural, Debug)]
pub enum FontSize {
    Small,
    Medium,
    Large,
}

/// How often each part of the statistics is read anew, in milliseconds.
#[derive(Clone, Copy, PartialEq, Eq, Structural, Debug)]
pub struct PollRates {
    pub cpu_poll_rate: u64,
    pub gpu_poll_rate: u64,
    pub memory_poll_rate: u64,
    pub fans_poll_rate: u64,
    pub battery_poll_rate: u64,
    pub wifi_poll_rate: u64,
    pub gamepad_poll_rate: u64,
    pub storage_poll_rate: u64,
    pub gpu_overclock_poll_rate: u64,
}

/// The settings of the statistics page.
#[derive(Debug)]
pub struct StatisticsSections {
    pub rates: PollRates,
    pub section_order: Vec<String>,
}

/// The configuration.
#[derive(Debug)]
pub struct AppConfig {
    pub theme: Theme,
    pub start_minimized: bool,
    pub tray_enabled: bool,
    pub autostart: bool,
    pub cpu_scheduler: String,
    pub font_size: FontSize,
    pub statistics_sections: StatisticsSections,
    pub tuning_section_order: Vec<String>,
    pub battery_settings: BatterySettings,
    pub log_limit: usize,
    pub log_filter_trace: bool,
    pub remembered_gamepads: Vec<GamepadInfo>,
    pub profiles: Vec<Profile>,
    pub current_profile: String,
}

/// The contents of the settings file.
#[derive(Debug)]
pub struct SettingsConfig {
    pub theme: Theme,
    pub start_minimized: bool,
    pub tray_enabled: bool,
    pub autostart: bool,
    pub cpu_scheduler: String,
    pub font_size: FontSize,
    pub statistics_sections: StatisticsSections,
    pub tuning_section_order: Vec<String>,
    pub battery_settings: BatterySettings,
    pub log_limit: usize,
    pub log_filter_trace: bool,
    pub remembered_gamepads: Vec<GamepadInfo>,
}

/// The contents of the profiles file.
#[derive(Debug)]
pub struct ProfilesConfig {
    pub profiles: Vec<Profile>,
    pub current_profile: String,
}

/// What `SettingsConfig` says.
pub struct Settings {
    pub theme: Theme,
    pub start_minimized: bool,
    pub tray_enabled: bool,
    pub autostart: bool,
    pub cpu_scheduler: Seq<char>,
    pub font_size: FontSize,
    pub rates: PollRates,
    pub section_order: Seq<Seq<char>>,
    pub tuning_section_order: Seq<Seq<char>>,
    pub battery_settings: BatterySettings,
    pub log_limit: usize,
    pub log_filter_trace: bool,
    pub remembered_gamepads: Seq<Pad>,
}

/// What `ProfilesConfig` says.
pub struct Profiles {
    pub profiles: Seq<Tuning>,
    pub current_profile: Seq<char>,
}

/// What an `AppConfig` says.
pub struct Configuration {
    pub settings: Settings,
    pub profiles: Profiles,
}

/// What the profiles of a list say.
pub open spec fn tunings(list: Seq<Profile>) -> Seq<Tuning> {
    list.map_values(|p: Profile| p@)
}

impl View for SettingsConfig {
    type V = Settings;

    open spec fn view(&self) -> Settings {
        Settings {
            theme: self.theme,
            start_minimized: self.start_minimized,
            tray_enabled: self.tray_enabled,
            autostart: self.autostart,
            cpu_scheduler: self.cpu_scheduler@,
            font_size: self.font_size,
            rates: self.statistics_sections.rates,
            section_order: views(self.statistics_sections.section_order@),
            tuning_section_order: views(self.tuning_section_order@),
            battery_settings: self.battery_settings,
            log_limit: self.log_limit,
            log_filter_trace: self.log_filter_trace,
            remembered_gamepads: pads(self.remembered_gamepads@),
        }
    }
}

impl View for ProfilesConfig {
    type V = Profiles;

    open spec fn view(&self) -> Profiles {
        Profiles { profiles: tunings(self.profiles@), current_profile: self.current_profile@ }
    }
}

impl View for AppConfig {
    type V = Configuration;

    open spec fn view(&self) -> Configuration {
        Configuration {
            settings: Settings {
                theme: self.theme,
                start_minimized: self.start_minimized,
                tray_enabled: self.tray_enabled,
                autostart: self.autostart,
                cpu_scheduler: self.cpu_scheduler@,
                font_size: self.font_size,
                rates: self.statistics_sections.rates,
                section_order: views(self.statistics_sections.section_order@),
                tuning_section_order: views(self.tuning_section_order@),
                battery_settings: self.battery_settings,
                log_limit: self.log_limit,
                log_filter_trace: self.log_filter_trace,
                remembered_gamepads: pads(self.remembered_gamepads@),
            },
            profiles: Profiles {
                profiles: tunings(self.profiles@),
                current_profile: self.current_profile@,
            },
        }
    }
}

/// Copies a list of gamepads.
pub fn copy_gamepads(list: &Vec<GamepadInfo>) -> (r: Vec<GamepadInfo>)
    ensures
        pads(r@) == pads(list@),
{
    let mut out: Vec<GamepadInfo> = Vec::new();
    let mut i: usize = 0;
    while i < list.len()
        invariant
            i <= list@.len(),
            out@.len() == i,
            forall|k: int| 0 <= k < i ==> (#[trigger] out@[k])@ == list@[k]@,
        decreases list@.len() - i,
    {
        out.push(list[i].clone());
        i = i + 1;
    }
    assert(pads(out@) =~= pads(list@));
    out
}

fn copy_profiles(list: &Vec<Profile>) -> (r: Vec<Profile>)
    ensures
        tunings(r@) == tunings(list@),
{
    let mut out: Vec<Profile> = Vec::new();
    let mut i: usize = 0;
    while i < list.len()
        invariant
            i <= list@.len(),
            out@.len() == i,
            forall|k: int| 0 <= k < i ==> (#[trigger] out@[k])@ == list@[k]@,
        decreases list@.len() - i,
    {
        out.push(list[i].clone());
        i = i + 1;
    }
    assert(tunings(out@) =~= tunings(list@));
    out
}

fn copy_sections(sections: &StatisticsSections) -> (r: StatisticsSections)
    ensures
        r.rates == sections.rates,
        views(r.section_order@) == views(sections.section_order@),
{
    StatisticsSections {
        rates: sections.rates,
        section_order: copy_texts(&sections.section_order),
    }
}

impl SettingsConfig {
    /// The part of a configuration that the settings file holds.
    pub fn from_config(config: &AppConfig) -> (r: SettingsConfig)
        ensures
            r@ == config@.settings,
    {
        SettingsConfig {
            theme: config.theme,
            start_minimized: config.start_minimized,
            tray_enabled: config.tray_enabled,
            autostart: config.autostart,
            cpu_scheduler: config.cpu_scheduler.clone(),
            font_size: config.font_size,
            statistics_sections: copy_sections(&config.statistics_sections),
            tuning_section_order: copy_texts(&config.tuning_section_order),
            battery_settings: config.battery_settings,
            log_limit: config.log_limit,
            log_filter_trace: config.log_filter_trace,
            remembered_gamepads: copy_gamepads(&config.remembered_gamepads),
        }
    }

    /// Puts the settings into a configuration.
    pub fn apply_to(&self, config: &mut AppConfig)
        ensures
            final(config)@ == (Configuration { settings: self@, profiles: old(config)@.profiles }),
    {
        config.theme = self.theme;
        config.start_minimized = self.start_minimized;
        config.tray_enabled = self.tray_enabled;
        config.autostart = self.autostart;
        config.cpu_scheduler = self.cpu_scheduler.clone();
        config.font_size = self.font_size;
        config.statistics_sections = copy_sections(&self.statistics_sections);
        config.tuning_section_order = copy_texts(&self.tuning_section_order);
        config.battery_settings = self.battery_settings;
        config.log_limit = self.log_limit;
        config.log_filter_trace = self.log_filter_trace;
        config.remembered_gamepads = copy_gamepads(&self.remembered_gamepads);
    }
}

impl ProfilesConfig {
    /// The part of a configuration that the profiles file holds.
    pub fn from_config(config: &AppConfig) -> (r: ProfilesConfig)
        ensures
            r@ == config@.profiles,
    {
        ProfilesConfig {
            profiles: copy_profiles(&config.profiles),
            current_profile: config.current_profile.clone(),
        }
    }

    /// Puts the profiles into a configuration.
    pub fn apply_to(&self, config: &mut AppConfig)
        ensures
            final(config)@ == (Configuration { settings: old(config)@.settings, profiles: self@ }),
    {
        config.profiles = copy_profiles(&self.profiles);
        config.current_profile = self.current_profile.clone();
    }
}

/// What was found at the path of a file.
#[derive(Debug)]
pub enum FileState<T> {
    Missing,
    Loaded(T),
    /// The file is there and could not be read, for this reason.
    Broken(String),
}

/// The settings that count: those of their own file, or of the older one.
pub open spec fn settings_to_use(
    default: Configuration,
    legacy: FileState<AppConfig>,
    settings: FileState<SettingsConfig>,
) -> Settings {
    match settings {
        FileState::Loaded(own) => own@,
        _ => match legacy {
            FileState::Loaded(old_file) => old_file@.settings,
            _ => default.settings,
        },
    }
}

/// The profiles that count: those of their own file, or of the older one.
pub open spec fn profiles_to_use(
    default: Configuration,
    legacy: FileState<AppConfig>,
    profiles: FileState<ProfilesConfig>,
) -> Profiles {
    match profiles {
        FileState::Loaded(own) => own@,
        _ => match legacy {
            FileState::Loaded(old_file) => old_file@.profiles,
            _ => default.profiles,
        },
    }
}

/// Settings that start in the tray need the tray.
pub open spec fn with_tray(settings: Settings) -> Settings {
    Settings { tray_enabled: settings.tray_enabled || settings.start_minimized, ..settings }
}

/// Settings with another order of the statistics sections.
pub open spec fn with_order(settings: Settings, order: Seq<Seq<char>>) -> Settings {
    Settings { section_order: order, ..settings }
}

/// The settings that are loaded, with the normalised order of the statistics
/// sections.
pub open spec fn loaded_settings(
    default: Configuration,
    legacy: FileState<AppConfig>,
    settings: FileState<SettingsConfig>,
    order: Seq<Seq<char>>,
) -> Settings {
    with_order(with_tray(settings_to_use(default, legacy, settings)), order)
}

/// The first file that is broken, in the order in which they are read.
pub open spec fn broken_file(
    legacy: FileState<AppConfig>,
    settings: FileState<SettingsConfig>,
    profiles: FileState<ProfilesConfig>,
) -> Option<Seq<char>> {
    match (legacy, settings, profiles) {
        (FileState::Broken(reason), _, _) => Some(reason@),
        (_, FileState::Broken(reason), _) => Some(reason@),
        (_, _, FileState::Broken(reason)) => Some(reason@),
        _ => None,
    }
}

/// Whether the new files have to be written because the older one was taken
/// over.
pub open spec fn migrates(
    legacy: FileState<AppConfig>,
    settings: FileState<SettingsConfig>,
    profiles: FileState<ProfilesConfig>,
) -> bool {
    legacy is Loaded && (settings is Missing || profiles is Missing)
}

/// The order of the statistics sections in the settings that count, as it has to
/// be normalised before they are loaded.
pub fn section_order_to_use(
    default: &AppConfig,
    legacy: &FileState<AppConfig>,
    settings: &FileState<SettingsConfig>,
) -> (r: Vec<String>)
    ensures
        views(r@) == settings_to_use(default@, *legacy, *settings).section_order,
{
    match settings {
        FileState::Loaded(own) => copy_texts(&own.statistics_sections.section_order),
        _ => match legacy {
            FileState::Loaded(old_file) => copy_texts(&old_file.statistics_sections.section_order),
            _ => copy_texts(&default.statistics_sections.section_order),
        },
    }
}

fn take_settings(
    config: &mut AppConfig,
    legacy: &FileState<AppConfig>,
    settings: &FileState<SettingsConfig>,
)
    ensures
        final(config)@.settings == settings_to_use(old(config)@, *legacy, *settings),
        final(config)@.profiles == old(config)@.profiles,
{
    match settings {
        FileState::Loaded(own) => own.apply_to(config),
        _ => {
            if let FileState::Loaded(old_file) = legacy {
                SettingsConfig::from_config(old_file).apply_to(config);
            }
        },
    }
}

fn take_profiles(
    config: &mut AppConfig,
    legacy: &FileState<AppConfig>,
    profiles: &FileState<ProfilesConfig>,
)
    ensures
        final(config)@.settings == old(config)@.settings,
        final(config)@.profiles == profiles_to_use(old(config)@, *legacy, *profiles),
{
    match profiles {
        FileState::Loaded(own) => own.apply_to(config),
        _ => {
            if let FileState::Loaded(old_file) = legacy {
                ProfilesConfig::from_config(old_file).apply_to(config);
            }
        },
    }
}

fn settle(config: AppConfig, section_order: Vec<String>) -> (r: AppConfig)
    ensures
        r@.settings == with_order(with_tray(config@.settings), views(section_order@)),
        r@.profiles == config@.profiles,
{
    let tray_enabled = config.tray_enabled || config.start_minimized;
    let rates = config.statistics_sections.rates;
    AppConfig {
        tray_enabled,
        statistics_sections: StatisticsSections { rates, section_order },
        ..config
    }
}

/// Puts the configuration together from what was found on disk, and says
/// whether the new files have to be written. `section_order` is the normalised
/// order of the statistics sections.
pub fn load_config_from_disk(
    default: AppConfig,
    legacy: FileState<AppConfig>,
    settings: FileState<SettingsConfig>,
    profiles: FileState<ProfilesConfig>,
    section_order: Vec<String>,
) -> (r: Result<(AppConfig, bool), String>)
    ensures
        match r {
            Ok((config, migrate)) => {
                &&& broken_file(legacy, settings, profiles) is None
                &&& config@.settings == loaded_settings(
                    default@,
                    legacy,
                    settings,
                    views(section_order@),
                )
                &&& config@.profiles == profiles_to_use(default@, legacy, profiles)
                &&& migrate == migrates(legacy, settings, profiles)
            },
            Err(message) => broken_file(legacy, settings, profiles) == Some(message@),
        },
{
    if let FileState::Broken(reason) = &legacy {
        return Err(reason.clone());
    }
    if let FileState::Broken(reason) = &settings {
        return Err(reason.clone());
    }
    if let FileState::Broken(reason) = &profiles {
        return Err(reason.clone());
    }
    let mut config = default;
    take_settings(&mut config, &legacy, &settings);
    take_profiles(&mut config, &legacy, &profiles);
    let taken_over = matches!(legacy, FileState::Loaded(_));
    let incomplete = matches!(settings, FileState::Missing) || matches!(
        profiles,
        FileState::Missing
    );
    Ok((settle(config, section_order), taken_over && incomplete))
}

/// Saving a configuration in its two files and loading it again gives it back,
/// whatever the defaults are and whether the older file is still there; only
/// the tray is switched on if the frontend starts in it, and the order of the
/// statistics sections is the normalised one.
pub proof fn law_saved_is_loaded(
    config: Configuration,
    default: Configuration,
    legacy: FileState<AppConfig>,
    settings: SettingsConfig,
    profiles: ProfilesConfig,
    order: Seq<Seq<char>>,
)
    requires
        settings@ == config.settings,
        profiles@ == config.profiles,
    ensures
        loaded_settings(default, legacy, FileState::Loaded(settings), order) == with_order(
            with_tray(config.settings),
            order,
        ),
        (config.settings.start_minimized ==> config.settings.tray_enabled) && order
            == config.settings.section_order ==> loaded_settings(
            default,
            legacy,
            FileState::Loaded(settings),
            order,
        ) == config.settings,
        profiles_to_use(default, legacy, FileState::Loaded(profiles)) == config.profiles,
{
}

/// What is loaded from an older file is written to the new ones once: with both
/// in place nothing is written, and what is loaded stays the same as long as a
/// normalised order of the statistics sections does.
pub proof fn law_older_file_is_taken_over_once(
    default: Configuration,
    legacy: AppConfig,
    settings: SettingsConfig,
    profiles: ProfilesConfig,
    order: Seq<Seq<char>>,
)
    requires
        settings@ == loaded_settings(
            default,
            FileState::Loaded(legacy),
            FileState::Missing,
            order,
        ),
        profiles@ == profiles_to_use(default, FileState::Loaded(legacy), FileState::Missing),
    ensures
        migrates(FileState::Loaded(legacy), FileState::Missing, FileState::Missing),
        !migrates(
            FileState::Loaded(legacy),
            FileState::Loaded(settings),
            FileState::Loaded(profiles),
        ),
        loaded_settings(
            default,
            FileState::Loaded(legacy),
            FileState::Loaded(settings),
            order,
        ) == settings@,
        profiles_to_use(default, FileState::Loaded(legacy), FileState::Loaded(profiles))
            == profiles@,
{
}

/// The names of the profiles.
pub open spec fn profile_names(list: Seq<Profile>) -> Seq<Seq<char>> {
    list.map_values(|p: Profile| p.name@)
}

impl AppConfig {
    /// The place of the active profile.
    pub fn current_profile_index(&self) -> (r: Option<usize>)
        ensures
            match r {
                Some(i) => i < self.profiles@.len() && first_index(
                    profile_names(self.profiles@),
                    self.current_profile@,
                ) == Some(i as int),
                None => first_index(
                    profile_names(self.profiles@),
                    self.current_profile@,
                ) is None,
            },
    {
        let ghost names = profile_names(self.profiles@);
        let mut i: usize = 0;
        while i < self.profiles.len()
            invariant
                i <= self.profiles@.len(),
                names == profile_names(self.profiles@),
                forall|j: int| 0 <= j < i ==> #[trigger] names[j] != self.current_profile@,
            decreases self.profiles@.len() - i,
        {
            assert(names[i as int] == self.profiles@[i as int].name@);
            if same(self.profiles[i].name.as_str(), self.current_profile.as_str()) {
                proof {
                    lemma_first_index(names, self.current_profile@, i as int);
                }
                return Some(i);
            }
            i = i + 1;
        }
        None
    }
}

/// A text with one character put in place of another.
pub open spec fn replaced(s: Seq<char>, from: char, to: char) -> Seq<char> {
    s.map_values(
        |c: char|
            if c == from {
                to
            } else {
                c
            },
    )
}

fn replace(s: &str, from: char, to: char) -> (r: String)
    ensures
        r@ == replaced(s@, from, to),
{
    let chars = crate::text::chars_of(s);
    let mut out: Vec<char> = Vec::new();
    let mut i: usize = 0;
    while i < chars.len()
        invariant
            i <= chars@.len(),
            out@.len() == i,
            forall|k: int|
                0 <= k < i ==> #[trigger] out@[k] == (if chars@[k] == from {
                    to
                } else {
                    chars@[k]
                }),
        decreases chars@.len() - i,
    {
        out.push(
            if chars[i] == from {
                to
            } else {
                chars[i]
            },
        );
        i = i + 1;
    }
    let n = out.len();
    assert(out@.subrange(0, n as int) =~= replaced(s@, from, to));
    crate::text::text_of(&out, 0, n)
}

/// The text, or a dot.
pub open spec fn or_dot(s: Option<&str>) -> Seq<char> {
    match s {
        Some(text) => text@,
        None => "."@,
    }
}

/// The directory of the configuration: below the home directory, or below the
/// directory for application data on Windows. Either is the working directory
/// if it is not known.
pub fn get_config_dir(windows: bool, app_data: Option<&str>, home: Option<&str>) -> (r: String)
    ensures
        r@ == (if windows {
            replaced(or_dot(app_data), '\\', '/') + "/lapsphere"@
        } else {
            or_dot(home) + "/.config/lapsphere"@
        }),
{
    if windows {
        let base = match app_data {
            Some(text) => text,
            None => ".",
        };
        join(replace(base, '\\', '/').as_str(), "/lapsphere")
    } else {
        let base = match home {
            Some(text) => text,
            None => ".",
        };
        join(base, "/.config/lapsphere")
    }
}

/// The directory of crash reports, which is that of the configuration.
pub fn get_crash_dir(windows: bool, app_data: Option<&str>, home: Option<&str>) -> (r: String)
    ensures
        r@ == (if windows {
            replaced(or_dot(app_data), '\\', '/') + "/lapsphere"@
        } else {
            or_dot(home) + "/.config/lapsphere"@
        }),
{
    get_config_dir(windows, app_data, home)
}

/// The paths of the settings, the profiles and the older file.
pub fn config_paths(config_dir: &str) -> (r: (String, String, String))
    ensures
        r.0@ == config_dir@ + "/settings.json"@,
        r.1@ == config_dir@ + "/profiles.json"@,
        r.2@ == config_dir@ + "/config.json"@,
{
    (
        join(config_dir, "/settings.json"),
        join(config_dir, "/profiles.json"),
        join(config_dir, "/config.json"),
    )
}

/// The directory of the autostart entries, the path of the entry and its text.
/// An entry is written in either case: one that disables the autostart takes the
/// place of one that the system provides.
pub fn autostart_file(home: &str, autostart: bool) -> (r: (String, String, String))
    ensures
        r.0@ == home@ + "/.config/autostart"@,
        r.1@ == home@ + "/.config/autostart"@ + "/io.lapsphere.LapSphere.desktop"@,
        r.2@ == (if autostart {
            "[Desktop Entry]\nType=Application\nName=LapSphere\nExec=lapsphere --tray\nIcon=lapsphere\nX-GNOME-Autostart-enabled=true\n"@
        } else {
            "[Desktop Entry]\nType=Application\nName=LapSphere\nExec=lapsphere --tray\nIcon=lapsphere\nX-GNOME-Autostart-enabled=false\nNoDisplay=true\nHidden=true\n"@
        }),
{
    let dir = join(home, "/.config/autostart");
    let path = join(dir.as_str(), "/io.lapsphere.LapSphere.desktop");
    let text = if autostart {
        "[Desktop Entry]\nType=Application\nName=LapSphere\nExec=lapsphere --tray\nIcon=lapsphere\nX-GNOME-Autostart-enabled=true\n"
    } else {
        "[Desktop Entry]\nType=Application\nName=LapSphere\nExec=lapsphere --tray\nIcon=lapsphere\nX-GNOME-Autostart-enabled=false\nNoDisplay=true\nHidden=true\n"
    };
    (dir, path, text.to_string())
}

} // verus!
