//! The state of the frontend and how events change it.

use crate::config::{profile_names, AppConfig, StatisticsSections, Theme};
use crate::daemon_log::LogEntry;
use crate::gamepad_registry::{
    pads, reconcile, reconcile_changes, reconciled, GamepadInfo, Pad,
};
use crate::hardware_cache::{card_names, names_of_cards, FanInfo, GpuInfo};
use crate::profile::Profile;
use crate::text::{find_with, first_index, first_with, join, same};
use vstd::prelude::*;

verus! {

#[derive(Clone, Copy, PartialEq, Eq, Structural, Debug)]
pub enum Page {
    Statistics,
    Profiles,
    Tuning,
    Settings,
}

#[derive(Clone, Copy, PartialEq, Eq, Structural, Debug)]
pub enum SettingsTab {
    Main,
    StatsConfiguration,
    Hardware,
    Logs,
    Help,
    About,
}

/// A message in the status bar.
#[derive(Debug)]
pub struct StatusMessage {
    pub text: String,
    pub is_error: bool,
    /// When it appeared, in milliseconds of a clock that never goes back.
    pub shown_at: u64,
}

/// How long a message stays, in milliseconds.
pub const MESSAGE_TIME: u64 = 5000;

/// How many entries of the daemon's log are kept.
pub const SHOWN_LOGS: usize = 2000;

/// What is known about the hardware. Values of type `R` are only shown.
#[derive(Debug)]
pub struct HardwareInfo<R> {
    pub system_info: Option<R>,
    pub memory_info: Option<R>,
    pub cpu_info: Option<R>,
    pub gpu_info: Vec<GpuInfo<R>>,
    pub battery_info: Option<R>,
    pub wifi_info: Vec<R>,
    pub gamepad_info: Vec<GamepadInfo>,
    pub fan_info: Vec<FanInfo<R>>,
    pub storage_device_info: Vec<R>,
    pub mount_info: Vec<R>,
    pub hardware_interface: Option<String>,
    pub keyboard_capabilities: Option<R>,
    pub available_start_thresholds: Vec<u8>,
    pub available_end_thresholds: Vec<u8>,
    pub available_tdp_profiles: Vec<String>,
    pub webcam_enabled: Option<bool>,
}

/// What is known about the clocks of the graphics card, and why where a query
/// failed.
#[derive(Debug)]
pub struct GpuRanges {
    pub gpu_clock_ranges: Option<(u32, u32)>,
    pub gpu_clock_ranges_error: Option<String>,
    pub gpu_mem_clock_ranges: Option<(u32, u32)>,
    pub gpu_core_offset_limits: Option<(i32, i32)>,
    pub gpu_core_offset_error: Option<String>,
    pub gpu_mem_offset_limits: Option<(i32, i32)>,
    pub gpu_mem_offset_error: Option<String>,
}

/// The state of the log viewer.
#[derive(Debug)]
pub struct LogView {
    pub daemon_logs: Vec<LogEntry>,
    pub log_filter_trace: bool,
    pub log_filter_debug: bool,
    pub log_filter_info: bool,
    pub log_filter_warn: bool,
    pub log_filter_error: bool,
    pub log_paused: bool,
    pub log_search_text: String,
}

/// The state of the frontend.
#[derive(Debug)]
pub struct AppState<R> {
    pub config: AppConfig,
    pub hardware: HardwareInfo<R>,
    pub ranges: GpuRanges,
    pub logs: LogView,
    pub new_version_available: Option<String>,
    pub latest_changelog: Option<String>,
    pub current_page: Page,
    pub settings_tab: SettingsTab,
    pub status_message: Option<StatusMessage>,
    pub restart_confirmation_pending: bool,
    pub pending_prime_profile: Option<String>,
    pub selected_fan_curve: usize,
    pub editing_profile_name: Option<String>,
    pub keyboard_brush_color: [u8; 3],
}

/// News about the hardware.
#[derive(Debug)]
pub enum HardwareUpdate<R> {
    SystemInfo(R),
    MemoryInfo(R),
    CpuInfo(R),
    GpuInfo(Vec<GpuInfo<R>>),
    BatteryInfo(R),
    WifiInfo(Vec<R>),
    GamepadInfo(Vec<GamepadInfo>),
    FanInfo(Vec<FanInfo<R>>),
    StorageDeviceInfo(Vec<R>),
    MountInfo(Vec<R>),
    HardwareInterface(String),
    WebcamState(bool),
    DaemonLogs(Vec<LogEntry>),
    UpdateInfo(String, String),
    GpuClockRanges(Result<(u32, u32), String>),
    GpuCoreOffsetLimits(Result<(i32, i32), String>),
    GpuMemOffsetLimits(Result<(i32, i32), String>),
    AvailableThresholds(Vec<u8>, Vec<u8>),
    TdpProfiles(Vec<String>),
    KeyboardCapabilities(R),
}

/// A value and the error of its last query after a query for it: a success puts
/// the value in place and clears the error, a failure leaves the value alone.
pub open spec fn queried<T>(
    value: Option<T>,
    error: Option<String>,
    answer: Result<T, String>,
) -> (Option<T>, Option<String>) {
    match answer {
        Ok(found) => (Some(found), None),
        Err(e) => (value, Some(e)),
    }
}

/// A value and the error of its last query after a reading that may hold it: it
/// is taken over where no value is known yet.
pub open spec fn filled_in<T>(
    value: Option<T>,
    error: Option<String>,
    found: Option<T>,
) -> (Option<T>, Option<String>) {
    if value is None && found is Some {
        (found, None)
    } else {
        (value, error)
    }
}

/// The end of a log.
pub open spec fn log_end(logs: Seq<LogEntry>) -> Seq<LogEntry> {
    if logs.len() > SHOWN_LOGS {
        logs.skip(logs.len() - SHOWN_LOGS)
    } else {
        logs
    }
}

/// What is known about the clocks after new readings of the cards: ranges and
/// limits that are not known yet are taken over from the first NVIDIA card.
pub open spec fn with_cards<R>(before: GpuRanges, gpus: Seq<GpuInfo<R>>) -> GpuRanges {
    match first_with(card_names(gpus), "NVIDIA"@) {
        Some(i) => {
            let card = gpus[i];
            let clocks = filled_in(
                before.gpu_clock_ranges,
                before.gpu_clock_ranges_error,
                card.core_clock_range,
            );
            let core = filled_in(
                before.gpu_core_offset_limits,
                before.gpu_core_offset_error,
                card.core_offset_limits,
            );
            let memory = filled_in(
                before.gpu_mem_offset_limits,
                before.gpu_mem_offset_error,
                card.memory_offset_limits,
            );
            GpuRanges {
                gpu_clock_ranges: clocks.0,
                gpu_clock_ranges_error: clocks.1,
                gpu_mem_clock_ranges: before.gpu_mem_clock_ranges,
                gpu_core_offset_limits: core.0,
                gpu_core_offset_error: core.1,
                gpu_mem_offset_limits: memory.0,
                gpu_mem_offset_error: memory.1,
            }
        },
        None => before,
    }
}

/// What is known about the clocks after the news.
pub open spec fn ranges_after<R>(before: GpuRanges, update: HardwareUpdate<R>) -> GpuRanges {
    match update {
        HardwareUpdate::GpuInfo(gpus) => with_cards(before, gpus@),
        HardwareUpdate::GpuClockRanges(answer) => {
            let q = queried(before.gpu_clock_ranges, before.gpu_clock_ranges_error, answer);
            GpuRanges { gpu_clock_ranges: q.0, gpu_clock_ranges_error: q.1, ..before }
        },
        HardwareUpdate::GpuCoreOffsetLimits(answer) => {
            let q = queried(before.gpu_core_offset_limits, before.gpu_core_offset_error, answer);
            GpuRanges { gpu_core_offset_limits: q.0, gpu_core_offset_error: q.1, ..before }
        },
        HardwareUpdate::GpuMemOffsetLimits(answer) => {
            let q = queried(before.gpu_mem_offset_limits, before.gpu_mem_offset_error, answer);
            GpuRanges { gpu_mem_offset_limits: q.0, gpu_mem_offset_error: q.1, ..before }
        },
        _ => before,
    }
}

/// What is known about the hardware after the news.
pub open spec fn hardware_after<R>(
    before: HardwareInfo<R>,
    update: HardwareUpdate<R>,
) -> HardwareInfo<R> {
    match update {
        HardwareUpdate::SystemInfo(info) => HardwareInfo { system_info: Some(info), ..before },
        HardwareUpdate::MemoryInfo(info) => HardwareInfo { memory_info: Some(info), ..before },
        HardwareUpdate::CpuInfo(info) => HardwareInfo { cpu_info: Some(info), ..before },
        HardwareUpdate::GpuInfo(info) => HardwareInfo { gpu_info: info, ..before },
        HardwareUpdate::BatteryInfo(info) => HardwareInfo { battery_info: Some(info), ..before },
        HardwareUpdate::WifiInfo(info) => HardwareInfo { wifi_info: info, ..before },
        HardwareUpdate::GamepadInfo(info) => HardwareInfo { gamepad_info: info, ..before },
        HardwareUpdate::FanInfo(info) => HardwareInfo { fan_info: info, ..before },
        HardwareUpdate::StorageDeviceInfo(info) => HardwareInfo {
            storage_device_info: info,
            ..before
        },
        HardwareUpdate::MountInfo(info) => HardwareInfo { mount_info: info, ..before },
        HardwareUpdate::HardwareInterface(info) => HardwareInfo {
            hardware_interface: Some(info),
            ..before
        },
        HardwareUpdate::WebcamState(on) => HardwareInfo { webcam_enabled: Some(on), ..before },
        HardwareUpdate::AvailableThresholds(start, end) => HardwareInfo {
            available_start_thresholds: start,
            available_end_thresholds: end,
            ..before
        },
        HardwareUpdate::TdpProfiles(profiles) => HardwareInfo {
            available_tdp_profiles: profiles,
            ..before
        },
        HardwareUpdate::KeyboardCapabilities(caps) => HardwareInfo {
            keyboard_capabilities: Some(caps),
            ..before
        },
        _ => before,
    }
}

/// Whether the log viewer after the news is right: unless it is paused it shows
/// the end of the daemon's log.
pub open spec fn logs_after<R>(
    before: LogView,
    update: HardwareUpdate<R>,
    after: LogView,
) -> bool {
    match update {
        HardwareUpdate::DaemonLogs(logs) => {
            &&& after == (LogView { daemon_logs: after.daemon_logs, ..before })
            &&& after.daemon_logs@ == (if before.log_paused {
                before.daemon_logs@
            } else {
                log_end(logs@)
            })
        },
        _ => after == before,
    }
}

/// The remembered gamepads after the news.
pub open spec fn remembered_after<R>(before: Seq<Pad>, update: HardwareUpdate<R>) -> Seq<Pad> {
    match update {
        HardwareUpdate::GamepadInfo(connected) => reconciled(before, pads(connected@)),
        _ => before,
    }
}

/// Whether the state after the news is right: what the news is about changes,
/// and nothing else.
pub open spec fn updated<R>(
    before: AppState<R>,
    update: HardwareUpdate<R>,
    after: AppState<R>,
) -> bool {
    let version = match update {
        HardwareUpdate::UpdateInfo(version, changelog) => (Some(version), Some(changelog)),
        _ => (before.new_version_available, before.latest_changelog),
    };
    &&& after == (AppState {
        config: AppConfig {
            remembered_gamepads: after.config.remembered_gamepads,
            ..before.config
        },
        hardware: hardware_after(before.hardware, update),
        ranges: ranges_after(before.ranges, update),
        logs: after.logs,
        new_version_available: version.0,
        latest_changelog: version.1,
        ..before
    })
    &&& pads(after.config.remembered_gamepads@) == remembered_after(
        pads(before.config.remembered_gamepads@),
        update,
    )
    &&& logs_after(before.logs, update, after.logs)
}

/// Whether the news changes the remembered gamepads, so that the settings have
/// to be saved.
pub open spec fn needs_saving<R>(before: AppState<R>, update: HardwareUpdate<R>) -> bool {
    match update {
        HardwareUpdate::GamepadInfo(connected) => reconcile_changes(
            pads(before.config.remembered_gamepads@),
            pads(connected@),
        ),
        _ => false,
    }
}

/// The state of a pending change of the battery settings.
#[derive(Debug)]
pub enum BatteryPoll {
    /// There is no answer yet.
    Pending,
    Done,
    Failed(String),
    /// There will be no answer.
    Closed,
}

/// The message that the answer gives.
pub open spec fn battery_message(poll: BatteryPoll) -> Option<Seq<char>> {
    match poll {
        BatteryPoll::Failed(reason) => Some("Battery update failed: "@ + reason@),
        BatteryPoll::Closed => Some("Battery update channel closed"@),
        _ => None,
    }
}

/// An event of the tray.
#[derive(Clone, Copy, PartialEq, Eq, Structural, Debug)]
pub enum TrayEvent {
    ShowWindow,
    ShowStatistics,
    SwitchProfile(usize),
    Quit,
}

/// What an event of the tray asks for.
#[derive(Clone, Copy, PartialEq, Eq, Structural, Debug)]
pub enum TrayCommand {
    Nothing,
    ShowWindow,
    /// Apply the profile at this place.
    ApplyProfile(usize),
    Close,
}

/// Whether the state shows exactly this message besides what it did.
pub open spec fn shows<R>(
    before: AppState<R>,
    text: Seq<char>,
    is_error: bool,
    now: u64,
    after: AppState<R>,
) -> bool {
    &&& after == (AppState { status_message: after.status_message, ..before })
    &&& after.status_message matches Some(message) && message.text@ == text && message.is_error
        == is_error && message.shown_at == now
}

/// The place of a list of `count` that is nearest to `selected`, or zero.
pub open spec fn clamped(selected: usize, count: nat) -> usize {
    if selected < count {
        selected
    } else if count == 0 {
        0
    } else {
        (count - 1) as usize
    }
}

fn fill_in<T>(value: &mut Option<T>, error: &mut Option<String>, found: Option<T>)
    ensures
        (*final(value), *final(error)) == filled_in(*old(value), *old(error), found),
{
    if value.is_none() && found.is_some() {
        *value = found;
        *error = None;
    }
}

fn take_answer<T>(value: &mut Option<T>, error: &mut Option<String>, answer: Result<T, String>)
    ensures
        (*final(value), *final(error)) == queried(*old(value), *old(error), answer),
{
    match answer {
        Ok(found) => {
            *value = Some(found);
            *error = None;
        },
        Err(e) => {
            *error = Some(e);
        },
    }
}

impl GpuRanges {
    fn take_cards<R>(&mut self, gpus: &Vec<GpuInfo<R>>)
        ensures
            *final(self) == with_cards(*old(self), gpus@),
    {
        let names = names_of_cards(gpus);
        if let Some(i) = find_with(&names, "NVIDIA") {
            assert(i < card_names(gpus@).len());
            let card = &gpus[i];
            fill_in(
                &mut self.gpu_clock_ranges,
                &mut self.gpu_clock_ranges_error,
                card.core_clock_range,
            );
            fill_in(
                &mut self.gpu_core_offset_limits,
                &mut self.gpu_core_offset_error,
                card.core_offset_limits,
            );
            fill_in(
                &mut self.gpu_mem_offset_limits,
                &mut self.gpu_mem_offset_error,
                card.memory_offset_limits,
            );
        }
    }
}

impl<R> HardwareInfo<R> {
    fn take_reading(&mut self, update: HardwareUpdate<R>)
        ensures
            *final(self) == hardware_after(*old(self), update),
    {
        match update {
            HardwareUpdate::SystemInfo(info) => {
                self.system_info = Some(info);
            },
            HardwareUpdate::MemoryInfo(info) => {
                self.memory_info = Some(info);
            },
            HardwareUpdate::CpuInfo(info) => {
                self.cpu_info = Some(info);
            },
            HardwareUpdate::GpuInfo(info) => {
                self.gpu_info = info;
            },
            HardwareUpdate::BatteryInfo(info) => {
                self.battery_info = Some(info);
            },
            HardwareUpdate::WifiInfo(info) => {
                self.wifi_info = info;
            },
            HardwareUpdate::GamepadInfo(info) => {
                self.gamepad_info = info;
            },
            HardwareUpdate::FanInfo(info) => {
                self.fan_info = info;
            },
            HardwareUpdate::StorageDeviceInfo(info) => {
                self.storage_device_info = info;
            },
            HardwareUpdate::MountInfo(info) => {
                self.mount_info = info;
            },
            HardwareUpdate::HardwareInterface(info) => {
                self.hardware_interface = Some(info);
            },
            HardwareUpdate::WebcamState(on) => {
                self.webcam_enabled = Some(on);
            },
            HardwareUpdate::AvailableThresholds(start, end) => {
                self.available_start_thresholds = start;
                self.available_end_thresholds = end;
            },
            HardwareUpdate::TdpProfiles(profiles) => {
                self.available_tdp_profiles = profiles;
            },
            HardwareUpdate::KeyboardCapabilities(caps) => {
                self.keyboard_capabilities = Some(caps);
            },
            _ => {},
        }
    }
}

impl<R> AppState<R> {
    /// The state at start, with a configuration.
    pub fn new(config: AppConfig) -> (r: AppState<R>)
        ensures
            r.config == config,
            r.hardware.system_info is None,
            r.hardware.memory_info is None,
            r.hardware.cpu_info is None,
            r.hardware.gpu_info@.len() == 0,
            r.hardware.battery_info is None,
            r.hardware.wifi_info@.len() == 0,
            r.hardware.gamepad_info@.len() == 0,
            r.hardware.fan_info@.len() == 0,
            r.hardware.storage_device_info@.len() == 0,
            r.hardware.mount_info@.len() == 0,
            r.hardware.hardware_interface is None,
            r.hardware.keyboard_capabilities is None,
            r.hardware.available_start_thresholds@.len() == 0,
            r.hardware.available_end_thresholds@.len() == 0,
            r.hardware.available_tdp_profiles@.len() == 0,
            r.hardware.webcam_enabled is None,
            r.ranges == (GpuRanges {
                gpu_clock_ranges: None,
                gpu_clock_ranges_error: None,
                gpu_mem_clock_ranges: None,
                gpu_core_offset_limits: None,
                gpu_core_offset_error: None,
                gpu_mem_offset_limits: None,
                gpu_mem_offset_error: None,
            }),
            r.logs.daemon_logs@.len() == 0,
            !r.logs.log_filter_trace,
            !r.logs.log_filter_debug,
            r.logs.log_filter_info,
            r.logs.log_filter_warn,
            r.logs.log_filter_error,
            r.logs.log_paused,
            r.logs.log_search_text@ == ""@,
            r.new_version_available is None,
            r.latest_changelog is None,
            r.current_page == Page::Statistics,
            r.settings_tab == SettingsTab::Main,
            r.status_message is None,
            !r.restart_confirmation_pending,
            r.pending_prime_profile is None,
            r.selected_fan_curve == 0,
            r.editing_profile_name is None,
            r.keyboard_brush_color@ == seq![255u8, 255, 255],
    {
        AppState {
            config,
            hardware: HardwareInfo {
                system_info: None,
                memory_info: None,
                cpu_info: None,
                gpu_info: Vec::new(),
                battery_info: None,
                wifi_info: Vec::new(),
                gamepad_info: Vec::new(),
                fan_info: Vec::new(),
                storage_device_info: Vec::new(),
                mount_info: Vec::new(),
                hardware_interface: None,
                keyboard_capabilities: None,
                available_start_thresholds: Vec::new(),
                available_end_thresholds: Vec::new(),
                available_tdp_profiles: Vec::new(),
                webcam_enabled: None,
            },
            ranges: GpuRanges {
                gpu_clock_ranges: None,
                gpu_clock_ranges_error: None,
                gpu_mem_clock_ranges: None,
                gpu_core_offset_limits: None,
                gpu_core_offset_error: None,
                gpu_mem_offset_limits: None,
                gpu_mem_offset_error: None,
            },
            logs: LogView {
                daemon_logs: Vec::new(),
                log_filter_trace: false,
                log_filter_debug: false,
                log_filter_info: true,
                log_filter_warn: true,
                log_filter_error: true,
                log_paused: true,
                log_search_text: "".to_string(),
            },
            new_version_available: None,
            latest_changelog: None,
            current_page: Page::Statistics,
            settings_tab: SettingsTab::Main,
            status_message: None,
            restart_confirmation_pending: false,
            pending_prime_profile: None,
            selected_fan_curve: 0,
            editing_profile_name: None,
            keyboard_brush_color: [255, 255, 255],
        }
    }

    /// Keeps the selected fan among the fans that there are.
    pub fn clamp_fan_selection(&mut self)
        ensures
            *final(self) == (AppState {
                selected_fan_curve: clamped(
                    old(self).selected_fan_curve,
                    old(self).hardware.fan_info@.len(),
                ),
                ..*old(self)
            }),
    {
        let fan_count = self.hardware.fan_info.len();
        if fan_count == 0 {
            self.selected_fan_curve = 0;
        } else if self.selected_fan_curve >= fan_count {
            self.selected_fan_curve = fan_count - 1;
        }
    }

    /// Takes over a configuration that was loaded, with the normalised order of its
    /// statistics sections. Where none could be loaded the state stays as it is.
    pub fn load_config(&mut self, loaded: Result<AppConfig, String>, section_order: Vec<String>)
        ensures
            *final(self) == (match loaded {
                Ok(config) => AppState {
                    config: AppConfig {
                        statistics_sections: StatisticsSections {
                            section_order,
                            ..config.statistics_sections
                        },
                        ..config
                    },
                    logs: LogView {
                        log_filter_trace: config.log_filter_trace,
                        ..old(self).logs
                    },
                    ..*old(self)
                },
                Err(_) => *old(self),
            }),
    {
        match loaded {
            Ok(config) => {
                self.logs.log_filter_trace = config.log_filter_trace;
                self.config = config;
                self.config.statistics_sections.section_order = section_order;
            },
            Err(_) => {},
        }
    }

    /// Reports that the settings were saved, or hands the reason on.
    pub fn save_settings(&mut self, written: Result<(), String>, now: u64) -> (r: Result<
        (),
        String,
    >)
        ensures
            r == written,
            written is Ok ==> shows(*old(self), "Settings saved"@, false, now, *final(self)),
            written is Err ==> *final(self) == *old(self),
    {
        if written.is_ok() {
            self.show_message("Settings saved", false, now);
        }
        written
    }

    /// Reports that the profiles were saved, or hands the reason on.
    pub fn save_profiles(&mut self, written: Result<(), String>, now: u64) -> (r: Result<
        (),
        String,
    >)
        ensures
            r == written,
            written is Ok ==> shows(*old(self), "Profiles saved"@, false, now, *final(self)),
            written is Err ==> *final(self) == *old(self),
    {
        if written.is_ok() {
            self.show_message("Profiles saved", false, now);
        }
        written
    }

    /// Shows a message in the status bar.
    pub fn show_message(&mut self, text: &str, is_error: bool, now: u64)
        ensures
            shows(*old(self), text@, is_error, now, *final(self)),
    {
        self.status_message = Some(
            StatusMessage { text: text.to_string(), is_error, shown_at: now },
        );
    }

    /// Whether the message in the status bar is still shown; one whose time is
    /// over is removed.
    pub fn status_visible(&mut self, now: u64) -> (r: bool)
        ensures
            r == (old(self).status_message matches Some(message) && now - message.shown_at
                < MESSAGE_TIME),
            *final(self) == (if r {
                *old(self)
            } else {
                AppState { status_message: None, ..*old(self) }
            }),
    {
        let visible = match &self.status_message {
            Some(message) => now < message.shown_at || now - message.shown_at < MESSAGE_TIME,
            None => false,
        };
        if !visible {
            self.status_message = None;
        }
        visible
    }

    /// The active profile.
    pub fn current_profile(&self) -> (r: Option<&Profile>)
        ensures
            match first_index(
                profile_names(self.config.profiles@),
                self.config.current_profile@,
            ) {
                Some(i) => r == Some(&self.config.profiles@[i]),
                None => r is None,
            },
    {
        match self.config.current_profile_index() {
            Some(i) => Some(&self.config.profiles[i]),
            None => None,
        }
    }

    /// The place of the active profile.
    pub fn current_profile_index(&self) -> (r: Option<usize>)
        ensures
            match r {
                Some(i) => i < self.config.profiles@.len() && first_index(
                    profile_names(self.config.profiles@),
                    self.config.current_profile@,
                ) == Some(i as int),
                None => first_index(
                    profile_names(self.config.profiles@),
                    self.config.current_profile@,
                ) is None,
            },
    {
        self.config.current_profile_index()
    }

    /// Takes news about the hardware, and says whether the settings have to be
    /// saved.
    pub fn handle_hardware_update(&mut self, update: HardwareUpdate<R>) -> (r: bool)
        ensures
            updated(*old(self), update, *final(self)),
            r == needs_saving(*old(self), update),
    {
        match update {
            HardwareUpdate::GamepadInfo(connected) => {
                let changed = reconcile(
                    &mut self.config.remembered_gamepads,
                    connected.as_slice(),
                );
                self.hardware.gamepad_info = connected;
                changed
            },
            HardwareUpdate::GpuInfo(gpus) => {
                self.ranges.take_cards(&gpus);
                self.hardware.gpu_info = gpus;
                false
            },
            HardwareUpdate::GpuClockRanges(answer) => {
                take_answer(
                    &mut self.ranges.gpu_clock_ranges,
                    &mut self.ranges.gpu_clock_ranges_error,
                    answer,
                );
                false
            },
            HardwareUpdate::GpuCoreOffsetLimits(answer) => {
                take_answer(
                    &mut self.ranges.gpu_core_offset_limits,
                    &mut self.ranges.gpu_core_offset_error,
                    answer,
                );
                false
            },
            HardwareUpdate::GpuMemOffsetLimits(answer) => {
                take_answer(
                    &mut self.ranges.gpu_mem_offset_limits,
                    &mut self.ranges.gpu_mem_offset_error,
                    answer,
                );
                false
            },
            HardwareUpdate::DaemonLogs(logs) => {
                if !self.logs.log_paused {
                    let mut logs = logs;
                    let n = logs.len();
                    self.logs.daemon_logs = if n > SHOWN_LOGS {
                        logs.split_off(n - SHOWN_LOGS)
                    } else {
                        logs
                    };
                }
                false
            },
            HardwareUpdate::UpdateInfo(version, changelog) => {
                self.new_version_available = Some(version);
                self.latest_changelog = Some(changelog);
                false
            },
            reading => {
                self.hardware.take_reading(reading);
                false
            },
        }
    }

    /// Takes the answer to a change of the battery settings, and says whether it
    /// is still to be waited for.
    pub fn handle_battery_answer(&mut self, poll: BatteryPoll, now: u64) -> (r: bool)
        ensures
            r == (poll is Pending),
            match battery_message(poll) {
                Some(text) => shows(*old(self), text, true, now, *final(self)),
                None => *final(self) == *old(self),
            },
    {
        match poll {
            BatteryPoll::Pending => true,
            BatteryPoll::Done => false,
            BatteryPoll::Failed(reason) => {
                self.show_message(
                    join("Battery update failed: ", reason.as_str()).as_str(),
                    true,
                    now,
                );
                false
            },
            BatteryPoll::Closed => {
                self.show_message("Battery update channel closed", true, now);
                false
            },
        }
    }

    /// Opens the page that tells about a new version.
    pub fn view_update_details(&mut self)
        ensures
            *final(self) == (AppState {
                current_page: Page::Settings,
                settings_tab: SettingsTab::About,
                ..*old(self)
            }),
    {
        self.current_page = Page::Settings;
        self.settings_tab = SettingsTab::About;
    }

    /// Stops showing that there is a new version.
    pub fn dismiss_update(&mut self)
        ensures
            *final(self) == (AppState { new_version_available: None, ..*old(self) }),
    {
        self.new_version_available = None;
    }

    /// Takes an event of the tray. `force_quit` says that closing the window ends
    /// the frontend.
    pub fn handle_tray_event(&mut self, event: TrayEvent, force_quit: &mut bool) -> (r: TrayCommand)
        ensures
            *final(force_quit) == (*old(force_quit) || event == TrayEvent::Quit),
            match event {
                TrayEvent::ShowWindow => r == TrayCommand::ShowWindow && *final(self)
                    == *old(self),
                TrayEvent::ShowStatistics => r == TrayCommand::ShowWindow && *final(self)
                    == (AppState { current_page: Page::Statistics, ..*old(self) }),
                TrayEvent::SwitchProfile(i) => if i < old(self).config.profiles@.len() {
                    &&& r == TrayCommand::ApplyProfile(i)
                    &&& final(self).config.current_profile@ == old(
                        self,
                    ).config.profiles@[i as int].name@
                    &&& *final(self) == (AppState {
                        config: AppConfig {
                            current_profile: final(self).config.current_profile,
                            ..old(self).config
                        },
                        ..*old(self)
                    })
                } else {
                    r == TrayCommand::Nothing && *final(self) == *old(self)
                },
                TrayEvent::Quit => r == TrayCommand::Close && *final(self) == *old(self),
            },
    {
        match event {
            TrayEvent::ShowWindow => TrayCommand::ShowWindow,
            TrayEvent::ShowStatistics => {
                self.current_page = Page::Statistics;
                TrayCommand::ShowWindow
            },
            TrayEvent::SwitchProfile(i) => {
                if i < self.config.profiles.len() {
                    let name = self.config.profiles[i].name.clone();
                    self.config.current_profile = name;
                    TrayCommand::ApplyProfile(i)
                } else {
                    TrayCommand::Nothing
                }
            },
            TrayEvent::Quit => {
                *force_quit = true;
                TrayCommand::Close
            },
        }
    }
}

/// What the menu of the tray shows.
#[derive(Debug)]
pub struct TrayMenu {
    pub profile: String,
    pub profiles_count: usize,
}

/// What has to be sent to the tray.
#[derive(Clone, Copy, PartialEq, Eq, Structural, Debug)]
pub enum TraySync {
    Nothing,
    /// The active profile.
    Profile,
    /// All profiles, and then the active one.
    Profiles,
}

impl TrayMenu {
    /// Brings the menu up to date with the configuration.
    pub fn sync(&mut self, config: &AppConfig) -> (r: TraySync)
        ensures
            r == (if config.profiles@.len() != old(self).profiles_count {
                TraySync::Profiles
            } else if config.current_profile@ != old(self).profile@ {
                TraySync::Profile
            } else {
                TraySync::Nothing
            }),
            final(self).profile@ == config.current_profile@,
            final(self).profiles_count == config.profiles@.len(),
    {
        if config.profiles.len() != self.profiles_count {
            self.profiles_count = config.profiles.len();
            self.profile = config.current_profile.clone();
            return TraySync::Profiles;
        }
        if !same(config.current_profile.as_str(), self.profile.as_str()) {
            self.profile = config.current_profile.clone();
            return TraySync::Profile;
        }
        TraySync::Nothing
    }
}

/// Counts a frame after the start, and says whether the window is to be hidden
/// in it: the first frames hide it if the frontend starts in the tray.
pub fn begin_frame(startup_frames: &mut u32, start_minimized: bool, tray_argument: bool) -> (r:
    bool)
    ensures
        r == (*old(startup_frames) > 0 && (start_minimized || tray_argument)),
        *final(startup_frames) == (if *old(startup_frames) > 0 {
            *old(startup_frames) - 1
        } else {
            0
        }),
{
    if *startup_frames > 0 {
        *startup_frames = *startup_frames - 1;
        start_minimized || tray_argument
    } else {
        false
    }
}

/// Whether a window that is to be closed is hidden instead.
pub fn hides_on_close(close_requested: bool, tray_enabled: bool, force_quit: bool) -> (r: bool)
    ensures
        r == (close_requested && tray_enabled && !force_quit),
{
    close_requested && tray_enabled && !force_quit
}

/// Whether the theme has to follow that of the system.
pub fn theme_outdated(theme: Theme, system_dark: bool, shown_dark: bool) -> (r: bool)
    ensures
        r == (theme == Theme::Auto && system_dark != shown_dark),
{
    theme == Theme::Auto && system_dark != shown_dark
}

/// Readings of the cards never replace a range or a limit that is known: only a
/// query of its own does.
pub proof fn law_known_ranges_stay<R>(before: GpuRanges, gpus: Seq<GpuInfo<R>>)
    ensures
        before.gpu_clock_ranges is Some ==> with_cards(before, gpus).gpu_clock_ranges
            == before.gpu_clock_ranges,
        before.gpu_core_offset_limits is Some ==> with_cards(before, gpus).gpu_core_offset_limits
            == before.gpu_core_offset_limits,
        before.gpu_mem_offset_limits is Some ==> with_cards(before, gpus).gpu_mem_offset_limits
            == before.gpu_mem_offset_limits,
        with_cards(with_cards(before, gpus), gpus) == with_cards(before, gpus),
{
}

/// The log that is shown is the end of the daemon's, and never longer than its
/// limit.
pub proof fn law_log_end_is_bounded(logs: Seq<LogEntry>)
    ensures
        log_end(logs).len() <= SHOWN_LOGS,
        log_end(logs).len() == logs.len() || log_end(logs).len() == SHOWN_LOGS,
        forall|i: int|
            0 <= i < log_end(logs).len() ==> #[trigger] log_end(logs)[i] == logs[logs.len()
                - log_end(logs).len() + i],
{
}

} // verus!
