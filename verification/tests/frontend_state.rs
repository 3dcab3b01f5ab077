use lapsphere::app_state::{
    begin_frame, hides_on_close, theme_outdated, AppState, BatteryPoll, HardwareUpdate, Page,
    SettingsTab, TrayCommand, TrayEvent, TrayMenu, TraySync,
};
use lapsphere::config::{
    autostart_file, config_paths, get_config_dir, get_crash_dir, load_config_from_disk,
    section_order_to_use, AppConfig, FileState, FontSize, PollRates, ProfilesConfig,
    SettingsConfig, StatisticsSections, Theme,
};
use lapsphere::daemon_log::LogEntry;
use lapsphere::fan_curve::FanSettings;
use lapsphere::gamepad_registry::{ConnectionType, GamepadInfo, GamepadStatus, PowerStatus};
use lapsphere::gpu_overclock::AdvancedGpuSettings;
use lapsphere::hardware_cache::{FanInfo, GpuInfo};
use lapsphere::hardware_control::BatterySettings;
use lapsphere::keyboard_control::{KeyboardMode, KeyboardSettings};
use lapsphere::profile::{CpuSettings, GpuSettings, Profile};
use lapsphere::screen_control::ScreenSettings;

fn profile(name: &str) -> Profile {
    Profile {
        name: name.to_string(),
        cpu_settings: CpuSettings {
            governor: None,
            tdp_profile: None,
            tdp0: None,
            tdp1: None,
            tdp2: None,
            amd_pstate_status: None,
            intel_pstate_status: None,
            energy_performance_preference: None,
            min_frequency: None,
            max_frequency: None,
            boost: None,
            smt: None,
        },
        gpu_settings: GpuSettings {
            power_limit: None,
            core_offset: None,
            memory_offset: None,
            min_gpu_clock: None,
            max_gpu_clock: None,
            nvidia_fans: vec![],
            advanced_control: false,
            manual_clocks: false,
            advanced: AdvancedGpuSettings {
                frequency_min: 0,
                frequency_max: 0,
                freq_offset_min: 0,
                freq_offset_max: 0,
                drain_offset_control: false,
                high_freq_min: 0,
                high_freq_max: 0,
                low_freq_min: 0,
                low_freq_max: 0,
                critical_temp_range_control: false,
                critical_temp_min: 0,
                critical_temp_max: 0,
                temperature_min: 0,
                temperature_max: 0,
                drain_offset_lmin: 0,
                drain_offset_lmax: 0,
                drain_offset_hmin: 0,
                drain_offset_hmax: 0,
                power_offset_control: false,
                plimit_min: 0,
                plimit_max: 0,
                power_offset_min: 0,
                power_offset_max: 0,
                smart_rounding_threshold: 0,
            },
        },
        keyboard_settings: KeyboardSettings {
            control_enabled: false,
            mode: KeyboardMode::Wave { brightness: 1, speed: 1 },
        },
        screen_settings: ScreenSettings { brightness: 80, system_control: true },
        fan_settings: FanSettings { control_enabled: false, curves: vec![] },
    }
}

fn config(mark: &str) -> AppConfig {
    AppConfig {
        theme: Theme::Auto,
        start_minimized: false,
        tray_enabled: false,
        autostart: false,
        cpu_scheduler: mark.to_string(),
        font_size: FontSize::Medium,
        statistics_sections: StatisticsSections {
            rates: PollRates {
                cpu_poll_rate: 1,
                gpu_poll_rate: 2,
                memory_poll_rate: 3,
                fans_poll_rate: 4,
                battery_poll_rate: 5,
                wifi_poll_rate: 6,
                gamepad_poll_rate: 7,
                storage_poll_rate: 8,
                gpu_overclock_poll_rate: 9,
            },
            section_order: vec!["cpu".to_string()],
        },
        tuning_section_order: vec![],
        battery_settings: BatterySettings {
            control_enabled: false,
            charge_start_threshold: 40,
            charge_end_threshold: 80,
        },
        log_limit: 100,
        log_filter_trace: true,
        remembered_gamepads: vec![],
        profiles: vec![profile("a"), profile(mark)],
        current_profile: mark.to_string(),
    }
}

fn state() -> AppState<u8> {
    AppState::new(config("m"))
}

fn card(name: &str, range: Option<(u32, u32)>, limits: Option<(i32, i32)>) -> GpuInfo<u8> {
    GpuInfo {
        name: name.to_string(),
        status: String::new(),
        nvml_index: None,
        core_clock_range: range,
        core_offset_limits: limits,
        memory_offset_limits: None,
        reading: 0,
    }
}

#[test]
fn the_state_at_start() {
    let state = state();
    assert_eq!(state.current_page, Page::Statistics);
    assert_eq!(state.settings_tab, SettingsTab::Main);
    assert!(state.logs.log_paused);
    assert!(!state.logs.log_filter_trace);
    assert!(state.logs.log_filter_info);
    assert_eq!(state.keyboard_brush_color, [255, 255, 255]);
}

#[test]
fn readings_land_in_their_places() {
    let mut state = state();
    assert!(!state.handle_hardware_update(HardwareUpdate::CpuInfo(1)));
    assert!(!state.handle_hardware_update(HardwareUpdate::MemoryInfo(2)));
    assert!(!state.handle_hardware_update(HardwareUpdate::SystemInfo(3)));
    assert!(!state.handle_hardware_update(HardwareUpdate::BatteryInfo(4)));
    assert!(!state.handle_hardware_update(HardwareUpdate::WifiInfo(vec![5])));
    assert!(!state.handle_hardware_update(HardwareUpdate::StorageDeviceInfo(vec![6])));
    assert!(!state.handle_hardware_update(HardwareUpdate::MountInfo(vec![7])));
    assert!(!state.handle_hardware_update(HardwareUpdate::WebcamState(false)));
    assert!(!state.handle_hardware_update(HardwareUpdate::HardwareInterface("Clevo".to_string())));
    assert!(!state.handle_hardware_update(HardwareUpdate::KeyboardCapabilities(8)));
    assert!(!state.handle_hardware_update(HardwareUpdate::AvailableThresholds(vec![40], vec![80])));
    assert!(!state.handle_hardware_update(HardwareUpdate::TdpProfiles(vec!["quiet".to_string()])));
    assert!(!state.handle_hardware_update(HardwareUpdate::UpdateInfo("2".to_string(), "new".to_string())));
    let hw = &state.hardware;
    assert_eq!((hw.cpu_info, hw.memory_info, hw.system_info, hw.battery_info), (Some(1), Some(2), Some(3), Some(4)));
    assert_eq!((&hw.wifi_info[..], &hw.storage_device_info[..], &hw.mount_info[..]), (&[5][..], &[6][..], &[7][..]));
    assert_eq!(hw.webcam_enabled, Some(false));
    assert_eq!(hw.hardware_interface, Some("Clevo".to_string()));
    assert_eq!(hw.keyboard_capabilities, Some(8));
    assert_eq!(hw.available_end_thresholds, [80]);
    assert_eq!(hw.available_tdp_profiles, ["quiet"]);
    assert_eq!(state.new_version_available, Some("2".to_string()));
    state.view_update_details();
    assert_eq!((state.current_page, state.settings_tab), (Page::Settings, SettingsTab::About));
    state.dismiss_update();
    assert_eq!(state.new_version_available, None);
    assert_eq!(state.latest_changelog, Some("new".to_string()));
}

#[test]
fn ranges_are_filled_in_and_queried() {
    let mut state = state();
    state.handle_hardware_update(HardwareUpdate::GpuClockRanges(Err("no".to_string())));
    assert_eq!(state.ranges.gpu_clock_ranges_error, Some("no".to_string()));
    state.handle_hardware_update(HardwareUpdate::GpuInfo(vec![
        card("nvidia in small letters", Some((9, 9)), None),
        card("NVIDIA A", Some((1, 2)), None),
        card("NVIDIA B", Some((3, 4)), Some((5, 6))),
    ]));
    assert_eq!(state.ranges.gpu_clock_ranges, Some((1, 2)));
    assert_eq!(state.ranges.gpu_clock_ranges_error, None);
    assert_eq!(state.ranges.gpu_core_offset_limits, None);
    assert_eq!(state.hardware.gpu_info.len(), 3);
    state.handle_hardware_update(HardwareUpdate::GpuInfo(vec![card("NVIDIA A", Some((7, 8)), Some((5, 6)))]));
    assert_eq!(state.ranges.gpu_clock_ranges, Some((1, 2)));
    assert_eq!(state.ranges.gpu_core_offset_limits, Some((5, 6)));
    state.handle_hardware_update(HardwareUpdate::GpuCoreOffsetLimits(Err("x".to_string())));
    assert_eq!(state.ranges.gpu_core_offset_limits, Some((5, 6)));
    assert_eq!(state.ranges.gpu_core_offset_error, Some("x".to_string()));
    state.handle_hardware_update(HardwareUpdate::GpuMemOffsetLimits(Ok((-1, 1))));
    assert_eq!(state.ranges.gpu_mem_offset_limits, Some((-1, 1)));
}

fn entry(message: String) -> LogEntry {
    LogEntry { level: "INFO".to_string(), target: "t".to_string(), message, timestamp: String::new() }
}

#[test]
fn logs_are_shown_unless_paused() {
    let mut state = state();
    let logs = || (0..2003).map(|i: i32| entry(i.to_string())).collect::<Vec<_>>();
    state.handle_hardware_update(HardwareUpdate::DaemonLogs(logs()));
    assert!(state.logs.daemon_logs.is_empty());
    state.logs.log_paused = false;
    state.handle_hardware_update(HardwareUpdate::DaemonLogs(logs()));
    assert_eq!(state.logs.daemon_logs.len(), 2000);
    assert_eq!(state.logs.daemon_logs[0].message, "3");
    assert_eq!(state.logs.daemon_logs[1999].message, "2002");
}

#[test]
fn new_gamepads_are_remembered_and_saved() {
    let mut state = state();
    let pads = || {
        vec![GamepadInfo {
            name: "Pad".to_string(),
            id: "i".to_string(),
            uid: "u".to_string(),
            status: GamepadStatus::Connected,
            battery_level: None,
            connection_type: ConnectionType::Wired,
            power_status: PowerStatus::Unknown,
        }]
    };
    assert!(state.handle_hardware_update(HardwareUpdate::GamepadInfo(pads())));
    assert_eq!(state.config.remembered_gamepads.len(), 1);
    assert!(!state.handle_hardware_update(HardwareUpdate::GamepadInfo(pads())));
    assert_eq!(state.hardware.gamepad_info.len(), 1);
}

#[test]
fn the_selected_fan_exists() {
    let mut state = state();
    state.selected_fan_curve = 5;
    state.clamp_fan_selection();
    assert_eq!(state.selected_fan_curve, 0);
    let fan = |id| FanInfo { id, rpm_or_percent: 0, reading: 0u8 };
    state.handle_hardware_update(HardwareUpdate::FanInfo(vec![fan(0), fan(1)]));
    state.selected_fan_curve = 5;
    state.clamp_fan_selection();
    assert_eq!(state.selected_fan_curve, 1);
    state.selected_fan_curve = 0;
    state.clamp_fan_selection();
    assert_eq!(state.selected_fan_curve, 0);
}

#[test]
fn messages_stay_five_seconds() {
    let mut state = state();
    assert_eq!(state.save_settings(Ok(()), 1000), Ok(()));
    assert_eq!(state.status_message.as_ref().unwrap().text, "Settings saved");
    assert!(state.status_visible(5999));
    assert!(!state.status_visible(6000));
    assert!(state.status_message.is_none());
    assert_eq!(state.save_profiles(Err("full".to_string()), 0), Err("full".to_string()));
    assert!(state.status_message.is_none());
    assert_eq!(state.save_profiles(Ok(()), 0), Ok(()));
    assert_eq!(state.status_message.as_ref().unwrap().text, "Profiles saved");
    state.show_message("careful", true, 7);
    assert!(state.status_message.as_ref().unwrap().is_error);
}

#[test]
fn battery_answers() {
    let mut state = state();
    assert!(state.handle_battery_answer(BatteryPoll::Pending, 0));
    assert!(!state.handle_battery_answer(BatteryPoll::Done, 0));
    assert!(state.status_message.is_none());
    assert!(!state.handle_battery_answer(BatteryPoll::Failed("locked".to_string()), 3));
    assert_eq!(state.status_message.as_ref().unwrap().text, "Battery update failed: locked");
    assert!(!state.handle_battery_answer(BatteryPoll::Closed, 4));
    assert_eq!(state.status_message.as_ref().unwrap().text, "Battery update channel closed");
}

#[test]
fn the_active_profile() {
    let mut state = state();
    assert_eq!(state.current_profile_index(), Some(1));
    assert_eq!(state.current_profile().unwrap().name, "m");
    state.config.current_profile = "gone".to_string();
    assert_eq!(state.current_profile_index(), None);
    assert!(state.current_profile().is_none());
}

#[test]
fn tray_events() {
    let mut state = state();
    let mut quit = false;
    state.current_page = Page::Tuning;
    assert_eq!(state.handle_tray_event(TrayEvent::ShowWindow, &mut quit), TrayCommand::ShowWindow);
    assert_eq!(state.current_page, Page::Tuning);
    assert_eq!(state.handle_tray_event(TrayEvent::ShowStatistics, &mut quit), TrayCommand::ShowWindow);
    assert_eq!(state.current_page, Page::Statistics);
    assert_eq!(
        state.handle_tray_event(TrayEvent::SwitchProfile(0), &mut quit),
        TrayCommand::ApplyProfile(0)
    );
    assert_eq!(state.config.current_profile, "a");
    assert_eq!(state.handle_tray_event(TrayEvent::SwitchProfile(2), &mut quit), TrayCommand::Nothing);
    assert!(!quit);
    assert_eq!(state.handle_tray_event(TrayEvent::Quit, &mut quit), TrayCommand::Close);
    assert!(quit);
}

#[test]
fn the_tray_menu_follows_the_configuration() {
    let mut config = config("m");
    let mut menu = TrayMenu { profile: "m".to_string(), profiles_count: 2 };
    assert_eq!(menu.sync(&config), TraySync::Nothing);
    config.current_profile = "a".to_string();
    assert_eq!(menu.sync(&config), TraySync::Profile);
    assert_eq!(menu.sync(&config), TraySync::Nothing);
    config.profiles.push(profile("b"));
    config.current_profile = "b".to_string();
    assert_eq!(menu.sync(&config), TraySync::Profiles);
    assert_eq!(menu.sync(&config), TraySync::Nothing);
}

#[test]
fn frames_and_closing() {
    let mut frames = 2;
    assert!(begin_frame(&mut frames, false, true));
    assert!(!begin_frame(&mut frames, false, false));
    assert_eq!(frames, 0);
    assert!(!begin_frame(&mut frames, true, true));
    assert!(hides_on_close(true, true, false));
    assert!(!hides_on_close(true, true, true));
    assert!(!hides_on_close(true, false, false));
    assert!(!hides_on_close(false, true, false));
    assert!(theme_outdated(Theme::Auto, true, false));
    assert!(!theme_outdated(Theme::Auto, true, true));
    assert!(!theme_outdated(Theme::Dark, true, false));
}

#[test]
fn a_loaded_configuration_sets_the_log_filter() {
    let mut state = state();
    let order = || vec!["gpu".to_string(), "cpu".to_string()];
    state.load_config(Err("no file".to_string()), order());
    assert_eq!(state.config.cpu_scheduler, "m");
    assert_eq!(state.config.statistics_sections.section_order, ["cpu"]);
    assert!(!state.logs.log_filter_trace);
    state.load_config(Ok(config("other")), order());
    assert_eq!(state.config.cpu_scheduler, "other");
    assert_eq!(state.config.statistics_sections.section_order, ["gpu", "cpu"]);
    assert!(state.logs.log_filter_trace);
}

#[test]
fn saved_configurations_are_loaded() {
    let saved = config("saved");
    let settings = SettingsConfig::from_config(&saved);
    let profiles = ProfilesConfig::from_config(&saved);
    let (loaded, migrate) = load_config_from_disk(
        config("default"),
        FileState::Loaded(config("older")),
        FileState::Loaded(settings),
        FileState::Loaded(profiles),
        vec!["memory".to_string(), "cpu".to_string()],
    )
    .unwrap();
    assert!(!migrate);
    assert_eq!(loaded.cpu_scheduler, "saved");
    assert_eq!(loaded.current_profile, "saved");
    assert_eq!(loaded.profiles.len(), 2);
    assert_eq!(loaded.statistics_sections.section_order, ["memory", "cpu"]);
    assert!(!loaded.tray_enabled);
}

#[test]
fn the_section_order_comes_from_the_file_that_counts() {
    let ordered = |name: &str| {
        let mut made = config(name);
        made.statistics_sections.section_order = vec![name.to_string()];
        made
    };
    let default = ordered("default");
    let older = FileState::Loaded(ordered("older"));
    let own = FileState::Loaded(SettingsConfig::from_config(&ordered("own")));
    assert_eq!(section_order_to_use(&default, &older, &own), ["own"]);
    assert_eq!(section_order_to_use(&default, &older, &FileState::Missing), ["older"]);
    assert_eq!(
        section_order_to_use(&default, &FileState::Missing, &FileState::Missing),
        ["default"]
    );
}

#[test]
fn older_configurations_are_taken_over() {
    let (loaded, migrate) = load_config_from_disk(
        config("default"),
        FileState::Loaded(config("older")),
        FileState::Missing,
        FileState::Loaded(ProfilesConfig::from_config(&config("new"))),
        vec![],
    )
    .unwrap();
    assert!(migrate);
    assert_eq!(loaded.cpu_scheduler, "older");
    assert_eq!(loaded.current_profile, "new");
    let (loaded, migrate) = load_config_from_disk(
        config("default"),
        FileState::Missing,
        FileState::Missing,
        FileState::Missing,
        vec![],
    )
    .unwrap();
    assert!(!migrate);
    assert_eq!(loaded.cpu_scheduler, "default");
}

#[test]
fn broken_files_are_reported_in_order() {
    let broken = |reason: &str| reason.to_string();
    let result = load_config_from_disk(
        config("default"),
        FileState::Missing,
        FileState::Broken(broken("settings")),
        FileState::Broken(broken("profiles")),
        vec![],
    );
    assert_eq!(result.unwrap_err(), "settings");
    let result = load_config_from_disk(
        config("default"),
        FileState::Broken(broken("older")),
        FileState::Broken(broken("settings")),
        FileState::Missing,
        vec![],
    );
    assert_eq!(result.unwrap_err(), "older");
}

#[test]
fn starting_in_the_tray_needs_the_tray() {
    let mut minimized = config("x");
    minimized.start_minimized = true;
    let (loaded, _) = load_config_from_disk(
        config("default"),
        FileState::Missing,
        FileState::Loaded(SettingsConfig::from_config(&minimized)),
        FileState::Missing,
        vec![],
    )
    .unwrap();
    assert!(loaded.tray_enabled);
}

#[test]
fn paths_of_the_configuration() {
    assert_eq!(get_config_dir(false, None, Some("/home/u")), "/home/u/.config/lapsphere");
    assert_eq!(get_config_dir(false, Some("C:"), None), "./.config/lapsphere");
    assert_eq!(get_config_dir(true, Some("C:\\Users\\u"), None), "C:/Users/u/lapsphere");
    assert_eq!(get_crash_dir(true, None, None), "./lapsphere");
    let (settings, profiles, older) = config_paths("/c");
    assert_eq!((settings.as_str(), profiles.as_str(), older.as_str()), ("/c/settings.json", "/c/profiles.json", "/c/config.json"));
}

#[test]
fn the_autostart_entry() {
    let (dir, path, text) = autostart_file("/home/u", true);
    assert_eq!(dir, "/home/u/.config/autostart");
    assert_eq!(path, "/home/u/.config/autostart/io.lapsphere.LapSphere.desktop");
    assert!(text.starts_with("[Desktop Entry]\nType=Application\nName=LapSphere\n"));
    assert!(text.ends_with("X-GNOME-Autostart-enabled=true\n"));
    let (_, _, text) = autostart_file("/home/u", false);
    assert!(text.ends_with("X-GNOME-Autostart-enabled=false\nNoDisplay=true\nHidden=true\n"));
}
