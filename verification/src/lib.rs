//! Verified rules of a hardware control daemon for Clevo and Uniwill laptops
//! and of its desktop frontend.

pub mod text;
pub mod text_laws;
pub mod hw_gate;
pub mod gamepad_registry;
pub mod gamepad_laws;
pub mod access;
pub mod session_laws;
pub mod battery_control;
pub mod tuxedo_io;
pub mod device_laws;
pub mod cpu_control;
pub mod cpu_laws;
pub mod keyboard_control;
pub mod keyboard_laws;
pub mod screen_control;
pub mod fan_curve;
pub mod fan_laws;
pub mod hardware_control;
pub mod battery_laws;
pub mod control_laws;
pub mod single;
pub mod gpu_overclock;
pub mod overclock_laws;
pub mod profile;
pub mod profile_laws;
pub mod daemon_log;
pub mod hardware_cache;
pub mod config;
pub mod app_state;
pub mod update_check;
pub mod frontend;
pub mod daemon_args;
pub mod frontend_laws;
