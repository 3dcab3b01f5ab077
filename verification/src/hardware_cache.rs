//! The values that were last read from the hardware.
//!
//! Most of a reading is only shown. What the logic looks at is held in fields
//! of its own; the rest is a value of some type `R`.

use crate::gpu_overclock::{find_nvidia, nvidia_place};
use crate::text::{join, views};
use vstd::prelude::*;

verus! {

/// A graphics card.
#[derive(Debug)]
pub struct GpuInfo<R> {
    pub name: String,
    pub status: String,
    /// Its index in the driver's list of NVIDIA cards.
    pub nvml_index: Option<u32>,
    pub core_clock_range: Option<(u32, u32)>,
    pub core_offset_limits: Option<(i32, i32)>,
    pub memory_offset_limits: Option<(i32, i32)>,
    pub reading: R,
}

/// A fan.
#[derive(Debug)]
pub struct FanInfo<R> {
    pub id: u32,
    pub rpm_or_percent: u32,
    pub reading: R,
}

/// The values that were last read.
#[derive(Debug)]
pub struct HardwareCache<R> {
    pub cpu_info: Option<R>,
    pub memory_info: Option<R>,
    pub gpu_info: Vec<GpuInfo<R>>,
    pub battery_info: Option<R>,
    pub fan_info: Vec<FanInfo<R>>,
    pub wifi_info: Vec<R>,
    pub gamepad_info: Vec<R>,
    pub storage_device_info: Vec<R>,
    pub mount_info: Vec<R>,
    pub system_info: Option<R>,
}

/// What was read in one go; each part can fail.
#[derive(Debug)]
pub struct Readings<R> {
    pub cpu_info: Result<R, String>,
    pub memory_info: Result<R, String>,
    pub gpu_info: Result<Vec<GpuInfo<R>>, String>,
    pub battery_info: Result<R, String>,
    pub fan_info: Result<Vec<FanInfo<R>>, String>,
    pub wifi_info: Result<Vec<R>, String>,
    pub gamepad_info: Result<Vec<R>, String>,
    pub storage_device_info: Result<Vec<R>, String>,
    pub mount_info: Result<Vec<R>, String>,
    pub system_info: Result<R, String>,
}

/// The value, if it was read.
pub open spec fn value_of<T>(reading: Result<T, String>) -> Option<T> {
    match reading {
        Ok(value) => Some(value),
        Err(_) => None,
    }
}

/// The list, or an empty one if it was not read.
pub open spec fn list_of<T>(reading: Result<Vec<T>, String>) -> Seq<T> {
    match reading {
        Ok(list) => list@,
        Err(_) => Seq::empty(),
    }
}

fn keep<T>(reading: Result<T, String>) -> (r: Option<T>)
    ensures
        r == value_of(reading),
{
    match reading {
        Ok(value) => Some(value),
        Err(_) => None,
    }
}

fn keep_list<T>(reading: Result<Vec<T>, String>) -> (r: Vec<T>)
    ensures
        r@ == list_of(reading),
{
    match reading {
        Ok(list) => list,
        Err(_) => Vec::new(),
    }
}

impl<R> HardwareCache<R> {
    /// A cache without any value.
    pub fn new() -> (r: HardwareCache<R>)
        ensures
            r.cpu_info is None,
            r.memory_info is None,
            r.gpu_info@ == Seq::<GpuInfo<R>>::empty(),
            r.battery_info is None,
            r.fan_info@ == Seq::<FanInfo<R>>::empty(),
            r.wifi_info@ == Seq::<R>::empty(),
            r.gamepad_info@ == Seq::<R>::empty(),
            r.storage_device_info@ == Seq::<R>::empty(),
            r.mount_info@ == Seq::<R>::empty(),
            r.system_info is None,
    {
        HardwareCache {
            cpu_info: None,
            memory_info: None,
            gpu_info: Vec::new(),
            battery_info: None,
            fan_info: Vec::new(),
            wifi_info: Vec::new(),
            gamepad_info: Vec::new(),
            storage_device_info: Vec::new(),
            mount_info: Vec::new(),
            system_info: None,
        }
    }
}

/// Replaces all values by what was read anew. What could not be read is gone.
pub fn refresh_hardware_cache<R>(cache: &mut HardwareCache<R>, readings: Readings<R>)
    ensures
        final(cache).cpu_info == value_of(readings.cpu_info),
        final(cache).memory_info == value_of(readings.memory_info),
        final(cache).gpu_info@ == list_of(readings.gpu_info),
        final(cache).battery_info == value_of(readings.battery_info),
        final(cache).fan_info@ == list_of(readings.fan_info),
        final(cache).wifi_info@ == list_of(readings.wifi_info),
        final(cache).gamepad_info@ == list_of(readings.gamepad_info),
        final(cache).storage_device_info@ == list_of(readings.storage_device_info),
        final(cache).mount_info@ == list_of(readings.mount_info),
        final(cache).system_info == value_of(readings.system_info),
{
    cache.cpu_info = keep(readings.cpu_info);
    cache.memory_info = keep(readings.memory_info);
    cache.gpu_info = keep_list(readings.gpu_info);
    cache.battery_info = keep(readings.battery_info);
    cache.fan_info = keep_list(readings.fan_info);
    cache.wifi_info = keep_list(readings.wifi_info);
    cache.gamepad_info = keep_list(readings.gamepad_info);
    cache.storage_device_info = keep_list(readings.storage_device_info);
    cache.mount_info = keep_list(readings.mount_info);
    cache.system_info = keep(readings.system_info);
}

/// The value, or the message that there is none.
pub fn available<'a, R>(value: &'a Option<R>, what: &str) -> (r: Result<&'a R, String>)
    ensures
        match r {
            Ok(reading) => *value == Some(*reading),
            Err(message) => value is None && message@ == what@ + " info not available"@,
        },
{
    match value {
        Some(reading) => Ok(reading),
        None => Err(join(what, " info not available")),
    }
}

/// The speed of each fan, with its id.
pub open spec fn speeds_of<R>(fans: Seq<FanInfo<R>>) -> Seq<(u32, u32)> {
    fans.map_values(|f: FanInfo<R>| (f.id, f.rpm_or_percent))
}

/// Lists the speeds of the fans.
pub fn get_fan_speeds<R>(fans: &Vec<FanInfo<R>>) -> (r: Vec<(u32, u32)>)
    ensures
        r@ == speeds_of(fans@),
{
    let mut out: Vec<(u32, u32)> = Vec::new();
    let mut i: usize = 0;
    while i < fans.len()
        invariant
            i <= fans@.len(),
            out@.len() == i,
            forall|k: int|
                0 <= k < i ==> #[trigger] out@[k] == (fans@[k].id, fans@[k].rpm_or_percent),
        decreases fans@.len() - i,
    {
        out.push((fans[i].id, fans[i].rpm_or_percent));
        i = i + 1;
    }
    assert(out@ =~= speeds_of(fans@));
    out
}

/// The names of the cards.
pub open spec fn card_names<R>(gpus: Seq<GpuInfo<R>>) -> Seq<Seq<char>> {
    gpus.map_values(|g: GpuInfo<R>| g.name@)
}

/// Lists the names of the cards.
pub fn names_of_cards<R>(gpus: &Vec<GpuInfo<R>>) -> (r: Vec<String>)
    ensures
        views(r@) == card_names(gpus@),
{
    let mut names: Vec<String> = Vec::new();
    let mut i: usize = 0;
    while i < gpus.len()
        invariant
            i <= gpus@.len(),
            names@.len() == i,
            forall|k: int| 0 <= k < i ==> (#[trigger] names@[k])@ == gpus@[k].name@,
        decreases gpus@.len() - i,
    {
        names.push(gpus[i].name.clone());
        i = i + 1;
    }
    assert(views(names@) =~= card_names(gpus@));
    names
}

/// The index of the first NVIDIA card in the driver's list: zero if there is no
/// such card or its index is not known.
pub fn nvidia_index<R>(gpus: &Vec<GpuInfo<R>>) -> (r: u32)
    ensures
        r == (match nvidia_place(card_names(gpus@)) {
            Some(i) => match gpus@[i].nvml_index {
                Some(index) => index,
                None => 0,
            },
            None => 0,
        }),
{
    match find_nvidia(&names_of_cards(gpus)) {
        Some(i) => match gpus[i].nvml_index {
            Some(index) => index,
            None => 0,
        },
        None => 0,
    }
}

} // verus!
