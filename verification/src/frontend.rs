//! What the frontend asks the daemon for and when, and its texts and icon.

use crate::config::PollRates;
use crate::text::{join, join3, same};
use vstd::prelude::*;

verus! {

/// One question to the daemon.
#[derive(Clone, Copy, PartialEq, Eq, Structural, Debug)]
pub enum Query {
    Cpu,
    Gpu,
    Memory,
    Fans,
    Battery,
    Wifi,
    Gamepads,
    Storage,
    Mount,
    Webcam,
    Logs,
}

/// The question that a component of the frontend asks when it is refreshed.
pub open spec fn query_of(component: Seq<char>) -> Option<Query> {
    if component == "cpu"@ {
        Some(Query::Cpu)
    } else if component == "gpu"@ {
        Some(Query::Gpu)
    } else if component == "memory"@ {
        Some(Query::Memory)
    } else if component == "fans"@ {
        Some(Query::Fans)
    } else if component == "battery"@ {
        Some(Query::Battery)
    } else if component == "wifi"@ {
        Some(Query::Wifi)
    } else if component == "gamepads"@ {
        Some(Query::Gamepads)
    } else if component == "storage"@ {
        Some(Query::Storage)
    } else if component == "mount"@ {
        Some(Query::Mount)
    } else if component == "webcam"@ {
        Some(Query::Webcam)
    } else if component == "logs"@ {
        Some(Query::Logs)
    } else {
        None
    }
}

/// Finds the question that a component asks.
pub fn component_query(component: &str) -> (r: Option<Query>)
    ensures
        r == query_of(component@),
{
    if same(component, "cpu") {
        Some(Query::Cpu)
    } else if same(component, "gpu") {
        Some(Query::Gpu)
    } else if same(component, "memory") {
        Some(Query::Memory)
    } else if same(component, "fans") {
        Some(Query::Fans)
    } else if same(component, "battery") {
        Some(Query::Battery)
    } else if same(component, "wifi") {
        Some(Query::Wifi)
    } else if same(component, "gamepads") {
        Some(Query::Gamepads)
    } else if same(component, "storage") {
        Some(Query::Storage)
    } else if same(component, "mount") {
        Some(Query::Mount)
    } else if same(component, "webcam") {
        Some(Query::Webcam)
    } else if same(component, "logs") {
        Some(Query::Logs)
    } else {
        None
    }
}

/// The components that are refreshed and how often, in milliseconds.
pub open spec fn refreshed_components(rates: PollRates) -> Seq<(Seq<char>, u64)> {
    seq![
        ("cpu"@, rates.cpu_poll_rate),
        ("gpu"@, rates.gpu_poll_rate),
        ("memory"@, rates.memory_poll_rate),
        ("fans"@, rates.fans_poll_rate),
        ("battery"@, rates.battery_poll_rate),
        ("wifi"@, rates.wifi_poll_rate),
        ("gamepads"@, rates.gamepad_poll_rate),
        ("storage"@, rates.storage_poll_rate),
        ("mount"@, rates.storage_poll_rate),
        ("gpu_overclock"@, rates.gpu_overclock_poll_rate),
        ("webcam"@, 5000),
        ("logs"@, 5000),
    ]
}

/// Lists the components that are refreshed and how often.
pub fn component_schedule(rates: &PollRates) -> (r: Vec<(&'static str, u64)>)
    ensures
        r@.len() == refreshed_components(*rates).len(),
        forall|i: int|
            0 <= i < r@.len() ==> ((#[trigger] r@[i]).0@, r@[i].1) == refreshed_components(
                *rates,
            )[i],
{
    let list: Vec<(&'static str, u64)> = vec![
        ("cpu", rates.cpu_poll_rate),
        ("gpu", rates.gpu_poll_rate),
        ("memory", rates.memory_poll_rate),
        ("fans", rates.fans_poll_rate),
        ("battery", rates.battery_poll_rate),
        ("wifi", rates.wifi_poll_rate),
        ("gamepads", rates.gamepad_poll_rate),
        ("storage", rates.storage_poll_rate),
        ("mount", rates.storage_poll_rate),
        ("gpu_overclock", rates.gpu_overclock_poll_rate),
        ("webcam", 5000),
        ("logs", 5000),
    ];
    list
}

/// Whether the frontend starts hidden in the tray.
pub fn starts_in_tray(args: &Vec<String>, start_minimized: bool) -> (r: bool)
    ensures
        r == (crate::text::views(args@).contains("--tray"@) || start_minimized),
{
    crate::text::position(args, "--tray").is_some() || start_minimized
}

/// What came of asking for the name that only one frontend can own.
#[derive(Clone, Copy, PartialEq, Eq, Structural, Debug)]
pub enum NameRequest {
    /// There is no session bus.
    NoBus,
    /// The bus could not be asked.
    NoProxy,
    /// The name is owned now.
    Owned,
    /// Someone else owns it.
    Taken,
    /// The request failed.
    Refused,
}

/// Whether the frontend may start: not if another one runs or there is no bus.
pub fn may_start(request: NameRequest) -> (r: bool)
    ensures
        r == (request != NameRequest::Taken && request != NameRequest::NoBus),
{
    match request {
        NameRequest::Taken => false,
        NameRequest::NoBus => false,
        _ => true,
    }
}

/// The path of a crash report. The time stands in its name.
pub fn crash_file(crash_dir: &str, timestamp: &str) -> (r: String)
    ensures
        r@ == crash_dir@ + "/crash_"@ + timestamp@ + ".log"@,
{
    let r = join(join3(crash_dir, "/crash_", timestamp).as_str(), ".log");
    assert(r@ =~= crash_dir@ + "/crash_"@ + timestamp@ + ".log"@);
    r
}

/// The place of a panic as a report writes it.
pub open spec fn place_text(file: Seq<char>, line: nat) -> Seq<char> {
    " at "@ + file + ":"@ + crate::text::decimal(line)
}

/// The text of a crash report.
pub open spec fn report_text(
    time: Seq<char>,
    message: Seq<char>,
    place: Seq<char>,
    backtrace: Seq<char>,
) -> Seq<char> {
    "LapSphere GUI Crash Report\n==========================\nTime: "@ + time + "\nPanic: "@
        + message + place + "\n\nBacktrace:\n"@ + backtrace
}

/// Writes a crash report. The place is that of the panic, as far as it is known.
pub fn crash_report(
    time: &str,
    message: &str,
    place: Option<(&str, u32)>,
    backtrace: &str,
) -> (r: String)
    ensures
        r@ == report_text(
            time@,
            message@,
            match place {
                Some((file, line)) => place_text(file@, line as nat),
                None => ""@,
            },
            backtrace@,
        ),
{
    let location = match place {
        Some((file, line)) => {
            let number = crate::text::decimal_of(line as u64);
            let mut text = " at ".to_string();
            text.append(file);
            text.append(":");
            text.append(number.as_str());
            text
        },
        None => "".to_string(),
    };
    let mut report = "LapSphere GUI Crash Report\n==========================\nTime: ".to_string();
    report.append(time);
    report.append("\nPanic: ");
    report.append(message);
    report.append(location.as_str());
    report.append("\n\nBacktrace:\n");
    report.append(backtrace);
    report
}

/// The colour of a pixel of the icon: a green letter L on a dark ground.
pub open spec fn icon_pixel(x: int, y: int) -> Seq<u8> {
    if (10 <= x <= 14 && 6 <= y <= 26) || (10 <= x <= 22 && 22 <= y <= 26) {
        seq![0u8, 255, 0, 255]
    } else {
        seq![26u8, 26, 26, 255]
    }
}

/// Draws the icon: its pixels line by line, each as red, green, blue and
/// opacity, and its width and height.
pub fn load_icon() -> (r: (Vec<u8>, u32, u32))
    ensures
        r.1 == 32,
        r.2 == 32,
        r.0@.len() == 4 * 32 * 32,
        forall|x: int, y: int, c: int|
            0 <= x < 32 && 0 <= y < 32 && 0 <= c < 4 ==> #[trigger] r.0@[(y * 32 + x) * 4 + c]
                == #[trigger] icon_pixel(x, y)[c],
{
    let mut rgba: Vec<u8> = Vec::new();
    let mut k: u32 = 0;
    while k < 1024
        invariant
            k <= 1024,
            rgba@.len() == 4 * k,
            forall|i: int|
                0 <= i < rgba@.len() ==> #[trigger] rgba@[i] == icon_pixel(
                    (i / 4) % 32,
                    (i / 4) / 32,
                )[i % 4],
        decreases 1024 - k,
    {
        let x = k % 32;
        let y = k / 32;
        let vertical = x >= 10 && x <= 14 && y >= 6 && y <= 26;
        let horizontal = x >= 10 && x <= 22 && y >= 22 && y <= 26;
        if vertical || horizontal {
            rgba.push(0);
            rgba.push(255);
            rgba.push(0);
        } else {
            rgba.push(26);
            rgba.push(26);
            rgba.push(26);
        }
        rgba.push(255);
        k = k + 1;
    }
    assert forall|x: int, y: int, c: int|
        0 <= x < 32 && 0 <= y < 32 && 0 <= c < 4 implies #[trigger] rgba@[(y * 32 + x) * 4 + c]
        == #[trigger] icon_pixel(x, y)[c] by {
        let i = (y * 32 + x) * 4 + c;
        assert(i / 4 == y * 32 + x);
        assert(i % 4 == c);
        assert((i / 4) % 32 == x);
        assert((i / 4) / 32 == y);
    }
    (rgba, 32, 32)
}

} // verus!
