//! The control device of the laptop drivers: request codes, detection of the
//! hardware interface, fans, power limits, performance profiles, webcam and
//! keyboard.

use crate::access::{Act, Action, Ioctl, Move, Reply, Step};
use crate::text::{decimal, decimal_of, join, join3, numeral, numeral_of};
use vstd::prelude::*;
use vstd::slice::slice_subrange;

verus! {

pub const TUXEDO_IO_DEVICE: &'static str = "/dev/tuxedo_io";

pub const IOCTL_MAGIC: u8 = 0xEC;

pub const MAGIC_READ_CL: u8 = 0xED;

pub const MAGIC_WRITE_CL: u8 = 0xEE;

pub const MAGIC_READ_UW: u8 = 0xEF;

pub const MAGIC_WRITE_UW: u8 = 0xF0;

/// The size of a pointer, which the requests with data carry.
pub const PTR_SIZE: u64 = 8;

#[derive(Clone, Copy, PartialEq, Eq, Structural, Debug)]
pub enum HardwareInterface {
    Clevo,
    Uniwill,
    Absent,
}

impl View for HardwareInterface {
    type V = HardwareInterface;

    open spec fn view(&self) -> HardwareInterface {
        *self
    }
}

impl DeepView for HardwareInterface {
    type V = HardwareInterface;

    open spec fn deep_view(&self) -> HardwareInterface {
        *self
    }
}

/// The control device: which interface answers on it, and for how many fans.
#[derive(Clone, Copy, Debug)]
pub struct TuxedoIo {
    pub interface: HardwareInterface,
    pub fan_count: u32,
}

impl View for TuxedoIo {
    type V = TuxedoIo;

    open spec fn view(&self) -> TuxedoIo {
        *self
    }
}

impl DeepView for TuxedoIo {
    type V = TuxedoIo;

    open spec fn deep_view(&self) -> TuxedoIo {
        *self
    }
}

/// A request code: two bits of direction, fourteen of size, eight of type and
/// eight of number.
pub open spec fn request_code(direction: u64, type_: u8, nr: u8, size: u64) -> u64 {
    (direction << 30) | (size << 16) | ((type_ as u64) << 8) | (nr as u64)
}

/// The code of a request that reads.
pub open spec fn read_code(type_: u8, nr: int) -> u64 {
    request_code(2, type_, nr as u8, PTR_SIZE)
}

/// The code of a request that writes.
pub open spec fn write_code(type_: u8, nr: int) -> u64 {
    request_code(1, type_, nr as u8, PTR_SIZE)
}

/// The fields of a request code can be read back from it, so that two requests
/// that differ in a field have different codes.
pub proof fn law_request_fields(direction: u64, type_: u8, nr: u8, size: u64)
    requires
        direction < 4,
        size < 0x4000,
    ensures
        request_code(direction, type_, nr, size) >> 30 == direction,
        (request_code(direction, type_, nr, size) >> 16) & 0x3fff == size,
        (request_code(direction, type_, nr, size) >> 8) & 0xff == type_,
        request_code(direction, type_, nr, size) & 0xff == nr,
{
    assert(((direction << 30) | (size << 16) | ((type_ as u64) << 8) | (nr as u64)) >> 30
        == direction && ((((direction << 30) | (size << 16) | ((type_ as u64) << 8) | (nr as u64))
        >> 16) & 0x3fff) == size && ((((direction << 30) | (size << 16) | ((type_ as u64) << 8) | (
    nr as u64)) >> 8) & 0xff) == type_ as u64 && (((direction << 30) | (size << 16) | ((
    type_ as u64) << 8) | (nr as u64)) & 0xff) == nr as u64) by (bit_vector)
        requires
            direction < 4,
            size < 0x4000,
    ;
}

/// What is said of a read request that failed.
pub open spec fn read_fault(request: u64, reason: Seq<char>) -> Seq<char> {
    "ioctl read failed (req=0x"@ + numeral(request as nat, 16) + "): "@ + reason
}

/// What is said of a write request that failed.
pub open spec fn write_fault(request: u64, reason: Seq<char>) -> Seq<char> {
    "ioctl write failed (req=0x"@ + numeral(request as nat, 16) + "): "@ + reason
}

/// The outcome of a read request.
pub open spec fn read_outcome(request: u64, reply: Reply) -> Result<i32, Seq<char>> {
    match reply.as_value() {
        Ok(value) => Ok(value),
        Err(reason) => Err(read_fault(request, reason)),
    }
}

/// The outcome of a write request.
pub open spec fn write_outcome(request: u64, reply: Reply) -> Result<(), Seq<char>> {
    match reply.fault() {
        None => Ok(()),
        Some(reason) => Err(write_fault(request, reason)),
    }
}

/// A session that consists of one read request.
pub open spec fn one_read(request: u64, replies: Seq<Reply>) -> Move<i32> {
    if replies.len() == 0 {
        Move::Do(Act::Control(Ioctl::Read(request)))
    } else {
        Move::Done(read_outcome(request, replies[0]))
    }
}

/// A session that consists of one request that writes.
pub open spec fn one_write(request: u64, access: Ioctl, replies: Seq<Reply>) -> Move<()> {
    if replies.len() == 0 {
        Move::Do(Act::Control(access))
    } else {
        Move::Done(write_outcome(request, replies[0]))
    }
}

fn code(direction: u64, type_: u8, nr: u8, size: u64) -> (r: u64)
    requires
        direction < 4,
    ensures
        r == request_code(direction, type_, nr, size),
{
    (direction << 30) | (size << 16) | ((type_ as u64) << 8) | (nr as u64)
}

fn failed_request(prefix: &str, request: u64, reason: &str) -> (r: String)
    ensures
        r@ == prefix@ + numeral(request as nat, 16) + "): "@ + reason@,
{
    let head = join3(prefix, numeral_of(request, 16).as_str(), "): ");
    join(head.as_str(), reason)
}

fn finish_read(request: u64, reply: &Reply) -> (r: Result<i32, String>)
    ensures
        match r {
            Ok(v) => read_outcome(request, *reply) == Ok::<i32, Seq<char>>(v),
            Err(e) => read_outcome(request, *reply) == Err::<i32, Seq<char>>(e@),
        },
{
    match reply.value() {
        Ok(value) => Ok(value),
        Err(reason) => Err(
            failed_request("ioctl read failed (req=0x", request, reason.as_str()),
        ),
    }
}

fn finish_write(request: u64, reply: &Reply) -> (r: Result<(), String>)
    ensures
        match r {
            Ok(_) => write_outcome(request, *reply) == Ok::<(), Seq<char>>(()),
            Err(e) => write_outcome(request, *reply) == Err::<(), Seq<char>>(e@),
        },
{
    match reply.failure() {
        None => Ok(()),
        Some(reason) => Err(
            failed_request("ioctl write failed (req=0x", request, reason.as_str()),
        ),
    }
}

fn take_read(request: u64, replies: &[Reply]) -> (r: Step<i32>)
    ensures
        r@ == one_read(request, replies@),
{
    if replies.len() == 0 {
        Step::Do(Action::Control(Ioctl::Read(request)))
    } else {
        Step::Done(finish_read(request, &replies[0]))
    }
}

fn take_write(request: u64, access: Ioctl, replies: &[Reply]) -> (r: Step<()>)
    ensures
        r@ == one_write(request, access, replies@),
{
    if replies.len() == 0 {
        Step::Do(Action::Control(access))
    } else {
        Step::Done(finish_write(request, &replies[0]))
    }
}

fn numbered(prefix: &str, n: u32) -> (r: String)
    ensures
        r@ == prefix@ + decimal(n as nat),
{
    join(prefix, decimal_of(n as u64).as_str())
}

/// The duty of a fan that Clevo firmware reports, a fraction of 255, as a
/// percentage.
pub open spec fn raw_to_percent(raw: nat) -> nat {
    (raw * 100 + 127) / 255
}

/// A percentage as Clevo firmware takes it; above one hundred it counts as one
/// hundred.
pub open spec fn percent_to_raw(percent: nat) -> nat {
    let p = if percent > 100 {
        100
    } else {
        percent
    };
    (p * 255 + 50) / 100
}

/// A percentage survives the way to the firmware and back.
pub proof fn law_percent_round_trip(percent: nat)
    requires
        percent <= 100,
    ensures
        percent_to_raw(percent) <= 255,
        raw_to_percent(percent_to_raw(percent)) == percent,
{
}

/// The second temperature in a Clevo fan report, by which a fan is known to
/// exist.
pub open spec fn second_temperature(report: i32) -> i32 {
    (report >> 16) & 0xff
}

/// The duty in a Clevo fan report.
pub open spec fn duty(report: i32) -> i32 {
    report & 0xff
}

pub proof fn lemma_report_bytes(report: i32)
    ensures
        0 <= second_temperature(report) <= 255,
        0 <= duty(report) <= 255,
{
    assert(0 <= ((report >> 16) & 0xffi32) && ((report >> 16) & 0xffi32) <= 255) by (bit_vector);
    assert(0 <= (report & 0xffi32) && (report & 0xffi32) <= 255) by (bit_vector);
}

/// Whether the reply is a Clevo report of a fan that exists.
pub open spec fn reports_fan(reply: Reply) -> bool {
    reply.as_value() matches Ok(report) && second_temperature(report) > 1
}

/// The detection of the interface: the two hardware checks first; if neither
/// says 1, the interface whose fan can be read.
pub open spec fn interface_move(replies: Seq<Reply>) -> Move<HardwareInterface> {
    if replies.len() == 0 {
        Move::Do(Act::Control(Ioctl::Read(read_code(IOCTL_MAGIC, 0x05))))
    } else if replies.len() == 1 {
        Move::Do(Act::Control(Ioctl::Read(read_code(IOCTL_MAGIC, 0x06))))
    } else if replies[0].as_value() == Ok::<i32, Seq<char>>(1) {
        Move::Done(Ok(HardwareInterface::Clevo))
    } else if replies[1].as_value() == Ok::<i32, Seq<char>>(1) {
        Move::Done(Ok(HardwareInterface::Uniwill))
    } else if replies.len() == 2 {
        Move::Do(Act::Control(Ioctl::Read(read_code(MAGIC_READ_CL, 0x10))))
    } else if replies[2].as_value() is Ok {
        Move::Done(Ok(HardwareInterface::Clevo))
    } else if replies.len() == 3 {
        Move::Do(Act::Control(Ioctl::Read(read_code(MAGIC_READ_UW, 0x10))))
    } else if replies[3].as_value() is Ok {
        Move::Done(Ok(HardwareInterface::Uniwill))
    } else {
        Move::Done(Ok(HardwareInterface::Absent))
    }
}

/// How many replies the detection of the interface takes.
pub open spec fn interface_replies(replies: Seq<Reply>) -> int {
    if replies[0].as_value() == Ok::<i32, Seq<char>>(1) || replies[1].as_value() == Ok::<
        i32,
        Seq<char>,
    >(1) {
        2
    } else if replies[2].as_value() is Ok {
        3
    } else {
        4
    }
}

/// Counting Clevo fans from `n` on: up to the first of three that does not
/// report.
pub open spec fn clevo_fans(n: nat, replies: Seq<Reply>) -> Move<u32>
    decreases 3 - n,
{
    if n >= 3 {
        Move::Done(Ok(3))
    } else if replies.len() == 0 {
        Move::Do(Act::Control(Ioctl::Read(read_code(MAGIC_READ_CL, 0x10 + n as int))))
    } else if reports_fan(replies[0]) {
        clevo_fans(n + 1, replies.drop_first())
    } else {
        Move::Done(Ok(n as u32))
    }
}

/// Counting the fans of an interface.
pub open spec fn fan_count_move(interface: HardwareInterface, replies: Seq<Reply>) -> Move<u32> {
    match interface {
        HardwareInterface::Clevo => clevo_fans(0, replies),
        HardwareInterface::Uniwill => if replies.len() == 0 {
            Move::Do(Act::Control(Ioctl::Read(read_code(MAGIC_READ_UW, 0x10))))
        } else if replies[0].as_value() is Err {
            Move::Done(Ok(0))
        } else if replies.len() == 1 {
            Move::Do(Act::Control(Ioctl::Read(read_code(MAGIC_READ_UW, 0x11))))
        } else if replies[1].as_value() is Ok {
            Move::Done(Ok(2))
        } else {
            Move::Done(Ok(1))
        },
        HardwareInterface::Absent => Move::Done(Ok(0)),
    }
}

/// Opening the device: the interface is detected, then its fans are counted.
pub open spec fn open_move(replies: Seq<Reply>) -> Move<TuxedoIo> {
    match interface_move(replies) {
        Move::Do(action) => Move::Do(action),
        Move::Done(Err(message)) => Move::Done(Err(message)),
        Move::Done(Ok(interface)) => match fan_count_move(
            interface,
            replies.skip(interface_replies(replies)),
        ) {
            Move::Do(action) => Move::Do(action),
            Move::Done(Ok(fan_count)) => Move::Done(Ok(TuxedoIo { interface, fan_count })),
            Move::Done(Err(message)) => Move::Done(Err(message)),
        },
    }
}

/// The speed of a fan: a percentage on Clevo, the value as it is on Uniwill.
pub open spec fn fan_speed_move(io: TuxedoIo, fan_id: u32, replies: Seq<Reply>) -> Move<u32> {
    match io.interface {
        HardwareInterface::Clevo => if fan_id >= 3 {
            Move::Done(Err("Invalid Clevo fan ID: "@ + decimal(fan_id as nat)))
        } else {
            match one_read(read_code(MAGIC_READ_CL, 0x10 + fan_id), replies) {
                Move::Do(action) => Move::Do(action),
                Move::Done(Ok(report)) => Move::Done(
                    Ok(raw_to_percent(duty(report) as nat) as u32),
                ),
                Move::Done(Err(message)) => Move::Done(Err(message)),
            }
        },
        HardwareInterface::Uniwill => if fan_id >= 2 {
            Move::Done(Err("Invalid Uniwill fan ID: "@ + decimal(fan_id as nat)))
        } else {
            match one_read(read_code(MAGIC_READ_UW, 0x10 + fan_id), replies) {
                Move::Do(action) => Move::Do(action),
                Move::Done(Ok(value)) => Move::Done(Ok(value as u32)),
                Move::Done(Err(message)) => Move::Done(Err(message)),
            }
        },
        HardwareInterface::Absent => Move::Done(Err("No hardware interface"@)),
    }
}

/// The temperature at a fan.
pub open spec fn fan_temperature_move(io: TuxedoIo, fan_id: u32, replies: Seq<Reply>) -> Move<u32> {
    match io.interface {
        HardwareInterface::Clevo => if fan_id >= 3 {
            Move::Done(Err("Invalid Clevo fan ID: "@ + decimal(fan_id as nat)))
        } else {
            match one_read(read_code(MAGIC_READ_CL, 0x10 + fan_id), replies) {
                Move::Do(action) => Move::Do(action),
                Move::Done(Ok(report)) => if second_temperature(report) <= 1 {
                    Move::Done(Err("Fan "@ + decimal(fan_id as nat) + " not available"@))
                } else {
                    Move::Done(Ok(second_temperature(report) as u32))
                },
                Move::Done(Err(message)) => Move::Done(Err(message)),
            }
        },
        HardwareInterface::Uniwill => if fan_id >= 2 {
            Move::Done(Err("Invalid Uniwill fan ID: "@ + decimal(fan_id as nat)))
        } else {
            match one_read(read_code(MAGIC_READ_UW, 0x12 + fan_id), replies) {
                Move::Do(action) => Move::Do(action),
                Move::Done(Ok(value)) => if value <= 0 {
                    Move::Done(Err("Fan "@ + decimal(fan_id as nat) + " not available"@))
                } else {
                    Move::Done(Ok(value as u32))
                },
                Move::Done(Err(message)) => Move::Done(Err(message)),
            }
        },
        HardwareInterface::Absent => Move::Done(Err("No hardware interface"@)),
    }
}

pub open spec fn min_of(a: nat, b: nat) -> nat {
    if a < b {
        a
    } else {
        b
    }
}

/// The raw duty to send for fan `i` when fan `fan_id` is set: the other fans
/// keep what they reported, and zero where they did not report.
pub open spec fn duty_to_send(
    reports: Seq<Reply>,
    fan_id: u32,
    speed_percent: u32,
    i: int,
) -> nat {
    if i == fan_id {
        percent_to_raw(speed_percent as nat)
    } else if 0 <= i < reports.len() {
        match reports[i].as_value() {
            Ok(report) => duty(report) as nat,
            Err(_) => 0,
        }
    } else {
        0
    }
}

/// The duties of all three fans in one value.
pub open spec fn packed_duties(reports: Seq<Reply>, fan_id: u32, speed_percent: u32) -> i32 {
    (duty_to_send(reports, fan_id, speed_percent, 0) + 256 * duty_to_send(
        reports,
        fan_id,
        speed_percent,
        1,
    ) + 65536 * duty_to_send(reports, fan_id, speed_percent, 2)) as i32
}

/// The request that switches the automatic fan control of Clevo firmware.
pub open spec fn clevo_auto_code() -> u64 {
    write_code(MAGIC_WRITE_CL, 0x11)
}

/// Setting a Clevo fan once manual control is on: all fans are read, and one
/// value with the duties of all is written.
pub open spec fn clevo_duty_move(
    fan_count: u32,
    fan_id: u32,
    speed_percent: u32,
    replies: Seq<Reply>,
) -> Move<()> {
    let n = min_of(fan_count as nat, 3) as int;
    if replies.len() < n {
        Move::Do(Act::Control(Ioctl::Read(read_code(MAGIC_READ_CL, 0x10 + replies.len() as int))))
    } else if fan_id >= 3 {
        Move::Done(Err("Invalid Clevo fan ID: "@ + decimal(fan_id as nat)))
    } else {
        one_write(
            write_code(MAGIC_WRITE_CL, 0x10),
            Ioctl::Write(
                write_code(MAGIC_WRITE_CL, 0x10),
                packed_duties(replies.take(n), fan_id, speed_percent),
            ),
            replies.skip(n),
        )
    }
}

/// Setting the speed of a fan. On Clevo the automatic control is switched off
/// first unless that has been done.
pub open spec fn set_fan_move(
    io: TuxedoIo,
    manual: bool,
    fan_id: u32,
    speed_percent: u32,
    replies: Seq<Reply>,
) -> Move<()> {
    match io.interface {
        HardwareInterface::Clevo => if manual {
            clevo_duty_move(io.fan_count, fan_id, speed_percent, replies)
        } else {
            match one_write(clevo_auto_code(), Ioctl::Write(clevo_auto_code(), 0), replies) {
                Move::Done(Ok(_)) => clevo_duty_move(
                    io.fan_count,
                    fan_id,
                    speed_percent,
                    replies.drop_first(),
                ),
                other => other,
            }
        },
        HardwareInterface::Uniwill => if fan_id >= 2 {
            Move::Done(Err("Invalid Uniwill fan ID: "@ + decimal(fan_id as nat)))
        } else {
            one_write(
                write_code(MAGIC_WRITE_UW, 0x10 + fan_id),
                Ioctl::Write(
                    write_code(MAGIC_WRITE_UW, 0x10 + fan_id),
                    min_of(speed_percent as nat, 200) as i32,
                ),
                replies,
            )
        },
        HardwareInterface::Absent => Move::Done(Err("No hardware interface"@)),
    }
}

/// Handing the fans back to the firmware.
pub open spec fn fan_auto_move(io: TuxedoIo, replies: Seq<Reply>) -> Move<()> {
    match io.interface {
        HardwareInterface::Clevo => one_write(
            clevo_auto_code(),
            Ioctl::Write(clevo_auto_code(), 0xF),
            replies,
        ),
        HardwareInterface::Uniwill => one_write(
            request_code(0, MAGIC_WRITE_UW, 0x14, 0),
            Ioctl::Command(request_code(0, MAGIC_WRITE_UW, 0x14, 0), 1),
            replies,
        ),
        HardwareInterface::Absent => Move::Done(Err("No hardware interface"@)),
    }
}

/// Whether Clevo fans are under manual control after an access: the request
/// that switches the automatic control decides, if it succeeds.
pub open spec fn manual_after(manual: bool, action: Act, reply: Reply) -> bool {
    if reply.fault() is Some {
        manual
    } else if action == Act::Control(Ioctl::Write(clevo_auto_code(), 0)) {
        true
    } else if action == Act::Control(Ioctl::Write(clevo_auto_code(), 0xF)) {
        false
    } else {
        manual
    }
}

/// Reading one of the power limits of Uniwill firmware.
pub open spec fn tdp_read_move(io: TuxedoIo, nr: int, replies: Seq<Reply>) -> Move<u32> {
    if io.interface != HardwareInterface::Uniwill {
        Move::Done(Err("TDP control only available on Uniwill interface"@))
    } else {
        match one_read(read_code(MAGIC_READ_UW, nr), replies) {
            Move::Do(action) => Move::Do(action),
            Move::Done(Ok(value)) => Move::Done(Ok(value as u32)),
            Move::Done(Err(message)) => Move::Done(Err(message)),
        }
    }
}

/// Writing one of the power limits of Uniwill firmware.
pub open spec fn tdp_write_move(io: TuxedoIo, nr: int, value: u32, replies: Seq<Reply>) -> Move<
    (),
> {
    if io.interface != HardwareInterface::Uniwill {
        Move::Done(Err("TDP control only available on Uniwill interface"@))
    } else {
        one_write(
            write_code(MAGIC_WRITE_UW, nr),
            Ioctl::Write(write_code(MAGIC_WRITE_UW, nr), value as i32),
            replies,
        )
    }
}

/// The performance profile that Uniwill firmware reports: 1 for power saving,
/// 2 for enthusiast, 3 for overboost; 2 for any other report.
pub open spec fn uw_profile(mode: u32) -> u32 {
    if mode & 0xa0 == 0xa0 && mode & 0x10 == 0 {
        1
    } else if mode & 0xa0 == 0 && mode & 0x10 != 0 {
        3
    } else {
        2
    }
}

/// Reading the performance profile of Uniwill firmware.
pub open spec fn uw_profile_move(io: TuxedoIo, replies: Seq<Reply>) -> Move<u32> {
    if io.interface != HardwareInterface::Uniwill {
        Move::Done(Err("Uniwill performance profile only available on Uniwill interface"@))
    } else {
        match one_read(read_code(MAGIC_READ_UW, 0x14), replies) {
            Move::Do(action) => Move::Do(action),
            Move::Done(Ok(value)) => Move::Done(Ok(uw_profile(value as u32))),
            Move::Done(Err(message)) => Move::Done(Err(message)),
        }
    }
}

/// The profiles of Clevo firmware.
pub open spec fn clevo_profiles() -> Seq<Seq<char>> {
    seq!["quiet"@, "power_saving"@, "performance"@, "entertainment"@]
}

/// The profiles that Uniwill firmware offers when it reports `count`.
pub open spec fn uniwill_profiles(count: i32) -> Seq<Seq<char>> {
    if count >= 3 {
        seq!["power_save"@, "enthusiast"@, "overboost"@]
    } else if count >= 2 {
        seq!["power_save"@, "enthusiast"@]
    } else {
        Seq::empty()
    }
}

/// Listing the performance profiles.
pub open spec fn profiles_move(io: TuxedoIo, replies: Seq<Reply>) -> Move<Seq<Seq<char>>> {
    match io.interface {
        HardwareInterface::Clevo => Move::Done(Ok(clevo_profiles())),
        HardwareInterface::Uniwill => match one_read(read_code(MAGIC_READ_UW, 0x21), replies) {
            Move::Do(action) => Move::Do(action),
            Move::Done(Ok(count)) => Move::Done(Ok(uniwill_profiles(count))),
            Move::Done(Err(message)) => Move::Done(Err(message)),
        },
        HardwareInterface::Absent => Move::Done(Ok(Seq::empty())),
    }
}

/// Selecting a performance profile by its number.
pub open spec fn set_profile_move(io: TuxedoIo, profile_id: u32, replies: Seq<Reply>) -> Move<()> {
    match io.interface {
        HardwareInterface::Clevo => if profile_id > 3 {
            Move::Done(Err("Invalid Clevo profile ID: "@ + decimal(profile_id as nat)))
        } else {
            one_write(
                write_code(MAGIC_WRITE_CL, 0x15),
                Ioctl::Write(write_code(MAGIC_WRITE_CL, 0x15), profile_id as i32),
                replies,
            )
        },
        HardwareInterface::Uniwill => if profile_id < 1 || profile_id > 3 {
            Move::Done(Err("Invalid Uniwill profile ID: "@ + decimal(profile_id as nat)))
        } else {
            one_write(
                write_code(MAGIC_WRITE_UW, 0x18),
                Ioctl::Write(write_code(MAGIC_WRITE_UW, 0x18), profile_id as i32),
                replies,
            )
        },
        HardwareInterface::Absent => Move::Done(Err("No hardware interface available"@)),
    }
}

/// Reading the webcam switch.
pub open spec fn webcam_read_move(io: TuxedoIo, replies: Seq<Reply>) -> Move<bool> {
    if io.interface != HardwareInterface::Clevo {
        Move::Done(Err("Webcam control only available on Clevo interface"@))
    } else {
        match one_read(read_code(MAGIC_READ_CL, 0x13), replies) {
            Move::Do(action) => Move::Do(action),
            Move::Done(Ok(value)) => Move::Done(Ok(value != 0)),
            Move::Done(Err(message)) => Move::Done(Err(message)),
        }
    }
}

/// Setting the webcam switch.
pub open spec fn webcam_write_move(io: TuxedoIo, on: bool, replies: Seq<Reply>) -> Move<()> {
    if io.interface != HardwareInterface::Clevo {
        Move::Done(Err("Webcam control only available on Clevo interface"@))
    } else {
        one_write(
            write_code(MAGIC_WRITE_CL, 0x12),
            Ioctl::Write(
                write_code(MAGIC_WRITE_CL, 0x12),
                if on {
                    1
                } else {
                    0
                },
            ),
            replies,
        )
    }
}

/// The request that carries all keyboard commands of Clevo firmware.
pub open spec fn keyboard_code() -> u64 {
    write_code(MAGIC_WRITE_CL, 0x67)
}

/// The access that sends a keyboard command, which is zero-extended.
pub open spec fn keyboard_command(command: u32) -> Ioctl {
    Ioctl::WriteWide(keyboard_code(), command as u64)
}

/// Sending a keyboard command to Clevo firmware.
pub open spec fn keyboard_move(io: TuxedoIo, command: u32, replies: Seq<Reply>) -> Move<()> {
    if io.interface != HardwareInterface::Clevo {
        Move::Done(Err("Clevo keyboard control only available on Clevo interface"@))
    } else {
        one_write(keyboard_code(), keyboard_command(command), replies)
    }
}

/// The command that colours one of three keyboard zones: the zone, then blue,
/// red and green.
pub open spec fn color_command(zone: u8, r: u8, g: u8, b: u8) -> u32 {
    (0xF0000000 + zone * 0x1000000 + b * 0x10000 + r * 0x100 + g) as u32
}

/// The command that sets the keyboard brightness, at most one hundred.
pub open spec fn brightness_command(percent: u8) -> u32 {
    (0xF4000000 + min_of(percent as nat, 100)) as u32
}

impl TuxedoIo {
    /// The code of a request that reads data.
    pub fn ior(type_: u8, nr: u8, size: u64) -> (r: u64)
        ensures
            r == request_code(2, type_, nr, size),
    {
        code(2, type_, nr, size)
    }

    /// The code of a request that writes data.
    pub fn iow(type_: u8, nr: u8, size: u64) -> (r: u64)
        ensures
            r == request_code(1, type_, nr, size),
    {
        code(1, type_, nr, size)
    }

    /// The code of a request without data.
    pub fn io(type_: u8, nr: u8) -> (r: u64)
        ensures
            r == request_code(0, type_, nr, 0),
    {
        code(0, type_, nr, 0)
    }

    pub fn clevo_raw_to_percent(raw: u8) -> (r: u32)
        ensures
            r == raw_to_percent(raw as nat),
    {
        ((raw as u32 * 100) + 127) / 255
    }

    pub fn clevo_percent_to_raw(percent: u32) -> (r: u8)
        ensures
            r == percent_to_raw(percent as nat),
    {
        let p: u32 = if percent > 100 {
            100
        } else {
            percent
        };
        (((p * 255) + 50) / 100) as u8
    }

    /// Detects the interface that answers on the device.
    pub fn detect_interface(replies: &[Reply]) -> (r: Step<HardwareInterface>)
        ensures
            r@ == interface_move(replies@),
    {
        if replies.len() == 0 {
            return Step::Do(
                Action::Control(Ioctl::Read(Self::ior(IOCTL_MAGIC, 0x05, PTR_SIZE))),
            );
        }
        if replies.len() == 1 {
            return Step::Do(
                Action::Control(Ioctl::Read(Self::ior(IOCTL_MAGIC, 0x06, PTR_SIZE))),
            );
        }
        if matches!(replies[0].value(), Ok(1)) {
            return Step::Done(Ok(HardwareInterface::Clevo));
        }
        if matches!(replies[1].value(), Ok(1)) {
            return Step::Done(Ok(HardwareInterface::Uniwill));
        }
        if replies.len() == 2 {
            return Step::Do(
                Action::Control(Ioctl::Read(Self::ior(MAGIC_READ_CL, 0x10, PTR_SIZE))),
            );
        }
        if replies[2].value().is_ok() {
            return Step::Done(Ok(HardwareInterface::Clevo));
        }
        if replies.len() == 3 {
            return Step::Do(
                Action::Control(Ioctl::Read(Self::ior(MAGIC_READ_UW, 0x10, PTR_SIZE))),
            );
        }
        if replies[3].value().is_ok() {
            return Step::Done(Ok(HardwareInterface::Uniwill));
        }
        Step::Done(Ok(HardwareInterface::Absent))
    }

    /// Counts the fans of an interface.
    pub fn detect_fan_count(interface: HardwareInterface, replies: &[Reply]) -> (r: Step<u32>)
        ensures
            r@ == fan_count_move(interface, replies@),
    {
        match interface {
            HardwareInterface::Clevo => {
                let mut n: u32 = 0;
                assert(replies@.skip(0) =~= replies@);
                while n < 3
                    invariant
                        n <= 3,
                        n <= replies@.len(),
                        interface == HardwareInterface::Clevo,
                        clevo_fans(0, replies@) == clevo_fans(n as nat, replies@.skip(n as int)),
                    decreases 3 - n,
                {
                    if n as usize == replies.len() {
                        return Step::Do(
                            Action::Control(
                                Ioctl::Read(Self::ior(MAGIC_READ_CL, 0x10 + n as u8, PTR_SIZE)),
                            ),
                        );
                    }
                    let ghost cur = replies@.skip(n as int);
                    assert(cur[0] == replies@[n as int]);
                    assert(cur.drop_first() =~= replies@.skip(n + 1));
                    match replies[n as usize].value() {
                        Ok(report) => {
                            if ((report >> 16) & 0xff) <= 1 {
                                return Step::Done(Ok(n));
                            }
                        },
                        Err(_) => {
                            return Step::Done(Ok(n));
                        },
                    }
                    n = n + 1;
                }
                Step::Done(Ok(3))
            },
            HardwareInterface::Uniwill => {
                if replies.len() == 0 {
                    return Step::Do(
                        Action::Control(Ioctl::Read(Self::ior(MAGIC_READ_UW, 0x10, PTR_SIZE))),
                    );
                }
                if replies[0].value().is_err() {
                    return Step::Done(Ok(0));
                }
                if replies.len() == 1 {
                    return Step::Do(
                        Action::Control(Ioctl::Read(Self::ior(MAGIC_READ_UW, 0x11, PTR_SIZE))),
                    );
                }
                if replies[1].value().is_ok() {
                    Step::Done(Ok(2))
                } else {
                    Step::Done(Ok(1))
                }
            },
            HardwareInterface::Absent => Step::Done(Ok(0)),
        }
    }

    /// Finds out what answers on the opened device.
    pub fn new(replies: &[Reply]) -> (r: Step<TuxedoIo>)
        ensures
            r@ == open_move(replies@),
    {
        let interface = match Self::detect_interface(replies) {
            Step::Do(action) => {
                return Step::Do(action);
            },
            Step::Done(Err(message)) => {
                return Step::Done(Err(message));
            },
            Step::Done(Ok(interface)) => interface,
        };
        let used: usize = if matches!(replies[0].value(), Ok(1)) || matches!(
            replies[1].value(),
            Ok(1)
        ) {
            2
        } else if replies[2].value().is_ok() {
            3
        } else {
            4
        };
        match Self::detect_fan_count(interface, slice_subrange(replies, used, replies.len())) {
            Step::Do(action) => Step::Do(action),
            Step::Done(Ok(fan_count)) => Step::Done(Ok(TuxedoIo { interface, fan_count })),
            Step::Done(Err(message)) => Step::Done(Err(message)),
        }
    }

    /// Whether the control device exists.
    pub fn is_available(replies: &[Reply]) -> (r: Step<bool>)
        ensures
            r@ == (if replies@.len() == 0 {
                Move::Do(Act::Probe(TUXEDO_IO_DEVICE@))
            } else {
                Move::Done(Ok(replies@[0].says_present()))
            }),
    {
        if replies.len() == 0 {
            return Step::Do(Action::Probe(TUXEDO_IO_DEVICE.to_string()));
        }
        Step::Done(Ok(replies[0].present()))
    }

    pub fn get_interface(&self) -> (r: HardwareInterface)
        ensures
            r == self.interface,
    {
        self.interface
    }

    pub fn get_fan_count(&self) -> (r: u32)
        ensures
            r == self.fan_count,
    {
        self.fan_count
    }

    /// The speed of a fan.
    pub fn get_fan_speed(&self, fan_id: u32, replies: &[Reply]) -> (r: Step<u32>)
        ensures
            r@ == fan_speed_move(*self, fan_id, replies@),
    {
        match self.interface {
            HardwareInterface::Clevo => {
                if fan_id >= 3 {
                    return Step::Done(Err(numbered("Invalid Clevo fan ID: ", fan_id)));
                }
                let request = Self::ior(MAGIC_READ_CL, 0x10 + fan_id as u8, PTR_SIZE);
                match take_read(request, replies) {
                    Step::Do(action) => Step::Do(action),
                    Step::Done(Ok(report)) => {
                        proof {
                            lemma_report_bytes(report);
                        }
                        Step::Done(Ok(Self::clevo_raw_to_percent((report & 0xff) as u8)))
                    },
                    Step::Done(Err(message)) => Step::Done(Err(message)),
                }
            },
            HardwareInterface::Uniwill => {
                if fan_id >= 2 {
                    return Step::Done(Err(numbered("Invalid Uniwill fan ID: ", fan_id)));
                }
                let request = Self::ior(MAGIC_READ_UW, 0x10 + fan_id as u8, PTR_SIZE);
                match take_read(request, replies) {
                    Step::Do(action) => Step::Do(action),
                    Step::Done(Ok(value)) => Step::Done(Ok(value as u32)),
                    Step::Done(Err(message)) => Step::Done(Err(message)),
                }
            },
            HardwareInterface::Absent => Step::Done(Err("No hardware interface".to_string())),
        }
    }

    fn send_clevo_duty(
        &self,
        fan_id: u32,
        speed_percent: u32,
        replies: &[Reply],
        from: usize,
    ) -> (r: Step<()>)
        requires
            from <= replies@.len(),
        ensures
            r@ == clevo_duty_move(
                self.fan_count,
                fan_id,
                speed_percent,
                replies@.skip(from as int),
            ),
    {
        let n: usize = if self.fan_count < 3 {
            self.fan_count as usize
        } else {
            3
        };
        let ghost rest = replies@.skip(from as int);
        assert(forall|k: int| 0 <= k < rest.len() ==> rest[k] == replies@[from + k]);
        let heard: usize = replies.len() - from;
        if heard < n {
            return Step::Do(
                Action::Control(
                    Ioctl::Read(Self::ior(MAGIC_READ_CL, 0x10 + heard as u8, PTR_SIZE)),
                ),
            );
        }
        if fan_id >= 3 {
            return Step::Done(Err(numbered("Invalid Clevo fan ID: ", fan_id)));
        }
        let ghost reports = rest.take(n as int);
        let mut duties: [u8; 3] = [0, 0, 0];
        let mut i: usize = 0;
        while i < n
            invariant
                i <= n <= 3,
                from + n <= replies.len(),
                reports.len() == n,
                forall|k: int| 0 <= k < n ==> reports[k] == replies@[from + k],
                forall|k: int|
                    0 <= k < 3 ==> #[trigger] duties@[k] == (if k < i {
                        match reports[k].as_value() {
                            Ok(report) => duty(report) as int,
                            Err(_) => 0,
                        }
                    } else {
                        0int
                    }),
            decreases n - i,
        {
            match replies[from + i].value() {
                Ok(report) => {
                    proof {
                        lemma_report_bytes(report);
                    }
                    duties[i] = (report & 0xff) as u8;
                },
                Err(_) => {},
            }
            i = i + 1;
        }
        duties[fan_id as usize] = Self::clevo_percent_to_raw(speed_percent);
        assert(forall|k: int|
            0 <= k < 3 ==> #[trigger] duties@[k] == duty_to_send(
                reports,
                fan_id,
                speed_percent,
                k,
            ));
        let packed: i32 = duties[0] as i32 + 256 * (duties[1] as i32) + 65536 * (duties[2] as i32);
        assert(packed == packed_duties(reports, fan_id, speed_percent));
        let request = Self::iow(MAGIC_WRITE_CL, 0x10, PTR_SIZE);
        assert(rest.skip(n as int) =~= replies@.skip(from + n));
        if heard == n {
            return Step::Do(Action::Control(Ioctl::Write(request, packed)));
        }
        Step::Done(finish_write(request, &replies[from + n]))
    }

    /// Sets the speed of a fan. `manual` says whether Clevo fans were under
    /// manual control when the session began.
    pub fn set_fan_speed(
        &self,
        manual: bool,
        fan_id: u32,
        speed_percent: u32,
        replies: &[Reply],
    ) -> (r: Step<()>)
        ensures
            r@ == set_fan_move(*self, manual, fan_id, speed_percent, replies@),
    {
        match self.interface {
            HardwareInterface::Clevo => {
                if manual {
                    assert(replies@.skip(0) =~= replies@);
                    return self.send_clevo_duty(fan_id, speed_percent, replies, 0);
                }
                let request = Self::iow(MAGIC_WRITE_CL, 0x11, PTR_SIZE);
                match take_write(request, Ioctl::Write(request, 0), replies) {
                    Step::Done(Ok(())) => {
                        assert(replies@.drop_first() =~= replies@.skip(1));
                        self.send_clevo_duty(fan_id, speed_percent, replies, 1)
                    },
                    other => other,
                }
            },
            HardwareInterface::Uniwill => {
                if fan_id >= 2 {
                    return Step::Done(Err(numbered("Invalid Uniwill fan ID: ", fan_id)));
                }
                let value: i32 = if speed_percent < 200 {
                    speed_percent as i32
                } else {
                    200
                };
                let request = Self::iow(MAGIC_WRITE_UW, 0x10 + fan_id as u8, PTR_SIZE);
                take_write(request, Ioctl::Write(request, value), replies)
            },
            HardwareInterface::Absent => Step::Done(Err("No hardware interface".to_string())),
        }
    }

    /// Hands the fans back to the firmware.
    pub fn set_fan_auto(&self, replies: &[Reply]) -> (r: Step<()>)
        ensures
            r@ == fan_auto_move(*self, replies@),
    {
        match self.interface {
            HardwareInterface::Clevo => {
                let request = Self::iow(MAGIC_WRITE_CL, 0x11, PTR_SIZE);
                take_write(request, Ioctl::Write(request, 0xF), replies)
            },
            HardwareInterface::Uniwill => {
                let request = Self::io(MAGIC_WRITE_UW, 0x14);
                take_write(request, Ioctl::Command(request, 1), replies)
            },
            HardwareInterface::Absent => Step::Done(Err("No hardware interface".to_string())),
        }
    }

    fn read_tdp(&self, nr: u8, replies: &[Reply]) -> (r: Step<u32>)
        ensures
            r@ == tdp_read_move(*self, nr as int, replies@),
    {
        if self.interface != HardwareInterface::Uniwill {
            return Step::Done(
                Err("TDP control only available on Uniwill interface".to_string()),
            );
        }
        match take_read(Self::ior(MAGIC_READ_UW, nr, PTR_SIZE), replies) {
            Step::Do(action) => Step::Do(action),
            Step::Done(Ok(value)) => Step::Done(Ok(value as u32)),
            Step::Done(Err(message)) => Step::Done(Err(message)),
        }
    }

    /// A power limit.
    pub fn get_tdp(&self, tdp_index: u8, replies: &[Reply]) -> (r: Step<u32>)
        requires
            self.interface == HardwareInterface::Uniwill ==> 0x18 + tdp_index <= 0xff,
        ensures
            r@ == tdp_read_move(*self, 0x18 + tdp_index, replies@),
    {
        self.read_tdp(
            if self.interface == HardwareInterface::Uniwill {
                0x18 + tdp_index
            } else {
                0
            },
            replies,
        )
    }

    /// The least value of a power limit.
    pub fn get_tdp_min(&self, tdp_index: u8, replies: &[Reply]) -> (r: Step<u32>)
        requires
            self.interface == HardwareInterface::Uniwill ==> 0x1b + tdp_index <= 0xff,
        ensures
            r@ == tdp_read_move(*self, 0x1b + tdp_index, replies@),
    {
        self.read_tdp(
            if self.interface == HardwareInterface::Uniwill {
                0x1b + tdp_index
            } else {
                0
            },
            replies,
        )
    }

    /// The greatest value of a power limit.
    pub fn get_tdp_max(&self, tdp_index: u8, replies: &[Reply]) -> (r: Step<u32>)
        requires
            self.interface == HardwareInterface::Uniwill ==> 0x1e + tdp_index <= 0xff,
        ensures
            r@ == tdp_read_move(*self, 0x1e + tdp_index, replies@),
    {
        self.read_tdp(
            if self.interface == HardwareInterface::Uniwill {
                0x1e + tdp_index
            } else {
                0
            },
            replies,
        )
    }

    /// Sets a power limit.
    pub fn set_tdp(&self, tdp_index: u8, value: u32, replies: &[Reply]) -> (r: Step<()>)
        requires
            self.interface == HardwareInterface::Uniwill ==> 0x15 + tdp_index <= 0xff,
        ensures
            r@ == tdp_write_move(*self, 0x15 + tdp_index, value, replies@),
    {
        if self.interface != HardwareInterface::Uniwill {
            return Step::Done(
                Err("TDP control only available on Uniwill interface".to_string()),
            );
        }
        let request = Self::iow(MAGIC_WRITE_UW, 0x15 + tdp_index, PTR_SIZE);
        take_write(request, Ioctl::Write(request, value as i32), replies)
    }

    /// The performance profile of Uniwill firmware.
    pub fn get_uw_performance_profile(&self, replies: &[Reply]) -> (r: Step<u32>)
        ensures
            r@ == uw_profile_move(*self, replies@),
    {
        if self.interface != HardwareInterface::Uniwill {
            return Step::Done(
                Err(
                    "Uniwill performance profile only available on Uniwill interface".to_string(),
                ),
            );
        }
        match take_read(Self::ior(MAGIC_READ_UW, 0x14, PTR_SIZE), replies) {
            Step::Do(action) => Step::Do(action),
            Step::Done(Ok(value)) => {
                let mode = value as u32;
                let a0_set = (mode & 0xa0) == 0xa0;
                let a0_cleared = (mode & 0xa0) == 0;
                let bit10_cleared = (mode & 0x10) == 0;
                let profile: u32 = if a0_set && bit10_cleared {
                    1
                } else if a0_cleared && !bit10_cleared {
                    3
                } else {
                    2
                };
                Step::Done(Ok(profile))
            },
            Step::Done(Err(message)) => Step::Done(Err(message)),
        }
    }

    /// The temperature at a fan.
    pub fn get_fan_temperature(&self, fan_id: u32, replies: &[Reply]) -> (r: Step<u32>)
        ensures
            r@ == fan_temperature_move(*self, fan_id, replies@),
    {
        match self.interface {
            HardwareInterface::Clevo => {
                if fan_id >= 3 {
                    return Step::Done(Err(numbered("Invalid Clevo fan ID: ", fan_id)));
                }
                let request = Self::ior(MAGIC_READ_CL, 0x10 + fan_id as u8, PTR_SIZE);
                match take_read(request, replies) {
                    Step::Do(action) => Step::Do(action),
                    Step::Done(Ok(report)) => {
                        proof {
                            lemma_report_bytes(report);
                        }
                        let temperature = (report >> 16) & 0xff;
                        if temperature <= 1 {
                            return Step::Done(
                                Err(
                                    join3(
                                        "Fan ",
                                        decimal_of(fan_id as u64).as_str(),
                                        " not available",
                                    ),
                                ),
                            );
                        }
                        Step::Done(Ok(temperature as u32))
                    },
                    Step::Done(Err(message)) => Step::Done(Err(message)),
                }
            },
            HardwareInterface::Uniwill => {
                if fan_id >= 2 {
                    return Step::Done(Err(numbered("Invalid Uniwill fan ID: ", fan_id)));
                }
                let request = Self::ior(MAGIC_READ_UW, 0x12 + fan_id as u8, PTR_SIZE);
                match take_read(request, replies) {
                    Step::Do(action) => Step::Do(action),
                    Step::Done(Ok(value)) => {
                        if value <= 0 {
                            return Step::Done(
                                Err(
                                    join3(
                                        "Fan ",
                                        decimal_of(fan_id as u64).as_str(),
                                        " not available",
                                    ),
                                ),
                            );
                        }
                        Step::Done(Ok(value as u32))
                    },
                    Step::Done(Err(message)) => Step::Done(Err(message)),
                }
            },
            HardwareInterface::Absent => Step::Done(Err("No hardware interface".to_string())),
        }
    }

    /// The names of the performance profiles.
    pub fn get_available_profiles(&self, replies: &[Reply]) -> (r: Step<Vec<String>>)
        ensures
            r@ == profiles_move(*self, replies@),
    {
        match self.interface {
            HardwareInterface::Clevo => {
                let list = vec![
                    "quiet".to_string(),
                    "power_saving".to_string(),
                    "performance".to_string(),
                    "entertainment".to_string(),
                ];
                assert(list.deep_view() =~= clevo_profiles());
                Step::Done(Ok(list))
            },
            HardwareInterface::Uniwill => match take_read(
                Self::ior(MAGIC_READ_UW, 0x21, PTR_SIZE),
                replies,
            ) {
                Step::Do(action) => Step::Do(action),
                Step::Done(Ok(count)) => {
                    let mut list: Vec<String> = Vec::new();
                    if count >= 2 {
                        list.push("power_save".to_string());
                        list.push("enthusiast".to_string());
                    }
                    if count >= 3 {
                        list.push("overboost".to_string());
                    }
                    assert(list.deep_view() =~= uniwill_profiles(count));
                    Step::Done(Ok(list))
                },
                Step::Done(Err(message)) => Step::Done(Err(message)),
            },
            HardwareInterface::Absent => {
                let list: Vec<String> = Vec::new();
                assert(list.deep_view() =~= Seq::<Seq<char>>::empty());
                Step::Done(Ok(list))
            },
        }
    }

    /// Selects a performance profile.
    pub fn set_performance_profile(&self, profile_id: u32, replies: &[Reply]) -> (r: Step<()>)
        ensures
            r@ == set_profile_move(*self, profile_id, replies@),
    {
        match self.interface {
            HardwareInterface::Clevo => {
                if profile_id > 3 {
                    return Step::Done(Err(numbered("Invalid Clevo profile ID: ", profile_id)));
                }
                let request = Self::iow(MAGIC_WRITE_CL, 0x15, PTR_SIZE);
                take_write(request, Ioctl::Write(request, profile_id as i32), replies)
            },
            HardwareInterface::Uniwill => {
                if profile_id < 1 || profile_id > 3 {
                    return Step::Done(Err(numbered("Invalid Uniwill profile ID: ", profile_id)));
                }
                let request = Self::iow(MAGIC_WRITE_UW, 0x18, PTR_SIZE);
                take_write(request, Ioctl::Write(request, profile_id as i32), replies)
            },
            HardwareInterface::Absent => Step::Done(
                Err("No hardware interface available".to_string()),
            ),
        }
    }

    /// Whether the webcam is switched on (Clevo only).
    pub fn get_webcam_state(&self, replies: &[Reply]) -> (r: Step<bool>)
        ensures
            r@ == webcam_read_move(*self, replies@),
    {
        if self.interface != HardwareInterface::Clevo {
            return Step::Done(
                Err("Webcam control only available on Clevo interface".to_string()),
            );
        }
        match take_read(Self::ior(MAGIC_READ_CL, 0x13, PTR_SIZE), replies) {
            Step::Do(action) => Step::Do(action),
            Step::Done(Ok(value)) => Step::Done(Ok(value != 0)),
            Step::Done(Err(message)) => Step::Done(Err(message)),
        }
    }

    /// Switches the webcam (Clevo only).
    pub fn set_webcam_state(&self, enabled: bool, replies: &[Reply]) -> (r: Step<()>)
        ensures
            r@ == webcam_write_move(*self, enabled, replies@),
    {
        if self.interface != HardwareInterface::Clevo {
            return Step::Done(
                Err("Webcam control only available on Clevo interface".to_string()),
            );
        }
        let request = Self::iow(MAGIC_WRITE_CL, 0x12, PTR_SIZE);
        take_write(
            request,
            Ioctl::Write(
                request,
                if enabled {
                    1
                } else {
                    0
                },
            ),
            replies,
        )
    }

    /// Sends a keyboard command (Clevo only).
    pub fn set_clevo_keyboard_mode(&self, mode_val: u32, replies: &[Reply]) -> (r: Step<()>)
        ensures
            r@ == keyboard_move(*self, mode_val, replies@),
    {
        if self.interface != HardwareInterface::Clevo {
            return Step::Done(
                Err("Clevo keyboard control only available on Clevo interface".to_string()),
            );
        }
        let request = Self::iow(MAGIC_WRITE_CL, 0x67, PTR_SIZE);
        take_write(request, Ioctl::WriteWide(request, mode_val as u64), replies)
    }

    /// The command that colours a keyboard zone.
    pub fn clevo_color_command(zone: u8, r: u8, g: u8, b: u8) -> (command: u32)
        requires
            zone <= 2,
        ensures
            command == color_command(zone, r, g, b),
    {
        let prefix: u32 = if zone == 0 {
            0xF0000000
        } else if zone == 1 {
            0xF1000000
        } else {
            0xF2000000
        };
        let packed: u32 = ((b as u32) << 16) | ((r as u32) << 8) | (g as u32);
        assert(packed == b * 0x10000 + r * 0x100 + g && packed < 0x1000000) by (bit_vector)
            requires
                packed == ((b as u32) << 16) | ((r as u32) << 8) | (g as u32),
        ;
        assert(prefix | packed == prefix + packed) by (bit_vector)
            requires
                packed < 0x1000000,
                prefix == 0xF0000000u32 || prefix == 0xF1000000u32 || prefix == 0xF2000000u32,
        ;
        prefix | packed
    }

    /// The command that sets the keyboard brightness.
    pub fn clevo_brightness_command(brightness_percent: u8) -> (command: u32)
        ensures
            command == brightness_command(brightness_percent),
    {
        let value: u32 = if brightness_percent < 100 {
            brightness_percent as u32
        } else {
            100
        };
        assert(0xF4000000u32 | value == 0xF4000000u32 + value) by (bit_vector)
            requires
                value <= 100,
        ;
        0xF4000000u32 | value
    }

    /// Colours a keyboard zone (Clevo only): 0 left, 1 centre, 2 right.
    pub fn set_clevo_keyboard_color(
        &self,
        zone: u8,
        r: u8,
        g: u8,
        b: u8,
        replies: &[Reply],
    ) -> (step: Step<()>)
        ensures
            step@ == (if self.interface == HardwareInterface::Clevo && zone > 2 {
                Move::Done(Err("Invalid Clevo keyboard zone: "@ + decimal(zone as nat)))
            } else {
                keyboard_move(*self, color_command(zone, r, g, b), replies@)
            }),
    {
        if self.interface != HardwareInterface::Clevo {
            return Step::Done(
                Err("Clevo keyboard control only available on Clevo interface".to_string()),
            );
        }
        if zone > 2 {
            return Step::Done(Err(numbered("Invalid Clevo keyboard zone: ", zone as u32)));
        }
        self.set_clevo_keyboard_mode(Self::clevo_color_command(zone, r, g, b), replies)
    }

    /// Sets the keyboard brightness (Clevo only).
    pub fn set_clevo_keyboard_brightness(&self, brightness_percent: u8, replies: &[Reply]) -> (r:
        Step<()>)
        ensures
            r@ == keyboard_move(*self, brightness_command(brightness_percent), replies@),
    {
        if self.interface != HardwareInterface::Clevo {
            return Step::Done(
                Err("Clevo keyboard control only available on Clevo interface".to_string()),
            );
        }
        self.set_clevo_keyboard_mode(Self::clevo_brightness_command(brightness_percent), replies)
    }
}

/// Keeps track of whether Clevo fans are under manual control, from each access
/// and its reply.
pub fn track_manual(manual: bool, action: &Action, reply: &Reply) -> (r: bool)
    ensures
        r == manual_after(manual, action@, *reply),
{
    if reply.failure().is_some() {
        return manual;
    }
    let request = TuxedoIo::iow(MAGIC_WRITE_CL, 0x11, PTR_SIZE);
    match action {
        Action::Control(Ioctl::Write(sent, value)) => if *sent == request && *value == 0 {
            true
        } else if *sent == request && *value == 0xF {
            false
        } else {
            manual
        },
        _ => manual,
    }
}

/// Opening the device ends: after seven replies it is known what answers on it.
/// There are never more than three fans, and none without an interface.
pub proof fn law_opening_ends(replies: Seq<Reply>)
    ensures
        replies.len() >= 7 ==> open_move(replies) is Done,
        open_move(replies) matches Move::Done(result) ==> {
            &&& result is Ok
            &&& result->Ok_0.fan_count <= 3
            &&& result->Ok_0.interface == HardwareInterface::Absent ==> result->Ok_0.fan_count == 0
        },
{
    reveal_with_fuel(clevo_fans, 4);
}

/// Setting one Clevo fan sends the other fans the duty that they reported.
pub proof fn law_other_fans_keep_their_duty(
    reports: Seq<Reply>,
    fan_id: u32,
    speed_percent: u32,
    other: int,
    report: i32,
)
    requires
        0 <= other < reports.len() <= 3,
        other != fan_id,
        reports[other].as_value() == Ok::<i32, Seq<char>>(report),
    ensures
        duty_to_send(reports, fan_id, speed_percent, other) == duty(report) as nat,
        packed_duties(reports, fan_id, speed_percent) as int / (if other == 0 {
            1int
        } else if other == 1 {
            256int
        } else {
            65536int
        }) % 256 == duty(report),
{
    lemma_report_bytes(report);
    lemma_duties_fit(reports, fan_id, speed_percent);
}

proof fn lemma_duties_fit(reports: Seq<Reply>, fan_id: u32, speed_percent: u32)
    ensures
        forall|i: int| #[trigger] duty_to_send(reports, fan_id, speed_percent, i) <= 255,
{
    assert forall|i: int| #[trigger] duty_to_send(reports, fan_id, speed_percent, i) <= 255 by {
        if i != fan_id && 0 <= i < reports.len() {
            if let Ok(report) = reports[i].as_value() {
                lemma_report_bytes(report);
            }
        }
    }
}

/// Before a Clevo fan is set, manual control is on: a session that began under
/// automatic control gets to the duties only over a successful request that
/// switches it off.
pub proof fn law_manual_before_duty(
    io: TuxedoIo,
    fan_id: u32,
    speed_percent: u32,
    replies: Seq<Reply>,
)
    requires
        io.interface == HardwareInterface::Clevo,
    ensures
        replies.len() == 0 ==> set_fan_move(io, false, fan_id, speed_percent, replies) == Move::<
            (),
        >::Do(Act::Control(Ioctl::Write(clevo_auto_code(), 0))),
        replies.len() > 0 && set_fan_move(io, false, fan_id, speed_percent, replies) is Do
            ==> manual_after(
            false,
            Act::Control(Ioctl::Write(clevo_auto_code(), 0)),
            replies[0],
        ),
{
}

} // verus!
