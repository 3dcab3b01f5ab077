//! What holds of the control device: the numbers of its requests, and what each
//! operation sends and makes of the answer.

use crate::access::{Act, Ioctl, Move, Reply};
use crate::session_laws::{answers, performs};
use crate::text::{decimal, numeral};
use crate::tuxedo_io::{
    brightness_command, clevo_duty_move, clevo_fans, color_command, duty_to_send, fan_auto_move,
    fan_count_move, fan_speed_move, fan_temperature_move, interface_move, interface_replies,
    keyboard_move, lemma_report_bytes, manual_after, min_of, open_move, packed_duties,
    percent_to_raw, profiles_move, raw_to_percent, read_code, request_code, set_fan_move,
    set_profile_move, tdp_read_move, tdp_write_move, uw_profile_move, webcam_read_move,
    webcam_write_move, write_code, HardwareInterface, TuxedoIo,
};
use vstd::prelude::*;

verus! {

/// The number of a request is the sum of its fields, each at its place.
pub proof fn law_request_number(direction: u64, type_: u8, nr: u8, size: u64)
    requires
        direction < 4,
        size < 0x4000,
    ensures
        request_code(direction, type_, nr, size) == direction * 0x4000_0000 + size * 0x1_0000
            + type_ * 0x100 + nr,
{
    assert((direction << 30) | (size << 16) | ((type_ as u64) << 8) | (nr as u64) == direction
        * 0x4000_0000 + size * 0x1_0000 + (type_ as u64) * 0x100 + (nr as u64)) by (bit_vector)
        requires
            direction < 4,
            size < 0x4000,
    ;
}

/// A request that reads, by its type and number.
pub open spec fn asking(type_: int, nr: int) -> Act {
    Act::Control(Ioctl::Read((0x8008_0000 + type_ * 0x100 + nr) as u64))
}

/// A request that writes a value, by its type and number.
pub open spec fn sending(type_: int, nr: int, value: int) -> Act {
    Act::Control(Ioctl::Write((0x4008_0000 + type_ * 0x100 + nr) as u64, value as i32))
}

/// What a request that reads comes to.
pub open spec fn read_result(type_: int, nr: int, reply: Reply) -> Result<i32, Seq<char>> {
    let head = "ioctl read failed (req=0x"@ + numeral((0x8008_0000 + type_ * 0x100 + nr) as nat, 16)
        + "): "@;
    match reply {
        Reply::Value(value) => Ok(value),
        Reply::Failed(reason) => Err(head + reason@),
        _ => Err(head + "no value in reply"@),
    }
}

/// What a request that writes comes to.
pub open spec fn write_result(type_: int, nr: int, reply: Reply) -> Result<(), Seq<char>> {
    match reply {
        Reply::Failed(reason) => Err(
            "ioctl write failed (req=0x"@ + numeral((0x4008_0000 + type_ * 0x100 + nr) as nat, 16)
                + "): "@ + reason@,
        ),
        _ => Ok(()),
    }
}

/// The codes of the requests with data, as sums.
pub proof fn lemma_codes(type_: u8, nr: int)
    requires
        0 <= nr < 0x100,
    ensures
        read_code(type_, nr) == 0x8008_0000 + type_ * 0x100 + nr,
        write_code(type_, nr) == 0x4008_0000 + type_ * 0x100 + nr,
{
    law_request_number(2, type_, nr as u8, 8);
    law_request_number(1, type_, nr as u8, 8);
}

/// An operation of one access.
pub proof fn lemma_one_access<T>(
    op: spec_fn(Seq<Reply>) -> Move<T>,
    world: spec_fn(Act) -> Reply,
    act: Act,
    outcome: Result<T, Seq<char>>,
)
    requires
        op(Seq::empty()) == Move::<T>::Do(act),
        op(seq![world(act)]) == Move::<T>::Done(outcome),
    ensures
        performs(op, world, seq![act], outcome),
{
    let acts = seq![act];
    assert forall|k: int| 0 <= k < acts.len() implies op(#[trigger] answers(world, acts.take(k)))
        == Move::<T>::Do(acts[k]) by {
        assert(answers(world, acts.take(k)) =~= Seq::<Reply>::empty());
    }
    assert(answers(world, acts) =~= seq![world(act)]);
}

/// An operation without an access.
pub proof fn lemma_no_access<T>(
    op: spec_fn(Seq<Reply>) -> Move<T>,
    world: spec_fn(Act) -> Reply,
    outcome: Result<T, Seq<char>>,
)
    requires
        op(Seq::empty()) == Move::<T>::Done(outcome),
    ensures
        performs(op, world, Seq::empty(), outcome),
{
    assert(answers(world, Seq::<Act>::empty()) =~= Seq::<Reply>::empty());
}

/// The interface that answers: whichever of the two checks says one, Clevo first;
/// if neither does, the one whose first fan can be read, Clevo first; otherwise
/// none.
pub open spec fn interface_of(world: spec_fn(Act) -> Reply) -> HardwareInterface {
    if world(asking(0xec, 0x05)) == Reply::Value(1) {
        HardwareInterface::Clevo
    } else if world(asking(0xec, 0x06)) == Reply::Value(1) {
        HardwareInterface::Uniwill
    } else if world(asking(0xed, 0x10)) is Value {
        HardwareInterface::Clevo
    } else if world(asking(0xef, 0x10)) is Value {
        HardwareInterface::Uniwill
    } else {
        HardwareInterface::Absent
    }
}

/// The requests of the detection.
pub open spec fn interface_acts(world: spec_fn(Act) -> Reply) -> Seq<Act> {
    let checks = seq![asking(0xec, 0x05), asking(0xec, 0x06)];
    if world(asking(0xec, 0x05)) == Reply::Value(1) || world(asking(0xec, 0x06)) == Reply::Value(1) {
        checks
    } else if world(asking(0xed, 0x10)) is Value {
        checks + seq![asking(0xed, 0x10)]
    } else {
        checks + seq![asking(0xed, 0x10), asking(0xef, 0x10)]
    }
}

proof fn lemma_detecting(world: spec_fn(Act) -> Reply, k: int)
    requires
        0 <= k < interface_acts(world).len(),
    ensures
        interface_move(answers(world, interface_acts(world).take(k))) == Move::<
            HardwareInterface,
        >::Do(interface_acts(world)[k]),
{
    lemma_codes(0xec, 0x05);
    lemma_codes(0xec, 0x06);
    lemma_codes(0xed, 0x10);
    lemma_codes(0xef, 0x10);
    let acts = interface_acts(world);
    let replies = answers(world, acts.take(k));
    assert(replies.len() == k);
    if k > 0 {
        assert(replies[0] == world(acts[0]));
    }
    if k > 1 {
        assert(replies[1] == world(acts[1]));
    }
    if k > 2 {
        assert(replies[2] == world(acts[2]));
    }
}

proof fn lemma_detected(world: spec_fn(Act) -> Reply, more: Seq<Reply>)
    ensures
        ({
            let replies = answers(world, interface_acts(world)) + more;
            &&& interface_move(replies) == Move::<HardwareInterface>::Done(Ok(interface_of(world)))
            &&& interface_replies(replies) == interface_acts(world).len()
        }),
{
    let acts = interface_acts(world);
    let replies = answers(world, acts) + more;
    assert(replies[0] == world(acts[0]));
    assert(replies[1] == world(acts[1]));
    if acts.len() > 2 {
        assert(replies[2] == world(acts[2]));
    }
    if acts.len() > 3 {
        assert(replies[3] == world(acts[3]));
    }
}

/// The detection makes these requests and finds this interface.
pub proof fn law_interface_is_detected(world: spec_fn(Act) -> Reply)
    ensures
        performs(
            |replies: Seq<Reply>| interface_move(replies),
            world,
            interface_acts(world),
            Ok(interface_of(world)),
        ),
{
    let acts = interface_acts(world);
    let op = |replies: Seq<Reply>| interface_move(replies);
    assert forall|k: int| 0 <= k < acts.len() implies op(#[trigger] answers(world, acts.take(k)))
        == Move::<HardwareInterface>::Do(acts[k]) by {
        lemma_detecting(world, k);
    }
    lemma_detected(world, Seq::empty());
    assert(answers(world, acts) + Seq::<Reply>::empty() =~= answers(world, acts));
}

/// The third byte of a Clevo fan report is a temperature of that fan, and above one
/// if there is such a fan.
pub open spec fn reports(reply: Reply) -> bool {
    reply matches Reply::Value(report) && (report >> 16) & 0xff > 1
}

/// How many fans answer: of three on Clevo those before the first that does not
/// report, of two on Uniwill those before the first that cannot be read.
pub open spec fn fans_of(interface: HardwareInterface, world: spec_fn(Act) -> Reply) -> u32 {
    match interface {
        HardwareInterface::Clevo => if !reports(world(asking(0xed, 0x10))) {
            0
        } else if !reports(world(asking(0xed, 0x11))) {
            1
        } else if !reports(world(asking(0xed, 0x12))) {
            2
        } else {
            3
        },
        HardwareInterface::Uniwill => if !(world(asking(0xef, 0x10)) is Value) {
            0
        } else if !(world(asking(0xef, 0x11)) is Value) {
            1
        } else {
            2
        },
        HardwareInterface::Absent => 0,
    }
}

/// The requests of the count: one for each fan and one for the first that is
/// missing.
pub open spec fn fan_acts(interface: HardwareInterface, world: spec_fn(Act) -> Reply) -> Seq<Act> {
    let n = fans_of(interface, world) as int;
    match interface {
        HardwareInterface::Clevo => seq![
            asking(0xed, 0x10),
            asking(0xed, 0x11),
            asking(0xed, 0x12),
        ].take(
            if n < 3 {
                n + 1
            } else {
                3
            },
        ),
        HardwareInterface::Uniwill => seq![asking(0xef, 0x10), asking(0xef, 0x11)].take(
            if n == 0 {
                1
            } else {
                2
            },
        ),
        HardwareInterface::Absent => Seq::empty(),
    }
}

/// The fans of an interface are counted so.
pub proof fn law_fans_are_counted(interface: HardwareInterface, world: spec_fn(Act) -> Reply)
    ensures
        performs(
            |replies: Seq<Reply>| fan_count_move(interface, replies),
            world,
            fan_acts(interface, world),
            Ok(fans_of(interface, world)),
        ),
{
    reveal_with_fuel(clevo_fans, 4);
    lemma_codes(0xed, 0x10);
    lemma_codes(0xed, 0x11);
    lemma_codes(0xed, 0x12);
    lemma_codes(0xef, 0x10);
    lemma_codes(0xef, 0x11);
    let acts = fan_acts(interface, world);
    let op = |replies: Seq<Reply>| fan_count_move(interface, replies);
    assert forall|k: int| 0 <= k <= acts.len() implies {
        let replies = #[trigger] answers(world, acts.take(k));
        &&& k < acts.len() ==> op(replies) == Move::<u32>::Do(acts[k])
        &&& k == acts.len() ==> op(replies) == Move::<u32>::Done(Ok(fans_of(interface, world)))
    } by {
        let replies = answers(world, acts.take(k));
        assert(replies.len() == k);
        if k > 0 {
            assert(replies[0] == world(acts[0]));
            let rest = replies.drop_first();
            assert(rest.len() == k - 1);
            if k > 1 {
                assert(replies[1] == world(acts[1]));
                assert(rest[0] == world(acts[1]));
                let end = rest.drop_first();
                assert(end.len() == k - 2);
                if k > 2 {
                    assert(end[0] == world(acts[2]));
                }
            }
        }
    }
    assert(acts.take(acts.len() as int) =~= acts);
}

/// Opening the device detects the interface and then counts its fans.
pub proof fn law_device_is_opened(world: spec_fn(Act) -> Reply)
    ensures
        performs(
            |replies: Seq<Reply>| open_move(replies),
            world,
            interface_acts(world) + fan_acts(interface_of(world), world),
            Ok(
                TuxedoIo {
                    interface: interface_of(world),
                    fan_count: fans_of(interface_of(world), world),
                },
            ),
        ),
{
    let interface = interface_of(world);
    let first = interface_acts(world);
    let second = fan_acts(interface, world);
    let acts = first + second;
    let n = first.len() as int;
    let op = |replies: Seq<Reply>| open_move(replies);
    let count = |replies: Seq<Reply>| fan_count_move(interface, replies);
    law_fans_are_counted(interface, world);
    assert forall|k: int| 0 <= k < acts.len() implies op(#[trigger] answers(world, acts.take(k)))
        == Move::<TuxedoIo>::Do(acts[k]) by {
        if k < n {
            lemma_detecting(world, k);
            assert(acts.take(k) =~= first.take(k));
        } else {
            let later = answers(world, second.take(k - n));
            assert(answers(world, acts.take(k)) =~= answers(world, first) + later);
            lemma_detected(world, later);
            assert((answers(world, first) + later).skip(n) =~= later);
            assert(count(later) == Move::<u32>::Do(second[k - n]));
        }
    }
    let later = answers(world, second);
    assert(answers(world, acts) =~= answers(world, first) + later);
    lemma_detected(world, later);
    assert((answers(world, first) + later).skip(n) =~= later);
    assert(count(later) == Move::<u32>::Done(Ok(fans_of(interface, world))));
}

/// The percentage of a duty is the nearest one, and so is the duty of a percentage, the
/// greater one of two; a percentage counts as one hundred from there on.
pub proof fn law_percentages_are_nearest(raw: nat, percent: nat)
    ensures
        -255 <= 2 * (255 * raw_to_percent(raw) - 100 * raw) <= 255,
        percent <= 100 ==> -100 < 2 * (100 * percent_to_raw(percent) - 255 * percent) <= 100,
        percent >= 100 ==> percent_to_raw(percent) == 255,
{
}

/// Reading the speed of a fan: of three fans on Clevo the low byte of the report as a
/// percentage, of two on Uniwill the value as it is.
pub proof fn law_fan_speed_is_read(io: TuxedoIo, fan: u32, world: spec_fn(Act) -> Reply)
    ensures
        ({
            let op = |replies: Seq<Reply>| fan_speed_move(io, fan, replies);
            match io.interface {
                HardwareInterface::Clevo => if fan < 3 {
                    performs(
                        op,
                        world,
                        seq![asking(0xed, 0x10 + fan)],
                        match read_result(0xed, 0x10 + fan, world(asking(0xed, 0x10 + fan))) {
                            Ok(report) => Ok(raw_to_percent((report & 0xff) as nat) as u32),
                            Err(message) => Err(message),
                        },
                    )
                } else {
                    performs(
                        op,
                        world,
                        Seq::empty(),
                        Err("Invalid Clevo fan ID: "@ + decimal(fan as nat)),
                    )
                },
                HardwareInterface::Uniwill => if fan < 2 {
                    performs(
                        op,
                        world,
                        seq![asking(0xef, 0x10 + fan)],
                        match read_result(0xef, 0x10 + fan, world(asking(0xef, 0x10 + fan))) {
                            Ok(value) => Ok(value as u32),
                            Err(message) => Err(message),
                        },
                    )
                } else {
                    performs(
                        op,
                        world,
                        Seq::empty(),
                        Err("Invalid Uniwill fan ID: "@ + decimal(fan as nat)),
                    )
                },
                HardwareInterface::Absent => performs(
                    op,
                    world,
                    Seq::empty(),
                    Err("No hardware interface"@),
                ),
            }
        }),
{
    let op = |replies: Seq<Reply>| fan_speed_move(io, fan, replies);
    if io.interface == HardwareInterface::Clevo && fan < 3 {
        lemma_codes(0xed, 0x10 + fan);
        let a = asking(0xed, 0x10 + fan);
        lemma_one_access(op, world, a, op(seq![world(a)])->Done_0);
    } else if io.interface == HardwareInterface::Uniwill && fan < 2 {
        lemma_codes(0xef, 0x10 + fan);
        let a = asking(0xef, 0x10 + fan);
        lemma_one_access(op, world, a, op(seq![world(a)])->Done_0);
    } else {
        lemma_no_access(op, world, op(Seq::empty())->Done_0);
    }
}

/// Reading the temperature at a fan: on Clevo the third byte of the report, above
/// one if the fan is there; on Uniwill a value above zero.
pub proof fn law_fan_temperature_is_read(io: TuxedoIo, fan: u32, world: spec_fn(Act) -> Reply)
    ensures
        ({
            let op = |replies: Seq<Reply>| fan_temperature_move(io, fan, replies);
            let missing = Err("Fan "@ + decimal(fan as nat) + " not available"@);
            match io.interface {
                HardwareInterface::Clevo => if fan < 3 {
                    performs(
                        op,
                        world,
                        seq![asking(0xed, 0x10 + fan)],
                        match read_result(0xed, 0x10 + fan, world(asking(0xed, 0x10 + fan))) {
                            Ok(report) => if (report >> 16) & 0xff > 1 {
                                Ok(((report >> 16) & 0xff) as u32)
                            } else {
                                missing
                            },
                            Err(message) => Err(message),
                        },
                    )
                } else {
                    performs(
                        op,
                        world,
                        Seq::empty(),
                        Err("Invalid Clevo fan ID: "@ + decimal(fan as nat)),
                    )
                },
                HardwareInterface::Uniwill => if fan < 2 {
                    performs(
                        op,
                        world,
                        seq![asking(0xef, 0x12 + fan)],
                        match read_result(0xef, 0x12 + fan, world(asking(0xef, 0x12 + fan))) {
                            Ok(value) => if value > 0 {
                                Ok(value as u32)
                            } else {
                                missing
                            },
                            Err(message) => Err(message),
                        },
                    )
                } else {
                    performs(
                        op,
                        world,
                        Seq::empty(),
                        Err("Invalid Uniwill fan ID: "@ + decimal(fan as nat)),
                    )
                },
                HardwareInterface::Absent => performs(
                    op,
                    world,
                    Seq::empty(),
                    Err("No hardware interface"@),
                ),
            }
        }),
{
    let op = |replies: Seq<Reply>| fan_temperature_move(io, fan, replies);
    if io.interface == HardwareInterface::Clevo && fan < 3 {
        lemma_codes(0xed, 0x10 + fan);
        let a = asking(0xed, 0x10 + fan);
        lemma_one_access(op, world, a, op(seq![world(a)])->Done_0);
    } else if io.interface == HardwareInterface::Uniwill && fan < 2 {
        lemma_codes(0xef, 0x12 + fan);
        let a = asking(0xef, 0x12 + fan);
        lemma_one_access(op, world, a, op(seq![world(a)])->Done_0);
    } else {
        lemma_no_access(op, world, op(Seq::empty())->Done_0);
    }
}

/// The duty that a Clevo fan is sent when one of them is set: that one its new duty,
/// the others the low byte of what they reported, and zero where they did not.
pub open spec fn duty_sent(
    io: TuxedoIo,
    fan: u32,
    percent: u32,
    world: spec_fn(Act) -> Reply,
    i: int,
) -> int {
    if i == fan {
        percent_to_raw(percent as nat) as int
    } else if i < io.fan_count {
        match world(asking(0xed, 0x10 + i)) {
            Reply::Value(report) => (report & 0xff) as int,
            _ => 0,
        }
    } else {
        0
    }
}

/// The requests that set a Clevo fan under manual control: every fan is read, and the
/// duties of all three are sent in one value.
pub open spec fn duty_acts(
    io: TuxedoIo,
    fan: u32,
    percent: u32,
    world: spec_fn(Act) -> Reply,
) -> Seq<Act> {
    let reads = Seq::new(
        if io.fan_count < 3 {
            io.fan_count as nat
        } else {
            3
        },
        |i: int| asking(0xed, 0x10 + i),
    );
    let value = duty_sent(io, fan, percent, world, 0) + 0x100 * duty_sent(
        io,
        fan,
        percent,
        world,
        1,
    ) + 0x1_0000 * duty_sent(io, fan, percent, world, 2);
    if fan < 3 {
        reads.push(sending(0xee, 0x10, value))
    } else {
        reads
    }
}

/// What comes of them; there are three fans.
pub open spec fn duty_outcome(
    io: TuxedoIo,
    fan: u32,
    percent: u32,
    world: spec_fn(Act) -> Reply,
) -> Result<(), Seq<char>> {
    if fan < 3 {
        write_result(0xee, 0x10, world(duty_acts(io, fan, percent, world).last()))
    } else {
        Err("Invalid Clevo fan ID: "@ + decimal(fan as nat))
    }
}

proof fn lemma_duties(
    io: TuxedoIo,
    fan: u32,
    percent: u32,
    world: spec_fn(Act) -> Reply,
    some: Seq<Reply>,
)
    requires
        fan < 3,
        some.len() == min_of(io.fan_count as nat, 3),
        forall|i: int| 0 <= i < some.len() ==> #[trigger] some[i] == world(asking(0xed, 0x10 + i)),
    ensures
        Act::Control(
            Ioctl::Write(write_code(0xee, 0x10), packed_duties(some, fan, percent)),
        ) == duty_acts(io, fan, percent, world).last(),
{
    lemma_codes(0xee, 0x10);
    assert forall|i: int| 0 <= i < 3 implies #[trigger] duty_to_send(some, fan, percent, i)
        == duty_sent(io, fan, percent, world, i) by {
        if i != fan && i < some.len() {
            if let Reply::Value(report) = some[i] {
                lemma_report_bytes(report);
            }
        }
    }
    assert(duty_to_send(some, fan, percent, 0) == duty_sent(io, fan, percent, world, 0));
    assert(duty_to_send(some, fan, percent, 1) == duty_sent(io, fan, percent, world, 1));
    assert(duty_to_send(some, fan, percent, 2) == duty_sent(io, fan, percent, world, 2));
}

proof fn lemma_duty_session(
    io: TuxedoIo,
    fan: u32,
    percent: u32,
    world: spec_fn(Act) -> Reply,
    k: int,
)
    requires
        0 <= k <= duty_acts(io, fan, percent, world).len(),
    ensures
        ({
            let acts = duty_acts(io, fan, percent, world);
            let next = clevo_duty_move(io.fan_count, fan, percent, answers(world, acts.take(k)));
            &&& k < acts.len() ==> next == Move::<()>::Do(acts[k])
            &&& k == acts.len() ==> next == Move::<()>::Done(
                duty_outcome(io, fan, percent, world),
            )
        }),
{
    let acts = duty_acts(io, fan, percent, world);
    let replies = answers(world, acts.take(k));
    let n = min_of(io.fan_count as nat, 3) as int;
    assert(replies.len() == k);
    assert(forall|i: int| 0 <= i < k ==> #[trigger] replies[i] == world(acts[i]));
    if k < n {
        lemma_codes(0xed, 0x10 + k);
    } else if fan < 3 {
        lemma_codes(0xee, 0x10);
        let some = replies.take(n);
        assert forall|i: int| 0 <= i < some.len() implies #[trigger] some[i] == world(
            asking(0xed, 0x10 + i),
        ) by {
            assert(some[i] == replies[i]);
        }
        lemma_duties(io, fan, percent, world, some);
        let rest = replies.skip(n);
        assert(rest.len() == k - n);
        if k > n {
            assert(rest[0] == replies[n]);
        }
    }
}

/// Setting a Clevo fan switches the automatic control off first, unless it is, and
/// ends there if that fails. Then it makes the requests for the duties, and ends as
/// they do.
pub proof fn law_clevo_fan_is_set(
    io: TuxedoIo,
    manual: bool,
    fan: u32,
    percent: u32,
    world: spec_fn(Act) -> Reply,
)
    requires
        io.interface == HardwareInterface::Clevo,
    ensures
        ({
            let op = |replies: Seq<Reply>| set_fan_move(io, manual, fan, percent, replies);
            let acts = duty_acts(io, fan, percent, world);
            let off = sending(0xee, 0x11, 0);
            if manual {
                performs(op, world, acts, duty_outcome(io, fan, percent, world))
            } else if world(off) is Failed {
                performs(op, world, seq![off], write_result(0xee, 0x11, world(off)))
            } else {
                performs(op, world, seq![off] + acts, duty_outcome(io, fan, percent, world))
            }
        }),
{
    lemma_codes(0xee, 0x11);
    let op = |replies: Seq<Reply>| set_fan_move(io, manual, fan, percent, replies);
    let acts = duty_acts(io, fan, percent, world);
    let off = sending(0xee, 0x11, 0);
    let n = acts.len() as int;
    if manual {
        assert forall|k: int| 0 <= k < n implies op(#[trigger] answers(world, acts.take(k)))
            == Move::<()>::Do(acts[k]) by {
            lemma_duty_session(io, fan, percent, world, k);
        }
        lemma_duty_session(io, fan, percent, world, n);
        assert(acts.take(n) =~= acts);
    } else if world(off) is Failed {
        lemma_one_access(op, world, off, write_result(0xee, 0x11, world(off)));
    } else {
        let all = seq![off] + acts;
        assert forall|k: int| 0 < k <= n + 1 implies op(#[trigger] answers(world, all.take(k)))
            == clevo_duty_move(
            io.fan_count,
            fan,
            percent,
            answers(world, acts.take(k - 1)),
        ) by {
            let replies = answers(world, all.take(k));
            assert(replies[0] == world(off));
            assert(replies.drop_first() =~= answers(world, acts.take(k - 1)));
        }
        assert forall|k: int| 0 <= k < all.len() implies op(#[trigger] answers(world, all.take(k)))
            == Move::<()>::Do(all[k]) by {
            if k == 0 {
                assert(answers(world, all.take(k)) =~= Seq::<Reply>::empty());
            } else {
                lemma_duty_session(io, fan, percent, world, k - 1);
            }
        }
        lemma_duty_session(io, fan, percent, world, n);
        assert(all.take(n + 1) =~= all);
        assert(acts.take(n) =~= acts);
    }
}

/// Setting one of the two Uniwill fans sends its value, at most two hundred. Without
/// an interface no fan can be set.
pub proof fn law_other_fan_is_set(
    io: TuxedoIo,
    manual: bool,
    fan: u32,
    percent: u32,
    world: spec_fn(Act) -> Reply,
)
    requires
        io.interface != HardwareInterface::Clevo,
    ensures
        ({
            let op = |replies: Seq<Reply>| set_fan_move(io, manual, fan, percent, replies);
            let value = if percent > 200 {
                200
            } else {
                percent as int
            };
            let sent = sending(0xf0, 0x10 + fan, value);
            if io.interface == HardwareInterface::Absent {
                performs(op, world, Seq::empty(), Err("No hardware interface"@))
            } else if fan < 2 {
                performs(op, world, seq![sent], write_result(0xf0, 0x10 + fan, world(sent)))
            } else {
                performs(
                    op,
                    world,
                    Seq::empty(),
                    Err("Invalid Uniwill fan ID: "@ + decimal(fan as nat)),
                )
            }
        }),
{
    let op = |replies: Seq<Reply>| set_fan_move(io, manual, fan, percent, replies);
    if io.interface == HardwareInterface::Uniwill && fan < 2 {
        lemma_codes(0xf0, 0x10 + fan);
        let value = if percent > 200 {
            200
        } else {
            percent as int
        };
        let a = sending(0xf0, 0x10 + fan, value);
        lemma_one_access(op, world, a, write_result(0xf0, 0x10 + fan, world(a)));
    } else {
        lemma_no_access(op, world, op(Seq::empty())->Done_0);
    }
}

/// Handing the fans back: Clevo firmware is sent fifteen with the request that zero
/// switches the automatic control off with, Uniwill firmware a request of its own.
pub proof fn law_fans_are_handed_back(io: TuxedoIo, world: spec_fn(Act) -> Reply)
    ensures
        ({
            let op = |replies: Seq<Reply>| fan_auto_move(io, replies);
            let clevo = sending(0xee, 0x11, 15);
            let uniwill = Act::Control(Ioctl::Command(0xf014, 1));
            match io.interface {
                HardwareInterface::Clevo => performs(
                    op,
                    world,
                    seq![clevo],
                    write_result(0xee, 0x11, world(clevo)),
                ),
                HardwareInterface::Uniwill => performs(
                    op,
                    world,
                    seq![uniwill],
                    match world(uniwill) {
                        Reply::Failed(reason) => Err(
                            "ioctl write failed (req=0x"@ + numeral(0xf014, 16) + "): "@ + reason@,
                        ),
                        _ => Ok(()),
                    },
                ),
                HardwareInterface::Absent => performs(
                    op,
                    world,
                    Seq::empty(),
                    Err("No hardware interface"@),
                ),
            }
        }),
{
    let op = |replies: Seq<Reply>| fan_auto_move(io, replies);
    lemma_codes(0xee, 0x11);
    law_request_number(0, 0xf0, 0x14, 0);
    match io.interface {
        HardwareInterface::Clevo => {
            let a = sending(0xee, 0x11, 15);
            lemma_one_access(op, world, a, write_result(0xee, 0x11, world(a)));
        },
        HardwareInterface::Uniwill => {
            let a = Act::Control(Ioctl::Command(0xf014, 1));
            lemma_one_access(op, world, a, op(seq![world(a)])->Done_0);
        },
        HardwareInterface::Absent => {
            lemma_no_access(op, world, op(Seq::empty())->Done_0);
        },
    }
}

/// Clevo fans are under manual control once the request that switches the automatic
/// one off has succeeded, and until the one that switches it on has; nothing else
/// changes it.
pub proof fn law_manual_control(manual: bool, action: Act, reply: Reply)
    ensures
        manual_after(manual, action, reply) == (if reply is Failed {
            manual
        } else if action == sending(0xee, 0x11, 0) {
            true
        } else if action == sending(0xee, 0x11, 15) {
            false
        } else {
            manual
        }),
{
    lemma_codes(0xee, 0x11);
}

/// The power limits of Uniwill firmware are read and written as they are, each by its
/// own request.
pub proof fn law_power_limits(io: TuxedoIo, nr: int, value: u32, world: spec_fn(Act) -> Reply)
    requires
        0 <= nr < 0x100,
    ensures
        ({
            let get = |replies: Seq<Reply>| tdp_read_move(io, nr, replies);
            let put = |replies: Seq<Reply>| tdp_write_move(io, nr, value, replies);
            let refused = Err("TDP control only available on Uniwill interface"@);
            let sent = sending(0xf0, nr, value as i32 as int);
            if io.interface == HardwareInterface::Uniwill {
                &&& performs(
                    get,
                    world,
                    seq![asking(0xef, nr)],
                    match read_result(0xef, nr, world(asking(0xef, nr))) {
                        Ok(limit) => Ok(limit as u32),
                        Err(message) => Err(message),
                    },
                )
                &&& performs(put, world, seq![sent], write_result(0xf0, nr, world(sent)))
            } else {
                &&& performs(get, world, Seq::empty(), Err(refused->Err_0))
                &&& performs(put, world, Seq::empty(), refused)
            }
        }),
{
    let get = |replies: Seq<Reply>| tdp_read_move(io, nr, replies);
    let put = |replies: Seq<Reply>| tdp_write_move(io, nr, value, replies);
    if io.interface == HardwareInterface::Uniwill {
        lemma_codes(0xef, nr);
        lemma_codes(0xf0, nr);
        let a = asking(0xef, nr);
        lemma_one_access(get, world, a, get(seq![world(a)])->Done_0);
        let b = sending(0xf0, nr, value as i32 as int);
        lemma_one_access(put, world, b, write_result(0xf0, nr, world(b)));
    } else {
        lemma_no_access(get, world, get(Seq::empty())->Done_0);
        lemma_no_access(put, world, put(Seq::empty())->Done_0);
    }
}

/// The performance profile that Uniwill firmware reports: power saving with both bits
/// of the one kind and without the other, overboost the other way round, and
/// enthusiast in any other case.
pub proof fn law_reported_profile(io: TuxedoIo, world: spec_fn(Act) -> Reply)
    ensures
        ({
            let op = |replies: Seq<Reply>| uw_profile_move(io, replies);
            if io.interface == HardwareInterface::Uniwill {
                performs(
                    op,
                    world,
                    seq![asking(0xef, 0x14)],
                    match read_result(0xef, 0x14, world(asking(0xef, 0x14))) {
                        Ok(value) => {
                            let mode = value as u32;
                            if mode & 0xa0 == 0xa0 && mode & 0x10 == 0 {
                                Ok(1)
                            } else if mode & 0xa0 == 0 && mode & 0x10 != 0 {
                                Ok(3)
                            } else {
                                Ok(2)
                            }
                        },
                        Err(message) => Err(message),
                    },
                )
            } else {
                performs(
                    op,
                    world,
                    Seq::empty(),
                    Err("Uniwill performance profile only available on Uniwill interface"@),
                )
            }
        }),
{
    let op = |replies: Seq<Reply>| uw_profile_move(io, replies);
    if io.interface == HardwareInterface::Uniwill {
        lemma_codes(0xef, 0x14);
        let a = asking(0xef, 0x14);
        lemma_one_access(op, world, a, op(seq![world(a)])->Done_0);
    } else {
        lemma_no_access(op, world, op(Seq::empty())->Done_0);
    }
}

/// The profiles of a device: always the same four on Clevo; on Uniwill two or three,
/// as many as it says, and none below two; none without an interface.
pub proof fn law_profiles_are_listed(io: TuxedoIo, world: spec_fn(Act) -> Reply)
    ensures
        ({
            let op = |replies: Seq<Reply>| profiles_move(io, replies);
            let names = seq!["power_save"@, "enthusiast"@, "overboost"@];
            match io.interface {
                HardwareInterface::Clevo => performs(
                    op,
                    world,
                    Seq::empty(),
                    Ok(seq!["quiet"@, "power_saving"@, "performance"@, "entertainment"@]),
                ),
                HardwareInterface::Uniwill => performs(
                    op,
                    world,
                    seq![asking(0xef, 0x21)],
                    match read_result(0xef, 0x21, world(asking(0xef, 0x21))) {
                        Ok(count) => Ok(
                            names.take(
                                if count >= 3 {
                                    3
                                } else if count == 2 {
                                    2
                                } else {
                                    0
                                },
                            ),
                        ),
                        Err(message) => Err(message),
                    },
                ),
                HardwareInterface::Absent => performs(op, world, Seq::empty(), Ok(Seq::empty())),
            }
        }),
{
    let op = |replies: Seq<Reply>| profiles_move(io, replies);
    if io.interface == HardwareInterface::Uniwill {
        lemma_codes(0xef, 0x21);
        let a = asking(0xef, 0x21);
        lemma_one_access(op, world, a, op(seq![world(a)])->Done_0);
        let names = seq!["power_save"@, "enthusiast"@, "overboost"@];
        assert(names.take(3) =~= names);
        assert(names.take(2) =~= seq!["power_save"@, "enthusiast"@]);
        assert(names.take(0) =~= Seq::<Seq<char>>::empty());
    } else {
        lemma_no_access(op, world, op(Seq::empty())->Done_0);
    }
}

/// Selecting a profile sends its number: zero to three on Clevo, one to three on
/// Uniwill. Any other number is refused.
pub proof fn law_profile_is_selected(io: TuxedoIo, id: u32, world: spec_fn(Act) -> Reply)
    ensures
        ({
            let op = |replies: Seq<Reply>| set_profile_move(io, id, replies);
            let clevo = sending(0xee, 0x15, id as int);
            let uniwill = sending(0xf0, 0x18, id as int);
            match io.interface {
                HardwareInterface::Clevo => if id <= 3 {
                    performs(op, world, seq![clevo], write_result(0xee, 0x15, world(clevo)))
                } else {
                    performs(
                        op,
                        world,
                        Seq::empty(),
                        Err("Invalid Clevo profile ID: "@ + decimal(id as nat)),
                    )
                },
                HardwareInterface::Uniwill => if 1 <= id <= 3 {
                    performs(op, world, seq![uniwill], write_result(0xf0, 0x18, world(uniwill)))
                } else {
                    performs(
                        op,
                        world,
                        Seq::empty(),
                        Err("Invalid Uniwill profile ID: "@ + decimal(id as nat)),
                    )
                },
                HardwareInterface::Absent => performs(
                    op,
                    world,
                    Seq::empty(),
                    Err("No hardware interface available"@),
                ),
            }
        }),
{
    let op = |replies: Seq<Reply>| set_profile_move(io, id, replies);
    lemma_codes(0xee, 0x15);
    lemma_codes(0xf0, 0x18);
    let clevo = sending(0xee, 0x15, id as int);
    let uniwill = sending(0xf0, 0x18, id as int);
    if io.interface == HardwareInterface::Clevo && id <= 3 {
        lemma_one_access(op, world, clevo, write_result(0xee, 0x15, world(clevo)));
    } else if io.interface == HardwareInterface::Uniwill && 1 <= id <= 3 {
        lemma_one_access(op, world, uniwill, write_result(0xf0, 0x18, world(uniwill)));
    } else {
        lemma_no_access(op, world, op(Seq::empty())->Done_0);
    }
}

/// The webcam of Clevo laptops is on unless the switch reads zero, and is switched by
/// one and zero.
pub proof fn law_webcam(io: TuxedoIo, on: bool, world: spec_fn(Act) -> Reply)
    ensures
        ({
            let get = |replies: Seq<Reply>| webcam_read_move(io, replies);
            let put = |replies: Seq<Reply>| webcam_write_move(io, on, replies);
            let refused = "Webcam control only available on Clevo interface"@;
            let sent = sending(
                0xee,
                0x12,
                if on {
                    1
                } else {
                    0
                },
            );
            if io.interface == HardwareInterface::Clevo {
                &&& performs(
                    get,
                    world,
                    seq![asking(0xed, 0x13)],
                    match read_result(0xed, 0x13, world(asking(0xed, 0x13))) {
                        Ok(value) => Ok(value != 0),
                        Err(message) => Err(message),
                    },
                )
                &&& performs(put, world, seq![sent], write_result(0xee, 0x12, world(sent)))
            } else {
                &&& performs(get, world, Seq::empty(), Err(refused))
                &&& performs(put, world, Seq::empty(), Err(refused))
            }
        }),
{
    let get = |replies: Seq<Reply>| webcam_read_move(io, replies);
    let put = |replies: Seq<Reply>| webcam_write_move(io, on, replies);
    if io.interface == HardwareInterface::Clevo {
        lemma_codes(0xed, 0x13);
        lemma_codes(0xee, 0x12);
        let a = asking(0xed, 0x13);
        lemma_one_access(get, world, a, get(seq![world(a)])->Done_0);
        let b = sending(
            0xee,
            0x12,
            if on {
                1
            } else {
                0
            },
        );
        lemma_one_access(put, world, b, write_result(0xee, 0x12, world(b)));
    } else {
        lemma_no_access(get, world, get(Seq::empty())->Done_0);
        lemma_no_access(put, world, put(Seq::empty())->Done_0);
    }
}

/// A keyboard command is sent to Clevo firmware as it is.
pub proof fn law_keyboard_command_is_sent(
    io: TuxedoIo,
    command: u32,
    world: spec_fn(Act) -> Reply,
)
    ensures
        ({
            let op = |replies: Seq<Reply>| keyboard_move(io, command, replies);
            let sent = Act::Control(Ioctl::WriteWide(0x4008_ee67, command as u64));
            if io.interface == HardwareInterface::Clevo {
                performs(op, world, seq![sent], write_result(0xee, 0x67, world(sent)))
            } else {
                performs(
                    op,
                    world,
                    Seq::empty(),
                    Err("Clevo keyboard control only available on Clevo interface"@),
                )
            }
        }),
{
    let op = |replies: Seq<Reply>| keyboard_move(io, command, replies);
    lemma_codes(0xee, 0x67);
    if io.interface == HardwareInterface::Clevo {
        let a = Act::Control(Ioctl::WriteWide(0x4008_ee67, command as u64));
        lemma_one_access(op, world, a, write_result(0xee, 0x67, world(a)));
    } else {
        lemma_no_access(op, world, op(Seq::empty())->Done_0);
    }
}

/// The command of a colour has the zone, counted from 0xf0, then blue, red and green
/// in its bytes; that of the brightness has 0xf4 and the percentage, at most one
/// hundred.
pub proof fn law_bytes_of_commands(zone: u8, r: u8, g: u8, b: u8, percent: u8)
    requires
        zone <= 2,
    ensures
        color_command(zone, r, g, b) == 0x100_0000 * (0xf0 + zone) + 0x1_0000 * b + 0x100 * r + g,
        brightness_command(percent) == 0x100_0000 * 0xf4 + (if percent > 100 {
            100
        } else {
            percent as int
        }),
{
}

} // verus!
