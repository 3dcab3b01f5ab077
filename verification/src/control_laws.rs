//! What holds of the screen, the graphics cards and everything behind the control
//! device, on any machine.

use crate::access::{Act, GpuRequest, Ioctl, Move, Reply};
use crate::device_laws::{
    asking, law_fans_are_handed_back, law_profile_is_selected, law_profiles_are_listed,
    lemma_no_access, lemma_one_access, sending, write_result,
};
use crate::fan_curve::FanPlan;
use crate::hardware_control::{
    behind_device, choose_profile_move, fan_settings_move, fan_state_after, gpu_move,
    interface_name, prime_move, program_dirs, program_move, program_used, webcam_state_move,
};
use crate::screen_control::{backlight_move, backlights, screen_settings_move, ScreenSettings};
use crate::session_laws::{answers, maximum_in, performs};
use crate::text::{decimal, first_index, is_first, lemma_first_index, numeral, quoted_list};
use crate::tuxedo_io::{
    fan_auto_move, min_of, profiles_move, set_profile_move, HardwareInterface, TuxedoIo,
};
use vstd::prelude::*;

verus! {

/// The question for the control device.
pub open spec fn ask_device() -> Act {
    Act::Probe("/dev/tuxedo_io"@)
}

/// Everything behind the control device asks for it first. If it is missing the
/// operation ends as it says; if it could not be opened that is an error; otherwise
/// the operation goes on with the device.
pub proof fn law_behind_the_device<T>(
    absent: Result<T, Seq<char>>,
    io: Option<TuxedoIo>,
    answer: Reply,
    later: Seq<Reply>,
    rest: spec_fn(TuxedoIo, Seq<Reply>) -> Move<T>,
)
    ensures
        behind_device(absent, io, Seq::empty(), rest) == Move::<T>::Do(ask_device()),
        behind_device(absent, io, seq![answer] + later, rest) == (if answer != Reply::Present(
            true,
        ) {
            Move::<T>::Done(absent)
        } else {
            match io {
                None => Move::<T>::Done(Err("tuxedo_io not available"@)),
                Some(device) => rest(device, later),
            }
        }),
{
    let replies = seq![answer] + later;
    assert(replies[0] == answer);
    assert(replies.skip(1) =~= later);
}

/// The smaller of two numbers.
pub proof fn law_smaller(a: nat, b: nat)
    ensures
        min_of(a, b) <= a,
        min_of(a, b) <= b,
        min_of(a, b) == a || min_of(a, b) == b,
{
}

/// The number of a profile by its name: by its place in the list of the four that
/// Clevo firmware has; counted from one among the three of Uniwill firmware, as far
/// as it says that it has them.
pub open spec fn number_of(interface: HardwareInterface, count: int, name: Seq<char>) -> Option<
    int,
> {
    match interface {
        HardwareInterface::Clevo => if name == "quiet"@ {
            Some(0)
        } else if name == "power_saving"@ {
            Some(1)
        } else if name == "performance"@ {
            Some(2)
        } else if name == "entertainment"@ {
            Some(3)
        } else {
            None
        },
        HardwareInterface::Uniwill => if name == "power_save"@ && count >= 2 {
            Some(1)
        } else if name == "enthusiast"@ && count >= 2 {
            Some(2)
        } else if name == "overboost"@ && count >= 3 {
            Some(3)
        } else {
            None
        },
        HardwareInterface::Absent => None,
    }
}

proof fn lemma_names()
    ensures
        "power_save"@ != "enthusiast"@,
        "power_save"@ != "overboost"@,
        "enthusiast"@ != "overboost"@,
        "quiet"@ != "power_saving"@,
        "quiet"@ != "performance"@,
        "quiet"@ != "entertainment"@,
        "power_saving"@ != "performance"@,
        "power_saving"@ != "entertainment"@,
        "performance"@ != "entertainment"@,
{
    reveal_strlit("quiet");
    reveal_strlit("power_saving");
    reveal_strlit("performance");
    reveal_strlit("entertainment");
    reveal_strlit("power_save");
    reveal_strlit("enthusiast");
    reveal_strlit("overboost");
    assert("power_save"@[0] == 'p' && "enthusiast"@[0] == 'e');
    assert("quiet"@.len() == 5 && "power_saving"@.len() == 12 && "performance"@.len() == 11
        && "entertainment"@.len() == 13 && "overboost"@.len() == 9 && "power_save"@.len() == 10
        && "enthusiast"@.len() == 10);
}

/// The names of the profiles that a device has.
pub open spec fn offered(interface: HardwareInterface, count: int) -> Seq<Seq<char>> {
    match interface {
        HardwareInterface::Clevo => seq![
            "quiet"@,
            "power_saving"@,
            "performance"@,
            "entertainment"@,
        ],
        HardwareInterface::Uniwill => if count >= 3 {
            seq!["power_save"@, "enthusiast"@, "overboost"@]
        } else if count == 2 {
            seq!["power_save"@, "enthusiast"@]
        } else {
            Seq::empty()
        },
        HardwareInterface::Absent => Seq::empty(),
    }
}

proof fn lemma_place(list: Seq<Seq<char>>, name: Seq<char>)
    requires
        forall|i: int, j: int| 0 <= i < j < list.len() ==> #[trigger] list[i] != #[trigger] list[j],
    ensures
        forall|i: int|
            0 <= i < list.len() && #[trigger] list[i] == name ==> first_index(list, name) == Some(i),
        (forall|i: int| 0 <= i < list.len() ==> #[trigger] list[i] != name) ==> first_index(
            list,
            name,
        ) is None,
{
    assert forall|i: int| 0 <= i < list.len() && #[trigger] list[i] == name implies first_index(
        list,
        name,
    ) == Some(i) by {
        assert(is_first(list, name, i));
        lemma_first_index(list, name, i);
    }
}

/// Choosing a profile by its name sends its number; on Uniwill the firmware is asked
/// how many profiles it has before. A name that it does not have is refused, and
/// nothing is sent.
pub proof fn law_profile_by_name(
    io: TuxedoIo,
    name: Seq<char>,
    count: i32,
    world: spec_fn(Act) -> Reply,
)
    requires
        io.interface == HardwareInterface::Uniwill ==> world(asking(0xef, 0x21)) == Reply::Value(
            count,
        ),
    ensures
        ({
            let op = |replies: Seq<Reply>| choose_profile_move(io, name, replies);
            let asked = if io.interface == HardwareInterface::Uniwill {
                seq![asking(0xef, 0x21)]
            } else {
                Seq::empty()
            };
            match number_of(io.interface, count as int, name) {
                Some(id) => {
                    let sent = if io.interface == HardwareInterface::Uniwill {
                        sending(0xf0, 0x18, id)
                    } else {
                        sending(0xee, 0x15, id)
                    };
                    let outcome = if io.interface == HardwareInterface::Uniwill {
                        write_result(0xf0, 0x18, world(sent))
                    } else {
                        write_result(0xee, 0x15, world(sent))
                    };
                    performs(op, world, asked.push(sent), outcome)
                },
                None => performs(
                    op,
                    world,
                    asked,
                    Err(
                        "Profile '"@ + name + ("' not found. Available: "@ + quoted_list(
                            offered(io.interface, count as int),
                        )),
                    ),
                ),
            }
        }),
{
    let op = |replies: Seq<Reply>| choose_profile_move(io, name, replies);
    let list_op = |replies: Seq<Reply>| profiles_move(io, replies);
    law_profiles_are_listed(io, world);
    lemma_names();
    let uniwill = io.interface == HardwareInterface::Uniwill;
    let asked = if uniwill {
        seq![asking(0xef, 0x21)]
    } else {
        Seq::empty()
    };
    let base = answers(world, asked);
    let n = asked.len() as int;
    if uniwill {
        assert(base =~= seq![Reply::Value(count)]);
    } else {
        assert(base =~= Seq::<Reply>::empty());
    }
    let list = list_op(base)->Done_0->Ok_0;
    assert(list_op(base) == Move::<Seq<Seq<char>>>::Done(Ok(list)));
    assert(list =~= offered(io.interface, count as int));
    assert(forall|i: int, j: int|
        0 <= i < j < list.len() ==> #[trigger] list[i] != #[trigger] list[j]);
    lemma_place(list, name);
    if uniwill {
        assert(answers(world, asked.take(0)) =~= Seq::<Reply>::empty());
        assert(list_op(answers(world, asked.take(0))) == Move::<Seq<Seq<char>>>::Do(asked[0]));
    }
    match number_of(io.interface, count as int, name) {
        Some(id) => {
            let at = if uniwill {
                id - 1
            } else {
                id
            };
            assert(list[at] == name);
            let select = |replies: Seq<Reply>| set_profile_move(io, id as u32, replies);
            law_profile_is_selected(io, id as u32, world);
            let sent = if uniwill {
                sending(0xf0, 0x18, id)
            } else {
                sending(0xee, 0x15, id)
            };
            let one = seq![sent];
            let acts = asked.push(sent);
            assert(answers(world, one.take(0)) =~= Seq::<Reply>::empty());
            assert(select(answers(world, one.take(0))) == Move::<()>::Do(one[0]));
            assert(base.skip(n) =~= Seq::<Reply>::empty());
            assert forall|k: int| 0 <= k < acts.len() implies op(
                #[trigger] answers(world, acts.take(k)),
            ) == Move::<()>::Do(acts[k]) by {
                if k < n {
                    assert(acts.take(k) =~= asked.take(k));
                } else {
                    assert(acts.take(k) =~= asked);
                }
            }
            let replies = answers(world, acts);
            if uniwill {
                assert(replies[0] == base[0]);
                assert(profiles_move(io, replies) == Move::<Seq<Seq<char>>>::Done(Ok(list)));
            }
            assert(replies.skip(n) =~= answers(world, one));
            assert(select(answers(world, one)) is Done);
        },
        None => {
            assert(forall|i: int| 0 <= i < list.len() ==> #[trigger] list[i] != name);
            assert forall|k: int| 0 <= k < asked.len() implies op(
                #[trigger] answers(world, asked.take(k)),
            ) == Move::<()>::Do(asked[k]) by {
                assert(k == 0);
            }
        },
    }
}

/// What comes of handing the fans back.
pub open spec fn handed_back(io: TuxedoIo, world: spec_fn(Act) -> Reply) -> Result<(), Seq<char>> {
    match io.interface {
        HardwareInterface::Clevo => write_result(0xee, 0x11, world(sending(0xee, 0x11, 15))),
        HardwareInterface::Uniwill => match world(Act::Control(Ioctl::Command(0xf014, 1))) {
            Reply::Failed(reason) => Err(
                "ioctl write failed (req=0x"@ + numeral(0xf014, 16) + "): "@ + reason@,
            ),
            _ => Ok(()),
        },
        HardwareInterface::Absent => Err("No hardware interface"@),
    }
}

/// Fan settings on a machine without the control device change nothing and are no
/// error. With it, settings that control the fans become those that the fan control
/// works by, and nothing is sent; settings that do not end the fan control and hand
/// the fans back.
pub proof fn law_fan_settings(
    settings: FanPlan,
    before: Option<FanPlan>,
    io: TuxedoIo,
    world: spec_fn(Act) -> Reply,
)
    ensures
        ({
            let op = |replies: Seq<Reply>| fan_settings_move(settings, Some(io), replies);
            let there = world(ask_device()) == Reply::Present(true);
            let handed = match io.interface {
                HardwareInterface::Clevo => seq![sending(0xee, 0x11, 15)],
                HardwareInterface::Uniwill => seq![Act::Control(Ioctl::Command(0xf014, 1))],
                HardwareInterface::Absent => Seq::empty(),
            };
            let asked = seq![ask_device()];
            let after = fan_state_after(before, settings, answers(world, asked));
            &&& !there ==> performs(op, world, asked, Ok(())) && after == before
            &&& there && settings.control_enabled ==> performs(op, world, asked, Ok(())) && after
                == Some(settings)
            &&& there && !settings.control_enabled ==> after is None && performs(
                op,
                world,
                asked + asked + handed,
                handed_back(io, world),
            )
            &&& fan_state_after(before, settings, Seq::empty()) == before
        }),
{
    let op = |replies: Seq<Reply>| fan_settings_move(settings, Some(io), replies);
    let there = world(ask_device()) == Reply::Present(true);
    let asked = seq![ask_device()];
    assert(answers(world, asked) =~= seq![world(ask_device())]);
    if !there || settings.control_enabled {
        lemma_one_access(op, world, ask_device(), Ok(()));
    } else {
        law_fans_are_handed_back(io, world);
        let back = |replies: Seq<Reply>| fan_auto_move(io, replies);
        let handed = match io.interface {
            HardwareInterface::Clevo => seq![sending(0xee, 0x11, 15)],
            HardwareInterface::Uniwill => seq![Act::Control(Ioctl::Command(0xf014, 1))],
            HardwareInterface::Absent => Seq::empty(),
        };
        let outcome = handed_back(io, world);
        assert(performs(back, world, handed, outcome));
        let acts = asked + asked + handed;
        let present = world(ask_device());
        assert forall|k: int| 2 <= k <= acts.len() implies op(
            #[trigger] answers(world, acts.take(k)),
        ) == back(answers(world, handed.take(k - 2))) by {
            let replies = answers(world, acts.take(k));
            assert(replies[0] == present && replies[1] == present);
            assert(replies.skip(1)[0] == present);
            assert(replies.skip(1).skip(1) =~= answers(world, handed.take(k - 2)));
        }
        assert forall|k: int| 0 <= k < acts.len() implies op(
            #[trigger] answers(world, acts.take(k)),
        ) == Move::<()>::Do(acts[k]) by {
            let replies = answers(world, acts.take(k));
            if k == 0 {
                assert(replies =~= Seq::<Reply>::empty());
            } else if k == 1 {
                assert(replies[0] == present);
                assert(replies.skip(1) =~= Seq::<Reply>::empty());
            } else {
                assert(back(answers(world, handed.take(k - 2))) == Move::<()>::Do(handed[k - 2]));
            }
        }
        assert(acts.take(acts.len() as int) =~= acts);
        assert(handed.take(handed.len() as int) =~= handed);
        assert(performs(op, world, acts, outcome));
    }
}

/// The webcam counts as on where it cannot be read, and on laptops that are no Clevo
/// without being asked.
pub proof fn law_webcam_state(io: TuxedoIo, value: i32, reason: String)
    ensures
        io.interface != HardwareInterface::Clevo ==> webcam_state_move(io, Seq::empty()) == Move::<
            bool,
        >::Done(Ok(true)),
        io.interface == HardwareInterface::Clevo ==> {
            &&& webcam_state_move(io, Seq::empty()) == Move::<bool>::Do(asking(0xed, 0x13))
            &&& webcam_state_move(io, seq![Reply::Value(value)]) == Move::<bool>::Done(
                Ok(value != 0),
            )
            &&& webcam_state_move(io, seq![Reply::Failed(reason)]) == Move::<bool>::Done(Ok(true))
        },
{
    crate::device_laws::lemma_codes(0xed, 0x13);
}

/// A request to a graphics card is sent to that card as it is, and its failure is the
/// outcome.
pub proof fn law_card_gets_the_request(
    card: u32,
    request: GpuRequest,
    world: spec_fn(Act) -> Reply,
)
    ensures
        performs(
            |replies: Seq<Reply>| gpu_move(card, request, replies),
            world,
            seq![Act::Gpu(card, request)],
            match world(Act::Gpu(card, request)) {
                Reply::Failed(reason) => Err(reason@),
                _ => Ok(()),
            },
        ),
{
    let op = |replies: Seq<Reply>| gpu_move(card, request, replies);
    let a = Act::Gpu(card, request);
    lemma_one_access(op, world, a, op(seq![world(a)])->Done_0);
}

/// The places where `optimus-manager` is looked for, in order.
pub open spec fn manager_paths() -> Seq<Seq<char>> {
    let name = "/"@ + "optimus-manager"@;
    seq![
        "/usr/bin"@ + name,
        "/usr/sbin"@ + name,
        "/usr/local/bin"@ + name,
        "/usr/local/sbin"@ + name,
        "/sbin"@ + name,
        "/bin"@ + name,
    ]
}

/// What comes of running a program.
pub open spec fn exit(reply: Reply, prefix: Seq<char>) -> Result<(), Seq<char>> {
    match reply {
        Reply::Exit(true, _) => Ok(()),
        Reply::Exit(false, output) => Err(prefix + output@),
        Reply::Failed(reason) => Err(reason@),
        _ => Err("no exit status in reply"@),
    }
}

proof fn lemma_program(cmd: Seq<char>, k: nat, replies: Seq<Reply>, at: nat)
    requires
        k <= at <= 6,
        at <= replies.len(),
        forall|i: int| k <= i < at ==> #[trigger] replies[i] != Reply::Present(true),
    ensures
        at < 6 && replies.len() == at ==> program_move(cmd, k, replies) == Move::<
            Option<Seq<char>>,
        >::Do(Act::Probe(program_dirs()[at as int] + "/"@ + cmd)),
        at < 6 && replies.len() > at && replies[at as int] == Reply::Present(true)
            ==> program_move(cmd, k, replies) == Move::<Option<Seq<char>>>::Done(
            Ok(Some(program_dirs()[at as int] + "/"@ + cmd)),
        ) && program_used(k, replies) == at + 1,
        at == 6 ==> program_move(cmd, k, replies) == Move::<Option<Seq<char>>>::Done(Ok(None))
            && program_used(k, replies) == 6,
    decreases 6 - k,
{
    if k < at {
        assert(replies[k as int] != Reply::Present(true));
        lemma_program(cmd, k + 1, replies, at);
    }
}

/// A graphics profile is chosen with `optimus-manager` from the first place where it
/// is found, under its own name for the profile, and otherwise with `prime-select`;
/// the outcome is that of the program. Any other profile is refused.
pub proof fn law_graphics_profile(profile: Seq<char>, at: int, world: spec_fn(Act) -> Reply)
    requires
        0 <= at <= 6,
        forall|i: int|
            0 <= i < at ==> world(Act::Probe(#[trigger] manager_paths()[i])) != Reply::Present(
                true,
            ),
        at < 6 ==> world(Act::Probe(manager_paths()[at])) == Reply::Present(true),
    ensures
        ({
            let op = |replies: Seq<Reply>| prime_move(profile, replies);
            let mode = if profile == "on-demand"@ {
                "hybrid"@
            } else if profile == "intel"@ {
                "integrated"@
            } else {
                "nvidia"@
            };
            let probes = Seq::new(
                if at < 6 {
                    (at + 1) as nat
                } else {
                    6
                },
                |i: int| Act::Probe(manager_paths()[i]),
            );
            let manager = Act::Run(
                manager_paths()[at],
                seq!["--switch"@, mode, "--no-confirm"@],
            );
            let select = Act::Run("prime-select"@, seq![profile]);
            if profile != "on-demand"@ && profile != "nvidia"@ && profile != "intel"@ {
                performs(op, world, Seq::empty(), Err("Invalid prime profile: "@ + profile))
            } else if at < 6 {
                performs(
                    op,
                    world,
                    probes.push(manager),
                    exit(world(manager), "optimus-manager command failed: "@),
                )
            } else {
                performs(
                    op,
                    world,
                    probes.push(select),
                    exit(world(select), "prime-select command failed: "@),
                )
            }
        }),
{
    let op = |replies: Seq<Reply>| prime_move(profile, replies);
    let cmd = "optimus-manager"@;
    if profile != "on-demand"@ && profile != "nvidia"@ && profile != "intel"@ {
        lemma_no_access(op, world, op(Seq::empty())->Done_0);
    } else {
        assert forall|i: int| 0 <= i < 6 implies #[trigger] program_dirs()[i] + "/"@ + cmd
            == manager_paths()[i] by {
            assert(program_dirs()[i] + "/"@ + cmd =~= program_dirs()[i] + ("/"@ + cmd));
        }
        let mode = if profile == "on-demand"@ {
            "hybrid"@
        } else if profile == "intel"@ {
            "integrated"@
        } else {
            "nvidia"@
        };
        let n: nat = if at < 6 {
            (at + 1) as nat
        } else {
            6
        };
        let probes = Seq::new(n, |i: int| Act::Probe(manager_paths()[i]));
        let run = if at < 6 {
            Act::Run(manager_paths()[at], seq!["--switch"@, mode, "--no-confirm"@])
        } else {
            Act::Run("prime-select"@, seq![profile])
        };
        let acts = probes.push(run);
        assert forall|k: int| 0 <= k < acts.len() implies op(
            #[trigger] answers(world, acts.take(k)),
        ) == Move::<()>::Do(acts[k]) by {
            let replies = answers(world, acts.take(k));
            assert(replies.len() == k);
            assert forall|i: int| 0 <= i < k implies #[trigger] replies[i] == world(
                Act::Probe(manager_paths()[i]),
            ) by {
                assert(acts[i] == Act::Probe(manager_paths()[i]));
            }
            if k < n {
                lemma_program(cmd, 0, replies, k as nat);
                assert(program_dirs()[k] + "/"@ + cmd == manager_paths()[k]);
            } else {
                lemma_program(cmd, 0, replies, at as nat);
                if at < 6 {
                    assert(program_dirs()[at] + "/"@ + cmd == manager_paths()[at]);
                }
                assert(replies.skip(n as int) =~= Seq::<Reply>::empty());
            }
        }
        let replies = answers(world, acts);
        assert forall|i: int| 0 <= i < n implies #[trigger] replies[i] == world(
            Act::Probe(manager_paths()[i]),
        ) by {
            assert(acts[i] == Act::Probe(manager_paths()[i]));
        }
        lemma_program(cmd, 0, replies, at as nat);
        if at < 6 {
            assert(program_dirs()[at] + "/"@ + cmd == manager_paths()[at]);
        }
        assert(replies.skip(n as int)[0] == world(run));
    }
}

/// The backlights, in the order in which they are tried.
pub open spec fn screens() -> Seq<Seq<char>> {
    seq![
        "/sys/class/backlight/intel_backlight"@,
        "/sys/class/backlight/amdgpu_bl0"@,
        "/sys/class/backlight/amdgpu_bl1"@,
        "/sys/class/backlight/acpi_video0"@,
    ]
}

/// The accesses to one backlight: if it has a brightness, its maximum is read, and
/// the level, that part of the maximum, is written to the actual brightness where
/// there is one and to the brightness.
pub open spec fn screen_acts(dir: Seq<char>, percent: u8, world: spec_fn(Act) -> Reply) -> Seq<
    Act,
> {
    let maximum = Act::Read(dir + "/max_brightness"@);
    let level = decimal(percent as nat * maximum_in(world(maximum)) / 100);
    let actual = dir + "/actual_brightness"@;
    if world(Act::Probe(dir + "/brightness"@)) != Reply::Present(true) {
        seq![Act::Probe(dir + "/brightness"@)]
    } else if world(Act::Probe(actual)) == Reply::Present(true) {
        seq![
            Act::Probe(dir + "/brightness"@),
            maximum,
            Act::Probe(actual),
            Act::Write(actual, level),
            Act::Write(dir + "/brightness"@, level),
        ]
    } else {
        seq![
            Act::Probe(dir + "/brightness"@),
            maximum,
            Act::Probe(actual),
            Act::Write(dir + "/brightness"@, level),
        ]
    }
}

/// Whether a backlight takes the brightness.
pub open spec fn screen_takes(dir: Seq<char>, percent: u8, world: spec_fn(Act) -> Reply) -> bool {
    let acts = screen_acts(dir, percent, world);
    acts.len() > 1 && !(world(acts.last()) is Failed)
}

/// The accesses to the backlights from the `k`-th on, up to the first that takes the
/// brightness.
pub open spec fn screens_acts(k: int, percent: u8, world: spec_fn(Act) -> Reply) -> Seq<Act>
    decreases 4 - k,
{
    if k < 0 || k >= 4 {
        Seq::empty()
    } else if screen_takes(screens()[k], percent, world) {
        screen_acts(screens()[k], percent, world)
    } else {
        screen_acts(screens()[k], percent, world) + screens_acts(k + 1, percent, world)
    }
}

/// Whether one of them does.
pub open spec fn some_screen_takes(k: int, percent: u8, world: spec_fn(Act) -> Reply) -> bool {
    exists|i: int| k <= i < 4 && screen_takes(#[trigger] screens()[i], percent, world)
}

proof fn lemma_screen(
    k: int,
    percent: u8,
    world: spec_fn(Act) -> Reply,
    m: int,
    later: Seq<Reply>,
)
    requires
        0 <= k < 4,
        0 <= m <= screen_acts(screens()[k], percent, world).len(),
    ensures
        ({
            let acts = screen_acts(screens()[k], percent, world);
            &&& m < acts.len() ==> backlight_move(
                k as nat,
                percent,
                answers(world, acts.take(m)),
            ) == Move::<()>::Do(acts[m])
            &&& screen_takes(screens()[k], percent, world) ==> backlight_move(
                k as nat,
                percent,
                answers(world, acts) + later,
            ) == Move::<()>::Done(Ok(()))
            &&& !screen_takes(screens()[k], percent, world) ==> backlight_move(
                k as nat,
                percent,
                answers(world, acts) + later,
            ) == backlight_move((k + 1) as nat, percent, later)
        }),
{
    assert(screens() =~= backlights());
    let acts = screen_acts(screens()[k], percent, world);
    let part = answers(world, acts.take(m));
    assert(part.len() == m);
    assert(forall|i: int| 0 <= i < m ==> #[trigger] part[i] == world(acts[i]));
    if m > 0 {
        assert(part[0] == world(acts[0]));
    }
    if m > 1 {
        assert(part[1] == world(acts[1]));
    }
    if m > 2 {
        assert(part[2] == world(acts[2]));
    }
    let replies = answers(world, acts) + later;
    assert(forall|i: int| 0 <= i < acts.len() ==> #[trigger] replies[i] == world(acts[i]));
    assert(replies[0] == world(acts[0]));
    if acts.len() > 1 {
        assert(replies[1] == world(acts[1]));
        assert(replies[2] == world(acts[2]));
        assert(replies[acts.len() - 1] == world(acts.last()));
    }
    assert(replies.skip(acts.len() as int) =~= later);
}

proof fn lemma_screens(k: int, percent: u8, world: spec_fn(Act) -> Reply)
    requires
        0 <= k <= 4,
    ensures
        performs(
            |replies: Seq<Reply>| backlight_move(k as nat, percent, replies),
            world,
            screens_acts(k, percent, world),
            if some_screen_takes(k, percent, world) {
                Ok(())
            } else {
                Err("No writable backlight control found"@)
            },
        ),
    decreases 4 - k,
{
    let op = |replies: Seq<Reply>| backlight_move(k as nat, percent, replies);
    let acts = screens_acts(k, percent, world);
    if k < 4 {
        lemma_screens(k + 1, percent, world);
        let next = |replies: Seq<Reply>| backlight_move((k + 1) as nat, percent, replies);
        let first = screen_acts(screens()[k], percent, world);
        let rest = screens_acts(k + 1, percent, world);
        let takes = screen_takes(screens()[k], percent, world);
        let n = first.len() as int;
        assert forall|m: int| 0 <= m < acts.len() implies op(
            #[trigger] answers(world, acts.take(m)),
        ) == Move::<()>::Do(acts[m]) by {
            if m < n {
                lemma_screen(k, percent, world, m, Seq::empty());
                assert(acts.take(m) =~= first.take(m));
            } else {
                let later = answers(world, rest.take(m - n));
                lemma_screen(k, percent, world, n, later);
                assert(answers(world, acts.take(m)) =~= answers(world, first) + later);
                assert(next(later) == Move::<()>::Do(rest[m - n]));
            }
        }
        if takes {
            lemma_screen(k, percent, world, n, Seq::empty());
            assert(answers(world, first) + Seq::<Reply>::empty() =~= answers(world, acts));
            assert(some_screen_takes(k, percent, world));
        } else {
            let later = answers(world, rest);
            lemma_screen(k, percent, world, n, later);
            assert(answers(world, acts) =~= answers(world, first) + later);
            assert(next(later) is Done);
            if some_screen_takes(k, percent, world) {
                let i = choose|i: int|
                    k <= i < 4 && screen_takes(#[trigger] screens()[i], percent, world);
                assert(k + 1 <= i);
                assert(some_screen_takes(k + 1, percent, world));
            }
        }
    } else {
        assert(answers(world, acts) =~= Seq::<Reply>::empty());
    }
}

/// Screen settings set the brightness of the first backlight that takes it, unless
/// the screen is left to the system; if none does, that is an error.
pub proof fn law_screen_settings(settings: ScreenSettings, world: spec_fn(Act) -> Reply)
    ensures
        ({
            let op = |replies: Seq<Reply>| screen_settings_move(settings, replies);
            if settings.system_control {
                performs(op, world, Seq::empty(), Ok(()))
            } else {
                performs(
                    op,
                    world,
                    screens_acts(0, settings.brightness, world),
                    if some_screen_takes(0, settings.brightness, world) {
                        Ok(())
                    } else {
                        Err("No writable backlight control found"@)
                    },
                )
            }
        }),
{
    let op = |replies: Seq<Reply>| screen_settings_move(settings, replies);
    if settings.system_control {
        lemma_no_access(op, world, Ok(()));
    } else {
        lemma_screens(0, settings.brightness, world);
        let other = |replies: Seq<Reply>| backlight_move(0, settings.brightness, replies);
        crate::session_laws::lemma_same_performance(
            op,
            other,
            world,
            screens_acts(0, settings.brightness, world),
            if some_screen_takes(0, settings.brightness, world) {
                Ok(())
            } else {
                Err("No writable backlight control found"@)
            },
        );
    }
}

/// The names under which the interfaces are described.
pub proof fn law_interface_names()
    ensures
        interface_name(HardwareInterface::Clevo) == "Clevo"@,
        interface_name(HardwareInterface::Uniwill) == "Uniwill"@,
        interface_name(HardwareInterface::Absent) == "None"@,
{
}

} // verus!
