//! What holds of the keyboard backlight: the accesses that each mode makes on any
//! keyboard, whatever it answers.

use crate::access::{plan_move, Act, Entry, Ioctl, Move, Reply};
use crate::device_laws::law_request_number;
use crate::keyboard_control::{
    color_entry, keyboard_lights, keyboard_settings_move, lights_move, open_keyboard_move,
    present_zones, KeyboardMode, KeyboardSettings, Lights, Rgb,
};
use crate::session_laws::{
    answers, entry_acts, for_each, law_plan_performs, lemma_for_each, lemma_one_entry,
    lemma_same_performance, lemma_unbroken_sum, maximum_in, performs, plan_acts, plan_outcome,
    unbroken,
};
use crate::text::{decimal, has_infix, sorted_texts, views};
use crate::tuxedo_io::{keyboard_code, HardwareInterface, TuxedoIo};
use vstd::prelude::*;

verus! {

/// The firmware takes keyboard commands.
pub open spec fn takes_commands(lights: Lights) -> bool {
    lights.tuxedo_io is Some && lights.tuxedo_io->0.interface == HardwareInterface::Clevo
}

/// A keyboard command, if the firmware takes any.
pub open spec fn firmware(lights: Lights, command: int) -> Seq<Act> {
    if takes_commands(lights) {
        seq![Act::Control(Ioctl::WriteWide(0x4008_ee67, command as u64))]
    } else {
        Seq::empty()
    }
}

/// A write to a file of a light, if the light has the file.
pub open spec fn if_there(path: Seq<char>, writes: Seq<Act>, world: spec_fn(Act) -> Reply) -> Seq<
    Act,
> {
    if world(Act::Probe(path)) == Reply::Present(true) {
        seq![Act::Probe(path)] + writes
    } else {
        seq![Act::Probe(path)]
    }
}

/// The accesses that colour a zone: the firmware has three zones, and is sent the
/// zone, blue, red and green in one command; the light of the zone is sent red,
/// green and blue as a text.
pub open spec fn zone_acts(
    lights: Lights,
    zone: int,
    color: Rgb,
    world: spec_fn(Act) -> Reply,
) -> Seq<Act> {
    let command = if zone % 256 <= 2 {
        firmware(
            lights,
            0xf000_0000 + (zone % 256) * 0x100_0000 + color.b * 0x1_0000 + color.r * 0x100
                + color.g,
        )
    } else {
        Seq::empty()
    };
    let file = lights.paths[zone] + "/multi_intensity"@;
    let text = decimal(color.r as nat) + " "@ + decimal(color.g as nat) + " "@ + decimal(
        color.b as nat,
    );
    if zone < lights.paths.len() {
        command + if_there(file, seq![Act::Write(file, text)], world)
    } else {
        command
    }
}

/// The accesses that set the brightness: a percentage up to one hundred for the
/// firmware, and for each light that part of its own maximum.
pub open spec fn brightness_acts(
    lights: Lights,
    percent: u8,
    world: spec_fn(Act) -> Reply,
) -> Seq<Act> {
    let capped = if percent > 100 {
        100
    } else {
        percent as int
    };
    firmware(lights, 0xf400_0000 + capped) + for_each(
        lights.paths.len(),
        |i: int|
            seq![
                Act::Read(lights.paths[i] + "/max_brightness"@),
                Act::Write(
                    lights.paths[i] + "/brightness"@,
                    decimal(
                        percent as nat * maximum_in(
                            world(Act::Read(lights.paths[i] + "/max_brightness"@)),
                        ) / 100,
                    ),
                ),
            ],
    )
}

/// The command of an effect for the firmware, its number and its name.
pub open spec fn effect(mode: KeyboardMode) -> Option<(int, nat, Seq<char>)> {
    match mode {
        KeyboardMode::Breathe { .. } => Some((0x1002_a000, 1, "breathing"@)),
        KeyboardMode::Cycle { .. } => Some((0x3301_0000, 2, "cycle"@)),
        KeyboardMode::Dance { .. } => Some((0x8000_0000, 3, "dance"@)),
        KeyboardMode::Flash { .. } => Some((0xa000_0000, 4, "flash"@)),
        KeyboardMode::RandomColor { .. } => Some((0x7000_0000, 5, "random"@)),
        KeyboardMode::Tempo { .. } => Some((0x9000_0000, 6, "tempo"@)),
        KeyboardMode::Wave { .. } => Some((0xb000_0000, 7, "wave"@)),
        _ => None,
    }
}

/// The brightness of a mode.
pub open spec fn brightness_of(mode: KeyboardMode) -> u8 {
    match mode {
        KeyboardMode::SingleColor { brightness, .. } => brightness,
        KeyboardMode::PerKeyRGB { brightness, .. } => brightness,
        KeyboardMode::MultipleZones { brightness, .. } => brightness,
        KeyboardMode::Breathe { brightness, .. } => brightness,
        KeyboardMode::Wave { brightness, .. } => brightness,
        KeyboardMode::Cycle { brightness, .. } => brightness,
        KeyboardMode::Dance { brightness, .. } => brightness,
        KeyboardMode::Flash { brightness, .. } => brightness,
        KeyboardMode::RandomColor { brightness, .. } => brightness,
        KeyboardMode::Tempo { brightness, .. } => brightness,
    }
}

/// The speed of an effect.
pub open spec fn speed_of(mode: KeyboardMode) -> u8 {
    match mode {
        KeyboardMode::Breathe { speed, .. } => speed,
        KeyboardMode::Wave { speed, .. } => speed,
        KeyboardMode::Cycle { speed, .. } => speed,
        KeyboardMode::Dance { speed, .. } => speed,
        KeyboardMode::Flash { speed, .. } => speed,
        KeyboardMode::RandomColor { speed, .. } => speed,
        KeyboardMode::Tempo { speed, .. } => speed,
        _ => 0,
    }
}

/// The colours of a mode, zone by zone: one colour goes to every light, and without
/// an effect to the three zones of the control device at least.
pub open spec fn colors_of(lights: Lights, mode: KeyboardMode) -> Seq<Rgb> {
    let n = lights.paths.len();
    let zones = if lights.tuxedo_io is Some && n < 3 {
        3
    } else {
        n
    };
    match mode {
        KeyboardMode::SingleColor { r, g, b, .. } => Seq::new(zones, |i: int| Rgb { r, g, b }),
        KeyboardMode::PerKeyRGB { keys, .. } => keys@,
        KeyboardMode::MultipleZones { zones, .. } => zones@,
        KeyboardMode::Breathe { r, g, b, .. } => Seq::new(n, |i: int| Rgb { r, g, b }),
        KeyboardMode::Flash { r, g, b, .. } => Seq::new(n, |i: int| Rgb { r, g, b }),
        _ => Seq::empty(),
    }
}

/// The accesses that put a light into an effect: by number, and by name where it
/// does not take the number.
pub open spec fn effect_acts(
    path: Seq<char>,
    number: nat,
    name: Seq<char>,
    world: spec_fn(Act) -> Reply,
) -> Seq<Act> {
    let file = path + "/mode"@;
    let by_number = Act::Write(file, decimal(number));
    if_there(
        file,
        if world(by_number) is Failed {
            seq![by_number, Act::Write(file, name)]
        } else {
            seq![by_number]
        },
        world,
    )
}

/// The accesses that set the speed of an effect.
pub open spec fn speed_acts(path: Seq<char>, speed: u8, world: spec_fn(Act) -> Reply) -> Seq<Act> {
    let file = path + "/speed"@;
    if_there(file, seq![Act::Write(file, decimal(speed as nat))], world)
}

/// All accesses of a mode: its command, its effect and speed on every light, its
/// colours and its brightness.
pub open spec fn mode_acts(lights: Lights, mode: KeyboardMode, world: spec_fn(Act) -> Reply) -> Seq<
    Act,
> {
    let n = lights.paths.len();
    let colors = colors_of(lights, mode);
    let start = match effect(mode) {
        None => firmware(lights, 0),
        Some((command, number, name)) => firmware(lights, command) + for_each(
            n,
            |i: int| effect_acts(lights.paths[i], number, name, world),
        ) + for_each(n, |i: int| speed_acts(lights.paths[i], speed_of(mode), world)),
    };
    start + for_each(colors.len(), |i: int| zone_acts(lights, i, colors[i], world))
        + brightness_acts(lights, brightness_of(mode), world)
}

proof fn lemma_code()
    ensures
        keyboard_code() == 0x4008_ee67,
{
    law_request_number(1, 0xEE, 0x67, 8);
}

proof fn lemma_command(lights: Lights, command: u32, world: spec_fn(Act) -> Reply)
    ensures
        plan_acts(lights.command_part(command), world) == firmware(lights, command as int),
        unbroken(lights.command_part(command), world),
{
    lemma_code();
    if takes_commands(lights) {
        let entry = lights.command_part(command)[0];
        lemma_one_entry(entry, world);
        assert(lights.command_part(command) =~= seq![entry]);
        assert(entry_acts(entry, world) =~= firmware(lights, command as int));
    } else {
        assert(plan_acts(lights.command_part(command), world) =~= Seq::<Act>::empty());
    }
}

proof fn lemma_zone(lights: Lights, zone: nat, color: Rgb, world: spec_fn(Act) -> Reply)
    ensures
        plan_acts(lights.zone_part(zone, color), world) == zone_acts(
            lights,
            zone as int,
            color,
            world,
        ),
        unbroken(lights.zone_part(zone, color), world),
{
    let command = lights.zone_command_part(zone, color);
    let small = zone % 256;
    let number = 0xf000_0000 + (zone % 256) * 0x100_0000 + color.b * 0x1_0000 + color.r * 0x100
        + color.g;
    if small <= 2 {
        assert(number == number as u32);
        lemma_command(lights, number as u32, world);
        assert(unbroken(command, world));
    } else {
        assert(plan_acts(command, world) =~= Seq::<Act>::empty());
        assert(unbroken(command, world));
    }
    if zone < lights.paths.len() {
        let entry = lights.zone_part(zone, color).last();
        lemma_unbroken_sum(command, seq![entry], world);
        lemma_one_entry(entry, world);
        assert(lights.zone_part(zone, color) =~= command + seq![entry]);
        let file = lights.paths[zone as int] + "/multi_intensity"@;
        let text = decimal(color.r as nat) + " "@ + decimal(color.g as nat) + " "@ + decimal(
            color.b as nat,
        );
        assert(entry_acts(entry, world) =~= if_there(file, seq![Act::Write(file, text)], world));
        assert(unbroken(seq![entry], world));
    } else {
        assert(lights.zone_part(zone, color) == command);
    }
}

proof fn lemma_colors(lights: Lights, colors: Seq<Rgb>, world: spec_fn(Act) -> Reply)
    ensures
        plan_acts(lights.colors_part(colors), world) == for_each(
            colors.len(),
            |i: int| zone_acts(lights, i, colors[i], world),
        ),
        unbroken(lights.colors_part(colors), world),
    decreases colors.len(),
{
    let acts = |i: int| zone_acts(lights, i, colors[i], world);
    if colors.len() > 0 {
        let init = colors.drop_last();
        let last = colors.len() - 1;
        lemma_colors(lights, init, world);
        lemma_zone(lights, last as nat, colors.last(), world);
        lemma_unbroken_sum(
            lights.colors_part(init),
            lights.zone_part(last as nat, colors.last()),
            world,
        );
        lemma_for_each_same(
            last as nat,
            |i: int| zone_acts(lights, i, init[i], world),
            acts,
        );
    }
}

proof fn lemma_for_each_same(n: nat, one: spec_fn(int) -> Seq<Act>, other: spec_fn(int) -> Seq<Act>)
    requires
        forall|i: int| 0 <= i < n ==> #[trigger] one(i) == other(i),
    ensures
        for_each(n, one) == for_each(n, other),
    decreases n,
{
    if n > 0 {
        lemma_for_each_same((n - 1) as nat, one, other);
        assert(one(n - 1) == other(n - 1));
    }
}

proof fn lemma_brightness(lights: Lights, percent: u8, world: spec_fn(Act) -> Reply)
    ensures
        plan_acts(lights.brightness_part(percent), world) == brightness_acts(
            lights,
            percent,
            world,
        ),
        unbroken(lights.brightness_part(percent), world),
{
    let command = crate::tuxedo_io::brightness_command(percent);
    lemma_command(lights, command, world);
    let list = Seq::new(
        lights.paths.len(),
        |i: int| Entry::Brightness { light: lights.paths[i], percent },
    );
    let acts = |i: int|
        seq![
            Act::Read(lights.paths[i] + "/max_brightness"@),
            Act::Write(
                lights.paths[i] + "/brightness"@,
                decimal(
                    percent as nat * maximum_in(
                        world(Act::Read(lights.paths[i] + "/max_brightness"@)),
                    ) / 100,
                ),
            ),
        ];
    lemma_for_each(list, world, acts);
    lemma_unbroken_sum(lights.command_part(command), list, world);
    assert(lights.brightness_part(percent) =~= lights.command_part(command) + list);
}

proof fn lemma_effect(
    lights: Lights,
    number: u8,
    name: Seq<char>,
    speed: u8,
    world: spec_fn(Act) -> Reply,
)
    ensures
        plan_acts(lights.effect_part(number, name), world) == for_each(
            lights.paths.len(),
            |i: int| effect_acts(lights.paths[i], number as nat, name, world),
        ),
        unbroken(lights.effect_part(number, name), world),
        plan_acts(lights.speed_part(speed), world) == for_each(
            lights.paths.len(),
            |i: int| speed_acts(lights.paths[i], speed, world),
        ),
        unbroken(lights.speed_part(speed), world),
{
    let a = lights.effect_part(number, name);
    let b = lights.speed_part(speed);
    assert forall|i: int| 0 <= i < a.len() implies entry_acts(#[trigger] a[i], world)
        == effect_acts(lights.paths[i], number as nat, name, world) by {
        assert(entry_acts(a[i], world) =~= effect_acts(
            lights.paths[i],
            number as nat,
            name,
            world,
        ));
    }
    assert forall|i: int| 0 <= i < b.len() implies entry_acts(#[trigger] b[i], world) == speed_acts(
        lights.paths[i],
        speed,
        world,
    ) by {
        assert(entry_acts(b[i], world) =~= speed_acts(lights.paths[i], speed, world));
    }
    lemma_for_each(
        a,
        world,
        |i: int| effect_acts(lights.paths[i], number as nat, name, world),
    );
    lemma_for_each(b, world, |i: int| speed_acts(lights.paths[i], speed, world));
}

proof fn lemma_fixed(
    lights: Lights,
    colors: Seq<Rgb>,
    brightness: u8,
    world: spec_fn(Act) -> Reply,
)
    ensures
        plan_acts(lights.fixed_plan(colors, brightness), world) == firmware(lights, 0) + for_each(
            colors.len(),
            |i: int| zone_acts(lights, i, colors[i], world),
        ) + brightness_acts(lights, brightness, world),
        unbroken(lights.fixed_plan(colors, brightness), world),
{
    let a = lights.command_part(0);
    let b = lights.colors_part(colors);
    let c = lights.brightness_part(brightness);
    lemma_command(lights, 0, world);
    lemma_colors(lights, colors, world);
    lemma_brightness(lights, brightness, world);
    lemma_unbroken_sum(a, b, world);
    lemma_unbroken_sum(a + b, c, world);
}

proof fn lemma_effect_plan(
    lights: Lights,
    command: u32,
    number: u8,
    name: Seq<char>,
    speed: u8,
    color: Option<Rgb>,
    brightness: u8,
    colors: Seq<Rgb>,
    world: spec_fn(Act) -> Reply,
)
    requires
        colors == (match color {
            Some(c) => Seq::new(lights.paths.len(), |i: int| c),
            None => Seq::empty(),
        }),
    ensures
        ({
            let plan = lights.effect_plan(command, number, name, speed, color, brightness);
            &&& unbroken(plan, world)
            &&& plan_acts(plan, world) == firmware(lights, command as int) + for_each(
                lights.paths.len(),
                |i: int| effect_acts(lights.paths[i], number as nat, name, world),
            ) + for_each(
                lights.paths.len(),
                |i: int| speed_acts(lights.paths[i], speed, world),
            ) + for_each(colors.len(), |i: int| zone_acts(lights, i, colors[i], world))
                + brightness_acts(lights, brightness, world)
        }),
{
    let a = lights.command_part(command);
    let b = lights.effect_part(number, name);
    let c = lights.speed_part(speed);
    let d = lights.colors_part(colors);
    let e = lights.brightness_part(brightness);
    lemma_command(lights, command, world);
    lemma_effect(lights, number, name, speed, world);
    lemma_colors(lights, colors, world);
    lemma_brightness(lights, brightness, world);
    lemma_unbroken_sum(a, b, world);
    lemma_unbroken_sum(a + b, c, world);
    lemma_unbroken_sum(a + b + c, d, world);
    lemma_unbroken_sum(a + b + c + d, e, world);
}

proof fn lemma_mode(lights: Lights, mode: KeyboardMode, world: spec_fn(Act) -> Reply)
    ensures
        plan_acts(lights.mode_plan(mode), world) == mode_acts(lights, mode, world),
        unbroken(lights.mode_plan(mode), world),
{
    let colors = colors_of(lights, mode);
    let bright = brightness_of(mode);
    let speed = speed_of(mode);
    match mode {
        KeyboardMode::SingleColor { r, g, b, .. } => {
            assert(colors =~= Seq::new(lights.zone_count(), |i: int| Rgb { r, g, b }));
            lemma_fixed(lights, colors, bright, world);
        },
        KeyboardMode::PerKeyRGB { .. } => lemma_fixed(lights, colors, bright, world),
        KeyboardMode::MultipleZones { .. } => lemma_fixed(lights, colors, bright, world),
        KeyboardMode::Breathe { r, g, b, .. } => {
            let c = Rgb { r, g, b };
            assert(colors =~= Seq::new(lights.paths.len(), |i: int| c));
            lemma_effect_plan(
                lights, 0x1002_a000, 1, "breathing"@, speed, Some(c), bright, colors, world,
            );
        },
        KeyboardMode::Flash { r, g, b, .. } => {
            let c = Rgb { r, g, b };
            assert(colors =~= Seq::new(lights.paths.len(), |i: int| c));
            lemma_effect_plan(
                lights, 0xa000_0000, 4, "flash"@, speed, Some(c), bright, colors, world,
            );
        },
        KeyboardMode::Wave { .. } => lemma_effect_plan(
            lights, 0xb000_0000, 7, "wave"@, speed, None, bright, colors, world,
        ),
        KeyboardMode::Cycle { .. } => lemma_effect_plan(
            lights, 0x3301_0000, 2, "cycle"@, speed, None, bright, colors, world,
        ),
        KeyboardMode::Dance { .. } => lemma_effect_plan(
            lights, 0x8000_0000, 3, "dance"@, speed, None, bright, colors, world,
        ),
        KeyboardMode::RandomColor { .. } => lemma_effect_plan(
            lights, 0x7000_0000, 5, "random"@, speed, None, bright, colors, world,
        ),
        KeyboardMode::Tempo { .. } => lemma_effect_plan(
            lights, 0x9000_0000, 6, "tempo"@, speed, None, bright, colors, world,
        ),
    }
}

proof fn lemma_unbroken_outcome(plan: Seq<Entry>, world: spec_fn(Act) -> Reply)
    requires
        unbroken(plan, world),
    ensures
        plan_outcome(plan, world) == Ok::<(), Seq<char>>(()),
{
    lemma_unbroken_sum(plan, Seq::empty(), world);
    assert(plan + Seq::<Entry>::empty() =~= plan);
}

/// Setting a mode makes exactly the accesses of that mode, whatever the keyboard
/// answers, and succeeds.
pub proof fn law_mode_on_the_keyboard(
    lights: Lights,
    mode: KeyboardMode,
    world: spec_fn(Act) -> Reply,
)
    ensures
        performs(
            |replies: Seq<Reply>| plan_move(lights.mode_plan(mode), replies),
            world,
            mode_acts(lights, mode, world),
            Ok(()),
        ),
{
    lemma_mode(lights, mode, world);
    lemma_unbroken_outcome(lights.mode_plan(mode), world);
    law_plan_performs(lights.mode_plan(mode), world);
}

/// Where the firmware takes commands, the first access of a mode is its command:
/// that of its effect, or zero for fixed colours. No two effects share a command.
pub proof fn law_effects_have_their_commands(
    lights: Lights,
    one: KeyboardMode,
    other: KeyboardMode,
)
    requires
        takes_commands(lights),
    ensures
        plan_move(lights.mode_plan(one), Seq::empty()) == Move::<()>::Do(
            Act::Control(
                Ioctl::WriteWide(
                    0x4008_ee67,
                    match effect(one) {
                        Some((command, _, _)) => command as u64,
                        None => 0,
                    },
                ),
            ),
        ),
        plan_move(lights.mode_plan(one), Seq::empty()) == plan_move(
            lights.mode_plan(other),
            Seq::empty(),
        ) <==> effect(one) == effect(other),
{
    let world = |a: Act| Reply::Done;
    lemma_first(lights, one, world);
    lemma_first(lights, other, world);
}

proof fn lemma_first(lights: Lights, mode: KeyboardMode, world: spec_fn(Act) -> Reply)
    requires
        takes_commands(lights),
    ensures
        plan_move(lights.mode_plan(mode), Seq::empty()) == Move::<()>::Do(
            Act::Control(
                Ioctl::WriteWide(
                    0x4008_ee67,
                    match effect(mode) {
                        Some((command, _, _)) => command as u64,
                        None => 0,
                    },
                ),
            ),
        ),
{
    law_mode_on_the_keyboard(lights, mode, world);
    let acts = mode_acts(lights, mode, world);
    assert(acts[0] == firmware(
        lights,
        match effect(mode) {
            Some((command, _, _)) => command,
            None => 0,
        },
    )[0]);
    let op = |replies: Seq<Reply>| plan_move(lights.mode_plan(mode), replies);
    assert(op(answers(world, acts.take(0))) == Move::<()>::Do(acts[0]));
    assert(answers(world, acts.take(0)) =~= Seq::<Reply>::empty());
}

/// Setting the brightness makes exactly its accesses, and succeeds.
pub proof fn law_brightness_on_the_keyboard(
    lights: Lights,
    percent: u8,
    world: spec_fn(Act) -> Reply,
)
    ensures
        performs(
            |replies: Seq<Reply>| plan_move(lights.brightness_part(percent), replies),
            world,
            brightness_acts(lights, percent, world),
            Ok(()),
        ),
{
    lemma_brightness(lights, percent, world);
    lemma_unbroken_outcome(lights.brightness_part(percent), world);
    law_plan_performs(lights.brightness_part(percent), world);
}

/// A profile that controls the keyboard sets its mode. One that does not leaves the
/// keyboard in plain white at half brightness. A keyboard that is missing is an
/// error only where it is to be controlled.
pub proof fn law_keyboard_settings(
    settings: KeyboardSettings,
    lights: Lights,
    world: spec_fn(Act) -> Reply,
    replies: Seq<Reply>,
)
    ensures
        performs(
            |replies: Seq<Reply>| keyboard_settings_move(settings, Some(lights), replies),
            world,
            mode_acts(
                lights,
                if settings.control_enabled {
                    settings.mode
                } else {
                    KeyboardMode::SingleColor { r: 255, g: 255, b: 255, brightness: 50 }
                },
                world,
            ),
            Ok(()),
        ),
        keyboard_settings_move(settings, None, replies) == (if settings.control_enabled {
            Move::<()>::Done(Err("Keyboard control not available"@))
        } else {
            Move::<()>::Done(Ok(()))
        }),
{
    let mode = if settings.control_enabled {
        settings.mode
    } else {
        KeyboardMode::SingleColor { r: 255, g: 255, b: 255, brightness: 50 }
    };
    law_mode_on_the_keyboard(lights, mode, world);
    let one = |replies: Seq<Reply>| plan_move(lights.mode_plan(mode), replies);
    let op = |replies: Seq<Reply>| keyboard_settings_move(settings, Some(lights), replies);
    let acts = mode_acts(lights, mode, world);
    lemma_same_performance(op, one, world, acts, Ok(()));
}

/// The zones of the platform device that are there, left to right.
pub open spec fn zones_there(world: spec_fn(Act) -> Reply) -> Seq<Seq<char>> {
    let dir = "/sys/devices/platform/tuxedo_keyboard/leds"@;
    let left = dir + "/left:kbd_backlight"@;
    let center = dir + "/center:kbd_backlight"@;
    let right = dir + "/right:kbd_backlight"@;
    let there = |path: Seq<char>|
        if world(Act::Probe(path)) == Reply::Present(true) {
            seq![path]
        } else {
            Seq::empty()
        };
    there(left) + there(center) + there(right)
}

/// The lights of the keyboard are looked for at the platform device first: its
/// three zones, as many as there are, or else its single light. Without those they
/// are the lights of any device whose name says that they light a keyboard, in
/// alphabetical order.
pub proof fn law_lights_are_found(world: spec_fn(Act) -> Reply)
    ensures
        ({
            let dir = "/sys/devices/platform/tuxedo_keyboard/leds"@;
            let single = dir + "/rgb:kbd_backlight"@;
            let ask = seq![
                Act::Probe(dir),
                Act::Probe(dir + "/left:kbd_backlight"@),
                Act::Probe(dir + "/center:kbd_backlight"@),
                Act::Probe(dir + "/right:kbd_backlight"@),
            ];
            let list = Act::List("/sys/class/leds"@);
            let others = match world(list) {
                Reply::Names(names) => sorted_texts(lights_named(views(names@))),
                _ => Seq::empty(),
            };
            let op = |replies: Seq<Reply>| lights_move(replies);
            let platform = world(Act::Probe(dir)) == Reply::Present(true);
            let one = world(Act::Probe(single)) == Reply::Present(true);
            &&& !platform ==> performs(op, world, seq![Act::Probe(dir), list], Ok(others))
            &&& platform && zones_there(world).len() > 0 ==> performs(
                op,
                world,
                ask,
                Ok(zones_there(world)),
            )
            &&& platform && zones_there(world).len() == 0 && one ==> performs(
                op,
                world,
                ask.push(Act::Probe(single)),
                Ok(seq![single]),
            )
            &&& platform && zones_there(world).len() == 0 && !one ==> performs(
                op,
                world,
                ask.push(Act::Probe(single)).push(list),
                Ok(others),
            )
        }),
{
    reveal_with_fuel(present_zones, 4);
    let dir = "/sys/devices/platform/tuxedo_keyboard/leds"@;
    let single = dir + "/rgb:kbd_backlight"@;
    let left = dir + "/left:kbd_backlight"@;
    let center = dir + "/center:kbd_backlight"@;
    let right = dir + "/right:kbd_backlight"@;
    let ask = seq![Act::Probe(dir), Act::Probe(left), Act::Probe(center), Act::Probe(right)];
    let list = Act::List("/sys/class/leds"@);
    let op = |replies: Seq<Reply>| lights_move(replies);
    let platform = world(Act::Probe(dir)) == Reply::Present(true);
    if let Reply::Names(names) = world(list) {
        lemma_lights_named(views(names@));
    }
    if !platform {
        let acts = seq![Act::Probe(dir), list];
        assert forall|k: int| 0 <= k < acts.len() implies op(
            #[trigger] answers(world, acts.take(k)),
        ) == Move::<Seq<Seq<char>>>::Do(acts[k]) by {
            let replies = answers(world, acts.take(k));
            if k == 1 {
                assert(replies[0] == world(acts[0]));
                assert(replies.skip(1) =~= Seq::<Reply>::empty());
            }
        }
        let replies = answers(world, acts);
        assert(replies[0] == world(acts[0]) && replies[1] == world(acts[1]));
        assert(replies.skip(1)[0] == replies[1]);
    } else {
        let acts = ask.push(Act::Probe(single)).push(list);
        assert(acts[0] == Act::Probe(dir) && acts[1] == Act::Probe(left) && acts[2] == Act::Probe(
            center,
        ) && acts[3] == Act::Probe(right) && acts[4] == Act::Probe(single) && acts[5] == list);
        assert forall|k: int| 0 <= k <= 6 implies {
            let replies = #[trigger] answers(world, acts.take(k));
            &&& replies.len() == k
            &&& forall|i: int| 0 <= i < k ==> #[trigger] replies[i] == world(acts[i])
            &&& k >= 4 ==> present_zones(replies.skip(1), 3) == zones_there(world)
        } by {
            let replies = answers(world, acts.take(k));
            if k >= 4 {
                let rest = replies.skip(1);
                assert(rest[0] == world(acts[1]) && rest[1] == world(acts[2]) && rest[2] == world(
                    acts[3],
                ));
                assert(present_zones(rest, 3) =~= zones_there(world));
            }
        }
        assert(ask.take(4) =~= ask);
        assert(acts.take(4) =~= ask);
        assert(acts.take(5) =~= ask.push(Act::Probe(single)));
        assert(acts.take(6) =~= acts);
        assert forall|k: int| 0 <= k < 4 implies op(#[trigger] answers(world, ask.take(k)))
            == Move::<Seq<Seq<char>>>::Do(ask[k]) by {
            assert(ask.take(k) =~= acts.take(k));
            assert(answers(world, acts.take(k)).len() == k);
        }
        assert(answers(world, acts.take(4)).len() == 4);
        if zones_there(world).len() == 0 {
            let some = ask.push(Act::Probe(single));
            assert forall|k: int| 0 <= k < 5 implies op(#[trigger] answers(world, some.take(k)))
                == Move::<Seq<Seq<char>>>::Do(some[k]) by {
                assert(some.take(k) =~= acts.take(k));
                assert(answers(world, acts.take(k)).len() == k);
            }
            assert(answers(world, acts.take(5)).len() == 5);
            if world(Act::Probe(single)) != Reply::Present(true) {
                assert forall|k: int| 0 <= k < 6 implies op(
                    #[trigger] answers(world, acts.take(k)),
                ) == Move::<Seq<Seq<char>>>::Do(acts[k]) by {
                    let replies = answers(world, acts.take(k));
                    assert(replies.len() == k);
                    if k == 5 {
                        assert(replies[4] == world(acts[4]));
                        assert(replies.skip(5) =~= Seq::<Reply>::empty());
                    }
                }
                let replies = answers(world, acts.take(6));
                assert(replies.len() == 6);
                assert(replies[4] == world(acts[4]));
                assert(replies.skip(5)[0] == world(acts[5]));
            }
        }
    }
}

/// The paths of the lights whose names have the word for a keyboard light in them.
pub open spec fn lights_named(names: Seq<Seq<char>>) -> Seq<Seq<char>> {
    names.filter(|name: Seq<char>| has_infix(name, "kbd_backlight"@)).map_values(
        |name: Seq<char>| "/sys/class/leds/"@ + name,
    )
}

proof fn lemma_lights_named(names: Seq<Seq<char>>)
    ensures
        keyboard_lights(names) == lights_named(names),
    decreases names.len(),
{
    reveal(Seq::filter);
    if names.len() > 0 {
        lemma_lights_named(names.drop_last());
        assert(keyboard_lights(names) =~= lights_named(names));
    } else {
        assert(keyboard_lights(names) =~= lights_named(names));
    }
}

/// Taking control of the keyboard needs a light or the control device; it then has
/// the lights that were found and that device.
pub proof fn law_keyboard_is_opened(io: Option<TuxedoIo>, replies: Seq<Reply>)
    ensures
        match lights_move(replies) {
            Move::Do(action) => open_keyboard_move(io, replies) == Move::<Lights>::Do(action),
            Move::Done(Ok(paths)) => if paths.len() == 0 && io is None {
                open_keyboard_move(io, replies) == Move::<Lights>::Done(
                    Err("No keyboard backlight control available"@),
                )
            } else {
                open_keyboard_move(io, replies) == Move::<Lights>::Done(
                    Ok(Lights { paths, tuxedo_io: io }),
                )
            },
            Move::Done(Err(message)) => open_keyboard_move(io, replies) == Move::<Lights>::Done(
                Err(message),
            ),
        },
{
}

/// What comes of colouring a zone: it succeeds once the firmware has taken the
/// colour. Otherwise the zone needs a light, the light needs colours, and it has to
/// take this one.
pub open spec fn zone_outcome(
    lights: Lights,
    zone: nat,
    color: Rgb,
    world: spec_fn(Act) -> Reply,
) -> Result<(), Seq<char>> {
    let command = firmware(
        lights,
        0xf000_0000 + (zone % 256) * 0x100_0000 + color.b * 0x1_0000 + color.r * 0x100 + color.g,
    );
    let file = lights.paths[zone as int] + "/multi_intensity"@;
    let text = decimal(color.r as nat) + " "@ + decimal(color.g as nat) + " "@ + decimal(
        color.b as nat,
    );
    if takes_commands(lights) && zone % 256 <= 2 && !(world(command[0]) is Failed) {
        Ok(())
    } else if zone >= lights.paths.len() {
        Err("Invalid zone index: "@ + decimal(zone))
    } else if world(Act::Probe(file)) != Reply::Present(true) {
        Err("RGB control not available for zone "@ + decimal(zone))
    } else {
        match world(Act::Write(file, text)) {
            Reply::Failed(reason) => Err(reason@),
            _ => Ok(()),
        }
    }
}

/// Colouring a zone makes exactly the accesses that colour it, and has that outcome.
pub proof fn law_zone_on_the_keyboard(
    lights: Lights,
    zone: nat,
    color: Rgb,
    world: spec_fn(Act) -> Reply,
)
    ensures
        performs(
            |replies: Seq<Reply>| lights.zone_move(zone, color, replies),
            world,
            zone_acts(lights, zone as int, color, world),
            zone_outcome(lights, zone, color, world),
        ),
{
    let op = |replies: Seq<Reply>| lights.zone_move(zone, color, replies);
    let acts = zone_acts(lights, zone as int, color, world);
    let command = lights.zone_command_part(zone, color);
    let number = 0xf000_0000 + (zone % 256) * 0x100_0000 + color.b * 0x1_0000 + color.r * 0x100
        + color.g;
    let sends = takes_commands(lights) && zone % 256 <= 2;
    if zone % 256 <= 2 {
        assert(number == number as u32);
        lemma_command(lights, number as u32, world);
    }
    assert(zone % 256 > 2 ==> plan_acts(command, world) =~= Seq::<Act>::empty());
    assert(unbroken(command, world));
    assert(plan_acts(command, world) == (if zone % 256 <= 2 {
        firmware(lights, number as int)
    } else {
        Seq::empty()
    }));
    let colored = sends && !(world(firmware(lights, number as int)[0]) is Failed);
    let path = lights.paths[zone as int];
    let file = path + "/multi_intensity"@;
    let text = decimal(color.r as nat) + " "@ + decimal(color.g as nat) + " "@ + decimal(
        color.b as nat,
    );
    let entry = if colored {
        color_entry(path, color, None, None)
    } else {
        color_entry(
            path,
            color,
            Some("RGB control not available for zone "@ + decimal(zone)),
            Some(""@),
        )
    };
    let plan = if zone < lights.paths.len() {
        command.push(entry)
    } else {
        command
    };
    assert forall|r: Seq<char>| #[trigger] (""@ + r) == r by {
        reveal_strlit("");
        assert(""@ + r =~= r);
    }
    if zone < lights.paths.len() {
        lemma_unbroken_sum(command, seq![entry], world);
        lemma_one_entry(entry, world);
        assert(plan =~= command + seq![entry]);
        assert(entry_acts(entry, world) =~= if_there(file, seq![Act::Write(file, text)], world));
    }
    assert(plan_acts(plan, world) == acts);
    law_plan_performs(plan, world);
    let planned = |replies: Seq<Reply>| plan_move(plan, replies);
    assert forall|k: int| 0 <= k <= acts.len() implies {
        let replies = #[trigger] answers(world, acts.take(k));
        &&& replies.len() == k
        &&& k > 0 && sends ==> replies[0] == world(firmware(lights, number as int)[0])
    } by {
        if k > 0 && sends {
            assert(acts[0] == firmware(lights, number as int)[0]);
        }
    }
    assert forall|k: int| 0 <= k < acts.len() implies op(#[trigger] answers(world, acts.take(k)))
        == Move::<()>::Do(acts[k]) by {
        let replies = answers(world, acts.take(k));
        assert(planned(replies) == Move::<()>::Do(acts[k]));
        if k == 0 && sends {
            assert(lights.zone_command_part(zone, color)[0] == plan[0]);
            assert(replies =~= Seq::<Reply>::empty());
        }
    }
    let replies = answers(world, acts);
    assert(acts.take(acts.len() as int) =~= acts);
    assert(planned(replies) == Move::<()>::Done(plan_outcome(plan, world)));
    if zone >= lights.paths.len() {
        lemma_unbroken_outcome(command, world);
    }
}

} // verus!
