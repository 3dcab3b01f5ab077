//! Keyboard backlight: where it is controlled, and what each mode sends.

use crate::access::{
    all_lenient, attempt, entries, lemma_lenient_plan, lemma_lenient_sum, opt_text, plan_attempt,
    plan_move, run_plan, Act, Action, Entry, Ioctl, Move, PlanEntry, Reply, Step,
};
use crate::text::{
    contains, decimal, decimal_of, has_infix, join, sort_texts, sorted_texts, views,
};
use crate::tuxedo_io::{
    brightness_command, color_command, keyboard_command, HardwareInterface, TuxedoIo,
    MAGIC_WRITE_CL, PTR_SIZE,
};
use vstd::prelude::*;

verus! {

/// A colour.
#[derive(Clone, Copy, PartialEq, Eq, Structural, Debug)]
pub struct Rgb {
    pub r: u8,
    pub g: u8,
    pub b: u8,
}

/// The modes of the backlight.
#[derive(Debug)]
pub enum KeyboardMode {
    SingleColor { r: u8, g: u8, b: u8, brightness: u8 },
    PerKeyRGB { keys: Vec<Rgb>, brightness: u8 },
    MultipleZones { zones: Vec<Rgb>, brightness: u8 },
    Breathe { r: u8, g: u8, b: u8, brightness: u8, speed: u8 },
    Wave { brightness: u8, speed: u8 },
    Cycle { brightness: u8, speed: u8 },
    Dance { brightness: u8, speed: u8 },
    Flash { r: u8, g: u8, b: u8, brightness: u8, speed: u8 },
    RandomColor { brightness: u8, speed: u8 },
    Tempo { brightness: u8, speed: u8 },
}

/// What a `KeyboardMode` says: which mode it is, its colours, brightness and
/// speed.
pub struct Mode {
    pub kind: nat,
    pub colors: Seq<Rgb>,
    pub brightness: u8,
    pub speed: u8,
}

impl View for KeyboardMode {
    type V = Mode;

    open spec fn view(&self) -> Mode {
        match self {
            KeyboardMode::SingleColor { r, g, b, brightness } => Mode {
                kind: 0,
                colors: seq![Rgb { r: *r, g: *g, b: *b }],
                brightness: *brightness,
                speed: 0,
            },
            KeyboardMode::PerKeyRGB { keys, brightness } => Mode {
                kind: 1,
                colors: keys@,
                brightness: *brightness,
                speed: 0,
            },
            KeyboardMode::MultipleZones { zones, brightness } => Mode {
                kind: 2,
                colors: zones@,
                brightness: *brightness,
                speed: 0,
            },
            KeyboardMode::Breathe { r, g, b, brightness, speed } => Mode {
                kind: 3,
                colors: seq![Rgb { r: *r, g: *g, b: *b }],
                brightness: *brightness,
                speed: *speed,
            },
            KeyboardMode::Wave { brightness, speed } => Mode {
                kind: 4,
                colors: Seq::empty(),
                brightness: *brightness,
                speed: *speed,
            },
            KeyboardMode::Cycle { brightness, speed } => Mode {
                kind: 5,
                colors: Seq::empty(),
                brightness: *brightness,
                speed: *speed,
            },
            KeyboardMode::Dance { brightness, speed } => Mode {
                kind: 6,
                colors: Seq::empty(),
                brightness: *brightness,
                speed: *speed,
            },
            KeyboardMode::Flash { r, g, b, brightness, speed } => Mode {
                kind: 7,
                colors: seq![Rgb { r: *r, g: *g, b: *b }],
                brightness: *brightness,
                speed: *speed,
            },
            KeyboardMode::RandomColor { brightness, speed } => Mode {
                kind: 8,
                colors: Seq::empty(),
                brightness: *brightness,
                speed: *speed,
            },
            KeyboardMode::Tempo { brightness, speed } => Mode {
                kind: 9,
                colors: Seq::empty(),
                brightness: *brightness,
                speed: *speed,
            },
        }
    }
}

fn copy_colors(list: &Vec<Rgb>) -> (r: Vec<Rgb>)
    ensures
        r@ == list@,
{
    let mut out: Vec<Rgb> = Vec::new();
    let mut i: usize = 0;
    while i < list.len()
        invariant
            i <= list@.len(),
            out@ == list@.take(i as int),
        decreases list@.len() - i,
    {
        out.push(list[i]);
        assert(out@ =~= list@.take(i + 1));
        i = i + 1;
    }
    assert(list@.take(list@.len() as int) =~= list@);
    out
}

fn same_colors(a: &Vec<Rgb>, b: &Vec<Rgb>) -> (r: bool)
    ensures
        r == (a@ == b@),
{
    if a.len() != b.len() {
        return false;
    }
    let mut i: usize = 0;
    while i < a.len()
        invariant
            i <= a@.len(),
            a@.len() == b@.len(),
            forall|k: int| 0 <= k < i ==> a@[k] == b@[k],
        decreases a@.len() - i,
    {
        if a[i] != b[i] {
            return false;
        }
        i = i + 1;
    }
    assert(a@ =~= b@);
    true
}

impl KeyboardMode {
    fn kind(&self) -> (r: u8)
        ensures
            r == self@.kind,
    {
        match self {
            KeyboardMode::SingleColor { .. } => 0,
            KeyboardMode::PerKeyRGB { .. } => 1,
            KeyboardMode::MultipleZones { .. } => 2,
            KeyboardMode::Breathe { .. } => 3,
            KeyboardMode::Wave { .. } => 4,
            KeyboardMode::Cycle { .. } => 5,
            KeyboardMode::Dance { .. } => 6,
            KeyboardMode::Flash { .. } => 7,
            KeyboardMode::RandomColor { .. } => 8,
            KeyboardMode::Tempo { .. } => 9,
        }
    }

    fn colors(&self) -> (r: Vec<Rgb>)
        ensures
            r@ == self@.colors,
    {
        match self {
            KeyboardMode::SingleColor { r, g, b, .. } => vec![Rgb { r: *r, g: *g, b: *b }],
            KeyboardMode::PerKeyRGB { keys, .. } => copy_colors(keys),
            KeyboardMode::MultipleZones { zones, .. } => copy_colors(zones),
            KeyboardMode::Breathe { r, g, b, .. } => vec![Rgb { r: *r, g: *g, b: *b }],
            KeyboardMode::Flash { r, g, b, .. } => vec![Rgb { r: *r, g: *g, b: *b }],
            _ => Vec::new(),
        }
    }

    fn levels(&self) -> (r: (u8, u8))
        ensures
            r == (self@.brightness, self@.speed),
    {
        match self {
            KeyboardMode::SingleColor { brightness, .. } => (*brightness, 0),
            KeyboardMode::PerKeyRGB { brightness, .. } => (*brightness, 0),
            KeyboardMode::MultipleZones { brightness, .. } => (*brightness, 0),
            KeyboardMode::Breathe { brightness, speed, .. } => (*brightness, *speed),
            KeyboardMode::Wave { brightness, speed } => (*brightness, *speed),
            KeyboardMode::Cycle { brightness, speed } => (*brightness, *speed),
            KeyboardMode::Dance { brightness, speed } => (*brightness, *speed),
            KeyboardMode::Flash { brightness, speed, .. } => (*brightness, *speed),
            KeyboardMode::RandomColor { brightness, speed } => (*brightness, *speed),
            KeyboardMode::Tempo { brightness, speed } => (*brightness, *speed),
        }
    }

    /// Whether two modes are the same.
    pub fn same_as(&self, other: &KeyboardMode) -> (r: bool)
        ensures
            r == (self@ == other@),
    {
        let a = self.levels();
        let b = other.levels();
        self.kind() == other.kind() && a.0 == b.0 && a.1 == b.1 && same_colors(
            &self.colors(),
            &other.colors(),
        )
    }
}

impl Clone for KeyboardMode {
    fn clone(&self) -> (out: KeyboardMode)
        ensures
            out@ == self@,
    {
        match self {
            KeyboardMode::SingleColor { r, g, b, brightness } => KeyboardMode::SingleColor {
                r: *r,
                g: *g,
                b: *b,
                brightness: *brightness,
            },
            KeyboardMode::PerKeyRGB { keys, brightness } => KeyboardMode::PerKeyRGB {
                keys: copy_colors(keys),
                brightness: *brightness,
            },
            KeyboardMode::MultipleZones { zones, brightness } => KeyboardMode::MultipleZones {
                zones: copy_colors(zones),
                brightness: *brightness,
            },
            KeyboardMode::Breathe { r, g, b, brightness, speed } => KeyboardMode::Breathe {
                r: *r,
                g: *g,
                b: *b,
                brightness: *brightness,
                speed: *speed,
            },
            KeyboardMode::Wave { brightness, speed } => KeyboardMode::Wave {
                brightness: *brightness,
                speed: *speed,
            },
            KeyboardMode::Cycle { brightness, speed } => KeyboardMode::Cycle {
                brightness: *brightness,
                speed: *speed,
            },
            KeyboardMode::Dance { brightness, speed } => KeyboardMode::Dance {
                brightness: *brightness,
                speed: *speed,
            },
            KeyboardMode::Flash { r, g, b, brightness, speed } => KeyboardMode::Flash {
                r: *r,
                g: *g,
                b: *b,
                brightness: *brightness,
                speed: *speed,
            },
            KeyboardMode::RandomColor { brightness, speed } => KeyboardMode::RandomColor {
                brightness: *brightness,
                speed: *speed,
            },
            KeyboardMode::Tempo { brightness, speed } => KeyboardMode::Tempo {
                brightness: *brightness,
                speed: *speed,
            },
        }
    }
}

/// The keyboard settings of a profile.
#[derive(Debug)]
pub struct KeyboardSettings {
    pub control_enabled: bool,
    pub mode: KeyboardMode,
}

/// The lights of the keyboard and the control device, as far as there is one.
#[derive(Debug)]
pub struct RgbKeyboardControl {
    pub paths: Vec<String>,
    pub tuxedo_io: Option<TuxedoIo>,
}

/// What an `RgbKeyboardControl` says.
pub struct Lights {
    pub paths: Seq<Seq<char>>,
    pub tuxedo_io: Option<TuxedoIo>,
}

impl View for RgbKeyboardControl {
    type V = Lights;

    open spec fn view(&self) -> Lights {
        Lights { paths: views(self.paths@), tuxedo_io: self.tuxedo_io }
    }
}

impl DeepView for RgbKeyboardControl {
    type V = Lights;

    open spec fn deep_view(&self) -> Lights {
        self@
    }
}

pub open spec fn platform_leds() -> Seq<char> {
    "/sys/devices/platform/tuxedo_keyboard/leds"@
}

/// The lights of a keyboard with three zones.
pub open spec fn zone_lights() -> Seq<Seq<char>> {
    seq![
        platform_leds() + "/left:kbd_backlight"@,
        platform_leds() + "/center:kbd_backlight"@,
        platform_leds() + "/right:kbd_backlight"@,
    ]
}

/// The zone lights among the first `n` that are present.
pub open spec fn present_zones(replies: Seq<Reply>, n: nat) -> Seq<Seq<char>>
    decreases n,
{
    if n == 0 {
        Seq::empty()
    } else {
        let before = present_zones(replies, (n - 1) as nat);
        if replies[n - 1].says_present() {
            before.push(zone_lights()[n - 1])
        } else {
            before
        }
    }
}

/// The paths of the keyboard lights among the names of all lights.
pub open spec fn keyboard_lights(names: Seq<Seq<char>>) -> Seq<Seq<char>>
    decreases names.len(),
{
    if names.len() == 0 {
        Seq::empty()
    } else {
        let before = keyboard_lights(names.drop_last());
        if has_infix(names.last(), "kbd_backlight"@) {
            before.push("/sys/class/leds/"@ + names.last())
        } else {
            before
        }
    }
}

/// Looking for keyboard lights among all lights.
pub open spec fn class_lights_move(replies: Seq<Reply>) -> Move<Seq<Seq<char>>> {
    if replies.len() == 0 {
        Move::Do(Act::List("/sys/class/leds"@))
    } else {
        match replies[0] {
            Reply::Names(names) => Move::Done(Ok(sorted_texts(keyboard_lights(views(names@))))),
            _ => Move::Done(Ok(Seq::empty())),
        }
    }
}

/// Looking for the keyboard lights: the platform device comes first, with three
/// zones or with one, and then the lights of any device.
pub open spec fn lights_move(replies: Seq<Reply>) -> Move<Seq<Seq<char>>> {
    if replies.len() == 0 {
        Move::Do(Act::Probe(platform_leds()))
    } else if !replies[0].says_present() {
        class_lights_move(replies.skip(1))
    } else if replies.len() < 4 {
        Move::Do(Act::Probe(zone_lights()[replies.len() - 1]))
    } else if present_zones(replies.skip(1), 3).len() > 0 {
        Move::Done(Ok(present_zones(replies.skip(1), 3)))
    } else if replies.len() == 4 {
        Move::Do(Act::Probe(platform_leds() + "/rgb:kbd_backlight"@))
    } else if replies[4].says_present() {
        Move::Done(Ok(seq![platform_leds() + "/rgb:kbd_backlight"@]))
    } else {
        class_lights_move(replies.skip(5))
    }
}

/// Taking control of the keyboard, for which a light or the control device is
/// needed.
pub open spec fn open_keyboard_move(io: Option<TuxedoIo>, replies: Seq<Reply>) -> Move<Lights> {
    match lights_move(replies) {
        Move::Do(action) => Move::Do(action),
        Move::Done(Err(message)) => Move::Done(Err(message)),
        Move::Done(Ok(paths)) => if paths.len() == 0 && io is None {
            Move::Done(Err("No keyboard backlight control available"@))
        } else {
            Move::Done(Ok(Lights { paths, tuxedo_io: io }))
        },
    }
}

impl Lights {
    pub open spec fn is_clevo(self) -> bool {
        self.tuxedo_io matches Some(io) && io.interface == HardwareInterface::Clevo
    }

    /// The command that Clevo firmware gets, if it is there.
    pub open spec fn command_part(self, command: u32) -> Seq<Entry> {
        if self.is_clevo() {
            seq![attempt(Act::Control(keyboard_command(command)))]
        } else {
            Seq::empty()
        }
    }

    /// The colour of a zone for Clevo firmware, which has three.
    pub open spec fn zone_command_part(self, zone: nat, color: Rgb) -> Seq<Entry> {
        if zone % 256 <= 2 {
            self.command_part(color_command((zone % 256) as u8, color.r, color.g, color.b))
        } else {
            Seq::empty()
        }
    }

    /// The colour of a zone, whatever comes of it.
    pub open spec fn zone_part(self, zone: nat, color: Rgb) -> Seq<Entry> {
        if zone < self.paths.len() {
            self.zone_command_part(zone, color).push(
                color_entry(self.paths[zone as int], color, None, None),
            )
        } else {
            self.zone_command_part(zone, color)
        }
    }

    /// The colours of the zones in order.
    pub open spec fn colors_part(self, colors: Seq<Rgb>) -> Seq<Entry>
        decreases colors.len(),
    {
        if colors.len() == 0 {
            Seq::empty()
        } else {
            self.colors_part(colors.drop_last()) + self.zone_part(
                (colors.len() - 1) as nat,
                colors.last(),
            )
        }
    }

    /// The brightness of all lights.
    pub open spec fn brightness_part(self, percent: u8) -> Seq<Entry> {
        self.command_part(brightness_command(percent)) + Seq::new(
            self.paths.len(),
            |i: int| Entry::Brightness { light: self.paths[i], percent },
        )
    }

    /// The effect of all lights that have one, by number and otherwise by name.
    pub open spec fn effect_part(self, number: u8, name: Seq<char>) -> Seq<Entry> {
        Seq::new(
            self.paths.len(),
            |i: int|
                Entry::Access {
                    guard: Some(self.paths[i] + "/mode"@),
                    absent: None,
                    action: Act::Write(self.paths[i] + "/mode"@, decimal(number as nat)),
                    fallback: Some(Act::Write(self.paths[i] + "/mode"@, name)),
                    failure: None,
                },
        )
    }

    /// The speed of all lights that have one.
    pub open spec fn speed_part(self, speed: u8) -> Seq<Entry> {
        Seq::new(
            self.paths.len(),
            |i: int|
                Entry::Access {
                    guard: Some(self.paths[i] + "/speed"@),
                    absent: None,
                    action: Act::Write(self.paths[i] + "/speed"@, decimal(speed as nat)),
                    fallback: None,
                    failure: None,
                },
        )
    }

    /// A mode with fixed colours.
    pub open spec fn fixed_plan(self, colors: Seq<Rgb>, brightness: u8) -> Seq<Entry> {
        self.command_part(0) + self.colors_part(colors) + self.brightness_part(brightness)
    }

    /// A mode with an effect, in one colour or in those of the effect.
    pub open spec fn effect_plan(
        self,
        command: u32,
        number: u8,
        name: Seq<char>,
        speed: u8,
        color: Option<Rgb>,
        brightness: u8,
    ) -> Seq<Entry> {
        let colors = match color {
            Some(c) => Seq::new(self.paths.len(), |i: int| c),
            None => Seq::empty(),
        };
        self.command_part(command) + self.effect_part(number, name) + self.speed_part(speed)
            + self.colors_part(colors) + self.brightness_part(brightness)
    }

    /// How many zones a single colour is sent to.
    pub open spec fn zone_count(self) -> nat {
        if self.tuxedo_io is Some && self.paths.len() < 3 {
            3
        } else {
            self.paths.len()
        }
    }

    /// What a mode sends to the keyboard.
    pub open spec fn mode_plan(self, mode: KeyboardMode) -> Seq<Entry> {
        match mode {
            KeyboardMode::SingleColor { r, g, b, brightness } => self.fixed_plan(
                Seq::new(self.zone_count(), |i: int| Rgb { r, g, b }),
                brightness,
            ),
            KeyboardMode::PerKeyRGB { keys, brightness } => self.fixed_plan(keys@, brightness),
            KeyboardMode::MultipleZones { zones, brightness } => self.fixed_plan(
                zones@,
                brightness,
            ),
            KeyboardMode::Breathe { r, g, b, brightness, speed } => self.effect_plan(
                0x1002a000,
                1,
                "breathing"@,
                speed,
                Some(Rgb { r, g, b }),
                brightness,
            ),
            KeyboardMode::Wave { brightness, speed } => self.effect_plan(
                0xB0000000,
                7,
                "wave"@,
                speed,
                None,
                brightness,
            ),
            KeyboardMode::Cycle { brightness, speed } => self.effect_plan(
                0x33010000,
                2,
                "cycle"@,
                speed,
                None,
                brightness,
            ),
            KeyboardMode::Dance { brightness, speed } => self.effect_plan(
                0x80000000,
                3,
                "dance"@,
                speed,
                None,
                brightness,
            ),
            KeyboardMode::Flash { r, g, b, brightness, speed } => self.effect_plan(
                0xA0000000,
                4,
                "flash"@,
                speed,
                Some(Rgb { r, g, b }),
                brightness,
            ),
            KeyboardMode::RandomColor { brightness, speed } => self.effect_plan(
                0x70000000,
                5,
                "random"@,
                speed,
                None,
                brightness,
            ),
            KeyboardMode::Tempo { brightness, speed } => self.effect_plan(
                0x90000000,
                6,
                "tempo"@,
                speed,
                None,
                brightness,
            ),
        }
    }

    /// Whether Clevo firmware has taken the colour of a zone.
    pub open spec fn colored_by_firmware(self, zone: nat, replies: Seq<Reply>) -> bool {
        self.is_clevo() && zone % 256 <= 2 && replies.len() > 0 && replies[0].fault() is None
    }

    /// Colouring one zone: by the firmware where it can, and by the light of the
    /// zone. What fails at the light counts only if the firmware has not taken the
    /// colour.
    pub open spec fn zone_move(self, zone: nat, color: Rgb, replies: Seq<Reply>) -> Move<()> {
        let colored = self.colored_by_firmware(zone, replies);
        if zone < self.paths.len() {
            let entry = if colored {
                color_entry(self.paths[zone as int], color, None, None)
            } else {
                color_entry(
                    self.paths[zone as int],
                    color,
                    Some("RGB control not available for zone "@ + decimal(zone)),
                    Some(""@),
                )
            };
            plan_move(self.zone_command_part(zone, color).push(entry), replies)
        } else {
            match plan_move(self.zone_command_part(zone, color), replies) {
                Move::Do(action) => Move::Do(action),
                Move::Done(_) => Move::Done(
                    if colored {
                        Ok(())
                    } else {
                        Err("Invalid zone index: "@ + decimal(zone))
                    },
                ),
            }
        }
    }
}

/// A colour as the file of a light takes it.
pub open spec fn color_text(color: Rgb) -> Seq<char> {
    decimal(color.r as nat) + " "@ + decimal(color.g as nat) + " "@ + decimal(color.b as nat)
}

/// The write of a colour to a light, if it has colours.
pub open spec fn color_entry(
    light: Seq<char>,
    color: Rgb,
    absent: Option<Seq<char>>,
    failure: Option<Seq<char>>,
) -> Entry {
    Entry::Access {
        guard: Some(light + "/multi_intensity"@),
        absent,
        action: Act::Write(light + "/multi_intensity"@, color_text(color)),
        fallback: None,
        failure,
    }
}

fn write_color(
    light: &String,
    color: Rgb,
    absent: Option<String>,
    failure: Option<String>,
) -> (r: PlanEntry)
    ensures
        r@ == color_entry(
            light@,
            color,
            opt_text(absent),
            opt_text(failure),
        ),
{
    let path = join(light.as_str(), "/multi_intensity");
    let mut text = decimal_of(color.r as u64);
    text.append(" ");
    text.append(decimal_of(color.g as u64).as_str());
    text.append(" ");
    text.append(decimal_of(color.b as u64).as_str());
    PlanEntry::Access {
        guard: Some(path.clone()),
        absent,
        action: Action::Write(path, text),
        fallback: None,
        failure,
    }
}

fn find_class_lights(replies: &[Reply], from: usize) -> (r: Step<Vec<String>>)
    requires
        from <= replies@.len(),
    ensures
        r@ == class_lights_move(replies@.skip(from as int)),
{
    if replies.len() == from {
        return Step::Do(Action::List("/sys/class/leds".to_string()));
    }
    assert(replies@.skip(from as int)[0] == replies@[from as int]);
    match &replies[from] {
        Reply::Names(names) => {
            let mut lights: Vec<String> = Vec::new();
            let mut i: usize = 0;
            let ghost all = views(names@);
            assert(views(lights@) =~= keyboard_lights(all.take(0)));
            while i < names.len()
                invariant
                    i <= names@.len(),
                    all == views(names@),
                    views(lights@) == keyboard_lights(all.take(i as int)),
                decreases names@.len() - i,
            {
                let ghost before = lights@;
                assert(all.take(i + 1).drop_last() =~= all.take(i as int));
                assert(all.take(i + 1).last() == names@[i as int]@);
                if contains(names[i].as_str(), "kbd_backlight") {
                    lights.push(join("/sys/class/leds/", names[i].as_str()));
                    assert(views(lights@) =~= views(before).push(lights@.last()@));
                }
                i = i + 1;
            }
            assert(all.take(names@.len() as int) =~= all);
            let sorted = sort_texts(lights);
            assert(sorted.deep_view() =~= views(sorted@));
            Step::Done(Ok(sorted))
        },
        _ => {
            let none: Vec<String> = Vec::new();
            assert(none.deep_view() =~= Seq::<Seq<char>>::empty());
            Step::Done(Ok(none))
        },
    }
}

impl RgbKeyboardControl {
    /// Looks for the lights of the keyboard.
    pub fn find_all_keyboard_backlight_paths(replies: &[Reply]) -> (r: Step<Vec<String>>)
        ensures
            r@ == lights_move(replies@),
    {
        if replies.len() == 0 {
            return Step::Do(
                Action::Probe("/sys/devices/platform/tuxedo_keyboard/leds".to_string()),
            );
        }
        if !replies[0].present() {
            return find_class_lights(replies, 1);
        }
        let zones: Vec<String> = vec![
            join("/sys/devices/platform/tuxedo_keyboard/leds", "/left:kbd_backlight"),
            join("/sys/devices/platform/tuxedo_keyboard/leds", "/center:kbd_backlight"),
            join("/sys/devices/platform/tuxedo_keyboard/leds", "/right:kbd_backlight"),
        ];
        assert(views(zones@) =~= zone_lights());
        assert(forall|k: int| 0 <= k < 3 ==> (#[trigger] zones@[k])@ == views(zones@)[k]);
        if replies.len() < 4 {
            return Step::Do(Action::Probe(zones[replies.len() - 1].clone()));
        }
        let mut found: Vec<String> = Vec::new();
        let mut i: usize = 0;
        let ghost rest = replies@.skip(1);
        while i < 3
            invariant
                i <= 3,
                replies@.len() >= 4,
                rest == replies@.skip(1),
                zones@.len() == 3,
                forall|k: int| 0 <= k < 3 ==> (#[trigger] zones@[k])@ == zone_lights()[k],
                views(found@) == present_zones(rest, i as nat),
            decreases 3 - i,
        {
            let ghost before = found@;
            assert(rest[i as int] == replies@[i + 1]);
            if replies[i + 1].present() {
                found.push(zones[i].clone());
                assert(views(found@) =~= views(before).push(found@.last()@));
            }
            i = i + 1;
        }
        if found.len() > 0 {
            assert(found.deep_view() =~= views(found@));
            return Step::Done(Ok(found));
        }
        let single = join("/sys/devices/platform/tuxedo_keyboard/leds", "/rgb:kbd_backlight");
        if replies.len() == 4 {
            return Step::Do(Action::Probe(single));
        }
        if replies[4].present() {
            let list: Vec<String> = vec![single];
            assert(list.deep_view() =~= seq![platform_leds() + "/rgb:kbd_backlight"@]);
            return Step::Done(Ok(list));
        }
        find_class_lights(replies, 5)
    }

    /// Takes control of the keyboard.
    pub fn new(tuxedo_io: Option<TuxedoIo>, replies: &[Reply]) -> (r: Step<RgbKeyboardControl>)
        ensures
            r@ == open_keyboard_move(tuxedo_io, replies@),
    {
        match Self::find_all_keyboard_backlight_paths(replies) {
            Step::Do(action) => Step::Do(action),
            Step::Done(Err(message)) => Step::Done(Err(message)),
            Step::Done(Ok(paths)) => {
                assert(paths.deep_view() =~= views(paths@));
                if paths.len() == 0 && tuxedo_io.is_none() {
                    return Step::Done(
                        Err("No keyboard backlight control available".to_string()),
                    );
                }
                Step::Done(Ok(RgbKeyboardControl { paths, tuxedo_io }))
            },
        }
    }

    fn has_clevo(&self) -> (r: bool)
        ensures
            r == self@.is_clevo(),
    {
        match self.tuxedo_io {
            Some(io) => io.get_interface() == HardwareInterface::Clevo,
            None => false,
        }
    }

    fn push_command(&self, plan: &mut Vec<PlanEntry>, command: u32)
        ensures
            entries(final(plan)@) == entries(old(plan)@) + self@.command_part(command),
    {
        let ghost before = plan@;
        if self.has_clevo() {
            let request = TuxedoIo::iow(MAGIC_WRITE_CL, 0x67, PTR_SIZE);
            plan.push(plan_attempt(Action::Control(Ioctl::WriteWide(request, command as u64))));
        }
        assert(entries(plan@) =~= entries(before) + self@.command_part(command));
    }

    fn push_zone_command(&self, plan: &mut Vec<PlanEntry>, zone: usize, color: Rgb)
        ensures
            entries(final(plan)@) == entries(old(plan)@) + self@.zone_command_part(
                zone as nat,
                color,
            ),
    {
        let z = (zone % 256) as u8;
        if z <= 2 {
            self.push_command(
                plan,
                TuxedoIo::clevo_color_command(z, color.r, color.g, color.b),
            );
        } else {
            assert(entries(plan@) =~= entries(plan@) + Seq::<Entry>::empty());
        }
    }

    fn push_colors(&self, plan: &mut Vec<PlanEntry>, colors: &Vec<Rgb>)
        ensures
            entries(final(plan)@) == entries(old(plan)@) + self@.colors_part(colors@),
    {
        let ghost start = entries(plan@);
        let mut i: usize = 0;
        assert(start =~= start + self@.colors_part(colors@.take(0)));
        while i < colors.len()
            invariant
                i <= colors@.len(),
                entries(plan@) == start + self@.colors_part(colors@.take(i as int)),
            decreases colors@.len() - i,
        {
            let ghost before = entries(plan@);
            self.push_zone_command(plan, i, colors[i]);
            let ghost middle = plan@;
            if i < self.paths.len() {
                plan.push(write_color(&self.paths[i], colors[i], None, None));
                assert(entries(plan@) =~= entries(middle).push(plan@.last()@));
                assert(self@.paths[i as int] == self.paths@[i as int]@);
            }
            proof {
                assert(colors@.take(i + 1).drop_last() =~= colors@.take(i as int));
                assert(colors@.take(i + 1).last() == colors@[i as int]);
                assert(entries(plan@) =~= before + self@.zone_part(i as nat, colors@[i as int]));
                assert(entries(plan@) =~= start + self@.colors_part(colors@.take(i + 1)));
            }
            i = i + 1;
        }
        assert(colors@.take(colors@.len() as int) =~= colors@);
    }

    fn push_brightness(&self, plan: &mut Vec<PlanEntry>, brightness: u8)
        ensures
            entries(final(plan)@) == entries(old(plan)@) + self@.brightness_part(brightness),
    {
        let ghost start = entries(plan@);
        self.push_command(plan, TuxedoIo::clevo_brightness_command(brightness));
        let ghost base = entries(plan@);
        let ghost wanted = Seq::new(
            self@.paths.len(),
            |i: int| Entry::Brightness { light: self@.paths[i], percent: brightness },
        );
        let mut i: usize = 0;
        assert(base =~= base + wanted.take(0));
        while i < self.paths.len()
            invariant
                i <= self.paths@.len(),
                wanted == Seq::new(
                    self@.paths.len(),
                    |i: int| Entry::Brightness { light: self@.paths[i], percent: brightness },
                ),
                entries(plan@) == base + wanted.take(i as int),
            decreases self.paths@.len() - i,
        {
            let ghost before = plan@;
            plan.push(
                PlanEntry::Brightness { light: self.paths[i].clone(), percent: brightness },
            );
            assert(entries(plan@) =~= entries(before).push(plan@.last()@));
            assert(self@.paths[i as int] == self.paths@[i as int]@);
            assert(base + wanted.take(i + 1) =~= (base + wanted.take(i as int)).push(
                wanted[i as int],
            ));
            i = i + 1;
        }
        assert(wanted.take(self.paths@.len() as int) =~= wanted);
        assert(entries(plan@) =~= start + self@.brightness_part(brightness));
    }

    fn write_effect_mode(&self, plan: &mut Vec<PlanEntry>, mode_value: u8, fallback: &str)
        ensures
            entries(final(plan)@) == entries(old(plan)@) + self@.effect_part(mode_value, fallback@),
    {
        let ghost start = entries(plan@);
        let ghost wanted = self@.effect_part(mode_value, fallback@);
        let mut i: usize = 0;
        assert(start =~= start + wanted.take(0));
        while i < self.paths.len()
            invariant
                i <= self.paths@.len(),
                wanted == self@.effect_part(mode_value, fallback@),
                entries(plan@) == start + wanted.take(i as int),
            decreases self.paths@.len() - i,
        {
            let ghost before = plan@;
            let path = join(self.paths[i].as_str(), "/mode");
            plan.push(
                PlanEntry::Access {
                    guard: Some(path.clone()),
                    absent: None,
                    action: Action::Write(path.clone(), decimal_of(mode_value as u64)),
                    fallback: Some(Action::Write(path, fallback.to_string())),
                    failure: None,
                },
            );
            assert(entries(plan@) =~= entries(before).push(plan@.last()@));
            assert(self@.paths[i as int] == self.paths@[i as int]@);
            assert(start + wanted.take(i + 1) =~= (start + wanted.take(i as int)).push(
                wanted[i as int],
            ));
            i = i + 1;
        }
        assert(wanted.take(self.paths@.len() as int) =~= wanted);
    }

    fn write_effect_speed(&self, plan: &mut Vec<PlanEntry>, speed: u8)
        ensures
            entries(final(plan)@) == entries(old(plan)@) + self@.speed_part(speed),
    {
        let ghost start = entries(plan@);
        let ghost wanted = self@.speed_part(speed);
        let mut i: usize = 0;
        assert(start =~= start + wanted.take(0));
        while i < self.paths.len()
            invariant
                i <= self.paths@.len(),
                wanted == self@.speed_part(speed),
                entries(plan@) == start + wanted.take(i as int),
            decreases self.paths@.len() - i,
        {
            let ghost before = plan@;
            let path = join(self.paths[i].as_str(), "/speed");
            plan.push(
                PlanEntry::Access {
                    guard: Some(path.clone()),
                    absent: None,
                    action: Action::Write(path, decimal_of(speed as u64)),
                    fallback: None,
                    failure: None,
                },
            );
            assert(entries(plan@) =~= entries(before).push(plan@.last()@));
            assert(self@.paths[i as int] == self.paths@[i as int]@);
            assert(start + wanted.take(i + 1) =~= (start + wanted.take(i as int)).push(
                wanted[i as int],
            ));
            i = i + 1;
        }
        assert(wanted.take(self.paths@.len() as int) =~= wanted);
    }

    /// Colours one zone. Once the firmware has taken the colour, the light of the
    /// zone is set as well, whatever comes of it.
    pub fn set_zone_color(
        &self,
        zone_idx: usize,
        red: u8,
        green: u8,
        blue: u8,
        replies: &[Reply],
    ) -> (r: Step<()>)
        ensures
            r@ == self@.zone_move(
                zone_idx as nat,
                Rgb { r: red, g: green, b: blue },
                replies@,
            ),
    {
        let color = Rgb { r: red, g: green, b: blue };
        let mut plan: Vec<PlanEntry> = Vec::new();
        self.push_zone_command(&mut plan, zone_idx, color);
        assert(entries(plan@) =~= self@.zone_command_part(zone_idx as nat, color));
        assert(replies@.skip(0) =~= replies@);
        let colored = self.has_clevo() && zone_idx % 256 <= 2 && replies.len() > 0
            && replies[0].failure().is_none();
        if zone_idx < self.paths.len() {
            let ghost before = plan@;
            let entry = if colored {
                write_color(&self.paths[zone_idx], color, None, None)
            } else {
                write_color(
                    &self.paths[zone_idx],
                    color,
                    Some(
                        join(
                            "RGB control not available for zone ",
                            decimal_of(zone_idx as u64).as_str(),
                        ),
                    ),
                    Some("".to_string()),
                )
            };
            plan.push(entry);
            assert(entries(plan@) =~= entries(before).push(plan@.last()@));
            assert(self@.paths[zone_idx as int] == self.paths@[zone_idx as int]@);
            return run_plan(&plan, replies, 0);
        }
        match run_plan(&plan, replies, 0) {
            Step::Do(action) => Step::Do(action),
            Step::Done(_) => if colored {
                Step::Done(Ok(()))
            } else {
                Step::Done(Err(join("Invalid zone index: ", decimal_of(zone_idx as u64).as_str())))
            },
        }
    }

    /// Sets the brightness of all lights.
    pub fn set_brightness(&self, brightness: u8, replies: &[Reply]) -> (r: Step<()>)
        ensures
            r@ == plan_move(self@.brightness_part(brightness), replies@),
    {
        let mut plan: Vec<PlanEntry> = Vec::new();
        self.push_brightness(&mut plan, brightness);
        assert(entries(plan@) =~= self@.brightness_part(brightness));
        assert(replies@.skip(0) =~= replies@);
        run_plan(&plan, replies, 0)
    }

    fn plan_fixed(&self, colors: &Vec<Rgb>, brightness: u8) -> (r: Vec<PlanEntry>)
        ensures
            entries(r@) == self@.fixed_plan(colors@, brightness),
    {
        let mut plan: Vec<PlanEntry> = Vec::new();
        self.push_command(&mut plan, 0);
        self.push_colors(&mut plan, colors);
        self.push_brightness(&mut plan, brightness);
        assert(entries(plan@) =~= self@.fixed_plan(colors@, brightness));
        plan
    }

    fn plan_effect(
        &self,
        command: u32,
        number: u8,
        name: &str,
        speed: u8,
        color: Option<Rgb>,
        brightness: u8,
    ) -> (r: Vec<PlanEntry>)
        ensures
            entries(r@) == self@.effect_plan(command, number, name@, speed, color, brightness),
    {
        let mut plan: Vec<PlanEntry> = Vec::new();
        self.push_command(&mut plan, command);
        self.write_effect_mode(&mut plan, number, name);
        self.write_effect_speed(&mut plan, speed);
        let colors: Vec<Rgb> = match color {
            Some(c) => repeat(c, self.paths.len()),
            None => Vec::new(),
        };
        assert(colors@ =~= match color {
            Some(c) => Seq::new(self@.paths.len(), |i: int| c),
            None => Seq::empty(),
        });
        self.push_colors(&mut plan, &colors);
        self.push_brightness(&mut plan, brightness);
        assert(entries(plan@) =~= self@.effect_plan(
            command,
            number,
            name@,
            speed,
            color,
            brightness,
        ));
        plan
    }

    fn plan_mode(&self, mode: &KeyboardMode) -> (r: Vec<PlanEntry>)
        ensures
            entries(r@) == self@.mode_plan(*mode),
    {
        match mode {
            KeyboardMode::SingleColor { r, g, b, brightness } => {
                let zones: usize = if self.tuxedo_io.is_some() && self.paths.len() < 3 {
                    3
                } else {
                    self.paths.len()
                };
                let colors = repeat(Rgb { r: *r, g: *g, b: *b }, zones);
                assert(colors@ =~= Seq::new(
                    self@.zone_count(),
                    |i: int| Rgb { r: *r, g: *g, b: *b },
                ));
                self.plan_fixed(&colors, *brightness)
            },
            KeyboardMode::PerKeyRGB { keys, brightness } => self.plan_fixed(keys, *brightness),
            KeyboardMode::MultipleZones { zones, brightness } => self.plan_fixed(
                zones,
                *brightness,
            ),
            KeyboardMode::Breathe { r, g, b, brightness, speed } => self.plan_effect(
                0x1002a000,
                1,
                "breathing",
                *speed,
                Some(Rgb { r: *r, g: *g, b: *b }),
                *brightness,
            ),
            KeyboardMode::Wave { brightness, speed } => self.plan_effect(
                0xB0000000,
                7,
                "wave",
                *speed,
                None,
                *brightness,
            ),
            KeyboardMode::Cycle { brightness, speed } => self.plan_effect(
                0x33010000,
                2,
                "cycle",
                *speed,
                None,
                *brightness,
            ),
            KeyboardMode::Dance { brightness, speed } => self.plan_effect(
                0x80000000,
                3,
                "dance",
                *speed,
                None,
                *brightness,
            ),
            KeyboardMode::Flash { r, g, b, brightness, speed } => self.plan_effect(
                0xA0000000,
                4,
                "flash",
                *speed,
                Some(Rgb { r: *r, g: *g, b: *b }),
                *brightness,
            ),
            KeyboardMode::RandomColor { brightness, speed } => self.plan_effect(
                0x70000000,
                5,
                "random",
                *speed,
                None,
                *brightness,
            ),
            KeyboardMode::Tempo { brightness, speed } => self.plan_effect(
                0x90000000,
                6,
                "tempo",
                *speed,
                None,
                *brightness,
            ),
        }
    }

    /// Sets the mode of the backlight.
    pub fn set_mode(&self, mode: &KeyboardMode, replies: &[Reply]) -> (r: Step<()>)
        ensures
            r@ == plan_move(self@.mode_plan(*mode), replies@),
    {
        let plan = self.plan_mode(mode);
        assert(replies@.skip(0) =~= replies@);
        run_plan(&plan, replies, 0)
    }
}

fn repeat(color: Rgb, n: usize) -> (r: Vec<Rgb>)
    ensures
        r@.len() == n,
        forall|i: int| 0 <= i < n ==> #[trigger] r@[i] == color,
{
    let mut out: Vec<Rgb> = Vec::new();
    let mut i: usize = 0;
    while i < n
        invariant
            i <= n,
            out@.len() == i,
            forall|k: int| 0 <= k < i ==> #[trigger] out@[k] == color,
        decreases n - i,
    {
        out.push(color);
        i = i + 1;
    }
    out
}

/// The mode that the keyboard is left in when its control is switched off.
pub open spec fn plain_white() -> KeyboardMode {
    KeyboardMode::SingleColor { r: 255, g: 255, b: 255, brightness: 50 }
}

/// Applying the keyboard settings of a profile: a keyboard that is not to be
/// controlled is left plain white; one that is has to be there.
pub open spec fn keyboard_settings_move(
    settings: KeyboardSettings,
    keyboard: Option<Lights>,
    replies: Seq<Reply>,
) -> Move<()> {
    match keyboard {
        Some(lights) => plan_move(
            lights.mode_plan(
                if settings.control_enabled {
                    settings.mode
                } else {
                    plain_white()
                },
            ),
            replies,
        ),
        None => if settings.control_enabled {
            Move::Done(Err("Keyboard control not available"@))
        } else {
            Move::Done(Ok(()))
        },
    }
}

/// What an optional keyboard says.
pub open spec fn opt_lights(keyboard: Option<&RgbKeyboardControl>) -> Option<Lights> {
    match keyboard {
        Some(k) => Some(k@),
        None => None,
    }
}

/// Applies the keyboard settings of a profile.
pub fn apply_keyboard_settings(
    settings: &KeyboardSettings,
    keyboard: Option<&RgbKeyboardControl>,
    replies: &[Reply],
) -> (r: Step<()>)
    ensures
        r@ == keyboard_settings_move(*settings, opt_lights(keyboard), replies@),
{
    match keyboard {
        Some(kbd) => if settings.control_enabled {
            kbd.set_mode(&settings.mode, replies)
        } else {
            let white = KeyboardMode::SingleColor { r: 255, g: 255, b: 255, brightness: 50 };
            kbd.set_mode(&white, replies)
        },
        None => if settings.control_enabled {
            Step::Done(Err("Keyboard control not available".to_string()))
        } else {
            Step::Done(Ok(()))
        },
    }
}

/// Shows a mode without making it part of a profile.
pub fn preview_keyboard_settings(
    settings: &KeyboardSettings,
    keyboard: Option<&RgbKeyboardControl>,
    replies: &[Reply],
) -> (r: Step<()>)
    ensures
        r@ == (match opt_lights(keyboard) {
            Some(lights) => plan_move(lights.mode_plan(settings.mode), replies@),
            None => Move::Done(Err("Keyboard control not available"@)),
        }),
{
    match keyboard {
        Some(kbd) => kbd.set_mode(&settings.mode, replies),
        None => Step::Done(Err("Keyboard control not available".to_string())),
    }
}

/// Once the firmware has taken the colour of a zone, colouring it cannot fail.
pub proof fn law_firmware_colors_suffice(
    lights: Lights,
    zone: nat,
    color: Rgb,
    replies: Seq<Reply>,
)
    requires
        lights.colored_by_firmware(zone, replies),
    ensures
        lights.zone_move(zone, color, replies) matches Move::Done(result) ==> result is Ok,
{
    let plan = lights.zone_part(zone, color);
    assert(all_lenient(plan));
    lemma_lenient_plan(plan, replies);
}

proof fn lemma_colors_lenient(lights: Lights, colors: Seq<Rgb>)
    ensures
        all_lenient(lights.colors_part(colors)),
    decreases colors.len(),
{
    if colors.len() > 0 {
        lemma_colors_lenient(lights, colors.drop_last());
        lemma_lenient_sum(
            lights.colors_part(colors.drop_last()),
            lights.zone_part((colors.len() - 1) as nat, colors.last()),
        );
    }
}

proof fn lemma_fixed_lenient(lights: Lights, colors: Seq<Rgb>, brightness: u8)
    ensures
        all_lenient(lights.fixed_plan(colors, brightness)),
{
    lemma_colors_lenient(lights, colors);
    lemma_lenient_sum(lights.command_part(0), lights.colors_part(colors));
    lemma_lenient_sum(
        lights.command_part(0) + lights.colors_part(colors),
        lights.brightness_part(brightness),
    );
}

proof fn lemma_effect_lenient(
    lights: Lights,
    command: u32,
    number: u8,
    name: Seq<char>,
    speed: u8,
    color: Option<Rgb>,
    brightness: u8,
)
    ensures
        all_lenient(lights.effect_plan(command, number, name, speed, color, brightness)),
{
    let colors = match color {
        Some(c) => Seq::new(lights.paths.len(), |i: int| c),
        None => Seq::empty(),
    };
    let a = lights.command_part(command);
    let b = lights.effect_part(number, name);
    let c = lights.speed_part(speed);
    let d = lights.colors_part(colors);
    lemma_colors_lenient(lights, colors);
    lemma_lenient_sum(a, b);
    lemma_lenient_sum(a + b, c);
    lemma_lenient_sum(a + b + c, d);
    lemma_lenient_sum(a + b + c + d, lights.brightness_part(brightness));
}

/// Setting a mode never fails, whatever the keyboard replies.
pub proof fn law_mode_never_fails(lights: Lights, mode: KeyboardMode, replies: Seq<Reply>)
    ensures
        plan_move(lights.mode_plan(mode), replies) matches Move::Done(result) ==> result is Ok,
{
    assert(all_lenient(lights.mode_plan(mode))) by {
        match mode {
            KeyboardMode::SingleColor { r, g, b, brightness } => lemma_fixed_lenient(
                lights,
                Seq::new(lights.zone_count(), |i: int| Rgb { r, g, b }),
                brightness,
            ),
            KeyboardMode::PerKeyRGB { keys, brightness } => lemma_fixed_lenient(
                lights,
                keys@,
                brightness,
            ),
            KeyboardMode::MultipleZones { zones, brightness } => lemma_fixed_lenient(
                lights,
                zones@,
                brightness,
            ),
            KeyboardMode::Breathe { r, g, b, brightness, speed } => lemma_effect_lenient(
                lights,
                0x1002a000,
                1,
                "breathing"@,
                speed,
                Some(Rgb { r, g, b }),
                brightness,
            ),
            KeyboardMode::Wave { brightness, speed } => lemma_effect_lenient(
                lights,
                0xB0000000,
                7,
                "wave"@,
                speed,
                None,
                brightness,
            ),
            KeyboardMode::Cycle { brightness, speed } => lemma_effect_lenient(
                lights,
                0x33010000,
                2,
                "cycle"@,
                speed,
                None,
                brightness,
            ),
            KeyboardMode::Dance { brightness, speed } => lemma_effect_lenient(
                lights,
                0x80000000,
                3,
                "dance"@,
                speed,
                None,
                brightness,
            ),
            KeyboardMode::Flash { r, g, b, brightness, speed } => lemma_effect_lenient(
                lights,
                0xA0000000,
                4,
                "flash"@,
                speed,
                Some(Rgb { r, g, b }),
                brightness,
            ),
            KeyboardMode::RandomColor { brightness, speed } => lemma_effect_lenient(
                lights,
                0x70000000,
                5,
                "random"@,
                speed,
                None,
                brightness,
            ),
            KeyboardMode::Tempo { brightness, speed } => lemma_effect_lenient(
                lights,
                0x90000000,
                6,
                "tempo"@,
                speed,
                None,
                brightness,
            ),
        }
    }
    lemma_lenient_plan(lights.mode_plan(mode), replies);
}

} // verus!
