//! Brightness of the screen.

use crate::access::{
    read_small_number, scale, scaled, small_number_or, Act, Action, Move, Reply, Step,
};
use crate::text::{decimal, decimal_of, join};
use vstd::prelude::*;

verus! {

/// The screen settings of a profile.
#[derive(Clone, Copy, PartialEq, Eq, Structural, Debug)]
pub struct ScreenSettings {
    /// The brightness in percent.
    pub brightness: u8,
    /// The brightness is left to the system.
    pub system_control: bool,
}

/// The backlights that are tried, in order.
pub open spec fn backlights() -> Seq<Seq<char>> {
    seq![
        "/sys/class/backlight/intel_backlight"@,
        "/sys/class/backlight/amdgpu_bl0"@,
        "/sys/class/backlight/amdgpu_bl1"@,
        "/sys/class/backlight/acpi_video0"@,
    ]
}

/// Trying the backlights from the `k`-th on: the first one that is there and
/// takes the brightness ends the search. The level also goes to
/// `actual_brightness` where that exists, whatever comes of it.
pub open spec fn backlight_move(k: nat, percent: u8, replies: Seq<Reply>) -> Move<()>
    decreases 4 - k,
{
    if k >= 4 {
        Move::Done(Err("No writable backlight control found"@))
    } else {
        let dir = backlights()[k as int];
        let level = decimal(scaled(percent as nat, small_number_or(replies[1], 255)));
        let used = if replies[2].says_present() {
            4int
        } else {
            3int
        };
        if replies.len() == 0 {
            Move::Do(Act::Probe(dir + "/brightness"@))
        } else if !replies[0].says_present() {
            backlight_move(k + 1, percent, replies.skip(1))
        } else if replies.len() == 1 {
            Move::Do(Act::Read(dir + "/max_brightness"@))
        } else if replies.len() == 2 {
            Move::Do(Act::Probe(dir + "/actual_brightness"@))
        } else if replies.len() < used {
            Move::Do(Act::Write(dir + "/actual_brightness"@, level))
        } else if replies.len() == used {
            Move::Do(Act::Write(dir + "/brightness"@, level))
        } else if replies[used].fault() is None {
            Move::Done(Ok(()))
        } else {
            backlight_move(k + 1, percent, replies.skip(used + 1))
        }
    }
}

/// Applying the screen settings of a profile.
pub open spec fn screen_settings_move(settings: ScreenSettings, replies: Seq<Reply>) -> Move<()> {
    if settings.system_control {
        Move::Done(Ok(()))
    } else {
        backlight_move(0, settings.brightness, replies)
    }
}

/// Applies the screen settings of a profile.
pub fn apply_screen_settings(settings: &ScreenSettings, replies: &[Reply]) -> (r: Step<()>)
    ensures
        r@ == screen_settings_move(*settings, replies@),
{
    if settings.system_control {
        return Step::Done(Ok(()));
    }
    let dirs: [&'static str; 4] = [
        "/sys/class/backlight/intel_backlight",
        "/sys/class/backlight/amdgpu_bl0",
        "/sys/class/backlight/amdgpu_bl1",
        "/sys/class/backlight/acpi_video0",
    ];
    let mut k: usize = 0;
    let mut at: usize = 0;
    assert(replies@.skip(0) =~= replies@);
    assert(forall|j: int| 0 <= j < 4 ==> (#[trigger] dirs@[j])@ == backlights()[j]);
    while k < 4
        invariant
            k <= 4,
            at <= replies.len(),
            dirs@.len() == 4,
            forall|j: int| 0 <= j < 4 ==> (#[trigger] dirs@[j])@ == backlights()[j],
            backlight_move(0, settings.brightness, replies@) == backlight_move(
                k as nat,
                settings.brightness,
                replies@.skip(at as int),
            ),
            !settings.system_control,
        decreases 4 - k,
    {
        let ghost rest = replies@.skip(at as int);
        assert(forall|j: int| 0 <= j < rest.len() ==> rest[j] == replies@[at + j]);
        let left: usize = replies.len() - at;
        let dir = dirs[k];
        if left == 0 {
            return Step::Do(Action::Probe(join(dir, "/brightness")));
        }
        if !replies[at].present() {
            assert(rest.skip(1) =~= replies@.skip(at + 1));
            at = at + 1;
        } else {
            if left == 1 {
                return Step::Do(Action::Read(join(dir, "/max_brightness")));
            }
            if left == 2 {
                return Step::Do(Action::Probe(join(dir, "/actual_brightness")));
            }
            let max = read_small_number(&replies[at + 1], 255);
            let level = decimal_of(scale(settings.brightness, max));
            let used: usize = if replies[at + 2].present() {
                4
            } else {
                3
            };
            if left < used {
                return Step::Do(Action::Write(join(dir, "/actual_brightness"), level));
            }
            if left == used {
                return Step::Do(Action::Write(join(dir, "/brightness"), level));
            }
            if replies[at + used].failure().is_none() {
                return Step::Done(Ok(()));
            }
            assert(rest.skip(used + 1) =~= replies@.skip(at + used + 1));
            at = at + used + 1;
        }
        k = k + 1;
    }
    Step::Done(Err("No writable backlight control found".to_string()))
}

/// A profile that leaves the screen to the system makes no access.
pub proof fn law_system_screen_is_left_alone(settings: ScreenSettings, replies: Seq<Reply>)
    requires
        settings.system_control,
    ensures
        screen_settings_move(settings, replies) == Move::<()>::Done(Ok(())),
{
}

/// The search for a backlight ends: after five accesses for each backlight
/// that is left there is an outcome.
pub proof fn law_search_ends(k: nat, percent: u8, replies: Seq<Reply>)
    requires
        k <= 4,
        replies.len() >= 5 * (4 - k),
    ensures
        backlight_move(k, percent, replies) is Done,
    decreases 4 - k,
{
    if k < 4 {
        let used = if replies[2].says_present() {
            4int
        } else {
            3int
        };
        law_search_ends(k + 1, percent, replies.skip(1));
        law_search_ends(k + 1, percent, replies.skip(used + 1));
    }
}

} // verus!
