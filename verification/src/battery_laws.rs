//! What holds of charge control on any laptop, whatever its batteries answer.

use crate::access::{Act, Move, Reply};
use crate::battery_control::{
    battery_found, default_end_thresholds, default_start_thresholds, find_battery, gate_after,
    gate_after_list, gate_after_write, gated_list, gated_percentage, gated_read, gated_threshold,
    gated_write, percentages, GatedMove,
};
use crate::hardware_control::{
    battery_settings_move, charge_settings_move, gate_after_settings, search_used, BatterySettings,
};
use crate::session_laws::{answers, performs};
use crate::text::{decimal, number, trimmed, words, ParseFault};
use vstd::prelude::*;

verus! {

/// The capability behind all of charge control.
pub open spec fn charge_control() -> Seq<char> {
    "battery charge control (_DSM cmd 0x04)"@
}

/// The warning at its first failure.
pub open spec fn warning() -> Seq<char> {
    "read failed ("@ + charge_control() + ") - capability disabled for this daemon run"@
}

/// What is said once it has failed.
pub open spec fn refusal() -> Seq<char> {
    "battery charge control unavailable: "@ + charge_control()
        + " failed permanently (firmware defect); capability disabled until the daemon restarts"@
}

/// On hardware that answers so, the guarded operation makes exactly these accesses,
/// and then has this outcome and this warning.
pub open spec fn performs_guarded<T>(
    op: spec_fn(Seq<Reply>) -> GatedMove<T>,
    world: spec_fn(Act) -> Reply,
    acts: Seq<Act>,
    outcome: Result<T, Seq<char>>,
    warning: Option<Seq<char>>,
) -> bool {
    &&& forall|k: int|
        0 <= k < acts.len() ==> op(#[trigger] answers(world, acts.take(k))) == GatedMove::<T>::Do(
            acts[k],
        )
    &&& op(answers(world, acts)) == GatedMove::<T>::Done(outcome, warning)
}

/// Whether a path is there.
pub open spec fn there(path: Seq<char>, world: spec_fn(Act) -> Reply) -> bool {
    world(Act::Probe(path)) == Reply::Present(true)
}

/// The questions for one battery: for its directory, and if that is there for the
/// file of its charge type.
pub open spec fn questions(dir: Seq<char>, world: spec_fn(Act) -> Reply) -> Seq<Act> {
    if there(dir, world) {
        seq![Act::Probe(dir), Act::Probe(dir + "/charge_type"@)]
    } else {
        seq![Act::Probe(dir)]
    }
}

/// A battery with charge control.
pub open spec fn controllable(dir: Seq<char>, world: spec_fn(Act) -> Reply) -> bool {
    there(dir, world) && there(dir + "/charge_type"@, world)
}

/// The first of two batteries that has charge control.
pub open spec fn battery_dir(world: spec_fn(Act) -> Reply) -> Option<Seq<char>> {
    if controllable("/sys/class/power_supply/BAT0"@, world) {
        Some("/sys/class/power_supply/BAT0"@)
    } else if controllable("/sys/class/power_supply/BAT1"@, world) {
        Some("/sys/class/power_supply/BAT1"@)
    } else {
        None
    }
}

/// The accesses of the search for it.
pub open spec fn search_acts(world: spec_fn(Act) -> Reply) -> Seq<Act> {
    let first = questions("/sys/class/power_supply/BAT0"@, world);
    if controllable("/sys/class/power_supply/BAT0"@, world) {
        first
    } else {
        first + questions("/sys/class/power_supply/BAT1"@, world)
    }
}

proof fn lemma_search_due(world: spec_fn(Act) -> Reply, k: int)
    requires
        0 <= k < search_acts(world).len(),
    ensures
        find_battery(answers(world, search_acts(world).take(k))) == Move::<Seq<char>>::Do(
            search_acts(world)[k],
        ),
{
    let acts = search_acts(world);
    let replies = answers(world, acts.take(k));
    assert(replies.len() == k);
    assert(forall|i: int| 0 <= i < k ==> #[trigger] replies[i] == world(acts[i]));
    let n = questions("/sys/class/power_supply/BAT0"@, world).len() as int;
    if k > 0 {
        assert(replies[0] == world(acts[0]));
    }
    if k > 1 {
        assert(replies[1] == world(acts[1]));
    }
    if k >= n {
        let rest = replies.skip(n);
        assert(rest.len() == k - n);
        if k > n {
            assert(rest[0] == world(acts[n]));
        }
    }
}

proof fn lemma_search_over(world: spec_fn(Act) -> Reply, more: Seq<Reply>)
    ensures
        find_battery(answers(world, search_acts(world)) + more) == (match battery_dir(world) {
            Some(dir) => Move::<Seq<char>>::Done(Ok(dir)),
            None => Move::<Seq<char>>::Done(Err("No battery with charge control found"@)),
        }),
        search_used(answers(world, search_acts(world)) + more) == search_acts(world).len(),
{
    let acts = search_acts(world);
    let replies = answers(world, acts) + more;
    assert(forall|i: int| 0 <= i < acts.len() ==> #[trigger] replies[i] == world(acts[i]));
    let n = questions("/sys/class/power_supply/BAT0"@, world).len() as int;
    assert(replies[0] == world(acts[0]));
    if n == 2 {
        assert(replies[1] == world(acts[1]));
    }
    if acts.len() > n {
        let rest = replies.skip(n);
        assert(rest[0] == world(acts[n]));
        if acts.len() > n + 1 {
            assert(rest[1] == world(acts[n + 1]));
        }
    }
}

/// The battery is the first one that is there and has a charge type; two are looked
/// at.
pub proof fn law_battery_is_found(world: spec_fn(Act) -> Reply)
    ensures
        performs(
            |replies: Seq<Reply>| find_battery(replies),
            world,
            search_acts(world),
            match battery_dir(world) {
                Some(dir) => Ok(dir),
                None => Err("No battery with charge control found"@),
            },
        ),
        performs(
            |replies: Seq<Reply>| battery_found(replies),
            world,
            search_acts(world),
            Ok(battery_dir(world) is Some),
        ),
{
    let acts = search_acts(world);
    let find = |replies: Seq<Reply>| find_battery(replies);
    let found = |replies: Seq<Reply>| battery_found(replies);
    assert forall|k: int| 0 <= k < acts.len() implies find(#[trigger] answers(world, acts.take(k)))
        == Move::<Seq<char>>::Do(acts[k]) && found(answers(world, acts.take(k))) == Move::<
        bool,
    >::Do(acts[k]) by {
        lemma_search_due(world, k);
    }
    lemma_search_over(world, Seq::empty());
    assert(answers(world, acts) + Seq::<Reply>::empty() =~= answers(world, acts));
}

/// Behind the guard a file is read or written only while charge control has not
/// failed. What is read is the outcome; a failure is the outcome with its reason,
/// gives the warning if it is the first, and disables charge control and nothing
/// else.
pub proof fn law_guarded_access(
    path: Seq<char>,
    value: Seq<char>,
    disabled: Set<Seq<char>>,
    text: String,
    reason: String,
    done: Reply,
)
    requires
        !(done is Failed),
    ensures
        ({
            let off = disabled.contains(charge_control());
            let start = Seq::<Reply>::empty();
            let due = if off {
                None
            } else {
                Some(warning())
            };
            let fails = seq![Reply::Failed(reason)];
            &&& off ==> gated_read(path, disabled, start) == GatedMove::<Seq<char>>::Done(
                Err(refusal()),
                None,
            )
            &&& !off ==> gated_read(path, disabled, start) == GatedMove::<Seq<char>>::Do(
                Act::Read(path),
            )
            &&& off ==> gated_write(path, value, disabled, start) == GatedMove::<()>::Done(
                Err(refusal()),
                None,
            )
            &&& !off ==> gated_write(path, value, disabled, start) == GatedMove::<()>::Do(
                Act::Write(path, value),
            )
            &&& gated_read(path, disabled, seq![Reply::Text(text)]) == GatedMove::<
                Seq<char>,
            >::Done(Ok(text@), None)
            &&& gated_write(path, value, disabled, seq![done]) == GatedMove::<()>::Done(
                Ok(()),
                None,
            )
            &&& gated_read(path, disabled, fails) == GatedMove::<Seq<char>>::Done(
                Err(reason@),
                due,
            )
            &&& gated_write(path, value, disabled, fails) == GatedMove::<()>::Done(
                Err(reason@),
                due,
            )
            &&& gate_after(disabled, start) == disabled
            &&& gate_after(disabled, seq![Reply::Text(text)]) == disabled
            &&& gate_after(disabled, fails) == disabled.insert(charge_control())
            &&& gate_after_write(disabled, start) == disabled
            &&& gate_after_write(disabled, seq![done]) == disabled
            &&& gate_after_write(disabled, fails) == disabled.insert(charge_control())
        }),
{
}

/// A threshold is read as the number in the file; what is no number up to 255 is an
/// error, and so is a threshold above one hundred that is to be set.
pub proof fn law_thresholds(
    path: Seq<char>,
    threshold: u8,
    disabled: Set<Seq<char>>,
    replies: Seq<Reply>,
    text: String,
)
    ensures
        threshold > 100 ==> gated_threshold(path, threshold, disabled, replies) == GatedMove::<
            (),
        >::Done(Err("Threshold must be between 0 and 100"@), None),
        threshold <= 100 ==> gated_threshold(path, threshold, disabled, replies) == gated_write(
            path,
            decimal(threshold as nat),
            disabled,
            replies,
        ),
        gated_percentage(path, disabled, seq![Reply::Text(text)]) == GatedMove::<u8>::Done(
            match number(trimmed(text@), 255) {
                Ok(n) => Ok(n as u8),
                Err(ParseFault::Empty) => Err("cannot parse integer from empty string"@),
                Err(ParseFault::InvalidDigit) => Err("invalid digit found in string"@),
                Err(ParseFault::TooLarge) => Err("number too large to fit in target type"@),
            },
            None,
        ),
{
}

/// A word that is a number up to 255.
pub open spec fn is_percentage(word: Seq<char>) -> bool {
    number(word, 255) is Ok
}

proof fn lemma_percentages(list: Seq<Seq<char>>)
    ensures
        percentages(list) == list.filter(|word: Seq<char>| is_percentage(word)).map_values(
            |word: Seq<char>| number(word, 255)->Ok_0 as u8,
        ),
    decreases list.len(),
{
    reveal(Seq::filter);
    let numbers = list.filter(|word: Seq<char>| is_percentage(word)).map_values(
        |word: Seq<char>| number(word, 255)->Ok_0 as u8,
    );
    if list.len() > 0 {
        lemma_percentages(list.drop_last());
    }
    assert(percentages(list) =~= numbers);
}

/// The available thresholds are the numbers among the words of the file, in their
/// order; without the file they are the usual ones, and the firmware is not
/// touched.
pub proof fn law_available_thresholds(
    path: Seq<char>,
    defaults: Seq<u8>,
    disabled: Set<Seq<char>>,
    missing: Reply,
    text: String,
)
    requires
        missing != Reply::Present(true),
    ensures
        gated_list(path, defaults, disabled, Seq::empty()) == GatedMove::<Seq<u8>>::Do(
            Act::Probe(path),
        ),
        gated_list(path, defaults, disabled, seq![missing]) == GatedMove::<Seq<u8>>::Done(
            Ok(defaults),
            None,
        ),
        gate_after_list(disabled, seq![missing]) == disabled,
        !disabled.contains(charge_control()) ==> gated_list(
            path,
            defaults,
            disabled,
            seq![Reply::Present(true)],
        ) == GatedMove::<Seq<u8>>::Do(Act::Read(path)),
        gated_list(path, defaults, disabled, seq![Reply::Present(true), Reply::Text(text)])
            == GatedMove::<Seq<u8>>::Done(
            Ok(
                words(text@).filter(|word: Seq<char>| is_percentage(word)).map_values(
                    |word: Seq<char>| number(word, 255)->Ok_0 as u8,
                ),
            ),
            None,
        ),
        gate_after_list(disabled, seq![Reply::Present(true), Reply::Text(text)]) == disabled,
        default_start_thresholds() == seq![40u8, 50, 60, 70, 80, 95],
        default_end_thresholds() == seq![60u8, 70, 80, 90, 100],
{
    lemma_percentages(words(text@));
    assert(seq![Reply::Present(true)].skip(1) =~= Seq::<Reply>::empty());
    let both = seq![Reply::Present(true), Reply::Text(text)];
    assert(both.skip(1) =~= seq![Reply::Text(text)]);
}

/// The writes of battery settings: without control the standard charge type and
/// nothing else; with it the custom charge type, then the start threshold, then the
/// end threshold.
pub open spec fn charge_writes(settings: BatterySettings, dir: Seq<char>) -> Seq<Act> {
    if settings.control_enabled {
        seq![
            Act::Write(dir + "/charge_type"@, "Custom"@),
            Act::Write(
                dir + "/charge_control_start_threshold"@,
                decimal(settings.charge_start_threshold as nat),
            ),
            Act::Write(
                dir + "/charge_control_end_threshold"@,
                decimal(settings.charge_end_threshold as nat),
            ),
        ]
    } else {
        seq![Act::Write(dir + "/charge_type"@, "Standard"@)]
    }
}

/// How many of the writes are made where none fails: none once charge control has
/// failed, and none from a threshold on that is no percentage.
pub open spec fn writes_allowed(settings: BatterySettings, disabled: Set<Seq<char>>) -> int {
    if disabled.contains(charge_control()) {
        0
    } else if !settings.control_enabled || settings.charge_start_threshold > 100 {
        1
    } else if settings.charge_end_threshold > 100 {
        2
    } else {
        3
    }
}

/// The outcome after those writes.
pub open spec fn charge_outcome(settings: BatterySettings, disabled: Set<Seq<char>>) -> Result<
    (),
    Seq<char>,
> {
    if disabled.contains(charge_control()) {
        Err(refusal())
    } else if settings.control_enabled && (settings.charge_start_threshold > 100
        || settings.charge_end_threshold > 100) {
        Err("Threshold must be between 0 and 100"@)
    } else {
        Ok(())
    }
}

proof fn lemma_after_search(
    settings: BatterySettings,
    disabled: Set<Seq<char>>,
    world: spec_fn(Act) -> Reply,
    later: Seq<Reply>,
)
    requires
        battery_dir(world) is Some,
    ensures
        battery_settings_move(
            settings,
            disabled,
            answers(world, search_acts(world) + search_acts(world)) + later,
        ) == charge_settings_move(settings, battery_dir(world)->0, disabled, later),
{
    let search = search_acts(world);
    let one = answers(world, search);
    assert(answers(world, search + search) =~= one + one);
    let replies = one + one + later;
    lemma_search_over(world, one + later);
    assert(replies =~= one + (one + later));
    lemma_search_over(world, later);
    assert(replies.skip(search.len() as int) =~= one + later);
    assert((one + later).skip(search.len() as int) =~= later);
}

proof fn lemma_settings_due(
    settings: BatterySettings,
    disabled: Set<Seq<char>>,
    world: spec_fn(Act) -> Reply,
    acts: Seq<Act>,
    k: int,
)
    requires
        battery_dir(world) is Some,
        0 <= k < 2 * search_acts(world).len(),
        k < acts.len(),
        forall|i: int|
            0 <= i < acts.len() && i < 2 * search_acts(world).len() ==> #[trigger] acts[i] == (
            search_acts(world) + search_acts(world))[i],
    ensures
        battery_settings_move(settings, disabled, answers(world, acts.take(k))) == GatedMove::<
            (),
        >::Do(acts[k]),
{
    let search = search_acts(world);
    let n = search.len() as int;
    let one = answers(world, search);
    assert(acts[k] == (search + search)[k]);
    if k < n {
        lemma_search_due(world, k);
        assert(acts.take(k) =~= search.take(k));
    } else {
        lemma_search_due(world, k - n);
        let later = answers(world, search.take(k - n));
        assert(answers(world, acts.take(k)) =~= one + later);
        lemma_search_over(world, later);
        assert((one + later).skip(n) =~= later);
    }
}

/// Battery settings on a battery with charge control whose writes succeed. After
/// the search, which is made twice, come exactly the writes of the settings, as far
/// as they are allowed, and no capability is disabled.
pub proof fn law_battery_settings(
    settings: BatterySettings,
    disabled: Set<Seq<char>>,
    world: spec_fn(Act) -> Reply,
)
    requires
        battery_dir(world) is Some,
        forall|k: int|
            0 <= k < charge_writes(settings, battery_dir(world)->0).len() ==> !(world(
                #[trigger] charge_writes(settings, battery_dir(world)->0)[k],
            ) is Failed),
    ensures
        ({
            let writes = charge_writes(settings, battery_dir(world)->0);
            let acts = search_acts(world) + search_acts(world) + writes.take(
                writes_allowed(settings, disabled),
            );
            &&& performs_guarded(
                |replies: Seq<Reply>| battery_settings_move(settings, disabled, replies),
                world,
                acts,
                charge_outcome(settings, disabled),
                None,
            )
            &&& gate_after_settings(settings, disabled, answers(world, acts)) == disabled
        }),
{
    let dir = battery_dir(world)->0;
    let search = search_acts(world) + search_acts(world);
    let writes = charge_writes(settings, dir);
    let allowed = writes_allowed(settings, disabled);
    let made = writes.take(allowed);
    let acts = search + made;
    let op = |replies: Seq<Reply>| battery_settings_move(settings, disabled, replies);
    assert forall|k: int| 0 <= k <= allowed implies {
        let later = #[trigger] answers(world, writes.take(k));
        &&& later.len() == k
        &&& forall|i: int| 0 <= i < k ==> #[trigger] later[i] == world(writes[i])
        &&& k == allowed ==> charge_settings_move(settings, dir, disabled, later)
            == GatedMove::<()>::Done(charge_outcome(settings, disabled), None)
        &&& k < allowed ==> charge_settings_move(settings, dir, disabled, later) == GatedMove::<
            (),
        >::Do(writes[k])
    } by {
        lemma_charge(settings, dir, disabled, world, k);
    }
    assert forall|k: int| 0 <= k < acts.len() implies op(#[trigger] answers(world, acts.take(k)))
        == GatedMove::<()>::Do(acts[k]) by {
        if k < search.len() {
            lemma_settings_due(settings, disabled, world, acts, k);
        } else {
            let m = k - search.len();
            let later = answers(world, writes.take(m));
            assert(answers(world, acts.take(k)) =~= answers(world, search) + later);
            lemma_after_search(settings, disabled, world, later);
        }
    }
    let later = answers(world, writes.take(allowed));
    assert(answers(world, acts) =~= answers(world, search) + later);
    lemma_after_search(settings, disabled, world, later);
}

proof fn lemma_charge(
    settings: BatterySettings,
    dir: Seq<char>,
    disabled: Set<Seq<char>>,
    world: spec_fn(Act) -> Reply,
    k: int,
)
    requires
        0 <= k <= writes_allowed(settings, disabled),
        forall|i: int|
            0 <= i < k ==> !(world(#[trigger] charge_writes(settings, dir)[i]) is Failed),
    ensures
        ({
            let writes = charge_writes(settings, dir);
            let later = answers(world, writes.take(k));
            &&& later.len() == k
            &&& forall|i: int| 0 <= i < k ==> #[trigger] later[i] == world(writes[i])
            &&& k == writes_allowed(settings, disabled) ==> charge_settings_move(
                settings,
                dir,
                disabled,
                later,
            ) == GatedMove::<()>::Done(charge_outcome(settings, disabled), None)
            &&& k < writes_allowed(settings, disabled) ==> charge_settings_move(
                settings,
                dir,
                disabled,
                later,
            ) == GatedMove::<()>::Do(writes[k])
        }),
{
    let writes = charge_writes(settings, dir);
    let later = answers(world, writes.take(k));
    assert(later.len() == k);
    assert(forall|i: int| 0 <= i < k ==> #[trigger] later[i] == world(writes[i]));
    if k > 0 {
        assert(later[0] == world(writes[0]));
        let rest = later.skip(1);
        assert(rest.len() == k - 1);
        if k > 1 {
            assert(rest[0] == world(writes[1]));
            let end = rest.skip(1);
            assert(end.len() == k - 2);
            if k > 2 {
                assert(end[0] == world(writes[2]));
            }
        }
    }
}

/// A write of the settings that fails is the last access: the outcome is its
/// reason, with the warning, and charge control is disabled and nothing else.
pub proof fn law_failed_battery_settings(
    settings: BatterySettings,
    disabled: Set<Seq<char>>,
    world: spec_fn(Act) -> Reply,
    at: int,
    reason: String,
)
    requires
        battery_dir(world) is Some,
        0 <= at < writes_allowed(settings, disabled),
        forall|k: int|
            0 <= k < at ==> !(world(
                #[trigger] charge_writes(settings, battery_dir(world)->0)[k],
            ) is Failed),
        world(charge_writes(settings, battery_dir(world)->0)[at]) == Reply::Failed(reason),
    ensures
        ({
            let writes = charge_writes(settings, battery_dir(world)->0);
            let acts = search_acts(world) + search_acts(world) + writes.take(at + 1);
            &&& performs_guarded(
                |replies: Seq<Reply>| battery_settings_move(settings, disabled, replies),
                world,
                acts,
                Err(reason@),
                Some(warning()),
            )
            &&& gate_after_settings(settings, disabled, answers(world, acts)) == disabled.insert(
                charge_control(),
            )
        }),
{
    let dir = battery_dir(world)->0;
    let search = search_acts(world) + search_acts(world);
    let writes = charge_writes(settings, dir);
    let acts = search + writes.take(at + 1);
    let op = |replies: Seq<Reply>| battery_settings_move(settings, disabled, replies);
    assert forall|k: int| 0 <= k < acts.len() implies op(#[trigger] answers(world, acts.take(k)))
        == GatedMove::<()>::Do(acts[k]) by {
        if k < search.len() {
            lemma_settings_due(settings, disabled, world, acts, k);
        } else {
            let m = k - search.len();
            let later = answers(world, writes.take(m));
            assert(answers(world, acts.take(k)) =~= answers(world, search) + later);
            lemma_charge(settings, dir, disabled, world, m);
            lemma_after_search(settings, disabled, world, later);
        }
    }
    let later = answers(world, writes.take(at + 1));
    assert(answers(world, acts) =~= answers(world, search) + later);
    lemma_after_search(settings, disabled, world, later);
    assert(later[at] == world(writes[at]));
    assert(later[0] == world(writes[0]));
    let rest = later.skip(1);
    if at >= 1 {
        assert(rest[0] == world(writes[1]));
    }
    if at >= 2 {
        assert(rest.skip(1)[0] == world(writes[2]));
    }
}

/// Without a battery with charge control there is nothing to do, and no error.
pub proof fn law_no_battery(
    settings: BatterySettings,
    disabled: Set<Seq<char>>,
    world: spec_fn(Act) -> Reply,
)
    requires
        battery_dir(world) is None,
    ensures
        performs_guarded(
            |replies: Seq<Reply>| battery_settings_move(settings, disabled, replies),
            world,
            search_acts(world),
            Ok(()),
            None,
        ),
{
    let acts = search_acts(world);
    let op = |replies: Seq<Reply>| battery_settings_move(settings, disabled, replies);
    assert forall|k: int| 0 <= k < acts.len() implies op(#[trigger] answers(world, acts.take(k)))
        == GatedMove::<()>::Do(acts[k]) by {
        lemma_search_due(world, k);
    }
    lemma_search_over(world, Seq::empty());
    assert(answers(world, acts) + Seq::<Reply>::empty() =~= answers(world, acts));
}

} // verus!
