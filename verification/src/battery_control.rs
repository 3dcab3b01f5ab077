//! Charge thresholds of the battery.
//!
//! Every attribute of charge control is backed by the same firmware call, so
//! that one permanent failure disables the whole capability (see `hw_gate`)
//! instead of being retried at every poll.

use crate::access::{Act, Action, Move, Reply, Step};
use crate::hw_gate::{
    after_failure, enabled, failure_warning, is_enabled, note_failure, HwGate,
    BATTERY_CHARGE_CONTROL,
};
use crate::text::{
    all_white, decimal, decimal_of, join, join3, law_number_is_read_back, number, parse_number, same,
    split_words, trim, trimmed, views, words,
};
use vstd::prelude::*;

verus! {

/// A battery with charge control.
#[derive(Debug)]
pub struct BatteryControl {
    battery_path: String,
}

impl View for BatteryControl {
    type V = Seq<char>;

    /// The directory of the battery.
    closed spec fn view(&self) -> Seq<char> {
        self.battery_path@
    }
}

impl DeepView for BatteryControl {
    type V = Seq<char>;

    open spec fn deep_view(&self) -> Seq<char> {
        self@
    }
}

/// The next access of a gated operation, or its outcome together with the
/// warning that is due.
#[derive(Debug)]
pub enum GatedStep<T> {
    Do(Action),
    Done(Result<T, String>, Option<String>),
}

/// What a `GatedStep` says.
pub enum GatedMove<T> {
    Do(Act),
    Done(Result<T, Seq<char>>, Option<Seq<char>>),
}

impl<T: DeepView> View for GatedStep<T> {
    type V = GatedMove<T::V>;

    open spec fn view(&self) -> GatedMove<T::V> {
        match self {
            GatedStep::Do(action) => GatedMove::Do(action@),
            GatedStep::Done(Ok(value), warning) => GatedMove::Done(
                Ok(value.deep_view()),
                crate::access::opt_text(*warning),
            ),
            GatedStep::Done(Err(message), warning) => GatedMove::Done(
                Err(message@),
                crate::access::opt_text(*warning),
            ),
        }
    }
}

/// Whether charge control may be accessed.
pub open spec fn charge_control_enabled(disabled: Set<Seq<char>>) -> bool {
    is_enabled(disabled, BATTERY_CHARGE_CONTROL@)
}

/// The message of an operation that the guard stops.
pub open spec fn gate_message() -> Seq<char> {
    "battery charge control unavailable: "@ + BATTERY_CHARGE_CONTROL@
        + " failed permanently (firmware defect); capability disabled until the daemon restarts"@
}

/// The capabilities that are disabled after the replies to a gated access.
pub open spec fn gate_after(disabled: Set<Seq<char>>, replies: Seq<Reply>) -> Set<Seq<char>> {
    if replies.len() > 0 && replies[0].as_text() is Err {
        after_failure(disabled, BATTERY_CHARGE_CONTROL@)
    } else {
        disabled
    }
}

/// The capabilities that are disabled after the replies to a gated write.
pub open spec fn gate_after_write(disabled: Set<Seq<char>>, replies: Seq<Reply>) -> Set<Seq<char>> {
    if replies.len() > 0 && replies[0].fault() is Some {
        after_failure(disabled, BATTERY_CHARGE_CONTROL@)
    } else {
        disabled
    }
}

/// The warning that a failure gives in this state of the guard.
pub open spec fn warning_due(disabled: Set<Seq<char>>) -> Option<Seq<char>> {
    if charge_control_enabled(disabled) {
        Some(failure_warning(BATTERY_CHARGE_CONTROL@))
    } else {
        None
    }
}

/// Reading a file behind the guard: the file is read only while the capability
/// is enabled; a failure disables it.
pub open spec fn gated_read(
    path: Seq<char>,
    disabled: Set<Seq<char>>,
    replies: Seq<Reply>,
) -> GatedMove<Seq<char>> {
    if replies.len() == 0 {
        if charge_control_enabled(disabled) {
            GatedMove::Do(Act::Read(path))
        } else {
            GatedMove::Done(Err(gate_message()), None)
        }
    } else {
        match replies[0].as_text() {
            Ok(text) => GatedMove::Done(Ok(text), None),
            Err(message) => GatedMove::Done(Err(message), warning_due(disabled)),
        }
    }
}

/// Writing a file behind the guard.
pub open spec fn gated_write(
    path: Seq<char>,
    value: Seq<char>,
    disabled: Set<Seq<char>>,
    replies: Seq<Reply>,
) -> GatedMove<()> {
    if replies.len() == 0 {
        if charge_control_enabled(disabled) {
            GatedMove::Do(Act::Write(path, value))
        } else {
            GatedMove::Done(Err(gate_message()), None)
        }
    } else {
        match replies[0].fault() {
            None => GatedMove::Done(Ok(()), None),
            Some(message) => GatedMove::Done(Err(message), warning_due(disabled)),
        }
    }
}

/// The percentage in a text, or why there is none.
pub open spec fn percentage(text: Seq<char>) -> Result<u8, Seq<char>> {
    match number(trimmed(text), 255) {
        Ok(n) => Ok(n as u8),
        Err(fault) => Err(fault.spec_message()),
    }
}

/// Reading a percentage behind the guard.
pub open spec fn gated_percentage(
    path: Seq<char>,
    disabled: Set<Seq<char>>,
    replies: Seq<Reply>,
) -> GatedMove<u8> {
    match gated_read(path, disabled, replies) {
        GatedMove::Do(action) => GatedMove::Do(action),
        GatedMove::Done(Ok(text), warning) => GatedMove::Done(percentage(text), warning),
        GatedMove::Done(Err(message), warning) => GatedMove::Done(Err(message), warning),
    }
}

/// Setting a threshold: percentages above one hundred are refused before
/// anything else.
pub open spec fn gated_threshold(
    path: Seq<char>,
    threshold: u8,
    disabled: Set<Seq<char>>,
    replies: Seq<Reply>,
) -> GatedMove<()> {
    if threshold > 100 {
        GatedMove::Done(Err("Threshold must be between 0 and 100"@), None)
    } else {
        gated_write(path, decimal(threshold as nat), disabled, replies)
    }
}

/// The percentages among the words; other words are passed over.
pub open spec fn percentages(list: Seq<Seq<char>>) -> Seq<u8>
    decreases list.len(),
{
    if list.len() == 0 {
        Seq::empty()
    } else {
        let init = percentages(list.drop_last());
        match number(list.last(), 255) {
            Ok(n) => init.push(n as u8),
            Err(_) => init,
        }
    }
}

/// Listing the available thresholds: the defaults where the file is missing,
/// which is found out without touching the firmware.
pub open spec fn gated_list(
    path: Seq<char>,
    defaults: Seq<u8>,
    disabled: Set<Seq<char>>,
    replies: Seq<Reply>,
) -> GatedMove<Seq<u8>> {
    if replies.len() == 0 {
        GatedMove::Do(Act::Probe(path))
    } else if !replies[0].says_present() {
        GatedMove::Done(Ok(defaults), None)
    } else {
        match gated_read(path, disabled, replies.skip(1)) {
            GatedMove::Do(action) => GatedMove::Do(action),
            GatedMove::Done(Ok(text), warning) => GatedMove::Done(
                Ok(percentages(words(text))),
                warning,
            ),
            GatedMove::Done(Err(message), warning) => GatedMove::Done(Err(message), warning),
        }
    }
}

/// The capabilities that are disabled after the replies to such a listing.
pub open spec fn gate_after_list(disabled: Set<Seq<char>>, replies: Seq<Reply>) -> Set<Seq<char>> {
    if replies.len() > 0 && replies[0].says_present() {
        gate_after(disabled, replies.skip(1))
    } else {
        disabled
    }
}

/// The default start thresholds.
pub open spec fn default_start_thresholds() -> Seq<u8> {
    seq![40u8, 50, 60, 70, 80, 95]
}

/// The default end thresholds.
pub open spec fn default_end_thresholds() -> Seq<u8> {
    seq![60u8, 70, 80, 90, 100]
}

pub open spec fn bat0() -> Seq<char> {
    "/sys/class/power_supply/BAT0"@
}

pub open spec fn bat1() -> Seq<char> {
    "/sys/class/power_supply/BAT1"@
}

/// Looking at one battery: its directory and the file of its charge type have
/// to exist. `Some` with the number of replies used if the battery is out.
pub open spec fn ruled_out(replies: Seq<Reply>) -> Option<int> {
    if replies.len() > 0 && !replies[0].says_present() {
        Some(1)
    } else if replies.len() > 1 && !replies[1].says_present() {
        Some(2)
    } else {
        None
    }
}

/// The next probe of a battery that is not ruled out, or its directory.
pub open spec fn look_at(dir: Seq<char>, replies: Seq<Reply>) -> Move<Seq<char>> {
    if replies.len() == 0 {
        Move::Do(Act::Probe(dir))
    } else if replies.len() == 1 {
        Move::Do(Act::Probe(dir + "/charge_type"@))
    } else {
        Move::Done(Ok(dir))
    }
}

/// The search for the first battery with charge control.
pub open spec fn find_battery(replies: Seq<Reply>) -> Move<Seq<char>> {
    match ruled_out(replies) {
        None => look_at(bat0(), replies),
        Some(n) => match ruled_out(replies.skip(n)) {
            None => look_at(bat1(), replies.skip(n)),
            Some(_) => Move::Done(Err("No battery with charge control found"@)),
        },
    }
}

/// Whether the search has found a battery.
pub open spec fn battery_found(replies: Seq<Reply>) -> Move<bool> {
    match find_battery(replies) {
        Move::Do(action) => Move::Do(action),
        Move::Done(result) => Move::Done(Ok(result is Ok)),
    }
}

/// Looks whether the battery is ruled out, and after which reply.
pub fn rules_out(replies: &[Reply], from: usize) -> (r: Option<usize>)
    requires
        from <= replies@.len(),
    ensures
        match r {
            Some(to) => from <= to <= replies@.len() && ruled_out(replies@.skip(from as int))
                == Some(to - from),
            None => ruled_out(replies@.skip(from as int)) is None,
        },
{
    let ghost rest = replies@.skip(from as int);
    assert(forall|k: int| 0 <= k < rest.len() ==> rest[k] == replies@[from + k]);
    if replies.len() > from && !replies[from].present() {
        Some(from + 1)
    } else if replies.len() - from > 1 && !replies[from + 1].present() {
        Some(from + 2)
    } else {
        None
    }
}

fn look(dir: &str, replies: &[Reply], from: usize) -> (r: Step<String>)
    requires
        from <= replies@.len(),
    ensures
        r@ == look_at(dir@, replies@.skip(from as int)),
{
    if replies.len() == from {
        Step::Do(Action::Probe(dir.to_string()))
    } else if replies.len() - from == 1 {
        Step::Do(Action::Probe(join(dir, "/charge_type")))
    } else {
        Step::Done(Ok(dir.to_string()))
    }
}

fn gate_text() -> (r: String)
    ensures
        r@ == gate_message(),
{
    join3(
        "battery charge control unavailable: ",
        BATTERY_CHARGE_CONTROL,
        " failed permanently (firmware defect); capability disabled until the daemon restarts",
    )
}

/// Passes while charge control may be accessed.
pub fn check_gate(gate: &HwGate) -> (r: Result<(), String>)
    ensures
        r is Ok <==> charge_control_enabled(gate@),
        r matches Err(message) ==> message@ == gate_message(),
{
    if enabled(gate, BATTERY_CHARGE_CONTROL) {
        Ok(())
    } else {
        Err(gate_text())
    }
}

fn read_gated(path: String, gate: &mut HwGate, replies: &[Reply], from: usize) -> (r: GatedStep<
    String,
>)
    requires
        from <= replies@.len(),
    ensures
        r@ == gated_read(path@, old(gate)@, replies@.skip(from as int)),
        final(gate)@ == gate_after(old(gate)@, replies@.skip(from as int)),
{
    if replies.len() == from {
        return match check_gate(gate) {
            Ok(()) => GatedStep::Do(Action::Read(path)),
            Err(message) => GatedStep::Done(Err(message), None),
        };
    }
    assert(replies@.skip(from as int)[0] == replies@[from as int]);
    match replies[from].text() {
        Ok(text) => GatedStep::Done(Ok(text), None),
        Err(message) => {
            let warning = note_failure(gate, BATTERY_CHARGE_CONTROL);
            GatedStep::Done(Err(message), warning)
        },
    }
}

fn write_gated(path: String, value: String, gate: &mut HwGate, replies: &[Reply]) -> (r: GatedStep<
    (),
>)
    ensures
        r@ == gated_write(path@, value@, old(gate)@, replies@),
        final(gate)@ == gate_after_write(old(gate)@, replies@),
{
    if replies.len() == 0 {
        return match check_gate(gate) {
            Ok(()) => GatedStep::Do(Action::Write(path, value)),
            Err(message) => GatedStep::Done(Err(message), None),
        };
    }
    match replies[0].failure() {
        None => GatedStep::Done(Ok(()), None),
        Some(message) => {
            let warning = note_failure(gate, BATTERY_CHARGE_CONTROL);
            GatedStep::Done(Err(message), warning)
        },
    }
}

fn read_percentage(path: String, gate: &mut HwGate, replies: &[Reply]) -> (r: GatedStep<u8>)
    ensures
        r@ == gated_percentage(path@, old(gate)@, replies@),
        final(gate)@ == gate_after(old(gate)@, replies@),
{
    assert(replies@.skip(0) =~= replies@);
    match read_gated(path, gate, replies, 0) {
        GatedStep::Do(action) => GatedStep::Do(action),
        GatedStep::Done(Ok(text), warning) => match parse_number(trim(text.as_str()).as_str(), 255) {
            Ok(n) => GatedStep::Done(Ok(n as u8), warning),
            Err(fault) => GatedStep::Done(Err(fault.message()), warning),
        },
        GatedStep::Done(Err(message), warning) => GatedStep::Done(Err(message), warning),
    }
}

fn write_threshold(path: String, threshold: u8, gate: &mut HwGate, replies: &[Reply]) -> (r:
    GatedStep<()>)
    ensures
        r@ == gated_threshold(path@, threshold, old(gate)@, replies@),
        final(gate)@ == (if threshold > 100 {
            old(gate)@
        } else {
            gate_after_write(old(gate)@, replies@)
        }),
{
    if threshold > 100 {
        return GatedStep::Done(Err("Threshold must be between 0 and 100".to_string()), None);
    }
    write_gated(path, decimal_of(threshold as u64), gate, replies)
}

fn read_percentages(list: &Vec<String>) -> (r: Vec<u8>)
    ensures
        r@ == percentages(views(list@)),
{
    let mut out: Vec<u8> = Vec::new();
    let mut i: usize = 0;
    while i < list.len()
        invariant
            i <= list@.len(),
            out@ == percentages(views(list@).take(i as int)),
        decreases list@.len() - i,
    {
        assert(views(list@).take(i + 1).drop_last() =~= views(list@).take(i as int));
        assert(views(list@).take(i + 1).last() == list@[i as int]@);
        match parse_number(list[i].as_str(), 255) {
            Ok(n) => out.push(n as u8),
            Err(_) => {},
        }
        i = i + 1;
    }
    assert(views(list@).take(list@.len() as int) =~= views(list@));
    out
}

fn read_list(path: String, defaults: Vec<u8>, gate: &mut HwGate, replies: &[Reply]) -> (r:
    GatedStep<Vec<u8>>)
    ensures
        r@ == gated_list(path@, defaults@, old(gate)@, replies@),
        final(gate)@ == gate_after_list(old(gate)@, replies@),
{
    if replies.len() == 0 {
        return GatedStep::Do(Action::Probe(path));
    }
    if !replies[0].present() {
        assert(defaults.deep_view() =~= defaults@);
        return GatedStep::Done(Ok(defaults), None);
    }
    match read_gated(path, gate, replies, 1) {
        GatedStep::Do(action) => GatedStep::Do(action),
        GatedStep::Done(Ok(text), warning) => {
            let list = split_words(text.as_str());
            assert(views(list@) =~= words(text@));
            let values = read_percentages(&list);
            assert(values.deep_view() =~= values@);
            GatedStep::Done(Ok(values), warning)
        },
        GatedStep::Done(Err(message), warning) => GatedStep::Done(Err(message), warning),
    }
}

impl BatteryControl {
    fn find_battery_path(replies: &[Reply]) -> (r: Step<String>)
        ensures
            r@ == find_battery(replies@),
    {
        assert(replies@.skip(0) =~= replies@);
        match rules_out(replies, 0) {
            None => look("/sys/class/power_supply/BAT0", replies, 0),
            Some(next) => match rules_out(replies, next) {
                None => look("/sys/class/power_supply/BAT1", replies, next),
                Some(_) => Step::Done(Err("No battery with charge control found".to_string())),
            },
        }
    }

    /// Opens the first battery with charge control.
    pub fn new(replies: &[Reply]) -> (r: Step<BatteryControl>)
        ensures
            r@ == find_battery(replies@),
    {
        match Self::find_battery_path(replies) {
            Step::Do(action) => Step::Do(action),
            Step::Done(Ok(battery_path)) => Step::Done(Ok(BatteryControl { battery_path })),
            Step::Done(Err(message)) => Step::Done(Err(message)),
        }
    }

    /// Whether there is a battery with charge control.
    pub fn is_available(replies: &[Reply]) -> (r: Step<bool>)
        ensures
            r@ == battery_found(replies@),
    {
        match Self::find_battery_path(replies) {
            Step::Do(action) => Step::Do(action),
            Step::Done(result) => Step::Done(Ok(result.is_ok())),
        }
    }

    /// Get charge control mode: "Standard" or "Custom"
    pub fn get_charge_type(&self, gate: &mut HwGate, replies: &[Reply]) -> (r: GatedStep<String>)
        ensures
            r@ == (match gated_read(self@ + "/charge_type"@, old(gate)@, replies@) {
                GatedMove::Do(action) => GatedMove::Do(action),
                GatedMove::Done(Ok(text), warning) => GatedMove::Done(Ok(trimmed(text)), warning),
                GatedMove::Done(Err(message), warning) => GatedMove::Done(Err(message), warning),
            }),
            final(gate)@ == gate_after(old(gate)@, replies@),
    {
        assert(replies@.skip(0) =~= replies@);
        match read_gated(join(self.battery_path.as_str(), "/charge_type"), gate, replies, 0) {
            GatedStep::Do(action) => GatedStep::Do(action),
            GatedStep::Done(Ok(text), warning) => GatedStep::Done(
                Ok(trim(text.as_str())),
                warning,
            ),
            GatedStep::Done(Err(message), warning) => GatedStep::Done(Err(message), warning),
        }
    }

    /// Set charge control mode: "Standard" or "Custom"
    pub fn set_charge_type(
        &self,
        charge_type: &str,
        gate: &mut HwGate,
        replies: &[Reply],
    ) -> (r: GatedStep<()>)
        ensures
            charge_type@ != "Standard"@ && charge_type@ != "Custom"@ ==> r@ == GatedMove::<
                (),
            >::Done(Err("Invalid charge type. Must be 'Standard' or 'Custom'"@), None)
                && final(gate)@ == old(gate)@,
            charge_type@ == "Standard"@ || charge_type@ == "Custom"@ ==> r@ == gated_write(
                self@ + "/charge_type"@,
                charge_type@,
                old(gate)@,
                replies@,
            ) && final(gate)@ == gate_after_write(old(gate)@, replies@),
    {
        if !same(charge_type, "Standard") && !same(charge_type, "Custom") {
            return GatedStep::Done(
                Err("Invalid charge type. Must be 'Standard' or 'Custom'".to_string()),
                None,
            );
        }
        write_gated(
            join(self.battery_path.as_str(), "/charge_type"),
            charge_type.to_string(),
            gate,
            replies,
        )
    }

    /// Get charge start threshold (percentage)
    pub fn get_charge_control_start_threshold(&self, gate: &mut HwGate, replies: &[Reply]) -> (r:
        GatedStep<u8>)
        ensures
            r@ == gated_percentage(
                self@ + "/charge_control_start_threshold"@,
                old(gate)@,
                replies@,
            ),
            final(gate)@ == gate_after(old(gate)@, replies@),
    {
        read_percentage(
            join(self.battery_path.as_str(), "/charge_control_start_threshold"),
            gate,
            replies,
        )
    }

    /// Set charge start threshold (percentage)
    pub fn set_charge_control_start_threshold(
        &self,
        threshold: u8,
        gate: &mut HwGate,
        replies: &[Reply],
    ) -> (r: GatedStep<()>)
        ensures
            r@ == gated_threshold(
                self@ + "/charge_control_start_threshold"@,
                threshold,
                old(gate)@,
                replies@,
            ),
            final(gate)@ == (if threshold > 100 {
                old(gate)@
            } else {
                gate_after_write(old(gate)@, replies@)
            }),
    {
        write_threshold(
            join(self.battery_path.as_str(), "/charge_control_start_threshold"),
            threshold,
            gate,
            replies,
        )
    }

    /// Get charge end threshold (percentage)
    pub fn get_charge_control_end_threshold(&self, gate: &mut HwGate, replies: &[Reply]) -> (r:
        GatedStep<u8>)
        ensures
            r@ == gated_percentage(
                self@ + "/charge_control_end_threshold"@,
                old(gate)@,
                replies@,
            ),
            final(gate)@ == gate_after(old(gate)@, replies@),
    {
        read_percentage(
            join(self.battery_path.as_str(), "/charge_control_end_threshold"),
            gate,
            replies,
        )
    }

    /// Set charge end threshold (percentage)
    pub fn set_charge_control_end_threshold(
        &self,
        threshold: u8,
        gate: &mut HwGate,
        replies: &[Reply],
    ) -> (r: GatedStep<()>)
        ensures
            r@ == gated_threshold(
                self@ + "/charge_control_end_threshold"@,
                threshold,
                old(gate)@,
                replies@,
            ),
            final(gate)@ == (if threshold > 100 {
                old(gate)@
            } else {
                gate_after_write(old(gate)@, replies@)
            }),
    {
        write_threshold(
            join(self.battery_path.as_str(), "/charge_control_end_threshold"),
            threshold,
            gate,
            replies,
        )
    }

    /// Get available start thresholds
    pub fn get_available_start_thresholds(&self, gate: &mut HwGate, replies: &[Reply]) -> (r:
        GatedStep<Vec<u8>>)
        ensures
            r@ == gated_list(
                self@ + "/charge_control_start_available_thresholds"@,
                default_start_thresholds(),
                old(gate)@,
                replies@,
            ),
            final(gate)@ == gate_after_list(old(gate)@, replies@),
    {
        let defaults: Vec<u8> = vec![40u8, 50, 60, 70, 80, 95];
        assert(defaults@ =~= default_start_thresholds());
        read_list(
            join(self.battery_path.as_str(), "/charge_control_start_available_thresholds"),
            defaults,
            gate,
            replies,
        )
    }

    /// Get available end thresholds
    pub fn get_available_end_thresholds(&self, gate: &mut HwGate, replies: &[Reply]) -> (r:
        GatedStep<Vec<u8>>)
        ensures
            r@ == gated_list(
                self@ + "/charge_control_end_available_thresholds"@,
                default_end_thresholds(),
                old(gate)@,
                replies@,
            ),
            final(gate)@ == gate_after_list(old(gate)@, replies@),
    {
        let defaults: Vec<u8> = vec![60u8, 70, 80, 90, 100];
        assert(defaults@ =~= default_end_thresholds());
        read_list(
            join(self.battery_path.as_str(), "/charge_control_end_available_thresholds"),
            defaults,
            gate,
            replies,
        )
    }
}

/// Once an access to charge control has failed, no operation reads or writes
/// one of its files until the guard is armed again; the only access left is to
/// find out whether the file of a listing exists.
pub proof fn law_failed_control_is_left_alone(
    path: Seq<char>,
    value: Seq<char>,
    threshold: u8,
    defaults: Seq<u8>,
    disabled: Set<Seq<char>>,
    present: Reply,
)
    requires
        present.says_present(),
    ensures
        ({
            let after = after_failure(disabled, BATTERY_CHARGE_CONTROL@);
            let start = Seq::<Reply>::empty();
            &&& gated_read(path, after, start) == GatedMove::<Seq<char>>::Done(
                Err(gate_message()),
                None,
            )
            &&& gated_write(path, value, after, start) == GatedMove::<()>::Done(
                Err(gate_message()),
                None,
            )
            &&& gated_percentage(path, after, start) == GatedMove::<u8>::Done(
                Err(gate_message()),
                None,
            )
            &&& gated_threshold(path, threshold, after, start) is Done
            &&& gated_list(path, defaults, after, seq![present]) == GatedMove::<Seq<u8>>::Done(
                Err(gate_message()),
                None,
            )
        }),
{
    assert(seq![present].skip(1) =~= Seq::<Reply>::empty());
}

/// A threshold that was written is what is read afterwards: the file holds the
/// text that setting it writes, with any white space around it.
pub proof fn law_threshold_is_read_back(
    path: Seq<char>,
    threshold: u8,
    disabled: Set<Seq<char>>,
    before: Seq<char>,
    after: Seq<char>,
    line: Reply,
)
    requires
        threshold <= 100,
        charge_control_enabled(disabled),
        all_white(before),
        all_white(after),
        line.as_text() == Ok::<Seq<char>, Seq<char>>(before + decimal(threshold as nat) + after),
    ensures
        gated_threshold(path, threshold, disabled, Seq::empty()) == GatedMove::<()>::Do(
            Act::Write(path, decimal(threshold as nat)),
        ),
        gated_percentage(path, disabled, Seq::empty()) == GatedMove::<u8>::Do(Act::Read(path)),
        gated_percentage(path, disabled, seq![line]) == GatedMove::<u8>::Done(Ok(threshold), None),
{
    law_number_is_read_back(threshold as nat, 255, before, after);
}

} // verus!
