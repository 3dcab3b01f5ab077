//! Guard of hardware accesses that fail permanently.
//!
//! Some firmware calls fail deterministically and leave several lines in the
//! kernel log each time. A capability whose access failed once is therefore
//! disabled and not accessed again; exactly one warning is due for it. There is
//! no retry. After resume from suspend all capabilities are armed again, since
//! the firmware may have changed its mind.

use crate::text::join3;
use vstd::prelude::*;

verus! {

/// Battery charge control state (flexicharger).
pub const BATTERY_CHARGE_CONTROL: &'static str = "battery charge control (_DSM cmd 0x04)";

/// The capabilities that have failed since the guard was last armed.
pub struct HwGate {
    disabled: Vec<&'static str>,
}

/// The contents of a list of capability names.
pub open spec fn names(list: Seq<&'static str>) -> Seq<Seq<char>> {
    list.map_values(|c: &'static str| c@)
}

impl View for HwGate {
    type V = Set<Seq<char>>;

    closed spec fn view(&self) -> Set<Seq<char>> {
        names(self.disabled@).to_set()
    }
}

impl HwGate {
    #[verifier::type_invariant]
    spec fn no_name_twice(self) -> bool {
        names(self.disabled@).no_duplicates()
    }

    /// A guard with every capability armed.
    pub fn new() -> (r: HwGate)
        ensures
            r@ == Set::<Seq<char>>::empty(),
    {
        let r = HwGate { disabled: Vec::new() };
        assert(names(r.disabled@).to_set() =~= Set::<Seq<char>>::empty());
        r
    }
}

/// Whether a capability may be accessed while those of `disabled` may not.
pub open spec fn is_enabled(disabled: Set<Seq<char>>, capability: Seq<char>) -> bool {
    !disabled.contains(capability)
}

/// The disabled capabilities after one more failure.
pub open spec fn after_failure(disabled: Set<Seq<char>>, capability: Seq<char>) -> Set<Seq<char>> {
    disabled.insert(capability)
}

/// The disabled capabilities after a run of failures.
pub open spec fn after_failures(disabled: Set<Seq<char>>, failures: Seq<Seq<char>>) -> Set<
    Seq<char>,
>
    decreases failures.len(),
{
    if failures.len() == 0 {
        disabled
    } else {
        after_failure(after_failures(disabled, failures.drop_last()), failures.last())
    }
}

/// How many warnings a run of failures gives for `capability`.
pub open spec fn warnings_for(
    disabled: Set<Seq<char>>,
    failures: Seq<Seq<char>>,
    capability: Seq<char>,
) -> nat
    decreases failures.len(),
{
    if failures.len() == 0 {
        0
    } else {
        let before = after_failures(disabled, failures.drop_last());
        let earlier = warnings_for(disabled, failures.drop_last(), capability);
        if failures.last() == capability && is_enabled(before, capability) {
            earlier + 1
        } else {
            earlier
        }
    }
}

/// The warning that is due at the first failure of `capability`.
pub open spec fn failure_warning(capability: Seq<char>) -> Seq<char> {
    "read failed ("@ + capability + ") - capability disabled for this daemon run"@
}

/// Is `capability` still allowed to be accessed?
pub fn enabled(gate: &HwGate, capability: &str) -> (r: bool)
    ensures
        r == is_enabled(gate@, capability@),
{
    let mut i: usize = 0;
    while i < gate.disabled.len()
        invariant
            i <= gate.disabled@.len(),
            forall|j: int| 0 <= j < i ==> (#[trigger] gate.disabled@[j])@ != capability@,
        decreases gate.disabled@.len() - i,
    {
        if crate::text::same(gate.disabled[i], capability) {
            assert(names(gate.disabled@)[i as int] == capability@);
            return false;
        }
        i = i + 1;
    }
    proof {
        if gate@.contains(capability@) {
            let j = choose|j: int|
                0 <= j < names(gate.disabled@).len() && names(gate.disabled@)[j] == capability@;
            assert(gate.disabled@[j]@ == capability@);
        }
    }
    true
}

/// Disables `capability` until the guard is armed again.
///
/// Returns `true` only for the first failure, so that the transition can be
/// logged exactly once.
pub fn disable(gate: &mut HwGate, capability: &'static str) -> (r: bool)
    ensures
        final(gate)@ == after_failure(old(gate)@, capability@),
        r == is_enabled(old(gate)@, capability@),
{
    if !enabled(gate, capability) {
        assert(gate@.insert(capability@) =~= gate@);
        return false;
    }
    proof {
        use_type_invariant(&*gate);
    }
    let ghost before = gate.disabled@;
    let mut list: Vec<&'static str> = Vec::new();
    std::mem::swap(&mut list, &mut gate.disabled);
    list.push(capability);
    proof {
        assert(names(list@) =~= names(before).push(capability@));
        assert(forall|j: int|
            0 <= j < before.len() ==> names(before).to_set().contains(#[trigger] names(before)[j]));
        names(before).lemma_push_to_set_commute(capability@);
    }
    gate.disabled = list;
    true
}

/// Records a permanent failure of `capability`: disables it, and returns the
/// warning to log if this is its first failure.
pub fn note_failure(gate: &mut HwGate, capability: &'static str) -> (r: Option<String>)
    ensures
        final(gate)@ == after_failure(old(gate)@, capability@),
        r is Some <==> is_enabled(old(gate)@, capability@),
        r matches Some(w) ==> w@ == failure_warning(capability@),
{
    if disable(gate, capability) {
        Some(join3("read failed (", capability, ") - capability disabled for this daemon run"))
    } else {
        None
    }
}

/// Arms every capability again. Returns those that were disabled, each once.
pub fn rearm_all(gate: &mut HwGate) -> (r: Vec<&'static str>)
    ensures
        final(gate)@ == Set::<Seq<char>>::empty(),
        names(r@).to_set() == old(gate)@,
        names(r@).no_duplicates(),
{
    proof {
        use_type_invariant(&*gate);
    }
    let mut list: Vec<&'static str> = Vec::new();
    assert(names(list@).to_set() =~= Set::<Seq<char>>::empty());
    std::mem::swap(&mut list, &mut gate.disabled);
    list
}

/// Arms every capability after resume from suspend. Returns the capabilities to
/// log as armed again, if any was disabled.
pub fn rearm_after_resume(gate: &mut HwGate) -> (r: Option<Vec<&'static str>>)
    ensures
        final(gate)@ == Set::<Seq<char>>::empty(),
        r is None <==> old(gate)@ == Set::<Seq<char>>::empty(),
        r matches Some(list) ==> names(list@).to_set() == old(gate)@ && names(
            list@,
        ).no_duplicates(),
{
    let rearmed = rearm_all(gate);
    proof {
        if rearmed@.len() == 0 {
            assert(names(rearmed@).to_set() =~= Set::<Seq<char>>::empty());
        } else {
            assert(names(rearmed@).to_set().contains(names(rearmed@)[0]));
        }
    }
    if rearmed.len() == 0 {
        None
    } else {
        Some(rearmed)
    }
}

/// A failure disables its capability and no other.
pub proof fn law_failures_are_independent(
    disabled: Set<Seq<char>>,
    failed: Seq<char>,
    other: Seq<char>,
)
    ensures
        !is_enabled(after_failure(disabled, failed), failed),
        other != failed ==> is_enabled(after_failure(disabled, failed), other) == is_enabled(
            disabled,
            other,
        ),
{
}

/// Whatever fails, and however often: what was disabled or has failed stays
/// disabled, and nothing else is.
pub proof fn law_disabled_until_rearmed(disabled: Set<Seq<char>>, failures: Seq<Seq<char>>)
    ensures
        after_failures(disabled, failures) == disabled.union(failures.to_set()),
    decreases failures.len(),
{
    if failures.len() == 0 {
        assert(disabled.union(failures.to_set()) =~= disabled);
    } else {
        law_disabled_until_rearmed(disabled, failures.drop_last());
        assert(failures =~= failures.drop_last().push(failures.last()));
        failures.drop_last().lemma_push_to_set_commute(failures.last());
        assert(disabled.union(failures.drop_last().to_set()).insert(failures.last())
            =~= disabled.union(failures.to_set()));
    }
}

/// However often a capability fails between two times of arming, exactly one
/// warning is due for it, and none if it was disabled before or never fails.
pub proof fn law_one_warning_per_capability(
    disabled: Set<Seq<char>>,
    failures: Seq<Seq<char>>,
    capability: Seq<char>,
)
    ensures
        warnings_for(disabled, failures, capability) == (if is_enabled(disabled, capability)
            && failures.contains(capability) {
            1nat
        } else {
            0nat
        }),
    decreases failures.len(),
{
    if failures.len() > 0 {
        let init = failures.drop_last();
        law_one_warning_per_capability(disabled, init, capability);
        law_disabled_until_rearmed(disabled, init);
        assert(failures =~= init.push(failures.last()));
        if failures.last() == capability {
            assert(failures[failures.len() - 1] == capability);
        }
        if init.contains(capability) {
            let j = choose|j: int| 0 <= j < init.len() && init[j] == capability;
            assert(failures[j] == capability);
        }
        if failures.contains(capability) && failures.last() != capability {
            let j = choose|j: int| 0 <= j < failures.len() && failures[j] == capability;
            assert(init[j] == capability);
        }
    }
}

} // verus!
