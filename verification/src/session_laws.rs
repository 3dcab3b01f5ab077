//! Sessions seen from the hardware: which accesses an operation makes, in which
//! order, and how it ends, on hardware that answers each access in its own way.

use crate::access::{plan_move, progress, Act, Entry, Move, Progress, Reply};
use crate::text::{decimal, number, trimmed};
use vstd::prelude::*;

verus! {

/// What the hardware answers to these accesses.
pub open spec fn answers(world: spec_fn(Act) -> Reply, acts: Seq<Act>) -> Seq<Reply> {
    acts.map_values(|a: Act| world(a))
}

/// On hardware that answers so, the operation makes exactly these accesses, one
/// after the other, and then has this outcome.
pub open spec fn performs<T>(
    op: spec_fn(Seq<Reply>) -> Move<T>,
    world: spec_fn(Act) -> Reply,
    acts: Seq<Act>,
    outcome: Result<T, Seq<char>>,
) -> bool {
    &&& forall|k: int|
        0 <= k < acts.len() ==> op(#[trigger] answers(world, acts.take(k))) == Move::<T>::Do(
            acts[k],
        )
    &&& op(answers(world, acts)) == Move::<T>::Done(outcome)
}

/// Two operations that always answer the same perform the same.
pub proof fn lemma_same_performance<T>(
    op: spec_fn(Seq<Reply>) -> Move<T>,
    other: spec_fn(Seq<Reply>) -> Move<T>,
    world: spec_fn(Act) -> Reply,
    acts: Seq<Act>,
    outcome: Result<T, Seq<char>>,
)
    requires
        performs(other, world, acts, outcome),
        forall|replies: Seq<Reply>| #[trigger] op(replies) == other(replies),
    ensures
        performs(op, world, acts, outcome),
{
    assert forall|k: int| 0 <= k < acts.len() implies op(#[trigger] answers(world, acts.take(k)))
        == Move::<T>::Do(acts[k]) by {
        assert(other(answers(world, acts.take(k))) == Move::<T>::Do(acts[k]));
    }
}

/// The number in a file that holds one, up to 32 bits, and otherwise 255.
pub open spec fn maximum_in(reply: Reply) -> nat {
    match reply {
        Reply::Text(text) => match number(trimmed(text@), 0xffff_ffff) {
            Ok(n) => n,
            Err(_) => 255,
        },
        _ => 255,
    }
}

/// The accesses that an entry of a plan makes: the question for its path; unless
/// that is missing the access itself; and if that fails the other one.
pub open spec fn entry_acts(entry: Entry, world: spec_fn(Act) -> Reply) -> Seq<Act> {
    match entry {
        Entry::Access { guard, absent, action, fallback, failure } => {
            let question = match guard {
                Some(path) => seq![Act::Probe(path)],
                None => Seq::empty(),
            };
            let answer = match (world(action), fallback) {
                (Reply::Failed(_), Some(other)) => seq![action, other],
                _ => seq![action],
            };
            if guard is Some && world(Act::Probe(guard->0)) != Reply::Present(true) {
                question
            } else {
                question + answer
            }
        },
        Entry::Brightness { light, percent } => {
            let ask = Act::Read(light + "/max_brightness"@);
            seq![
                ask,
                Act::Write(
                    light + "/brightness"@,
                    decimal(percent as nat * maximum_in(world(ask)) / 100),
                ),
            ]
        },
    }
}

/// The message with which an entry ends its plan, if it does: its path is missing
/// and must not be, or its access fails and must not.
pub open spec fn entry_break(entry: Entry, world: spec_fn(Act) -> Reply) -> Option<Seq<char>> {
    match entry {
        Entry::Access { guard, absent, action, fallback, failure } => if guard is Some && world(
            Act::Probe(guard->0),
        ) != Reply::Present(true) {
            absent
        } else {
            match (world(action), fallback, failure) {
                (Reply::Failed(reason), None, Some(prefix)) => Some(prefix + reason@),
                _ => None,
            }
        },
        Entry::Brightness { .. } => None,
    }
}

/// The accesses of a plan, up to the entry that ends it.
pub open spec fn plan_acts(plan: Seq<Entry>, world: spec_fn(Act) -> Reply) -> Seq<Act>
    decreases plan.len(),
{
    if plan.len() == 0 {
        Seq::empty()
    } else if entry_break(plan[0], world) is Some {
        entry_acts(plan[0], world)
    } else {
        entry_acts(plan[0], world) + plan_acts(plan.drop_first(), world)
    }
}

/// The outcome of a plan: the message of the first entry that ends it.
pub open spec fn plan_outcome(plan: Seq<Entry>, world: spec_fn(Act) -> Reply) -> Result<
    (),
    Seq<char>,
>
    decreases plan.len(),
{
    if plan.len() == 0 {
        Ok(())
    } else if entry_break(plan[0], world) is Some {
        Err(entry_break(plan[0], world)->0)
    } else {
        plan_outcome(plan.drop_first(), world)
    }
}

proof fn lemma_entry_due(entry: Entry, world: spec_fn(Act) -> Reply, k: int)
    requires
        0 <= k < entry_acts(entry, world).len(),
    ensures
        progress(entry, answers(world, entry_acts(entry, world).take(k))) == Progress::Due(
            entry_acts(entry, world)[k],
        ),
{
    let acts = entry_acts(entry, world);
    let replies = answers(world, acts.take(k));
    assert(replies.len() == k);
    assert(forall|i: int| 0 <= i < k ==> #[trigger] replies[i] == world(acts[i]));
    match entry {
        Entry::Access { guard, absent, action, fallback, failure } => {
            if guard is Some {
                assert(acts[0] == Act::Probe(guard->0));
            }
        },
        Entry::Brightness { light, percent } => {},
    }
}

proof fn lemma_entry_passed(entry: Entry, world: spec_fn(Act) -> Reply, more: Seq<Reply>)
    ensures
        ({
            let acts = entry_acts(entry, world);
            progress(entry, answers(world, acts) + more) == (match entry_break(entry, world) {
                Some(message) => Progress::Broken(message),
                None => Progress::Through(acts.len() as int),
            })
        }),
{
    let acts = entry_acts(entry, world);
    let replies = answers(world, acts) + more;
    assert(forall|i: int| 0 <= i < acts.len() ==> #[trigger] replies[i] == world(acts[i]));
    match entry {
        Entry::Access { guard, absent, action, fallback, failure } => {
            if guard is Some {
                assert(acts[0] == Act::Probe(guard->0));
                assert(replies[0] == world(acts[0]));
                if world(Act::Probe(guard->0)) == Reply::Present(true) {
                    assert(acts[1] == action);
                    assert(replies[1] == world(acts[1]));
                }
            } else {
                assert(acts[0] == action);
                assert(replies[0] == world(acts[0]));
            }
        },
        Entry::Brightness { light, percent } => {},
    }
}

/// A plan makes the accesses of its entries in order, up to the entry that ends it,
/// and ends as that entry says.
pub proof fn law_plan_performs(plan: Seq<Entry>, world: spec_fn(Act) -> Reply)
    ensures
        performs(
            |replies: Seq<Reply>| plan_move(plan, replies),
            world,
            plan_acts(plan, world),
            plan_outcome(plan, world),
        ),
    decreases plan.len(),
{
    let op = |replies: Seq<Reply>| plan_move(plan, replies);
    let acts = plan_acts(plan, world);
    if plan.len() == 0 {
        assert(op(answers(world, acts)) == plan_move(plan, answers(world, acts)));
    } else {
        let first = entry_acts(plan[0], world);
        let rest = plan.drop_first();
        let rest_acts = plan_acts(rest, world);
        law_plan_performs(rest, world);
        let rest_op = |replies: Seq<Reply>| plan_move(rest, replies);
        let broken = entry_break(plan[0], world) is Some;
        assert forall|k: int| 0 <= k < acts.len() implies op(
            #[trigger] answers(world, acts.take(k)),
        ) == Move::<()>::Do(acts[k]) by {
            if k < first.len() {
                lemma_entry_due(plan[0], world, k);
                assert(acts.take(k) =~= first.take(k));
            } else {
                let m = k - first.len();
                let later = answers(world, rest_acts.take(m));
                assert(answers(world, acts.take(k)) =~= answers(world, first) + later);
                lemma_entry_passed(plan[0], world, later);
                assert((answers(world, first) + later).skip(first.len() as int) =~= later);
                assert(rest_op(answers(world, rest_acts.take(m))) == Move::<()>::Do(rest_acts[m]));
            }
        }
        if broken {
            lemma_entry_passed(plan[0], world, Seq::empty());
            assert(answers(world, first) + Seq::<Reply>::empty() =~= answers(world, acts));
        } else {
            let later = answers(world, rest_acts);
            assert(answers(world, acts) =~= answers(world, first) + later);
            lemma_entry_passed(plan[0], world, later);
            assert((answers(world, first) + later).skip(first.len() as int) =~= later);
            assert(rest_op(later) == Move::<()>::Done(plan_outcome(rest, world)));
        }
    }
}

/// No entry of the plan ends it.
pub open spec fn unbroken(plan: Seq<Entry>, world: spec_fn(Act) -> Reply) -> bool {
    forall|i: int| 0 <= i < plan.len() ==> entry_break(#[trigger] plan[i], world) is None
}

pub proof fn lemma_unbroken_sum(a: Seq<Entry>, b: Seq<Entry>, world: spec_fn(Act) -> Reply)
    requires
        unbroken(a, world),
    ensures
        plan_acts(a + b, world) == plan_acts(a, world) + plan_acts(b, world),
        plan_outcome(a + b, world) == plan_outcome(b, world),
        unbroken(b, world) ==> unbroken(a + b, world),
    decreases a.len(),
{
    if a.len() == 0 {
        assert(a + b =~= b);
        assert(plan_acts(a, world) + plan_acts(b, world) =~= plan_acts(b, world));
    } else {
        let rest = a.drop_first();
        assert forall|i: int| 0 <= i < rest.len() implies entry_break(
            #[trigger] rest[i],
            world,
        ) is None by {
            assert(rest[i] == a[i + 1]);
        }
        lemma_unbroken_sum(rest, b, world);
        assert((a + b).drop_first() =~= rest + b);
        assert((a + b)[0] == a[0]);
        assert(entry_break(a[0], world) is None);
        assert(plan_acts(a + b, world) =~= plan_acts(a, world) + plan_acts(b, world));
        if unbroken(b, world) {
            assert forall|i: int| 0 <= i < (a + b).len() implies entry_break(
                #[trigger] (a + b)[i],
                world,
            ) is None by {
                if i < a.len() {
                    assert((a + b)[i] == a[i]);
                } else {
                    assert((a + b)[i] == b[i - a.len()]);
                }
            }
        }
    }
}

pub proof fn lemma_one_entry(entry: Entry, world: spec_fn(Act) -> Reply)
    ensures
        plan_acts(seq![entry], world) == entry_acts(entry, world),
        plan_outcome(seq![entry], world) == (match entry_break(entry, world) {
            Some(message) => Err::<(), Seq<char>>(message),
            None => Ok::<(), Seq<char>>(()),
        }),
{
    let plan = seq![entry];
    assert(plan.drop_first() =~= Seq::<Entry>::empty());
    assert(plan_acts(plan.drop_first(), world) =~= Seq::<Act>::empty());
    assert(plan_outcome(plan.drop_first(), world) == Ok::<(), Seq<char>>(()));
    assert(entry_acts(entry, world) + Seq::<Act>::empty() =~= entry_acts(entry, world));
}

/// The accesses for each number below `n`, in order.
pub open spec fn for_each(n: nat, acts: spec_fn(int) -> Seq<Act>) -> Seq<Act>
    decreases n,
{
    if n == 0 {
        Seq::empty()
    } else {
        for_each((n - 1) as nat, acts) + acts(n - 1)
    }
}

/// A plan whose entries make these accesses makes them one after the other.
pub proof fn lemma_for_each(
    plan: Seq<Entry>,
    world: spec_fn(Act) -> Reply,
    acts: spec_fn(int) -> Seq<Act>,
)
    requires
        unbroken(plan, world),
        forall|i: int| 0 <= i < plan.len() ==> entry_acts(#[trigger] plan[i], world) == acts(i),
    ensures
        plan_acts(plan, world) == for_each(plan.len(), acts),
        plan_outcome(plan, world) == Ok::<(), Seq<char>>(()),
    decreases plan.len(),
{
    if plan.len() > 0 {
        let init = plan.drop_last();
        let last = plan.last();
        assert(plan =~= init + seq![last]);
        assert forall|i: int| 0 <= i < init.len() implies entry_break(
            #[trigger] init[i],
            world,
        ) is None && entry_acts(init[i], world) == acts(i) by {
            assert(init[i] == plan[i]);
        }
        lemma_for_each(init, world, acts);
        lemma_unbroken_sum(init, seq![last], world);
        lemma_one_entry(last, world);
        assert(last == plan[plan.len() - 1]);
        assert(entry_break(plan[plan.len() - 1], world) is None);
        assert(entry_acts(plan[plan.len() - 1], world) == acts(plan.len() - 1));
    }
}

} // verus!
