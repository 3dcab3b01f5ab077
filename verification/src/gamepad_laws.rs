//! What holds of the gamepad database whatever snapshots it is reconciled with.

use crate::gamepad_registry::{
    admission_changes, admit_pad, admitted, adopted, first_with_uid, is_volatile, knows, may_adopt,
    reconcile_changes, reconciled, refresh, refresh_changes, refreshed, slot, GamepadStatus, Pad,
};
use vstd::prelude::*;

verus! {

/// No uid occurs twice.
pub open spec fn distinct_uids(list: Seq<Pad>) -> bool {
    forall|i: int, j: int|
        0 <= i < j < list.len() ==> (#[trigger] list[i]).uid != (#[trigger] list[j]).uid
}

/// How many rows have a stable uid.
pub open spec fn stable_rows(db: Seq<Pad>) -> nat
    decreases db.len(),
{
    if db.len() == 0 {
        0
    } else {
        stable_rows(db.drop_last()) + if is_volatile(db.last().uid) {
            0nat
        } else {
            1nat
        }
    }
}

/// Whether `later` may have taken over the row of `earlier`.
pub open spec fn may_take_over(earlier: Pad, later: Pad) -> bool {
    !is_volatile(later.uid) && later.name == earlier.name && later.connection_type
        == earlier.connection_type
}

/// A row is up to date with a snapshot: it shows the state of the connected pad
/// with its uid, or it is a stable row shown as disconnected.
pub open spec fn up_to_date(row: Pad, connected: Seq<Pad>) -> bool {
    refresh(row, connected) == Some(row)
}

proof fn lemma_first_with_uid(list: Seq<Pad>, uid: Seq<char>)
    ensures
        first_with_uid(list, uid) is Some <==> knows(list, uid),
        first_with_uid(list, uid) matches Some(p) ==> p.uid == uid && list.contains(p),
    decreases list.len(),
{
    if list.len() > 0 {
        let rest = list.drop_first();
        lemma_first_with_uid(rest, uid);
        if list[0].uid == uid {
        } else {
            if knows(rest, uid) {
                let i = choose|i: int| 0 <= i < rest.len() && (#[trigger] rest[i]).uid == uid;
                assert(list[i + 1].uid == uid);
            }
            if knows(list, uid) {
                let i = choose|i: int| 0 <= i < list.len() && (#[trigger] list[i]).uid == uid;
                assert(rest[i - 1].uid == uid);
            }
            if first_with_uid(rest, uid) is Some {
                let p = first_with_uid(rest, uid)->0;
                let i = choose|i: int| 0 <= i < rest.len() && rest[i] == p;
                assert(list[i + 1] == p);
            }
        }
    }
}

/// A pad before which none has its uid is the first with it.
proof fn lemma_first_is_the_one(list: Seq<Pad>, j: int)
    requires
        0 <= j < list.len(),
        !knows(list.take(j), list[j].uid),
    ensures
        first_with_uid(list, list[j].uid) == Some(list[j]),
    decreases list.len(),
{
    if j > 0 {
        assert(list.take(j)[0] == list[0]);
        let rest = list.drop_first();
        assert(!knows(rest.take(j - 1), list[j].uid)) by {
            if knows(rest.take(j - 1), list[j].uid) {
                let i = choose|i: int|
                    0 <= i < rest.take(j - 1).len() && (#[trigger] rest.take(j - 1)[i]).uid
                        == list[j].uid;
                assert(list.take(j)[i + 1].uid == list[j].uid);
            }
        }
        lemma_first_is_the_one(rest, j - 1);
    }
}

proof fn lemma_slot(db: Seq<Pad>, conn: Pad, snapshot: Seq<Pad>, from: int)
    requires
        0 <= from,
    ensures
        0 <= slot(db, conn, snapshot, from) <= db.len(),
        slot(db, conn, snapshot, from) < db.len() ==> may_adopt(
            db[slot(db, conn, snapshot, from)],
            conn,
            snapshot,
        ),
    decreases db.len() - from,
{
    if from < db.len() && !may_adopt(db[from], conn, snapshot) {
        lemma_slot(db, conn, snapshot, from + 1);
    }
}

/// Each row that is left comes from a row of the database with the same uid.
proof fn lemma_refreshed_rows(db: Seq<Pad>, connected: Seq<Pad>)
    ensures
        forall|p: int|
            0 <= p < refreshed(db, connected).len() ==> exists|i: int|
                0 <= i < db.len() && refresh(#[trigger] db[i], connected) == Some(
                    #[trigger] refreshed(db, connected)[p],
                ),
        forall|i: int|
            0 <= i < db.len() && refresh(#[trigger] db[i], connected) is Some ==> refreshed(
                db,
                connected,
            ).contains(refresh(db[i], connected)->0),
        refreshed(db, connected).len() <= db.len(),
    decreases db.len(),
{
    if db.len() > 0 {
        let init = db.drop_last();
        lemma_refreshed_rows(init, connected);
        let out = refreshed(db, connected);
        let out_init = refreshed(init, connected);
        assert forall|p: int| 0 <= p < out.len() implies exists|i: int|
            0 <= i < db.len() && refresh(#[trigger] db[i], connected) == Some(#[trigger] out[p]) by {
            if p < out_init.len() {
                assert(out[p] == out_init[p]);
                let i = choose|i: int|
                    0 <= i < init.len() && refresh(#[trigger] init[i], connected) == Some(
                        out_init[p],
                    );
                assert(db[i] == init[i]);
            } else {
                assert(refresh(db[db.len() - 1], connected) == Some(out[p]));
            }
        }
        assert forall|i: int|
            0 <= i < db.len() && refresh(#[trigger] db[i], connected) is Some implies out.contains(
            refresh(db[i], connected)->0,
        ) by {
            if i < init.len() {
                assert(init[i] == db[i]);
                let q = choose|q: int|
                    0 <= q < out_init.len() && out_init[q] == refresh(init[i], connected)->0;
                assert(out[q] == out_init[q]);
            } else {
                assert(out[out.len() - 1] == refresh(db[i], connected)->0);
            }
        }
    }
}

proof fn lemma_refreshed_unchanged(db: Seq<Pad>, connected: Seq<Pad>)
    requires
        !refresh_changes(db, connected),
    ensures
        refreshed(db, connected) == db,
    decreases db.len(),
{
    if db.len() > 0 {
        let init = db.drop_last();
        assert forall|i: int| 0 <= i < init.len() implies refresh(#[trigger] init[i], connected)
            == Some(init[i]) by {
            assert(init[i] == db[i]);
        }
        lemma_refreshed_unchanged(init, connected);
        assert(refresh(db[db.len() - 1], connected) == Some(db[db.len() - 1]));
        assert(refreshed(db, connected) =~= db);
    } else {
        assert(refreshed(db, connected) =~= db);
    }
}

proof fn lemma_admitted_unchanged(db: Seq<Pad>, connected: Seq<Pad>, snapshot: Seq<Pad>)
    requires
        !admission_changes(db, connected, snapshot),
    ensures
        admitted(db, connected, snapshot) == db,
    decreases connected.len(),
{
    if connected.len() > 0 {
        lemma_admitted_unchanged(db, connected.drop_last(), snapshot);
    }
}

proof fn lemma_admitted_rows_are_connected(base: Seq<Pad>, connected: Seq<Pad>, snapshot: Seq<Pad>)
    requires
        forall|p: int|
            0 <= p < base.len() ==> (is_volatile((#[trigger] base[p]).uid) ==> knows(
                snapshot,
                base[p].uid,
            )),
        forall|k: int| 0 <= k < connected.len() ==> knows(snapshot, (#[trigger] connected[k]).uid),
    ensures
        forall|p: int|
            0 <= p < admitted(base, connected, snapshot).len() ==> (is_volatile(
                (#[trigger] admitted(base, connected, snapshot)[p]).uid,
            ) ==> knows(snapshot, admitted(base, connected, snapshot)[p].uid)),
    decreases connected.len(),
{
    if connected.len() > 0 {
        let init = connected.drop_last();
        assert forall|k: int| 0 <= k < init.len() implies knows(
            snapshot,
            (#[trigger] init[k]).uid,
        ) by {
            assert(init[k] == connected[k]);
        }
        lemma_admitted_rows_are_connected(base, init, snapshot);
        let before = admitted(base, init, snapshot);
        let after = admitted(base, connected, snapshot);
        let conn = connected[connected.len() - 1];
        lemma_slot(before, conn, snapshot, 0);
        assert forall|p: int|
            0 <= p < after.len() && is_volatile((#[trigger] after[p]).uid) implies knows(
            snapshot,
            after[p].uid,
        ) by {
            if p < before.len() {
                assert(after[p].uid == before[p].uid || after[p].uid == conn.uid);
            }
        }
    }
}

/// After a snapshot every row under a volatile uid belongs to a pad that is
/// connected: session rows never outlast their session.
pub proof fn law_session_rows_end(db: Seq<Pad>, connected: Seq<Pad>)
    ensures
        forall|p: int|
            0 <= p < reconciled(db, connected).len() ==> (is_volatile(
                (#[trigger] reconciled(db, connected)[p]).uid,
            ) ==> knows(connected, reconciled(db, connected)[p].uid)),
{
    let base = refreshed(db, connected);
    lemma_refreshed_rows(db, connected);
    assert forall|p: int|
        0 <= p < base.len() && is_volatile((#[trigger] base[p]).uid) implies knows(
        connected,
        base[p].uid,
    ) by {
        let i = choose|i: int|
            0 <= i < db.len() && refresh(#[trigger] db[i], connected) == Some(base[p]);
        lemma_first_with_uid(connected, db[i].uid);
    }
    lemma_admitted_rows_are_connected(base, connected, connected);
}

proof fn lemma_sweep(db: Seq<Pad>)
    ensures
        refreshed(db, Seq::empty()).len() == stable_rows(db),
        forall|p: int|
            0 <= p < refreshed(db, Seq::empty()).len() ==> !is_volatile(
                (#[trigger] refreshed(db, Seq::empty())[p]).uid,
            ) && refreshed(db, Seq::empty())[p].status == GamepadStatus::Disconnected,
    decreases db.len(),
{
    if db.len() > 0 {
        lemma_sweep(db.drop_last());
    }
}

/// With nothing connected exactly the stable rows stay, all as disconnected.
pub proof fn law_sweep_keeps_the_stable_rows(db: Seq<Pad>)
    ensures
        reconciled(db, Seq::empty()).len() == stable_rows(db),
        forall|p: int|
            0 <= p < reconciled(db, Seq::empty()).len() ==> !is_volatile(
                (#[trigger] reconciled(db, Seq::empty())[p]).uid,
            ) && reconciled(db, Seq::empty())[p].status == GamepadStatus::Disconnected,
        forall|i: int|
            0 <= i < db.len() && !is_volatile((#[trigger] db[i]).uid) ==> reconciled(
                db,
                Seq::empty(),
            ).contains(Pad { status: GamepadStatus::Disconnected, ..db[i] }),
{
    lemma_sweep(db);
    lemma_refreshed_rows(db, Seq::empty());
    assert forall|i: int| 0 <= i < db.len() && !is_volatile((#[trigger] db[i]).uid) implies refreshed(
        db,
        Seq::empty(),
    ).contains(Pad { status: GamepadStatus::Disconnected, ..db[i] }) by {
        assert(refresh(db[i], Seq::empty()) == Some(
            Pad { status: GamepadStatus::Disconnected, ..db[i] },
        ));
    }
}

/// Rows keep their place, name and connection type. The rows of connected pads
/// do not change at all; another one that changes was taken over by a pad with a
/// stable uid that had no row, and the same name and type.
proof fn lemma_admitted_keeps_rows(base: Seq<Pad>, connected: Seq<Pad>, snapshot: Seq<Pad>)
    requires
        forall|k: int| 0 <= k < connected.len() ==> knows(snapshot, (#[trigger] connected[k]).uid),
    ensures
        base.len() <= admitted(base, connected, snapshot).len() <= base.len() + connected.len(),
        forall|p: int|
            0 <= p < base.len() ==> {
                let row = #[trigger] admitted(base, connected, snapshot)[p];
                &&& row.name == base[p].name
                &&& row.connection_type == base[p].connection_type
                &&& row != base[p] ==> !knows(snapshot, base[p].uid) && exists|k: int|
                    0 <= k < connected.len() && may_take_over(base[p], #[trigger] connected[k])
                        && !knows(base, connected[k].uid) && row.uid == connected[k].uid
            },
    decreases connected.len(),
{
    if connected.len() > 0 {
        let init = connected.drop_last();
        assert forall|k: int| 0 <= k < init.len() implies knows(
            snapshot,
            (#[trigger] init[k]).uid,
        ) by {
            assert(init[k] == connected[k]);
        }
        lemma_admitted_keeps_rows(base, init, snapshot);
        let before = admitted(base, init, snapshot);
        let after = admitted(base, connected, snapshot);
        let last = connected.len() - 1;
        let conn = connected[last];
        lemma_slot(before, conn, snapshot, 0);
        assert forall|p: int| 0 <= p < base.len() implies {
            let row = #[trigger] after[p];
            &&& row.name == base[p].name
            &&& row.connection_type == base[p].connection_type
            &&& row != base[p] ==> !knows(snapshot, base[p].uid) && exists|k: int|
                0 <= k < connected.len() && may_take_over(base[p], #[trigger] connected[k])
                    && !knows(base, connected[k].uid) && row.uid == connected[k].uid
        } by {
            let old_row = before[p];
            if after[p] == old_row {
                if old_row != base[p] {
                    let k = choose|k: int|
                        0 <= k < init.len() && may_take_over(base[p], #[trigger] init[k]) && !knows(
                            base,
                            init[k].uid,
                        ) && old_row.uid == init[k].uid;
                    assert(connected[k] == init[k]);
                }
            } else {
                assert(p == slot(before, conn, snapshot, 0));
                assert(after[p] == adopted(old_row, conn));
                assert(!knows(base, conn.uid)) by {
                    if knows(base, conn.uid) {
                        let q = choose|q: int|
                            0 <= q < base.len() && (#[trigger] base[q]).uid == conn.uid;
                        assert(before[q] == base[q]);
                    }
                }
                if old_row != base[p] {
                    let k = choose|k: int|
                        0 <= k < init.len() && may_take_over(base[p], #[trigger] init[k]) && !knows(
                            base,
                            init[k].uid,
                        ) && old_row.uid == init[k].uid;
                    assert(knows(snapshot, init[k].uid));
                }
                assert(may_take_over(base[p], connected[last]));
            }
        }
    }
}

/// What is known of a connected pad before the admission is known after it.
proof fn lemma_connected_rows_are_kept(
    base: Seq<Pad>,
    connected: Seq<Pad>,
    snapshot: Seq<Pad>,
    uid: Seq<char>,
)
    requires
        forall|k: int| 0 <= k < connected.len() ==> knows(snapshot, (#[trigger] connected[k]).uid),
        knows(snapshot, uid),
        knows(base, uid),
    ensures
        knows(admitted(base, connected, snapshot), uid),
{
    lemma_admitted_keeps_rows(base, connected, snapshot);
    let p = choose|p: int| 0 <= p < base.len() && (#[trigger] base[p]).uid == uid;
    assert(admitted(base, connected, snapshot)[p].uid == uid);
}

/// A row under a stable uid is in the database after the snapshot as well,
/// brought up to date. The one exception is the row of a pad that is not
/// connected: one without a row, under a stable uid and with the same name and
/// connection type, may have taken it over.
pub proof fn law_stable_rows_stay(db: Seq<Pad>, connected: Seq<Pad>, i: int)
    requires
        0 <= i < db.len(),
        !is_volatile(db[i].uid),
    ensures
        ({
            let row = refresh(db[i], connected)->0;
            ||| reconciled(db, connected).contains(row)
            ||| !knows(connected, db[i].uid) && exists|p: int, k: int|
                0 <= p < reconciled(db, connected).len() && 0 <= k < connected.len()
                    && may_take_over(row, #[trigger] connected[k]) && !knows(db, connected[k].uid)
                    && (#[trigger] reconciled(db, connected)[p]).uid == connected[k].uid
        }),
{
    let base = refreshed(db, connected);
    let out = reconciled(db, connected);
    lemma_refreshed_rows(db, connected);
    lemma_first_with_uid(connected, db[i].uid);
    assert(refresh(db[i], connected) is Some);
    let row = refresh(db[i], connected)->0;
    let p = choose|p: int| 0 <= p < base.len() && base[p] == row;
    lemma_admitted_keeps_rows(base, connected, connected);
    assert(out[p].name == base[p].name);
    if out[p] == row {
        assert(out.contains(row));
    } else {
        let k = choose|k: int|
            0 <= k < connected.len() && may_take_over(base[p], #[trigger] connected[k]) && !knows(
                base,
                connected[k].uid,
            ) && out[p].uid == connected[k].uid;
        if knows(db, connected[k].uid) {
            lemma_refreshed_knows(db, connected, connected[k].uid);
        }
        assert(may_take_over(row, connected[k]) && out[p].uid == connected[k].uid);
    }
}

/// The rows of connected pads are left when the database is brought up to date.
proof fn lemma_refreshed_knows(db: Seq<Pad>, connected: Seq<Pad>, uid: Seq<char>)
    requires
        knows(connected, uid),
    ensures
        knows(refreshed(db, connected), uid) == knows(db, uid),
{
    let base = refreshed(db, connected);
    lemma_refreshed_rows(db, connected);
    lemma_first_with_uid(connected, uid);
    if knows(db, uid) {
        let i = choose|i: int| 0 <= i < db.len() && (#[trigger] db[i]).uid == uid;
        assert(refresh(db[i], connected) is Some);
        let p = choose|p: int| 0 <= p < base.len() && base[p] == refresh(db[i], connected)->0;
        assert(base[p].uid == uid);
    }
    if knows(base, uid) {
        let p = choose|p: int| 0 <= p < base.len() && (#[trigger] base[p]).uid == uid;
        let i = choose|i: int|
            0 <= i < db.len() && refresh(#[trigger] db[i], connected) == Some(base[p]);
        assert(db[i].uid == uid);
    }
}

proof fn lemma_refreshed_distinct(db: Seq<Pad>, connected: Seq<Pad>)
    requires
        distinct_uids(db),
    ensures
        distinct_uids(refreshed(db, connected)),
    decreases db.len(),
{
    if db.len() > 0 {
        let init = db.drop_last();
        assert(distinct_uids(init)) by {
            assert forall|i: int, j: int| 0 <= i < j < init.len() implies (#[trigger] init[i]).uid
                != (#[trigger] init[j]).uid by {
                assert(db[i] == init[i] && db[j] == init[j]);
            }
        }
        lemma_refreshed_distinct(init, connected);
        lemma_refreshed_rows(init, connected);
        let out_init = refreshed(init, connected);
        let out = refreshed(db, connected);
        assert forall|a: int, b: int| 0 <= a < b < out.len() implies (#[trigger] out[a]).uid != (
        #[trigger] out[b]).uid by {
            assert(out[a] == out_init[a]);
            if b < out_init.len() {
                assert(out[b] == out_init[b]);
            } else {
                let i = choose|i: int|
                    0 <= i < init.len() && refresh(#[trigger] init[i], connected) == Some(
                        out_init[a],
                    );
                assert(init[i] == db[i]);
                assert(db[i].uid != db[db.len() - 1].uid);
            }
        }
    }
}

proof fn lemma_admit_distinct(db: Seq<Pad>, conn: Pad, snapshot: Seq<Pad>)
    requires
        distinct_uids(db),
    ensures
        distinct_uids(admit_pad(db, conn, snapshot)),
        knows(admit_pad(db, conn, snapshot), conn.uid),
{
    lemma_slot(db, conn, snapshot, 0);
    let out = admit_pad(db, conn, snapshot);
    if !knows(db, conn.uid) {
        assert(forall|i: int| 0 <= i < db.len() ==> (#[trigger] db[i]).uid != conn.uid);
        let s = slot(db, conn, snapshot, 0);
        if !is_volatile(conn.uid) && s < db.len() {
            assert(out[s].uid == conn.uid);
            assert forall|a: int, b: int| 0 <= a < b < out.len() implies (#[trigger] out[a]).uid
                != (#[trigger] out[b]).uid by {
                if a != s {
                    assert(out[a] == db[a]);
                }
                if b != s {
                    assert(out[b] == db[b]);
                }
            }
        } else {
            assert(out[db.len() as int].uid == conn.uid);
            assert forall|a: int, b: int| 0 <= a < b < out.len() implies (#[trigger] out[a]).uid
                != (#[trigger] out[b]).uid by {
                assert(out[a] == db[a]);
                if b < db.len() {
                    assert(out[b] == db[b]);
                }
            }
        }
    }
}

proof fn lemma_admitted_distinct(db: Seq<Pad>, connected: Seq<Pad>, snapshot: Seq<Pad>)
    requires
        distinct_uids(db),
    ensures
        distinct_uids(admitted(db, connected, snapshot)),
    decreases connected.len(),
{
    if connected.len() > 0 {
        let before = admitted(db, connected.drop_last(), snapshot);
        lemma_admitted_distinct(db, connected.drop_last(), snapshot);
        lemma_admit_distinct(before, connected.last(), snapshot);
    }
}

/// A database in which no uid occurs twice stays so.
pub proof fn law_one_row_per_uid(db: Seq<Pad>, connected: Seq<Pad>)
    requires
        distinct_uids(db),
    ensures
        distinct_uids(reconciled(db, connected)),
{
    lemma_refreshed_distinct(db, connected);
    lemma_admitted_distinct(refreshed(db, connected), connected, connected);
}

/// How many rows under a volatile uid have theirs among `later`.
spec fn expected(db: Seq<Pad>, later: Seq<Pad>) -> nat
    decreases db.len(),
{
    if db.len() == 0 {
        0
    } else {
        expected(db.drop_last(), later) + if is_volatile(db.last().uid) && knows(
            later,
            db.last().uid,
        ) {
            1nat
        } else {
            0nat
        }
    }
}

proof fn lemma_expected_update(db: Seq<Pad>, later: Seq<Pad>, at: int, row: Pad)
    requires
        0 <= at < db.len(),
    ensures
        expected(db, later) <= expected(db.update(at, row), later) + 1,
        expected(db.push(row), later) >= expected(db, later),
    decreases db.len(),
{
    assert(db.push(row).drop_last() =~= db);
    let init = db.drop_last();
    if at == db.len() - 1 {
        assert(db.update(at, row).drop_last() =~= init);
    } else {
        lemma_expected_update(init, later, at, row);
        assert(db.update(at, row).drop_last() =~= init.update(at, row));
        assert(db.update(at, row).last() == db.last());
    }
}

proof fn lemma_expected_advance(db: Seq<Pad>, later: Seq<Pad>)
    requires
        distinct_uids(db),
        later.len() > 0,
    ensures
        expected(db, later) <= expected(db, later.drop_first()) + (if knows(db, later[0].uid) {
            1nat
        } else {
            0nat
        }),
    decreases db.len(),
{
    if db.len() > 0 {
        let init = db.drop_last();
        let rest = later.drop_first();
        assert forall|i: int, j: int| 0 <= i < j < init.len() implies (#[trigger] init[i]).uid != (
        #[trigger] init[j]).uid by {
            assert(db[i] == init[i] && db[j] == init[j]);
        }
        lemma_expected_advance(init, later);
        let row = db.last();
        if knows(later, row.uid) && !knows(rest, row.uid) {
            let k = choose|k: int| 0 <= k < later.len() && (#[trigger] later[k]).uid == row.uid;
            if k > 0 {
                assert(rest[k - 1].uid == row.uid);
            }
            assert(row.uid == later[0].uid);
            assert(!knows(init, later[0].uid)) by {
                if knows(init, later[0].uid) {
                    let i = choose|i: int|
                        0 <= i < init.len() && (#[trigger] init[i]).uid == later[0].uid;
                    assert(db[i].uid != db[db.len() - 1].uid);
                }
            }
            assert(db[db.len() - 1].uid == later[0].uid);
        }
        if knows(init, later[0].uid) {
            let i = choose|i: int| 0 <= i < init.len() && (#[trigger] init[i]).uid == later[0].uid;
            assert(db[i].uid == later[0].uid);
        }
    }
}

proof fn lemma_refreshed_count(db: Seq<Pad>, connected: Seq<Pad>)
    ensures
        refreshed(db, connected).len() <= stable_rows(db) + expected(
            refreshed(db, connected),
            connected,
        ),
    decreases db.len(),
{
    if db.len() > 0 {
        lemma_refreshed_count(db.drop_last(), connected);
        lemma_first_with_uid(connected, db.last().uid);
        let out_init = refreshed(db.drop_last(), connected);
        let out = refreshed(db, connected);
        if refresh(db.last(), connected) is Some {
            assert(out.drop_last() =~= out_init);
        }
    }
}

proof fn lemma_admitted_count(base: Seq<Pad>, connected: Seq<Pad>, n: int, bound: nat)
    requires
        distinct_uids(base),
        0 <= n <= connected.len(),
        base.len() <= bound + expected(base, connected),
    ensures
        admitted(base, connected.take(n), connected).len() <= bound + n + expected(
            admitted(base, connected.take(n), connected),
            connected.skip(n),
        ),
    decreases n,
{
    if n == 0 {
        assert(connected.take(0) =~= Seq::<Pad>::empty());
        assert(connected.skip(0) =~= connected);
    } else {
        lemma_admitted_count(base, connected, n - 1, bound);
        let before = admitted(base, connected.take(n - 1), connected);
        let conn = connected[n - 1];
        assert(connected.take(n).drop_last() =~= connected.take(n - 1));
        let after = admit_pad(before, conn, connected);
        let later = connected.skip(n - 1);
        assert(later.drop_first() =~= connected.skip(n));
        lemma_admitted_distinct(base, connected.take(n - 1), connected);
        lemma_expected_advance(before, later);
        assert(later[0] == conn);
        lemma_slot(before, conn, connected, 0);
        if !knows(before, conn.uid) {
            let s = slot(before, conn, connected, 0);
            if !is_volatile(conn.uid) && s < before.len() {
                lemma_expected_update(before, connected.skip(n), s, adopted(before[s], conn));
            } else {
                assert(after.drop_last() =~= before);
            }
        }
    }
}

/// The database holds at most one row for each connected pad besides the
/// stable rows that it had: reconnecting pads cannot make it grow without
/// bound.
pub proof fn law_never_grows_past_the_connected(db: Seq<Pad>, connected: Seq<Pad>)
    requires
        distinct_uids(db),
    ensures
        reconciled(db, connected).len() <= stable_rows(db) + connected.len(),
{
    let base = refreshed(db, connected);
    lemma_refreshed_distinct(db, connected);
    lemma_refreshed_count(db, connected);
    let n = connected.len() as int;
    lemma_admitted_count(base, connected, n, stable_rows(db));
    assert(connected.take(n) =~= connected);
    lemma_nothing_expected(admitted(base, connected, connected), connected.skip(n));
}

proof fn lemma_nothing_expected(db: Seq<Pad>, later: Seq<Pad>)
    requires
        later.len() == 0,
    ensures
        expected(db, later) == 0,
    decreases db.len(),
{
    if db.len() > 0 {
        lemma_nothing_expected(db.drop_last(), later);
    }
}

/// After the first `n` pads of a snapshot were looked up, each of them is known,
/// and every row is still up to date.
proof fn lemma_admitted_up_to_date(base: Seq<Pad>, connected: Seq<Pad>, n: int)
    requires
        0 <= n <= connected.len(),
        forall|p: int| 0 <= p < base.len() ==> up_to_date(#[trigger] base[p], connected),
    ensures
        forall|j: int|
            0 <= j < n ==> knows(
                admitted(base, connected.take(n), connected),
                (#[trigger] connected[j]).uid,
            ),
        forall|p: int|
            0 <= p < admitted(base, connected.take(n), connected).len() ==> up_to_date(
                #[trigger] admitted(base, connected.take(n), connected)[p],
                connected,
            ),
    decreases n,
{
    if n == 0 {
        assert(connected.take(0) =~= Seq::<Pad>::empty());
    } else {
        lemma_admitted_up_to_date(base, connected, n - 1);
        let before = admitted(base, connected.take(n - 1), connected);
        let conn = connected[n - 1];
        assert(connected.take(n).drop_last() =~= connected.take(n - 1));
        assert(connected.take(n).last() == conn);
        let after = admitted(base, connected.take(n), connected);
        lemma_slot(before, conn, connected, 0);
        let s = slot(before, conn, connected, 0);
        if !knows(before, conn.uid) {
            assert(!knows(connected.take(n - 1), conn.uid)) by {
                if knows(connected.take(n - 1), conn.uid) {
                    let j = choose|j: int|
                        0 <= j < n - 1 && (#[trigger] connected.take(n - 1)[j]).uid == conn.uid;
                    assert(knows(before, connected[j].uid));
                }
            }
            lemma_first_is_the_one(connected, n - 1);
            if !is_volatile(conn.uid) && s < before.len() {
                assert(after[s].uid == conn.uid);
            } else {
                assert(after[before.len() as int].uid == conn.uid);
            }
        }
        assert forall|j: int| 0 <= j < n implies knows(after, (#[trigger] connected[j]).uid) by {
            if j < n - 1 {
                assert(knows(before, connected[j].uid));
                let p = choose|p: int|
                    0 <= p < before.len() && (#[trigger] before[p]).uid == connected[j].uid;
                assert(knows(connected, before[p].uid));
                assert(after[p] == before[p]);
            }
        }
        assert forall|p: int| 0 <= p < after.len() implies up_to_date(
            #[trigger] after[p],
            connected,
        ) by {
            if p < before.len() && after[p] == before[p] {
            } else {
                assert(after[p].uid == conn.uid);
            }
        }
    }
}

proof fn lemma_refreshed_up_to_date(db: Seq<Pad>, connected: Seq<Pad>)
    ensures
        forall|p: int|
            0 <= p < refreshed(db, connected).len() ==> up_to_date(
                #[trigger] refreshed(db, connected)[p],
                connected,
            ),
{
    lemma_refreshed_rows(db, connected);
    let base = refreshed(db, connected);
    assert forall|p: int| 0 <= p < base.len() implies up_to_date(#[trigger] base[p], connected) by {
        let i = choose|i: int|
            0 <= i < db.len() && refresh(#[trigger] db[i], connected) == Some(base[p]);
    }
}

/// After a snapshot every row is up to date with it: its status is connected
/// exactly if its pad is in the snapshot.
pub proof fn law_rows_show_the_snapshot(db: Seq<Pad>, connected: Seq<Pad>)
    ensures
        forall|p: int|
            0 <= p < reconciled(db, connected).len() ==> {
                let row = #[trigger] reconciled(db, connected)[p];
                &&& up_to_date(row, connected)
                &&& (row.status == GamepadStatus::Connected) == knows(connected, row.uid)
            },
{
    lemma_refreshed_up_to_date(db, connected);
    let n = connected.len() as int;
    lemma_admitted_up_to_date(refreshed(db, connected), connected, n);
    assert(connected.take(n) =~= connected);
    let out = reconciled(db, connected);
    assert forall|p: int| 0 <= p < out.len() implies {
        let row = #[trigger] out[p];
        &&& up_to_date(row, connected)
        &&& (row.status == GamepadStatus::Connected) == knows(connected, row.uid)
    } by {
        lemma_first_with_uid(connected, out[p].uid);
    }
}

/// Every connected pad has a row after the snapshot.
pub proof fn law_connected_pads_are_shown(db: Seq<Pad>, connected: Seq<Pad>, j: int)
    requires
        0 <= j < connected.len(),
    ensures
        knows(reconciled(db, connected), connected[j].uid),
{
    lemma_refreshed_up_to_date(db, connected);
    let n = connected.len() as int;
    lemma_admitted_up_to_date(refreshed(db, connected), connected, n);
    assert(connected.take(n) =~= connected);
}

proof fn lemma_all_known_is_quiet(db: Seq<Pad>, connected: Seq<Pad>, snapshot: Seq<Pad>)
    requires
        forall|j: int| 0 <= j < connected.len() ==> knows(db, (#[trigger] connected[j]).uid),
    ensures
        !admission_changes(db, connected, snapshot),
        admitted(db, connected, snapshot) == db,
    decreases connected.len(),
{
    if connected.len() > 0 {
        let init = connected.drop_last();
        assert forall|j: int| 0 <= j < init.len() implies knows(db, (#[trigger] init[j]).uid) by {
            assert(init[j] == connected[j]);
        }
        lemma_all_known_is_quiet(db, init, snapshot);
        assert(knows(db, connected[connected.len() - 1].uid));
    }
}

/// The same snapshot again changes nothing and gives no reason to save.
pub proof fn law_repeated_snapshot_is_quiet(db: Seq<Pad>, connected: Seq<Pad>)
    ensures
        !reconcile_changes(reconciled(db, connected), connected),
        reconciled(reconciled(db, connected), connected) == reconciled(db, connected),
{
    let out = reconciled(db, connected);
    law_rows_show_the_snapshot(db, connected);
    assert(!refresh_changes(out, connected));
    lemma_refreshed_unchanged(out, connected);
    assert forall|j: int| 0 <= j < connected.len() implies knows(
        out,
        (#[trigger] connected[j]).uid,
    ) by {
        law_connected_pads_are_shown(db, connected, j);
    }
    lemma_all_known_is_quiet(out, connected, connected);
}

/// Without a row to drop the rows keep their places while they are brought up to
/// date.
proof fn lemma_refreshed_in_place(db: Seq<Pad>, connected: Seq<Pad>)
    requires
        forall|i: int| 0 <= i < db.len() ==> refresh(#[trigger] db[i], connected) is Some,
    ensures
        refreshed(db, connected).len() == db.len(),
        forall|i: int|
            0 <= i < db.len() ==> #[trigger] refreshed(db, connected)[i] == refresh(
                db[i],
                connected,
            )->0,
    decreases db.len(),
{
    if db.len() > 0 {
        let init = db.drop_last();
        assert forall|i: int| 0 <= i < init.len() implies refresh(
            #[trigger] init[i],
            connected,
        ) is Some by {
            assert(init[i] == db[i]);
        }
        lemma_refreshed_in_place(init, connected);
        let last = db.len() - 1;
        assert(refresh(db[last], connected) is Some);
        assert forall|i: int| 0 <= i < db.len() implies #[trigger] refreshed(db, connected)[i]
            == refresh(db[i], connected)->0 by {
            if i < last {
                assert(refreshed(init, connected)[i] == refresh(init[i], connected)->0);
            }
        }
    }
}

/// A pad that was unknown when its turn came has no row in the database before.
proof fn lemma_admission_finds_an_unknown(base: Seq<Pad>, connected: Seq<Pad>, snapshot: Seq<Pad>)
    requires
        forall|k: int| 0 <= k < connected.len() ==> knows(snapshot, (#[trigger] connected[k]).uid),
        admission_changes(base, connected, snapshot),
    ensures
        exists|k: int| 0 <= k < connected.len() && !knows(base, (#[trigger] connected[k]).uid),
    decreases connected.len(),
{
    let init = connected.drop_last();
    let last = connected.len() - 1;
    assert forall|k: int| 0 <= k < init.len() implies knows(
        snapshot,
        (#[trigger] init[k]).uid,
    ) by {
        assert(init[k] == connected[k]);
    }
    if admission_changes(base, init, snapshot) {
        lemma_admission_finds_an_unknown(base, init, snapshot);
        let k = choose|k: int| 0 <= k < init.len() && !knows(base, (#[trigger] init[k]).uid);
        assert(connected[k] == init[k]);
    } else {
        assert(knows(snapshot, connected[last].uid));
        if knows(base, connected[last].uid) {
            lemma_connected_rows_are_kept(base, init, snapshot, connected[last].uid);
        }
    }
}

/// A snapshot gives reason to save exactly if it changes the database.
pub proof fn law_reported_means_changed(db: Seq<Pad>, connected: Seq<Pad>)
    ensures
        reconcile_changes(db, connected) <==> reconciled(db, connected) != db,
{
    let base = refreshed(db, connected);
    let out = reconciled(db, connected);
    if !reconcile_changes(db, connected) {
        lemma_refreshed_unchanged(db, connected);
        lemma_admitted_unchanged(db, connected, connected);
    } else if exists|i: int| 0 <= i < db.len() && refresh(#[trigger] db[i], connected) is None {
        let i = choose|i: int| 0 <= i < db.len() && refresh(#[trigger] db[i], connected) is None;
        lemma_first_with_uid(connected, db[i].uid);
        law_session_rows_end(db, connected);
        if out == db {
            assert(is_volatile(out[i].uid));
        }
    } else if refresh_changes(db, connected) {
        let i = choose|i: int|
            0 <= i < db.len() && refresh(#[trigger] db[i], connected) != Some(db[i]);
        lemma_refreshed_in_place(db, connected);
        lemma_admitted_keeps_rows(base, connected, connected);
        assert(base[i] == refresh(db[i], connected)->0);
        if out[i] != base[i] {
            assert(knows(connected, out[i].uid));
        }
        assert(out[i] != db[i]);
    } else {
        lemma_admission_finds_an_unknown(base, connected, connected);
        let k = choose|k: int| 0 <= k < connected.len() && !knows(base, (#[trigger] connected[k]).uid);
        lemma_refreshed_knows(db, connected, connected[k].uid);
        law_connected_pads_are_shown(db, connected, k);
    }
}

/// A uid is volatile exactly if it is the path of a sysfs node.
pub proof fn law_volatile_uids(uid: Seq<char>)
    ensures
        is_volatile(uid) <==> "/sys/"@.is_prefix_of(uid),
{
}

/// A row whose pad is in the snapshot shows what the snapshot says of it: connected,
/// and its name, battery, power and connection.
pub proof fn law_rows_show_their_pads(db: Seq<Pad>, connected: Seq<Pad>, p: int, j: int)
    requires
        0 <= p < reconciled(db, connected).len(),
        0 <= j < connected.len(),
        connected[j].uid == reconciled(db, connected)[p].uid,
        forall|i: int| 0 <= i < j ==> (#[trigger] connected[i]).uid != connected[j].uid,
    ensures
        ({
            let row = reconciled(db, connected)[p];
            &&& row.status == GamepadStatus::Connected
            &&& row.name == connected[j].name
            &&& row.battery_level == connected[j].battery_level
            &&& row.power_status == connected[j].power_status
            &&& row.connection_type == connected[j].connection_type
        }),
{
    law_rows_show_the_snapshot(db, connected);
    let row = reconciled(db, connected)[p];
    assert(up_to_date(row, connected));
    assert(!knows(connected.take(j), connected[j].uid)) by {
        if knows(connected.take(j), connected[j].uid) {
            let i = choose|i: int|
                0 <= i < connected.take(j).len() && (#[trigger] connected.take(j)[i]).uid
                    == connected[j].uid;
            assert(connected[i].uid == connected[j].uid);
        }
    }
    lemma_first_is_the_one(connected, j);
}

proof fn lemma_rows_behind_the_base(base: Seq<Pad>, connected: Seq<Pad>, snapshot: Seq<Pad>, p: int)
    requires
        forall|k: int| 0 <= k < connected.len() ==> knows(snapshot, (#[trigger] connected[k]).uid),
        base.len() <= p < admitted(base, connected, snapshot).len(),
    ensures
        knows(snapshot, admitted(base, connected, snapshot)[p].uid),
    decreases connected.len(),
{
    if connected.len() > 0 {
        let init = connected.drop_last();
        assert forall|k: int| 0 <= k < init.len() implies knows(
            snapshot,
            (#[trigger] init[k]).uid,
        ) by {
            assert(init[k] == connected[k]);
        }
        let before = admitted(base, init, snapshot);
        let conn = connected[connected.len() - 1];
        lemma_slot(before, conn, snapshot, 0);
        assert(knows(snapshot, conn.uid));
        if p < before.len() {
            lemma_rows_behind_the_base(base, init, snapshot, p);
        }
    }
}

/// A row whose pad is not in the snapshot is one that the database had, under a stable
/// uid, and says what it said but that the pad is disconnected.
pub proof fn law_rows_of_absent_pads(db: Seq<Pad>, connected: Seq<Pad>, p: int)
    requires
        0 <= p < reconciled(db, connected).len(),
        !knows(connected, reconciled(db, connected)[p].uid),
    ensures
        exists|i: int|
            0 <= i < db.len() && !is_volatile((#[trigger] db[i]).uid) && reconciled(
                db,
                connected,
            )[p] == (Pad { status: GamepadStatus::Disconnected, ..db[i] }),
{
    let base = refreshed(db, connected);
    let row = reconciled(db, connected)[p];
    lemma_admitted_keeps_rows(base, connected, connected);
    if p >= base.len() {
        lemma_rows_behind_the_base(base, connected, connected, p);
    }
    assert(row == base[p]) by {
        if row != base[p] {
            let k = choose|k: int|
                0 <= k < connected.len() && may_take_over(base[p], #[trigger] connected[k])
                    && !knows(base, connected[k].uid) && row.uid == connected[k].uid;
            assert(knows(connected, connected[k].uid));
        }
    }
    lemma_refreshed_rows(db, connected);
    let i = choose|i: int|
        0 <= i < db.len() && refresh(#[trigger] db[i], connected) == Some(base[p]);
    lemma_first_with_uid(connected, db[i].uid);
    assert(!is_volatile(db[i].uid));
}

proof fn lemma_ids(base: Seq<Pad>, connected: Seq<Pad>, n: int, p: int)
    requires
        0 <= n <= connected.len(),
        0 <= p < admitted(base, connected.take(n), connected).len(),
        !knows(base, admitted(base, connected.take(n), connected)[p].uid),
    ensures
        exists|k: int|
            0 <= k < n && (#[trigger] connected[k]).uid == admitted(
                base,
                connected.take(n),
                connected,
            )[p].uid && connected[k].id == admitted(base, connected.take(n), connected)[p].id,
    decreases n,
{
    if n == 0 {
        assert(connected.take(0) =~= Seq::<Pad>::empty());
        assert(knows(base, base[p].uid));
    } else {
        let before = admitted(base, connected.take(n - 1), connected);
        let after = admitted(base, connected.take(n), connected);
        let conn = connected[n - 1];
        assert(connected.take(n).drop_last() =~= connected.take(n - 1));
        assert(connected.take(n).last() == conn);
        lemma_slot(before, conn, connected, 0);
        if p < before.len() && after[p] == before[p] {
            lemma_ids(base, connected, n - 1, p);
            let k = choose|k: int|
                0 <= k < n - 1 && (#[trigger] connected[k]).uid == before[p].uid
                    && connected[k].id == before[p].id;
            assert(connected[k].uid == after[p].uid);
        } else {
            assert(connected[n - 1].uid == after[p].uid && connected[n - 1].id == after[p].id);
        }
    }
}

/// A row for a pad that the database did not know has the id that the snapshot says.
pub proof fn law_new_rows_have_their_id(db: Seq<Pad>, connected: Seq<Pad>, p: int)
    requires
        0 <= p < reconciled(db, connected).len(),
        knows(connected, reconciled(db, connected)[p].uid),
        !knows(db, reconciled(db, connected)[p].uid),
    ensures
        exists|k: int|
            0 <= k < connected.len() && (#[trigger] connected[k]).uid == reconciled(
                db,
                connected,
            )[p].uid && connected[k].id == reconciled(db, connected)[p].id,
{
    let base = refreshed(db, connected);
    let n = connected.len() as int;
    assert(connected.take(n) =~= connected);
    lemma_refreshed_knows(db, connected, reconciled(db, connected)[p].uid);
    lemma_ids(base, connected, n, p);
}

/// A row of a known pad keeps its id.
pub proof fn law_known_rows_keep_their_id(db: Seq<Pad>, connected: Seq<Pad>, p: int)
    requires
        0 <= p < reconciled(db, connected).len(),
        knows(connected, reconciled(db, connected)[p].uid),
        knows(db, reconciled(db, connected)[p].uid),
        distinct_uids(db),
    ensures
        exists|i: int|
            0 <= i < db.len() && (#[trigger] db[i]).uid == reconciled(db, connected)[p].uid
                && db[i].id == reconciled(db, connected)[p].id,
{
    let base = refreshed(db, connected);
    let out = reconciled(db, connected);
    let uid = out[p].uid;
    lemma_refreshed_knows(db, connected, uid);
    lemma_admitted_keeps_rows(base, connected, connected);
    law_one_row_per_uid(db, connected);
    let q = choose|q: int| 0 <= q < base.len() && (#[trigger] base[q]).uid == uid;
    assert(out[q] == base[q]);
    assert(p == q) by {
        if p < q {
            assert(out[p].uid != out[q].uid);
        } else if q < p {
            assert(out[q].uid != out[p].uid);
        }
    }
    lemma_refreshed_rows(db, connected);
    let i = choose|i: int|
        0 <= i < db.len() && refresh(#[trigger] db[i], connected) == Some(base[q]);
    assert(db[i].uid == uid && db[i].id == out[p].id);
}

proof fn lemma_slot_is_found(db: Seq<Pad>, conn: Pad, snapshot: Seq<Pad>, from: int, i: int)
    requires
        0 <= from <= i < db.len(),
        may_adopt(db[i], conn, snapshot),
    ensures
        slot(db, conn, snapshot, from) <= i,
    decreases i - from,
{
    if from < i && !may_adopt(db[from], conn, snapshot) {
        lemma_slot_is_found(db, conn, snapshot, from + 1, i);
    }
}

proof fn lemma_refreshed_alone(db: Seq<Pad>, conn: Pad)
    requires
        !knows(db, conn.uid),
    ensures
        refreshed(db, seq![conn]) == refreshed(db, Seq::empty()),
        refreshed(db, Seq::empty()).len() == stable_rows(db),
    decreases db.len(),
{
    lemma_sweep(db);
    if db.len() > 0 {
        let init = db.drop_last();
        assert(!knows(init, conn.uid)) by {
            if knows(init, conn.uid) {
                let i = choose|i: int| 0 <= i < init.len() && (#[trigger] init[i]).uid == conn.uid;
                assert(db[i].uid == conn.uid);
            }
        }
        lemma_refreshed_alone(init, conn);
        assert(db[db.len() - 1].uid != conn.uid);
        assert(seq![conn].drop_first() =~= Seq::<Pad>::empty());
        assert(first_with_uid(seq![conn].drop_first(), db.last().uid) is None);
        assert(first_with_uid(seq![conn], db.last().uid) is None);
        assert(first_with_uid(Seq::<Pad>::empty(), db.last().uid) is None);
    }
}

/// A pad that comes back under a new stable identity takes over the row that it had:
/// where the database has a stable row of its name and connection whose own pad is not
/// connected, no row is added, and one row changes its uid to the new one.
pub proof fn law_new_identity_takes_the_row(db: Seq<Pad>, conn: Pad, i: int)
    requires
        0 <= i < db.len(),
        !is_volatile(db[i].uid),
        db[i].name == conn.name,
        db[i].connection_type == conn.connection_type,
        !is_volatile(conn.uid),
        !knows(db, conn.uid),
    ensures
        reconciled(db, seq![conn]).len() == stable_rows(db),
        knows(reconciled(db, seq![conn]), conn.uid),
{
    let snapshot = seq![conn];
    let base = refreshed(db, snapshot);
    lemma_refreshed_alone(db, conn);
    lemma_refreshed_rows(db, Seq::empty());
    lemma_first_with_uid(Seq::empty(), db[i].uid);
    let kept = Pad { status: GamepadStatus::Disconnected, ..db[i] };
    assert(refresh(db[i], Seq::empty()) == Some(kept));
    let q = choose|q: int| 0 <= q < base.len() && base[q] == kept;
    assert(!knows(base, conn.uid)) by {
        assert(knows(snapshot, conn.uid)) by {
            assert(snapshot[0].uid == conn.uid);
        }
        lemma_refreshed_knows(db, snapshot, conn.uid);
    }
    assert(!knows(snapshot, kept.uid)) by {
        if knows(snapshot, kept.uid) {
            let k = choose|k: int| 0 <= k < snapshot.len() && (#[trigger] snapshot[k]).uid
                == kept.uid;
            assert(db[i].uid == conn.uid);
        }
    }
    assert(may_adopt(base[q], conn, snapshot)) by {
        assert(db[i].uid != conn.uid);
    }
    lemma_slot_is_found(base, conn, snapshot, 0, q);
    lemma_slot(base, conn, snapshot, 0);
    assert(snapshot.drop_last() =~= Seq::<Pad>::empty());
    assert(admitted(base, snapshot.drop_last(), snapshot) == base);
    let out = reconciled(db, snapshot);
    assert(out == admit_pad(base, conn, snapshot));
    assert(out[slot(base, conn, snapshot, 0)].uid == conn.uid);
}

/// Two rows that are left keep their order.
proof fn lemma_refreshed_order(db: Seq<Pad>, connected: Seq<Pad>, i: int, j: int)
    requires
        0 <= i < j < db.len(),
        refresh(db[i], connected) is Some,
        refresh(db[j], connected) is Some,
    ensures
        exists|p: int, q: int|
            0 <= p < q < refreshed(db, connected).len() && #[trigger] refreshed(db, connected)[p]
                == refresh(db[i], connected)->0 && #[trigger] refreshed(db, connected)[q]
                == refresh(db[j], connected)->0,
    decreases db.len(),
{
    let init = db.drop_last();
    let out_init = refreshed(init, connected);
    let out = refreshed(db, connected);
    assert(init[i] == db[i]);
    if j < init.len() {
        assert(init[j] == db[j]);
        lemma_refreshed_order(init, connected, i, j);
        let (p, q) = choose|p: int, q: int|
            0 <= p < q < out_init.len() && #[trigger] out_init[p] == refresh(init[i], connected)->0
                && #[trigger] out_init[q] == refresh(init[j], connected)->0;
        assert(out[p] == out_init[p] && out[q] == out_init[q]);
    } else {
        lemma_refreshed_rows(init, connected);
        let p = choose|p: int|
            0 <= p < out_init.len() && out_init[p] == refresh(init[i], connected)->0;
        let q = out.len() - 1;
        assert(out[p] == out_init[p]);
        assert(out[q] == refresh(db[j], connected)->0);
    }
}

/// Rows of connected pads keep their order.
pub proof fn law_rows_keep_their_order(db: Seq<Pad>, connected: Seq<Pad>, i: int, j: int)
    requires
        0 <= i < j < db.len(),
        knows(connected, db[i].uid),
        knows(connected, db[j].uid),
    ensures
        exists|p: int, q: int|
            0 <= p < q < reconciled(db, connected).len() && (#[trigger] reconciled(
                db,
                connected,
            )[p]).uid == db[i].uid && (#[trigger] reconciled(db, connected)[q]).uid == db[j].uid,
{
    let base = refreshed(db, connected);
    let out = reconciled(db, connected);
    lemma_first_with_uid(connected, db[i].uid);
    lemma_first_with_uid(connected, db[j].uid);
    lemma_refreshed_order(db, connected, i, j);
    let (p, q) = choose|p: int, q: int|
        0 <= p < q < base.len() && #[trigger] base[p] == refresh(db[i], connected)->0
            && #[trigger] base[q] == refresh(db[j], connected)->0;
    lemma_admitted_keeps_rows(base, connected, connected);
    assert(out[p] == base[p] && out[q] == base[q]);
}

proof fn lemma_admitted_to_nothing(connected: Seq<Pad>, n: int)
    requires
        distinct_uids(connected),
        0 <= n <= connected.len(),
    ensures
        admitted(Seq::empty(), connected.take(n), connected) == connected.take(n).map_values(
            |c: Pad| Pad { status: GamepadStatus::Connected, ..c },
        ),
    decreases n,
{
    let made = |c: Pad| Pad { status: GamepadStatus::Connected, ..c };
    if n == 0 {
        assert(connected.take(0) =~= Seq::<Pad>::empty());
        assert(Seq::<Pad>::empty().map_values(made) =~= Seq::<Pad>::empty());
    } else {
        lemma_admitted_to_nothing(connected, n - 1);
        let before = admitted(Seq::empty(), connected.take(n - 1), connected);
        let conn = connected[n - 1];
        assert(connected.take(n).drop_last() =~= connected.take(n - 1));
        assert(connected.take(n).last() == conn);
        assert(!knows(before, conn.uid)) by {
            if knows(before, conn.uid) {
                let k = choose|k: int| 0 <= k < before.len() && (#[trigger] before[k]).uid
                    == conn.uid;
                assert(before[k].uid == connected[k].uid);
                assert(connected[k].uid != connected[n - 1].uid);
            }
        }
        lemma_slot(before, conn, connected, 0);
        let at = slot(before, conn, connected, 0);
        if at < before.len() {
            assert(before[at].uid == connected[at].uid);
            assert(knows(connected, connected[at].uid));
        }
        assert(admitted(Seq::empty(), connected.take(n), connected) =~= connected.take(
            n,
        ).map_values(made));
    }
}

/// An empty database takes over the snapshot as it is: one row for each connected pad,
/// in its order, with all that is said of it.
pub proof fn law_first_snapshot(connected: Seq<Pad>)
    requires
        distinct_uids(connected),
    ensures
        reconciled(Seq::empty(), connected) == connected.map_values(
            |c: Pad| Pad { status: GamepadStatus::Connected, ..c },
        ),
{
    let n = connected.len() as int;
    lemma_admitted_to_nothing(connected, n);
    assert(connected.take(n) =~= connected);
    assert(refreshed(Seq::empty(), connected) =~= Seq::<Pad>::empty());
}

} // verus!
