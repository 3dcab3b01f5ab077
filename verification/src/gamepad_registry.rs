//! The database of remembered gamepads and its reconciliation with a snapshot
//! of the connected ones.
//!
//! A remembered row is only as stable as its `uid`. Where no hardware identity
//! can be resolved, the uid is the sysfs path of the input node, which the
//! kernel renumbers at every reconnect. Rows under such uids last for one
//! session: they are shown while the pad is connected, removed when it is gone,
//! and never pile up over reconnects.

use crate::text::{has_prefix, starts_with};
use vstd::prelude::*;

verus! {

#[derive(Clone, Copy, PartialEq, Eq, Structural, Debug)]
pub enum GamepadStatus {
    Connected,
    Disconnected,
}

#[derive(Clone, Copy, PartialEq, Eq, Structural, Debug)]
pub enum ConnectionType {
    Wired,
    Wireless,
    Unknown,
}

#[derive(Clone, Copy, PartialEq, Eq, Structural, Debug)]
pub enum PowerStatus {
    Charging,
    Discharging,
    Full,
    Unknown,
}

/// One gamepad, connected or remembered.
#[derive(Debug)]
pub struct GamepadInfo {
    pub name: String,
    pub id: String,
    pub uid: String,
    pub status: GamepadStatus,
    pub battery_level: Option<u8>,
    pub connection_type: ConnectionType,
    pub power_status: PowerStatus,
}

/// What a `GamepadInfo` says.
pub struct Pad {
    pub name: Seq<char>,
    pub id: Seq<char>,
    pub uid: Seq<char>,
    pub status: GamepadStatus,
    pub battery_level: Option<u8>,
    pub connection_type: ConnectionType,
    pub power_status: PowerStatus,
}

impl View for GamepadInfo {
    type V = Pad;

    open spec fn view(&self) -> Pad {
        Pad {
            name: self.name@,
            id: self.id@,
            uid: self.uid@,
            status: self.status,
            battery_level: self.battery_level,
            connection_type: self.connection_type,
            power_status: self.power_status,
        }
    }
}

impl Clone for GamepadInfo {
    fn clone(&self) -> (r: GamepadInfo)
        ensures
            r@ == self@,
    {
        GamepadInfo {
            name: self.name.clone(),
            id: self.id.clone(),
            uid: self.uid.clone(),
            status: self.status,
            battery_level: self.battery_level,
            connection_type: self.connection_type,
            power_status: self.power_status,
        }
    }
}

/// What the rows of a list say.
pub open spec fn pads(list: Seq<GamepadInfo>) -> Seq<Pad> {
    list.map_values(|p: GamepadInfo| p@)
}

/// Whether a uid is the path of a sysfs node.
pub open spec fn is_volatile(uid: Seq<char>) -> bool {
    has_prefix(uid, "/sys/"@)
}

/// Whether a row of `db` has this uid.
pub open spec fn knows(db: Seq<Pad>, uid: Seq<char>) -> bool {
    exists|i: int| 0 <= i < db.len() && (#[trigger] db[i]).uid == uid
}

/// The first pad with this uid.
pub open spec fn first_with_uid(list: Seq<Pad>, uid: Seq<char>) -> Option<Pad>
    decreases list.len(),
{
    if list.len() == 0 {
        None
    } else if list[0].uid == uid {
        Some(list[0])
    } else {
        first_with_uid(list.drop_first(), uid)
    }
}

/// What becomes of a remembered row: it takes over the state of the connected
/// pad with its uid; without one it is dropped if its uid is volatile, and is
/// kept as disconnected otherwise.
pub open spec fn refresh(row: Pad, connected: Seq<Pad>) -> Option<Pad> {
    match first_with_uid(connected, row.uid) {
        Some(conn) => Some(
            Pad {
                status: GamepadStatus::Connected,
                name: conn.name,
                battery_level: conn.battery_level,
                power_status: conn.power_status,
                connection_type: conn.connection_type,
                ..row
            },
        ),
        None => if is_volatile(row.uid) {
            None
        } else {
            Some(Pad { status: GamepadStatus::Disconnected, ..row })
        },
    }
}

/// The rows that are left of `db`, each brought up to date.
pub open spec fn refreshed(db: Seq<Pad>, connected: Seq<Pad>) -> Seq<Pad>
    decreases db.len(),
{
    if db.len() == 0 {
        Seq::empty()
    } else {
        let init = refreshed(db.drop_last(), connected);
        match refresh(db.last(), connected) {
            Some(row) => init.push(row),
            None => init,
        }
    }
}

/// Whether bringing the rows up to date changes or drops one.
pub open spec fn refresh_changes(db: Seq<Pad>, connected: Seq<Pad>) -> bool {
    exists|i: int| 0 <= i < db.len() && refresh(#[trigger] db[i], connected) != Some(db[i])
}

/// Whether a row under another uid has the name and connection type of `conn`.
pub open spec fn same_model(row: Pad, conn: Pad) -> bool {
    row.uid != conn.uid && row.name == conn.name && row.connection_type == conn.connection_type
}

/// Whether `conn` may be the pad of `row` under a new identity: it is of the same
/// model, and the pad of `row` is not itself connected.
pub open spec fn may_adopt(row: Pad, conn: Pad, snapshot: Seq<Pad>) -> bool {
    !knows(snapshot, row.uid) && same_model(row, conn)
}

/// The first row from `from` on that `conn` may take over, or the number of rows.
pub open spec fn slot(db: Seq<Pad>, conn: Pad, snapshot: Seq<Pad>, from: int) -> int
    decreases db.len() - from,
{
    if from < 0 || from >= db.len() {
        db.len() as int
    } else if may_adopt(db[from], conn, snapshot) {
        from
    } else {
        slot(db, conn, snapshot, from + 1)
    }
}

/// `row` under the identity and with the state of `conn`.
pub open spec fn adopted(row: Pad, conn: Pad) -> Pad {
    Pad {
        id: conn.id,
        uid: conn.uid,
        status: GamepadStatus::Connected,
        battery_level: conn.battery_level,
        power_status: conn.power_status,
        ..row
    }
}

/// `db` after a connected pad of `snapshot` was looked up: nothing happens if its
/// uid is known; under a stable uid it takes over the first row of its model
/// whose pad is not connected; otherwise it gets a row of its own.
pub open spec fn admit_pad(db: Seq<Pad>, conn: Pad, snapshot: Seq<Pad>) -> Seq<Pad> {
    let at = slot(db, conn, snapshot, 0);
    if knows(db, conn.uid) {
        db
    } else if !is_volatile(conn.uid) && at < db.len() {
        db.update(at, adopted(db[at], conn))
    } else {
        db.push(Pad { status: GamepadStatus::Connected, ..conn })
    }
}

/// `db` after the pads `connected` of `snapshot` were looked up in order.
pub open spec fn admitted(db: Seq<Pad>, connected: Seq<Pad>, snapshot: Seq<Pad>) -> Seq<Pad>
    decreases connected.len(),
{
    if connected.len() == 0 {
        db
    } else {
        admit_pad(admitted(db, connected.drop_last(), snapshot), connected.last(), snapshot)
    }
}

/// Whether one of the pads `connected` of `snapshot` was unknown when its turn
/// came.
pub open spec fn admission_changes(
    db: Seq<Pad>,
    connected: Seq<Pad>,
    snapshot: Seq<Pad>,
) -> bool
    decreases connected.len(),
{
    connected.len() > 0 && (admission_changes(db, connected.drop_last(), snapshot) || !knows(
        admitted(db, connected.drop_last(), snapshot),
        connected.last().uid,
    ))
}

/// The database after one snapshot of the connected pads.
pub open spec fn reconciled(db: Seq<Pad>, connected: Seq<Pad>) -> Seq<Pad> {
    admitted(refreshed(db, connected), connected, connected)
}

/// Whether the snapshot gave reason to save the database.
pub open spec fn reconcile_changes(db: Seq<Pad>, connected: Seq<Pad>) -> bool {
    refresh_changes(db, connected) || admission_changes(
        refreshed(db, connected),
        connected,
        connected,
    )
}

/// A uid that is the path of a sysfs input node. Such paths are assigned anew
/// at every enumeration, so that two sessions of one pad have different ones.
pub fn is_volatile_uid(uid: &str) -> (r: bool)
    ensures
        r == is_volatile(uid@),
{
    starts_with(uid, "/sys/")
}

fn position_of_uid(list: &[GamepadInfo], uid: &String) -> (r: usize)
    ensures
        r <= list@.len(),
        r < list@.len() ==> list@[r as int].uid@ == uid@ && first_with_uid(pads(list@), uid@)
            == Some(list@[r as int]@) && knows(pads(list@), uid@),
        r == list@.len() ==> first_with_uid(pads(list@), uid@) is None && !knows(
            pads(list@),
            uid@,
        ),
{
    let mut i: usize = 0;
    assert(pads(list@).skip(0) =~= pads(list@));
    while i < list.len()
        invariant
            i <= list@.len(),
            forall|j: int| 0 <= j < i ==> (#[trigger] pads(list@)[j]).uid != uid@,
            first_with_uid(pads(list@), uid@) == first_with_uid(pads(list@).skip(i as int), uid@),
        decreases list@.len() - i,
    {
        assert(pads(list@).skip(i as int)[0] == list@[i as int]@);
        assert(pads(list@).skip(i as int).drop_first() =~= pads(list@).skip(i + 1));
        if list[i].uid == *uid {
            assert(pads(list@)[i as int].uid == uid@);
            return i;
        }
        i = i + 1;
    }
    i
}

/// Brings the rows of the database up to date and drops the session rows of
/// pads that are gone. Returns whether anything changed.
fn refresh_rows(remembered: &mut Vec<GamepadInfo>, connected: &[GamepadInfo]) -> (r: bool)
    ensures
        pads(final(remembered)@) == refreshed(pads(old(remembered)@), pads(connected@)),
        r == refresh_changes(pads(old(remembered)@), pads(connected@)),
{
    let ghost db = pads(remembered@);
    let ghost conn = pads(connected@);
    let mut changed = false;
    let mut rows: Vec<GamepadInfo> = Vec::new();
    let mut i: usize = 0;
    while i < remembered.len()
        invariant
            i <= remembered@.len(),
            db == pads(remembered@),
            conn == pads(connected@),
            pads(rows@) == refreshed(db.take(i as int), conn),
            changed == refresh_changes(db.take(i as int), conn),
        decreases remembered@.len() - i,
    {
        let rem = &remembered[i];
        let ghost rows_before = rows@;
        let ghost changed_before = changed;
        proof {
            assert(rem@ == db[i as int]);
            assert(db.take(i + 1).drop_last() =~= db.take(i as int));
            assert(db.take(i + 1).last() == db[i as int]);
        }
        let at = position_of_uid(connected, &rem.uid);
        if at < connected.len() {
            let c = &connected[at];
            if rem.status != GamepadStatus::Connected || rem.battery_level != c.battery_level
                || rem.power_status != c.power_status || rem.connection_type != c.connection_type
                || rem.name != c.name {
                changed = true;
            }
            let row = GamepadInfo {
                name: c.name.clone(),
                id: rem.id.clone(),
                uid: rem.uid.clone(),
                status: GamepadStatus::Connected,
                battery_level: c.battery_level,
                connection_type: c.connection_type,
                power_status: c.power_status,
            };
            rows.push(row);
            assert(Some(row@) == refresh(db[i as int], conn));
            assert(pads(rows@) =~= pads(rows_before).push(row@));
        } else if is_volatile_uid(rem.uid.as_str()) {
            changed = true;
        } else {
            if rem.status != GamepadStatus::Disconnected {
                changed = true;
            }
            let mut row = rem.clone();
            row.status = GamepadStatus::Disconnected;
            rows.push(row);
            assert(Some(row@) == refresh(db[i as int], conn));
            assert(pads(rows@) =~= pads(rows_before).push(row@));
        }
        proof {
            assert(changed == (changed_before || refresh(db[i as int], conn) != Some(
                db[i as int],
            )));
            let next = db.take(i + 1);
            let cur = db.take(i as int);
            if changed_before {
                let j = choose|j: int|
                    0 <= j < cur.len() && refresh(#[trigger] cur[j], conn) != Some(cur[j]);
                assert(next[j] == cur[j]);
            } else if changed {
                assert(next[i as int] == db[i as int]);
            } else {
                assert forall|j: int| 0 <= j < next.len() implies refresh(
                    #[trigger] next[j],
                    conn,
                ) == Some(next[j]) by {
                    if j < i {
                        assert(cur[j] == next[j]);
                    }
                }
            }
        }
        i = i + 1;
    }
    assert(db.take(db.len() as int) =~= db);
    *remembered = rows;
    changed
}

fn find_slot(db: &Vec<GamepadInfo>, conn: &GamepadInfo, snapshot: &[GamepadInfo]) -> (r: usize)
    ensures
        r <= db@.len(),
        r == slot(pads(db@), conn@, pads(snapshot@), 0),
{
    let mut i: usize = 0;
    while i < db.len()
        invariant
            i <= db@.len(),
            slot(pads(db@), conn@, pads(snapshot@), 0) == slot(
                pads(db@),
                conn@,
                pads(snapshot@),
                i as int,
            ),
        decreases db@.len() - i,
    {
        let row = &db[i];
        assert(pads(db@)[i as int] == row@);
        if row.uid != conn.uid && row.name == conn.name && row.connection_type
            == conn.connection_type && position_of_uid(snapshot, &row.uid) == snapshot.len() {
            return i;
        }
        i = i + 1;
    }
    i
}

/// Looks up one connected pad in the database and gives it a row if it has
/// none. Returns whether it had none.
fn admit_one(
    remembered: &mut Vec<GamepadInfo>,
    conn: &GamepadInfo,
    snapshot: &[GamepadInfo],
) -> (r: bool)
    ensures
        pads(final(remembered)@) == admit_pad(pads(old(remembered)@), conn@, pads(snapshot@)),
        r == !knows(pads(old(remembered)@), conn@.uid),
{
    let ghost db = pads(remembered@);
    if position_of_uid(remembered.as_slice(), &conn.uid) < remembered.len() {
        return false;
    }
    if !is_volatile_uid(conn.uid.as_str()) {
        let at = find_slot(remembered, conn, snapshot);
        if at < remembered.len() {
            let row = GamepadInfo {
                name: remembered[at].name.clone(),
                id: conn.id.clone(),
                uid: conn.uid.clone(),
                status: GamepadStatus::Connected,
                battery_level: conn.battery_level,
                connection_type: remembered[at].connection_type,
                power_status: conn.power_status,
            };
            assert(row@ == adopted(db[at as int], conn@));
            remembered.set(at, row);
            assert(pads(remembered@) =~= db.update(at as int, row@));
            return true;
        }
    }
    let mut entry = conn.clone();
    entry.status = GamepadStatus::Connected;
    remembered.push(entry);
    assert(pads(remembered@) =~= db.push(entry@));
    true
}

/// Reconciles the database of remembered pads in place with one snapshot.
/// Returns `true` when it has to be saved.
///
/// 1. Rows under a stable uid are refreshed in place while connected, and stay as
///    disconnected when not.
/// 2. Rows under a volatile uid last for the session.
/// 3. A connected pad with an unknown stable uid takes over the first row with
///    the same name and connection type whose own pad is not connected: it is
///    that pad under a new identity. Other unknown pads get a new row.
pub fn reconcile(remembered: &mut Vec<GamepadInfo>, connected: &[GamepadInfo]) -> (r: bool)
    ensures
        pads(final(remembered)@) == reconciled(pads(old(remembered)@), pads(connected@)),
        r == reconcile_changes(pads(old(remembered)@), pads(connected@)),
{
    let ghost conn = pads(connected@);
    let mut changed = refresh_rows(remembered, connected);
    let ghost base = pads(remembered@);
    let ghost refreshed_changed = changed;
    let mut i: usize = 0;
    assert(conn.take(0) =~= Seq::<Pad>::empty());
    while i < connected.len()
        invariant
            i <= connected@.len(),
            conn == pads(connected@),
            pads(remembered@) == admitted(base, conn.take(i as int), conn),
            changed == (refreshed_changed || admission_changes(base, conn.take(i as int), conn)),
        decreases connected@.len() - i,
    {
        proof {
            assert(conn.take(i + 1).drop_last() =~= conn.take(i as int));
            assert(conn.take(i + 1).last() == connected@[i as int]@);
        }
        if admit_one(remembered, &connected[i], connected) {
            changed = true;
        }
        i = i + 1;
    }
    assert(conn.take(conn.len() as int) =~= conn);
    changed
}

} // verus!
