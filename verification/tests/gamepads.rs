use lapsphere::gamepad_registry::{
    is_volatile_uid, reconcile, ConnectionType, GamepadInfo, GamepadStatus, PowerStatus,
};

fn pad(uid: &str, name: &str, ct: ConnectionType, status: GamepadStatus) -> GamepadInfo {
    GamepadInfo {
        name: name.to_string(),
        id: "inputX".to_string(),
        uid: uid.to_string(),
        status,
        battery_level: Some(77),
        connection_type: ct,
        power_status: PowerStatus::Discharging,
    }
}

#[test]
fn startup_sweep_removes_disconnected_volatile_rows_only() {
    let mut db = vec![
        pad(
            "/sys/class/input/input38",
            "Wireless Controller",
            ConnectionType::Wireless,
            GamepadStatus::Disconnected,
        ),
        pad(
            "f4939fdd9ec9",
            "Wireless Controller",
            ConnectionType::Wireless,
            GamepadStatus::Disconnected,
        ),
        pad(
            "/sys/class/input/input41",
            "Wireless Controller",
            ConnectionType::Wireless,
            GamepadStatus::Disconnected,
        ),
    ];
    assert!(reconcile(&mut db, &[]));
    assert_eq!(db.len(), 1);
    assert_eq!(db[0].uid, "f4939fdd9ec9");
}

#[test]
fn reconnecting_volatile_pad_never_grows_database() {
    let mut db = vec![];
    // Session 1: pad enumerated as input38.
    assert!(reconcile(
        &mut db,
        &[pad(
            "/sys/class/input/input38",
            "Wireless Controller",
            ConnectionType::Wireless,
            GamepadStatus::Connected,
        )]
    ));
    assert_eq!(db.len(), 1);
    // Pad disconnects: session-scoped row must vanish, not linger.
    assert!(reconcile(&mut db, &[]));
    assert!(db.is_empty());
    // Session 2: same physical pad, kernel assigned input51.
    assert!(reconcile(
        &mut db,
        &[pad(
            "/sys/class/input/input51",
            "Wireless Controller",
            ConnectionType::Wireless,
            GamepadStatus::Connected,
        )]
    ));
    assert_eq!(db.len(), 1);
    assert_eq!(db[0].uid, "/sys/class/input/input51");
}

#[test]
fn stable_entries_keep_persisting_across_disconnect() {
    let mut db = vec![pad(
        "f4939fdd9ec9",
        "Wireless Controller",
        ConnectionType::Wireless,
        GamepadStatus::Connected,
    )];
    assert!(reconcile(&mut db, &[]));
    assert_eq!(db.len(), 1);
    assert_eq!(db[0].status, GamepadStatus::Disconnected);
}

#[test]
fn newly_resolved_stable_uid_adopts_matching_row() {
    // First session resolved only an ID_PATH-style uid; a later session
    // resolves the real MAC for the same physical pad.
    let mut db = vec![pad(
        "pci-0000:05:00.4-usb-0:2:1.0",
        "Wireless Controller",
        ConnectionType::Wireless,
        GamepadStatus::Disconnected,
    )];
    assert!(reconcile(
        &mut db,
        &[pad(
            "f4939fdd9ec9",
            "Wireless Controller",
            ConnectionType::Wireless,
            GamepadStatus::Connected,
        )]
    ));
    assert_eq!(db.len(), 1, "must adopt, not duplicate");
    assert_eq!(db[0].uid, "f4939fdd9ec9");
    assert_eq!(db[0].status, GamepadStatus::Connected);
}

#[test]
fn no_change_reports_false() {
    let mut db = vec![pad(
        "stable",
        "Pad",
        ConnectionType::Wired,
        GamepadStatus::Connected,
    )];
    let snap = vec![pad(
        "stable",
        "Pad",
        ConnectionType::Wired,
        GamepadStatus::Connected,
    )];
    assert!(!reconcile(&mut db, &snap));
}

#[test]
fn volatile_uids_are_sysfs_paths() {
    assert!(is_volatile_uid("/sys/class/input/input3"));
    assert!(!is_volatile_uid("/dev/input/js0"));
    assert!(!is_volatile_uid("f4939fdd9ec9"));
    assert!(!is_volatile_uid(""));
}

#[test]
fn rows_show_what_the_snapshot_says() {
    let mut db = vec![pad("a", "Pad", ConnectionType::Wired, GamepadStatus::Disconnected)];
    let mut now = pad("a", "Pad", ConnectionType::Wired, GamepadStatus::Connected);
    now.battery_level = Some(12);
    now.power_status = PowerStatus::Charging;
    assert!(reconcile(&mut db, &[now]));
    assert_eq!(db.len(), 1);
    assert_eq!(db[0].battery_level, Some(12));
    assert_eq!(db[0].power_status, PowerStatus::Charging);
    assert_eq!(db[0].status, GamepadStatus::Connected);
}

#[test]
fn repeated_snapshot_changes_nothing() {
    let snapshot = || {
        vec![
            pad("a", "One", ConnectionType::Wired, GamepadStatus::Connected),
            pad("/sys/x", "Two", ConnectionType::Wireless, GamepadStatus::Connected),
        ]
    };
    let mut db = vec![];
    assert!(reconcile(&mut db, &snapshot()));
    assert_eq!(db.len(), 2);
    assert!(!reconcile(&mut db, &snapshot()));
    assert_eq!(db.len(), 2);
}

#[test]
fn each_uid_has_one_row() {
    let mut db = vec![];
    let twice = [
        pad("a", "One", ConnectionType::Wired, GamepadStatus::Connected),
        pad("a", "One", ConnectionType::Wired, GamepadStatus::Connected),
    ];
    reconcile(&mut db, &twice);
    assert_eq!(db.len(), 1);
}

fn controller(uid: &str) -> GamepadInfo {
    pad(uid, "Wireless Controller", ConnectionType::Wireless, GamepadStatus::Connected)
}

fn uids(db: &[GamepadInfo]) -> Vec<&str> {
    db.iter().map(|p| p.uid.as_str()).collect()
}

#[test]
fn two_connected_pads_of_one_model_have_a_row_each() {
    let mut db = vec![controller("aaa")];
    let snapshot = [controller("aaa"), controller("bbb")];
    assert!(reconcile(&mut db, &snapshot));
    assert_eq!(uids(&db), ["aaa", "bbb"]);
    assert!(db.iter().all(|p| p.status == GamepadStatus::Connected));
    assert!(!reconcile(&mut db, &snapshot));
    assert_eq!(uids(&db), ["aaa", "bbb"]);

    let mut empty = vec![];
    assert!(reconcile(&mut empty, &[controller("bbb"), controller("aaa")]));
    assert_eq!(uids(&empty), ["bbb", "aaa"]);
}

#[test]
fn only_a_row_whose_pad_is_gone_is_taken_over() {
    let mut db = vec![controller("aaa"), controller("bbb"), controller("ccc")];
    let snapshot = [controller("new"), controller("aaa")];
    assert!(reconcile(&mut db, &snapshot));
    assert_eq!(uids(&db), ["aaa", "new", "ccc"]);
    assert_eq!(db[0].status, GamepadStatus::Connected);
    assert_eq!(db[1].status, GamepadStatus::Connected);
    assert_eq!(db[2].status, GamepadStatus::Disconnected);
    assert!(!reconcile(&mut db, &snapshot));
}

#[test]
fn pads_of_one_session_do_not_lose_their_row() {
    let mut db = vec![controller("/sys/class/input/input7")];
    let snapshot = [controller("/sys/class/input/input7"), controller("aaa")];
    assert!(reconcile(&mut db, &snapshot));
    assert_eq!(uids(&db), ["/sys/class/input/input7", "aaa"]);
}
