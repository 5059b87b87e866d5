use sqlite_dataset_manager::manager::{decide_flush, next_tally, DrainEvent, DrainTally};
use sqlite_dataset_manager::storage::end_transaction;
use sqlite_dataset_manager::Snapshot;
use sqlite_dataset_manager::model::{Key, Value};
use sqlite_dataset_manager::{
    DatasetError, DatasetKind, DatasetType, Entry, GeoRecord, Ip, SqliteDatasetManager, Update,
};

const T0: i64 = 1_000_000;
const LATER: i64 = T0 + 6000;

fn manager_with(id: DatasetType) -> SqliteDatasetManager {
    let mut m = SqliteDatasetManager::debug().unwrap();
    m.register_dataset_at(id, T0).unwrap();
    m
}

fn text(s: &str) -> String {
    String::from(s)
}

fn add(key: Key, value: Value) -> Update {
    Update::Add(Entry { key, value })
}

#[test]
fn ip_map_add_and_read() {
    let mut m = manager_with(DatasetType::IpMac);
    let s = m.sender_for(&DatasetType::IpMac).unwrap();
    s.send(add(Key::Ip(Ip::V4(2020)), Value::Text(text("default_ip"))), 100).unwrap();
    assert_eq!(m.tick(LATER, false).unwrap().republished, 1);
    let snap = m.get(&DatasetType::IpMac).unwrap();
    assert_eq!(snap.kind, DatasetKind::IpMap);
    match snap.lookup(&Key::Ip(Ip::V4(2020))) {
        Some(Value::Text(t)) => assert_eq!(t, "default_ip"),
        other => panic!("unexpected {:?}", other),
    }
    assert!(snap.lookup(&Key::Ip(Ip::V4(2021))).is_none());
}

#[test]
fn text_set_block_list() {
    let mut m = manager_with(DatasetType::BlockDomain);
    let s = m.sender_for(&DatasetType::BlockDomain).unwrap();
    s.send(add(Key::Text(text("evil.example")), Value::Empty), 100).unwrap();
    s.send(add(Key::Text(text("bad.test")), Value::Empty), 100).unwrap();
    s.send(Update::Remove(Key::Text(text("evil.example"))), 100).unwrap();
    m.tick(LATER, false).unwrap();
    let snap = m.get(&DatasetType::BlockDomain).unwrap();
    assert_eq!(snap.len(), 1);
    assert!(snap.contains(&Key::Text(text("bad.test"))));
    assert!(!snap.contains(&Key::Text(text("evil.example"))));
}

#[test]
fn text_map_list_keeps_order() {
    let mut m = manager_with(DatasetType::UserTag);
    let s = m.sender_for(&DatasetType::UserTag).unwrap();
    s.send(add(Key::Text(text("alice")), Value::List(vec![text("admin"), text("oncall")])), 100).unwrap();
    s.send(add(Key::Text(text("bob")), Value::List(vec![text("dev")])), 100).unwrap();
    m.tick(LATER, false).unwrap();
    let snap = m.get(&DatasetType::UserTag).unwrap();
    match snap.lookup(&Key::Text(text("alice"))) {
        Some(Value::List(v)) => assert_eq!(v, &vec![text("admin"), text("oncall")]),
        other => panic!("unexpected {:?}", other),
    }
    match snap.lookup(&Key::Text(text("bob"))) {
        Some(Value::List(v)) => assert_eq!(v, &vec![text("dev")]),
        other => panic!("unexpected {:?}", other),
    }
}

#[test]
fn geo_ip_add_then_remove() {
    let mut m = manager_with(DatasetType::GeoIp);
    let s = m.sender_for(&DatasetType::GeoIp).unwrap();
    let rec = GeoRecord {
        country: text("ZZ"),
        city: text("X"),
        latitude: 0,
        longitude: 0,
        isp: text("Acme"),
    };
    let key = Key::Net(Ip::V4(0x0A00_0000), 8);
    s.send(add(key.clone(), Value::Geo(rec)), 100).unwrap();
    m.tick(LATER, false).unwrap();
    let snap = m.get(&DatasetType::GeoIp).unwrap();
    match snap.lookup(&key) {
        Some(Value::Geo(g)) => {
            assert_eq!(g.country, "ZZ");
            assert_eq!(g.city, "X");
            assert_eq!(g.isp, "Acme");
            assert_eq!((g.latitude, g.longitude), (0, 0));
        }
        other => panic!("unexpected {:?}", other),
    }
    match snap.lookup_address(Ip::V4(0x0A01_0203)) {
        Some(Value::Geo(g)) => assert_eq!(g.country, "ZZ"),
        other => panic!("unexpected {:?}", other),
    }
    assert!(snap.lookup_address(Ip::V4(0x0B00_0000)).is_none());
    s.send(Update::Remove(key), 100).unwrap();
    m.tick(LATER + 6000, false).unwrap();
    assert_eq!(m.get(&DatasetType::GeoIp).unwrap().len(), 0);
}

#[test]
fn debounce_collapses_updates_into_one_rebuild() {
    let mut m = manager_with(DatasetType::IpMac);
    let s = m.sender_for(&DatasetType::IpMac).unwrap();
    for i in 0..100u32 {
        s.send(add(Key::Ip(Ip::V4(i)), Value::Text(format!("IP:{}", i))), 100).unwrap();
    }
    let early = m.tick(T0 + 1000, false).unwrap();
    assert_eq!(early.republished, 0);
    assert_eq!(early.applied, vec![0]);
    assert_eq!(early.refused, vec![0]);
    assert_eq!(m.rebuilds(), 0);
    assert_eq!(m.get(&DatasetType::IpMac).unwrap().len(), 0);
    let report = m.tick(LATER, false).unwrap();
    assert_eq!(report.republished, 1);
    assert_eq!(report.applied, vec![100]);
    assert_eq!(m.rebuilds(), 1);
    let snap = m.get(&DatasetType::IpMac).unwrap();
    assert_eq!(snap.len(), 100);
    match snap.lookup(&Key::Ip(Ip::V4(42))) {
        Some(Value::Text(t)) => assert_eq!(t, "IP:42"),
        other => panic!("unexpected {:?}", other),
    }
}

#[test]
fn persistence_across_managers() {
    let path = String::from("/tmp/sqlite_dataset_manager_persistence_test.db");
    {
        let mut m = SqliteDatasetManager::new(path.clone()).unwrap();
        m.register_dataset_at(DatasetType::Configuration, T0).unwrap();
        let s = m.sender_for(&DatasetType::Configuration).unwrap();
        s.send(add(Key::Text(text("k")), Value::Text(text("v"))), 100).unwrap();
        m.tick(LATER, false).unwrap();
        m.stop().unwrap();
    }
    let mut m = SqliteDatasetManager::new(path).unwrap();
    m.register_dataset_at(DatasetType::Configuration, T0).unwrap();
    let snap = m.get(&DatasetType::Configuration).unwrap();
    match snap.lookup(&Key::Text(text("k"))) {
        Some(Value::Text(t)) => assert_eq!(t, "v"),
        other => panic!("unexpected {:?}", other),
    }
}

#[test]
fn registering_twice_changes_nothing() {
    let mut m = manager_with(DatasetType::HostUser);
    let s = m.sender_for(&DatasetType::HostUser).unwrap();
    s.send(add(Key::Text(text("h")), Value::Text(text("u"))), 100).unwrap();
    m.tick(LATER, false).unwrap();
    assert_eq!(m.last_flush_of(&DatasetType::HostUser), Some(LATER));
    assert_eq!(m.version_of(&DatasetType::HostUser), Some(1));
    assert_eq!(m.register_dataset_at(DatasetType::HostUser, LATER + 99), Ok(()));
    assert_eq!(m.dataset_count(), 1);
    assert_eq!(m.last_flush_of(&DatasetType::HostUser), Some(LATER));
    assert_eq!(m.version_of(&DatasetType::HostUser), Some(1));
    assert_eq!(m.get(&DatasetType::HostUser).unwrap().len(), 1);
}

#[test]
fn replace_with_empty_dataset_empties_snapshot() {
    let mut m = manager_with(DatasetType::BlockIp);
    let s = m.sender_for(&DatasetType::BlockIp).unwrap();
    s.send(add(Key::Ip(Ip::V4(7)), Value::Empty), 100).unwrap();
    s.send(add(Key::Ip(Ip::V6(8)), Value::Empty), 100).unwrap();
    m.tick(LATER, false).unwrap();
    assert_eq!(m.get(&DatasetType::BlockIp).unwrap().len(), 2);
    s.send(Update::Replace(vec![]), 100).unwrap();
    m.tick(LATER + 6000, false).unwrap();
    assert_eq!(m.get(&DatasetType::BlockIp).unwrap().len(), 0);
}

#[test]
fn replace_swaps_whole_contents() {
    let mut m = manager_with(DatasetType::IpDNS);
    let s = m.sender_for(&DatasetType::IpDNS).unwrap();
    s.send(add(Key::Ip(Ip::V4(1)), Value::List(vec![text("a.example")])), 100).unwrap();
    m.tick(LATER, false).unwrap();
    let fresh = vec![Entry {
        key: Key::Ip(Ip::V4(2)),
        value: Value::List(vec![text("b.example"), text("c.example")]),
    }];
    s.send(Update::Replace(fresh), 100).unwrap();
    m.tick(LATER + 6000, false).unwrap();
    let snap = m.get(&DatasetType::IpDNS).unwrap();
    assert_eq!(snap.len(), 1);
    assert!(!snap.contains(&Key::Ip(Ip::V4(1))));
    match snap.lookup(&Key::Ip(Ip::V4(2))) {
        Some(Value::List(v)) => assert_eq!(v, &vec![text("b.example"), text("c.example")]),
        other => panic!("unexpected {:?}", other),
    }
}

#[test]
fn full_inbox_reports_backpressure() {
    let m = manager_with(DatasetType::BlockCountry);
    let s = m.sender_for(&DatasetType::BlockCountry).unwrap();
    for i in 0..128 {
        s.send(add(Key::Text(format!("c{}", i)), Value::Empty), 100).unwrap();
    }
    let r = s.send(add(Key::Text(text("late")), Value::Empty), 20);
    assert_eq!(r, Err(DatasetError::Backpressure));
}

#[test]
fn nothing_is_lost_after_backpressure() {
    let mut m = manager_with(DatasetType::BlockCountry);
    let s = m.sender_for(&DatasetType::BlockCountry).unwrap();
    for i in 0..128 {
        s.send(add(Key::Text(format!("c{}", i)), Value::Empty), 100).unwrap();
    }
    assert_eq!(s.send(add(Key::Text(text("late")), Value::Empty), 20), Err(DatasetError::Backpressure));
    m.tick(LATER, false).unwrap();
    assert_eq!(m.get(&DatasetType::BlockCountry).unwrap().len(), 128);
    s.send(add(Key::Text(text("late")), Value::Empty), 20).unwrap();
    m.tick(LATER + 6000, false).unwrap();
    assert_eq!(m.get(&DatasetType::BlockCountry).unwrap().len(), 129);
}

#[test]
fn refused_update_is_dropped_and_counted() {
    let mut m = manager_with(DatasetType::MacHost);
    let s = m.sender_for(&DatasetType::MacHost).unwrap();
    s.send(add(Key::Text(text("mac")), Value::Text(text("one"))), 100).unwrap();
    s.send(add(Key::Text(text("mac")), Value::Text(text("two"))), 100).unwrap();
    let report = m.tick(LATER, false).unwrap();
    assert_eq!(report.applied, vec![1]);
    assert_eq!(report.refused, vec![1]);
    assert_eq!(m.failed_updates(), 1);
    match m.get(&DatasetType::MacHost).unwrap().lookup(&Key::Text(text("mac"))) {
        Some(Value::Text(t)) => assert_eq!(t, "one"),
        other => panic!("unexpected {:?}", other),
    }
}

#[test]
fn ip_network_dataset() {
    let mut m = manager_with(DatasetType::IpCloudService);
    let s = m.sender_for(&DatasetType::IpCloudService).unwrap();
    s.send(add(Key::Net(Ip::V6(0x2001_0db8 << 96), 32), Value::Text(text("svc"))), 100).unwrap();
    m.tick(LATER, false).unwrap();
    let snap = m.get(&DatasetType::IpCloudService).unwrap();
    assert!(snap.contains(&Key::Net(Ip::V6(0x2001_0db8 << 96), 32)));
    assert!(!snap.contains(&Key::Net(Ip::V6(0x2001_0db8 << 96), 48)));
}

#[test]
fn stop_flushes_regardless_of_window() {
    let mut m = manager_with(DatasetType::Configuration);
    let s = m.sender_for(&DatasetType::Configuration).unwrap();
    s.send(add(Key::Text(text("a")), Value::Text(text("b"))), 100).unwrap();
    assert_eq!(m.tick(T0 + 1, true).unwrap().republished, 1);
    assert_eq!(m.get(&DatasetType::Configuration).unwrap().len(), 1);
}

#[test]
fn sender_checks_update_shape() {
    let m = manager_with(DatasetType::IpMac);
    let s = m.sender_for(&DatasetType::IpMac).unwrap();
    assert_eq!(s.kind(), DatasetKind::IpMap);
    assert!(s.accepts(&add(Key::Ip(Ip::V4(1)), Value::Text(text("x")))));
    assert!(!s.accepts(&add(Key::Text(text("x")), Value::Text(text("x")))));
    assert!(!s.accepts(&add(Key::Ip(Ip::V4(1)), Value::Empty)));
}

#[test]
fn unknown_and_unregistered_identities() {
    let mut m = SqliteDatasetManager::in_memory().unwrap();
    assert_eq!(m.register_dataset_at(DatasetType::I18n, T0), Err(DatasetError::UnknownKind));
    assert_eq!(
        m.register_dataset_at(DatasetType::CustomMapText(text("no-dash")), T0),
        Err(DatasetError::InvalidName)
    );
    assert!(matches!(m.sender_for(&DatasetType::IpMac), Err(DatasetError::NotRegistered)));
    assert!(m.get(&DatasetType::IpMac).is_none());
    assert_eq!(m.dataset_count(), 0);
}

#[test]
fn versions_grow_with_each_rebuild() {
    let mut m = manager_with(DatasetType::AssetTag);
    let s = m.sender_for(&DatasetType::AssetTag).unwrap();
    assert_eq!(m.version_of(&DatasetType::AssetTag), Some(0));
    s.send(add(Key::Text(text("h1")), Value::List(vec![text("web_server")])), 100).unwrap();
    m.tick(LATER, false).unwrap();
    assert_eq!(m.version_of(&DatasetType::AssetTag), Some(1));
    m.tick(LATER + 6000, false).unwrap();
    assert_eq!(m.version_of(&DatasetType::AssetTag), Some(1));
    s.send(Update::Remove(Key::Text(text("h1"))), 100).unwrap();
    m.tick(LATER + 12000, false).unwrap();
    assert_eq!(m.version_of(&DatasetType::AssetTag), Some(2));
    assert_eq!(m.get(&DatasetType::AssetTag).unwrap().len(), 0);
}

#[test]
fn custom_dataset_round_trip() {
    let id = DatasetType::CustomMapText(text("tenant42_users"));
    let mut m = manager_with(id.clone());
    let s = m.sender_for(&id).unwrap();
    s.send(add(Key::Text(text("u")), Value::Text(text("alice"))), 100).unwrap();
    m.tick(LATER, false).unwrap();
    assert!(m.get(&id).unwrap().contains(&Key::Text(text("u"))));
}

#[test]
fn nothing_applied_means_nothing_republished() {
    let mut m = manager_with(DatasetType::HostUser);
    let s = m.sender_for(&DatasetType::HostUser).unwrap();
    s.send(add(Key::Text(text("h")), Value::Text(text("u"))), 100).unwrap();
    m.tick(LATER, false).unwrap();
    s.send(add(Key::Text(text("h")), Value::Text(text("again"))), 100).unwrap();
    let report = m.tick(LATER + 6000, false).unwrap();
    assert_eq!(report.applied, vec![0]);
    assert_eq!(report.refused, vec![1]);
    assert_eq!(report.republished, 0);
    assert_eq!(m.failed_updates(), 1);
    assert_eq!(m.version_of(&DatasetType::HostUser), Some(1));
    assert_eq!(m.last_flush_of(&DatasetType::HostUser), Some(LATER));
}

#[test]
fn stop_drains_every_dataset() {
    let mut m = manager_with(DatasetType::BlockDomain);
    m.register_dataset_at(DatasetType::HostUser, T0).unwrap();
    let a = m.sender_for(&DatasetType::BlockDomain).unwrap();
    let b = m.sender_for(&DatasetType::HostUser).unwrap();
    a.send(add(Key::Text(text("x.test")), Value::Empty), 100).unwrap();
    b.send(add(Key::Text(text("h")), Value::Text(text("u"))), 100).unwrap();
    let report = m.stop().unwrap();
    assert_eq!(report.applied, vec![1, 1]);
    assert_eq!(report.republished, 2);
    assert_eq!(m.get(&DatasetType::BlockDomain).unwrap().len(), 1);
    assert_eq!(m.get(&DatasetType::HostUser).unwrap().len(), 1);
}

#[test]
fn decide_flush_cases() {
    let snap = || Snapshot::empty(DatasetKind::TextSet);
    assert_eq!(decide_flush(true, 3, Some(Ok(snap()))).err(), Some(DatasetError::ChannelClosed));
    assert!(matches!(decide_flush(false, 0, None), Ok(None)));
    assert!(matches!(decide_flush(false, 2, Some(Ok(snap()))), Ok(Some(_))));
    assert_eq!(
        decide_flush(false, 2, Some(Err(DatasetError::StorageLoadFailed))).err(),
        Some(DatasetError::StorageLoadFailed)
    );
    assert_eq!(decide_flush(false, 2, None).err(), Some(DatasetError::StorageLoadFailed));
}

#[test]
fn drain_tally_steps() {
    let t = DrainTally { applied: 0, refused: 0, disconnected: false, finished: false };
    let t = next_tally(t, DrainEvent::Applied);
    let t = next_tally(t, DrainEvent::Refused);
    let t = next_tally(t, DrainEvent::Applied);
    assert_eq!(t, DrainTally { applied: 2, refused: 1, disconnected: false, finished: false });
    let done = next_tally(t, DrainEvent::Empty);
    assert_eq!(done, DrainTally { applied: 2, refused: 1, disconnected: false, finished: true });
    let closed = next_tally(t, DrainEvent::Disconnected);
    assert!(closed.disconnected && closed.finished);
}

#[test]
fn transaction_end_cases() {
    let (rest, r) = end_transaction(None);
    assert!(rest.is_empty());
    assert_eq!(r, Ok(()));
    let (rest, r) = end_transaction(Some(2));
    assert_eq!(rest, vec![String::from("ROLLBACK")]);
    assert_eq!(r, Err(DatasetError::StorageApplyFailed));
}

#[test]
fn refused_replace_leaves_rows_unchanged() {
    let mut m = manager_with(DatasetType::BlockIp);
    let s = m.sender_for(&DatasetType::BlockIp).unwrap();
    s.send(add(Key::Ip(Ip::V4(1)), Value::Empty), 100).unwrap();
    m.tick(LATER, false).unwrap();
    let dup = vec![
        Entry { key: Key::Ip(Ip::V4(9)), value: Value::Empty },
        Entry { key: Key::Ip(Ip::V4(9)), value: Value::Empty },
    ];
    s.send(Update::Replace(dup), 100).unwrap();
    s.send(add(Key::Ip(Ip::V4(2)), Value::Empty), 100).unwrap();
    let report = m.tick(LATER + 6000, false).unwrap();
    assert_eq!(report.refused, vec![1]);
    assert_eq!(report.applied, vec![1]);
    let snap = m.get(&DatasetType::BlockIp).unwrap();
    assert_eq!(snap.len(), 2);
    assert!(snap.contains(&Key::Ip(Ip::V4(1))));
    assert!(snap.contains(&Key::Ip(Ip::V4(2))));
    assert!(!snap.contains(&Key::Ip(Ip::V4(9))));
}
