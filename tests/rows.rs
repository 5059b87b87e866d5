use sqlite_dataset_manager::identity::{DatasetError, DatasetKind};
use sqlite_dataset_manager::ip::{ip_to_vec8, Ip};
use sqlite_dataset_manager::model::{Key, Value};
use sqlite_dataset_manager::rows::decode_snapshot;
use sqlite_dataset_manager::sql::{plan_transaction, plan_update, scan_statement, schema_statements, Cell};
use sqlite_dataset_manager::{Entry, GeoRecord, Update};

fn text(s: &str) -> Cell {
    Cell::Text(String::from(s))
}

#[test]
fn list_rows_gather_by_key_in_order() {
    let rows = vec![
        vec![text("alice"), text("admin")],
        vec![text("alice"), text("oncall")],
        vec![text("bob"), text("dev")],
        vec![text("carol"), Cell::Null],
    ];
    let s = decode_snapshot(DatasetKind::TextMapList, &rows).unwrap();
    assert_eq!(s.len(), 3);
    match s.lookup(&Key::Text(String::from("alice"))) {
        Some(Value::List(v)) => assert_eq!(v, &vec![String::from("admin"), String::from("oncall")]),
        other => panic!("unexpected {:?}", other),
    }
    match s.lookup(&Key::Text(String::from("carol"))) {
        Some(Value::List(v)) => assert!(v.is_empty()),
        other => panic!("unexpected {:?}", other),
    }
}

#[test]
fn ip_rows_decode() {
    let rows = vec![vec![Cell::Blob(ip_to_vec8(&Ip::V4(2020))), text("default_ip")]];
    let s = decode_snapshot(DatasetKind::IpMap, &rows).unwrap();
    match s.lookup(&Key::Ip(Ip::V4(2020))) {
        Some(Value::Text(t)) => assert_eq!(t, "default_ip"),
        other => panic!("unexpected {:?}", other),
    }
    assert!(!s.contains(&Key::Ip(Ip::V4(2021))));
}

#[test]
fn malformed_row_fails_the_scan() {
    let rows = vec![vec![Cell::Blob(vec![1, 2, 3]), text("x")]];
    assert!(matches!(
        decode_snapshot(DatasetKind::IpMap, &rows),
        Err(DatasetError::StorageLoadFailed)
    ));
    let rows = vec![vec![text("a"), Cell::Int(3)]];
    assert!(matches!(
        decode_snapshot(DatasetKind::TextMap, &rows),
        Err(DatasetError::StorageLoadFailed)
    ));
}

#[test]
fn malformed_geo_row_fails_the_scan() {
    let good = vec![
        Cell::Blob(ip_to_vec8(&Ip::V4(0x0A00_0000))),
        Cell::Int(8),
        text("ZZ"),
        text("X"),
        Cell::Int(0),
        Cell::Int(0),
        text("Acme"),
    ];
    let mut bad = good.clone();
    bad[1] = Cell::Int(33);
    let mut short_key = good.clone();
    short_key[0] = Cell::Blob(vec![10, 0, 0]);
    assert!(matches!(
        decode_snapshot(DatasetKind::GeoIp, &vec![bad, good.clone()]),
        Err(DatasetError::StorageLoadFailed)
    ));
    assert!(matches!(
        decode_snapshot(DatasetKind::GeoIp, &vec![short_key]),
        Err(DatasetError::StorageLoadFailed)
    ));
    let s = decode_snapshot(DatasetKind::GeoIp, &vec![good]).unwrap();
    assert_eq!(s.len(), 1);
    assert!(s.contains(&Key::Net(Ip::V4(0x0A00_0000), 8)));
}

#[test]
fn add_plan_for_ip_map() {
    let u = Update::Add(Entry { key: Key::Ip(Ip::V4(1)), value: Value::Text(String::from("h")) });
    let p = plan_update(DatasetKind::IpMap, "IpMac", &u);
    assert_eq!(p.len(), 1);
    assert_eq!(p[0].sql, "INSERT INTO dataset_IpMac (data_key, data_val) VALUES (?1, ?2)");
    assert!(matches!(&p[0].params[0], Cell::Blob(b) if b == &vec![1u8, 0, 0, 0]));
    assert!(matches!(&p[0].params[1], Cell::Text(t) if t == "h"));
}

#[test]
fn add_plan_for_list_inserts_items_in_order() {
    let u = Update::Add(Entry {
        key: Key::Text(String::from("alice")),
        value: Value::List(vec![String::from("admin"), String::from("oncall")]),
    });
    let p = plan_update(DatasetKind::TextMapList, "UserTag", &u);
    assert_eq!(p.len(), 3);
    assert_eq!(p[0].sql, "INSERT INTO dataset_UserTag (data_key) VALUES (?1)");
    assert!(p[1].sql.starts_with("INSERT INTO dataset_list_UserTag"));
    assert!(matches!(&p[1].params[1], Cell::Text(t) if t == "admin"));
    assert!(matches!(&p[2].params[1], Cell::Text(t) if t == "oncall"));
}

#[test]
fn geo_add_plan_has_seven_parameters() {
    let g = GeoRecord {
        country: String::from("ZZ"),
        city: String::from("X"),
        latitude: 0,
        longitude: 0,
        isp: String::from("Acme"),
    };
    let u = Update::Add(Entry { key: Key::Net(Ip::V4(0x0A00_0000), 8), value: Value::Geo(g) });
    let p = plan_update(DatasetKind::GeoIp, "GeoIp", &u);
    assert_eq!(p.len(), 1);
    assert_eq!(p[0].params.len(), 7);
    assert!(matches!(p[0].params[1], Cell::Int(8)));
}

#[test]
fn replace_with_nothing_only_clears() {
    let p = plan_update(DatasetKind::TextMapList, "UserTag", &Update::Replace(vec![]));
    assert_eq!(p.len(), 2);
    assert_eq!(p[0].sql, "DELETE FROM dataset_list_UserTag");
    assert_eq!(p[1].sql, "DELETE FROM dataset_UserTag");
    let p = plan_update(DatasetKind::IpSet, "BlockIp", &Update::Replace(vec![]));
    assert_eq!(p.len(), 1);
    assert_eq!(p[0].sql, "DELETE FROM dataset_BlockIp");
}

#[test]
fn remove_plan_for_network() {
    let p = plan_update(DatasetKind::IpNet, "IpCloudService", &Update::Remove(Key::Net(Ip::V4(5), 24)));
    assert_eq!(p.len(), 1);
    assert_eq!(p[0].sql, "DELETE FROM dataset_IpCloudService WHERE data_key = ?1 AND network = ?2");
    assert_eq!(p[0].params.len(), 2);
}

#[test]
fn schema_and_scan_text() {
    let s = schema_statements(DatasetKind::IpMapList, "IpDNS");
    assert_eq!(s.len(), 2);
    assert!(s[0].starts_with("CREATE TABLE IF NOT EXISTS dataset_IpDNS "));
    assert!(s[1].starts_with("CREATE TABLE IF NOT EXISTS dataset_list_IpDNS "));
    assert_eq!(scan_statement(DatasetKind::TextSet, "BlockDomain"), "SELECT data_key FROM dataset_BlockDomain ORDER BY data_key");
}

fn net_entry(ip: Ip, p: u8, label: &str) -> Entry {
    Entry { key: Key::Net(ip, p), value: Value::Text(String::from(label)) }
}

fn label_of(s: &sqlite_dataset_manager::Snapshot, ip: Ip) -> Option<String> {
    match s.lookup_address(ip) {
        Some(Value::Text(t)) => Some(t.clone()),
        Some(other) => panic!("unexpected {:?}", other),
        None => None,
    }
}

#[test]
fn longest_prefix_wins() {
    let s = sqlite_dataset_manager::Snapshot {
        kind: DatasetKind::IpNet,
        entries: vec![
            net_entry(Ip::V4(0x0A00_0000), 8, "ten"),
            net_entry(Ip::V4(0x0A01_0000), 16, "ten-one"),
            net_entry(Ip::V4(0), 0, "any"),
            net_entry(Ip::V6(0x2001_0db8 << 96), 32, "doc6"),
        ],
    };
    assert_eq!(label_of(&s, Ip::V4(0x0A01_0203)), Some(String::from("ten-one")));
    assert_eq!(label_of(&s, Ip::V4(0x0A02_0203)), Some(String::from("ten")));
    assert_eq!(label_of(&s, Ip::V4(0xC0A8_0001)), Some(String::from("any")));
    assert_eq!(label_of(&s, Ip::V6((0x2001_0db8 << 96) | 5)), Some(String::from("doc6")));
    assert_eq!(label_of(&s, Ip::V6(1)), None);
}

#[test]
fn host_prefix_matches_only_itself() {
    let s = sqlite_dataset_manager::Snapshot {
        kind: DatasetKind::IpNet,
        entries: vec![net_entry(Ip::V4(0x0102_0304), 32, "host")],
    };
    assert_eq!(label_of(&s, Ip::V4(0x0102_0304)), Some(String::from("host")));
    assert_eq!(label_of(&s, Ip::V4(0x0102_0305)), None);
}

#[test]
fn rows_out_of_key_order_fail_the_scan() {
    let rows = vec![vec![text("b"), text("1")], vec![text("a"), text("2")]];
    assert!(matches!(
        decode_snapshot(DatasetKind::TextMap, &rows),
        Err(DatasetError::StorageLoadFailed)
    ));
    let rows = vec![vec![text("a"), text("1")], vec![text("a"), text("2")]];
    assert!(matches!(
        decode_snapshot(DatasetKind::TextMap, &rows),
        Err(DatasetError::StorageLoadFailed)
    ));
}

#[test]
fn sorted_lookup_over_many_keys() {
    let rows: Vec<Vec<Cell>> = (0..500u32)
        .map(|i| vec![text(&format!("k{:05}", i)), text(&format!("v{}", i))])
        .collect();
    let s = decode_snapshot(DatasetKind::TextMap, &rows).unwrap();
    assert_eq!(s.len(), 500);
    for i in [0u32, 1, 250, 498, 499] {
        match s.lookup(&Key::Text(format!("k{:05}", i))) {
            Some(Value::Text(t)) => assert_eq!(t, &format!("v{}", i)),
            other => panic!("unexpected {:?}", other),
        }
    }
    assert!(s.lookup(&Key::Text(String::from("k"))).is_none());
    assert!(s.lookup(&Key::Text(String::from("k99999"))).is_none());
}

#[test]
fn transaction_wraps_the_plan() {
    let u = Update::Remove(Key::Text(String::from("alice")));
    let p = plan_transaction(DatasetKind::TextMapList, "UserTag", &u);
    assert_eq!(p.len(), 4);
    assert_eq!(p[0].sql, "BEGIN");
    assert!(p[1].sql.starts_with("DELETE FROM dataset_list_UserTag"));
    assert_eq!(p[2].sql, "DELETE FROM dataset_UserTag WHERE data_key = ?1");
    assert_eq!(p[3].sql, "COMMIT");
    assert!(p[0].params.is_empty() && p[3].params.is_empty());
}
