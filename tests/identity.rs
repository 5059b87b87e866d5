use sqlite_dataset_manager::identity::{valid_name, DatasetError, DatasetKind, DatasetType};

#[test]
fn kinds_of_well_known_identities() {
    assert_eq!(DatasetType::GeoIp.kind(), Ok(DatasetKind::GeoIp));
    assert_eq!(DatasetType::IpMac.kind(), Ok(DatasetKind::IpMap));
    assert_eq!(DatasetType::IpDNS.kind(), Ok(DatasetKind::IpMapList));
    assert_eq!(DatasetType::BlockIp.kind(), Ok(DatasetKind::IpSet));
    assert_eq!(DatasetType::BlockDomain.kind(), Ok(DatasetKind::TextSet));
    assert_eq!(DatasetType::UserTag.kind(), Ok(DatasetKind::TextMapList));
    assert_eq!(DatasetType::HostVulnerable.kind(), Ok(DatasetKind::TextMapList));
    assert_eq!(DatasetType::IpCloudService.kind(), Ok(DatasetKind::IpNet));
    assert_eq!(DatasetType::Configuration.kind(), Ok(DatasetKind::TextMap));
}

#[test]
fn kinds_of_custom_identities() {
    let n = || String::from("tenant42_users");
    assert_eq!(DatasetType::CustomMapText(n()).kind(), Ok(DatasetKind::TextMap));
    assert_eq!(DatasetType::CustomIpList(n()).kind(), Ok(DatasetKind::IpSet));
    assert_eq!(DatasetType::CustomMapIpNet(n()).kind(), Ok(DatasetKind::IpNet));
    assert_eq!(DatasetType::CustomIpMap(n()).kind(), Ok(DatasetKind::IpMap));
    assert_eq!(DatasetType::CustomMapTextList(n()).kind(), Ok(DatasetKind::TextMapList));
    assert_eq!(DatasetType::CustomTextList(n()).kind(), Ok(DatasetKind::TextSet));
    assert_eq!(DatasetType::Secrets(n()).kind(), Ok(DatasetKind::TextMap));
}

#[test]
fn unsupported_identities_have_no_kind() {
    assert_eq!(DatasetType::I18n.kind(), Err(DatasetError::UnknownKind));
    assert_eq!(DatasetType::CorrelationRules.kind(), Err(DatasetError::UnknownKind));
    assert_eq!(DatasetType::I18n.table_name(), Err(DatasetError::UnknownKind));
}

#[test]
fn table_names() {
    assert_eq!(DatasetType::IpMac.table_name(), Ok(String::from("IpMac")));
    assert_eq!(DatasetType::BlockEmailSender.table_name(), Ok(String::from("BlockEmailSender")));
    assert_eq!(
        DatasetType::CustomMapText(String::from("tenant42_users")).table_name(),
        Ok(String::from("tenant42_users"))
    );
}

#[test]
fn invalid_custom_names_are_rejected() {
    for bad in ["", "a-b", "x; DROP TABLE t", "caf\u{e9}", "sp ace"] {
        assert_eq!(
            DatasetType::CustomMapText(String::from(bad)).table_name(),
            Err(DatasetError::InvalidName)
        );
    }
    assert_eq!(
        DatasetType::CustomIpList(String::from("GeoIp")).table_name(),
        Err(DatasetError::InvalidName)
    );
    assert_eq!(
        DatasetType::Secrets(String::from("Configuration")).table_name(),
        Err(DatasetError::InvalidName)
    );
}

#[test]
fn name_characters() {
    assert!(valid_name("Az09_"));
    assert!(!valid_name(""));
    assert!(!valid_name("a.b"));
}

#[test]
fn identities_compare_by_tag_and_name() {
    let a = DatasetType::CustomMapText(String::from("a"));
    assert!(a == DatasetType::CustomMapText(String::from("a")));
    assert!(a != DatasetType::CustomMapText(String::from("b")));
    assert!(a != DatasetType::Secrets(String::from("a")));
    assert!(DatasetType::IpMac == DatasetType::IpMac);
    assert!(DatasetType::IpMac != DatasetType::IpDNS);
}
