use timesync::config::{
    accepted_ntp_versions, accepted_ntp_versions_for_nts, decimal_string, default_accept_ntp_versions,
    default_accepted_ntp_versions, default_ansi_colors, default_concurrent_connections,
    default_key_rotation_interval, default_nts_ke_timeout, default_observation_permissions,
    default_stale_key_count, require_nts_from_bool, require_nts_from_str, FilterAction, GeneralTimestampMode,
    InterfaceTimestampMode, KeysetConfig, NtpVersion, TimestampMode,
};

#[test]
fn defaults() {
    assert!(default_ansi_colors());
    assert_eq!(default_observation_permissions(), 0o666);
    assert_eq!(default_key_rotation_interval(), 86400);
    assert_eq!(default_stale_key_count(), 7);
    assert_eq!(default_nts_ke_timeout(), 1000);
    assert_eq!(default_concurrent_connections(), 512);
    assert_eq!(default_accepted_ntp_versions(), vec![NtpVersion::V3, NtpVersion::V4]);
    assert_eq!(default_accept_ntp_versions(), vec![NtpVersion::V4]);
    let k = KeysetConfig::default();
    assert_eq!(k.stale_key_count, 7);
    assert_eq!(k.key_rotation_interval, 86400);
    assert!(k.key_storage_path.is_none());
}

#[test]
fn timestamp_modes() {
    assert_eq!(TimestampMode::default(), TimestampMode::KernelAll);
    assert_eq!(TimestampMode::Software.as_interface_mode(), InterfaceTimestampMode::Disabled);
    assert_eq!(TimestampMode::Hardware.as_interface_mode(), InterfaceTimestampMode::HardwareAll);
    assert_eq!(TimestampMode::Hardware.as_general_mode(), GeneralTimestampMode::SoftwareAll);
    assert_eq!(TimestampMode::KernelRecv.as_general_mode(), GeneralTimestampMode::SoftwareRecv);
}

#[test]
fn ntp_version_lists() {
    assert_eq!(accepted_ntp_versions(&vec![3, 4, 5]), Ok(vec![NtpVersion::V3, NtpVersion::V4, NtpVersion::V5]));
    assert_eq!(
        accepted_ntp_versions(&vec![4, 17]),
        Err("17 is not a valid NTP version, version must be 4 and/or 5".to_string())
    );
    assert_eq!(accepted_ntp_versions_for_nts(&vec![5, 4]), Ok(vec![NtpVersion::V5, NtpVersion::V4]));
    assert_eq!(
        accepted_ntp_versions_for_nts(&vec![4, 3]),
        Err("Ntp version 3 does not support NTS!".to_string())
    );
    assert_eq!(accepted_ntp_versions(&vec![]), Ok(vec![]));
}

#[test]
fn decimal_numbers() {
    assert_eq!(decimal_string(0), "0");
    assert_eq!(decimal_string(7), "7");
    assert_eq!(decimal_string(42), "42");
    assert_eq!(decimal_string(255), "255");
}

#[test]
fn require_nts_settings() {
    assert_eq!(require_nts_from_str("ignore"), Ok(Some(FilterAction::Ignore)));
    assert_eq!(require_nts_from_str("deny"), Ok(Some(FilterAction::Deny)));
    assert_eq!(
        require_nts_from_str("allow"),
        Err("unknown variant `allow`, expected `ignore` or `deny`".to_string())
    );
    assert_eq!(require_nts_from_bool(true), Some(FilterAction::Ignore));
    assert_eq!(require_nts_from_bool(false), None);
}
