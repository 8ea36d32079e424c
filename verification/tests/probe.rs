use pristimer::insight::{BatterySource, DeviceKind};
use pristimer::probe::{
    device_connected, device_kind, display_name, is_battery_value_name, pick_battery,
    registry_battery_level, REG_DWORD, REG_SZ,
};

#[test]
fn transport_follows_the_handles_that_opened() {
    assert_eq!(device_kind(true, true, "x"), DeviceKind::Dual);
    assert_eq!(device_kind(true, false, "x"), DeviceKind::Ble);
    assert_eq!(device_kind(false, true, "BTHLE\\DEV_1"), DeviceKind::Classic);
    assert_eq!(device_kind(false, false, "BTHLE\\DEV_AABBCCDDEEFF\\7&1"), DeviceKind::Ble);
    assert_eq!(device_kind(false, false, "BTHENUM\\{0000110b}"), DeviceKind::Classic);
}

#[test]
fn connection_prefers_the_low_energy_status() {
    assert!(device_connected(Some(true), Some(false)));
    assert!(!device_connected(Some(false), Some(true)));
    assert!(device_connected(None, Some(true)));
    assert!(!device_connected(None, None));
}

#[test]
fn names_fall_back_in_order() {
    assert_eq!(display_name("Buds".into(), Some("C".into()), Some("B".into())), "Buds");
    assert_eq!(display_name(String::new(), Some("C".into()), Some("B".into())), "C");
    assert_eq!(display_name(String::new(), None, Some("B".into())), "B");
    assert_eq!(display_name(String::new(), Some(String::new()), Some("B".into())), "未知设备");
    assert_eq!(display_name(String::new(), None, None), "未知设备");
}

#[test]
fn battery_sources_are_tried_in_order() {
    assert_eq!(pick_battery(Some(80), Some(50), Some(20)), (Some(80), BatterySource::SystemPnp));
    assert_eq!(pick_battery(None, Some(50), Some(20)), (Some(50), BatterySource::BleBas));
    assert_eq!(pick_battery(None, None, Some(20)), (Some(20), BatterySource::ClassicSdp));
    assert_eq!(pick_battery(None, None, None), (None, BatterySource::Unavailable));
}

#[test]
fn battery_value_names_are_matched_in_any_case() {
    assert!(is_battery_value_name("SystemPowerOnPercent"));
    assert!(is_battery_value_name("BatteryLevel"));
    assert!(is_battery_value_name("POWERLEVEL"));
    assert!(!is_battery_value_name("LastConnected"));
}

fn utf16(text: &str) -> Vec<u8> {
    text.encode_utf16().flat_map(|u| u.to_le_bytes()).collect()
}

#[test]
fn registry_levels_decode_dword_and_text() {
    assert_eq!(registry_battery_level(REG_DWORD, &vec![85, 0, 0, 0]), Some(85));
    assert_eq!(registry_battery_level(REG_DWORD, &vec![101, 0, 0, 0]), None);
    assert_eq!(registry_battery_level(REG_DWORD, &vec![85, 0]), None);
    assert_eq!(registry_battery_level(REG_SZ, &utf16("85")), Some(85));
    assert_eq!(registry_battery_level(REG_SZ, &utf16(" 100\t")), Some(100));
    assert_eq!(registry_battery_level(REG_SZ, &utf16("+7")), Some(7));
    assert_eq!(registry_battery_level(REG_SZ, &utf16("-0")), Some(0));
    assert_eq!(registry_battery_level(REG_SZ, &utf16("-5")), None);
    assert_eq!(registry_battery_level(REG_SZ, &utf16("abc")), None);
    assert_eq!(registry_battery_level(REG_SZ, &utf16("  ")), None);
    let mut odd = utf16("42");
    odd.push(0x33);
    assert_eq!(registry_battery_level(REG_SZ, &odd), Some(42));
    assert_eq!(registry_battery_level(REG_SZ, &utf16("123456789")), None);
    assert_eq!(registry_battery_level(REG_SZ, &vec![]), None);
    assert_eq!(registry_battery_level(3, &vec![1, 2, 3, 4]), None);
}
