use pristimer::device::{
    arrange_devices, extract_mac, scan_blocking, served_from_cache, DeviceCache, Gate,
    RefreshOutcome,
};
use pristimer::insight::{
    clip_tooltip, device_line, mask_key, tray_device_items, BatterySource, BtDevice, BtStatus,
    DeviceKind, QuotaConfig, DEFAULT_ENDPOINT, TOOLTIP_MAX_CHARS,
};
use std::time::{Duration, Instant};

fn sample(name: &str, battery: Option<u8>) -> BtDevice {
    BtDevice {
        id: format!("id:{name}"),
        name: name.into(),
        kind: DeviceKind::Classic,
        battery_percent: battery,
        battery_source: BatterySource::ClassicSdp,
        is_audio: true,
    }
}

fn dev(name: &str, kind: DeviceKind, battery: Option<u8>) -> BtDevice {
    BtDevice {
        id: format!("id-{name}"),
        name: name.to_string(),
        kind,
        battery_percent: battery,
        battery_source: if battery.is_some() {
            BatterySource::BleBas
        } else {
            BatterySource::Unavailable
        },
        is_audio: false,
    }
}

#[test]
fn throttle_returns_cached_without_rescanning() {
    let cache = DeviceCache::with_state(
        Some(BtStatus::Connected {
            devices: vec![sample("测试设备", Some(70))],
        }),
        Some(Instant::now()),
        Duration::from_secs(3600),
    );

    let (status, gate) = cache.force();
    assert_eq!(gate, Gate::Throttled, "a fresh cache is served without a scan");
    match status {
        BtStatus::Connected { devices } => {
            assert_eq!(devices.len(), 1);
            assert_eq!(devices[0].battery_percent, Some(70));
        }
        other => panic!("expected the cached value, got {other:?}"),
    }
}

#[test]
fn cached_never_triggers_a_scan() {
    let cache = DeviceCache::without_throttle();
    assert!(cache.cached().is_none());
    assert!(cache.cached().is_none(), "a repeated read still does not scan");
}

#[test]
fn extracts_device_mac_not_uuid_fragment() {
    let cases = [
        (
            r"\\?\BTHLEDevice#{0000180f-0000-1000-8000-00805f9b34fb}_Dev_VID&01373b_PID&1116_REV&0121_dff86fc482df#8&36409825&0&000e#{6e3bb679-4372-40c8-9eaa-4509df260cd8}",
            "dff86fc482df",
        ),
        (
            r"\\?\BTHLEDevice#{0000180f-0000-1000-8000-00805f9b34fb}_Dev_VID&023554_PID&fa07_REV&6701_ea07cc75ce24#8&17c90489&0&000f#{6e3bb679-4372-40c8-9eaa-4509df260cd8}",
            "ea07cc75ce24",
        ),
        (
            r"\\?\BTHLEDevice#{0000180f-0000-1000-8000-00805f9b34fb}_Dev_VID&02248a_PID&8266_REV&0001_d10069b91a2c#8&f0d03c6&0&000c#{0000180f-0000-1000-8000-00805f9b34fb}",
            "d10069b91a2c",
        ),
    ];
    for (id, want) in cases {
        let got = extract_mac(id).map(|v| format!("{v:012x}"));
        assert_eq!(got.as_deref(), Some(want), "failed on {id}");
        assert_ne!(got.as_deref(), Some("00805f9b34fb"), "took the UUID fragment");
    }
}

#[test]
fn gate_opens_after_interval() {
    let cache = DeviceCache::with_state(
        Some(BtStatus::Connected { devices: vec![] }),
        Some(Instant::now() - Duration::from_secs(3600)),
        Duration::from_millis(1),
    );
    let (_, gate) = cache.force();
    assert_eq!(gate, Gate::Open);
}

#[test]
fn unknown_battery_renders_as_words() {
    let status = BtStatus::Connected {
        devices: vec![dev("WH-1000XM5", DeviceKind::Classic, None)],
    };
    let line = device_line(&status);
    assert!(line.contains("电量未知"), "line: {line}");
    assert!(!line.contains("null"));
    assert!(!line.contains("None"));
}

#[test]
fn multiple_devices_are_all_listed() {
    let status = BtStatus::Connected {
        devices: vec![
            dev("耳机", DeviceKind::Classic, Some(80)),
            dev("手环", DeviceKind::Ble, Some(45)),
        ],
    };
    let line = device_line(&status);
    assert!(line.contains("耳机"));
    assert!(line.contains("80%"));
    assert!(line.contains("手环"));
    assert!(line.contains("45%"));
    assert_eq!(tray_device_items(&status).len(), 2);
}

fn tooltip_device_prefix(status: &BtStatus) -> String {
    format!("蓝牙：{}", device_line(status))
}

#[test]
fn empty_device_list_is_not_an_error() {
    let status = BtStatus::Connected { devices: vec![] };
    assert_eq!(device_line(&status), "无已连接设备");
    assert_eq!(tooltip_device_prefix(&status), "蓝牙：无已连接设备");
}

#[test]
fn normalizes_opencode_endpoint() {
    let with_key = |endpoint: &str| QuotaConfig {
        api_key: "oc_sk_test".into(),
        endpoint: endpoint.into(),
    };

    assert_eq!(with_key("").normalized_endpoint(), DEFAULT_ENDPOINT);
    assert_eq!(with_key("   ").normalized_endpoint(), DEFAULT_ENDPOINT);
    assert_eq!(
        with_key("https://opencode.ai/zen/go/v1").normalized_endpoint(),
        DEFAULT_ENDPOINT
    );
    assert_eq!(
        with_key("https://opencode.ai/zen/go/v1/usage/").normalized_endpoint(),
        DEFAULT_ENDPOINT
    );
    assert_eq!(
        with_key("https://my.gw/api/user/self").normalized_endpoint(),
        "https://my.gw/api/user/self"
    );
}

#[test]
fn masks_long_key_keeping_head_and_tail() {
    assert_eq!(mask_key("sk-abcdefghijklmn9f2"), "sk-abc…9f2");
}

#[test]
fn fully_masks_short_key() {
    assert_eq!(mask_key("shortkey"), "••••••••");
    assert_eq!(mask_key("12345678901"), "•••••••••••");
}

#[test]
fn empty_key_masks_to_empty() {
    assert_eq!(mask_key(""), "");
    assert_eq!(mask_key("   "), "");
}

#[test]
fn mask_handles_multibyte_by_chars() {
    let masked = mask_key("密钥密钥密钥密钥密钥密钥密钥");
    assert!(masked.starts_with("密钥密钥密"));
    assert!(masked.ends_with('钥'));
}

#[test]
fn unconfigured_is_not_ready() {
    let config = QuotaConfig::default();
    assert!(!config.is_ready());
    let keyless = QuotaConfig {
        api_key: String::new(),
        endpoint: "https://example.com/usage".into(),
    };
    assert!(!keyless.is_ready());
    let keyed = QuotaConfig {
        api_key: "oc_sk_test".into(),
        endpoint: String::new(),
    };
    assert!(keyed.is_ready());
    let blank = QuotaConfig {
        api_key: "  \t ".into(),
        endpoint: String::new(),
    };
    assert!(!blank.is_ready());
}

#[test]
fn long_tooltips_are_cut_with_an_ellipsis() {
    let many: Vec<BtDevice> = (0..40)
        .map(|i| dev(&format!("很长的设备名称{i:02}"), DeviceKind::Classic, Some(50)))
        .collect();
    let text = format!(
        "PrisTimer\n蓝牙：{}\n额度：{}",
        device_line(&BtStatus::Connected { devices: many }),
        "未配置 API Key"
    );
    let clipped = clip_tooltip(&text);
    assert!(clipped.chars().count() <= TOOLTIP_MAX_CHARS);
    assert_eq!(clipped.chars().count(), TOOLTIP_MAX_CHARS);
    assert!(clipped.ends_with('…'));
    assert_eq!(clip_tooltip("short"), "short");
}

#[test]
fn device_lines_join_entries_with_kind_and_battery() {
    let status = BtStatus::Connected {
        devices: vec![
            dev("耳机", DeviceKind::Classic, Some(80)),
            dev("手环", DeviceKind::Ble, None),
            dev("鼠标", DeviceKind::Dual, Some(100)),
        ],
    };
    assert_eq!(
        device_line(&status),
        "耳机（经典·80%）、手环（BLE·电量未知）、鼠标（双模·100%）"
    );
    assert_eq!(
        tray_device_items(&status),
        vec![
            "  · 耳机 · 经典 · 80%".to_string(),
            "  · 手环 · BLE · 电量未知".to_string(),
            "  · 鼠标 · 双模 · 100%".to_string(),
        ]
    );
}

#[test]
fn error_states_have_their_own_words() {
    assert_eq!(device_line(&BtStatus::PoweredOff), "蓝牙未开启");
    assert_eq!(device_line(&BtStatus::NoAdapter), "无蓝牙适配器");
    assert_eq!(
        device_line(&BtStatus::Error {
            message: "驱动异常".into()
        }),
        "蓝牙读取失败：驱动异常"
    );
    assert_eq!(tray_device_items(&BtStatus::PoweredOff), vec!["蓝牙：未开启".to_string()]);
    assert_eq!(tray_device_items(&BtStatus::NoAdapter), vec!["蓝牙：无适配器".to_string()]);
    assert_eq!(
        tray_device_items(&BtStatus::Error { message: "x".into() }),
        vec!["蓝牙：读取失败（x）".to_string()]
    );
    assert_eq!(
        tray_device_items(&BtStatus::Connected { devices: vec![] }),
        vec!["蓝牙：无已连接设备".to_string()]
    );
}

#[test]
fn throttle_decision_serves_cache_only_within_the_interval() {
    let cached = Some(BtStatus::PoweredOff);
    assert_eq!(served_from_cache(cached.clone(), Some(5), 10), Some(BtStatus::PoweredOff));
    assert_eq!(served_from_cache(cached.clone(), Some(10), 10), None);
    assert_eq!(served_from_cache(cached, None, 10), None);
    assert_eq!(
        served_from_cache(None, Some(0), 10),
        Some(BtStatus::Error {
            message: "查询过于频繁，请稍候".to_string()
        })
    );
}

#[test]
fn a_scan_refills_the_cache_and_throttles_the_next_call() {
    let cache = DeviceCache::new();
    let (first, gate) = cache.force();
    assert_eq!(gate, Gate::Open);
    assert_eq!(first, scan_blocking());
    assert_eq!(cache.cached(), Some(BtStatus::NoAdapter));
    let (second, gate) = cache.force();
    assert_eq!(gate, Gate::Throttled);
    assert_eq!(second, BtStatus::NoAdapter);
    assert_eq!(cache.refresh(), BtStatus::NoAdapter);
}

#[test]
fn mac_falls_back_to_the_first_twelve_digit_run_after_the_brace() {
    assert_eq!(
        extract_mac(r"BTHENUM\{0000110b-0000-1000-8000-00805f9b34fb}_LOCALMFG&0002\7&2b0e3c1a&0&A0B1C2D3E4F5_C00000000"),
        Some(0xA0B1C2D3E4F5)
    );
    assert_eq!(extract_mac("no address here"), None);
    assert_eq!(extract_mac("REV&0001_12345"), None);
    assert_eq!(extract_mac("x_REV&aabbccddeeff#y"), Some(0xaabbccddeeff));
    assert_eq!(extract_mac("REV&aabbccddeeff0"), None);
}

#[test]
fn dedups_same_named_devices_keeping_higher_battery() {
    fn dev(name: &str, mac: &str, level: u8) -> BtDevice {
        BtDevice {
            id: format!("battery-node:{mac}"),
            name: name.to_string(),
            kind: DeviceKind::Ble,
            battery_percent: Some(level),
            battery_source: BatterySource::BleBas,
            is_audio: false,
        }
    }

    let input = vec![
        dev("AULA-SC580SE", "d10069b91a2c", 57),
        dev("AULA-SC580SE", "d10769b91a2c", 40),
        dev("ATK A9 Nearlink", "dff86fc482df", 35),
    ];
    let out = arrange_devices(input);

    assert_eq!(out.len(), 2, "same-named devices merge into one");
    let aula = out.iter().find(|d| d.name == "AULA-SC580SE").unwrap();
    assert_eq!(aula.battery_percent, Some(57), "the higher battery level is kept");
}

#[test]
fn devices_are_listed_named_first_then_by_battery_stably() {
    let mut unnamed = dev("", DeviceKind::Ble, Some(99));
    unnamed.id = "x".into();
    let mut unnamed2 = dev("", DeviceKind::Ble, Some(99));
    unnamed2.id = "y".into();
    let input = vec![
        unnamed.clone(),
        dev("b", DeviceKind::Ble, None),
        dev("a", DeviceKind::Ble, Some(20)),
        unnamed2.clone(),
        dev("c", DeviceKind::Ble, Some(20)),
        dev("a", DeviceKind::Ble, Some(80)),
    ];
    let out = arrange_devices(input);
    let order: Vec<(&str, Option<u8>, &str)> = out
        .iter()
        .map(|d| (d.name.as_str(), d.battery_percent, d.id.as_str()))
        .collect();
    assert_eq!(
        order,
        vec![
            ("a", Some(80), "id-a"),
            ("c", Some(20), "id-c"),
            ("b", None, "id-b"),
            ("", Some(99), "x"),
            ("", Some(99), "y"),
        ]
    );
}

#[test]
fn refresh_outcomes_say_whether_the_throttle_answered() {
    let held = RefreshOutcome::from_query(BtStatus::PoweredOff, Gate::Throttled);
    assert!(held.throttled);
    assert_eq!(held.bluetooth, BtStatus::PoweredOff);
    let scanned = RefreshOutcome::from_query(BtStatus::NoAdapter, Gate::Open);
    assert!(!scanned.throttled);
    assert_eq!(scanned.bluetooth, BtStatus::NoAdapter);
}
