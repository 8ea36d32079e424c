//! The ambient-information panel: connected Bluetooth devices and the
//! opencode-go quota, and the single source of the text that the status bar,
//! the tray tooltip and the tray menu show for them.

use crate::text::{
    chars_of, contains_seq, decimal, find_seq, has_prefix, push_char, push_decimal, push_range,
    str_trim, trimmed,
};
use vstd::prelude::*;

verus! {

/// Bluetooth device transport.
#[derive(Debug, Clone, Copy, PartialEq, Eq, Structural)]
pub enum DeviceKind {
    /// BR/EDR: headphones, speakers, keyboards.
    Classic,
    /// Bluetooth Low Energy: bands, watches, sensors.
    Ble,
    /// Both.
    Dual,
}

/// The short label of a device kind.
pub open spec fn kind_label(kind: DeviceKind) -> Seq<char> {
    match kind {
        DeviceKind::Classic => "经典"@,
        DeviceKind::Ble => "BLE"@,
        DeviceKind::Dual => "双模"@,
    }
}

impl DeviceKind {
    /// A very short label for one-line displays.
    pub fn short(self) -> (s: &'static str)
        ensures
            s@ == kind_label(self),
    {
        match self {
            DeviceKind::Classic => "经典",
            DeviceKind::Ble => "BLE",
            DeviceKind::Dual => "双模",
        }
    }
}

/// Where a battery level came from.
#[derive(Debug, Clone, Copy, PartialEq, Eq, Structural)]
pub enum BatterySource {
    /// GATT Battery Service level (the device reports a percentage).
    BleBas,
    /// The Battery Level attribute of a classic device's SDP record.
    ClassicSdp,
    /// The system's PnP battery property (trusted for audio devices only).
    SystemPnp,
    /// Not read.
    Unavailable,
}

/// A connected Bluetooth device.
#[derive(Debug, Clone, PartialEq, Eq)]
pub struct BtDevice {
    /// Stable identifier (the PnP instance id on Windows).
    pub id: String,
    /// Display name; unnamed devices are given a placeholder name.
    pub name: String,
    pub kind: DeviceKind,
    /// 0-100, or `None` when unreadable (never a fake 0).
    pub battery_percent: Option<u8>,
    pub battery_source: BatterySource,
    /// Headphones, speakers, car kits.
    pub is_audio: bool,
}

/// The Bluetooth subsystem's state; failures are data, not errors.
#[derive(Debug, Clone, PartialEq, Eq)]
pub enum BtStatus {
    /// Working (the list of connected devices; empty means none is connected).
    Connected { devices: Vec<BtDevice> },
    /// The radio is off.
    PoweredOff,
    /// No adapter.
    NoAdapter,
    /// The query failed.
    Error { message: String },
}

/// How a battery level reads.
pub open spec fn battery_text(level: Option<u8>) -> Seq<char> {
    match level {
        Some(p) => decimal(p as nat) + "%"@,
        None => "电量未知"@,
    }
}

/// One device in the one-line summary: `name（kind·battery）`.
pub open spec fn device_entry(d: BtDevice) -> Seq<char> {
    d.name@ + "（"@ + kind_label(d.kind) + "·"@ + battery_text(d.battery_percent) + "）"@
}

/// The entries of `devices` joined by `、`.
pub open spec fn joined_entries(devices: Seq<BtDevice>) -> Seq<char>
    decreases devices.len(),
{
    if devices.len() == 0 {
        Seq::empty()
    } else if devices.len() == 1 {
        device_entry(devices[0])
    } else {
        joined_entries(devices.drop_last()) + "、"@ + device_entry(devices.last())
    }
}

/// The one-line Bluetooth summary.
pub open spec fn device_line_text(status: BtStatus) -> Seq<char> {
    match status {
        BtStatus::Connected { devices } => if devices@.len() == 0 {
            "无已连接设备"@
        } else {
            joined_entries(devices@)
        },
        BtStatus::PoweredOff => "蓝牙未开启"@,
        BtStatus::NoAdapter => "无蓝牙适配器"@,
        BtStatus::Error { message } => "蓝牙读取失败："@ + message@,
    }
}

fn push_battery(s: &mut String, level: Option<u8>)
    ensures
        final(s)@ == old(s)@ + battery_text(level),
{
    match level {
        Some(p) => {
            push_decimal(s, p as u64);
            s.append("%");
        },
        None => s.append("电量未知"),
    }
}

fn push_entry(s: &mut String, d: &BtDevice)
    ensures
        final(s)@ == old(s)@ + device_entry(*d),
{
    s.append(d.name.as_str());
    s.append("（");
    s.append(d.kind.short());
    s.append("·");
    push_battery(s, d.battery_percent);
    s.append("）");
    assert(s@ =~= old(s)@ + device_entry(*d));
}

/// The one-line Bluetooth summary shared by the status bar, the tray tooltip
/// and the tray menu: every device with kind and battery, joined by `、`.
pub fn device_line(status: &BtStatus) -> (s: String)
    ensures
        s@ == device_line_text(*status),
{
    match status {
        BtStatus::Connected { devices } => {
            if devices.len() == 0 {
                return String::from_str("无已连接设备");
            }
            let mut s = String::new();
            let n = devices.len();
            let mut i: usize = 0;
            while i < n
                invariant
                    n == devices@.len(),
                    0 < n,
                    i <= n,
                    s@ == joined_entries(devices@.subrange(0, i as int)),
                decreases n - i,
            {
                let ghost before = s@;
                if i > 0 {
                    s.append("、");
                }
                push_entry(&mut s, &devices[i]);
                proof {
                    let prefix = devices@.subrange(0, i + 1);
                    assert(prefix.drop_last() =~= devices@.subrange(0, i as int));
                    assert(prefix.last() == devices@[i as int]);
                    if i == 0 {
                        assert(before =~= Seq::<char>::empty());
                        assert(s@ =~= device_entry(devices@[0]));
                    }
                }
                i = i + 1;
            }
            assert(devices@.subrange(0, n as int) =~= devices@);
            s
        },
        BtStatus::PoweredOff => String::from_str("蓝牙未开启"),
        BtStatus::NoAdapter => String::from_str("无蓝牙适配器"),
        BtStatus::Error { message } => {
            let mut s = String::from_str("蓝牙读取失败：");
            s.append(message.as_str());
            s
        },
    }
}

/// One device as a tray menu entry.
pub open spec fn tray_entry(d: BtDevice) -> Seq<char> {
    "  · "@ + d.name@ + " · "@ + kind_label(d.kind) + " · "@ + battery_text(d.battery_percent)
}

/// The tray menu entries for the Bluetooth section.
pub open spec fn tray_item_texts(status: BtStatus) -> Seq<Seq<char>> {
    match status {
        BtStatus::Connected { devices } => if devices@.len() == 0 {
            seq!["蓝牙：无已连接设备"@]
        } else {
            devices@.map_values(|d: BtDevice| tray_entry(d))
        },
        BtStatus::PoweredOff => seq!["蓝牙：未开启"@],
        BtStatus::NoAdapter => seq!["蓝牙：无适配器"@],
        BtStatus::Error { message } => seq!["蓝牙：读取失败（"@ + message@ + "）"@],
    }
}

/// The Bluetooth section of the tray menu: one entry per device.
pub fn tray_device_items(status: &BtStatus) -> (items: Vec<String>)
    ensures
        items@.map_values(|s: String| s@) == tray_item_texts(*status),
{
    let mut items: Vec<String> = Vec::new();
    match status {
        BtStatus::Connected { devices } => {
            if devices.len() == 0 {
                items.push(String::from_str("蓝牙：无已连接设备"));
            } else {
                let n = devices.len();
                let mut i: usize = 0;
                while i < n
                    invariant
                        n == devices@.len(),
                        i <= n,
                        items@.len() == i,
                        forall|j: int| 0 <= j < i ==> (#[trigger] items@[j])@ == tray_entry(
                            devices@[j],
                        ),
                    decreases n - i,
                {
                    let d = &devices[i];
                    let mut s = String::from_str("  · ");
                    s.append(d.name.as_str());
                    s.append(" · ");
                    s.append(d.kind.short());
                    s.append(" · ");
                    push_battery(&mut s, d.battery_percent);
                    assert(s@ =~= tray_entry(*d));
                    items.push(s);
                    i = i + 1;
                }
            }
        },
        BtStatus::PoweredOff => items.push(String::from_str("蓝牙：未开启")),
        BtStatus::NoAdapter => items.push(String::from_str("蓝牙：无适配器")),
        BtStatus::Error { message } => {
            let mut s = String::from_str("蓝牙：读取失败（");
            s.append(message.as_str());
            s.append("）");
            items.push(s);
        },
    }
    assert(items@.map_values(|s: String| s@) =~= tray_item_texts(*status));
    items
}

/// The longest tray tooltip, in characters: longer tooltips make the Windows
/// shell drop the tooltip altogether.
pub const TOOLTIP_MAX_CHARS: usize = 120;

/// The tooltip text cut to the limit, ending in `…` when cut.
pub open spec fn clipped(text: Seq<char>) -> Seq<char> {
    if text.len() > TOOLTIP_MAX_CHARS {
        text.subrange(0, TOOLTIP_MAX_CHARS - 1) + seq!['…']
    } else {
        text
    }
}

/// Cuts a tooltip to at most [`TOOLTIP_MAX_CHARS`] characters.
pub fn clip_tooltip(text: &str) -> (s: String)
    ensures
        s@ == clipped(text@),
        s@.len() <= TOOLTIP_MAX_CHARS,
{
    let chars = chars_of(text);
    let mut s = String::new();
    if chars.len() > TOOLTIP_MAX_CHARS {
        push_range(&mut s, &chars, 0, TOOLTIP_MAX_CHARS - 1);
        push_char(&mut s, '…');
    } else {
        push_range(&mut s, &chars, 0, chars.len());
        assert(chars@.subrange(0, chars@.len() as int) =~= chars@);
    }
    assert(s@ =~= clipped(text@));
    s
}

// ---------------------------------------------------------------------------
// The quota endpoint configuration.
// ---------------------------------------------------------------------------

/// The opencode Go usage endpoint used when none is configured.
pub const DEFAULT_ENDPOINT: &'static str = "https://opencode.ai/zen/go/v1/usage";

/// The opencode gateway root, which users often enter without `/usage`.
pub const OPENCODE_GATEWAY_ROOT: &'static str = "https://opencode.ai/zen/go";

/// The settings key under which the quota configuration is stored.
pub const SETTINGS_KEY: &'static str = "quotaconfig";

/// API key and endpoint of the quota query.
#[derive(Debug, Clone, PartialEq, Eq)]
pub struct QuotaConfig {
    /// Empty when not configured.
    pub api_key: String,
    /// Empty for the built-in endpoint.
    pub endpoint: String,
}

impl Default for QuotaConfig {
    fn default() -> (c: Self)
        ensures
            c.api_key@.len() == 0,
            c.endpoint@.len() == 0,
    {
        QuotaConfig { api_key: String::new(), endpoint: String::new() }
    }
}

/// `s` without trailing `/`.
pub open spec fn strip_slashes(s: Seq<char>) -> Seq<char>
    decreases s.len(),
{
    if s.len() > 0 && s.last() == '/' {
        strip_slashes(s.drop_last())
    } else {
        s
    }
}

/// The endpoint actually queried: the trimmed input without trailing `/`;
/// empty means the built-in endpoint; an opencode gateway address without
/// `/usage` gets `/usage` appended; any other address is kept.
pub open spec fn normalized_endpoint_text(endpoint: Seq<char>) -> Seq<char> {
    let t = strip_slashes(trimmed(endpoint));
    if t.len() == 0 {
        DEFAULT_ENDPOINT@
    } else if has_prefix(t, OPENCODE_GATEWAY_ROOT@) && !contains_seq(t, "/usage"@) {
        t + "/usage"@
    } else {
        t
    }
}

impl QuotaConfig {
    /// Configured once a key is set (the endpoint may stay empty).
    pub fn is_ready(&self) -> (r: bool)
        ensures
            r == (trimmed(self.api_key@).len() > 0),
    {
        !str_trim(self.api_key.as_str()).is_empty()
    }

    /// The endpoint that is actually requested.
    pub fn normalized_endpoint(&self) -> (s: String)
        ensures
            s@ == normalized_endpoint_text(self.endpoint@),
    {
        let chars = chars_of(str_trim(self.endpoint.as_str()));
        let mut end = chars.len();
        assert(chars@.subrange(0, chars@.len() as int) =~= chars@);
        while end > 0 && chars[end - 1] == '/'
            invariant
                end <= chars.len(),
                strip_slashes(chars@.subrange(0, end as int)) == strip_slashes(chars@),
            decreases end,
        {
            assert(chars@.subrange(0, end as int).drop_last() =~= chars@.subrange(0, end - 1));
            end = end - 1;
        }
        assert(chars@.subrange(0, chars@.len() as int) =~= chars@);
        let ghost t = chars@.subrange(0, end as int);
        assert(strip_slashes(t) == t);
        if end == 0 {
            return String::from_str(DEFAULT_ENDPOINT);
        }
        let mut s = String::new();
        push_range(&mut s, &chars, 0, end);
        assert(s@ =~= t);
        let root = chars_of(OPENCODE_GATEWAY_ROOT);
        let mut starts = root.len() <= end;
        if starts {
            let mut k: usize = 0;
            while k < root.len()
                invariant
                    root.len() <= end <= chars.len(),
                    k <= root.len(),
                    starts == forall|j: int| 0 <= j < k ==> chars@[j] == root@[j],
                decreases root.len() - k,
            {
                if chars[k] != root[k] {
                    starts = false;
                }
                k = k + 1;
            }
            assert(starts == (t.subrange(0, root@.len() as int) =~= root@));
        }
        assert(starts == has_prefix(t, OPENCODE_GATEWAY_ROOT@));
        if starts {
            let head = string_of_chars_prefix(&chars, end);
            let usage = chars_of("/usage");
            let found = find_seq(&head, &usage);
            if found.is_none() {
                s.append("/usage");
            } else {
                proof {
                    let at = found->0 as int;
                    assert(crate::text::occurs_at(t, "/usage"@, at));
                }
            }
        }
        s
    }
}

/// `chars[..end]` as a vector.
fn string_of_chars_prefix(chars: &Vec<char>, end: usize) -> (v: Vec<char>)
    requires
        end <= chars.len(),
    ensures
        v@ == chars@.subrange(0, end as int),
{
    let mut v: Vec<char> = Vec::new();
    let mut i: usize = 0;
    while i < end
        invariant
            end <= chars.len(),
            i <= end,
            v@ == chars@.subrange(0, i as int),
        decreases end - i,
    {
        v.push(chars[i]);
        assert(chars@.subrange(0, i + 1) =~= chars@.subrange(0, i as int).push(chars@[i as int]));
        i = i + 1;
    }
    v
}

/// The key shown back in the settings panel: empty stays empty, a key
/// shorter than 12 characters is fully masked, a longer one keeps its first
/// 6 and last 3 characters around `…`.
pub open spec fn masked_key(key: Seq<char>) -> Seq<char> {
    let k = trimmed(key);
    if k.len() == 0 {
        Seq::empty()
    } else if k.len() < 12 {
        Seq::new(k.len(), |i: int| '•')
    } else {
        k.subrange(0, 6) + seq!['…'] + k.subrange(k.len() - 3, k.len() as int)
    }
}

/// Masks an API key for display (counting characters, not bytes).
pub fn mask_key(key: &str) -> (s: String)
    ensures
        s@ == masked_key(key@),
{
    let chars = chars_of(str_trim(key));
    let n = chars.len();
    let mut s = String::new();
    if n == 0 {
        return s;
    }
    if n < 12 {
        let mut i: usize = 0;
        while i < n
            invariant
                i <= n,
                s@ == Seq::new(i as nat, |j: int| '•'),
            decreases n - i,
        {
            push_char(&mut s, '•');
            assert(s@ =~= Seq::new((i + 1) as nat, |j: int| '•'));
            i = i + 1;
        }
        return s;
    }
    push_range(&mut s, &chars, 0, 6);
    push_char(&mut s, '…');
    push_range(&mut s, &chars, n - 3, n);
    assert(s@ =~= masked_key(key@));
    s
}

} // verus!
