//! The decisions taken while reading one Bluetooth device: its transport,
//! whether it counts as connected, its display name, which battery reading
//! wins, and how a battery level stored in the Bluetooth stack's registry
//! metadata is decoded.  The platform calls that produce the inputs live
//! with the platform layer.

use crate::insight::{BatterySource, DeviceKind};
use crate::text::{chars_of, contains_seq, find_seq, occurs_at};
use vstd::prelude::*;

verus! {

/// The transport of a device from which handles could be opened: both
/// (dual-mode), only the low-energy one, only the classic one; when neither
/// opens, an id naming the low-energy enumerator (`BTHLE`) means low energy,
/// anything else classic.
pub open spec fn kind_of(ble_opened: bool, classic_opened: bool, raw_id: Seq<char>) -> DeviceKind {
    if ble_opened && classic_opened {
        DeviceKind::Dual
    } else if ble_opened {
        DeviceKind::Ble
    } else if classic_opened {
        DeviceKind::Classic
    } else if contains_seq(raw_id, "BTHLE"@) {
        DeviceKind::Ble
    } else {
        DeviceKind::Classic
    }
}

/// The transport of a device, from which of its handles could be opened.
pub fn device_kind(ble_opened: bool, classic_opened: bool, raw_id: &str) -> (k: DeviceKind)
    ensures
        k == kind_of(ble_opened, classic_opened, raw_id@),
{
    if ble_opened && classic_opened {
        DeviceKind::Dual
    } else if ble_opened {
        DeviceKind::Ble
    } else if classic_opened {
        DeviceKind::Classic
    } else {
        let id = chars_of(raw_id);
        let pat = chars_of("BTHLE");
        match find_seq(&id, &pat) {
            Some(at) => {
                assert(occurs_at(raw_id@, "BTHLE"@, at as int));
                DeviceKind::Ble
            },
            None => DeviceKind::Classic,
        }
    }
}

/// Whether a device counts as connected: the low-energy handle's status
/// when it opened (`Some`), else the classic handle's; a device neither of
/// whose handles opened is a stale pairing record and is not connected.
pub fn device_connected(ble_status: Option<bool>, classic_status: Option<bool>) -> (c: bool)
    ensures
        c == match (ble_status, classic_status) {
            (Some(b), _) => b,
            (None, Some(s)) => s,
            (None, None) => false,
        },
{
    match (ble_status, classic_status) {
        (Some(b), _) => b,
        (None, Some(s)) => s,
        (None, None) => false,
    }
}

/// The name shown for a device nobody named.
pub open spec fn unnamed_text() -> Seq<char> {
    "未知设备"@
}

/// The display name of a device: the enumerated name, else the name its
/// classic handle reports, else the low-energy handle's; empty becomes the
/// unnamed placeholder.
pub open spec fn display_name_of(info: Seq<char>, classic: Option<Seq<char>>, ble: Option<Seq<char>>) -> Seq<char> {
    let name = if info.len() > 0 {
        info
    } else {
        match classic {
            Some(c) => c,
            None => match ble {
                Some(b) => b,
                None => Seq::empty(),
            },
        }
    };
    if name.len() == 0 {
        unnamed_text()
    } else {
        name
    }
}

/// The display name of a device from the names it was read with.
pub fn display_name(info: String, classic: Option<String>, ble: Option<String>) -> (n: String)
    ensures
        n@ == display_name_of(
            info@,
            match classic {
                Some(c) => Some(c@),
                None => None,
            },
            match ble {
                Some(b) => Some(b@),
                None => None,
            },
        ),
{
    let name = if info.as_str().unicode_len() > 0 {
        info
    } else {
        match classic {
            Some(c) => c,
            None => match ble {
                Some(b) => b,
                None => String::new(),
            },
        }
    };
    if name.as_str().unicode_len() == 0 {
        proof {
            reveal_strlit("未知设备");
        }
        String::from_str("未知设备")
    } else {
        name
    }
}

/// The battery reading that wins, with its source: the system's indexed
/// battery property first, then the low-energy Battery Service, then the
/// classic metadata; none at all is "unavailable".
pub fn pick_battery(indexed: Option<u8>, ble: Option<u8>, classic: Option<u8>) -> (r: (Option<u8>, BatterySource))
    ensures
        r == match (indexed, ble, classic) {
            (Some(l), _, _) => (Some(l), BatterySource::SystemPnp),
            (None, Some(l), _) => (Some(l), BatterySource::BleBas),
            (None, None, Some(l)) => (Some(l), BatterySource::ClassicSdp),
            (None, None, None) => (None::<u8>, BatterySource::Unavailable),
        },
{
    match (indexed, ble, classic) {
        (Some(l), _, _) => (Some(l), BatterySource::SystemPnp),
        (None, Some(l), _) => (Some(l), BatterySource::BleBas),
        (None, None, Some(l)) => (Some(l), BatterySource::ClassicSdp),
        (None, None, None) => (None, BatterySource::Unavailable),
    }
}

// ---------------------------------------------------------------------------
// Battery levels in the registry metadata.
// ---------------------------------------------------------------------------

/// `c` with ASCII capitals made small (`char::to_ascii_lowercase`).
pub open spec fn ascii_lower(c: char) -> char {
    if 'A' <= c && c <= 'Z' {
        ((c as u8) + 32) as char
    } else {
        c
    }
}

/// `s` with ASCII capitals made small.
pub open spec fn ascii_lowered(s: Seq<char>) -> Seq<char> {
    Seq::new(s.len(), |i: int| ascii_lower(s[i]))
}

/// Whether a registry value's name suggests a battery level: it mentions
/// `battery`, `percent` or `powerlevel`, in any ASCII case.
pub open spec fn battery_value_name(name: Seq<char>) -> bool {
    let lower = ascii_lowered(name);
    contains_seq(lower, "battery"@) || contains_seq(lower, "percent"@) || contains_seq(
        lower,
        "powerlevel"@,
    )
}

fn lower_char(c: char) -> (l: char)
    ensures
        l == ascii_lower(c),
{
    if 'A' <= c && c <= 'Z' {
        ((c as u8) + 32) as char
    } else {
        c
    }
}

/// Whether a registry value's name suggests a battery level.
pub fn is_battery_value_name(name: &str) -> (r: bool)
    ensures
        r == battery_value_name(name@),
{
    let chars = chars_of(name);
    let mut lower: Vec<char> = Vec::new();
    let n = chars.len();
    for i in 0..n
        invariant
            n == chars@.len(),
            chars@ == name@,
            lower@.len() == i,
            forall|j: int| 0 <= j < i ==> lower@[j] == ascii_lower(chars@[j]),
    {
        lower.push(lower_char(chars[i]));
    }
    assert(lower@ =~= ascii_lowered(name@));
    let battery = chars_of("battery");
    let percent = chars_of("percent");
    let power = chars_of("powerlevel");
    let r = find_seq(&lower, &battery).is_some() || find_seq(&lower, &percent).is_some() || find_seq(
        &lower,
        &power,
    ).is_some();
    r
}

/// The registry type of a 32-bit little-endian number.
pub const REG_DWORD: u32 = 4;

/// The registry type of a UTF-16 text.
pub const REG_SZ: u32 = 1;

/// A UTF-16 code unit that decodes to white space: the Unicode
/// `White_Space` code points, all of which are single units (a surrogate
/// never decodes to white space).
pub open spec fn is_white_unit(u: u16) -> bool {
    (0x09 <= u <= 0x0d) || u == 0x20 || u == 0x85 || u == 0xa0 || u == 0x1680 || (0x2000 <= u
        <= 0x200a) || u == 0x2028 || u == 0x2029 || u == 0x202f || u == 0x205f || u == 0x3000
}

/// The UTF-16 code units of little-endian bytes; a final odd byte is dropped.
pub open spec fn utf16_units(data: Seq<u8>) -> Seq<u16> {
    Seq::new(data.len() / 2, |i: int| (data[2 * i] + data[2 * i + 1] * 256) as u16)
}

/// The first position at or after `i` that is not white space (or the end).
pub open spec fn skip_white(u: Seq<u16>, i: int) -> int
    decreases u.len() - i,
{
    if 0 <= i < u.len() && is_white_unit(u[i]) {
        skip_white(u, i + 1)
    } else {
        i
    }
}

/// The end of `u` before position `j` once trailing white space after `a` is dropped.
pub open spec fn back_white(u: Seq<u16>, j: int, a: int) -> int
    decreases j,
{
    if 0 <= a < j <= u.len() && is_white_unit(u[j - 1]) {
        back_white(u, j - 1, a)
    } else {
        j
    }
}

/// `u` without leading and trailing white space (`str::trim`).
pub open spec fn trimmed_units(u: Seq<u16>) -> Seq<u16> {
    let a = skip_white(u, 0);
    u.subrange(a, back_white(u, u.len() as int, a))
}

/// An ASCII digit.
pub open spec fn is_digit_unit(u: u16) -> bool {
    0x30 <= u <= 0x39
}

/// The number that the ASCII digits `s` spell.
pub open spec fn digits_value(s: Seq<u16>) -> int
    decreases s.len(),
{
    if s.len() == 0 {
        0
    } else {
        digits_value(s.drop_last()) * 10 + (s.last() - 0x30)
    }
}

/// Whether text `t` starts with a sign.
pub open spec fn has_sign(t: Seq<u16>) -> bool {
    t.len() > 0 && (t[0] == 0x2B || t[0] == 0x2D)
}

/// The digits of `t` after its sign, if any.
pub open spec fn unsigned_part(t: Seq<u16>) -> Seq<u16> {
    if has_sign(t) { t.drop_first() } else { t }
}

/// The integer that a short text `t` spells (`str::parse::<i64>`): an
/// optional `+` or `-`, then one or more ASCII digits.
pub open spec fn parsed_integer(t: Seq<u16>) -> Option<int> {
    let body = unsigned_part(t);
    if body.len() > 0 && forall|i: int| 0 <= i < body.len() ==> is_digit_unit(#[trigger] body[i]) {
        Some(if has_sign(t) && t[0] == 0x2D { -digits_value(body) } else { digits_value(body) })
    } else {
        None
    }
}

/// A level when `v` is a percentage.
pub open spec fn as_level(v: int) -> Option<u8> {
    if 0 <= v <= 100 {
        Some(v as u8)
    } else {
        None
    }
}

/// The battery level that a registry value of type `value_type` holding
/// `data` gives: empty or longer than sixteen bytes is no level; a DWORD is
/// a little-endian number; a text (UTF-16) is trimmed and parsed as an
/// integer; either counts only within 0..=100.
pub open spec fn registry_level(value_type: u32, data: Seq<u8>) -> Option<u8> {
    if data.len() == 0 || data.len() > 16 {
        None
    } else if value_type == REG_DWORD {
        if data.len() < 4 {
            None
        } else {
            as_level(data[0] + data[1] * 256 + data[2] * 65536 + data[3] * 16777216)
        }
    } else if value_type == REG_SZ {
        match parsed_integer(trimmed_units(utf16_units(data))) {
            Some(v) => as_level(v),
            None => None,
        }
    } else {
        None
    }
}

fn white_unit(u: u16) -> (r: bool)
    ensures
        r == is_white_unit(u),
{
    (0x09 <= u && u <= 0x0d) || u == 0x20 || u == 0x85 || u == 0xa0 || u == 0x1680 || (0x2000 <= u
        && u <= 0x200a) || u == 0x2028 || u == 0x2029 || u == 0x202f || u == 0x205f || u == 0x3000
}

/// Ten to the `n`.
pub open spec fn pow10(n: nat) -> nat
    decreases n,
{
    if n == 0 {
        1
    } else {
        10 * pow10((n - 1) as nat)
    }
}

proof fn lemma_pow10_le(n: nat)
    requires
        n <= 8,
    ensures
        pow10(n) <= 100_000_000,
{
    reveal_with_fuel(pow10, 9);
    if n == 0 {} else if n == 1 {} else if n == 2 {} else if n == 3 {} else if n == 4 {} else if n == 5 {} else if n == 6 {} else if n == 7 {} else {}
}

/// The value of the digits `units[from..to]`, all of which are ASCII digits
/// (`None` when one is not).
fn digits_in(units: &Vec<u16>, from: usize, to: usize) -> (r: Option<u64>)
    requires
        from <= to <= units.len(),
        to - from <= 8,
    ensures
        r is Some <==> forall|i: int| from <= i < to ==> is_digit_unit(#[trigger] units@[i]),
        r matches Some(v) ==> v == digits_value(units@.subrange(from as int, to as int)),
{
    let mut v: u64 = 0;
    let mut k = from;
    while k < to
        invariant
            from <= k <= to <= units.len(),
            to - from <= 8,
            v == digits_value(units@.subrange(from as int, k as int)),
            v < pow10((k - from) as nat),
            forall|i: int| from <= i < k ==> is_digit_unit(#[trigger] units@[i]),
        decreases to - k,
    {
        let u = units[k];
        if !(0x30 <= u && u <= 0x39) {
            return None;
        }
        proof {
            lemma_pow10_le((k - from) as nat);
            assert(units@.subrange(from as int, k + 1).drop_last() =~= units@.subrange(from as int, k as int));
        }
        v = v * 10 + ((u - 0x30) as u64);
        k = k + 1;
    }
    Some(v)
}

/// The battery level in a registry value of type `value_type` holding `data`.
pub fn registry_battery_level(value_type: u32, data: &Vec<u8>) -> (r: Option<u8>)
    ensures
        r == registry_level(value_type, data@),
{
    let len = data.len();
    if len == 0 || len > 16 {
        return None;
    }
    if value_type == REG_DWORD {
        if len < 4 {
            return None;
        }
        let v: u64 = (data[0] as u64) + (data[1] as u64) * 256 + (data[2] as u64) * 65536 + (data[3] as u64)
            * 16777216;
        return if v <= 100 {
            Some(v as u8)
        } else {
            None
        };
    }
    if value_type != REG_SZ {
        return None;
    }
    let mut units: Vec<u16> = Vec::new();
    let n = len / 2;
    for i in 0..n
        invariant
            n == data@.len() / 2,
            data@.len() <= 16,
            units@.len() == i,
            forall|j: int| 0 <= j < i ==> units@[j] == utf16_units(data@)[j],
    {
        assert(2 * i + 1 < data@.len());
        let unit = (data[2 * i] as u16) + (data[2 * i + 1] as u16) * 256;
        units.push(unit);
    }
    let ghost u = utf16_units(data@);
    assert(units@ =~= u);
    let mut a: usize = 0;
    while a < n && white_unit(units[a])
        invariant
            a <= n,
            n == units@.len(),
            units@ == u,
            skip_white(u, a as int) == skip_white(u, 0),
        decreases n - a,
    {
        a = a + 1;
    }
    let mut b: usize = n;
    while b > a && white_unit(units[b - 1])
        invariant
            a <= b <= n,
            n == units@.len(),
            units@ == u,
            skip_white(u, 0) == a,
            back_white(u, b as int, a as int) == back_white(u, n as int, a as int),
        decreases b,
    {
        b = b - 1;
    }
    let ghost t = trimmed_units(u);
    assert(t =~= u.subrange(a as int, b as int));
    let signed = a < b && (units[a] == 0x2B || units[a] == 0x2D);
    let negative = signed && units[a] == 0x2D;
    let start = if signed {
        a + 1
    } else {
        a
    };
    assert(unsigned_part(t) =~= u.subrange(start as int, b as int));
    if start == b {
        return None;
    }
    match digits_in(&units, start, b) {
        Some(v) => {
            if negative {
                if v == 0 {
                    Some(0)
                } else {
                    None
                }
            } else if v <= 100 {
                Some(v as u8)
            } else {
                None
            }
        },
        None => {
            let ghost body = unsigned_part(t);
            assert(exists|i: int| start <= i < b && !is_digit_unit(units@[i]));
            let ghost i = choose|i: int| start <= i < b && !is_digit_unit(units@[i]);
            assert(body[i - start] == units@[i]);
            None
        },
    }
}

} // verus!
