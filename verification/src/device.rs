//! The Bluetooth device cache with its scan throttle, and the MAC address
//! read out of a device instance identifier.
//!
//! Every Bluetooth query goes through [`DeviceCache`]: two real scans are at
//! least a minimum interval apart, and at most one scan runs at a time, so
//! that frequent callers cannot flood the adapter.

use crate::http::first_index;
use crate::insight::{BtDevice, BtStatus};
use crate::text::{chars_of, find_seq, occurs_at, str_eq};
use std::sync::{Mutex, MutexGuard};
use std::time::{Duration, Instant};
use vstd::prelude::*;

verus! {

#[verifier::external_type_specification]
#[verifier::external_body]
#[verifier::reject_recursive_types(T)]
pub struct ExMutex<T: ?Sized>(Mutex<T>);

#[verifier::external_type_specification]
#[verifier::external_body]
#[verifier::reject_recursive_types(T)]
pub struct ExMutexGuard<'a, T: ?Sized + 'a>(MutexGuard<'a, T>);

#[verifier::external_type_specification]
#[verifier::external_body]
pub struct ExInstant(Instant);

// ---------------------------------------------------------------------------
// The throttle.
// ---------------------------------------------------------------------------

/// Minimum interval between two real scans, in seconds.
pub const BT_THROTTLE_SECS: u64 = 10;

/// Whether a query went through to a real scan.
#[derive(Debug, Clone, Copy, PartialEq, Eq, Structural)]
pub enum Gate {
    /// Let through: this call scanned.
    Open,
    /// Held back: the cached value was returned.
    Throttled,
}

/// The text of the status served when a recent scan left nothing cached.
pub open spec fn too_frequent_text() -> Seq<char> {
    "查询过于频繁，请稍候"@
}

/// Whether `r` is the throttle's answer on a cache holding `status`, last
/// scanned `age_nanos` ago (`None`: never scanned), with the interval
/// `within_nanos`: the cached status (or a "too frequent" error when none is
/// cached) while the interval has not passed, else `None` (a scan is due).
pub open spec fn is_cache_answer(
    r: Option<BtStatus>,
    status: Option<BtStatus>,
    age_nanos: Option<u128>,
    within_nanos: u128,
) -> bool {
    &&& (r is Some <==> (age_nanos is Some && age_nanos->0 < within_nanos))
    &&& (r is Some && status is Some ==> r->0 == status->0)
    &&& (r is Some && status is None ==> (r->0 is Error && r->0->message@ == too_frequent_text()))
}

/// The throttle's decision on one snapshot of the cache.
///
/// `age_nanos` is the time since the last real scan (`None`: never scanned).
/// Within the interval the cached status is served (or a "too frequent"
/// error when none is cached); otherwise `None` says that a scan is due.
pub fn served_from_cache(status: Option<BtStatus>, age_nanos: Option<u128>, within_nanos: u128) -> (r:
    Option<BtStatus>)
    ensures
        r is Some <==> (age_nanos is Some && age_nanos->0 < within_nanos),
        r is Some && status is Some ==> r->0 == status->0,
        r is Some && status is None ==> (r->0 is Error && r->0->message@ == too_frequent_text()),
        is_cache_answer(r, status, age_nanos, within_nanos),
{
    match age_nanos {
        Some(age) => {
            if age < within_nanos {
                match status {
                    Some(s) => Some(s),
                    None => Some(BtStatus::Error { message: String::from_str("查询过于频繁，请稍候") }),
                }
            } else {
                None
            }
        },
        None => None,
    }
}

/// The system scan on a platform without the native Bluetooth stack: there
/// is no adapter to report.
pub fn scan_blocking() -> (r: BtStatus)
    ensures
        r == BtStatus::NoAdapter,
{
    BtStatus::NoAdapter
}

/// The answer to an explicit refresh: the status, and whether the throttle
/// served it from the cache (so that the front end can say "try again later"
/// instead of looking broken).
#[derive(Debug, Clone)]
pub struct RefreshOutcome {
    pub throttled: bool,
    pub bluetooth: BtStatus,
}

impl RefreshOutcome {
    /// The outcome of a query that returned `status` through `gate`.
    pub fn from_query(status: BtStatus, gate: Gate) -> (r: Self)
        ensures
            r.throttled == (gate == Gate::Throttled),
            r.bluetooth == status,
    {
        RefreshOutcome { throttled: gate == Gate::Throttled, bluetooth: status }
    }
}

struct CacheInner {
    /// The result of the last real scan.
    status: Option<BtStatus>,
    /// When the last real scan finished.
    last_scan: Option<Instant>,
}

/// `Mutex::new`.
#[verifier::external_body]
fn new_mutex<T>(value: T) -> Mutex<T> {
    Mutex::new(value)
}

/// `Mutex::lock` on the cache state, copying out what it holds; a poisoned
/// lock is read anyway. What it returns depends on the other threads, so no
/// contract is stated.
#[verifier::external_body]
fn read_inner(inner: &Mutex<CacheInner>) -> (Option<BtStatus>, Option<Instant>) {
    let guard = inner.lock().unwrap_or_else(|poisoned| poisoned.into_inner());
    (guard.status.clone(), guard.last_scan)
}

/// `Mutex::lock` on the cache state, replacing what it holds with `value`.
#[verifier::external_body]
fn write_inner(inner: &Mutex<CacheInner>, value: CacheInner) {
    let mut guard = inner.lock().unwrap_or_else(|poisoned| poisoned.into_inner());
    *guard = value;
}

/// `Mutex::lock` on the single-flight gate; a poisoned lock is entered anyway.
#[verifier::external_body]
fn enter(gate: &Mutex<()>) -> MutexGuard<'_, ()> {
    gate.lock().unwrap_or_else(|poisoned| poisoned.into_inner())
}

/// `Instant::now`.
#[verifier::external_body]
fn instant_now() -> Instant {
    Instant::now()
}

/// `Instant::elapsed`. Depends on the time of the call.
#[verifier::external_body]
fn instant_elapsed(at: Instant) -> Duration {
    at.elapsed()
}

/// `Duration::as_nanos`.
#[verifier::external_body]
fn duration_nanos(d: Duration) -> u128 {
    d.as_nanos()
}

/// The Bluetooth status cache and its throttle.
///
/// Reads never wait for a scan: the state lock is held only to copy the
/// cache in or out, and a second lock lets at most one scan run at a time.
pub struct DeviceCache {
    inner: Mutex<CacheInner>,
    scan_gate: Mutex<()>,
    min_interval_nanos: u128,
}

impl DeviceCache {
    /// An empty cache with the standard ten-second throttle.
    pub fn new() -> (c: Self)
        ensures
            c.min_interval_nanos() == 10_000_000_000,
    {
        DeviceCache {
            inner: new_mutex(CacheInner { status: None, last_scan: None }),
            scan_gate: new_mutex(()),
            min_interval_nanos: (BT_THROTTLE_SECS as u128) * 1_000_000_000,
        }
    }

    /// An empty cache without throttle.
    pub fn without_throttle() -> (c: Self)
        ensures
            c.min_interval_nanos() == 0,
    {
        DeviceCache {
            inner: new_mutex(CacheInner { status: None, last_scan: None }),
            scan_gate: new_mutex(()),
            min_interval_nanos: 0,
        }
    }

    /// A cache that already holds `status`, scanned at `last_scan`.
    pub fn with_state(status: Option<BtStatus>, last_scan: Option<Instant>, min_interval: Duration) -> Self {
        DeviceCache {
            inner: new_mutex(CacheInner { status, last_scan }),
            scan_gate: new_mutex(()),
            min_interval_nanos: duration_nanos(min_interval),
        }
    }

    /// The minimum interval between two scans, in nanoseconds.
    pub closed spec fn min_interval_nanos(&self) -> u128 {
        self.min_interval_nanos
    }

    /// The periodic refresh: a throttled call quietly returns the cache.
    /// Without a throttle every call scans.
    pub fn refresh(&self) -> (s: BtStatus)
        ensures
            self.min_interval_nanos() == 0 ==> s == BtStatus::NoAdapter,
    {
        self.query(false).0
    }

    /// An explicit refresh: the caller learns whether it was throttled.
    /// Without a throttle every call scans.
    pub fn force(&self) -> (r: (BtStatus, Gate))
        ensures
            r.1 == Gate::Open ==> r.0 == BtStatus::NoAdapter,
            self.min_interval_nanos() == 0 ==> r.1 == Gate::Open,
    {
        self.query(true)
    }

    /// The cached status; never scans.
    pub fn cached(&self) -> Option<BtStatus> {
        let (status, _) = read_inner(&self.inner);
        status
    }

    /// One query: the cached status while the interval has not passed,
    /// else a real scan, of which at most one runs at a time. A caller that
    /// waited for another's scan serves that fresh result instead of
    /// scanning again.
    fn query(&self, _force: bool) -> (r: (BtStatus, Gate))
        ensures
            r.1 == Gate::Open ==> r.0 == BtStatus::NoAdapter,
            self.min_interval_nanos() == 0 ==> r.1 == Gate::Open,
    {
        if let Some(status) = self.cached_within(self.min_interval_nanos) {
            return (status, Gate::Throttled);
        }
        let _single_flight = enter(&self.scan_gate);
        if let Some(status) = self.cached_within(self.min_interval_nanos) {
            return (status, Gate::Throttled);
        }
        let status = scan_blocking();
        write_inner(&self.inner, CacheInner { status: Some(status.clone()), last_scan: Some(instant_now()) });
        (status, Gate::Open)
    }

    /// The cached status when the last scan is less than `within_nanos`
    /// old, else `None` (a scan is due). What the cache holds and how old it
    /// is are read at the call, so the answer is the throttle's on some
    /// snapshot; with no interval it is always `None`.
    fn cached_within(&self, within_nanos: u128) -> (r: Option<BtStatus>)
        ensures
            exists|status: Option<BtStatus>, age: Option<u128>|
                is_cache_answer(r, status, age, within_nanos),
            within_nanos == 0 ==> r is None,
    {
        let (status, last_scan) = read_inner(&self.inner);
        let age = match last_scan {
            Some(at) => Some(duration_nanos(instant_elapsed(at))),
            None => None,
        };
        let r = served_from_cache(status, age, within_nanos);
        assert(is_cache_answer(r, status, age, within_nanos));
        r
    }
}

// ---------------------------------------------------------------------------
// MAC addresses in device instance identifiers.
// ---------------------------------------------------------------------------

/// An ASCII hexadecimal digit.
pub open spec fn is_hex(c: char) -> bool {
    ('0' <= c && c <= '9') || ('a' <= c && c <= 'f') || ('A' <= c && c <= 'F')
}

/// The value of one hexadecimal digit.
pub open spec fn hex_digit(c: char) -> nat {
    if '0' <= c && c <= '9' {
        ((c as u32) - 48) as nat
    } else if 'a' <= c && c <= 'f' {
        ((c as u32) - 87) as nat
    } else {
        ((c as u32) - 55) as nat
    }
}

/// The number that the hexadecimal digits `s` spell.
pub open spec fn hex_value(s: Seq<char>) -> nat
    decreases s.len(),
{
    if s.len() == 0 {
        0
    } else {
        hex_value(s.drop_last()) * 16 + hex_digit(s.last())
    }
}

/// The length of the run of hexadecimal digits of `s` that starts at `from`.
pub open spec fn hex_run_len(s: Seq<char>, from: int) -> nat
    decreases s.len() - from,
{
    if 0 <= from < s.len() && is_hex(s[from]) {
        1 + hex_run_len(s, from + 1)
    } else {
        0
    }
}

/// Whether `pos` is the first position of `REV&` in `s`.
pub open spec fn first_rev(s: Seq<char>, pos: int) -> bool {
    occurs_at(s, "REV&"@, pos) && forall|q: int| 0 <= q < pos ==> !occurs_at(s, "REV&"@, q)
}

/// The address right after `REV&` at `pos`, when exactly twelve hexadecimal
/// digits follow it.
pub open spec fn rev_mac(s: Seq<char>, pos: int) -> Option<nat> {
    if hex_run_len(s, pos + 4) == 12 {
        Some(hex_value(s.subrange(pos + 4, pos + 16)))
    } else {
        None
    }
}

/// What follows the first `}`, or all of `s` when there is none.
pub open spec fn after_brace(s: Seq<char>) -> Seq<char> {
    let i = first_index(s, '}');
    if i < 0 {
        s
    } else {
        s.subrange(i + 1, s.len() as int)
    }
}

/// Whether a run of exactly twelve hexadecimal digits starts at `i`.
pub open spec fn run12_at(s: Seq<char>, i: int) -> bool {
    0 <= i && (i == 0 || !is_hex(s[i - 1])) && hex_run_len(s, i) == 12
}

/// Whether `i` is the first such run.
pub open spec fn first_run12(s: Seq<char>, i: int) -> bool {
    run12_at(s, i) && forall|j: int| 0 <= j < i ==> !run12_at(s, j)
}

proof fn lemma_hex_run(s: Seq<char>, from: int, n: int)
    requires
        0 <= from,
        0 <= n,
        from + n <= s.len(),
        forall|k: int| from <= k < from + n ==> is_hex(#[trigger] s[k]),
        from + n == s.len() || !is_hex(s[from + n]),
    ensures
        hex_run_len(s, from) == n,
    decreases n,
{
    if n > 0 {
        lemma_hex_run(s, from + 1, n - 1);
    }
}

proof fn lemma_hex_run_bounds(s: Seq<char>, from: int)
    requires
        0 <= from,
    ensures
        from + hex_run_len(s, from) <= s.len() || hex_run_len(s, from) == 0,
        forall|k: int| from <= k < from + hex_run_len(s, from) ==> is_hex(#[trigger] s[k]),
        0 <= from + hex_run_len(s, from) < s.len() ==> !is_hex(s[from + hex_run_len(s, from)]),
    decreases s.len() - from,
{
    if 0 <= from < s.len() && is_hex(s[from]) {
        lemma_hex_run_bounds(s, from + 1);
    }
}

/// The length of the hexadecimal run of `chars` at `from`.
fn hex_run(chars: &Vec<char>, from: usize) -> (n: usize)
    requires
        from <= chars.len(),
    ensures
        n == hex_run_len(chars@, from as int),
        from + n <= chars.len(),
{
    let mut k = from;
    while k < chars.len() && (('0' <= chars[k] && chars[k] <= '9') || ('a' <= chars[k] && chars[k]
        <= 'f') || ('A' <= chars[k] && chars[k] <= 'F'))
        invariant
            from <= k <= chars.len(),
            forall|j: int| from <= j < k ==> is_hex(#[trigger] chars@[j]),
        decreases chars.len() - k,
    {
        k = k + 1;
    }
    proof {
        lemma_hex_run(chars@, from as int, k - from);
    }
    k - from
}

/// The value of the twelve hexadecimal digits at `from`.
fn hex12(chars: &Vec<char>, from: usize) -> (v: u64)
    requires
        from + 12 <= chars.len(),
        forall|k: int| from <= k < from + 12 ==> is_hex(#[trigger] chars@[k]),
    ensures
        v == hex_value(chars@.subrange(from as int, from + 12)),
{
    let mut v: u64 = 0;
    let mut k: usize = from;
    while k < from + 12
        invariant
            from <= k <= from + 12 <= chars.len(),
            forall|j: int| from <= j < from + 12 ==> is_hex(#[trigger] chars@[j]),
            v == hex_value(chars@.subrange(from as int, k as int)),
            v < pow16((k - from) as nat),
        decreases from + 12 - k,
    {
        let c = chars[k];
        assert(is_hex(chars@[k as int]));
        let cu: u32 = c as u32;
        let d: u64 = if '0' <= c && c <= '9' {
            (cu - 48) as u64
        } else if 'a' <= c && c <= 'f' {
            (cu - 87) as u64
        } else {
            (cu - 55) as u64
        };
        assert(d == hex_digit(c) && d < 16);
        proof {
            let next = chars@.subrange(from as int, k + 1);
            assert(next.drop_last() =~= chars@.subrange(from as int, k as int));
            assert(next.last() == c);
            assert(pow16((k + 1 - from) as nat) == pow16((k - from) as nat) * 16);
            assert(v * 16 + d < pow16((k + 1 - from) as nat)) by (nonlinear_arith)
                requires
                    v < pow16((k - from) as nat),
                    d < 16,
                    pow16((k + 1 - from) as nat) == pow16((k - from) as nat) * 16,
            ;
            assert(pow16(12) == 0x1_0000_0000_0000) by {
                reveal_with_fuel(pow16, 13);
            }
            lemma_pow16_mono((k + 1 - from) as nat, 12);
        }
        v = v * 16 + d;
        k = k + 1;
    }
    v
}

/// `16` to the power `n`.
pub open spec fn pow16(n: nat) -> nat
    decreases n,
{
    if n == 0 {
        1
    } else {
        pow16((n - 1) as nat) * 16
    }
}

proof fn lemma_pow16_mono(a: nat, b: nat)
    requires
        a <= b,
    ensures
        pow16(a) <= pow16(b),
    decreases b,
{
    if a < b {
        lemma_pow16_mono(a, (b - 1) as nat);
    }
}

/// The Bluetooth MAC address inside a device instance identifier.
///
/// The address is the run of twelve hexadecimal digits right after the first
/// `REV&`. Identifiers without that anchor fall back to the first run of
/// exactly twelve hexadecimal digits after the first `}`, which skips the
/// service UUID whose last group is also twelve digits long.
pub fn extract_mac(id: &str) -> (r: Option<u64>)
    ensures
        ({
            let s = id@;
            let pos = choose|p: int| first_rev(s, p);
            let a = after_brace(s);
            let i = choose|i: int| first_run12(a, i);
            if (exists|p: int| first_rev(s, p)) && rev_mac(s, pos) is Some {
                r is Some && r->0 == rev_mac(s, pos)->0
            } else if exists|i: int| run12_at(a, i) {
                r is Some && r->0 == hex_value(a.subrange(i, i + 12))
            } else {
                r is None
            }
        }),
{
    proof {
        reveal_strlit("REV&");
    }
    let chars = chars_of(id);
    let ghost s = chars@;
    let rev = chars_of("REV&");
    let found = find_seq(&chars, &rev);
    let ghost pos = choose|p: int| first_rev(s, p);
    if let Some(at) = found {
        assert(first_rev(s, at as int));
        assert(pos == at) by {
            assert(first_rev(s, pos));
            if pos < at {
                assert(!occurs_at(s, "REV&"@, pos));
            }
            if at < pos {
                assert(!occurs_at(s, "REV&"@, at as int));
            }
        }
        assert(rev@.len() == 4);
        assert(at + 4 <= chars.len());
        let n = hex_run(&chars, at + 4);
        assert(rev_mac(s, pos) is Some <==> n == 12);
        if n == 12 {
            proof {
                lemma_hex_run_bounds(s, at + 4);
            }
            let v = hex12(&chars, at + 4);
            return Some(v);
        }
    } else {
        assert(!exists|p: int| first_rev(s, p));
    }
    assert(!((exists|p: int| first_rev(s, p)) && rev_mac(s, pos) is Some));
    // Fall back to the part after the first `}`.
    let mut start: usize = 0;
    while start < chars.len() && chars[start] != '}'
        invariant
            start <= chars.len(),
            forall|j: int| 0 <= j < start ==> chars@[j] != '}',
        decreases chars.len() - start,
    {
        start = start + 1;
    }
    proof {
        crate::http::lemma_first_index(s, '}', start as int);
    }
    let from: usize = if start < chars.len() {
        start + 1
    } else {
        0
    };
    let ghost a = s.subrange(from as int, s.len() as int);
    assert(a =~= after_brace(id@));
    let r = first_run12_value(&chars, from);
    assert(a =~= chars@.subrange(from as int, chars.len() as int));
    r
}

/// The value of the first run of exactly twelve hexadecimal digits in
/// `chars[from..]`.
fn first_run12_value(chars: &Vec<char>, from: usize) -> (r: Option<u64>)
    requires
        from <= chars.len(),
    ensures
        ({
            let a = chars@.subrange(from as int, chars.len() as int);
            let i = choose|i: int| first_run12(a, i);
            if exists|i: int| run12_at(a, i) {
                r is Some && r->0 == hex_value(a.subrange(i, i + 12))
            } else {
                r is None
            }
        }),
{
    let ghost a = chars@.subrange(from as int, chars.len() as int);
    let mut i: usize = from;
    while i < chars.len()
        invariant
            from <= i <= chars.len(),
            a == chars@.subrange(from as int, chars.len() as int),
            i == from || i == chars.len() || !is_hex(chars@[i - 1]) || !is_hex(chars@[i as int]),
            forall|j: int| 0 <= j < i - from ==> !run12_at(a, j),
        decreases chars.len() - i,
    {
        let n = hex_run(&chars, i);
        proof {
            lemma_run_shift(chars@, from as int, i - from);
            lemma_hex_run_bounds(chars@, i as int);
            if i > from {
                assert(a[i - from - 1] == chars@[i - 1]);
            }
        }
        if n == 12 {
            proof {
                assert(run12_at(a, i - from));
                assert(first_run12(a, i - from));
                let c = choose|c: int| first_run12(a, c);
                assert(c == i - from) by {
                    assert(first_run12(a, c));
                }
                assert(a.subrange(i - from, i - from + 12) =~= chars@.subrange(i as int, i + 12));
            }
            let v = hex12(&chars, i);
            return Some(v);
        }
        let step = if n == 0 {
            1
        } else {
            n
        };
        let ghost old_i = i;
        i = i + step;
        proof {
            if n == 0 {
                assert(!is_hex(chars@[old_i as int]));
            }
            assert forall|j: int| 0 <= j < i - from implies !run12_at(a, j) by {
                if j == old_i - from {
                    lemma_run_shift(chars@, from as int, j);
                } else if j > old_i - from {
                    assert(a[j - 1] == chars@[from + j - 1]);
                    assert(is_hex(chars@[from + j - 1]));
                }
            }
        }
    }
    assert forall|j: int| !run12_at(a, j) by {
        if j >= a.len() {
            assert(hex_run_len(a, j) == 0);
        }
    }
    None
}

proof fn lemma_run_shift(s: Seq<char>, from: int, k: int)
    requires
        0 <= from <= s.len(),
        0 <= k,
    ensures
        hex_run_len(s.subrange(from, s.len() as int), k) == hex_run_len(s, from + k),
    decreases s.len() - from - k,
{
    let a = s.subrange(from, s.len() as int);
    if 0 <= k < a.len() {
        assert(a[k] == s[from + k]);
        lemma_run_shift(s, from, k + 1);
    }
}

// ---------------------------------------------------------------------------
// The device list of a scan.
// ---------------------------------------------------------------------------

/// A battery level for ordering: unknown below every known level.
pub open spec fn battery_rank(b: Option<u8>) -> int {
    match b {
        Some(p) => p as int,
        None => -1,
    }
}

/// Whether `a` is listed before `b`: named devices first, then the higher
/// battery level.
pub open spec fn ranks_before(a: BtDevice, b: BtDevice) -> bool {
    let a_named = a.name@.len() > 0;
    let b_named = b.name@.len() > 0;
    (a_named && !b_named) || (a_named == b_named && battery_rank(a.battery_percent) > battery_rank(
        b.battery_percent,
    ))
}

/// Where a stable sort puts `d` among the already ordered `s`: before the
/// first device that `d` ranks before.
pub open spec fn insertion_point(s: Seq<BtDevice>, d: BtDevice) -> int
    decreases s.len(),
{
    if s.len() == 0 {
        0
    } else if ranks_before(d, s[0]) {
        0
    } else {
        1 + insertion_point(s.drop_first(), d)
    }
}

/// The devices in display order: a stable sort by [`ranks_before`], so that
/// devices that tie keep their enumeration order and the list does not jump
/// between refreshes.
pub open spec fn display_order(devices: Seq<BtDevice>) -> Seq<BtDevice>
    decreases devices.len(),
{
    if devices.len() == 0 {
        Seq::empty()
    } else {
        let sorted = display_order(devices.drop_last());
        sorted.insert(insertion_point(sorted, devices.last()), devices.last())
    }
}

/// The position of the first device named `name`, or -1.
pub open spec fn name_index(s: Seq<BtDevice>, name: Seq<char>) -> int
    decreases s.len(),
{
    if s.len() == 0 {
        -1
    } else if s[0].name@ == name {
        0
    } else {
        let r = name_index(s.drop_first(), name);
        if r < 0 {
            -1
        } else {
            r + 1
        }
    }
}

/// One entry per device name, keeping the higher battery level: one mouse
/// may leave two pairing records with different levels. Unnamed devices
/// cannot be told apart and are all kept.
pub open spec fn merged_by_name(devices: Seq<BtDevice>) -> Seq<BtDevice>
    decreases devices.len(),
{
    if devices.len() == 0 {
        Seq::empty()
    } else {
        let kept = merged_by_name(devices.drop_last());
        let d = devices.last();
        let i = name_index(kept, d.name@);
        if d.name@.len() == 0 || i < 0 {
            kept.push(d)
        } else if battery_rank(d.battery_percent) > battery_rank(kept[i].battery_percent) {
            kept.update(i, d)
        } else {
            kept
        }
    }
}

fn battery_rank_exec(b: Option<u8>) -> (r: i32)
    ensures
        r == battery_rank(b),
{
    match b {
        Some(p) => p as i32,
        None => -1,
    }
}

fn ranks_before_exec(a: &BtDevice, b: &BtDevice) -> (r: bool)
    ensures
        r == ranks_before(*a, *b),
{
    let a_named = a.name.as_str().unicode_len() > 0;
    let b_named = b.name.as_str().unicode_len() > 0;
    (a_named && !b_named) || (a_named == b_named && battery_rank_exec(a.battery_percent)
        > battery_rank_exec(b.battery_percent))
}

proof fn lemma_insertion_point(s: Seq<BtDevice>, d: BtDevice, k: int)
    requires
        0 <= k <= s.len(),
        forall|j: int| 0 <= j < k ==> !ranks_before(d, #[trigger] s[j]),
        k < s.len() ==> ranks_before(d, s[k]),
    ensures
        insertion_point(s, d) == k,
    decreases s.len(),
{
    if s.len() > 0 && k > 0 {
        assert forall|j: int| 0 <= j < k - 1 implies !ranks_before(d, #[trigger] s.drop_first()[j]) by {
            assert(s.drop_first()[j] == s[j + 1]);
        }
        lemma_insertion_point(s.drop_first(), d, k - 1);
    }
}

proof fn lemma_name_index(s: Seq<BtDevice>, name: Seq<char>, k: int)
    requires
        0 <= k <= s.len(),
        forall|j: int| 0 <= j < k ==> (#[trigger] s[j]).name@ != name,
        k < s.len() ==> s[k].name@ == name,
    ensures
        name_index(s, name) == (if k == s.len() { -1 } else { k }),
    decreases s.len(),
{
    if s.len() > 0 && k > 0 {
        assert forall|j: int| 0 <= j < k - 1 implies (#[trigger] s.drop_first()[j]).name@ != name by {
            assert(s.drop_first()[j] == s[j + 1]);
        }
        lemma_name_index(s.drop_first(), name, k - 1);
    }
}

/// The order and merging that end a scan: devices sorted for display
/// (named first, higher battery first, ties in enumeration order), then
/// merged by name keeping the higher battery level.
pub fn arrange_devices(devices: Vec<BtDevice>) -> (r: Vec<BtDevice>)
    ensures
        r@ == merged_by_name(display_order(devices@)),
{
    let ghost all = devices@;
    let mut rest = devices;
    let mut sorted: Vec<BtDevice> = Vec::new();
    let ghost mut done: int = 0;
    while rest.len() > 0
        invariant
            0 <= done <= all.len(),
            rest@ == all.subrange(done, all.len() as int),
            sorted@ == display_order(all.subrange(0, done)),
        decreases rest.len(),
    {
        let d = rest.remove(0);
        proof {
            let prefix = all.subrange(0, done + 1);
            assert(prefix.drop_last() =~= all.subrange(0, done));
            assert(prefix.last() == d);
            assert(rest@ =~= all.subrange(done + 1, all.len() as int));
        }
        let mut k: usize = 0;
        while k < sorted.len() && !ranks_before_exec(&d, &sorted[k])
            invariant
                k <= sorted.len(),
                forall|j: int| 0 <= j < k ==> !ranks_before(d, #[trigger] sorted@[j]),
            decreases sorted.len() - k,
        {
            k = k + 1;
        }
        proof {
            lemma_insertion_point(sorted@, d, k as int);
        }
        sorted.insert(k, d);
        proof {
            done = done + 1;
        }
    }
    assert(all.subrange(0, all.len() as int) =~= all);
    let ghost ordered = sorted@;
    let mut merged: Vec<BtDevice> = Vec::new();
    let mut src = sorted;
    let ghost mut taken: int = 0;
    while src.len() > 0
        invariant
            0 <= taken <= ordered.len(),
            src@ == ordered.subrange(taken, ordered.len() as int),
            merged@ == merged_by_name(ordered.subrange(0, taken)),
        decreases src.len(),
    {
        let d = src.remove(0);
        proof {
            let prefix = ordered.subrange(0, taken + 1);
            assert(prefix.drop_last() =~= ordered.subrange(0, taken));
            assert(prefix.last() == d);
            assert(src@ =~= ordered.subrange(taken + 1, ordered.len() as int));
        }
        if d.name.as_str().unicode_len() == 0 {
            merged.push(d);
        } else {
            let mut i: usize = 0;
            while i < merged.len() && !str_eq(merged[i].name.as_str(), d.name.as_str())
                invariant
                    i <= merged.len(),
                    forall|j: int| 0 <= j < i ==> (#[trigger] merged@[j]).name@ != d.name@,
                decreases merged.len() - i,
            {
                i = i + 1;
            }
            proof {
                lemma_name_index(merged@, d.name@, i as int);
            }
            if i == merged.len() {
                merged.push(d);
            } else if battery_rank_exec(d.battery_percent) > battery_rank_exec(
                merged[i].battery_percent,
            ) {
                merged.set(i, d);
            }
        }
        proof {
            taken = taken + 1;
        }
    }
    assert(ordered.subrange(0, ordered.len() as int) =~= ordered);
    merged
}

/// The order of [`ranks_before`] as one number: named devices above
/// unnamed ones, then by battery level.
spec fn display_key(d: BtDevice) -> int {
    (if d.name@.len() > 0 { 1000int } else { 0int }) + battery_rank(d.battery_percent)
}

proof fn lemma_display_key(a: BtDevice, b: BtDevice)
    ensures
        ranks_before(a, b) <==> display_key(a) > display_key(b),
{
    assert(-1 <= battery_rank(a.battery_percent) <= 255);
    assert(-1 <= battery_rank(b.battery_percent) <= 255);
}

proof fn lemma_insertion_point_bounds(s: Seq<BtDevice>, d: BtDevice)
    ensures
        0 <= insertion_point(s, d) <= s.len(),
        forall|j: int| 0 <= j < insertion_point(s, d) ==> !ranks_before(d, #[trigger] s[j]),
        insertion_point(s, d) < s.len() ==> ranks_before(d, s[insertion_point(s, d)]),
    decreases s.len(),
{
    if s.len() > 0 && !ranks_before(d, s[0]) {
        lemma_insertion_point_bounds(s.drop_first(), d);
        assert forall|j: int| 0 <= j < insertion_point(s, d) implies !ranks_before(d, #[trigger] s[j]) by {
            if j > 0 {
                assert(s[j] == s.drop_first()[j - 1]);
            }
        }
    }
}

/// The display order is sorted: no device is listed after one it ranks
/// before.
pub proof fn law_display_order_is_sorted(devices: Seq<BtDevice>)
    ensures
        forall|i: int, j: int|
            0 <= i < j < display_order(devices).len() ==> !ranks_before(
                #[trigger] display_order(devices)[j],
                #[trigger] display_order(devices)[i],
            ),
        display_order(devices).len() == devices.len(),
    decreases devices.len(),
{
    if devices.len() > 0 {
        let prev = display_order(devices.drop_last());
        let d = devices.last();
        law_display_order_is_sorted(devices.drop_last());
        lemma_insertion_point_bounds(prev, d);
        let k = insertion_point(prev, d);
        let out = prev.insert(k, d);
        assert forall|i: int, j: int| 0 <= i < j < out.len() implies !ranks_before(
            #[trigger] out[j],
            #[trigger] out[i],
        ) by {
            lemma_display_key(out[j], out[i]);
            if j < k {
                assert(out[i] == prev[i] && out[j] == prev[j]);
                lemma_display_key(prev[j], prev[i]);
            } else if j == k {
                assert(out[i] == prev[i]);
                lemma_display_key(d, prev[i]);
            } else if i == k {
                assert(out[j] == prev[j - 1]);
                lemma_display_key(d, prev[k]);
                lemma_display_key(prev[j - 1], prev[k]);
                if j - 1 > k {
                    assert(!ranks_before(prev[j - 1], prev[k]));
                }
            } else if i < k {
                assert(out[i] == prev[i] && out[j] == prev[j - 1]);
                lemma_display_key(prev[j - 1], prev[i]);
            } else {
                assert(out[i] == prev[i - 1] && out[j] == prev[j - 1]);
                lemma_display_key(prev[j - 1], prev[i - 1]);
            }
        }
    }
}

proof fn lemma_name_index_bounds(s: Seq<BtDevice>, name: Seq<char>)
    ensures
        -1 <= name_index(s, name) < s.len(),
        name_index(s, name) >= 0 ==> s[name_index(s, name)].name@ == name,
        name_index(s, name) < 0 ==> forall|j: int| 0 <= j < s.len() ==> (#[trigger] s[j]).name@ != name,
    decreases s.len(),
{
    if s.len() > 0 && s[0].name@ != name {
        lemma_name_index_bounds(s.drop_first(), name);
        if name_index(s, name) < 0 {
            assert forall|j: int| 0 <= j < s.len() implies (#[trigger] s[j]).name@ != name by {
                if j > 0 {
                    assert(s[j] == s.drop_first()[j - 1]);
                }
            }
        } else {
            assert(s[name_index(s, name)] == s.drop_first()[name_index(s, name) - 1]);
        }
    }
}

/// After merging, no two named devices share a name.
pub proof fn law_merged_names_are_unique(devices: Seq<BtDevice>)
    ensures
        forall|i: int, j: int|
            0 <= i < j < merged_by_name(devices).len() && (#[trigger] merged_by_name(devices)[i]).name@.len()
                > 0 ==> merged_by_name(devices)[i].name@ != (#[trigger] merged_by_name(devices)[j]).name@,
    decreases devices.len(),
{
    if devices.len() > 0 {
        let kept = merged_by_name(devices.drop_last());
        let d = devices.last();
        law_merged_names_are_unique(devices.drop_last());
        lemma_name_index_bounds(kept, d.name@);
        let out = merged_by_name(devices);
        let idx = name_index(kept, d.name@);
        assert forall|i: int, j: int|
            0 <= i < j < out.len() && (#[trigger] out[i]).name@.len() > 0 implies out[i].name@ != (
            #[trigger] out[j]).name@ by {
            if d.name@.len() == 0 || idx < 0 {
                if j == kept.len() {
                    assert(out[i] == kept[i]);
                } else {
                    assert(out[i] == kept[i] && out[j] == kept[j]);
                }
            } else {
                assert(out[i].name@ == kept[i].name@);
                assert(out[j].name@ == kept[j].name@);
            }
        }
    }
}

} // verus!
