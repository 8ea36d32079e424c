//! The pieces of the quota HTTP client that do not touch the network: the
//! URL split into host, path, port and scheme, the header block handed to the
//! system HTTP stack, and the classification of its error codes.

use crate::text::{chars_of, contains_seq, decimal, find_seq, has_prefix, matches_at, push_decimal, push_range};
use vstd::prelude::*;

verus! {

/// The result of one GET.
#[derive(Debug, Clone)]
pub struct HttpResponse {
    /// HTTP status code (200, 401, 500, ...).
    pub status: u16,
    /// Response body, decoded as UTF-8 with invalid bytes replaced.
    pub body: String,
}

/// Why a request failed; each kind gets its own sentence in the interface.
#[derive(Debug, Clone)]
pub enum HttpError {
    /// DNS failure or refused connection.
    Unreachable(String),
    /// Timed out.
    Timeout(String),
    /// TLS or certificate problem.
    Tls(String),
    /// Anything else.
    Other(String),
}

/// The sentence shown to the user for an error.
pub open spec fn error_text(e: HttpError) -> Seq<char> {
    match e {
        HttpError::Unreachable(detail) => "无法连接（"@ + detail@ + "）"@,
        HttpError::Timeout(detail) => "请求超时（"@ + detail@ + "）"@,
        HttpError::Tls(detail) => "TLS 校验失败（"@ + detail@ + "）"@,
        HttpError::Other(detail) => detail@,
    }
}

impl HttpError {
    /// The sentence shown to the user.
    pub fn message(&self) -> (s: String)
        ensures
            s@ == error_text(*self),
    {
        let mut s = String::new();
        match self {
            HttpError::Unreachable(detail) => {
                s.append("无法连接（");
                s.append(detail.as_str());
                s.append("）");
            },
            HttpError::Timeout(detail) => {
                s.append("请求超时（");
                s.append(detail.as_str());
                s.append("）");
            },
            HttpError::Tls(detail) => {
                s.append("TLS 校验失败（");
                s.append(detail.as_str());
                s.append("）");
            },
            HttpError::Other(detail) => {
                s.append(detail.as_str());
            },
        }
        assert(s@ =~= error_text(*self));
        s
    }
}

// ---------------------------------------------------------------------------
// URL splitting.
// ---------------------------------------------------------------------------

/// Host, path, scheme and port of a request target.
#[derive(Debug)]
pub struct UrlParts {
    pub host: String,
    pub path: String,
    pub secure: bool,
    pub port: u16,
}

/// The position of the first `c` in `s`, or -1.
pub open spec fn first_index(s: Seq<char>, c: char) -> int
    decreases s.len(),
{
    if s.len() == 0 {
        -1
    } else if s[0] == c {
        0
    } else {
        let r = first_index(s.drop_first(), c);
        if r < 0 {
            -1
        } else {
            r + 1
        }
    }
}

/// The position of the last `c` in `s`, or -1.
pub open spec fn last_index(s: Seq<char>, c: char) -> int
    decreases s.len(),
{
    if s.len() == 0 {
        -1
    } else if s.last() == c {
        s.len() - 1
    } else {
        last_index(s.drop_last(), c)
    }
}

/// Whether every character of `s` is an ASCII digit.
pub open spec fn all_digits(s: Seq<char>) -> bool {
    forall|i: int| 0 <= i < s.len() ==> '0' <= #[trigger] s[i] <= '9'
}

/// The number that the decimal digits `s` spell.
pub open spec fn digits_value(s: Seq<char>) -> nat
    decreases s.len(),
{
    if s.len() == 0 {
        0
    } else {
        digits_value(s.drop_last()) * 10 + ((s.last() as nat) - 48) as nat
    }
}

/// The address with `https://` put in front when it names no scheme.
pub open spec fn url_with_scheme(url: Seq<char>) -> Seq<char> {
    if contains_seq(url, "://"@) {
        url
    } else {
        "https://"@ + url
    }
}

/// Whether the request goes over TLS.
pub open spec fn url_secure(url: Seq<char>) -> bool {
    has_prefix(url_with_scheme(url), "https://"@)
}

/// Whether the scheme is one of the two that are served.
pub open spec fn url_scheme_ok(url: Seq<char>) -> bool {
    has_prefix(url_with_scheme(url), "https://"@) || has_prefix(url_with_scheme(url), "http://"@)
}

/// What follows the scheme.
pub open spec fn url_rest(url: Seq<char>) -> Seq<char> {
    let w = url_with_scheme(url);
    if url_secure(url) {
        w.subrange(8, w.len() as int)
    } else {
        w.subrange(7, w.len() as int)
    }
}

/// Host and optional port: the rest up to the first `/`.
pub open spec fn url_authority(url: Seq<char>) -> Seq<char> {
    let r = url_rest(url);
    let i = first_index(r, '/');
    if i < 0 {
        r
    } else {
        r.subrange(0, i)
    }
}

/// The path with its query: from the first `/` on, or `/` when there is none.
pub open spec fn url_path(url: Seq<char>) -> Seq<char> {
    let r = url_rest(url);
    let i = first_index(r, '/');
    if i < 0 {
        "/"@
    } else {
        r.subrange(i, r.len() as int)
    }
}

/// What follows the last `:` of the authority.
pub open spec fn port_text(authority: Seq<char>) -> Seq<char> {
    let j = last_index(authority, ':');
    authority.subrange(j + 1, authority.len() as int)
}

/// Whether the authority ends in `:` and a non-empty run of digits.
pub open spec fn port_given(authority: Seq<char>) -> bool {
    last_index(authority, ':') >= 0 && port_text(authority).len() > 0 && all_digits(
        port_text(authority),
    )
}

/// The host: the authority without its port, when a port is given.
pub open spec fn url_host(url: Seq<char>) -> Seq<char> {
    let a = url_authority(url);
    if port_given(a) {
        a.subrange(0, last_index(a, ':'))
    } else {
        a
    }
}

/// The port: the one given, else the scheme's default.
pub open spec fn url_port(url: Seq<char>) -> int {
    let a = url_authority(url);
    if port_given(a) {
        digits_value(port_text(a)) as int
    } else if url_secure(url) {
        443
    } else {
        80
    }
}

/// Why `url` is refused, or `None` when it is accepted.
pub open spec fn url_error(url: Seq<char>) -> Option<Seq<char>> {
    let a = url_authority(url);
    if !url_scheme_ok(url) {
        Some("接口地址必须以 http:// 或 https:// 开头："@ + url)
    } else if a.len() == 0 {
        Some("接口地址缺少主机名："@ + url)
    } else if port_given(a) && digits_value(port_text(a)) > 65535 {
        Some("端口不是合法数字："@ + port_text(a))
    } else if url_host(url).len() == 0 {
        Some("接口地址缺少主机名："@ + url)
    } else {
        None
    }
}

pub proof fn lemma_first_index(s: Seq<char>, c: char, i: int)
    requires
        0 <= i <= s.len(),
        forall|j: int| 0 <= j < i ==> s[j] != c,
        i < s.len() ==> s[i] == c,
    ensures
        first_index(s, c) == (if i == s.len() { -1 } else { i }),
    decreases s.len(),
{
    if s.len() > 0 && i > 0 {
        lemma_first_index(s.drop_first(), c, i - 1);
    }
}

proof fn lemma_last_index(s: Seq<char>, c: char, i: int)
    requires
        -1 <= i < s.len(),
        forall|j: int| i < j < s.len() ==> s[j] != c,
        i >= 0 ==> s[i] == c,
    ensures
        last_index(s, c) == i,
    decreases s.len(),
{
    if s.len() > 0 && i < s.len() - 1 {
        lemma_last_index(s.drop_last(), c, i);
    }
}

proof fn lemma_digits_grow(s: Seq<char>, k: int)
    requires
        0 <= k <= s.len(),
    ensures
        digits_value(s.subrange(0, k)) <= digits_value(s),
    decreases s.len() - k,
{
    if k < s.len() {
        lemma_digits_grow(s, k + 1);
        assert(s.subrange(0, k + 1).drop_last() =~= s.subrange(0, k));
    } else {
        assert(s.subrange(0, k) =~= s);
    }
}

/// `chars[from..to]` read as a decimal number, or `None` when it exceeds 65535.
fn port_value(chars: &Vec<char>, from: usize, to: usize) -> (r: Option<u16>)
    requires
        from <= to <= chars.len(),
        all_digits(chars@.subrange(from as int, to as int)),
    ensures
        match r {
            Some(v) => v == digits_value(chars@.subrange(from as int, to as int)),
            None => digits_value(chars@.subrange(from as int, to as int)) > 65535,
        },
{
    let ghost p = chars@.subrange(from as int, to as int);
    let mut value: u32 = 0;
    let mut i = from;
    while i < to
        invariant
            from <= i <= to <= chars.len(),
            p == chars@.subrange(from as int, to as int),
            all_digits(p),
            value == digits_value(chars@.subrange(from as int, i as int)),
            value <= 65535,
        decreases to - i,
    {
        let c = chars[i];
        assert(p[i - from] == c);
        let d: u32 = (c as u32) - 48;
        let ghost prev = chars@.subrange(from as int, i as int);
        let ghost next = chars@.subrange(from as int, i + 1);
        assert(next.drop_last() =~= prev);
        assert(next.last() == c);
        value = value * 10 + d;
        assert(value == digits_value(next));
        if value > 65535 {
            proof {
                assert(p.subrange(0, i + 1 - from) =~= next);
                lemma_digits_grow(p, i + 1 - from);
            }
            return None;
        }
        i = i + 1;
    }
    Some(value as u16)
}

/// The error text `head` followed by `tail`.
fn message_with(head: &str, tail: &Vec<char>, from: usize, to: usize) -> (e: HttpError)
    requires
        from <= to <= tail.len(),
    ensures
        e is Other,
        e->Other_0@ == head@ + tail@.subrange(from as int, to as int),
{
    let mut s = String::from_str(head);
    push_range(&mut s, tail, from, to);
    HttpError::Other(s)
}

/// The address with `https://` put in front when it names no scheme.
fn scheme_applied(url: &str) -> (w: Vec<char>)
    ensures
        w@ == url_with_scheme(url@),
{
    let url_chars = chars_of(url);
    let sep = chars_of("://");
    if find_seq(&url_chars, &sep).is_some() {
        url_chars
    } else {
        let mut s = String::from_str("https://");
        s.append(url);
        chars_of(s.as_str())
    }
}

/// The first position at or after `from` that holds `c`, or the length.
fn find_char_from(w: &Vec<char>, from: usize, c: char) -> (i: usize)
    requires
        from <= w.len(),
    ensures
        from <= i <= w.len(),
        first_index(w@.subrange(from as int, w.len() as int), c) == (if i == w.len() {
            -1
        } else {
            i - from
        }),
{
    let n = w.len();
    let mut i = from;
    while i < n && w[i] != c
        invariant
            from <= i <= n == w.len(),
            forall|j: int| from <= j < i ==> w@[j] != c,
        decreases n - i,
    {
        i = i + 1;
    }
    proof {
        let rest = w@.subrange(from as int, n as int);
        assert forall|j: int| 0 <= j < i - from implies rest[j] != c by {
            assert(rest[j] == w@[from + j]);
        }
        lemma_first_index(rest, c, i - from);
    }
    i
}

/// One past the last position in `from..to` that holds `c`, or `from`.
fn after_last_char(w: &Vec<char>, from: usize, to: usize, c: char) -> (i: usize)
    requires
        from <= to <= w.len(),
    ensures
        from <= i <= to,
        last_index(w@.subrange(from as int, to as int), c) == i - from - 1,
{
    let mut i = to;
    while i > from && w[i - 1] != c
        invariant
            from <= i <= to <= w.len(),
            forall|j: int| i <= j < to ==> w@[j] != c,
        decreases i,
    {
        i = i - 1;
    }
    proof {
        let a = w@.subrange(from as int, to as int);
        let ci = i - from - 1;
        assert forall|j: int| ci < j < a.len() implies a[j] != c by {
            assert(a[j] == w@[from + j]);
        }
        if ci >= 0 {
            assert(a[ci] == w@[i - 1]);
        }
        lemma_last_index(a, c, ci);
    }
    i
}

/// Whether `w[from..to]` is made of ASCII digits only.
fn digits_only(w: &Vec<char>, from: usize, to: usize) -> (r: bool)
    requires
        from <= to <= w.len(),
    ensures
        r == all_digits(w@.subrange(from as int, to as int)),
{
    let ghost p = w@.subrange(from as int, to as int);
    let mut k = from;
    while k < to
        invariant
            from <= k <= to <= w.len(),
            p == w@.subrange(from as int, to as int),
            forall|j: int| from <= j < k ==> '0' <= #[trigger] w@[j] <= '9',
        decreases to - k,
    {
        if !('0' <= w[k] && w[k] <= '9') {
            assert(p[k - from] == w@[k as int]);
            return false;
        }
        k = k + 1;
    }
    assert forall|i: int| 0 <= i < p.len() implies '0' <= #[trigger] p[i] <= '9' by {
        assert(p[i] == w@[from + i]);
    }
    true
}

/// Splits a request address into host, path, scheme and port.
///
/// An address without `://` is taken as HTTPS. Only `http://` and `https://`
/// are served; the path runs from the first `/` (or is `/`); a port is taken
/// from a final `:` followed by digits only, else the scheme's default port.
#[verifier::spinoff_prover]
#[verifier::rlimit(40)]
pub fn parse_url(url: &str) -> (r: Result<UrlParts, HttpError>)
    ensures
        r is Ok <==> url_error(url@) is None,
        match r {
            Ok(parts) => {
                &&& parts.host@ == url_host(url@)
                &&& parts.path@ == url_path(url@)
                &&& parts.secure == url_secure(url@)
                &&& parts.port == url_port(url@)
            },
            Err(e) => e is Other && url_error(url@) == Some(e->Other_0@),
        },
{
    proof {
        reveal_strlit("https://");
        reveal_strlit("http://");
    }
    let url_chars = chars_of(url);
    assert(url_chars@.subrange(0, url_chars@.len() as int) =~= url@);
    let w = scheme_applied(url);
    let n = w.len();
    let secure = matches_at(&w, &chars_of("https://"), 0);
    let r0: usize = if secure {
        8
    } else if matches_at(&w, &chars_of("http://"), 0) {
        7
    } else {
        return Err(message_with("接口地址必须以 http:// 或 https:// 开头：", &url_chars, 0, url_chars.len()));
    };
    assert(w@.subrange(r0 as int, n as int) == url_rest(url@));
    let slash = find_char_from(&w, r0, '/');
    let ghost authority = w@.subrange(r0 as int, slash as int);
    assert(authority =~= url_authority(url@));
    if slash == r0 {
        return Err(message_with("接口地址缺少主机名：", &url_chars, 0, url_chars.len()));
    }
    let colon = after_last_char(&w, r0, slash, ':');
    assert(authority.subrange(colon - r0, authority.len() as int) =~= w@.subrange(
        colon as int,
        slash as int,
    ));
    let given = colon > r0 && colon < slash && digits_only(&w, colon, slash);
    assert(given == port_given(authority));
    let (host_end, port) = if given {
        match port_value(&w, colon, slash) {
            Some(p) => (colon - 1, p),
            None => {
                return Err(message_with("端口不是合法数字：", &w, colon, slash));
            },
        }
    } else {
        (slash, if secure { 443u16 } else { 80u16 })
    };
    assert(url_host(url@) =~= w@.subrange(r0 as int, host_end as int));
    if host_end == r0 {
        return Err(message_with("接口地址缺少主机名：", &url_chars, 0, url_chars.len()));
    }
    let mut host = String::new();
    push_range(&mut host, &w, r0, host_end);
    let mut path = String::new();
    if slash < n {
        push_range(&mut path, &w, slash, n);
        assert(path@ =~= url_path(url@));
    } else {
        path.append("/");
    }
    Ok(UrlParts { host, path, secure, port })
}

// ---------------------------------------------------------------------------
// Error codes of the system HTTP stack.
// ---------------------------------------------------------------------------

/// Codes that mean the server could not be reached.
pub open spec fn is_unreachable_code(c: int) -> bool {
    c == 12007 || c == 12029 || c == 12030 || c == 12031
}

/// Codes that mean the request timed out.
pub open spec fn is_timeout_code(c: int) -> bool {
    c == 12002 || c == 12017 || c == 12028
}

/// Codes that mean TLS or certificate validation failed.
pub open spec fn is_tls_code(c: int) -> bool {
    c == 12157 || c == 12169 || c == 12175 || c == 12179
}

/// Maps an error code of the system HTTP stack to its meaning.
///
/// Only the low 16 bits count: a code wrapped as an HRESULT (`0x8007xxxx`)
/// and the bare Win32 code classify alike.
pub fn classify(code: u32, context: &str) -> (e: HttpError)
    ensures
        ({
            let c = code % 65536;
            match e {
                HttpError::Unreachable(d) => is_unreachable_code(c as int) && d@ == context@
                    + "，WinHTTP 错误 "@ + decimal(c as nat),
                HttpError::Timeout(d) => is_timeout_code(c as int) && d@ == context@
                    + "，WinHTTP 错误 "@ + decimal(c as nat),
                HttpError::Tls(d) => is_tls_code(c as int) && d@ == context@ + "，WinHTTP 错误 "@
                    + decimal(c as nat),
                HttpError::Other(d) => !is_unreachable_code(c as int) && !is_timeout_code(c as int)
                    && !is_tls_code(c as int) && d@ == context@ + "（WinHTTP 错误 "@ + decimal(
                    c as nat,
                ) + "）"@,
            }
        }),
{
    let c: u32 = code % 65536;
    let mut d = String::from_str(context);
    if c == 12007 || c == 12029 || c == 12030 || c == 12031 {
        d.append("，WinHTTP 错误 ");
        push_decimal(&mut d, c as u64);
        HttpError::Unreachable(d)
    } else if c == 12002 || c == 12017 || c == 12028 {
        d.append("，WinHTTP 错误 ");
        push_decimal(&mut d, c as u64);
        HttpError::Timeout(d)
    } else if c == 12157 || c == 12169 || c == 12175 || c == 12179 {
        d.append("，WinHTTP 错误 ");
        push_decimal(&mut d, c as u64);
        HttpError::Tls(d)
    } else {
        d.append("（WinHTTP 错误 ");
        push_decimal(&mut d, c as u64);
        d.append("）");
        HttpError::Other(d)
    }
}

// ---------------------------------------------------------------------------
// The header block.
// ---------------------------------------------------------------------------

/// The UTF-16 code units of one character.
pub open spec fn utf16_units(c: char) -> Seq<u16> {
    let u = c as u32;
    if u < 0x10000 {
        seq![u as u16]
    } else {
        seq![(0xD800 + (u - 0x10000) / 1024) as u16, (0xDC00 + (u - 0x10000) % 1024) as u16]
    }
}

/// The UTF-16 encoding of a character sequence.
pub open spec fn utf16(s: Seq<char>) -> Seq<u16>
    decreases s.len(),
{
    if s.len() == 0 {
        Seq::empty()
    } else {
        utf16(s.drop_last()) + utf16_units(s.last())
    }
}

/// `s` with every CR and LF replaced by a space.
pub open spec fn cleaned(s: Seq<char>) -> Seq<char> {
    s.map_values(|c: char| if c == '\r' || c == '\n' { ' ' } else { c })
}

/// One header line: `Name: value` and CRLF, with CR and LF removed from the
/// name and the value.
pub open spec fn header_line(name: Seq<char>, value: Seq<char>) -> Seq<u16> {
    utf16(cleaned(name)) + utf16(": "@) + utf16(cleaned(value)) + utf16("\r\n"@)
}

/// The header lines one after the other, with no terminating NUL.
pub open spec fn header_block_units(headers: Seq<(Seq<char>, Seq<char>)>) -> Seq<u16>
    decreases headers.len(),
{
    if headers.len() == 0 {
        Seq::empty()
    } else {
        header_block_units(headers.drop_last()) + header_line(headers.last().0, headers.last().1)
    }
}

/// The headers as character sequences.
pub open spec fn header_texts(headers: Seq<(&str, &str)>) -> Seq<(Seq<char>, Seq<char>)> {
    headers.map_values(|h: (&str, &str)| (h.0@, h.1@))
}

/// Appends the UTF-16 units of `s`, with CR and LF made spaces when `clean`.
fn push_utf16(out: &mut Vec<u16>, s: &str, clean: bool)
    ensures
        final(out)@ == old(out)@ + utf16(if clean { cleaned(s@) } else { s@ }),
{
    let chars = chars_of(s);
    let ghost src = if clean { cleaned(s@) } else { s@ };
    let mut i: usize = 0;
    while i < chars.len()
        invariant
            i <= chars.len(),
            chars@ == s@,
            src == (if clean { cleaned(s@) } else { s@ }),
            src.len() == chars.len(),
            out@ == old(out)@ + utf16(src.subrange(0, i as int)),
        decreases chars.len() - i,
    {
        let raw = chars[i];
        let c = if clean && (raw == '\r' || raw == '\n') {
            ' '
        } else {
            raw
        };
        assert(src[i as int] == c);
        proof {
            vstd::utf8::char_is_scalar(c);
        }
        let u: u32 = c as u32;
        if u < 0x10000 {
            out.push(u as u16);
        } else {
            let v: u32 = u - 0x10000;
            out.push((0xD800 + v / 1024) as u16);
            out.push((0xDC00 + v % 1024) as u16);
        }
        proof {
            let next = src.subrange(0, i + 1);
            assert(next.drop_last() =~= src.subrange(0, i as int));
            assert(next.last() == c);
            assert(out@ =~= old(out)@ + utf16(next));
        }
        i = i + 1;
    }
    assert(src.subrange(0, chars.len() as int) =~= src);
}

/// The request headers as one block for the system HTTP stack: each header
/// as `Name: value` and CRLF, in UTF-16, with no terminating NUL (the block's
/// length is passed as its exact size). CR and LF inside names and values
/// become spaces, so that a pasted key cannot add header lines.
pub fn header_block(headers: &[(&str, &str)]) -> (out: Vec<u16>)
    ensures
        out@ == header_block_units(header_texts(headers@)),
{
    let mut out: Vec<u16> = Vec::new();
    let mut i: usize = 0;
    while i < headers.len()
        invariant
            i <= headers@.len(),
            out@ == header_block_units(header_texts(headers@.subrange(0, i as int))),
        decreases headers.len() - i,
    {
        let (k, v) = headers[i];
        push_utf16(&mut out, k, true);
        push_utf16(&mut out, ": ", false);
        push_utf16(&mut out, v, true);
        push_utf16(&mut out, "\r\n", false);
        proof {
            let next = header_texts(headers@.subrange(0, i + 1));
            assert(next.drop_last() =~= header_texts(headers@.subrange(0, i as int)));
            assert(next.last() == (k@, v@));
            assert(out@ =~= header_block_units(next));
        }
        i = i + 1;
    }
    assert(headers@.subrange(0, headers@.len() as int) =~= headers@);
    out
}

/// How many times the unit `u` occurs in `s`.
pub open spec fn count_units(s: Seq<u16>, u: u16) -> nat
    decreases s.len(),
{
    if s.len() == 0 {
        0
    } else {
        count_units(s.drop_last(), u) + if s.last() == u {
            1nat
        } else {
            0nat
        }
    }
}

proof fn lemma_count_concat(a: Seq<u16>, b: Seq<u16>, u: u16)
    ensures
        count_units(a + b, u) == count_units(a, u) + count_units(b, u),
    decreases b.len(),
{
    if b.len() > 0 {
        assert((a + b).drop_last() =~= a + b.drop_last());
        lemma_count_concat(a, b.drop_last(), u);
    } else {
        assert(a + b =~= a);
    }
}

/// A unit below the surrogate range occurs in the encoding of `s` only where
/// `s` holds the character with that code.
proof fn lemma_utf16_avoids(s: Seq<char>, u: u16)
    requires
        u < 0xD800,
        forall|i: int| 0 <= i < s.len() ==> (#[trigger] s[i]) as u32 != u,
    ensures
        count_units(utf16(s), u) == 0,
    decreases s.len(),
{
    broadcast use vstd::utf8::char_is_scalar;

    if s.len() > 0 {
        let c = s.last();
        assert(c == s[s.len() - 1]);
        lemma_utf16_avoids(s.drop_last(), u);
        lemma_count_concat(utf16(s.drop_last()), utf16_units(c), u);
        let w = utf16_units(c);
        if (c as u32) < 0x10000 {
            assert(w.drop_last() =~= Seq::<u16>::empty());
            assert(count_units(w.drop_last(), u) == 0);
        } else {
            vstd::utf8::char_is_scalar(c);
            assert(c as u32 <= 0x10FFFF);
            let v = (c as u32) - 0x10000;
            assert(v / 1024 <= 1023) by (nonlinear_arith)
                requires
                    0 <= v <= 0xFFFFF,
            ;
            assert(w[0] == (0xD800 + v / 1024) as u16);
            assert(w[0] >= 0xD800);
            assert(w.drop_last().drop_last() =~= Seq::<u16>::empty());
            assert(count_units(w.drop_last().drop_last(), u) == 0);
            assert(count_units(w.drop_last(), u) == 0);
        }
    }
}

proof fn lemma_literal_units()
    ensures
        count_units(utf16(": "@), 0) == 0,
        count_units(utf16(": "@), 10) == 0,
        count_units(utf16("\r\n"@), 0) == 0,
        count_units(utf16("\r\n"@), 10) == 1,
{
    broadcast use vstd::utf8::char_is_scalar;

    reveal_strlit(": ");
    reveal_strlit("\r\n");
    let colon = ": "@;
    let crlf = "\r\n"@;
    assert(colon[0] == ':' && colon[1] == ' ');
    lemma_utf16_avoids(colon, 0);
    lemma_utf16_avoids(colon, 10);
    assert(crlf.drop_last() =~= seq!['\r']);
    assert(seq!['\r'].drop_last() =~= Seq::<char>::empty());
    assert(utf16(Seq::<char>::empty()) =~= Seq::<u16>::empty());
    assert(utf16(seq!['\r']) =~= seq![13u16]);
    assert(utf16(crlf) =~= seq![13u16, 10u16]);
    let e = seq![13u16, 10u16];
    assert(e.drop_last() =~= seq![13u16]);
    assert(seq![13u16].drop_last() =~= Seq::<u16>::empty());
    assert(count_units(Seq::<u16>::empty(), 0) == 0);
    assert(count_units(Seq::<u16>::empty(), 10) == 0);
    assert(count_units(seq![13u16], 0) == 0);
    assert(count_units(seq![13u16], 10) == 0);
}

proof fn lemma_cleaned_has_no_line_break(s: Seq<char>)
    ensures
        forall|i: int| 0 <= i < cleaned(s).len() ==> (#[trigger] cleaned(s)[i]) as u32 != 10,
        forall|i: int|
            0 <= i < cleaned(s).len() && (#[trigger] cleaned(s)[i]) as u32 == 0 ==> s[i] as u32
                == 0,
{
    broadcast use vstd::utf8::char_is_scalar;

    broadcast use vstd::utf8::char_u32_cast;

    assert forall|i: int| 0 <= i < cleaned(s).len() implies (#[trigger] cleaned(s)[i]) as u32
        != 10 by {
        let c = s[i];
        let d = cleaned(s)[i];
        assert(d == (if c == '\r' || c == '\n' { ' ' } else { c }));
        assert(('\n' as u32) == 10);
        if d as u32 == 10 {
            vstd::utf8::char_u32_cast(d, d as u32);
            vstd::utf8::char_u32_cast('\n', '\n' as u32);
            assert(d == '\n');
        }
    }
}

/// Lines of a header block cannot be forged: whatever the names and values
/// hold, the block has exactly one LF per header (each line's own CRLF).
pub proof fn law_header_block_one_line_per_header(headers: Seq<(Seq<char>, Seq<char>)>)
    ensures
        count_units(header_block_units(headers), 10) == headers.len(),
    decreases headers.len(),
{
    if headers.len() > 0 {
        let (name, value) = headers.last();
        law_header_block_one_line_per_header(headers.drop_last());
        lemma_literal_units();
        lemma_cleaned_has_no_line_break(name);
        lemma_cleaned_has_no_line_break(value);
        lemma_utf16_avoids(cleaned(name), 10);
        lemma_utf16_avoids(cleaned(value), 10);
        let a = utf16(cleaned(name));
        let b = utf16(": "@);
        let c = utf16(cleaned(value));
        let d = utf16("\r\n"@);
        lemma_count_concat(a, b, 10);
        lemma_count_concat(a + b, c, 10);
        lemma_count_concat(a + b + c, d, 10);
        lemma_count_concat(header_block_units(headers.drop_last()), a + b + c + d, 10);
    }
}

/// The header block holds no NUL unit unless a name or a value holds a NUL
/// character: the block is passed with its exact length, and a NUL in it
/// makes the system HTTP stack refuse the request.
pub proof fn law_header_block_has_no_nul(headers: Seq<(Seq<char>, Seq<char>)>)
    requires
        forall|i: int, j: int|
            0 <= i < headers.len() && 0 <= j < headers[i].0.len() ==> (#[trigger] headers[i].0[j])
                as u32 != 0,
        forall|i: int, j: int|
            0 <= i < headers.len() && 0 <= j < headers[i].1.len() ==> (#[trigger] headers[i].1[j])
                as u32 != 0,
    ensures
        count_units(header_block_units(headers), 0) == 0,
    decreases headers.len(),
{
    if headers.len() > 0 {
        let last = headers.len() - 1;
        let (name, value) = headers[last];
        assert(headers.last() == headers[last]);
        assert forall|i: int, j: int|
            0 <= i < headers.drop_last().len() && 0 <= j < headers.drop_last()[i].0.len() implies (
            #[trigger] headers.drop_last()[i].0[j]) as u32 != 0 by {
            assert(headers.drop_last()[i] == headers[i]);
        }
        assert forall|i: int, j: int|
            0 <= i < headers.drop_last().len() && 0 <= j < headers.drop_last()[i].1.len() implies (
            #[trigger] headers.drop_last()[i].1[j]) as u32 != 0 by {
            assert(headers.drop_last()[i] == headers[i]);
        }
        law_header_block_has_no_nul(headers.drop_last());
        lemma_literal_units();
        lemma_cleaned_has_no_line_break(name);
        lemma_cleaned_has_no_line_break(value);
        assert forall|j: int| 0 <= j < cleaned(name).len() implies (#[trigger] cleaned(name)[j])
            as u32 != 0 by {
            assert(headers[last].0[j] as u32 != 0);
        }
        assert forall|j: int| 0 <= j < cleaned(value).len() implies (#[trigger] cleaned(value)[j])
            as u32 != 0 by {
            assert(headers[last].1[j] as u32 != 0);
        }
        lemma_utf16_avoids(cleaned(name), 0);
        lemma_utf16_avoids(cleaned(value), 0);
        let a = utf16(cleaned(name));
        let b = utf16(": "@);
        let c = utf16(cleaned(value));
        let d = utf16("\r\n"@);
        lemma_count_concat(a, b, 0);
        lemma_count_concat(a + b, c, 0);
        lemma_count_concat(a + b + c, d, 0);
        lemma_count_concat(header_block_units(headers.drop_last()), a + b + c + d, 0);
    }
}

} // verus!
