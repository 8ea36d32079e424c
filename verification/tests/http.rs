use pristimer::http::{classify, header_block, parse_url, HttpError};

#[test]
fn parses_https_url_with_default_port() {
    let parts = parse_url("https://api.opencode-go.dev/v1/quota").unwrap();
    assert_eq!(parts.host, "api.opencode-go.dev");
    assert_eq!(parts.path, "/v1/quota");
    assert!(parts.secure);
    assert_eq!(parts.port, 443);
}

#[test]
fn parses_explicit_port_and_query() {
    let parts = parse_url("http://127.0.0.1:8080/api/quota?key=1").unwrap();
    assert_eq!(parts.host, "127.0.0.1");
    assert_eq!(parts.port, 8080);
    assert_eq!(parts.path, "/api/quota?key=1");
    assert!(!parts.secure);
}

#[test]
fn bare_host_gets_root_path() {
    let parts = parse_url("https://example.com").unwrap();
    assert_eq!(parts.path, "/");
}

#[test]
fn auto_prepends_https_when_scheme_missing() {
    let parts = parse_url("api.opencode-go.dev/v1/user/self").unwrap();
    assert_eq!(parts.host, "api.opencode-go.dev");
    assert_eq!(parts.path, "/v1/user/self");
    assert!(parts.secure);
    assert_eq!(parts.port, 443);
}

#[test]
fn rejects_unsupported_scheme() {
    let err = parse_url("ftp://example.com/x").unwrap_err();
    assert!(err.message().contains("http://"));
}

#[test]
fn rejects_missing_host() {
    assert!(parse_url("https:///path").is_err());
}

#[test]
fn non_numeric_colon_is_not_a_port() {
    let parts = parse_url("https://example.com:abc/x").unwrap();
    assert_eq!(parts.host, "example.com:abc");
    assert_eq!(parts.port, 443);
}

#[test]
fn classifies_hresult_wrapped_win32_codes() {
    assert!(matches!(classify(0x8007_2EE5, "t"), HttpError::Other(_)));
    assert!(matches!(classify(0x8007_2EFD, "t"), HttpError::Unreachable(_)));
    assert!(matches!(classify(0x8007_2F02, "t"), HttpError::Other(_)));
    assert!(matches!(classify(12002, "t"), HttpError::Timeout(_)));
}

#[test]
fn header_block_must_not_contain_nul() {
    let block = header_block(&[("Authorization", "Bearer oc_sk_abc")]);
    assert!(!block.contains(&0), "header block holds a NUL");
    assert_eq!(block.len(), "Authorization: Bearer oc_sk_abc\r\n".encode_utf16().count());
}

#[test]
fn header_block_is_empty_without_headers() {
    assert!(header_block(&[]).is_empty());
}

#[test]
fn header_block_terminates_each_line_with_crlf() {
    let block = header_block(&[("A", "1"), ("B", "2")]);
    assert_eq!(&block[block.len() - 2..], &[13, 10]);
    let text = String::from_utf16(&block).unwrap();
    assert_eq!(text, "A: 1\r\nB: 2\r\n");
}

#[test]
fn header_block_sanitizes_crlf_injection() {
    let block = header_block(&[("Authorization", "Bearer x\r\nX-Evil: 1")]);
    let text = String::from_utf16(&block).unwrap();
    assert_eq!(text, "Authorization: Bearer x  X-Evil: 1\r\n");
    assert_eq!(text.matches("\r\n").count(), 1);
}

#[test]
fn header_block_encodes_astral_characters_as_surrogate_pairs() {
    let block = header_block(&[("X", "🍅")]);
    let expected: Vec<u16> = "X: 🍅\r\n".encode_utf16().collect();
    assert_eq!(block, expected);
}

#[test]
fn error_messages_name_their_kind() {
    assert_eq!(HttpError::Unreachable("d".to_string()).message(), "无法连接（d）");
    assert_eq!(HttpError::Timeout("d".to_string()).message(), "请求超时（d）");
    assert_eq!(HttpError::Tls("d".to_string()).message(), "TLS 校验失败（d）");
    assert_eq!(HttpError::Other("d".to_string()).message(), "d");
}

#[test]
fn classify_keeps_the_low_code_in_the_detail() {
    match classify(0x8007_2EFD, "WinHttpConnect") {
        HttpError::Unreachable(d) => assert_eq!(d, "WinHttpConnect，WinHTTP 错误 12029"),
        other => panic!("unexpected {other:?}"),
    }
    match classify(12175, "WinHttpSendRequest") {
        HttpError::Tls(d) => assert_eq!(d, "WinHttpSendRequest，WinHTTP 错误 12175"),
        other => panic!("unexpected {other:?}"),
    }
    match classify(12005, "x") {
        HttpError::Other(d) => assert_eq!(d, "x（WinHTTP 错误 12005）"),
        other => panic!("unexpected {other:?}"),
    }
}

#[test]
fn oversized_port_is_refused_with_its_digits() {
    let err = parse_url("https://example.com:70000/x").unwrap_err();
    assert_eq!(err.message(), "端口不是合法数字：70000");
}

#[test]
fn port_without_host_is_refused() {
    let err = parse_url("https://:8080/x").unwrap_err();
    assert_eq!(err.message(), "接口地址缺少主机名：https://:8080/x");
}

#[test]
fn http_defaults_to_port_80_and_keeps_leading_zeros_in_value() {
    let parts = parse_url("http://h:0081").unwrap();
    assert_eq!(parts.host, "h");
    assert_eq!(parts.port, 81);
    assert_eq!(parts.path, "/");
    let parts = parse_url("http://h").unwrap();
    assert_eq!(parts.port, 80);
}

#[test]
fn scheme_error_quotes_the_given_address() {
    let err = parse_url("ftp://x").unwrap_err();
    assert_eq!(err.message(), "接口地址必须以 http:// 或 https:// 开头：ftp://x");
}
