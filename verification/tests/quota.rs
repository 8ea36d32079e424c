use pristimer::http::HttpError;
use pristimer::insight::{QuotaConfig, DEFAULT_ENDPOINT};
use pristimer::quota::{quota_request, response_class, transport_detail, ResponseClass};

#[test]
fn unconfigured_sends_nothing() {
    assert!(quota_request(&QuotaConfig::default()).is_none());
    let keyless = QuotaConfig {
        api_key: " ".into(),
        endpoint: "https://example.com/usage".into(),
    };
    assert!(quota_request(&keyless).is_none());
}

#[test]
fn the_key_goes_out_twice_and_trimmed() {
    let config = QuotaConfig {
        api_key: "  oc_sk_test \n".into(),
        endpoint: String::new(),
    };
    let request = quota_request(&config).unwrap();
    assert_eq!(request.endpoint, DEFAULT_ENDPOINT);
    let headers: Vec<(&str, &str)> = request
        .headers
        .iter()
        .map(|(k, v)| (k.as_str(), v.as_str()))
        .collect();
    assert_eq!(
        headers,
        vec![
            ("Authorization", "Bearer oc_sk_test"),
            ("X-API-Key", "oc_sk_test"),
            ("Accept", "application/json"),
            ("Accept-Language", "zh-CN,zh;q=0.9,en;q=0.8"),
        ]
    );
}

#[test]
fn statuses_map_to_their_meaning() {
    assert_eq!(response_class(200), ResponseClass::Body);
    assert_eq!(response_class(204), ResponseClass::Body);
    assert_eq!(
        response_class(401),
        ResponseClass::Unauthorized {
            message: "服务端返回 401".into()
        }
    );
    assert_eq!(
        response_class(403),
        ResponseClass::Unauthorized {
            message: "服务端返回 403".into()
        }
    );
    assert_eq!(
        response_class(407),
        ResponseClass::Unauthorized {
            message: "服务端返回 407".into()
        }
    );
    assert!(matches!(response_class(404), ResponseClass::ApiError { message } if message.contains("404")));
    assert_eq!(
        response_class(405),
        ResponseClass::ApiError {
            message: "接口不支持此请求方式（405）：需 GET".into()
        }
    );
    assert_eq!(
        response_class(429),
        ResponseClass::ApiError {
            message: "请求过于频繁（429），请稍后再试".into()
        }
    );
    assert_eq!(
        response_class(503),
        ResponseClass::ApiError {
            message: "服务端错误 503".into()
        }
    );
    assert_eq!(
        response_class(302),
        ResponseClass::ApiError {
            message: "未预期的状态码 302".into()
        }
    );
}

#[test]
fn transport_failures_keep_their_detail() {
    assert_eq!(transport_detail(HttpError::Timeout("t".into())), "t");
    assert_eq!(transport_detail(HttpError::Unreachable("u".into())), "u");
    assert_eq!(transport_detail(HttpError::Tls("x".into())), "x");
    assert_eq!(transport_detail(HttpError::Other("o".into())), "o");
}
