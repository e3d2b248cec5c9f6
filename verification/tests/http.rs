use tbwidget::http::{
    build_http_response, check_content_length, default_http_method, prepare_http_headers,
    prepare_http_target, request_timeout_ms, PluginHttpRequest,
};

fn request(url: &str, method: &str) -> PluginHttpRequest {
    PluginHttpRequest {
        url: url.to_string(),
        method: method.to_string(),
        headers: Vec::new(),
        body: None,
        timeout_ms: None,
        proxy_url: None,
        response_type: None,
    }
}

#[test]
fn requests_are_checked_before_sending() {
    assert_eq!(default_http_method(), "GET");
    let target = prepare_http_target(&request("  https://example.com/a?b=1 ", " POST ")).unwrap();
    assert_eq!(target.url, "https://example.com/a?b=1");
    assert_eq!(target.timeout_ms, 15_000);
    assert!(target.proxy.is_none());
    assert_eq!(
        prepare_http_target(&request("ftp://example.com/", "GET")).err().unwrap(),
        "HTTP 请求只允许 http:// 或 https://"
    );
    assert!(prepare_http_target(&request("not a url", "GET"))
        .err()
        .unwrap()
        .starts_with("HTTP URL 无效："));
    assert_eq!(
        prepare_http_target(&request("http://example.com/", "GE T")).err().unwrap(),
        "HTTP method 无效：invalid HTTP method"
    );
    let mut with_proxy = request("http://example.com/", "GET");
    with_proxy.proxy_url = Some("  http://127.0.0.1:7890 ".to_string());
    with_proxy.timeout_ms = Some(5);
    let target = prepare_http_target(&with_proxy).unwrap();
    assert!(target.proxy.is_some());
    assert_eq!(target.timeout_ms, 100);
    let mut blank_proxy = request("http://example.com/", "GET");
    blank_proxy.proxy_url = Some("   ".to_string());
    assert!(prepare_http_target(&blank_proxy).unwrap().proxy.is_none());
}

#[test]
fn timeouts_are_clamped() {
    assert_eq!(request_timeout_ms(None), 15_000);
    assert_eq!(request_timeout_ms(Some(0)), 100);
    assert_eq!(request_timeout_ms(Some(500)), 500);
    assert_eq!(request_timeout_ms(Some(1_000_000)), 120_000);
}

#[test]
fn headers_are_checked_in_order() {
    let ok = vec![("accept".to_string(), "text/plain".to_string())];
    assert_eq!(prepare_http_headers(&ok).unwrap().len(), 1);
    let bad_name = vec![("bad name".to_string(), "v".to_string())];
    assert_eq!(
        prepare_http_headers(&bad_name).err().unwrap(),
        "HTTP header 名称无效：invalid HTTP header name"
    );
    let bad_value = vec![("x-a".to_string(), "a\nb".to_string())];
    assert_eq!(
        prepare_http_headers(&bad_value).err().unwrap(),
        "HTTP header 值无效：failed to parse header value"
    );
}

#[test]
fn responses_are_limited_and_shaped() {
    assert!(check_content_length(None).is_ok());
    assert!(check_content_length(Some(16 * 1024 * 1024)).is_ok());
    assert_eq!(
        check_content_length(Some(16 * 1024 * 1024 + 1)).unwrap_err(),
        "HTTP 响应超过 16 MiB 限制"
    );
    let text = build_http_response(200, Vec::new(), b"hi".to_vec(), &None).unwrap();
    assert!(text.ok);
    assert_eq!(text.body.as_deref(), Some("hi"));
    assert!(text.bytes.is_none());
    let bytes = build_http_response(404, Vec::new(), vec![0xff, 0x00], &Some("bytes".to_string()))
        .unwrap();
    assert!(!bytes.ok);
    assert_eq!(bytes.bytes, Some(vec![0xff, 0x00]));
    assert!(bytes.body.is_none());
    let lossy = build_http_response(299, Vec::new(), vec![b'a', 0xff], &Some("text".to_string()))
        .unwrap();
    assert!(lossy.ok);
    assert_eq!(lossy.body.as_deref(), Some("a\u{fffd}"));
    let big = vec![0u8; 16 * 1024 * 1024 + 1];
    assert_eq!(
        build_http_response(200, Vec::new(), big, &None).err().unwrap(),
        "HTTP 响应超过 16 MiB 限制"
    );
}

#[test]
fn requests_keep_the_asked_method() {
    let target = prepare_http_target(&request("https://example.com/", " POST ")).unwrap();
    assert_eq!(target.method.as_str(), "POST");
    let target = prepare_http_target(&request("https://example.com/", "patch")).unwrap();
    assert_eq!(target.method.as_str(), "patch");
    let mut schemeless_proxy = request("http://example.com/", "GET");
    schemeless_proxy.proxy_url = Some("127.0.0.1:7890".to_string());
    assert!(prepare_http_target(&schemeless_proxy).unwrap().proxy.is_some());
}

#[test]
fn headers_keep_their_names_values_and_order() {
    let headers = vec![
        ("Accept".to_string(), "text/plain".to_string()),
        ("X-Custom".to_string(), "é v".to_string()),
        ("x-b".to_string(), "".to_string()),
    ];
    let parsed = prepare_http_headers(&headers).unwrap();
    assert_eq!(parsed.len(), 3);
    assert_eq!(parsed[0].0.as_str(), "accept");
    assert_eq!(parsed[0].1.as_bytes(), b"text/plain");
    assert_eq!(parsed[1].0.as_str(), "x-custom");
    assert_eq!(parsed[1].1.as_bytes(), "é v".as_bytes());
    assert_eq!(parsed[2].0.as_str(), "x-b");
    assert_eq!(parsed[2].1.as_bytes(), b"");
}
