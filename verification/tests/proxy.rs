use tbwidget::proxy_config::{cli_proxy, normalize_proxy, resolve_proxy, ProxyFile};

#[test]
fn cli_proxy_reads_separate_value() {
    let proxy = cli_proxy(&["widget", "--proxy", "http://127.0.0.1:7890"])
        .expect("separate --proxy value should be accepted");

    assert_eq!(proxy.as_deref(), Some("http://127.0.0.1:7890"));
}

#[test]
fn cli_proxy_rejects_missing_value() {
    let error = cli_proxy(&["widget", "--proxy"])
        .expect_err("--proxy without a value must be rejected");

    assert!(error.contains("缺少代理地址"));
}

#[test]
fn cli_proxy_rejects_repeated_flag() {
    let error = cli_proxy(&[
        "widget",
        "--proxy",
        "http://127.0.0.1:7890",
        "--proxy",
        "http://127.0.0.1:7891",
    ])
    .expect_err("repeated --proxy must be rejected");

    assert!(error.contains("不能重复使用"));
}

#[test]
fn cli_proxy_without_flag_is_none_and_flag_as_value_is_missing() {
    assert_eq!(cli_proxy(&["widget", "--other"]).unwrap(), None);
    assert_eq!(
        cli_proxy(&["widget", "--proxy", "--proxy"]).unwrap_err(),
        "命令行参数 --proxy 缺少代理地址"
    );
}

#[test]
fn resolve_proxy_prefers_cli_value() {
    let proxy = resolve_proxy(
        Some("http://127.0.0.1:7890".to_string()),
        Some(ProxyFile {
            proxy: "http://127.0.0.1:7891".to_string(),
        }),
    );

    assert_eq!(proxy.as_deref(), Some("http://127.0.0.1:7890"));
}

#[test]
fn resolve_proxy_falls_back_to_file_value() {
    let proxy = resolve_proxy(
        None,
        Some(ProxyFile {
            proxy: "http://127.0.0.1:7890".to_string(),
        }),
    );

    assert_eq!(proxy.as_deref(), Some("http://127.0.0.1:7890"));
}

#[test]
fn resolve_proxy_treats_blank_values_as_no_proxy() {
    let cli_proxy = resolve_proxy(
        Some("  ".to_string()),
        Some(ProxyFile {
            proxy: "http://127.0.0.1:7890".to_string(),
        }),
    );
    let file_proxy = resolve_proxy(
        None,
        Some(ProxyFile {
            proxy: "\t".to_string(),
        }),
    );

    assert_eq!(cli_proxy, None);
    assert_eq!(file_proxy, None);
}

#[test]
fn proxy_values_are_trimmed() {
    assert_eq!(
        normalize_proxy("  socks5://h:1080 \n".to_string()).as_deref(),
        Some("socks5://h:1080")
    );
    assert_eq!(resolve_proxy(None, None), None);
}

#[test]
fn cli_proxy_ignores_other_arguments_around_a_single_flag() {
    assert_eq!(
        cli_proxy(&["widget", "--flag", "x", "--proxy", "socks5://h:1", "--other"]).unwrap(),
        Some("socks5://h:1".to_string())
    );
    assert!(cli_proxy(&["widget", "x", "--proxy"]).is_err());
    assert!(cli_proxy(&["widget", "--proxy", "a", "b", "--proxy"]).is_err());
}
