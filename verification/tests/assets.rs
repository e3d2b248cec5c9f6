use tbwidget::assets::{
    find, host_asset, host_asset_mime, inject_host_runtime, is_html_mime, mime_type,
    route_decoded, route_request, trim_leading_slashes, AssetRoute, HostAsset,
};

#[test]
fn host_assets_are_routed_by_exact_path() {
    assert_eq!(host_asset("_host/plugin-host.js"), Some(HostAsset::PluginHost));
    assert_eq!(host_asset("_host/vendor/kui-vue.css"), Some(HostAsset::KuiCss));
    assert_eq!(host_asset("_host/vendor/kui-vue.CSS"), None);
    assert_eq!(host_asset_mime(HostAsset::KuiCss), "text/css; charset=utf-8");
    assert_eq!(host_asset_mime(HostAsset::Vue), "text/javascript; charset=utf-8");
}

#[test]
fn mime_types_ignore_ascii_case() {
    assert_eq!(mime_type(Some("HTML")), "text/html; charset=utf-8");
    assert_eq!(mime_type(Some("mjs")), "text/javascript; charset=utf-8");
    assert_eq!(mime_type(Some("Woff2")), "font/woff2");
    assert_eq!(mime_type(Some("exe")), "application/octet-stream");
    assert_eq!(mime_type(None), "application/octet-stream");
    assert!(is_html_mime(mime_type(Some("htm"))));
    assert!(!is_html_mime(mime_type(Some("txt"))));
}

#[test]
fn host_runtime_is_injected_after_the_head_tag() {
    let tag = "<script src=\"/_host/plugin-host.js\"></script>";
    assert_eq!(
        inject_host_runtime("<html><HEAD lang=\"x\"><title>t</title></head></html>"),
        format!("<html><HEAD lang=\"x\">\n{tag}<title>t</title></head></html>")
    );
    assert_eq!(inject_host_runtime("<p>no head</p>"), format!("{tag}\n<p>no head</p>"));
    let already = format!("<head>{tag}</head>");
    assert_eq!(inject_host_runtime(&already), already);
    assert_eq!(inject_host_runtime("<head"), format!("{tag}\n<head"));
    assert_eq!(find("abcabc", "ca"), Some(2));
    assert_eq!(find("abc", "x"), None);
}

#[test]
fn request_paths_are_decoded_and_split() {
    assert_eq!(trim_leading_slashes("//a/b"), "a/b");
    assert_eq!(route_request("/_host/plugin-host.js"), AssetRoute::Host(HostAsset::PluginHost));
    assert_eq!(
        route_request("/demo/panel%20page.html"),
        AssetRoute::PluginFile {
            plugin_id: "demo".to_string(),
            relative: "panel page.html".to_string()
        }
    );
    assert_eq!(
        route_request("/%2Fdemo/a/b.js"),
        AssetRoute::PluginFile { plugin_id: "demo".to_string(), relative: "a/b.js".to_string() }
    );
    assert_eq!(
        route_request("/demo"),
        AssetRoute::BadRequest("插件资源 URL 缺少 pluginId 或文件路径".to_string())
    );
    assert_eq!(
        route_decoded("demo/"),
        AssetRoute::BadRequest("插件资源 URL 缺少 pluginId 或文件路径".to_string())
    );
    match route_request("/demo/%FF.html") {
        AssetRoute::BadRequest(message) => assert!(message.starts_with("插件资源 URL 编码无效：")),
        other => panic!("unexpected route {other:?}"),
    }
}
