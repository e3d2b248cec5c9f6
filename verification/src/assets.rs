//! The `tbplugin://` protocol: routing a request path to a bundled host
//! script or to a file of a plugin, the content type of a plugin file, and
//! the injection of the host runtime into plugin HTML pages.

use vstd::prelude::*;
use vstd::string::*;

use crate::text::{ascii_lowercase, ascii_lowercase_spec, chars_equal, owned};

verus! {

/// The scripts and styles that the host serves itself under `_host/`.
#[derive(Debug, Clone, Copy, PartialEq, Eq, Structural)]
pub enum HostAsset {
    PluginHost,
    PluginVueRuntime,
    Vue,
    Dayjs,
    KuiJs,
    KuiCss,
}

/// The request path of each host asset.
pub open spec fn host_asset_path(asset: HostAsset) -> Seq<char> {
    match asset {
        HostAsset::PluginHost => "_host/plugin-host.js"@,
        HostAsset::PluginVueRuntime => "_host/plugin-vue-runtime.js"@,
        HostAsset::Vue => "_host/vendor/vue.global.prod.js"@,
        HostAsset::Dayjs => "_host/vendor/dayjs.min.js"@,
        HostAsset::KuiJs => "_host/vendor/kui-vue.umd.js"@,
        HostAsset::KuiCss => "_host/vendor/kui-vue.css"@,
    }
}

/// The host asset served at `path`, if any.
pub fn host_asset(path: &str) -> (r: Option<HostAsset>)
    ensures
        match r {
            Some(asset) => path@ == host_asset_path(asset),
            None => forall|asset: HostAsset| path@ != #[trigger] host_asset_path(asset),
        },
{
    if chars_equal(path, "_host/plugin-host.js") {
        Some(HostAsset::PluginHost)
    } else if chars_equal(path, "_host/plugin-vue-runtime.js") {
        Some(HostAsset::PluginVueRuntime)
    } else if chars_equal(path, "_host/vendor/vue.global.prod.js") {
        Some(HostAsset::Vue)
    } else if chars_equal(path, "_host/vendor/dayjs.min.js") {
        Some(HostAsset::Dayjs)
    } else if chars_equal(path, "_host/vendor/kui-vue.umd.js") {
        Some(HostAsset::KuiJs)
    } else if chars_equal(path, "_host/vendor/kui-vue.css") {
        Some(HostAsset::KuiCss)
    } else {
        None
    }
}

/// The content type of a host asset.
pub fn host_asset_mime(asset: HostAsset) -> (mime: &'static str)
    ensures
        mime@ == if asset == HostAsset::KuiCss {
            "text/css; charset=utf-8"@
        } else {
            "text/javascript; charset=utf-8"@
        },
{
    match asset {
        HostAsset::KuiCss => "text/css; charset=utf-8",
        _ => "text/javascript; charset=utf-8",
    }
}

/// The content type for a lower-case file extension.
pub open spec fn mime_for_extension(ext: Seq<char>) -> Seq<char> {
    if ext == "html"@ || ext == "htm"@ {
        "text/html; charset=utf-8"@
    } else if ext == "css"@ {
        "text/css; charset=utf-8"@
    } else if ext == "js"@ || ext == "mjs"@ {
        "text/javascript; charset=utf-8"@
    } else if ext == "json"@ {
        "application/json; charset=utf-8"@
    } else if ext == "svg"@ {
        "image/svg+xml"@
    } else if ext == "png"@ {
        "image/png"@
    } else if ext == "jpg"@ || ext == "jpeg"@ {
        "image/jpeg"@
    } else if ext == "gif"@ {
        "image/gif"@
    } else if ext == "webp"@ {
        "image/webp"@
    } else if ext == "ico"@ {
        "image/x-icon"@
    } else if ext == "woff"@ {
        "font/woff"@
    } else if ext == "woff2"@ {
        "font/woff2"@
    } else if ext == "ttf"@ {
        "font/ttf"@
    } else if ext == "otf"@ {
        "font/otf"@
    } else if ext == "txt"@ {
        "text/plain; charset=utf-8"@
    } else {
        "application/octet-stream"@
    }
}

/// The content type of every file extension a plugin may serve: pages,
/// scripts and style sheets as UTF-8 text, JSON, images, fonts and plain
/// text; any other extension is served as binary.
pub proof fn plugin_files_are_served_with_their_content_types(ext: Seq<char>)
    ensures
        mime_for_extension("html"@) == "text/html; charset=utf-8"@,
        mime_for_extension("htm"@) == "text/html; charset=utf-8"@,
        mime_for_extension("css"@) == "text/css; charset=utf-8"@,
        mime_for_extension("js"@) == "text/javascript; charset=utf-8"@,
        mime_for_extension("mjs"@) == "text/javascript; charset=utf-8"@,
        mime_for_extension("json"@) == "application/json; charset=utf-8"@,
        mime_for_extension("svg"@) == "image/svg+xml"@,
        mime_for_extension("png"@) == "image/png"@,
        mime_for_extension("jpg"@) == "image/jpeg"@,
        mime_for_extension("jpeg"@) == "image/jpeg"@,
        mime_for_extension("gif"@) == "image/gif"@,
        mime_for_extension("webp"@) == "image/webp"@,
        mime_for_extension("ico"@) == "image/x-icon"@,
        mime_for_extension("woff"@) == "font/woff"@,
        mime_for_extension("woff2"@) == "font/woff2"@,
        mime_for_extension("ttf"@) == "font/ttf"@,
        mime_for_extension("otf"@) == "font/otf"@,
        mime_for_extension("txt"@) == "text/plain; charset=utf-8"@,
        ext != "html"@ && ext != "htm"@ && ext != "css"@ && ext != "js"@ && ext != "mjs"@ &&
            ext != "json"@ && ext != "svg"@ && ext != "png"@ && ext != "jpg"@ && ext != "jpeg"@ &&
            ext != "gif"@ && ext != "webp"@ && ext != "ico"@ && ext != "woff"@ &&
            ext != "woff2"@ && ext != "ttf"@ && ext != "otf"@ && ext != "txt"@
            ==> mime_for_extension(ext) == "application/octet-stream"@,
{
    assert(mime_for_extension("html"@) == "text/html; charset=utf-8"@) by {
        reveal_strlit("html");
        reveal_strlit("text/html; charset=utf-8");
    }
    assert(mime_for_extension("htm"@) == "text/html; charset=utf-8"@) by {
        reveal_strlit("htm");
        reveal_strlit("text/html; charset=utf-8");
        reveal_strlit("html");
        assert("htm"@.len() != "html"@.len());
    }
    assert(mime_for_extension("css"@) == "text/css; charset=utf-8"@) by {
        reveal_strlit("css");
        reveal_strlit("text/css; charset=utf-8");
        reveal_strlit("html");
        assert("css"@.len() != "html"@.len());
        reveal_strlit("htm");
        assert("css"@[0] != "htm"@[0]);
    }
    assert(mime_for_extension("js"@) == "text/javascript; charset=utf-8"@) by {
        reveal_strlit("js");
        reveal_strlit("text/javascript; charset=utf-8");
        reveal_strlit("html");
        assert("js"@.len() != "html"@.len());
        reveal_strlit("htm");
        assert("js"@.len() != "htm"@.len());
        reveal_strlit("css");
        assert("js"@.len() != "css"@.len());
    }
    assert(mime_for_extension("mjs"@) == "text/javascript; charset=utf-8"@) by {
        reveal_strlit("mjs");
        reveal_strlit("text/javascript; charset=utf-8");
        reveal_strlit("html");
        assert("mjs"@.len() != "html"@.len());
        reveal_strlit("htm");
        assert("mjs"@[0] != "htm"@[0]);
        reveal_strlit("css");
        assert("mjs"@[0] != "css"@[0]);
        reveal_strlit("js");
        assert("mjs"@.len() != "js"@.len());
    }
    assert(mime_for_extension("json"@) == "application/json; charset=utf-8"@) by {
        reveal_strlit("json");
        reveal_strlit("application/json; charset=utf-8");
        reveal_strlit("html");
        assert("json"@[0] != "html"@[0]);
        reveal_strlit("htm");
        assert("json"@.len() != "htm"@.len());
        reveal_strlit("css");
        assert("json"@.len() != "css"@.len());
        reveal_strlit("js");
        assert("json"@.len() != "js"@.len());
        reveal_strlit("mjs");
        assert("json"@.len() != "mjs"@.len());
    }
    assert(mime_for_extension("svg"@) == "image/svg+xml"@) by {
        reveal_strlit("svg");
        reveal_strlit("image/svg+xml");
        reveal_strlit("html");
        assert("svg"@.len() != "html"@.len());
        reveal_strlit("htm");
        assert("svg"@[0] != "htm"@[0]);
        reveal_strlit("css");
        assert("svg"@[0] != "css"@[0]);
        reveal_strlit("js");
        assert("svg"@.len() != "js"@.len());
        reveal_strlit("mjs");
        assert("svg"@[0] != "mjs"@[0]);
        reveal_strlit("json");
        assert("svg"@.len() != "json"@.len());
    }
    assert(mime_for_extension("png"@) == "image/png"@) by {
        reveal_strlit("png");
        reveal_strlit("image/png");
        reveal_strlit("html");
        assert("png"@.len() != "html"@.len());
        reveal_strlit("htm");
        assert("png"@[0] != "htm"@[0]);
        reveal_strlit("css");
        assert("png"@[0] != "css"@[0]);
        reveal_strlit("js");
        assert("png"@.len() != "js"@.len());
        reveal_strlit("mjs");
        assert("png"@[0] != "mjs"@[0]);
        reveal_strlit("json");
        assert("png"@.len() != "json"@.len());
        reveal_strlit("svg");
        assert("png"@[0] != "svg"@[0]);
    }
    assert(mime_for_extension("jpg"@) == "image/jpeg"@) by {
        reveal_strlit("jpg");
        reveal_strlit("image/jpeg");
        reveal_strlit("html");
        assert("jpg"@.len() != "html"@.len());
        reveal_strlit("htm");
        assert("jpg"@[0] != "htm"@[0]);
        reveal_strlit("css");
        assert("jpg"@[0] != "css"@[0]);
        reveal_strlit("js");
        assert("jpg"@.len() != "js"@.len());
        reveal_strlit("mjs");
        assert("jpg"@[0] != "mjs"@[0]);
        reveal_strlit("json");
        assert("jpg"@.len() != "json"@.len());
        reveal_strlit("svg");
        assert("jpg"@[0] != "svg"@[0]);
        reveal_strlit("png");
        assert("jpg"@[0] != "png"@[0]);
    }
    assert(mime_for_extension("jpeg"@) == "image/jpeg"@) by {
        reveal_strlit("jpeg");
        reveal_strlit("image/jpeg");
        reveal_strlit("html");
        assert("jpeg"@[0] != "html"@[0]);
        reveal_strlit("htm");
        assert("jpeg"@.len() != "htm"@.len());
        reveal_strlit("css");
        assert("jpeg"@.len() != "css"@.len());
        reveal_strlit("js");
        assert("jpeg"@.len() != "js"@.len());
        reveal_strlit("mjs");
        assert("jpeg"@.len() != "mjs"@.len());
        reveal_strlit("json");
        assert("jpeg"@[1] != "json"@[1]);
        reveal_strlit("svg");
        assert("jpeg"@.len() != "svg"@.len());
        reveal_strlit("png");
        assert("jpeg"@.len() != "png"@.len());
        reveal_strlit("jpg");
        assert("jpeg"@.len() != "jpg"@.len());
    }
    assert(mime_for_extension("gif"@) == "image/gif"@) by {
        reveal_strlit("gif");
        reveal_strlit("image/gif");
        reveal_strlit("html");
        assert("gif"@.len() != "html"@.len());
        reveal_strlit("htm");
        assert("gif"@[0] != "htm"@[0]);
        reveal_strlit("css");
        assert("gif"@[0] != "css"@[0]);
        reveal_strlit("js");
        assert("gif"@.len() != "js"@.len());
        reveal_strlit("mjs");
        assert("gif"@[0] != "mjs"@[0]);
        reveal_strlit("json");
        assert("gif"@.len() != "json"@.len());
        reveal_strlit("svg");
        assert("gif"@[0] != "svg"@[0]);
        reveal_strlit("png");
        assert("gif"@[0] != "png"@[0]);
        reveal_strlit("jpg");
        assert("gif"@[0] != "jpg"@[0]);
        reveal_strlit("jpeg");
        assert("gif"@.len() != "jpeg"@.len());
    }
    assert(mime_for_extension("webp"@) == "image/webp"@) by {
        reveal_strlit("webp");
        reveal_strlit("image/webp");
        reveal_strlit("html");
        assert("webp"@[0] != "html"@[0]);
        reveal_strlit("htm");
        assert("webp"@.len() != "htm"@.len());
        reveal_strlit("css");
        assert("webp"@.len() != "css"@.len());
        reveal_strlit("js");
        assert("webp"@.len() != "js"@.len());
        reveal_strlit("mjs");
        assert("webp"@.len() != "mjs"@.len());
        reveal_strlit("json");
        assert("webp"@[0] != "json"@[0]);
        reveal_strlit("svg");
        assert("webp"@.len() != "svg"@.len());
        reveal_strlit("png");
        assert("webp"@.len() != "png"@.len());
        reveal_strlit("jpg");
        assert("webp"@.len() != "jpg"@.len());
        reveal_strlit("jpeg");
        assert("webp"@[0] != "jpeg"@[0]);
        reveal_strlit("gif");
        assert("webp"@.len() != "gif"@.len());
    }
    assert(mime_for_extension("ico"@) == "image/x-icon"@) by {
        reveal_strlit("ico");
        reveal_strlit("image/x-icon");
        reveal_strlit("html");
        assert("ico"@.len() != "html"@.len());
        reveal_strlit("htm");
        assert("ico"@[0] != "htm"@[0]);
        reveal_strlit("css");
        assert("ico"@[0] != "css"@[0]);
        reveal_strlit("js");
        assert("ico"@.len() != "js"@.len());
        reveal_strlit("mjs");
        assert("ico"@[0] != "mjs"@[0]);
        reveal_strlit("json");
        assert("ico"@.len() != "json"@.len());
        reveal_strlit("svg");
        assert("ico"@[0] != "svg"@[0]);
        reveal_strlit("png");
        assert("ico"@[0] != "png"@[0]);
        reveal_strlit("jpg");
        assert("ico"@[0] != "jpg"@[0]);
        reveal_strlit("jpeg");
        assert("ico"@.len() != "jpeg"@.len());
        reveal_strlit("gif");
        assert("ico"@[0] != "gif"@[0]);
        reveal_strlit("webp");
        assert("ico"@.len() != "webp"@.len());
    }
    assert(mime_for_extension("woff"@) == "font/woff"@) by {
        reveal_strlit("woff");
        reveal_strlit("font/woff");
        reveal_strlit("html");
        assert("woff"@[0] != "html"@[0]);
        reveal_strlit("htm");
        assert("woff"@.len() != "htm"@.len());
        reveal_strlit("css");
        assert("woff"@.len() != "css"@.len());
        reveal_strlit("js");
        assert("woff"@.len() != "js"@.len());
        reveal_strlit("mjs");
        assert("woff"@.len() != "mjs"@.len());
        reveal_strlit("json");
        assert("woff"@[0] != "json"@[0]);
        reveal_strlit("svg");
        assert("woff"@.len() != "svg"@.len());
        reveal_strlit("png");
        assert("woff"@.len() != "png"@.len());
        reveal_strlit("jpg");
        assert("woff"@.len() != "jpg"@.len());
        reveal_strlit("jpeg");
        assert("woff"@[0] != "jpeg"@[0]);
        reveal_strlit("gif");
        assert("woff"@.len() != "gif"@.len());
        reveal_strlit("webp");
        assert("woff"@[1] != "webp"@[1]);
        reveal_strlit("ico");
        assert("woff"@.len() != "ico"@.len());
    }
    assert(mime_for_extension("woff2"@) == "font/woff2"@) by {
        reveal_strlit("woff2");
        reveal_strlit("font/woff2");
        reveal_strlit("html");
        assert("woff2"@.len() != "html"@.len());
        reveal_strlit("htm");
        assert("woff2"@.len() != "htm"@.len());
        reveal_strlit("css");
        assert("woff2"@.len() != "css"@.len());
        reveal_strlit("js");
        assert("woff2"@.len() != "js"@.len());
        reveal_strlit("mjs");
        assert("woff2"@.len() != "mjs"@.len());
        reveal_strlit("json");
        assert("woff2"@.len() != "json"@.len());
        reveal_strlit("svg");
        assert("woff2"@.len() != "svg"@.len());
        reveal_strlit("png");
        assert("woff2"@.len() != "png"@.len());
        reveal_strlit("jpg");
        assert("woff2"@.len() != "jpg"@.len());
        reveal_strlit("jpeg");
        assert("woff2"@.len() != "jpeg"@.len());
        reveal_strlit("gif");
        assert("woff2"@.len() != "gif"@.len());
        reveal_strlit("webp");
        assert("woff2"@.len() != "webp"@.len());
        reveal_strlit("ico");
        assert("woff2"@.len() != "ico"@.len());
        reveal_strlit("woff");
        assert("woff2"@.len() != "woff"@.len());
    }
    assert(mime_for_extension("ttf"@) == "font/ttf"@) by {
        reveal_strlit("ttf");
        reveal_strlit("font/ttf");
        reveal_strlit("html");
        assert("ttf"@.len() != "html"@.len());
        reveal_strlit("htm");
        assert("ttf"@[0] != "htm"@[0]);
        reveal_strlit("css");
        assert("ttf"@[0] != "css"@[0]);
        reveal_strlit("js");
        assert("ttf"@.len() != "js"@.len());
        reveal_strlit("mjs");
        assert("ttf"@[0] != "mjs"@[0]);
        reveal_strlit("json");
        assert("ttf"@.len() != "json"@.len());
        reveal_strlit("svg");
        assert("ttf"@[0] != "svg"@[0]);
        reveal_strlit("png");
        assert("ttf"@[0] != "png"@[0]);
        reveal_strlit("jpg");
        assert("ttf"@[0] != "jpg"@[0]);
        reveal_strlit("jpeg");
        assert("ttf"@.len() != "jpeg"@.len());
        reveal_strlit("gif");
        assert("ttf"@[0] != "gif"@[0]);
        reveal_strlit("webp");
        assert("ttf"@.len() != "webp"@.len());
        reveal_strlit("ico");
        assert("ttf"@[0] != "ico"@[0]);
        reveal_strlit("woff");
        assert("ttf"@.len() != "woff"@.len());
        reveal_strlit("woff2");
        assert("ttf"@.len() != "woff2"@.len());
    }
    assert(mime_for_extension("otf"@) == "font/otf"@) by {
        reveal_strlit("otf");
        reveal_strlit("font/otf");
        reveal_strlit("html");
        assert("otf"@.len() != "html"@.len());
        reveal_strlit("htm");
        assert("otf"@[0] != "htm"@[0]);
        reveal_strlit("css");
        assert("otf"@[0] != "css"@[0]);
        reveal_strlit("js");
        assert("otf"@.len() != "js"@.len());
        reveal_strlit("mjs");
        assert("otf"@[0] != "mjs"@[0]);
        reveal_strlit("json");
        assert("otf"@.len() != "json"@.len());
        reveal_strlit("svg");
        assert("otf"@[0] != "svg"@[0]);
        reveal_strlit("png");
        assert("otf"@[0] != "png"@[0]);
        reveal_strlit("jpg");
        assert("otf"@[0] != "jpg"@[0]);
        reveal_strlit("jpeg");
        assert("otf"@.len() != "jpeg"@.len());
        reveal_strlit("gif");
        assert("otf"@[0] != "gif"@[0]);
        reveal_strlit("webp");
        assert("otf"@.len() != "webp"@.len());
        reveal_strlit("ico");
        assert("otf"@[0] != "ico"@[0]);
        reveal_strlit("woff");
        assert("otf"@.len() != "woff"@.len());
        reveal_strlit("woff2");
        assert("otf"@.len() != "woff2"@.len());
        reveal_strlit("ttf");
        assert("otf"@[0] != "ttf"@[0]);
    }
    assert(mime_for_extension("txt"@) == "text/plain; charset=utf-8"@) by {
        reveal_strlit("txt");
        reveal_strlit("text/plain; charset=utf-8");
        reveal_strlit("html");
        assert("txt"@.len() != "html"@.len());
        reveal_strlit("htm");
        assert("txt"@[0] != "htm"@[0]);
        reveal_strlit("css");
        assert("txt"@[0] != "css"@[0]);
        reveal_strlit("js");
        assert("txt"@.len() != "js"@.len());
        reveal_strlit("mjs");
        assert("txt"@[0] != "mjs"@[0]);
        reveal_strlit("json");
        assert("txt"@.len() != "json"@.len());
        reveal_strlit("svg");
        assert("txt"@[0] != "svg"@[0]);
        reveal_strlit("png");
        assert("txt"@[0] != "png"@[0]);
        reveal_strlit("jpg");
        assert("txt"@[0] != "jpg"@[0]);
        reveal_strlit("jpeg");
        assert("txt"@.len() != "jpeg"@.len());
        reveal_strlit("gif");
        assert("txt"@[0] != "gif"@[0]);
        reveal_strlit("webp");
        assert("txt"@.len() != "webp"@.len());
        reveal_strlit("ico");
        assert("txt"@[0] != "ico"@[0]);
        reveal_strlit("woff");
        assert("txt"@.len() != "woff"@.len());
        reveal_strlit("woff2");
        assert("txt"@.len() != "woff2"@.len());
        reveal_strlit("ttf");
        assert("txt"@[1] != "ttf"@[1]);
        reveal_strlit("otf");
        assert("txt"@[0] != "otf"@[0]);
    }
    reveal_strlit("application/octet-stream");
}

/// The content type of a plugin file with the given extension (compared
/// without regard to ASCII case; none is binary).
pub fn mime_type(extension: Option<&str>) -> (mime: &'static str)
    ensures
        mime@ == mime_for_extension(
            match extension {
                Some(e) => ascii_lowercase_spec(e@),
                None => Seq::<char>::empty(),
            },
        ),
{
    let ext = match extension {
        Some(e) => ascii_lowercase(e),
        None => String::new(),
    };
    let e = ext.as_str();
    proof {
        reveal_strlit("");
    }
    if chars_equal(e, "html") || chars_equal(e, "htm") {
        "text/html; charset=utf-8"
    } else if chars_equal(e, "css") {
        "text/css; charset=utf-8"
    } else if chars_equal(e, "js") || chars_equal(e, "mjs") {
        "text/javascript; charset=utf-8"
    } else if chars_equal(e, "json") {
        "application/json; charset=utf-8"
    } else if chars_equal(e, "svg") {
        "image/svg+xml"
    } else if chars_equal(e, "png") {
        "image/png"
    } else if chars_equal(e, "jpg") || chars_equal(e, "jpeg") {
        "image/jpeg"
    } else if chars_equal(e, "gif") {
        "image/gif"
    } else if chars_equal(e, "webp") {
        "image/webp"
    } else if chars_equal(e, "ico") {
        "image/x-icon"
    } else if chars_equal(e, "woff") {
        "font/woff"
    } else if chars_equal(e, "woff2") {
        "font/woff2"
    } else if chars_equal(e, "ttf") {
        "font/ttf"
    } else if chars_equal(e, "otf") {
        "font/otf"
    } else if chars_equal(e, "txt") {
        "text/plain; charset=utf-8"
    } else {
        "application/octet-stream"
    }
}

/// `pat` occurs in `s` at index `i`.
pub open spec fn occurs_at(s: Seq<char>, pat: Seq<char>, i: int) -> bool {
    0 <= i && i + pat.len() <= s.len() && s.subrange(i, i + pat.len()) == pat
}

/// The first index at or after `i` where `pat` occurs in `s`.
pub open spec fn find_from(s: Seq<char>, pat: Seq<char>, i: int) -> Option<int>
    decreases s.len() + 1 - i,
{
    if i < 0 || i + pat.len() > s.len() {
        None
    } else if occurs_at(s, pat, i) {
        Some(i)
    } else {
        find_from(s, pat, i + 1)
    }
}

proof fn lemma_find_from_bounds(s: Seq<char>, pat: Seq<char>, i: int)
    ensures
        find_from(s, pat, i) matches Some(k) ==> i <= k && k + pat.len() <= s.len() && occurs_at(
            s,
            pat,
            k,
        ),
    decreases s.len() + 1 - i,
{
    if !(i < 0 || i + pat.len() > s.len()) && !occurs_at(s, pat, i) {
        lemma_find_from_bounds(s, pat, i + 1);
    }
}

fn occurs_at_exec(s: &str, pat: &str, i: usize) -> (r: bool)
    requires
        i + pat@.len() <= s@.len(),
    ensures
        r == occurs_at(s@, pat@, i as int),
{
    let _n = s.unicode_len();
    let m = pat.unicode_len();
    let mut k: usize = 0;
    while k < m
        invariant
            m == pat@.len(),
            i + m <= s@.len(),
            s@.len() <= usize::MAX,
            k <= m,
            forall|j: int| 0 <= j < k ==> s@[i + j] == pat@[j],
        decreases m - k,
    {
        if s.get_char(i + k) != pat.get_char(k) {
            assert(s@.subrange(i as int, i + m)[k as int] != pat@[k as int]);
            return false;
        }
        k = k + 1;
    }
    assert(s@.subrange(i as int, i + m) =~= pat@);
    true
}

/// The first index at or after `start` where `pat` occurs in `s`.
pub fn find_from_index(s: &str, pat: &str, start: usize) -> (r: Option<usize>)
    ensures
        match r {
            Some(i) => find_from(s@, pat@, start as int) == Some(i as int),
            None => find_from(s@, pat@, start as int) is None,
        },
{
    let n = s.unicode_len();
    let m = pat.unicode_len();
    if m > n {
        return None;
    }
    if m == 0 {
        if start <= n {
            assert(s@.subrange(start as int, start as int) =~= pat@);
            return Some(start);
        }
        return None;
    }
    let mut i: usize = start;
    while i <= n - m
        invariant
            n == s@.len(),
            m == pat@.len(),
            1 <= m <= n,
            start <= i,
            find_from(s@, pat@, start as int) == find_from(s@, pat@, i as int),
        decreases n - i,
    {
        if occurs_at_exec(s, pat, i) {
            return Some(i);
        }
        i = i + 1;
    }
    None
}

/// The first index where `pat` occurs in `s` (`str::find`, counted in
/// characters).
pub fn find(s: &str, pat: &str) -> (r: Option<usize>)
    ensures
        match r {
            Some(i) => find_from(s@, pat@, 0) == Some(i as int),
            None => find_from(s@, pat@, 0) is None,
        },
{
    find_from_index(s, pat, 0)
}

/// The script tag that loads the host runtime into a plugin page.
pub open spec fn host_tag() -> Seq<char> {
    "<script src=\"/_host/plugin-host.js\"></script>"@
}

/// A plugin page with the host runtime: unchanged when it already loads
/// it; else the tag on a new line right after the opening `<head ...>` tag
/// (found without regard to ASCII case); else the tag and a new line before
/// the whole page.
pub open spec fn injected_html(html: Seq<char>) -> Seq<char> {
    let lower = ascii_lowercase_spec(html);
    if find_from(html, host_tag(), 0) is Some {
        html
    } else {
        match find_from(lower, "<head"@, 0) {
            Some(h) => match find_from(lower, ">"@, h) {
                Some(c) => html.subrange(0, c + 1) + "\n"@ + host_tag() + html.subrange(
                    c + 1,
                    html.len() as int,
                ),
                None => host_tag() + "\n"@ + html,
            },
            None => host_tag() + "\n"@ + html,
        }
    }
}

/// Adds the host runtime script to a plugin HTML page.
pub fn inject_host_runtime(html: &str) -> (out: String)
    ensures
        out@ == injected_html(html@),
{
    let tag = "<script src=\"/_host/plugin-host.js\"></script>";
    if find(html, tag).is_some() {
        return owned(html);
    }
    let lower = ascii_lowercase(html);
    let l = lower.as_str();
    let n = l.unicode_len();
    match find(l, "<head") {
        Some(h) => {
            if let Some(c) = find_from_index(l, ">", h) {
                proof {
                    lemma_find_from_bounds(l@, ">"@, h as int);
                    reveal_strlit(">");
                }
                let insert_at = c + 1;
                assert(html@.len() == l@.len());
                let mut out = owned(html.substring_char(0, insert_at));
                out.append("\n");
                out.append(tag);
                out.append(html.substring_char(insert_at, n));
                return out;
            }
            let mut out = owned(tag);
            out.append("\n");
            out.append(html);
            out
        },
        None => {
            let mut out = owned(tag);
            out.append("\n");
            out.append(html);
            out
        },
    }
}

proof fn lemma_find_from_finds(s: Seq<char>, pat: Seq<char>, i: int, j: int)
    requires
        occurs_at(s, pat, i),
        0 <= j <= i,
    ensures
        find_from(s, pat, j) is Some,
    decreases i - j,
{
    if !occurs_at(s, pat, j) {
        lemma_find_from_finds(s, pat, i, j + 1);
    }
}

proof fn lemma_injected_holds_tag(html: Seq<char>)
    ensures
        find_from(injected_html(html), host_tag(), 0) is Some,
{
    let lower = ascii_lowercase_spec(html);
    let tag = host_tag();
    let out = injected_html(html);
    if find_from(html, tag, 0) is Some {
    } else {
        match find_from(lower, "<head"@, 0) {
            Some(h) => match find_from(lower, ">"@, h) {
                Some(c) => {
                    lemma_find_from_bounds(lower, ">"@, h);
                    reveal_strlit(">");
                    reveal_strlit("\n");
                    assert(lower.len() == html.len());
                    let prefix = html.subrange(0, c + 1) + "\n"@;
                    assert(out == prefix + tag + html.subrange(c + 1, html.len() as int));
                    assert(out.subrange(prefix.len() as int, (prefix.len() + tag.len()) as int) =~= tag);
                    lemma_find_from_finds(out, tag, prefix.len() as int, 0);
                },
                None => {
                    assert(out.subrange(0, tag.len() as int) =~= tag);
                    lemma_find_from_finds(out, tag, 0, 0);
                },
            },
            None => {
                assert(out.subrange(0, tag.len() as int) =~= tag);
                lemma_find_from_finds(out, tag, 0, 0);
            },
        }
    }
}

/// The host runtime is added at most once: a page that went through the
/// injection comes out of a second one unchanged.
pub proof fn injection_is_idempotent(html: Seq<char>)
    ensures
        injected_html(injected_html(html)) == injected_html(html),
{
    lemma_injected_holds_tag(html);
}

/// After the injection a page always loads the host runtime.
pub proof fn injected_page_loads_the_host_runtime(html: Seq<char>)
    ensures
        find_from(injected_html(html), host_tag(), 0) is Some,
{
    lemma_injected_holds_tag(html);
}

/// Whether a content type is served as an HTML page.
pub fn is_html_mime(mime: &str) -> (r: bool)
    ensures
        r == ("text/html"@).is_prefix_of(mime@),
{
    let prefix = "text/html";
    proof {
        reveal_strlit("text/html");
    }
    let n = mime.unicode_len();
    let m = prefix.unicode_len();
    if n < m {
        return false;
    }
    let mut i: usize = 0;
    while i < m
        invariant
            prefix@ == "text/html"@,
            m == prefix@.len(),
            n == mime@.len(),
            m <= n,
            i <= m,
            forall|j: int| 0 <= j < i ==> prefix@[j] == mime@[j],
        decreases m - i,
    {
        if prefix.get_char(i) != mime.get_char(i) {
            assert(mime@.subrange(0, m as int)[i as int] != prefix@[i as int]);
            return false;
        }
        i = i + 1;
    }
    assert(mime@.subrange(0, m as int) =~= prefix@);
    true
}

/// `s` without its leading `/` characters.
pub open spec fn strip_leading_slashes(s: Seq<char>) -> Seq<char>
    decreases s.len(),
{
    if s.len() > 0 && s[0] == '/' {
        strip_leading_slashes(s.drop_first())
    } else {
        s
    }
}

/// Removes the leading `/` characters (`trim_start_matches('/')`).
pub fn trim_leading_slashes(s: &str) -> (r: &str)
    ensures
        r@ == strip_leading_slashes(s@),
{
    let n = s.unicode_len();
    let mut i: usize = 0;
    assert(s@.subrange(0, n as int) =~= s@);
    while i < n && s.get_char(i) == '/'
        invariant
            n == s@.len(),
            i <= n,
            strip_leading_slashes(s@) == strip_leading_slashes(s@.subrange(i as int, n as int)),
        decreases n - i,
    {
        assert(s@.subrange(i as int, n as int).drop_first() =~= s@.subrange(i + 1, n as int));
        i = i + 1;
    }
    s.substring_char(i, n)
}

/// Where a `tbplugin://` request goes.
#[derive(Debug, Clone, PartialEq, Eq)]
pub enum AssetRoute {
    /// Answer 400 with this message.
    BadRequest(String),
    /// Serve a bundled host asset.
    Host(HostAsset),
    /// Serve `relative` from the plugin `plugin_id`.
    PluginFile { plugin_id: String, relative: String },
}

pub open spec fn missing_parts_message() -> Seq<char> {
    "插件资源 URL 缺少 pluginId 或文件路径"@
}

/// The index of the first `/` in `s`, or its length.
pub open spec fn first_slash(s: Seq<char>) -> int
    decreases s.len(),
{
    if s.len() == 0 {
        0
    } else if s[0] == '/' {
        0
    } else {
        1 + first_slash(s.drop_first())
    }
}

proof fn lemma_first_slash(s: Seq<char>)
    ensures
        0 <= first_slash(s) <= s.len(),
        forall|j: int| 0 <= j < first_slash(s) ==> #[trigger] s[j] != '/',
        first_slash(s) < s.len() ==> s[first_slash(s)] == '/',
    decreases s.len(),
{
    if s.len() > 0 && s[0] != '/' {
        lemma_first_slash(s.drop_first());
        assert forall|j: int| 0 <= j < first_slash(s) implies #[trigger] s[j] != '/' by {
            if j > 0 {
                assert(s[j] == s.drop_first()[j - 1]);
            }
        }
    }
}

proof fn lemma_first_slash_unique(s: Seq<char>, k: int)
    requires
        0 <= k <= s.len(),
        forall|j: int| 0 <= j < k ==> #[trigger] s[j] != '/',
        k < s.len() ==> s[k] == '/',
    ensures
        first_slash(s) == k,
    decreases s.len(),
{
    if s.len() > 0 && k > 0 {
        assert forall|j: int| 0 <= j < k - 1 implies #[trigger] s.drop_first()[j] != '/' by {
            assert(s.drop_first()[j] == s[j + 1]);
        }
        lemma_first_slash_unique(s.drop_first(), k - 1);
    }
}

/// The route of a decoded request path: a host asset, else the plugin id
/// before the first `/` and the file path after it, both non-empty.
pub open spec fn decoded_route(decoded: Seq<char>) -> Result<(Seq<char>, Seq<char>), Option<HostAsset>> {
    let path = strip_leading_slashes(decoded);
    if exists|a: HostAsset| path == #[trigger] host_asset_path(a) {
        Err(Some(choose|a: HostAsset| path == #[trigger] host_asset_path(a)))
    } else {
        let k = first_slash(path);
        let id = path.subrange(0, k);
        let relative = if k < path.len() {
            path.subrange(k + 1, path.len() as int)
        } else {
            Seq::empty()
        };
        if id.len() == 0 || relative.len() == 0 {
            Err(None)
        } else {
            Ok((id, relative))
        }
    }
}

/// Routes an already decoded request path.
pub fn route_decoded(decoded: &str) -> (route: AssetRoute)
    ensures
        match decoded_route(decoded@) {
            Ok((id, relative)) => route matches AssetRoute::PluginFile { plugin_id, relative: r }
                && plugin_id@ == id && r@ == relative,
            Err(Some(asset)) => route == AssetRoute::Host(asset),
            Err(None) => route matches AssetRoute::BadRequest(m) && m@ == missing_parts_message(),
        },
{
    let path = trim_leading_slashes(decoded);
    if let Some(asset) = host_asset(path) {
        proof {
            assert(path@ == host_asset_path(asset));
            let c = choose|a: HostAsset| path@ == #[trigger] host_asset_path(a);
            assert(host_asset_path(c) == host_asset_path(asset));
            reveal_strlit("_host/plugin-host.js");
            reveal_strlit("_host/plugin-vue-runtime.js");
            reveal_strlit("_host/vendor/vue.global.prod.js");
            reveal_strlit("_host/vendor/dayjs.min.js");
            reveal_strlit("_host/vendor/kui-vue.umd.js");
            reveal_strlit("_host/vendor/kui-vue.css");
            assert(c == asset) by {
                if c != asset {
                    lemma_host_paths_distinct(c, asset);
                }
            }
        }
        return AssetRoute::Host(asset);
    }
    let n = path.unicode_len();
    let mut k: usize = 0;
    while k < n && path.get_char(k) != '/'
        invariant
            n == path@.len(),
            k <= n,
            forall|j: int| 0 <= j < k ==> #[trigger] path@[j] != '/',
        decreases n - k,
    {
        k = k + 1;
    }
    proof {
        lemma_first_slash_unique(path@, k as int);
    }
    let id = path.substring_char(0, k);
    let relative = if k < n {
        path.substring_char(k + 1, n)
    } else {
        ""
    };
    proof {
        reveal_strlit("");
    }
    if id.unicode_len() == 0 || relative.unicode_len() == 0 {
        return AssetRoute::BadRequest(owned("插件资源 URL 缺少 pluginId 或文件路径"));
    }
    AssetRoute::PluginFile { plugin_id: owned(id), relative: owned(relative) }
}

proof fn lemma_host_paths_distinct(a: HostAsset, b: HostAsset)
    requires
        a != b,
    ensures
        host_asset_path(a) != host_asset_path(b),
{
    reveal_strlit("_host/plugin-host.js");
    reveal_strlit("_host/plugin-vue-runtime.js");
    reveal_strlit("_host/vendor/vue.global.prod.js");
    reveal_strlit("_host/vendor/dayjs.min.js");
    reveal_strlit("_host/vendor/kui-vue.umd.js");
    reveal_strlit("_host/vendor/kui-vue.css");
    let pa = host_asset_path(a);
    let pb = host_asset_path(b);
    if pa == pb {
        assert(pa.len() == pb.len());
        assert(pa[6] == pb[6]);
        assert(pa[7] == pb[7]);
        assert(pa[15] == pb[15]);
        assert(pa[16] == pb[16]);
    }
}

/// What the percent-decoding of a request path gives: the decoded text, or
/// the text of the UTF-8 error when the decoded bytes are not UTF-8.
pub uninterp spec fn percent_decoded(raw: Seq<char>) -> Result<Seq<char>, Seq<char>>;

/// `percent_encoding::percent_decode_str(raw).decode_utf8()`, with the
/// error as its text. Its result is named by `percent_decoded`; a path
/// with no `%` decodes to itself.
#[verifier::external_body]
fn percent_decode_utf8(raw: &str) -> (r: Result<String, String>)
    ensures
        match r {
            Ok(s) => percent_decoded(raw@) == Ok::<Seq<char>, Seq<char>>(s@) && (!raw@.contains(
                '%',
            ) ==> s@ == raw@),
            Err(e) => percent_decoded(raw@) == Err::<Seq<char>, Seq<char>>(e@) && raw@.contains(
                '%',
            ),
        },
{
    match percent_encoding::percent_decode_str(raw).decode_utf8() {
        Ok(decoded) => Ok(decoded.into_owned()),
        Err(error) => Err(error.to_string()),
    }
}

/// Routes the path of a `tbplugin://` request: the path without its
/// leading `/` is percent-decoded (a decoding error is a bad request), then
/// routed by `route_decoded`.
pub fn route_request(uri_path: &str) -> (route: AssetRoute)
    ensures
        match percent_decoded(strip_leading_slashes(uri_path@)) {
            Err(e) => route matches AssetRoute::BadRequest(m) && m@ == "插件资源 URL 编码无效："@ + e,
            Ok(decoded) => match decoded_route(decoded) {
                Ok((id, relative)) => route matches AssetRoute::PluginFile {
                    plugin_id,
                    relative: r,
                } && plugin_id@ == id && r@ == relative,
                Err(Some(asset)) => route == AssetRoute::Host(asset),
                Err(None) => route matches AssetRoute::BadRequest(m) && m@
                    == missing_parts_message(),
            },
        },
{
    let raw = trim_leading_slashes(uri_path);
    match percent_decode_utf8(raw) {
        Ok(decoded) => route_decoded(decoded.as_str()),
        Err(error) => {
            let mut message = owned("插件资源 URL 编码无效：");
            message.append(error.as_str());
            AssetRoute::BadRequest(message)
        },
    }
}

} // verus!
