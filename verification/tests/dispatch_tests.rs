use zy::cache::CachePolicy;
use zy::cache::cache_policy_for_extension;
use zy::config::Args;
use zy::config::CanonicalizedPath;
use zy::dispatch::accepts_html;
use zy::dispatch::dispatch;
use zy::dispatch::response_headers;
use zy::dispatch::status_allows_caching;
use zy::resolve::FileKind;
use zy::resolve::FsNode;
use zy::resolve::FsView;

fn args() -> Args {
    Args {
        dir: CanonicalizedPath { raw: ".".to_string(), canonical: "/root".to_string() },
        listen: Vec::new(),
        spa: false,
        index: "index.html".to_string(),
        not_found: "404.html".to_string(),
        cache: 3600,
        no_cors: false,
        all: false,
        follow_links: false,
        verbose: false,
        confirm_exit: false,
        anonymize: false,
    }
}

fn file(path: &str) -> FsNode {
    FsNode { path: path.to_string(), canonical: path.to_string(), kind: FileKind::File }
}

fn site() -> FsView {
    FsView {
        nodes: vec![
            file("/root/index.html"),
            file("/root/app.js"),
            file("/root/404.html"),
        ],
    }
}

#[test]
fn empty_path_serves_index_with_no_cache() {
    let plan = dispatch(&site(), "", true, &args());
    let asset = plan.asset.expect("index should be served");
    assert_eq!(asset.path, "/root/index.html");
    assert_eq!(plan.forced_status, None);
    assert_eq!(cache_policy_for_extension(&asset.ext), CachePolicy::NoCache);
}

#[test]
fn asset_serves_with_cacheable_policy() {
    let plan = dispatch(&site(), "/app.js", false, &args());
    let asset = plan.asset.expect("asset should be served");
    assert_eq!(asset.path, "/root/app.js");
    assert_eq!(plan.forced_status, None);
    assert_eq!(cache_policy_for_extension(&asset.ext), CachePolicy::ShouldCache);
}

#[test]
fn spa_mode_serves_index_for_deep_links() {
    let mut a = args();
    a.spa = true;
    let plan = dispatch(&site(), "/deep/link", true, &a);
    let asset = plan.asset.expect("SPA fallback should serve the index");
    assert_eq!(asset.path, "/root/index.html");
    assert_eq!(plan.forced_status, Some(200));
}

#[test]
fn spa_mode_off_serves_not_found_page() {
    let plan = dispatch(&site(), "/deep/link", true, &args());
    let asset = plan.asset.expect("not-found page should be served");
    assert_eq!(asset.path, "/root/404.html");
    assert_eq!(plan.forced_status, Some(404));
}

#[test]
fn spa_fallback_needs_html_acceptance() {
    let mut a = args();
    a.spa = true;
    let plan = dispatch(&site(), "/deep/link", false, &a);
    let asset = plan.asset.expect("not-found page should be served");
    assert_eq!(asset.path, "/root/404.html");
    assert_eq!(plan.forced_status, Some(404));
}

#[test]
fn hidden_request_falls_to_not_found() {
    let mut fs = site();
    fs.nodes.push(file("/root/.env"));
    let plan = dispatch(&fs, "/.env", false, &args());
    let asset = plan.asset.expect("not-found page should be served");
    assert_eq!(asset.path, "/root/404.html");
    assert_eq!(plan.forced_status, Some(404));
}

#[test]
fn missing_not_found_page_gives_bodyless_404() {
    let fs = FsView { nodes: vec![file("/root/app.js")] };
    let plan = dispatch(&fs, "/nothing", false, &args());
    assert!(plan.asset.is_none());
    assert_eq!(plan.forced_status, Some(404));
}

#[test]
fn accept_header_recognizes_html() {
    assert!(accepts_html("text/html"));
    assert!(accepts_html("TEXT/HTML"));
    assert!(accepts_html("Text/Html; q=0.9"));
    assert!(accepts_html("text/html; q=0.9"));
    assert!(accepts_html("application/xml, text/html;level=1"));
    assert!(accepts_html(" text/html "));
    assert!(accepts_html("application/xhtml+xml,text/html"));
}

#[test]
fn accept_header_rejects_others() {
    assert!(!accepts_html("application/json"));
    assert!(!accepts_html(""));
    assert!(!accepts_html("text/htmlx"));
    assert!(!accepts_html("text/plain, image/png"));
}

#[test]
fn default_headers_identify_and_allow_origins() {
    let v = response_headers(&args());
    assert_eq!(
        v,
        vec![
            ("Server".to_string(), "Zy/0.1.0".to_string()),
            ("Access-Control-Allow-Origin".to_string(), "*".to_string()),
        ]
    );
}

#[test]
fn anonymize_drops_the_product_header() {
    let mut a = args();
    a.anonymize = true;
    let v = response_headers(&a);
    assert_eq!(v, vec![("Access-Control-Allow-Origin".to_string(), "*".to_string())]);
}

#[test]
fn no_cors_drops_the_origin_header() {
    let mut a = args();
    a.no_cors = true;
    let v = response_headers(&a);
    assert_eq!(v, vec![("Server".to_string(), "Zy/0.1.0".to_string())]);
}

#[test]
fn anonymize_and_no_cors_drop_everything() {
    let mut a = args();
    a.anonymize = true;
    a.no_cors = true;
    assert_eq!(response_headers(&a), Vec::new());
}

#[test]
fn only_success_statuses_admit_cache_headers() {
    assert!(status_allows_caching(200));
    assert!(status_allows_caching(206));
    assert!(!status_allows_caching(304));
    assert!(!status_allows_caching(404));
    assert!(!status_allows_caching(500));
}
