use zy::config::Args;
use zy::config::CanonicalizedPath;
use zy::resolve::FileKind;
use zy::resolve::FsAnswer;
use zy::resolve::FsNode;
use zy::resolve::FsQuery;
use zy::resolve::FsView;
use zy::resolve::PathSource;
use zy::resolve::ResolveStep;
use zy::resolve::extension_of;
use zy::resolve::resolve_in;
use zy::resolve::resolve_next;
use zy::resolve::resolve_start;

fn args() -> Args {
    Args {
        dir: CanonicalizedPath { raw: ".".to_string(), canonical: "/root".to_string() },
        listen: Vec::new(),
        spa: false,
        index: "index.html".to_string(),
        not_found: "404.html".to_string(),
        cache: 3600,
        no_cors: false,
        all: false,
        follow_links: false,
        verbose: false,
        confirm_exit: false,
        anonymize: false,
    }
}

fn node(path: &str, canonical: &str, kind: FileKind) -> FsNode {
    FsNode { path: path.to_string(), canonical: canonical.to_string(), kind }
}

fn file(path: &str) -> FsNode {
    node(path, path, FileKind::File)
}

fn site() -> FsView {
    FsView {
        nodes: vec![
            file("/root/index.html"),
            file("/root/app.js"),
            file("/root/404.html"),
        ],
    }
}

#[test]
fn empty_path_serves_index() {
    let a = resolve_in(&site(), "", PathSource::Client, &args()).expect("index should resolve");
    assert_eq!(a.path, "/root/index.html");
    assert_eq!(a.ext, Some("html".to_string()));
}

#[test]
fn plain_file_resolves() {
    let a = resolve_in(&site(), "app.js", PathSource::Client, &args()).expect("js should resolve");
    assert_eq!(a.path, "/root/app.js");
    assert_eq!(a.ext, Some("js".to_string()));
}

#[test]
fn missing_file_fails() {
    assert!(resolve_in(&site(), "missing.txt", PathSource::Client, &args()).is_none());
}

#[test]
fn hidden_file_fails_for_clients_even_when_present() {
    let fs = FsView { nodes: vec![file("/root/.env")] };
    assert!(resolve_in(&fs, "/.env", PathSource::Client, &args()).is_none());
}

#[test]
fn hidden_file_resolves_when_serving_hidden_is_on() {
    let fs = FsView { nodes: vec![file("/root/.env")] };
    let mut a = args();
    a.all = true;
    let r = resolve_in(&fs, "/.env", PathSource::Client, &a).expect("hidden should resolve");
    assert_eq!(r.path, "/root/.env");
    assert_eq!(r.ext, None);
}

#[test]
fn hidden_file_resolves_for_server_sourced_paths() {
    let fs = FsView { nodes: vec![file("/root/.404.html")] };
    let r = resolve_in(&fs, ".404.html", PathSource::Server, &args())
        .expect("server-sourced hidden path should resolve");
    assert_eq!(r.path, "/root/.404.html");
}

#[test]
fn symlink_outside_root_fails_without_follow() {
    let fs = FsView {
        nodes: vec![
            node("/root/evil", "/outside/secret", FileKind::File),
            file("/outside/secret"),
        ],
    };
    assert!(resolve_in(&fs, "evil", PathSource::Client, &args()).is_none());
}

#[test]
fn symlink_outside_root_resolves_with_follow() {
    let fs = FsView {
        nodes: vec![
            node("/root/evil", "/outside/secret", FileKind::File),
            file("/outside/secret"),
        ],
    };
    let mut a = args();
    a.follow_links = true;
    let r = resolve_in(&fs, "evil", PathSource::Client, &a).expect("followed link should resolve");
    assert_eq!(r.path, "/outside/secret");
}

#[test]
fn directory_rewrites_to_its_index() {
    let fs = FsView {
        nodes: vec![
            node("/root/docs", "/root/docs", FileKind::Directory),
            file("/root/docs/index.html"),
        ],
    };
    let r = resolve_in(&fs, "docs", PathSource::Client, &args()).expect("dir index should resolve");
    assert_eq!(r.path, "/root/docs/index.html");
}

#[test]
fn directory_without_index_fails() {
    let fs = FsView { nodes: vec![node("/root/docs", "/root/docs", FileKind::Directory)] };
    assert!(resolve_in(&fs, "docs", PathSource::Client, &args()).is_none());
}

#[test]
fn traversal_clamps_to_root() {
    // `../../app.js` normalizes to `app.js` and resolves inside the root.
    let a = resolve_in(&site(), "../../app.js", PathSource::Client, &args())
        .expect("clamped traversal should resolve");
    assert_eq!(a.path, "/root/app.js");
}

#[test]
fn drive_prefix_fails_resolution() {
    assert!(resolve_in(&site(), "C:\\app.js", PathSource::Client, &args()).is_none());
}

#[test]
fn resolving_twice_yields_the_same_asset() {
    let fs = site();
    let a1 = resolve_in(&fs, "app.js", PathSource::Client, &args());
    let a2 = resolve_in(&fs, "app.js", PathSource::Client, &args());
    match (a1, a2) {
        (Some(x), Some(y)) => {
            assert_eq!(x.path, y.path);
            assert_eq!(x.ext, y.ext);
        },
        (None, None) => {},
        _ => panic!("two runs disagreed"),
    }
}

#[test]
fn step_machine_agrees_with_snapshot_resolution() {
    let fs = site();
    let direct = resolve_in(&fs, "app.js", PathSource::Client, &args()).expect("should resolve");
    let mut step = resolve_start("app.js", PathSource::Client, &args());
    let outcome = loop {
        match step {
            ResolveStep::Done(r) => break r,
            ResolveStep::Query(q, pending) => {
                let ans = match &q {
                    FsQuery::Canonicalize(p) => FsAnswer::Canonical(fs.canonicalize(p)),
                    FsQuery::Lookup(p) => FsAnswer::Kind(fs.kind_of(p)),
                };
                step = resolve_next(pending, ans);
            },
        }
    };
    let a = outcome.expect("machine should resolve");
    assert_eq!(a.path, direct.path);
    assert_eq!(a.ext, direct.ext);
}

#[test]
fn extensions_follow_file_name_rules() {
    assert_eq!(extension_of("foo.txt"), Some("txt".to_string()));
    assert_eq!(extension_of("a.b.c"), Some("c".to_string()));
    assert_eq!(extension_of(".env"), None);
    assert_eq!(extension_of("dir/.hidden"), None);
    assert_eq!(extension_of(".env.local"), Some("local".to_string()));
    assert_eq!(extension_of("noext"), None);
    assert_eq!(extension_of("trailing."), Some("".to_string()));
    assert_eq!(extension_of("dir.d/plain"), None);
}
