use ghactions::cache::resolve_cache_root;
use ghactions::{Cache, Tool, ToolCache, ToolCacheArch, ToolCacheError, ToolPlatform};

/// A fresh cache root on disk holding one directory per `(name, version,
/// arch)` triple.
fn cache_on_disk(entries: &[&str]) -> (tempfile::TempDir, String) {
    let dir = tempfile::tempdir().unwrap();
    let root = dir.path().to_str().unwrap().to_string();
    for entry in entries {
        fs_extra::dir::create_all(dir.path().join(entry), false).unwrap();
    }
    (dir, root)
}

fn linux_x64_store(root: &str) -> ToolCache {
    ToolCache::new(root.to_string(), ToolCacheArch::X64, ToolPlatform::Linux)
}

#[test]
fn find_with_arch_hits_existing_directory() {
    let (_dir, root) = cache_on_disk(&["node/12.7.0/x64"]);
    let cache = linux_x64_store(&root);
    let tool = cache
        .find_with_arch("node", "12.7.0", ToolCacheArch::X64)
        .unwrap();
    assert_eq!(tool.name(), "node");
    assert_eq!(tool.version(), "12.7.0");
    assert_eq!(tool.arch(), &ToolCacheArch::X64);
    let expected = format!("{}/node/12.7.0/x64", root);
    assert_eq!(tool.path().trim_end_matches('/'), expected.as_str());
}

#[test]
fn find_with_arch_miss_names_the_request() {
    let (_dir, root) = cache_on_disk(&[]);
    let cache = linux_x64_store(&root);
    let err = cache
        .find_with_arch("node", "12.7.0", ToolCacheArch::X64)
        .unwrap_err();
    match err {
        ToolCacheError::ToolNotFound {
            name,
            version,
            arch,
        } => {
            assert_eq!(name, "node");
            assert_eq!(version, "12.7.0");
            assert_eq!(arch, Some(ToolCacheArch::X64));
        }
        other => panic!("unexpected error: {:?}", other),
    }
}

#[test]
fn find_wildcard_version_matches_either() {
    let (_dir, root) = cache_on_disk(&["node/12.6.0/x64", "node/12.7.0/x64"]);
    let cache = linux_x64_store(&root);
    let tool = cache.find("node", "12.x").unwrap();
    assert_eq!(tool.name(), "node");
    assert!(tool.version() == "12.6.0" || tool.version() == "12.7.0");
}

#[test]
fn find_with_arch_any_matches_any_leaf() {
    let (_dir, root) = cache_on_disk(&["node/12.7.0/x64"]);
    let cache = linux_x64_store(&root);
    let tool = cache
        .find_with_arch("node", "12.7.0", ToolCacheArch::Any)
        .unwrap();
    assert_eq!(tool.name(), "node");
    assert_eq!(tool.version(), "12.7.0");
}

#[test]
fn find_all_version_returns_every_version() {
    let (_dir, root) = cache_on_disk(&["node/12.6.0/x64", "node/12.7.0/x64"]);
    let cache = linux_x64_store(&root);
    let versions = cache.find_all_version("node").unwrap();
    assert!(!versions.is_empty());
    let found: Vec<String> = versions
        .iter()
        .filter(|t| t.name() == "node")
        .map(|t| t.version().clone())
        .collect();
    assert!(found.contains(&String::from("12.6.0")));
    assert!(found.contains(&String::from("12.7.0")));
}

#[test]
fn go_scenario_on_linux_x64() {
    let (_dir, root) = cache_on_disk(&["go/1.21.0/x64", "go/1.21.5/x64", "go/1.22.0/arm64"]);
    let cache = linux_x64_store(&root);

    let tool = cache.find("go", "1.21.5").unwrap();
    assert_eq!(tool.name(), "go");
    assert_eq!(tool.version(), "1.21.5");

    // 1.22.0 only exists for arm64, and this host resolves to x64.
    let err = cache.find("go", "1.22.0").unwrap_err();
    assert!(matches!(err, ToolCacheError::ToolNotFound { .. }));

    let all: Vec<(String, String)> = cache
        .find_all_version("go")
        .unwrap()
        .iter()
        .filter(|t| t.name() == "go")
        .map(|t| (t.version().clone(), t.arch().to_string()))
        .collect();
    assert!(all.contains(&(String::from("1.21.0"), String::from("x64"))));
    assert!(all.contains(&(String::from("1.21.5"), String::from("x64"))));
}

#[test]
fn find_does_not_return_sibling_tools() {
    let (_dir, root) = cache_on_disk(&["node/12.7.0/x64"]);
    let cache = linux_x64_store(&root);
    let err = cache
        .find_with_arch("nod", "*", ToolCacheArch::Any)
        .unwrap_err();
    assert!(matches!(err, ToolCacheError::ToolNotFound { .. }));
}

#[test]
fn new_tool_path_uses_store_arch() {
    let cache = ToolCache::new(
        String::from("cache"),
        ToolCacheArch::ARM64,
        ToolPlatform::MacOS,
    );
    assert_eq!(cache.new_tool_path("go", "1.22.0"), "cache/go/1.22.0/arm64/");
}

#[test]
fn new_tool_path_keeps_version_literal() {
    // An install target is never wildcarded: the `x` stays, where a lookup
    // pattern would rewrite it to `*`.
    let cache = linux_x64_store("cache");
    assert_eq!(cache.new_tool_path("node", "12.x"), "cache/node/12.x/x64/");
    assert_eq!(
        ghactions::Tool::tool_path("cache", "node", "12.x", ToolCacheArch::X64),
        "cache/node/12.*/x64/"
    );
}

#[test]
fn store_getters_and_retry() {
    let mut cache = linux_x64_store("cache");
    assert_eq!(cache.platform(), ToolPlatform::Linux);
    assert_eq!(cache.arch(), ToolCacheArch::X64);
    assert_eq!(cache.get_tool_cache(), "cache");
    assert_eq!(cache.retry_count(), 10);
    cache.set_retry_count(3);
    assert_eq!(cache.retry_count(), 3);
}

#[test]
fn builder_overrides_and_defaults() {
    let defaults = ToolCache::new(
        String::from("/opt/hostedtoolcache"),
        ToolCacheArch::X64,
        ToolPlatform::Linux,
    );

    let built = ToolCache::build().build(&defaults);
    assert_eq!(built.get_tool_cache(), "/opt/hostedtoolcache");
    assert_eq!(built.arch(), ToolCacheArch::X64);
    assert_eq!(built.platform(), ToolPlatform::Linux);
    assert_eq!(built.retry_count(), 10);

    let built = ToolCache::build()
        .tool_cache(String::from("/tmp/toolcache"))
        .arch(ToolCacheArch::ARM64)
        .platform(ToolPlatform::MacOS)
        .retry_count(5)
        .build(&defaults);
    assert_eq!(built.get_tool_cache(), "/tmp/toolcache");
    assert_eq!(built.arch(), ToolCacheArch::ARM64);
    assert_eq!(built.platform(), ToolPlatform::MacOS);
    assert_eq!(built.retry_count(), 5);
}

#[test]
fn cache_root_override_wins() {
    let root = resolve_cache_root(
        Some(String::from("/custom/cache")),
        &vec![String::from("/opt/hostedtoolcache")],
        &vec![true],
        String::from("./.toolcache"),
    );
    assert_eq!(root, "/custom/cache");
}

#[test]
fn cache_root_first_writable_candidate() {
    let candidates = vec![
        String::from("/opt/hostedtoolcache"),
        String::from("/usr/local/share/toolcache"),
        String::from("/tmp/toolcache"),
    ];
    let root = resolve_cache_root(
        None,
        &candidates,
        &vec![false, true, true],
        String::from("./.toolcache"),
    );
    assert_eq!(root, "/usr/local/share/toolcache");
}

#[test]
fn cache_root_falls_back() {
    let root = resolve_cache_root(
        None,
        &vec![String::from("/opt/hostedtoolcache")],
        &vec![false],
        String::from("./.toolcache"),
    );
    assert_eq!(root, "./.toolcache");
}

#[test]
fn check_key_length_rule() {
    assert!(Cache::check_key(&"cache-key".to_string()));
    let long_key: String = "k".repeat(512);
    assert!(Cache::check_key(&long_key));
    let too_long: String = "k".repeat(513);
    assert!(!Cache::check_key(&too_long));
}

#[test]
fn scan_results_feed_selection() {
    // The selection rules on scan results, independent of any filesystem:
    // decomposition skips junk and keeps order, selection takes the first
    // entry with the requested name.
    let scanned = vec![
        String::from("root/go/1.21.0/x64"),
        String::from("root/go/1.21.5/x64"),
        String::from("root/go/1.22.0/arm64"),
    ];
    let tools = Tool::from_paths(&scanned);
    assert_eq!(tools.len(), 3);
    let first = Tool::find_named(&tools, "go").unwrap();
    assert_eq!(tools[first].version(), "1.21.0");
}
