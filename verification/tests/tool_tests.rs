use ghactions::{Tool, ToolCacheArch, ToolCacheError};

#[test]
fn test_tool_from_path() {
    let path = String::from("node/12.7.0/x64");
    let tool = Tool::try_from(path.clone()).unwrap();

    assert_eq!(tool.path(), &path);
    assert_eq!(tool.name(), "node");
    assert_eq!(tool.version(), "12.7.0");
    assert_eq!(tool.arch(), &ToolCacheArch::X64);
}

#[test]
fn tool_path_exact_version() {
    let tool_path = Tool::tool_path("cache", "node", "12.7.0", ToolCacheArch::X64);
    assert_eq!(tool_path, "cache/node/12.7.0/x64/");
}

#[test]
fn tool_path_wildcard_version() {
    let tool_path = Tool::tool_path("cache", "node", "12.x", ToolCacheArch::X64);
    assert_eq!(tool_path, "cache/node/12.*/x64/");
}

#[test]
fn tool_path_wildcard_arch() {
    let tool_path = Tool::tool_path("cache", "node", "*", ToolCacheArch::Any);
    assert_eq!(tool_path, "cache/node/*/**/");
}

#[test]
fn tool_path_arm64() {
    let tool_path = Tool::tool_path("/opt/hostedtoolcache", "go", "1.21.0", ToolCacheArch::ARM64);
    assert_eq!(tool_path, "/opt/hostedtoolcache/go/1.21.0/arm64/");
}

#[test]
fn tool_path_round_trip() {
    let built = Tool::tool_path("/opt/hostedtoolcache", "go", "1.21.0", ToolCacheArch::X64);
    let tool = Tool::try_from(built.clone()).unwrap();
    assert_eq!(tool.name(), "go");
    assert_eq!(tool.version(), "1.21.0");
    assert_eq!(tool.arch(), &ToolCacheArch::X64);
    assert_eq!(tool.path(), &built);
}

#[test]
fn tool_round_trip_wildcard_arch() {
    let built = Tool::tool_path("cache", "node", "20.1.0", ToolCacheArch::Any);
    let tool = Tool::try_from(built).unwrap();
    assert_eq!(tool.name(), "node");
    assert_eq!(tool.version(), "20.1.0");
    assert_eq!(tool.arch(), &ToolCacheArch::Any);
}

#[test]
fn tool_from_short_path_is_rejected() {
    let err = Tool::try_from(String::from("node/12.7.0")).unwrap_err();
    assert!(matches!(err, ToolCacheError::GenericError(_)));
    let err = Tool::try_from(String::from("")).unwrap_err();
    assert!(matches!(err, ToolCacheError::GenericError(_)));
}

#[test]
fn tool_from_path_ignores_empty_segments() {
    let tool = Tool::try_from(String::from("/opt//node/12.7.0/x64/")).unwrap();
    assert_eq!(tool.name(), "node");
    assert_eq!(tool.version(), "12.7.0");
    assert_eq!(tool.arch(), &ToolCacheArch::X64);
}

#[test]
fn tool_new_and_getters() {
    let tool = Tool::new(
        String::from("node"),
        String::from("12.7.0"),
        ToolCacheArch::X64,
        String::from("cache/node/12.7.0/x64"),
    );
    assert_eq!(tool.name(), "node");
    assert_eq!(tool.version(), "12.7.0");
    assert_eq!(tool.arch(), &ToolCacheArch::X64);
    assert_eq!(tool.path(), "cache/node/12.7.0/x64");
}

#[test]
fn tool_join_appends_segment() {
    let tool = Tool::new(
        String::from("node"),
        String::from("12.7.0"),
        ToolCacheArch::X64,
        String::from("cache/node/12.7.0/x64"),
    );
    assert_eq!(tool.join("bin"), "cache/node/12.7.0/x64/bin");
    assert_eq!(tool.join("/abs"), "/abs");
}

#[test]
fn tools_from_paths_skips_malformed() {
    let paths = vec![
        String::from("cache/node/12.6.0/x64"),
        String::from("junk"),
        String::from("cache/node/12.7.0/x64"),
    ];
    let tools = Tool::from_paths(&paths);
    assert_eq!(tools.len(), 2);
    assert_eq!(tools[0].version(), "12.6.0");
    assert_eq!(tools[1].version(), "12.7.0");
}

#[test]
fn find_named_selects_first_match() {
    let paths = vec![
        String::from("cache/other/1.0.0/x64"),
        String::from("cache/node/12.6.0/x64"),
        String::from("cache/node/12.7.0/x64"),
    ];
    let tools = Tool::from_paths(&paths);
    let idx = Tool::find_named(&tools, "node").unwrap();
    assert_eq!(idx, 1);
    assert_eq!(tools[idx].version(), "12.6.0");
    assert!(Tool::find_named(&tools, "python").is_none());
}
