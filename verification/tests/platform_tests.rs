use ghactions::{ToolCacheArch, ToolPlatform};

#[test]
fn test_to_string() {
    assert_eq!(ToolPlatform::Windows.to_string(), "windows");
    assert_eq!(ToolPlatform::Linux.to_string(), "linux");
    assert_eq!(ToolPlatform::MacOS.to_string(), "macos");
    assert_eq!(ToolPlatform::Any.to_string(), "any");
}

#[test]
fn test_from_str() {
    assert_eq!(ToolPlatform::from("windows"), ToolPlatform::Windows);
    assert_eq!(ToolPlatform::from("linux"), ToolPlatform::Linux);
    assert_eq!(ToolPlatform::from("macos"), ToolPlatform::MacOS);
    assert_eq!(ToolPlatform::from("unknown"), ToolPlatform::Any);
    assert_eq!(ToolPlatform::from(""), ToolPlatform::Any);
}

#[test]
fn platform_default_arch_convention() {
    assert_eq!(ToolPlatform::Windows.default_arch(), ToolCacheArch::X64);
    assert_eq!(ToolPlatform::Linux.default_arch(), ToolCacheArch::X64);
    assert_eq!(ToolPlatform::MacOS.default_arch(), ToolCacheArch::ARM64);
    assert_eq!(ToolPlatform::Any.default_arch(), ToolCacheArch::Any);
}

#[test]
fn platform_parse_is_case_sensitive() {
    assert_eq!(ToolPlatform::from("Linux"), ToolPlatform::Any);
}
