use ghactions::ToolCacheArch;

#[test]
fn test_toolcache_arch() {
    let x64 = ToolCacheArch::X64;
    let arm64 = ToolCacheArch::ARM64;
    let any = ToolCacheArch::Any;

    assert_eq!(x64.to_string(), "x64");
    assert_eq!(arm64.to_string(), "arm64");
    assert_eq!(any.to_string(), "**");

    let x64_str = "x64".to_string();
    let arm64_str = "arm64".to_string();
    let any_str = "**".to_string();

    assert_eq!(x64, ToolCacheArch::from(&x64_str));
    assert_eq!(arm64, ToolCacheArch::from(&arm64_str));
    assert_eq!(any, ToolCacheArch::from(&any_str));
}

#[test]
fn arch_parse_ignores_ascii_case() {
    assert_eq!(ToolCacheArch::from("X64"), ToolCacheArch::X64);
    assert_eq!(ToolCacheArch::from("Arm64"), ToolCacheArch::ARM64);
    assert_eq!(ToolCacheArch::from("ARM64"), ToolCacheArch::ARM64);
}

#[test]
fn arch_parse_unknown_is_wildcard() {
    assert_eq!(ToolCacheArch::from("riscv64"), ToolCacheArch::Any);
    assert_eq!(ToolCacheArch::from(""), ToolCacheArch::Any);
}

#[test]
fn arch_from_cpu_identifiers() {
    assert_eq!(ToolCacheArch::from_cpu("x86_64"), ToolCacheArch::X64);
    assert_eq!(ToolCacheArch::from_cpu("amd64"), ToolCacheArch::X64);
    assert_eq!(ToolCacheArch::from_cpu("aarch64"), ToolCacheArch::ARM64);
    assert_eq!(ToolCacheArch::from_cpu("powerpc"), ToolCacheArch::Any);
}
