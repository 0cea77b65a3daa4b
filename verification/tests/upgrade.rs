use g_type::version::{is_newer, parse_version, platform_asset_name};

#[test]
fn test_is_newer_patch() {
    assert!(is_newer("1.0.0", "v1.0.1"));
}

#[test]
fn test_is_newer_minor() {
    assert!(is_newer("1.0.0", "v1.1.0"));
}

#[test]
fn test_is_newer_major() {
    assert!(is_newer("1.0.0", "v2.0.0"));
}

#[test]
fn test_is_newer_same() {
    assert!(!is_newer("1.0.0", "v1.0.0"));
}

#[test]
fn test_is_newer_older() {
    assert!(!is_newer("1.1.0", "v1.0.0"));
}

#[test]
fn test_is_newer_no_prefix() {
    assert!(is_newer("1.0.0", "1.1.0"));
}

#[test]
fn test_is_newer_shorter_versions() {
    // Missing components count as zero.
    assert!(is_newer("1.0", "1.0.1"));
    assert!(!is_newer("1.0.0", "1.0"));
    assert!(!is_newer("1", "1.0.0"));
}

#[test]
fn test_parse_version_components() {
    assert_eq!(parse_version("v1.2.3"), vec![1, 2, 3]);
    assert_eq!(parse_version("10.0"), vec![10, 0]);
    // Non-numeric components are skipped, as the lenient parser does.
    assert_eq!(parse_version("1.beta.2"), vec![1, 2]);
    assert_eq!(parse_version(""), Vec::<u64>::new());
}

#[test]
fn test_platform_asset_name() {
    let result = platform_asset_name("linux", "x86_64");
    assert!(result.is_some(), "Platform should be supported: {:?}", result);
    let name = result.unwrap();
    assert!(name.starts_with("g-type-"));
}

#[test]
fn test_platform_asset_name_table() {
    assert_eq!(
        platform_asset_name("macos", "aarch64"),
        Some("g-type-macos-aarch64")
    );
    assert_eq!(
        platform_asset_name("windows", "x86_64"),
        Some("g-type-windows-x86_64.exe")
    );
    assert_eq!(platform_asset_name("linux", "aarch64"), None);
    assert_eq!(platform_asset_name("freebsd", "x86_64"), None);
}
