use cmake_package_index::get_prefix;
use cmake_package_index::names::{
    is_config_file, is_config_version_file, is_module_file, truncate_at_dot,
};
use cmake_package_index::scan::get_available_libs;
use cmake_package_index::snapshot::FileEntry;
use cmake_package_index::version::get_version;

#[test]
fn config_file_names() {
    assert!(is_config_file("VulkanHeadersConfig.cmake"));
    assert!(is_config_file("foo-config.cmake"));
    assert!(!is_config_file("FooTargets.cmake"));
    assert!(!is_config_file("FooConfig.txt"));
}

#[test]
fn config_version_file_names() {
    assert!(is_config_version_file("VulkanHeadersConfigVersion.cmake"));
    assert!(is_config_version_file("foo-config-version.cmake"));
    assert!(!is_config_version_file("FooConfig.cmake"));
}

#[test]
fn module_file_names() {
    assert!(is_module_file("FindFoo.cmake"));
    assert!(is_module_file("FooConfig.cmake"));
    assert!(!is_module_file("README.md"));
}

#[test]
fn version_extraction() {
    assert_eq!(get_version("set(PACKAGE_VERSION \"1.3.295\")\n"), Some("1.3.295".to_string()));
    assert_eq!(
        get_version("# header\nset(PACKAGE_VERSION \"6.5.0\")\nmore\n"),
        Some("6.5.0".to_string())
    );
}

#[test]
fn version_extraction_rejects_malformed_content() {
    assert_eq!(get_version(""), None);
    assert_eq!(get_version("no declaration here"), None);
    // an empty declared version is never reported
    assert_eq!(get_version("set(PACKAGE_VERSION \"\")"), None);
    // an unterminated declaration is not a version
    assert_eq!(get_version("set(PACKAGE_VERSION \"1.2.3"), None);
}

#[test]
fn name_truncation() {
    assert_eq!(truncate_at_dot("FindFoo.cmake"), "FindFoo".to_string());
    assert_eq!(truncate_at_dot("Foo.Bar.cmake"), "Foo".to_string());
    assert_eq!(truncate_at_dot("NoDots"), "NoDots".to_string());
    assert_eq!(truncate_at_dot(".hidden"), "".to_string());
    assert_eq!(truncate_at_dot(""), "".to_string());
}

#[test]
fn prefix_resolution_order() {
    assert_eq!(get_prefix(Some("/msys".to_string()), Some("/cmake".to_string())), Some("/msys".to_string()));
    assert_eq!(get_prefix(Some("/msys".to_string()), None), Some("/msys".to_string()));
    assert_eq!(get_prefix(None, Some("/cmake".to_string())), Some("/cmake".to_string()));
    assert_eq!(get_prefix(None, None), None);
}

#[test]
fn available_libs_in_candidate_order() {
    let libs = get_available_libs("/pfx", &[true, false, true, true]);
    assert_eq!(libs, vec![
        "/pfx/lib/cmake".to_string(),
        "/pfx/lib64/cmake".to_string(),
        "/pfx/share/cmake".to_string(),
    ]);
    let none = get_available_libs("/pfx", &[false, false, false, false]);
    assert!(none.is_empty());
}

#[test]
fn file_entry_canonicalizes_its_path() {
    let e = FileEntry::new(
        "FindFoo.cmake".to_string(),
        "/pfx/lib/cmake/sub/../FindFoo.cmake",
        None,
    )
    .expect("an absolute path must canonicalize");
    assert_eq!(e.name, "FindFoo.cmake".to_string());
    assert_eq!(e.path, "/pfx/lib/cmake/FindFoo.cmake".to_string());
    assert_eq!(e.content, None);
}
