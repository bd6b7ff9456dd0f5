use cmake_package_index::index::PackageIndex;
use cmake_package_index::package::{CMakePackage, CMakePackageFrom, FileType};
use cmake_package_index::scan::{get_cmake_message, get_cmake_message_with_prefix};
use cmake_package_index::snapshot::{ChildKind, ConfigTree, FileEntry, LibRoot, LibRootChild, PrefixSnapshot};

fn entry(name: &str, path: &str, content: Option<&str>) -> FileEntry {
    FileEntry {
        name: name.to_string(),
        path: path.to_string(),
        content: content.map(|c| c.to_string()),
    }
}

/// The example prefix: `share/cmake/VulkanHeaders/{VulkanHeadersConfig.cmake,
/// VulkanHeadersConfigVersion.cmake}` and `share/ECM/cmake/{ECMConfig.cmake,
/// ECMConfigVersion.cmake}`.  The ECM tree matches `share/*/cmake`; the
/// VulkanHeaders directory is an immediate child of the `share/cmake`
/// library root.
fn example_snapshot() -> PrefixSnapshot {
    let ecm_tree = ConfigTree {
        parent_name: "ECM".to_string(),
        tree_path: "/pfx/share/ECM/cmake".to_string(),
        files: vec![
            entry("ECMConfig.cmake", "/pfx/share/ECM/cmake/ECMConfig.cmake", Some("")),
            entry(
                "ECMConfigVersion.cmake",
                "/pfx/share/ECM/cmake/ECMConfigVersion.cmake",
                Some("set(PACKAGE_VERSION \"6.5.0\")\n"),
            ),
        ],
    };
    let vulkan_child = LibRootChild {
        name: "VulkanHeaders".to_string(),
        path: "/pfx/share/cmake/VulkanHeaders".to_string(),
        kind: ChildKind::Dir(vec![
            entry(
                "VulkanHeadersConfig.cmake",
                "/pfx/share/cmake/VulkanHeaders/VulkanHeadersConfig.cmake",
                Some(""),
            ),
            entry(
                "VulkanHeadersConfigVersion.cmake",
                "/pfx/share/cmake/VulkanHeaders/VulkanHeadersConfigVersion.cmake",
                Some("set(PACKAGE_VERSION \"1.3.295\")\n"),
            ),
        ]),
    };
    PrefixSnapshot {
        config_trees: vec![ecm_tree],
        lib_roots: vec![LibRoot { children: vec![vulkan_child] }],
    }
}

#[test]
fn test_package_search() {
    let snapshot = example_snapshot();
    let index = get_cmake_message_with_prefix(&snapshot);
    assert_eq!(index.len(), 2);

    let vulkan = index.get("VulkanHeaders").expect("VulkanHeaders must be indexed");
    let vulkan_target = CMakePackage {
        name: "VulkanHeaders".to_string(),
        filetype: FileType::Dir,
        filepath: "/pfx/share/cmake/VulkanHeaders".to_string(),
        version: Some("1.3.295".to_string()),
        tojump: vec![
            "/pfx/share/cmake/VulkanHeaders/VulkanHeadersConfig.cmake".to_string(),
            "/pfx/share/cmake/VulkanHeaders/VulkanHeadersConfigVersion.cmake".to_string(),
        ],
        from: CMakePackageFrom::System,
    };
    assert_eq!(*vulkan, vulkan_target);

    let ecm = index.get("ECM").expect("ECM must be indexed");
    let ecm_target = CMakePackage {
        name: "ECM".to_string(),
        filetype: FileType::Dir,
        filepath: "/pfx/share/ECM/cmake".to_string(),
        version: Some("6.5.0".to_string()),
        tojump: vec![
            "/pfx/share/ECM/cmake/ECMConfig.cmake".to_string(),
            "/pfx/share/ECM/cmake/ECMConfigVersion.cmake".to_string(),
        ],
        from: CMakePackageFrom::System,
    };
    assert_eq!(*ecm, ecm_target);
}

#[test]
fn unconfigured_prefix_yields_empty_index() {
    let index = get_cmake_message(None, None, &example_snapshot());
    assert_eq!(index.len(), 0);
    assert!(index.get("VulkanHeaders").is_none());
}

#[test]
fn msys_prefix_enables_discovery() {
    let index = get_cmake_message(Some("/pfx".to_string()), None, &example_snapshot());
    assert_eq!(index.len(), 2);
    let index = get_cmake_message(None, Some("/pfx".to_string()), &example_snapshot());
    assert_eq!(index.len(), 2);
}

#[test]
fn empty_prefix_yields_empty_index() {
    let snapshot = PrefixSnapshot { config_trees: vec![], lib_roots: vec![] };
    let index = get_cmake_message_with_prefix(&snapshot);
    assert_eq!(index.len(), 0);
}

#[test]
fn scanning_twice_is_identical() {
    let first = get_cmake_message_with_prefix(&example_snapshot());
    let second = get_cmake_message_with_prefix(&example_snapshot());
    assert_eq!(first.records(), second.records());
}

#[test]
fn independent_trees_do_not_interfere() {
    let snapshot = PrefixSnapshot {
        config_trees: vec![
            ConfigTree {
                parent_name: "VulkanHeaders".to_string(),
                tree_path: "/pfx/share/VulkanHeaders/cmake".to_string(),
                files: vec![
                    entry(
                        "VulkanHeadersConfig.cmake",
                        "/pfx/share/VulkanHeaders/cmake/VulkanHeadersConfig.cmake",
                        Some(""),
                    ),
                    entry(
                        "VulkanHeadersConfigVersion.cmake",
                        "/pfx/share/VulkanHeaders/cmake/VulkanHeadersConfigVersion.cmake",
                        Some("set(PACKAGE_VERSION \"1.3.295\")\n"),
                    ),
                ],
            },
            ConfigTree {
                parent_name: "ECM".to_string(),
                tree_path: "/pfx/share/ECM/cmake".to_string(),
                files: vec![
                    entry("ECMConfig.cmake", "/pfx/share/ECM/cmake/ECMConfig.cmake", Some("")),
                    entry(
                        "ECMConfigVersion.cmake",
                        "/pfx/share/ECM/cmake/ECMConfigVersion.cmake",
                        Some("set(PACKAGE_VERSION \"6.5.0\")\n"),
                    ),
                ],
            },
        ],
        lib_roots: vec![],
    };
    let index = get_cmake_message_with_prefix(&snapshot);
    assert_eq!(index.len(), 2);
    assert_eq!(index.get("VulkanHeaders").unwrap().version, Some("1.3.295".to_string()));
    assert_eq!(index.get("ECM").unwrap().version, Some("6.5.0".to_string()));
}

#[test]
fn name_collision_keeps_config_record() {
    let snapshot = PrefixSnapshot {
        config_trees: vec![ConfigTree {
            parent_name: "Foo".to_string(),
            tree_path: "/pfx/share/Foo/cmake".to_string(),
            files: vec![
                entry("FooConfig.cmake", "/pfx/share/Foo/cmake/FooConfig.cmake", Some("")),
                entry(
                    "FooConfigVersion.cmake",
                    "/pfx/share/Foo/cmake/FooConfigVersion.cmake",
                    Some("set(PACKAGE_VERSION \"2.0\")\n"),
                ),
            ],
        }],
        lib_roots: vec![LibRoot {
            children: vec![LibRootChild {
                name: "Foo".to_string(),
                path: "/pfx/lib/cmake/Foo".to_string(),
                kind: ChildKind::Dir(vec![entry(
                    "FooTargets.cmake",
                    "/pfx/lib/cmake/Foo/FooTargets.cmake",
                    Some(""),
                )]),
            }],
        }],
    };
    let index = get_cmake_message_with_prefix(&snapshot);
    assert_eq!(index.len(), 1);
    let foo = index.get("Foo").unwrap();
    assert_eq!(foo.filepath, "/pfx/share/Foo/cmake".to_string());
    assert_eq!(foo.version, Some("2.0".to_string()));
    assert_eq!(foo.tojump, vec![
        "/pfx/share/Foo/cmake/FooConfig.cmake".to_string(),
        "/pfx/share/Foo/cmake/FooConfigVersion.cmake".to_string(),
    ]);
}

#[test]
fn single_file_module_record() {
    let snapshot = PrefixSnapshot {
        config_trees: vec![],
        lib_roots: vec![LibRoot {
            children: vec![LibRootChild {
                name: "FindFoo.cmake".to_string(),
                path: "/pfx/lib/cmake/FindFoo.cmake".to_string(),
                kind: ChildKind::File,
            }],
        }],
    };
    let index = get_cmake_message_with_prefix(&snapshot);
    assert_eq!(index.len(), 1);
    let foo = index.get("FindFoo").unwrap();
    assert_eq!(foo.name, "FindFoo".to_string());
    assert_eq!(foo.filetype, FileType::File);
    assert_eq!(foo.version, None);
    assert_eq!(foo.tojump, vec!["/pfx/lib/cmake/FindFoo.cmake".to_string()]);
}

#[test]
fn file_name_truncates_at_first_dot() {
    let snapshot = PrefixSnapshot {
        config_trees: vec![],
        lib_roots: vec![LibRoot {
            children: vec![LibRootChild {
                name: "Foo.Bar.cmake".to_string(),
                path: "/pfx/lib/cmake/Foo.Bar.cmake".to_string(),
                kind: ChildKind::File,
            }],
        }],
    };
    let index = get_cmake_message_with_prefix(&snapshot);
    assert!(index.get("Foo").is_some());
    assert!(index.get("Foo.Bar").is_none());
}

#[test]
fn tree_without_config_file_is_no_package() {
    let snapshot = PrefixSnapshot {
        config_trees: vec![ConfigTree {
            parent_name: "Bar".to_string(),
            tree_path: "/pfx/share/Bar/cmake".to_string(),
            files: vec![entry("BarTargets.cmake", "/pfx/share/Bar/cmake/BarTargets.cmake", Some(""))],
        }],
        lib_roots: vec![],
    };
    let index = get_cmake_message_with_prefix(&snapshot);
    assert_eq!(index.len(), 0);
}

#[test]
fn last_version_file_wins() {
    let snapshot = PrefixSnapshot {
        config_trees: vec![ConfigTree {
            parent_name: "Baz".to_string(),
            tree_path: "/pfx/share/Baz/cmake".to_string(),
            files: vec![
                entry("BazConfig.cmake", "/pfx/share/Baz/cmake/BazConfig.cmake", Some("")),
                entry(
                    "BazConfigVersion.cmake",
                    "/pfx/share/Baz/cmake/BazConfigVersion.cmake",
                    Some("set(PACKAGE_VERSION \"1.0\")\n"),
                ),
                entry(
                    "baz-config-version.cmake",
                    "/pfx/share/Baz/cmake/baz-config-version.cmake",
                    Some("set(PACKAGE_VERSION \"2.0\")\n"),
                ),
            ],
        }],
        lib_roots: vec![],
    };
    let index = get_cmake_message_with_prefix(&snapshot);
    assert_eq!(index.get("Baz").unwrap().version, Some("2.0".to_string()));
}

#[test]
fn unreadable_version_file_leaves_version_alone() {
    let snapshot = PrefixSnapshot {
        config_trees: vec![ConfigTree {
            parent_name: "Qux".to_string(),
            tree_path: "/pfx/share/Qux/cmake".to_string(),
            files: vec![
                entry("QuxConfig.cmake", "/pfx/share/Qux/cmake/QuxConfig.cmake", Some("")),
                entry(
                    "QuxConfigVersion.cmake",
                    "/pfx/share/Qux/cmake/QuxConfigVersion.cmake",
                    Some("set(PACKAGE_VERSION \"3.1\")\n"),
                ),
                entry(
                    "qux-config-version.cmake",
                    "/pfx/share/Qux/cmake/qux-config-version.cmake",
                    None,
                ),
            ],
        }],
        lib_roots: vec![],
    };
    let index = get_cmake_message_with_prefix(&snapshot);
    assert_eq!(index.get("Qux").unwrap().version, Some("3.1".to_string()));
}

#[test]
fn index_first_insert_wins() {
    let first = CMakePackage {
        name: "Same".to_string(),
        filetype: FileType::Dir,
        filepath: "/first".to_string(),
        version: None,
        tojump: vec![],
        from: CMakePackageFrom::System,
    };
    let second = CMakePackage {
        name: "Same".to_string(),
        filetype: FileType::File,
        filepath: "/second".to_string(),
        version: Some("9.9".to_string()),
        tojump: vec!["/second".to_string()],
        from: CMakePackageFrom::System,
    };
    let index = PackageIndex::new().insert_if_absent(first.clone()).insert_if_absent(second);
    assert_eq!(index.len(), 1);
    assert_eq!(*index.get("Same").unwrap(), first);
    assert!(index.get("Other").is_none());
}
