use build_cleaner::path;
use build_cleaner::search::SearchEngine;
use std::path::{Component, Path};

fn library_parts(s: &str) -> Vec<String> {
    path::split(s).into_iter().map(|c| c.into_iter().collect()).collect()
}

fn std_parts(s: &str) -> Vec<String> {
    Path::new(s)
        .components()
        .map(|c| match c {
            Component::RootDir => "/".to_string(),
            Component::CurDir => ".".to_string(),
            Component::ParentDir => "..".to_string(),
            Component::Normal(n) => n.to_str().unwrap().to_string(),
            Component::Prefix(p) => p.as_os_str().to_str().unwrap().to_string(),
        })
        .collect()
}

const SAMPLES: [&str; 40] = [
    "", "/", "//", "///a", ".", "..", "./", "./.", "./a", "././a", "a/./b", "a/b/.", "a/b/", "a//b",
    "/a/b", "/a/b/", "/a/./b", "/.", "/..", "/./a", "a", "a/..", "a/../b", "../a", "..a", "a..",
    ".a", "a.", "...", "./..", "../.", "/a/b/c/d", "/a/bc", "/a/b c", "~/x", "/usr", "/usr/bin",
    "/usrlocal", "caf\u{e9}/\u{e9}t\u{e9}", ".hidden/./x//",
];

#[test]
fn test_should_exclude() {
    let excludes = vec!["/exclude/path1".to_string(), "/exclude/path2".to_string()];

    assert!(SearchEngine::should_exclude("/exclude/path1/sub", &excludes));
    assert!(SearchEngine::should_exclude("/exclude/path2", &excludes));

    assert!(!SearchEngine::should_exclude("/other/path", &excludes));
}

#[test]
fn split_agrees_with_the_standard_library() {
    for s in SAMPLES {
        assert_eq!(library_parts(s), std_parts(s), "components of {:?}", s);
    }
}

#[test]
fn starts_with_agrees_with_the_standard_library() {
    for a in SAMPLES {
        for b in SAMPLES {
            assert_eq!(
                path::starts_with(a, b),
                Path::new(a).starts_with(b),
                "{:?} under {:?}",
                a,
                b
            );
            assert_eq!(
                path::strictly_under(a, b),
                Path::new(a).starts_with(b) && Path::new(a) != Path::new(b),
                "{:?} strictly under {:?}",
                a,
                b
            );
        }
    }
}

#[test]
fn depth_and_name_agree_with_the_standard_library() {
    for s in SAMPLES {
        assert_eq!(path::component_count(s), Path::new(s).components().count(), "{:?}", s);
        let name: String = path::file_name(s).into_iter().collect();
        let expected = Path::new(s).file_name().and_then(|n| n.to_str()).unwrap_or("");
        assert_eq!(name, expected, "name of {:?}", s);
    }
}

#[test]
fn components_by_hand() {
    assert_eq!(library_parts("/a/b"), vec!["/", "a", "b"]);
    assert_eq!(library_parts("a//b/./c/"), vec!["a", "b", "c"]);
    assert_eq!(library_parts("./a"), vec![".", "a"]);
    assert_eq!(library_parts("a/../b"), vec!["a", "..", "b"]);
    assert_eq!(library_parts(""), Vec::<String>::new());
    assert_eq!(path::component_count("/a/b/c/d"), 5);
    assert_eq!(path::component_count("/"), 1);
}

#[test]
fn nesting_counts_whole_components() {
    assert!(path::starts_with("/a/b", "/a/b"));
    assert!(path::starts_with("/a/b/c", "/a/b"));
    assert!(path::starts_with("/a/b/", "/a/b"));
    assert!(!path::starts_with("/a/bc", "/a/b"));
    assert!(!path::starts_with("/a", "/a/b"));
    assert!(!path::strictly_under("/a/b", "/a/b"));
    assert!(!path::strictly_under("/a/b/", "/a//b"));
    assert!(path::strictly_under("/a/b/c", "/a/b"));
    assert!(path::starts_with("/anything", "/"));
    assert!(!path::starts_with("relative", "/"));
    assert!(path::starts_with("anything", ""));
}

#[test]
fn exclusion_by_any_member() {
    let none: Vec<String> = vec![];
    assert!(!SearchEngine::should_exclude("/a", &none));
    let excludes = vec!["/x".to_string(), "/a/b".to_string()];
    assert!(SearchEngine::should_exclude("/a/b", &excludes));
    assert!(SearchEngine::should_exclude("/a/b/c/d", &excludes));
    assert!(!SearchEngine::should_exclude("/a", &excludes));
    assert!(!SearchEngine::should_exclude("/a/bb", &excludes));
}

#[test]
fn matched_folder_prunes_only_what_is_beneath() {
    let matched = vec!["/p/node_modules".to_string()];
    assert!(!SearchEngine::is_in_matched_folder("/p/node_modules", &matched));
    assert!(SearchEngine::is_in_matched_folder("/p/node_modules/sub", &matched));
    assert!(SearchEngine::is_in_matched_folder("/p/node_modules/sub/file.txt", &matched));
    assert!(!SearchEngine::is_in_matched_folder("/p/node_modules_old/x", &matched));
    assert!(!SearchEngine::is_in_matched_folder("/p/other", &matched));
}

#[test]
fn parent_components_are_found() {
    assert!(path::has_parent("/a/../b"));
    assert!(path::has_parent("/a/.."));
    assert!(path::has_parent("../a"));
    assert!(path::has_parent(".."));
    assert!(!path::has_parent("/a/..b/c"));
    assert!(!path::has_parent("/a/b../c"));
    assert!(!path::has_parent("/a/.../c"));
    assert!(!path::has_parent(""));
}
