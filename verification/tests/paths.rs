use crank::paths::{base_name_of, is_safe_relative_path, join, parent};

#[test]
fn safe_paths_stay_inside_the_catalog() {
    assert!(is_safe_relative_path("scripts/test.sh"));
    assert!(is_safe_relative_path("scripts/./test.sh"));
    assert!(is_safe_relative_path("scripts//test.sh"));
    assert!(is_safe_relative_path("..hidden/x"));
    assert!(!is_safe_relative_path(""));
    assert!(!is_safe_relative_path("/etc/passwd"));
    assert!(!is_safe_relative_path("./test.sh"));
    assert!(!is_safe_relative_path("."));
    assert!(!is_safe_relative_path("../test.sh"));
    assert!(!is_safe_relative_path("scripts/../../x"));
    assert!(!is_safe_relative_path("scripts/.."));
}

#[test]
fn base_names_follow_path_components() {
    assert_eq!(base_name_of("/bin/sh"), "sh");
    assert_eq!(base_name_of("sh"), "sh");
    assert_eq!(base_name_of("/usr/bin/"), "bin");
    assert_eq!(base_name_of("a/."), "a");
    assert_eq!(base_name_of("/"), "/");
    assert_eq!(base_name_of(""), "");
    assert_eq!(base_name_of("a/.."), "a/..");
    assert_eq!(base_name_of("."), ".");
}

#[test]
fn join_and_parent() {
    assert_eq!(join("/tmp/x", "scripts/a.sh"), "/tmp/x/scripts/a.sh");
    assert_eq!(join("/tmp/x/", "a.sh"), "/tmp/x/a.sh");
    assert_eq!(join("", "a.sh"), "a.sh");
    assert_eq!(parent("/tmp/x/scripts/a.sh").as_deref(), Some("/tmp/x/scripts"));
    assert_eq!(parent("/tmp/x/scripts/./a.sh").as_deref(), Some("/tmp/x/scripts"));
    assert_eq!(parent("/a").as_deref(), Some("/"));
    assert_eq!(parent("a").as_deref(), Some(""));
    assert_eq!(parent("./a").as_deref(), Some("."));
    assert_eq!(parent("a/..").as_deref(), Some("a"));
    assert_eq!(parent("/"), None);
    assert_eq!(parent(""), None);
}
