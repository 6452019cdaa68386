use gemini_server::paths::{is_contained, is_index_allowed, join_path, resolve_path, strip_leading_slash};

#[test]
fn one_leading_separator_is_stripped() {
    assert_eq!(strip_leading_slash("/a/b"), "a/b");
    assert_eq!(strip_leading_slash("a/b"), "a/b");
    assert_eq!(strip_leading_slash("//a"), "/a");
    assert_eq!(strip_leading_slash("/"), "");
    assert_eq!(strip_leading_slash(""), "");
    assert_eq!(strip_leading_slash("/é/✓"), "é/✓");
}

#[test]
fn joining_onto_the_root() {
    assert_eq!(join_path("/srv/gemini", "a/b.gmi"), "/srv/gemini/a/b.gmi");
    assert_eq!(join_path("/srv/gemini/", "a/b.gmi"), "/srv/gemini/a/b.gmi");
    assert_eq!(join_path("/srv/gemini", ""), "/srv/gemini/");
    assert_eq!(join_path("", "a"), "a");
    assert_eq!(join_path("/", "a"), "/a");
    assert_eq!(join_path("/srv/é", "✓"), "/srv/é/✓");
}

#[test]
fn paths_that_stay_below_the_root() {
    for path in ["", "a", "a/b", "a/b/", "a/../b", "a/b/../..", "./a", "a/./b", "a//b", "...", "..a", "a..", "a/b/../../c", ".", "a/", "a/.."] {
        assert!(is_contained(path), "{:?}", path);
    }
}

#[test]
fn paths_that_lead_above_the_root() {
    for path in ["..", "../", "../a", "a/../..", "a/../../b", "./..", "a/b/../../..", "/..", "a/../../a", "../../etc/passwd", "a/b/../../../a/b", "/", "/a", "//a", "/etc/passwd"] {
        assert!(!is_contained(path), "{:?}", path);
    }
}

#[test]
fn resolving_below_the_root() {
    assert_eq!(resolve_path("/srv/gemini", "/a/b.gmi"), Some(String::from("/srv/gemini/a/b.gmi")));
    assert_eq!(resolve_path("/srv/gemini", "/"), Some(String::from("/srv/gemini/")));
    assert_eq!(resolve_path("/srv/gemini", "a"), Some(String::from("/srv/gemini/a")));
    assert_eq!(resolve_path("/srv/gemini", "/a//b"), Some(String::from("/srv/gemini/a//b")));
    assert_eq!(resolve_path("/srv/gemini", "/a/../b"), Some(String::from("/srv/gemini/a/../b")));
    assert_eq!(resolve_path("/srv/gemini", "/../etc/passwd"), None);
    assert_eq!(resolve_path("/srv/gemini", "/a/../../etc/passwd"), None);
    assert_eq!(resolve_path("/srv/gemini", ".."), None);
}

#[test]
fn a_second_leading_separator_names_nothing() {
    assert_eq!(resolve_path("/srv/gemini", "//etc/passwd"), None);
    assert_eq!(resolve_path("/srv/gemini/", "//etc/passwd"), None);
    assert_eq!(resolve_path("/srv/gemini", "//"), None);
    assert_eq!(resolve_path("/srv/gemini", "///a"), None);
}

#[test]
fn an_empty_root_is_not_left_either() {
    assert_eq!(resolve_path("", "//etc/passwd"), None);
    assert_eq!(resolve_path("", "/etc/passwd"), Some(String::from("etc/passwd")));
    assert_eq!(resolve_path("", "etc/passwd"), Some(String::from("etc/passwd")));
    assert_eq!(resolve_path("", "/"), Some(String::from("")));
    assert_eq!(resolve_path("", "/../etc/passwd"), None);
    assert_eq!(resolve_path("", "/a/../../etc/passwd"), None);
}

#[test]
fn index_names_below_the_root() {
    assert!(is_index_allowed("/d/", "index.gmi"));
    assert!(is_index_allowed("/d/", "../x.gmi"));
    assert!(is_index_allowed("/d", "../x.gmi"));
    assert!(is_index_allowed("/a/b/", "../../x.gmi"));
    assert!(is_index_allowed("/", "index.gmi"));
    assert!(is_index_allowed("", "sub/index.gmi"));
    assert!(is_index_allowed("/d/", ""));
    assert!(!is_index_allowed("/", "../x.gmi"));
    assert!(!is_index_allowed("", "../x.gmi"));
    assert!(!is_index_allowed("/d/", "../../x.gmi"));
    assert!(!is_index_allowed("/d/", "/etc/passwd"));
    assert!(!is_index_allowed("/", "/index.gmi"));
    assert!(!is_index_allowed("/../d/", "index.gmi"));
    assert!(!is_index_allowed("//d/", "index.gmi"));
}
