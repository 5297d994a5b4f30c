//! Paths as plain text, by the rules of either host.
use entangled_manager::host::Host;
use entangled_manager::paths::{
    ancestors, before, file_name, has_extension, is_absolute, join, parent, same, under,
};
use std::path::Path;

const WIN: Host = Host::Windows;
const UNIX: Host = Host::Linux;

#[test]
fn absolute_paths_are_anchored() {
    assert!(is_absolute(UNIX, "/vms"));
    assert!(!is_absolute(UNIX, "vms"));
    assert!(!is_absolute(UNIX, r"C:\vms"));
    assert!(is_absolute(WIN, r"C:\vms"));
    assert!(is_absolute(WIN, "C:/vms"));
    assert!(!is_absolute(WIN, "C:vms"));
    assert!(!is_absolute(WIN, r"\vms"));
    assert!(is_absolute(WIN, r"\\server\share"));
    assert!(is_absolute(WIN, r"//server/share\x"));
    assert!(!is_absolute(WIN, r"\\server"), "a share needs both names");
    assert!(!is_absolute(WIN, r"\\server\"));
    assert!(is_absolute(WIN, r"\\?\C:\vms"));
    assert!(is_absolute(WIN, r"\\.\COM3"));
}

#[test]
fn joining_keeps_what_anchors_the_base() {
    assert_eq!(join(UNIX, "/vms", "a.raw"), "/vms/a.raw");
    assert_eq!(join(UNIX, "/vms/", "a.raw"), "/vms/a.raw");
    assert_eq!(join(UNIX, "/vms", "/a.raw"), "/a.raw");
    assert_eq!(join(UNIX, "", "a.raw"), "a.raw");
    assert_eq!(join(UNIX, "/vms", ""), "/vms/");
    assert_eq!(join(WIN, r"D:\vms", "a.raw"), r"D:\vms\a.raw");
    assert_eq!(join(WIN, r"D:\vms", r"\a.raw"), r"D:\a.raw");
    assert_eq!(join(WIN, r"D:\vms", r"C:a.raw"), r"C:a.raw");
    assert_eq!(join(WIN, "D:", "a.raw"), "D:a.raw");
    assert_eq!(join(WIN, r"\\s\t", r"\x"), r"\\s\t\x");
    assert_eq!(join(WIN, r"\\s\t\vms", r"\x"), r"\\s\t\x");
    assert_eq!(join(WIN, r"\\s\t", "x"), r"\\s\t\x");
    assert_eq!(join(WIN, r"D:\vms", r"\\s\t\x"), r"\\s\t\x");
    assert_eq!(join(WIN, r"\vms", r"\\s"), r"\\s");
}

#[test]
fn verbatim_paths_take_no_dots() {
    assert_eq!(join(WIN, r"\\?\C:\a\b", r"..\.\c"), r"\\?\C:\a\c");
    assert_eq!(join(WIN, r"\\?\C:\a\b", r"\c/d"), r"\\?\C:\c\d");
    assert_eq!(join(WIN, r"\\?\UNC\s\t", "x"), r"\\?\UNC\s\t\x");
    assert_eq!(join(WIN, r"\\?\C:\a", ""), r"\\?\C:\a\");
    assert_eq!(parent(WIN, r"\\?\C:\a\b").as_deref(), Some(r"\\?\C:\a"));
    assert_eq!(file_name(WIN, r"\\?\C:\a/b").as_deref(), Some("a/b"));
    assert!(!same(WIN, r"\\?\C:\a", r"C:\a"));
    assert!(same(WIN, r"\\?\c:\a", r"\\?\C:\a"));
}

#[test]
fn directories_are_cut_off_the_text() {
    assert_eq!(parent(UNIX, "/vms/a.raw").as_deref(), Some("/vms"));
    assert_eq!(parent(UNIX, "/a.raw").as_deref(), Some("/"));
    assert_eq!(parent(UNIX, "a.raw").as_deref(), Some(""));
    assert_eq!(parent(UNIX, "/"), None);
    assert_eq!(parent(UNIX, ""), None);
    assert_eq!(parent(UNIX, "/vms//deep/./a.raw/").as_deref(), Some("/vms//deep"));
    assert_eq!(parent(UNIX, "./a").as_deref(), Some("."));
    assert_eq!(parent(WIN, r"D:/vms/deep\a.raw").as_deref(), Some("D:/vms/deep"));
    assert_eq!(parent(WIN, r"D:\a").as_deref(), Some(r"D:\"));
    assert_eq!(parent(WIN, "D:a").as_deref(), Some("D:"));
    assert_eq!(parent(WIN, r"\\s\t\a").as_deref(), Some(r"\\s\t\"));
    assert_eq!(parent(WIN, r"\\s\t\"), None);
    assert_eq!(parent(WIN, r"\\s\t"), None);
    assert_eq!(ancestors(UNIX, "/a//b"), ["/a//b", "/a", "/"]);
    assert_eq!(ancestors(UNIX, "a"), ["a", ""]);
}

#[test]
fn names_are_what_stands_last() {
    assert_eq!(file_name(UNIX, "/vms/a.raw/.").as_deref(), Some("a.raw"));
    assert_eq!(file_name(UNIX, "/vms/.."), None);
    assert_eq!(file_name(UNIX, "."), None);
    assert_eq!(file_name(UNIX, r"/a\b").as_deref(), Some(r"a\b"));
    assert_eq!(file_name(WIN, r"\\s\t"), None);
    assert_eq!(file_name(WIN, r"\\s\t\u").as_deref(), Some("u"));
    assert!(has_extension(UNIX, "/vms/a.toml", "toml"));
    assert!(!has_extension(UNIX, "/vms/.toml", "toml"));
    assert!(!has_extension(UNIX, "/vms/a.toml.bak", "toml"));
}

#[test]
fn paths_are_compared_by_their_components() {
    assert!(same(UNIX, "/vms//a/./b/", "/vms/a/b"));
    assert!(!same(UNIX, "/vms/a/../b", "/vms/b"));
    assert!(!same(UNIX, "./a", "a"));
    assert!(!same(UNIX, r"a\b", "a/b"));
    assert!(same(WIN, r"c:\a", "C:/a"));
    assert!(!same(WIN, r"C:\A", r"C:\a"));
    assert!(same(WIN, r"\\s\t", "//s/t/"));
    assert!(!same(WIN, r"\\s\t", r"\\S\t"));
    assert!(!same(WIN, r"\\s\t\u", r"\s\t\u"));
    assert!(under(UNIX, "/vms/a", "/vms"));
    assert!(!under(UNIX, "/vms2/a", "/vms"));
    assert!(under(UNIX, "a", ""));
    assert!(under(WIN, r"\\s\t\u", r"\\s\t"));
    assert!(!under(WIN, r"\\s\t\u", r"\\s\tt"));
    assert!(before(UNIX, "/a/b", "/a-b"));
    assert!(before(UNIX, "/a", "a"));
    assert!(!before(UNIX, "/a//b", "/a/b") && !before(UNIX, "/a/b", "/a//b"));
    assert!(before(WIN, r"\\s\t\x", r"C:\x"), "shares sort before drives");
    assert!(before(WIN, r"C:\x", r"\x"));
}

#[test]
fn the_rules_are_those_of_the_standard_library() {
    let all = [
        "", ".", "..", "/", "//", "a", "a/", "a//b", "./a", "a/.", "a/./b", "../a", "/a", "/a/../b",
        "/.", "//a", "a.toml", ".toml", "a.b.toml", r"a\b", "/vms/a b", "/é/x", "a-b", "a/b",
    ];
    for a in all {
        let p = Path::new(a);
        assert_eq!(is_absolute(UNIX, a), p.is_absolute(), "{a}");
        assert_eq!(parent(UNIX, a).as_deref(), p.parent().and_then(Path::to_str), "{a}");
        assert_eq!(
            file_name(UNIX, a).as_deref(),
            p.file_name().and_then(|n| n.to_str()),
            "{a}"
        );
        assert_eq!(has_extension(UNIX, a, "toml"), p.extension().is_some_and(|e| e == "toml"));
        let up: Vec<&str> = p.ancestors().filter_map(Path::to_str).collect();
        assert_eq!(ancestors(UNIX, a), up, "{a}");
        for b in all {
            let q = Path::new(b);
            assert_eq!(join(UNIX, a, b), p.join(q).to_str().unwrap(), "{a} {b}");
            assert_eq!(same(UNIX, a, b), p == q, "{a} {b}");
            assert_eq!(under(UNIX, a, b), p.starts_with(q), "{a} {b}");
            assert_eq!(before(UNIX, a, b), p < q, "{a} {b}");
        }
    }
}
