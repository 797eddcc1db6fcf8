use krystallos::error::Error;
use krystallos::path::{trim_trailing_slashes, VfsPath};

fn p(s: &str) -> VfsPath {
    VfsPath::new(s).expect("should normalize")
}

#[test]
fn root_forms_all_collapse_to_root() {
    for raw in ["", "/", "//", ".", "/.", "///./", "\\"] {
        assert!(p(raw).is_root(), "{raw:?} should be root");
        assert_eq!(p(raw).as_str(), "/");
    }
}

#[test]
fn duplicate_and_trailing_separators_collapse() {
    assert_eq!(p("/a//b///c/").as_str(), "/a/b/c");
    assert_eq!(p("a/b").as_str(), "/a/b");
}

#[test]
fn backslashes_are_treated_as_separators() {
    assert_eq!(p(r"\a\b\c").as_str(), "/a/b/c");
    assert_eq!(p(r"/a\b/c").as_str(), "/a/b/c");
}

#[test]
fn dot_segments_are_dropped() {
    assert_eq!(p("/a/./b/.").as_str(), "/a/b");
    assert_eq!(p("./a").as_str(), "/a");
}

#[test]
fn dotdot_is_resolved_within_the_root() {
    assert_eq!(p("/a/b/../c").as_str(), "/a/c");
    assert_eq!(p("/a/b/../../c").as_str(), "/c");
    assert_eq!(p("/a/..").as_str(), "/");
}

#[test]
fn dotdot_escaping_the_root_is_rejected() {
    for raw in ["/..", "/../a", "/a/../../b"] {
        let err = VfsPath::new(raw).unwrap_err();
        match err {
            Error::InvalidPath { path, reason } => {
                assert!(reason.contains("escapes"));
                assert_eq!(path, raw);
            }
            other => panic!("expected InvalidPath for {raw:?}, got {other:?}"),
        }
    }
}

#[test]
fn file_name_and_parent() {
    assert_eq!(p("/a/b/c").file_name(), Some("c"));
    assert_eq!(p("/a").file_name(), Some("a"));
    assert_eq!(VfsPath::root().file_name(), None);

    assert_eq!(p("/a/b/c").parent().as_str(), "/a/b");
    assert_eq!(p("/a").parent().as_str(), "/");
    assert_eq!(VfsPath::root().parent().as_str(), "/");
}

#[test]
fn segments_skips_the_root_marker() {
    assert_eq!(p("/a/b/c").segments(), ["a", "b", "c"]);
    assert_eq!(VfsPath::root().segments().len(), 0);
}

#[test]
fn join_appends_and_normalizes() {
    let base = p("/a/b");
    assert_eq!(base.join("c").unwrap().as_str(), "/a/b/c");
    assert_eq!(base.join("c/d").unwrap().as_str(), "/a/b/c/d");
    assert_eq!(base.join("./c//d").unwrap().as_str(), "/a/b/c/d");
    assert_eq!(base.join(r"c\d").unwrap().as_str(), "/a/b/c/d");
    assert_eq!(VfsPath::root().join("a").unwrap().as_str(), "/a");
}

#[test]
fn join_rejects_names_that_leave_the_path_unchanged() {
    let base = p("/a/b");
    for name in ["", ".", "/", "./"] {
        assert!(
            base.join(name).is_err(),
            "joining {name:?} should be rejected as a no-op"
        );
    }
}

#[test]
fn join_refuses_dotdot_rather_than_traversing_upward() {
    let base = p("/a/b");
    for name in ["..", "../c", "c/..", "c/../..", r"..\c"] {
        let err = base.join(name).unwrap_err();
        match err {
            Error::InvalidPath { reason, .. } => {
                assert!(
                    reason.contains(".."),
                    "reason should name the offending segment: {reason}"
                );
            }
            other => panic!("expected InvalidPath for {name:?}, got {other:?}"),
        }
    }
    assert_eq!(base.as_str(), "/a/b", "base must be untouched");
}

#[test]
fn join_cannot_escape_the_root() {
    assert!(p("/a").join("../..").is_err());
    assert!(VfsPath::root().join("..").is_err());
}

#[test]
fn upward_traversal_is_still_available_through_new() {
    assert_eq!(p("/a/b/..").as_str(), "/a");
    assert_eq!(p("/a/b/../c").as_str(), "/a/c");
}

#[test]
fn to_uri_attaches_the_endpoint() {
    assert_eq!(p("/a/b").to_uri("smb://host/share"), "smb://host/share/a/b");
    assert_eq!(p("/a/b").to_uri("smb://host/share/"), "smb://host/share/a/b");
    assert_eq!(VfsPath::root().to_uri("file:///d:"), "file:///d:/");
}

#[test]
fn unicode_names_survive_normalization() {
    let path = p("/影片/第 1 集.mkv");
    assert_eq!(path.file_name(), Some("第 1 集.mkv"));
    assert_eq!(path.parent().as_str(), "/影片");
}

#[test]
fn normalizing_twice_is_normalizing_once() {
    for raw in ["a//b/../c", r"\x\.\y\", "", "/影/..//片", "..."] {
        let once = p(raw);
        assert_eq!(p(once.as_str()), once);
        assert_eq!(p(once.as_str()).as_str(), once.to_string());
    }
}

#[test]
fn a_path_is_its_parent_joined_with_its_name() {
    for raw in ["/a", "/a/b", "/影片/第 1 集.mkv", "/..."] {
        let path = p(raw);
        let name = path.file_name().unwrap().to_string();
        assert_eq!(path.parent().join(&name).unwrap(), path);
        assert_eq!(p("/x/y").join(&name).unwrap().parent().as_str(), "/x/y");
    }
}

#[test]
fn joining_agrees_with_normalizing_the_concatenation() {
    let base = p("/a/b");
    for name in ["c", "c//d", "./c", r"c\.\d"] {
        let joined = base.join(name).unwrap();
        assert_eq!(joined, p(&format!("{}/{}", base.as_str(), name)));
        assert!(joined.as_str().starts_with("/a/b/"));
    }
}

#[test]
fn the_reasons_for_refusing_a_name_are_told_apart() {
    match p("/a").join("./") {
        Err(Error::InvalidPath { path, reason }) => {
            assert_eq!(path, "./");
            assert_eq!(reason, "joining this name does not change the path");
        }
        other => panic!("got {other:?}"),
    }
    match p("/a").join("..") {
        Err(Error::InvalidPath { reason, .. }) => assert_eq!(
            reason,
            "`..` is not allowed in a joined name; build the full path with VfsPath::new if you \
             mean to traverse upward"
        ),
        other => panic!("got {other:?}"),
    }
}

#[test]
fn only_slashes_at_the_end_are_trimmed() {
    assert_eq!(trim_trailing_slashes("/a/b///"), "/a/b");
    assert_eq!(trim_trailing_slashes("///"), "");
    assert_eq!(trim_trailing_slashes("a"), "a");
    assert_eq!(trim_trailing_slashes(r"a\"), r"a\");
}

#[test]
fn clones_and_debug_output_name_the_same_path() {
    let path = p("/a/b");
    assert_eq!(path.clone(), path);
    assert_eq!(format!("{path:?}"), "VfsPath(\"/a/b\")");
}
