use axfs::split_path;

#[test]
fn test_split_path() {
    assert_eq!(split_path("foo/bar"), ("foo", Some("bar")));
    assert_eq!(split_path("foo"), ("foo", None));
    assert_eq!(split_path("/foo/bar"), ("foo", Some("bar")));
    assert_eq!(split_path(""), ("", None));
    assert_eq!(split_path("/"), ("", None));
    assert_eq!(split_path("///"), ("", None));
}

#[test]
fn dir_test_split_path() {
    assert_eq!(split_path("foo/bar"), ("foo", Some("bar")));
    assert_eq!(split_path("foo"), ("foo", None));
    assert_eq!(split_path("/foo/bar"), ("foo", Some("bar")));
    assert_eq!(split_path("///foo/bar"), ("foo", Some("bar")));
    assert_eq!(split_path(""), ("", None));
    assert_eq!(split_path("/"), ("", None));
    assert_eq!(split_path("///"), ("", None));
}

#[test]
fn split_path_keeps_later_separators_in_the_rest() {
    assert_eq!(split_path("a//b/"), ("a", Some("/b/")));
    assert_eq!(split_path("a/"), ("a", Some("")));
    assert_eq!(split_path("//a/b/c"), ("a", Some("b/c")));
    assert_eq!(split_path("./.."), (".", Some("..")));
}

#[test]
fn split_path_cuts_at_character_boundaries() {
    assert_eq!(split_path("/d\u{e9}j\u{e0}/vu"), ("d\u{e9}j\u{e0}", Some("vu")));
    assert_eq!(split_path("\u{6587}\u{4ef6}"), ("\u{6587}\u{4ef6}", None));
    assert_eq!(split_path("//\u{1f600}/"), ("\u{1f600}", Some("")));
}
