use posix_utils::basename::basename;

#[test]
fn empty_string_is_dot() {
    assert_eq!(basename("", None), b".".to_vec());
}

#[test]
fn only_slashes_is_one_slash() {
    assert_eq!(basename("///", None), b"/".to_vec());
    assert_eq!(basename("/", None), b"/".to_vec());
}

#[test]
fn last_component_of_absolute_path() {
    assert_eq!(basename("/usr/bin/sort", None), b"sort".to_vec());
}

#[test]
fn suffix_is_removed() {
    assert_eq!(basename("/usr/lib/libc.a", Some(".a")), b"libc".to_vec());
}

#[test]
fn suffix_equal_to_result_is_kept() {
    assert_eq!(basename("abc", Some("abc")), b"abc".to_vec());
    assert_eq!(basename("/x/abc/", Some("abc")), b"abc".to_vec());
}

#[test]
fn plain_name_is_unchanged() {
    assert_eq!(basename("sort", None), b"sort".to_vec());
    assert_eq!(basename("a", None), b"a".to_vec());
    assert_eq!(basename("héllo.txt", None), "héllo.txt".as_bytes().to_vec());
}

#[test]
fn trailing_slashes_are_trimmed() {
    assert_eq!(basename("a/b//", None), b"b".to_vec());
    assert_eq!(basename("dir/", None), b"dir".to_vec());
}

#[test]
fn suffix_not_at_end_is_kept() {
    assert_eq!(basename("/tmp/archive.tar.gz", Some(".tar")), b"archive.tar.gz".to_vec());
    assert_eq!(basename("/tmp/archive.tar.gz", Some(".gz")), b"archive.tar".to_vec());
    assert_eq!(basename("ab", Some("xab")), b"ab".to_vec());
}

#[test]
fn suffix_is_matched_against_last_component_only() {
    assert_eq!(basename("/a.b/c", Some(".b/c")), b"c".to_vec());
}
