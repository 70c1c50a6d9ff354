use notion_opendal::{is_root, is_root_dir, is_valid_id, parse_page_path, ErrorKind};

#[test]
fn nested_path_is_not_found() {
    let e = parse_page_path("abc/def").unwrap_err();
    assert_eq!(e.kind, ErrorKind::NotFound);
}

#[test]
fn parent_path_is_not_found() {
    let e = parse_page_path("../x").unwrap_err();
    assert_eq!(e.kind, ErrorKind::NotFound);
}

#[test]
fn markdown_suffix_is_stripped() {
    assert_eq!(parse_page_path("page123.md").unwrap(), "page123");
}

#[test]
fn empty_path_is_not_found() {
    assert_eq!(parse_page_path("").unwrap_err().kind, ErrorKind::NotFound);
}

#[test]
fn suffix_alone_is_not_found() {
    assert_eq!(parse_page_path(".md").unwrap_err().kind, ErrorKind::NotFound);
}

#[test]
fn only_one_suffix_is_stripped() {
    assert_eq!(parse_page_path("a.md.md").unwrap(), "a.md");
    assert_eq!(parse_page_path(".md.md").unwrap(), ".md");
}

#[test]
fn path_without_suffix_is_kept() {
    assert_eq!(parse_page_path("abc").unwrap(), "abc");
    assert_eq!(parse_page_path("abc.txt").unwrap(), "abc.txt");
}

#[test]
fn single_dot_is_allowed() {
    assert_eq!(parse_page_path("a.b.md").unwrap(), "a.b");
}

#[test]
fn root_forms() {
    assert!(is_root(""));
    assert!(is_root("/"));
    assert!(!is_root("./"));
    assert!(!is_root("a"));
    assert!(is_root_dir(""));
    assert!(is_root_dir("/"));
    assert!(is_root_dir("./"));
    assert!(is_root_dir("/."));
    assert!(!is_root_dir("x/"));
    assert!(!is_root_dir("//"));
}

#[test]
fn ids_that_climb_or_nest_are_invalid() {
    assert!(is_valid_id("abc123"));
    assert!(is_valid_id("a.b"));
    assert!(!is_valid_id("a/b"));
    assert!(!is_valid_id(".."));
    assert!(!is_valid_id("x..y"));
}
