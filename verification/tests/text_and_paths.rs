use patch_batch::path::NativePath;
use patch_batch::text::{bytes_equal, decimal, join, text_bytes};

fn native(components: &[&str]) -> NativePath {
    NativePath {
        root: "/".to_string(),
        separator: "/".to_string(),
        components: components.iter().map(|name| name.to_string()).collect(),
    }
}

#[test]
fn numbers_are_written_in_decimal() {
    assert_eq!(decimal(0), "0");
    assert_eq!(decimal(9), "9");
    assert_eq!(decimal(10), "10");
    assert_eq!(decimal(1048576), "1048576");
    assert_eq!(decimal(usize::MAX), usize::MAX.to_string());
}

#[test]
fn texts_are_joined_and_encoded() {
    assert_eq!(join("a", "b", "c"), "abc");
    assert_eq!(text_bytes(&"h\u{e9}".to_string()), vec![b'h', 0xc3, 0xa9]);
    assert!(bytes_equal(&vec![1, 2], &vec![1, 2]));
    assert!(!bytes_equal(&vec![1, 2], &vec![1, 3]));
    assert!(!bytes_equal(&vec![1, 2], &vec![1]));
}

#[test]
fn paths_are_shown_up_to_a_level() {
    let path = native(&["a", "b", "c"]);
    assert_eq!(path.parent_count(), 3);
    assert_eq!(path.text(0), "/a/b/c");
    assert_eq!(path.text(1), "/a/b");
    assert_eq!(path.text(3), "/");
    let mut windows = native(&["a", "b"]);
    windows.root = "C:\\".to_string();
    windows.separator = "\\".to_string();
    assert_eq!(windows.text(0), "C:\\a\\b");
}

#[test]
fn places_are_compared_by_root_and_names() {
    let path = native(&["a", "b"]);
    assert!(path.same_place(&native(&["a", "b"])));
    assert!(!path.same_place(&native(&["a"])));
    assert!(!path.same_place(&native(&["a", "c"])));
    let mut other = native(&["a", "b"]);
    other.separator = "\\".to_string();
    assert!(path.same_place(&other));
    other.root = "//".to_string();
    assert!(!path.same_place(&other));
}
