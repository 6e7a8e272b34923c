//! Texts, bytes, paths and digests.

use cealn::base::bytes::{bytes_equal, compare_bytes, decode_text, fill, split_bytes};
use cealn::base::digest::Hasher;
use cealn::base::name_set::{find_name, insert_name, same_names, stable_order};
use cealn::base::paths::{components, join_path, push_path, segments, split_at_first, split_at_last, strip_prefix};
use cealn::base::text::{chars_of, compare, equal, string_of, TextOrder};

fn texts(names: &[&str]) -> Vec<String> {
    names.iter().map(|name| name.to_string()).collect()
}

#[test]
fn texts_are_ordered_by_code_points() {
    assert_eq!(compare("a", "b"), TextOrder::Less);
    assert_eq!(compare("b", "a"), TextOrder::Greater);
    assert_eq!(compare("a", "ab"), TextOrder::Less);
    assert_eq!(compare("", ""), TextOrder::Equal);
    assert_eq!(compare("Z", "a"), TextOrder::Less);
    assert_eq!(compare("é", "z"), TextOrder::Greater);
    assert!(equal("äb", "äb"));
    assert!(!equal("a", "b"));
    assert_eq!(string_of(&chars_of("añb"), 1, 3), "ñb");
}

#[test]
fn names_are_kept_sorted() {
    let mut names = Vec::new();
    for name in ["c", "a", "b", "a"] {
        insert_name(&mut names, name.to_string());
    }
    assert_eq!(names, texts(&["a", "b", "c"]));
    assert!(same_names(&names, &texts(&["a", "b", "c"])));
    assert!(!same_names(&names, &texts(&["a", "c", "b"])));
    assert_eq!(find_name(&texts(&["x", "y", "y"]), "y"), Some(1));
    assert_eq!(find_name(&names, "z"), None);
}

#[test]
fn equal_names_keep_their_order() {
    assert_eq!(stable_order(&texts(&["b", "a", "b", "a", ""])), vec![4, 1, 3, 0, 2]);
    assert_eq!(stable_order(&texts(&[])), Vec::<usize>::new());
}

#[test]
fn byte_strings_are_split_and_compared() {
    assert_eq!(split_bytes(b"a\0\0b", 0), vec![b"a".to_vec(), b"".to_vec(), b"b".to_vec()]);
    assert_eq!(split_bytes(b"", 0), vec![b"".to_vec()]);
    assert!(bytes_equal(b"ab", b"ab"));
    assert!(!bytes_equal(b"ab", b"a"));
    assert_eq!(compare_bytes(b"ab", b"b"), TextOrder::Less);
    assert_eq!(compare_bytes(b"ab", b"a"), TextOrder::Greater);
    assert_eq!(compare_bytes(b"\xff", b"\xff"), TextOrder::Equal);
}

#[test]
fn bytes_are_decoded() {
    assert_eq!(decode_text("añ".as_bytes()), Ok("añ".to_string()));
    assert!(decode_text(&[0xff]).is_err());
    assert!(decode_text(&[0xc3]).is_err());
}

#[test]
fn buffers_are_filled_in_order() {
    let mut buffers = vec![vec![9; 2], vec![9; 0], vec![9; 3]];
    assert_eq!(fill(&mut buffers, b"abcd", 1), 3);
    assert_eq!(buffers, vec![b"bc".to_vec(), vec![], vec![b'd', 9, 9]]);
    let mut buffers = vec![vec![9; 1]];
    assert_eq!(fill(&mut buffers, b"abcd", 0), 1);
    assert_eq!(fill(&mut buffers, b"abcd", 4), 0);
    assert_eq!(buffers, vec![b"a".to_vec()]);
}

#[test]
fn paths_are_joined_and_split() {
    assert_eq!(join_path("", "a"), "a");
    assert_eq!(join_path("/", "a"), "/a");
    assert_eq!(join_path("a", "b"), "a/b");
    assert_eq!(push_path("a", "/b"), "/b");
    assert_eq!(push_path("a", "b"), "a/b");
    assert_eq!(segments("/a//b/"), texts(&["a", "b"]));
    assert_eq!(split_at_first("a/b/c"), Some(("a".to_string(), "b/c".to_string())));
    assert_eq!(split_at_last("a/b/c"), Some(("a/b".to_string(), "c".to_string())));
    assert_eq!(split_at_first("a"), None);
    assert_eq!(split_at_last("a"), None);
}

#[test]
fn paths_below_directories() {
    assert_eq!(strip_prefix("a/b", "a"), Some("b".to_string()));
    assert_eq!(strip_prefix("a", "a"), Some("".to_string()));
    assert_eq!(strip_prefix("ab", "a"), None);
    assert_eq!(strip_prefix("/a", "/"), Some("a".to_string()));
    assert_eq!(strip_prefix("a", ""), Some("a".to_string()));
    assert_eq!(strip_prefix("a", "a/b"), None);
    assert_eq!(strip_prefix("/a", ""), Some("/a".to_string()));
    assert_eq!(strip_prefix("a", "/"), None);
    assert_eq!(strip_prefix("/a//b/./c/", "/a"), Some("b/c".to_string()));
    assert_eq!(strip_prefix("./a", "a"), None);
    assert_eq!(strip_prefix("./a", "."), Some("a".to_string()));
    assert_eq!(strip_prefix("a/..", "a"), Some("..".to_string()));
    assert_eq!(components("/a//./b/"), texts(&["/", "a", "b"]));
    assert_eq!(components("./a/."), texts(&[".", "a"]));
    assert!(components("").is_empty());
    for path in ["", "/", "//", ".", "./", "a", "/a/b", "a//b/", "./a/./b", "/./a", "..", "a/../b/."] {
        let mut expected: Vec<String> = Vec::new();
        for component in std::path::Path::new(path).components() {
            expected.push(component.as_os_str().to_str().unwrap().to_string());
        }
        assert_eq!(components(path), expected, "{}", path);
    }
    for dir in ["", "/", "a", "a/b", "/x/", "a//b//", "."] {
        assert_eq!(strip_prefix(&join_path(dir, "name"), dir), Some("name".to_string()));
    }
}

#[test]
fn digests_ignore_how_streams_are_cut() {
    let mut whole = Hasher::new();
    assert!(whole.update(b"abc"));
    let whole = whole.finish();
    assert_eq!(whole[..4], [0xba, 0x78, 0x16, 0xbf]);
    assert_eq!(whole.len(), 32);
    let mut cut = Hasher::new();
    assert!(cut.update(b"a"));
    assert!(cut.update(b""));
    assert!(cut.update(b"bc"));
    assert_eq!(cut.finish(), whole);
    assert_eq!(Hasher::new().finish()[..4], [0xe3, 0xb0, 0xc4, 0x42]);
}
