//! Texts and paths, held against std.

use std::path::Path;

use dvr::paths::{
    components_of, depth_of, file_name_of, is_absolute, is_same_path, join_path, lies_within,
    parent_of,
};
use dvr::sort::sort;
use dvr::text::{
    decimal_of, has_char, head_of, is_white_space, join, lines_of, split_at_char, starts_with,
    text_before, trim, trim_end_of,
};

const PATHS: [&str; 24] = [
    "", "/", ".", "..", "a", "a/", "a/b", "a//b", "a/./b", "./a", "/a", "/a/", "/a/b", "/a/b/",
    "/a//b", "/a/./b", "/./a", "//a", "/..", "/a/..", "a/..", "./", "/a/b/.", "a/b/./",
];

fn std_components(path: &str) -> Vec<String> {
    Path::new(path).components().map(|c| c.as_os_str().to_str().unwrap().to_string()).collect()
}

#[test]
fn components_are_those_of_std() {
    for path in PATHS {
        assert_eq!(components_of(path), std_components(path), "{path:?}");
        assert_eq!(depth_of(path), std_components(path).len());
        assert_eq!(is_absolute(path), Path::new(path).is_absolute());
    }
}

#[test]
fn file_names_and_parents_are_those_of_std() {
    for path in PATHS {
        let name = Path::new(path).file_name().map(|n| n.to_str().unwrap().to_string());
        assert_eq!(file_name_of(path), name, "{path:?}");
        let parent = Path::new(path).parent().map(|p| p.to_str().unwrap().to_string());
        assert_eq!(parent_of(path), parent, "{path:?}");
    }
}

#[test]
fn containment_and_joins_are_those_of_std() {
    for a in PATHS {
        for b in PATHS {
            assert_eq!(lies_within(a, b), Path::new(a).starts_with(b), "{a:?} {b:?}");
            assert_eq!(is_same_path(a, b), Path::new(a) == Path::new(b), "{a:?} {b:?}");
            assert_eq!(join_path(a, b), Path::new(a).join(b).to_str().unwrap(), "{a:?} {b:?}");
        }
    }
}

#[test]
fn white_space_is_that_of_std() {
    for c in char::MIN..=char::MAX {
        assert_eq!(is_white_space(c), c.is_whitespace(), "{c:?}");
    }
}

#[test]
fn texts_are_cut_as_std_cuts_them() {
    for s in ["", " a ", "\u{3000}a\u{a0}b\n", "\n\n", "a\r\nb", "a\rb\r\n", "a\n\nb\n", "\t\t"] {
        assert_eq!(trim(s), s.trim());
        assert_eq!(trim_end_of(s), s.trim_end());
        assert_eq!(lines_of(s), s.lines().collect::<Vec<_>>());
        assert_eq!(split_at_char(s, '\n'), s.split('\n').collect::<Vec<_>>());
        assert_eq!(head_of(s, 2), s.chars().take(2).collect::<String>());
        assert_eq!(starts_with(s, "a"), s.starts_with('a'));
        assert_eq!(has_char(s, 'b'), s.contains('b'));
    }
}

#[test]
fn texts_are_ordered_as_std_orders_them() {
    let list = ["", "a", "aa", "ab", "b", "B", "ä", "日本", "\u{10ffff}", "a\u{301}"];
    for a in list {
        for b in list {
            assert_eq!(text_before(a, b), a <= b, "{a:?} {b:?}");
        }
    }
    let mut sorted: Vec<String> = list.iter().map(|s| s.to_string()).collect();
    assert_eq!(sort(sorted.clone()), {
        sorted.sort();
        sorted
    });
}

#[test]
fn numbers_and_lists_are_written_as_std_writes_them() {
    for n in [0u128, 7, 10, 99, 100, 12345, u64::MAX as u128] {
        assert_eq!(decimal_of(n), n.to_string());
    }
    let list = vec!["a".to_string(), "".to_string(), "b".to_string()];
    assert_eq!(join(&list, ", "), "a, , b");
    assert_eq!(join(&Vec::new(), ", "), "");
}
