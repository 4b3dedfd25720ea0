use std::path::Path;

use walnut::path::{base_name_of, join_path};
use walnut::text::{chars_of, is_whitespace_char};

#[test]
fn join_puts_a_separator_between() {
    assert_eq!(join_path("/home/u", "r1"), "/home/u/r1");
    assert_eq!(join_path("/home/u/", "r1"), "/home/u/r1");
    assert_eq!(join_path("", "r1"), "r1");
    assert_eq!(join_path("/home/u", ""), "/home/u/");
    assert_eq!(join_path("rel", "Notes/Personal"), "rel/Notes/Personal");
}

#[test]
fn join_keeps_an_absolute_path() {
    assert_eq!(join_path("/home/u", "/srv/x"), "/srv/x");
    assert_eq!(join_path("", "/"), "/");
}

#[test]
fn join_agrees_with_std_paths() {
    let parts = ["", "/", "a", "a/", "/a", "/a/b", "a/b/", ".", "..", "ä/ö", "//", "a//b"];
    for base in parts {
        for rel in parts {
            let expected = Path::new(base).join(rel);
            assert_eq!(
                join_path(base, rel),
                expected.to_str().unwrap(),
                "base {:?} rel {:?}",
                base,
                rel
            );
        }
    }
}

#[test]
fn base_name_is_the_last_component() {
    assert_eq!(base_name_of("/home/u/r2"), Some("r2".to_string()));
    assert_eq!(base_name_of("/home/u/r2/"), Some("r2".to_string()));
    assert_eq!(base_name_of("r2"), Some("r2".to_string()));
    assert_eq!(base_name_of("/home/u/r2/."), Some("r2".to_string()));
    assert_eq!(base_name_of("/home/u/.hidden"), Some(".hidden".to_string()));
}

#[test]
fn some_paths_have_no_base_name() {
    assert_eq!(base_name_of(""), None);
    assert_eq!(base_name_of("/"), None);
    assert_eq!(base_name_of("."), None);
    assert_eq!(base_name_of(".."), None);
    assert_eq!(base_name_of("/home/u/.."), None);
    assert_eq!(base_name_of("./"), None);
}

#[test]
fn base_name_agrees_with_std_paths() {
    let samples = [
        "", "/", "//", ".", "..", "./", "../", "./.", "/.", "/..", "a", "a/", "a//", "a/.", "a/./",
        "a/..", "a/../", "a/b", "a/b/", "/a/b", "/a/b/.", "/a/b/./.", "/a/b//./", "/a/./b", "...",
        "a/...", ".a", "a.", "a/.b", "a/b.", "..a", "a/..b", "./a", "../a", "./a/.", "ä/ö", "ä/ö/",
        "/home/u/r1", "/home/u/r 2/", " ", "a/ ", "a/. ", "a/ .",
    ];
    for path in samples {
        let expected = Path::new(path).file_name().map(|n| n.to_str().unwrap().to_string());
        assert_eq!(base_name_of(path), expected, "path {:?}", path);
    }
}

#[test]
fn white_space_is_what_std_calls_white_space() {
    let mut code: u32 = 0;
    while code <= 0x10FFFF {
        if let Some(c) = char::from_u32(code) {
            assert_eq!(is_whitespace_char(c), c.is_whitespace(), "code point {:x}", code);
        }
        code += 1;
    }
}

#[test]
fn characters_are_taken_one_by_one() {
    assert_eq!(chars_of("/home/ü/r1"), vec!['/', 'h', 'o', 'm', 'e', '/', 'ü', '/', 'r', '1']);
    assert_eq!(chars_of(""), Vec::<char>::new());
}
