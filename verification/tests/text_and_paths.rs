use kata_checkpoint::text::{
    decimal_text, join, lines, signed_decimal_text, space, split, split_once, split_whitespace,
    strip_prefix, trim,
};
use kata_checkpoint::unix_path::{
    absolute, goes_up, path_components, path_join, path_parent, path_starts_with, same_path,
};
use std::path::{Component, Path};

const PATHS: [&str; 24] = [
    "", "/", "a", "/a", "a/b", "/a/b/", "//a", "///a//b//", "./a", "a/.", ".", "/.", "a/./b",
    "a/..", "../a", "..", ".a/b", "/a/./.", "./.", "a//b", "x/./", "/./a", "\u{e9}/..b", "...",
];

#[test]
fn paths_are_taken_apart() {
    for p in PATHS {
        let path = Path::new(p);
        assert_eq!(
            path_parent(p).as_deref(),
            path.parent().map(|q| q.to_str().unwrap()),
            "{p}"
        );
        let parts: Vec<String> = path
            .components()
            .map(|c| c.as_os_str().to_str().unwrap().to_string())
            .collect();
        assert_eq!(path_components(p), parts, "{p}");
        assert_eq!(absolute(p), path.is_absolute(), "{p}");
        assert_eq!(
            goes_up(p),
            path.components().any(|c| c == Component::ParentDir),
            "{p}"
        );
    }
}

#[test]
fn paths_are_compared_and_joined() {
    for p in PATHS {
        for q in PATHS {
            let (a, b) = (Path::new(p), Path::new(q));
            assert_eq!(path_join(p, q), a.join(b).to_str().unwrap(), "{p} {q}");
            assert_eq!(path_starts_with(p, q), a.starts_with(b), "{p} {q}");
            assert_eq!(same_path(p, q), a == b, "{p} {q}");
        }
    }
}

#[test]
fn white_space_is_that_of_unicode() {
    for code in 0..=0x10ffff {
        if let Some(c) = char::from_u32(code) {
            assert_eq!(space(c), c.is_whitespace(), "{code:x}");
        }
    }
}

const TEXTS: [&str; 14] = [
    "", " ", "a", "a b", "  a\tb  c ", "a,b,,c", ",", "x - y - z", " - ", "a\nb", "a\r\nb\r\n",
    "\n\n", "a\r", "\u{a0}\u{e9} \u{2003}z\u{3000}",
];

#[test]
fn texts_are_split() {
    for s in TEXTS {
        assert_eq!(split(s, ','), s.split(',').collect::<Vec<_>>(), "{s:?}");
        assert_eq!(split_whitespace(s), s.split_whitespace().collect::<Vec<_>>(), "{s:?}");
        assert_eq!(lines(s), s.lines().collect::<Vec<_>>(), "{s:?}");
        assert_eq!(trim(s), s.trim(), "{s:?}");
        for pattern in [" - ", "a", "", "b\n"] {
            assert_eq!(
                split_once(s, pattern),
                s.split_once(pattern).map(|(a, b)| (a.to_string(), b.to_string())),
                "{s:?} {pattern:?}"
            );
            assert_eq!(strip_prefix(s, pattern).as_deref(), s.strip_prefix(pattern), "{s:?}");
        }
        assert_eq!(join(&split(s, ','), ","), s);
    }
}

#[test]
fn numbers_are_written() {
    for n in [0, 7, 10, 99, 100, 1 << 40, u64::MAX] {
        assert_eq!(decimal_text(n), format!("{n}"));
    }
    for n in [0, -1, 42, i32::MIN, i32::MAX] {
        assert_eq!(signed_decimal_text(n), format!("{n}"));
    }
}
