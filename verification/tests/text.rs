use quarkdrive_webdav::number::{decimal, lower_hex, parse_u64};
use quarkdrive_webdav::path::{components, file_name, join, parent, same_path, within};
use quarkdrive_webdav::text::{
    eq_ignore_ascii_case, split, split_once, starts_with, strip_prefix, trim,
};
use std::path::Path;

const PATHS: [&str; 32] = [
    "", "/", "//", "a", "a/", "/a", "/a/", "/a/b", "/a//b", "/a/./b", "/a/b/.", "/a/b/..", "..",
    ".", "./", "./a", "a/.", "a/./", "/.", "/..", "/../a", "a/..", "//a", "/a/b//", ".a", "a.b",
    "/a/./", "/./.", "./.", "我/的/备份", "/我的备份/NAS", "0",
];

fn text(p: Option<&Path>) -> Option<String> {
    p.map(|p| p.to_str().unwrap().to_string())
}

#[test]
fn parents_are_those_of_std() {
    for p in PATHS {
        assert_eq!(parent(p), text(Path::new(p).parent()), "{p:?}");
    }
}

#[test]
fn file_names_are_those_of_std() {
    for p in PATHS {
        let expected = Path::new(p).file_name().map(|n| n.to_str().unwrap().to_string());
        assert_eq!(file_name(p), expected, "{p:?}");
    }
}

#[test]
fn components_are_those_of_std() {
    for p in PATHS {
        let expected: Vec<String> = Path::new(p)
            .components()
            .map(|c| c.as_os_str().to_str().unwrap().to_string())
            .collect();
        assert_eq!(components(p), expected, "{p:?}");
    }
}

#[test]
fn comparisons_and_joins_are_those_of_std() {
    for p in PATHS {
        for q in PATHS {
            assert_eq!(same_path(p, q), Path::new(p) == Path::new(q), "{p:?} {q:?}");
            assert_eq!(within(p, q), Path::new(p).starts_with(q), "{p:?} {q:?}");
            assert_eq!(join(p, q), Path::new(p).join(q).to_str().unwrap(), "{p:?} {q:?}");
        }
    }
}

#[test]
fn splitting_and_trimming_are_those_of_std() {
    for s in ["", ";", "a", "a;b", ";a;;b;", "a=b", "=", "a==b", " a = b ", "\u{3000}x\t\n"] {
        let pieces: Vec<String> = s.split(';').map(|p| p.to_string()).collect();
        assert_eq!(split(s, ';'), pieces, "{s:?}");
        let once = s.split_once('=').map(|(a, b)| (a.to_string(), b.to_string()));
        assert_eq!(split_once(s, '='), once, "{s:?}");
        assert_eq!(trim(s), s.trim(), "{s:?}");
    }
}

#[test]
fn prefixes_are_those_of_std() {
    for s in ["", "http://x", "https://x", "HTTP://x", "http:", "我的"] {
        for p in ["", "http://", "https://", "我"] {
            assert_eq!(starts_with(s, p), s.starts_with(p));
            assert_eq!(strip_prefix(s, p), s.strip_prefix(p).map(|r| r.to_string()));
        }
    }
}

#[test]
fn case_is_ignored_for_ascii_letters_only() {
    assert!(eq_ignore_ascii_case("SHA1", "sha1"));
    assert!(eq_ignore_ascii_case("AZaz09@[`{", "azAZ09@[`{"));
    assert!(!eq_ignore_ascii_case("Ä", "ä"));
    assert!(!eq_ignore_ascii_case("@", "`"));
    assert!(!eq_ignore_ascii_case("a", "aa"));
}

#[test]
fn numbers_are_written_and_read() {
    for n in [0u64, 7, 10, 99, 100, 1_700_000_000_123, u64::MAX] {
        assert_eq!(decimal(n as u128), n.to_string());
        assert_eq!(parse_u64(&n.to_string()), Some(n));
    }
    assert_eq!(decimal(u128::MAX), u128::MAX.to_string());
    for s in ["", "+", "-1", "+5", "007", "1a", " 1", "18446744073709551616", "99999999999999999999"] {
        assert_eq!(parse_u64(s), s.parse::<u64>().ok(), "{s:?}");
    }
}

#[test]
fn bytes_are_written_in_hexadecimal() {
    assert_eq!(lower_hex(&[]), "");
    assert_eq!(lower_hex(&[0x00, 0x0f, 0xa5, 0xff]), "000fa5ff");
}

#[test]
fn white_space_is_that_of_unicode() {
    for c in '\0'..=char::MAX {
        let white = matches!(
            c as u32,
            0x9..=0xd
                | 0x20
                | 0x85
                | 0xa0
                | 0x1680
                | 0x2000..=0x200a
                | 0x2028
                | 0x2029
                | 0x202f
                | 0x205f
                | 0x3000
        );
        assert_eq!(trim(&c.to_string()).is_empty(), white, "{c:?}");
    }
}
