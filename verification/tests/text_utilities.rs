use js_x_ray::ast_analyser::{prepare_source, remove_html_comment};
use js_x_ray::base64::base64_decode_to_string;
use js_x_ray::estree::functions::hex_to_string;
use js_x_ray::hex::{decode_hex_lossy, is_hex_str};
use js_x_ray::patterns::{pattern_matches, Pattern};
use js_x_ray::posix_path::posix_join;
use js_x_ray::text::is_js_whitespace;

#[test]
fn posix_join_normalizes() {
    assert_eq!(posix_join(&["a", "b", "../c"]), "a/c");
    assert_eq!(posix_join(&["/a", "../../b"]), "/b");
    assert_eq!(posix_join(&["..", "x"]), "../x");
    assert_eq!(posix_join(&["a/./b/", ""]), "a/b");
    assert_eq!(posix_join(&[]), ".");
    assert_eq!(posix_join(&["a", ".."]), ".");
}

#[test]
fn base64_decodes_text() {
    assert_eq!(base64_decode_to_string("aGVsbG8="), "hello");
    assert_eq!(base64_decode_to_string("aGk"), "hi");
    assert_eq!(base64_decode_to_string(""), "");
}

#[test]
fn hex_strings() {
    assert!(is_hex_str("6869"));
    assert!(is_hex_str("4A4b"));
    assert!(!is_hex_str("686"));
    assert!(!is_hex_str("zz"));
    assert!(!is_hex_str(""));
    assert_eq!(decode_hex_lossy("6869"), "hi");
    assert_eq!(decode_hex_lossy("ff"), "\u{FFFD}");
    assert_eq!(hex_to_string("6869"), "hi");
    assert_eq!(hex_to_string("xyz"), "xyz");
}

#[test]
fn patterns_compile_match_and_replace() {
    let p = Pattern::new("a+b").ok().unwrap();
    assert!(p.is_match("xaab"));
    assert!(!p.is_match("b"));
    assert_eq!(p.replace_all("aab-ab-b", "X"), "X-X-b");
    assert!(Pattern::new("(").is_err());
    assert!(!pattern_matches("(", "("));
    assert!(pattern_matches("a\\.b", "xa.by"));
    assert!(!pattern_matches("a\\.b", "axb"));
}

#[test]
fn prepare_source_strips_shebang() {
    assert_eq!(prepare_source("#!/usr/bin/env node\nconst a = 1;", false), "const a = 1;");
    assert_eq!(prepare_source("#!only", false), "#!only");
    assert_eq!(prepare_source("const a = 1;", false), "const a = 1;");
}

#[test]
fn prepare_source_removes_html_comments() {
    assert_eq!(prepare_source("a<!-- x -->b<!--\ny-->c", true), "abc");
    assert_eq!(prepare_source("a<!-- x -->b", false), "a<!-- x -->b");
    assert_eq!(remove_html_comment("<!--a-->x<!--b"), "x<!--b");
}

#[test]
fn js_whitespace() {
    assert!(is_js_whitespace(' '));
    assert!(is_js_whitespace('\u{FEFF}'));
    assert!(is_js_whitespace('\u{2028}'));
    assert!(!is_js_whitespace('\u{85}'));
    assert!(!is_js_whitespace('a'));
}

#[test]
fn posix_join_of_a_joined_path_is_itself() {
    for parts in [vec!["a", "b", "../c"], vec!["/x", "..", "..", "y/"], vec!["..", "a", "..", ".."], vec!["", "."], vec!["/"]] {
        let r = posix_join(&parts);
        assert!(!r.is_empty());
        assert_eq!(posix_join(&[r.as_str()]), r);
    }
    assert_eq!(posix_join(&["..", "a", "..", ".."]), "../..");
    assert_eq!(posix_join(&["/x", "..", "..", "y/"]), "/y");
}
