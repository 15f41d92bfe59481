use engine_targets::test_file::{is_minimal_target, TestFile, TestFiles};
use engine_targets::text::{parse_u32, str_contains, str_eq};
use engine_targets::version::Version;

fn v(major: u32, minor: u32, patch: u32) -> Version {
    Version { major, minor, patch }
}

#[test]
fn versions_parse_with_missing_segments_as_zero() {
    assert_eq!(Version::from_str("1"), Some(v(1, 0, 0)));
    assert_eq!(Version::from_str("1.2"), Some(v(1, 2, 0)));
    assert_eq!(Version::from_str("1.2.3"), Some(v(1, 2, 3)));
    assert_eq!(Version::from_str("12.34.56"), Some(v(12, 34, 56)));
}

#[test]
fn version_ranges_read_as_their_lower_end() {
    assert_eq!(Version::from_str("1-2"), Some(v(1, 0, 0)));
    assert_eq!(Version::from_str("1.2-1.3"), Some(v(1, 2, 0)));
    assert_eq!(Version::from_str("1.2.3-1.2.4"), Some(v(1, 2, 3)));
    assert_eq!(Version::from_str("12.34.56-78.9"), Some(v(12, 34, 56)));
}

#[test]
fn malformed_versions_do_not_parse() {
    assert_eq!(Version::from_str("tp"), None);
    assert_eq!(Version::from_str(""), None);
    assert_eq!(Version::from_str("1..2"), None);
    assert_eq!(Version::from_str("1.x"), None);
    assert_eq!(Version::from_str("-1"), None);
    assert_eq!(Version::from_str("4294967296"), None);
}

#[test]
fn segments_past_the_third_are_ignored() {
    assert_eq!(Version::from_str("1.2.3.4"), Some(v(1, 2, 3)));
    assert_eq!(Version::from_str("1.2.3.nonsense"), Some(v(1, 2, 3)));
}

#[test]
fn version_order_is_component_wise() {
    assert!(v(1, 9, 9).lt(&v(2, 0, 0)));
    assert!(v(2, 0, 0).lt(&v(2, 1, 0)));
    assert!(v(2, 1, 0).lt(&v(2, 1, 5)));
    assert!(!v(2, 1, 5).lt(&v(2, 1, 5)));
    assert!(!v(3, 0, 0).lt(&v(2, 9, 9)));
}

#[test]
fn numbers_parse_like_std_u32() {
    assert_eq!(parse_u32("0"), Some(0));
    assert_eq!(parse_u32("90"), Some(90));
    assert_eq!(parse_u32("+5"), Some(5));
    assert_eq!(parse_u32("4294967295"), Some(u32::MAX));
    assert_eq!(parse_u32("4294967296"), None);
    assert_eq!(parse_u32(""), None);
    assert_eq!(parse_u32("+"), None);
    assert_eq!(parse_u32("9a"), None);
}

#[test]
fn string_helpers_compare_and_search() {
    assert!(str_eq("chrome", "chrome"));
    assert!(!str_eq("chrome", "chrom"));
    assert!(!str_eq("chrome", "Chrome"));
    assert!(str_contains("cdn/react-dom.production.min.js", "react"));
    assert!(str_contains("anything", ""));
    assert!(!str_contains("vue.global.js", "react"));
}

fn file(url: &str) -> TestFile {
    TestFile {
        url: url.to_string(),
        file_name: url.rsplit('/').next().unwrap().to_string(),
        source_text: String::new(),
    }
}

#[test]
fn minimal_keeps_only_keyword_files_in_order() {
    let files = vec![
        file("https://cdn.example/react.production.min.js"),
        file("https://cdn.example/vue.global.js"),
        file("https://cdn.example/antd.js"),
        file("https://cdn.example/lodash.min.js"),
        file("https://cdn.example/typescript.js"),
    ];
    let minimal = TestFiles::minimal(files);
    let kept: Vec<&str> = minimal.files().iter().map(|f| f.file_name.as_str()).collect();
    assert_eq!(kept, vec!["react.production.min.js", "antd.js", "typescript.js"]);
}

#[test]
fn new_keeps_every_file() {
    let files = vec![file("https://cdn.example/a.js"), file("https://cdn.example/b.js")];
    let all = TestFiles::new(files);
    assert_eq!(all.files().len(), 2);
    assert_eq!(all.files()[0].file_name, "a.js");
}

#[test]
fn minimal_selection_is_a_url_keyword_test() {
    assert!(is_minimal_target(&file("https://cdn.example/react.js")));
    assert!(is_minimal_target(&file("https://cdn.example/antd-mobile.js")));
    assert!(!is_minimal_target(&file("https://cdn.example/jquery.js")));
}
