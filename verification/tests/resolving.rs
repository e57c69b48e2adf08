use imgc::error::ErrorKind;
use imgc::format::ImageFormat;
use imgc::paths::CandidatePath;
use imgc::resolver::{check_pattern, pattern_result, sort_by_file_name};

fn candidates(paths: &[&str]) -> Vec<CandidatePath> {
    paths
        .iter()
        .map(|p| CandidatePath::new(p.to_string(), ImageFormat::Png).unwrap())
        .collect()
}

fn paths_of(sorted: &Vec<CandidatePath>) -> Vec<String> {
    sorted.iter().map(|c| c.path().to_string()).collect()
}

#[test]
fn sorts_by_file_name_not_by_full_path() {
    let sorted = sort_by_file_name(candidates(&["a/z.png", "b/m.png", "c/a.png"]));
    assert_eq!(paths_of(&sorted), vec!["c/a.png", "b/m.png", "a/z.png"]);
}

#[test]
fn equal_file_names_keep_their_order() {
    let sorted = sort_by_file_name(candidates(&[
        "z/same.png",
        "a/same.png",
        "m/other.png",
        "b/same.png",
        "k/aaa.png",
    ]));
    assert_eq!(
        paths_of(&sorted),
        vec!["k/aaa.png", "m/other.png", "z/same.png", "a/same.png", "b/same.png"]
    );
}

#[test]
fn sorting_agrees_with_the_order_of_file_names_in_std() {
    let input = [
        "d/b.png", "a.png", "x/B.png", "x/a-1.png", "x/a.jpg", "q/a.k.png", "é.png", "x/ab",
        "x/a", "y/a", "10.png", "9.png", "x/.hidden", "dir.d/zz", "x/a.png",
    ];
    let sorted = sort_by_file_name(candidates(&input));
    let mut expected: Vec<std::path::PathBuf> =
        input.iter().map(std::path::PathBuf::from).collect();
    expected.sort_by(|a, b| a.file_name().cmp(&b.file_name()));
    let expected: Vec<String> =
        expected.iter().map(|p| p.to_str().unwrap().to_string()).collect();
    assert_eq!(paths_of(&sorted), expected);
}

#[test]
fn sorting_nothing_gives_nothing() {
    assert!(sort_by_file_name(Vec::new()).is_empty());
    let one = sort_by_file_name(candidates(&["only.png"]));
    assert_eq!(paths_of(&one), vec!["only.png"]);
}

#[test]
fn a_prefix_sorts_before_the_longer_name() {
    let sorted = sort_by_file_name(candidates(&["ab", "a", "abc", "aa"]));
    assert_eq!(paths_of(&sorted), vec!["a", "aa", "ab", "abc"]);
}

#[test]
fn well_formed_patterns_pass() {
    assert!(check_pattern("images/**/*.png").is_ok());
    assert!(check_pattern("*.jp[eg]").is_ok());
    assert!(check_pattern("").is_ok());
    assert!(check_pattern("plain/file.png").is_ok());
    assert!(check_pattern("a/[!x]?.webp").is_ok());
}

#[test]
fn malformed_patterns_are_invalid_pattern_errors() {
    let e = check_pattern("a/***/b").unwrap_err();
    assert_eq!(e.kind(), ErrorKind::InvalidPattern);
    assert_eq!(
        e.to_string(),
        "Pattern syntax error near position 4: wildcards are either regular `*` or recursive `**`"
    );
    let e = check_pattern("a**/b").unwrap_err();
    assert_eq!(e.kind(), ErrorKind::InvalidPattern);
    assert_eq!(
        e.cause(),
        "Pattern syntax error near position 0: recursive wildcards must form a single path component"
    );
    let e = check_pattern("pics/[").unwrap_err();
    assert_eq!(e.kind(), ErrorKind::InvalidPattern);
    assert_eq!(e.to_string(), "Pattern syntax error near position 5: invalid range pattern");
}

#[test]
fn check_pattern_agrees_with_the_glob_walk() {
    for pattern in [
        "*.png", "a/***", "[", "[]", "[a]", "**/*", "x**", "**x", "a/[!", "?", "[a/b]", "/[a/b]",
        "a/[b]/c", "a/[!b/c]", "/", "//", "//a", "a//b/", "/a/**/b", "x/[", "[/", "a/[]/]",
        "", "./a", "a/", "[!/]",
    ] {
        assert_eq!(check_pattern(pattern).is_ok(), glob::glob(pattern).is_ok(), "{:?}", pattern);
        if let Err(expected) = glob::glob(pattern) {
            assert_eq!(check_pattern(pattern).unwrap_err().to_string(), expected.to_string());
        }
    }
}

#[test]
fn a_range_across_a_separator_is_malformed() {
    assert!(glob::Pattern::new("[a/b]").is_ok());
    let e = check_pattern("[a/b]").unwrap_err();
    assert_eq!(e.kind(), ErrorKind::InvalidPattern);
    assert_eq!(e.to_string(), "Pattern syntax error near position 0: invalid range pattern");
    let e = check_pattern("pics/x[a/b]").unwrap_err();
    assert_eq!(e.to_string(), "Pattern syntax error near position 1: invalid range pattern");
}

#[test]
fn pattern_result_wraps_the_fault() {
    assert!(pattern_result(None).is_ok());
    let e = pattern_result(Some("bad".to_string())).unwrap_err();
    assert_eq!(e.kind(), ErrorKind::InvalidPattern);
    assert_eq!(e.cause(), "bad");
}
