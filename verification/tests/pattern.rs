use tuggy::pattern::{default_platforms_skip, generate_skip_platform_pattern, Pattern};

#[test]
fn test_default_platform_exclusion_pattern() {
    let pattern = generate_skip_platform_pattern(&default_platforms_skip()).unwrap();
    assert!(pattern.is_match("linux/mips64"));
    assert!(!pattern.is_match("linux/amd64"));
}

#[test]
fn skip_pattern_source_is_anchored_alternation() {
    let pattern = generate_skip_platform_pattern(&["linux/386", "linux/arm/v.*"]).unwrap();
    assert_eq!(pattern.as_str(), "^(linux/386|linux/arm/v.*)$");
    assert!(pattern.is_match("linux/arm/v7"));
    assert!(pattern.is_match("linux/386"));
    assert!(!pattern.is_match("linux/3866"));
    assert!(!pattern.is_match("xlinux/386"));
}

#[test]
fn default_skip_list_matches_whole_identifiers_only() {
    let pattern = generate_skip_platform_pattern(&default_platforms_skip()).unwrap();
    for p in default_platforms_skip() {
        assert!(pattern.is_match(p));
    }
    assert!(!pattern.is_match("linux/mips64x"));
    assert!(!pattern.is_match("linux/arm64"));
}

#[test]
fn empty_skip_list_matches_only_the_empty_text() {
    let pattern = generate_skip_platform_pattern(&[]).unwrap();
    assert_eq!(pattern.as_str(), "^()$");
    assert!(!pattern.is_match("linux/amd64"));
}

#[test]
fn invalid_skip_regex_is_an_error() {
    assert!(generate_skip_platform_pattern(&["linux/(amd64"]).is_err());
}

#[test]
fn pattern_capture_takes_named_group() {
    let p = Pattern::new(r"(?P<x>\d+)-".to_string()).unwrap();
    assert_eq!(p.capture("ab12-34", "x"), Some("12".to_string()));
    assert_eq!(p.capture("ab", "x"), None);
    assert_eq!(p.capture("12-", "y"), None);
}
