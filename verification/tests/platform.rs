use tuggy::error::TuggyError;
use tuggy::platform::{sort_platforms, Platform};

fn platform(os: &str, arch: &str) -> Platform {
    Platform {
        os: os.to_string(),
        arch: arch.to_string(),
    }
}

#[test]
fn test_platform_from_string() {
    assert!(
        Platform::from_string("linux/amd64").unwrap()
            == Platform {
                os: "linux".to_string(),
                arch: "amd64".to_string()
            }
    );
    assert!(
        Platform::from_string("linux/amd64/v2").unwrap()
            == Platform {
                os: "linux".to_string(),
                arch: "amd64/v2".to_string()
            }
    );
    assert!(Platform::from_string("").is_err());
}

#[test]
fn from_string_rejects_missing_parts() {
    assert!(Platform::from_string("linux").is_err());
    assert!(Platform::from_string("/amd64").is_err());
    assert!(Platform::from_string("linux/").is_err());
    assert!(Platform::from_string("/").is_err());
}

#[test]
fn from_string_rejects_line_feed_in_arch() {
    assert!(Platform::from_string("linux/amd\n64").is_err());
    assert!(Platform::from_string("linux/amd64\n").is_err());
}

#[test]
fn from_string_keeps_line_feed_in_os() {
    assert_eq!(
        Platform::from_string("li\nnux/amd64").unwrap(),
        platform("li\nnux", "amd64")
    );
}

#[test]
fn from_string_error_message() {
    match Platform::from_string("bogus") {
        Err(TuggyError::IOError(m)) => assert_eq!(m, "invalid platform: bogus"),
        other => panic!("unexpected result: {:?}", other),
    }
}

#[test]
fn to_string_renders_os_slash_arch() {
    assert_eq!(platform("linux", "arm/v7").to_string(), "linux/arm/v7");
}

#[test]
fn parse_render_roundtrip() {
    for text in ["linux/amd64", "linux/arm/v6", "windows/amd64", "a/b/c/d"] {
        let p = Platform::from_string(text).unwrap();
        assert_eq!(p.to_string(), text);
        assert_eq!(Platform::from_string(&p.to_string()).unwrap(), p);
    }
}

#[test]
fn less_than_orders_by_os_then_arch() {
    assert!(platform("darwin", "arm64").less_than(&platform("linux", "386")));
    assert!(platform("linux", "386").less_than(&platform("linux", "amd64")));
    assert!(platform("linux", "amd64").less_than(&platform("linux", "amd64/v2")));
    assert!(!platform("linux", "amd64").less_than(&platform("linux", "amd64")));
    assert!(!platform("linux", "arm64").less_than(&platform("linux", "amd64")));
}

#[test]
fn sort_platforms_orders_ascending() {
    let v = vec![
        platform("linux", "s390x"),
        platform("linux", "amd64/v2"),
        platform("darwin", "arm64"),
        platform("linux", "amd64"),
        platform("linux", "386"),
        platform("linux", "amd64"),
    ];
    let sorted = sort_platforms(v.clone());
    let mut expected = v;
    expected.sort();
    assert_eq!(sorted, expected);
    assert_eq!(sorted[0], platform("darwin", "arm64"));
    assert_eq!(sorted[1], platform("linux", "386"));
}

#[test]
fn error_to_string_is_its_message() {
    assert_eq!(TuggyError::IOError("boom".to_string()).to_string(), "boom");
    assert_eq!(TuggyError::TOMLParseError("bad toml".to_string()).to_string(), "bad toml");
}

#[test]
fn try_from_string_compiles_the_pattern() {
    assert_eq!(
        Platform::try_from_string("linux/arm64").unwrap().unwrap(),
        platform("linux", "arm64")
    );
    assert!(Platform::try_from_string("linux").unwrap().is_err());
}
