use tuggy::error::TuggyError;
use tuggy::inspect::{platforms_from_list, try_platforms_from_inspect_output};
use tuggy::platform::Platform;

fn texts(v: &[Platform]) -> Vec<String> {
    v.iter().map(|p| p.to_string()).collect()
}

fn message(e: TuggyError) -> String {
    match e {
        TuggyError::IOError(m) => m,
        other => panic!("unexpected error: {:?}", other),
    }
}

const INSPECT: &str = "Name:          tuggy\n\
Driver:        docker-container\n\
\n\
Nodes:\n\
Name:                  tuggy0\n\
Status:                running\n\
Platforms:             linux/amd64, linux/arm64, linux/386, linux/amd64/v2\n\
Labels:\n";

#[test]
fn inspect_output_lists_sorted_platforms() {
    let ps = try_platforms_from_inspect_output(INSPECT).unwrap().unwrap();
    assert_eq!(
        texts(&ps),
        vec!["linux/386", "linux/amd64", "linux/amd64/v2", "linux/arm64"]
    );
}

#[test]
fn inspect_output_collects_every_platform_line() {
    let out = "Platforms: linux/s390x\r\nother\nPlatforms:\t linux/arm/v7, darwin/arm64\n";
    let ps = try_platforms_from_inspect_output(out).unwrap().unwrap();
    assert_eq!(texts(&ps), vec!["darwin/arm64", "linux/arm/v7", "linux/s390x"]);
}

#[test]
fn inspect_output_without_platforms_is_an_error() {
    let r = try_platforms_from_inspect_output("Name: tuggy\nStatus: running\n").unwrap();
    assert_eq!(message(r.unwrap_err()), "no platforms detected");
}

#[test]
fn inspect_output_with_bad_platform_is_an_error() {
    let r = try_platforms_from_inspect_output("Platforms: linux/amd64, bogus\n").unwrap();
    assert_eq!(message(r.unwrap_err()), "invalid platform: bogus");
}

#[test]
fn platforms_from_list_keeps_order() {
    let ps = platforms_from_list("linux/arm64, linux/amd64").unwrap();
    assert_eq!(texts(&ps), vec!["linux/arm64", "linux/amd64"]);
}

#[test]
fn platforms_from_list_reports_first_bad_entry() {
    let e = platforms_from_list("linux/arm64, x, y").unwrap_err();
    assert_eq!(message(e), "invalid platform: x");
}
