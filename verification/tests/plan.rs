use tuggy::command::{clean, DockerCommand, Stage};
use tuggy::config::Tuggy;
use tuggy::error::TuggyError;
use tuggy::platform::Platform;

fn platforms(texts: &[&str]) -> Vec<Platform> {
    texts.iter().map(|t| Platform::from_string(t).unwrap()).collect()
}

fn args(c: &DockerCommand) -> Vec<&str> {
    c.args.iter().map(|a| a.as_str()).collect()
}

fn plan(t: &Tuggy, tag: &str, base: &[&str]) -> Result<Vec<DockerCommand>, TuggyError> {
    let skip = t.skip_pattern().unwrap();
    t.build(tag, &platforms(base), &skip)
}

fn message(e: TuggyError) -> String {
    match e {
        TuggyError::IOError(m) => m,
        other => panic!("unexpected error: {:?}", other),
    }
}

const BASE: [&str; 8] = [
    "linux/386",
    "linux/amd64",
    "linux/amd64/v2",
    "linux/arm/v6",
    "linux/arm/v7",
    "linux/arm64",
    "linux/mips64",
    "linux/s390x",
];

#[test]
fn default_build_batches_four_and_skips_fringe() {
    let t = Tuggy::default();
    let cs = plan(&t, "me/app", &BASE).unwrap();
    assert_eq!(cs.len(), 2);
    assert_eq!(
        args(&cs[0]),
        vec![
            "buildx", "build", "--builder", "tuggy", "--platform",
            "linux/386,linux/amd64,linux/amd64/v2,linux/arm/v6", "-t", "me/app", "."
        ]
    );
    assert_eq!(
        args(&cs[1]),
        vec![
            "buildx", "build", "--builder", "tuggy", "--platform",
            "linux/arm/v7,linux/arm64", "-t", "me/app", "."
        ]
    );
    for c in &cs {
        assert_eq!(c.stage, Stage::Build);
        assert!(c.no_default_load);
        assert!(!c.log);
    }
}

#[test]
fn push_is_not_batched() {
    let mut t = Tuggy::default();
    t.push = Some(true);
    t.jobs_limit = Some(3);
    t.aliases = Some(vec!["me/app:latest".to_string()]);
    t.debug = Some(true);
    let cs = plan(&t, "me/app:1", &BASE[..5]).unwrap();
    let stages: Vec<Stage> = cs.iter().map(|c| c.stage).collect();
    assert_eq!(stages, vec![Stage::Build, Stage::Build, Stage::Build, Stage::Retag]);
    assert_eq!(
        args(&cs[0]),
        vec![
            "buildx", "build", "--builder", "tuggy", "--platform",
            "linux/386,linux/amd64,linux/amd64/v2", "-t", "me/app:1", "."
        ]
    );
    assert_eq!(args(&cs[1])[5], "linux/arm/v6,linux/arm/v7");
    assert!(!args(&cs[1]).contains(&"--push"));
    assert_eq!(
        args(&cs[2]),
        vec![
            "buildx", "build", "--builder", "tuggy", "--platform",
            "linux/386,linux/amd64,linux/amd64/v2,linux/arm/v6,linux/arm/v7", "--push", "-t",
            "me/app:1", "."
        ]
    );
    assert_eq!(
        args(&cs[3]),
        vec!["buildx", "imagetools", "--builder", "tuggy", "create", "-t", "me/app:latest", "me/app:1"]
    );
    assert!(cs.iter().all(|c| c.log));
}

#[test]
fn batch_limit_of_one_pushes_only_the_whole_set() {
    let mut t = Tuggy::default();
    t.push = Some(true);
    t.jobs_limit = Some(1);
    let cs = plan(&t, "x", &["linux/amd64", "linux/arm64"]).unwrap();
    assert_eq!(cs.len(), 3);
    assert_eq!(args(&cs[0])[5], "linux/amd64");
    assert!(!args(&cs[0]).contains(&"--push"));
    assert_eq!(args(&cs[1])[5], "linux/arm64");
    assert!(!args(&cs[1]).contains(&"--push"));
    assert_eq!(args(&cs[2])[5], "linux/amd64,linux/arm64");
    assert_eq!(args(&cs[2])[6], "--push");
}

#[test]
fn aliases_without_push_follow_every_batch() {
    let mut t = Tuggy::default();
    t.jobs_limit = Some(2);
    t.aliases = Some(vec!["a".to_string(), "b".to_string()]);
    let cs = plan(&t, "x", &["linux/amd64", "linux/arm64", "linux/386"]).unwrap();
    let stages: Vec<Stage> = cs.iter().map(|c| c.stage).collect();
    assert_eq!(
        stages,
        vec![Stage::Build, Stage::Retag, Stage::Retag, Stage::Build, Stage::Retag, Stage::Retag]
    );
}

#[test]
fn debug_only_changes_logging() {
    let mut a = Tuggy::default();
    a.push = Some(true);
    a.jobs_limit = Some(2);
    let mut b = Tuggy::default();
    b.push = Some(true);
    b.jobs_limit = Some(2);
    b.debug = Some(true);
    let pa = plan(&a, "x", &BASE).unwrap();
    let pb = plan(&b, "x", &BASE).unwrap();
    assert_eq!(pa.len(), pb.len());
    for (x, y) in pa.iter().zip(pb.iter()) {
        assert_eq!(x.args, y.args);
        assert_eq!(x.stage, y.stage);
        assert!(!x.log && y.log);
    }
}

#[test]
fn load_replaces_platform_list() {
    let mut t = Tuggy::default();
    t.load = Some(true);
    t.dockerfile = Some("Containerfile".to_string());
    t.buildx_args = Some(vec!["--no-cache".to_string()]);
    t.directory = Some("example".to_string());
    let cs = plan(&t, "me/app", &["linux/amd64"]).unwrap();
    assert_eq!(cs.len(), 1);
    assert_eq!(
        args(&cs[0]),
        vec![
            "buildx", "build", "--builder", "tuggy", "--load", "-t", "me/app", "-f",
            "Containerfile", "--no-cache", "example"
        ]
    );
}

#[test]
fn load_and_push_are_refused() {
    let mut t = Tuggy::default();
    t.load = Some(true);
    t.push = Some(true);
    let e = plan(&t, "me/app", &BASE).unwrap_err();
    assert_eq!(message(e), "load, push are mutually exclusive operations");
}

#[test]
fn nothing_left_is_refused() {
    let mut t = Tuggy::default();
    t.platforms_allow = Some(vec!["windows/amd64".to_string()]);
    let e = plan(&t, "me/app", &BASE).unwrap_err();
    assert_eq!(message(e), "all platforms unavailable, skipped, or denied");
    let t = Tuggy::default();
    let e = plan(&t, "me/app", &["linux/s390x", "linux/riscv64"]).unwrap_err();
    assert_eq!(message(e), "all platforms unavailable, skipped, or denied");
}

#[test]
fn allow_list_and_custom_skip_list() {
    let mut t = Tuggy::default();
    t.platforms_skip = Some(vec!["linux/arm/.*".to_string()]);
    t.platforms_allow = Some(vec![
        "linux/arm/v7".to_string(),
        "linux/s390x".to_string(),
        "linux/amd64".to_string(),
    ]);
    let cs = plan(&t, "x", &BASE).unwrap();
    assert_eq!(cs.len(), 1);
    assert_eq!(args(&cs[0])[5], "linux/amd64,linux/s390x");
}

#[test]
fn zero_jobs_limit_builds_everything_at_once() {
    let mut t = Tuggy::default();
    t.jobs_limit = Some(0);
    t.push = Some(true);
    let cs = plan(&t, "x", &BASE).unwrap();
    assert_eq!(cs.len(), 1);
    assert_eq!(
        args(&cs[0])[5],
        "linux/386,linux/amd64,linux/amd64/v2,linux/arm/v6,linux/arm/v7,linux/arm64"
    );
    assert_eq!(args(&cs[0])[6], "--push");
}

#[test]
fn selection_notes_say_why_a_platform_is_left_out() {
    let mut t = Tuggy::default();
    t.platforms_allow = Some(vec!["linux/amd64".to_string()]);
    let skip = t.skip_pattern().unwrap();
    let notes = t.selection_notes_of(&platforms(&["linux/amd64", "linux/s390x", "linux/arm64"]), &skip);
    assert_eq!(
        notes,
        vec!["debug: skip platform: linux/s390x", "debug: deny platform: linux/arm64"]
    );
}

#[test]
fn invalid_custom_skip_pattern_is_reported() {
    let mut t = Tuggy::default();
    t.platforms_skip = Some(vec!["(".to_string()]);
    assert!(t.skip_pattern().is_err());
}

#[test]
fn invalid_custom_skip_pattern_is_a_regex_parse_error() {
    let mut t = Tuggy::default();
    t.platforms_skip = Some(vec!["(".to_string()]);
    let expected = regex::Regex::new("^(()$").unwrap_err().to_string();
    assert!(!expected.is_empty());
    match t.compiled_skip_pattern() {
        Err(TuggyError::RegexParseError(m)) => assert_eq!(m, expected),
        other => panic!("unexpected result: {:?}", other),
    }
}

#[test]
fn compiled_skip_pattern_of_a_valid_list() {
    let mut t = Tuggy::default();
    t.platforms_skip = Some(vec!["linux/s390x".to_string(), "windows/.*".to_string()]);
    let p = t.compiled_skip_pattern().unwrap();
    assert_eq!(p.as_str(), "^(linux/s390x|windows/.*)$");
    assert!(p.is_match("windows/amd64"));
    assert!(!p.is_match("linux/amd64"));
}

#[test]
fn builder_commands() {
    let mut t = Tuggy::default();
    let c = t.ensure_buildx_builder_command();
    assert_eq!(c.stage, Stage::CreateBuilder);
    assert_eq!(
        args(&c),
        vec!["buildx", "create", "--bootstrap", "--name", "tuggy", "--node", "tuggy0"]
    );
    t.driver = Some("docker-container".to_string());
    assert_eq!(
        args(&t.ensure_buildx_builder_command()),
        vec![
            "buildx", "create", "--bootstrap", "--name", "tuggy", "--node", "tuggy0",
            "--driver", "docker-container"
        ]
    );
    assert_eq!(args(&t.inspect_builder_command()), vec!["buildx", "inspect", "tuggy"]);
    assert_eq!(
        args(&t.list_image_cache_command("me/app")),
        vec!["buildx", "imagetools", "inspect", "--builder", "tuggy", "me/app"]
    );
}

#[test]
fn clean_prunes_then_removes_builder() {
    let cs = clean(Some(true));
    assert_eq!(cs.len(), 2);
    assert_eq!(cs[0].stage, Stage::PruneImageCache);
    assert_eq!(args(&cs[0]), vec!["buildx", "prune", "--force"]);
    assert_eq!(cs[1].stage, Stage::RemoveBuilder);
    assert_eq!(args(&cs[1]), vec!["buildx", "rm", "tuggy"]);
    assert!(cs[0].log && cs[1].log);
    assert!(!clean(None)[0].log);
}

#[test]
fn stage_failures() {
    assert_eq!(message(Stage::CreateBuilder.failure()), "unable to provision buildx builder");
    assert_eq!(message(Stage::InspectBuilder.failure()), "unable to query buildx builder: tuggy");
    assert_eq!(message(Stage::Build.failure()), "unable to build image");
    assert_eq!(message(Stage::Retag.failure()), "unable to tag image");
    assert_eq!(
        message(Stage::ListImageCache.failure()),
        "unable to list image cache for builder: tuggy"
    );
    assert_eq!(message(Stage::PruneImageCache.failure()), "unable to prune image cache");
    assert_eq!(message(Stage::RemoveBuilder.failure()), "unable to remove buildx builder");
}
