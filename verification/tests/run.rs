use tuggy::command::{clean, Stage};
use tuggy::config::Tuggy;
use tuggy::error::TuggyError;
use tuggy::run::{Action, Outcome, Sequence};

const INSPECT: &str = "Name: tuggy\nPlatforms: linux/amd64, linux/arm64, linux/s390x\n";

fn ok() -> Outcome {
    Outcome::Succeeded(String::new())
}

fn failed(m: &str) -> Outcome {
    Outcome::Failed(TuggyError::IOError(m.to_string()))
}

fn stage(a: &Action) -> Stage {
    match a {
        Action::Run(c) => c.stage,
        other => panic!("unexpected action: {:?}", other),
    }
}

#[test]
fn build_runs_provision_inspect_then_plan() {
    let mut t = Tuggy::default();
    t.push = Some(true);
    t.jobs_limit = Some(1);
    t.debug = Some(true);
    let (mut run, a) = t.start_build("me/app").unwrap();
    assert_eq!(stage(&a), Stage::CreateBuilder);
    let (a, notes) = run.step(&t, ok());
    assert_eq!(stage(&a), Stage::InspectBuilder);
    assert!(notes.is_empty());
    let (a, notes) = run.step(&t, Outcome::Succeeded(INSPECT.to_string()));
    assert_eq!(notes, vec!["debug: skip platform: linux/s390x"]);
    match &a {
        Action::Run(c) => assert_eq!(c.args[5], "linux/amd64"),
        other => panic!("unexpected action: {:?}", other),
    }
    let (a, _) = run.step(&t, ok());
    match &a {
        Action::Run(c) => assert_eq!(c.args[5], "linux/arm64"),
        other => panic!("unexpected action: {:?}", other),
    }
    let (a, _) = run.step(&t, ok());
    match &a {
        Action::Run(c) => {
            assert_eq!(c.args[5], "linux/amd64,linux/arm64");
            assert_eq!(c.args[6], "--push");
        }
        other => panic!("unexpected action: {:?}", other),
    }
    assert!(!run.is_over());
    let (a, _) = run.step(&t, ok());
    assert!(matches!(a, Action::Finish(Ok(()))));
    assert!(run.is_over());
}

#[test]
fn failed_batch_stops_the_build() {
    let mut t = Tuggy::default();
    t.push = Some(true);
    t.jobs_limit = Some(1);
    let (mut run, _) = t.start_build("me/app").unwrap();
    run.step(&t, ok());
    run.step(&t, Outcome::Succeeded(INSPECT.to_string()));
    let (a, _) = run.step(&t, failed("unable to build image"));
    match a {
        Action::Finish(Err(TuggyError::IOError(m))) => assert_eq!(m, "unable to build image"),
        other => panic!("unexpected action: {:?}", other),
    }
    assert!(run.is_over());
}

#[test]
fn failed_platform_query_builds_nothing() {
    let t = Tuggy::default();
    let (mut run, _) = t.start_build("me/app").unwrap();
    run.step(&t, ok());
    let (a, notes) = run.step(&t, failed("unable to query buildx builder: tuggy"));
    assert!(notes.is_empty());
    match a {
        Action::Finish(Err(TuggyError::IOError(m))) => {
            assert_eq!(m, "unable to query buildx builder: tuggy")
        }
        other => panic!("unexpected action: {:?}", other),
    }
    assert!(run.is_over());
}

#[test]
fn failed_provisioning_builds_nothing() {
    let t = Tuggy::default();
    let (mut run, _) = t.start_build("me/app").unwrap();
    let (a, _) = run.step(&t, failed("unable to provision buildx builder"));
    assert!(matches!(a, Action::Finish(Err(_))));
    assert!(run.is_over());
}

#[test]
fn unreadable_inspect_output_ends_the_build() {
    let t = Tuggy::default();
    let (mut run, _) = t.start_build("me/app").unwrap();
    run.step(&t, ok());
    let (a, _) = run.step(&t, Outcome::Succeeded("nothing here\n".to_string()));
    match a {
        Action::Finish(Err(TuggyError::IOError(m))) => assert_eq!(m, "no platforms detected"),
        other => panic!("unexpected action: {:?}", other),
    }
}

#[test]
fn refused_plan_ends_the_build() {
    let mut t = Tuggy::default();
    t.load = Some(true);
    t.push = Some(true);
    let (mut run, _) = t.start_build("me/app").unwrap();
    run.step(&t, ok());
    let (a, _) = run.step(&t, Outcome::Succeeded(INSPECT.to_string()));
    match a {
        Action::Finish(Err(TuggyError::IOError(m))) => {
            assert_eq!(m, "load, push are mutually exclusive operations")
        }
        other => panic!("unexpected action: {:?}", other),
    }
}

#[test]
fn invalid_skip_pattern_ends_the_build_after_inspection() {
    let mut t = Tuggy::default();
    t.platforms_skip = Some(vec!["(".to_string()]);
    t.debug = Some(true);
    let (mut run, a) = t.start_build("x").unwrap();
    assert_eq!(stage(&a), Stage::CreateBuilder);
    let (a, _) = run.step(&t, ok());
    assert_eq!(stage(&a), Stage::InspectBuilder);
    let (a, notes) = run.step(&t, Outcome::Succeeded(INSPECT.to_string()));
    assert!(notes.is_empty());
    let expected = regex::Regex::new("^(()$").unwrap_err().to_string();
    match a {
        Action::Finish(Err(TuggyError::RegexParseError(m))) => assert_eq!(m, expected),
        other => panic!("unexpected action: {:?}", other),
    }
    assert!(run.is_over());
}

#[test]
fn invalid_skip_pattern_does_not_hide_an_unreadable_inspection() {
    let mut t = Tuggy::default();
    t.platforms_skip = Some(vec!["(".to_string()]);
    let (mut run, _) = t.start_build("x").unwrap();
    run.step(&t, ok());
    let (a, _) = run.step(&t, Outcome::Succeeded("nothing here\n".to_string()));
    match a {
        Action::Finish(Err(TuggyError::IOError(m))) => assert_eq!(m, "no platforms detected"),
        other => panic!("unexpected action: {:?}", other),
    }
}

fn failure_text(a: Action) -> String {
    match a {
        Action::Finish(Err(TuggyError::IOError(m))) => m,
        other => panic!("unexpected action: {:?}", other),
    }
}

#[test]
fn unsuccessful_provisioning_is_a_provisioning_failure() {
    let t = Tuggy::default();
    let (mut run, _) = t.start_build("me/app").unwrap();
    let (a, _) = run.step(&t, Outcome::Unsuccessful);
    assert_eq!(failure_text(a), "unable to provision buildx builder");
    assert!(run.is_over());
}

#[test]
fn unsuccessful_inspection_is_a_query_failure() {
    let t = Tuggy::default();
    let (mut run, _) = t.start_build("me/app").unwrap();
    run.step(&t, ok());
    let (a, _) = run.step(&t, Outcome::Unsuccessful);
    assert_eq!(failure_text(a), "unable to query buildx builder: tuggy");
    assert!(run.is_over());
}

#[test]
fn unsuccessful_batch_is_a_build_failure() {
    let mut t = Tuggy::default();
    t.push = Some(true);
    t.jobs_limit = Some(1);
    let (mut run, _) = t.start_build("me/app").unwrap();
    run.step(&t, ok());
    run.step(&t, Outcome::Succeeded(INSPECT.to_string()));
    let (a, _) = run.step(&t, Outcome::Unsuccessful);
    assert_eq!(failure_text(a), "unable to build image");
    assert!(run.is_over());
}

#[test]
fn unsuccessful_retag_is_a_tag_failure() {
    let mut t = Tuggy::default();
    t.aliases = Some(vec!["me/app:latest".to_string()]);
    t.push = Some(true);
    t.jobs_limit = Some(0);
    let (mut run, _) = t.start_build("me/app").unwrap();
    run.step(&t, ok());
    let (a, _) = run.step(&t, Outcome::Succeeded(INSPECT.to_string()));
    assert_eq!(stage(&a), Stage::Build);
    let (a, _) = run.step(&t, ok());
    assert_eq!(stage(&a), Stage::Retag);
    let (a, _) = run.step(&t, Outcome::Unsuccessful);
    assert_eq!(failure_text(a), "unable to tag image");
    assert!(run.is_over());
}

#[test]
fn unsuccessful_removal_is_a_removal_failure() {
    let (mut sq, _) = Sequence::new(clean(None));
    let a = sq.step(ok());
    assert_eq!(stage(&a), Stage::RemoveBuilder);
    let a = sq.step(Outcome::Unsuccessful);
    assert_eq!(failure_text(a), "unable to remove buildx builder");
    assert!(sq.is_finished());
}

#[test]
fn unsuccessful_prune_is_a_prune_failure() {
    let (mut sq, _) = Sequence::new(clean(None));
    let a = sq.step(Outcome::Unsuccessful);
    assert_eq!(failure_text(a), "unable to prune image cache");
}

#[test]
fn clean_skips_removal_when_pruning_fails() {
    let (mut sq, a) = Sequence::new(clean(None));
    assert_eq!(stage(&a), Stage::PruneImageCache);
    let a = sq.step(failed("unable to prune image cache"));
    assert!(matches!(a, Action::Finish(Err(_))));
    assert!(sq.is_finished());
}

#[test]
fn clean_runs_both_commands_on_success() {
    let (mut sq, _) = Sequence::new(clean(None));
    let a = sq.step(ok());
    assert_eq!(stage(&a), Stage::RemoveBuilder);
    let a = sq.step(ok());
    assert!(matches!(a, Action::Finish(Ok(()))));
}

#[test]
fn empty_sequence_is_over_at_once() {
    let (sq, a) = Sequence::new(Vec::new());
    assert!(sq.is_finished());
    assert!(matches!(a, Action::Finish(Ok(()))));
}
