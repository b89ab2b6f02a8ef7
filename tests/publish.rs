use chuck::commit::Commit;
use chuck::publish::{classify_replay, Action, Phase, PublishError, Publisher, StepResult};
use chuck::timestamp::Timestamp;

fn commit(n: u32) -> Commit {
    Commit {
        hash: format!("hash{}", n),
        short_hash: format!("h{}", n),
        message: format!("change {}", n),
        files: Vec::new(),
        author: "dev".to_string(),
        timestamp: Timestamp { secs: n as i64, nanos: 0, offset_secs: 0 },
    }
}

fn publisher(n: u32) -> Publisher {
    Publisher::new(
        (1..=n).map(commit).collect(),
        "git@github.com:acme/tpl.git",
        "github.com",
        "acme/tpl",
        "base0",
        "me/app",
        "20240102-030405",
    )
}

fn hash_of(a: &Action) -> String {
    match a {
        Action::CherryPick { hash } => hash.clone(),
        other => panic!("expected a cherry-pick, got {:?}", other),
    }
}

#[test]
fn steps_of_a_clean_run() {
    let mut p = publisher(2);
    match p.action() {
        Action::FetchTemplate { url } => assert_eq!(url, "git@github.com:acme/tpl.git"),
        other => panic!("{:?}", other),
    }
    p.on_result(StepResult::Succeeded);
    match p.action() {
        Action::CreateBranch { name, base } => {
            assert_eq!(name, "contrib/20240102-030405");
            assert_eq!(base, "base0");
        }
        other => panic!("{:?}", other),
    }
    p.on_result(StepResult::Succeeded);
    assert_eq!(hash_of(&p.action()), "hash1");
    p.on_result(StepResult::Succeeded);
    assert_eq!(hash_of(&p.action()), "hash2");
    p.on_result(StepResult::Succeeded);
    match p.action() {
        Action::Push { url, branch, remote_branch } => {
            assert_eq!(url, "git@github.com:acme/tpl.git");
            assert_eq!(branch, "contrib/20240102-030405");
            assert_eq!(remote_branch, "chuck-from-me-app-20240102-030405");
        }
        other => panic!("{:?}", other),
    }
    assert!(p.outcome().is_none());
    p.on_result(StepResult::Succeeded);
    assert_eq!(p.phase(), Phase::Pushed);
    assert!(matches!(p.action(), Action::Finish));
    let done = p.outcome().unwrap().unwrap();
    assert_eq!(done.applied, vec!["hash1", "hash2"]);
    assert!(done.skipped.is_empty());
    assert_eq!(done.base, "base0");
    assert_eq!(done.pr_url, "https://github.com/acme/tpl/pull/new/chuck-from-me-app-20240102-030405");
}

#[test]
fn empty_selection_leaves_branch_at_baseline() {
    let mut p = publisher(0);
    p.on_result(StepResult::Succeeded);
    p.on_result(StepResult::Succeeded);
    assert_eq!(p.phase(), Phase::Replayed);
    assert!(matches!(p.action(), Action::Push { .. }));
    p.on_result(StepResult::Succeeded);
    let done = p.outcome().unwrap().unwrap();
    assert!(done.applied.is_empty());
    assert!(done.skipped.is_empty());
    assert_eq!(done.base, "base0");
}

#[test]
fn empty_replay_in_the_middle_is_skipped() {
    let mut p = publisher(3);
    p.on_result(StepResult::Succeeded);
    p.on_result(StepResult::Succeeded);
    p.on_result(StepResult::Succeeded);
    assert_eq!(hash_of(&p.action()), "hash2");
    p.on_result(classify_replay(false, "The previous cherry-pick is now empty, possibly due to conflict resolution."));
    assert_eq!(p.phase(), Phase::Skipping);
    assert!(matches!(p.action(), Action::SkipCherryPick));
    p.on_result(StepResult::Succeeded);
    assert_eq!(hash_of(&p.action()), "hash3");
    p.on_result(StepResult::Succeeded);
    p.on_result(StepResult::Succeeded);
    let done = p.outcome().unwrap().unwrap();
    assert_eq!(done.applied, vec!["hash1", "hash3"]);
    assert_eq!(done.skipped, vec!["hash2"]);
}

#[test]
fn conflict_aborts_with_completed_and_remaining() {
    let mut p = publisher(3);
    p.on_result(StepResult::Succeeded);
    p.on_result(StepResult::Succeeded);
    p.on_result(StepResult::Succeeded);
    p.on_result(classify_replay(false, "error: could not apply hash2... change 2\nCONFLICT (content)"));
    assert_eq!(p.phase(), Phase::ReplayAborted);
    assert!(matches!(p.action(), Action::Finish));
    match p.outcome().unwrap() {
        Err(PublishError::ReplayFailed { completed, remaining }) => {
            assert_eq!(completed, vec!["hash1"]);
            assert_eq!(remaining, vec!["hash2", "hash3"]);
        }
        other => panic!("{:?}", other),
    }
}

#[test]
fn failed_skip_aborts() {
    let mut p = publisher(2);
    p.on_result(StepResult::Succeeded);
    p.on_result(StepResult::Succeeded);
    p.on_result(StepResult::NothingToApply);
    p.on_result(StepResult::Failed);
    match p.outcome().unwrap() {
        Err(PublishError::ReplayFailed { completed, remaining }) => {
            assert!(completed.is_empty());
            assert_eq!(remaining, vec!["hash1", "hash2"]);
        }
        other => panic!("{:?}", other),
    }
}

#[test]
fn fetch_and_branch_failures() {
    let mut p = publisher(1);
    p.on_result(StepResult::Failed);
    assert!(matches!(p.outcome(), Some(Err(PublishError::FetchFailed))));
    let mut q = publisher(1);
    q.on_result(StepResult::Succeeded);
    q.on_result(StepResult::Failed);
    assert!(matches!(q.outcome(), Some(Err(PublishError::BranchCreateFailed))));
    q.on_result(StepResult::Succeeded);
    assert_eq!(q.phase(), Phase::BranchCreateFailed);
}

#[test]
fn push_failure_gives_manual_steps() {
    let mut p = publisher(1);
    p.on_result(StepResult::Succeeded);
    p.on_result(StepResult::Succeeded);
    p.on_result(StepResult::Succeeded);
    p.on_result(StepResult::Failed);
    assert_eq!(p.phase(), Phase::PushFailed);
    match p.outcome().unwrap() {
        Err(PublishError::PushFailed { branch, applied, skipped, command, pr_url }) => {
            assert_eq!(branch, "contrib/20240102-030405");
            assert_eq!(applied, vec!["hash1"]);
            assert!(skipped.is_empty());
            assert_eq!(
                command,
                "git push git@github.com:acme/tpl.git contrib/20240102-030405:chuck-from-me-app-20240102-030405"
            );
            assert_eq!(pr_url, "https://github.com/acme/tpl/pull/new/chuck-from-me-app-20240102-030405");
        }
        other => panic!("{:?}", other),
    }
}

#[test]
fn classify_outcomes() {
    assert_eq!(classify_replay(true, "empty"), StepResult::Succeeded);
    assert_eq!(classify_replay(false, "nothing to commit, working tree clean; cherry-pick is empty"), StepResult::NothingToApply);
    assert_eq!(classify_replay(false, "CONFLICT"), StepResult::Failed);
    assert_eq!(classify_replay(false, ""), StepResult::Failed);
}

#[test]
fn start_stamps_names_with_the_run_time() {
    // 2024-01-02T03:04:05Z
    let mut p = Publisher::start(vec![commit(1)], "git@github.com:acme/tpl.git", "github.com", "acme/tpl", "base0", "me/app", 1704164645)
        .unwrap();
    p.on_result(StepResult::Succeeded);
    match p.action() {
        Action::CreateBranch { name, .. } => assert_eq!(name, "contrib/20240102-030405"),
        other => panic!("{:?}", other),
    }
    p.on_result(StepResult::Succeeded);
    p.on_result(StepResult::Succeeded);
    match p.action() {
        Action::Push { remote_branch, .. } => assert_eq!(remote_branch, "chuck-from-me-app-20240102-030405"),
        other => panic!("{:?}", other),
    }
}

#[test]
fn start_at_epoch_and_out_of_range() {
    let mut p = Publisher::start(Vec::new(), "u", "h", "o/r", "b", "me/app", 0).unwrap();
    p.on_result(StepResult::Succeeded);
    match p.action() {
        Action::CreateBranch { name, .. } => assert_eq!(name, "contrib/19700101-000000"),
        other => panic!("{:?}", other),
    }
    assert!(Publisher::start(Vec::new(), "u", "h", "o/r", "b", "me/app", i64::MAX).is_none());
}

#[test]
fn pull_request_url_on_another_host() {
    let mut p = Publisher::new(
        vec![commit(1)],
        "git@gitlab.example.com:acme/template.git",
        "gitlab.example.com",
        "acme/template",
        "base0",
        "me/app",
        "20240102-030405",
    );
    for _ in 0..4 {
        p.on_result(StepResult::Succeeded);
    }
    let done = p.outcome().unwrap().unwrap();
    assert_eq!(done.pr_url, "https://gitlab.example.com/acme/template/pull/new/chuck-from-me-app-20240102-030405");
}
