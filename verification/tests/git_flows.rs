use repo_sync::failure::Failure;
use repo_sync::git::{
    fetch, parse_positive, GitOutput, Progress, Reply, Request, Settings, Step, Timeout,
};
use repo_sync::model::{Inspection, Repository, Strategy, SyncKind, SyncResult};
use repo_sync::path::RawPath;
use repo_sync::plan::{apply_sync, inspect_repository, prepare_sync, PreparedSync, SyncPlan};
use repo_sync::process::GitRun;
use repo_sync::text::summary;

/// A repository as its commands show it.
struct Fixture {
    branch: String,
    head: String,
    remote_head: String,
    behind: u64,
    upstream: Option<Result<String, String>>,
    has_origin_ref: bool,
    untracked: bool,
    status_times_out: bool,
    fetch_failures: usize,
    local_tag: String,
    remote_tag: String,
    modules: usize,
    log: Vec<String>,
    pauses: Vec<u64>,
}

fn output(success: bool, stdout: &str, stderr: &str) -> Reply {
    Ok(GitOutput { success, stdout: stdout.to_owned(), stderr: stderr.to_owned() })
}

impl Fixture {
    fn new() -> Self {
        Fixture {
            branch: "main".to_owned(),
            head: "aaaa".to_owned(),
            remote_head: "aaaa".to_owned(),
            behind: 0,
            upstream: Some(Ok("origin/main".to_owned())),
            has_origin_ref: true,
            untracked: false,
            status_times_out: false,
            fetch_failures: 0,
            local_tag: "aaaa".to_owned(),
            remote_tag: "aaaa".to_owned(),
            modules: 0,
            log: Vec::new(),
            pauses: Vec::new(),
        }
    }

    fn push_peer_commit(&mut self) -> String {
        self.remote_head = "bbbb".to_owned();
        self.behind = 1;
        self.remote_head.clone()
    }

    fn repository(&self) -> Repository {
        Repository {
            name: "fixture".to_owned(),
            path: RawPath::from_text("/tmp/fixture/local"),
            strategy: Strategy::Rebase,
            submodules: false,
        }
    }

    fn run(&mut self, request: &Request) -> Reply {
        let words: Vec<&str> = request.arguments.iter().map(|word| word.as_str()).collect();
        self.log.push(words.join(" "));
        self.pauses.push(request.pause);
        match words[0] {
            "rev-parse" if words[1] == "--is-inside-work-tree" => output(true, "true\n", ""),
            "rev-parse" if words[1] == "--abbrev-ref" => match &self.upstream {
                Some(Ok(name)) => output(true, &format!("{name}\n"), ""),
                Some(Err(text)) => output(false, "", text),
                None => output(false, "", "fatal: no upstream"),
            },
            "rev-parse" => output(true, &format!("{}\n", self.head), ""),
            "branch" => output(true, &format!("{}\n", self.branch), ""),
            "remote" => output(true, "origin\n", ""),
            "status" if self.status_times_out => {
                let run = GitRun { success: Some(false), stdout: Some(vec![]), stderr: None };
                Ok(run.output(true, Timeout { seconds: 0, nanos: 500_000_000 }))
            }
            "status" => output(true, if self.untracked { "?? untracked.txt\n" } else { "" }, ""),
            "config" => output(self.upstream.is_some(), "value\n", ""),
            "show-ref" => output(self.has_origin_ref, "", ""),
            "rev-list" => output(true, &format!("{}\n", self.behind), ""),
            "fetch" => {
                if self.fetch_failures > 0 {
                    self.fetch_failures -= 1;
                    return output(false, "", "fatal: unable to access remote\n");
                }
                if words.contains(&"--tags") {
                    self.local_tag = self.remote_tag.clone();
                }
                output(true, "", "")
            }
            "pull" => {
                self.head = self.remote_head.clone();
                self.behind = 0;
                output(true, "Updating\n", "")
            }
            "submodule" => {
                if words[1] == "update" {
                    self.modules += 1;
                }
                output(true, "", "")
            }
            "diff" => output(true, " README.md | 2 +-\n 1 file changed\n", ""),
            other => panic!("unexpected command {other}"),
        }
    }

    fn inspect(&mut self, refresh: bool) -> Inspection {
        let repository = self.repository();
        let mut replies: Vec<Reply> = Vec::new();
        loop {
            match inspect_repository(&repository, None, true, refresh, 1, &replies) {
                Step::Ask(request) => {
                    let reply = self.run(&request);
                    replies.push(reply);
                }
                Step::Done(inspection) => return inspection,
            }
        }
    }

    fn prepare(&mut self, repository: &Repository) -> PreparedSync {
        let mut replies: Vec<Reply> = Vec::new();
        loop {
            match prepare_sync(repository, None, true, 1, true, timeout(), &replies) {
                Step::Ask(request) => {
                    let reply = self.run(&request);
                    replies.push(reply);
                }
                Step::Done(prepared) => return prepared,
            }
        }
    }

    fn planned(&mut self, repository: &Repository) -> SyncPlan {
        match self.prepare(repository) {
            PreparedSync::Update(plan) => plan,
            PreparedSync::Terminal(result) => panic!("no plan: {}", result.detail),
        }
    }

    fn refused(&mut self, repository: &Repository) -> SyncResult {
        match self.prepare(repository) {
            PreparedSync::Update(_) => panic!("a plan was made"),
            PreparedSync::Terminal(result) => result,
        }
    }

    fn apply(&mut self, plan: &SyncPlan) -> SyncResult {
        let mut replies: Vec<Reply> = Vec::new();
        loop {
            match apply_sync(plan, &replies) {
                Step::Ask(request) => {
                    let reply = self.run(&request);
                    replies.push(reply);
                }
                Step::Done(result) => return result,
            }
        }
    }
}

fn timeout() -> Timeout {
    Timeout { seconds: 30, nanos: 0 }
}

#[test]
fn validates_positive_environment_values() {
    assert_eq!(parse_positive("TEST", "3").unwrap(), 3);
    assert!(parse_positive("TEST", "0").is_err());
    assert!(parse_positive("TEST", "nope").is_err());
}

#[test]
fn summarizes_only_three_lines() {
    assert_eq!(
        summary("one\ntwo  words\nthree\nfour"),
        "one two words three"
    );
}

#[test]
fn settings_come_from_the_environment() {
    let settings = Settings::from_env(None, None, None).unwrap();
    assert_eq!(settings.jobs, 4);
    assert_eq!(settings.fetch_attempts, 2);
    assert!(settings.terminal_prompt);
    assert_eq!(settings.command_timeout, timeout());
    let settings = Settings::from_env(Some(b"7"), Some(b"+3"), Some(b"120")).unwrap();
    assert_eq!(settings.jobs, 7);
    assert_eq!(settings.fetch_attempts, 3);
    assert_eq!(settings.command_timeout.seconds, 120);
    let error = |value: &[u8]| Settings::from_env(Some(value), None, None).unwrap_err().full();
    assert_eq!(error(b"0"), "REPO_SYNC_JOBS must be a positive integer");
    for text in ["", "x", "-1", "99999999999999999999999", "+", "1\u{e9}"] {
        let parsed = text.parse::<usize>().unwrap_err();
        assert_eq!(
            error(text.as_bytes()),
            format!("REPO_SYNC_JOBS must be a positive integer: {parsed}")
        );
    }
    assert!(error(&[0xff]).starts_with("REPO_SYNC_JOBS must be a positive integer: "));
}

#[test]
fn detects_and_applies_remote_updates() {
    let mut fixture = Fixture::new();
    let remote_head = fixture.push_peer_commit();
    let repository = fixture.repository();

    let inspection = fixture.inspect(true);
    assert_eq!(inspection.updates, Some(1));
    assert_eq!(inspection.label(), "yes");

    let plan = fixture.planned(&repository);
    let result = fixture.apply(&plan);
    assert_eq!(result.kind, SyncKind::Updated);
    assert_eq!(fixture.head, remote_head);
    assert!(fixture
        .log
        .contains(&"pull --no-tags --rebase --recurse-submodules=on-demand".to_owned()));
}

#[test]
fn merge_pulls_without_rebase() {
    let mut fixture = Fixture::new();
    fixture.push_peer_commit();
    let mut repository = fixture.repository();
    repository.strategy = Strategy::Merge;
    let plan = fixture.planned(&repository);
    assert_eq!(fixture.apply(&plan).kind, SyncKind::Updated);
    assert!(fixture
        .log
        .contains(&"pull --no-tags --no-rebase --recurse-submodules=on-demand".to_owned()));
}

#[test]
fn ahead_only_repository_is_skipped() {
    let mut fixture = Fixture::new();
    fixture.head = "cccc".to_owned();
    let repository = fixture.repository();

    let inspection = fixture.inspect(true);
    assert_eq!(inspection.updates, Some(0));
    assert_eq!(inspection.label(), "no");
    assert_eq!(fixture.refused(&repository).kind, SyncKind::Skipped);
}

#[test]
fn dirty_state_is_preserved_while_syncing() {
    let mut fixture = Fixture::new();
    fixture.push_peer_commit();
    fixture.untracked = true;
    let repository = fixture.repository();

    let inspection = fixture.inspect(true);
    assert!(inspection.dirty);
    assert_eq!(inspection.label(), "dirty");
    let plan = fixture.planned(&repository);
    assert!(plan.dirty);
    let result = fixture.apply(&plan);
    assert_eq!(result.kind, SyncKind::Updated);
    assert!(result.dirty);
    assert!(fixture.untracked);
}

#[test]
fn falls_back_to_origin_current_branch_without_upstream() {
    let mut fixture = Fixture::new();
    fixture.push_peer_commit();
    fixture.upstream = None;
    let repository = fixture.repository();
    let inspection = fixture.inspect(true);
    assert_eq!(inspection.compare_ref.as_deref(), Some("origin/main"));

    let plan = fixture.planned(&repository);
    assert!(!plan.configured_upstream);
    assert_eq!(fixture.apply(&plan).kind, SyncKind::Updated);
    assert!(fixture.log.iter().any(|line| line.starts_with("pull")
        && line.ends_with("--recurse-submodules=on-demand origin main")));
}

#[test]
fn missing_configured_upstream_never_falls_back_to_origin() {
    let mut fixture = Fixture::new();
    fixture.push_peer_commit();
    fixture.upstream = Some(Err("fatal: upstream is gone".to_owned()));
    let repository = fixture.repository();
    let inspection = fixture.inspect(false);
    assert!(inspection.error.is_some());
    let result = fixture.refused(&repository);
    assert_eq!(result.kind, SyncKind::Failed);
    assert!(result.detail.contains("Configured upstream"), "{}", result.detail);
    assert!(!fixture.log.iter().any(|line| line.starts_with("show-ref")));
}

#[test]
fn submodules_are_initialized_without_pulling_an_up_to_date_parent() {
    let mut fixture = Fixture::new();
    fixture.untracked = true;
    let mut repository = fixture.repository();
    repository.submodules = true;
    let plan = fixture.planned(&repository);
    assert_eq!(plan.update_count, 0);
    let result = fixture.apply(&plan);
    assert_eq!(result.kind, SyncKind::Updated, "{}", result.detail);
    assert_eq!(fixture.modules, 1);
    assert!(!fixture.log.iter().any(|line| line.starts_with("pull")));
    assert!(fixture.log.contains(&"submodule sync --recursive".to_owned()));
    assert!(fixture.log.contains(&"submodule update --init --recursive".to_owned()));
}

#[test]
fn inspection_honors_timeout_for_local_status() {
    let mut fixture = Fixture::new();
    fixture.status_times_out = true;
    let inspection = fixture.inspect(false);
    assert!(
        inspection.error.as_deref().is_some_and(|error| error.contains("timed out")),
        "{:?}",
        inspection.error
    );
}

#[test]
fn detached_head_is_reported_without_mutation() {
    let mut fixture = Fixture::new();
    let before = fixture.head.clone();
    fixture.branch = String::new();
    let repository = fixture.repository();

    let inspection = fixture.inspect(true);
    assert_eq!(inspection.label(), "unknown");
    assert!(inspection.error.unwrap().contains("Detached HEAD"));
    assert_eq!(fixture.refused(&repository).kind, SyncKind::Failed);
    assert_eq!(fixture.head, before);
}

#[test]
fn refuses_to_pull_if_branch_changes_after_planning() {
    let mut fixture = Fixture::new();
    fixture.push_peer_commit();
    let repository = fixture.repository();
    let plan = fixture.planned(&repository);
    fixture.branch = "other".to_owned();
    let other_head = fixture.head.clone();

    let result = fixture.apply(&plan);
    assert_eq!(result.kind, SyncKind::Failed);
    assert!(result.detail.contains("Current branch changed"));
    assert_eq!(fixture.head, other_head);
}

#[test]
fn refuses_to_pull_if_upstream_changes_after_planning() {
    let mut fixture = Fixture::new();
    fixture.push_peer_commit();
    let repository = fixture.repository();
    let plan = fixture.planned(&repository);
    fixture.upstream = Some(Ok("origin/other".to_owned()));
    let before = fixture.head.clone();

    let result = fixture.apply(&plan);
    assert_eq!(result.kind, SyncKind::Failed);
    assert!(result.detail.contains("upstream changed"));
    assert_eq!(fixture.head, before);
}

#[test]
fn list_does_not_move_tags_but_sync_force_fetches_them() {
    let mut fixture = Fixture::new();
    let original = fixture.head.clone();
    fixture.local_tag = original.clone();
    let remote_head = fixture.push_peer_commit();
    fixture.remote_tag = remote_head.clone();
    let repository = fixture.repository();

    let inspection = fixture.inspect(true);
    assert_eq!(inspection.updates, Some(1));
    assert_eq!(fixture.local_tag, original);

    fixture.planned(&repository);
    assert_eq!(fixture.local_tag, remote_head);
    assert_ne!(original, remote_head);
}

#[test]
fn fetch_tries_again_after_a_growing_pause() {
    let mut fixture = Fixture::new();
    fixture.fetch_failures = 2;
    let mut replies: Vec<Reply> = Vec::new();
    let end = loop {
        match fetch(&replies, 0, 3, true) {
            Progress::Ask(request) => {
                let reply = fixture.run(&request);
                replies.push(reply);
            }
            Progress::Done(result, next) => break (result, next),
        }
    };
    assert_eq!(end, (Ok(()), 3));
    assert_eq!(fixture.pauses, vec![0, 1, 2]);
    fixture.fetch_failures = 5;
    let replies: Vec<Reply> = vec![output(false, "", "a\n"), output(false, "b\n", "")];
    match fetch(&replies, 0, 2, false) {
        Progress::Done(Err(failure), 2) => assert!(failure.message.contains('b')),
        other => panic!("{other:?}"),
    }
}

#[test]
fn missing_places_are_reported() {
    let fixture = Fixture::new();
    let repository = fixture.repository();
    let home = RawPath::from_text("/tmp/fixture");
    match inspect_repository(&repository, Some(&home), false, true, 1, &vec![]) {
        Step::Done(inspection) => {
            assert_eq!(inspection.error.as_deref(), Some("Path does not exist: ~/local"));
        }
        Step::Ask(_) => panic!("nothing to ask"),
    }
    let replies = vec![output(false, "", "fatal: not a git repository\n")];
    match prepare_sync(&repository, None, true, 1, true, timeout(), &replies) {
        Step::Done(PreparedSync::Terminal(result)) => {
            assert_eq!(result.detail, "Not a git repository: /tmp/fixture/local");
        }
        other => panic!("{other:?}"),
    }
    let replies: Vec<Reply> = vec![Err(Failure::of("cannot run git"))];
    assert!(matches!(
        prepare_sync(&repository, None, true, 1, true, timeout(), &replies),
        Step::Done(PreparedSync::Terminal(_))
    ));
}

#[test]
fn settled_results_ignore_later_replies() {
    let mut fixture = Fixture::new();
    fixture.push_peer_commit();
    let repository = fixture.repository();
    let mut replies: Vec<Reply> = Vec::new();
    let first = loop {
        match inspect_repository(&repository, None, true, true, 1, &replies) {
            Step::Ask(request) => {
                let reply = fixture.run(&request);
                replies.push(reply);
            }
            Step::Done(inspection) => break inspection,
        }
    };
    assert!(replies.len() <= 9);
    replies.push(output(false, "noise", "noise"));
    match inspect_repository(&repository, None, true, true, 1, &replies) {
        Step::Done(again) => assert_eq!(again, first),
        Step::Ask(_) => panic!("the inspection was over"),
    }
}

#[test]
fn updated_results_show_the_diff() {
    let mut fixture = Fixture::new();
    fixture.push_peer_commit();
    let repository = fixture.repository();
    let plan = fixture.planned(&repository);
    let result = fixture.apply(&plan);
    assert!(result.detail.contains("1 file changed"), "{}", result.detail);
}
