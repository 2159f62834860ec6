use repo_sync::engine::{
    inspect_all, sync_all, sync_all_with_limiter, EngineEvent, SyncLimiter, SyncRun,
};
use repo_sync::failure::Failure;
use repo_sync::git::{GitOutput, Settings, Timeout};
use repo_sync::model::{Inspection, Repository, Strategy, SyncKind, SyncResult};
use repo_sync::path::{display_path, RawPath};
use repo_sync::plan::{PreparedSync, SyncPlan};
use repo_sync::process::{build_git_command, cannot_run, receive_output, GitRun, Poll, Received};
use repo_sync::text;
use std::path::{Path, PathBuf};

fn settings(jobs: usize) -> Settings {
    Settings {
        jobs,
        fetch_attempts: 1,
        terminal_prompt: false,
        command_timeout: Timeout { seconds: 5, nanos: 0 },
    }
}

fn repository(name: &str) -> Repository {
    Repository {
        name: name.to_owned(),
        path: RawPath::from_text(&format!("/tmp/{name}")),
        strategy: Strategy::Rebase,
        submodules: false,
    }
}

fn result(name: &str, kind: SyncKind) -> SyncResult {
    SyncResult { repository: repository(name), kind, dirty: false, detail: String::new() }
}

fn plan(name: &str) -> SyncPlan {
    SyncPlan {
        repository: repository(name),
        branch: "main".to_owned(),
        compare_ref: "origin/main".to_owned(),
        update_count: 1,
        dirty: false,
        configured_upstream: true,
        terminal_prompt: false,
        command_timeout: Timeout { seconds: 5, nanos: 0 },
    }
}

#[test]
fn shared_limiter_caps_parallel_prepare_work() {
    let mut limiter = SyncLimiter::new(2);
    let mut active = 0;
    let mut peak = 0;
    let mut waiting = 4;
    while waiting > 0 || active > 0 {
        while waiting > 0 && limiter.acquire() {
            waiting -= 1;
            active += 1;
            peak = peak.max(active);
        }
        limiter.release();
        active -= 1;
    }
    assert_eq!(peak, 2);
    let mut least = SyncLimiter::new(0);
    assert!(least.acquire());
    assert!(!least.acquire());
    least.release();
    least.release();
    assert!(least.acquire());
    assert!(!least.acquire());
}

#[test]
fn inspections_are_collected_by_index() {
    let mut run = inspect_all(3, settings(2));
    assert_eq!(run.workers, 2);
    assert_eq!(run.start(), Some(EngineEvent::InspectStarted(0)));
    assert_eq!(run.start(), Some(EngineEvent::InspectStarted(1)));
    let found = Inspection { updates: Some(4), ..Inspection::default() };
    assert_eq!(run.finish(1, found.clone()), EngineEvent::InspectFinished(1, found.clone()));
    assert_eq!(run.start(), Some(EngineEvent::InspectStarted(2)));
    assert_eq!(run.start(), None);
    assert_eq!(run.results, vec![Inspection::default(), found, Inspection::default()]);
    assert_eq!(inspect_all(0, settings(2)).workers, 0);
}

#[test]
fn updates_run_one_after_the_other_in_order() {
    let (mut run, mut limiter) = sync_all(4, settings(3));
    assert!(limiter.acquire() && limiter.acquire() && limiter.acquire() && !limiter.acquire());
    assert_eq!(run.workers, 3);
    for index in 0..4 {
        assert_eq!(run.take(), Some(EngineEvent::SyncFetching(index)));
    }
    assert_eq!(run.take(), None);
    assert!(!run.complete());
    assert_eq!(
        run.prepare(3, PreparedSync::Update(plan("d"))),
        EngineEvent::SyncPrepared(3, plan("d"))
    );
    let skipped = result("a", SyncKind::Skipped);
    assert_eq!(
        run.prepare(0, PreparedSync::Terminal(skipped.clone())),
        EngineEvent::SyncFinished(0, skipped.clone())
    );
    run.prepare(1, PreparedSync::Update(plan("b")));
    let failed = result("c", SyncKind::Failed);
    run.prepare(2, PreparedSync::Terminal(failed.clone()));
    assert!(run.complete());
    assert_eq!(run.checks_finished(), Some(EngineEvent::SyncChecksFinished(2)));
    assert_eq!(run.advance(), Some((1, plan("b"))));
    assert_eq!(run.results, vec![skipped.clone()]);
    assert_eq!(run.advance(), Some((1, plan("b"))));
    assert_eq!(run.results, vec![skipped.clone()]);
    assert_eq!(SyncRun::updating(1, &plan("b")), EngineEvent::SyncUpdating(1, plan("b")));
    let second = result("b", SyncKind::Updated);
    assert_eq!(run.update(second.clone()), EngineEvent::SyncFinished(1, second.clone()));
    assert_eq!(run.advance(), Some((3, plan("d"))));
    let last = result("d", SyncKind::Failed);
    run.update(last.clone());
    assert_eq!(run.advance(), None);
    assert_eq!(run.results, vec![skipped, second, failed, last]);
    let mut empty = sync_all_with_limiter(0, settings(3));
    assert_eq!(empty.workers, 0);
    assert_eq!(empty.checks_finished(), None);
    assert_eq!(empty.advance(), None);
    assert!(empty.results.is_empty());
}

#[test]
fn noninteractive_git_disables_git_and_ssh_prompts() {
    let command = build_git_command(
        &RawPath::from_text("/tmp/repository"),
        &vec!["fetch".to_owned()],
        false,
        None,
    );
    let value = |name: &str| {
        command
            .environment
            .iter()
            .find(|variable| variable.name == name)
            .map(|variable| variable.value.clone())
    };
    assert_eq!(value("GIT_TERMINAL_PROMPT"), Some("0".to_owned()));
    assert_eq!(value("SSH_ASKPASS_REQUIRE"), Some("never".to_owned()));
    assert!(value("GIT_SSH_COMMAND").unwrap().contains("BatchMode=yes"));
    assert_eq!(
        command.arguments,
        vec![b"-C".to_vec(), b"/tmp/repository".to_vec(), b"fetch".to_vec()]
    );
}

#[test]
fn git_commands_keep_what_is_configured() {
    let place = RawPath::from_text("/r");
    let command = build_git_command(&place, &vec![], false, Some(b"ssh -i key"));
    assert_eq!(command.environment[2].value, "ssh -i key -oBatchMode=yes");
    let odd = build_git_command(&place, &vec![], false, Some(&[b'a', 0xff]));
    assert_eq!(odd.environment[2].value, "a\u{fffd} -oBatchMode=yes");
    assert!(build_git_command(&place, &vec![], true, None).environment.is_empty());
    assert_eq!(
        cannot_run(&place, None, &Failure::of("not found")).full(),
        "cannot run git in /r: not found"
    );
}

#[test]
fn commands_finish_or_time_out() {
    let mut run = GitRun::started();
    assert_eq!(run.poll(false), Poll::Wait);
    assert_eq!(run.poll(true), Poll::TimedOut);
    assert!(run.awaits_output(false));
    assert!(!run.awaits_output(true));
    run.success = Some(true);
    receive_output(Received::NotYet, &mut run.stdout, "git stdout");
    assert_eq!(run.stdout, None);
    receive_output(Received::Output(b"out".to_vec()), &mut run.stdout, "git stdout");
    receive_output(Received::Lost, &mut run.stdout, "git stdout");
    receive_output(Received::Lost, &mut run.stderr, "git stderr");
    assert_eq!(run.poll(true), Poll::Finished);
    assert!(!run.awaits_output(false));
    let timeout = Timeout { seconds: 12, nanos: 0 };
    assert_eq!(
        run.output(false, timeout),
        GitOutput {
            success: true,
            stdout: "out".to_owned(),
            stderr: "failed to read git stderr".to_owned(),
        }
    );
    assert_eq!(
        run.output(true, timeout),
        GitOutput {
            success: false,
            stdout: "out".to_owned(),
            stderr: "failed to read git stderr\ngit command timed out after 12s".to_owned(),
        }
    );
    let lost = GitRun { success: Some(false), stdout: None, stderr: Some(vec![]) };
    let output = lost.output(true, timeout);
    assert_eq!(output.stdout, "failed to finish reading git stdout");
    assert_eq!(output.stderr, "git command timed out after 12s");
    let odd = GitRun { success: Some(true), stdout: Some(vec![0xff]), stderr: Some(vec![]) };
    assert_eq!(odd.output(false, timeout).stdout, "\u{fffd}");
}

fn bytes(path: &RawPath) -> String {
    String::from_utf8(path.as_bytes().clone()).unwrap()
}

fn std_text(path: &Path) -> String {
    path.to_str().unwrap().to_owned()
}

#[test]
fn paths_behave_as_in_the_standard_library() {
    let samples = [
        "", "/", "//", "a", "a/", "/a", "/a/b", "/a//b/", "a/./b", "./a", ".", "..", "a/..",
        "/a/../b", "/a/b.txt", "/a/.hidden", "a.tar.gz", "a/b/.", "///a", "/.", "a.", ".a.b",
        "/a/b/c", "b/c", "/a/b/",
    ];
    for left in samples {
        let ours = RawPath::from_text(left);
        let std = Path::new(left);
        assert_eq!(ours.parent().map(|p| bytes(&p)), std.parent().map(std_text), "{left}");
        assert_eq!(
            ours.file_name().map(|p| bytes(&p)),
            std.file_name().map(|name| name.to_str().unwrap().to_owned()),
            "{left}"
        );
        assert_eq!(
            bytes(&ours.with_extension("lock")),
            std_text(&std.with_extension("lock")),
            "{left}"
        );
        for right in samples {
            let other = RawPath::from_text(right);
            assert_eq!(ours == other, std == Path::new(right), "{left} {right}");
            assert_eq!(bytes(&ours.join(&other)), std_text(&std.join(right)), "{left} {right}");
            assert_eq!(
                ours.strip_prefix(&other).map(|p| bytes(&p)),
                std.strip_prefix(right).ok().map(std_text),
                "{left} {right}"
            );
        }
    }
}

fn shown(path: &Path, home: Option<&Path>) -> String {
    let Some(home) = home.map(PathBuf::from) else {
        return path.display().to_string();
    };
    if home == Path::new("/") {
        return path.display().to_string();
    }
    if path == home {
        return "~".to_owned();
    }
    match path.strip_prefix(&home) {
        Ok(relative) => format!("~/{}", relative.display()),
        Err(_) => path.display().to_string(),
    }
}

#[test]
fn the_home_directory_is_shortened() {
    for place in ["/home/me", "/home/me/x", "/home/me/x/", "/home/mel", "/", "x"] {
        for home in [None, Some("/home/me"), Some("/home/me/"), Some("/"), Some("")] {
            let directory = home.map(RawPath::from_text);
            assert_eq!(
                display_path(&RawPath::from_text(place), directory.as_ref()),
                shown(Path::new(place), home.map(Path::new)),
                "{place} {home:?}"
            );
        }
    }
}

#[test]
fn texts_are_cut_as_in_the_standard_library() {
    let samples = [
        "", " ", "a", " a b\tc ", "a\nb\r\nc", "\n", "a\n\n", "\r", "a\r", "\u{3000}x\u{a0}",
        "é\u{2028}ü", "a\tb\t\tc\t", "x: y: z", ": ", "no colon", "99\n",
    ];
    for sample in samples {
        assert_eq!(text::trim(sample), sample.trim());
        assert_eq!(text::lines(sample), sample.lines().collect::<Vec<_>>());
        assert_eq!(text::words(sample), sample.split_whitespace().collect::<Vec<_>>());
        assert_eq!(text::fields(sample, '\t'), sample.split('\t').collect::<Vec<_>>());
        assert_eq!(text::contains_break(sample), sample.contains(['\t', '\n', '\r']));
        let rest = sample.split_once(": ").map_or(sample, |(_, rest)| rest);
        assert_eq!(text::drop_heading(sample), rest);
        assert_eq!(text::pad(sample, 5), format!("{sample:<5}"));
        let mut shorter = sample.to_owned();
        shorter.pop();
        assert_eq!(text::without_last(sample), shorter);
        for other in samples {
            assert_eq!(text::comes_before(sample, other), sample < other);
            assert_eq!(
                text::matches_ignoring_case(sample, other),
                sample.eq_ignore_ascii_case(other)
            );
        }
    }
    assert!(text::matches_ignoring_case("ReadY", "rEADy"));
    assert!(!text::matches_ignoring_case("É", "é"));
    for value in [0, 7, 10, 255, u128::from(u64::MAX), u128::MAX] {
        assert_eq!(text::number(value), value.to_string());
    }
}

#[test]
fn failures_chain_their_causes() {
    let failure = Failure::of("inner").context("middle").context("outer");
    assert_eq!(failure.full(), "outer: middle: inner");
    assert_eq!(Failure::of("alone").full(), "alone");
}

#[test]
fn strategies_have_two_words() {
    for strategy in [Strategy::Rebase, Strategy::Merge] {
        assert_eq!(Strategy::parse(strategy.to_text()).unwrap(), strategy);
        assert_ne!(strategy.toggle(), strategy);
        assert_eq!(strategy.toggle().toggle(), strategy);
    }
    assert_eq!(Strategy::parse("squash").unwrap_err().full(), "strategy must be rebase or merge");
    assert_eq!(Strategy::default(), Strategy::Rebase);
}

#[test]
fn inspections_have_labels() {
    let label = |inspection: Inspection| inspection.label();
    assert_eq!(label(Inspection::default()), "no");
    assert_eq!(label(Inspection { updates: Some(0), ..Inspection::default() }), "no");
    assert_eq!(label(Inspection { updates: Some(1), ..Inspection::default() }), "yes");
    let dirty = Inspection { dirty: true, updates: Some(1), ..Inspection::default() };
    assert_eq!(label(dirty), "dirty");
    let broken = Inspection { error: Some(String::new()), dirty: true, ..Inspection::default() };
    assert_eq!(label(broken), "unknown");
}

#[test]
fn outputs_are_combined() {
    let combined = |stdout: &str, stderr: &str| {
        GitOutput { success: true, stdout: stdout.to_owned(), stderr: stderr.to_owned() }.combined()
    };
    assert_eq!(combined(" \n", ""), "");
    assert_eq!(combined("a\n", " "), "a");
    assert_eq!(combined("", "b\n"), "b");
    assert_eq!(combined("a\n", "b\n"), "a\nb");
}
