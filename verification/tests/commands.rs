use repo_sync::cli::{
    add, fetch_heading, list, list_fetches, nothing_to_sync, progress_line, remove, report, select,
    set_target, AddArgs, ListArgs, SetArgs, SyncArgs,
};
use repo_sync::engine::EngineEvent;
use repo_sync::git::Timeout;
use repo_sync::model::{Inspection, Repository, Strategy, SyncKind, SyncResult};
use repo_sync::path::RawPath;
use repo_sync::plan::SyncPlan;

fn path(text: &str) -> RawPath {
    RawPath::from_text(text)
}

fn repository(name: &str, place: &str) -> Repository {
    Repository {
        name: name.to_owned(),
        path: path(place),
        strategy: Strategy::Rebase,
        submodules: false,
    }
}

fn registry() -> Vec<Repository> {
    vec![repository("one", "/home/me/one"), repository("two", "/tmp/two")]
}

fn adding(name: Option<&str>) -> AddArgs {
    AddArgs {
        path: "ignored".to_owned(),
        name: name.map(str::to_owned),
        strategy: Strategy::Merge,
        submodules: false,
        no_submodules: false,
    }
}

fn setting(target: &str) -> SetArgs {
    SetArgs {
        target: target.to_owned(),
        name: None,
        path: None,
        strategy: None,
        submodules: false,
        no_submodules: false,
    }
}

fn home() -> RawPath {
    path("/home/me")
}

#[test]
fn add_names_a_repository_after_its_directory() {
    let change = add(&registry(), &adding(None), &path("/home/me/new"), true, true, Some(&home()))
        .unwrap();
    assert_eq!(change.repositories.len(), 3);
    assert_eq!(change.repositories[2].name, "new");
    assert_eq!(change.message, "Added: new -> ~/new (merge, submodules=true)");
    let root = add(&registry(), &adding(None), &path("/"), true, false, None).unwrap();
    assert_eq!(root.repositories[2].name, "/");
    let mut arguments = adding(Some("x"));
    arguments.no_submodules = true;
    let change = add(&registry(), &arguments, &path("/x"), true, true, None).unwrap();
    assert!(!change.repositories[2].submodules);
}

#[test]
fn add_refuses_conflicts() {
    let error = |name: &str, place: &str, is_repository: bool| {
        add(&registry(), &adding(Some(name)), &path(place), is_repository, false, Some(&home()))
            .unwrap_err()
            .full()
    };
    assert_eq!(error("x", "/home/me/x", false), "not a git repository: ~/x");
    assert_eq!(error("one", "/x", true), "repository name already exists: one");
    assert_eq!(error("x", "/home/me/one/", true), "repository path already exists: ~/one");
}

#[test]
fn remove_takes_a_name_or_a_path() {
    let change = remove(&registry(), "two", None, Some(&home())).unwrap();
    assert_eq!(change.repositories, vec![repository("one", "/home/me/one")]);
    assert_eq!(change.message, "Removed: two -> /tmp/two");
    let linked = remove(&registry(), "link", Some(&path("/home/me/one")), Some(&home())).unwrap();
    assert_eq!(linked.message, "Removed: one -> ~/one");
    assert_eq!(
        remove(&registry(), "three", None, None).unwrap_err().full(),
        "repository not registered: three"
    );
}

#[test]
fn removing_undoes_adding() {
    let before = registry();
    let added = add(&before, &adding(Some("new")), &path("/new"), true, false, None).unwrap();
    let removed = remove(&added.repositories, "new", None, None).unwrap();
    assert_eq!(removed.repositories, before);
}

#[test]
fn set_changes_only_what_is_asked_for() {
    let mut arguments = setting("one");
    arguments.strategy = Some(Strategy::Merge);
    arguments.submodules = true;
    assert_eq!(set_target(&registry(), &arguments, None).unwrap(), path("/home/me/one"));
    let change = repo_sync::cli::set(&registry(), &arguments, None, None, true, Some(&home())).unwrap();
    assert_eq!(change.repositories[0].strategy, Strategy::Merge);
    assert!(change.repositories[0].submodules);
    assert_eq!(change.repositories[1], registry()[1]);
    assert_eq!(change.message, "Updated: one -> ~/one (merge, submodules=true)");
    arguments.submodules = false;
    arguments.no_submodules = true;
    arguments.name = Some("uno".to_owned());
    arguments.path = Some("/uno".to_owned());
    let moved = path("/uno");
    let change = repo_sync::cli::set(&change.repositories, &arguments, None, Some(&moved), true, None).unwrap();
    assert_eq!(change.message, "Updated: uno -> /uno (merge, submodules=false)");
}

#[test]
fn set_refuses_conflicts() {
    let mut arguments = setting("one");
    let taken = path("/tmp/two");
    assert_eq!(
        repo_sync::cli::set(&registry(), &arguments, None, None, false, None).unwrap_err().full(),
        "not a git repository: /home/me/one"
    );
    assert_eq!(
        repo_sync::cli::set(&registry(), &arguments, None, Some(&taken), true, None).unwrap_err().full(),
        "repository path already exists: /tmp/two"
    );
    arguments.name = Some("two".to_owned());
    assert_eq!(
        repo_sync::cli::set(&registry(), &arguments, None, None, true, None).unwrap_err().full(),
        "repository name already exists: two"
    );
    let missing = setting("three");
    assert_eq!(
        repo_sync::cli::set(&registry(), &missing, None, None, true, None).unwrap_err().full(),
        "repository not registered: three"
    );
    assert_eq!(
        set_target(&registry(), &missing, None).unwrap_err().full(),
        "repository not registered: three"
    );
}

#[test]
fn list_shows_a_table() {
    let config = path("/home/me/repos.tsv");
    assert_eq!(
        list(&vec![], &vec![], &config, Some(&home())),
        vec!["No repositories registered. Config: ~/repos.tsv".to_owned()]
    );
    let inspections = vec![
        Inspection { updates: Some(3), ..Inspection::default() },
        Inspection { dirty: true, ..Inspection::default() },
    ];
    let lines = list(&registry(), &inspections, &config, Some(&home()));
    assert_eq!(lines[0], "Config: ~/repos.tsv");
    assert_eq!(
        lines[1],
        format!(
            "{:<24}  {:<8}  {:<10}  {:<10}  path",
            "name", "strategy", "submodules", "updates"
        )
    );
    assert_eq!(
        lines[2],
        format!(
            "{:<24}  {:<8}  {:<10}  {:<10}  ----",
            "----", "--------", "----------", "-------"
        )
    );
    assert_eq!(lines[3], format!("{:<24}  rebase  {:<10}  {:<10}  ~/one", "one", false, "yes"));
    assert_eq!(lines[4], format!("{:<24}  rebase  {:<10}  {:<10}  /tmp/two", "two", false, "dirty"));
    assert!(list_fetches(&ListArgs { fetch: false, no_fetch: false }));
    assert!(!list_fetches(&ListArgs { fetch: false, no_fetch: true }));
}

#[test]
fn sync_selects_each_target_once() {
    let arguments = |targets: &[&str], strategy: Option<Strategy>| SyncArgs {
        targets: targets.iter().map(|target| (*target).to_owned()).collect(),
        strategy,
    };
    let all = select(&registry(), &arguments(&[], Some(Strategy::Merge)), &vec![]).unwrap();
    assert_eq!(all.len(), 2);
    assert!(all.iter().all(|item| item.strategy == Strategy::Merge));
    let some = select(
        &registry(),
        &arguments(&["two", "/tmp/two", "link"], None),
        &vec![None, Some(path("/tmp/two")), Some(path("/home/me/one"))],
    )
    .unwrap();
    let names: Vec<&str> = some.iter().map(|item| item.name.as_str()).collect();
    assert_eq!(names, vec!["two", "one"]);
    assert_eq!(some[0].strategy, Strategy::Rebase);
    assert_eq!(
        select(&registry(), &arguments(&["one", "gone"], None), &vec![None, None])
            .unwrap_err()
            .full(),
        "repository not registered: gone"
    );
}

fn plan(count: u64) -> SyncPlan {
    SyncPlan {
        repository: repository("one", "/tmp/one"),
        branch: "main".to_owned(),
        compare_ref: "origin/main".to_owned(),
        update_count: count,
        dirty: false,
        configured_upstream: true,
        terminal_prompt: true,
        command_timeout: Timeout { seconds: 30, nanos: 0 },
    }
}

fn result(name: &str, kind: SyncKind, dirty: bool, detail: &str) -> SyncResult {
    SyncResult {
        repository: repository(name, &format!("/home/me/{name}")),
        kind,
        dirty,
        detail: detail.to_owned(),
    }
}

#[test]
fn nothing_is_synchronized_without_repositories() {
    assert_eq!(nothing_to_sync(&Vec::new()), Some("No repositories to sync.".to_owned()));
    assert_eq!(nothing_to_sync(&vec![repository("one", "/one")]), None);
}

#[test]
fn sync_tells_its_progress() {
    let names = vec!["one".to_owned(), "two".to_owned()];
    let line = |event: EngineEvent| progress_line(&event, &names);
    assert_eq!(
        fetch_heading(2, 4),
        "Phase 1: fetch and check updates (2 repos, up to 4 parallel)"
    );
    assert_eq!(line(EngineEvent::SyncFetching(1)).unwrap(), "  Fetching: two");
    assert_eq!(
        line(EngineEvent::SyncChecksFinished(1)).unwrap(),
        "\nPhase 2: serial updates (1 repos)\n"
    );
    assert_eq!(line(EngineEvent::SyncUpdating(0, plan(2))).unwrap(), "  Pulling: one");
    assert_eq!(
        line(EngineEvent::SyncUpdating(0, plan(0))).unwrap(),
        "  Syncing submodules: one"
    );
    for kind in [SyncKind::Updated, SyncKind::Skipped, SyncKind::Failed] {
        assert_eq!(
            line(EngineEvent::SyncFinished(0, result("one", kind, false, ""))).unwrap(),
            format!("  {kind:?}: one")
        );
    }
    assert_eq!(line(EngineEvent::SyncPrepared(0, plan(2))), None);
    assert_eq!(line(EngineEvent::InspectStarted(9)), None);
}

#[test]
fn sync_reports_sections_and_totals() {
    let results = vec![
        result("one", SyncKind::Updated, true, "1 file changed"),
        result("two", SyncKind::Failed, false, "pull failed"),
        result("three", SyncKind::Updated, true, ""),
        result("four", SyncKind::Updated, false, ""),
    ];
    let (lines, success) = report(&results, 4, Some(&home()));
    assert!(!success);
    assert_eq!(
        lines,
        vec![
            String::new(),
            "Updated (3):".to_owned(),
            format!("  {:<24}  ~/one  | local dirty; 1 file changed", "one"),
            format!("  {:<24}  ~/three  | local dirty", "three"),
            format!("  {:<24}  ~/four", "four"),
            "Skipped (0):".to_owned(),
            "  none".to_owned(),
            "Failed (1):".to_owned(),
            format!("  {:<24}  ~/two  | pull failed", "two"),
            "\n=== SYNC ENDED WITH ERRORS ===".to_owned(),
            "4/4 repos finished: 3 updated, 0 skipped, 1 failed".to_owned(),
        ]
    );
    let (lines, success) = report(&vec![result("a", SyncKind::Skipped, false, "")], 1, None);
    assert!(success);
    assert_eq!(lines[lines.len() - 2], "\n=== SYNC COMPLETE ===");
}
