use repo_sync::batches::Stage;
use repo_sync::config::ConfigStore;
use repo_sync::engine::EngineEvent;
use repo_sync::failure::Failure;
use repo_sync::form::{FormSubmodules, Key, RepoForm};
use repo_sync::git::{Settings, Timeout};
use repo_sync::keys::{Action, SaveFailure};
use repo_sync::model::{Inspection, Repository, Strategy, SyncKind, SyncResult};
use repo_sync::paint::Color;
use repo_sync::path::RawPath;
use repo_sync::plan::SyncPlan;
use repo_sync::rows::{panic_detail, RowState};
use repo_sync::tui::{App, Mode, UiMessage};

fn settings(jobs: usize) -> Settings {
    Settings {
        jobs,
        fetch_attempts: 1,
        terminal_prompt: false,
        command_timeout: Timeout { seconds: 5, nanos: 0 },
    }
}

fn repository(name: &str, place: &str) -> Repository {
    Repository {
        name: name.to_owned(),
        path: RawPath::from_text(place),
        strategy: Strategy::Rebase,
        submodules: false,
    }
}

fn app_with_repositories(names: &[&str]) -> App {
    let list = names.iter().map(|name| repository(name, &format!("/tmp/{name}"))).collect();
    App::new(list, settings(2), true)
}

fn keys(app: &App) -> Vec<RawPath> {
    app.repositories.iter().map(|item| item.path.clone()).collect()
}

fn reserve(app: &mut App, indices: Vec<usize>) -> u64 {
    let keys = keys(app);
    app.reserve_sync_batch(&indices, &keys)
}

fn start_sync(app: &mut App, all: bool) -> Option<u64> {
    let keys = keys(app);
    app.start_sync(all, &keys).map(|job| job.run_id)
}

fn sync_plan(repository: &Repository) -> SyncPlan {
    SyncPlan {
        repository: repository.clone(),
        branch: "main".to_owned(),
        compare_ref: "origin/main".to_owned(),
        update_count: 2,
        dirty: false,
        configured_upstream: true,
        terminal_prompt: false,
        command_timeout: Timeout { seconds: 5, nanos: 0 },
    }
}

fn sync_result(repository: &Repository, kind: SyncKind) -> SyncResult {
    SyncResult { repository: repository.clone(), kind, dirty: false, detail: String::new() }
}

fn complete(app: &mut App, run_id: u64, index: usize, kind: SyncKind) {
    let results = vec![sync_result(&app.repositories[index], kind)];
    app.drain_messages(&vec![UiMessage::SyncComplete { run_id, results }]);
}

fn event(app: &mut App, run_id: u64, event: EngineEvent) {
    app.drain_messages(&vec![UiMessage::Engine { run_id, event }]);
}

fn fail(app: &mut App, run_id: u64, operation: &str, detail: &str) {
    app.drain_messages(&vec![UiMessage::OperationFailed {
        run_id,
        operation: operation.to_owned(),
        detail: detail.to_owned(),
    }]);
}

fn has_mark(app: &App, name: &str) -> bool {
    app.marked.iter().any(|mark| mark == name)
}

fn running(app: &App, run_id: u64) -> bool {
    app.sync_batches.iter().any(|batch| batch.run_id == run_id)
}

#[test]
fn pending_quit_rejects_new_work_and_input_after_completion() {
    let mut app = app_with_repositories(&["one", "two"]);
    let run_id = reserve(&mut app, vec![0]);
    app.request_quit();
    app.selected = Some(1);
    assert!(start_sync(&mut app, false).is_none());
    assert!(app.start_refresh(true).is_none());
    assert!(matches!(app.handle_key(Key::Char('a')), Action::Nothing));
    assert_eq!(app.sync_batches.len(), 1);
    assert!(app.refresh_run.is_none());
    assert!(matches!(app.mode, Mode::Normal));
    complete(&mut app, run_id, 0, SyncKind::Skipped);
    assert!(matches!(app.handle_key(Key::Char('S')), Action::Nothing));
    assert!(app.quit);
    assert!(app.sync_batches.is_empty());
}

/// Saves what a form asks for, as far as the file allows it.
fn save_form(app: &mut App, file: &mut Vec<u8>, path: &RawPath) -> bool {
    let store = ConfigStore::at(RawPath::from_text("/data/repos.tsv"));
    let form = match &app.mode {
        Mode::Form(form) => form.clone(),
        other => panic!("{other:?}"),
    };
    let candidate = match form.candidate(&app.repositories, path.clone(), true, false, None) {
        Ok(candidate) => candidate,
        Err(failure) => {
            app.refuse_form(&failure);
            return false;
        }
    };
    let contents = Ok(file.clone());
    match store.save_if_unchanged(&contents, &app.repositories, &candidate, None, 1, 1) {
        Ok(replacement) => {
            *file = replacement.text.into_bytes();
            app.save_form(&candidate, Ok(()));
            true
        }
        Err(failure) => {
            let reloaded = store.load(&contents, None);
            app.save_form(&candidate, Err(SaveFailure { failure, reloaded }));
            false
        }
    }
}

fn file_with(list: &Vec<Repository>) -> Vec<u8> {
    let store = ConfigStore::at(RawPath::from_text("/data/repos.tsv"));
    store.save(list, None, 1, 1).unwrap().text.into_bytes()
}

fn read(file: &[u8]) -> Vec<Repository> {
    let store = ConfigStore::at(RawPath::from_text("/data/repos.tsv"));
    store.load(&Ok(file.to_vec()), None).unwrap()
}

#[test]
fn form_save_conflict_keeps_external_entries_before_retry() {
    let mut app = App::new(vec![], settings(1), true);
    let external = vec![repository("external", "/tmp/external")];
    let mut file = file_with(&external);
    let path = RawPath::from_text("/tmp/git");
    let mut form = RepoForm::add();
    form.name = "new".to_owned();
    form.path = path.to_text();
    app.mode = Mode::Form(form);
    assert!(!save_form(&mut app, &mut file, &path));
    assert_eq!(read(&file), external);
    assert_eq!(app.repositories, external);
    match &app.mode {
        Mode::Form(form) => assert_eq!(
            form.error.as_deref(),
            Some(
                "Registry changed in another process; reload and retry your change.\
                 ; registry reloaded; review changes before retrying"
            )
        ),
        other => panic!("{other:?}"),
    }
    assert!(save_form(&mut app, &mut file, &path));
    assert_eq!(app.repositories.len(), 2);
    assert_eq!(app.repositories[0].name, "external");
    assert_eq!(app.repositories[1].name, "new");
    assert_eq!(read(&file), app.repositories);
    assert_eq!(app.status, "Registry saved");
    assert!(matches!(app.mode, Mode::Normal));
}

fn delete(app: &mut App, file: &mut Vec<u8>) {
    let store = ConfigStore::at(RawPath::from_text("/data/repos.tsv"));
    app.mode = Mode::ConfirmDelete;
    let candidate = match app.handle_key(Key::Enter) {
        Action::Delete(candidate) => candidate,
        other => panic!("{other:?}"),
    };
    let contents = Ok(file.clone());
    match store.save_if_unchanged(&contents, &app.repositories, &candidate, None, 1, 1) {
        Ok(replacement) => {
            *file = replacement.text.into_bytes();
            app.finish_delete(Ok(()));
        }
        Err(failure) => {
            let reloaded = store.load(&contents, None);
            app.finish_delete(Err(SaveFailure { failure, reloaded }));
        }
    }
}

#[test]
fn delete_conflict_preserves_external_changes_and_allows_retry() {
    let mut app = app_with_repositories(&["one"]);
    let mut external = app.repositories.clone();
    let mut added = external[0].clone();
    added.name = "two".to_owned();
    added.path = RawPath::from_text("/tmp/two");
    external.push(added);
    let mut file = file_with(&external);
    delete(&mut app, &mut file);
    assert_eq!(read(&file), external);
    assert_eq!(app.repositories, external);
    assert!(app.status.contains("registry reloaded"));
    assert!(!app.quit);
    delete(&mut app, &mut file);
    assert_eq!(app.repositories.len(), 1);
    assert_eq!(app.repositories[0].name, "two");
    assert_eq!(read(&file), app.repositories);
    assert_eq!(app.status, "Removed one from the registry");
}

#[test]
fn deleting_the_last_row_selects_the_one_above() {
    let mut app = app_with_repositories(&["one", "two"]);
    app.marked.push("two".to_owned());
    app.selected = Some(1);
    app.finish_delete(Ok(()));
    assert_eq!(app.selected, Some(0));
    assert!(app.marked.is_empty());
    app.finish_delete(Ok(()));
    assert_eq!(app.selected, None);
    assert!(app.states.is_empty());
}

#[test]
fn a_registry_that_cannot_be_reloaded_keeps_the_list() {
    let mut app = app_with_repositories(&["one"]);
    app.finish_delete(Err(SaveFailure {
        failure: Failure::of("busy"),
        reloaded: Err(Failure::of("gone")),
    }));
    assert_eq!(app.repositories.len(), 1);
    assert_eq!(app.status, "Cannot remove repository: busy; cannot reload registry: gone");
}

#[test]
fn form_submodule_choice_cycles() {
    assert_eq!(FormSubmodules::Auto.toggle(), FormSubmodules::Enabled);
    assert_eq!(FormSubmodules::Enabled.toggle(), FormSubmodules::Disabled);
    assert_eq!(FormSubmodules::Disabled.toggle(), FormSubmodules::Auto);
}

#[test]
fn finished_state_keeps_dirty_and_failure_detail() {
    let state = RowState::Finished(SyncResult {
        repository: Repository {
            name: "demo".to_owned(),
            path: RawPath::from_text("/tmp/demo"),
            strategy: Strategy::Rebase,
            submodules: false,
        },
        kind: SyncKind::Failed,
        dirty: true,
        detail: "pull failed".to_owned(),
    });
    assert_eq!(state.detail(), "local dirty; pull failed");
}

#[test]
fn startup_is_immediately_ready_for_sync() {
    let app = App::new(vec![repository("demo", "/tmp/demo")], settings(1), true);

    assert!(!app.has_active_operations());
    assert!(matches!(app.states.as_slice(), [RowState::Idle]));
    assert_eq!(app.status, "ready");
}

#[test]
fn background_failure_releases_busy_state() {
    let mut app = App::new(vec![repository("demo", "/tmp/demo")], settings(1), true);
    let run_id = reserve(&mut app, vec![0]);
    app.states[0] = RowState::Planning;
    fail(&mut app, run_id, "Sync", "worker failed");

    assert!(!app.has_active_operations());
    assert!(matches!(
        &app.states[0],
        RowState::Finished(result)
            if result.kind == SyncKind::Failed && result.detail == "worker failed"
    ));
    assert_eq!(app.status, "Sync complete: 0 updated, 0 skipped, 1 failed");
}

#[test]
fn sync_progress_moves_through_each_stage() {
    let mut app = app_with_repositories(&["one"]);
    let run_id = reserve(&mut app, vec![0]);
    let plan = sync_plan(&app.repositories[0]);

    event(&mut app, run_id, EngineEvent::SyncFetching(0));
    assert_eq!(app.states[0].label(), "fetching");

    event(&mut app, run_id, EngineEvent::SyncPrepared(0, plan.clone()));
    assert_eq!(app.states[0].label(), "queued");

    event(&mut app, run_id, EngineEvent::SyncUpdating(0, plan));
    assert_eq!(app.states[0].label(), "pulling");
    assert_eq!(
        app.states[0].detail(),
        "branch=main  ·  compare=origin/main  ·  remote updates=2"
    );

    let result = sync_result(&app.repositories[0], SyncKind::Updated);
    event(&mut app, run_id, EngineEvent::SyncFinished(0, result));
    assert_eq!(app.states[0].label(), "updated");
    assert!(app.status.starts_with("sync 1/1:"));
}

#[test]
fn parallel_batches_route_events_and_preserve_new_marks() {
    let mut app = app_with_repositories(&["one", "two", "zulu"]);
    app.marked.push("one".to_owned());
    let first = reserve(&mut app, vec![0]);
    app.marked.push("zulu".to_owned());
    let second = reserve(&mut app, vec![1]);
    let first_plan = sync_plan(&app.repositories[0]);
    let second_plan = sync_plan(&app.repositories[1]);

    app.drain_messages(&vec![
        UiMessage::Engine { run_id: second, event: EngineEvent::SyncUpdating(0, second_plan) },
        UiMessage::Engine { run_id: first, event: EngineEvent::SyncPrepared(0, first_plan) },
    ]);

    assert_eq!(app.states[0].label(), "queued");
    assert_eq!(app.states[1].label(), "pulling");
    assert!(has_mark(&app, "zulu"));
    assert!(!has_mark(&app, "one"));

    complete(&mut app, first, 0, SyncKind::Updated);

    assert!(matches!(app.states[0], RowState::Finished(_)));
    assert_eq!(app.states[1].label(), "pulling");
    assert!(running(&app, second));
    assert!(has_mark(&app, "zulu"));
    assert!(app.status.starts_with("sync 1/2:"));
}

#[test]
fn already_active_repositories_are_filtered_from_new_batches() {
    let mut app = app_with_repositories(&["one", "two"]);
    let first = reserve(&mut app, vec![0]);
    let keys = keys(&app);
    let (available, skipped) = app.available_sync_indices(&vec![0, 1], &keys);

    assert_eq!(available, vec![1]);
    assert_eq!(skipped, 1);
    let holder = app.active_repositories.iter().find(|entry| entry.key == keys[0]);
    assert_eq!(holder.map(|entry| entry.run_id), Some(first));
}

#[test]
fn repository_aliases_share_the_same_active_lock() {
    let list = vec![repository("canonical", "/r/repository"), repository("alias", "/r/alias")];
    let mut app = App::new(list, settings(2), true);
    let resolved = RawPath::from_text("/r/repository");
    let keys = vec![resolved.clone(), resolved];
    let canonical_index =
        app.repositories.iter().position(|item| item.name == "canonical").unwrap();
    let alias_index = app.repositories.iter().position(|item| item.name == "alias").unwrap();
    let both = vec![canonical_index, alias_index];

    let (available, skipped) = app.available_sync_indices(&both, &keys);

    assert_eq!(available.len(), 1);
    assert_eq!(skipped, 1);
    let run_id = app.reserve_sync_batch(&available, &keys);

    let (available, skipped) = app.available_sync_indices(&both, &keys);

    assert!(available.is_empty());
    assert_eq!(skipped, 2);

    app.release_sync_batch(run_id);

    assert!(app.active_repositories.is_empty());
}

#[test]
fn start_sync_accepts_a_new_repository_while_another_batch_runs() {
    let mut app = app_with_repositories(&["one", "two"]);
    app.selected = Some(0);
    assert!(start_sync(&mut app, false).is_some());
    app.selected = Some(1);
    assert!(start_sync(&mut app, false).is_some());

    assert_eq!(app.sync_batches.len(), 2);
    assert_eq!(app.active_repositories.len(), 2);

    app.selected = Some(0);
    assert!(start_sync(&mut app, false).is_none());
    assert_eq!(app.sync_batches.len(), 2);
    assert_eq!(app.status, "Selected repositories are already syncing");
}

#[test]
fn quit_waits_for_every_sync_batch() {
    let mut app = app_with_repositories(&["one", "two"]);
    let first = reserve(&mut app, vec![0]);
    let second = reserve(&mut app, vec![1]);
    app.request_quit();

    complete(&mut app, first, 0, SyncKind::Skipped);
    assert!(!app.quit);

    complete(&mut app, second, 1, SyncKind::Skipped);
    assert!(app.quit);
    assert_eq!(app.status, "Sync complete: 0 updated, 2 skipped, 0 failed");
}

#[test]
fn failed_batch_stays_visible_while_another_batch_runs() {
    let mut app = app_with_repositories(&["one", "two"]);
    let first = reserve(&mut app, vec![0]);
    let second = reserve(&mut app, vec![1]);
    fail(&mut app, first, "Sync", "worker failed");

    assert!(matches!(
        &app.states[0],
        RowState::Finished(result)
            if result.kind == SyncKind::Failed && result.detail == "worker failed"
    ));
    assert!(app.status.starts_with("sync 1/2:"));

    complete(&mut app, second, 1, SyncKind::Skipped);
    assert_eq!(app.status, "Sync complete: 0 updated, 1 skipped, 1 failed");
}

#[test]
fn failed_batch_keeps_the_rows_with_results() {
    let mut app = app_with_repositories(&["one", "two"]);
    let run_id = reserve(&mut app, vec![0, 1]);
    let ended = sync_result(&app.repositories[1], SyncKind::Updated);
    app.drain_messages(&vec![
        UiMessage::Engine { run_id, event: EngineEvent::SyncFinished(1, ended.clone()) },
        UiMessage::OperationFailed {
            run_id,
            operation: "Sync".to_owned(),
            detail: "worker stopped".to_owned(),
        },
    ]);
    assert_eq!(app.states[1], RowState::Finished(ended));
    let failed = SyncResult {
        repository: app.repositories[0].clone(),
        kind: SyncKind::Failed,
        dirty: false,
        detail: "worker stopped".to_owned(),
    };
    assert_eq!(app.states[0], RowState::Finished(failed));
}

#[test]
fn keys_are_resolved_paths_or_their_own() {
    let app = app_with_repositories(&["one"]);
    let real = RawPath::from_text("/real/one");
    assert_eq!(app.repository_key(0, Ok(real.clone())), real);
    assert_eq!(
        app.repository_key(0, Err(Failure::of("not found"))),
        RawPath::from_text("/tmp/one")
    );
}

#[test]
fn quit_during_work_is_deferred_until_completion() {
    let mut app = App::new(vec![], settings(1), true);
    let run_id = app.start_refresh(true).unwrap().run_id;
    assert_eq!(app.refresh_run, Some(run_id));
    app.request_quit();
    assert!(app.quit_pending);
    assert!(!app.quit);
    app.drain_messages(&vec![UiMessage::InspectionComplete { run_id, results: Vec::new() }]);
    assert!(app.quit);
}

#[test]
fn refresh_runs_alone_and_reports_errors() {
    let mut app = app_with_repositories(&["one", "two"]);
    let job = app.start_refresh(true).unwrap();
    assert!(job.refresh);
    assert_eq!(job.repositories, app.repositories);
    assert_eq!(app.status, "Refreshing remote state…");
    assert_eq!(app.states[1].label(), "queued");
    assert!(app.start_refresh(false).is_none());
    assert_eq!(app.status, "An operation is already running");
    assert!(start_sync(&mut app, true).is_none());
    assert_eq!(app.status, "Wait for refresh to finish before syncing");
    event(&mut app, job.run_id, EngineEvent::InspectStarted(1));
    assert_eq!(app.states[1].label(), "checking");
    event(&mut app, job.run_id + 1, EngineEvent::InspectStarted(0));
    assert_eq!(app.states[0].label(), "queued");
    let broken = Inspection { error: Some("gone".to_owned()), ..Inspection::default() };
    event(&mut app, job.run_id, EngineEvent::InspectFinished(0, broken.clone()));
    assert_eq!(app.states[0].detail(), "gone");
    app.drain_messages(&vec![UiMessage::InspectionComplete {
        run_id: job.run_id,
        results: vec![broken, Inspection::default()],
    }]);
    let completion = app.completion.as_ref().unwrap();
    assert_eq!(completion.title, "REFRESH ENDED WITH ERRORS");
    assert_eq!(completion.summary, "2 repos checked, 1 failed");
    assert!(completion.failed);
    assert!(!app.has_active_operations());
}

#[test]
fn failed_refresh_frees_the_waiting_rows() {
    let mut app = app_with_repositories(&["one", "two"]);
    let run_id = app.start_refresh(false).unwrap().run_id;
    assert_eq!(app.status, "Reading local tracking state…");
    event(&mut app, run_id, EngineEvent::InspectFinished(0, Inspection::default()));
    fail(&mut app, run_id, "Refresh", "worker failed");
    assert_eq!(app.states[0].label(), "no");
    assert_eq!(app.states[1].label(), "idle");
    assert_eq!(app.status, "Refresh failed: worker failed");
    assert_eq!(app.completion.as_ref().unwrap().title, "REFRESH FAILED");
}

#[test]
fn refresh_that_does_not_start_is_taken_back() {
    let mut app = app_with_repositories(&["one"]);
    app.start_refresh(true).unwrap();
    app.refresh_not_started("no threads");
    assert!(!app.has_active_operations());
    assert_eq!(app.states[0].label(), "idle");
    assert_eq!(app.status, "Cannot start background worker: no threads");
}

#[test]
fn sync_takes_marked_repositories_first() {
    let mut app = app_with_repositories(&["one", "two", "three"]);
    app.selected = Some(2);
    app.toggle_mark();
    app.selected = Some(0);
    app.toggle_mark();
    let keys = keys(&app);
    let job = app.start_sync(false, &keys).unwrap();
    let names: Vec<&str> = job.repositories.iter().map(|item| item.name.as_str()).collect();
    assert_eq!(names, vec!["one", "three"]);
    assert!(app.marked.is_empty());
    assert_eq!(app.status, "sync 0/2: 2 waiting, 0 fetching, 0 queued, 0 pulling");
    assert_eq!(app.count_stage(Stage::Waiting), 2);
    let job = app.start_sync(true, &keys).unwrap();
    assert_eq!(job.repositories.len(), 1);
    assert_eq!(
        app.status,
        "sync 0/3: 3 waiting, 0 fetching, 0 queued, 0 pulling; 2 already syncing"
    );
    let mut empty = app_with_repositories(&[]);
    assert!(start_sync(&mut empty, true).is_none());
    assert_eq!(empty.status, "No repositories selected");
}

#[test]
fn results_are_counted_once() {
    let mut app = app_with_repositories(&["one", "two"]);
    let run_id = reserve(&mut app, vec![0, 1]);
    let result = sync_result(&app.repositories[0], SyncKind::Updated);
    event(&mut app, run_id, EngineEvent::SyncFinished(0, result.clone()));
    event(&mut app, run_id, EngineEvent::SyncFinished(0, result));
    assert_eq!(app.sync_totals.finished, 1);
    fail(&mut app, run_id, "Sync", "worker failed");
    assert_eq!(app.sync_totals.finished, 2);
    assert_eq!(app.sync_totals.updated, 1);
    assert_eq!(app.sync_totals.failed, 1);
    assert_eq!(app.states[0].label(), "updated");
    let completion = app.completion.as_ref().unwrap();
    assert_eq!(completion.summary, "2/2 repos: 1 updated, 0 skipped, 1 failed");
    let before = app.status.clone();
    complete(&mut app, run_id, 0, SyncKind::Failed);
    event(&mut app, run_id, EngineEvent::SyncFetching(0));
    assert_eq!(app.status, before);
}

#[test]
fn selection_wraps_around() {
    let mut app = app_with_repositories(&["one", "two", "three"]);
    app.previous();
    assert_eq!(app.selected(), Some(2));
    app.next();
    assert_eq!(app.selected(), Some(0));
    app.next();
    assert_eq!(app.selected(), Some(1));
    let mut empty = app_with_repositories(&[]);
    empty.next();
    empty.previous();
    empty.toggle_mark();
    assert_eq!(empty.selected(), None);
}

#[test]
fn marking_twice_removes_the_mark() {
    let mut app = app_with_repositories(&["one", "two"]);
    app.toggle_mark();
    assert!(has_mark(&app, "one"));
    app.next();
    app.toggle_mark();
    app.previous();
    app.toggle_mark();
    assert_eq!(app.marked, vec!["two".to_owned()]);
}

#[test]
fn keys_act_on_the_rows() {
    let mut app = app_with_repositories(&["one", "two"]);
    app.handle_key(Key::Char('j'));
    assert_eq!(app.selected, Some(1));
    app.handle_key(Key::Up);
    assert_eq!(app.selected, Some(0));
    app.handle_key(Key::Char(' '));
    assert!(has_mark(&app, "one"));
    assert!(matches!(app.handle_key(Key::Char('s')), Action::Sync { all: false }));
    assert!(matches!(app.handle_key(Key::Control('S')), Action::Sync { all: true }));
    app.handle_key(Key::Char('?'));
    assert!(matches!(app.mode, Mode::Help));
    app.handle_key(Key::Char('x'));
    assert!(matches!(app.mode, Mode::Help));
    app.handle_key(Key::Char('q'));
    assert!(matches!(app.mode, Mode::Normal));
    assert!(!app.quit);
    app.handle_key(Key::Char('d'));
    assert!(matches!(app.mode, Mode::ConfirmDelete));
    app.handle_key(Key::Char('x'));
    assert!(matches!(app.mode, Mode::ConfirmDelete));
    app.handle_key(Key::Char('n'));
    assert!(matches!(app.mode, Mode::Normal));
    assert!(matches!(app.handle_key(Key::Char('r')), Action::Refresh(_)));
    app.handle_key(Key::Char('a'));
    assert!(matches!(app.mode, Mode::Normal));
    app.handle_key(Key::Control('c'));
    assert!(app.quit_pending && !app.quit);
}

#[test]
fn quit_without_work_is_immediate() {
    let mut app = app_with_repositories(&["one"]);
    app.handle_key(Key::Esc);
    assert!(app.quit);
}

#[test]
fn keys_edit_a_form() {
    let mut app = app_with_repositories(&["one"]);
    app.handle_key(Key::Char('e'));
    let form = |app: &App| match &app.mode {
        Mode::Form(form) => form.clone(),
        other => panic!("{other:?}"),
    };
    assert_eq!(form(&app).title(), " Edit repository ");
    assert_eq!(form(&app).path, "/tmp/one");
    assert_eq!(form(&app).submodules, FormSubmodules::Disabled);
    app.handle_key(Key::Backspace);
    app.handle_key(Key::Char('q'));
    app.handle_key(Key::Control('x'));
    assert_eq!(form(&app).name, "onq");
    app.handle_key(Key::Down);
    app.handle_key(Key::Char('!'));
    assert_eq!(form(&app).path, "/tmp/one!");
    app.handle_key(Key::Tab);
    app.handle_key(Key::Char(' '));
    assert_eq!(form(&app).strategy, Strategy::Merge);
    app.handle_key(Key::Char('x'));
    app.handle_key(Key::Tab);
    app.handle_key(Key::Left);
    assert_eq!(form(&app).submodules, FormSubmodules::Auto);
    app.handle_key(Key::Tab);
    assert_eq!(form(&app).field, 0);
    app.handle_key(Key::BackTab);
    assert_eq!(form(&app).field, 3);
    assert!(matches!(app.handle_key(Key::Enter), Action::Save));
    app.refuse_form(&Failure::of("no"));
    assert_eq!(form(&app).error.as_deref(), Some("no"));
    app.handle_key(Key::Esc);
    assert!(matches!(app.mode, Mode::Normal));
}

#[test]
fn forms_are_checked() {
    let list = vec![repository("one", "/tmp/one"), repository("two", "/tmp/two")];
    let place = RawPath::from_text("/tmp/three");
    let mut form = RepoForm::add();
    let error = |form: &RepoForm, place: &RawPath, is_repository: bool| {
        form.candidate(&list, place.clone(), is_repository, true, None).unwrap_err().full()
    };
    assert_eq!(error(&form, &place, true), "repository name cannot be empty");
    form.name = " three ".to_owned();
    assert_eq!(form.check().unwrap_err().full(), "repository path cannot be empty");
    form.path = " ~/three ".to_owned();
    assert_eq!(form.check().unwrap(), "~/three");
    assert_eq!(error(&form, &place, false), "not a git repository: /tmp/three");
    let added = form.candidate(&list, place.clone(), true, true, None).unwrap();
    assert_eq!(added[2].name, "three");
    assert!(added[2].submodules);
    form.name = "one".to_owned();
    assert_eq!(error(&form, &place, true), "repository name already exists: one");
    form.name = "three".to_owned();
    assert_eq!(
        error(&form, &list[1].path, true),
        "repository path already exists: /tmp/two"
    );
    form.editing_name = Some("gone".to_owned());
    assert_eq!(
        error(&form, &place, true),
        "repository was removed; close this form and reopen the registry entry"
    );
    form.editing_name = Some("two".to_owned());
    let edited = form.candidate(&list, list[1].path.clone(), true, true, None).unwrap();
    assert_eq!(edited.len(), 2);
    assert_eq!(edited[1].name, "three");
}

#[test]
fn rows_have_labels_and_colors() {
    let ready = |inspection: Inspection| RowState::Ready(inspection);
    let updates = ready(Inspection { updates: Some(2), ..Inspection::default() });
    assert_eq!(updates.label(), "yes");
    assert_eq!(updates.style().foreground, Some(Color::Green));
    let dirty = ready(Inspection {
        branch: Some("main".to_owned()),
        compare_ref: Some("origin/main".to_owned()),
        updates: Some(0),
        dirty: true,
        error: None,
    });
    assert_eq!(dirty.style().foreground, Some(Color::Yellow));
    assert_eq!(
        dirty.detail(),
        "branch=main  ·  compare=origin/main  ·  remote updates=0  ·  local dirty"
    );
    assert_eq!(RowState::Idle.style().foreground, Some(Color::Gray));
    assert_eq!(RowState::Planning.style().foreground, Some(Color::Cyan));
    assert_eq!(RowState::Waiting.detail(), "waiting");
    assert_eq!(panic_detail(Some("boom")), "boom");
    assert_eq!(panic_detail(None), "background worker panicked");
}
