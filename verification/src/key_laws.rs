//! What the keys of the interactive interface do, and what follows when work is done.
use crate::batches::{available_are_free, reserved, sync_status};
use crate::config::sorted;
use crate::failure::FailureView;
use crate::form::{add_form, edit_form, edited, FormView, Key};
use crate::git::Settings;
use crate::keys::{
    delete_finished, form_refused, key_action, key_pressed, quit_requested, save_finished,
    ActionView, SaveFailureView,
};
use crate::messages::{
    all_received, errors_in, marked_rows, picked, received, refresh_completed, refresh_failed,
    refresh_refused, refresh_started, requested_rows, startable_rows, sync_started,
};
use crate::model::{InspectionView, RepositoryView};
use crate::rows::RowView;
use crate::text::decimal;
use crate::tui::{
    mark_toggled, members, moved_down, moved_up, pending, started, unmarking, AppView,
    MessageView, ModeView,
};
use vstd::prelude::*;

verus! {

// ---------------------------------------------------------------------------
// Beginning and end
// ---------------------------------------------------------------------------

/// At the beginning every repository is idle, the first one is selected, nothing is marked and
/// nothing runs.
pub proof fn interfaces_begin_idle(
    repositories: Seq<RepositoryView>,
    settings: Settings,
    color_enabled: bool,
)
    requires
        repositories.len() <= usize::MAX,
    ensures
        ({
            let app = started(repositories, settings, color_enabled);
            &&& app.valid()
            &&& app.repositories == repositories
            &&& app.settings == settings
            &&& app.color_enabled == color_enabled
            &&& forall|i: int|
                0 <= i < repositories.len() ==> (#[trigger] app.states[i]) is Idle
            &&& app.selected is Some <==> repositories.len() > 0
            &&& app.selected matches Some(index) ==> index == 0
            &&& app.marked.len() == 0
            &&& !app.busy() && !app.quit && !app.quit_pending
            &&& app.mode is Normal
            &&& app.completion is None
            &&& app.status == "ready"@
            &&& app.run_id == 0
        }),
{
    let app = started(repositories, settings, color_enabled);
    assert(pending(app.batches) == 0);
    assert(members(app.batches) == 0);
}

/// Leaving ends the interface at once where nothing runs. Otherwise it is put off, and said so.
pub proof fn leaving_waits(app: AppView)
    ensures
        app.refresh_run is None && app.batches.len() == 0 ==> quit_requested(app) == (AppView {
            quit: true,
            ..app
        }),
        app.refresh_run is Some || app.batches.len() > 0 ==> quit_requested(app) == (AppView {
            quit_pending: true,
            status: "Will quit when all active Git operations finish"@,
            ..app
        }),
{
}

/// The control key and `c` leave from everywhere.
pub proof fn interrupts_leave(app: AppView)
    requires
        !app.quit && !app.quit_pending,
    ensures
        key_pressed(app, Key::Control('c')) == quit_requested(app),
        key_action(app, Key::Control('c')) is Nothing,
{
}

// ---------------------------------------------------------------------------
// Rows
// ---------------------------------------------------------------------------

/// Whether keys act on the rows.
pub open spec fn on_the_rows(app: AppView) -> bool {
    !app.quit && !app.quit_pending && app.mode is Normal
}

/// On the rows, `q` and escape leave; arrows, `j` and `k` move; the blank marks; `?` helps.
pub proof fn row_keys_move_and_mark(app: AppView)
    requires
        on_the_rows(app),
    ensures
        key_pressed(app, Key::Char('q')) == quit_requested(app),
        key_pressed(app, Key::Esc) == quit_requested(app),
        key_pressed(app, Key::Down) == key_pressed(app, Key::Char('j')),
        key_pressed(app, Key::Up) == key_pressed(app, Key::Char('k')),
        key_pressed(app, Key::Down) == moved_down(app),
        key_pressed(app, Key::Up) == moved_up(app),
        key_pressed(app, Key::Char(' ')) == mark_toggled(app),
        key_pressed(app, Key::Char('?')) == (AppView { mode: ModeView::Help, ..app }),
{
}

/// Moving goes to the next or the previous row, round at the ends, and changes nothing else.
pub proof fn moves_go_to_the_neighbour(app: AppView, index: usize)
    requires
        app.rows_fit(),
        app.selected == Some(index),
        app.repositories.len() <= usize::MAX,
    ensures
        moved_down(app) == (AppView { selected: moved_down(app).selected, ..app }),
        moved_up(app) == (AppView { selected: moved_up(app).selected, ..app }),
        index + 1 < app.repositories.len() ==> moved_down(app).selected == Some(
            (index + 1) as usize,
        ),
        index + 1 == app.repositories.len() ==> moved_down(app).selected == Some(0usize),
        index > 0 ==> moved_up(app).selected == Some((index - 1) as usize),
        index == 0 ==> moved_up(app).selected == Some((app.repositories.len() - 1) as usize),
{
}

/// The mark of the selected repository, and of no other, is set or taken away.
pub proof fn marks_are_set(app: AppView, index: usize)
    requires
        app.valid(),
        app.selected == Some(index),
    ensures
        ({
            let name = app.repositories[index as int].name;
            let after = mark_toggled(app);
            &&& after.marked.contains(name) <==> !app.marked.contains(name)
            &&& forall|other: Seq<char>|
                other != name ==> (#[trigger] after.marked.contains(other) <==> app.marked.contains(
                    other,
                ))
            &&& after == (AppView { marked: after.marked, ..app })
        }),
{
    let name = app.repositories[index as int].name;
    unmarking(app.marked, name);
    let after = mark_toggled(app);
    if !app.marked.contains(name) {
        assert(after.marked[app.marked.len() as int] == name);
        assert forall|other: Seq<char>| other != name implies (#[trigger] after.marked.contains(
            other,
        ) <==> app.marked.contains(other)) by {
            if app.marked.contains(other) {
                let i = choose|i: int| 0 <= i < app.marked.len() && app.marked[i] == other;
                assert(after.marked[i] == other);
            }
            if after.marked.contains(other) {
                let i = choose|i: int| 0 <= i < after.marked.len() && after.marked[i] == other;
                assert(app.marked[i] == other);
            }
        }
    }
}

/// On the rows, `s` synchronizes what is marked or selected, `S` all, `r` refreshes with a fetch.
/// No other key starts anything.
pub proof fn row_keys_start_work(app: AppView, key: Key)
    requires
        on_the_rows(app),
    ensures
        key_action(app, Key::Char('s')) == (ActionView::Sync { all: false }),
        key_action(app, Key::Char('S')) == (ActionView::Sync { all: true }),
        key_pressed(app, Key::Char('s')) == app,
        key_pressed(app, Key::Char('S')) == app,
        app.refresh_run is None && app.batches.len() == 0 && app.run_id < u64::MAX ==> key_action(
            app,
            Key::Char('r'),
        ) == (ActionView::Refresh {
            run_id: (app.run_id + 1) as u64,
            refresh: true,
            repositories: app.repositories,
        }),
        app.refresh_run is Some || app.batches.len() > 0 ==> key_action(
            app,
            Key::Char('r'),
        ) is Nothing,
        key_pressed(app, Key::Char('r')) == refresh_started(app, true),
        key != Key::Char('s') && key != Key::Char('S') && key != Key::Char('r') && !(key
            is Control) ==> key_action(app, key) is Nothing,
{
}

/// On the rows, `a` opens an empty form, `e` a form on the selected repository, and `d` asks
/// before it is removed; none of them while anything runs. Nothing is shown of an earlier end
/// then.
pub proof fn row_keys_open_windows(app: AppView)
    requires
        on_the_rows(app),
    ensures
        ({
            let idle = app.refresh_run is None && app.batches.len() == 0;
            &&& !idle ==> key_pressed(app, Key::Char('a')) == app && key_pressed(
                app,
                Key::Char('e'),
            ) == app && key_pressed(app, Key::Char('d')) == app
            &&& idle ==> key_pressed(app, Key::Char('a')) == (AppView {
                completion: None,
                mode: ModeView::Form(add_form()),
                ..app
            })
            &&& idle ==> (app.selected matches Some(index) ==> key_pressed(app, Key::Char('e'))
                == (AppView {
                completion: None,
                mode: ModeView::Form(edit_form(app.repositories[index as int])),
                ..app
            }))
            &&& idle && app.selected is Some ==> key_pressed(app, Key::Char('d')) == (AppView {
                completion: None,
                mode: ModeView::ConfirmDelete,
                ..app
            })
            &&& idle && app.selected is None ==> key_pressed(app, Key::Char('d')) == app
                && !(key_pressed(app, Key::Char('e')).mode is Form)
        }),
{
}

/// With the control key a key on the rows does what it does without, but for `c`. Keys without a
/// meaning do nothing.
pub proof fn other_row_keys_do_nothing(app: AppView, c: char)
    requires
        on_the_rows(app),
    ensures
        c != 'c' ==> key_pressed(app, Key::Control(c)) == key_pressed(app, Key::Char(c)),
        c != 'c' ==> key_action(app, Key::Control(c)) == key_action(app, Key::Char(c)),
        c != 'q' && c != 'j' && c != 'k' && c != ' ' && c != 'r' && c != 'a' && c != 'e' && c
            != 'd' && c != '?' ==> key_pressed(app, Key::Char(c)) == app,
        key_pressed(app, Key::Enter) == app,
        key_pressed(app, Key::Tab) == app,
        key_pressed(app, Key::BackTab) == app,
        key_pressed(app, Key::Left) == app,
        key_pressed(app, Key::Right) == app,
        key_pressed(app, Key::Backspace) == app,
        key_pressed(app, Key::Other) == app,
{
}

// ---------------------------------------------------------------------------
// Windows
// ---------------------------------------------------------------------------

/// Help is closed by `?`, `q` and escape, and by nothing else.
pub proof fn help_is_closed(app: AppView, key: Key)
    requires
        !app.quit && !app.quit_pending,
        app.mode is Help,
        key != Key::Control('c'),
    ensures
        key_action(app, key) is Nothing,
        key == Key::Char('?') || key == Key::Char('q') || key == Key::Esc ==> key_pressed(
            app,
            key,
        ) == (AppView { mode: ModeView::Normal, ..app }),
        !(key is Control) && key != Key::Char('?') && key != Key::Char('q') && key != Key::Esc
            ==> key_pressed(app, key) == app,
{
}

/// The question before a removal is answered with `y` or enter, which ask for a list without the
/// selected repository, or with `n` or escape, which ask for nothing. Other keys leave it open.
pub proof fn removals_are_confirmed(app: AppView, key: Key, index: usize)
    requires
        app.valid(),
        !app.quit && !app.quit_pending,
        app.mode is ConfirmDelete,
        app.selected == Some(index),
        !(key is Control),
    ensures
        key == Key::Char('y') || key == Key::Enter ==> key_action(app, key) == ActionView::Delete(
            app.repositories.take(index as int) + app.repositories.skip(index + 1),
        ),
        key != Key::Char('y') && key != Key::Enter ==> key_action(app, key) is Nothing,
        key == Key::Char('y') || key == Key::Enter || key == Key::Char('n') || key == Key::Esc
            ==> key_pressed(app, key) == (AppView { mode: ModeView::Normal, ..app }),
        key != Key::Char('y') && key != Key::Enter && key != Key::Char('n') && key != Key::Esc
            ==> key_pressed(app, key) == app,
{
    assert(app.repositories.remove(index as int) =~= app.repositories.take(index as int)
        + app.repositories.skip(index + 1));
}

/// A form is saved with enter and closed without a change with escape; every other key edits it.
pub proof fn forms_take_the_keys(app: AppView, form: FormView, key: Key)
    requires
        !app.quit && !app.quit_pending,
        app.mode == ModeView::Form(form),
        key != Key::Control('c'),
    ensures
        key == Key::Enter ==> key_action(app, key) is Save && key_pressed(app, key) == app,
        key != Key::Enter ==> key_action(app, key) is Nothing,
        key == Key::Esc ==> key_pressed(app, key) == (AppView { mode: ModeView::Normal, ..app }),
        key != Key::Enter && key != Key::Esc ==> key_pressed(app, key) == (AppView {
            mode: ModeView::Form(edited(form, key)),
            ..app
        }),
{
}

// ---------------------------------------------------------------------------
// Registry
// ---------------------------------------------------------------------------

/// A removal that was saved takes the selected repository out, with its row and its mark, and
/// selects the one in its place, or the last one.
pub proof fn saved_removals_take_effect(app: AppView, index: usize)
    requires
        app.valid(),
        app.selected == Some(index),
    ensures
        ({
            let after = delete_finished(app, Ok(()));
            let name = app.repositories[index as int].name;
            let at = index as int;
            &&& after.repositories == app.repositories.take(at) + app.repositories.skip(at + 1)
            &&& after.states == app.states.take(at) + app.states.skip(at + 1)
            &&& !after.marked.contains(name)
            &&& forall|other: Seq<char>|
                other != name ==> (#[trigger] after.marked.contains(other) <==> app.marked.contains(
                    other,
                ))
            &&& after.repositories.len() == 0 ==> after.selected is None
            &&& after.repositories.len() > 0 ==> after.selected == Some(
                if index < after.repositories.len() {
                    index
                } else {
                    (after.repositories.len() - 1) as usize
                },
            )
            &&& after.mode is Normal
            &&& after.status == "Removed "@ + name + " from the registry"@
        }),
{
    let at = index as int;
    unmarking(app.marked, app.repositories[at].name);
    assert(app.repositories.remove(at) =~= app.repositories.take(at) + app.repositories.skip(
        at + 1,
    ));
    assert(app.states.remove(at) =~= app.states.take(at) + app.states.skip(at + 1));
}

/// Whether a state shows a list afresh: all idle, nothing marked, the first one selected.
pub open spec fn shows_afresh(app: AppView, list: Seq<RepositoryView>) -> bool {
    &&& app.repositories == list
    &&& app.states.len() == list.len()
    &&& forall|i: int| 0 <= i < list.len() ==> (#[trigger] app.states[i]) is Idle
    &&& app.marked.len() == 0
    &&& app.selected is Some <==> list.len() > 0
    &&& app.selected matches Some(index) ==> index == 0
}

/// Where a removal could not be saved, the list that the file holds is shown afresh, and said to
/// be; where it cannot be read either, the list stays. The reason is told.
pub proof fn failed_removals_reload(
    app: AppView,
    failure: FailureView,
    list: Seq<RepositoryView>,
    other: FailureView,
)
    ensures
        ({
            let after = delete_finished(
                app,
                Err(SaveFailureView { failure, reloaded: Ok(list) }),
            );
            &&& shows_afresh(after, list)
            &&& after.mode is Normal
            &&& after.status == "Cannot remove repository: "@ + failure.full_text()
                + "; registry reloaded; review changes before retrying"@
        }),
        ({
            let after = delete_finished(
                app,
                Err(SaveFailureView { failure, reloaded: Err(other) }),
            );
            &&& after.repositories == app.repositories
            &&& after.states == app.states
            &&& after.marked == app.marked
            &&& after.selected == app.selected
            &&& after.mode is Normal
            &&& after.status == "Cannot remove repository: "@ + failure.full_text()
                + ("; cannot reload registry: "@ + other.full_text())
        }),
{
}

/// A form that was saved is closed, and the saved list is shown afresh in the order of the names.
/// Where it could not be saved it stays open with the reason, over the list that the file holds.
pub proof fn saved_forms_are_closed(
    app: AppView,
    form: FormView,
    candidate: Seq<RepositoryView>,
    failure: FailureView,
    list: Seq<RepositoryView>,
    other: FailureView,
)
    requires
        app.mode == ModeView::Form(form),
    ensures
        ({
            let after = save_finished(app, candidate, Ok(()));
            &&& shows_afresh(after, sorted(candidate))
            &&& after.mode is Normal
            &&& after.status == "Registry saved"@
        }),
        ({
            let after = save_finished(
                app,
                candidate,
                Err(SaveFailureView { failure, reloaded: Ok(list) }),
            );
            &&& shows_afresh(after, list)
            &&& after.mode == ModeView::Form(
                FormView {
                    error: Some(
                        failure.full_text()
                            + "; registry reloaded; review changes before retrying"@,
                    ),
                    ..form
                },
            )
        }),
        ({
            let after = save_finished(
                app,
                candidate,
                Err(SaveFailureView { failure, reloaded: Err(other) }),
            );
            &&& after.repositories == app.repositories
            &&& after.states == app.states
            &&& after.mode == ModeView::Form(
                FormView {
                    error: Some(
                        failure.full_text() + ("; cannot reload registry: "@ + other.full_text()),
                    ),
                    ..form
                },
            )
        }),
{
}

/// A form that is refused stays open, shows the reason and keeps what was typed.
pub proof fn refused_forms_stay_open(app: AppView, form: FormView, text: Seq<char>)
    requires
        app.mode == ModeView::Form(form),
    ensures
        form_refused(app, text) == (AppView {
            mode: ModeView::Form(FormView { error: Some(text), ..form }),
            ..app
        }),
{
}

// ---------------------------------------------------------------------------
// Refreshing
// ---------------------------------------------------------------------------

/// A refresh that starts has a number of its own, and every repository waits for it.
pub proof fn refreshes_start_waiting(app: AppView, refresh: bool)
    requires
        app.valid(),
        !app.quit && !app.quit_pending,
        app.run_id < u64::MAX,
    ensures
        ({
            let after = refresh_started(app, refresh);
            let idle = app.refresh_run is None && app.batches.len() == 0;
            &&& !idle ==> after == (AppView { status: "An operation is already running"@, ..app })
            &&& idle ==> {
                &&& after.run_id == app.run_id + 1
                &&& after.refresh_run == Some(after.run_id)
                &&& after.states.len() == app.states.len()
                &&& forall|i: int|
                    0 <= i < app.states.len() ==> (#[trigger] after.states[i]) is Queued
                &&& after.completion is None
                &&& after.status == if refresh {
                    "Refreshing remote state…"@
                } else {
                    "Reading local tracking state…"@
                }
                &&& after.repositories == app.repositories && after.marked == app.marked
                &&& after.selected == app.selected && after.totals == app.totals
                &&& after.mode == app.mode
            }
        }),
{
}

/// A refresh that ended shows what was found of every repository, and tells how many were
/// checked and how many ended with an error. It is an error where any did.
pub proof fn refreshes_show_what_was_found(app: AppView, results: Seq<InspectionView>)
    ensures
        ({
            let after = refresh_completed(app, results);
            let errors = results.filter(|found: InspectionView| found.error is Some).len();
            &&& after.states.len() == results.len()
            &&& forall|i: int|
                0 <= i < results.len() ==> #[trigger] after.states[i] == RowView::Ready(results[i])
            &&& after.refresh_run is None
            &&& after.status == "Refresh complete"@
            &&& after.completion is Some
            &&& after.completion->0.failed == (errors > 0)
            &&& after.completion->0.title == if errors > 0 {
                "REFRESH ENDED WITH ERRORS"@
            } else {
                "REFRESH COMPLETE"@
            }
            &&& after.completion->0.summary == decimal(app.repositories.len())
                + " repos checked, "@ + decimal(errors) + " failed"@
            &&& app.batches.len() == 0 && app.quit_pending ==> after.quit
            &&& after.repositories == app.repositories && after.marked == app.marked
            &&& after.selected == app.selected && after.batches == app.batches
        }),
{
    errors_are_filtered(results);
}

proof fn errors_are_filtered(results: Seq<InspectionView>)
    ensures
        errors_in(results) == results.filter(
            |found: InspectionView| found.error is Some,
        ).len(),
    decreases results.len(),
{
    reveal(Seq::filter);
    if results.len() > 0 {
        errors_are_filtered(results.drop_last());
    }
}

/// A refresh that failed as a whole frees the rows that waited for it, keeps the others, and
/// tells why.
pub proof fn failed_refreshes_free_the_rows(
    app: AppView,
    operation: Seq<char>,
    detail: Seq<char>,
    error: Seq<char>,
    row: int,
)
    requires
        0 <= row < app.states.len(),
    ensures
        ({
            let after = refresh_failed(app, operation, detail);
            &&& after.states.len() == app.states.len()
            &&& app.states[row] is Queued || app.states[row] is Checking
                ==> after.states[row] is Idle
            &&& !(app.states[row] is Queued) && !(app.states[row] is Checking)
                ==> after.states[row] == app.states[row]
            &&& after.refresh_run is None
            &&& after.status == operation + " failed: "@ + detail
            &&& after.completion is Some
            &&& after.completion->0.failed
            &&& after.completion->0.title == "REFRESH FAILED"@
            &&& after.completion->0.summary == detail
        }),
        ({
            let after = refresh_refused(app, error);
            &&& after.states.len() == app.states.len()
            &&& after.states[row] is Idle
            &&& after.refresh_run is None
            &&& after.status == "Cannot start background worker: "@ + error
        }),
{
}

// ---------------------------------------------------------------------------
// Synchronizing
// ---------------------------------------------------------------------------

/// All repositories are requested, or those marked, or, without a mark, the selected one.
pub proof fn requests_are_all_marked_or_selected(app: AppView, all: bool, row: usize)
    requires
        app.rows_fit(),
        app.repositories.len() <= usize::MAX,
    ensures
        requested_rows(app, all).contains(row) <==> {
            &&& row < app.repositories.len()
            &&& all || if app.marked.len() > 0 {
                app.marked.contains(app.repositories[row as int].name)
            } else {
                app.selected == Some(row)
            }
        },
{
    if all {
        if row < app.repositories.len() {
            assert(requested_rows(app, all)[row as int] == row);
        }
    } else if app.marked.len() > 0 {
        marked_are_requested(app, app.repositories.len(), row);
    } else if app.selected is Some {
        assert(requested_rows(app, all)[0] == app.selected->0);
    }
}

proof fn marked_are_requested(app: AppView, count: nat, row: usize)
    requires
        count <= app.repositories.len() <= usize::MAX,
    ensures
        marked_rows(app.repositories, app.marked, count).contains(row) <==> row
            < count && app.marked.contains(app.repositories[row as int].name),
    decreases count,
{
    if count > 0 {
        let before = (count - 1) as nat;
        marked_are_requested(app, before, row);
        let front = marked_rows(app.repositories, app.marked, before);
        let rows = marked_rows(app.repositories, app.marked, count);
        if app.marked.contains(app.repositories[count - 1].name) {
            assert(rows[front.len() as int] == before);
            if front.contains(row) {
                let i = choose|i: int| 0 <= i < front.len() && front[i] == row;
                assert(rows[i] == row);
            }
            if rows.contains(row) && row != before {
                let i = choose|i: int| 0 <= i < rows.len() && rows[i] == row;
                assert(front[i] == row);
            }
        }
    }
}

/// A synchronization starts a batch of the requested repositories that are free, as soon as there
/// is any, and tells how many are not. Otherwise it tells why there is none, and changes nothing
/// else.
pub proof fn synchronizations_start(app: AppView, all: bool, keys: Seq<Seq<u8>>)
    requires
        app.valid(),
        !app.quit && !app.quit_pending,
    ensures
        ({
            let after = sync_started(app, all, keys);
            let requested = requested_rows(app, all);
            let free = startable_rows(app, all, keys);
            &&& app.refresh_run is Some ==> after == (AppView {
                status: "Wait for refresh to finish before syncing"@,
                ..app
            })
            &&& app.refresh_run is None && requested.len() == 0 ==> after == (AppView {
                status: "No repositories selected"@,
                ..app
            })
            &&& app.refresh_run is None && requested.len() > 0 && free.len() == 0 ==> after == (
            AppView { status: "Selected repositories are already syncing"@, ..app })
            &&& app.refresh_run is None && requested.len() > 0 && free.len() > 0 ==> {
                let batch = reserved(app, free, keys);
                let status = sync_status(batch);
                &&& after == (AppView { status: after.status, ..batch })
                &&& after.status == if requested.len() > free.len() {
                    status + ("; "@ + decimal((requested.len() - free.len()) as nat)
                        + " already syncing"@)
                } else {
                    status
                }
            }
        }),
{
    available_are_free(requested_rows(app, all), keys, app.active);
}

/// What is meant for the refresh under way ends it; what is meant for another run does not.
pub proof fn messages_reach_their_run(
    app: AppView,
    run_id: u64,
    results: Seq<InspectionView>,
    operation: Seq<char>,
    detail: Seq<char>,
)
    requires
        app.refresh_run == Some(run_id),
    ensures
        received(app, MessageView::InspectionComplete { run_id, results }) == refresh_completed(
            app,
            results,
        ),
        received(app, MessageView::OperationFailed { run_id, operation, detail })
            == refresh_failed(app, operation, detail),
        received(
            app,
            MessageView::InspectionComplete { run_id: (run_id + 1) as u64, results },
        ) == app || run_id == u64::MAX,
{
    reveal(received);
}

/// The run that starts with a batch is about the repositories of the batch, in their places.
pub proof fn runs_are_about_their_batch(app: AppView, all: bool, keys: Seq<Seq<u8>>, k: int)
    requires
        app.valid(),
        startable_rows(app, all, keys).len() > 0,
        0 <= k < startable_rows(app, all, keys).len(),
    ensures
        ({
            let after = sync_started(app, all, keys);
            let run = picked(app.repositories, startable_rows(app, all, keys));
            let batch = after.batches.last();
            &&& after.batches.len() == app.batches.len() + 1
            &&& batch.run_id == after.run_id
            &&& run.len() == batch.indices.len()
            &&& run[k] == app.repositories[batch.indices[k] as int]
        }),
{
    available_are_free(requested_rows(app, all), keys, app.active);
}

/// Messages are received in turn: those that come later find what the earlier ones left.
pub proof fn messages_are_received_in_turn(
    app: AppView,
    first: Seq<MessageView>,
    then: Seq<MessageView>,
    one: MessageView,
)
    ensures
        all_received(app, first + then, first.len() + then.len()) == all_received(
            all_received(app, first, first.len()),
            then,
            then.len(),
        ),
        all_received(app, seq![one], 1) == received(app, one),
{
    reveal_with_fuel(all_received, 2);
    later_messages(app, first, then, then.len());
}

proof fn later_messages(
    app: AppView,
    first: Seq<MessageView>,
    then: Seq<MessageView>,
    count: nat,
)
    requires
        count <= then.len(),
    ensures
        all_received(app, first + then, first.len() + count) == all_received(
            all_received(app, first, first.len()),
            then,
            count,
        ),
    decreases count,
{
    if count == 0 {
        earlier_messages(app, first, then, first.len());
    } else {
        later_messages(app, first, then, (count - 1) as nat);
        assert((first + then)[first.len() + count - 1] == then[count - 1]);
    }
}

proof fn earlier_messages(
    app: AppView,
    first: Seq<MessageView>,
    then: Seq<MessageView>,
    count: nat,
)
    requires
        count <= first.len(),
    ensures
        all_received(app, first + then, count) == all_received(app, first, count),
    decreases count,
{
    if count > 0 {
        earlier_messages(app, first, then, (count - 1) as nat);
        assert((first + then)[count - 1] == first[count - 1]);
    }
}

} // verus!
