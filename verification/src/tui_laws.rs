//! What holds of the interactive interface, whatever happens in the background.
use crate::batches::{
    available, available_are_free, batch_completed, batch_failed, batch_keys, batch_of,
    failures_kept, find_batch_facts, is_active, listed, locked, recorded, released, reserved,
    results_kept, unlocked, unmarked_all,
};
use crate::form::Key;
use crate::keys::{key_action, key_pressed, quit_requested, ActionView};
use crate::messages::{
    can_refresh, on_rows, received, refresh_started, requested_rows, startable_rows,
    sync_started,
};
use crate::model::{RepositoryView, SyncKind, SyncResultView};
use crate::path::same_path;
use crate::rows::RowView;
use crate::tui::{
    held, mark_toggled, moved_down, moved_up, unmarked, unmarking, AppView, BatchView,
    MessageView,
};
use vstd::prelude::*;

verus! {

/// Once the end was asked for, keys do nothing and no work starts.
pub proof fn pending_quit_rejects_everything(
    app: AppView,
    key: Key,
    refresh: bool,
    all: bool,
    keys: Seq<Seq<u8>>,
)
    requires
        app.quit_pending || app.quit,
    ensures
        key_pressed(app, key) == app,
        key_action(app, key) == ActionView::Nothing,
        refresh_started(app, refresh) == app,
        !can_refresh(app),
        sync_started(app, all, keys) == app,
        startable_rows(app, all, keys).len() == 0,
{
}

/// An end that was asked for comes exactly when nothing runs any more.
pub proof fn pending_quit_ends_with_the_work(app: AppView)
    requires
        app.valid(),
        app.quit_pending,
    ensures
        app.quit <==> !app.busy(),
{
}

/// The end waits for work under way, and comes at once without any.
pub proof fn quit_waits_for_work(app: AppView)
    ensures
        app.busy() ==> quit_requested(app).quit_pending && quit_requested(app).quit == app.quit,
        !app.busy() ==> quit_requested(app).quit,
{
}

/// A refresh does not start beside other work, nor other work beside a refresh: only the
/// status changes.
pub proof fn refresh_runs_alone(app: AppView, refresh: bool, all: bool, keys: Seq<Seq<u8>>)
    ensures
        app.busy() ==> !can_refresh(app) && refresh_started(app, refresh) == (AppView {
            status: refresh_started(app, refresh).status,
            ..app
        }),
        app.refresh_run is Some ==> startable_rows(app, all, keys).len() == 0 && sync_started(
            app,
            all,
            keys,
        ) == (AppView { status: sync_started(app, all, keys).status, ..app }),
{
}

/// Neither a form nor the question before a removal opens while work is under way.
pub proof fn forms_wait_for_work(app: AppView, key: Key)
    requires
        app.busy(),
        on_rows(app),
    ensures
        on_rows(key_pressed(app, key)),
        key_pressed(app, key).repositories == app.repositories,
{
}

proof fn locked_keeps_active(
    active: Seq<(Seq<u8>, u64)>,
    keys: Seq<Seq<u8>>,
    run_id: u64,
    key: Seq<u8>,
)
    requires
        is_active(active, key) || exists|k: int|
            0 <= k < keys.len() && same_path(#[trigger] keys[k], key),
    ensures
        is_active(locked(active, keys, run_id), key),
    decreases keys.len(),
{
    if keys.len() > 0 {
        let part = keys.drop_last();
        let before = locked(active, part, run_id);
        let after = locked(active, keys, run_id);
        if is_active(active, key) || exists|k: int|
            0 <= k < part.len() && same_path(#[trigger] part[k], key) {
            locked_keeps_active(active, part, run_id, key);
            let i = choose|i: int| 0 <= i < before.len() && same_path((#[trigger] before[i]).0, key);
            assert(after[i].0 == before[i].0);
        } else {
            let k = choose|k: int| 0 <= k < keys.len() && same_path(#[trigger] keys[k], key);
            if k < part.len() {
                assert(part[k] == keys[k]);
            }
            assert(same_path(keys.last(), key));
            if is_active(before, keys.last()) {
                let i = choose|i: int|
                    0 <= i < before.len() && same_path((#[trigger] before[i]).0, keys.last());
                assert(after[i].0 == before[i].0);
            } else {
                assert(after[before.len() as int].0 == keys.last());
            }
        }
    }
}

proof fn nothing_available(requested: Seq<usize>, keys: Seq<Seq<u8>>, active: Seq<(Seq<u8>, u64)>)
    requires
        forall|k: int|
            0 <= k < requested.len() ==> is_active(active, keys[(#[trigger] requested[k]) as int]),
    ensures
        available(requested, keys, active).len() == 0,
    decreases requested.len(),
{
    if requested.len() > 0 {
        let part = requested.drop_last();
        assert forall|k: int| 0 <= k < part.len() implies is_active(
            active,
            keys[(#[trigger] part[k]) as int],
        ) by {
            assert(part[k] == requested[k]);
        }
        nothing_available(part, keys, active);
        assert(requested[requested.len() - 1] == requested.last());
    }
}

/// Repositories of a batch under way are not started again.
pub proof fn running_repositories_are_not_started_again(
    app: AppView,
    indices: Seq<usize>,
    keys: Seq<Seq<u8>>,
)
    ensures
        available(indices, keys, reserved(app, indices, keys).active).len() == 0,
{
    let after = reserved(app, indices, keys);
    let own = batch_keys(keys, indices);
    assert forall|k: int| 0 <= k < indices.len() implies is_active(
        after.active,
        keys[(#[trigger] indices[k]) as int],
    ) by {
        assert(own[k] == keys[indices[k] as int]);
        assert(same_path(own[k], keys[indices[k] as int]));
        locked_keeps_active(app.active, own, after.run_id, keys[indices[k] as int]);
    }
    nothing_available(indices, keys, after.active);
}

proof fn unlocked_members(active: Seq<(Seq<u8>, u64)>, batch: BatchView, k: int)
    requires
        0 <= k < unlocked(active, batch).len(),
    ensures
        active.contains(unlocked(active, batch)[k]),
        !(unlocked(active, batch)[k].1 == batch.run_id && batch.holds(
            unlocked(active, batch)[k].0,
        )),
    decreases active.len(),
{
    if active.len() > 0 {
        let part = active.drop_last();
        let front = unlocked(part, batch);
        if k < front.len() {
            unlocked_members(part, batch, k);
            let i = choose|i: int| 0 <= i < part.len() && part[i] == front[k];
            assert(active[i] == unlocked(active, batch)[k]);
        } else {
            assert(active[active.len() - 1] == unlocked(active, batch)[k]);
        }
    }
}

/// A batch that ended holds no path any more.
pub proof fn ended_batch_holds_no_path(app: AppView, b: int)
    requires
        app.sound(),
        0 <= b < app.batches.len(),
    ensures
        forall|i: int|
            0 <= i < released(app, b).active.len() ==> (#[trigger] released(app, b).active[i]).1
                != app.batches[b].run_id,
{
    let after = released(app, b);
    assert forall|i: int| 0 <= i < after.active.len() implies (#[trigger] after.active[i]).1
        != app.batches[b].run_id by {
        unlocked_members(app.active, app.batches[b], i);
        let entry = after.active[i];
        let j = choose|j: int| 0 <= j < app.active.len() && app.active[j] == entry;
        assert(held(app.active[j], app.batches));
        let c = choose|c: int|
            0 <= c < app.batches.len() && (#[trigger] app.batches[c]).run_id == entry.1
                && app.batches[c].holds(entry.0);
        if c != b && entry.1 == app.batches[b].run_id {
            if c < b {
                assert(app.batches[c].run_id < app.batches[b].run_id);
            } else {
                assert(app.batches[b].run_id < app.batches[c].run_id);
            }
        }
    }
}

/// A batch takes the marks of its own repositories away, and no others.
pub proof fn other_marks_stay(
    marked: Seq<Seq<char>>,
    repositories: Seq<RepositoryView>,
    indices: Seq<usize>,
    name: Seq<char>,
)
    ensures
        unmarked_all(marked, repositories, indices).contains(name) <==> marked.contains(name)
            && forall|k: int|
            0 <= k < indices.len() ==> repositories[(#[trigger] indices[k]) as int].name != name,
    decreases indices.len(),
{
    if indices.len() > 0 {
        let part = indices.drop_last();
        other_marks_stay(marked, repositories, part, name);
        unmarking(
            unmarked_all(marked, repositories, part),
            repositories[indices.last() as int].name,
        );
        assert(indices[indices.len() - 1] == indices.last());
        assert forall|k: int| 0 <= k < part.len() implies part[k] == indices[k] by {}
        if forall|k: int|
            0 <= k < part.len() ==> repositories[(#[trigger] part[k]) as int].name != name {
            assert forall|k: int| 0 <= k < part.len() implies repositories[(
            #[trigger] indices[k]) as int].name != name by {
                assert(part[k] == indices[k]);
            }
        } else {
            let k = choose|k: int|
                0 <= k < part.len() && repositories[(#[trigger] part[k]) as int].name == name;
            assert(repositories[indices[k] as int].name == name);
        }
    }
}

/// Marking twice leaves every mark as it was.
pub proof fn marking_twice_changes_nothing(app: AppView, name: Seq<char>)
    ensures
        mark_toggled(mark_toggled(app)).marked.contains(name) == app.marked.contains(name),
{
    if let Some(index) = app.selected {
        let own = app.repositories[index as int].name;
        unmarking(app.marked, own);
        let once = mark_toggled(app).marked;
        unmarking(once, own);
        if app.marked.contains(own) {
            assert(!once.contains(own));
            let twice = once.push(own);
            assert(twice[once.len() as int] == own);
            if name != own {
                assert(once.contains(name) == app.marked.contains(name));
                if once.contains(name) {
                    let i = choose|i: int| 0 <= i < once.len() && once[i] == name;
                    assert(twice[i] == name);
                }
                if twice.contains(name) {
                    let i = choose|i: int| 0 <= i < twice.len() && twice[i] == name;
                    assert(once[i] == name);
                }
            }
        } else {
            assert(once == app.marked.push(own));
            assert(once[app.marked.len() as int] == own);
            if name != own {
                assert(unmarked(once, own).contains(name) == once.contains(name));
                if app.marked.contains(name) {
                    let i = choose|i: int| 0 <= i < app.marked.len() && app.marked[i] == name;
                    assert(once[i] == name);
                }
                if once.contains(name) {
                    let i = choose|i: int| 0 <= i < once.len() && once[i] == name;
                    assert(app.marked[i] == name);
                }
            }
        }
    }
}

/// Moving up undoes moving down, and the other way round.
pub proof fn moves_undo_each_other(app: AppView)
    requires
        app.rows_fit(),
        app.repositories.len() <= usize::MAX,
    ensures
        moved_up(moved_down(app)) == app,
        moved_down(moved_up(app)) == app,
{
}

/// A second result at the same place is not counted.
pub proof fn results_count_once(
    app: AppView,
    b: int,
    relative: int,
    kind: SyncKind,
    again: SyncKind,
)
    requires
        0 <= b < app.batches.len(),
        0 <= relative < app.batches[b].completed.len(),
    ensures
        recorded(recorded(app, b, relative, kind), b, relative, again) == recorded(
            app,
            b,
            relative,
            kind,
        ),
{
}

/// Messages of runs that are over change nothing.
pub proof fn stale_messages_are_ignored(app: AppView, message: MessageView)
    requires
        batch_of(app, message_run(message)) is None,
        app.refresh_run != Some(message_run(message)),
    ensures
        received(app, message) == app,
{
    reveal(received);
}

/// The run that a message belongs to.
pub open spec fn message_run(message: MessageView) -> u64 {
    match message {
        MessageView::Engine { run_id, .. } => run_id,
        MessageView::InspectionComplete { run_id, .. } => run_id,
        MessageView::SyncComplete { run_id, .. } => run_id,
        MessageView::OperationFailed { run_id, .. } => run_id,
    }
}

/// The end of one batch is shown as the end of all only where no other runs.
pub proof fn completion_waits_for_every_batch(app: AppView)
    requires
        app.valid(),
        app.completion is Some,
    ensures
        app.batches.len() == 0,
        app.refresh_run is None,
{
}

proof fn kept_elsewhere(
    app: AppView,
    b: int,
    results: Seq<SyncResultView>,
    detail: Seq<char>,
    count: nat,
)
    requires
        0 <= b < app.batches.len(),
        count <= app.batches[b].indices.len(),
        app.rows_fit(),
        app.batches[b].fits(app.repositories.len()),
    ensures
        elsewhere(app, results_kept(app, b, results, count), b),
        elsewhere(app, failures_kept(app, b, detail, count), b),
    decreases count,
{
    if count > 0 {
        kept_elsewhere(app, b, results, detail, (count - 1) as nat);
        let index = app.batches[b].indices[count - 1] as int;
        assert(listed(app.batches[b].indices, index));
        assert(index < app.states.len());
    }
}

/// Whether another state differs only in a batch, its rows and the counts.
pub open spec fn elsewhere(app: AppView, after: AppView, b: int) -> bool {
    &&& after.states.len() == app.states.len()
    &&& after.batches.len() == app.batches.len()
    &&& after.batches[b].run_id == app.batches[b].run_id
    &&& forall|row: int|
        0 <= row < app.states.len() && !listed(app.batches[b].indices, row)
            ==> #[trigger] after.states[row] == app.states[row]
    &&& forall|c: int|
        0 <= c < app.batches.len() && c != b ==> #[trigger] after.batches[c] == app.batches[c]
}

/// The end of a batch, with results or without, leaves the other batches alone, and the rows
/// of other repositories.
pub proof fn other_batches_go_on(
    app: AppView,
    run_id: u64,
    results: Seq<SyncResultView>,
    detail: Seq<char>,
    row: int,
)
    requires
        app.valid(),
        batch_of(app, run_id) is Some,
        0 <= row < app.states.len(),
        !listed(app.batches[batch_of(app, run_id)->0].indices, row),
    ensures
        ({
            let b = batch_of(app, run_id)->0;
            &&& batch_completed(app, run_id, results).batches == app.batches.remove(b)
            &&& batch_failed(app, run_id, detail).batches == app.batches.remove(b)
            &&& batch_completed(app, run_id, results).states[row] == app.states[row]
            &&& batch_failed(app, run_id, detail).states[row] == app.states[row]
        }),
{
    let b = batch_of(app, run_id)->0;
    find_batch_facts(app.batches, run_id, 0);
    let count = if results.len() < app.batches[b].indices.len() {
        results.len()
    } else {
        app.batches[b].indices.len()
    };
    kept_elsewhere(app, b, results, detail, count);
    kept_elsewhere(app, b, results, detail, app.batches[b].indices.len());
    assert(batch_completed(app, run_id, results).batches =~= app.batches.remove(b));
    assert(batch_failed(app, run_id, detail).batches =~= app.batches.remove(b));
}

/// The row of a repository whose batch failed before it had a result.
pub open spec fn failed_row(app: AppView, index: int, detail: Seq<char>) -> RowView {
    RowView::Finished(
        SyncResultView {
            repository: app.repositories[index],
            kind: SyncKind::Failed,
            dirty: false,
            detail,
        },
    )
}

proof fn members_kept(
    app: AppView,
    b: int,
    results: Seq<SyncResultView>,
    detail: Seq<char>,
    count: nat,
    k: int,
)
    requires
        0 <= b < app.batches.len(),
        count <= app.batches[b].indices.len(),
        0 <= k < app.batches[b].indices.len(),
        app.rows_fit(),
        app.batches[b].fits(app.repositories.len()),
    ensures
        ({
            let row = app.batches[b].indices[k] as int;
            let failed = failures_kept(app, b, detail, count);
            let completed = results_kept(app, b, results, count);
            &&& failed.states.len() == completed.states.len() == app.states.len()
            &&& failed.batches.len() == app.batches.len()
            &&& failed.batches[b].completed.len() == app.batches[b].completed.len()
            &&& failed.batches[b].completed[k] == (app.batches[b].completed[k] || k < count)
            &&& failed.states[row] == if k < count && !app.batches[b].completed[k] {
                failed_row(app, row, detail)
            } else {
                app.states[row]
            }
            &&& completed.states[row] == if k < count {
                RowView::Finished(results[k])
            } else {
                app.states[row]
            }
        }),
    decreases count,
{
    let indices = app.batches[b].indices;
    assert(indices[k] < app.states.len());
    if count > 0 {
        members_kept(app, b, results, detail, (count - 1) as nat, k);
        members_kept(app, b, results, detail, (count - 1) as nat, count - 1);
        assert(indices[count - 1] < app.states.len());
        if k != count - 1 {
            assert(indices[k] != indices[count - 1]);
        }
    }
}

/// Where a batch fails as a whole, the repositories with a result keep their rows, and the
/// others fail with it. Where it ends with results, each repository that got one shows it.
pub proof fn members_show_their_ends(
    app: AppView,
    run_id: u64,
    results: Seq<SyncResultView>,
    detail: Seq<char>,
    k: int,
)
    requires
        app.valid(),
        batch_of(app, run_id) is Some,
        0 <= k < app.batches[batch_of(app, run_id)->0].indices.len(),
    ensures
        ({
            let batch = app.batches[batch_of(app, run_id)->0];
            let row = batch.indices[k] as int;
            &&& batch_failed(app, run_id, detail).states[row] == if batch.completed[k] {
                app.states[row]
            } else {
                failed_row(app, row, detail)
            }
            &&& batch_completed(app, run_id, results).states[row] == if k < results.len() {
                RowView::Finished(results[k])
            } else {
                app.states[row]
            }
        }),
{
    let b = batch_of(app, run_id)->0;
    find_batch_facts(app.batches, run_id, 0);
    assert(app.batches[b].fits(app.repositories.len()));
    let all = app.batches[b].indices.len();
    let count = if results.len() < all {
        results.len()
    } else {
        all
    };
    members_kept(app, b, results, detail, all, k);
    members_kept(app, b, results, detail, count, k);
}

/// No repository is in a batch twice, and a batch that starts now takes none that is requested
/// twice.
pub proof fn batches_hold_each_once(app: AppView, all: bool, keys: Seq<Seq<u8>>)
    requires
        app.valid(),
    ensures
        forall|b: int|
            0 <= b < app.batches.len() ==> (#[trigger] app.batches[b]).indices.no_duplicates(),
        startable_rows(app, all, keys).no_duplicates(),
{
    assert forall|b: int| 0 <= b < app.batches.len() implies (
    #[trigger] app.batches[b]).indices.no_duplicates() by {
        assert(app.batches[b].fits(app.repositories.len()));
    }
    let rows = startable_rows(app, all, keys);
    available_are_free(requested_rows(app, all), keys, app.active);
    assert forall|k: int, l: int| 0 <= k < l < rows.len() implies rows[k] != rows[l] by {
        assert(!same_path(keys[rows[k] as int], keys[rows[l] as int]));
    }
}

} // verus!
