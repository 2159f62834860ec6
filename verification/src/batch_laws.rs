//! What is counted while batches run, which rows change, and what is shown when all ended.
use crate::batches::{
    batch_completed, batch_failed, batch_keys, batch_of, can_reserve, ending_is_sound,
    failures_keep_sound, failures_kept, find_batch_facts, in_stage, is_active, key_of, listed,
    locked, recorded, recording_is_sound, reserved, reserving_is_sound, results_keep_sound,
    results_kept, rows_in_stage, stage_count, sync_status, with_sync_status, Stage,
};
use crate::engine::EventView;
use crate::failure::FailureView;
use crate::messages::{
    complete_results, event_received, events_are_sound, messages_are_sound, received,
};
use crate::model::{SyncKind, SyncResultView};
use crate::path::same_path;
use crate::rows::{row_label, RowView};
use crate::text::decimal;
use crate::tui::{AppView, BatchView, CompletionView, MessageView, SyncTotals};
use crate::tui_laws::other_marks_stay;
use vstd::prelude::*;

verus! {

// ---------------------------------------------------------------------------
// Counting
// ---------------------------------------------------------------------------

/// The number of results of a kind that counts have.
pub open spec fn number_of(totals: SyncTotals, kind: SyncKind) -> usize {
    match kind {
        SyncKind::Updated => totals.updated,
        SyncKind::Skipped => totals.skipped,
        SyncKind::Failed => totals.failed,
    }
}

/// A batch that starts while none runs has counts of its own: all of its repositories are
/// launched, and none has ended. One that starts beside others adds its repositories to what was
/// launched, and leaves what has ended.
pub proof fn counts_start_afresh(app: AppView, indices: Seq<usize>, keys: Seq<Seq<u8>>)
    requires
        app.valid(),
        can_reserve(app, indices),
    ensures
        app.batches.len() == 0 ==> reserved(app, indices, keys).totals == (SyncTotals {
            launched: indices.len() as usize,
            finished: 0,
            updated: 0,
            skipped: 0,
            failed: 0,
        }),
        app.batches.len() > 0 ==> {
            let totals = reserved(app, indices, keys).totals;
            &&& totals.launched == app.totals.launched + indices.len()
            &&& totals.finished == app.totals.finished
            &&& totals.updated == app.totals.updated
            &&& totals.skipped == app.totals.skipped
            &&& totals.failed == app.totals.failed
        },
        reserved(app, indices, keys).completion is None,
{
}

/// A new batch has a number of its own and exactly the repositories that were chosen, all of
/// which wait. The rows of others, the selection, the list and the mode stay.
pub proof fn batches_start_waiting(app: AppView, indices: Seq<usize>, keys: Seq<Seq<u8>>)
    requires
        app.valid(),
        can_reserve(app, indices),
    ensures
        ({
            let after = reserved(app, indices, keys);
            let batch = after.batches.last();
            &&& after.batches.drop_last() == app.batches
            &&& after.run_id == app.run_id + 1
            &&& batch.run_id == after.run_id
            &&& batch.indices == indices
            &&& forall|k: int| 0 <= k < indices.len() ==> !(#[trigger] batch.completed[k])
            &&& forall|k: int|
                0 <= k < indices.len() ==> #[trigger] batch.keys[k] == keys[indices[k] as int]
            &&& after.states.len() == app.states.len()
            &&& forall|k: int|
                0 <= k < indices.len() ==> (after.states[#[trigger] indices[k] as int]) is Waiting
            &&& forall|i: int|
                0 <= i < app.states.len() && (forall|k: int|
                    0 <= k < indices.len() ==> #[trigger] indices[k] != i)
                    ==> #[trigger] after.states[i] == app.states[i]
            &&& after.repositories == app.repositories
            &&& after.selected == app.selected
            &&& after.mode == app.mode
            &&& after.refresh_run is None
            &&& !after.quit
            &&& after.quit_pending == app.quit_pending
        }),
{
    let after = reserved(app, indices, keys);
    assert(after.batches.drop_last() =~= app.batches);
    assert forall|k: int| 0 <= k < indices.len() implies (
    after.states[#[trigger] indices[k] as int]) is Waiting by {
        assert(listed(indices, indices[k] as int));
    }
}

/// A result is counted once, as one of its kind and as one that ended.
pub proof fn results_are_counted(
    app: AppView,
    b: int,
    relative: int,
    kind: SyncKind,
    other: SyncKind,
)
    requires
        app.sound(),
        0 <= b < app.batches.len(),
        0 <= relative < app.batches[b].indices.len(),
        other != kind,
    ensures
        ({
            let after = recorded(app, b, relative, kind);
            let new = if app.batches[b].completed[relative] {
                0int
            } else {
                1
            };
            &&& after.totals.finished == app.totals.finished + new
            &&& number_of(after.totals, kind) == number_of(app.totals, kind) + new
            &&& number_of(after.totals, other) == number_of(app.totals, other)
            &&& after.totals.launched == app.totals.launched
            &&& after.batches[b].completed == app.batches[b].completed.update(relative, true)
        }),
{
    recording_is_sound(app, b, relative, kind);
    assert(app.batches[b].fits(app.repositories.len()));
    if app.batches[b].completed[relative] {
        assert(app.batches[b].completed.update(relative, true) =~= app.batches[b].completed);
    }
}

/// How many of the first results of a batch are new and of a kind.
pub open spec fn new_results(
    results: Seq<SyncResultView>,
    completed: Seq<bool>,
    count: nat,
    kind: SyncKind,
) -> nat
    decreases count,
{
    if count == 0 {
        0
    } else {
        new_results(results, completed, (count - 1) as nat, kind) + if !completed[count - 1]
            && results[count - 1].kind == kind {
            1nat
        } else {
            0nat
        }
    }
}

/// How many of the first repositories of a batch have no result.
pub open spec fn without_result(completed: Seq<bool>, count: nat) -> nat
    decreases count,
{
    if count == 0 {
        0
    } else {
        without_result(completed, (count - 1) as nat) + if completed[count - 1] {
            0nat
        } else {
            1nat
        }
    }
}

proof fn kept_counts(
    app: AppView,
    b: int,
    results: Seq<SyncResultView>,
    detail: Seq<char>,
    count: nat,
)
    requires
        app.sound(),
        0 <= b < app.batches.len(),
        count <= app.batches[b].indices.len(),
    ensures
        ({
            let done = app.batches[b].completed;
            let kept = results_kept(app, b, results, count);
            let failed = failures_kept(app, b, detail, count);
            &&& kept.totals.launched == app.totals.launched == failed.totals.launched
            &&& kept.totals.updated == app.totals.updated + new_results(
                results,
                done,
                count,
                SyncKind::Updated,
            )
            &&& kept.totals.skipped == app.totals.skipped + new_results(
                results,
                done,
                count,
                SyncKind::Skipped,
            )
            &&& kept.totals.failed == app.totals.failed + new_results(
                results,
                done,
                count,
                SyncKind::Failed,
            )
            &&& failed.totals.updated == app.totals.updated
            &&& failed.totals.skipped == app.totals.skipped
            &&& failed.totals.failed == app.totals.failed + without_result(done, count)
            &&& forall|k: int|
                count <= k < done.len() ==> kept.batches[b].completed[k] == #[trigger] done[k]
                    && failed.batches[b].completed[k] == done[k]
            &&& kept.batches[b].completed.len() == done.len()
            &&& failed.batches[b].completed.len() == done.len()
        }),
    decreases count,
{
    assert(app.batches[b].fits(app.repositories.len()));
    if count > 0 {
        let before = (count - 1) as nat;
        kept_counts(app, b, results, detail, before);
        results_keep_sound(app, b, results, before);
        failures_keep_sound(app, b, detail, before);
        let kept = results_kept(app, b, results, before);
        let failed = failures_kept(app, b, detail, before);
        let done = app.batches[b].completed;
        assert(kept.batches[b].completed[before as int] == done[before as int]);
        recording_is_sound(kept, b, before as int, results[before as int].kind);
        recording_is_sound(failed, b, before as int, SyncKind::Failed);
    }
}

/// The results of a batch that ended are counted, each new one as one of its kind; where the
/// batch failed as a whole, each repository without a result counts as failed. Nothing is
/// launched by an end.
pub proof fn ends_are_counted(
    app: AppView,
    run_id: u64,
    results: Seq<SyncResultView>,
    detail: Seq<char>,
)
    requires
        app.valid(),
        batch_of(app, run_id) is Some,
    ensures
        ({
            let batch = app.batches[batch_of(app, run_id)->0];
            let count = if results.len() < batch.indices.len() {
                results.len()
            } else {
                batch.indices.len()
            };
            let done = batch_completed(app, run_id, results).totals;
            let failed = batch_failed(app, run_id, detail).totals;
            &&& done.launched == app.totals.launched
            &&& done.updated == app.totals.updated + new_results(
                results,
                batch.completed,
                count,
                SyncKind::Updated,
            )
            &&& done.skipped == app.totals.skipped + new_results(
                results,
                batch.completed,
                count,
                SyncKind::Skipped,
            )
            &&& done.failed == app.totals.failed + new_results(
                results,
                batch.completed,
                count,
                SyncKind::Failed,
            )
            &&& done.finished == done.updated + done.skipped + done.failed
            &&& failed.launched == app.totals.launched
            &&& failed.updated == app.totals.updated
            &&& failed.skipped == app.totals.skipped
            &&& failed.failed == app.totals.failed + without_result(
                batch.completed,
                batch.indices.len(),
            )
            &&& failed.finished == failed.updated + failed.skipped + failed.failed
        }),
{
    let b = batch_of(app, run_id)->0;
    find_batch_facts(app.batches, run_id, 0);
    let count = if results.len() < app.batches[b].indices.len() {
        results.len()
    } else {
        app.batches[b].indices.len()
    };
    kept_counts(app, b, results, detail, count);
    kept_counts(app, b, results, detail, app.batches[b].indices.len());
    ending_is_sound(app, run_id, results, detail);
}

/// What is shown when all batches ended.
pub open spec fn shown_end(totals: SyncTotals) -> CompletionView {
    CompletionView {
        title: if totals.failed > 0 {
            "SYNC ENDED WITH ERRORS"@
        } else {
            "SYNC COMPLETE"@
        },
        summary: decimal(totals.finished as nat) + "/"@ + decimal(totals.launched as nat)
            + " repos: "@ + decimal(totals.updated as nat) + " updated, "@ + decimal(
            totals.skipped as nat,
        ) + " skipped, "@ + decimal(totals.failed as nat) + " failed"@,
        failed: totals.failed > 0,
    }
}

/// The batch that ended is gone, and no other. Where it was the last one, the counts are shown,
/// as an error where any repository failed; otherwise no end is shown.
pub proof fn the_last_end_is_shown(
    app: AppView,
    run_id: u64,
    results: Seq<SyncResultView>,
    detail: Seq<char>,
)
    requires
        app.valid(),
        batch_of(app, run_id) is Some,
    ensures
        ({
            let done = batch_completed(app, run_id, results);
            let failed = batch_failed(app, run_id, detail);
            &&& done.batches.len() == app.batches.len() - 1
            &&& failed.batches.len() == app.batches.len() - 1
            &&& app.batches.len() == 1 ==> done.completion == Some(shown_end(done.totals))
                && failed.completion == Some(shown_end(failed.totals))
            &&& app.batches.len() > 1 ==> done.completion is None && failed.completion is None
            &&& app.batches.len() == 1 && app.quit_pending ==> done.quit && failed.quit
            &&& app.batches.len() > 1 ==> !done.quit && !failed.quit
        }),
{
    find_batch_facts(app.batches, run_id, 0);
    ending_is_sound(app, run_id, results, detail);
    let b = batch_of(app, run_id)->0;
    results_keep_sound(app, b, results, 0);
    let count = if results.len() < app.batches[b].indices.len() {
        results.len()
    } else {
        app.batches[b].indices.len()
    };
    results_keep_sound(app, b, results, count);
    failures_keep_sound(app, b, detail, app.batches[b].indices.len());
}

// ---------------------------------------------------------------------------
// Whole synchronizations
// ---------------------------------------------------------------------------

/// Something that happens while batches run: one more starts, or a message comes in.
pub enum SyncMove {
    Start(Seq<usize>, Seq<Seq<u8>>),
    Receive(MessageView),
}

/// The state after something happened.
pub open spec fn after_move(app: AppView, step: SyncMove) -> AppView {
    match step {
        SyncMove::Start(indices, keys) => reserved(app, indices, keys),
        SyncMove::Receive(message) => received(app, message),
    }
}

/// The state after all that happened.
pub open spec fn after_moves(app: AppView, moves: Seq<SyncMove>) -> AppView
    decreases moves.len(),
{
    if moves.len() == 0 {
        app
    } else {
        after_move(after_moves(app, moves.drop_last()), moves.last())
    }
}

/// Whether something can happen.
pub open spec fn can_move(app: AppView, step: SyncMove) -> bool {
    match step {
        SyncMove::Start(indices, keys) => can_reserve(app, indices),
        SyncMove::Receive(message) => complete_results(app, message),
    }
}

/// Whether all that happened could, one after the other, and some batch ran all the time once
/// the first had started.
pub open spec fn one_sync(app: AppView, moves: Seq<SyncMove>) -> bool
    decreases moves.len(),
{
    moves.len() > 0 ==> {
        let before = after_moves(app, moves.drop_last());
        &&& one_sync(app, moves.drop_last())
        &&& can_move(before, moves.last())
        &&& moves.len() > 1 ==> before.batches.len() > 0
        &&& moves.len() == 1 ==> moves.last() is Start
    }
}

/// How many repositories were launched by all that happened.
pub open spec fn launched_by(moves: Seq<SyncMove>) -> nat
    decreases moves.len(),
{
    if moves.len() == 0 {
        0
    } else {
        launched_by(moves.drop_last()) + match moves.last() {
            SyncMove::Start(indices, _) => indices.len(),
            SyncMove::Receive(_) => 0,
        }
    }
}

/// Whether a message tells of a failure.
pub open spec fn tells_failure(message: MessageView) -> bool {
    match message {
        MessageView::Engine { event, .. } => event matches EventView::SyncFinished(_, result)
            && result.kind == SyncKind::Failed,
        MessageView::SyncComplete { results, .. } => exists|i: int|
            0 <= i < results.len() && (#[trigger] results[i]).kind == SyncKind::Failed,
        MessageView::OperationFailed { .. } => true,
        MessageView::InspectionComplete { .. } => false,
    }
}

proof fn no_new_failures(results: Seq<SyncResultView>, completed: Seq<bool>, count: nat)
    requires
        count <= results.len(),
        forall|i: int| 0 <= i < results.len() ==> (#[trigger] results[i]).kind != SyncKind::Failed,
    ensures
        new_results(results, completed, count, SyncKind::Failed) == 0,
    decreases count,
{
    if count > 0 {
        no_new_failures(results, completed, (count - 1) as nat);
        assert(results[count - 1].kind != SyncKind::Failed);
    }
}

/// No message launches anything, and a message without a failure counts none.
pub proof fn messages_count_what_they_tell(app: AppView, message: MessageView)
    requires
        app.valid(),
        complete_results(app, message),
    ensures
        received(app, message).totals.launched == app.totals.launched,
        received(app, message).totals.failed >= app.totals.failed,
        !tells_failure(message) ==> received(app, message).totals.failed == app.totals.failed,
{
    reveal(received);
    messages_are_sound(app, message);
    match message {
        MessageView::Engine { run_id, event } => {
            find_batch_facts(app.batches, run_id, 0);
            if let EventView::SyncFinished(index, result) = event {
                if let Some(b) = batch_of(app, run_id) {
                    if 0 <= index < app.batches[b].indices.len() {
                        let other = if result.kind == SyncKind::Failed {
                            SyncKind::Updated
                        } else {
                            SyncKind::Failed
                        };
                        results_are_counted(app, b, index, result.kind, other);
                    }
                }
            }
        },
        MessageView::SyncComplete { run_id, results } => {
            if let Some(b) = batch_of(app, run_id) {
                ends_are_counted(app, run_id, results, seq![]);
                let count = if results.len() < app.batches[b].indices.len() {
                    results.len()
                } else {
                    app.batches[b].indices.len()
                };
                if !tells_failure(message) {
                    no_new_failures(results, app.batches[b].completed, count);
                }
            }
        },
        MessageView::OperationFailed { run_id, operation, detail } => {
            if batch_of(app, run_id) is Some {
                ends_are_counted(app, run_id, seq![], detail);
            }
        },
        _ => {},
    }
}

/// From the start of a synchronization while nothing ran, what is launched is what was launched
/// since, and a failure is counted only where one was told since.
pub proof fn counts_are_those_of_this_sync(app: AppView, moves: Seq<SyncMove>)
    requires
        app.valid(),
        app.batches.len() == 0,
        moves.len() > 0,
        one_sync(app, moves),
    ensures
        after_moves(app, moves).valid(),
        after_moves(app, moves).totals.launched == launched_by(moves),
        after_moves(app, moves).totals.failed > 0 ==> exists|i: int|
            0 <= i < moves.len() && ((#[trigger] moves[i]) matches SyncMove::Receive(message)
                && tells_failure(message)),
    decreases moves.len(),
{
    let front = moves.drop_last();
    let before = after_moves(app, front);
    reveal_with_fuel(launched_by, 2);
    reveal_with_fuel(after_moves, 2);
    if moves.len() > 1 {
        counts_are_those_of_this_sync(app, front);
        assert(moves[moves.len() - 1] == moves.last());
        assert(forall|i: int| 0 <= i < front.len() ==> front[i] == moves[i]);
    } else {
        assert(before == app);
    }
    match moves.last() {
        SyncMove::Start(indices, keys) => {
            reserving_is_sound(before, indices, keys);
            counts_start_afresh(before, indices, keys);
        },
        SyncMove::Receive(message) => {
            messages_are_sound(before, message);
            messages_count_what_they_tell(before, message);
        },
    }
}

// ---------------------------------------------------------------------------
// Rows
// ---------------------------------------------------------------------------

/// The row that an event of a batch leads to, and the word that it shows.
pub open spec fn row_after(event: EventView, row: RowView) -> bool {
    match event {
        EventView::SyncFetching(_) => row == RowView::Planning && row_label(row) == "fetching"@,
        EventView::SyncPrepared(_, plan) => (row matches RowView::Prepared(detail) && detail
            == "branch="@ + plan.branch + "  ·  compare="@ + plan.compare_ref
            + "  ·  remote updates="@ + decimal(plan.update_count as nat)) && row_label(row)
            == "queued"@,
        EventView::SyncUpdating(_, plan) => (row matches RowView::Updating(detail) && detail
            == "branch="@ + plan.branch + "  ·  compare="@ + plan.compare_ref
            + "  ·  remote updates="@ + decimal(plan.update_count as nat)) && row_label(row)
            == "pulling"@,
        EventView::SyncFinished(_, result) => row == RowView::Finished(result) && row_label(row)
            == match result.kind {
            SyncKind::Updated => "updated"@,
            SyncKind::Skipped => "skipped"@,
            SyncKind::Failed => "failed"@,
        },
        EventView::InspectStarted(_) => row == RowView::Checking && row_label(row) == "checking"@,
        EventView::InspectFinished(_, inspection) => row == RowView::Ready(inspection),
        EventView::SyncChecksFinished(_) => false,
    }
}

/// The place of the repository in its run that an event is about.
pub open spec fn place_of(event: EventView) -> int {
    match event {
        EventView::InspectStarted(index) => index,
        EventView::InspectFinished(index, _) => index,
        EventView::SyncFetching(index) => index,
        EventView::SyncPrepared(index, _) => index,
        EventView::SyncChecksFinished(_) => -1,
        EventView::SyncUpdating(index, _) => index,
        EventView::SyncFinished(index, _) => index,
    }
}

/// An event of a batch changes the row of its repository, by the place of the repository in the
/// batch, and no other row, and brings the status up to date.
pub proof fn events_change_their_row(app: AppView, run_id: u64, event: EventView, row: int)
    requires
        app.valid(),
        batch_of(app, run_id) is Some,
        !(event is InspectStarted) && !(event is InspectFinished) && !(event
            is SyncChecksFinished),
        0 <= place_of(event) < app.batches[batch_of(app, run_id)->0].indices.len(),
        0 <= row < app.states.len(),
    ensures
        ({
            let place = app.batches[batch_of(app, run_id)->0].indices[place_of(event)] as int;
            let after = event_received(app, run_id, event);
            &&& 0 <= place < app.states.len()
            &&& row_after(event, after.states[place])
            &&& row != place ==> after.states[row] == app.states[row]
            &&& after.status == sync_status(after)
            &&& after.batches.len() == app.batches.len()
            &&& !(event is SyncFinished) ==> after.totals == app.totals && after.batches
                == app.batches
            &&& after.completion == app.completion
            &&& after.marked == app.marked
            &&& after.selected == app.selected
        }),
{
    find_batch_facts(app.batches, run_id, 0);
    let b = batch_of(app, run_id)->0;
    assert(app.batches[b].fits(app.repositories.len()));
    events_are_sound(app, run_id, event);
    if let EventView::SyncFinished(index, result) = event {
        recording_is_sound(app, b, index, result.kind);
    }
}

/// An event of a refresh changes the row of its repository and nothing else.
pub proof fn refresh_events_change_their_row(app: AppView, run_id: u64, event: EventView, row: int)
    requires
        app.valid(),
        app.refresh_run == Some(run_id),
        event is InspectStarted || event is InspectFinished,
        0 <= place_of(event) < app.states.len(),
        0 <= row < app.states.len(),
    ensures
        ({
            let after = event_received(app, run_id, event);
            &&& row_after(event, after.states[place_of(event)])
            &&& row != place_of(event) ==> after.states[row] == app.states[row]
            &&& after == (AppView { states: after.states, ..app })
        }),
{
}

/// The status counts what has ended, what was launched, and the rows of the running batches by
/// their stage.
pub proof fn status_counts_the_stages(app: AppView)
    ensures
        with_sync_status(app).status == "sync "@ + decimal(app.totals.finished as nat) + "/"@
            + decimal(app.totals.launched as nat) + ": "@ + decimal(
            rows_shown(app, |row: RowView| row is Waiting),
        ) + " waiting, "@ + decimal(rows_shown(app, |row: RowView| row is Planning))
            + " fetching, "@ + decimal(rows_shown(app, |row: RowView| row is Prepared))
            + " queued, "@ + decimal(rows_shown(app, |row: RowView| row is Updating))
            + " pulling"@,
{
    stages_are_rows(app.states, app.batches, Stage::Waiting, |row: RowView| row is Waiting);
    stages_are_rows(app.states, app.batches, Stage::Fetching, |row: RowView| row is Planning);
    stages_are_rows(app.states, app.batches, Stage::Queued, |row: RowView| row is Prepared);
    stages_are_rows(app.states, app.batches, Stage::Pulling, |row: RowView| row is Updating);
}

/// The rows of the repositories of the running batches, one batch after the other.
pub open spec fn batch_rows(states: Seq<RowView>, batches: Seq<BatchView>) -> Seq<RowView>
    decreases batches.len(),
{
    if batches.len() == 0 {
        seq![]
    } else {
        batch_rows(states, batches.drop_last()) + Seq::new(
            batches.last().indices.len(),
            |k: int| states[batches.last().indices[k] as int],
        )
    }
}

/// How many rows of the running batches are of a sort.
pub open spec fn rows_shown(app: AppView, sort: spec_fn(RowView) -> bool) -> nat {
    batch_rows(app.states, app.batches).filter(sort).len()
}

/// The repositories in a stage are the rows of the sort that belongs to it.
pub proof fn stages_are_rows(
    states: Seq<RowView>,
    batches: Seq<BatchView>,
    stage: Stage,
    sort: spec_fn(RowView) -> bool,
)
    requires
        forall|row: RowView| #[trigger] in_stage(row, stage) == sort(row),
    ensures
        stage_count(states, batches, stage) == batch_rows(states, batches).filter(sort).len(),
    decreases batches.len(),
{
    reveal(Seq::filter);
    if batches.len() > 0 {
        stages_are_rows(states, batches.drop_last(), stage, sort);
        let indices = batches.last().indices;
        let shown = Seq::new(indices.len(), |k: int| states[indices[k] as int]);
        stage_is_rows(states, indices, stage, sort);
        vstd::seq::Seq::filter_distributes_over_add(
            batch_rows(states, batches.drop_last()),
            shown,
            sort,
        );
    }
}

proof fn stage_is_rows(
    states: Seq<RowView>,
    indices: Seq<usize>,
    stage: Stage,
    sort: spec_fn(RowView) -> bool,
)
    requires
        forall|row: RowView| #[trigger] in_stage(row, stage) == sort(row),
    ensures
        rows_in_stage(states, indices, stage) == Seq::new(
            indices.len(),
            |k: int| states[indices[k] as int],
        ).filter(sort).len(),
    decreases indices.len(),
{
    reveal(Seq::filter);
    let shown = Seq::new(indices.len(), |k: int| states[indices[k] as int]);
    if indices.len() > 0 {
        stage_is_rows(states, indices.drop_last(), stage, sort);
        assert(shown.drop_last() =~= Seq::new(
            indices.drop_last().len(),
            |k: int| states[indices.drop_last()[k] as int],
        ));
        assert(in_stage(shown.last(), stage) == sort(shown.last()));
    }
}

/// A batch takes the marks of its repositories away, and leaves the others.
pub proof fn batches_take_their_marks(
    app: AppView,
    indices: Seq<usize>,
    keys: Seq<Seq<u8>>,
    name: Seq<char>,
)
    ensures
        reserved(app, indices, keys).marked.contains(name) <==> app.marked.contains(name)
            && forall|k: int|
            0 <= k < indices.len() ==> app.repositories[(
            #[trigger] indices[k]) as int].name != name,
{
    other_marks_stay(app.marked, app.repositories, indices, name);
}

proof fn locks_are_found(active: Seq<(Seq<u8>, u64)>, keys: Seq<Seq<u8>>, run_id: u64, key: Seq<u8>)
    ensures
        (exists|k: int| 0 <= k < keys.len() && same_path(#[trigger] keys[k], key)) ==> exists|
            i: int,
        |
            0 <= i < locked(active, keys, run_id).len() && same_path(
                (#[trigger] locked(active, keys, run_id)[i]).0,
                key,
            ) && locked(active, keys, run_id)[i].1 == run_id,
        !(exists|k: int| 0 <= k < keys.len() && same_path(#[trigger] keys[k], key)) ==> forall|
            number: u64,
        | #[trigger]
            holds_lock(locked(active, keys, run_id), key, number) <==> holds_lock(
                active,
                key,
                number,
            ),
    decreases keys.len(),
{
    if keys.len() > 0 {
        let part = keys.drop_last();
        let last = keys.last();
        let before = locked(active, part, run_id);
        let after = locked(active, keys, run_id);
        locks_are_found(active, part, run_id, key);
        assert forall|k: int| 0 <= k < part.len() implies part[k] == keys[k] by {}
        assert(keys[keys.len() - 1] == last);
        if same_path(last, key) {
            if is_active(before, last) {
                let i = choose|i: int|
                    0 <= i < before.len() && same_path((#[trigger] before[i]).0, last);
                assert(after[i] == (before[i].0, run_id));
            } else {
                assert(after[before.len() as int] == (last, run_id));
            }
        } else if exists|k: int| 0 <= k < keys.len() && same_path(#[trigger] keys[k], key) {
            let k = choose|k: int| 0 <= k < keys.len() && same_path(#[trigger] keys[k], key);
            assert(same_path(part[k], key));
            let i = choose|i: int|
                0 <= i < before.len() && same_path((#[trigger] before[i]).0, key) && before[i].1
                    == run_id;
            assert(same_path(after[i].0, key) && after[i].1 == run_id);
        } else {
            assert forall|number: u64| #[trigger]
                holds_lock(after, key, number) <==> holds_lock(active, key, number) by {
                if holds_lock(after, key, number) {
                    let i = choose|i: int|
                        0 <= i < after.len() && same_path((#[trigger] after[i]).0, key)
                            && after[i].1 == number;
                    assert(before[i] == after[i]);
                    assert(holds_lock(before, key, number));
                }
                if holds_lock(active, key, number) {
                    assert(holds_lock(before, key, number));
                    let i = choose|i: int|
                        0 <= i < before.len() && same_path((#[trigger] before[i]).0, key)
                            && before[i].1 == number;
                    assert(after[i] == before[i]);
                }
            }
        }
    }
}

/// Whether a path belongs to a run.
pub open spec fn holds_lock(active: Seq<(Seq<u8>, u64)>, key: Seq<u8>, number: u64) -> bool {
    exists|i: int|
        0 <= i < active.len() && same_path((#[trigger] active[i]).0, key) && active[i].1 == number
}

/// The paths of the repositories of a new batch belong to it from now on. Other paths belong to
/// the runs that they belonged to.
pub proof fn batches_take_their_paths(
    app: AppView,
    indices: Seq<usize>,
    keys: Seq<Seq<u8>>,
    key: Seq<u8>,
    number: u64,
)
    requires
        app.run_id < u64::MAX,
    ensures
        (exists|k: int|
            0 <= k < indices.len() && same_path(keys[(#[trigger] indices[k]) as int], key))
            ==> holds_lock(reserved(app, indices, keys).active, key, (app.run_id + 1) as u64),
        (forall|k: int|
            0 <= k < indices.len() ==> !same_path(keys[(#[trigger] indices[k]) as int], key)) ==> (
        holds_lock(reserved(app, indices, keys).active, key, number) <==> holds_lock(
            app.active,
            key,
            number,
        )),
{
    let own = batch_keys(keys, indices);
    let run_id = (app.run_id + 1) as u64;
    locks_are_found(app.active, own, run_id, key);
    if exists|k: int|
        0 <= k < indices.len() && same_path(keys[(#[trigger] indices[k]) as int], key) {
        let k = choose|k: int|
            0 <= k < indices.len() && same_path(keys[(#[trigger] indices[k]) as int], key);
        assert(same_path(own[k], key));
    } else {
        assert forall|k: int| 0 <= k < own.len() implies !same_path(#[trigger] own[k], key) by {
            assert(own[k] == keys[indices[k] as int]);
        }
    }
}

/// A repository is known by where its path leads, and by the path itself where that cannot be
/// told.
pub proof fn keys_are_where_paths_lead(own: Seq<u8>, path: Seq<u8>, failure: FailureView)
    ensures
        key_of(own, Ok(path)) == path,
        key_of(own, Err(failure)) == own,
{
}

} // verus!
