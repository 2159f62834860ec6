//! Starting background work and taking in what it tells.
use crate::batches::{
    available, available_are_free, batch_completed, batch_failed, batch_of, can_reserve,
    ending_is_sound, find_batch_facts, global_index, recorded, recording_is_sound, reserved,
    settled, with_row, with_sync_status,
};
use crate::engine::{EngineEvent, EventView};
use crate::model::{
    copy_repositories, entries, findings, Inspection, InspectionView, Repository, RepositoryView,
    SyncResult, SyncResultView,
};
use crate::path::{paths, RawPath};
use crate::rows::{plan_detail, rows, sync_plan_detail, RowState, RowView};
use crate::text::{concat, decimal, number};
use crate::tui::{
    all_rows, is_marked, message_views, App, AppView, Completion, CompletionView, MessageView,
    UiMessage,
};
use vstd::prelude::*;

verus! {

// ---------------------------------------------------------------------------
// Starting work
// ---------------------------------------------------------------------------

/// A refresh that is to run in the background.
#[derive(Debug)]
pub struct RefreshJob {
    pub run_id: u64,
    pub refresh: bool,
    pub repositories: Vec<Repository>,
}

/// A batch that is to run in the background.
#[derive(Debug)]
pub struct SyncJob {
    pub run_id: u64,
    pub repositories: Vec<Repository>,
}

/// Whether the keys act on the rows.
pub open spec fn on_rows(app: AppView) -> bool {
    !(app.mode is Form) && !(app.mode is ConfirmDelete)
}

/// Whether a refresh can start.
pub open spec fn can_refresh(app: AppView) -> bool {
    !app.quit_pending && !app.quit && !app.busy()
}

/// The state after a refresh was asked for.
pub open spec fn refresh_started(app: AppView, refresh: bool) -> AppView {
    if app.quit_pending || app.quit {
        app
    } else if app.busy() {
        AppView { status: "An operation is already running"@, ..app }
    } else {
        let run_id = (app.run_id + 1) as u64;
        AppView {
            run_id,
            refresh_run: Some(run_id),
            completion: None,
            states: Seq::new(app.states.len(), |i: int| RowView::Queued),
            status: if refresh {
                "Refreshing remote state…"@
            } else {
                "Reading local tracking state…"@
            },
            ..app
        }
    }
}

/// The state after a refresh could not be started.
pub open spec fn refresh_refused(app: AppView, error: Seq<char>) -> AppView {
    AppView {
        refresh_run: None,
        states: Seq::new(app.states.len(), |i: int| RowView::Idle),
        status: "Cannot start background worker: "@ + error,
        ..app
    }
}

/// The first `count` repositories that are marked.
pub open spec fn marked_rows(
    repositories: Seq<RepositoryView>,
    marked: Seq<Seq<char>>,
    count: nat,
) -> Seq<usize>
    decreases count,
{
    if count == 0 {
        seq![]
    } else {
        let front = marked_rows(repositories, marked, (count - 1) as nat);
        if marked.contains(repositories[count - 1].name) {
            front.push((count - 1) as usize)
        } else {
            front
        }
    }
}

/// The repositories to synchronize: all of them, those marked, or the selected one.
pub open spec fn requested_rows(app: AppView, all: bool) -> Seq<usize> {
    if all {
        Seq::new(app.repositories.len(), |i: int| i as usize)
    } else if app.marked.len() > 0 {
        marked_rows(app.repositories, app.marked, app.repositories.len())
    } else {
        match app.selected {
            Some(index) => seq![index],
            None => seq![],
        }
    }
}

/// The repositories that a request would start.
pub open spec fn startable_rows(app: AppView, all: bool, keys: Seq<Seq<u8>>) -> Seq<usize> {
    if app.quit_pending || app.quit || app.refresh_run is Some {
        seq![]
    } else {
        available(requested_rows(app, all), keys, app.active)
    }
}

/// The state after a synchronization was asked for.
pub open spec fn sync_started(app: AppView, all: bool, keys: Seq<Seq<u8>>) -> AppView {
    let requested = requested_rows(app, all);
    let indices = available(requested, keys, app.active);
    if app.quit_pending || app.quit {
        app
    } else if app.refresh_run is Some {
        AppView { status: "Wait for refresh to finish before syncing"@, ..app }
    } else if requested.len() == 0 {
        AppView { status: "No repositories selected"@, ..app }
    } else if indices.len() == 0 {
        AppView { status: "Selected repositories are already syncing"@, ..app }
    } else {
        let running = with_sync_status(reserved(app, indices, keys));
        let skipped = requested.len() - indices.len();
        if skipped > 0 {
            AppView {
                status: running.status + ("; "@ + decimal(skipped as nat) + " already syncing"@),
                ..running
            }
        } else {
            running
        }
    }
}

/// The repositories at some indices.
pub open spec fn picked(list: Seq<RepositoryView>, indices: Seq<usize>) -> Seq<RepositoryView> {
    Seq::new(indices.len(), |k: int| list[indices[k] as int])
}

proof fn marked_rows_fit(repositories: Seq<RepositoryView>, marked: Seq<Seq<char>>, count: nat)
    requires
        count <= repositories.len(),
        repositories.len() <= usize::MAX,
    ensures
        marked_rows(repositories, marked, count).len() <= count,
        forall|k: int|
            0 <= k < marked_rows(repositories, marked, count).len() ==> (
            #[trigger] marked_rows(repositories, marked, count)[k]) < count,
    decreases count,
{
    if count > 0 {
        marked_rows_fit(repositories, marked, (count - 1) as nat);
    }
}

proof fn requested_rows_fit(app: AppView, all: bool)
    requires
        app.rows_fit(),
        app.repositories.len() <= usize::MAX,
    ensures
        requested_rows(app, all).len() <= app.repositories.len(),
        forall|k: int|
            0 <= k < requested_rows(app, all).len() ==> (#[trigger] requested_rows(app, all)[k])
                < app.repositories.len(),
{
    marked_rows_fit(app.repositories, app.marked, app.repositories.len());
}

/// Where the rows are the same in number, their contents do not matter for the invariants.
proof fn rows_do_not_matter(app: AppView, after: AppView)
    requires
        app.sound(),
        after == (AppView { states: after.states, status: after.status, ..app }),
        after.states.len() == app.states.len(),
    ensures
        after.sound(),
{
}

impl App {
    /// Starts to refresh every repository, where nothing runs. `refresh` asks for a fetch.
    pub fn start_refresh(&mut self, refresh: bool) -> (job: Option<RefreshJob>)
        requires
            old(self)@.valid(),
            on_rows(old(self)@),
            old(self)@.run_id < u64::MAX,
        ensures
            final(self)@ == refresh_started(old(self)@, refresh),
            final(self)@.valid(),
            job is Some <==> can_refresh(old(self)@),
            job matches Some(job) ==> job.run_id == final(self)@.run_id && job.refresh == refresh
                && entries(job.repositories@) == old(self)@.repositories,
    {
        let ghost app = self@;
        if self.quit_pending || self.quit {
            return None;
        }
        if self.has_active_operations() {
            self.status = "An operation is already running".to_owned();
            return None;
        }
        self.run_id = self.run_id + 1;
        self.refresh_run = Some(self.run_id);
        self.completion = None;
        self.states = all_rows(self.states.len(), &RowState::Queued);
        self.status =
        if refresh {
            "Refreshing remote state…".to_owned()
        } else {
            "Reading local tracking state…".to_owned()
        };
        assert(self@ =~= refresh_started(app, refresh));
        Some(
            RefreshJob {
                run_id: self.run_id,
                refresh,
                repositories: copy_repositories(&self.repositories),
            },
        )
    }

    /// Takes a refresh back that could not be started.
    pub fn refresh_not_started(&mut self, error: &str)
        requires
            old(self)@.valid(),
            old(self)@.refresh_run is Some,
            !old(self)@.quit_pending,
        ensures
            final(self)@ == refresh_refused(old(self)@, error@),
            final(self)@.valid(),
    {
        let ghost app = self@;
        self.refresh_run = None;
        self.states = all_rows(self.states.len(), &RowState::Idle);
        self.status = concat("Cannot start background worker: ", error);
        assert(self@ =~= refresh_refused(app, error@));
    }

    fn requested(&self, all: bool) -> (requested: Vec<usize>)
        ensures
            requested@ == requested_rows(self@, all),
    {
        let mut requested: Vec<usize> = Vec::new();
        if all {
            let mut i: usize = 0;
            while i < self.repositories.len()
                invariant
                    i <= self.repositories@.len(),
                    requested@ == Seq::new(i as nat, |k: int| k as usize),
                decreases self.repositories@.len() - i,
            {
                requested.push(i);
                assert(requested@ =~= Seq::new((i + 1) as nat, |k: int| k as usize));
                i = i + 1;
            }
        } else if self.marked.len() > 0 {
            let mut i: usize = 0;
            while i < self.repositories.len()
                invariant
                    i <= self.repositories@.len(),
                    requested@ == marked_rows(self@.repositories, self@.marked, i as nat),
                decreases self.repositories@.len() - i,
            {
                assert(self@.repositories[i as int] == self.repositories@[i as int]@);
                if is_marked(&self.marked, self.repositories[i].name.as_str()) {
                    requested.push(i);
                }
                i = i + 1;
            }
        } else if let Some(index) = self.selected {
            requested.push(index);
            assert(requested@ =~= seq![index]);
        }
        requested
    }

    fn pick(&self, indices: &Vec<usize>) -> (list: Vec<Repository>)
        requires
            forall|k: int|
                0 <= k < indices@.len() ==> (#[trigger] indices@[k]) < self.repositories@.len(),
        ensures
            entries(list@) == picked(self@.repositories, indices@),
    {
        let mut list: Vec<Repository> = Vec::new();
        let mut i: usize = 0;
        assert(entries(list@) =~= picked(self@.repositories, indices@.take(0)));
        while i < indices.len()
            invariant
                i <= indices@.len(),
                forall|k: int|
                    0 <= k < indices@.len() ==> (#[trigger] indices@[k]) < self.repositories@.len(),
                entries(list@) == picked(self@.repositories, indices@.take(i as int)),
            decreases indices@.len() - i,
        {
            let ghost before = entries(list@);
            list.push(self.repositories[indices[i]].clone());
            assert(entries(list@) =~= before.push(self@.repositories[indices@[i as int] as int]));
            assert(entries(list@) =~= picked(self@.repositories, indices@.take(i + 1)));
            i = i + 1;
        }
        assert(indices@.take(i as int) =~= indices@);
        list
    }

    /// Starts to synchronize all repositories, those marked, or the selected one, as far as
    /// they are free. `keys` holds the resolved path of every repository.
    pub fn start_sync(&mut self, all: bool, keys: &Vec<RawPath>) -> (job: Option<SyncJob>)
        requires
            old(self)@.valid(),
            on_rows(old(self)@),
            old(self)@.run_id < u64::MAX,
            old(self)@.totals.launched + old(self)@.repositories.len() <= usize::MAX,
            keys@.len() == old(self)@.repositories.len(),
        ensures
            final(self)@ == sync_started(old(self)@, all, paths(keys@)),
            final(self)@.valid(),
            job is Some <==> startable_rows(old(self)@, all, paths(keys@)).len() > 0,
            job matches Some(job) ==> job.run_id == final(self)@.run_id && entries(
                job.repositories@,
            ) == picked(
                old(self)@.repositories,
                startable_rows(old(self)@, all, paths(keys@)),
            ),
    {
        let ghost app = self@;
        if self.quit_pending || self.quit {
            return None;
        }
        if self.refresh_run.is_some() {
            self.status = "Wait for refresh to finish before syncing".to_owned();
            return None;
        }
        let requested = self.requested(all);
        proof {
            requested_rows_fit(app, all);
            available_are_free(requested@, paths(keys@), app.active);
            if requested@.len() == 0 {
                assert(available(requested@, paths(keys@), app.active).len() == 0);
            }
        }
        if requested.len() == 0 {
            self.status = "No repositories selected".to_owned();
            return None;
        }
        let (indices, skipped) = self.available_sync_indices(&requested, keys);
        if indices.len() == 0 {
            self.status = "Selected repositories are already syncing".to_owned();
            return None;
        }
        proof {
            assert forall|k: int| 0 <= k < indices@.len() implies (#[trigger] indices@[k])
                < app.repositories.len() by {
                let j = choose|j: int| 0 <= j < requested@.len() && requested@[j] == indices@[k];
                assert(requested@[j] < app.repositories.len());
            }
            assert(can_reserve(app, indices@));
        }
        let run_id: u64 = self.reserve_sync_batch(&indices, keys);
        self.update_sync_status();
        if skipped > 0 {
            let mut suffix = concat("; ", number(skipped as u128).as_str());
            suffix.append(" already syncing");
            self.status.append(suffix.as_str());
        }
        assert(self@ =~= sync_started(app, all, paths(keys@)));
        assert(self.repositories@.len() == app.repositories.len());
        let repositories = self.pick(&indices);
        Some(SyncJob { run_id, repositories })
    }
}

// ---------------------------------------------------------------------------
// Taking in messages
// ---------------------------------------------------------------------------

/// The state after the row of a repository changed while a refresh goes on.
pub open spec fn refresh_row(app: AppView, run_id: u64, index: int, row: RowView) -> AppView {
    if app.refresh_run == Some(run_id) && 0 <= index < app.states.len() {
        with_row(app, index, row)
    } else {
        app
    }
}

/// The state after the row of a repository of a batch changed.
pub open spec fn batch_row(app: AppView, run_id: u64, index: int, row: RowView) -> AppView {
    match global_index(app, run_id, index) {
        Some(place) => with_sync_status(with_row(app, place, row)),
        None => app,
    }
}

/// The state after a repository of a batch ended.
pub open spec fn batch_row_ended(
    app: AppView,
    run_id: u64,
    index: int,
    result: SyncResultView,
) -> AppView {
    match global_index(app, run_id, index) {
        Some(place) => with_sync_status(
            with_row(
                recorded(app, batch_of(app, run_id)->0, index, result.kind),
                place,
                RowView::Finished(result),
            ),
        ),
        None => app,
    }
}

/// The state after an event of a run.
pub open spec fn event_received(app: AppView, run_id: u64, event: EventView) -> AppView {
    match event {
        EventView::InspectStarted(index) => refresh_row(app, run_id, index, RowView::Checking),
        EventView::InspectFinished(index, inspection) => refresh_row(
            app,
            run_id,
            index,
            RowView::Ready(inspection),
        ),
        EventView::SyncChecksFinished(_) => app,
        EventView::SyncFetching(index) => batch_row(app, run_id, index, RowView::Planning),
        EventView::SyncPrepared(index, plan) => batch_row(
            app,
            run_id,
            index,
            RowView::Prepared(plan_detail(plan)),
        ),
        EventView::SyncUpdating(index, plan) => batch_row(
            app,
            run_id,
            index,
            RowView::Updating(plan_detail(plan)),
        ),
        EventView::SyncFinished(index, result) => batch_row_ended(app, run_id, index, result),
    }
}

/// How many inspections ended with an error.
pub open spec fn errors_in(results: Seq<InspectionView>) -> nat
    decreases results.len(),
{
    if results.len() == 0 {
        0
    } else {
        errors_in(results.drop_last()) + if results.last().error is Some {
            1nat
        } else {
            0nat
        }
    }
}

/// The state after a refresh ended with its results.
pub open spec fn refresh_completed(app: AppView, results: Seq<InspectionView>) -> AppView {
    let failed = errors_in(results);
    settled(
        AppView {
            states: Seq::new(results.len(), |i: int| RowView::Ready(results[i])),
            refresh_run: None,
            status: "Refresh complete"@,
            completion: Some(
                CompletionView {
                    title: if failed == 0 {
                        "REFRESH COMPLETE"@
                    } else {
                        "REFRESH ENDED WITH ERRORS"@
                    },
                    summary: decimal(app.repositories.len()) + " repos checked, "@ + decimal(
                        failed,
                    ) + " failed"@,
                    failed: failed > 0,
                },
            ),
            ..app
        },
    )
}

/// The rows where those that still wait for a refresh are idle again.
pub open spec fn rows_idle_again(states: Seq<RowView>) -> Seq<RowView> {
    Seq::new(
        states.len(),
        |i: int|
            if states[i] is Queued || states[i] is Checking {
                RowView::Idle
            } else {
                states[i]
            },
    )
}

/// The state after a refresh failed as a whole.
pub open spec fn refresh_failed(app: AppView, operation: Seq<char>, detail: Seq<char>) -> AppView {
    settled(
        AppView {
            states: rows_idle_again(app.states),
            refresh_run: None,
            status: operation + " failed: "@ + detail,
            completion: Some(
                CompletionView { title: "REFRESH FAILED"@, summary: detail, failed: true },
            ),
            ..app
        },
    )
}

/// The state after a message. What does not belong to a run under way is ignored.
#[verifier::opaque]
pub open spec fn received(app: AppView, message: MessageView) -> AppView {
    match message {
        MessageView::Engine { run_id, event } => event_received(app, run_id, event),
        MessageView::InspectionComplete { run_id, results } => if app.refresh_run == Some(run_id) {
            refresh_completed(app, results)
        } else {
            app
        },
        MessageView::SyncComplete { run_id, results } => batch_completed(app, run_id, results),
        MessageView::OperationFailed { run_id, operation, detail } => if app.refresh_run == Some(
            run_id,
        ) {
            refresh_failed(app, operation, detail)
        } else {
            batch_failed(app, run_id, detail)
        },
    }
}

/// The state after the first `count` messages.
pub open spec fn all_received(app: AppView, messages: Seq<MessageView>, count: nat) -> AppView
    decreases count,
{
    if count == 0 {
        app
    } else {
        received(all_received(app, messages, (count - 1) as nat), messages[count - 1])
    }
}

/// Whether the results of the refresh under way are those of all repositories.
pub open spec fn complete_results(app: AppView, message: MessageView) -> bool {
    match message {
        MessageView::InspectionComplete { run_id, results } => app.refresh_run == Some(run_id)
            ==> results.len() == app.repositories.len(),
        _ => true,
    }
}

proof fn refresh_end_is_sound(
    app: AppView,
    results: Seq<InspectionView>,
    operation: Seq<char>,
    detail: Seq<char>,
)
    requires
        app.valid(),
        app.refresh_run is Some,
    ensures
        results.len() == app.repositories.len() ==> refresh_completed(app, results).valid(),
        refresh_failed(app, operation, detail).valid(),
{
}

/// An event keeps every invariant.
pub proof fn events_are_sound(app: AppView, run_id: u64, event: EventView)
    requires
        app.valid(),
    ensures
        event_received(app, run_id, event).valid(),
        event_received(app, run_id, event).repositories == app.repositories,
        event_received(app, run_id, event).refresh_run == app.refresh_run,
{
    find_batch_facts(app.batches, run_id, 0);
    if let Some(b) = batch_of(app, run_id) {
        assert(app.batches[b].fits(app.repositories.len()));
        if let EventView::SyncFinished(index, result) = event {
            if 0 <= index < app.batches[b].indices.len() {
                recording_is_sound(app, b, index, result.kind);
                let counted = recorded(app, b, index, result.kind);
                rows_do_not_matter(counted, event_received(app, run_id, event));
            }
        }
    }
    if !(event is SyncFinished) {
        rows_do_not_matter(app, event_received(app, run_id, event));
    }
}

/// A message keeps every invariant, the list of repositories, and that no refresh begins.
pub proof fn messages_are_sound(app: AppView, message: MessageView)
    requires
        app.valid(),
        complete_results(app, message),
    ensures
        received(app, message).valid(),
        received(app, message).repositories == app.repositories,
        received(app, message).refresh_run is Some ==> received(app, message).refresh_run
            == app.refresh_run,
{
    reveal(received);
    match message {
        MessageView::Engine { run_id, event } => {
            events_are_sound(app, run_id, event);
        },
        MessageView::InspectionComplete { run_id, results } => {
            if app.refresh_run == Some(run_id) {
                refresh_end_is_sound(app, results, seq![], seq![]);
            }
        },
        MessageView::SyncComplete { run_id, results } => {
            ending_is_sound(app, run_id, results, seq![]);
        },
        MessageView::OperationFailed { run_id, operation, detail } => {
            ending_is_sound(app, run_id, seq![], detail);
            if app.refresh_run == Some(run_id) {
                refresh_end_is_sound(app, seq![], operation, detail);
            }
        },
    }
}

proof fn global_index_fits(app: AppView, run_id: u64, index: int)
    requires
        app.sound(),
    ensures
        global_index(app, run_id, index) matches Some(place) ==> {
            &&& batch_of(app, run_id) is Some
            &&& 0 <= batch_of(app, run_id)->0 < app.batches.len()
            &&& 0 <= index < app.batches[batch_of(app, run_id)->0].indices.len()
            &&& 0 <= place < app.states.len()
        },
{
    find_batch_facts(app.batches, run_id, 0);
    if let Some(b) = batch_of(app, run_id) {
        assert(app.batches[b].fits(app.repositories.len()));
    }
}

impl App {
    fn show_refresh_row(&mut self, run_id: u64, index: usize, row: RowState)
        requires
            old(self)@.sound(),
        ensures
            final(self)@ == refresh_row(old(self)@, run_id, index as int, row@),
    {
        if self.refresh_run == Some(run_id) && index < self.states.len() {
            self.set_row(index, row);
        }
    }

    fn show_batch_row(&mut self, run_id: u64, index: usize, row: RowState)
        requires
            old(self)@.sound(),
        ensures
            final(self)@ == batch_row(old(self)@, run_id, index as int, row@),
    {
        proof {
            global_index_fits(self@, run_id, index as int);
        }
        if let Some(place) = self.sync_global_index(run_id, index) {
            self.set_row(place, row);
            self.update_sync_status();
        }
    }

    fn end_batch_row(&mut self, run_id: u64, index: usize, result: &SyncResult)
        requires
            old(self)@.sound(),
        ensures
            final(self)@ == batch_row_ended(old(self)@, run_id, index as int, result@),
    {
        proof {
            global_index_fits(self@, run_id, index as int);
        }
        if let Some(place) = self.sync_global_index(run_id, index) {
            if let Some(b) = self.find_run(run_id) {
                self.record_sync_result(b, index, result.kind);
                self.set_row(place, RowState::Finished(result.clone()));
                self.update_sync_status();
            }
        }
    }

    fn receive_event(&mut self, run_id: u64, event: &EngineEvent)
        requires
            old(self)@.valid(),
        ensures
            final(self)@ == event_received(old(self)@, run_id, event@),
            final(self)@.valid(),
    {
        proof {
            events_are_sound(self@, run_id, event@);
        }
        match event {
            EngineEvent::InspectStarted(index) => {
                self.show_refresh_row(run_id, *index, RowState::Checking);
            },
            EngineEvent::InspectFinished(index, inspection) => {
                self.show_refresh_row(run_id, *index, RowState::Ready(inspection.clone()));
            },
            EngineEvent::SyncChecksFinished(_) => {},
            EngineEvent::SyncFetching(index) => {
                self.show_batch_row(run_id, *index, RowState::Planning);
            },
            EngineEvent::SyncPrepared(index, plan) => {
                self.show_batch_row(run_id, *index, RowState::Prepared(sync_plan_detail(plan)));
            },
            EngineEvent::SyncUpdating(index, plan) => {
                self.show_batch_row(run_id, *index, RowState::Updating(sync_plan_detail(plan)));
            },
            EngineEvent::SyncFinished(index, result) => {
                self.end_batch_row(run_id, *index, result);
            },
        }
    }

    fn complete_refresh(&mut self, results: &Vec<Inspection>)
        requires
            results@.len() == old(self)@.repositories.len(),
        ensures
            final(self)@ == refresh_completed(old(self)@, findings(results@)),
    {
        let ghost app = self@;
        let ghost all = findings(results@);
        let mut states: Vec<RowState> = Vec::new();
        let mut failed: usize = 0;
        let mut i: usize = 0;
        assert(all.take(0) =~= Seq::<InspectionView>::empty());
        while i < results.len()
            invariant
                i <= results@.len(),
                all == findings(results@),
                failed <= i,
                failed == errors_in(all.take(i as int)),
                rows(states@) == Seq::new(i as nat, |k: int| RowView::Ready(all[k])),
            decreases results@.len() - i,
        {
            let ghost before = rows(states@);
            proof {
                assert(all[i as int] == results@[i as int]@);
                assert(all.take(i + 1).drop_last() =~= all.take(i as int));
                assert(all.take(i + 1).last() == all[i as int]);
            }
            if results[i].error.is_some() {
                failed = failed + 1;
            }
            states.push(RowState::Ready(results[i].clone()));
            assert(rows(states@) =~= before.push(RowView::Ready(all[i as int])));
            assert(rows(states@) =~= Seq::new((i + 1) as nat, |k: int| RowView::Ready(all[k])));
            i = i + 1;
        }
        assert(all.take(i as int) =~= all);
        self.states = states;
        self.refresh_run = None;
        self.status = "Refresh complete".to_owned();
        let mut summary = number(self.repositories.len() as u128);
        summary.append(" repos checked, ");
        summary.append(number(failed as u128).as_str());
        summary.append(" failed");
        let title = if failed == 0 {
            "REFRESH COMPLETE".to_owned()
        } else {
            "REFRESH ENDED WITH ERRORS".to_owned()
        };
        self.completion = Some(Completion { title, summary, failed: failed > 0 });
        self.maybe_finish_quit();
        assert(self@ =~= refresh_completed(app, all));
    }

    fn fail_refresh(&mut self, operation: &str, detail: &str)
        ensures
            final(self)@ == refresh_failed(old(self)@, operation@, detail@),
    {
        let ghost app = self@;
        let mut i: usize = 0;
        while i < self.states.len()
            invariant
                i <= self.states@.len() == app.states.len(),
                self@ == (AppView { states: self@.states, ..app }),
                forall|k: int|
                    0 <= k < app.states.len() ==> #[trigger] self@.states[k] == if k < i {
                        rows_idle_again(app.states)[k]
                    } else {
                        app.states[k]
                    },
            decreases self.states@.len() - i,
        {
            let ghost before = self@;
            assert(self.states@[i as int]@ == before.states[i as int]);
            let waits = matches!(&self.states[i], RowState::Queued | RowState::Checking);
            if waits {
                self.states.set(i, RowState::Idle);
                assert(rows(self.states@) =~= before.states.update(i as int, RowView::Idle));
            }
            i = i + 1;
        }
        assert(rows(self.states@) =~= rows_idle_again(app.states));
        self.refresh_run = None;
        let mut status = concat(operation, " failed: ");
        status.append(detail);
        self.status = status;
        self.completion =
        Some(
            Completion {
                title: "REFRESH FAILED".to_owned(),
                summary: detail.to_owned(),
                failed: true,
            },
        );
        self.maybe_finish_quit();
        assert(self@ =~= refresh_failed(app, operation@, detail@));
    }

    /// Takes in a message of a background worker.
    pub fn receive(&mut self, message: &UiMessage)
        requires
            old(self)@.valid(),
            complete_results(old(self)@, message@),
        ensures
            final(self)@ == received(old(self)@, message@),
            final(self)@.valid(),
    {
        proof {
            messages_are_sound(self@, message@);
            reveal(received);
        }
        match message {
            UiMessage::Engine { run_id, event } => self.receive_event(*run_id, event),
            UiMessage::InspectionComplete { run_id, results } => {
                if self.refresh_run == Some(*run_id) {
                    self.complete_refresh(results);
                }
            },
            UiMessage::SyncComplete { run_id, results } => self.complete_sync_batch(
                *run_id,
                results,
            ),
            UiMessage::OperationFailed { run_id, operation, detail } => {
                if self.refresh_run == Some(*run_id) {
                    self.fail_refresh(operation.as_str(), detail.as_str());
                } else {
                    self.fail_sync_batch(*run_id, detail.as_str());
                }
            },
        }
    }

    /// Takes in the messages of background workers, in order.
    pub fn drain_messages(&mut self, messages: &Vec<UiMessage>)
        requires
            old(self)@.valid(),
            forall|i: int|
                0 <= i < messages@.len() ==> complete_results(
                    old(self)@,
                    #[trigger] message_views(messages@)[i],
                ),
        ensures
            final(self)@ == all_received(
                old(self)@,
                message_views(messages@),
                messages@.len(),
            ),
            final(self)@.valid(),
    {
        let ghost app = self@;
        let ghost all = message_views(messages@);
        let mut i: usize = 0;
        while i < messages.len()
            invariant
                i <= messages@.len(),
                all == message_views(messages@),
                self@ == all_received(app, all, i as nat),
                self@.valid(),
                self@.repositories == app.repositories,
                self@.refresh_run is Some ==> self@.refresh_run == app.refresh_run,
                forall|k: int|
                    0 <= k < messages@.len() ==> complete_results(app, #[trigger] all[k]),
            decreases messages@.len() - i,
        {
            proof {
                assert(all[i as int] == messages@[i as int]@);
                assert(complete_results(app, all[i as int]));
                messages_are_sound(self@, all[i as int]);
            }
            self.receive(&messages[i]);
            i = i + 1;
        }
    }
}

} // verus!
