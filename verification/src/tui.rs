//! The state of the interactive interface.
use crate::engine::{EngineEvent, EventView};
use crate::form::{FormView, RepoForm};
use crate::git::Settings;
use crate::model::{
    entries, findings, outcomes, Inspection, InspectionView, Repository, RepositoryView,
    SyncResult, SyncResultView,
};
use crate::path::{paths, same_path, RawPath};
use crate::rows::{rows, RowState, RowView};
use crate::text::{same_text, texts};
use vstd::prelude::*;

verus! {

// ---------------------------------------------------------------------------
// Parts of the state
// ---------------------------------------------------------------------------

/// Repositories that are synchronized together.
#[derive(Debug)]
pub struct SyncBatch {
    pub run_id: u64,
    pub indices: Vec<usize>,
    pub keys: Vec<RawPath>,
    pub completed: Vec<bool>,
}

/// The contents of a [`SyncBatch`].
#[verifier::ext_equal]
pub struct BatchView {
    pub run_id: u64,
    pub indices: Seq<usize>,
    pub keys: Seq<Seq<u8>>,
    pub completed: Seq<bool>,
}

impl View for SyncBatch {
    type V = BatchView;

    open spec fn view(&self) -> BatchView {
        BatchView {
            run_id: self.run_id,
            indices: self.indices@,
            keys: paths(self.keys@),
            completed: self.completed@,
        }
    }
}

/// The contents of a list of batches.
pub open spec fn batch_views(list: Seq<SyncBatch>) -> Seq<BatchView> {
    Seq::new(list.len(), |i: int| list[i]@)
}

/// The path of a repository under way and the batch that works on it.
#[derive(Debug)]
pub struct ActiveRepository {
    pub key: RawPath,
    pub run_id: u64,
}

/// The repositories under way, each with its batch.
pub open spec fn active_views(list: Seq<ActiveRepository>) -> Seq<(Seq<u8>, u64)> {
    Seq::new(list.len(), |i: int| (list[i].key@, list[i].run_id))
}

/// The counts over all batches since none was running.
#[derive(Clone, Copy, Debug, PartialEq, Eq, Structural)]
pub struct SyncTotals {
    pub launched: usize,
    pub finished: usize,
    pub updated: usize,
    pub skipped: usize,
    pub failed: usize,
}

/// The counts before anything was launched.
pub open spec fn no_totals() -> SyncTotals {
    SyncTotals { launched: 0, finished: 0, updated: 0, skipped: 0, failed: 0 }
}

/// The end of the last operation.
#[derive(Debug, PartialEq, Eq)]
pub struct Completion {
    pub title: String,
    pub summary: String,
    pub failed: bool,
}

/// The contents of a [`Completion`].
#[verifier::ext_equal]
pub struct CompletionView {
    pub title: Seq<char>,
    pub summary: Seq<char>,
    pub failed: bool,
}

impl View for Completion {
    type V = CompletionView;

    open spec fn view(&self) -> CompletionView {
        CompletionView { title: self.title@, summary: self.summary@, failed: self.failed }
    }
}

/// What the keys act on.
#[derive(Debug, PartialEq, Eq)]
pub enum Mode {
    Normal,
    Help,
    Form(RepoForm),
    ConfirmDelete,
}

/// The contents of a [`Mode`].
#[verifier::ext_equal]
pub enum ModeView {
    Normal,
    Help,
    Form(FormView),
    ConfirmDelete,
}

impl View for Mode {
    type V = ModeView;

    open spec fn view(&self) -> ModeView {
        match self {
            Mode::Normal => ModeView::Normal,
            Mode::Help => ModeView::Help,
            Mode::Form(form) => ModeView::Form(form@),
            Mode::ConfirmDelete => ModeView::ConfirmDelete,
        }
    }
}

/// What a background worker tells.
#[allow(inconsistent_fields)]
#[derive(Debug)]
pub enum UiMessage {
    Engine { run_id: u64, event: EngineEvent },
    InspectionComplete { run_id: u64, results: Vec<Inspection> },
    SyncComplete { run_id: u64, results: Vec<SyncResult> },
    OperationFailed { run_id: u64, operation: String, detail: String },
}

/// The contents of a [`UiMessage`].
#[allow(inconsistent_fields)]
#[verifier::ext_equal]
pub enum MessageView {
    Engine { run_id: u64, event: EventView },
    InspectionComplete { run_id: u64, results: Seq<InspectionView> },
    SyncComplete { run_id: u64, results: Seq<SyncResultView> },
    OperationFailed { run_id: u64, operation: Seq<char>, detail: Seq<char> },
}

impl View for UiMessage {
    type V = MessageView;

    open spec fn view(&self) -> MessageView {
        match self {
            UiMessage::Engine { run_id, event } => MessageView::Engine {
                run_id: *run_id,
                event: event@,
            },
            UiMessage::InspectionComplete { run_id, results } => MessageView::InspectionComplete {
                run_id: *run_id,
                results: findings(results@),
            },
            UiMessage::SyncComplete { run_id, results } => MessageView::SyncComplete {
                run_id: *run_id,
                results: outcomes(results@),
            },
            UiMessage::OperationFailed { run_id, operation, detail } =>
                MessageView::OperationFailed {
                run_id: *run_id,
                operation: operation@,
                detail: detail@,
            },
        }
    }
}

/// The contents of a list of messages.
pub open spec fn message_views(list: Seq<UiMessage>) -> Seq<MessageView> {
    Seq::new(list.len(), |i: int| list[i]@)
}

/// The state of the interface.
#[derive(Debug)]
pub struct App {
    pub settings: Settings,
    pub repositories: Vec<Repository>,
    pub states: Vec<RowState>,
    pub selected: Option<usize>,
    pub marked: Vec<String>,
    pub sync_batches: Vec<SyncBatch>,
    pub active_repositories: Vec<ActiveRepository>,
    pub sync_totals: SyncTotals,
    pub refresh_run: Option<u64>,
    pub color_enabled: bool,
    pub mode: Mode,
    pub status: String,
    pub completion: Option<Completion>,
    pub quit: bool,
    pub quit_pending: bool,
    pub run_id: u64,
}

/// The contents of an [`App`].
#[verifier::ext_equal]
pub struct AppView {
    pub settings: Settings,
    pub repositories: Seq<RepositoryView>,
    pub states: Seq<RowView>,
    pub selected: Option<usize>,
    pub marked: Seq<Seq<char>>,
    pub batches: Seq<BatchView>,
    pub active: Seq<(Seq<u8>, u64)>,
    pub totals: SyncTotals,
    pub refresh_run: Option<u64>,
    pub color_enabled: bool,
    pub mode: ModeView,
    pub status: Seq<char>,
    pub completion: Option<CompletionView>,
    pub quit: bool,
    pub quit_pending: bool,
    pub run_id: u64,
}

impl View for App {
    type V = AppView;

    open spec fn view(&self) -> AppView {
        AppView {
            settings: self.settings,
            repositories: entries(self.repositories@),
            states: rows(self.states@),
            selected: self.selected,
            marked: texts(self.marked@),
            batches: batch_views(self.sync_batches@),
            active: active_views(self.active_repositories@),
            totals: self.sync_totals,
            refresh_run: self.refresh_run,
            color_enabled: self.color_enabled,
            mode: self.mode@,
            status: self.status@,
            completion: match self.completion {
                Some(completion) => Some(completion@),
                None => None,
            },
            quit: self.quit,
            quit_pending: self.quit_pending,
            run_id: self.run_id,
        }
    }
}

// ---------------------------------------------------------------------------
// Invariants
// ---------------------------------------------------------------------------

/// How many repositories of a batch have no result yet.
pub open spec fn open_items(completed: Seq<bool>) -> nat
    decreases completed.len(),
{
    if completed.len() == 0 {
        0
    } else {
        open_items(completed.drop_last()) + if completed.last() {
            0nat
        } else {
            1nat
        }
    }
}

/// How many repositories of all batches have no result yet.
pub open spec fn pending(batches: Seq<BatchView>) -> nat
    decreases batches.len(),
{
    if batches.len() == 0 {
        0
    } else {
        pending(batches.drop_last()) + open_items(batches.last().completed)
    }
}

/// How many repositories all batches have.
pub open spec fn members(batches: Seq<BatchView>) -> nat
    decreases batches.len(),
{
    if batches.len() == 0 {
        0
    } else {
        members(batches.drop_last()) + batches.last().indices.len()
    }
}

impl BatchView {
    /// Whether a batch fits a list of `count` repositories. None is in it twice.
    pub open spec fn fits(self, count: nat) -> bool {
        &&& self.keys.len() == self.indices.len()
        &&& self.completed.len() == self.indices.len()
        &&& self.indices.no_duplicates()
        &&& forall|k: int| 0 <= k < self.indices.len() ==> (#[trigger] self.indices[k]) < count
    }

    /// Whether a batch works on a path.
    pub open spec fn holds(self, key: Seq<u8>) -> bool {
        exists|k: int| 0 <= k < self.keys.len() && same_path(key, #[trigger] self.keys[k])
    }
}

/// Batches have numbers of their own, in order, and fit a list of `count` repositories.
pub open spec fn batches_fit(batches: Seq<BatchView>, count: nat, run_id: u64) -> bool {
    &&& forall|b: int|
        0 <= b < batches.len() ==> (#[trigger] batches[b]).fits(count) && batches[b].run_id
            <= run_id
    &&& forall|b: int, c: int|
        0 <= b < c < batches.len() ==> (#[trigger] batches[b]).run_id < (
        #[trigger] batches[c]).run_id
}

/// Whether a running batch works on a path.
pub open spec fn held(entry: (Seq<u8>, u64), batches: Seq<BatchView>) -> bool {
    exists|b: int|
        0 <= b < batches.len() && (#[trigger] batches[b]).run_id == entry.1 && batches[b].holds(
            entry.0,
        )
}

/// No path is under way twice, and each belongs to a running batch.
pub open spec fn active_fit(active: Seq<(Seq<u8>, u64)>, batches: Seq<BatchView>) -> bool {
    &&& forall|i: int, j: int|
        0 <= i < j < active.len() ==> !same_path(
            (#[trigger] active[i]).0,
            (#[trigger] active[j]).0,
        )
    &&& forall|i: int| 0 <= i < active.len() ==> held(#[trigger] active[i], batches)
}

impl AppView {
    /// Whether anything runs in the background.
    pub open spec fn busy(self) -> bool {
        self.refresh_run is Some || self.batches.len() > 0
    }

    /// Every repository has a state, and one of them is selected.
    pub open spec fn rows_fit(self) -> bool {
        &&& self.states.len() == self.repositories.len()
        &&& self.selected is None <==> self.repositories.len() == 0
        &&& self.selected matches Some(index) ==> index < self.repositories.len()
    }

    /// The counts agree with the batches.
    pub open spec fn totals_fit(self) -> bool {
        &&& self.totals.finished == self.totals.updated + self.totals.skipped + self.totals.failed
        &&& self.totals.finished + pending(self.batches) <= self.totals.launched
        &&& members(self.batches) <= self.totals.launched
    }

    /// A refresh runs alone. A form is open, an end is shown and the interface is left only
    /// while nothing runs.
    pub open spec fn phases_fit(self) -> bool {
        &&& self.refresh_run is Some ==> self.batches.len() == 0
        &&& self.refresh_run matches Some(run) ==> run <= self.run_id
        &&& self.mode is Form || self.mode is ConfirmDelete ==> !self.busy()
        &&& self.mode matches ModeView::Form(form) ==> form.field < 4
        &&& self.completion is Some ==> !self.busy()
        &&& self.quit ==> !self.busy()
    }

    /// What holds of the state at all times.
    pub open spec fn sound(self) -> bool {
        &&& self.rows_fit()
        &&& self.marked.no_duplicates()
        &&& batches_fit(self.batches, self.repositories.len(), self.run_id)
        &&& active_fit(self.active, self.batches)
        &&& self.totals_fit()
        &&& self.phases_fit()
    }

    /// What holds of the state between two operations: besides, the interface is left as soon
    /// as nothing runs any more.
    pub open spec fn valid(self) -> bool {
        self.sound() && (self.quit_pending ==> self.busy() || self.quit)
    }
}

// ---------------------------------------------------------------------------
// Rows
// ---------------------------------------------------------------------------

/// The state after the selection moved down.
pub open spec fn moved_down(app: AppView) -> AppView {
    if app.repositories.len() == 0 {
        app
    } else {
        let index = if app.selected is Some {
            app.selected->0 as int
        } else {
            0
        };
        AppView {
            selected: Some(
                if index + 1 >= app.repositories.len() {
                    0
                } else {
                    (index + 1) as usize
                },
            ),
            ..app
        }
    }
}

/// The state after the selection moved up.
pub open spec fn moved_up(app: AppView) -> AppView {
    if app.repositories.len() == 0 {
        app
    } else {
        let index = if app.selected is Some {
            app.selected->0 as int
        } else {
            0
        };
        AppView {
            selected: Some(
                if index == 0 {
                    (app.repositories.len() - 1) as usize
                } else {
                    (index - 1) as usize
                },
            ),
            ..app
        }
    }
}

/// A list of marks without a name.
pub open spec fn unmarked(marked: Seq<Seq<char>>, name: Seq<char>) -> Seq<Seq<char>>
    decreases marked.len(),
{
    if marked.len() == 0 {
        marked
    } else if marked.last() == name {
        unmarked(marked.drop_last(), name)
    } else {
        unmarked(marked.drop_last(), name).push(marked.last())
    }
}

/// The state after the mark of the selected repository was changed.
pub open spec fn mark_toggled(app: AppView) -> AppView {
    match app.selected {
        None => app,
        Some(index) => {
            let name = app.repositories[index as int].name;
            AppView {
                marked: if app.marked.contains(name) {
                    unmarked(app.marked, name)
                } else {
                    app.marked.push(name)
                },
                ..app
            }
        },
    }
}

pub(crate) fn is_marked(marked: &Vec<String>, name: &str) -> (answer: bool)
    ensures
        answer == texts(marked@).contains(name@),
{
    let mut i: usize = 0;
    while i < marked.len()
        invariant
            i <= marked@.len(),
            forall|j: int| 0 <= j < i ==> #[trigger] texts(marked@)[j] != name@,
        decreases marked@.len() - i,
    {
        if same_text(marked[i].as_str(), name) {
            assert(texts(marked@)[i as int] == name@);
            return true;
        }
        i = i + 1;
    }
    false
}

pub(crate) fn unmark(marked: &Vec<String>, name: &str) -> (result: Vec<String>)
    ensures
        texts(result@) == unmarked(texts(marked@), name@),
{
    let ghost all = texts(marked@);
    let mut result: Vec<String> = Vec::new();
    let mut i: usize = 0;
    assert(all.take(0) =~= Seq::<Seq<char>>::empty());
    assert(texts(result@) =~= all.take(0));
    while i < marked.len()
        invariant
            i <= marked@.len(),
            all == texts(marked@),
            texts(result@) == unmarked(all.take(i as int), name@),
        decreases marked@.len() - i,
    {
        proof {
            assert(all.take(i + 1).drop_last() =~= all.take(i as int));
            assert(all.take(i + 1).last() == marked@[i as int]@);
        }
        if !same_text(marked[i].as_str(), name) {
            let ghost before = texts(result@);
            result.push(marked[i].clone());
            assert(texts(result@) =~= before.push(marked@[i as int]@));
        }
        i = i + 1;
    }
    assert(all.take(i as int) =~= all);
    result
}

impl App {
    /// The interface before anything happened.
    pub fn new(repositories: Vec<Repository>, settings: Settings, color_enabled: bool) -> (app: Self)
        ensures
            app@ == started(entries(repositories@), settings, color_enabled),
            app@.valid(),
    {
        let states = all_rows(repositories.len(), &RowState::Idle);
        let app = App {
            settings,
            selected: if repositories.len() == 0 {
                None
            } else {
                Some(0)
            },
            repositories,
            states,
            marked: Vec::new(),
            sync_batches: Vec::new(),
            active_repositories: Vec::new(),
            sync_totals: SyncTotals {
                launched: 0,
                finished: 0,
                updated: 0,
                skipped: 0,
                failed: 0,
            },
            refresh_run: None,
            color_enabled,
            mode: Mode::Normal,
            status: "ready".to_owned(),
            completion: None,
            quit: false,
            quit_pending: false,
            run_id: 0,
        };
        assert(app@ =~= started(entries(repositories@), settings, color_enabled));
        app
    }

    /// The selected repository.
    pub fn selected(&self) -> (index: Option<usize>)
        ensures
            index == self@.selected,
    {
        self.selected
    }

    /// Moves the selection down, and from the last repository to the first.
    pub fn next(&mut self)
        requires
            old(self)@.valid(),
        ensures
            final(self)@ == moved_down(old(self)@),
            final(self)@.valid(),
    {
        let count: usize = self.repositories.len();
        if count == 0 {
            return;
        }
        let index: usize = match self.selected {
            Some(index) => index,
            None => 0,
        };
        self.selected = Some(
            if index + 1 >= count {
                0
            } else {
                index + 1
            },
        );
        proof {
            selecting(old(self)@, self.selected->0);
        }
    }

    /// Moves the selection up, and from the first repository to the last.
    pub fn previous(&mut self)
        requires
            old(self)@.valid(),
        ensures
            final(self)@ == moved_up(old(self)@),
            final(self)@.valid(),
    {
        if self.repositories.len() == 0 {
            return;
        }
        let index: usize = match self.selected {
            Some(index) => index,
            None => 0,
        };
        self.selected = Some(
            if index == 0 {
                self.repositories.len() - 1
            } else {
                index - 1
            },
        );
        proof {
            selecting(old(self)@, self.selected->0);
        }
    }

    /// Marks the selected repository, or takes its mark away.
    pub fn toggle_mark(&mut self)
        requires
            old(self)@.valid(),
        ensures
            final(self)@ == mark_toggled(old(self)@),
            final(self)@.valid(),
    {
        let index: usize = match self.selected {
            Some(index) => index,
            None => return,
        };
        let name = self.repositories[index].name.clone();
        proof {
            assert(self@.repositories[index as int].name == name@);
            unmarking(self@.marked, name@);
        }
        if is_marked(&self.marked, name.as_str()) {
            self.marked = unmark(&self.marked, name.as_str());
            assert(self@ =~= mark_toggled(old(self)@));
        } else {
            self.marked.push(name);
            assert(texts(self.marked@) =~= old(self)@.marked.push(name@));
            assert(self@ =~= mark_toggled(old(self)@));
        }
    }

    /// Whether anything runs in the background.
    pub fn has_active_operations(&self) -> (answer: bool)
        ensures
            answer == self@.busy(),
    {
        self.refresh_run.is_some() || self.sync_batches.len() > 0
    }
}

/// Taking marks away keeps the others, each once.
pub proof fn unmarking(marked: Seq<Seq<char>>, name: Seq<char>)
    ensures
        !unmarked(marked, name).contains(name),
        forall|other: Seq<char>|
            other != name ==> #[trigger] unmarked(marked, name).contains(other)
                == marked.contains(other),
        marked.no_duplicates() ==> unmarked(marked, name).no_duplicates(),
    decreases marked.len(),
{
    if marked.len() > 0 {
        let front = marked.drop_last();
        let last = marked.last();
        unmarking(front, name);
        let rest = unmarked(front, name);
        let result = unmarked(marked, name);
        assert forall|other: Seq<char>| other != name implies #[trigger] result.contains(other)
            == marked.contains(other) by {
            assert(rest.contains(other) == front.contains(other));
            if marked.contains(other) {
                let i = choose|i: int| 0 <= i < marked.len() && marked[i] == other;
                if i < front.len() {
                    assert(front[i] == other);
                    let k = choose|k: int| 0 <= k < rest.len() && rest[k] == other;
                    assert(result[k] == other);
                } else {
                    assert(result[rest.len() as int] == other);
                }
            }
            if result.contains(other) {
                let k = choose|k: int| 0 <= k < result.len() && result[k] == other;
                if k < rest.len() {
                    assert(rest[k] == other);
                    let i = choose|i: int| 0 <= i < front.len() && front[i] == other;
                    assert(marked[i] == other);
                } else {
                    assert(marked[marked.len() - 1] == other);
                }
            }
        }
        if result.contains(name) {
            let k = choose|k: int| 0 <= k < result.len() && result[k] == name;
            assert(rest[k] == name);
        }
        if marked.no_duplicates() {
            assert(front.no_duplicates());
            if last != name {
                assert(!rest.contains(last)) by {
                    assert(rest.contains(last) == front.contains(last));
                    if front.contains(last) {
                        let i = choose|i: int| 0 <= i < front.len() && front[i] == last;
                        assert(marked[i] == marked[marked.len() - 1]);
                    }
                }
                assert forall|i: int, j: int| 0 <= i < result.len() && 0 <= j < result.len() && i
                    != j implies result[i] != result[j] by {
                    if i < rest.len() {
                        assert(rest.contains(rest[i]));
                    }
                    if j < rest.len() {
                        assert(rest.contains(rest[j]));
                    }
                }
            }
        }
    }
}

proof fn selecting(app: AppView, index: usize)
    requires
        app.valid(),
        index < app.repositories.len(),
    ensures
        (AppView { selected: Some(index), ..app }).valid(),
{
}

/// The interface before anything happened.
pub open spec fn started(
    repositories: Seq<RepositoryView>,
    settings: Settings,
    color_enabled: bool,
) -> AppView {
    AppView {
        settings,
        repositories,
        states: Seq::new(repositories.len(), |i: int| RowView::Idle),
        selected: if repositories.len() == 0 {
            None
        } else {
            Some(0)
        },
        marked: seq![],
        batches: seq![],
        active: seq![],
        totals: no_totals(),
        refresh_run: None,
        color_enabled,
        mode: ModeView::Normal,
        status: "ready"@,
        completion: None,
        quit: false,
        quit_pending: false,
        run_id: 0,
    }
}

pub(crate) fn all_rows(count: usize, state: &RowState) -> (states: Vec<RowState>)
    ensures
        rows(states@) == Seq::new(count as nat, |i: int| state@),
{
    let mut states: Vec<RowState> = Vec::new();
    let mut i: usize = 0;
    assert(rows(states@) =~= Seq::new(0, |j: int| state@));
    while i < count
        invariant
            i <= count,
            rows(states@) == Seq::new(i as nat, |j: int| state@),
        decreases count - i,
    {
        let ghost before = rows(states@);
        states.push(state.clone());
        assert(rows(states@) =~= before.push(state@));
        assert(before.push(state@) =~= Seq::new((i + 1) as nat, |j: int| state@));
        i = i + 1;
    }
    states
}

} // verus!
