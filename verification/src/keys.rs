//! What the keys do.
use crate::batches::idle_means_unlocked;
use crate::config::{list_result, sort_by_name, sorted};
use crate::failure::{Failure, FailureView};
use crate::form::{add_form, edit_form, edited, FormView, Key, RepoForm};
use crate::messages::{can_refresh, refresh_started, RefreshJob};
use crate::model::{copy_repositories, entries, Repository, RepositoryView};
use crate::rows::{rows, RowState, RowView};
use crate::text::{concat, texts};
use crate::tui::{
    all_rows, mark_toggled, moved_down, moved_up, unmark, unmarked, unmarking, App, AppView, Mode,
    ModeView,
};
use vstd::prelude::*;

verus! {

/// What is left to do outside after a key.
#[derive(Debug)]
pub enum Action {
    /// Nothing.
    Nothing,
    /// Run a refresh in the background.
    Refresh(RefreshJob),
    /// Resolve the paths of the repositories and start to synchronize them.
    Sync { all: bool },
    /// Save the registry without the selected repository.
    Delete(Vec<Repository>),
    /// Check the form and save what it asks for.
    Save,
}

/// The contents of an [`Action`].
#[verifier::ext_equal]
pub enum ActionView {
    Nothing,
    Refresh { run_id: u64, refresh: bool, repositories: Seq<RepositoryView> },
    Sync { all: bool },
    Delete(Seq<RepositoryView>),
    Save,
}

impl View for Action {
    type V = ActionView;

    open spec fn view(&self) -> ActionView {
        match self {
            Action::Nothing => ActionView::Nothing,
            Action::Refresh(job) => ActionView::Refresh {
                run_id: job.run_id,
                refresh: job.refresh,
                repositories: entries(job.repositories@),
            },
            Action::Sync { all } => ActionView::Sync { all: *all },
            Action::Delete(candidate) => ActionView::Delete(entries(candidate@)),
            Action::Save => ActionView::Save,
        }
    }
}

/// The key without the control key.
pub open spec fn bare_key(key: Key) -> Key {
    match key {
        Key::Control(c) => Key::Char(c),
        _ => key,
    }
}

/// The state after the end of the interface was asked for.
pub open spec fn quit_requested(app: AppView) -> AppView {
    if app.busy() {
        AppView {
            quit_pending: true,
            status: "Will quit when all active Git operations finish"@,
            ..app
        }
    } else {
        AppView { quit: true, ..app }
    }
}

/// The state with a form.
pub open spec fn with_form(app: AppView, form: FormView) -> AppView {
    AppView { mode: ModeView::Form(form), ..app }
}

/// The state after a key that acts on the rows.
pub open spec fn row_key_pressed(app: AppView, key: Key) -> AppView {
    match bare_key(key) {
        Key::Char('q') | Key::Esc => quit_requested(app),
        Key::Down | Key::Char('j') => moved_down(app),
        Key::Up | Key::Char('k') => moved_up(app),
        Key::Char(' ') => mark_toggled(app),
        Key::Char('r') => refresh_started(app, true),
        Key::Char('a') => if app.busy() {
            app
        } else {
            with_form(AppView { completion: None, ..app }, add_form())
        },
        Key::Char('e') => if app.busy() {
            app
        } else {
            let clean = AppView { completion: None, ..app };
            match app.selected {
                Some(index) => with_form(clean, edit_form(app.repositories[index as int])),
                None => clean,
            }
        },
        Key::Char('d') => if app.busy() || app.selected is None {
            app
        } else {
            AppView { completion: None, mode: ModeView::ConfirmDelete, ..app }
        },
        Key::Char('?') => AppView { mode: ModeView::Help, ..app },
        _ => app,
    }
}

/// What is left to do after a key that acts on the rows.
pub open spec fn row_key_action(app: AppView, key: Key) -> ActionView {
    match bare_key(key) {
        Key::Char('r') => if can_refresh(app) {
            ActionView::Refresh {
                run_id: (app.run_id + 1) as u64,
                refresh: true,
                repositories: app.repositories,
            }
        } else {
            ActionView::Nothing
        },
        Key::Char('s') => ActionView::Sync { all: false },
        Key::Char('S') => ActionView::Sync { all: true },
        _ => ActionView::Nothing,
    }
}

/// The state after a key.
pub open spec fn key_pressed(app: AppView, key: Key) -> AppView {
    if app.quit_pending || app.quit {
        app
    } else if key == Key::Control('c') {
        quit_requested(app)
    } else {
        match app.mode {
            ModeView::Normal => row_key_pressed(app, key),
            ModeView::Help => match bare_key(key) {
                Key::Esc | Key::Char('q') | Key::Char('?') => AppView {
                    mode: ModeView::Normal,
                    ..app
                },
                _ => app,
            },
            ModeView::ConfirmDelete => match bare_key(key) {
                Key::Char('y') | Key::Enter | Key::Char('n') | Key::Esc => AppView {
                    mode: ModeView::Normal,
                    ..app
                },
                _ => app,
            },
            ModeView::Form(form) => match key {
                Key::Esc => AppView { mode: ModeView::Normal, ..app },
                Key::Enter => app,
                _ => with_form(app, edited(form, key)),
            },
        }
    }
}

/// What is left to do after a key.
pub open spec fn key_action(app: AppView, key: Key) -> ActionView {
    if app.quit_pending || app.quit || key == Key::Control('c') {
        ActionView::Nothing
    } else {
        match app.mode {
            ModeView::Normal => row_key_action(app, key),
            ModeView::Help => ActionView::Nothing,
            ModeView::ConfirmDelete => match bare_key(key) {
                Key::Char('y') | Key::Enter => match app.selected {
                    Some(index) => ActionView::Delete(app.repositories.remove(index as int)),
                    None => ActionView::Nothing,
                },
                _ => ActionView::Nothing,
            },
            ModeView::Form(_) => if key == Key::Enter {
                ActionView::Save
            } else {
                ActionView::Nothing
            },
        }
    }
}

// ---------------------------------------------------------------------------
// Saving
// ---------------------------------------------------------------------------

/// A registry that could not be saved, and what reading it again gave.
#[derive(Debug)]
pub struct SaveFailure {
    pub failure: Failure,
    pub reloaded: Result<Vec<Repository>, Failure>,
}

/// The contents of a [`SaveFailure`].
#[verifier::ext_equal]
pub struct SaveFailureView {
    pub failure: FailureView,
    pub reloaded: Result<Seq<RepositoryView>, FailureView>,
}

impl View for SaveFailure {
    type V = SaveFailureView;

    open spec fn view(&self) -> SaveFailureView {
        SaveFailureView { failure: self.failure@, reloaded: list_result(self.reloaded) }
    }
}

/// The view of an attempt to save.
pub open spec fn save_result(result: Result<(), SaveFailure>) -> Result<(), SaveFailureView> {
    match result {
        Ok(()) => Ok(()),
        Err(failure) => Err(failure@),
    }
}

/// The first row, where there is one.
pub open spec fn first_row(count: nat) -> Option<usize> {
    if count == 0 {
        None
    } else {
        Some(0)
    }
}

/// The state with another list of repositories.
pub open spec fn with_registry(app: AppView, list: Seq<RepositoryView>) -> AppView {
    AppView {
        repositories: list,
        states: Seq::new(list.len(), |i: int| RowView::Idle),
        marked: seq![],
        selected: first_row(list.len()),
        ..app
    }
}

/// The state after the registry was read again.
pub open spec fn reread(app: AppView, list: Result<Seq<RepositoryView>, FailureView>) -> AppView {
    match list {
        Ok(list) => with_registry(app, list),
        Err(_) => app,
    }
}

/// What is said about reading the registry again.
pub open spec fn reread_text(list: Result<Seq<RepositoryView>, FailureView>) -> Seq<char> {
    match list {
        Ok(_) => "; registry reloaded; review changes before retrying"@,
        Err(failure) => "; cannot reload registry: "@ + failure.full_text(),
    }
}

/// The state after the attempt to remove the selected repository.
pub open spec fn delete_finished(app: AppView, saved: Result<(), SaveFailureView>) -> AppView {
    match saved {
        Err(failure) => AppView {
            status: "Cannot remove repository: "@ + failure.failure.full_text() + reread_text(
                failure.reloaded,
            ),
            mode: ModeView::Normal,
            ..reread(app, failure.reloaded)
        },
        Ok(_) => {
            let index = app.selected->0;
            let name = app.repositories[index as int].name;
            let left = app.repositories.remove(index as int);
            AppView {
                repositories: left,
                states: app.states.remove(index as int),
                marked: unmarked(app.marked, name),
                selected: if left.len() == 0 {
                    None
                } else if index < left.len() {
                    Some(index)
                } else {
                    Some((left.len() - 1) as usize)
                },
                status: "Removed "@ + name + " from the registry"@,
                mode: ModeView::Normal,
                ..app
            }
        },
    }
}

/// The state after a form was refused.
pub open spec fn form_refused(app: AppView, text: Seq<char>) -> AppView {
    match app.mode {
        ModeView::Form(form) => with_form(app, FormView { error: Some(text), ..form }),
        _ => app,
    }
}

/// The state after the attempt to save what a form asks for.
pub open spec fn save_finished(
    app: AppView,
    candidate: Seq<RepositoryView>,
    saved: Result<(), SaveFailureView>,
) -> AppView {
    match saved {
        Err(failure) => form_refused(
            reread(app, failure.reloaded),
            failure.failure.full_text() + reread_text(failure.reloaded),
        ),
        Ok(_) => AppView {
            status: "Registry saved"@,
            mode: ModeView::Normal,
            ..with_registry(app, sorted(candidate))
        },
    }
}

proof fn replacing_is_sound(app: AppView, after: AppView)
    requires
        app.valid(),
        !app.busy(),
        after == (AppView {
            repositories: after.repositories,
            states: after.states,
            marked: after.marked,
            selected: after.selected,
            status: after.status,
            mode: after.mode,
            ..app
        }),
        after.rows_fit(),
        after.marked.no_duplicates(),
        after.mode matches ModeView::Form(form) ==> form.field < 4,
    ensures
        after.valid(),
{
    idle_means_unlocked(app);
}

fn strip_control(key: Key) -> (bare: Key)
    ensures
        bare == bare_key(key),
{
    match key {
        Key::Control(c) => Key::Char(c),
        _ => key,
    }
}

impl App {
    /// Leaves the interface, or waits to do so until nothing runs.
    pub fn request_quit(&mut self)
        requires
            old(self)@.valid(),
        ensures
            final(self)@ == quit_requested(old(self)@),
            final(self)@.valid(),
    {
        if self.has_active_operations() {
            self.quit_pending = true;
            self.status = "Will quit when all active Git operations finish".to_owned();
        } else {
            self.quit = true;
        }
    }

    /// Acts on a key.
    pub fn handle_key(&mut self, key: Key) -> (action: Action)
        requires
            old(self)@.valid(),
            old(self)@.run_id < u64::MAX,
        ensures
            final(self)@ == key_pressed(old(self)@, key),
            action@ == key_action(old(self)@, key),
            final(self)@.valid(),
    {
        if self.quit_pending || self.quit {
            return Action::Nothing;
        }
        if key == Key::Control('c') {
            self.request_quit();
            return Action::Nothing;
        }
        match &self.mode {
            Mode::Normal => self.handle_normal_key(key),
            Mode::Help => {
                match strip_control(key) {
                    Key::Esc | Key::Char('q') | Key::Char('?') => {
                        self.mode = Mode::Normal;
                    },
                    _ => {},
                }
                Action::Nothing
            },
            Mode::ConfirmDelete => self.handle_delete_key(key),
            Mode::Form(form) => {
                let form = form.clone();
                self.handle_form_key(key, form)
            },
        }
    }

    fn handle_normal_key(&mut self, key: Key) -> (action: Action)
        requires
            old(self)@.valid(),
            old(self)@.mode is Normal,
            old(self)@.run_id < u64::MAX,
        ensures
            final(self)@ == row_key_pressed(old(self)@, key),
            action@ == row_key_action(old(self)@, key),
            final(self)@.valid(),
    {
        match strip_control(key) {
            Key::Char('q') | Key::Esc => self.request_quit(),
            Key::Down | Key::Char('j') => self.next(),
            Key::Up | Key::Char('k') => self.previous(),
            Key::Char(' ') => self.toggle_mark(),
            Key::Char('r') => {
                return match self.start_refresh(true) {
                    Some(job) => Action::Refresh(job),
                    None => Action::Nothing,
                };
            },
            Key::Char('s') => return Action::Sync { all: false },
            Key::Char('S') => return Action::Sync { all: true },
            Key::Char('a') => {
                if !self.has_active_operations() {
                    self.completion = None;
                    self.mode = Mode::Form(RepoForm::add());
                }
            },
            Key::Char('e') => {
                if !self.has_active_operations() {
                    self.completion = None;
                    if let Some(index) = self.selected {
                        assert(self@.repositories[index as int]
                            == self.repositories@[index as int]@);
                        self.mode = Mode::Form(RepoForm::edit(&self.repositories[index]));
                    }
                }
            },
            Key::Char('d') => {
                if !self.has_active_operations() && self.selected.is_some() {
                    self.completion = None;
                    self.mode = Mode::ConfirmDelete;
                }
            },
            Key::Char('?') => {
                self.mode = Mode::Help;
            },
            _ => {},
        }
        Action::Nothing
    }

    fn handle_delete_key(&mut self, key: Key) -> (action: Action)
        requires
            old(self)@.valid(),
            old(self)@.mode is ConfirmDelete,
            !old(self)@.quit_pending,
            !old(self)@.quit,
            key != Key::Control('c'),
        ensures
            final(self)@ == key_pressed(old(self)@, key),
            action@ == key_action(old(self)@, key),
            final(self)@.valid(),
    {
        match strip_control(key) {
            Key::Char('y') | Key::Enter => {
                self.mode = Mode::Normal;
                match self.selected {
                    Some(index) => {
                        let mut candidate = copy_repositories(&self.repositories);
                        assert(candidate@.len() == entries(candidate@).len());
                        candidate.remove(index);
                        assert(entries(candidate@) =~= self@.repositories.remove(index as int));
                        Action::Delete(candidate)
                    },
                    None => Action::Nothing,
                }
            },
            Key::Char('n') | Key::Esc => {
                self.mode = Mode::Normal;
                Action::Nothing
            },
            _ => Action::Nothing,
        }
    }

    fn handle_form_key(&mut self, key: Key, form: RepoForm) -> (action: Action)
        requires
            old(self)@.valid(),
            old(self)@.mode == ModeView::Form(form@),
            !old(self)@.quit_pending,
            !old(self)@.quit,
            key != Key::Control('c'),
        ensures
            final(self)@ == key_pressed(old(self)@, key),
            action@ == key_action(old(self)@, key),
            final(self)@.valid(),
    {
        let mut form = form;
        match key {
            Key::Esc => {
                self.mode = Mode::Normal;
                Action::Nothing
            },
            Key::Enter => Action::Save,
            _ => {
                form.press(key);
                self.mode = Mode::Form(form);
                Action::Nothing
            },
        }
    }

    fn replace_registry(&mut self, list: Vec<Repository>)
        ensures
            final(self)@ == with_registry(old(self)@, entries(list@)),
    {
        let ghost app = self@;
        self.states = all_rows(list.len(), &RowState::Idle);
        self.marked = Vec::new();
        self.selected =
        if list.len() == 0 {
            None
        } else {
            Some(0)
        };
        self.repositories = list;
        assert(texts(self.marked@) =~= Seq::<Seq<char>>::empty());
        assert(self@ =~= with_registry(app, entries(list@)));
    }

    fn reload_after_save_error(&mut self, reloaded: Result<Vec<Repository>, Failure>) -> (text:
        String)
        ensures
            final(self)@ == reread(old(self)@, list_result(reloaded)),
            text@ == reread_text(list_result(reloaded)),
    {
        match reloaded {
            Ok(list) => {
                self.replace_registry(list);
                "; registry reloaded; review changes before retrying".to_owned()
            },
            Err(failure) => concat("; cannot reload registry: ", failure.full().as_str()),
        }
    }

    /// Ends the removal of the selected repository, after the attempt to save the registry
    /// without it.
    pub fn finish_delete(&mut self, saved: Result<(), SaveFailure>)
        requires
            old(self)@.valid(),
            !old(self)@.busy(),
            old(self)@.selected is Some,
        ensures
            final(self)@ == delete_finished(old(self)@, save_result(saved)),
            final(self)@.valid(),
    {
        let ghost app = self@;
        match saved {
            Err(problem) => {
                let mut status = concat(
                    "Cannot remove repository: ",
                    problem.failure.full().as_str(),
                );
                let text = self.reload_after_save_error(problem.reloaded);
                status.append(text.as_str());
                self.status = status;
            },
            Ok(()) => {
                if let Some(index) = self.selected {
                    assert(app.repositories[index as int] == self.repositories@[index as int]@);
                    let name = self.repositories[index].name.clone();
                    self.repositories.remove(index);
                    assert(self.states@.len() == app.states.len());
                    self.states.remove(index);
                    self.marked = unmark(&self.marked, name.as_str());
                    let left: usize = self.repositories.len();
                    self.selected =
                    if left == 0 {
                        None
                    } else if index < left {
                        Some(index)
                    } else {
                        Some(left - 1)
                    };
                    let mut status = concat("Removed ", name.as_str());
                    status.append(" from the registry");
                    self.status = status;
                    proof {
                        unmarking(app.marked, name@);
                        assert(entries(self.repositories@) =~= app.repositories.remove(
                            index as int,
                        ));
                        assert(rows(self.states@) =~= app.states.remove(index as int));
                    }
                }
            },
        }
        self.mode = Mode::Normal;
        proof {
            assert(self@ =~= delete_finished(app, save_result(saved)));
            replacing_is_sound(app, self@);
        }
    }

    /// Says in the form why it was refused.
    pub fn refuse_form(&mut self, failure: &Failure)
        requires
            old(self)@.valid(),
        ensures
            final(self)@ == form_refused(old(self)@, failure@.full_text()),
            final(self)@.valid(),
    {
        self.show_form_error(failure.full());
    }

    fn show_form_error(&mut self, text: String)
        ensures
            final(self)@ == form_refused(old(self)@, text@),
            old(self)@.valid() ==> final(self)@.valid(),
    {
        let changed = match &self.mode {
            Mode::Form(form) => {
                let mut form = form.clone();
                form.error = Some(text);
                Some(form)
            },
            _ => None,
        };
        if let Some(form) = changed {
            self.mode = Mode::Form(form);
        }
    }

    /// Ends the saving of a form, after the attempt to save the list that it asks for.
    pub fn save_form(&mut self, candidate: &Vec<Repository>, saved: Result<(), SaveFailure>)
        requires
            old(self)@.valid(),
            old(self)@.mode is Form,
        ensures
            final(self)@ == save_finished(
                old(self)@,
                entries(candidate@),
                save_result(saved),
            ),
            final(self)@.valid(),
    {
        let ghost app = self@;
        match saved {
            Err(problem) => {
                let mut text = problem.failure.full();
                let more = self.reload_after_save_error(problem.reloaded);
                text.append(more.as_str());
                proof {
                    replacing_is_sound(app, self@);
                }
                self.show_form_error(text);
            },
            Ok(()) => {
                self.replace_registry(sort_by_name(candidate));
                self.status = "Registry saved".to_owned();
                self.mode = Mode::Normal;
                proof {
                    assert(self@ =~= save_finished(app, entries(candidate@), Ok(())));
                    replacing_is_sound(app, self@);
                }
            },
        }
    }
}

} // verus!
