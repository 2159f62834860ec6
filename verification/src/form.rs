//! The form to add or edit a repository.
use crate::config::{check_conflict, conflict, list_result, maybe_index};
use crate::failure::{plain, text_result, Failure, FailureView};
use crate::model::{copy_repositories, entries, Repository, RepositoryView, Strategy};
use crate::path::{borrowed_path, display_path, displayed, RawPath};
use crate::text::{
    concat, copy_option, lossy_text, maybe_text, same_text, shortened, trim, trimmed, without_last,
};
use vstd::prelude::*;

verus! {

/// What the form says about submodules.
#[derive(Clone, Copy, Debug, PartialEq, Eq, Structural)]
pub enum FormSubmodules {
    Auto,
    Enabled,
    Disabled,
}

/// The choice that follows another one.
pub open spec fn next_choice(choice: FormSubmodules) -> FormSubmodules {
    match choice {
        FormSubmodules::Auto => FormSubmodules::Enabled,
        FormSubmodules::Enabled => FormSubmodules::Disabled,
        FormSubmodules::Disabled => FormSubmodules::Auto,
    }
}

/// The word for a choice.
pub open spec fn choice_label(choice: FormSubmodules) -> Seq<char> {
    match choice {
        FormSubmodules::Auto => "auto"@,
        FormSubmodules::Enabled => "true"@,
        FormSubmodules::Disabled => "false"@,
    }
}

impl FormSubmodules {
    /// The next choice.
    pub fn toggle(self) -> (next: Self)
        ensures
            next == next_choice(self),
    {
        match self {
            FormSubmodules::Auto => FormSubmodules::Enabled,
            FormSubmodules::Enabled => FormSubmodules::Disabled,
            FormSubmodules::Disabled => FormSubmodules::Auto,
        }
    }

    /// The word for this choice.
    pub fn label(self) -> (text: &'static str)
        ensures
            text@ == choice_label(self),
    {
        match self {
            FormSubmodules::Auto => "auto",
            FormSubmodules::Enabled => "true",
            FormSubmodules::Disabled => "false",
        }
    }
}

/// Three steps through the choices lead back to the first one.
pub proof fn choices_cycle(choice: FormSubmodules)
    ensures
        next_choice(next_choice(next_choice(choice))) == choice,
        next_choice(choice) != choice,
{
}

/// A form to add or edit a repository.
#[derive(Debug, PartialEq, Eq)]
pub struct RepoForm {
    pub editing_name: Option<String>,
    pub field: usize,
    pub name: String,
    pub path: String,
    pub strategy: Strategy,
    pub submodules: FormSubmodules,
    pub error: Option<String>,
}

/// The contents of a [`RepoForm`].
#[verifier::ext_equal]
pub struct FormView {
    pub editing_name: Option<Seq<char>>,
    pub field: usize,
    pub name: Seq<char>,
    pub path: Seq<char>,
    pub strategy: Strategy,
    pub submodules: FormSubmodules,
    pub error: Option<Seq<char>>,
}

impl View for RepoForm {
    type V = FormView;

    open spec fn view(&self) -> FormView {
        FormView {
            editing_name: maybe_text(self.editing_name),
            field: self.field,
            name: self.name@,
            path: self.path@,
            strategy: self.strategy,
            submodules: self.submodules,
            error: maybe_text(self.error),
        }
    }
}

impl Clone for RepoForm {
    fn clone(&self) -> (copy: Self)
        ensures
            copy@ == self@,
    {
        RepoForm {
            editing_name: copy_option(&self.editing_name),
            field: self.field,
            name: self.name.clone(),
            path: self.path.clone(),
            strategy: self.strategy,
            submodules: self.submodules,
            error: copy_option(&self.error),
        }
    }
}

/// An empty form.
pub open spec fn add_form() -> FormView {
    FormView {
        editing_name: None,
        field: 0,
        name: seq![],
        path: seq![],
        strategy: Strategy::Rebase,
        submodules: FormSubmodules::Auto,
        error: None,
    }
}

/// A form filled in from a repository.
pub open spec fn edit_form(repository: RepositoryView) -> FormView {
    FormView {
        editing_name: Some(repository.name),
        field: 0,
        name: repository.name,
        path: lossy_text(repository.path),
        strategy: repository.strategy,
        submodules: if repository.submodules {
            FormSubmodules::Enabled
        } else {
            FormSubmodules::Disabled
        },
        error: None,
    }
}

/// A key that was pressed.
#[derive(Clone, Copy, Debug, PartialEq, Eq, Structural)]
pub enum Key {
    Char(char),
    Control(char),
    Enter,
    Esc,
    Tab,
    BackTab,
    Up,
    Down,
    Left,
    Right,
    Backspace,
    Other,
}

/// The form after a key that edits it. Escape and enter are not among those keys.
pub open spec fn edited(form: FormView, key: Key) -> FormView {
    match key {
        Key::Tab | Key::Down => FormView {
            field: ((form.field + 1) % 4) as usize,
            ..form
        },
        Key::BackTab | Key::Up => FormView {
            field: ((form.field + 3) % 4) as usize,
            ..form
        },
        Key::Left | Key::Right => toggled(form),
        Key::Control(' ') => toggled(form),
        Key::Backspace => if form.field == 0 {
            FormView { name: shortened(form.name), ..form }
        } else if form.field == 1 {
            FormView { path: shortened(form.path), ..form }
        } else {
            form
        },
        Key::Char(c) => if form.field == 0 {
            FormView { name: form.name.push(c), ..form }
        } else if form.field == 1 {
            FormView { path: form.path.push(c), ..form }
        } else if c == ' ' {
            toggled(form)
        } else {
            form
        },
        _ => form,
    }
}

/// The form after the choice in the current field was changed.
pub open spec fn toggled(form: FormView) -> FormView {
    if form.field == 2 {
        FormView {
            strategy: match form.strategy {
                Strategy::Rebase => Strategy::Merge,
                Strategy::Merge => Strategy::Rebase,
            },
            ..form
        }
    } else if form.field == 3 {
        FormView { submodules: next_choice(form.submodules), ..form }
    } else {
        form
    }
}

impl RepoForm {
    /// An empty form.
    pub fn add() -> (form: Self)
        ensures
            form@ == add_form(),
    {
        let form = RepoForm {
            editing_name: None,
            field: 0,
            name: String::new(),
            path: String::new(),
            strategy: Strategy::Rebase,
            submodules: FormSubmodules::Auto,
            error: None,
        };
        assert(form@ =~= add_form());
        form
    }

    /// A form filled in from a repository.
    pub fn edit(repository: &Repository) -> (form: Self)
        ensures
            form@ == edit_form(repository@),
    {
        RepoForm {
            editing_name: Some(repository.name.clone()),
            field: 0,
            name: repository.name.clone(),
            path: repository.path.to_text(),
            strategy: repository.strategy,
            submodules: if repository.submodules {
                FormSubmodules::Enabled
            } else {
                FormSubmodules::Disabled
            },
            error: None,
        }
    }

    fn change_choice(&mut self)
        ensures
            final(self)@ == toggled(old(self)@),
    {
        if self.field == 2 {
            self.strategy = self.strategy.toggle();
        } else if self.field == 3 {
            self.submodules = self.submodules.toggle();
        }
    }

    /// Changes the form as a key asks for.
    pub fn press(&mut self, key: Key)
        requires
            old(self)@.field < 4,
        ensures
            final(self)@ == edited(old(self)@, key),
            final(self)@.field < 4,
    {
        match key {
            Key::Tab | Key::Down => {
                self.field = (self.field + 1) % 4;
            },
            Key::BackTab | Key::Up => {
                self.field = (self.field + 3) % 4;
            },
            Key::Left | Key::Right => self.change_choice(),
            Key::Control(' ') => self.change_choice(),
            Key::Backspace => {
                if self.field == 0 {
                    self.name = without_last(self.name.as_str());
                } else if self.field == 1 {
                    self.path = without_last(self.path.as_str());
                }
            },
            Key::Char(c) => {
                if self.field == 0 {
                    self.name.push(c);
                } else if self.field == 1 {
                    self.path.push(c);
                } else if c == ' ' {
                    self.change_choice();
                }
            },
            _ => {},
        }
    }
}

// ---------------------------------------------------------------------------
// Saving
// ---------------------------------------------------------------------------

/// What is missing in a form.
pub open spec fn form_fault(form: FormView) -> Option<Seq<char>> {
    if trimmed(form.name).len() == 0 {
        Some("repository name cannot be empty"@)
    } else if trimmed(form.path).len() == 0 {
        Some("repository path cannot be empty"@)
    } else {
        None
    }
}

/// The repository that a form describes, given its resolved path and whether there are
/// submodules in it.
pub open spec fn form_repository(
    form: FormView,
    path: Seq<u8>,
    has_submodules: bool,
) -> RepositoryView {
    RepositoryView {
        name: trimmed(form.name),
        path,
        strategy: form.strategy,
        submodules: match form.submodules {
            FormSubmodules::Auto => has_submodules,
            FormSubmodules::Enabled => true,
            FormSubmodules::Disabled => false,
        },
    }
}

/// The first repository with a name, from the index `from` on.
pub open spec fn first_named(list: Seq<RepositoryView>, name: Seq<char>, from: int) -> Option<int>
    decreases list.len() - from,
{
    if from < 0 || from >= list.len() {
        None
    } else if list[from].name == name {
        Some(from)
    } else {
        first_named(list, name, from + 1)
    }
}

/// The repository that a form edits.
pub open spec fn edited_index(form: FormView, list: Seq<RepositoryView>) -> Option<int> {
    match form.editing_name {
        Some(name) => first_named(list, name, 0),
        None => None,
    }
}

/// The list that a form asks for.
pub open spec fn form_candidate(
    form: FormView,
    list: Seq<RepositoryView>,
    path: Seq<u8>,
    is_repository: bool,
    has_submodules: bool,
    home: Option<Seq<u8>>,
) -> Result<Seq<RepositoryView>, FailureView> {
    let repository = form_repository(form, path, has_submodules);
    let index = edited_index(form, list);
    if form_fault(form) is Some {
        Err(plain(form_fault(form)->0))
    } else if !is_repository {
        Err(plain("not a git repository: "@ + displayed(path, home)))
    } else if form.editing_name is Some && index is None {
        Err(
            plain(
                "repository was removed; close this form and reopen the registry entry"@,
            ),
        )
    } else if conflict(list, repository, index, home) is Some {
        Err(plain(conflict(list, repository, index, home)->0))
    } else {
        Ok(
            match index {
                Some(i) => list.update(i, repository),
                None => list.push(repository),
            },
        )
    }
}

fn position_of(list: &Vec<Repository>, name: &str) -> (index: Option<usize>)
    ensures
        maybe_index(index) == first_named(entries(list@), name@, 0),
        index matches Some(i) ==> i < list@.len(),
{
    let mut i: usize = 0;
    while i < list.len()
        invariant
            i <= list@.len(),
            first_named(entries(list@), name@, 0) == first_named(
                entries(list@),
                name@,
                i as int,
            ),
        decreases list@.len() - i,
    {
        assert(entries(list@)[i as int] == list@[i as int]@);
        if same_text(list[i].name.as_str(), name) {
            return Some(i);
        }
        i = i + 1;
    }
    None
}

/// The path that was filled in, where nothing is missing.
pub open spec fn checked_path(form: FormView) -> Result<Seq<char>, FailureView> {
    match form_fault(form) {
        Some(text) => Err(plain(text)),
        None => Ok(trimmed(form.path)),
    }
}

impl RepoForm {
    /// The path that was filled in, where nothing is missing.
    pub fn check(&self) -> (result: Result<String, Failure>)
        ensures
            text_result(result) == checked_path(self@),
    {
        if trim(self.name.as_str()).as_str().is_empty() {
            return Err(Failure::of("repository name cannot be empty"));
        }
        let path = trim(self.path.as_str());
        if path.as_str().is_empty() {
            return Err(Failure::of("repository path cannot be empty"));
        }
        Ok(path)
    }

    /// The list that the form asks for. `path` is the resolved path, `is_repository` tells
    /// whether there is a repository and `has_submodules` whether it has submodules.
    pub fn candidate(
        &self,
        repositories: &Vec<Repository>,
        path: RawPath,
        is_repository: bool,
        has_submodules: bool,
        home: Option<&RawPath>,
    ) -> (result: Result<Vec<Repository>, Failure>)
        ensures
            list_result(result) == form_candidate(
                self@,
                entries(repositories@),
                path@,
                is_repository,
                has_submodules,
                borrowed_path(home),
            ),
    {
        let ghost list = entries(repositories@);
        match self.check() {
            Ok(_) => {},
            Err(failure) => return Err(failure),
        }
        if !is_repository {
            let text = display_path(&path, home);
            return Err(Failure::new(concat("not a git repository: ", text.as_str())));
        }
        let repository = Repository {
            name: trim(self.name.as_str()),
            path,
            strategy: self.strategy,
            submodules: match self.submodules {
                FormSubmodules::Auto => has_submodules,
                FormSubmodules::Enabled => true,
                FormSubmodules::Disabled => false,
            },
        };
        let index = match &self.editing_name {
            Some(name) => position_of(repositories, name.as_str()),
            None => None,
        };
        if self.editing_name.is_some() && index.is_none() {
            return Err(
                Failure::of(
                    "repository was removed; close this form and reopen the registry entry",
                ),
            );
        }
        assert(list.take(list.len() as int) =~= list);
        match check_conflict(repositories, repositories.len(), &repository, index, home) {
            Ok(()) => {},
            Err(failure) => return Err(failure),
        }
        let mut candidate = copy_repositories(repositories);
        match index {
            Some(i) => {
                assert(candidate@.len() == entries(candidate@).len());
                candidate.set(i, repository);
                assert(entries(candidate@) =~= list.update(i as int, repository@));
            },
            None => {
                candidate.push(repository);
                assert(entries(candidate@) =~= list.push(repository@));
            },
        }
        Ok(candidate)
    }
}

} // verus!
