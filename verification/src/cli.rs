//! The commands: what they change, say and report.
use crate::config::{
    check_conflict, conflict, is_target, list_result, maybe_index, name_taken, path_taken,
    repository_fault, well_formed, ConfigStore,
};
use crate::engine::{EngineEvent, EventView};
use crate::failure::{plain, Failure, FailureView};
use crate::model::{
    bool_text, bool_word, copy_repositories, count_kind, entries, findings, inspection_label,
    outcomes, result_detail, strategy_text, Inspection, InspectionView, Repository,
    RepositoryView, Strategy, SyncKind, SyncResult, SyncResultView,
};
use crate::path::{
    borrowed_path, display_path, displayed, maybe_path, name_of, same_path, RawPath,
};
use crate::text::{
    concat, decimal, lossy_text, maybe_text, number, pad, padded, same_text, texts,
};
use vstd::prelude::*;

verus! {

// ---------------------------------------------------------------------------
// Arguments
// ---------------------------------------------------------------------------

/// The command line.
#[derive(Debug)]
pub struct Cli {
    pub command: Option<Command>,
}

/// A command and its arguments.
#[derive(Debug)]
pub enum Command {
    /// Open the interactive terminal interface.
    Tui,
    /// Register a local Git repository.
    Add(AddArgs),
    /// List registered repositories and their update state.
    List(ListArgs),
    /// Remove a repository from the registry without deleting it.
    Remove { target: String },
    /// Change a registered repository.
    Modify(SetArgs),
    /// Fetch and update registered repositories.
    Sync(SyncArgs),
    /// Print the configuration file path.
    Config,
}

/// What to add.
#[derive(Debug)]
pub struct AddArgs {
    pub path: String,
    pub name: Option<String>,
    pub strategy: Strategy,
    pub submodules: bool,
    pub no_submodules: bool,
}

/// What to list.
#[derive(Debug)]
pub struct ListArgs {
    pub fetch: bool,
    pub no_fetch: bool,
}

/// What to change.
#[derive(Debug)]
pub struct SetArgs {
    pub target: String,
    pub name: Option<String>,
    pub path: Option<String>,
    pub strategy: Option<Strategy>,
    pub submodules: bool,
    pub no_submodules: bool,
}

/// What to synchronize.
#[derive(Debug)]
pub struct SyncArgs {
    pub targets: Vec<String>,
    pub strategy: Option<Strategy>,
}

// ---------------------------------------------------------------------------
// Changing the registry
// ---------------------------------------------------------------------------

/// A change of the registry: the list to save, and what is said once it is saved.
#[derive(Debug)]
pub struct Change {
    pub repositories: Vec<Repository>,
    pub message: String,
}

/// The contents of a [`Change`].
#[verifier::ext_equal]
pub struct ChangeView {
    pub repositories: Seq<RepositoryView>,
    pub message: Seq<char>,
}

impl View for Change {
    type V = ChangeView;

    open spec fn view(&self) -> ChangeView {
        ChangeView { repositories: entries(self.repositories@), message: self.message@ }
    }
}

/// The view of a change or the failure to make it.
pub open spec fn change_result(result: Result<Change, Failure>) -> Result<ChangeView, FailureView> {
    match result {
        Ok(change) => Ok(change@),
        Err(failure) => Err(failure@),
    }
}

/// A repository on one line.
pub open spec fn described(
    verb: Seq<char>,
    repository: RepositoryView,
    home: Option<Seq<u8>>,
) -> Seq<char> {
    verb + repository.name + " -> "@ + displayed(repository.path, home) + " ("@ + strategy_text(
        repository.strategy,
    ) + ", submodules="@ + bool_text(repository.submodules) + ")"@
}

fn describe(verb: &str, repository: &Repository, home: Option<&RawPath>) -> (text: String)
    ensures
        text@ == described(verb@, repository@, borrowed_path(home)),
{
    let mut text = concat(verb, repository.name.as_str());
    text.append(" -> ");
    text.append(display_path(&repository.path, home).as_str());
    text.append(" (");
    text.append(repository.strategy.to_text());
    text.append(", submodules=");
    text.append(bool_word(repository.submodules));
    text.append(")");
    text
}

/// The name of a repository without one: the last part of its path, or the whole path.
pub open spec fn default_name(path: Seq<u8>) -> Seq<char> {
    match name_of(path) {
        Some(name) => lossy_text(name),
        None => lossy_text(path),
    }
}

/// The repository that is added.
pub open spec fn added_repository(
    name: Option<Seq<char>>,
    strategy: Strategy,
    submodules: bool,
    no_submodules: bool,
    path: Seq<u8>,
    has_submodules: bool,
) -> RepositoryView {
    RepositoryView {
        name: match name {
            Some(name) => name,
            None => default_name(path),
        },
        path,
        strategy,
        submodules: submodules || (!no_submodules && has_submodules),
    }
}

/// The change that adds a repository.
pub open spec fn added(
    list: Seq<RepositoryView>,
    repository: RepositoryView,
    is_repository: bool,
    home: Option<Seq<u8>>,
) -> Result<ChangeView, FailureView> {
    if !is_repository {
        Err(plain("not a git repository: "@ + displayed(repository.path, home)))
    } else {
        match conflict(list, repository, None, home) {
            Some(text) => Err(plain(text)),
            None => Ok(
                ChangeView {
                    repositories: list.push(repository),
                    message: described("Added: "@, repository, home),
                },
            ),
        }
    }
}

fn not_a_repository(path: &RawPath, home: Option<&RawPath>) -> (failure: Failure)
    ensures
        failure@ == plain("not a git repository: "@ + displayed(path@, borrowed_path(home))),
{
    Failure::new(concat("not a git repository: ", display_path(path, home).as_str()))
}

/// Adds a repository. `path` is the resolved path, `is_repository` tells whether there is a
/// repository and `has_submodules` whether it has submodules.
pub fn add(
    repositories: &Vec<Repository>,
    arguments: &AddArgs,
    path: &RawPath,
    is_repository: bool,
    has_submodules: bool,
    home: Option<&RawPath>,
) -> (result: Result<Change, Failure>)
    ensures
        change_result(result) == added(
            entries(repositories@),
            added_repository(
                maybe_text(arguments.name),
                arguments.strategy,
                arguments.submodules,
                arguments.no_submodules,
                path@,
                has_submodules,
            ),
            is_repository,
            borrowed_path(home),
        ),
{
    let ghost list = entries(repositories@);
    if !is_repository {
        return Err(not_a_repository(path, home));
    }
    let name = match &arguments.name {
        Some(name) => name.clone(),
        None => match path.file_name() {
            Some(name) => name.to_text(),
            None => path.to_text(),
        },
    };
    let submodules = if arguments.submodules {
        true
    } else if arguments.no_submodules {
        false
    } else {
        has_submodules
    };
    let repository = Repository {
        name,
        path: path.clone(),
        strategy: arguments.strategy,
        submodules,
    };
    assert(list.take(list.len() as int) =~= list);
    match check_conflict(repositories, repositories.len(), &repository, None, home) {
        Ok(()) => {},
        Err(failure) => return Err(failure),
    }
    let message = describe("Added: ", &repository, home);
    let mut candidate = copy_repositories(repositories);
    candidate.push(repository);
    assert(entries(candidate@) =~= list.push(repository@));
    Ok(Change { repositories: candidate, message })
}

/// The first repository that a target means, from the index `from` on.
pub open spec fn target_index(
    list: Seq<RepositoryView>,
    target: Seq<char>,
    canonical: Option<Seq<u8>>,
    from: int,
) -> Option<int>
    decreases list.len() - from,
{
    if from < 0 || from >= list.len() {
        None
    } else if is_target(list[from], target, canonical) {
        Some(from)
    } else {
        target_index(list, target, canonical, from + 1)
    }
}

proof fn target_found(
    list: Seq<RepositoryView>,
    target: Seq<char>,
    canonical: Option<Seq<u8>>,
    from: int,
    index: Option<int>,
)
    requires
        0 <= from,
        match index {
            Some(i) => from <= i < list.len() && is_target(list[i], target, canonical)
                && forall|j: int| from <= j < i ==> !is_target(#[trigger] list[j], target, canonical),
            None => forall|j: int|
                from <= j < list.len() ==> !is_target(#[trigger] list[j], target, canonical),
        },
    ensures
        target_index(list, target, canonical, from) == index,
    decreases list.len() - from,
{
    if from < list.len() && !is_target(list[from], target, canonical) {
        target_found(list, target, canonical, from + 1, index);
    }
}

/// The failure to find what a target means.
pub open spec fn unregistered(target: Seq<char>) -> FailureView {
    plain("repository not registered: "@ + target)
}

fn locate(list: &Vec<Repository>, target: &str, canonical: Option<&RawPath>) -> (result: Result<
    usize,
    Failure,
>)
    ensures
        match result {
            Ok(i) => i < list@.len() && target_index(
                entries(list@),
                target@,
                borrowed_path(canonical),
                0,
            ) == Some(i as int),
            Err(failure) => target_index(
                entries(list@),
                target@,
                borrowed_path(canonical),
                0,
            ) is None && failure@ == unregistered(target@),
        },
{
    let ghost all = entries(list@);
    let found = ConfigStore::find_index(list, target, canonical);
    proof {
        assert forall|j: int| 0 <= j < all.len() implies all[j] == #[trigger] list@[j]@ by {}
        target_found(all, target@, borrowed_path(canonical), 0, maybe_index(found));
    }
    match found {
        Some(index) => Ok(index),
        None => Err(Failure::new(concat("repository not registered: ", target))),
    }
}

/// The change that removes the repository that a target means.
pub open spec fn removed(
    list: Seq<RepositoryView>,
    target: Seq<char>,
    canonical: Option<Seq<u8>>,
    home: Option<Seq<u8>>,
) -> Result<ChangeView, FailureView> {
    match target_index(list, target, canonical, 0) {
        None => Err(unregistered(target)),
        Some(index) => Ok(
            ChangeView {
                repositories: list.remove(index),
                message: "Removed: "@ + list[index].name + " -> "@ + displayed(
                    list[index].path,
                    home,
                ),
            },
        ),
    }
}

/// Removes the repository that a target means. `canonical` is the path that the target
/// resolves to.
pub fn remove(
    repositories: &Vec<Repository>,
    target: &str,
    canonical: Option<&RawPath>,
    home: Option<&RawPath>,
) -> (result: Result<Change, Failure>)
    ensures
        change_result(result) == removed(
            entries(repositories@),
            target@,
            borrowed_path(canonical),
            borrowed_path(home),
        ),
{
    let ghost list = entries(repositories@);
    let index: usize = match locate(repositories, target, canonical) {
        Ok(index) => index,
        Err(failure) => return Err(failure),
    };
    let repository = &repositories[index];
    assert(list[index as int] == repository@);
    let mut message = concat("Removed: ", repository.name.as_str());
    message.append(" -> ");
    message.append(display_path(&repository.path, home).as_str());
    let mut left = copy_repositories(repositories);
    assert(left@.len() == entries(left@).len());
    left.remove(index);
    assert(entries(left@) =~= list.remove(index as int));
    Ok(Change { repositories: left, message })
}

/// A repository after the changes that were asked for. `path` is the resolved new path.
pub open spec fn changed(
    repository: RepositoryView,
    name: Option<Seq<char>>,
    path: Option<Seq<u8>>,
    strategy: Option<Strategy>,
    submodules: bool,
    no_submodules: bool,
) -> RepositoryView {
    RepositoryView {
        name: match name {
            Some(name) => name,
            None => repository.name,
        },
        path: match path {
            Some(path) => path,
            None => repository.path,
        },
        strategy: match strategy {
            Some(strategy) => strategy,
            None => repository.strategy,
        },
        submodules: submodules || (!no_submodules && repository.submodules),
    }
}

/// The change of one repository.
pub open spec fn updated(
    list: Seq<RepositoryView>,
    index: int,
    repository: RepositoryView,
    is_repository: bool,
    home: Option<Seq<u8>>,
) -> Result<ChangeView, FailureView> {
    if !is_repository {
        Err(plain("not a git repository: "@ + displayed(repository.path, home)))
    } else {
        match conflict(list, repository, Some(index), home) {
            Some(text) => Err(plain(text)),
            None => Ok(
                ChangeView {
                    repositories: list.update(index, repository),
                    message: described("Updated: "@, repository, home),
                },
            ),
        }
    }
}

/// The path of the repository that is to be changed, where no other one is given.
pub fn set_target(
    repositories: &Vec<Repository>,
    arguments: &SetArgs,
    canonical: Option<&RawPath>,
) -> (result: Result<RawPath, Failure>)
    ensures
        match target_index(
            entries(repositories@),
            arguments.target@,
            borrowed_path(canonical),
            0,
        ) {
            Some(index) => result is Ok && result->Ok_0@ == entries(repositories@)[index].path,
            None => result is Err && result->Err_0@ == unregistered(arguments.target@),
        },
{
    match locate(repositories, arguments.target.as_str(), canonical) {
        Ok(index) => {
            assert(entries(repositories@)[index as int] == repositories@[index as int]@);
            Ok(repositories[index].path.clone())
        },
        Err(failure) => Err(failure),
    }
}

/// What a change is asked for: its target and the options that are given. A path is given as
/// what it resolves to.
#[verifier::ext_equal]
pub struct SetView {
    pub target: Seq<char>,
    pub name: Option<Seq<char>>,
    pub path: Option<Seq<u8>>,
    pub strategy: Option<Strategy>,
    pub submodules: bool,
    pub no_submodules: bool,
}

/// The list after a change that was asked for.
pub open spec fn after_set(
    list: Seq<RepositoryView>,
    asked: SetView,
    canonical: Option<Seq<u8>>,
    is_repository: bool,
    home: Option<Seq<u8>>,
) -> Result<ChangeView, FailureView> {
    match target_index(list, asked.target, canonical, 0) {
        None => Err(unregistered(asked.target)),
        Some(index) => updated(
            list,
            index,
            changed(
                list[index],
                asked.name,
                asked.path,
                asked.strategy,
                asked.submodules,
                asked.no_submodules,
            ),
            is_repository,
            home,
        ),
    }
}

/// Changes the repository that a target means. `canonical` is the path that the target
/// resolves to, `path` the resolved new path where one is given; `is_repository` tells
/// whether there is a repository at the path that it will have.
pub fn set(
    repositories: &Vec<Repository>,
    arguments: &SetArgs,
    canonical: Option<&RawPath>,
    path: Option<&RawPath>,
    is_repository: bool,
    home: Option<&RawPath>,
) -> (result: Result<Change, Failure>)
    ensures
        change_result(result) == after_set(
            entries(repositories@),
            SetView {
                target: arguments.target@,
                name: maybe_text(arguments.name),
                path: borrowed_path(path),
                strategy: arguments.strategy,
                submodules: arguments.submodules,
                no_submodules: arguments.no_submodules,
            },
            borrowed_path(canonical),
            is_repository,
            borrowed_path(home),
        ),
{
    let ghost list = entries(repositories@);
    let index: usize = match locate(repositories, arguments.target.as_str(), canonical) {
        Ok(index) => index,
        Err(failure) => return Err(failure),
    };
    let current = &repositories[index];
    assert(list[index as int] == current@);
    let repository = Repository {
        name: match &arguments.name {
            Some(name) => name.clone(),
            None => current.name.clone(),
        },
        path: match path {
            Some(path) => path.clone(),
            None => current.path.clone(),
        },
        strategy: match arguments.strategy {
            Some(strategy) => strategy,
            None => current.strategy,
        },
        submodules: if arguments.submodules {
            true
        } else if arguments.no_submodules {
            false
        } else {
            current.submodules
        },
    };
    if !is_repository {
        return Err(not_a_repository(&repository.path, home));
    }
    assert(list.take(list.len() as int) =~= list);
    match check_conflict(repositories, repositories.len(), &repository, Some(index), home) {
        Ok(()) => {},
        Err(failure) => return Err(failure),
    }
    let message = describe("Updated: ", &repository, home);
    let mut candidate = copy_repositories(repositories);
    assert(candidate@.len() == entries(candidate@).len());
    candidate.set(index, repository);
    assert(entries(candidate@) =~= list.update(index as int, repository@));
    Ok(Change { repositories: candidate, message })
}

// ---------------------------------------------------------------------------
// Listing
// ---------------------------------------------------------------------------

/// One line of the list.
pub open spec fn list_row(
    repository: RepositoryView,
    inspection: InspectionView,
    home: Option<Seq<u8>>,
) -> Seq<char> {
    padded(repository.name, 24) + "  "@ + strategy_text(repository.strategy) + "  "@ + padded(
        bool_text(repository.submodules),
        10,
    ) + "  "@ + padded(inspection_label(inspection), 10) + "  "@ + displayed(repository.path, home)
}

/// The heading of the list.
pub open spec fn list_heading(
    name: Seq<char>,
    strategy: Seq<char>,
    submodules: Seq<char>,
    updates: Seq<char>,
    path: Seq<char>,
) -> Seq<char> {
    padded(name, 24) + "  "@ + padded(strategy, 8) + "  "@ + padded(submodules, 10) + "  "@
        + padded(updates, 10) + "  "@ + path
}

/// What the list says where nothing is registered.
pub open spec fn empty_list(config: Seq<u8>, home: Option<Seq<u8>>) -> Seq<char> {
    "No repositories registered. Config: "@ + displayed(config, home)
}

/// The lines of the list.
pub open spec fn list_report(
    list: Seq<RepositoryView>,
    inspections: Seq<InspectionView>,
    config: Seq<u8>,
    home: Option<Seq<u8>>,
) -> Seq<Seq<char>> {
    if list.len() == 0 {
        seq![empty_list(config, home)]
    } else {
        seq![
            "Config: "@ + displayed(config, home),
            list_heading("name"@, "strategy"@, "submodules"@, "updates"@, "path"@),
            list_heading("----"@, "--------"@, "----------"@, "-------"@, "----"@),
        ] + Seq::new(
            if list.len() < inspections.len() {
                list.len()
            } else {
                inspections.len()
            },
            |i: int| list_row(list[i], inspections[i], home),
        )
    }
}

fn heading_line(name: &str, strategy: &str, submodules: &str, updates: &str, path: &str) -> (text:
    String)
    ensures
        text@ == list_heading(name@, strategy@, submodules@, updates@, path@),
{
    let mut text = pad(name, 24);
    text.append("  ");
    text.append(pad(strategy, 8).as_str());
    text.append("  ");
    text.append(pad(submodules, 10).as_str());
    text.append("  ");
    text.append(pad(updates, 10).as_str());
    text.append("  ");
    text.append(path);
    text
}

fn row_line(repository: &Repository, inspection: &Inspection, home: Option<&RawPath>) -> (text:
    String)
    ensures
        text@ == list_row(repository@, inspection@, borrowed_path(home)),
{
    let mut text = pad(repository.name.as_str(), 24);
    text.append("  ");
    text.append(repository.strategy.to_text());
    text.append("  ");
    text.append(pad(bool_word(repository.submodules), 10).as_str());
    text.append("  ");
    text.append(pad(inspection.label(), 10).as_str());
    text.append("  ");
    text.append(display_path(&repository.path, home).as_str());
    text
}

fn push_report(lines: &mut Vec<String>, line: String)
    ensures
        texts(final(lines)@) == texts(old(lines)@).push(line@),
{
    lines.push(line);
    assert(texts(lines@) =~= texts(old(lines)@).push(line@));
}

/// Whether the list fetches first.
pub fn list_fetches(arguments: &ListArgs) -> (fetches: bool)
    ensures
        fetches == !arguments.no_fetch,
{
    !arguments.no_fetch
}

/// The lines of the list. Where nothing is registered, nothing has to be inspected.
pub fn list(
    repositories: &Vec<Repository>,
    inspections: &Vec<Inspection>,
    config: &RawPath,
    home: Option<&RawPath>,
) -> (lines: Vec<String>)
    ensures
        texts(lines@) == list_report(
            entries(repositories@),
            findings(inspections@),
            config@,
            borrowed_path(home),
        ),
{
    let ghost all = entries(repositories@);
    let ghost found = findings(inspections@);
    let ghost place = borrowed_path(home);
    let shown = display_path(config, home);
    let mut lines: Vec<String> = Vec::new();
    assert(texts(lines@) =~= Seq::<Seq<char>>::empty());
    if repositories.len() == 0 {
        push_report(&mut lines, concat("No repositories registered. Config: ", shown.as_str()));
        assert(texts(lines@) =~= seq![empty_list(config@, place)]);
        return lines;
    }
    push_report(&mut lines, concat("Config: ", shown.as_str()));
    push_report(&mut lines, heading_line("name", "strategy", "submodules", "updates", "path"));
    push_report(
        &mut lines,
        heading_line("----", "--------", "----------", "-------", "----"),
    );
    let ghost head = texts(lines@);
    let mut i: usize = 0;
    assert(head + Seq::new(0, |k: int| list_row(all[k], found[k], place)) =~= head);
    while i < repositories.len() && i < inspections.len()
        invariant
            i <= repositories@.len(),
            i <= inspections@.len(),
            all == entries(repositories@),
            found == findings(inspections@),
            place == borrowed_path(home),
            texts(lines@) == head + Seq::new(
                i as nat,
                |k: int| list_row(all[k], found[k], place),
            ),
        decreases repositories@.len() - i,
    {
        assert(all[i as int] == repositories@[i as int]@);
        assert(found[i as int] == inspections@[i as int]@);
        push_report(&mut lines, row_line(&repositories[i], &inspections[i], home));
        assert(texts(lines@) =~= head + Seq::new(
            (i + 1) as nat,
            |k: int| list_row(all[k], found[k], place),
        ));
        i = i + 1;
    }
    assert(texts(lines@) =~= list_report(all, found, config@, place));
    lines
}

// ---------------------------------------------------------------------------
// Synchronizing
// ---------------------------------------------------------------------------

/// Whether a list holds a name.
pub open spec fn holds_name(list: Seq<RepositoryView>, name: Seq<char>) -> bool {
    exists|i: int| 0 <= i < list.len() && (#[trigger] list[i]).name == name
}

/// The repositories that the targets from the index `from` on mean, after those found so far.
/// One that is meant twice is taken once.
pub open spec fn chosen(
    list: Seq<RepositoryView>,
    targets: Seq<Seq<char>>,
    canonical: Seq<Option<Seq<u8>>>,
    from: int,
    found: Seq<RepositoryView>,
) -> Result<Seq<RepositoryView>, FailureView>
    decreases targets.len() - from,
{
    if from < 0 || from >= targets.len() {
        Ok(found)
    } else {
        match target_index(list, targets[from], canonical[from], 0) {
            None => Err(unregistered(targets[from])),
            Some(index) => chosen(
                list,
                targets,
                canonical,
                from + 1,
                if holds_name(found, list[index].name) {
                    found
                } else {
                    found.push(list[index])
                },
            ),
        }
    }
}

/// Repositories with another strategy, where one is given.
pub open spec fn with_strategy(
    list: Seq<RepositoryView>,
    strategy: Option<Strategy>,
) -> Seq<RepositoryView> {
    match strategy {
        Some(strategy) => Seq::new(
            list.len(),
            |i: int| RepositoryView { strategy, ..list[i] },
        ),
        None => list,
    }
}

/// The repositories to synchronize: all of them, or those that the targets mean.
pub open spec fn selection(
    list: Seq<RepositoryView>,
    targets: Seq<Seq<char>>,
    canonical: Seq<Option<Seq<u8>>>,
    strategy: Option<Strategy>,
) -> Result<Seq<RepositoryView>, FailureView> {
    if targets.len() == 0 {
        Ok(with_strategy(list, strategy))
    } else {
        match chosen(list, targets, canonical, 0, seq![]) {
            Ok(found) => Ok(with_strategy(found, strategy)),
            Err(failure) => Err(failure),
        }
    }
}

/// The resolved paths in a list.
pub open spec fn maybe_paths(list: Seq<Option<RawPath>>) -> Seq<Option<Seq<u8>>> {
    Seq::new(list.len(), |i: int| maybe_path(list[i]))
}

fn has_name(list: &Vec<Repository>, name: &str) -> (answer: bool)
    ensures
        answer == holds_name(entries(list@), name@),
{
    let mut i: usize = 0;
    while i < list.len()
        invariant
            i <= list@.len(),
            forall|k: int| 0 <= k < i ==> (#[trigger] entries(list@)[k]).name != name@,
        decreases list@.len() - i,
    {
        assert(entries(list@)[i as int] == list@[i as int]@);
        if same_text(list[i].name.as_str(), name) {
            return true;
        }
        i = i + 1;
    }
    false
}

fn set_strategies(list: &mut Vec<Repository>, strategy: Strategy)
    ensures
        entries(final(list)@) == with_strategy(entries(old(list)@), Some(strategy)),
{
    let ghost before = entries(list@);
    let mut i: usize = 0;
    while i < list.len()
        invariant
            i <= list@.len() == before.len(),
            forall|k: int|
                0 <= k < before.len() ==> #[trigger] entries(list@)[k] == if k < i {
                    RepositoryView { strategy, ..before[k] }
                } else {
                    before[k]
                },
        decreases list@.len() - i,
    {
        let ghost prior = entries(list@);
        assert(prior[i as int] == list@[i as int]@);
        let mut repository = list[i].clone();
        repository.strategy = strategy;
        list.set(i, repository);
        assert(entries(list@) =~= prior.update(
            i as int,
            RepositoryView { strategy, ..before[i as int] },
        ));
        i = i + 1;
    }
    assert(entries(list@) =~= with_strategy(before, Some(strategy)));
}

/// The repositories to synchronize. `canonical` holds the path that each target resolves to.
pub fn select(
    repositories: &Vec<Repository>,
    arguments: &SyncArgs,
    canonical: &Vec<Option<RawPath>>,
) -> (result: Result<Vec<Repository>, Failure>)
    requires
        canonical@.len() == arguments.targets@.len(),
    ensures
        list_result(result) == selection(
            entries(repositories@),
            texts(arguments.targets@),
            maybe_paths(canonical@),
            arguments.strategy,
        ),
{
    let ghost list = entries(repositories@);
    let ghost targets = texts(arguments.targets@);
    let ghost resolved = maybe_paths(canonical@);
    let mut selected: Vec<Repository> = Vec::new();
    if arguments.targets.len() == 0 {
        selected = copy_repositories(repositories);
    } else {
        let mut i: usize = 0;
        assert(entries(selected@) =~= Seq::<RepositoryView>::empty());
        while i < arguments.targets.len()
            invariant
                i <= arguments.targets@.len() == canonical@.len(),
                list == entries(repositories@),
                targets == texts(arguments.targets@),
                resolved == maybe_paths(canonical@),
                chosen(list, targets, resolved, 0, seq![]) == chosen(
                    list,
                    targets,
                    resolved,
                    i as int,
                    entries(selected@),
                ),
            decreases arguments.targets@.len() - i,
        {
            let path = match &canonical[i] {
                Some(path) => Some(path),
                None => None,
            };
            proof {
                assert(targets[i as int] == arguments.targets@[i as int]@);
                assert(resolved[i as int] == borrowed_path(path));
            }
            let index: usize = match locate(repositories, arguments.targets[i].as_str(), path) {
                Ok(index) => index,
                Err(failure) => {
                    assert(targets.len() > 0);
                    return Err(failure);
                },
            };
            assert(list[index as int] == repositories@[index as int]@);
            if !has_name(&selected, repositories[index].name.as_str()) {
                let ghost before = entries(selected@);
                selected.push(repositories[index].clone());
                assert(entries(selected@) =~= before.push(list[index as int]));
            }
            i = i + 1;
        }
    }
    if let Some(strategy) = arguments.strategy {
        set_strategies(&mut selected, strategy);
    }
    Ok(selected)
}

/// What is said instead of a synchronization where nothing is registered.
pub fn nothing_to_sync(repositories: &Vec<Repository>) -> (text: Option<String>)
    ensures
        match text {
            Some(text) => repositories@.len() == 0 && text@ == "No repositories to sync."@,
            None => repositories@.len() > 0,
        },
{
    if repositories.len() == 0 {
        Some("No repositories to sync.".to_owned())
    } else {
        None
    }
}

/// What is said before the first phase.
pub fn fetch_heading(count: usize, jobs: usize) -> (text: String)
    ensures
        text@ == "Phase 1: fetch and check updates ("@ + decimal(count as nat)
            + " repos, up to "@ + decimal(jobs as nat) + " parallel)"@,
{
    let mut text = concat(
        "Phase 1: fetch and check updates (",
        number(count as u128).as_str(),
    );
    text.append(" repos, up to ");
    text.append(number(jobs as u128).as_str());
    text.append(" parallel)");
    text
}

/// The word for a kind of result.
pub open spec fn kind_text(kind: SyncKind) -> Seq<char> {
    match kind {
        SyncKind::Updated => "Updated"@,
        SyncKind::Skipped => "Skipped"@,
        SyncKind::Failed => "Failed"@,
    }
}

fn kind_word(kind: SyncKind) -> (text: &'static str)
    ensures
        text@ == kind_text(kind),
{
    match kind {
        SyncKind::Updated => "Updated",
        SyncKind::Skipped => "Skipped",
        SyncKind::Failed => "Failed",
    }
}

/// What is said of an event.
pub open spec fn progress_text(event: EventView, names: Seq<Seq<char>>) -> Option<Seq<char>> {
    match event {
        EventView::SyncFetching(index) => Some("  Fetching: "@ + names[index]),
        EventView::SyncChecksFinished(count) => Some(
            "\nPhase 2: serial updates ("@ + decimal(count as nat) + " repos)\n"@,
        ),
        EventView::SyncUpdating(_, plan) => Some(
            if plan.update_count == 0 {
                "  Syncing submodules: "@ + plan.repository.name
            } else {
                "  Pulling: "@ + plan.repository.name
            },
        ),
        EventView::SyncFinished(_, result) => Some(
            "  "@ + kind_text(result.kind) + ": "@ + result.repository.name,
        ),
        _ => None,
    }
}

/// What is said of an event. `names` holds the names of the repositories.
pub fn progress_line(event: &EngineEvent, names: &Vec<String>) -> (text: Option<String>)
    requires
        event matches EngineEvent::SyncFetching(index) ==> index < names@.len(),
    ensures
        maybe_text(text) == progress_text(event@, texts(names@)),
{
    match event {
        EngineEvent::SyncFetching(index) => {
            assert(texts(names@)[*index as int] == names@[*index as int]@);
            Some(concat("  Fetching: ", names[*index].as_str()))
        },
        EngineEvent::SyncChecksFinished(count) => {
            let mut text = concat("\nPhase 2: serial updates (", number(*count as u128).as_str());
            text.append(" repos)\n");
            Some(text)
        },
        EngineEvent::SyncUpdating(_, plan) => Some(
            if plan.update_count == 0 {
                concat("  Syncing submodules: ", plan.repository.name.as_str())
            } else {
                concat("  Pulling: ", plan.repository.name.as_str())
            },
        ),
        EngineEvent::SyncFinished(_, result) => {
            let mut text = concat("  ", kind_word(result.kind));
            text.append(": ");
            text.append(result.repository.name.as_str());
            Some(text)
        },
        _ => None,
    }
}

/// The line for a result.
pub open spec fn result_line(result: SyncResultView, home: Option<Seq<u8>>) -> Seq<char> {
    let line = "  "@ + padded(result.repository.name, 24) + "  "@ + displayed(
        result.repository.path,
        home,
    );
    if result_detail(result).len() == 0 {
        line
    } else {
        line + "  | "@ + result_detail(result)
    }
}

/// The lines for the results of a kind.
pub open spec fn result_lines(
    results: Seq<SyncResultView>,
    kind: SyncKind,
    home: Option<Seq<u8>>,
) -> Seq<Seq<char>>
    decreases results.len(),
{
    if results.len() == 0 {
        seq![]
    } else {
        let front = result_lines(results.drop_last(), kind, home);
        if results.last().kind == kind {
            front.push(result_line(results.last(), home))
        } else {
            front
        }
    }
}

/// The section for a kind of result.
pub open spec fn section(
    kind: SyncKind,
    results: Seq<SyncResultView>,
    home: Option<Seq<u8>>,
) -> Seq<Seq<char>> {
    seq![kind_text(kind) + " ("@ + decimal(count_kind(results, kind)) + "):"@] + if count_kind(
        results,
        kind,
    ) == 0 {
        seq!["  none"@]
    } else {
        result_lines(results, kind, home)
    }
}

/// The report at the end.
pub open spec fn sync_report(
    results: Seq<SyncResultView>,
    selected: nat,
    home: Option<Seq<u8>>,
) -> Seq<Seq<char>> {
    let updated = count_kind(results, SyncKind::Updated);
    let failed = count_kind(results, SyncKind::Failed);
    seq![""@] + section(SyncKind::Updated, results, home) + section(
        SyncKind::Skipped,
        results,
        home,
    ) + section(SyncKind::Failed, results, home) + seq![
        "\n=== "@ + (if failed == 0 {
            "SYNC COMPLETE"@
        } else {
            "SYNC ENDED WITH ERRORS"@
        }) + " ==="@,
        decimal(results.len()) + "/"@ + decimal(selected) + " repos finished: "@ + decimal(updated)
            + " updated, "@ + decimal((results.len() - updated - failed) as nat) + " skipped, "@
            + decimal(failed) + " failed"@,
    ]
}

/// Every result is of one kind.
pub proof fn kinds_partition(results: Seq<SyncResultView>)
    ensures
        count_kind(results, SyncKind::Updated) + count_kind(results, SyncKind::Skipped)
            + count_kind(results, SyncKind::Failed) == results.len(),
    decreases results.len(),
{
    if results.len() > 0 {
        kinds_partition(results.drop_last());
    }
}

fn count_results(results: &Vec<SyncResult>, kind: SyncKind) -> (count: usize)
    ensures
        count == count_kind(outcomes(results@), kind),
        count <= results@.len(),
{
    let ghost all = outcomes(results@);
    let mut count: usize = 0;
    let mut i: usize = 0;
    assert(all.take(0) =~= Seq::<SyncResultView>::empty());
    while i < results.len()
        invariant
            i <= results@.len(),
            all == outcomes(results@),
            count <= i,
            count == count_kind(all.take(i as int), kind),
        decreases results@.len() - i,
    {
        proof {
            assert(all.take(i + 1).drop_last() =~= all.take(i as int));
            assert(all.take(i + 1).last() == results@[i as int]@);
        }
        if results[i].kind == kind {
            count = count + 1;
        }
        i = i + 1;
    }
    assert(all.take(i as int) =~= all);
    count
}

fn line_for(result: &SyncResult, home: Option<&RawPath>) -> (text: String)
    ensures
        text@ == result_line(result@, borrowed_path(home)),
{
    let detail = result.describe();
    let mut text = concat("  ", pad(result.repository.name.as_str(), 24).as_str());
    text.append("  ");
    text.append(display_path(&result.repository.path, home).as_str());
    if !detail.as_str().is_empty() {
        text.append("  | ");
        text.append(detail.as_str());
    }
    text
}

fn push_section(
    lines: &mut Vec<String>,
    kind: SyncKind,
    results: &Vec<SyncResult>,
    home: Option<&RawPath>,
)
    ensures
        texts(final(lines)@) == texts(old(lines)@) + section(
            kind,
            outcomes(results@),
            borrowed_path(home),
        ),
{
    let ghost all = outcomes(results@);
    let ghost place = borrowed_path(home);
    let ghost before = texts(lines@);
    let count: usize = count_results(results, kind);
    let mut title = concat(kind_word(kind), " (");
    title.append(number(count as u128).as_str());
    title.append("):");
    push_report(lines, title);
    if count == 0 {
        push_report(lines, "  none".to_owned());
        assert(texts(lines@) =~= before + section(kind, all, place));
        return;
    }
    let ghost head = texts(lines@);
    let mut i: usize = 0;
    assert(all.take(0) =~= Seq::<SyncResultView>::empty());
    assert(head + result_lines(all.take(0), kind, place) =~= head);
    while i < results.len()
        invariant
            i <= results@.len(),
            all == outcomes(results@),
            place == borrowed_path(home),
            texts(lines@) == head + result_lines(all.take(i as int), kind, place),
        decreases results@.len() - i,
    {
        proof {
            assert(all.take(i + 1).drop_last() =~= all.take(i as int));
            assert(all.take(i + 1).last() == results@[i as int]@);
        }
        if results[i].kind == kind {
            let ghost prior = result_lines(all.take(i as int), kind, place);
            push_report(lines, line_for(&results[i], home));
            assert(texts(lines@) =~= head + prior.push(result_line(results@[i as int]@, place)));
        }
        i = i + 1;
    }
    assert(all.take(i as int) =~= all);
    assert(texts(lines@) =~= before + section(kind, all, place));
}

/// Whether nothing failed.
pub open spec fn succeeded(results: Seq<SyncResultView>) -> bool {
    count_kind(results, SyncKind::Failed) == 0
}

/// The report at the end of a synchronization, and whether nothing failed.
pub fn report(results: &Vec<SyncResult>, selected: usize, home: Option<&RawPath>) -> (outcome: (
    Vec<String>,
    bool,
))
    ensures
        texts(outcome.0@) == sync_report(
            outcomes(results@),
            selected as nat,
            borrowed_path(home),
        ),
        outcome.1 == succeeded(outcomes(results@)),
{
    let ghost all = outcomes(results@);
    let ghost place = borrowed_path(home);
    proof {
        kinds_partition(all);
    }
    let mut lines: Vec<String> = Vec::new();
    assert(texts(lines@) =~= Seq::<Seq<char>>::empty());
    push_report(&mut lines, "".to_owned());
    assert(texts(lines@) =~= seq![""@]);
    push_section(&mut lines, SyncKind::Updated, results, home);
    push_section(&mut lines, SyncKind::Skipped, results, home);
    push_section(&mut lines, SyncKind::Failed, results, home);
    let failed: usize = count_results(results, SyncKind::Failed);
    let updated: usize = count_results(results, SyncKind::Updated);
    let skipped: usize = results.len() - updated - failed;
    let mut heading = "\n=== ".to_owned();
    if failed == 0 {
        heading.append("SYNC COMPLETE");
    } else {
        heading.append("SYNC ENDED WITH ERRORS");
    }
    heading.append(" ===");
    push_report(&mut lines, heading);
    let mut summary = number(results.len() as u128);
    summary.append("/");
    summary.append(number(selected as u128).as_str());
    summary.append(" repos finished: ");
    summary.append(number(updated as u128).as_str());
    summary.append(" updated, ");
    summary.append(number(skipped as u128).as_str());
    summary.append(" skipped, ");
    summary.append(number(failed as u128).as_str());
    summary.append(" failed");
    push_report(&mut lines, summary);
    assert(texts(lines@) =~= sync_report(all, selected as nat, place));
    (lines, failed == 0)
}

proof fn chosen_names_differ(
    list: Seq<RepositoryView>,
    targets: Seq<Seq<char>>,
    canonical: Seq<Option<Seq<u8>>>,
    from: int,
    found: Seq<RepositoryView>,
)
    requires
        0 <= from,
        names_differ(found),
    ensures
        chosen(list, targets, canonical, from, found) matches Ok(result) ==> names_differ(result),
    decreases targets.len() - from,
{
    if from < targets.len() {
        if let Some(index) = target_index(list, targets[from], canonical[from], 0) {
            let next = if holds_name(found, list[index].name) {
                found
            } else {
                found.push(list[index])
            };
            assert(names_differ(next)) by {
                assert forall|i: int, j: int| 0 <= i < j < next.len() implies (
                #[trigger] next[i]).name != (#[trigger] next[j]).name by {
                    if j < found.len() {
                        assert(found[i].name != found[j].name);
                    } else {
                        assert(next[i] == found[i]);
                    }
                }
            }
            chosen_names_differ(list, targets, canonical, from + 1, next);
        }
    }
}

/// Whether no name occurs twice.
pub open spec fn names_differ(list: Seq<RepositoryView>) -> bool {
    forall|i: int, j: int|
        0 <= i < j < list.len() ==> (#[trigger] list[i]).name != (#[trigger] list[j]).name
}

/// Targets that mean the same repository select it once.
pub proof fn targets_select_once(
    list: Seq<RepositoryView>,
    targets: Seq<Seq<char>>,
    canonical: Seq<Option<Seq<u8>>>,
    strategy: Option<Strategy>,
)
    requires
        names_differ(list),
    ensures
        selection(list, targets, canonical, strategy) matches Ok(result) ==> names_differ(result),
{
    chosen_names_differ(list, targets, canonical, 0, seq![]);
    let before = if targets.len() == 0 {
        Ok(list)
    } else {
        chosen(list, targets, canonical, 0, seq![])
    };
    if let Ok(found) = before {
        let after = with_strategy(found, strategy);
        assert forall|i: int, j: int| 0 <= i < j < after.len() implies (#[trigger] after[i]).name
            != (#[trigger] after[j]).name by {
            assert(found[i].name != found[j].name);
        }
    }
}

/// Adding a repository that can be written down keeps the rules of the registry.
pub proof fn adding_keeps_the_rules(
    list: Seq<RepositoryView>,
    repository: RepositoryView,
    is_repository: bool,
    home: Option<Seq<u8>>,
)
    requires
        well_formed(list),
        repository_fault(repository) is None,
    ensures
        added(list, repository, is_repository, home) matches Ok(change) ==> well_formed(
            change.repositories,
        ),
{
    if let Ok(change) = added(list, repository, is_repository, home) {
        let after = change.repositories;
        assert forall|i: int, j: int| 0 <= i < j < after.len() implies (#[trigger] after[i]).name
            != (#[trigger] after[j]).name && !same_path(after[i].path, after[j].path) by {
            assert(after[i] == list[i]);
            if j == list.len() {
                assert(!name_taken(list, repository.name, None));
                assert(!path_taken(list, repository.path, None));
            } else {
                assert(after[j] == list[j]);
            }
        }
        assert forall|i: int| 0 <= i < after.len() implies repository_fault(
            #[trigger] after[i],
        ) is None by {
            if i < list.len() {
                assert(after[i] == list[i]);
            }
        }
    }
}

/// Changing a repository into one that can be written down keeps the rules of the registry.
pub proof fn changing_keeps_the_rules(
    list: Seq<RepositoryView>,
    index: int,
    repository: RepositoryView,
    is_repository: bool,
    home: Option<Seq<u8>>,
)
    requires
        well_formed(list),
        0 <= index < list.len(),
        repository_fault(repository) is None,
    ensures
        updated(list, index, repository, is_repository, home) matches Ok(change) ==> well_formed(
            change.repositories,
        ),
{
    if let Ok(change) = updated(list, index, repository, is_repository, home) {
        let after = change.repositories;
        assert(!name_taken(list, repository.name, Some(index)));
        assert(!path_taken(list, repository.path, Some(index)));
        assert forall|i: int, j: int| 0 <= i < j < after.len() implies (#[trigger] after[i]).name
            != (#[trigger] after[j]).name && !same_path(after[i].path, after[j].path) by {
            assert(i != index ==> after[i] == list[i]);
            assert(j != index ==> after[j] == list[j]);
        }
        assert forall|i: int| 0 <= i < after.len() implies repository_fault(
            #[trigger] after[i],
        ) is None by {
            assert(i != index ==> after[i] == list[i]);
        }
    }
}

/// Removing a repository that was just added, by its name, leaves the list as it was. Nothing
/// else may be meant by that name.
pub proof fn removing_undoes_adding(
    list: Seq<RepositoryView>,
    repository: RepositoryView,
    canonical: Option<Seq<u8>>,
    home: Option<Seq<u8>>,
)
    requires
        added(list, repository, true, home) is Ok,
        forall|i: int|
            0 <= i < list.len() ==> !is_target(#[trigger] list[i], repository.name, canonical),
    ensures
        ({
            let longer = added(list, repository, true, home)->Ok_0.repositories;
            removed(longer, repository.name, canonical, home) is Ok && removed(
                longer,
                repository.name,
                canonical,
                home,
            )->Ok_0.repositories == list
        }),
{
    let longer = list.push(repository);
    let last = list.len() as int;
    assert forall|j: int| 0 <= j < last implies !is_target(
        #[trigger] longer[j],
        repository.name,
        canonical,
    ) by {
        assert(longer[j] == list[j]);
    }
    target_found(longer, repository.name, canonical, 0, Some(last));
    assert(longer.remove(last) =~= list);
}

} // verus!
