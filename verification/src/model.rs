//! Repositories and what is known of them.
use crate::failure::{plain, viewed, Failure};
use crate::path::RawPath;
use crate::text::{copy_option, maybe_text, same_text};
use vstd::prelude::*;

verus! {

/// How remote commits reach the current branch.
#[derive(Clone, Copy, Debug, PartialEq, Eq, Structural)]
pub enum Strategy {
    Rebase,
    Merge,
}

impl Default for Strategy {
    fn default() -> (strategy: Self)
        ensures
            strategy == Strategy::Rebase,
    {
        Strategy::Rebase
    }
}

/// The word for a strategy.
pub open spec fn strategy_text(strategy: Strategy) -> Seq<char> {
    match strategy {
        Strategy::Rebase => "rebase"@,
        Strategy::Merge => "merge"@,
    }
}

/// The strategy that a word stands for.
pub open spec fn strategy_named(word: Seq<char>) -> Option<Strategy> {
    if word == "rebase"@ {
        Some(Strategy::Rebase)
    } else if word == "merge"@ {
        Some(Strategy::Merge)
    } else {
        None
    }
}

impl Strategy {
    /// The strategy that a word stands for.
    pub fn parse(value: &str) -> (result: Result<Self, Failure>)
        ensures
            viewed(result) == match strategy_named(value@) {
                Some(strategy) => Ok(strategy),
                None => Err(plain("strategy must be rebase or merge"@)),
            },
    {
        if same_text(value, "rebase") {
            Ok(Strategy::Rebase)
        } else if same_text(value, "merge") {
            Ok(Strategy::Merge)
        } else {
            Err(Failure::of("strategy must be rebase or merge"))
        }
    }

    /// The other strategy.
    pub fn toggle(self) -> (other: Self)
        ensures
            other == match self {
                Strategy::Rebase => Strategy::Merge,
                Strategy::Merge => Strategy::Rebase,
            },
    {
        match self {
            Strategy::Rebase => Strategy::Merge,
            Strategy::Merge => Strategy::Rebase,
        }
    }

    /// The word for this strategy.
    pub fn to_text(self) -> (text: &'static str)
        ensures
            text@ == strategy_text(self),
    {
        match self {
            Strategy::Rebase => "rebase",
            Strategy::Merge => "merge",
        }
    }
}

/// The word for a strategy stands for that strategy.
pub proof fn strategy_round_trip(strategy: Strategy)
    ensures
        strategy_named(strategy_text(strategy)) == Some(strategy),
{
    reveal_strlit("rebase");
    reveal_strlit("merge");
    assert("rebase"@.len() != "merge"@.len());
}

/// The word for a truth value.
pub open spec fn bool_text(value: bool) -> Seq<char> {
    if value {
        "true"@
    } else {
        "false"@
    }
}

/// The word for a truth value.
pub fn bool_word(value: bool) -> (text: &'static str)
    ensures
        text@ == bool_text(value),
{
    if value {
        "true"
    } else {
        "false"
    }
}

/// A registered repository.
#[derive(Debug, PartialEq, Eq)]
pub struct Repository {
    pub name: String,
    pub path: RawPath,
    pub strategy: Strategy,
    pub submodules: bool,
}

/// The contents of a [`Repository`].
#[verifier::ext_equal]
pub struct RepositoryView {
    pub name: Seq<char>,
    pub path: Seq<u8>,
    pub strategy: Strategy,
    pub submodules: bool,
}

impl View for Repository {
    type V = RepositoryView;

    open spec fn view(&self) -> RepositoryView {
        RepositoryView {
            name: self.name@,
            path: self.path@,
            strategy: self.strategy,
            submodules: self.submodules,
        }
    }
}

impl Clone for Repository {
    fn clone(&self) -> (copy: Self)
        ensures
            copy@ == self@,
    {
        Repository {
            name: self.name.clone(),
            path: self.path.clone(),
            strategy: self.strategy,
            submodules: self.submodules,
        }
    }
}

/// The contents of a list of repositories.
pub open spec fn entries(list: Seq<Repository>) -> Seq<RepositoryView> {
    Seq::new(list.len(), |i: int| list[i]@)
}

/// A copy of a list of repositories.
pub fn copy_repositories(list: &Vec<Repository>) -> (copy: Vec<Repository>)
    ensures
        entries(copy@) == entries(list@),
{
    let copy = list.clone();
    assert(entries(copy@) =~= entries(list@));
    copy
}

/// What was found out about the current branch of a repository.
#[derive(Debug, PartialEq, Eq)]
pub struct Inspection {
    pub branch: Option<String>,
    pub compare_ref: Option<String>,
    pub updates: Option<u64>,
    pub dirty: bool,
    pub error: Option<String>,
}

/// The contents of an [`Inspection`].
#[verifier::ext_equal]
pub struct InspectionView {
    pub branch: Option<Seq<char>>,
    pub compare_ref: Option<Seq<char>>,
    pub updates: Option<u64>,
    pub dirty: bool,
    pub error: Option<Seq<char>>,
}

impl View for Inspection {
    type V = InspectionView;

    open spec fn view(&self) -> InspectionView {
        InspectionView {
            branch: maybe_text(self.branch),
            compare_ref: maybe_text(self.compare_ref),
            updates: self.updates,
            dirty: self.dirty,
            error: maybe_text(self.error),
        }
    }
}

/// An inspection that has found nothing yet.
pub open spec fn blank_inspection() -> InspectionView {
    InspectionView { branch: None, compare_ref: None, updates: None, dirty: false, error: None }
}

/// The word for the state that an inspection found.
pub open spec fn inspection_label(inspection: InspectionView) -> Seq<char> {
    if inspection.error is Some {
        "unknown"@
    } else if inspection.dirty {
        "dirty"@
    } else if inspection.updates is Some && inspection.updates->0 > 0 {
        "yes"@
    } else {
        "no"@
    }
}

impl Inspection {
    /// The word for the state that was found.
    pub fn label(&self) -> (text: &'static str)
        ensures
            text@ == inspection_label(self@),
    {
        if self.error.is_some() {
            "unknown"
        } else if self.dirty {
            "dirty"
        } else if self.has_updates() {
            "yes"
        } else {
            "no"
        }
    }

    /// Whether there are remote commits to bring in.
    pub fn has_updates(&self) -> (answer: bool)
        ensures
            answer == (self.updates is Some && self.updates->0 > 0),
    {
        match self.updates {
            Some(count) => count > 0,
            None => false,
        }
    }
}

impl Default for Inspection {
    fn default() -> (inspection: Self)
        ensures
            inspection@ == blank_inspection(),
    {
        Inspection { branch: None, compare_ref: None, updates: None, dirty: false, error: None }
    }
}

impl Clone for Inspection {
    fn clone(&self) -> (copy: Self)
        ensures
            copy@ == self@,
    {
        Inspection {
            branch: copy_option(&self.branch),
            compare_ref: copy_option(&self.compare_ref),
            updates: self.updates,
            dirty: self.dirty,
            error: copy_option(&self.error),
        }
    }
}

/// The contents of a list of inspections.
pub open spec fn findings(list: Seq<Inspection>) -> Seq<InspectionView> {
    Seq::new(list.len(), |i: int| list[i]@)
}

/// How the update of a repository ended.
#[derive(Clone, Copy, Debug, PartialEq, Eq, Structural)]
pub enum SyncKind {
    Updated,
    Skipped,
    Failed,
}

/// The end of the update of a repository.
#[derive(Debug, PartialEq, Eq)]
pub struct SyncResult {
    pub repository: Repository,
    pub kind: SyncKind,
    pub dirty: bool,
    pub detail: String,
}

/// The contents of a [`SyncResult`].
#[verifier::ext_equal]
pub struct SyncResultView {
    pub repository: RepositoryView,
    pub kind: SyncKind,
    pub dirty: bool,
    pub detail: Seq<char>,
}

impl View for SyncResult {
    type V = SyncResultView;

    open spec fn view(&self) -> SyncResultView {
        SyncResultView {
            repository: self.repository@,
            kind: self.kind,
            dirty: self.dirty,
            detail: self.detail@,
        }
    }
}

impl Clone for SyncResult {
    fn clone(&self) -> (copy: Self)
        ensures
            copy@ == self@,
    {
        SyncResult {
            repository: self.repository.clone(),
            kind: self.kind,
            dirty: self.dirty,
            detail: self.detail.clone(),
        }
    }
}

/// The contents of a list of results.
pub open spec fn outcomes(list: Seq<SyncResult>) -> Seq<SyncResultView> {
    Seq::new(list.len(), |i: int| list[i]@)
}

/// How many results are of a kind.
pub open spec fn count_kind(list: Seq<SyncResultView>, kind: SyncKind) -> nat
    decreases list.len(),
{
    if list.len() == 0 {
        0
    } else {
        count_kind(list.drop_last(), kind) + if list.last().kind == kind {
            1nat
        } else {
            0nat
        }
    }
}

/// What is said of a result: whether local changes were there, and the detail.
pub open spec fn result_detail(result: SyncResultView) -> Seq<char> {
    if !result.dirty {
        result.detail
    } else if result.detail.len() == 0 {
        "local dirty"@
    } else {
        "local dirty"@ + "; "@ + result.detail
    }
}

impl SyncResult {
    /// What is said of the result: whether local changes were there, and the detail.
    pub fn describe(&self) -> (text: String)
        ensures
            text@ == result_detail(self@),
    {
        if !self.dirty {
            self.detail.clone()
        } else if self.detail.as_str().is_empty() {
            "local dirty".to_owned()
        } else {
            let mut text = "local dirty".to_owned();
            text.append("; ");
            text.append(self.detail.as_str());
            text
        }
    }
}

} // verus!
