//! Inspecting a repository, planning its update and carrying the plan out.
use crate::failure::{plain, Failure, FailureView};
use crate::git::{
    answers, at_once, branch_in, branch_query, branch_request, checked, command, compare_ref,
    compare_ref_at, count_query, count_request, counted, current_branch, dirty, fetch, fetch_from,
    flag_progress, git_stdout, has_remotes, is_git_repository, is_repository, lists_changes,
    lists_remotes, named_branch, remote_update_count, remotes_query, remotes_request,
    repository_query, repository_request, run_checked_with_prompt, status_query, status_request,
    stdout_of, task_progress, text_progress, upstream, upstream_at, Progress, ProgressView, Reply,
    ReplyView, Request, RequestView, Step, StepView, Timeout,
};
use crate::model::{
    blank_inspection, Inspection, InspectionView, Repository, RepositoryView, Strategy, SyncKind,
    SyncResult, SyncResultView,
};
use crate::path::{borrowed_path, display_path, displayed, RawPath};
use crate::text::{concat, maybe_text, owned, same_text, texts, trim, trimmed};
use vstd::prelude::*;

verus! {

// ---------------------------------------------------------------------------
// Inspection
// ---------------------------------------------------------------------------

/// An inspection that ended with an error.
pub open spec fn with_error(found: InspectionView, text: Seq<char>) -> InspectionView {
    InspectionView { error: Some(text), ..found }
}

/// What is said of a repository whose directory is gone.
pub open spec fn missing_path(repository: RepositoryView, home: Option<Seq<u8>>) -> Seq<char> {
    "Path does not exist: "@ + displayed(repository.path, home)
}

/// What is said of a directory without a repository.
pub open spec fn no_repository(repository: RepositoryView, home: Option<Seq<u8>>) -> Seq<char> {
    "Not a git repository: "@ + displayed(repository.path, home)
}

/// What is said of a branch that cannot be compared.
pub open spec fn cannot_compare(
    branch: Seq<char>,
    reference: Seq<char>,
    failure: FailureView,
) -> Seq<char> {
    "Cannot compare "@ + branch + " with "@ + reference + ": "@ + failure.message
}

fn comparison_error(branch: &str, reference: &str, failure: &Failure) -> (text: String)
    ensures
        text@ == cannot_compare(branch@, reference@, failure@),
{
    let mut text = concat("Cannot compare ", branch);
    text.append(" with ");
    text.append(reference);
    text.append(": ");
    text.append(failure.message.as_str());
    text
}

/// Whether the fetch before an inspection failed, read from the replies from `at` on. There
/// is none without a remote, or where none was asked for.
pub open spec fn refresh_at(h: Seq<ReplyView>, at: int, refresh: bool, attempts: int) -> ProgressView<
    bool,
> {
    if !refresh {
        ProgressView::Done(false, at)
    } else if h.len() <= at {
        ProgressView::Ask(remotes_query())
    } else if !lists_remotes(h[at]) {
        ProgressView::Done(false, at + 1)
    } else {
        match fetch_from(h, at + 1, attempts, false) {
            ProgressView::Ask(request) => ProgressView::Ask(request),
            ProgressView::Done(result, next) => ProgressView::Done(result is Err, next),
        }
    }
}

fn refresh_refs(replies: &Vec<Reply>, at: usize, refresh: bool, attempts: usize) -> (progress:
    Progress<bool>)
    requires
        at <= replies@.len(),
    ensures
        flag_progress(progress) == refresh_at(
            answers(replies@),
            at as int,
            refresh,
            attempts as int,
        ),
        progress matches Progress::Done(_, next) ==> at <= next <= replies@.len(),
{
    if !refresh {
        return Progress::Done(false, at);
    }
    if at >= replies.len() {
        return Progress::Ask(remotes_request());
    }
    if !has_remotes(&replies[at]) {
        return Progress::Done(false, at + 1);
    }
    match fetch(replies, at + 1, attempts, false) {
        Progress::Ask(request) => Progress::Ask(request),
        Progress::Done(result, next) => Progress::Done(result.is_err(), next),
    }
}

/// The comparison with the remote branch, read from the replies from `at` on.
pub open spec fn inspect_compare(
    found: InspectionView,
    branch: Seq<char>,
    fetch_failed: bool,
    h: Seq<ReplyView>,
    at: int,
) -> StepView<InspectionView> {
    match compare_ref_at(h, at, branch) {
        ProgressView::Ask(request) => StepView::Ask(request),
        ProgressView::Done(result, next) => match result {
            Err(failure) => StepView::Done(with_error(found, failure.full_text())),
            Ok(None) => StepView::Done(
                if fetch_failed && !found.dirty {
                    with_error(found, "Fetch failed and no local tracking ref is available."@)
                } else {
                    InspectionView { updates: Some(0), ..found }
                },
            ),
            Ok(Some(reference)) => {
                let known = InspectionView { compare_ref: Some(reference), ..found };
                if h.len() <= next {
                    StepView::Ask(count_query(reference))
                } else {
                    StepView::Done(
                        match counted(h[next]) {
                            Ok(count) => InspectionView { updates: Some(count as u64), ..known },
                            Err(failure) => if found.dirty {
                                known
                            } else {
                                with_error(known, cannot_compare(branch, reference, failure))
                            },
                        },
                    )
                }
            },
        },
    }
}

/// The local changes and then the comparison, read from the replies from `at` on.
pub open spec fn inspect_status(
    branch: Seq<char>,
    fetch_failed: bool,
    h: Seq<ReplyView>,
    at: int,
) -> StepView<InspectionView> {
    let found = InspectionView { branch: Some(branch), ..blank_inspection() };
    if h.len() <= at {
        StepView::Ask(status_query())
    } else {
        match lists_changes(h[at]) {
            Err(failure) => StepView::Done(
                with_error(found, "Cannot read git status: "@ + failure.message),
            ),
            Ok(dirty) => inspect_compare(
                InspectionView { dirty, ..found },
                branch,
                fetch_failed,
                h,
                at + 1,
            ),
        }
    }
}

/// The next command of an inspection, or its result.
pub open spec fn inspect_step(
    repository: RepositoryView,
    home: Option<Seq<u8>>,
    is_directory: bool,
    refresh: bool,
    attempts: int,
    h: Seq<ReplyView>,
) -> StepView<InspectionView> {
    if !is_directory {
        StepView::Done(with_error(blank_inspection(), missing_path(repository, home)))
    } else if h.len() == 0 {
        StepView::Ask(repository_query())
    } else if !is_repository(h[0]) {
        StepView::Done(with_error(blank_inspection(), no_repository(repository, home)))
    } else if h.len() == 1 {
        StepView::Ask(branch_query())
    } else {
        match branch_in(h[1]) {
            None => StepView::Done(
                with_error(blank_inspection(), "Detached HEAD or no current branch."@),
            ),
            Some(branch) => match refresh_at(h, 2, refresh, attempts) {
                ProgressView::Ask(request) => StepView::Ask(request),
                ProgressView::Done(fetch_failed, next) => inspect_status(
                    branch,
                    fetch_failed,
                    h,
                    next,
                ),
            },
        }
    }
}

/// Inspects a repository: its branch, local changes and remote updates.
///
/// `replies` answers the commands asked so far; `is_directory` tells whether the path of the
/// repository is a directory.
pub fn inspect_repository(
    repository: &Repository,
    home: Option<&RawPath>,
    is_directory: bool,
    refresh: bool,
    attempts: usize,
    replies: &Vec<Reply>,
) -> (step: Step<Inspection>)
    ensures
        step@ == inspect_step(
            repository@,
            borrowed_path(home),
            is_directory,
            refresh,
            attempts as int,
            answers(replies@),
        ),
{
    let mut inspection = Inspection::default();
    if !is_directory {
        inspection.error =
        Some(concat("Path does not exist: ", display_path(&repository.path, home).as_str()));
        return Step::Done(inspection);
    }
    if replies.len() == 0 {
        return Step::Ask(repository_request());
    }
    if !is_git_repository(&replies[0]) {
        inspection.error =
        Some(concat("Not a git repository: ", display_path(&repository.path, home).as_str()));
        return Step::Done(inspection);
    }
    if replies.len() == 1 {
        return Step::Ask(branch_request());
    }
    let branch = match named_branch(&replies[1]) {
        Some(branch) => branch,
        None => {
            inspection.error = Some("Detached HEAD or no current branch.".to_owned());
            return Step::Done(inspection);
        },
    };
    inspection.branch = Some(branch.clone());
    let (fetch_failed, at) = match refresh_refs(replies, 2, refresh, attempts) {
        Progress::Ask(request) => return Step::Ask(request),
        Progress::Done(value, next) => (value, next),
    };
    if at >= replies.len() {
        return Step::Ask(status_request());
    }
    match dirty(&replies[at]) {
        Ok(value) => inspection.dirty = value,
        Err(failure) => {
            inspection.error =
            Some(concat("Cannot read git status: ", failure.message.as_str()));
            return Step::Done(inspection);
        },
    }
    let (reference, next) = match compare_ref(replies, at + 1, branch.as_str()) {
        Progress::Ask(request) => return Step::Ask(request),
        Progress::Done(Ok(reference), next) => (reference, next),
        Progress::Done(Err(failure), _) => {
            inspection.error = Some(failure.full());
            return Step::Done(inspection);
        },
    };
    let reference = match reference {
        Some(reference) => reference,
        None => {
            if fetch_failed && !inspection.dirty {
                inspection.error =
                Some("Fetch failed and no local tracking ref is available.".to_owned());
            } else {
                inspection.updates = Some(0);
            }
            return Step::Done(inspection);
        },
    };
    inspection.compare_ref = Some(reference.clone());
    if next >= replies.len() {
        return Step::Ask(count_request(reference.as_str()));
    }
    match remote_update_count(&replies[next]) {
        Ok(count) => inspection.updates = Some(count),
        Err(failure) => if !inspection.dirty {
            inspection.error =
            Some(comparison_error(branch.as_str(), reference.as_str(), &failure));
        },
    }
    Step::Done(inspection)
}

// ---------------------------------------------------------------------------
// Planning
// ---------------------------------------------------------------------------

/// The update of a repository that was found to be needed.
#[derive(Debug, PartialEq, Eq)]
pub struct SyncPlan {
    pub repository: Repository,
    pub branch: String,
    pub compare_ref: String,
    pub update_count: u64,
    pub dirty: bool,
    pub configured_upstream: bool,
    pub terminal_prompt: bool,
    pub command_timeout: Timeout,
}

/// The contents of a [`SyncPlan`].
#[verifier::ext_equal]
pub struct SyncPlanView {
    pub repository: RepositoryView,
    pub branch: Seq<char>,
    pub compare_ref: Seq<char>,
    pub update_count: u64,
    pub dirty: bool,
    pub configured_upstream: bool,
    pub terminal_prompt: bool,
    pub command_timeout: Timeout,
}

impl View for SyncPlan {
    type V = SyncPlanView;

    open spec fn view(&self) -> SyncPlanView {
        SyncPlanView {
            repository: self.repository@,
            branch: self.branch@,
            compare_ref: self.compare_ref@,
            update_count: self.update_count,
            dirty: self.dirty,
            configured_upstream: self.configured_upstream,
            terminal_prompt: self.terminal_prompt,
            command_timeout: self.command_timeout,
        }
    }
}

impl Clone for SyncPlan {
    fn clone(&self) -> (copy: Self)
        ensures
            copy@ == self@,
    {
        SyncPlan {
            repository: self.repository.clone(),
            branch: self.branch.clone(),
            compare_ref: self.compare_ref.clone(),
            update_count: self.update_count,
            dirty: self.dirty,
            configured_upstream: self.configured_upstream,
            terminal_prompt: self.terminal_prompt,
            command_timeout: self.command_timeout,
        }
    }
}

/// The end of the preparation of an update: a plan, or a result that needs none.
#[derive(Debug, PartialEq, Eq)]
pub enum PreparedSync {
    Update(SyncPlan),
    Terminal(SyncResult),
}

/// The contents of a [`PreparedSync`].
#[verifier::ext_equal]
pub enum PreparedView {
    Update(SyncPlanView),
    Terminal(SyncResultView),
}

impl View for PreparedSync {
    type V = PreparedView;

    open spec fn view(&self) -> PreparedView {
        match self {
            PreparedSync::Update(plan) => PreparedView::Update(plan@),
            PreparedSync::Terminal(result) => PreparedView::Terminal(result@),
        }
    }
}

impl Clone for PreparedSync {
    fn clone(&self) -> (copy: Self)
        ensures
            copy@ == self@,
    {
        match self {
            PreparedSync::Update(plan) => PreparedSync::Update(plan.clone()),
            PreparedSync::Terminal(result) => PreparedSync::Terminal(result.clone()),
        }
    }
}

/// A preparation that failed.
pub open spec fn failed_preparation(
    repository: RepositoryView,
    detail: Seq<char>,
    dirty: bool,
) -> StepView<PreparedView> {
    StepView::Done(
        PreparedView::Terminal(
            SyncResultView { repository, kind: SyncKind::Failed, dirty, detail },
        ),
    )
}

fn failed(repository: &Repository, detail: String, dirty: bool) -> (step: Step<PreparedSync>)
    ensures
        step@ == failed_preparation(repository@, detail@, dirty),
{
    Step::Done(
        PreparedSync::Terminal(
            SyncResult { repository: repository.clone(), kind: SyncKind::Failed, dirty, detail },
        ),
    )
}

/// The reference to pull from and whether it is a configured upstream, read from the replies
/// from `at` on.
pub open spec fn pull_source_at(h: Seq<ReplyView>, at: int, branch: Seq<char>) -> ProgressView<
    Result<(bool, Option<Seq<char>>), FailureView>,
> {
    match upstream_at(h, at, branch) {
        ProgressView::Ask(request) => ProgressView::Ask(request),
        ProgressView::Done(result, next) => match result {
            Err(failure) => ProgressView::Done(Err(failure), next),
            Ok(Some(reference)) => ProgressView::Done(Ok((true, Some(reference))), next),
            Ok(None) => match compare_ref_at(h, next, branch) {
                ProgressView::Ask(request) => ProgressView::Ask(request),
                ProgressView::Done(result, next) => match result {
                    Err(failure) => ProgressView::Done(Err(failure), next),
                    Ok(reference) => ProgressView::Done(Ok((false, reference)), next),
                },
            },
        },
    }
}

/// The view of the progress towards the reference to pull from.
pub open spec fn source_progress(
    progress: Progress<Result<(bool, Option<String>), Failure>>,
) -> ProgressView<Result<(bool, Option<Seq<char>>), FailureView>> {
    match progress {
        Progress::Ask(request) => ProgressView::Ask(request@),
        Progress::Done(result, next) => ProgressView::Done(
            match result {
                Ok((configured, reference)) => Ok((configured, maybe_text(reference))),
                Err(failure) => Err(failure@),
            },
            next as int,
        ),
    }
}

fn pull_source(replies: &Vec<Reply>, at: usize, branch: &str) -> (progress: Progress<
    Result<(bool, Option<String>), Failure>,
>)
    requires
        at <= replies@.len(),
    ensures
        source_progress(progress) == pull_source_at(answers(replies@), at as int, branch@),
        progress matches Progress::Done(_, next) ==> at <= next <= replies@.len(),
{
    match upstream(replies, at, branch) {
        Progress::Ask(request) => Progress::Ask(request),
        Progress::Done(Err(failure), next) => Progress::Done(Err(failure), next),
        Progress::Done(Ok(Some(reference)), next) => Progress::Done(
            Ok((true, Some(reference))),
            next,
        ),
        Progress::Done(Ok(None), next) => match compare_ref(replies, next, branch) {
            Progress::Ask(request) => Progress::Ask(request),
            Progress::Done(Err(failure), next) => Progress::Done(Err(failure), next),
            Progress::Done(Ok(reference), next) => Progress::Done(Ok((false, reference)), next),
        },
    }
}

/// The end of a preparation whose fetch succeeded, read from the replies from `at` on.
pub open spec fn prepare_compare(
    repository: RepositoryView,
    branch: Seq<char>,
    dirty: bool,
    terminal_prompt: bool,
    timeout: Timeout,
    h: Seq<ReplyView>,
    at: int,
) -> StepView<PreparedView> {
    match pull_source_at(h, at, branch) {
        ProgressView::Ask(request) => StepView::Ask(request),
        ProgressView::Done(result, next) => match result {
            Err(failure) => failed_preparation(repository, failure.full_text(), dirty),
            Ok((_, None)) => failed_preparation(
                repository,
                "No upstream or origin/"@ + branch + " for current branch."@,
                dirty,
            ),
            Ok((configured_upstream, Some(reference))) => if h.len() <= next {
                StepView::Ask(count_query(reference))
            } else {
                match counted(h[next]) {
                    Err(failure) => failed_preparation(
                        repository,
                        cannot_compare(branch, reference, failure),
                        dirty,
                    ),
                    Ok(count) => StepView::Done(
                        if count == 0 && !repository.submodules {
                            PreparedView::Terminal(
                                SyncResultView {
                                    repository,
                                    kind: SyncKind::Skipped,
                                    dirty,
                                    detail: seq![],
                                },
                            )
                        } else {
                            PreparedView::Update(
                                SyncPlanView {
                                    repository,
                                    branch,
                                    compare_ref: reference,
                                    update_count: count as u64,
                                    dirty,
                                    configured_upstream,
                                    terminal_prompt,
                                    command_timeout: timeout,
                                },
                            )
                        },
                    ),
                }
            },
        },
    }
}

/// The next command of a preparation, or its result.
pub open spec fn prepare_step(
    repository: RepositoryView,
    home: Option<Seq<u8>>,
    is_directory: bool,
    attempts: int,
    terminal_prompt: bool,
    timeout: Timeout,
    h: Seq<ReplyView>,
) -> StepView<PreparedView> {
    if !is_directory {
        failed_preparation(repository, missing_path(repository, home), false)
    } else if h.len() == 0 {
        StepView::Ask(repository_query())
    } else if !is_repository(h[0]) {
        failed_preparation(repository, no_repository(repository, home), false)
    } else if h.len() == 1 {
        StepView::Ask(branch_query())
    } else {
        match branch_in(h[1]) {
            None => failed_preparation(
                repository,
                "Detached HEAD or no current branch."@,
                false,
            ),
            Some(branch) => if h.len() == 2 {
                StepView::Ask(status_query())
            } else {
                match lists_changes(h[2]) {
                    Err(failure) => failed_preparation(
                        repository,
                        "Cannot read git status: "@ + failure.message,
                        false,
                    ),
                    Ok(dirty) => match fetch_from(h, 3, attempts, true) {
                        ProgressView::Ask(request) => StepView::Ask(request),
                        ProgressView::Done(result, next) => match result {
                            Err(failure) => failed_preparation(repository, failure.message, dirty),
                            Ok(_) => prepare_compare(
                                repository,
                                branch,
                                dirty,
                                terminal_prompt,
                                timeout,
                                h,
                                next,
                            ),
                        },
                    },
                }
            },
        }
    }
}

/// Fetches branches and tags and plans the update of a repository.
///
/// `replies` answers the commands asked so far; `is_directory` tells whether the path of the
/// repository is a directory.
pub fn prepare_sync(
    repository: &Repository,
    home: Option<&RawPath>,
    is_directory: bool,
    attempts: usize,
    terminal_prompt: bool,
    timeout: Timeout,
    replies: &Vec<Reply>,
) -> (step: Step<PreparedSync>)
    ensures
        step@ == prepare_step(
            repository@,
            borrowed_path(home),
            is_directory,
            attempts as int,
            terminal_prompt,
            timeout,
            answers(replies@),
        ),
{
    if !is_directory {
        let text = display_path(&repository.path, home);
        return failed(repository, concat("Path does not exist: ", text.as_str()), false);
    }
    if replies.len() == 0 {
        return Step::Ask(repository_request());
    }
    if !is_git_repository(&replies[0]) {
        let text = display_path(&repository.path, home);
        return failed(repository, concat("Not a git repository: ", text.as_str()), false);
    }
    if replies.len() == 1 {
        return Step::Ask(branch_request());
    }
    let branch = match named_branch(&replies[1]) {
        Some(branch) => branch,
        None => return failed(
            repository,
            "Detached HEAD or no current branch.".to_owned(),
            false,
        ),
    };
    if replies.len() == 2 {
        return Step::Ask(status_request());
    }
    let dirty = match dirty(&replies[2]) {
        Ok(value) => value,
        Err(failure) => return failed(
            repository,
            concat("Cannot read git status: ", failure.message.as_str()),
            false,
        ),
    };
    let at = match fetch(replies, 3, attempts, true) {
        Progress::Ask(request) => return Step::Ask(request),
        Progress::Done(Err(failure), _) => return failed(repository, failure.message, dirty),
        Progress::Done(Ok(()), next) => next,
    };
    let (configured_upstream, reference, next) = match pull_source(replies, at, branch.as_str()) {
        Progress::Ask(request) => return Step::Ask(request),
        Progress::Done(Err(failure), _) => return failed(repository, failure.full(), dirty),
        Progress::Done(Ok((configured, reference)), next) => (configured, reference, next),
    };
    let compare_ref = match reference {
        Some(reference) => reference,
        None => {
            let mut text = concat("No upstream or origin/", branch.as_str());
            text.append(" for current branch.");
            return failed(repository, text, dirty);
        },
    };
    if next >= replies.len() {
        return Step::Ask(count_request(compare_ref.as_str()));
    }
    let update_count = match remote_update_count(&replies[next]) {
        Ok(value) => value,
        Err(failure) => return failed(
            repository,
            comparison_error(branch.as_str(), compare_ref.as_str(), &failure),
            dirty,
        ),
    };
    if update_count == 0 && !repository.submodules {
        return Step::Done(
            PreparedSync::Terminal(
                SyncResult {
                    repository: repository.clone(),
                    kind: SyncKind::Skipped,
                    dirty,
                    detail: String::new(),
                },
            ),
        );
    }
    Step::Done(
        PreparedSync::Update(
            SyncPlan {
                repository: repository.clone(),
                branch,
                compare_ref,
                update_count,
                dirty,
                configured_upstream,
                terminal_prompt,
                command_timeout: timeout,
            },
        ),
    )
}

// ---------------------------------------------------------------------------
// Carrying out
// ---------------------------------------------------------------------------

/// What is said when another branch was checked out after the preparation.
pub open spec fn branch_changed(expected: Seq<char>, active: Seq<char>) -> FailureView {
    plain(
        "Current branch changed after fetch/check (expected "@ + expected + ", found "@ + (
        if active.len() == 0 {
            "detached HEAD"@
        } else {
            active
        }) + ")."@,
    )
}

/// What is said when another upstream was configured after the preparation.
pub open spec fn upstream_changed(expected: Seq<char>, active: Option<Seq<char>>) -> FailureView {
    plain(
        "Configured upstream changed after fetch/check (expected "@ + expected + ", found "@ + (
        match active {
            Some(reference) => reference,
            None => "none"@,
        }) + ")."@,
    )
}

/// What is said when a pull would use another reference than the one that was compared.
pub open spec fn target_changed(expected: Seq<char>) -> FailureView {
    plain("Pull target changed after fetch/check (expected "@ + expected + ")."@)
}

/// Whether a pull would still use the reference of the plan, read from the replies from `at`
/// on.
pub open spec fn target_at(plan: SyncPlanView, h: Seq<ReplyView>, at: int) -> ProgressView<
    Result<(), FailureView>,
> {
    match upstream_at(h, at, plan.branch) {
        ProgressView::Ask(request) => ProgressView::Ask(request),
        ProgressView::Done(result, next) => match result {
            Err(failure) => ProgressView::Done(Err(failure), next),
            Ok(active) => if plan.configured_upstream {
                ProgressView::Done(
                    if active == Some(plan.compare_ref) {
                        Ok(())
                    } else {
                        Err(upstream_changed(plan.compare_ref, active))
                    },
                    next,
                )
            } else if active is Some {
                ProgressView::Done(Err(target_changed(plan.compare_ref)), next)
            } else {
                match compare_ref_at(h, next, plan.branch) {
                    ProgressView::Ask(request) => ProgressView::Ask(request),
                    ProgressView::Done(result, next) => ProgressView::Done(
                        match result {
                            Err(failure) => Err(failure),
                            Ok(reference) => if reference == Some(plan.compare_ref) {
                                Ok(())
                            } else {
                                Err(target_changed(plan.compare_ref))
                            },
                        },
                        next,
                    ),
                }
            },
        },
    }
}

fn same_reference(reference: &Option<String>, expected: &str) -> (answer: bool)
    ensures
        answer == (maybe_text(*reference) == Some(expected@)),
{
    match reference {
        Some(text) => same_text(text.as_str(), expected),
        None => false,
    }
}

fn check_target(plan: &SyncPlan, replies: &Vec<Reply>, at: usize) -> (progress: Progress<
    Result<(), Failure>,
>)
    requires
        at <= replies@.len(),
    ensures
        task_progress(progress) == target_at(plan@, answers(replies@), at as int),
        progress matches Progress::Done(_, next) ==> at <= next <= replies@.len(),
{
    let (active, next) = match upstream(replies, at, plan.branch.as_str()) {
        Progress::Ask(request) => return Progress::Ask(request),
        Progress::Done(Err(failure), next) => return Progress::Done(Err(failure), next),
        Progress::Done(Ok(active), next) => (active, next),
    };
    if plan.configured_upstream {
        if same_reference(&active, plan.compare_ref.as_str()) {
            return Progress::Done(Ok(()), next);
        }
        let mut text = concat(
            "Configured upstream changed after fetch/check (expected ",
            plan.compare_ref.as_str(),
        );
        text.append(", found ");
        match &active {
            Some(reference) => text.append(reference.as_str()),
            None => text.append("none"),
        }
        text.append(").");
        return Progress::Done(Err(Failure::new(text)), next);
    }
    let mut changed = concat(
        "Pull target changed after fetch/check (expected ",
        plan.compare_ref.as_str(),
    );
    changed.append(").");
    if active.is_some() {
        return Progress::Done(Err(Failure::new(changed)), next);
    }
    match compare_ref(replies, next, plan.branch.as_str()) {
        Progress::Ask(request) => Progress::Ask(request),
        Progress::Done(Err(failure), next) => Progress::Done(Err(failure), next),
        Progress::Done(Ok(reference), next) => if same_reference(
            &reference,
            plan.compare_ref.as_str(),
        ) {
            Progress::Done(Ok(()), next)
        } else {
            Progress::Done(Err(Failure::new(changed)), next)
        },
    }
}

/// The command that names the commit of HEAD.
pub open spec fn head_query() -> RequestView {
    command(seq!["rev-parse"@, "HEAD"@])
}

fn head_request() -> (request: Request)
    ensures
        request@ == head_query(),
{
    let request = at_once(&["rev-parse", "HEAD"]);
    assert(request@ =~= head_query());
    request
}

/// The option of `git pull` for a strategy.
pub open spec fn strategy_option(strategy: Strategy) -> Seq<char> {
    match strategy {
        Strategy::Rebase => "--rebase"@,
        Strategy::Merge => "--no-rebase"@,
    }
}

/// The pull of a plan. Without a configured upstream it names the remote branch.
pub open spec fn pull_command(plan: SyncPlanView) -> RequestView {
    let common = seq![
        "pull"@,
        "--no-tags"@,
        strategy_option(plan.repository.strategy),
        "--recurse-submodules=on-demand"@,
    ];
    command(
        if plan.configured_upstream {
            common
        } else {
            common + seq!["origin"@, plan.branch]
        },
    )
}

fn pull_request(plan: &SyncPlan) -> (request: Request)
    ensures
        request@ == pull_command(plan@),
{
    let option = match plan.repository.strategy {
        Strategy::Rebase => "--rebase",
        Strategy::Merge => "--no-rebase",
    };
    let mut arguments = owned(&["pull", "--no-tags", option, "--recurse-submodules=on-demand"]);
    let ghost common = seq![
        "pull"@,
        "--no-tags"@,
        strategy_option(plan.repository.strategy),
        "--recurse-submodules=on-demand"@,
    ];
    assert(texts(arguments@) =~= common);
    if !plan.configured_upstream {
        let ghost before = arguments@;
        arguments.push("origin".to_owned());
        arguments.push(plan.branch.clone());
        assert forall|i: int| 0 <= i < 4 implies texts(arguments@)[i] == common[i] by {
            assert(arguments@[i] == before[i]);
            assert(texts(before)[i] == common[i]);
        }
        assert(texts(arguments@) =~= common + seq!["origin"@, plan.branch@]);
    }
    let request = Request { pause: 0, arguments };
    assert(request@.arguments =~= pull_command(plan@).arguments);
    request
}

/// The command that copies the addresses of the submodules.
pub open spec fn submodule_sync_command() -> RequestView {
    command(seq!["submodule"@, "sync"@, "--recursive"@])
}

/// The command that checks the submodules out.
pub open spec fn submodule_update_command() -> RequestView {
    command(seq!["submodule"@, "update"@, "--init"@, "--recursive"@])
}

/// The command that sums up the changes since a commit.
pub open spec fn diff_query(before: Seq<char>) -> RequestView {
    command(seq!["diff"@, "--shortstat"@, before, "HEAD"@])
}

fn submodule_sync_request() -> (request: Request)
    ensures
        request@ == submodule_sync_command(),
{
    let request = at_once(&["submodule", "sync", "--recursive"]);
    assert(request@ =~= submodule_sync_command());
    request
}

fn submodule_update_request() -> (request: Request)
    ensures
        request@ == submodule_update_command(),
{
    let request = at_once(&["submodule", "update", "--init", "--recursive"]);
    assert(request@ =~= submodule_update_command());
    request
}

fn diff_request(before: &str) -> (request: Request)
    ensures
        request@ == diff_query(before@),
{
    let request = at_once(&["diff", "--shortstat", before, "HEAD"]);
    assert(request@ =~= diff_query(before@));
    request
}

/// The summary of the changes, read from the reply at `at`.
pub open spec fn diff_at(before: Seq<char>, h: Seq<ReplyView>, at: int) -> ProgressView<
    Result<Seq<char>, FailureView>,
> {
    if h.len() <= at {
        ProgressView::Ask(diff_query(before))
    } else {
        ProgressView::Done(
            match h[at] {
                Err(failure) => Err(failure),
                Ok(output) => Ok(
                    if !output.success {
                        "diffstat unavailable"@
                    } else if trimmed(output.stdout).len() == 0 {
                        "0 files changed"@
                    } else {
                        trimmed(output.stdout)
                    },
                ),
            },
            at + 1,
        )
    }
}

/// The submodules and what follows them, read from the replies from `at` on.
pub open spec fn submodules_at(
    plan: SyncPlanView,
    before: Seq<char>,
    h: Seq<ReplyView>,
    at: int,
) -> ProgressView<Result<Seq<char>, FailureView>> {
    if !plan.repository.submodules {
        diff_at(before, h, at)
    } else if h.len() <= at {
        ProgressView::Ask(submodule_sync_command())
    } else {
        match checked(h[at], "submodule sync failed"@) {
            Err(failure) => ProgressView::Done(Err(failure), at + 1),
            Ok(_) => if h.len() <= at + 1 {
                ProgressView::Ask(submodule_update_command())
            } else {
                match checked(h[at + 1], "submodule update failed"@) {
                    Err(failure) => ProgressView::Done(Err(failure), at + 2),
                    Ok(_) => diff_at(before, h, at + 2),
                }
            },
        }
    }
}

/// The pull and what follows it, read from the replies from `at` on. There is a pull only
/// where there are remote commits.
pub open spec fn pull_at(plan: SyncPlanView, before: Seq<char>, h: Seq<ReplyView>, at: int) -> ProgressView<
    Result<Seq<char>, FailureView>,
> {
    if plan.update_count == 0 {
        submodules_at(plan, before, h, at)
    } else if h.len() <= at {
        ProgressView::Ask(pull_command(plan))
    } else {
        match checked(h[at], "pull failed"@) {
            Err(failure) => ProgressView::Done(Err(failure), at + 1),
            Ok(_) => submodules_at(plan, before, h, at + 1),
        }
    }
}

/// The work on a confirmed target, read from the replies from `at` on.
pub open spec fn update_at(plan: SyncPlanView, h: Seq<ReplyView>, at: int) -> ProgressView<
    Result<Seq<char>, FailureView>,
> {
    if h.len() <= at {
        ProgressView::Ask(head_query())
    } else {
        match stdout_of(h[at]) {
            Err(failure) => ProgressView::Done(
                Err(failure.within("Cannot read current HEAD"@)),
                at + 1,
            ),
            Ok(before) => pull_at(plan, before, h, at + 1),
        }
    }
}

/// The work of a plan: nothing is changed unless branch and target are still those of the
/// plan.
pub open spec fn apply_inner(plan: SyncPlanView, h: Seq<ReplyView>) -> ProgressView<
    Result<Seq<char>, FailureView>,
> {
    if h.len() == 0 {
        ProgressView::Ask(branch_query())
    } else {
        match stdout_of(h[0]) {
            Err(failure) => ProgressView::Done(
                Err(failure.within("Cannot read current branch"@)),
                1,
            ),
            Ok(active) => if active != plan.branch {
                ProgressView::Done(Err(branch_changed(plan.branch, active)), 1)
            } else {
                match target_at(plan, h, 1) {
                    ProgressView::Ask(request) => ProgressView::Ask(request),
                    ProgressView::Done(result, next) => match result {
                        Err(failure) => ProgressView::Done(Err(failure), next),
                        Ok(_) => update_at(plan, h, next),
                    },
                }
            },
        }
    }
}

/// The next command of a plan, or its result. After a failure the local changes are looked
/// at once more.
pub open spec fn apply_step(plan: SyncPlanView, h: Seq<ReplyView>) -> StepView<SyncResultView> {
    match apply_inner(plan, h) {
        ProgressView::Ask(request) => StepView::Ask(request),
        ProgressView::Done(result, next) => match result {
            Ok(detail) => StepView::Done(
                SyncResultView {
                    repository: plan.repository,
                    kind: SyncKind::Updated,
                    dirty: plan.dirty,
                    detail,
                },
            ),
            Err(failure) => if h.len() <= next {
                StepView::Ask(status_query())
            } else {
                StepView::Done(
                    SyncResultView {
                        repository: plan.repository,
                        kind: SyncKind::Failed,
                        dirty: match lists_changes(h[next]) {
                            Ok(dirty) => dirty,
                            Err(_) => plan.dirty,
                        },
                        detail: failure.message,
                    },
                )
            },
        },
    }
}

fn read_diff(before: &str, replies: &Vec<Reply>, at: usize) -> (progress: Progress<
    Result<String, Failure>,
>)
    requires
        at <= replies@.len(),
    ensures
        text_progress(progress) == diff_at(before@, answers(replies@), at as int),
        progress matches Progress::Done(_, next) ==> at <= next <= replies@.len(),
{
    if at >= replies.len() {
        return Progress::Ask(diff_request(before));
    }
    let result = match &replies[at] {
        Err(failure) => Err(failure.clone()),
        Ok(output) => {
            if !output.success {
                Ok("diffstat unavailable".to_owned())
            } else {
                let stat = trim(output.stdout.as_str());
                if stat.as_str().is_empty() {
                    Ok("0 files changed".to_owned())
                } else {
                    Ok(stat)
                }
            }
        },
    };
    Progress::Done(result, at + 1)
}

fn update_submodules(plan: &SyncPlan, before: &str, replies: &Vec<Reply>, at: usize) -> (progress:
    Progress<Result<String, Failure>>)
    requires
        at <= replies@.len(),
    ensures
        text_progress(progress) == submodules_at(plan@, before@, answers(replies@), at as int),
        progress matches Progress::Done(_, next) ==> at <= next <= replies@.len(),
{
    if !plan.repository.submodules {
        return read_diff(before, replies, at);
    }
    if at >= replies.len() {
        return Progress::Ask(submodule_sync_request());
    }
    if let Err(failure) = run_checked_with_prompt(&replies[at], "submodule sync failed") {
        return Progress::Done(Err(failure), at + 1);
    }
    if at + 1 >= replies.len() {
        return Progress::Ask(submodule_update_request());
    }
    if let Err(failure) = run_checked_with_prompt(&replies[at + 1], "submodule update failed") {
        return Progress::Done(Err(failure), at + 2);
    }
    read_diff(before, replies, at + 2)
}

/// Carries out a plan as long as branch and target are still those of the plan.
pub fn apply_sync_inner(plan: &SyncPlan, replies: &Vec<Reply>) -> (progress: Progress<
    Result<String, Failure>,
>)
    ensures
        text_progress(progress) == apply_inner(plan@, answers(replies@)),
        progress matches Progress::Done(_, next) ==> next <= replies@.len(),
{
    if replies.len() == 0 {
        return Progress::Ask(branch_request());
    }
    let active_branch = match current_branch(&replies[0]) {
        Ok(branch) => branch,
        Err(failure) => return Progress::Done(
            Err(failure.context("Cannot read current branch")),
            1,
        ),
    };
    if !same_text(active_branch.as_str(), plan.branch.as_str()) {
        let mut text = concat(
            "Current branch changed after fetch/check (expected ",
            plan.branch.as_str(),
        );
        text.append(", found ");
        if active_branch.as_str().is_empty() {
            text.append("detached HEAD");
        } else {
            text.append(active_branch.as_str());
        }
        text.append(").");
        return Progress::Done(Err(Failure::new(text)), 1);
    }
    let at = match check_target(plan, replies, 1) {
        Progress::Ask(request) => return Progress::Ask(request),
        Progress::Done(Err(failure), next) => return Progress::Done(Err(failure), next),
        Progress::Done(Ok(()), next) => next,
    };
    if at >= replies.len() {
        return Progress::Ask(head_request());
    }
    let before = match git_stdout(&replies[at]) {
        Ok(before) => before,
        Err(failure) => return Progress::Done(
            Err(failure.context("Cannot read current HEAD")),
            at + 1,
        ),
    };
    if plan.update_count == 0 {
        return update_submodules(plan, before.as_str(), replies, at + 1);
    }
    if at + 1 >= replies.len() {
        return Progress::Ask(pull_request(plan));
    }
    if let Err(failure) = run_checked_with_prompt(&replies[at + 1], "pull failed") {
        return Progress::Done(Err(failure), at + 2);
    }
    update_submodules(plan, before.as_str(), replies, at + 2)
}

/// Carries out a plan. `replies` answers the commands asked so far.
pub fn apply_sync(plan: &SyncPlan, replies: &Vec<Reply>) -> (step: Step<SyncResult>)
    ensures
        step@ == apply_step(plan@, answers(replies@)),
{
    match apply_sync_inner(plan, replies) {
        Progress::Ask(request) => Step::Ask(request),
        Progress::Done(Ok(detail), _) => Step::Done(
            SyncResult {
                repository: plan.repository.clone(),
                kind: SyncKind::Updated,
                dirty: plan.dirty,
                detail,
            },
        ),
        Progress::Done(Err(failure), next) => {
            if next >= replies.len() {
                return Step::Ask(status_request());
            }
            let dirty = match dirty(&replies[next]) {
                Ok(value) => value,
                Err(_) => plan.dirty,
            };
            Step::Done(
                SyncResult {
                    repository: plan.repository.clone(),
                    kind: SyncKind::Failed,
                    dirty,
                    detail: failure.message,
                },
            )
        },
    }
}

} // verus!
