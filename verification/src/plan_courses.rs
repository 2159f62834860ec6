//! Whole courses of inspections and preparations: which commands are run, in which order, word
//! by word, and what their replies lead to.
use crate::failure::FailureView;
use crate::git::{
    combined_text, compare_ref_at, ProgressView, ReplyView, RequestView, StepView, Timeout,
};
use crate::git_laws::{
    asks_setting, counts_are_what_was_printed, ended_silently, ended_well, fetch_words,
    fetches_are_repeated, has_no_upstream, has_upstream, origin_stands_in, printed, told_by,
    upstream_is_asked_for,
};
use crate::model::{InspectionView, RepositoryView, SyncKind, SyncResultView};
use crate::path::displayed;
use crate::plan::{
    inspect_step, prepare_step, pull_source_at, refresh_at, PreparedView, SyncPlanView,
};
use crate::text::{decimal, summarized};
use vstd::prelude::*;

verus! {

/// A command that is run at once.
pub open spec fn run_now(words: Seq<Seq<char>>) -> RequestView {
    RequestView { pause: 0, arguments: words }
}

/// The words that ask for the local changes.
pub open spec fn status_words() -> Seq<Seq<char>> {
    seq!["status"@, "--porcelain=v1"@, "--untracked-files=normal"@]
}

/// The words that count the commits of a reference that the current branch lacks.
pub open spec fn count_words(reference: Seq<char>) -> Seq<Seq<char>> {
    seq!["rev-list"@, "--count"@, "HEAD.."@ + reference]
}

// ---------------------------------------------------------------------------
// Inspecting
// ---------------------------------------------------------------------------

/// Whether replies tell how a refresh went, and at which reply the look at the repository goes
/// on: `tries` fetches ended badly, and `failed` tells that all did.
pub open spec fn refreshed(
    h: Seq<ReplyView>,
    refresh: bool,
    attempts: int,
    tries: int,
    next: int,
    failed: bool,
) -> bool {
    if !refresh {
        next == 2 && !failed
    } else {
        &&& 2 < next <= h.len()
        &&& if !ended_well(h[2]) || printed(h[2]).len() == 0 {
            next == 3 && !failed
        } else {
            &&& 0 <= tries < attempts <= u64::MAX
            &&& forall|i: int| 3 <= i < 3 + tries ==> (#[trigger] h[i]) is Ok && !h[i]->Ok_0.success
            &&& next == 4 + tries <= h.len()
            &&& if failed {
                tries + 1 == attempts && h[3 + tries] is Ok && !h[3 + tries]->Ok_0.success
            } else {
                ended_well(h[3 + tries])
            }
        }
    }
}

proof fn refresh_goes_on(
    h: Seq<ReplyView>,
    refresh: bool,
    attempts: int,
    tries: int,
    next: int,
    failed: bool,
    n: int,
)
    requires
        refreshed(h, refresh, attempts, tries, next, failed),
        next <= n <= h.len(),
    ensures
        refresh_at(h.take(n), 2, refresh, attempts) == ProgressView::Done(failed, next),
{
    let part = h.take(n);
    assert(forall|i: int| 0 <= i < n ==> part[i] == h[i]);
    if refresh && ended_well(h[2]) && printed(h[2]).len() > 0 {
        fetches_are_repeated(part, 3, tries, attempts, false);
    }
}

/// Whether replies tell that a directory is a repository on a branch.
pub open spec fn on_branch(h: Seq<ReplyView>, branch: Seq<char>) -> bool {
    &&& 2 <= h.len()
    &&& ended_well(h[0]) && printed(h[0]) == "true"@
    &&& ended_well(h[1]) && printed(h[1]) == branch
    &&& branch.len() > 0
}

/// An inspection first asks whether the directory is a repository, then for its branch, and
/// with a refresh for its remotes, from which it fetches without tags where there are any.
pub proof fn inspections_begin(
    repository: RepositoryView,
    home: Option<Seq<u8>>,
    refresh: bool,
    attempts: int,
    h: Seq<ReplyView>,
    branch: Seq<char>,
    tries: int,
    next: int,
    failed: bool,
)
    requires
        on_branch(h, branch),
        refreshed(h, refresh, attempts, tries, next, failed),
        next <= h.len(),
    ensures
        inspect_step(repository, home, true, refresh, attempts, h.take(0)) == StepView::<
            InspectionView,
        >::Ask(run_now(seq!["rev-parse"@, "--is-inside-work-tree"@])),
        inspect_step(repository, home, true, refresh, attempts, h.take(1)) == StepView::<
            InspectionView,
        >::Ask(run_now(seq!["branch"@, "--show-current"@])),
        refresh ==> inspect_step(repository, home, true, refresh, attempts, h.take(2))
            == StepView::<InspectionView>::Ask(run_now(seq!["remote"@])),
        refresh && ended_well(h[2]) && printed(h[2]).len() > 0 ==> forall|j: int|
            0 <= j <= tries ==> #[trigger] inspect_step(
                repository,
                home,
                true,
                refresh,
                attempts,
                h.take(3 + j),
            ) == StepView::<InspectionView>::Ask(
                RequestView { pause: j as u64, arguments: fetch_words(false) },
            ),
        inspect_step(repository, home, true, refresh, attempts, h.take(next)) == StepView::<
            InspectionView,
        >::Ask(run_now(status_words())),
{
    refresh_goes_on(h, refresh, attempts, tries, next, failed, next);
    if refresh && ended_well(h[2]) && printed(h[2]).len() > 0 {
        assert forall|j: int| 0 <= j <= tries implies #[trigger] inspect_step(
            repository,
            home,
            true,
            refresh,
            attempts,
            h.take(3 + j),
        ) == StepView::<InspectionView>::Ask(
            RequestView { pause: j as u64, arguments: fetch_words(false) },
        ) by {
            fetches_are_repeated(h, 3, j, attempts, false);
        }
    }
}

/// The reference that a branch is compared with: its upstream, or the branch of the same name on
/// `origin` where it has none. Three replies tell it.
pub open spec fn compared_with(
    h: Seq<ReplyView>,
    at: int,
    branch: Seq<char>,
    reference: Seq<char>,
) -> bool {
    ||| has_upstream(h, at, reference)
    ||| has_no_upstream(h, at) && at + 3 <= h.len() && ended_well(h[at + 2]) && reference
        == "origin/"@ + branch
}

/// Later replies do not change the reference that a branch is compared with.
pub proof fn comparing_goes_on(
    h: Seq<ReplyView>,
    at: int,
    branch: Seq<char>,
    reference: Seq<char>,
    n: int,
)
    requires
        compared_with(h, at, branch, reference),
        at + 3 <= n <= h.len(),
    ensures
        compare_ref_at(h.take(n), at, branch) == ProgressView::<
            Result<Option<Seq<char>>, FailureView>,
        >::Done(Ok(Some(reference)), at + 3),
{
    let part = h.take(n);
    assert(part[at] == h[at] && part[at + 1] == h[at + 1] && part[at + 2] == h[at + 2]);
    if has_upstream(h, at, reference) {
        assert(has_upstream(part, at, reference));
        upstream_is_asked_for(part, at, branch, reference);
    } else {
        assert(has_no_upstream(part, at));
        origin_stands_in(part, at, branch);
    }
}

/// Where a repository is on a branch that can be compared, an inspection asks how many commits
/// of the reference the branch lacks, and tells that number, the branch, the reference, and
/// whether there are local changes. Nothing went wrong then, whether or not a fetch did.
pub proof fn inspections_tell_the_updates(
    repository: RepositoryView,
    home: Option<Seq<u8>>,
    refresh: bool,
    attempts: int,
    h: Seq<ReplyView>,
    branch: Seq<char>,
    tries: int,
    next: int,
    failed: bool,
    reference: Seq<char>,
    count: nat,
)
    requires
        on_branch(h, branch),
        refreshed(h, refresh, attempts, tries, next, failed),
        next < h.len(),
        ended_well(h[next]),
        compared_with(h, next + 1, branch, reference),
        count <= u64::MAX,
    ensures
        inspect_step(repository, home, true, refresh, attempts, h.take(next + 4)) == StepView::<
            InspectionView,
        >::Ask(run_now(count_words(reference))),
        h.len() > next + 4 && ended_well(h[next + 4]) && printed(h[next + 4]) == decimal(count)
            ==> inspect_step(repository, home, true, refresh, attempts, h) == StepView::Done(
            InspectionView {
                branch: Some(branch),
                compare_ref: Some(reference),
                updates: Some(count as u64),
                dirty: printed(h[next]).len() > 0,
                error: None,
            },
        ),
        h.len() > next + 4 && !ended_well(h[next + 4]) ==> {
            let found = inspect_step(repository, home, true, refresh, attempts, h);
            &&& found is Done
            &&& found->Done_0.updates is None
            &&& found->Done_0.branch == Some(branch)
            &&& found->Done_0.compare_ref == Some(reference)
            &&& found->Done_0.dirty == (printed(h[next]).len() > 0)
            &&& found->Done_0.error is None <==> found->Done_0.dirty
        },
{
    let part = h.take(next + 4);
    assert(forall|i: int| 0 <= i < part.len() ==> part[i] == h[i]);
    assert(h.take(h.len() as int) =~= h);
    refresh_goes_on(h, refresh, attempts, tries, next, failed, next + 4);
    refresh_goes_on(h, refresh, attempts, tries, next, failed, h.len() as int);
    comparing_goes_on(h, next + 1, branch, reference, next + 4);
    comparing_goes_on(h, next + 1, branch, reference, h.len() as int);
    if h.len() > next + 4 {
        counts_are_what_was_printed(h[next + 4], count);
    }
}

/// How an inspection finds the reference: it asks for the settings of the branch, and then for
/// the name of the upstream or for the branch on `origin`.
pub proof fn inspections_find_the_reference(
    repository: RepositoryView,
    home: Option<Seq<u8>>,
    refresh: bool,
    attempts: int,
    h: Seq<ReplyView>,
    branch: Seq<char>,
    tries: int,
    next: int,
    failed: bool,
    reference: Seq<char>,
)
    requires
        on_branch(h, branch),
        refreshed(h, refresh, attempts, tries, next, failed),
        next < h.len(),
        ended_well(h[next]),
        compared_with(h, next + 1, branch, reference),
    ensures
        inspect_step(repository, home, true, refresh, attempts, h.take(next + 1)) matches
            StepView::Ask(request) && asks_setting(request, branch, ".remote"@),
        inspect_step(repository, home, true, refresh, attempts, h.take(next + 2)) matches
            StepView::Ask(request) && asks_setting(request, branch, ".merge"@),
        inspect_step(repository, home, true, refresh, attempts, h.take(next + 3)) == StepView::<
            InspectionView,
        >::Ask(
            run_now(
                if has_upstream(h, next + 1, reference) {
                    seq!["rev-parse"@, "--abbrev-ref"@, "--symbolic-full-name"@, "@{u}"@]
                } else {
                    seq![
                        "show-ref"@,
                        "--verify"@,
                        "--quiet"@,
                        "refs/remotes/origin/"@ + branch,
                    ]
                },
            ),
        ),
{
    refresh_goes_on(h, refresh, attempts, tries, next, failed, next + 1);
    refresh_goes_on(h, refresh, attempts, tries, next, failed, next + 2);
    refresh_goes_on(h, refresh, attempts, tries, next, failed, next + 3);
    assert(forall|i: int| 0 <= i < next + 1 ==> h.take(next + 1)[i] == h[i]);
    assert(forall|i: int| 0 <= i < next + 2 ==> h.take(next + 2)[i] == h[i]);
    assert(forall|i: int| 0 <= i < next + 3 ==> h.take(next + 3)[i] == h[i]);
    if has_upstream(h, next + 1, reference) {
        upstream_is_asked_for(h, next + 1, branch, reference);
    } else {
        origin_stands_in(h, next + 1, branch);
    }
}

/// Without a reference there is nothing to update, unless the fetch failed and the working tree
/// is clean: then it is not known.
pub proof fn nothing_to_compare_with(
    repository: RepositoryView,
    home: Option<Seq<u8>>,
    refresh: bool,
    attempts: int,
    h: Seq<ReplyView>,
    branch: Seq<char>,
    tries: int,
    next: int,
    failed: bool,
)
    requires
        on_branch(h, branch),
        refreshed(h, refresh, attempts, tries, next, failed),
        next + 4 <= h.len(),
        ended_well(h[next]),
        has_no_upstream(h, next + 1),
        ended_silently(h[next + 3]),
    ensures
        inspect_step(repository, home, true, refresh, attempts, h) == StepView::Done(
            InspectionView {
                branch: Some(branch),
                compare_ref: None,
                updates: if failed && printed(h[next]).len() == 0 {
                    None
                } else {
                    Some(0)
                },
                dirty: printed(h[next]).len() > 0,
                error: if failed && printed(h[next]).len() == 0 {
                    Some("Fetch failed and no local tracking ref is available."@)
                } else {
                    None
                },
            },
        ),
{
    assert(h.take(h.len() as int) =~= h);
    refresh_goes_on(h, refresh, attempts, tries, next, failed, h.len() as int);
    origin_stands_in(h, next + 1, branch);
}

/// What cannot be inspected is told as an error, without a number of updates: a directory that
/// is not there or is no repository, a missing branch, local changes that cannot be read.
pub proof fn inspections_tell_what_is_wrong(
    repository: RepositoryView,
    home: Option<Seq<u8>>,
    refresh: bool,
    attempts: int,
    h: Seq<ReplyView>,
    branch: Seq<char>,
    tries: int,
    next: int,
    failed: bool,
)
    ensures
        inspect_step(repository, home, false, refresh, attempts, h) == StepView::Done(
            InspectionView {
                branch: None,
                compare_ref: None,
                updates: None,
                dirty: false,
                error: Some("Path does not exist: "@ + displayed(repository.path, home)),
            },
        ),
        h.len() > 0 && !(ended_well(h[0]) && printed(h[0]) == "true"@) ==> inspect_step(
            repository,
            home,
            true,
            refresh,
            attempts,
            h,
        ) == StepView::Done(
            InspectionView {
                branch: None,
                compare_ref: None,
                updates: None,
                dirty: false,
                error: Some("Not a git repository: "@ + displayed(repository.path, home)),
            },
        ),
        h.len() > 1 && ended_well(h[0]) && printed(h[0]) == "true"@ && !(ended_well(h[1])
            && printed(h[1]).len() > 0) ==> inspect_step(
            repository,
            home,
            true,
            refresh,
            attempts,
            h,
        ) == StepView::Done(
            InspectionView {
                branch: None,
                compare_ref: None,
                updates: None,
                dirty: false,
                error: Some("Detached HEAD or no current branch."@),
            },
        ),
        on_branch(h, branch) && refreshed(h, refresh, attempts, tries, next, failed) && next
            < h.len() && !ended_well(h[next]) ==> {
            let found = inspect_step(repository, home, true, refresh, attempts, h);
            &&& found is Done
            &&& found->Done_0.branch == Some(branch)
            &&& found->Done_0.compare_ref is None
            &&& found->Done_0.updates is None
            &&& !found->Done_0.dirty
            &&& found->Done_0.error == Some("Cannot read git status: "@ + told_by(h[next]))
        },
{
    if on_branch(h, branch) && refreshed(h, refresh, attempts, tries, next, failed) && next
        < h.len() {
        assert(h.take(h.len() as int) =~= h);
        refresh_goes_on(h, refresh, attempts, tries, next, failed, h.len() as int);
    }
}

// ---------------------------------------------------------------------------
// Preparing
// ---------------------------------------------------------------------------

/// Whether replies tell that a fetch before an update ended well after `tries` bad ends.
pub open spec fn fetched(h: Seq<ReplyView>, attempts: int, tries: int) -> bool {
    &&& 0 <= tries < attempts <= u64::MAX
    &&& 4 + tries <= h.len()
    &&& forall|i: int| 3 <= i < 3 + tries ==> (#[trigger] h[i]) is Ok && !h[i]->Ok_0.success
    &&& ended_well(h[3 + tries])
}

/// A preparation asks whether the directory is a repository, for its branch and its local
/// changes, and then fetches branches and tags, tags by force.
pub proof fn preparations_begin(
    repository: RepositoryView,
    home: Option<Seq<u8>>,
    attempts: int,
    terminal_prompt: bool,
    timeout: Timeout,
    h: Seq<ReplyView>,
    branch: Seq<char>,
    tries: int,
)
    requires
        on_branch(h, branch),
        h.len() > 2 && ended_well(h[2]),
        0 <= tries < attempts <= u64::MAX,
        3 + tries <= h.len(),
        forall|i: int| 3 <= i < 3 + tries ==> (#[trigger] h[i]) is Ok && !h[i]->Ok_0.success,
    ensures
        prepare_step(repository, home, true, attempts, terminal_prompt, timeout, h.take(0))
            == StepView::<PreparedView>::Ask(
            run_now(seq!["rev-parse"@, "--is-inside-work-tree"@]),
        ),
        prepare_step(repository, home, true, attempts, terminal_prompt, timeout, h.take(1))
            == StepView::<PreparedView>::Ask(run_now(seq!["branch"@, "--show-current"@])),
        prepare_step(repository, home, true, attempts, terminal_prompt, timeout, h.take(2))
            == StepView::<PreparedView>::Ask(run_now(status_words())),
        prepare_step(repository, home, true, attempts, terminal_prompt, timeout, h.take(3 + tries))
            == StepView::<PreparedView>::Ask(
            RequestView {
                pause: tries as u64,
                arguments: seq!["fetch"@, "--prune"@, "--tags"@, "--force"@],
            },
        ),
{
    fetches_are_repeated(h, 3, tries, attempts, true);
    assert(forall|i: int| 0 <= i < 3 ==> h.take(3 + tries)[i] == h[i]);
}

/// Where a branch has no upstream that it is pulled from, `origin` is pulled from. The replies
/// tell twice that there is none.
pub open spec fn pulled_from(
    h: Seq<ReplyView>,
    at: int,
    branch: Seq<char>,
    configured: bool,
    reference: Seq<char>,
    next: int,
) -> bool {
    if configured {
        has_upstream(h, at, reference) && next == at + 3
    } else {
        &&& has_no_upstream(h, at)
        &&& compared_with(h, at + 2, branch, reference)
        &&& next == at + 5
    }
}

proof fn pull_source_goes_on(
    h: Seq<ReplyView>,
    at: int,
    branch: Seq<char>,
    configured: bool,
    reference: Seq<char>,
    next: int,
    n: int,
)
    requires
        pulled_from(h, at, branch, configured, reference, next),
        next <= n <= h.len(),
    ensures
        pull_source_at(h.take(n), at, branch) == ProgressView::<
            Result<(bool, Option<Seq<char>>), FailureView>,
        >::Done(Ok((configured, Some(reference))), next),
{
    let part = h.take(n);
    assert(forall|i: int| 0 <= i < n ==> part[i] == h[i]);
    if configured {
        upstream_is_asked_for(h, at, branch, reference);
    } else {
        origin_stands_in(h, at, branch);
        comparing_goes_on(h, at + 2, branch, reference, n);
    }
}

/// Once the fetch ended well and the reference to pull from is known, a preparation asks how
/// many commits the branch lacks. Without any, and without submodules, the repository is
/// skipped; otherwise there is a plan with what was found. Local changes do not matter.
pub proof fn preparations_plan_the_updates(
    repository: RepositoryView,
    home: Option<Seq<u8>>,
    attempts: int,
    terminal_prompt: bool,
    timeout: Timeout,
    h: Seq<ReplyView>,
    branch: Seq<char>,
    tries: int,
    configured: bool,
    reference: Seq<char>,
    next: int,
    count: nat,
)
    requires
        on_branch(h, branch),
        h.len() > 2 && ended_well(h[2]),
        fetched(h, attempts, tries),
        pulled_from(h, 4 + tries, branch, configured, reference, next),
        count <= u64::MAX,
    ensures
        prepare_step(repository, home, true, attempts, terminal_prompt, timeout, h.take(next))
            == StepView::<PreparedView>::Ask(run_now(count_words(reference))),
        h.len() > next && ended_well(h[next]) && printed(h[next]) == decimal(count)
            ==> prepare_step(repository, home, true, attempts, terminal_prompt, timeout, h)
            == StepView::Done(
            if count > 0 || repository.submodules {
                PreparedView::Update(
                    SyncPlanView {
                        repository,
                        branch,
                        compare_ref: reference,
                        update_count: count as u64,
                        dirty: printed(h[2]).len() > 0,
                        configured_upstream: configured,
                        terminal_prompt,
                        command_timeout: timeout,
                    },
                )
            } else {
                PreparedView::Terminal(
                    SyncResultView {
                        repository,
                        kind: SyncKind::Skipped,
                        dirty: printed(h[2]).len() > 0,
                        detail: seq![],
                    },
                )
            },
        ),
        h.len() > next && !ended_well(h[next]) ==> fails(
            prepare_step(repository, home, true, attempts, terminal_prompt, timeout, h),
            repository,
            printed(h[2]).len() > 0,
        ),
{
    assert(h.take(h.len() as int) =~= h);
    let part = h.take(next);
    assert(forall|i: int| 0 <= i < part.len() ==> part[i] == h[i]);
    fetches_are_repeated(h, 3, tries, attempts, true);
    fetches_are_repeated(part, 3, tries, attempts, true);
    pull_source_goes_on(h, 4 + tries, branch, configured, reference, next, next);
    pull_source_goes_on(h, 4 + tries, branch, configured, reference, next, h.len() as int);
    if h.len() > next {
        counts_are_what_was_printed(h[next], count);
    }
}

/// Whether a preparation failed, with a reason.
pub open spec fn fails(
    step: StepView<PreparedView>,
    repository: RepositoryView,
    dirty: bool,
) -> bool {
    step matches StepView::Done(PreparedView::Terminal(result)) && result.kind == SyncKind::Failed
        && result.repository == repository && result.dirty == dirty
}

/// What cannot be prepared fails and tells why: a directory that is not there or is no
/// repository, a missing branch, local changes that cannot be read, a fetch that did not end
/// well however often it was tried, a branch that nothing can be compared with.
pub proof fn preparations_tell_what_is_wrong(
    repository: RepositoryView,
    home: Option<Seq<u8>>,
    attempts: int,
    terminal_prompt: bool,
    timeout: Timeout,
    h: Seq<ReplyView>,
    branch: Seq<char>,
    tries: int,
)
    ensures
        ({
            let step = prepare_step(
                repository,
                home,
                false,
                attempts,
                terminal_prompt,
                timeout,
                h,
            );
            &&& fails(step, repository, false)
            &&& step->Done_0->Terminal_0.detail == "Path does not exist: "@ + displayed(
                repository.path,
                home,
            )
        }),
        ({
            let step = prepare_step(repository, home, true, attempts, terminal_prompt, timeout, h);
            &&& h.len() > 0 && !(ended_well(h[0]) && printed(h[0]) == "true"@) ==> {
                &&& fails(step, repository, false)
                &&& step->Done_0->Terminal_0.detail == "Not a git repository: "@ + displayed(
                    repository.path,
                    home,
                )
            }
            &&& h.len() > 1 && ended_well(h[0]) && printed(h[0]) == "true"@ && !(ended_well(h[1])
                && printed(h[1]).len() > 0) ==> {
                &&& fails(step, repository, false)
                &&& step->Done_0->Terminal_0.detail == "Detached HEAD or no current branch."@
            }
            &&& h.len() > 2 && on_branch(h, branch) && !ended_well(h[2]) ==> {
                &&& fails(step, repository, false)
                &&& step->Done_0->Terminal_0.detail == "Cannot read git status: "@ + told_by(h[2])
            }
            &&& h.len() > 2 && on_branch(h, branch) && ended_well(h[2]) && 0 <= tries && tries + 1
                == attempts <= u64::MAX && 3 + attempts <= h.len() && (forall|i: int|
                3 <= i < 3 + attempts ==> (#[trigger] h[i]) is Ok && !h[i]->Ok_0.success) ==> {
                let last = summarized(combined_text(h[3 + tries]->Ok_0));
                &&& fails(step, repository, printed(h[2]).len() > 0)
                &&& step->Done_0->Terminal_0.detail == if last.len() == 0 {
                    "fetch failed"@
                } else {
                    "fetch failed: "@ + last
                }
            }
            &&& h.len() > 2 && on_branch(h, branch) && ended_well(h[2]) && fetched(
                h,
                attempts,
                tries,
            ) && has_no_upstream(h, 4 + tries) && has_no_upstream(h, 6 + tries) && h.len() > 8
                + tries && ended_silently(h[8 + tries]) ==> {
                &&& fails(step, repository, printed(h[2]).len() > 0)
                &&& step->Done_0->Terminal_0.detail == "No upstream or origin/"@ + branch
                    + " for current branch."@
            }
        }),
{
    if h.len() > 2 && on_branch(h, branch) && ended_well(h[2]) {
        if 0 <= tries && tries + 1 == attempts <= u64::MAX && 3 + attempts <= h.len() && (forall|
            i: int,
        |
            3 <= i < 3 + attempts ==> (#[trigger] h[i]) is Ok && !h[i]->Ok_0.success) {
            assert(h[3 + tries] is Ok);
            fetches_are_repeated(h, 3, tries, attempts, true);
        }
        if fetched(h, attempts, tries) && has_no_upstream(h, 4 + tries) && has_no_upstream(
            h,
            6 + tries,
        ) && h.len() > 8 + tries {
            fetches_are_repeated(h, 3, tries, attempts, true);
            origin_stands_in(h, 4 + tries, branch);
            origin_stands_in(h, 6 + tries, branch);
        }
    }
}

} // verus!
