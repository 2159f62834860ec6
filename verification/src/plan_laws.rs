//! What holds of every inspection, preparation and update, whatever Git answers.
use crate::failure::FailureView;
use crate::git::{
    branch_in, branch_key_query, branch_query, compare_ref_at, count_query, counted, fetch_arguments,
    fetch_at, fetch_from, is_repository, key_set, lists_changes, remotes_query, repository_query,
    status_query, stdout_of, tracking_query, upstream_at, upstream_query, ProgressView, ReplyView,
    RequestView, StepView, Timeout,
};
use crate::model::{InspectionView, RepositoryView, SyncKind, SyncResultView};
use crate::plan::{
    apply_step, branch_changed, diff_query, head_query, inspect_compare, inspect_step,
    prepare_compare, prepare_step, pull_command, pull_source_at, refresh_at,
    submodule_sync_command, submodule_update_command, target_at, PreparedView, SyncPlanView,
};
use crate::text::numbers_are_bounded;
use vstd::prelude::*;

verus! {

/// The commands that read and change nothing.
pub open spec fn reads_only(request: RequestView) -> bool {
    ||| request == repository_query()
    ||| request == branch_query()
    ||| request == remotes_query()
    ||| request == status_query()
    ||| request == upstream_query()
    ||| request == head_query()
    ||| exists|branch: Seq<char>| request == #[trigger] branch_key_query(branch, ".remote"@)
    ||| exists|branch: Seq<char>| request == #[trigger] branch_key_query(branch, ".merge"@)
    ||| exists|branch: Seq<char>| request == #[trigger] tracking_query(branch)
    ||| exists|reference: Seq<char>| request == #[trigger] count_query(reference)
    ||| exists|before: Seq<char>| request == #[trigger] diff_query(before)
}

/// A fetch asks again only after failures, waits one second more each time, and its end does
/// not depend on later replies. It takes at most `attempts` commands.
pub proof fn fetch_retries(
    h: Seq<ReplyView>,
    more: Seq<ReplyView>,
    at: int,
    attempt: int,
    attempts: int,
    sync_tags: bool,
)
    requires
        0 <= at <= h.len(),
        1 <= attempt <= attempts <= u64::MAX,
    ensures
        match fetch_at(h, at, attempt, attempts, sync_tags) {
            ProgressView::Ask(request) => {
                &&& request.arguments == fetch_arguments(sync_tags)
                &&& request.pause == attempt - 1 + h.len() - at
                &&& h.len() - at <= attempts - attempt
                &&& forall|i: int|
                    at <= i < h.len() ==> (#[trigger] h[i]) is Ok && !h[i]->Ok_0.success
            },
            ProgressView::Done(result, next) => {
                &&& at < next <= h.len()
                &&& next - at <= attempts - attempt + 1
                &&& fetch_at(h + more, at, attempt, attempts, sync_tags) == fetch_at(
                    h,
                    at,
                    attempt,
                    attempts,
                    sync_tags,
                )
                &&& result is Ok <==> h[next - 1] is Ok && h[next - 1]->Ok_0.success
            },
        },
    decreases attempts - attempt,
{
    if at < h.len() {
        assert((h + more)[at] == h[at]);
        if h[at] is Ok && !h[at]->Ok_0.success && attempt < attempts {
            fetch_retries(h, more, at + 1, attempt + 1, attempts, sync_tags);
        }
    }
}

proof fn fetch_from_facts(
    h: Seq<ReplyView>,
    more: Seq<ReplyView>,
    at: int,
    attempts: int,
    sync_tags: bool,
)
    requires
        0 <= at <= h.len(),
        0 <= attempts <= u64::MAX,
    ensures
        match fetch_from(h, at, attempts, sync_tags) {
            ProgressView::Ask(request) => request.arguments == fetch_arguments(sync_tags)
                && h.len() - at < attempts,
            ProgressView::Done(result, next) => at <= next <= h.len() && next - at <= attempts
                && fetch_from(h + more, at, attempts, sync_tags) == fetch_from(
                h,
                at,
                attempts,
                sync_tags,
            ),
        },
{
    if attempts > 0 {
        fetch_retries(h, more, at, 1, attempts, sync_tags);
    }
}

proof fn upstream_facts(h: Seq<ReplyView>, more: Seq<ReplyView>, at: int, branch: Seq<char>)
    requires
        0 <= at <= h.len(),
    ensures
        match upstream_at(h, at, branch) {
            ProgressView::Ask(request) => reads_only(request) && h.len() - at < 3,
            ProgressView::Done(result, next) => at <= next <= h.len() && next - at <= 3 && (
            result == Ok::<Option<Seq<char>>, FailureView>(None) ==> next - at == 2) && upstream_at(
                h + more,
                at,
                branch,
            ) == upstream_at(h, at, branch),
        },
{
    assert forall|i: int| 0 <= i < h.len() implies (h + more)[i] == h[i] by {}
}

proof fn compare_ref_facts(h: Seq<ReplyView>, more: Seq<ReplyView>, at: int, branch: Seq<char>)
    requires
        0 <= at <= h.len(),
    ensures
        match compare_ref_at(h, at, branch) {
            ProgressView::Ask(request) => reads_only(request) && h.len() - at < 3,
            ProgressView::Done(result, next) => at <= next <= h.len() && next - at <= 3
                && compare_ref_at(h + more, at, branch) == compare_ref_at(h, at, branch),
        },
{
    upstream_facts(h, more, at, branch);
    assert forall|i: int| 0 <= i < h.len() implies (h + more)[i] == h[i] by {}
}

/// An inspection runs only commands that read, besides, where a refresh was asked for, a
/// fetch that leaves tags alone.
pub proof fn inspection_only_reads(
    repository: RepositoryView,
    home: Option<Seq<u8>>,
    is_directory: bool,
    refresh: bool,
    attempts: int,
    h: Seq<ReplyView>,
)
    requires
        0 <= attempts <= u64::MAX,
    ensures
        inspect_step(repository, home, is_directory, refresh, attempts, h) matches StepView::Ask(
            request,
        ) ==> reads_only(request) || (refresh && request.arguments == fetch_arguments(false)),
{
    inspection_facts(repository, home, is_directory, refresh, attempts, h, seq![]);
}

/// An inspection needs at most eight commands besides the attempts to fetch.
pub proof fn inspection_ends(
    repository: RepositoryView,
    home: Option<Seq<u8>>,
    is_directory: bool,
    refresh: bool,
    attempts: int,
    h: Seq<ReplyView>,
)
    requires
        0 <= attempts <= u64::MAX,
        h.len() >= attempts + 8,
    ensures
        inspect_step(repository, home, is_directory, refresh, attempts, h) is Done,
{
    inspection_facts(repository, home, is_directory, refresh, attempts, h, seq![]);
}

/// The result of an inspection does not depend on replies that it did not ask for.
pub proof fn inspection_is_settled(
    repository: RepositoryView,
    home: Option<Seq<u8>>,
    is_directory: bool,
    refresh: bool,
    attempts: int,
    h: Seq<ReplyView>,
    more: Seq<ReplyView>,
)
    requires
        0 <= attempts <= u64::MAX,
        inspect_step(repository, home, is_directory, refresh, attempts, h) is Done,
    ensures
        inspect_step(repository, home, is_directory, refresh, attempts, h + more) == inspect_step(
            repository,
            home,
            is_directory,
            refresh,
            attempts,
            h,
        ),
{
    inspection_facts(repository, home, is_directory, refresh, attempts, h, more);
}

proof fn inspection_facts(
    repository: RepositoryView,
    home: Option<Seq<u8>>,
    is_directory: bool,
    refresh: bool,
    attempts: int,
    h: Seq<ReplyView>,
    more: Seq<ReplyView>,
)
    requires
        0 <= attempts <= u64::MAX,
    ensures
        match inspect_step(repository, home, is_directory, refresh, attempts, h) {
            StepView::Ask(request) => h.len() < attempts + 8 && (reads_only(request) || (refresh
                && request.arguments == fetch_arguments(false))),
            StepView::Done(_) => inspect_step(
                repository,
                home,
                is_directory,
                refresh,
                attempts,
                h + more,
            ) == inspect_step(repository, home, is_directory, refresh, attempts, h),
        },
{
    assert forall|i: int| 0 <= i < h.len() implies (h + more)[i] == h[i] by {}
    if is_directory && h.len() >= 2 && is_repository(h[0]) && branch_in(h[1]) is Some {
        let branch = branch_in(h[1])->0;
        if refresh && h.len() > 2 {
            fetch_from_facts(h, more, 3, attempts, false);
        }
        match refresh_at(h, 2, refresh, attempts) {
            ProgressView::Ask(_) => {},
            ProgressView::Done(_, next) => {
                assert(refresh_at(h + more, 2, refresh, attempts) == refresh_at(
                    h,
                    2,
                    refresh,
                    attempts,
                ));
                assert(next <= h.len() && next <= attempts + 3);
                if next < h.len() {
                    compare_ref_facts(h, more, next + 1, branch);
                    if lists_changes(h[next]) is Ok {
                        match compare_ref_at(h, next + 1, branch) {
                            ProgressView::Ask(_) => {},
                            ProgressView::Done(result, after) => {
                                if result is Ok && result->Ok_0 is Some {
                                    let reference = result->Ok_0->0;
                                    assert(count_query(reference) == count_query(reference));
                                }
                            },
                        }
                    }
                }
            },
        }
    }
}

/// A preparation runs only commands that read, besides a fetch that forces tags to match. It
/// never changes the working tree.
pub proof fn preparation_only_fetches(
    repository: RepositoryView,
    home: Option<Seq<u8>>,
    is_directory: bool,
    attempts: int,
    terminal_prompt: bool,
    timeout: Timeout,
    h: Seq<ReplyView>,
)
    requires
        0 <= attempts <= u64::MAX,
    ensures
        prepare_step(
            repository,
            home,
            is_directory,
            attempts,
            terminal_prompt,
            timeout,
            h,
        ) matches StepView::Ask(request) ==> reads_only(request) || request.arguments
            == fetch_arguments(true),
{
    preparation_facts(
        repository,
        home,
        is_directory,
        attempts,
        terminal_prompt,
        timeout,
        h,
        seq![],
    );
}

/// A preparation needs at most nine commands besides the attempts to fetch.
pub proof fn preparation_ends(
    repository: RepositoryView,
    home: Option<Seq<u8>>,
    is_directory: bool,
    attempts: int,
    terminal_prompt: bool,
    timeout: Timeout,
    h: Seq<ReplyView>,
)
    requires
        0 <= attempts <= u64::MAX,
        h.len() >= attempts + 9,
    ensures
        prepare_step(
            repository,
            home,
            is_directory,
            attempts,
            terminal_prompt,
            timeout,
            h,
        ) is Done,
{
    preparation_facts(
        repository,
        home,
        is_directory,
        attempts,
        terminal_prompt,
        timeout,
        h,
        seq![],
    );
}

/// The result of a preparation does not depend on replies that it did not ask for.
pub proof fn preparation_is_settled(
    repository: RepositoryView,
    home: Option<Seq<u8>>,
    is_directory: bool,
    attempts: int,
    terminal_prompt: bool,
    timeout: Timeout,
    h: Seq<ReplyView>,
    more: Seq<ReplyView>,
)
    requires
        0 <= attempts <= u64::MAX,
        prepare_step(
            repository,
            home,
            is_directory,
            attempts,
            terminal_prompt,
            timeout,
            h,
        ) is Done,
    ensures
        prepare_step(
            repository,
            home,
            is_directory,
            attempts,
            terminal_prompt,
            timeout,
            h + more,
        ) == prepare_step(
            repository,
            home,
            is_directory,
            attempts,
            terminal_prompt,
            timeout,
            h,
        ),
{
    preparation_facts(
        repository,
        home,
        is_directory,
        attempts,
        terminal_prompt,
        timeout,
        h,
        more,
    );
}

proof fn preparation_facts(
    repository: RepositoryView,
    home: Option<Seq<u8>>,
    is_directory: bool,
    attempts: int,
    terminal_prompt: bool,
    timeout: Timeout,
    h: Seq<ReplyView>,
    more: Seq<ReplyView>,
)
    requires
        0 <= attempts <= u64::MAX,
    ensures
        match prepare_step(repository, home, is_directory, attempts, terminal_prompt, timeout, h) {
            StepView::Ask(request) => h.len() < attempts + 9 && (reads_only(request)
                || request.arguments == fetch_arguments(true)),
            StepView::Done(_) => prepare_step(
                repository,
                home,
                is_directory,
                attempts,
                terminal_prompt,
                timeout,
                h + more,
            ) == prepare_step(
                repository,
                home,
                is_directory,
                attempts,
                terminal_prompt,
                timeout,
                h,
            ),
        },
{
    assert forall|i: int| 0 <= i < h.len() implies (h + more)[i] == h[i] by {}
    if is_directory && h.len() >= 3 && is_repository(h[0]) && branch_in(h[1]) is Some
        && lists_changes(h[2]) is Ok {
        let branch = branch_in(h[1])->0;
        fetch_from_facts(h, more, 3, attempts, true);
        match fetch_from(h, 3, attempts, true) {
            ProgressView::Ask(_) => {},
            ProgressView::Done(_, next) => {
                upstream_facts(h, more, next, branch);
                match upstream_at(h, next, branch) {
                    ProgressView::Ask(_) => {},
                    ProgressView::Done(result, after) => {
                        compare_ref_facts(h, more, after, branch);
                    },
                }
                match pull_source_at(h, next, branch) {
                    ProgressView::Ask(_) => {},
                    ProgressView::Done(result, after) => {
                        if result is Ok && result->Ok_0.1 is Some {
                            let reference = result->Ok_0.1->0;
                            assert(count_query(reference) == count_query(reference));
                        }
                    },
                }
            },
        }
    }
}

/// A plan holds what was found: the branch, the local changes, the settings. There is one
/// only where remote commits or submodules give it something to do.
pub proof fn plan_is_what_was_found(
    repository: RepositoryView,
    home: Option<Seq<u8>>,
    is_directory: bool,
    attempts: int,
    terminal_prompt: bool,
    timeout: Timeout,
    h: Seq<ReplyView>,
)
    ensures
        prepare_step(
            repository,
            home,
            is_directory,
            attempts,
            terminal_prompt,
            timeout,
            h,
        ) matches StepView::Done(prepared) ==> match prepared {
            PreparedView::Update(plan) => {
                &&& plan.repository == repository
                &&& branch_in(h[1]) == Some(plan.branch)
                &&& lists_changes(h[2]) == Ok::<bool, FailureView>(plan.dirty)
                &&& plan.update_count > 0 || repository.submodules
                &&& plan.terminal_prompt == terminal_prompt
                &&& plan.command_timeout == timeout
            },
            PreparedView::Terminal(result) => {
                &&& result.repository == repository
                &&& result.kind != SyncKind::Updated
                &&& result.kind == SyncKind::Skipped ==> !repository.submodules
                    && result.detail.len() == 0
                &&& result.dirty ==> lists_changes(h[2]) == Ok::<bool, FailureView>(true)
            },
        },
{
    assert forall|reply: ReplyView| (#[trigger] counted(reply)) is Ok implies counted(
        reply,
    )->Ok_0 <= u64::MAX by {
        if let Ok(output) = stdout_of(reply) {
            numbers_are_bounded(output, u64::MAX as nat);
        }
    }
}

/// Once the remote commits are counted, the number decides, with or without local changes: a
/// repository without any is skipped unless it has submodules, and every other is updated.
pub proof fn only_updates_are_planned(
    repository: RepositoryView,
    home: Option<Seq<u8>>,
    attempts: int,
    terminal_prompt: bool,
    timeout: Timeout,
    h: Seq<ReplyView>,
    branch: Seq<char>,
    dirty: bool,
    fetched: int,
    configured_upstream: bool,
    reference: Seq<char>,
    next: int,
    count: nat,
)
    requires
        0 <= next < h.len(),
        3 <= h.len(),
        is_repository(h[0]),
        branch_in(h[1]) == Some(branch),
        lists_changes(h[2]) == Ok::<bool, FailureView>(dirty),
        fetch_from(h, 3, attempts, true) == ProgressView::Done(
            Ok::<(), FailureView>(()),
            fetched,
        ),
        pull_source_at(h, fetched, branch) == ProgressView::Done(
            Ok::<(bool, Option<Seq<char>>), FailureView>((configured_upstream, Some(reference))),
            next,
        ),
        counted(h[next]) == Ok::<nat, FailureView>(count),
    ensures
        prepare_step(repository, home, true, attempts, terminal_prompt, timeout, h)
            == StepView::Done(
            if count == 0 && !repository.submodules {
                PreparedView::Terminal(
                    SyncResultView {
                        repository,
                        kind: SyncKind::Skipped,
                        dirty,
                        detail: seq![],
                    },
                )
            } else {
                PreparedView::Update(
                    SyncPlanView {
                        repository,
                        branch,
                        compare_ref: reference,
                        update_count: count as u64,
                        dirty,
                        configured_upstream,
                        terminal_prompt,
                        command_timeout: timeout,
                    },
                )
            },
        ),
{
}

/// A branch with a configured upstream that cannot be named is an error. There is no fall
/// back to the branch of the same name: the inspection ends with an error, and the
/// preparation fails.
pub proof fn broken_upstream_is_an_error(
    h: Seq<ReplyView>,
    at: int,
    branch: Seq<char>,
    found: InspectionView,
    fetch_failed: bool,
    repository: RepositoryView,
    dirty: bool,
    terminal_prompt: bool,
    timeout: Timeout,
)
    requires
        0 <= at,
        h.len() >= at + 3,
        key_set(h[at]) is Ok,
        key_set(h[at + 1]) is Ok,
        key_set(h[at])->Ok_0 || key_set(h[at + 1])->Ok_0,
        stdout_of(h[at + 2]) is Err,
    ensures
        ({
            let failure = (stdout_of(h[at + 2])->Err_0).within(
                "Configured upstream is unavailable"@,
            );
            &&& compare_ref_at(h, at, branch) == ProgressView::<
                Result<Option<Seq<char>>, FailureView>,
            >::Done(Err(failure), at + 3)
            &&& inspect_compare(found, branch, fetch_failed, h, at) == StepView::Done(
                InspectionView { error: Some(failure.full_text()), ..found },
            )
            &&& prepare_compare(repository, branch, dirty, terminal_prompt, timeout, h, at)
                == StepView::Done(
                PreparedView::Terminal(
                    SyncResultView {
                        repository,
                        kind: SyncKind::Failed,
                        dirty,
                        detail: failure.full_text(),
                    },
                ),
            )
        }),
{
}

/// Whether branch and pull target are confirmed to be those of the plan.
pub open spec fn confirmed(plan: SyncPlanView, h: Seq<ReplyView>) -> bool {
    &&& h.len() > 0
    &&& stdout_of(h[0]) == Ok::<Seq<char>, FailureView>(plan.branch)
    &&& match upstream_at(h, 1, plan.branch) {
        ProgressView::Ask(_) => false,
        ProgressView::Done(result, next) => if plan.configured_upstream {
            result == Ok::<Option<Seq<char>>, FailureView>(Some(plan.compare_ref))
        } else {
            result == Ok::<Option<Seq<char>>, FailureView>(None) && match compare_ref_at(
                h,
                next,
                plan.branch,
            ) {
                ProgressView::Ask(_) => false,
                ProgressView::Done(reference, _) => reference == Ok::<
                    Option<Seq<char>>,
                    FailureView,
                >(Some(plan.compare_ref)),
            }
        },
    }
}

/// An update changes nothing unless branch and pull target are still those of the plan. It
/// pulls only where there are remote commits, and touches submodules only where the
/// repository asks for it.
pub proof fn update_needs_an_unchanged_target(plan: SyncPlanView, h: Seq<ReplyView>)
    ensures
        match apply_step(plan, h) {
            StepView::Ask(request) => reads_only(request) || (confirmed(plan, h) && ((request
                == pull_command(plan) && plan.update_count > 0) || (plan.repository.submodules && (
            request == submodule_sync_command() || request == submodule_update_command())))),
            StepView::Done(result) => result.kind == SyncKind::Updated ==> confirmed(plan, h),
        },
{
    update_facts(plan, h, seq![]);
}

/// An update needs at most twelve commands.
pub proof fn update_ends(plan: SyncPlanView, h: Seq<ReplyView>)
    requires
        h.len() >= 12,
    ensures
        apply_step(plan, h) is Done,
{
    update_facts(plan, h, seq![]);
}

/// The result of an update does not depend on replies that it did not ask for.
pub proof fn update_is_settled(plan: SyncPlanView, h: Seq<ReplyView>, more: Seq<ReplyView>)
    requires
        apply_step(plan, h) is Done,
    ensures
        apply_step(plan, h + more) == apply_step(plan, h),
{
    update_facts(plan, h, more);
}

proof fn update_facts(plan: SyncPlanView, h: Seq<ReplyView>, more: Seq<ReplyView>)
    ensures
        match apply_step(plan, h) {
            StepView::Ask(request) => h.len() < 12 && (reads_only(request) || (confirmed(plan, h)
                && ((request == pull_command(plan) && plan.update_count > 0) || (
            plan.repository.submodules && (request == submodule_sync_command() || request
                == submodule_update_command()))))),
            StepView::Done(result) => (result.kind == SyncKind::Updated ==> confirmed(plan, h))
                && apply_step(plan, h + more) == apply_step(plan, h),
        },
{
    assert forall|i: int| 0 <= i < h.len() implies (h + more)[i] == h[i] by {}
    if h.len() > 0 {
        upstream_facts(h, more, 1, plan.branch);
        match upstream_at(h, 1, plan.branch) {
            ProgressView::Ask(_) => {},
            ProgressView::Done(_, next) => {
                compare_ref_facts(h, more, next, plan.branch);
            },
        }
        match target_at(plan, h, 1) {
            ProgressView::Ask(_) => {},
            ProgressView::Done(result, next) => {
                assert(next <= h.len() && next <= 6);
                assert(target_at(plan, h + more, 1) == target_at(plan, h, 1));
                if result is Ok && next < h.len() && stdout_of(h[next]) is Ok {
                    let before = stdout_of(h[next])->Ok_0;
                    assert(diff_query(before) == diff_query(before));
                }
            },
        }
    }
}

/// Where another branch was checked out after the preparation, the update fails and asks for
/// nothing but the local changes.
pub proof fn changed_branch_is_left_alone(
    plan: SyncPlanView,
    h: Seq<ReplyView>,
    active: Seq<char>,
)
    requires
        h.len() > 0,
        stdout_of(h[0]) == Ok::<Seq<char>, FailureView>(active),
        active != plan.branch,
    ensures
        match apply_step(plan, h) {
            StepView::Ask(request) => request == status_query(),
            StepView::Done(result) => result.kind == SyncKind::Failed && result.detail
                == branch_changed(plan.branch, active).message,
        },
{
}

/// An update ends for the repository of the plan, and a successful one keeps the mark of
/// local changes.
pub proof fn update_reports_its_plan(plan: SyncPlanView, h: Seq<ReplyView>)
    ensures
        apply_step(plan, h) matches StepView::Done(result) ==> result.repository
            == plan.repository && result.kind != SyncKind::Skipped && (result.kind
            == SyncKind::Updated ==> result.dirty == plan.dirty),
{
}

} // verus!
