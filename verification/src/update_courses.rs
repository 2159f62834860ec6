//! Whole courses of updates: which commands are run, in which order, word by word, and what
//! their replies lead to.
use crate::failure::FailureView;
use crate::git::{combined_text, compare_ref_at, upstream_at, ProgressView, ReplyView, StepView};
use crate::git_laws::{
    ended_well, has_no_upstream, has_upstream, origin_stands_in, printed, upstream_is_asked_for,
};
use crate::model::{Strategy, SyncKind, SyncResultView};
use crate::plan::{apply_inner, apply_step, pull_command, target_at, update_at, SyncPlanView};
use crate::plan_courses::{compared_with, comparing_goes_on, pulled_from, run_now, status_words};
use crate::plan_laws::update_is_settled;
use crate::text::summarized;
use vstd::prelude::*;

verus! {

/// The words of a pull. A branch without an upstream names where it is pulled from.
pub open spec fn pull_words(plan: SyncPlanView) -> Seq<Seq<char>> {
    let words = seq![
        "pull"@,
        "--no-tags"@,
        match plan.repository.strategy {
            Strategy::Rebase => "--rebase"@,
            Strategy::Merge => "--no-rebase"@,
        },
        "--recurse-submodules=on-demand"@,
    ];
    if plan.configured_upstream {
        words
    } else {
        words.push("origin"@).push(plan.branch)
    }
}

/// The words that bring the settings of submodules up to date.
pub open spec fn submodule_sync_words() -> Seq<Seq<char>> {
    seq!["submodule"@, "sync"@, "--recursive"@]
}

/// The words that bring submodules up to date.
pub open spec fn submodule_update_words() -> Seq<Seq<char>> {
    seq!["submodule"@, "update"@, "--init"@, "--recursive"@]
}

/// Whether words are those of a command that changes a repository.
pub open spec fn changes(plan: SyncPlanView, words: Seq<Seq<char>>) -> bool {
    ||| words == pull_words(plan)
    ||| words == submodule_sync_words()
    ||| words == submodule_update_words()
}

/// Whether the first replies of an update tell that branch and reference are still those of the
/// plan. The update goes on at the reply `next`.
pub open spec fn unchanged(plan: SyncPlanView, h: Seq<ReplyView>, next: int) -> bool {
    &&& h.len() > 0
    &&& ended_well(h[0]) && printed(h[0]) == plan.branch
    &&& pulled_from(h, 1, plan.branch, plan.configured_upstream, plan.compare_ref, next)
    &&& next <= h.len()
}

proof fn target_goes_on(plan: SyncPlanView, h: Seq<ReplyView>, next: int, n: int)
    requires
        unchanged(plan, h, next),
        next <= n <= h.len(),
    ensures
        target_at(plan, h.take(n), 1) == ProgressView::<Result<(), FailureView>>::Done(
            Ok(()),
            next,
        ),
{
    let part = h.take(n);
    assert(forall|i: int| 0 <= i < n ==> part[i] == h[i]);
    if plan.configured_upstream {
        upstream_is_asked_for(h, 1, plan.branch, plan.compare_ref);
    } else {
        origin_stands_in(h, 1, plan.branch);
        comparing_goes_on(h, 3, plan.branch, plan.compare_ref, n);
    }
}

/// Where the pull of a plan stands among the replies: behind the current commit, which is asked
/// for first.
pub open spec fn after_pull(plan: SyncPlanView, next: int) -> int {
    if plan.update_count > 0 {
        next + 2
    } else {
        next + 1
    }
}

/// Where the replies on submodules end.
pub open spec fn after_submodules(plan: SyncPlanView, next: int) -> int {
    if plan.repository.submodules {
        after_pull(plan, next) + 2
    } else {
        after_pull(plan, next)
    }
}

proof fn inner_goes_on(plan: SyncPlanView, h: Seq<ReplyView>, next: int)
    requires
        unchanged(plan, h, next),
    ensures
        apply_inner(plan, h) == update_at(plan, h, next),
{
    assert(h.take(h.len() as int) =~= h);
    target_goes_on(plan, h, next, h.len() as int);
}

proof fn pull_is_spelled(plan: SyncPlanView)
    ensures
        pull_command(plan) == run_now(pull_words(plan)),
{
    assert(pull_command(plan).arguments =~= pull_words(plan));
}

/// What a part of the replies to an update leads to, while all goes well.
#[verifier::rlimit(40)]
proof fn update_step(plan: SyncPlanView, h: Seq<ReplyView>, part: Seq<ReplyView>, next: int)
    requires
        unchanged(plan, h, next),
        part.len() <= h.len(),
        part == h.take(part.len() as int),
        part.len() == 0 || part.len() >= next,
        forall|i: int|
            next <= i < after_submodules(plan, next) && i < h.len() ==> ended_well(
                #[trigger] h[i],
            ),
    ensures
        part.len() == 0 ==> apply_step(plan, part) == StepView::<SyncResultView>::Ask(
            run_now(seq!["branch"@, "--show-current"@]),
        ),
        part.len() == next ==> apply_step(plan, part) == StepView::<SyncResultView>::Ask(
            run_now(seq!["rev-parse"@, "HEAD"@]),
        ),
        part.len() == next + 1 && plan.update_count > 0 ==> apply_step(plan, part) == StepView::<
            SyncResultView,
        >::Ask(run_now(pull_words(plan))),
        part.len() == after_pull(plan, next) && plan.repository.submodules ==> apply_step(
            plan,
            part,
        ) == StepView::<SyncResultView>::Ask(run_now(submodule_sync_words())),
        part.len() == after_pull(plan, next) + 1 && plan.repository.submodules ==> apply_step(
            plan,
            part,
        ) == StepView::<SyncResultView>::Ask(run_now(submodule_update_words())),
        part.len() == after_submodules(plan, next) ==> apply_step(plan, part) == StepView::<
            SyncResultView,
        >::Ask(run_now(seq!["diff"@, "--shortstat"@, printed(h[next]), "HEAD"@])),
        part.len() > after_submodules(plan, next) && part[after_submodules(plan, next)] is Ok
            ==> {
            let diff = part[after_submodules(plan, next)];
            apply_step(plan, part) == StepView::Done(
                SyncResultView {
                    repository: plan.repository,
                    kind: SyncKind::Updated,
                    dirty: plan.dirty,
                    detail: if !ended_well(diff) {
                        "diffstat unavailable"@
                    } else if printed(diff).len() == 0 {
                        "0 files changed"@
                    } else {
                        printed(diff)
                    },
                },
            )
        },
{
    if part.len() >= next {
        assert(forall|i: int| 0 <= i < part.len() ==> part[i] == h[i]);
        unchanged_in_part(plan, h, part, next);
        inner_goes_on(plan, part, next);
        pull_is_spelled(plan);
        assert(part.len() > next ==> ended_well(part[next]));
    }
}

proof fn unchanged_in_part(plan: SyncPlanView, h: Seq<ReplyView>, part: Seq<ReplyView>, next: int)
    requires
        unchanged(plan, h, next),
        next <= part.len() <= h.len(),
        forall|i: int| 0 <= i < part.len() ==> part[i] == h[i],
    ensures
        unchanged(plan, part, next),
{
}

/// An update whose branch and reference are unchanged asks for the current commit, pulls where
/// commits are missing, brings submodules up to date where there are any, and asks what changed
/// since that commit. Where all ends well it is updated, and tells what changed.
pub proof fn updates_run_their_commands(plan: SyncPlanView, h: Seq<ReplyView>, next: int)
    requires
        unchanged(plan, h, next),
        after_submodules(plan, next) <= h.len(),
        forall|i: int|
            next <= i < after_submodules(plan, next) ==> ended_well(#[trigger] h[i]),
    ensures
        apply_step(plan, h.take(0)) == StepView::<SyncResultView>::Ask(
            run_now(seq!["branch"@, "--show-current"@]),
        ),
        apply_step(plan, h.take(next)) == StepView::<SyncResultView>::Ask(
            run_now(seq!["rev-parse"@, "HEAD"@]),
        ),
        plan.update_count > 0 ==> apply_step(plan, h.take(next + 1)) == StepView::<
            SyncResultView,
        >::Ask(run_now(pull_words(plan))),
        plan.repository.submodules ==> apply_step(plan, h.take(after_pull(plan, next)))
            == StepView::<SyncResultView>::Ask(run_now(submodule_sync_words())),
        plan.repository.submodules ==> apply_step(plan, h.take(after_pull(plan, next) + 1))
            == StepView::<SyncResultView>::Ask(run_now(submodule_update_words())),
        apply_step(plan, h.take(after_submodules(plan, next))) == StepView::<
            SyncResultView,
        >::Ask(run_now(seq!["diff"@, "--shortstat"@, printed(h[next]), "HEAD"@])),
        h.len() > after_submodules(plan, next) && h[after_submodules(plan, next)] is Ok ==> {
            let diff = h[after_submodules(plan, next)];
            apply_step(plan, h) == StepView::Done(
                SyncResultView {
                    repository: plan.repository,
                    kind: SyncKind::Updated,
                    dirty: plan.dirty,
                    detail: if !ended_well(diff) {
                        "diffstat unavailable"@
                    } else if printed(diff).len() == 0 {
                        "0 files changed"@
                    } else {
                        printed(diff)
                    },
                },
            )
        },
{
    let pull = after_pull(plan, next);
    let end = after_submodules(plan, next);
    update_step(plan, h, h.take(0), next);
    update_step(plan, h, h.take(next), next);
    update_step(plan, h, h.take(next + 1), next);
    update_step(plan, h, h.take(pull), next);
    if plan.repository.submodules {
        update_step(plan, h, h.take(pull + 1), next);
    }
    update_step(plan, h, h.take(end), next);
    assert(h.take(h.len() as int) =~= h);
    update_step(plan, h, h, next);
}

/// The names of the commands that only look differ from those that change.
proof fn commands_differ()
    ensures
        "pull"@ != "branch"@ && "submodule"@ != "branch"@,
        "pull"@ != "config"@ && "submodule"@ != "config"@,
        "pull"@ != "rev-parse"@ && "submodule"@ != "rev-parse"@,
        "pull"@ != "show-ref"@ && "submodule"@ != "show-ref"@,
        "pull"@ != "diff"@ && "submodule"@ != "diff"@,
        "pull"@ != "status"@ && "submodule"@ != "status"@,
        "pull"@ != "submodule"@,
        submodule_sync_words() != submodule_update_words(),
{
    reveal_strlit("pull");
    reveal_strlit("branch");
    reveal_strlit("config");
    reveal_strlit("rev-parse");
    reveal_strlit("show-ref");
    reveal_strlit("submodule");
    reveal_strlit("diff");
    reveal_strlit("status");
    assert("pull"@[0] == 'p' && "diff"@[0] == 'd');
    assert("submodule"@.len() == 9 && "rev-parse"@.len() == 9);
    assert("submodule"@[0] == 's' && "rev-parse"@[0] == 'r');
    assert("show-ref"@.len() == 8 && "status"@.len() == 6);
    assert(submodule_sync_words().len() != submodule_update_words().len());
}

/// The failure of a command that changes a repository.
pub open spec fn failure_of(
    plan: SyncPlanView,
    words: Seq<Seq<char>>,
    reply: ReplyView,
) -> Seq<char> {
    let context = if words == pull_words(plan) {
        "pull failed"@
    } else if words == submodule_sync_words() {
        "submodule sync failed"@
    } else {
        "submodule update failed"@
    };
    match reply {
        Err(failure) => failure.message,
        Ok(output) => if summarized(combined_text(output)).len() == 0 {
            context
        } else {
            context + ": "@ + summarized(combined_text(output))
        },
    }
}

proof fn upstream_known(h: Seq<ReplyView>, at: int, branch: Seq<char>)
    requires
        0 <= at <= h.len(),
    ensures
        match upstream_at(h, at, branch) {
            ProgressView::Ask(request) => request.arguments[0] == "config"@
                || request.arguments[0] == "rev-parse"@,
            ProgressView::Done(Ok(Some(reference)), next) => has_upstream(h, at, reference) && next
                == at + 3,
            ProgressView::Done(Ok(None), next) => has_no_upstream(h, at) && next == at + 2,
            ProgressView::Done(Err(_), next) => at < next <= h.len(),
        },
{
}

proof fn reference_known(h: Seq<ReplyView>, at: int, branch: Seq<char>)
    requires
        0 <= at <= h.len(),
    ensures
        match compare_ref_at(h, at, branch) {
            ProgressView::Ask(request) => request.arguments[0] == "config"@
                || request.arguments[0] == "rev-parse"@ || request.arguments[0] == "show-ref"@,
            ProgressView::Done(Ok(Some(reference)), next) => compared_with(
                h,
                at,
                branch,
                reference,
            ) && next == at + 3,
            ProgressView::Done(Ok(None), next) => at < next <= h.len(),
            ProgressView::Done(Err(_), next) => at < next <= h.len(),
        },
{
    upstream_known(h, at, branch);
}

proof fn target_known(plan: SyncPlanView, h: Seq<ReplyView>)
    requires
        h.len() > 0,
        ended_well(h[0]),
        printed(h[0]) == plan.branch,
    ensures
        match target_at(plan, h, 1) {
            ProgressView::Ask(request) => request.arguments[0] == "config"@
                || request.arguments[0] == "rev-parse"@ || request.arguments[0] == "show-ref"@,
            ProgressView::Done(Ok(_), next) => unchanged(plan, h, next) && next == target_end(plan),
            ProgressView::Done(Err(_), next) => next <= h.len(),
        },
{
    upstream_known(h, 1, plan.branch);
    if let ProgressView::Done(Ok(None), next) = upstream_at(h, 1, plan.branch) {
        reference_known(h, 3, plan.branch);
    }
}

/// The reply at which an update goes on once its target is confirmed.
pub open spec fn target_end(plan: SyncPlanView) -> int {
    if plan.configured_upstream {
        4
    } else {
        6
    }
}

/// Where a changing command is asked for, all before it ended well, and it has its place.
#[verifier::rlimit(60)]
proof fn change_is_due(plan: SyncPlanView, h: Seq<ReplyView>, words: Seq<Seq<char>>)
    requires
        apply_step(plan, h) == StepView::<SyncResultView>::Ask(run_now(words)),
        changes(plan, words),
    ensures
        unchanged(plan, h, target_end(plan)),
        forall|i: int| target_end(plan) <= i < h.len() ==> ended_well(#[trigger] h[i]),
        if words == pull_words(plan) {
            plan.update_count > 0 && h.len() == target_end(plan) + 1
        } else {
            plan.repository.submodules && h.len() == after_pull(plan, target_end(plan)) + if words
                == submodule_sync_words() {
                0int
            } else {
                1
            }
        },
{
    commands_differ();
    pull_is_spelled(plan);
    assert(pull_words(plan)[0] == "pull"@);
    assert(words[0] == "pull"@ || words[0] == "submodule"@);
    if h.len() > 0 && ended_well(h[0]) && printed(h[0]) == plan.branch {
        target_known(plan, h);
        if let ProgressView::Done(Ok(_), next) = target_at(plan, h, 1) {
            assert(apply_inner(plan, h) == update_at(plan, h, next));
        }
    }
}

proof fn inner_goes_on_with(
    plan: SyncPlanView,
    h: Seq<ReplyView>,
    more: Seq<ReplyView>,
    next: int,
)
    requires
        unchanged(plan, h, next),
        h.len() <= more.len(),
        forall|i: int| 0 <= i < h.len() ==> more[i] == h[i],
    ensures
        unchanged(plan, more, next),
        apply_inner(plan, more) == update_at(plan, more, next),
{
    inner_goes_on(plan, more, next);
}

/// A changing command that did not end well is the end of the update.
proof fn change_fails(
    plan: SyncPlanView,
    h: Seq<ReplyView>,
    next: int,
    reply: ReplyView,
    words: Seq<Seq<char>>,
)
    requires
        0 <= next,
        changes(plan, words),
        !ended_well(reply),
        ({
            let at = if words == pull_words(plan) {
                next + 1
            } else if words == submodule_sync_words() {
                after_pull(plan, next)
            } else {
                after_pull(plan, next) + 1
            };
            &&& at < h.len()
            &&& h[at] == reply
            &&& forall|i: int| next <= i < at ==> ended_well(#[trigger] h[i])
        }),
        words == pull_words(plan) ==> plan.update_count > 0,
        words != pull_words(plan) ==> plan.repository.submodules,
    ensures
        update_at(plan, h, next) matches ProgressView::Done(Err(failure), end)
            && failure.message == failure_of(plan, words, reply) && end == (if words
            == pull_words(plan) {
            next + 2
        } else if words == submodule_sync_words() {
            after_pull(plan, next) + 1
        } else {
            after_pull(plan, next) + 2
        }),
{
    commands_differ();
    assert(pull_words(plan)[0] == "pull"@);
    assert(ended_well(h[next]));
    if words != pull_words(plan) && plan.update_count > 0 {
        assert(ended_well(h[next + 1]));
    }
    if words == submodule_update_words() {
        assert(ended_well(h[after_pull(plan, next)]));
    }
}

/// A changing command that cannot run or does not end well ends the update: nothing is asked
/// any more but the local changes, and the update has failed with what the command told.
pub proof fn failed_changes_end_the_update(
    plan: SyncPlanView,
    h: Seq<ReplyView>,
    reply: ReplyView,
    last: ReplyView,
    words: Seq<Seq<char>>,
)
    requires
        apply_step(plan, h) == StepView::<SyncResultView>::Ask(run_now(words)),
        changes(plan, words),
        !ended_well(reply),
    ensures
        apply_step(plan, h.push(reply)) == StepView::<SyncResultView>::Ask(
            run_now(status_words()),
        ),
        apply_step(plan, h.push(reply).push(last)) == StepView::Done(
            SyncResultView {
                repository: plan.repository,
                kind: SyncKind::Failed,
                dirty: if ended_well(last) {
                    printed(last).len() > 0
                } else {
                    plan.dirty
                },
                detail: failure_of(plan, words, reply),
            },
        ),
{
    let next = target_end(plan);
    let one = h.push(reply);
    let two = one.push(last);
    change_is_due(plan, h, words);
    commands_differ();
    pull_is_spelled(plan);
    assert(pull_words(plan)[0] == "pull"@);
    assert(forall|i: int| 0 <= i < h.len() ==> one[i] == h[i] && two[i] == h[i]);
    assert(one[h.len() as int] == reply && two[h.len() as int] == reply);
    inner_goes_on_with(plan, h, one, next);
    inner_goes_on_with(plan, h, two, next);
    change_fails(plan, one, next, reply, words);
    change_fails(plan, two, next, reply, words);
}

proof fn replies_around(h: Seq<ReplyView>, k: int)
    requires
        0 <= k < h.len(),
    ensures
        k + 1 < h.len() ==> h.take(k).push(h[k]).push(h.skip(k + 1)[0]) + h.skip(k + 1).skip(1)
            == h,
        k + 1 == h.len() ==> h.take(k).push(h[k]) == h,
{
    if k + 1 < h.len() {
        assert(h.take(k).push(h[k]).push(h.skip(k + 1)[0]) + h.skip(k + 1).skip(1) =~= h);
    } else {
        assert(h.take(k).push(h[k]) =~= h);
    }
}

proof fn failure_is_final(
    plan: SyncPlanView,
    part: Seq<ReplyView>,
    reply: ReplyView,
    more: Seq<ReplyView>,
    words: Seq<Seq<char>>,
)
    requires
        apply_step(plan, part) == StepView::<SyncResultView>::Ask(run_now(words)),
        changes(plan, words),
        !ended_well(reply),
        more.len() > 0,
    ensures
        apply_step(plan, part.push(reply).push(more[0]) + more.skip(1)) matches StepView::Done(
            result,
        ) && result.kind == SyncKind::Failed,
{
    failed_changes_end_the_update(plan, part, reply, more[0], words);
    update_is_settled(plan, part.push(reply).push(more[0]), more.skip(1));
}

/// An update is updated only where every changing command that was run ended well.
pub proof fn updated_means_all_ended_well(
    plan: SyncPlanView,
    h: Seq<ReplyView>,
    result: SyncResultView,
    words: Seq<Seq<char>>,
    k: int,
)
    requires
        apply_step(plan, h) == StepView::Done(result),
        result.kind == SyncKind::Updated,
        0 <= k < h.len(),
        apply_step(plan, h.take(k)) == StepView::<SyncResultView>::Ask(run_now(words)),
        changes(plan, words),
    ensures
        ended_well(h[k]),
{
    let part = h.take(k);
    let more = h.skip(k + 1);
    if !ended_well(h[k]) {
        replies_around(h, k);
        if more.len() > 0 {
            failure_is_final(plan, part, h[k], more, words);
        } else {
            failed_changes_end_the_update(plan, part, h[k], h[k], words);
        }
    }
}

/// A changing command is run only where branch and reference were found unchanged, a pull only
/// where commits are missing, and submodules are touched only where there are any.
pub proof fn changes_need_an_unchanged_target(
    plan: SyncPlanView,
    h: Seq<ReplyView>,
    words: Seq<Seq<char>>,
)
    requires
        apply_step(plan, h) == StepView::<SyncResultView>::Ask(run_now(words)),
        changes(plan, words),
    ensures
        unchanged(plan, h, target_end(plan)),
        words == pull_words(plan) ==> plan.update_count > 0,
        words != pull_words(plan) ==> plan.repository.submodules,
{
    change_is_due(plan, h, words);
}

/// Where the branch or the reference is not that of the plan any more, the update fails after a
/// look at the local changes, and tells what it expected.
pub proof fn changed_targets_are_refused(
    plan: SyncPlanView,
    h: Seq<ReplyView>,
    reference: Seq<char>,
)
    requires
        h.len() > 0,
        ended_well(h[0]),
        printed(h[0]) != plan.branch || has_upstream(h, 1, reference) && (
        !plan.configured_upstream || reference != plan.compare_ref) || (has_no_upstream(h, 1)
            && plan.configured_upstream),
    ensures
        match apply_step(plan, h) {
            StepView::Ask(request) => request == run_now(status_words()),
            StepView::Done(result) => {
                &&& result.kind == SyncKind::Failed
                &&& result.repository == plan.repository
                &&& printed(h[0]) != plan.branch ==> result.detail
                    == "Current branch changed after fetch/check (expected "@ + plan.branch
                    + ", found "@ + (if printed(h[0]).len() == 0 {
                    "detached HEAD"@
                } else {
                    printed(h[0])
                }) + ")."@
                &&& printed(h[0]) == plan.branch && plan.configured_upstream ==> result.detail
                    == "Configured upstream changed after fetch/check (expected "@
                    + plan.compare_ref + ", found "@ + (if has_no_upstream(h, 1) {
                    "none"@
                } else {
                    reference
                }) + ")."@
                &&& printed(h[0]) == plan.branch && !plan.configured_upstream ==> result.detail
                    == "Pull target changed after fetch/check (expected "@ + plan.compare_ref
                    + ")."@
            },
        },
{
    if printed(h[0]) == plan.branch {
        upstream_known(h, 1, plan.branch);
        if has_upstream(h, 1, reference) {
            upstream_is_asked_for(h, 1, plan.branch, reference);
        } else {
            origin_stands_in(h, 1, plan.branch);
        }
    }
}

/// Whether an update has failed and says so in these words.
pub open spec fn failed_with(step: StepView<SyncResultView>, text: Seq<char>) -> bool {
    step matches StepView::Done(result) && result.kind == SyncKind::Failed && result.detail == text
}

/// Where the branch or the current commit cannot be told, the update fails before anything is
/// changed. Where the comparison at the end cannot be run, it fails with what was wrong.
pub proof fn unreadable_repositories_are_left_alone(
    plan: SyncPlanView,
    h: Seq<ReplyView>,
    next: int,
)
    ensures
        h.len() == 1 && !ended_well(h[0]) ==> apply_step(plan, h) == StepView::<
            SyncResultView,
        >::Ask(run_now(status_words())),
        h.len() == 2 && !ended_well(h[0]) ==> failed_with(
            apply_step(plan, h),
            "Cannot read current branch"@,
        ),
        unchanged(plan, h, next) && h.len() == next + 1 && !ended_well(h[next]) ==> apply_step(
            plan,
            h,
        ) == StepView::<SyncResultView>::Ask(run_now(status_words())),
        unchanged(plan, h, next) && h.len() == next + 2 && !ended_well(h[next]) ==> failed_with(
            apply_step(plan, h),
            "Cannot read current HEAD"@,
        ),
        unchanged(plan, h, next) && plan.update_count == 0 && !plan.repository.submodules
            && h.len() == next + 3 && ended_well(h[next]) && h[next + 1] is Err ==> failed_with(
            apply_step(plan, h),
            h[next + 1]->Err_0.message,
        ),
{
    if unchanged(plan, h, next) {
        inner_goes_on(plan, h, next);
    }
}

} // verus!
