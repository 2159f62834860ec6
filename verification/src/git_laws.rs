//! What Git is asked, word by word, and what its replies mean.
use crate::failure::{plain, FailureView};
use crate::git::{
    branch_in, checked, combined_text, compare_ref_at, counted, fetch_at, fetch_from,
    is_repository, key_set, lists_changes, lists_remotes, positive_number, repository_query,
    setting, settings_from, settings_result, stdout_of, tracking_in, upstream_at, ProgressView,
    ReplyView, RequestView,
};
use crate::text::{
    decimal, digits_value, is_digit, lossy_text, parsed_number, summarized, trimmed, NumberError,
};
use crate::text_laws::numbers_are_read_back;
use vstd::prelude::*;

verus! {

// ---------------------------------------------------------------------------
// Replies
// ---------------------------------------------------------------------------

/// Whether a command ran and ended well.
pub open spec fn ended_well(reply: ReplyView) -> bool {
    reply matches Ok(output) && output.success
}

/// Whether a command ran, ended badly and complained about nothing.
pub open spec fn ended_silently(reply: ReplyView) -> bool {
    reply matches Ok(output) && !output.success && trimmed(output.stderr).len() == 0
}

/// What a command printed, without blanks around it.
pub open spec fn printed(reply: ReplyView) -> Seq<char> {
    trimmed(reply->Ok_0.stdout)
}

/// What is told of a command that could not run or did not end well.
pub open spec fn told_by(reply: ReplyView) -> Seq<char> {
    match reply {
        Ok(output) => summarized(combined_text(output)),
        Err(failure) => failure.message,
    }
}

/// Only a command that ran and ended well has an answer, and what it printed is the answer.
pub proof fn only_success_answers(reply: ReplyView)
    ensures
        stdout_of(reply) is Ok <==> ended_well(reply),
        ended_well(reply) ==> stdout_of(reply)->Ok_0 == printed(reply),
        reply matches Err(failure) ==> stdout_of(reply) == Err::<Seq<char>, FailureView>(failure),
        !ended_well(reply) ==> stdout_of(reply)->Err_0.message == told_by(reply),
        !ended_well(reply) ==> lists_changes(reply)->Err_0.message == told_by(reply),
        is_repository(reply) <==> ended_well(reply) && printed(reply) == "true"@,
        branch_in(reply) is Some <==> ended_well(reply) && printed(reply).len() > 0,
        branch_in(reply) is Some ==> branch_in(reply)->0 == printed(reply),
        lists_remotes(reply) <==> ended_well(reply) && printed(reply).len() > 0,
        lists_changes(reply) is Ok <==> ended_well(reply),
        ended_well(reply) ==> lists_changes(reply)->Ok_0 == (printed(reply).len() > 0),
{
}

/// A command that has to end well is a failure where it could not run or did not end well. The
/// failure tells what was tried and, where anything was printed, what.
pub proof fn commands_are_checked(reply: ReplyView, context: Seq<char>)
    ensures
        checked(reply, context) is Ok <==> ended_well(reply),
        reply matches Err(failure) ==> checked(reply, context) == Err::<(), FailureView>(failure),
        reply matches Ok(output) ==> !output.success ==> {
            let summary = summarized(combined_text(output));
            let failure = checked(reply, context)->Err_0;
            &&& failure.cause is None
            &&& failure.message == if summary.len() == 0 {
                context
            } else {
                context + ": "@ + summary
            }
        },
{
}

/// What is told of a command is what it printed, and behind it what it complained about.
pub proof fn complaints_come_last(reply: ReplyView)
    requires
        reply is Ok,
    ensures
        ({
            let output = reply->Ok_0;
            let text = combined_text(output);
            let complaint = trimmed(output.stderr);
            &&& complaint.len() == 0 ==> text == printed(reply)
            &&& printed(reply).len() == 0 ==> text == complaint
            &&& complaint.len() > 0 && printed(reply).len() > 0 ==> text == printed(reply)
                + "\n"@ + complaint
        }),
{
}

/// The number of commits that a reply tells is the number that was printed. What is no number is
/// told as such.
pub proof fn counts_are_what_was_printed(reply: ReplyView, count: nat)
    ensures
        counted(reply) is Ok ==> ended_well(reply),
        counted(reply) == Ok::<nat, FailureView>(count) ==> parsed_number(
            printed(reply),
            u64::MAX as nat,
        ) is Ok,
        ended_well(reply) && printed(reply) == decimal(count) && count <= u64::MAX ==> counted(
            reply,
        ) == Ok::<nat, FailureView>(count),
        !ended_well(reply) ==> counted(reply)->Err_0.message == told_by(reply),
        ended_well(reply) && counted(reply) is Err ==> counted(reply)->Err_0.full_text()
            == "git returned an invalid update count"@ + ": "@ + match parsed_number(
            printed(reply),
            u64::MAX as nat,
        )->Err_0 {
            NumberError::Empty => "cannot parse integer from empty string"@,
            NumberError::InvalidDigit => "invalid digit found in string"@,
            NumberError::TooLarge => "number too large to fit in target type"@,
        },
{
    numbers_are_read_back(count, u64::MAX as nat);
}

/// A setting of a branch is there where the command ended well, and missing where it ended
/// silently. Anything else is a failure.
pub proof fn missing_settings_are_silent(reply: ReplyView, branch: Seq<char>)
    ensures
        key_set(reply) == Ok::<bool, FailureView>(true) <==> ended_well(reply),
        key_set(reply) == Ok::<bool, FailureView>(false) <==> ended_silently(reply),
        tracking_in(reply, branch) == Ok::<Option<Seq<char>>, FailureView>(
            Some("origin/"@ + branch),
        ) <==> ended_well(reply),
        tracking_in(reply, branch) == Ok::<Option<Seq<char>>, FailureView>(None)
            <==> ended_silently(reply),
        reply is Ok && !ended_well(reply) && !ended_silently(reply) ==> {
            &&& key_set(reply) == Err::<bool, FailureView>(
                plain("Cannot read upstream configuration: "@ + told_by(reply)),
            )
            &&& tracking_in(reply, branch) == Err::<Option<Seq<char>>, FailureView>(
                plain("Cannot read tracking ref: "@ + told_by(reply)),
            )
        },
        reply matches Err(failure) ==> key_set(reply) == Err::<bool, FailureView>(failure)
            && tracking_in(reply, branch) == Err::<Option<Seq<char>>, FailureView>(failure),
{
}

// ---------------------------------------------------------------------------
// Questions
// ---------------------------------------------------------------------------

/// The question whether a directory belongs to a repository.
pub proof fn repositories_are_recognized()
    ensures
        repository_query() == (RequestView {
            pause: 0,
            arguments: seq!["rev-parse"@, "--is-inside-work-tree"@],
        }),
{
}

/// Whether replies tell that a branch has an upstream, and which.
pub open spec fn has_upstream(h: Seq<ReplyView>, at: int, reference: Seq<char>) -> bool {
    &&& 0 <= at
    &&& at + 3 <= h.len()
    &&& ended_well(h[at]) || ended_silently(h[at])
    &&& ended_well(h[at + 1]) || ended_silently(h[at + 1])
    &&& ended_well(h[at]) || ended_well(h[at + 1])
    &&& ended_well(h[at + 2])
    &&& printed(h[at + 2]) == reference
}

/// Whether replies tell that a branch has no upstream.
pub open spec fn has_no_upstream(h: Seq<ReplyView>, at: int) -> bool {
    &&& 0 <= at
    &&& at + 2 <= h.len()
    &&& ended_silently(h[at])
    &&& ended_silently(h[at + 1])
}

/// A setting of a branch is asked for by its name.
pub open spec fn asks_setting(request: RequestView, branch: Seq<char>, key: Seq<char>) -> bool {
    request.pause == 0 && request.arguments == seq!["config"@, "--get"@, "branch."@ + branch + key]
}

/// The upstream of a branch is found by its settings `remote` and `merge`, of which one is
/// enough, and named by Git.
pub proof fn upstream_is_asked_for(
    h: Seq<ReplyView>,
    at: int,
    branch: Seq<char>,
    reference: Seq<char>,
)
    requires
        has_upstream(h, at, reference),
    ensures
        upstream_at(h.take(at), at, branch) matches ProgressView::Ask(request) && asks_setting(
            request,
            branch,
            ".remote"@,
        ),
        upstream_at(h.take(at + 1), at, branch) matches ProgressView::Ask(request)
            && asks_setting(request, branch, ".merge"@),
        upstream_at(h.take(at + 2), at, branch) == ProgressView::<
            Result<Option<Seq<char>>, FailureView>,
        >::Ask(
            RequestView {
                pause: 0,
                arguments: seq![
                    "rev-parse"@,
                    "--abbrev-ref"@,
                    "--symbolic-full-name"@,
                    "@{u}"@,
                ],
            },
        ),
        forall|n: int|
            at + 3 <= n <= h.len() ==> #[trigger] upstream_at(h.take(n), at, branch)
                == ProgressView::<Result<Option<Seq<char>>, FailureView>>::Done(
                Ok(Some(reference)),
                at + 3,
            ),
        upstream_at(h, at, branch) == ProgressView::<Result<Option<Seq<char>>, FailureView>>::Done(
            Ok(Some(reference)),
            at + 3,
        ),
{
    assert forall|n: int| at + 3 <= n <= h.len() implies #[trigger] upstream_at(
        h.take(n),
        at,
        branch,
    ) == ProgressView::<Result<Option<Seq<char>>, FailureView>>::Done(
        Ok(Some(reference)),
        at + 3,
    ) by {
        assert(h.take(n)[at] == h[at]);
        assert(h.take(n)[at + 1] == h[at + 1]);
        assert(h.take(n)[at + 2] == h[at + 2]);
    }
}

/// Without an upstream, the branch of the same name on `origin` is compared with, where it is
/// there.
pub proof fn origin_stands_in(h: Seq<ReplyView>, at: int, branch: Seq<char>)
    requires
        has_no_upstream(h, at),
    ensures
        upstream_at(h.take(at), at, branch) matches ProgressView::Ask(request) && asks_setting(
            request,
            branch,
            ".remote"@,
        ),
        upstream_at(h.take(at + 1), at, branch) matches ProgressView::Ask(request)
            && asks_setting(request, branch, ".merge"@),
        forall|n: int|
            at + 2 <= n <= h.len() ==> #[trigger] upstream_at(h.take(n), at, branch)
                == ProgressView::<Result<Option<Seq<char>>, FailureView>>::Done(Ok(None), at + 2),
        upstream_at(h, at, branch) == ProgressView::<Result<Option<Seq<char>>, FailureView>>::Done(
            Ok(None),
            at + 2,
        ),
        compare_ref_at(h.take(at + 2), at, branch) == ProgressView::<
            Result<Option<Seq<char>>, FailureView>,
        >::Ask(
            RequestView {
                pause: 0,
                arguments: seq![
                    "show-ref"@,
                    "--verify"@,
                    "--quiet"@,
                    "refs/remotes/origin/"@ + branch,
                ],
            },
        ),
        at + 2 < h.len() && ended_well(h[at + 2]) ==> compare_ref_at(h, at, branch)
            == ProgressView::<Result<Option<Seq<char>>, FailureView>>::Done(
            Ok(Some("origin/"@ + branch)),
            at + 3,
        ),
        at + 2 < h.len() && ended_silently(h[at + 2]) ==> compare_ref_at(h, at, branch)
            == ProgressView::<Result<Option<Seq<char>>, FailureView>>::Done(Ok(None), at + 3),
{
    assert forall|n: int| at + 2 <= n <= h.len() implies #[trigger] upstream_at(
        h.take(n),
        at,
        branch,
    ) == ProgressView::<Result<Option<Seq<char>>, FailureView>>::Done(Ok(None), at + 2) by {
        assert(h.take(n)[at] == h[at]);
        assert(h.take(n)[at + 1] == h[at + 1]);
    }
}

/// The words of a fetch. One before an update forces tags to match; one before a look leaves
/// tags alone.
pub open spec fn fetch_words(sync_tags: bool) -> Seq<Seq<char>> {
    if sync_tags {
        seq!["fetch"@, "--prune"@, "--tags"@, "--force"@]
    } else {
        seq!["fetch"@, "--quiet"@, "--prune"@, "--no-tags"@]
    }
}

proof fn fetching_goes_on(
    h: Seq<ReplyView>,
    at: int,
    attempt: int,
    failed: int,
    attempts: int,
    sync_tags: bool,
)
    requires
        0 <= at,
        1 <= attempt,
        0 <= failed,
        attempt + failed <= attempts <= u64::MAX,
        at + failed <= h.len(),
        forall|i: int|
            at <= i < at + failed ==> (#[trigger] h[i]) is Ok && !h[i]->Ok_0.success,
    ensures
        fetch_at(h.take(at + failed), at, attempt, attempts, sync_tags) == ProgressView::<
            Result<(), FailureView>,
        >::Ask(
            RequestView {
                pause: (attempt + failed - 1) as u64,
                arguments: fetch_words(sync_tags),
            },
        ),
        at + failed < h.len() && ended_well(h[at + failed]) ==> fetch_at(
            h,
            at,
            attempt,
            attempts,
            sync_tags,
        ) == ProgressView::<Result<(), FailureView>>::Done(Ok(()), at + failed + 1),
        at + failed < h.len() && attempt + failed == attempts && h[at + failed] is Ok
            && !h[at + failed]->Ok_0.success ==> {
            let last = summarized(combined_text(h[at + failed]->Ok_0));
            fetch_at(h, at, attempt, attempts, sync_tags) == ProgressView::<
                Result<(), FailureView>,
            >::Done(
                Err(
                    plain(
                        if last.len() == 0 {
                            "fetch failed"@
                        } else {
                            "fetch failed: "@ + last
                        },
                    ),
                ),
                at + failed + 1,
            )
        },
        at + failed < h.len() && h[at + failed] is Err ==> fetch_at(
            h,
            at,
            attempt,
            attempts,
            sync_tags,
        ) == ProgressView::<Result<(), FailureView>>::Done(
            Err(h[at + failed]->Err_0),
            at + failed + 1,
        ),
    decreases failed,
{
    if failed > 0 {
        assert(h.take(at + failed)[at] == h[at]);
        fetching_goes_on(h, at + 1, attempt + 1, failed - 1, attempts, sync_tags);
    }
}

/// A fetch that ended badly is tried again, after one more second of rest each time, until one
/// ends well or all attempts were made. Then the last one tells what went wrong. A fetch that
/// cannot run ends the attempts.
pub proof fn fetches_are_repeated(
    h: Seq<ReplyView>,
    at: int,
    failed: int,
    attempts: int,
    sync_tags: bool,
)
    requires
        0 <= at,
        0 <= failed < attempts <= u64::MAX,
        at + failed <= h.len(),
        forall|i: int|
            at <= i < at + failed ==> (#[trigger] h[i]) is Ok && !h[i]->Ok_0.success,
    ensures
        fetch_from(h.take(at + failed), at, attempts, sync_tags) == ProgressView::<
            Result<(), FailureView>,
        >::Ask(RequestView { pause: failed as u64, arguments: fetch_words(sync_tags) }),
        at + failed < h.len() && ended_well(h[at + failed]) ==> fetch_from(
            h,
            at,
            attempts,
            sync_tags,
        ) == ProgressView::<Result<(), FailureView>>::Done(Ok(()), at + failed + 1),
        at + failed < h.len() && failed + 1 == attempts && h[at + failed] is Ok
            && !h[at + failed]->Ok_0.success ==> {
            let last = summarized(combined_text(h[at + failed]->Ok_0));
            fetch_from(h, at, attempts, sync_tags) == ProgressView::<
                Result<(), FailureView>,
            >::Done(
                Err(
                    plain(
                        if last.len() == 0 {
                            "fetch failed"@
                        } else {
                            "fetch failed: "@ + last
                        },
                    ),
                ),
                at + failed + 1,
            )
        },
        at + failed < h.len() && h[at + failed] is Err ==> fetch_from(
            h,
            at,
            attempts,
            sync_tags,
        ) == ProgressView::<Result<(), FailureView>>::Done(
            Err(h[at + failed]->Err_0),
            at + failed + 1,
        ),
{
    fetching_goes_on(h, at, 1, failed, attempts, sync_tags);
}

// ---------------------------------------------------------------------------
// Settings
// ---------------------------------------------------------------------------

/// A number that is set is taken as it is, unless it is zero.
pub proof fn numbers_are_taken(name: Seq<char>, number: nat)
    ensures
        0 < number <= usize::MAX ==> positive_number(name, decimal(number)) == Ok::<
            nat,
            FailureView,
        >(number),
        positive_number(name, decimal(0)) == Err::<nat, FailureView>(
            plain(name + " must be a positive integer"@),
        ),
{
    numbers_are_read_back(number, usize::MAX as nat);
    numbers_are_read_back(0, usize::MAX as nat);
}

/// Each setting is read from its own variable; what is not set has its default: four jobs, two
/// attempts, thirty seconds. No setting is zero, and a value that is no positive number is
/// refused by the name of its variable.
pub proof fn settings_have_defaults(
    jobs: Option<&[u8]>,
    attempts: Option<&[u8]>,
    timeout: Option<&[u8]>,
)
    ensures
        settings_from(None, None, None) == Ok::<(nat, nat, nat), FailureView>((4, 2, 30)),
        settings_from(jobs, attempts, timeout) matches Ok((j, a, t)) ==> {
            &&& j > 0 && a > 0 && t > 0
            &&& jobs is None ==> j == 4
            &&& attempts is None ==> a == 2
            &&& timeout is None ==> t == 30
            &&& jobs matches Some(bytes) ==> parsed_number(
                lossy_text(bytes@),
                usize::MAX as nat,
            ) is Ok && parsed_number(lossy_text(bytes@), usize::MAX as nat)->Ok_0 == j
            &&& attempts matches Some(bytes) ==> parsed_number(
                lossy_text(bytes@),
                usize::MAX as nat,
            ) is Ok && parsed_number(lossy_text(bytes@), usize::MAX as nat)->Ok_0 == a
            &&& timeout matches Some(bytes) ==> parsed_number(
                lossy_text(bytes@),
                usize::MAX as nat,
            ) is Ok && parsed_number(lossy_text(bytes@), usize::MAX as nat)->Ok_0 == t
        },
        settings_from(jobs, attempts, timeout) matches Err(failure) ==> {
            ||| jobs is Some && failure.message == "REPO_SYNC_JOBS"@
                + " must be a positive integer"@
            ||| attempts is Some && failure.message == "REPO_SYNC_FETCH_ATTEMPTS"@
                + " must be a positive integer"@
            ||| timeout is Some && failure.message == "REPO_SYNC_TIMEOUT_SECS"@
                + " must be a positive integer"@
        },
{
}

/// Settings have the numbers that were read, allow to ask at the terminal, and give commands
/// whole seconds. They are refused exactly where a number is.
pub proof fn settings_are_as_read(
    jobs: Option<&[u8]>,
    attempts: Option<&[u8]>,
    timeout: Option<&[u8]>,
)
    ensures
        match settings_result(jobs, attempts, timeout) {
            Ok(settings) => {
                &&& settings_from(jobs, attempts, timeout) matches Ok((j, a, t))
                &&& settings.jobs == j
                &&& settings.fetch_attempts == a
                &&& settings.terminal_prompt
                &&& settings.command_timeout.seconds == t
                &&& settings.command_timeout.nanos == 0
            },
            Err(failure) => settings_from(jobs, attempts, timeout) matches Err(told) && told
                == failure,
        },
{
    if let Ok((j, a, t)) = settings_from(jobs, attempts, timeout) {
        number_fits(jobs, "REPO_SYNC_JOBS"@, 4);
        number_fits(attempts, "REPO_SYNC_FETCH_ATTEMPTS"@, 2);
        number_fits(timeout, "REPO_SYNC_TIMEOUT_SECS"@, 30);
    }
}

proof fn digits_fit(value: nat, s: Seq<char>, max: nat)
    requires
        value <= max,
    ensures
        digits_value(value, s, max) matches Ok(number) ==> number <= max,
    decreases s.len(),
{
    if s.len() > 0 && is_digit(s[0]) {
        let next = value * 10 + (s[0] as u32 - '0' as u32) as nat;
        if next <= max {
            digits_fit(next, s.skip(1), max);
        }
    }
}

proof fn number_fits(value: Option<&[u8]>, name: Seq<char>, default: nat)
    requires
        default <= 30,
    ensures
        setting(name, value, default) matches Ok(number) ==> number <= usize::MAX,
{
    if let Some(bytes) = value {
        let text = lossy_text(bytes@);
        digits_fit(0, text, usize::MAX as nat);
        digits_fit(0, text.skip(1), usize::MAX as nat);
    }
}

} // verus!
