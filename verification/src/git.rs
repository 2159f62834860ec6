//! What to ask of Git next, and what its answers mean.
//!
//! The functions that need several commands take the answers to the commands asked so
//! far. They return either the next command or their result.
use crate::failure::{plain, text_result, viewed, Failure, FailureView};
use crate::text::{
    concat, decode_lossy, lossy_text, maybe_text, owned, parse_number, parsed_number, same_text,
    slices, summarized, summary, texts, trim, trimmed, NumberError,
};
use vstd::prelude::*;

verus! {

// ---------------------------------------------------------------------------
// Settings
// ---------------------------------------------------------------------------

/// How long a Git command may run.
#[derive(Clone, Copy, Debug, PartialEq, Eq, Structural)]
pub struct Timeout {
    pub seconds: u64,
    pub nanos: u32,
}

/// Limits of the work with Git.
#[derive(Clone, Copy, Debug, PartialEq, Eq, Structural)]
pub struct Settings {
    pub jobs: usize,
    pub fetch_attempts: usize,
    pub terminal_prompt: bool,
    pub command_timeout: Timeout,
}

/// What is said of a text that is no number.
pub open spec fn number_error_text(error: NumberError) -> Seq<char> {
    match error {
        NumberError::Empty => "cannot parse integer from empty string"@,
        NumberError::InvalidDigit => "invalid digit found in string"@,
        NumberError::TooLarge => "number too large to fit in target type"@,
    }
}

fn number_error(error: NumberError) -> (text: &'static str)
    ensures
        text@ == number_error_text(error),
{
    match error {
        NumberError::Empty => "cannot parse integer from empty string",
        NumberError::InvalidDigit => "invalid digit found in string",
        NumberError::TooLarge => "number too large to fit in target type",
    }
}

/// The positive number in the text of a setting.
pub open spec fn positive_number(name: Seq<char>, text: Seq<char>) -> Result<nat, FailureView> {
    let message = name + " must be a positive integer"@;
    match parsed_number(text, usize::MAX as nat) {
        Err(error) => Err(FailureView { message, cause: Some(number_error_text(error)) }),
        Ok(value) => if value == 0 {
            Err(plain(message))
        } else {
            Ok(value)
        },
    }
}

/// The view of a number or the failure to read one.
pub open spec fn number_result(result: Result<usize, Failure>) -> Result<nat, FailureView> {
    match result {
        Ok(value) => Ok(value as nat),
        Err(failure) => Err(failure@),
    }
}

/// Reads a positive number.
pub fn parse_positive(name: &str, text: &str) -> (result: Result<usize, Failure>)
    ensures
        number_result(result) == positive_number(name@, text@),
{
    let message = concat(name, " must be a positive integer");
    match parse_number(text, usize::MAX as u64) {
        Err(error) => Err(Failure { message, cause: Some(number_error(error).to_owned()) }),
        Ok(value) => if value == 0 {
            Err(Failure::new(message))
        } else {
            Ok(value as usize)
        },
    }
}

/// The positive number in an environment variable, or a default where it is not set.
pub open spec fn setting(name: Seq<char>, value: Option<&[u8]>, default: nat) -> Result<
    nat,
    FailureView,
> {
    match value {
        None => Ok(default),
        Some(bytes) => positive_number(name, lossy_text(bytes@)),
    }
}

/// Reads a positive number from the value of an environment variable.
pub fn positive_env(name: &str, value: Option<&[u8]>, default: usize) -> (result: Result<
    usize,
    Failure,
>)
    ensures
        number_result(result) == setting(name@, value, default as nat),
{
    match value {
        None => Ok(default),
        Some(bytes) => parse_positive(name, decode_lossy(bytes).as_str()),
    }
}

/// The settings that three environment variables stand for; the first bad one is reported.
pub open spec fn settings_from(
    jobs: Option<&[u8]>,
    fetch_attempts: Option<&[u8]>,
    timeout: Option<&[u8]>,
) -> Result<(nat, nat, nat), FailureView> {
    match setting("REPO_SYNC_JOBS"@, jobs, 4) {
        Err(failure) => Err(failure),
        Ok(jobs) => match setting("REPO_SYNC_FETCH_ATTEMPTS"@, fetch_attempts, 2) {
            Err(failure) => Err(failure),
            Ok(attempts) => match setting("REPO_SYNC_TIMEOUT_SECS"@, timeout, 30) {
                Err(failure) => Err(failure),
                Ok(seconds) => Ok((jobs, attempts, seconds)),
            },
        },
    }
}

/// The settings that the variables ask for.
pub open spec fn settings_result(
    jobs: Option<&[u8]>,
    fetch_attempts: Option<&[u8]>,
    timeout: Option<&[u8]>,
) -> Result<Settings, FailureView> {
    match settings_from(jobs, fetch_attempts, timeout) {
        Err(failure) => Err(failure),
        Ok((jobs, attempts, seconds)) => Ok(
            Settings {
                jobs: jobs as usize,
                fetch_attempts: attempts as usize,
                terminal_prompt: true,
                command_timeout: Timeout { seconds: seconds as u64, nanos: 0 },
            },
        ),
    }
}

impl Settings {
    /// Reads the settings from the values of `REPO_SYNC_JOBS`, `REPO_SYNC_FETCH_ATTEMPTS` and
    /// `REPO_SYNC_TIMEOUT_SECS`.
    pub fn from_env(
        jobs: Option<&[u8]>,
        fetch_attempts: Option<&[u8]>,
        timeout: Option<&[u8]>,
    ) -> (result: Result<Self, Failure>)
        ensures
            viewed(result) == settings_result(jobs, fetch_attempts, timeout),
    {
        let jobs = match positive_env("REPO_SYNC_JOBS", jobs, 4) {
            Ok(value) => value,
            Err(failure) => return Err(failure),
        };
        let fetch_attempts = match positive_env("REPO_SYNC_FETCH_ATTEMPTS", fetch_attempts, 2) {
            Ok(value) => value,
            Err(failure) => return Err(failure),
        };
        let seconds = match positive_env("REPO_SYNC_TIMEOUT_SECS", timeout, 30) {
            Ok(value) => value,
            Err(failure) => return Err(failure),
        };
        Ok(
            Settings {
                jobs,
                fetch_attempts,
                terminal_prompt: true,
                command_timeout: Timeout { seconds: seconds as u64, nanos: 0 },
            },
        )
    }
}

// ---------------------------------------------------------------------------
// One command
// ---------------------------------------------------------------------------

/// What a finished Git command left behind.
#[derive(Debug, PartialEq, Eq)]
pub struct GitOutput {
    pub success: bool,
    pub stdout: String,
    pub stderr: String,
}

/// The contents of a [`GitOutput`].
#[verifier::ext_equal]
pub struct GitOutputView {
    pub success: bool,
    pub stdout: Seq<char>,
    pub stderr: Seq<char>,
}

impl View for GitOutput {
    type V = GitOutputView;

    open spec fn view(&self) -> GitOutputView {
        GitOutputView { success: self.success, stdout: self.stdout@, stderr: self.stderr@ }
    }
}

/// Both outputs, trimmed, each on lines of its own.
pub open spec fn combined_text(output: GitOutputView) -> Seq<char> {
    let stdout = trimmed(output.stdout);
    let stderr = trimmed(output.stderr);
    if stderr.len() == 0 {
        stdout
    } else if stdout.len() == 0 {
        stderr
    } else {
        stdout + "\n"@ + stderr
    }
}

impl GitOutput {
    /// Both outputs, trimmed, each on lines of its own.
    pub fn combined(&self) -> (text: String)
        ensures
            text@ == combined_text(self@),
    {
        let stdout = trim(self.stdout.as_str());
        let stderr = trim(self.stderr.as_str());
        if stderr.as_str().is_empty() {
            stdout
        } else if stdout.as_str().is_empty() {
            stderr
        } else {
            let mut text = stdout;
            text.append("\n");
            text.append(stderr.as_str());
            text
        }
    }
}

/// The end of a Git command: its output, or why it could not be run.
pub type Reply = Result<GitOutput, Failure>;

/// The contents of a [`Reply`].
pub type ReplyView = Result<GitOutputView, FailureView>;

/// The view of a reply.
pub open spec fn reply_view(reply: Reply) -> ReplyView {
    match reply {
        Ok(output) => Ok(output@),
        Err(failure) => Err(failure@),
    }
}

/// The views of a list of replies.
pub open spec fn answers(list: Seq<Reply>) -> Seq<ReplyView> {
    Seq::new(list.len(), |i: int| reply_view(list[i]))
}

/// A Git command to run after a pause of some seconds.
#[derive(Debug, PartialEq, Eq)]
pub struct Request {
    pub pause: u64,
    pub arguments: Vec<String>,
}

/// The contents of a [`Request`].
#[verifier::ext_equal]
pub struct RequestView {
    pub pause: u64,
    pub arguments: Seq<Seq<char>>,
}

impl View for Request {
    type V = RequestView;

    open spec fn view(&self) -> RequestView {
        RequestView { pause: self.pause, arguments: texts(self.arguments@) }
    }
}

/// A command to run at once.
pub open spec fn command(arguments: Seq<Seq<char>>) -> RequestView {
    RequestView { pause: 0, arguments }
}

pub(crate) fn at_once(arguments: &[&str]) -> (request: Request)
    ensures
        request@ == command(slices(arguments@)),
{
    Request { pause: 0, arguments: owned(arguments) }
}

/// The trimmed output of a command that succeeded, or what a failed one said.
pub open spec fn stdout_of(reply: ReplyView) -> Result<Seq<char>, FailureView> {
    match reply {
        Err(failure) => Err(failure),
        Ok(output) => if output.success {
            Ok(trimmed(output.stdout))
        } else {
            Err(plain(summarized(combined_text(output))))
        },
    }
}

/// The trimmed output of a command that has to succeed.
pub fn git_stdout(reply: &Reply) -> (result: Result<String, Failure>)
    ensures
        text_result(result) == stdout_of(reply_view(*reply)),
{
    match reply {
        Err(failure) => Err(failure.clone()),
        Ok(output) => if output.success {
            Ok(trim(output.stdout.as_str()))
        } else {
            Err(Failure::new(summary(output.combined().as_str())))
        },
    }
}

/// What a command that has to succeed left to say.
pub open spec fn checked(reply: ReplyView, context: Seq<char>) -> Result<(), FailureView> {
    match reply {
        Err(failure) => Err(failure),
        Ok(output) => if output.success {
            Ok(())
        } else if summarized(combined_text(output)).len() == 0 {
            Err(plain(context))
        } else {
            Err(plain(context + ": "@ + summarized(combined_text(output))))
        },
    }
}

/// Checks a command that has to succeed.
pub fn run_checked_with_prompt(reply: &Reply, context: &str) -> (result: Result<(), Failure>)
    ensures
        viewed(result) == checked(reply_view(*reply), context@),
{
    match reply {
        Err(failure) => Err(failure.clone()),
        Ok(output) => {
            if output.success {
                return Ok(());
            }
            let detail = summary(output.combined().as_str());
            if detail.as_str().is_empty() {
                return Err(Failure::of(context));
            }
            let mut message = context.to_owned();
            message.append(": ");
            message.append(detail.as_str());
            Err(Failure::new(message))
        },
    }
}

/// The command that tells a working tree from other directories.
pub open spec fn repository_query() -> RequestView {
    command(seq!["rev-parse"@, "--is-inside-work-tree"@])
}

/// The command that tells a working tree from other directories.
pub fn repository_request() -> (request: Request)
    ensures
        request@ == repository_query(),
{
    let request = at_once(&["rev-parse", "--is-inside-work-tree"]);
    assert(request@ =~= repository_query());
    request
}

/// Whether the answer to [`repository_request`] is that of a working tree.
pub open spec fn is_repository(reply: ReplyView) -> bool {
    reply is Ok && reply->Ok_0.success && trimmed(reply->Ok_0.stdout) == "true"@
}

/// Whether the answer to [`repository_request`] is that of a working tree.
pub fn is_git_repository(reply: &Reply) -> (answer: bool)
    ensures
        answer == is_repository(reply_view(*reply)),
{
    match reply {
        Ok(output) => output.success && same_text(trim(output.stdout.as_str()).as_str(), "true"),
        Err(_) => false,
    }
}

/// The command that names the current branch.
pub open spec fn branch_query() -> RequestView {
    command(seq!["branch"@, "--show-current"@])
}

pub(crate) fn branch_request() -> (request: Request)
    ensures
        request@ == branch_query(),
{
    let request = at_once(&["branch", "--show-current"]);
    assert(request@ =~= branch_query());
    request
}

/// The current branch; it is empty where HEAD is detached.
pub fn current_branch(reply: &Reply) -> (result: Result<String, Failure>)
    ensures
        text_result(result) == stdout_of(reply_view(*reply)),
{
    git_stdout(reply)
}

/// The current branch, where there is one.
pub open spec fn branch_in(reply: ReplyView) -> Option<Seq<char>> {
    match stdout_of(reply) {
        Ok(branch) => if branch.len() == 0 {
            None
        } else {
            Some(branch)
        },
        Err(_) => None,
    }
}

pub(crate) fn named_branch(reply: &Reply) -> (result: Option<String>)
    ensures
        maybe_text(result) == branch_in(reply_view(*reply)),
{
    match current_branch(reply) {
        Ok(branch) => if branch.as_str().is_empty() {
            None
        } else {
            Some(branch)
        },
        Err(_) => None,
    }
}

/// The command that lists the remotes.
pub open spec fn remotes_query() -> RequestView {
    command(seq!["remote"@])
}

pub(crate) fn remotes_request() -> (request: Request)
    ensures
        request@ == remotes_query(),
{
    let request = at_once(&["remote"]);
    assert(request@ =~= remotes_query());
    request
}

/// Whether the answer lists any remote.
pub open spec fn lists_remotes(reply: ReplyView) -> bool {
    stdout_of(reply) is Ok && stdout_of(reply)->Ok_0.len() != 0
}

/// Whether the answer lists any remote.
pub fn has_remotes(reply: &Reply) -> (answer: bool)
    ensures
        answer == lists_remotes(reply_view(*reply)),
{
    match git_stdout(reply) {
        Ok(output) => !output.as_str().is_empty(),
        Err(_) => false,
    }
}

/// The command that lists local changes.
pub open spec fn status_query() -> RequestView {
    command(seq!["status"@, "--porcelain=v1"@, "--untracked-files=normal"@])
}

pub(crate) fn status_request() -> (request: Request)
    ensures
        request@ == status_query(),
{
    let request = at_once(&["status", "--porcelain=v1", "--untracked-files=normal"]);
    assert(request@ =~= status_query());
    request
}

/// Whether the answer lists local changes.
pub open spec fn lists_changes(reply: ReplyView) -> Result<bool, FailureView> {
    match stdout_of(reply) {
        Ok(output) => Ok(output.len() != 0),
        Err(failure) => Err(failure),
    }
}

/// Whether the answer lists local changes.
pub fn dirty(reply: &Reply) -> (result: Result<bool, Failure>)
    ensures
        viewed(result) == lists_changes(reply_view(*reply)),
{
    match git_stdout(reply) {
        Ok(output) => Ok(!output.as_str().is_empty()),
        Err(failure) => Err(failure),
    }
}

/// The command that counts the commits of a reference that HEAD lacks.
pub open spec fn count_query(reference: Seq<char>) -> RequestView {
    command(seq!["rev-list"@, "--count"@, "HEAD.."@ + reference])
}

pub(crate) fn count_request(reference: &str) -> (request: Request)
    ensures
        request@ == count_query(reference@),
{
    let range = concat("HEAD..", reference);
    let request = at_once(&["rev-list", "--count", range.as_str()]);
    assert(request@ =~= count_query(reference@));
    request
}

/// The number of commits in the answer.
pub open spec fn counted(reply: ReplyView) -> Result<nat, FailureView> {
    match stdout_of(reply) {
        Err(failure) => Err(failure),
        Ok(output) => match parsed_number(output, u64::MAX as nat) {
            Ok(count) => Ok(count),
            Err(error) => Err(
                FailureView {
                    message: "git returned an invalid update count"@,
                    cause: Some(number_error_text(error)),
                },
            ),
        },
    }
}

/// The view of a count or the failure to get one.
pub open spec fn count_result(result: Result<u64, Failure>) -> Result<nat, FailureView> {
    match result {
        Ok(value) => Ok(value as nat),
        Err(failure) => Err(failure@),
    }
}

/// The number of commits in the answer.
pub fn remote_update_count(reply: &Reply) -> (result: Result<u64, Failure>)
    ensures
        count_result(result) == counted(reply_view(*reply)),
{
    match git_stdout(reply) {
        Err(failure) => Err(failure),
        Ok(output) => match parse_number(output.as_str(), u64::MAX) {
            Ok(count) => Ok(count),
            Err(error) => Err(
                Failure {
                    message: "git returned an invalid update count".to_owned(),
                    cause: Some(number_error(error).to_owned()),
                },
            ),
        },
    }
}

// ---------------------------------------------------------------------------
// Several commands in a row
// ---------------------------------------------------------------------------

/// The next command to run, or the result where no more is needed.
#[derive(Debug, PartialEq, Eq)]
pub enum Step<T> {
    Ask(Request),
    Done(T),
}

/// The contents of a [`Step`].
#[verifier::ext_equal]
pub enum StepView<V> {
    Ask(RequestView),
    Done(V),
}

impl<T: View> View for Step<T> {
    type V = StepView<T::V>;

    open spec fn view(&self) -> StepView<T::V> {
        match self {
            Step::Ask(request) => StepView::Ask(request@),
            Step::Done(value) => StepView::Done(value@),
        }
    }
}

/// The next command of one part of the work, or the result of that part together with the
/// number of replies used up to its end.
#[derive(Debug, PartialEq, Eq)]
pub enum Progress<T> {
    Ask(Request),
    Done(T, usize),
}

/// The contents of a [`Progress`].
#[verifier::ext_equal]
pub enum ProgressView<V> {
    Ask(RequestView),
    Done(V, int),
}

/// The view of the progress towards a text that may be missing.
pub open spec fn reference_progress(
    progress: Progress<Result<Option<String>, Failure>>,
) -> ProgressView<Result<Option<Seq<char>>, FailureView>> {
    match progress {
        Progress::Ask(request) => ProgressView::Ask(request@),
        Progress::Done(result, next) => ProgressView::Done(
            match result {
                Ok(reference) => Ok(maybe_text(reference)),
                Err(failure) => Err(failure@),
            },
            next as int,
        ),
    }
}

/// The view of the progress of work that only succeeds or fails.
pub open spec fn task_progress(progress: Progress<Result<(), Failure>>) -> ProgressView<
    Result<(), FailureView>,
> {
    match progress {
        Progress::Ask(request) => ProgressView::Ask(request@),
        Progress::Done(result, next) => ProgressView::Done(viewed(result), next as int),
    }
}

/// The view of the progress towards a text.
pub open spec fn text_progress(progress: Progress<Result<String, Failure>>) -> ProgressView<
    Result<Seq<char>, FailureView>,
> {
    match progress {
        Progress::Ask(request) => ProgressView::Ask(request@),
        Progress::Done(result, next) => ProgressView::Done(text_result(result), next as int),
    }
}

/// The view of the progress towards a yes or no.
pub open spec fn flag_progress(progress: Progress<bool>) -> ProgressView<bool> {
    match progress {
        Progress::Ask(request) => ProgressView::Ask(request@),
        Progress::Done(value, next) => ProgressView::Done(value, next as int),
    }
}

/// The command that reads one key of the configuration of a branch.
pub open spec fn branch_key_query(branch: Seq<char>, key: Seq<char>) -> RequestView {
    command(seq!["config"@, "--get"@, "branch."@ + branch + key])
}

fn branch_key_request(branch: &str, key: &str) -> (request: Request)
    ensures
        request@ == branch_key_query(branch@, key@),
{
    let mut name = concat("branch.", branch);
    name.append(key);
    let request = at_once(&["config", "--get", name.as_str()]);
    assert(request@ =~= branch_key_query(branch@, key@));
    request
}

/// Whether a key of the configuration is set.
pub open spec fn key_set(reply: ReplyView) -> Result<bool, FailureView> {
    match reply {
        Err(failure) => Err(failure),
        Ok(output) => if output.success {
            Ok(true)
        } else if trimmed(output.stderr).len() != 0 {
            Err(
                plain(
                    "Cannot read upstream configuration: "@ + summarized(combined_text(output)),
                ),
            )
        } else {
            Ok(false)
        },
    }
}

fn key_is_set(reply: &Reply) -> (result: Result<bool, Failure>)
    ensures
        viewed(result) == key_set(reply_view(*reply)),
{
    match reply {
        Err(failure) => Err(failure.clone()),
        Ok(output) => {
            if output.success {
                return Ok(true);
            }
            if !trim(output.stderr.as_str()).as_str().is_empty() {
                let detail = summary(output.combined().as_str());
                return Err(
                    Failure::new(concat("Cannot read upstream configuration: ", detail.as_str())),
                );
            }
            Ok(false)
        },
    }
}

/// The command that names the upstream of the current branch.
pub open spec fn upstream_query() -> RequestView {
    command(seq!["rev-parse"@, "--abbrev-ref"@, "--symbolic-full-name"@, "@{u}"@])
}

fn upstream_request() -> (request: Request)
    ensures
        request@ == upstream_query(),
{
    let request = at_once(&["rev-parse", "--abbrev-ref", "--symbolic-full-name", "@{u}"]);
    assert(request@ =~= upstream_query());
    request
}

/// The configured upstream of a branch, read from the replies from `at` on. A branch with
/// either key set has an upstream, and it is an error if that cannot be named.
pub open spec fn upstream_at(h: Seq<ReplyView>, at: int, branch: Seq<char>) -> ProgressView<
    Result<Option<Seq<char>>, FailureView>,
> {
    if h.len() <= at {
        ProgressView::Ask(branch_key_query(branch, ".remote"@))
    } else {
        match key_set(h[at]) {
            Err(failure) => ProgressView::Done(Err(failure), at + 1),
            Ok(remote) => if h.len() <= at + 1 {
                ProgressView::Ask(branch_key_query(branch, ".merge"@))
            } else {
                match key_set(h[at + 1]) {
                    Err(failure) => ProgressView::Done(Err(failure), at + 2),
                    Ok(merge) => if !remote && !merge {
                        ProgressView::Done(Ok(None), at + 2)
                    } else if h.len() <= at + 2 {
                        ProgressView::Ask(upstream_query())
                    } else {
                        ProgressView::Done(
                            match stdout_of(h[at + 2]) {
                                Ok(reference) => Ok(Some(reference)),
                                Err(failure) => Err(
                                    failure.within("Configured upstream is unavailable"@),
                                ),
                            },
                            at + 3,
                        )
                    },
                }
            },
        }
    }
}

/// Finds the configured upstream of a branch.
pub fn upstream(replies: &Vec<Reply>, at: usize, branch: &str) -> (progress: Progress<
    Result<Option<String>, Failure>,
>)
    requires
        at <= replies@.len(),
    ensures
        reference_progress(progress) == upstream_at(answers(replies@), at as int, branch@),
        progress matches Progress::Done(_, next) ==> at <= next <= replies@.len(),
{
    if at >= replies.len() {
        return Progress::Ask(branch_key_request(branch, ".remote"));
    }
    let remote = match key_is_set(&replies[at]) {
        Ok(value) => value,
        Err(failure) => return Progress::Done(Err(failure), at + 1),
    };
    if at + 1 >= replies.len() {
        return Progress::Ask(branch_key_request(branch, ".merge"));
    }
    let merge = match key_is_set(&replies[at + 1]) {
        Ok(value) => value,
        Err(failure) => return Progress::Done(Err(failure), at + 2),
    };
    if !remote && !merge {
        return Progress::Done(Ok(None), at + 2);
    }
    if at + 2 >= replies.len() {
        return Progress::Ask(upstream_request());
    }
    match git_stdout(&replies[at + 2]) {
        Ok(reference) => Progress::Done(Ok(Some(reference)), at + 3),
        Err(failure) => Progress::Done(
            Err(failure.context("Configured upstream is unavailable")),
            at + 3,
        ),
    }
}

/// The command that looks for the remote branch of the same name.
pub open spec fn tracking_query(branch: Seq<char>) -> RequestView {
    command(
        seq!["show-ref"@, "--verify"@, "--quiet"@, "refs/remotes/origin/"@ + branch],
    )
}

fn tracking_request(branch: &str) -> (request: Request)
    ensures
        request@ == tracking_query(branch@),
{
    let reference = concat("refs/remotes/origin/", branch);
    let request = at_once(&["show-ref", "--verify", "--quiet", reference.as_str()]);
    assert(request@ =~= tracking_query(branch@));
    request
}

/// The remote branch of the same name, where there is one.
pub open spec fn tracking_in(reply: ReplyView, branch: Seq<char>) -> Result<
    Option<Seq<char>>,
    FailureView,
> {
    match reply {
        Err(failure) => Err(failure),
        Ok(output) => if output.success {
            Ok(Some("origin/"@ + branch))
        } else if trimmed(output.stderr).len() != 0 {
            Err(plain("Cannot read tracking ref: "@ + summarized(combined_text(output))))
        } else {
            Ok(None)
        },
    }
}

/// The reference that a branch is compared with, read from the replies from `at` on: its
/// configured upstream or else the branch of the same name at `origin`.
pub open spec fn compare_ref_at(h: Seq<ReplyView>, at: int, branch: Seq<char>) -> ProgressView<
    Result<Option<Seq<char>>, FailureView>,
> {
    match upstream_at(h, at, branch) {
        ProgressView::Ask(request) => ProgressView::Ask(request),
        ProgressView::Done(result, next) => match result {
            Err(failure) => ProgressView::Done(Err(failure), next),
            Ok(Some(reference)) => ProgressView::Done(Ok(Some(reference)), next),
            Ok(None) => if h.len() <= next {
                ProgressView::Ask(tracking_query(branch))
            } else {
                ProgressView::Done(tracking_in(h[next], branch), next + 1)
            },
        },
    }
}

/// Finds the reference that a branch is compared with.
pub fn compare_ref(replies: &Vec<Reply>, at: usize, branch: &str) -> (progress: Progress<
    Result<Option<String>, Failure>,
>)
    requires
        at <= replies@.len(),
    ensures
        reference_progress(progress) == compare_ref_at(answers(replies@), at as int, branch@),
        progress matches Progress::Done(_, next) ==> at <= next <= replies@.len(),
{
    let next = match upstream(replies, at, branch) {
        Progress::Ask(request) => return Progress::Ask(request),
        Progress::Done(Err(failure), next) => return Progress::Done(Err(failure), next),
        Progress::Done(Ok(Some(reference)), next) => return Progress::Done(
            Ok(Some(reference)),
            next,
        ),
        Progress::Done(Ok(None), next) => next,
    };
    if next >= replies.len() {
        return Progress::Ask(tracking_request(branch));
    }
    let result = match &replies[next] {
        Err(failure) => Err(failure.clone()),
        Ok(output) => if output.success {
            Ok(Some(concat("origin/", branch)))
        } else if !trim(output.stderr.as_str()).as_str().is_empty() {
            let detail = summary(output.combined().as_str());
            Err(Failure::new(concat("Cannot read tracking ref: ", detail.as_str())))
        } else {
            Ok(None)
        },
    };
    Progress::Done(result, next + 1)
}

/// The arguments of a fetch. With tags, local tags are forced to match; without, no tag is
/// touched.
pub open spec fn fetch_arguments(sync_tags: bool) -> Seq<Seq<char>> {
    if sync_tags {
        seq!["fetch"@, "--prune"@, "--tags"@, "--force"@]
    } else {
        seq!["fetch"@, "--quiet"@, "--prune"@, "--no-tags"@]
    }
}

fn fetch_request(sync_tags: bool, pause: u64) -> (request: Request)
    ensures
        request@ == (RequestView { pause, arguments: fetch_arguments(sync_tags) }),
{
    let arguments = if sync_tags {
        owned(&["fetch", "--prune", "--tags", "--force"])
    } else {
        owned(&["fetch", "--quiet", "--prune", "--no-tags"])
    };
    assert(texts(arguments@) =~= fetch_arguments(sync_tags));
    Request { pause, arguments }
}

/// What a failed fetch says.
pub open spec fn fetch_failure(detail: Seq<char>) -> FailureView {
    if detail.len() == 0 {
        plain("fetch failed"@)
    } else {
        plain("fetch failed: "@ + detail)
    }
}

/// The end of a fetch that is at attempt number `attempt`, read from the replies from `at`
/// on. Each further attempt waits one second longer than the one before it.
pub open spec fn fetch_at(
    h: Seq<ReplyView>,
    at: int,
    attempt: int,
    attempts: int,
    sync_tags: bool,
) -> ProgressView<Result<(), FailureView>>
    decreases attempts - attempt,
{
    if h.len() <= at {
        ProgressView::Ask(
            RequestView { pause: (attempt - 1) as u64, arguments: fetch_arguments(sync_tags) },
        )
    } else {
        match h[at] {
            Err(failure) => ProgressView::Done(Err(failure), at + 1),
            Ok(output) => if output.success {
                ProgressView::Done(Ok(()), at + 1)
            } else if attempt < attempts {
                fetch_at(h, at + 1, attempt + 1, attempts, sync_tags)
            } else {
                ProgressView::Done(
                    Err(fetch_failure(summarized(combined_text(output)))),
                    at + 1,
                )
            },
        }
    }
}

/// The end of a fetch with a number of attempts, read from the replies from `at` on.
pub open spec fn fetch_from(h: Seq<ReplyView>, at: int, attempts: int, sync_tags: bool) -> ProgressView<
    Result<(), FailureView>,
> {
    if attempts <= 0 {
        ProgressView::Done(Err(fetch_failure(seq![])), at)
    } else {
        fetch_at(h, at, 1, attempts, sync_tags)
    }
}

/// Fetches, with a number of attempts.
pub fn fetch(replies: &Vec<Reply>, at: usize, attempts: usize, sync_tags: bool) -> (progress:
    Progress<Result<(), Failure>>)
    requires
        at <= replies@.len(),
    ensures
        task_progress(progress) == fetch_from(
            answers(replies@),
            at as int,
            attempts as int,
            sync_tags,
        ),
        progress matches Progress::Done(_, next) ==> at <= next <= replies@.len(),
{
    if attempts == 0 {
        return Progress::Done(Err(Failure::of("fetch failed")), at);
    }
    let mut attempt: usize = 1;
    let mut here: usize = at;
    let ghost h = answers(replies@);
    while here < replies.len()
        invariant
            at <= here <= replies@.len(),
            1 <= attempt <= attempts,
            h == answers(replies@),
            fetch_from(h, at as int, attempts as int, sync_tags) == fetch_at(
                h,
                here as int,
                attempt as int,
                attempts as int,
                sync_tags,
            ),
        decreases replies@.len() - here,
    {
        match &replies[here] {
            Err(failure) => return Progress::Done(Err(failure.clone()), here + 1),
            Ok(output) => {
                if output.success {
                    return Progress::Done(Ok(()), here + 1);
                }
                if attempt >= attempts {
                    let detail = summary(output.combined().as_str());
                    if detail.as_str().is_empty() {
                        return Progress::Done(Err(Failure::of("fetch failed")), here + 1);
                    }
                    return Progress::Done(
                        Err(Failure::new(concat("fetch failed: ", detail.as_str()))),
                        here + 1,
                    );
                }
            },
        }
        attempt = attempt + 1;
        here = here + 1;
    }
    Progress::Ask(fetch_request(sync_tags, (attempt - 1) as u64))
}

} // verus!
