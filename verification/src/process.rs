//! Running one Git command: how it is called, when to stop waiting and what it gave.
use crate::failure::Failure;
use crate::git::{GitOutput, GitOutputView, Timeout};
use crate::path::{borrowed_path, byte_lists, copy_bytes, display_path, displayed, RawPath};
use crate::text::{
    concat, decimal, decode_lossy, lossy_text, number, texts,
};
use vstd::prelude::*;
use vstd::utf8::encode_utf8;

verus! {

// ---------------------------------------------------------------------------
// Calling
// ---------------------------------------------------------------------------

/// A variable of the environment.
#[derive(Debug, PartialEq, Eq)]
pub struct Variable {
    pub name: String,
    pub value: String,
}

/// A call of Git: its arguments and the variables that it gets besides the inherited ones.
#[derive(Debug, PartialEq, Eq)]
pub struct GitCommand {
    pub arguments: Vec<Vec<u8>>,
    pub environment: Vec<Variable>,
}

/// The contents of a list of variables.
pub open spec fn variables(list: Seq<Variable>) -> Seq<(Seq<char>, Seq<char>)> {
    Seq::new(list.len(), |i: int| (list[i].name@, list[i].value@))
}

/// The arguments of a call: the directory, then those of the request.
pub open spec fn git_arguments(path: Seq<u8>, arguments: Seq<Seq<char>>) -> Seq<Seq<u8>> {
    seq![encode_utf8("-C"@), path] + Seq::new(
        arguments.len(),
        |i: int| encode_utf8(arguments[i]),
    )
}

/// The variables that keep Git and its helpers from asking questions.
pub open spec fn silent_environment(ssh_command: Option<&[u8]>) -> Seq<(Seq<char>, Seq<char>)> {
    seq![
        ("GIT_TERMINAL_PROMPT"@, "0"@),
        ("SSH_ASKPASS_REQUIRE"@, "never"@),
        (
            "GIT_SSH_COMMAND"@,
            match ssh_command {
                Some(existing) => lossy_text(existing@) + " -oBatchMode=yes"@,
                None => "ssh -oBatchMode=yes"@,
            },
        ),
    ]
}

fn push_variable(list: &mut Vec<Variable>, name: &str, value: &str)
    ensures
        variables(final(list)@) == variables(old(list)@).push((name@, value@)),
{
    list.push(Variable { name: name.to_owned(), value: value.to_owned() });
    assert(variables(list@) =~= variables(old(list)@).push((name@, value@)));
}

/// The variables that Git gets besides those of the program.
pub open spec fn environment_for(terminal_prompt: bool, ssh_command: Option<&[u8]>) -> Seq<
    (Seq<char>, Seq<char>),
> {
    if terminal_prompt {
        seq![]
    } else {
        silent_environment(ssh_command)
    }
}

/// The call for a request in a directory. Without a terminal prompt nothing may ask; an SSH
/// command that is set already is kept.
pub fn build_git_command(
    path: &RawPath,
    arguments: &Vec<String>,
    terminal_prompt: bool,
    ssh_command: Option<&[u8]>,
) -> (command: GitCommand)
    ensures
        byte_lists(command.arguments@) == git_arguments(path@, texts(arguments@)),
        variables(command.environment@) == environment_for(terminal_prompt, ssh_command),
{
    let mut list: Vec<Vec<u8>> = Vec::new();
    list.push("-C".as_bytes_vec());
    list.push(copy_bytes(path.as_bytes()));
    let ghost head = seq![encode_utf8("-C"@), path@];
    assert(byte_lists(list@) =~= head);
    let mut i: usize = 0;
    while i < arguments.len()
        invariant
            i <= arguments@.len(),
            byte_lists(list@) == head + Seq::new(
                i as nat,
                |k: int| encode_utf8(texts(arguments@)[k]),
            ),
        decreases arguments@.len() - i,
    {
        let ghost before = byte_lists(list@);
        list.push(arguments[i].as_str().as_bytes_vec());
        proof {
            assert(texts(arguments@)[i as int] == arguments@[i as int]@);
            assert(byte_lists(list@) =~= before.push(encode_utf8(arguments@[i as int]@)));
            assert(byte_lists(list@) =~= head + Seq::new(
                (i + 1) as nat,
                |k: int| encode_utf8(texts(arguments@)[k]),
            ));
        }
        i = i + 1;
    }
    let mut environment: Vec<Variable> = Vec::new();
    assert(variables(environment@) =~= Seq::<(Seq<char>, Seq<char>)>::empty());
    if !terminal_prompt {
        push_variable(&mut environment, "GIT_TERMINAL_PROMPT", "0");
        push_variable(&mut environment, "SSH_ASKPASS_REQUIRE", "never");
        let ssh = match ssh_command {
            Some(existing) => concat(decode_lossy(existing).as_str(), " -oBatchMode=yes"),
            None => "ssh -oBatchMode=yes".to_owned(),
        };
        push_variable(&mut environment, "GIT_SSH_COMMAND", ssh.as_str());
        assert(variables(environment@) =~= silent_environment(ssh_command));
    }
    GitCommand { arguments: list, environment }
}

/// The failure to start Git in a directory.
pub fn cannot_run(path: &RawPath, home: Option<&RawPath>, failure: &Failure) -> (result: Failure)
    ensures
        result@ == failure@.within(
            "cannot run git in "@ + displayed(path@, borrowed_path(home)),
        ),
{
    failure.context(concat("cannot run git in ", display_path(path, home).as_str()).as_str())
}

// ---------------------------------------------------------------------------
// Waiting
// ---------------------------------------------------------------------------

/// What a look for the output of a command gave.
#[derive(Debug, PartialEq, Eq)]
pub enum Received {
    Output(Vec<u8>),
    NotYet,
    Lost,
}

/// The output after a look for it. The first that came is kept.
pub open spec fn output_after(
    output: Option<Seq<u8>>,
    received: Received,
    name: Seq<char>,
) -> Option<Seq<u8>> {
    if output is Some {
        output
    } else {
        match received {
            Received::Output(bytes) => Some(bytes@),
            Received::NotYet => None,
            Received::Lost => Some(encode_utf8("failed to read "@ + name)),
        }
    }
}

/// The bytes in an option.
pub open spec fn maybe_bytes(bytes: Option<Vec<u8>>) -> Option<Seq<u8>> {
    match bytes {
        Some(bytes) => Some(bytes@),
        None => None,
    }
}

/// Keeps the output that came, or says that it is lost.
pub fn receive_output(received: Received, output: &mut Option<Vec<u8>>, name: &str)
    ensures
        maybe_bytes(*final(output)) == output_after(maybe_bytes(*old(output)), received, name@),
{
    if output.is_some() {
        return;
    }
    match received {
        Received::Output(bytes) => {
            *output = Some(bytes);
        },
        Received::NotYet => {},
        Received::Lost => {
            *output = Some(concat("failed to read ", name).as_str().as_bytes_vec());
        },
    }
}

/// A command under way: whether it exited with success, and its output.
#[derive(Debug)]
pub struct GitRun {
    pub success: Option<bool>,
    pub stdout: Option<Vec<u8>>,
    pub stderr: Option<Vec<u8>>,
}

/// What to do next with a command under way.
#[derive(Clone, Copy, Debug, PartialEq, Eq, Structural)]
pub enum Poll {
    Finished,
    TimedOut,
    Wait,
}

/// The bytes that stand for an output that did not end in time.
pub open spec fn output_or(output: Option<Seq<u8>>, fallback: Seq<char>) -> Seq<u8> {
    match output {
        Some(bytes) => bytes,
        None => encode_utf8(fallback),
    }
}

/// The error output of a command that took too long, on a line of its own.
pub open spec fn with_notice(stderr: Seq<u8>, seconds: u64) -> Seq<u8> {
    let ended = if stderr.len() > 0 && stderr.last() != 10 {
        stderr.push(10)
    } else {
        stderr
    };
    ended + encode_utf8("git command timed out after "@ + decimal(seconds as nat) + "s"@)
}

/// What a command gave.
pub open spec fn git_output(
    success: Option<bool>,
    stdout: Option<Seq<u8>>,
    stderr: Option<Seq<u8>>,
    timed_out: bool,
    timeout: Timeout,
) -> GitOutputView {
    let errors = output_or(stderr, "failed to finish reading git stderr"@);
    GitOutputView {
        success: success == Some(true) && !timed_out,
        stdout: lossy_text(output_or(stdout, "failed to finish reading git stdout"@)),
        stderr: lossy_text(
            if timed_out {
                with_notice(errors, timeout.seconds)
            } else {
                errors
            },
        ),
    }
}

/// What to do next with a command.
pub open spec fn polled(run: GitRun, expired: bool) -> Poll {
    if run.success is Some && run.stdout is Some && run.stderr is Some {
        Poll::Finished
    } else if expired {
        Poll::TimedOut
    } else {
        Poll::Wait
    }
}

/// Whether output of a command that was ended is still awaited.
pub open spec fn output_awaited(run: GitRun, grace_over: bool) -> bool {
    !grace_over && (run.stdout is None || run.stderr is None)
}

impl GitRun {
    /// A command that just started.
    pub fn started() -> (run: Self)
        ensures
            run.success is None,
            run.stdout is None,
            run.stderr is None,
    {
        GitRun { success: None, stdout: None, stderr: None }
    }

    /// What to do next: it is over once it exited and all output came, and has to be ended
    /// once its time is up.
    pub fn poll(&self, expired: bool) -> (poll: Poll)
        ensures
            poll == polled(*self, expired),
    {
        if self.success.is_some() && self.stdout.is_some() && self.stderr.is_some() {
            Poll::Finished
        } else if expired {
            Poll::TimedOut
        } else {
            Poll::Wait
        }
    }

    /// Whether output of a command that was ended is still awaited: some is missing, and the
    /// time that it is given is not over.
    pub fn awaits_output(&self, grace_over: bool) -> (answer: bool)
        ensures
            answer == output_awaited(*self, grace_over),
    {
        !grace_over && (self.stdout.is_none() || self.stderr.is_none())
    }

    /// What the command gave. It fails where it took too long, whatever it exited with.
    pub fn output(&self, timed_out: bool, timeout: Timeout) -> (output: GitOutput)
        ensures
            output@ == git_output(
                self.success,
                maybe_bytes(self.stdout),
                maybe_bytes(self.stderr),
                timed_out,
                timeout,
            ),
    {
        let stdout = match &self.stdout {
            Some(bytes) => copy_bytes(bytes),
            None => "failed to finish reading git stdout".as_bytes_vec(),
        };
        let mut stderr = match &self.stderr {
            Some(bytes) => copy_bytes(bytes),
            None => "failed to finish reading git stderr".as_bytes_vec(),
        };
        if timed_out {
            let ghost before = stderr@;
            if stderr.len() > 0 && stderr[stderr.len() - 1] != 10 {
                stderr.push(10);
            }
            let mut notice = concat(
                "git command timed out after ",
                number(timeout.seconds as u128).as_str(),
            );
            notice.append("s");
            let mut more = notice.as_str().as_bytes_vec();
            stderr.append(&mut more);
            assert(stderr@ =~= with_notice(before, timeout.seconds));
        }
        let success = match self.success {
            Some(success) => success && !timed_out,
            None => false,
        };
        GitOutput {
            success,
            stdout: decode_lossy(stdout.as_slice()),
            stderr: decode_lossy(stderr.as_slice()),
        }
    }
}

/// A command that took too long never counts as a success.
pub proof fn timeouts_are_failures(
    success: Option<bool>,
    stdout: Option<Seq<u8>>,
    stderr: Option<Seq<u8>>,
    timeout: Timeout,
)
    ensures
        !git_output(success, stdout, stderr, true, timeout).success,
{
}

} // verus!
