//! How Git is started and what is made of its output.
use crate::git::Timeout;
use crate::process::{
    environment_for, git_arguments, git_output, maybe_bytes, output_after, output_awaited, polled,
    silent_environment, GitRun, Poll, Received,
};
use crate::text::{decimal, lossy_text};
use vstd::prelude::*;
use vstd::utf8::encode_utf8;

verus! {

/// Git is told the directory first, and then every argument in its order.
pub proof fn arguments_follow_the_directory(path: Seq<u8>, arguments: Seq<Seq<char>>)
    ensures
        git_arguments(path, arguments).len() == arguments.len() + 2,
        git_arguments(path, arguments)[0] == encode_utf8("-C"@),
        git_arguments(path, arguments)[1] == path,
        forall|i: int|
            0 <= i < arguments.len() ==> #[trigger] git_arguments(path, arguments)[i + 2]
                == encode_utf8(arguments[i]),
{
    assert forall|i: int| 0 <= i < arguments.len() implies #[trigger] git_arguments(
        path,
        arguments,
    )[i + 2] == encode_utf8(arguments[i]) by {}
}

/// Without a terminal to ask at, neither Git nor ssh may ask. An ssh command that is set is kept
/// and told so.
pub proof fn nobody_is_asked(ssh_command: Option<&[u8]>)
    ensures
        silent_environment(ssh_command).len() == 3,
        silent_environment(ssh_command)[0] == ("GIT_TERMINAL_PROMPT"@, "0"@),
        silent_environment(ssh_command)[1] == ("SSH_ASKPASS_REQUIRE"@, "never"@),
        silent_environment(ssh_command)[2].0 == "GIT_SSH_COMMAND"@,
        ssh_command is None ==> silent_environment(ssh_command)[2].1 == "ssh -oBatchMode=yes"@,
        ssh_command matches Some(existing) ==> silent_environment(ssh_command)[2].1 == lossy_text(
            existing@,
        ) + " -oBatchMode=yes"@,
{
}

/// Output that came stays; until some came it is awaited; what was lost is told.
pub proof fn output_is_kept(
    output: Option<Seq<u8>>,
    received: Received,
    name: Seq<char>,
)
    ensures
        output is Some ==> output_after(output, received, name) == output,
        output is None ==> {
            &&& received is NotYet ==> output_after(output, received, name) is None
            &&& received matches Received::Output(bytes) ==> output_after(output, received, name)
                == Some(bytes@)
            &&& received is Lost ==> output_after(output, received, name) == Some(
                encode_utf8("failed to read "@ + name),
            )
        },
{
}

/// A command is a success exactly where it exited with success in time. What it wrote is its
/// output; a command that took too long says so behind what it complained about, on a line of
/// its own.
pub proof fn outputs_are_what_was_written(
    success: Option<bool>,
    stdout: Seq<u8>,
    stderr: Seq<u8>,
    timed_out: bool,
    timeout: Timeout,
)
    ensures
        git_output(success, Some(stdout), Some(stderr), timed_out, timeout).success <==> success
            == Some(true) && !timed_out,
        git_output(success, Some(stdout), Some(stderr), timed_out, timeout).stdout == lossy_text(
            stdout,
        ),
        git_output(success, Some(stdout), Some(stderr), false, timeout).stderr == lossy_text(
            stderr,
        ),
        git_output(success, None, None, false, timeout).stdout == lossy_text(
            encode_utf8("failed to finish reading git stdout"@),
        ),
        git_output(success, None, None, false, timeout).stderr == lossy_text(
            encode_utf8("failed to finish reading git stderr"@),
        ),
        ({
            let notice = encode_utf8(
                "git command timed out after "@ + decimal(timeout.seconds as nat) + "s"@,
            );
            git_output(success, Some(stdout), Some(stderr), true, timeout).stderr == lossy_text(
                if stderr.len() > 0 && stderr.last() != 10 {
                    stderr + seq![10u8] + notice
                } else {
                    stderr + notice
                },
            )
        }),
{
    assert(stderr.push(10u8) =~= stderr + seq![10u8]);
}

/// With a terminal to ask at, nothing is changed around Git. Without one, what keeps Git and ssh
/// from asking is set.
pub proof fn only_silence_is_set(ssh_command: Option<&[u8]>)
    ensures
        environment_for(true, ssh_command).len() == 0,
        environment_for(false, ssh_command) == silent_environment(ssh_command),
        environment_for(false, ssh_command).contains(("GIT_TERMINAL_PROMPT"@, "0"@)),
        environment_for(false, ssh_command).contains(("SSH_ASKPASS_REQUIRE"@, "never"@)),
{
    let silent = silent_environment(ssh_command);
    assert(silent[0] == ("GIT_TERMINAL_PROMPT"@, "0"@));
    assert(silent[1] == ("SSH_ASKPASS_REQUIRE"@, "never"@));
}

/// A command is over once it exited and everything that it wrote is there, whatever the time; it
/// is ended for its time only before that. One that is over gives all that it wrote, and tells
/// how it exited.
pub proof fn commands_are_over_with_their_output(run: GitRun, expired: bool, timeout: Timeout)
    ensures
        polled(run, expired) == Poll::Finished <==> run.success is Some && run.stdout is Some
            && run.stderr is Some,
        polled(run, expired) == Poll::TimedOut ==> expired,
        polled(run, expired) == Poll::Wait ==> !expired,
        polled(run, expired) == Poll::Finished ==> {
            let output = git_output(
                run.success,
                maybe_bytes(run.stdout),
                maybe_bytes(run.stderr),
                false,
                timeout,
            );
            &&& output.success == run.success->0
            &&& output.stdout == lossy_text(run.stdout->0@)
            &&& output.stderr == lossy_text(run.stderr->0@)
        },
        output_awaited(run, expired) ==> !expired && polled(run, false) == Poll::Wait,
        !output_awaited(run, false) ==> run.stdout is Some && run.stderr is Some,
{
}

} // verus!
