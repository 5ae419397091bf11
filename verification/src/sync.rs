//! The rsync side: the argument lists handed to rsync, the command shown to
//! the user before a sync, the file list written for `--files-from`, and how
//! rsync's exit status and output are turned into a result or an error.
use vstd::prelude::*;
use vstd::string::*;
use crate::text::{
    views, contains_seq, join_seq, lowercase, to_lower, str_contains, join_strings,
};

verus! {

broadcast use vstd::string::group_string_axioms;

/// What a finished rsync run reports: its combined output and whether it
/// exited successfully.
#[derive(Debug)]
pub struct SyncResult {
    pub output: String,
    pub success: bool,
}

/// Why an rsync run could not be carried out.
#[derive(Debug)]
pub enum SyncError {
    /// The remote refused the connection for want of credentials.
    AuthRequired,
    /// Any other failure, with a message for the user.
    Other(String),
}

/// Where an interactive rsync session stands: waiting for a password, or
/// finished.
#[derive(Debug)]
pub enum SyncStep {
    NeedPassword,
    Done(SyncResult),
}

/// What an interactive rsync session is waiting for.
#[derive(Debug, Clone, Copy, PartialEq, Eq, Structural)]
pub enum PromptKind {
    /// A password prompt.
    Password,
    /// A host key confirmation, answered with `yes`.
    HostKey,
}

/// What an interactive rsync session reported while it was watched.
#[derive(Debug)]
pub enum PtyEvent {
    /// Output that looks like a prompt (the matched text).
    Prompt(String),
    /// The session ended.
    Eof,
    /// Nothing was seen for a while.
    Timeout,
    /// Watching the session failed, with the reason.
    Failed(String),
}

/// What to do next with an interactive rsync session.
#[derive(Debug)]
pub enum PtyAction {
    /// Ask the user for a password.
    AskPassword,
    /// Answer a host key question with `yes`.
    ConfirmHost,
    /// Collect the rest of the output: the session is over.
    Finish,
    /// Read what is there and keep watching.
    ReadMore,
    /// Give up with this message.
    Fail(String),
}

/// The first rsync flag: archive, verbose, compress, plus `n` for a dry run.
pub open spec fn mode_flag(dry_run: bool) -> Seq<char> {
    if dry_run {
        "-avzn"@
    } else {
        "-avz"@
    }
}

/// The remote shell option that makes ssh fail instead of prompting.
pub open spec fn batch_rsh() -> Seq<char> {
    "--rsh=ssh -o BatchMode=yes"@
}

/// The argument list of a sync from `local` to `remote`.
pub open spec fn rsync_args(
    local: Seq<char>,
    remote: Seq<char>,
    files_from: Seq<char>,
    dry_run: bool,
    batch_mode: bool,
) -> Seq<Seq<char>> {
    seq![mode_flag(dry_run), "--relative"@, "--files-from="@ + files_from] + (if batch_mode {
        seq![batch_rsh()]
    } else {
        Seq::empty()
    }) + seq![local + "/"@, remote + "/"@]
}

/// The argument list of a recursive listing of `remote`.
pub open spec fn list_args_spec(remote: Seq<char>, batch_mode: bool) -> Seq<Seq<char>> {
    seq!["-r"@, "--list-only"@] + (if batch_mode {
        seq![batch_rsh()]
    } else {
        Seq::empty()
    }) + seq![remote + "/"@]
}

/// The text of a shell command that runs rsync with `args`.
pub open spec fn command_text(args: Seq<Seq<char>>) -> Seq<char> {
    "rsync "@ + join_seq(args, " "@)
}

/// Each file on a line of its own, indented by two spaces, each line
/// preceded by a line break.
pub open spec fn file_list_block(files: Seq<Seq<char>>) -> Seq<char>
    decreases files.len(),
{
    if files.len() == 0 {
        Seq::empty()
    } else {
        file_list_block(files.drop_last()) + "\n  "@ + files.last()
    }
}

/// The command shown before a sync: the rsync command line with a
/// placeholder for the file list, then the files, if there are any.
pub open spec fn command_display(local: Seq<char>, remote: Seq<char>, files: Seq<Seq<char>>) -> Seq<
    char,
> {
    command_text(rsync_args(local, remote, "<file-list>"@, false, true)) + if files.len() == 0 {
        Seq::<char>::empty()
    } else {
        "\n\nFile list:"@ + file_list_block(files)
    }
}

/// The content of a `--files-from` file: every path followed by a line break.
pub open spec fn files_from_text(files: Seq<Seq<char>>) -> Seq<char>
    decreases files.len(),
{
    if files.len() == 0 {
        Seq::empty()
    } else {
        files_from_text(files.drop_last()) + files.last() + "\n"@
    }
}

/// Lowercased text that tells of an authentication failure.
pub open spec fn has_auth_marker(lower: Seq<char>) -> bool {
    ||| contains_seq(lower, "permission denied"@)
    ||| contains_seq(lower, "authentication"@)
    ||| contains_seq(lower, "auth fail"@)
    ||| contains_seq(lower, "host key verification failed"@)
}

/// rsync's error output tells of an authentication failure, whatever the case
/// of its letters.
pub open spec fn auth_failure(stderr: Seq<char>) -> bool {
    has_auth_marker(lowercase(stderr))
}

/// Lowercased output of a password-fed session that tells of a rejection.
pub open spec fn has_rejection_marker(lower: Seq<char>) -> bool {
    contains_seq(lower, "permission denied"@) || contains_seq(lower, "authentication"@)
}

/// The output of a session after the password was sent shows that it was
/// accepted.
pub open spec fn password_accepted(output: Seq<char>) -> bool {
    !has_rejection_marker(lowercase(output))
}

/// The first text if it is not empty, else the second.
pub open spec fn nonempty_or(first: Seq<char>, second: Seq<char>) -> Seq<char> {
    if first.len() == 0 {
        second
    } else {
        first
    }
}

/// Standard output and error output together, on separate lines when both
/// are there.
pub open spec fn combined_output(stdout: Seq<char>, stderr: Seq<char>) -> Seq<char> {
    if stdout.len() == 0 {
        stderr
    } else if stderr.len() == 0 {
        stdout
    } else {
        stdout + "\n"@ + stderr
    }
}

/// The kind of prompt that a lowercased piece of session output is.
pub open spec fn prompt_kind_spec(lower: Seq<char>) -> PromptKind {
    if contains_seq(lower, "password"@) {
        PromptKind::Password
    } else {
        PromptKind::HostKey
    }
}

/// The message shown for an error.
pub open spec fn error_message(e: SyncError) -> Seq<char> {
    match e {
        SyncError::AuthRequired => "authentication required: SSH key not configured"@,
        SyncError::Other(msg) => msg@,
    }
}

impl SyncError {
    /// The message shown for this error.
    pub fn message(&self) -> (r: String)
        ensures
            r@ == error_message(*self),
    {
        match self {
            SyncError::AuthRequired => String::from_str(
                "authentication required: SSH key not configured",
            ),
            SyncError::Other(msg) => msg.clone(),
        }
    }
}

/// The arguments of an rsync run that copies the listed files from `local`
/// to `remote`, keeping their relative paths; `dry_run` only reports what
/// would be copied, and `batch_mode` makes ssh fail rather than ask for a
/// password.
pub fn build_args(
    local: &str,
    remote: &str,
    files_from_path: &str,
    dry_run: bool,
    batch_mode: bool,
) -> (args: Vec<String>)
    ensures
        views(args@) == rsync_args(local@, remote@, files_from_path@, dry_run, batch_mode),
{
    let flags = if dry_run {
        String::from_str("-avzn")
    } else {
        String::from_str("-avz")
    };
    let mut args: Vec<String> = Vec::new();
    args.push(flags);
    args.push(String::from_str("--relative"));
    args.push(String::from_str("--files-from=").concat(files_from_path));
    if batch_mode {
        args.push(String::from_str("--rsh=ssh -o BatchMode=yes"));
    }
    args.push(String::from_str(local).concat("/"));
    args.push(String::from_str(remote).concat("/"));
    assert(views(args@) =~= rsync_args(local@, remote@, files_from_path@, dry_run, batch_mode));
    args
}

/// The arguments of a recursive listing of `remote`.
pub fn list_args(remote: &str, batch_mode: bool) -> (args: Vec<String>)
    ensures
        views(args@) == list_args_spec(remote@, batch_mode),
{
    let mut args: Vec<String> = Vec::new();
    args.push(String::from_str("-r"));
    args.push(String::from_str("--list-only"));
    if batch_mode {
        args.push(String::from_str("--rsh=ssh -o BatchMode=yes"));
    }
    args.push(String::from_str(remote).concat("/"));
    assert(views(args@) =~= list_args_spec(remote@, batch_mode));
    args
}

/// The shell command that runs rsync with `args`.
pub fn command_line(args: &Vec<String>) -> (r: String)
    ensures
        r@ == command_text(views(args@)),
{
    let joined = join_strings(args, " ");
    String::from_str("rsync ").concat(joined.as_str())
}

/// Whether lowercased text tells of an authentication failure.
pub fn mentions_auth_failure(lower: &str) -> (r: bool)
    ensures
        r == has_auth_marker(lower@),
{
    str_contains(lower, "permission denied") || str_contains(lower, "authentication")
        || str_contains(lower, "auth fail") || str_contains(lower, "host key verification failed")
}

/// Whether rsync's error output tells of an authentication failure.
pub fn is_auth_error(stderr: &str) -> (r: bool)
    ensures
        r == auth_failure(stderr@),
{
    let lower = to_lower(stderr);
    mentions_auth_failure(lower.as_str())
}

/// The command shown to the user before a sync of `files` from `local` to
/// `remote`.
pub fn build_command_display(local: &str, remote: &str, files: &Vec<String>) -> (r: String)
    ensures
        r@ == command_display(local@, remote@, views(files@)),
{
    let args = build_args(local, remote, "<file-list>", false, true);
    let mut cmd = command_line(&args);
    if files.len() > 0 {
        cmd.append("\n\nFile list:");
        let ghost head = cmd@;
        let n = files.len();
        let mut i: usize = 0;
        while i < n
            invariant
                n == files@.len(),
                i <= n,
                cmd@ == head + file_list_block(views(files@).take(i as int)),
            decreases n - i,
        {
            cmd.append("\n  ");
            cmd.append(files[i].as_str());
            proof {
                let t = views(files@).take(i + 1);
                assert(t.drop_last() =~= views(files@).take(i as int));
                assert(head + file_list_block(t) =~= head + file_list_block(views(files@).take(
                    i as int,
                )) + "\n  "@ + files@[i as int]@);
            }
            i = i + 1;
        }
        assert(views(files@).take(n as int) =~= views(files@));
    }
    cmd
}

/// The content of the `--files-from` file for `files`.
pub fn files_from_content(files: &Vec<String>) -> (r: String)
    ensures
        r@ == files_from_text(views(files@)),
{
    let mut r = String::new();
    let n = files.len();
    let mut i: usize = 0;
    while i < n
        invariant
            n == files@.len(),
            i <= n,
            r@ == files_from_text(views(files@).take(i as int)),
        decreases n - i,
    {
        r.append(files[i].as_str());
        r.append("\n");
        proof {
            let t = views(files@).take(i + 1);
            assert(t.drop_last() =~= views(files@).take(i as int));
            assert(files_from_text(t) =~= files_from_text(views(files@).take(i as int))
                + files@[i as int]@ + "\n"@);
        }
        i = i + 1;
    }
    assert(views(files@).take(n as int) =~= views(files@));
    r
}

/// The result of a dry run or a listing that exited with `success`, given
/// what it printed; `failure_prefix` starts the message of a failure that is
/// not an authentication failure.
fn report_outcome(success: bool, stdout: String, stderr: String, failure_prefix: &str) -> (r: Result<
    String,
    SyncError,
>)
    ensures
        success ==> (r matches Ok(out) && out@ == nonempty_or(stdout@, stderr@)),
        !success && auth_failure(stderr@) ==> r matches Err(SyncError::AuthRequired),
        !success && !auth_failure(stderr@) ==> (r matches Err(SyncError::Other(m)) && m@
            == failure_prefix@ + stderr@),
{
    if !success {
        if is_auth_error(stderr.as_str()) {
            return Err(SyncError::AuthRequired);
        }
        return Err(SyncError::Other(String::from_str(failure_prefix).concat(stderr.as_str())));
    }
    if stdout.as_str().is_empty() {
        assert(stdout@.len() == 0);
        Ok(stderr)
    } else {
        Ok(stdout)
    }
}

/// The result of an rsync dry run that exited with `success` and printed
/// `stdout` and `stderr`: what it printed, or the error.
pub fn dry_run_outcome(success: bool, stdout: String, stderr: String) -> (r: Result<
    String,
    SyncError,
>)
    ensures
        success ==> (r matches Ok(out) && out@ == nonempty_or(stdout@, stderr@)),
        !success && auth_failure(stderr@) ==> r matches Err(SyncError::AuthRequired),
        !success && !auth_failure(stderr@) ==> (r matches Err(SyncError::Other(m)) && m@
            == "rsync dry-run failed:\n"@ + stderr@),
{
    report_outcome(success, stdout, stderr, "rsync dry-run failed:\n")
}

/// The result of a remote listing that exited with `success` and printed
/// `stdout` and `stderr`: the listing, or the error.
pub fn list_outcome(success: bool, stdout: String, stderr: String) -> (r: Result<
    String,
    SyncError,
>)
    ensures
        success ==> (r matches Ok(out) && out@ == nonempty_or(stdout@, stderr@)),
        !success && auth_failure(stderr@) ==> r matches Err(SyncError::AuthRequired),
        !success && !auth_failure(stderr@) ==> (r matches Err(SyncError::Other(m)) && m@
            == "rsync --list-only failed:\n"@ + stderr@),
{
    report_outcome(success, stdout, stderr, "rsync --list-only failed:\n")
}

/// The result of a sync that exited with `success` and printed `stdout` and
/// `stderr`: an authentication failure is an error, any other run a result.
pub fn sync_outcome(success: bool, stdout: String, stderr: String) -> (r: Result<
    SyncResult,
    SyncError,
>)
    ensures
        !success && auth_failure(stderr@) ==> r matches Err(SyncError::AuthRequired),
        success || !auth_failure(stderr@) ==> (r matches Ok(res) && res.success == success
            && res.output@ == combined_output(stdout@, stderr@)),
{
    if !success && is_auth_error(stderr.as_str()) {
        return Err(SyncError::AuthRequired);
    }
    let output = if stdout.as_str().is_empty() {
        stderr
    } else if stderr.as_str().is_empty() {
        stdout
    } else {
        stdout.concat("\n").concat(stderr.as_str())
    };
    Ok(SyncResult { output, success })
}

/// Whether lowercased session output tells of a rejected password.
pub fn mentions_rejection(lower: &str) -> (r: bool)
    ensures
        r == has_rejection_marker(lower@),
{
    str_contains(lower, "permission denied") || str_contains(lower, "authentication")
}

/// The result of a session that ended after a password was sent: it
/// succeeded unless its output tells of a rejection.
pub fn password_session_result(output: String) -> (r: SyncResult)
    ensures
        r.output == output,
        r.success == password_accepted(output@),
{
    let lower = to_lower(output.as_str());
    let rejected = mentions_rejection(lower.as_str());
    SyncResult { output, success: !rejected }
}

/// The kind of prompt that lowercased session output is.
pub fn prompt_kind_of(lower: &str) -> (r: PromptKind)
    ensures
        r == prompt_kind_spec(lower@),
{
    if str_contains(lower, "password") {
        PromptKind::Password
    } else {
        PromptKind::HostKey
    }
}

/// The kind of prompt that a piece of session output is, whatever the case
/// of its letters.
pub fn classify_prompt(matched: &str) -> (r: PromptKind)
    ensures
        r == prompt_kind_spec(lowercase(matched@)),
{
    let lower = to_lower(matched);
    prompt_kind_of(lower.as_str())
}

/// The next step with an interactive session after `event`. Before a
/// password was sent, a pause means the session is done; after it, the
/// session is given more time.
pub fn next_pty_action(event: PtyEvent, password_sent: bool) -> (r: PtyAction)
    ensures
        match event {
            PtyEvent::Prompt(m) => match prompt_kind_spec(lowercase(m@)) {
                PromptKind::Password => r is AskPassword,
                PromptKind::HostKey => r is ConfirmHost,
            },
            PtyEvent::Eof => r is Finish,
            PtyEvent::Timeout => if password_sent {
                r is ReadMore
            } else {
                r is Finish
            },
            PtyEvent::Failed(msg) => r matches PtyAction::Fail(out) && out@ == if password_sent {
                "error waiting for rsync to finish: "@ + msg@
            } else {
                "unexpected rsync output: "@ + msg@
            },
        },
{
    match event {
        PtyEvent::Prompt(m) => match classify_prompt(m.as_str()) {
            PromptKind::Password => PtyAction::AskPassword,
            PromptKind::HostKey => PtyAction::ConfirmHost,
        },
        PtyEvent::Eof => PtyAction::Finish,
        PtyEvent::Timeout => if password_sent {
            PtyAction::ReadMore
        } else {
            PtyAction::Finish
        },
        PtyEvent::Failed(msg) => {
            let prefix = if password_sent {
                String::from_str("error waiting for rsync to finish: ")
            } else {
                String::from_str("unexpected rsync output: ")
            };
            PtyAction::Fail(prefix.concat(msg.as_str()))
        },
    }
}

/// What a sync reports keeps both of rsync's streams whole: standard output
/// alone when there is no error output, error output alone when there is no
/// standard output, and otherwise standard output, a line break and error
/// output.
pub proof fn reported_output_keeps_streams(stdout: Seq<char>, stderr: Seq<char>)
    ensures
        ({
            let out = combined_output(stdout, stderr);
            let both = stdout.len() > 0 && stderr.len() > 0;
            &&& out.len() == stdout.len() + stderr.len() + if both {
                1int
            } else {
                0int
            }
            &&& out.subrange(0, stdout.len() as int) == stdout
            &&& out.subrange(out.len() - stderr.len(), out.len() as int) == stderr
            &&& both ==> out[stdout.len() as int] == '\n'
            &&& stderr.len() == 0 ==> out == stdout
            &&& stdout.len() == 0 ==> out == stderr
        }),
{
    reveal_strlit("\n");
    let out = combined_output(stdout, stderr);
    if stdout.len() > 0 && stderr.len() > 0 {
        assert(out.subrange(0, stdout.len() as int) =~= stdout);
        assert(out.subrange(out.len() - stderr.len(), out.len() as int) =~= stderr);
    } else {
        assert(out.subrange(0, stdout.len() as int) =~= stdout);
        assert(out.subrange(out.len() - stderr.len(), out.len() as int) =~= stderr);
    }
}

/// A session that was fed a password failed exactly when its lowercased
/// output mentions a denied permission or authentication.
pub proof fn rejection_marks_failed_session(output: Seq<char>)
    ensures
        contains_seq(lowercase(output), "authentication"@) ==> !password_accepted(output),
        contains_seq(lowercase(output), "permission denied"@) ==> !password_accepted(output),
        !contains_seq(lowercase(output), "authentication"@) && !contains_seq(
            lowercase(output),
            "permission denied"@,
        ) ==> password_accepted(output),
{
}

/// A failed run whose lowercased error output mentions any of the markers
/// of a refused login is an authentication failure; a run whose error
/// output mentions none of them is not.
pub proof fn auth_markers_mean_auth_failure(stderr: Seq<char>)
    ensures
        ({
            let lower = lowercase(stderr);
            let any = contains_seq(lower, "permission denied"@) || contains_seq(
                lower,
                "authentication"@,
            ) || contains_seq(lower, "auth fail"@) || contains_seq(
                lower,
                "host key verification failed"@,
            );
            auth_failure(stderr) <==> any
        }),
{
}

/// A download is an upload with the two directories swapped: the argument
/// lists differ only in their last two entries, which trade places.
pub proof fn reverse_direction_swaps(
    local: Seq<char>,
    remote: Seq<char>,
    files_from: Seq<char>,
    dry_run: bool,
    batch_mode: bool,
)
    ensures
        ({
            let up = rsync_args(local, remote, files_from, dry_run, batch_mode);
            let down = rsync_args(remote, local, files_from, dry_run, batch_mode);
            let n = up.len();
            &&& down.len() == n
            &&& down.take(n - 2) == up.take(n - 2)
            &&& down[n - 2] == up[n - 1]
            &&& down[n - 1] == up[n - 2]
            &&& up[n - 2] == local + "/"@
            &&& up[n - 1] == remote + "/"@
        }),
{
    let up = rsync_args(local, remote, files_from, dry_run, batch_mode);
    let down = rsync_args(remote, local, files_from, dry_run, batch_mode);
    assert(down.take(up.len() - 2) =~= up.take(up.len() - 2));
}

/// A dry run runs the same command as the sync itself, but for its first
/// flag, which adds `n`.
pub proof fn dry_run_only_changes_flag(
    local: Seq<char>,
    remote: Seq<char>,
    files_from: Seq<char>,
    batch_mode: bool,
)
    ensures
        rsync_args(local, remote, files_from, true, batch_mode) == rsync_args(
            local,
            remote,
            files_from,
            false,
            batch_mode,
        ).update(0, "-avzn"@),
{
    assert(rsync_args(local, remote, files_from, true, batch_mode) =~= rsync_args(
        local,
        remote,
        files_from,
        false,
        batch_mode,
    ).update(0, "-avzn"@));
}

/// The non-interactive remote shell option is there exactly in batch mode.
pub proof fn batch_option_iff_batch_mode(
    local: Seq<char>,
    remote: Seq<char>,
    files_from: Seq<char>,
    dry_run: bool,
    batch_mode: bool,
)
    ensures
        rsync_args(local, remote, files_from, dry_run, batch_mode).contains(batch_rsh())
            <==> batch_mode,
{
    let args = rsync_args(local, remote, files_from, dry_run, batch_mode);
    reveal_strlit("--rsh=ssh -o BatchMode=yes");
    reveal_strlit("-avzn");
    reveal_strlit("-avz");
    reveal_strlit("--relative");
    reveal_strlit("--files-from=");
    reveal_strlit("/");
    if batch_mode {
        assert(args[3] == batch_rsh());
    } else {
        assert forall|i: int| 0 <= i < args.len() implies args[i] != batch_rsh() by {
            let b = batch_rsh();
            if i == 0 {
                assert(args[i].len() != b.len());
            } else if i == 1 {
                assert(args[i].len() != b.len());
            } else if i == 2 {
                assert(args[i][2] != b[2]);
            } else {
                assert(args[i].last() != b.last());
            }
        }
    }
}

} // verus!
