//! One remote command from start to finish: which transport to use, when
//! to make sure of the connection, when to try again, and what to tell the
//! user when it fails.
//!
//! Over FTP a command first makes sure of the connection and then acts.
//! If the server or the transport lets the action fail, most commands make
//! sure of the connection once more and act a second time; what is
//! reported then is the error of the second try, marked as coming after a
//! reconnect. A failure of the local disk is reported at once and never
//! leads to a second try. Over SFTP a command opens a transport of its own
//! and acts once.

use crate::delete::{DeleteAction, DeleteActionView};
use crate::delete_try::{begin_delete_try, delete_try_start, DeleteTry, DeleteTryView};
use crate::models::ConnectionProtocol;
use crate::path::{normalize_remote_path, normalize_spec};
use crate::text::{chars_of, push_str_chars, string_of};
use vstd::prelude::*;

verus! {

/// The commands that reach the server.
#[derive(Clone, Copy, Debug, PartialEq, Eq, Structural)]
pub enum Operation {
    List,
    Delete,
    Rename,
    CreateDirectory,
    CreateFile,
    Upload,
    Download,
    ReadText,
    WriteText,
    ReadBinary,
    Search,
    MoveToLocal,
    MoveToRemote,
}

/// Whether a command acts a second time, after a reconnect, when its
/// action has failed.
pub open spec fn retries(op: Operation) -> bool {
    match op {
        Operation::List
        | Operation::Delete
        | Operation::Rename
        | Operation::CreateDirectory
        | Operation::CreateFile
        | Operation::Upload
        | Operation::Download => true,
        _ => false,
    }
}

/// What stands before the error when the only try of a command, or the
/// first with no second to follow, has failed over FTP.
pub open spec fn first_failure_prefix(op: Operation) -> Seq<char> {
    match op {
        Operation::List => "Failed to list directory via MLSD: "@,
        Operation::Delete => "Failed to delete remote item: "@,
        Operation::Rename => "Failed to rename remote item: "@,
        Operation::CreateDirectory => "Failed to create remote directory: "@,
        Operation::CreateFile => "Failed to create remote file: "@,
        Operation::Upload => "Failed to upload: "@,
        Operation::Download => "Failed to download: "@,
        Operation::ReadText => "FTP retr failed: "@,
        Operation::WriteText => ""@,
        Operation::ReadBinary => ""@,
        Operation::Search => ""@,
        Operation::MoveToLocal => "Failed to download file during move: "@,
        Operation::MoveToRemote => "Failed to upload file during move: "@,
    }
}

/// What stands before the error when the second try of a command has
/// failed.
pub open spec fn retry_failure_prefix(op: Operation) -> Seq<char> {
    match op {
        Operation::List => "Failed after reconnect: "@,
        Operation::Delete => "Failed to delete after reconnect: "@,
        Operation::Rename => "Failed to rename after reconnect: "@,
        Operation::CreateDirectory => "Failed to create directory after reconnect: "@,
        Operation::CreateFile => "Failed to create file after reconnect: "@,
        Operation::Upload => "Failed to upload after reconnect: "@,
        Operation::Download => "Failed to download after reconnect: "@,
        _ => first_failure_prefix(op),
    }
}

/// What stands before the error when the SFTP transport of a command
/// could not be opened.
pub open spec fn sftp_connect_prefix(op: Operation) -> Seq<char> {
    match op {
        Operation::List => "Failed to connect SFTP for listing: "@,
        Operation::Delete => "Failed to connect SFTP for deletion: "@,
        Operation::Rename => "Failed to connect SFTP for rename: "@,
        Operation::CreateDirectory => "Failed to connect SFTP for directory creation: "@,
        Operation::CreateFile => "Failed to connect SFTP for file creation: "@,
        Operation::Upload => "Failed to connect SFTP for upload: "@,
        Operation::Download => "Failed to connect SFTP for download: "@,
        Operation::ReadText => "SFTP connection failed: "@,
        Operation::WriteText => "SFTP connection failed: "@,
        Operation::ReadBinary => "SFTP connection failed: "@,
        Operation::Search => ""@,
        Operation::MoveToLocal => "Failed to download file during move: "@,
        Operation::MoveToRemote => "Failed to upload file during move: "@,
    }
}

/// What stands before the error when the action of a command has failed
/// over SFTP.
pub open spec fn sftp_failure_prefix(op: Operation) -> Seq<char> {
    match op {
        Operation::List => "Failed to list SFTP directory: "@,
        Operation::Delete => "Failed to delete remote item: "@,
        Operation::Rename => "Failed to rename SFTP item: "@,
        Operation::CreateDirectory => "Failed to create SFTP directory: "@,
        Operation::CreateFile => "Failed to create SFTP file: "@,
        Operation::Upload => "Failed to upload via SFTP: "@,
        Operation::Download => "Failed to download via SFTP: "@,
        Operation::ReadText => "SFTP read failed: "@,
        Operation::WriteText => "SFTP write failed: "@,
        Operation::ReadBinary => "SFTP read failed: "@,
        Operation::Search => ""@,
        Operation::MoveToLocal => "Failed to download file during move: "@,
        Operation::MoveToRemote => "Failed to upload file during move: "@,
    }
}

/// Where a command stands.
#[derive(Clone, Copy, Debug, PartialEq, Eq, Structural)]
pub enum Stage {
    /// Making sure of the connection before the first try.
    Ensuring,
    /// The first try is under way.
    Running,
    /// Making sure of the connection before the second try.
    EnsuringAgain,
    /// The second try is under way.
    RunningAgain,
    /// The SFTP transport is being opened.
    OpeningSftp,
    /// The action is under way over SFTP.
    RunningSftp,
    /// Nothing is left to do.
    Finished,
}

/// What the driver has to do next.
#[derive(Debug)]
pub enum CommandAction {
    /// Make sure of the FTP connection and tell how that went.
    EnsureConnected,
    /// Act over the FTP connection and tell how that went.
    Run,
    /// Open an SFTP transport and tell how that went.
    OpenSftp,
    /// Act over the SFTP transport and tell how that went.
    RunSftp,
    /// Done: the command has succeeded, or failed for the reason given.
    Finish(Result<(), String>),
}

/// A `CommandAction` with its text as a sequence of characters.
pub enum ActionView {
    EnsureConnected,
    Run,
    OpenSftp,
    RunSftp,
    Finish(Result<(), Seq<char>>),
}

impl View for CommandAction {
    type V = ActionView;

    open spec fn view(&self) -> ActionView {
        match self {
            CommandAction::EnsureConnected => ActionView::EnsureConnected,
            CommandAction::Run => ActionView::Run,
            CommandAction::OpenSftp => ActionView::OpenSftp,
            CommandAction::RunSftp => ActionView::RunSftp,
            CommandAction::Finish(Ok(())) => ActionView::Finish(Ok(())),
            CommandAction::Finish(Err(e)) => ActionView::Finish(Err(e@)),
        }
    }
}

/// How the last thing that the driver was asked to do went.
#[derive(Debug)]
pub enum Reply {
    /// It went well.
    Done,
    /// The server or the transport let it fail; the text is the error.
    Failed(String),
    /// The local disk let it fail; the text is the error.
    LocalFailed(String),
}

/// A `Reply` with its text as a sequence of characters.
pub enum ReplyView {
    Done,
    Failed(Seq<char>),
    LocalFailed(Seq<char>),
}

impl View for Reply {
    type V = ReplyView;

    open spec fn view(&self) -> ReplyView {
        match self {
            Reply::Done => ReplyView::Done,
            Reply::Failed(e) => ReplyView::Failed(e@),
            Reply::LocalFailed(e) => ReplyView::LocalFailed(e@),
        }
    }
}

/// Why a walk over a tree has ended early: the side that let it fail, with
/// the text of the error.
#[derive(Debug)]
pub enum Failure {
    /// The server or the transport.
    Remote(String),
    /// The local disk.
    Local(String),
}

/// A `Failure` with its text as a sequence of characters.
pub enum FailureView {
    Remote(Seq<char>),
    Local(Seq<char>),
}

impl View for Failure {
    type V = FailureView;

    open spec fn view(&self) -> FailureView {
        match self {
            Failure::Remote(e) => FailureView::Remote(e@),
            Failure::Local(e) => FailureView::Local(e@),
        }
    }
}

/// The reply that tells a command of the failure of a walk.
pub open spec fn reply_of(failure: FailureView) -> ReplyView {
    match failure {
        FailureView::Remote(e) => ReplyView::Failed(e),
        FailureView::Local(e) => ReplyView::LocalFailed(e),
    }
}

impl Failure {
    /// The reply that tells a command of this failure.
    pub fn into_reply(self) -> (reply: Reply)
        ensures
            reply@ == reply_of(self@),
    {
        match self {
            Failure::Remote(e) => Reply::Failed(e),
            Failure::Local(e) => Reply::LocalFailed(e),
        }
    }
}

/// The error of a reply that tells of a failure.
pub open spec fn error_of(reply: ReplyView) -> Seq<char> {
    match reply {
        ReplyView::Done => Seq::empty(),
        ReplyView::Failed(e) => e,
        ReplyView::LocalFailed(e) => e,
    }
}

/// What a command knows of itself.
pub struct CommandView {
    pub op: Operation,
    pub stage: Stage,
    /// The error of the first try, kept while the second is prepared.
    pub first_error: Seq<char>,
    /// The remote path that the command is about, made absolute.
    pub path: Seq<char>,
    /// The second path of a command that has two (the new name of a
    /// rename; the local side of a transfer), as it was given, or made
    /// absolute where it is remote; the query of a search.
    pub other_path: Seq<char>,
    /// Whether the command has ended well.
    pub succeeded: bool,
}

/// The reason given when the connection is sure but nobody holds it.
pub open spec fn not_connected_text() -> Seq<char> {
    "Not connected"@
}

/// The reason given when a command is told of something after it has
/// finished.
pub open spec fn finished_text() -> Seq<char> {
    "No operation in progress"@
}

/// The stage in which a command over the given protocol begins, with the
/// first thing to do: over SFTP its own transport is opened; over FTP, and
/// when no protocol is known, the connection is made sure of.
pub open spec fn first_action(protocol: Option<ConnectionProtocol>) -> (Stage, ActionView) {
    if protocol == Some(ConnectionProtocol::SFTP) {
        (Stage::OpeningSftp, ActionView::OpenSftp)
    } else {
        (Stage::Ensuring, ActionView::EnsureConnected)
    }
}

/// The command and the next thing to do once the driver has told how the
/// last thing went: `reply` says so, and `client` says whether an FTP
/// control connection is held now.
///
/// A first try that the server or the transport let fail leads, for a
/// command that tries again, to a second try, if the connection can be
/// made sure of once more; a first try that the local disk let fail ends
/// the command.
pub open spec fn command_step(c: CommandView, reply: ReplyView, client: bool) -> (
    CommandView,
    ActionView,
) {
    let finished = CommandView { stage: Stage::Finished, ..c };
    let e = error_of(reply);
    match c.stage {
        Stage::Ensuring => if !(reply is Done) {
            (finished, ActionView::Finish(Err(e)))
        } else if client {
            (CommandView { stage: Stage::Running, ..c }, ActionView::Run)
        } else {
            (finished, ActionView::Finish(Err(not_connected_text())))
        },
        Stage::Running => if reply is Done {
            (CommandView { succeeded: true, ..finished }, ActionView::Finish(Ok(())))
        } else if reply is Failed && retries(c.op) {
            (
                CommandView { stage: Stage::EnsuringAgain, first_error: e, ..c },
                ActionView::EnsureConnected,
            )
        } else {
            (
                CommandView { stage: Stage::Finished, first_error: e, ..c },
                ActionView::Finish(Err(first_failure_prefix(c.op) + e)),
            )
        },
        Stage::EnsuringAgain => if reply is Done && client {
            (CommandView { stage: Stage::RunningAgain, ..c }, ActionView::Run)
        } else {
            (finished, ActionView::Finish(Err(first_failure_prefix(c.op) + c.first_error)))
        },
        Stage::RunningAgain => if reply is Done {
            (CommandView { succeeded: true, ..finished }, ActionView::Finish(Ok(())))
        } else {
            (finished, ActionView::Finish(Err(retry_failure_prefix(c.op) + e)))
        },
        Stage::OpeningSftp => if reply is Done {
            (CommandView { stage: Stage::RunningSftp, ..c }, ActionView::RunSftp)
        } else {
            (finished, ActionView::Finish(Err(sftp_connect_prefix(c.op) + e)))
        },
        Stage::RunningSftp => if reply is Done {
            (CommandView { succeeded: true, ..finished }, ActionView::Finish(Ok(())))
        } else {
            (finished, ActionView::Finish(Err(sftp_failure_prefix(c.op) + e)))
        },
        Stage::Finished => (c, ActionView::Finish(Err(finished_text()))),
    }
}

/// One thing that the driver tells: how the last thing went, and whether
/// a control connection is held.
pub struct Told {
    pub reply: ReplyView,
    pub client: bool,
}

/// How a command ends when the driver tells `script`, one item for each
/// thing it was asked to do: `None` when that does not decide it.
pub open spec fn command_run(c: CommandView, script: Seq<Told>) -> Option<Result<(), Seq<char>>>
    decreases script.len(),
{
    if script.len() == 0 {
        None
    } else {
        let (next, action) = command_step(c, script[0].reply, script[0].client);
        match action {
            ActionView::Finish(r) => Some(r),
            _ => command_run(next, script.drop_first()),
        }
    }
}

/// The number of times that the driver is asked to act when it tells
/// `script`.
pub open spec fn tries(c: CommandView, script: Seq<Told>) -> nat
    decreases script.len(),
{
    if script.len() == 0 {
        0
    } else {
        let (next, action) = command_step(c, script[0].reply, script[0].client);
        match action {
            ActionView::Finish(_) => 0,
            ActionView::Run | ActionView::RunSftp => 1 + tries(next, script.drop_first()),
            _ => tries(next, script.drop_first()),
        }
    }
}

/// How far a stage is from the end: no more steps than this follow.
pub open spec fn steps_left(stage: Stage) -> nat {
    match stage {
        Stage::Ensuring => 4,
        Stage::Running => 3,
        Stage::EnsuringAgain => 2,
        Stage::RunningAgain => 1,
        Stage::OpeningSftp => 2,
        Stage::RunningSftp => 1,
        Stage::Finished => 1,
    }
}

/// How many times a command in the given stage may still be asked to act.
pub open spec fn tries_left(stage: Stage) -> nat {
    match stage {
        Stage::Ensuring => 2,
        Stage::Running => 1,
        Stage::EnsuringAgain => 1,
        Stage::RunningAgain => 0,
        Stage::OpeningSftp => 1,
        Stage::RunningSftp => 0,
        Stage::Finished => 0,
    }
}

/// A command ends after a bounded number of steps, and asks the driver to
/// act no more often than its stage allows: twice at most over FTP, once
/// over SFTP, and once only for a command that does not try again.
pub proof fn lemma_command_bounded(c: CommandView, script: Seq<Told>)
    ensures
        script.len() >= steps_left(c.stage) ==> command_run(c, script) is Some,
        tries(c, script) <= tries_left(c.stage),
        !retries(c.op) && c.stage == Stage::Ensuring ==> tries(c, script) <= 1,
    decreases script.len(),
{
    if script.len() > 0 {
        let (next, action) = command_step(c, script[0].reply, script[0].client);
        lemma_command_bounded(next, script.drop_first());
    }
}

/// Over FTP, a command that tries again and whose first try the server
/// lets fail with `e`: if the connection cannot be made sure of again, the
/// user is told of `e`; if the second try succeeds, the command succeeds;
/// if it fails with `r`, the user is told of `r`, marked as coming after a
/// reconnect.
pub proof fn lemma_retry_once(c: CommandView, e: Seq<char>, r: Seq<char>, x: Seq<char>)
    requires
        c.stage == Stage::Ensuring,
        retries(c.op),
    ensures
        command_run(
            c,
            seq![
                Told { reply: ReplyView::Done, client: true },
                Told { reply: ReplyView::Failed(e), client: true },
                Told { reply: ReplyView::Failed(x), client: false },
            ],
        ) == Some(Err::<(), Seq<char>>(first_failure_prefix(c.op) + e)),
        command_run(
            c,
            seq![
                Told { reply: ReplyView::Done, client: true },
                Told { reply: ReplyView::Failed(e), client: true },
                Told { reply: ReplyView::Done, client: true },
                Told { reply: ReplyView::Done, client: true },
            ],
        ) == Some(Ok::<(), Seq<char>>(())),
        command_run(
            c,
            seq![
                Told { reply: ReplyView::Done, client: true },
                Told { reply: ReplyView::Failed(e), client: true },
                Told { reply: ReplyView::Done, client: true },
                Told { reply: ReplyView::Failed(r), client: true },
            ],
        ) == Some(Err::<(), Seq<char>>(retry_failure_prefix(c.op) + r)),
{
    reveal_with_fuel(command_run, 5);
    let a = Told { reply: ReplyView::Done, client: true };
    let b = Told { reply: ReplyView::Failed(e), client: true };
    let lost = Told { reply: ReplyView::Failed(x), client: false };
    let s1 = seq![a, b, lost];
    assert(s1.drop_first() =~= seq![b, lost]);
    assert(s1.drop_first().drop_first() =~= seq![lost]);
    let s2 = seq![a, b, a, a];
    assert(s2.drop_first() =~= seq![b, a, a]);
    assert(s2.drop_first().drop_first() =~= seq![a, a]);
    assert(s2.drop_first().drop_first().drop_first() =~= seq![a]);
    let last = Told { reply: ReplyView::Failed(r), client: true };
    let s3 = seq![a, b, a, last];
    assert(s3.drop_first() =~= seq![b, a, last]);
    assert(s3.drop_first().drop_first() =~= seq![a, last]);
    assert(s3.drop_first().drop_first().drop_first() =~= seq![last]);
}

/// A command that has not ended well so far has ended well after a step
/// exactly when that step says so.
pub proof fn lemma_succeeded_with_finish(c: CommandView, reply: ReplyView, client: bool)
    requires
        !c.succeeded,
    ensures
        command_step(c, reply, client).0.succeeded <==> command_step(c, reply, client).1
            == ActionView::Finish(Ok(())),
{
}

/// A first try that the local disk lets fail ends the command: the user is
/// told of the error, and whatever the driver tells after that, nothing is
/// tried again.
pub proof fn lemma_local_failure_ends(c: CommandView, e: Seq<char>, after: Seq<Told>)
    requires
        c.stage == Stage::Ensuring,
    ensures
        ({
            let script = seq![
                Told { reply: ReplyView::Done, client: true },
                Told { reply: ReplyView::LocalFailed(e), client: true },
            ] + after;
            &&& command_run(c, script) == Some(
                Err::<(), Seq<char>>(first_failure_prefix(c.op) + e),
            )
            &&& tries(c, script) == 1
        }),
{
    reveal_with_fuel(command_run, 3);
    reveal_with_fuel(tries, 3);
    let a = Told { reply: ReplyView::Done, client: true };
    let b = Told { reply: ReplyView::LocalFailed(e), client: true };
    let script = seq![a, b] + after;
    assert(script[0] == a);
    assert(script.drop_first()[0] == b);
}

/// A remote command under way.
#[derive(Debug)]
pub struct RemoteCommand {
    op: Operation,
    stage: Stage,
    first_error: String,
    path: String,
    other_path: String,
    succeeded: bool,
}

impl View for RemoteCommand {
    type V = CommandView;

    closed spec fn view(&self) -> CommandView {
        CommandView {
            op: self.op,
            stage: self.stage,
            first_error: self.first_error@,
            path: self.path@,
            other_path: self.other_path@,
            succeeded: self.succeeded,
        }
    }
}

/// What stands before the error of a failed first try.
fn first_prefix_of(op: Operation) -> (s: &'static str)
    ensures
        s@ == first_failure_prefix(op),
{
    match op {
        Operation::List => "Failed to list directory via MLSD: ",
        Operation::Delete => "Failed to delete remote item: ",
        Operation::Rename => "Failed to rename remote item: ",
        Operation::CreateDirectory => "Failed to create remote directory: ",
        Operation::CreateFile => "Failed to create remote file: ",
        Operation::Upload => "Failed to upload: ",
        Operation::Download => "Failed to download: ",
        Operation::ReadText => "FTP retr failed: ",
        Operation::WriteText => "",
        Operation::ReadBinary => "",
        Operation::Search => "",
        Operation::MoveToLocal => "Failed to download file during move: ",
        Operation::MoveToRemote => "Failed to upload file during move: ",
    }
}

/// What stands before the error of a failed second try.
fn retry_prefix_of(op: Operation) -> (s: &'static str)
    ensures
        s@ == retry_failure_prefix(op),
{
    match op {
        Operation::List => "Failed after reconnect: ",
        Operation::Delete => "Failed to delete after reconnect: ",
        Operation::Rename => "Failed to rename after reconnect: ",
        Operation::CreateDirectory => "Failed to create directory after reconnect: ",
        Operation::CreateFile => "Failed to create file after reconnect: ",
        Operation::Upload => "Failed to upload after reconnect: ",
        Operation::Download => "Failed to download after reconnect: ",
        _ => first_prefix_of(op),
    }
}

/// What stands before the error of an SFTP transport that did not open.
fn sftp_connect_prefix_of(op: Operation) -> (s: &'static str)
    ensures
        s@ == sftp_connect_prefix(op),
{
    match op {
        Operation::List => "Failed to connect SFTP for listing: ",
        Operation::Delete => "Failed to connect SFTP for deletion: ",
        Operation::Rename => "Failed to connect SFTP for rename: ",
        Operation::CreateDirectory => "Failed to connect SFTP for directory creation: ",
        Operation::CreateFile => "Failed to connect SFTP for file creation: ",
        Operation::Upload => "Failed to connect SFTP for upload: ",
        Operation::Download => "Failed to connect SFTP for download: ",
        Operation::ReadText => "SFTP connection failed: ",
        Operation::WriteText => "SFTP connection failed: ",
        Operation::ReadBinary => "SFTP connection failed: ",
        Operation::Search => "",
        Operation::MoveToLocal => "Failed to download file during move: ",
        Operation::MoveToRemote => "Failed to upload file during move: ",
    }
}

/// What stands before the error of a failed action over SFTP.
fn sftp_failure_prefix_of(op: Operation) -> (s: &'static str)
    ensures
        s@ == sftp_failure_prefix(op),
{
    match op {
        Operation::List => "Failed to list SFTP directory: ",
        Operation::Delete => "Failed to delete remote item: ",
        Operation::Rename => "Failed to rename SFTP item: ",
        Operation::CreateDirectory => "Failed to create SFTP directory: ",
        Operation::CreateFile => "Failed to create SFTP file: ",
        Operation::Upload => "Failed to upload via SFTP: ",
        Operation::Download => "Failed to download via SFTP: ",
        Operation::ReadText => "SFTP read failed: ",
        Operation::WriteText => "SFTP write failed: ",
        Operation::ReadBinary => "SFTP read failed: ",
        Operation::Search => "",
        Operation::MoveToLocal => "Failed to download file during move: ",
        Operation::MoveToRemote => "Failed to upload file during move: ",
    }
}

/// Whether a command acts a second time after a reconnect.
pub fn tries_again(op: Operation) -> (r: bool)
    ensures
        r == retries(op),
{
    match op {
        Operation::List
        | Operation::Delete
        | Operation::Rename
        | Operation::CreateDirectory
        | Operation::CreateFile
        | Operation::Upload
        | Operation::Download => true,
        _ => false,
    }
}

/// `prefix` followed by `error`.
fn prefixed(prefix: &str, error: &str) -> (s: String)
    ensures
        s@ == prefix@ + error@,
{
    let mut text: Vec<char> = Vec::new();
    push_str_chars(&mut text, prefix);
    push_str_chars(&mut text, error);
    string_of(&text)
}

impl RemoteCommand {
    /// A command about the remote path `path`, which is made absolute, and
    /// a second path that is kept as given. Returns the command and the
    /// first thing to do.
    pub fn begin(
        op: Operation,
        protocol: Option<ConnectionProtocol>,
        path: &str,
        other_path: String,
    ) -> (r: (RemoteCommand, CommandAction))
        ensures
            r.0@ == (CommandView {
                op,
                stage: first_action(protocol).0,
                first_error: Seq::empty(),
                path: normalize_spec(path@),
                other_path: other_path@,
                succeeded: false,
            }),
            r.1@ == first_action(protocol).1,
    {
        let sftp = match protocol {
            Some(ConnectionProtocol::SFTP) => true,
            _ => false,
        };
        let command = RemoteCommand {
            op,
            stage: if sftp {
                Stage::OpeningSftp
            } else {
                Stage::Ensuring
            },
            first_error: String::new(),
            path: normalize_remote_path(path),
            other_path,
            succeeded: false,
        };
        let action = if sftp {
            CommandAction::OpenSftp
        } else {
            CommandAction::EnsureConnected
        };
        (command, action)
    }

    /// The command.
    pub fn operation(&self) -> (op: Operation)
        ensures
            op == self@.op,
    {
        self.op
    }

    /// Where the command stands.
    pub fn stage(&self) -> (stage: Stage)
        ensures
            stage == self@.stage,
    {
        self.stage
    }

    /// The remote path that the command is about.
    pub fn path(&self) -> (p: String)
        ensures
            p@ == self@.path,
    {
        self.path.clone()
    }

    /// The second path of the command, or the query of a search.
    pub fn other_path(&self) -> (p: String)
        ensures
            p@ == self@.other_path,
    {
        self.other_path.clone()
    }

    /// Whether the command has ended well.
    pub fn succeeded(&self) -> (r: bool)
        ensures
            r == self@.succeeded,
    {
        self.succeeded
    }

    /// The error of the first try, kept for whoever wants to know what
    /// went wrong before a second try was made.
    pub fn first_error(&self) -> (e: String)
        ensures
            e@ == self@.first_error,
    {
        self.first_error.clone()
    }

    /// Ends the command with the error of a failed try behind `prefix`.
    fn finish_with(&mut self, prefix: &str, error: &str) -> (action: CommandAction)
        ensures
            final(self)@ == (CommandView { stage: Stage::Finished, ..old(self)@ }),
            action@ == ActionView::Finish(Err(prefix@ + error@)),
    {
        self.stage = Stage::Finished;
        CommandAction::Finish(Err(prefixed(prefix, error)))
    }

    /// Takes note of how the last thing went and says what to do next.
    pub fn advance(&mut self, reply: Reply, client: bool) -> (action: CommandAction)
        ensures
            (final(self)@, action@) == command_step(old(self)@, reply@, client),
    {
        let (done, from_server, error) = match reply {
            Reply::Done => (true, false, String::new()),
            Reply::Failed(e) => (false, true, e),
            Reply::LocalFailed(e) => (false, false, e),
        };
        proof {
            assert(error@ == error_of(reply@));
        }
        match self.stage {
            Stage::Ensuring => {
                if !done {
                    self.stage = Stage::Finished;
                    CommandAction::Finish(Err(error))
                } else if client {
                    self.stage = Stage::Running;
                    CommandAction::Run
                } else {
                    self.stage = Stage::Finished;
                    CommandAction::Finish(Err(string_of(&chars_of("Not connected"))))
                }
            },
            Stage::Running => {
                if done {
                    self.stage = Stage::Finished;
                    self.succeeded = true;
                    CommandAction::Finish(Ok(()))
                } else if from_server && tries_again(self.op) {
                    self.stage = Stage::EnsuringAgain;
                    self.first_error = error;
                    CommandAction::EnsureConnected
                } else {
                    let action = self.finish_with(first_prefix_of(self.op), error.as_str());
                    self.first_error = error;
                    action
                }
            },
            Stage::EnsuringAgain => {
                if done && client {
                    self.stage = Stage::RunningAgain;
                    CommandAction::Run
                } else {
                    let first = self.first_error.clone();
                    self.finish_with(first_prefix_of(self.op), first.as_str())
                }
            },
            Stage::RunningAgain => {
                if done {
                    self.stage = Stage::Finished;
                    self.succeeded = true;
                    CommandAction::Finish(Ok(()))
                } else {
                    self.finish_with(retry_prefix_of(self.op), error.as_str())
                }
            },
            Stage::OpeningSftp => {
                if done {
                    self.stage = Stage::RunningSftp;
                    CommandAction::RunSftp
                } else {
                    self.finish_with(sftp_connect_prefix_of(self.op), error.as_str())
                }
            },
            Stage::RunningSftp => {
                if done {
                    self.stage = Stage::Finished;
                    self.succeeded = true;
                    CommandAction::Finish(Ok(()))
                } else {
                    self.finish_with(sftp_failure_prefix_of(self.op), error.as_str())
                }
            },
            Stage::Finished => CommandAction::Finish(
                Err(string_of(&chars_of("No operation in progress"))),
            ),
        }
    }
}

/// What stands before the error when a command has failed on the local
/// side: on a local file or directory, or in the local half of a move.
pub open spec fn local_failure_prefix(op: Operation) -> Seq<char> {
    match op {
        Operation::List => "Failed to read local directory: "@,
        Operation::Delete => "Failed to delete local item: "@,
        Operation::Rename => "Failed to rename local item: "@,
        Operation::CreateDirectory => "Failed to create local directory: "@,
        Operation::CreateFile => "Failed to create local file: "@,
        Operation::MoveToLocal => "File downloaded but failed to delete remote: "@,
        Operation::MoveToRemote => "File uploaded but failed to delete local: "@,
        _ => ""@,
    }
}

/// The reason given when a command has failed on the local side with the
/// error `error`.
pub fn local_failure(op: Operation, error: &str) -> (s: String)
    ensures
        s@ == local_failure_prefix(op) + error@,
{
    let prefix = match op {
        Operation::List => "Failed to read local directory: ",
        Operation::Delete => "Failed to delete local item: ",
        Operation::Rename => "Failed to rename local item: ",
        Operation::CreateDirectory => "Failed to create local directory: ",
        Operation::CreateFile => "Failed to create local file: ",
        Operation::MoveToLocal => "File downloaded but failed to delete remote: ",
        Operation::MoveToRemote => "File uploaded but failed to delete local: ",
        _ => "",
    };
    prefixed(prefix, error)
}

/// The reason given when the bytes of a remote file stopped coming.
pub fn stream_failure(error: &str) -> (s: String)
    ensures
        s@ == "Failed to read stream: "@ + error@,
{
    prefixed("Failed to read stream: ", error)
}

/// The command about `path` and `other_path` as it begins over
/// `protocol`, with the first thing to do.
pub open spec fn begun(
    op: Operation,
    protocol: Option<ConnectionProtocol>,
    path: Seq<char>,
    other_path: Seq<char>,
) -> (CommandView, ActionView) {
    (
        CommandView {
            op,
            stage: first_action(protocol).0,
            first_error: Seq::empty(),
            path: normalize_spec(path),
            other_path,
            succeeded: false,
        },
        first_action(protocol).1,
    )
}

/// The view of a command that has begun, where it is remote.
pub open spec fn begun_view(r: Option<(RemoteCommand, CommandAction)>) -> Option<
    (CommandView, ActionView),
> {
    match r {
        Some((command, action)) => Some((command@, action@)),
        None => None,
    }
}

/// A command that is remote or local: remote, it begins as `begun` says;
/// local, there is nothing to plan.
pub open spec fn begun_if(
    is_remote: bool,
    op: Operation,
    protocol: Option<ConnectionProtocol>,
    path: Seq<char>,
    other_path: Seq<char>,
) -> Option<(CommandView, ActionView)> {
    if is_remote {
        Some(begun(op, protocol, path, other_path))
    } else {
        None
    }
}

/// Begins a command where it is remote.
fn begin_if(is_remote: bool, op: Operation, protocol: Option<ConnectionProtocol>, path: &str) -> (r:
    Option<(RemoteCommand, CommandAction)>)
    ensures
        begun_view(r) == begun_if(is_remote, op, protocol, path@, Seq::empty()),
{
    if is_remote {
        Some(RemoteCommand::begin(op, protocol, path, String::new()))
    } else {
        None
    }
}

/// Begins the listing of the remote directory `path`.
pub fn list_remote_files(path: &str, protocol: Option<ConnectionProtocol>) -> (r: (
    RemoteCommand,
    CommandAction,
))
    ensures
        (r.0@, r.1@) == begun(Operation::List, protocol, path@, Seq::empty()),
{
    RemoteCommand::begin(Operation::List, protocol, path, String::new())
}

/// Begins the deletion of `path`; `None` means that the path is local.
/// Each time the command acts it makes one try, which `begin_try` begins.
pub fn delete_file(path: &str, is_remote: bool, protocol: Option<ConnectionProtocol>) -> (r: Option<
    (RemoteCommand, CommandAction),
>)
    ensures
        begun_view(r) == begun_if(is_remote, Operation::Delete, protocol, path@, Seq::empty()),
{
    begin_if(is_remote, Operation::Delete, protocol, path)
}

/// Begins the renaming of `old_path` to `new_path`, both made absolute;
/// `None` means that the paths are local.
pub fn rename_file(
    old_path: &str,
    new_path: &str,
    is_remote: bool,
    protocol: Option<ConnectionProtocol>,
) -> (r: Option<(RemoteCommand, CommandAction)>)
    ensures
        begun_view(r) == begun_if(
            is_remote,
            Operation::Rename,
            protocol,
            old_path@,
            normalize_spec(new_path@),
        ),
{
    if is_remote {
        Some(
            RemoteCommand::begin(
                Operation::Rename,
                protocol,
                old_path,
                normalize_remote_path(new_path),
            ),
        )
    } else {
        None
    }
}

/// Begins the making of the directory `path`; `None` means that the path
/// is local.
pub fn create_directory(path: &str, is_remote: bool, protocol: Option<ConnectionProtocol>) -> (r:
    Option<(RemoteCommand, CommandAction)>)
    ensures
        begun_view(r) == begun_if(
            is_remote,
            Operation::CreateDirectory,
            protocol,
            path@,
            Seq::empty(),
        ),
{
    begin_if(is_remote, Operation::CreateDirectory, protocol, path)
}

/// Begins the making of the empty file `path`; `None` means that the path
/// is local.
pub fn create_file(path: &str, is_remote: bool, protocol: Option<ConnectionProtocol>) -> (r: Option<
    (RemoteCommand, CommandAction),
>)
    ensures
        begun_view(r) == begun_if(is_remote, Operation::CreateFile, protocol, path@, Seq::empty()),
{
    begin_if(is_remote, Operation::CreateFile, protocol, path)
}

/// Begins the upload of the local path `local_path` to `remote_path`.
pub fn upload_file(
    local_path: String,
    remote_path: &str,
    protocol: Option<ConnectionProtocol>,
) -> (r: (RemoteCommand, CommandAction))
    ensures
        (r.0@, r.1@) == begun(Operation::Upload, protocol, remote_path@, local_path@),
{
    RemoteCommand::begin(Operation::Upload, protocol, remote_path, local_path)
}

/// Begins the download of `remote_path` to the local path `local_path`.
pub fn download_file(remote_path: &str, local_path: String, protocol: Option<ConnectionProtocol>)
    -> (r: (RemoteCommand, CommandAction))
    ensures
        (r.0@, r.1@) == begun(Operation::Download, protocol, remote_path@, local_path@),
{
    RemoteCommand::begin(Operation::Download, protocol, remote_path, local_path)
}

/// Begins the reading of the text file `path`; `None` means that the path
/// is local.
pub fn read_text_file(path: &str, is_remote: bool, protocol: Option<ConnectionProtocol>) -> (r:
    Option<(RemoteCommand, CommandAction)>)
    ensures
        begun_view(r) == begun_if(is_remote, Operation::ReadText, protocol, path@, Seq::empty()),
{
    begin_if(is_remote, Operation::ReadText, protocol, path)
}

/// Begins the writing of the text file `path`; `None` means that the path
/// is local.
pub fn write_text_file(path: &str, is_remote: bool, protocol: Option<ConnectionProtocol>) -> (r:
    Option<(RemoteCommand, CommandAction)>)
    ensures
        begun_view(r) == begun_if(is_remote, Operation::WriteText, protocol, path@, Seq::empty()),
{
    begin_if(is_remote, Operation::WriteText, protocol, path)
}

/// Begins the reading of the file `path` as bytes; `None` means that the
/// path is local.
pub fn read_binary_file(path: &str, is_remote: bool, protocol: Option<ConnectionProtocol>) -> (r:
    Option<(RemoteCommand, CommandAction)>)
    ensures
        begun_view(r) == begun_if(is_remote, Operation::ReadBinary, protocol, path@, Seq::empty()),
{
    begin_if(is_remote, Operation::ReadBinary, protocol, path)
}

/// Begins a search for `query` below `path`; `None` means that the path is
/// local. The command keeps the query in the place of its second path.
/// Every search looks into the directories below, whatever is asked for.
pub fn search_files(
    path: &str,
    query: String,
    is_remote: bool,
    _recursive: bool,
    protocol: Option<ConnectionProtocol>,
) -> (r: Option<(RemoteCommand, CommandAction)>)
    ensures
        begun_view(r) == begun_if(is_remote, Operation::Search, protocol, path@, query@),
{
    if is_remote {
        Some(RemoteCommand::begin(Operation::Search, protocol, path, query))
    } else {
        None
    }
}

/// Begins a move between the two sides with its transfer. From the
/// server, `source_path` is remote and is made absolute; to the server,
/// `dest_path` is. A move always goes over the FTP connection. What
/// follows the transfer is for `move_cleanup` to say.
pub fn move_file(source_path: String, dest_path: String, is_remote_source: bool) -> (r: (
    RemoteCommand,
    CommandAction,
))
    ensures
        (r.0@, r.1@) == if is_remote_source {
            begun(Operation::MoveToLocal, None, source_path@, dest_path@)
        } else {
            begun(Operation::MoveToRemote, None, dest_path@, source_path@)
        },
{
    if is_remote_source {
        RemoteCommand::begin(Operation::MoveToLocal, None, source_path.as_str(), dest_path)
    } else {
        RemoteCommand::begin(Operation::MoveToRemote, None, dest_path.as_str(), source_path)
    }
}

/// Whether a command in the given stage is acting: over the connection
/// for the first or the second time, or over its own transport.
pub open spec fn is_acting(stage: Stage) -> bool {
    stage == Stage::Running || stage == Stage::RunningAgain || stage == Stage::RunningSftp
}

/// The try that a delete makes each time it acts: one and the same over
/// both protocols and for the first and the second time, it counts the
/// tree at the path of the command and then deletes it. Other commands,
/// and a delete that is not acting, make none.
pub open spec fn try_of(c: CommandView) -> Option<(DeleteTryView, DeleteActionView)> {
    if c.op == Operation::Delete && is_acting(c.stage) {
        Some((delete_try_start(c.path), DeleteActionView::List(c.path)))
    } else {
        None
    }
}

impl RemoteCommand {
    /// Begins the try that this delete makes now that it acts. Returns
    /// the try and the first thing to do.
    pub fn begin_try(&self) -> (r: Option<(DeleteTry, DeleteAction)>)
        ensures
            match r {
                Some((attempt, action)) => try_of(self@) == Some((attempt@, action@)),
                None => try_of(self@) is None,
            },
    {
        let acting = match self.stage {
            Stage::Running | Stage::RunningAgain | Stage::RunningSftp => true,
            _ => false,
        };
        if acting && self.op == Operation::Delete {
            Some(begin_delete_try(self.path.clone()))
        } else {
            None
        }
    }
}

/// What follows the transfer of a move.
#[derive(Debug)]
pub enum MoveNext {
    /// Nothing: the move has ended as the transfer did.
    Finish(Result<(), String>),
    /// The remote source has to go: run this command, which deletes it,
    /// and tell how it ended.
    RemoveRemote(RemoteCommand, CommandAction),
    /// The local source at this path has to go: remove it, and tell how
    /// that went.
    RemoveLocal(String),
}

/// A `MoveNext` with its texts as sequences of characters.
pub enum MoveNextView {
    Finish(Result<(), Seq<char>>),
    RemoveRemote(CommandView, ActionView),
    RemoveLocal(Seq<char>),
}

impl View for MoveNext {
    type V = MoveNextView;

    open spec fn view(&self) -> MoveNextView {
        match self {
            MoveNext::Finish(Ok(())) => MoveNextView::Finish(Ok(())),
            MoveNext::Finish(Err(e)) => MoveNextView::Finish(Err(e@)),
            MoveNext::RemoveRemote(command, action) => MoveNextView::RemoveRemote(
                command@,
                action@,
            ),
            MoveNext::RemoveLocal(path) => MoveNextView::RemoveLocal(path@),
        }
    }
}

/// The view of how something ended.
pub open spec fn ending_view(r: Result<(), String>) -> Result<(), Seq<char>> {
    match r {
        Ok(()) => Ok(()),
        Err(e) => Err(e@),
    }
}

/// What follows the transfer of a move that ended as `transfer` says: a
/// failed transfer ends the move with its reason and the source stays; after
/// a transfer that went well the source has to go, from the server by a
/// delete over the FTP connection, from the local disk by a removal.
pub open spec fn after_transfer(
    source_path: Seq<char>,
    is_remote_source: bool,
    transfer: Result<(), Seq<char>>,
) -> MoveNextView {
    match transfer {
        Err(reason) => MoveNextView::Finish(Err(reason)),
        Ok(()) => if is_remote_source {
            MoveNextView::RemoveRemote(
                begun(Operation::Delete, None, source_path, Seq::empty()).0,
                begun(Operation::Delete, None, source_path, Seq::empty()).1,
            )
        } else {
            MoveNextView::RemoveLocal(source_path)
        },
    }
}

/// How a move ends once its source was to go: well if the source is gone,
/// and else with the reason, which says that the copy is there and the
/// source could not be removed. No failure is passed over.
pub open spec fn move_ending(is_remote_source: bool, removal: Result<(), Seq<char>>) -> Result<
    (),
    Seq<char>,
> {
    match removal {
        Ok(()) => Ok(()),
        Err(e) => Err(
            local_failure_prefix(
                if is_remote_source {
                    Operation::MoveToLocal
                } else {
                    Operation::MoveToRemote
                },
            ) + e,
        ),
    }
}

/// Says what follows the transfer of a move of `source_path` that ended
/// as `transfer` says.
pub fn move_cleanup(
    source_path: String,
    is_remote_source: bool,
    transfer: Result<(), String>,
) -> (next: MoveNext)
    ensures
        next@ == after_transfer(source_path@, is_remote_source, ending_view(transfer)),
{
    match transfer {
        Err(reason) => MoveNext::Finish(Err(reason)),
        Ok(()) => {
            if is_remote_source {
                let (command, action) = RemoteCommand::begin(
                    Operation::Delete,
                    None,
                    source_path.as_str(),
                    String::new(),
                );
                MoveNext::RemoveRemote(command, action)
            } else {
                MoveNext::RemoveLocal(source_path)
            }
        },
    }
}

/// Says how a move ends once the removal of its source has ended as
/// `removal` says.
pub fn move_result(is_remote_source: bool, removal: Result<(), String>) -> (r: Result<(), String>)
    ensures
        ending_view(r) == move_ending(is_remote_source, ending_view(removal)),
{
    match removal {
        Ok(()) => Ok(()),
        Err(e) => {
            let op = if is_remote_source {
                Operation::MoveToLocal
            } else {
                Operation::MoveToRemote
            };
            Err(local_failure(op, e.as_str()))
        },
    }
}

} // verus!
