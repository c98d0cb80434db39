//! The connection: who we are connected to, whether the control connection
//! is held, and what to do to get or keep one.
//!
//! `ConnectionManager` holds the facts and decides. Whoever drives it opens
//! and closes the transports and tells how that went.

use crate::command::{CommandView, Operation, RemoteCommand};
use crate::models::{
    text_outcome, CommandResult, ConnectionInfo, ConnectionInfoView, ConnectionProtocol,
};
use crate::reconnect::{
    after_failure, failure_text, fresh, give_up_text, lemma_three_attempts, may_attempt, plan,
    reconnect_with_retry, run, AttemptOutcome, Ending, OutcomeView, Reconnect, ReconnectStep,
    ReconnectView, StepView,
};
use crate::text::{chars_of, equals_str, push_str_chars, string_of};
use vstd::prelude::*;

verus! {

/// Number of attempts that a reconnection makes before it gives up.
pub const RECONNECT_ATTEMPTS: u32 = 3;

/// Where a connection stands.
#[derive(Clone, Copy, Debug, PartialEq, Eq, Structural)]
pub enum ConnectionState {
    Disconnected,
    Connecting,
    Connected,
    Reconnecting,
}

/// What a manager is in the middle of.
#[derive(Clone, Copy, Debug, PartialEq, Eq, Structural)]
pub enum Pending {
    Nothing,
    Connect,
}

/// The protocol that a word names: `sftp` names SFTP, every other word,
/// and no word, FTP.
pub open spec fn protocol_of(word: Option<Seq<char>>) -> ConnectionProtocol {
    match word {
        Some(w) => if w == "sftp"@ {
            ConnectionProtocol::SFTP
        } else {
            ConnectionProtocol::FTP
        },
        None => ConnectionProtocol::FTP,
    }
}

/// The text of an optional word, or `default` when there is none.
pub open spec fn text_or(word: Option<Seq<char>>, default: Seq<char>) -> Seq<char> {
    match word {
        Some(w) => w,
        None => default,
    }
}

/// Who to connect as and where, from what the user gave: a missing user
/// name is `anonymous`, a missing password `anonymous@`.
pub open spec fn candidate_spec(
    host: Seq<char>,
    port: u16,
    username: Option<Seq<char>>,
    password: Option<Seq<char>>,
    protocol: ConnectionProtocol,
) -> ConnectionInfoView {
    ConnectionInfoView {
        host,
        port,
        username: text_or(username, "anonymous"@),
        password: text_or(password, "anonymous@"@),
        protocol,
    }
}

/// The name of a protocol in messages.
pub open spec fn protocol_name(protocol: ConnectionProtocol) -> Seq<char> {
    match protocol {
        ConnectionProtocol::FTP => "FTP"@,
        ConnectionProtocol::SFTP => "SFTP"@,
    }
}

/// What a connect attempt over `protocol` that ended as `outcome` tells the
/// user: `Ok` with the message of success, or `Err` with the reason, which
/// holds the error of the server or transport word for word.
pub open spec fn connect_message(
    protocol: ConnectionProtocol,
    outcome: OutcomeView,
    suffix: Seq<char>,
) -> Result<Seq<char>, Seq<char>> {
    match outcome {
        OutcomeView::Connected => Ok(protocol_name(protocol) + " Connected successfully"@ + suffix),
        OutcomeView::LoginFailed(e) => match protocol {
            ConnectionProtocol::FTP => Err("FTP Login failed: "@ + e),
            ConnectionProtocol::SFTP => Err("SFTP Connection failed: "@ + e),
        },
        OutcomeView::ConnectFailed(e) => Err(protocol_name(protocol) + " Connection failed: "@ + e),
    }
}

/// The protocols to try for a port, in order: SFTP first on the ports 22
/// and 2222, FTP first on every other port.
pub open spec fn protocol_order_spec(port: u16) -> (ConnectionProtocol, ConnectionProtocol) {
    if port == 22 || port == 2222 {
        (ConnectionProtocol::SFTP, ConnectionProtocol::FTP)
    } else {
        (ConnectionProtocol::FTP, ConnectionProtocol::SFTP)
    }
}

/// The facts that a manager holds.
pub struct ManagerView {
    /// Who we are connected to; kept to connect again.
    pub info: Option<ConnectionInfoView>,
    /// Whether an FTP control connection is held.
    pub client: bool,
    /// The remote directory last listed.
    pub current_path: Seq<char>,
    /// Whether a connect is under way.
    pub pending: Pending,
    /// The reconnection under way, if any.
    pub reconnect: Option<ReconnectView>,
}

/// Where the connection of a manager stands.
pub open spec fn state_of(m: ManagerView) -> ConnectionState {
    if m.reconnect is Some {
        ConnectionState::Reconnecting
    } else if m.pending == Pending::Connect {
        ConnectionState::Connecting
    } else if m.client || (m.info is Some && m.info.unwrap().protocol == ConnectionProtocol::SFTP) {
        ConnectionState::Connected
    } else {
        ConnectionState::Disconnected
    }
}

/// A manager that was never connected.
pub open spec fn idle() -> ManagerView {
    ManagerView {
        info: None,
        client: false,
        current_path: Seq::empty(),
        pending: Pending::Nothing,
        reconnect: None,
    }
}

/// The manager once a connect has begun: the session that was there is
/// gone, and its credentials with it.
pub open spec fn after_begin(m: ManagerView) -> ManagerView {
    ManagerView { info: None, client: false, pending: Pending::Connect, reconnect: None, ..m }
}

/// The manager once a connect with `candidate` has ended as `outcome`. A
/// success stores the candidate and goes to the root directory; a failure
/// leaves the manager without a session.
pub open spec fn after_connect(
    m: ManagerView,
    candidate: ConnectionInfoView,
    outcome: OutcomeView,
) -> ManagerView {
    if outcome is Connected {
        ManagerView {
            info: Some(candidate),
            client: candidate.protocol == ConnectionProtocol::FTP,
            current_path: "/"@,
            pending: Pending::Nothing,
            reconnect: None,
        }
    } else {
        ManagerView { client: false, pending: Pending::Nothing, reconnect: None, ..m }
    }
}

/// The manager after a remote command has ended: a listing that went well
/// makes its path the current one; a failed listing, and every other
/// command, changes nothing.
pub open spec fn after_command(m: ManagerView, command: CommandView) -> ManagerView {
    if command.succeeded && command.op == Operation::List {
        ManagerView { current_path: command.path, ..m }
    } else {
        m
    }
}

/// The manager after a disconnect: no session and no credentials.
pub open spec fn after_disconnect(m: ManagerView) -> ManagerView {
    ManagerView { info: None, client: false, pending: Pending::Nothing, reconnect: None, ..m }
}

/// A connect goes from any state to `Connecting` and from there to
/// `Connected` if it succeeds and to `Disconnected` if it fails; a
/// disconnect leads to `Disconnected` from any state.
pub proof fn lemma_connect_states(
    m: ManagerView,
    candidate: ConnectionInfoView,
    outcome: OutcomeView,
)
    ensures
        state_of(after_begin(m)) == ConnectionState::Connecting,
        state_of(after_connect(after_begin(m), candidate, outcome)) == if outcome is Connected {
            ConnectionState::Connected
        } else {
            ConnectionState::Disconnected
        },
        state_of(after_disconnect(m)) == ConnectionState::Disconnected,
{
}

/// What the driver has to tell while a connection is being ensured.
#[derive(Debug)]
pub enum EnsureEvent {
    /// Nothing yet: the question is being asked.
    Begin,
    /// The liveness probe has come back; `true` when the server answered.
    Probed(bool),
    /// The attempt asked for has ended.
    Attempted(AttemptOutcome),
}

/// An `EnsureEvent` with its texts as sequences of characters.
pub enum EnsureEventView {
    Begin,
    Probed(bool),
    Attempted(OutcomeView),
}

impl View for EnsureEvent {
    type V = EnsureEventView;

    open spec fn view(&self) -> EnsureEventView {
        match self {
            EnsureEvent::Begin => EnsureEventView::Begin,
            EnsureEvent::Probed(alive) => EnsureEventView::Probed(*alive),
            EnsureEvent::Attempted(outcome) => EnsureEventView::Attempted(outcome@),
        }
    }
}

/// What the driver has to do next to ensure a connection.
#[derive(Debug)]
pub enum EnsureStep {
    /// Nothing: the connection can be used.
    Ready,
    /// Send a no-op and tell whether the server answered.
    Probe,
    /// Wait, then connect and log in with these credentials.
    Attempt { info: ConnectionInfo, number: u32, delay_ms: u64 },
    /// Give up; the text is the reason.
    Failed(String),
}

/// An `EnsureStep` with its texts as sequences of characters.
pub enum EnsureStepView {
    Ready,
    Probe,
    Attempt { info: ConnectionInfoView, number: u32, delay_ms: u64 },
    Failed(Seq<char>),
}

impl View for EnsureStep {
    type V = EnsureStepView;

    open spec fn view(&self) -> EnsureStepView {
        match self {
            EnsureStep::Ready => EnsureStepView::Ready,
            EnsureStep::Probe => EnsureStepView::Probe,
            EnsureStep::Attempt { info, number, delay_ms } => EnsureStepView::Attempt {
                info: info@,
                number: *number,
                delay_ms: *delay_ms,
            },
            EnsureStep::Failed(reason) => EnsureStepView::Failed(reason@),
        }
    }
}

/// The reason given when there is neither a connection nor a way to get
/// one.
pub open spec fn no_credentials_text() -> Seq<char> {
    "Not connected and no connection info available"@
}

/// The step that a reconnection in state `r` asks for, and the manager
/// that goes with it.
pub open spec fn reconnect_step(m: ManagerView, r: ReconnectView) -> (ManagerView, EnsureStepView) {
    match plan(r) {
        StepView::Attempt { number, delay_ms } => (
            ManagerView { client: false, reconnect: Some(r), ..m },
            EnsureStepView::Attempt { info: m.info.unwrap(), number, delay_ms },
        ),
        StepView::GiveUp(text) => (
            ManagerView { client: false, reconnect: None, ..m },
            EnsureStepView::Failed("Auto-reconnect failed: "@ + text),
        ),
    }
}

/// What follows when no usable connection is held: a reconnection with
/// the stored credentials, or failure when none are stored.
pub open spec fn start_reconnect(m: ManagerView) -> (ManagerView, EnsureStepView) {
    if m.info is Some {
        reconnect_step(m, fresh(RECONNECT_ATTEMPTS as nat))
    } else {
        (
            ManagerView { client: false, reconnect: None, ..m },
            EnsureStepView::Failed(no_credentials_text()),
        )
    }
}

/// What follows when the question is asked: SFTP needs nothing, a held
/// connection is probed, and without one a reconnection starts.
pub open spec fn ensure_begin(m: ManagerView) -> (ManagerView, EnsureStepView) {
    if m.info is Some && m.info.unwrap().protocol == ConnectionProtocol::SFTP {
        (ManagerView { reconnect: None, ..m }, EnsureStepView::Ready)
    } else if m.client {
        (ManagerView { reconnect: None, ..m }, EnsureStepView::Probe)
    } else {
        start_reconnect(m)
    }
}

/// The manager and the next step after `event`.
///
/// A probe that was answered ends it; one that was not drops the
/// connection and starts a reconnection. An attempt that succeeded ends
/// it with the connection held; one that failed leads to the next
/// attempt or, after the last, to failure. An attempt that nobody asked
/// for counts as the question asked anew.
pub open spec fn ensure_spec(m: ManagerView, event: EnsureEventView) -> (
    ManagerView,
    EnsureStepView,
) {
    match event {
        EnsureEventView::Begin => ensure_begin(m),
        EnsureEventView::Probed(alive) => if alive {
            (ManagerView { reconnect: None, ..m }, EnsureStepView::Ready)
        } else {
            start_reconnect(ManagerView { client: false, ..m })
        },
        EnsureEventView::Attempted(outcome) => match m.reconnect {
            Some(r) => if m.info is None || !may_attempt(r) {
                ensure_begin(ManagerView { reconnect: None, ..m })
            } else if outcome is Connected {
                (ManagerView { client: true, reconnect: None, ..m }, EnsureStepView::Ready)
            } else {
                reconnect_step(m, after_failure(r, outcome))
            },
            None => ensure_begin(m),
        },
    }
}

/// Ensuring a connection moves between the states as it should: while an
/// attempt is asked for the connection is `Reconnecting`; when it is
/// ready, or still to be probed, it is `Connected`; when it has failed it
/// is `Disconnected`.
pub proof fn lemma_ensure_states(m: ManagerView, event: EnsureEventView)
    requires
        m.pending == Pending::Nothing,
        event is Probed ==> m.client,
    ensures
        ({
            let (after, step) = ensure_spec(m, event);
            &&& step is Attempt ==> state_of(after) == ConnectionState::Reconnecting
            &&& step is Ready ==> state_of(after) == ConnectionState::Connected
            &&& step is Probe ==> state_of(after) == ConnectionState::Connected
            &&& step is Failed && !(m.info is Some && m.info.unwrap().protocol
                == ConnectionProtocol::SFTP) ==> state_of(after) == ConnectionState::Disconnected
        }),
{
}

/// How ensuring a connection ends when the probe, if one is asked for,
/// comes back as `alive` and the attempts end as `script` says: `Ok`, or
/// `Err` with the reason; `None` when the outcomes told do not decide it.
pub open spec fn ensure_run(m: ManagerView, alive: bool, script: Seq<OutcomeView>) -> Option<
    Result<(), Seq<char>>,
> {
    let (m1, step) = ensure_begin(m);
    match step {
        EnsureStepView::Probe => {
            let (m2, step2) = ensure_spec(m1, EnsureEventView::Probed(alive));
            attempts_run(m2, step2, script)
        },
        _ => attempts_run(m1, step, script),
    }
}

/// How ensuring a connection ends from the step `step` on, when the
/// attempts still to come end as `script` says.
pub open spec fn attempts_run(m: ManagerView, step: EnsureStepView, script: Seq<OutcomeView>)
    -> Option<Result<(), Seq<char>>>
    decreases script.len(),
{
    match step {
        EnsureStepView::Ready => Some(Ok(())),
        EnsureStepView::Failed(reason) => Some(Err(reason)),
        EnsureStepView::Probe => None,
        EnsureStepView::Attempt { .. } => if script.len() == 0 {
            None
        } else {
            let (m1, next) = ensure_spec(m, EnsureEventView::Attempted(script[0]));
            attempts_run(m1, next, script.drop_first())
        },
    }
}

/// Whether a reconnection with the stored credentials of `m` is under way
/// in state `r`, with an attempt asked for.
pub open spec fn reconnecting(m: ManagerView, r: ReconnectView) -> bool {
    m.info is Some && m.reconnect == Some(r) && may_attempt(r)
}

/// While a reconnection is under way, ensuring the connection ends as the
/// reconnection does: connected when an attempt succeeds, and with the
/// reason of the reconnection when it gives up.
pub proof fn lemma_attempts_follow_reconnect(
    m: ManagerView,
    r: ReconnectView,
    script: Seq<OutcomeView>,
)
    requires
        reconnecting(m, r),
    ensures
        match run(r, script) {
            Ending::Connected(_) => attempts_run(
                m,
                reconnect_step(m, r).1,
                script,
            ) == Some(Ok::<(), Seq<char>>(())),
            Ending::GaveUp(text) => attempts_run(
                m,
                reconnect_step(m, r).1,
                script,
            ) == Some(Err::<(), Seq<char>>("Auto-reconnect failed: "@ + text)),
            Ending::Open => attempts_run(m, reconnect_step(m, r).1, script)
                is None,
        },
    decreases script.len(),
{
    if script.len() > 0 {
        let (m1, next) = ensure_spec(m, EnsureEventView::Attempted(script[0]));
        if script[0] is Connected {
            assert(attempts_run(m1, next, script.drop_first()) == Some(Ok::<(), Seq<char>>(())));
        } else {
            let r1 = after_failure(r, script[0]);
            assert((m1, next) == reconnect_step(m, r1));
            assert(run(r, script) == run(
                r1,
                script.drop_first(),
            ));
            if may_attempt(r1) {
                assert(reconnecting(m1, r1));
                assert(reconnect_step(m1, r1).1 == next);
                lemma_attempts_follow_reconnect(m1, r1, script.drop_first());
            } else {
                assert(run(r1, script.drop_first())
                    == Ending::GaveUp(
                    give_up_text(r1.attempts, r1.last_error),
                ));
                assert(attempts_run(m1, next, script.drop_first()) == Some(
                    Err::<(), Seq<char>>("Auto-reconnect failed: "@ + give_up_text(
                        r1.attempts,
                        r1.last_error,
                    )),
                ));
            }
        }
    }
}

/// A held FTP connection that does not answer the probe, with credentials
/// stored: ensuring the connection succeeds if the server can be reached
/// by the third attempt, and fails, with a reason that names the three
/// attempts and the last error, if it cannot be reached in three.
pub proof fn lemma_ensure_after_dead_probe(m: ManagerView, script: Seq<OutcomeView>)
    requires
        m.client,
        m.info is Some,
        m.info.unwrap().protocol == ConnectionProtocol::FTP,
        script.len() >= 3,
    ensures
        (exists|k: int|
            0 <= k < 3 && script[k] is Connected && forall|j: int|
                0 <= j < k ==> script[j] is ConnectFailed) ==> ensure_run(m, false, script) == Some(
            Ok::<(), Seq<char>>(()),
        ),
        (forall|k: int| 0 <= k < 3 ==> script[k] is ConnectFailed) ==> ensure_run(m, false, script)
            == Some(
            Err::<(), Seq<char>>(
                "Auto-reconnect failed: "@ + give_up_text(
                    3,
                    failure_text(script[2], 3),
                ),
            ),
        ),
{
    let (m1, step) = ensure_begin(m);
    let dropped = ManagerView { client: false, ..m1 };
    let (m2, step2) = start_reconnect(dropped);
    let r = fresh(3);
    let during = ManagerView { client: false, reconnect: Some(r), ..dropped };
    assert(m2 == during);
    assert(reconnecting(during, r));
    assert(reconnect_step(during, r).1 == step2);
    lemma_attempts_follow_reconnect(during, r, script);
    lemma_three_attempts(script);
}

/// Holds what is known of the connection and decides what to do with it.
#[derive(Debug)]
pub struct ConnectionManager {
    info: Option<ConnectionInfo>,
    client: bool,
    current_path: String,
    pending: Pending,
    reconnect: Option<Reconnect>,
}

impl View for ConnectionManager {
    type V = ManagerView;

    closed spec fn view(&self) -> ManagerView {
        ManagerView {
            info: match self.info {
                Some(info) => Some(info@),
                None => None,
            },
            client: self.client,
            current_path: self.current_path@,
            pending: self.pending,
            reconnect: match self.reconnect {
                Some(r) => Some(r@),
                None => None,
            },
        }
    }
}

/// The protocol that the word `word` names.
pub fn parse_protocol(word: Option<&str>) -> (p: ConnectionProtocol)
    ensures
        p == protocol_of(
            match word {
                Some(w) => Some(w@),
                None => None,
            },
        ),
{
    match word {
        Some(w) => {
            let v = chars_of(w);
            if equals_str(&v, "sftp") {
                ConnectionProtocol::SFTP
            } else {
                ConnectionProtocol::FTP
            }
        },
        None => ConnectionProtocol::FTP,
    }
}

/// The protocols to try for a port, in order.
pub fn protocol_order(port: u16) -> (order: (ConnectionProtocol, ConnectionProtocol))
    ensures
        order == protocol_order_spec(port),
{
    if port == 22 || port == 2222 {
        (ConnectionProtocol::SFTP, ConnectionProtocol::FTP)
    } else {
        (ConnectionProtocol::FTP, ConnectionProtocol::SFTP)
    }
}

/// The view of an optional text.
pub open spec fn opt_text(word: Option<String>) -> Option<Seq<char>> {
    match word {
        Some(w) => Some(w@),
        None => None,
    }
}

/// Who to connect as and where, from what the user gave.
pub fn connect_candidate(
    host: String,
    port: u16,
    username: Option<String>,
    password: Option<String>,
    protocol: ConnectionProtocol,
) -> (info: ConnectionInfo)
    ensures
        info@ == candidate_spec(host@, port, opt_text(username), opt_text(password), protocol),
{
    let username = match username {
        Some(u) => u,
        None => string_of(&chars_of("anonymous")),
    };
    let password = match password {
        Some(p) => p,
        None => string_of(&chars_of("anonymous@")),
    };
    ConnectionInfo { host, port, username, password, protocol }
}

/// What a connect attempt over `protocol` that ended as `outcome` tells
/// the user. `auto` adds the note that the protocol was found by trying.
pub fn connect_report(protocol: ConnectionProtocol, outcome: &AttemptOutcome, auto: bool) -> (r:
    CommandResult<String>)
    ensures
        text_outcome(r) == connect_message(
            protocol,
            outcome@,
            if auto {
                " (auto-detected)"@
            } else {
                Seq::empty()
            },
        ),
        r.success == (outcome@ is Connected),
{
    let mut text: Vec<char> = Vec::new();
    let name = match protocol {
        ConnectionProtocol::FTP => "FTP",
        ConnectionProtocol::SFTP => "SFTP",
    };
    match outcome {
        AttemptOutcome::Connected => {
            push_str_chars(&mut text, name);
            push_str_chars(&mut text, " Connected successfully");
            if auto {
                push_str_chars(&mut text, " (auto-detected)");
            }
            proof {
                assert(text@ =~= protocol_name(protocol) + " Connected successfully"@ + if auto {
                    " (auto-detected)"@
                } else {
                    Seq::empty()
                });
            }
            CommandResult::ok(string_of(&text))
        },
        AttemptOutcome::LoginFailed(e) => {
            match protocol {
                ConnectionProtocol::FTP => {
                    push_str_chars(&mut text, "FTP Login failed: ");
                },
                ConnectionProtocol::SFTP => {
                    push_str_chars(&mut text, "SFTP Connection failed: ");
                },
            }
            push_str_chars(&mut text, e.as_str());
            CommandResult::fail(string_of(&text))
        },
        AttemptOutcome::ConnectFailed(e) => {
            push_str_chars(&mut text, name);
            push_str_chars(&mut text, " Connection failed: ");
            push_str_chars(&mut text, e.as_str());
            proof {
                assert(text@ =~= protocol_name(protocol) + " Connection failed: "@ + e@);
            }
            CommandResult::fail(string_of(&text))
        },
    }
}

impl ConnectionManager {
    /// A manager that holds no connection and no credentials.
    pub fn new() -> (m: Self)
        ensures
            m@ == idle(),
    {
        ConnectionManager {
            info: None,
            client: false,
            current_path: String::new(),
            pending: Pending::Nothing,
            reconnect: None,
        }
    }

    /// Where the connection stands.
    pub fn state(&self) -> (s: ConnectionState)
        ensures
            s == state_of(self@),
    {
        if self.reconnect.is_some() {
            ConnectionState::Reconnecting
        } else if self.pending == Pending::Connect {
            ConnectionState::Connecting
        } else if self.client || self.is_sftp() {
            ConnectionState::Connected
        } else {
            ConnectionState::Disconnected
        }
    }

    /// Whether the stored credentials are for SFTP.
    fn is_sftp(&self) -> (r: bool)
        ensures
            r == (self@.info is Some && self@.info.unwrap().protocol == ConnectionProtocol::SFTP),
    {
        match &self.info {
            Some(info) => info.protocol == ConnectionProtocol::SFTP,
            None => false,
        }
    }

    /// The protocol of the stored credentials, if any are stored.
    pub fn protocol(&self) -> (p: Option<ConnectionProtocol>)
        ensures
            p == match self@.info {
                Some(info) => Some(info.protocol),
                None => None,
            },
    {
        match &self.info {
            Some(info) => Some(info.protocol),
            None => None,
        }
    }

    /// The stored credentials, if any.
    pub fn connection_info(&self) -> (r: Option<ConnectionInfo>)
        ensures
            match r {
                Some(info) => self@.info == Some(info@),
                None => self@.info is None,
            },
    {
        match &self.info {
            Some(info) => Some(info.clone()),
            None => None,
        }
    }

    /// Whether an FTP control connection is held.
    pub fn has_client(&self) -> (r: bool)
        ensures
            r == self@.client,
    {
        self.client
    }

    /// The remote directory last listed.
    pub fn current_path(&self) -> (p: String)
        ensures
            p@ == self@.current_path,
    {
        self.current_path.clone()
    }

    /// Takes note that `command` has ended, well or not.
    pub fn finish_command(&mut self, command: &RemoteCommand)
        ensures
            final(self)@ == after_command(old(self)@, command@),
    {
        if command.succeeded() && command.operation() == Operation::List {
            self.current_path = command.path();
        }
    }

    /// Begins a connect: the session that is there has to go, and its
    /// credentials with it.
    pub fn begin_connect(&mut self)
        ensures
            final(self)@ == after_begin(old(self)@),
    {
        self.info = None;
        self.client = false;
        self.pending = Pending::Connect;
        self.reconnect = None;
    }

    /// Ends a connect with `candidate` that went as `outcome` says, and
    /// returns what to tell the user.
    pub fn finish_connect(
        &mut self,
        candidate: ConnectionInfo,
        outcome: &AttemptOutcome,
        auto: bool,
    ) -> (r: CommandResult<String>)
        ensures
            final(self)@ == after_connect(old(self)@, candidate@, outcome@),
            text_outcome(r) == connect_message(
                candidate@.protocol,
                outcome@,
                if auto {
                    " (auto-detected)"@
                } else {
                    Seq::empty()
                },
            ),
            r.success == (outcome@ is Connected),
    {
        let report = connect_report(candidate.protocol, outcome, auto);
        self.pending = Pending::Nothing;
        self.reconnect = None;
        match outcome {
            AttemptOutcome::Connected => {
                self.client = candidate.protocol == ConnectionProtocol::FTP;
                self.info = Some(candidate);
                self.current_path = string_of(&chars_of("/"));
            },
            _ => {
                self.client = false;
            },
        }
        report
    }

    /// Forgets the connection and the credentials. Returns whether a
    /// control connection was held, which the driver should close
    /// politely; that this may fail is of no concern.
    pub fn disconnect(&mut self) -> (quit: bool)
        ensures
            quit == old(self)@.client,
            final(self)@ == after_disconnect(old(self)@),
    {
        let quit = self.client;
        self.client = false;
        self.info = None;
        self.pending = Pending::Nothing;
        self.reconnect = None;
        quit
    }

    /// The step that the reconnection under way asks for, with the
    /// credentials `info`, which are the stored ones.
    fn next_attempt(&mut self, info: ConnectionInfo, reconnect: Reconnect) -> (step: EnsureStep)
        requires
            old(self)@.info == Some(info@),
        ensures
            (final(self)@, step@) == reconnect_step(old(self)@, reconnect@),
    {
        self.client = false;
        match reconnect.next_step() {
            ReconnectStep::Attempt { number, delay_ms } => {
                self.reconnect = Some(reconnect);
                EnsureStep::Attempt { info, number, delay_ms }
            },
            ReconnectStep::GiveUp(text) => {
                self.reconnect = None;
                let mut reason: Vec<char> = Vec::new();
                push_str_chars(&mut reason, "Auto-reconnect failed: ");
                push_str_chars(&mut reason, text.as_str());
                EnsureStep::Failed(string_of(&reason))
            },
        }
    }

    /// Starts a reconnection, or fails when no credentials are stored.
    fn begin_reconnect(&mut self) -> (step: EnsureStep)
        ensures
            (final(self)@, step@) == start_reconnect(old(self)@),
    {
        match self.connection_info() {
            Some(info) => self.next_attempt(info, reconnect_with_retry(RECONNECT_ATTEMPTS)),
            None => {
                self.client = false;
                self.reconnect = None;
                EnsureStep::Failed(
                    string_of(&chars_of("Not connected and no connection info available")),
                )
            },
        }
    }

    /// Asks the question anew.
    fn begin_ensure(&mut self) -> (step: EnsureStep)
        ensures
            (final(self)@, step@) == ensure_begin(old(self)@),
    {
        if self.is_sftp() {
            self.reconnect = None;
            EnsureStep::Ready
        } else if self.client {
            self.reconnect = None;
            EnsureStep::Probe
        } else {
            self.begin_reconnect()
        }
    }

    /// Makes sure that the connection can be used, step by step: call it
    /// with `Begin`, do what it says, and call it again with what came of
    /// it, until it says `Ready` or `Failed`.
    pub fn ensure_connected(&mut self, event: EnsureEvent) -> (step: EnsureStep)
        ensures
            (final(self)@, step@) == ensure_spec(old(self)@, event@),
    {
        match event {
            EnsureEvent::Begin => self.begin_ensure(),
            EnsureEvent::Probed(alive) => {
                if alive {
                    self.reconnect = None;
                    EnsureStep::Ready
                } else {
                    self.client = false;
                    self.begin_reconnect()
                }
            },
            EnsureEvent::Attempted(outcome) => {
                let under_way = self.reconnect.take();
                match (under_way, self.connection_info()) {
                    (Some(mut reconnect), Some(info)) => {
                        if !reconnect.may_go_on() {
                            self.begin_ensure()
                        } else {
                            match outcome {
                                AttemptOutcome::Connected => {
                                    self.client = true;
                                    EnsureStep::Ready
                                },
                                _ => {
                                    reconnect.record(&outcome);
                                    self.next_attempt(info, reconnect)
                                },
                            }
                        }
                    },
                    _ => self.begin_ensure(),
                }
            },
        }
    }
}

/// A connect that finds the protocol by trying: the state between tries.
#[derive(Debug)]
pub struct AutoConnect {
    host: String,
    port: u16,
    username: String,
    password: String,
    tried: u8,
}

/// An `AutoConnect` with its texts as sequences of characters.
pub struct AutoView {
    pub host: Seq<char>,
    pub port: u16,
    pub username: Seq<char>,
    pub password: Seq<char>,
    /// Number of protocols tried so far.
    pub tried: nat,
}

impl View for AutoConnect {
    type V = AutoView;

    closed spec fn view(&self) -> AutoView {
        AutoView {
            host: self.host@,
            port: self.port,
            username: self.username@,
            password: self.password@,
            tried: self.tried as nat,
        }
    }
}

/// What the driver has to do next in a connect that tries the protocols.
#[derive(Debug)]
pub enum AutoStep {
    /// Connect and log in with these credentials, and tell how it went.
    Try(ConnectionInfo),
    /// Done; this is what to tell the user.
    Finished(CommandResult<String>),
}

/// An `AutoStep` with its texts as sequences of characters.
pub enum AutoStepView {
    Try(ConnectionInfoView),
    Finished(Result<Seq<char>, Seq<char>>),
}

impl View for AutoStep {
    type V = AutoStepView;

    open spec fn view(&self) -> AutoStepView {
        match self {
            AutoStep::Try(info) => AutoStepView::Try(info@),
            AutoStep::Finished(r) => AutoStepView::Finished(text_outcome(*r)),
        }
    }
}

/// The credentials of the try of the given index: the first or the second
/// protocol in the order that the port gives.
pub open spec fn auto_candidate(a: AutoView, index: nat) -> ConnectionInfoView {
    ConnectionInfoView {
        host: a.host,
        port: a.port,
        username: a.username,
        password: a.password,
        protocol: if index == 0 {
            protocol_order_spec(a.port).0
        } else {
            protocol_order_spec(a.port).1
        },
    }
}

/// The reason given when no protocol could connect.
pub open spec fn all_failed_text() -> Seq<char> {
    "Failed to connect using any protocol (tried FTP and SFTP)"@
}

/// The state, the manager and the next step after the last try ended as
/// `last` says (`None` before the first try).
///
/// A try that connected ends it: the manager stores its credentials. Else
/// the next protocol is tried, after the session that is there has gone;
/// when both have failed, it ends with the reason that names both.
pub open spec fn auto_spec(a: AutoView, m: ManagerView, last: Option<OutcomeView>) -> (
    AutoView,
    ManagerView,
    AutoStepView,
) {
    if a.tried >= 1 && last == Some(OutcomeView::Connected) {
        let candidate = auto_candidate(a, (a.tried - 1) as nat);
        (
            a,
            after_connect(m, candidate, OutcomeView::Connected),
            AutoStepView::Finished(
                connect_message(candidate.protocol, OutcomeView::Connected, " (auto-detected)"@),
            ),
        )
    } else if a.tried < 2 {
        (
            AutoView { tried: a.tried + 1, ..a },
            after_begin(m),
            AutoStepView::Try(auto_candidate(a, a.tried)),
        )
    } else {
        (
            a,
            ManagerView { pending: Pending::Nothing, ..after_begin(m) },
            AutoStepView::Finished(Err(all_failed_text())),
        )
    }
}

/// How a connect that tries the protocols ends when its tries end as
/// `script` says: the manager and what the user is told; `None` when the
/// outcomes told do not decide it.
pub open spec fn auto_run(
    a: AutoView,
    m: ManagerView,
    last: Option<OutcomeView>,
    script: Seq<OutcomeView>,
) -> Option<(ManagerView, Result<Seq<char>, Seq<char>>)>
    decreases script.len(),
{
    let (a1, m1, step) = auto_spec(a, m, last);
    match step {
        AutoStepView::Finished(r) => Some((m1, r)),
        AutoStepView::Try(_) => if script.len() == 0 {
            None
        } else {
            auto_run(a1, m1, Some(script[0]), script.drop_first())
        },
    }
}

/// The state in which a connect that tries the protocols begins.
pub open spec fn auto_start(
    host: Seq<char>,
    port: u16,
    username: Option<Seq<char>>,
    password: Option<Seq<char>>,
) -> AutoView {
    AutoView {
        host,
        port,
        username: text_or(username, "anonymous"@),
        password: text_or(password, "anonymous@"@),
        tried: 0,
    }
}

/// A connect that tries the protocols takes them in the order that the
/// port gives and stops at the first that connects, whose credentials the
/// manager then holds; when neither connects it fails with the reason that
/// names both, and the manager holds no session and no credentials.
pub proof fn lemma_auto_first_success(a: AutoView, m: ManagerView, script: Seq<OutcomeView>)
    requires
        a.tried == 0,
        script.len() >= 2,
    ensures
        script[0] is Connected ==> auto_run(a, m, None, script) == Some(
            (
                after_connect(after_begin(m), auto_candidate(a, 0), OutcomeView::Connected),
                Ok::<Seq<char>, Seq<char>>(
                    protocol_name(protocol_order_spec(a.port).0)
                        + " Connected successfully"@ + " (auto-detected)"@,
                ),
            ),
        ),
        !(script[0] is Connected) && script[1] is Connected ==> auto_run(a, m, None, script)
            == Some(
            (
                after_connect(after_begin(m), auto_candidate(a, 1), OutcomeView::Connected),
                Ok::<Seq<char>, Seq<char>>(
                    protocol_name(protocol_order_spec(a.port).1)
                        + " Connected successfully"@ + " (auto-detected)"@,
                ),
            ),
        ),
        !(script[0] is Connected) && !(script[1] is Connected) ==> auto_run(a, m, None, script)
            == Some(
            (
                ManagerView {
                    info: None,
                    client: false,
                    pending: Pending::Nothing,
                    reconnect: None,
                    ..m
                },
                Err::<Seq<char>, Seq<char>>(all_failed_text()),
            ),
        ),
{
    let (a1, m1, step1) = auto_spec(a, m, None);
    let s1 = script.drop_first();
    assert(auto_run(a, m, None, script) == auto_run(a1, m1, Some(script[0]), s1));
    let (a2, m2, step2) = auto_spec(a1, m1, Some(script[0]));
    if script[0] is Connected {
        assert(script[0] == OutcomeView::Connected);
    } else {
        assert(s1[0] == script[1]);
        let s2 = s1.drop_first();
        assert(auto_run(a1, m1, Some(script[0]), s1) == auto_run(a2, m2, Some(script[1]), s2));
        if script[1] is Connected {
            assert(script[1] == OutcomeView::Connected);
        }
        assert(after_begin(after_begin(m)) == after_begin(m));
    }
}

/// Begins a connect that finds the protocol by trying: first the one that
/// the port suggests, then the other.
pub fn connect_auto(host: String, port: u16, username: Option<String>, password: Option<String>)
    -> (a: AutoConnect)
    ensures
        a@ == auto_start(host@, port, opt_text(username), opt_text(password)),
{
    let username = match username {
        Some(u) => u,
        None => string_of(&chars_of("anonymous")),
    };
    let password = match password {
        Some(p) => p,
        None => string_of(&chars_of("anonymous@")),
    };
    AutoConnect { host, port, username, password, tried: 0 }
}

impl AutoConnect {
    /// Whether no more protocols were tried than there are.
    #[verifier::type_invariant]
    spec fn within_bounds(&self) -> bool {
        self.tried <= 2
    }

    /// The credentials of the try of the given index.
    fn candidate(&self, index: u8) -> (info: ConnectionInfo)
        ensures
            info@ == auto_candidate(self@, index as nat),
    {
        let order = protocol_order(self.port);
        ConnectionInfo {
            host: self.host.clone(),
            port: self.port,
            username: self.username.clone(),
            password: self.password.clone(),
            protocol: if index == 0 {
                order.0
            } else {
                order.1
            },
        }
    }

    /// Says what to do next. Call it with `None` first, then with the
    /// outcome of each try, until it says `Finished`.
    pub fn advance(
        &mut self,
        manager: &mut ConnectionManager,
        last: Option<AttemptOutcome>,
    ) -> (step: AutoStep)
        ensures
            (final(self)@, final(manager)@, step@) == auto_spec(
                old(self)@,
                old(manager)@,
                match last {
                    Some(o) => Some(o@),
                    None => None,
                },
            ),
    {
        proof {
            use_type_invariant(&*self);
        }
        let connected = match &last {
            Some(AttemptOutcome::Connected) => true,
            _ => false,
        };
        if self.tried >= 1 && connected {
            let candidate = self.candidate(self.tried - 1);
            let report = manager.finish_connect(candidate, &AttemptOutcome::Connected, true);
            AutoStep::Finished(report)
        } else if self.tried < 2 {
            let candidate = self.candidate(self.tried);
            self.tried = self.tried + 1;
            manager.begin_connect();
            AutoStep::Try(candidate)
        } else {
            manager.begin_connect();
            manager.pending = Pending::Nothing;
            AutoStep::Finished(
                CommandResult::fail(
                    string_of(
                        &chars_of("Failed to connect using any protocol (tried FTP and SFTP)"),
                    ),
                ),
            )
        }
    }
}

/// Begins a connect with what the user gave: works out the credentials and
/// the protocol, and has the manager let go of the session that is there.
/// The driver then connects with the credentials returned and hands them,
/// with the outcome, to `ConnectionManager::finish_connect`.
pub fn connect(
    manager: &mut ConnectionManager,
    host: String,
    port: u16,
    username: Option<String>,
    password: Option<String>,
    protocol: Option<String>,
) -> (candidate: ConnectionInfo)
    ensures
        candidate@ == candidate_spec(
            host@,
            port,
            opt_text(username),
            opt_text(password),
            protocol_of(opt_text(protocol)),
        ),
        final(manager)@ == after_begin(old(manager)@),
{
    let protocol = match &protocol {
        Some(word) => parse_protocol(Some(word.as_str())),
        None => parse_protocol(None),
    };
    manager.begin_connect();
    connect_candidate(host, port, username, password, protocol)
}

} // verus!
