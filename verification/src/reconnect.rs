//! Opening a dropped connection again: a bounded number of attempts with a
//! growing pause between them.
//!
//! A server that cannot be reached is tried again; a server that turns the
//! credentials down is not. The engine decides; whoever drives it sleeps
//! and connects. `Reconnect` says what to do next, and is told how each
//! attempt ended.

use crate::sizes::pow2;
use crate::text::{chars_of, decimal, push_decimal, push_range, push_str_chars, string_of};
use vstd::prelude::*;

verus! {

/// The longest pause between two attempts, in milliseconds.
pub const MAX_DELAY_MS: u64 = 10000;

/// How one attempt to connect and log in ended. A failure carries the text
/// of the error.
#[derive(Debug)]
pub enum AttemptOutcome {
    Connected,
    LoginFailed(String),
    ConnectFailed(String),
}

/// An `AttemptOutcome` with its text as a sequence of characters.
pub enum OutcomeView {
    Connected,
    LoginFailed(Seq<char>),
    ConnectFailed(Seq<char>),
}

impl View for AttemptOutcome {
    type V = OutcomeView;

    open spec fn view(&self) -> OutcomeView {
        match self {
            AttemptOutcome::Connected => OutcomeView::Connected,
            AttemptOutcome::LoginFailed(e) => OutcomeView::LoginFailed(e@),
            AttemptOutcome::ConnectFailed(e) => OutcomeView::ConnectFailed(e@),
        }
    }
}

/// What to do next.
#[derive(Debug)]
pub enum ReconnectStep {
    /// Wait `delay_ms` milliseconds, then make the attempt of this number
    /// (the first is number one).
    Attempt { number: u32, delay_ms: u64 },
    /// Stop: no attempt is left, or the server has turned the credentials
    /// down. The text names the number of attempts made and the last
    /// error.
    GiveUp(String),
}

/// A `ReconnectStep` with its text as a sequence of characters.
pub enum StepView {
    Attempt { number: u32, delay_ms: u64 },
    GiveUp(Seq<char>),
}

impl View for ReconnectStep {
    type V = StepView;

    open spec fn view(&self) -> StepView {
        match self {
            ReconnectStep::Attempt { number, delay_ms } => StepView::Attempt {
                number: *number,
                delay_ms: *delay_ms,
            },
            ReconnectStep::GiveUp(m) => StepView::GiveUp(m@),
        }
    }
}

/// The pause before the attempt of the given number, in milliseconds: none
/// before the first, one second before the second, then twice the last
/// each time, but never more than ten seconds.
pub open spec fn backoff_spec(attempt: nat) -> nat {
    if attempt <= 1 {
        0
    } else if 1000 * pow2((attempt - 2) as nat) <= MAX_DELAY_MS {
        1000 * pow2((attempt - 2) as nat)
    } else {
        MAX_DELAY_MS as nat
    }
}

/// The error text for a failed attempt of the given number.
pub open spec fn failure_text(outcome: OutcomeView, attempt: nat) -> Seq<char> {
    match outcome {
        OutcomeView::Connected => Seq::empty(),
        OutcomeView::LoginFailed(e) => "Login failed on attempt "@ + decimal(attempt) + ": "@ + e,
        OutcomeView::ConnectFailed(e) => "Connection failed on attempt "@ + decimal(attempt)
            + ": "@ + e,
    }
}

/// The error text after `attempts` attempts were made in vain.
pub open spec fn give_up_text(attempts: nat, last_error: Seq<char>) -> Seq<char> {
    "Failed to reconnect after "@ + decimal(attempts) + " attempts. Last error: "@ + last_error
}

/// The state of a reconnection: how many attempts may be made, how many
/// were made, the error of the last one, and whether the server has
/// turned the credentials down.
pub struct ReconnectView {
    pub max_attempts: nat,
    pub attempts: nat,
    pub last_error: Seq<char>,
    pub refused: bool,
}

/// Whether another attempt may be made.
pub open spec fn may_attempt(s: ReconnectView) -> bool {
    !s.refused && s.attempts < s.max_attempts
}

/// The step that follows in the given state: another attempt while one is
/// left and the credentials were not turned down, and else the end.
pub open spec fn plan(s: ReconnectView) -> StepView {
    if may_attempt(s) {
        StepView::Attempt {
            number: (s.attempts + 1) as u32,
            delay_ms: backoff_spec(s.attempts + 1) as u64,
        }
    } else {
        StepView::GiveUp(give_up_text(s.attempts, s.last_error))
    }
}

/// The state after the attempt that `plan` asked for has failed. A failed
/// login means that the credentials were turned down.
pub open spec fn after_failure(s: ReconnectView, outcome: OutcomeView) -> ReconnectView {
    ReconnectView {
        max_attempts: s.max_attempts,
        attempts: s.attempts + 1,
        last_error: failure_text(outcome, s.attempts + 1),
        refused: outcome is LoginFailed,
    }
}

/// How a reconnection ends.
pub enum Ending {
    /// The attempt of this number succeeded.
    Connected(nat),
    /// No attempt connected; the text is the error to report.
    GaveUp(Seq<char>),
    /// The outcomes told so far do not decide it.
    Open,
}

/// How a reconnection in state `s` ends when its attempts end as `script`
/// says, one outcome for each attempt in order.
pub open spec fn run(s: ReconnectView, script: Seq<OutcomeView>) -> Ending
    decreases script.len(),
{
    match plan(s) {
        StepView::GiveUp(text) => Ending::GaveUp(text),
        StepView::Attempt { .. } => if script.len() == 0 {
            Ending::Open
        } else if script[0] is Connected {
            Ending::Connected(s.attempts + 1)
        } else {
            run(after_failure(s, script[0]), script.drop_first())
        },
    }
}

/// The state in which a reconnection of at most `max_attempts` attempts
/// begins.
pub open spec fn fresh(max_attempts: nat) -> ReconnectView {
    ReconnectView { max_attempts, attempts: 0, last_error: Seq::empty(), refused: false }
}

/// A reconnection that cannot reach the server at first and connects with
/// the attempt `k + 1`, still within the attempts left, ends connected
/// with that attempt.
pub proof fn lemma_run_connects(s: ReconnectView, script: Seq<OutcomeView>, k: int)
    requires
        0 <= k < script.len(),
        !s.refused,
        s.attempts + k < s.max_attempts,
        script[k] is Connected,
        forall|j: int| 0 <= j < k ==> script[j] is ConnectFailed,
    ensures
        run(s, script) == Ending::Connected((s.attempts + k + 1) as nat),
    decreases k,
{
    if k > 0 {
        let rest = script.drop_first();
        assert(script[0] is ConnectFailed);
        assert forall|j: int| 0 <= j < k - 1 implies rest[j] is ConnectFailed by {
            assert(rest[j] == script[j + 1]);
        }
        lemma_run_connects(after_failure(s, script[0]), rest, k - 1);
    }
}

/// A reconnection that never reaches the server gives up after the last
/// attempt that it may make, and reports the number of the attempts and
/// the error of the last.
pub proof fn lemma_run_gives_up(s: ReconnectView, script: Seq<OutcomeView>)
    requires
        may_attempt(s),
        script.len() >= s.max_attempts - s.attempts,
        forall|j: int| 0 <= j < s.max_attempts - s.attempts ==> script[j] is ConnectFailed,
    ensures
        run(s, script) == Ending::GaveUp(
            give_up_text(
                s.max_attempts,
                failure_text(script[s.max_attempts - s.attempts - 1], s.max_attempts),
            ),
        ),
    decreases s.max_attempts - s.attempts,
{
    let next = after_failure(s, script[0]);
    let rest = script.drop_first();
    assert(script[0] is ConnectFailed);
    assert(run(s, script) == run(next, rest));
    if next.attempts < s.max_attempts {
        assert forall|j: int| 0 <= j < s.max_attempts - next.attempts implies rest[j]
            is ConnectFailed by {
            assert(rest[j] == script[j + 1]);
        }
        lemma_run_gives_up(next, rest);
        assert(rest[s.max_attempts - next.attempts - 1] == script[s.max_attempts - s.attempts
            - 1]);
    }
}

/// A reconnection whose credentials are turned down with the attempt
/// `k + 1` ends there, whatever attempts are left: it reports the number
/// of the attempts made and the error of the login.
pub proof fn lemma_run_stops_at_refusal(s: ReconnectView, script: Seq<OutcomeView>, k: int)
    requires
        0 <= k < script.len(),
        !s.refused,
        s.attempts + k < s.max_attempts,
        script[k] is LoginFailed,
        forall|j: int| 0 <= j < k ==> script[j] is ConnectFailed,
    ensures
        run(s, script) == Ending::GaveUp(
            give_up_text(
                (s.attempts + k + 1) as nat,
                failure_text(script[k], (s.attempts + k + 1) as nat),
            ),
        ),
    decreases k,
{
    let next = after_failure(s, script[0]);
    let rest = script.drop_first();
    assert(run(s, script) == run(next, rest));
    if k > 0 {
        assert(script[0] is ConnectFailed);
        assert forall|j: int| 0 <= j < k - 1 implies rest[j] is ConnectFailed by {
            assert(rest[j] == script[j + 1]);
        }
        assert(rest[k - 1] == script[k]);
        lemma_run_stops_at_refusal(next, rest, k - 1);
    }
}

/// With three attempts allowed, a server that can be reached by the third
/// attempt is reached, with the first attempt that finds it; one that
/// cannot be reached in three attempts gives an error that names the three
/// attempts and the last failure.
pub proof fn lemma_three_attempts(script: Seq<OutcomeView>)
    requires
        script.len() >= 3,
    ensures
        script[0] is Connected ==> run(fresh(3), script) == Ending::Connected(1),
        script[0] is ConnectFailed && script[1] is Connected ==> run(fresh(3), script)
            == Ending::Connected(2),
        script[0] is ConnectFailed && script[1] is ConnectFailed && script[2] is Connected ==> run(
            fresh(3),
            script,
        ) == Ending::Connected(3),
        script[0] is ConnectFailed && script[1] is ConnectFailed && script[2] is ConnectFailed
            ==> run(fresh(3), script) == Ending::GaveUp(
            give_up_text(3, failure_text(script[2], 3)),
        ),
{
    if script[0] is Connected {
        lemma_run_connects(fresh(3), script, 0);
    } else if script[0] is ConnectFailed {
        if script[1] is Connected {
            lemma_run_connects(fresh(3), script, 1);
        } else if script[1] is ConnectFailed {
            if script[2] is Connected {
                lemma_run_connects(fresh(3), script, 2);
            } else if script[2] is ConnectFailed {
                lemma_run_gives_up(fresh(3), script);
            }
        }
    }
}

/// From the sixth attempt on the pause is the longest one.
proof fn lemma_backoff_cap(attempt: nat)
    requires
        attempt >= 6,
    ensures
        backoff_spec(attempt) == MAX_DELAY_MS,
    decreases attempt,
{
    assert(pow2(4) == 16) by {
        reveal_with_fuel(pow2, 5);
    }
    if attempt > 6 {
        lemma_backoff_cap((attempt - 1) as nat);
        assert(pow2((attempt - 2) as nat) == 2 * pow2((attempt - 3) as nat));
    }
}

/// The pause before the attempt of the given number, in milliseconds.
pub fn backoff_delay_ms(attempt: u32) -> (delay: u64)
    ensures
        delay == backoff_spec(attempt as nat),
        delay <= MAX_DELAY_MS,
{
    proof {
        reveal_with_fuel(pow2, 5);
    }
    if attempt <= 1 {
        0
    } else if attempt == 2 {
        1000
    } else if attempt == 3 {
        2000
    } else if attempt == 4 {
        4000
    } else if attempt == 5 {
        8000
    } else {
        proof {
            lemma_backoff_cap(attempt as nat);
        }
        MAX_DELAY_MS
    }
}

/// A reconnection in progress.
#[derive(Debug)]
pub struct Reconnect {
    max_attempts: u32,
    attempts: u32,
    last_error: String,
    refused: bool,
}

impl View for Reconnect {
    type V = ReconnectView;

    closed spec fn view(&self) -> ReconnectView {
        ReconnectView {
            max_attempts: self.max_attempts as nat,
            attempts: self.attempts as nat,
            last_error: self.last_error@,
            refused: self.refused,
        }
    }
}

impl Reconnect {
    /// Whether no more attempts were made than are allowed.
    #[verifier::type_invariant]
    spec fn within_bounds(&self) -> bool {
        self.attempts <= self.max_attempts
    }

    /// Number of attempts made so far.
    pub fn attempts(&self) -> (n: u32)
        ensures
            n == self@.attempts,
    {
        self.attempts
    }

    /// Whether another attempt may be made.
    pub fn may_go_on(&self) -> (r: bool)
        ensures
            r == may_attempt(self@),
    {
        !self.refused && self.attempts < self.max_attempts
    }

    /// Number of attempts allowed.
    pub fn max_attempts(&self) -> (n: u32)
        ensures
            n == self@.max_attempts,
    {
        self.max_attempts
    }

    /// What to do next: another attempt after its pause, or give up.
    pub fn next_step(&self) -> (step: ReconnectStep)
        ensures
            step@ == plan(self@),
    {
        proof {
            use_type_invariant(self);
        }
        if !self.refused && self.attempts < self.max_attempts {
            ReconnectStep::Attempt {
                number: self.attempts + 1,
                delay_ms: backoff_delay_ms(self.attempts + 1),
            }
        } else {
            let mut text: Vec<char> = Vec::new();
            push_str_chars(&mut text, "Failed to reconnect after ");
            push_decimal(&mut text, self.attempts as u128);
            push_str_chars(&mut text, " attempts. Last error: ");
            let last = chars_of(self.last_error.as_str());
            push_range(&mut text, &last, 0, last.len());
            proof {
                assert(last@.subrange(0, last.len() as int) =~= last@);
                assert(text@ =~= give_up_text(self@.attempts, self@.last_error));
            }
            ReconnectStep::GiveUp(string_of(&text))
        }
    }

    /// Takes note that the attempt asked for has failed. Telling of a
    /// success, or of a failure when no attempt was asked for, changes
    /// nothing.
    pub fn record(&mut self, outcome: &AttemptOutcome)
        ensures
            final(self)@ == if may_attempt(old(self)@) && !(outcome@ is Connected) {
                after_failure(old(self)@, outcome@)
            } else {
                old(self)@
            },
    {
        proof {
            use_type_invariant(&*self);
        }
        if self.refused || self.attempts >= self.max_attempts {
            return ;
        }
        let number = self.attempts + 1;
        let mut text: Vec<char> = Vec::new();
        match outcome {
            AttemptOutcome::Connected => {
                return ;
            },
            AttemptOutcome::LoginFailed(e) => {
                push_str_chars(&mut text, "Login failed on attempt ");
                push_decimal(&mut text, number as u128);
                push_str_chars(&mut text, ": ");
                push_str_chars(&mut text, e.as_str());
                proof {
                    assert(text@ =~= failure_text(outcome@, number as nat));
                }
                self.refused = true;
            },
            AttemptOutcome::ConnectFailed(e) => {
                push_str_chars(&mut text, "Connection failed on attempt ");
                push_decimal(&mut text, number as u128);
                push_str_chars(&mut text, ": ");
                push_str_chars(&mut text, e.as_str());
                proof {
                    assert(text@ =~= failure_text(outcome@, number as nat));
                }
            },
        }
        self.attempts = number;
        self.last_error = string_of(&text);
    }
}

/// Begins a reconnection that may make `max_attempts` attempts.
pub fn reconnect_with_retry(max_attempts: u32) -> (r: Reconnect)
    ensures
        r@ == fresh(max_attempts as nat),
{
    Reconnect { max_attempts, attempts: 0, last_error: String::new(), refused: false }
}

} // verus!
