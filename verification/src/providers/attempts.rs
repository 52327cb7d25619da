//! The attempts at one request: which payload to send, when to wait and when to
//! give up.
use crate::json::{self, Json, JsonView};
use crate::model::TokenUsage;
use vstd::prelude::*;
use vstd::string::StringExecFns;

verus! {

/// What a caller should do next after a failed attempt.
#[derive(Debug, Clone, Copy, PartialEq, Eq, Structural)]
pub enum FailureKind {
    /// Nothing can succeed: exhausted credits, bad key, blocked workspace.
    Fatal,
    /// The payload is fine; the account is sending too fast. Wait, resend the
    /// *same* payload: switching variants here would only thrash the cache.
    RateLimited,
    /// This payload shape was rejected; the next variant may work.
    NextVariant,
}

/// A failed attempt, tagged with whether trying the next payload variant could
/// possibly help. `retry_after` is in seconds.
#[derive(Debug)]
pub struct AttemptFailure {
    pub report: String,
    pub kind: FailureKind,
    pub retry_after: Option<u64>,
}

/// What a failed attempt says.
pub struct AttemptView {
    pub report: Seq<char>,
    pub kind: FailureKind,
    pub retry_after: Option<u64>,
}

impl View for AttemptFailure {
    type V = AttemptView;

    open spec fn view(&self) -> AttemptView {
        AttemptView { report: self.report@, kind: self.kind, retry_after: self.retry_after }
    }
}

impl AttemptFailure {
    /// Whether no other attempt can succeed.
    pub fn is_fatal(&self) -> (r: bool)
        ensures
            r == (self.kind == FailureKind::Fatal),
    {
        self.kind == FailureKind::Fatal
    }
}

/// A failure with nothing known but its report: another payload may work.
pub open spec fn plain_failure(report: Seq<char>) -> AttemptView {
    AttemptView { report, kind: FailureKind::NextVariant, retry_after: None }
}

impl From<String> for AttemptFailure {
    fn from(report: String) -> (r: Self) {
        AttemptFailure { report, kind: FailureKind::NextVariant, retry_after: None }
    }
}

impl vstd::std_specs::convert::FromSpecImpl<String> for AttemptFailure {
    open spec fn obeys_from_spec() -> bool {
        true
    }

    open spec fn from_spec(report: String) -> AttemptFailure {
        AttemptFailure { report, kind: FailureKind::NextVariant, retry_after: None }
    }
}

/// What an attempt gave.
pub open spec fn attempt_view(r: Result<(String, TokenUsage), AttemptFailure>) -> Result<
    (Seq<char>, TokenUsage),
    AttemptView,
> {
    match r {
        Ok((content, usage)) => Ok((content@, usage)),
        Err(failure) => Err(failure@),
    }
}

/// Retries per payload when the API asks us to slow down.
///
/// The limits are per minute, and a late step can keep an account saturated for
/// minutes at a time. The waits run 15s, 30s, 60s, 120s, 240s, 300s, well past a
/// one-minute window.
pub const MAX_RATE_LIMIT_RETRIES: usize = 6;

/// The first wait, in seconds.
pub const RATE_LIMIT_BASE_DELAY: u64 = 15;

/// The longest wait, in seconds.
pub const RATE_LIMIT_MAX_DELAY: u64 = 300;

/// The wait before retry number `retry` where the API names none: it doubles each
/// time.
pub open spec fn doubling_delay(retry: nat) -> nat
    decreases retry,
{
    if retry == 0 {
        RATE_LIMIT_BASE_DELAY as nat
    } else {
        2 * doubling_delay((retry - 1) as nat)
    }
}

/// The wait before a retry, in seconds: what the API asks for, or the doubling
/// wait, and never more than the longest.
pub open spec fn delay_before(retry_after: Option<u64>, retry: nat) -> nat {
    let wanted = match retry_after {
        Some(seconds) => seconds as nat,
        None => doubling_delay(retry),
    };
    if wanted < RATE_LIMIT_MAX_DELAY {
        wanted
    } else {
        RATE_LIMIT_MAX_DELAY as nat
    }
}

fn wait_before(retry_after: Option<u64>, retry: usize) -> (r: u64)
    requires
        retry < MAX_RATE_LIMIT_RETRIES,
    ensures
        r == delay_before(retry_after, retry as nat),
{
    let mut wanted: u64 = RATE_LIMIT_BASE_DELAY;
    match retry_after {
        Some(seconds) => {
            wanted = seconds;
        },
        None => {
            let mut i: usize = 0;
            while i < retry
                invariant
                    i <= retry < MAX_RATE_LIMIT_RETRIES,
                    wanted == doubling_delay(i as nat),
                    wanted <= 15 * 64,
                    i == 0 ==> wanted <= 15,
                    i == 1 ==> wanted <= 30,
                    i == 2 ==> wanted <= 60,
                    i == 3 ==> wanted <= 120,
                    i == 4 ==> wanted <= 240,
                    i == 5 ==> wanted <= 480,
                decreases retry - i,
            {
                wanted = wanted * 2;
                i += 1;
            }
        },
    }
    if wanted < RATE_LIMIT_MAX_DELAY {
        wanted
    } else {
        RATE_LIMIT_MAX_DELAY
    }
}

/// The attempts at one request: the payloads to stream, then those to send
/// without streaming, each in order.
#[derive(Debug)]
pub struct Attempts {
    streaming: Vec<Json>,
    plain: Vec<Json>,
    in_stream: bool,
    index: usize,
    retries: usize,
    complaint: String,
}

/// The attempts at one request, as a value.
pub struct AttemptsView {
    pub streaming: Seq<JsonView>,
    pub plain: Seq<JsonView>,
    pub in_stream: bool,
    pub index: int,
    pub retries: int,
    pub complaint: Seq<char>,
}

impl View for Attempts {
    type V = AttemptsView;

    closed spec fn view(&self) -> AttemptsView {
        AttemptsView {
            streaming: json::views_of(self.streaming@),
            plain: json::views_of(self.plain@),
            in_stream: self.in_stream,
            index: self.index as int,
            retries: self.retries as int,
            complaint: self.complaint@,
        }
    }
}

/// What to do after a failed attempt.
#[derive(Debug)]
pub enum Verdict {
    /// Wait this many seconds and send the same payload again.
    Wait(u64),
    /// Send the next payload.
    TryNext,
    /// Give up, for this reason.
    GiveUp(String),
}

/// What to do after a failed attempt, as a value.
pub enum VerdictView {
    Wait(nat),
    TryNext,
    GiveUp(Seq<char>),
}

impl View for Verdict {
    type V = VerdictView;

    open spec fn view(&self) -> VerdictView {
        match self {
            Verdict::Wait(seconds) => VerdictView::Wait(*seconds as nat),
            Verdict::TryNext => VerdictView::TryNext,
            Verdict::GiveUp(reason) => VerdictView::GiveUp(reason@),
        }
    }
}

impl AttemptsView {
    /// The payloads of the pass that is on.
    pub open spec fn pass(self) -> Seq<JsonView> {
        if self.in_stream {
            self.streaming
        } else {
            self.plain
        }
    }

    /// Whether there is a payload to send.
    pub open spec fn is_ready(self) -> bool {
        &&& 0 <= self.index < self.pass().len()
        &&& self.plain.len() > 0
        &&& 0 <= self.retries <= MAX_RATE_LIMIT_RETRIES
    }

    /// The payload to send.
    pub open spec fn payload(self) -> JsonView {
        self.pass()[self.index]
    }
}

/// The attempts before the first.
pub open spec fn first_attempt(
    streaming: Seq<JsonView>,
    plain: Seq<JsonView>,
    complaint: Seq<char>,
) -> AttemptsView {
    AttemptsView {
        streaming,
        plain,
        in_stream: streaming.len() > 0,
        index: 0,
        retries: 0,
        complaint,
    }
}

/// What is left to try after a failed attempt, and what to do about it.
pub open spec fn after_failure(state: AttemptsView, failure: AttemptView) -> (
    AttemptsView,
    VerdictView,
) {
    if failure.kind == FailureKind::RateLimited && state.retries < MAX_RATE_LIMIT_RETRIES {
        (
            AttemptsView { retries: state.retries + 1, ..state },
            VerdictView::Wait(delay_before(failure.retry_after, state.retries as nat)),
        )
    } else if failure.kind == FailureKind::Fatal {
        (state, VerdictView::GiveUp(failure.report))
    } else if state.index + 1 < state.pass().len() {
        (AttemptsView { index: state.index + 1, retries: 0, ..state }, VerdictView::TryNext)
    } else if state.in_stream {
        (
            AttemptsView { in_stream: false, index: 0, retries: 0, ..state },
            VerdictView::TryNext,
        )
    } else {
        (state, VerdictView::GiveUp(state.complaint + failure.report))
    }
}

impl Attempts {
    /// The attempts before the first. `complaint` opens the reason for giving up
    /// when the last of them has failed.
    pub fn start(streaming: Vec<Json>, plain: Vec<Json>, complaint: String) -> (r: Attempts)
        requires
            plain@.len() > 0,
        ensures
            r@ == first_attempt(
                json::views_of(streaming@),
                json::views_of(plain@),
                complaint@,
            ),
            r@.is_ready(),
    {
        proof {
            json::lemma_views_of(streaming@);
            json::lemma_views_of(plain@);
        }
        let in_stream = streaming.len() > 0;
        Attempts { streaming, plain, in_stream, index: 0, retries: 0, complaint }
    }

    /// Whether the payload is to be streamed.
    pub fn in_stream(&self) -> (r: bool)
        ensures
            r == self@.in_stream,
    {
        self.in_stream
    }

    /// The number of the payload in its pass.
    pub fn index(&self) -> (r: usize)
        ensures
            r == self@.index,
    {
        self.index
    }

    /// The number of times that the payload was sent again.
    pub fn retries(&self) -> (r: usize)
        ensures
            r == self@.retries,
    {
        self.retries
    }

    /// The payload to send.
    pub fn payload(&self) -> (r: &Json)
        requires
            self@.is_ready(),
        ensures
            r@ == self@.payload(),
    {
        proof {
            json::lemma_views_of(self.streaming@);
            json::lemma_views_of(self.plain@);
        }
        if self.in_stream {
            &self.streaming[self.index]
        } else {
            &self.plain[self.index]
        }
    }

    /// Takes a failure in and says what to do.
    ///
    /// A rate limit is waited out with the same payload. A changed `thinking`
    /// setting would invalidate the cached prefix, so that the next attempt would
    /// send the whole conversation uncached and push the account further past its
    /// limit.
    pub fn failed(&mut self, failure: &AttemptFailure) -> (r: Verdict)
        requires
            old(self)@.is_ready(),
        ensures
            (final(self)@, r@) == after_failure(old(self)@, failure@),
            final(self)@.is_ready(),
    {
        proof {
            json::lemma_views_of(self.streaming@);
            json::lemma_views_of(self.plain@);
        }
        if failure.kind == FailureKind::RateLimited && self.retries < MAX_RATE_LIMIT_RETRIES {
            let seconds = wait_before(failure.retry_after, self.retries);
            self.retries = self.retries + 1;
            return Verdict::Wait(seconds);
        }
        if failure.kind == FailureKind::Fatal {
            return Verdict::GiveUp(failure.report.clone());
        }
        let count = if self.in_stream {
            self.streaming.len()
        } else {
            self.plain.len()
        };
        if self.index + 1 < count {
            self.index = self.index + 1;
            self.retries = 0;
            Verdict::TryNext
        } else if self.in_stream {
            self.in_stream = false;
            self.index = 0;
            self.retries = 0;
            Verdict::TryNext
        } else {
            Verdict::GiveUp(self.complaint.clone().concat(&failure.report))
        }
    }
}

/// The waits where the API names none: fifteen seconds, then twice as long each
/// time, up to five minutes.
pub proof fn law_waits_double_up_to_the_longest()
    ensures
        delay_before(None, 0) == 15,
        delay_before(None, 1) == 30,
        delay_before(None, 2) == 60,
        delay_before(None, 3) == 120,
        delay_before(None, 4) == 240,
        delay_before(None, 5) == 300,
{
    reveal_with_fuel(doubling_delay, 6);
}

/// No wait is longer than the longest, whatever the API asks for.
pub proof fn law_waits_are_bounded(retry_after: Option<u64>, retry: nat)
    ensures
        delay_before(retry_after, retry) <= RATE_LIMIT_MAX_DELAY,
{
}

/// A rate limit changes nothing about what is sent while retries are left.
pub proof fn law_rate_limits_keep_the_payload(state: AttemptsView, failure: AttemptView)
    requires
        failure.kind == FailureKind::RateLimited,
        state.retries < MAX_RATE_LIMIT_RETRIES,
    ensures
        after_failure(state, failure).1 is Wait,
        after_failure(state, failure).0.in_stream == state.in_stream,
        after_failure(state, failure).0.payload() == state.payload(),
{
}

/// A fatal failure ends the attempts at once, with its own report.
pub proof fn law_fatal_failures_end_the_attempts(state: AttemptsView, failure: AttemptView)
    requires
        failure.kind == FailureKind::Fatal,
    ensures
        after_failure(state, failure).1 == VerdictView::GiveUp(failure.report),
{
}

/// The failures that can still come before the attempts are given up.
pub open spec fn failures_left(state: AttemptsView) -> int {
    let payloads_left = state.pass().len() - state.index + if state.in_stream {
        state.plain.len() as int
    } else {
        0
    };
    payloads_left * (MAX_RATE_LIMIT_RETRIES + 1) - state.retries
}

/// The attempts come to an end: each failure after which they go on leaves fewer
/// to come.
pub proof fn law_attempts_come_to_an_end(state: AttemptsView, failure: AttemptView)
    requires
        state.is_ready(),
    ensures
        after_failure(state, failure).1 is GiveUp || 0 < failures_left(
            after_failure(state, failure).0,
        ) < failures_left(state),
{
}

/// The attempts start with the first payload to stream, or with the first to send
/// without streaming where there is none to stream.
pub proof fn law_attempts_start_with_the_first_payload(
    streaming: Seq<JsonView>,
    plain: Seq<JsonView>,
    complaint: Seq<char>,
)
    requires
        plain.len() > 0,
    ensures
        ({
            let state = first_attempt(streaming, plain, complaint);
            &&& state.payload() == if streaming.len() > 0 {
                streaming[0]
            } else {
                plain[0]
            }
            &&& state.in_stream == (streaming.len() > 0)
            &&& state.retries == 0
        }),
{
}

/// A payload that is refused, or that stays rate limited to the last retry, is
/// followed by the next of its pass, then by the first without streaming, and at the
/// end by nothing: the reason for giving up is the complaint and the last report.
pub proof fn law_payloads_are_tried_in_order(state: AttemptsView, failure: AttemptView)
    requires
        state.is_ready(),
        failure.kind == FailureKind::NextVariant || (failure.kind == FailureKind::RateLimited
            && state.retries == 6),
    ensures
        ({
            let (next, verdict) = after_failure(state, failure);
            &&& state.in_stream && state.index + 1 < state.streaming.len() ==> verdict is TryNext
                && next.in_stream && next.payload() == state.streaming[state.index + 1]
            &&& state.in_stream && state.index + 1 == state.streaming.len() ==> verdict is TryNext
                && !next.in_stream && next.payload() == state.plain[0]
            &&& !state.in_stream && state.index + 1 < state.plain.len() ==> verdict is TryNext
                && !next.in_stream && next.payload() == state.plain[state.index + 1]
            &&& !state.in_stream && state.index + 1 == state.plain.len() ==> verdict
                == VerdictView::GiveUp(state.complaint + failure.report)
            &&& verdict is TryNext ==> next.retries == 0
            &&& next.streaming == state.streaming && next.plain == state.plain && next.complaint
                == state.complaint
        }),
{
}

/// A rate limit is waited out for as long as the service asks, up to five minutes,
/// and the retry is counted.
pub proof fn law_services_are_given_the_time_they_ask_for(
    state: AttemptsView,
    failure: AttemptView,
    seconds: u64,
)
    requires
        failure.kind == FailureKind::RateLimited,
        0 <= state.retries < 6,
        failure.retry_after == Some(seconds),
    ensures
        after_failure(state, failure).1 == VerdictView::Wait(
            if seconds <= 300 {
                seconds as nat
            } else {
                300
            },
        ),
        after_failure(state, failure).0.retries == state.retries + 1,
{
}

/// Without a wait asked for, each wait is twice the one before, up to five minutes.
pub proof fn law_waits_grow(retry: nat)
    ensures
        delay_before(None, 0) == 15,
        delay_before(None, retry + 1) == if 2 * delay_before(None, retry) <= 300 {
            2 * delay_before(None, retry)
        } else {
            300
        },
{
    reveal_with_fuel(doubling_delay, 2);
}

} // verus!
