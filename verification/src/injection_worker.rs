//! Keeping the text injector alive through permission and tool outages.
//!
//! The injection worker owns the injector on a dedicated thread. While the
//! injector is unavailable it retries creation at a fixed interval; text
//! that arrives while it is unavailable is discarded, including text queued
//! while a successful initialization is in progress, and a failed injection
//! is never replayed. No event carries dictated content.
//!
//! Receiving, creating and injecting are the worker thread's part; it asks
//! [`WorkerState`] what to do at each step. Times are milliseconds on a
//! monotonic clock.
use vstd::prelude::*;

use crate::text;

verus! {

/// Text waiting to be injected, with the time it was queued.
pub struct PendingText {
    pub text: String,
    pub queued_at: u64,
}

impl PendingText {
    /// Text queued at `queued_at`.
    pub fn new(text: String, queued_at: u64) -> (r: Self)
        ensures
            r.text == text,
            r.queued_at == queued_at,
    {
        PendingText { text, queued_at }
    }
}

/// What the worker reports.
#[derive(Clone, Copy, Debug, PartialEq, Eq, Structural)]
pub enum WorkerEvent {
    /// The injector could not be created (reported once per outage).
    Unavailable,
    /// The injector is ready; `recovered` after an outage.
    Ready { recovered: bool },
    /// Text of `chars` characters was injected.
    Injected { chars: usize },
    /// Injecting text of `chars` characters failed.
    InjectionFailed { chars: usize },
}

/// How the worker waits for the next text.
#[derive(Clone, Copy, Debug, PartialEq, Eq, Structural)]
pub enum Wait {
    /// Until text arrives or the channel closes.
    Blocking,
    /// At most this many milliseconds, then retry creating the injector.
    AtMost(u64),
}

/// The worker's state between steps.
#[derive(Clone, Copy, Debug, PartialEq, Eq, Structural)]
pub struct WorkerState {
    /// An injector exists.
    pub ready: bool,
    /// When the current injector finished initializing.
    pub ready_since: Option<u64>,
    /// When creation may be tried again.
    pub retry_at: u64,
    /// An outage was reported and not yet recovered from.
    pub outage_reported: bool,
}

/// The state and report after trying to create the injector at `now`.
pub open spec fn created(s: WorkerState, ok: bool, now: u64, interval: u64) -> (
    WorkerState,
    Option<WorkerEvent>,
) {
    if ok {
        (
            WorkerState { ready: true, ready_since: Some(now), outage_reported: false, ..s },
            Some(WorkerEvent::Ready { recovered: s.outage_reported }),
        )
    } else {
        (
            WorkerState { outage_reported: true, retry_at: (now + interval) as u64, ..s },
            if s.outage_reported {
                None
            } else {
                Some(WorkerEvent::Unavailable)
            },
        )
    }
}

/// Whether text queued at `queued_at` is injected: only with an injector,
/// and only when queued after it became ready.
pub open spec fn accepted(s: WorkerState, queued_at: u64) -> bool {
    s.ready && !(s.ready_since matches Some(since) && queued_at < since)
}

/// The state and report after injecting text of `chars` characters at
/// `now`.
pub open spec fn injected(s: WorkerState, ok: bool, chars: usize, now: u64, interval: u64) -> (
    WorkerState,
    WorkerEvent,
) {
    if ok {
        (s, WorkerEvent::Injected { chars })
    } else {
        (
            WorkerState {
                ready: false,
                ready_since: None,
                outage_reported: true,
                retry_at: (now + interval) as u64,
            },
            WorkerEvent::InjectionFailed { chars },
        )
    }
}

impl WorkerState {
    /// The state of a worker started at `now`: no injector, creation due at
    /// once.
    pub fn new(now: u64) -> (r: Self)
        ensures
            r == (WorkerState {
                ready: false,
                ready_since: None,
                retry_at: now,
                outage_reported: false,
            }),
    {
        WorkerState { ready: false, ready_since: None, retry_at: now, outage_reported: false }
    }

    /// Whether to try creating the injector at `now`.
    pub fn should_create(&self, now: u64) -> (r: bool)
        ensures
            r == (!self.ready && now >= self.retry_at),
    {
        !self.ready && now >= self.retry_at
    }

    /// Records the outcome of creating the injector at `now`.
    pub fn after_create(&mut self, ok: bool, now: u64, retry_interval: u64) -> (r: Option<
        WorkerEvent,
    >)
        requires
            retry_interval > 0,
            now + retry_interval <= u64::MAX,
        ensures
            (*final(self), r) == created(*old(self), ok, now, retry_interval),
    {
        if ok {
            let recovered = self.outage_reported;
            self.ready = true;
            self.ready_since = Some(now);
            self.outage_reported = false;
            Some(WorkerEvent::Ready { recovered })
        } else {
            let first = !self.outage_reported;
            self.outage_reported = true;
            self.retry_at = now + retry_interval;
            if first {
                Some(WorkerEvent::Unavailable)
            } else {
                None
            }
        }
    }

    /// How to wait for text at `now`: blocking with an injector, otherwise
    /// only until the next creation attempt is due.
    pub fn wait(&self, now: u64) -> (r: Wait)
        ensures
            self.ready ==> r == Wait::Blocking,
            !self.ready ==> r == Wait::AtMost(
                if self.retry_at > now {
                    (self.retry_at - now) as u64
                } else {
                    0
                },
            ),
    {
        if self.ready {
            Wait::Blocking
        } else if self.retry_at > now {
            Wait::AtMost(self.retry_at - now)
        } else {
            Wait::AtMost(0)
        }
    }

    /// Whether the received text is to be injected.
    pub fn accepts(&self, pending: &PendingText) -> (r: bool)
        ensures
            r == accepted(*self, pending.queued_at),
    {
        if !self.ready {
            return false;
        }
        match self.ready_since {
            Some(since) => pending.queued_at >= since,
            None => true,
        }
    }

    /// Records the outcome of injecting `pending` at `now`. A failure drops
    /// the injector: the text is not replayed (injection may have partly
    /// happened) and creation is retried after the interval.
    pub fn after_inject(&mut self, ok: bool, pending: &PendingText, now: u64, retry_interval: u64) -> (r:
        WorkerEvent)
        requires
            retry_interval > 0,
            now + retry_interval <= u64::MAX,
        ensures
            (*final(self), r) == injected(
                *old(self),
                ok,
                pending.text@.len() as usize,
                now,
                retry_interval,
            ),
    {
        let chars = text::chars_of(pending.text.as_str()).len();
        if ok {
            WorkerEvent::Injected { chars }
        } else {
            self.ready = false;
            self.ready_since = None;
            self.outage_reported = true;
            self.retry_at = now + retry_interval;
            WorkerEvent::InjectionFailed { chars }
        }
    }
}

/// One thing that happens to the worker, in the order its loop meets them.
#[derive(Clone, Copy, Debug, PartialEq, Eq, Structural)]
pub enum WorkerInput {
    /// Creating the injector was tried at `started` and ended at `now`,
    /// successfully when `ok`.
    Created { ok: bool, started: u64, now: u64 },
    /// Text of `chars` characters queued at `queued_at` was received; if it
    /// is injected, injection ends at `now`, successfully when `ok`.
    Received { queued_at: u64, chars: usize, ok: bool, now: u64 },
}

/// `input` is a creation the worker makes in state `s`: there is no
/// injector and the retry time has come.
pub open spec fn creates(s: WorkerState, input: WorkerInput) -> bool {
    input matches WorkerInput::Created { ok, started, now } && !s.ready && started >= s.retry_at
}

/// The time at which `input` ended.
pub open spec fn input_end(input: WorkerInput) -> u64 {
    match input {
        WorkerInput::Created { ok, started, now } => now,
        WorkerInput::Received { queued_at, chars, ok, now } => now,
    }
}

/// The state after `input`, and whether `input` was text that got injected.
/// Creation is only tried without an injector once the retry time has
/// come; received text is injected only when accepted.
pub open spec fn worker_step(s: WorkerState, input: WorkerInput, interval: u64) -> (
    WorkerState,
    bool,
) {
    match input {
        WorkerInput::Created { ok, started, now } => if creates(s, input) {
            (created(s, ok, now, interval).0, false)
        } else {
            (s, false)
        },
        WorkerInput::Received { queued_at, chars, ok, now } => if accepted(s, queued_at) {
            (injected(s, ok, chars, now, interval).0, true)
        } else {
            (s, false)
        },
    }
}

/// The worker's state before input `n`, starting from `s0`.
pub open spec fn state_before(s0: WorkerState, inputs: Seq<WorkerInput>, interval: u64, n: int) -> WorkerState
    decreases n,
{
    if n <= 0 {
        s0
    } else {
        worker_step(state_before(s0, inputs, interval, n - 1), inputs[n - 1], interval).0
    }
}

/// Input `k` is text that the worker injects.
pub open spec fn injects(s0: WorkerState, inputs: Seq<WorkerInput>, interval: u64, k: int) -> bool {
    worker_step(state_before(s0, inputs, interval, k), inputs[k], interval).1
}

/// Input `j` is a successful creation that took effect, and the injector it
/// created is still the one in use before input `n`.
pub open spec fn in_use_since(
    s0: WorkerState,
    inputs: Seq<WorkerInput>,
    interval: u64,
    j: int,
    n: int,
) -> bool {
    &&& 0 <= j < n
    &&& inputs[j] matches WorkerInput::Created { ok, started, now } && ok
    &&& creates(state_before(s0, inputs, interval, j), inputs[j])
    &&& forall|m: int|
        j < m <= n ==> #[trigger] state_before(s0, inputs, interval, m).ready
            && state_before(s0, inputs, interval, m).ready_since == Some(inputs[j]->Created_now)
}

proof fn lemma_ready_has_origin(s0: WorkerState, inputs: Seq<WorkerInput>, interval: u64, n: int)
    requires
        !s0.ready,
        0 <= n <= inputs.len(),
    ensures
        state_before(s0, inputs, interval, n).ready ==> exists|j: int|
            #[trigger] in_use_since(s0, inputs, interval, j, n),
    decreases n,
{
    if n > 0 {
        lemma_ready_has_origin(s0, inputs, interval, n - 1);
        let prev = state_before(s0, inputs, interval, n - 1);
        let cur = state_before(s0, inputs, interval, n);
        if cur.ready {
            if prev.ready {
                let j = choose|j: int| #[trigger] in_use_since(s0, inputs, interval, j, n - 1);
                assert(cur == prev);
                assert forall|m: int| j < m <= n implies #[trigger] state_before(
                    s0,
                    inputs,
                    interval,
                    m,
                ).ready && state_before(s0, inputs, interval, m).ready_since == Some(
                    inputs[j]->Created_now,
                ) by {
                    if m < n {
                        assert(state_before(s0, inputs, interval, m).ready);
                    }
                }
                assert(in_use_since(s0, inputs, interval, j, n));
            } else {
                assert(in_use_since(s0, inputs, interval, n - 1, n));
            }
        }
    }
}

/// Text reaches the injector only if it was queued no earlier than the
/// moment the injector in use was created: text queued during an outage,
/// or while the successful creation was running, is never injected later.
/// Every input is handled once, in order, so each text is injected at most
/// once.
pub proof fn lemma_injected_text_is_newer_than_injector(
    inputs: Seq<WorkerInput>,
    start: u64,
    interval: u64,
    k: int,
)
    requires
        0 <= k < inputs.len(),
        injects(
            WorkerState { ready: false, ready_since: None, retry_at: start, outage_reported: false },
            inputs,
            interval,
            k,
        ),
    ensures
        ({
            let s0 = WorkerState {
                ready: false,
                ready_since: None,
                retry_at: start,
                outage_reported: false,
            };
            exists|j: int|
                #[trigger] in_use_since(s0, inputs, interval, j, k) && inputs[k]->queued_at
                    >= inputs[j]->Created_now
        }),
{
    let s0 = WorkerState { ready: false, ready_since: None, retry_at: start, outage_reported: false };
    lemma_ready_has_origin(s0, inputs, interval, k);
    let j = choose|j: int| #[trigger] in_use_since(s0, inputs, interval, j, k);
    assert(state_before(s0, inputs, interval, k).ready);
    assert(in_use_since(s0, inputs, interval, j, k) && inputs[k]->queued_at >= inputs[j]->Created_now);
}

/// What the worker reports for `input`: the outcome of a creation it
/// tried, or of an injection it made.
pub open spec fn worker_report(s: WorkerState, input: WorkerInput, interval: u64) -> Option<
    WorkerEvent,
> {
    match input {
        WorkerInput::Created { ok, started, now } => if creates(s, input) {
            created(s, ok, now, interval).1
        } else {
            None
        },
        WorkerInput::Received { queued_at, chars, ok, now } => if accepted(s, queued_at) {
            Some(injected(s, ok, chars, now, interval).1)
        } else {
            None
        },
    }
}

/// Input `j` is a failure that took effect: a failed creation, or a failed
/// injection.
pub open spec fn failure_at(s0: WorkerState, inputs: Seq<WorkerInput>, interval: u64, j: int) -> bool {
    let s = state_before(s0, inputs, interval, j);
    match inputs[j] {
        WorkerInput::Created { ok, started, now } => !ok && creates(s, inputs[j]),
        WorkerInput::Received { queued_at, chars, ok, now } => !ok && accepted(s, queued_at),
    }
}

/// Input `j` is a successful creation that took effect.
pub open spec fn success_at(s0: WorkerState, inputs: Seq<WorkerInput>, interval: u64, j: int) -> bool {
    inputs[j] matches WorkerInput::Created { ok, started, now } && ok && creates(
        state_before(s0, inputs, interval, j),
        inputs[j],
    )
}

/// Some failure happened before input `n` and no creation succeeded after
/// it.
pub open spec fn failed_since_success(
    s0: WorkerState,
    inputs: Seq<WorkerInput>,
    interval: u64,
    n: int,
) -> bool {
    exists|j: int|
        0 <= j < n && #[trigger] failure_at(s0, inputs, interval, j) && forall|m: int|
            j < m < n ==> !#[trigger] success_at(s0, inputs, interval, m)
}

proof fn lemma_outage_flag(s0: WorkerState, inputs: Seq<WorkerInput>, interval: u64, n: int)
    requires
        !s0.outage_reported,
        0 <= n <= inputs.len(),
    ensures
        state_before(s0, inputs, interval, n).outage_reported == failed_since_success(
            s0,
            inputs,
            interval,
            n,
        ),
    decreases n,
{
    if n > 0 {
        let k = n - 1;
        lemma_outage_flag(s0, inputs, interval, k);
        if success_at(s0, inputs, interval, k) {
            assert(!state_before(s0, inputs, interval, n).outage_reported);
            if failed_since_success(s0, inputs, interval, n) {
                let j = choose|j: int|
                    0 <= j < n && #[trigger] failure_at(s0, inputs, interval, j) && forall|m: int|
                        j < m < n ==> !#[trigger] success_at(s0, inputs, interval, m);
                if j < k {
                    assert(!success_at(s0, inputs, interval, k));
                }
            }
        } else if failure_at(s0, inputs, interval, k) {
            assert(state_before(s0, inputs, interval, n).outage_reported);
            assert(0 <= k < n && failure_at(s0, inputs, interval, k) && forall|m: int|
                k < m < n ==> !#[trigger] success_at(s0, inputs, interval, m));
        } else {
            assert(state_before(s0, inputs, interval, n).outage_reported == state_before(
                s0,
                inputs,
                interval,
                k,
            ).outage_reported);
            if failed_since_success(s0, inputs, interval, k) {
                let j = choose|j: int|
                    0 <= j < k && #[trigger] failure_at(s0, inputs, interval, j) && forall|m: int|
                        j < m < k ==> !#[trigger] success_at(s0, inputs, interval, m);
                assert(forall|m: int| j < m < n ==> !#[trigger] success_at(s0, inputs, interval, m));
            }
            if failed_since_success(s0, inputs, interval, n) {
                let j = choose|j: int|
                    0 <= j < n && #[trigger] failure_at(s0, inputs, interval, j) && forall|m: int|
                        j < m < n ==> !#[trigger] success_at(s0, inputs, interval, m);
                assert(j < k);
                assert(forall|m: int| j < m < k ==> !#[trigger] success_at(s0, inputs, interval, m));
            }
        }
    }
}

/// Over any run of the worker from its start: a successful creation
/// reports `Ready { recovered }` with `recovered` exactly when a failure
/// happened since the previous successful creation; a failed creation
/// reports `Unavailable` exactly when none did (an outage is reported
/// once); every injection reports its outcome with the text's length.
pub proof fn lemma_reports_over_a_run(
    inputs: Seq<WorkerInput>,
    start: u64,
    interval: u64,
    k: int,
)
    requires
        0 <= k < inputs.len(),
    ensures
        ({
            let s0 = WorkerState {
                ready: false,
                ready_since: None,
                retry_at: start,
                outage_reported: false,
            };
            let r = worker_report(state_before(s0, inputs, interval, k), inputs[k], interval);
            &&& success_at(s0, inputs, interval, k) ==> r == Some(
                WorkerEvent::Ready { recovered: failed_since_success(s0, inputs, interval, k) },
            )
            &&& failure_at(s0, inputs, interval, k) && inputs[k] is Created ==> (r == Some(
                WorkerEvent::Unavailable,
            ) <==> !failed_since_success(
                s0,
                inputs,
                interval,
                k,
            )) && (r is None <==> failed_since_success(s0, inputs, interval, k))
            &&& match inputs[k] {
                WorkerInput::Received { queued_at, chars, ok, now } => accepted(
                    state_before(s0, inputs, interval, k),
                    queued_at,
                ) ==> r == Some(
                    if ok {
                        WorkerEvent::Injected { chars }
                    } else {
                        WorkerEvent::InjectionFailed { chars }
                    },
                ),
                WorkerInput::Created { .. } => true,
            }
        }),
{
    let s0 = WorkerState { ready: false, ready_since: None, retry_at: start, outage_reported: false };
    lemma_outage_flag(s0, inputs, interval, k);
}

/// The inputs among the first `n` that are injected, in input order.
pub open spec fn delivered(s0: WorkerState, inputs: Seq<WorkerInput>, interval: u64, n: int) -> Seq<int>
    decreases n,
{
    if n <= 0 {
        seq![]
    } else {
        let d = delivered(s0, inputs, interval, n - 1);
        if injects(s0, inputs, interval, n - 1) {
            d.push(n - 1)
        } else {
            d
        }
    }
}

proof fn lemma_delivered(s0: WorkerState, inputs: Seq<WorkerInput>, interval: u64, n: int)
    requires
        0 <= n <= inputs.len(),
    ensures
        ({
            let d = delivered(s0, inputs, interval, n);
            &&& forall|a: int, b: int| 0 <= a < b < d.len() ==> #[trigger] d[a] < #[trigger] d[b]
            &&& forall|a: int| 0 <= a < d.len() ==> 0 <= #[trigger] d[a] < n && injects(s0, inputs, interval, d[a])
            &&& forall|k: int| 0 <= k < n && #[trigger] injects(s0, inputs, interval, k) ==> d.contains(k)
        }),
    decreases n,
{
    if n > 0 {
        lemma_delivered(s0, inputs, interval, n - 1);
        let d0 = delivered(s0, inputs, interval, n - 1);
        let d = delivered(s0, inputs, interval, n);
        if injects(s0, inputs, interval, n - 1) {
            assert(d == d0.push(n - 1));
            assert forall|a: int| 0 <= a < d.len() implies 0 <= #[trigger] d[a] < n && injects(s0, inputs, interval, d[a]) by {
                if a < d0.len() {
                    assert(d[a] == d0[a]);
                }
            }
            assert forall|a: int, b: int| 0 <= a < b < d.len() implies #[trigger] d[a] < #[trigger] d[b] by {
                assert(d[a] == d0[a]);
                if b < d0.len() {
                    assert(d[b] == d0[b]);
                }
            }
            assert forall|k: int| 0 <= k < n && #[trigger] injects(s0, inputs, interval, k) implies d.contains(k) by {
                if k < n - 1 {
                    let i = choose|i: int| 0 <= i < d0.len() && d0[i] == k;
                    assert(d[i] == k);
                } else {
                    assert(d[d.len() - 1] == k);
                }
            }
        }
    }
}

/// Over any run of the worker from its start, the texts that reach the
/// injector are received texts, each injected at most once and in the order
/// they were received, and each was queued no earlier than the moment the
/// injector in use was created; every other received text is discarded.
pub proof fn lemma_each_text_injected_once_in_order(
    inputs: Seq<WorkerInput>,
    start: u64,
    interval: u64,
)
    ensures
        ({
            let s0 = WorkerState {
                ready: false,
                ready_since: None,
                retry_at: start,
                outage_reported: false,
            };
            let d = delivered(s0, inputs, interval, inputs.len() as int);
            &&& forall|a: int, b: int| 0 <= a < b < d.len() ==> #[trigger] d[a] < #[trigger] d[b]
            &&& forall|k: int|
                0 <= k < inputs.len() ==> (#[trigger] injects(s0, inputs, interval, k)
                    <==> d.contains(k))
            &&& forall|a: int|
                0 <= a < d.len() ==> 0 <= #[trigger] d[a] < inputs.len() && inputs[d[a]] is Received
                    && exists|j: int|
                    #[trigger] in_use_since(s0, inputs, interval, j, d[a])
                        && inputs[d[a]]->Received_queued_at >= inputs[j]->Created_now
        }),
{
    let s0 = WorkerState { ready: false, ready_since: None, retry_at: start, outage_reported: false };
    let n = inputs.len() as int;
    lemma_delivered(s0, inputs, interval, n);
    let d = delivered(s0, inputs, interval, n);
    assert forall|k: int| 0 <= k < inputs.len() implies (#[trigger] injects(s0, inputs, interval, k)
        <==> d.contains(k)) by {
        if d.contains(k) {
            let i = choose|i: int| 0 <= i < d.len() && d[i] == k;
            assert(injects(s0, inputs, interval, d[i]));
        }
    }
    assert forall|a: int| 0 <= a < d.len() implies 0 <= #[trigger] d[a] < inputs.len()
        && inputs[d[a]] is Received && exists|j: int|
        #[trigger] in_use_since(s0, inputs, interval, j, d[a])
            && inputs[d[a]]->Received_queued_at >= inputs[j]->Created_now by {
        let k = d[a];
        assert(injects(s0, inputs, interval, k));
        lemma_injected_text_is_newer_than_injector(inputs, start, interval, k);
    }
}

/// Failure `j` is the last failure before input `n`.
pub open spec fn last_failure(s0: WorkerState, inputs: Seq<WorkerInput>, interval: u64, j: int, n: int) -> bool {
    &&& 0 <= j < n
    &&& failure_at(s0, inputs, interval, j)
    &&& forall|m: int| j < m < n ==> !#[trigger] failure_at(s0, inputs, interval, m)
}

proof fn lemma_retry_time(s0: WorkerState, inputs: Seq<WorkerInput>, interval: u64, n: int)
    requires
        0 <= n <= inputs.len(),
    ensures
        forall|j: int|
            #[trigger] last_failure(s0, inputs, interval, j, n) ==> state_before(
                s0,
                inputs,
                interval,
                n,
            ).retry_at == (input_end(inputs[j]) + interval) as u64,
    decreases n,
{
    if n > 0 {
        lemma_retry_time(s0, inputs, interval, n - 1);
        assert forall|j: int| #[trigger] last_failure(s0, inputs, interval, j, n) implies state_before(
            s0,
            inputs,
            interval,
            n,
        ).retry_at == (input_end(inputs[j]) + interval) as u64 by {
            if j < n - 1 {
                assert(!failure_at(s0, inputs, interval, n - 1));
                assert(last_failure(s0, inputs, interval, j, n - 1));
            }
        }
    }
}

/// After a failure the worker waits the retry interval: a creation it
/// makes after its last failure starts no earlier than the interval after
/// that failure ended.
pub proof fn lemma_retry_waits_after_failure(
    inputs: Seq<WorkerInput>,
    start: u64,
    interval: u64,
    j: int,
    k: int,
)
    requires
        0 <= k < inputs.len(),
        last_failure(
            WorkerState { ready: false, ready_since: None, retry_at: start, outage_reported: false },
            inputs,
            interval,
            j,
            k,
        ),
        creates(
            state_before(
                WorkerState { ready: false, ready_since: None, retry_at: start, outage_reported: false },
                inputs,
                interval,
                k,
            ),
            inputs[k],
        ),
    ensures
        inputs[k]->Created_started >= (input_end(inputs[j]) + interval) as u64,
{
    let s0 = WorkerState { ready: false, ready_since: None, retry_at: start, outage_reported: false };
    lemma_retry_time(s0, inputs, interval, k);
}

/// Text queued before the injector became ready is never injected: the
/// outage's backlog is discarded, also text queued while the successful
/// initialization was in progress.
pub proof fn lemma_backlog_discarded(s: WorkerState, now: u64, interval: u64, queued_at: u64)
    requires
        queued_at < now,
    ensures
        !accepted(created(s, true, now, interval).0, queued_at),
{
}

/// An outage is reported once: a failed creation during a reported outage
/// reports nothing, and the outage stays reported.
pub proof fn lemma_outage_reported_once(s: WorkerState, now: u64, interval: u64)
    ensures
        created(s, false, now, interval).0.outage_reported,
        s.outage_reported ==> created(s, false, now, interval).1 is None,
        !s.outage_reported ==> created(s, false, now, interval).1 == Some(
            WorkerEvent::Unavailable,
        ),
{
}

/// After a failed injection the worker recovers: the next successful
/// creation reports `Ready { recovered: true }`, and until then nothing is
/// injected.
pub proof fn lemma_failed_injection_recovers(
    s: WorkerState,
    chars: usize,
    now: u64,
    later: u64,
    interval: u64,
    queued_at: u64,
)
    ensures
        ({
            let f = injected(s, false, chars, now, interval).0;
            &&& !accepted(f, queued_at)
            &&& created(f, true, later, interval).1 == Some(WorkerEvent::Ready { recovered: true })
            &&& !created(created(f, true, later, interval).0, true, later, interval).0.outage_reported
        }),
{
}

/// Without an outage, a fresh worker becomes ready without reporting a
/// recovery, and text queued after that is injected.
pub proof fn lemma_ready_worker_accepts_new_text(now: u64, interval: u64, queued_at: u64)
    requires
        queued_at >= now,
    ensures
        ({
            let s = WorkerState {
                ready: false,
                ready_since: None,
                retry_at: now,
                outage_reported: false,
            };
            &&& created(s, true, now, interval).1 == Some(WorkerEvent::Ready { recovered: false })
            &&& accepted(created(s, true, now, interval).0, queued_at)
        }),
{
}

} // verus!
