//! Background services: which of them still have to start, what a finished talk fetch or
//! WiFi connection reports, and how long the WebSocket waits before reconnecting.
use vstd::prelude::*;

use crate::config::{RECONNECT_INITIAL_DELAY_MS, RECONNECT_MAX_DELAY_MS};
use crate::state::{apply_diff_spec, AppState, AppStateDiff, DiffModel, StateMode, StateModel};

verus! {

/// Whether the talk is fetched for the first time, or again after the deck changed.
#[derive(Debug, Clone, Copy, PartialEq, Eq, Structural)]
pub enum TalkFetch {
    Initial,
    Reload,
}

/// The life cycle of one background service.
#[derive(Debug, Clone, Copy, PartialEq, Eq, Structural)]
pub enum ServiceState {
    Pending,
    Started,
}

impl Default for ServiceState {
    /// A service that has not started.
    fn default() -> (state: Self)
        ensures
            state == ServiceState::Pending,
    {
        ServiceState::Pending
    }
}

/// The life cycle of the talk fetch and of the WebSocket service.
#[derive(Debug)]
pub struct ServiceTracker {
    api: ServiceState,
    websocket: ServiceState,
}

impl Default for ServiceTracker {
    /// A tracker in which no service has started.
    fn default() -> (tracker: Self)
        ensures
            tracker.api_state() == ServiceState::Pending,
            tracker.websocket_state() == ServiceState::Pending,
    {
        ServiceTracker { api: ServiceState::Pending, websocket: ServiceState::Pending }
    }
}

impl ServiceTracker {
    /// The state of the talk fetch service.
    pub closed spec fn api_state(&self) -> ServiceState {
        self.api
    }

    /// The state of the WebSocket service.
    pub closed spec fn websocket_state(&self) -> ServiceState {
        self.websocket
    }

    /// Whether the talk fetch has not started yet.
    pub fn is_api_pending(&self) -> (pending: bool)
        ensures
            pending == (self.api_state() == ServiceState::Pending),
    {
        self.api == ServiceState::Pending
    }

    /// Whether the WebSocket has not started yet.
    pub fn is_websocket_pending(&self) -> (pending: bool)
        ensures
            pending == (self.websocket_state() == ServiceState::Pending),
    {
        self.websocket == ServiceState::Pending
    }

    /// Records that the talk fetch started.
    pub fn mark_api_started(&mut self)
        ensures
            (final(self).api_state(), final(self).websocket_state()) == tracker_step(
                (old(self).api_state(), old(self).websocket_state()),
                TrackerOp::MarkApi,
            ),
            final(self).api_state() == ServiceState::Started,
            final(self).websocket_state() == old(self).websocket_state(),
    {
        self.api = ServiceState::Started;
    }

    /// Records that the WebSocket started.
    pub fn mark_websocket_started(&mut self)
        ensures
            (final(self).api_state(), final(self).websocket_state()) == tracker_step(
                (old(self).api_state(), old(self).websocket_state()),
                TrackerOp::MarkWebsocket,
            ),
            final(self).websocket_state() == ServiceState::Started,
            final(self).api_state() == old(self).api_state(),
    {
        self.websocket = ServiceState::Started;
    }
}

/// The diff that announces the outcome of a talk fetch: the error of a failed first fetch, the
/// initialised state after a successful first fetch, and nothing for a reload (a failed reload
/// keeps the previous talk).
pub open spec fn talk_fetch_diff_spec(fetch: TalkFetch, failure: Option<Seq<char>>) -> Option<
    DiffModel,
> {
    match fetch {
        TalkFetch::Initial => match failure {
            Some(reason) => Some(DiffModel::Error { message: reason }),
            None => Some(DiffModel::Transition(StateModel::Initialized)),
        },
        TalkFetch::Reload => None,
    }
}

/// The view of an optional string.
pub open spec fn opt_string_view(s: Option<String>) -> Option<Seq<char>> {
    match s {
        Some(s) => Some(s@),
        None => None,
    }
}

/// The view of an optional diff.
pub open spec fn opt_diff_view(d: Option<AppStateDiff>) -> Option<DiffModel> {
    match d {
        Some(d) => Some(d@),
        None => None,
    }
}

/// The diff to publish once a talk fetch finished; `failure` holds the error chain of a failed
/// fetch.
pub fn talk_fetch_diff(fetch: TalkFetch, failure: Option<String>) -> (diff: Option<AppStateDiff>)
    ensures
        opt_diff_view(diff) == talk_fetch_diff_spec(fetch, opt_string_view(failure)),
{
    match fetch {
        TalkFetch::Initial => match failure {
            Some(reason) => Some(AppStateDiff::Error { message: reason }),
            None => Some(AppStateDiff::Transition(AppState::Initialized)),
        },
        TalkFetch::Reload => None,
    }
}

/// The diff that announces the outcome of joining the WiFi network `ssid`; `failure` holds
/// the error chain of a failed attempt.
pub fn wifi_diff(ssid: &str, failure: Option<String>) -> (diff: AppStateDiff)
    ensures
        failure is None ==> diff@ == DiffModel::Transition(StateModel::Connected { ssid: ssid@ }),
        failure matches Some(reason) ==> diff@ == (DiffModel::Error {
            message: "WiFi failed: "@ + reason@,
        }),
{
    match failure {
        None => AppStateDiff::Transition(AppState::Connected { ssid: String::from_str(ssid) }),
        Some(reason) => {
            let mut message = String::from_str("WiFi failed: ");
            message.append(reason.as_str());
            AppStateDiff::Error { message }
        },
    }
}

/// The delay before the next WebSocket reconnection, in milliseconds: after a connection that
/// closed cleanly the backoff starts over; the delay then doubles up to the maximum.
pub fn next_reconnect_delay(delay_ms: u64, closed_cleanly: bool) -> (next_ms: u64)
    ensures
        next_ms == reconnect_delay_spec(
            if closed_cleanly {
                RECONNECT_INITIAL_DELAY_MS as int
            } else {
                delay_ms as int
            },
        ),
{
    let base = if closed_cleanly {
        RECONNECT_INITIAL_DELAY_MS
    } else {
        delay_ms
    };
    if base < RECONNECT_MAX_DELAY_MS / 2 {
        base * 2
    } else {
        RECONNECT_MAX_DELAY_MS
    }
}

/// How long the WebSocket thread sleeps after an attempt, in milliseconds: the initial delay after
/// a connection that closed cleanly, the current backoff delay after a failure.
pub fn reconnect_wait(delay_ms: u64, closed_cleanly: bool) -> (wait_ms: u64)
    ensures
        wait_ms == (if closed_cleanly {
            RECONNECT_INITIAL_DELAY_MS
        } else {
            delay_ms
        }),
{
    if closed_cleanly {
        RECONNECT_INITIAL_DELAY_MS
    } else {
        delay_ms
    }
}

/// Twice `delay`, capped at the maximum reconnection delay.
pub open spec fn reconnect_delay_spec(delay: int) -> int {
    if 2 * delay < RECONNECT_MAX_DELAY_MS {
        2 * delay
    } else {
        RECONNECT_MAX_DELAY_MS as int
    }
}

/// The reconnection delay never exceeds the maximum, and never shrinks below the initial
/// delay once it started there.
pub proof fn lemma_reconnect_delay_bounded(delay: int)
    requires
        RECONNECT_INITIAL_DELAY_MS <= delay <= RECONNECT_MAX_DELAY_MS,
    ensures
        RECONNECT_INITIAL_DELAY_MS <= reconnect_delay_spec(delay) <= RECONNECT_MAX_DELAY_MS,
        delay <= reconnect_delay_spec(delay),
{
}


/// The start-up sequence: a joined network moves the connecting state to connected, a first
/// talk fetch that succeeds moves loading to initialised, and the first slide update starts
/// the presentation.
pub proof fn lemma_startup_sequence(ssid: Seq<char>, current: usize, current_step: usize)
    ensures
        apply_diff_spec(
            StateModel::Connecting { ssid },
            DiffModel::Transition(StateModel::Connected { ssid }),
        ) == (StateModel::Connected { ssid }),
        talk_fetch_diff_spec(TalkFetch::Initial, None) matches Some(diff) && apply_diff_spec(
            StateModel::Loading,
            diff,
        ) == StateModel::Initialized,
        apply_diff_spec(
            StateModel::Initialized,
            DiffModel::UpdateSlide { current, current_step, mode: StateMode::Running },
        ) == (StateModel::Play { current, current_step, mode: StateMode::Running }),
{
}


/// A call that changes a [`ServiceTracker`].
pub enum TrackerOp {
    MarkApi,
    MarkWebsocket,
}

/// The service states after one call.
pub open spec fn tracker_step(states: (ServiceState, ServiceState), op: TrackerOp) -> (
    ServiceState,
    ServiceState,
) {
    match op {
        TrackerOp::MarkApi => (ServiceState::Started, states.1),
        TrackerOp::MarkWebsocket => (states.0, ServiceState::Started),
    }
}

/// The service states after the calls `ops`, from `start`, call by call.
pub open spec fn tracker_run(start: (ServiceState, ServiceState), ops: Seq<TrackerOp>) -> (
    ServiceState,
    ServiceState,
)
    decreases ops.len(),
{
    if ops.len() == 0 {
        start
    } else {
        tracker_step(tracker_run(start, ops.drop_last()), ops.last())
    }
}

/// A service is started after a sequence of calls exactly when it was started before or one of
/// the calls marked it: the states only go from pending to started, never back.
pub proof fn lemma_services_only_start(start: (ServiceState, ServiceState), ops: Seq<TrackerOp>)
    ensures
        (tracker_run(start, ops).0 == ServiceState::Started) <==> (start.0 == ServiceState::Started
            || exists|i: int| 0 <= i < ops.len() && #[trigger] ops[i] is MarkApi),
        (tracker_run(start, ops).1 == ServiceState::Started) <==> (start.1 == ServiceState::Started
            || exists|i: int| 0 <= i < ops.len() && #[trigger] ops[i] is MarkWebsocket),
    decreases ops.len(),
{
    if ops.len() > 0 {
        let prev = ops.drop_last();
        lemma_services_only_start(start, prev);
        assert forall|i: int| 0 <= i < prev.len() implies #[trigger] prev[i] == ops[i] by {}
        if exists|i: int| 0 <= i < prev.len() && #[trigger] prev[i] is MarkApi {
            let i = choose|i: int| 0 <= i < prev.len() && #[trigger] prev[i] is MarkApi;
            assert(ops[i] is MarkApi);
        }
        if exists|i: int| 0 <= i < prev.len() && #[trigger] prev[i] is MarkWebsocket {
            let i = choose|i: int| 0 <= i < prev.len() && #[trigger] prev[i] is MarkWebsocket;
            assert(ops[i] is MarkWebsocket);
        }
        if exists|i: int| 0 <= i < ops.len() && #[trigger] ops[i] is MarkApi {
            let i = choose|i: int| 0 <= i < ops.len() && #[trigger] ops[i] is MarkApi;
            if i < prev.len() {
                assert(prev[i] is MarkApi);
            }
        }
        if exists|i: int| 0 <= i < ops.len() && #[trigger] ops[i] is MarkWebsocket {
            let i = choose|i: int| 0 <= i < ops.len() && #[trigger] ops[i] is MarkWebsocket;
            if i < prev.len() {
                assert(prev[i] is MarkWebsocket);
            }
        }
        assert(ops[ops.len() - 1] == ops.last());
    }
}

/// The sleeps of the WebSocket thread after attempts whose outcomes are `closed_cleanly`, and the
/// backoff delay after them: each sleep is [`reconnect_wait`] of the delay, and each next delay
/// is [`next_reconnect_delay`].
pub open spec fn reconnect_schedule(closed_cleanly: Seq<bool>) -> (Seq<int>, int)
    decreases closed_cleanly.len(),
{
    if closed_cleanly.len() == 0 {
        (Seq::empty(), RECONNECT_INITIAL_DELAY_MS as int)
    } else {
        let (sleeps, delay) = reconnect_schedule(closed_cleanly.drop_last());
        let sleep = if closed_cleanly.last() {
            RECONNECT_INITIAL_DELAY_MS as int
        } else {
            delay
        };
        (sleeps.push(sleep), reconnect_delay_spec(sleep))
    }
}

/// The WebSocket thread sleeps 5 s after a clean close and after the first attempt, and otherwise
/// twice its previous sleep, up to 60 s: every sleep lies between 5 s and 60 s, and failures in a
/// row sleep 5, 10, 20, 40, 60, 60, ... seconds.
pub proof fn lemma_reconnect_schedule(closed_cleanly: Seq<bool>)
    ensures
        ({
            let (sleeps, delay) = reconnect_schedule(closed_cleanly);
            &&& sleeps.len() == closed_cleanly.len()
            &&& forall|k: int| 0 <= k < sleeps.len() ==> RECONNECT_INITIAL_DELAY_MS <= #[trigger] sleeps[k]
                <= RECONNECT_MAX_DELAY_MS
            &&& forall|k: int|
                0 <= k < sleeps.len() ==> #[trigger] sleeps[k] == if closed_cleanly[k] || k == 0 {
                    RECONNECT_INITIAL_DELAY_MS as int
                } else {
                    reconnect_delay_spec(sleeps[k - 1])
                }
            &&& delay == if sleeps.len() == 0 {
                RECONNECT_INITIAL_DELAY_MS as int
            } else {
                reconnect_delay_spec(sleeps.last())
            }
            &&& RECONNECT_INITIAL_DELAY_MS <= delay <= RECONNECT_MAX_DELAY_MS
        }),
    decreases closed_cleanly.len(),
{
    if closed_cleanly.len() > 0 {
        let prev = closed_cleanly.drop_last();
        lemma_reconnect_schedule(prev);
        let (sleeps0, delay0) = reconnect_schedule(prev);
        let (sleeps, delay) = reconnect_schedule(closed_cleanly);
        assert forall|k: int| 0 <= k < sleeps.len() implies RECONNECT_INITIAL_DELAY_MS
            <= #[trigger] sleeps[k] <= RECONNECT_MAX_DELAY_MS && sleeps[k] == if closed_cleanly[k]
            || k == 0 {
            RECONNECT_INITIAL_DELAY_MS as int
        } else {
            reconnect_delay_spec(sleeps[k - 1])
        } by {
            if k < sleeps0.len() {
                assert(sleeps[k] == sleeps0[k]);
                assert(closed_cleanly[k] == prev[k]);
                if k > 0 {
                    assert(sleeps[k - 1] == sleeps0[k - 1]);
                }
            } else {
                assert(closed_cleanly[k] == closed_cleanly.last());
                if k > 0 && !closed_cleanly[k] {
                    assert(sleeps[k - 1] == sleeps0.last());
                }
            }
        }
    }
}

} // verus!
