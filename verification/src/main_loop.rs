//! The decisions of the main loop: which state diffs to apply, when failing hardware puts the
//! application in the error state, and which background service to start next.
use std::sync::mpsc;
use vstd::prelude::*;

use crate::config::MAX_HARDWARE_FAILURES;
use crate::services::{ServiceState, ServiceTracker, TalkFetch};
use crate::state::{apply_diff_spec, AppState, AppStateDiff, DiffModel, StateManager, StateModel};

verus! {

/// Counts consecutive hardware failures, for graceful degradation.
pub struct FailureTracker {
    display_failures: u8,
    led_failures: u8,
    max_failures: u8,
}

/// One more failure, saturating at the largest count.
pub open spec fn bump(count: u8) -> u8 {
    if count < u8::MAX {
        (count + 1) as u8
    } else {
        u8::MAX
    }
}

impl FailureTracker {
    /// Consecutive display failures.
    pub closed spec fn display_count(&self) -> u8 {
        self.display_failures
    }

    /// Consecutive LED failures.
    pub closed spec fn led_count(&self) -> u8 {
        self.led_failures
    }

    /// The count at which failures are too many.
    pub closed spec fn limit(&self) -> u8 {
        self.max_failures
    }

    /// A tracker without failures that gives up at `max_failures` in a row.
    pub fn new(max_failures: u8) -> (tracker: Self)
        ensures
            tracker.display_count() == 0,
            tracker.led_count() == 0,
            tracker.limit() == max_failures,
    {
        FailureTracker { display_failures: 0, led_failures: 0, max_failures }
    }

    /// Records a display failure; `true` when there were too many in a row.
    pub fn record_display_failure(&mut self) -> (too_many: bool)
        ensures
            final(self).display_count() == bump(old(self).display_count()),
            final(self).led_count() == old(self).led_count(),
            final(self).limit() == old(self).limit(),
            too_many == (final(self).display_count() >= final(self).limit()),
    {
        self.display_failures = if self.display_failures < u8::MAX {
            self.display_failures + 1
        } else {
            u8::MAX
        };
        self.display_failures >= self.max_failures
    }

    /// Records an LED failure; `true` when there were too many in a row.
    pub fn record_led_failure(&mut self) -> (too_many: bool)
        ensures
            final(self).led_count() == bump(old(self).led_count()),
            final(self).display_count() == old(self).display_count(),
            final(self).limit() == old(self).limit(),
            too_many == (final(self).led_count() >= final(self).limit()),
    {
        self.led_failures = if self.led_failures < u8::MAX {
            self.led_failures + 1
        } else {
            u8::MAX
        };
        self.led_failures >= self.max_failures
    }

    /// Records a successful redraw.
    pub fn reset_display(&mut self)
        ensures
            final(self).display_count() == 0,
            final(self).led_count() == old(self).led_count(),
            final(self).limit() == old(self).limit(),
    {
        self.display_failures = 0;
    }

    /// Records a successful LED update.
    pub fn reset_led(&mut self)
        ensures
            final(self).led_count() == 0,
            final(self).display_count() == old(self).display_count(),
            final(self).limit() == old(self).limit(),
    {
        self.led_failures = 0;
    }
}

/// Whether two states are equal.
fn states_equal(a: &AppState, b: &AppState) -> (equal: bool)
    ensures
        equal == (a@ == b@),
{
    match (a, b) {
        (AppState::Booting, AppState::Booting) => true,
        (AppState::Connecting { ssid: x }, AppState::Connecting { ssid: y }) => *x == *y,
        (AppState::Connected { ssid: x }, AppState::Connected { ssid: y }) => *x == *y,
        (AppState::Loading, AppState::Loading) => true,
        (AppState::Initialized, AppState::Initialized) => true,
        (
            AppState::Play { current: c1, current_step: s1, mode: m1 },
            AppState::Play { current: c2, current_step: s2, mode: m2 },
        ) => *c1 == *c2 && *s1 == *s2 && *m1 == *m2,
        (AppState::Error { message: x }, AppState::Error { message: y }) => *x == *y,
        _ => false,
    }
}

/// Whether two diffs are equal.
fn diffs_equal(a: &AppStateDiff, b: &AppStateDiff) -> (equal: bool)
    ensures
        equal == (a@ == b@),
{
    match (a, b) {
        (AppStateDiff::Transition(x), AppStateDiff::Transition(y)) => states_equal(x, y),
        (
            AppStateDiff::UpdateSlide { current: c1, current_step: s1, mode: m1 },
            AppStateDiff::UpdateSlide { current: c2, current_step: s2, mode: m2 },
        ) => *c1 == *c2 && *s1 == *s2 && *m1 == *m2,
        (AppStateDiff::Blink, AppStateDiff::Blink) => true,
        (AppStateDiff::TalkReload, AppStateDiff::TalkReload) => true,
        (AppStateDiff::Error { message: x }, AppStateDiff::Error { message: y }) => *x == *y,
        _ => false,
    }
}

/// Whether a diff is an event that must be handled every time it arrives.
pub open spec fn is_event(diff: DiffModel) -> bool {
    diff is Blink || diff is TalkReload
}

/// Whether a diff repeats the last applied one and can be dropped.
pub open spec fn is_repeat(last: Option<DiffModel>, diff: DiffModel) -> bool {
    !is_event(diff) && last == Some(diff)
}

/// What the main loop does with a received diff.
#[derive(Debug, Clone, Copy, PartialEq, Eq, Structural)]
pub enum DiffDecision {
    /// A repeat of the last diff: nothing happens.
    Skip,
    /// The diff was applied; the loop starts a blink when asked, then redraws.
    Apply { start_blink: bool },
}

/// The background service the main loop starts next.
#[derive(Debug, Clone, Copy, PartialEq, Eq, Structural)]
pub enum ServiceAction {
    Idle,
    SpawnApi(TalkFetch),
    SpawnWebSocket,
}

/// The state the main loop decides on.
pub struct MainLoop {
    state_manager: StateManager,
    last_diff: Option<AppStateDiff>,
    services: ServiceTracker,
    failures: FailureTracker,
    reload_requested: bool,
}

/// The view of an optional diff.
pub open spec fn opt_diff(d: Option<AppStateDiff>) -> Option<DiffModel> {
    match d {
        Some(d) => Some(d@),
        None => None,
    }
}

impl MainLoop {
    /// The application state.
    pub closed spec fn state(&self) -> StateModel {
        self.state_manager@
    }

    /// The last diff applied from the channel.
    pub closed spec fn last(&self) -> Option<DiffModel> {
        opt_diff(self.last_diff)
    }

    /// The state of the talk fetch service.
    pub closed spec fn api(&self) -> ServiceState {
        self.services.api_state()
    }

    /// The state of the WebSocket service.
    pub closed spec fn websocket(&self) -> ServiceState {
        self.services.websocket_state()
    }

    /// Consecutive display failures.
    pub closed spec fn display_failures(&self) -> u8 {
        self.failures.display_count()
    }

    /// Consecutive LED failures.
    pub closed spec fn led_failures(&self) -> u8 {
        self.failures.led_count()
    }

    /// The count at which hardware failures are too many.
    pub closed spec fn failure_limit(&self) -> u8 {
        self.failures.limit()
    }

    /// Whether the talk must be fetched again.
    pub closed spec fn reload_pending(&self) -> bool {
        self.reload_requested
    }

    /// The diffs the loop handed to the channel so far, in order.
    pub closed spec fn published(&self) -> Seq<DiffModel> {
        self.state_manager.published()
    }

    /// The sending half the diffs are handed to.
    pub closed spec fn sender(&self) -> mpsc::Sender<AppStateDiff> {
        self.state_manager.sender()
    }

    /// A loop in the booting state, with no service started, that publishes to `diff_sender`.
    pub fn new(diff_sender: mpsc::Sender<AppStateDiff>) -> (main_loop: Self)
        ensures
            main_loop.state() == StateModel::Booting,
            main_loop.last() is None,
            main_loop.api() == ServiceState::Pending,
            main_loop.websocket() == ServiceState::Pending,
            main_loop.display_failures() == 0,
            main_loop.led_failures() == 0,
            main_loop.failure_limit() == MAX_HARDWARE_FAILURES,
            !main_loop.reload_pending(),
            main_loop.published() == Seq::<DiffModel>::empty(),
            main_loop.sender() == diff_sender,
    {
        MainLoop {
            state_manager: StateManager::new(diff_sender),
            last_diff: None,
            services: ServiceTracker::default(),
            failures: FailureTracker::new(MAX_HARDWARE_FAILURES),
            reload_requested: false,
        }
    }

    /// The application state.
    pub fn current_state(&self) -> (state: &AppState)
        ensures
            state@ == self.state(),
    {
        self.state_manager.current_state()
    }

    /// Moves to `new_state` and publishes the transition.
    pub fn transition_to(&mut self, new_state: AppState)
        ensures
            final(self).sender() == old(self).sender(),
            final(self).state() == new_state@,
            final(self).last() == old(self).last(),
            final(self).api() == old(self).api(),
            final(self).websocket() == old(self).websocket(),
            final(self).display_failures() == old(self).display_failures(),
            final(self).led_failures() == old(self).led_failures(),
            final(self).failure_limit() == old(self).failure_limit(),
            final(self).reload_pending() == old(self).reload_pending(),
            final(self).published() == old(self).published().push(DiffModel::Transition(new_state@)),
    {
        self.state_manager.transition_to(new_state);
    }

    /// Handles a diff received from the channel: a repeat of the last one (unless it is an
    /// event) is dropped; otherwise it is applied and remembered, and a talk reload is noted.
    pub fn receive_diff(&mut self, diff: AppStateDiff) -> (decision: DiffDecision)
        ensures
            final(self).sender() == old(self).sender(),
            is_repeat(old(self).last(), diff@) ==> decision == DiffDecision::Skip
                && final(self).state() == old(self).state()
                && final(self).last() == old(self).last()
                && final(self).reload_pending() == old(self).reload_pending(),
            !is_repeat(old(self).last(), diff@) ==> decision == (DiffDecision::Apply {
                start_blink: diff@ is Blink,
            }) && final(self).state() == apply_diff_spec(old(self).state(), diff@)
                && final(self).last() == Some(diff@)
                && final(self).reload_pending() == (old(self).reload_pending()
                || diff@ is TalkReload),
            final(self).api() == old(self).api(),
            final(self).websocket() == old(self).websocket(),
            final(self).display_failures() == old(self).display_failures(),
            final(self).led_failures() == old(self).led_failures(),
            final(self).failure_limit() == old(self).failure_limit(),
            final(self).published() == old(self).published(),
    {
        let event = match diff {
            AppStateDiff::Blink | AppStateDiff::TalkReload => true,
            _ => false,
        };
        if !event {
            if let Some(last) = &self.last_diff {
                if diffs_equal(last, &diff) {
                    return DiffDecision::Skip;
                }
            }
        }
        let start_blink = match diff {
            AppStateDiff::Blink => true,
            _ => false,
        };
        if let AppStateDiff::TalkReload = diff {
            self.reload_requested = true;
        }
        self.state_manager.apply_diff(&diff);
        self.last_diff = Some(diff);
        DiffDecision::Apply { start_blink }
    }

    /// Records the outcome of a redraw. A success clears the failure count; too many failures in
    /// a row put the application in the error state.
    pub fn display_result(&mut self, ok: bool)
        ensures
            final(self).sender() == old(self).sender(),
            ok ==> final(self).display_failures() == 0 && final(self).state() == old(self).state(),
            !ok ==> final(self).display_failures() == bump(old(self).display_failures()),
            !ok && final(self).display_failures() >= final(self).failure_limit()
                ==> final(self).state() == (StateModel::Error {
                message: "Display hardware failure"@,
            }),
            !ok && final(self).display_failures() < final(self).failure_limit()
                ==> final(self).state() == old(self).state(),
            !ok && final(self).display_failures() >= final(self).failure_limit()
                ==> final(self).published() == old(self).published().push(
                DiffModel::Error { message: "Display hardware failure"@ },
            ),
            (ok || final(self).display_failures() < final(self).failure_limit())
                ==> final(self).published() == old(self).published(),
            final(self).led_failures() == old(self).led_failures(),
            final(self).failure_limit() == old(self).failure_limit(),
            final(self).last() == old(self).last(),
            final(self).api() == old(self).api(),
            final(self).websocket() == old(self).websocket(),
            final(self).reload_pending() == old(self).reload_pending(),
    {
        if ok {
            self.failures.reset_display();
        } else if self.failures.record_display_failure() {
            self.state_manager.transition_to_error(String::from_str("Display hardware failure"));
        }
    }

    /// Records the outcome of an LED update. A success clears the failure count; too many
    /// failures in a row put the application in the error state.
    pub fn led_result(&mut self, ok: bool)
        ensures
            final(self).sender() == old(self).sender(),
            ok ==> final(self).led_failures() == 0 && final(self).state() == old(self).state(),
            !ok ==> final(self).led_failures() == bump(old(self).led_failures()),
            !ok && final(self).led_failures() >= final(self).failure_limit()
                ==> final(self).state() == (StateModel::Error { message: "LED hardware failure"@ }),
            !ok && final(self).led_failures() < final(self).failure_limit() ==> final(self).state()
                == old(self).state(),
            !ok && final(self).led_failures() >= final(self).failure_limit()
                ==> final(self).published() == old(self).published().push(
                DiffModel::Error { message: "LED hardware failure"@ },
            ),
            (ok || final(self).led_failures() < final(self).failure_limit())
                ==> final(self).published() == old(self).published(),
            final(self).display_failures() == old(self).display_failures(),
            final(self).failure_limit() == old(self).failure_limit(),
            final(self).last() == old(self).last(),
            final(self).api() == old(self).api(),
            final(self).websocket() == old(self).websocket(),
            final(self).reload_pending() == old(self).reload_pending(),
    {
        if ok {
            self.failures.reset_led();
        } else if self.failures.record_led_failure() {
            self.state_manager.transition_to_error(String::from_str("LED hardware failure"));
        }
    }

    /// The background service to start now. Once connected the talk is fetched (and the state
    /// becomes loading); once the talk is loaded and at hand the WebSocket starts; a reload the
    /// server asked for fetches the talk again. Each of the first two starts only once.
    pub fn next_service(&mut self, has_talk_data: bool) -> (action: ServiceAction)
        ensures
            final(self).sender() == old(self).sender(),
            ({
                let connected_first = old(self).state() is Connected && old(self).api()
                    == ServiceState::Pending;
                let ready_first = old(self).state() is Initialized && old(self).websocket()
                    == ServiceState::Pending && has_talk_data;
                &&& connected_first ==> action == ServiceAction::SpawnApi(TalkFetch::Initial)
                    && final(self).state() == StateModel::Loading && final(self).api()
                    == ServiceState::Started && final(self).websocket() == old(self).websocket()
                    && final(self).reload_pending() == old(self).reload_pending()
                    && final(self).published() == old(self).published().push(
                    DiffModel::Transition(StateModel::Loading),
                )
                &&& !connected_first ==> final(self).published() == old(self).published()
                &&& !connected_first && ready_first ==> action == ServiceAction::SpawnWebSocket
                    && final(self).state() == old(self).state() && final(self).api() == old(
                    self,
                ).api() && final(self).websocket() == ServiceState::Started
                    && final(self).reload_pending() == old(self).reload_pending()
                &&& !connected_first && !ready_first && old(self).reload_pending() ==> action
                    == ServiceAction::SpawnApi(TalkFetch::Reload) && final(self).state() == old(
                    self,
                ).state() && final(self).api() == old(self).api() && final(self).websocket()
                    == old(self).websocket() && !final(self).reload_pending()
                &&& !connected_first && !ready_first && !old(self).reload_pending() ==> action
                    == ServiceAction::Idle && final(self).state() == old(self).state()
                    && final(self).api() == old(self).api() && final(self).websocket() == old(
                    self,
                ).websocket() && final(self).reload_pending() == old(self).reload_pending()
            }),
            final(self).last() == old(self).last(),
            final(self).display_failures() == old(self).display_failures(),
            final(self).led_failures() == old(self).led_failures(),
            final(self).failure_limit() == old(self).failure_limit(),
    {
        let connected = match self.state_manager.current_state() {
            AppState::Connected { .. } => true,
            _ => false,
        };
        let initialized = match self.state_manager.current_state() {
            AppState::Initialized => true,
            _ => false,
        };
        if connected && self.services.is_api_pending() {
            self.state_manager.transition_to(AppState::Loading);
            self.services.mark_api_started();
            ServiceAction::SpawnApi(TalkFetch::Initial)
        } else if initialized && self.services.is_websocket_pending() && has_talk_data {
            self.services.mark_websocket_started();
            ServiceAction::SpawnWebSocket
        } else if self.reload_requested {
            self.reload_requested = false;
            ServiceAction::SpawnApi(TalkFetch::Reload)
        } else {
            ServiceAction::Idle
        }
    }
}


/// Dropping a repeated diff loses nothing: applying it again to the state that applying it
/// produced would leave that state unchanged.
pub proof fn lemma_dropping_repeat_is_safe(before: StateModel, last: DiffModel, diff: DiffModel)
    requires
        is_repeat(Some(last), diff),
    ensures
        apply_diff_spec(apply_diff_spec(before, last), diff) == apply_diff_spec(before, last),
{
    crate::state::lemma_apply_diff_idempotent(before, last);
}

} // verus!
