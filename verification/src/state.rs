//! Application state, the differential updates that move it, and the talk data.
use std::sync::mpsc;
use vstd::prelude::*;

use crate::config::{
    BOOTING_TEXT, CONNECTING_TEXT_PREFIX, CONNECTING_TEXT_SUFFIX, ERROR_PREFIX, LOADING_TALK_TEXT,
};
use crate::text::{decimal, push_decimal};

verus! {

/// The sending half of a channel of state diffs.
#[verifier::external_type_specification]
#[verifier::external_body]
#[verifier::reject_recursive_types(T)]
pub struct ExSender<T>(mpsc::Sender<T>);

/// Hands `diff` to the channel behind `sender`.
///
/// Calls `std::sync::mpsc::Sender::send`. Whether the receiving half still
/// exists is decided by another thread, so nothing is claimed of the result:
/// `true` reports that the channel took the diff.
#[verifier::external_body]
fn channel_send(sender: &mpsc::Sender<AppStateDiff>, diff: AppStateDiff) -> (sent: bool) {
    sender.send(diff).is_ok()
}

/// Static talk content that does not change during the presentation.
#[derive(Debug, Clone, PartialEq, Hash)]
pub struct TalkData {
    pub title: String,
    pub slides: Vec<String>,
    pub step_counts: Vec<usize>,
}

/// The mathematical model of [`TalkData`].
pub struct TalkModel {
    pub title: Seq<char>,
    pub slides: Seq<Seq<char>>,
    pub step_counts: Seq<usize>,
}

impl View for TalkData {
    type V = TalkModel;

    open spec fn view(&self) -> TalkModel {
        TalkModel {
            title: self.title@,
            slides: self.slides@.map_values(|s: String| s@),
            step_counts: self.step_counts@,
        }
    }
}

impl TalkModel {
    /// The slide at `index`, if there is one.
    pub open spec fn slide(self, index: int) -> Option<Seq<char>> {
        if 0 <= index < self.slides.len() {
            Some(self.slides[index])
        } else {
            None
        }
    }

    /// The step count of the slide at `index`, zero where none is recorded.
    pub open spec fn step_count(self, index: int) -> usize {
        if 0 <= index < self.step_counts.len() {
            self.step_counts[index]
        } else {
            0
        }
    }
}

/// The view of an optional string slice.
pub open spec fn opt_str_view(s: Option<&str>) -> Option<Seq<char>> {
    match s {
        Some(s) => Some(s@),
        None => None,
    }
}

impl TalkData {
    /// Talk data with the given title, slides and step counts.
    pub fn new(title: String, slides: Vec<String>, step_counts: Vec<usize>) -> (data: Self)
        ensures
            data.title == title,
            data.slides == slides,
            data.step_counts == step_counts,
    {
        TalkData { title, slides, step_counts }
    }

    /// The number of slides.
    pub fn slide_count(&self) -> (count: usize)
        ensures
            count == self@.slides.len(),
    {
        self.slides.len()
    }

    /// The slide at `index`, if there is one.
    pub fn get_slide(&self, index: usize) -> (slide: Option<&str>)
        ensures
            opt_str_view(slide) == self@.slide(index as int),
    {
        if index < self.slides.len() {
            Some(self.slides[index].as_str())
        } else {
            None
        }
    }

    /// The slide after `current`, if there is one.
    pub fn get_next_slide(&self, current: usize) -> (slide: Option<&str>)
        requires
            current < usize::MAX,
        ensures
            opt_str_view(slide) == self@.slide(current + 1),
    {
        if current + 1 < self.slides.len() {
            Some(self.slides[current + 1].as_str())
        } else {
            None
        }
    }

    /// The step count of a slide, zero where none is recorded.
    pub fn get_step_count(&self, index: usize) -> (count: usize)
        ensures
            count == self@.step_count(index as int),
    {
        if index < self.step_counts.len() {
            self.step_counts[index]
        } else {
            0
        }
    }
}

/// Whether the presentation is paused, running, or over.
#[derive(Debug, Clone, Copy, PartialEq, Eq, Structural, Hash)]
pub enum StateMode {
    Paused,
    Running,
    Done,
}

/// The state of the application.
#[derive(Debug, Clone, PartialEq, Hash)]
pub enum AppState {
    Booting,
    Connecting { ssid: String },
    Connected { ssid: String },
    Loading,
    Initialized,
    Play { current: usize, current_step: usize, mode: StateMode },
    Error { message: String },
}

/// The mathematical model of [`AppState`].
pub enum StateModel {
    Booting,
    Connecting { ssid: Seq<char> },
    Connected { ssid: Seq<char> },
    Loading,
    Initialized,
    Play { current: usize, current_step: usize, mode: StateMode },
    Error { message: Seq<char> },
}

impl View for AppState {
    type V = StateModel;

    open spec fn view(&self) -> StateModel {
        match self {
            AppState::Booting => StateModel::Booting,
            AppState::Connecting { ssid } => StateModel::Connecting { ssid: ssid@ },
            AppState::Connected { ssid } => StateModel::Connected { ssid: ssid@ },
            AppState::Loading => StateModel::Loading,
            AppState::Initialized => StateModel::Initialized,
            AppState::Play { current, current_step, mode } => StateModel::Play {
                current: *current,
                current_step: *current_step,
                mode: *mode,
            },
            AppState::Error { message } => StateModel::Error { message: message@ },
        }
    }
}

/// Differential updates of the application state.
#[derive(Debug, Clone, PartialEq)]
pub enum AppStateDiff {
    /// Move to a completely new state.
    Transition(AppState),
    /// Update slide position, step and mode (only honoured while presenting).
    UpdateSlide { current: usize, current_step: usize, mode: StateMode },
    /// Blink the LED (transient, the state is kept).
    Blink,
    /// The deck was rebuilt and the talk data must be fetched again (the state is kept).
    TalkReload,
    /// An error occurred (from any state).
    Error { message: String },
}

/// The mathematical model of [`AppStateDiff`].
pub enum DiffModel {
    Transition(StateModel),
    UpdateSlide { current: usize, current_step: usize, mode: StateMode },
    Blink,
    TalkReload,
    Error { message: Seq<char> },
}

impl View for AppStateDiff {
    type V = DiffModel;

    open spec fn view(&self) -> DiffModel {
        match self {
            AppStateDiff::Transition(s) => DiffModel::Transition(s@),
            AppStateDiff::UpdateSlide { current, current_step, mode } => DiffModel::UpdateSlide {
                current: *current,
                current_step: *current_step,
                mode: *mode,
            },
            AppStateDiff::Blink => DiffModel::Blink,
            AppStateDiff::TalkReload => DiffModel::TalkReload,
            AppStateDiff::Error { message } => DiffModel::Error { message: message@ },
        }
    }
}

/// The state after `diff` is applied to `state`.
pub open spec fn apply_diff_spec(state: StateModel, diff: DiffModel) -> StateModel {
    match diff {
        DiffModel::Transition(next) => next,
        DiffModel::UpdateSlide { current, current_step, mode } => match state {
            StateModel::Initialized | StateModel::Play { .. } => StateModel::Play {
                current,
                current_step,
                mode,
            },
            _ => state,
        },
        DiffModel::Error { message } => StateModel::Error { message },
        DiffModel::Blink | DiffModel::TalkReload => state,
    }
}

/// The name under which a presentation mode is shown.
pub open spec fn mode_name(mode: StateMode) -> Seq<char> {
    match mode {
        StateMode::Paused => "Paused"@,
        StateMode::Running => "Running"@,
        StateMode::Done => "Done"@,
    }
}

/// The human readable description of a state.
pub open spec fn description_spec(state: StateModel) -> Seq<char> {
    match state {
        StateModel::Booting => BOOTING_TEXT@,
        StateModel::Connecting { ssid } => CONNECTING_TEXT_PREFIX@ + ssid + CONNECTING_TEXT_SUFFIX@,
        StateModel::Connected { ssid } => "Connected to "@ + ssid,
        StateModel::Loading => LOADING_TALK_TEXT@,
        StateModel::Initialized => "Talk loaded and ready"@,
        StateModel::Play { current, current_step, mode } => "Slide "@ + decimal(current as nat)
            + " step "@ + decimal(current_step as nat) + " ("@ + mode_name(mode) + ")"@,
        StateModel::Error { message } => ERROR_PREFIX@ + message,
    }
}

/// Whether a state shows the presentation.
pub open spec fn is_presentation_active_spec(state: StateModel) -> bool {
    state is Initialized || state is Play
}

impl AppState {
    /// A human readable description of the state.
    pub fn description(&self) -> (text: String)
        ensures
            text@ == description_spec(self@),
    {
        match self {
            AppState::Booting => String::from_str(BOOTING_TEXT),
            AppState::Connecting { ssid } => {
                let mut text = String::from_str(CONNECTING_TEXT_PREFIX);
                text.append(ssid.as_str());
                text.append(CONNECTING_TEXT_SUFFIX);
                text
            },
            AppState::Connected { ssid } => {
                let mut text = String::from_str("Connected to ");
                text.append(ssid.as_str());
                text
            },
            AppState::Loading => String::from_str(LOADING_TALK_TEXT),
            AppState::Initialized => String::from_str("Talk loaded and ready"),
            AppState::Play { current, current_step, mode } => {
                let mut text = String::from_str("Slide ");
                push_decimal(&mut text, *current);
                text.append(" step ");
                push_decimal(&mut text, *current_step);
                text.append(" (");
                match mode {
                    StateMode::Paused => text.append("Paused"),
                    StateMode::Running => text.append("Running"),
                    StateMode::Done => text.append("Done"),
                }
                text.append(")");
                text
            },
            AppState::Error { message } => {
                let mut text = String::from_str(ERROR_PREFIX);
                text.append(message.as_str());
                text
            },
        }
    }

    /// Whether the presentation is shown (talk loaded, or being played).
    pub fn is_presentation_active(&self) -> (active: bool)
        ensures
            active == is_presentation_active_spec(self@),
    {
        match self {
            AppState::Initialized | AppState::Play { .. } => true,
            _ => false,
        }
    }

    /// Applies a differential update to this state.
    pub fn apply_diff(self, diff: AppStateDiff) -> (next: Self)
        ensures
            next@ == apply_diff_spec(self@, diff@),
    {
        match diff {
            AppStateDiff::Transition(new_state) => new_state,
            AppStateDiff::UpdateSlide { current, current_step, mode } => match self {
                AppState::Initialized | AppState::Play { .. } => AppState::Play {
                    current,
                    current_step,
                    mode,
                },
                other => other,
            },
            AppStateDiff::Error { message } => AppState::Error { message },
            AppStateDiff::Blink | AppStateDiff::TalkReload => self,
        }
    }
}


/// A copy of `state` with the same model.
fn copy_state(state: &AppState) -> (copy: AppState)
    ensures
        copy@ == state@,
{
    match state {
        AppState::Booting => AppState::Booting,
        AppState::Connecting { ssid } => AppState::Connecting { ssid: ssid.clone() },
        AppState::Connected { ssid } => AppState::Connected { ssid: ssid.clone() },
        AppState::Loading => AppState::Loading,
        AppState::Initialized => AppState::Initialized,
        AppState::Play { current, current_step, mode } => AppState::Play {
            current: *current,
            current_step: *current_step,
            mode: *mode,
        },
        AppState::Error { message } => AppState::Error { message: message.clone() },
    }
}

/// A copy of `diff` with the same model.
fn copy_diff(diff: &AppStateDiff) -> (copy: AppStateDiff)
    ensures
        copy@ == diff@,
{
    match diff {
        AppStateDiff::Transition(state) => AppStateDiff::Transition(copy_state(state)),
        AppStateDiff::UpdateSlide { current, current_step, mode } => AppStateDiff::UpdateSlide {
            current: *current,
            current_step: *current_step,
            mode: *mode,
        },
        AppStateDiff::Blink => AppStateDiff::Blink,
        AppStateDiff::TalkReload => AppStateDiff::TalkReload,
        AppStateDiff::Error { message } => AppStateDiff::Error { message: message.clone() },
    }
}

/// Hands a state diff to the channel; a closed channel is tolerated.
pub fn send_diff(sender: &mpsc::Sender<AppStateDiff>, diff: AppStateDiff, _context: &str) {
    let _sent = channel_send(sender, diff);
}

/// Owns the current state and publishes the diffs it makes to a channel.
pub struct StateManager {
    current_state: AppState,
    diff_sender: mpsc::Sender<AppStateDiff>,
    published: Ghost<Seq<DiffModel>>,
}

impl View for StateManager {
    type V = StateModel;

    closed spec fn view(&self) -> StateModel {
        self.current_state@
    }
}

impl StateManager {
    /// The diffs handed to the channel so far, in order.
    pub closed spec fn published(&self) -> Seq<DiffModel> {
        self.published@
    }

    /// The sending half the diffs are handed to.
    pub closed spec fn sender(&self) -> mpsc::Sender<AppStateDiff> {
        self.diff_sender
    }

    /// A manager in the booting state that publishes to `diff_sender`.
    pub fn new(diff_sender: mpsc::Sender<AppStateDiff>) -> (manager: Self)
        ensures
            manager@ == StateModel::Booting,
            manager.published() == Seq::<DiffModel>::empty(),
            manager.sender() == diff_sender,
    {
        StateManager { current_state: AppState::Booting, diff_sender, published: Ghost(Seq::empty()) }
    }

    /// The current state.
    pub fn current_state(&self) -> (state: &AppState)
        ensures
            state@ == self@,
    {
        &self.current_state
    }

    /// Applies a diff locally, without publishing it.
    pub fn apply_diff(&mut self, diff: &AppStateDiff)
        ensures
            final(self)@ == apply_diff_spec(old(self)@, diff@),
            final(self).sender() == old(self).sender(),
            final(self).published() == old(self).published(),
            (final(self)@, final(self).published()) == manager_step(
                old(self)@,
                old(self).published(),
                ManagerOp::Apply(diff@),
            ),
    {
        let mut old_state = AppState::Booting;
        std::mem::swap(&mut old_state, &mut self.current_state);
        self.current_state = old_state.apply_diff(copy_diff(diff));
    }

    /// Hands `diff` to the channel; the state is kept.
    ///
    /// Calls `std::sync::mpsc::Sender::send` on the manager's sender, which never blocks and
    /// fails only when the receiving half is gone. The record of published diffs grows by
    /// `diff` either way; whether a receiver still exists is decided by another thread and is
    /// not stated.
    #[verifier::external_body]
    fn publish(&mut self, diff: AppStateDiff)
        ensures
            final(self)@ == old(self)@,
            final(self).sender() == old(self).sender(),
            final(self).published() == old(self).published().push(diff@),
    {
        let _ = self.diff_sender.send(diff);
    }

    /// Applies a diff locally, then publishes it.
    fn send_diff(&mut self, diff: AppStateDiff)
        ensures
            final(self)@ == apply_diff_spec(old(self)@, diff@),
            final(self).sender() == old(self).sender(),
            final(self).published() == old(self).published().push(diff@),
    {
        self.apply_diff(&diff);
        self.publish(diff);
    }

    /// Moves to `new_state` and publishes the transition.
    pub fn transition_to(&mut self, new_state: AppState)
        ensures
            final(self)@ == new_state@,
            final(self).sender() == old(self).sender(),
            final(self).published() == old(self).published().push(
                DiffModel::Transition(new_state@),
            ),
            (final(self)@, final(self).published()) == manager_step(
                old(self)@,
                old(self).published(),
                ManagerOp::Publish(DiffModel::Transition(new_state@)),
            ),
    {
        self.send_diff(AppStateDiff::Transition(new_state));
    }

    /// Updates the slide position and publishes the update.
    pub fn update_slide(&mut self, current: usize, current_step: usize, mode: StateMode)
        ensures
            final(self)@ == apply_diff_spec(
                old(self)@,
                DiffModel::UpdateSlide { current, current_step, mode },
            ),
            final(self).sender() == old(self).sender(),
            final(self).published() == old(self).published().push(
                DiffModel::UpdateSlide { current, current_step, mode },
            ),
            (final(self)@, final(self).published()) == manager_step(
                old(self)@,
                old(self).published(),
                ManagerOp::Publish(DiffModel::UpdateSlide { current, current_step, mode }),
            ),
    {
        self.send_diff(AppStateDiff::UpdateSlide { current, current_step, mode });
    }

    /// Publishes a blink request; the state is kept.
    pub fn trigger_blink(&mut self)
        ensures
            final(self)@ == old(self)@,
            final(self).sender() == old(self).sender(),
            final(self).published() == old(self).published().push(DiffModel::Blink),
            (final(self)@, final(self).published()) == manager_step(
                old(self)@,
                old(self).published(),
                ManagerOp::Publish(DiffModel::Blink),
            ),
    {
        self.send_diff(AppStateDiff::Blink);
    }

    /// Moves to the error state with `error_message` and publishes it.
    pub fn transition_to_error(&mut self, error_message: String)
        ensures
            final(self)@ == (StateModel::Error { message: error_message@ }),
            final(self).sender() == old(self).sender(),
            final(self).published() == old(self).published().push(
                DiffModel::Error { message: error_message@ },
            ),
            (final(self)@, final(self).published()) == manager_step(
                old(self)@,
                old(self).published(),
                ManagerOp::Publish(DiffModel::Error { message: error_message@ }),
            ),
    {
        self.send_diff(AppStateDiff::Error { message: error_message });
    }
}

/// One call on a [`StateManager`]: a diff applied locally only, or applied and published.
pub enum ManagerOp {
    Apply(DiffModel),
    Publish(DiffModel),
}

/// The diff a call applies.
pub open spec fn op_diff(op: ManagerOp) -> DiffModel {
    match op {
        ManagerOp::Apply(d) => d,
        ManagerOp::Publish(d) => d,
    }
}

/// The state and published diffs after one call. `apply_diff` is `Apply`; `transition_to`,
/// `update_slide`, `trigger_blink` and `transition_to_error` are `Publish` of their diff.
pub open spec fn manager_step(state: StateModel, published: Seq<DiffModel>, op: ManagerOp) -> (
    StateModel,
    Seq<DiffModel>,
) {
    match op {
        ManagerOp::Apply(d) => (apply_diff_spec(state, d), published),
        ManagerOp::Publish(d) => (apply_diff_spec(state, d), published.push(d)),
    }
}

/// The state and published diffs of a fresh manager after the calls `ops`, call by call.
pub open spec fn manager_run(ops: Seq<ManagerOp>) -> (StateModel, Seq<DiffModel>)
    decreases ops.len(),
{
    if ops.len() == 0 {
        (StateModel::Booting, Seq::empty())
    } else {
        let (state, published) = manager_run(ops.drop_last());
        manager_step(state, published, ops.last())
    }
}

/// `state` after the diffs `diffs`, applied left to right.
pub open spec fn fold_diffs(state: StateModel, diffs: Seq<DiffModel>) -> StateModel
    decreases diffs.len(),
{
    if diffs.len() == 0 {
        state
    } else {
        apply_diff_spec(fold_diffs(state, diffs.drop_last()), diffs.last())
    }
}

/// The diffs of the publishing calls among `ops`, in call order.
pub open spec fn published_diffs(ops: Seq<ManagerOp>) -> Seq<DiffModel>
    decreases ops.len(),
{
    if ops.len() == 0 {
        Seq::empty()
    } else {
        match ops.last() {
            ManagerOp::Publish(d) => published_diffs(ops.drop_last()).push(d),
            ManagerOp::Apply(_) => published_diffs(ops.drop_last()),
        }
    }
}

/// After any sequence of calls, a fresh manager's state is the booting state with every diff of
/// the calls applied in call order, and it has published exactly the diffs of the publishing
/// calls, in call order (none of `apply_diff`).
pub proof fn lemma_manager_sequence(ops: Seq<ManagerOp>)
    ensures
        manager_run(ops).0 == fold_diffs(StateModel::Booting, ops.map_values(|op: ManagerOp| op_diff(op))),
        manager_run(ops).1 == published_diffs(ops),
    decreases ops.len(),
{
    if ops.len() > 0 {
        lemma_manager_sequence(ops.drop_last());
        let ds = ops.map_values(|op: ManagerOp| op_diff(op));
        assert(ds.drop_last() =~= ops.drop_last().map_values(|op: ManagerOp| op_diff(op)));
        assert(ds.last() == op_diff(ops.last()));
    }
}

/// A transient diff (a blink, or a talk reload) leaves every state as it is.
pub proof fn lemma_transient_diffs_keep_state(state: StateModel)
    ensures
        apply_diff_spec(state, DiffModel::Blink) == state,
        apply_diff_spec(state, DiffModel::TalkReload) == state,
{
}

/// An error diff leads to the error state with its message, from any state.
pub proof fn lemma_error_from_any_state(state: StateModel, message: Seq<char>)
    ensures
        apply_diff_spec(state, DiffModel::Error { message }) == (StateModel::Error { message }),
{
}

/// A transition diff leads to its target, from any state.
pub proof fn lemma_transition_from_any_state(state: StateModel, target: StateModel)
    ensures
        apply_diff_spec(state, DiffModel::Transition(target)) == target,
{
}

/// A slide update moves a presenting state (a ready talk, or one being presented) to the given
/// slide, step and mode, and leaves every other state as it is; either way whether the
/// presentation is shown is unchanged.
pub proof fn lemma_slide_update_only_while_presenting(
    state: StateModel,
    current: usize,
    current_step: usize,
    mode: StateMode,
)
    ensures
        ({
            let next = apply_diff_spec(state, DiffModel::UpdateSlide { current, current_step, mode });
            &&& is_presentation_active_spec(state) ==> next == (StateModel::Play {
                current,
                current_step,
                mode,
            })
            &&& !is_presentation_active_spec(state) ==> next == state
            &&& is_presentation_active_spec(next) == is_presentation_active_spec(state)
            &&& (state is Initialized || state is Play) ==> next == (StateModel::Play {
                current,
                current_step,
                mode,
            })
            &&& !(state is Initialized || state is Play) ==> next == state
        }),
{
}

/// Applying the same diff twice gives the state that applying it once gives,
/// so a repeated diff can be dropped.
pub proof fn lemma_apply_diff_idempotent(state: StateModel, diff: DiffModel)
    ensures
        apply_diff_spec(apply_diff_spec(state, diff), diff) == apply_diff_spec(state, diff),
{
}

} // verus!
