//! The RGB status LED: the pattern that shows each state, and the blink override.
use vstd::prelude::*;

use crate::config::{BLINK_INTERVAL_FAST, BLINK_INTERVAL_NORMAL};
use crate::state::{AppState, StateMode, StateModel};

verus! {

/// Which of the three LED channels are lit.
#[derive(Debug, Clone, Copy, PartialEq, Eq, Structural)]
pub struct RgbColor {
    pub red: bool,
    pub green: bool,
    pub blue: bool,
}

impl RgbColor {
    /// The LED dark.
    #[verifier::allow_in_spec]
    pub fn off() -> Self
        returns
            (Self { red: false, green: false, blue: false }),
    {
        Self { red: false, green: false, blue: false }
    }

    /// Red.
    #[verifier::allow_in_spec]
    pub fn red() -> Self
        returns
            (Self { red: true, green: false, blue: false }),
    {
        Self { red: true, green: false, blue: false }
    }

    /// Green.
    #[verifier::allow_in_spec]
    pub fn green() -> Self
        returns
            (Self { red: false, green: true, blue: false }),
    {
        Self { red: false, green: true, blue: false }
    }

    /// Blue.
    #[verifier::allow_in_spec]
    pub fn blue() -> Self
        returns
            (Self { red: false, green: false, blue: true }),
    {
        Self { red: false, green: false, blue: true }
    }

    /// Yellow.
    #[verifier::allow_in_spec]
    pub fn yellow() -> Self
        returns
            (Self { red: true, green: true, blue: false }),
    {
        Self { red: true, green: true, blue: false }
    }

    /// Cyan.
    #[verifier::allow_in_spec]
    pub fn cyan() -> Self
        returns
            (Self { red: false, green: true, blue: true }),
    {
        Self { red: false, green: true, blue: true }
    }

    /// White.
    #[verifier::allow_in_spec]
    pub fn white() -> Self
        returns
            (Self { red: true, green: true, blue: true }),
    {
        Self { red: true, green: true, blue: true }
    }

    /// Orange, which the red channel alone shows on this LED.
    #[verifier::allow_in_spec]
    pub fn orange() -> Self
        returns
            (Self { red: true, green: false, blue: false }),
    {
        Self { red: true, green: false, blue: false }
    }
}

/// A steady colour, or a colour that blinks with a half period in milliseconds.
#[derive(Debug, Clone, Copy, PartialEq, Eq, Structural)]
pub enum LedPattern {
    Solid(RgbColor),
    Blinking(RgbColor, u64),
}

/// The LED pattern that shows a state.
pub open spec fn pattern_spec(state: StateModel) -> LedPattern {
    match state {
        StateModel::Booting => LedPattern::Blinking(RgbColor::orange(), BLINK_INTERVAL_NORMAL),
        StateModel::Connecting { .. } => LedPattern::Blinking(RgbColor::yellow(), BLINK_INTERVAL_NORMAL),
        StateModel::Connected { .. } => LedPattern::Solid(RgbColor::green()),
        StateModel::Loading => LedPattern::Blinking(RgbColor::white(), BLINK_INTERVAL_NORMAL),
        StateModel::Initialized => LedPattern::Solid(RgbColor::cyan()),
        StateModel::Play { mode, .. } => match mode {
            StateMode::Paused => LedPattern::Solid(RgbColor::yellow()),
            StateMode::Running => LedPattern::Solid(RgbColor::blue()),
            StateMode::Done => LedPattern::Solid(RgbColor::green()),
        },
        StateModel::Error { .. } => LedPattern::Blinking(RgbColor::red(), BLINK_INTERVAL_FAST),
    }
}

impl LedPattern {
    /// The pattern that shows `state`.
    pub fn from_state(state: &AppState) -> (pattern: Self)
        ensures
            pattern == pattern_spec(state@),
    {
        match state {
            AppState::Booting => LedPattern::Blinking(RgbColor::orange(), BLINK_INTERVAL_NORMAL),
            AppState::Connecting { .. } => LedPattern::Blinking(RgbColor::yellow(), BLINK_INTERVAL_NORMAL),
            AppState::Connected { .. } => LedPattern::Solid(RgbColor::green()),
            AppState::Loading => LedPattern::Blinking(RgbColor::white(), BLINK_INTERVAL_NORMAL),
            AppState::Initialized => LedPattern::Solid(RgbColor::cyan()),
            AppState::Play { mode, .. } => match mode {
                StateMode::Paused => LedPattern::Solid(RgbColor::yellow()),
                StateMode::Running => LedPattern::Solid(RgbColor::blue()),
                StateMode::Done => LedPattern::Solid(RgbColor::green()),
            },
            AppState::Error { .. } => LedPattern::Blinking(RgbColor::red(), BLINK_INTERVAL_FAST),
        }
    }
}

/// Whether a blink with half period `interval_ms` is lit at wall clock time `wall_ms`.
pub open spec fn blink_on(interval_ms: u64, wall_ms: u128) -> bool {
    (wall_ms / (interval_ms as u128)) % 2 == 0
}

/// The colour a pattern shows at wall clock time `wall_ms`.
pub open spec fn pattern_color(pattern: LedPattern, wall_ms: u128) -> RgbColor {
    match pattern {
        LedPattern::Solid(color) => color,
        LedPattern::Blinking(color, interval) => if blink_on(interval, wall_ms) {
            color
        } else {
            RgbColor::off()
        },
    }
}

/// The LED logic: the current pattern and the end of a blink override.
///
/// Times are milliseconds: `now_ms` on a monotonic clock, `wall_ms` since the Unix epoch.
pub struct LedController {
    current_pattern: LedPattern,
    blink_override_end: Option<u64>,
}

impl LedController {
    /// The current pattern.
    pub closed spec fn pattern(&self) -> LedPattern {
        self.current_pattern
    }

    /// The monotonic time at which the blink override ends, if one was started.
    pub closed spec fn override_end(&self) -> Option<u64> {
        self.blink_override_end
    }

    /// Whether a blink override is running at monotonic time `now_ms`.
    pub open spec fn override_active(&self, now_ms: u64) -> bool {
        match self.override_end() {
            Some(end) => now_ms < end,
            None => false,
        }
    }

    /// LED logic with the LED off and no override.
    pub fn new() -> (controller: Self)
        ensures
            controller.pattern() == LedPattern::Solid(RgbColor::off()),
            controller.override_end() is None,
    {
        LedController { current_pattern: LedPattern::Solid(RgbColor::off()), blink_override_end: None }
    }

    /// The current pattern.
    pub fn current_pattern(&self) -> (pattern: LedPattern)
        ensures
            pattern == self.pattern(),
    {
        self.current_pattern
    }

    /// Replaces the pattern.
    pub fn set_pattern(&mut self, pattern: LedPattern)
        ensures
            final(self).pattern() == pattern,
            final(self).override_end() == old(self).override_end(),
    {
        if self.current_pattern != pattern {
            self.current_pattern = pattern;
        }
    }

    /// Starts a blink override of `duration_ms` from monotonic time `now_ms`.
    pub fn start_blink_override(&mut self, duration_ms: u64, now_ms: u64)
        requires
            now_ms + duration_ms <= u64::MAX,
        ensures
            final(self).override_end() == Some((now_ms + duration_ms) as u64),
            final(self).pattern() == old(self).pattern(),
    {
        self.blink_override_end = Some(now_ms + duration_ms);
    }

    /// Whether a blink override is running at monotonic time `now_ms`.
    pub fn is_blink_override_active(&self, now_ms: u64) -> (active: bool)
        ensures
            active == self.override_active(now_ms),
    {
        match self.blink_override_end {
            Some(end) => now_ms < end,
            None => false,
        }
    }

    /// Advances the LED logic to the given times for `state` and returns the colour to show.
    ///
    /// An expired override is cleared. While an override runs the LED blinks yellow and the
    /// pattern is kept; otherwise the pattern becomes the one that shows `state`.
    pub fn update(&mut self, state: &AppState, now_ms: u64, wall_ms: u128) -> (color: RgbColor)
        ensures
            old(self).override_active(now_ms) ==> {
                &&& color == pattern_color(
                    LedPattern::Blinking(RgbColor::yellow(), BLINK_INTERVAL_NORMAL),
                    wall_ms,
                )
                &&& final(self).pattern() == old(self).pattern()
                &&& final(self).override_end() == old(self).override_end()
            },
            !old(self).override_active(now_ms) ==> {
                &&& color == pattern_color(pattern_spec(state@), wall_ms)
                &&& final(self).pattern() == pattern_spec(state@)
                &&& final(self).override_end() is None
            },
    {
        if let Some(end) = self.blink_override_end {
            if now_ms >= end {
                self.blink_override_end = None;
            }
        }
        if self.is_blink_override_active(now_ms) {
            return if Self::calculate_blink_phase(BLINK_INTERVAL_NORMAL, wall_ms) {
                RgbColor::yellow()
            } else {
                RgbColor::off()
            };
        }
        let pattern = LedPattern::from_state(state);
        self.set_pattern(pattern);
        match self.current_pattern {
            LedPattern::Solid(color) => color,
            LedPattern::Blinking(color, interval) => {
                if Self::calculate_blink_phase(interval, wall_ms) {
                    color
                } else {
                    RgbColor::off()
                }
            },
        }
    }

    /// Whether a blink with half period `interval_ms` is lit at wall clock time `wall_ms`.
    fn calculate_blink_phase(interval_ms: u64, wall_ms: u128) -> (on: bool)
        requires
            interval_ms > 0,
        ensures
            on == blink_on(interval_ms, wall_ms),
    {
        (wall_ms / (interval_ms as u128)) % 2 == 0
    }
}

/// A blink override started at `now_ms` for `duration_ms` runs exactly at the times before its
/// end; a controller on which none was started has none running.
pub proof fn lemma_blink_override_window(
    controller: LedController,
    now_ms: u64,
    duration_ms: u64,
    t: u64,
)
    requires
        now_ms + duration_ms <= u64::MAX,
    ensures
        controller.override_end() == Some((now_ms + duration_ms) as u64) ==> (
        controller.override_active(t) <==> t < now_ms + duration_ms),
        controller.override_end() is None ==> !controller.override_active(t),
{
}

/// Every pattern that shows a state blinks, if at all, with a nonzero half period; an error
/// blinks red, faster than any other state.
pub proof fn lemma_patterns_blink_properly(state: StateModel)
    ensures
        pattern_spec(state) matches LedPattern::Blinking(_, interval) ==> interval > 0,
        state is Error <==> pattern_spec(state) == LedPattern::Blinking(
            RgbColor::red(),
            BLINK_INTERVAL_FAST,
        ),
        !(state is Error) ==> (pattern_spec(state) matches LedPattern::Blinking(_, interval)
            ==> interval > BLINK_INTERVAL_FAST),
{
}

/// The LED shows each state by its own colour: booting blinks orange (on this LED, the red
/// channel alone), connecting blinks yellow,
/// loading blinks white (every half second), an error blinks red (every quarter second); a joined
/// network is solid green, a ready talk solid cyan, and a presentation solid yellow when paused,
/// blue when running and green when done.
pub proof fn lemma_led_colour_of_each_state(
    ssid: Seq<char>,
    message: Seq<char>,
    current: usize,
    current_step: usize,
)
    ensures
        pattern_spec(StateModel::Booting) == LedPattern::Blinking(
            (RgbColor { red: true, green: false, blue: false }),
            500,
        ),
        pattern_spec(StateModel::Connecting { ssid }) == LedPattern::Blinking(
            (RgbColor { red: true, green: true, blue: false }),
            500,
        ),
        pattern_spec(StateModel::Loading) == LedPattern::Blinking(
            (RgbColor { red: true, green: true, blue: true }),
            500,
        ),
        pattern_spec(StateModel::Error { message }) == LedPattern::Blinking(
            (RgbColor { red: true, green: false, blue: false }),
            250,
        ),
        pattern_spec(StateModel::Connected { ssid }) == LedPattern::Solid(
            (RgbColor { red: false, green: true, blue: false }),
        ),
        pattern_spec(StateModel::Initialized) == LedPattern::Solid(
            (RgbColor { red: false, green: true, blue: true }),
        ),
        pattern_spec(StateModel::Play { current, current_step, mode: StateMode::Paused })
            == LedPattern::Solid((RgbColor { red: true, green: true, blue: false })),
        pattern_spec(StateModel::Play { current, current_step, mode: StateMode::Running })
            == LedPattern::Solid((RgbColor { red: false, green: false, blue: true })),
        pattern_spec(StateModel::Play { current, current_step, mode: StateMode::Done })
            == LedPattern::Solid((RgbColor { red: false, green: true, blue: false })),
{
}

} // verus!
