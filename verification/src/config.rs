//! Configuration constants: layout, timing, texts and protocol frames.
use vstd::prelude::*;

verus! {

/// Blink interval of the fast LED pattern, in milliseconds.
pub const BLINK_INTERVAL_FAST: u64 = 250;

/// Blink interval of the normal LED pattern, in milliseconds.
pub const BLINK_INTERVAL_NORMAL: u64 = 500;

/// How long a blink request overrides the LED pattern, in milliseconds.
pub const BLINK_OVERRIDE_MS: u64 = 5000;

/// Height of one text line on screen, in pixels.
pub const LINE_HEIGHT: i32 = 20;

/// Screen width in pixels.
pub const SCREEN_WIDTH: u16 = 320;

/// Screen height in pixels.
pub const SCREEN_HEIGHT: u16 = 240;

/// First line of the talk title.
pub const TITLE_LINE_START: i32 = 2;

/// Number of lines the title may use.
pub const TITLE_MAX_LINES: usize = 2;

/// First line of the current slide.
pub const CURRENT_SLIDE_LINE_START: i32 = 5;

/// Number of lines the current slide may use.
pub const CURRENT_SLIDE_MAX_LINES: usize = 4;

/// First line of the next slide.
pub const NEXT_SLIDE_LINE_START: i32 = 10;

/// Number of lines the next slide may use.
pub const NEXT_SLIDE_MAX_LINES: usize = 2;

/// Maximum number of bytes (UTF-8) on one wrapped line.
pub const MAX_CHARS_PER_LINE: usize = 35;

/// Line on which the progress bar is centred.
pub const PROGRESS_BAR_LINE: i32 = 1;

/// Height of the progress bar in pixels.
pub const PROGRESS_BAR_HEIGHT: u32 = 8;

/// Horizontal margin of the progress bar in pixels.
pub const PROGRESS_BAR_MARGIN: i32 = 20;

/// Line on which the step dots are centred.
pub const STEP_INDICATOR_LINE: i32 = 4;

/// Radius of one step dot in pixels.
pub const STEP_DOT_RADIUS: u32 = 6;

/// Distance between the centres of two step dots in pixels.
pub const STEP_DOT_SPACING: i32 = 16;

/// Maximum number of step dots shown.
pub const STEP_DOT_MAX_VISIBLE: usize = 15;

/// Prefix of the text that describes an error state.
pub const ERROR_PREFIX: &'static str = "Error! ";

/// Text that describes the booting state.
pub const BOOTING_TEXT: &'static str = "Booting...";

/// Prefix of the text that describes the connecting state.
pub const CONNECTING_TEXT_PREFIX: &'static str = "Connecting to Wifi ";

/// Suffix of the text that describes the connecting state.
pub const CONNECTING_TEXT_SUFFIX: &'static str = "...";

/// Text that describes the loading state.
pub const LOADING_TALK_TEXT: &'static str = "Loading talk...";

/// Consecutive hardware failures after which the application enters the error state.
pub const MAX_HARDWARE_FAILURES: u8 = 5;

/// Main loop poll interval in milliseconds.
pub const MAIN_LOOP_POLL_INTERVAL_MS: u64 = 100;

/// Main loop poll interval while a blink is shown, in milliseconds.
pub const BLINK_POLL_INTERVAL_MS: u64 = 100;

/// WebSocket connection timeout in milliseconds.
pub const CONNECTION_TIMEOUT_MS: u64 = 10000;

/// Interval between two polls of the WebSocket event queue while connecting, in milliseconds.
pub const POLL_INTERVAL_MS: u64 = 100;

/// Pause between two polls of the WebSocket event queue once connected, in milliseconds.
pub const MESSAGE_POLL_INTERVAL_MS: u64 = 10;

/// Capacity of the WebSocket event queue.
pub const MESSAGE_QUEUE_SIZE: usize = 16;

/// First delay before a WebSocket reconnection, in milliseconds.
pub const RECONNECT_INITIAL_DELAY_MS: u64 = 5000;

/// Largest delay between two WebSocket reconnections, in milliseconds.
pub const RECONNECT_MAX_DELAY_MS: u64 = 60000;

/// Frame that registers this client with the presentation server.
pub const REGISTER_MESSAGE: &'static str = "{\"command\":\"Register\",\"name\":\"ESP32\"}";

/// I2C addresses the GT911 touch controller may have latched at reset.
pub const GT911_ADDRESSES: [u8; 2] = [0x5D, 0x14];

} // verus!
