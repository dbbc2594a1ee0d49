//! Presentation controller logic for the ESP32-S3-BOX-3B Toboggan client.
pub mod api;
pub mod config;
pub mod display_manager;
pub mod host;
pub mod led;
pub mod main_loop;
pub mod services;
pub mod state;
pub mod text;
pub mod touch;
pub mod websocket;
pub mod wifi;

pub use crate::api::{check_status, snippet, talk_data_from, talk_uri, Talk};
pub use crate::display_manager::{render_commands, DisplayColor, DrawCommand, Font, RenderGate};
pub use crate::led::{LedController, LedPattern, RgbColor};
pub use crate::main_loop::{DiffDecision, FailureTracker, MainLoop, ServiceAction};
pub use crate::services::{ServiceState, ServiceTracker, TalkFetch};
pub use crate::state::{send_diff, AppState, AppStateDiff, StateManager, StateMode, TalkData};
pub use crate::touch::{to_screen, zone, TouchPoint, Zone};
pub use crate::websocket::{
    handle_event, ClientId, EventQueue, EventSource, InnerState, ServerMessage, WsEvent, WsMessage, WsSession, WsStep,
};
