pub mod action;
pub mod classify;
pub mod config;
pub mod driver;
pub mod event;
pub mod event_handlers;
pub mod ids;
pub mod invariants;
pub mod laws;
pub mod ownership;
pub mod parse;
pub mod reconciler;
pub mod scratchpad;
pub mod state;
pub mod tiling;
pub mod workspaces;

pub use crate::action::Action;
pub use crate::classify::{is_ignored, parse_window_type};
pub use crate::config::Config;
pub use crate::driver::process_event;
pub use crate::event::{Event, ScratchpadEvent, WindowEvent, WindowEventType, WorkspaceEvent};
pub use crate::event_handlers::{
    handle_event, handle_scratchpad_event, handle_window_event, handle_workspace_event,
    needs_classification,
};
pub use crate::parse::parse_event;
pub use crate::reconciler::actualize_screen;
pub use crate::state::{ScratchpadName, ScratchpadState, WMState, WindowId, WorkspaceState};
pub use crate::tiling::{can_tile, tile_windows};
