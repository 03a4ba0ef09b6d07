//! Verified core of the Surf Ace compositor: the pixel transforms behind screen
//! capture and dumb-buffer presentation, the root4 capture staging store, the output
//! claim and reclaim bookkeeping of the DRM host runtime, and the decisions it takes
//! about planes, outputs, surfaces, client processes and input.
pub mod rotation;
pub mod pixels;
pub mod screen_capture;
pub mod presentation;
pub mod runtime;
pub mod output_selection;
pub mod planes;
pub mod cursor;
pub mod render_capture;
pub mod shortcut;
pub mod overlay;
pub mod procfs;
pub mod roles;
pub mod reclaim;
pub mod scripted;
pub mod present_tick;
pub mod root_transaction;
