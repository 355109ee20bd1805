//! The decisions of a tiling window manager for the River compositor: how windows are laid out,
//! what each event does to the state of the manager, and which requests the compositor is sent.
pub mod action;
pub mod action_laws;
pub mod answer_laws;
pub mod bindings;
pub mod color;
pub mod config;
pub mod dialog;
pub mod drag;
pub mod event;
pub mod event_laws;
pub mod keyboard;
pub mod laws;
pub mod layout;
pub mod layout_laws;
pub mod manage;
pub mod manage_laws;
pub mod perform;
pub mod reading_laws;
pub mod render;
pub mod render_laws;
pub mod request;
pub mod room_laws;
pub mod screen_laws;
pub mod spawn;
pub mod state;
pub mod text;
pub mod view_laws;
