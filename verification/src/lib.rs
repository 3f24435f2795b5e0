//! Verified core of a niri window-list panel applet.
pub mod text;
pub mod model;
pub mod display;
pub mod raw;
pub mod texts;
pub mod pinned;
pub mod state;
pub mod laws;
pub mod panel;
pub mod desktop;
pub mod icons;
pub mod socket;
pub mod menu;
pub mod writer;
pub mod ipc;
pub mod stream;
