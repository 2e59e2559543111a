//! The decisions of a window switcher that walks windows in most-recently-used order.

pub mod bindings;
pub mod coord;
pub mod ids;
pub mod layout;
pub mod mru;
pub mod mru_laws;
pub mod mru_model;
pub mod panel;
pub mod recency;
pub mod recent_windows;
pub mod scope;
pub mod thumbnail;
pub mod ui;
pub mod ui_laws;
pub mod ui_model;
pub mod view;
pub mod x11_interop;
