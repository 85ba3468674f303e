//! What the window shows and decides.
pub mod actions;
pub mod components;
pub mod panel_laws;
pub mod panels;
pub mod rows;
pub mod session;
pub mod session_laws;
