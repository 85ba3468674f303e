//! User settings and the limits they are read with.
pub mod setting_laws;
pub mod settings;
