//! File names, durations for display, and the text around external tools.
pub mod filesystem;
pub mod name_laws;
pub mod process;
