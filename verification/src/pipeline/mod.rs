//! Background work, decided step by step: loading a playlist, fetching metadata
//! resiliently, and converting tracks. The work itself is the caller's.
pub mod combined;
pub mod convert;
pub mod export_laws;
pub mod fetch;
pub mod fetch_laws;
pub mod gate;
pub mod load;
pub mod load_laws;
pub mod tools;
