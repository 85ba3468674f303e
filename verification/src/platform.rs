//! The platforms that tools and fonts are looked for on.
use vstd::prelude::*;

verus! {

/// A family of operating systems.
#[derive(Debug, Clone, Copy, PartialEq, Eq, Structural)]
pub enum Platform {
    Windows,
    MacOs,
    Other,
}

} // verus!
