//! The operating system the program runs on, as the library sees it.
use vstd::prelude::*;

verus! {

/// Operating systems with distinct Rime front ends.
#[derive(Clone, Copy, Debug, PartialEq, Eq, Structural)]
pub enum Platform {
    Linux,
    MacOs,
    Windows,
    Other,
}

} // verus!
