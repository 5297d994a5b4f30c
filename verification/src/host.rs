//! The operating system the manager itself runs on.
use vstd::prelude::*;

verus! {

/// The operating system the manager was built for.
#[derive(Debug, Clone, Copy, PartialEq, Eq, Structural)]
pub enum Host {
    Linux,
    Windows,
    /// Any other Unix.
    Other,
}

impl Host {
    /// Whether this is Windows.
    pub fn is_windows(self) -> (r: bool)
        ensures
            r == (self == Host::Windows),
    {
        match self {
            Host::Windows => true,
            _ => false,
        }
    }

    /// Whether this is Linux.
    pub fn is_linux(self) -> (r: bool)
        ensures
            r == (self == Host::Linux),
    {
        match self {
            Host::Linux => true,
            _ => false,
        }
    }
}

} // verus!
