//! Whether the manager has a terminal to write to.
use crate::host::Host;
use vstd::prelude::*;

verus! {

/// Whether this process can write to a terminal, and how that came to be.
#[derive(Debug, Clone, Copy, PartialEq, Eq, Structural)]
pub enum Attach {
    /// The standard handles were already usable.
    Inherited,
    /// Borrowed the parent's console.
    Borrowed,
    /// No terminal is reachable: launched from a graphical shell.
    Detached,
}

impl Attach {
    /// True when writing to the standard handles reaches a human.
    pub fn has_console(self) -> (r: bool)
        ensures
            r == (self != Attach::Detached),
    {
        match self {
            Attach::Detached => false,
            _ => true,
        }
    }
}

/// What asking a Windows host for its console gave.
#[derive(Debug, Clone, Copy, PartialEq, Eq)]
pub struct ConsoleProbe {
    /// Standard output was usable from the start.
    pub usable: bool,
    /// The parent's console could be attached.
    pub attached: bool,
    /// The attached console could be opened for writing.
    pub opened: bool,
}

/// How this process comes to a terminal. Everywhere but on Windows a process
/// starts with real standard handles.
pub fn attach_parent(host: Host, probe: ConsoleProbe) -> (r: Attach)
    ensures
        r == (if host != Host::Windows || probe.usable {
            Attach::Inherited
        } else if probe.attached && probe.opened {
            Attach::Borrowed
        } else {
            Attach::Detached
        }),
{
    if !host.is_windows() || probe.usable {
        return Attach::Inherited;
    }
    if probe.attached && probe.opened {
        Attach::Borrowed
    } else {
        Attach::Detached
    }
}

} // verus!
