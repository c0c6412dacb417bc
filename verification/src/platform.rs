//! The host platform, selected once at startup and passed in wherever
//! behaviour is platform-specific, so the logic stays testable with any
//! value.

use vstd::prelude::*;

verus! {

/// The operating systems the agent distinguishes.
#[derive(Clone, Copy, Debug, PartialEq, Eq, Structural)]
pub enum HostOs {
    Windows,
    MacOs,
    Linux,
    Other,
}

/// The path separator the host uses.
pub open spec fn spec_separator(os: HostOs) -> char {
    match os {
        HostOs::Windows => '\\',
        _ => '/',
    }
}

/// The path separator character for `os`.
pub fn os_separator(os: HostOs) -> (r: char)
    ensures
        r == spec_separator(os),
{
    match os {
        HostOs::Windows => '\\',
        _ => '/',
    }
}

} // verus!
