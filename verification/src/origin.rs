//! The stream an output line was captured from.

use vstd::prelude::*;

verus! {

/// Stream an entry originates from: the child process's standard output or
/// standard error, or this process's standard input in scanner mode.
#[derive(Clone, Copy, Debug, PartialEq, Eq, Structural, PartialOrd, Ord, Hash)]
pub enum Origin {
    Stdin,
    Stdout,
    Stderr,
}

impl Default for Origin {
    /// The default origin is standard output.
    fn default() -> (r: Self)
        ensures
            r == Origin::Stdout,
    {
        Origin::Stdout
    }
}

} // verus!
