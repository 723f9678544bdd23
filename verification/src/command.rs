use vstd::prelude::*;

verus! {

/// The kinds of snapshot command.
#[derive(Clone, Copy, Debug, PartialEq, Eq, Structural)]
pub enum Kind {
    /// Take a snapshot.
    Take,
    /// Restore a snapshot.
    Restore,
}

} // verus!
