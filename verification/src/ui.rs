//! What the painting collaborator needs to know from the session: which
//! of the three panes a list stands in.

use vstd::prelude::*;

verus! {

/// The pane a list of entries is rendered into.
#[derive(Clone, Copy, Debug, PartialEq, Eq, Structural)]
pub enum PaneType {
    Left,
    Middle,
    Right,
}

} // verus!
