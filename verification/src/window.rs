//! The windows that the compositor shows.

use vstd::prelude::*;

verus! {

/// What a window has to do when its surface was committed.
#[derive(Clone, Copy, Debug, PartialEq, Eq, Structural)]
pub enum CommitAction {
    /// The bounding box of the window has to be computed anew from the
    /// surface and its subsurfaces.
    RefreshBoundingBox,
    /// Nothing.
    Nothing,
}

/// A window, named by its surface.
#[derive(Clone, Copy, Debug, PartialEq, Eq, Structural)]
pub enum Window {
    /// A window of a client of the display protocol.
    Wayland(u32),
    /// A window of a client of the X server.
    X11(u32),
}

impl Window {
    /// What is to be done when the surface of the window was committed: a
    /// window of the display protocol keeps a bounding box that has to follow
    /// its surfaces; a window of the X server keeps none.
    pub fn on_commit(&self) -> (action: CommitAction)
        ensures
            action == (match *self {
                Window::Wayland(_) => CommitAction::RefreshBoundingBox,
                Window::X11(_) => CommitAction::Nothing,
            }),
    {
        match self {
            Window::Wayland(_) => CommitAction::RefreshBoundingBox,
            _ => CommitAction::Nothing,
        }
    }
}

} // verus!
