//! The window of one monitor.
use vstd::prelude::*;

verus! {

/// The size of the window that is drawn to.
#[derive(Clone, Copy, Debug, PartialEq, Eq, Structural)]
pub struct RenderState {
    pub width: i32,
    pub height: i32,
}

impl RenderState {
    /// Takes note of a new size of the window.
    pub fn resize(&mut self, width: i32, height: i32)
        ensures
            final(self).width == width,
            final(self).height == height,
    {
        self.width = width;
        self.height = height;
    }
}

} // verus!
