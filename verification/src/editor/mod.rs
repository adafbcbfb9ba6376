//! What the interactive editor keeps between two frames: the tool in use,
//! the point that is selected, and the history of the document.

pub mod history;

use vstd::prelude::*;

verus! {

/// The tool that pointer input goes to.
#[derive(Debug, Clone, Copy, PartialEq, Eq, Structural)]
pub enum Tool {
    Select,
    Move,
}

impl Default for Tool {
    fn default() -> (tool: Self)
        ensures
            tool == Tool::Select,
    {
        Tool::Select
    }
}

/// One point of a document: the element, the segment of its path and the
/// point of that segment.
#[derive(Debug, Clone, Copy, PartialEq, Eq, Structural)]
pub struct PointSelection {
    pub element_idx: usize,
    pub segment_idx: usize,
    pub point_idx: usize,
}

} // verus!
