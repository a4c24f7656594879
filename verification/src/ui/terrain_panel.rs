//! Terrain brush tools.

use vstd::prelude::*;

verus! {

/// Terrain brush tool type.
#[derive(Debug, Clone, Copy, PartialEq, Eq, Structural)]
#[non_exhaustive]
pub enum BrushTool {
    /// Raise terrain height.
    Raise,
    /// Lower terrain height.
    Lower,
    /// Smooth terrain to average of neighbors.
    Smooth,
    /// Flatten terrain to a target height.
    Flatten,
    /// Paint texture/material onto terrain.
    Paint,
}

impl Default for BrushTool {
    fn default() -> (r: Self)
        ensures
            r == BrushTool::Raise,
    {
        BrushTool::Raise
    }
}

/// Display label of a brush.
pub open spec fn brush_label(b: BrushTool) -> Seq<char> {
    match b {
        BrushTool::Raise => "Raise"@,
        BrushTool::Lower => "Lower"@,
        BrushTool::Smooth => "Smooth"@,
        BrushTool::Flatten => "Flatten"@,
        BrushTool::Paint => "Paint"@,
    }
}

impl BrushTool {
    /// Display label.
    pub fn label(self) -> (r: &'static str)
        ensures
            r@ == brush_label(self),
    {
        match self {
            BrushTool::Raise => "Raise",
            BrushTool::Lower => "Lower",
            BrushTool::Smooth => "Smooth",
            BrushTool::Flatten => "Flatten",
            BrushTool::Paint => "Paint",
        }
    }
}

} // verus!
