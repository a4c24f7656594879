//! Gizmo modes for transform manipulation in the viewport.

use vstd::prelude::*;

verus! {

/// Gizmo mode for transform manipulation.
#[derive(Debug, Clone, Copy, PartialEq, Eq, Structural)]
#[non_exhaustive]
pub enum GizmoMode {
    Translate,
    Rotate,
    Scale,
}

impl Default for GizmoMode {
    fn default() -> (r: Self)
        ensures
            r == GizmoMode::Translate,
    {
        GizmoMode::Translate
    }
}

/// The mode after `m` in the cycle Translate → Rotate → Scale → Translate.
pub open spec fn next_mode(m: GizmoMode) -> GizmoMode {
    match m {
        GizmoMode::Translate => GizmoMode::Rotate,
        GizmoMode::Rotate => GizmoMode::Scale,
        GizmoMode::Scale => GizmoMode::Translate,
    }
}

impl GizmoMode {
    /// The next mode in the cycle Translate → Rotate → Scale → Translate.
    pub fn cycled(self) -> (r: GizmoMode)
        ensures
            r == next_mode(self),
    {
        match self {
            GizmoMode::Translate => GizmoMode::Rotate,
            GizmoMode::Rotate => GizmoMode::Scale,
            GizmoMode::Scale => GizmoMode::Translate,
        }
    }
}

/// Cycling three times returns to the starting mode, and no fewer cycles do.
pub proof fn law_gizmo_cycle_period(m: GizmoMode)
    ensures
        next_mode(next_mode(next_mode(m))) == m,
        next_mode(m) != m,
        next_mode(next_mode(m)) != m,
{
}

} // verus!
