//! NPC personality summary shown in the inspector.

use vstd::prelude::*;

verus! {

/// Summary for display in the inspector panel.
#[derive(Debug, Clone, PartialEq, Eq)]
pub struct PersonalitySummary {
    /// NPC name.
    pub name: String,
    /// Number of non-balanced traits.
    pub trait_count: usize,
    /// The trait group with the strongest average.
    pub dominant_group: String,
    /// Human-readable mood label.
    pub mood_label: String,
}

} // verus!
