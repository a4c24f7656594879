//! Editor menu bar state.

use vstd::prelude::*;

verus! {

/// Extra panel visibility flags not stored in `EditorState`.
pub struct PanelFlags<'a> {
    pub show_console: &'a mut bool,
    pub show_profiler: &'a mut bool,
    pub show_assets: &'a mut bool,
}

} // verus!
