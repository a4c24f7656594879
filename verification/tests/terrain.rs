//! Terrain brush labels.

use salai::ui::terrain_panel::BrushTool;

#[test]
fn brush_tool_labels() {
    for tool in [
        BrushTool::Raise,
        BrushTool::Lower,
        BrushTool::Smooth,
        BrushTool::Flatten,
        BrushTool::Paint,
    ] {
        assert!(!tool.label().is_empty());
    }
}

#[test]
fn brush_tool_label_values() {
    assert_eq!(BrushTool::Raise.label(), "Raise");
    assert_eq!(BrushTool::Flatten.label(), "Flatten");
    assert_eq!(BrushTool::default(), BrushTool::Raise);
}
