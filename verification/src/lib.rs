//! Salai — game editor core for the Kiran engine.
//!
//! The verified part of the editor: play-state machine, entity selection,
//! tracked entities, the scene hierarchy, hardware-driven quality settings,
//! texture statistics, the asset browser and the console log.

pub mod ecs;
pub mod editor;
pub mod hierarchy;
pub mod hw;
pub mod inspector;
pub mod personality;
pub mod scene_edit;
pub mod order;
pub mod text;
pub mod texture;
pub mod ui;
pub mod viewport;

pub use editor::{EditorApp, EditorState, PlayState};
pub use hierarchy::{build_hierarchy, flatten_hierarchy, try_build_hierarchy, HierarchyNode};
pub use hw::{HardwareProfile, QualityTier};
pub use inspector::ComponentInfo;
pub use viewport::GizmoMode;
