# salai

Core of a game editor for the Kiran engine, written in Verus.

- `src/` is the verified library: the play-state machine and entity selection
  (`editor`), the scene hierarchy (`hierarchy`), the component inspector
  (`inspector`), adding and renaming entities with undo/redo records
  (`scene_edit`), hardware-driven quality tiers (`hw`), texture statistics
  (`texture`), the asset browser and console log (`ui`), and the gizmo modes
  (`viewport`). `ecs` states what the editor relies on from the Kiran ECS world;
  `text` and `order` hold the number formatting and string ordering the display
  code is proved against.
- `tests/` exercises the library with the real Kiran world and hardware registry.
- `app/` is the egui/eframe program around it: windows and panels, file access,
  and the floating-point tools (camera, picking, terrain, animation, audio,
  profiler, expression fields, personality editing).
