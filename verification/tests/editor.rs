//! Editor state machine, selection and entity tracking.

use kiran::world::GameClock;
use salai::editor::{EditorApp, EditorState, PlayState};
use salai::viewport::GizmoMode;

#[test]
fn editor_state_default() {
    let state = EditorState::default();
    assert_eq!(state.play_state, PlayState::Editing);
    assert_eq!(state.selection_count(), 0);
    assert!(state.show_inspector);
    assert!(state.show_hierarchy);
}

#[test]
fn editor_state_select_deselect() {
    let mut state = EditorState::default();
    let entity = kiran::Entity::new(5, 2);

    state.select(entity);
    assert_eq!(state.selected(), Some(entity));

    state.deselect();
    assert!(state.selected().is_none());
}

#[test]
fn editor_state_toggle_play() {
    let mut state = EditorState::default();

    state.toggle_play();
    assert_eq!(state.play_state, PlayState::Playing);
    assert!(state.is_playing());

    state.toggle_play();
    assert_eq!(state.play_state, PlayState::Paused);

    state.toggle_play();
    assert_eq!(state.play_state, PlayState::Playing);

    state.stop();
    assert_eq!(state.play_state, PlayState::Editing);
}

#[test]
fn editor_app_new() {
    let app = EditorApp::new();
    assert_eq!(app.entity_count(), 0);
    assert!(!app.state.is_playing());
}

#[test]
fn editor_app_step_frame() {
    let mut app = EditorApp::new();
    app.state.play_state = PlayState::Paused;
    app.step_frame();

    let clock = app.world.get_resource::<GameClock>().unwrap();
    assert_eq!(clock.frame, 1);
}

#[test]
fn step_frame_noop_when_not_paused() {
    let mut app = EditorApp::new();
    app.step_frame();
    let clock = app.world.get_resource::<GameClock>().unwrap();
    assert_eq!(clock.frame, 0);

    app.state.play_state = PlayState::Playing;
    app.step_frame();
    let clock = app.world.get_resource::<GameClock>().unwrap();
    assert_eq!(clock.frame, 0);
}

#[test]
fn stop_from_all_states() {
    let mut state = EditorState::default();

    state.stop();
    assert_eq!(state.play_state, PlayState::Editing);

    state.play_state = PlayState::Playing;
    state.stop();
    assert_eq!(state.play_state, PlayState::Editing);

    state.play_state = PlayState::Paused;
    state.stop();
    assert_eq!(state.play_state, PlayState::Editing);
}

#[test]
fn editor_state_panel_toggle_fields() {
    let mut state = EditorState::default();
    assert!(state.show_inspector);
    assert!(state.show_hierarchy);
    assert!(state.show_viewport);
    state.show_inspector = false;
    state.show_hierarchy = false;
    state.show_viewport = false;
    assert!(!state.show_inspector && !state.show_hierarchy && !state.show_viewport);
}

#[test]
fn selected_entity_preserves_generation() {
    let mut state = EditorState::default();
    let entity = kiran::Entity::new(5, 7);
    state.select(entity);
    let selected = state.selected().unwrap();
    assert_eq!(selected.index(), 5);
    assert_eq!(selected.generation(), 7);
}

#[test]
fn editor_app_default_trait() {
    let app = EditorApp::default();
    assert_eq!(app.entity_count(), 0);
    assert_eq!(app.state.play_state, PlayState::Editing);
}

#[test]
fn editor_app_spawn_and_count() {
    let mut app = EditorApp::new();
    app.world.spawn();
    app.world.spawn();
    app.world.spawn();
    assert_eq!(app.entity_count(), 3);
}

#[test]
fn spawn_entity_tracks() {
    let mut app = EditorApp::new();
    let e1 = app.spawn_entity();
    let e2 = app.spawn_entity();
    assert_eq!(app.entities().len(), 2);
    assert_eq!(app.entity_count(), 2);
    assert!(app.entities().contains(&e1));
    assert!(app.entities().contains(&e2));
}

#[test]
fn despawn_entity_untracks() {
    let mut app = EditorApp::new();
    let e = app.spawn_entity();
    assert_eq!(app.entities().len(), 1);
    app.despawn_entity(e).unwrap();
    assert!(app.entities().is_empty());
    assert_eq!(app.entity_count(), 0);
}

#[test]
fn despawn_clears_selection() {
    let mut app = EditorApp::new();
    let e = app.spawn_entity();
    app.state.select(e);
    assert_eq!(app.state.selected(), Some(e));
    app.despawn_entity(e).unwrap();
    assert!(app.state.selected().is_none());
}

#[test]
fn despawn_invalid_entity() {
    let mut app = EditorApp::new();
    let fake = kiran::Entity::new(999, 0);
    assert!(app.despawn_entity(fake).is_err());
}

#[test]
fn select_replaces_previous() {
    let mut state = EditorState::default();
    let e1 = kiran::Entity::new(1, 0);
    let e2 = kiran::Entity::new(2, 0);
    state.select(e1);
    state.select(e2);
    assert_eq!(state.selected(), Some(e2));
    assert_eq!(state.selection_count(), 1);
}

#[test]
fn select_add_multi() {
    let mut state = EditorState::default();
    let e1 = kiran::Entity::new(1, 0);
    let e2 = kiran::Entity::new(2, 0);
    let e3 = kiran::Entity::new(3, 0);
    state.select(e1);
    state.select_add(e2);
    state.select_add(e3);
    assert_eq!(state.selection_count(), 3);
    assert_eq!(state.selected(), Some(e1));
    assert!(state.is_selected(e2));
    assert!(state.is_selected(e3));
}

#[test]
fn select_add_no_duplicates() {
    let mut state = EditorState::default();
    let e = kiran::Entity::new(1, 0);
    state.select(e);
    state.select_add(e);
    assert_eq!(state.selection_count(), 1);
}

#[test]
fn select_toggle() {
    let mut state = EditorState::default();
    let e1 = kiran::Entity::new(1, 0);
    let e2 = kiran::Entity::new(2, 0);
    state.select(e1);
    state.select_add(e2);
    assert_eq!(state.selection_count(), 2);

    state.select_toggle(e1);
    assert_eq!(state.selection_count(), 1);
    assert!(!state.is_selected(e1));
    assert!(state.is_selected(e2));

    state.select_toggle(e1);
    assert_eq!(state.selection_count(), 2);
}

#[test]
fn selected_all() {
    let mut state = EditorState::default();
    let e1 = kiran::Entity::new(1, 0);
    let e2 = kiran::Entity::new(2, 0);
    state.select(e1);
    state.select_add(e2);
    let all = state.selected_all();
    assert_eq!(all.len(), 2);
    assert!(all.contains(&e1));
    assert!(all.contains(&e2));
}

#[test]
fn despawn_removes_from_multi_selection() {
    let mut app = EditorApp::new();
    let e1 = app.spawn_entity();
    let e2 = app.spawn_entity();
    app.state.select(e1);
    app.state.select_add(e2);
    assert_eq!(app.state.selection_count(), 2);

    app.despawn_entity(e1).unwrap();
    assert_eq!(app.state.selection_count(), 1);
    assert!(!app.state.is_selected(e1));
    assert!(app.state.is_selected(e2));
}

#[test]
fn menu_state_defaults() {
    let state = EditorState::default();
    assert!(state.show_inspector);
    assert!(state.show_hierarchy);
    assert!(state.show_viewport);
}

#[test]
fn toolbar_gizmo_modes() {
    let modes = [
        (GizmoMode::Translate, "Move"),
        (GizmoMode::Rotate, "Rotate"),
        (GizmoMode::Scale, "Scale"),
    ];
    assert_eq!(modes.len(), 3);
}

#[test]
fn editor_lifecycle() {
    let mut app = EditorApp::new();
    assert_eq!(app.entity_count(), 0);
    assert_eq!(app.state.play_state, PlayState::Editing);

    app.state.toggle_play();
    assert!(app.state.is_playing());

    app.state.toggle_play();
    assert_eq!(app.state.play_state, PlayState::Paused);

    app.step_frame();
    let clock = app.world.get_resource::<kiran::GameClock>().unwrap();
    assert_eq!(clock.frame, 1);

    app.state.stop();
    assert_eq!(app.state.play_state, PlayState::Editing);
}

#[test]
fn editor_multi_step_simulation() {
    let mut app = EditorApp::new();
    app.state.play_state = PlayState::Paused;

    for _ in 0..10 {
        app.step_frame();
    }

    let clock = app.world.get_resource::<kiran::GameClock>().unwrap();
    assert_eq!(clock.frame, 10);
}

#[test]
fn toggle_play_never_returns_to_editing() {
    let mut state = EditorState::default();
    for _ in 0..7 {
        state.toggle_play();
        assert_ne!(state.play_state, PlayState::Editing);
    }
}

#[test]
fn select_toggle_twice_keeps_membership() {
    let mut state = EditorState::default();
    let e1 = kiran::Entity::new(1, 0);
    let e2 = kiran::Entity::new(2, 3);
    state.select(e1);
    state.select_add(e2);
    state.select_toggle(e1);
    state.select_toggle(e1);
    assert!(state.is_selected(e1));
    assert!(state.is_selected(e2));
    assert_eq!(state.selection_count(), 2);
    // the re-added entity is now last, so the primary selection moved
    assert_eq!(state.selected(), Some(e2));
}

#[test]
fn despawn_twice_fails_second_time() {
    let mut app = EditorApp::new();
    let e = app.spawn_entity();
    assert!(app.despawn_entity(e).is_ok());
    assert!(app.despawn_entity(e).is_err());
    assert_eq!(app.entity_count(), 0);
}

#[test]
fn gizmo_cycle_returns_after_three() {
    let mut m = GizmoMode::Translate;
    m = m.cycled();
    assert_eq!(m, GizmoMode::Rotate);
    m = m.cycled();
    assert_eq!(m, GizmoMode::Scale);
    m = m.cycled();
    assert_eq!(m, GizmoMode::Translate);
}

const LEVEL_SCENE: &str = r#"
name = "Test Level"

[[entities]]
name = "Player"
position = [1.0, 2.0, 3.0]
tags = ["controllable", "hero"]

[[entities]]
name = "Sun"
position = [0.0, 100.0, 0.0]
light_intensity = 1.5
"#;

#[test]
fn load_scene_source_spawns_and_tracks() {
    let mut app = EditorApp::new();
    let before = app.spawn_entity();
    app.load_scene_source("levels/test.toml", LEVEL_SCENE).unwrap();
    assert_eq!(app.state.scene_path.as_deref(), Some("levels/test.toml"));
    assert_eq!(app.entities().len(), 3);
    assert_eq!(app.entities()[0], before);
    assert_eq!(app.entity_count(), 3);
    let names: Vec<String> = app.entities()[1..]
        .iter()
        .map(|&e| app.world.get_component::<kiran::scene::Name>(e).unwrap().0.clone())
        .collect();
    assert_eq!(names, vec!["Player".to_string(), "Sun".to_string()]);
}

#[test]
fn load_scene_source_rejects_bad_toml() {
    let mut app = EditorApp::new();
    let e = app.spawn_entity();
    let result = app.load_scene_source("broken.toml", "not valid toml {{{{");
    assert!(matches!(result, Err(salai::editor::EditorError::SceneParse(_))));
    assert!(app.state.scene_path.is_none());
    assert_eq!(app.entities(), &[e]);
    assert_eq!(app.entity_count(), 1);
}

#[test]
fn try_step_frame_ticks_only_when_paused_with_clock() {
    let mut app = EditorApp::new();
    assert!(app.try_step_frame());
    assert_eq!(app.world.get_resource::<GameClock>().unwrap().frame, 0);

    app.state.play_state = PlayState::Paused;
    assert!(app.try_step_frame());
    assert!(app.try_step_frame());
    assert_eq!(app.world.get_resource::<GameClock>().unwrap().frame, 2);

    app.world = kiran::World::new();
    assert!(!app.try_step_frame());
    assert!(app.world.get_resource::<GameClock>().is_none());
    assert_eq!(app.state.play_state, PlayState::Paused);
}

#[test]
fn try_step_frame_refuses_exhausted_clock() {
    let mut app = EditorApp::new();
    app.state.play_state = PlayState::Paused;
    let mut clock = GameClock::default();
    clock.frame = u64::MAX;
    app.world.insert_resource(clock);
    assert!(!app.try_step_frame());
    assert_eq!(app.world.get_resource::<GameClock>().unwrap().frame, u64::MAX);
}

#[test]
fn entities_lists_only_alive() {
    let mut app = EditorApp::new();
    let e1 = app.spawn_entity();
    let e2 = app.spawn_entity();
    app.world.despawn(e1).unwrap();
    assert_eq!(app.entities(), vec![e2]);
    assert_eq!(app.entity_count(), 1);
}

#[test]
fn load_scene_source_names_spawned_entities_in_order() {
    let mut app = EditorApp::new();
    app.load_scene_source("a.toml", LEVEL_SCENE).unwrap();
    app.load_scene_source("b.toml", LEVEL_SCENE).unwrap();
    let names: Vec<String> = app
        .entities()
        .iter()
        .map(|&e| app.world.get_component::<kiran::scene::Name>(e).unwrap().0.clone())
        .collect();
    assert_eq!(names, vec!["Player", "Sun", "Player", "Sun"]);
    assert_eq!(app.state.scene_path.as_deref(), Some("b.toml"));
}

#[test]
fn state_getters_and_setter() {
    let mut state = EditorState::default();
    assert_eq!(state.play_state(), PlayState::Editing);
    assert!(state.scene_path().is_none());
    state.set_play_state(PlayState::Paused);
    assert_eq!(state.play_state(), PlayState::Paused);
    state.scene_path = Some("x.toml".into());
    assert_eq!(state.scene_path(), Some("x.toml"));
}
