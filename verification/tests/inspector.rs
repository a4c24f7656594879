//! Entity inspector: which components are listed, in which order, with which details.

use hisab::Vec3;
use kiran::scene::{LightComponent, Material, Name, Position, Tags};
use kiran::World;
use salai::editor::EditorApp;
use salai::hierarchy::build_hierarchy;
use salai::inspector::inspect_entity;

#[test]
fn inspect_empty_entity() {
    let mut world = World::new();
    let e = world.spawn();
    let info = inspect_entity(&world, e);
    assert!(info.is_empty());
}

#[test]
fn inspect_entity_with_components() {
    let mut world = World::new();
    let e = world.spawn();
    world.insert_component(e, Name("Player".into())).unwrap();
    world
        .insert_component(e, Position(Vec3::new(1.0, 2.0, 3.0)))
        .unwrap();
    world
        .insert_component(e, LightComponent { intensity: 0.8 })
        .unwrap();
    world
        .insert_component(e, Tags(vec!["hero".into(), "controllable".into()]))
        .unwrap();

    let info = inspect_entity(&world, e);
    assert_eq!(info.len(), 4);
    assert_eq!(info[0].name, "Name");
    assert!(info[0].details.contains("Player"));
    assert_eq!(info[1].name, "Position");
    assert!(info[1].details.contains("1.00"));
}

#[test]
fn inspect_entity_with_material() {
    let mut world = World::new();
    let e = world.spawn();
    world
        .insert_component(
            e,
            Material {
                color: [1.0, 0.0, 0.0, 1.0],
                texture: Some("brick.png".into()),
                ..Default::default()
            },
        )
        .unwrap();

    let info = inspect_entity(&world, e);
    assert_eq!(info.len(), 1);
    assert!(info[0].details.contains("brick.png"));
}

#[test]
fn inspect_dead_entity() {
    let mut world = World::new();
    let e = world.spawn();
    world.insert_component(e, Name("Gone".into())).unwrap();
    world.despawn(e).unwrap();

    let info = inspect_entity(&world, e);
    assert!(info.is_empty());
}

#[test]
fn inspect_entity_all_components() {
    let mut world = World::new();
    let e = world.spawn();
    world.insert_component(e, Name("Full".into())).unwrap();
    world
        .insert_component(e, Position(Vec3::new(1.0, 2.0, 3.0)))
        .unwrap();
    world
        .insert_component(e, LightComponent { intensity: 0.5 })
        .unwrap();
    world
        .insert_component(e, Tags(vec!["a".into(), "b".into()]))
        .unwrap();
    world
        .insert_component(
            e,
            Material {
                color: [0.1, 0.2, 0.3, 1.0],
                texture: None,
                ..Default::default()
            },
        )
        .unwrap();

    let info = inspect_entity(&world, e);
    assert_eq!(info.len(), 5);

    let names: Vec<&str> = info.iter().map(|i| i.name).collect();
    assert!(names.contains(&"Name"));
    assert!(names.contains(&"Position"));
    assert!(names.contains(&"Light"));
    assert!(names.contains(&"Tags"));
    assert!(names.contains(&"Material"));
}

#[test]
fn inspect_details_exact_text() {
    let mut world = World::new();
    let e = world.spawn();
    world.insert_component(e, Name("Full".into())).unwrap();
    world
        .insert_component(e, Position(Vec3::new(1.0, -2.5, 3.125)))
        .unwrap();
    world
        .insert_component(e, LightComponent { intensity: 0.5 })
        .unwrap();
    world
        .insert_component(e, Tags(vec!["a".into(), "b".into(), "c".into()]))
        .unwrap();
    world
        .insert_component(
            e,
            Material {
                color: [0.1, 0.2, 0.3, 1.0],
                texture: None,
                ..Default::default()
            },
        )
        .unwrap();

    let info = inspect_entity(&world, e);
    let names: Vec<&str> = info.iter().map(|i| i.name).collect();
    assert_eq!(names, vec!["Name", "Position", "Light", "Tags", "Material"]);
    assert_eq!(info[0].details, "Full");
    assert_eq!(info[1].details, "(1.00, -2.50, 3.12)");
    assert_eq!(info[2].details, "intensity: 0.50");
    assert_eq!(info[3].details, "a, b, c");
    assert_eq!(info[4].details, "color: [0.10, 0.20, 0.30, 1.00] tex: none");
}

#[test]
fn inspect_tags_single_and_empty() {
    let mut world = World::new();
    let one = world.spawn();
    let none = world.spawn();
    world.insert_component(one, Tags(vec!["solo".into()])).unwrap();
    world.insert_component(none, Tags(Vec::new())).unwrap();

    let info = inspect_entity(&world, one);
    assert_eq!(info.len(), 1);
    assert_eq!(info[0].name, "Tags");
    assert_eq!(info[0].details, "solo");

    let info = inspect_entity(&world, none);
    assert_eq!(info.len(), 1);
    assert_eq!(info[0].details, "");
}

#[test]
fn inspect_material_with_texture_text() {
    let mut world = World::new();
    let e = world.spawn();
    world
        .insert_component(
            e,
            Material {
                color: [1.0, 0.0, 0.0, 1.0],
                texture: Some("brick.png".into()),
                ..Default::default()
            },
        )
        .unwrap();
    let info = inspect_entity(&world, e);
    assert_eq!(info[0].name, "Material");
    assert_eq!(info[0].details, "color: [1.00, 0.00, 0.00, 1.00] tex: brick.png");
}

#[test]
fn inspector_and_hierarchy_integration() {
    let mut world = kiran::World::new();

    // Build a small scene
    let parent = world.spawn();
    let child = world.spawn();
    world
        .insert_component(parent, kiran::scene::Name("Root".into()))
        .unwrap();
    world
        .insert_component(
            parent,
            kiran::scene::Position(hisab::Vec3::new(1.0, 2.0, 3.0)),
        )
        .unwrap();
    world
        .insert_component(child, kiran::scene::Name("Child".into()))
        .unwrap();
    kiran::scene::set_parent(&mut world, child, parent).unwrap();

    // Inspector
    let info = inspect_entity(&world, parent);
    assert_eq!(info.len(), 2); // Name + Position

    // Hierarchy
    let tree = build_hierarchy(&world, &[parent, child]);
    assert_eq!(tree.len(), 1); // only root
    assert_eq!(tree[0].children.len(), 1);
}

#[test]
fn inspector_after_component_removal() {
    let mut world = kiran::World::new();
    let e = world.spawn();
    world
        .insert_component(e, kiran::scene::Name("Test".into()))
        .unwrap();
    world
        .insert_component(e, kiran::scene::Position(hisab::Vec3::new(1.0, 2.0, 3.0)))
        .unwrap();

    assert_eq!(inspect_entity(&world, e).len(), 2);

    world.remove_component::<kiran::scene::Position>(e).unwrap();
    let info = inspect_entity(&world, e);
    assert_eq!(info.len(), 1);
    assert_eq!(info[0].name, "Name");
}

#[test]
fn editor_entities_inspect_and_tree() {
    let mut app = EditorApp::new();

    let e1 = app.world.spawn();
    let e2 = app.world.spawn();
    app.world
        .insert_component(e1, kiran::scene::Name("Player".into()))
        .unwrap();
    app.world
        .insert_component(e1, kiran::scene::Position(hisab::Vec3::new(0.0, 1.0, 0.0)))
        .unwrap();
    app.world
        .insert_component(e2, kiran::scene::Name("Light".into()))
        .unwrap();
    app.world
        .insert_component(e2, kiran::scene::LightComponent { intensity: 1.0 })
        .unwrap();

    app.state.select(e1);
    let selected = app.state.selected().unwrap();
    let info = inspect_entity(&app.world, selected);
    assert_eq!(info.len(), 2);

    let tree = build_hierarchy(&app.world, &[e1, e2]);
    assert_eq!(tree.len(), 2);

    app.state.toggle_play();
    assert!(app.state.is_playing());
}

#[test]
fn inspect_position_from_computed_value() {
    let mut world = kiran::World::new();
    let e = world.spawn();
    let x = 2.0 * std::f64::consts::PI;
    world
        .insert_component(
            e,
            kiran::scene::Position(hisab::Vec3::new(x as f32, 0.0, 1.5)),
        )
        .unwrap();

    let info = inspect_entity(&world, e);
    assert_eq!(info.len(), 1);
    assert_eq!(info[0].name, "Position");
    assert!(info[0].details.contains("6.28"));
}
