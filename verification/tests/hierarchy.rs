//! Scene hierarchy: tree building and depth-first flattening.

use kiran::scene::{set_parent, Name};
use kiran::World;
use salai::hierarchy::{build_hierarchy, flatten_hierarchy, try_build_hierarchy};

#[test]
fn hierarchy_flat_entities() {
    let mut world = World::new();
    let e1 = world.spawn();
    let e2 = world.spawn();
    world.insert_component(e1, Name("A".into())).unwrap();
    world.insert_component(e2, Name("B".into())).unwrap();

    let tree = build_hierarchy(&world, &[e1, e2]);
    assert_eq!(tree.len(), 2);
    assert!(tree[0].children.is_empty());
}

#[test]
fn hierarchy_parent_child() {
    let mut world = World::new();
    let parent = world.spawn();
    let child = world.spawn();
    world.insert_component(parent, Name("Parent".into())).unwrap();
    world.insert_component(child, Name("Child".into())).unwrap();
    set_parent(&mut world, child, parent).unwrap();

    let tree = build_hierarchy(&world, &[parent, child]);
    assert_eq!(tree.len(), 1);
    assert_eq!(tree[0].name, "Parent");
    assert_eq!(tree[0].children.len(), 1);
    assert_eq!(tree[0].children[0].name, "Child");
    assert_eq!(tree[0].children[0].depth, 1);
}

#[test]
fn hierarchy_deep_nesting() {
    let mut world = World::new();
    let root = world.spawn();
    let l1 = world.spawn();
    let l2 = world.spawn();
    world.insert_component(root, Name("Root".into())).unwrap();
    world.insert_component(l1, Name("L1".into())).unwrap();
    world.insert_component(l2, Name("L2".into())).unwrap();
    set_parent(&mut world, l1, root).unwrap();
    set_parent(&mut world, l2, l1).unwrap();

    let tree = build_hierarchy(&world, &[root, l1, l2]);
    assert_eq!(tree.len(), 1);
    assert_eq!(tree[0].children[0].children[0].name, "L2");
    assert_eq!(tree[0].children[0].children[0].depth, 2);
}

#[test]
fn flatten_hierarchy_order() {
    let mut world = World::new();
    let root = world.spawn();
    let c1 = world.spawn();
    let c2 = world.spawn();
    world.insert_component(root, Name("Root".into())).unwrap();
    world.insert_component(c1, Name("C1".into())).unwrap();
    world.insert_component(c2, Name("C2".into())).unwrap();
    set_parent(&mut world, c1, root).unwrap();
    set_parent(&mut world, c2, root).unwrap();

    let tree = build_hierarchy(&world, &[root, c1, c2]);
    let flat = flatten_hierarchy(&tree);
    assert_eq!(flat.len(), 3);
    assert_eq!(flat[0].2, "Root");
    assert_eq!(flat[0].0, 0);
    assert_eq!(flat[1].0, 1);
    assert_eq!(flat[2].0, 1);
}

#[test]
fn hierarchy_dead_entity_filtered() {
    let mut world = World::new();
    let e1 = world.spawn();
    let e2 = world.spawn();
    world.insert_component(e1, Name("Alive".into())).unwrap();
    world.insert_component(e2, Name("Dead".into())).unwrap();
    world.despawn(e2).unwrap();

    let tree = build_hierarchy(&world, &[e1, e2]);
    assert_eq!(tree.len(), 1);
    assert_eq!(tree[0].name, "Alive");
}

#[test]
fn hierarchy_unnamed_entity() {
    let mut world = World::new();
    let e = world.spawn();

    let tree = build_hierarchy(&world, &[e]);
    assert_eq!(tree.len(), 1);
    assert!(tree[0].name.contains("Entity"));
}

#[test]
fn hierarchy_unnamed_label_matches_display() {
    let mut world = World::new();
    let e0 = world.spawn();
    world.despawn(e0).unwrap();
    let e = world.spawn();
    let tree = build_hierarchy(&world, &[e]);
    assert_eq!(tree[0].name, format!("Entity {}", e));
    assert_eq!(tree[0].name, "Entity 0v1");
}

#[test]
fn hierarchy_with_despawned_children() {
    let mut world = World::new();
    let root = world.spawn();
    let alive = world.spawn();
    let dead = world.spawn();

    world.insert_component(root, Name("Root".into())).unwrap();
    world.insert_component(alive, Name("Alive".into())).unwrap();
    world.insert_component(dead, Name("Dead".into())).unwrap();

    set_parent(&mut world, alive, root).unwrap();
    set_parent(&mut world, dead, root).unwrap();
    world.despawn(dead).unwrap();

    let tree = build_hierarchy(&world, &[root, alive, dead]);
    assert_eq!(tree.len(), 1);
    assert_eq!(tree[0].children.len(), 1);

    let flat = flatten_hierarchy(&tree);
    assert_eq!(flat.len(), 2);
    assert_eq!(flat[1].2, "Alive");
}

#[test]
fn flatten_is_depth_first() {
    let mut world = World::new();
    let r = world.spawn();
    let a = world.spawn();
    let a1 = world.spawn();
    let b = world.spawn();
    for (e, n) in [(r, "R"), (a, "A"), (a1, "A1"), (b, "B")] {
        world.insert_component(e, Name(n.into())).unwrap();
    }
    set_parent(&mut world, a, r).unwrap();
    set_parent(&mut world, b, r).unwrap();
    set_parent(&mut world, a1, a).unwrap();
    let other = world.spawn();
    world.insert_component(other, Name("Other".into())).unwrap();

    let tree = build_hierarchy(&world, &[b, other, a1, r, a]);
    let flat = flatten_hierarchy(&tree);
    let rows: Vec<(usize, &str)> = flat.iter().map(|t| (t.0, t.2)).collect();
    assert_eq!(rows, vec![(0, "Other"), (0, "R"), (1, "A"), (2, "A1"), (1, "B")]);
}

#[test]
fn try_build_matches_build_on_acyclic_world() {
    let mut world = World::new();
    let parent = world.spawn();
    let child = world.spawn();
    world.insert_component(parent, Name("Parent".into())).unwrap();
    world.insert_component(child, Name("Child".into())).unwrap();
    set_parent(&mut world, child, parent).unwrap();

    let tree = try_build_hierarchy(&world, &[parent, child]).expect("no cycle");
    assert_eq!(tree.len(), 1);
    assert_eq!(tree[0].name, "Parent");
    assert_eq!(tree[0].children.len(), 1);
    assert_eq!(tree[0].children[0].name, "Child");
    assert_eq!(tree[0].children[0].depth, 1);
}

#[test]
fn try_build_reports_cycle_below_root() {
    let mut world = World::new();
    let root = world.spawn();
    let a = world.spawn();
    let b = world.spawn();
    world
        .insert_component(root, kiran::scene::Children(vec![a]))
        .unwrap();
    world.insert_component(a, kiran::scene::Children(vec![b])).unwrap();
    world.insert_component(b, kiran::scene::Children(vec![a])).unwrap();

    assert!(try_build_hierarchy(&world, &[root, a, b]).is_none());
}

#[test]
fn try_build_skips_cycle_without_root() {
    let mut world = World::new();
    let a = world.spawn();
    let b = world.spawn();
    set_parent(&mut world, b, a).unwrap();
    set_parent(&mut world, a, b).unwrap();

    // Both entities have a parent, so no tree starts at either of them.
    let tree = try_build_hierarchy(&world, &[a, b]).expect("no root reaches the cycle");
    assert!(tree.is_empty());
}

#[test]
fn build_ignores_cycle_not_below_listed_roots() {
    let mut world = World::new();
    let root = world.spawn();
    let a = world.spawn();
    let b = world.spawn();
    world.insert_component(root, Name("Root".into())).unwrap();
    set_parent(&mut world, b, a).unwrap();
    set_parent(&mut world, a, b).unwrap();

    let tree = build_hierarchy(&world, &[root, a, b]);
    assert_eq!(tree.len(), 1);
    assert_eq!(tree[0].name, "Root");
}
