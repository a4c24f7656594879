//! Trusted interface to the Kiran ECS: entity handles and the world.
//!
//! The world is an outside container; its contents are described by the names
//! below (which ids are alive, which components sit at which entity index, the
//! game clock's frame counter), and each world operation the editor uses
//! states what it does to them.

use vstd::prelude::*;

verus! {

#[verifier::external_type_specification]
#[verifier::external_body]
pub struct ExEntity(kiran::Entity);

/// The raw 64-bit id of an entity handle (upper 32 bits generation, lower 32 bits index).
pub uninterp spec fn entity_raw_id(e: kiran::Entity) -> u64;

/// `Entity::id` hands back the raw id that the handle wraps.
pub assume_specification[ kiran::Entity::id ](e: kiran::Entity) -> (r: u64)
    ensures
        r == entity_raw_id(e),
;

/// `Entity::from_id` wraps a raw id; a handle is nothing but its raw id,
/// so every handle with that id is the one returned.
pub assume_specification[ kiran::Entity::from_id ](id: u64) -> (r: kiran::Entity)
    ensures
        entity_raw_id(r) == id,
        forall|e: kiran::Entity| entity_raw_id(e) == id ==> e == r,
;

/// `Entity::index` is the lower 32 bits of the raw id.
pub assume_specification[ kiran::Entity::index ](e: kiran::Entity) -> (r: u32)
    ensures
        r as int == entity_raw_id(e) as int % 0x1_0000_0000,
;

/// `Entity::generation` is the upper 32 bits of the raw id.
pub assume_specification[ kiran::Entity::generation ](e: kiran::Entity) -> (r: u32)
    ensures
        r as int == entity_raw_id(e) as int / 0x1_0000_0000,
;

#[verifier::external_type_specification]
#[verifier::external_body]
pub struct ExWorld(kiran::World);

#[verifier::external_type_specification]
#[verifier::external_body]
pub struct ExKiranError(kiran::KiranError);

/// Raw ids of the live entities of a world.
pub uninterp spec fn world_alive(w: kiran::World) -> Set<u64>;

/// Frame counter of the world's `GameClock` resource, if it holds one.
pub uninterp spec fn world_clock_frame(w: kiran::World) -> Option<u64>;

/// `Name` components of a world, keyed by entity index.
pub uninterp spec fn world_names(w: kiran::World) -> Map<u32, Seq<char>>;

/// Entity indices that carry a `Parent` component.
pub uninterp spec fn world_parented(w: kiran::World) -> Set<u32>;

/// `Children` components of a world (raw child ids in stored order), keyed by entity index.
pub uninterp spec fn world_children(w: kiran::World) -> Map<u32, Seq<u64>>;

/// `Position` components of a world, keyed by entity index, each as its `x`, `y` and `z`
/// rendered with two decimals (`{:.2}`).
pub uninterp spec fn world_positions(w: kiran::World) -> Map<u32, Seq<Seq<char>>>;

/// `LightComponent`s of a world, keyed by entity index, each as its intensity rendered with
/// two decimals (`{:.2}`).
pub uninterp spec fn world_lights(w: kiran::World) -> Map<u32, Seq<char>>;

/// `Tags` components of a world (tags in stored order), keyed by entity index.
pub uninterp spec fn world_tags(w: kiran::World) -> Map<u32, Seq<Seq<char>>>;

/// `Material` components of a world, keyed by entity index, each as its four colour
/// channels rendered with two decimals (`{:.2}`) and its texture path.
pub uninterp spec fn world_materials(w: kiran::World) -> Map<u32, (Seq<Seq<char>>, Option<Seq<char>>)>;

/// The entity index (lower 32 bits) of a raw id.
pub open spec fn index_of_id(id: u64) -> u32 {
    (id as int % 0x1_0000_0000) as u32
}

/// Two worlds that agree on everything but the live set and the clock.
pub open spec fn same_components(a: kiran::World, b: kiran::World) -> bool {
    &&& world_names(a) == world_names(b)
    &&& world_parented(a) == world_parented(b)
    &&& world_children(a) == world_children(b)
    &&& world_positions(a) == world_positions(b)
    &&& world_lights(a) == world_lights(b)
    &&& world_tags(a) == world_tags(b)
    &&& world_materials(a) == world_materials(b)
}

/// Two worlds that agree on every component but the names.
pub open spec fn same_components_but_names(a: kiran::World, b: kiran::World) -> bool {
    &&& world_parented(a) == world_parented(b)
    &&& world_children(a) == world_children(b)
    &&& world_positions(a) == world_positions(b)
    &&& world_lights(a) == world_lights(b)
    &&& world_tags(a) == world_tags(b)
    &&& world_materials(a) == world_materials(b)
}

/// A world without any of the components the editor reads.
pub open spec fn no_components(w: kiran::World) -> bool {
    &&& world_names(w).dom() == Set::<u32>::empty()
    &&& world_parented(w) == Set::<u32>::empty()
    &&& world_children(w).dom() == Set::<u32>::empty()
    &&& world_positions(w).dom() == Set::<u32>::empty()
    &&& world_lights(w).dom() == Set::<u32>::empty()
    &&& world_tags(w).dom() == Set::<u32>::empty()
    &&& world_materials(w).dom() == Set::<u32>::empty()
}

/// `b` is `a` with every component at index `i` removed.
pub open spec fn components_cleared(a: kiran::World, b: kiran::World, i: u32) -> bool {
    &&& world_names(b) == world_names(a).remove(i)
    &&& world_parented(b) == world_parented(a).remove(i)
    &&& world_children(b) == world_children(a).remove(i)
    &&& world_positions(b) == world_positions(a).remove(i)
    &&& world_lights(b) == world_lights(a).remove(i)
    &&& world_tags(b) == world_tags(a).remove(i)
    &&& world_materials(b) == world_materials(a).remove(i)
}

/// `World::new` makes an empty world: no entities, no components, no resources.
pub assume_specification[ kiran::World::new ]() -> (fresh: kiran::World)
    ensures
        world_alive(fresh) == Set::<u64>::empty(),
        world_clock_frame(fresh) == None::<u64>,
        world_names(fresh).dom() == Set::<u32>::empty(),
        world_parented(fresh) == Set::<u32>::empty(),
        world_children(fresh).dom() == Set::<u32>::empty(),
        world_positions(fresh).dom() == Set::<u32>::empty(),
        world_lights(fresh).dom() == Set::<u32>::empty(),
        world_tags(fresh).dom() == Set::<u32>::empty(),
        world_materials(fresh).dom() == Set::<u32>::empty(),
;

/// `World::spawn` hands out a handle whose id was not alive and makes it alive.
/// The allocator panics once 2^32 - 1 entities are alive at the same time, so that
/// case is left out.
pub assume_specification[ kiran::World::spawn ](w: &mut kiran::World) -> (e: kiran::Entity)
    requires
        world_alive(*old(w)).len() < 0xFFFF_FFFF,
    ensures
        !world_alive(*old(w)).contains(entity_raw_id(e)),
        world_alive(*final(w)) == world_alive(*old(w)).insert(entity_raw_id(e)),
        world_clock_frame(*final(w)) == world_clock_frame(*old(w)),
        same_components(*final(w), *old(w)),
;

/// `World::despawn` succeeds exactly on a live handle; it then kills the handle and clears
/// every component stored at its index. On failure nothing changes. Despawning bumps the
/// slot's generation, which overflows (panics) for generation 2^32 - 1, left out here.
pub assume_specification[ kiran::World::despawn ](w: &mut kiran::World, entity: kiran::Entity)
    -> (r: Result<(), kiran::KiranError>)
    requires
        world_alive(*old(w)).contains(entity_raw_id(entity)) ==> entity_raw_id(entity)
            < 0xFFFF_FFFF_0000_0000u64,
    ensures
        r.is_ok() == world_alive(*old(w)).contains(entity_raw_id(entity)),
        r.is_ok() ==> world_alive(*final(w)) == world_alive(*old(w)).remove(entity_raw_id(entity)),
        r.is_ok() ==> components_cleared(*old(w), *final(w), index_of_id(entity_raw_id(entity))),
        r.is_ok() ==> world_clock_frame(*final(w)) == world_clock_frame(*old(w)),
        r.is_err() ==> *final(w) == *old(w),
;

/// `World::is_alive` tests the live set.
pub assume_specification[ kiran::World::is_alive ](w: &kiran::World, entity: kiran::Entity) -> (r: bool)
    ensures
        r == world_alive(*w).contains(entity_raw_id(entity)),
;

/// `s` is a finite set of `n` elements.
pub open spec fn has_size(s: Set<u64>, n: nat) -> bool {
    s.finite() && s.len() == n
}

/// `World::entity_count` is the number of live entities, a finite set. The count is at most
/// the length of the allocator's `Vec<bool>` of live flags, which Rust caps at `isize::MAX`,
/// so it stays below `usize::MAX`.
pub assume_specification[ kiran::World::entity_count ](w: &kiran::World) -> (r: usize)
    ensures
        has_size(world_alive(*w), r as nat),
        r < usize::MAX,
;

/// Inserts a fresh `GameClock` (frame 0, default 1/60 s timestep) as a resource,
/// replacing any clock the world held.
#[verifier::external_body]
pub(crate) fn install_clock(w: &mut kiran::World)
    ensures
        world_clock_frame(*final(w)) == Some(0u64),
        world_alive(*final(w)) == world_alive(*old(w)),
        same_components(*final(w), *old(w)),
{
    w.insert_resource(kiran::GameClock::default());
}

/// Advances the world's `GameClock` by one default timestep (1/60 s); `GameClock::tick`
/// bumps the frame counter by one. Needs a clock to be present.
#[verifier::external_body]
pub(crate) fn tick_clock(w: &mut kiran::World)
    requires
        world_clock_frame(*old(w)) is Some,
        world_clock_frame(*old(w))->0 < u64::MAX,
    ensures
        world_clock_frame(*final(w)) == Some((world_clock_frame(*old(w))->0 + 1) as u64),
        world_alive(*final(w)) == world_alive(*old(w)),
        same_components(*final(w), *old(w)),
{
    let dt = kiran::GameClock::default().fixed_timestep;
    w.get_resource_mut::<kiran::GameClock>().unwrap().tick(dt);
}

/// `World::get_resource::<GameClock>`: the clock's frame counter, if the world holds a clock.
#[verifier::external_body]
pub(crate) fn clock_frame(w: &kiran::World) -> (r: Option<u64>)
    ensures
        r == world_clock_frame(*w),
{
    w.get_resource::<kiran::GameClock>().map(|c| c.frame)
}

/// `World::has_component::<Parent>`: whether a `Parent` component sits at the entity's index.
#[verifier::external_body]
pub(crate) fn has_parent(w: &kiran::World, entity: kiran::Entity) -> (r: bool)
    ensures
        r == world_parented(*w).contains(index_of_id(entity_raw_id(entity))),
{
    w.has_component::<kiran::scene::Parent>(entity)
}

/// `World::get_component::<Name>`: the name stored at the entity's index, if any.
#[verifier::external_body]
pub(crate) fn entity_name(w: &kiran::World, entity: kiran::Entity) -> (r: Option<String>)
    ensures
        match r {
            Some(s) => world_names(*w).contains_key(index_of_id(entity_raw_id(entity)))
                && s@ == world_names(*w)[index_of_id(entity_raw_id(entity))],
            None => !world_names(*w).contains_key(index_of_id(entity_raw_id(entity))),
        },
{
    w.get_component::<kiran::scene::Name>(entity).map(|n| n.0.clone())
}

/// `World::get_component::<Children>`: the child handles stored at the entity's index, if any.
#[verifier::external_body]
pub(crate) fn entity_children(w: &kiran::World, entity: kiran::Entity) -> (r: Option<Vec<kiran::Entity>>)
    ensures
        match r {
            Some(v) => world_children(*w).contains_key(index_of_id(entity_raw_id(entity)))
                && v@.map_values(|c: kiran::Entity| entity_raw_id(c)) == world_children(*w)[index_of_id(entity_raw_id(entity))],
            None => !world_children(*w).contains_key(index_of_id(entity_raw_id(entity))),
        },
{
    w.get_component::<kiran::scene::Children>(entity).map(|c| c.0.clone())
}

#[verifier::external_type_specification]
#[verifier::external_body]
pub struct ExSceneDefinition(kiran::scene::SceneDefinition);

/// What `kiran::scene::load_scene` makes of a scene text: `None` when it refuses the text
/// (more than 10 MiB, or not TOML describing a scene), else the names of the scene's
/// top-level entities, in order.
pub uninterp spec fn parsed_scene(text: Seq<char>) -> Option<Seq<Seq<char>>>;

/// The names of a parsed scene's top-level entity definitions, in order.
pub uninterp spec fn scene_entities(scene: kiran::scene::SceneDefinition) -> Seq<Seq<char>>;

/// How many entity definitions a parsed scene holds, children included (the number of
/// entities spawning it creates).
pub uninterp spec fn scene_size(scene: kiran::scene::SceneDefinition) -> nat;

/// `kiran::scene::load_scene`: parses a TOML scene; succeeds exactly when the text is
/// accepted, with the top-level entities the text describes. Every entity definition
/// carries a `name` key, so a scene holds fewer definitions than its text has characters.
#[verifier::external_body]
pub(crate) fn parse_scene(text: &str) -> (r: Result<kiran::scene::SceneDefinition, kiran::KiranError>)
    ensures
        r.is_ok() == parsed_scene(text@) is Some,
        r matches Ok(scene) ==> scene_entities(scene) == parsed_scene(text@)->0,
        r matches Ok(scene) ==> scene_size(scene) <= text@.len(),
{
    kiran::scene::load_scene(text)
}

/// `kiran::scene::spawn_scene`: spawns every entity of the scene (children recursively)
/// and returns the top-level entities, one per top-level definition in order, each fresh,
/// alive and carrying its definition's name. It does not fail: its only failures are
/// component inserts on dead entities and self-parenting, which cannot happen to the
/// fresh entities it spawns. Live entities stay alive and the clock is untouched. It
/// spawns one entity per definition, and the allocator panics once 2^32 - 1 entities are
/// alive, so the live entities and the scene's definitions together must stay within that.
/// What it does to components other than the top-level names is not stated.
#[verifier::external_body]
pub(crate) fn spawn_scene(w: &mut kiran::World, scene: &kiran::scene::SceneDefinition)
    -> (r: Result<Vec<kiran::Entity>, kiran::KiranError>)
    requires
        world_alive(*old(w)).len() + scene_size(*scene) <= 0xFFFF_FFFF,
    ensures
        world_alive(*old(w)).subset_of(world_alive(*final(w))),
        world_clock_frame(*final(w)) == world_clock_frame(*old(w)),
        r is Ok,
        r matches Ok(v) ==> v@.len() == scene_entities(*scene).len(),
        r matches Ok(v) ==> forall|i: int| 0 <= i < v@.len() ==> {
            &&& !world_alive(*old(w)).contains(entity_raw_id(#[trigger] v@[i]))
            &&& world_alive(*final(w)).contains(entity_raw_id(v@[i]))
            &&& world_names(*final(w)).contains_key(index_of_id(entity_raw_id(v@[i])))
            &&& world_names(*final(w))[index_of_id(entity_raw_id(v@[i]))] == scene_entities(*scene)[i]
        },
{
    kiran::scene::spawn_scene(w, scene)
}

/// `World::get_component::<Position>`: its `x`, `y` and `z`, each rendered with `{:.2}`, if
/// the entity's index holds one.
#[verifier::external_body]
pub(crate) fn position_text(w: &kiran::World, entity: kiran::Entity) -> (r: Option<Vec<String>>)
    ensures
        match r {
            Some(v) => world_positions(*w).contains_key(index_of_id(entity_raw_id(entity)))
                && v@.map_values(|t: String| t@) == world_positions(*w)[index_of_id(entity_raw_id(entity))],
            None => !world_positions(*w).contains_key(index_of_id(entity_raw_id(entity))),
        },
{
    w.get_component::<kiran::scene::Position>(entity).map(|p| {
        vec![format!("{:.2}", p.0.x), format!("{:.2}", p.0.y), format!("{:.2}", p.0.z)]
    })
}

/// `World::get_component::<LightComponent>`: its intensity rendered with `{:.2}`, if the
/// entity's index holds one.
#[verifier::external_body]
pub(crate) fn light_text(w: &kiran::World, entity: kiran::Entity) -> (r: Option<String>)
    ensures
        match r {
            Some(t) => world_lights(*w).contains_key(index_of_id(entity_raw_id(entity)))
                && t@ == world_lights(*w)[index_of_id(entity_raw_id(entity))],
            None => !world_lights(*w).contains_key(index_of_id(entity_raw_id(entity))),
        },
{
    w.get_component::<kiran::scene::LightComponent>(entity).map(|l| format!("{:.2}", l.intensity))
}

/// `World::get_component::<Tags>`: the tags stored at the entity's index, if any.
#[verifier::external_body]
pub(crate) fn entity_tags(w: &kiran::World, entity: kiran::Entity) -> (r: Option<Vec<String>>)
    ensures
        match r {
            Some(v) => world_tags(*w).contains_key(index_of_id(entity_raw_id(entity)))
                && v@.map_values(|t: String| t@) == world_tags(*w)[index_of_id(entity_raw_id(entity))],
            None => !world_tags(*w).contains_key(index_of_id(entity_raw_id(entity))),
        },
{
    w.get_component::<kiran::scene::Tags>(entity).map(|t| t.0.clone())
}

/// `World::get_component::<Material>`: its four colour channels, each rendered with
/// `{:.2}`, and its texture path, if the entity's index holds one.
#[verifier::external_body]
pub(crate) fn material_text(w: &kiran::World, entity: kiran::Entity) -> (r: Option<(Vec<String>, Option<String>)>)
    ensures
        match r {
            Some((color, tex)) => world_materials(*w).contains_key(index_of_id(entity_raw_id(entity)))
                && color@.map_values(|t: String| t@) == world_materials(*w)[index_of_id(entity_raw_id(entity))].0
                && match tex {
                    Some(t) => world_materials(*w)[index_of_id(entity_raw_id(entity))].1 == Some(t@),
                    None => world_materials(*w)[index_of_id(entity_raw_id(entity))].1 is None,
                },
            None => !world_materials(*w).contains_key(index_of_id(entity_raw_id(entity))),
        },
{
    w.get_component::<kiran::scene::Material>(entity).map(|m| {
        (m.color.iter().map(|c| format!("{:.2}", c)).collect(), m.texture.clone())
    })
}

} // verus!
