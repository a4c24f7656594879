//! Scene editing — adding and renaming entities, each recorded in the undo/redo history.

use vstd::prelude::*;
use crate::ecs::{entity_raw_id, index_of_id, world_alive, world_clock_frame, world_names};

verus! {

#[verifier::external_type_specification]
#[verifier::external_body]
pub struct ExHistory(muharrir::History);

/// A value in the details of a recorded action.
#[derive(Debug, Clone)]
pub enum Detail {
    /// An entity's raw id.
    Id(u64),
    /// A text.
    Text(String),
}

/// The abstract value of a [`Detail`].
pub enum DetailView {
    Id(u64),
    Text(Seq<char>),
}

impl View for Detail {
    type V = DetailView;

    open spec fn view(&self) -> DetailView {
        match self {
            Detail::Id(n) => DetailView::Id(*n),
            Detail::Text(s) => DetailView::Text(s@),
        }
    }
}

/// A recorded action as `(source, kind, details)`: the details are a JSON object whose
/// keys map to entity ids or texts.
pub type RecordedAction = (Seq<char>, Seq<char>, Map<Seq<char>, DetailView>);

/// The actions recorded in a history, oldest first (the audit chain's entries, each by
/// its source, action kind and details).
pub uninterp spec fn history_actions(h: muharrir::History) -> Seq<RecordedAction>;

/// The JSON object built from key/value pairs, a later pair replacing an earlier key.
pub open spec fn details_object(pairs: Seq<(&'static str, Detail)>) -> Map<Seq<char>, DetailView>
    decreases pairs.len(),
{
    if pairs.len() == 0 {
        Map::empty()
    } else {
        details_object(pairs.drop_last()).insert(pairs.last().0@, pairs.last().1@)
    }
}

/// `History::record` with an `Action` whose details are the JSON object of `details`
/// (ids as JSON numbers, texts as JSON strings): the action is appended to the chain.
#[verifier::external_body]
fn record_action(history: &mut muharrir::History, source: &str, kind: &'static str, details: Vec<(&'static str, Detail)>)
    ensures
        history_actions(*final(history)) == history_actions(*old(history)).push(
            (source@, kind@, details_object(details@)),
        ),
{
    let mut object = serde_json::Map::new();
    for (key, value) in details {
        let value = match value {
            Detail::Id(n) => serde_json::Value::from(n),
            Detail::Text(s) => serde_json::Value::String(s),
        };
        object.insert(key.to_string(), value);
    }
    history.record(source, muharrir::Action::new(kind, serde_json::Value::Object(object)));
}

/// `World::insert_component(entity, Name(name))`: succeeds exactly on a live entity, which
/// then carries the name; nothing else changes, and on failure nothing changes at all.
#[verifier::external_body]
fn insert_name(w: &mut kiran::World, entity: kiran::Entity, name: String) -> (r: Result<(), kiran::KiranError>)
    ensures
        r is Ok == world_alive(*old(w)).contains(entity_raw_id(entity)),
        r is Ok ==> world_names(*final(w)) == world_names(*old(w)).insert(
            index_of_id(entity_raw_id(entity)),
            name@,
        ),
        r is Ok ==> world_alive(*final(w)) == world_alive(*old(w)),
        r is Ok ==> world_clock_frame(*final(w)) == world_clock_frame(*old(w)),
        r is Ok ==> crate::ecs::same_components_but_names(*final(w), *old(w)),
        r is Err ==> *final(w) == *old(w),
{
    w.insert_component(entity, kiran::scene::Name(name))
}

/// Add an entity named `name` to the world, track it, and record the addition in the
/// history (source `scene`, kind `add_entity`, details `entity` and `name`).
pub fn add_entity(
    world: &mut kiran::World,
    tracked_list: &mut Vec<kiran::Entity>,
    history: &mut muharrir::History,
    name: &str,
) -> (e: kiran::Entity)
    requires
        world_alive(*old(world)).len() < 0xFFFF_FFFF,
    ensures
        !world_alive(*old(world)).contains(entity_raw_id(e)),
        world_alive(*final(world)) == world_alive(*old(world)).insert(entity_raw_id(e)),
        world_names(*final(world)) == world_names(*old(world)).insert(index_of_id(entity_raw_id(e)), name@),
        crate::ecs::same_components_but_names(*final(world), *old(world)),
        world_clock_frame(*final(world)) == world_clock_frame(*old(world)),
        final(tracked_list)@ == old(tracked_list)@.push(e),
        history_actions(*final(history)) == history_actions(*old(history)).push(
            (
                "scene"@,
                "add_entity"@,
                Map::empty().insert("entity"@, DetailView::Id(entity_raw_id(e))).insert(
                    "name"@,
                    DetailView::Text(name@),
                ),
            ),
        ),
{
    let entity = world.spawn();
    let inserted = insert_name(world, entity, String::from_str(name));
    proof {
        assert(inserted is Ok);
    }
    tracked_list.push(entity);
    let mut details: Vec<(&'static str, Detail)> = Vec::new();
    details.push(("entity", Detail::Id(entity.id())));
    details.push(("name", Detail::Text(String::from_str(name))));
    proof {
        assert(details@.drop_last().drop_last() =~= Seq::<(&'static str, Detail)>::empty());
        assert(details@.drop_last().last() == details@[0]);
    }
    proof {
        reveal_with_fuel(details_object, 3);
        assert(details_object(details@) =~= Map::empty().insert("entity"@, DetailView::Id(entity_raw_id(entity))).insert(
            "name"@,
            DetailView::Text(name@),
        ));
    }
    record_action(history, "scene", "add_entity", details);
    entity
}

/// Rename a live entity and record the change in the history (source `inspector`, kind
/// `set_name`, details `entity`, `before` (the old name, empty when it had none) and
/// `after`).
pub fn set_name(world: &mut kiran::World, entity: kiran::Entity, new_name: &str, history: &mut muharrir::History)
    requires
        world_alive(*old(world)).contains(entity_raw_id(entity)),
    ensures
        world_alive(*final(world)) == world_alive(*old(world)),
        world_names(*final(world)) == world_names(*old(world)).insert(
            index_of_id(entity_raw_id(entity)),
            new_name@,
        ),
        crate::ecs::same_components_but_names(*final(world), *old(world)),
        world_clock_frame(*final(world)) == world_clock_frame(*old(world)),
        history_actions(*final(history)) == history_actions(*old(history)).push(
            (
                "inspector"@,
                "set_name"@,
                Map::empty().insert("entity"@, DetailView::Id(entity_raw_id(entity))).insert(
                    "before"@,
                    DetailView::Text(name_or_empty(*old(world), entity)),
                ).insert("after"@, DetailView::Text(new_name@)),
            ),
        ),
{
    let before = match crate::ecs::entity_name(world, entity) {
        Some(n) => n,
        None => String::new(),
    };
    let inserted = insert_name(world, entity, String::from_str(new_name));
    proof {
        assert(inserted is Ok);
    }
    let mut details: Vec<(&'static str, Detail)> = Vec::new();
    details.push(("entity", Detail::Id(entity.id())));
    details.push(("before", Detail::Text(before)));
    details.push(("after", Detail::Text(String::from_str(new_name))));
    proof {
        assert(details@.drop_last().drop_last().drop_last() =~= Seq::<(&'static str, Detail)>::empty());
        assert(details@.drop_last().drop_last().last() == details@[0]);
        assert(details@.drop_last().last() == details@[1]);
    }
    proof {
        reveal_with_fuel(details_object, 4);
        assert(details_object(details@) =~= Map::empty().insert("entity"@, DetailView::Id(entity_raw_id(entity))).insert(
            "before"@,
            DetailView::Text(name_or_empty(*old(world), entity)),
        ).insert("after"@, DetailView::Text(new_name@)));
    }
    record_action(history, "inspector", "set_name", details);
}

/// The name an entity carries in `w`, or the empty text when it has none.
pub open spec fn name_or_empty(w: kiran::World, entity: kiran::Entity) -> Seq<char> {
    if world_names(w).contains_key(index_of_id(entity_raw_id(entity))) {
        world_names(w)[index_of_id(entity_raw_id(entity))]
    } else {
        Seq::empty()
    }
}

} // verus!
