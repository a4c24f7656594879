//! Core editor state: the play-state machine and the entity selection.

use vstd::prelude::*;
use crate::ecs::{
    clock_frame, entity_raw_id, index_of_id, install_clock, parse_scene, parsed_scene, spawn_scene, world_names, tick_clock,
    world_alive, world_clock_frame,
};

verus! {

/// Editor play state.
#[derive(Debug, Clone, Copy, PartialEq, Eq, Structural)]
#[non_exhaustive]
pub enum PlayState {
    /// Editor mode — scene is paused, entities are editable.
    Editing,
    /// Play mode — simulation running.
    Playing,
    /// Paused — simulation frozen, can step.
    Paused,
}

impl Default for PlayState {
    fn default() -> (r: Self)
        ensures
            r == PlayState::Editing,
    {
        PlayState::Editing
    }
}

/// The state that `toggle_play` moves to from `s`.
pub open spec fn toggled(s: PlayState) -> PlayState {
    match s {
        PlayState::Editing => PlayState::Playing,
        PlayState::Playing => PlayState::Paused,
        PlayState::Paused => PlayState::Playing,
    }
}

/// The index of the first occurrence of `x` in `s` (meaningful when `s` contains `x`).
pub open spec fn first_index_of(s: Seq<u64>, x: u64) -> int {
    choose|i: int| 0 <= i < s.len() && s[i] == x && forall|j: int| 0 <= j < i ==> s[j] != x
}

/// The selection after a ctrl-click on `id`: its first occurrence removed, or `id` appended.
pub open spec fn toggled_selection(s: Seq<u64>, id: u64) -> Seq<u64> {
    if s.contains(id) {
        s.remove(first_index_of(s, id))
    } else {
        s.push(id)
    }
}

/// Persistent editor state.
#[derive(Debug)]
pub struct EditorState {
    /// Current play state.
    pub play_state: PlayState,
    /// Selected entities as raw ids (index + generation). First entry is the primary selection.
    selected_entities: Vec<u64>,
    /// Whether the inspector panel is open.
    pub show_inspector: bool,
    /// Whether the hierarchy panel is open.
    pub show_hierarchy: bool,
    /// Whether the viewport is active.
    pub show_viewport: bool,
    /// Scene file path (if loaded).
    pub scene_path: Option<String>,
}

/// The abstract value of an [`EditorState`].
pub struct EditorStateView {
    pub play_state: PlayState,
    /// Selected raw entity ids, primary selection first.
    pub selection: Seq<u64>,
    pub show_inspector: bool,
    pub show_hierarchy: bool,
    pub show_viewport: bool,
    pub scene_path: Option<Seq<char>>,
}

impl EditorStateView {
    /// Raw ids occur at most once in the selection.
    pub open spec fn selection_unique(self) -> bool {
        self.selection.no_duplicates()
    }

    /// The same view with another play state.
    pub open spec fn with_play_state(self, p: PlayState) -> EditorStateView {
        EditorStateView { play_state: p, ..self }
    }

    /// The same view with another selection.
    pub open spec fn with_selection(self, sel: Seq<u64>) -> EditorStateView {
        EditorStateView { selection: sel, ..self }
    }
}

impl View for EditorState {
    type V = EditorStateView;

    closed spec fn view(&self) -> EditorStateView {
        EditorStateView {
            play_state: self.play_state,
            selection: self.selected_entities@,
            show_inspector: self.show_inspector,
            show_hierarchy: self.show_hierarchy,
            show_viewport: self.show_viewport,
            scene_path: match self.scene_path {
                Some(p) => Some(p@),
                None => None,
            },
        }
    }
}

/// The view of a freshly created editor state: editing, nothing selected, all panels open.
pub open spec fn initial_state_view() -> EditorStateView {
    EditorStateView {
        play_state: PlayState::Editing,
        selection: Seq::empty(),
        show_inspector: true,
        show_hierarchy: true,
        show_viewport: true,
        scene_path: None,
    }
}

impl Default for EditorState {
    fn default() -> (r: Self)
        ensures
            r@ == initial_state_view(),
            r@.selection_unique(),
    {
        EditorState {
            play_state: PlayState::Editing,
            selected_entities: Vec::new(),
            show_inspector: true,
            show_hierarchy: true,
            show_viewport: true,
            scene_path: None,
        }
    }
}

impl EditorState {
    /// Toggle play/pause: Editing → Playing, Playing → Paused, Paused → Playing.
    pub fn toggle_play(&mut self)
        ensures
            final(self)@ == old(self)@.with_play_state(toggled(old(self)@.play_state)),
    {
        self.play_state = match self.play_state {
            PlayState::Editing => PlayState::Playing,
            PlayState::Playing => PlayState::Paused,
            PlayState::Paused => PlayState::Playing,
        };
    }

    /// Set the play state directly.
    pub fn set_play_state(&mut self, p: PlayState)
        ensures
            final(self)@ == old(self)@.with_play_state(p),
    {
        self.play_state = p;
    }

    /// The current play state.
    pub fn play_state(&self) -> (r: PlayState)
        ensures
            r == self@.play_state,
    {
        self.play_state
    }

    /// The path of the loaded scene, if any.
    pub fn scene_path(&self) -> (r: Option<&str>)
        ensures
            match r {
                Some(p) => self@.scene_path == Some(p@),
                None => self@.scene_path is None,
            },
    {
        match &self.scene_path {
            Some(p) => Some(p.as_str()),
            None => None,
        }
    }

    /// Stop and return to editing.
    pub fn stop(&mut self)
        ensures
            final(self)@ == old(self)@.with_play_state(PlayState::Editing),
    {
        self.play_state = PlayState::Editing;
    }

    /// Is the simulation running?
    pub fn is_playing(&self) -> (r: bool)
        ensures
            r == (self@.play_state == PlayState::Playing),
    {
        self.play_state == PlayState::Playing
    }

    /// Number of selected entities.
    pub fn selection_count(&self) -> (r: usize)
        ensures
            r == self@.selection.len(),
    {
        self.selected_entities.len()
    }

    /// Clear the selection.
    pub fn deselect(&mut self)
        ensures
            final(self)@ == old(self)@.with_selection(Seq::empty()),
            final(self)@.selection_unique(),
    {
        self.selected_entities.clear();
    }

    /// Select a single entity (replaces any existing selection).
    pub fn select(&mut self, entity: kiran::Entity)
        ensures
            final(self)@ == old(self)@.with_selection(seq![entity_raw_id(entity)]),
            final(self)@.selection_unique(),
    {
        self.selected_entities.clear();
        self.selected_entities.push(entity.id());
    }

    /// Position of the first occurrence of `id` in the selection, if any.
    fn position_of(&self, id: u64) -> (r: Option<usize>)
        ensures
            match r {
                Some(i) => i < self@.selection.len() && self@.selection[i as int] == id
                    && forall|j: int| 0 <= j < i ==> self@.selection[j] != id,
                None => !self@.selection.contains(id),
            },
    {
        let mut i: usize = 0;
        while i < self.selected_entities.len()
            invariant
                i <= self.selected_entities@.len(),
                forall|j: int| 0 <= j < i ==> self.selected_entities@[j] != id,
            decreases self.selected_entities@.len() - i,
        {
            if self.selected_entities[i] == id {
                return Some(i);
            }
            i = i + 1;
        }
        None
    }

    /// Check if a specific entity is selected.
    pub fn is_selected(&self, entity: kiran::Entity) -> (r: bool)
        ensures
            r == self@.selection.contains(entity_raw_id(entity)),
    {
        self.position_of(entity.id()).is_some()
    }

    /// Add an entity to the selection (shift-click); an entity already selected stays where it is.
    pub fn select_add(&mut self, entity: kiran::Entity)
        ensures
            final(self)@ == old(self)@.with_selection(
                if old(self)@.selection.contains(entity_raw_id(entity)) {
                    old(self)@.selection
                } else {
                    old(self)@.selection.push(entity_raw_id(entity))
                },
            ),
            old(self)@.selection_unique() ==> final(self)@.selection_unique(),
    {
        let id = entity.id();
        if self.position_of(id).is_none() {
            self.selected_entities.push(id);
        }
        proof {
            if old(self)@.selection_unique() {
                law_selection_stays_unique(old(self)@.selection, id);
            }
        }
    }

    /// Toggle an entity in the selection (ctrl-click): the first occurrence is removed,
    /// or the entity is appended when absent.
    pub fn select_toggle(&mut self, entity: kiran::Entity)
        ensures
            final(self)@ == old(self)@.with_selection(
                toggled_selection(old(self)@.selection, entity_raw_id(entity)),
            ),
            old(self)@.selection_unique() ==> {
                &&& final(self)@.selection_unique()
                &&& final(self)@.selection.contains(entity_raw_id(entity)) == !old(self)@.selection.contains(entity_raw_id(entity))
                &&& forall|x: u64| x != entity_raw_id(entity) ==> (final(self)@.selection.contains(x) == old(self)@.selection.contains(x))
                &&& final(self)@.selection.len() == if old(self)@.selection.contains(entity_raw_id(entity)) {
                    old(self)@.selection.len() - 1
                } else {
                    old(self)@.selection.len() + 1int
                }
            },
    {
        proof {
            if old(self)@.selection_unique() {
                law_selection_stays_unique(old(self)@.selection, entity_raw_id(entity));
                law_toggle_flips_membership(old(self)@.selection, entity_raw_id(entity));
            }
        }
        let id = entity.id();
        match self.position_of(id) {
            Some(pos) => {
                self.selected_entities.remove(pos);
            },
            None => {
                self.selected_entities.push(id);
            },
        }
    }

    /// Get the primary selected entity (first in selection).
    pub fn selected(&self) -> (r: Option<kiran::Entity>)
        ensures
            match r {
                Some(e) => self@.selection.len() > 0 && entity_raw_id(e) == self@.selection[0],
                None => self@.selection.len() == 0,
            },
            forall|x: kiran::Entity| self@.selection.len() > 0 && entity_raw_id(x) == self@.selection[0]
                ==> r == Some(x),
    {
        if self.selected_entities.len() == 0 {
            None
        } else {
            Some(kiran::Entity::from_id(self.selected_entities[0]))
        }
    }

    /// Drop `id` from the selection, keeping the order of the rest.
    fn retain_unselected(&mut self, id: u64)
        ensures
            final(self)@ == old(self)@.with_selection(without_id(old(self)@.selection, id)),
    {
        let mut kept: Vec<u64> = Vec::new();
        let mut i: usize = 0;
        while i < self.selected_entities.len()
            invariant
                i <= self.selected_entities@.len(),
                kept@ == without_id(self.selected_entities@.take(i as int), id),
            decreases self.selected_entities@.len() - i,
        {
            let x = self.selected_entities[i];
            proof {
                assert(self.selected_entities@.take(i + 1) == self.selected_entities@.take(i as int).push(x));
                self.selected_entities@.take(i as int).lemma_filter_push(x, id_is_not(id));
            }
            if x != id {
                kept.push(x);
            }
            i = i + 1;
        }
        proof {
            assert(self.selected_entities@.take(self.selected_entities@.len() as int) == self.selected_entities@);
        }
        self.selected_entities = kept;
    }

    /// Get all selected entities, in selection order.
    pub fn selected_all(&self) -> (r: Vec<kiran::Entity>)
        ensures
            r@.len() == self@.selection.len(),
            forall|i: int| 0 <= i < r@.len() ==> entity_raw_id(#[trigger] r@[i]) == self@.selection[i],
            forall|i: int, x: kiran::Entity| 0 <= i < r@.len() && #[trigger] entity_raw_id(x) == #[trigger] self@.selection[i]
                ==> r@[i] == x,
    {
        let mut out: Vec<kiran::Entity> = Vec::new();
        let mut i: usize = 0;
        while i < self.selected_entities.len()
            invariant
                i <= self.selected_entities@.len(),
                out@.len() == i,
                forall|j: int| 0 <= j < i ==> entity_raw_id(#[trigger] out@[j]) == self.selected_entities@[j],
                forall|j: int, x: kiran::Entity| 0 <= j < i && #[trigger] entity_raw_id(x) == #[trigger] self.selected_entities@[j]
                    ==> out@[j] == x,
            decreases self.selected_entities@.len() - i,
        {
            out.push(kiran::Entity::from_id(self.selected_entities[i]));
            i = i + 1;
        }
        out
    }
}

/// Errors of the editor's entity operations.
#[derive(Debug)]
pub enum EditorError {
    /// The entity handle does not name a live entity of the world.
    EntityNotAlive(kiran::Entity),
    /// The scene text is not a valid scene.
    SceneParse(kiran::KiranError),
    /// Spawning the scene's entities failed part way.
    SceneSpawn(kiran::KiranError),
    /// The scene could take the world past the entity allocator's limit of 2^32 - 1 live
    /// entities (the scene text is longer than the room left, and every entity definition
    /// takes at least one character).
    EntityLimit,
}

/// The main editor application.
pub struct EditorApp {
    pub state: EditorState,
    pub world: kiran::World,
    /// Tracked entity list for hierarchy display. Updated on spawn/despawn/load.
    pub tracked_entities: Vec<kiran::Entity>,
}

/// `s` without the handles whose raw id is `id`.
pub open spec fn without_entity(s: Seq<kiran::Entity>, id: u64) -> Seq<kiran::Entity> {
    s.filter(entity_is_not(id))
}

/// Holds of handles whose raw id is not `id`.
pub open spec fn entity_is_not(id: u64) -> spec_fn(kiran::Entity) -> bool {
    |e: kiran::Entity| entity_raw_id(e) != id
}

/// Holds of handles alive in `w`.
pub open spec fn live_in(w: kiran::World) -> spec_fn(kiran::Entity) -> bool {
    |e: kiran::Entity| world_alive(w).contains(entity_raw_id(e))
}

/// Holds of raw ids other than `id`.
pub open spec fn id_is_not(id: u64) -> spec_fn(u64) -> bool {
    |x: u64| x != id
}

/// `s` without the raw id `id`.
pub open spec fn without_id(s: Seq<u64>, id: u64) -> Seq<u64> {
    s.filter(id_is_not(id))
}

impl EditorApp {
    /// A new editor: default state, an empty world holding a fresh game clock, nothing tracked.
    pub fn new() -> (r: Self)
        ensures
            r.state@ == initial_state_view(),
            r.tracked_entities@.len() == 0,
            world_alive(r.world) == Set::<u64>::empty(),
            world_clock_frame(r.world) == Some(0u64),
            crate::ecs::no_components(r.world),
    {
        let mut world = kiran::World::new();
        install_clock(&mut world);
        EditorApp { state: EditorState::default(), world, tracked_entities: Vec::new() }
    }

    /// Spawn an entity and track it.
    pub fn spawn_entity(&mut self) -> (e: kiran::Entity)
        requires
            world_alive(old(self).world).len() < 0xFFFF_FFFF,
        ensures
            !world_alive(old(self).world).contains(entity_raw_id(e)),
            world_alive(final(self).world) == world_alive(old(self).world).insert(entity_raw_id(e)),
            world_clock_frame(final(self).world) == world_clock_frame(old(self).world),
            crate::ecs::same_components(final(self).world, old(self).world),
            final(self).tracked_entities@ == old(self).tracked_entities@.push(e),
            final(self).state@ == old(self).state@,
    {
        let entity = self.world.spawn();
        self.tracked_entities.push(entity);
        entity
    }

    /// Step the simulation by one frame; only while paused.
    pub fn step_frame(&mut self)
        requires
            old(self).state@.play_state == PlayState::Paused ==> {
                &&& world_clock_frame(old(self).world) is Some
                &&& world_clock_frame(old(self).world)->0 < u64::MAX
            },
        ensures
            world_clock_frame(final(self).world) == if old(self).state@.play_state == PlayState::Paused {
                Some((world_clock_frame(old(self).world)->0 + 1) as u64)
            } else {
                world_clock_frame(old(self).world)
            },
            world_alive(final(self).world) == world_alive(old(self).world),
            crate::ecs::same_components(final(self).world, old(self).world),
            final(self).tracked_entities@ == old(self).tracked_entities@,
            final(self).state@ == old(self).state@,
    {
        if self.state.play_state == PlayState::Paused {
            tick_clock(&mut self.world);
        }
    }

    /// Step one frame while paused, provided the world holds a game clock whose frame
    /// counter has room for one more tick; returns whether it could (when not paused there
    /// is nothing to step and the editor is unchanged either way).
    pub fn try_step_frame(&mut self) -> (ok: bool)
        ensures
            ok == (old(self).state@.play_state == PlayState::Paused ==> {
                &&& world_clock_frame(old(self).world) is Some
                &&& world_clock_frame(old(self).world)->0 < u64::MAX
            }),
            world_clock_frame(final(self).world) == if ok && old(self).state@.play_state == PlayState::Paused {
                Some((world_clock_frame(old(self).world)->0 + 1) as u64)
            } else {
                world_clock_frame(old(self).world)
            },
            world_alive(final(self).world) == world_alive(old(self).world),
            crate::ecs::same_components(final(self).world, old(self).world),
            final(self).tracked_entities@ == old(self).tracked_entities@,
            final(self).state@ == old(self).state@,
    {
        if self.state.play_state == PlayState::Paused {
            match clock_frame(&self.world) {
                Some(frame) => {
                    if frame == u64::MAX {
                        return false;
                    }
                },
                None => {
                    return false;
                },
            }
        }
        self.step_frame();
        true
    }

    /// Load a scene, given its path and TOML text, into the editor: its top-level entities
    /// are spawned (children below them) and tracked, and the path is remembered. Fails,
    /// changing nothing, when the text is not a scene, or when the live entities and the
    /// text's length together pass 2^32 - 1 (each entity definition takes at least one
    /// character, so within that room spawning cannot reach the allocator's limit).
    pub fn load_scene_source(&mut self, path: &str, text: &str) -> (r: Result<(), EditorError>)
        ensures
            r is Ok <==> (parsed_scene(text@) is Some && world_alive(old(self).world).len() + text@.len()
                <= 0xFFFF_FFFF),
            (r matches Err(EditorError::SceneParse(_))) <==> parsed_scene(text@) is None,
            r is Err ==> {
                &&& (r matches Err(EditorError::SceneParse(_)) || r matches Err(EditorError::EntityLimit))
                &&& final(self).world == old(self).world
                &&& final(self).tracked_entities@ == old(self).tracked_entities@
                &&& final(self).state@ == old(self).state@
            },
            world_alive(old(self).world).subset_of(world_alive(final(self).world)),
            world_clock_frame(final(self).world) == world_clock_frame(old(self).world),
            r is Ok ==> {
                &&& final(self).state@ == (EditorStateView { scene_path: Some(path@), ..old(self).state@ })
                &&& final(self).tracked_entities@.len() == old(self).tracked_entities@.len()
                    + parsed_scene(text@)->0.len()
                &&& final(self).tracked_entities@.take(old(self).tracked_entities@.len() as int)
                    == old(self).tracked_entities@
                &&& forall|i: int| old(self).tracked_entities@.len() <= i < final(self).tracked_entities@.len() ==> {
                    &&& !world_alive(old(self).world).contains(entity_raw_id(#[trigger] final(self).tracked_entities@[i]))
                    &&& world_alive(final(self).world).contains(entity_raw_id(final(self).tracked_entities@[i]))
                    &&& world_names(final(self).world).contains_key(index_of_id(entity_raw_id(final(self).tracked_entities@[i])))
                    &&& world_names(final(self).world)[index_of_id(entity_raw_id(final(self).tracked_entities@[i]))]
                        == parsed_scene(text@)->0[i - old(self).tracked_entities@.len()]
                }
            },
    {
        let scene = match parse_scene(text) {
            Ok(s) => s,
            Err(e) => {
                return Err(EditorError::SceneParse(e));
            },
        };
        let room: u128 = 0xFFFF_FFFF;
        if self.world.entity_count() as u128 + text.unicode_len() as u128 > room {
            return Err(EditorError::EntityLimit);
        }
        let spawned = match spawn_scene(&mut self.world, &scene) {
            Ok(v) => v,
            Err(e) => {
                return Err(EditorError::SceneSpawn(e));
            },
        };
        let ghost before = self.tracked_entities@;
        let ghost world_now = self.world;
        let ghost state_now = self.state@;
        let mut i: usize = 0;
        while i < spawned.len()
            invariant
                i <= spawned@.len(),
                self.tracked_entities@ == before + spawned@.take(i as int),
                self.world == world_now,
                self.state@ == state_now,
            decreases spawned@.len() - i,
        {
            self.tracked_entities.push(spawned[i]);
            proof {
                assert(spawned@.take(i + 1) =~= spawned@.take(i as int).push(spawned@[i as int]));
                assert(before + spawned@.take(i + 1) =~= (before + spawned@.take(i as int)).push(spawned@[i as int]));
            }
            i = i + 1;
        }
        proof {
            assert(spawned@.take(spawned@.len() as int) =~= spawned@);
            assert(self.tracked_entities@.take(before.len() as int) =~= before);
            assert forall|k: int| before.len() <= k < self.tracked_entities@.len() implies
                self.tracked_entities@[k] == spawned@[k - before.len()] by {}
        }
        self.state.scene_path = Some(String::from_str(path));
        Ok(())
    }

    /// Entity count in the world.
    pub fn entity_count(&self) -> (r: usize)
        ensures
            r == world_alive(self.world).len(),
    {
        self.world.entity_count()
    }

    /// The tracked entities that are still alive, in tracking order.
    pub fn entities(&self) -> (r: Vec<kiran::Entity>)
        ensures
            r@ == self.tracked_entities@.filter(live_in(self.world)),
    {
        let mut out: Vec<kiran::Entity> = Vec::new();
        let mut i: usize = 0;
        while i < self.tracked_entities.len()
            invariant
                i <= self.tracked_entities@.len(),
                out@ == self.tracked_entities@.take(i as int).filter(live_in(self.world)),
            decreases self.tracked_entities@.len() - i,
        {
            let e = self.tracked_entities[i];
            proof {
                assert(self.tracked_entities@.take(i + 1) == self.tracked_entities@.take(i as int).push(e));
                self.tracked_entities@.take(i as int).lemma_filter_push(e, live_in(self.world));
            }
            if self.world.is_alive(e) {
                out.push(e);
            }
            i = i + 1;
        }
        proof {
            assert(self.tracked_entities@.take(self.tracked_entities@.len() as int) == self.tracked_entities@);
        }
        out
    }

    /// Despawn an entity and remove it from tracking and selection.
    /// Fails, changing nothing, when the entity is not alive.
    pub fn despawn_entity(&mut self, entity: kiran::Entity) -> (r: Result<(), EditorError>)
        requires
            world_alive(old(self).world).contains(entity_raw_id(entity)) ==> entity_raw_id(entity)
                < 0xFFFF_FFFF_0000_0000u64,
        ensures
            r.is_ok() == world_alive(old(self).world).contains(entity_raw_id(entity)),
            r.is_ok() ==> {
                &&& world_alive(final(self).world) == world_alive(old(self).world).remove(entity_raw_id(entity))
                &&& crate::ecs::components_cleared(old(self).world, final(self).world, index_of_id(entity_raw_id(entity)))
                &&& world_clock_frame(final(self).world) == world_clock_frame(old(self).world)
                &&& final(self).tracked_entities@ == without_entity(old(self).tracked_entities@, entity_raw_id(entity))
                &&& final(self).state@ == old(self).state@.with_selection(
                    without_id(old(self).state@.selection, entity_raw_id(entity)))
                &&& old(self).state@.selection_unique() ==> final(self).state@.selection_unique()
            },
            r is Err ==> (r matches Err(EditorError::EntityNotAlive(e)) && e == entity),
            r matches Err(EditorError::EntityNotAlive(e)) ==> {
                &&& e == entity
                &&& final(self).world == old(self).world
                &&& final(self).tracked_entities@ == old(self).tracked_entities@
                &&& final(self).state@ == old(self).state@
            },
    {
        match self.world.despawn(entity) {
            Ok(()) => {},
            Err(_) => {
                return Err(EditorError::EntityNotAlive(entity));
            },
        }
        let id = entity.id();
        let mut kept: Vec<kiran::Entity> = Vec::new();
        let mut i: usize = 0;
        while i < self.tracked_entities.len()
            invariant
                i <= self.tracked_entities@.len(),
                kept@ == without_entity(self.tracked_entities@.take(i as int), id),
            decreases self.tracked_entities@.len() - i,
        {
            let e = self.tracked_entities[i];
            proof {
                assert(self.tracked_entities@.take(i + 1) == self.tracked_entities@.take(i as int).push(e));
                self.tracked_entities@.take(i as int).lemma_filter_push(e, entity_is_not(id));
            }
            if e.id() != id {
                kept.push(e);
            }
            i = i + 1;
        }
        proof {
            assert(self.tracked_entities@.take(self.tracked_entities@.len() as int) == self.tracked_entities@);
        }
        self.tracked_entities = kept;
        self.state.retain_unselected(id);
        proof {
            if old(self).state@.selection_unique() {
                law_selection_stays_unique(old(self).state@.selection, id);
            }
        }
        Ok(())
    }
}

impl Default for EditorApp {
    fn default() -> (r: Self)
        ensures
            r.state@ == initial_state_view(),
            r.tracked_entities@.len() == 0,
            world_alive(r.world) == Set::<u64>::empty(),
            world_clock_frame(r.world) == Some(0u64),
            crate::ecs::no_components(r.world),
    {
        Self::new()
    }
}

/// Toggling play never lands in Editing; from Playing two toggles come back to Playing,
/// and Paused and Playing alternate.
pub proof fn law_toggle_play_cycle(s: PlayState)
    ensures
        toggled(s) != PlayState::Editing,
        toggled(toggled(toggled(s))) == toggled(s),
        toggled(PlayState::Playing) == PlayState::Paused,
        toggled(PlayState::Paused) == PlayState::Playing,
{
}

/// Every selection operation keeps the selection free of duplicates.
pub proof fn law_selection_stays_unique(s: Seq<u64>, id: u64)
    requires
        s.no_duplicates(),
    ensures
        seq![id].no_duplicates(),
        (if s.contains(id) { s } else { s.push(id) }).no_duplicates(),
        toggled_selection(s, id).no_duplicates(),
        without_id(s, id).no_duplicates(),
{
    broadcast use vstd::seq_lib::group_seq_properties;
    let p = id_is_not(id);
    lemma_filter_keeps_unique(s, p);
    if !s.contains(id) {
        assert forall|i: int, j: int| 0 <= i < s.push(id).len() && 0 <= j < s.push(id).len() && i != j
            implies s.push(id)[i] != s.push(id)[j] by {
            if i == s.len() as int {
                assert(s.push(id)[j] == s[j]);
            } else if j == s.len() as int {
                assert(s.push(id)[i] == s[i]);
            }
        }
    } else {
        let k = first_index_of(s, id);
        let r = s.remove(k);
        assert forall|i: int, j: int| 0 <= i < r.len() && 0 <= j < r.len() && i != j implies r[i] != r[j] by {
            let i2 = if i < k { i } else { i + 1 };
            let j2 = if j < k { j } else { j + 1 };
            assert(r[i] == s[i2] && r[j] == s[j2]);
        }
    }
}

/// On a selection without duplicates (every reachable one), a ctrl-click flips whether the
/// entity is selected, keeps every other entity's membership, and changes the count by one.
pub proof fn law_toggle_flips_membership(s: Seq<u64>, id: u64)
    requires
        s.no_duplicates(),
    ensures
        toggled_selection(s, id).contains(id) == !s.contains(id),
        forall|x: u64| x != id ==> (toggled_selection(s, id).contains(x) == s.contains(x)),
        toggled_selection(s, id).len() == if s.contains(id) { s.len() - 1 } else { s.len() + 1int },
{
    if s.contains(id) {
        let k = first_index_of(s, id);
        let r = s.remove(k);
        assert(r =~= s.subrange(0, k) + s.subrange(k + 1, s.len() as int));
        if r.contains(id) {
            let j = choose|j: int| 0 <= j < r.len() && r[j] == id;
            let j2 = if j < k { j } else { j + 1 };
            assert(s[j2] == s[k]);
        }
        assert forall|x: u64| x != id implies (r.contains(x) == s.contains(x)) by {
            if s.contains(x) {
                let j = choose|j: int| 0 <= j < s.len() && s[j] == x;
                assert(j != k);
                let j2 = if j < k { j } else { j - 1 };
                assert(r[j2] == x);
            }
            if r.contains(x) {
                let j = choose|j: int| 0 <= j < r.len() && r[j] == x;
                let j2 = if j < k { j } else { j + 1 };
                assert(s[j2] == x);
            }
        }
    } else {
        let t = s.push(id);
        assert(t[s.len() as int] == id);
        assert forall|x: u64| x != id implies (t.contains(x) == s.contains(x)) by {
            if s.contains(x) {
                let j = choose|j: int| 0 <= j < s.len() && s[j] == x;
                assert(t[j] == x);
            }
            if t.contains(x) {
                let j = choose|j: int| 0 <= j < t.len() && t[j] == x;
                assert(s[j] == x);
            }
        }
    }
}

/// A ctrl-click on a selected entity removes it and keeps every other entity in its old
/// order (so the primary selection becomes the first remaining one); on an unselected
/// entity it appends it after the others.
pub proof fn law_toggle_keeps_order(s: Seq<u64>, id: u64, k: int)
    requires
        s.no_duplicates(),
        0 <= k < s.len(),
        s[k] == id,
    ensures
        toggled_selection(s, id) == s.subrange(0, k) + s.subrange(k + 1, s.len() as int),
        toggled_selection(s.remove(k), id) == s.remove(k).push(id),
        k > 0 ==> toggled_selection(s, id)[0] == s[0],
        k == 0 && s.len() > 1 ==> toggled_selection(s, id)[0] == s[1],
{
    assert(s.contains(id));
    let f = first_index_of(s, id);
    assert(0 <= f < s.len() && s[f] == id);
    assert(f == k);
    assert(s.remove(k) =~= s.subrange(0, k) + s.subrange(k + 1, s.len() as int));
    let r = s.remove(k);
    if r.contains(id) {
        let j = choose|j: int| 0 <= j < r.len() && r[j] == id;
        let j2 = if j < k { j } else { j + 1 };
        assert(r[j] == s[j2]);
    }
}

/// On a selection without duplicates, the selection count is the number of distinct
/// selected entities.
pub proof fn law_selection_count_is_distinct(s: Seq<u64>)
    requires
        s.no_duplicates(),
    ensures
        s.to_set().len() == s.len(),
{
    s.unique_seq_to_set();
}

proof fn lemma_filter_keeps_unique(s: Seq<u64>, p: spec_fn(u64) -> bool)
    requires
        s.no_duplicates(),
    ensures
        s.filter(p).no_duplicates(),
        forall|x: u64| #[trigger] s.filter(p).contains(x) ==> s.contains(x),
    decreases s.len(),
{
    reveal(Seq::filter);
    if s.len() > 0 {
        let t = s.drop_last();
        assert(t.no_duplicates());
        lemma_filter_keeps_unique(t, p);
        if p(s.last()) {
            assert(!t.contains(s.last())) by {
                if t.contains(s.last()) {
                    let j = choose|j: int| 0 <= j < t.len() && t[j] == s.last();
                    assert(s[j] == s[s.len() - 1]);
                }
            }
            let f = t.filter(p).push(s.last());
            assert forall|i: int, j: int| 0 <= i < f.len() && 0 <= j < f.len() && i != j implies f[i] != f[j] by {
                if i == f.len() - 1 {
                    assert(t.filter(p).contains(f[j]));
                } else if j == f.len() - 1 {
                    assert(t.filter(p).contains(f[i]));
                }
            }
            assert forall|x: u64| f.contains(x) implies s.contains(x) by {
                let j = choose|j: int| 0 <= j < f.len() && f[j] == x;
                if j < f.len() - 1 {
                    assert(f[j] == t.filter(p)[j]);
                    assert(t.filter(p).contains(x));
                    assert(t.contains(x));
                    let m = choose|m: int| 0 <= m < t.len() && t[m] == x;
                    assert(s[m] == x);
                } else {
                    assert(s[s.len() - 1] == x);
                }
            }
        } else {
            assert forall|x: u64| t.filter(p).contains(x) implies s.contains(x) by {
                let m = choose|m: int| 0 <= m < t.len() && t[m] == x;
                assert(s[m] == x);
            }
        }
    }
}

/// A ctrl-click applied twice to the same entity leaves the set of selected entities as it
/// was (the entity may move to the end).
pub proof fn law_toggle_twice_same_members(s: Seq<u64>, id: u64)
    requires
        s.no_duplicates(),
    ensures
        forall|x: u64| toggled_selection(toggled_selection(s, id), id).contains(x) <==> s.contains(x),
{
    broadcast use vstd::seq_lib::group_seq_properties;
    law_selection_stays_unique(s, id);
    let t = toggled_selection(s, id);
    if s.contains(id) {
        let k = first_index_of(s, id);
        assert(!t.contains(id)) by {
            if t.contains(id) {
                let j = choose|j: int| 0 <= j < t.len() && t[j] == id;
                let j2 = if j < k { j } else { j + 1 };
                assert(t[j] == s[j2]);
            }
        }
        assert(toggled_selection(t, id) == t.push(id));
        assert forall|x: u64| t.push(id).contains(x) <==> s.contains(x) by {
            if s.contains(x) && x != id {
                let m = choose|m: int| 0 <= m < s.len() && s[m] == x;
                let m2 = if m < k { m } else { m - 1 };
                assert(t[m2] == x);
                assert(t.push(id)[m2] == x);
            }
            if t.push(id).contains(x) {
                let m = choose|m: int| 0 <= m < t.push(id).len() && t.push(id)[m] == x;
                if m < t.len() {
                    let m2 = if m < k { m } else { m + 1 };
                    assert(s[m2] == x);
                }
            }
            if x == id {
                assert(t.push(id)[t.len() as int] == id);
            }
        }
    } else {
        assert(t.contains(id)) by {
            assert(t[s.len() as int] == id);
        }
        let k = first_index_of(t, id);
        assert(k == s.len()) by {
            if k < s.len() {
                assert(t[k] == s[k]);
            }
        }
        assert(toggled_selection(t, id) =~= s);
    }
}

/// Spawning an entity and then despawning it gives back the live set, and, when the
/// fresh handle was not tracked before, the tracked list and any selection without it.
pub proof fn law_spawn_then_despawn_restores(
    alive: Set<u64>,
    listed: Seq<kiran::Entity>,
    selection: Seq<u64>,
    e: kiran::Entity,
)
    requires
        !alive.contains(entity_raw_id(e)),
        forall|i: int| 0 <= i < listed.len() ==> entity_raw_id(#[trigger] listed[i]) != entity_raw_id(e),
        !selection.contains(entity_raw_id(e)),
    ensures
        alive.insert(entity_raw_id(e)).remove(entity_raw_id(e)) == alive,
        without_entity(listed.push(e), entity_raw_id(e)) == listed,
        without_id(selection, entity_raw_id(e)) == selection,
{
    assert(alive.insert(entity_raw_id(e)).remove(entity_raw_id(e)) =~= alive);
    listed.lemma_filter_push(e, entity_is_not(entity_raw_id(e)));
    lemma_filter_all(listed, entity_is_not(entity_raw_id(e)));
    lemma_filter_all(selection, id_is_not(entity_raw_id(e)));
}

proof fn lemma_filter_all<A>(s: Seq<A>, p: spec_fn(A) -> bool)
    requires
        forall|i: int| 0 <= i < s.len() ==> p(#[trigger] s[i]),
    ensures
        s.filter(p) == s,
    decreases s.len(),
{
    reveal(Seq::filter);
    if s.len() > 0 {
        lemma_filter_all(s.drop_last(), p);
        assert(s.drop_last().push(s.last()) =~= s);
    }
}

} // verus!
