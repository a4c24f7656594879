//! Scene hierarchy tree — parent-child entity relationships for display.

use vstd::prelude::*;
use crate::ecs::{
    entity_children, entity_name, entity_raw_id, has_parent, index_of_id, world_alive,
    world_children, world_names, world_parented,
};
use crate::text::{decimal, digits_value, law_decimal_denotes, law_decimal_injective, push_decimal};

verus! {

/// A node in the hierarchy tree.
#[derive(Debug)]
pub struct HierarchyNode {
    pub entity: kiran::Entity,
    pub name: String,
    pub children: Vec<HierarchyNode>,
    pub depth: usize,
}

/// How kiran displays an entity with raw id `id`: its index, `v`, its generation.
pub open spec fn entity_display(id: u64) -> Seq<char> {
    decimal(id as nat % 0x1_0000_0000) + "v"@ + decimal(id as nat / 0x1_0000_0000)
}

/// An entity's display reads back as its full index and generation: a run of decimal
/// digits denoting the index, `v`, and a run of decimal digits denoting the generation.
pub proof fn law_entity_display_reads_back(id: u64)
    ensures
        entity_display(id) == decimal(id as nat % 0x1_0000_0000) + seq!['v'] + decimal(id as nat / 0x1_0000_0000),
        digits_value(decimal(id as nat % 0x1_0000_0000)) == id as nat % 0x1_0000_0000,
        digits_value(decimal(id as nat / 0x1_0000_0000)) == id as nat / 0x1_0000_0000,
        forall|i: int| 0 <= i < decimal(id as nat % 0x1_0000_0000).len()
            ==> '0' <= #[trigger] decimal(id as nat % 0x1_0000_0000)[i] <= '9',
{
    reveal_strlit("v");
    assert("v"@ =~= seq!['v']);
    law_decimal_denotes(id as nat % 0x1_0000_0000);
    law_decimal_denotes(id as nat / 0x1_0000_0000);
}

/// Distinct entities have distinct displays, so unnamed entities get distinct labels.
pub proof fn law_entity_display_injective(a: u64, b: u64)
    requires
        entity_display(a) == entity_display(b),
    ensures
        a == b,
{
    law_entity_display_reads_back(a);
    law_entity_display_reads_back(b);
    let ia = decimal(a as nat % 0x1_0000_0000);
    let ib = decimal(b as nat % 0x1_0000_0000);
    let ga = decimal(a as nat / 0x1_0000_0000);
    let gb = decimal(b as nat / 0x1_0000_0000);
    let da = entity_display(a);
    assert(da[ia.len() as int] == 'v');
    assert(entity_display(b)[ib.len() as int] == 'v');
    if ia.len() < ib.len() {
        assert(entity_display(b)[ia.len() as int] == ib[ia.len() as int]);
        assert(false);
    } else if ib.len() < ia.len() {
        assert(da[ib.len() as int] == ia[ib.len() as int]);
        assert(false);
    }
    assert(ia =~= da.subrange(0, ia.len() as int));
    assert(ib =~= entity_display(b).subrange(0, ib.len() as int));
    assert(ga =~= da.subrange(ia.len() + 1int, da.len() as int));
    assert(gb =~= entity_display(b).subrange(ib.len() + 1int, entity_display(b).len() as int));
    law_decimal_injective(a as nat % 0x1_0000_0000, b as nat % 0x1_0000_0000);
    law_decimal_injective(a as nat / 0x1_0000_0000, b as nat / 0x1_0000_0000);
    assert(a as nat == (a as nat / 0x1_0000_0000) * 0x1_0000_0000 + a as nat % 0x1_0000_0000);
    assert(b as nat == (b as nat / 0x1_0000_0000) * 0x1_0000_0000 + b as nat % 0x1_0000_0000);
}

/// The label of an entity in the tree: its `Name`, else `Entity <index>v<generation>`.
pub open spec fn label_of(w: kiran::World, id: u64) -> Seq<char> {
    if world_names(w).contains_key(index_of_id(id)) {
        world_names(w)[index_of_id(id)]
    } else {
        "Entity "@ + entity_display(id)
    }
}

/// The live children (raw ids, stored order) listed at the entity's index.
pub open spec fn live_children(w: kiran::World, id: u64) -> Seq<u64> {
    if world_children(w).contains_key(index_of_id(id)) {
        world_children(w)[index_of_id(id)].filter(|c: u64| world_alive(w).contains(c))
    } else {
        Seq::empty()
    }
}

/// `rank` strictly decreases from every index to the index of each live child listed
/// there: the child links through live entities form no cycle.
pub open spec fn ranks_children(w: kiran::World, rank: spec_fn(u32) -> nat) -> bool {
    forall|i: u32, c: u64|
        world_children(w).contains_key(i) && #[trigger] world_children(w)[i].contains(c)
            && world_alive(w).contains(c) ==> rank(index_of_id(c)) < rank(i)
}

/// The child links of `w` admit a rank: building the tree terminates.
pub open spec fn acyclic_children(w: kiran::World) -> bool {
    exists|rank: spec_fn(u32) -> nat| ranks_children(w, rank)
}

/// From the entity with raw id `id` a path of `k` steps leads down through live children.
pub open spec fn has_chain(w: kiran::World, id: u64, k: nat) -> bool
    decreases k,
{
    if k == 0 {
        true
    } else {
        exists|c: u64| #[trigger] live_children(w, id).contains(c) && has_chain(w, c, (k - 1) as nat)
    }
}

/// Under a rank, the `k` entities below `id` on a chain are distinct live entities of lower
/// rank.
proof fn lemma_chain_entities(w: kiran::World, rank: spec_fn(u32) -> nat, id: u64, k: nat) -> (s: Set<u64>)
    requires
        ranks_children(w, rank),
        has_chain(w, id, k),
    ensures
        s.finite(),
        s.len() == k,
        s.subset_of(world_alive(w)),
        forall|x: u64| #[trigger] s.contains(x) ==> rank(index_of_id(x)) < rank(index_of_id(id)),
    decreases k,
{
    if k == 0 {
        Set::empty()
    } else {
        let c = choose|c: u64| #[trigger] live_children(w, id).contains(c) && has_chain(w, c, (k - 1) as nat);
        let i = index_of_id(id);
        let ids = world_children(w)[i];
        let alive = |x: u64| world_alive(w).contains(x);
        assert(world_children(w).contains_key(i));
        assert(live_children(w, id) == ids.filter(alive));
        ids.lemma_filter_contains_rev(alive, c);
        let j = choose|j: int| 0 <= j < ids.filter(alive).len() && ids.filter(alive)[j] == c;
        ids.lemma_filter_pred(alive, j);
        assert(world_alive(w).contains(c));
        assert(rank(index_of_id(c)) < rank(i));
        let below = lemma_chain_entities(w, rank, c, (k - 1) as nat);
        assert(!below.contains(c));
        below.insert(c)
    }
}

/// On a world whose child links admit a rank, no chain is longer than the number of live
/// entities.
proof fn lemma_chain_bounded(w: kiran::World, id: u64, k: nat)
    requires
        acyclic_children(w),
        world_alive(w).finite(),
        has_chain(w, id, k),
    ensures
        k <= world_alive(w).len(),
{
    let rank = choose|rank: spec_fn(u32) -> nat| ranks_children(w, rank);
    let s = lemma_chain_entities(w, rank, id, k);
    vstd::set_lib::lemma_len_subset(s, world_alive(w));
}

/// `n` is the subtree of `w` rooted at its entity, at depth `depth`: its label, and one
/// child subtree per live child in stored order.
pub open spec fn is_subtree(w: kiran::World, n: HierarchyNode, depth: nat) -> bool
    decreases n,
{
    &&& n.depth == depth
    &&& n.name@ == label_of(w, entity_raw_id(n.entity))
    &&& n.children@.len() == live_children(w, entity_raw_id(n.entity)).len()
    &&& forall|i: int| 0 <= i < n.children@.len() ==> {
        &&& entity_raw_id((#[trigger] n.children@[i]).entity) == live_children(w, entity_raw_id(n.entity))[i]
        &&& is_subtree(w, n.children@[i], depth + 1)
    }
}

/// Entities of `entities` that are alive and have no parent, in order.
pub open spec fn root_entities(w: kiran::World, entities: Seq<kiran::Entity>) -> Seq<kiran::Entity> {
    entities.filter(|e: kiran::Entity| is_root(w, e))
}

/// A live entity without a `Parent` component.
pub open spec fn is_root(w: kiran::World, e: kiran::Entity) -> bool {
    world_alive(w).contains(entity_raw_id(e)) && !world_parented(w).contains(index_of_id(entity_raw_id(e)))
}

/// `Entity <index>v<generation>`.
fn default_label(entity: kiran::Entity) -> (s: String)
    ensures
        s@ == "Entity "@ + entity_display(entity_raw_id(entity)),
{
    let mut s = String::from_str("Entity ");
    push_decimal(&mut s, entity.index() as u64);
    s.append("v");
    push_decimal(&mut s, entity.generation() as u64);
    s
}

/// The subtree of `entity` at `depth`, built while fewer than `budget` levels lie below it;
/// `None` when a chain of `budget` live-child steps leads down from it.
fn build_node(world: &kiran::World, entity: kiran::Entity, depth: usize, budget: usize) -> (r: Option<HierarchyNode>)
    requires
        depth + budget <= usize::MAX,
    ensures
        match r {
            Some(n) => n.entity == entity && is_subtree(*world, n, depth as nat)
                && !has_chain(*world, entity_raw_id(entity), budget as nat),
            None => has_chain(*world, entity_raw_id(entity), budget as nat),
        },
    decreases budget,
{
    if budget == 0 {
        return None;
    }
    let name = match entity_name(world, entity) {
        Some(s) => s,
        None => default_label(entity),
    };
    let ghost id = entity_raw_id(entity);
    let mut children: Vec<HierarchyNode> = Vec::new();
    match entity_children(world, entity) {
        Some(list) => {
            let ghost ids = list@.map_values(|c: kiran::Entity| entity_raw_id(c));
            let ghost alive_pred = |c: u64| world_alive(*world).contains(c);
            let mut i: usize = 0;
            while i < list.len()
                invariant
                    i <= list@.len(),
                    0 < budget,
                    depth + budget <= usize::MAX,
                    id == entity_raw_id(entity),
                    ids == list@.map_values(|c: kiran::Entity| entity_raw_id(c)),
                    ids == world_children(*world)[index_of_id(id)],
                    world_children(*world).contains_key(index_of_id(id)),
                    alive_pred == (|c: u64| world_alive(*world).contains(c)),
                    children@.len() == ids.take(i as int).filter(alive_pred).len(),
                    forall|k: int| 0 <= k < children@.len() ==> {
                        &&& entity_raw_id((#[trigger] children@[k]).entity) == ids.take(i as int).filter(alive_pred)[k]
                        &&& is_subtree(*world, children@[k], depth as nat + 1)
                    },
                    forall|k: int| 0 <= k < i && world_alive(*world).contains(#[trigger] ids[k])
                        ==> !has_chain(*world, ids[k], (budget - 1) as nat),
                decreases list@.len() - i,
            {
                let c = list[i];
                proof {
                    assert(ids.take(i + 1) =~= ids.take(i as int).push(entity_raw_id(c)));
                    ids.take(i as int).lemma_filter_push(entity_raw_id(c), alive_pred);
                }
                if world.is_alive(c) {
                    match build_node(world, c, depth + 1, budget - 1) {
                        Some(child) => {
                            children.push(child);
                        },
                        None => {
                            proof {
                                assert(ids[i as int] == entity_raw_id(c));
                                ids.lemma_filter_contains(alive_pred, i as int);
                                assert(live_children(*world, id).contains(entity_raw_id(c)));
                            }
                            return None;
                        },
                    }
                }
                i = i + 1;
            }
            proof {
                assert(ids.take(list@.len() as int) =~= ids);
                assert forall|c: u64| #[trigger] live_children(*world, id).contains(c) implies !has_chain(
                    *world,
                    c,
                    (budget - 1) as nat,
                ) by {
                    assert(live_children(*world, id) == ids.filter(alive_pred));
                    ids.lemma_filter_contains_rev(alive_pred, c);
                    let j = choose|j: int| 0 <= j < ids.filter(alive_pred).len() && ids.filter(alive_pred)[j] == c;
                    ids.lemma_filter_pred(alive_pred, j);
                    let k = choose|k: int| 0 <= k < ids.len() && ids[k] == c;
                    assert(world_alive(*world).contains(ids[k]));
                }
            }
        },
        None => {
            proof {
                assert(live_children(*world, id) =~= Seq::<u64>::empty());
            }
        },
    }
    Some(HierarchyNode { entity, name, children, depth })
}

/// No listed root has a chain of live children longer than the number of live entities
/// below it: building its tree terminates (the child links below the roots form no cycle).
pub open spec fn finite_below_roots(w: kiran::World, entities: Seq<kiran::Entity>) -> bool {
    forall|i: int| 0 <= i < entities.len() && is_root(w, #[trigger] entities[i])
        ==> !has_chain(w, entity_raw_id(entities[i]), world_alive(w).len() + 1)
}

/// Build the hierarchy tree when no cycle of child links lies below a listed root; `None`
/// exactly when one does (a chain of live children longer than the number of live entities
/// leads down from a root). Otherwise one tree per root entity (alive, without a `Parent`
/// component) of `entities`, in order.
pub fn try_build_hierarchy(world: &kiran::World, entities: &[kiran::Entity]) -> (r: Option<Vec<HierarchyNode>>)
    ensures
        r is Some <==> finite_below_roots(*world, entities@),
        r matches Some(roots) ==> {
            &&& roots@.len() == root_entities(*world, entities@).len()
            &&& forall|i: int| 0 <= i < roots@.len() ==> {
                &&& (#[trigger] roots@[i]).entity == root_entities(*world, entities@)[i]
                &&& is_subtree(*world, roots@[i], 0)
            }
        },
{
    let budget = world.entity_count() + 1;
    let ghost root_pred = |e: kiran::Entity| is_root(*world, e);
    let mut roots: Vec<HierarchyNode> = Vec::new();
    let mut i: usize = 0;
    while i < entities.len()
        invariant
            i <= entities@.len(),
            budget == world_alive(*world).len() + 1,
            root_pred == (|e: kiran::Entity| is_root(*world, e)),
            roots@.len() == entities@.take(i as int).filter(root_pred).len(),
            forall|k: int| 0 <= k < roots@.len() ==> {
                &&& (#[trigger] roots@[k]).entity == entities@.take(i as int).filter(root_pred)[k]
                &&& is_subtree(*world, roots@[k], 0)
            },
            forall|k: int| 0 <= k < i && is_root(*world, #[trigger] entities@[k])
                ==> !has_chain(*world, entity_raw_id(entities@[k]), world_alive(*world).len() + 1),
        decreases entities@.len() - i,
    {
        let entity = entities[i];
        proof {
            assert(entities@.take(i + 1) =~= entities@.take(i as int).push(entity));
            entities@.take(i as int).lemma_filter_push(entity, root_pred);
        }
        if world.is_alive(entity) && !has_parent(world, entity) {
            match build_node(world, entity, 0, budget) {
                Some(node) => {
                    roots.push(node);
                },
                None => {
                    proof {
                        assert(is_root(*world, entities@[i as int]));
                    }
                    return None;
                },
            }
        }
        i = i + 1;
    }
    proof {
        assert(entities@.take(entities@.len() as int) =~= entities@);
    }
    Some(roots)
}

/// Build the hierarchy tree from the world: one tree per root entity (alive, without a
/// `Parent` component) of `entities`, in order. No cycle of child links may lie below a
/// listed root (its tree would be infinite).
pub fn build_hierarchy(world: &kiran::World, entities: &[kiran::Entity]) -> (roots: Vec<HierarchyNode>)
    requires
        finite_below_roots(*world, entities@),
    ensures
        roots@.len() == root_entities(*world, entities@).len(),
        forall|i: int| 0 <= i < roots@.len() ==> {
            &&& (#[trigger] roots@[i]).entity == root_entities(*world, entities@)[i]
            &&& is_subtree(*world, roots@[i], 0)
        },
{
    match try_build_hierarchy(world, entities) {
        Some(roots) => roots,
        None => {
            proof {
                assert(false);
            }
            Vec::new()
        },
    }
}

/// A world whose child links form no cycle at all builds a tree from any list of entities.
pub proof fn law_acyclic_world_builds(w: kiran::World, entities: Seq<kiran::Entity>)
    requires
        acyclic_children(w),
        world_alive(w).finite(),
    ensures
        finite_below_roots(w, entities),
{
    assert forall|i: int| 0 <= i < entities.len() && is_root(w, #[trigger] entities[i]) implies !has_chain(
        w,
        entity_raw_id(entities[i]),
        world_alive(w).len() + 1,
    ) by {
        if has_chain(w, entity_raw_id(entities[i]), world_alive(w).len() + 1) {
            lemma_chain_bounded(w, entity_raw_id(entities[i]), world_alive(w).len() + 1);
        }
    }
}

/// Display row of a node: depth, entity, label.
pub open spec fn row_of(n: HierarchyNode) -> (usize, kiran::Entity, Seq<char>) {
    (n.depth, n.entity, n.name@)
}

/// A node followed, depth first, by the rows of its subtrees.
pub open spec fn subtree_rows(n: HierarchyNode) -> Seq<(usize, kiran::Entity, Seq<char>)>
    decreases n,
{
    seq![row_of(n)] + forest_rows(n.children@)
}

/// The rows of a forest: each tree depth first, trees in order.
pub open spec fn forest_rows(s: Seq<HierarchyNode>) -> Seq<(usize, kiran::Entity, Seq<char>)>
    decreases s,
{
    if s.len() == 0 {
        Seq::empty()
    } else {
        subtree_rows(s[0]) + forest_rows(s.subrange(1, s.len() as int))
    }
}

/// Rows as the caller sees them, labels by their characters.
pub open spec fn rows_view(v: Seq<(usize, kiran::Entity, &str)>) -> Seq<(usize, kiran::Entity, Seq<char>)> {
    v.map_values(|t: (usize, kiran::Entity, &str)| (t.0, t.1, t.2@))
}

/// Rows of a forest split at any point are the rows of the two parts.
pub proof fn lemma_forest_rows_append(a: Seq<HierarchyNode>, b: Seq<HierarchyNode>)
    ensures
        forest_rows(a + b) == forest_rows(a) + forest_rows(b),
    decreases a.len(),
{
    if a.len() == 0 {
        assert(a + b =~= b);
    } else {
        assert((a + b).subrange(1, (a + b).len() as int) =~= a.subrange(1, a.len() as int) + b);
        lemma_forest_rows_append(a.subrange(1, a.len() as int), b);
        assert((a + b)[0] == a[0]);
    }
}

proof fn lemma_forest_rows_push(s: Seq<HierarchyNode>, n: HierarchyNode)
    ensures
        forest_rows(s.push(n)) == forest_rows(s) + subtree_rows(n),
{
    lemma_forest_rows_append(s, seq![n]);
    assert(s.push(n) =~= s + seq![n]);
    assert(seq![n].subrange(1, 1) =~= Seq::<HierarchyNode>::empty());
    assert(forest_rows(seq![n]) =~= subtree_rows(n) + forest_rows(Seq::<HierarchyNode>::empty()));
}

fn flatten_node<'a>(node: &'a HierarchyNode, result: &mut Vec<(usize, kiran::Entity, &'a str)>)
    ensures
        rows_view(final(result)@) == rows_view(old(result)@) + subtree_rows(*node),
    decreases node,
{
    result.push((node.depth, node.entity, node.name.as_str()));
    proof {
        assert(rows_view(result@) =~= rows_view(old(result)@) + seq![row_of(*node)]);
        assert(node.children@.take(0) =~= Seq::<HierarchyNode>::empty());
    }
    let mut i: usize = 0;
    while i < node.children.len()
        invariant
            i <= node.children@.len(),
            rows_view(result@) == rows_view(old(result)@) + seq![row_of(*node)] + forest_rows(node.children@.take(i as int)),
        decreases node.children@.len() - i,
    {
        let child = &node.children[i];
        let ghost before = rows_view(result@);
        flatten_node(child, result);
        proof {
            assert(node.children@.take(i + 1) =~= node.children@.take(i as int).push(*child));
            lemma_forest_rows_push(node.children@.take(i as int), *child);
        }
        i = i + 1;
    }
    proof {
        assert(node.children@.take(node.children@.len() as int) =~= node.children@);
    }
}

/// Flatten a hierarchy tree into a depth-first list of `(depth, entity, label)` for display.
pub fn flatten_hierarchy(nodes: &[HierarchyNode]) -> (rows: Vec<(usize, kiran::Entity, &str)>)
    ensures
        rows_view(rows@) == forest_rows(nodes@),
{
    let mut result: Vec<(usize, kiran::Entity, &str)> = Vec::new();
    proof {
        assert(rows_view(result@) =~= forest_rows(nodes@.take(0)));
    }
    let mut i: usize = 0;
    while i < nodes.len()
        invariant
            i <= nodes@.len(),
            rows_view(result@) == forest_rows(nodes@.take(i as int)),
        decreases nodes@.len() - i,
    {
        flatten_node(&nodes[i], &mut result);
        proof {
            assert(nodes@.take(i + 1) =~= nodes@.take(i as int).push(nodes@[i as int]));
            lemma_forest_rows_push(nodes@.take(i as int), nodes@[i as int]);
        }
        i = i + 1;
    }
    proof {
        assert(nodes@.take(nodes@.len() as int) =~= nodes@);
    }
    result
}

} // verus!
