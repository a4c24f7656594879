//! Entity inspector — component information for the inspector panel.

use vstd::prelude::*;
use crate::ecs::{
    components_cleared, entity_name, entity_raw_id, entity_tags, index_of_id, light_text, material_text,
    position_text, world_lights, world_materials, world_names, world_positions, world_tags,
};

verus! {

/// Component info for display in the inspector.
#[derive(Debug, Clone)]
pub struct ComponentInfo {
    pub name: &'static str,
    pub details: String,
}

/// `parts` joined with `sep` between neighbours (empty for no parts).
pub open spec fn joined(parts: Seq<Seq<char>>, sep: Seq<char>) -> Seq<char>
    decreases parts.len(),
{
    if parts.len() == 0 {
        Seq::empty()
    } else if parts.len() == 1 {
        parts[0]
    } else {
        joined(parts.drop_last(), sep) + sep + parts.last()
    }
}

/// A one-entry list holding `entry` when `flag` holds, else the empty list.
pub open spec fn listed_if(flag: bool, entry: (Seq<char>, Seq<char>)) -> Seq<(Seq<char>, Seq<char>)> {
    if flag {
        seq![entry]
    } else {
        Seq::empty()
    }
}

/// The texture shown for a material: its path, or `none`.
pub open spec fn texture_label(tex: Option<Seq<char>>) -> Seq<char> {
    match tex {
        Some(t) => t,
        None => "none"@,
    }
}

/// Position details: `(x, y, z)` from the rendered coordinates.
pub open spec fn position_details(coords: Seq<Seq<char>>) -> Seq<char> {
    "("@ + joined(coords, ", "@) + ")"@
}

/// Light details: `intensity: ` and the rendered intensity.
pub open spec fn light_details(intensity: Seq<char>) -> Seq<char> {
    "intensity: "@ + intensity
}

/// Material details: `color: [r, g, b, a] tex: ` and the texture path or `none`.
pub open spec fn material_details(m: (Seq<Seq<char>>, Option<Seq<char>>)) -> Seq<char> {
    "color: ["@ + joined(m.0, ", "@) + "] tex: "@ + texture_label(m.1)
}

/// What the inspector shows for entity index `i`, as (component name, details), in display
/// order: name, position, light, tags (joined with `, `), material; each only where the
/// index holds that component.
pub open spec fn inspected(w: kiran::World, i: u32) -> Seq<(Seq<char>, Seq<char>)> {
    listed_if(world_names(w).contains_key(i), ("Name"@, world_names(w)[i]))
        + listed_if(world_positions(w).contains_key(i), ("Position"@, position_details(world_positions(w)[i])))
        + listed_if(world_lights(w).contains_key(i), ("Light"@, light_details(world_lights(w)[i])))
        + listed_if(world_tags(w).contains_key(i), ("Tags"@, joined(world_tags(w)[i], ", "@)))
        + listed_if(world_materials(w).contains_key(i), ("Material"@, material_details(world_materials(w)[i])))
}

/// A component info as the pair of its name and details.
pub open spec fn info_view(c: ComponentInfo) -> (Seq<char>, Seq<char>) {
    (c.name@, c.details@)
}

/// Appends `parts` joined with `sep` to `out`.
fn push_joined(out: &mut String, parts: &Vec<String>, sep: &str)
    ensures
        final(out)@ == old(out)@ + joined(parts@.map_values(|p: String| p@), sep@),
{
    let ghost start = out@;
    let ghost views = parts@.map_values(|p: String| p@);
    let mut k: usize = 0;
    while k < parts.len()
        invariant
            k <= parts.len(),
            views == parts@.map_values(|p: String| p@),
            out@ == start + joined(views.subrange(0, k as int), sep@),
        decreases parts.len() - k,
    {
        if k > 0 {
            out.append(sep);
        }
        out.append(parts[k].as_str());
        proof {
            let prev = views.subrange(0, k as int);
            let next = views.subrange(0, k + 1);
            assert(next.drop_last() == prev);
            assert(next.last() == parts@[k as int]@);
            if k == 0 {
                assert(next == seq![parts@[0]@]);
            }
        }
        k = k + 1;
    }
    proof {
        assert(views.subrange(0, parts.len() as int) == views);
    }
}

/// Gathers the components of `entity` for display: its name, position, light, tags
/// (joined with `, `) and material (colour, then ` tex: ` and the texture path or `none`),
/// in that order, each only where the entity's index holds that component.
pub fn inspect_entity(world: &kiran::World, entity: kiran::Entity) -> (infos: Vec<ComponentInfo>)
    ensures
        infos@.map_values(|c: ComponentInfo| info_view(c)) == inspected(*world, index_of_id(entity_raw_id(entity))),
{
    let ghost i = index_of_id(entity_raw_id(entity));
    let mut infos: Vec<ComponentInfo> = Vec::new();
    let ghost e0 = infos@;
    if let Some(name) = entity_name(world, entity) {
        infos.push(ComponentInfo { name: "Name", details: name });
    }
    proof {
        assert(infos@.map_values(|c: ComponentInfo| info_view(c)) =~= listed_if(
            world_names(*world).contains_key(i),
            ("Name"@, world_names(*world)[i]),
        ));
    }
    let ghost e1 = infos@;
    if let Some(coords) = position_text(world, entity) {
        let mut details = String::from_str("(");
        push_joined(&mut details, &coords, ", ");
        details.append(")");
        infos.push(ComponentInfo { name: "Position", details });
    }
    proof {
        assert(infos@.map_values(|c: ComponentInfo| info_view(c)) =~= e1.map_values(|c: ComponentInfo| info_view(c))
            + listed_if(world_positions(*world).contains_key(i), ("Position"@, position_details(world_positions(*world)[i]))));
    }
    let ghost e2 = infos@;
    if let Some(intensity) = light_text(world, entity) {
        let mut details = String::from_str("intensity: ");
        details.append(intensity.as_str());
        infos.push(ComponentInfo { name: "Light", details });
    }
    proof {
        assert(infos@.map_values(|c: ComponentInfo| info_view(c)) =~= e2.map_values(|c: ComponentInfo| info_view(c))
            + listed_if(world_lights(*world).contains_key(i), ("Light"@, light_details(world_lights(*world)[i]))));
    }
    let ghost e3 = infos@;
    if let Some(tags) = entity_tags(world, entity) {
        let mut details = String::new();
        push_joined(&mut details, &tags, ", ");
        infos.push(ComponentInfo { name: "Tags", details });
    }
    proof {
        assert(infos@.map_values(|c: ComponentInfo| info_view(c)) =~= e3.map_values(|c: ComponentInfo| info_view(c))
            + listed_if(world_tags(*world).contains_key(i), ("Tags"@, joined(world_tags(*world)[i], ", "@))));
    }
    let ghost e4 = infos@;
    if let Some((color, texture)) = material_text(world, entity) {
        let mut details = String::from_str("color: [");
        push_joined(&mut details, &color, ", ");
        details.append("] tex: ");
        match &texture {
            Some(t) => details.append(t.as_str()),
            None => details.append("none"),
        }
        infos.push(ComponentInfo { name: "Material", details });
    }
    proof {
        assert(infos@.map_values(|c: ComponentInfo| info_view(c)) =~= e4.map_values(|c: ComponentInfo| info_view(c))
            + listed_if(world_materials(*world).contains_key(i), ("Material"@, material_details(world_materials(*world)[i]))));
        assert(infos@.map_values(|c: ComponentInfo| info_view(c)) =~= inspected(*world, i));
    }
    infos
}

/// Once an entity is despawned (every component at its index cleared), the inspector lists
/// nothing for its handle.
pub proof fn law_despawned_entity_shows_nothing(before: kiran::World, after: kiran::World, entity: kiran::Entity)
    requires
        components_cleared(before, after, index_of_id(entity_raw_id(entity))),
    ensures
        inspected(after, index_of_id(entity_raw_id(entity))) == Seq::<(Seq<char>, Seq<char>)>::empty(),
{
    assert(inspected(after, index_of_id(entity_raw_id(entity))) =~= Seq::<(Seq<char>, Seq<char>)>::empty());
}

} // verus!
