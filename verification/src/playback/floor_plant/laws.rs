//! What holds of the floor-plan visuals, whatever is selected.

use vstd::prelude::*;
use crate::maps::{find_map, MapEntry};
use crate::mouse::{ScenePoint, Viewport};
use crate::playback::floor_plant::{floor_plant_of, visual_for, with_floor_plants, Scale};
use crate::scene::{Entity, Nodes};

verus! {

/// Every selection gets a visual of its own. Where each of the names is the
/// name of a map, the registry grows by one visual for each name, in the
/// names' order, and what it held stays as it was.
pub proof fn lemma_every_selection_is_drawn(
    nodes: Nodes,
    root: Entity,
    maps: Seq<MapEntry>,
    names: Seq<Seq<char>>,
    viewport: Viewport,
)
    requires
        forall|i: int| 0 <= i < names.len() ==> find_map(maps, #[trigger] names[i]) is Some,
    ensures
        with_floor_plants(nodes, root, maps, names, viewport).len() == nodes.len() + names.len(),
        forall|e: int|
            0 <= e < nodes.len() ==> (#[trigger] with_floor_plants(
                nodes,
                root,
                maps,
                names,
                viewport,
            )[e]) == nodes[e],
        forall|i: int|
            0 <= i < names.len() ==> (#[trigger] with_floor_plants(
                nodes,
                root,
                maps,
                names,
                viewport,
            )[nodes.len() + i]) == visual_for(root, maps, names[i], viewport),
    decreases names.len(),
{
    if names.len() > 0 {
        let all = with_floor_plants(nodes, root, maps, names, viewport);
        let first = visual_for(root, maps, names[0], viewport);
        let next = nodes.push(first);
        let rest = names.skip(1);
        assert(find_map(maps, names[0]) is Some);
        assert forall|i: int| 0 <= i < rest.len() implies find_map(maps, #[trigger] rest[i])
            is Some by {
            assert(rest[i] == names[i + 1]);
        }
        lemma_every_selection_is_drawn(next, root, maps, rest, viewport);
        assert(all == with_floor_plants(next, root, maps, rest, viewport));
        assert forall|e: int| 0 <= e < nodes.len() implies (#[trigger] all[e]) == nodes[e] by {
            assert(all[e] == next[e]);
        }
        assert forall|i: int| 0 <= i < names.len() implies (#[trigger] all[nodes.len() + i])
            == visual_for(root, maps, names[i], viewport) by {
            if i == 0 {
                assert(all[nodes.len() as int] == next[nodes.len() as int]);
            } else {
                assert(all[next.len() + (i - 1)] == visual_for(root, maps, rest[i - 1], viewport));
                assert(rest[i - 1] == names[i]);
            }
        }
    }
}

/// The last selection is drawn last. Where the last of the names is the name
/// of a map, the visual that was spawned last is that map's.
pub proof fn lemma_last_selection_is_drawn_last(
    nodes: Nodes,
    root: Entity,
    maps: Seq<MapEntry>,
    names: Seq<Seq<char>>,
    viewport: Viewport,
)
    requires
        names.len() > 0,
        find_map(maps, names.last()) is Some,
    ensures
        with_floor_plants(nodes, root, maps, names, viewport).len() > 0,
        with_floor_plants(nodes, root, maps, names, viewport).last() == visual_for(
            root,
            maps,
            names.last(),
            viewport,
        ),
    decreases names.len(),
{
    let next = match find_map(maps, names[0]) {
        Some(m) => nodes.push(Some(floor_plant_of(root, maps[m as int].floor_plant.0@, viewport))),
        None => nodes,
    };
    let rest = names.skip(1);
    if names.len() == 1 {
        assert(rest.len() == 0);
        assert(with_floor_plants(next, root, maps, rest, viewport) == next);
    } else {
        assert(rest.last() == names.last());
        lemma_last_selection_is_drawn_last(next, root, maps, rest, viewport);
    }
}

/// A map is always shown in the same way in the same viewport. Whatever the
/// registry holds and wherever the playback root is, the visual of a map
/// has the same texture, the same position and the same scale.
pub proof fn lemma_same_map_same_visual(
    first: Entity,
    again: Entity,
    maps: Seq<MapEntry>,
    name: Seq<char>,
    viewport: Viewport,
)
    requires
        find_map(maps, name) is Some,
    ensures
        visual_for(first, maps, name, viewport).unwrap().item == visual_for(
            again,
            maps,
            name,
            viewport,
        ).unwrap().item,
        visual_for(first, maps, name, viewport).unwrap().item->scale == Scale::for_height(
            viewport.height,
        ),
        visual_for(first, maps, name, viewport).unwrap().item->FloorPlant_position == (ScenePoint {
            x: 0,
            y: 0,
        }),
{
}

} // verus!
