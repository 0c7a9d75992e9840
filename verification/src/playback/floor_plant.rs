//! The floor-plan visual of the selected map and its scale.

pub mod laws;

use vstd::prelude::*;
use crate::maps::{find_map, MapEntry, MapPlugin};
use crate::mouse::{ScenePoint, Viewport};
use crate::playback::{selected_names, MapSelectEvent};
use crate::scene::laws::{lemma_single_is_the_only_one, lemma_spawn_grows};
use crate::scene::{
    despawned_all, grown, is_kind, live, matching, same_shape, single_of, skip_all, skipped_for,
    with_item, Entity, Item, ItemView, Kind, NodeView, Nodes, QuerySingleError, Scene,
};

verus! {

/// The side of the square that a floor plan is drawn for, in pixels.
pub const REFERENCE_DIMENSION: u32 = 1024;

/// Scale factors of a visual, one per axis, as numerators over
/// `REFERENCE_DIMENSION`: a visual at its natural size has both at 1024.
#[derive(Clone, Copy, Debug, PartialEq, Eq, Structural)]
pub struct Scale {
    pub x: u32,
    pub y: u32,
}

impl Scale {
    /// The scale of a floor plan in a viewport of the given height: the
    /// height over the reference dimension, on both axes.
    pub open spec fn for_height(height: u32) -> Scale {
        Scale { x: height, y: height }
    }

    /// The scale of a floor plan in a viewport of the given height.
    pub fn of_height(height: u32) -> (scale: Scale)
        ensures
            scale == Scale::for_height(height),
    {
        Scale { x: height, y: height }
    }
}

/// The viewport has a new size.
#[derive(Clone, Copy, Debug, PartialEq, Eq, Structural)]
pub struct WindowResized {
    pub width: u32,
    pub height: u32,
}

/// The floor-plan visual as it is spawned under `root` in a viewport of the
/// given size.
pub open spec fn floor_plant_of(root: Entity, texture: Seq<char>, viewport: Viewport) -> NodeView {
    NodeView {
        parent: Some(root),
        item: ItemView::FloorPlant {
            texture,
            position: ScenePoint { x: 0i32, y: 0i32 },
            scale: Scale::for_height(viewport.height),
        },
    }
}

/// The registry after a floor-plan visual was spawned under `root` for each
/// of the names that is the name of a map, in the names' order.
pub open spec fn with_floor_plants(
    nodes: Nodes,
    root: Entity,
    maps: Seq<MapEntry>,
    names: Seq<Seq<char>>,
    viewport: Viewport,
) -> Nodes
    decreases names.len(),
{
    if names.len() == 0 {
        nodes
    } else {
        let next = match find_map(maps, names[0]) {
            Some(m) => nodes.push(
                Some(floor_plant_of(root, maps[m as int].floor_plant.0@, viewport)),
            ),
            None => nodes,
        };
        with_floor_plants(next, root, maps, names.skip(1), viewport)
    }
}

/// The registry after selections of the given names were read: with the
/// visuals under the playback root where there is exactly one, and as it
/// was where there is not.
pub open spec fn floor_plants_drawn(
    nodes: Nodes,
    maps: Seq<MapEntry>,
    names: Seq<Seq<char>>,
    viewport: Viewport,
) -> Nodes {
    match single_of(nodes, Kind::PlaybackRoot) {
        Ok(root) => with_floor_plants(nodes, root, maps, names, viewport),
        Err(_) => nodes,
    }
}

/// The registry in which the floor-plan visual `visual` has the given scale.
pub open spec fn rescaled(nodes: Nodes, visual: int, scale: Scale) -> Nodes {
    if is_kind(nodes, visual, Kind::FloorPlant) {
        with_item(
            nodes,
            visual,
            ItemView::FloorPlant {
                texture: nodes[visual].unwrap().item->texture,
                position: nodes[visual].unwrap().item->FloorPlant_position,
                scale,
            },
        )
    } else {
        nodes
    }
}

/// The registry after the viewport changed its size as `resizes` tells, in
/// that order: the one floor-plan visual has the scale of the last size.
/// Without a change, and without exactly one visual, nothing changes.
pub open spec fn resized(nodes: Nodes, resizes: Seq<WindowResized>) -> Nodes {
    match single_of(nodes, Kind::FloorPlant) {
        Ok(visual) => if resizes.len() == 0 {
            nodes
        } else {
            rescaled(nodes, visual as int, Scale::for_height(resizes.last().height))
        },
        Err(_) => nodes,
    }
}

/// Why changes of the viewport's size were not followed: there were some,
/// and there was not exactly one floor-plan visual to follow them.
pub open spec fn resize_skipped(nodes: Nodes, resizes: Seq<WindowResized>) -> Option<
    QuerySingleError,
> {
    if resizes.len() == 0 {
        None
    } else {
        match single_of(nodes, Kind::FloorPlant) {
            Ok(_) => None,
            Err(why) => Some(why),
        }
    }
}

/// The systems that keep the floor-plan visual.
pub struct FloorPlantPlugin;

impl FloorPlantPlugin {
    /// Spawns the floor-plan visual of `map` under `root`, at the origin and
    /// at the scale that belongs to the viewport.
    pub fn spawn_for_map(
        scene: &mut Scene,
        root: Entity,
        map: &MapEntry,
        viewport: Viewport,
    ) -> (visual: Entity)
        requires
            old(scene).wf(),
            live(old(scene)@, root as int),
        ensures
            final(scene).wf(),
            visual == old(scene)@.len(),
            final(scene)@ == old(scene)@.push(
                Some(floor_plant_of(root, map.floor_plant.0@, viewport)),
            ),
    {
        scene.spawn(
            Some(root),
            Item::FloorPlant {
                texture: map.floor_plant.0.clone(),
                position: ScenePoint { x: 0, y: 0 },
                scale: Scale::of_height(viewport.height),
            },
        )
    }

    /// Reads the selection events in their order and spawns, under the one
    /// playback root, the floor-plan visual of each map that an event names.
    /// Where there is no playback root, or more than one, every event is
    /// skipped and reported.
    pub fn draw_floor_plant_on_map_select(
        events: &Vec<MapSelectEvent>,
        scene: &mut Scene,
        maps: &Vec<MapEntry>,
        viewport: Viewport,
    ) -> (skipped: Vec<QuerySingleError>)
        requires
            old(scene).wf(),
        ensures
            final(scene).wf(),
            final(scene)@ == floor_plants_drawn(
                old(scene)@,
                maps@,
                selected_names(events@),
                viewport,
            ),
            grown(old(scene)@, final(scene)@, false),
            skipped@ == skipped_for(old(scene)@, Kind::PlaybackRoot, events@.len()),
    {
        let ghost names = selected_names(events@);
        match scene.single(Kind::PlaybackRoot) {
            Ok(root) => {
                proof {
                    lemma_single_is_the_only_one(scene@, Kind::PlaybackRoot, root);
                }
                let mut i: usize = 0;
                assert(names.skip(0) =~= names);
                while i < events.len()
                    invariant
                        i <= events.len(),
                        names == selected_names(events@),
                        scene.wf(),
                        live(scene@, root as int),
                        grown(old(scene)@, scene@, false),
                        with_floor_plants(old(scene)@, root, maps@, names, viewport)
                            == with_floor_plants(
                            scene@,
                            root,
                            maps@,
                            names.skip(i as int),
                            viewport,
                        ),
                    decreases events.len() - i,
                {
                    proof {
                        assert(names.skip(i as int)[0] == events@[i as int].0@);
                        assert(names.skip(i as int).skip(1) =~= names.skip(i + 1));
                    }
                    let ghost before = scene@;
                    if let Some(m) = MapPlugin::find(maps, &events[i].0) {
                        Self::spawn_for_map(scene, root, &maps[m], viewport);
                        proof {
                            lemma_spawn_grows(
                                old(scene)@,
                                before,
                                floor_plant_of(root, maps@[m as int].floor_plant.0@, viewport),
                                false,
                            );
                        }
                    }
                    i += 1;
                }
                Vec::new()
            },
            Err(why) => skip_all(why, events.len()),
        }
    }

    /// Gives the floor-plan visual `visual` the given scale. Does nothing
    /// if `visual` is no floor-plan visual.
    pub fn rescale(scene: &mut Scene, visual: Entity, scale: Scale)
        requires
            old(scene).wf(),
        ensures
            final(scene).wf(),
            final(scene)@ == rescaled(old(scene)@, visual as int, scale),
            same_shape(old(scene)@, final(scene)@),
    {
        let found = match scene.get(visual) {
            Some(node) => match &node.item {
                Item::FloorPlant { texture, position, .. } => Some((texture.clone(), *position)),
                _ => None,
            },
            None => None,
        };
        if let Some((texture, position)) = found {
            scene.set_item(visual, Item::FloorPlant { texture, position, scale });
        }
    }

    /// Follows the viewport's changes of size: the one floor-plan visual
    /// takes, on both axes, the new height over the reference dimension.
    /// Where the size changed and there is no visual, or more than one,
    /// nothing changes and the reason is returned.
    pub fn on_resize_window(scene: &mut Scene, resizes: &Vec<WindowResized>) -> (skipped: Option<
        QuerySingleError,
    >)
        requires
            old(scene).wf(),
        ensures
            final(scene).wf(),
            final(scene)@ == resized(old(scene)@, resizes@),
            same_shape(old(scene)@, final(scene)@),
            skipped == resize_skipped(old(scene)@, resizes@),
    {
        if resizes.len() == 0 {
            return None;
        }
        match scene.single(Kind::FloorPlant) {
            Ok(visual) => {
                proof {
                    lemma_single_is_the_only_one(scene@, Kind::FloorPlant, visual);
                }
                let mut i: usize = 0;
                while i < resizes.len()
                    invariant
                        i <= resizes.len(),
                        scene.wf(),
                        is_kind(old(scene)@, visual as int, Kind::FloorPlant),
                        scene@ == resized(old(scene)@, resizes@.take(i as int)),
                        same_shape(old(scene)@, scene@),
                        single_of(old(scene)@, Kind::FloorPlant) == Ok::<Entity, QuerySingleError>(
                            visual,
                        ),
                    decreases resizes.len() - i,
                {
                    let ghost before = scene@;
                    Self::rescale(scene, visual, Scale::of_height(resizes[i].height));
                    proof {
                        let scale = Scale::for_height(resizes@[i as int].height);
                        assert(resizes@.take(i + 1).last() == resizes@[i as int]);
                        assert(rescaled(before, visual as int, scale) =~= rescaled(
                            old(scene)@,
                            visual as int,
                            scale,
                        ));
                    }
                    i += 1;
                }
                assert(resizes@.take(resizes.len() as int) =~= resizes@);
                None
            },
            Err(why) => Some(why),
        }
    }

    /// Removes every floor-plan visual.
    pub fn floor_plant_cleanup(scene: &mut Scene)
        requires
            old(scene).wf(),
        ensures
            final(scene).wf(),
            final(scene)@ == despawned_all(old(scene)@, matching(old(scene)@, Kind::FloorPlant)),
    {
        let visuals = scene.query(Kind::FloorPlant);
        scene.despawn_all(&visuals);
    }
}

/// The floor-plan visual that a selection of the given name gets: none where
/// no map has the name.
pub open spec fn visual_for(
    root: Entity,
    maps: Seq<MapEntry>,
    name: Seq<char>,
    viewport: Viewport,
) -> Option<NodeView> {
    match find_map(maps, name) {
        Some(m) => Some(floor_plant_of(root, maps[m as int].floor_plant.0@, viewport)),
        None => None,
    }
}

} // verus!
