//! Playback mode: the root container and what is shown under it.

pub mod floor_plant;
pub mod ui;

use vstd::prelude::*;
use crate::maps::MapEntry;
use crate::mouse::Viewport;
use crate::playback::floor_plant::floor_plant_of;
use crate::scene::laws::{lemma_single_is_the_only_one, lemma_spawn_grows};
use crate::scene::{
    grown, live, single_of, skip_all, skipped_for, Entity, Item, ItemView, Kind, NodeView, Nodes,
    QuerySingleError, Scene,
};
use crate::ui::label_of;

verus! {

/// The request to show a map, by the map's name.
#[derive(Clone, Debug, PartialEq, Eq)]
pub struct MapSelectEvent(pub String);

/// The names of the maps that the events ask for, in the events' order.
pub open spec fn selected_names(events: Seq<MapSelectEvent>) -> Seq<Seq<char>> {
    Seq::new(events.len(), |i: int| events[i].0@)
}

/// The entity that the pointer was over when the hover events were last
/// read.
#[derive(Clone, Copy, Debug, PartialEq, Eq, Structural)]
pub struct MouseState {
    pub over_entity: Option<Entity>,
}

impl MouseState {
    /// The state before the pointer was over anything.
    pub fn new() -> (state: MouseState)
        ensures
            state.over_entity is None,
    {
        MouseState { over_entity: None }
    }
}

impl Default for MouseState {
    /// The state before the pointer was over anything.
    fn default() -> (state: MouseState)
        ensures
            state.over_entity is None,
    {
        MouseState::new()
    }
}

/// The marker of the container of everything shown during playback.
pub struct RootPlaybackNode;

impl RootPlaybackNode {
    /// The one playback root, or why there is no such one.
    pub fn single(scene: &Scene) -> (found: Result<Entity, QuerySingleError>)
        ensures
            found == single_of(scene@, Kind::PlaybackRoot),
    {
        scene.single(Kind::PlaybackRoot)
    }
}

/// The playback root as it is spawned.
pub open spec fn playback_root() -> NodeView {
    NodeView { parent: None, item: ItemView::PlaybackRoot }
}

/// A container without content as it is spawned under `parent`.
pub open spec fn panel_of(parent: Entity) -> NodeView {
    NodeView { parent: Some(parent), item: ItemView::Panel }
}

/// The registry after a panel was spawned under `root` and, under the
/// panel, the floor-plan visual of the map and a line with its name.
pub open spec fn with_selection(
    nodes: Nodes,
    root: Entity,
    map: MapEntry,
    viewport: Viewport,
) -> Nodes {
    nodes.push(Some(panel_of(root))).push(
        Some(floor_plant_of(nodes.len() as usize, map.floor_plant.0@, viewport)),
    ).push(Some(label_of(nodes.len() as usize, map.name@)))
}

/// The registry after the selection was spawned for each of the maps that
/// have the given name, in the maps' order.
pub open spec fn with_maps_named(
    nodes: Nodes,
    root: Entity,
    maps: Seq<MapEntry>,
    name: Seq<char>,
    viewport: Viewport,
) -> Nodes
    decreases maps.len(),
{
    if maps.len() == 0 {
        nodes
    } else {
        let next = if maps[0].name@ == name {
            with_selection(nodes, root, maps[0], viewport)
        } else {
            nodes
        };
        with_maps_named(next, root, maps.skip(1), name, viewport)
    }
}

/// The registry after the maps of each of the names were spawned, name by
/// name.
pub open spec fn with_selected_maps(
    nodes: Nodes,
    root: Entity,
    maps: Seq<MapEntry>,
    names: Seq<Seq<char>>,
    viewport: Viewport,
) -> Nodes
    decreases names.len(),
{
    if names.len() == 0 {
        nodes
    } else {
        with_selected_maps(
            with_maps_named(nodes, root, maps, names[0], viewport),
            root,
            maps,
            names.skip(1),
            viewport,
        )
    }
}

/// The registry after selections of the given names were read: with the
/// selections under the playback root where there is exactly one, and as it
/// was where there is not.
pub open spec fn selected_maps_drawn(
    nodes: Nodes,
    maps: Seq<MapEntry>,
    names: Seq<Seq<char>>,
    viewport: Viewport,
) -> Nodes {
    match single_of(nodes, Kind::PlaybackRoot) {
        Ok(root) => with_selected_maps(nodes, root, maps, names, viewport),
        Err(_) => nodes,
    }
}

/// The systems that keep the playback root.
pub struct PlaybackPlugin;

impl PlaybackPlugin {
    /// Spawns the playback root and returns it.
    pub fn playback_setup(scene: &mut Scene) -> (root: Entity)
        requires
            old(scene).wf(),
        ensures
            final(scene).wf(),
            root == old(scene)@.len(),
            final(scene)@ == old(scene)@.push(Some(playback_root())),
    {
        scene.spawn(None, Item::PlaybackRoot)
    }

    /// What is to be said of the pointer's state after a frame: the entity
    /// that the pointer is over now, where it is not the one it was over.
    pub fn check_mouse_state_changed(before: &MouseState, after: &MouseState) -> (changed: Option<
        Option<Entity>,
    >)
        ensures
            changed == if before.over_entity == after.over_entity {
                None
            } else {
                Some(after.over_entity)
            },
    {
        let same = match (before.over_entity, after.over_entity) {
            (Some(a), Some(b)) => a == b,
            (None, None) => true,
            _ => false,
        };
        if same {
            None
        } else {
            Some(after.over_entity)
        }
    }

    /// Spawns under `root` a panel with the floor-plan visual of `map` and a
    /// line with its name. Returns the panel.
    pub fn spawn_selection(
        scene: &mut Scene,
        root: Entity,
        map: &MapEntry,
        viewport: Viewport,
    ) -> (panel: Entity)
        requires
            old(scene).wf(),
            live(old(scene)@, root as int),
        ensures
            final(scene).wf(),
            panel == old(scene)@.len(),
            final(scene)@ == with_selection(old(scene)@, root, *map, viewport),
    {
        let panel = scene.spawn(Some(root), Item::Panel);
        crate::playback::floor_plant::FloorPlantPlugin::spawn_for_map(scene, panel, map, viewport);
        scene.spawn(Some(panel), Item::Text { text: map.name.clone() });
        panel
    }

    /// Reads the selection events in their order and spawns, under the one
    /// playback root, a panel with floor plan and name for every map that
    /// has the name which the event carries. Where there is no playback
    /// root, or more than one, every event is skipped and reported.
    pub fn update_selected_map_on_event(
        events: &Vec<MapSelectEvent>,
        scene: &mut Scene,
        maps: &Vec<MapEntry>,
        viewport: Viewport,
    ) -> (skipped: Vec<QuerySingleError>)
        requires
            old(scene).wf(),
        ensures
            final(scene).wf(),
            final(scene)@ == selected_maps_drawn(
                old(scene)@,
                maps@,
                selected_names(events@),
                viewport,
            ),
            grown(old(scene)@, final(scene)@, false),
            skipped@ == skipped_for(old(scene)@, Kind::PlaybackRoot, events@.len()),
    {
        let ghost names = selected_names(events@);
        match scene.single(Kind::PlaybackRoot) {
            Ok(root) => {
                proof {
                    lemma_single_is_the_only_one(scene@, Kind::PlaybackRoot, root);
                }
                let mut i: usize = 0;
                assert(names.skip(0) =~= names);
                while i < events.len()
                    invariant
                        i <= events.len(),
                        names == selected_names(events@),
                        scene.wf(),
                        live(scene@, root as int),
                        grown(old(scene)@, scene@, false),
                        with_selected_maps(old(scene)@, root, maps@, names, viewport)
                            == with_selected_maps(
                            scene@,
                            root,
                            maps@,
                            names.skip(i as int),
                            viewport,
                        ),
                    decreases events.len() - i,
                {
                    let ghost before = scene@;
                    let mut m: usize = 0;
                    proof {
                        assert(names.skip(i as int)[0] == events@[i as int].0@);
                        assert(names.skip(i as int).skip(1) =~= names.skip(i + 1));
                        assert(maps@.skip(0) =~= maps@);
                    }
                    while m < maps.len()
                        invariant
                            m <= maps.len(),
                            i < events.len(),
                            scene.wf(),
                            live(scene@, root as int),
                            grown(old(scene)@, scene@, false),
                            with_maps_named(before, root, maps@, events@[i as int].0@, viewport)
                                == with_maps_named(
                                scene@,
                                root,
                                maps@.skip(m as int),
                                events@[i as int].0@,
                                viewport,
                            ),
                        decreases maps.len() - m,
                    {
                        proof {
                            assert(maps@.skip(m as int)[0] == maps@[m as int]);
                            assert(maps@.skip(m as int).skip(1) =~= maps@.skip(m + 1));
                        }
                        let ghost here = scene@;
                        if maps[m].name == events[i].0 {
                            Self::spawn_selection(scene, root, &maps[m], viewport);
                            proof {
                                let map = maps@[m as int];
                                let panel = here.len() as usize;
                                let paneled = here.push(Some(panel_of(root)));
                                let planned = paneled.push(
                                    Some(floor_plant_of(panel, map.floor_plant.0@, viewport)),
                                );
                                lemma_spawn_grows(old(scene)@, here, panel_of(root), false);
                                lemma_spawn_grows(
                                    old(scene)@,
                                    paneled,
                                    floor_plant_of(panel, map.floor_plant.0@, viewport),
                                    false,
                                );
                                lemma_spawn_grows(
                                    old(scene)@,
                                    planned,
                                    label_of(panel, map.name@),
                                    false,
                                );
                            }
                        }
                        m += 1;
                    }
                    i += 1;
                }
                Vec::new()
            },
            Err(why) => skip_all(why, events.len()),
        }
    }
}

} // verus!
