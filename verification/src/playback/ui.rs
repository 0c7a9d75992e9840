//! The name of the selected map, shown during playback.

use vstd::prelude::*;
use crate::playback::{selected_names, MapSelectEvent};
use crate::scene::laws::{lemma_single_is_the_only_one, lemma_spawn_grows};
use crate::scene::{
    grown, live, single_of, skip_all, skipped_for, Entity, Item, Kind, Nodes, QuerySingleError,
    Scene,
};
use crate::ui::label_of;

verus! {

/// The registry after a line was spawned under `root` for each of the
/// names, in their order.
pub open spec fn with_labels(nodes: Nodes, root: Entity, names: Seq<Seq<char>>) -> Nodes
    decreases names.len(),
{
    if names.len() == 0 {
        nodes
    } else {
        with_labels(nodes.push(Some(label_of(root, names[0]))), root, names.skip(1))
    }
}

/// The registry after selections of the given names were read: with the
/// lines under the playback root where there is exactly one, and as it was
/// where there is not.
pub open spec fn labels_drawn(nodes: Nodes, names: Seq<Seq<char>>) -> Nodes {
    match single_of(nodes, Kind::PlaybackRoot) {
        Ok(root) => with_labels(nodes, root, names),
        Err(_) => nodes,
    }
}

/// The systems that keep the text shown during playback.
pub struct PlaybackUIPlugin;

impl PlaybackUIPlugin {
    /// Reads the selection events in their order and spawns, under the one
    /// playback root, a line with the name that each event carries. Where
    /// there is no playback root, or more than one, every event is skipped
    /// and reported.
    pub fn draw_ui_on_map_select(events: &Vec<MapSelectEvent>, scene: &mut Scene) -> (skipped: Vec<
        QuerySingleError,
    >)
        requires
            old(scene).wf(),
        ensures
            final(scene).wf(),
            final(scene)@ == labels_drawn(old(scene)@, selected_names(events@)),
            grown(old(scene)@, final(scene)@, false),
            skipped@ == skipped_for(old(scene)@, Kind::PlaybackRoot, events@.len()),
    {
        let ghost names = selected_names(events@);
        match scene.single(Kind::PlaybackRoot) {
            Ok(root) => {
                proof {
                    lemma_single_is_the_only_one(scene@, Kind::PlaybackRoot, root);
                }
                let mut i: usize = 0;
                assert(names.skip(0) =~= names);
                while i < events.len()
                    invariant
                        i <= events.len(),
                        names == selected_names(events@),
                        scene.wf(),
                        live(scene@, root as int),
                        grown(old(scene)@, scene@, false),
                        with_labels(old(scene)@, root, names) == with_labels(
                            scene@,
                            root,
                            names.skip(i as int),
                        ),
                    decreases events.len() - i,
                {
                    proof {
                        assert(names.skip(i as int)[0] == events@[i as int].0@);
                        assert(names.skip(i as int).skip(1) =~= names.skip(i + 1));
                    }
                    let ghost before = scene@;
                    scene.spawn(Some(root), Item::Text { text: events[i].0.clone() });
                    proof {
                        lemma_spawn_grows(
                            old(scene)@,
                            before,
                            label_of(root, events@[i as int].0@),
                            false,
                        );
                    }
                    i += 1;
                }
                Vec::new()
            },
            Err(why) => skip_all(why, events.len()),
        }
    }
}

/// Spawning lines of text leaves what the registry held as it was.
pub proof fn lemma_labelling_keeps(nodes: Nodes, names: Seq<Seq<char>>)
    ensures
        nodes.len() <= labels_drawn(nodes, names).len(),
        forall|e: int|
            0 <= e < nodes.len() ==> (#[trigger] labels_drawn(nodes, names)[e]) == nodes[e],
{
    if let Ok(root) = single_of(nodes, Kind::PlaybackRoot) {
        lemma_labels_keep(nodes, root, names);
    }
}

proof fn lemma_labels_keep(nodes: Nodes, root: Entity, names: Seq<Seq<char>>)
    ensures
        nodes.len() <= with_labels(nodes, root, names).len(),
        forall|e: int|
            0 <= e < nodes.len() ==> (#[trigger] with_labels(nodes, root, names)[e]) == nodes[e],
    decreases names.len(),
{
    if names.len() > 0 {
        let next = nodes.push(Some(label_of(root, names[0])));
        lemma_labels_keep(next, root, names.skip(1));
        assert forall|e: int| 0 <= e < nodes.len() implies (#[trigger] with_labels(
            nodes,
            root,
            names,
        )[e]) == nodes[e] by {
            assert(with_labels(nodes, root, names)[e] == next[e]);
        }
    }
}

} // verus!
