//! What holds of the controller from frame to frame.

use vstd::prelude::*;
use crate::controller::{
    frame, hovers_read, in_order, left, lifecycle, other, root_of, settled, step, transitioned,
    ControllerView,
};
use crate::maps::find_map;
use crate::mouse::{mapped, recorded, PointerFacts, Viewport};
use crate::playback::floor_plant::laws::{
    lemma_every_selection_is_drawn, lemma_same_map_same_visual,
};
use crate::playback::floor_plant::{floor_plants_drawn, visual_for, WindowResized};
use crate::playback::playback_root;
use crate::playback::ui::{labels_drawn, lemma_labelling_keeps};
use crate::ragdoll::{
    hover_settled, hovered, lemma_spawning_keeps, with_ragdolls, RagdollHoverEvent,
};
use crate::scene::laws::{
    lemma_census_decides, lemma_despawn_all_keeps_forest, lemma_despawn_all_spares,
    lemma_despawn_root_takes_the_root, lemma_despawn_spares, lemma_despawn_takes_the_subtree,
    lemma_forest_without_anchor_is_empty, lemma_growth_keeps_roots, lemma_matching_lists_the_kind,
    lemma_same_shape_keeps, lemma_single_is_the_only_one,
};
use crate::scene::{
    anchored, despawned, despawned_all, emptied, grown, has_one, is_kind, live, matching, none_of,
    only_one, parentless, same_shape, single_of, tree_wf, Kind, Nodes,
};
use crate::state::{next_mode, AppState};
use crate::ui::{menu_root, ButtonInteraction};

verus! {

/// A change that keeps the shape of the registry keeps the application in
/// order.
pub proof fn lemma_shape_keeps_order(before: ControllerView, after: ControllerView)
    requires
        in_order(before),
        same_shape(before.nodes, after.nodes),
        after.state == before.state,
        after.over == before.over,
    ensures
        in_order(after),
{
    lemma_same_shape_keeps(before.nodes, after.nodes, Kind::MenuRoot);
    lemma_same_shape_keeps(before.nodes, after.nodes, Kind::PlaybackRoot);
    lemma_same_shape_keeps(before.nodes, after.nodes, Kind::Ragdoll);
    lemma_census_decides(before.nodes, after.nodes, Kind::MenuRoot);
    lemma_census_decides(before.nodes, after.nodes, Kind::PlaybackRoot);
}

/// A query for the container of the current mode finds it.
pub proof fn lemma_root_is_found(app: ControllerView)
    requires
        in_order(app),
    ensures
        single_of(app.nodes, root_of(app.state)) is Ok,
{
    let root = choose|e: int| only_one(app.nodes, root_of(app.state), e);
    lemma_single_is_the_only_one(app.nodes, root_of(app.state), root as usize);
}

/// Spawning below what is there keeps the application in order; so does
/// spawning tokens during playback.
pub proof fn lemma_growth_keeps_order(before: ControllerView, after: ControllerView, tokens: bool)
    requires
        in_order(before),
        tree_wf(after.nodes),
        grown(before.nodes, after.nodes, tokens),
        tokens ==> before.state == AppState::Playback,
        after.state == before.state,
        after.over == before.over,
    ensures
        in_order(after),
{
    let playing = before.state == AppState::Playback;
    if !tokens {
        assert(grown(before.nodes, after.nodes, playing));
    }
    lemma_growth_keeps_roots(before.nodes, after.nodes, playing);
    lemma_census_decides(before.nodes, after.nodes, Kind::MenuRoot);
    lemma_census_decides(before.nodes, after.nodes, Kind::PlaybackRoot);
}

/// No orphan outlives its mode. The systems that leave a mode leave no
/// entity behind, whatever was spawned while the mode lasted, and none of
/// them is skipped for want of the mode's container.
pub proof fn lemma_leaving_leaves_nothing(nodes: Nodes, state: AppState)
    requires
        tree_wf(nodes),
        anchored(nodes, state == AppState::Playback),
        parentless(nodes, root_of(state)),
        has_one(nodes, root_of(state)),
        none_of(nodes, root_of(other(state))),
    ensures
        emptied(left(nodes, state)),
        left(nodes, state).len() == nodes.len(),
        tree_wf(left(nodes, state)),
        state == AppState::MainMenu ==> single_of(nodes, Kind::MenuRoot) is Ok,
        state == AppState::Playback ==> ({
            let unplanned = despawned_all(nodes, matching(nodes, Kind::FloorPlant));
            let cleared = despawned_all(unplanned, matching(unplanned, Kind::Ragdoll));
            single_of(cleared, Kind::PlaybackRoot) is Ok
        }),
{
    let root = choose|e: int| only_one(nodes, root_of(state), e);
    match state {
        AppState::MainMenu => {
            let after = left(nodes, state);
            lemma_single_is_the_only_one(nodes, Kind::MenuRoot, root as usize);
            lemma_despawn_spares(nodes, root);
            lemma_despawn_takes_the_subtree(nodes, root);
            assert forall|e: int| live(after, e) implies (#[trigger] after[e]).unwrap().parent
                is Some by {
                assert(after[e] == nodes[e]);
                if nodes[e].unwrap().parent is None {
                    assert(is_kind(nodes, e, Kind::MenuRoot) || is_kind(
                        nodes,
                        e,
                        Kind::PlaybackRoot,
                    ));
                }
            }
            lemma_forest_without_anchor_is_empty(after);
        },
        AppState::Playback => {
            let plans = matching(nodes, Kind::FloorPlant);
            let unplanned = despawned_all(nodes, plans);
            let tokens = matching(unplanned, Kind::Ragdoll);
            let gone = despawned_all(unplanned, tokens);
            let after = left(nodes, state);
            lemma_matching_lists_the_kind(nodes, Kind::FloorPlant);
            lemma_despawn_all_spares(nodes, plans);
            lemma_despawn_all_keeps_forest(nodes, plans);
            assert(!plans.contains(root as usize)) by {
                if plans.contains(root as usize) {
                    let i = choose|i: int| 0 <= i < plans.len() && plans[i] == root as usize;
                    assert(is_kind(nodes, plans[i] as int, Kind::FloorPlant));
                }
            }
            assert(unplanned[root] == nodes[root]);
            lemma_matching_lists_the_kind(unplanned, Kind::Ragdoll);
            lemma_despawn_all_spares(unplanned, tokens);
            lemma_despawn_all_keeps_forest(unplanned, tokens);
            assert(!tokens.contains(root as usize)) by {
                if tokens.contains(root as usize) {
                    let i = choose|i: int| 0 <= i < tokens.len() && tokens[i] == root as usize;
                    assert(is_kind(unplanned, tokens[i] as int, Kind::Ragdoll));
                }
            }
            assert(gone[root] == nodes[root]);
            assert forall|e: int| live(gone, e) implies live(nodes, e) && (#[trigger] gone[e])
                == nodes[e] && live(unplanned, e) by {
                assert(gone[e] == unplanned[e]);
                assert(live(unplanned, e));
                assert(unplanned[e] == nodes[e]);
            }
            assert forall|e: int| is_kind(gone, e, Kind::PlaybackRoot) implies e == root by {
                assert(gone[e] == nodes[e]);
                assert(is_kind(nodes, e, Kind::PlaybackRoot));
            }
            assert(only_one(gone, Kind::PlaybackRoot, root));
            lemma_single_is_the_only_one(gone, Kind::PlaybackRoot, root as usize);
            lemma_despawn_spares(gone, root);
            lemma_despawn_takes_the_subtree(gone, root);
            assert(after == despawned(gone, root));
            assert forall|e: int| live(after, e) implies (#[trigger] after[e]).unwrap().parent
                is Some by {
                assert(after[e] == gone[e]);
                assert(gone[e] == nodes[e]);
                if nodes[e].unwrap().parent is None {
                    if is_kind(nodes, e, Kind::Ragdoll) {
                        assert(is_kind(unplanned, e, Kind::Ragdoll));
                        assert(tokens.contains(e as usize));
                        let i = choose|i: int| 0 <= i < tokens.len() && tokens[i] == e as usize;
                        assert(!live(gone, tokens[i] as int));
                    } else {
                        assert(is_kind(nodes, e, Kind::MenuRoot) || is_kind(
                            nodes,
                            e,
                            Kind::PlaybackRoot,
                        ));
                    }
                }
            }
            lemma_forest_without_anchor_is_empty(after);
        },
    }
}

/// Entering a mode in an empty registry puts the application in order.
pub proof fn lemma_entering(vacated: Nodes, target: AppState, after: Nodes)
    requires
        emptied(vacated),
        tree_wf(after),
        grown(
            vacated.push(
                Some(
                    match target {
                        AppState::MainMenu => menu_root(),
                        AppState::Playback => playback_root(),
                    },
                ),
            ),
            after,
            false,
        ),
    ensures
        anchored(after, target == AppState::Playback),
        parentless(after, Kind::MenuRoot),
        parentless(after, Kind::PlaybackRoot),
        has_one(after, root_of(target)),
        none_of(after, root_of(other(target))),
{
    let root = match target {
        AppState::MainMenu => menu_root(),
        AppState::Playback => playback_root(),
    };
    let rooted = vacated.push(Some(root));
    let at = vacated.len() as int;
    assert forall|e: int| live(rooted, e) implies e == at by {
        if e < vacated.len() {
            assert(rooted[e] == vacated[e]);
            assert(live(vacated, e));
        }
    }
    assert(is_kind(rooted, at, root_of(target)));
    assert(only_one(rooted, root_of(target), at));
    assert(none_of(rooted, root_of(other(target))));
    assert(parentless(rooted, Kind::MenuRoot));
    assert(parentless(rooted, Kind::PlaybackRoot));
    assert(anchored(rooted, false));
    lemma_growth_keeps_roots(rooted, after, false);
    lemma_census_decides(rooted, after, Kind::MenuRoot);
    lemma_census_decides(rooted, after, Kind::PlaybackRoot);
}

/// The playback root exists exactly while the mode is playback, and the
/// container of the menu exactly while the mode is the menu.
pub proof fn lemma_root_tells_the_mode(app: ControllerView)
    requires
        in_order(app),
    ensures
        has_one(app.nodes, Kind::PlaybackRoot) <==> app.state == AppState::Playback,
        none_of(app.nodes, Kind::PlaybackRoot) <==> app.state == AppState::MainMenu,
        has_one(app.nodes, Kind::MenuRoot) <==> app.state == AppState::MainMenu,
        none_of(app.nodes, Kind::MenuRoot) <==> app.state == AppState::Playback,
{
    if has_one(app.nodes, Kind::PlaybackRoot) {
        let e = choose|e: int| only_one(app.nodes, Kind::PlaybackRoot, e);
        assert(is_kind(app.nodes, e, Kind::PlaybackRoot));
    }
    if has_one(app.nodes, Kind::MenuRoot) {
        let e = choose|e: int| only_one(app.nodes, Kind::MenuRoot, e);
        assert(is_kind(app.nodes, e, Kind::MenuRoot));
    }
}

/// A frame in which the pointer is absent or off the viewport leaves the
/// pointer's state as the frame before left it.
pub proof fn lemma_frame_keeps_pointer_outside(
    app: ControllerView,
    viewport: Viewport,
    pointer: PointerFacts,
    resizes: Seq<WindowResized>,
    interactions: Seq<ButtonInteraction>,
)
    requires
        pointer.cursor is Some ==> !viewport.holds(pointer.cursor.unwrap()),
    ensures
        mapped(pointer.cursor, viewport, pointer.projected) is None,
        step(app, viewport, pointer, resizes, interactions).pointer == app.pointer,
{
}

/// Hover events mark changes, not states. Where a frame of playback is
/// followed by another whose hit test finds what the first one found, the
/// second frame sends no hover event.
pub proof fn lemma_hover_is_edge_triggered(
    app: ControllerView,
    viewport: Viewport,
    pointer: PointerFacts,
    resizes: Seq<WindowResized>,
    interactions: Seq<ButtonInteraction>,
    next_viewport: Viewport,
    next_pointer: PointerFacts,
)
    requires
        app.state == AppState::Playback,
        settled(app),
        step(app, viewport, pointer, resizes, interactions).state == AppState::Playback,
        ({
            let next = step(app, viewport, pointer, resizes, interactions);
            let at = recorded(app.pointer, mapped(pointer.cursor, viewport, pointer.projected));
            let next_at = recorded(
                next.pointer,
                mapped(next_pointer.cursor, next_viewport, next_pointer.projected),
            );
            hovered(next.nodes, next_at.position) == hovered(app.nodes, at.position)
        }),
    ensures
        hovers_read(
            step(app, viewport, pointer, resizes, interactions),
            next_viewport,
            next_pointer,
        ) == Seq::<RagdollHoverEvent>::empty(),
{
    let at = recorded(app.pointer, mapped(pointer.cursor, viewport, pointer.projected));
    let found = hovered(app.nodes, at.position);
    let hovers = hovers_read(app, viewport, pointer);
    assert(app.hovers =~= Seq::empty());
    assert(hover_settled(app.over, hovers) == found);
    let framed = frame(app, viewport, pointer, resizes, interactions);
    assert(framed.over == found);
    assert(transitioned(framed).over == found);
}

/// Entering playback with the selection of a map shows that map: the frame
/// that takes up the request spawns the playback root and, next to it, the
/// map's floor-plan visual at the origin and at the scale of the viewport.
pub proof fn lemma_entering_playback_shows_the_map(
    app: ControllerView,
    name: Seq<char>,
    viewport: Viewport,
)
    requires
        in_order(app),
        app.state == AppState::MainMenu,
        app.requests.len() > 0,
        app.requests[0] == AppState::Playback,
        app.selections == seq![name],
        app.spawns.len() == 0,
        find_map(app.maps, name) is Some,
        tree_wf(lifecycle(transitioned(app), viewport).nodes),
    ensures
        lifecycle(transitioned(app), viewport).state == AppState::Playback,
        lifecycle(transitioned(app), viewport).nodes.len() > app.nodes.len() + 1,
        lifecycle(transitioned(app), viewport).nodes[app.nodes.len() as int] == Some(
            playback_root(),
        ),
        lifecycle(transitioned(app), viewport).nodes[app.nodes.len() as int + 1]
            == visual_for(
            app.nodes.len() as usize,
            app.maps,
            name,
            viewport,
        ),
{
    let vacated = left(app.nodes, AppState::MainMenu);
    let rooted = vacated.push(Some(playback_root()));
    let root = app.nodes.len() as usize;
    lemma_despawn_root_takes_the_root(app.nodes, Kind::MenuRoot);
    assert(vacated.len() == app.nodes.len()) by {
        let menu = choose|e: int| only_one(app.nodes, Kind::MenuRoot, e);
        lemma_single_is_the_only_one(app.nodes, Kind::MenuRoot, menu as usize);
    }
    assert forall|e: int| is_kind(rooted, e, Kind::PlaybackRoot) implies e
        == root by {
        if e < vacated.len() {
            assert(rooted[e] == vacated[e]);
            assert(is_kind(vacated, e, Kind::PlaybackRoot));
        }
    }
    assert(is_kind(rooted, root as int, Kind::PlaybackRoot));
    assert(only_one(rooted, Kind::PlaybackRoot, root as int));
    let entering = transitioned(app);
    assert(entering.nodes == rooted);
    assert(entering.selections == seq![name]);
    assert(entering.spawns =~= seq!["Ragdoll 1"@]);
    let names = seq![name];
    let visual = visual_for(root, app.maps, name, viewport);
    let planned = floor_plants_drawn(rooted, app.maps, names, viewport);
    let labelled = labels_drawn(planned, names);
    let after = lifecycle(entering, viewport).nodes;
    assert(after == with_ragdolls(labelled, entering.spawns));
    lemma_spawning_keeps(labelled, entering.spawns);
    lemma_labelling_keeps(planned, names);
    if let Ok(found) = single_of(rooted, Kind::PlaybackRoot) {
        lemma_every_selection_is_drawn(
            rooted,
            found,
            app.maps,
            names,
            viewport,
        );
    }
    assert(rooted.len() <= planned.len() <= labelled.len() <= after.len());
    lemma_single_is_the_only_one(rooted, Kind::PlaybackRoot, root);
    lemma_every_selection_is_drawn(
        rooted,
        root,
        app.maps,
        names,
        viewport,
    );
    assert(planned[rooted.len() as int + 0] == visual);
    assert(planned[root as int] == rooted[root as int]);
    assert(labelled[rooted.len() as int] == planned[rooted.len() as int]);
    assert(labelled[root as int] == planned[root as int]);
}

/// Leaving playback and entering it again for the same map, in a viewport
/// of the same size, shows the map as the first time: with the same
/// texture, at the same position and at the same scale.
pub proof fn lemma_reentering_shows_the_same(
    first: ControllerView,
    again: ControllerView,
    name: Seq<char>,
    viewport: Viewport,
)
    requires
        first.maps == again.maps,
        find_map(first.maps, name) is Some,
        in_order(first),
        first.state == AppState::MainMenu,
        first.requests.len() > 0,
        first.requests[0] == AppState::Playback,
        first.selections == seq![name],
        first.spawns.len() == 0,
        tree_wf(lifecycle(transitioned(first), viewport).nodes),
        in_order(again),
        again.state == AppState::MainMenu,
        again.requests.len() > 0,
        again.requests[0] == AppState::Playback,
        again.selections == seq![name],
        again.spawns.len() == 0,
        tree_wf(lifecycle(transitioned(again), viewport).nodes),
    ensures
        lifecycle(transitioned(first), viewport).nodes[first.nodes.len() as int + 1].unwrap().item
            == lifecycle(transitioned(again), viewport).nodes[again.nodes.len() as int
            + 1].unwrap().item,
{
    lemma_entering_playback_shows_the_map(first, name, viewport);
    lemma_entering_playback_shows_the_map(again, name, viewport);
    lemma_same_map_same_visual(
        first.nodes.len() as usize,
        again.nodes.len() as usize,
        first.maps,
        name,
        viewport,
    );
}

/// The events of a frame do not outlive it: after a frame no selection, no
/// spawn request and no hover event waits.
pub proof fn lemma_frame_reads_every_event(
    app: ControllerView,
    viewport: Viewport,
    pointer: PointerFacts,
    resizes: Seq<WindowResized>,
    interactions: Seq<ButtonInteraction>,
)
    requires
        settled(app),
    ensures
        step(app, viewport, pointer, resizes, interactions).selections.len() == 0,
        settled(step(app, viewport, pointer, resizes, interactions)),
{
}

/// The mode changes by request only, and by one request in a frame: after
/// a frame the mode is the one that the oldest request asked for, and the
/// later requests wait.
pub proof fn lemma_mode_follows_the_oldest_request(
    app: ControllerView,
    viewport: Viewport,
    pointer: PointerFacts,
    resizes: Seq<WindowResized>,
    interactions: Seq<ButtonInteraction>,
)
    ensures
        ({
            let asked = frame(app, viewport, pointer, resizes, interactions).requests;
            let after = step(app, viewport, pointer, resizes, interactions);
            &&& after.state == next_mode(app.state, asked)
            &&& asked.len() == 0 ==> after.requests == asked
            &&& asked.len() > 0 ==> after.requests == asked.skip(1)
        }),
{
}

/// Every selection of a frame gets its visual, and the last selection gets
/// the last one. Where each selection that waits in playback names a map,
/// the frame spawns one floor-plan visual for each of them under the
/// playback root, in the order in which they were sent, before anything
/// else that it spawns.
pub proof fn lemma_frame_draws_every_selection(app: ControllerView, viewport: Viewport)
    requires
        in_order(app),
        app.state == AppState::Playback,
        forall|i: int|
            0 <= i < app.selections.len() ==> find_map(app.maps, #[trigger] app.selections[i])
                is Some,
    ensures
        single_of(app.nodes, Kind::PlaybackRoot) is Ok,
        lifecycle(app, viewport).nodes.len() >= app.nodes.len() + app.selections.len(),
        forall|e: int|
            0 <= e < app.nodes.len() ==> (#[trigger] lifecycle(app, viewport).nodes[e])
                == app.nodes[e],
        forall|i: int|
            0 <= i < app.selections.len() ==> (#[trigger] lifecycle(
                app,
                viewport,
            ).nodes[app.nodes.len() + i]) == visual_for(
                single_of(app.nodes, Kind::PlaybackRoot).unwrap(),
                app.maps,
                app.selections[i],
                viewport,
            ),
{
    lemma_root_is_found(app);
    let root = single_of(app.nodes, Kind::PlaybackRoot).unwrap();
    let planned = floor_plants_drawn(app.nodes, app.maps, app.selections, viewport);
    let labelled = labels_drawn(planned, app.selections);
    let after = lifecycle(app, viewport).nodes;
    lemma_every_selection_is_drawn(app.nodes, root, app.maps, app.selections, viewport);
    lemma_labelling_keeps(planned, app.selections);
    lemma_spawning_keeps(labelled, app.spawns);
    assert forall|e: int| 0 <= e < planned.len() implies (#[trigger] after[e]) == planned[e] by {
        assert(labelled[e] == planned[e]);
    }
    assert forall|i: int| 0 <= i < app.selections.len() implies (#[trigger] after[app.nodes.len()
        + i]) == visual_for(root, app.maps, app.selections[i], viewport) by {
        assert(planned[app.nodes.len() + i] == visual_for(
            root,
            app.maps,
            app.selections[i],
            viewport,
        ));
    }
    assert forall|e: int| 0 <= e < app.nodes.len() implies (#[trigger] after[e])
        == app.nodes[e] by {
        assert(planned[e] == app.nodes[e]);
    }
}

} // verus!
