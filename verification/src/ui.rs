//! The main menu: one button per map.

use vstd::prelude::*;
use crate::events::Events;
use crate::maps::MapEntry;
use crate::playback::{selected_names, MapSelectEvent};
use crate::scene::laws::lemma_spawn_grows;
use crate::scene::{
    grown, is_kind, same_shape, single_of, with_item, without_root, Entity, Item, ItemView, Kind,
    NodeView, Nodes, QuerySingleError, Scene,
};
use crate::state::{AppState, NextState};

verus! {

/// The paint of a menu button.
#[derive(Clone, Copy, Debug, PartialEq, Eq, Structural)]
pub enum ButtonColor {
    Normal,
    Hovered,
    Pressed,
}

/// What the pointer does to a button.
#[derive(Clone, Copy, Debug, PartialEq, Eq, Structural)]
pub enum Interaction {
    /// The button is held down.
    Pressed,
    /// The pointer is over the button.
    Hovered,
    /// Nothing happens to the button.
    Idle,
}

/// The pointer does something else to a button than the frame before.
#[derive(Clone, Copy, Debug, PartialEq, Eq, Structural)]
pub struct ButtonInteraction {
    pub button: Entity,
    pub interaction: Interaction,
}

/// The paint that shows the interaction.
pub open spec fn color_for(interaction: Interaction) -> ButtonColor {
    match interaction {
        Interaction::Pressed => ButtonColor::Pressed,
        Interaction::Hovered => ButtonColor::Hovered,
        Interaction::Idle => ButtonColor::Normal,
    }
}

/// The container of the menu as it is spawned.
pub open spec fn menu_root() -> NodeView {
    NodeView { parent: None, item: ItemView::MenuRoot }
}

/// The button of the map of the given name as it is spawned under `root`.
pub open spec fn button_of(root: Entity, name: Seq<char>) -> NodeView {
    NodeView { parent: Some(root), item: ItemView::Button { name, color: ButtonColor::Normal } }
}

/// A line of text as it is spawned under `parent`.
pub open spec fn label_of(parent: Entity, text: Seq<char>) -> NodeView {
    NodeView { parent: Some(parent), item: ItemView::Text { text } }
}

/// The registry after a button and, under it, its label were spawned under
/// `root` for each of the maps, in their order.
pub open spec fn with_buttons(nodes: Nodes, root: Entity, maps: Seq<MapEntry>) -> Nodes
    decreases maps.len(),
{
    if maps.len() == 0 {
        nodes
    } else {
        with_buttons(
            nodes.push(Some(button_of(root, maps[0].name@))).push(
                Some(label_of(nodes.len() as usize, maps[0].name@)),
            ),
            root,
            maps.skip(1),
        )
    }
}

/// The name of the button `e`.
pub open spec fn button_name(nodes: Nodes, e: int) -> Seq<char> {
    nodes[e].unwrap().item->Button_name
}

/// The registry in which the button that the change names shows the
/// change. A change that names no button changes nothing.
pub open spec fn button_painted(nodes: Nodes, change: ButtonInteraction) -> Nodes {
    if is_kind(nodes, change.button as int, Kind::Button) {
        with_item(
            nodes,
            change.button as int,
            ItemView::Button {
                name: button_name(nodes, change.button as int),
                color: color_for(change.interaction),
            },
        )
    } else {
        nodes
    }
}

/// The registry after the changes were read one by one.
pub open spec fn buttons_painted(nodes: Nodes, changes: Seq<ButtonInteraction>) -> Nodes
    decreases changes.len(),
{
    if changes.len() == 0 {
        nodes
    } else {
        button_painted(buttons_painted(nodes, changes.drop_last()), changes.last())
    }
}

/// The change presses a button.
pub open spec fn presses(nodes: Nodes, change: ButtonInteraction) -> bool {
    change.interaction == Interaction::Pressed && is_kind(nodes, change.button as int, Kind::Button)
}

/// The names of the buttons that the changes press, in the order of the
/// changes.
pub open spec fn pressed_names(nodes: Nodes, changes: Seq<ButtonInteraction>) -> Seq<Seq<char>>
    decreases changes.len(),
{
    if changes.len() == 0 {
        Seq::empty()
    } else {
        let earlier = pressed_names(nodes, changes.drop_last());
        if presses(nodes, changes.last()) {
            earlier.push(button_name(nodes, changes.last().button as int))
        } else {
            earlier
        }
    }
}

/// The requests with one more for playback for each of `presses` presses.
pub open spec fn with_playback_requests(requests: Seq<AppState>, presses: nat) -> Seq<AppState> {
    requests + Seq::new(presses, |i: int| AppState::Playback)
}

/// The marker of the menu's container.
pub struct RootUINode;

impl RootUINode {
    /// The one container of the menu, or why there is no such one.
    pub fn single(scene: &Scene) -> (found: Result<Entity, QuerySingleError>)
        ensures
            found == single_of(scene@, Kind::MenuRoot),
    {
        scene.single(Kind::MenuRoot)
    }
}

/// The systems that keep the menu.
pub struct UIPlugin;

impl UIPlugin {
    /// Spawns the menu: its container and, under it, a button with its
    /// label for each map. Returns the container.
    pub fn buttons_setup(scene: &mut Scene, maps: &Vec<MapEntry>) -> (root: Entity)
        requires
            old(scene).wf(),
        ensures
            final(scene).wf(),
            root == old(scene)@.len(),
            final(scene)@ == with_buttons(old(scene)@.push(Some(menu_root())), root, maps@),
            grown(old(scene)@.push(Some(menu_root())), final(scene)@, false),
    {
        let root = scene.spawn(None, Item::MenuRoot);
        let ghost rooted = scene@;
        let mut i: usize = 0;
        assert(maps@.skip(0) =~= maps@);
        while i < maps.len()
            invariant
                i <= maps.len(),
                scene.wf(),
                root < scene@.len(),
                scene@[root as int] is Some,
                grown(rooted, scene@, false),
                with_buttons(rooted, root, maps@) == with_buttons(
                    scene@,
                    root,
                    maps@.skip(i as int),
                ),
            decreases maps.len() - i,
        {
            proof {
                assert(maps@.skip(i as int)[0] == maps@[i as int]);
                assert(maps@.skip(i as int).skip(1) =~= maps@.skip(i + 1));
            }
            let ghost before = scene@;
            let button = scene.spawn(
                Some(root),
                Item::Button { name: maps[i].name.clone(), color: ButtonColor::Normal },
            );
            scene.spawn(Some(button), Item::Text { text: maps[i].name.clone() });
            proof {
                let name = maps@[i as int].name@;
                lemma_spawn_grows(rooted, before, button_of(root, name), false);
                lemma_spawn_grows(
                    rooted,
                    before.push(Some(button_of(root, name))),
                    label_of(button, name),
                    false,
                );
            }
            i += 1;
        }
        root
    }

    /// The paint that shows the interaction.
    pub fn color_of(interaction: Interaction) -> (color: ButtonColor)
        ensures
            color == color_for(interaction),
    {
        match interaction {
            Interaction::Pressed => ButtonColor::Pressed,
            Interaction::Hovered => ButtonColor::Hovered,
            Interaction::Idle => ButtonColor::Normal,
        }
    }

    /// Reads the changes of interaction in their order. Each button shows
    /// its change; a button that is pressed also selects its map and asks
    /// for playback.
    pub fn buttons_system(
        changes: &Vec<ButtonInteraction>,
        scene: &mut Scene,
        events: &mut Events<MapSelectEvent>,
        next_state: &mut NextState,
    )
        requires
            old(scene).wf(),
        ensures
            final(scene).wf(),
            final(scene)@ == buttons_painted(old(scene)@, changes@),
            same_shape(old(scene)@, final(scene)@),
            selected_names(final(events)@) == selected_names(old(events)@) + pressed_names(
                old(scene)@,
                changes@,
            ),
            final(next_state)@ == with_playback_requests(
                old(next_state)@,
                pressed_names(old(scene)@, changes@).len(),
            ),
    {
        let mut i: usize = 0;
        assert(selected_names(events@) + pressed_names(scene@, changes@.take(0)) =~= selected_names(
            events@,
        ));
        assert(with_playback_requests(next_state@, 0) =~= next_state@);
        while i < changes.len()
            invariant
                i <= changes.len(),
                scene.wf(),
                same_shape(old(scene)@, scene@),
                forall|e: int|
                    is_kind(old(scene)@, e, Kind::Button) ==> #[trigger] button_name(scene@, e)
                        == button_name(old(scene)@, e),
                scene@ == buttons_painted(old(scene)@, changes@.take(i as int)),
                selected_names(events@) == selected_names(old(events)@) + pressed_names(
                    old(scene)@,
                    changes@.take(i as int),
                ),
                next_state@ == with_playback_requests(
                    old(next_state)@,
                    pressed_names(old(scene)@, changes@.take(i as int)).len(),
                ),
            decreases changes.len() - i,
        {
            let change = changes[i];
            let ghost before = scene@;
            let ghost sent = events@;
            proof {
                assert(changes@.take(i + 1).drop_last() =~= changes@.take(i as int));
                assert(changes@.take(i + 1).last() == change);
            }
            let name = match scene.get(change.button) {
                Some(node) => match &node.item {
                    Item::Button { name, .. } => Some(name.clone()),
                    _ => None,
                },
                None => None,
            };
            if let Some(name) = name {
                assert(is_kind(before, change.button as int, Kind::Button));
                assert(is_kind(old(scene)@, change.button as int, Kind::Button));
                scene.set_item(
                    change.button,
                    Item::Button { name: name.clone(), color: Self::color_of(change.interaction) },
                );
                assert forall|e: int| is_kind(old(scene)@, e, Kind::Button) implies #[trigger]
                    button_name(scene@, e) == button_name(old(scene)@, e) by {
                    assert(button_name(before, e) == button_name(old(scene)@, e));
                    if e != change.button {
                        assert(scene@[e] == before[e]);
                    }
                }
                if let Interaction::Pressed = change.interaction {
                    events.send(MapSelectEvent(name));
                    next_state.set(AppState::Playback);
                    proof {
                        let pressed = pressed_names(old(scene)@, changes@.take(i as int));
                        assert(selected_names(events@) =~= selected_names(sent).push(name@));
                        assert(selected_names(old(events)@) + pressed.push(name@) =~= (
                            selected_names(old(events)@) + pressed
                        ).push(name@));
                        assert(with_playback_requests(old(next_state)@, pressed.len() + 1)
                            =~= with_playback_requests(old(next_state)@, pressed.len()).push(
                            AppState::Playback,
                        ));
                    }
                }
            }
            i += 1;
        }
        assert(changes@.take(changes.len() as int) =~= changes@);
    }

    /// Removes the menu: its container with all that is below it. Where
    /// there is no container, or more than one, nothing is removed and the
    /// reason is returned.
    pub fn buttons_cleanup(scene: &mut Scene) -> (removed: Result<Entity, QuerySingleError>)
        requires
            old(scene).wf(),
        ensures
            final(scene).wf(),
            removed == single_of(old(scene)@, Kind::MenuRoot),
            final(scene)@ == without_root(old(scene)@, Kind::MenuRoot),
    {
        scene.despawn_root(Kind::MenuRoot)
    }
}

} // verus!
