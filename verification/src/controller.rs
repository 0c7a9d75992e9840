//! The controller of the application, one frame after the other.
//!
//! A frame runs the systems of the current mode on what the front end
//! reports, takes up the oldest request to change the mode, and then spawns
//! what the selections and the new mode ask for. The events of a frame are
//! read in that frame and dropped at its end.

pub mod laws;

use vstd::prelude::*;
use crate::controller::laws::{
    lemma_entering, lemma_growth_keeps_order, lemma_leaving_leaves_nothing, lemma_root_is_found,
    lemma_shape_keeps_order,
};
use crate::events::Events;
use crate::maps::{is_catalog, MapEntry, MapPlugin};
use crate::mouse::{mapped, recorded, MouseCoordinates, MousePlugin, PointerFacts, Viewport};
use crate::playback::floor_plant::{
    floor_plants_drawn, resize_skipped, resized, FloorPlantPlugin, WindowResized,
};
use crate::playback::ui::{labels_drawn, PlaybackUIPlugin};
use crate::playback::{playback_root, selected_names, MapSelectEvent, MouseState, PlaybackPlugin};
use crate::ragdoll::{
    hover_painted, hover_reported, hover_settled, hovered, spawn_names, with_ragdolls,
    RagdollHoverEvent, RagdollPlugin, RagdollSpawnEvent,
};
use crate::scene::{
    anchored, despawned_all, has_one, is_kind, matching, none_of, parentless, tree_wf, without_root,
    Entity, Kind, NodeView, Nodes, QuerySingleError, Scene,
};
use crate::state::{AppState, NextState};
use crate::ui::{
    buttons_painted, menu_root, pressed_names, with_buttons, with_playback_requests,
    ButtonInteraction, UIPlugin,
};

verus! {

/// What the front end reports of one frame.
pub struct FrameInput {
    /// The size of the viewport.
    pub viewport: Viewport,
    /// What is known of the pointer.
    pub pointer: PointerFacts,
    /// The changes of the viewport's size since the last frame, oldest
    /// first.
    pub resizes: Vec<WindowResized>,
    /// The changes of interaction with the menu's buttons since the last
    /// frame, oldest first.
    pub interactions: Vec<ButtonInteraction>,
}

/// What a frame hands to the front end.
pub struct FrameOutput {
    /// The selections that were read in this frame, oldest first.
    pub selected: Vec<MapSelectEvent>,
    /// The hover events that were read in this frame, oldest first.
    pub hovered: Vec<RagdollHoverEvent>,
    /// What was skipped in this frame, and why.
    pub skipped: Vec<QuerySingleError>,
}

/// The application between two frames.
pub struct Controller {
    state: AppState,
    next_state: NextState,
    scene: Scene,
    maps: Vec<MapEntry>,
    mouse_coordinates: MouseCoordinates,
    mouse_state: MouseState,
    map_select_events: Events<MapSelectEvent>,
    ragdoll_spawn_events: Events<RagdollSpawnEvent>,
    ragdoll_hover_events: Events<RagdollHoverEvent>,
}

/// The controller as its contracts speak of it.
pub struct ControllerView {
    /// The mode.
    pub state: AppState,
    /// The requests to change the mode that wait, oldest first.
    pub requests: Seq<AppState>,
    /// The registry of entities.
    pub nodes: Nodes,
    /// The catalog of maps.
    pub maps: Seq<MapEntry>,
    /// The pointer's state.
    pub pointer: MouseCoordinates,
    /// The entity that the pointer is known to be over.
    pub over: Option<Entity>,
    /// The names of the selections that wait.
    pub selections: Seq<Seq<char>>,
    /// The names of the tokens that wait to be spawned.
    pub spawns: Seq<Seq<char>>,
    /// The hover events that wait.
    pub hovers: Seq<RagdollHoverEvent>,
}

impl View for Controller {
    type V = ControllerView;

    closed spec fn view(&self) -> ControllerView {
        ControllerView {
            state: self.state,
            requests: self.next_state@,
            nodes: self.scene@,
            maps: self.maps@,
            pointer: self.mouse_coordinates,
            over: self.mouse_state.over_entity,
            selections: selected_names(self.map_select_events@),
            spawns: spawn_names(self.ragdoll_spawn_events@),
            hovers: self.ragdoll_hover_events@,
        }
    }
}

/// The container of the given mode.
pub open spec fn root_of(state: AppState) -> Kind {
    match state {
        AppState::MainMenu => Kind::MenuRoot,
        AppState::Playback => Kind::PlaybackRoot,
    }
}

/// The mode that the application is not in.
pub open spec fn other(state: AppState) -> AppState {
    match state {
        AppState::MainMenu => AppState::Playback,
        AppState::Playback => AppState::MainMenu,
    }
}

/// The registry is a forest. The container of the current mode exists,
/// alone, and that of the other mode does not. Every entity is the
/// container, below it, or, in playback, a token or below one. What the
/// pointer is over is a token that exists.
pub open spec fn in_order(app: ControllerView) -> bool {
    &&& tree_wf(app.nodes)
    &&& anchored(app.nodes, app.state == AppState::Playback)
    &&& parentless(app.nodes, Kind::MenuRoot)
    &&& parentless(app.nodes, Kind::PlaybackRoot)
    &&& has_one(app.nodes, root_of(app.state))
    &&& none_of(app.nodes, root_of(other(app.state)))
    &&& app.over is Some ==> app.state == AppState::Playback && is_kind(
        app.nodes,
        app.over.unwrap() as int,
        Kind::Ragdoll,
    )
}

/// No spawn request and no hover event waits.
pub open spec fn settled(app: ControllerView) -> bool {
    app.spawns.len() == 0 && app.hovers.len() == 0
}

/// The application after the menu's systems ran: the buttons show their
/// interactions, and every press has selected its map and asked for
/// playback.
pub open spec fn menu_frame(
    app: ControllerView,
    interactions: Seq<ButtonInteraction>,
) -> ControllerView {
    let pressed = pressed_names(app.nodes, interactions);
    ControllerView {
        nodes: buttons_painted(app.nodes, interactions),
        selections: app.selections + pressed,
        requests: with_playback_requests(app.requests, pressed.len()),
        ..app
    }
}

/// The hover events that the playback systems read in a frame: what
/// waited, and the one that the hit test of the frame sends.
pub open spec fn hovers_read(app: ControllerView, viewport: Viewport, pointer: PointerFacts) -> Seq<
    RagdollHoverEvent,
> {
    let at = recorded(app.pointer, mapped(pointer.cursor, viewport, pointer.projected));
    hover_reported(app.hovers, app.over, hovered(app.nodes, at.position))
}

/// The application after the playback systems ran: the pointer is
/// recorded, the hit test is made and its event read, and the floor-plan
/// visual follows the viewport.
pub open spec fn playback_frame(
    app: ControllerView,
    viewport: Viewport,
    pointer: PointerFacts,
    resizes: Seq<WindowResized>,
) -> ControllerView {
    let hovers = hovers_read(app, viewport, pointer);
    ControllerView {
        pointer: recorded(app.pointer, mapped(pointer.cursor, viewport, pointer.projected)),
        over: hover_settled(app.over, hovers),
        nodes: resized(hover_painted(app.nodes, app.over, hovers), resizes),
        hovers: Seq::empty(),
        ..app
    }
}

/// What the playback systems skip in a frame.
pub open spec fn playback_skips(
    app: ControllerView,
    viewport: Viewport,
    pointer: PointerFacts,
    resizes: Seq<WindowResized>,
) -> Seq<QuerySingleError> {
    match resize_skipped(
        hover_painted(app.nodes, app.over, hovers_read(app, viewport, pointer)),
        resizes,
    ) {
        Some(why) => seq![why],
        None => Seq::empty(),
    }
}

/// The registry after the systems ran that leave the given mode. Leaving
/// the menu removes its container with all below it. Leaving playback
/// removes the floor-plan visuals, the tokens, and the playback root with
/// all below it.
pub open spec fn left(nodes: Nodes, state: AppState) -> Nodes {
    match state {
        AppState::MainMenu => without_root(nodes, Kind::MenuRoot),
        AppState::Playback => {
            let unplanned = despawned_all(nodes, matching(nodes, Kind::FloorPlant));
            let cleared = despawned_all(unplanned, matching(unplanned, Kind::Ragdoll));
            without_root(cleared, Kind::PlaybackRoot)
        },
    }
}

/// The registry after the systems ran that enter the given mode. Entering
/// the menu spawns it. Entering playback spawns the playback root.
pub open spec fn entered(nodes: Nodes, maps: Seq<MapEntry>, state: AppState) -> Nodes {
    match state {
        AppState::MainMenu => with_buttons(
            nodes.push(Some(menu_root())),
            nodes.len() as usize,
            maps,
        ),
        AppState::Playback => nodes.push(Some(playback_root())),
    }
}

/// The application after the oldest request to change the mode was taken
/// up. A request for the current mode is dropped without effect. Any other
/// leaves the current mode and enters the new one; entering playback asks
/// for its one token, and leaving it forgets what the pointer was over.
pub open spec fn transitioned(app: ControllerView) -> ControllerView {
    if app.requests.len() == 0 {
        app
    } else if app.requests[0] == app.state {
        ControllerView { requests: app.requests.skip(1), ..app }
    } else {
        let target = app.requests[0];
        ControllerView {
            state: target,
            requests: app.requests.skip(1),
            nodes: entered(left(app.nodes, app.state), app.maps, target),
            over: if app.state == AppState::Playback {
                None
            } else {
                app.over
            },
            spawns: if target == AppState::Playback {
                app.spawns.push("Ragdoll 1"@)
            } else {
                app.spawns
            },
            ..app
        }
    }
}

/// The application after the selections and spawn requests of the frame
/// were read. In playback every selection gets its floor-plan visual and
/// its line of text, and every spawn request its token; in the menu they
/// are dropped.
pub open spec fn lifecycle(app: ControllerView, viewport: Viewport) -> ControllerView {
    ControllerView {
        nodes: if app.state == AppState::Playback {
            with_ragdolls(
                labels_drawn(
                    floor_plants_drawn(app.nodes, app.maps, app.selections, viewport),
                    app.selections,
                ),
                app.spawns,
            )
        } else {
            app.nodes
        },
        selections: Seq::empty(),
        spawns: Seq::empty(),
        ..app
    }
}

/// The application after the systems of its mode ran.
pub open spec fn frame(
    app: ControllerView,
    viewport: Viewport,
    pointer: PointerFacts,
    resizes: Seq<WindowResized>,
    interactions: Seq<ButtonInteraction>,
) -> ControllerView {
    match app.state {
        AppState::MainMenu => menu_frame(app, interactions),
        AppState::Playback => playback_frame(app, viewport, pointer, resizes),
    }
}

/// The application after one frame.
pub open spec fn step(
    app: ControllerView,
    viewport: Viewport,
    pointer: PointerFacts,
    resizes: Seq<WindowResized>,
    interactions: Seq<ButtonInteraction>,
) -> ControllerView {
    lifecycle(transitioned(frame(app, viewport, pointer, resizes, interactions)), viewport)
}

impl Controller {
    /// The application is in order between two frames.
    pub open spec fn wf(&self) -> bool {
        in_order(self@) && settled(self@)
    }

    /// The application at its start: in the menu, which shows a button for
    /// each map of the catalog.
    pub fn new() -> (app: Controller)
        ensures
            app.wf(),
            app@.state == AppState::MainMenu,
            is_catalog(app@.maps),
            app@.nodes == with_buttons(seq![Some(menu_root())], 0, app@.maps),
            app@.requests.len() == 0,
            app@.selections.len() == 0,
            app@.pointer == MouseCoordinates::unseen(),
            app@.over is None,
    {
        let maps = MapPlugin::setup();
        let mut scene = Scene::new();
        UIPlugin::buttons_setup(&mut scene, &maps);
        let app = Controller {
            state: AppState::MainMenu,
            next_state: NextState::new(),
            scene,
            maps,
            mouse_coordinates: MouseCoordinates::new(),
            mouse_state: MouseState::new(),
            map_select_events: Events::new(),
            ragdoll_spawn_events: Events::new(),
            ragdoll_hover_events: Events::new(),
        };
        proof {
            let rooted = Seq::<Option<NodeView>>::empty().push(Some(menu_root()));
            assert(rooted =~= seq![Some(menu_root())]);
            lemma_entering(Seq::empty(), AppState::MainMenu, app@.nodes);
        }
        app
    }

    /// The mode.
    pub fn state(&self) -> (state: AppState)
        ensures
            state == self@.state,
    {
        self.state
    }

    /// The registry of entities.
    pub fn scene(&self) -> (scene: &Scene)
        ensures
            scene@ == self@.nodes,
    {
        &self.scene
    }

    /// The catalog of maps.
    pub fn maps(&self) -> (maps: &Vec<MapEntry>)
        ensures
            maps@ == self@.maps,
    {
        &self.maps
    }

    /// The pointer's state.
    pub fn mouse_coordinates(&self) -> (coordinates: MouseCoordinates)
        ensures
            coordinates == self@.pointer,
    {
        self.mouse_coordinates
    }

    /// The entity that the pointer is known to be over.
    pub fn mouse_state(&self) -> (state: MouseState)
        ensures
            state.over_entity == self@.over,
    {
        self.mouse_state
    }

    /// The number of requests to change the mode that wait.
    pub fn pending_transitions(&self) -> (n: usize)
        ensures
            n == self@.requests.len(),
    {
        self.next_state.pending()
    }

    /// Asks for the mode `state`. The request is taken up by a later frame,
    /// after the requests that wait.
    pub fn set_next_state(&mut self, state: AppState)
        ensures
            final(self)@ == (ControllerView {
                requests: old(self)@.requests.push(state),
                ..old(self)@
            }),
    {
        self.next_state.set(state);
    }

    /// Selects a map from outside the menu. The selection is read by the
    /// next frame.
    pub fn send_map_select(&mut self, event: MapSelectEvent)
        ensures
            final(self)@ == (ControllerView {
                selections: old(self)@.selections.push(event.0@),
                ..old(self)@
            }),
    {
        self.map_select_events.send(event);
        assert(selected_names(self.map_select_events@) =~= selected_names(
            old(self).map_select_events@,
        ).push(event.0@));
    }

    /// Runs the systems of the menu.
    fn run_menu(&mut self, interactions: &Vec<ButtonInteraction>)
        requires
            in_order(old(self)@),
            old(self)@.state == AppState::MainMenu,
        ensures
            in_order(final(self)@),
            final(self)@ == menu_frame(old(self)@, interactions@),
    {
        UIPlugin::buttons_system(
            interactions,
            &mut self.scene,
            &mut self.map_select_events,
            &mut self.next_state,
        );
        proof {
            lemma_shape_keeps_order(old(self)@, self@);
        }
    }

    /// Runs the systems of playback that come before a change of mode.
    fn run_playback(
        &mut self,
        viewport: Viewport,
        pointer: &PointerFacts,
        resizes: &Vec<WindowResized>,
    ) -> (read: (Vec<RagdollHoverEvent>, Vec<QuerySingleError>))
        requires
            in_order(old(self)@),
            settled(old(self)@),
            old(self)@.state == AppState::Playback,
            pointer.well_configured(),
        ensures
            in_order(final(self)@),
            final(self)@ == playback_frame(old(self)@, viewport, *pointer, resizes@),
            read.0@ == hovers_read(old(self)@, viewport, *pointer),
            read.1@ == playback_skips(old(self)@, viewport, *pointer, resizes@),
    {
        MousePlugin::cursor_position_to_world(&mut self.mouse_coordinates, pointer, viewport);
        RagdollPlugin::detect_mouse_over_entity(
            &self.mouse_coordinates,
            &self.scene,
            &self.mouse_state,
            &mut self.ragdoll_hover_events,
        );
        let hovered = self.ragdoll_hover_events.drain();
        RagdollPlugin::ragdoll_hover_system(&hovered, &mut self.mouse_state, &mut self.scene);
        let ghost painted = self@;
        let mut skipped: Vec<QuerySingleError> = Vec::new();
        if let Some(why) = FloorPlantPlugin::on_resize_window(&mut self.scene, resizes) {
            skipped.push(why);
            assert(skipped@ =~= seq![why]);
        }
        proof {
            let before = old(self)@;
            assert(before.hovers =~= Seq::empty());
            crate::ragdoll::lemma_hovered_is_a_token(before.nodes, self@.pointer.position);
            crate::scene::laws::lemma_same_shape_keeps(before.nodes, painted.nodes, Kind::Ragdoll);
            assert(painted.over == crate::ragdoll::hovered(before.nodes, self@.pointer.position));
            lemma_shape_keeps_order(ControllerView { over: painted.over, ..before }, painted);
            lemma_shape_keeps_order(painted, self@);
        }
        (hovered, skipped)
    }

    /// Takes up the oldest request to change the mode.
    fn apply_state_transition(&mut self)
        requires
            in_order(old(self)@),
        ensures
            in_order(final(self)@),
            final(self)@ == transitioned(old(self)@),
    {
        if let Some(target) = self.next_state.take() {
            if target != self.state {
                proof {
                    lemma_leaving_leaves_nothing(self@.nodes, self@.state);
                }
                match self.state {
                    AppState::MainMenu => {
                        let removed = UIPlugin::buttons_cleanup(&mut self.scene);
                        assert(removed is Ok);
                    },
                    AppState::Playback => {
                        FloorPlantPlugin::floor_plant_cleanup(&mut self.scene);
                        RagdollPlugin::ragdoll_cleanup(&mut self.scene);
                        let removed = self.scene.despawn_root(Kind::PlaybackRoot);
                        assert(removed is Ok);
                        self.mouse_state.over_entity = None;
                    },
                }
                let ghost vacated = self@.nodes;
                self.state = target;
                match target {
                    AppState::MainMenu => {
                        UIPlugin::buttons_setup(&mut self.scene, &self.maps);
                    },
                    AppState::Playback => {
                        PlaybackPlugin::playback_setup(&mut self.scene);
                        RagdollPlugin::ragdoll_setup(&mut self.ragdoll_spawn_events);
                    },
                }
                proof {
                    lemma_entering(vacated, target, self@.nodes);
                }
            }
        }
    }

    /// Reads the selections and the spawn requests of the frame.
    fn run_lifecycle(&mut self, viewport: Viewport) -> (selected: Vec<MapSelectEvent>)
        requires
            in_order(old(self)@),
        ensures
            in_order(final(self)@),
            final(self)@ == lifecycle(old(self)@, viewport),
            selected_names(selected@) == old(self)@.selections,
    {
        let selected = self.map_select_events.drain();
        let spawns = self.ragdoll_spawn_events.drain();
        assert(selected_names(self.map_select_events@) =~= Seq::<Seq<char>>::empty());
        assert(spawn_names(self.ragdoll_spawn_events@) =~= Seq::<Seq<char>>::empty());
        if self.state == AppState::Playback {
            // the playback root is there: no selection is skipped
            let ghost before = self@;
            let unplanned = FloorPlantPlugin::draw_floor_plant_on_map_select(
                &selected,
                &mut self.scene,
                &self.maps,
                viewport,
            );
            let ghost planned = self@;
            let unlabelled = PlaybackUIPlugin::draw_ui_on_map_select(&selected, &mut self.scene);
            let ghost labelled = self@;
            RagdollPlugin::ragdoll_spawn(&spawns, &mut self.scene);
            proof {
                lemma_growth_keeps_order(before, planned, false);
                lemma_growth_keeps_order(planned, labelled, false);
                lemma_growth_keeps_order(labelled, self@, true);
                lemma_root_is_found(before);
                lemma_root_is_found(planned);
                assert(unplanned@.len() == 0 && unlabelled@.len() == 0);
            }
        }
        selected
    }

    /// Runs one frame: the systems of the current mode on what `input`
    /// reports, then the oldest request to change the mode, then the
    /// spawning that the selections and the new mode ask for. In playback
    /// there must be exactly one main camera and one primary window.
    pub fn update(&mut self, input: &FrameInput) -> (output: FrameOutput)
        requires
            old(self).wf(),
            old(self)@.state == AppState::Playback ==> input.pointer.well_configured(),
        ensures
            final(self).wf(),
            final(self)@ == step(
                old(self)@,
                input.viewport,
                input.pointer,
                input.resizes@,
                input.interactions@,
            ),
            selected_names(output.selected@) == frame(
                old(self)@,
                input.viewport,
                input.pointer,
                input.resizes@,
                input.interactions@,
            ).selections,
            output.hovered@ == match old(self)@.state {
                AppState::MainMenu => Seq::empty(),
                AppState::Playback => hovers_read(old(self)@, input.viewport, input.pointer),
            },
            output.skipped@ == match old(self)@.state {
                AppState::MainMenu => Seq::empty(),
                AppState::Playback => playback_skips(
                    old(self)@,
                    input.viewport,
                    input.pointer,
                    input.resizes@,
                ),
            },
    {
        let mut hovered: Vec<RagdollHoverEvent> = Vec::new();
        let mut skipped: Vec<QuerySingleError> = Vec::new();
        match self.state {
            AppState::MainMenu => {
                self.run_menu(&input.interactions);
            },
            AppState::Playback => {
                let read = self.run_playback(input.viewport, &input.pointer, &input.resizes);
                hovered = read.0;
                skipped = read.1;
            },
        }
        self.apply_state_transition();
        let selected = self.run_lifecycle(input.viewport);
        FrameOutput { selected, hovered, skipped }
    }
}

} // verus!
