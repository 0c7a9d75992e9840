use scene_controller::controller::{Controller, FrameInput};
use scene_controller::mouse::{
    MouseCoordinates, PointerFacts, ScenePoint, Viewport, WindowPoint,
};
use scene_controller::playback::floor_plant::{Scale, WindowResized, REFERENCE_DIMENSION};
use scene_controller::playback::MapSelectEvent;
use scene_controller::ragdoll::RagdollHoverEvent;
use scene_controller::scene::{Item, Kind, Node, QuerySingleError};
use scene_controller::state::AppState;
use scene_controller::ui::{ButtonColor, ButtonInteraction, Interaction};

const SQUARE: Viewport = Viewport { width: 1024, height: 1024 };
const DUST2_BUTTON: usize = 3;
const TRAIN_BUTTON: usize = 11;

fn quiet(viewport: Viewport) -> FrameInput {
    FrameInput {
        viewport,
        pointer: PointerFacts { cameras: 1, windows: 1, cursor: None, projected: None },
        resizes: Vec::new(),
        interactions: Vec::new(),
    }
}

fn pressing(buttons: &[usize], viewport: Viewport) -> FrameInput {
    let mut input = quiet(viewport);
    input.interactions = buttons
        .iter()
        .map(|button| ButtonInteraction { button: *button, interaction: Interaction::Pressed })
        .collect();
    input
}

fn pointing(x: i32, y: i32) -> FrameInput {
    let mut input = quiet(SQUARE);
    input.pointer.cursor = Some(WindowPoint { x: 512, y: 512 });
    input.pointer.projected = Some(ScenePoint { x, y });
    input
}

fn resizing(width: u32, height: u32) -> FrameInput {
    let mut input = quiet(Viewport { width, height });
    input.resizes = vec![WindowResized { width, height }];
    input
}

fn live(app: &Controller) -> Vec<usize> {
    (0..app.scene().len()).filter(|e| app.scene().get(*e).is_some()).collect()
}

fn visual(root: usize, texture: &str, height: u32) -> Node {
    Node {
        parent: Some(root),
        item: Item::FloorPlant {
            texture: String::from(texture),
            position: ScenePoint { x: 0, y: 0 },
            scale: Scale { x: height, y: height },
        },
    }
}

fn label(parent: usize, text: &str) -> Node {
    Node { parent: Some(parent), item: Item::Text { text: String::from(text) } }
}

/// The application after the Dust2 button was pressed in a square viewport:
/// 13 root, 14 visual, 15 label, 16 token, 17 border.
fn in_playback() -> Controller {
    let mut app = Controller::new();
    app.update(&pressing(&[DUST2_BUTTON], SQUARE));
    app
}

#[test]
fn application_starts_in_the_menu() {
    let app = Controller::new();
    assert_eq!(app.state(), AppState::MainMenu);
    assert_eq!(app.pending_transitions(), 0);
    assert_eq!(app.maps().len(), 6);
    assert_eq!(app.scene().len(), 13);
    assert_eq!(app.scene().single(Kind::MenuRoot), Ok(0));
    assert_eq!(app.scene().single(Kind::PlaybackRoot), Err(QuerySingleError::NoEntities));
    assert_eq!(app.mouse_coordinates(), MouseCoordinates::new());
    assert_eq!(app.mouse_state().over_entity, None);
}

#[test]
fn quiet_frame_in_the_menu_changes_nothing() {
    let mut app = Controller::new();
    let output = app.update(&quiet(SQUARE));
    assert_eq!(app.state(), AppState::MainMenu);
    assert_eq!(live(&app), (0..13).collect::<Vec<usize>>());
    assert!(output.selected.is_empty());
    assert!(output.hovered.is_empty());
    assert!(output.skipped.is_empty());
}

#[test]
fn hovering_a_button_stays_in_the_menu() {
    let mut app = Controller::new();
    let mut input = quiet(SQUARE);
    input.interactions =
        vec![ButtonInteraction { button: DUST2_BUTTON, interaction: Interaction::Hovered }];
    app.update(&input);
    assert_eq!(app.state(), AppState::MainMenu);
    assert_eq!(
        app.scene().get(DUST2_BUTTON),
        Some(&Node {
            parent: Some(0),
            item: Item::Button { name: String::from("Dust2"), color: ButtonColor::Hovered },
        })
    );
}

#[test]
fn pressing_a_button_enters_playback_and_shows_the_map() {
    let mut app = Controller::new();
    let output = app.update(&pressing(&[DUST2_BUTTON], SQUARE));
    assert_eq!(app.state(), AppState::Playback);
    assert_eq!(app.pending_transitions(), 0);
    assert_eq!(output.selected, vec![MapSelectEvent(String::from("Dust2"))]);
    assert!(output.hovered.is_empty());
    assert!(output.skipped.is_empty());
    // the menu is gone, root and all
    assert_eq!(live(&app), vec![13, 14, 15, 16, 17]);
    assert_eq!(app.scene().get(13), Some(&Node { parent: None, item: Item::PlaybackRoot }));
    assert_eq!(app.scene().get(14), Some(&visual(13, "maps/de_dust2_radar.png", 1024)));
    assert_eq!(app.scene().get(15), Some(&label(13, "Dust2")));
    assert_eq!(
        app.scene().get(16),
        Some(&Node {
            parent: None,
            item: Item::Ragdoll {
                name: String::from("Ragdoll 1"),
                player: String::from("f0rest"),
                position: ScenePoint { x: -150, y: 0 },
                radius: 7,
            },
        })
    );
    assert_eq!(
        app.scene().get(17),
        Some(&Node { parent: Some(16), item: Item::Border { painted: false } })
    );
}

#[test]
fn playback_root_exists_exactly_in_playback() {
    let mut app = Controller::new();
    assert_eq!(app.scene().query(Kind::PlaybackRoot).len(), 0);
    assert_eq!(app.scene().query(Kind::MenuRoot).len(), 1);
    app.update(&pressing(&[TRAIN_BUTTON], SQUARE));
    assert_eq!(app.scene().query(Kind::PlaybackRoot).len(), 1);
    assert_eq!(app.scene().query(Kind::MenuRoot).len(), 0);
    app.update(&quiet(SQUARE));
    assert_eq!(app.scene().query(Kind::PlaybackRoot).len(), 1);
    app.set_next_state(AppState::MainMenu);
    app.update(&quiet(SQUARE));
    assert_eq!(app.scene().query(Kind::PlaybackRoot).len(), 0);
    assert_eq!(app.scene().query(Kind::MenuRoot).len(), 1);
}

#[test]
fn map_is_shown_at_the_scale_of_the_viewport_at_entry() {
    let mut app = Controller::new();
    app.update(&pressing(&[DUST2_BUTTON], Viewport { width: 1600, height: 512 }));
    assert_eq!(app.scene().get(14), Some(&visual(13, "maps/de_dust2_radar.png", 512)));
}

#[test]
fn two_presses_in_one_frame_draw_two_maps_and_enter_playback_once() {
    let mut app = Controller::new();
    let output = app.update(&pressing(&[DUST2_BUTTON, TRAIN_BUTTON], SQUARE));
    assert_eq!(app.state(), AppState::Playback);
    assert_eq!(
        output.selected,
        vec![MapSelectEvent(String::from("Dust2")), MapSelectEvent(String::from("Train"))]
    );
    assert_eq!(app.scene().query(Kind::PlaybackRoot), vec![13]);
    assert_eq!(app.scene().get(14), Some(&visual(13, "maps/de_dust2_radar.png", 1024)));
    assert_eq!(app.scene().get(15), Some(&visual(13, "maps/de_train_radar.png", 1024)));
    assert_eq!(app.scene().get(16), Some(&label(13, "Dust2")));
    assert_eq!(app.scene().get(17), Some(&label(13, "Train")));
    assert_eq!(app.scene().query(Kind::Ragdoll), vec![18]);
    // the second request waits, and is dropped by the next frame without effect
    assert_eq!(app.pending_transitions(), 1);
    let before = live(&app);
    app.update(&quiet(SQUARE));
    assert_eq!(app.pending_transitions(), 0);
    assert_eq!(app.state(), AppState::Playback);
    assert_eq!(live(&app), before);
}

#[test]
fn two_selections_of_the_same_map_in_one_frame_are_two_selections() {
    let mut app = Controller::new();
    app.update(&pressing(&[DUST2_BUTTON, DUST2_BUTTON], SQUARE));
    assert_eq!(app.scene().query(Kind::FloorPlant), vec![14, 15]);
    assert_eq!(app.scene().get(14), app.scene().get(15));
}

#[test]
fn request_for_the_current_mode_is_dropped() {
    let mut app = Controller::new();
    app.set_next_state(AppState::MainMenu);
    assert_eq!(app.pending_transitions(), 1);
    app.update(&quiet(SQUARE));
    assert_eq!(app.pending_transitions(), 0);
    assert_eq!(app.state(), AppState::MainMenu);
    assert_eq!(live(&app), (0..13).collect::<Vec<usize>>());
}

#[test]
fn one_request_is_taken_up_in_a_frame() {
    let mut app = Controller::new();
    app.set_next_state(AppState::Playback);
    app.set_next_state(AppState::MainMenu);
    app.update(&quiet(SQUARE));
    assert_eq!(app.state(), AppState::Playback);
    assert_eq!(app.pending_transitions(), 1);
    app.update(&quiet(SQUARE));
    assert_eq!(app.state(), AppState::MainMenu);
    assert_eq!(app.pending_transitions(), 0);
}

#[test]
fn selection_without_a_change_of_mode_is_dropped_at_the_end_of_the_frame() {
    let mut app = Controller::new();
    app.send_map_select(MapSelectEvent(String::from("Cache")));
    let output = app.update(&quiet(SQUARE));
    assert_eq!(output.selected, vec![MapSelectEvent(String::from("Cache"))]);
    assert_eq!(app.state(), AppState::MainMenu);
    assert_eq!(app.scene().len(), 13);
    // a later entry into playback does not find the selection any more
    app.set_next_state(AppState::Playback);
    let output = app.update(&quiet(SQUARE));
    assert!(output.selected.is_empty());
    assert_eq!(app.state(), AppState::Playback);
    assert_eq!(app.scene().query(Kind::FloorPlant), Vec::<usize>::new());
    assert_eq!(app.scene().query(Kind::Ragdoll), vec![14]);
}

#[test]
fn selection_from_outside_is_drawn_during_playback() {
    let mut app = in_playback();
    app.send_map_select(MapSelectEvent(String::from("Cache")));
    let output = app.update(&quiet(SQUARE));
    assert_eq!(output.selected, vec![MapSelectEvent(String::from("Cache"))]);
    assert_eq!(app.scene().get(18), Some(&visual(13, "maps/de_cache_radar.png", 1024)));
    assert_eq!(app.scene().get(19), Some(&label(13, "Cache")));
}

#[test]
fn hover_is_reported_when_it_changes_and_not_while_it_lasts() {
    let mut app = in_playback();
    // onto the token, which sits at (-150, 0) with radius 7
    let output = app.update(&pointing(-150, 5));
    assert_eq!(
        output.hovered,
        vec![RagdollHoverEvent { previous: None, hovered_entity: Some(16) }]
    );
    assert_eq!(app.mouse_state().over_entity, Some(16));
    assert_eq!(
        app.scene().get(17),
        Some(&Node { parent: Some(16), item: Item::Border { painted: true } })
    );
    // resting, and moving within the token
    assert!(app.update(&pointing(-150, 5)).hovered.is_empty());
    assert!(app.update(&pointing(-143, 0)).hovered.is_empty());
    assert_eq!(app.mouse_state().over_entity, Some(16));
    // off the token
    let output = app.update(&pointing(-142, 0));
    assert_eq!(
        output.hovered,
        vec![RagdollHoverEvent { previous: Some(16), hovered_entity: None }]
    );
    assert_eq!(app.mouse_state().over_entity, None);
    assert_eq!(
        app.scene().get(17),
        Some(&Node { parent: Some(16), item: Item::Border { painted: false } })
    );
    assert!(app.update(&pointing(0, 0)).hovered.is_empty());
}

#[test]
fn pointer_outside_the_viewport_leaves_pointer_and_hover_as_they_were() {
    let mut app = in_playback();
    app.update(&pointing(-150, 0));
    let before = app.mouse_coordinates();
    assert_eq!(
        before,
        MouseCoordinates { position: ScenePoint { x: -150, y: 0 }, inside_viewport: true }
    );

    let mut outside = quiet(SQUARE);
    outside.pointer.cursor = Some(WindowPoint { x: 1024, y: 10 });
    outside.pointer.projected = Some(ScenePoint { x: 512, y: 502 });
    let output = app.update(&outside);
    assert_eq!(app.mouse_coordinates(), before);
    assert!(output.hovered.is_empty());
    assert_eq!(app.mouse_state().over_entity, Some(16));

    let output = app.update(&quiet(SQUARE));
    assert_eq!(app.mouse_coordinates(), before);
    assert!(output.hovered.is_empty());
}

#[test]
fn pointer_is_not_followed_in_the_menu() {
    let mut app = Controller::new();
    app.update(&pointing(5, 5));
    assert_eq!(app.mouse_coordinates(), MouseCoordinates::new());
}

#[test]
fn resize_during_playback_rescales_the_map() {
    let mut app = in_playback();
    let output = app.update(&resizing(1024, 2048));
    assert!(output.skipped.is_empty());
    assert_eq!(app.scene().get(14), Some(&visual(13, "maps/de_dust2_radar.png", 2048)));
    match &app.scene().get(14).unwrap().item {
        Item::FloorPlant { scale, .. } => {
            assert_eq!(scale.x as f64 / REFERENCE_DIMENSION as f64, 2.0);
            assert_eq!(scale.y as f64 / REFERENCE_DIMENSION as f64, 2.0);
        }
        other => panic!("not a floor plan: {:?}", other),
    }
}

#[test]
fn resize_without_a_map_on_show_is_skipped_and_reported() {
    let mut app = Controller::new();
    app.set_next_state(AppState::Playback);
    app.update(&quiet(SQUARE));
    assert_eq!(app.state(), AppState::Playback);
    let output = app.update(&resizing(1024, 2048));
    assert_eq!(output.skipped, vec![QuerySingleError::NoEntities]);
    let output = app.update(&quiet(SQUARE));
    assert!(output.skipped.is_empty());
}

#[test]
fn resize_with_two_maps_on_show_is_skipped_and_reported() {
    let mut app = Controller::new();
    app.update(&pressing(&[DUST2_BUTTON, TRAIN_BUTTON], SQUARE));
    let output = app.update(&resizing(1024, 2048));
    assert_eq!(output.skipped, vec![QuerySingleError::MultipleEntities]);
    assert_eq!(app.scene().get(14), Some(&visual(13, "maps/de_dust2_radar.png", 1024)));
}

#[test]
fn resize_in_the_menu_is_no_fault() {
    let mut app = Controller::new();
    let output = app.update(&resizing(1024, 2048));
    assert!(output.skipped.is_empty());
}

#[test]
fn leaving_playback_removes_all_of_it_and_brings_the_menu_back() {
    let mut app = in_playback();
    app.update(&pointing(-150, 0));
    assert_eq!(app.mouse_state().over_entity, Some(16));
    app.set_next_state(AppState::MainMenu);
    let output = app.update(&quiet(SQUARE));
    assert!(output.skipped.is_empty());
    assert_eq!(app.state(), AppState::MainMenu);
    assert_eq!(app.mouse_state().over_entity, None);
    // nothing of the playback is left, and the menu is new
    assert_eq!(live(&app), (18..31).collect::<Vec<usize>>());
    assert_eq!(app.scene().single(Kind::MenuRoot), Ok(18));
    assert_eq!(app.scene().query(Kind::Button).len(), 6);
    assert_eq!(app.scene().query(Kind::Ragdoll), Vec::<usize>::new());
    assert_eq!(app.scene().query(Kind::Border), Vec::<usize>::new());
    assert_eq!(app.scene().query(Kind::FloorPlant), Vec::<usize>::new());
}

#[test]
fn entering_playback_again_shows_the_map_as_before() {
    let viewport = Viewport { width: 1280, height: 768 };
    let mut app = Controller::new();
    app.update(&pressing(&[DUST2_BUTTON], viewport));
    let first = app.scene().get(14).unwrap().item.clone();

    app.set_next_state(AppState::MainMenu);
    app.update(&quiet(viewport));
    // the new menu has its Dust2 button two slots behind its container
    let root = app.scene().single(Kind::MenuRoot).unwrap();
    app.update(&pressing(&[root + DUST2_BUTTON], viewport));
    assert_eq!(app.state(), AppState::Playback);

    let visuals = app.scene().query(Kind::FloorPlant);
    assert_eq!(visuals.len(), 1);
    let again = app.scene().get(visuals[0]).unwrap().item.clone();
    assert_eq!(again, first);
    assert_eq!(
        again,
        Item::FloorPlant {
            texture: String::from("maps/de_dust2_radar.png"),
            position: ScenePoint { x: 0, y: 0 },
            scale: Scale { x: 768, y: 768 },
        }
    );
}
