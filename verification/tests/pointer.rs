use scene_controller::mouse::{
    map_pointer, MouseCoordinates, MousePlugin, PointerFacts, ScenePoint, Viewport, WindowPoint,
};

const VIEWPORT: Viewport = Viewport { width: 800, height: 600 };

fn facts(cursor: Option<WindowPoint>, projected: Option<ScenePoint>) -> PointerFacts {
    PointerFacts { cameras: 1, windows: 1, cursor, projected }
}

#[test]
fn pointer_on_the_viewport_maps_to_what_the_camera_says() {
    let projected = Some(ScenePoint { x: -390, y: 295 });
    assert_eq!(map_pointer(Some(WindowPoint { x: 10, y: 5 }), VIEWPORT, projected), projected);
    assert_eq!(map_pointer(Some(WindowPoint { x: 0, y: 0 }), VIEWPORT, projected), projected);
    assert_eq!(map_pointer(Some(WindowPoint { x: 799, y: 599 }), VIEWPORT, projected), projected);
}

#[test]
fn pointer_off_the_viewport_maps_to_nothing() {
    let projected = Some(ScenePoint { x: 1, y: 2 });
    assert_eq!(map_pointer(Some(WindowPoint { x: 800, y: 10 }), VIEWPORT, projected), None);
    assert_eq!(map_pointer(Some(WindowPoint { x: 10, y: 600 }), VIEWPORT, projected), None);
    assert_eq!(map_pointer(Some(WindowPoint { x: -1, y: 10 }), VIEWPORT, projected), None);
    assert_eq!(map_pointer(Some(WindowPoint { x: 10, y: -1 }), VIEWPORT, projected), None);
    let corner = WindowPoint { x: i32::MIN, y: i32::MAX };
    assert_eq!(map_pointer(Some(corner), VIEWPORT, projected), None);
}

#[test]
fn absent_pointer_maps_to_nothing() {
    assert_eq!(map_pointer(None, VIEWPORT, Some(ScenePoint { x: 1, y: 2 })), None);
}

#[test]
fn camera_without_answer_maps_to_nothing() {
    assert_eq!(map_pointer(Some(WindowPoint { x: 10, y: 5 }), VIEWPORT, None), None);
}

#[test]
fn empty_viewport_holds_no_pointer() {
    let empty = Viewport { width: 0, height: 0 };
    assert!(!empty.contains(WindowPoint { x: 0, y: 0 }));
    assert_eq!(
        map_pointer(Some(WindowPoint { x: 0, y: 0 }), empty, Some(ScenePoint { x: 0, y: 0 })),
        None
    );
}

#[test]
fn pointer_state_starts_unseen_at_the_origin() {
    let coordinates = MouseCoordinates::new();
    assert_eq!(coordinates.position, ScenePoint { x: 0, y: 0 });
    assert!(!coordinates.inside_viewport);
}

#[test]
fn pointer_state_is_unseen_by_default() {
    assert_eq!(MouseCoordinates::default(), MouseCoordinates::new());
}

#[test]
fn pointer_inside_is_recorded() {
    let mut coordinates = MouseCoordinates::new();
    let seen = facts(Some(WindowPoint { x: 400, y: 300 }), Some(ScenePoint { x: 0, y: 0 }));
    MousePlugin::cursor_position_to_world(&mut coordinates, &seen, VIEWPORT);
    assert_eq!(
        coordinates,
        MouseCoordinates { position: ScenePoint { x: 0, y: 0 }, inside_viewport: true }
    );
    let moved = facts(Some(WindowPoint { x: 410, y: 290 }), Some(ScenePoint { x: 10, y: 10 }));
    MousePlugin::cursor_position_to_world(&mut coordinates, &moved, VIEWPORT);
    assert_eq!(
        coordinates,
        MouseCoordinates { position: ScenePoint { x: 10, y: 10 }, inside_viewport: true }
    );
}

#[test]
fn pointer_outside_leaves_the_state_unchanged() {
    let mut coordinates = MouseCoordinates::new();
    let seen = facts(Some(WindowPoint { x: 400, y: 300 }), Some(ScenePoint { x: 7, y: -7 }));
    MousePlugin::cursor_position_to_world(&mut coordinates, &seen, VIEWPORT);
    let before = coordinates;

    let outside = facts(Some(WindowPoint { x: 900, y: 300 }), Some(ScenePoint { x: 500, y: 0 }));
    MousePlugin::cursor_position_to_world(&mut coordinates, &outside, VIEWPORT);
    assert_eq!(coordinates, before);

    let absent = facts(None, None);
    MousePlugin::cursor_position_to_world(&mut coordinates, &absent, VIEWPORT);
    assert_eq!(coordinates, before);
}

#[test]
fn pointer_outside_before_any_sighting_leaves_the_state_unseen() {
    let mut coordinates = MouseCoordinates::new();
    let outside = facts(Some(WindowPoint { x: -5, y: 3 }), Some(ScenePoint { x: 9, y: 9 }));
    MousePlugin::cursor_position_to_world(&mut coordinates, &outside, VIEWPORT);
    assert_eq!(coordinates, MouseCoordinates::new());
}

#[test]
fn configuration_is_in_order_with_one_camera_and_one_window() {
    assert!(facts(None, None).is_well_configured());
    for (cameras, windows) in [(0, 1), (2, 1), (1, 0), (1, 2), (0, 0)] {
        let facts = PointerFacts { cameras, windows, cursor: None, projected: None };
        assert!(!facts.is_well_configured());
    }
}
