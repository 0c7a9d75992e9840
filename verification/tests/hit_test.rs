use scene_controller::mouse::ScenePoint;
use scene_controller::ragdoll::{hits, same_entity, test_hover, HoverableEntity};

fn token(entity: usize, x: i32, y: i32, radius: u32) -> HoverableEntity {
    HoverableEntity { entity, position: ScenePoint { x, y }, radius, border: None }
}

#[test]
fn pointer_at_exactly_the_radius_is_a_hit() {
    let center = ScenePoint { x: 10, y: -4 };
    assert!(hits(ScenePoint { x: 17, y: -4 }, center, 7));
    assert!(hits(ScenePoint { x: 10, y: 3 }, center, 7));
    assert!(hits(ScenePoint { x: 3, y: -4 }, center, 7));
    // 3-4-5 triangle: the distance is exactly 5
    assert!(hits(ScenePoint { x: 13, y: 0 }, center, 5));
    let candidates = vec![token(9, 10, -4, 7)];
    assert_eq!(test_hover(ScenePoint { x: 17, y: -4 }, &candidates), Some(9));
}

#[test]
fn pointer_just_beyond_the_radius_is_no_hit() {
    let center = ScenePoint { x: 10, y: -4 };
    assert!(!hits(ScenePoint { x: 18, y: -4 }, center, 7));
    assert!(!hits(ScenePoint { x: 13, y: 1 }, center, 5));
    // dx = dy = 5: the distance is about 7.07
    assert!(!hits(ScenePoint { x: 15, y: 1 }, center, 7));
    let candidates = vec![token(9, 10, -4, 7)];
    assert_eq!(test_hover(ScenePoint { x: 18, y: -4 }, &candidates), None);
}

#[test]
fn radius_zero_is_hit_only_at_the_center() {
    let center = ScenePoint { x: 2, y: 2 };
    assert!(hits(center, center, 0));
    assert!(!hits(ScenePoint { x: 2, y: 3 }, center, 0));
}

#[test]
fn hit_test_does_not_overflow_at_the_ends_of_the_scene() {
    let low = ScenePoint { x: i32::MIN, y: i32::MIN };
    let high = ScenePoint { x: i32::MAX, y: i32::MAX };
    assert!(!hits(low, high, u32::MAX));
    assert!(hits(low, ScenePoint { x: i32::MAX, y: i32::MIN }, u32::MAX));
    assert!(hits(high, high, 0));
}

#[test]
fn first_candidate_wins_over_the_nearer_one() {
    let far = token(3, 6, 0, 7);
    let near = token(5, 1, 0, 7);
    let pointer = ScenePoint { x: 0, y: 0 };
    assert_eq!(test_hover(pointer, &vec![far, near]), Some(3));
    assert_eq!(test_hover(pointer, &vec![near, far]), Some(5));
}

#[test]
fn candidates_that_are_missed_are_passed_over() {
    let missed = token(1, 100, 100, 7);
    let hit = token(2, 0, 0, 7);
    let pointer = ScenePoint { x: 1, y: 1 };
    assert_eq!(test_hover(pointer, &vec![missed, hit, missed]), Some(2));
    assert_eq!(test_hover(pointer, &vec![missed, missed]), None);
}

#[test]
fn no_candidates_no_hover() {
    assert_eq!(test_hover(ScenePoint { x: 0, y: 0 }, &Vec::new()), None);
}

#[test]
fn same_entity_compares_both_sides() {
    assert!(same_entity(None, None));
    assert!(same_entity(Some(4), Some(4)));
    assert!(!same_entity(Some(4), Some(5)));
    assert!(!same_entity(Some(4), None));
    assert!(!same_entity(None, Some(0)));
}
