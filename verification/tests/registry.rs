use scene_controller::scene::{skip_all, Item, Kind, Node, QuerySingleError, Scene};
use scene_controller::ui::ButtonColor;

fn text(s: &str) -> Item {
    Item::Text { text: String::from(s) }
}

/// A registry with two playback trees and a lone panel:
/// 0 root, 1 panel under 0, 2 text under 1, 3 panel without parent, 4 text under 0.
fn small_forest() -> Scene {
    let mut scene = Scene::new();
    let root = scene.spawn(None, Item::PlaybackRoot);
    let panel = scene.spawn(Some(root), Item::Panel);
    scene.spawn(Some(panel), text("deep"));
    scene.spawn(None, Item::Panel);
    scene.spawn(Some(root), text("shallow"));
    scene
}

fn live(scene: &Scene) -> Vec<usize> {
    (0..scene.len()).filter(|e| scene.get(*e).is_some()).collect()
}

#[test]
fn new_registry_is_empty() {
    let scene = Scene::new();
    assert_eq!(scene.len(), 0);
    assert!(scene.get(0).is_none());
    assert_eq!(scene.query(Kind::Panel), Vec::<usize>::new());
}

#[test]
fn spawn_hands_out_the_slots_in_order() {
    let mut scene = Scene::new();
    assert_eq!(scene.spawn(None, Item::MenuRoot), 0);
    assert_eq!(scene.spawn(Some(0), text("a")), 1);
    assert_eq!(scene.spawn(Some(1), Item::Panel), 2);
    assert_eq!(scene.len(), 3);
    assert_eq!(scene.get(1), Some(&Node { parent: Some(0), item: text("a") }));
    assert_eq!(scene.get(2), Some(&Node { parent: Some(1), item: Item::Panel }));
    assert_eq!(scene.get(3), None);
}

#[test]
fn slots_are_not_handed_out_twice() {
    let mut scene = Scene::new();
    let first = scene.spawn(None, Item::Panel);
    scene.despawn_recursive(first);
    let second = scene.spawn(None, Item::Panel);
    assert_eq!(first, 0);
    assert_eq!(second, 1);
    assert!(scene.get(first).is_none());
    assert!(scene.get(second).is_some());
}

#[test]
fn despawn_takes_the_root_and_all_below_it() {
    let mut scene = small_forest();
    scene.despawn_recursive(0);
    assert_eq!(live(&scene), vec![3]);
    assert_eq!(scene.len(), 5);
}

#[test]
fn despawn_of_a_branch_spares_the_rest() {
    let mut scene = small_forest();
    scene.despawn_recursive(1);
    assert_eq!(live(&scene), vec![0, 3, 4]);
    assert_eq!(scene.get(4), Some(&Node { parent: Some(0), item: text("shallow") }));
}

#[test]
fn despawn_of_a_leaf_takes_only_the_leaf() {
    let mut scene = small_forest();
    scene.despawn_recursive(2);
    assert_eq!(live(&scene), vec![0, 1, 3, 4]);
}

#[test]
fn despawn_of_what_does_not_exist_changes_nothing() {
    let mut scene = small_forest();
    scene.despawn_recursive(17);
    assert_eq!(live(&scene), vec![0, 1, 2, 3, 4]);
    scene.despawn_recursive(3);
    scene.despawn_recursive(3);
    assert_eq!(live(&scene), vec![0, 1, 2, 4]);
    assert_eq!(scene.get(2), Some(&Node { parent: Some(1), item: text("deep") }));
}

#[test]
fn despawn_all_takes_every_tree() {
    let mut scene = small_forest();
    scene.despawn_all(&vec![3, 1, 1, 40]);
    assert_eq!(live(&scene), vec![0, 4]);
    scene.despawn_all(&Vec::new());
    assert_eq!(live(&scene), vec![0, 4]);
}

#[test]
fn despawn_root_takes_the_one_root_of_the_kind() {
    let mut scene = small_forest();
    assert_eq!(scene.despawn_root(Kind::PlaybackRoot), Ok(0));
    assert_eq!(live(&scene), vec![3]);
}

#[test]
fn despawn_root_without_a_root_changes_nothing() {
    let mut scene = small_forest();
    assert_eq!(scene.despawn_root(Kind::MenuRoot), Err(QuerySingleError::NoEntities));
    assert_eq!(live(&scene), vec![0, 1, 2, 3, 4]);
    assert_eq!(scene.despawn_root(Kind::PlaybackRoot), Ok(0));
    assert_eq!(scene.despawn_root(Kind::PlaybackRoot), Err(QuerySingleError::NoEntities));
    assert_eq!(live(&scene), vec![3]);
}

#[test]
fn despawn_root_with_two_roots_changes_nothing() {
    let mut scene = small_forest();
    scene.spawn(None, Item::PlaybackRoot);
    assert_eq!(scene.despawn_root(Kind::PlaybackRoot), Err(QuerySingleError::MultipleEntities));
    assert_eq!(live(&scene), vec![0, 1, 2, 3, 4, 5]);
}

#[test]
fn single_finds_the_only_one() {
    let scene = small_forest();
    assert_eq!(scene.single(Kind::PlaybackRoot), Ok(0));
    assert_eq!(scene.single(Kind::Panel), Err(QuerySingleError::MultipleEntities));
    assert_eq!(scene.single(Kind::Ragdoll), Err(QuerySingleError::NoEntities));
    assert_eq!(Scene::new().single(Kind::Panel), Err(QuerySingleError::NoEntities));
}

#[test]
fn single_does_not_count_what_is_gone() {
    let mut scene = small_forest();
    scene.despawn_recursive(1);
    assert_eq!(scene.single(Kind::Panel), Ok(3));
    assert_eq!(scene.single(Kind::Text), Ok(4));
}

#[test]
fn query_lists_a_kind_in_the_order_of_spawning() {
    let mut scene = small_forest();
    assert_eq!(scene.query(Kind::Text), vec![2, 4]);
    assert_eq!(scene.query(Kind::Panel), vec![1, 3]);
    assert_eq!(scene.query(Kind::Border), Vec::<usize>::new());
    scene.despawn_recursive(2);
    assert_eq!(scene.query(Kind::Text), vec![4]);
}

#[test]
fn first_child_is_the_first_of_its_kind_under_the_parent() {
    let mut scene = small_forest();
    scene.spawn(Some(0), text("later"));
    assert_eq!(scene.first_child(0, Kind::Text), Some(4));
    assert_eq!(scene.first_child(1, Kind::Text), Some(2));
    assert_eq!(scene.first_child(0, Kind::Panel), Some(1));
    assert_eq!(scene.first_child(3, Kind::Text), None);
    assert_eq!(scene.first_child(0, Kind::Border), None);
    assert_eq!(scene.first_child(99, Kind::Text), None);
}

#[test]
fn set_item_keeps_the_parent() {
    let mut scene = small_forest();
    scene.set_item(2, Item::Button { name: String::from("b"), color: ButtonColor::Hovered });
    assert_eq!(
        scene.get(2),
        Some(&Node {
            parent: Some(1),
            item: Item::Button { name: String::from("b"), color: ButtonColor::Hovered },
        })
    );
    assert_eq!(live(&scene), vec![0, 1, 2, 3, 4]);
}

#[test]
fn set_item_on_what_does_not_exist_changes_nothing() {
    let mut scene = small_forest();
    scene.despawn_recursive(3);
    scene.set_item(3, Item::Panel);
    scene.set_item(12, Item::Panel);
    assert_eq!(live(&scene), vec![0, 1, 2, 4]);
    assert_eq!(scene.len(), 5);
}

#[test]
fn kinds_of_items() {
    assert_eq!(Item::MenuRoot.kind(), Kind::MenuRoot);
    assert_eq!(Item::PlaybackRoot.kind(), Kind::PlaybackRoot);
    assert_eq!(Item::Panel.kind(), Kind::Panel);
    assert_eq!(text("x").kind(), Kind::Text);
    assert_eq!(Item::Border { painted: true }.kind(), Kind::Border);
    assert_eq!(
        Item::Button { name: String::new(), color: ButtonColor::Normal }.kind(),
        Kind::Button
    );
}

#[test]
fn faults_are_told_in_words() {
    assert_eq!(QuerySingleError::NoEntities.message(), "Error: There is no root_node_entity!");
    assert_eq!(
        QuerySingleError::MultipleEntities.message(),
        "Error: There is more than one root_node_entity!"
    );
}

#[test]
fn skip_all_reports_once_for_each_event() {
    assert_eq!(skip_all(QuerySingleError::NoEntities, 0), Vec::new());
    assert_eq!(
        skip_all(QuerySingleError::MultipleEntities, 3),
        vec![QuerySingleError::MultipleEntities; 3]
    );
}
