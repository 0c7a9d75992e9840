use scene_controller::maps::{floor_plant_path, radar_path_of, MapPlugin, MAP_COUNT};

#[test]
fn catalog_holds_the_six_maps_in_order() {
    let maps = MapPlugin::setup();
    let names: Vec<&str> = maps.iter().map(|map| map.name.as_str()).collect();
    assert_eq!(names, vec!["Cache", "Dust2", "Inferno", "Mirage", "Overpass", "Train"]);
    assert_eq!(maps.len(), MAP_COUNT);
}

#[test]
fn every_map_has_its_radar_image() {
    let maps = MapPlugin::setup();
    let paths: Vec<&str> = maps.iter().map(|map| map.floor_plant.0.as_str()).collect();
    assert_eq!(
        paths,
        vec![
            "maps/de_cache_radar.png",
            "maps/de_dust2_radar.png",
            "maps/de_inferno_radar.png",
            "maps/de_mirage_radar.png",
            "maps/de_overpass_radar.png",
            "maps/de_train_radar.png",
        ]
    );
}

#[test]
fn radar_path_is_built_from_the_lowercase_name() {
    assert_eq!(floor_plant_path("Dust2"), "maps/de_dust2_radar.png");
    assert_eq!(floor_plant_path("NUKE"), "maps/de_nuke_radar.png");
    assert_eq!(floor_plant_path("vertigo"), "maps/de_vertigo_radar.png");
    assert_eq!(floor_plant_path(""), "maps/de__radar.png");
}

#[test]
fn radar_path_of_takes_the_name_as_it_is() {
    assert_eq!(radar_path_of("mirage"), "maps/de_mirage_radar.png");
    assert_eq!(radar_path_of("Mirage"), "maps/de_Mirage_radar.png");
}

#[test]
fn entry_keeps_the_name_as_it_was_given() {
    let entry = MapPlugin::entry("Overpass");
    assert_eq!(entry.name, "Overpass");
    assert_eq!(entry.floor_plant.0, "maps/de_overpass_radar.png");
}

#[test]
fn find_gives_the_place_of_a_map() {
    let maps = MapPlugin::setup();
    assert_eq!(MapPlugin::find(&maps, &String::from("Cache")), Some(0));
    assert_eq!(MapPlugin::find(&maps, &String::from("Mirage")), Some(3));
    assert_eq!(MapPlugin::find(&maps, &String::from("Train")), Some(5));
}

#[test]
fn find_knows_no_map_of_another_name() {
    let maps = MapPlugin::setup();
    assert_eq!(MapPlugin::find(&maps, &String::from("Nuke")), None);
    assert_eq!(MapPlugin::find(&maps, &String::from("dust2")), None);
    assert_eq!(MapPlugin::find(&maps, &String::from("")), None);
    assert_eq!(MapPlugin::find(&Vec::new(), &String::from("Dust2")), None);
}

#[test]
fn find_gives_the_first_of_two_maps_of_one_name() {
    let maps = vec![MapPlugin::entry("A"), MapPlugin::entry("B"), MapPlugin::entry("B")];
    assert_eq!(MapPlugin::find(&maps, &String::from("B")), Some(1));
}
