//! The maps that can be shown, and where their floor plans are kept.

use vstd::prelude::*;
use vstd::string::*;

verus! {

/// The number of maps in the catalog.
pub const MAP_COUNT: usize = 6;

/// The resource that holds the floor plan of a map, by its path.
#[derive(Clone, Debug, PartialEq, Eq)]
pub struct FloorPlant(pub String);

/// A map of the catalog: its name, by which it is selected, and its floor
/// plan.
#[derive(Clone, Debug, PartialEq, Eq)]
pub struct MapEntry {
    pub name: String,
    pub floor_plant: FloorPlant,
}

/// The lowercase equivalent of a text, as the standard library gives it.
pub uninterp spec fn lowercase(text: Seq<char>) -> Seq<char>;

/// `str::to_lowercase` of the standard library. The contract gives the
/// result a name and claims no more of it than that equal texts have equal
/// lowercase equivalents.
#[verifier::external_body]
fn to_lowercase(text: &str) -> (lowered: String)
    ensures
        lowered@ == lowercase(text@),
{
    text.to_lowercase()
}

/// The path of the floor plan of the map whose name, in lowercase, is
/// `lowered`.
pub open spec fn radar_path(lowered: Seq<char>) -> Seq<char> {
    "maps/de_"@ + lowered + "_radar.png"@
}

/// The names of the maps of the catalog, in the catalog's order.
pub open spec fn catalog_names() -> Seq<Seq<char>> {
    seq!["Cache"@, "Dust2"@, "Inferno"@, "Mirage"@, "Overpass"@, "Train"@]
}

/// The maps are those of the catalog, each with the floor plan that belongs
/// to its name.
pub open spec fn is_catalog(maps: Seq<MapEntry>) -> bool {
    &&& maps.len() == MAP_COUNT
    &&& forall|i: int|
        0 <= i < maps.len() ==> (#[trigger] maps[i]).name@ == catalog_names()[i]
            && maps[i].floor_plant.0@ == radar_path(lowercase(maps[i].name@))
}

/// The place of the first map of the given name among the maps from `from`
/// on.
pub open spec fn find_map_from(maps: Seq<MapEntry>, name: Seq<char>, from: int) -> Option<usize>
    decreases maps.len() - from,
{
    if from < 0 || from >= maps.len() {
        None
    } else if maps[from].name@ == name {
        Some(from as usize)
    } else {
        find_map_from(maps, name, from + 1)
    }
}

/// The place of the first map of the given name.
pub open spec fn find_map(maps: Seq<MapEntry>, name: Seq<char>) -> Option<usize> {
    find_map_from(maps, name, 0)
}

/// The path of the floor plan of the map whose name, in lowercase, is
/// `lowered`.
pub fn radar_path_of(lowered: &str) -> (path: String)
    ensures
        path@ == radar_path(lowered@),
{
    let mut path = String::from_str("maps/de_");
    path.append(lowered);
    path.append("_radar.png");
    path
}

/// The path of the floor plan of the map of the given name.
pub fn floor_plant_path(name: &str) -> (path: String)
    ensures
        path@ == radar_path(lowercase(name@)),
{
    let lowered = to_lowercase(name);
    radar_path_of(lowered.as_str())
}

/// The keeper of the map catalog.
pub struct MapPlugin;

impl MapPlugin {
    /// The entry of the map of the given name.
    pub fn entry(name: &str) -> (entry: MapEntry)
        ensures
            entry.name@ == name@,
            entry.floor_plant.0@ == radar_path(lowercase(name@)),
    {
        MapEntry { name: String::from_str(name), floor_plant: FloorPlant(floor_plant_path(name)) }
    }

    /// The catalog: the six maps, each with its floor plan.
    pub fn setup() -> (maps: Vec<MapEntry>)
        ensures
            is_catalog(maps@),
    {
        let mut maps: Vec<MapEntry> = Vec::new();
        maps.push(Self::entry("Cache"));
        maps.push(Self::entry("Dust2"));
        maps.push(Self::entry("Inferno"));
        maps.push(Self::entry("Mirage"));
        maps.push(Self::entry("Overpass"));
        maps.push(Self::entry("Train"));
        maps
    }

    /// The place of the first map of the given name in `maps`.
    pub fn find(maps: &Vec<MapEntry>, name: &String) -> (found: Option<usize>)
        ensures
            found == find_map(maps@, name@),
            found is Some ==> found.unwrap() < maps.len() && maps[found.unwrap() as int].name@
                == name@,
    {
        let mut i: usize = 0;
        while i < maps.len()
            invariant
                i <= maps.len(),
                find_map(maps@, name@) == find_map_from(maps@, name@, i as int),
            decreases maps.len() - i,
        {
            if maps[i].name == *name {
                return Some(i);
            }
            i += 1;
        }
        None
    }
}

/// No two maps of the catalog have the same name.
pub proof fn lemma_catalog_names_differ(maps: Seq<MapEntry>)
    requires
        is_catalog(maps),
    ensures
        forall|i: int, j: int|
            0 <= i < j < maps.len() ==> (#[trigger] maps[i]).name@ != (#[trigger] maps[j]).name@,
{
    reveal_strlit("Cache");
    reveal_strlit("Dust2");
    reveal_strlit("Inferno");
    reveal_strlit("Mirage");
    reveal_strlit("Overpass");
    reveal_strlit("Train");
    let names = catalog_names();
    assert(names[0][0] == 'C');
    assert(names[1][0] == 'D');
    assert(names[2][0] == 'I');
    assert(names[3][0] == 'M');
    assert(names[4][0] == 'O');
    assert(names[5][0] == 'T');
    assert forall|i: int, j: int| 0 <= i < j < maps.len() implies (#[trigger] maps[i]).name@
        != (#[trigger] maps[j]).name@ by {
        assert(maps[i].name@ == names[i]);
        assert(maps[j].name@ == names[j]);
        assert(names[i][0] != names[j][0]);
    }
}

} // verus!
