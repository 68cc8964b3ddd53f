use mud_core::dice::Dice;
use mud_core::location::{Location, LocationTypeCode};
use mud_core::map::WorldMap;

#[test]
fn new_map() {
    let mut map = WorldMap::new();
    let mut location = map.fetch(0, 0);
    assert_eq!(location.x, 0);
    assert_eq!(location.x, 0);
    match location.location_type {
        LocationTypeCode::Town => assert!(true),
        _ => assert!(false),
    }
    location.location_type = LocationTypeCode::Forest;
    map.replace(location);
    location = map.fetch(0, 0);
    match location.location_type {
        LocationTypeCode::Forest => assert!(true),
        _ => assert!(false),
    }
}

#[test]
fn random_walk_map() {
    let die = Dice { number: 1, die: 4 };
    let mut x = 0;
    let mut y = 0;
    let mut map = WorldMap::new();
    for _ in 0..1000 {
        let direction = match die.roll() {
            1 => (0, 1),
            2 => (0, -1),
            3 => (1, 0),
            _ => (-1, 0),
        };
        x += direction.0;
        y += direction.1;
        let location = map.fetch(x, y);
        map.replace(location);
    }
    let drawn = map.draw_map();
    assert!(drawn.contains('T') || x.abs() + y.abs() > 0);
    assert!(drawn.ends_with('\n'));
    assert!(map.number_of_locations() >= 2);
}

#[test]
fn a_new_map_is_the_town() {
    let map = WorldMap::new();
    assert_eq!(map.number_of_locations(), 1);
    assert_eq!(map.get_location_type(0, 0), LocationTypeCode::Town);
    assert_eq!(map.get_location_type(0, 1), LocationTypeCode::Unexplored);
    assert_eq!(map.get_location_description(0, 0), "Town of Midgaard");
    assert_eq!(map.get_location_description(5, 5), "Unexplored");
    assert!(!map.is_mobile_at_location(0, 0));
    assert_eq!(map.draw_map(), "T\n");
}

#[test]
fn the_map_is_drawn_row_by_row() {
    let mut map = WorldMap::new();
    map.replace(Box::new(Location::new(1, 0, LocationTypeCode::Forest, "f".to_string())));
    map.replace(Box::new(Location::new(2, 1, LocationTypeCode::DeepWoods, "d".to_string())));
    map.replace(Box::new(Location::new(0, 2, LocationTypeCode::Hills, "h".to_string())));
    assert_eq!(map.draw_map(), "T- \n  *\n^  \n");
    map.replace(Box::new(Location::new(-1, -1, LocationTypeCode::Forest, "f".to_string())));
    assert_eq!(map.draw_map(), "-   \n T- \n   *\n ^  \n");
}

#[test]
fn near_the_origin_all_is_forest() {
    let mut map = WorldMap::new();
    for (x, y) in [(1, 0), (0, -1), (1, 1), (-2, 0)] {
        let location = map.make_new_location(x, y);
        assert_eq!(location.location_type, LocationTypeCode::Forest);
        assert_eq!((location.x, location.y), (x, y));
    }
    let far = map.fetch(100, 100);
    assert!(matches!(far.location_type, LocationTypeCode::Hills | LocationTypeCode::DeepWoods));
    assert_eq!(map.number_of_locations(), 1);
    map.replace(far);
    assert_eq!(map.number_of_locations(), 2);
}

#[test]
fn the_kind_of_a_new_location() {
    assert_eq!(WorldMap::pick_location_type(2, 1, 1, 0, 0), LocationTypeCode::Forest);
    assert_eq!(WorldMap::pick_location_type(5, 6, 1, 0, 0), LocationTypeCode::Forest);
    assert_eq!(WorldMap::pick_location_type(5, 5, 2, 2, 0), LocationTypeCode::Hills);
    assert_eq!(WorldMap::pick_location_type(5, 5, 3, 2, 1), LocationTypeCode::DeepWoods);
    assert_eq!(WorldMap::pick_location_type(5, 5, 4, 2, 1), LocationTypeCode::DeepWoods);
    assert_eq!(WorldMap::pick_location_type(5, 5, 5, 2, 1), LocationTypeCode::Hills);
    assert_eq!(WorldMap::pick_location_type(9, 8, 7, 0, 0), LocationTypeCode::Hills);
    let made = WorldMap::generate(4, 4, LocationTypeCode::DeepWoods);
    assert_eq!((made.x, made.y), (4, 4));
}

#[test]
fn neighbours_are_counted_by_kind() {
    let mut map = WorldMap::new();
    map.replace(Box::new(Location::new(1, 0, LocationTypeCode::Hills, "h".to_string())));
    map.replace(Box::new(Location::new(1, 1, LocationTypeCode::Hills, "h".to_string())));
    map.replace(Box::new(Location::new(3, 3, LocationTypeCode::Hills, "h".to_string())));
    assert_eq!(map.count_adjacent(0, 0, LocationTypeCode::Hills), 2);
    assert_eq!(map.count_adjacent(1, 1, LocationTypeCode::Hills), 1);
    assert_eq!(map.count_adjacent(1, 1, LocationTypeCode::Town), 1);
    assert_eq!(map.count_adjacent(0, 0, LocationTypeCode::Town), 0);
    assert_eq!(map.count_adjacent(32767, -32768, LocationTypeCode::Unexplored), 8);
}
