use mud_core::items::Item;
use mud_core::location::LocationTypeCode;
use mud_core::mobile::Mobile;
use mud_core::world::WorldState;

#[test]
fn a_new_world_is_the_empty_town() {
    let mut world = WorldState::new();
    assert_eq!(world.population(), 0);
    assert_eq!(world.area(), 1);
    assert!(world.is_sparse());
    assert_eq!(world.get_location_type(0, 0), LocationTypeCode::Town);
    assert_eq!(world.get_location_type(9, 9), LocationTypeCode::Unexplored);
    assert!(!world.mobile_exists_at(0, 0));
    assert_eq!(world.get_location_description(0, 0), "Town of Midgaard");
    assert!(world.take_killed().is_empty());
}

#[test]
fn checkouts_conserve_the_mobiles() {
    let mut world = WorldState::new();
    let mut ids = Vec::new();
    for _ in 0..5 {
        let rabbit = Mobile::rabbit();
        ids.push(rabbit.get_id());
        world.add_mobile(rabbit, 0, 0);
    }
    assert_eq!(world.population(), 5);
    let held = world.fetch_mobile(ids[2]).unwrap();
    assert_eq!(world.population(), 4);
    assert!(!world.mobile_active(ids[2]));
    assert!(world.fetch_mobile(ids[2]).is_none());
    assert_eq!(world.find_mobile_location(ids[2]), None);
    world.add_mobile(held, 1, 0);
    assert_eq!(world.population(), 5);
    assert_eq!(world.find_mobile_location(ids[2]), Some((1, 0)));
    assert_eq!(world.find_mobile_location(ids[0]), Some((0, 0)));
    assert!(world.mobile_exists_at(1, 0));
    assert_eq!(world.area(), 2);
    for id in &ids {
        let m = world.fetch_mobile(*id).unwrap();
        let at = if *id == ids[2] { (1, 0) } else { (0, 0) };
        world.add_mobile(m, at.0, at.1);
    }
    assert_eq!(world.population(), 5);
    assert!(world.fetch_mobile(12345).is_none());
    assert_eq!(world.population(), 5);
}

#[test]
fn fetching_by_name_or_at_random_checks_out() {
    let mut world = WorldState::new();
    let goblin = Mobile::goblin();
    let id = goblin.get_id();
    world.add_mobile(goblin, 0, 0);
    assert_eq!(world.get_mobile_id_by_name(0, 0, &"GOB".to_string()), Some(id));
    assert_eq!(world.get_mobile_id_by_name(0, 0, &"rabbit".to_string()), None);
    assert!(world.mobile_active(id));
    let fetched = world.fetch_mobile_by_name(0, 0, &"goblin".to_string()).unwrap();
    assert!(!world.mobile_active(id));
    assert_eq!(world.population(), 0);
    world.add_mobile(fetched, 0, 0);
    let picked = world.fetch_mobile_at_random(0, 0).unwrap();
    assert_eq!(picked.get_id(), id);
    assert!(!world.mobile_active(id));
    assert!(world.fetch_mobile_at_random(0, 0).is_none());
    world.add_mobile(picked, 0, 0);
    assert!(world.mobile_active(id));
}

#[test]
fn the_stash_keeps_those_who_are_away() {
    let mut world = WorldState::new();
    let jim = Mobile::new_character(&"Jim".to_string());
    let id = jim.get_id();
    world.add_mobile(jim, 0, 1);
    assert!(!world.is_stashed(id));
    world.stash_mobile(id);
    assert!(world.is_stashed(id));
    assert!(!world.mobile_active(id));
    assert_eq!(world.population(), 0);
    assert!(world.mobile_exists(id));
    assert!(world.mobile_active(id));
    assert!(!world.is_stashed(id));
    assert_eq!(world.find_mobile_location(id), Some((0, 1)));
    assert!(world.mobile_exists(id));
    assert!(!world.mobile_exists(id + 1));
}

#[test]
fn items_lie_where_they_are_put() {
    let mut world = WorldState::new();
    world.add_item(2, 2, Item::sword());
    assert_eq!(world.area(), 2);
    assert!(world.fetch_item_by_name(0, 0, &"sword".to_string()).is_none());
    let sword = world.fetch_item_by_name(2, 2, &"SWORD".to_string()).unwrap();
    assert_eq!(sword.name, "sword");
    assert!(world.fetch_item_by_name(2, 2, &"sword".to_string()).is_none());
    world.add_item(0, 0, sword);
    assert_eq!(world.fetch_item_at_random(0, 0).unwrap().name, "sword");
    assert!(world.fetch_item_at_random(0, 0).is_none());
}

#[test]
fn a_corpse_is_put_down_with_the_loot() {
    let mut world = WorldState::new();
    let mut rabbit = Mobile::rabbit();
    world.add_corpse(&mut rabbit, 0, 0);
    assert!(rabbit.inventory.is_empty());
    assert_eq!(
        world.get_location_description(0, 0),
        "Town of Midgaard\nA dead rabbit is here.\nA soft rabbits foot is here."
    );
    world.record_killed("rabbit".to_string());
    assert_eq!(world.take_killed(), vec!["rabbit".to_string()]);
    assert!(world.take_killed().is_empty());
}

#[test]
fn a_world_is_sparse_below_one_in_four() {
    let mut world = WorldState::new();
    for x in 1..4 {
        world.add_item(x, 0, Item::rawhide());
    }
    assert_eq!(world.area(), 4);
    assert!(world.is_sparse());
    world.add_mobile(Mobile::rabbit(), 0, 0);
    assert!(!world.is_sparse());
    world.add_item(4, 0, Item::rawhide());
    assert!(world.is_sparse());
}
