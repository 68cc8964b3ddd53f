use mud_core::items::Item;
use mud_core::location::{Location, LocationTypeCode};
use mud_core::message::MessageList;
use mud_core::mobile::Mobile;
use mud_core::object::Object;

#[test]
fn fetch_mobile_by_name() {
    let mut location = Location::new(0, 0, LocationTypeCode::Forest, "Forest".to_string());
    let rabbit1 = Mobile::rabbit();
    let rabbit2 = Mobile::rabbit();
    let rabbit3 = Mobile::rabbit();
    location.add_mobile(rabbit1);
    location.add_mobile(rabbit2);
    location.add_mobile(rabbit3);
    let fetched = location.fetch_mobile_by_name(&"rabbit".to_string());
    assert!(fetched.is_some());
    location.add_mobile(fetched.unwrap());
    let fetched = location.fetch_mobile_by_name(&"rabbit.0".to_string());
    assert!(fetched.is_some());
    location.add_mobile(fetched.unwrap());
    let fetched = location.fetch_mobile_by_name(&"rabbit.1".to_string());
    assert!(fetched.is_some());
    location.add_mobile(fetched.unwrap());
}

#[test]
fn fetch_at_random_test() {
    let mut location = Location::new(0, 0, LocationTypeCode::Forest, "Forest".to_string());
    let rabbit = Mobile::rabbit();
    let empty = location.fetch_mobile_at_random();
    assert!(empty.is_none());
    assert!(location.has_mobiles() == false);
    location.add_mobile(rabbit);
    assert!(location.has_mobiles() == true);
    let not_empty = location.fetch_mobile_at_random();
    assert!(not_empty.is_some());
}

#[test]
fn add_and_fetch_test() {
    let mut location = Location::new(0, 0, LocationTypeCode::Forest, "Forest".to_string());
    let foot = Item::rabbit_foot();
    location.add_item(foot);
    let found_item = location.fetch_item_by_name(&"foot".to_string());
    assert!(found_item.is_some());
    let found_again = location.fetch_item_by_name(&"foot".to_string());
    assert!(found_again.is_none());
}

#[test]
fn add_corpse() {
    let mut location = Location::new(0, 0, LocationTypeCode::Forest, "Forest".to_string());
    let mut rabbit = Mobile::rabbit();
    location.add_corpse(&mut rabbit);
    let found_item = location.fetch_item_by_name(&"foot".to_string());
    assert!(found_item.is_some());
}

#[test]
fn keys_are_split_into_name_and_number() {
    assert_eq!(Location::parse_name(&"rabbit.1".to_string()), ("rabbit".to_string(), 1));
    assert_eq!(Location::parse_name(&"rabbit".to_string()), ("rabbit".to_string(), 0));
    assert_eq!(Location::parse_name(&"".to_string()), ("".to_string(), 0));
    assert_eq!(Location::parse_name(&"rabbit.".to_string()), ("rabbit".to_string(), 0));
    assert_eq!(Location::parse_name(&"rabbit.x".to_string()), ("rabbit".to_string(), 0));
    assert_eq!(Location::parse_name(&"rabbit.12.7".to_string()), ("rabbit".to_string(), 12));
    assert_eq!(Location::parse_name(&"rabbit.+3".to_string()), ("rabbit".to_string(), 3));
    assert_eq!(Location::parse_name(&"rabbit.-3".to_string()), ("rabbit".to_string(), 0));
    assert_eq!(Location::parse_name(&"rabbit.+".to_string()), ("rabbit".to_string(), 0));
    assert_eq!(Location::parse_name(&"rabbit.007".to_string()), ("rabbit".to_string(), 7));
    assert_eq!(
        Location::parse_name(&"rabbit.99999999999999999999999999".to_string()),
        ("rabbit".to_string(), 0)
    );
    assert_eq!(Location::parse_name(&".5".to_string()), ("".to_string(), 5));
}

#[test]
fn names_match_whatever_the_case() {
    let mut location = Location::new(0, 0, LocationTypeCode::Town, "Town".to_string());
    location.add_mobile(Mobile::new(&"Lord Tom".to_string()));
    location.add_item(Item::rabbit_foot());
    assert!(location.fetch_mobile_by_name(&"LORD".to_string()).is_some());
    assert!(location.fetch_mobile_by_name(&"lord".to_string()).is_none());
    assert!(location.fetch_item_by_name(&"RaBBit".to_string()).is_some());
}

#[test]
fn the_number_picks_among_the_matches_by_identifier() {
    let mut location = Location::new(0, 0, LocationTypeCode::Town, "Town".to_string());
    let a = Mobile::rabbit();
    let b = Mobile::rabbit();
    let c = Mobile::goblin();
    let mut ids = vec![a.get_id(), b.get_id()];
    ids.sort();
    location.add_mobile(a);
    location.add_mobile(c);
    location.add_mobile(b);
    let second = location.fetch_mobile_by_name(&"rabbit.1".to_string()).unwrap();
    assert_eq!(second.get_id(), ids[1]);
    location.add_mobile(second);
    let first = location.fetch_mobile_by_name(&"rabbit.0".to_string()).unwrap();
    assert_eq!(first.get_id(), ids[0]);
    location.add_mobile(first);
    assert!(location.fetch_mobile_by_name(&"rabbit.2".to_string()).is_none());
    assert!(location.fetch_mobile_by_name(&"dragon".to_string()).is_none());
    assert!(location.fetch_mobile_by_guid(ids[0]).is_some());
    assert!(location.fetch_mobile_by_guid(ids[0]).is_none());
}

#[test]
fn the_number_picks_among_the_items_in_order() {
    let mut location = Location::new(0, 0, LocationTypeCode::Town, "Town".to_string());
    location.add_item(Item::sword());
    location.add_item(Item::uncut_precious_stone());
    location.add_item(Item::useless_rock());
    let second = location.fetch_item_by_name(&"stone.1".to_string()).unwrap();
    assert_eq!(second.effect, "This is a glinty bit of worthless rock.");
    let first = location.fetch_item_by_name(&"stone".to_string()).unwrap();
    assert!(first.xp_in_town_only);
    assert!(location.fetch_item_by_name(&"stone".to_string()).is_none());
}

#[test]
fn a_forest_has_its_debris() {
    let mut forest = Location::new(3, -4, LocationTypeCode::Forest, "Forest".to_string());
    assert_eq!(forest.x, 3);
    assert_eq!(forest.y, -4);
    assert!(forest.fetch_item_by_name(&"twigs".to_string()).is_some());
    let mut town = Location::new(0, 0, LocationTypeCode::Town, "Town".to_string());
    assert!(town.fetch_item_at_random().is_none());
    town.add_item(Item::axe());
    assert_eq!(town.fetch_item_at_random().unwrap().name, "axe");
}

#[test]
fn items_decay_when_their_time_is_up() {
    let mut location = Location::new(2, 5, LocationTypeCode::Town, "Town".to_string());
    let mut dying = Item::rawhide();
    dying.lifetime = 1;
    let mut young = Item::sword();
    young.lifetime = 2;
    let mut spent = Item::axe();
    spent.lifetime = 0;
    location.add_item(dying);
    location.add_item(young);
    location.add_item(spent);
    let mut messages = MessageList::new();
    location.age_all_items(&mut messages);
    assert!(location.fetch_item_by_name(&"rawhide".to_string()).is_none());
    assert!(location.fetch_item_by_name(&"axe".to_string()).is_none());
    let sword = location.fetch_item_by_name(&"sword".to_string()).unwrap();
    assert_eq!(sword.lifetime, 1);
    assert_eq!(
        messages.read(2, 5, 1, 0),
        "rawhide decays into dust\naxe decays into dust\n"
    );
    assert_eq!(messages.read(0, 0, 1, 0), "");
}

#[test]
fn mobiles_start_each_tick_afresh() {
    let mut location = Location::new(0, 0, LocationTypeCode::Town, "Town".to_string());
    let mut a = Mobile::new(&"a".to_string());
    a.actions_used = 5;
    a.damage = 3;
    a.constitution = 100;
    let id = a.get_id();
    location.add_mobile(a);
    location.age_all_mobiles();
    let a = location.fetch_mobile_by_guid(id).unwrap();
    assert_eq!(a.actions_used, 0);
    assert_eq!(a.damage, 2);
}

#[test]
fn a_corpse_leaves_everything_behind() {
    let mut location = Location::new(0, 0, LocationTypeCode::Town, "Town".to_string());
    let mut hunter = Mobile::head_hunter();
    location.add_corpse(&mut hunter);
    assert!(hunter.inventory.is_empty());
    assert_eq!(hunter.luck, 0);
    assert_eq!(hunter.wielded, "fist");
    assert_eq!(
        location.description(),
        "Town\nA dead head hunter is here.\nA finely made and sharp stone knife.\nA shrunken head discarded here fills you with misgivings."
    );
    assert_eq!(location.get_name(), "Town");
}

#[test]
fn a_location_describes_who_and_what_is_there() {
    let mut location = Location::new(0, 0, LocationTypeCode::Town, "Town".to_string());
    location.add_mobile(Mobile::rabbit());
    location.add_item(Item::sword());
    assert_eq!(
        location.complete_description(),
        "Town\nA rabbit watches you carefully.\nA sword is here."
    );
}
