use mud_core::items::{Item, ItemCategoryCode, ItemTypeCode};
use mud_core::mobile::Mobile;
use mud_core::object::Object;

#[test]
fn add_rabbit_foot_test() {
    let foot = Item::rabbit_foot();
    let mut mobile = Mobile::new_character(&"Jim".to_string());
    let luck = mobile.luck;
    mobile.add_item(foot, true);
    assert_eq!(luck + 1, mobile.luck);
    let new_foot = mobile.fetch_item_by_position(0);
    assert_eq!(luck, mobile.luck);
    assert!(new_foot.is_some());
}

#[test]
fn eat_test() {
    let nuts = Item::healthy_nuts_and_seeds();
    let mut mobile = Mobile::new_character(&"Jim".to_string());
    let damage = mobile.damage;
    mobile.add_item(nuts, true);
    mobile.eat_item_by_name(&"nut".to_string());
    assert_eq!(damage - 1, mobile.damage);
    let new_nut = mobile.fetch_item_by_name(&"nut".to_string());
    assert!(new_nut.is_none());
}

#[test]
fn catalogue_values() {
    let mail = Item::chainmail();
    assert_eq!(mail.name, "chainmail");
    assert_eq!(mail.armor_value, 4);
    assert_eq!(mail.lifetime, 1000);
    assert_eq!(mail.xp_value, 2);
    assert_eq!(mail.category_code, ItemCategoryCode::Armor);
    let debris = Item::forest_debris();
    assert_eq!(debris.lifetime, u32::MAX);
    let gem = Item::uncut_precious_stone();
    assert!(gem.xp_in_town_only);
    assert_eq!(gem.xp_value, 10);
    assert_eq!(gem.frequency, 100);
    let basic = Item::basic_item(ItemTypeCode::Rawhide, ItemCategoryCode::Misc);
    assert_eq!(basic.frequency, 50);
    assert_eq!(basic.lifetime, 100);
    assert_eq!(basic.name, "");
}

#[test]
fn corpse_is_named_after_the_dead() {
    let corpse = Item::corpse("rabbit".to_string());
    assert_eq!(corpse.name, "rabbit corpse");
    assert_eq!(corpse.description, "A dead rabbit is here.");
    assert_eq!(corpse.frequency, 25);
}

#[test]
fn armor_describes_its_protection() {
    let armor = Item::leather_armor();
    assert_eq!(armor.complete_description(), "Will protect you from harm!. Protection is 3");
    let sword = Item::sword();
    assert_eq!(sword.complete_description(), "A sharp sword dealing 1d8 damage.");
    assert_eq!(sword.get_name(), "sword");
    assert_eq!(sword.description(), "A sword is here.");
}

#[test]
fn treasure_tables() {
    assert_eq!(Item::woodland_trinket_for(1).unwrap().name, "rabbit foot");
    assert_eq!(Item::woodland_trinket_for(2).unwrap().name, "healthy nuts & seeds");
    assert!(Item::woodland_trinket_for(3).is_none());
    assert!(Item::woodland_trinket_for(8).is_none());
    assert_eq!(Item::minor_treasure_for(2).unwrap().name, "golden bauble");
    assert_eq!(Item::minor_treasure_for(5).unwrap().name, "bone jewlery");
    assert_eq!(Item::minor_treasure_for(7).unwrap().name, "shrunken head");
    assert_eq!(Item::minor_treasure_for(9).unwrap().name, "dwarf's beard");
    assert!(Item::minor_treasure_for(10).unwrap().xp_in_town_only);
    assert!(!Item::minor_treasure_for(11).unwrap().xp_in_town_only);
    assert_eq!(Item::minor_treasure_for(12).unwrap().name, "potion");
    assert!(Item::minor_treasure_for(13).is_none());
    assert!(Item::minor_treasure_for(20).is_none());
}

#[test]
fn potion_heals_by_two_four_sided_dice() {
    let mut mobile = Mobile::new(&"Jim".to_string());
    mobile.damage = 9;
    let mut potion = Item::healing_potion();
    assert!(potion.eat(&mut mobile));
    assert!(mobile.damage <= 7);
    assert!(mobile.damage >= 1);
    let mut other = Mobile::new(&"Kim".to_string());
    other.damage = 9;
    assert!(Item::healing_potion().eat_with(&mut other, 5));
    assert_eq!(other.damage, 4);
}

#[test]
fn a_sword_cannot_be_eaten() {
    let mut mobile = Mobile::new(&"Jim".to_string());
    mobile.damage = 3;
    let mut sword = Item::sword();
    assert!(!sword.eat(&mut mobile));
    assert_eq!(mobile.damage, 3);
    mobile.add_item(sword, false);
    assert_eq!(mobile.eat_item_by_name(&"sword".to_string()), "You cannot eat that!");
    assert_eq!(mobile.inventory.len(), 1);
    assert_eq!(mobile.eat_item_by_name(&"bread".to_string()), "Eat what?");
}

#[test]
fn experience_is_had_once() {
    let mut mobile = Mobile::new(&"Jim".to_string());
    let mut foot = Item::rabbit_foot();
    foot.got_item(&mut mobile, true);
    assert_eq!(mobile.xp, 1);
    assert_eq!(foot.xp_value, 0);
    foot.got_item(&mut mobile, true);
    assert_eq!(mobile.xp, 1);
    let mut bauble = Item::gold_bauble();
    bauble.got_item(&mut mobile, true);
    assert_eq!(mobile.xp, 1);
    assert_eq!(bauble.xp_value, 5);
}

#[test]
fn weapons_change_the_damage_dice() {
    let mut mobile = Mobile::new(&"Jim".to_string());
    mobile.add_item(Item::pick(), false);
    assert_eq!(mobile.wielded, "pick axe");
    assert_eq!(mobile.damage_dice.number, 1);
    assert_eq!(mobile.damage_dice.die, 6);
    assert!(mobile.is_armed);
    let pick = mobile.fetch_first_item().unwrap();
    assert_eq!(pick.name, "pick axe");
    assert_eq!(mobile.wielded, "fist");
    assert_eq!(mobile.damage_dice.die, 2);
    assert!(!mobile.is_armed);
}

#[test]
fn an_item_ages_by_one_tick() {
    let mut item = Item::rawhide();
    item.tick();
    assert_eq!(item.lifetime, 99);
}

#[test]
fn cursed_items_take_luck() {
    let mut mobile = Mobile::new(&"Jim".to_string());
    let mut head = Item::shrunken_head();
    head.got_item(&mut mobile, false);
    assert_eq!(mobile.luck, -1);
    head.drop_item(&mut mobile);
    assert_eq!(mobile.luck, 0);
}
