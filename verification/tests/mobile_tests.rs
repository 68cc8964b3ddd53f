use mud_core::dice::Dice;
use mud_core::items::Item;
use mud_core::mobile::Mobile;
use mud_core::object::Object;

#[test]
fn damage_test() {
    let mut mobile = Mobile::new(&"goober".to_string());
    mobile.armor = 2;
    mobile.damage = 0;
    mobile.do_damage(1);
    assert_eq!(mobile.damage, 0);
    mobile.do_damage(2);
    assert_eq!(mobile.damage, 0);
    mobile.do_damage(3);
    assert_eq!(mobile.damage, 1);
    assert_eq!(mobile.armor, 1);
    mobile.do_damage(1);
    assert_eq!(mobile.damage, 1);
    assert_eq!(mobile.armor, 1);
    mobile.do_damage(2);
    assert_eq!(mobile.damage, 2);
    assert_eq!(mobile.armor, 0);
    mobile.do_damage(1);
    assert_eq!(mobile.damage, 3);
    assert_eq!(mobile.armor, 0);
}

#[test]
fn test_fetch_first_item() {
    let mut mobile = Mobile::new_character(&"Jim".to_string());
    let result1 = mobile.fetch_first_item();
    assert!(result1.is_none());
}

#[test]
fn test_slots() {
    let mut foot = Item::rabbit_foot();
    let mut mobile = Mobile::new_character(&"Jim".to_string());
    while mobile.has_room_for_item(&foot) {
        mobile.add_item(foot, true);
        foot = Item::rabbit_foot();
    }
    mobile.fetch_item_by_position(0);
    assert!(mobile.has_room_for_item(&foot));
}

#[test]
fn blocked_hits_change_nothing() {
    let mut mobile = Mobile::new(&"goober".to_string());
    mobile.armor = 5;
    mobile.damage = 2;
    for _ in 0..20 {
        assert_eq!(mobile.do_damage(5), 0);
        assert_eq!(mobile.do_damage(-3), 0);
    }
    assert_eq!(mobile.damage, 2);
    assert_eq!(mobile.armor, 5);
}

#[test]
fn armor_erodes_by_one_and_not_below_zero() {
    let mut mobile = Mobile::new(&"goober".to_string());
    mobile.armor = 2;
    let mut before = mobile.armor;
    for _ in 0..6 {
        mobile.do_damage(30);
        assert!(before - mobile.armor <= 1);
        assert!(mobile.armor >= 0);
        before = mobile.armor;
    }
    assert_eq!(mobile.armor, 0);
    assert_eq!(mobile.damage, 28 + 29 + 30 * 4);
}

#[test]
fn applied_damage_is_what_exceeds_the_armor() {
    let mut mobile = Mobile::new(&"goober".to_string());
    mobile.armor = 3;
    assert_eq!(mobile.do_damage(8), 5);
    assert_eq!(mobile.damage, 5);
    assert!(mobile.can_take_damage(100));
    mobile.damage = 32760;
    assert!(!mobile.can_take_damage(100));
}

#[test]
fn attribute_modifiers() {
    assert_eq!(Mobile::attribute_modifier(-7), -5);
    assert_eq!(Mobile::attribute_modifier(1), -5);
    assert_eq!(Mobile::attribute_modifier(2), -4);
    assert_eq!(Mobile::attribute_modifier(3), -4);
    assert_eq!(Mobile::attribute_modifier(9), -1);
    assert_eq!(Mobile::attribute_modifier(10), 0);
    assert_eq!(Mobile::attribute_modifier(11), 0);
    assert_eq!(Mobile::attribute_modifier(12), 1);
    assert_eq!(Mobile::attribute_modifier(18), 4);
    assert_eq!(Mobile::attribute_modifier(29), 9);
    assert_eq!(Mobile::attribute_modifier(30), 10);
    assert_eq!(Mobile::attribute_modifier(3000), 10);
}

#[test]
fn opposed_roll_formula() {
    let mut mobile = Mobile::new(&"Jim".to_string());
    mobile.luck = 2;
    assert_eq!(mobile.skill_check(14, 3, 50), 5 * (2 + 3) + 2 + 50);
    assert_eq!(mobile.skill_check(1, 0, 1), -25 + 2 + 1);
    mobile.strength = 16;
    mobile.combat = 2;
    for _ in 0..50 {
        let total = mobile.roll_combat();
        assert!(total >= 5 * (3 + 2) + 2 + 1);
        assert!(total <= 5 * (3 + 2) + 2 + 100);
    }
    mobile.leatherwork = 1;
    mobile.woodcraft = 4;
    let craft = mobile.roll_leatherwork_or_woodcraft();
    assert!(craft >= 5 * 4 + 2 + 1 && craft <= 5 * 4 + 2 + 100);
    assert!(mobile.can_roll_skill(10, 0));
    mobile.luck = 32700;
    assert!(!mobile.can_roll_skill(10, 0));
}

#[test]
fn task_difficulties() {
    assert_eq!(Mobile::trivial_task(), 25);
    assert_eq!(Mobile::easy_task(), 50);
    assert_eq!(Mobile::routine_task(), 75);
    assert_eq!(Mobile::skilled_task(), 100);
    assert_eq!(Mobile::very_skilled_task(), 125);
    assert_eq!(Mobile::heroic_task(), 150);
}

#[test]
fn practice_costs_one_more_than_the_rank() {
    let mut mobile = Mobile::new(&"Jim".to_string());
    assert_eq!(mobile.xp_cost(0), 0);
    assert!(!mobile.practice_combat());
    mobile.xp = 3;
    assert_eq!(mobile.xp_cost(0), 1);
    assert_eq!(mobile.xp_cost(2), 3);
    assert_eq!(mobile.xp_cost(3), 0);
    assert!(mobile.practice_combat());
    assert_eq!(mobile.combat, 1);
    assert_eq!(mobile.xp, 2);
    assert!(mobile.practice_combat());
    assert_eq!(mobile.combat, 2);
    assert_eq!(mobile.xp, 0);
    assert!(!mobile.practice_combat());
    mobile.xp = 5;
    assert!(mobile.practice_steal());
    assert!(mobile.practice_perception());
    assert!(mobile.practice_woodcraft());
    assert!(mobile.practice_leatherwork());
    assert!(mobile.practice_knowledge());
    assert_eq!(mobile.xp, 0);
    assert_eq!(
        (mobile.steal, mobile.perception, mobile.woodcraft, mobile.leatherwork, mobile.knowledge),
        (1, 1, 1, 1, 1)
    );
}

#[test]
fn actions_are_counted_against_the_budget() {
    let mut mobile = Mobile::new(&"Jim".to_string());
    assert!(mobile.use_action());
    assert!(!mobile.use_action());
    assert_eq!(mobile.actions_used, 2);
    mobile.damage = 4;
    mobile.constitution = 100;
    mobile.tick();
    assert_eq!(mobile.actions_used, 0);
    assert_eq!(mobile.damage, 3);
    mobile.rest(100);
    assert_eq!(mobile.damage, 2);
    mobile.constitution = 10;
    mobile.rest(11);
    assert_eq!(mobile.damage, 2);
    mobile.damage = 0;
    mobile.rest(1);
    assert_eq!(mobile.damage, 0);
}

#[test]
fn a_new_mobile_is_average() {
    let mobile = Mobile::new(&"goober".to_string());
    assert_eq!(mobile.name, "goober");
    assert_eq!(mobile.name_with_article, "a goober");
    assert_eq!(mobile.description, "You see a goober.");
    assert_eq!(mobile.arrive_prefix, "a goober arrives");
    assert_eq!(mobile.leave_prefix, "a goober leaves");
    assert_eq!(mobile.strength, 10);
    assert_eq!(mobile.max_hit_points(), 10);
    assert_eq!(mobile.misc_items_slots, 10);
    assert_eq!(mobile.wielded, "fist");
    assert_eq!(mobile.frequency, 10000);
    assert!(!mobile.is_active());
    assert_eq!(mobile.get_name(), "goober");
}

#[test]
fn a_character_has_rolled_attributes() {
    for _ in 0..20 {
        let c = Mobile::new_character(&"Jim".to_string());
        assert_eq!(c.name_with_article, "Jim");
        assert_eq!(c.description, "Jim is here.");
        for a in [c.strength, c.dexterity, c.constitution, c.intelligence, c.wisdom, c.charisma] {
            assert!((3..=18).contains(&a));
        }
        assert_eq!(c.max_damage, c.constitution);
    }
}

#[test]
fn monsters_are_made_with_their_gear() {
    let rabbit = Mobile::rabbit();
    assert_eq!(rabbit.name, "rabbit");
    assert_eq!(rabbit.luck, 2);
    assert_eq!(rabbit.inventory.len(), 1);
    assert_eq!(rabbit.misc_items_slots, 9);
    let goblin = Mobile::goblin();
    assert!(goblin.wanders && goblin.aggressive && goblin.is_active());
    assert_eq!(goblin.wielded, "pointed stick");
    assert_eq!(goblin.damage_dice.die, 3);
    let hunter = Mobile::head_hunter();
    assert_eq!(hunter.inventory.len(), 2);
    assert_eq!(hunter.luck, -1);
    assert_eq!(hunter.damage_dice.die, 4);
    let dandy = Mobile::foppish_dandy();
    assert_eq!(dandy.name_with_article, "a dandy");
    assert_eq!(dandy.wielded, "sword");
    let jack = Mobile::lumber_jack();
    assert_eq!(jack.name_with_article, "the lumberjack");
    assert_eq!(jack.strength, 16);
    assert!(jack.wanders && !jack.aggressive);
    let beggar = Mobile::beggar();
    assert_eq!(beggar.luck, -9);
    let rodent = Mobile::rodent();
    assert_eq!(rodent.max_damage, 3);
    let creature = Mobile::small_woodland_creature();
    assert!(creature.perception >= 11 && creature.perception <= 14);
    assert!(creature.inventory.len() <= 1);
    let bare = Mobile::small_woodland_creature_with(1, 2, 3, 4, 1, 2, None);
    assert_eq!((bare.strength, bare.max_damage, bare.intelligence, bare.charisma), (1, 2, 3, 4));
    assert_eq!(bare.perception, 12);
    let armed = Mobile::goblin_with(Some(Item::gold_bauble()));
    assert_eq!(armed.inventory.len(), 2);
}

#[test]
fn armor_takes_its_wear_along() {
    let mut mobile = Mobile::new(&"Jim".to_string());
    mobile.add_item(Item::chainmail(), false);
    assert_eq!(mobile.armor, 4);
    assert!(mobile.is_armored);
    assert!(!mobile.has_room_for_item(&Item::hide_armor()));
    mobile.do_damage(10);
    assert_eq!(mobile.armor, 3);
    let mail = mobile.fetch_item_by_name(&"chain".to_string()).unwrap();
    assert_eq!(mail.armor_value, 3);
    assert_eq!(mobile.armor, 0);
    assert!(!mobile.is_armored);
}

#[test]
fn inventory_is_listed_one_to_a_line() {
    let mut mobile = Mobile::new(&"Jim".to_string());
    assert_eq!(mobile.list_inventory(), "");
    mobile.add_item(Item::axe(), false);
    mobile.add_item(Item::rawhide(), false);
    assert_eq!(mobile.list_inventory(), "axe\nrawhide\n");
    assert_eq!(mobile.find_item_by_name(&"hide".to_string()), Some(1));
    assert_eq!(mobile.find_item_by_name(&"gold".to_string()), None);
    assert!(mobile.fetch_item_by_position(7).is_none());
}

#[test]
fn the_full_description_gives_every_number() {
    let mut mobile = Mobile::new(&"goober".to_string());
    mobile.luck = -3;
    mobile.damage = 2;
    assert_eq!(
        mobile.complete_description(),
        "You see a goober.\nstr: 10, dex: 10, con: 10, int: 10, wis: 10, chr: 10, luck: -3, xp: 0, dmg: 2/10\ncombat: 0\nsteal: 0\nperception: 0\nleatherwork: 0\nwoodcraft: 0\nknowledge: 0\nmisc. slots: 10\narmed: false\narmor protection: 0\n"
    );
}

#[test]
fn stripping_limits() {
    let mut mobile = Mobile::new(&"Jim".to_string());
    mobile.add_item(Item::rabbit_foot(), false);
    assert!(mobile.can_be_stripped());
    assert!(mobile.can_release_all());
    mobile.luck = i16::MIN;
    assert!(!mobile.can_be_stripped());
    assert!(!mobile.can_release_at(0));
    assert!(mobile.can_release_at(5));
    let foe = Mobile::new(&"Kim".to_string());
    assert!(!mobile.can_fight(&foe));
    mobile.luck = 0;
    assert!(mobile.can_fight(&foe));
    mobile.damage_dice = Dice { number: 1, die: 0 };
    assert!(!mobile.can_fight(&foe));
}
