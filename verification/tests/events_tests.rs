use mud_core::aging::AgeLocationVisitor;
use mud_core::combat::CombatOutcome;
use mud_core::events::{
    ActiveMonsterEvent, AgeEvent, CombatEvent, Event, EventList, MakeItemEvent, MoveMobileEvent,
    StealEvent, WanderingMonsterEvent,
};
use mud_core::items::{Item, ItemTypeCode};
use mud_core::location::LocationTypeCode;
use mud_core::mobile::Mobile;
use mud_core::spawning::WanderingMonsterLocationVisitor;
use mud_core::world::WorldState;

fn fighter(name: &str, luck: i16) -> Box<Mobile> {
    let mut m = Mobile::new(&name.to_string());
    m.luck = luck;
    m
}

#[test]
fn events_wait_one_tick() {
    let mut world = WorldState::new();
    let mut item = Item::rawhide();
    item.lifetime = 3;
    world.add_item(0, 0, item);
    let mut queue = EventList::new();
    queue.insert(Event::Age(AgeEvent::new()));
    assert_eq!(queue.pending(), 1);
    queue.tick(&mut world);
    assert_eq!(queue.waiting(), vec![Event::Age(AgeEvent {})]);
    let item = world.fetch_item_by_name(0, 0, &"rawhide".to_string()).unwrap();
    assert_eq!(item.lifetime, 2);
    world.add_item(0, 0, item);
    queue.tick(&mut world);
    assert_eq!(queue.pending(), 1);
    let item = world.fetch_item_by_name(0, 0, &"rawhide".to_string()).unwrap();
    assert_eq!(item.lifetime, 1);
}

#[test]
fn a_tick_runs_what_waited_in_order() {
    let mut world = WorldState::new();
    let jim = fighter("Jim", 0);
    let id = jim.get_id();
    world.add_mobile(jim, 0, 0);
    let mut queue = EventList::new();
    queue.insert(Event::MoveMobile(MoveMobileEvent { uuid: id, dx: 1, dy: 0 }));
    queue.insert(Event::MoveMobile(MoveMobileEvent { uuid: id, dx: 0, dy: 1 }));
    queue.insert(Event::MoveMobile(MoveMobileEvent { uuid: id, dx: 1, dy: 0 }));
    queue.tick(&mut world);
    assert_eq!(world.find_mobile_location(id), Some((2, 1)));
    assert_eq!(queue.pending(), 0);
    queue.tick(&mut world);
    assert_eq!(world.find_mobile_location(id), Some((2, 1)));
}

#[test]
fn combat_exchange() {
    let mut world = WorldState::new();
    let mut attacker = fighter("knight", 1000);
    attacker.add_item(Item::sword(), false);
    let defender = fighter("ogre", 0);
    let a = attacker.get_id();
    let d = defender.get_id();
    world.add_mobile(attacker, 0, 0);
    world.add_mobile(defender, 0, 0);
    let mut queue = EventList::new();
    queue.insert(Event::Combat(CombatEvent { attacker: a, defender: d }));
    queue.tick(&mut world);
    let defender = world.fetch_mobile(d).unwrap();
    assert!(defender.damage >= 1 && defender.damage <= 8);
    assert_eq!(defender.max_hit_points(), 10);
    assert_eq!(queue.waiting(), vec![Event::Combat(CombatEvent { attacker: a, defender: d })]);
    let attacker = world.fetch_mobile(a).unwrap();
    assert_eq!(attacker.damage, 0);
    assert_eq!(attacker.actions_used, 1);
    assert_eq!(defender.actions_used, 1);
    let text = world.message_list.read(0, 0, 1, 0);
    assert_eq!(
        text,
        format!("a knight wounds a ogre with a sword for {}!\n", defender.damage)
    );
}

#[test]
fn death_comes_strictly_above_the_hit_points() {
    let mut world = WorldState::new();
    let mut queue = EventList::new();
    let event = CombatEvent { attacker: 1, defender: 2 };
    let hitter = fighter("knight", 0);
    let mut victim = fighter("ogre", 0);
    victim.damage = 4;
    let v = victim.get_id();
    let h = hitter.get_id();
    event.strike(&mut world, &mut queue, hitter, victim, 6, 0, 0);
    assert!(world.mobile_active(v));
    assert_eq!(queue.pending(), 1);
    let victim = world.fetch_mobile(v).unwrap();
    assert_eq!(victim.damage, 10);
    let hitter = world.fetch_mobile(h).unwrap();
    event.strike(&mut world, &mut queue, hitter, victim, 1, 0, 0);
    assert!(!world.mobile_active(v));
    assert!(world.mobile_active(h));
    assert_eq!(queue.pending(), 1);
    assert_eq!(world.take_killed(), vec!["ogre".to_string()]);
    assert!(world.fetch_item_by_name(0, 0, &"ogre corpse".to_string()).is_some());
    assert_eq!(
        world.message_list.read(0, 0, v, 0),
        "a knight wounds a ogre with a fist for 6!\na knight slays a ogre!\nYou have been slain by a knight!\n"
    );
}

#[test]
fn the_slain_leave_their_things() {
    let mut world = WorldState::new();
    let mut attacker = fighter("knight", 1000);
    attacker.add_item(Item::axe(), false);
    let mut defender = Mobile::rabbit();
    defender.max_damage = 0;
    let a = attacker.get_id();
    let d = defender.get_id();
    world.add_mobile(attacker, 0, 0);
    world.add_mobile(defender, 0, 0);
    let mut queue = EventList::new();
    CombatEvent { attacker: a, defender: d }.tick(&mut world, &mut queue);
    assert!(!world.mobile_active(d));
    assert_eq!(world.population(), 1);
    assert_eq!(queue.pending(), 0);
    assert!(world.fetch_item_by_name(0, 0, &"rabbit corpse".to_string()).is_some());
    assert!(world.fetch_item_by_name(0, 0, &"rabbit foot".to_string()).is_some());
    assert_eq!(world.take_killed(), vec!["rabbit".to_string()]);
}

#[test]
fn combat_needs_both_in_one_place() {
    let mut world = WorldState::new();
    let a = fighter("knight", 0);
    let b = fighter("ogre", 0);
    let (ia, ib) = (a.get_id(), b.get_id());
    world.add_mobile(a, 0, 0);
    world.add_mobile(b, 0, 1);
    let mut queue = EventList::new();
    CombatEvent { attacker: ia, defender: ib }.tick(&mut world, &mut queue);
    assert_eq!(queue.pending(), 0);
    assert_eq!(world.message_list.read_targetted(ia, 0), "Kill who?\n");
    CombatEvent { attacker: ia, defender: 99 }.tick(&mut world, &mut queue);
    assert_eq!(world.message_list.read_targetted(ia, 0), "Kill who?\nKill who?\n");
    CombatEvent { attacker: 99, defender: ib }.tick(&mut world, &mut queue);
    CombatEvent { attacker: ia, defender: ia }.tick(&mut world, &mut queue);
    assert_eq!(world.message_list.read_targetted(ia, 0), "Kill who?\nKill who?\n");
    assert_eq!(world.population(), 2);
    assert_eq!(queue.pending(), 0);
}

#[test]
fn combat_without_actions_waits() {
    let mut world = WorldState::new();
    let mut a = fighter("knight", 0);
    let mut b = fighter("ogre", 0);
    a.actions_used = 1;
    b.actions_used = 1;
    let (ia, ib) = (a.get_id(), b.get_id());
    world.add_mobile(a, 0, 0);
    world.add_mobile(b, 0, 0);
    let mut queue = EventList::new();
    let event = CombatEvent { attacker: ia, defender: ib };
    event.tick(&mut world, &mut queue);
    assert_eq!(queue.waiting(), vec![Event::Combat(event)]);
    assert_eq!(world.message_list.read(0, 0, 1, 0), "");
    assert_eq!(world.fetch_mobile(ia).unwrap().damage, 0);
    assert_eq!(world.fetch_mobile(ib).unwrap().damage, 0);
}

#[test]
fn a_winner_without_an_action_is_repulsed() {
    let mut world = WorldState::new();
    let mut a = fighter("knight", 1000);
    a.actions_used = 1;
    let b = fighter("ogre", 0);
    let (ia, ib) = (a.get_id(), b.get_id());
    world.add_mobile(a, 0, 0);
    world.add_mobile(b, 0, 0);
    let mut queue = EventList::new();
    CombatEvent { attacker: ia, defender: ib }.tick(&mut world, &mut queue);
    assert_eq!(world.message_list.read(0, 0, 1, 0), "a ogre repulses a knight!\n");
    assert_eq!(queue.pending(), 1);
}

#[test]
fn the_outcome_of_a_round() {
    assert_eq!(CombatEvent::outcome(true, true, 10, 9), CombatOutcome::AttackerHits);
    assert_eq!(CombatEvent::outcome(true, true, 10, 10), CombatOutcome::DefenderHits);
    assert_eq!(CombatEvent::outcome(true, true, 9, 10), CombatOutcome::DefenderHits);
    assert_eq!(CombatEvent::outcome(false, true, 10, 9), CombatOutcome::DefenderRepulses);
    assert_eq!(CombatEvent::outcome(true, false, 9, 10), CombatOutcome::AttackerRepulses);
    assert_eq!(CombatEvent::outcome(false, false, 10, 9), CombatOutcome::Idle);
}

#[test]
fn movement_messaging() {
    let mut world = WorldState::new();
    let mover = fighter("knight", 0);
    let id = mover.get_id();
    world.add_mobile(mover, 0, 0);
    let mut queue = EventList::new();
    MoveMobileEvent { uuid: id, dx: 0, dy: 1 }.tick(&mut world, &mut queue);
    assert_eq!(world.find_mobile_location(id), Some((0, 1)));
    assert_eq!(queue.pending(), 0);
    let other = id + 1;
    assert_eq!(world.message_list.read(0, 1, other, 0), "a knight arrives from the south.\n");
    assert_eq!(world.message_list.read(0, 0, other, 0), "a knight leaves to the north.\n");
    let own = world.message_list.read(0, 1, id, 0);
    assert!(!own.contains("arrives"));
    assert!(!world.message_list.read(0, 0, id, 0).contains("leaves to the north"));
    assert_eq!(own, "In the forest\nYou see a knight.\nSome twigs and leaves litter the forest floor.\n");
}

#[test]
fn every_direction_has_its_words() {
    let cases = [
        (0, -1, "from the north.", "to the south."),
        (1, 0, "from the west.", "to the east."),
        (-1, 0, "from the east.", "to the west."),
    ];
    for (dx, dy, arrive, leave) in cases {
        let mut world = WorldState::new();
        let mover = fighter("knight", 0);
        let id = mover.get_id();
        world.add_mobile(mover, 0, 0);
        let mut queue = EventList::new();
        MoveMobileEvent { uuid: id, dx, dy }.tick(&mut world, &mut queue);
        assert_eq!(world.message_list.read(dx, dy, 1, 0), format!("a knight arrives {}\n", arrive));
        assert_eq!(world.message_list.read(0, 0, 1, 0), format!("a knight leaves {}\n", leave));
    }
}

#[test]
fn other_steps_are_silent_and_none_leaves_the_map() {
    let mut world = WorldState::new();
    let mover = fighter("knight", 0);
    let id = mover.get_id();
    world.add_mobile(mover, 32767, 0);
    let mut queue = EventList::new();
    MoveMobileEvent { uuid: id, dx: 1, dy: 0 }.tick(&mut world, &mut queue);
    assert_eq!(world.find_mobile_location(id), Some((32767, 0)));
    MoveMobileEvent { uuid: id, dx: -7, dy: 3 }.tick(&mut world, &mut queue);
    assert_eq!(world.find_mobile_location(id), Some((32760, 3)));
    assert_eq!(world.message_list.read(32760, 3, 1, 0), "");
    assert_eq!(world.message_list.read_targetted(id, 0), "");
    MoveMobileEvent { uuid: 77, dx: 1, dy: 0 }.tick(&mut world, &mut queue);
    assert_eq!(world.population(), 1);
}

#[test]
fn item_decay() {
    let mut world = WorldState::new();
    let mut item = Item::rawhide();
    item.lifetime = 1;
    world.add_item(3, 4, item);
    let mut queue = EventList::new();
    AgeEvent::new().tick(&mut world, &mut queue);
    assert!(world.fetch_item_by_name(3, 4, &"rawhide".to_string()).is_none());
    assert_eq!(world.message_list.read(3, 4, 1, 0), "rawhide decays into dust\n");
    assert_eq!(world.message_list.read(0, 0, 1, 0), "");
    assert_eq!(queue.waiting(), vec![Event::Age(AgeEvent {})]);
}

#[test]
fn age_refreshes_actions_everywhere() {
    let mut world = WorldState::new();
    let mut a = fighter("a", 0);
    a.actions_used = 3;
    let mut b = fighter("b", 0);
    b.actions_used = 1;
    let (ia, ib) = (a.get_id(), b.get_id());
    world.add_mobile(a, 0, 0);
    world.add_mobile(b, 5, 5);
    let mut queue = EventList::new();
    AgeEvent::new().tick(&mut world, &mut queue);
    assert_eq!(world.fetch_mobile(ia).unwrap().actions_used, 0);
    assert_eq!(world.fetch_mobile(ib).unwrap().actions_used, 0);
    let mut visitor = AgeLocationVisitor {};
    world.visit_all_locations(&mut visitor);
}

#[test]
fn theft_capacity() {
    let mut world = WorldState::new();
    let mut thief = fighter("thief", 1000);
    thief.misc_items_slots = 0;
    let mark = Mobile::rabbit();
    let (t, m) = (thief.get_id(), mark.get_id());
    world.add_mobile(thief, 0, 0);
    world.add_mobile(mark, 0, 0);
    let mut queue = EventList::new();
    StealEvent { thief: t, mark: m }.tick(&mut world, &mut queue);
    let thief = world.fetch_mobile(t).unwrap();
    let mark = world.fetch_mobile(m).unwrap();
    assert!(thief.inventory.is_empty());
    assert_eq!(thief.xp, 0);
    assert_eq!(mark.inventory.len(), 1);
    assert_eq!(mark.inventory[0].name, "rabbit foot");
    assert_eq!(mark.luck, 2);
    assert_eq!(world.message_list.read_targetted(t, 0), "You don't have room for rabbit foot!\n");
    assert_eq!(queue.pending(), 0);
}

#[test]
fn a_theft_that_succeeds() {
    let mut world = WorldState::new();
    let thief = fighter("thief", 1000);
    let mark = Mobile::rabbit();
    let (t, m) = (thief.get_id(), mark.get_id());
    world.add_mobile(thief, 0, 0);
    world.add_mobile(mark, 0, 0);
    let mut queue = EventList::new();
    let event = StealEvent { thief: t, mark: m };
    event.tick(&mut world, &mut queue);
    assert_eq!(world.message_list.read_targetted(t, 0), "You stole a rabbit foot\n");
    event.tick(&mut world, &mut queue);
    assert_eq!(queue.waiting(), vec![Event::Steal(event)]);
    let mut thief = world.fetch_mobile(t).unwrap();
    assert_eq!(thief.inventory.len(), 1);
    assert_eq!(thief.xp, 1);
    assert_eq!(thief.luck, 1001);
    thief.actions_used = 0;
    world.add_mobile(thief, 0, 0);
    event.tick(&mut world, &mut queue);
    assert_eq!(
        world.message_list.read_targetted(t, 0),
        "You stole a rabbit foot\nYou come up empty handed!\n"
    );
}

#[test]
fn a_theft_that_fails_starts_a_fight() {
    let mut world = WorldState::new();
    let thief = fighter("thief", -1000);
    let mark = fighter("mark", 0);
    let (t, m) = (thief.get_id(), mark.get_id());
    world.add_mobile(thief, 0, 0);
    world.add_mobile(mark, 0, 0);
    let mut queue = EventList::new();
    StealEvent { thief: t, mark: m }.tick(&mut world, &mut queue);
    assert_eq!(world.message_list.read(0, 0, 1, 0), "thief is a thief!\n");
    assert_eq!(
        queue.waiting(),
        vec![Event::Combat(CombatEvent { attacker: m, defender: t })]
    );
    StealEvent { thief: t, mark: t }.tick(&mut world, &mut queue);
    assert_eq!(world.message_list.read_targetted(t, 0), "Steal from who?\n");
    StealEvent { thief: t, mark: 5 }.tick(&mut world, &mut queue);
    assert_eq!(world.message_list.read_targetted(t, 0), "Steal from who?\nSteal from who?\n");
    assert_eq!(world.population(), 2);
}

#[test]
fn handing_over_what_was_stolen() {
    let mut world = WorldState::new();
    let mut thief = fighter("thief", 0);
    let mut mark = fighter("mark", 0);
    StealEvent::hand_over(&mut world, &mut thief, &mut mark, Some(Item::gold_bauble()));
    assert_eq!(thief.inventory.len(), 1);
    assert_eq!(thief.xp, 0);
    thief.is_armed = true;
    StealEvent::hand_over(&mut world, &mut thief, &mut mark, Some(Item::sword()));
    assert_eq!(thief.inventory.len(), 1);
    assert_eq!(mark.inventory.len(), 1);
    assert_eq!(mark.wielded, "sword");
    StealEvent::hand_over(&mut world, &mut thief, &mut mark, None);
    assert_eq!(
        world.message_list.read_targetted(thief.get_id(), 0),
        "You stole a golden bauble\nYou don't have room for sword!\nYou come up empty handed!\n"
    );
    assert!(StealEvent::can_attempt(&thief, &mark));
}

#[test]
fn crafting_uses_an_action_and_the_material() {
    let mut world = WorldState::new();
    let mut maker = fighter("smith", 1000);
    maker.add_item(Item::corpse("rabbit".to_string()), false);
    let id = maker.get_id();
    world.add_mobile(maker, 0, 0);
    let mut queue = EventList::new();
    let event = MakeItemEvent { maker: id, item: ItemTypeCode::HideArmor };
    event.tick(&mut world, &mut queue);
    assert_eq!(world.message_list.read(0, 0, 1, 0), "a smith makes some hide armor\n");
    let armor = world.fetch_item_by_name(0, 0, &"hide armor".to_string()).unwrap();
    assert_eq!(armor.armor_value, 2);
    assert_eq!(queue.pending(), 0);
    event.tick(&mut world, &mut queue);
    assert_eq!(queue.waiting(), vec![Event::MakeItem(event)]);
    let maker = world.fetch_mobile(id).unwrap();
    assert!(maker.inventory.is_empty());
    assert_eq!(maker.actions_used, 2);
}

#[test]
fn a_clumsy_maker_ruins_the_material() {
    let mut world = WorldState::new();
    let mut maker = fighter("smith", -1000);
    maker.add_item(Item::rawhide(), false);
    let id = maker.get_id();
    world.add_mobile(maker, 0, 0);
    let mut queue = EventList::new();
    MakeItemEvent { maker: id, item: ItemTypeCode::LeatherArmor }.tick(&mut world, &mut queue);
    assert_eq!(world.message_list.read(0, 0, 1, 0), "a smith ruins some rawhide\n");
    assert!(world.fetch_item_by_name(0, 0, &"leather".to_string()).is_none());
    let mut maker = world.fetch_mobile(id).unwrap();
    assert!(maker.inventory.is_empty());
    maker.actions_used = 0;
    world.add_mobile(maker, 0, 0);
    MakeItemEvent { maker: id, item: ItemTypeCode::PointedStick }.tick(&mut world, &mut queue);
    assert_eq!(
        world.message_list.read(0, 0, 1, 0),
        "a smith ruins some rawhide\na smith ruins a stick\n"
    );
    MakeItemEvent { maker: 4, item: ItemTypeCode::PointedStick }.tick(&mut world, &mut queue);
    assert_eq!(queue.pending(), 0);
}

#[test]
fn sticks_and_rawhide() {
    let mut world = WorldState::new();
    let mut maker = fighter("smith", 1000);
    maker.add_item(Item::corpse("rabbit".to_string()), false);
    maker.add_item(Item::sword(), false);
    maker.add_item(Item::corpse("goblin".to_string()), false);
    maker.actions_per_tick = 3;
    let id = maker.get_id();
    world.add_mobile(maker, 0, 0);
    let mut queue = EventList::new();
    MakeItemEvent { maker: id, item: ItemTypeCode::Rawhide }.tick(&mut world, &mut queue);
    MakeItemEvent { maker: id, item: ItemTypeCode::PointedStick }.tick(&mut world, &mut queue);
    MakeItemEvent { maker: id, item: ItemTypeCode::Sword }.tick(&mut world, &mut queue);
    assert_eq!(
        world.message_list.read(0, 0, 1, 0),
        "a smith makes 2 pieces of rawhide!\na smith sharpens a stick\n"
    );
    let maker = world.fetch_mobile(id).unwrap();
    assert_eq!(maker.list_inventory(), "sword\nrawhide\nrawhide\n");
    assert_eq!(maker.actions_used, 3);
    assert!(world.fetch_item_by_name(0, 0, &"pointed stick".to_string()).is_some());
}

#[test]
fn an_active_monster_keeps_taking_turns() {
    let mut world = WorldState::new();
    let goblin = Mobile::goblin();
    let g = goblin.get_id();
    let victim = fighter("knight", 0);
    let v = victim.get_id();
    world.add_mobile(goblin, 0, 0);
    world.add_mobile(victim, 0, 0);
    let mut queue = EventList::new();
    ActiveMonsterEvent { id: g }.tick(&mut world, &mut queue);
    let waiting = queue.waiting();
    assert_eq!(waiting[0], Event::Combat(CombatEvent { attacker: g, defender: v }));
    assert_eq!(waiting[waiting.len() - 1], Event::ActiveMonster(ActiveMonsterEvent { id: g }));
    assert_eq!(world.message_list.read(0, 0, 1, 0), "a goblin attacks a knight!\n");
    assert_eq!(world.population(), 2);
    assert_eq!(world.fetch_mobile(g).unwrap().actions_used, 1);
    ActiveMonsterEvent { id: g }.tick(&mut world, &mut queue);
    assert_eq!(queue.pending(), waiting.len());
}

#[test]
fn monsters_leave_their_own_kind_alone() {
    let mut world = WorldState::new();
    let mut a = Mobile::goblin();
    a.wanders = false;
    let b = Mobile::goblin();
    let ia = a.get_id();
    world.add_mobile(a, 0, 0);
    world.add_mobile(b, 0, 0);
    let mut queue = EventList::new();
    ActiveMonsterEvent { id: ia }.tick(&mut world, &mut queue);
    assert_eq!(queue.waiting(), vec![Event::ActiveMonster(ActiveMonsterEvent { id: ia })]);
    assert_eq!(world.fetch_mobile(ia).unwrap().actions_used, 0);
    let mut idle = fighter("statue", 0);
    idle.wanders = false;
    let is = idle.get_id();
    world.add_mobile(idle, 0, 0);
    let mut other = EventList::new();
    ActiveMonsterEvent { id: is }.tick(&mut world, &mut other);
    assert_eq!(other.pending(), 0);
}

#[test]
fn wandering_steps_by_the_die() {
    assert_eq!(ActiveMonsterEvent::step_for(1), (1, 0));
    assert_eq!(ActiveMonsterEvent::step_for(2), (-1, 0));
    assert_eq!(ActiveMonsterEvent::step_for(3), (0, -1));
    assert_eq!(ActiveMonsterEvent::step_for(4), (0, 1));
    assert_eq!(ActiveMonsterEvent::step_for(5), (0, 0));
    assert_eq!(ActiveMonsterEvent::step_for(100), (0, 0));
    let mut world = WorldState::new();
    world.add_item(1, 0, Item::rawhide());
    let mut jack = Mobile::lumber_jack();
    let id = jack.get_id();
    let mut queue = EventList::new();
    ActiveMonsterEvent::wander(&world, &mut queue, &jack, (0, 0), 1);
    assert_eq!(queue.pending(), 0);
    ActiveMonsterEvent::wander(&world, &mut queue, &jack, (1, 0), 4);
    assert_eq!(queue.pending(), 0);
    assert!(world.fetch_item_by_name(1, 1, &"twigs".to_string()).is_some());
    ActiveMonsterEvent::wander(&world, &mut queue, &jack, (1, 0), 4);
    assert_eq!(
        queue.waiting(),
        vec![Event::MoveMobile(MoveMobileEvent { uuid: id, dx: 0, dy: 1 })]
    );
    jack.wanders = false;
    ActiveMonsterEvent::wander(&world, &mut queue, &jack, (1, 0), 4);
    assert_eq!(queue.pending(), 1);
}

#[test]
fn monsters_wander_into_a_sparse_world() {
    let mut world = WorldState::new();
    let mut queue = EventList::new();
    for _ in 0..2000 {
        WanderingMonsterEvent::new().tick(&mut world, &mut queue);
        if world.population() > 0 {
            break;
        }
    }
    assert_eq!(world.population(), 1);
    assert!(!world.is_sparse());
    let text = world.message_list.read(0, 0, 1, 0);
    assert!(text == "A beggar has arrived.\n" || text == "A foppish dandy has arrived.\n");
    let before = queue.pending();
    WanderingMonsterEvent::new().tick(&mut world, &mut queue);
    assert_eq!(world.population(), 1);
    assert_eq!(queue.pending(), before + 1);
}

#[test]
fn the_tables_of_wandering_monsters() {
    assert_eq!(WanderingMonsterLocationVisitor::forest_wandering_monster_for(0).unwrap().name, "rodent");
    assert_eq!(WanderingMonsterLocationVisitor::forest_wandering_monster_for(1).unwrap().name, "lumberjack");
    assert_eq!(WanderingMonsterLocationVisitor::forest_wandering_monster_for(2).unwrap().name, "rabbit");
    assert_eq!(
        WanderingMonsterLocationVisitor::forest_wandering_monster_for(3).unwrap().name,
        "woodland creature"
    );
    assert!(WanderingMonsterLocationVisitor::forest_wandering_monster_for(4).is_none());
    assert_eq!(WanderingMonsterLocationVisitor::town_wandering_monster_for(0).unwrap().name, "beggar");
    assert_eq!(
        WanderingMonsterLocationVisitor::town_wandering_monster_for(1).unwrap().name,
        "foppish dandy"
    );
    assert!(WanderingMonsterLocationVisitor::town_wandering_monster_for(2).is_none());
    assert_eq!(
        WanderingMonsterLocationVisitor::deep_woods_wandering_monster_for(0).unwrap().name,
        "goblin"
    );
    assert_eq!(
        WanderingMonsterLocationVisitor::deep_woods_wandering_monster_for(1).unwrap().name,
        "head hunter"
    );
    assert!(WanderingMonsterLocationVisitor::deep_woods_wandering_monster_for(255).is_none());
}

#[test]
fn an_arrival_is_announced() {
    let mut world = WorldState::new();
    let mut queue = EventList::new();
    let goblin = Mobile::goblin();
    let id = goblin.get_id();
    WanderingMonsterEvent::arrive(&mut world, &mut queue, 0, 0, goblin);
    assert!(world.mobile_active(id));
    assert_eq!(queue.waiting(), vec![Event::ActiveMonster(ActiveMonsterEvent { id })]);
    assert_eq!(world.message_list.read(0, 0, 1, 0), "A goblin has arrived.\n");
    WanderingMonsterEvent::arrive(&mut world, &mut queue, 0, 0, Mobile::rabbit());
    assert_eq!(queue.pending(), 1);
    assert_eq!(world.population(), 2);
    assert_eq!(world.get_location_type(0, 0), LocationTypeCode::Town);
}

#[test]
fn what_a_table_gives_is_gathered() {
    let mut visitor = WanderingMonsterLocationVisitor { monster_list: Vec::new() };
    visitor.gather(1, 2, None);
    assert!(visitor.monster_list.is_empty());
    let rabbit = Mobile::rabbit();
    let id = rabbit.get_id();
    visitor.gather(3, -4, Some(rabbit));
    visitor.gather(5, 6, Some(Mobile::goblin()));
    visitor.gather(7, 8, None);
    assert_eq!(visitor.monster_list.len(), 2);
    assert_eq!((visitor.monster_list[0].0, visitor.monster_list[0].1), (3, -4));
    assert_eq!(visitor.monster_list[0].2.get_id(), id);
    assert_eq!(visitor.monster_list[1].2.name, "goblin");
}
