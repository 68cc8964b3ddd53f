use mud_core::commands::{
    drop_item, eat_item, get_item, goto, kill, look, look_at, make_item, practice,
    process_command, show_inventory, show_stats, show_stats_of, start_background_events, steal,
};
use mud_core::events::{
    AgeEvent, CombatEvent, Event, EventList, MakeItemEvent, MoveMobileEvent, StealEvent,
    WanderingMonsterEvent,
};
use mud_core::items::{Item, ItemTypeCode};
use mud_core::mobile::Mobile;
use mud_core::world::WorldState;
use std::collections::VecDeque;

#[test]
fn an_empty_command_is_not_understood() {
    let mut world = WorldState::new();
    let mut queue = EventList::new();
    let mut command: VecDeque<String> = VecDeque::new();
    assert_eq!(process_command(&mut command, 1, &mut world, &mut queue), "What?");
    command.push_back("dance".to_string());
    command.push_back("wildly".to_string());
    assert_eq!(process_command(&mut command, 1, &mut world, &mut queue), "What?");
    assert_eq!(command.len(), 1);
    assert_eq!(queue.pending(), 0);
}

#[test]
fn steps_are_enqueued() {
    let mut world = WorldState::new();
    let mut queue = EventList::new();
    for word in ["e", "w", "n", "s"] {
        let mut command: VecDeque<String> = VecDeque::new();
        command.push_back(word.to_string());
        assert_eq!(process_command(&mut command, 7, &mut world, &mut queue), "");
        assert!(command.is_empty());
    }
    assert_eq!(
        queue.waiting(),
        vec![
            Event::MoveMobile(MoveMobileEvent { uuid: 7, dx: 1, dy: 0 }),
            Event::MoveMobile(MoveMobileEvent { uuid: 7, dx: -1, dy: 0 }),
            Event::MoveMobile(MoveMobileEvent { uuid: 7, dx: 0, dy: 1 }),
            Event::MoveMobile(MoveMobileEvent { uuid: 7, dx: 0, dy: -1 }),
        ]
    );
    goto(7, 3, 4, &mut queue);
    assert_eq!(queue.pending(), 5);
}

#[test]
fn commands_without_their_target_ask_for_it() {
    let mut world = WorldState::new();
    let mut queue = EventList::new();
    let cases = [
        ("eat", "Eat what?"),
        ("kill", "Kill what?"),
        ("steal", "Steal from whom?"),
        ("get", "Get what?"),
        ("drop", "Drop what?"),
        ("prac", "Practice what?"),
        ("make", "Make what?"),
    ];
    for (word, answer) in cases {
        let mut command: VecDeque<String> = VecDeque::new();
        command.push_back(word.to_string());
        assert_eq!(process_command(&mut command, 7, &mut world, &mut queue), answer);
    }
    assert_eq!(queue.pending(), 0);
}

#[test]
fn getting_and_dropping() {
    let mut world = WorldState::new();
    let jim = Mobile::new(&"Jim".to_string());
    let id = jim.get_id();
    world.add_mobile(jim, 0, 0);
    world.add_item(0, 0, Item::rabbit_foot());
    world.add_item(0, 0, Item::gold_bauble());
    assert_eq!(get_item(id, &mut world, &"dragon".to_string()), "Get what?");
    assert_eq!(get_item(id, &mut world, &"foot".to_string()), "Got it!");
    assert_eq!(get_item(id, &mut world, &"foot".to_string()), "Get what?");
    assert_eq!(get_item(id, &mut world, &"bauble".to_string()), "Got it!");
    assert_eq!(show_inventory(id, &mut world), "You have:\nrabbit foot\ngolden bauble\n");
    assert_eq!(drop_item(id, &mut world, &"dragon".to_string()), "Drop what?");
    assert_eq!(
        drop_item(id, &mut world, &"bauble".to_string()),
        "A collector eagerly accepts the golden bauble!"
    );
    assert_eq!(drop_item(id, &mut world, &"foot".to_string()), "Dropped it!");
    let jim = world.fetch_mobile(id).unwrap();
    assert_eq!(jim.xp, 6);
    assert_eq!(jim.luck, 0);
    assert!(jim.inventory.is_empty());
    assert!(world.fetch_item_by_name(0, 0, &"bauble".to_string()).is_none());
    assert!(world.fetch_item_by_name(0, 0, &"foot".to_string()).is_some());
}

#[test]
fn no_space_leaves_the_item_lying() {
    let mut world = WorldState::new();
    let mut jim = Mobile::new(&"Jim".to_string());
    jim.misc_items_slots = 0;
    let id = jim.get_id();
    world.add_mobile(jim, 0, 0);
    world.add_item(0, 0, Item::rabbit_foot());
    assert_eq!(
        get_item(id, &mut world, &"foot".to_string()),
        "You don't have space for that!"
    );
    assert!(world.fetch_item_by_name(0, 0, &"foot".to_string()).is_some());
    assert_eq!(world.population(), 1);
}

#[test]
fn treasures_are_put_down_outside_a_town() {
    let mut world = WorldState::new();
    let mut jim = Mobile::new(&"Jim".to_string());
    jim.add_item(Item::gold_bauble(), false);
    let id = jim.get_id();
    world.add_mobile(jim, 1, 0);
    assert_eq!(drop_item(id, &mut world, &"bauble".to_string()), "Dropped it!");
    assert_eq!(world.fetch_mobile(id).unwrap().xp, 0);
    assert!(world.fetch_item_by_name(1, 0, &"bauble".to_string()).is_some());
}

#[test]
fn practising() {
    let mut world = WorldState::new();
    let mut jim = Mobile::new(&"Jim".to_string());
    jim.xp = 1;
    let id = jim.get_id();
    world.add_mobile(jim, 0, 0);
    assert_eq!(practice(id, &mut world, &"dancing".to_string()), "Practice what?");
    assert_eq!(practice(id, &mut world, &"woodcraft".to_string()), "Practice what?");
    assert_eq!(practice(id, &mut world, &"steal".to_string()), "You have improved at steal!");
    assert_eq!(practice(id, &mut world, &"steal".to_string()), "Not enough xp!");
    assert_eq!(practice(id, &mut world, &"combat".to_string()), "Not enough xp!");
    let jim = world.fetch_mobile(id).unwrap();
    assert_eq!((jim.steal, jim.combat, jim.xp), (1, 0, 0));
}

#[test]
fn eating() {
    let mut world = WorldState::new();
    let mut jim = Mobile::new(&"Jim".to_string());
    jim.damage = 5;
    jim.add_item(Item::healthy_nuts_and_seeds(), false);
    jim.add_item(Item::sword(), false);
    let id = jim.get_id();
    world.add_mobile(jim, 0, 0);
    assert_eq!(eat_item(id, &mut world, &"nuts".to_string()), "You eat the healthy nuts & seeds");
    assert_eq!(eat_item(id, &mut world, &"sword".to_string()), "You cannot eat that!");
    assert_eq!(eat_item(id, &mut world, &"nuts".to_string()), "Eat what?");
    let jim = world.fetch_mobile(id).unwrap();
    assert_eq!(jim.damage, 4);
    assert_eq!(jim.inventory.len(), 1);
}

#[test]
fn attacks_and_thefts_are_enqueued() {
    let mut world = WorldState::new();
    let jim = Mobile::new(&"Jim".to_string());
    let rabbit = Mobile::rabbit();
    let (j, r) = (jim.get_id(), rabbit.get_id());
    world.add_mobile(jim, 0, 0);
    world.add_mobile(rabbit, 0, 0);
    let mut queue = EventList::new();
    kill(j, &mut world, &mut queue, &"rabbit".to_string());
    steal(j, &mut world, &mut queue, &"Rabbit".to_string());
    kill(j, &mut world, &mut queue, &"dragon".to_string());
    steal(j, &mut world, &mut queue, &"dragon".to_string());
    assert_eq!(
        queue.waiting(),
        vec![
            Event::Combat(CombatEvent { attacker: j, defender: r }),
            Event::Steal(StealEvent { thief: j, mark: r }),
        ]
    );
    assert_eq!(world.population(), 2);
    let mut command: VecDeque<String> = VecDeque::new();
    command.push_back("kill".to_string());
    command.push_back("rabbit".to_string());
    assert_eq!(process_command(&mut command, j, &mut world, &mut queue), "");
    assert_eq!(queue.pending(), 3);
    assert!(command.is_empty());
}

#[test]
fn looking() {
    let mut world = WorldState::new();
    let jim = Mobile::new_character(&"Jim".to_string());
    let j = jim.get_id();
    world.add_mobile(jim, 0, 0);
    world.add_mobile(Mobile::rabbit(), 0, 0);
    world.add_item(0, 0, Item::sword());
    world.add_item(0, 0, Item::axe());
    let seen = look(j, &mut world);
    assert!(seen.starts_with("Town of Midgaard\n"));
    assert!(seen.contains("Jim is here."));
    assert!(seen.ends_with("A sword is here.\nA gleaming axe is here."));
    assert_eq!(
        look_at(j, &mut world, &"rabbit".to_string()),
        "A rabbit watches you carefully.\nCarrying:\nrabbit foot\n"
    );
    assert_eq!(look_at(j, &mut world, &"sword".to_string()), "A sword is here.");
    assert_eq!(look_at(j, &mut world, &"dragon".to_string()), "Look at what?");
    assert!(look(j, &mut world).ends_with("A gleaming axe is here.\nA sword is here."));
    assert_eq!(world.population(), 2);
}

#[test]
fn studying() {
    let mut world = WorldState::new();
    let mut jim = Mobile::new(&"Jim".to_string());
    jim.luck = 20000;
    let j = jim.get_id();
    world.add_mobile(jim, 0, 0);
    let mut dunce = Mobile::new(&"Tom".to_string());
    dunce.luck = -20000;
    let d = dunce.get_id();
    world.add_mobile(dunce, 0, 0);
    world.add_item(0, 0, Item::leather_armor());
    assert_eq!(
        show_stats_of(j, &mut world, &"armor".to_string()),
        "Will protect you from harm!. Protection is 3"
    );
    assert!(show_stats_of(j, &mut world, &"tom".to_string()).starts_with("You see a Tom.\nstr: 10"));
    assert_eq!(
        show_stats_of(d, &mut world, &"armor".to_string()),
        "Perhaps you should study harder?"
    );
    assert_eq!(show_stats_of(d, &mut world, &"jim".to_string()), "Perhaps you should study harder?");
    assert_eq!(show_stats_of(d, &mut world, &"tom".to_string()), "Stat what?");
    assert!(show_stats(d, &mut world).contains("luck: -20000"));
    assert_eq!(world.population(), 2);
}

#[test]
fn making_is_enqueued() {
    let mut queue = EventList::new();
    assert_eq!(make_item(3, &mut queue, &"rawhide".to_string()), "You begin making rawhide");
    assert_eq!(
        make_item(3, &mut queue, &"leatherarmor".to_string()),
        "You begin making leather armor"
    );
    assert_eq!(make_item(3, &mut queue, &"castle".to_string()), "What is castle?");
    assert_eq!(
        queue.waiting(),
        vec![
            Event::MakeItem(MakeItemEvent { maker: 3, item: ItemTypeCode::Rawhide }),
            Event::MakeItem(MakeItemEvent { maker: 3, item: ItemTypeCode::LeatherArmor }),
        ]
    );
}

#[test]
fn quitting_stashes_the_character() {
    let mut world = WorldState::new();
    let jim = Mobile::new_character(&"Jim".to_string());
    let j = jim.get_id();
    world.add_mobile(jim, 0, 0);
    let mut queue = EventList::new();
    let mut command: VecDeque<String> = VecDeque::new();
    command.push_back("i".to_string());
    assert_eq!(process_command(&mut command, j, &mut world, &mut queue), "You have:\n");
    command.push_back("look".to_string());
    assert_eq!(
        process_command(&mut command, j, &mut world, &mut queue),
        "Town of Midgaard\nJim is here."
    );
    command.push_back("stat".to_string());
    assert!(process_command(&mut command, j, &mut world, &mut queue).starts_with("Jim is here.\nstr: "));
    command.push_back("quit".to_string());
    assert_eq!(process_command(&mut command, j, &mut world, &mut queue), "Goodbye!");
    assert!(!world.mobile_active(j));
    assert!(world.mobile_exists(j));
    assert!(world.mobile_active(j));
}

#[test]
fn the_world_is_kept_going() {
    let mut queue = EventList::new();
    start_background_events(&mut queue);
    assert_eq!(
        queue.waiting(),
        vec![
            Event::WanderingMonster(WanderingMonsterEvent {}),
            Event::Age(AgeEvent {}),
        ]
    );
}
