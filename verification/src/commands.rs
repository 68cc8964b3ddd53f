use crate::events::{
    AgeEvent, CombatEvent, Event, EventList, EventListView, MakeItemEvent, MoveMobileEvent,
    StealEvent, WanderingMonsterEvent,
};
use crate::items::{ItemTypeCode, ItemView};
use crate::location::LocationTypeCode;
use crate::map::type_at;
use crate::mobile::{listing, skill_total, Mobile, MobileView};
use crate::object::Object;
use crate::text::{join, join3, text};
use crate::world::{WorldState, WorldView};
use std::collections::VecDeque;
use vstd::prelude::*;
use vstd::string::*;

verus! {

/// Whether a text is the given word.
fn is_word(s: &String, word: &str) -> (same: bool)
    ensures
        same == (s@ == word@),
{
    let w = text(word);
    *s == w
}

/// Checks the mobile known as `uuid` out of the world, with its position.
fn checkout(uuid: u128, world: &mut WorldState) -> (r: (Box<Mobile>, (i16, i16)))
    requires
        old(world)@.wf(),
        old(world)@.index.contains_key(uuid),
    ensures
        final(world)@.wf(),
        final(world)@ == old(world)@.without_mobile(uuid),
        r.0@ == old(world)@.mobile(uuid),
        r.0@.id == uuid,
        r.1 == old(world)@.index[uuid],
        final(world)@.locations.contains_key(r.1),
        !final(world)@.index.contains_key(uuid),
{
    let position = world.find_mobile_location(uuid);
    let mobile = world.fetch_mobile(uuid);
    proof {
        old(world)@.lemma_without_mobile_wf(uuid);
        assert(old(world)@.locations[old(world)@.index[uuid]].wf());
    }
    match (mobile, position) {
        (Some(mobile), Some(position)) => (mobile, position),
        _ => vstd::pervasive::unreached(),
    }
}

/// What getting an item does: the answer, and the world afterwards. The
/// first item at the actor's position that the key stands for is picked up,
/// with its experience, when the actor has room for it; without room it is
/// put down again.
pub open spec fn got(world: WorldView, uuid: u128, target: Seq<char>) -> (Seq<char>, WorldView) {
    let p = world.index[uuid];
    let m = world.mobile(uuid);
    let held = world.without_mobile(uuid);
    match held.locations[p].item_named(target) {
        Some(pos) => {
            let item = held.locations[p].items[pos];
            let taken = held.without_item(p.0, p.1, pos);
            if m.has_room_for(item) && m.can_add(item, true) {
                ("Got it!"@, taken.with_mobile(m.with_item(item, true), p.0, p.1))
            } else {
                (
                    "You don't have space for that!"@,
                    taken.with_item(p.0, p.1, item).with_mobile(m, p.0, p.1),
                )
            }
        },
        None => ("Get what?"@, held.with_mobile(m, p.0, p.1)),
    }
}

/// The rank of the skill that a word names for practice.
pub open spec fn practice_rank(m: MobileView, skill: Seq<char>) -> Option<int> {
    if skill == "combat"@ {
        Some(m.combat as int)
    } else if skill == "steal"@ {
        Some(m.steal as int)
    } else if skill == "perception"@ {
        Some(m.perception as int)
    } else if skill == "knowledge"@ {
        Some(m.knowledge as int)
    } else if skill == "leatherwork"@ {
        Some(m.leatherwork as int)
    } else {
        None
    }
}

/// The mobile one rank better at the skill that a word names, and poorer by
/// the price of that rank.
pub open spec fn raised(m: MobileView, skill: Seq<char>) -> MobileView {
    if skill == "combat"@ {
        MobileView { combat: (m.combat + 1) as i16, ..m.paid(m.combat as int) }
    } else if skill == "steal"@ {
        MobileView { steal: (m.steal + 1) as i16, ..m.paid(m.steal as int) }
    } else if skill == "perception"@ {
        MobileView { perception: (m.perception + 1) as i16, ..m.paid(m.perception as int) }
    } else if skill == "knowledge"@ {
        MobileView { knowledge: (m.knowledge + 1) as i16, ..m.paid(m.knowledge as int) }
    } else if skill == "leatherwork"@ {
        MobileView { leatherwork: (m.leatherwork + 1) as i16, ..m.paid(m.leatherwork as int) }
    } else {
        m
    }
}

/// What practising a skill does: the answer, and the world afterwards. A
/// skill that can be practised goes up by a rank when the actor can pay for
/// it and the rank fits the machine integer.
pub open spec fn practiced(world: WorldView, uuid: u128, skill: Seq<char>) -> (
    Seq<char>,
    WorldView,
) {
    let p = world.index[uuid];
    let m = world.mobile(uuid);
    let held = world.without_mobile(uuid);
    match practice_rank(m, skill) {
        Some(rank) => if rank < i16::MAX && m.xp_cost(rank) > 0 {
            (
                "You have improved at "@ + skill + "!"@,
                held.with_mobile(raised(m, skill), p.0, p.1),
            )
        } else {
            ("Not enough xp!"@, held.with_mobile(m, p.0, p.1))
        },
        None => ("Practice what?"@, held.with_mobile(m, p.0, p.1)),
    }
}

/// What dropping an item does: the answer, and the world afterwards. The
/// first carried item whose lower-cased name holds the key is let go. In a
/// town a collector takes what only gives its experience there, and the
/// actor has the experience; anything else is put down.
pub open spec fn dropped(world: WorldView, uuid: u128, target: Seq<char>) -> (Seq<char>, WorldView) {
    let p = world.index[uuid];
    let m = world.mobile(uuid);
    let held = world.without_mobile(uuid);
    match m.find_item(target, m.inventory.len() as int) {
        Some(i) => if m.can_release(i) {
            let item = m.released_item(i);
            let rest = m.without_item(i);
            if item.xp_in_town_only && type_at(held.locations, p.0 as int, p.1 as int)
                == LocationTypeCode::Town && rest.xp + item.xp_value <= i16::MAX && rest.xp
                + item.xp_value >= i16::MIN {
                (
                    "A collector eagerly accepts the "@ + item.name + "!"@,
                    held.with_mobile(
                        MobileView { xp: (rest.xp + item.xp_value) as i16, ..rest },
                        p.0,
                        p.1,
                    ),
                )
            } else {
                ("Dropped it!"@, held.with_item(p.0, p.1, item).with_mobile(rest, p.0, p.1))
            }
        } else {
            ("Drop what?"@, held.with_mobile(m, p.0, p.1))
        },
        None => ("Drop what?"@, held.with_mobile(m, p.0, p.1)),
    }
}

/// Whether `(response, world_after)` is what eating can give. The first
/// carried item whose lower-cased name holds the key is eaten when it can
/// be; what cannot be eaten goes back to the end of the inventory.
pub open spec fn ate(
    world: WorldView,
    uuid: u128,
    target: Seq<char>,
    response: Seq<char>,
    world_after: WorldView,
) -> bool {
    let p = world.index[uuid];
    let m = world.mobile(uuid);
    let held = world.without_mobile(uuid);
    match m.find_item(target, m.inventory.len() as int) {
        Some(i) => if m.can_release(i) && m.damage - m.released_item(i).most_healing()
            >= i16::MIN {
            let item = m.released_item(i);
            let rest = m.without_item(i);
            if item.edible() {
                &&& response == "You eat the "@ + item.name
                &&& exists|roll: int|
                    2 <= roll <= 8 && world_after == held.with_mobile(
                        rest.healed(#[trigger] item.healing(roll)),
                        p.0,
                        p.1,
                    )
            } else {
                &&& response == "You cannot eat that!"@
                &&& world_after == held.with_mobile(rest.with_item(item, false), p.0, p.1)
            }
        } else {
            response == "You cannot eat that!"@ && world_after == held.with_mobile(m, p.0, p.1)
        },
        None => response == "Eat what?"@ && world_after == held.with_mobile(m, p.0, p.1),
    }
}

/// What looking at something does: the answer, and the world afterwards. A
/// mobile at the actor's position that the key stands for is described with
/// what it carries; else an item there that the key stands for is described,
/// and lies last in the location afterwards.
pub open spec fn looked_at(world: WorldView, uuid: u128, target: Seq<char>) -> (
    Seq<char>,
    WorldView,
) {
    let p = world.index[uuid];
    let here = world.locations[p];
    match here.mobile_named(target) {
        Some(id) => (
            here.mobiles[id].description + "\nCarrying:\n"@ + listing(here.mobiles[id].inventory),
            world,
        ),
        None => match here.item_named(target) {
            Some(pos) => (
                here.items[pos].description,
                world.without_item(p.0, p.1, pos).with_item(p.0, p.1, here.items[pos]),
            ),
            None => ("Look at what?"@, world),
        },
    }
}

/// What a scholar learns of something that is as rare as `frequency`, the
/// hundred-sided die showing `face`: the full description when the roll of
/// intelligence and knowledge can be made and strictly exceeds the rarity.
pub open spec fn verdict(scholar: MobileView, frequency: int, full: Seq<char>, face: int) -> Seq<
    char,
> {
    if scholar.can_roll(scholar.intelligence as int, scholar.knowledge as int) && skill_total(
        scholar.intelligence as int,
        scholar.knowledge as int,
        scholar.luck as int,
        face,
    ) > frequency {
        full
    } else {
        "Perhaps you should study harder?"@
    }
}

/// Whether `(response, world_after)` is what asking for the numbers of
/// something can give. A mobile at the actor's position other than the
/// actor, or else an item there, that the key stands for is described in
/// full when the actor's roll of intelligence and knowledge strictly exceeds
/// how rare it is.
pub open spec fn studied(
    world: WorldView,
    uuid: u128,
    target: Seq<char>,
    response: Seq<char>,
    world_after: WorldView,
) -> bool {
    let p = world.index[uuid];
    let scholar = world.mobile(uuid);
    let held = world.without_mobile(uuid);
    let here = held.locations[p];
    match here.mobile_named(target) {
        Some(id) => world_after == held.with_mobile(scholar, p.0, p.1) && exists|face: int|
            1 <= face <= 100 && response == #[trigger] verdict(
                scholar,
                here.mobiles[id].frequency as int,
                here.mobiles[id].complete_description(),
                face,
            ),
        None => match here.item_named(target) {
            Some(pos) => world_after == held.without_item(p.0, p.1, pos).with_item(
                p.0,
                p.1,
                here.items[pos],
            ).with_mobile(scholar, p.0, p.1) && exists|face: int|
                1 <= face <= 100 && response == #[trigger] verdict(
                    scholar,
                    here.items[pos].frequency as int,
                    here.items[pos].complete_description(),
                    face,
                ),
            None => response == "Stat what?"@ && world_after == held.with_mobile(
                scholar,
                p.0,
                p.1,
            ),
        },
    }
}

/// Picks up an item at the actor's position.
pub fn get_item(uuid: u128, world: &mut WorldState, target: &String) -> (result: String)
    requires
        old(world)@.wf(),
        old(world)@.index.contains_key(uuid),
    ensures
        final(world)@.wf(),
        (result@, final(world)@) == got(old(world)@, uuid, target@),
{
    let (mut mobile, position) = checkout(uuid, world);
    let mut result = text("Got it!");
    let item = world.fetch_item_by_name(position.0, position.1, target);
    match item {
        Some(item) => {
            if mobile.has_room_for_item(&item) && mobile.can_add_item(&item, true) {
                mobile.add_item(item, true);
            } else {
                result = text("You don't have space for that!");
                world.add_item(position.0, position.1, item);
            }
        },
        None => {
            result = text("Get what?");
        },
    }
    world.add_mobile(mobile, position.0, position.1);
    result
}

/// Begins the making of an item: the event is enqueued.
pub fn make_item(uuid: u128, event_q: &mut EventList, target: &String) -> (result: String)
    ensures
        final(event_q)@.extends(old(event_q)@),
        target@ == "rawhide"@ ==> result@ == "You begin making rawhide"@ && final(event_q)@ == old(
            event_q,
        )@.with(seq![Event::MakeItem(MakeItemEvent { maker: uuid, item: ItemTypeCode::Rawhide })]),
        target@ != "rawhide"@ && target@ == "leatherarmor"@ ==> result@
            == "You begin making leather armor"@ && final(event_q)@ == old(event_q)@.with(
            seq![Event::MakeItem(MakeItemEvent { maker: uuid, item: ItemTypeCode::LeatherArmor })],
        ),
        target@ != "rawhide"@ && target@ != "leatherarmor"@ ==> result@ == "What is "@ + target@
            + "?"@ && final(event_q)@ == old(event_q)@,
{
    if is_word(target, "rawhide") {
        event_q.insert(Event::MakeItem(MakeItemEvent { maker: uuid, item: ItemTypeCode::Rawhide }));
        text("You begin making rawhide")
    } else if is_word(target, "leatherarmor") {
        event_q.insert(
            Event::MakeItem(MakeItemEvent { maker: uuid, item: ItemTypeCode::LeatherArmor }),
        );
        text("You begin making leather armor")
    } else {
        join3("What is ", target.as_str(), "?")
    }
}

/// Spends experience on a skill.
pub fn practice(uuid: u128, world: &mut WorldState, skill: &String) -> (result: String)
    requires
        old(world)@.wf(),
        old(world)@.index.contains_key(uuid),
    ensures
        final(world)@.wf(),
        (result@, final(world)@) == practiced(old(world)@, uuid, skill@),
{
    let mut found_skill = true;
    let mut success = false;
    let (mut mobile, position) = checkout(uuid, world);
    if is_word(skill, "combat") {
        if mobile.combat < i16::MAX {
            success = mobile.practice_combat();
        }
    } else if is_word(skill, "steal") {
        if mobile.steal < i16::MAX {
            success = mobile.practice_steal();
        }
    } else if is_word(skill, "perception") {
        if mobile.perception < i16::MAX {
            success = mobile.practice_perception();
        }
    } else if is_word(skill, "knowledge") {
        if mobile.knowledge < i16::MAX {
            success = mobile.practice_knowledge();
        }
    } else if is_word(skill, "leatherwork") {
        if mobile.leatherwork < i16::MAX {
            success = mobile.practice_leatherwork();
        }
    } else {
        found_skill = false;
    }
    world.add_mobile(mobile, position.0, position.1);
    if !found_skill {
        return text("Practice what?");
    } else if !success {
        return text("Not enough xp!");
    }
    join3("You have improved at ", skill.as_str(), "!")
}

/// Lets go of a carried item.
pub fn drop_item(uuid: u128, world: &mut WorldState, target: &String) -> (result: String)
    requires
        old(world)@.wf(),
        old(world)@.index.contains_key(uuid),
    ensures
        final(world)@.wf(),
        (result@, final(world)@) == dropped(old(world)@, uuid, target@),
{
    let mut result = text("Dropped it!");
    let (mut mobile, position) = checkout(uuid, world);
    let found = mobile.find_item_by_name(target);
    let releasable = match found {
        Some(i) => mobile.can_release_at(i),
        None => false,
    };
    if releasable {
        let item = mobile.fetch_item_by_name(target);
        match item {
            Some(item) => {
                let total: i32 = mobile.xp as i32 + item.xp_value as i32;
                if item.xp_in_town_only && world.get_location_type(position.0, position.1)
                    == LocationTypeCode::Town && total <= 32767 && total >= -32768 {
                    result = join3("A collector eagerly accepts the ", item.name.as_str(), "!");
                    mobile.xp += item.xp_value;
                } else {
                    world.add_item(position.0, position.1, item);
                }
            },
            None => {
                proof {
                    assert(false);
                }
            },
        }
    } else {
        result = text("Drop what?");
    }
    world.add_mobile(mobile, position.0, position.1);
    result
}

/// Eats a carried item.
pub fn eat_item(uuid: u128, world: &mut WorldState, target: &String) -> (result: String)
    requires
        old(world)@.wf(),
        old(world)@.index.contains_key(uuid),
    ensures
        final(world)@.wf(),
        ate(old(world)@, uuid, target@, result@, final(world)@),
{
    let (mut mobile, position) = checkout(uuid, world);
    let ghost m = mobile@;
    let found = mobile.find_item_by_name(target);
    let fit = match found {
        Some(i) => {
            assert(mobile@.inventory[i as int] == mobile.inventory[i as int]@);
            let healing: i32 = match mobile.inventory[i].type_code {
                ItemTypeCode::HealthyNutsAndSeeds => 1,
                ItemTypeCode::HealingPotion => 8,
                _ => 0,
            };
            mobile.can_release_at(i) && mobile.damage as i32 - healing >= -32768
        },
        None => true,
    };
    let result = if fit {
        mobile.eat_item_by_name(target)
    } else {
        text("You cannot eat that!")
    };
    proof {
        match m.find_item(target@, m.inventory.len() as int) {
            Some(i) => {
                if fit && m.released_item(i).edible() {
                    let item = m.released_item(i);
                    let rest = m.without_item(i);
                    let roll = choose|roll: int|
                        2 <= roll <= 8 && mobile@ == rest.healed(#[trigger] item.healing(roll));
                    assert(old(world)@.without_mobile(uuid).with_mobile(
                        rest.healed(item.healing(roll)),
                        position.0,
                        position.1,
                    ) == old(world)@.without_mobile(uuid).with_mobile(
                        mobile@,
                        position.0,
                        position.1,
                    ));
                }
            },
            None => {},
        }
    }
    world.add_mobile(mobile, position.0, position.1);
    result
}

/// Begins an attack on the mobile at the actor's position that the key
/// stands for, if there is one: the combat is enqueued.
pub fn kill(uuid: u128, world: &mut WorldState, event_q: &mut EventList, target: &String)
    requires
        old(world)@.wf(),
        old(world)@.index.contains_key(uuid),
    ensures
        final(world)@.wf(),
        final(world)@ == old(world)@,
        final(event_q)@.extends(old(event_q)@),
        final(event_q)@ == match old(world)@.locations[old(world)@.index[uuid]].mobile_named(
            target@,
        ) {
            Some(defender) => old(event_q)@.with(
                seq![Event::Combat(CombatEvent { attacker: uuid, defender })],
            ),
            None => old(event_q)@,
        },
{
    let position = world.find_mobile_location(uuid);
    match position {
        Some(position) => {
            let defender = world.get_mobile_id_by_name(position.0, position.1, target);
            match defender {
                Some(defender) => {
                    event_q.insert(Event::Combat(CombatEvent { attacker: uuid, defender: defender }));
                },
                _ => {},
            }
        },
        None => {},
    }
}

/// Begins an attempt to steal from the mobile at the actor's position that
/// the key stands for, if there is one: the attempt is enqueued.
pub fn steal(uuid: u128, world: &mut WorldState, event_q: &mut EventList, target: &String)
    requires
        old(world)@.wf(),
        old(world)@.index.contains_key(uuid),
    ensures
        final(world)@.wf(),
        final(world)@ == old(world)@,
        final(event_q)@.extends(old(event_q)@),
        final(event_q)@ == match old(world)@.locations[old(world)@.index[uuid]].mobile_named(
            target@,
        ) {
            Some(mark) => old(event_q)@.with(seq![Event::Steal(StealEvent { thief: uuid, mark })]),
            None => old(event_q)@,
        },
{
    let position = world.find_mobile_location(uuid);
    match position {
        Some(position) => {
            let mark = world.get_mobile_id_by_name(position.0, position.1, target);
            match mark {
                Some(mark) => {
                    event_q.insert(Event::Steal(StealEvent { thief: uuid, mark: mark }));
                },
                _ => {},
            }
        },
        None => {},
    }
}

/// Begins a step: the move is enqueued.
pub fn goto(uuid: u128, dx: i16, dy: i16, event_q: &mut EventList)
    ensures
        final(event_q)@.extends(old(event_q)@),
        final(event_q)@ == old(event_q)@.with(
            seq![Event::MoveMobile(MoveMobileEvent { uuid, dx, dy })],
        ),
{
    let move_event = Event::MoveMobile(MoveMobileEvent { uuid: uuid, dx: dx, dy: dy });
    event_q.insert(move_event);
}

/// Describes the mobile or the item at the actor's position that the key
/// stands for.
pub fn look_at(uuid: u128, world: &mut WorldState, target: &String) -> (result: String)
    requires
        old(world)@.wf(),
        old(world)@.index.contains_key(uuid),
    ensures
        final(world)@.wf(),
        (result@, final(world)@) == looked_at(old(world)@, uuid, target@),
{
    let position = match world.find_mobile_location(uuid) {
        Some(p) => p,
        None => vstd::pervasive::unreached(),
    };
    let mobile = world.fetch_mobile_by_name(position.0, position.1, target);
    match mobile {
        Some(mobile) => {
            proof {
                old(world)@.lemma_return_restores(mobile@.id);
                assert(old(world)@.locations[position].wf());
            }
            let mut description = mobile.description();
            description.append("\nCarrying:\n");
            description.append(mobile.list_inventory().as_str());
            world.add_mobile(mobile, position.0, position.1);
            return description;
        },
        None => {},
    }
    let item = world.fetch_item_by_name(position.0, position.1, target);
    match item {
        Some(item) => {
            let description = item.description();
            world.add_item(position.0, position.1, item);
            return description;
        },
        None => {},
    }
    text("Look at what?")
}

/// Describes what is seen at the actor's position.
pub fn look(uuid: u128, world: &mut WorldState) -> (result: String)
    requires
        old(world)@.wf(),
        old(world)@.index.contains_key(uuid),
    ensures
        *final(world) == *old(world),
        result@ == old(world)@.locations[old(world)@.index[uuid]].full_description(),
{
    let position = match world.find_mobile_location(uuid) {
        Some(p) => p,
        None => vstd::pervasive::unreached(),
    };
    world.get_location_description(position.0, position.1)
}

/// Lists what the actor carries.
pub fn show_inventory(uuid: u128, world: &mut WorldState) -> (result: String)
    requires
        old(world)@.wf(),
        old(world)@.index.contains_key(uuid),
    ensures
        final(world)@.wf(),
        final(world)@ == old(world)@,
        result@ == "You have:\n"@ + listing(old(world)@.mobile(uuid).inventory),
{
    let (mobile, position) = checkout(uuid, world);
    let inventory = mobile.list_inventory();
    proof {
        old(world)@.lemma_return_restores(uuid);
    }
    world.add_mobile(mobile, position.0, position.1);
    join("You have:\n", inventory.as_str())
}

/// Describes in full the mobile or the item at the actor's position that
/// the key stands for, if the actor knows enough.
pub fn show_stats_of(uuid: u128, world: &mut WorldState, target: &String) -> (result: String)
    requires
        old(world)@.wf(),
        old(world)@.index.contains_key(uuid),
    ensures
        final(world)@.wf(),
        studied(old(world)@, uuid, target@, result@, final(world)@),
{
    let (scholar, position) = checkout(uuid, world);
    let ghost held = world@;
    let can = scholar.can_roll_skill(scholar.intelligence, scholar.knowledge);
    let mobile = world.fetch_mobile_by_name(position.0, position.1, target);
    match mobile {
        Some(mobile) => {
            let ghost id = held.locations[position].mobile_named(target@)->0;
            proof {
                assert(held.locations[position].wf());
                assert(mobile@ == held.mobile(id));
                assert(mobile@.id == id);
                held.lemma_return_restores(id);
                held.lemma_without_mobile_wf(id);
            }
            let mut success = false;
            let ghost mut face: int = 1;
            if can {
                let total = scholar.roll_knowledge();
                proof {
                    face = choose|face: int|
                        1 <= face <= 100 && total == #[trigger] skill_total(
                            scholar@.intelligence as int,
                            scholar@.knowledge as int,
                            scholar@.luck as int,
                            face,
                        );
                }
                success = total > mobile.frequency;
            }
            let description = if !success {
                text("Perhaps you should study harder?")
            } else {
                mobile.complete_description()
            };
            proof {
                assert(description@ == verdict(
                    scholar@,
                    mobile@.frequency as int,
                    mobile@.complete_description(),
                    face,
                ));
            }
            world.add_mobile(mobile, position.0, position.1);
            proof {
                assert(world@ == held);
            }
            world.add_mobile(scholar, position.0, position.1);
            proof {
                assert(world@ == held.with_mobile(scholar@, position.0, position.1));
                assert(1 <= face <= 100);
                assert(held.locations[position].mobiles[id] == mobile@);
            }
            return description;
        },
        None => {},
    }
    let item = world.fetch_item_by_name(position.0, position.1, target);
    match item {
        Some(item) => {
            let mut success = false;
            let ghost mut face: int = 1;
            if can {
                let total = scholar.roll_knowledge();
                proof {
                    face = choose|face: int|
                        1 <= face <= 100 && total == #[trigger] skill_total(
                            scholar@.intelligence as int,
                            scholar@.knowledge as int,
                            scholar@.luck as int,
                            face,
                        );
                }
                success = total > item.frequency;
            }
            let description = if !success {
                text("Perhaps you should study harder?")
            } else {
                item.complete_description()
            };
            proof {
                assert(description@ == verdict(
                    scholar@,
                    item@.frequency as int,
                    item@.complete_description(),
                    face,
                ));
            }
            let ghost pos = held.locations[position].item_named(target@)->0;
            world.add_item(position.0, position.1, item);
            world.add_mobile(scholar, position.0, position.1);
            proof {
                assert(1 <= face <= 100);
                assert(held.locations[position].items[pos] == item@);
                assert(world@ == held.without_item(position.0, position.1, pos).with_item(
                    position.0,
                    position.1,
                    item@,
                ).with_mobile(scholar@, position.0, position.1));
            }
            return description;
        },
        None => {},
    }
    world.add_mobile(scholar, position.0, position.1);
    text("Stat what?")
}

/// Describes the actor in full.
pub fn show_stats(uuid: u128, world: &mut WorldState) -> (result: String)
    requires
        old(world)@.wf(),
        old(world)@.index.contains_key(uuid),
    ensures
        final(world)@.wf(),
        final(world)@ == old(world)@,
        result@ == old(world)@.mobile(uuid).complete_description(),
{
    let (mobile, position) = checkout(uuid, world);
    let result = mobile.complete_description();
    proof {
        old(world)@.lemma_return_restores(uuid);
    }
    world.add_mobile(mobile, position.0, position.1);
    result
}

/// The tokens of a command as sequences of characters.
pub open spec fn words(command: Seq<String>) -> Seq<Seq<char>> {
    command.map_values(|w: String| w@)
}

/// Whether the word is one of the commands that take a target.
pub open spec fn takes_target(action: Seq<char>) -> bool {
    action == "eat"@ || action == "look"@ || action == "kill"@ || action == "steal"@ || action
        == "get"@ || action == "drop"@ || action == "prac"@ || action == "stat"@ || action
        == "make"@
}

/// How many tokens a command uses up: the action, and the target of an
/// action that takes one.
pub open spec fn consumed(command: Seq<Seq<char>>) -> int {
    if command.len() == 0 {
        0
    } else if takes_target(command[0]) && command.len() > 1 {
        2
    } else {
        1
    }
}

/// Whether a command acts through the actor's mobile, which must then be on
/// the map.
pub open spec fn needs_actor(command: Seq<Seq<char>>) -> bool {
    command.len() > 0 && (command[0] == "look"@ || command[0] == "quit"@ || command[0] == "stat"@
        || command[0] == "i"@ || (command.len() > 1 && (command[0] == "eat"@ || command[0]
        == "kill"@ || command[0] == "steal"@ || command[0] == "get"@ || command[0] == "drop"@
        || command[0] == "prac"@)))
}

/// The world after the actor has left it for the holding area.
pub open spec fn quitted(world: WorldView, uuid: u128) -> WorldView {
    WorldView {
        stash: world.stash.insert(
            uuid,
            (world.mobile(uuid), world.index[uuid].0, world.index[uuid].1),
        ),
        ..world.without_mobile(uuid)
    }
}

/// The scheduler with a step of the actor enqueued.
pub open spec fn stepping(queue: EventListView, uuid: u128, dx: i16, dy: i16) -> EventListView {
    queue.with(seq![Event::MoveMobile(MoveMobileEvent { uuid, dx, dy })])
}

/// Whether `(response, world_after, queue_after)` is what a command can
/// give. The first token is the action and the second its target. The four
/// steps, an attack, a theft and a making are enqueued; everything else is
/// done at once.
pub open spec fn processed(
    command: Seq<Seq<char>>,
    uuid: u128,
    world: WorldView,
    queue: EventListView,
    response: Seq<char>,
    world_after: WorldView,
    queue_after: EventListView,
) -> bool {
    if command.len() == 0 {
        response == "What?"@ && world_after == world && queue_after == queue
    } else {
        let action = command[0];
        let target = if command.len() > 1 {
            Some(command[1])
        } else {
            None::<Seq<char>>
        };
        let silent = response == Seq::<char>::empty() && world_after == world;
        if action == "e"@ {
            silent && queue_after == stepping(queue, uuid, 1, 0)
        } else if action == "w"@ {
            silent && queue_after == stepping(queue, uuid, -1i16, 0)
        } else if action == "n"@ {
            silent && queue_after == stepping(queue, uuid, 0, 1)
        } else if action == "s"@ {
            silent && queue_after == stepping(queue, uuid, 0, -1i16)
        } else if action == "eat"@ {
            queue_after == queue && match target {
                Some(t) => ate(world, uuid, t, response, world_after),
                None => response == "Eat what?"@ && world_after == world,
            }
        } else if action == "look"@ {
            queue_after == queue && match target {
                Some(t) => (response, world_after) == looked_at(world, uuid, t),
                None => response == world.locations[world.index[uuid]].full_description()
                    && world_after == world,
            }
        } else if action == "kill"@ {
            world_after == world && match target {
                Some(t) => response == Seq::<char>::empty() && queue_after
                    == match world.locations[world.index[uuid]].mobile_named(t) {
                    Some(defender) => queue.with(
                        seq![Event::Combat(CombatEvent { attacker: uuid, defender })],
                    ),
                    None => queue,
                },
                None => response == "Kill what?"@ && queue_after == queue,
            }
        } else if action == "steal"@ {
            world_after == world && match target {
                Some(t) => response == Seq::<char>::empty() && queue_after
                    == match world.locations[world.index[uuid]].mobile_named(t) {
                    Some(mark) => queue.with(seq![Event::Steal(StealEvent { thief: uuid, mark })]),
                    None => queue,
                },
                None => response == "Steal from whom?"@ && queue_after == queue,
            }
        } else if action == "get"@ {
            queue_after == queue && match target {
                Some(t) => (response, world_after) == got(world, uuid, t),
                None => response == "Get what?"@ && world_after == world,
            }
        } else if action == "drop"@ {
            queue_after == queue && match target {
                Some(t) => (response, world_after) == dropped(world, uuid, t),
                None => response == "Drop what?"@ && world_after == world,
            }
        } else if action == "prac"@ {
            queue_after == queue && match target {
                Some(t) => (response, world_after) == practiced(world, uuid, t),
                None => response == "Practice what?"@ && world_after == world,
            }
        } else if action == "quit"@ {
            response == "Goodbye!"@ && world_after == quitted(world, uuid) && queue_after == queue
        } else if action == "stat"@ {
            queue_after == queue && match target {
                Some(t) => studied(world, uuid, t, response, world_after),
                None => response == world.mobile(uuid).complete_description() && world_after
                    == world,
            }
        } else if action == "i"@ {
            response == "You have:\n"@ + listing(world.mobile(uuid).inventory) && world_after
                == world && queue_after == queue
        } else if action == "make"@ {
            world_after == world && match target {
                Some(t) => if t == "rawhide"@ {
                    response == "You begin making rawhide"@ && queue_after == queue.with(
                        seq![
                            Event::MakeItem(
                                MakeItemEvent { maker: uuid, item: ItemTypeCode::Rawhide },
                            ),
                        ],
                    )
                } else if t == "leatherarmor"@ {
                    response == "You begin making leather armor"@ && queue_after == queue.with(
                        seq![
                            Event::MakeItem(
                                MakeItemEvent { maker: uuid, item: ItemTypeCode::LeatherArmor },
                            ),
                        ],
                    )
                } else {
                    response == "What is "@ + t + "?"@ && queue_after == queue
                },
                None => response == "Make what?"@ && queue_after == queue,
            }
        } else {
            response == "What?"@ && world_after == world && queue_after == queue
        }
    }
}

/// The length and the first letter of each word that names a command: no
/// two of the words agree in both.
proof fn lemma_command_words()
    ensures
        "e"@.len() == 1 && "e"@[0] == 'e',
        "w"@.len() == 1 && "w"@[0] == 'w',
        "n"@.len() == 1 && "n"@[0] == 'n',
        "s"@.len() == 1 && "s"@[0] == 's',
        "i"@.len() == 1 && "i"@[0] == 'i',
        "eat"@.len() == 3 && "eat"@[0] == 'e',
        "look"@.len() == 4 && "look"@[0] == 'l',
        "kill"@.len() == 4 && "kill"@[0] == 'k',
        "steal"@.len() == 5 && "steal"@[0] == 's',
        "get"@.len() == 3 && "get"@[0] == 'g',
        "drop"@.len() == 4 && "drop"@[0] == 'd',
        "prac"@.len() == 4 && "prac"@[0] == 'p',
        "quit"@.len() == 4 && "quit"@[0] == 'q',
        "stat"@.len() == 4 && "stat"@[0] == 's',
        "make"@.len() == 4 && "make"@[0] == 'm',
{
    reveal_strlit("e");
    reveal_strlit("w");
    reveal_strlit("n");
    reveal_strlit("s");
    reveal_strlit("i");
    reveal_strlit("eat");
    reveal_strlit("look");
    reveal_strlit("kill");
    reveal_strlit("steal");
    reveal_strlit("get");
    reveal_strlit("drop");
    reveal_strlit("prac");
    reveal_strlit("quit");
    reveal_strlit("stat");
    reveal_strlit("make");
}

/// Takes the next token of a command, if there is one.
fn next_word(command: &mut VecDeque<String>) -> (word: Option<String>)
    ensures
        old(command)@.len() == 0 ==> word is None && final(command)@ == old(command)@,
        old(command)@.len() > 0 ==> word is Some && word->0@ == words(old(command)@)[0]
            && words(final(command)@) == words(old(command)@).skip(1),
{
    let word = command.pop_front();
    proof {
        if old(command)@.len() > 0 {
            assert(words(command@) =~= words(old(command)@).skip(1));
        }
    }
    word
}

/// Carries out one command of the actor known as `uuid`. The tokens that
/// the command is made of are taken off the front of `command`.
pub fn process_command(
    command: &mut VecDeque<String>,
    uuid: u128,
    world: &mut WorldState,
    event_q: &mut EventList,
) -> (result: String)
    requires
        old(world)@.wf(),
        needs_actor(words(old(command)@)) ==> old(world)@.index.contains_key(uuid),
    ensures
        final(world)@.wf(),
        final(event_q)@.extends(old(event_q)@),
        words(final(command)@) == words(old(command)@).skip(consumed(words(old(command)@))),
        processed(
            words(old(command)@),
            uuid,
            old(world)@,
            old(event_q)@,
            result@,
            final(world)@,
            final(event_q)@,
        ),
{
    let ghost all = words(command@);
    proof {
        lemma_command_words();
    }
    let action = match next_word(command) {
        Some(action) => action,
        None => {
            proof {
                assert(all.skip(0) =~= all);
            }
            return text("What?");
        },
    };
    if is_word(&action, "e") {
        goto(uuid, 1, 0, event_q);
        return String::new();
    } else if is_word(&action, "w") {
        goto(uuid, -1, 0, event_q);
        return String::new();
    } else if is_word(&action, "n") {
        goto(uuid, 0, 1, event_q);
        return String::new();
    } else if is_word(&action, "s") {
        goto(uuid, 0, -1, event_q);
        return String::new();
    }
    if is_word(&action, "quit") {
        world.stash_mobile(uuid);
        return text("Goodbye!");
    } else if is_word(&action, "i") {
        return show_inventory(uuid, world);
    }
    let known = is_word(&action, "eat") || is_word(&action, "look") || is_word(&action, "kill")
        || is_word(&action, "steal") || is_word(&action, "get") || is_word(&action, "drop")
        || is_word(&action, "prac") || is_word(&action, "stat") || is_word(&action, "make");
    if !known {
        return text("What?");
    }
    let target = next_word(command);
    proof {
        if all.len() > 1 {
            assert(all.skip(1).skip(1) =~= all.skip(2));
            assert(all.skip(1)[0] == all[1]);
        }
    }
    if is_word(&action, "eat") {
        match target {
            Some(target) => eat_item(uuid, world, &target),
            None => text("Eat what?"),
        }
    } else if is_word(&action, "look") {
        match target {
            Some(target) => look_at(uuid, world, &target),
            None => look(uuid, world),
        }
    } else if is_word(&action, "kill") {
        match target {
            Some(target) => {
                kill(uuid, world, event_q, &target);
                String::new()
            },
            None => text("Kill what?"),
        }
    } else if is_word(&action, "steal") {
        match target {
            Some(target) => {
                steal(uuid, world, event_q, &target);
                String::new()
            },
            None => text("Steal from whom?"),
        }
    } else if is_word(&action, "get") {
        match target {
            Some(target) => get_item(uuid, world, &target),
            None => text("Get what?"),
        }
    } else if is_word(&action, "drop") {
        match target {
            Some(target) => drop_item(uuid, world, &target),
            None => text("Drop what?"),
        }
    } else if is_word(&action, "prac") {
        match target {
            Some(target) => practice(uuid, world, &target),
            None => text("Practice what?"),
        }
    } else if is_word(&action, "stat") {
        match target {
            Some(target) => show_stats_of(uuid, world, &target),
            None => show_stats(uuid, world),
        }
    } else {
        match target {
            Some(target) => make_item(uuid, event_q, &target),
            None => text("Make what?"),
        }
    }
}

/// Enqueues the events that keep the world going: the one that lets
/// monsters wander in, and the one that lets time pass. Each enqueues itself
/// again whenever it is run.
pub fn start_background_events(event_q: &mut EventList)
    ensures
        final(event_q)@ == old(event_q)@.with(
            seq![
                Event::WanderingMonster(WanderingMonsterEvent {  }),
                Event::Age(AgeEvent {  }),
            ],
        ),
{
    event_q.insert(Event::WanderingMonster(WanderingMonsterEvent::new()));
    event_q.insert(Event::Age(AgeEvent::new()));
    proof {
        assert(event_q@.accepting =~= old(event_q)@.accepting + seq![
            Event::WanderingMonster(WanderingMonsterEvent {  }),
            Event::Age(AgeEvent {  }),
        ]);
    }
}

} // verus!
