use crate::events::{Event, EventList, EventListView, MakeItemEvent};
use crate::items::{Item, ItemTypeCode, ItemView};
use crate::message::MessageView;
use crate::mobile::{roll_fits, skill_total, Mobile, MobileView};
use crate::text::{decimal, decimal_text, join, text};
use crate::world::{WorldState, WorldView};
use vstd::prelude::*;
use vstd::string::*;

verus! {

/// The change of luck that carrying an item of a type brings, as a number
/// of the machine.
fn luck_bonus_of(type_code: ItemTypeCode) -> (bonus: i16)
    ensures
        bonus == (ItemView { type_code, ..ItemView::rabbit_foot() }).luck_bonus(),
{
    match type_code {
        ItemTypeCode::ShrunkenHead => -1,
        ItemTypeCode::DwarfBeard => -1,
        ItemTypeCode::RabbitFoot => 1,
        ItemTypeCode::GreenPenny => 1,
        _ => 0,
    }
}

/// Whether the material of a recipe can be spent and the roll for the skill
/// then made within the machine integers. Without the material there is
/// nothing to spend and no roll.
pub open spec fn material_fit(maker: MobileView, material: Seq<char>, skill: int) -> bool {
    match maker.find_item(material, maker.inventory.len() as int) {
        Some(i) => maker.can_release(i) && maker.without_item(i).can_roll(
            maker.intelligence as int,
            skill,
        ),
        None => true,
    }
}

/// The world after an attempt at making something at `p` has come out: a
/// success is announced and the product put down there, a failure is only
/// announced.
pub open spec fn concluded(
    world: WorldView,
    maker_name: Seq<char>,
    p: (i16, i16),
    succeeded: bool,
    success: Seq<char>,
    product: ItemView,
    failure: Seq<char>,
) -> WorldView {
    if succeeded {
        world.with_log(
            world.messages.with(
                MessageView::public(maker_name + success, p.0, p.1, world.messages.now),
            ),
        ).with_item(p.0, p.1, product)
    } else {
        world.with_log(
            world.messages.with(
                MessageView::public(maker_name + failure, p.0, p.1, world.messages.now),
            ),
        )
    }
}

/// The world and the maker after a recipe that spends a material: the first
/// carried item whose lower-cased name holds `material` is spent, and the
/// attempt succeeds when the roll of intelligence and `skill`, with the die
/// showing `face`, strictly exceeds the difficulty. Without the material
/// nothing happens.
pub open spec fn made_from(
    world: WorldView,
    maker: MobileView,
    p: (i16, i16),
    material: Seq<char>,
    skill: int,
    difficulty: int,
    face: int,
    success: Seq<char>,
    product: ItemView,
    failure: Seq<char>,
) -> (WorldView, MobileView) {
    match maker.find_item(material, maker.inventory.len() as int) {
        Some(i) => {
            let spent = maker.without_item(i);
            (
                concluded(
                    world,
                    spent.name_with_article,
                    p,
                    skill_total(spent.intelligence as int, skill, spent.luck as int, face)
                        > difficulty,
                    success,
                    product,
                    failure,
                ),
                spent,
            )
        },
        None => (world, maker),
    }
}

/// One corpse made into rawhide, or not: the first carried item whose
/// lower-cased name holds "corpse" is spent, and when the roll of
/// intelligence and the better crafting skill, with the die showing `face`,
/// strictly exceeds the difficulty of a routine task and the maker can carry
/// it, a piece of rawhide joins the inventory. `None` when there is no
/// corpse, or when the corpse cannot be spent or the roll not made within
/// the machine integers.
pub open spec fn tan_step(maker: MobileView, face: int) -> Option<(MobileView, bool)> {
    match maker.find_item("corpse"@, maker.inventory.len() as int) {
        Some(i) => if maker.can_release(i) && maker.without_item(i).can_roll(
            maker.intelligence as int,
            maker.best_craft(),
        ) {
            let spent = maker.without_item(i);
            if skill_total(
                spent.intelligence as int,
                spent.best_craft(),
                spent.luck as int,
                face,
            ) > 75 && spent.can_add(ItemView::rawhide(), false) {
                Some((spent.with_item(ItemView::rawhide(), false), true))
            } else {
                Some((spent, false))
            }
        } else {
            None
        },
        None => None,
    }
}

/// The maker and the number of pieces made after one corpse after the other
/// was made into rawhide, the die showing the given faces in turn. `None`
/// when there were not as many corpses to spend.
pub open spec fn tanned(maker: MobileView, faces: Seq<int>) -> Option<(MobileView, nat)>
    decreases faces.len(),
{
    if faces.len() == 0 {
        Some((maker, 0nat))
    } else {
        match tanned(maker, faces.drop_last()) {
            Some((m, made)) => match tan_step(m, faces.last()) {
                Some((m2, gained)) => Some(
                    (
                        m2,
                        if gained {
                            made + 1
                        } else {
                            made
                        },
                    ),
                ),
                None => None,
            },
            None => None,
        }
    }
}

/// With the die showing the given faces in turn, as many corpses are spent
/// and leave the maker as `maker_after` with `pieces` pieces of rawhide made.
pub open spec fn tans_to(
    maker: MobileView,
    faces: Seq<int>,
    maker_after: MobileView,
    pieces: nat,
) -> bool {
    tanned(maker, faces) == Some((maker_after, pieces))
}

/// Whether `(world_after, maker_after)` is what making rawhide can give:
/// one corpse after the other is spent, for some faces of the die, until
/// there is none left that can be or as many were spent as the maker
/// carried items, and the number of pieces made is announced.
pub open spec fn tanned_all(
    world: WorldView,
    maker: MobileView,
    p: (i16, i16),
    world_after: WorldView,
    maker_after: MobileView,
) -> bool {
    exists|faces: Seq<int>, pieces: nat|
        all_faces(faces) && faces.len() <= maker.inventory.len() && (faces.len()
            == maker.inventory.len() || tan_step(maker_after, 1) is None) && #[trigger] tans_to(
            maker,
            faces,
            maker_after,
            pieces,
        ) && world_after == world.with_log(
            world.messages.with(
                MessageView::public(
                    maker_after.name_with_article + " makes "@ + decimal(pieces as int)
                        + " pieces of rawhide!"@,
                    p.0,
                    p.1,
                    world.messages.now,
                ),
            ),
        )
}

/// Every face is one of a hundred-sided die.
pub open spec fn all_faces(faces: Seq<int>) -> bool {
    forall|k: int| 0 <= k < faces.len() ==> 1 <= #[trigger] faces[k] <= 100
}

impl MakeItemEvent {
    /// Whether the recipe can be followed within the machine integers: the
    /// maker can use an action, and what the recipe spends can be spent and
    /// its roll made.
    pub open spec fn fit_to_make(self, maker: MobileView) -> bool {
        &&& maker.actions_used < i16::MAX
        &&& match self.item {
            ItemTypeCode::HideArmor => material_fit(maker, "corpse"@, maker.best_craft()),
            ItemTypeCode::LeatherArmor => material_fit(
                maker,
                "rawhide"@,
                maker.leatherwork as int,
            ),
            ItemTypeCode::PointedStick => maker.can_roll(
                maker.intelligence as int,
                maker.woodcraft as int,
            ),
            _ => true,
        }
    }

    /// `(world_after, maker_after)` is what following the recipe can give
    /// when the maker `maker` is checked out of `world` at `p`.
    pub open spec fn followed(
        self,
        world: WorldView,
        maker: MobileView,
        p: (i16, i16),
        world_after: WorldView,
        maker_after: MobileView,
    ) -> bool {
        match self.item {
            ItemTypeCode::HideArmor => exists|face: int|
                1 <= face <= 100 && (world_after, maker_after) == #[trigger] made_from(
                    world,
                    maker,
                    p,
                    "corpse"@,
                    maker.best_craft(),
                    75,
                    face,
                    " makes some hide armor"@,
                    ItemView::hide_armor(),
                    " ruins a corpse"@,
                ),
            ItemTypeCode::LeatherArmor => exists|face: int|
                1 <= face <= 100 && (world_after, maker_after) == #[trigger] made_from(
                    world,
                    maker,
                    p,
                    "rawhide"@,
                    maker.leatherwork as int,
                    100,
                    face,
                    " makes some leather armor"@,
                    ItemView::leather_armor(),
                    " ruins some rawhide"@,
                ),
            ItemTypeCode::Rawhide => tanned_all(world, maker, p, world_after, maker_after),
            ItemTypeCode::PointedStick => exists|face: int|
                1 <= face <= 100 && maker_after == maker && world_after == concluded(
                    world,
                    maker.name_with_article,
                    p,
                    #[trigger] skill_total(
                        maker.intelligence as int,
                        maker.woodcraft as int,
                        maker.luck as int,
                        face,
                    ) > 50,
                    " sharpens a stick"@,
                    ItemView::pointed_stick(),
                    " ruins a stick"@,
                ),
            _ => world_after == world && maker_after == maker,
        }
    }

    /// What the event does.
    ///
    /// Without the maker on the map nothing happens, and a maker that cannot
    /// follow the recipe within the machine integers is left alone. A maker
    /// without an action waits: the event is enqueued again. Any other maker
    /// uses an action and follows the recipe, and returns to where it was.
    pub open spec fn stepped(
        self,
        world: WorldView,
        queue: EventListView,
        world_after: WorldView,
        queue_after: EventListView,
    ) -> bool {
        if !world.index.contains_key(self.maker) {
            world_after == world && queue_after == queue
        } else {
            let p = world.index[self.maker];
            let maker = world.mobile(self.maker);
            let held = world.without_mobile(self.maker);
            if !self.fit_to_make(maker) {
                world_after == held.with_mobile(maker, p.0, p.1) && queue_after == queue
            } else if !maker.has_action() {
                world_after == held.with_mobile(maker.acted(), p.0, p.1) && queue_after
                    == queue.with(seq![Event::MakeItem(self)])
            } else {
                queue_after == queue && exists|made: WorldView, maker_after: MobileView|
                    #[trigger] self.followed(held, maker.acted(), p, made, maker_after)
                        && world_after == made.with_mobile(maker_after, p.0, p.1)
            }
        }
    }

    /// Decides whether the material of a recipe can be spent and the roll
    /// for the skill then made within the machine integers.
    fn material_is_fit(mobile: &Mobile, material: &str, skill: i16) -> (ok: bool)
        ensures
            ok == material_fit(mobile@, material@, skill as int),
    {
        match mobile.find_item_by_name(&text(material)) {
            Some(i) => {
                if !mobile.can_release_at(i) {
                    return false;
                }
                assert(mobile@.inventory[i as int] == mobile.inventory[i as int]@);
                let bonus = luck_bonus_of(mobile.inventory[i].type_code);
                let luck: i16 = (mobile.luck as i32 - bonus as i32) as i16;
                Mobile::roll_in_range(mobile.intelligence, skill, luck)
            },
            None => true,
        }
    }

    /// Decides whether the recipe can be followed within the machine
    /// integers.
    pub fn can_make(&self, mobile: &Mobile) -> (ok: bool)
        ensures
            ok == self.fit_to_make(mobile@),
    {
        if mobile.actions_used == i16::MAX {
            return false;
        }
        let best = if mobile.leatherwork >= mobile.woodcraft {
            mobile.leatherwork
        } else {
            mobile.woodcraft
        };
        match self.item {
            ItemTypeCode::HideArmor => MakeItemEvent::material_is_fit(mobile, "corpse", best),
            ItemTypeCode::LeatherArmor => MakeItemEvent::material_is_fit(
                mobile,
                "rawhide",
                mobile.leatherwork,
            ),
            ItemTypeCode::PointedStick => mobile.can_roll_skill(
                mobile.intelligence,
                mobile.woodcraft,
            ),
            _ => true,
        }
    }

    /// Announces how an attempt at making something at `(x, y)` came out,
    /// and puts the product down there after a success: the attempt
    /// succeeds when the roll strictly exceeds the difficulty.
    pub fn conclude(
        world: &mut WorldState,
        maker_name: &str,
        x: i16,
        y: i16,
        total: i16,
        difficulty: i16,
        success: &str,
        product: Box<Item>,
        failure: &str,
    )
        requires
            old(world)@.wf(),
            old(world)@.locations.contains_key((x, y)),
        ensures
            final(world)@.wf(),
            final(world)@ == concluded(
                old(world)@,
                maker_name@,
                (x, y),
                total > difficulty,
                success@,
                product@,
                failure@,
            ),
    {
        if total > difficulty {
            world.message_list.broadcast(join(maker_name, success), x, y);
            proof {
                old(world)@.lemma_frame_wf(world@);
            }
            world.add_item(x, y, product);
        } else {
            world.message_list.broadcast(join(maker_name, failure), x, y);
            proof {
                old(world)@.lemma_frame_wf(world@);
            }
        }
    }

    /// Makes hide armor out of a corpse.
    pub fn make_hide_armor(
        &self,
        mobile: &mut Box<Mobile>,
        position: (i16, i16),
        world: &mut WorldState,
    )
        requires
            old(world)@.wf(),
            old(world)@.locations.contains_key(position),
            material_fit(old(mobile)@, "corpse"@, old(mobile)@.best_craft()),
        ensures
            final(world)@.wf(),
            final(mobile)@.id == old(mobile)@.id,
            exists|face: int|
                1 <= face <= 100 && (final(world)@, final(mobile)@) == #[trigger] made_from(
                    old(world)@,
                    old(mobile)@,
                    position,
                    "corpse"@,
                    old(mobile)@.best_craft(),
                    75,
                    face,
                    " makes some hide armor"@,
                    ItemView::hide_armor(),
                    " ruins a corpse"@,
                ),
    {
        let corpse = mobile.fetch_item_by_name(&text("corpse"));
        if corpse.is_some() {
            let total = mobile.roll_leatherwork_or_woodcraft();
            let ghost face = choose|face: int|
                1 <= face <= 100 && total == #[trigger] skill_total(
                    mobile@.intelligence as int,
                    mobile@.best_craft(),
                    mobile@.luck as int,
                    face,
                );
            MakeItemEvent::conclude(
                world,
                mobile.name_with_article.as_str(),
                position.0,
                position.1,
                total,
                Mobile::routine_task(),
                " makes some hide armor",
                Item::hide_armor(),
                " ruins a corpse",
            );
            proof {
                assert((world@, mobile@) == made_from(
                    old(world)@,
                    old(mobile)@,
                    position,
                    "corpse"@,
                    old(mobile)@.best_craft(),
                    75,
                    face,
                    " makes some hide armor"@,
                    ItemView::hide_armor(),
                    " ruins a corpse"@,
                ));
            }
        } else {
            proof {
                assert((world@, mobile@) == made_from(
                    old(world)@,
                    old(mobile)@,
                    position,
                    "corpse"@,
                    old(mobile)@.best_craft(),
                    75,
                    1,
                    " makes some hide armor"@,
                    ItemView::hide_armor(),
                    " ruins a corpse"@,
                ));
            }
        }
    }

    /// Makes every corpse carried into rawhide, one after the other, and
    /// announces how many pieces were made.
    pub fn make_rawhide(
        &self,
        mobile: &mut Box<Mobile>,
        position: (i16, i16),
        world: &mut WorldState,
    )
        requires
            old(world)@.wf(),
        ensures
            final(world)@.wf(),
            final(mobile)@.id == old(mobile)@.id,
            tanned_all(old(world)@, old(mobile)@, position, final(world)@, final(mobile)@),
    {
        let mut successes: usize = 0;
        let fuel = mobile.inventory.len();
        let mut used: usize = 0;
        let ghost mut faces: Seq<int> = Seq::empty();
        let best = if mobile.leatherwork >= mobile.woodcraft {
            mobile.leatherwork
        } else {
            mobile.woodcraft
        };
        while used < fuel
            invariant
                used <= fuel,
                fuel == old(mobile)@.inventory.len(),
                faces.len() == used,
                all_faces(faces),
                successes <= used,
                tanned(old(mobile)@, faces) == Some((mobile@, successes as nat)),
                best == mobile@.best_craft(),
                mobile@.id == old(mobile)@.id,
                *world == *old(world),
            ensures
                mobile@.id == old(mobile)@.id,
                used <= fuel,
                faces.len() == used,
                all_faces(faces),
                tanned(old(mobile)@, faces) == Some((mobile@, successes as nat)),
                used == fuel || tan_step(mobile@, 1) is None,
                *world == *old(world),
            decreases fuel - used,
        {
            let ghost before = mobile@;
            if !MakeItemEvent::material_is_fit(mobile, "corpse", best) {
                break ;
            }
            let corpse = mobile.fetch_item_by_name(&text("corpse"));
            if corpse.is_none() {
                break ;
            }
            let total = mobile.roll_leatherwork_or_woodcraft();
            let ghost face = choose|face: int|
                1 <= face <= 100 && total == #[trigger] skill_total(
                    mobile@.intelligence as int,
                    mobile@.best_craft(),
                    mobile@.luck as int,
                    face,
                );
            let mut gained = false;
            if total > Mobile::routine_task() {
                let rawhide = Item::rawhide();
                if mobile.can_add_item(&rawhide, false) {
                    successes += 1;
                    mobile.add_item(rawhide, false);
                    gained = true;
                }
            }
            proof {
                assert(tan_step(before, face) == Some((mobile@, gained)));
                let longer = faces.push(face);
                assert(longer.drop_last() =~= faces);
                assert(longer.last() == face);
                faces = longer;
            }
            used += 1;
        }
        let count = decimal_text(successes as i128);
        let mut msg = join(mobile.name_with_article.as_str(), " makes ");
        msg.append(count.as_str());
        msg.append(" pieces of rawhide!");
        world.message_list.broadcast(msg, position.0, position.1);
        proof {
            old(world)@.lemma_frame_wf(world@);
            assert(tans_to(old(mobile)@, faces, mobile@, successes as nat));
        }
    }

    /// Makes leather armor out of rawhide.
    pub fn make_leather_armor(
        &self,
        mobile: &mut Box<Mobile>,
        position: (i16, i16),
        world: &mut WorldState,
    )
        requires
            old(world)@.wf(),
            old(world)@.locations.contains_key(position),
            material_fit(old(mobile)@, "rawhide"@, old(mobile)@.leatherwork as int),
        ensures
            final(world)@.wf(),
            final(mobile)@.id == old(mobile)@.id,
            exists|face: int|
                1 <= face <= 100 && (final(world)@, final(mobile)@) == #[trigger] made_from(
                    old(world)@,
                    old(mobile)@,
                    position,
                    "rawhide"@,
                    old(mobile)@.leatherwork as int,
                    100,
                    face,
                    " makes some leather armor"@,
                    ItemView::leather_armor(),
                    " ruins some rawhide"@,
                ),
    {
        let rawhide = mobile.fetch_item_by_name(&text("rawhide"));
        if rawhide.is_some() {
            let total = mobile.roll_leatherwork();
            let ghost face = choose|face: int|
                1 <= face <= 100 && total == #[trigger] skill_total(
                    mobile@.intelligence as int,
                    mobile@.leatherwork as int,
                    mobile@.luck as int,
                    face,
                );
            MakeItemEvent::conclude(
                world,
                mobile.name_with_article.as_str(),
                position.0,
                position.1,
                total,
                Mobile::skilled_task(),
                " makes some leather armor",
                Item::leather_armor(),
                " ruins some rawhide",
            );
            proof {
                assert((world@, mobile@) == made_from(
                    old(world)@,
                    old(mobile)@,
                    position,
                    "rawhide"@,
                    old(mobile)@.leatherwork as int,
                    100,
                    face,
                    " makes some leather armor"@,
                    ItemView::leather_armor(),
                    " ruins some rawhide"@,
                ));
            }
        } else {
            proof {
                assert((world@, mobile@) == made_from(
                    old(world)@,
                    old(mobile)@,
                    position,
                    "rawhide"@,
                    old(mobile)@.leatherwork as int,
                    100,
                    1,
                    " makes some leather armor"@,
                    ItemView::leather_armor(),
                    " ruins some rawhide"@,
                ));
            }
        }
    }

    /// Sharpens a stick.
    pub fn make_pointed_stick(
        &self,
        mobile: &mut Box<Mobile>,
        position: (i16, i16),
        world: &mut WorldState,
    )
        requires
            old(world)@.wf(),
            old(world)@.locations.contains_key(position),
            old(mobile)@.can_roll(old(mobile)@.intelligence as int, old(mobile)@.woodcraft as int),
        ensures
            final(world)@.wf(),
            *final(mobile) == *old(mobile),
            exists|face: int|
                1 <= face <= 100 && final(world)@ == concluded(
                    old(world)@,
                    old(mobile)@.name_with_article,
                    position,
                    #[trigger] skill_total(
                        old(mobile)@.intelligence as int,
                        old(mobile)@.woodcraft as int,
                        old(mobile)@.luck as int,
                        face,
                    ) > 50,
                    " sharpens a stick"@,
                    ItemView::pointed_stick(),
                    " ruins a stick"@,
                ),
    {
        let total = mobile.roll_woodcraft();
        let ghost face = choose|face: int|
            1 <= face <= 100 && total == #[trigger] skill_total(
                mobile@.intelligence as int,
                mobile@.woodcraft as int,
                mobile@.luck as int,
                face,
            );
        MakeItemEvent::conclude(
            world,
            mobile.name_with_article.as_str(),
            position.0,
            position.1,
            total,
            Mobile::easy_task(),
            " sharpens a stick",
            Item::pointed_stick(),
            " ruins a stick",
        );
        proof {
            assert(world@ == concluded(
                old(world)@,
                old(mobile)@.name_with_article,
                position,
                skill_total(
                    old(mobile)@.intelligence as int,
                    old(mobile)@.woodcraft as int,
                    old(mobile)@.luck as int,
                    face,
                ) > 50,
                " sharpens a stick"@,
                ItemView::pointed_stick(),
                " ruins a stick"@,
            ));
        }
    }

    /// Lets the maker follow the recipe.
    pub fn tick(&self, world: &mut WorldState, event_q: &mut EventList)
        requires
            old(world)@.wf(),
        ensures
            final(world)@.wf(),
            final(event_q)@.extends(old(event_q)@),
            self.stepped(old(world)@, old(event_q)@, final(world)@, final(event_q)@),
    {
        let position = match world.find_mobile_location(self.maker) {
            Some(p) => p,
            None => {
                return ;
            },
        };
        let fetched = world.fetch_mobile(self.maker);
        let mut mobile = match fetched {
            Some(m) => m,
            None => {
                return ;
            },
        };
        let ghost held = world@;
        let ghost maker = mobile@;
        proof {
            old(world)@.lemma_without_mobile_wf(self.maker);
            assert(old(world)@.locations[position].wf());
            assert(maker.id == self.maker);
            assert(held.locations.contains_key(position));
        }
        if !self.can_make(&mobile) {
            world.add_mobile(mobile, position.0, position.1);
            return ;
        }
        if !mobile.use_action() {
            event_q.insert(Event::MakeItem(*self));
        } else {
            match self.item {
                ItemTypeCode::HideArmor => {
                    self.make_hide_armor(&mut mobile, position, world);
                },
                ItemTypeCode::LeatherArmor => {
                    self.make_leather_armor(&mut mobile, position, world);
                },
                ItemTypeCode::Rawhide => {
                    self.make_rawhide(&mut mobile, position, world);
                },
                ItemTypeCode::PointedStick => {
                    self.make_pointed_stick(&mut mobile, position, world);
                },
                _ => {},
            }
            proof {
                assert(self.followed(held, maker.acted(), position, world@, mobile@));
                assert(mobile@.id == self.maker);
                assert(world@.index == held.index);
                assert(world@.locations.contains_key(position));
            }
        }
        world.add_mobile(mobile, position.0, position.1);
    }
}

} // verus!
