use crate::events::{CombatEvent, Event, EventList, EventListView, StealEvent};
use crate::items::{maybe_item_view, Item, ItemView};
use crate::message::{MessageListView, MessageView};
use crate::mobile::{skill_total, Mobile, MobileView};
use crate::object::Object;
use crate::text::{join, join3, text};
use crate::world::{WorldState, WorldView};
use vstd::prelude::*;
use vstd::string::*;

verus! {

/// Whether an attempt of `thief` on `mark` stays within the machine integers
/// whatever the dice show: the thief can use an action and roll for
/// stealing, and the mark can roll for perception and let go of any item.
pub open spec fn fit_to_steal(thief: MobileView, mark: MobileView) -> bool {
    &&& thief.actions_used < i16::MAX
    &&& thief.can_roll(thief.dexterity as int, thief.steal as int)
    &&& mark.can_roll(mark.wisdom as int, mark.perception as int)
    &&& mark.can_release_any()
}

/// The log, the thief and the mark after the thief has got hold of `item`,
/// or of nothing. A thief with room for the item keeps it, with its
/// experience; without room the item goes back to the mark; either way the
/// thief is told.
pub open spec fn handed(
    log: MessageListView,
    thief: MobileView,
    mark: MobileView,
    item: Option<ItemView>,
) -> (MessageListView, MobileView, MobileView) {
    match item {
        Some(item) => if thief.has_room_for(item) && thief.can_add(item, true) {
            (
                log.posted_for_target("You stole a "@ + item.name, thief.id),
                thief.with_item(item, true),
                mark,
            )
        } else {
            (
                log.posted_for_target("You don't have room for "@ + item.name + "!"@, thief.id),
                thief,
                mark.with_item(item, false),
            )
        },
        None => (log.posted_for_target("You come up empty handed!"@, thief.id), thief, mark),
    }
}

impl StealEvent {
    /// The world and the scheduler after an attempt of the thief `a` on the
    /// mark `b`, both checked out of `held` at `p`, when the hundred-sided
    /// dice show `a_face` for stealing and `b_face` for perception and the
    /// item at `pos` is the one got hold of.
    ///
    /// A thief without an action waits: the attempt is enqueued again. With
    /// one, the thief succeeds when its total is strictly the greater, and
    /// gets hold of an item if the mark carries any. A thief that fails is
    /// denounced, and the mark's attack on the thief is enqueued. Both
    /// return to `p`.
    pub open spec fn stolen(
        self,
        held: WorldView,
        queue: EventListView,
        a: MobileView,
        b: MobileView,
        p: (i16, i16),
        a_face: int,
        b_face: int,
        pos: int,
    ) -> (WorldView, EventListView) {
        let a1 = a.acted();
        let steal = skill_total(a.dexterity as int, a.steal as int, a.luck as int, a_face);
        let notice = skill_total(b.wisdom as int, b.perception as int, b.luck as int, b_face);
        if !a.has_action() {
            (
                held.with_mobile(a1, p.0, p.1).with_mobile(b, p.0, p.1),
                queue.with(seq![Event::Steal(self)]),
            )
        } else if steal > notice {
            let (log, a2, b2) = if b.inventory.len() == 0 {
                handed(held.messages, a1, b, None)
            } else {
                handed(held.messages, a1, b.without_item(pos), Some(b.released_item(pos)))
            };
            (held.with_log(log).with_mobile(a2, p.0, p.1).with_mobile(b2, p.0, p.1), queue)
        } else {
            (
                held.with_log(
                    held.messages.with(
                        MessageView::public(a.name + " is a thief!"@, p.0, p.1, held.messages.now),
                    ),
                ).with_mobile(a1, p.0, p.1).with_mobile(b, p.0, p.1),
                queue.with(
                    seq![
                        Event::Combat(CombatEvent { attacker: self.mark, defender: self.thief }),
                    ],
                ),
            )
        }
    }

    /// What the event does.
    ///
    /// Without the thief on the map nothing happens. Without the mark at the
    /// thief's position, and when the thief is its own mark, the thief is
    /// asked "Steal from who?". A pair for which the attempt cannot be made
    /// within the machine integers is left alone. For any other pair the
    /// attempt is made as `stolen` says, for some faces of the dice and some
    /// item of the mark.
    pub open spec fn stepped(
        self,
        world: WorldView,
        queue: EventListView,
        world_after: WorldView,
        queue_after: EventListView,
    ) -> bool {
        if !world.index.contains_key(self.thief) {
            world_after == world && queue_after == queue
        } else if !world.index.contains_key(self.mark) || world.index[self.mark]
            != world.index[self.thief] || self.mark == self.thief {
            world_after == world.with_log(
                world.messages.posted_for_target("Steal from who?"@, self.thief),
            ) && queue_after == queue
        } else {
            let p = world.index[self.thief];
            let a = world.mobile(self.thief);
            let b = world.mobile(self.mark);
            let held = world.without_mobile(self.thief).without_mobile(self.mark);
            if !fit_to_steal(a, b) {
                world_after == held.with_mobile(a, p.0, p.1).with_mobile(b, p.0, p.1)
                    && queue_after == queue
            } else {
                exists|a_face: int, b_face: int, pos: int|
                    1 <= a_face <= 100 && 1 <= b_face <= 100 && (b.inventory.len() > 0 ==> 0 <= pos
                        < b.inventory.len()) && (world_after, queue_after) == #[trigger] self.stolen(
                        held,
                        queue,
                        a,
                        b,
                        p,
                        a_face,
                        b_face,
                        pos,
                    )
            }
        }
    }

    /// Decides whether an attempt of `thief` on `mark` stays within the
    /// machine integers whatever the dice show.
    pub fn can_attempt(thief: &Mobile, mark: &Mobile) -> (ok: bool)
        ensures
            ok == fit_to_steal(thief@, mark@),
    {
        thief.actions_used < i16::MAX && thief.can_roll_skill(thief.dexterity, thief.steal)
            && mark.can_roll_skill(mark.wisdom, mark.perception) && mark.can_release_all()
    }

    /// Settles what becomes of the item that the thief got hold of, if any,
    /// and tells the thief.
    pub fn hand_over(
        world: &mut WorldState,
        thief: &mut Box<Mobile>,
        mark: &mut Box<Mobile>,
        item: Option<Box<Item>>,
    )
        requires
            match item {
                Some(i) => old(mark)@.can_add(i@, false),
                None => true,
            },
        ensures
            (final(world)@.messages, final(thief)@, final(mark)@) == handed(
                old(world)@.messages,
                old(thief)@,
                old(mark)@,
                maybe_item_view(item),
            ),
            final(world)@ == old(world)@.with_log(final(world)@.messages),
    {
        match item {
            Some(item) => {
                if thief.has_room_for_item(&item) && thief.can_add_item(&item, true) {
                    world.message_list.post_for_target(
                        join("You stole a ", item.get_name().as_str()),
                        thief.get_id(),
                    );
                    thief.add_item(item, true);
                } else {
                    world.message_list.post_for_target(
                        join3("You don't have room for ", item.get_name().as_str(), "!"),
                        thief.get_id(),
                    );
                    mark.add_item(item, false);
                }
            },
            None => {
                world.message_list.post_for_target(
                    text("You come up empty handed!"),
                    thief.get_id(),
                );
            },
        }
    }

    /// Makes the attempt.
    pub fn tick(&self, world: &mut WorldState, event_q: &mut EventList)
        requires
            old(world)@.wf(),
        ensures
            final(world)@.wf(),
            final(event_q)@.extends(old(event_q)@),
            self.stepped(old(world)@, old(event_q)@, final(world)@, final(event_q)@),
    {
        let a_location = world.find_mobile_location(self.thief);
        let b_location = world.find_mobile_location(self.mark);
        let a_position = match a_location {
            Some(p) => p,
            None => {
                return ;
            },
        };
        let b_position = match b_location {
            Some(p) => p,
            None => {
                world.message_list.post_for_target(text("Steal from who?"), self.thief);
                proof {
                    old(world)@.lemma_frame_wf(world@);
                }
                return ;
            },
        };
        if a_position.0 != b_position.0 || a_position.1 != b_position.1 {
            world.message_list.post_for_target(text("Steal from who?"), self.thief);
            proof {
                old(world)@.lemma_frame_wf(world@);
            }
            return ;
        }
        let ghost p = a_position;
        let x = a_position.0;
        let y = a_position.1;
        let a = world.fetch_mobile(self.thief);
        proof {
            old(world)@.lemma_without_mobile_wf(self.thief);
            assert(old(world)@.locations[p].wf());
        }
        let ghost after_a = world@;
        let b = world.fetch_mobile(self.mark);
        match (a, b) {
            (Some(a), Some(b)) => {
                let ghost held = world@;
                let ghost a0 = a@;
                let ghost b0 = b@;
                proof {
                    assert(self.thief != self.mark);
                    assert(after_a.index[self.mark] == p);
                    assert(after_a.mobile(self.mark) == old(world)@.mobile(self.mark));
                    after_a.lemma_without_mobile_wf(self.mark);
                    assert(a0.id == self.thief);
                    assert(b0.id == self.mark);
                    assert(held.locations.contains_key(p));
                }
                if !StealEvent::can_attempt(&a, &b) {
                    world.add_mobile(a, x, y);
                    world.add_mobile(b, x, y);
                    return ;
                }
                let mut a = a;
                let mut b = b;
                if a.use_action() {
                    let steal = a.roll_steal();
                    let notice = b.roll_perception();
                    let ghost a_face = choose|face: int|
                        1 <= face <= 100 && steal == #[trigger] skill_total(
                            a0.dexterity as int,
                            a0.steal as int,
                            a0.luck as int,
                            face,
                        );
                    let ghost b_face = choose|face: int|
                        1 <= face <= 100 && notice == #[trigger] skill_total(
                            b0.wisdom as int,
                            b0.perception as int,
                            b0.luck as int,
                            face,
                        );
                    if steal > notice {
                        let item = b.fetch_random_item();
                        let ghost pos = if b0.inventory.len() == 0 {
                            0
                        } else {
                            choose|pos: int|
                                0 <= pos < b0.inventory.len() && maybe_item_view(item) == Some(
                                    b0.released_item(pos),
                                ) && b@ == #[trigger] b0.without_item(pos)
                        };
                        proof {
                            if b0.inventory.len() > 0 {
                                assert(b0.can_release(pos));
                            }
                        }
                        StealEvent::hand_over(world, &mut a, &mut b, item);
                        proof {
                            held.lemma_frame_wf(world@);
                            assert(a@.id == self.thief);
                            assert(b@.id == self.mark);
                        }
                        world.add_mobile(a, x, y);
                        world.add_mobile(b, x, y);
                        proof {
                            assert((world@, event_q@) == self.stolen(
                                held,
                                old(event_q)@,
                                a0,
                                b0,
                                p,
                                a_face,
                                b_face,
                                pos,
                            ));
                        }
                    } else {
                        world.message_list.broadcast(join(a.name.as_str(), " is a thief!"), x, y);
                        event_q.insert(
                            Event::Combat(CombatEvent { attacker: self.mark, defender: self.thief }),
                        );
                        proof {
                            held.lemma_frame_wf(world@);
                        }
                        world.add_mobile(a, x, y);
                        world.add_mobile(b, x, y);
                        proof {
                            assert((world@, event_q@) == self.stolen(
                                held,
                                old(event_q)@,
                                a0,
                                b0,
                                p,
                                a_face,
                                b_face,
                                0,
                            ));
                        }
                    }
                } else {
                    event_q.insert(Event::Steal(*self));
                    world.add_mobile(a, x, y);
                    world.add_mobile(b, x, y);
                    proof {
                        assert((world@, event_q@) == self.stolen(
                            held,
                            old(event_q)@,
                            a0,
                            b0,
                            p,
                            1,
                            1,
                            0,
                        ));
                    }
                }
            },
            (Some(a), None) => {
                proof {
                    assert(self.thief == self.mark);
                    old(world)@.lemma_return_restores(self.thief);
                }
                world.message_list.post_for_target(text("Steal from who?"), self.thief);
                proof {
                    after_a.lemma_frame_wf(world@);
                }
                world.add_mobile(a, x, y);
                proof {
                    let logged = old(world)@.with_log(
                        old(world)@.messages.posted_for_target("Steal from who?"@, self.thief),
                    );
                    assert(world@.locations == old(world)@.locations);
                    assert(world@.index == old(world)@.index);
                    assert(world@ == logged);
                }
            },
            (None, Some(b)) => {
                proof {
                    assert(false);
                }
            },
            (None, None) => {
                proof {
                    assert(false);
                }
            },
        }
    }
}

} // verus!
