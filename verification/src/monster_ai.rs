use crate::dice::Dice;
use crate::events::{
    ActiveMonsterEvent, CombatEvent, Event, EventList, EventListView, MoveMobileEvent,
};
use crate::location::{maybe_mobile_view, LocationTypeCode};
use crate::map::type_at;
use crate::message::MessageView;
use crate::mobile::{Mobile, MobileView};
use crate::text::join3;
use crate::world::{WorldState, WorldView};
use vstd::prelude::*;
use vstd::string::*;

verus! {

/// The step that a wandering mobile tries when a hundred-sided die shows
/// `roll`: east, west, south or north for one to four, and none for any
/// other face.
pub open spec fn direction_for(roll: int) -> (i16, i16) {
    if roll == 1 {
        (1i16, 0i16)
    } else if roll == 2 {
        (-1i16, 0i16)
    } else if roll == 3 {
        (0i16, -1i16)
    } else if roll == 4 {
        (0i16, 1i16)
    } else {
        (0i16, 0i16)
    }
}

impl ActiveMonsterEvent {
    /// Whether `target` can be the mobile that an aggressive `monster`,
    /// checked out of `held` at `p`, picks on: one of those still there, and
    /// none only when nobody is.
    pub open spec fn may_pick(
        held: WorldView,
        monster: MobileView,
        p: (i16, i16),
        target: Option<u128>,
    ) -> bool {
        monster.aggressive ==> match target {
            Some(t) => held.locations[p].mobiles.contains_key(t),
            None => held.locations[p].mobiles.dom().len() == 0,
        }
    }

    /// The world, the scheduler and the monster after the monster has
    /// thought of attacking. An aggressive monster picks on `target`; when
    /// the target goes by another name and the monster can use an action, it
    /// uses one, and with an action left it announces the attack and
    /// enqueues the combat.
    pub open spec fn attacked(
        self,
        held: WorldView,
        queue: EventListView,
        monster: MobileView,
        p: (i16, i16),
        target: Option<u128>,
    ) -> (WorldView, EventListView, MobileView) {
        if monster.aggressive && target is Some && held.locations[p].mobiles[target->0].name
            != monster.name && monster.actions_used < i16::MAX {
            let victim = held.locations[p].mobiles[target->0];
            if monster.has_action() {
                (
                    held.with_log(
                        held.messages.with(
                            MessageView::public(
                                monster.name_with_article + " attacks "@
                                    + victim.name_with_article + "!"@,
                                p.0,
                                p.1,
                                held.messages.now,
                            ),
                        ),
                    ),
                    queue.with(
                        seq![Event::Combat(CombatEvent { attacker: self.id, defender: victim.id })],
                    ),
                    monster.acted(),
                )
            } else {
                (held, queue, monster.acted())
            }
        } else {
            (held, queue, monster)
        }
    }

    /// The scheduler after the monster has thought of wandering, the
    /// hundred-sided die showing `roll`: a monster that wanders enqueues the
    /// step that the die gives when the location it leads to is of the same
    /// kind as the one the monster is in.
    pub open spec fn wandered(
        held: WorldView,
        queue: EventListView,
        monster: MobileView,
        p: (i16, i16),
        roll: int,
    ) -> EventListView {
        let d = direction_for(roll);
        if monster.wanders && d != (0i16, 0i16) && type_at(
            held.locations,
            p.0 + d.0,
            p.1 + d.1,
        ) == type_at(held.locations, p.0 as int, p.1 as int) {
            queue.with(
                seq![Event::MoveMobile(MoveMobileEvent { uuid: monster.id, dx: d.0, dy: d.1 })],
            )
        } else {
            queue
        }
    }

    /// The world and the scheduler after the turn of `monster`, checked out
    /// of `held` at `p`: it thinks of attacking, then of wandering, enqueues
    /// its next turn while it is active, and returns to `p`.
    pub open spec fn acted_out(
        self,
        held: WorldView,
        queue: EventListView,
        monster: MobileView,
        p: (i16, i16),
        target: Option<u128>,
        roll: int,
    ) -> (WorldView, EventListView) {
        let (world, queue1, monster1) = self.attacked(held, queue, monster, p, target);
        let queue2 = ActiveMonsterEvent::wandered(held, queue1, monster1, p, roll);
        let queue3 = if monster1.active() {
            queue2.with(seq![Event::ActiveMonster(ActiveMonsterEvent { id: monster1.id })])
        } else {
            queue2
        };
        (world.with_mobile(monster1, p.0, p.1), queue3)
    }

    /// What the event does. Without the monster on the map nothing happens;
    /// else the monster takes its turn as `acted_out` says, for some target
    /// it may pick and some face of the die.
    pub open spec fn stepped(
        self,
        world: WorldView,
        queue: EventListView,
        world_after: WorldView,
        queue_after: EventListView,
    ) -> bool {
        if !world.index.contains_key(self.id) {
            world_after == world && queue_after == queue
        } else {
            let p = world.index[self.id];
            let monster = world.mobile(self.id);
            let held = world.without_mobile(self.id);
            exists|target: Option<u128>, roll: int|
                1 <= roll <= 100 && ActiveMonsterEvent::may_pick(held, monster, p, target) && (
                world_after,
                queue_after,
            ) == #[trigger] self.acted_out(held, queue, monster, p, target, roll)
        }
    }

    /// The step that a wandering mobile tries for a face of the die.
    pub fn step_for(roll: i16) -> (direction: (i16, i16))
        ensures
            direction == direction_for(roll as int),
    {
        match roll {
            1 => (1, 0),
            2 => (-1, 0),
            3 => (0, -1),
            4 => (0, 1),
            _ => (0, 0),
        }
    }

    fn kind_at(world: &WorldState, x: i32, y: i32) -> (location_type: LocationTypeCode)
        ensures
            location_type == type_at(world@.locations, x as int, y as int),
    {
        if x < -32768 || x > 32767 || y < -32768 || y > 32767 {
            return LocationTypeCode::Unexplored;
        }
        world.get_location_type(x as i16, y as i16)
    }

    /// Lets the monster think of wandering, the die showing `roll`.
    pub fn wander(
        world: &WorldState,
        event_q: &mut EventList,
        mobile: &Mobile,
        xy: (i16, i16),
        roll: i16,
    )
        ensures
            final(event_q)@.extends(old(event_q)@),
            final(event_q)@ == ActiveMonsterEvent::wandered(
                world@,
                old(event_q)@,
                mobile@,
                xy,
                roll as int,
            ),
    {
        if mobile.wanders {
            let direction = ActiveMonsterEvent::step_for(roll);
            if direction.0 != 0 || direction.1 != 0 {
                let next_location_type = ActiveMonsterEvent::kind_at(
                    world,
                    xy.0 as i32 + direction.0 as i32,
                    xy.1 as i32 + direction.1 as i32,
                );
                let current_location_type = world.get_location_type(xy.0, xy.1);
                if current_location_type == next_location_type {
                    event_q.insert(
                        Event::MoveMobile(
                            MoveMobileEvent {
                                uuid: mobile.get_id(),
                                dx: direction.0,
                                dy: direction.1,
                            },
                        ),
                    );
                }
            }
        }
    }

    /// Lets the monster take its turn.
    pub fn tick(&self, world: &mut WorldState, event_q: &mut EventList)
        requires
            old(world)@.wf(),
        ensures
            final(world)@.wf(),
            final(event_q)@.extends(old(event_q)@),
            self.stepped(old(world)@, old(event_q)@, final(world)@, final(event_q)@),
    {
        let xy = match world.find_mobile_location(self.id) {
            Some(xy) => xy,
            None => {
                return ;
            },
        };
        let fetched = world.fetch_mobile(self.id);
        let mut mobile = match fetched {
            Some(m) => m,
            None => {
                return ;
            },
        };
        let ghost held = world@;
        let ghost monster = mobile@;
        let ghost mut target: Option<u128> = None;
        proof {
            old(world)@.lemma_without_mobile_wf(self.id);
            assert(old(world)@.locations[xy].wf());
            assert(monster.id == self.id);
            assert(held.locations.contains_key(xy));
        }
        if mobile.aggressive {
            if world.mobile_exists_at(xy.0, xy.1) {
                let picked = world.fetch_mobile_at_random(xy.0, xy.1);
                match picked {
                    Some(victim) => {
                        let ghost without = world@;
                        proof {
                            let t = victim@.id;
                            let mid = choose|mid: WorldView| #[trigger]
                                held.explores(xy.0, xy.1, mid) && if mid.locations[(
                                    xy.0,
                                    xy.1,
                                )].mobiles.dom().len() == 0 {
                                    picked is None && without == mid
                                } else {
                                    exists|id: u128| #[trigger]
                                        mid.locations[(xy.0, xy.1)].mobiles.contains_key(id)
                                            && maybe_mobile_view(picked) == Some(mid.mobile(id))
                                            && without == mid.without_mobile(id)
                                };
                            assert(mid == held);
                            let id = choose|id: u128| #[trigger]
                                held.locations[(xy.0, xy.1)].mobiles.contains_key(id)
                                    && maybe_mobile_view(picked) == Some(held.mobile(id)) && without
                                    == held.without_mobile(id);
                            assert(held.locations[xy].wf());
                            assert(held.index[id] == xy);
                            assert(t == id);
                            target = Some(t);
                            held.lemma_return_restores(t);
                            held.lemma_without_mobile_wf(t);
                        }
                        if !(victim.name == mobile.name) && mobile.actions_used < i16::MAX {
                            if mobile.use_action() {
                                world.message_list.broadcast(
                                    join3(
                                        mobile.name_with_article.as_str(),
                                        " attacks ",
                                        victim.name_with_article.as_str(),
                                    ).concat("!"),
                                    xy.0,
                                    xy.1,
                                );
                                event_q.insert(
                                    Event::Combat(
                                        CombatEvent { attacker: self.id, defender: victim.get_id() },
                                    ),
                                );
                                proof {
                                    without.lemma_frame_wf(world@);
                                }
                            }
                        }
                        world.add_mobile(victim, xy.0, xy.1);
                    },
                    None => {
                        proof {
                            assert(false);
                        }
                    },
                }
            }
        }
        proof {
            let (w1, q1, m1) = self.attacked(held, old(event_q)@, monster, xy, target);
            assert(world@.locations == held.locations);
            assert(world@.index == held.index);
            assert(world@ == w1);
            assert(event_q@ == q1);
            assert(mobile@ == m1);
            assert(ActiveMonsterEvent::may_pick(held, monster, xy, target));
        }
        let mut roll: i16 = 100;
        if mobile.wanders {
            let die = Dice { number: 1, die: 100 };
            roll = die.roll();
        }
        ActiveMonsterEvent::wander(world, event_q, &mobile, xy, roll);
        if mobile.is_active() {
            event_q.insert(Event::ActiveMonster(ActiveMonsterEvent { id: mobile.get_id() }));
        }
        world.add_mobile(mobile, xy.0, xy.1);
        proof {
            assert((world@, event_q@) == self.acted_out(
                held,
                old(event_q)@,
                monster,
                xy,
                target,
                roll as int,
            ));
        }
    }
}

} // verus!
