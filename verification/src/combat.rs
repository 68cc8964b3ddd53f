use crate::events::{CombatEvent, Event, EventList, EventListView};
use crate::message::MessageView;
use crate::mobile::{damage_through, skill_total, Mobile, MobileView};
use crate::text::{decimal, decimal_text, join3, text};
use crate::world::{WorldState, WorldView};
use vstd::prelude::*;
use vstd::string::*;

verus! {

/// How a round of combat goes.
#[derive(Clone, Copy, Debug, PartialEq, Eq, Structural)]
pub enum CombatOutcome {
    /// The attacker wins the opposed roll and has an action to strike with.
    AttackerHits,
    /// The defender wins the opposed roll and has an action to strike with.
    DefenderHits,
    /// The attacker wins the opposed roll but has no action left.
    DefenderRepulses,
    /// The defender wins the opposed roll but has no action left.
    AttackerRepulses,
    /// Neither has an action left in this tick.
    Idle,
}

/// How a round of combat goes, given who has an action left and what the
/// opposed rolls came to. The attacker wins the opposed roll when its total
/// is strictly the greater.
pub open spec fn combat_outcome(
    attacker_acts: bool,
    defender_acts: bool,
    attacker_total: int,
    defender_total: int,
) -> CombatOutcome {
    if !attacker_acts && !defender_acts {
        CombatOutcome::Idle
    } else if attacker_total > defender_total {
        if attacker_acts {
            CombatOutcome::AttackerHits
        } else {
            CombatOutcome::DefenderRepulses
        }
    } else {
        if defender_acts {
            CombatOutcome::DefenderHits
        } else {
            CombatOutcome::AttackerRepulses
        }
    }
}

/// The announcement of a wound.
pub open spec fn wound_text(hitter: MobileView, victim: MobileView, applied: int) -> Seq<char> {
    hitter.name_with_article + " wounds "@ + victim.name_with_article + " with a "@
        + hitter.wielded + " for "@ + decimal(applied) + "!"@
}

impl CombatEvent {
    /// The world and the scheduler after `hitter` has struck `victim` with a
    /// damage roll of `roll` at the position `p`, both being checked out.
    ///
    /// The victim dies exactly when its damage then strictly exceeds its hit
    /// points: the slaying is announced, the hitter returns, the victim's
    /// name is recorded, and its corpse with all it carried is put down; the
    /// victim does not return and nothing is enqueued. Otherwise the wound is
    /// announced, both return, and the combat is enqueued again.
    pub open spec fn struck(
        self,
        world: WorldView,
        queue: EventListView,
        hitter: MobileView,
        victim: MobileView,
        roll: int,
        p: (i16, i16),
    ) -> (WorldView, EventListView) {
        let hurt = victim.hit(roll);
        if hurt.dead() {
            let log = world.messages.with(
                MessageView::public(
                    hitter.name_with_article + " slays "@ + victim.name_with_article + "!"@,
                    p.0,
                    p.1,
                    world.messages.now,
                ),
            ).posted_for_target(
                "You have been slain by "@ + hitter.name_with_article + "!"@,
                victim.id,
            );
            let returned = world.with_log(log).with_mobile(hitter, p.0, p.1);
            let recorded = WorldView { killed: returned.killed.push(hurt.name), ..returned };
            (recorded.with_corpse(hurt, p.0, p.1), queue)
        } else {
            let log = world.messages.with(
                MessageView::public(
                    wound_text(hitter, victim, damage_through(roll, victim.armor as int)),
                    p.0,
                    p.1,
                    world.messages.now,
                ),
            );
            (
                world.with_log(log).with_mobile(hitter, p.0, p.1).with_mobile(hurt, p.0, p.1),
                queue.with(seq![Event::Combat(self)]),
            )
        }
    }

    /// The world and the scheduler after `winner` has driven `loser` back
    /// without a blow at the position `p`: it is announced, both return, and
    /// the combat is enqueued again.
    pub open spec fn repulsed(
        self,
        world: WorldView,
        queue: EventListView,
        winner: MobileView,
        loser: MobileView,
        p: (i16, i16),
    ) -> (WorldView, EventListView) {
        let log = world.messages.with(
            MessageView::public(
                winner.name_with_article + " repulses "@ + loser.name_with_article + "!"@,
                p.0,
                p.1,
                world.messages.now,
            ),
        );
        (
            world.with_log(log).with_mobile(winner, p.0, p.1).with_mobile(loser, p.0, p.1),
            queue.with(seq![Event::Combat(self)]),
        )
    }

    /// The world and the scheduler after a round of combat between the
    /// attacker `a` and the defender `b`, both checked out of `held` at `p`,
    /// when the hundred-sided dice show `a_face` and `b_face` and the damage
    /// dice of whoever strikes show `roll`. Each has used an action.
    pub open spec fn fought(
        self,
        held: WorldView,
        queue: EventListView,
        a: MobileView,
        b: MobileView,
        p: (i16, i16),
        a_face: int,
        b_face: int,
        roll: int,
    ) -> (WorldView, EventListView) {
        let a_total = skill_total(a.strength as int, a.combat as int, a.luck as int, a_face);
        let b_total = skill_total(b.strength as int, b.combat as int, b.luck as int, b_face);
        match combat_outcome(a.has_action(), b.has_action(), a_total, b_total) {
            CombatOutcome::AttackerHits => self.struck(held, queue, a.acted(), b.acted(), roll, p),
            CombatOutcome::DefenderHits => self.struck(held, queue, b.acted(), a.acted(), roll, p),
            CombatOutcome::DefenderRepulses => self.repulsed(
                held,
                queue,
                b.acted(),
                a.acted(),
                p,
            ),
            CombatOutcome::AttackerRepulses => self.repulsed(
                held,
                queue,
                a.acted(),
                b.acted(),
                p,
            ),
            CombatOutcome::Idle => (
                held.with_mobile(a.acted(), p.0, p.1).with_mobile(b.acted(), p.0, p.1),
                queue.with(seq![Event::Combat(self)]),
            ),
        }
    }

    /// The damage roll `roll` is one that the dice of whoever strikes in
    /// this round can give; when nobody strikes any roll will do.
    pub open spec fn roll_fits(a: MobileView, b: MobileView, a_face: int, b_face: int, roll: int) -> bool {
        let a_total = skill_total(a.strength as int, a.combat as int, a.luck as int, a_face);
        let b_total = skill_total(b.strength as int, b.combat as int, b.luck as int, b_face);
        match combat_outcome(a.has_action(), b.has_action(), a_total, b_total) {
            CombatOutcome::AttackerHits => a.damage_dice.may_give(roll),
            CombatOutcome::DefenderHits => b.damage_dice.may_give(roll),
            _ => true,
        }
    }

    /// What the event does.
    ///
    /// Without the attacker on the map nothing happens. Without the defender
    /// at the attacker's position the attacker is asked "Kill who?". A mobile
    /// does not fight itself. A pair that cannot fight within the machine
    /// integers is left alone. Any other pair fights a round as `fought`
    /// says, for some faces of the dice.
    pub open spec fn stepped(
        self,
        world: WorldView,
        queue: EventListView,
        world_after: WorldView,
        queue_after: EventListView,
    ) -> bool {
        if !world.index.contains_key(self.attacker) {
            world_after == world && queue_after == queue
        } else if !world.index.contains_key(self.defender) || world.index[self.defender]
            != world.index[self.attacker] {
            world_after == world.with_log(
                world.messages.posted_for_target("Kill who?"@, self.attacker),
            ) && queue_after == queue
        } else if self.attacker == self.defender {
            world_after == world && queue_after == queue
        } else {
            let p = world.index[self.attacker];
            let a = world.mobile(self.attacker);
            let b = world.mobile(self.defender);
            let held = world.without_mobile(self.attacker).without_mobile(self.defender);
            if !(a.fit_to_fight(b) && b.fit_to_fight(a)) {
                world_after == held.with_mobile(a, p.0, p.1).with_mobile(b, p.0, p.1)
                    && queue_after == queue
            } else {
                exists|a_face: int, b_face: int, roll: int|
                    1 <= a_face <= 100 && 1 <= b_face <= 100 && CombatEvent::roll_fits(
                        a,
                        b,
                        a_face,
                        b_face,
                        roll,
                    ) && (world_after, queue_after) == #[trigger] self.fought(
                        held,
                        queue,
                        a,
                        b,
                        p,
                        a_face,
                        b_face,
                        roll,
                    )
            }
        }
    }

    /// How a round of combat goes, given who has an action left and what
    /// the opposed rolls came to.
    pub fn outcome(
        attacker_acts: bool,
        defender_acts: bool,
        attacker_total: i16,
        defender_total: i16,
    ) -> (result: CombatOutcome)
        ensures
            result == combat_outcome(
                attacker_acts,
                defender_acts,
                attacker_total as int,
                defender_total as int,
            ),
    {
        if attacker_acts || defender_acts {
            let outcome = attacker_total > defender_total;
            if outcome && attacker_acts {
                CombatOutcome::AttackerHits
            } else if !outcome && defender_acts {
                CombatOutcome::DefenderHits
            } else if outcome {
                CombatOutcome::DefenderRepulses
            } else {
                CombatOutcome::AttackerRepulses
            }
        } else {
            CombatOutcome::Idle
        }
    }

    /// Lets `hitter` strike `victim` with a damage roll of `roll` at
    /// `(x, y)`, where both were checked out.
    pub fn strike(
        &self,
        world: &mut WorldState,
        event_q: &mut EventList,
        hitter: Box<Mobile>,
        victim: Box<Mobile>,
        roll: i16,
        x: i16,
        y: i16,
    )
        requires
            old(world)@.wf(),
            old(world)@.locations.contains_key((x, y)),
            !old(world)@.index.contains_key(hitter@.id),
            !old(world)@.index.contains_key(victim@.id),
            !old(world)@.stash.contains_key(hitter@.id),
            !old(world)@.stash.contains_key(victim@.id),
            hitter@.id != victim@.id,
            victim@.can_be_hit(roll as int),
            victim@.can_strip(),
        ensures
            final(world)@.wf(),
            final(event_q)@.extends(old(event_q)@),
            (final(world)@, final(event_q)@) == self.struck(
                old(world)@,
                old(event_q)@,
                hitter@,
                victim@,
                roll as int,
                (x, y),
            ),
    {
        let ghost sound = victim@;
        let mut victim = victim;
        let damage = victim.do_damage(roll);
        proof {
            sound.lemma_strip_ignores_wounds(victim@);
        }
        if victim.damage > victim.max_hit_points() {
            world.message_list.broadcast(
                join3(hitter.name_with_article.as_str(), " slays ", victim.name_with_article.as_str())
                    .concat("!"),
                x,
                y,
            );
            world.message_list.post_for_target(
                join3("You have been slain by ", hitter.name_with_article.as_str(), "!"),
                victim.get_id(),
            );
            proof {
                old(world)@.lemma_frame_wf(world@);
            }
            world.add_mobile(hitter, x, y);
            let ghost returned = world@;
            world.record_killed(victim.name.clone());
            proof {
                returned.lemma_frame_wf(world@);
            }
            world.add_corpse(&mut victim, x, y);
        } else {
            let amount = decimal_text(damage as i128);
            let mut msg = join3(
                hitter.name_with_article.as_str(),
                " wounds ",
                victim.name_with_article.as_str(),
            );
            msg.append(" with a ");
            msg.append(hitter.wielded.as_str());
            msg.append(" for ");
            msg.append(amount.as_str());
            msg.append("!");
            world.message_list.broadcast(msg, x, y);
            proof {
                old(world)@.lemma_frame_wf(world@);
            }
            world.add_mobile(hitter, x, y);
            world.add_mobile(victim, x, y);
            event_q.insert(Event::Combat(*self));
        }
    }

    /// Returns both mobiles to `(x, y)` after `winner` has driven `loser`
    /// back without a blow, and enqueues the combat again.
    pub fn repulse(
        &self,
        world: &mut WorldState,
        event_q: &mut EventList,
        winner: Box<Mobile>,
        loser: Box<Mobile>,
        x: i16,
        y: i16,
    )
        requires
            old(world)@.wf(),
            old(world)@.locations.contains_key((x, y)),
            !old(world)@.index.contains_key(winner@.id),
            !old(world)@.index.contains_key(loser@.id),
            !old(world)@.stash.contains_key(winner@.id),
            !old(world)@.stash.contains_key(loser@.id),
            winner@.id != loser@.id,
        ensures
            final(world)@.wf(),
            final(event_q)@.extends(old(event_q)@),
            (final(world)@, final(event_q)@) == self.repulsed(
                old(world)@,
                old(event_q)@,
                winner@,
                loser@,
                (x, y),
            ),
    {
        world.message_list.broadcast(
            join3(winner.name_with_article.as_str(), " repulses ", loser.name_with_article.as_str())
                .concat("!"),
            x,
            y,
        );
        proof {
            old(world)@.lemma_frame_wf(world@);
        }
        world.add_mobile(winner, x, y);
        world.add_mobile(loser, x, y);
        event_q.insert(Event::Combat(*self));
    }

    /// Fights one round of the combat.
    pub fn tick(&self, world: &mut WorldState, event_q: &mut EventList)
        requires
            old(world)@.wf(),
        ensures
            final(world)@.wf(),
            final(event_q)@.extends(old(event_q)@),
            self.stepped(old(world)@, old(event_q)@, final(world)@, final(event_q)@),
    {
        let a_location = world.find_mobile_location(self.attacker);
        let b_location = world.find_mobile_location(self.defender);
        let a_position = match a_location {
            Some(p) => p,
            None => {
                return ;
            },
        };
        let b_position = match b_location {
            Some(p) => p,
            None => {
                world.message_list.post_for_target(text("Kill who?"), self.attacker);
                proof {
                    old(world)@.lemma_frame_wf(world@);
                }
                return ;
            },
        };
        if a_position.0 != b_position.0 || a_position.1 != b_position.1 {
            world.message_list.post_for_target(text("Kill who?"), self.attacker);
            proof {
                old(world)@.lemma_frame_wf(world@);
            }
            return ;
        }
        let ghost p = a_position;
        let x = a_position.0;
        let y = a_position.1;
        let a = world.fetch_mobile(self.attacker);
        proof {
            old(world)@.lemma_without_mobile_wf(self.attacker);
            assert(old(world)@.locations[p].wf());
        }
        let ghost after_a = world@;
        let b = world.fetch_mobile(self.defender);
        match (a, b) {
            (Some(a), Some(b)) => {
                let ghost held = world@;
                let ghost a0 = a@;
                let ghost b0 = b@;
                proof {
                    assert(self.attacker != self.defender);
                    assert(after_a.index[self.defender] == p);
                    assert(after_a.mobile(self.defender) == old(world)@.mobile(self.defender));
                    after_a.lemma_without_mobile_wf(self.defender);
                    assert(a0.id == self.attacker);
                    assert(b0.id == self.defender);
                    assert(held.locations.contains_key(p));
                }
                if !(a.can_fight(&b) && b.can_fight(&a)) {
                    world.add_mobile(a, x, y);
                    world.add_mobile(b, x, y);
                    return ;
                }
                let mut a = a;
                let mut b = b;
                let a_has_actions = a.use_action();
                let b_has_actions = b.use_action();
                proof {
                    a0.lemma_strip_ignores_wounds(a@);
                    b0.lemma_strip_ignores_wounds(b@);
                }
                if a_has_actions || b_has_actions {
                    let a_total = a.roll_combat();
                    let b_total = b.roll_combat();
                    let ghost a_face = choose|face: int|
                        1 <= face <= 100 && a_total == #[trigger] skill_total(
                            a0.strength as int,
                            a0.combat as int,
                            a0.luck as int,
                            face,
                        );
                    let ghost b_face = choose|face: int|
                        1 <= face <= 100 && b_total == #[trigger] skill_total(
                            b0.strength as int,
                            b0.combat as int,
                            b0.luck as int,
                            face,
                        );
                    match CombatEvent::outcome(a_has_actions, b_has_actions, a_total, b_total) {
                        CombatOutcome::AttackerHits => {
                            let roll = a.damage_dice.roll();
                            self.strike(world, event_q, a, b, roll, x, y);
                            proof {
                                assert((world@, event_q@) == self.fought(
                                    held,
                                    old(event_q)@,
                                    a0,
                                    b0,
                                    p,
                                    a_face,
                                    b_face,
                                    roll as int,
                                ));
                            }
                        },
                        CombatOutcome::DefenderHits => {
                            let roll = b.damage_dice.roll();
                            self.strike(world, event_q, b, a, roll, x, y);
                            proof {
                                assert((world@, event_q@) == self.fought(
                                    held,
                                    old(event_q)@,
                                    a0,
                                    b0,
                                    p,
                                    a_face,
                                    b_face,
                                    roll as int,
                                ));
                            }
                        },
                        CombatOutcome::DefenderRepulses => {
                            self.repulse(world, event_q, b, a, x, y);
                            proof {
                                assert((world@, event_q@) == self.fought(
                                    held,
                                    old(event_q)@,
                                    a0,
                                    b0,
                                    p,
                                    a_face,
                                    b_face,
                                    0,
                                ));
                            }
                        },
                        _ => {
                            self.repulse(world, event_q, a, b, x, y);
                            proof {
                                assert((world@, event_q@) == self.fought(
                                    held,
                                    old(event_q)@,
                                    a0,
                                    b0,
                                    p,
                                    a_face,
                                    b_face,
                                    0,
                                ));
                            }
                        },
                    }
                } else {
                    world.add_mobile(a, x, y);
                    world.add_mobile(b, x, y);
                    event_q.insert(Event::Combat(*self));
                    proof {
                        assert((world@, event_q@) == self.fought(
                            held,
                            old(event_q)@,
                            a0,
                            b0,
                            p,
                            1,
                            1,
                            0,
                        ));
                    }
                }
            },
            (Some(a), None) => {
                proof {
                    assert(self.attacker == self.defender);
                    old(world)@.lemma_return_restores(self.attacker);
                }
                world.add_mobile(a, x, y);
            },
            (None, Some(b)) => {
                proof {
                    assert(false);
                }
            },
            (None, None) => {
                proof {
                    assert(false);
                }
            },
        }
    }
}

} // verus!
