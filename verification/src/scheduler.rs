use crate::events::{Event, EventList, EventListView};
use crate::world::{WorldState, WorldView};
use vstd::prelude::*;

verus! {

impl Event {
    /// What running the event does to the world and the scheduler: what
    /// the event of its kind does.
    pub open spec fn stepped(
        self,
        world: WorldView,
        queue: EventListView,
        world_after: WorldView,
        queue_after: EventListView,
    ) -> bool {
        match self {
            Event::Combat(e) => e.stepped(world, queue, world_after, queue_after),
            Event::MoveMobile(e) => e.stepped(world, queue, world_after, queue_after),
            Event::ActiveMonster(e) => e.stepped(world, queue, world_after, queue_after),
            Event::WanderingMonster(e) => e.stepped(world, queue, world_after, queue_after),
            Event::Age(e) => e.stepped(world, queue, world_after, queue_after),
            Event::Steal(e) => e.stepped(world, queue, world_after, queue_after),
            Event::MakeItem(e) => e.stepped(world, queue, world_after, queue_after),
        }
    }

    /// Runs the event. Whatever it enqueues goes to the generation that
    /// accepts events; the other generation is not touched.
    pub fn tick(&self, world: &mut WorldState, event_q: &mut EventList)
        requires
            old(world)@.wf(),
        ensures
            final(world)@.wf(),
            final(event_q)@.extends(old(event_q)@),
            self.stepped(old(world)@, old(event_q)@, final(world)@, final(event_q)@),
    {
        match self {
            Event::Combat(e) => e.tick(world, event_q),
            Event::MoveMobile(e) => e.tick(world, event_q),
            Event::ActiveMonster(e) => e.tick(world, event_q),
            Event::WanderingMonster(e) => e.tick(world, event_q),
            Event::Age(e) => e.tick(world, event_q),
            Event::Steal(e) => e.tick(world, event_q),
            Event::MakeItem(e) => e.tick(world, event_q),
        }
    }
}

/// The scheduler while the events of a tick are run: `accepting` is the
/// generation that accepts events, `left` what is still to be run, and the
/// flag is the one that the tick has set.
pub open spec fn during(accepting: Seq<Event>, left: Seq<Event>, is_odd: bool) -> EventListView {
    EventListView { accepting, draining: left, is_odd }
}

/// A tick as a run of events: `events` are run one after the other, first
/// to last, from the world `worlds[0]` with `queues[0]` in the generation
/// that accepts events. Each event takes the world and that generation from
/// what the one before left to what it leaves itself, and takes nothing out
/// of that generation.
pub open spec fn drained(
    events: Seq<Event>,
    is_odd: bool,
    worlds: Seq<WorldView>,
    queues: Seq<Seq<Event>>,
) -> bool {
    &&& worlds.len() == events.len() + 1
    &&& queues.len() == events.len() + 1
    &&& forall|k: int|
        0 <= k < events.len() ==> (#[trigger] events[k]).stepped(
            worlds[k],
            during(queues[k], events.skip(k + 1), is_odd),
            worlds[k + 1],
            during(queues[k + 1], events.skip(k + 1), is_odd),
        ) && during(queues[k + 1], events.skip(k + 1), is_odd).extends(
            during(queues[k], events.skip(k + 1), is_odd),
        )
}

/// One-tick buffering. In a tick exactly the events that waited when it
/// began are run. Whatever is enqueued while they run is kept in the other
/// generation to the end of the tick, behind what was there: it is not run
/// in this tick, and it is what the next tick runs.
pub proof fn lemma_one_tick_buffering(
    events: Seq<Event>,
    is_odd: bool,
    worlds: Seq<WorldView>,
    queues: Seq<Seq<Event>>,
    k: int,
)
    requires
        drained(events, is_odd, worlds, queues),
        0 <= k <= events.len(),
    ensures
        queues[k].len() <= queues.last().len(),
        forall|i: int| 0 <= i < queues[k].len() ==> queues.last()[i] == queues[k][i],
    decreases events.len() - k,
{
    if k < events.len() {
        lemma_one_tick_buffering(events, is_odd, worlds, queues, k + 1);
        let event = events[k];
        assert(event.stepped(
            worlds[k],
            during(queues[k], events.skip(k + 1), is_odd),
            worlds[k + 1],
            during(queues[k + 1], events.skip(k + 1), is_odd),
        ));
        assert(during(queues[k + 1], events.skip(k + 1), is_odd).extends(
            during(queues[k], events.skip(k + 1), is_odd),
        ));
    }
}

impl EventList {
    /// Runs one tick. The generations change roles first; then every event
    /// of the generation that accepted events until now is run, oldest
    /// first, and what the events enqueue gathers in the other generation
    /// for the next tick.
    pub fn tick(&mut self, world: &mut WorldState)
        requires
            old(world)@.wf(),
        ensures
            final(world)@.wf(),
            final(self)@.is_odd == !old(self)@.is_odd,
            final(self)@.at_rest(),
            exists|worlds: Seq<WorldView>, queues: Seq<Seq<Event>>|
                {
                    &&& #[trigger] drained(
                        old(self)@.accepting,
                        final(self)@.is_odd,
                        worlds,
                        queues,
                    )
                    &&& worlds.first() == old(world)@
                    &&& worlds.last() == final(world)@
                    &&& queues.first() == old(self)@.draining
                    &&& queues.last() == final(self)@.accepting
                },
    {
        let ghost events = self@.accepting;
        let ghost flag = !self@.is_odd;
        let ghost mut worlds: Seq<WorldView> = seq![world@];
        let ghost mut queues: Seq<Seq<Event>> = seq![self@.draining];
        let ghost mut done: int = 0;
        self.is_odd = !self.is_odd;
        loop
            invariant
                world@.wf(),
                events == old(self)@.accepting,
                flag == !old(self)@.is_odd,
                0 <= done <= events.len(),
                self@.is_odd == flag,
                self@.draining == events.skip(done),
                worlds.len() == done + 1,
                queues.len() == done + 1,
                worlds.first() == old(world)@,
                worlds.last() == world@,
                queues.first() == old(self)@.draining,
                queues.last() == self@.accepting,
                forall|k: int|
                    0 <= k < done ==> (#[trigger] events[k]).stepped(
                        worlds[k],
                        during(queues[k], events.skip(k + 1), flag),
                        worlds[k + 1],
                        during(queues[k + 1], events.skip(k + 1), flag),
                    ) && during(queues[k + 1], events.skip(k + 1), flag).extends(
                        during(queues[k], events.skip(k + 1), flag),
                    ),
            ensures
                world@.wf(),
                done == events.len(),
                self@.is_odd == flag,
                self@.draining.len() == 0,
                worlds.len() == done + 1,
                queues.len() == done + 1,
                worlds.first() == old(world)@,
                worlds.last() == world@,
                queues.first() == old(self)@.draining,
                queues.last() == self@.accepting,
                forall|k: int|
                    0 <= k < done ==> (#[trigger] events[k]).stepped(
                        worlds[k],
                        during(queues[k], events.skip(k + 1), flag),
                        worlds[k + 1],
                        during(queues[k + 1], events.skip(k + 1), flag),
                    ) && during(queues[k + 1], events.skip(k + 1), flag).extends(
                        during(queues[k], events.skip(k + 1), flag),
                    ),
            decreases events.len() - done,
        {
            let next = if self.is_odd {
                self.even_event_queue.pop_front()
            } else {
                self.odd_event_queue.pop_front()
            };
            let event = match next {
                Some(event) => event,
                None => {
                    break ;
                },
            };
            let ghost before = self@;
            let ghost world_before = world@;
            proof {
                assert(event == events[done]);
                assert(before.draining =~= events.skip(done + 1));
                assert(before == during(queues[done], events.skip(done + 1), flag));
            }
            event.tick(world, self);
            proof {
                assert(self@ == during(self@.accepting, events.skip(done + 1), flag));
                let ghost earlier_worlds = worlds;
                let ghost earlier_queues = queues;
                worlds = worlds.push(world@);
                queues = queues.push(self@.accepting);
                assert forall|k: int| 0 <= k < done + 1 implies (#[trigger] events[k]).stepped(
                    worlds[k],
                    during(queues[k], events.skip(k + 1), flag),
                    worlds[k + 1],
                    during(queues[k + 1], events.skip(k + 1), flag),
                ) && during(queues[k + 1], events.skip(k + 1), flag).extends(
                    during(queues[k], events.skip(k + 1), flag),
                ) by {
                    if k < done {
                        assert(worlds[k] == earlier_worlds[k]);
                        assert(worlds[k + 1] == earlier_worlds[k + 1]);
                        assert(queues[k] == earlier_queues[k]);
                        assert(queues[k + 1] == earlier_queues[k + 1]);
                    }
                }
                done = done + 1;
                assert(forall|k: int|
                    0 <= k < done ==> (#[trigger] events[k]).stepped(
                        worlds[k],
                        during(queues[k], events.skip(k + 1), flag),
                        worlds[k + 1],
                        during(queues[k + 1], events.skip(k + 1), flag),
                    ) && during(queues[k + 1], events.skip(k + 1), flag).extends(
                        during(queues[k], events.skip(k + 1), flag),
                    ));
            }
        }
        proof {
            assert(drained(events, flag, worlds, queues));
        }
    }
}

} // verus!
