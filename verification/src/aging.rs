use crate::events::{AgeEvent, Event, EventList, EventListView};
use crate::location::{decay_log, survivors, Location, LocationView};
use crate::map::{visit_trace, LocationVisitor};
use crate::message::{MessageList, MessageListView};
use crate::order::positions_in_order;
use crate::world::{WorldState, WorldView};
use vstd::prelude::*;

verus! {

/// The visitor that lets a tick pass over each location.
pub struct AgeLocationVisitor {
}

/// `after` is what the location `before` can be once a tick has passed over
/// it: its mobiles rested, its items aged and the decayed ones gone.
pub open spec fn aged_from(before: LocationView, after: LocationView) -> bool {
    &&& after.items == survivors(before.items)
    &&& (LocationView { items: before.items, ..after }).rested_from(before)
}

/// The log after the decay of the items in each of the listed locations was
/// announced, location by location.
pub open spec fn decay_log_all(
    locations: Map<(i16, i16), LocationView>,
    order: Seq<(i16, i16)>,
    log: MessageListView,
) -> MessageListView
    decreases order.len(),
{
    if order.len() == 0 {
        log
    } else {
        let p = order.last();
        decay_log(
            locations[p].items,
            decay_log_all(locations, order.drop_last(), log),
            locations[p].x,
            locations[p].y,
        )
    }
}

impl LocationVisitor for AgeLocationVisitor {
    open spec fn visited(
        &self,
        after: &Self,
        location: LocationView,
        location_after: LocationView,
        log: MessageListView,
        log_after: MessageListView,
    ) -> bool {
        &&& aged_from(location, location_after)
        &&& log_after == decay_log(location.items, log, location.x, location.y)
    }

    fn visit_location(&mut self, location: &mut Box<Location>, messages: &mut MessageList) {
        location.age_all_mobiles();
        let ghost rested = location@;
        location.age_all_items(messages);
        proof {
            assert((LocationView { items: old(location)@.items, ..location@ }) == rested);
            assert forall|id: u128| #[trigger]
                old(location)@.mobiles.contains_key(id) implies location@.mobiles[id].id == old(
                location,
            )@.mobiles[id].id by {
                assert(crate::location::may_rest_to(
                    old(location)@.mobiles[id],
                    location@.mobiles[id],
                ));
            }
        }
    }
}

impl WorldView {
    /// `after` is what the world can be once a tick has passed over every
    /// location: everybody is where they were, every location has aged, and
    /// the decay of items was announced location by location in the order of
    /// the map.
    pub open spec fn aged_to(self, after: WorldView) -> bool {
        &&& after.index == self.index
        &&& after.stash == self.stash
        &&& after.killed == self.killed
        &&& after.locations.dom() == self.locations.dom()
        &&& forall|p: (i16, i16)| #[trigger]
            self.locations.contains_key(p) ==> aged_from(self.locations[p], after.locations[p])
        &&& after.messages == decay_log_all(
            self.locations,
            positions_in_order(self.locations.dom()),
            self.messages,
        )
    }
}

/// Along a run of ageing visits the log is the one that the decay of the
/// locations visited so far gives.
proof fn lemma_age_trace_log(
    before: Map<(i16, i16), LocationView>,
    after: Map<(i16, i16), LocationView>,
    order: Seq<(i16, i16)>,
    visitors: Seq<AgeLocationVisitor>,
    logs: Seq<MessageListView>,
    k: int,
)
    requires
        visit_trace(before, after, order, visitors, logs),
        0 <= k <= order.len(),
    ensures
        logs[k] == decay_log_all(before, order.take(k), logs[0]),
    decreases k,
{
    if k > 0 {
        lemma_age_trace_log(before, after, order, visitors, logs, k - 1);
        assert(order.take(k).drop_last() =~= order.take(k - 1));
        assert(order.take(k).last() == order[k - 1]);
        assert(visitors[k - 1].visited(
            &visitors[k - 1 + 1],
            before[order[k - 1]],
            after[order[k - 1]],
            logs[k - 1],
            logs[k - 1 + 1],
        ));
    }
}

impl AgeEvent {
    /// What the event does: a tick passes over the world, and the event
    /// enqueues itself again.
    pub open spec fn stepped(
        self,
        world: WorldView,
        queue: EventListView,
        world_after: WorldView,
        queue_after: EventListView,
    ) -> bool {
        &&& world.aged_to(world_after)
        &&& queue_after == queue.with(seq![Event::Age(AgeEvent {  })])
    }

    /// Lets a tick pass over the world: in every location the mobiles start
    /// the tick afresh and may heal, and the items age and decay. The event
    /// then enqueues itself for the next tick.
    pub fn tick(&self, world: &mut WorldState, event_q: &mut EventList)
        requires
            old(world)@.wf(),
        ensures
            final(world)@.wf(),
            final(event_q)@.extends(old(event_q)@),
            self.stepped(old(world)@, old(event_q)@, final(world)@, final(event_q)@),
    {
        let mut visitor = AgeLocationVisitor {  };
        world.visit_all_locations(&mut visitor);
        proof {
            let order = positions_in_order(old(world)@.locations.dom());
            let (visitors, logs) = choose|
                visitors: Seq<AgeLocationVisitor>,
                logs: Seq<MessageListView>,
            |
                {
                    &&& #[trigger] visit_trace(
                        old(world)@.locations,
                        world@.locations,
                        order,
                        visitors,
                        logs,
                    )
                    &&& logs.first() == old(world)@.messages
                    &&& logs.last() == world@.messages
                };
            lemma_age_trace_log(
                old(world)@.locations,
                world@.locations,
                order,
                visitors,
                logs,
                order.len() as int,
            );
            assert(order.take(order.len() as int) =~= order);
            assert forall|p: (i16, i16)| #[trigger]
                old(world)@.locations.contains_key(p) implies aged_from(
                old(world)@.locations[p],
                world@.locations[p],
            ) by {
                crate::order::lemma_positions_listed(old(world)@.locations.dom());
                assert(order.to_set().contains(p));
                assert(order.contains(p));
                let k = choose|k: int| 0 <= k < order.len() && order[k] == p;
                assert(visitors[k].visited(
                    &visitors[k + 1],
                    old(world)@.locations[order[k]],
                    world@.locations[order[k]],
                    logs[k],
                    logs[k + 1],
                ));
            }
        }
        let next_event = Event::Age(AgeEvent::new());
        event_q.insert(next_event);
    }
}

} // verus!
