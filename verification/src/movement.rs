use crate::events::{EventList, EventListView, MoveMobileEvent};
use crate::mobile::MobileView;
use crate::text::join;
use crate::world::{WorldState, WorldView};
use vstd::prelude::*;

verus! {

/// The words that end the announcements of a step: first those of the
/// arrival, then those of the leaving. Only the four steps along the axes
/// are announced.
pub open spec fn direction_words(dx: i16, dy: i16) -> Option<(Seq<char>, Seq<char>)> {
    if dx == 0 && dy == 1 {
        Some((" from the south."@, " to the north."@))
    } else if dx == 0 && dy == -1 {
        Some((" from the north."@, " to the south."@))
    } else if dx == 1 && dy == 0 {
        Some((" from the west."@, " to the east."@))
    } else if dx == -1 && dy == 0 {
        Some((" from the east."@, " to the west."@))
    } else {
        None
    }
}

/// Whether a position given by two integers is on the map.
pub open spec fn on_map(x: int, y: int) -> bool {
    i16::MIN <= x <= i16::MAX && i16::MIN <= y <= i16::MAX
}

impl MoveMobileEvent {
    /// The world after the mover has arrived and the step was announced: the
    /// arrival to those at the destination and the leaving to those at the
    /// origin, neither to the mover, who is told what is seen at the
    /// destination.
    pub open spec fn announced(
        self,
        arrived: WorldView,
        mover: MobileView,
        from: (i16, i16),
        to: (i16, i16),
    ) -> WorldView {
        match direction_words(self.dx, self.dy) {
            Some((arrive, leave)) => arrived.with_log(
                arrived.messages.posted_no_echo(
                    mover.arrive_prefix + arrive,
                    to.0,
                    to.1,
                    mover.id,
                ).posted_no_echo(mover.leave_prefix + leave, from.0, from.1, mover.id).posted_for_target(
                    arrived.locations[to].full_description(),
                    mover.id,
                ),
            ),
            None => arrived,
        }
    }

    /// What the event does. A mobile that is not on the map, or whose step
    /// would take it off the map, stays where it is. Any other is checked
    /// out, put into the location at the destination, which is made if it
    /// was never seen, and the step is announced. Nothing is enqueued.
    pub open spec fn stepped(
        self,
        world: WorldView,
        queue: EventListView,
        world_after: WorldView,
        queue_after: EventListView,
    ) -> bool {
        &&& queue_after == queue
        &&& if !world.index.contains_key(self.uuid) {
            world_after == world
        } else {
            let from = world.index[self.uuid];
            let mover = world.mobile(self.uuid);
            if !on_map(from.0 + self.dx, from.1 + self.dy) {
                world_after == world
            } else {
                let to = ((from.0 + self.dx) as i16, (from.1 + self.dy) as i16);
                exists|mid: WorldView| #[trigger]
                    world.without_mobile(self.uuid).explores(to.0, to.1, mid) && world_after
                        == self.announced(mid.with_mobile(mover, to.0, to.1), mover, from, to)
            }
        }
    }

    /// Moves the mobile by its step and announces it.
    pub fn tick(&self, world: &mut WorldState, event_q: &mut EventList)
        requires
            old(world)@.wf(),
        ensures
            final(world)@.wf(),
            final(event_q)@.extends(old(event_q)@),
            self.stepped(old(world)@, old(event_q)@, final(world)@, final(event_q)@),
    {
        let coordinate = world.find_mobile_location(self.uuid);
        let xy = match coordinate {
            Some(xy) => xy,
            None => {
                return ;
            },
        };
        let tx: i32 = xy.0 as i32 + self.dx as i32;
        let ty: i32 = xy.1 as i32 + self.dy as i32;
        if tx < -32768 || tx > 32767 || ty < -32768 || ty > 32767 {
            return ;
        }
        let tx: i16 = tx as i16;
        let ty: i16 = ty as i16;
        let mobile = world.fetch_mobile(self.uuid);
        match mobile {
            None => {
                return ;
            },
            Some(mobile) => {
                let ghost held = world@;
                let ghost mover = mobile@;
                proof {
                    assert(old(world)@.locations[xy].wf());
                    assert(mover.id == self.uuid);
                }
                let id = mobile.get_id();
                let arrive_prefix = mobile.arrive_prefix.clone();
                let leave_prefix = mobile.leave_prefix.clone();
                world.add_mobile(mobile, tx, ty);
                let ghost arrived = world@;
                proof {
                    let mid = choose|mid: WorldView| #[trigger]
                        held.explores(tx, ty, mid) && arrived == mid.with_mobile(mover, tx, ty);
                    assert(held.explores(tx, ty, mid));
                    held.lemma_explores_wf(tx, ty, mid);
                    assert(arrived.locations.contains_key((tx, ty)));
                }
                let location_description = world.get_location_description(tx, ty);
                if self.dx == 0 && self.dy == 1 {
                    world.message_list.post_no_echo(
                        join(arrive_prefix.as_str(), " from the south."),
                        tx,
                        ty,
                        id,
                    );
                    world.message_list.post_no_echo(
                        join(leave_prefix.as_str(), " to the north."),
                        xy.0,
                        xy.1,
                        id,
                    );
                    world.message_list.post_for_target(location_description, id);
                } else if self.dx == 0 && self.dy == -1 {
                    world.message_list.post_no_echo(
                        join(arrive_prefix.as_str(), " from the north."),
                        tx,
                        ty,
                        id,
                    );
                    world.message_list.post_no_echo(
                        join(leave_prefix.as_str(), " to the south."),
                        xy.0,
                        xy.1,
                        id,
                    );
                    world.message_list.post_for_target(location_description, id);
                } else if self.dx == 1 && self.dy == 0 {
                    world.message_list.post_no_echo(
                        join(arrive_prefix.as_str(), " from the west."),
                        tx,
                        ty,
                        id,
                    );
                    world.message_list.post_no_echo(
                        join(leave_prefix.as_str(), " to the east."),
                        xy.0,
                        xy.1,
                        id,
                    );
                    world.message_list.post_for_target(location_description, id);
                } else if self.dx == -1 && self.dy == 0 {
                    world.message_list.post_no_echo(
                        join(arrive_prefix.as_str(), " from the east."),
                        tx,
                        ty,
                        id,
                    );
                    world.message_list.post_no_echo(
                        join(leave_prefix.as_str(), " to the west."),
                        xy.0,
                        xy.1,
                        id,
                    );
                    world.message_list.post_for_target(location_description, id);
                }
                proof {
                    assert(world@ == self.announced(arrived, mover, xy, (tx, ty)));
                    assert(world@.wf());
                }
            },
        }
    }
}

} // verus!
