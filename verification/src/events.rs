use crate::items::ItemTypeCode;
use crate::mobile::{Mobile, MobileView};
use std::collections::VecDeque;
use vstd::prelude::*;

verus! {

/// Combat between a pair of mobiles.
#[derive(Clone, Copy, Debug, PartialEq, Eq, Structural)]
pub struct CombatEvent {
    pub attacker: u128,
    pub defender: u128,
}

/// A mobile moves by a step.
#[derive(Clone, Copy, Debug, PartialEq, Eq, Structural)]
pub struct MoveMobileEvent {
    pub uuid: u128,
    pub dx: i16,
    pub dy: i16,
}

/// A mobile that may wander or attack of its own accord takes its turn.
#[derive(Clone, Copy, Debug, PartialEq, Eq, Structural)]
pub struct ActiveMonsterEvent {
    pub id: u128,
}

/// New monsters wander into a thinly peopled world.
#[derive(Clone, Copy, Debug, PartialEq, Eq, Structural)]
pub struct WanderingMonsterEvent {
}

/// Everything in the world gets one tick older.
#[derive(Clone, Copy, Debug, PartialEq, Eq, Structural)]
pub struct AgeEvent {
}

/// One mobile steals from another.
#[derive(Clone, Copy, Debug, PartialEq, Eq, Structural)]
pub struct StealEvent {
    pub thief: u128,
    pub mark: u128,
}

/// A mobile makes an item.
#[derive(Clone, Copy, Debug, PartialEq, Eq, Structural)]
pub struct MakeItemEvent {
    pub maker: u128,
    pub item: ItemTypeCode,
}

/// One unit of scheduled work, with what it was given when it was enqueued.
#[derive(Clone, Copy, Debug, PartialEq, Eq, Structural)]
pub enum Event {
    Combat(CombatEvent),
    MoveMobile(MoveMobileEvent),
    ActiveMonster(ActiveMonsterEvent),
    WanderingMonster(WanderingMonsterEvent),
    Age(AgeEvent),
    Steal(StealEvent),
    MakeItem(MakeItemEvent),
}

/// The scheduler: two generations of events, one of which accepts new
/// events while the other is drained.
pub struct EventList {
    pub(crate) even_event_queue: VecDeque<Event>,
    pub(crate) odd_event_queue: VecDeque<Event>,
    pub(crate) is_odd: bool,
}

/// The scheduler as two sequences, oldest event first: the generation that
/// accepts new events and the one that does not.
pub struct EventListView {
    pub accepting: Seq<Event>,
    pub draining: Seq<Event>,
    pub is_odd: bool,
}

impl View for EventList {
    type V = EventListView;

    open(crate) spec fn view(&self) -> EventListView {
        if self.is_odd {
            EventListView {
                accepting: self.odd_event_queue@,
                draining: self.even_event_queue@,
                is_odd: true,
            }
        } else {
            EventListView {
                accepting: self.even_event_queue@,
                draining: self.odd_event_queue@,
                is_odd: false,
            }
        }
    }
}

impl EventListView {
    /// The scheduler with `events` enqueued, in their order.
    pub open spec fn with(self, events: Seq<Event>) -> EventListView {
        EventListView { accepting: self.accepting + events, ..self }
    }

    /// The scheduler is what `before` has become by enqueuing: every event of
    /// `before` is where it was, and the generation that does not accept
    /// events is untouched.
    pub open spec fn extends(self, before: EventListView) -> bool {
        &&& self.is_odd == before.is_odd
        &&& self.draining == before.draining
        &&& before.accepting.len() <= self.accepting.len()
        &&& forall|i: int|
            0 <= i < before.accepting.len() ==> self.accepting[i] == before.accepting[i]
    }

    /// The scheduler at rest, between two ticks: the generation that does
    /// not accept events holds none.
    pub open spec fn at_rest(self) -> bool {
        self.draining.len() == 0
    }
}

impl EventList {
    /// A scheduler with no events.
    pub fn new() -> (list: EventList)
        ensures
            list@ == (EventListView {
                accepting: Seq::empty(),
                draining: Seq::empty(),
                is_odd: false,
            }),
            list@.at_rest(),
    {
        EventList {
            even_event_queue: VecDeque::new(),
            odd_event_queue: VecDeque::new(),
            is_odd: false,
        }
    }

    /// Enqueues an event: it goes to the end of the generation that accepts
    /// events.
    pub fn insert(&mut self, event: Event)
        ensures
            final(self)@ == old(self)@.with(seq![event]),
            final(self)@.extends(old(self)@),
    {
        if self.is_odd {
            self.odd_event_queue.push_back(event);
        } else {
            self.even_event_queue.push_back(event);
        }
        proof {
            assert(self@.accepting =~= old(self)@.accepting + seq![event]);
        }
    }

    /// The events that wait in the generation that accepts events, oldest
    /// first.
    pub fn waiting(&self) -> (events: Vec<Event>)
        ensures
            events@ == self@.accepting,
    {
        let mut events: Vec<Event> = Vec::new();
        let mut i: usize = 0;
        let n = self.pending();
        while i < n
            invariant
                i <= n,
                n == self@.accepting.len(),
                events@ == self@.accepting.take(i as int),
            decreases n - i,
        {
            let event = if self.is_odd {
                self.odd_event_queue[i]
            } else {
                self.even_event_queue[i]
            };
            events.push(event);
            proof {
                assert(events@ =~= self@.accepting.take(i + 1));
            }
            i += 1;
        }
        proof {
            assert(self@.accepting.take(n as int) =~= self@.accepting);
        }
        events
    }

    /// How many events wait in the generation that accepts events.
    pub fn pending(&self) -> (count: usize)
        ensures
            count == self@.accepting.len(),
    {
        if self.is_odd {
            self.odd_event_queue.len()
        } else {
            self.even_event_queue.len()
        }
    }
}

impl WanderingMonsterEvent {
    /// The event that lets monsters wander in.
    pub fn new() -> (event: WanderingMonsterEvent)
        ensures
            event == (WanderingMonsterEvent {  }),
    {
        WanderingMonsterEvent {  }
    }
}

impl AgeEvent {
    /// The event that lets a tick pass over the world.
    pub fn new() -> (event: AgeEvent)
        ensures
            event == (AgeEvent {  }),
    {
        AgeEvent {  }
    }
}

} // verus!
