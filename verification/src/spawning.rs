use crate::dice::draw_byte;
use crate::events::{
    ActiveMonsterEvent, Event, EventList, EventListView, WanderingMonsterEvent,
};
use crate::items::ItemView;
use crate::location::{Location, LocationTypeCode, LocationView};
use crate::map::{placed, visit_trace, LocationVisitor};
use crate::message::{MessageList, MessageListView, MessageView};
use crate::mobile::{Mobile, MobileView};
use crate::object::Object;
use crate::order::positions_in_order;
use crate::text::join3;
use crate::world::{WorldState, WorldView};
use vstd::prelude::*;
use vstd::string::*;

verus! {

/// The visitor that gathers the monsters that wander in, each with the
/// position of the location it was made for.
pub struct WanderingMonsterLocationVisitor {
    pub monster_list: Vec<(i16, i16, Box<Mobile>)>,
}

/// The monsters gathered, oldest first, as views.
pub open spec fn arrivals(list: Seq<(i16, i16, Box<Mobile>)>) -> Seq<(i16, i16, MobileView)> {
    list.map_values(|e: (i16, i16, Box<Mobile>)| (e.0, e.1, e.2@))
}

/// A lumberjack as it is made.
pub open spec fn made_as_lumber_jack(m: MobileView) -> bool {
    &&& m == MobileView::lumber_jack(
        m.id,
        m.dexterity,
        m.constitution,
        m.intelligence,
        m.wisdom,
        m.charisma,
    )
    &&& 3 <= m.dexterity <= 18
    &&& 3 <= m.constitution <= 18
    &&& 3 <= m.intelligence <= 18
    &&& 3 <= m.wisdom <= 18
    &&& 3 <= m.charisma <= 18
}

/// A small woodland creature as it is made.
pub open spec fn made_as_woodland_creature(m: MobileView) -> bool {
    &&& exists|luck: i16, perception_roll: i16, trinket_roll: int|
        1 <= luck <= 4 && 1 <= perception_roll <= 4 && 1 <= trinket_roll <= 8 && m == (
        #[trigger] MobileView::bare_woodland_creature(
            m.id,
            m.strength,
            m.max_damage,
            m.intelligence,
            m.charisma,
            luck,
            perception_roll,
        )).given(#[trigger] ItemView::woodland_trinket(trinket_roll))
    &&& 1 <= m.strength <= 4
    &&& 1 <= m.max_damage <= 4
    &&& 1 <= m.intelligence <= 4
    &&& 1 <= m.charisma <= 4
}

/// A goblin as it is made.
pub open spec fn made_as_goblin(m: MobileView) -> bool {
    exists|treasure_roll: int|
        1 <= treasure_roll <= 20 && m == #[trigger] MobileView::goblin(m.id, treasure_roll)
}

/// Whether `m` is a monster that the table of a kind of location gives for
/// the byte `pick`. A forest has a rodent, a lumberjack, a rabbit and a
/// small woodland creature for zero to three; a town a beggar and a foppish
/// dandy for zero and one; the deep woods a goblin and a head hunter for
/// zero and one. Nothing else gives a monster.
pub open spec fn spawn_for(location_type: LocationTypeCode, pick: int, m: MobileView) -> bool {
    match location_type {
        LocationTypeCode::Forest => if pick == 0 {
            m == MobileView::rodent(m.id)
        } else if pick == 1 {
            made_as_lumber_jack(m)
        } else if pick == 2 {
            m == MobileView::rabbit(m.id)
        } else if pick == 3 {
            made_as_woodland_creature(m)
        } else {
            false
        },
        LocationTypeCode::Town => if pick == 0 {
            m == MobileView::beggar(m.id)
        } else if pick == 1 {
            m == MobileView::foppish_dandy(m.id)
        } else {
            false
        },
        LocationTypeCode::DeepWoods => if pick == 0 {
            made_as_goblin(m)
        } else if pick == 1 {
            m == MobileView::head_hunter(m.id)
        } else {
            false
        },
        _ => false,
    }
}

/// Whether the table of a kind of location gives a monster for a byte.
pub open spec fn spawns(location_type: LocationTypeCode, pick: int) -> bool {
    match location_type {
        LocationTypeCode::Forest => 0 <= pick <= 3,
        LocationTypeCode::Town => 0 <= pick <= 1,
        LocationTypeCode::DeepWoods => 0 <= pick <= 1,
        _ => false,
    }
}

/// Whether `m` is a monster that can wander into a location of a kind.
pub open spec fn may_spawn_in(location_type: LocationTypeCode, m: MobileView) -> bool {
    exists|pick: int| 0 <= pick <= 255 && #[trigger] spawn_for(location_type, pick, m)
}

/// Whether `list` can be what is gathered over the listed locations: for
/// each location in turn at most one monster that can wander into it, with
/// the position of the location.
pub open spec fn gathered_from(
    locations: Map<(i16, i16), LocationView>,
    order: Seq<(i16, i16)>,
    list: Seq<(i16, i16, MobileView)>,
) -> bool
    decreases order.len(),
{
    if order.len() == 0 {
        list.len() == 0
    } else {
        let at = locations[order.last()];
        gathered_from(locations, order.drop_last(), list) || (list.len() > 0 && list.last().0
            == at.x && list.last().1 == at.y && may_spawn_in(at.location_type, list.last().2)
            && gathered_from(locations, order.drop_last(), list.drop_last()))
    }
}

/// The world and the scheduler after one monster has arrived at `(x, y)`,
/// where a location is: the arrival is announced there, the monster's turns
/// are enqueued if it acts of its own accord, and the monster enters the
/// location. A monster whose identifier is taken, on the map or by a mobile
/// that is away, does not arrive.
pub open spec fn arrived(
    world: WorldView,
    queue: EventListView,
    x: i16,
    y: i16,
    m: MobileView,
) -> (WorldView, EventListView) {
    if world.index.contains_key(m.id) || world.stash.contains_key(m.id) {
        (world, queue)
    } else {
        (
            world.with_log(
                world.messages.with(
                    MessageView::public(
                        "A "@ + m.name + " has arrived."@,
                        x,
                        y,
                        world.messages.now,
                    ),
                ),
            ).with_mobile(m, x, y),
            if m.active() {
                queue.with(seq![Event::ActiveMonster(ActiveMonsterEvent { id: m.id })])
            } else {
                queue
            },
        )
    }
}

/// The world and the scheduler after the monsters gathered have arrived one
/// after the other.
pub open spec fn arrived_all(
    world: WorldView,
    queue: EventListView,
    list: Seq<(i16, i16, MobileView)>,
) -> (WorldView, EventListView)
    decreases list.len(),
{
    if list.len() == 0 {
        (world, queue)
    } else {
        let (w, q) = arrived_all(world, queue, list.drop_last());
        arrived(w, q, list.last().0, list.last().1, list.last().2)
    }
}

/// Every monster gathered over locations kept under their positions was
/// made for one of those locations.
proof fn lemma_gathered_positions(
    locations: Map<(i16, i16), LocationView>,
    order: Seq<(i16, i16)>,
    list: Seq<(i16, i16, MobileView)>,
)
    requires
        gathered_from(locations, order, list),
        placed(locations),
        forall|k: int| 0 <= k < order.len() ==> locations.contains_key(#[trigger] order[k]),
    ensures
        forall|k: int|
            0 <= k < list.len() ==> locations.contains_key((#[trigger] list[k].0, list[k].1)),
    decreases order.len(),
{
    if order.len() > 0 {
        let rest = order.drop_last();
        assert forall|k: int| 0 <= k < rest.len() implies locations.contains_key(
            #[trigger] rest[k],
        ) by {
            assert(rest[k] == order[k]);
        }
        if gathered_from(locations, rest, list) {
            lemma_gathered_positions(locations, rest, list);
        } else {
            lemma_gathered_positions(locations, rest, list.drop_last());
            let p = order[order.len() - 1];
            assert(locations.contains_key(p));
            assert forall|k: int| 0 <= k < list.len() implies locations.contains_key(
                (#[trigger] list[k].0, list[k].1),
            ) by {
                if k < list.len() - 1 {
                    assert(list.drop_last()[k] == list[k]);
                } else {
                    assert((list[k].0, list[k].1) == p);
                }
            }
        }
    }
}

/// Along a run of gathering visits the monsters gathered are some that can
/// be gathered over the locations visited so far, and the log is untouched.
proof fn lemma_gather_trace(
    before: Map<(i16, i16), LocationView>,
    after: Map<(i16, i16), LocationView>,
    order: Seq<(i16, i16)>,
    visitors: Seq<WanderingMonsterLocationVisitor>,
    logs: Seq<MessageListView>,
    k: int,
)
    requires
        visit_trace(before, after, order, visitors, logs),
        0 <= k <= order.len(),
        arrivals(visitors[0].monster_list@).len() == 0,
    ensures
        gathered_from(before, order.take(k), arrivals(visitors[k].monster_list@)),
        logs[k] == logs[0],
        forall|j: int| 0 <= j < k ==> after[#[trigger] order[j]] == before[order[j]],
    decreases k,
{
    if k > 0 {
        lemma_gather_trace(before, after, order, visitors, logs, k - 1);
        assert(order.take(k).drop_last() =~= order.take(k - 1));
        assert(order.take(k).last() == order[k - 1]);
        assert(visitors[k - 1].visited(
            &visitors[k - 1 + 1],
            before[order[k - 1]],
            after[order[k - 1]],
            logs[k - 1],
            logs[k - 1 + 1],
        ));
        let earlier = arrivals(visitors[k - 1].monster_list@);
        let now = arrivals(visitors[k].monster_list@);
        if now != earlier {
            assert(now.drop_last() =~= earlier);
        }
    } else {
        assert(order.take(0) =~= Seq::<(i16, i16)>::empty());
    }
}

impl LocationVisitor for WanderingMonsterLocationVisitor {
    open spec fn visited(
        &self,
        after: &Self,
        location: LocationView,
        location_after: LocationView,
        log: MessageListView,
        log_after: MessageListView,
    ) -> bool {
        &&& location_after == location
        &&& log_after == log
        &&& arrivals(after.monster_list@) == arrivals(self.monster_list@) || exists|
            m: MobileView,
        |
            may_spawn_in(location.location_type, m) && arrivals(after.monster_list@)
                == #[trigger] arrivals(self.monster_list@).push((location.x, location.y, m))
    }

    fn visit_location(&mut self, location: &mut Box<Location>, _messages: &mut MessageList) {
        let monster = match location.location_type {
            LocationTypeCode::Forest => self.forest_wandering_monster(),
            LocationTypeCode::Town => self.town_wandering_monster(),
            LocationTypeCode::DeepWoods => self.deep_woods_wandering_monster(),
            _ => None,
        };
        let ghost made: Option<MobileView> = crate::location::maybe_mobile_view(monster);
        self.gather(location.x, location.y, monster);
        proof {
            match made {
                Some(m) => {
                    assert(may_spawn_in(location@.location_type, m));
                    assert(arrivals(self.monster_list@) == arrivals(old(self).monster_list@).push(
                        (location@.x, location@.y, m),
                    ));
                },
                None => {},
            }
        }
    }
}

impl WanderingMonsterLocationVisitor {
    /// Takes in what the table of the location at `(x, y)` gave: a monster
    /// joins those gathered, last, with the position of the location; with
    /// no monster nothing changes.
    pub fn gather(&mut self, x: i16, y: i16, monster: Option<Box<Mobile>>)
        ensures
            arrivals(final(self).monster_list@) == match monster {
                Some(m) => arrivals(old(self).monster_list@).push((x, y, m@)),
                None => arrivals(old(self).monster_list@),
            },
    {
        match monster {
            Some(monster) => {
                let ghost m = monster@;
                self.monster_list.push((x, y, monster));
                proof {
                    assert(arrivals(self.monster_list@) =~= arrivals(old(self).monster_list@).push(
                        (x, y, m),
                    ));
                }
            },
            None => {},
        }
    }

    /// The monster that the deep woods give for a byte.
    pub fn deep_woods_wandering_monster_for(pick: u8) -> (monster: Option<Box<Mobile>>)
        ensures
            monster is Some == spawns(LocationTypeCode::DeepWoods, pick as int),
            monster is Some ==> spawn_for(LocationTypeCode::DeepWoods, pick as int, monster->0@),
    {
        match pick {
            0 => Some(Mobile::goblin()),
            1 => Some(Mobile::head_hunter()),
            _ => None,
        }
    }

    /// The monster that a forest gives for a byte.
    pub fn forest_wandering_monster_for(pick: u8) -> (monster: Option<Box<Mobile>>)
        ensures
            monster is Some == spawns(LocationTypeCode::Forest, pick as int),
            monster is Some ==> spawn_for(LocationTypeCode::Forest, pick as int, monster->0@),
    {
        match pick {
            0 => Some(Mobile::rodent()),
            1 => Some(Mobile::lumber_jack()),
            2 => Some(Mobile::rabbit()),
            3 => Some(Mobile::small_woodland_creature()),
            _ => None,
        }
    }

    /// The monster that a town gives for a byte.
    pub fn town_wandering_monster_for(pick: u8) -> (monster: Option<Box<Mobile>>)
        ensures
            monster is Some == spawns(LocationTypeCode::Town, pick as int),
            monster is Some ==> spawn_for(LocationTypeCode::Town, pick as int, monster->0@),
    {
        match pick {
            0 => Some(Mobile::beggar()),
            1 => Some(Mobile::foppish_dandy()),
            _ => None,
        }
    }

    /// A monster that wanders into the deep woods, or none: decided by a
    /// random byte.
    pub fn deep_woods_wandering_monster(&self) -> (monster: Option<Box<Mobile>>)
        ensures
            monster is Some ==> may_spawn_in(LocationTypeCode::DeepWoods, monster->0@),
    {
        let pick = draw_byte();
        let monster = Self::deep_woods_wandering_monster_for(pick);
        proof {
            if monster is Some {
                assert(spawn_for(LocationTypeCode::DeepWoods, pick as int, monster->0@));
            }
        }
        monster
    }

    /// A monster that wanders into a forest, or none: decided by a random
    /// byte.
    pub fn forest_wandering_monster(&self) -> (monster: Option<Box<Mobile>>)
        ensures
            monster is Some ==> may_spawn_in(LocationTypeCode::Forest, monster->0@),
    {
        let pick = draw_byte();
        let monster = Self::forest_wandering_monster_for(pick);
        proof {
            if monster is Some {
                assert(spawn_for(LocationTypeCode::Forest, pick as int, monster->0@));
            }
        }
        monster
    }

    /// A monster that wanders into a town, or none: decided by a random
    /// byte.
    pub fn town_wandering_monster(&self) -> (monster: Option<Box<Mobile>>)
        ensures
            monster is Some ==> may_spawn_in(LocationTypeCode::Town, monster->0@),
    {
        let pick = draw_byte();
        let monster = Self::town_wandering_monster_for(pick);
        proof {
            if monster is Some {
                assert(spawn_for(LocationTypeCode::Town, pick as int, monster->0@));
            }
        }
        monster
    }
}

impl WorldView {
    /// Whether there is less than one mobile on the map to four explored
    /// locations.
    pub open spec fn sparse(self) -> bool {
        4 * self.index.dom().len() < self.locations.dom().len()
    }
}

impl WanderingMonsterEvent {
    /// What the event does. Into a world that is thinly peopled monsters
    /// wander: they are gathered over the locations in the order of the map
    /// and arrive one after the other. The event then enqueues itself again.
    pub open spec fn stepped(
        self,
        world: WorldView,
        queue: EventListView,
        world_after: WorldView,
        queue_after: EventListView,
    ) -> bool {
        if !world.sparse() {
            world_after == world && queue_after == queue.with(
                seq![Event::WanderingMonster(WanderingMonsterEvent {  })],
            )
        } else {
            exists|list: Seq<(i16, i16, MobileView)>|
                gathered_from(
                    world.locations,
                    positions_in_order(world.locations.dom()),
                    list,
                ) && world_after == (#[trigger] arrived_all(world, queue, list)).0 && queue_after
                    == arrived_all(world, queue, list).1.with(
                    seq![Event::WanderingMonster(WanderingMonsterEvent {  })],
                )
        }
    }

    /// Lets one monster arrive at `(x, y)`.
    pub fn arrive(
        world: &mut WorldState,
        event_q: &mut EventList,
        x: i16,
        y: i16,
        monster: Box<Mobile>,
    )
        requires
            old(world)@.wf(),
            old(world)@.locations.contains_key((x, y)),
        ensures
            final(world)@.wf(),
            final(world)@.locations.dom() == old(world)@.locations.dom(),
            final(event_q)@.extends(old(event_q)@),
            (final(world)@, final(event_q)@) == arrived(
                old(world)@,
                old(event_q)@,
                x,
                y,
                monster@,
            ),
    {
        if world.mobile_active(monster.get_id()) || world.is_stashed(monster.get_id()) {
            return ;
        }
        let name = monster.get_name();
        let msg = join3("A ", name.as_str(), " has arrived.");
        world.message_list.broadcast(msg, x, y);
        if monster.is_active() {
            event_q.insert(Event::ActiveMonster(ActiveMonsterEvent { id: monster.get_id() }));
        }
        proof {
            old(world)@.lemma_frame_wf(world@);
            world@.lemma_with_mobile_wf(monster@, x, y);
        }
        world.add_mobile(monster, x, y);
    }

    /// Lets monsters wander into the world.
    pub fn tick(&self, world: &mut WorldState, event_q: &mut EventList)
        requires
            old(world)@.wf(),
        ensures
            final(world)@.wf(),
            final(event_q)@.extends(old(event_q)@),
            self.stepped(old(world)@, old(event_q)@, final(world)@, final(event_q)@),
    {
        if world.is_sparse() {
            let mut visitor = WanderingMonsterLocationVisitor { monster_list: Vec::new() };
            let ghost start = visitor;
            proof {
                assert(arrivals(visitor.monster_list@) =~= Seq::<(i16, i16, MobileView)>::empty());
            }
            world.visit_all_locations(&mut visitor);
            let ghost list = arrivals(visitor.monster_list@);
            proof {
                let order = positions_in_order(old(world)@.locations.dom());
                let (visitors, logs) = choose|
                    visitors: Seq<WanderingMonsterLocationVisitor>,
                    logs: Seq<MessageListView>,
                |
                    {
                        &&& #[trigger] visit_trace(
                            old(world)@.locations,
                            world@.locations,
                            order,
                            visitors,
                            logs,
                        )
                        &&& visitors.first() == start
                        &&& visitors.last() == visitor
                        &&& logs.first() == old(world)@.messages
                        &&& logs.last() == world@.messages
                    };
                assert(arrivals(visitors[0].monster_list@) =~= Seq::<
                    (i16, i16, MobileView),
                >::empty());
                lemma_gather_trace(
                    old(world)@.locations,
                    world@.locations,
                    order,
                    visitors,
                    logs,
                    order.len() as int,
                );
                assert(order.take(order.len() as int) =~= order);
                crate::order::lemma_positions_listed(old(world)@.locations.dom());
                assert forall|k: int| 0 <= k < order.len() implies old(
                    world,
                )@.locations.contains_key(#[trigger] order[k]) by {
                    assert(order.contains(order[k]));
                    assert(order.to_set().contains(order[k]));
                }
                assert forall|p: (i16, i16)| #[trigger]
                    old(world)@.locations.contains_key(p) implies world@.locations[p] == old(
                    world,
                )@.locations[p] by {
                    assert(order.to_set().contains(p));
                    assert(order.contains(p));
                    let j = choose|j: int| 0 <= j < order.len() && order[j] == p;
                    assert(world@.locations[order[j]] == old(world)@.locations[order[j]]);
                }
                assert(world@.locations =~= old(world)@.locations);
                assert(world@ == old(world)@);
                lemma_gathered_positions(old(world)@.locations, order, list);
            }
            let mut monsters = visitor.monster_list;
            let ghost mut done: int = 0;
            while monsters.len() > 0
                invariant
                    world@.wf(),
                    event_q@.extends(old(event_q)@),
                    world@.locations.dom() == old(world)@.locations.dom(),
                    0 <= done <= list.len(),
                    arrivals(monsters@) == list.skip(done),
                    forall|k: int|
                        0 <= k < list.len() ==> old(world)@.locations.contains_key(
                            (#[trigger] list[k].0, list[k].1),
                        ),
                    (world@, event_q@) == arrived_all(
                        old(world)@,
                        old(event_q)@,
                        list.take(done),
                    ),
                decreases monsters.len(),
            {
                let ghost waiting = monsters@;
                proof {
                    assert(arrivals(waiting).len() == waiting.len());
                    assert(list.skip(done).len() == list.len() - done);
                    assert(done < list.len());
                }
                let item = monsters.remove(0);
                proof {
                    assert(arrivals(waiting)[0] == list.skip(done)[0]);
                    assert(arrivals(waiting)[0] == list[done]);
                    assert(item.2@ == list[done].2 && item.0 == list[done].0 && item.1
                        == list[done].1);
                    assert forall|j: int| 0 <= j < monsters@.len() implies arrivals(monsters@)[j]
                        == list.skip(done + 1)[j] by {
                        assert(monsters@[j] == waiting[j + 1]);
                        assert(arrivals(waiting)[j + 1] == list.skip(done)[j + 1]);
                    }
                    assert(arrivals(monsters@) =~= list.skip(done + 1));
                    let next = list.take(done + 1);
                    assert(next.drop_last() =~= list.take(done));
                    assert(next.last() == list[done]);
                    assert(old(world)@.locations.contains_key((list[done].0, list[done].1)));
                }
                WanderingMonsterEvent::arrive(world, event_q, item.0, item.1, item.2);
                proof {
                    done = done + 1;
                }
            }
            proof {
                assert(list.skip(done).len() == 0);
                assert(list.take(done) =~= list);
            }
        }
        let next_event = Event::WanderingMonster(WanderingMonsterEvent::new());
        event_q.insert(next_event);
    }
}

} // verus!
