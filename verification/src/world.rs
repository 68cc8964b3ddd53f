use crate::items::{maybe_item_view, Item, ItemView};
use crate::location::{maybe_mobile_view, Location, LocationTypeCode, LocationView};
use crate::map::{
    generated, initial_map, may_generate, placed, type_at, visit_trace, LocationVisitor, WorldMap,
};
use crate::message::{MessageList, MessageListView};
use crate::mobile::{Mobile, MobileView};
use crate::order::positions_in_order;
use std::collections::BTreeMap;
use vstd::prelude::*;

verus! {

/// The whole simulated world: the map with everything on it, where each
/// mobile is, the characters that are away, and the message log.
pub struct WorldState {
    pub message_list: MessageList,
    pub(crate) map: WorldMap,
    pub(crate) mobile_uuid_to_location: BTreeMap<u128, (i16, i16)>,
    pub(crate) stash: BTreeMap<u128, (Box<Mobile>, i16, i16)>,
    pub(crate) killed: Vec<String>,
}

/// What the world is: the locations by position, the position of every
/// mobile that is on the map, the mobiles that are away with the positions
/// they left from, and the log.
pub struct WorldView {
    pub messages: MessageListView,
    pub locations: Map<(i16, i16), LocationView>,
    pub index: Map<u128, (i16, i16)>,
    pub stash: Map<u128, (MobileView, i16, i16)>,
    /// The names of the mobiles slain since the names were last taken.
    pub killed: Seq<Seq<char>>,
}

impl View for WorldState {
    type V = WorldView;

    open(crate) spec fn view(&self) -> WorldView {
        WorldView {
            messages: self.message_list@,
            locations: self.map@,
            index: self.mobile_uuid_to_location@,
            stash: self.stash@.map_values(|e: (Box<Mobile>, i16, i16)| (e.0@, e.1, e.2)),
            killed: self.killed@.map_values(|n: String| n@),
        }
    }
}

impl WorldView {
    /// The world as it is first made: the town at the origin and nobody in it.
    pub open spec fn initial() -> WorldView {
        WorldView {
            messages: MessageListView { messages: Seq::empty(), now: 0 },
            locations: initial_map(),
            index: Map::empty(),
            stash: Map::empty(),
            killed: Seq::empty(),
        }
    }

    /// The ownership discipline of the world. Every location is kept under
    /// its own position and every mobile under its own identifier; the index
    /// knows exactly the mobiles that are in some location, each at the
    /// position of the location it is in; and no mobile that is away is on
    /// the map as well.
    pub open spec fn wf(self) -> bool {
        &&& self.index.dom().finite()
        &&& self.locations.dom().finite()
        &&& placed(self.locations)
        &&& forall|p: (i16, i16)| #[trigger] self.locations.contains_key(p) ==> self.locations[p].wf()
        &&& forall|id: u128| #[trigger]
            self.index.contains_key(id) ==> self.locations.contains_key(self.index[id])
                && self.locations[self.index[id]].mobiles.contains_key(id)
        &&& forall|p: (i16, i16), id: u128|
            self.locations.contains_key(p) && #[trigger] self.locations[p].mobiles.contains_key(id)
                ==> self.index.contains_key(id) && self.index[id] == p
        &&& forall|id: u128| #[trigger]
            self.stash.contains_key(id) ==> self.stash[id].0.id == id && !self.index.contains_key(id)
    }

    /// The mobiles that are in some location.
    pub open spec fn residents(self) -> Set<u128> {
        Set::new(
            |id: u128|
                exists|p: (i16, i16)|
                    self.locations.contains_key(p) && #[trigger] self.locations[p].mobiles.contains_key(
                        id,
                    ),
        )
    }

    /// The mobile known as `id`, which is on the map.
    pub open spec fn mobile(self, id: u128) -> MobileView {
        self.locations[self.index[id]].mobiles[id]
    }

    /// The world with `location` at its own position.
    pub open spec fn with_location(self, location: LocationView) -> WorldView {
        WorldView { locations: self.locations.insert((location.x, location.y), location), ..self }
    }

    /// `after` is what the world can be once `(x, y)` has been looked at:
    /// the same world where the location was known, and else the world with
    /// a location newly made there.
    pub open spec fn explores(self, x: i16, y: i16, after: WorldView) -> bool {
        if self.locations.contains_key((x, y)) {
            after == self
        } else {
            exists|fresh: LocationView| #[trigger]
                may_generate(self.locations, x, y, fresh) && after == self.with_location(fresh)
        }
    }

    /// The world with `mobile` put into the location at `(x, y)`.
    pub open spec fn with_mobile(self, mobile: MobileView, x: i16, y: i16) -> WorldView {
        WorldView {
            locations: self.locations.insert((x, y), self.locations[(x, y)].with_mobile(mobile)),
            index: self.index.insert(mobile.id, (x, y)),
            ..self
        }
    }

    /// The world with the mobile known as `id` taken out of its location.
    pub open spec fn without_mobile(self, id: u128) -> WorldView {
        let p = self.index[id];
        WorldView {
            locations: self.locations.insert(p, self.locations[p].without_mobile(id)),
            index: self.index.remove(id),
            ..self
        }
    }

    /// The world with `item` put down at `(x, y)`.
    pub open spec fn with_item(self, x: i16, y: i16, item: ItemView) -> WorldView {
        WorldView {
            locations: self.locations.insert((x, y), self.locations[(x, y)].with_item(item)),
            ..self
        }
    }

    /// The world without the item at `pos` in the location at `(x, y)`.
    pub open spec fn without_item(self, x: i16, y: i16, pos: int) -> WorldView {
        WorldView {
            locations: self.locations.insert((x, y), self.locations[(x, y)].without_item(pos)),
            ..self
        }
    }

    /// The world with what is left of `mobile` put down at `(x, y)`: its
    /// corpse, and after it everything it carried.
    pub open spec fn with_corpse(self, mobile: MobileView, x: i16, y: i16) -> WorldView {
        self.with_location(
            LocationView {
                items: self.locations[(x, y)].items.push(ItemView::corpse(mobile.name))
                    + mobile.loot(),
                ..self.locations[(x, y)]
            },
        )
    }

    /// The world with another log.
    pub open spec fn with_log(self, messages: MessageListView) -> WorldView {
        WorldView { messages, ..self }
    }

    /// In a world that keeps the ownership discipline the index knows
    /// exactly the mobiles that are in some location, and as many.
    pub proof fn lemma_index_is_residents(self)
        requires
            self.wf(),
        ensures
            self.residents() == self.index.dom(),
            self.residents().len() == self.index.dom().len(),
    {
        assert forall|id: u128| self.residents().contains(id) <==> self.index.dom().contains(
            id,
        ) by {
            if self.index.dom().contains(id) {
                assert(self.index.contains_key(id));
                let p = self.index[id];
                assert(self.locations.contains_key(p) && self.locations[p].mobiles.contains_key(id));
            }
        }
        assert(self.residents() =~= self.index.dom());
    }

    /// No mobile is in two locations at once.
    pub proof fn lemma_single_owner(self, id: u128, p: (i16, i16), q: (i16, i16))
        requires
            self.wf(),
            self.locations.contains_key(p),
            self.locations[p].mobiles.contains_key(id),
            self.locations.contains_key(q),
            self.locations[q].mobiles.contains_key(id),
        ensures
            p == q,
    {
    }

    /// A mobile that is away is in no location.
    pub proof fn lemma_away_is_off_the_map(self, id: u128, p: (i16, i16))
        requires
            self.wf(),
            self.stash.contains_key(id),
            self.locations.contains_key(p),
        ensures
            !self.locations[p].mobiles.contains_key(id),
    {
    }

    /// Looking at a position keeps the ownership discipline and moves nobody.
    pub proof fn lemma_explores_wf(self, x: i16, y: i16, after: WorldView)
        requires
            self.wf(),
            self.explores(x, y, after),
        ensures
            after.wf(),
            after.locations.contains_key((x, y)),
            after.index == self.index,
            after.stash == self.stash,
            after.messages == self.messages,
            after.locations.dom() == self.locations.dom().insert((x, y)),
            forall|p: (i16, i16)| #[trigger]
                self.locations.contains_key(p) ==> after.locations[p] == self.locations[p],
    {
        if !self.locations.contains_key((x, y)) {
            let fresh = choose|fresh: LocationView| #[trigger]
                may_generate(self.locations, x, y, fresh) && after == self.with_location(fresh);
            assert(fresh.mobiles =~= Map::<u128, MobileView>::empty());
            assert(after.locations.dom() =~= self.locations.dom().insert((x, y)));
        } else {
            assert(after.locations.dom() =~= self.locations.dom().insert((x, y)));
        }
    }

    /// Changing only the items that lie at a position keeps the ownership
    /// discipline.
    pub proof fn lemma_items_wf(self, x: i16, y: i16, items: Seq<ItemView>)
        requires
            self.wf(),
            self.locations.contains_key((x, y)),
        ensures
            self.with_location(LocationView { items, ..self.locations[(x, y)] }).wf(),
    {
        let after = self.with_location(LocationView { items, ..self.locations[(x, y)] });
        assert(after.locations.dom() =~= self.locations.dom());
        assert forall|q: (i16, i16), other: u128|
            after.locations.contains_key(q) && #[trigger] after.locations[q].mobiles.contains_key(
                other,
            ) implies after.index.contains_key(other) && after.index[other] == q by {
            assert(self.locations[q].mobiles.contains_key(other));
        }
        assert forall|other: u128| #[trigger] after.index.contains_key(other)
            implies after.locations.contains_key(
        after.index[other]) && after.locations[after.index[other]].mobiles.contains_key(other) by {
            assert(self.index.contains_key(other));
        }
        assert forall|p: (i16, i16)| #[trigger] after.locations.contains_key(p)
            implies after.locations[p].wf() by {
            assert(self.locations.contains_key(p));
            assert(self.locations[p].wf());
        }
    }

    /// Checking a mobile out keeps the ownership discipline: the index and
    /// the locations lose the same mobile, and the index is one smaller.
    pub proof fn lemma_without_mobile_wf(self, id: u128)
        requires
            self.wf(),
            self.index.contains_key(id),
        ensures
            self.without_mobile(id).wf(),
            self.without_mobile(id).index.dom() == self.index.dom().remove(id),
            self.without_mobile(id).index.dom().len() == self.index.dom().len() - 1,
            self.without_mobile(id).locations.dom() == self.locations.dom(),
    {
        let after = self.without_mobile(id);
        let p = self.index[id];
        assert(after.locations.dom() =~= self.locations.dom());
        assert(after.index.dom() =~= self.index.dom().remove(id));
        assert forall|q: (i16, i16), other: u128|
            after.locations.contains_key(q) && #[trigger] after.locations[q].mobiles.contains_key(
                other,
            ) implies after.index.contains_key(other) && after.index[other] == q by {
            assert(self.locations[q].mobiles.contains_key(other));
        }
        assert forall|other: u128| #[trigger] after.index.contains_key(other)
            implies after.locations.contains_key(
        after.index[other]) && after.locations[after.index[other]].mobiles.contains_key(other) by {
            assert(self.index.contains_key(other));
        }
    }

    /// Returning a mobile that is not on the map keeps the ownership
    /// discipline: the index and the location gain the same mobile, and the
    /// index is one larger.
    pub proof fn lemma_with_mobile_wf(self, mobile: MobileView, x: i16, y: i16)
        requires
            self.wf(),
            self.locations.contains_key((x, y)),
            !self.index.contains_key(mobile.id),
            !self.stash.contains_key(mobile.id),
        ensures
            self.with_mobile(mobile, x, y).wf(),
            self.with_mobile(mobile, x, y).index.dom() == self.index.dom().insert(mobile.id),
            self.with_mobile(mobile, x, y).index.dom().len() == self.index.dom().len() + 1,
            self.with_mobile(mobile, x, y).locations.dom() == self.locations.dom(),
    {
        let after = self.with_mobile(mobile, x, y);
        assert(after.locations.dom() =~= self.locations.dom());
        assert(after.index.dom() =~= self.index.dom().insert(mobile.id));
        assert forall|q: (i16, i16), other: u128|
            after.locations.contains_key(q) && #[trigger] after.locations[q].mobiles.contains_key(
                other,
            ) implies after.index.contains_key(other) && after.index[other] == q by {
            if other != mobile.id {
                assert(self.locations[q].mobiles.contains_key(other));
            } else if q != (x, y) {
                assert(self.locations[q].mobiles.contains_key(other));
            }
        }
        assert forall|other: u128| #[trigger] after.index.contains_key(other)
            implies after.locations.contains_key(
        after.index[other]) && after.locations[after.index[other]].mobiles.contains_key(other) by {
            if other != mobile.id {
                assert(self.index.contains_key(other));
            }
        }
        assert forall|p: (i16, i16)| #[trigger] after.locations.contains_key(p)
            implies after.locations[p].wf() by {
            assert(self.locations.contains_key(p));
            assert(self.locations[p].wf());
        }
    }

    /// The ownership discipline does not depend on the log nor on the
    /// record of the slain.
    pub proof fn lemma_frame_wf(self, other: WorldView)
        requires
            self.wf(),
            other.locations == self.locations,
            other.index == self.index,
            other.stash == self.stash,
        ensures
            other.wf(),
    {
    }

    /// Returning a mobile unchanged to where it was checked out from gives
    /// the world back as it was.
    pub proof fn lemma_return_restores(self, id: u128)
        requires
            self.wf(),
            self.index.contains_key(id),
        ensures
            self.without_mobile(id).with_mobile(
                self.mobile(id),
                self.index[id].0,
                self.index[id].1,
            ) == self,
    {
        let p = self.index[id];
        let after = self.without_mobile(id).with_mobile(self.mobile(id), p.0, p.1);
        assert(self.locations[p].wf());
        assert(after.locations[p].mobiles =~= self.locations[p].mobiles);
        assert(after.locations[p] == self.locations[p]);
        assert(after.locations =~= self.locations);
        assert(after.index =~= self.index);
    }

    /// Checking a mobile out and returning it, here or elsewhere, leaves the
    /// index as large as it was: no mobile is lost and none is made.
    pub proof fn lemma_checkout_conserves(self, id: u128, mobile: MobileView, x: i16, y: i16)
        requires
            self.wf(),
            self.index.contains_key(id),
            mobile.id == id,
            self.locations.contains_key((x, y)),
        ensures
            self.without_mobile(id).with_mobile(mobile, x, y).wf(),
            self.without_mobile(id).with_mobile(mobile, x, y).index.dom() == self.index.dom(),
            self.without_mobile(id).with_mobile(mobile, x, y).residents().len()
                == self.residents().len(),
    {
        self.lemma_without_mobile_wf(id);
        let held = self.without_mobile(id);
        held.lemma_with_mobile_wf(mobile, x, y);
        let after = held.with_mobile(mobile, x, y);
        assert(after.index.dom() =~= self.index.dom());
        self.lemma_index_is_residents();
        after.lemma_index_is_residents();
    }
}

impl WorldState {
    /// A new world: the town at the origin, nobody in it, an empty log.
    pub fn new() -> (world: WorldState)
        ensures
            world@ == WorldView::initial(),
            world@.wf(),
    {
        let world = WorldState {
            stash: BTreeMap::new(),
            map: WorldMap::new(),
            message_list: MessageList::new(),
            mobile_uuid_to_location: BTreeMap::new(),
            killed: Vec::new(),
        };
        proof {
            assert(world@.killed =~= Seq::<Seq<char>>::empty());
            assert(world@.stash =~= Map::<u128, (MobileView, i16, i16)>::empty());
            assert(world@.messages == MessageListView { messages: Seq::empty(), now: 0 });
            assert(world@.locations[(0i16, 0i16)].mobiles =~= Map::<u128, MobileView>::empty());
        }
        world
    }

    /// How many mobiles are on the map.
    pub fn population(&self) -> (count: usize)
        ensures
            count == self@.index.dom().len(),
    {
        self.mobile_uuid_to_location.len()
    }

    /// How many locations have been explored.
    pub fn area(&self) -> (count: usize)
        ensures
            count == self@.locations.dom().len(),
    {
        self.map.number_of_locations()
    }

    /// Whether there is less than one mobile to four explored locations.
    pub fn is_sparse(&self) -> (sparse: bool)
        ensures
            sparse == (4 * self@.index.dom().len() < self@.locations.dom().len()),
    {
        let area = self.map.number_of_locations();
        let population = self.mobile_uuid_to_location.len();
        population < area && population <= (area - 1) / 4
    }

    /// Takes the location at `(x, y)` out of the map, making it first where
    /// the map has none.
    fn open_location(&mut self, x: i16, y: i16) -> (r: (Box<Location>, Ghost<WorldView>))
        ensures
            old(self)@.explores(x, y, r.1@),
            r.1@.locations.contains_key((x, y)),
            r.0@ == r.1@.locations[(x, y)],
            final(self)@ == (WorldView { locations: r.1@.locations.remove((x, y)), ..old(self)@ }),
            final(self)@.locations == old(self)@.locations.remove((x, y)),
    {
        let location = self.map.fetch(x, y);
        let ghost mid = if old(self)@.locations.contains_key((x, y)) {
            old(self)@
        } else {
            old(self)@.with_location(location@)
        };
        proof {
            if !old(self)@.locations.contains_key((x, y)) {
                let first = choose|first: int, second: int|
                    1 <= first <= 8 && 1 <= second <= 8 && location@ == generated(
                        x,
                        y,
                        #[trigger] crate::map::new_location_type(
                            crate::map::distance_from_origin(x as int, y as int),
                            first,
                            second,
                            crate::map::adjacent(
                                old(self)@.locations,
                                x as int,
                                y as int,
                                LocationTypeCode::Hills,
                            ),
                            crate::map::adjacent(
                                old(self)@.locations,
                                x as int,
                                y as int,
                                LocationTypeCode::DeepWoods,
                            ),
                        ),
                    );
                assert(location@.x == x && location@.y == y);
                assert(may_generate(old(self)@.locations, x, y, location@));
            }
            assert(mid.locations.remove((x, y)) =~= old(self)@.locations.remove((x, y)));
        }
        (location, Ghost(mid))
    }

    /// Puts a location back into the map.
    fn close_location(&mut self, location: Box<Location>)
        ensures
            final(self)@ == old(self)@.with_location(location@),
    {
        self.map.replace(location);
    }

    /// Moves the mobile known as `uuid` off the map into the holding area,
    /// with the position it left from.
    pub fn stash_mobile(&mut self, uuid: u128)
        requires
            old(self)@.wf(),
            old(self)@.index.contains_key(uuid),
        ensures
            final(self)@ == (WorldView {
                stash: old(self)@.stash.insert(
                    uuid,
                    (old(self)@.mobile(uuid), old(self)@.index[uuid].0, old(self)@.index[uuid].1),
                ),
                ..old(self)@.without_mobile(uuid)
            }),
            final(self)@.wf(),
    {
        let position = self.find_mobile_location(uuid);
        let mobile = self.fetch_mobile(uuid);
        match (position, mobile) {
            (Some(position), Some(mobile)) => {
                let id = mobile.get_id();
                let ghost held = self@;
                self.stash.insert(id, (mobile, position.0, position.1));
                proof {
                    assert(self@.stash =~= held.stash.insert(
                        uuid,
                        (mobile@, position.0, position.1),
                    ));
                }
            },
            _ => {
                proof {
                    assert(false);
                }
            },
        }
    }

    /// Where the mobile known as `uuid` is, if it is on the map.
    pub fn find_mobile_location(&mut self, uuid: u128) -> (position: Option<(i16, i16)>)
        ensures
            *final(self) == *old(self),
            position == if old(self)@.index.contains_key(uuid) {
                Some(old(self)@.index[uuid])
            } else {
                None
            },
    {
        match self.mobile_uuid_to_location.get(&uuid) {
            Some(position) => Some(*position),
            None => None,
        }
    }

    /// Whether the mobile known as `uuid` is on the map.
    pub fn mobile_active(&mut self, uuid: u128) -> (active: bool)
        ensures
            *final(self) == *old(self),
            active == old(self)@.index.contains_key(uuid),
    {
        self.mobile_uuid_to_location.contains_key(&uuid)
    }

    /// Whether the mobile known as `uuid` is away, in the holding area.
    pub fn is_stashed(&self, uuid: u128) -> (stashed: bool)
        ensures
            stashed == self@.stash.contains_key(uuid),
    {
        self.stash.contains_key(&uuid)
    }

    /// Whether any mobile is at `(x, y)`.
    pub fn mobile_exists_at(&self, x: i16, y: i16) -> (found: bool)
        ensures
            found == (self@.locations.contains_key((x, y)) && self@.locations[(
                x,
                y,
            )].mobiles.dom().len() > 0),
    {
        self.map.is_mobile_at_location(x, y)
    }

    /// Whether the mobile known as `uuid` is in the world. One that is away
    /// is brought back to the position it left from.
    pub fn mobile_exists(&mut self, uuid: u128) -> (exists_: bool)
        requires
            old(self)@.wf(),
        ensures
            final(self)@.wf(),
            exists_ == (old(self)@.index.contains_key(uuid) || old(self)@.stash.contains_key(uuid)),
            old(self)@.index.contains_key(uuid) || !old(self)@.stash.contains_key(uuid)
                ==> final(self)@ == old(self)@,
            !old(self)@.index.contains_key(uuid) && old(self)@.stash.contains_key(uuid) ==> {
                let kept = old(self)@.stash[uuid];
                exists|mid: WorldView|
                    (WorldView {
                        stash: old(self)@.stash.remove(uuid),
                        ..old(self)@
                    }).explores(kept.1, kept.2, mid) && final(self)@ == #[trigger] mid.with_mobile(
                        kept.0,
                        kept.1,
                        kept.2,
                    )
            },
    {
        if self.mobile_uuid_to_location.contains_key(&uuid) {
            return true;
        }
        let tuple = self.stash.remove(&uuid);
        proof {
            assert(self@.stash =~= old(self)@.stash.remove(uuid));
            if !old(self)@.stash.contains_key(uuid) {
                assert(self@.stash =~= old(self)@.stash);
            }
        }
        match tuple {
            Some((mobile, x, y)) => {
                assert(mobile@ == old(self)@.stash[uuid].0);
                let ghost held = self@;
                proof {
                    assert(held == (WorldView { stash: old(self)@.stash.remove(uuid), ..old(self)@ }));
                    assert(x == old(self)@.stash[uuid].1 && y == old(self)@.stash[uuid].2);
                }
                self.add_mobile(mobile, x, y);
                proof {
                    let mid = choose|mid: WorldView| #[trigger]
                        held.explores(x, y, mid) && self@ == mid.with_mobile(mobile@, x, y);
                    assert(held.explores(x, y, mid) && self@ == mid.with_mobile(mobile@, x, y));
                }
                true
            },
            _ => false,
        }
    }

    /// Takes a mobile chosen at random out of the location at `(x, y)`.
    pub fn fetch_mobile_at_random(&mut self, x: i16, y: i16) -> (mobile: Option<Box<Mobile>>)
        requires
            old(self)@.wf(),
        ensures
            final(self)@.wf(),
            exists|mid: WorldView| #[trigger]
                old(self)@.explores(x, y, mid) && if mid.locations[(x, y)].mobiles.dom().len() == 0 {
                    mobile is None && final(self)@ == mid
                } else {
                    exists|id: u128| #[trigger]
                        mid.locations[(x, y)].mobiles.contains_key(id) && maybe_mobile_view(mobile)
                            == Some(mid.mobile(id)) && final(self)@ == mid.without_mobile(id)
                },
    {
        let (mut location, Ghost(mid)) = self.open_location(x, y);
        proof {
            old(self)@.lemma_explores_wf(x, y, mid);
        }
        let mobile = location.fetch_mobile_at_random();
        match &mobile {
            Some(m) => {
                let id = m.get_id();
                proof {
                    let found = choose|found: u128| #[trigger]
                        mid.locations[(x, y)].mobiles.contains_key(found) && maybe_mobile_view(
                            mobile,
                        ) == Some(mid.locations[(x, y)].mobiles[found]) && location@ == mid.locations[(
                            x,
                            y,
                        )].without_mobile(found);
                    assert(mid.locations[(x, y)].wf());
                    assert(found == id);
                    assert(mid.index[id] == (x, y));
                }
                self.mobile_uuid_to_location.remove(&id);
                self.close_location(location);
                proof {
                    assert(self@.locations =~= mid.without_mobile(id).locations);
                    assert(self@.index =~= mid.without_mobile(id).index);
                    mid.lemma_without_mobile_wf(id);
                }
            },
            None => {
                self.close_location(location);
                proof {
                    assert(self@.locations =~= mid.locations);
                }
            },
        }
        mobile
    }

    /// Checks the mobile known as `uuid` out of the world: it leaves its
    /// location and the index, and is the caller's until it is returned.
    pub fn fetch_mobile(&mut self, uuid: u128) -> (mobile: Option<Box<Mobile>>)
        requires
            old(self)@.wf(),
        ensures
            final(self)@.wf(),
            old(self)@.index.contains_key(uuid) ==> maybe_mobile_view(mobile) == Some(
                old(self)@.mobile(uuid),
            ) && final(self)@ == old(self)@.without_mobile(uuid),
            !old(self)@.index.contains_key(uuid) ==> mobile is None && final(self)@ == old(self)@,
    {
        let position_ptr = self.mobile_uuid_to_location.remove(&uuid);
        match position_ptr {
            Some(position) => {
                let (mut location, Ghost(mid)) = self.open_location(position.0, position.1);
                let mobile = location.fetch_mobile_by_guid(uuid);
                self.close_location(location);
                proof {
                    assert(self@.locations =~= old(self)@.without_mobile(uuid).locations);
                    assert(self@.index =~= old(self)@.without_mobile(uuid).index);
                    old(self)@.lemma_without_mobile_wf(uuid);
                }
                mobile
            },
            _ => {
                proof {
                    assert(self@.index =~= old(self)@.index);
                }
                None
            },
        }
    }

    /// Checks the mobile that a key of the form `name.number` stands for at
    /// `(x, y)` out of the world.
    pub fn fetch_mobile_by_name(&mut self, x: i16, y: i16, key: &String) -> (mobile: Option<
        Box<Mobile>,
    >)
        requires
            old(self)@.wf(),
        ensures
            final(self)@.wf(),
            exists|mid: WorldView| #[trigger]
                old(self)@.explores(x, y, mid) && match mid.locations[(x, y)].mobile_named(key@) {
                    Some(id) => mid.index.contains_key(id) && mid.index[id] == (x, y)
                        && maybe_mobile_view(mobile) == Some(mid.mobile(id)) && final(self)@
                        == mid.without_mobile(id),
                    None => mobile is None && final(self)@ == mid,
                },
            old(self)@.locations.contains_key((x, y)) ==> match old(self)@.locations[(
                x,
                y,
            )].mobile_named(key@) {
                Some(id) => old(self)@.index.contains_key(id) && old(self)@.index[id] == (x, y)
                    && maybe_mobile_view(mobile) == Some(old(self)@.mobile(id)) && final(self)@
                    == old(self)@.without_mobile(id),
                None => mobile is None && final(self)@ == old(self)@,
            },
    {
        let (mut location, Ghost(mid)) = self.open_location(x, y);
        proof {
            old(self)@.lemma_explores_wf(x, y, mid);
        }
        let mobile = location.fetch_mobile_by_name(key);
        match &mobile {
            Some(m) => {
                let id = m.get_id();
                proof {
                    assert(mid.locations[(x, y)].wf());
                    assert(mid.locations[(x, y)].mobile_named(key@) == Some(id));
                    assert(mid.index[id] == (x, y));
                }
                self.mobile_uuid_to_location.remove(&id);
                self.close_location(location);
                proof {
                    assert(self@.locations =~= mid.without_mobile(id).locations);
                    assert(self@.index =~= mid.without_mobile(id).index);
                    mid.lemma_without_mobile_wf(id);
                }
            },
            None => {
                self.close_location(location);
                proof {
                    assert(self@.locations =~= mid.locations);
                }
            },
        }
        mobile
    }

    /// The identifier of the mobile that a key of the form `name.number`
    /// stands for at `(x, y)`. The mobile stays where it is.
    pub fn get_mobile_id_by_name(&mut self, x: i16, y: i16, key: &String) -> (id: Option<u128>)
        requires
            old(self)@.wf(),
        ensures
            final(self)@.wf(),
            old(self)@.explores(x, y, final(self)@),
            id == final(self)@.locations[(x, y)].mobile_named(key@),
            match id {
                Some(id) => final(self)@.index.contains_key(id) && final(self)@.index[id] == (x, y),
                None => true,
            },
    {
        let (mut location, Ghost(mid)) = self.open_location(x, y);
        proof {
            old(self)@.lemma_explores_wf(x, y, mid);
        }
        let mobile = location.fetch_mobile_by_name(key);
        match mobile {
            Some(mobile) => {
                let uuid = mobile.get_id();
                proof {
                    assert(mid.locations[(x, y)].wf());
                }
                location.add_mobile(mobile);
                proof {
                    assert(location@.mobiles =~= mid.locations[(x, y)].mobiles);
                }
                self.close_location(location);
                proof {
                    assert(self@.locations =~= mid.locations);
                }
                Some(uuid)
            },
            _ => {
                self.close_location(location);
                proof {
                    assert(self@.locations =~= mid.locations);
                }
                None
            },
        }
    }

    /// Puts an item down at `(x, y)`.
    pub fn add_item(&mut self, x: i16, y: i16, item: Box<Item>)
        requires
            old(self)@.wf(),
        ensures
            final(self)@.wf(),
            exists|mid: WorldView| #[trigger]
                old(self)@.explores(x, y, mid) && final(self)@ == mid.with_item(x, y, item@),
            old(self)@.locations.contains_key((x, y)) ==> final(self)@ == old(self)@.with_item(
                x,
                y,
                item@,
            ),
    {
        let (mut location, Ghost(mid)) = self.open_location(x, y);
        proof {
            old(self)@.lemma_explores_wf(x, y, mid);
        }
        location.add_item(item);
        self.close_location(location);
        proof {
            assert(self@.locations =~= mid.with_item(x, y, item@).locations);
            mid.lemma_items_wf(x, y, location@.items);
        }
    }

    /// Takes the item that a key of the form `name.number` stands for at
    /// `(x, y)`.
    pub fn fetch_item_by_name(&mut self, x: i16, y: i16, key: &String) -> (item: Option<
        Box<Item>,
    >)
        requires
            old(self)@.wf(),
        ensures
            final(self)@.wf(),
            exists|mid: WorldView| #[trigger]
                old(self)@.explores(x, y, mid) && match mid.locations[(x, y)].item_named(key@) {
                    Some(pos) => 0 <= pos < mid.locations[(x, y)].items.len() && maybe_item_view(
                        item,
                    ) == Some(mid.locations[(x, y)].items[pos]) && final(self)@ == mid.without_item(
                        x,
                        y,
                        pos,
                    ),
                    None => item is None && final(self)@ == mid,
                },
            old(self)@.locations.contains_key((x, y)) ==> match old(self)@.locations[(
                x,
                y,
            )].item_named(key@) {
                Some(pos) => 0 <= pos < old(self)@.locations[(x, y)].items.len()
                    && maybe_item_view(item) == Some(old(self)@.locations[(x, y)].items[pos])
                    && final(self)@ == old(self)@.without_item(x, y, pos),
                None => item is None && final(self)@ == old(self)@,
            },
    {
        let (mut location, Ghost(mid)) = self.open_location(x, y);
        proof {
            old(self)@.lemma_explores_wf(x, y, mid);
        }
        let item = location.fetch_item_by_name(key);
        self.close_location(location);
        proof {
            match mid.locations[(x, y)].item_named(key@) {
                Some(pos) => {
                    assert(self@.locations =~= mid.without_item(x, y, pos).locations);
                },
                None => {
                    assert(self@.locations =~= mid.locations);
                },
            }
            mid.lemma_items_wf(x, y, location@.items);
        }
        item
    }

    /// Takes an item chosen at random at `(x, y)`.
    pub fn fetch_item_at_random(&mut self, x: i16, y: i16) -> (item: Option<Box<Item>>)
        requires
            old(self)@.wf(),
        ensures
            final(self)@.wf(),
            exists|mid: WorldView| #[trigger]
                old(self)@.explores(x, y, mid) && if mid.locations[(x, y)].items.len() == 0 {
                    item is None && final(self)@ == mid
                } else {
                    exists|pos: int|
                        0 <= pos < mid.locations[(x, y)].items.len() && maybe_item_view(item)
                            == Some(mid.locations[(x, y)].items[pos]) && final(self)@
                            == #[trigger] mid.without_item(x, y, pos)
                },
    {
        let (mut location, Ghost(mid)) = self.open_location(x, y);
        proof {
            old(self)@.lemma_explores_wf(x, y, mid);
        }
        let item = location.fetch_item_at_random();
        self.close_location(location);
        proof {
            if mid.locations[(x, y)].items.len() == 0 {
                assert(self@.locations =~= mid.locations);
            } else {
                let pos = choose|pos: int|
                    0 <= pos < mid.locations[(x, y)].items.len() && maybe_item_view(item) == Some(
                        mid.locations[(x, y)].items[pos],
                    ) && location@ == #[trigger] mid.locations[(x, y)].without_item(pos);
                assert(self@.locations =~= mid.without_item(x, y, pos).locations);
                assert(self@ == mid.without_item(x, y, pos));
            }
            mid.lemma_items_wf(x, y, location@.items);
        }
        item
    }

    /// What is seen at `(x, y)`.
    pub fn get_location_description(&mut self, x: i16, y: i16) -> (description: String)
        ensures
            *final(self) == *old(self),
            description@ == if old(self)@.locations.contains_key((x, y)) {
                old(self)@.locations[(x, y)].full_description()
            } else {
                "Unexplored"@
            },
    {
        self.map.get_location_description(x, y)
    }

    /// The kind of the location at `(x, y)`, unexplored where there is none.
    pub fn get_location_type(&self, x: i16, y: i16) -> (location_type: LocationTypeCode)
        ensures
            location_type == type_at(self@.locations, x as int, y as int),
    {
        self.map.get_location_type(x, y)
    }

    /// Puts down at `(x, y)` what is left of a mobile: its corpse and all it
    /// carried. The mobile is left with nothing.
    pub fn add_corpse(&mut self, mobile: &mut Box<Mobile>, x: i16, y: i16)
        requires
            old(self)@.wf(),
            old(mobile)@.can_strip(),
        ensures
            final(self)@.wf(),
            final(mobile)@ == old(mobile)@.stripped(),
            exists|mid: WorldView| #[trigger]
                old(self)@.explores(x, y, mid) && final(self)@ == mid.with_location(
                    LocationView {
                        items: mid.locations[(x, y)].items.push(
                            ItemView::corpse(old(mobile)@.name),
                        ) + old(mobile)@.loot(),
                        ..mid.locations[(x, y)]
                    },
                ),
            old(self)@.locations.contains_key((x, y)) ==> final(self)@ == old(self)@.with_corpse(
                old(mobile)@,
                x,
                y,
            ),
    {
        let (mut location, Ghost(mid)) = self.open_location(x, y);
        proof {
            old(self)@.lemma_explores_wf(x, y, mid);
        }
        location.add_corpse(mobile);
        self.close_location(location);
        proof {
            assert(self@.locations =~= mid.with_location(location@).locations);
            mid.lemma_items_wf(x, y, location@.items);
        }
    }

    /// Returns a mobile to the world, at `(x, y)`: it enters the location
    /// and the index. The mobile must not be in the world already, neither
    /// on the map nor away.
    pub fn add_mobile(&mut self, mobile: Box<Mobile>, x: i16, y: i16)
        requires
            old(self)@.wf(),
            !old(self)@.index.contains_key(mobile@.id),
            !old(self)@.stash.contains_key(mobile@.id),
        ensures
            final(self)@.wf(),
            exists|mid: WorldView| #[trigger]
                old(self)@.explores(x, y, mid) && final(self)@ == mid.with_mobile(mobile@, x, y),
            old(self)@.locations.contains_key((x, y)) ==> final(self)@ == old(self)@.with_mobile(
                mobile@,
                x,
                y,
            ),
    {
        let (mut location, Ghost(mid)) = self.open_location(x, y);
        proof {
            old(self)@.lemma_explores_wf(x, y, mid);
        }
        self.mobile_uuid_to_location.insert(mobile.get_id(), (x, y));
        location.add_mobile(mobile);
        self.close_location(location);
        proof {
            assert(self@.locations =~= mid.with_mobile(mobile@, x, y).locations);
            assert(self@.index =~= mid.with_mobile(mobile@, x, y).index);
            mid.lemma_with_mobile_wf(mobile@, x, y);
        }
    }

    /// Records that a mobile called `name` was slain, for whoever keeps the
    /// characters to mark it dead.
    pub fn record_killed(&mut self, name: String)
        ensures
            final(self)@ == (WorldView { killed: old(self)@.killed.push(name@), ..old(self)@ }),
    {
        self.killed.push(name);
        proof {
            assert(self@.killed =~= old(self)@.killed.push(name@));
        }
    }

    /// Hands over the names of the mobiles slain since the last call, oldest
    /// first, and forgets them.
    pub fn take_killed(&mut self) -> (names: Vec<String>)
        ensures
            names@.map_values(|n: String| n@) == old(self)@.killed,
            final(self)@ == (WorldView { killed: Seq::empty(), ..old(self)@ }),
    {
        let mut names: Vec<String> = Vec::new();
        std::mem::swap(&mut names, &mut self.killed);
        proof {
            assert(self@.killed =~= Seq::<Seq<char>>::empty());
        }
        names
    }

    /// Shows every location to the visitor, in the order of the map, with
    /// the world's log.
    pub fn visit_all_locations<V: LocationVisitor>(&mut self, visitor: &mut V)
        requires
            old(self)@.wf(),
        ensures
            final(self)@.wf(),
            final(self)@.index == old(self)@.index,
            final(self)@.stash == old(self)@.stash,
            final(self)@.killed == old(self)@.killed,
            final(self)@.locations.dom() == old(self)@.locations.dom(),
            exists|visitors: Seq<V>, logs: Seq<MessageListView>|
                {
                    &&& #[trigger] visit_trace(
                        old(self)@.locations,
                        final(self)@.locations,
                        positions_in_order(old(self)@.locations.dom()),
                        visitors,
                        logs,
                    )
                    &&& visitors.first() == *old(visitor)
                    &&& visitors.last() == *final(visitor)
                    &&& logs.first() == old(self)@.messages
                    &&& logs.last() == final(self)@.messages
                },
    {
        self.map.visit_all_locations(visitor, &mut self.message_list);
        proof {
            let before = old(self)@;
            let after = self@;
            assert forall|p: (i16, i16), id: u128|
                after.locations.contains_key(p) && #[trigger] after.locations[p].mobiles.contains_key(
                    id,
                ) implies after.index.contains_key(id) && after.index[id] == p by {
                assert(before.locations.contains_key(p));
                assert(before.locations[p].mobiles.contains_key(id));
            }
            assert forall|id: u128| #[trigger] after.index.contains_key(id)
                implies after.locations.contains_key(
            after.index[id]) && after.locations[after.index[id]].mobiles.contains_key(id) by {
                assert(before.index.contains_key(id));
                assert(before.locations.contains_key(before.index[id]));
            }
            assert forall|p: (i16, i16)| #[trigger] after.locations.contains_key(p)
                implies after.locations[p].wf() by {
                assert(before.locations.contains_key(p));
                assert(before.locations[p].wf());
                assert forall|id: u128| #[trigger] after.locations[p].mobiles.contains_key(id) implies after.locations[p].mobiles[id].id
                    == id by {
                    assert(before.locations[p].mobiles.contains_key(id));
                }
            }
            assert forall|id: u128| #[trigger] after.stash.contains_key(id) implies after.stash[id].0.id
                == id && !after.index.contains_key(id) by {
                assert(before.stash.contains_key(id));
            }
            assert(placed(after.locations)) by {
                assert forall|p: (i16, i16)| #[trigger] after.locations.contains_key(p)
                    implies after.locations[p].x
                    == p.0 && after.locations[p].y == p.1 by {
                    assert(before.locations.contains_key(p));
                }
            }
        }
    }
}

} // verus!
