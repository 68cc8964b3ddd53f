use crate::dice::Dice;
use crate::location::{Location, LocationTypeCode, LocationView};
use crate::message::{MessageList, MessageListView};
use crate::object::Object;
use crate::order::{lists_positions, positions_in_order, sorted_positions};
use crate::text::text;
use std::collections::BTreeMap;
use vstd::prelude::*;
use vstd::string::*;

verus! {

/// Something that is shown every location of the map in turn.
pub trait LocationVisitor: Sized {
    /// What one visit may do: the visitor `self` becomes `after`, the
    /// location `location` becomes `location_after`, and the log `log`
    /// becomes `log_after`.
    spec fn visited(
        &self,
        after: &Self,
        location: LocationView,
        location_after: LocationView,
        log: MessageListView,
        log_after: MessageListView,
    ) -> bool;

    /// Visits one location. The location stays where it is, and the mobiles
    /// in it stay in it under their identifiers.
    fn visit_location(&mut self, location: &mut Box<Location>, messages: &mut MessageList)
        ensures
            old(self).visited(
                final(self),
                old(location)@,
                final(location)@,
                old(messages)@,
                final(messages)@,
            ),
            final(location)@.x == old(location)@.x,
            final(location)@.y == old(location)@.y,
            final(location)@.mobiles.dom() == old(location)@.mobiles.dom(),
            forall|id: u128| #[trigger]
                old(location)@.mobiles.contains_key(id) ==> final(location)@.mobiles[id].id == old(
                    location,
                )@.mobiles[id].id,
    ;
}

/// The explored part of the world: the locations by their positions.
pub struct WorldMap {
    pub(crate) location_by_position: BTreeMap<(i16, i16), Box<Location>>,
}

impl View for WorldMap {
    type V = Map<(i16, i16), LocationView>;

    open(crate) spec fn view(&self) -> Map<(i16, i16), LocationView> {
        self.location_by_position@.map_values(|l: Box<Location>| l@)
    }
}

/// Every location is kept under its own position.
pub open spec fn placed(locations: Map<(i16, i16), LocationView>) -> bool {
    forall|p: (i16, i16)| #[trigger]
        locations.contains_key(p) ==> locations[p].x == p.0 && locations[p].y == p.1
}

/// Putting a location back unchanged gives the map back as it was.
pub proof fn lemma_replace_restores(locations: Map<(i16, i16), LocationView>, p: (i16, i16))
    requires
        placed(locations),
        locations.contains_key(p),
    ensures
        locations.remove(p).insert((locations[p].x, locations[p].y), locations[p]) == locations,
{
    assert(locations.remove(p).insert(p, locations[p]) =~= locations);
}

/// The kind of the location at a position given by two integers: unexplored
/// where the map has nothing, and where no position can be.
pub open spec fn type_at(
    locations: Map<(i16, i16), LocationView>,
    x: int,
    y: int,
) -> LocationTypeCode {
    if i16::MIN <= x <= i16::MAX && i16::MIN <= y <= i16::MAX && locations.contains_key(
        (x as i16, y as i16),
    ) {
        locations[(x as i16, y as i16)].location_type
    } else {
        LocationTypeCode::Unexplored
    }
}

/// One if the location at the position is of the given kind, else zero.
pub open spec fn one_if(
    locations: Map<(i16, i16), LocationView>,
    x: int,
    y: int,
    location_type: LocationTypeCode,
) -> int {
    if type_at(locations, x, y) == location_type {
        1
    } else {
        0
    }
}

/// How many of the eight neighbours of a position are of the given kind.
pub open spec fn adjacent(
    locations: Map<(i16, i16), LocationView>,
    x: int,
    y: int,
    location_type: LocationTypeCode,
) -> int {
    one_if(locations, x - 1, y - 1, location_type) + one_if(locations, x - 1, y, location_type)
        + one_if(locations, x - 1, y + 1, location_type) + one_if(
        locations,
        x,
        y - 1,
        location_type,
    ) + one_if(locations, x, y + 1, location_type) + one_if(
        locations,
        x + 1,
        y - 1,
        location_type,
    ) + one_if(locations, x + 1, y, location_type) + one_if(
        locations,
        x + 1,
        y + 1,
        location_type,
    )
}

/// The kind of a new location: forest within two steps of the origin and
/// wherever the first eight-sided die shows more than the distance; else
/// what the second die decides, drawn to the hills and deep woods nearby.
pub open spec fn new_location_type(
    distance: int,
    first: int,
    second: int,
    hills_count: int,
    deep_woods_count: int,
) -> LocationTypeCode {
    if distance <= 2 || first > distance {
        LocationTypeCode::Forest
    } else if second <= hills_count {
        LocationTypeCode::Hills
    } else if second <= deep_woods_count + hills_count {
        LocationTypeCode::DeepWoods
    } else if second % 2 == 0 {
        LocationTypeCode::DeepWoods
    } else {
        LocationTypeCode::Hills
    }
}

/// The description that a new location of a kind is given.
pub open spec fn description_of(location_type: LocationTypeCode) -> Seq<char> {
    match location_type {
        LocationTypeCode::Forest => "In the forest"@,
        LocationTypeCode::Hills => "In the hills"@,
        LocationTypeCode::DeepWoods => "In the deep woods"@,
        LocationTypeCode::Town => "Town of Midgaard"@,
        LocationTypeCode::Unexplored => "Unexplored"@,
    }
}

/// The distance of a position from the origin, in steps along the axes.
pub open spec fn distance_from_origin(x: int, y: int) -> int {
    (if x < 0 {
        -x
    } else {
        x
    }) + (if y < 0 {
        -y
    } else {
        y
    })
}

/// `location` is a location that can be made new at `(x, y)` on this map.
pub open spec fn may_generate(
    locations: Map<(i16, i16), LocationView>,
    x: i16,
    y: i16,
    location: LocationView,
) -> bool {
    exists|first: int, second: int|
        1 <= first <= 8 && 1 <= second <= 8 && location == generated(
            x,
            y,
            #[trigger] new_location_type(
                distance_from_origin(x as int, y as int),
                first,
                second,
                adjacent(locations, x as int, y as int, LocationTypeCode::Hills),
                adjacent(locations, x as int, y as int, LocationTypeCode::DeepWoods),
            ),
        )
}

/// A new location of a kind at a position.
pub open spec fn generated(x: i16, y: i16, location_type: LocationTypeCode) -> LocationView {
    LocationView::fresh(x, y, location_type, description_of(location_type))
}

/// The map as it is first made: the town at the origin.
pub open spec fn initial_map() -> Map<(i16, i16), LocationView> {
    Map::empty().insert(
        (0i16, 0i16),
        LocationView::fresh(0, 0, LocationTypeCode::Town, "Town of Midgaard"@),
    )
}

/// A run of visits: the visitor and the log as they stood before the first
/// visit, between the visits and after the last, with each visit taking a
/// location of `before` to the location of `after` at the same position.
pub open spec fn visit_trace<V: LocationVisitor>(
    before: Map<(i16, i16), LocationView>,
    after: Map<(i16, i16), LocationView>,
    order: Seq<(i16, i16)>,
    visitors: Seq<V>,
    logs: Seq<MessageListView>,
) -> bool {
    &&& visitors.len() == order.len() + 1
    &&& logs.len() == order.len() + 1
    &&& forall|k: int|
        0 <= k < order.len() ==> visitors[k].visited(
            &visitors[k + 1],
            before[#[trigger] order[k]],
            after[order[k]],
            logs[k],
            logs[k + 1],
        )
}

/// The smallest first coordinate among the positions and 9999.
pub open spec fn least_x(positions: Seq<(i16, i16)>) -> int
    decreases positions.len(),
{
    if positions.len() == 0 {
        9999
    } else {
        let rest = least_x(positions.drop_last());
        if positions.last().0 < rest {
            positions.last().0 as int
        } else {
            rest
        }
    }
}

/// The greatest first coordinate among the positions and zero.
pub open spec fn greatest_x(positions: Seq<(i16, i16)>) -> int
    decreases positions.len(),
{
    if positions.len() == 0 {
        0
    } else {
        let rest = greatest_x(positions.drop_last());
        if positions.last().0 > rest {
            positions.last().0 as int
        } else {
            rest
        }
    }
}

/// The smallest second coordinate among the positions and 9999.
pub open spec fn least_y(positions: Seq<(i16, i16)>) -> int
    decreases positions.len(),
{
    if positions.len() == 0 {
        9999
    } else {
        let rest = least_y(positions.drop_last());
        if positions.last().1 < rest {
            positions.last().1 as int
        } else {
            rest
        }
    }
}

/// The greatest second coordinate among the positions and zero.
pub open spec fn greatest_y(positions: Seq<(i16, i16)>) -> int
    decreases positions.len(),
{
    if positions.len() == 0 {
        0
    } else {
        let rest = greatest_y(positions.drop_last());
        if positions.last().1 > rest {
            positions.last().1 as int
        } else {
            rest
        }
    }
}

/// The character that stands for a kind of location on the drawn map.
pub open spec fn symbol(location_type: LocationTypeCode) -> char {
    match location_type {
        LocationTypeCode::Town => 'T',
        LocationTypeCode::Forest => '-',
        LocationTypeCode::DeepWoods => '*',
        LocationTypeCode::Hills => '^',
        LocationTypeCode::Unexplored => ' ',
    }
}

/// The characters of the row `y` of the drawn map for the columns from
/// `x_from` up to, not including, `x_to`.
pub open spec fn map_row(
    locations: Map<(i16, i16), LocationView>,
    y: int,
    x_from: int,
    x_to: int,
) -> Seq<char>
    decreases x_to - x_from,
{
    if x_to <= x_from {
        Seq::empty()
    } else {
        map_row(locations, y, x_from, x_to - 1).push(symbol(type_at(locations, x_to - 1, y)))
    }
}

/// The rows from `y_from` up to, not including, `y_to` of the drawn map,
/// each followed by a line break.
pub open spec fn map_rows(
    locations: Map<(i16, i16), LocationView>,
    y_from: int,
    y_to: int,
    x_from: int,
    x_to: int,
) -> Seq<char>
    decreases y_to - y_from,
{
    if y_to <= y_from {
        Seq::empty()
    } else {
        map_rows(locations, y_from, y_to - 1, x_from, x_to) + map_row(
            locations,
            y_to - 1,
            x_from,
            x_to,
        ) + "\n"@
    }
}

/// The drawn map: one row for each second coordinate and one character for
/// each first coordinate between the smallest and the greatest in use.
pub open spec fn drawing(locations: Map<(i16, i16), LocationView>) -> Seq<char> {
    let positions = positions_in_order(locations.dom());
    map_rows(
        locations,
        least_y(positions),
        greatest_y(positions) + 1,
        least_x(positions),
        greatest_x(positions) + 1,
    )
}

impl WorldMap {
    /// A new map with the town at the origin.
    pub fn new() -> (map: WorldMap)
        ensures
            map@ == initial_map(),
    {
        let mut map = WorldMap { location_by_position: BTreeMap::new() };
        let start_location = Box::new(
            Location::new(0, 0, LocationTypeCode::Town, text("Town of Midgaard")),
        );
        map.location_by_position.insert((0, 0), start_location);
        proof {
            assert(map@ =~= initial_map());
        }
        map
    }

    /// How many locations have been explored.
    pub fn number_of_locations(&self) -> (count: usize)
        ensures
            count == self@.dom().len(),
    {
        proof {
            assert(self@.dom() =~= self.location_by_position@.dom());
        }
        self.location_by_position.len()
    }

    /// Whether any mobile is at `(x, y)`.
    pub fn is_mobile_at_location(&self, x: i16, y: i16) -> (found: bool)
        ensures
            found == (self@.contains_key((x, y)) && self@[(x, y)].mobiles.dom().len() > 0),
    {
        let location = self.location_by_position.get(&(x, y));
        match location {
            Some(location) => location.has_mobiles(),
            _ => false,
        }
    }

    /// The kind of the location at `(x, y)`, unexplored where there is none.
    pub fn get_location_type(&self, x: i16, y: i16) -> (location_type: LocationTypeCode)
        ensures
            location_type == type_at(self@, x as int, y as int),
    {
        let location = self.location_by_position.get(&(x, y));
        match location {
            Some(location) => location.location_type,
            _ => LocationTypeCode::Unexplored,
        }
    }

    /// What is seen at `(x, y)`.
    pub fn get_location_description(&self, x: i16, y: i16) -> (description: String)
        ensures
            description@ == if self@.contains_key((x, y)) {
                self@[(x, y)].full_description()
            } else {
                "Unexplored"@
            },
    {
        let location = self.location_by_position.get(&(x, y));
        match location {
            Some(location) => location.description(),
            _ => text("Unexplored"),
        }
    }

    /// Takes the location at `(x, y)` out of the map, to be put back when the
    /// caller is done with it. Where the map has none, a new one is made.
    pub fn fetch(&mut self, x: i16, y: i16) -> (location: Box<Location>)
        ensures
            final(self)@ == old(self)@.remove((x, y)),
            old(self)@.contains_key((x, y)) ==> location@ == old(self)@[(x, y)],
            !old(self)@.contains_key((x, y)) ==> may_generate(old(self)@, x, y, location@),
    {
        let location = self.location_by_position.remove(&(x, y));
        proof {
            assert(self@ =~= old(self)@.remove((x, y)));
        }
        match location {
            Some(location) => location,
            _ => {
                proof {
                    assert(self@ =~= old(self)@);
                }
                self.make_new_location(x, y)
            },
        }
    }

    /// Puts a location back into the map, at its own position.
    pub fn replace(&mut self, location: Box<Location>)
        ensures
            final(self)@ == old(self)@.insert((location@.x, location@.y), location@),
    {
        let position = (location.x, location.y);
        self.location_by_position.insert(position, location);
        proof {
            assert(self@ =~= old(self)@.insert((location@.x, location@.y), location@));
        }
    }

    fn kind_at(&self, x: i32, y: i32) -> (location_type: LocationTypeCode)
        ensures
            location_type == type_at(self@, x as int, y as int),
    {
        if x < -32768 || x > 32767 || y < -32768 || y > 32767 {
            return LocationTypeCode::Unexplored;
        }
        self.get_location_type(x as i16, y as i16)
    }

    fn count_at(&self, x: i32, y: i32, location_type: LocationTypeCode) -> (count: i16)
        ensures
            count == one_if(self@, x as int, y as int, location_type),
            0 <= count <= 1,
    {
        if self.kind_at(x, y) == location_type {
            1
        } else {
            0
        }
    }

    /// How many of the eight neighbours of `(x, y)` are of the given kind.
    pub fn count_adjacent(&self, x: i16, y: i16, location_type: LocationTypeCode) -> (count: i16)
        ensures
            count == adjacent(self@, x as int, y as int, location_type),
            0 <= count <= 8,
    {
        let x: i32 = x as i32;
        let y: i32 = y as i32;
        let a = self.count_at(x - 1, y - 1, location_type);
        let b = self.count_at(x - 1, y, location_type);
        let c = self.count_at(x - 1, y + 1, location_type);
        let d = self.count_at(x, y - 1, location_type);
        let e = self.count_at(x, y + 1, location_type);
        let f = self.count_at(x + 1, y - 1, location_type);
        let g = self.count_at(x + 1, y, location_type);
        let h = self.count_at(x + 1, y + 1, location_type);
        a + b + c + d + e + f + g + h
    }

    /// The kind of a new location, given its distance from the origin, what
    /// two eight-sided dice showed, and how many hills and deep woods lie
    /// next to it.
    pub fn pick_location_type(
        distance: i32,
        first: i16,
        second: i16,
        hills_count: i16,
        deep_woods_count: i16,
    ) -> (location_type: LocationTypeCode)
        requires
            0 <= hills_count <= 8,
            0 <= deep_woods_count <= 8,
        ensures
            location_type == new_location_type(
                distance as int,
                first as int,
                second as int,
                hills_count as int,
                deep_woods_count as int,
            ),
    {
        if distance <= 2 || first as i32 > distance {
            LocationTypeCode::Forest
        } else if second <= hills_count {
            LocationTypeCode::Hills
        } else if second <= deep_woods_count + hills_count {
            LocationTypeCode::DeepWoods
        } else if second % 2 == 0 {
            LocationTypeCode::DeepWoods
        } else {
            LocationTypeCode::Hills
        }
    }

    /// A new location of a kind at `(x, y)`, with the description of its kind.
    pub fn generate(x: i16, y: i16, location_type: LocationTypeCode) -> (location: Box<Location>)
        ensures
            location@ == generated(x, y, location_type),
    {
        let description = match location_type {
            LocationTypeCode::Forest => text("In the forest"),
            LocationTypeCode::Hills => text("In the hills"),
            LocationTypeCode::DeepWoods => text("In the deep woods"),
            LocationTypeCode::Town => text("Town of Midgaard"),
            LocationTypeCode::Unexplored => text("Unexplored"),
        };
        Box::new(Location::new(x, y, location_type, description))
    }

    /// Makes the location that is first seen at `(x, y)`: its kind is
    /// decided by two eight-sided dice, the distance from the origin and the
    /// neighbours already explored.
    pub fn make_new_location(&mut self, x: i16, y: i16) -> (location: Box<Location>)
        ensures
            *final(self) == *old(self),
            may_generate(old(self)@, x, y, location@),
    {
        let d8 = Dice { number: 1, die: 8 };
        let deep_woods_count = self.count_adjacent(x, y, LocationTypeCode::DeepWoods);
        let hills_count = self.count_adjacent(x, y, LocationTypeCode::Hills);
        let ax: i32 = if x < 0 {
            -(x as i32)
        } else {
            x as i32
        };
        let ay: i32 = if y < 0 {
            -(y as i32)
        } else {
            y as i32
        };
        let distance: i32 = ax + ay;
        let first = d8.roll();
        let mut second: i16 = 1;
        if !(distance <= 2 || first as i32 > distance) {
            second = d8.roll();
        }
        let location_type = WorldMap::pick_location_type(
            distance,
            first,
            second,
            hills_count,
            deep_woods_count,
        );
        let location = WorldMap::generate(x, y, location_type);
        proof {
            assert(location@ == generated(
                x,
                y,
                new_location_type(
                    distance_from_origin(x as int, y as int),
                    first as int,
                    second as int,
                    adjacent(self@, x as int, y as int, LocationTypeCode::Hills),
                    adjacent(self@, x as int, y as int, LocationTypeCode::DeepWoods),
                ),
            ));
        }
        location
    }

    /// Shows every location to the visitor, in the order of the map.
    pub fn visit_all_locations<V: LocationVisitor>(
        &mut self,
        visitor: &mut V,
        messages: &mut MessageList,
    )
        ensures
            final(self)@.dom() == old(self)@.dom(),
            forall|p: (i16, i16)| #[trigger]
                old(self)@.contains_key(p) ==> final(self)@[p].x == old(self)@[p].x
                    && final(self)@[p].y == old(self)@[p].y && final(self)@[p].mobiles.dom() == old(
                    self,
                )@[p].mobiles.dom(),
            forall|p: (i16, i16), id: u128|
                old(self)@.contains_key(p) && #[trigger] old(self)@[p].mobiles.contains_key(id)
                    ==> final(self)@[p].mobiles[id].id == old(self)@[p].mobiles[id].id,
            exists|visitors: Seq<V>, logs: Seq<MessageListView>|
                {
                    &&& #[trigger] visit_trace(
                        old(self)@,
                        final(self)@,
                        positions_in_order(old(self)@.dom()),
                        visitors,
                        logs,
                    )
                    &&& visitors.first() == *old(visitor)
                    &&& visitors.last() == *final(visitor)
                    &&& logs.first() == old(messages)@
                    &&& logs.last() == final(messages)@
                },
    {
        let positions = sorted_positions(&self.location_by_position);
        proof {
            assert(self@.dom() =~= self.location_by_position@.dom());
        }
        let ghost mut visitors: Seq<V> = seq![*visitor];
        let ghost mut logs: Seq<MessageListView> = seq![messages@];
        let mut i: usize = 0;
        while i < positions.len()
            invariant
                i <= positions.len(),
                positions@ == positions_in_order(old(self)@.dom()),
                lists_positions(positions@, old(self)@.dom()),
                self@.dom() == old(self)@.dom(),
                forall|j: int|
                    i <= j < positions.len() ==> self@[#[trigger] positions[j]] == old(
                        self,
                    )@[positions[j]],
                forall|p: (i16, i16)| #[trigger]
                    old(self)@.contains_key(p) ==> self@[p].x == old(self)@[p].x && self@[p].y
                        == old(self)@[p].y && self@[p].mobiles.dom() == old(self)@[p].mobiles.dom(),
                forall|p: (i16, i16), id: u128|
                    old(self)@.contains_key(p) && #[trigger] old(self)@[p].mobiles.contains_key(id)
                        ==> self@[p].mobiles[id].id == old(self)@[p].mobiles[id].id,
                visit_trace(old(self)@, self@, positions@.take(i as int), visitors, logs),
                visitors.first() == *old(visitor),
                visitors.last() == *visitor,
                logs.first() == old(messages)@,
                logs.last() == messages@,
            decreases positions.len() - i,
        {
            let p = positions[i];
            let ghost before = self@;
            proof {
                assert(positions@.contains(p));
                assert(positions@.to_set().contains(p));
            }
            let found = self.location_by_position.remove(&p);
            match found {
                Some(mut location) => {
                    assert(location@ == old(self)@[p]);
                    visitor.visit_location(&mut location, messages);
                    self.location_by_position.insert(p, location);
                    proof {
                        assert(self@ =~= before.insert(p, location@));
                        assert(self@.dom() =~= old(self)@.dom());
                        let ghost earlier = visitors;
                        let ghost earlier_logs = logs;
                        visitors = visitors.push(*visitor);
                        logs = logs.push(messages@);
                        let order = positions@.take(i + 1);
                        assert forall|k: int| 0 <= k < order.len() implies visitors[k].visited(
                            &visitors[k + 1],
                            old(self)@[#[trigger] order[k]],
                            self@[order[k]],
                            logs[k],
                            logs[k + 1],
                        ) by {
                            if k < i {
                                assert(positions@.take(i as int)[k] == order[k]);
                                assert(crate::order::precedes(positions[k], positions[i as int]));
                                assert(order[k] != p);
                                assert(self@[order[k]] == before[order[k]]);
                                assert(visitors[k] == earlier[k]);
                                assert(visitors[k + 1] == earlier[k + 1]);
                                assert(logs[k] == earlier_logs[k]);
                                assert(logs[k + 1] == earlier_logs[k + 1]);
                            }
                        }
                        assert forall|j: int| i + 1 <= j < positions.len()
                            implies self@[#[trigger] positions[j]]
                            == old(self)@[positions[j]] by {
                            assert(crate::order::precedes(positions[i as int], positions[j]));
                        }
                    }
                },
                None => {
                    proof {
                        assert(false);
                    }
                },
            }
            i += 1;
        }
        proof {
            assert(positions@.take(i as int) =~= positions@);
        }
    }

    /// The explored world as text: a row for each second coordinate and a
    /// character for each first coordinate in use.
    pub fn draw_map(&self) -> (result: String)
        ensures
            result@ == drawing(self@),
    {
        let mut result = String::new();
        let keys = sorted_positions(&self.location_by_position);
        proof {
            assert(self@.dom() =~= self.location_by_position@.dom());
        }
        let mut x_min: i32 = 9999;
        let mut x_max: i32 = 0;
        let mut y_min: i32 = 9999;
        let mut y_max: i32 = 0;
        let mut i: usize = 0;
        while i < keys.len()
            invariant
                i <= keys.len(),
                x_min == least_x(keys@.take(i as int)),
                x_max == greatest_x(keys@.take(i as int)),
                y_min == least_y(keys@.take(i as int)),
                y_max == greatest_y(keys@.take(i as int)),
                -32768 <= x_min <= 9999,
                0 <= x_max <= 32767,
                -32768 <= y_min <= 9999,
                0 <= y_max <= 32767,
            decreases keys.len() - i,
        {
            let key = keys[i];
            proof {
                let next = keys@.take(i + 1);
                assert(next.drop_last() =~= keys@.take(i as int));
                assert(next.last() == key);
            }
            if (key.0 as i32) < x_min {
                x_min = key.0 as i32;
            }
            if key.0 as i32 > x_max {
                x_max = key.0 as i32;
            }
            if (key.1 as i32) < y_min {
                y_min = key.1 as i32;
            }
            if key.1 as i32 > y_max {
                y_max = key.1 as i32;
            }
            i += 1;
        }
        proof {
            assert(keys@.take(i as int) =~= keys@);
        }
        let mut y: i32 = y_min;
        while y < y_max + 1
            invariant
                -32768 <= x_min <= 9999,
                0 <= x_max <= 32767,
                y_min <= y,
                y_min <= y_max + 1 ==> y <= y_max + 1,
                y_min > y_max + 1 ==> y == y_min,
                0 <= y_max <= 32767,
                -32768 <= y_min,
                result@ == map_rows(self@, y_min as int, y as int, x_min as int, x_max + 1),
            decreases y_max + 1 - y,
        {
            let ghost rows = result@;
            let mut x: i32 = x_min;
            while x < x_max + 1
                invariant
                    -32768 <= x_min <= x,
                    x_min <= x_max + 1 ==> x <= x_max + 1,
                    x_min > x_max + 1 ==> x == x_min,
                    0 <= x_max <= 32767,
                    result@ == rows + map_row(self@, y as int, x_min as int, x as int),
                decreases x_max + 1 - x,
            {
                let location = self.kind_at(x, y);
                let ghost row = map_row(self@, y as int, x_min as int, x as int);
                match location {
                    LocationTypeCode::Town => {
                        proof {
                            reveal_strlit("T");
                            assert(rows + row + "T"@ =~= rows + row.push('T'));
                        }
                        result.append("T");
                    },
                    LocationTypeCode::Forest => {
                        proof {
                            reveal_strlit("-");
                            assert(rows + row + "-"@ =~= rows + row.push('-'));
                        }
                        result.append("-");
                    },
                    LocationTypeCode::DeepWoods => {
                        proof {
                            reveal_strlit("*");
                            assert(rows + row + "*"@ =~= rows + row.push('*'));
                        }
                        result.append("*");
                    },
                    LocationTypeCode::Hills => {
                        proof {
                            reveal_strlit("^");
                            assert(rows + row + "^"@ =~= rows + row.push('^'));
                        }
                        result.append("^");
                    },
                    LocationTypeCode::Unexplored => {
                        proof {
                            reveal_strlit(" ");
                            assert(rows + row + " "@ =~= rows + row.push(' '));
                        }
                        result.append(" ");
                    },
                }
                x += 1;
            }
            proof {
                if x_min > x_max + 1 {
                    assert(map_row(self@, y as int, x_min as int, x_max + 1) =~= Seq::<char>::empty());
                    assert(map_row(self@, y as int, x_min as int, x as int) =~= Seq::<char>::empty());
                }
            }
            result.append("\n");
            y += 1;
        }
        proof {
            if y_min > y_max + 1 {
                assert(map_rows(self@, y_min as int, y_max + 1, x_min as int, x_max + 1)
                    =~= Seq::<char>::empty());
            }
        }
        result
    }
}

} // verus!
