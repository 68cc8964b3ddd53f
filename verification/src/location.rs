use crate::dice::draw_word;
use crate::items::{items_view, maybe_item_view, Item, ItemView};
use crate::message::{MessageList, MessageListView};
use crate::mobile::{Mobile, MobileView};
use crate::object::Object;
use crate::order::{ids_in_order, lists_in_order, sorted_ids};
use crate::text::{
    all_digits, contains_text, decimal_value, join, lowered, occurs_in, parse_digits, text, to_lower,
};
use std::collections::BTreeMap;
use vstd::prelude::*;
use vstd::string::*;

verus! {

/// The kinds of location the map is made of.
#[derive(Copy, Clone, Debug, PartialEq, Eq, Structural)]
pub enum LocationTypeCode {
    Town,
    Forest,
    DeepWoods,
    Hills,
    Unexplored,
}

/// A location on the map.
pub struct Location {
    pub x: i16,
    pub y: i16,
    pub(crate) description: String,
    pub location_type: LocationTypeCode,
    pub(crate) mobiles: BTreeMap<u128, Box<Mobile>>,
    pub(crate) items: Vec<Box<Item>>,
}

/// What a location is: its place and kind, the mobiles in it by identifier,
/// and the items lying in it in the order in which they were put there.
pub struct LocationView {
    pub x: i16,
    pub y: i16,
    pub description: Seq<char>,
    pub location_type: LocationTypeCode,
    pub mobiles: Map<u128, MobileView>,
    pub items: Seq<ItemView>,
}

impl View for Location {
    type V = LocationView;

    open(crate) spec fn view(&self) -> LocationView {
        LocationView {
            x: self.x,
            y: self.y,
            description: self.description@,
            location_type: self.location_type,
            mobiles: self.mobiles@.map_values(|m: Box<Mobile>| m@),
            items: items_view(self.items@),
        }
    }
}

/// The view of a mobile that may be absent.
pub open spec fn maybe_mobile_view(mobile: Option<Box<Mobile>>) -> Option<MobileView> {
    match mobile {
        Some(m) => Some(m@),
        None => None,
    }
}


/// `at` is where the first full stop of `s` stands, or the length of `s` when
/// it has none.
pub open spec fn is_first_dot(s: Seq<char>, at: int) -> bool {
    &&& 0 <= at <= s.len()
    &&& at < s.len() ==> s[at] == '.'
    &&& forall|j: int| 0 <= j < at ==> s[j] != '.'
}

/// Where the first full stop of `s` stands, or the length of `s`.
pub open spec fn first_dot(s: Seq<char>) -> int {
    choose|at: int| is_first_dot(s, at)
}

/// The position that `is_first_dot` admits is the one `first_dot` names.
pub proof fn lemma_first_dot(s: Seq<char>, at: int)
    requires
        is_first_dot(s, at),
    ensures
        first_dot(s) == at,
{
    let other = first_dot(s);
    assert(is_first_dot(s, other));
    if other < at {
        assert(s[other] != '.');
    }
    if at < other {
        assert(s[at] != '.');
    }
}

/// The number that a text writes: an optional plus sign and at least one
/// decimal digit, when that number fits a machine word; zero for every other
/// text.
pub open spec fn number_or_zero(t: Seq<char>) -> nat {
    let d = if t.len() > 0 && t[0] == '+' {
        t.skip(1)
    } else {
        t
    };
    if d.len() > 0 && all_digits(d) && decimal_value(d) <= usize::MAX {
        decimal_value(d)
    } else {
        0
    }
}

/// The name in a key of the form `name.number`: what stands before the
/// first full stop.
pub open spec fn name_part(key: Seq<char>) -> Seq<char> {
    key.take(first_dot(key))
}

/// The number in a key of the form `name.number`: what stands between the
/// first full stop and the second, read as a number; zero where there is no
/// full stop or no number.
pub open spec fn index_part(key: Seq<char>) -> nat {
    let at = first_dot(key);
    if at >= key.len() {
        0
    } else {
        let rest = key.skip(at + 1);
        number_or_zero(rest.take(first_dot(rest)))
    }
}

impl LocationView {
    /// A location as it is first made: nobody is there, and only a forest
    /// has anything lying in it.
    pub open spec fn fresh(
        x: i16,
        y: i16,
        location_type: LocationTypeCode,
        description: Seq<char>,
    ) -> LocationView {
        LocationView {
            x,
            y,
            description,
            location_type,
            mobiles: Map::empty(),
            items: if location_type == LocationTypeCode::Forest {
                seq![ItemView::forest_debris()]
            } else {
                Seq::empty()
            },
        }
    }

    /// Every mobile is kept under its own identifier.
    pub open spec fn wf(self) -> bool {
        forall|id: u128| #[trigger] self.mobiles.contains_key(id) ==> self.mobiles[id].id == id
    }

    /// The location with one more item, at the end.
    pub open spec fn with_item(self, item: ItemView) -> LocationView {
        LocationView { items: self.items.push(item), ..self }
    }

    /// The location without the item at `pos`.
    pub open spec fn without_item(self, pos: int) -> LocationView {
        LocationView { items: self.items.remove(pos), ..self }
    }

    /// The location with `mobile` in it, in the place of any mobile that was
    /// there under the same identifier.
    pub open spec fn with_mobile(self, mobile: MobileView) -> LocationView {
        LocationView { mobiles: self.mobiles.insert(mobile.id, mobile), ..self }
    }

    /// The location without the mobile known as `id`.
    pub open spec fn without_mobile(self, id: u128) -> LocationView {
        LocationView { mobiles: self.mobiles.remove(id), ..self }
    }

    /// The identifiers of the mobiles in the location, smallest first.
    pub open spec fn ids(self) -> Seq<u128> {
        ids_in_order(self.mobiles.dom())
    }
    /// Whether the mobile known as `id` is here and its lower-cased name
    /// holds `name`.
    pub open spec fn mobile_matches(self, id: u128, name: Seq<char>) -> bool {
        self.mobiles.contains_key(id) && occurs_in(lowered(self.mobiles[id].name), name)
    }

    /// How many of the mobiles listed match `name`.
    pub open spec fn count_mobiles(self, ids: Seq<u128>, name: Seq<char>) -> nat
        decreases ids.len(),
    {
        if ids.len() == 0 {
            0
        } else {
            self.count_mobiles(ids.drop_last(), name) + if self.mobile_matches(ids.last(), name) {
                1nat
            } else {
                0nat
            }
        }
    }

    /// The mobile among those listed that matches `name` after exactly
    /// `which` others that do.
    pub open spec fn select_mobile(self, ids: Seq<u128>, name: Seq<char>, which: nat) -> Option<
        u128,
    >
        decreases ids.len(),
    {
        if ids.len() == 0 {
            None
        } else {
            match self.select_mobile(ids.drop_last(), name, which) {
                Some(id) => Some(id),
                None => if self.mobile_matches(ids.last(), name) && self.count_mobiles(
                    ids.drop_last(),
                    name,
                ) == which {
                    Some(ids.last())
                } else {
                    None
                },
            }
        }
    }

    /// The mobile that a key of the form `name.number` stands for: among the
    /// mobiles whose lower-cased names hold the lower-cased name, taken by
    /// ascending identifier, the one with that number, counted from zero.
    pub open spec fn mobile_named(self, key: Seq<char>) -> Option<u128> {
        let k = lowered(key);
        self.select_mobile(self.ids(), name_part(k), index_part(k))
    }

    /// Whether the lower-cased name of the item at `pos` holds `name`.
    pub open spec fn item_matches(self, pos: int, name: Seq<char>) -> bool {
        0 <= pos < self.items.len() && occurs_in(lowered(self.items[pos].name), name)
    }

    /// How many of the first `upto` items match `name`.
    pub open spec fn count_items(self, upto: int, name: Seq<char>) -> nat
        decreases upto,
    {
        if upto <= 0 {
            0
        } else {
            self.count_items(upto - 1, name) + if self.item_matches(upto - 1, name) {
                1nat
            } else {
                0nat
            }
        }
    }

    /// The position, among the first `upto` items, of the item that matches
    /// `name` after exactly `which` others that do.
    pub open spec fn select_item(self, upto: int, name: Seq<char>, which: nat) -> Option<int>
        decreases upto,
    {
        if upto <= 0 {
            None
        } else {
            match self.select_item(upto - 1, name, which) {
                Some(pos) => Some(pos),
                None => if self.item_matches(upto - 1, name) && self.count_items(upto - 1, name)
                    == which {
                    Some(upto - 1)
                } else {
                    None
                },
            }
        }
    }

    /// The position of the item that a key of the form `name.number` stands
    /// for: among the items whose lower-cased names hold the lower-cased
    /// name, in the order in which they lie, the one with that number,
    /// counted from zero.
    pub open spec fn item_named(self, key: Seq<char>) -> Option<int> {
        let k = lowered(key);
        self.select_item(self.items.len() as int, name_part(k), index_part(k))
    }

    /// A mobile selected among the first `k` of those listed is the one
    /// selected among all of them.
    pub proof fn lemma_select_mobile_stable(
        self,
        ids: Seq<u128>,
        name: Seq<char>,
        which: nat,
        k: int,
    )
        requires
            0 <= k <= ids.len(),
            self.select_mobile(ids.take(k), name, which) is Some,
        ensures
            self.select_mobile(ids, name, which) == self.select_mobile(ids.take(k), name, which),
        decreases ids.len() - k,
    {
        if k < ids.len() {
            assert(ids.take(k + 1).drop_last() =~= ids.take(k));
            self.lemma_select_mobile_stable(ids, name, which, k + 1);
        } else {
            assert(ids.take(k) =~= ids);
        }
    }

    /// An item selected among the first `upto` is the one selected among any
    /// more of them.
    pub proof fn lemma_select_item_stable(self, name: Seq<char>, which: nat, upto: int, more: int)
        requires
            upto <= more,
            self.select_item(upto, name, which) is Some,
        ensures
            self.select_item(more, name, which) == self.select_item(upto, name, which),
        decreases more - upto,
    {
        if upto < more {
            self.lemma_select_item_stable(name, which, upto, more - 1);
        }
    }

    /// The location's description followed by a line for each of the
    /// mobiles listed.
    pub open spec fn mobile_lines(self, ids: Seq<u128>) -> Seq<char>
        decreases ids.len(),
    {
        if ids.len() == 0 {
            self.description
        } else {
            self.mobile_lines(ids.drop_last()) + "\n"@ + self.mobiles[ids.last()].description
        }
    }

    /// The location's description followed by a line for each mobile, by
    /// ascending identifier, and for each of the first `upto` items.
    pub open spec fn item_lines(self, upto: int) -> Seq<char>
        decreases upto,
    {
        if upto <= 0 {
            self.mobile_lines(self.ids())
        } else {
            self.item_lines(upto - 1) + "\n"@ + self.items[upto - 1].description
        }
    }

    /// What is seen in the location: its description, then a line for each
    /// mobile, then a line for each item.
    pub open spec fn full_description(self) -> Seq<char> {
        self.item_lines(self.items.len() as int)
    }

    /// The location after a tick has passed over its items.
    pub open spec fn with_aged_items(self) -> LocationView {
        LocationView { items: survivors(self.items), ..self }
    }

    /// `self` is what `before` can be after a tick has passed over its
    /// mobiles: the same mobiles are there, each rested with some face of a
    /// hundred-sided die, and nothing else has changed.
    pub open spec fn rested_from(self, before: LocationView) -> bool {
        &&& self == LocationView { mobiles: self.mobiles, ..before }
        &&& self.mobiles.dom() == before.mobiles.dom()
        &&& forall|id: u128| #[trigger]
            before.mobiles.contains_key(id) ==> may_rest_to(before.mobiles[id], self.mobiles[id])
    }
}

/// `after` is what `before` can be at the start of a tick: rested with some
/// face of a hundred-sided die.
pub open spec fn may_rest_to(before: MobileView, after: MobileView) -> bool {
    exists|face: int| 1 <= face <= 100 && after == #[trigger] before.rested(face)
}

/// The items that outlive a tick, each one tick older: those with more than
/// one tick left.
pub open spec fn survivors(items: Seq<ItemView>) -> Seq<ItemView>
    decreases items.len(),
{
    if items.len() == 0 {
        Seq::empty()
    } else {
        let rest = survivors(items.drop_last());
        if items.last().lifetime <= 1 {
            rest
        } else {
            rest.push(items.last().aged())
        }
    }
}

/// The log after the decay of each item that does not outlive a tick was
/// announced at `(x, y)`, in the order in which the items lie.
pub open spec fn decay_log(items: Seq<ItemView>, log: MessageListView, x: i16, y: i16) -> MessageListView
    decreases items.len(),
{
    if items.len() == 0 {
        log
    } else {
        let before = decay_log(items.drop_last(), log, x, y);
        if items.last().lifetime <= 1 {
            before.posted_for_all(items.last().name + " decays into dust"@, x, y)
        } else {
            before
        }
    }
}

impl Location {
    /// Where the first full stop stands at or after `from`, counted in
    /// characters, or the length of the text.
    fn find_dot(s: &str, from: usize) -> (at: usize)
        requires
            from <= s@.len(),
        ensures
            from <= at <= s@.len(),
            is_first_dot(s@.skip(from as int), at - from),
    {
        let n = s.unicode_len();
        let mut i: usize = from;
        while i < n
            invariant
                n == s@.len(),
                from <= i <= n,
                forall|j: int| from <= j < i ==> s@[j] != '.',
            decreases n - i,
        {
            if s.get_char(i) == '.' {
                return i;
            }
            i += 1;
        }
        i
    }

    /// Reads the characters of `s` from `from` up to `to` as a number.
    fn parse_number(s: &str, from: usize, to: usize) -> (value: usize)
        requires
            from <= to <= s@.len(),
        ensures
            value == number_or_zero(s@.subrange(from as int, to as int)),
    {
        let ghost t = s@.subrange(from as int, to as int);
        let mut start: usize = from;
        if from < to && s.get_char(from) == '+' {
            start = from + 1;
        }
        proof {
            let d = s@.subrange(start as int, to as int);
            if start == from {
                assert(d =~= t);
            } else {
                assert(d =~= t.skip(1));
            }
        }
        match parse_digits(s, start, to) {
            Some(value) => if value <= usize::MAX as u128 {
                value as usize
            } else {
                0
            },
            None => 0,
        }
    }

    /// Splits a key of the form `name.number` into its name and its number.
    /// A key without a full stop, or without a number behind it, has the
    /// number zero.
    pub fn parse_name(key: &String) -> (parts: (String, usize))
        ensures
            parts.0@ == name_part(key@),
            parts.1 == index_part(key@),
    {
        let s = key.as_str();
        let n = s.unicode_len();
        let at = Location::find_dot(s, 0);
        proof {
            assert(s@.skip(0) =~= s@);
            lemma_first_dot(s@, at as int);
        }
        let name = text(s.substring_char(0, at));
        proof {
            assert(s@.subrange(0, at as int) =~= s@.take(at as int));
        }
        if at >= n {
            return (name, 0);
        }
        let end = Location::find_dot(s, at + 1);
        proof {
            let rest = s@.skip(at + 1);
            lemma_first_dot(rest, end - (at + 1));
            assert(s@.subrange(at + 1, end as int) =~= rest.take(end - (at + 1)));
        }
        let number = Location::parse_number(s, at + 1, end);
        (name, number)
    }

    /// Whether any mobile is in the location.
    pub fn has_mobiles(&self) -> (has: bool)
        ensures
            has == (self@.mobiles.dom().len() > 0),
    {
        let n = self.mobiles.len();
        proof {
            assert(self@.mobiles.dom() =~= self.mobiles@.dom());
        }
        n > 0
    }

    /// Takes a mobile chosen at random out of the location.
    pub fn fetch_mobile_at_random(&mut self) -> (mobile: Option<Box<Mobile>>)
        ensures
            old(self)@.mobiles.dom().len() == 0 ==> mobile is None && final(self)@ == old(self)@,
            old(self)@.mobiles.dom().len() > 0 ==> exists|id: u128| #[trigger]
                old(self)@.mobiles.contains_key(id) && maybe_mobile_view(mobile) == Some(
                    old(self)@.mobiles[id],
                ) && final(self)@ == old(self)@.without_mobile(id),
    {
        let keys = sorted_ids(&self.mobiles);
        proof {
            assert(self@.mobiles.dom() =~= self.mobiles@.dom());
        }
        if keys.len() == 0 {
            return None;
        }
        let index = draw_word() % keys.len();
        let key = keys[index];
        proof {
            assert(keys@.contains(key));
            assert(keys@.to_set().contains(key));
        }
        self.fetch_mobile_by_guid(key)
    }

    /// Takes an item chosen at random out of the location.
    pub fn fetch_item_at_random(&mut self) -> (item: Option<Box<Item>>)
        ensures
            old(self)@.items.len() == 0 ==> item is None && final(self)@ == old(self)@,
            old(self)@.items.len() > 0 ==> exists|pos: int|
                0 <= pos < old(self)@.items.len() && maybe_item_view(item) == Some(
                    old(self)@.items[pos],
                ) && final(self)@ == #[trigger] old(self)@.without_item(pos),
    {
        if self.items.len() == 0 {
            return None;
        }
        let index = draw_word() % self.items.len();
        let item = self.items.remove(index);
        proof {
            assert(items_view(self.items@) =~= old(self)@.items.remove(index as int));
            assert(self@ == old(self)@.without_item(index as int));
        }
        Some(item)
    }

    /// A location as it is first made. A forest has its debris lying in it.
    pub fn new(x: i16, y: i16, code: LocationTypeCode, description: String) -> (location:
        Location)
        ensures
            location@ == LocationView::fresh(x, y, code, description@),
    {
        let mut result = Location {
            x: x,
            y: y,
            description: description,
            location_type: code,
            mobiles: BTreeMap::new(),
            items: Vec::new(),
        };
        proof {
            assert(result@.mobiles =~= Map::<u128, MobileView>::empty());
            assert(result@.items =~= Seq::<ItemView>::empty());
        }
        match result.location_type {
            LocationTypeCode::Forest => {
                result.add_item(Item::forest_debris());
                proof {
                    assert(result@.items =~= seq![ItemView::forest_debris()]);
                }
                result
            },
            _ => result,
        }
    }

    /// Puts an item down in the location.
    pub fn add_item(&mut self, item: Box<Item>)
        ensures
            final(self)@ == old(self)@.with_item(item@),
    {
        self.items.push(item);
        proof {
            assert(items_view(self.items@) =~= old(self)@.items.push(item@));
        }
    }

    /// Puts a mobile into the location, under its own identifier.
    pub fn add_mobile(&mut self, mobile: Box<Mobile>)
        ensures
            final(self)@ == old(self)@.with_mobile(mobile@),
    {
        let id = mobile.get_id();
        self.mobiles.insert(id, mobile);
        proof {
            assert(self@.mobiles =~= old(self)@.mobiles.insert(mobile@.id, mobile@));
        }
    }

    /// Takes the mobile known as `key` out of the location.
    pub fn fetch_mobile_by_guid(&mut self, key: u128) -> (mobile: Option<Box<Mobile>>)
        ensures
            old(self)@.mobiles.contains_key(key) ==> maybe_mobile_view(mobile) == Some(
                old(self)@.mobiles[key],
            ) && final(self)@ == old(self)@.without_mobile(key),
            !old(self)@.mobiles.contains_key(key) ==> mobile is None && final(self)@ == old(
                self,
            )@,
    {
        let mobile = self.mobiles.remove(&key);
        proof {
            assert(self@.mobiles =~= old(self)@.mobiles.remove(key));
            if !old(self)@.mobiles.contains_key(key) {
                assert(self@.mobiles =~= old(self)@.mobiles);
            }
        }
        mobile
    }

    /// Puts down what is left of a mobile: its corpse, and after it every
    /// item the mobile carried, first to last. The mobile is left with
    /// nothing.
    pub fn add_corpse(&mut self, mobile: &mut Box<Mobile>)
        requires
            old(mobile)@.can_strip(),
        ensures
            final(self)@ == (LocationView {
                items: old(self)@.items.push(ItemView::corpse(old(mobile)@.name)) + old(
                    mobile,
                )@.loot(),
                ..old(self)@
            }),
            final(mobile)@ == old(mobile)@.stripped(),
    {
        self.add_item(Item::corpse(mobile.name.clone()));
        let ghost target = self@.items + mobile@.loot();
        loop
            invariant
                target == old(self)@.items.push(ItemView::corpse(old(mobile)@.name)) + old(
                    mobile,
                )@.loot(),
                mobile@.can_strip(),
                mobile@.stripped() == old(mobile)@.stripped(),
                self@ == (LocationView { items: self@.items, ..old(self)@ }),
                self@.items + mobile@.loot() == target,
            ensures
                mobile@ == old(mobile)@.stripped(),
                self@ == (LocationView { items: target, ..old(self)@ }),
            decreases mobile@.inventory.len(),
        {
            let ghost before = mobile@;
            let ghost lying = self@.items;
            let item = mobile.fetch_first_item();
            match item {
                Some(item) => {
                    self.add_item(item);
                    proof {
                        assert(lying.push(item@) + mobile@.loot() =~= lying + before.loot());
                    }
                },
                None => {
                    proof {
                        assert(self@.items + mobile@.loot() =~= self@.items);
                    }
                    break ;
                },
            }
        }
    }

    /// Lets a tick pass over the items: each gets one tick older, and those
    /// that do not outlive the tick go, their decay being announced at the
    /// location.
    pub fn age_all_items(&mut self, messages: &mut MessageList)
        ensures
            final(self)@ == old(self)@.with_aged_items(),
            final(messages)@ == decay_log(
                old(self)@.items,
                old(messages)@,
                old(self)@.x,
                old(self)@.y,
            ),
    {
        let ghost all = self@.items;
        let ghost mut done: int = 0;
        let mut i: usize = 0;
        while i < self.items.len()
            invariant
                0 <= done <= all.len(),
                all == old(self)@.items,
                self@ == (LocationView { items: self@.items, ..old(self)@ }),
                i == survivors(all.take(done)).len(),
                self@.items == survivors(all.take(done)) + all.skip(done),
                messages@ == decay_log(all.take(done), old(messages)@, self.x, self.y),
            decreases all.len() - done,
        {
            let ghost lying = self@.items;
            let mut item = self.items.remove(i);
            proof {
                assert(item@ == lying[i as int]);
                assert(item@ == all[done]);
                assert(items_view(self.items@) =~= lying.remove(i as int));
                let next = all.take(done + 1);
                assert(next.drop_last() =~= all.take(done));
                assert(next.last() == all[done]);
            }
            if item.lifetime <= 1 {
                messages.post_for_all(join(item.name.as_str(), " decays into dust"), self.x, self.y);
                proof {
                    assert(self@.items =~= survivors(all.take(done + 1)) + all.skip(done + 1));
                }
            } else {
                item.tick();
                self.items.insert(i, item);
                proof {
                    assert(items_view(self.items@) =~= lying.remove(i as int).insert(
                        i as int,
                        item@,
                    ));
                    assert(self@.items =~= survivors(all.take(done + 1)) + all.skip(done + 1));
                }
                i += 1;
            }
            proof {
                done = done + 1;
            }
        }
        proof {
            assert(all.skip(done) =~= Seq::<ItemView>::empty());
            assert(done == all.len()) by {
                assert(self@.items.len() == i + all.skip(done).len());
            }
            assert(all.take(done) =~= all);
            assert(self@.items =~= survivors(all));
        }
    }

    /// Lets a tick pass over the mobiles: each starts the tick with fresh
    /// actions and may heal a point of damage.
    pub fn age_all_mobiles(&mut self)
        ensures
            final(self)@.rested_from(old(self)@),
    {
        let ids = sorted_ids(&self.mobiles);
        proof {
            assert(self@.mobiles.dom() =~= self.mobiles@.dom());
        }
        let mut i: usize = 0;
        while i < ids.len()
            invariant
                i <= ids.len(),
                lists_in_order(ids@, old(self)@.mobiles.dom()),
                self@ == (LocationView { mobiles: self@.mobiles, ..old(self)@ }),
                self@.mobiles.dom() == old(self)@.mobiles.dom(),
                forall|j: int|
                    i <= j < ids.len() ==> self@.mobiles[#[trigger] ids[j]] == old(
                        self,
                    )@.mobiles[ids[j]],
                forall|j: int|
                    0 <= j < i ==> may_rest_to(
                        old(self)@.mobiles[#[trigger] ids[j]],
                        self@.mobiles[ids[j]],
                    ),
            decreases ids.len() - i,
        {
            let id = ids[i];
            let ghost before = self@;
            proof {
                assert(ids@.contains(id));
                assert(ids@.to_set().contains(id));
            }
            let found = self.mobiles.remove(&id);
            match found {
                Some(mut mobile) => {
                    let ghost was = mobile@;
                    assert(was == before.mobiles[id]);
                    mobile.tick();
                    self.mobiles.insert(id, mobile);
                    proof {
                        assert(self@.mobiles =~= before.mobiles.insert(id, mobile@));
                        assert(self@.mobiles.dom() =~= old(self)@.mobiles.dom());
                        assert(may_rest_to(was, mobile@));
                        assert forall|j: int| i + 1 <= j < ids.len()
                            implies self@.mobiles[#[trigger] ids[j]]
                            == old(self)@.mobiles[ids[j]] by {
                            assert(ids[j] != id);
                        }
                        assert forall|j: int| 0 <= j < i + 1 implies may_rest_to(
                            old(self)@.mobiles[#[trigger] ids[j]],
                            self@.mobiles[ids[j]],
                        ) by {
                            if j < i {
                                assert(ids[j] != id);
                                assert(self@.mobiles[ids[j]] == before.mobiles[ids[j]]);
                            }
                        }
                    }
                },
                None => {
                    proof {
                        assert(false);
                    }
                },
            }
            i += 1;
        }
        proof {
            assert forall|id: u128| #[trigger]
                old(self)@.mobiles.contains_key(id) implies may_rest_to(
                old(self)@.mobiles[id],
                self@.mobiles[id],
            ) by {
                assert(ids@.to_set().contains(id));
                assert(ids@.contains(id));
                let j = choose|j: int| 0 <= j < ids@.len() && ids@[j] == id;
                assert(ids[j] == id);
            }
        }
    }

    /// Takes the mobile that a key of the form `name.number` stands for out
    /// of the location.
    pub fn fetch_mobile_by_name(&mut self, key: &String) -> (mobile: Option<Box<Mobile>>)
        ensures
            match old(self)@.mobile_named(key@) {
                Some(id) => old(self)@.mobiles.contains_key(id) && maybe_mobile_view(mobile)
                    == Some(old(self)@.mobiles[id]) && final(self)@ == old(self)@.without_mobile(
                    id,
                ),
                None => mobile is None && final(self)@ == old(self)@,
            },
    {
        let lower_case_key = to_lower(key.as_str());
        let (name, which) = Location::parse_name(&lower_case_key);
        let ids = sorted_ids(&self.mobiles);
        proof {
            assert(self@.mobiles.dom() =~= self.mobiles@.dom());
        }
        let mut idx: usize = 0;
        let mut i: usize = 0;
        while i < ids.len()
            invariant
                i <= ids.len(),
                idx <= i,
                *self == *old(self),
                ids@ == self@.ids(),
                lists_in_order(ids@, self@.mobiles.dom()),
                name@ == name_part(lowered(key@)),
                which == index_part(lowered(key@)),
                idx == self@.count_mobiles(ids@.take(i as int), name@),
                self@.select_mobile(ids@.take(i as int), name@, which as nat) is None,
            decreases ids.len() - i,
        {
            let id = ids[i];
            proof {
                assert(ids@.contains(id));
                assert(ids@.to_set().contains(id));
                let next = ids@.take(i + 1);
                assert(next.drop_last() =~= ids@.take(i as int));
                assert(next.last() == id);
            }
            let found = self.mobiles.get(&id);
            match found {
                Some(mobile) => {
                    assert(mobile@ == self@.mobiles[id]);
                    let mobile_name = to_lower(mobile.name.as_str());
                    if contains_text(mobile_name.as_str(), name.as_str()) {
                        if idx == which {
                            proof {
                                self@.lemma_select_mobile_stable(
                                    ids@,
                                    name@,
                                    which as nat,
                                    i + 1,
                                );
                            }
                            return self.fetch_mobile_by_guid(id);
                        }
                        idx += 1;
                    }
                },
                None => {
                    proof {
                        assert(false);
                    }
                },
            }
            i += 1;
        }
        proof {
            assert(ids@.take(i as int) =~= ids@);
        }
        None
    }

    /// Takes the item that a key of the form `name.number` stands for out of
    /// the location.
    pub fn fetch_item_by_name(&mut self, key: &String) -> (item: Option<Box<Item>>)
        ensures
            match old(self)@.item_named(key@) {
                Some(pos) => 0 <= pos < old(self)@.items.len() && maybe_item_view(item) == Some(
                    old(self)@.items[pos],
                ) && final(self)@ == old(self)@.without_item(pos),
                None => item is None && final(self)@ == old(self)@,
            },
    {
        let lower_case_key = to_lower(key.as_str());
        let (name, which) = Location::parse_name(&lower_case_key);
        let mut idx: usize = 0;
        let mut i: usize = 0;
        while i < self.items.len()
            invariant
                i <= self.items.len(),
                idx <= i,
                *self == *old(self),
                name@ == name_part(lowered(key@)),
                which == index_part(lowered(key@)),
                idx == self@.count_items(i as int, name@),
                self@.select_item(i as int, name@, which as nat) is None,
            decreases self.items.len() - i,
        {
            let item_name = to_lower(self.items[i].name.as_str());
            assert(self@.items[i as int] == self.items[i as int]@);
            if contains_text(item_name.as_str(), name.as_str()) {
                if idx == which {
                    proof {
                        self@.lemma_select_item_stable(
                            name@,
                            which as nat,
                            i + 1,
                            self@.items.len() as int,
                        );
                    }
                    let item = self.items.remove(i);
                    proof {
                        assert(items_view(self.items@) =~= old(self)@.items.remove(i as int));
                    }
                    return Some(item);
                }
                idx += 1;
            }
            i += 1;
        }
        None
    }
}

impl Object for Location {
    open(crate) spec fn description_text(&self) -> Seq<char> {
        self@.full_description()
    }

    open(crate) spec fn name_text(&self) -> Seq<char> {
        self@.description
    }

    open(crate) spec fn complete_text(&self) -> Seq<char> {
        self@.full_description()
    }

    fn complete_description(&self) -> (result: String) {
        self.description()
    }

    fn description(&self) -> (result: String) {
        let mut result = self.description.clone();
        let ids = sorted_ids(&self.mobiles);
        proof {
            assert(self@.mobiles.dom() =~= self.mobiles@.dom());
        }
        let mut i: usize = 0;
        while i < ids.len()
            invariant
                i <= ids.len(),
                ids@ == self@.ids(),
                lists_in_order(ids@, self@.mobiles.dom()),
                result@ == self@.mobile_lines(ids@.take(i as int)),
            decreases ids.len() - i,
        {
            let id = ids[i];
            proof {
                assert(ids@.contains(id));
                assert(ids@.to_set().contains(id));
                let next = ids@.take(i + 1);
                assert(next.drop_last() =~= ids@.take(i as int));
                assert(next.last() == id);
            }
            match self.mobiles.get(&id) {
                Some(mobile) => {
                    assert(mobile@ == self@.mobiles[id]);
                    let description = mobile.description();
                    result.append("\n");
                    result.append(description.as_str());
                },
                None => {
                    proof {
                        assert(false);
                    }
                },
            }
            i += 1;
        }
        proof {
            assert(ids@.take(i as int) =~= ids@);
        }
        let mut k: usize = 0;
        while k < self.items.len()
            invariant
                k <= self.items.len(),
                result@ == self@.item_lines(k as int),
            decreases self.items.len() - k,
        {
            let description = self.items[k].description();
            assert(self@.items[k as int] == self.items[k as int]@);
            result.append("\n");
            result.append(description.as_str());
            k += 1;
        }
        result
    }

    fn get_name(&self) -> (result: String) {
        self.description.clone()
    }
}

} // verus!
