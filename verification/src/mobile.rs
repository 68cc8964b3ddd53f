use crate::dice::Dice;
use crate::items::{items_view, maybe_item_view, Item, ItemCategoryCode, ItemTypeCode, ItemView};
use crate::object::Object;
use crate::text::{contains_text, decimal, decimal_text, join, join3, lowered, occurs_in, text, to_lower};
use crate::uid;
use vstd::prelude::*;
use vstd::string::*;

verus! {

/// A character or a monster.
pub struct Mobile {
    pub(crate) id: u128,
    pub description: String,
    pub name: String,
    pub name_with_article: String,
    /// Arrival is announced as this prefix, then "from the" and a direction.
    pub arrive_prefix: String,
    /// Leaving is announced as this prefix, then "to the" and a direction.
    pub leave_prefix: String,
    pub strength: i16,
    pub dexterity: i16,
    pub constitution: i16,
    pub intelligence: i16,
    pub wisdom: i16,
    pub charisma: i16,
    pub luck: i16,
    pub xp: i16,
    /// Hit points of damage sustained.
    pub damage: i16,
    pub max_damage: i16,
    pub actions_per_tick: i16,
    /// Actions used in the current tick.
    pub actions_used: i16,
    pub combat: i16,
    pub steal: i16,
    pub perception: i16,
    pub leatherwork: i16,
    pub woodcraft: i16,
    pub knowledge: i16,
    /// The name of what is used as a weapon.
    pub wielded: String,
    /// The damage an attack does.
    pub damage_dice: Dice,
    /// The armor protection in effect.
    pub armor: i16,
    pub inventory: Vec<Box<Item>>,
    /// How many more miscellaneous items can be carried.
    pub misc_items_slots: u8,
    pub is_armed: bool,
    pub is_armored: bool,
    /// How common the mobile is: the target of a knowledge roll.
    pub frequency: i16,
    /// Whether the mobile wanders of its own accord.
    pub wanders: bool,
    pub aggressive: bool,
}

/// What a mobile is, with its texts as sequences of characters and its
/// inventory as a sequence of item views.
pub struct MobileView {
    pub id: u128,
    pub description: Seq<char>,
    pub name: Seq<char>,
    pub name_with_article: Seq<char>,
    pub arrive_prefix: Seq<char>,
    pub leave_prefix: Seq<char>,
    pub strength: i16,
    pub dexterity: i16,
    pub constitution: i16,
    pub intelligence: i16,
    pub wisdom: i16,
    pub charisma: i16,
    pub luck: i16,
    pub xp: i16,
    pub damage: i16,
    pub max_damage: i16,
    pub actions_per_tick: i16,
    pub actions_used: i16,
    pub combat: i16,
    pub steal: i16,
    pub perception: i16,
    pub leatherwork: i16,
    pub woodcraft: i16,
    pub knowledge: i16,
    pub wielded: Seq<char>,
    pub damage_dice: Dice,
    pub armor: i16,
    pub inventory: Seq<ItemView>,
    pub misc_items_slots: u8,
    pub is_armed: bool,
    pub is_armored: bool,
    pub frequency: i16,
    pub wanders: bool,
    pub aggressive: bool,
}

impl View for Mobile {
    type V = MobileView;

    open(crate) spec fn view(&self) -> MobileView {
        MobileView {
            id: self.id,
            description: self.description@,
            name: self.name@,
            name_with_article: self.name_with_article@,
            arrive_prefix: self.arrive_prefix@,
            leave_prefix: self.leave_prefix@,
            strength: self.strength,
            dexterity: self.dexterity,
            constitution: self.constitution,
            intelligence: self.intelligence,
            wisdom: self.wisdom,
            charisma: self.charisma,
            luck: self.luck,
            xp: self.xp,
            damage: self.damage,
            max_damage: self.max_damage,
            actions_per_tick: self.actions_per_tick,
            actions_used: self.actions_used,
            combat: self.combat,
            steal: self.steal,
            perception: self.perception,
            leatherwork: self.leatherwork,
            woodcraft: self.woodcraft,
            knowledge: self.knowledge,
            wielded: self.wielded@,
            damage_dice: self.damage_dice,
            armor: self.armor,
            inventory: items_view(self.inventory@),
            misc_items_slots: self.misc_items_slots,
            is_armed: self.is_armed,
            is_armored: self.is_armored,
            frequency: self.frequency,
            wanders: self.wanders,
            aggressive: self.aggressive,
        }
    }
}

/// The modifier that an attribute gives to a roll: one point for every two
/// of the attribute, from -5 at 1 and below to +10 at 30 and above.
pub open spec fn modifier(attribute: int) -> int {
    if attribute <= 1 {
        -5
    } else if attribute >= 30 {
        10
    } else {
        attribute / 2 - 5
    }
}

/// The value of an opposed roll: five times the attribute's modifier plus the
/// skill rank, plus luck, plus the face shown by a hundred-sided die.
pub open spec fn skill_total(attribute: int, skill: int, luck: int, face: int) -> int {
    5 * (modifier(attribute) + skill) + luck + face
}

/// Whether the opposed rolls for an attribute, a skill and a luck fit the
/// machine integer whatever the die shows.
pub open spec fn roll_fits(attribute: int, skill: int, luck: int) -> bool {
    &&& i16::MIN <= skill_total(attribute, skill, luck, 1)
    &&& skill_total(attribute, skill, luck, 100) <= i16::MAX
}

/// The damage that gets through armor: the part of the roll above the armor
/// value, and nothing when the roll does not exceed it.
pub open spec fn damage_through(roll: int, armor: int) -> int {
    if roll > armor {
        roll - armor
    } else {
        0
    }
}

/// The armor value after a hit: one less after a hit that got through, but
/// never below zero; unchanged after a hit that did not.
pub open spec fn armor_after(roll: int, armor: int) -> int {
    if roll > armor && armor > 0 {
        armor - 1
    } else {
        armor
    }
}

impl MobileView {
    /// Cumulative damage strictly above the hit points: the mobile is dead.
    pub open spec fn dead(self) -> bool {
        self.damage > self.max_damage
    }

    /// The mobile after a damage roll of `roll` against it.
    pub open spec fn hit(self, roll: int) -> MobileView {
        MobileView {
            damage: (self.damage + damage_through(roll, self.armor as int)) as i16,
            armor: armor_after(roll, self.armor as int) as i16,
            ..self
        }
    }

    /// A damage roll of `roll` can be applied within the machine integers.
    pub open spec fn can_be_hit(self, roll: int) -> bool {
        &&& damage_through(roll, self.armor as int) <= i16::MAX
        &&& self.damage + damage_through(roll, self.armor as int) <= i16::MAX
    }

    /// The mobile after `roll` has been applied `times` times over.
    pub open spec fn hit_repeatedly(self, roll: int, times: nat) -> MobileView
        decreases times,
    {
        if times == 0 {
            self
        } else {
            self.hit(roll).hit_repeatedly(roll, (times - 1) as nat)
        }
    }

    /// The price in experience of one more rank in a skill of rank `skill`:
    /// one more than the rank, or nothing when the mobile cannot pay it.
    pub open spec fn xp_cost(self, skill: int) -> int {
        if self.xp >= skill + 1 {
            skill + 1
        } else {
            0
        }
    }

    /// Whether the opposed rolls for this attribute and skill fit the machine
    /// integer whatever the die shows.
    pub open spec fn can_roll(self, attribute: int, skill: int) -> bool {
        roll_fits(attribute, skill, self.luck as int)
    }

    /// The mobile with `amount` points of damage taken away.
    pub open spec fn healed(self, amount: int) -> MobileView {
        MobileView { damage: (self.damage - amount) as i16, ..self }
    }

    /// The mobile at the start of a tick: its actions are fresh, and when it
    /// is hurt and the die shows no more than its constitution, one point of
    /// damage has gone.
    pub open spec fn rested(self, face: int) -> MobileView {
        MobileView {
            actions_used: 0,
            damage: if self.damage > 0 && face <= self.constitution {
                (self.damage - 1) as i16
            } else {
                self.damage
            },
            ..self
        }
    }

    /// The mobile with its bare hands as its weapon.
    pub open spec fn unwielded(self) -> MobileView {
        MobileView { wielded: "fist"@, damage_dice: Dice { number: 1, die: 2 }, ..self }
    }

    /// Whether one more item of this kind can be carried.
    pub open spec fn has_room_for(self, item: ItemView) -> bool {
        match item.category_code {
            ItemCategoryCode::Misc => self.misc_items_slots > 0,
            ItemCategoryCode::Weapon => !self.is_armed,
            ItemCategoryCode::Armor => !self.is_armored,
        }
    }

    /// The mobile after the item's own effect of being taken: its experience,
    /// its luck, and for a weapon the name wielded and the damage dice.
    pub open spec fn after_got(self, item: ItemView, take_xp: bool) -> MobileView {
        let m = MobileView { xp: (self.xp + item.xp_granted(take_xp)) as i16, ..self };
        match item.weapon_dice() {
            Some(dice) => MobileView { wielded: item.name, damage_dice: dice, ..m },
            None => MobileView { luck: (m.luck + item.luck_bonus()) as i16, ..m },
        }
    }

    /// The mobile after the item's own effect of being let go: its luck.
    pub open spec fn after_dropped(self, item: ItemView) -> MobileView {
        MobileView { luck: (self.luck - item.luck_bonus()) as i16, ..self }
    }

    /// Taking the item stays within the machine integers.
    pub open spec fn can_add(self, item: ItemView, take_xp: bool) -> bool {
        &&& i16::MIN <= self.xp + item.xp_granted(take_xp) <= i16::MAX
        &&& i16::MIN <= self.luck + item.luck_bonus() <= i16::MAX
        &&& item.category_code == ItemCategoryCode::Misc ==> self.misc_items_slots > 0
    }

    /// The mobile carrying one more item, at the end of its inventory.
    pub open spec fn with_item(self, item: ItemView, take_xp: bool) -> MobileView {
        let m = self.after_got(item, take_xp);
        let kept = item.taken(take_xp);
        let m = match item.category_code {
            ItemCategoryCode::Misc => MobileView {
                misc_items_slots: (m.misc_items_slots - 1) as u8,
                ..m
            },
            ItemCategoryCode::Weapon => MobileView { is_armed: true, ..m },
            ItemCategoryCode::Armor => MobileView {
                is_armored: true,
                armor: item.armor_value,
                ..m
            },
        };
        MobileView { inventory: m.inventory.push(kept), ..m }
    }

    /// Letting go of the item at `pos` stays within the machine integers.
    pub open spec fn can_release(self, pos: int) -> bool {
        0 <= pos < self.inventory.len() ==> {
            let item = self.inventory[pos];
            &&& i16::MIN <= self.luck - item.luck_bonus() <= i16::MAX
            &&& item.category_code == ItemCategoryCode::Misc ==> self.misc_items_slots < u8::MAX
        }
    }

    /// The item at `pos` as it leaves the inventory: armor takes the
    /// protection that is left of it along.
    pub open spec fn released_item(self, pos: int) -> ItemView {
        let item = self.inventory[pos];
        if item.category_code == ItemCategoryCode::Armor {
            ItemView { armor_value: self.armor, ..item }
        } else {
            item
        }
    }

    /// The mobile without the item at `pos`.
    pub open spec fn without_item(self, pos: int) -> MobileView {
        let item = self.inventory[pos];
        let m = MobileView { inventory: self.inventory.remove(pos), ..self }.after_dropped(item);
        match item.category_code {
            ItemCategoryCode::Misc => MobileView {
                misc_items_slots: (m.misc_items_slots + 1) as u8,
                ..m
            },
            ItemCategoryCode::Weapon => MobileView { is_armed: false, ..m }.unwielded(),
            ItemCategoryCode::Armor => MobileView { armor: 0, is_armored: false, ..m },
        }
    }

    /// The position of the first carried item whose lower-cased name holds
    /// `key`, among the first `upto` items; `None` when there is none.
    pub open spec fn find_item(self, key: Seq<char>, upto: int) -> Option<int> {
        find_named(self.inventory, key, upto)
    }

    /// Every carried item can be let go in turn, first to last, within the
    /// machine integers.
    pub open spec fn can_strip(self) -> bool
        decreases self.inventory.len(),
    {
        self.inventory.len() > 0 ==> self.can_release(0) && self.without_item(0).can_strip()
    }

    /// The mobile after it has let go of every item in turn, first to last.
    pub open spec fn stripped(self) -> MobileView
        decreases self.inventory.len(),
    {
        if self.inventory.len() > 0 {
            self.without_item(0).stripped()
        } else {
            self
        }
    }

    /// The items that the mobile lets go of in turn, first to last, each as
    /// it leaves.
    pub open spec fn loot(self) -> Seq<ItemView>
        decreases self.inventory.len(),
    {
        if self.inventory.len() > 0 {
            seq![self.released_item(0)] + self.without_item(0).loot()
        } else {
            Seq::empty()
        }
    }

    /// The mobile with one more action used.
    pub open spec fn acted(self) -> MobileView {
        MobileView { actions_used: (self.actions_used + 1) as i16, ..self }
    }

    /// Whether the mobile has an action left in this tick.
    pub open spec fn has_action(self) -> bool {
        self.actions_used < self.actions_per_tick
    }

    /// `other` is this mobile but for its wounds and the actions it has used.
    pub open spec fn same_but_wounds(self, other: MobileView) -> bool {
        other == (MobileView {
            damage: other.damage,
            armor: other.armor,
            actions_used: other.actions_used,
            ..self
        })
    }

    /// Whether a round of combat against `foe` stays within the machine
    /// integers whatever the dice show: the mobile can use an action, roll
    /// for combat and throw its damage dice, take the most that the dice of
    /// `foe` can give, and leave everything it carries to its corpse.
    pub open spec fn fit_to_fight(self, foe: MobileView) -> bool {
        &&& self.actions_used < i16::MAX
        &&& self.can_roll(self.strength as int, self.combat as int)
        &&& self.damage_dice.throwable()
        &&& foe.damage_dice.throwable() ==> self.can_be_hit(foe.damage_dice.most())
        &&& self.can_strip()
    }

    /// Whether the mobile acts of its own accord.
    pub open spec fn active(self) -> bool {
        self.wanders || self.aggressive
    }

    /// The mobile one rank better at a skill that stood at rank `skill`, and
    /// poorer by the price of that rank; the skill itself is raised by the
    /// caller's own field.
    pub open spec fn paid(self, skill: int) -> MobileView {
        MobileView { xp: (self.xp - self.xp_cost(skill)) as i16, ..self }
    }

    /// `total` is a value that an opposed roll for this attribute and skill
    /// can take: the skill total for some face of a hundred-sided die.
    pub open spec fn may_roll(self, attribute: int, skill: int, total: int) -> bool {
        exists|face: int|
            1 <= face <= 100 && total == #[trigger] skill_total(
                attribute,
                skill,
                self.luck as int,
                face,
            )
    }

    /// The better of the two crafting skills.
    pub open spec fn best_craft(self) -> int {
        if self.leatherwork >= self.woodcraft {
            self.leatherwork as int
        } else {
            self.woodcraft as int
        }
    }

    /// Every carried item can be let go within the machine integers.
    pub open spec fn can_release_any(self) -> bool {
        forall|pos: int| 0 <= pos < self.inventory.len() ==> self.can_release(pos)
    }

    /// A mobile called `name` as it is first made: average in everything,
    /// bare-handed and carrying nothing.
    pub open spec fn blank(id: u128, name: Seq<char>) -> MobileView {
        MobileView {
            id,
            description: "You see "@ + "a"@ + " "@ + name + "."@,
            name,
            name_with_article: "a"@ + " "@ + name,
            arrive_prefix: "a"@ + " "@ + name + " arrives"@,
            leave_prefix: "a"@ + " "@ + name + " leaves"@,
            strength: 10,
            dexterity: 10,
            constitution: 10,
            intelligence: 10,
            wisdom: 10,
            charisma: 10,
            luck: 0,
            xp: 0,
            damage: 0,
            max_damage: 10,
            actions_per_tick: 1,
            actions_used: 0,
            combat: 0,
            steal: 0,
            perception: 0,
            leatherwork: 0,
            woodcraft: 0,
            knowledge: 0,
            wielded: "fist"@,
            damage_dice: Dice { number: 1, die: 2 },
            armor: 0,
            inventory: Seq::empty(),
            misc_items_slots: 10,
            is_armed: false,
            is_armored: false,
            frequency: 10000,
            wanders: false,
            aggressive: false,
        }
    }

    /// A player's character called `name` with the six attributes as rolled.
    /// Its hit points are its constitution.
    pub open spec fn character(
        id: u128,
        name: Seq<char>,
        strength: i16,
        dexterity: i16,
        constitution: i16,
        intelligence: i16,
        wisdom: i16,
        charisma: i16,
    ) -> MobileView {
        MobileView {
            name_with_article: name,
            description: name + " is here."@,
            arrive_prefix: name + " arrives"@,
            leave_prefix: name + " leaves"@,
            strength,
            dexterity,
            constitution,
            max_damage: constitution,
            intelligence,
            wisdom,
            charisma,
            ..MobileView::blank(id, name)
        }
    }

    /// A small woodland creature before it is given its trinket, with what
    /// the four-sided dice showed.
    pub open spec fn bare_woodland_creature(
        id: u128,
        strength: i16,
        hit_points: i16,
        intelligence: i16,
        charisma: i16,
        luck: i16,
        perception_roll: i16,
    ) -> MobileView {
        MobileView {
            description: "A small woodland creature plays happily in the forest."@,
            arrive_prefix: "A woodland creature scurries in"@,
            leave_prefix: "A woodland creature scurries away"@,
            strength,
            dexterity: 18,
            constitution: 18,
            max_damage: hit_points,
            intelligence,
            wisdom: 1,
            charisma,
            luck,
            perception: (10 + perception_roll) as i16,
            wielded: "bite"@,
            damage_dice: Dice { number: 1, die: 2 },
            is_armed: true,
            frequency: 50,
            ..MobileView::blank(id, "woodland creature"@)
        }
    }

    /// The mobile carrying `item` as well, if there is one, without having
    /// had its experience.
    pub open spec fn given(self, item: Option<ItemView>) -> MobileView {
        match item {
            Some(i) => self.with_item(i, false),
            None => self,
        }
    }

    /// A rodent.
    pub open spec fn rodent(id: u128) -> MobileView {
        MobileView {
            description: "A small rodent watches you keenly."@,
            arrive_prefix: "A small rodent scurries in"@,
            leave_prefix: "A small rodent scurries away"@,
            strength: 1,
            dexterity: 18,
            constitution: 18,
            max_damage: 3,
            intelligence: 2,
            wisdom: 1,
            charisma: 3,
            perception: 10,
            wielded: "bite"@,
            damage_dice: Dice { number: 1, die: 1 },
            is_armed: true,
            frequency: 50,
            ..MobileView::blank(id, "rodent"@)
        }.with_item(ItemView::healthy_nuts_and_seeds(), false)
    }

    /// A rabbit.
    pub open spec fn rabbit(id: u128) -> MobileView {
        MobileView {
            description: "A rabbit watches you carefully."@,
            arrive_prefix: "A rabbit hops"@,
            leave_prefix: "A rabbit hops in from"@,
            strength: 1,
            dexterity: 18,
            constitution: 3,
            max_damage: 3,
            intelligence: 2,
            wisdom: 1,
            charisma: 3,
            luck: 1,
            perception: 10,
            wielded: "bite"@,
            damage_dice: Dice { number: 1, die: 1 },
            is_armed: true,
            frequency: 50,
            ..MobileView::blank(id, "rabbit"@)
        }.with_item(ItemView::rabbit_foot(), false)
    }

    /// A beggar.
    pub open spec fn beggar(id: u128) -> MobileView {
        MobileView {
            description: "A beggar is asking for alms."@,
            luck: -10i16,
            perception: 1,
            wielded: "fist"@,
            frequency: 50,
            ..MobileView::blank(id, "beggar"@)
        }.with_item(ItemView::green_penny(), false)
    }

    /// A goblin, with the minor treasure that a twenty-sided die gave it.
    pub open spec fn goblin(id: u128, treasure_roll: int) -> MobileView {
        MobileView {
            description: "A goblin is here, looking menacing."@,
            wisdom: 3,
            perception: 1,
            frequency: 100,
            wanders: true,
            aggressive: true,
            ..MobileView::blank(id, "goblin"@)
        }.with_item(ItemView::pointed_stick(), false).given(ItemView::minor_treasure(treasure_roll))
    }

    /// A head hunter.
    pub open spec fn head_hunter(id: u128) -> MobileView {
        MobileView {
            description: "A savage head hunter is looking for trophies."@,
            perception: 1,
            frequency: 100,
            wanders: true,
            aggressive: true,
            ..MobileView::blank(id, "head hunter"@)
        }.with_item(ItemView::stone_knife(), false).with_item(ItemView::shrunken_head(), false)
    }

    /// A foppish dandy.
    pub open spec fn foppish_dandy(id: u128) -> MobileView {
        MobileView {
            name_with_article: "a dandy"@,
            description: "A foppish dandy looks at you disdainfully."@,
            wisdom: 8,
            charisma: 13,
            frequency: 50,
            ..MobileView::blank(id, "foppish dandy"@)
        }.with_item(ItemView::sword(), false)
    }

    /// A lumberjack, made as a character is and then given strength and an axe.
    pub open spec fn lumber_jack(
        id: u128,
        dexterity: i16,
        constitution: i16,
        intelligence: i16,
        wisdom: i16,
        charisma: i16,
    ) -> MobileView {
        MobileView {
            name_with_article: "the "@ + "lumberjack"@,
            description: "A strong lumberjack is looking for a tall tree."@,
            arrive_prefix: "A lumberjack strides in from"@,
            leave_prefix: "A lumberjack strides away"@,
            strength: 16,
            wanders: true,
            ..MobileView::character(
                id,
                "lumberjack"@,
                16,
                dexterity,
                constitution,
                intelligence,
                wisdom,
                charisma,
            )
        }.with_item(ItemView::axe(), false)
    }

    /// Everything that can be learned of the mobile, as text.
    pub open spec fn complete_description(self) -> Seq<char> {
        self.description + "\n"@ + "str: "@ + decimal(self.strength as int) + ", dex: "@ + decimal(
            self.dexterity as int,
        ) + ", con: "@ + decimal(self.constitution as int) + ", int: "@ + decimal(
            self.intelligence as int,
        ) + ", wis: "@ + decimal(self.wisdom as int) + ", chr: "@ + decimal(self.charisma as int)
            + ", luck: "@ + decimal(self.luck as int) + ", xp: "@ + decimal(self.xp as int)
            + ", dmg: "@ + decimal(self.damage as int) + "/"@ + decimal(self.max_damage as int)
            + "\n"@ + "combat: "@ + decimal(self.combat as int) + "\n"@ + "steal: "@ + decimal(
            self.steal as int,
        ) + "\n"@ + "perception: "@ + decimal(self.perception as int) + "\n"@ + "leatherwork: "@
            + decimal(self.leatherwork as int) + "\n"@ + "woodcraft: "@ + decimal(
            self.woodcraft as int,
        ) + "\n"@ + "knowledge: "@ + decimal(self.knowledge as int) + "\n"@ + "misc. slots: "@
            + decimal(self.misc_items_slots as int) + "\n"@ + "armed: "@ + truth(self.is_armed)
            + "\n"@ + "armor protection: "@ + decimal(self.armor as int) + "\n"@
    }
}

/// The word for a truth value.
pub open spec fn truth(b: bool) -> Seq<char> {
    if b {
        "true"@
    } else {
        "false"@
    }
}

/// The position of the first of the items whose lower-cased name holds
/// `key`, among the first `upto` items; `None` when there is none.
pub open spec fn find_named(items: Seq<ItemView>, key: Seq<char>, upto: int) -> Option<int>
    decreases upto,
{
    if upto <= 0 {
        None
    } else {
        match find_named(items, key, upto - 1) {
            Some(i) => Some(i),
            None => if upto <= items.len() && occurs_in(lowered(items[upto - 1].name), key) {
                Some(upto - 1)
            } else {
                None
            },
        }
    }
}

/// An item that is found lies among the items looked at, and its
/// lower-cased name holds the key.
pub proof fn lemma_find_named_in_range(items: Seq<ItemView>, key: Seq<char>, upto: int)
    ensures
        match find_named(items, key, upto) {
            Some(i) => 0 <= i < upto && i < items.len() && occurs_in(lowered(items[i].name), key),
            None => true,
        },
    decreases upto,
{
    if upto > 0 {
        lemma_find_named_in_range(items, key, upto - 1);
    }
}

/// Once an item is found among the first `upto` items, it is the one found
/// among any more of them.
pub proof fn lemma_find_named_stable(items: Seq<ItemView>, key: Seq<char>, upto: int, more: int)
    requires
        find_named(items, key, upto) is Some,
        upto <= more,
    ensures
        find_named(items, key, more) == find_named(items, key, upto),
    decreases more - upto,
{
    if upto < more {
        lemma_find_named_stable(items, key, upto, more - 1);
    }
}

/// The names of the items, each followed by a line break.
pub open spec fn listing(items: Seq<ItemView>) -> Seq<char>
    decreases items.len(),
{
    if items.len() == 0 {
        Seq::empty()
    } else {
        listing(items.drop_last()) + items.last().name + "\n"@
    }
}

impl Mobile {
    /// The difficulty of a trivial task.
    pub fn trivial_task() -> (difficulty: i16)
        ensures
            difficulty == 25,
    {
        5 * 5
    }

    /// The difficulty of an easy task.
    pub fn easy_task() -> (difficulty: i16)
        ensures
            difficulty == 50,
    {
        5 * 10
    }

    /// The difficulty of a routine task.
    pub fn routine_task() -> (difficulty: i16)
        ensures
            difficulty == 75,
    {
        5 * 15
    }

    /// The difficulty of a task that takes skill.
    pub fn skilled_task() -> (difficulty: i16)
        ensures
            difficulty == 100,
    {
        5 * 20
    }

    /// The difficulty of a task that takes great skill.
    pub fn very_skilled_task() -> (difficulty: i16)
        ensures
            difficulty == 125,
    {
        5 * 25
    }

    /// The difficulty of a heroic task.
    pub fn heroic_task() -> (difficulty: i16)
        ensures
            difficulty == 150,
    {
        5 * 30
    }

    /// Applies a damage roll. What exceeds the armor value is added to the
    /// damage sustained and wears the armor down by one point; a roll that
    /// does not exceed it changes nothing. Returns the damage applied.
    pub fn do_damage(&mut self, damage: i16) -> (applied: i16)
        requires
            old(self)@.can_be_hit(damage as int),
        ensures
            final(self)@ == old(self)@.hit(damage as int),
            applied == damage_through(damage as int, old(self)@.armor as int),
    {
        let mut damage_applied: i16 = 0;
        if damage > self.armor {
            damage_applied = ((damage as i32) - (self.armor as i32)) as i16;
            if self.armor > 0 {
                self.armor -= 1;
            }
        }
        self.damage += damage_applied;
        damage_applied
    }

    /// The price in experience of one more rank in a skill of the given rank,
    /// or zero when the mobile cannot pay it.
    pub fn xp_cost(&self, skill_level: i16) -> (cost: i16)
        requires
            skill_level < i16::MAX,
        ensures
            cost == self@.xp_cost(skill_level as int),
    {
        let cost = skill_level + 1;
        if self.xp >= cost {
            return cost;
        }
        0
    }

    /// Spends experience on one more rank of combat. Returns whether the
    /// mobile could pay; if it could not, nothing has changed.
    pub fn practice_combat(&mut self) -> (improved: bool)
        requires
            old(self)@.combat < i16::MAX,
        ensures
            improved == (old(self)@.xp_cost(old(self)@.combat as int) > 0),
            improved ==> final(self)@ == (MobileView {
                combat: (old(self)@.combat + 1) as i16,
                ..old(self)@.paid(old(self)@.combat as int)
            }),
            !improved ==> final(self)@ == old(self)@,
    {
        let cost = self.xp_cost(self.combat);
        if cost > 0 {
            self.xp -= cost;
            self.combat += 1;
            return true;
        }
        false
    }

    /// Spends experience on one more rank of perception. Returns whether the
    /// mobile could pay; if it could not, nothing has changed.
    pub fn practice_perception(&mut self) -> (improved: bool)
        requires
            old(self)@.perception < i16::MAX,
        ensures
            improved == (old(self)@.xp_cost(old(self)@.perception as int) > 0),
            improved ==> final(self)@ == (MobileView {
                perception: (old(self)@.perception + 1) as i16,
                ..old(self)@.paid(old(self)@.perception as int)
            }),
            !improved ==> final(self)@ == old(self)@,
    {
        let cost = self.xp_cost(self.perception);
        if cost > 0 {
            self.xp -= cost;
            self.perception += 1;
            return true;
        }
        false
    }

    /// Spends experience on one more rank of woodcraft. Returns whether the
    /// mobile could pay; if it could not, nothing has changed.
    pub fn practice_woodcraft(&mut self) -> (improved: bool)
        requires
            old(self)@.woodcraft < i16::MAX,
        ensures
            improved == (old(self)@.xp_cost(old(self)@.woodcraft as int) > 0),
            improved ==> final(self)@ == (MobileView {
                woodcraft: (old(self)@.woodcraft + 1) as i16,
                ..old(self)@.paid(old(self)@.woodcraft as int)
            }),
            !improved ==> final(self)@ == old(self)@,
    {
        let cost = self.xp_cost(self.woodcraft);
        if cost > 0 {
            self.xp -= cost;
            self.woodcraft += 1;
            return true;
        }
        false
    }

    /// Spends experience on one more rank of leatherwork. Returns whether the
    /// mobile could pay; if it could not, nothing has changed.
    pub fn practice_leatherwork(&mut self) -> (improved: bool)
        requires
            old(self)@.leatherwork < i16::MAX,
        ensures
            improved == (old(self)@.xp_cost(old(self)@.leatherwork as int) > 0),
            improved ==> final(self)@ == (MobileView {
                leatherwork: (old(self)@.leatherwork + 1) as i16,
                ..old(self)@.paid(old(self)@.leatherwork as int)
            }),
            !improved ==> final(self)@ == old(self)@,
    {
        let cost = self.xp_cost(self.leatherwork);
        if cost > 0 {
            self.xp -= cost;
            self.leatherwork += 1;
            return true;
        }
        false
    }

    /// Spends experience on one more rank of knowledge. Returns whether the
    /// mobile could pay; if it could not, nothing has changed.
    pub fn practice_knowledge(&mut self) -> (improved: bool)
        requires
            old(self)@.knowledge < i16::MAX,
        ensures
            improved == (old(self)@.xp_cost(old(self)@.knowledge as int) > 0),
            improved ==> final(self)@ == (MobileView {
                knowledge: (old(self)@.knowledge + 1) as i16,
                ..old(self)@.paid(old(self)@.knowledge as int)
            }),
            !improved ==> final(self)@ == old(self)@,
    {
        let cost = self.xp_cost(self.knowledge);
        if cost > 0 {
            self.xp -= cost;
            self.knowledge += 1;
            return true;
        }
        false
    }

    /// Spends experience on one more rank of stealing. Returns whether the
    /// mobile could pay; if it could not, nothing has changed.
    pub fn practice_steal(&mut self) -> (improved: bool)
        requires
            old(self)@.steal < i16::MAX,
        ensures
            improved == (old(self)@.xp_cost(old(self)@.steal as int) > 0),
            improved ==> final(self)@ == (MobileView {
                steal: (old(self)@.steal + 1) as i16,
                ..old(self)@.paid(old(self)@.steal as int)
            }),
            !improved ==> final(self)@ == old(self)@,
    {
        let cost = self.xp_cost(self.steal);
        if cost > 0 {
            self.xp -= cost;
            self.steal += 1;
            return true;
        }
        false
    }

    /// Puts the weapon away: the mobile fights with its fists.
    pub fn unwield(&mut self)
        ensures
            final(self)@ == old(self)@.unwielded(),
    {
        self.wielded = text("fist");
        self.damage_dice = Dice { number: 1, die: 2 };
    }

    /// The names of the carried items, one to a line.
    pub fn list_inventory(&self) -> (result: String)
        ensures
            result@ == listing(self@.inventory),
    {
        let mut result = String::new();
        let mut i: usize = 0;
        while i < self.inventory.len()
            invariant
                i <= self.inventory.len(),
                result@ == listing(self@.inventory.take(i as int)),
            decreases self.inventory.len() - i,
        {
            let name = self.inventory[i].get_name();
            proof {
                let next = self@.inventory.take(i + 1);
                assert(next.drop_last() =~= self@.inventory.take(i as int));
                assert(next.last() == self.inventory[i as int]@);
            }
            result.append(name.as_str());
            result.append("\n");
            i += 1;
        }
        proof {
            assert(self@.inventory.take(i as int) =~= self@.inventory);
        }
        result
    }

    /// The modifier that an attribute gives to a roll.
    pub fn attribute_modifier(attribute: i16) -> (result: i16)
        ensures
            result == modifier(attribute as int),
            -5 <= result <= 10,
    {
        if attribute <= 1 {
            return -5;
        }
        if attribute <= 3 {
            return -4;
        }
        if attribute <= 5 {
            return -3;
        }
        if attribute <= 7 {
            return -2;
        }
        if attribute <= 9 {
            return -1;
        }
        if attribute <= 11 {
            return 0;
        }
        if attribute <= 13 {
            return 1;
        }
        if attribute <= 15 {
            return 2;
        }
        if attribute <= 17 {
            return 3;
        }
        if attribute <= 19 {
            return 4;
        }
        if attribute <= 21 {
            return 5;
        }
        if attribute <= 23 {
            return 6;
        }
        if attribute <= 25 {
            return 7;
        }
        if attribute <= 27 {
            return 8;
        }
        if attribute <= 29 {
            return 9;
        }
        10
    }

    /// Decides whether the opposed rolls for an attribute, a skill and a luck
    /// fit the machine integer whatever the die shows.
    pub fn roll_in_range(attribute: i16, skill: i16, luck: i16) -> (ok: bool)
        ensures
            ok == roll_fits(attribute as int, skill as int, luck as int),
    {
        let base: i64 = 5 * (Mobile::attribute_modifier(attribute) as i64 + skill as i64)
            + luck as i64;
        -32768 <= base + 1 && base + 100 <= 32767
    }

    /// Decides whether the opposed rolls for an attribute and a skill fit the
    /// machine integer whatever the die shows.
    pub fn can_roll_skill(&self, attribute: i16, skill: i16) -> (ok: bool)
        ensures
            ok == self@.can_roll(attribute as int, skill as int),
    {
        Mobile::roll_in_range(attribute, skill, self.luck)
    }

    /// The value of an opposed roll when the hundred-sided die shows `face`.
    pub fn skill_check(&self, attribute: i16, skill: i16, face: i16) -> (total: i16)
        requires
            i16::MIN <= skill_total(attribute as int, skill as int, self@.luck as int, face as int)
                <= i16::MAX,
        ensures
            total == skill_total(attribute as int, skill as int, self@.luck as int, face as int),
    {
        let total: i64 = 5 * (Mobile::attribute_modifier(attribute) as i64 + skill as i64)
            + self.luck as i64 + face as i64;
        total as i16
    }

    /// An opposed roll for an attribute and a skill: the skill total with
    /// the throw of a hundred-sided die.
    pub fn roll_skill(&self, attribute: i16, skill: i16) -> (total: i16)
        requires
            self@.can_roll(attribute as int, skill as int),
        ensures
            self@.may_roll(attribute as int, skill as int, total as int),
    {
        let die = Dice { number: 1, die: 100 };
        let face = die.roll();
        self.skill_check(attribute, skill, face)
    }

    /// An opposed roll of strength and combat.
    pub fn roll_combat(&self) -> (total: i16)
        requires
            self@.can_roll(self@.strength as int, self@.combat as int),
        ensures
            self@.may_roll(self@.strength as int, self@.combat as int, total as int),
    {
        self.roll_skill(self.strength, self.combat)
    }

    /// An opposed roll of dexterity and stealing.
    pub fn roll_steal(&self) -> (total: i16)
        requires
            self@.can_roll(self@.dexterity as int, self@.steal as int),
        ensures
            self@.may_roll(self@.dexterity as int, self@.steal as int, total as int),
    {
        self.roll_skill(self.dexterity, self.steal)
    }

    /// An opposed roll of intelligence and knowledge.
    pub fn roll_knowledge(&self) -> (total: i16)
        requires
            self@.can_roll(self@.intelligence as int, self@.knowledge as int),
        ensures
            self@.may_roll(self@.intelligence as int, self@.knowledge as int, total as int),
    {
        self.roll_skill(self.intelligence, self.knowledge)
    }

    /// An opposed roll of wisdom and perception.
    pub fn roll_perception(&self) -> (total: i16)
        requires
            self@.can_roll(self@.wisdom as int, self@.perception as int),
        ensures
            self@.may_roll(self@.wisdom as int, self@.perception as int, total as int),
    {
        self.roll_skill(self.wisdom, self.perception)
    }

    /// An opposed roll of intelligence and leatherwork.
    pub fn roll_leatherwork(&self) -> (total: i16)
        requires
            self@.can_roll(self@.intelligence as int, self@.leatherwork as int),
        ensures
            self@.may_roll(self@.intelligence as int, self@.leatherwork as int, total as int),
    {
        self.roll_skill(self.intelligence, self.leatherwork)
    }

    /// An opposed roll of intelligence and the better of leatherwork and
    /// woodcraft.
    pub fn roll_leatherwork_or_woodcraft(&self) -> (total: i16)
        requires
            self@.can_roll(self@.intelligence as int, self@.best_craft()),
        ensures
            self@.may_roll(self@.intelligence as int, self@.best_craft(), total as int),
    {
        let best = if self.leatherwork >= self.woodcraft {
            self.leatherwork
        } else {
            self.woodcraft
        };
        self.roll_skill(self.intelligence, best)
    }

    /// An opposed roll of intelligence and woodcraft.
    pub fn roll_woodcraft(&self) -> (total: i16)
        requires
            self@.can_roll(self@.intelligence as int, self@.woodcraft as int),
        ensures
            self@.may_roll(self@.intelligence as int, self@.woodcraft as int, total as int),
    {
        self.roll_skill(self.intelligence, self.woodcraft)
    }

    /// The identifier of the mobile.
    pub fn get_id(&self) -> (id: u128)
        ensures
            id == self@.id,
    {
        self.id
    }

    /// Uses one action of this tick. Returns whether the mobile still had
    /// one to use.
    pub fn use_action(&mut self) -> (allowed: bool)
        requires
            old(self)@.actions_used < i16::MAX,
        ensures
            final(self)@ == (MobileView {
                actions_used: (old(self)@.actions_used + 1) as i16,
                ..old(self)@
            }),
            allowed == (old(self)@.actions_used < old(self)@.actions_per_tick),
    {
        self.actions_used += 1;
        self.actions_used <= self.actions_per_tick
    }

    /// Starts a new tick for the mobile, `face` being what a hundred-sided
    /// die showed for its natural healing.
    pub fn rest(&mut self, face: i16)
        ensures
            final(self)@ == old(self)@.rested(face as int),
    {
        self.actions_used = 0;
        if self.damage > 0 && face <= self.constitution {
            self.damage -= 1;
        }
    }

    /// Starts a new tick for the mobile: its actions are fresh, and a hurt
    /// mobile heals one point when a hundred-sided die shows no more than its
    /// constitution.
    pub fn tick(&mut self)
        ensures
            exists|face: int| 1 <= face <= 100 && final(self)@ == #[trigger] old(self)@.rested(face),
    {
        let die = Dice { number: 1, die: 100 };
        let face = die.roll();
        self.rest(face);
        assert(self@ == old(self)@.rested(face as int));
    }

    /// The damage above which the mobile is dead.
    pub fn max_hit_points(&self) -> (points: i16)
        ensures
            points == self@.max_damage,
    {
        self.max_damage
    }

    /// Decides whether the item at `pos` can be let go within the machine
    /// integers.
    pub fn can_release_at(&self, pos: usize) -> (ok: bool)
        ensures
            ok == self@.can_release(pos as int),
    {
        if pos >= self.inventory.len() {
            return true;
        }
        let item = &self.inventory[pos];
        assert(self@.inventory[pos as int] == item@);
        let bonus: i16 = match item.type_code {
            ItemTypeCode::ShrunkenHead => -1,
            ItemTypeCode::DwarfBeard => -1,
            ItemTypeCode::RabbitFoot => 1,
            ItemTypeCode::GreenPenny => 1,
            _ => 0,
        };
        let luck: i32 = self.luck as i32 - bonus as i32;
        let slots_ok = match item.category_code {
            ItemCategoryCode::Misc => self.misc_items_slots < 255,
            _ => true,
        };
        -32768 <= luck && luck <= 32767 && slots_ok
    }

    /// Decides whether every carried item can be let go within the machine
    /// integers.
    pub fn can_release_all(&self) -> (ok: bool)
        ensures
            ok == self@.can_release_any(),
    {
        let mut i: usize = 0;
        while i < self.inventory.len()
            invariant
                i <= self.inventory.len(),
                forall|pos: int| 0 <= pos < i ==> self@.can_release(pos),
            decreases self.inventory.len() - i,
        {
            if !self.can_release_at(i) {
                return false;
            }
            i += 1;
        }
        true
    }

    /// Decides whether every carried item can be let go in turn within the
    /// machine integers.
    pub fn can_be_stripped(&self) -> (ok: bool)
        ensures
            ok == self@.can_strip(),
    {
        let mut luck: i16 = self.luck;
        let mut slots: u8 = self.misc_items_slots;
        let ghost mut cur: MobileView = self@;
        let mut i: usize = 0;
        while i < self.inventory.len()
            invariant
                i <= self.inventory.len(),
                cur.inventory == self@.inventory.skip(i as int),
                cur.luck == luck,
                cur.misc_items_slots == slots,
                cur.can_strip() == self@.can_strip(),
            decreases self.inventory.len() - i,
        {
            let item = &self.inventory[i];
            assert(cur.inventory[0] == item@);
            let bonus: i16 = match item.type_code {
                ItemTypeCode::ShrunkenHead => -1,
                ItemTypeCode::DwarfBeard => -1,
                ItemTypeCode::RabbitFoot => 1,
                ItemTypeCode::GreenPenny => 1,
                _ => 0,
            };
            let next: i32 = luck as i32 - bonus as i32;
            if next < -32768 || next > 32767 {
                return false;
            }
            match item.category_code {
                ItemCategoryCode::Misc => {
                    if slots == 255 {
                        return false;
                    }
                    slots += 1;
                },
                _ => {},
            }
            luck = next as i16;
            proof {
                assert(cur.can_release(0));
                assert(cur.without_item(0).inventory =~= self@.inventory.skip(i + 1));
                cur = cur.without_item(0);
            }
            i += 1;
        }
        true
    }

    /// Decides whether a damage roll can be applied within the machine
    /// integers.
    pub fn can_take_damage(&self, roll: i16) -> (ok: bool)
        ensures
            ok == self@.can_be_hit(roll as int),
    {
        let through: i32 = if roll > self.armor {
            roll as i32 - self.armor as i32
        } else {
            0
        };
        through <= 32767 && self.damage as i32 + through <= 32767
    }

    /// Decides whether a round of combat against `foe` stays within the
    /// machine integers whatever the dice show.
    pub fn can_fight(&self, foe: &Mobile) -> (ok: bool)
        ensures
            ok == self@.fit_to_fight(foe@),
    {
        if self.actions_used == i16::MAX {
            return false;
        }
        if !self.can_roll_skill(self.strength, self.combat) {
            return false;
        }
        if !self.damage_dice.is_throwable() {
            return false;
        }
        if foe.damage_dice.is_throwable() {
            let most: i16 = if foe.damage_dice.number > 0 {
                foe.damage_dice.number * foe.damage_dice.die
            } else {
                0
            };
            if !self.can_take_damage(most) {
                return false;
            }
        }
        self.can_be_stripped()
    }

    /// Takes a carried item chosen at random out of the inventory.
    pub fn fetch_random_item(&mut self) -> (item: Option<Box<Item>>)
        requires
            old(self)@.can_release_any(),
        ensures
            old(self)@.inventory.len() == 0 ==> item is None && final(self)@ == old(self)@,
            old(self)@.inventory.len() > 0 ==> exists|pos: int|
                0 <= pos < old(self)@.inventory.len() && maybe_item_view(item) == Some(
                    old(self)@.released_item(pos),
                ) && final(self)@ == #[trigger] old(self)@.without_item(pos),
    {
        if self.inventory.len() == 0 {
            return None;
        }
        let index = crate::dice::draw_word() % self.inventory.len();
        let item = self.fetch_item_by_position(index);
        assert(self@ == old(self)@.without_item(index as int));
        item
    }

    /// Takes the first carried item out of the inventory.
    pub fn fetch_first_item(&mut self) -> (item: Option<Box<Item>>)
        requires
            old(self)@.can_release(0),
        ensures
            old(self)@.inventory.len() == 0 ==> item is None && final(self)@ == old(self)@,
            old(self)@.inventory.len() > 0 ==> maybe_item_view(item) == Some(
                old(self)@.released_item(0),
            ) && final(self)@ == old(self)@.without_item(0),
    {
        self.fetch_item_by_position(0)
    }

    /// Takes the item at `pos` out of the inventory. Its luck goes with it; a
    /// miscellaneous item frees its slot, a weapon leaves the mobile
    /// bare-handed, and armor takes the protection that is left of it along.
    pub fn fetch_item_by_position(&mut self, pos: usize) -> (item: Option<Box<Item>>)
        requires
            old(self)@.can_release(pos as int),
        ensures
            pos >= old(self)@.inventory.len() ==> item is None && final(self)@ == old(self)@,
            pos < old(self)@.inventory.len() ==> maybe_item_view(item) == Some(
                old(self)@.released_item(pos as int),
            ) && final(self)@ == old(self)@.without_item(pos as int),
    {
        if pos >= self.inventory.len() {
            return None;
        }
        let mut item = self.inventory.remove(pos);
        proof {
            assert(items_view(self.inventory@) =~= old(self)@.inventory.remove(pos as int));
            assert(item@ == old(self)@.inventory[pos as int]);
        }
        let slot_code = item.category_code;
        item.drop_item(self);
        match slot_code {
            ItemCategoryCode::Misc => {
                self.misc_items_slots += 1;
            },
            ItemCategoryCode::Weapon => {
                self.is_armed = false;
                self.unwield();
            },
            ItemCategoryCode::Armor => {
                item.armor_value = self.armor;
                self.armor = 0;
                self.is_armored = false;
            },
        }
        Some(item)
    }

    /// The position of the first carried item whose lower-cased name holds
    /// `key`.
    pub fn find_item_by_name(&self, key: &String) -> (found: Option<usize>)
        ensures
            match found {
                Some(i) => self@.find_item(key@, self@.inventory.len() as int) == Some(i as int)
                    && i < self@.inventory.len(),
                None => self@.find_item(key@, self@.inventory.len() as int) is None,
            },
    {
        let mut i: usize = 0;
        while i < self.inventory.len()
            invariant
                i <= self.inventory.len(),
                self@.find_item(key@, i as int) is None,
            decreases self.inventory.len() - i,
        {
            let name = to_lower(self.inventory[i].name.as_str());
            assert(self@.inventory[i as int] == self.inventory[i as int]@);
            if contains_text(name.as_str(), key.as_str()) {
                assert(self@.find_item(key@, i + 1) == Some(i as int));
                proof {
                    self@.lemma_find_item_stable(key@, i + 1, self@.inventory.len() as int);
                }
                return Some(i);
            }
            i += 1;
        }
        None
    }

    /// Takes the first carried item whose lower-cased name holds `key` out of
    /// the inventory.
    pub fn fetch_item_by_name(&mut self, key: &String) -> (item: Option<Box<Item>>)
        requires
            match old(self)@.find_item(key@, old(self)@.inventory.len() as int) {
                Some(i) => old(self)@.can_release(i),
                None => true,
            },
        ensures
            match old(self)@.find_item(key@, old(self)@.inventory.len() as int) {
                Some(i) => maybe_item_view(item) == Some(old(self)@.released_item(i))
                    && final(self)@ == old(self)@.without_item(i),
                None => item is None && final(self)@ == old(self)@,
            },
    {
        match self.find_item_by_name(key) {
            Some(i) => self.fetch_item_by_position(i),
            None => None,
        }
    }

    /// Whether one more item of this kind can be carried.
    pub fn has_room_for_item(&mut self, item: &Box<Item>) -> (room: bool)
        ensures
            *final(self) == *old(self),
            room == old(self)@.has_room_for(item@),
    {
        match item.category_code {
            ItemCategoryCode::Misc => self.misc_items_slots > 0,
            ItemCategoryCode::Weapon => !self.is_armed,
            ItemCategoryCode::Armor => !self.is_armored,
        }
    }

    /// Decides whether the item can be taken within the machine integers.
    pub fn can_add_item(&self, item: &Box<Item>, take_xp: bool) -> (ok: bool)
        ensures
            ok == self@.can_add(item@, take_xp),
    {
        let granted: i32 = if take_xp && !item.xp_in_town_only {
            item.xp_value as i32
        } else {
            0
        };
        let bonus: i32 = match item.type_code {
            ItemTypeCode::ShrunkenHead => -1,
            ItemTypeCode::DwarfBeard => -1,
            ItemTypeCode::RabbitFoot => 1,
            ItemTypeCode::GreenPenny => 1,
            _ => 0,
        };
        let xp: i32 = self.xp as i32 + granted;
        let luck: i32 = self.luck as i32 + bonus;
        let slot_ok = match item.category_code {
            ItemCategoryCode::Misc => self.misc_items_slots > 0,
            _ => true,
        };
        -32768 <= xp && xp <= 32767 && -32768 <= luck && luck <= 32767 && slot_ok
    }

    /// Puts an item at the end of the inventory. The item has its own effect
    /// on the mobile; a miscellaneous item takes a slot, a weapon arms the
    /// mobile, and armor gives its protection.
    pub fn add_item(&mut self, item: Box<Item>, take_xp: bool)
        requires
            old(self)@.can_add(item@, take_xp),
        ensures
            final(self)@ == old(self)@.with_item(item@, take_xp),
    {
        let mut item = item;
        let slot_code = item.category_code;
        item.got_item(self, take_xp);
        match slot_code {
            ItemCategoryCode::Misc => {
                self.misc_items_slots -= 1;
            },
            ItemCategoryCode::Weapon => {
                self.is_armed = true;
            },
            ItemCategoryCode::Armor => {
                self.is_armored = true;
                self.armor = item.armor_value;
            },
        }
        let ghost before = self.inventory@;
        self.inventory.push(item);
        proof {
            assert(items_view(self.inventory@) =~= items_view(before).push(item@));
        }
    }

    /// Whether the mobile acts of its own accord.
    pub fn is_active(&self) -> (active: bool)
        ensures
            active == self@.active(),
    {
        self.wanders || self.aggressive
    }

    /// Eats the first carried item whose lower-cased name holds `key`, and
    /// says what happened. What cannot be eaten goes back to the end of the
    /// inventory.
    pub fn eat_item_by_name(&mut self, key: &String) -> (result: String)
        requires
            match old(self)@.find_item(key@, old(self)@.inventory.len() as int) {
                Some(i) => old(self)@.can_release(i) && old(self)@.damage - old(
                    self,
                )@.released_item(i).most_healing() >= i16::MIN,
                None => true,
            },
        ensures
            match old(self)@.find_item(key@, old(self)@.inventory.len() as int) {
                Some(i) => {
                    let item = old(self)@.released_item(i);
                    let rest = old(self)@.without_item(i);
                    if item.edible() {
                        &&& result@ == "You eat the "@ + item.name
                        &&& exists|roll: int|
                            2 <= roll <= 8 && final(self)@ == rest.healed(
                                #[trigger] item.healing(roll),
                            )
                    } else {
                        &&& result@ == "You cannot eat that!"@
                        &&& final(self)@ == rest.with_item(item, false)
                    }
                },
                None => result@ == "Eat what?"@ && final(self)@ == old(self)@,
            },
    {
        let item = self.fetch_item_by_name(key);
        match item {
            Some(mut item) => {
                let ghost rest = self@;
                let ghost held = item@;
                if item.eat(self) {
                    let name = item.get_name();
                    join("You eat the ", name.as_str())
                } else {
                    proof {
                        let roll = choose|roll: int|
                            2 <= roll <= 8 && self@ == rest.healed(#[trigger] held.healing(roll));
                        assert(held.healing(roll) == 0);
                        assert(self@ == rest);
                        old(self)@.lemma_find_item_in_range(
                            key@,
                            old(self)@.inventory.len() as int,
                        );
                    }
                    self.add_item(item, false);
                    text("You cannot eat that!")
                }
            },
            None => text("Eat what?"),
        }
    }

    /// A mobile called `name` with a fresh identifier: average in
    /// everything, bare-handed and carrying nothing.
    pub fn new(name: &String) -> (mobile: Box<Mobile>)
        ensures
            mobile@ == MobileView::blank(mobile@.id, name@),
    {
        let article = text("a");
        let with_article = join3(article.as_str(), " ", name.as_str());
        let description = join3("You see ", article.as_str(), " ").concat(name.as_str()).concat(
            ".",
        );
        proof {
            assert(items_view(Seq::<Box<Item>>::empty()) =~= Seq::<ItemView>::empty());
        }
        Box::new(
            Mobile {
                id: uid::new(),
                name: name.clone(),
                name_with_article: with_article.clone(),
                description: description,
                arrive_prefix: join(with_article.as_str(), " arrives"),
                leave_prefix: join(with_article.as_str(), " leaves"),
                strength: 10,
                dexterity: 10,
                constitution: 10,
                max_damage: 10,
                intelligence: 10,
                wisdom: 10,
                charisma: 10,
                luck: 0,
                xp: 0,
                combat: 0,
                steal: 0,
                perception: 0,
                leatherwork: 0,
                woodcraft: 0,
                knowledge: 0,
                damage: 0,
                actions_per_tick: 1,
                actions_used: 0,
                wielded: text("fist"),
                damage_dice: Dice { number: 1, die: 2 },
                inventory: Vec::new(),
                misc_items_slots: 10,
                is_armed: false,
                is_armored: false,
                frequency: 10000,
                armor: 0,
                wanders: false,
                aggressive: false,
            },
        )
    }

    /// A player's character called `name`: each of its six attributes is the
    /// throw of three six-sided dice, and its hit points are its constitution.
    pub fn new_character(name: &String) -> (character: Box<Mobile>)
        ensures
            character@ == MobileView::character(
                character@.id,
                name@,
                character@.strength,
                character@.dexterity,
                character@.constitution,
                character@.intelligence,
                character@.wisdom,
                character@.charisma,
            ),
            3 <= character@.strength <= 18,
            3 <= character@.dexterity <= 18,
            3 <= character@.constitution <= 18,
            3 <= character@.intelligence <= 18,
            3 <= character@.wisdom <= 18,
            3 <= character@.charisma <= 18,
    {
        let mut character = Mobile::new(name);
        let die = Dice { number: 3, die: 6 };
        character.name = name.clone();
        character.name_with_article = name.clone();
        character.description = join(name.as_str(), " is here.");
        character.arrive_prefix = join(name.as_str(), " arrives");
        character.leave_prefix = join(name.as_str(), " leaves");
        character.strength = die.roll();
        character.dexterity = die.roll();
        character.constitution = die.roll();
        character.max_damage = character.constitution;
        character.intelligence = die.roll();
        character.wisdom = die.roll();
        character.charisma = die.roll();
        character
    }

    /// A small woodland creature with the given faces of its four-sided dice
    /// and the given trinket, if any.
    pub fn small_woodland_creature_with(
        strength: i16,
        hit_points: i16,
        intelligence: i16,
        charisma: i16,
        luck: i16,
        perception_roll: i16,
        treasure: Option<Box<Item>>,
    ) -> (mobile: Box<Mobile>)
        requires
            1 <= luck <= 4,
            1 <= perception_roll <= 4,
            match treasure {
                Some(t) => t@.xp_value == 1 && t@.category_code == ItemCategoryCode::Misc,
                None => true,
            },
        ensures
            mobile@ == MobileView::bare_woodland_creature(
                mobile@.id,
                strength,
                hit_points,
                intelligence,
                charisma,
                luck,
                perception_roll,
            ).given(maybe_item_view(treasure)),
    {
        let mut mobile = Mobile::new(&text("woodland creature"));
        mobile.description = text("A small woodland creature plays happily in the forest.");
        mobile.arrive_prefix = text("A woodland creature scurries in");
        mobile.leave_prefix = text("A woodland creature scurries away");
        mobile.strength = strength;
        mobile.dexterity = 18;
        mobile.constitution = 18;
        mobile.max_damage = hit_points;
        mobile.intelligence = intelligence;
        mobile.wisdom = 1;
        mobile.charisma = charisma;
        mobile.luck = luck;
        mobile.perception = 10 + perception_roll;
        mobile.wielded = text("bite");
        mobile.damage_dice = Dice { number: 1, die: 2 };
        mobile.is_armed = true;
        mobile.frequency = 50;
        match treasure {
            Some(t) => {
                mobile.add_item(t, false);
            },
            None => {},
        }
        mobile
    }

    /// A small woodland creature: six of its numbers are throws of a
    /// four-sided die, and an eight-sided die decides its trinket.
    pub fn small_woodland_creature() -> (mobile: Box<Mobile>)
        ensures
            exists|luck: i16, perception_roll: i16, trinket_roll: int|
                1 <= luck <= 4 && 1 <= perception_roll <= 4 && 1 <= trinket_roll <= 8 && mobile@
                    == (#[trigger] MobileView::bare_woodland_creature(
                    mobile@.id,
                    mobile@.strength,
                    mobile@.max_damage,
                    mobile@.intelligence,
                    mobile@.charisma,
                    luck,
                    perception_roll,
                )).given(#[trigger] ItemView::woodland_trinket(trinket_roll)),
            1 <= mobile@.strength <= 4,
            1 <= mobile@.max_damage <= 4,
            1 <= mobile@.intelligence <= 4,
            1 <= mobile@.charisma <= 4,
    {
        let die = Dice { number: 1, die: 4 };
        let strength = die.roll();
        let hit_points = die.roll();
        let intelligence = die.roll();
        let charisma = die.roll();
        let luck = die.roll();
        let perception_roll = die.roll();
        let d8 = Dice { number: 1, die: 8 };
        let trinket_roll = d8.roll();
        let treasure = Item::woodland_trinket_for(trinket_roll);
        let mobile = Mobile::small_woodland_creature_with(
            strength,
            hit_points,
            intelligence,
            charisma,
            luck,
            perception_roll,
            treasure,
        );
        proof {
            let bare = MobileView::bare_woodland_creature(
                mobile@.id,
                strength,
                hit_points,
                intelligence,
                charisma,
                luck,
                perception_roll,
            );
            assert(mobile@ == bare.given(ItemView::woodland_trinket(trinket_roll as int)));
            assert(mobile@.strength == strength && mobile@.max_damage == hit_points
                && mobile@.intelligence == intelligence && mobile@.charisma == charisma);
        }
        mobile
    }

    /// A rodent.
    pub fn rodent() -> (mobile: Box<Mobile>)
        ensures
            mobile@ == MobileView::rodent(mobile@.id),
    {
        let mut mobile = Mobile::new(&text("rodent"));
        mobile.description = text("A small rodent watches you keenly.");
        mobile.arrive_prefix = text("A small rodent scurries in");
        mobile.leave_prefix = text("A small rodent scurries away");
        mobile.strength = 1;
        mobile.dexterity = 18;
        mobile.constitution = 18;
        mobile.max_damage = 3;
        mobile.intelligence = 2;
        mobile.wisdom = 1;
        mobile.charisma = 3;
        mobile.perception = 10;
        mobile.wielded = text("bite");
        mobile.damage_dice = Dice { number: 1, die: 1 };
        mobile.is_armed = true;
        mobile.frequency = 50;
        mobile.add_item(Item::healthy_nuts_and_seeds(), false);
        mobile
    }

    /// A rabbit.
    pub fn rabbit() -> (mobile: Box<Mobile>)
        ensures
            mobile@ == MobileView::rabbit(mobile@.id),
    {
        let mut mobile = Mobile::new(&text("rabbit"));
        mobile.description = text("A rabbit watches you carefully.");
        mobile.arrive_prefix = text("A rabbit hops");
        mobile.leave_prefix = text("A rabbit hops in from");
        mobile.strength = 1;
        mobile.dexterity = 18;
        mobile.constitution = 3;
        mobile.max_damage = 3;
        mobile.intelligence = 2;
        mobile.wisdom = 1;
        mobile.charisma = 3;
        mobile.luck = 1;
        mobile.perception = 10;
        mobile.wielded = text("bite");
        mobile.damage_dice = Dice { number: 1, die: 1 };
        mobile.is_armed = true;
        mobile.frequency = 50;
        mobile.add_item(Item::rabbit_foot(), false);
        mobile
    }

    /// A beggar.
    pub fn beggar() -> (mobile: Box<Mobile>)
        ensures
            mobile@ == MobileView::beggar(mobile@.id),
    {
        let mut mobile = Mobile::new(&text("beggar"));
        mobile.description = text("A beggar is asking for alms.");
        mobile.luck = -10;
        mobile.perception = 1;
        mobile.wielded = text("fist");
        mobile.frequency = 50;
        mobile.add_item(Item::green_penny(), false);
        mobile
    }

    /// A goblin with the given minor treasure, if any.
    pub fn goblin_with(treasure: Option<Box<Item>>) -> (mobile: Box<Mobile>)
        requires
            match treasure {
                Some(t) => t@.category_code == ItemCategoryCode::Misc,
                None => true,
            },
        ensures
            mobile@ == (MobileView {
                description: "A goblin is here, looking menacing."@,
                wisdom: 3,
                perception: 1,
                frequency: 100,
                wanders: true,
                aggressive: true,
                ..MobileView::blank(mobile@.id, "goblin"@)
            }).with_item(ItemView::pointed_stick(), false).given(maybe_item_view(treasure)),
    {
        let mut mobile = Mobile::new(&text("goblin"));
        mobile.description = text("A goblin is here, looking menacing.");
        mobile.wisdom = 3;
        mobile.perception = 1;
        mobile.frequency = 100;
        mobile.wanders = true;
        mobile.aggressive = true;
        let weapon = Item::pointed_stick();
        mobile.add_item(weapon, false);
        match treasure {
            Some(t) => {
                mobile.add_item(t, false);
            },
            None => {},
        }
        mobile
    }

    /// A goblin: a twenty-sided die decides its minor treasure.
    pub fn goblin() -> (mobile: Box<Mobile>)
        ensures
            exists|treasure_roll: int|
                1 <= treasure_roll <= 20 && mobile@ == #[trigger] MobileView::goblin(
                    mobile@.id,
                    treasure_roll,
                ),
    {
        let die = Dice { number: 1, die: 20 };
        let roll = die.roll();
        let treasure = Item::minor_treasure_for(roll);
        let mobile = Mobile::goblin_with(treasure);
        assert(mobile@ == MobileView::goblin(mobile@.id, roll as int));
        mobile
    }

    /// A head hunter.
    pub fn head_hunter() -> (mobile: Box<Mobile>)
        ensures
            mobile@ == MobileView::head_hunter(mobile@.id),
    {
        let mut mobile = Mobile::new(&text("head hunter"));
        mobile.description = text("A savage head hunter is looking for trophies.");
        mobile.perception = 1;
        mobile.frequency = 100;
        mobile.wanders = true;
        mobile.aggressive = true;
        mobile.add_item(Item::stone_knife(), false);
        mobile.add_item(Item::shrunken_head(), false);
        mobile
    }

    /// A foppish dandy.
    pub fn foppish_dandy() -> (mobile: Box<Mobile>)
        ensures
            mobile@ == MobileView::foppish_dandy(mobile@.id),
    {
        let mut mobile = Mobile::new(&text("foppish dandy"));
        mobile.name_with_article = text("a dandy");
        mobile.description = text("A foppish dandy looks at you disdainfully.");
        mobile.wisdom = 8;
        mobile.charisma = 13;
        mobile.frequency = 50;
        mobile.add_item(Item::sword(), false);
        mobile
    }

    /// A lumberjack: a character with all but its strength rolled, who
    /// wanders and carries an axe.
    pub fn lumber_jack() -> (mobile: Box<Mobile>)
        ensures
            mobile@ == MobileView::lumber_jack(
                mobile@.id,
                mobile@.dexterity,
                mobile@.constitution,
                mobile@.intelligence,
                mobile@.wisdom,
                mobile@.charisma,
            ),
            3 <= mobile@.dexterity <= 18,
            3 <= mobile@.constitution <= 18,
            3 <= mobile@.intelligence <= 18,
            3 <= mobile@.wisdom <= 18,
            3 <= mobile@.charisma <= 18,
    {
        let mut mobile = Mobile::new_character(&text("lumberjack"));
        mobile.name_with_article = join("the ", mobile.name.as_str());
        mobile.description = text("A strong lumberjack is looking for a tall tree.");
        mobile.arrive_prefix = text("A lumberjack strides in from");
        mobile.leave_prefix = text("A lumberjack strides away");
        mobile.strength = 16;
        mobile.wanders = true;
        let weapon = Item::axe();
        mobile.add_item(weapon, false);
        mobile
    }
}

impl MobileView {
    /// Whether everything carried can be let go does not depend on the
    /// wounds of the mobile nor on the actions it has used.
    pub proof fn lemma_strip_ignores_wounds(self, other: MobileView)
        requires
            self.same_but_wounds(other),
        ensures
            self.can_strip() == other.can_strip(),
        decreases self.inventory.len(),
    {
        if self.inventory.len() > 0 {
            assert(self.can_release(0) == other.can_release(0));
            if self.can_release(0) {
                let a = self.without_item(0);
                let b = other.without_item(0);
                assert(a.same_but_wounds(b));
                a.lemma_strip_ignores_wounds(b);
            }
        }
    }

    /// An item that is found lies in the inventory, among the items looked
    /// at, and its lower-cased name holds the key.
    pub proof fn lemma_find_item_in_range(self, key: Seq<char>, upto: int)
        ensures
            match self.find_item(key, upto) {
                Some(i) => 0 <= i < upto && i < self.inventory.len() && occurs_in(
                    lowered(self.inventory[i].name),
                    key,
                ),
                None => true,
            },
    {
        lemma_find_named_in_range(self.inventory, key, upto);
    }

    /// A damage roll that does not exceed the armor value changes neither the
    /// damage nor the armor, however often it is applied.
    pub proof fn lemma_blocked_hits_change_nothing(self, roll: int, times: nat)
        requires
            roll <= self.armor,
        ensures
            self.hit_repeatedly(roll, times) == self,
        decreases times,
    {
        if times > 0 {
            assert(self.hit(roll) == self);
            self.lemma_blocked_hits_change_nothing(roll, (times - 1) as nat);
        }
    }

    /// One hit takes at most one point of the armor value away, takes none
    /// away unless it got through, and never takes armor below zero.
    pub proof fn lemma_armor_erosion_bound(self, roll: int)
        ensures
            self.armor - 1 <= self.hit(roll).armor <= self.armor,
            roll <= self.armor ==> self.hit(roll).armor == self.armor,
            self.armor >= 0 ==> self.hit(roll).armor >= 0,
    {
    }

    /// After a hit the mobile is dead exactly when the damage it had, with
    /// what got through its armor, strictly exceeds its hit points.
    pub proof fn lemma_death_threshold(self, roll: int)
        requires
            self.can_be_hit(roll),
        ensures
            self.hit(roll).dead() <==> self.damage + damage_through(roll, self.armor as int)
                > self.max_damage,
            self.hit(roll).damage <= self.max_damage ==> !self.hit(roll).dead(),
    {
    }

    /// Once an item is found among the first `upto` items, it is the one
    /// found among any more of them.
    pub proof fn lemma_find_item_stable(self, key: Seq<char>, upto: int, more: int)
        requires
            self.find_item(key, upto) is Some,
            upto <= more,
        ensures
            self.find_item(key, more) == self.find_item(key, upto),
    {
        lemma_find_named_stable(self.inventory, key, upto, more);
    }
}

impl Object for Mobile {
    open(crate) spec fn description_text(&self) -> Seq<char> {
        self@.description
    }

    open(crate) spec fn name_text(&self) -> Seq<char> {
        self@.name
    }

    open(crate) spec fn complete_text(&self) -> Seq<char> {
        self@.complete_description()
    }

    fn complete_description(&self) -> (result: String) {
        let mut result = self.description();
        result.append("\n");
        result.append("str: ");
        result.append(decimal_text(self.strength as i128).as_str());
        result.append(", dex: ");
        result.append(decimal_text(self.dexterity as i128).as_str());
        result.append(", con: ");
        result.append(decimal_text(self.constitution as i128).as_str());
        result.append(", int: ");
        result.append(decimal_text(self.intelligence as i128).as_str());
        result.append(", wis: ");
        result.append(decimal_text(self.wisdom as i128).as_str());
        result.append(", chr: ");
        result.append(decimal_text(self.charisma as i128).as_str());
        result.append(", luck: ");
        result.append(decimal_text(self.luck as i128).as_str());
        result.append(", xp: ");
        result.append(decimal_text(self.xp as i128).as_str());
        result.append(", dmg: ");
        result.append(decimal_text(self.damage as i128).as_str());
        result.append("/");
        result.append(decimal_text(self.max_hit_points() as i128).as_str());
        result.append("\n");
        result.append("combat: ");
        result.append(decimal_text(self.combat as i128).as_str());
        result.append("\n");
        result.append("steal: ");
        result.append(decimal_text(self.steal as i128).as_str());
        result.append("\n");
        result.append("perception: ");
        result.append(decimal_text(self.perception as i128).as_str());
        result.append("\n");
        result.append("leatherwork: ");
        result.append(decimal_text(self.leatherwork as i128).as_str());
        result.append("\n");
        result.append("woodcraft: ");
        result.append(decimal_text(self.woodcraft as i128).as_str());
        result.append("\n");
        result.append("knowledge: ");
        result.append(decimal_text(self.knowledge as i128).as_str());
        result.append("\n");
        result.append("misc. slots: ");
        result.append(decimal_text(self.misc_items_slots as i128).as_str());
        result.append("\n");
        result.append("armed: ");
        result.append(if self.is_armed { "true" } else { "false" });
        result.append("\n");
        result.append("armor protection: ");
        result.append(decimal_text(self.armor as i128).as_str());
        result.append("\n");
        result
    }

    fn description(&self) -> (result: String) {
        self.description.clone()
    }

    fn get_name(&self) -> (result: String) {
        self.name.clone()
    }
}

} // verus!
