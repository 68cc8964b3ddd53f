use crate::dice::Dice;
use crate::mobile::Mobile;
use crate::object::Object;
use crate::text::{decimal, decimal_text, join, join3, text};
use vstd::prelude::*;

verus! {

#[derive(Copy, Clone, Debug, PartialEq, Eq, Structural)]
pub enum ItemTypeCode {
    UncutGemstone,
    UselessRock,
    HealthyNutsAndSeeds,
    MetalIngot,
    DwarfBeard,
    RabbitFoot,
    GreenPenny,
    ForestDebris,
    Corpse,
    Sword,
    Pick,
    Axe,
    PointedStick,
    Rawhide,
    LeatherArmor,
    ChainArmor,
    HideArmor,
    BoneJewelry,
    GoldBauble,
    ShrunkenHead,
    StoneKnife,
    HealingPotion,
}

#[derive(Copy, Clone, Debug, PartialEq, Eq, Structural)]
pub enum ItemCategoryCode {
    Misc,
    Weapon,
    Armor,
}

/// Something that can lie in a location or be carried by a mobile.
pub struct Item {
    pub description: String,
    pub name: String,
    pub effect: String,
    pub type_code: ItemTypeCode,
    pub category_code: ItemCategoryCode,
    /// Ticks left until the item decays.
    pub lifetime: u32,
    /// Experience granted for getting the item.
    pub xp_value: i16,
    /// Whether the experience is only had by handing the item over in a town.
    pub xp_in_town_only: bool,
    /// How common the item is: the target of a knowledge roll.
    pub frequency: i16,
    /// Protection given when worn as armor.
    pub armor_value: i16,
}

/// What an item is, with its texts as sequences of characters.
pub struct ItemView {
    pub description: Seq<char>,
    pub name: Seq<char>,
    pub effect: Seq<char>,
    pub type_code: ItemTypeCode,
    pub category_code: ItemCategoryCode,
    pub lifetime: u32,
    pub xp_value: i16,
    pub xp_in_town_only: bool,
    pub frequency: i16,
    pub armor_value: i16,
}

impl View for Item {
    type V = ItemView;

    open spec fn view(&self) -> ItemView {
        ItemView {
            description: self.description@,
            name: self.name@,
            effect: self.effect@,
            type_code: self.type_code,
            category_code: self.category_code,
            lifetime: self.lifetime,
            xp_value: self.xp_value,
            xp_in_town_only: self.xp_in_town_only,
            frequency: self.frequency,
            armor_value: self.armor_value,
        }
    }
}

/// The views of a sequence of items, in the same order.
pub open spec fn items_view(items: Seq<Box<Item>>) -> Seq<ItemView> {
    items.map_values(|i: Box<Item>| i@)
}

/// The view of an item that may be absent.
pub open spec fn maybe_item_view(item: Option<Box<Item>>) -> Option<ItemView> {
    match item {
        Some(i) => Some(i@),
        None => None,
    }
}

impl ItemView {
    /// The change of luck that carrying an item of this type brings.
    pub open spec fn luck_bonus(self) -> int {
        match self.type_code {
            ItemTypeCode::ShrunkenHead => -1,
            ItemTypeCode::DwarfBeard => -1,
            ItemTypeCode::RabbitFoot => 1,
            ItemTypeCode::GreenPenny => 1,
            _ => 0,
        }
    }

    /// The dice a mobile throws for damage while it wields an item of this
    /// type; `None` for what is no weapon.
    pub open spec fn weapon_dice(self) -> Option<Dice> {
        match self.type_code {
            ItemTypeCode::Sword => Some(Dice { number: 1, die: 8 }),
            ItemTypeCode::Pick => Some(Dice { number: 1, die: 6 }),
            ItemTypeCode::PointedStick => Some(Dice { number: 1, die: 3 }),
            ItemTypeCode::Axe => Some(Dice { number: 1, die: 8 }),
            ItemTypeCode::StoneKnife => Some(Dice { number: 1, die: 4 }),
            _ => None,
        }
    }

    /// Whether the item can be eaten or drunk.
    pub open spec fn edible(self) -> bool {
        self.type_code == ItemTypeCode::HealthyNutsAndSeeds || self.type_code
            == ItemTypeCode::HealingPotion
    }

    /// The experience a taker gets from the item when `take_xp` is asked for.
    pub open spec fn xp_granted(self, take_xp: bool) -> int {
        if take_xp && !self.xp_in_town_only {
            self.xp_value as int
        } else {
            0
        }
    }

    /// The item after a taker has had its experience.
    pub open spec fn taken(self, take_xp: bool) -> ItemView {
        if take_xp && !self.xp_in_town_only {
            ItemView { xp_value: 0, ..self }
        } else {
            self
        }
    }

    /// The item one tick older.
    pub open spec fn aged(self) -> ItemView {
        ItemView { lifetime: (self.lifetime - 1) as u32, ..self }
    }

    /// What every item starts from.
    pub open spec fn basic(type_code: ItemTypeCode, category_code: ItemCategoryCode) -> ItemView {
        ItemView {
            description: Seq::empty(),
            name: Seq::empty(),
            effect: Seq::empty(),
            type_code,
            category_code,
            lifetime: 100,
            xp_value: 0,
            xp_in_town_only: false,
            frequency: 50,
            armor_value: 0,
        }
    }

    /// A potion of healing.
    pub open spec fn healing_potion() -> ItemView {
        ItemView {
            description: "A bottle of swirling liquid has been discarded here."@,
            name: "potion"@,
            effect: "This is a potion of healing!"@,
            frequency: 100,
            xp_value: 1,
            ..ItemView::basic(ItemTypeCode::HealingPotion, ItemCategoryCode::Misc)
        }
    }

    /// An ingot of metal.
    pub open spec fn metal_ingot() -> ItemView {
        ItemView {
            description: "An ignot of metal shines brighly in the sun."@,
            name: "metal ingot"@,
            effect: "This can be made into many useful items."@,
            xp_value: 1,
            ..ItemView::basic(ItemTypeCode::MetalIngot, ItemCategoryCode::Misc)
        }
    }

    /// A piece of rawhide.
    pub open spec fn rawhide() -> ItemView {
        ItemView {
            description: "A bit of rawhide is here."@,
            name: "rawhide"@,
            effect: "This can be made into many useful items."@,
            ..ItemView::basic(ItemTypeCode::Rawhide, ItemCategoryCode::Misc)
        }
    }

    /// A suit of chainmail.
    pub open spec fn chainmail() -> ItemView {
        ItemView {
            description: "A gleaning suit of chainmail sits in a pile."@,
            name: "chainmail"@,
            effect: "Will protect you from harm!."@,
            xp_value: 2,
            lifetime: 1000,
            armor_value: 4,
            ..ItemView::basic(ItemTypeCode::ChainArmor, ItemCategoryCode::Armor)
        }
    }

    /// A suit of hide armor.
    pub open spec fn hide_armor() -> ItemView {
        ItemView {
            description: "A stinking suit of hide armor is here."@,
            name: "hide armor"@,
            effect: "Will protect you from harm!."@,
            xp_value: 1,
            armor_value: 2,
            ..ItemView::basic(ItemTypeCode::HideArmor, ItemCategoryCode::Armor)
        }
    }

    /// A suit of leather armor.
    pub open spec fn leather_armor() -> ItemView {
        ItemView {
            description: "A suit of leather armor is here."@,
            name: "leather armor"@,
            effect: "Will protect you from harm!."@,
            xp_value: 1,
            lifetime: 1000,
            armor_value: 3,
            ..ItemView::basic(ItemTypeCode::LeatherArmor, ItemCategoryCode::Armor)
        }
    }

    /// An axe.
    pub open spec fn axe() -> ItemView {
        ItemView {
            description: "A gleaming axe is here."@,
            name: "axe"@,
            effect: "A sharp axe dealing 1d8 damage."@,
            xp_value: 1,
            lifetime: 1000,
            ..ItemView::basic(ItemTypeCode::Axe, ItemCategoryCode::Weapon)
        }
    }

    /// A sword.
    pub open spec fn sword() -> ItemView {
        ItemView {
            description: "A sword is here."@,
            name: "sword"@,
            effect: "A sharp sword dealing 1d8 damage."@,
            xp_value: 1,
            lifetime: 1000,
            ..ItemView::basic(ItemTypeCode::Sword, ItemCategoryCode::Weapon)
        }
    }

    /// A pointed stick.
    pub open spec fn pointed_stick() -> ItemView {
        ItemView {
            description: "A pointed stick is here."@,
            name: "pointed stick"@,
            effect: "A pointed stick deals 1d3 damage."@,
            xp_value: 1,
            ..ItemView::basic(ItemTypeCode::PointedStick, ItemCategoryCode::Weapon)
        }
    }

    /// A pick axe.
    pub open spec fn pick() -> ItemView {
        ItemView {
            description: "A finely made pick axe."@,
            name: "pick axe"@,
            effect: "A pick axe deals 1d6 damage."@,
            xp_value: 1,
            lifetime: 1000,
            ..ItemView::basic(ItemTypeCode::Pick, ItemCategoryCode::Weapon)
        }
    }

    /// A stone knife.
    pub open spec fn stone_knife() -> ItemView {
        ItemView {
            description: "A finely made and sharp stone knife."@,
            name: "stone knife"@,
            effect: "A stone knife deals 1d4 damage."@,
            xp_value: 1,
            lifetime: 1000,
            ..ItemView::basic(ItemTypeCode::StoneKnife, ItemCategoryCode::Weapon)
        }
    }

    /// A rabbit's foot.
    pub open spec fn rabbit_foot() -> ItemView {
        ItemView {
            description: "A soft rabbits foot is here."@,
            name: "rabbit foot"@,
            effect: "A lucky rabbit foot! +1 to luck."@,
            frequency: 50,
            xp_value: 1,
            ..ItemView::basic(ItemTypeCode::RabbitFoot, ItemCategoryCode::Misc)
        }
    }

    /// A greenish penny.
    pub open spec fn green_penny() -> ItemView {
        ItemView {
            description: "A greenish penny is here."@,
            name: "greenish penny"@,
            effect: "A lucky penny! +1 to luck."@,
            frequency: 50,
            xp_value: 1,
            lifetime: 1000,
            ..ItemView::basic(ItemTypeCode::GreenPenny, ItemCategoryCode::Misc)
        }
    }

    /// A mix of nuts and seeds.
    pub open spec fn healthy_nuts_and_seeds() -> ItemView {
        ItemView {
            description: "You see a healthy mix of nuts & seeds."@,
            name: "healthy nuts & seeds"@,
            effect: "You should eat better! -1 to damage."@,
            frequency: 50,
            xp_value: 1,
            ..ItemView::basic(ItemTypeCode::HealthyNutsAndSeeds, ItemCategoryCode::Misc)
        }
    }

    /// The litter of a forest floor, which never decays in practice.
    pub open spec fn forest_debris() -> ItemView {
        ItemView {
            description: "Some twigs and leaves litter the forest floor."@,
            name: "leaves and twigs"@,
            effect: "Just forest dentritis."@,
            lifetime: u32::MAX,
            ..ItemView::basic(ItemTypeCode::ForestDebris, ItemCategoryCode::Misc)
        }
    }

    /// A piece of bone jewelry.
    pub open spec fn bone_jewelry() -> ItemView {
        ItemView {
            description: "Some primitive bone jewelry has been discarded here."@,
            name: "bone jewlery"@,
            effect: "This may be worth something in town."@,
            frequency: 50,
            xp_value: 5,
            lifetime: 1000,
            xp_in_town_only: true,
            ..ItemView::basic(ItemTypeCode::BoneJewelry, ItemCategoryCode::Misc)
        }
    }

    /// A golden bauble.
    pub open spec fn gold_bauble() -> ItemView {
        ItemView {
            description: "A golden bauble shines brightly in the sunlight."@,
            name: "golden bauble"@,
            effect: "This may be worth something in town."@,
            frequency: 50,
            xp_value: 5,
            lifetime: 1000,
            xp_in_town_only: true,
            ..ItemView::basic(ItemTypeCode::GoldBauble, ItemCategoryCode::Misc)
        }
    }

    /// A shrunken head.
    pub open spec fn shrunken_head() -> ItemView {
        ItemView {
            description: "A shrunken head discarded here fills you with misgivings."@,
            name: "shrunken head"@,
            effect: "This horrid curio might interst a strange collector in town."@,
            frequency: 50,
            xp_value: 5,
            xp_in_town_only: true,
            ..ItemView::basic(ItemTypeCode::ShrunkenHead, ItemCategoryCode::Misc)
        }
    }

    /// A dwarf's beard.
    pub open spec fn dwarf_beard() -> ItemView {
        ItemView {
            description: "A dwarf's beard is crumpled here, but the dwarf is missing!"@,
            name: "dwarf's beard"@,
            effect: "This horrid curio might interst a strange collector in town."@,
            frequency: 50,
            xp_value: 5,
            xp_in_town_only: true,
            ..ItemView::basic(ItemTypeCode::DwarfBeard, ItemCategoryCode::Misc)
        }
    }

    /// An uncut precious stone.
    pub open spec fn uncut_precious_stone() -> ItemView {
        ItemView {
            description: "A strangely colorful stone catches your eye."@,
            name: "colorful stone"@,
            effect: "This colorful rock is a precious gem, yet uncit. It will fetch a good price in town."@,
            frequency: 100,
            xp_value: 10,
            lifetime: 10000,
            xp_in_town_only: true,
            ..ItemView::basic(ItemTypeCode::UncutGemstone, ItemCategoryCode::Misc)
        }
    }

    /// A worthless rock that looks like a gem.
    pub open spec fn useless_rock() -> ItemView {
        ItemView {
            description: "A strangely colorful stone catches your eye."@,
            name: "colorful stone"@,
            effect: "This is a glinty bit of worthless rock."@,
            frequency: 100,
            xp_value: 0,
            lifetime: 10000,
            ..ItemView::basic(ItemTypeCode::UselessRock, ItemCategoryCode::Misc)
        }
    }

    /// The most damage that eating the item can take away.
    pub open spec fn most_healing(self) -> int {
        match self.type_code {
            ItemTypeCode::HealthyNutsAndSeeds => 1,
            ItemTypeCode::HealingPotion => 8,
            _ => 0,
        }
    }

    /// The damage that eating the item takes away, `potion_roll` being what
    /// two four-sided dice showed.
    pub open spec fn healing(self, potion_roll: int) -> int {
        match self.type_code {
            ItemTypeCode::HealthyNutsAndSeeds => 1,
            ItemTypeCode::HealingPotion => potion_roll,
            _ => 0,
        }
    }

    /// What is left of a mobile that was called `in_life`.
    pub open spec fn corpse(in_life: Seq<char>) -> ItemView {
        ItemView {
            description: "A dead "@ + in_life + " is here."@,
            name: in_life + " corpse"@,
            effect: "The clay left behind when the spirit is fled."@,
            frequency: 25,
            ..ItemView::basic(ItemTypeCode::Corpse, ItemCategoryCode::Misc)
        }
    }

    /// What a woodland creature carries when an eight-sided die shows `roll`.
    pub open spec fn woodland_trinket(roll: int) -> Option<ItemView> {
        if roll == 1 {
            Some(ItemView::rabbit_foot())
        } else if roll == 2 {
            Some(ItemView::healthy_nuts_and_seeds())
        } else {
            None
        }
    }

    /// The minor treasure found when a twenty-sided die shows `roll`.
    pub open spec fn minor_treasure(roll: int) -> Option<ItemView> {
        if 1 <= roll <= 2 {
            Some(ItemView::gold_bauble())
        } else if 3 <= roll <= 5 {
            Some(ItemView::bone_jewelry())
        } else if 6 <= roll <= 7 {
            Some(ItemView::shrunken_head())
        } else if 8 <= roll <= 9 {
            Some(ItemView::dwarf_beard())
        } else if roll == 10 {
            Some(ItemView::uncut_precious_stone())
        } else if roll == 11 {
            Some(ItemView::useless_rock())
        } else if roll == 12 {
            Some(ItemView::healing_potion())
        } else {
            None
        }
    }

    /// The full description: the effect, and for armor its protection.
    pub open spec fn complete_description(self) -> Seq<char> {
        if self.category_code == ItemCategoryCode::Armor {
            self.effect + " Protection is "@ + decimal(self.armor_value as int)
        } else {
            self.effect
        }
    }
}

impl Item {
    /// Lets `mobile` eat the item, `potion_roll` being what two four-sided
    /// dice showed. Nuts and seeds take one point of damage away and a
    /// healing potion takes the roll away; nothing else can be eaten.
    pub fn eat_with(&self, mobile: &mut Mobile, potion_roll: i16) -> (eaten: bool)
        requires
            old(mobile)@.damage - self@.healing(potion_roll as int) >= i16::MIN,
            old(mobile)@.damage - self@.healing(potion_roll as int) <= i16::MAX,
        ensures
            eaten == self@.edible(),
            final(mobile)@ == old(mobile)@.healed(self@.healing(potion_roll as int)),
    {
        match self.type_code {
            ItemTypeCode::HealthyNutsAndSeeds => {
                mobile.damage -= 1;
                true
            },
            ItemTypeCode::HealingPotion => {
                mobile.damage = ((mobile.damage as i32) - (potion_roll as i32)) as i16;
                true
            },
            _ => false,
        }
    }

    /// Lets `mobile` eat the item: a healing potion heals by the throw of two
    /// four-sided dice, nuts and seeds by one point. Returns whether the item
    /// could be eaten; if not, nothing has changed.
    pub fn eat(&mut self, mobile: &mut Mobile) -> (eaten: bool)
        requires
            old(mobile)@.damage - old(self)@.most_healing() >= i16::MIN,
        ensures
            *final(self) == *old(self),
            eaten == old(self)@.edible(),
            exists|roll: int|
                2 <= roll <= 8 && final(mobile)@ == old(mobile)@.healed(
                    #[trigger] old(self)@.healing(roll),
                ),
    {
        let mut roll: i16 = 2;
        if self.type_code == ItemTypeCode::HealingPotion {
            let die = Dice { number: 2, die: 4 };
            roll = die.roll();
        }
        let eaten = self.eat_with(mobile, roll);
        assert(2 <= roll <= 8 && mobile@ == old(mobile)@.healed(old(self)@.healing(roll as int)));
        eaten
    }

    /// The item's own effect on the mobile that takes it: experience, when it
    /// is asked for and the item gives it anywhere, which the item then has no
    /// more; luck; and for a weapon the name wielded and the damage dice.
    pub fn got_item(&mut self, mobile: &mut Mobile, take_xp: bool)
        requires
            i16::MIN <= old(mobile)@.xp + old(self)@.xp_granted(take_xp) <= i16::MAX,
            i16::MIN <= old(mobile)@.luck + old(self)@.luck_bonus() <= i16::MAX,
        ensures
            final(self)@ == old(self)@.taken(take_xp),
            final(mobile)@ == old(mobile)@.after_got(old(self)@, take_xp),
    {
        if take_xp && !self.xp_in_town_only {
            mobile.xp += self.xp_value;
            self.xp_value = 0;
        }
        match self.type_code {
            ItemTypeCode::ShrunkenHead => {
                mobile.luck -= 1;
            },
            ItemTypeCode::DwarfBeard => {
                mobile.luck -= 1;
            },
            ItemTypeCode::RabbitFoot => {
                mobile.luck += 1;
            },
            ItemTypeCode::GreenPenny => {
                mobile.luck += 1;
            },
            ItemTypeCode::Sword => {
                mobile.wielded = self.name.clone();
                mobile.damage_dice = Dice { number: 1, die: 8 };
            },
            ItemTypeCode::Pick => {
                mobile.wielded = self.name.clone();
                mobile.damage_dice = Dice { number: 1, die: 6 };
            },
            ItemTypeCode::PointedStick => {
                mobile.wielded = self.name.clone();
                mobile.damage_dice = Dice { number: 1, die: 3 };
            },
            ItemTypeCode::Axe => {
                mobile.wielded = self.name.clone();
                mobile.damage_dice = Dice { number: 1, die: 8 };
            },
            ItemTypeCode::StoneKnife => {
                mobile.wielded = self.name.clone();
                mobile.damage_dice = Dice { number: 1, die: 4 };
            },
            _ => {},
        }
    }

    /// The item's own effect on the mobile that lets it go: the luck it
    /// brought leaves with it.
    pub fn drop_item(&mut self, mobile: &mut Mobile)
        requires
            i16::MIN <= old(mobile)@.luck - old(self)@.luck_bonus() <= i16::MAX,
        ensures
            *final(self) == *old(self),
            final(mobile)@ == old(mobile)@.after_dropped(old(self)@),
    {
        match self.type_code {
            ItemTypeCode::ShrunkenHead => {
                mobile.luck += 1;
            },
            ItemTypeCode::DwarfBeard => {
                mobile.luck += 1;
            },
            ItemTypeCode::RabbitFoot => {
                mobile.luck -= 1;
            },
            ItemTypeCode::GreenPenny => {
                mobile.luck -= 1;
            },
            _ => {},
        }
    }

    /// Ages the item by one tick.
    pub fn tick(&mut self)
        requires
            old(self).lifetime > 0,
        ensures
            final(self)@ == old(self)@.aged(),
    {
        self.lifetime -= 1;
    }

    /// An item of the given type and category with nothing else said of it.
    pub fn basic_item(type_code: ItemTypeCode, cat_code: ItemCategoryCode) -> (item: Box<Item>)
        ensures
            item@ == ItemView::basic(type_code, cat_code),
    {
        Box::new(
            Item {
                description: String::new(),
                name: String::new(),
                effect: String::new(),
                frequency: Mobile::easy_task(),
                type_code: type_code,
                category_code: cat_code,
                xp_value: 0,
                lifetime: 100,
                armor_value: 0,
                xp_in_town_only: false,
            },
        )
    }

    /// What is left of a mobile that was called `in_life`.
    pub fn corpse(in_life: String) -> (item: Box<Item>)
        ensures
            item@ == ItemView::corpse(in_life@),
    {
        let mut item = Item::basic_item(ItemTypeCode::Corpse, ItemCategoryCode::Misc);
        item.description = join3("A dead ", in_life.as_str(), " is here.");
        item.name = join(in_life.as_str(), " corpse");
        item.frequency = Mobile::trivial_task();
        item.effect = text("The clay left behind when the spirit is fled.");
        item
    }

    /// A potion of healing.
    pub fn healing_potion() -> (item: Box<Item>)
        ensures
            item@ == ItemView::healing_potion(),
    {
        let mut item = Item::basic_item(ItemTypeCode::HealingPotion, ItemCategoryCode::Misc);
        item.description = text("A bottle of swirling liquid has been discarded here.");
        item.name = text("potion");
        item.effect = text("This is a potion of healing!");
        item.frequency = 100;
        item.xp_value = 1;
        item
    }

    /// An ingot of metal.
    pub fn metal_ingot() -> (item: Box<Item>)
        ensures
            item@ == ItemView::metal_ingot(),
    {
        let mut item = Item::basic_item(ItemTypeCode::MetalIngot, ItemCategoryCode::Misc);
        item.description = text("An ignot of metal shines brighly in the sun.");
        item.name = text("metal ingot");
        item.effect = text("This can be made into many useful items.");
        item.xp_value = 1;
        item
    }

    /// A piece of rawhide.
    pub fn rawhide() -> (item: Box<Item>)
        ensures
            item@ == ItemView::rawhide(),
    {
        let mut item = Item::basic_item(ItemTypeCode::Rawhide, ItemCategoryCode::Misc);
        item.description = text("A bit of rawhide is here.");
        item.name = text("rawhide");
        item.effect = text("This can be made into many useful items.");
        item
    }

    /// A suit of chainmail.
    pub fn chainmail() -> (item: Box<Item>)
        ensures
            item@ == ItemView::chainmail(),
    {
        let mut item = Item::basic_item(ItemTypeCode::ChainArmor, ItemCategoryCode::Armor);
        item.description = text("A gleaning suit of chainmail sits in a pile.");
        item.name = text("chainmail");
        item.effect = text("Will protect you from harm!.");
        item.xp_value = 2;
        item.lifetime = 1000;
        item.armor_value = 4;
        item
    }

    /// A suit of hide armor.
    pub fn hide_armor() -> (item: Box<Item>)
        ensures
            item@ == ItemView::hide_armor(),
    {
        let mut item = Item::basic_item(ItemTypeCode::HideArmor, ItemCategoryCode::Armor);
        item.description = text("A stinking suit of hide armor is here.");
        item.name = text("hide armor");
        item.effect = text("Will protect you from harm!.");
        item.xp_value = 1;
        item.armor_value = 2;
        item
    }

    /// A suit of leather armor.
    pub fn leather_armor() -> (item: Box<Item>)
        ensures
            item@ == ItemView::leather_armor(),
    {
        let mut item = Item::basic_item(ItemTypeCode::LeatherArmor, ItemCategoryCode::Armor);
        item.description = text("A suit of leather armor is here.");
        item.name = text("leather armor");
        item.effect = text("Will protect you from harm!.");
        item.xp_value = 1;
        item.lifetime = 1000;
        item.armor_value = 3;
        item
    }

    /// An axe.
    pub fn axe() -> (item: Box<Item>)
        ensures
            item@ == ItemView::axe(),
    {
        let mut item = Item::basic_item(ItemTypeCode::Axe, ItemCategoryCode::Weapon);
        item.description = text("A gleaming axe is here.");
        item.name = text("axe");
        item.effect = text("A sharp axe dealing 1d8 damage.");
        item.xp_value = 1;
        item.lifetime = 1000;
        item
    }

    /// A sword.
    pub fn sword() -> (item: Box<Item>)
        ensures
            item@ == ItemView::sword(),
    {
        let mut item = Item::basic_item(ItemTypeCode::Sword, ItemCategoryCode::Weapon);
        item.description = text("A sword is here.");
        item.name = text("sword");
        item.effect = text("A sharp sword dealing 1d8 damage.");
        item.xp_value = 1;
        item.lifetime = 1000;
        item
    }

    /// A pointed stick.
    pub fn pointed_stick() -> (item: Box<Item>)
        ensures
            item@ == ItemView::pointed_stick(),
    {
        let mut item = Item::basic_item(ItemTypeCode::PointedStick, ItemCategoryCode::Weapon);
        item.description = text("A pointed stick is here.");
        item.name = text("pointed stick");
        item.effect = text("A pointed stick deals 1d3 damage.");
        item.xp_value = 1;
        item
    }

    /// A pick axe.
    pub fn pick() -> (item: Box<Item>)
        ensures
            item@ == ItemView::pick(),
    {
        let mut item = Item::basic_item(ItemTypeCode::Pick, ItemCategoryCode::Weapon);
        item.description = text("A finely made pick axe.");
        item.name = text("pick axe");
        item.effect = text("A pick axe deals 1d6 damage.");
        item.xp_value = 1;
        item.lifetime = 1000;
        item
    }

    /// A stone knife.
    pub fn stone_knife() -> (item: Box<Item>)
        ensures
            item@ == ItemView::stone_knife(),
    {
        let mut item = Item::basic_item(ItemTypeCode::StoneKnife, ItemCategoryCode::Weapon);
        item.description = text("A finely made and sharp stone knife.");
        item.name = text("stone knife");
        item.effect = text("A stone knife deals 1d4 damage.");
        item.xp_value = 1;
        item.lifetime = 1000;
        item
    }

    /// A rabbit's foot.
    pub fn rabbit_foot() -> (item: Box<Item>)
        ensures
            item@ == ItemView::rabbit_foot(),
    {
        let mut item = Item::basic_item(ItemTypeCode::RabbitFoot, ItemCategoryCode::Misc);
        item.description = text("A soft rabbits foot is here.");
        item.name = text("rabbit foot");
        item.effect = text("A lucky rabbit foot! +1 to luck.");
        item.frequency = 50;
        item.xp_value = 1;
        item
    }

    /// A greenish penny.
    pub fn green_penny() -> (item: Box<Item>)
        ensures
            item@ == ItemView::green_penny(),
    {
        let mut item = Item::basic_item(ItemTypeCode::GreenPenny, ItemCategoryCode::Misc);
        item.description = text("A greenish penny is here.");
        item.name = text("greenish penny");
        item.effect = text("A lucky penny! +1 to luck.");
        item.frequency = 50;
        item.xp_value = 1;
        item.lifetime = 1000;
        item
    }

    /// A mix of nuts and seeds.
    pub fn healthy_nuts_and_seeds() -> (item: Box<Item>)
        ensures
            item@ == ItemView::healthy_nuts_and_seeds(),
    {
        let mut item = Item::basic_item(ItemTypeCode::HealthyNutsAndSeeds, ItemCategoryCode::Misc);
        item.description = text("You see a healthy mix of nuts & seeds.");
        item.name = text("healthy nuts & seeds");
        item.effect = text("You should eat better! -1 to damage.");
        item.frequency = 50;
        item.xp_value = 1;
        item
    }

    /// The litter of a forest floor, which never decays in practice.
    pub fn forest_debris() -> (item: Box<Item>)
        ensures
            item@ == ItemView::forest_debris(),
    {
        let mut item = Item::basic_item(ItemTypeCode::ForestDebris, ItemCategoryCode::Misc);
        item.description = text("Some twigs and leaves litter the forest floor.");
        item.name = text("leaves and twigs");
        item.effect = text("Just forest dentritis.");
        item.lifetime = u32::MAX;
        item
    }

    /// A piece of bone jewelry.
    pub fn bone_jewelry() -> (item: Box<Item>)
        ensures
            item@ == ItemView::bone_jewelry(),
    {
        let mut item = Item::basic_item(ItemTypeCode::BoneJewelry, ItemCategoryCode::Misc);
        item.description = text("Some primitive bone jewelry has been discarded here.");
        item.name = text("bone jewlery");
        item.effect = text("This may be worth something in town.");
        item.frequency = 50;
        item.xp_value = 5;
        item.lifetime = 1000;
        item.xp_in_town_only = true;
        item
    }

    /// A golden bauble.
    pub fn gold_bauble() -> (item: Box<Item>)
        ensures
            item@ == ItemView::gold_bauble(),
    {
        let mut item = Item::basic_item(ItemTypeCode::GoldBauble, ItemCategoryCode::Misc);
        item.description = text("A golden bauble shines brightly in the sunlight.");
        item.name = text("golden bauble");
        item.effect = text("This may be worth something in town.");
        item.frequency = 50;
        item.xp_value = 5;
        item.lifetime = 1000;
        item.xp_in_town_only = true;
        item
    }

    /// A shrunken head.
    pub fn shrunken_head() -> (item: Box<Item>)
        ensures
            item@ == ItemView::shrunken_head(),
    {
        let mut item = Item::basic_item(ItemTypeCode::ShrunkenHead, ItemCategoryCode::Misc);
        item.description = text("A shrunken head discarded here fills you with misgivings.");
        item.name = text("shrunken head");
        item.effect = text("This horrid curio might interst a strange collector in town.");
        item.frequency = 50;
        item.xp_value = 5;
        item.xp_in_town_only = true;
        item
    }

    /// A dwarf's beard.
    pub fn dwarf_beard() -> (item: Box<Item>)
        ensures
            item@ == ItemView::dwarf_beard(),
    {
        let mut item = Item::basic_item(ItemTypeCode::DwarfBeard, ItemCategoryCode::Misc);
        item.description = text("A dwarf's beard is crumpled here, but the dwarf is missing!");
        item.name = text("dwarf's beard");
        item.effect = text("This horrid curio might interst a strange collector in town.");
        item.frequency = 50;
        item.xp_value = 5;
        item.xp_in_town_only = true;
        item
    }

    /// An uncut precious stone.
    pub fn uncut_precious_stone() -> (item: Box<Item>)
        ensures
            item@ == ItemView::uncut_precious_stone(),
    {
        let mut item = Item::basic_item(ItemTypeCode::UncutGemstone, ItemCategoryCode::Misc);
        item.description = text("A strangely colorful stone catches your eye.");
        item.name = text("colorful stone");
        item.effect = text("This colorful rock is a precious gem, yet uncit. It will fetch a good price in town.");
        item.frequency = 100;
        item.xp_value = 10;
        item.lifetime = 10000;
        item.xp_in_town_only = true;
        item
    }

    /// A worthless rock that looks like a gem.
    pub fn useless_rock() -> (item: Box<Item>)
        ensures
            item@ == ItemView::useless_rock(),
    {
        let mut item = Item::basic_item(ItemTypeCode::UselessRock, ItemCategoryCode::Misc);
        item.description = text("A strangely colorful stone catches your eye.");
        item.name = text("colorful stone");
        item.effect = text("This is a glinty bit of worthless rock.");
        item.frequency = 100;
        item.xp_value = 0;
        item.lifetime = 10000;
        item
    }

    /// The trinket for a given face of an eight-sided die.
    pub fn woodland_trinket_for(roll: i16) -> (item: Option<Box<Item>>)
        ensures
            maybe_item_view(item) == ItemView::woodland_trinket(roll as int),
    {
        match roll {
            1 => Some(Self::rabbit_foot()),
            2 => Some(Self::healthy_nuts_and_seeds()),
            _ => None,
        }
    }

    /// What a woodland creature carries: decided by an eight-sided die.
    pub fn woodland_trinket() -> (item: Option<Box<Item>>)
        ensures
            exists|roll: int|
                1 <= roll <= 8 && maybe_item_view(item) == #[trigger] ItemView::woodland_trinket(
                    roll,
                ),
    {
        let die = Dice { number: 1, die: 8 };
        let roll = die.roll();
        Self::woodland_trinket_for(roll)
    }

    /// The minor treasure for a given face of a twenty-sided die.
    pub fn minor_treasure_for(roll: i16) -> (item: Option<Box<Item>>)
        ensures
            maybe_item_view(item) == ItemView::minor_treasure(roll as int),
    {
        match roll {
            1 => Some(Self::gold_bauble()),
            2 => Some(Self::gold_bauble()),
            3 => Some(Self::bone_jewelry()),
            4 => Some(Self::bone_jewelry()),
            5 => Some(Self::bone_jewelry()),
            6 => Some(Self::shrunken_head()),
            7 => Some(Self::shrunken_head()),
            8 => Some(Self::dwarf_beard()),
            9 => Some(Self::dwarf_beard()),
            10 => Some(Self::uncut_precious_stone()),
            11 => Some(Self::useless_rock()),
            12 => Some(Self::healing_potion()),
            _ => None,
        }
    }

    /// A minor treasure, or none: decided by a twenty-sided die.
    pub fn minor_treasure() -> (item: Option<Box<Item>>)
        ensures
            exists|roll: int|
                1 <= roll <= 20 && maybe_item_view(item) == #[trigger] ItemView::minor_treasure(
                    roll,
                ),
    {
        let die = Dice { number: 1, die: 20 };
        let roll = die.roll();
        Self::minor_treasure_for(roll)
    }
}

impl Object for Item {
    open spec fn description_text(&self) -> Seq<char> {
        self@.description
    }

    open spec fn name_text(&self) -> Seq<char> {
        self@.name
    }

    open spec fn complete_text(&self) -> Seq<char> {
        self@.complete_description()
    }

    fn complete_description(&self) -> (result: String) {
        match self.category_code {
            ItemCategoryCode::Armor => {
                let protection = decimal_text(self.armor_value as i128);
                let head = join(self.effect.as_str(), " Protection is ");
                join(head.as_str(), protection.as_str())
            },
            _ => self.effect.clone(),
        }
    }

    fn description(&self) -> (result: String) {
        self.description.clone()
    }

    fn get_name(&self) -> (result: String) {
        self.name.clone()
    }
}

} // verus!
