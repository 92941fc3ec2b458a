//! Item data model: immutable definitions (`ItemDef`), per-play instances
//! (`ItemInstance`), the id-keyed catalog, and a character's `Inventory` of two
//! hands, six equipment slots, a pouch and a backpack.
use vstd::prelude::*;
use crate::character::StatKind;
use crate::text::{cat, cat3, same_text};

verus! {

/// Item category (14 kinds).
#[derive(Clone, Copy, PartialEq, Eq, Debug, Structural)]
pub enum ItemKind {
    General,
    Scroll,
    EmptyContainer,
    Liquid,
    Light,
    /// A map of the dungeon.
    DungeonMap,
    Compass,
    Periscope,
    Pencil,
    RedPencil,
    BluePencil,
    Accessory,
    GlowStone,
    TreasureChest,
}

impl ItemKind {
    /// Japanese label for the data screen.
    pub fn label(self) -> (r: &'static str)
        ensures
            r@ == match self {
                ItemKind::General => "一般"@,
                ItemKind::Scroll => "巻物"@,
                ItemKind::EmptyContainer => "容器"@,
                ItemKind::Liquid => "液体"@,
                ItemKind::Light => "照明"@,
                ItemKind::DungeonMap => "地図"@,
                ItemKind::Compass => "コンパス"@,
                ItemKind::Periscope => "潜望鏡"@,
                ItemKind::Pencil => "鉛筆"@,
                ItemKind::RedPencil => "赤鉛筆"@,
                ItemKind::BluePencil => "青鉛筆"@,
                ItemKind::Accessory => "装飾品"@,
                ItemKind::GlowStone => "発光石"@,
                ItemKind::TreasureChest => "宝箱"@,
            },
    {
        match self {
            ItemKind::General => "一般",
            ItemKind::Scroll => "巻物",
            ItemKind::EmptyContainer => "容器",
            ItemKind::Liquid => "液体",
            ItemKind::Light => "照明",
            ItemKind::DungeonMap => "地図",
            ItemKind::Compass => "コンパス",
            ItemKind::Periscope => "潜望鏡",
            ItemKind::Pencil => "鉛筆",
            ItemKind::RedPencil => "赤鉛筆",
            ItemKind::BluePencil => "青鉛筆",
            ItemKind::Accessory => "装飾品",
            ItemKind::GlowStone => "発光石",
            ItemKind::TreasureChest => "宝箱",
        }
    }
}

/// Equipment location. An item may fit several.
#[derive(Clone, Copy, PartialEq, Eq, Hash, Debug, Structural)]
pub enum EquipSlot {
    Head,
    Neck,
    Body,
    Arm,
    Waist,
    Foot,
}

impl EquipSlot {
    pub open spec fn spec_index(self) -> int {
        match self {
            EquipSlot::Head => 0,
            EquipSlot::Neck => 1,
            EquipSlot::Body => 2,
            EquipSlot::Arm => 3,
            EquipSlot::Waist => 4,
            EquipSlot::Foot => 5,
        }
    }

    /// The slot at display position `i` (0..6).
    pub open spec fn spec_from_index(i: int) -> EquipSlot {
        if i == 0 {
            EquipSlot::Head
        } else if i == 1 {
            EquipSlot::Neck
        } else if i == 2 {
            EquipSlot::Body
        } else if i == 3 {
            EquipSlot::Arm
        } else if i == 4 {
            EquipSlot::Waist
        } else {
            EquipSlot::Foot
        }
    }

    /// All six slots in display order (index = `as_index`).
    pub fn all() -> (r: [EquipSlot; 6])
        ensures
            forall|i: int| 0 <= i < 6 ==> #[trigger] r@[i] == EquipSlot::spec_from_index(i),
    {
        [
            EquipSlot::Head,
            EquipSlot::Neck,
            EquipSlot::Body,
            EquipSlot::Arm,
            EquipSlot::Waist,
            EquipSlot::Foot,
        ]
    }

    pub fn as_index(self) -> (r: usize)
        ensures
            r == self.spec_index(),
            r < 6,
            EquipSlot::spec_from_index(r as int) == self,
    {
        match self {
            EquipSlot::Head => 0,
            EquipSlot::Neck => 1,
            EquipSlot::Body => 2,
            EquipSlot::Arm => 3,
            EquipSlot::Waist => 4,
            EquipSlot::Foot => 5,
        }
    }

    pub fn label(self) -> (r: &'static str)
        ensures
            r@ == match self {
                EquipSlot::Head => "頭"@,
                EquipSlot::Neck => "首"@,
                EquipSlot::Body => "体"@,
                EquipSlot::Arm => "腕"@,
                EquipSlot::Waist => "腰"@,
                EquipSlot::Foot => "足"@,
            },
    {
        match self {
            EquipSlot::Head => "頭",
            EquipSlot::Neck => "首",
            EquipSlot::Body => "体",
            EquipSlot::Arm => "腕",
            EquipSlot::Waist => "腰",
            EquipSlot::Foot => "足",
        }
    }
}

/// Index and slot agree both ways.
pub proof fn lemma_equip_index_round_trip(s: EquipSlot, i: int)
    ensures
        EquipSlot::spec_from_index(s.spec_index()) == s,
        0 <= i < 6 ==> EquipSlot::spec_from_index(i).spec_index() == i,
{
}

/// A stat change applied while equipped, or once when eaten. `duration_cycles`
/// of 0 means permanent.
#[derive(Clone, Debug, PartialEq)]
pub struct StatEffect {
    pub stat: StatKind,
    pub delta: i32,
    pub duration_cycles: u64,
}

/// An item definition (immutable; authored in `items.ron`).
#[derive(Clone, Debug, PartialEq)]
pub struct ItemDef {
    /// Unique within the project.
    pub id: String,
    /// Display name.
    pub name: String,
    pub kind: ItemKind,
    /// するどさ (weapon power).
    pub sharpness: i32,
    /// かたさ (armour / how hard to eat).
    pub hardness: i32,
    /// おもさ (weight, ×100 g).
    pub weight: i32,
    pub temperature: i32,
    /// 栄養価 (HP change on eating; negative = damage).
    pub nutrition: i32,
    pub entropy_max: i32,
    pub anti_magic: i32,
    pub anti_appraisal: i32,
    pub anti_impact: i32,
    /// Important items can't be eaten or thrown.
    pub important: bool,
    pub throwability: i32,
    pub grip: i32,
    /// Storage capacity (containers only).
    pub capacity: u32,
    /// Slots this item can occupy; empty = not equippable.
    pub equip_slots: Vec<EquipSlot>,
    /// Stat effects applied on equip / eat.
    pub effects: Vec<StatEffect>,
    /// glb path for the 3D floor display; empty = generic fallback shape.
    pub model: String,
    /// The magic a scroll teaches, if any.
    pub teaches: Option<String>,
}

impl ItemDef {
    pub fn is_equippable(&self) -> (r: bool)
        ensures
            r == (self.equip_slots@.len() > 0),
    {
        self.equip_slots.len() > 0
    }
}

/// A concrete item in the world / an inventory.
#[derive(Clone, Debug, PartialEq)]
pub struct ItemInstance {
    pub def_id: String,
    pub entropy: i32,
    /// The magic this container holds as a potion, if any.
    pub potion_of: Option<String>,
}

/// An exact copy of an optional text.
pub fn copy_opt_text(s: &Option<String>) -> (r: Option<String>)
    ensures
        r == *s,
{
    match s {
        Some(t) => Some(t.clone()),
        None => None,
    }
}

impl ItemInstance {
    pub fn new(def_id: String) -> (r: ItemInstance)
        ensures
            r == (ItemInstance { def_id, entropy: 0, potion_of: None }),
    {
        ItemInstance { def_id, entropy: 0, potion_of: None }
    }

    /// A field-for-field copy.
    pub fn copy(&self) -> (r: ItemInstance)
        ensures
            r == *self,
    {
        ItemInstance {
            def_id: self.def_id.clone(),
            entropy: self.entropy,
            potion_of: copy_opt_text(&self.potion_of),
        }
    }
}

/// One item placed on a level: an item id at a tile.
#[derive(Clone, Debug, PartialEq, Eq)]
pub struct ItemPlacement {
    pub id: String,
    pub x: i32,
    pub y: i32,
    pub floor: usize,
}

/// The index of the first element of `ids` spelling `id`, if any.
pub open spec fn first_index_of(ids: Seq<Seq<char>>, id: Seq<char>) -> Option<int>
    decreases ids.len(),
{
    if ids.len() == 0 {
        None
    } else if ids.last() == id {
        match first_index_of(ids.drop_last(), id) {
            Some(i) => Some(i),
            None => Some(ids.len() - 1),
        }
    } else {
        first_index_of(ids.drop_last(), id)
    }
}

pub proof fn lemma_first_index_of(ids: Seq<Seq<char>>, id: Seq<char>)
    ensures
        match first_index_of(ids, id) {
            Some(i) => 0 <= i < ids.len() && ids[i] == id && forall|j: int|
                0 <= j < i ==> ids[j] != id,
            None => forall|j: int| 0 <= j < ids.len() ==> ids[j] != id,
        },
    decreases ids.len(),
{
    if ids.len() > 0 {
        let init = ids.drop_last();
        lemma_first_index_of(init, id);
        assert(forall|j: int| 0 <= j < init.len() ==> init[j] == ids[j]);
    }
}

/// Whether the ids are pairwise distinct.
pub open spec fn distinct_ids(ids: Seq<Seq<char>>) -> bool {
    forall|i: int, j: int| 0 <= i < j < ids.len() ==> ids[i] != ids[j]
}

/// The index of the first element whose id already occurred earlier, if any.
pub open spec fn first_duplicate(ids: Seq<Seq<char>>) -> Option<int>
    decreases ids.len(),
{
    if ids.len() == 0 {
        None
    } else {
        match first_duplicate(ids.drop_last()) {
            Some(i) => Some(i),
            None => if first_index_of(ids.drop_last(), ids.last()) is Some {
                Some(ids.len() - 1)
            } else {
                None
            },
        }
    }
}

pub proof fn lemma_first_duplicate(ids: Seq<Seq<char>>)
    ensures
        match first_duplicate(ids) {
            Some(k) => 0 <= k < ids.len() && distinct_ids(ids.take(k)) && exists|i: int|
                0 <= i < k && ids[i] == ids[k],
            None => distinct_ids(ids),
        },
    decreases ids.len(),
{
    if ids.len() > 0 {
        let init = ids.drop_last();
        lemma_first_duplicate(init);
        lemma_first_index_of(init, ids.last());
        match first_duplicate(init) {
            Some(k) => {
                assert(ids.take(k) =~= init.take(k));
                let i = choose|i: int| 0 <= i < k && init[i] == init[k];
                assert(ids[i] == ids[k]);
            },
            None => {
                if first_index_of(init, ids.last()) is Some {
                    let i = first_index_of(init, ids.last()).unwrap();
                    assert(ids.take(ids.len() - 1) =~= init);
                    assert(ids[i] == ids[ids.len() - 1]);
                } else {
                    assert forall|i: int, j: int| 0 <= i < j < ids.len() implies ids[i]
                        != ids[j] by {
                        if j < ids.len() - 1 {
                            assert(init[i] != init[j]);
                        } else {
                            assert(init[i] != ids.last());
                        }
                    }
                }
            },
        }
    }
}

pub open spec fn item_ids(defs: Seq<ItemDef>) -> Seq<Seq<char>> {
    defs.map_values(|d: ItemDef| d.id@)
}

/// All item definitions, keyed by (distinct) id.
#[derive(Clone, Debug, Default)]
pub struct ItemCatalog {
    defs: Vec<ItemDef>,
}

impl View for ItemCatalog {
    type V = Seq<ItemDef>;

    closed spec fn view(&self) -> Seq<ItemDef> {
        self.defs@
    }
}

/// The definition with id `id` in `defs`, if any (the first one).
pub open spec fn lookup_item(defs: Seq<ItemDef>, id: Seq<char>) -> Option<ItemDef> {
    match first_index_of(item_ids(defs), id) {
        Some(i) => Some(defs[i]),
        None => None,
    }
}

impl ItemCatalog {
    pub open spec fn spec_get(&self, id: Seq<char>) -> Option<ItemDef> {
        lookup_item(self@, id)
    }

    pub open spec fn wf(&self) -> bool {
        distinct_ids(item_ids(self@))
    }

    /// An empty catalog.
    pub fn empty() -> (r: ItemCatalog)
        ensures
            r@.len() == 0,
            r.wf(),
    {
        ItemCatalog { defs: Vec::new() }
    }

    /// Build from a list, rejecting duplicate ids: the error names the first
    /// definition whose id already occurred.
    pub fn from_defs(defs: Vec<ItemDef>, what: &str) -> (r: Result<ItemCatalog, String>)
        ensures
            match first_duplicate(item_ids(defs@)) {
                None => r matches Ok(c) && c@ == defs@ && c.wf(),
                Some(k) => r matches Err(e) && e@ == what@ + ": duplicate item id '"@
                    + defs@[k].id@ + "'"@,
            },
    {
        let mut i: usize = 0;
        while i < defs.len()
            invariant
                i <= defs@.len(),
                first_duplicate(item_ids(defs@).take(i as int)) is None,
            decreases defs@.len() - i,
        {
            let ghost ids = item_ids(defs@);
            assert(ids.take(i as int + 1).drop_last() =~= ids.take(i as int));
            assert(ids.take(i as int + 1).last() == defs@[i as int].id@);
            let mut j: usize = 0;
            while j < i
                invariant
                    j <= i < defs@.len(),
                    ids == item_ids(defs@),
                    first_duplicate(ids.take(i as int)) is None,
                    forall|k: int| 0 <= k < j ==> ids[k] != ids[i as int],
                decreases i - j,
            {
                if defs[j].id == defs[i].id {
                    proof {
                        lemma_first_index_of(ids.take(i as int), ids[i as int]);
                        assert(ids.take(i as int)[j as int] == ids[i as int]);
                        assert(ids.take(i as int + 1) =~= ids.take(i as int).push(ids[i as int]));
                        assert(ids.take(i as int + 1).drop_last() =~= ids.take(i as int));
                        assert(ids.take(i as int + 1).last() == ids[i as int]);
                        assert(first_index_of(ids.take(i as int), ids[i as int]) is Some);
                        assert(first_duplicate(ids.take(i as int + 1)) == Some(i as int));
                        lemma_first_duplicate_prefix(ids, i as int + 1);
                    }
                    let msg = cat3(what, ": duplicate item id '", defs[i].id.as_str());
                    let msg2 = cat(msg.as_str(), "'");
                    return Err(msg2);
                }
                j = j + 1;
            }
            proof {
                lemma_first_index_of(ids.take(i as int), ids[i as int]);
                assert(ids.take(i as int + 1) =~= ids.take(i as int).push(ids[i as int]));
            }
            i = i + 1;
        }
        proof {
            assert(item_ids(defs@).take(defs@.len() as int) =~= item_ids(defs@));
            lemma_first_duplicate(item_ids(defs@));
        }
        Ok(ItemCatalog { defs })
    }

    /// The definition with id `id`, if any.
    pub fn get(&self, id: &str) -> (r: Option<&ItemDef>)
        ensures
            r == match self.spec_get(id@) {
                Some(d) => Some(&d),
                None => None,
            },
    {
        let mut i: usize = 0;
        while i < self.defs.len()
            invariant
                i <= self.defs@.len(),
                forall|k: int| 0 <= k < i ==> item_ids(self.defs@)[k] != id@,
            decreases self.defs@.len() - i,
        {
            if same_text(&self.defs[i].id, id) {
                proof {
                    lemma_first_index_of_at(item_ids(self.defs@), id@, i as int);
                }
                return Some(&self.defs[i]);
            }
            i = i + 1;
        }
        proof {
            lemma_first_index_of(item_ids(self.defs@), id@);
        }
        None
    }

    /// All definitions, in authored order.
    pub fn iter(&self) -> (r: &Vec<ItemDef>)
        ensures
            r@ == self@,
    {
        &self.defs
    }
}

/// The first duplicate of a prefix is the first duplicate of the whole list.
pub proof fn lemma_first_duplicate_prefix(ids: Seq<Seq<char>>, n: int)
    requires
        0 <= n <= ids.len(),
        first_duplicate(ids.take(n)) is Some,
    ensures
        first_duplicate(ids) == first_duplicate(ids.take(n)),
    decreases ids.len() - n,
{
    if n < ids.len() {
        assert(ids.take(n + 1).drop_last() =~= ids.take(n));
        lemma_first_duplicate_prefix(ids, n + 1);
    } else {
        assert(ids.take(n) =~= ids);
    }
}

/// When `ids[i] == id` and no earlier element matches, `i` is the first index.
pub proof fn lemma_first_index_of_at(ids: Seq<Seq<char>>, id: Seq<char>, i: int)
    requires
        0 <= i < ids.len(),
        ids[i] == id,
        forall|k: int| 0 <= k < i ==> ids[k] != id,
    ensures
        first_index_of(ids, id) == Some(i),
{
    lemma_first_index_of(ids, id);
}

/// Addresses one inventory slot.
#[derive(Clone, Copy, PartialEq, Eq, Debug, Structural)]
pub enum SlotRef {
    Hand(usize),
    Equip(EquipSlot),
    Pouch(usize),
    Backpack(usize),
}

/// The abstract contents of an inventory: one optional item per slot.
pub struct InventoryView {
    pub hands: Seq<Option<ItemInstance>>,
    pub equipment: Seq<Option<ItemInstance>>,
    pub pouch: Seq<Option<ItemInstance>>,
    pub backpack: Seq<Option<ItemInstance>>,
}

impl InventoryView {
    /// The slot `r` addresses: `Some(content)` when it exists.
    pub open spec fn cell(self, r: SlotRef) -> Option<Option<ItemInstance>> {
        match r {
            SlotRef::Hand(i) => if i < self.hands.len() {
                Some(self.hands[i as int])
            } else {
                None
            },
            SlotRef::Equip(s) => if s.spec_index() < self.equipment.len() {
                Some(self.equipment[s.spec_index()])
            } else {
                None
            },
            SlotRef::Pouch(i) => if i < self.pouch.len() {
                Some(self.pouch[i as int])
            } else {
                None
            },
            SlotRef::Backpack(i) => if i < self.backpack.len() {
                Some(self.backpack[i as int])
            } else {
                None
            },
        }
    }

    /// The item held at `r`, if any.
    pub open spec fn item_at(self, r: SlotRef) -> Option<ItemInstance> {
        match self.cell(r) {
            Some(Some(it)) => Some(it),
            _ => None,
        }
    }

    /// The view with slot `r` (which must exist) set to `v`.
    pub open spec fn with_cell(self, r: SlotRef, v: Option<ItemInstance>) -> InventoryView {
        match r {
            SlotRef::Hand(i) => InventoryView { hands: self.hands.update(i as int, v), ..self },
            SlotRef::Equip(s) => InventoryView {
                equipment: self.equipment.update(s.spec_index(), v),
                ..self
            },
            SlotRef::Pouch(i) => InventoryView { pouch: self.pouch.update(i as int, v), ..self },
            SlotRef::Backpack(i) => InventoryView {
                backpack: self.backpack.update(i as int, v),
                ..self
            },
        }
    }

    /// Remove the item at `r` (if any): `(new view, removed item)`.
    pub open spec fn spec_take(self, r: SlotRef) -> (InventoryView, Option<ItemInstance>) {
        match self.cell(r) {
            Some(Some(it)) => (self.with_cell(r, None), Some(it)),
            _ => (self, None),
        }
    }

    /// Put `item` into slot `r` if it exists and is empty: `Some(new view)`,
    /// else `None` (the item is refused).
    pub open spec fn spec_put(self, r: SlotRef, item: ItemInstance) -> Option<InventoryView> {
        match self.cell(r) {
            Some(None) => Some(self.with_cell(r, Some(item))),
            _ => None,
        }
    }

    /// The first empty general-storage slot, hands → pouch → backpack.
    pub open spec fn spec_first_free(self) -> Option<SlotRef> {
        if first_none(self.hands) is Some {
            Some(SlotRef::Hand(first_none(self.hands).unwrap() as usize))
        } else if first_none(self.pouch) is Some {
            Some(SlotRef::Pouch(first_none(self.pouch).unwrap() as usize))
        } else if first_none(self.backpack) is Some {
            Some(SlotRef::Backpack(first_none(self.backpack).unwrap() as usize))
        } else {
            None
        }
    }

    /// Every held item with its slot: hands, equipment (display order), pouch,
    /// backpack.
    pub open spec fn items(self) -> Seq<(SlotRef, ItemInstance)> {
        held(self.hands, 0, self.hands.len() as nat) + held(
            self.equipment,
            1,
            self.equipment.len() as nat,
        ) + held(self.pouch, 2, self.pouch.len() as nat) + held(
            self.backpack,
            3,
            self.backpack.len() as nat,
        )
    }
}

/// The index of the first `None` in `s`, if any.
pub open spec fn first_none(s: Seq<Option<ItemInstance>>) -> Option<int>
    decreases s.len(),
{
    if s.len() == 0 {
        None
    } else {
        match first_none(s.drop_last()) {
            Some(i) => Some(i),
            None => if s.last() is None {
                Some(s.len() - 1)
            } else {
                None
            },
        }
    }
}

pub proof fn lemma_first_none(s: Seq<Option<ItemInstance>>)
    ensures
        match first_none(s) {
            Some(i) => 0 <= i < s.len() && s[i] is None && forall|j: int|
                0 <= j < i ==> s[j] is Some,
            None => forall|j: int| 0 <= j < s.len() ==> s[j] is Some,
        },
    decreases s.len(),
{
    if s.len() > 0 {
        let init = s.drop_last();
        lemma_first_none(init);
        assert(forall|j: int| 0 <= j < init.len() ==> init[j] == s[j]);
    }
}

/// The slot reference of kind `kind` (0 hand, 1 equipment, 2 pouch, 3 backpack)
/// at position `i`.
pub open spec fn slot_of(kind: int, i: int) -> SlotRef {
    if kind == 0 {
        SlotRef::Hand(i as usize)
    } else if kind == 1 {
        SlotRef::Equip(EquipSlot::spec_from_index(i))
    } else if kind == 2 {
        SlotRef::Pouch(i as usize)
    } else {
        SlotRef::Backpack(i as usize)
    }
}

/// The held items among the first `n` cells of one storage area.
pub open spec fn held(cells: Seq<Option<ItemInstance>>, kind: int, n: nat) -> Seq<
    (SlotRef, ItemInstance),
>
    decreases n,
{
    if n == 0 {
        Seq::empty()
    } else {
        let rest = held(cells, kind, (n - 1) as nat);
        match cells[n - 1] {
            Some(it) => rest.push((slot_of(kind, n - 1), it)),
            None => rest,
        }
    }
}

/// A character's carried items.
#[derive(Clone, Debug)]
pub struct Inventory {
    hands: Vec<Option<ItemInstance>>,
    equipment: Vec<Option<ItemInstance>>,
    pouch: Vec<Option<ItemInstance>>,
    backpack: Vec<Option<ItemInstance>>,
}

impl View for Inventory {
    type V = InventoryView;

    closed spec fn view(&self) -> InventoryView {
        InventoryView {
            hands: self.hands@,
            equipment: self.equipment@,
            pouch: self.pouch@,
            backpack: self.backpack@,
        }
    }
}

/// An inventory view has two hands and six equipment slots.
pub open spec fn view_wf(v: InventoryView) -> bool {
    &&& v.hands.len() == 2
    &&& v.equipment.len() == 6
    &&& v.pouch.len() <= usize::MAX
    &&& v.backpack.len() <= usize::MAX
}

impl Inventory {
    pub open spec fn wf(&self) -> bool {
        view_wf(self@)
    }

    /// Empty hands and equipment, a pouch of `pouch_size` and a backpack of
    /// `backpack_size` empty slots.
    pub fn new(pouch_size: usize, backpack_size: usize) -> (r: Inventory)
        ensures
            r.wf(),
            r@.hands == seq![None::<ItemInstance>, None],
            r@.equipment == Seq::new(6, |i: int| None::<ItemInstance>),
            r@.pouch == Seq::new(pouch_size as nat, |i: int| None::<ItemInstance>),
            r@.backpack == Seq::new(backpack_size as nat, |i: int| None::<ItemInstance>),
    {
        let r = Inventory {
            hands: empty_slots(2),
            equipment: empty_slots(6),
            pouch: empty_slots(pouch_size),
            backpack: empty_slots(backpack_size),
        };
        assert(r@.hands =~= seq![None::<ItemInstance>, None]);
        r
    }

    /// The storage area (0 hands, 1 equipment, 2 pouch, 3 backpack).
    fn area(&self, kind: u8) -> (r: &Vec<Option<ItemInstance>>)
        ensures
            kind == 0 ==> r@ == self@.hands,
            kind == 1 ==> r@ == self@.equipment,
            kind == 2 ==> r@ == self@.pouch,
            kind >= 3 ==> r@ == self@.backpack,
    {
        if kind == 0 {
            &self.hands
        } else if kind == 1 {
            &self.equipment
        } else if kind == 2 {
            &self.pouch
        } else {
            &self.backpack
        }
    }

    /// The slot `r` addresses, if it exists.
    pub fn cell(&self, r: SlotRef) -> (c: Option<&Option<ItemInstance>>)
        requires
            self.wf(),
        ensures
            match self@.cell(r) {
                Some(v) => c == Some(&v),
                None => c is None,
            },
    {
        match r {
            SlotRef::Hand(i) => if i < self.hands.len() {
                Some(&self.hands[i])
            } else {
                None
            },
            SlotRef::Equip(s) => Some(&self.equipment[s.as_index()]),
            SlotRef::Pouch(i) => if i < self.pouch.len() {
                Some(&self.pouch[i])
            } else {
                None
            },
            SlotRef::Backpack(i) => if i < self.backpack.len() {
                Some(&self.backpack[i])
            } else {
                None
            },
        }
    }

    /// Overwrite the existing slot `r` with `v`.
    fn set_cell(&mut self, r: SlotRef, v: Option<ItemInstance>)
        requires
            old(self).wf(),
            old(self)@.cell(r) is Some,
        ensures
            final(self).wf(),
            final(self)@ == old(self)@.with_cell(r, v),
    {
        match r {
            SlotRef::Hand(i) => self.hands.set(i, v),
            SlotRef::Equip(s) => self.equipment.set(s.as_index(), v),
            SlotRef::Pouch(i) => self.pouch.set(i, v),
            SlotRef::Backpack(i) => self.backpack.set(i, v),
        }
    }

    /// The item held at `r`, if any.
    pub fn get(&self, r: SlotRef) -> (it: Option<&ItemInstance>)
        requires
            self.wf(),
        ensures
            match self@.item_at(r) {
                Some(v) => it == Some(&v),
                None => it is None,
            },
    {
        match self.cell(r) {
            Some(Some(it)) => Some(it),
            _ => None,
        }
    }

    /// Remove and return the item at `r` (if any).
    pub fn take(&mut self, r: SlotRef) -> (it: Option<ItemInstance>)
        requires
            old(self).wf(),
        ensures
            final(self).wf(),
            (final(self)@, it) == old(self)@.spec_take(r),
    {
        let cur = match self.cell(r) {
            Some(Some(it)) => Some(it.copy()),
            _ => None,
        };
        match cur {
            Some(it) => {
                self.set_cell(r, None);
                Some(it)
            },
            None => None,
        }
    }

    /// Put `item` into an empty slot `r`. Returns the item back if the slot is
    /// occupied or out of range.
    pub fn put(&mut self, r: SlotRef, item: ItemInstance) -> (res: Result<(), ItemInstance>)
        requires
            old(self).wf(),
        ensures
            final(self).wf(),
            match old(self)@.spec_put(r, item) {
                Some(v) => res is Ok && final(self)@ == v,
                None => res == Err::<(), ItemInstance>(item) && final(self)@ == old(self)@,
            },
    {
        let empty = match self.cell(r) {
            Some(None) => true,
            _ => false,
        };
        if empty {
            self.set_cell(r, Some(item));
            Ok(())
        } else {
            Err(item)
        }
    }

    /// First empty general-storage slot, hands → pouch → backpack (equipment is
    /// never a pickup target).
    pub fn first_free(&self) -> (r: Option<SlotRef>)
        requires
            self.wf(),
        ensures
            r == self@.spec_first_free(),
    {
        if let Some(i) = first_empty(&self.hands) {
            return Some(SlotRef::Hand(i));
        }
        if let Some(i) = first_empty(&self.pouch) {
            return Some(SlotRef::Pouch(i));
        }
        if let Some(i) = first_empty(&self.backpack) {
            return Some(SlotRef::Backpack(i));
        }
        None
    }

    /// Store `item` in the first free general slot. Returns where it went, or
    /// the item back when full.
    pub fn pickup(&mut self, item: ItemInstance) -> (res: Result<SlotRef, ItemInstance>)
        requires
            old(self).wf(),
        ensures
            final(self).wf(),
            match old(self)@.spec_first_free() {
                Some(r) => res == Ok::<SlotRef, ItemInstance>(r) && old(self)@.spec_put(r, item)
                    == Some(final(self)@),
                None => res == Err::<SlotRef, ItemInstance>(item) && final(self)@ == old(self)@,
            },
    {
        proof {
            lemma_first_free_is_empty(self@);
        }
        match self.first_free() {
            Some(r) => {
                let _ = self.put(r, item);
                Ok(r)
            },
            None => Err(item),
        }
    }

    /// Every held item with its slot: hands, equipment, pouch, backpack.
    pub fn iter(&self) -> (r: Vec<(SlotRef, ItemInstance)>)
        requires
            self.wf(),
        ensures
            r@ == self@.items(),
    {
        let mut out: Vec<(SlotRef, ItemInstance)> = Vec::new();
        collect_held(&self.hands, 0, &mut out);
        collect_held(&self.equipment, 1, &mut out);
        collect_held(&self.pouch, 2, &mut out);
        collect_held(&self.backpack, 3, &mut out);
        assert(out@ =~= self@.items());
        out
    }

    /// Total carried weight (×100 g), summed over every held item whose
    /// definition is known.
    pub fn total_weight(&self, catalog: &ItemCatalog) -> (r: i32)
        requires
            self.wf(),
            sums_in_range(self@.items(), catalog@),
        ensures
            r == weight_sum(self@.items(), catalog@),
    {
        let items = self.iter();
        let mut total: i32 = 0;
        let mut i: usize = 0;
        while i < items.len()
            invariant
                i <= items@.len(),
                items@ == self@.items(),
                sums_in_range(items@, catalog@),
                total == weight_sum(items@.take(i as int), catalog@),
            decreases items@.len() - i,
        {
            assert(items@.take(i as int + 1).drop_last() =~= items@.take(i as int));
            let w = match catalog.get(items[i].1.def_id.as_str()) {
                Some(d) => d.weight,
                None => 0,
            };
            assert(items@.take(i as int + 1).last() == items@[i as int]);
            assert(i32::MIN <= weight_sum(items@.take(i as int + 1), catalog@) <= i32::MAX);
            total = total + w;
            i = i + 1;
        }
        assert(items@.take(items@.len() as int) =~= items@);
        total
    }

    /// Passive `(stat, delta)` contributions from the six equipment slots only,
    /// in slot order then effect order.
    pub fn equipment_effects(&self, catalog: &ItemCatalog) -> (r: Vec<(StatKind, i32)>)
        requires
            self.wf(),
        ensures
            r@ == equip_effects(self@.equipment, catalog@, 6),
    {
        let mut out: Vec<(StatKind, i32)> = Vec::new();
        let mut s: usize = 0;
        while s < 6
            invariant
                s <= 6,
                self.wf(),
                out@ == equip_effects(self@.equipment, catalog@, s as nat),
            decreases 6 - s,
        {
            if let Some(it) = &self.equipment[s] {
                if let Some(def) = catalog.get(it.def_id.as_str()) {
                    let ghost before = out@;
                    let mut k: usize = 0;
                    while k < def.effects.len()
                        invariant
                            k <= def.effects@.len(),
                            out@ == before + effect_pairs(def.effects@).take(k as int),
                        decreases def.effects@.len() - k,
                    {
                        out.push((def.effects[k].stat, def.effects[k].delta));
                        assert(effect_pairs(def.effects@).take(k as int + 1) =~= effect_pairs(
                            def.effects@,
                        ).take(k as int).push((def.effects@[k as int].stat, def.effects@[k as int].delta)));
                        k = k + 1;
                    }
                    assert(effect_pairs(def.effects@).take(def.effects@.len() as int)
                        =~= effect_pairs(def.effects@));
                }
            }
            s = s + 1;
        }
        out
    }

    /// Equip the item at `from` (a hand/pouch/backpack slot) into its first
    /// matching equipment slot, swapping any current occupant back to `from`.
    pub fn equip(&mut self, from: SlotRef, catalog: &ItemCatalog) -> (res: Result<(), String>)
        requires
            old(self).wf(),
        ensures
            final(self).wf(),
            match spec_equip(old(self)@, from, catalog@) {
                Ok(v) => res is Ok && final(self)@ == v,
                Err(_) => res is Err && final(self)@ == old(self)@,
            },
            res matches Err(e) ==> spec_equip(old(self)@, from, catalog@) == Err::<
                InventoryView,
                Seq<char>,
            >(e@),
    {
        if matches!(from, SlotRef::Equip(_)) {
            proof {
                reveal_strlit("すでに装備している");
            }
            return Err(String::from_str("すでに装備している"));
        }
        let item = match self.get(from) {
            Some(it) => it.copy(),
            None => {
                proof {
                    reveal_strlit("スロットが空だ");
                }
                return Err(String::from_str("スロットが空だ"));
            },
        };
        let def = match catalog.get(item.def_id.as_str()) {
            Some(d) => d,
            None => {
                let msg = cat3("未知のアイテム '", item.def_id.as_str(), "'");
                return Err(msg);
            },
        };
        if def.equip_slots.len() == 0 {
            return Err(cat(def.name.as_str(), "は装備できない"));
        }
        let slot = def.equip_slots[0];
        let target = SlotRef::Equip(slot);
        let ghost v0 = self@;
        let taken = self.take(from);
        let ghost v1 = self@;
        let previous = self.take(target);
        proof {
            lemma_with_cell_twice(v1, target, None, Some(item));
        }
        let _ = self.put(target, item);
        if let Some(old_item) = previous {
            let _ = self.put(from, old_item);
        }
        Ok(())
    }

    /// Unequip `slot` into the first free general slot. Fails if nothing is free.
    pub fn unequip(&mut self, slot: EquipSlot) -> (res: Result<(), String>)
        requires
            old(self).wf(),
        ensures
            final(self).wf(),
            match spec_unequip(old(self)@, slot) {
                Ok(v) => res is Ok && final(self)@ == v,
                Err(e) => res matches Err(m) && m@ == e && final(self)@ == old(self)@,
            },
    {
        let src = SlotRef::Equip(slot);
        if self.get(src).is_none() {
            proof {
                reveal_strlit("装備していない");
            }
            return Err(String::from_str("装備していない"));
        }
        let dest = match self.first_free() {
            Some(d) => d,
            None => {
                proof {
                    reveal_strlit("持ちきれない(空きがない)");
                }
                return Err(String::from_str("持ちきれない(空きがない)"));
            },
        };
        proof {
            lemma_first_free_is_empty(self@);
        }
        let item = self.take(src);
        match item {
            Some(it) => {
                let _ = self.put(dest, it);
            },
            None => {},
        }
        Ok(())
    }
}

/// A vector of `n` empty slots.
fn empty_slots(n: usize) -> (r: Vec<Option<ItemInstance>>)
    ensures
        r@ == Seq::new(n as nat, |i: int| None::<ItemInstance>),
{
    let mut v: Vec<Option<ItemInstance>> = Vec::new();
    let mut i: usize = 0;
    while i < n
        invariant
            i <= n,
            v@ == Seq::new(i as nat, |k: int| None::<ItemInstance>),
        decreases n - i,
    {
        v.push(None);
        i = i + 1;
    }
    v
}

/// The index of the first empty slot of `v`, if any.
fn first_empty(v: &Vec<Option<ItemInstance>>) -> (r: Option<usize>)
    ensures
        match first_none(v@) {
            Some(i) => r == Some(i as usize),
            None => r is None,
        },
{
    proof {
        lemma_first_none(v@);
    }
    let mut i: usize = 0;
    while i < v.len()
        invariant
            i <= v@.len(),
            forall|j: int| 0 <= j < i ==> v@[j] is Some,
        decreases v@.len() - i,
    {
        if v[i].is_none() {
            proof {
                lemma_first_none_at(v@, i as int);
            }
            return Some(i);
        }
        i = i + 1;
    }
    None
}

pub proof fn lemma_first_none_at(s: Seq<Option<ItemInstance>>, i: int)
    requires
        0 <= i < s.len(),
        s[i] is None,
        forall|j: int| 0 <= j < i ==> s[j] is Some,
    ensures
        first_none(s) == Some(i),
{
    lemma_first_none(s);
}


/// Every entry of `held` names a stored item at its slot.
pub proof fn lemma_held_entries(cells: Seq<Option<ItemInstance>>, kind: int, n: nat)
    requires
        n <= cells.len(),
    ensures
        forall|k: int|
            0 <= k < held(cells, kind, n).len() ==> exists|i: int|
                0 <= i < n && cells[i] == Some(#[trigger] held(cells, kind, n)[k].1) && held(cells, kind, n)[k].0
                    == slot_of(kind, i),
    decreases n,
{
    if n > 0 {
        lemma_held_entries(cells, kind, (n - 1) as nat);
        let rest = held(cells, kind, (n - 1) as nat);
        assert forall|k: int| 0 <= k < held(cells, kind, n).len() implies exists|i: int|
            0 <= i < n && cells[i] == Some(#[trigger] held(cells, kind, n)[k].1) && held(cells, kind, n)[k].0
                == slot_of(kind, i) by {
            if k < rest.len() {
                assert(held(cells, kind, n)[k] == rest[k]);
                let i = choose|i: int| 0 <= i < n - 1 && cells[i] == Some(#[trigger] rest[k].1) && rest[k].0 == slot_of(kind, i);
                assert(cells[i] == Some(held(cells, kind, n)[k].1));
            } else {
                assert(cells[n - 1] is Some);
                assert(cells[n - 1 as int] == Some(held(cells, kind, n)[k].1));
            }
        }
    }
}

/// Every listed item really is at its slot.
pub proof fn lemma_items_at_slots(v: InventoryView, k: int)
    requires
        view_wf(v),
        0 <= k < v.items().len(),
    ensures
        v.item_at(v.items()[k].0) == Some(v.items()[k].1),
{
    lemma_held_entries(v.hands, 0, v.hands.len() as nat);
    lemma_held_entries(v.equipment, 1, v.equipment.len() as nat);
    lemma_held_entries(v.pouch, 2, v.pouch.len() as nat);
    lemma_held_entries(v.backpack, 3, v.backpack.len() as nat);
    let a = held(v.hands, 0, v.hands.len() as nat);
    let b = held(v.equipment, 1, v.equipment.len() as nat);
    let c = held(v.pouch, 2, v.pouch.len() as nat);
    let d = held(v.backpack, 3, v.backpack.len() as nat);
    let e = v.items()[k];
    if k < a.len() {
        assert(e == a[k]);
        let i = choose|i: int| 0 <= i < v.hands.len() && v.hands[i] == Some(#[trigger] a[k].1) && a[k].0 == slot_of(0, i);
    } else if k < a.len() + b.len() {
        assert(e == b[k - a.len()]);
        let i = choose|i: int| 0 <= i < v.equipment.len() && v.equipment[i] == Some(#[trigger] b[k - a.len()].1) && b[k - a.len()].0 == slot_of(1, i);
        lemma_equip_index_round_trip(EquipSlot::spec_from_index(i), i);
    } else if k < a.len() + b.len() + c.len() {
        assert(e == c[k - a.len() - b.len()]);
        let i = choose|i: int| 0 <= i < v.pouch.len() && v.pouch[i] == Some(#[trigger] c[k - a.len() - b.len()].1) && c[k - a.len() - b.len()].0 == slot_of(2, i);
    } else {
        assert(e == d[k - a.len() - b.len() - c.len()]);
        let i = choose|i: int| 0 <= i < v.backpack.len() && v.backpack[i] == Some(#[trigger] d[k - a.len() - b.len() - c.len()].1) && d[k - a.len() - b.len() - c.len()].0 == slot_of(3, i);
    }
}

/// Append every held item of one storage area (kind as in [`slot_of`]).
fn collect_held(cells: &Vec<Option<ItemInstance>>, kind: u8, out: &mut Vec<(SlotRef, ItemInstance)>)
    requires
        kind < 4,
        kind == 1 ==> cells@.len() == 6,
    ensures
        final(out)@ == old(out)@ + held(cells@, kind as int, cells@.len() as nat),
{
    let ghost base = out@;
    let mut i: usize = 0;
    while i < cells.len()
        invariant
            i <= cells@.len(),
            kind < 4,
            kind == 1 ==> cells@.len() == 6,
            out@ == base + held(cells@, kind as int, i as nat),
        decreases cells@.len() - i,
    {
        if let Some(it) = &cells[i] {
            let slot = if kind == 0 {
                SlotRef::Hand(i)
            } else if kind == 1 {
                SlotRef::Equip(slot_at(i))
            } else if kind == 2 {
                SlotRef::Pouch(i)
            } else {
                SlotRef::Backpack(i)
            };
            out.push((slot, it.copy()));
        }
        i = i + 1;
    }
}

fn slot_at(i: usize) -> (r: EquipSlot)
    requires
        i < 6,
    ensures
        r == EquipSlot::spec_from_index(i as int),
{
    let all = EquipSlot::all();
    all[i]
}

/// The weight of each item's known definition, summed in order.
pub open spec fn weight_sum(items: Seq<(SlotRef, ItemInstance)>, defs: Seq<ItemDef>) -> int
    decreases items.len(),
{
    if items.len() == 0 {
        0
    } else {
        weight_sum(items.drop_last(), defs) + match lookup_item(defs, items.last().1.def_id@) {
            Some(d) => d.weight as int,
            None => 0,
        }
    }
}

/// Every running total of the weight sum stays inside `i32`.
pub open spec fn sums_in_range(items: Seq<(SlotRef, ItemInstance)>, defs: Seq<ItemDef>) -> bool {
    forall|k: int|
        0 <= k <= items.len() ==> i32::MIN <= #[trigger] weight_sum(items.take(k), defs)
            <= i32::MAX
}

/// `(stat, delta)` of each effect, in order.
pub open spec fn effect_pairs(effects: Seq<StatEffect>) -> Seq<(StatKind, i32)> {
    effects.map_values(|e: StatEffect| (e.stat, e.delta))
}

/// The effects of the known definitions worn in the first `n` equipment slots.
pub open spec fn equip_effects(equipment: Seq<Option<ItemInstance>>, defs: Seq<ItemDef>, n: nat) -> Seq<
    (StatKind, i32),
>
    decreases n,
{
    if n == 0 {
        Seq::empty()
    } else {
        let rest = equip_effects(equipment, defs, (n - 1) as nat);
        match equipment[n - 1] {
            Some(it) => match lookup_item(defs, it.def_id@) {
                Some(d) => rest + effect_pairs(d.effects@),
                None => rest,
            },
            None => rest,
        }
    }
}

/// The outcome of equipping the item at `from`: the new view, or the refusal
/// message.
pub open spec fn spec_equip(v: InventoryView, from: SlotRef, defs: Seq<ItemDef>) -> Result<
    InventoryView,
    Seq<char>,
> {
    if from is Equip {
        Err("すでに装備している"@)
    } else {
        match v.item_at(from) {
            None => Err("スロットが空だ"@),
            Some(item) => match lookup_item(defs, item.def_id@) {
                None => Err("未知のアイテム '"@ + item.def_id@ + "'"@),
                Some(def) => if def.equip_slots@.len() == 0 {
                    Err(def.name@ + "は装備できない"@)
                } else {
                    let target = SlotRef::Equip(def.equip_slots@[0]);
                    let v1 = v.with_cell(from, None);
                    let previous = v1.item_at(target);
                    let v2 = v1.with_cell(target, Some(item));
                    match previous {
                        Some(p) => Ok(v2.with_cell(from, Some(p))),
                        None => Ok(v2),
                    }
                },
            },
        }
    }
}

/// The outcome of unequipping `slot`: the new view, or the refusal message.
pub open spec fn spec_unequip(v: InventoryView, slot: EquipSlot) -> Result<InventoryView, Seq<char>> {
    let src = SlotRef::Equip(slot);
    match v.item_at(src) {
        None => Err("装備していない"@),
        Some(item) => match v.spec_first_free() {
            None => Err("持ちきれない(空きがない)"@),
            Some(dest) => Ok(v.with_cell(src, None).with_cell(dest, Some(item))),
        },
    }
}

/// Writing a slot twice keeps only the second write.
pub proof fn lemma_with_cell_twice(
    v: InventoryView,
    r: SlotRef,
    a: Option<ItemInstance>,
    b: Option<ItemInstance>,
)
    requires
        v.cell(r) is Some,
    ensures
        v.with_cell(r, a).with_cell(r, b) == v.with_cell(r, b),
{
    let l = v.with_cell(r, a).with_cell(r, b);
    let rr = v.with_cell(r, b);
    assert(l.hands =~= rr.hands);
    assert(l.equipment =~= rr.equipment);
    assert(l.pouch =~= rr.pouch);
    assert(l.backpack =~= rr.backpack);
}

/// The first free slot exists and is empty, and it is a general slot.
pub proof fn lemma_first_free_is_empty(v: InventoryView)
    requires
        view_wf(v),
    ensures
        v.spec_first_free() matches Some(r) ==> v.cell(r) == Some(None::<ItemInstance>)
            && !(r is Equip),
{
    lemma_first_none(v.hands);
    lemma_first_none(v.pouch);
    lemma_first_none(v.backpack);
}

/// Putting an item into an empty slot and taking it back out restores the
/// inventory and returns the same item.
pub proof fn lemma_put_take_round_trip(v: InventoryView, r: SlotRef, item: ItemInstance)
    requires
        v.spec_put(r, item) is Some,
    ensures
        v.spec_put(r, item).unwrap().spec_take(r) == (v, Some(item)),
{
    let v2 = v.spec_put(r, item).unwrap();
    let v3 = v2.spec_take(r).0;
    assert(v3.hands =~= v.hands);
    assert(v3.equipment =~= v.equipment);
    assert(v3.pouch =~= v.pouch);
    assert(v3.backpack =~= v.backpack);
}

/// Taking an item out and putting it back into the same slot restores the
/// inventory.
pub proof fn lemma_take_put_round_trip(v: InventoryView, r: SlotRef)
    requires
        v.item_at(r) is Some,
    ensures
        v.spec_take(r).0.spec_put(r, v.spec_take(r).1.unwrap()) == Some(v),
{
    let (v2, it) = v.spec_take(r);
    let v3 = v2.spec_put(r, it.unwrap()).unwrap();
    assert(v3.hands =~= v.hands);
    assert(v3.equipment =~= v.equipment);
    assert(v3.pouch =~= v.pouch);
    assert(v3.backpack =~= v.backpack);
}

/// A successful pickup stores the item exactly where `first_free` pointed.
pub proof fn lemma_pickup_lands_in_first_free(v: InventoryView, item: ItemInstance)
    requires
        view_wf(v),
        v.spec_first_free() is Some,
    ensures
        v.spec_put(v.spec_first_free().unwrap(), item) matches Some(w) && w.item_at(
            v.spec_first_free().unwrap(),
        ) == Some(item),
{
    lemma_first_free_is_empty(v);
}

/// Equipping an item from a general slot into an empty equipment slot and
/// unequipping that slot again restores the inventory, provided the slot the
/// item came from is the first free one after the equip (for instance the
/// first hand).
pub proof fn lemma_equip_unequip_round_trip(v: InventoryView, from: SlotRef, defs: Seq<ItemDef>)
    requires
        view_wf(v),
        spec_equip(v, from, defs) is Ok,
        ({
            let item = v.item_at(from).unwrap();
            let def = lookup_item(defs, item.def_id@).unwrap();
            &&& v.item_at(SlotRef::Equip(def.equip_slots@[0])) is None
            &&& spec_equip(v, from, defs)->Ok_0.spec_first_free() == Some(from)
        }),
    ensures
        ({
            let item = v.item_at(from).unwrap();
            let def = lookup_item(defs, item.def_id@).unwrap();
            spec_unequip(spec_equip(v, from, defs)->Ok_0, def.equip_slots@[0])
                == Ok::<InventoryView, Seq<char>>(v)
        }),
{
    let item = v.item_at(from).unwrap();
    let def = lookup_item(defs, item.def_id@).unwrap();
    let target = SlotRef::Equip(def.equip_slots@[0]);
    let e = spec_equip(v, from, defs)->Ok_0;
    let u = spec_unequip(e, def.equip_slots@[0])->Ok_0;
    assert(u.hands =~= v.hands);
    assert(u.equipment =~= v.equipment);
    assert(u.pouch =~= v.pouch);
    assert(u.backpack =~= v.backpack);
}

} // verus!
