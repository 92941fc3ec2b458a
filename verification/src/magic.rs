//! Magic: the data model and catalog, the effect of a spell on an ally, scroll
//! learning, potions (liquefying a spell into an empty bottle and drinking
//! it), and the casting rules: who may cast, what it costs, and what each kind
//! of spell does.
use vstd::prelude::*;
use crate::character::{
    ActiveEffect, CharacterState, Party, PartyMember, StatKind, Stats, spec_effective, effective_fits,
    label_text,
};
use crate::ids::{texts, first_duplicate_index};
use crate::item::{
    ItemCatalog, ItemDef, ItemInstance, ItemKind, InventoryView, SlotRef, first_duplicate, first_index_of,
    lemma_first_index_of, lemma_first_index_of_at, lookup_item, lemma_with_cell_twice, lemma_items_at_slots,
};
use crate::rules::HungerRules;
use crate::text::{cat, cat3, cat4, i64_text, same_text, signed_decimal, decimal};

verus! {

/// What a spell does.
#[derive(Clone, Copy, Debug, PartialEq, Eq, Structural)]
pub enum MagicKind {
    /// Change one ability for a while (or for good).
    StatChange(StatKind),
    /// Change HP (and satiety, when hunger is enabled).
    HpChange,
    MpChange,
    /// Bring a downed member back at `ratio_percent`% of max HP.
    Revive { ratio_percent: u8 },
    /// Brighten the party's light: 1 weak, 2 medium, 3 strong.
    Light { strength: u8 },
}

/// A magic definition.
#[derive(Clone, Debug, PartialEq, Eq)]
pub struct MagicDef {
    pub id: String,
    pub name: String,
    pub description: String,
    pub mp_cost: i32,
    /// Magic knowledge needed to learn / cast.
    pub difficulty: i32,
    pub kind: MagicKind,
    /// Change value (attack spells use its magnitude).
    pub value: i32,
    /// Duration in cycles; 0 = permanent.
    pub duration_cycles: u64,
    pub liquefiable: bool,
    /// Light-bullet count; more than 0 marks an attack spell on the enemy ahead.
    pub projectiles: u8,
    /// Short symbol shown in the magic list.
    pub symbol: String,
}

impl MagicDef {
    /// Whether this spell targets the enemy ahead.
    pub fn is_attack(&self) -> (r: bool)
        ensures
            r == (self.projectiles > 0),
    {
        self.projectiles > 0
    }
}

/// Attack-magic reach in tiles.
pub const MAGIC_RANGE: i32 = 8;

pub open spec fn magic_ids(defs: Seq<MagicDef>) -> Seq<Seq<char>> {
    defs.map_values(|d: MagicDef| d.id@)
}

/// The definition with id `id` in `defs`, if any (the first one).
pub open spec fn lookup_magic(defs: Seq<MagicDef>, id: Seq<char>) -> Option<MagicDef> {
    match first_index_of(magic_ids(defs), id) {
        Some(i) => Some(defs[i]),
        None => None,
    }
}

/// All magic definitions, keyed by (distinct) id.
#[derive(Clone, Debug, Default)]
pub struct MagicCatalog {
    defs: Vec<MagicDef>,
}

impl View for MagicCatalog {
    type V = Seq<MagicDef>;

    closed spec fn view(&self) -> Seq<MagicDef> {
        self.defs@
    }
}

/// The ids of `defs`, in order.
pub fn magic_id_list(defs: &Vec<MagicDef>) -> (r: Vec<String>)
    ensures
        texts(r@) == magic_ids(defs@),
{
    let mut r: Vec<String> = Vec::new();
    let mut i: usize = 0;
    while i < defs.len()
        invariant
            i <= defs@.len(),
            r@.len() == i,
            forall|k: int| 0 <= k < i ==> (#[trigger] r@[k])@ == defs@[k].id@,
        decreases defs@.len() - i,
    {
        r.push(defs[i].id.clone());
        i = i + 1;
    }
    assert(texts(r@) =~= magic_ids(defs@));
    r
}

impl MagicCatalog {
    pub open spec fn spec_get(&self, id: Seq<char>) -> Option<MagicDef> {
        lookup_magic(self@, id)
    }

    /// Build from a list, rejecting duplicate ids: the error names the first
    /// definition whose id already occurred.
    pub fn from_defs(defs: Vec<MagicDef>, what: &str) -> (r: Result<MagicCatalog, String>)
        ensures
            match first_duplicate(magic_ids(defs@)) {
                None => r matches Ok(c) && c@ == defs@,
                Some(k) => r matches Err(e) && e@ == what@ + ": duplicate magic id '"@ + defs@[k].id@
                    + "'"@,
            },
    {
        let ids = magic_id_list(&defs);
        proof {
            crate::item::lemma_first_duplicate(magic_ids(defs@));
        }
        match first_duplicate_index(&ids) {
            Some(k) => {
                let msg = cat3(what, ": duplicate magic id '", defs[k].id.as_str());
                Err(cat(msg.as_str(), "'"))
            },
            None => Ok(MagicCatalog { defs }),
        }
    }

    /// The definition with id `id`, if any.
    pub fn get(&self, id: &str) -> (r: Option<&MagicDef>)
        ensures
            r == match self.spec_get(id@) {
                Some(d) => Some(&d),
                None => None,
            },
    {
        let mut i: usize = 0;
        while i < self.defs.len()
            invariant
                i <= self.defs@.len(),
                forall|k: int| 0 <= k < i ==> magic_ids(self.defs@)[k] != id@,
            decreases self.defs@.len() - i,
        {
            if same_text(&self.defs[i].id, id) {
                proof {
                    lemma_first_index_of_at(magic_ids(self.defs@), id@, i as int);
                }
                return Some(&self.defs[i]);
            }
            i = i + 1;
        }
        proof {
            lemma_first_index_of(magic_ids(self.defs@), id@);
        }
        None
    }

    /// All definitions, in authored order.
    pub fn iter(&self) -> (r: &Vec<MagicDef>)
        ensures
            r@ == self@,
    {
        &self.defs
    }
}

pub open spec fn clamp_int(v: int, lo: int, hi: int) -> int {
    if v < lo {
        lo
    } else if v > hi {
        hi
    } else {
        v
    }
}

/// `v` with an explicit sign: `+5`, `+0`, `-3`.
pub open spec fn plus_signed(v: int) -> Seq<char> {
    if v >= 0 {
        seq!['+'] + decimal(v as nat)
    } else {
        signed_decimal(v)
    }
}

/// Whether effect `e` was applied by the magic `id`.
pub open spec fn from_magic(e: ActiveEffect, id: Seq<char>) -> bool {
    e.source matches Some(s) && s@ == id
}

/// The effect a stat-change spell `def` applies.
pub open spec fn spell_effect(def: MagicDef, stat: StatKind) -> ActiveEffect {
    ActiveEffect {
        stat,
        delta: def.value,
        remaining: if def.duration_cycles == 0 {
            None
        } else {
            Some(def.duration_cycles)
        },
        source: Some(def.id),
    }
}

/// The state of member `m` (effective stats `eff`) after the spell `def`
/// takes effect on it: HP (and satiety when hunger is on) or MP move within
/// their bounds, a stat change replaces any earlier effect of the same spell,
/// revive and light spells do nothing here.
pub open spec fn ally_state(m: PartyMember, def: MagicDef, eff: Stats, hunger: HungerRules) -> CharacterState {
    let st = m.state;
    match def.kind {
        MagicKind::HpChange => {
            let cap = if eff.max_hp < 0 { 0 } else { eff.max_hp as int };
            let hp = clamp_int(st.hp + def.value, 0, cap);
            let satiety = if hunger.enabled {
                clamp_int(st.satiety + def.value * hunger.satiety_per_nutrition, 0, hunger.satiety_max as int)
            } else {
                st.satiety as int
            };
            CharacterState { hp: hp as i32, satiety: satiety as i32, down: st.down || hp == 0, ..st }
        },
        MagicKind::MpChange => {
            let cap = if eff.max_mp < 0 { 0 } else { eff.max_mp as int };
            CharacterState { mp: clamp_int(st.mp + def.value, 0, cap) as i32, ..st }
        },
        _ => st,
    }
}

/// The log fragment for the spell `def` taking effect on `name`.
pub open spec fn ally_message(name: Seq<char>, def: MagicDef) -> Seq<char> {
    match def.kind {
        MagicKind::HpChange => if def.value >= 0 {
            name + "の HPが "@ + signed_decimal(def.value as int) + " かいふくした"@
        } else {
            name + "は "@ + signed_decimal(-def.value) + "の ダメージ"@
        },
        MagicKind::MpChange => name + "の MPが "@ + signed_decimal(def.value as int) + " かいふくした"@,
        MagicKind::StatChange(stat) => name + "の "@ + label_text(stat) + "が "@ + plus_signed(
            def.value as int,
        ),
        _ => name + "には こうかが なかった"@,
    }
}

/// The spell's changes stay inside `i32`, and satiety's ceiling is not
/// negative when hunger is on.
pub open spec fn ally_fits(m: PartyMember, def: MagicDef, hunger: HungerRules) -> bool {
    &&& i32::MIN <= m.state.hp + def.value <= i32::MAX
    &&& i32::MIN <= m.state.mp + def.value <= i32::MAX
    &&& hunger.enabled ==> {
        &&& hunger.satiety_max >= 0
        &&& i32::MIN <= def.value * hunger.satiety_per_nutrition <= i32::MAX
        &&& i32::MIN <= m.state.satiety + def.value * hunger.satiety_per_nutrition <= i32::MAX
    }
}

/// `st` is the state of `m` after the spell `def` took effect on it: a stat
/// change drops the spell's earlier effect and adds a fresh one; the other
/// kinds follow [`ally_state`].
pub open spec fn ally_outcome(m: PartyMember, st: CharacterState, def: MagicDef, defs: Seq<ItemDef>, hunger: HungerRules) -> bool {
    match def.kind {
        MagicKind::StatChange(stat) => {
            &&& st == (CharacterState { effects: st.effects, ..m.state })
            &&& st.effects@ == m.state.effects@.filter(|e: ActiveEffect| !from_magic(e, def.id@)).push(
                spell_effect(def, stat),
            )
        },
        _ => st == ally_state(m, def, spec_effective(m, defs), hunger),
    }
}

fn plus_text(v: i32) -> (r: String)
    ensures
        r@ == plus_signed(v as int),
{
    if v >= 0 {
        proof {
            reveal_strlit("+");
        }
        cat("+", crate::text::u64_text(v as u64).as_str())
    } else {
        i64_text(v as i64)
    }
}

/// Apply a non-attack spell to `member` (see [`ally_state`]; a stat change
/// drops the spell's earlier effect and adds a fresh one). Returns the log
/// fragment ([`ally_message`]).
pub fn apply_ally_magic(
    member: &mut PartyMember,
    def: &MagicDef,
    item_catalog: &ItemCatalog,
    hunger: &HungerRules,
) -> (msg: String)
    requires
        old(member).inventory.wf(),
        effective_fits(*old(member), item_catalog@),
        ally_fits(*old(member), *def, *hunger),
    ensures
        final(member).character == old(member).character,
        final(member).inventory == old(member).inventory,
        msg@ == ally_message(old(member).character.first_name@, *def),
        ally_outcome(*old(member), final(member).state, *def, item_catalog@, *hunger),
{
    let tname = member.character.first_name.clone();
    match def.kind {
        MagicKind::HpChange => {
            let eff = member.effective_stats(item_catalog);
            let max_hp = eff.get(StatKind::MaxHp);
            let cap = if max_hp < 0 {
                0
            } else {
                max_hp
            };
            let raw = member.state.hp + def.value;
            member.state.hp = if raw < 0 {
                0
            } else if raw > cap {
                cap
            } else {
                raw
            };
            if hunger.enabled {
                let sraw = member.state.satiety + def.value * hunger.satiety_per_nutrition;
                member.state.satiety = if sraw < 0 {
                    0
                } else if sraw > hunger.satiety_max {
                    hunger.satiety_max
                } else {
                    sraw
                };
            }
            if member.state.hp == 0 {
                member.state.down = true;
            }
            if def.value >= 0 {
                cat3(tname.as_str(), "の HPが ", i64_text(def.value as i64).as_str())
                    .concat(" かいふくした")
            } else {
                cat3(tname.as_str(), "は ", i64_text(-(def.value as i64)).as_str()).concat("の ダメージ")
            }
        },
        MagicKind::MpChange => {
            let eff = member.effective_stats(item_catalog);
            let max_mp = eff.get(StatKind::MaxMp);
            let cap = if max_mp < 0 {
                0
            } else {
                max_mp
            };
            let raw = member.state.mp + def.value;
            member.state.mp = if raw < 0 {
                0
            } else if raw > cap {
                cap
            } else {
                raw
            };
            cat3(tname.as_str(), "の MPが ", i64_text(def.value as i64).as_str()).concat(" かいふくした")
        },
        MagicKind::StatChange(stat) => {
            let ghost before = member.state.effects@;
            let ghost st0 = member.state;
            let mut kept: Vec<ActiveEffect> = Vec::new();
            let mut i: usize = 0;
            while i < member.state.effects.len()
                invariant
                    i <= before.len(),
                    member.state == st0,
                    before == st0.effects@,
                    kept@ == before.take(i as int).filter(|e: ActiveEffect| !from_magic(e, def.id@)),
                decreases before.len() - i,
            {
                let e = &member.state.effects[i];
                let mine = match &e.source {
                    Some(s) => *s == def.id,
                    None => false,
                };
                assert(before.take(i as int + 1).drop_last() =~= before.take(i as int));
                reveal_with_fuel(Seq::filter, 1);
                if !mine {
                    kept.push(
                        ActiveEffect {
                            stat: e.stat,
                            delta: e.delta,
                            remaining: e.remaining,
                            source: match &e.source {
                                Some(s) => Some(s.clone()),
                                None => None,
                            },
                        },
                    );
                }
                i = i + 1;
            }
            assert(before.take(before.len() as int) =~= before);
            kept.push(
                ActiveEffect {
                    stat,
                    delta: def.value,
                    remaining: if def.duration_cycles == 0 {
                        None
                    } else {
                        Some(def.duration_cycles)
                    },
                    source: Some(def.id.clone()),
                },
            );
            member.state.effects = kept;
            cat4(tname.as_str(), "の ", stat.label(), "が ").concat(plus_text(def.value).as_str())
        },
        _ => cat(tname.as_str(), "には こうかが なかった"),
    }
}

/// Whether `id` is among the member's learned magic.
pub open spec fn knows(m: PartyMember, id: Seq<char>) -> bool {
    exists|i: int| 0 <= i < m.state.learned@.len() && (#[trigger] m.state.learned@[i])@ == id
}

fn knows_magic(m: &PartyMember, id: &String) -> (r: bool)
    ensures
        r == knows(*m, id@),
{
    crate::event::contains_id(&m.state.learned, id)
}

/// What reading `scroll` does: member `m0` becomes `m1` and the answer is
/// `r` (see [`learn_scroll`]).
pub open spec fn learn_outcome(
    m0: PartyMember,
    m1: PartyMember,
    r: Result<String, String>,
    scroll: ItemDef,
    magics: MagicCatalog,
    defs: Seq<ItemDef>,
) -> bool {
    &&& m1.character == m0.character
    &&& m1.inventory == m0.inventory
    &&& match scroll.teaches {
        None => r matches Err(e) && e@ == "この巻物には 魔法が 書かれていない"@ && m1 == m0,
        Some(id) => match magics.spec_get(id@) {
            None => r matches Err(e) && e@ == "巻物の魔法が 見つからない"@ && m1 == m0,
            Some(def) => if knows(m0, id@) {
                r matches Err(e) && e@ == "すでに おぼえている"@ && m1 == m0
            } else if spec_effective(m0, defs).magic_knowledge < def.difficulty {
                r matches Err(e) && e@ == "むずかしくて 理解できない"@ && m1 == m0
            } else {
                &&& r matches Ok(msg) && msg@ == m0.character.first_name@ + "は 『"@ + def.name@
                    + "』を おぼえた!"@
                &&& m1.state == (CharacterState {
                    learned: m1.state.learned,
                    ..m0.state
                })
                &&& m1.state.learned@ == m0.state.learned@.push(id)
            },
        },
    }
}

/// Try to learn the magic a scroll teaches. Refused when the scroll teaches
/// nothing, its magic is unknown, the member knows it already, or the
/// member's (effective) magic knowledge is below its difficulty; otherwise
/// the magic joins the learned list.
pub fn learn_scroll(member: &mut PartyMember, scroll: &ItemDef, magics: &MagicCatalog, item_catalog: &ItemCatalog) -> (r:
    Result<String, String>)
    requires
        old(member).inventory.wf(),
        effective_fits(*old(member), item_catalog@),
    ensures
        learn_outcome(*old(member), *final(member), r, *scroll, *magics, item_catalog@),
{
    let magic_id = match &scroll.teaches {
        None => {
            return Err(String::from_str("この巻物には 魔法が 書かれていない"));
        },
        Some(id) => id,
    };
    let def = match magics.get(magic_id.as_str()) {
        None => {
            return Err(String::from_str("巻物の魔法が 見つからない"));
        },
        Some(d) => d,
    };
    if knows_magic(member, magic_id) {
        return Err(String::from_str("すでに おぼえている"));
    }
    let knowledge = member.effective_stats(item_catalog).get(StatKind::MagicKnowledge);
    if knowledge < def.difficulty {
        return Err(String::from_str("むずかしくて 理解できない"));
    }
    member.state.learned.push(magic_id.clone());
    let head = cat3(member.character.first_name.as_str(), "は 『", def.name.as_str());
    Ok(cat(head.as_str(), "』を おぼえた!"))
}

/// An empty bottle: an item holding no potion whose definition is an empty
/// container.
pub open spec fn empty_bottle(it: ItemInstance, defs: Seq<ItemDef>) -> bool {
    it.potion_of is None && (lookup_item(defs, it.def_id@) matches Some(d) && d.kind == ItemKind::EmptyContainer)
}

/// The first empty bottle among `items` from index `k` on.
pub open spec fn first_bottle(items: Seq<(SlotRef, ItemInstance)>, defs: Seq<ItemDef>, k: int) -> Option<int>
    decreases items.len() - k,
    when 0 <= k
{
    if k >= items.len() {
        None
    } else if empty_bottle(items[k].1, defs) {
        Some(k)
    } else {
        first_bottle(items, defs, k + 1)
    }
}

proof fn lemma_first_bottle_range(items: Seq<(SlotRef, ItemInstance)>, defs: Seq<ItemDef>, k: int)
    requires
        0 <= k,
    ensures
        first_bottle(items, defs, k) matches Some(j) ==> k <= j < items.len() && empty_bottle(items[j].1, defs),
    decreases items.len() - k,
{
    if k < items.len() {
        lemma_first_bottle_range(items, defs, k + 1);
    }
}

/// Liquefy the spell `def` into the first empty bottle the member carries,
/// paying its MP cost (not below 0). Refused when the spell cannot be
/// liquefied, MP falls short, or there is no empty bottle.
pub fn liquefy(member: &mut PartyMember, def: &MagicDef, item_catalog: &ItemCatalog) -> (r: Result<String, String>)
    requires
        old(member).inventory.wf(),
        old(member).state.mp - def.mp_cost <= i32::MAX,
    ensures
        final(member).character == old(member).character,
        final(member).inventory.wf(),
        ({
            let v = old(member).inventory@;
            let items = v.items();
            if !def.liquefiable {
                r matches Err(e) && e@ == def.name@ + "は 液体化できない"@ && *final(member) == *old(member)
            } else if old(member).state.mp < def.mp_cost {
                r matches Err(e) && e@ == "MPが たりない"@ && *final(member) == *old(member)
            } else {
                match first_bottle(items, item_catalog@, 0) {
                    None => r matches Err(e) && e@ == "からのビンを もっていない"@ && *final(member) == *old(member),
                    Some(k) => {
                        let slot = items[k].0;
                        let filled = ItemInstance { potion_of: Some(def.id), ..items[k].1 };
                        &&& r matches Ok(msg) && msg@ == old(member).character.first_name@ + "は "@ + def.name@
                            + "を ビンに 詰めた"@
                        &&& final(member).state == (CharacterState {
                            mp: (old(member).state.mp - def.mp_cost) as i32,
                            ..old(member).state
                        })
                        &&& final(member).inventory@ == v.with_cell(slot, Some(filled))
                    },
                }
            }
        }),
{
    if !def.liquefiable {
        return Err(cat(def.name.as_str(), "は 液体化できない"));
    }
    if member.state.mp < def.mp_cost {
        return Err(String::from_str("MPが たりない"));
    }
    let ghost v = member.inventory@;
    let items = member.inventory.iter();
    let mut k: usize = 0;
    let mut found: Option<usize> = None;
    while k < items.len()
        invariant_except_break
            found is None,
        invariant
            items@ == v.items(),
            k <= items@.len(),
            first_bottle(items@, item_catalog@, 0) == first_bottle(items@, item_catalog@, k as int),
        ensures
            (found is None && k >= items@.len()) || (found == Some(k) && k < items@.len() && empty_bottle(
                items@[k as int].1,
                item_catalog@,
            )),
        decreases items@.len() - k,
    {
        let it = &items[k].1;
        let bottle = it.potion_of.is_none() && match item_catalog.get(it.def_id.as_str()) {
            Some(d) => d.kind == ItemKind::EmptyContainer,
            None => false,
        };
        if bottle {
            found = Some(k);
            break;
        }
        k = k + 1;
    }
    let k = match found {
        None => {
            return Err(String::from_str("からのビンを もっていない"));
        },
        Some(k) => k,
    };
    proof {
        lemma_first_bottle_range(items@, item_catalog@, 0);
        lemma_items_at_slots(v, k as int);
    }
    let slot = items[k].0;
    member.state.mp = member.state.mp - def.mp_cost;
    let taken = member.inventory.take(slot);
    match taken {
        Some(mut it) => {
            it.potion_of = Some(def.id.clone());
            proof {
                lemma_with_cell_twice(v, slot, None, Some(it));
            }
            let _ = member.inventory.put(slot, it);
        },
        None => {},
    }
    let head = cat3(member.character.first_name.as_str(), "は ", def.name.as_str());
    Ok(cat(head.as_str(), "を ビンに 詰めた"))
}

/// The spell held as a potion at `slot`, if any.
pub open spec fn potion_at(v: InventoryView, slot: SlotRef) -> Option<String> {
    match v.item_at(slot) {
        Some(it) => it.potion_of,
        None => None,
    }
}

/// What drinking the potion at `slot` does: member `m0` becomes `m1` and the
/// answer is `r` (see [`drink_potion`]).
pub open spec fn drink_outcome(
    m0: PartyMember,
    m1: PartyMember,
    r: Result<String, String>,
    slot: SlotRef,
    magics: MagicCatalog,
    defs: Seq<ItemDef>,
    hunger: HungerRules,
) -> bool {
    &&& m1.character == m0.character
    &&& m1.inventory.wf()
    &&& match potion_at(m0.inventory@, slot) {
        None => r matches Err(e) && e@ == "それは 秘薬では ない"@ && m1 == m0,
        Some(id) => match magics.spec_get(id@) {
            None => r matches Err(e) && e@ == "秘薬の魔法が 見つからない"@ && m1 == m0,
            Some(def) => {
                let it = m0.inventory@.item_at(slot)->0;
                &&& r matches Ok(msg) && msg@ == m0.character.first_name@ + "は 秘薬を 飲んだ。"@
                    + ally_message(m0.character.first_name@, def)
                &&& ally_outcome(m0, m1.state, def, defs, hunger)
                &&& m1.inventory@ == m0.inventory@.with_cell(
                    slot,
                    Some(ItemInstance { potion_of: None, ..it }),
                )
            },
        },
    }
}

/// Drink the potion at `slot`: its spell takes effect on the drinker (see
/// [`apply_ally_magic`]; no MP is paid) and the bottle is empty again.
/// Refused when the slot holds no potion or its spell is unknown.
pub fn drink_potion(
    member: &mut PartyMember,
    slot: SlotRef,
    magics: &MagicCatalog,
    item_catalog: &ItemCatalog,
    hunger: &HungerRules,
) -> (r: Result<String, String>)
    requires
        old(member).inventory.wf(),
        effective_fits(*old(member), item_catalog@),
        potion_at(old(member).inventory@, slot) matches Some(id) ==> (magics.spec_get(id@) matches Some(d)
            ==> ally_fits(*old(member), d, *hunger)),
    ensures
        drink_outcome(*old(member), *final(member), r, slot, *magics, item_catalog@, *hunger),
{
    let magic_id = match member.inventory.get(slot) {
        Some(it) => match &it.potion_of {
            Some(id) => id.clone(),
            None => {
                return Err(String::from_str("それは 秘薬では ない"));
            },
        },
        None => {
            return Err(String::from_str("それは 秘薬では ない"));
        },
    };
    let def = match magics.get(magic_id.as_str()) {
        None => {
            return Err(String::from_str("秘薬の魔法が 見つからない"));
        },
        Some(d) => d,
    };
    let ghost v = member.inventory@;
    let msg = apply_ally_magic(member, def, item_catalog, hunger);
    let taken = member.inventory.take(slot);
    match taken {
        Some(mut it) => {
            it.potion_of = None;
            proof {
                lemma_with_cell_twice(v, slot, None, Some(it));
            }
            let _ = member.inventory.put(slot, it);
        },
        None => {},
    }
    let head = cat(member.character.first_name.as_str(), "は 秘薬を 飲んだ。");
    Ok(cat(head.as_str(), msg.as_str()))
}

/// Who a cast is aimed at. Attack spells aim at the enemy ahead regardless.
#[derive(Clone, Copy, PartialEq, Eq, Debug, Structural)]
pub enum CastTarget {
    /// The caster.
    Caster,
    /// A specific party slot.
    Member(usize),
    /// The enemy directly ahead.
    FrontEnemy,
    /// The first downed member.
    DownedAuto,
}

/// Whether member `c` may cast `def`: it knows the spell, its effective magic
/// knowledge reaches the difficulty, and it has the MP. The refusal message
/// otherwise.
pub open spec fn cast_refusal(m: PartyMember, def: MagicDef, defs: Seq<ItemDef>) -> Option<Seq<char>> {
    if !knows(m, def.id@) {
        Some(m.character.first_name@ + "は その魔法を おぼえていない"@)
    } else if spec_effective(m, defs).magic_knowledge < def.difficulty {
        Some("むずかしくて となえられない"@)
    } else if m.state.mp < def.mp_cost {
        Some("MPが たりない"@)
    } else {
        None
    }
}

/// Check whether member `m` may cast `def` (see [`cast_refusal`]).
pub fn cast_check(m: &PartyMember, def: &MagicDef, item_catalog: &ItemCatalog) -> (r: Result<(), String>)
    requires
        m.inventory.wf(),
        effective_fits(*m, item_catalog@),
    ensures
        match cast_refusal(*m, *def, item_catalog@) {
            None => r is Ok,
            Some(msg) => r matches Err(e) && e@ == msg,
        },
{
    if !knows_magic(m, &def.id) {
        return Err(cat(m.character.first_name.as_str(), "は その魔法を おぼえていない"));
    }
    if m.effective_stats(item_catalog).get(StatKind::MagicKnowledge) < def.difficulty {
        return Err(String::from_str("むずかしくて となえられない"));
    }
    if m.state.mp < def.mp_cost {
        return Err(String::from_str("MPが たりない"));
    }
    Ok(())
}

/// The index of the first downed member, if any.
pub open spec fn first_downed(ms: Seq<PartyMember>, k: int) -> Option<int>
    decreases ms.len() - k,
    when 0 <= k
{
    if k >= ms.len() {
        None
    } else if ms[k].state.down {
        Some(k)
    } else {
        first_downed(ms, k + 1)
    }
}

proof fn lemma_first_downed(ms: Seq<PartyMember>, k: int)
    requires
        0 <= k,
    ensures
        first_downed(ms, k) matches Some(j) ==> k <= j < ms.len() && ms[j].state.down,
    decreases ms.len() - k,
{
    if k < ms.len() {
        lemma_first_downed(ms, k + 1);
    }
}

pub fn find_downed(party: &Party) -> (r: Option<usize>)
    ensures
        r == match first_downed(party.members@, 0) {
            Some(j) => Some(j as usize),
            None => None,
        },
{
    let mut k: usize = 0;
    while k < party.members.len()
        invariant
            k <= party.members@.len(),
            first_downed(party.members@, 0) == first_downed(party.members@, k as int),
        decreases party.members@.len() - k,
    {
        if party.members[k].state.down {
            return Some(k);
        }
        k = k + 1;
    }
    None
}

/// The member a revive spell goes to: the chosen member when it is down,
/// otherwise the first downed member.
pub open spec fn revive_target(ms: Seq<PartyMember>, target: CastTarget) -> Option<int> {
    match target {
        CastTarget::Member(i) => if i < ms.len() && ms[i as int].state.down {
            Some(i as int)
        } else {
            first_downed(ms, 0)
        },
        _ => first_downed(ms, 0),
    }
}

/// The member an ally spell goes to: the chosen member, the caster, or the
/// first downed member (the caster when nobody is down).
pub open spec fn ally_target(ms: Seq<PartyMember>, caster: usize, target: CastTarget) -> int {
    match target {
        CastTarget::Member(i) => i as int,
        CastTarget::DownedAuto => match first_downed(ms, 0) {
            Some(j) => j,
            None => caster as int,
        },
        _ => caster as int,
    }
}

/// HP a revive at `ratio` percent gives with max HP `max_hp` (at least 1).
pub open spec fn revive_hp(max_hp: int, ratio: int) -> int {
    let m = if max_hp < 1 { 1 } else { max_hp };
    clamp_int(crate::combat::tdiv(m * ratio, 100), 1, m)
}

/// Member `m` after paying `cost` MP (not below 0).
pub open spec fn charged(m: PartyMember, cost: int) -> PartyMember {
    let mp = if m.state.mp - cost < 0 { 0 } else { m.state.mp - cost };
    PartyMember { state: CharacterState { mp: mp as i32, ..m.state }, ..m }
}

/// What a cast produced: the log lines, whether the spell went off, and the
/// light strength a lighting spell applies.
#[derive(Clone, Debug, PartialEq, Eq)]
pub struct CastReport {
    pub lines: Vec<String>,
    pub cast: bool,
    pub light: Option<u8>,
}

/// The line announcing member `cname` casting `def`.
pub open spec fn cast_line(cname: Seq<char>, def: MagicDef) -> Seq<char> {
    cname + "は 『"@ + def.name@ + "』を となえた! "@
}

pub fn charge_mp(party: &mut Party, caster: usize, cost: i32)
    requires
        caster < old(party).members@.len(),
        i32::MIN <= old(party).members@[caster as int].state.mp - cost <= i32::MAX,
    ensures
        final(party).members@ == old(party).members@.update(
            caster as int,
            charged(old(party).members@[caster as int], cost as int),
        ),
{
    let mut m = party.members.remove(caster);
    let raw = m.state.mp - cost;
    m.state.mp = if raw < 0 {
        0
    } else {
        raw
    };
    party.members.insert(caster, m);
    assert(party.members@ =~= old(party).members@.update(
        caster as int,
        charged(old(party).members@[caster as int], cost as int),
    ));
}

/// The party's members can all compute their effective stats.
pub open spec fn members_computable(ms: Seq<PartyMember>, defs: Seq<ItemDef>) -> bool {
    forall|i: int| 0 <= i < ms.len() ==> (#[trigger] ms[i]).inventory.wf() && effective_fits(ms[i], defs)
}


/// The outcome of a revive spell at `ratio` percent cast by `caster` (who may
/// cast it) on a party `ms`: `lines` logged, `cast` whether it went off,
/// `after` the members afterwards.
pub open spec fn revive_result(
    ms: Seq<PartyMember>,
    caster: usize,
    def: MagicDef,
    ratio: u8,
    target: CastTarget,
    defs: Seq<ItemDef>,
    lines: Seq<Seq<char>>,
    cast: bool,
    after: Seq<PartyMember>,
) -> bool {
    let c = ms[caster as int];
    let ms1 = ms.update(caster as int, charged(c, def.mp_cost as int));
    match revive_target(ms, target) {
        None => lines == seq!["たおれている仲間はいない"@] && !cast && after == ms,
        Some(t) => {
            let hp = revive_hp(spec_effective(ms1[t], defs).max_hp as int, ratio as int);
            &&& lines == seq![cast_line(c.character.first_name@, def) + ms[t].character.first_name@ + "は よみがえった!"@]
            &&& cast
            &&& after == ms1.update(
                t,
                PartyMember { state: CharacterState { down: false, hp: hp as i32, ..ms1[t].state }, ..ms1[t] },
            )
        },
    }
}

/// The outcome of an ally spell cast by `caster` (who may cast it) on a
/// party `ms` (see [`revive_result`] for the parts).
pub open spec fn ally_result(
    ms: Seq<PartyMember>,
    caster: usize,
    def: MagicDef,
    target: CastTarget,
    defs: Seq<ItemDef>,
    hunger: HungerRules,
    lines: Seq<Seq<char>>,
    cast: bool,
    after: Seq<PartyMember>,
) -> bool {
    let c = ms[caster as int];
    let ms1 = ms.update(caster as int, charged(c, def.mp_cost as int));
    let t = ally_target(ms, caster, target);
    if t >= ms.len() {
        lines.len() == 0 && !cast && after == ms
    } else {
        &&& lines == seq![cast_line(c.character.first_name@, def) + ally_message(ms[t].character.first_name@, def)]
        &&& cast
        &&& after.len() == ms.len()
        &&& forall|i: int| 0 <= i < ms.len() && i != t ==> #[trigger] after[i] == ms1[i]
        &&& after[t].character == ms1[t].character
        &&& after[t].inventory == ms1[t].inventory
        &&& ally_outcome(ms1[t], after[t].state, def, defs, hunger)
    }
}

/// Bring member `t` back: standing, with [`revive_hp`] of its effective max
/// HP. Returns its name.
fn revive_member(party: &mut Party, t: usize, ratio: u8, item_catalog: &ItemCatalog) -> (tn: String)
    requires
        t < old(party).members@.len(),
        old(party).members@[t as int].inventory.wf(),
        effective_fits(old(party).members@[t as int], item_catalog@),
        spec_effective(old(party).members@[t as int], item_catalog@).max_hp * ratio <= i32::MAX,
    ensures
        tn@ == old(party).members@[t as int].character.first_name@,
        ({
            let m = old(party).members@[t as int];
            let hp = revive_hp(spec_effective(m, item_catalog@).max_hp as int, ratio as int);
            final(party).members@ == old(party).members@.update(
                t as int,
                PartyMember { state: CharacterState { down: false, hp: hp as i32, ..m.state }, ..m },
            )
        }),
{
    let ghost ms = party.members@;
    let eff_max = party.members[t].effective_stats(item_catalog).get(StatKind::MaxHp);
    let m = if eff_max < 1 {
        1
    } else {
        eff_max
    };
    assert(m * ratio <= i32::MAX) by (nonlinear_arith)
        requires
            m == (if eff_max < 1 { 1 } else { eff_max as int }),
            eff_max * ratio <= i32::MAX,
            0 <= ratio,
    ;
    assert(0 <= m * ratio) by (nonlinear_arith)
        requires
            1 <= m,
            0 <= ratio,
    ;
    let raw = m * (ratio as i32) / 100;
    let hp = if raw < 1 {
        1
    } else if raw > m {
        m
    } else {
        raw
    };
    let mut tm = party.members.remove(t);
    tm.state.down = false;
    tm.state.hp = hp;
    let tn = tm.character.first_name.clone();
    party.members.insert(t, tm);
    assert(party.members@ =~= ms.update(
        t as int,
        PartyMember { state: CharacterState { down: false, hp: hp, ..ms[t as int].state }, ..ms[t as int] },
    ));
    tn
}

#[verifier::rlimit(40)]
fn revive_cast(
    party: &mut Party,
    caster: usize,
    def: &MagicDef,
    ratio: u8,
    target: CastTarget,
    item_catalog: &ItemCatalog,
) -> (r: CastReport)
    requires
        caster < old(party).members@.len(),
        members_computable(old(party).members@, item_catalog@),
        i32::MIN <= old(party).members@[caster as int].state.mp - def.mp_cost <= i32::MAX,
        forall|i: int|
            0 <= i < old(party).members@.len() ==> spec_effective(#[trigger] old(party).members@[i], item_catalog@).max_hp
                * ratio <= i32::MAX,
    ensures
        revive_result(old(party).members@, caster, *def, ratio, target, item_catalog@,
            r.lines@.map_values(|l: String| l@), r.cast, final(party).members@),
        r.light is None,
{
    let ghost ms = party.members@;
    proof {
        lemma_first_downed(ms, 0);
    }
    let mut lines: Vec<String> = Vec::new();
    let n = party.members.len();
    let cname = party.members[caster].character.first_name.clone();
    let t = match target {
        CastTarget::Member(i) => {
            if i < party.members.len() && party.members[i].state.down {
                Some(i)
            } else {
                find_downed(party)
            }
        },
        _ => find_downed(party),
    };
    assert(match revive_target(ms, target) {
        Some(j) => t == Some(j as usize) && 0 <= j < ms.len(),
        None => t is None,
    });
    let t = match t {
        None => {
            lines.push(String::from_str("たおれている仲間はいない"));
            assert(lines@.map_values(|l: String| l@) =~= seq!["たおれている仲間はいない"@]);
            return CastReport { lines, cast: false, light: None };
        },
        Some(t) => t,
    };
    charge_mp(party, caster, def.mp_cost);
    let ghost ms1 = party.members@;
    assert(ms1[t as int].inventory == ms[t as int].inventory);
    assert(spec_effective(ms1[t as int], item_catalog@) == spec_effective(ms[t as int], item_catalog@));
    let tn = revive_member(party, t, ratio, item_catalog);
    let head = cat4(cname.as_str(), "は 『", def.name.as_str(), "』を となえた! ");
    lines.push(cat3(head.as_str(), tn.as_str(), "は よみがえった!"));
    assert(lines@.map_values(|l: String| l@) =~= seq![cast_line(cname@, *def) + tn@ + "は よみがえった!"@]);
    CastReport { lines, cast: true, light: None }
}

fn ally_cast(
    party: &mut Party,
    caster: usize,
    def: &MagicDef,
    target: CastTarget,
    item_catalog: &ItemCatalog,
    hunger: &HungerRules,
) -> (r: CastReport)
    requires
        caster < old(party).members@.len(),
        members_computable(old(party).members@, item_catalog@),
        i32::MIN <= old(party).members@[caster as int].state.mp - def.mp_cost <= i32::MAX,
        forall|i: int|
            0 <= i < old(party).members@.len() ==> ally_fits(
                #[trigger] old(party).members@.update(
                    caster as int,
                    charged(old(party).members@[caster as int], def.mp_cost as int),
                )[i],
                *def,
                *hunger,
            ),
    ensures
        ally_result(old(party).members@, caster, *def, target, item_catalog@, *hunger,
            r.lines@.map_values(|l: String| l@), r.cast, final(party).members@),
        r.light is None,
{
    let ghost ms = party.members@;
    proof {
        lemma_first_downed(ms, 0);
    }
    let mut lines: Vec<String> = Vec::new();
    let cname = party.members[caster].character.first_name.clone();
    let t = match target {
        CastTarget::Member(i) => i,
        CastTarget::DownedAuto => match find_downed(party) {
            Some(j) => j,
            None => caster,
        },
        _ => caster,
    };
    if t >= party.members.len() {
        assert(lines@.map_values(|l: String| l@) =~= Seq::<Seq<char>>::empty());
        return CastReport { lines, cast: false, light: None };
    }
    let tname = party.members[t].character.first_name.clone();
    charge_mp(party, caster, def.mp_cost);
    let ghost ms1 = party.members@;
    let mut tm = party.members.remove(t);
    assert(tm == ms1[t as int]);
    assert(ally_fits(ms1[t as int], *def, *hunger));
    assert(ms[t as int].inventory.wf() && effective_fits(ms[t as int], item_catalog@));
    let msg = apply_ally_magic(&mut tm, def, item_catalog, hunger);
    party.members.insert(t, tm);
    let head = cat4(cname.as_str(), "は 『", def.name.as_str(), "』を となえた! ");
    lines.push(cat(head.as_str(), msg.as_str()));
    assert(lines@.map_values(|l: String| l@) =~= seq![cast_line(cname@, *def) + ally_message(tname@, *def)]);
    CastReport { lines, cast: true, light: None }
}

/// A non-attack spell `def` cast by member `caster` of `ms` at `target` took
/// the party to `ms1`, logged `lines`, went off (`cast`) or not, and gave the
/// light strength `light` (see [`cast_spell`]).
pub open spec fn spell_cast_result(
    ms: Seq<PartyMember>,
    ms1: Seq<PartyMember>,
    caster: usize,
    def: MagicDef,
    target: CastTarget,
    items: Seq<ItemDef>,
    hunger: HungerRules,
    lines: Seq<Seq<char>>,
    cast: bool,
    light: Option<u8>,
) -> bool {
    let c = ms[caster as int];
    match cast_refusal(c, def, items) {
        Some(why) => lines == seq![why] && !cast && light is None && ms1 == ms,
        None => match def.kind {
            MagicKind::Light { strength } => {
                &&& lines == seq!["あたりが あかるくなった"@]
                &&& cast && light == Some(strength)
                &&& ms1 == ms.update(caster as int, charged(c, def.mp_cost as int))
            },
            MagicKind::Revive { ratio_percent } => light is None && revive_result(
                ms, caster, def, ratio_percent, target, items, lines, cast, ms1),
            _ => light is None && ally_result(
                ms, caster, def, target, items, hunger, lines, cast, ms1),
        },
    }
}

/// Cast the non-attack spell `def` from member `caster` at `target`. A
/// refused cast ([`cast_refusal`]) only logs why. Otherwise a lighting spell
/// costs its MP and brightens the light; a revive spell goes as
/// [`revive_result`] says, the other kinds as [`ally_result`] says.
pub fn cast_spell(
    party: &mut Party,
    caster: usize,
    def: &MagicDef,
    target: CastTarget,
    item_catalog: &ItemCatalog,
    hunger: &HungerRules,
) -> (r: CastReport)
    requires
        caster < old(party).members@.len(),
        def.projectiles == 0,
        members_computable(old(party).members@, item_catalog@),
        i32::MIN <= old(party).members@[caster as int].state.mp - def.mp_cost <= i32::MAX,
        forall|i: int|
            0 <= i < old(party).members@.len() ==> ally_fits(
                #[trigger] old(party).members@.update(
                    caster as int,
                    charged(old(party).members@[caster as int], def.mp_cost as int),
                )[i],
                *def,
                *hunger,
            ),
        def.kind matches MagicKind::Revive { ratio_percent } ==> forall|i: int|
            0 <= i < old(party).members@.len() ==> spec_effective(#[trigger] old(party).members@[i], item_catalog@).max_hp
                * ratio_percent <= i32::MAX,
    ensures
        spell_cast_result(
            old(party).members@,
            final(party).members@,
            caster,
            *def,
            target,
            item_catalog@,
            *hunger,
            r.lines@.map_values(|l: String| l@),
            r.cast,
            r.light,
        ),
{
    let mut lines: Vec<String> = Vec::new();
    assert(party.members@[caster as int].inventory.wf());
    match cast_check(&party.members[caster], def, item_catalog) {
        Err(why) => {
            lines.push(why);
            assert(lines@.map_values(|l: String| l@) =~= seq![why@]);
            return CastReport { lines, cast: false, light: None };
        },
        Ok(()) => {},
    }
    match def.kind {
        MagicKind::Light { strength } => {
            charge_mp(party, caster, def.mp_cost);
            lines.push(String::from_str("あたりが あかるくなった"));
            assert(lines@.map_values(|l: String| l@) =~= seq!["あたりが あかるくなった"@]);
            CastReport { lines, cast: true, light: Some(strength) }
        },
        MagicKind::Revive { ratio_percent } => revive_cast(party, caster, def, ratio_percent, target, item_catalog),
        _ => ally_cast(party, caster, def, target, item_catalog, hunger),
    }
}

} // verus!
