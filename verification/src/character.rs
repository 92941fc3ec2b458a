//! Character data model: the authored definition (`Character`) and its mutable
//! play state (`CharacterState`), ability values, growth, and the party.
use vstd::prelude::*;
use crate::item::{
    equip_effects, sums_in_range, weight_sum, Inventory, ItemCatalog, ItemDef, StatEffect,
};
use crate::rules::HungerRules;
use crate::text::{cat, cat3, i64_text, signed_decimal};

verus! {

/// Identifies one ability field of [`Stats`].
#[derive(Clone, Copy, PartialEq, Eq, Debug, Structural)]
pub enum StatKind {
    MaxHp,
    MaxMp,
    Attack,
    Defense,
    Agility,
    Throwing,
    Carrying,
    LungCapacity,
    HeatResist,
    PoisonResist,
    MagicKnowledge,
    Concentration,
    Appraisal,
    Stealing,
    Bite,
}

/// The short Japanese label of a stat.
pub open spec fn label_text(k: StatKind) -> Seq<char> {
    match k {
        StatKind::MaxHp => "最大HP"@,
        StatKind::MaxMp => "最大MP"@,
        StatKind::Attack => "こうげき"@,
        StatKind::Defense => "ぼうぎょ"@,
        StatKind::Agility => "すばやさ"@,
        StatKind::Throwing => "とおなげ"@,
        StatKind::Carrying => "うんぱん"@,
        StatKind::LungCapacity => "はいかつりょう"@,
        StatKind::HeatResist => "たいねつ"@,
        StatKind::PoisonResist => "たいどく"@,
        StatKind::MagicKnowledge => "まほうちしき"@,
        StatKind::Concentration => "しゅうちゅう"@,
        StatKind::Appraisal => "かんてい"@,
        StatKind::Stealing => "ぬすみ"@,
        StatKind::Bite => "はのつよさ"@,
    }
}

impl StatKind {
    /// Short Japanese label.
    pub fn label(self) -> (r: &'static str)
        ensures
            r@ == label_text(self),
    {
        match self {
            StatKind::MaxHp => "最大HP",
            StatKind::MaxMp => "最大MP",
            StatKind::Attack => "こうげき",
            StatKind::Defense => "ぼうぎょ",
            StatKind::Agility => "すばやさ",
            StatKind::Throwing => "とおなげ",
            StatKind::Carrying => "うんぱん",
            StatKind::LungCapacity => "はいかつりょう",
            StatKind::HeatResist => "たいねつ",
            StatKind::PoisonResist => "たいどく",
            StatKind::MagicKnowledge => "まほうちしき",
            StatKind::Concentration => "しゅうちゅう",
            StatKind::Appraisal => "かんてい",
            StatKind::Stealing => "ぬすみ",
            StatKind::Bite => "はのつよさ",
        }
    }
}

/// Ability values.
#[derive(Clone, Debug, PartialEq, Eq, Structural)]
pub struct Stats {
    pub level: u32,
    pub max_hp: i32,
    pub max_mp: i32,
    pub attack: i32,
    pub defense: i32,
    pub agility: i32,
    pub throwing: i32,
    pub carrying: i32,
    pub lung_capacity: i32,
    pub heat_resist: i32,
    pub poison_resist: i32,
    pub magic_knowledge: i32,
    pub concentration: i32,
    pub appraisal: i32,
    pub stealing: i32,
    pub bite: i32,
}

impl Stats {
    pub open spec fn spec_get(self, k: StatKind) -> i32 {
        match k {
            StatKind::MaxHp => self.max_hp,
            StatKind::MaxMp => self.max_mp,
            StatKind::Attack => self.attack,
            StatKind::Defense => self.defense,
            StatKind::Agility => self.agility,
            StatKind::Throwing => self.throwing,
            StatKind::Carrying => self.carrying,
            StatKind::LungCapacity => self.lung_capacity,
            StatKind::HeatResist => self.heat_resist,
            StatKind::PoisonResist => self.poison_resist,
            StatKind::MagicKnowledge => self.magic_knowledge,
            StatKind::Concentration => self.concentration,
            StatKind::Appraisal => self.appraisal,
            StatKind::Stealing => self.stealing,
            StatKind::Bite => self.bite,
        }
    }

    /// `self` with the field named by `k` replaced by `v`.
    pub open spec fn spec_with(self, k: StatKind, v: i32) -> Stats {
        match k {
            StatKind::MaxHp => Stats { max_hp: v, ..self },
            StatKind::MaxMp => Stats { max_mp: v, ..self },
            StatKind::Attack => Stats { attack: v, ..self },
            StatKind::Defense => Stats { defense: v, ..self },
            StatKind::Agility => Stats { agility: v, ..self },
            StatKind::Throwing => Stats { throwing: v, ..self },
            StatKind::Carrying => Stats { carrying: v, ..self },
            StatKind::LungCapacity => Stats { lung_capacity: v, ..self },
            StatKind::HeatResist => Stats { heat_resist: v, ..self },
            StatKind::PoisonResist => Stats { poison_resist: v, ..self },
            StatKind::MagicKnowledge => Stats { magic_knowledge: v, ..self },
            StatKind::Concentration => Stats { concentration: v, ..self },
            StatKind::Appraisal => Stats { appraisal: v, ..self },
            StatKind::Stealing => Stats { stealing: v, ..self },
            StatKind::Bite => Stats { bite: v, ..self },
        }
    }

    /// The sum of all fifteen ability parameters.
    pub open spec fn ability_sum(self) -> int {
        self.max_hp + self.max_mp + self.attack + self.defense + self.agility + self.throwing
            + self.carrying + self.lung_capacity + self.heat_resist + self.poison_resist
            + self.magic_knowledge + self.concentration + self.appraisal + self.stealing
            + self.bite
    }

    /// A field-for-field copy.
    pub fn copy(&self) -> (r: Stats)
        ensures
            r == *self,
    {
        Stats { ..*self }
    }

    /// The value of the field named by `k`.
    pub fn get(&self, k: StatKind) -> (r: i32)
        ensures
            r == self.spec_get(k),
    {
        match k {
            StatKind::MaxHp => self.max_hp,
            StatKind::MaxMp => self.max_mp,
            StatKind::Attack => self.attack,
            StatKind::Defense => self.defense,
            StatKind::Agility => self.agility,
            StatKind::Throwing => self.throwing,
            StatKind::Carrying => self.carrying,
            StatKind::LungCapacity => self.lung_capacity,
            StatKind::HeatResist => self.heat_resist,
            StatKind::PoisonResist => self.poison_resist,
            StatKind::MagicKnowledge => self.magic_knowledge,
            StatKind::Concentration => self.concentration,
            StatKind::Appraisal => self.appraisal,
            StatKind::Stealing => self.stealing,
            StatKind::Bite => self.bite,
        }
    }

    /// Add `delta` to the field named by `k`.
    pub fn add(&mut self, k: StatKind, delta: i32)
        requires
            i32::MIN <= old(self).spec_get(k) + delta <= i32::MAX,
        ensures
            *final(self) == old(self).spec_with(k, (old(self).spec_get(k) + delta) as i32),
    {
        match k {
            StatKind::MaxHp => self.max_hp = self.max_hp + delta,
            StatKind::MaxMp => self.max_mp = self.max_mp + delta,
            StatKind::Attack => self.attack = self.attack + delta,
            StatKind::Defense => self.defense = self.defense + delta,
            StatKind::Agility => self.agility = self.agility + delta,
            StatKind::Throwing => self.throwing = self.throwing + delta,
            StatKind::Carrying => self.carrying = self.carrying + delta,
            StatKind::LungCapacity => self.lung_capacity = self.lung_capacity + delta,
            StatKind::HeatResist => self.heat_resist = self.heat_resist + delta,
            StatKind::PoisonResist => self.poison_resist = self.poison_resist + delta,
            StatKind::MagicKnowledge => self.magic_knowledge = self.magic_knowledge + delta,
            StatKind::Concentration => self.concentration = self.concentration + delta,
            StatKind::Appraisal => self.appraisal = self.appraisal + delta,
            StatKind::Stealing => self.stealing = self.stealing + delta,
            StatKind::Bite => self.bite = self.bite + delta,
        }
    }

    /// 総合レベル: the mean (rounded toward zero) of every ability parameter.
    pub fn overall_level(&self) -> (r: i32)
        requires
            i32::MIN <= self.ability_sum() <= i32::MAX,
            // every running total of the sum stays in range
            i32::MIN <= self.max_hp + self.max_mp <= i32::MAX,
            i32::MIN <= self.max_hp + self.max_mp + self.attack <= i32::MAX,
            i32::MIN <= self.max_hp + self.max_mp + self.attack + self.defense <= i32::MAX,
            i32::MIN <= self.max_hp + self.max_mp + self.attack + self.defense + self.agility
                <= i32::MAX,
            i32::MIN <= self.max_hp + self.max_mp + self.attack + self.defense + self.agility
                + self.throwing <= i32::MAX,
            i32::MIN <= self.max_hp + self.max_mp + self.attack + self.defense + self.agility
                + self.throwing + self.carrying <= i32::MAX,
            i32::MIN <= self.max_hp + self.max_mp + self.attack + self.defense + self.agility
                + self.throwing + self.carrying + self.lung_capacity <= i32::MAX,
            i32::MIN <= self.max_hp + self.max_mp + self.attack + self.defense + self.agility
                + self.throwing + self.carrying + self.lung_capacity + self.heat_resist
                <= i32::MAX,
            i32::MIN <= self.max_hp + self.max_mp + self.attack + self.defense + self.agility
                + self.throwing + self.carrying + self.lung_capacity + self.heat_resist
                + self.poison_resist <= i32::MAX,
            i32::MIN <= self.max_hp + self.max_mp + self.attack + self.defense + self.agility
                + self.throwing + self.carrying + self.lung_capacity + self.heat_resist
                + self.poison_resist + self.magic_knowledge <= i32::MAX,
            i32::MIN <= self.max_hp + self.max_mp + self.attack + self.defense + self.agility
                + self.throwing + self.carrying + self.lung_capacity + self.heat_resist
                + self.poison_resist + self.magic_knowledge + self.concentration <= i32::MAX,
            i32::MIN <= self.max_hp + self.max_mp + self.attack + self.defense + self.agility
                + self.throwing + self.carrying + self.lung_capacity + self.heat_resist
                + self.poison_resist + self.magic_knowledge + self.concentration
                + self.appraisal <= i32::MAX,
            i32::MIN <= self.max_hp + self.max_mp + self.attack + self.defense + self.agility
                + self.throwing + self.carrying + self.lung_capacity + self.heat_resist
                + self.poison_resist + self.magic_knowledge + self.concentration
                + self.appraisal + self.stealing <= i32::MAX,
        ensures
            r == crate::combat::tdiv(self.ability_sum(), 15),
    {
        let sum = self.max_hp + self.max_mp + self.attack + self.defense + self.agility
            + self.throwing + self.carrying + self.lung_capacity + self.heat_resist
            + self.poison_resist + self.magic_knowledge + self.concentration + self.appraisal
            + self.stealing + self.bite;
        sum / 15
    }
}

/// Reading back a field just written gives the written value; other fields are
/// untouched.
pub proof fn lemma_stats_with(s: Stats, k: StatKind, j: StatKind, v: i32)
    ensures
        s.spec_with(k, v).spec_get(k) == v,
        j != k ==> s.spec_with(k, v).spec_get(j) == s.spec_get(j),
        s.spec_with(k, v).level == s.level,
{
}


/// Growth type: shapes how stats rise on level-up.
#[derive(Clone, Copy, Debug, PartialEq, Eq, Structural)]
pub enum GrowthType {
    Average,
    EarlyBloomer,
    LateBloomer,
    Genius,
    Talentless,
}

impl GrowthType {
    /// The per-level-up growth multiplier in tenths (×1.0 = 10). Early / late
    /// bloomers swing on either side of level 20.
    pub open spec fn spec_tenths(self, level: u32) -> int {
        match self {
            GrowthType::Average => 10,
            GrowthType::EarlyBloomer => if level < 20 {
                15
            } else {
                5
            },
            GrowthType::LateBloomer => if level < 20 {
                5
            } else {
                15
            },
            GrowthType::Genius => 15,
            GrowthType::Talentless => 2,
        }
    }

    /// The growth multiplier at `level`, in tenths: 1.0, 1.5/0.5 (early bloomer
    /// below/from level 20), 0.5/1.5 (late bloomer), 1.5 (genius), 0.2
    /// (talentless).
    pub fn multiplier_tenths(self, level: u32) -> (r: u32)
        ensures
            r == self.spec_tenths(level),
    {
        match self {
            GrowthType::Average => 10,
            GrowthType::EarlyBloomer => if level < 20 {
                15
            } else {
                5
            },
            GrowthType::LateBloomer => if level < 20 {
                5
            } else {
                15
            },
            GrowthType::Genius => 15,
            GrowthType::Talentless => 2,
        }
    }
}

/// Experience needed to reach the level after `level`: `max(level, 1) × 100`.
pub open spec fn spec_threshold(level: u32) -> int {
    (if level < 1 {
        1
    } else {
        level as int
    }) * 100
}

/// Experience needed to reach the level after `level`.
pub fn level_up_threshold(level: u32) -> (r: i32)
    requires
        spec_threshold(level) <= i32::MAX,
    ensures
        r == spec_threshold(level),
{
    let l: u32 = if level < 1 {
        1
    } else {
        level
    };
    (l as i32) * 100
}

/// A registered character: profile, growth, stats, display assets, starting
/// items and known magic.
#[derive(Clone, Debug, PartialEq)]
pub struct Character {
    /// Unique within the project; referenced by the party roster.
    pub id: String,
    pub first_name: String,
    pub last_name: String,
    pub gender: String,
    pub birth_date: String,
    pub age: u32,
    pub likes: String,
    pub dislikes: String,
    pub background: String,
    pub growth: GrowthType,
    pub stats: Stats,
    pub model: String,
    pub portrait: String,
    /// Starting item ids.
    pub items: Vec<String>,
    /// Initially-known magic ids.
    pub magics: Vec<String>,
}

/// A stat change currently in force from an eaten item or a spell.
#[derive(Clone, Debug, PartialEq, Eq)]
pub struct ActiveEffect {
    pub stat: StatKind,
    pub delta: i32,
    /// Cycles left, or `None` for a permanent effect.
    pub remaining: Option<u64>,
    /// The magic id that applied this effect, or `None` for eaten-item effects.
    pub source: Option<String>,
}

/// Mutable per-play state, split from the immutable `Character` definition.
#[derive(Clone, Debug, PartialEq, Eq, Default)]
pub struct CharacterState {
    pub hp: i32,
    pub mp: i32,
    pub concentration: i32,
    /// HP reached 0 → 気絶 (knocked out).
    pub down: bool,
    pub effects: Vec<ActiveEffect>,
    /// Remaining cycles of lingering poison.
    pub poison_remaining: u32,
    /// Satiety (only meaningful when hunger rules are enabled).
    pub satiety: i32,
    /// Accumulated experience toward the next level.
    pub exp: i32,
    /// Halve the next incoming hit, then clear.
    pub guarding: bool,
    /// Concentration recovers faster until acting / being hit.
    pub concentrating: bool,
    /// Known magic ids.
    pub learned: Vec<String>,
}

impl CharacterState {
    /// Fresh state for a character: full HP/MP/concentration, standing, full
    /// satiety, no effects, no experience, nothing learned.
    pub fn full(character: &Character) -> (r: CharacterState)
        ensures
            r.hp == character.stats.max_hp,
            r.mp == character.stats.max_mp,
            r.concentration == character.stats.concentration,
            !r.down,
            r.effects@.len() == 0,
            r.poison_remaining == 0,
            r.satiety == crate::rules::DEFAULT_SATIETY_MAX,
            r.exp == 0,
            !r.guarding,
            !r.concentrating,
            r.learned@.len() == 0,
    {
        CharacterState {
            hp: character.stats.max_hp,
            mp: character.stats.max_mp,
            concentration: character.stats.concentration,
            down: false,
            effects: Vec::new(),
            poison_remaining: 0,
            satiety: crate::rules::DEFAULT_SATIETY_MAX,
            exp: 0,
            guarding: false,
            concentrating: false,
            learned: Vec::new(),
        }
    }
}

/// `s` with each `(stat, delta)` added in turn.
pub open spec fn fold_deltas(s: Stats, ds: Seq<(StatKind, i32)>) -> Stats
    decreases ds.len(),
{
    if ds.len() == 0 {
        s
    } else {
        let p = fold_deltas(s, ds.drop_last());
        let (k, d) = ds.last();
        p.spec_with(k, (p.spec_get(k) + d) as i32)
    }
}

/// Every addition of [`fold_deltas`] stays inside `i32`.
pub open spec fn deltas_fit(s: Stats, ds: Seq<(StatKind, i32)>) -> bool
    decreases ds.len(),
{
    if ds.len() == 0 {
        true
    } else {
        let p = fold_deltas(s, ds.drop_last());
        let (k, d) = ds.last();
        deltas_fit(s, ds.drop_last()) && i32::MIN <= p.spec_get(k) + d <= i32::MAX
    }
}

/// `(stat, delta)` of each active effect, in order.
pub open spec fn active_pairs(effects: Seq<ActiveEffect>) -> Seq<(StatKind, i32)> {
    effects.map_values(|e: ActiveEffect| (e.stat, e.delta))
}

/// Add each `(stat, delta)` of `ds` to `s`, in order.
pub fn apply_deltas(s: &mut Stats, ds: &Vec<(StatKind, i32)>)
    requires
        deltas_fit(*old(s), ds@),
    ensures
        *final(s) == fold_deltas(*old(s), ds@),
{
    let ghost s0 = *s;
    let mut i: usize = 0;
    while i < ds.len()
        invariant
            i <= ds@.len(),
            deltas_fit(s0, ds@),
            *s == fold_deltas(s0, ds@.take(i as int)),
        decreases ds@.len() - i,
    {
        proof {
            lemma_deltas_fit_prefix(s0, ds@, i as int + 1);
            assert(ds@.take(i as int + 1).drop_last() =~= ds@.take(i as int));
        }
        let (k, d) = ds[i];
        s.add(k, d);
        i = i + 1;
    }
    assert(ds@.take(ds@.len() as int) =~= ds@);
}

/// Every prefix of a fitting delta list fits.
pub proof fn lemma_deltas_fit_prefix(s: Stats, ds: Seq<(StatKind, i32)>, n: int)
    requires
        deltas_fit(s, ds),
        0 <= n <= ds.len(),
    ensures
        deltas_fit(s, ds.take(n)),
    decreases ds.len() - n,
{
    if n < ds.len() {
        assert(ds.take(n + 1).drop_last() =~= ds.take(n));
        lemma_deltas_fit_prefix(s, ds, n + 1);
    } else {
        assert(ds.take(n) =~= ds);
    }
}

/// One party slot: the character definition, its live state, and its inventory.
#[derive(Clone, Debug)]
pub struct PartyMember {
    pub character: Character,
    pub state: CharacterState,
    pub inventory: Inventory,
}

/// Effective stats = base + equipment effects + active effects.
pub open spec fn spec_effective(m: PartyMember, defs: Seq<ItemDef>) -> Stats {
    fold_deltas(
        fold_deltas(m.character.stats, equip_effects(m.inventory@.equipment, defs, 6)),
        active_pairs(m.state.effects@),
    )
}

/// The effective-stat additions all stay inside `i32`.
pub open spec fn effective_fits(m: PartyMember, defs: Seq<ItemDef>) -> bool {
    &&& deltas_fit(m.character.stats, equip_effects(m.inventory@.equipment, defs, 6))
    &&& deltas_fit(
        fold_deltas(m.character.stats, equip_effects(m.inventory@.equipment, defs, 6)),
        active_pairs(m.state.effects@),
    )
}

/// Eaten-item effects: a permanent effect for duration 0, else one lasting
/// `duration_cycles`.
pub open spec fn eaten_effects(effects: Seq<StatEffect>) -> Seq<ActiveEffect> {
    effects.map_values(
        |e: StatEffect|
            ActiveEffect {
                stat: e.stat,
                delta: e.delta,
                remaining: if e.duration_cycles == 0 {
                    None
                } else {
                    Some(e.duration_cycles)
                },
                source: None,
            },
    )
}

/// The state after eating `def` successfully.
pub open spec fn spec_eaten_state(
    st: CharacterState,
    def: ItemDef,
    max_hp: int,
    hunger: HungerRules,
) -> CharacterState {
    let cap = if max_hp < 0 {
        0
    } else {
        max_hp
    };
    let hp = crate::combat::clamp(st.hp + def.nutrition, 0, cap);
    let satiety = if hunger.enabled {
        crate::combat::clamp(
            st.satiety + def.nutrition * hunger.satiety_per_nutrition,
            0,
            hunger.satiety_max as int,
        )
    } else {
        st.satiety as int
    };
    CharacterState {
        hp: hp as i32,
        satiety: satiety as i32,
        down: if hp == 0 {
            true
        } else {
            st.down
        },
        ..st
    }
}

/// Number of experience points each level-up consumes, the growth it applies,
/// and whether its additions stay in range.
pub open spec fn level_step_fits(s: Stats, g: GrowthType, hp: int, mp: int) -> bool {
    let t = g.spec_tenths(s.level);
    let dhp = (4 * t) / 10;
    let dmp = (2 * t) / 10;
    let d1 = t / 10;
    &&& s.level < u32::MAX
    &&& s.max_hp + dhp <= i32::MAX
    &&& s.max_mp + dmp <= i32::MAX
    &&& hp + dhp <= i32::MAX
    &&& mp + dmp <= i32::MAX
    &&& s.attack + d1 <= i32::MAX
    &&& s.defense + d1 <= i32::MAX
    &&& s.agility + d1 <= i32::MAX
    &&& s.throwing + d1 <= i32::MAX
    &&& s.carrying + d1 <= i32::MAX
    &&& s.lung_capacity + d1 <= i32::MAX
    &&& s.heat_resist + d1 <= i32::MAX
    &&& s.poison_resist + d1 <= i32::MAX
    &&& s.magic_knowledge + d1 <= i32::MAX
    &&& s.concentration + d1 <= i32::MAX
    &&& s.appraisal + d1 <= i32::MAX
    &&& s.stealing + d1 <= i32::MAX
    &&& s.bite + d1 <= i32::MAX
}

/// The stats after one level-up under growth `g`: level +1, max HP
/// +⌊4·mult⌋, max MP +⌊2·mult⌋ and every other ability except the level
/// +⌊mult⌋.
pub open spec fn grown_stats(s: Stats, g: GrowthType) -> Stats {
    let t = g.spec_tenths(s.level);
    let dhp = (4 * t) / 10;
    let dmp = (2 * t) / 10;
    let d1 = t / 10;
    Stats {
        level: (s.level + 1) as u32,
        max_hp: (s.max_hp + dhp) as i32,
        max_mp: (s.max_mp + dmp) as i32,
        attack: (s.attack + d1) as i32,
        defense: (s.defense + d1) as i32,
        agility: (s.agility + d1) as i32,
        throwing: (s.throwing + d1) as i32,
        carrying: (s.carrying + d1) as i32,
        lung_capacity: (s.lung_capacity + d1) as i32,
        heat_resist: (s.heat_resist + d1) as i32,
        poison_resist: (s.poison_resist + d1) as i32,
        magic_knowledge: (s.magic_knowledge + d1) as i32,
        concentration: (s.concentration + d1) as i32,
        appraisal: (s.appraisal + d1) as i32,
        stealing: (s.stealing + d1) as i32,
        bite: (s.bite + d1) as i32,
    }
}

/// Repeated level-ups while experience covers the threshold: the final
/// `(stats, hp, mp, exp)` and the levels reached, in order.
pub open spec fn spec_level_ups(s: Stats, g: GrowthType, hp: int, mp: int, exp: int) -> (
    Stats,
    int,
    int,
    int,
    Seq<u32>,
)
    decreases exp,
{
    let need = spec_threshold(s.level);
    if exp < need || exp < 0 {
        (s, hp, mp, exp, Seq::empty())
    } else {
        let t = g.spec_tenths(s.level);
        let ns = grown_stats(s, g);
        let rest = spec_level_ups(ns, g, hp + (4 * t) / 10, mp + (2 * t) / 10, exp - need);
        (rest.0, rest.1, rest.2, rest.3, seq![ns.level] + rest.4)
    }
}

/// Levelling up from level `L` costs `max(L, 1) × 100` experience: with less
/// than that nothing changes; with at least that but less than what the next
/// level also costs, exactly one level is gained and exactly that much
/// experience is spent.
pub proof fn lemma_level_up_cost(s: Stats, g: GrowthType, hp: int, mp: int, exp: int)
    requires
        0 <= exp,
        s.level < u32::MAX,
    ensures
        ({
            let cost = if s.level == 0 { 100 } else { s.level * 100 };
            let res = spec_level_ups(s, g, hp, mp, exp);
            &&& exp < cost ==> res == (s, hp, mp, exp, Seq::<u32>::empty())
            &&& cost <= exp < cost + (s.level + 1) * 100 ==> {
                &&& res.4 == seq![(s.level + 1) as u32]
                &&& res.3 == exp - cost
                &&& res.0.level == s.level + 1
            }
        }),
{
    let cost = if s.level == 0 { 100 } else { s.level * 100 };
    if cost <= exp {
        let ns = grown_stats(s, g);
        let t = g.spec_tenths(s.level);
        let rest = spec_level_ups(ns, g, hp + (4 * t) / 10, mp + (2 * t) / 10, exp - cost);
        assert(ns.level == s.level + 1);
        if exp < cost + (s.level + 1) * 100 {
            assert(exp - cost < spec_threshold(ns.level));
            assert(rest.4 =~= Seq::<u32>::empty());
            assert(seq![ns.level] + rest.4 =~= seq![(s.level + 1) as u32]);
        }
    }
}

/// After all the level-ups it earns, a member keeps between 0 and less than
/// the `max(L, 1) × 100` its new level `L` costs to leave, and gains at least
/// one level whenever it had at least the cost of its old level.
pub proof fn lemma_level_ups_spend_down(s: Stats, g: GrowthType, hp: int, mp: int, exp: int)
    requires
        0 <= exp,
    ensures
        ({
            let res = spec_level_ups(s, g, hp, mp, exp);
            let left_cost = if res.0.level == 0 { 100 } else { res.0.level * 100 };
            let cost = if s.level == 0 { 100 } else { s.level * 100 };
            &&& 0 <= res.3 < left_cost
            &&& res.3 <= exp
            &&& (res.4.len() > 0 <==> cost <= exp)
        }),
    decreases exp,
{
    let need = spec_threshold(s.level);
    if exp >= need {
        let t = g.spec_tenths(s.level);
        lemma_level_ups_spend_down(grown_stats(s, g), g, hp + (4 * t) / 10, mp + (2 * t) / 10, exp - need);
    }
}

/// Every level-up step of [`spec_level_ups`] stays in range.
pub open spec fn level_ups_fit(s: Stats, g: GrowthType, hp: int, mp: int, exp: int) -> bool
    decreases exp,
{
    let need = spec_threshold(s.level);
    if exp < need || exp < 0 {
        need <= i32::MAX
    } else {
        let t = g.spec_tenths(s.level);
        &&& need <= i32::MAX
        &&& level_step_fits(s, g, hp, mp)
        &&& level_ups_fit(grown_stats(s, g), g, hp + (4 * t) / 10, mp + (2 * t) / 10, exp - need)
    }
}

/// The level-up announcement for `name` reaching `level`.
pub open spec fn level_up_message(name: Seq<char>, level: u32) -> Seq<char> {
    name + "は レベル "@ + signed_decimal(level as int) + " になった!"@
}

/// What eating `def` does: member `m0` becomes `m1` and the answer is `r`.
/// Important items and items harder than the member's (effective) bite are
/// refused with no change; otherwise the nutrition goes to HP (and satiety),
/// the item's effects are added, and the member falls when HP reaches 0.
pub open spec fn eat_outcome(
    m0: PartyMember,
    m1: PartyMember,
    r: Result<String, String>,
    def: ItemDef,
    defs: Seq<ItemDef>,
    hunger: HungerRules,
) -> bool {
    &&& m1.character == m0.character
    &&& m1.inventory == m0.inventory
    &&& def.important ==> (r matches Err(e) && e@ == def.name@ + "は だいじなものだ"@ && m1.state == m0.state)
    &&& !def.important && def.hardness > spec_effective(m0, defs).bite ==> (r matches Err(e) && e@
        == def.name@ + "は かたくて食べられない"@ && m1.state == m0.state)
    &&& !def.important && def.hardness <= spec_effective(m0, defs).bite ==> {
        &&& r matches Ok(m) && m@ == def.name@ + "を食べた"@
        &&& m1.state == (CharacterState {
            effects: m1.state.effects,
            ..spec_eaten_state(m0.state, def, spec_effective(m0, defs).max_hp as int, hunger)
        })
        &&& m1.state.effects@ == m0.state.effects@ + eaten_effects(def.effects@)
    }
}

impl PartyMember {
    /// Effective stats = base + equipment effects + active (eaten / spell)
    /// effects. Base values are never mutated.
    pub fn effective_stats(&self, catalog: &ItemCatalog) -> (r: Stats)
        requires
            self.inventory.wf(),
            effective_fits(*self, catalog@),
        ensures
            r == spec_effective(*self, catalog@),
    {
        let mut s = self.character.stats.copy();
        let eq = self.inventory.equipment_effects(catalog);
        apply_deltas(&mut s, &eq);
        let mut act: Vec<(StatKind, i32)> = Vec::new();
        let mut i: usize = 0;
        while i < self.state.effects.len()
            invariant
                i <= self.state.effects@.len(),
                act@ == active_pairs(self.state.effects@).take(i as int),
            decreases self.state.effects@.len() - i,
        {
            act.push((self.state.effects[i].stat, self.state.effects[i].delta));
            assert(act@ =~= active_pairs(self.state.effects@).take(i as int + 1));
            i = i + 1;
        }
        assert(act@ =~= active_pairs(self.state.effects@));
        apply_deltas(&mut s, &act);
        s
    }

    /// Try to eat the item defined by `def`: fails on important items or when
    /// it is harder than the member's (effective) bite. On success applies the
    /// nutrition to HP (clamped to [0, max HP]), and — when hunger is enabled —
    /// to satiety scaled by `satiety_per_nutrition` (clamped to [0,
    /// satiety_max]), appends the item's effects, and marks the member down if
    /// HP reached 0.
    pub fn eat(&mut self, def: &ItemDef, catalog: &ItemCatalog, hunger: &HungerRules) -> (r: Result<
        String,
        String,
    >)
        requires
            old(self).inventory.wf(),
            effective_fits(*old(self), catalog@),
            i32::MIN <= old(self).state.hp + def.nutrition <= i32::MAX,
            hunger.enabled ==> i32::MIN <= def.nutrition * hunger.satiety_per_nutrition
                <= i32::MAX,
            hunger.enabled ==> i32::MIN <= old(self).state.satiety + def.nutrition
                * hunger.satiety_per_nutrition <= i32::MAX,
        ensures
            eat_outcome(*old(self), *final(self), r, *def, catalog@, *hunger),
    {
        if def.important {
            return Err(cat(def.name.as_str(), "は だいじなものだ"));
        }
        let eff = self.effective_stats(catalog);
        let bite = eff.get(StatKind::Bite);
        if def.hardness > bite {
            return Err(cat(def.name.as_str(), "は かたくて食べられない"));
        }
        let max_hp = eff.get(StatKind::MaxHp);
        let cap = if max_hp < 0 {
            0
        } else {
            max_hp
        };
        let raw = self.state.hp + def.nutrition;
        self.state.hp = if raw < 0 {
            0
        } else if raw > cap {
            cap
        } else {
            raw
        };
        if hunger.enabled {
            let sraw = self.state.satiety + def.nutrition * hunger.satiety_per_nutrition;
            self.state.satiety = if sraw < 0 {
                0
            } else if sraw > hunger.satiety_max {
                hunger.satiety_max
            } else {
                sraw
            };
        }
        let ghost before = self.state.effects@;
        let ghost st_before = self.state;
        let ghost ch = self.character;
        let ghost inv = self.inventory;
        let mut i: usize = 0;
        while i < def.effects.len()
            invariant
                i <= def.effects@.len(),
                self.character == ch,
                self.inventory == inv,
                self.state == (CharacterState { effects: self.state.effects, ..st_before }),
                self.state.effects@ == before + eaten_effects(def.effects@).take(i as int),
            decreases def.effects@.len() - i,
        {
            let e = &def.effects[i];
            self.state.effects.push(
                ActiveEffect {
                    stat: e.stat,
                    delta: e.delta,
                    remaining: if e.duration_cycles == 0 {
                        None
                    } else {
                        Some(e.duration_cycles)
                    },
                    source: None,
                },
            );
            assert(self.state.effects@ =~= before + eaten_effects(def.effects@).take(
                i as int + 1,
            ));
            i = i + 1;
        }
        assert(eaten_effects(def.effects@).take(def.effects@.len() as int) =~= eaten_effects(
            def.effects@,
        ));
        if self.state.hp == 0 {
            self.state.down = true;
        }
        Ok(cat(def.name.as_str(), "を食べた"))
    }

    /// Award `amount` experience and apply every resulting level-up: each
    /// consumes the threshold of the current level and grows the stats by the
    /// growth multiplier, healing HP/MP by the max gains. Returns one message
    /// per level gained.
    pub fn gain_exp(&mut self, amount: i32) -> (msgs: Vec<String>)
        requires
            i32::MIN <= old(self).state.exp + amount <= i32::MAX,
            level_ups_fit(
                old(self).character.stats,
                old(self).character.growth,
                old(self).state.hp as int,
                old(self).state.mp as int,
                old(self).state.exp + amount,
            ),
        ensures
            ({
                let res = spec_level_ups(
                    old(self).character.stats,
                    old(self).character.growth,
                    old(self).state.hp as int,
                    old(self).state.mp as int,
                    old(self).state.exp + amount,
                );
                &&& final(self).character == (Character { stats: res.0, ..old(self).character })
                &&& final(self).state == (CharacterState {
                    hp: res.1 as i32,
                    mp: res.2 as i32,
                    exp: res.3 as i32,
                    ..old(self).state
                })
                &&& final(self).inventory == old(self).inventory
                &&& msgs@.len() == res.4.len()
                &&& forall|i: int|
                    0 <= i < msgs@.len() ==> (#[trigger] msgs@[i])@ == level_up_message(
                        old(self).character.first_name@,
                        res.4[i],
                    )
            }),
    {
        let ghost g = self.character.growth;
        let ghost total = spec_level_ups(
            self.character.stats,
            g,
            self.state.hp as int,
            self.state.mp as int,
            self.state.exp + amount,
        );
        let ghost name = self.character.first_name@;
        let mut msgs: Vec<String> = Vec::new();
        self.state.exp = self.state.exp + amount;
        let ghost mut reached: Seq<u32> = Seq::empty();
        let ghost ch0 = self.character;
        let ghost st0 = self.state;
        let ghost inv0 = self.inventory;
        loop
            invariant
                self.character == (Character { stats: self.character.stats, ..ch0 }),
                self.state == (CharacterState {
                    hp: self.state.hp,
                    mp: self.state.mp,
                    exp: self.state.exp,
                    ..st0
                }),
                self.inventory == inv0,
                self.character.growth == g,
                self.character.first_name@ == name,
                level_ups_fit(
                    self.character.stats,
                    g,
                    self.state.hp as int,
                    self.state.mp as int,
                    self.state.exp as int,
                ),
                ({
                    let cur = spec_level_ups(
                        self.character.stats,
                        g,
                        self.state.hp as int,
                        self.state.mp as int,
                        self.state.exp as int,
                    );
                    &&& cur.0 == total.0
                    &&& cur.1 == total.1
                    &&& cur.2 == total.2
                    &&& cur.3 == total.3
                    &&& total.4 == reached + cur.4
                }),
                msgs@.len() == reached.len(),
                forall|i: int|
                    0 <= i < msgs@.len() ==> (#[trigger] msgs@[i])@ == level_up_message(
                        name,
                        reached[i],
                    ),
            ensures
                self.character == (Character { stats: total.0, ..ch0 }),
                self.state == (CharacterState {
                    hp: total.1 as i32,
                    mp: total.2 as i32,
                    exp: total.3 as i32,
                    ..st0
                }),
                self.inventory == inv0,
                msgs@.len() == total.4.len(),
                forall|i: int|
                    0 <= i < msgs@.len() ==> (#[trigger] msgs@[i])@ == level_up_message(
                        name,
                        total.4[i],
                    ),
            decreases self.state.exp,
        {
            let level = self.character.stats.level;
            let need = level_up_threshold(level);
            if self.state.exp < need {
                assert(total.4 =~= reached);
                break ;
            }
            self.state.exp = self.state.exp - need;
            let t = self.character.growth.multiplier_tenths(level) as i32;
            let dhp = (4 * t) / 10;
            let dmp = (2 * t) / 10;
            let d1 = t / 10;
            let ghost old_stats = self.character.stats;
            self.character.stats.level = level + 1;
            self.character.stats.max_hp = self.character.stats.max_hp + dhp;
            self.character.stats.max_mp = self.character.stats.max_mp + dmp;
            self.character.stats.attack = self.character.stats.attack + d1;
            self.character.stats.defense = self.character.stats.defense + d1;
            self.character.stats.agility = self.character.stats.agility + d1;
            self.character.stats.throwing = self.character.stats.throwing + d1;
            self.character.stats.carrying = self.character.stats.carrying + d1;
            self.character.stats.lung_capacity = self.character.stats.lung_capacity + d1;
            self.character.stats.heat_resist = self.character.stats.heat_resist + d1;
            self.character.stats.poison_resist = self.character.stats.poison_resist + d1;
            self.character.stats.magic_knowledge = self.character.stats.magic_knowledge + d1;
            self.character.stats.concentration = self.character.stats.concentration + d1;
            self.character.stats.appraisal = self.character.stats.appraisal + d1;
            self.character.stats.stealing = self.character.stats.stealing + d1;
            self.character.stats.bite = self.character.stats.bite + d1;
            assert(self.character.stats == grown_stats(old_stats, g));
            self.state.hp = self.state.hp + dhp;
            self.state.mp = self.state.mp + dmp;
            let lv = i64_text(self.character.stats.level as i64);
            let m1 = cat(self.character.first_name.as_str(), "は レベル ");
            let m2 = cat3(m1.as_str(), lv.as_str(), " になった!");
            msgs.push(m2);
            proof {
                reached = reached.push(self.character.stats.level);
                assert(total.4 =~= reached + spec_level_ups(
                    self.character.stats,
                    g,
                    self.state.hp as int,
                    self.state.mp as int,
                    self.state.exp as int,
                ).4);
            }
        }
        msgs
    }
}

/// The active party.
#[derive(Clone, Debug, Default)]
pub struct Party {
    pub members: Vec<PartyMember>,
}

/// Whether member `m` carries more than their effective carrying capacity.
pub open spec fn is_overweight(m: PartyMember, defs: Seq<ItemDef>) -> bool {
    weight_sum(m.inventory@.items(), defs) > spec_effective(m, defs).carrying
}

/// The members for which weight and effective stats are computable in range.
pub open spec fn member_computable(m: PartyMember, defs: Seq<ItemDef>) -> bool {
    &&& m.inventory.wf()
    &&& sums_in_range(m.inventory@.items(), defs)
    &&& effective_fits(m, defs)
}

impl Party {
    pub fn is_empty(&self) -> (r: bool)
        ensures
            r == (self.members@.len() == 0),
    {
        self.members.len() == 0
    }

    pub fn len(&self) -> (r: usize)
        ensures
            r == self.members@.len(),
    {
        self.members.len()
    }

    /// The first member whose carried weight exceeds their (effective)
    /// carrying capacity, if any.
    pub fn overweight_member(&self, catalog: &ItemCatalog) -> (r: Option<usize>)
        requires
            forall|i: int|
                0 <= i < self.members@.len() ==> member_computable(
                    #[trigger] self.members@[i],
                    catalog@,
                ),
        ensures
            match r {
                Some(i) => i < self.members@.len() && is_overweight(
                    self.members@[i as int],
                    catalog@,
                ) && forall|j: int|
                    0 <= j < i ==> !is_overweight(#[trigger] self.members@[j], catalog@),
                None => forall|j: int|
                    0 <= j < self.members@.len() ==> !is_overweight(
                        #[trigger] self.members@[j],
                        catalog@,
                    ),
            },
    {
        let mut i: usize = 0;
        while i < self.members.len()
            invariant
                i <= self.members@.len(),
                forall|k: int|
                    0 <= k < self.members@.len() ==> member_computable(
                        #[trigger] self.members@[k],
                        catalog@,
                    ),
                forall|j: int| 0 <= j < i ==> !is_overweight(#[trigger] self.members@[j], catalog@),
            decreases self.members@.len() - i,
        {
            let m = &self.members[i];
            assert(member_computable(self.members@[i as int], catalog@));
            let w = m.inventory.total_weight(catalog);
            let cap = m.effective_stats(catalog).get(StatKind::Carrying);
            if w > cap {
                return Some(i);
            }
            i = i + 1;
        }
        None
    }
}


/// Fall damage per floor², before any mitigation.
pub const FALL_DAMAGE_PER_FLOOR_SQ: i32 = 10;

/// A member after taking `damage`: HP floors at 0, and 0 HP marks them down.
pub open spec fn damaged(m: PartyMember, damage: int) -> PartyMember {
    let hp = if m.state.hp - damage < 0 {
        0
    } else {
        m.state.hp - damage
    };
    PartyMember {
        state: CharacterState { hp: hp as i32, down: m.state.down || hp == 0, ..m.state },
        ..m
    }
}

/// The log line for member `i` taking fall damage.
pub open spec fn fall_message(i: int, floors: int, name: Seq<char>, damage: int) -> Seq<char> {
    if i == 0 {
        signed_decimal(floors) + "フロア落下した! "@ + name + "は "@ + signed_decimal(damage)
            + " のダメージ!"@
    } else {
        name + "は "@ + signed_decimal(damage) + " のダメージ!"@
    }
}

/// Damage each party member by `floors² × 10` when a fall lands, clamp HP at 0,
/// mark the downed, and return one log line per member (the first one also
/// names the floor count).
pub fn apply_fall_damage(party: &mut Party, floors: u32) -> (msgs: Vec<String>)
    requires
        10 * (floors as int) * (floors as int) <= i32::MAX,
        forall|i: int|
            0 <= i < old(party).members@.len() ==> #[trigger] old(party).members@[i].state.hp
                - 10 * (floors as int) * (floors as int) >= i32::MIN,
    ensures
        final(party).members@.len() == old(party).members@.len(),
        forall|i: int|
            0 <= i < final(party).members@.len() ==> #[trigger] final(party).members@[i]
                == damaged(old(party).members@[i], 10 * (floors as int) * (floors as int)),
        msgs@.len() == old(party).members@.len(),
        forall|i: int|
            0 <= i < msgs@.len() ==> (#[trigger] msgs@[i])@ == fall_message(
                i,
                floors as int,
                old(party).members@[i].character.first_name@,
                10 * (floors as int) * (floors as int),
            ),
{
    let n = floors as i32;
    assert(floors as int * floors as int <= i32::MAX) by (nonlinear_arith)
        requires
            10 * (floors as int) * (floors as int) <= i32::MAX,
    ;
    assert(floors <= i32::MAX) by (nonlinear_arith)
        requires
            floors as int * floors as int <= i32::MAX,
    ;
    assert(0 <= 10 * (n as int) <= i32::MAX && 0 <= (10 * (n as int)) * (n as int) <= i32::MAX)
        by (nonlinear_arith)
        requires
            n == floors,
            10 * (floors as int) * (floors as int) <= i32::MAX,
    ;
    let damage = FALL_DAMAGE_PER_FLOOR_SQ * n * n;
    let ghost old_members = party.members@;
    let mut msgs: Vec<String> = Vec::new();
    let mut i: usize = 0;
    while i < party.members.len()
        invariant
            i <= party.members@.len(),
            party.members@.len() == old_members.len(),
            damage == 10 * (floors as int) * (floors as int),
            n == floors,
            forall|k: int|
                0 <= k < old_members.len() ==> #[trigger] old_members[k].state.hp - damage
                    >= i32::MIN,
            forall|k: int|
                0 <= k < i ==> #[trigger] party.members@[k] == damaged(old_members[k], damage as int),
            forall|k: int| i <= k < old_members.len() ==> #[trigger] party.members@[k] == old_members[k],
            msgs@.len() == i,
            forall|k: int|
                0 <= k < i ==> (#[trigger] msgs@[k])@ == fall_message(
                    k,
                    floors as int,
                    old_members[k].character.first_name@,
                    damage as int,
                ),
        decreases old_members.len() - i,
    {
        let mut m = party.members.remove(i);
        assert(m == old_members[i as int]);
        let raw = m.state.hp - damage;
        m.state.hp = if raw < 0 {
            0
        } else {
            raw
        };
        if m.state.hp == 0 {
            m.state.down = true;
        }
        let d = i64_text(damage as i64);
        let tail = cat3("は ", d.as_str(), " のダメージ!");
        let line = if i == 0 {
            let f = i64_text(n as i64);
            let head = cat3(f.as_str(), "フロア落下した! ", m.character.first_name.as_str());
            cat(head.as_str(), tail.as_str())
        } else {
            cat(m.character.first_name.as_str(), tail.as_str())
        };
        msgs.push(line);
        party.members.insert(i, m);
        assert(party.members@[i as int] == damaged(old_members[i as int], damage as int));
        i = i + 1;
    }
    msgs
}

/// An effect after `cycles` more cycles: permanent effects stay, timed ones
/// count down (saturating) and expire at 0.
pub open spec fn aged_effects(effects: Seq<ActiveEffect>, cycles: u64) -> Seq<ActiveEffect>
    decreases effects.len(),
{
    if effects.len() == 0 {
        Seq::empty()
    } else {
        let rest = aged_effects(effects.drop_last(), cycles);
        let e = effects.last();
        match e.remaining {
            None => rest.push(e),
            Some(r) => if r > cycles {
                rest.push(ActiveEffect { remaining: Some((r - cycles) as u64), ..e })
            } else {
                rest
            },
        }
    }
}

/// Age out temporary effects by `cycles`; permanent effects are kept forever.
/// Nothing changes when no cycle has passed.
pub fn tick_effects(party: &mut Party, cycles: u64)
    ensures
        final(party).members@.len() == old(party).members@.len(),
        forall|i: int|
            0 <= i < final(party).members@.len() ==> #[trigger] final(party).members@[i] == (
            if cycles == 0 {
                old(party).members@[i]
            } else {
                PartyMember {
                    state: CharacterState {
                        effects: final(party).members@[i].state.effects,
                        ..old(party).members@[i].state
                    },
                    ..old(party).members@[i]
                }
            }),
        forall|i: int|
            0 <= i < final(party).members@.len() && cycles > 0 ==> (#[trigger] final(party).members@[i]).state.effects@ == aged_effects(
                old(party).members@[i].state.effects@,
                cycles,
            ),
{
    if cycles == 0 {
        return ;
    }
    let ghost old_members = party.members@;
    let mut i: usize = 0;
    while i < party.members.len()
        invariant
            i <= party.members@.len(),
            party.members@.len() == old_members.len(),
            cycles > 0,
            forall|k: int|
                0 <= k < i ==> #[trigger] party.members@[k] == (PartyMember {
                    state: CharacterState {
                        effects: party.members@[k].state.effects,
                        ..old_members[k].state
                    },
                    ..old_members[k]
                }) && party.members@[k].state.effects@ == aged_effects(
                    old_members[k].state.effects@,
                    cycles,
                ),
            forall|k: int| i <= k < old_members.len() ==> #[trigger] party.members@[k] == old_members[k],
        decreases old_members.len() - i,
    {
        let mut m = party.members.remove(i);
        let old_effects = m.state.effects;
        let mut kept: Vec<ActiveEffect> = Vec::new();
        let mut j: usize = 0;
        while j < old_effects.len()
            invariant
                j <= old_effects@.len(),
                kept@ == aged_effects(old_effects@.take(j as int), cycles),
            decreases old_effects@.len() - j,
        {
            assert(old_effects@.take(j as int + 1).drop_last() =~= old_effects@.take(j as int));
            let e = &old_effects[j];
            match e.remaining {
                None => kept.push(
                    ActiveEffect {
                        stat: e.stat,
                        delta: e.delta,
                        remaining: None,
                        source: crate::item::copy_opt_text(&e.source),
                    },
                ),
                Some(r) => {
                    if r > cycles {
                        kept.push(
                            ActiveEffect {
                                stat: e.stat,
                                delta: e.delta,
                                remaining: Some(r - cycles),
                                source: crate::item::copy_opt_text(&e.source),
                            },
                        );
                    }
                },
            }
            j = j + 1;
        }
        assert(old_effects@.take(old_effects@.len() as int) =~= old_effects@);
        m.state.effects = kept;
        party.members.insert(i, m);
        i = i + 1;
    }
}

} // verus!
