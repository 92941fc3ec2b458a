//! Environmental hazards: liquid tiles hurt party members whose resistance is
//! too low, and poison lingers after leaving the tile. Cycle-driven.
use vstd::prelude::*;
use crate::character::{
    effective_fits, spec_effective, CharacterState, Party, PartyMember, StatKind,
};
use crate::dungeon::Block;
use crate::item::{ItemCatalog, ItemDef};

verus! {

/// Below this lung capacity, water drowns you (1 damage per cycle).
pub const WATER_LUNG_THRESHOLD: i32 = 100;

/// Water damage per cycle.
pub const WATER_DAMAGE: i32 = 1;

/// Below this heat resistance, fire burns you (3 damage per cycle).
pub const FIRE_HEAT_THRESHOLD: i32 = 100;

/// Fire damage per cycle.
pub const FIRE_DAMAGE: i32 = 3;

/// Below this poison resistance, poison afflicts you.
pub const POISON_RESIST_THRESHOLD: i32 = 100;

/// Lingering poison damage per cycle.
pub const POISON_DAMAGE: i32 = 1;

/// Poison lingers this many cycles after leaving the tile.
pub const POISON_LINGER_CYCLES: u32 = 32;

/// Minimum cycles between hazard log lines.
pub const HAZARD_MSG_INTERVAL: u64 = 8;

/// Which hazards hurt someone this tick.
#[derive(Clone, Copy, Debug, PartialEq, Eq, Structural)]
pub struct HazardHits {
    pub water: bool,
    pub fire: bool,
    pub poison: bool,
}

/// HP after the tile hazard (before lingering poison), and whether it was water
/// or fire that hurt.
pub open spec fn tile_damage(hp: int, block: Option<Block>, eff: crate::character::Stats, n: int) -> (
    int,
    bool,
    bool,
) {
    match block {
        Some(Block::Water) => if eff.lung_capacity < WATER_LUNG_THRESHOLD {
            (hp - WATER_DAMAGE * n, true, false)
        } else {
            (hp, false, false)
        },
        Some(Block::Fire) => if eff.heat_resist < FIRE_HEAT_THRESHOLD {
            (hp - FIRE_DAMAGE * n, false, true)
        } else {
            (hp, false, false)
        },
        _ => (hp, false, false),
    }
}

/// Lingering poison timer after the tile hazard: refreshed on an afflicting
/// poison tile.
pub open spec fn poison_timer(pr: u32, block: Option<Block>, eff: crate::character::Stats) -> u32 {
    match block {
        Some(Block::Poison) => if eff.poison_resist < POISON_RESIST_THRESHOLD {
            POISON_LINGER_CYCLES
        } else {
            pr
        },
        _ => pr,
    }
}

/// One member after a hazard tick of `cycles` cycles on `block`, and the hits.
pub open spec fn spec_hazard_member(
    m: PartyMember,
    block: Option<Block>,
    cycles: u32,
    defs: Seq<ItemDef>,
) -> (PartyMember, HazardHits) {
    let eff = spec_effective(m, defs);
    let n = cycles as int;
    let (hp1, w, f) = tile_damage(m.state.hp as int, block, eff, n);
    let pr1 = poison_timer(m.state.poison_remaining, block, eff);
    let applied = if pr1 > 0 {
        if n < pr1 {
            n
        } else {
            pr1 as int
        }
    } else {
        0
    };
    let hp2 = hp1 - POISON_DAMAGE * applied;
    let pr2 = pr1 - applied;
    let dead = hp2 <= 0;
    (
        PartyMember {
            state: CharacterState {
                hp: if dead {
                    0
                } else {
                    hp2 as i32
                },
                down: if dead {
                    true
                } else {
                    m.state.down
                },
                poison_remaining: pr2 as u32,
                ..m.state
            },
            ..m
        },
        HazardHits { water: w, fire: f, poison: pr1 > 0 },
    )
}

/// The hazard arithmetic for `m` stays inside `i32`.
pub open spec fn hazard_fits(m: PartyMember, block: Option<Block>, cycles: u32, defs: Seq<ItemDef>) -> bool {
    let eff = spec_effective(m, defs);
    let n = cycles as int;
    let (hp1, w, f) = tile_damage(m.state.hp as int, block, eff, n);
    &&& m.inventory.wf()
    &&& effective_fits(m, defs)
    &&& n <= i32::MAX
    &&& FIRE_DAMAGE * n <= i32::MAX
    &&& hp1 >= i32::MIN
    &&& hp1 - n >= i32::MIN
}

/// Apply liquid + lingering-poison damage for `cycles` cycles to the whole
/// party standing on `block`: water / fire hurt members whose lung capacity /
/// heat resistance is below the threshold, an afflicting poison tile refreshes
/// the lingering timer, lingering poison deals 1 per cycle until it runs out,
/// and HP at or below 0 becomes 0 and marks the member down. Nothing happens
/// when no cycle passed. Returns which hazards hurt someone.
pub fn hazard_tick(party: &mut Party, block: Option<Block>, cycles: u32, catalog: &ItemCatalog) -> (hits:
    HazardHits)
    requires
        forall|i: int|
            0 <= i < old(party).members@.len() ==> hazard_fits(
                #[trigger] old(party).members@[i],
                block,
                cycles,
                catalog@,
            ),
    ensures
        final(party).members@.len() == old(party).members@.len(),
        cycles == 0 ==> final(party).members@ == old(party).members@ && hits == (HazardHits {
            water: false,
            fire: false,
            poison: false,
        }),
        cycles > 0 ==> forall|i: int|
            0 <= i < final(party).members@.len() ==> #[trigger] final(party).members@[i]
                == spec_hazard_member(old(party).members@[i], block, cycles, catalog@).0,
        cycles > 0 ==> hits.water == exists|i: int|
            0 <= i < old(party).members@.len() && spec_hazard_member(
                #[trigger] old(party).members@[i],
                block,
                cycles,
                catalog@,
            ).1.water,
        cycles > 0 ==> hits.fire == exists|i: int|
            0 <= i < old(party).members@.len() && spec_hazard_member(
                #[trigger] old(party).members@[i],
                block,
                cycles,
                catalog@,
            ).1.fire,
        cycles > 0 ==> hits.poison == exists|i: int|
            0 <= i < old(party).members@.len() && spec_hazard_member(
                #[trigger] old(party).members@[i],
                block,
                cycles,
                catalog@,
            ).1.poison,
{
    let mut hits = HazardHits { water: false, fire: false, poison: false };
    if cycles == 0 {
        return hits;
    }
    let ghost old_members = party.members@;
    let mut i: usize = 0;
    while i < party.members.len()
        invariant
            i <= party.members@.len(),
            party.members@.len() == old_members.len(),
            cycles > 0,
            forall|k: int|
                0 <= k < old_members.len() ==> hazard_fits(
                    #[trigger] old_members[k],
                    block,
                    cycles,
                    catalog@,
                ),
            forall|k: int|
                0 <= k < i ==> #[trigger] party.members@[k] == spec_hazard_member(
                    old_members[k],
                    block,
                    cycles,
                    catalog@,
                ).0,
            forall|k: int| i <= k < old_members.len() ==> #[trigger] party.members@[k] == old_members[k],
            hits.water == exists|k: int|
                0 <= k < i && spec_hazard_member(
                    #[trigger] old_members[k],
                    block,
                    cycles,
                    catalog@,
                ).1.water,
            hits.fire == exists|k: int|
                0 <= k < i && spec_hazard_member(
                    #[trigger] old_members[k],
                    block,
                    cycles,
                    catalog@,
                ).1.fire,
            hits.poison == exists|k: int|
                0 <= k < i && spec_hazard_member(
                    #[trigger] old_members[k],
                    block,
                    cycles,
                    catalog@,
                ).1.poison,
        decreases old_members.len() - i,
    {
        let mut m = party.members.remove(i);
        assert(m == old_members[i as int]);
        assert(hazard_fits(old_members[i as int], block, cycles, catalog@));
        let n = cycles as i32;
        let eff = m.effective_stats(catalog);
        let ghost spec_res = spec_hazard_member(m, block, cycles, catalog@);
        let mut w = false;
        let mut f = false;
        match block {
            Some(Block::Water) => {
                if eff.get(StatKind::LungCapacity) < WATER_LUNG_THRESHOLD {
                    m.state.hp = m.state.hp - WATER_DAMAGE * n;
                    w = true;
                }
            },
            Some(Block::Fire) => {
                if eff.get(StatKind::HeatResist) < FIRE_HEAT_THRESHOLD {
                    m.state.hp = m.state.hp - FIRE_DAMAGE * n;
                    f = true;
                }
            },
            Some(Block::Poison) => {
                if eff.get(StatKind::PoisonResist) < POISON_RESIST_THRESHOLD {
                    m.state.poison_remaining = POISON_LINGER_CYCLES;
                }
            },
            _ => {},
        }
        let mut p = false;
        if m.state.poison_remaining > 0 {
            let applied = if cycles < m.state.poison_remaining {
                cycles
            } else {
                m.state.poison_remaining
            };
            m.state.hp = m.state.hp - POISON_DAMAGE * (applied as i32);
            m.state.poison_remaining = m.state.poison_remaining - applied;
            p = true;
        }
        if m.state.hp <= 0 {
            m.state.hp = 0;
            m.state.down = true;
        }
        assert(m == spec_res.0);
        assert(w == spec_res.1.water && f == spec_res.1.fire && p == spec_res.1.poison);
        hits.water = hits.water || w;
        hits.fire = hits.fire || f;
        hits.poison = hits.poison || p;
        party.members.insert(i, m);
        i = i + 1;
    }
    hits
}

/// The throttled hazard log line: when anything hurt and at least
/// `HAZARD_MSG_INTERVAL` cycles passed since the last line, the line to show
/// (fire over water over poison) and the new last-line cycle.
pub fn hazard_line(hits: HazardHits, cycle: u64, last_msg: &mut u64) -> (r: Option<&'static str>)
    ensures
        ({
            let due = (hits.water || hits.fire || hits.poison) && (if cycle >= *old(last_msg) {
                cycle - *old(last_msg)
            } else {
                0
            }) >= HAZARD_MSG_INTERVAL;
            &&& due ==> *final(last_msg) == cycle && r is Some && r.unwrap()@ == if hits.fire {
                "燃えている! ダメージを受けた"@
            } else if hits.water {
                "水に浸かっている! ダメージを受けた"@
            } else {
                "毒がまわっている! ダメージを受けた"@
            }
            &&& !due ==> *final(last_msg) == *old(last_msg) && r is None
        }),
{
    let since = cycle.saturating_sub(*last_msg);
    if (hits.water || hits.fire || hits.poison) && since >= HAZARD_MSG_INTERVAL {
        *last_msg = cycle;
        if hits.fire {
            Some("燃えている! ダメージを受けた")
        } else if hits.water {
            Some("水に浸かっている! ダメージを受けた")
        } else {
            Some("毒がまわっている! ダメージを受けた")
        }
    } else {
        None
    }
}

} // verus!
