//! Hunger / satiety: satiety drains over time and an empty stomach costs HP.
//! Fully governed by [`HungerRules`]; a complete no-op when disabled.
use vstd::prelude::*;
use crate::character::{CharacterState, Party, PartyMember};
use crate::rules::HungerRules;

verus! {

/// Minimum cycles between hunger warning lines.
pub const WARN_INTERVAL_CYCLES: u64 = 40;

/// Satiety after draining `drains` points (floored at 0).
pub open spec fn drained(satiety: i32, drains: int) -> int {
    if drains == 0 {
        satiety as int
    } else if drains >= satiety {
        0
    } else {
        satiety - drains
    }
}

/// One member after a hunger tick: satiety drained, then starvation damage of
/// `starvation_damage × cycles` when satiety is 0 (HP floored at 0, 0 HP marks
/// the member down).
pub open spec fn spec_hunger_member(m: PartyMember, drains: int, h: HungerRules, cycles: int) -> PartyMember {
    let sat = drained(m.state.satiety, drains);
    if sat == 0 {
        let raw = m.state.hp - h.starvation_damage * cycles;
        let hp = if raw < 0 {
            0
        } else {
            raw
        };
        PartyMember {
            state: CharacterState {
                satiety: sat as i32,
                hp: hp as i32,
                down: if hp == 0 {
                    true
                } else {
                    m.state.down
                },
                ..m.state
            },
            ..m
        }
    } else {
        PartyMember { state: CharacterState { satiety: sat as i32, ..m.state }, ..m }
    }
}

/// Starvation: satiety drops by the drained points, never below 0; a member
/// left at 0 satiety by the tick loses
/// `starvation_damage × cycles` HP, never going below 0, and is down once at
/// 0 HP; a member with satiety left keeps HP and down state as they were.
pub proof fn lemma_starvation(m: PartyMember, drains: int, h: HungerRules, cycles: int)
    requires
        0 <= drains,
        m.state.hp - h.starvation_damage * cycles <= i32::MAX,
    ensures
        ({
            let r = spec_hunger_member(m, drains, h, cycles);
            let lost = m.state.hp - h.starvation_damage * cycles;
            &&& r.state.satiety == 0 ==> r.state.hp == (if lost < 0 { 0 } else { lost })
            &&& r.state.satiety == 0 && lost <= 0 ==> r.state.down
            &&& r.state.satiety == 0 && lost > 0 ==> r.state.down == m.state.down
            &&& r.state.satiety != 0 ==> r.state.hp == m.state.hp && r.state.down == m.state.down
            &&& r.character == m.character && r.inventory == m.inventory
            &&& 0 <= m.state.satiety ==> r.state.satiety == (if m.state.satiety - drains < 0 {
                0
            } else {
                m.state.satiety - drains
            })
        }),
{
}

/// The drain interval actually used (at least 1).
pub open spec fn interval_of(h: HungerRules) -> int {
    if h.drain_interval_cycles < 1 {
        1
    } else {
        h.drain_interval_cycles as int
    }
}

/// Drain satiety over time and apply starvation damage. `drain_accum` carries
/// the sub-interval remainder, so one point drains per full interval elapsed
/// regardless of how cycles are batched. Returns `(starving, hungry)`: someone
/// is at 0 satiety / someone is below the warning threshold (but not 0). A
/// no-op when hunger is disabled or no cycle passed.
pub fn hunger_tick(party: &mut Party, rules: &HungerRules, cycles: u64, drain_accum: &mut u64) -> (r: (
    bool,
    bool,
))
    requires
        rules.enabled && cycles > 0 ==> *old(drain_accum) + cycles <= u64::MAX,
        rules.enabled && cycles > 0 ==> cycles <= i32::MAX,
        rules.enabled && cycles > 0 ==> i32::MIN <= rules.starvation_damage * cycles <= i32::MAX,
        rules.enabled && cycles > 0 ==> forall|i: int|
            0 <= i < old(party).members@.len() ==> i32::MIN <= #[trigger] old(party).members@[i].state.hp - rules.starvation_damage * cycles <= i32::MAX,
    ensures
        !(rules.enabled && cycles > 0) ==> final(party).members@ == old(party).members@
            && *final(drain_accum) == *old(drain_accum) && r == (false, false),
        rules.enabled && cycles > 0 ==> {
            let total = *old(drain_accum) + cycles;
            let drains = total / interval_of(*rules);
            &&& *final(drain_accum) == total % interval_of(*rules)
            &&& final(party).members@.len() == old(party).members@.len()
            &&& forall|i: int|
                0 <= i < final(party).members@.len() ==> #[trigger] final(party).members@[i]
                    == spec_hunger_member(old(party).members@[i], drains, *rules, cycles as int)
            &&& r.0 == exists|i: int|
                0 <= i < final(party).members@.len() && (#[trigger] final(party).members@[i]).state.satiety == 0
            &&& r.1 == exists|i: int|
                0 <= i < final(party).members@.len() && (#[trigger] final(party).members@[i]).state.satiety != 0 && final(party).members@[i].state.satiety
                    < rules.warn_below
        },
{
    if !rules.enabled || cycles == 0 {
        return (false, false);
    }
    let interval: u64 = if rules.drain_interval_cycles < 1 {
        1
    } else {
        rules.drain_interval_cycles
    };
    let total = *drain_accum + cycles;
    let drains = total / interval;
    *drain_accum = total % interval;
    let n = cycles as i32;
    let ghost old_members = party.members@;
    let mut starving = false;
    let mut hungry = false;
    let mut i: usize = 0;
    while i < party.members.len()
        invariant
            i <= party.members@.len(),
            party.members@.len() == old_members.len(),
            n == cycles,
            rules.enabled,
            i32::MIN <= rules.starvation_damage * cycles <= i32::MAX,
            forall|k: int|
                0 <= k < old_members.len() ==> i32::MIN <= #[trigger] old_members[k].state.hp
                    - rules.starvation_damage * cycles <= i32::MAX,
            forall|k: int|
                0 <= k < i ==> #[trigger] party.members@[k] == spec_hunger_member(
                    old_members[k],
                    drains as int,
                    *rules,
                    cycles as int,
                ),
            forall|k: int| i <= k < old_members.len() ==> #[trigger] party.members@[k] == old_members[k],
            starving == exists|k: int|
                0 <= k < i && (#[trigger] party.members@[k]).state.satiety == 0,
            hungry == exists|k: int|
                0 <= k < i && (#[trigger] party.members@[k]).state.satiety != 0
                    && party.members@[k].state.satiety < rules.warn_below,
        decreases old_members.len() - i,
    {
        let ghost prev = party.members@;
        let mut m = party.members.remove(i);
        assert(m == old_members[i as int]);
        assert(i32::MIN <= old_members[i as int].state.hp - rules.starvation_damage * cycles
            <= i32::MAX);
        let s = m.state.satiety;
        m.state.satiety = if drains == 0 {
            s
        } else if s < 0 || drains >= s as u64 {
            0
        } else {
            s - drains as i32
        };
        if m.state.satiety == 0 {
            assert(rules.starvation_damage * n == rules.starvation_damage * cycles);
            let d = rules.starvation_damage * n;
            let raw = m.state.hp - d;
            m.state.hp = if raw < 0 {
                0
            } else {
                raw
            };
            if m.state.hp == 0 {
                m.state.down = true;
            }
        }
        let warn = rules.warn_threshold();
        if m.state.satiety == 0 {
            starving = true;
        } else if m.state.satiety < warn {
            hungry = true;
        }
        party.members.insert(i, m);
        assert(forall|k: int| 0 <= k < i ==> party.members@[k] == prev[k]);
        proof {
            if hungry {
                if !(party.members@[i as int].state.satiety != 0
                    && party.members@[i as int].state.satiety < rules.warn_below) {
                    let k = choose|k: int|
                        0 <= k < i && (#[trigger] prev[k]).state.satiety != 0
                            && prev[k].state.satiety < rules.warn_below;
                    assert(party.members@[k] == prev[k]);
                }
            }
            if starving {
                if !(party.members@[i as int].state.satiety == 0) {
                    let k = choose|k: int| 0 <= k < i && (#[trigger] prev[k]).state.satiety == 0;
                    assert(party.members@[k] == prev[k]);
                }
            }
        }
        assert(party.members@[i as int] == spec_hunger_member(
            old_members[i as int],
            drains as int,
            *rules,
            cycles as int,
        ));
        i = i + 1;
    }
    (starving, hungry)
}

/// The throttled hunger warning: when someone starves or is hungry and at
/// least `WARN_INTERVAL_CYCLES` passed since the last warning, the line to show
/// (starving over hungry) and the new last-warning cycle.
pub fn hunger_warning(starving: bool, hungry: bool, cycle: u64, last_warn: &mut u64) -> (r: Option<
    &'static str,
>)
    ensures
        ({
            let due = (starving || hungry) && (if cycle >= *old(last_warn) {
                cycle - *old(last_warn)
            } else {
                0
            }) >= WARN_INTERVAL_CYCLES;
            &&& due ==> *final(last_warn) == cycle && r is Some && r.unwrap()@ == if starving {
                "うえじにしそうだ!"@
            } else {
                "おなかがすいた…"@
            }
            &&& !due ==> *final(last_warn) == *old(last_warn) && r is None
        }),
{
    if (starving || hungry) && cycle.saturating_sub(*last_warn) >= WARN_INTERVAL_CYCLES {
        *last_warn = cycle;
        if starving {
            Some("うえじにしそうだ!")
        } else {
            Some("おなかがすいた…")
        }
    } else {
        None
    }
}

} // verus!
