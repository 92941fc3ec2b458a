//! The party's combat actions: guarding, concentrating, attacking the monster
//! ahead, throwing a held item and stealing. Chance is an input: each roll is
//! a uniform draw in `0..100` that succeeds when below the chance in percent.
use vstd::prelude::*;
use crate::character::{CharacterState, Party, PartyMember, StatKind, effective_fits, spec_effective};
use crate::combat::{
    base_damage_in_range, final_damage, hit_chance, spec_final_damage, spec_hit_chance,
};
use crate::dungeon::GridPos;
use crate::item::{ItemCatalog, ItemDef, ItemInstance, SlotRef};
use crate::monster::{
    AnimKind, Monster, MonsterCatalog, MonsterDef, actor_pick, award_messages, defeat_message, facing_toward,
    footprints_fit, gain_fits, gained, kill_monster, monster_at, next_actor, spec_exp_share,
    spec_facing_toward, spec_weapon_stats, standing_count, target_pick, weapon_stats,
};
use crate::player::{Player, pos_in_range, step_target};
use crate::text::{cat, cat4, signed_decimal, i64_text};

verus! {

/// Member `m` after the party takes a guard stance: a standing member guards.
pub open spec fn guarded_member(m: PartyMember) -> PartyMember {
    if m.state.down {
        m
    } else {
        PartyMember { state: CharacterState { guarding: true, ..m.state }, ..m }
    }
}

/// Member `m` after the party starts concentrating: a standing member
/// concentrates.
pub open spec fn concentrating_member(m: PartyMember) -> PartyMember {
    if m.state.down {
        m
    } else {
        PartyMember { state: CharacterState { concentrating: true, ..m.state }, ..m }
    }
}

/// Every standing member guards (halving the next hit taken). Returns the
/// log line.
pub fn guard_party(party: &mut Party) -> (msg: &'static str)
    ensures
        final(party).members@ == old(party).members@.map_values(|m: PartyMember| guarded_member(m)),
        msg@ == "身がまえた"@,
{
    let ghost ms0 = party.members@;
    let mut i: usize = 0;
    while i < party.members.len()
        invariant
            i <= party.members@.len() == ms0.len(),
            ms0 == old(party).members@,
            forall|k: int| 0 <= k < i ==> #[trigger] party.members@[k] == guarded_member(ms0[k]),
            forall|k: int| i <= k < ms0.len() ==> #[trigger] party.members@[k] == ms0[k],
        decreases ms0.len() - i,
    {
        let mut m = party.members.remove(i);
        assert(m == ms0[i as int]);
        if !m.state.down {
            m.state.guarding = true;
        }
        party.members.insert(i, m);
        i = i + 1;
    }
    assert(party.members@ =~= ms0.map_values(|m: PartyMember| guarded_member(m)));
    "身がまえた"
}

/// Every standing member concentrates (recovering concentration faster).
/// Returns the log line.
pub fn concentrate_party(party: &mut Party) -> (msg: &'static str)
    ensures
        final(party).members@ == old(party).members@.map_values(|m: PartyMember| concentrating_member(m)),
        msg@ == "精神を統一している"@,
{
    let ghost ms0 = party.members@;
    let mut i: usize = 0;
    while i < party.members.len()
        invariant
            i <= party.members@.len() == ms0.len(),
            ms0 == old(party).members@,
            forall|k: int| 0 <= k < i ==> #[trigger] party.members@[k] == concentrating_member(ms0[k]),
            forall|k: int| i <= k < ms0.len() ==> #[trigger] party.members@[k] == ms0[k],
        decreases ms0.len() - i,
    {
        let mut m = party.members.remove(i);
        assert(m == ms0[i as int]);
        if !m.state.down {
            m.state.concentrating = true;
        }
        party.members.insert(i, m);
        i = i + 1;
    }
    assert(party.members@ =~= ms0.map_values(|m: PartyMember| concentrating_member(m)));
    "精神を統一している"
}

/// The attacker after striking: no longer concentrating, its concentration
/// spent.
pub open spec fn spent(m: PartyMember) -> PartyMember {
    PartyMember { state: CharacterState { concentrating: false, concentration: 0, ..m.state }, ..m }
}

/// The chance (percent) that member `a` hits a monster of kind `d`.
pub open spec fn attack_chance(a: PartyMember, defs: Seq<ItemDef>, d: MonsterDef) -> int {
    spec_hit_chance(
        spec_effective(a, defs).spec_get(StatKind::Agility) as int,
        d.agility as int,
        spec_weapon_stats(a, defs).1 as int,
    )
}

/// The damage member `a` deals a monster of kind `d` when it hits: its weapon
/// and attack against the monster's defense, plus the bonus of its current
/// concentration.
pub open spec fn attack_damage(a: PartyMember, defs: Seq<ItemDef>, d: MonsterDef) -> int {
    let eff = spec_effective(a, defs);
    let c = eff.spec_get(StatKind::Concentration);
    spec_final_damage(
        spec_weapon_stats(a, defs).0 as int,
        eff.spec_get(StatKind::Attack) as int,
        d.defense as int,
        a.state.concentration as int,
        if c < 1 {
            1
        } else {
            c as int
        },
    )
}

/// Monster `mon` hit for `dmg` by the party at `from`: it loses the HP, plays
/// its hit animation and turns toward the party.
pub open spec fn struck_monster(mon: Monster, dmg: int, from: GridPos) -> Monster {
    Monster { hp: (mon.hp - dmg) as i32, anim: AnimKind::Hit, facing: spec_facing_toward(mon.pos, from), ..mon }
}

/// The party `ms` after the monster of kind `d` was defeated: its standing
/// members share the experience.
pub open spec fn rewarded(ms: Seq<PartyMember>, d: MonsterDef) -> Seq<PartyMember> {
    let share = spec_exp_share(d.exp as int, standing_count(ms) as int);
    ms.map_values(|m: PartyMember| if m.state.down { m } else { gained(m, share) })
}

/// A monster `m` defeated at `cycle`: dead with no HP, its death recorded and
/// animated, its carried items dropped.
pub open spec fn defeated(m: Monster, after: Monster, cycle: u64) -> bool {
    &&& after == (Monster { hp: 0, dead: true, dead_cycle: cycle, anim: AnimKind::Death, carry: after.carry, ..m })
    &&& after.carry@.len() == 0
}

/// The combat values stay in range for every member against every monster
/// kind: hit chance and damage arithmetic, and sharing a kill's experience.
pub open spec fn combat_fits(ms: Seq<PartyMember>, items: Seq<ItemDef>, kinds: Seq<MonsterDef>) -> bool {
    &&& ms.len() <= i32::MAX
    &&& forall|i: int| 0 <= i < ms.len() ==> (#[trigger] ms[i]).inventory.wf() && effective_fits(ms[i], items)
    &&& forall|i: int, k: int|
        0 <= i < ms.len() && 0 <= k < kinds.len() ==> {
            let eff = spec_effective(#[trigger] ms[i], items);
            &&& i32::MIN <= eff.spec_get(StatKind::Agility) - (#[trigger] kinds[k]).agility <= i32::MAX
            &&& base_damage_in_range(
                spec_weapon_stats(ms[i], items).0 as int,
                eff.spec_get(StatKind::Attack) as int,
                kinds[k].defense as int,
            )
        }
    &&& forall|k: int|
        0 <= k < kinds.len() ==> (#[trigger] kinds[k]).exp + standing_count(ms) - 1 <= i32::MAX && forall|i: int|
            0 <= i < ms.len() && !ms[i].state.down ==> gain_fits(
                #[trigger] ms[i],
                spec_exp_share(kinds[k].exp as int, standing_count(ms) as int),
            )
}

/// Every living monster has HP left to lose.
pub open spec fn monsters_ok(ms: Seq<Monster>) -> bool {
    &&& footprints_fit(ms)
    &&& forall|i: int| 0 <= i < ms.len() && !(#[trigger] ms[i]).dead ==> ms[i].hp >= 0
}

/// What an attack did.
#[derive(Debug)]
pub struct AttackOutcome {
    /// The log lines, in order.
    pub msgs: Vec<String>,
    /// The items a defeated monster dropped (to lie at `drop_at`).
    pub dropped: Vec<String>,
    pub drop_at: GridPos,
    /// The monster attacked, if one stood ahead.
    pub target: Option<usize>,
    /// The member who attacked, if one stood.
    pub attacker: Option<usize>,
}

/// Changing a member's state but not whether it is down keeps the count of
/// standing members.
proof fn lemma_standing_update(ms: Seq<PartyMember>, i: int, m: PartyMember)
    requires
        0 <= i < ms.len(),
        m.state.down == ms[i].state.down,
    ensures
        standing_count(ms.update(i, m)) == standing_count(ms),
    decreases ms.len(),
{
    if i < ms.len() - 1 {
        assert(ms.update(i, m).drop_last() =~= ms.drop_last().update(i, m));
        lemma_standing_update(ms.drop_last(), i, m);
    } else {
        assert(ms.update(i, m).drop_last() =~= ms.drop_last());
    }
}

/// The log line of a hit for `dmg` by `name` on a monster called `mname`.
pub open spec fn hit_line(name: Seq<char>, mname: Seq<char>, dmg: int) -> Seq<char> {
    name + "の こうげき! "@ + mname + "に "@ + signed_decimal(dmg) + "のダメージ"@
}

/// The index of the monster kind a catalog lookup of `id` finds.
proof fn lemma_kind_index(defs: Seq<MonsterDef>, id: Seq<char>)
    ensures
        crate::monster::lookup_monster(defs, id) matches Some(d) ==> exists|k: int| 0 <= k < defs.len() && defs[k] == d,
{
    crate::item::lemma_first_index_of(crate::monster::monster_ids(defs), id);
    match crate::item::first_index_of(crate::monster::monster_ids(defs), id) {
        Some(k) => {
            assert(defs[k] == defs[k]);
        },
        None => {},
    }
}

/// What the attacking member brings to a strike.
struct Striker {
    name: String,
    agility: i32,
    attack: i32,
    sharp: i32,
    grip: i32,
    cur: i32,
    maxc: i32,
}

/// Take the attacker `ai`'s combat values and spend its concentration.
fn ready_attacker(party: &mut Party, ai: usize, item_catalog: &ItemCatalog) -> (s: Striker)
    requires
        ai < old(party).members@.len(),
        old(party).members@[ai as int].inventory.wf(),
        effective_fits(old(party).members@[ai as int], item_catalog@),
    ensures
        ({
            let a0 = old(party).members@[ai as int];
            let eff = spec_effective(a0, item_catalog@);
            let c = eff.spec_get(StatKind::Concentration);
            &&& final(party).members@ == old(party).members@.update(ai as int, spent(a0))
            &&& s.name@ == a0.character.first_name@
            &&& s.agility == eff.spec_get(StatKind::Agility)
            &&& s.attack == eff.spec_get(StatKind::Attack)
            &&& (s.sharp, s.grip) == spec_weapon_stats(a0, item_catalog@)
            &&& s.cur == a0.state.concentration
            &&& s.maxc == if c < 1 {
                1
            } else {
                c
            }
        }),
{
    let ghost ms0 = party.members@;
    let mut a = party.members.remove(ai);
    assert(a == ms0[ai as int]);
    let eff = a.effective_stats(item_catalog);
    let (sharp, grip) = weapon_stats(&a, item_catalog);
    let name = a.character.first_name.clone();
    let agility = eff.get(StatKind::Agility);
    let attack = eff.get(StatKind::Attack);
    let cur = a.state.concentration;
    let mc = eff.get(StatKind::Concentration);
    let maxc = if mc < 1 {
        1
    } else {
        mc
    };
    a.state.concentrating = false;
    a.state.concentration = 0;
    party.members.insert(ai, a);
    assert(party.members@ =~= ms0.update(ai as int, spent(ms0[ai as int])));
    Striker { name, agility, attack, sharp, grip, cur, maxc }
}

/// Copy the lines of `more` after those of `msgs`.
fn append_lines(msgs: &mut Vec<String>, more: &Vec<String>)
    ensures
        final(msgs)@.map_values(|s: String| s@) == old(msgs)@.map_values(|s: String| s@) + more@.map_values(
            |s: String| s@,
        ),
{
    let ghost before = msgs@;
    let mut j: usize = 0;
    while j < more.len()
        invariant
            j <= more@.len(),
            before == old(msgs)@,
            msgs@.map_values(|s: String| s@) == before.map_values(|s: String| s@) + more@.take(j as int).map_values(
                |s: String| s@,
            ),
        decreases more@.len() - j,
    {
        let ghost pre = msgs@;
        msgs.push(more[j].clone());
        assert(msgs@.map_values(|s: String| s@) =~= pre.map_values(|s: String| s@).push(more@[j as int]@));
        assert(more@.take(j as int + 1).map_values(|s: String| s@) =~= more@.take(j as int).map_values(|s: String| s@).push(
            more@[j as int]@,
        ));
        j = j + 1;
    }
    assert(more@.take(more@.len() as int) =~= more@);
}

/// Resolve striker `s` against monster `t` (of kind `def`) for the party at
/// `from`: a miss when `roll` is not below the hit chance, else the damage,
/// and a defeat at 0 HP. Returns the log lines and the dropped items.
fn resolve_strike(
    party: &mut Party,
    monsters: &mut Vec<Monster>,
    t: usize,
    def: &MonsterDef,
    s: &Striker,
    from: GridPos,
    cycle: u64,
    roll: u32,
) -> (r: (Vec<String>, Vec<String>))
    requires
        t < old(monsters)@.len(),
        !old(monsters)@[t as int].dead ==> old(monsters)@[t as int].hp >= 0,
        !old(monsters)@[t as int].dead,
        i32::MIN <= s.agility - def.agility <= i32::MAX,
        base_damage_in_range(s.sharp as int, s.attack as int, def.defense as int),
        old(party).members@.len() <= i32::MAX,
        def.exp + standing_count(old(party).members@) - 1 <= i32::MAX,
        forall|i: int|
            0 <= i < old(party).members@.len() && !old(party).members@[i].state.down ==> gain_fits(
                #[trigger] old(party).members@[i],
                spec_exp_share(def.exp as int, standing_count(old(party).members@) as int),
            ),
    ensures
        ({
            let mon0 = old(monsters)@[t as int];
            let p0 = old(party).members@;
            let line = hit_line(s.name@, def.name@, spec_final_damage(s.sharp as int, s.attack as int, def.defense as int, s.cur as int, s.maxc as int));
            if roll >= spec_hit_chance(s.agility as int, def.agility as int, s.grip as int) {
                &&& final(party).members@ == p0
                &&& final(monsters)@ == old(monsters)@
                &&& r.0@.map_values(|x: String| x@) == seq![s.name@ + "の こうげき! ミス!"@]
                &&& r.1@.len() == 0
            } else {
                let dmg = spec_final_damage(s.sharp as int, s.attack as int, def.defense as int, s.cur as int, s.maxc as int);
                let m1 = struck_monster(mon0, dmg, from);
                if m1.hp > 0 {
                    &&& final(monsters)@ == old(monsters)@.update(t as int, m1)
                    &&& final(party).members@ == p0
                    &&& r.0@.map_values(|x: String| x@) == seq![line]
                    &&& r.1@.len() == 0
                } else {
                    &&& final(monsters)@ == old(monsters)@.update(t as int, final(monsters)@[t as int])
                    &&& defeated(m1, final(monsters)@[t as int], cycle)
                    &&& r.1@ == mon0.carry@
                    &&& final(party).members@ == rewarded(p0, *def)
                    &&& r.0@.map_values(|x: String| x@) == seq![line, defeat_message(def.name@, def.exp as int)]
                        + award_messages(p0, spec_exp_share(def.exp as int, standing_count(p0) as int))
                }
            }
        }),
{
    let mut msgs: Vec<String> = Vec::new();
    let mut dropped: Vec<String> = Vec::new();
    let chance = hit_chance(s.agility, def.agility, s.grip);
    if (roll as i64) >= (chance as i64) {
        msgs.push(cat(s.name.as_str(), "の こうげき! ミス!"));
        assert(msgs@.map_values(|x: String| x@) =~= seq![s.name@ + "の こうげき! ミス!"@]);
        return (msgs, dropped);
    }
    let dmg = final_damage(s.sharp, s.attack, def.defense, s.cur, s.maxc);
    let mut mon = monsters.remove(t);
    mon.hp = mon.hp - dmg;
    mon.anim = AnimKind::Hit;
    mon.facing = facing_toward(mon.pos, from);
    let a1 = cat4(s.name.as_str(), "の こうげき! ", def.name.as_str(), "に ");
    let line = crate::text::cat3(a1.as_str(), i64_text(dmg as i64).as_str(), "のダメージ");
    msgs.push(line);
    assert(msgs@.map_values(|x: String| x@) =~= seq![line@]);
    if mon.hp <= 0 {
        let ghost p0 = party.members@;
        let (kmsgs, d) = kill_monster(&mut mon, def, cycle, party);
        dropped = d;
        append_lines(&mut msgs, &kmsgs);
        assert(party.members@ =~= rewarded(p0, *def));
    }
    monsters.insert(t, mon);
    assert(monsters@ =~= old(monsters)@.update(t as int, mon));
    (msgs, dropped)
}

/// Attack the monster ahead of the party: the first living monster covering
/// the cell in front is the target; the rotation picks the attacking member
/// (see [`actor_pick`]), whose concentration is spent by the attack. The
/// attack hits when `roll` is below [`attack_chance`] and then deals
/// [`attack_damage`]; a monster brought to 0 HP is defeated (see
/// [`kill_monster`]): it drops what it carried and the standing members share
/// its experience.
pub fn player_attack(
    party: &mut Party,
    rot: &mut usize,
    monsters: &mut Vec<Monster>,
    catalog: &MonsterCatalog,
    item_catalog: &ItemCatalog,
    player: &Player,
    cycle: u64,
    roll: u32,
) -> (r: AttackOutcome)
    requires
        pos_in_range(player.pos),
        monsters_ok(old(monsters)@),
        combat_fits(old(party).members@, item_catalog@, catalog@),
    ensures
        target_pick(old(monsters)@, catalog@, step_target(player.pos, player.facing), r.target),
        match r.target {
            None => {
                &&& r.msgs@.map_values(|s: String| s@) == seq!["目の前に敵はいない"@]
                &&& final(party).members@ == old(party).members@ && *final(rot) == *old(rot)
                &&& final(monsters)@ == old(monsters)@
                &&& r.attacker is None && r.dropped@.len() == 0
            },
            Some(t) => {
                &&& actor_pick(old(party).members@, *old(rot), r.attacker, *final(rot))
                &&& match r.attacker {
                    None => {
                        &&& final(party).members@ == old(party).members@
                        &&& final(monsters)@ == old(monsters)@
                        &&& r.msgs@.len() == 0 && r.dropped@.len() == 0
                    },
                    Some(ai) => {
                        let a0 = old(party).members@[ai as int];
                        let p1 = old(party).members@.update(ai as int, spent(a0));
                        let mon0 = old(monsters)@[t as int];
                        let name = a0.character.first_name@;
                        match catalog.spec_get(mon0.def_id@) {
                            None => {
                                &&& final(party).members@ == p1
                                &&& final(monsters)@ == old(monsters)@
                                &&& r.msgs@.len() == 0 && r.dropped@.len() == 0
                            },
                            Some(d) => if roll >= attack_chance(a0, item_catalog@, d) {
                                &&& final(party).members@ == p1
                                &&& final(monsters)@ == old(monsters)@
                                &&& r.msgs@.map_values(|s: String| s@) == seq![name + "の こうげき! ミス!"@]
                                &&& r.dropped@.len() == 0
                            } else {
                                let dmg = attack_damage(a0, item_catalog@, d);
                                let m1 = struck_monster(mon0, dmg, player.pos);
                                let line = hit_line(name, d.name@, dmg);
                                &&& r.drop_at == mon0.pos
                                &&& if m1.hp > 0 {
                                    &&& final(monsters)@ == old(monsters)@.update(t as int, m1)
                                    &&& final(party).members@ == p1
                                    &&& r.msgs@.map_values(|s: String| s@) == seq![line]
                                    &&& r.dropped@.len() == 0
                                } else {
                                    &&& final(monsters)@ == old(monsters)@.update(t as int, final(monsters)@[t as int])
                                    &&& defeated(m1, final(monsters)@[t as int], cycle)
                                    &&& r.dropped@ == mon0.carry@
                                    &&& final(party).members@ == rewarded(p1, d)
                                    &&& r.msgs@.map_values(|s: String| s@) == seq![line, defeat_message(d.name@, d.exp as int)]
                                        + award_messages(p1, spec_exp_share(d.exp as int, standing_count(p1) as int))
                                }
                            },
                        }
                    },
                }
            },
        },
{
    let (dx, dy) = player.facing.delta();
    let front = GridPos { x: player.pos.x + dx, y: player.pos.y + dy, floor: player.pos.floor };
    let mut msgs: Vec<String> = Vec::new();
    let dropped: Vec<String> = Vec::new();
    let t = match monster_at(front, monsters, catalog) {
        None => {
            msgs.push(String::from_str("目の前に敵はいない"));
            assert(msgs@.map_values(|s: String| s@) =~= seq!["目の前に敵はいない"@]);
            return AttackOutcome { msgs, dropped, drop_at: front, target: None, attacker: None };
        },
        Some(t) => t,
    };
    let ai = match next_actor(party, rot) {
        None => {
            return AttackOutcome { msgs, dropped, drop_at: front, target: Some(t), attacker: None };
        },
        Some(ai) => ai,
    };
    let ghost ms0 = party.members@;
    proof {
        let k = choose|k: nat| #![trigger crate::monster::advance(*old(rot), k)]
            k < ms0.len() && ai == crate::monster::rotation_slot(*old(rot), k, ms0.len() as int) && !ms0[ai as int].state.down
                && (forall|j: nat| j < k ==> (#[trigger] ms0[crate::monster::rotation_slot(*old(rot), j, ms0.len() as int)]).state.down)
                && *rot == crate::monster::advance(*old(rot), k + 1);
        assert(ai < ms0.len());
    }
    let s = ready_attacker(party, ai, item_catalog);
    proof {
        lemma_standing_update(ms0, ai as int, spent(ms0[ai as int]));
    }
    let def = match catalog.get(monsters[t].def_id.as_str()) {
        None => {
            return AttackOutcome { msgs, dropped, drop_at: front, target: Some(t), attacker: Some(ai) };
        },
        Some(d) => d,
    };
    let drop_at = monsters[t].pos;
    proof {
        lemma_kind_index(catalog@, monsters@[t as int].def_id@);
        let k = choose|k: int| 0 <= k < catalog@.len() && catalog@[k] == *def;
        assert(i32::MIN <= spec_effective(ms0[ai as int], item_catalog@).spec_get(StatKind::Agility) - catalog@[k].agility <= i32::MAX);
        assert(base_damage_in_range(
            spec_weapon_stats(ms0[ai as int], item_catalog@).0 as int,
            spec_effective(ms0[ai as int], item_catalog@).spec_get(StatKind::Attack) as int,
            catalog@[k].defense as int,
        ));
        assert(catalog@[k].exp + standing_count(ms0) - 1 <= i32::MAX);
        let p1 = party.members@;
        assert forall|i: int|
            0 <= i < p1.len() && !p1[i].state.down implies gain_fits(
                #[trigger] p1[i],
                spec_exp_share(def.exp as int, standing_count(p1) as int),
            ) by {
            assert(!ms0[i].state.down);
            assert(gain_fits(ms0[i], spec_exp_share(catalog@[k].exp as int, standing_count(ms0) as int)));
        }
        assert(crate::monster::covers(monsters@[t as int], catalog@, front));
    }
    let (m2, d2) = resolve_strike(party, monsters, t, def, &s, player.pos, cycle, roll);
    AttackOutcome { msgs: m2, dropped: d2, drop_at, target: Some(t), attacker: Some(ai) }
}

/// The first living monster of `ms` covering `pos` (see [`target_pick`]).
pub open spec fn first_cover(ms: Seq<Monster>, defs: Seq<MonsterDef>, pos: GridPos) -> Option<usize> {
    choose|r: Option<usize>| target_pick(ms, defs, pos, r)
}

/// The monster a search picks is [`first_cover`].
proof fn lemma_target_unique(ms: Seq<Monster>, defs: Seq<MonsterDef>, pos: GridPos, r: Option<usize>)
    requires
        target_pick(ms, defs, pos, r),
    ensures
        r == first_cover(ms, defs, pos),
{
    let r2 = first_cover(ms, defs, pos);
    assert(target_pick(ms, defs, pos, r2));
    match (r, r2) {
        (Some(i), Some(j)) => {
            if i < j {
                assert(!crate::monster::covers(ms[i as int], defs, pos));
            } else if j < i {
                assert(!crate::monster::covers(ms[j as int], defs, pos));
            }
        },
        (Some(i), None) => {
            assert(!crate::monster::covers(ms[i as int], defs, pos));
        },
        (None, Some(j)) => {
            assert(!crate::monster::covers(ms[j as int], defs, pos));
        },
        (None, None) => {},
    }
}

/// The cell `k` steps from `start` heading `dir`.
pub open spec fn along_dir(start: GridPos, dir: crate::dungeon::Facing, k: int) -> GridPos {
    GridPos {
        x: (start.x + dir.spec_delta().0 * k) as i32,
        y: (start.y + dir.spec_delta().1 * k) as i32,
        floor: start.floor,
    }
}

/// A thrown item's flight from step `step` on, with `n` steps of range left,
/// having last been over `land`: the first monster in its path stops it (it
/// falls on the cell before), a wall, a door or the edge of the grid stops it
/// (it falls where it was), otherwise it flies on. Gives where it lands and
/// the monster it hit.
pub open spec fn flight(
    level: crate::dungeon::Level,
    ms: Seq<Monster>,
    defs: Seq<MonsterDef>,
    start: GridPos,
    dir: crate::dungeon::Facing,
    step: int,
    n: nat,
    land: GridPos,
) -> (GridPos, Option<usize>)
    decreases n,
{
    if n == 0 {
        (land, None)
    } else {
        let p = along_dir(start, dir, step);
        match first_cover(ms, defs, p) {
            Some(e) => (along_dir(start, dir, step - 1), Some(e)),
            None => match level.spec_block_at(p) {
                None => (land, None),
                Some(crate::dungeon::Block::Wall) => (land, None),
                Some(crate::dungeon::Block::Door { .. }) => (land, None),
                _ => flight(level, ms, defs, start, dir, step + 1, (n - 1) as nat, p),
            },
        }
    }
}

/// A cell far enough from the edge of the `i32` range for a throw.
pub open spec fn throw_room(p: GridPos) -> bool {
    i32::MIN + 6 <= p.x <= i32::MAX - 6 && i32::MIN + 6 <= p.y <= i32::MAX - 6
}

/// Fly a thrown item from `start` heading `dir` for up to `range` cells (see
/// [`flight`]).
fn fly(
    level: &crate::dungeon::Level,
    monsters: &Vec<Monster>,
    catalog: &MonsterCatalog,
    start: GridPos,
    dir: crate::dungeon::Facing,
    range: i32,
) -> (r: (GridPos, Option<usize>))
    requires
        1 <= range <= 6,
        throw_room(start),
        footprints_fit(monsters@),
    ensures
        r == flight(*level, monsters@, catalog@, start, dir, 1, range as nat, start),
        r.1 matches Some(e) ==> e < monsters@.len() && !monsters@[e as int].dead,
{
    let (dx, dy) = dir.delta();
    let mut land = start;
    let mut step: i32 = 1;
    while step <= range
        invariant
            1 <= step <= range + 1,
            range <= 6,
            throw_room(start),
            footprints_fit(monsters@),
            (dx as int, dy as int) == dir.spec_delta(),
            -1 <= dx <= 1 && -1 <= dy <= 1,
            flight(*level, monsters@, catalog@, start, dir, 1, range as nat, start) == flight(
                *level,
                monsters@,
                catalog@,
                start,
                dir,
                step as int,
                (range - step + 1) as nat,
                land,
            ),
        decreases range - step + 1,
    {
        assert(-6 <= dx * step <= 6 && -6 <= dy * step <= 6) by (nonlinear_arith)
            requires
                -1 <= dx <= 1,
                -1 <= dy <= 1,
                1 <= step <= 6,
        ;
        let p = GridPos { x: start.x + dx * step, y: start.y + dy * step, floor: start.floor };
        assert(p == along_dir(start, dir, step as int));
        match monster_at(p, monsters, catalog) {
            Some(e) => {
                proof {
                    lemma_target_unique(monsters@, catalog@, p, Some(e));
                }
                assert(-6 <= dx * (step - 1) <= 6 && -6 <= dy * (step - 1) <= 6) by (nonlinear_arith)
                    requires
                        -1 <= dx <= 1,
                        -1 <= dy <= 1,
                        1 <= step <= 6,
                ;
                let back = GridPos { x: start.x + dx * (step - 1), y: start.y + dy * (step - 1), floor: start.floor };
                assert(back == along_dir(start, dir, step - 1));
                return (back, Some(e));
            },
            None => {
                proof {
                    lemma_target_unique(monsters@, catalog@, p, None);
                }
            },
        }
        match level.block_at(p) {
            None => {
                return (land, None);
            },
            Some(crate::dungeon::Block::Wall) => {
                return (land, None);
            },
            Some(crate::dungeon::Block::Door { .. }) => {
                return (land, None);
            },
            _ => {
                land = p;
            },
        }
        step = step + 1;
    }
    (land, None)
}

/// The hand a member throws from: the first hand (left, then right) holding
/// an item.
pub open spec fn held_slot(m: PartyMember) -> Option<SlotRef> {
    if m.inventory@.item_at(SlotRef::Hand(0)) is Some {
        Some(SlotRef::Hand(0))
    } else if m.inventory@.item_at(SlotRef::Hand(1)) is Some {
        Some(SlotRef::Hand(1))
    } else {
        None
    }
}

/// Every item definition's thrown damage is an `i32`.
pub open spec fn throws_fit(items: Seq<ItemDef>) -> bool {
    forall|k: int|
        0 <= k < items.len() ==> i32::MIN <= (#[trigger] items[k]).sharpness + crate::combat::tdiv(
            items[k].throwability as int,
            5,
        ) <= i32::MAX
}

/// Every monster's HP less any item's thrown damage is an `i32`.
pub open spec fn throw_hits_fit(ms: Seq<Monster>, items: Seq<ItemDef>) -> bool {
    forall|i: int, k: int|
        0 <= i < ms.len() && 0 <= k < items.len() ==> (#[trigger] ms[i]).hp - crate::combat::spec_throw_damage(
            (#[trigger] items[k]).sharpness as int,
            items[k].throwability as int,
        ) <= i32::MAX
}

/// What a throw did.
#[derive(Debug)]
pub struct ThrowOutcome {
    /// The log lines, in order.
    pub msgs: Vec<String>,
    /// The thrown item and where it landed, if something was thrown.
    pub landed: Option<(ItemInstance, GridPos)>,
    /// The items a defeated monster dropped (to lie at `drop_at`).
    pub dropped: Vec<String>,
    pub drop_at: GridPos,
    /// The monster hit, if any.
    pub hit: Option<usize>,
}

/// The item lookup finds a definition among `defs`.
proof fn lemma_item_index(defs: Seq<ItemDef>, id: Seq<char>)
    ensures
        crate::item::lookup_item(defs, id) matches Some(d) ==> exists|k: int| 0 <= k < defs.len() && defs[k] == d,
{
    crate::item::lemma_first_index_of(crate::item::item_ids(defs), id);
    match crate::item::first_index_of(crate::item::item_ids(defs), id) {
        Some(k) => {
            assert(defs[k] == defs[k]);
        },
        None => {},
    }
}

/// Land thrown damage `dmg` on monster `e` for the party at `from`: it is
/// struck, and (its kind known) announced, and defeated at 0 HP.
fn throw_hit(
    party: &mut Party,
    monsters: &mut Vec<Monster>,
    e: usize,
    catalog: &MonsterCatalog,
    dmg: i32,
    from: GridPos,
    cycle: u64,
) -> (r: (Vec<String>, Vec<String>))
    requires
        e < old(monsters)@.len(),
        old(monsters)@[e as int].hp >= 0,
        old(monsters)@[e as int].hp - dmg <= i32::MAX,
        old(party).members@.len() <= i32::MAX,
        forall|k: int|
            0 <= k < catalog@.len() ==> (#[trigger] catalog@[k]).exp + standing_count(old(party).members@) - 1
                <= i32::MAX && forall|i: int|
                0 <= i < old(party).members@.len() && !old(party).members@[i].state.down ==> gain_fits(
                    #[trigger] old(party).members@[i],
                    spec_exp_share(catalog@[k].exp as int, standing_count(old(party).members@) as int),
                ),
    ensures
        ({
            let mon0 = old(monsters)@[e as int];
            let m1 = struck_monster(mon0, dmg as int, from);
            let p0 = old(party).members@;
            match catalog.spec_get(mon0.def_id@) {
                None => {
                    &&& final(monsters)@ == old(monsters)@.update(e as int, m1)
                    &&& final(party).members@ == p0
                    &&& r.0@.len() == 0 && r.1@.len() == 0
                },
                Some(md) => {
                    let line = md.name@ + "に "@ + signed_decimal(dmg as int) + "のダメージ"@;
                    if m1.hp > 0 {
                        &&& final(monsters)@ == old(monsters)@.update(e as int, m1)
                        &&& final(party).members@ == p0
                        &&& r.0@.map_values(|x: String| x@) == seq![line]
                        &&& r.1@.len() == 0
                    } else {
                        &&& final(monsters)@ == old(monsters)@.update(e as int, final(monsters)@[e as int])
                        &&& defeated(m1, final(monsters)@[e as int], cycle)
                        &&& r.1@ == mon0.carry@
                        &&& final(party).members@ == rewarded(p0, md)
                        &&& r.0@.map_values(|x: String| x@) == seq![line, defeat_message(md.name@, md.exp as int)]
                            + award_messages(p0, spec_exp_share(md.exp as int, standing_count(p0) as int))
                    }
                },
            }
        }),
{
    let mut msgs: Vec<String> = Vec::new();
    let mut dropped: Vec<String> = Vec::new();
    let mut mon = monsters.remove(e);
    mon.hp = mon.hp - dmg;
    mon.anim = AnimKind::Hit;
    mon.facing = facing_toward(mon.pos, from);
    match catalog.get(mon.def_id.as_str()) {
        Some(md) => {
            let line = crate::text::cat3(cat(md.name.as_str(), "に ").as_str(), i64_text(dmg as i64).as_str(), "のダメージ");
            msgs.push(line);
            assert(msgs@.map_values(|x: String| x@) =~= seq![line@]);
            if mon.hp <= 0 {
                proof {
                    lemma_kind_index(catalog@, mon.def_id@);
                    let k = choose|k: int| 0 <= k < catalog@.len() && catalog@[k] == *md;
                    assert(catalog@[k].exp + standing_count(party.members@) - 1 <= i32::MAX);
                }
                let ghost p0 = party.members@;
                let (kmsgs, d) = kill_monster(&mut mon, md, cycle, party);
                dropped = d;
                append_lines(&mut msgs, &kmsgs);
                assert(party.members@ =~= rewarded(p0, *md));
            }
        },
        None => {},
    }
    monsters.insert(e, mon);
    assert(monsters@ =~= old(monsters)@.update(e as int, mon));
    (msgs, dropped)
}

/// Member `idx` throws the item in its first occupied hand (left first)
/// straight ahead of the party, as far as [`spec_throw_range`] of its
/// throwing skill and the item's throwability: the flight (see [`flight`])
/// may hit a monster for [`spec_throw_damage`] of the item, which can defeat
/// it; the item lands where the flight ends. An unknown item is not thrown,
/// nor an important one.
#[verifier::rlimit(60)]
#[verifier::spinoff_prover]
pub fn throw_item(
    party: &mut Party,
    idx: usize,
    items: &ItemCatalog,
    catalog: &MonsterCatalog,
    player: &Player,
    level: &crate::dungeon::Level,
    cycle: u64,
    monsters: &mut Vec<Monster>,
) -> (r: ThrowOutcome)
    requires
        throw_room(player.pos),
        monsters_ok(old(monsters)@),
        combat_fits(old(party).members@, items@, catalog@),
        throws_fit(items@),
        throw_hits_fit(old(monsters)@, items@),
    ensures
        if idx >= old(party).members@.len() {
            &&& final(party).members@ == old(party).members@ && final(monsters)@ == old(monsters)@
            &&& r.msgs@.len() == 0 && r.landed is None && r.dropped@.len() == 0
        } else {
            let m0 = old(party).members@[idx as int];
            match held_slot(m0) {
                None => {
                    &&& final(party).members@ == old(party).members@ && final(monsters)@ == old(monsters)@
                    &&& r.msgs@.map_values(|x: String| x@) == seq!["投げるものが無い"@]
                    &&& r.landed is None && r.dropped@.len() == 0
                },
                Some(slot) => {
                    let it = m0.inventory@.item_at(slot).unwrap();
                    match crate::item::lookup_item(items@, it.def_id@) {
                        None => {
                            &&& final(party).members@ == old(party).members@ && final(monsters)@ == old(monsters)@
                            &&& r.msgs@.len() == 0 && r.landed is None && r.dropped@.len() == 0
                        },
                        Some(d) => if d.important {
                            &&& final(party).members@ == old(party).members@ && final(monsters)@ == old(monsters)@
                            &&& r.msgs@.map_values(|x: String| x@) == seq![d.name@ + "は 投げられない"@]
                            &&& r.landed is None && r.dropped@.len() == 0
                        } else {
                            let eff = spec_effective(m0, items@);
                            let range = crate::combat::spec_throw_range(eff.spec_get(StatKind::Throwing) as int, d.throwability as int);
                            let dmg = crate::combat::spec_throw_damage(d.sharpness as int, d.throwability as int);
                            let fl = flight(*level, old(monsters)@, catalog@, player.pos, player.facing, 1, range as nat, player.pos);
                            let m1 = final(party).members@[idx as int];
                            let thrower = PartyMember { inventory: m1.inventory, ..m0 };
                            let first = m0.character.first_name@ + "は "@ + d.name@ + "を 投げた"@;
                            &&& m1.inventory@ == m0.inventory@.spec_take(slot).0
                            &&& r.landed == Some((it, fl.0))
                            &&& r.hit == fl.1
                            &&& match fl.1 {
                                None => {
                                    &&& final(party).members@ == old(party).members@.update(idx as int, thrower)
                                    &&& final(monsters)@ == old(monsters)@
                                    &&& r.msgs@.map_values(|x: String| x@) == seq![first]
                                    &&& r.dropped@.len() == 0
                                },
                                Some(e) => {
                                    let mon0 = old(monsters)@[e as int];
                                    let ms1 = struck_monster(mon0, dmg, player.pos);
                                    let p1 = old(party).members@.update(idx as int, thrower);
                                    &&& r.drop_at == mon0.pos
                                    &&& match catalog.spec_get(mon0.def_id@) {
                                        None => {
                                            &&& final(monsters)@ == old(monsters)@.update(e as int, ms1)
                                            &&& final(party).members@ == p1
                                            &&& r.msgs@.map_values(|x: String| x@) == seq![first]
                                        },
                                        Some(md) => {
                                            let line = md.name@ + "に "@ + signed_decimal(dmg) + "のダメージ"@;
                                            if ms1.hp > 0 {
                                                &&& final(monsters)@ == old(monsters)@.update(e as int, ms1)
                                                &&& final(party).members@ == p1
                                                &&& r.msgs@.map_values(|x: String| x@) == seq![first, line]
                                                &&& r.dropped@.len() == 0
                                            } else {
                                                &&& final(monsters)@ == old(monsters)@.update(e as int, final(monsters)@[e as int])
                                                &&& defeated(ms1, final(monsters)@[e as int], cycle)
                                                &&& r.dropped@ == mon0.carry@
                                                &&& final(party).members@ == rewarded(p1, md)
                                                &&& r.msgs@.map_values(|x: String| x@) == seq![first, line, defeat_message(md.name@, md.exp as int)]
                                                    + award_messages(p1, spec_exp_share(md.exp as int, standing_count(p1) as int))
                                            }
                                        },
                                    }
                                },
                            }
                        },
                    }
                },
            }
        },
{
    let mut msgs: Vec<String> = Vec::new();
    let none = ThrowOutcome { msgs: Vec::new(), landed: None, dropped: Vec::new(), drop_at: player.pos, hit: None };
    if idx >= party.members.len() {
        return none;
    }
    let ghost ms0 = party.members@;
    proof {
        assert(ms0[idx as int].inventory.wf());
    }
    let slot = if party.members[idx].inventory.get(SlotRef::Hand(0)).is_some() {
        SlotRef::Hand(0)
    } else if party.members[idx].inventory.get(SlotRef::Hand(1)).is_some() {
        SlotRef::Hand(1)
    } else {
        msgs.push(String::from_str("投げるものが無い"));
        assert(msgs@.map_values(|x: String| x@) =~= seq!["投げるものが無い"@]);
        return ThrowOutcome { msgs, landed: None, dropped: Vec::new(), drop_at: player.pos, hit: None };
    };
    let instance = match party.members[idx].inventory.get(slot) {
        Some(it) => it.copy(),
        None => {
            return none;
        },
    };
    let d = match items.get(instance.def_id.as_str()) {
        Some(d) => d,
        None => {
            return none;
        },
    };
    if d.important {
        msgs.push(cat(d.name.as_str(), "は 投げられない"));
        assert(msgs@.map_values(|x: String| x@) =~= seq![d.name@ + "は 投げられない"@]);
        return ThrowOutcome { msgs, landed: None, dropped: Vec::new(), drop_at: player.pos, hit: None };
    }
    proof {
        lemma_item_index(items@, instance.def_id@);
    }
    let eff = party.members[idx].effective_stats(items);
    let range = crate::combat::throw_range(eff.get(StatKind::Throwing), d.throwability);
    let dmg = crate::combat::throw_damage(d.sharpness, d.throwability);
    let first = cat4(party.members[idx].character.first_name.as_str(), "は ", d.name.as_str(), "を 投げた");
    let mut m = party.members.remove(idx);
    assert(m == ms0[idx as int]);
    m.inventory.take(slot);
    party.members.insert(idx, m);
    proof {
        lemma_standing_update(ms0, idx as int, party.members@[idx as int]);
        assert(party.members@ =~= ms0.update(idx as int, party.members@[idx as int]));
    }
    msgs.push(first);
    assert(msgs@.map_values(|x: String| x@) =~= seq![first@]);
    let (land, hit) = fly(level, monsters, catalog, player.pos, player.facing, range);
    let mut dropped: Vec<String> = Vec::new();
    let mut drop_at = player.pos;
    match hit {
        Some(e) => {
            drop_at = monsters[e].pos;
            let ghost p1 = party.members@;
            proof {
                assert forall|k: int|
                    0 <= k < catalog@.len() implies (#[trigger] catalog@[k]).exp + standing_count(p1) - 1
                        <= i32::MAX && forall|i: int|
                        0 <= i < p1.len() && !p1[i].state.down ==> gain_fits(
                            #[trigger] p1[i],
                            spec_exp_share(catalog@[k].exp as int, standing_count(p1) as int),
                        ) by {
                    assert forall|i: int|
                        0 <= i < p1.len() && !p1[i].state.down implies gain_fits(
                            #[trigger] p1[i],
                            spec_exp_share(catalog@[k].exp as int, standing_count(p1) as int),
                        ) by {
                        assert(!ms0[i].state.down);
                        assert(gain_fits(ms0[i], spec_exp_share(catalog@[k].exp as int, standing_count(ms0) as int)));
                    }
                }
                assert(!monsters@[e as int].dead);
            }
            let (more, d2) = throw_hit(party, monsters, e, catalog, dmg, player.pos, cycle);
            append_lines(&mut msgs, &more);
            dropped = d2;
        },
        None => {},
    }
    ThrowOutcome { msgs, landed: Some((instance, land)), dropped, drop_at, hit }
}

/// What a monster of kind `def` does to the party `ms` attacking it: the
/// victim is the standing member `pick` lands on (counting round the standing
/// ones), hit when `roll` is below the monster's hit chance against the
/// victim's agility; `None` when nobody stands.
pub open spec fn victim_of(ms: Seq<PartyMember>, pick: usize) -> Option<int> {
    let alive = crate::monster::standing_indices(ms);
    if alive.len() == 0 {
        None
    } else {
        Some(alive[(pick as int) % (alive.len() as int)])
    }
}

/// The chance (percent) a monster of kind `def` hits member `m`.
pub open spec fn monster_chance(def: MonsterDef, m: PartyMember) -> int {
    spec_hit_chance(def.agility as int, m.character.stats.agility as int, crate::combat::UNARMED_GRIP as int)
}

/// A monster of kind `def` can hit every member of `ms` in range.
pub open spec fn monster_hit_fits(def: MonsterDef, ms: Seq<PartyMember>) -> bool {
    forall|i: int|
        0 <= i < ms.len() ==> i32::MIN <= def.agility - (#[trigger] ms[i]).character.stats.agility <= i32::MAX
            && base_damage_in_range(0, def.attack as int, ms[i].character.stats.defense as int)
}

/// A monster of kind `def` attacks the party: see [`victim_of`] and
/// [`monster_chance`]; the hit itself is [`monster_hit`]. Returns the log lines.
pub fn monster_hit_party(def: &MonsterDef, party: &mut Party, pick: usize, roll: u32) -> (msgs: Vec<String>)
    requires
        monster_hit_fits(*def, old(party).members@),
    ensures
        match victim_of(old(party).members@, pick) {
            None => final(party).members@ == old(party).members@ && msgs@.len() == 0,
            Some(v) => {
                let m = old(party).members@[v];
                let vname = m.character.first_name@;
                if roll >= monster_chance(*def, m) {
                    &&& final(party).members@ == old(party).members@
                    &&& msgs@.map_values(|x: String| x@) == seq![def.name@ + "の こうげき! "@ + vname + "は かわした"@]
                } else {
                    let dmg = crate::monster::hit_damage(*def, m);
                    let after = crate::monster::struck(m, dmg);
                    &&& final(party).members@ == old(party).members@.update(v, after)
                    &&& msgs@.map_values(|x: String| x@) == crate::monster::hit_messages(def.name@, vname, dmg, after.state.hp == 0)
                }
            },
        },
{
    let _count = party.members.len();
    proof {
        crate::monster::lemma_standing_indices(party.members@);
        let alive = crate::monster::standing_indices(party.members@);
        if alive.len() > 0 {
            let n = alive.len() as int;
            assert(0 <= (pick as int) % n < n) by (nonlinear_arith)
                requires
                    n > 0,
            ;
            assert(0 <= alive[(pick as int) % n] < party.members@.len());
        }
    }
    match crate::monster::pick_victim(party, pick) {
        None => Vec::new(),
        Some(v) => {
            let chance = hit_chance(def.agility, party.members[v].character.stats.agility, crate::combat::UNARMED_GRIP);
            let hits = (roll as i64) < (chance as i64);
            crate::monster::monster_hit(def, party, v, hits)
        },
    }
}

/// What a steal did.
#[derive(Debug)]
pub struct StealOutcome {
    /// The log lines, in order.
    pub msgs: Vec<String>,
    /// The monster targeted, if one stood ahead.
    pub target: Option<usize>,
}

/// The name an item id is shown by: its definition's name, else the id.
pub open spec fn item_name(defs: Seq<ItemDef>, id: Seq<char>) -> Seq<char> {
    match crate::item::lookup_item(defs, id) {
        Some(d) => d.name@,
        None => id,
    }
}

/// Member `idx` tries to steal from the monster ahead. It succeeds when
/// `roll` is below [`crate::combat::spec_steal_chance`] of its stealing skill
/// against the monster's wariness and the monster carries something: the
/// first carried item leaves the monster and goes to the thief's first free
/// slot (lost when none is free). A failure provokes an immediate
/// counterattack: the monster's next attack is due now and it strikes the
/// party (see [`monster_hit_party`], with `pick` and `hit_roll`).
#[verifier::rlimit(60)]
#[verifier::spinoff_prover]
pub fn steal_from(
    party: &mut Party,
    idx: usize,
    items: &ItemCatalog,
    catalog: &MonsterCatalog,
    player: &Player,
    cycle: u64,
    monsters: &mut Vec<Monster>,
    roll: u32,
    pick: usize,
    hit_roll: u32,
) -> (r: StealOutcome)
    requires
        pos_in_range(player.pos),
        footprints_fit(old(monsters)@),
        combat_fits(old(party).members@, items@, catalog@),
        forall|i: int, k: int|
            0 <= i < old(party).members@.len() && 0 <= k < catalog@.len() ==> {
                let st = spec_effective(#[trigger] old(party).members@[i], items@).spec_get(StatKind::Stealing);
                &&& i32::MIN <= 50 + st <= i32::MAX
                &&& i32::MIN <= 50 + st - (#[trigger] catalog@[k]).wariness <= i32::MAX
            },
        forall|k: int| 0 <= k < catalog@.len() ==> monster_hit_fits(#[trigger] catalog@[k], old(party).members@),
    ensures
        target_pick(old(monsters)@, catalog@, step_target(player.pos, player.facing), r.target),
        match r.target {
            None => {
                &&& r.msgs@.map_values(|x: String| x@) == seq!["目の前に敵はいない"@]
                &&& final(party).members@ == old(party).members@ && final(monsters)@ == old(monsters)@
            },
            Some(t) => {
                let mon0 = old(monsters)@[t as int];
                if idx >= old(party).members@.len() {
                    final(party).members@ == old(party).members@ && final(monsters)@ == old(monsters)@ && r.msgs@.len() == 0
                } else {
                    let m0 = old(party).members@[idx as int];
                    let name = m0.character.first_name@;
                    match catalog.spec_get(mon0.def_id@) {
                        None => final(party).members@ == old(party).members@ && final(monsters)@ == old(monsters)@
                            && r.msgs@.len() == 0,
                        Some(d) => {
                            let chance = crate::combat::spec_steal_chance(
                                spec_effective(m0, items@).spec_get(StatKind::Stealing) as int,
                                d.wariness as int,
                            );
                            if roll < chance && mon0.carry@.len() > 0 {
                                let take = mon0.carry@[0];
                                let m1 = final(party).members@[idx as int];
                                &&& final(monsters)@ == old(monsters)@.update(
                                    t as int,
                                    final(monsters)@[t as int],
                                )
                                &&& final(monsters)@[t as int] == (Monster { carry: final(monsters)@[t as int].carry, ..mon0 })
                                &&& final(monsters)@[t as int].carry@ == mon0.carry@.drop_first()
                                &&& final(party).members@ == old(party).members@.update(idx as int, m1)
                                &&& m1 == (PartyMember { inventory: m1.inventory, ..m0 })
                                &&& match m0.inventory@.spec_first_free() {
                                    Some(slot) => {
                                        &&& Some(m1.inventory@) == m0.inventory@.spec_put(
                                            slot,
                                            ItemInstance { def_id: take, entropy: 0, potion_of: None },
                                        )
                                        &&& r.msgs@.map_values(|x: String| x@) == seq![name + "は "@ + item_name(items@, take@) + "を ぬすんだ!"@]
                                    },
                                    None => {
                                        &&& m1.inventory@ == m0.inventory@
                                        &&& r.msgs@.map_values(|x: String| x@) == seq![name + "は 盗もうとしたが 持ちきれない"@]
                                    },
                                }
                            } else {
                                let out = seq![name + "は 盗みに失敗した!"@];
                                &&& final(monsters)@ == old(monsters)@.update(t as int, Monster { next_attack: cycle, ..mon0 })
                                &&& match victim_of(old(party).members@, pick) {
                                    None => final(party).members@ == old(party).members@ && r.msgs@.map_values(
                                        |x: String| x@,
                                    ) == out,
                                    Some(v) => {
                                        let m = old(party).members@[v];
                                        let vname = m.character.first_name@;
                                        if hit_roll >= monster_chance(d, m) {
                                            &&& final(party).members@ == old(party).members@
                                            &&& r.msgs@.map_values(|x: String| x@) == out + seq![d.name@ + "の こうげき! "@ + vname + "は かわした"@]
                                        } else {
                                            let dmg = crate::monster::hit_damage(d, m);
                                            let after = crate::monster::struck(m, dmg);
                                            &&& final(party).members@ == old(party).members@.update(v, after)
                                            &&& r.msgs@.map_values(|x: String| x@) == out + crate::monster::hit_messages(
                                                d.name@,
                                                vname,
                                                dmg,
                                                after.state.hp == 0,
                                            )
                                        }
                                    },
                                }
                            }
                        },
                    }
                }
            },
        },
{
    let (dx, dy) = player.facing.delta();
    let front = GridPos { x: player.pos.x + dx, y: player.pos.y + dy, floor: player.pos.floor };
    let mut msgs: Vec<String> = Vec::new();
    let t = match monster_at(front, monsters, catalog) {
        None => {
            msgs.push(String::from_str("目の前に敵はいない"));
            assert(msgs@.map_values(|x: String| x@) =~= seq!["目の前に敵はいない"@]);
            return StealOutcome { msgs, target: None };
        },
        Some(t) => t,
    };
    if idx >= party.members.len() {
        return StealOutcome { msgs, target: Some(t) };
    }
    let ghost ms0 = party.members@;
    let stealing = party.members[idx].effective_stats(items).get(StatKind::Stealing);
    let name = party.members[idx].character.first_name.clone();
    let d = match catalog.get(monsters[t].def_id.as_str()) {
        None => {
            return StealOutcome { msgs, target: Some(t) };
        },
        Some(d) => d,
    };
    proof {
        lemma_kind_index(catalog@, monsters@[t as int].def_id@);
        let k = choose|k: int| 0 <= k < catalog@.len() && catalog@[k] == *d;
        assert(i32::MIN <= 50 + spec_effective(ms0[idx as int], items@).spec_get(StatKind::Stealing) - catalog@[k].wariness
            <= i32::MAX);
        assert(monster_hit_fits(catalog@[k], ms0));
    }
    let chance = crate::combat::steal_chance(stealing, d.wariness);
    let mut mon = monsters.remove(t);
    let ghost mon0 = mon;
    if (roll as i64) < (chance as i64) && mon.carry.len() > 0 {
        let take = mon.carry.remove(0);
        assert(mon.carry@ =~= mon0.carry@.drop_first());
        monsters.insert(t, mon);
        assert(monsters@ =~= old(monsters)@.update(t as int, mon));
        let shown = match items.get(take.as_str()) {
            Some(idef) => idef.name.clone(),
            None => take.clone(),
        };
        let mut m = party.members.remove(idx);
        assert(m == ms0[idx as int]);
        let res = m.inventory.pickup(ItemInstance::new(take));
        party.members.insert(idx, m);
        assert(party.members@ =~= ms0.update(idx as int, m));
        match res {
            Ok(_) => {
                msgs.push(cat4(name.as_str(), "は ", shown.as_str(), "を ぬすんだ!"));
            },
            Err(_) => {
                msgs.push(cat(name.as_str(), "は 盗もうとしたが 持ちきれない"));
            },
        }
        assert(msgs@.map_values(|x: String| x@) =~= seq![msgs@[0]@]);
        return StealOutcome { msgs, target: Some(t) };
    }
    msgs.push(cat(name.as_str(), "は 盗みに失敗した!"));
    mon.next_attack = cycle;
    monsters.insert(t, mon);
    assert(monsters@ =~= old(monsters)@.update(t as int, Monster { next_attack: cycle, ..mon0 }));
    let more = monster_hit_party(d, party, pick, hit_roll);
    append_lines(&mut msgs, &more);
    StealOutcome { msgs, target: Some(t) }
}

/// An attack spell's aim from step `step` on, `n` steps of range left: the
/// first monster in line is the target (with its cell); a wall, a closed door
/// or the edge of the grid ends the search.
pub open spec fn magic_scan(
    level: crate::dungeon::Level,
    doors: Seq<bool>,
    ms: Seq<Monster>,
    defs: Seq<MonsterDef>,
    start: GridPos,
    dir: crate::dungeon::Facing,
    step: int,
    n: nat,
) -> Option<(usize, GridPos)>
    decreases n,
{
    if n == 0 {
        None
    } else {
        let p = along_dir(start, dir, step);
        match first_cover(ms, defs, p) {
            Some(e) => Some((e, p)),
            None => match level.spec_block_at(p) {
                None => None,
                Some(crate::dungeon::Block::Wall) => None,
                Some(crate::dungeon::Block::Door { kind }) => if crate::dungeon::door_open(doors, kind) {
                    magic_scan(level, doors, ms, defs, start, dir, step + 1, (n - 1) as nat)
                } else {
                    None
                },
                _ => magic_scan(level, doors, ms, defs, start, dir, step + 1, (n - 1) as nat),
            },
        }
    }
}

/// A cell far enough from the edge of the `i32` range to aim a spell from.
pub open spec fn magic_room(p: GridPos) -> bool {
    i32::MIN + 8 <= p.x <= i32::MAX - 8 && i32::MIN + 8 <= p.y <= i32::MAX - 8
}

/// Aim an attack spell from `start` heading `dir` (see [`magic_scan`]).
fn aim(
    level: &crate::dungeon::Level,
    doors: &crate::dungeon::DoorStates,
    monsters: &Vec<Monster>,
    catalog: &MonsterCatalog,
    start: GridPos,
    dir: crate::dungeon::Facing,
) -> (r: Option<(usize, GridPos)>)
    requires
        magic_room(start),
        footprints_fit(monsters@),
    ensures
        r == magic_scan(*level, doors@, monsters@, catalog@, start, dir, 1, crate::magic::MAGIC_RANGE as nat),
        r matches Some((e, _)) ==> e < monsters@.len() && !monsters@[e as int].dead,
{
    let (dx, dy) = dir.delta();
    let mut step: i32 = 1;
    while step <= crate::magic::MAGIC_RANGE
        invariant
            1 <= step <= crate::magic::MAGIC_RANGE + 1,
            magic_room(start),
            footprints_fit(monsters@),
            (dx as int, dy as int) == dir.spec_delta(),
            -1 <= dx <= 1 && -1 <= dy <= 1,
            magic_scan(*level, doors@, monsters@, catalog@, start, dir, 1, crate::magic::MAGIC_RANGE as nat)
                == magic_scan(
                *level,
                doors@,
                monsters@,
                catalog@,
                start,
                dir,
                step as int,
                (crate::magic::MAGIC_RANGE - step + 1) as nat,
            ),
        decreases crate::magic::MAGIC_RANGE - step + 1,
    {
        assert(-8 <= dx * step <= 8 && -8 <= dy * step <= 8) by (nonlinear_arith)
            requires
                -1 <= dx <= 1,
                -1 <= dy <= 1,
                1 <= step <= 8,
        ;
        let p = GridPos { x: start.x + dx * step, y: start.y + dy * step, floor: start.floor };
        assert(p == along_dir(start, dir, step as int));
        match monster_at(p, monsters, catalog) {
            Some(e) => {
                proof {
                    lemma_target_unique(monsters@, catalog@, p, Some(e));
                }
                return Some((e, p));
            },
            None => {
                proof {
                    lemma_target_unique(monsters@, catalog@, p, None);
                }
            },
        }
        match level.block_at(p) {
            None => {
                return None;
            },
            Some(crate::dungeon::Block::Wall) => {
                return None;
            },
            Some(crate::dungeon::Block::Door { kind }) => {
                if !doors.is_open(kind) {
                    return None;
                }
            },
            _ => {},
        }
        step = step + 1;
    }
    None
}

/// How many of `rolls` land below `rate`: the light bullets that connect.
pub open spec fn bullet_hits(rolls: Seq<u32>, rate: int) -> nat
    decreases rolls.len(),
{
    if rolls.len() == 0 {
        0
    } else {
        bullet_hits(rolls.drop_last(), rate) + if (rolls.last() as int) < rate {
            1nat
        } else {
            0nat
        }
    }
}

/// Count the bullets among the first `n` rolls that connect at `rate`.
fn count_hits(rolls: &Vec<u32>, n: usize, rate: i32) -> (r: i32)
    requires
        n <= rolls@.len(),
        n <= 255,
    ensures
        r == bullet_hits(rolls@.take(n as int), rate as int),
        0 <= r <= n,
{
    let mut c: i32 = 0;
    let mut i: usize = 0;
    while i < n
        invariant
            i <= n <= rolls@.len(),
            n <= 255,
            c == bullet_hits(rolls@.take(i as int), rate as int),
            0 <= c <= i,
        decreases n - i,
    {
        assert(rolls@.take(i as int + 1).drop_last() =~= rolls@.take(i as int));
        assert(rolls@.take(i as int + 1).last() == rolls@[i as int]);
        if (rolls[i] as i64) < (rate as i64) {
            c = c + 1;
        }
        i = i + 1;
    }
    c
}

/// The magnitude of an attack spell's value.
pub open spec fn spell_power(def: crate::magic::MagicDef) -> int {
    if def.value < 0 {
        -def.value
    } else {
        def.value as int
    }
}

/// What an attack spell did.
#[derive(Debug)]
pub struct SpellOutcome {
    /// The log lines, in order.
    pub lines: Vec<String>,
    /// Whether the spell went off (its MP spent).
    pub cast: bool,
    /// The monster aimed at and its cell, if one was in line.
    pub target: Option<(usize, GridPos)>,
    /// The items a defeated monster dropped (to lie at `drop_at`).
    pub dropped: Vec<String>,
    pub drop_at: GridPos,
}

/// An attack spell `def` cast by member `caster` of `ms0` at cycle `cycle`
/// with the bullet `rolls` took the party to `ms1` and the monsters from
/// `mons0` to `mons1`, logged `lines`, went off (`cast`) or not, aimed at
/// `target`, and left `dropped` at `drop_at` (see [`cast_attack`]).
pub open spec fn attack_cast_result(
    ms0: Seq<PartyMember>,
    ms1: Seq<PartyMember>,
    mons0: Seq<Monster>,
    mons1: Seq<Monster>,
    caster: usize,
    def: crate::magic::MagicDef,
    level: crate::dungeon::Level,
    doors: Seq<bool>,
    kinds: Seq<MonsterDef>,
    player: Player,
    cycle: u64,
    rolls: Seq<u32>,
    lines: Seq<Seq<char>>,
    cast: bool,
    target: Option<(usize, GridPos)>,
    dropped: Seq<String>,
    drop_at: GridPos,
) -> bool {
    &&& target == magic_scan(level, doors, mons0, kinds, player.pos, player.facing, 1, crate::magic::MAGIC_RANGE as nat)
    &&& match target {
        None => {
            &&& lines == seq!["目の前に敵はいない"@]
            &&& !cast && ms1 == ms0 && mons1 == mons0
            &&& dropped.len() == 0
        },
        Some((e, _)) => {
            let c = ms0[caster as int];
            let p1 = ms0.update(caster as int, crate::magic::charged(c, def.mp_cost as int));
            let mon0 = mons0[e as int];
            let kind = crate::monster::lookup_monster(kinds, mon0.def_id@);
            let anti = match kind {
                Some(k) => k.anti_magic as int,
                None => 0,
            };
            let dmg = bullet_hits(rolls.take(def.projectiles as int), crate::combat::spec_magic_hit_rate(anti))
                * spell_power(def);
            let m1 = struck_monster(mon0, dmg, player.pos);
            let mname = match kind {
                Some(k) => k.name@,
                None => Seq::<char>::empty(),
            };
            let l1 = c.character.first_name@ + "は 『"@ + def.name@ + "』を となえた!"@;
            let l2 = if dmg == 0 {
                mname + "は 魔法を はじいた!"@
            } else {
                mname + "に "@ + signed_decimal(dmg) + "の ダメージ"@
            };
            &&& cast && drop_at == mon0.pos
            &&& match kind {
                Some(k) if m1.hp <= 0 => {
                    &&& mons1 == mons0.update(e as int, mons1[e as int])
                    &&& defeated(m1, mons1[e as int], cycle)
                    &&& dropped == mon0.carry@
                    &&& ms1 == rewarded(p1, k)
                    &&& lines == seq![l1, l2, defeat_message(k.name@, k.exp as int)]
                        + award_messages(p1, spec_exp_share(k.exp as int, standing_count(p1) as int))
                },
                _ => {
                    &&& mons1 == mons0.update(e as int, m1)
                    &&& ms1 == p1
                    &&& lines == seq![l1, l2]
                    &&& dropped.len() == 0
                },
            }
        },
    }
}

/// Member `caster` casts attack spell `def` (which it may cast) down the line
/// the party faces: without a monster in line (see [`magic_scan`]) nothing
/// happens; otherwise the MP is spent and each of the spell's light bullets
/// connects when its roll in `rolls` is below the hit rate against the
/// monster's magic resistance, each dealing the spell's power; a monster
/// brought to 0 HP is defeated.
#[verifier::rlimit(60)]
#[verifier::spinoff_prover]
pub fn cast_attack(
    party: &mut Party,
    caster: usize,
    def: &crate::magic::MagicDef,
    level: &crate::dungeon::Level,
    doors: &crate::dungeon::DoorStates,
    monsters: &mut Vec<Monster>,
    catalog: &MonsterCatalog,
    player: &Player,
    cycle: u64,
    rolls: &Vec<u32>,
) -> (r: SpellOutcome)
    requires
        caster < old(party).members@.len(),
        magic_room(player.pos),
        monsters_ok(old(monsters)@),
        def.value > i32::MIN,
        def.projectiles * spell_power(*def) <= i32::MAX,
        rolls@.len() >= def.projectiles,
        i32::MIN <= old(party).members@[caster as int].state.mp - def.mp_cost <= i32::MAX,
        old(party).members@.len() <= i32::MAX,
        forall|k: int|
            0 <= k < catalog@.len() ==> (#[trigger] catalog@[k]).exp + standing_count(old(party).members@) - 1
                <= i32::MAX && forall|i: int|
                0 <= i < old(party).members@.len() && !old(party).members@[i].state.down ==> gain_fits(
                    #[trigger] old(party).members@.update(
                        caster as int,
                        crate::magic::charged(old(party).members@[caster as int], def.mp_cost as int),
                    )[i],
                    spec_exp_share(catalog@[k].exp as int, standing_count(old(party).members@) as int),
                ),
    ensures
        attack_cast_result(
            old(party).members@,
            final(party).members@,
            old(monsters)@,
            final(monsters)@,
            caster,
            *def,
            *level,
            doors@,
            catalog@,
            *player,
            cycle,
            rolls@,
            r.lines@.map_values(|x: String| x@),
            r.cast,
            r.target,
            r.dropped@,
            r.drop_at,
        ),
{
    let mut lines: Vec<String> = Vec::new();
    let mut dropped: Vec<String> = Vec::new();
    let found = aim(level, doors, monsters, catalog, player.pos, player.facing);
    let (e, tpos) = match found {
        None => {
            lines.push(String::from_str("目の前に敵はいない"));
            assert(lines@.map_values(|x: String| x@) =~= seq!["目の前に敵はいない"@]);
            return SpellOutcome { lines, cast: false, target: None, dropped, drop_at: player.pos };
        },
        Some(t) => t,
    };
    let ghost ms0 = party.members@;
    let cname = party.members[caster].character.first_name.clone();
    crate::magic::charge_mp(party, caster, def.mp_cost);
    proof {
        lemma_standing_update(ms0, caster as int, party.members@[caster as int]);
    }
    lines.push(cat4(cname.as_str(), "は 『", def.name.as_str(), "』を となえた!"));
    let base: i32 = if def.value < 0 {
        -def.value
    } else {
        def.value
    };
    let mut mon = monsters.remove(e);
    let ghost mon0 = mon;
    let kind = catalog.get(mon.def_id.as_str());
    let anti = match kind {
        Some(k) => k.anti_magic,
        None => 0,
    };
    let rate = crate::combat::magic_hit_rate(anti);
    let hits = count_hits(rolls, def.projectiles as usize, rate);
    assert(hits * base <= def.projectiles * spell_power(*def)) by (nonlinear_arith)
        requires
            0 <= hits <= def.projectiles,
            base == spell_power(*def),
            base >= 0,
    ;
    let dmg = hits * base;
    mon.hp = mon.hp - dmg;
    mon.anim = AnimKind::Hit;
    mon.facing = facing_toward(mon.pos, player.pos);
    let drop_at = mon.pos;
    let mname = match kind {
        Some(k) => k.name.clone(),
        None => String::new(),
    };
    if dmg == 0 {
        lines.push(cat(mname.as_str(), "は 魔法を はじいた!"));
    } else {
        lines.push(crate::text::cat3(cat(mname.as_str(), "に ").as_str(), i64_text(dmg as i64).as_str(), "の ダメージ"));
    }
    let ghost two = lines@;
    assert(lines@.map_values(|x: String| x@) =~= seq![lines@[0]@, lines@[1]@]);
    match kind {
        Some(k) => {
            if mon.hp <= 0 {
                proof {
                    lemma_kind_index(catalog@, mon0.def_id@);
                    let kk = choose|kk: int| 0 <= kk < catalog@.len() && catalog@[kk] == *k;
                    assert(catalog@[kk].exp + standing_count(ms0) - 1 <= i32::MAX);
                    let p1 = party.members@;
                    assert forall|i: int|
                        0 <= i < p1.len() && !p1[i].state.down implies gain_fits(
                            #[trigger] p1[i],
                            spec_exp_share(k.exp as int, standing_count(p1) as int),
                        ) by {
                        assert(!ms0[i].state.down);
                        assert(gain_fits(p1[i], spec_exp_share(catalog@[kk].exp as int, standing_count(ms0) as int)));
                    }
                }
                let ghost p1 = party.members@;
                let (kmsgs, d) = kill_monster(&mut mon, k, cycle, party);
                dropped = d;
                append_lines(&mut lines, &kmsgs);
                assert(party.members@ =~= rewarded(p1, *k));
                let ghost kv = kmsgs@.map_values(|x: String| x@);
                assert(kv == seq![defeat_message(k.name@, k.exp as int)] + award_messages(p1, spec_exp_share(k.exp as int, standing_count(p1) as int)));
                assert(lines@.map_values(|x: String| x@) == seq![two[0]@, two[1]@] + kv);
                assert(seq![two[0]@, two[1]@] + kv =~= seq![two[0]@, two[1]@, defeat_message(k.name@, k.exp as int)] + award_messages(p1, spec_exp_share(k.exp as int, standing_count(p1) as int)));
            }
        },
        None => {},
    }
    monsters.insert(e, mon);
    assert(monsters@ =~= old(monsters)@.update(e as int, mon));
    SpellOutcome { lines, cast: true, target: Some((e, tpos)), dropped, drop_at }
}

/// The ranges a non-attack spell `def` cast by member `caster` of `ms` stays
/// within.
pub open spec fn spell_fits(
    ms: Seq<PartyMember>,
    caster: usize,
    def: crate::magic::MagicDef,
    items: Seq<ItemDef>,
    hunger: crate::rules::HungerRules,
) -> bool {
    &&& i32::MIN <= ms[caster as int].state.mp - def.mp_cost <= i32::MAX
    &&& forall|i: int|
        0 <= i < ms.len() ==> crate::magic::ally_fits(
            #[trigger] ms.update(caster as int, crate::magic::charged(ms[caster as int], def.mp_cost as int))[i],
            def,
            hunger,
        )
    &&& def.kind matches crate::magic::MagicKind::Revive { ratio_percent } ==> forall|i: int|
        0 <= i < ms.len() ==> spec_effective(#[trigger] ms[i], items).max_hp * ratio_percent <= i32::MAX
}

/// The ranges an attack spell `def` cast by member `caster` of `ms` stays
/// within, against the monster kinds `kinds`, with `n` bullet rolls.
pub open spec fn attack_fits(
    ms: Seq<PartyMember>,
    caster: usize,
    def: crate::magic::MagicDef,
    kinds: Seq<MonsterDef>,
    n: nat,
) -> bool {
    &&& def.value > i32::MIN
    &&& def.projectiles * spell_power(def) <= i32::MAX
    &&& n >= def.projectiles
    &&& i32::MIN <= ms[caster as int].state.mp - def.mp_cost <= i32::MAX
    &&& ms.len() <= i32::MAX
    &&& forall|k: int|
        0 <= k < kinds.len() ==> (#[trigger] kinds[k]).exp + standing_count(ms) - 1 <= i32::MAX && forall|i: int|
            0 <= i < ms.len() && !ms[i].state.down ==> gain_fits(
                #[trigger] ms.update(caster as int, crate::magic::charged(ms[caster as int], def.mp_cost as int))[i],
                spec_exp_share(kinds[k].exp as int, standing_count(ms) as int),
            )
}

/// What casting a spell did.
#[derive(Debug)]
pub struct MagicOutcome {
    /// The log lines, in order.
    pub lines: Vec<String>,
    /// Whether the spell went off (its MP spent).
    pub cast: bool,
    /// The light strength a lighting spell applies.
    pub light: Option<u8>,
    /// The monster an attack spell aimed at and its cell.
    pub target: Option<(usize, GridPos)>,
    /// The items a defeated monster dropped (to lie at `drop_at`).
    pub dropped: Vec<String>,
    pub drop_at: GridPos,
}

/// Member `caster` casts the spell with id `magic_id`: an unknown spell is
/// answered so; a member who may not cast it (see
/// [`crate::magic::cast_refusal`]) is told why; an attack spell goes as
/// [`cast_attack`] says, any other as [`crate::magic::cast_spell`] says.
pub fn cast_magic(
    party: &mut Party,
    caster: usize,
    magic_id: &String,
    target: crate::magic::CastTarget,
    magics: &crate::magic::MagicCatalog,
    item_catalog: &ItemCatalog,
    hunger: &crate::rules::HungerRules,
    level: &crate::dungeon::Level,
    doors: &crate::dungeon::DoorStates,
    monsters: &mut Vec<Monster>,
    catalog: &MonsterCatalog,
    player: &Player,
    cycle: u64,
    rolls: &Vec<u32>,
) -> (r: MagicOutcome)
    requires
        magic_room(player.pos),
        monsters_ok(old(monsters)@),
        crate::magic::members_computable(old(party).members@, item_catalog@),
        match magics.spec_get(magic_id@) {
            Some(d) => caster < old(party).members@.len() ==> if d.projectiles > 0 {
                attack_fits(old(party).members@, caster, d, catalog@, rolls@.len())
            } else {
                spell_fits(old(party).members@, caster, d, item_catalog@, *hunger)
            },
            None => true,
        },
    ensures
        match magics.spec_get(magic_id@) {
            None => {
                &&& r.lines@.map_values(|x: String| x@) == seq!["その魔法は 存在しない"@]
                &&& !r.cast && final(party).members@ == old(party).members@ && final(monsters)@ == old(monsters)@
            },
            Some(d) => if caster >= old(party).members@.len() {
                &&& r.lines@.len() == 0 && !r.cast
                &&& final(party).members@ == old(party).members@ && final(monsters)@ == old(monsters)@
            } else if d.projectiles > 0 {
                match crate::magic::cast_refusal(old(party).members@[caster as int], d, item_catalog@) {
                    Some(why) => {
                        &&& r.lines@.map_values(|x: String| x@) == seq![why]
                        &&& !r.cast && final(party).members@ == old(party).members@ && final(monsters)@ == old(monsters)@
                    },
                    None => r.light is None && attack_cast_result(
                        old(party).members@,
                        final(party).members@,
                        old(monsters)@,
                        final(monsters)@,
                        caster,
                        d,
                        *level,
                        doors@,
                        catalog@,
                        *player,
                        cycle,
                        rolls@,
                        r.lines@.map_values(|x: String| x@),
                        r.cast,
                        r.target,
                        r.dropped@,
                        r.drop_at,
                    ),
                }
            } else {
                &&& final(monsters)@ == old(monsters)@ && r.target is None
                &&& crate::magic::spell_cast_result(
                    old(party).members@,
                    final(party).members@,
                    caster,
                    d,
                    target,
                    item_catalog@,
                    *hunger,
                    r.lines@.map_values(|x: String| x@),
                    r.cast,
                    r.light,
                )
            },
        },
{
    let mut lines: Vec<String> = Vec::new();
    let def = match magics.get(magic_id.as_str()) {
        None => {
            lines.push(String::from_str("その魔法は 存在しない"));
            assert(lines@.map_values(|x: String| x@) =~= seq!["その魔法は 存在しない"@]);
            return MagicOutcome { lines, cast: false, light: None, target: None, dropped: Vec::new(), drop_at: player.pos };
        },
        Some(d) => d,
    };
    if caster >= party.members.len() {
        return MagicOutcome { lines, cast: false, light: None, target: None, dropped: Vec::new(), drop_at: player.pos };
    }
    if def.is_attack() {
        assert(party.members@[caster as int].inventory.wf());
        match crate::magic::cast_check(&party.members[caster], def, item_catalog) {
            Err(why) => {
                lines.push(why);
                assert(lines@.map_values(|x: String| x@) =~= seq![why@]);
                return MagicOutcome { lines, cast: false, light: None, target: None, dropped: Vec::new(), drop_at: player.pos };
            },
            Ok(()) => {},
        }
        let o = cast_attack(party, caster, def, level, doors, monsters, catalog, player, cycle, rolls);
        MagicOutcome { lines: o.lines, cast: o.cast, light: None, target: o.target, dropped: o.dropped, drop_at: o.drop_at }
    } else {
        let o = crate::magic::cast_spell(party, caster, def, target, item_catalog, hunger);
        MagicOutcome { lines: o.lines, cast: o.cast, light: o.light, target: None, dropped: Vec::new(), drop_at: player.pos }
    }
}

/// The party's discrete combat actions.
#[derive(Clone, Copy, PartialEq, Eq, Debug, Structural)]
pub enum PlayerAction {
    Attack,
    Guard,
    Concentrate,
    Throw,
    Steal,
}

} // verus!
