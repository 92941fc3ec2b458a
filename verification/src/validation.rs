//! The editor's non-fatal checks of a whole project: limit overages, dangling
//! references, trigger blocks without events, demo problems; and the
//! warnings that deleting a level raises.
use vstd::prelude::*;
use crate::character::Character;
use crate::editor::level_mismatches;
use crate::editor_ops::hits;
use crate::event::{EventAction, EventDef};
use crate::ids::texts;
use crate::item::ItemDef;
use crate::monster::MonsterDef;
use crate::project::{DemoDef, LevelData, Project};
use crate::text::{cat, cat3, cat4, decimal, u64_text};

verus! {

/// The overage warning for `n` of `what` against the limit `max`, if any.
pub open spec fn over_line(n: nat, max: nat, what: Seq<char>) -> Seq<Seq<char>> {
    if n > max {
        seq![what + "が上限超過: "@ + decimal(n) + " / "@ + decimal(max)]
    } else {
        seq![]
    }
}

/// Add the overage warning for `n` of `what` against `max`, if any.
fn push_over(out: &mut Vec<String>, n: usize, max: usize, what: &str)
    ensures
        texts(final(out)@) == texts(old(out)@) + over_line(n as nat, max as nat, what@),
{
    if n > max {
        let a = cat(what, "が上限超過: ");
        let b = cat4(a.as_str(), u64_text(n as u64).as_str(), " / ", u64_text(max as u64).as_str());
        let ghost o = out@;
        out.push(b);
        assert(texts(out@) =~= texts(o) + over_line(n as nat, max as nat, what@));
    } else {
        assert(texts(out@) =~= texts(old(out)@) + over_line(n as nat, max as nat, what@));
    }
}

/// For each id of `ids` not among `known`, in order, the line `head`, the id,
/// and a closing quote.
pub open spec fn dangling_lines(head: Seq<char>, ids: Seq<Seq<char>>, known: Seq<Seq<char>>) -> Seq<Seq<char>>
    decreases ids.len(),
{
    if ids.len() == 0 {
        seq![]
    } else {
        dangling_lines(head, ids.drop_last(), known) + if known.contains(ids.last()) {
            seq![]
        } else {
            seq![head + ids.last() + "'"@]
        }
    }
}

/// Whether `id` is among `known`.
fn knows(known: &Vec<String>, id: &String) -> (r: bool)
    ensures
        r == texts(known@).contains(id@),
{
    let mut i: usize = 0;
    while i < known.len()
        invariant
            i <= known@.len(),
            forall|k: int| 0 <= k < i ==> texts(known@)[k] != id@,
        decreases known@.len() - i,
    {
        if known[i] == *id {
            assert(texts(known@)[i as int] == id@);
            return true;
        }
        i = i + 1;
    }
    false
}

/// Add the dangling-reference lines for `ids` against `known` (see
/// [`dangling_lines`]).
fn push_dangling(out: &mut Vec<String>, head: &str, ids: &Vec<String>, known: &Vec<String>)
    ensures
        texts(final(out)@) == texts(old(out)@) + dangling_lines(head@, texts(ids@), texts(known@)),
{
    let ghost o = texts(out@);
    let ghost all = texts(ids@);
    let mut i: usize = 0;
    while i < ids.len()
        invariant
            i <= ids@.len(),
            all == texts(ids@),
            o == texts(old(out)@),
            texts(out@) == o + dangling_lines(head@, all.take(i as int), texts(known@)),
        decreases ids@.len() - i,
    {
        assert(all.take(i as int + 1).drop_last() =~= all.take(i as int));
        assert(all.take(i as int + 1).last() == ids@[i as int]@);
        let ghost before = texts(out@);
        if !knows(known, &ids[i]) {
            let line = cat3(head, ids[i].as_str(), "'");
            out.push(line);
            assert(texts(out@) =~= before.push(line@));
        }
        assert(texts(out@) =~= o + dangling_lines(head@, all.take(i as int + 1), texts(known@)));
        i = i + 1;
    }
    assert(all.take(all.len() as int) =~= all);
}

/// The ids of `v`, copied.
fn ids_of_characters(v: &Vec<Character>) -> (r: Vec<String>)
    ensures
        texts(r@) == crate::project::character_ids(v@),
{
    let mut r: Vec<String> = Vec::new();
    let mut i: usize = 0;
    while i < v.len()
        invariant
            i <= v@.len(),
            r@.len() == i,
            forall|k: int| 0 <= k < i ==> (#[trigger] r@[k])@ == v@[k].id@,
        decreases v@.len() - i,
    {
        r.push(v[i].id.clone());
        i = i + 1;
    }
    assert(texts(r@) =~= crate::project::character_ids(v@));
    r
}

/// The ids of `v`, copied.
fn ids_of_items(v: &Vec<ItemDef>) -> (r: Vec<String>)
    ensures
        texts(r@) == crate::item::item_ids(v@),
{
    let mut r: Vec<String> = Vec::new();
    let mut i: usize = 0;
    while i < v.len()
        invariant
            i <= v@.len(),
            r@.len() == i,
            forall|k: int| 0 <= k < i ==> (#[trigger] r@[k])@ == v@[k].id@,
        decreases v@.len() - i,
    {
        r.push(v[i].id.clone());
        i = i + 1;
    }
    assert(texts(r@) =~= crate::item::item_ids(v@));
    r
}

/// The ids of `v`, copied.
fn ids_of_magics(v: &Vec<crate::magic::MagicDef>) -> (r: Vec<String>)
    ensures
        texts(r@) == crate::magic::magic_ids(v@),
{
    let mut r: Vec<String> = Vec::new();
    let mut i: usize = 0;
    while i < v.len()
        invariant
            i <= v@.len(),
            r@.len() == i,
            forall|k: int| 0 <= k < i ==> (#[trigger] r@[k])@ == v@[k].id@,
        decreases v@.len() - i,
    {
        r.push(v[i].id.clone());
        i = i + 1;
    }
    assert(texts(r@) =~= crate::magic::magic_ids(v@));
    r
}

/// The ids of `v`, copied.
fn ids_of_demos(v: &Vec<DemoDef>) -> (r: Vec<String>)
    ensures
        texts(r@) == crate::project::demo_ids(v@),
{
    let mut r: Vec<String> = Vec::new();
    let mut i: usize = 0;
    while i < v.len()
        invariant
            i <= v@.len(),
            r@.len() == i,
            forall|k: int| 0 <= k < i ==> (#[trigger] r@[k])@ == v@[k].id@,
        decreases v@.len() - i,
    {
        r.push(v[i].id.clone());
        i = i + 1;
    }
    assert(texts(r@) =~= crate::project::demo_ids(v@));
    r
}

/// The ids of `v`, copied.
fn ids_of_monsters(v: &Vec<MonsterDef>) -> (r: Vec<String>)
    ensures
        texts(r@) == crate::monster::monster_ids(v@),
{
    let mut r: Vec<String> = Vec::new();
    let mut i: usize = 0;
    while i < v.len()
        invariant
            i <= v@.len(),
            r@.len() == i,
            forall|k: int| 0 <= k < i ==> (#[trigger] r@[k])@ == v@[k].id@,
        decreases v@.len() - i,
    {
        r.push(v[i].id.clone());
        i = i + 1;
    }
    assert(texts(r@) =~= crate::monster::monster_ids(v@));
    r
}

/// The dangling references of the characters `cs`: unknown starting items
/// and unknown known magics, character by character.
pub open spec fn character_lines(cs: Seq<Character>, items: Seq<Seq<char>>, magics: Seq<Seq<char>>) -> Seq<Seq<char>>
    decreases cs.len(),
{
    if cs.len() == 0 {
        seq![]
    } else {
        let c = cs.last();
        character_lines(cs.drop_last(), items, magics) + dangling_lines(c.id@ + ": 未定義アイテム '"@, texts(c.items@), items)
            + dangling_lines(c.id@ + ": 未定義魔法 '"@, texts(c.magics@), magics)
    }
}

/// The problems of item definition `d`: teaching an unknown magic, and effects
/// with neither an equipment slot nor nutrition to deliver them.
pub open spec fn item_def_lines(d: ItemDef, magics: Seq<Seq<char>>) -> Seq<Seq<char>> {
    (match d.teaches {
        Some(m) => if magics.contains(m@) {
            seq![]
        } else {
            seq![d.id@ + ": 未定義魔法を教える '"@ + m@ + "'"@]
        },
        None => seq![],
    }) + if d.effects@.len() > 0 && d.equip_slots@.len() == 0 && d.nutrition == 0 {
        seq![d.id@ + ": 効果があるが装備箇所も栄養価もない"@]
    } else {
        seq![]
    }
}

/// The problems of the item definitions `ds`, definition by definition.
pub open spec fn item_lines(ds: Seq<ItemDef>, magics: Seq<Seq<char>>) -> Seq<Seq<char>>
    decreases ds.len(),
{
    if ds.len() == 0 {
        seq![]
    } else {
        item_lines(ds.drop_last(), magics) + item_def_lines(ds.last(), magics)
    }
}

/// The unknown items the monsters `ms` carry or attack with, monster by
/// monster.
pub open spec fn monster_lines(ms: Seq<MonsterDef>, items: Seq<Seq<char>>) -> Seq<Seq<char>>
    decreases ms.len(),
{
    if ms.len() == 0 {
        seq![]
    } else {
        let m = ms.last();
        monster_lines(ms.drop_last(), items) + dangling_lines(m.id@ + ": 未定義アイテム '"@, texts(m.carry_items@), items)
            + dangling_lines(m.id@ + ": 未定義アイテム '"@, texts(m.attack_items@), items)
    }
}

/// Add the dangling references of the characters.
fn push_character_lines(out: &mut Vec<String>, cs: &Vec<Character>, items: &Vec<String>, magics: &Vec<String>)
    ensures
        texts(final(out)@) == texts(old(out)@) + character_lines(cs@, texts(items@), texts(magics@)),
{
    let ghost o = texts(out@);
    let mut i: usize = 0;
    while i < cs.len()
        invariant
            i <= cs@.len(),
            o == texts(old(out)@),
            texts(out@) == o + character_lines(cs@.take(i as int), texts(items@), texts(magics@)),
        decreases cs@.len() - i,
    {
        assert(cs@.take(i as int + 1).drop_last() =~= cs@.take(i as int));
        assert(cs@.take(i as int + 1).last() == cs@[i as int]);
        let c = &cs[i];
        let h1 = cat(c.id.as_str(), ": 未定義アイテム '");
        push_dangling(out, h1.as_str(), &c.items, items);
        let h2 = cat(c.id.as_str(), ": 未定義魔法 '");
        push_dangling(out, h2.as_str(), &c.magics, magics);
        assert(texts(out@) =~= o + character_lines(cs@.take(i as int + 1), texts(items@), texts(magics@)));
        i = i + 1;
    }
    assert(cs@.take(cs@.len() as int) =~= cs@);
}

/// Add the problems of the item definitions.
fn push_item_lines(out: &mut Vec<String>, ds: &Vec<ItemDef>, magics: &Vec<String>)
    ensures
        texts(final(out)@) == texts(old(out)@) + item_lines(ds@, texts(magics@)),
{
    let ghost o = texts(out@);
    let mut i: usize = 0;
    while i < ds.len()
        invariant
            i <= ds@.len(),
            o == texts(old(out)@),
            texts(out@) == o + item_lines(ds@.take(i as int), texts(magics@)),
        decreases ds@.len() - i,
    {
        assert(ds@.take(i as int + 1).drop_last() =~= ds@.take(i as int));
        assert(ds@.take(i as int + 1).last() == ds@[i as int]);
        let d = &ds[i];
        let ghost before = texts(out@);
        match &d.teaches {
            Some(m) => {
                if !knows(magics, m) {
                    let line = cat4(d.id.as_str(), ": 未定義魔法を教える '", m.as_str(), "'");
                    out.push(line);
                }
            },
            None => {},
        }
        let ghost mid = texts(out@);
        if d.effects.len() > 0 && d.equip_slots.len() == 0 && d.nutrition == 0 {
            let line = cat(d.id.as_str(), ": 効果があるが装備箇所も栄養価もない");
            out.push(line);
        }
        assert(texts(out@) =~= before + item_def_lines(*d, texts(magics@)));
        assert(texts(out@) =~= o + item_lines(ds@.take(i as int + 1), texts(magics@)));
        i = i + 1;
    }
    assert(ds@.take(ds@.len() as int) =~= ds@);
}

/// Add the unknown items the monsters carry or attack with.
fn push_monster_lines(out: &mut Vec<String>, ms: &Vec<MonsterDef>, items: &Vec<String>)
    ensures
        texts(final(out)@) == texts(old(out)@) + monster_lines(ms@, texts(items@)),
{
    let ghost o = texts(out@);
    let mut i: usize = 0;
    while i < ms.len()
        invariant
            i <= ms@.len(),
            o == texts(old(out)@),
            texts(out@) == o + monster_lines(ms@.take(i as int), texts(items@)),
        decreases ms@.len() - i,
    {
        assert(ms@.take(i as int + 1).drop_last() =~= ms@.take(i as int));
        assert(ms@.take(i as int + 1).last() == ms@[i as int]);
        let m = &ms[i];
        let h = cat(m.id.as_str(), ": 未定義アイテム '");
        push_dangling(out, h.as_str(), &m.carry_items, items);
        push_dangling(out, h.as_str(), &m.attack_items, items);
        assert(texts(out@) =~= o + monster_lines(ms@.take(i as int + 1), texts(items@)));
        i = i + 1;
    }
    assert(ms@.take(ms@.len() as int) =~= ms@);
}

/// The ids of the item placements `ps`, copied.
fn ids_of_item_placements(ps: &Vec<crate::item::ItemPlacement>) -> (r: Vec<String>)
    ensures
        texts(r@) == crate::project::item_placement_ids(ps@),
{
    let mut r: Vec<String> = Vec::new();
    let mut i: usize = 0;
    while i < ps.len()
        invariant
            i <= ps@.len(),
            r@.len() == i,
            forall|k: int| 0 <= k < i ==> (#[trigger] r@[k])@ == ps@[k].id@,
        decreases ps@.len() - i,
    {
        r.push(ps[i].id.clone());
        i = i + 1;
    }
    assert(texts(r@) =~= crate::project::item_placement_ids(ps@));
    r
}

/// The ids of the monster placements `ps`, copied.
fn ids_of_monster_placements(ps: &Vec<crate::monster::MonsterPlacement>) -> (r: Vec<String>)
    ensures
        texts(r@) == crate::project::placement_ids(ps@),
{
    let mut r: Vec<String> = Vec::new();
    let mut i: usize = 0;
    while i < ps.len()
        invariant
            i <= ps@.len(),
            r@.len() == i,
            forall|k: int| 0 <= k < i ==> (#[trigger] r@[k])@ == ps@[k].id@,
        decreases ps@.len() - i,
    {
        r.push(ps[i].id.clone());
        i = i + 1;
    }
    assert(texts(r@) =~= crate::project::placement_ids(ps@));
    r
}

/// How levels are named in warnings: `level` and the index.
pub open spec fn level_head(li: nat) -> Seq<char> {
    "level"@ + decimal(li)
}

/// Every floor of `l` has `i32` sides.
pub open spec fn sides_fit(l: LevelData) -> bool {
    forall|f: int| 0 <= f < l.level.floors@.len() ==> (#[trigger] l.level.floors@[f]).width <= i32::MAX
        && l.level.floors@[f].height <= i32::MAX
}

/// The problems of level `l` (index `li`): placement overages, unknown placed
/// items and monsters, and trigger blocks without events.
pub open spec fn one_level_lines(
    l: LevelData,
    li: nat,
    limits: crate::config::LimitsConfig,
    items: Seq<Seq<char>>,
    monsters: Seq<Seq<char>>,
) -> Seq<Seq<char>> {
    over_line(l.items@.len(), limits.item_placements_per_level as nat, level_head(li) + " アイテム配置"@) + over_line(
        l.monsters@.len(),
        limits.monster_placements_per_level as nat,
        level_head(li) + " モンスター配置"@,
    ) + dangling_lines(level_head(li) + ": 未定義アイテム配置 '"@, crate::project::item_placement_ids(l.items@), items)
        + dangling_lines(level_head(li) + ": 未定義モンスター配置 '"@, crate::project::placement_ids(l.monsters@), monsters)
        + level_mismatches(l, l.level.floors@.len() as int).map_values(|m: Seq<char>| level_head(li) + ": "@ + m)
}

/// The problems of the levels `ls`, level by level.
pub open spec fn level_lines(
    ls: Seq<LevelData>,
    limits: crate::config::LimitsConfig,
    items: Seq<Seq<char>>,
    monsters: Seq<Seq<char>>,
) -> Seq<Seq<char>>
    decreases ls.len(),
{
    if ls.len() == 0 {
        seq![]
    } else {
        level_lines(ls.drop_last(), limits, items, monsters) + one_level_lines(
            ls.last(),
            (ls.len() - 1) as nat,
            limits,
            items,
            monsters,
        )
    }
}

/// Add the problems of the levels.
fn push_level_lines(
    out: &mut Vec<String>,
    ls: &Vec<LevelData>,
    limits: &crate::config::LimitsConfig,
    items: &Vec<String>,
    monsters: &Vec<String>,
)
    requires
        forall|i: int| 0 <= i < ls@.len() ==> sides_fit(#[trigger] ls@[i]),
    ensures
        texts(final(out)@) == texts(old(out)@) + level_lines(ls@, *limits, texts(items@), texts(monsters@)),
{
    let ghost o = texts(out@);
    let mut i: usize = 0;
    while i < ls.len()
        invariant
            i <= ls@.len(),
            o == texts(old(out)@),
            forall|k: int| 0 <= k < ls@.len() ==> sides_fit(#[trigger] ls@[k]),
            texts(out@) == o + level_lines(ls@.take(i as int), *limits, texts(items@), texts(monsters@)),
        decreases ls@.len() - i,
    {
        assert(ls@.take(i as int + 1).drop_last() =~= ls@.take(i as int));
        assert(ls@.take(i as int + 1).last() == ls@[i as int]);
        let l = &ls[i];
        assert(sides_fit(ls@[i as int]));
        let ghost before = texts(out@);
        let head = cat("level", u64_text(i as u64).as_str());
        let w1 = cat(head.as_str(), " アイテム配置");
        push_over(out, l.items.len(), limits.item_placements_per_level, w1.as_str());
        let w2 = cat(head.as_str(), " モンスター配置");
        push_over(out, l.monsters.len(), limits.monster_placements_per_level, w2.as_str());
        let h3 = cat(head.as_str(), ": 未定義アイテム配置 '");
        let pid = ids_of_item_placements(&l.items);
        push_dangling(out, h3.as_str(), &pid, items);
        let h4 = cat(head.as_str(), ": 未定義モンスター配置 '");
        let mid = ids_of_monster_placements(&l.monsters);
        push_dangling(out, h4.as_str(), &mid, monsters);
        let tms = crate::editor::trigger_event_mismatches(l);
        let ghost base = texts(out@);
        let ghost ms = texts(tms@);
        let mut k: usize = 0;
        while k < tms.len()
            invariant
                k <= tms@.len(),
                ms == texts(tms@),
                head@ == level_head(i as nat),
                texts(out@) == base + ms.take(k as int).map_values(|m: Seq<char>| level_head(i as nat) + ": "@ + m),
            decreases tms@.len() - k,
        {
            let line = cat3(head.as_str(), ": ", tms[k].as_str());
            let ghost pre = texts(out@);
            out.push(line);
            assert(texts(out@) =~= pre.push(line@));
            assert(ms[k as int] == tms@[k as int]@);
            assert(line@ == level_head(i as nat) + ": "@ + ms[k as int]);
            assert(ms.take(k as int + 1) =~= ms.take(k as int).push(ms[k as int]));
            assert(texts(out@) =~= base + ms.take(k as int + 1).map_values(
                |m: Seq<char>| level_head(i as nat) + ": "@ + m,
            ));
            k = k + 1;
        }
        assert(ms.take(ms.len() as int) =~= ms);
        assert(texts(out@) =~= before + one_level_lines(ls@[i as int], i as nat, *limits, texts(items@), texts(monsters@)));
        assert(texts(out@) =~= o + level_lines(ls@.take(i as int + 1), *limits, texts(items@), texts(monsters@)));
        i = i + 1;
    }
    assert(ls@.take(ls@.len() as int) =~= ls@);
}

/// How many of `ids` equal `id`.
pub open spec fn count_of(ids: Seq<Seq<char>>, id: Seq<char>) -> nat
    decreases ids.len(),
{
    if ids.len() == 0 {
        0
    } else {
        count_of(ids.drop_last(), id) + if ids.last() == id {
            1nat
        } else {
            0nat
        }
    }
}

/// How many of `ids` spell `id` (at most 2 counted: more is reported as 2).
fn count_upto_two(ids: &Vec<String>, id: &String) -> (r: usize)
    ensures
        r == if count_of(texts(ids@), id@) > 2 {
            2
        } else {
            count_of(texts(ids@), id@)
        },
{
    let ghost all = texts(ids@);
    let mut c: usize = 0;
    let mut i: usize = 0;
    while i < ids.len()
        invariant
            i <= ids@.len(),
            all == texts(ids@),
            c == if count_of(all.take(i as int), id@) > 2 {
                2
            } else {
                count_of(all.take(i as int), id@)
            },
        decreases ids@.len() - i,
    {
        assert(all.take(i as int + 1).drop_last() =~= all.take(i as int));
        assert(all.take(i as int + 1).last() == ids@[i as int]@);
        if ids[i] == *id && c < 2 {
            c = c + 1;
        }
        i = i + 1;
    }
    assert(all.take(all.len() as int) =~= all);
    c
}

/// The problems of demo `d` (index `i`) among the demo ids `ids`: an empty id
/// or one used twice, and too many lines.
pub open spec fn one_demo_lines(d: DemoDef, i: nat, ids: Seq<Seq<char>>, limits: crate::config::LimitsConfig) -> Seq<
    Seq<char>,
> {
    (if d.id@.len() == 0 {
        seq!["demo["@ + decimal(i) + "]: idが空"@]
    } else if count_of(ids, d.id@) > 1 {
        seq!["demo id重複 '"@ + d.id@ + "'"@]
    } else {
        seq![]
    }) + over_line(d.lines@.len(), limits.demo_message_lines as nat, "デモ'"@ + d.id@ + "' 行数"@)
}

/// The problems of the demos `ds`, demo by demo, `ids` being all demo ids.
pub open spec fn demo_lines(ds: Seq<DemoDef>, ids: Seq<Seq<char>>, limits: crate::config::LimitsConfig) -> Seq<Seq<char>>
    decreases ds.len(),
{
    if ds.len() == 0 {
        seq![]
    } else {
        demo_lines(ds.drop_last(), ids, limits) + one_demo_lines(ds.last(), (ds.len() - 1) as nat, ids, limits)
    }
}

/// Add the problems of the demos.
fn push_demo_lines(out: &mut Vec<String>, ds: &Vec<DemoDef>, ids: &Vec<String>, limits: &crate::config::LimitsConfig)
    ensures
        texts(final(out)@) == texts(old(out)@) + demo_lines(ds@, texts(ids@), *limits),
{
    let ghost o = texts(out@);
    let mut i: usize = 0;
    while i < ds.len()
        invariant
            i <= ds@.len(),
            o == texts(old(out)@),
            texts(out@) == o + demo_lines(ds@.take(i as int), texts(ids@), *limits),
        decreases ds@.len() - i,
    {
        assert(ds@.take(i as int + 1).drop_last() =~= ds@.take(i as int));
        assert(ds@.take(i as int + 1).last() == ds@[i as int]);
        let d = &ds[i];
        let ghost before = texts(out@);
        if d.id.as_str().is_empty() {
            let line = cat3("demo[", u64_text(i as u64).as_str(), "]: idが空");
            out.push(line);
        } else if count_upto_two(ids, &d.id) > 1 {
            let line = cat3("demo id重複 '", d.id.as_str(), "'");
            out.push(line);
        }
        let w = cat3("デモ'", d.id.as_str(), "' 行数");
        push_over(out, d.lines.len(), limits.demo_message_lines, w.as_str());
        assert(texts(out@) =~= before + one_demo_lines(*d, i as nat, texts(ids@), *limits));
        assert(texts(out@) =~= o + demo_lines(ds@.take(i as int + 1), texts(ids@), *limits));
        i = i + 1;
    }
    assert(ds@.take(ds@.len() as int) =~= ds@);
}

/// The `StartDemo` actions of event `e` (on level `li`) naming an unknown demo.
pub open spec fn event_demo_lines(acts: Seq<EventAction>, e: EventDef, li: nat, demos: Seq<Seq<char>>) -> Seq<Seq<char>>
    decreases acts.len(),
{
    if acts.len() == 0 {
        seq![]
    } else {
        event_demo_lines(acts.drop_last(), e, li, demos) + match acts.last() {
            EventAction::StartDemo { demo } => if demos.contains(demo@) {
                seq![]
            } else {
                seq![level_head(li) + " "@ + e.id@ + ": 未定義デモ '"@ + demo@ + "'"@]
            },
            _ => seq![],
        }
    }
}

/// The unknown-demo lines of the events `es` of level `li`, event by event.
pub open spec fn events_demo_lines(es: Seq<EventDef>, li: nat, demos: Seq<Seq<char>>) -> Seq<Seq<char>>
    decreases es.len(),
{
    if es.len() == 0 {
        seq![]
    } else {
        events_demo_lines(es.drop_last(), li, demos) + event_demo_lines(es.last().actions@, es.last(), li, demos)
    }
}

/// The unknown-demo lines of the levels `ls`, level by level.
pub open spec fn levels_demo_lines(ls: Seq<LevelData>, demos: Seq<Seq<char>>) -> Seq<Seq<char>>
    decreases ls.len(),
{
    if ls.len() == 0 {
        seq![]
    } else {
        levels_demo_lines(ls.drop_last(), demos) + events_demo_lines(ls.last().events@, (ls.len() - 1) as nat, demos)
    }
}

/// Add the unknown-demo lines of the levels.
fn push_demo_refs(out: &mut Vec<String>, ls: &Vec<LevelData>, demos: &Vec<String>)
    ensures
        texts(final(out)@) == texts(old(out)@) + levels_demo_lines(ls@, texts(demos@)),
{
    let ghost o = texts(out@);
    let mut i: usize = 0;
    while i < ls.len()
        invariant
            i <= ls@.len(),
            o == texts(old(out)@),
            texts(out@) == o + levels_demo_lines(ls@.take(i as int), texts(demos@)),
        decreases ls@.len() - i,
    {
        assert(ls@.take(i as int + 1).drop_last() =~= ls@.take(i as int));
        assert(ls@.take(i as int + 1).last() == ls@[i as int]);
        let l = &ls[i];
        let head = cat("level", u64_text(i as u64).as_str());
        let ghost lbase = texts(out@);
        let mut j: usize = 0;
        while j < l.events.len()
            invariant
                j <= l.events@.len(),
                head@ == level_head(i as nat),
                texts(out@) == lbase + events_demo_lines(l.events@.take(j as int), i as nat, texts(demos@)),
            decreases l.events@.len() - j,
        {
            assert(l.events@.take(j as int + 1).drop_last() =~= l.events@.take(j as int));
            assert(l.events@.take(j as int + 1).last() == l.events@[j as int]);
            let e = &l.events[j];
            let ghost ebase = texts(out@);
            let mut k: usize = 0;
            while k < e.actions.len()
                invariant
                    k <= e.actions@.len(),
                    head@ == level_head(i as nat),
                    texts(out@) == ebase + event_demo_lines(e.actions@.take(k as int), *e, i as nat, texts(demos@)),
                decreases e.actions@.len() - k,
            {
                assert(e.actions@.take(k as int + 1).drop_last() =~= e.actions@.take(k as int));
                assert(e.actions@.take(k as int + 1).last() == e.actions@[k as int]);
                let ghost pre = texts(out@);
                match &e.actions[k] {
                    EventAction::StartDemo { demo } => {
                        if !knows(demos, demo) {
                            let a = cat3(head.as_str(), " ", e.id.as_str());
                            let line = cat4(a.as_str(), ": 未定義デモ '", demo.as_str(), "'");
                            out.push(line);
                            assert(texts(out@) =~= pre.push(line@));
                        }
                    },
                    _ => {},
                }
                assert(texts(out@) =~= ebase + event_demo_lines(e.actions@.take(k as int + 1), *e, i as nat, texts(demos@)));
                k = k + 1;
            }
            assert(e.actions@.take(e.actions@.len() as int) =~= e.actions@);
            assert(texts(out@) =~= lbase + events_demo_lines(l.events@.take(j as int + 1), i as nat, texts(demos@)));
            j = j + 1;
        }
        assert(l.events@.take(l.events@.len() as int) =~= l.events@);
        assert(texts(out@) =~= o + levels_demo_lines(ls@.take(i as int + 1), texts(demos@)));
        i = i + 1;
    }
    assert(ls@.take(ls@.len() as int) =~= ls@);
}

/// Every warning `validate` gives for project `p`, in order: overages of the
/// character, party, item, monster, magic and level counts; party members
/// that are not characters; each character's unknown items and magics; each
/// item's unknown taught magic and undeliverable effects; each monster's
/// unknown items; each level's placement overages, unknown placements and
/// trigger blocks without events; the demo count overage; each demo's empty
/// or repeated id and line overage; and `StartDemo` actions naming an unknown
/// demo.
pub open spec fn validation_warnings(p: Project) -> Seq<Seq<char>> {
    let l = p.limits;
    let chars = crate::project::character_ids(p.characters@);
    let items = crate::item::item_ids(p.items@);
    let mons = crate::monster::monster_ids(p.monsters@);
    let magics = crate::magic::magic_ids(p.magics@);
    let demos = crate::project::demo_ids(p.demos@);
    over_line(p.characters@.len(), l.max_characters as nat, "キャラ数"@) + over_line(
        p.party@.len(),
        l.party_size as nat,
        "パーティ人数"@,
    ) + over_line(p.items@.len(), l.max_item_kinds as nat, "アイテム種類"@) + over_line(
        p.monsters@.len(),
        l.max_monster_kinds as nat,
        "モンスター種類"@,
    ) + over_line(p.magics@.len(), l.max_magic_kinds as nat, "魔法種類"@) + over_line(
        p.levels@.len(),
        l.max_levels as nat,
        "レベル数"@,
    ) + dangling_lines("party: 未定義キャラ '"@, texts(p.party@), chars) + character_lines(p.characters@, items, magics)
        + item_lines(p.items@, magics) + monster_lines(p.monsters@, items) + level_lines(p.levels@, l, items, mons)
        + over_line(p.demos@.len(), l.max_demos as nat, "デモ本数"@) + demo_lines(p.demos@, demos, l)
        + levels_demo_lines(p.levels@, demos)
}

/// The project's non-fatal warnings (see [`validation_warnings`]).
pub fn validate(project: &Project) -> (w: Vec<String>)
    requires
        forall|i: int| 0 <= i < project.levels@.len() ==> sides_fit(#[trigger] project.levels@[i]),
    ensures
        texts(w@) == validation_warnings(*project),
{
    let mut w: Vec<String> = Vec::new();
    let l = &project.limits;
    let char_ids = ids_of_characters(&project.characters);
    let item_ids = ids_of_items(&project.items);
    let mon_ids = ids_of_monsters(&project.monsters);
    let magic_ids = ids_of_magics(&project.magics);
    push_over(&mut w, project.characters.len(), l.max_characters, "キャラ数");
    push_over(&mut w, project.party.len(), l.party_size, "パーティ人数");
    push_over(&mut w, project.items.len(), l.max_item_kinds, "アイテム種類");
    push_over(&mut w, project.monsters.len(), l.max_monster_kinds, "モンスター種類");
    push_over(&mut w, project.magics.len(), l.max_magic_kinds, "魔法種類");
    push_over(&mut w, project.levels.len(), l.max_levels, "レベル数");
    push_dangling(&mut w, "party: 未定義キャラ '", &project.party, &char_ids);
    push_character_lines(&mut w, &project.characters, &item_ids, &magic_ids);
    push_item_lines(&mut w, &project.items, &magic_ids);
    push_monster_lines(&mut w, &project.monsters, &item_ids);
    push_level_lines(&mut w, &project.levels, l, &item_ids, &mon_ids);
    push_over(&mut w, project.demos.len(), l.max_demos, "デモ本数");
    let demo_ids = ids_of_demos(&project.demos);
    push_demo_lines(&mut w, &project.demos, &demo_ids, l);
    push_demo_refs(&mut w, &project.levels, &demo_ids);
    proof {
        assert(texts(w@) =~= validation_warnings(*project));
    }
    w
}

/// The warp actions of event `e` (on level `li`) into level `index`.
pub open spec fn warp_ref_lines(acts: Seq<EventAction>, e: EventDef, li: nat, index: nat) -> Seq<Seq<char>>
    decreases acts.len(),
{
    if acts.len() == 0 {
        seq![]
    } else {
        warp_ref_lines(acts.drop_last(), e, li, index) + match acts.last() {
            EventAction::Warp { level, .. } => if level == index {
                seq![level_head(li) + " のワープ '"@ + e.id@ + "' が "@ + level_head(index) + " を参照"@]
            } else {
                seq![]
            },
            _ => seq![],
        }
    }
}

/// What in level `l` (index `li`) refers to level `index`: its stairs links,
/// then its warp actions, event by event.
pub open spec fn level_ref_lines(l: LevelData, li: nat, index: nat) -> Seq<Seq<char>> {
    stairs_ref_lines(l.stairs_links@, li, index) + events_warp_lines(l.events@, li, index)
}

/// The stairs links among `ls` (of level `li`) into level `index`.
pub open spec fn stairs_ref_lines(ls: Seq<crate::project::StairsLink>, li: nat, index: nat) -> Seq<Seq<char>>
    decreases ls.len(),
{
    if ls.len() == 0 {
        seq![]
    } else {
        stairs_ref_lines(ls.drop_last(), li, index) + if ls.last().to_level == index {
            seq![level_head(li) + " の階段が "@ + level_head(index) + " を参照"@]
        } else {
            seq![]
        }
    }
}

/// The warp actions of the events `es` (of level `li`) into level `index`.
pub open spec fn events_warp_lines(es: Seq<EventDef>, li: nat, index: nat) -> Seq<Seq<char>>
    decreases es.len(),
{
    if es.len() == 0 {
        seq![]
    } else {
        events_warp_lines(es.drop_last(), li, index) + warp_ref_lines(es.last().actions@, es.last(), li, index)
    }
}

/// What refers to level `index` from the other levels among `ls`, level by level.
pub open spec fn delete_warnings(ls: Seq<LevelData>, index: nat) -> Seq<Seq<char>>
    decreases ls.len(),
{
    if ls.len() == 0 {
        seq![]
    } else {
        let li = (ls.len() - 1) as nat;
        delete_warnings(ls.drop_last(), index) + if li == index {
            seq![]
        } else {
            level_ref_lines(ls.last(), li, index)
        }
    }
}

/// Warnings raised by deleting level `index`: stairs links and warp actions
/// of the other levels that point at it (see [`delete_warnings`]).
pub fn level_delete_warnings(project: &Project, index: usize) -> (w: Vec<String>)
    ensures
        texts(w@) == delete_warnings(project.levels@, index as nat),
{
    let ls = &project.levels;
    let mut w: Vec<String> = Vec::new();
    let target = cat("level", u64_text(index as u64).as_str());
    let mut i: usize = 0;
    while i < ls.len()
        invariant
            i <= ls@.len(),
            *ls == project.levels,
            target@ == level_head(index as nat),
            texts(w@) == delete_warnings(ls@.take(i as int), index as nat),
        decreases ls@.len() - i,
    {
        assert(ls@.take(i as int + 1).drop_last() =~= ls@.take(i as int));
        assert(ls@.take(i as int + 1).last() == ls@[i as int]);
        let ghost lbase = texts(w@);
        if i != index {
            let l = &ls[i];
            let head = cat("level", u64_text(i as u64).as_str());
            let mut j: usize = 0;
            while j < l.stairs_links.len()
                invariant
                    j <= l.stairs_links@.len(),
                    head@ == level_head(i as nat),
                    target@ == level_head(index as nat),
                    texts(w@) == lbase + stairs_ref_lines(l.stairs_links@.take(j as int), i as nat, index as nat),
                decreases l.stairs_links@.len() - j,
            {
                assert(l.stairs_links@.take(j as int + 1).drop_last() =~= l.stairs_links@.take(j as int));
                assert(l.stairs_links@.take(j as int + 1).last() == l.stairs_links@[j as int]);
                let ghost pre = texts(w@);
                if l.stairs_links[j].to_level == index {
                    let line = cat4(head.as_str(), " の階段が ", target.as_str(), " を参照");
                    w.push(line);
                    assert(texts(w@) =~= pre.push(line@));
                }
                assert(texts(w@) =~= lbase + stairs_ref_lines(l.stairs_links@.take(j as int + 1), i as nat, index as nat));
                j = j + 1;
            }
            assert(l.stairs_links@.take(l.stairs_links@.len() as int) =~= l.stairs_links@);
            let ghost sbase = texts(w@);
            let mut e: usize = 0;
            while e < l.events.len()
                invariant
                    e <= l.events@.len(),
                    head@ == level_head(i as nat),
                    target@ == level_head(index as nat),
                    texts(w@) == sbase + events_warp_lines(l.events@.take(e as int), i as nat, index as nat),
                decreases l.events@.len() - e,
            {
                assert(l.events@.take(e as int + 1).drop_last() =~= l.events@.take(e as int));
                assert(l.events@.take(e as int + 1).last() == l.events@[e as int]);
                let ev = &l.events[e];
                let ghost ebase = texts(w@);
                let mut k: usize = 0;
                while k < ev.actions.len()
                    invariant
                        k <= ev.actions@.len(),
                        head@ == level_head(i as nat),
                        target@ == level_head(index as nat),
                        texts(w@) == ebase + warp_ref_lines(ev.actions@.take(k as int), *ev, i as nat, index as nat),
                    decreases ev.actions@.len() - k,
                {
                    assert(ev.actions@.take(k as int + 1).drop_last() =~= ev.actions@.take(k as int));
                    assert(ev.actions@.take(k as int + 1).last() == ev.actions@[k as int]);
                    let ghost pre = texts(w@);
                    match &ev.actions[k] {
                        EventAction::Warp { level, .. } => {
                            if *level == index {
                                let a = cat4(head.as_str(), " のワープ '", ev.id.as_str(), "' が ");
                                let line = cat3(a.as_str(), target.as_str(), " を参照");
                                w.push(line);
                                assert(texts(w@) =~= pre.push(line@));
                            }
                        },
                        _ => {},
                    }
                    assert(texts(w@) =~= ebase + warp_ref_lines(ev.actions@.take(k as int + 1), *ev, i as nat, index as nat));
                    k = k + 1;
                }
                assert(ev.actions@.take(ev.actions@.len() as int) =~= ev.actions@);
                assert(texts(w@) =~= sbase + events_warp_lines(l.events@.take(e as int + 1), i as nat, index as nat));
                e = e + 1;
            }
            assert(l.events@.take(l.events@.len() as int) =~= l.events@);
        }
        assert(texts(w@) =~= delete_warnings(ls@.take(i as int + 1), index as nat));
        i = i + 1;
    }
    assert(ls@.take(ls@.len() as int) =~= ls@);
    w
}

} // verus!
