//! Project-wide content operations of the editor: renaming an id together
//! with every reference to it (the one place that knows where ids are
//! referenced), validation warnings, and the warnings for deleting a level.
use vstd::prelude::*;
use crate::character::Character;
use crate::editor::IdKind;
use crate::event::{EventAction, EventDef, PlateCond, TriggerKind};
use crate::item::{ItemDef, ItemPlacement, first_index_of, item_ids};
use crate::magic::{MagicDef, magic_ids};
use crate::monster::{MonsterDef, MonsterPlacement, monster_ids};
use crate::project::{LevelData, Project, character_ids};
use crate::text::same_text;

verus! {

/// `s` with `old` replaced by `new` when it spells `old`.
pub open spec fn swap_id(s: Seq<char>, old: Seq<char>, new: Seq<char>) -> Seq<char> {
    if s == old {
        new
    } else {
        s
    }
}

/// How many of `ids` spell `old`.
pub open spec fn hits(ids: Seq<String>, old: Seq<char>) -> nat
    decreases ids.len(),
{
    if ids.len() == 0 {
        0
    } else {
        hits(ids.drop_last(), old) + if ids.last()@ == old {
            1nat
        } else {
            0nat
        }
    }
}

/// `b` is `a` with every id spelling `old` replaced by `new`.
pub open spec fn ids_swapped(a: Seq<String>, b: Seq<String>, old: Seq<char>, new: Seq<char>) -> bool {
    &&& b.len() == a.len()
    &&& forall|i: int| 0 <= i < a.len() ==> (#[trigger] b[i])@ == swap_id(a[i]@, old, new)
}

/// The sum of `s`.
pub open spec fn nat_sum(s: Seq<nat>) -> nat
    decreases s.len(),
{
    if s.len() == 0 {
        0
    } else {
        nat_sum(s.drop_last()) + s.last()
    }
}

/// Replace `s` by `new` when it spells `old`; says whether it did.
fn swap_one(s: &mut String, from: &str, to: &str) -> (hit: bool)
    ensures
        hit == (old(s)@ == from@),
        final(s)@ == swap_id(old(s)@, from@, to@),
{
    if same_text(s, from) {
        *s = String::from_str(to);
        true
    } else {
        false
    }
}

/// Replace every id of `ids` spelling `old` by `new`; returns how many.
fn swap_all(ids: &mut Vec<String>, from: &str, to: &str) -> (n: usize)
    ensures
        ids_swapped(old(ids)@, final(ids)@, from@, to@),
        n == hits(old(ids)@, from@),
{
    let ghost a = ids@;
    let mut n: usize = 0;
    let mut i: usize = 0;
    while i < ids.len()
        invariant
            i <= ids@.len() == a.len(),
            a == old(ids)@,
            n <= i,
            n == hits(a.take(i as int), from@),
            forall|k: int| 0 <= k < i ==> (#[trigger] ids@[k])@ == swap_id(a[k]@, from@, to@),
            forall|k: int| i <= k < a.len() ==> #[trigger] ids@[k] == a[k],
        decreases a.len() - i,
    {
        assert(a.take(i as int + 1).drop_last() =~= a.take(i as int));
        assert(a.take(i as int + 1).last() == a[i as int]);
        if same_text(&ids[i], from) {
            ids.set(i, String::from_str(to));
            n = n + 1;
        }
        i = i + 1;
    }
    assert(a.take(a.len() as int) =~= a);
    n
}

/// `b` is `a` with the id of its first definition spelling `old` (if any)
/// changed to `new`; `ids` gives the definitions' ids and `same_but_id` says
/// that two definitions agree but for their ids.
pub open spec fn first_def_renamed<T>(
    a: Seq<T>,
    b: Seq<T>,
    ids: spec_fn(Seq<T>) -> Seq<Seq<char>>,
    same_but_id: spec_fn(T, T) -> bool,
    old: Seq<char>,
    new: Seq<char>,
) -> bool {
    &&& b.len() == a.len()
    &&& forall|i: int|
        0 <= i < a.len() ==> if first_index_of(ids(a), old) == Some(i) {
            same_but_id(a[i], #[trigger] b[i]) && ids(b)[i] == new
        } else {
            b[i] == a[i]
        }
}

/// Two characters agree but for their ids.
pub open spec fn same_character_but_id(a: Character, b: Character) -> bool {
    b == (Character { id: b.id, ..a })
}

/// Two item definitions agree but for their ids.
pub open spec fn same_item_but_id(a: ItemDef, b: ItemDef) -> bool {
    b == (ItemDef { id: b.id, ..a })
}

/// Two monster definitions agree but for their ids.
pub open spec fn same_monster_but_id(a: MonsterDef, b: MonsterDef) -> bool {
    b == (MonsterDef { id: b.id, ..a })
}

/// Two magic definitions agree but for their ids.
pub open spec fn same_magic_but_id(a: MagicDef, b: MagicDef) -> bool {
    b == (MagicDef { id: b.id, ..a })
}

/// A prefix of a sum of naturals is at most the sum.
proof fn lemma_nat_sum_prefix(s: Seq<nat>, i: int)
    requires
        0 <= i <= s.len(),
    ensures
        nat_sum(s.take(i)) <= nat_sum(s),
    decreases s.len() - i,
{
    if i < s.len() {
        lemma_nat_sum_prefix(s, i + 1);
        assert(s.take(i + 1).drop_last() =~= s.take(i));
    } else {
        assert(s.take(i) =~= s);
    }
}

/// One more element extends a running sum.
proof fn lemma_nat_sum_step(s: Seq<nat>, i: int)
    requires
        0 <= i < s.len(),
    ensures
        nat_sum(s.take(i + 1)) == nat_sum(s.take(i)) + s[i],
{
    assert(s.take(i + 1).drop_last() =~= s.take(i));
}

/// Rename the first character with id `old` to `new`.
fn rename_character_def(cs: &mut Vec<Character>, from: &str, to: &str)
    ensures
        first_def_renamed(
            old(cs)@,
            final(cs)@,
            |v: Seq<Character>| character_ids(v),
            |a: Character, b: Character| same_character_but_id(a, b),
            from@,
            to@,
        ),
{
    let ghost a = cs@;
    let mut i: usize = 0;
    while i < cs.len()
        invariant
            i <= cs@.len(),
            cs@ == a,
            a == old(cs)@,
            forall|k: int| 0 <= k < i ==> character_ids(a)[k] != from@,
        decreases cs@.len() - i,
    {
        if same_text(&cs[i].id, from) {
            proof {
                crate::item::lemma_first_index_of_at(character_ids(a), from@, i as int);
            }
            let mut c = cs.remove(i);
            c.id = String::from_str(to);
            cs.insert(i, c);
            return ;
        }
        i = i + 1;
    }
    proof {
        crate::item::lemma_first_index_of(character_ids(a), from@);
    }
}

/// Rename the first item definition with id `old` to `new`.
fn rename_item_def(ds: &mut Vec<ItemDef>, from: &str, to: &str)
    ensures
        first_def_renamed(
            old(ds)@,
            final(ds)@,
            |v: Seq<ItemDef>| item_ids(v),
            |a: ItemDef, b: ItemDef| same_item_but_id(a, b),
            from@,
            to@,
        ),
{
    let ghost a = ds@;
    let mut i: usize = 0;
    while i < ds.len()
        invariant
            i <= ds@.len(),
            ds@ == a,
            a == old(ds)@,
            forall|k: int| 0 <= k < i ==> item_ids(a)[k] != from@,
        decreases ds@.len() - i,
    {
        if same_text(&ds[i].id, from) {
            proof {
                crate::item::lemma_first_index_of_at(item_ids(a), from@, i as int);
            }
            let mut d = ds.remove(i);
            d.id = String::from_str(to);
            ds.insert(i, d);
            return ;
        }
        i = i + 1;
    }
    proof {
        crate::item::lemma_first_index_of(item_ids(a), from@);
    }
}

/// Rename the first monster definition with id `old` to `new`.
fn rename_monster_def(ds: &mut Vec<MonsterDef>, from: &str, to: &str)
    ensures
        first_def_renamed(
            old(ds)@,
            final(ds)@,
            |v: Seq<MonsterDef>| monster_ids(v),
            |a: MonsterDef, b: MonsterDef| same_monster_but_id(a, b),
            from@,
            to@,
        ),
{
    let ghost a = ds@;
    let mut i: usize = 0;
    while i < ds.len()
        invariant
            i <= ds@.len(),
            ds@ == a,
            a == old(ds)@,
            forall|k: int| 0 <= k < i ==> monster_ids(a)[k] != from@,
        decreases ds@.len() - i,
    {
        if same_text(&ds[i].id, from) {
            proof {
                crate::item::lemma_first_index_of_at(monster_ids(a), from@, i as int);
            }
            let mut d = ds.remove(i);
            d.id = String::from_str(to);
            ds.insert(i, d);
            return ;
        }
        i = i + 1;
    }
    proof {
        crate::item::lemma_first_index_of(monster_ids(a), from@);
    }
}

/// Rename the first magic definition with id `old` to `new`.
fn rename_magic_def(ds: &mut Vec<MagicDef>, from: &str, to: &str)
    ensures
        first_def_renamed(
            old(ds)@,
            final(ds)@,
            |v: Seq<MagicDef>| magic_ids(v),
            |a: MagicDef, b: MagicDef| same_magic_but_id(a, b),
            from@,
            to@,
        ),
{
    let ghost a = ds@;
    let mut i: usize = 0;
    while i < ds.len()
        invariant
            i <= ds@.len(),
            ds@ == a,
            a == old(ds)@,
            forall|k: int| 0 <= k < i ==> magic_ids(a)[k] != from@,
        decreases ds@.len() - i,
    {
        if same_text(&ds[i].id, from) {
            proof {
                crate::item::lemma_first_index_of_at(magic_ids(a), from@, i as int);
            }
            let mut d = ds.remove(i);
            d.id = String::from_str(to);
            ds.insert(i, d);
            return ;
        }
        i = i + 1;
    }
    proof {
        crate::item::lemma_first_index_of(magic_ids(a), from@);
    }
}

/// How many starting items of each character spell `old`.
pub open spec fn character_item_hits(cs: Seq<Character>, old: Seq<char>) -> Seq<nat> {
    cs.map_values(|c: Character| hits(c.items@, old))
}

/// How many known magics of each character spell `old`.
pub open spec fn character_magic_hits(cs: Seq<Character>, old: Seq<char>) -> Seq<nat> {
    cs.map_values(|c: Character| hits(c.magics@, old))
}

/// `b` is `a` with each character's starting items (`items`) or known magics
/// (otherwise) renamed from `old` to `new`.
pub open spec fn characters_swapped(a: Seq<Character>, b: Seq<Character>, items: bool, old: Seq<char>, new: Seq<char>) -> bool {
    &&& b.len() == a.len()
    &&& forall|i: int|
        0 <= i < a.len() ==> if items {
            (#[trigger] b[i]) == (Character { items: b[i].items, ..a[i] }) && ids_swapped(a[i].items@, b[i].items@, old, new)
        } else {
            b[i] == (Character { magics: b[i].magics, ..a[i] }) && ids_swapped(a[i].magics@, b[i].magics@, old, new)
        }
}

/// Rename `old` to `new` in every character's starting items (`items`) or
/// known magics; returns how many were renamed.
fn swap_in_characters(cs: &mut Vec<Character>, items: bool, from: &str, to: &str) -> (n: usize)
    requires
        nat_sum(
            if items {
                character_item_hits(old(cs)@, from@)
            } else {
                character_magic_hits(old(cs)@, from@)
            },
        ) <= usize::MAX,
    ensures
        characters_swapped(old(cs)@, final(cs)@, items, from@, to@),
        n == nat_sum(
            if items {
                character_item_hits(old(cs)@, from@)
            } else {
                character_magic_hits(old(cs)@, from@)
            },
        ),
{
    let ghost a = cs@;
    let ghost counts = if items {
        character_item_hits(a, from@)
    } else {
        character_magic_hits(a, from@)
    };
    let mut n: usize = 0;
    let mut i: usize = 0;
    while i < cs.len()
        invariant
            i <= cs@.len() == a.len() == counts.len(),
            a == old(cs)@,
            counts == if items {
                character_item_hits(a, from@)
            } else {
                character_magic_hits(a, from@)
            },
            nat_sum(counts) <= usize::MAX,
            n == nat_sum(counts.take(i as int)),
            forall|k: int|
                0 <= k < i ==> if items {
                    (#[trigger] cs@[k]) == (Character { items: cs@[k].items, ..a[k] }) && ids_swapped(a[k].items@, cs@[k].items@, from@, to@)
                } else {
                    cs@[k] == (Character { magics: cs@[k].magics, ..a[k] }) && ids_swapped(a[k].magics@, cs@[k].magics@, from@, to@)
                },
            forall|k: int| i <= k < a.len() ==> #[trigger] cs@[k] == a[k],
        decreases a.len() - i,
    {
        let mut c = cs.remove(i);
        assert(c == a[i as int]);
        let k = if items {
            swap_all(&mut c.items, from, to)
        } else {
            swap_all(&mut c.magics, from, to)
        };
        cs.insert(i, c);
        proof {
            lemma_nat_sum_step(counts, i as int);
            lemma_nat_sum_prefix(counts, i as int + 1);
        }
        n = n + k;
        i = i + 1;
    }
    proof {
        assert(counts.take(a.len() as int) =~= counts);
    }
    n
}

/// Whether item definition `d` teaches the magic `old` (as a count).
pub open spec fn teach_hit(d: ItemDef, old: Seq<char>) -> nat {
    match d.teaches {
        Some(m) => if m@ == old {
            1
        } else {
            0
        },
        None => 0,
    }
}

/// `b` is `a` with every taught magic `old` renamed to `new`.
pub open spec fn teaches_swapped(a: Seq<ItemDef>, b: Seq<ItemDef>, old: Seq<char>, new: Seq<char>) -> bool {
    &&& b.len() == a.len()
    &&& forall|i: int|
        0 <= i < a.len() ==> (#[trigger] b[i]) == (ItemDef { teaches: b[i].teaches, ..a[i] }) && match a[i].teaches {
            Some(m) => b[i].teaches matches Some(m2) && m2@ == swap_id(m@, old, new),
            None => b[i].teaches is None,
        }
}

/// Rename the magic `old` to `new` wherever an item teaches it; returns how
/// many.
fn swap_teaches(ds: &mut Vec<ItemDef>, from: &str, to: &str) -> (n: usize)
    ensures
        teaches_swapped(old(ds)@, final(ds)@, from@, to@),
        n == nat_sum(old(ds)@.map_values(|d: ItemDef| teach_hit(d, from@))),
{
    let ghost a = ds@;
    let ghost counts = a.map_values(|d: ItemDef| teach_hit(d, from@));
    let mut n: usize = 0;
    let mut i: usize = 0;
    while i < ds.len()
        invariant
            i <= ds@.len() == a.len() == counts.len(),
            a == old(ds)@,
            counts == a.map_values(|d: ItemDef| teach_hit(d, from@)),
            n == nat_sum(counts.take(i as int)),
            n <= i,
            forall|k: int|
                0 <= k < i ==> (#[trigger] ds@[k]) == (ItemDef { teaches: ds@[k].teaches, ..a[k] }) && match a[k].teaches {
                    Some(m) => ds@[k].teaches matches Some(m2) && m2@ == swap_id(m@, from@, to@),
                    None => ds@[k].teaches is None,
                },
            forall|k: int| i <= k < a.len() ==> #[trigger] ds@[k] == a[k],
        decreases a.len() - i,
    {
        let mut d = ds.remove(i);
        assert(d == a[i as int]);
        let mut hit = false;
        match d.teaches {
            Some(m) => {
                let mut m2 = m;
                hit = swap_one(&mut m2, from, to);
                d.teaches = Some(m2);
            },
            None => {},
        }
        ds.insert(i, d);
        proof {
            lemma_nat_sum_step(counts, i as int);
        }
        if hit {
            n = n + 1;
        }
        i = i + 1;
    }
    proof {
        assert(counts.take(a.len() as int) =~= counts);
    }
    n
}

/// An element of a sum of naturals is at most the sum.
proof fn lemma_nat_sum_elem(s: Seq<nat>, i: int)
    requires
        0 <= i < s.len(),
    ensures
        s[i] <= nat_sum(s),
{
    lemma_nat_sum_step(s, i);
    lemma_nat_sum_prefix(s, i + 1);
}

/// 1 when `id` spells `old`.
pub open spec fn hit(id: Seq<char>, old: Seq<char>) -> nat {
    if id == old {
        1
    } else {
        0
    }
}

/// Whether trigger `t` names the item `old` (keyhole key, plate item), as a count.
pub open spec fn trigger_item_hit(t: TriggerKind, old: Seq<char>) -> nat {
    match t {
        TriggerKind::Keyhole { key_item } => hit(key_item@, old),
        TriggerKind::FloorPlate { cond: PlateCond::ItemPlaced { item: Some(i) } } => hit(i@, old),
        _ => 0,
    }
}

/// Whether action `a` spawns the item (`items`) or monster `old`, as a count.
pub open spec fn action_hit(a: EventAction, items: bool, old: Seq<char>) -> nat {
    match a {
        EventAction::SpawnItem { item, .. } => if items {
            hit(item@, old)
        } else {
            0
        },
        EventAction::SpawnMonster { monster, .. } => if items {
            0
        } else {
            hit(monster@, old)
        },
        _ => 0,
    }
}

/// The references to item (`items`) or monster `old` in event `e`.
pub open spec fn event_hits(e: EventDef, items: bool, old: Seq<char>) -> nat {
    (if items {
        trigger_item_hit(e.trigger, old)
    } else {
        0
    }) + nat_sum(e.actions@.map_values(|a: EventAction| action_hit(a, items, old)))
}

/// `t1` is trigger `t0` with the item `old` it names renamed to `new`.
pub open spec fn trigger_item_swapped(t0: TriggerKind, t1: TriggerKind, old: Seq<char>, new: Seq<char>) -> bool {
    match t0 {
        TriggerKind::Keyhole { key_item } => t1 matches TriggerKind::Keyhole { key_item: k } && k@ == swap_id(
            key_item@,
            old,
            new,
        ),
        TriggerKind::FloorPlate { cond: PlateCond::ItemPlaced { item: Some(i) } } => t1 matches TriggerKind::FloorPlate {
            cond: PlateCond::ItemPlaced { item: Some(i1) },
        } && i1@ == swap_id(i@, old, new),
        _ => t1 == t0,
    }
}

/// `a1` is action `a0` with the item (`items`) or monster `old` it spawns
/// renamed to `new`.
pub open spec fn action_swapped(a0: EventAction, a1: EventAction, items: bool, old: Seq<char>, new: Seq<char>) -> bool {
    match a0 {
        EventAction::SpawnItem { item, x, y, floor } if items => a1 matches EventAction::SpawnItem {
            item: i1,
            x: x1,
            y: y1,
            floor: f1,
        } && i1@ == swap_id(item@, old, new) && x1 == x && y1 == y && f1 == floor,
        EventAction::SpawnMonster { monster, x, y, floor } if !items => a1 matches EventAction::SpawnMonster {
            monster: m1,
            x: x1,
            y: y1,
            floor: f1,
        } && m1@ == swap_id(monster@, old, new) && x1 == x && y1 == y && f1 == floor,
        _ => a1 == a0,
    }
}

/// `e1` is event `e0` with its references to item (`items`) or monster `old`
/// renamed to `new`.
pub open spec fn event_swapped(e0: EventDef, e1: EventDef, items: bool, old: Seq<char>, new: Seq<char>) -> bool {
    &&& e1 == (EventDef { trigger: e1.trigger, actions: e1.actions, ..e0 })
    &&& if items {
        trigger_item_swapped(e0.trigger, e1.trigger, old, new)
    } else {
        e1.trigger == e0.trigger
    }
    &&& e1.actions@.len() == e0.actions@.len()
    &&& forall|k: int|
        0 <= k < e0.actions@.len() ==> action_swapped(e0.actions@[k], #[trigger] e1.actions@[k], items, old, new)
}

/// Rename the item `from` in trigger `t`; says whether it did.
fn swap_trigger_item(t: TriggerKind, from: &str, to: &str) -> (r: (TriggerKind, bool))
    ensures
        trigger_item_swapped(t, r.0, from@, to@),
        r.1 == (trigger_item_hit(t, from@) == 1),
{
    match t {
        TriggerKind::Keyhole { key_item } => {
            let mut k = key_item;
            let h = swap_one(&mut k, from, to);
            (TriggerKind::Keyhole { key_item: k }, h)
        },
        TriggerKind::FloorPlate { cond } => match cond {
            PlateCond::ItemPlaced { item } => match item {
                Some(i) => {
                    let mut i2 = i;
                    let h = swap_one(&mut i2, from, to);
                    (TriggerKind::FloorPlate { cond: PlateCond::ItemPlaced { item: Some(i2) } }, h)
                },
                None => (TriggerKind::FloorPlate { cond: PlateCond::ItemPlaced { item: None } }, false),
            },
            other => (TriggerKind::FloorPlate { cond: other }, false),
        },
        other => (other, false),
    }
}

/// Rename the item (`items`) or monster `from` that action `a` spawns; says
/// whether it did.
fn swap_action(a: EventAction, items: bool, from: &str, to: &str) -> (r: (EventAction, bool))
    ensures
        action_swapped(a, r.0, items, from@, to@),
        r.1 == (action_hit(a, items, from@) == 1),
{
    match a {
        EventAction::SpawnItem { item, x, y, floor } => {
            if items {
                let mut i2 = item;
                let h = swap_one(&mut i2, from, to);
                (EventAction::SpawnItem { item: i2, x, y, floor }, h)
            } else {
                (EventAction::SpawnItem { item, x, y, floor }, false)
            }
        },
        EventAction::SpawnMonster { monster, x, y, floor } => {
            if !items {
                let mut m2 = monster;
                let h = swap_one(&mut m2, from, to);
                (EventAction::SpawnMonster { monster: m2, x, y, floor }, h)
            } else {
                (EventAction::SpawnMonster { monster, x, y, floor }, false)
            }
        },
        other => (other, false),
    }
}

/// Rename the references to item (`items`) or monster `from` in event `ev`;
/// returns how many.
fn swap_in_event(ev: &mut EventDef, items: bool, from: &str, to: &str) -> (n: usize)
    requires
        event_hits(*old(ev), items, from@) <= usize::MAX,
    ensures
        event_swapped(*old(ev), *final(ev), items, from@, to@),
        n == event_hits(*old(ev), items, from@),
{
    let ghost e0 = *ev;
    let ghost counts = e0.actions@.map_values(|a: EventAction| action_hit(a, items, from@));
    let mut n: usize = 0;
    if items {
        let mut t = TriggerKind::Unprompted;
        core::mem::swap(&mut t, &mut ev.trigger);
        let (t2, h) = swap_trigger_item(t, from, to);
        ev.trigger = t2;
        if h {
            n = 1;
        }
    }
    let ghost a0 = ev.actions@;
    assert(a0 == e0.actions@);
    let mut k: usize = 0;
    while k < ev.actions.len()
        invariant
            k <= ev.actions@.len() == a0.len() == counts.len(),
            counts == a0.map_values(|a: EventAction| action_hit(a, items, from@)),
            *ev == (EventDef { trigger: ev.trigger, actions: ev.actions, ..e0 }),
            if items {
                trigger_item_swapped(e0.trigger, ev.trigger, from@, to@)
            } else {
                ev.trigger == e0.trigger
            },
            (if items {
                trigger_item_hit(e0.trigger, from@)
            } else {
                0
            }) + nat_sum(counts) <= usize::MAX,
            n == (if items {
                trigger_item_hit(e0.trigger, from@)
            } else {
                0
            }) + nat_sum(counts.take(k as int)),
            forall|j: int| 0 <= j < k ==> action_swapped(a0[j], #[trigger] ev.actions@[j], items, from@, to@),
            forall|j: int| k <= j < a0.len() ==> #[trigger] ev.actions@[j] == a0[j],
        decreases a0.len() - k,
    {
        let a = ev.actions.remove(k);
        assert(a == a0[k as int]);
        let (a2, h) = swap_action(a, items, from, to);
        ev.actions.insert(k, a2);
        proof {
            lemma_nat_sum_step(counts, k as int);
            lemma_nat_sum_prefix(counts, k as int + 1);
        }
        if h {
            n = n + 1;
        }
        k = k + 1;
    }
    proof {
        assert(counts.take(a0.len() as int) =~= counts);
    }
    n
}

/// The references to item (`items`) or monster `old` in each placement and
/// event of level `l`, in total.
pub open spec fn level_hits(l: LevelData, items: bool, old: Seq<char>) -> nat {
    (if items {
        nat_sum(l.items@.map_values(|p: ItemPlacement| hit(p.id@, old)))
    } else {
        nat_sum(l.monsters@.map_values(|p: MonsterPlacement| hit(p.id@, old)))
    }) + nat_sum(l.events@.map_values(|e: EventDef| event_hits(e, items, old)))
}

/// `l1` is level `l0` with its references to item (`items`) or monster `old`
/// renamed to `new`: placements and events.
pub open spec fn level_swapped(l0: LevelData, l1: LevelData, items: bool, old: Seq<char>, new: Seq<char>) -> bool {
    &&& l1 == (LevelData { items: l1.items, monsters: l1.monsters, events: l1.events, ..l0 })
    &&& if items {
        &&& l1.monsters == l0.monsters
        &&& l1.items@.len() == l0.items@.len()
        &&& forall|j: int|
            0 <= j < l0.items@.len() ==> (#[trigger] l1.items@[j]) == (ItemPlacement { id: l1.items@[j].id, ..l0.items@[j] })
                && l1.items@[j].id@ == swap_id(l0.items@[j].id@, old, new)
    } else {
        &&& l1.items == l0.items
        &&& l1.monsters@.len() == l0.monsters@.len()
        &&& forall|j: int|
            0 <= j < l0.monsters@.len() ==> (#[trigger] l1.monsters@[j]) == (MonsterPlacement {
                id: l1.monsters@[j].id,
                ..l0.monsters@[j]
            }) && l1.monsters@[j].id@ == swap_id(l0.monsters@[j].id@, old, new)
    }
    &&& l1.events@.len() == l0.events@.len()
    &&& forall|k: int| 0 <= k < l0.events@.len() ==> event_swapped(l0.events@[k], #[trigger] l1.events@[k], items, old, new)
}

/// Rename the item `from` in every item placement; returns how many.
fn swap_item_placements(ps: &mut Vec<ItemPlacement>, from: &str, to: &str) -> (n: usize)
    ensures
        final(ps)@.len() == old(ps)@.len(),
        forall|j: int|
            0 <= j < old(ps)@.len() ==> (#[trigger] final(ps)@[j]) == (ItemPlacement { id: final(ps)@[j].id, ..old(ps)@[j] })
                && final(ps)@[j].id@ == swap_id(old(ps)@[j].id@, from@, to@),
        n == nat_sum(old(ps)@.map_values(|p: ItemPlacement| hit(p.id@, from@))),
{
    let ghost a = ps@;
    let ghost counts = a.map_values(|p: ItemPlacement| hit(p.id@, from@));
    let mut n: usize = 0;
    let mut i: usize = 0;
    while i < ps.len()
        invariant
            i <= ps@.len() == a.len() == counts.len(),
            a == old(ps)@,
            counts == a.map_values(|p: ItemPlacement| hit(p.id@, from@)),
            n == nat_sum(counts.take(i as int)),
            n <= i,
            forall|k: int|
                0 <= k < i ==> (#[trigger] ps@[k]) == (ItemPlacement { id: ps@[k].id, ..a[k] }) && ps@[k].id@ == swap_id(
                    a[k].id@,
                    from@,
                    to@,
                ),
            forall|k: int| i <= k < a.len() ==> #[trigger] ps@[k] == a[k],
        decreases a.len() - i,
    {
        let mut p = ps.remove(i);
        assert(p == a[i as int]);
        let h = swap_one(&mut p.id, from, to);
        ps.insert(i, p);
        proof {
            lemma_nat_sum_step(counts, i as int);
        }
        if h {
            n = n + 1;
        }
        i = i + 1;
    }
    proof {
        assert(counts.take(a.len() as int) =~= counts);
    }
    n
}

/// Rename the monster `from` in every monster placement; returns how many.
fn swap_monster_placements(ps: &mut Vec<MonsterPlacement>, from: &str, to: &str) -> (n: usize)
    ensures
        final(ps)@.len() == old(ps)@.len(),
        forall|j: int|
            0 <= j < old(ps)@.len() ==> (#[trigger] final(ps)@[j]) == (MonsterPlacement {
                id: final(ps)@[j].id,
                ..old(ps)@[j]
            }) && final(ps)@[j].id@ == swap_id(old(ps)@[j].id@, from@, to@),
        n == nat_sum(old(ps)@.map_values(|p: MonsterPlacement| hit(p.id@, from@))),
{
    let ghost a = ps@;
    let ghost counts = a.map_values(|p: MonsterPlacement| hit(p.id@, from@));
    let mut n: usize = 0;
    let mut i: usize = 0;
    while i < ps.len()
        invariant
            i <= ps@.len() == a.len() == counts.len(),
            a == old(ps)@,
            counts == a.map_values(|p: MonsterPlacement| hit(p.id@, from@)),
            n == nat_sum(counts.take(i as int)),
            n <= i,
            forall|k: int|
                0 <= k < i ==> (#[trigger] ps@[k]) == (MonsterPlacement { id: ps@[k].id, ..a[k] }) && ps@[k].id@
                    == swap_id(a[k].id@, from@, to@),
            forall|k: int| i <= k < a.len() ==> #[trigger] ps@[k] == a[k],
        decreases a.len() - i,
    {
        let mut p = ps.remove(i);
        assert(p == a[i as int]);
        let h = swap_one(&mut p.id, from, to);
        ps.insert(i, p);
        proof {
            lemma_nat_sum_step(counts, i as int);
        }
        if h {
            n = n + 1;
        }
        i = i + 1;
    }
    proof {
        assert(counts.take(a.len() as int) =~= counts);
    }
    n
}

/// Rename the references to item (`items`) or monster `from` in level `l`;
/// returns how many.
fn swap_in_level(l: &mut LevelData, items: bool, from: &str, to: &str) -> (n: usize)
    requires
        level_hits(*old(l), items, from@) <= usize::MAX,
    ensures
        level_swapped(*old(l), *final(l), items, from@, to@),
        n == level_hits(*old(l), items, from@),
{
    let ghost l0 = *l;
    let mut n: usize = if items {
        swap_item_placements(&mut l.items, from, to)
    } else {
        swap_monster_placements(&mut l.monsters, from, to)
    };
    let ghost base = n as nat;
    let ghost es = l.events@;
    let ghost counts = es.map_values(|e: EventDef| event_hits(e, items, from@));
    let mut k: usize = 0;
    while k < l.events.len()
        invariant
            k <= l.events@.len() == es.len() == counts.len(),
            es == l0.events@,
            counts == es.map_values(|e: EventDef| event_hits(e, items, from@)),
            *l == (LevelData { items: l.items, monsters: l.monsters, events: l.events, ..l0 }),
            if items {
                &&& l.monsters == l0.monsters
                &&& l.items@.len() == l0.items@.len()
                &&& forall|j: int|
                    0 <= j < l0.items@.len() ==> (#[trigger] l.items@[j]) == (ItemPlacement { id: l.items@[j].id, ..l0.items@[j] })
                        && l.items@[j].id@ == swap_id(l0.items@[j].id@, from@, to@)
            } else {
                &&& l.items == l0.items
                &&& l.monsters@.len() == l0.monsters@.len()
                &&& forall|j: int|
                    0 <= j < l0.monsters@.len() ==> (#[trigger] l.monsters@[j]) == (MonsterPlacement {
                        id: l.monsters@[j].id,
                        ..l0.monsters@[j]
                    }) && l.monsters@[j].id@ == swap_id(l0.monsters@[j].id@, from@, to@)
            },
            base == (if items {
                nat_sum(l0.items@.map_values(|p: ItemPlacement| hit(p.id@, from@)))
            } else {
                nat_sum(l0.monsters@.map_values(|p: MonsterPlacement| hit(p.id@, from@)))
            }),
            base + nat_sum(counts) <= usize::MAX,
            n == base + nat_sum(counts.take(k as int)),
            forall|j: int| 0 <= j < k ==> event_swapped(es[j], #[trigger] l.events@[j], items, from@, to@),
            forall|j: int| k <= j < es.len() ==> #[trigger] l.events@[j] == es[j],
        decreases es.len() - k,
    {
        let mut ev = l.events.remove(k);
        assert(ev == es[k as int]);
        proof {
            lemma_nat_sum_elem(counts, k as int);
        }
        let h = swap_in_event(&mut ev, items, from, to);
        l.events.insert(k, ev);
        proof {
            lemma_nat_sum_step(counts, k as int);
            lemma_nat_sum_prefix(counts, k as int + 1);
        }
        n = n + h;
        k = k + 1;
    }
    proof {
        assert(counts.take(es.len() as int) =~= counts);
    }
    n
}

/// Rename the references to item (`items`) or monster `from` in every level;
/// returns how many.
fn swap_in_levels(ls: &mut Vec<LevelData>, items: bool, from: &str, to: &str) -> (n: usize)
    requires
        nat_sum(old(ls)@.map_values(|l: LevelData| level_hits(l, items, from@))) <= usize::MAX,
    ensures
        final(ls)@.len() == old(ls)@.len(),
        forall|i: int| 0 <= i < old(ls)@.len() ==> level_swapped(old(ls)@[i], #[trigger] final(ls)@[i], items, from@, to@),
        n == nat_sum(old(ls)@.map_values(|l: LevelData| level_hits(l, items, from@))),
{
    let ghost a = ls@;
    let ghost counts = a.map_values(|l: LevelData| level_hits(l, items, from@));
    let mut n: usize = 0;
    let mut i: usize = 0;
    while i < ls.len()
        invariant
            i <= ls@.len() == a.len() == counts.len(),
            a == old(ls)@,
            counts == a.map_values(|l: LevelData| level_hits(l, items, from@)),
            nat_sum(counts) <= usize::MAX,
            n == nat_sum(counts.take(i as int)),
            forall|k: int| 0 <= k < i ==> level_swapped(a[k], #[trigger] ls@[k], items, from@, to@),
            forall|k: int| i <= k < a.len() ==> #[trigger] ls@[k] == a[k],
        decreases a.len() - i,
    {
        let mut l = ls.remove(i);
        assert(l == a[i as int]);
        proof {
            lemma_nat_sum_elem(counts, i as int);
        }
        let h = swap_in_level(&mut l, items, from, to);
        ls.insert(i, l);
        proof {
            lemma_nat_sum_step(counts, i as int);
            lemma_nat_sum_prefix(counts, i as int + 1);
        }
        n = n + h;
        i = i + 1;
    }
    proof {
        assert(counts.take(a.len() as int) =~= counts);
    }
    n
}

/// The references to item `old` each monster carries or attacks with.
pub open spec fn monster_item_hits(ms: Seq<MonsterDef>, old: Seq<char>) -> Seq<nat> {
    ms.map_values(|m: MonsterDef| hits(m.carry_items@, old) + hits(m.attack_items@, old))
}

/// `b` is `a` with the item `old` renamed to `new` in what each monster
/// carries and attacks with.
pub open spec fn monster_items_swapped(a: Seq<MonsterDef>, b: Seq<MonsterDef>, old: Seq<char>, new: Seq<char>) -> bool {
    &&& b.len() == a.len()
    &&& forall|i: int|
        0 <= i < a.len() ==> (#[trigger] b[i]) == (MonsterDef {
            carry_items: b[i].carry_items,
            attack_items: b[i].attack_items,
            ..a[i]
        }) && ids_swapped(a[i].carry_items@, b[i].carry_items@, old, new) && ids_swapped(
            a[i].attack_items@,
            b[i].attack_items@,
            old,
            new,
        )
}

/// Rename the item `from` in what each monster carries and attacks with;
/// returns how many.
fn swap_monster_items(ms: &mut Vec<MonsterDef>, from: &str, to: &str) -> (n: usize)
    requires
        nat_sum(monster_item_hits(old(ms)@, from@)) <= usize::MAX,
    ensures
        monster_items_swapped(old(ms)@, final(ms)@, from@, to@),
        n == nat_sum(monster_item_hits(old(ms)@, from@)),
{
    let ghost a = ms@;
    let ghost counts = monster_item_hits(a, from@);
    let mut n: usize = 0;
    let mut i: usize = 0;
    while i < ms.len()
        invariant
            i <= ms@.len() == a.len() == counts.len(),
            a == old(ms)@,
            counts == monster_item_hits(a, from@),
            nat_sum(counts) <= usize::MAX,
            n == nat_sum(counts.take(i as int)),
            forall|k: int|
                0 <= k < i ==> (#[trigger] ms@[k]) == (MonsterDef {
                    carry_items: ms@[k].carry_items,
                    attack_items: ms@[k].attack_items,
                    ..a[k]
                }) && ids_swapped(a[k].carry_items@, ms@[k].carry_items@, from@, to@) && ids_swapped(
                    a[k].attack_items@,
                    ms@[k].attack_items@,
                    from@,
                    to@,
                ),
            forall|k: int| i <= k < a.len() ==> #[trigger] ms@[k] == a[k],
        decreases a.len() - i,
    {
        let mut m = ms.remove(i);
        assert(m == a[i as int]);
        let c = swap_all(&mut m.carry_items, from, to);
        let t = swap_all(&mut m.attack_items, from, to);
        ms.insert(i, m);
        proof {
            lemma_nat_sum_step(counts, i as int);
            lemma_nat_sum_prefix(counts, i as int + 1);
        }
        n = n + c + t;
        i = i + 1;
    }
    proof {
        assert(counts.take(a.len() as int) =~= counts);
    }
    n
}

/// How many references a rename of `old` for `kind` updates (the definition
/// itself not counted).
pub open spec fn rename_count(p: Project, kind: IdKind, old: Seq<char>) -> nat {
    match kind {
        IdKind::Character => hits(p.party@, old),
        IdKind::Item => nat_sum(character_item_hits(p.characters@, old)) + nat_sum(monster_item_hits(p.monsters@, old))
            + nat_sum(p.levels@.map_values(|l: LevelData| level_hits(l, true, old))),
        IdKind::Monster => nat_sum(p.levels@.map_values(|l: LevelData| level_hits(l, false, old))),
        IdKind::Magic => nat_sum(character_magic_hits(p.characters@, old)) + nat_sum(
            p.items@.map_values(|d: ItemDef| teach_hit(d, old)),
        ),
    }
}

/// `p1` is project `p0` with the definition of `old` (of `kind`) and every
/// reference to it renamed to `new`: characters are referenced by the party;
/// items by characters' starting items, what monsters carry and attack with,
/// level placements, keyholes, item plates and item spawns; monsters by level
/// placements and monster spawns; magics by what characters know and what
/// scrolls teach.
pub open spec fn renamed(p0: Project, p1: Project, kind: IdKind, old: Seq<char>, new: Seq<char>) -> bool {
    match kind {
        IdKind::Character => {
            &&& p1 == (Project { characters: p1.characters, party: p1.party, ..p0 })
            &&& first_def_renamed(
                p0.characters@,
                p1.characters@,
                |v: Seq<Character>| character_ids(v),
                |a: Character, b: Character| same_character_but_id(a, b),
                old,
                new,
            )
            &&& ids_swapped(p0.party@, p1.party@, old, new)
        },
        IdKind::Item => {
            &&& p1 == (Project { items: p1.items, characters: p1.characters, monsters: p1.monsters, levels: p1.levels, ..p0 })
            &&& first_def_renamed(
                p0.items@,
                p1.items@,
                |v: Seq<ItemDef>| item_ids(v),
                |a: ItemDef, b: ItemDef| same_item_but_id(a, b),
                old,
                new,
            )
            &&& characters_swapped(p0.characters@, p1.characters@, true, old, new)
            &&& monster_items_swapped(p0.monsters@, p1.monsters@, old, new)
            &&& p1.levels@.len() == p0.levels@.len()
            &&& forall|i: int| 0 <= i < p0.levels@.len() ==> level_swapped(p0.levels@[i], #[trigger] p1.levels@[i], true, old, new)
        },
        IdKind::Monster => {
            &&& p1 == (Project { monsters: p1.monsters, levels: p1.levels, ..p0 })
            &&& first_def_renamed(
                p0.monsters@,
                p1.monsters@,
                |v: Seq<MonsterDef>| monster_ids(v),
                |a: MonsterDef, b: MonsterDef| same_monster_but_id(a, b),
                old,
                new,
            )
            &&& p1.levels@.len() == p0.levels@.len()
            &&& forall|i: int| 0 <= i < p0.levels@.len() ==> level_swapped(p0.levels@[i], #[trigger] p1.levels@[i], false, old, new)
        },
        IdKind::Magic => {
            &&& p1 == (Project { magics: p1.magics, characters: p1.characters, items: p1.items, ..p0 })
            &&& first_def_renamed(
                p0.magics@,
                p1.magics@,
                |v: Seq<MagicDef>| magic_ids(v),
                |a: MagicDef, b: MagicDef| same_magic_but_id(a, b),
                old,
                new,
            )
            &&& characters_swapped(p0.characters@, p1.characters@, false, old, new)
            &&& teaches_swapped(p0.items@, p1.items@, old, new)
        },
    }
}

/// Rename `from` to `to` for `kind`: the definition and every reference
/// across the project (see [`renamed`]). Returns how many references were
/// updated, the definition not counted; renaming an id to itself changes
/// nothing and returns 0.
pub fn rename_id(project: &mut Project, kind: IdKind, from: &str, to: &str) -> (n: usize)
    requires
        rename_count(*old(project), kind, from@) <= usize::MAX,
    ensures
        if from@ == to@ {
            *final(project) == *old(project) && n == 0
        } else {
            renamed(*old(project), *final(project), kind, from@, to@) && n == rename_count(*old(project), kind, from@)
        },
{
    if from.to_owned() == to.to_owned() {
        return 0;
    }
    match kind {
        IdKind::Character => {
            rename_character_def(&mut project.characters, from, to);
            swap_all(&mut project.party, from, to)
        },
        IdKind::Item => {
            rename_item_def(&mut project.items, from, to);
            let a = swap_in_characters(&mut project.characters, true, from, to);
            let b = swap_monster_items(&mut project.monsters, from, to);
            let c = swap_in_levels(&mut project.levels, true, from, to);
            a + b + c
        },
        IdKind::Monster => {
            rename_monster_def(&mut project.monsters, from, to);
            swap_in_levels(&mut project.levels, false, from, to)
        },
        IdKind::Magic => {
            rename_magic_def(&mut project.magics, from, to);
            let a = swap_in_characters(&mut project.characters, false, from, to);
            let b = swap_teaches(&mut project.items, from, to);
            a + b
        },
    }
}

} // verus!
