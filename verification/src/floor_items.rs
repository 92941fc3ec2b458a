//! Items lying loose on the floor: the initial placements, picking one up
//! into the selected member's inventory, and putting one down.
use vstd::prelude::*;
use crate::character::Party;
use crate::dungeon::GridPos;
use crate::item::{ItemCatalog, ItemDef, ItemInstance, ItemPlacement, SlotRef, lookup_item};
use crate::player::{Player, pos_in_range, step_target};
use crate::text::cat;

verus! {

/// An item lying on the floor.
#[derive(Debug)]
pub struct FloorItem {
    pub instance: ItemInstance,
    pub pos: GridPos,
}

/// A request to put down the item in `slot` of the selected member.
#[derive(Clone, Copy, Debug, PartialEq, Eq)]
pub struct PlaceRequest {
    pub slot: SlotRef,
}

/// The loose item an initial placement lays out: a fresh instance of a known
/// item at the placement's cell.
pub open spec fn placed_item(p: ItemPlacement, defs: Seq<ItemDef>) -> Option<(ItemInstance, GridPos)> {
    if lookup_item(defs, p.id@) is Some {
        Some((ItemInstance { def_id: p.id, entropy: 0, potion_of: None }, GridPos { x: p.x, y: p.y, floor: p.floor }))
    } else {
        None
    }
}

/// The loose items the placements `ps` lay out, in order: those of unknown
/// items are skipped.
pub open spec fn initial_items(ps: Seq<ItemPlacement>, defs: Seq<ItemDef>) -> Seq<(ItemInstance, GridPos)>
    decreases ps.len(),
{
    if ps.len() == 0 {
        Seq::empty()
    } else {
        initial_items(ps.drop_last(), defs) + match placed_item(ps.last(), defs) {
            Some(x) => seq![x],
            None => Seq::empty(),
        }
    }
}

/// Lay out the initial placements of a level (see [`initial_items`]).
pub fn setup_floor_items(placements: &Vec<ItemPlacement>, catalog: &ItemCatalog) -> (r: Vec<FloorItem>)
    ensures
        r@.map_values(|f: FloorItem| (f.instance, f.pos)) == initial_items(placements@, catalog@),
{
    let mut out: Vec<FloorItem> = Vec::new();
    let mut i: usize = 0;
    while i < placements.len()
        invariant
            i <= placements@.len(),
            out@.map_values(|f: FloorItem| (f.instance, f.pos)) == initial_items(placements@.take(i as int), catalog@),
        decreases placements@.len() - i,
    {
        assert(placements@.take(i as int + 1).drop_last() =~= placements@.take(i as int));
        assert(placements@.take(i as int + 1).last() == placements@[i as int]);
        let p = &placements[i];
        let ghost before = out@;
        if catalog.get(p.id.as_str()).is_some() {
            let f = FloorItem {
                instance: ItemInstance::new(p.id.clone()),
                pos: GridPos { x: p.x, y: p.y, floor: p.floor },
            };
            out.push(f);
            assert(out@.map_values(|f: FloorItem| (f.instance, f.pos)) =~= before.map_values(
                |f: FloorItem| (f.instance, f.pos),
            ).push((f.instance, f.pos)));
        }
        assert(out@.map_values(|f: FloorItem| (f.instance, f.pos)) =~= initial_items(
            placements@.take(i as int + 1),
            catalog@,
        ));
        i = i + 1;
    }
    assert(placements@.take(placements@.len() as int) =~= placements@);
    out
}

/// The first of `items` lying at `pos`.
pub open spec fn first_at(items: Seq<FloorItem>, pos: GridPos) -> Option<int>
    decreases items.len(),
{
    if items.len() == 0 {
        None
    } else if items[0].pos == pos {
        Some(0)
    } else {
        match first_at(items.drop_first(), pos) {
            Some(i) => Some(i + 1),
            None => None,
        }
    }
}

/// The index of the first item lying at `pos`.
fn find_at(items: &Vec<FloorItem>, pos: GridPos) -> (r: Option<usize>)
    ensures
        match r {
            Some(i) => i < items@.len() && first_at(items@, pos) == Some(i as int),
            None => first_at(items@, pos) is None,
        },
{
    let mut i: usize = 0;
    assert(items@.skip(0) =~= items@);
    while i < items.len()
        invariant
            i <= items@.len(),
            first_at(items@, pos) == match first_at(items@.skip(i as int), pos) {
                Some(k) => Some(k + i),
                None => None,
            },
        decreases items@.len() - i,
    {
        assert(items@.skip(i as int).drop_first() =~= items@.skip(i as int + 1));
        let p = items[i].pos;
        if p.x == pos.x && p.y == pos.y && p.floor == pos.floor {
            return Some(i);
        }
        i = i + 1;
    }
    proof {
        assert(items@.skip(items@.len() as int) =~= Seq::<FloorItem>::empty());
    }
    None
}

/// The item the party picks up: the first lying on its own cell, else the
/// first lying on the cell ahead.
pub open spec fn pickup_target(items: Seq<FloorItem>, player: Player) -> Option<int> {
    match first_at(items, player.pos) {
        Some(i) => Some(i),
        None => first_at(items, step_target(player.pos, player.facing)),
    }
}

/// The name an item instance is shown by: its definition's name, else its id.
pub open spec fn shown_name(defs: Seq<ItemDef>, id: Seq<char>) -> Seq<char> {
    match lookup_item(defs, id) {
        Some(d) => d.name@,
        None => id,
    }
}

/// The selected member `selected` picks up the item the party finds (see
/// [`pickup_target`]) into its first free slot; the item leaves the floor.
/// Without a free slot it stays. Returns the log line (`None`: no member
/// selected).
pub fn pickup_floor_item(
    player: &Player,
    selected: usize,
    party: &mut Party,
    catalog: &ItemCatalog,
    items: &mut Vec<FloorItem>,
) -> (msg: Option<String>)
    requires
        pos_in_range(player.pos),
        forall|i: int| 0 <= i < old(party).members@.len() ==> (#[trigger] old(party).members@[i]).inventory.wf(),
    ensures
        match pickup_target(old(items)@, *player) {
            None => {
                &&& msg matches Some(m) && m@ == "ここには何もない"@
                &&& final(party).members@ == old(party).members@ && final(items)@ == old(items)@
            },
            Some(t) => if selected >= old(party).members@.len() {
                msg is None && final(party).members@ == old(party).members@ && final(items)@ == old(items)@
            } else {
                let m0 = old(party).members@[selected as int];
                let it = old(items)@[t].instance;
                let name = shown_name(catalog@, it.def_id@);
                let m1 = final(party).members@[selected as int];
                match m0.inventory@.spec_first_free() {
                    Some(slot) => {
                        &&& msg matches Some(m) && m@ == name + "を拾った"@
                        &&& final(party).members@ == old(party).members@.update(selected as int, m1)
                        &&& m1 == (crate::character::PartyMember { inventory: m1.inventory, ..m0 })
                        &&& Some(m1.inventory@) == m0.inventory@.spec_put(slot, it)
                        &&& final(items)@ == old(items)@.remove(t)
                    },
                    None => {
                        &&& msg matches Some(m) && m@ == name + "を持ちきれない"@
                        &&& final(party).members@ == old(party).members@ && final(items)@ == old(items)@
                    },
                }
            },
        },
{
    let (dx, dy) = player.facing.delta();
    let front = GridPos { x: player.pos.x + dx, y: player.pos.y + dy, floor: player.pos.floor };
    let t = match find_at(items, player.pos) {
        Some(t) => t,
        None => match find_at(items, front) {
            Some(t) => t,
            None => {
                return Some(String::from_str("ここには何もない"));
            },
        },
    };
    if selected >= party.members.len() {
        return None;
    }
    let name = match catalog.get(items[t].instance.def_id.as_str()) {
        Some(d) => d.name.clone(),
        None => items[t].instance.def_id.clone(),
    };
    assert(party.members@[selected as int].inventory.wf());
    if party.members[selected].inventory.first_free().is_none() {
        return Some(cat(name.as_str(), "を持ちきれない"));
    }
    let ghost ms0 = party.members@;
    let mut m = party.members.remove(selected);
    assert(m == ms0[selected as int]);
    let _slot = m.inventory.pickup(items[t].instance.copy());
    party.members.insert(selected, m);
    assert(party.members@ =~= ms0.update(selected as int, m));
    items.remove(t);
    Some(cat(name.as_str(), "を拾った"))
}

/// The selected member `selected` puts down the item in `req.slot`: it leaves
/// the slot and, when its definition is known, comes back with the party's
/// cell to lie at and the log line. An item of unknown definition is taken
/// from the slot and lost.
pub fn place_item(
    req: &PlaceRequest,
    player: &Player,
    selected: usize,
    party: &mut Party,
    catalog: &ItemCatalog,
) -> (r: Option<(FloorItem, String)>)
    requires
        forall|i: int| 0 <= i < old(party).members@.len() ==> (#[trigger] old(party).members@[i]).inventory.wf(),
    ensures
        if selected >= old(party).members@.len() {
            r is None && final(party).members@ == old(party).members@
        } else {
            let m0 = old(party).members@[selected as int];
            let m1 = final(party).members@[selected as int];
            &&& final(party).members@ == old(party).members@.update(selected as int, m1)
            &&& m1 == (crate::character::PartyMember { inventory: m1.inventory, ..m0 })
            &&& m1.inventory@ == m0.inventory@.spec_take(req.slot).0
            &&& match m0.inventory@.spec_take(req.slot).1 {
                None => r is None,
                Some(it) => match lookup_item(catalog@, it.def_id@) {
                    None => r is None,
                    Some(d) => r matches Some((f, msg)) && f.instance == it && f.pos == player.pos && msg@
                        == d.name@ + "を置いた"@,
                },
            }
        },
{
    if selected >= party.members.len() {
        return None;
    }
    let ghost ms0 = party.members@;
    let mut m = party.members.remove(selected);
    assert(m == ms0[selected as int]);
    let taken = m.inventory.take(req.slot);
    party.members.insert(selected, m);
    assert(party.members@ =~= ms0.update(selected as int, m));
    let instance = match taken {
        Some(it) => it,
        None => {
            return None;
        },
    };
    let name = match catalog.get(instance.def_id.as_str()) {
        Some(d) => d.name.clone(),
        None => {
            return None;
        },
    };
    let msg = cat(name.as_str(), "を置いた");
    Some((FloorItem { instance, pos: player.pos }, msg))
}

} // verus!
