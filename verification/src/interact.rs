//! What the party does to the world around it without an event running:
//! writing on and reading writable walls, pressing the trigger block ahead
//! (keyholes and switches), and stepping onto stairs, warp points and floor
//! plates.
use vstd::prelude::*;
use crate::character::{Party, PartyMember};
use crate::dungeon::{Block, Facing, GridPos, Level};
use crate::item::{ItemCatalog, ItemDef, ItemInstance, ItemKind, lookup_item, sums_in_range, weight_sum};
use crate::event::{
    EventDef, EventFlags, EventQueue, PressOutcome, QueuedEvent, TriggerKind, TriggerStates, enqueue,
    plate_result, plate_satisfied, plate_step, press_result, press_trigger, spec_flags_satisfied,
    spec_plate_satisfied,
};
use crate::player::{Player, pos_in_range, step_target};
use crate::text::same_text;
use crate::project::{LevelData, StairsLink, authored_text, link_from};

verus! {

/// Whether member `m` holds an item with definition id `id`.
pub open spec fn member_carries(m: PartyMember, id: Seq<char>) -> bool {
    exists|j: int|
        0 <= j < m.inventory@.items().len() && (#[trigger] m.inventory@.items()[j]).1.def_id@ == id
}

/// Whether some member of `ms` holds an item with definition id `id`.
pub open spec fn party_carries(ms: Seq<PartyMember>, id: Seq<char>) -> bool {
    exists|i: int| 0 <= i < ms.len() && member_carries(#[trigger] ms[i], id)
}

/// Every member's inventory is well formed.
pub open spec fn inventories_wf(ms: Seq<PartyMember>) -> bool {
    forall|i: int| 0 <= i < ms.len() ==> (#[trigger] ms[i]).inventory.wf()
}

/// Whether some member holds an item with definition id `id`.
pub fn carries_item(party: &Party, id: &String) -> (r: bool)
    requires
        inventories_wf(party.members@),
    ensures
        r == party_carries(party.members@, id@),
{
    let mut i: usize = 0;
    while i < party.members.len()
        invariant
            i <= party.members@.len(),
            inventories_wf(party.members@),
            forall|k: int| 0 <= k < i ==> !member_carries(#[trigger] party.members@[k], id@),
        decreases party.members@.len() - i,
    {
        let items = party.members[i].inventory.iter();
        let mut j: usize = 0;
        while j < items.len()
            invariant
                i < party.members@.len(),
                j <= items@.len(),
                items@ == party.members@[i as int].inventory@.items(),
                forall|k: int| 0 <= k < j ==> (#[trigger] items@[k]).1.def_id@ != id@,
            decreases items@.len() - j,
        {
            if items[j].1.def_id == *id {
                assert(member_carries(party.members@[i as int], id@));
                return true;
            }
            j = j + 1;
        }
        i = i + 1;
    }
    false
}

/// Whether `it` is a pencil of any colour (by its definition in `defs`).
pub open spec fn is_pencil(it: ItemInstance, defs: Seq<ItemDef>) -> bool {
    match lookup_item(defs, it.def_id@) {
        Some(d) => d.kind == ItemKind::Pencil || d.kind == ItemKind::RedPencil || d.kind == ItemKind::BluePencil,
        None => false,
    }
}

/// Whether some member of `ms` holds a pencil.
pub open spec fn party_has_pencil(ms: Seq<PartyMember>, defs: Seq<ItemDef>) -> bool {
    exists|i: int, j: int|
        0 <= i < ms.len() && 0 <= j < ms[i].inventory@.items().len() && is_pencil(
            #[trigger] ms[i].inventory@.items()[j].1,
            defs,
        )
}

/// Whether some member holds a pencil.
pub fn has_pencil(party: &Party, catalog: &ItemCatalog) -> (r: bool)
    requires
        inventories_wf(party.members@),
    ensures
        r == party_has_pencil(party.members@, catalog@),
{
    let mut i: usize = 0;
    while i < party.members.len()
        invariant
            i <= party.members@.len(),
            inventories_wf(party.members@),
            forall|k: int, j: int|
                0 <= k < i && 0 <= j < party.members@[k].inventory@.items().len() ==> !is_pencil(
                    #[trigger] party.members@[k].inventory@.items()[j].1,
                    catalog@,
                ),
        decreases party.members@.len() - i,
    {
        let items = party.members[i].inventory.iter();
        let mut j: usize = 0;
        while j < items.len()
            invariant
                i < party.members@.len(),
                j <= items@.len(),
                items@ == party.members@[i as int].inventory@.items(),
                forall|k: int| 0 <= k < j ==> !is_pencil(#[trigger] items@[k].1, catalog@),
            decreases items@.len() - j,
        {
            match catalog.get(items[j].1.def_id.as_str()) {
                Some(d) => {
                    if d.kind == ItemKind::Pencil || d.kind == ItemKind::RedPencil || d.kind
                        == ItemKind::BluePencil {
                        assert(is_pencil(party.members@[i as int].inventory@.items()[j as int].1, catalog@));
                        return true;
                    }
                },
                None => {},
            }
            j = j + 1;
        }
        i = i + 1;
    }
    false
}

/// Where a runtime wall write lives: level, then the cell `(x, y, floor)`.
pub type WallKey = (usize, i32, i32, usize);

/// Runtime writes on writable walls. They shadow the authored wall texts and
/// are what a save keeps (project data is never rewritten by the pencil).
#[derive(Clone, Debug, Default)]
pub struct WallWrites {
    /// Writes in the order they were made; a later write to the same wall
    /// replaces what an earlier one said.
    pub map: Vec<(WallKey, String)>,
}

/// The text last written at `key` among `writes`, if any.
pub open spec fn written_at(writes: Seq<(WallKey, String)>, key: WallKey) -> Option<String>
    decreases writes.len(),
{
    if writes.len() == 0 {
        None
    } else if writes.last().0 == key {
        Some(writes.last().1)
    } else {
        written_at(writes.drop_last(), key)
    }
}

impl WallWrites {
    /// The text written at `key`, if any.
    pub fn get(&self, key: WallKey) -> (r: Option<&String>)
        ensures
            r == match written_at(self.map@, key) {
                Some(t) => Some(&t),
                None => None,
            },
    {
        let mut i: usize = self.map.len();
        assert(self.map@.take(i as int) =~= self.map@);
        while i > 0
            invariant
                i <= self.map@.len(),
                written_at(self.map@, key) == written_at(self.map@.take(i as int), key),
            decreases i,
        {
            let k = self.map[i - 1].0;
            assert(self.map@.take(i as int).drop_last() =~= self.map@.take(i as int - 1));
            if k.0 == key.0 && k.1 == key.1 && k.2 == key.2 && k.3 == key.3 {
                return Some(&self.map[i - 1].1);
            }
            i = i - 1;
        }
        None
    }

    /// Write `text` at `key`: later reads of `key` give `text`, every other
    /// wall reads as before.
    pub fn insert(&mut self, key: WallKey, text: String)
        ensures
            final(self).map@ == old(self).map@.push((key, text)),
            written_at(final(self).map@, key) == Some(text),
            forall|k: WallKey| k != key ==> written_at(final(self).map@, k) == written_at(old(self).map@, k),
    {
        self.map.push((key, text));
        proof {
            assert(self.map@.drop_last() =~= old(self).map@);
        }
    }
}

/// Text the party asks to write on the wall it faces.
#[derive(Clone, Debug, PartialEq, Eq)]
pub struct WallWriteRequest {
    pub text: String,
}

/// What a write request answers when the party faces no writable wall.
pub open spec fn no_wall_message() -> Seq<char> {
    "正面に 書ける壁がない"@
}

/// Write `req` on the writable wall the party faces on level `current`: the
/// cell ahead must be a `WritableWall` and some member must hold a pencil.
/// Returns the log line.
pub fn apply_wall_write(
    req: &WallWriteRequest,
    party: &Party,
    player: &Player,
    level: &Level,
    item_catalog: &ItemCatalog,
    current: usize,
    writes: &mut WallWrites,
) -> (msg: &'static str)
    requires
        pos_in_range(player.pos),
        inventories_wf(party.members@),
    ensures
        ({
            let front = step_target(player.pos, player.facing);
            if level.spec_block_at(front) != Some(Block::WritableWall) {
                msg@ == no_wall_message() && final(writes).map@ == old(writes).map@
            } else if !party_has_pencil(party.members@, item_catalog@) {
                msg@ == "鉛筆を 持っていない"@ && final(writes).map@ == old(writes).map@
            } else {
                &&& msg@ == "壁に かきこんだ。"@
                &&& final(writes).map@ == old(writes).map@.push(
                    ((current, front.x, front.y, front.floor), req.text),
                )
            }
        }),
{
    let (dx, dy) = player.facing.delta();
    let front = GridPos { x: player.pos.x + dx, y: player.pos.y + dy, floor: player.pos.floor };
    match level.block_at(front) {
        Some(Block::WritableWall) => {},
        _ => {
            proof {
                reveal_strlit("正面に 書ける壁がない");
            }
            return "正面に 書ける壁がない";
        },
    }
    if !has_pencil(party, item_catalog) {
        proof {
            reveal_strlit("鉛筆を 持っていない");
        }
        return "鉛筆を 持っていない";
    }
    writes.insert((current, front.x, front.y, front.floor), req.text.clone());
    "壁に かきこんだ。"
}

/// A press of the block ahead, at `pos`.
#[derive(Clone, Copy, Debug, PartialEq, Eq)]
pub struct FrontInteract {
    pub pos: GridPos,
}

/// What a press of the block ahead produced.
#[derive(Clone, Debug)]
pub struct FrontReport {
    /// What the writable wall at the pressed cell says (`None`: no such wall).
    pub wall_line: Option<String>,
    /// For each event of the level, in order, what pressing its trigger
    /// produced; events placed elsewhere produce nothing.
    pub presses: Vec<PressOutcome>,
}

/// What a writable wall at `pos` on level `level` reads: the runtime write if
/// there is one, else the authored text, else that nothing legible is there.
pub open spec fn spec_wall_line(ld: LevelData, writes: Seq<(WallKey, String)>, level: usize, pos: GridPos) -> Option<
    Seq<char>,
> {
    if ld.level.spec_block_at(pos) == Some(Block::WritableWall) {
        Some(
            match written_at(writes, (level, pos.x, pos.y, pos.floor)) {
                Some(t) => t@,
                None => match authored_text(ld.wall_texts@, pos.x, pos.y, pos.floor) {
                    Some(t) => t@,
                    None => "壁に 何か 書かれているが 読めない"@,
                },
            },
        )
    } else {
        None
    }
}

/// Whether event `ev` sits on the cell `pos`.
pub open spec fn at_cell(ev: EventDef, pos: GridPos) -> bool {
    ev.at == (pos.x, pos.y, pos.floor)
}

/// Whether the party holds the key a keyhole event asks for (never, for other
/// triggers).
pub open spec fn key_for(ev: EventDef, ms: Seq<PartyMember>) -> bool {
    match ev.trigger {
        TriggerKind::Keyhole { key_item } => party_carries(ms, key_item@),
        _ => false,
    }
}

/// The nothing a press of an event placed elsewhere produces.
pub open spec fn no_press() -> PressOutcome {
    PressOutcome { message: None, sound: false }
}

/// `ts` and `qs` trace the trigger states and the queue while the events of
/// `events` are pressed in order at `pos`, producing `outs`.
pub open spec fn press_trace(
    ts: Seq<TriggerStates>,
    qs: Seq<Seq<QueuedEvent>>,
    outs: Seq<PressOutcome>,
    events: Seq<EventDef>,
    pos: GridPos,
    level: usize,
    now: u64,
    flags: Seq<bool>,
    ms: Seq<PartyMember>,
) -> bool {
    &&& ts.len() == events.len() + 1 && qs.len() == events.len() + 1 && outs.len() == events.len()
    &&& forall|k: int|
        0 <= k < events.len() ==> if at_cell(#[trigger] events[k], pos) {
            press_result(events[k], level, now, flags, key_for(events[k], ms), ts[k], ts[k + 1], qs[k], qs[k + 1], outs[k])
        } else {
            ts[k + 1] == ts[k] && qs[k + 1] == qs[k] && outs[k] == no_press()
        }
}

/// Every event's delay stays representable from cycle `now`.
pub open spec fn delays_fit(events: Seq<EventDef>, now: u64) -> bool {
    forall|i: int| 0 <= i < events.len() ==> now + (#[trigger] events[i]).delay_cycles <= u64::MAX
}

/// Whether the party holds the key `ev` asks for, if it is a keyhole.
fn key_for_event(ev: &EventDef, party: &Party) -> (r: bool)
    requires
        inventories_wf(party.members@),
    ensures
        r == key_for(*ev, party.members@),
{
    match &ev.trigger {
        TriggerKind::Keyhole { key_item } => carries_item(party, key_item),
        _ => false,
    }
}

/// What the writable wall at `pos` reads (see [`spec_wall_line`]).
fn wall_line(ld: &LevelData, writes: &WallWrites, level: usize, pos: GridPos) -> (r: Option<String>)
    ensures
        match spec_wall_line(*ld, writes.map@, level, pos) {
            Some(l) => r matches Some(t) && t@ == l,
            None => r is None,
        },
{
    match ld.level.block_at(pos) {
        Some(Block::WritableWall) => {},
        _ => {
            return None;
        },
    }
    match writes.get((level, pos.x, pos.y, pos.floor)) {
        Some(t) => Some(t.clone()),
        None => match ld.wall_text_at(pos.x, pos.y, pos.floor) {
            Some(t) => Some(t.clone()),
            None => Some(String::from_str("壁に 何か 書かれているが 読めない")),
        },
    }
}

/// Resolve a press of the block ahead on level `level`: read the writable wall
/// there, then press the trigger of every event on that cell, in order (see
/// [`press_trigger`]).
pub fn front_interact(
    fi: &FrontInteract,
    ld: &LevelData,
    level: usize,
    party: &Party,
    flags: &EventFlags,
    triggers: &mut TriggerStates,
    queue: &mut EventQueue,
    now: u64,
    writes: &WallWrites,
) -> (r: FrontReport)
    requires
        delays_fit(ld.events@, now),
        inventories_wf(party.members@),
    ensures
        match spec_wall_line(*ld, writes.map@, level, fi.pos) {
            Some(l) => r.wall_line matches Some(t) && t@ == l,
            None => r.wall_line is None,
        },
        exists|ts: Seq<TriggerStates>, qs: Seq<Seq<QueuedEvent>>|
            #![trigger press_trace(ts, qs, r.presses@, ld.events@, fi.pos, level, now, flags@, party.members@)]
            press_trace(ts, qs, r.presses@, ld.events@, fi.pos, level, now, flags@, party.members@) && ts[0]
                == *old(triggers) && ts.last() == *final(triggers) && qs[0] == old(queue).pending@ && qs.last()
                == final(queue).pending@,
{
    let line = wall_line(ld, writes, level, fi.pos);
    let pos = fi.pos;
    let mut presses: Vec<PressOutcome> = Vec::new();
    let ghost mut ts: Seq<TriggerStates> = seq![*triggers];
    let ghost mut qs: Seq<Seq<QueuedEvent>> = seq![queue.pending@];
    let mut i: usize = 0;
    while i < ld.events.len()
        invariant
            i <= ld.events@.len(),
            delays_fit(ld.events@, now),
            inventories_wf(party.members@),
            ts.len() == i + 1 && qs.len() == i + 1 && presses@.len() == i,
            ts[0] == *old(triggers) && qs[0] == old(queue).pending@,
            ts.last() == *triggers && qs.last() == queue.pending@,
            forall|k: int|
                0 <= k < i ==> if at_cell(#[trigger] ld.events@[k], pos) {
                    press_result(
                        ld.events@[k],
                        level,
                        now,
                        flags@,
                        key_for(ld.events@[k], party.members@),
                        ts[k],
                        ts[k + 1],
                        qs[k],
                        qs[k + 1],
                        presses@[k],
                    )
                } else {
                    ts[k + 1] == ts[k] && qs[k + 1] == qs[k] && presses@[k] == no_press()
                },
        decreases ld.events@.len() - i,
    {
        let ev = &ld.events[i];
        if ev.at.0 == pos.x && ev.at.1 == pos.y && ev.at.2 == pos.floor {
            assert(now + ld.events@[i as int].delay_cycles <= u64::MAX);
            let has_key = key_for_event(ev, party);
            let out = press_trigger(ev, level, now, flags, has_key, triggers, queue);
            presses.push(out);
        } else {
            presses.push(PressOutcome { message: None, sound: false });
        }
        proof {
            ts = ts.push(*triggers);
            qs = qs.push(queue.pending@);
        }
        i = i + 1;
    }
    proof {
        assert(press_trace(ts, qs, presses@, ld.events@, fi.pos, level, now, flags@, party.members@));
    }
    let r = FrontReport { wall_line: line, presses };
    assert(press_trace(ts, qs, r.presses@, ld.events@, fi.pos, level, now, flags@, party.members@));
    r
}

/// Total weight (×100 g) of what the members of `ms` carry.
pub open spec fn party_weight_sum(ms: Seq<PartyMember>, defs: Seq<ItemDef>) -> int
    decreases ms.len(),
{
    if ms.len() == 0 {
        0
    } else {
        party_weight_sum(ms.drop_last(), defs) + weight_sum(ms.last().inventory@.items(), defs)
    }
}

/// Every member's weight and every running total of the party's weight is an
/// `i32`.
pub open spec fn party_weight_fits(ms: Seq<PartyMember>, defs: Seq<ItemDef>) -> bool {
    &&& forall|i: int|
        0 <= i < ms.len() ==> (#[trigger] ms[i]).inventory.wf() && sums_in_range(ms[i].inventory@.items(), defs)
    &&& forall|k: int| 0 <= k <= ms.len() ==> i32::MIN <= #[trigger] party_weight_sum(ms.take(k), defs) <= i32::MAX
}

/// The party's combined carried weight (×100 g).
pub fn party_weight(party: &Party, catalog: &ItemCatalog) -> (r: i32)
    requires
        party_weight_fits(party.members@, catalog@),
    ensures
        r == party_weight_sum(party.members@, catalog@),
{
    let ghost ms = party.members@;
    let mut total: i32 = 0;
    let mut i: usize = 0;
    assert(ms.take(0) =~= Seq::<PartyMember>::empty());
    while i < party.members.len()
        invariant
            i <= ms.len(),
            ms == party.members@,
            party_weight_fits(ms, catalog@),
            total == party_weight_sum(ms.take(i as int), catalog@),
        decreases ms.len() - i,
    {
        assert(ms.take(i as int + 1).drop_last() =~= ms.take(i as int));
        assert(ms.take(i as int + 1).last() == ms[i as int]);
        assert(ms[i as int].inventory.wf() && sums_in_range(ms[i as int].inventory@.items(), catalog@));
        let w = party.members[i].inventory.total_weight(catalog);
        assert(i32::MIN <= party_weight_sum(ms.take(i as int + 1), catalog@) <= i32::MAX);
        total = total + w;
        i = i + 1;
    }
    assert(ms.take(ms.len() as int) =~= ms);
    total
}

/// The ids of the loose items lying at `at`, in order (`items` lists each
/// loose item's cell and definition id).
pub open spec fn ids_at(items: Seq<(GridPos, String)>, at: (i32, i32, usize)) -> Seq<String>
    decreases items.len(),
{
    if items.len() == 0 {
        Seq::empty()
    } else {
        let rest = ids_at(items.drop_last(), at);
        if items.last().0 == (GridPos { x: at.0, y: at.1, floor: at.2 }) {
            rest.push(items.last().1)
        } else {
            rest
        }
    }
}

/// The ids of the loose items lying at `at` (see [`ids_at`]).
pub fn item_ids_at(items: &Vec<(GridPos, String)>, at: (i32, i32, usize)) -> (r: Vec<String>)
    ensures
        r@ == ids_at(items@, at),
{
    let mut r: Vec<String> = Vec::new();
    let mut i: usize = 0;
    while i < items.len()
        invariant
            i <= items@.len(),
            r@ == ids_at(items@.take(i as int), at),
        decreases items@.len() - i,
    {
        assert(items@.take(i as int + 1).drop_last() =~= items@.take(i as int));
        assert(items@.take(i as int + 1).last() == items@[i as int]);
        let p = &items[i];
        if p.0.x == at.0 && p.0.y == at.1 && p.0.floor == at.2 {
            r.push(p.1.clone());
        }
        i = i + 1;
    }
    assert(items@.take(items@.len() as int) =~= items@);
    r
}

/// What stepping onto a cell did besides firing events: a stairs move (with
/// its log line), or the log line of a collapsed staircase.
#[derive(Clone, Debug)]
pub struct EntryReport {
    /// The link to follow when the party entered linked stairs.
    pub transition: Option<StairsLink>,
    /// The log line, if any.
    pub message: Option<&'static str>,
    /// For each event of the level, in order, whether it was queued (warp
    /// points play the warp sound, floor plates the switch sound).
    pub fired: Vec<bool>,
}

/// Whether the plate condition of `ev` holds with the party at `pos`
/// carrying `weight`, `items` listing the loose items (false for other
/// triggers).
pub open spec fn plate_holds(ev: EventDef, pos: GridPos, weight: int, items: Seq<(GridPos, String)>) -> bool {
    match ev.trigger {
        TriggerKind::FloorPlate { cond } => spec_plate_satisfied(cond, at_cell(ev, pos), weight, ids_at(items, ev.at)),
        _ => false,
    }
}

/// `ts`, `qs` and `fired` trace the trigger states, the queue and the firings
/// while the events of `events` are checked in order for an arrival at `pos`
/// (`entered`: the party just came to that cell): a warp point on the cell
/// fires on arrival when its flags allow, a floor plate fires on the rising
/// edge of its condition (see [`plate_result`]), other events stay put.
pub open spec fn entry_trace(
    ts: Seq<TriggerStates>,
    qs: Seq<Seq<QueuedEvent>>,
    fired: Seq<bool>,
    events: Seq<EventDef>,
    pos: GridPos,
    entered: bool,
    weight: int,
    items: Seq<(GridPos, String)>,
    level: usize,
    now: u64,
    flags: Seq<bool>,
) -> bool {
    &&& ts.len() == events.len() + 1 && qs.len() == events.len() + 1 && fired.len() == events.len()
    &&& forall|k: int|
        0 <= k < events.len() ==> match (#[trigger] events[k]).trigger {
            TriggerKind::WarpPoint { .. } => {
                let ok = spec_flags_satisfied(flags, events[k].flags@, events[k].join);
                &&& ts[k + 1] == ts[k]
                &&& fired[k] == (entered && at_cell(events[k], pos) && ok)
                &&& qs[k + 1] == if fired[k] {
                    qs[k].push(
                        QueuedEvent {
                            event_id: events[k].id,
                            level,
                            fire_cycle: (now + events[k].delay_cycles) as u64,
                        },
                    )
                } else {
                    qs[k]
                }
            },
            TriggerKind::FloorPlate { .. } => plate_result(
                events[k],
                plate_holds(events[k], pos, weight, items),
                level,
                now,
                flags,
                ts[k],
                ts[k + 1],
                qs[k],
                qs[k + 1],
                fired[k],
            ),
            _ => ts[k + 1] == ts[k] && qs[k + 1] == qs[k] && !fired[k],
        }
}

/// The log line of an arrival on stairs going `up` (or down).
pub open spec fn stairs_message(up: bool) -> Seq<char> {
    if up {
        "階段を のぼった。"@
    } else {
        "階段を おりた。"@
    }
}

/// Check what the party's arrival at `player.pos` on level `level` sets off:
/// `last` holds the cell of the previous check, and the party has entered the
/// cell when it differs. Entering linked stairs moves the party along the link;
/// unlinked stairs are impassable. Then every warp point and floor plate of the
/// level is checked in order (see [`entry_trace`]); `floor_items` lists the
/// loose items, each by cell and definition id.
pub fn entry_triggers(
    player: &Player,
    last: &mut Option<GridPos>,
    ld: &LevelData,
    level: usize,
    party: &Party,
    item_catalog: &ItemCatalog,
    flags: &EventFlags,
    triggers: &mut TriggerStates,
    queue: &mut EventQueue,
    now: u64,
    floor_items: &Vec<(GridPos, String)>,
) -> (r: EntryReport)
    requires
        delays_fit(ld.events@, now),
        party_weight_fits(party.members@, item_catalog@),
    ensures
        *final(last) == Some(player.pos),
        ({
            let pos = player.pos;
            let entered = *old(last) != Some(pos);
            match ld.level.spec_block_at(pos) {
                Some(Block::Stairs { up }) if entered => match link_from(ld.stairs_links@, (pos.x, pos.y, pos.floor)) {
                    Some(l) => r.transition == Some(l) && (r.message matches Some(m) && m@ == stairs_message(up)),
                    None => r.transition is None && (r.message matches Some(m) && m@ == "くずれていて 通れない"@),
                },
                _ => r.transition is None && r.message is None,
            }
        }),
        exists|ts: Seq<TriggerStates>, qs: Seq<Seq<QueuedEvent>>|
            #![trigger ts[0], qs[0]]
            entry_trace(
                ts,
                qs,
                r.fired@,
                ld.events@,
                player.pos,
                *old(last) != Some(player.pos),
                party_weight_sum(party.members@, item_catalog@),
                floor_items@,
                level,
                now,
                flags@,
            ) && ts[0] == *old(triggers) && ts.last() == *final(triggers) && qs[0] == old(queue).pending@
                && qs.last() == final(queue).pending@,
{
    let pos = player.pos;
    let entered = match last {
        Some(p) => !(p.x == pos.x && p.y == pos.y && p.floor == pos.floor),
        None => true,
    };
    *last = Some(pos);
    let mut transition: Option<StairsLink> = None;
    let mut message: Option<&'static str> = None;
    if entered {
        match ld.level.block_at(pos) {
            Some(Block::Stairs { up }) => match ld.stairs_link_at(pos.x, pos.y, pos.floor) {
                Some(l) => {
                    transition = Some(l);
                    message = Some(
                        if up {
                            "階段を のぼった。"
                        } else {
                            "階段を おりた。"
                        },
                    );
                },
                None => {
                    message = Some("くずれていて 通れない");
                },
            },
            _ => {},
        }
    }
    let weight = party_weight(party, item_catalog);
    let mut fired: Vec<bool> = Vec::new();
    let ghost mut ts: Seq<TriggerStates> = seq![*triggers];
    let ghost mut qs: Seq<Seq<QueuedEvent>> = seq![queue.pending@];
    let mut i: usize = 0;
    while i < ld.events.len()
        invariant
            i <= ld.events@.len(),
            delays_fit(ld.events@, now),
            weight == party_weight_sum(party.members@, item_catalog@),
            entered == (*old(last) != Some(pos)),
            ts.len() == i + 1 && qs.len() == i + 1 && fired@.len() == i,
            ts[0] == *old(triggers) && qs[0] == old(queue).pending@,
            ts.last() == *triggers && qs.last() == queue.pending@,
            forall|k: int|
                0 <= k < i ==> match (#[trigger] ld.events@[k]).trigger {
                    TriggerKind::WarpPoint { .. } => {
                        let ok = spec_flags_satisfied(flags@, ld.events@[k].flags@, ld.events@[k].join);
                        &&& ts[k + 1] == ts[k]
                        &&& fired@[k] == (entered && at_cell(ld.events@[k], pos) && ok)
                        &&& qs[k + 1] == if fired@[k] {
                            qs[k].push(
                                QueuedEvent {
                                    event_id: ld.events@[k].id,
                                    level,
                                    fire_cycle: (now + ld.events@[k].delay_cycles) as u64,
                                },
                            )
                        } else {
                            qs[k]
                        }
                    },
                    TriggerKind::FloorPlate { .. } => plate_result(
                        ld.events@[k],
                        plate_holds(ld.events@[k], pos, weight as int, floor_items@),
                        level,
                        now,
                        flags@,
                        ts[k],
                        ts[k + 1],
                        qs[k],
                        qs[k + 1],
                        fired@[k],
                    ),
                    _ => ts[k + 1] == ts[k] && qs[k + 1] == qs[k] && !fired@[k],
                },
        decreases ld.events@.len() - i,
    {
        let ev = &ld.events[i];
        assert(now + ld.events@[i as int].delay_cycles <= u64::MAX);
        let on_tile = ev.at.0 == pos.x && ev.at.1 == pos.y && ev.at.2 == pos.floor;
        match &ev.trigger {
            TriggerKind::WarpPoint { .. } => {
                let f = if entered && on_tile {
                    enqueue(queue, ev, level, now, flags)
                } else {
                    false
                };
                fired.push(f);
            },
            TriggerKind::FloorPlate { cond } => {
                let here = item_ids_at(floor_items, ev.at);
                let satisfied = plate_satisfied(cond, on_tile, weight, &here);
                let f = plate_step(ev, satisfied, level, now, flags, triggers, queue);
                fired.push(f);
            },
            _ => {
                fired.push(false);
            },
        }
        proof {
            ts = ts.push(*triggers);
            qs = qs.push(queue.pending@);
        }
        i = i + 1;
    }
    let r = EntryReport { transition, message, fired };
    assert(entry_trace(
        ts,
        qs,
        r.fired@,
        ld.events@,
        player.pos,
        *old(last) != Some(player.pos),
        party_weight_sum(party.members@, item_catalog@),
        floor_items@,
        level,
        now,
        flags@,
    ));
    r
}

/// Where the debug scene `scene` shows its gimmick from: the plate scene steps
/// on the plate facing the spawn cell, the warp scene looks at the visible warp
/// marker, the stairs scene at the stairs, the hole scene into the hole.
pub open spec fn gimmick_viewpoint(scene: Seq<char>) -> Option<Player> {
    if scene == "plate"@ {
        Some(Player { pos: GridPos { x: 27, y: 20, floor: 0 }, facing: Facing::East })
    } else if scene == "warp"@ {
        Some(Player { pos: GridPos { x: 30, y: 21, floor: 0 }, facing: Facing::North })
    } else if scene == "stairs"@ {
        Some(Player { pos: GridPos { x: 27, y: 22, floor: 0 }, facing: Facing::West })
    } else if scene == "hole"@ {
        Some(Player { pos: GridPos { x: 26, y: 21, floor: 1 }, facing: Facing::North })
    } else {
        None
    }
}

/// The viewpoint of a debug scene (see [`gimmick_viewpoint`]).
pub fn viewpoint_of(scene: &String) -> (r: Option<Player>)
    ensures
        r == gimmick_viewpoint(scene@),
{
    if same_text(scene, "plate") {
        Some(Player { pos: GridPos { x: 27, y: 20, floor: 0 }, facing: Facing::East })
    } else if same_text(scene, "warp") {
        Some(Player { pos: GridPos { x: 30, y: 21, floor: 0 }, facing: Facing::North })
    } else if same_text(scene, "stairs") {
        Some(Player { pos: GridPos { x: 27, y: 22, floor: 0 }, facing: Facing::West })
    } else if same_text(scene, "hole") {
        Some(Player { pos: GridPos { x: 26, y: 21, floor: 1 }, facing: Facing::North })
    } else {
        None
    }
}

/// One check of the debug-shot driver: with a debug `scene` requested and the
/// driver not yet `done`, a gimmick scene moves the party to its viewpoint
/// once the party is `idle` (no scripted input left, no move animating); any
/// other scene just finishes the driver.
pub fn debug_gimmick_driver(scene: &Option<String>, done: &mut bool, idle: bool, player: &mut Player)
    ensures
        match scene {
            None => *final(done) == *old(done) && *final(player) == *old(player),
            Some(sc) => if *old(done) {
                *final(done) && *final(player) == *old(player)
            } else {
                match gimmick_viewpoint(sc@) {
                    None => *final(done) && *final(player) == *old(player),
                    Some(v) => if idle {
                        *final(done) && *final(player) == v
                    } else {
                        !*final(done) && *final(player) == *old(player)
                    },
                }
            },
        },
{
    let sc = match scene {
        Some(sc) => sc,
        None => {
            return ;
        },
    };
    if *done {
        return ;
    }
    match viewpoint_of(sc) {
        None => {
            *done = true;
        },
        Some(v) => {
            if idle {
                *player = v;
                *done = true;
            }
        },
    }
}

} // verus!
