//! Running an event's action list against the game world: flags, doors,
//! move mode, blocks and liquids, warps, revival, switch operation, chained
//! and looping events. What only the presentation can do (sounds, camera,
//! spawning models, music, demos) comes back as effects.
use vstd::prelude::*;
use crate::character::Party;
use crate::dungeon::{Block, DoorStates, Facing, GridPos, Level};
use crate::event::{
    EventAction, EventDef, EventFlags, EventQueue, MoveMode, QueuedEvent, TriggerStates, enqueue, is_ready,
    lookup_bool, put_bool, spec_flags_satisfied, take_ready,
};
use crate::item::{ItemCatalog, lookup_item};
use crate::monster::{Monster, MonsterCatalog, lookup_monster, revive_all, revived};
use crate::player::Player;

verus! {

/// What the presentation has to do after an action ran.
#[derive(Clone, Debug, PartialEq, Eq)]
pub enum EventEffect {
    /// A log line.
    Message(&'static str),
    /// The warp sound.
    WarpSound,
    /// Move the party to another level.
    Transition { level: usize, pos: GridPos, facing: Facing },
    /// Snap the camera to the party's new pose.
    CameraReset,
    /// A cell's block changed; redraw it.
    TileChanged(GridPos),
    /// Spawn a monster of this (known) kind.
    SpawnMonster { monster: String, pos: GridPos },
    /// Drop an item of this (known) kind.
    SpawnItem { item: String, pos: GridPos },
    /// Override the level music (`None`: back to the level's own track).
    Bgm(Option<String>),
    /// Start the demo with this id.
    StartDemo(String),
}

/// Everything event actions change.
#[derive(Clone, Debug)]
pub struct EventWorld {
    pub flags: EventFlags,
    pub doors: DoorStates,
    pub move_mode: MoveMode,
    pub triggers: TriggerStates,
    pub queue: EventQueue,
    pub party: Party,
    pub player: Player,
    pub level: Level,
    pub monsters: Vec<Monster>,
}

/// `after` is `before` with the block at `pos` set to `block` (when that cell
/// exists), the floor sizes unchanged.
pub open spec fn block_set(before: Level, after: Level, pos: GridPos, block: Block) -> bool {
    &&& after.floors@.len() == before.floors@.len()
    &&& forall|i: int|
        0 <= i < after.floors@.len() ==> (#[trigger] after.floors@[i]).width == before.floors@[i].width
            && after.floors@[i].height == before.floors@[i].height && after.floors@[i].blocks@.len()
            == before.floors@[i].blocks@.len()
    &&& forall|x: int, y: int, f: int|
        #![trigger after.spec_cell(x, y, f)]
        after.spec_cell(x, y, f) == if x == pos.x && y == pos.y && f == pos.floor && before.spec_cell(x, y, f) is Some {
            Some(block)
        } else {
            before.spec_cell(x, y, f)
        }
}

/// A living monster standing at `pos` is pushed one floor up when that floor
/// exists below `top`.
pub open spec fn pushed_up(m: Monster, pos: GridPos, top: nat) -> Monster {
    if !m.dead && m.pos == pos && pos.floor + 1 < top {
        Monster { pos: GridPos { floor: (pos.floor + 1) as usize, ..m.pos }, ..m }
    } else {
        m
    }
}

/// The first event of `events` with id `id`, if any.
pub open spec fn event_index(events: Seq<EventDef>, id: Seq<char>) -> Option<int> {
    crate::item::first_index_of(events.map_values(|e: EventDef| e.id@), id)
}

/// One action `a` of event `ev` (on level `lvl`, among `events`, at cycle
/// `now`) takes the world from `w0` to `w1`, the effects from `e0` to `e1`,
/// and `go` says whether the chain goes on.
pub open spec fn action_step(
    w0: EventWorld,
    w1: EventWorld,
    e0: Seq<EventEffect>,
    e1: Seq<EventEffect>,
    go: bool,
    a: EventAction,
    ev: EventDef,
    events: Seq<EventDef>,
    lvl: usize,
    now: u64,
    monsters: Seq<crate::monster::MonsterDef>,
    items: Seq<crate::item::ItemDef>,
) -> bool {
    match a {
        EventAction::SetFlag { flag, on } => {
            &&& w1 == EventWorld { flags: w1.flags, ..w0 }
            &&& w1.flags@ == if flag < w0.flags@.len() { w0.flags@.update(flag as int, on) } else { w0.flags@ }
            &&& e1 == e0 && go
        },
        EventAction::SetDoor { kind, open } => {
            &&& w1 == EventWorld { doors: w1.doors, ..w0 }
            &&& w1.doors@ == if (kind as int) < w0.doors@.len() { w0.doors@.update(kind as int, open) } else { w0.doors@ }
            &&& e1 == e0 && go
        },
        EventAction::SetMoveMode { mode } => w1 == EventWorld { move_mode: mode, ..w0 } && e1 == e0 && go,
        EventAction::ReviveParty => {
            &&& w1 == EventWorld { party: w1.party, ..w0 }
            &&& w1.party.members@ == w0.party.members@.map_values(|m: crate::character::PartyMember| revived(m))
            &&& e1 == e0.push(EventEffect::Message("パーティは 復活した!"))
            &&& go
        },
        EventAction::ChangeBgm { bgm } => w1 == w0 && go && e1 == e0.push(
            EventEffect::Bgm(if bgm@.len() == 0 { None } else { Some(bgm) }),
        ),
        EventAction::StartDemo { demo } => w1 == w0 && go && e1 == e0.push(EventEffect::StartDemo(demo)),
        EventAction::Warp { level, x, y, floor, facing } => {
            let pos = GridPos { x, y, floor };
            &&& go
            &&& if level == lvl {
                &&& w1 == EventWorld { player: Player { pos, facing }, ..w0 }
                &&& e1 == e0.push(EventEffect::WarpSound).push(EventEffect::CameraReset)
            } else {
                &&& w1 == w0
                &&& e1 == e0.push(EventEffect::WarpSound).push(EventEffect::Transition { level, pos, facing })
            }
        },
        EventAction::SetLiquid { x, y, floor, kind } => {
            let pos = GridPos { x, y, floor };
            let b = match kind {
                Some(k) => k.spec_block(),
                None => Block::Empty,
            };
            &&& w1 == EventWorld { level: w1.level, ..w0 }
            &&& block_set(w0.level, w1.level, pos, b)
            &&& e1 == e0.push(EventEffect::TileChanged(pos)) && go
        },
        EventAction::SetBlock { x, y, floor, block } => {
            let pos = GridPos { x, y, floor };
            let top = w0.level.floors@.len();
            &&& block_set(w0.level, w1.level, pos, block)
            &&& e1 == e0.push(EventEffect::TileChanged(pos)) && go
            &&& if block.spec_is_solid() {
                &&& w1 == EventWorld { level: w1.level, player: w1.player, monsters: w1.monsters, ..w0 }
                &&& w1.player == if w0.player.pos == pos && pos.floor + 1 < top {
                    Player { pos: GridPos { floor: (pos.floor + 1) as usize, ..pos }, ..w0.player }
                } else {
                    w0.player
                }
                &&& w1.monsters@ == w0.monsters@.map_values(|m: Monster| pushed_up(m, pos, top))
            } else {
                w1 == EventWorld { level: w1.level, ..w0 }
            }
        },
        EventAction::SpawnMonster { monster, x, y, floor } => {
            &&& w1 == w0 && go
            &&& e1 == if lookup_monster(monsters, monster@) is Some {
                e0.push(EventEffect::SpawnMonster { monster, pos: GridPos { x, y, floor } })
            } else {
                e0
            }
        },
        EventAction::SpawnItem { item, x, y, floor } => {
            &&& w1 == w0 && go
            &&& e1 == if lookup_item(items, item@) is Some {
                e0.push(EventEffect::SpawnItem { item, pos: GridPos { x, y, floor } })
            } else {
                e0
            }
        },
        EventAction::OperateSwitch { event, on } => {
            &&& w1 == EventWorld { triggers: w1.triggers, queue: w1.queue, ..w0 }
            &&& w1.triggers.fired == w0.triggers.fired
            &&& w1.triggers.plate_armed == w0.triggers.plate_armed
            &&& lookup_bool(w1.triggers.toggled_on@, event@) == Some(on)
            &&& forall|other: Seq<char>|
                other != event@ ==> lookup_bool(w1.triggers.toggled_on@, other) == lookup_bool(
                    w0.triggers.toggled_on@,
                    other,
                )
            &&& w1.queue.pending@ == match event_index(events, event@) {
                Some(t) => if on && spec_flags_satisfied(w0.flags@, events[t].flags@, events[t].join) {
                    w0.queue.pending@.push(
                        QueuedEvent { event_id: events[t].id, level: lvl, fire_cycle: (now + events[t].delay_cycles) as u64 },
                    )
                } else {
                    w0.queue.pending@
                },
                None => w0.queue.pending@,
            }
            &&& e1 == e0 && go
        },
        EventAction::EndChain => w1 == w0 && e1 == e0 && !go,
        EventAction::Loop => {
            &&& w1 == EventWorld { queue: w1.queue, ..w0 }
            &&& w1.queue.pending@ == w0.queue.pending@.push(
                QueuedEvent {
                    event_id: ev.id,
                    level: lvl,
                    fire_cycle: (now + if ev.delay_cycles < 1 { 1 } else { ev.delay_cycles }) as u64,
                },
            )
            &&& e1 == e0 && !go
        },
    }
}

/// Every delay scheduled from cycle `now` (the running event's own, at least
/// one cycle, and any other event's on the level) stays representable.
pub open spec fn run_fits(events: Seq<EventDef>, ev: EventDef, now: u64) -> bool {
    &&& now + ev.delay_cycles + 1 <= u64::MAX
    &&& forall|i: int| 0 <= i < events.len() ==> now + (#[trigger] events[i]).delay_cycles <= u64::MAX
}

/// The index of the first event of `events` with id `id`.
pub fn find_event(events: &Vec<EventDef>, id: &String) -> (r: Option<usize>)
    ensures
        r == match event_index(events@, id@) {
            Some(k) => Some(k as usize),
            None => None,
        },
        r matches Some(t) ==> t < events@.len() && event_index(events@, id@) == Some(t as int),
{
    let ghost all = events@.map_values(|e: EventDef| e.id@);
    let mut i: usize = 0;
    while i < events.len()
        invariant
            i <= events@.len(),
            all == events@.map_values(|e: EventDef| e.id@),
            forall|k: int| 0 <= k < i ==> all[k] != id@,
        decreases events@.len() - i,
    {
        if events[i].id == *id {
            proof {
                crate::item::lemma_first_index_of_at(all, id@, i as int);
            }
            return Some(i);
        }
        i = i + 1;
    }
    proof {
        crate::item::lemma_first_index_of(all, id@);
    }
    None
}

/// Push every living monster standing at `pos` one floor up (see [`pushed_up`]).
pub fn push_up_monsters(monsters: &mut Vec<Monster>, pos: GridPos, top: usize)
    ensures
        final(monsters)@ == old(monsters)@.map_values(|m: Monster| pushed_up(m, pos, top as nat)),
{
    let ghost ms0 = monsters@;
    let mut i: usize = 0;
    while i < monsters.len()
        invariant
            i <= monsters@.len() == ms0.len(),
            forall|k: int| 0 <= k < i ==> #[trigger] monsters@[k] == pushed_up(ms0[k], pos, top as nat),
            forall|k: int| i <= k < ms0.len() ==> #[trigger] monsters@[k] == ms0[k],
        decreases ms0.len() - i,
    {
        let mut m = monsters.remove(i);
        assert(m == ms0[i as int]);
        if !m.dead && m.pos == pos && pos.floor < top && top - pos.floor > 1 {
            m.pos.floor = pos.floor + 1;
        }
        monsters.insert(i, m);
        i = i + 1;
    }
    assert(monsters@ =~= ms0.map_values(|m: Monster| pushed_up(m, pos, top as nat)));
}

/// Set a cell's block and push whoever stands there up a floor when the new
/// block is solid.
fn set_block_action(world: &mut EventWorld, pos: GridPos, block: Block)
    ensures
        block_set(old(world).level, final(world).level, pos, block),
        ({
            let w0 = *old(world);
            let w1 = *final(world);
            let top = w0.level.floors@.len();
            if block.spec_is_solid() {
                &&& w1 == EventWorld { level: w1.level, player: w1.player, monsters: w1.monsters, ..w0 }
                &&& w1.player == if w0.player.pos == pos && pos.floor + 1 < top {
                    Player { pos: GridPos { floor: (pos.floor + 1) as usize, ..pos }, ..w0.player }
                } else {
                    w0.player
                }
                &&& w1.monsters@ == w0.monsters@.map_values(|m: Monster| pushed_up(m, pos, top))
            } else {
                w1 == EventWorld { level: w1.level, ..w0 }
            }
        }),
{
    world.level.set_block(pos, block);
    if block.is_solid() {
        let top = world.level.floor_count();
        if world.player.pos == pos && pos.floor < top && top - pos.floor > 1 {
            world.player.pos.floor = pos.floor + 1;
        }
        push_up_monsters(&mut world.monsters, pos, top);
    }
}

/// Force the switch of event `event` to `on`, queueing that event (when it
/// exists and its flag condition holds) if it was turned on.
fn operate_switch(world: &mut EventWorld, event: &String, on: bool, events: &Vec<EventDef>, lvl: usize, now: u64)
    requires
        forall|i: int| 0 <= i < events@.len() ==> now + (#[trigger] events@[i]).delay_cycles <= u64::MAX,
    ensures
        ({
            let w0 = *old(world);
            let w1 = *final(world);
            &&& w1 == EventWorld { triggers: w1.triggers, queue: w1.queue, ..w0 }
            &&& w1.triggers.fired == w0.triggers.fired
            &&& w1.triggers.plate_armed == w0.triggers.plate_armed
            &&& lookup_bool(w1.triggers.toggled_on@, event@) == Some(on)
            &&& forall|other: Seq<char>|
                other != event@ ==> lookup_bool(w1.triggers.toggled_on@, other) == lookup_bool(
                    w0.triggers.toggled_on@,
                    other,
                )
            &&& w1.queue.pending@ == match event_index(events@, event@) {
                Some(t) => if on && spec_flags_satisfied(w0.flags@, events@[t].flags@, events@[t].join) {
                    w0.queue.pending@.push(
                        QueuedEvent { event_id: events@[t].id, level: lvl, fire_cycle: (now + events@[t].delay_cycles) as u64 },
                    )
                } else {
                    w0.queue.pending@
                },
                None => w0.queue.pending@,
            }
        }),
{
    if on {
        match find_event(events, event) {
            Some(t) => {
                assert(now + events@[t as int].delay_cycles <= u64::MAX);
                enqueue(&mut world.queue, &events[t], lvl, now, &world.flags);
            },
            None => {},
        }
    }
    put_bool(&mut world.triggers.toggled_on, event, on);
}

/// Run one action of event `ev` (found on level `lvl` among `events`) at cycle
/// `now`, adding what the presentation must do to `effects`. Returns whether
/// the event's remaining actions run.
pub fn apply_action(
    world: &mut EventWorld,
    action: &EventAction,
    ev: &EventDef,
    events: &Vec<EventDef>,
    lvl: usize,
    now: u64,
    monster_catalog: &MonsterCatalog,
    item_catalog: &ItemCatalog,
    effects: &mut Vec<EventEffect>,
) -> (go: bool)
    requires
        run_fits(events@, *ev, now),
    ensures
        action_step(
            *old(world),
            *final(world),
            old(effects)@,
            final(effects)@,
            go,
            *action,
            *ev,
            events@,
            lvl,
            now,
            monster_catalog@,
            item_catalog@,
        ),
{
    match action {
        EventAction::SetFlag { flag, on } => {
            world.flags.set(*flag, *on);
            true
        },
        EventAction::SetDoor { kind, open } => {
            world.doors.set(*kind, *open);
            true
        },
        EventAction::SetMoveMode { mode } => {
            world.move_mode = *mode;
            true
        },
        EventAction::ReviveParty => {
            revive_all(&mut world.party);
            effects.push(EventEffect::Message("パーティは 復活した!"));
            true
        },
        EventAction::ChangeBgm { bgm } => {
            if bgm.as_str().is_empty() {
                effects.push(EventEffect::Bgm(None));
            } else {
                effects.push(EventEffect::Bgm(Some(bgm.clone())));
            }
            true
        },
        EventAction::StartDemo { demo } => {
            effects.push(EventEffect::StartDemo(demo.clone()));
            true
        },
        EventAction::Warp { level, x, y, floor, facing } => {
            let pos = GridPos { x: *x, y: *y, floor: *floor };
            effects.push(EventEffect::WarpSound);
            if *level == lvl {
                world.player = Player { pos, facing: *facing };
                effects.push(EventEffect::CameraReset);
            } else {
                effects.push(EventEffect::Transition { level: *level, pos, facing: *facing });
            }
            true
        },
        EventAction::SetLiquid { x, y, floor, kind } => {
            let pos = GridPos { x: *x, y: *y, floor: *floor };
            let b = match kind {
                Some(k) => k.block(),
                None => Block::Empty,
            };
            world.level.set_block(pos, b);
            effects.push(EventEffect::TileChanged(pos));
            true
        },
        EventAction::SetBlock { x, y, floor, block } => {
            let pos = GridPos { x: *x, y: *y, floor: *floor };
            set_block_action(world, pos, *block);
            effects.push(EventEffect::TileChanged(pos));
            true
        },
        EventAction::SpawnMonster { monster, x, y, floor } => {
            if monster_catalog.get(monster.as_str()).is_some() {
                effects.push(
                    EventEffect::SpawnMonster { monster: monster.clone(), pos: GridPos { x: *x, y: *y, floor: *floor } },
                );
            }
            true
        },
        EventAction::SpawnItem { item, x, y, floor } => {
            if item_catalog.get(item.as_str()).is_some() {
                effects.push(
                    EventEffect::SpawnItem { item: item.clone(), pos: GridPos { x: *x, y: *y, floor: *floor } },
                );
            }
            true
        },
        EventAction::OperateSwitch { event, on } => {
            operate_switch(world, event, *on, events, lvl, now);
            true
        },
        EventAction::EndChain => false,
        EventAction::Loop => {
            let delay = if ev.delay_cycles < 1 { 1 } else { ev.delay_cycles };
            world.queue.pending.push(QueuedEvent { event_id: ev.id.clone(), level: lvl, fire_cycle: now + delay });
            false
        },
    }
}

/// `ws`, `es` and `gos` trace the first steps of `ev`'s action list from the
/// world `ws[0]` and effects `es[0]`: step `i` runs action `i` as
/// [`action_step`] says, every step but the last lets the chain go on, and a
/// trace shorter than the list ends on a step that stopped it.
pub open spec fn chain_trace(
    ws: Seq<EventWorld>,
    es: Seq<Seq<EventEffect>>,
    gos: Seq<bool>,
    ev: EventDef,
    events: Seq<EventDef>,
    lvl: usize,
    now: u64,
    monsters: Seq<crate::monster::MonsterDef>,
    items: Seq<crate::item::ItemDef>,
) -> bool {
    let n = gos.len() as int;
    &&& ws.len() == n + 1 && es.len() == n + 1
    &&& n <= ev.actions@.len()
    &&& forall|i: int|
        0 <= i < n ==> action_step(
            ws[i],
            ws[i + 1],
            es[i],
            es[i + 1],
            #[trigger] gos[i],
            ev.actions@[i],
            ev,
            events,
            lvl,
            now,
            monsters,
            items,
        )
    &&& forall|i: int| 0 <= i < n - 1 ==> #[trigger] gos[i]
    &&& n < ev.actions@.len() ==> n > 0 && !gos[n - 1]
}

/// Running event `ev` takes the world from `w0` to `w1` and the effects from
/// `e0` to `e1`: its actions run in order until one ends the chain.
pub open spec fn event_run(
    w0: EventWorld,
    w1: EventWorld,
    e0: Seq<EventEffect>,
    e1: Seq<EventEffect>,
    ev: EventDef,
    events: Seq<EventDef>,
    lvl: usize,
    now: u64,
    monsters: Seq<crate::monster::MonsterDef>,
    items: Seq<crate::item::ItemDef>,
) -> bool {
    exists|ws: Seq<EventWorld>, es: Seq<Seq<EventEffect>>, gos: Seq<bool>|
        #![trigger chain_trace(ws, es, gos, ev, events, lvl, now, monsters, items)]
        chain_trace(ws, es, gos, ev, events, lvl, now, monsters, items) && ws[0] == w0 && es[0] == e0
            && ws.last() == w1 && es.last() == e1
}

/// Run event `ev`'s action list (see [`event_run`]).
pub fn run_event(
    world: &mut EventWorld,
    ev: &EventDef,
    events: &Vec<EventDef>,
    lvl: usize,
    now: u64,
    monster_catalog: &MonsterCatalog,
    item_catalog: &ItemCatalog,
    effects: &mut Vec<EventEffect>,
)
    requires
        run_fits(events@, *ev, now),
    ensures
        event_run(
            *old(world),
            *final(world),
            old(effects)@,
            final(effects)@,
            *ev,
            events@,
            lvl,
            now,
            monster_catalog@,
            item_catalog@,
        ),
{
    let ghost mut ws: Seq<EventWorld> = seq![*world];
    let ghost mut es: Seq<Seq<EventEffect>> = seq![effects@];
    let ghost mut gos: Seq<bool> = Seq::empty();
    let ghost w0 = *world;
    let ghost e0 = effects@;
    let mut i: usize = 0;
    while i < ev.actions.len()
        invariant_except_break
            i <= ev.actions@.len(),
            gos.len() == i,
            forall|k: int| 0 <= k < i ==> #[trigger] gos[k],
        invariant
            run_fits(events@, *ev, now),
            ws[0] == w0 && es[0] == e0,
            ws.last() == *world && es.last() == effects@,
            ws.len() == gos.len() + 1 && es.len() == gos.len() + 1,
            gos.len() <= ev.actions@.len(),
            forall|k: int|
                0 <= k < gos.len() ==> action_step(
                    ws[k],
                    ws[k + 1],
                    es[k],
                    es[k + 1],
                    #[trigger] gos[k],
                    ev.actions@[k],
                    *ev,
                    events@,
                    lvl,
                    now,
                    monster_catalog@,
                    item_catalog@,
                ),
        ensures
            chain_trace(ws, es, gos, *ev, events@, lvl, now, monster_catalog@, item_catalog@),
            ws[0] == w0 && es[0] == e0,
            ws.last() == *world && es.last() == effects@,
        decreases ev.actions@.len() - i,
    {
        let go = apply_action(world, &ev.actions[i], ev, events, lvl, now, monster_catalog, item_catalog, effects);
        proof {
            ws = ws.push(*world);
            es = es.push(effects@);
            gos = gos.push(go);
        }
        i = i + 1;
        if !go {
            break;
        }
    }
    proof {
        assert(chain_trace(ws, es, gos, *ev, events@, lvl, now, monster_catalog@, item_catalog@));
    }
}

/// Running queued entry `q` takes the world from `w0` to `w1` and the effects
/// from `e0` to `e1`: the first event of `events` with its id runs; an id the
/// level does not define changes nothing.
pub open spec fn queued_run(
    w0: EventWorld,
    w1: EventWorld,
    e0: Seq<EventEffect>,
    e1: Seq<EventEffect>,
    q: QueuedEvent,
    events: Seq<EventDef>,
    lvl: usize,
    now: u64,
    monsters: Seq<crate::monster::MonsterDef>,
    items: Seq<crate::item::ItemDef>,
) -> bool {
    match event_index(events, q.event_id@) {
        Some(t) => event_run(w0, w1, e0, e1, events[t], events, lvl, now, monsters, items),
        None => w1 == w0 && e1 == e0,
    }
}

/// Every event's delay, plus one, stays representable from cycle `now`.
pub open spec fn level_fits(events: Seq<EventDef>, now: u64) -> bool {
    forall|i: int| 0 <= i < events.len() ==> now + (#[trigger] events[i]).delay_cycles + 1 <= u64::MAX
}

/// One cycle of event execution on level `lvl` went from `w0` to `w1` and
/// produced `effects`: the entries of the queue due on `lvl` at `now` were
/// taken off it (the others stay, in order), then run one after another in
/// queue order (see [`queued_run`]).
pub open spec fn cycle_run(
    w0: EventWorld,
    w1: EventWorld,
    effects: Seq<EventEffect>,
    events: Seq<EventDef>,
    lvl: usize,
    now: u64,
    monsters: Seq<crate::monster::MonsterDef>,
    items: Seq<crate::item::ItemDef>,
) -> bool {
    let ready = w0.queue.pending@.filter(|q: QueuedEvent| is_ready(q, lvl, now));
    exists|ws: Seq<EventWorld>, es: Seq<Seq<EventEffect>>|
        #![trigger ws.len(), es.len()]
        {
            &&& ws.len() == ready.len() + 1 && es.len() == ready.len() + 1
            &&& ws[0] == EventWorld { queue: ws[0].queue, ..w0 }
            &&& ws[0].queue.pending@ == w0.queue.pending@.filter(|q: QueuedEvent| !is_ready(q, lvl, now))
            &&& es[0] == Seq::<EventEffect>::empty()
            &&& ws.last() == w1 && es.last() == effects
            &&& forall|k: int|
                0 <= k < ready.len() ==> queued_run(
                    ws[k],
                    ws[k + 1],
                    es[k],
                    es[k + 1],
                    #[trigger] ready[k],
                    events,
                    lvl,
                    now,
                    monsters,
                    items,
                )
        }
}

/// Run every queued event due on level `lvl` at cycle `now` (see
/// [`cycle_run`]); `Loop` and `OperateSwitch` may queue further runs. Returns
/// what the presentation must do, in order.
pub fn run_events(
    world: &mut EventWorld,
    lvl: usize,
    now: u64,
    events: &Vec<EventDef>,
    monster_catalog: &MonsterCatalog,
    item_catalog: &ItemCatalog,
) -> (effects: Vec<EventEffect>)
    requires
        level_fits(events@, now),
    ensures
        cycle_run(*old(world), *final(world), effects@, events@, lvl, now, monster_catalog@, item_catalog@),
{
    let ghost w_in = *world;
    let ready = take_ready(&mut world.queue, lvl, now);
    let mut effects: Vec<EventEffect> = Vec::new();
    let ghost mut ws: Seq<EventWorld> = seq![*world];
    let ghost mut es: Seq<Seq<EventEffect>> = seq![effects@];
    let mut i: usize = 0;
    while i < ready.len()
        invariant
            i <= ready@.len(),
            level_fits(events@, now),
            ready@ == w_in.queue.pending@.filter(|q: QueuedEvent| is_ready(q, lvl, now)),
            ws.len() == i + 1 && es.len() == i + 1,
            ws[0] == (EventWorld { queue: ws[0].queue, ..w_in }),
            ws[0].queue.pending@ == w_in.queue.pending@.filter(|q: QueuedEvent| !is_ready(q, lvl, now)),
            es[0] == Seq::<EventEffect>::empty(),
            ws.last() == *world && es.last() == effects@,
            forall|k: int|
                0 <= k < i ==> queued_run(
                    ws[k],
                    ws[k + 1],
                    es[k],
                    es[k + 1],
                    #[trigger] ready@[k],
                    events@,
                    lvl,
                    now,
                    monster_catalog@,
                    item_catalog@,
                ),
        decreases ready@.len() - i,
    {
        let ghost wb = *world;
        let ghost eb = effects@;
        match find_event(events, &ready[i].event_id) {
            Some(t) => {
                assert(now + events@[t as int].delay_cycles + 1 <= u64::MAX);
                run_event(world, &events[t], events, lvl, now, monster_catalog, item_catalog, &mut effects);
            },
            None => {},
        }
        proof {
            ws = ws.push(*world);
            es = es.push(effects@);
            assert(queued_run(wb, *world, eb, effects@, ready@[i as int], events@, lvl, now, monster_catalog@, item_catalog@));
        }
        i = i + 1;
    }
    proof {
        assert(ws.len() == ready@.len() + 1 && es.len() == ready@.len() + 1);
    }
    effects
}

} // verus!
