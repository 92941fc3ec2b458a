//! Events & gimmicks: the data model (`EventDef` and its trigger / condition /
//! action pieces), the global flag store, the delayed execution queue, the
//! per-level trigger state, and the decisions that fire triggers.
use vstd::prelude::*;
use crate::dungeon::{Block, Facing};
use crate::text::same_text;

verus! {

/// What makes an event fire. Trigger blocks are matched to events by `at`.
#[derive(Clone, Debug, PartialEq, Eq)]
pub enum TriggerKind {
    /// Pressed (facing) when the party carries `key_item` (not consumed).
    Keyhole { key_item: String },
    /// A switch that fires once and stays on.
    SwitchOneWay,
    /// A switch that fires on every ON/OFF flip.
    SwitchToggle,
    /// A momentary switch: fires each press, holds no state.
    SwitchPush,
    /// A pressure plate: fires when the party enters the tile and `cond` holds.
    FloorPlate { cond: PlateCond },
    /// Fires on entering the tile; `hidden` hides its 3D marker.
    WarpPoint { hidden: bool },
    /// No self-trigger — fired only by another event's `OperateSwitch`.
    Unprompted,
}

/// Floor-plate firing condition.
#[derive(Clone, Debug, PartialEq, Eq)]
pub enum PlateCond {
    /// Any entry.
    Step,
    /// The party's combined carried weight (×100 g) is at least `min_x100g`.
    Weight { min_x100g: i32 },
    /// An item (a specific id, or `None` = anything) is placed on the tile.
    ItemPlaced { item: Option<String> },
}

/// One flag reference in an event's condition.
#[derive(Clone, Copy, Debug, PartialEq, Eq, Structural)]
pub struct FlagCond {
    pub flag: usize,
    pub must_be_on: bool,
}

/// How multiple `FlagCond`s combine.
#[derive(Clone, Copy, Debug, PartialEq, Eq, Structural)]
pub enum FlagJoin {
    And,
    Or,
}

impl Default for FlagJoin {
    fn default() -> (r: Self)
        ensures
            r == FlagJoin::And,
    {
        FlagJoin::And
    }
}

/// A liquid kind for water-level events.
#[derive(Clone, Copy, Debug, PartialEq, Eq, Structural)]
pub enum LiquidKind {
    Water,
    Fire,
    Poison,
}

impl LiquidKind {
    pub open spec fn spec_block(self) -> Block {
        match self {
            LiquidKind::Water => Block::Water,
            LiquidKind::Fire => Block::Fire,
            LiquidKind::Poison => Block::Poison,
        }
    }

    pub fn block(self) -> (r: Block)
        ensures
            r == self.spec_block(),
    {
        match self {
            LiquidKind::Water => Block::Water,
            LiquidKind::Fire => Block::Fire,
            LiquidKind::Poison => Block::Poison,
        }
    }
}

/// Party movement mode.
#[derive(Clone, Copy, Debug, PartialEq, Eq, Structural)]
pub enum MoveMode {
    /// Normal grid movement with footing / falling.
    Normal,
    /// Free flight: ignore footing.
    Free,
    /// Movement commands are refused (cutscene lock).
    Locked,
}

impl Default for MoveMode {
    fn default() -> (r: Self)
        ensures
            r == MoveMode::Normal,
    {
        MoveMode::Normal
    }
}

/// One action in an event's action list.
#[derive(Clone, Debug, PartialEq, Eq)]
pub enum EventAction {
    Warp { level: usize, x: i32, y: i32, floor: usize, facing: Facing },
    /// Set (or clear, `kind: None`) the liquid at a cell.
    SetLiquid { x: i32, y: i32, floor: usize, kind: Option<LiquidKind> },
    ChangeBgm { bgm: String },
    /// Revive every downed member and refill HP/MP.
    ReviveParty,
    SpawnMonster { monster: String, x: i32, y: i32, floor: usize },
    SpawnItem { item: String, x: i32, y: i32, floor: usize },
    SetBlock { x: i32, y: i32, floor: usize, block: Block },
    /// Open or close a door kind remotely.
    SetDoor { kind: u8, open: bool },
    StartDemo { demo: String },
    SetMoveMode { mode: MoveMode },
    /// Force another event's switch on/off (fires it if turning on).
    OperateSwitch { event: String, on: bool },
    SetFlag { flag: usize, on: bool },
    EndChain,
    /// Restart this event's chain after re-applying its delay (min 1 cycle).
    Loop,
}

/// One authored event.
#[derive(Debug, PartialEq, Eq)]
pub struct EventDef {
    pub id: String,
    pub trigger: TriggerKind,
    /// The trigger block's coordinate (x, y, floor).
    pub at: (i32, i32, usize),
    pub delay_cycles: u64,
    pub flags: Vec<FlagCond>,
    pub join: FlagJoin,
    pub actions: Vec<EventAction>,
}

impl Clone for EventDef {
    fn clone(&self) -> (r: Self) {
        EventDef {
            id: self.id.clone(),
            trigger: self.trigger.clone(),
            at: self.at,
            delay_cycles: self.delay_cycles,
            flags: self.flags.clone(),
            join: self.join,
            actions: self.actions.clone(),
        }
    }
}

/// Global event flags. Unknown indices read as off and ignore writes.
#[derive(Clone, Debug, Default)]
pub struct EventFlags {
    bits: Vec<bool>,
}

impl View for EventFlags {
    type V = Seq<bool>;

    closed spec fn view(&self) -> Seq<bool> {
        self.bits@
    }
}

/// Flag `i` of `bits` (off when out of range).
pub open spec fn flag_on(bits: Seq<bool>, i: int) -> bool {
    0 <= i < bits.len() && bits[i]
}

impl EventFlags {
    /// `count` flags, all off.
    pub fn new(count: usize) -> (r: EventFlags)
        ensures
            r@ == Seq::new(count as nat, |i: int| false),
    {
        let mut bits: Vec<bool> = Vec::new();
        let mut i: usize = 0;
        while i < count
            invariant
                i <= count,
                bits@ == Seq::new(i as nat, |k: int| false),
            decreases count - i,
        {
            bits.push(false);
            i = i + 1;
        }
        EventFlags { bits }
    }

    pub fn get(&self, i: usize) -> (r: bool)
        ensures
            r == flag_on(self@, i as int),
    {
        if i < self.bits.len() {
            self.bits[i]
        } else {
            false
        }
    }

    pub fn set(&mut self, i: usize, on: bool)
        ensures
            final(self)@ == if i < old(self)@.len() {
                old(self)@.update(i as int, on)
            } else {
                old(self)@
            },
    {
        if i < self.bits.len() {
            self.bits.set(i, on);
        }
    }

    /// The raw flag vector.
    pub fn to_vec(&self) -> (r: Vec<bool>)
        ensures
            r@ == self@,
    {
        self.bits.clone()
    }

    /// Restore from saved flags, keeping the configured flag count: flag `i`
    /// takes `saved[i]` where both exist.
    pub fn restore(&mut self, saved: &[bool])
        ensures
            final(self)@.len() == old(self)@.len(),
            forall|i: int|
                0 <= i < final(self)@.len() ==> #[trigger] final(self)@[i] == if i < saved@.len() {
                    saved@[i]
                } else {
                    old(self)@[i]
                },
    {
        let ghost before = self.bits@;
        let mut i: usize = 0;
        while i < saved.len()
            invariant
                i <= saved@.len(),
                self.bits@.len() == before.len(),
                forall|k: int|
                    0 <= k < before.len() ==> #[trigger] self.bits@[k] == if k < i {
                        saved@[k]
                    } else {
                        before[k]
                    },
            decreases saved@.len() - i,
        {
            self.set(i, saved[i]);
            i = i + 1;
        }
    }
}

/// Whether condition `c` holds on `bits`.
pub open spec fn cond_holds(bits: Seq<bool>, c: FlagCond) -> bool {
    flag_on(bits, c.flag as int) == c.must_be_on
}

/// An event's flag condition: empty conditions always hold; `And` needs all,
/// `Or` needs one.
pub open spec fn spec_flags_satisfied(bits: Seq<bool>, conds: Seq<FlagCond>, join: FlagJoin) -> bool {
    conds.len() == 0 || match join {
        FlagJoin::And => forall|i: int| 0 <= i < conds.len() ==> cond_holds(bits, #[trigger] conds[i]),
        FlagJoin::Or => exists|i: int| 0 <= i < conds.len() && cond_holds(bits, #[trigger] conds[i]),
    }
}

/// Evaluate an event's flag condition.
pub fn flags_satisfied(flags: &EventFlags, conds: &[FlagCond], join: FlagJoin) -> (r: bool)
    ensures
        r == spec_flags_satisfied(flags@, conds@, join),
{
    if conds.len() == 0 {
        return true;
    }
    let mut i: usize = 0;
    match join {
        FlagJoin::And => {
            while i < conds.len()
                invariant
                    i <= conds@.len(),
                    conds@.len() > 0,
                    join == FlagJoin::And,
                    forall|k: int| 0 <= k < i ==> cond_holds(flags@, #[trigger] conds@[k]),
                decreases conds@.len() - i,
            {
                if flags.get(conds[i].flag) != conds[i].must_be_on {
                    assert(!cond_holds(flags@, conds@[i as int]));
                    assert(!(forall|k: int| 0 <= k < conds@.len() ==> cond_holds(flags@, #[trigger] conds@[k])));
                    return false;
                }
                i = i + 1;
            }
            true
        },
        FlagJoin::Or => {
            while i < conds.len()
                invariant
                    i <= conds@.len(),
                    conds@.len() > 0,
                    join == FlagJoin::Or,
                    forall|k: int| 0 <= k < i ==> !cond_holds(flags@, #[trigger] conds@[k]),
                decreases conds@.len() - i,
            {
                if flags.get(conds[i].flag) == conds[i].must_be_on {
                    assert(cond_holds(flags@, conds@[i as int]));
                    assert(exists|k: int| 0 <= k < conds@.len() && cond_holds(flags@, #[trigger] conds@[k]));
                    return true;
                }
                i = i + 1;
            }
            false
        },
    }
}

/// A scheduled event run: execute `event_id`'s actions once `fire_cycle` is
/// reached, if the player is still on `level`.
#[derive(Clone, Debug, PartialEq, Eq)]
pub struct QueuedEvent {
    pub event_id: String,
    pub level: usize,
    pub fire_cycle: u64,
}

/// The delayed-execution queue.
#[derive(Clone, Debug, Default)]
pub struct EventQueue {
    pub pending: Vec<QueuedEvent>,
}

/// Push `ev` onto the delayed queue if its flag condition holds, due
/// `delay_cycles` after `now`. Returns whether it was enqueued.
pub fn enqueue(queue: &mut EventQueue, ev: &EventDef, level: usize, now: u64, flags: &EventFlags) -> (r:
    bool)
    requires
        now + ev.delay_cycles <= u64::MAX,
    ensures
        r == spec_flags_satisfied(flags@, ev.flags@, ev.join),
        r ==> final(queue).pending@ == old(queue).pending@.push(
            QueuedEvent { event_id: ev.id, level, fire_cycle: (now + ev.delay_cycles) as u64 },
        ),
        !r ==> final(queue).pending@ == old(queue).pending@,
{
    if !flags_satisfied(flags, ev.flags.as_slice(), ev.join) {
        return false;
    }
    queue.pending.push(
        QueuedEvent { event_id: ev.id.clone(), level, fire_cycle: now + ev.delay_cycles },
    );
    true
}

/// Whether a queued run is due on `level` at cycle `now`.
pub open spec fn is_ready(q: QueuedEvent, level: usize, now: u64) -> bool {
    q.level == level && q.fire_cycle <= now
}

/// Split the queue: the entries due on `level` at `now` are removed and
/// returned in queue order; the rest stay, in order.
pub fn take_ready(queue: &mut EventQueue, level: usize, now: u64) -> (ready: Vec<QueuedEvent>)
    ensures
        ready@ == old(queue).pending@.filter(|q: QueuedEvent| is_ready(q, level, now)),
        final(queue).pending@ == old(queue).pending@.filter(|q: QueuedEvent| !is_ready(q, level, now)),
{
    let ghost all = queue.pending@;
    let mut ready: Vec<QueuedEvent> = Vec::new();
    let mut rest: Vec<QueuedEvent> = Vec::new();
    let mut i: usize = 0;
    while i < queue.pending.len()
        invariant
            i <= all.len(),
            queue.pending@ == all,
            ready@ == all.take(i as int).filter(|q: QueuedEvent| is_ready(q, level, now)),
            rest@ == all.take(i as int).filter(|q: QueuedEvent| !is_ready(q, level, now)),
        decreases all.len() - i,
    {
        let q = &queue.pending[i];
        let copy = QueuedEvent { event_id: q.event_id.clone(), level: q.level, fire_cycle: q.fire_cycle };
        assert(all.take(i as int + 1).drop_last() =~= all.take(i as int));
        reveal_with_fuel(Seq::filter, 1);
        if q.level == level && q.fire_cycle <= now {
            ready.push(copy);
        } else {
            rest.push(copy);
        }
        i = i + 1;
    }
    assert(all.take(all.len() as int) =~= all);
    queue.pending = rest;
    ready
}

/// The value recorded for `id` in an id-keyed list (the first entry wins).
pub open spec fn lookup_bool(entries: Seq<(String, bool)>, id: Seq<char>) -> Option<bool>
    decreases entries.len(),
{
    if entries.len() == 0 {
        None
    } else if entries[0].0@ == id {
        Some(entries[0].1)
    } else {
        lookup_bool(entries.drop_first(), id)
    }
}

/// Per-level trigger state: which one-shot triggers have fired, toggle switch
/// positions, and floor-plate edge state.
#[derive(Clone, Debug, Default)]
pub struct TriggerStates {
    /// Event ids that have fired and must not fire again.
    pub fired: Vec<String>,
    /// Toggle switch positions by event id.
    pub toggled_on: Vec<(String, bool)>,
    /// Floor-plate "was satisfied last check" state by event id.
    pub plate_armed: Vec<(String, bool)>,
}

/// Whether `id` is among `ids`.
pub open spec fn has_id(ids: Seq<String>, id: Seq<char>) -> bool {
    exists|i: int| 0 <= i < ids.len() && (#[trigger] ids[i])@ == id
}

/// Whether `id` is listed in `ids`.
pub fn contains_id(ids: &Vec<String>, id: &String) -> (r: bool)
    ensures
        r == has_id(ids@, id@),
{
    let mut i: usize = 0;
    while i < ids.len()
        invariant
            i <= ids@.len(),
            forall|k: int| 0 <= k < i ==> (#[trigger] ids@[k])@ != id@,
        decreases ids@.len() - i,
    {
        if ids[i] == *id {
            return true;
        }
        i = i + 1;
    }
    false
}

/// The recorded value for `id`, if any.
pub fn get_bool(entries: &Vec<(String, bool)>, id: &String) -> (r: Option<bool>)
    ensures
        r == lookup_bool(entries@, id@),
{
    let mut i: usize = 0;
    assert(entries@.skip(0) =~= entries@);
    while i < entries.len()
        invariant
            i <= entries@.len(),
            lookup_bool(entries@, id@) == lookup_bool(entries@.skip(i as int), id@),
        decreases entries@.len() - i,
    {
        assert(entries@.skip(i as int).drop_first() =~= entries@.skip(i as int + 1));
        if entries[i].0 == *id {
            return Some(entries[i].1);
        }
        i = i + 1;
    }
    None
}

/// Record `value` for `id`: later lookups of `id` read `value`, every other
/// id reads as before.
pub fn put_bool(entries: &mut Vec<(String, bool)>, id: &String, value: bool)
    ensures
        lookup_bool(final(entries)@, id@) == Some(value),
        forall|other: Seq<char>|
            other != id@ ==> lookup_bool(final(entries)@, other) == lookup_bool(
                old(entries)@,
                other,
            ),
{
    let mut i: usize = 0;
    let ghost e0 = entries@;
    while i < entries.len()
        invariant
            i <= entries@.len(),
            entries@ == e0,
            e0 == old(entries)@,
            forall|k: int| 0 <= k < i ==> (#[trigger] e0[k]).0@ != id@,
        decreases e0.len() - i,
    {
        if entries[i].0 == *id {
            let old_entry = entries.remove(i);
            assert(old_entry == e0[i as int]);
            entries.insert(i, (old_entry.0, value));
            proof {
                lemma_lookup_bool_set(e0, i as int, value);
                assert(entries@ =~= e0.update(i as int, (e0[i as int].0, value)));
            }
            return ;
        }
        i = i + 1;
    }
    let key = id.clone();
    proof {
        lemma_lookup_bool_push(e0, key, value);
    }
    entries.push((key, value));
}

proof fn lemma_lookup_bool_set(e: Seq<(String, bool)>, i: int, value: bool)
    requires
        0 <= i < e.len(),
        forall|k: int| 0 <= k < i ==> (#[trigger] e[k]).0@ != e[i].0@,
    ensures
        ({
            let e2 = e.update(i, (e[i].0, value));
            &&& lookup_bool(e2, e[i].0@) == Some(value)
            &&& forall|other: Seq<char>|
                other != e[i].0@ ==> lookup_bool(e2, other) == lookup_bool(e, other)
        }),
    decreases i,
{
    let e2 = e.update(i, (e[i].0, value));
    if i == 0 {
        assert(e2.drop_first() =~= e.drop_first());
        assert forall|other: Seq<char>| other != e[i].0@ implies lookup_bool(e2, other)
            == lookup_bool(e, other) by {
            assert(e2[0].0@ == e[0].0@);
        }
    } else {
        let t = e.drop_first();
        assert(t[i - 1] == e[i]);
        assert forall|k: int| 0 <= k < i - 1 implies (#[trigger] t[k]).0@ != t[i - 1].0@ by {
            assert(t[k] == e[k + 1]);
        }
        lemma_lookup_bool_set(t, i - 1, value);
        assert(e2.drop_first() =~= t.update(i - 1, (e[i].0, value)));
        assert(e2[0] == e[0]);
        assert(e[0].0@ != e[i].0@);
        assert forall|other: Seq<char>| other != e[i].0@ implies lookup_bool(e2, other)
            == lookup_bool(e, other) by {
            if e[0].0@ != other {
                assert(lookup_bool(e2, other) == lookup_bool(e2.drop_first(), other));
            }
        }
    }
}

proof fn lemma_lookup_bool_push(e: Seq<(String, bool)>, s: String, value: bool)
    requires
        forall|k: int| 0 <= k < e.len() ==> (#[trigger] e[k]).0@ != s@,
    ensures
        lookup_bool(e.push((s, value)), s@) == Some(value),
        forall|other: Seq<char>|
            other != s@ ==> lookup_bool(e.push((s, value)), other) == lookup_bool(e, other),
    decreases e.len(),
{
    let e2 = e.push((s, value));
    if e.len() == 0 {
        assert(e2.drop_first() =~= Seq::<(String, bool)>::empty());
        assert forall|other: Seq<char>| other != s@ implies lookup_bool(e2, other) == lookup_bool(
            e,
            other,
        ) by {
            assert(lookup_bool(e2, other) == lookup_bool(e2.drop_first(), other));
        }
    } else {
        let t = e.drop_first();
        assert forall|k: int| 0 <= k < t.len() implies (#[trigger] t[k]).0@ != s@ by {
            assert(t[k] == e[k + 1]);
        }
        lemma_lookup_bool_push(t, s, value);
        assert(e2.drop_first() =~= t.push((s, value)));
        assert(e2[0] == e[0]);
        assert forall|other: Seq<char>| other != s@ implies lookup_bool(e2, other) == lookup_bool(
            e,
            other,
        ) by {
            if e[0].0@ == other {
                assert(lookup_bool(e2, other) == Some(e2[0].1));
                assert(lookup_bool(e, other) == Some(e[0].1));
            } else {
                assert(lookup_bool(e2, other) == lookup_bool(e2.drop_first(), other));
                assert(lookup_bool(t.push((s, value)), other) == lookup_bool(t, other));
                assert(lookup_bool(e, other) == lookup_bool(t, other));
            }
        }
    }
}

/// What pressing a trigger produced: the log line (if any) and whether the
/// switch sound plays.
#[derive(Clone, Copy, Debug, PartialEq, Eq)]
pub struct PressOutcome {
    pub message: Option<&'static str>,
    pub sound: bool,
}

/// Pressing the trigger of `ev` took the trigger state from `t0` to `t1` and
/// the queue from `q0` to `q1`, and produced `out` (see [`press_trigger`]).
pub open spec fn press_result(
    ev: EventDef,
    level: usize,
    now: u64,
    flags: Seq<bool>,
    has_key: bool,
    t0: TriggerStates,
    t1: TriggerStates,
    q0: Seq<QueuedEvent>,
    q1: Seq<QueuedEvent>,
    out: PressOutcome,
) -> bool {
    let ok = spec_flags_satisfied(flags, ev.flags@, ev.join);
    let pushed = q0.push(
        QueuedEvent { event_id: ev.id, level, fire_cycle: (now + ev.delay_cycles) as u64 },
    );
    let fired_before = has_id(t0.fired@, ev.id@);
    match ev.trigger {
        TriggerKind::Keyhole { .. } => if fired_before {
            out.message is None && !out.sound && t1 == t0
                && q1 == q0
        } else if !has_key {
            out.message == Some("かぎあなが ある。あう鍵がない") && !out.sound
                && t1 == t0 && q1 == q0
        } else if ok {
            out.message == Some("かぎを つかった。") && out.sound && t1.fired@
                == t0.fired@.push(ev.id) && t1.toggled_on == t0.toggled_on
                && t1.plate_armed == t0.plate_armed
                && q1 == pushed
        } else {
            out.message is None && !out.sound && t1 == t0
                && q1 == q0
        },
        TriggerKind::SwitchOneWay => if !fired_before && ok {
            out.message == Some("スイッチを おした。") && out.sound && t1.fired@
                == t0.fired@.push(ev.id) && t1.toggled_on == t0.toggled_on
                && t1.plate_armed == t0.plate_armed
                && q1 == pushed
        } else {
            out.message is None && !out.sound && t1 == t0
                && q1 == q0
        },
        TriggerKind::SwitchToggle => {
            let on = !(lookup_bool(t0.toggled_on@, ev.id@) == Some(true));
            &&& lookup_bool(t1.toggled_on@, ev.id@) == Some(on)
            &&& forall|other: Seq<char>|
                other != ev.id@ ==> lookup_bool(t1.toggled_on@, other)
                    == lookup_bool(t0.toggled_on@, other)
            &&& t1.fired == t0.fired
            &&& t1.plate_armed == t0.plate_armed
            &&& if ok {
                out.message == Some(if on {
                    "スイッチ ON"
                } else {
                    "スイッチ OFF"
                }) && out.sound && q1 == pushed
            } else {
                out.message is None && !out.sound && q1 == q0
            }
        },
        TriggerKind::SwitchPush => t1 == t0 && if ok {
            out.message == Some("スイッチを おした。") && out.sound && q1 == pushed
        } else {
            out.message is None && !out.sound && q1 == q0
        },
        _ => out.message is None && !out.sound && t1 == t0
            && q1 == q0,
    }
}

/// Press the trigger of `ev` (the party faces its block): a keyhole fires once
/// when the party carries its key, a one-way switch fires once, a toggle switch
/// flips its recorded position and fires, a push switch fires every time. A
/// firing only happens when the event's flag condition holds (see
/// [`enqueue`]); one-shot triggers are then recorded as fired.
pub fn press_trigger(
    ev: &EventDef,
    level: usize,
    now: u64,
    flags: &EventFlags,
    has_key: bool,
    triggers: &mut TriggerStates,
    queue: &mut EventQueue,
) -> (out: PressOutcome)
    requires
        now + ev.delay_cycles <= u64::MAX,
    ensures
        press_result(
            *ev,
            level,
            now,
            flags@,
            has_key,
            *old(triggers),
            *final(triggers),
            old(queue).pending@,
            final(queue).pending@,
            out,
        ),
{
    let none = PressOutcome { message: None, sound: false };
    match &ev.trigger {
        TriggerKind::Keyhole { .. } => {
            if contains_id(&triggers.fired, &ev.id) {
                return none;
            }
            if !has_key {
                return PressOutcome { message: Some("かぎあなが ある。あう鍵がない"), sound: false };
            }
            if enqueue(queue, ev, level, now, flags) {
                triggers.fired.push(ev.id.clone());
                PressOutcome { message: Some("かぎを つかった。"), sound: true }
            } else {
                none
            }
        },
        TriggerKind::SwitchOneWay => {
            if !contains_id(&triggers.fired, &ev.id) && enqueue(queue, ev, level, now, flags) {
                triggers.fired.push(ev.id.clone());
                PressOutcome { message: Some("スイッチを おした。"), sound: true }
            } else {
                none
            }
        },
        TriggerKind::SwitchToggle => {
            let on = !(get_bool(&triggers.toggled_on, &ev.id) == Some(true));
            put_bool(&mut triggers.toggled_on, &ev.id, on);
            if enqueue(queue, ev, level, now, flags) {
                PressOutcome {
                    message: Some(
                        if on {
                            "スイッチ ON"
                        } else {
                            "スイッチ OFF"
                        },
                    ),
                    sound: true,
                }
            } else {
                none
            }
        },
        TriggerKind::SwitchPush => {
            if enqueue(queue, ev, level, now, flags) {
                PressOutcome { message: Some("スイッチを おした。"), sound: true }
            } else {
                none
            }
        },
        _ => none,
    }
}

/// Whether a floor plate's condition holds: stepping needs the party on the
/// tile, weight needs the party on the tile carrying at least the minimum, an
/// item condition needs a matching item lying on the tile (`items_on_tile`
/// lists the ids lying there).
pub open spec fn spec_plate_satisfied(
    cond: PlateCond,
    on_tile: bool,
    party_weight: int,
    items_on_tile: Seq<String>,
) -> bool {
    match cond {
        PlateCond::Step => on_tile,
        PlateCond::Weight { min_x100g } => on_tile && party_weight >= min_x100g,
        PlateCond::ItemPlaced { item } => match item {
            None => items_on_tile.len() > 0,
            Some(id) => has_id(items_on_tile, id@),
        },
    }
}

/// Evaluate a floor plate's condition.
pub fn plate_satisfied(cond: &PlateCond, on_tile: bool, party_weight: i32, items_on_tile: &Vec<String>) -> (r:
    bool)
    ensures
        r == spec_plate_satisfied(*cond, on_tile, party_weight as int, items_on_tile@),
{
    match cond {
        PlateCond::Step => on_tile,
        PlateCond::Weight { min_x100g } => on_tile && party_weight >= *min_x100g,
        PlateCond::ItemPlaced { item } => match item {
            None => items_on_tile.len() > 0,
            Some(id) => contains_id(items_on_tile, id),
        },
    }
}

/// The other plate conditions: a step plate is pressed exactly when the party
/// stands on it; an any-item plate exactly when something lies on it; an
/// item plate exactly when an item of its id lies on it (wherever the party
/// is).
pub proof fn lemma_plate_conditions(on_tile: bool, party_weight: int, items: Seq<String>, id: String)
    ensures
        spec_plate_satisfied(PlateCond::Step, on_tile, party_weight, items) == on_tile,
        spec_plate_satisfied(PlateCond::ItemPlaced { item: None }, on_tile, party_weight, items) == (items.len()
            > 0),
        spec_plate_satisfied(PlateCond::ItemPlaced { item: Some(id) }, on_tile, party_weight, items) == exists|i: int|
            0 <= i < items.len() && (#[trigger] items[i])@ == id@,
{
}

/// A weight plate is pressed exactly when the party stands on it carrying at
/// least the plate's minimum: a lighter party never presses it, a party off
/// the tile never does, and any heavier party on the tile presses it too.
pub proof fn lemma_weight_plate(min_x100g: i32, on_tile: bool, party_weight: int, heavier: int, items: Seq<String>)
    requires
        party_weight <= heavier,
    ensures
        spec_plate_satisfied(PlateCond::Weight { min_x100g }, on_tile, party_weight, items) <==> (on_tile
            && min_x100g <= party_weight),
        party_weight < min_x100g ==> !spec_plate_satisfied(PlateCond::Weight { min_x100g }, on_tile, party_weight, items),
        spec_plate_satisfied(PlateCond::Weight { min_x100g }, on_tile, party_weight, items)
            ==> spec_plate_satisfied(PlateCond::Weight { min_x100g }, on_tile, heavier, items),
{
}

/// A floor plate check of `ev` with its condition `satisfied` took the
/// trigger state from `t0` to `t1` and the queue from `q0` to `q1`; `fired`
/// says whether the event was queued (see [`plate_step`]).
pub open spec fn plate_result(
    ev: EventDef,
    satisfied: bool,
    level: usize,
    now: u64,
    flags: Seq<bool>,
    t0: TriggerStates,
    t1: TriggerStates,
    q0: Seq<QueuedEvent>,
    q1: Seq<QueuedEvent>,
    fired: bool,
) -> bool {
    let was = lookup_bool(t0.plate_armed@, ev.id@) == Some(true);
    let ok = spec_flags_satisfied(flags, ev.flags@, ev.join);
    &&& fired == (satisfied && !was && ok)
    &&& fired ==> q1 == q0.push(QueuedEvent { event_id: ev.id, level, fire_cycle: (now + ev.delay_cycles) as u64 })
    &&& !fired ==> q1 == q0
    &&& lookup_bool(t1.plate_armed@, ev.id@) == Some(satisfied)
    &&& forall|other: Seq<char>|
        other != ev.id@ ==> lookup_bool(t1.plate_armed@, other) == lookup_bool(t0.plate_armed@, other)
    &&& t1.fired == t0.fired
    &&& t1.toggled_on == t0.toggled_on
}

/// A floor plate fires on the rising edge of its condition: when it holds now,
/// did not hold at the last check, and the event's flags allow it. The edge
/// state is updated to `satisfied` either way. Returns whether it fired.
pub fn plate_step(
    ev: &EventDef,
    satisfied: bool,
    level: usize,
    now: u64,
    flags: &EventFlags,
    triggers: &mut TriggerStates,
    queue: &mut EventQueue,
) -> (fired: bool)
    requires
        now + ev.delay_cycles <= u64::MAX,
    ensures
        plate_result(
            *ev,
            satisfied,
            level,
            now,
            flags@,
            *old(triggers),
            *final(triggers),
            old(queue).pending@,
            final(queue).pending@,
            fired,
        ),
{
    let was = get_bool(&triggers.plate_armed, &ev.id) == Some(true);
    let fired = if satisfied && !was {
        enqueue(queue, ev, level, now, flags)
    } else {
        false
    };
    put_bool(&mut triggers.plate_armed, &ev.id, satisfied);
    fired
}

} // verus!
