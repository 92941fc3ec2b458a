//! The data screen's item actions and the resting party. A button press acts
//! on the selected member and slot; resting heals the party a little every
//! few cycles while the screen is open.
use vstd::prelude::*;
use crate::character::{Party, PartyMember, CharacterState, eat_outcome, spec_effective, effective_fits};
use crate::item::{ItemCatalog, ItemDef, ItemKind, SlotRef, spec_equip, spec_unequip, InventoryView};
use crate::magic::{MagicCatalog, MagicDef, MagicKind, CastTarget, learn_outcome, drink_outcome, potion_at, ally_fits, learn_scroll, drink_potion};
use crate::rules::HungerRules;
use crate::ids::texts;
use crate::interact::inventories_wf;

verus! {

/// An action button of the data screen's item view.
#[derive(Clone, Copy, PartialEq, Eq, Debug, Structural)]
pub enum ActionKind {
    Equip,
    Unequip,
    Eat,
    Place,
    Read,
    Drink,
    Zzz,
}

/// What a button press did besides changing the member.
#[derive(Clone, Debug, PartialEq, Eq)]
pub struct ActionOutcome {
    /// Lines for the message log, in order.
    pub messages: Vec<String>,
    /// The selected slot afterwards (cleared once its item left or moved).
    pub selected: Option<SlotRef>,
    /// Whether the party rests afterwards.
    pub resting: bool,
    /// A slot whose item is to be put down on the floor.
    pub place: Option<SlotRef>,
}

/// The definition of the item the member holds at `slot`, if both exist.
pub open spec fn slot_def(m: PartyMember, slot: SlotRef, defs: Seq<ItemDef>) -> Option<ItemDef> {
    match m.inventory@.item_at(slot) {
        Some(it) => crate::item::lookup_item(defs, it.def_id@),
        None => None,
    }
}

/// Eating `def` keeps every number inside `i32`.
pub open spec fn eat_fits(m: PartyMember, def: ItemDef, hunger: HungerRules) -> bool {
    &&& i32::MIN <= m.state.hp + def.nutrition <= i32::MAX
    &&& hunger.enabled ==> i32::MIN <= def.nutrition * hunger.satiety_per_nutrition <= i32::MAX
    &&& hunger.enabled ==> i32::MIN <= m.state.satiety + def.nutrition * hunger.satiety_per_nutrition
        <= i32::MAX
}

/// The arithmetic of every action stays inside `i32` for member `m`.
pub open spec fn action_fits(
    m: PartyMember,
    action: ActionKind,
    selected: Option<SlotRef>,
    defs: Seq<ItemDef>,
    magics: MagicCatalog,
    hunger: HungerRules,
) -> bool {
    selected matches Some(slot) ==> {
        &&& action == ActionKind::Eat ==> (slot_def(m, slot, defs) matches Some(d) ==> eat_fits(m, d, hunger))
        &&& action == ActionKind::Drink ==> (potion_at(m.inventory@, slot) matches Some(id) ==> (
        magics.spec_get(id@) matches Some(d) ==> ally_fits(m, d, hunger)))
    }
}

/// The member `m0` with the item at `slot` removed from its inventory.
pub open spec fn without_slot(m0: PartyMember, m1: PartyMember, slot: SlotRef) -> bool {
    m1.character == m0.character && m1.state == m0.state && m1.inventory@ == m0.inventory@.spec_take(slot).0
}

/// The description line a scroll shows before it is read: that of the magic
/// it teaches, when the magic is known and its description is not empty.
pub open spec fn scroll_lines(def: ItemDef, magics: MagicCatalog) -> Seq<Seq<char>> {
    match def.teaches {
        Some(id) => match magics.spec_get(id@) {
            Some(md) => if md.description@.len() > 0 {
                seq![md.description@]
            } else {
                seq![]
            },
            None => seq![],
        },
        None => seq![],
    }
}

/// The outcome leaves the selection and rest state alone and says `msgs`.
pub open spec fn plain(out: ActionOutcome, selected: Option<SlotRef>, resting: bool, msgs: Seq<Seq<char>>) -> bool {
    out.selected == selected && out.resting == resting && out.place is None && texts(out.messages@) == msgs
}

/// The text of an answer, whichever way it went.
pub open spec fn answer_text(r: Result<String, String>) -> Seq<char> {
    match r {
        Ok(m) => m@,
        Err(e) => e@,
    }
}

fn answer_string(r: Result<String, String>) -> (s: String)
    ensures
        s@ == answer_text(r),
{
    match r {
        Ok(m) => m,
        Err(e) => e,
    }
}

fn one_line(s: String) -> (v: Vec<String>)
    ensures
        texts(v@) == seq![s@],
{
    let mut v: Vec<String> = Vec::new();
    v.push(s);
    assert(texts(v@) =~= seq![s@]);
    v
}

fn fixed_line(s: &str) -> (v: Vec<String>)
    ensures
        texts(v@) == seq![s@],
{
    one_line(String::from_str(s))
}

/// The definition of the item at `slot`, looked up in `catalog`.
fn slot_item_def<'a>(member: &PartyMember, slot: SlotRef, catalog: &'a ItemCatalog) -> (r: Option<&'a ItemDef>)
    requires
        member.inventory.wf(),
    ensures
        match slot_def(*member, slot, catalog@) {
            Some(d) => r == Some(&d),
            None => r is None,
        },
{
    let id = match member.inventory.get(slot) {
        Some(it) => it.def_id.clone(),
        None => {
            return None;
        },
    };
    catalog.get(id.as_str())
}

/// Press an item-view action button for `member`, with `selected` the slot
/// last clicked and `resting` / `enemy_near` the rest state and whether a
/// monster is close.
///
/// - Zzz toggles resting, but a rest does not begin with a monster near.
/// - Every other action needs a selected slot.
/// - Equip moves the item into its equipment slot (clearing the selection);
///   Unequip takes an equipment slot's item back into the first free slot.
/// - Eat and Read need an item whose definition is known; the item is used up
///   (and the selection cleared) when eating or learning succeeds. Read takes
///   scrolls only and first shows the taught magic's description.
/// - Drink drinks the potion at the slot.
/// - Place asks for the item to be put on the floor.
pub fn press_action(
    member: &mut PartyMember,
    action: ActionKind,
    selected: Option<SlotRef>,
    resting: bool,
    enemy_near: bool,
    catalog: &ItemCatalog,
    magics: &MagicCatalog,
    hunger: &HungerRules,
) -> (out: ActionOutcome)
    requires
        old(member).inventory.wf(),
        effective_fits(*old(member), catalog@),
        action_fits(*old(member), action, selected, catalog@, *magics, *hunger),
    ensures
        final(member).inventory.wf(),
        action == ActionKind::Zzz ==> {
            &&& *final(member) == *old(member)
            &&& if !resting && enemy_near {
                plain(out, selected, resting, seq!["モンスターが近くにいる!"@])
            } else if resting {
                plain(out, selected, false, seq!["休息をやめた"@])
            } else {
                plain(out, selected, true, seq!["休息を始めた"@])
            }
        },
        action != ActionKind::Zzz && selected is None ==> *final(member) == *old(member) && plain(
            out,
            selected,
            resting,
            seq!["スロットを選択してください"@],
        ),
        selected matches Some(slot) ==> action == ActionKind::Equip ==> {
            &&& final(member).character == old(member).character
            &&& final(member).state == old(member).state
            &&& match spec_equip(old(member).inventory@, slot, catalog@) {
                Ok(v) => final(member).inventory@ == v && plain(out, None, resting, seq!["装備した"@]),
                Err(e) => final(member).inventory@ == old(member).inventory@ && plain(
                    out,
                    selected,
                    resting,
                    seq![e],
                ),
            }
        },
        selected matches Some(slot) ==> action == ActionKind::Unequip ==> {
            &&& final(member).character == old(member).character
            &&& final(member).state == old(member).state
            &&& match slot {
                SlotRef::Equip(s) => match spec_unequip(old(member).inventory@, s) {
                    Ok(v) => final(member).inventory@ == v && plain(out, selected, resting, seq!["はずした"@]),
                    Err(e) => final(member).inventory@ == old(member).inventory@ && plain(
                        out,
                        selected,
                        resting,
                        seq![e],
                    ),
                },
                _ => final(member).inventory@ == old(member).inventory@ && plain(
                    out,
                    selected,
                    resting,
                    seq!["装備スロットではない"@],
                ),
            }
        },
        selected matches Some(slot) ==> action == ActionKind::Eat ==> match slot_def(
            *old(member),
            slot,
            catalog@,
        ) {
            None => *final(member) == *old(member) && plain(out, selected, resting, seq!["スロットが空だ"@]),
            Some(d) => exists|mid: PartyMember, r: Result<String, String>|
                {
                    &&& #[trigger] eat_outcome(*old(member), mid, r, d, catalog@, *hunger)
                    &&& if r is Ok {
                        without_slot(mid, *final(member), slot) && plain(out, None, resting, seq![answer_text(r)])
                    } else {
                        *final(member) == mid && plain(out, selected, resting, seq![answer_text(r)])
                    }
                },
        },
        selected matches Some(slot) ==> action == ActionKind::Read ==> match slot_def(
            *old(member),
            slot,
            catalog@,
        ) {
            None => *final(member) == *old(member) && plain(out, selected, resting, seq!["スロットが空だ"@]),
            Some(d) => if d.kind != ItemKind::Scroll {
                *final(member) == *old(member) && plain(out, selected, resting, seq!["巻物ではない"@])
            } else {
                exists|mid: PartyMember, r: Result<String, String>|
                    {
                        &&& #[trigger] learn_outcome(*old(member), mid, r, d, *magics, catalog@)
                        &&& if r is Ok {
                            without_slot(mid, *final(member), slot) && plain(
                                out,
                                None,
                                resting,
                                scroll_lines(d, *magics).push(answer_text(r)),
                            )
                        } else {
                            *final(member) == mid && plain(
                                out,
                                selected,
                                resting,
                                scroll_lines(d, *magics).push(answer_text(r)),
                            )
                        }
                    }
            },
        },
        selected matches Some(slot) ==> action == ActionKind::Drink ==> exists|r: Result<String, String>|
            {
                &&& #[trigger] drink_outcome(*old(member), *final(member), r, slot, *magics, catalog@, *hunger)
                &&& plain(out, selected, resting, seq![answer_text(r)])
            },
        selected matches Some(slot) ==> action == ActionKind::Place ==> {
            &&& *final(member) == *old(member)
            &&& if old(member).inventory@.item_at(slot) is Some {
                out.selected is None && out.resting == resting && out.place == Some(slot) && texts(
                    out.messages@,
                ) == Seq::<Seq<char>>::empty()
            } else {
                plain(out, selected, resting, seq!["スロットが空だ"@])
            }
        },
{
    if action == ActionKind::Zzz {
        if !resting && enemy_near {
            return ActionOutcome {
                messages: fixed_line("モンスターが近くにいる!"),
                selected,
                resting,
                place: None,
            };
        }
        let now = !resting;
        let line = if now {
            fixed_line("休息を始めた")
        } else {
            fixed_line("休息をやめた")
        };
        return ActionOutcome { messages: line, selected, resting: now, place: None };
    }
    let slot = match selected {
        None => {
            return ActionOutcome {
                messages: fixed_line("スロットを選択してください"),
                selected,
                resting,
                place: None,
            };
        },
        Some(s) => s,
    };
    match action {
        ActionKind::Equip => {
            match member.inventory.equip(slot, catalog) {
                Ok(()) => ActionOutcome { messages: fixed_line("装備した"), selected: None, resting, place: None },
                Err(e) => ActionOutcome { messages: one_line(e), selected, resting, place: None },
            }
        },
        ActionKind::Unequip => {
            match slot {
                SlotRef::Equip(s) => match member.inventory.unequip(s) {
                    Ok(()) => ActionOutcome { messages: fixed_line("はずした"), selected, resting, place: None },
                    Err(e) => ActionOutcome { messages: one_line(e), selected, resting, place: None },
                },
                _ => ActionOutcome {
                    messages: fixed_line("装備スロットではない"),
                    selected,
                    resting,
                    place: None,
                },
            }
        },
        ActionKind::Eat => {
            let d = match slot_item_def(member, slot, catalog) {
                None => {
                    return ActionOutcome {
                        messages: fixed_line("スロットが空だ"),
                        selected,
                        resting,
                        place: None,
                    };
                },
                Some(d) => d,
            };
            let r = member.eat(d, catalog, hunger);
            let ok = r.is_ok();
            let line = answer_string(r);
            if ok {
                let _ = member.inventory.take(slot);
                ActionOutcome { messages: one_line(line), selected: None, resting, place: None }
            } else {
                ActionOutcome { messages: one_line(line), selected, resting, place: None }
            }
        },
        ActionKind::Read => {
            let d = match slot_item_def(member, slot, catalog) {
                None => {
                    return ActionOutcome {
                        messages: fixed_line("スロットが空だ"),
                        selected,
                        resting,
                        place: None,
                    };
                },
                Some(d) => d,
            };
            if d.kind != ItemKind::Scroll {
                return ActionOutcome { messages: fixed_line("巻物ではない"), selected, resting, place: None };
            }
            let mut lines: Vec<String> = Vec::new();
            match &d.teaches {
                Some(mid) => match magics.get(mid.as_str()) {
                    Some(md) => {
                        if !md.description.as_str().is_empty() {
                            lines.push(md.description.clone());
                        }
                    },
                    None => {},
                },
                None => {},
            }
            assert(texts(lines@) =~= scroll_lines(*d, *magics));
            let r = learn_scroll(member, d, magics, catalog);
            let ok = r.is_ok();
            lines.push(answer_string(r));
            assert(texts(lines@) =~= scroll_lines(*d, *magics).push(answer_text(r)));
            if ok {
                let _ = member.inventory.take(slot);
                ActionOutcome { messages: lines, selected: None, resting, place: None }
            } else {
                ActionOutcome { messages: lines, selected, resting, place: None }
            }
        },
        ActionKind::Drink => {
            let r = drink_potion(member, slot, magics, catalog, hunger);
            ActionOutcome { messages: one_line(answer_string(r)), selected, resting, place: None }
        },
        ActionKind::Place => {
            if member.inventory.get(slot).is_some() {
                let messages: Vec<String> = Vec::new();
                assert(texts(messages@) =~= Seq::<Seq<char>>::empty());
                ActionOutcome { messages, selected: None, resting, place: Some(slot) }
            } else {
                ActionOutcome { messages: fixed_line("スロットが空だ"), selected, resting, place: None }
            }
        },
        ActionKind::Zzz => ActionOutcome { messages: Vec::new(), selected, resting, place: None },
    }
}

/// Cycles between two heals of a resting party.
pub const REST_CYCLES: u64 = 10;

/// A value after `n` heals of one point each, none of which goes above `max`.
pub open spec fn rest_value(v: int, max: int, n: nat) -> int {
    if n == 0 {
        v
    } else if v + n < max {
        v + n
    } else {
        max
    }
}

/// Resting never takes HP or MP above the maximum, and never lowers a value
/// that was within it.
pub proof fn lemma_rest_bounded(v: int, max: int, n: nat)
    ensures
        n > 0 ==> rest_value(v, max, n) <= max,
        v <= max ==> v <= rest_value(v, max, n),
{
}

/// Member `m` after `n` heals: HP and MP rise by one per heal up to the
/// member's effective maxima. Fallen members, and starving members when
/// hunger is on, do not recover.
pub open spec fn rested(m: PartyMember, defs: Seq<ItemDef>, n: nat, hunger_enabled: bool) -> PartyMember {
    if m.state.down || (hunger_enabled && m.state.satiety == 0) {
        m
    } else {
        let eff = spec_effective(m, defs);
        PartyMember {
            state: CharacterState {
                hp: rest_value(m.state.hp as int, eff.max_hp as int, n) as i32,
                mp: rest_value(m.state.mp as int, eff.max_mp as int, n) as i32,
                ..m.state
            },
            ..m
        }
    }
}

/// Every member's effective stats can be worked out.
pub open spec fn members_fit(ms: Seq<PartyMember>, defs: Seq<ItemDef>) -> bool {
    forall|i: int| 0 <= i < ms.len() ==> effective_fits(#[trigger] ms[i], defs)
}

fn rest_one(v: i32, max: i32, n: u64) -> (r: i32)
    ensures
        r == rest_value(v as int, max as int, n as nat),
{
    if n == 0 {
        v
    } else if (v as i128) + (n as i128) < max as i128 {
        (v as i128 + n as i128) as i32
    } else {
        max
    }
}

/// Heal the party `n` times (see [`rested`]).
pub fn rest_party(party: &mut Party, n: u64, catalog: &ItemCatalog, hunger_enabled: bool)
    requires
        inventories_wf(old(party).members@),
        members_fit(old(party).members@, catalog@),
    ensures
        final(party).members@ == old(party).members@.map_values(
            |m: PartyMember| rested(m, catalog@, n as nat, hunger_enabled),
        ),
{
    let ghost ms0 = party.members@;
    let mut i: usize = 0;
    while i < party.members.len()
        invariant
            i <= party.members@.len() == ms0.len(),
            inventories_wf(ms0),
            members_fit(ms0, catalog@),
            forall|k: int| 0 <= k < i ==> #[trigger] party.members@[k] == rested(ms0[k], catalog@, n as nat, hunger_enabled),
            forall|k: int| i <= k < ms0.len() ==> #[trigger] party.members@[k] == ms0[k],
        decreases ms0.len() - i,
    {
        let mut m = party.members.remove(i);
        assert(m == ms0[i as int]);
        if !(m.state.down || (hunger_enabled && m.state.satiety == 0)) {
            let eff = m.effective_stats(catalog);
            m.state.hp = rest_one(m.state.hp, eff.max_hp, n);
            m.state.mp = rest_one(m.state.mp, eff.max_mp, n);
        }
        party.members.insert(i, m);
        i = i + 1;
    }
    assert(party.members@ =~= ms0.map_values(|m: PartyMember| rested(m, catalog@, n as nat, hunger_enabled)));
}

/// Rest state after `cycles` more cycles: `(resting, accum, message)`.
/// A monster in view ends the rest (with a message). While the data screen is
/// open and the party rests, the cycles add up and every [`REST_CYCLES`] of
/// them heal the party once (see [`rest_party`]); otherwise the count starts
/// over.
pub fn rest_tick(
    party: &mut Party,
    resting: bool,
    accum: u64,
    cycles: u64,
    screen_open: bool,
    enemy_near: bool,
    catalog: &ItemCatalog,
    hunger: &HungerRules,
) -> (r: (bool, u64, Option<String>))
    requires
        inventories_wf(old(party).members@),
        members_fit(old(party).members@, catalog@),
        accum + cycles <= u64::MAX,
    ensures
        r.0 == (resting && !enemy_near),
        match r.2 {
            Some(msg) => resting && enemy_near && msg@ == "モンスターが現れて 休息を中断した!"@,
            None => !(resting && enemy_near),
        },
        if screen_open && r.0 {
            &&& r.1 == (accum + cycles) % (REST_CYCLES as int)
            &&& final(party).members@ == old(party).members@.map_values(
                |m: PartyMember| rested(m, catalog@, ((accum + cycles) / (REST_CYCLES as int)) as nat, hunger.enabled),
            )
        } else {
            r.1 == 0 && final(party).members@ == old(party).members@
        },
{
    let mut now = resting;
    let mut msg: Option<String> = None;
    if resting && enemy_near {
        now = false;
        msg = Some(String::from_str("モンスターが現れて 休息を中断した!"));
        proof {
            reveal_strlit("モンスターが現れて 休息を中断した!");
        }
    }
    if !screen_open || !now {
        return (now, 0, msg);
    }
    let total = accum + cycles;
    let heals = total / REST_CYCLES;
    rest_party(party, heals, catalog, hunger.enabled);
    (now, total % REST_CYCLES, msg)
}

/// Where a spell cast from the data screen goes: attack spells at the enemy
/// in front, revive spells at the first fallen member, every other spell at
/// the chosen ally `ally`.
pub fn cast_target_for(def: &MagicDef, ally: usize) -> (t: CastTarget)
    ensures
        t == (if def.projectiles > 0 {
            CastTarget::FrontEnemy
        } else if def.kind is Revive {
            CastTarget::DownedAuto
        } else {
            CastTarget::Member(ally)
        }),
{
    if def.is_attack() {
        CastTarget::FrontEnemy
    } else if matches!(def.kind, MagicKind::Revive { .. }) {
        CastTarget::DownedAuto
    } else {
        CastTarget::Member(ally)
    }
}

} // verus!
