//! What the party window shows of each member: the values behind the status
//! bars and the name card, which marks fallen and starving members.
use vstd::prelude::*;
use crate::character::PartyMember;
use crate::text::cat;

verus! {

/// Which value a status bar tracks.
#[derive(Clone, Copy, PartialEq, Eq, Debug, Structural)]
pub enum BarKind {
    Hp,
    Mp,
    Concentration,
    Satiety,
}

/// The current and maximum value a bar of kind `kind` shows for `m`: HP, MP
/// and concentration against the member's base maxima, satiety against
/// `satiety_max`.
pub open spec fn spec_bar_values(m: PartyMember, kind: BarKind, satiety_max: i32) -> (i32, i32) {
    match kind {
        BarKind::Hp => (m.state.hp, m.character.stats.max_hp),
        BarKind::Mp => (m.state.mp, m.character.stats.max_mp),
        BarKind::Concentration => (m.state.concentration, m.character.stats.concentration),
        BarKind::Satiety => (m.state.satiety, satiety_max),
    }
}

/// The values behind a status bar (see [`spec_bar_values`]).
pub fn bar_values(m: &PartyMember, kind: BarKind, satiety_max: i32) -> (r: (i32, i32))
    ensures
        r == spec_bar_values(*m, kind, satiety_max),
{
    match kind {
        BarKind::Hp => (m.state.hp, m.character.stats.max_hp),
        BarKind::Mp => (m.state.mp, m.character.stats.max_mp),
        BarKind::Concentration => (m.state.concentration, m.character.stats.concentration),
        BarKind::Satiety => (m.state.satiety, satiety_max),
    }
}

/// A member starves when hunger is on and its satiety is gone.
pub open spec fn starving(m: PartyMember, hunger_enabled: bool) -> bool {
    hunger_enabled && m.state.satiety == 0
}

/// Whether a member's card is dimmed: fallen or starving.
pub fn card_dimmed(m: &PartyMember, hunger_enabled: bool) -> (r: bool)
    ensures
        r == (m.state.down || starving(*m, hunger_enabled)),
{
    m.state.down || (hunger_enabled && m.state.satiety == 0)
}

/// The name a member's card shows: the first name, marked "気絶" when fallen,
/// else "飢餓" when starving.
pub open spec fn spec_card_label(m: PartyMember, hunger_enabled: bool) -> Seq<char> {
    if m.state.down {
        m.character.first_name@ + "  気絶"@
    } else if starving(m, hunger_enabled) {
        m.character.first_name@ + "  飢餓"@
    } else {
        m.character.first_name@
    }
}

/// The name a member's card shows (see [`spec_card_label`]).
pub fn card_label(m: &PartyMember, hunger_enabled: bool) -> (r: String)
    ensures
        r@ == spec_card_label(*m, hunger_enabled),
{
    if m.state.down {
        cat(m.character.first_name.as_str(), "  気絶")
    } else if hunger_enabled && m.state.satiety == 0 {
        cat(m.character.first_name.as_str(), "  飢餓")
    } else {
        m.character.first_name.clone()
    }
}

} // verus!
