//! Cycle-driven recovery. Game time advances in fixed cycles; the systems that
//! consume game time react to the number of cycles that passed.
use vstd::prelude::*;
use crate::character::{CharacterState, Party, PartyMember};

verus! {

/// A member after `cycles` cycles of concentration recovery: conscious,
/// non-starving members regain one point per cycle, up to their maximum.
pub open spec fn spec_recovered(m: PartyMember, cycles: int, hunger_enabled: bool) -> PartyMember {
    if m.state.down || (hunger_enabled && m.state.satiety == 0) {
        m
    } else {
        let max = m.character.stats.concentration;
        let c = if m.state.concentration + cycles < max {
            m.state.concentration + cycles
        } else {
            max as int
        };
        PartyMember { state: CharacterState { concentration: c as i32, ..m.state }, ..m }
    }
}

/// On `cycles` elapsed cycles, restore one concentration per cycle to every
/// conscious party member, up to their maximum. Knocked-out members don't
/// recover; nor do starving members when hunger is enabled. Nothing changes
/// when no cycle passed.
pub fn recover_concentration(party: &mut Party, cycles: i32, hunger_enabled: bool)
    requires
        cycles >= 0,
        forall|i: int|
            0 <= i < old(party).members@.len() ==> #[trigger] old(party).members@[i].state.concentration
                + cycles <= i32::MAX,
    ensures
        final(party).members@.len() == old(party).members@.len(),
        forall|i: int|
            0 <= i < final(party).members@.len() ==> #[trigger] final(party).members@[i] == (if cycles
                == 0 {
                old(party).members@[i]
            } else {
                spec_recovered(old(party).members@[i], cycles as int, hunger_enabled)
            }),
{
    if cycles == 0 {
        return ;
    }
    let ghost old_members = party.members@;
    let mut i: usize = 0;
    while i < party.members.len()
        invariant
            i <= party.members@.len(),
            party.members@.len() == old_members.len(),
            cycles > 0,
            forall|k: int|
                0 <= k < old_members.len() ==> #[trigger] old_members[k].state.concentration
                    + cycles <= i32::MAX,
            forall|k: int|
                0 <= k < i ==> #[trigger] party.members@[k] == spec_recovered(
                    old_members[k],
                    cycles as int,
                    hunger_enabled,
                ),
            forall|k: int| i <= k < old_members.len() ==> #[trigger] party.members@[k] == old_members[k],
        decreases old_members.len() - i,
    {
        let mut m = party.members.remove(i);
        assert(m == old_members[i as int]);
        if !(m.state.down || (hunger_enabled && m.state.satiety == 0)) {
            let max = m.character.stats.concentration;
            let c = m.state.concentration + cycles;
            m.state.concentration = if c < max {
                c
            } else {
                max
            };
        }
        party.members.insert(i, m);
        i = i + 1;
    }
}

} // verus!
