//! Which sound effects play: each requested effect once per frame, none when
//! sound is off, footsteps only when enabled; and the level-up fanfare when a
//! member's level rose.
use vstd::prelude::*;

verus! {

/// Every sound effect the game can request.
#[derive(Clone, Copy, PartialEq, Eq, Debug, Structural)]
pub enum Se {
    Footstep,
    DoorOpen,
    DoorClose,
    AttackHit,
    Cast,
    Impact,
    Land,
    Pickup,
    LevelUp,
    Switch,
    Warp,
}

/// The asset path of an effect's sound file.
pub open spec fn se_path(se: Se) -> Seq<char> {
    match se {
        Se::Footstep => "audio/se/footstep.ogg"@,
        Se::DoorOpen => "audio/se/door_open.ogg"@,
        Se::DoorClose => "audio/se/door_close.ogg"@,
        Se::AttackHit => "audio/se/melee_hit.ogg"@,
        Se::Cast => "audio/se/spell_cast.ogg"@,
        Se::Impact => "audio/se/magic_impact.ogg"@,
        Se::Land => "audio/se/fall_thud.ogg"@,
        Se::Pickup => "audio/se/item_pickup.ogg"@,
        Se::LevelUp => "audio/se/level_up.ogg"@,
        Se::Switch => "audio/se/switch_click.ogg"@,
        Se::Warp => "audio/se/warp.ogg"@,
    }
}

impl Se {
    /// The asset path of this effect's sound file (see [`se_path`]).
    pub fn path(self) -> (r: &'static str)
        ensures
            r@ == se_path(self),
    {
        match self {
            Se::Footstep => "audio/se/footstep.ogg",
            Se::DoorOpen => "audio/se/door_open.ogg",
            Se::DoorClose => "audio/se/door_close.ogg",
            Se::AttackHit => "audio/se/melee_hit.ogg",
            Se::Cast => "audio/se/spell_cast.ogg",
            Se::Impact => "audio/se/magic_impact.ogg",
            Se::Land => "audio/se/fall_thud.ogg",
            Se::Pickup => "audio/se/item_pickup.ogg",
            Se::LevelUp => "audio/se/level_up.ogg",
            Se::Switch => "audio/se/switch_click.ogg",
            Se::Warp => "audio/se/warp.ogg",
        }
    }
}

/// Whether an effect is heard: sound is on (not muted, volume above zero),
/// and footsteps only when they are enabled.
pub open spec fn audible(se: Se, muted: bool, volume_on: bool, footsteps: bool) -> bool {
    !muted && volume_on && (se != Se::Footstep || footsteps)
}

/// The effects to play for this frame's requests `reqs`, in request order:
/// the first request of each effect only, and only audible ones.
pub open spec fn to_play(reqs: Seq<Se>, muted: bool, volume_on: bool, footsteps: bool) -> Seq<Se>
    decreases reqs.len(),
{
    if reqs.len() == 0 {
        Seq::empty()
    } else {
        let last = reqs.last();
        let rest = reqs.drop_last();
        to_play(rest, muted, volume_on, footsteps) + if !rest.contains(last) && audible(
            last,
            muted,
            volume_on,
            footsteps,
        ) {
            seq![last]
        } else {
            Seq::empty()
        }
    }
}

/// The effects to play this frame (see [`to_play`]).
pub fn effects_to_play(reqs: &Vec<Se>, muted: bool, volume_on: bool, footsteps: bool) -> (r: Vec<Se>)
    ensures
        r@ == to_play(reqs@, muted, volume_on, footsteps),
{
    let mut out: Vec<Se> = Vec::new();
    let mut i: usize = 0;
    while i < reqs.len()
        invariant
            i <= reqs@.len(),
            out@ == to_play(reqs@.take(i as int), muted, volume_on, footsteps),
        decreases reqs@.len() - i,
    {
        let se = reqs[i];
        assert(reqs@.take(i as int + 1).drop_last() =~= reqs@.take(i as int));
        let mut dup = false;
        let mut k: usize = 0;
        while k < i
            invariant
                k <= i < reqs@.len(),
                dup == exists|j: int| 0 <= j < k && reqs@[j] == se,
            decreases i - k,
        {
            if reqs[k] == se {
                dup = true;
            }
            k = k + 1;
        }
        assert(dup == reqs@.take(i as int).contains(se)) by {
            if dup {
                let j = choose|j: int| 0 <= j < i && reqs@[j] == se;
                assert(reqs@.take(i as int)[j] == se);
            }
        }
        if !dup && !muted && volume_on && (se != Se::Footstep || footsteps) {
            out.push(se);
        }
        i = i + 1;
    }
    assert(reqs@.take(reqs@.len() as int) =~= reqs@);
    out
}

/// Whether the fanfare sounds: the party is the same size as last frame and
/// some member's level is higher than it was.
pub fn leveled_up(last: &Vec<u32>, now: &Vec<u32>) -> (r: bool)
    ensures
        r == (last@.len() == now@.len() && exists|i: int| 0 <= i < now@.len() && now@[i] > last@[i]),
{
    if last.len() != now.len() {
        return false;
    }
    let mut i: usize = 0;
    while i < now.len()
        invariant
            i <= now@.len() == last@.len(),
            forall|j: int| 0 <= j < i ==> now@[j] <= last@[j],
        decreases now@.len() - i,
    {
        if now[i] > last[i] {
            return true;
        }
        i = i + 1;
    }
    false
}

} // verus!
