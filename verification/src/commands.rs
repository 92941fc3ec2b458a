//! What a player command does at the moment it is dispatched: item, screen
//! and combat commands become requests; world commands are refused while the
//! data screen is open or movement is locked, a step is refused while a member
//! is overloaded and turns into an attack when a monster stands in the way,
//! and everything else starts on the grid.
use vstd::prelude::*;
use crate::character::{Party, PartyMember, is_overweight, member_computable};
use crate::dungeon::{DoorStates, Dungeon, GridPos};
use crate::event::MoveMode;
use crate::item::{ItemCatalog, ItemDef};
use crate::monster::tile_listed;
use crate::player::{
    Command,
    CommandStart,
    Player,
    command_started,
    move_facing,
    pos_in_range,
    spec_move_facing,
    start_command,
    step_target,
};
use crate::player_combat::PlayerAction;
use crate::text::cat;

verus! {

/// What dispatching a command asks for.
#[derive(Clone, Debug, PartialEq, Eq)]
pub enum Dispatch {
    /// Pick up the item under or ahead of the party.
    Pickup,
    /// Open or close the data screen.
    ToggleData,
    /// A combat action.
    Combat(PlayerAction),
    /// Press the block at this tile.
    Interact(GridPos),
    /// A grid command started; `footstep` when the party changed tiles.
    Grid { start: CommandStart, footstep: bool },
    /// Nothing happens.
    Ignored,
    /// A step refused because a member carries too much; the warning, given
    /// only the first time in a row.
    Overweight(Option<String>),
}

/// The combat action a command stands for, if it is one.
pub open spec fn combat_of(cmd: Command) -> Option<PlayerAction> {
    match cmd {
        Command::Attack => Some(PlayerAction::Attack),
        Command::Guard => Some(PlayerAction::Guard),
        Command::Concentrate => Some(PlayerAction::Concentrate),
        Command::Throw => Some(PlayerAction::Throw),
        Command::Steal => Some(PlayerAction::Steal),
        _ => None,
    }
}

/// Whether `i` is the first overloaded member of `ms`.
pub open spec fn first_overweight(ms: Seq<PartyMember>, defs: Seq<ItemDef>, i: int) -> bool {
    &&& 0 <= i < ms.len()
    &&& is_overweight(ms[i], defs)
    &&& forall|j: int| 0 <= j < i ==> !is_overweight(#[trigger] ms[j], defs)
}

/// Every member's carried weight and effective stats can be worked out.
pub open spec fn party_computable(ms: Seq<PartyMember>, defs: Seq<ItemDef>) -> bool {
    forall|i: int| 0 <= i < ms.len() ==> member_computable(#[trigger] ms[i], defs)
}

/// Dispatch command `cmd` of the party at `player` (see the module
/// documentation); `occupied` are the tiles monsters stand on and `warned`
/// whether the overload warning was already given.
pub fn dispatch_command(
    cmd: Command,
    data_open: bool,
    mode: MoveMode,
    party: &Party,
    catalog: &ItemCatalog,
    occupied: &Vec<GridPos>,
    player: &mut Player,
    dungeon: &Dungeon,
    doors: &mut DoorStates,
    warned: &mut bool,
) -> (r: Dispatch)
    requires
        pos_in_range(old(player).pos),
        party_computable(party.members@, catalog@),
    ensures
        match cmd {
            Command::Get => r == (if data_open { Dispatch::Ignored } else { Dispatch::Pickup }) && *final(player)
                == *old(player) && final(doors)@ == old(doors)@ && *final(warned) == *old(warned),
            Command::ToggleData => r == Dispatch::ToggleData && *final(player) == *old(player) && final(doors)@
                == old(doors)@ && *final(warned) == *old(warned),
            Command::Attack | Command::Guard | Command::Concentrate | Command::Throw | Command::Steal => r == (
            if data_open {
                Dispatch::Ignored
            } else {
                Dispatch::Combat(combat_of(cmd)->0)
            }) && *final(player) == *old(player) && final(doors)@ == old(doors)@ && *final(warned) == *old(
                warned,
            ),
            Command::Interact => r == (if data_open {
                Dispatch::Ignored
            } else {
                Dispatch::Interact(step_target(old(player).pos, old(player).facing))
            }) && *final(player) == *old(player) && final(doors)@ == old(doors)@ && *final(warned) == *old(
                warned,
            ),
            _ => if data_open || (mode == MoveMode::Locked && !(cmd is ToggleDoor)) {
                r == Dispatch::Ignored && *final(player) == *old(player) && final(doors)@ == old(doors)@
                    && *final(warned) == *old(warned)
            } else if cmd is Move && spec_move_facing(cmd->Move_0, old(player).facing) is Some && mode
                != MoveMode::Free && exists|i: int| first_overweight(party.members@, catalog@, i) {
                &&& *final(player) == *old(player) && final(doors)@ == old(doors)@ && *final(warned)
                &&& r matches Dispatch::Overweight(m) && if *old(warned) {
                    m is None
                } else {
                    exists|i: int|
                        #![trigger first_overweight(party.members@, catalog@, i)]
                        first_overweight(party.members@, catalog@, i) && (m matches Some(s) && s@
                            == party.members@[i].character.first_name@ + "は動けない! 荷物が重すぎる"@)
                }
            } else if cmd is Move && spec_move_facing(cmd->Move_0, old(player).facing) is Some
                && occupied@.contains(
                step_target(old(player).pos, spec_move_facing(cmd->Move_0, old(player).facing)->0),
            ) {
                r == Dispatch::Combat(PlayerAction::Attack) && *final(player) == *old(player) && final(doors)@
                    == old(doors)@ && *final(warned) == *old(warned)
            } else {
                &&& r matches Dispatch::Grid { start, footstep } && footstep == (final(player).pos != old(
                    player,
                ).pos) && command_started(
                    cmd,
                    mode == MoveMode::Free,
                    dungeon.level,
                    *old(player),
                    *final(player),
                    old(doors)@,
                    final(doors)@,
                    start,
                )
                &&& (cmd is ToggleDoor ==> *final(warned) == *old(warned))
                &&& (!(cmd is ToggleDoor) ==> !*final(warned))
            },
        },
{
    match cmd {
        Command::Get => {
            return if data_open {
                Dispatch::Ignored
            } else {
                Dispatch::Pickup
            };
        },
        Command::ToggleData => {
            return Dispatch::ToggleData;
        },
        Command::Attack | Command::Guard | Command::Concentrate | Command::Throw | Command::Steal => {
            if data_open {
                return Dispatch::Ignored;
            }
            let a = match cmd {
                Command::Attack => PlayerAction::Attack,
                Command::Guard => PlayerAction::Guard,
                Command::Concentrate => PlayerAction::Concentrate,
                Command::Throw => PlayerAction::Throw,
                _ => PlayerAction::Steal,
            };
            return Dispatch::Combat(a);
        },
        Command::Interact => {
            if data_open {
                return Dispatch::Ignored;
            }
            let (dx, dy) = player.facing.delta();
            return Dispatch::Interact(GridPos::new(player.pos.x + dx, player.pos.y + dy, player.pos.floor));
        },
        _ => {},
    }
    if data_open {
        return Dispatch::Ignored;
    }
    let is_door = matches!(cmd, Command::ToggleDoor);
    if mode == MoveMode::Locked && !is_door {
        return Dispatch::Ignored;
    }
    if let Command::Move(action) = cmd {
        if let Some(dir) = move_facing(action, player.facing) {
            let free = mode == MoveMode::Free;
            if !free {
                if let Some(idx) = party.overweight_member(catalog) {
                    proof {
                        assert(first_overweight(party.members@, catalog@, idx as int));
                    }
                    if !*warned {
                        *warned = true;
                        let msg = cat(party.members[idx].character.first_name.as_str(), "は動けない! 荷物が重すぎる");
                        return Dispatch::Overweight(Some(msg));
                    }
                    return Dispatch::Overweight(None);
                }
                proof {
                    assert forall|i: int| !first_overweight(party.members@, catalog@, i) by {
                        if 0 <= i < party.members@.len() {
                            assert(!is_overweight(party.members@[i], catalog@));
                        }
                    }
                }
            }
            let (dx, dy) = dir.delta();
            let dest = GridPos::new(player.pos.x + dx, player.pos.y + dy, player.pos.floor);
            if tile_listed(occupied, dest) {
                return Dispatch::Combat(PlayerAction::Attack);
            }
        }
    }
    if !is_door {
        *warned = false;
    }
    let before = player.pos;
    let start = start_command(cmd, mode == MoveMode::Free, player, dungeon, doors);
    Dispatch::Grid { start, footstep: player.pos != before }
}

/// What the Space key does.
#[derive(Clone, Copy, Debug, PartialEq, Eq, Structural)]
pub enum SpacePress {
    /// A monster stands ahead: attack it.
    Attack,
    /// Nothing stands ahead: the door ahead (if any) was toggled and is open
    /// or not as `door` says, and the block at `at` is pressed.
    Pressed { door: Option<bool>, at: GridPos },
}

/// The Space key: attack the monster ahead, or else toggle the door ahead and
/// press whatever block is there (keyhole, switch, writable wall).
pub fn press_space(player: &Player, occupied: &Vec<GridPos>, dungeon: &Dungeon, doors: &mut DoorStates) -> (r:
    SpacePress)
    requires
        pos_in_range(player.pos),
    ensures
        occupied@.contains(step_target(player.pos, player.facing)) ==> r == SpacePress::Attack && final(doors)@
            == old(doors)@,
        !occupied@.contains(step_target(player.pos, player.facing)) ==> (r matches SpacePress::Pressed { door, at }
            && at == step_target(player.pos, player.facing) && command_started(
            Command::ToggleDoor,
            false,
            dungeon.level,
            *player,
            *player,
            old(doors)@,
            final(doors)@,
            CommandStart::Door(door),
        )),
{
    let (dx, dy) = player.facing.delta();
    let front = GridPos::new(player.pos.x + dx, player.pos.y + dy, player.pos.floor);
    if tile_listed(occupied, front) {
        return SpacePress::Attack;
    }
    let door = crate::player::toggle_front_door(player, dungeon, doors);
    SpacePress::Pressed { door, at: front }
}

} // verus!
