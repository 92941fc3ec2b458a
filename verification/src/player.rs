//! First-person grid movement rules: stepping, turning, ladder climbing,
//! falling, and door toggling. The logical state jumps a whole tile or 90°; the
//! camera animation around it belongs to the renderer.
use vstd::prelude::*;
use crate::dungeon::{Block, DoorStates, Dungeon, Facing, GridPos, Level};

verus! {

/// A discrete grid movement / turn.
#[derive(Clone, Copy, PartialEq, Eq, Debug, Structural)]
pub enum Action {
    Forward,
    Backward,
    StrafeLeft,
    StrafeRight,
    TurnLeft,
    TurnRight,
}

/// The player's logical state: which tile they stand on and which way they face.
#[derive(Clone, Copy, PartialEq, Eq, Debug, Structural)]
pub struct Player {
    pub pos: GridPos,
    pub facing: Facing,
}

pub open spec fn spec_move_facing(action: Action, facing: Facing) -> Option<Facing> {
    match action {
        Action::Forward => Some(facing),
        Action::Backward => Some(facing.spec_opposite()),
        Action::StrafeRight => Some(facing.spec_turn_right()),
        Action::StrafeLeft => Some(facing.spec_turn_left()),
        Action::TurnLeft | Action::TurnRight => None,
    }
}

/// The cardinal heading a movement action produces given the current facing,
/// or `None` for turns.
pub fn move_facing(action: Action, facing: Facing) -> (r: Option<Facing>)
    ensures
        r == spec_move_facing(action, facing),
{
    match action {
        Action::Forward => Some(facing),
        Action::Backward => Some(facing.opposite()),
        Action::StrafeRight => Some(facing.turn_right()),
        Action::StrafeLeft => Some(facing.turn_left()),
        Action::TurnLeft | Action::TurnRight => None,
    }
}

/// Positions whose four neighbours are representable (no coordinate at the
/// edge of the `i32` range).
pub open spec fn pos_in_range(pos: GridPos) -> bool {
    i32::MIN < pos.x < i32::MAX && i32::MIN < pos.y < i32::MAX
}

/// The tile one step from `pos` heading `dir`, on the same floor.
pub open spec fn step_target(pos: GridPos, dir: Facing) -> GridPos {
    GridPos {
        x: (pos.x + dir.spec_delta().0) as i32,
        y: (pos.y + dir.spec_delta().1) as i32,
        floor: pos.floor,
    }
}

/// Whether a horizontal step heading `dir` is allowed from `from`: the current
/// cell must let the party leave that way and the next cell must admit it.
pub open spec fn can_step(level: Level, doors: Seq<bool>, from: GridPos, dir: Facing) -> bool {
    &&& match level.spec_block_at(from) {
        Some(b) => b.spec_allows_exit(dir),
        None => false,
    }
    &&& match level.spec_block_at(step_target(from, dir)) {
        Some(b) => b.spec_allows_enter(dir, doors),
        None => false,
    }
}

/// The floor the party comes to rest on after entering `(x, y, floor)`.
pub open spec fn spec_landing(level: Level, x: int, y: int, floor: nat) -> nat
    decreases floor,
{
    if floor == 0 || level.spec_is_supported(x, y, floor as int) {
        floor
    } else {
        spec_landing(level, x, y, (floor - 1) as nat)
    }
}

/// The landing floor is the highest supported floor at or below the entry
/// floor; the fall passes straight through every unsupported floor in between.
pub proof fn lemma_landing_characterized(level: Level, x: int, y: int, floor: nat)
    ensures
        spec_landing(level, x, y, floor) <= floor,
        level.spec_is_supported(x, y, spec_landing(level, x, y, floor) as int),
        forall|f: int|
            spec_landing(level, x, y, floor) < f <= floor ==> !level.spec_is_supported(x, y, f),
    decreases floor,
{
    if floor > 0 && !level.spec_is_supported(x, y, floor as int) {
        lemma_landing_characterized(level, x, y, (floor - 1) as nat);
    }
}

/// A floor that already gives footing is its own landing floor: entering a
/// supported cell never makes the party fall.
pub proof fn lemma_supported_no_fall(level: Level, x: int, y: int, floor: nat)
    requires
        level.spec_is_supported(x, y, floor as int),
    ensures
        spec_landing(level, x, y, floor) == floor,
{
}

/// Landing where the party already rests is stable: a second fall from the
/// landing floor lands on the same floor.
pub proof fn lemma_landing_idempotent(level: Level, x: int, y: int, floor: nat)
    ensures
        spec_landing(level, x, y, spec_landing(level, x, y, floor)) == spec_landing(
            level,
            x,
            y,
            floor,
        ),
{
    lemma_landing_characterized(level, x, y, floor);
}

/// The landing floor for `(x, y, floor)` (see [`Level::landing_floor`]).
pub fn landing(level: &Level, x: i32, y: i32, floor: usize) -> (r: usize)
    ensures
        r == spec_landing(*level, x as int, y as int, floor as nat),
{
    let mut f = floor;
    while f > 0 && !level.is_supported(x, y, f)
        invariant
            f <= floor,
            spec_landing(*level, x as int, y as int, floor as nat) == spec_landing(
                *level,
                x as int,
                y as int,
                f as nat,
            ),
        decreases f,
    {
        f = f - 1;
    }
    f
}

/// Outcome of [`start_move`] on the player's logical state.
pub open spec fn spec_start_move(
    level: Level,
    doors: Seq<bool>,
    player: Player,
    action: Action,
    free: bool,
) -> (Player, nat) {
    match spec_move_facing(action, player.facing) {
        None => {
            let f = if action is TurnLeft {
                player.facing.spec_turn_left()
            } else {
                player.facing.spec_turn_right()
            };
            (Player { pos: player.pos, facing: f }, 0)
        },
        Some(dir) => {
            if can_step(level, doors, player.pos, dir) {
                let dest = step_target(player.pos, dir);
                let land = if free {
                    dest.floor as nat
                } else {
                    spec_landing(level, dest.x as int, dest.y as int, dest.floor as nat)
                };
                (
                    Player { pos: GridPos { floor: land as usize, ..dest }, facing: player.facing },
                    (dest.floor - land) as nat,
                )
            } else {
                (player, 0)
            }
        },
    }
}

/// A step into a door cell goes through only when that door kind is open: a
/// closed door (or a kind the door states do not know) leaves the party where
/// it stood, facing the same way; an open one, from a cell the party may
/// leave that way, lets it onto the door's tile.
pub proof fn lemma_doors_gate_steps(
    level: Level,
    doors: Seq<bool>,
    player: Player,
    action: Action,
    free: bool,
    dir: Facing,
    kind: u8,
)
    requires
        pos_in_range(player.pos),
        spec_move_facing(action, player.facing) == Some(dir),
        level.spec_block_at(step_target(player.pos, dir)) == Some(Block::Door { kind }),
    ensures
        !((kind as int) < doors.len() && doors[kind as int]) ==> spec_start_move(level, doors, player, action, free)
            == (player, 0nat),
        ((kind as int) < doors.len() && doors[kind as int]) && level.spec_block_at(player.pos) is Some && !(
        level.spec_block_at(player.pos)->0 is Horoscope) ==> {
            let p = spec_start_move(level, doors, player, action, free).0;
            &&& p.pos.x == step_target(player.pos, dir).x
            &&& p.pos.y == step_target(player.pos, dir).y
            &&& p.pos != player.pos
        },
{
    let t = step_target(player.pos, dir);
    assert(t.x != player.pos.x || t.y != player.pos.y);
}

/// Begin a grid move: a turn rotates in place; a step is refused unless the
/// current cell lets the party out and the next cell lets it in; a step onto a
/// cell without footing chains a fall (unless free-flying). Returns the number
/// of floors fallen.
pub fn start_move(
    action: Action,
    free: bool,
    player: &mut Player,
    dungeon: &Dungeon,
    doors: &DoorStates,
) -> (fallen: usize)
    requires
        pos_in_range(old(player).pos),
    ensures
        (*final(player), fallen as nat) == spec_start_move(
            dungeon.level,
            doors@,
            *old(player),
            action,
            free,
        ),
{
    let level = &dungeon.level;
    let dir = match move_facing(action, player.facing) {
        None => {
            player.facing =
                match action {
                    Action::TurnLeft => player.facing.turn_left(),
                    _ => player.facing.turn_right(),
                };
            return 0;
        },
        Some(d) => d,
    };
    let here = level.block_at(player.pos);
    let exit_ok = match here {
        Some(b) => b.allows_exit(dir),
        None => false,
    };
    if !exit_ok {
        return 0;
    }
    let (dx, dy) = dir.delta();
    let dest = GridPos::new(player.pos.x + dx, player.pos.y + dy, player.pos.floor);
    let enter_ok = match level.block_at(dest) {
        Some(b) => b.allows_enter(dir, doors),
        None => false,
    };
    if !enter_ok {
        return 0;
    }
    player.pos = dest;
    if !free {
        let land = landing(level, dest.x, dest.y, dest.floor);
        proof {
            lemma_landing_characterized(*level, dest.x as int, dest.y as int, dest.floor as nat);
        }
        if land < dest.floor {
            player.pos.floor = land;
            return dest.floor - land;
        }
    }
    0
}

/// Outcome of [`start_climb`]: the new position (if the climb happens) and the
/// floors fallen after it.
pub open spec fn spec_start_climb(
    level: Level,
    doors: Seq<bool>,
    pos: GridPos,
    up: bool,
    free: bool,
) -> Option<(GridPos, nat)> {
    let n = level.floors@.len();
    if free {
        if up {
            if pos.floor + 1 >= n {
                None
            } else {
                Some((GridPos { floor: (pos.floor + 1) as usize, ..pos }, 0))
            }
        } else if pos.floor == 0 {
            None
        } else {
            Some((GridPos { floor: (pos.floor - 1) as usize, ..pos }, 0))
        }
    } else if !match level.spec_block_at(pos) {
        Some(b) => b is Ladder || b is HoroscopeVert,
        None => false,
    } {
        None
    } else if up {
        let tf = pos.floor + 1;
        if tf >= n {
            None
        } else if !match level.spec_cell(pos.x as int, pos.y as int, tf) {
            Some(b) => b.spec_allows_climb(true),
            None => false,
        } {
            None
        } else {
            let land = spec_landing(level, pos.x as int, pos.y as int, tf as nat);
            Some((GridPos { floor: land as usize, ..pos }, (tf - land) as nat))
        }
    } else if pos.floor == 0 {
        None
    } else {
        let tf = pos.floor - 1;
        let ok = match level.spec_cell(pos.x as int, pos.y as int, tf) {
            Some(b) => if b is HoroscopeVert {
                b.spec_allows_climb(false)
            } else {
                b is Ladder || b.spec_allows_vertical(doors)
            },
            None => false,
        };
        if !ok {
            None
        } else {
            let land = spec_landing(level, pos.x as int, pos.y as int, tf as nat);
            Some((GridPos { floor: land as usize, ..pos }, (tf - land) as nat))
        }
    }
}

/// Begin a ladder climb up or down. Free flight rises / descends anywhere in
/// the level's floor range. Otherwise the party must stand on a ladder (or a
/// vertical horoscope); up needs the cell above to admit an upward climb, down
/// needs the cell below to be a ladder, a vertical horoscope allowing down, or
/// an otherwise-enterable cell — and climbing down onto a cell without footing
/// keeps falling. Returns the floors fallen, or `None` when the climb is
/// refused (the player is then unchanged).
pub fn start_climb(
    up: bool,
    free: bool,
    player: &mut Player,
    dungeon: &Dungeon,
    doors: &DoorStates,
) -> (r: Option<usize>)
    ensures
        match spec_start_climb(dungeon.level, doors@, old(player).pos, up, free) {
            None => r is None && *final(player) == *old(player),
            Some(pn) => {
                &&& r == Some(pn.1 as usize)
                &&& final(player).pos == pn.0
                &&& final(player).facing == old(player).facing
            },
        },
{
    let level = &dungeon.level;
    let n = level.floor_count();
    if free {
        let tf = if up {
            if player.pos.floor >= n || player.pos.floor + 1 >= n {
                return None;
            }
            player.pos.floor + 1
        } else {
            if player.pos.floor == 0 {
                return None;
            }
            player.pos.floor - 1
        };
        player.pos.floor = tf;
        return Some(0);
    }
    let on_ladder = match level.block_at(player.pos) {
        Some(b) => b.is_ladder() || matches!(b, Block::HoroscopeVert { .. }),
        None => false,
    };
    if !on_ladder {
        return None;
    }
    let target_floor = if up {
        if player.pos.floor >= n || player.pos.floor + 1 >= n {
            return None;
        }
        let tf = player.pos.floor + 1;
        let ok = match level.block_at(GridPos::new(player.pos.x, player.pos.y, tf)) {
            Some(b) => b.allows_climb(true),
            None => false,
        };
        if !ok {
            return None;
        }
        tf
    } else {
        if player.pos.floor == 0 {
            return None;
        }
        let tf = player.pos.floor - 1;
        let ok = match level.block_at(GridPos::new(player.pos.x, player.pos.y, tf)) {
            Some(b) => if matches!(b, Block::HoroscopeVert { .. }) {
                b.allows_climb(false)
            } else {
                b.is_ladder() || b.allows_vertical(doors)
            },
            None => false,
        };
        if !ok {
            return None;
        }
        tf
    };
    let land = landing(level, player.pos.x, player.pos.y, target_floor);
    proof {
        lemma_landing_characterized(
            *level,
            player.pos.x as int,
            player.pos.y as int,
            target_floor as nat,
        );
    }
    player.pos.floor = land;
    Some(target_floor - land)
}

/// The door kind in the cell directly ahead of the player, if that cell is a door.
pub open spec fn front_door_kind(level: Level, player: Player) -> Option<u8> {
    match level.spec_block_at(step_target(player.pos, player.facing)) {
        Some(Block::Door { kind }) => Some(kind),
        _ => None,
    }
}

/// Toggle the door kind of the cell directly in front of the player, if any.
/// Returns the door's new state (`Some(open)`) when one was toggled.
pub fn toggle_front_door(player: &Player, dungeon: &Dungeon, doors: &mut DoorStates) -> (r: Option<
    bool,
>)
    requires
        pos_in_range(player.pos),
    ensures
        match front_door_kind(dungeon.level, *player) {
            None => r is None && final(doors)@ == old(doors)@,
            Some(kind) => {
                &&& final(doors)@ == if (kind as int) < old(doors)@.len() {
                    old(doors)@.update(kind as int, !old(doors)@[kind as int])
                } else {
                    old(doors)@
                }
                &&& r == Some(crate::dungeon::door_open(final(doors)@, kind))
            },
        },
{
    let (dx, dy) = player.facing.delta();
    let front = GridPos::new(player.pos.x + dx, player.pos.y + dy, player.pos.floor);
    match dungeon.level.block_at(front) {
        Some(Block::Door { kind }) => {
            doors.toggle(kind);
            Some(doors.is_open(kind))
        },
        _ => None,
    }
}

/// A player command, from the keyboard or the on-screen icons.
#[derive(Clone, Copy, PartialEq, Eq, Debug, Structural)]
pub enum Command {
    Move(Action),
    ClimbUp,
    ClimbDown,
    ToggleDoor,
    /// Pick up the item under or ahead of the party.
    Get,
    /// Open or close the data screen.
    ToggleData,
    /// Attack the monster ahead.
    Attack,
    /// Halve the next incoming hit.
    Guard,
    /// Recover concentration faster until acting.
    Concentrate,
    /// Throw the selected member's held item ahead.
    Throw,
    /// Steal from the monster ahead.
    Steal,
    /// Press the block ahead: keyhole, switch, or read a writable wall.
    Interact,
}

/// What starting a grid command did.
#[derive(Clone, Copy, PartialEq, Eq, Debug, Structural)]
pub enum CommandStart {
    /// A step or turn; the floors fallen after it.
    Moved { fallen: usize },
    /// A climb: the floors gone, `None` when it was refused.
    Climbed(Option<usize>),
    /// A door toggle: whether the door ahead is open now, `None` when there is
    /// no door ahead.
    Door(Option<bool>),
    /// A command handled elsewhere (items, combat, screens, interaction).
    Elsewhere,
}

/// Starting grid command `cmd` (in free flight when `free`) takes the party
/// from `p0` to `p1` and the door states from `d0` to `d1`, answering `r`
/// (see [`start_command`]).
pub open spec fn command_started(
    cmd: Command,
    free: bool,
    level: Level,
    p0: Player,
    p1: Player,
    d0: Seq<bool>,
    d1: Seq<bool>,
    r: CommandStart,
) -> bool {
    match cmd {
        Command::Move(action) => {
            &&& r matches CommandStart::Moved { fallen } && (p1, fallen as nat) == spec_start_move(
                level,
                d0,
                p0,
                action,
                free,
            )
            &&& d1 == d0
        },
        Command::ClimbUp | Command::ClimbDown => {
            let up = cmd == Command::ClimbUp;
            &&& d1 == d0
            &&& r matches CommandStart::Climbed(c) && match spec_start_climb(
                level,
                d0,
                p0.pos,
                up,
                free,
            ) {
                None => c is None && p1 == p0,
                Some(pn) => c == Some(pn.1 as usize) && p1.pos == pn.0 && p1.facing
                    == p0.facing,
            }
        },
        Command::ToggleDoor => {
            &&& p1 == p0
            &&& r matches CommandStart::Door(open) && match front_door_kind(level, p0) {
                None => open is None && d1 == d0,
                Some(kind) => {
                    &&& d1 == if (kind as int) < d0.len() {
                        d0.update(kind as int, !d0[kind as int])
                    } else {
                        d0
                    }
                    &&& open == Some(crate::dungeon::door_open(d1, kind))
                },
            }
        },
        _ => r == CommandStart::Elsewhere && p1 == p0 && d1 == d0,
    }
}

/// Start a grid command: a move or turn ([`start_move`]), a climb
/// ([`start_climb`]), or toggling the door ahead ([`toggle_front_door`]).
/// Every other command is handled elsewhere and changes nothing here.
pub fn start_command(
    cmd: Command,
    free: bool,
    player: &mut Player,
    dungeon: &Dungeon,
    doors: &mut DoorStates,
) -> (r: CommandStart)
    requires
        pos_in_range(old(player).pos),
    ensures
        command_started(cmd, free, dungeon.level, *old(player), *final(player), old(doors)@, final(doors)@, r),
{
    match cmd {
        Command::Move(action) => {
            let fallen = start_move(action, free, player, dungeon, doors);
            CommandStart::Moved { fallen }
        },
        Command::ClimbUp => CommandStart::Climbed(start_climb(true, free, player, dungeon, doors)),
        Command::ClimbDown => CommandStart::Climbed(start_climb(false, free, player, dungeon, doors)),
        Command::ToggleDoor => CommandStart::Door(toggle_front_door(player, dungeon, doors)),
        _ => CommandStart::Elsewhere,
    }
}

} // verus!
