//! Quantity limits for a project (the game being authored). Defaults match the
//! original "Dandan Dungeon", but every value is data, never a hard-coded
//! structural constraint.
use vstd::prelude::*;

verus! {

/// Pouch capacity used when a project file omits it (3).
pub fn default_pouch_size() -> (r: usize)
    ensures
        r == 3,
{
    3
}

/// Backpack capacity used when a project file omits it (24).
pub fn default_backpack_size() -> (r: usize)
    ensures
        r == 24,
{
    24
}

/// Demo count used when a project file omits it: OP + ED + 4 mid-game demos.
pub fn default_max_demos() -> (r: usize)
    ensures
        r == 6,
{
    6
}

/// Quantity limits for a project.
#[derive(Clone, Debug, PartialEq, Eq)]
pub struct LimitsConfig {
    /// Number of levels in a dungeon.
    pub max_levels: usize,
    /// Stacked floors per level (bottom to top).
    pub floors_per_level: usize,
    /// Floor width in blocks.
    pub floor_width: usize,
    /// Floor height (depth) in blocks.
    pub floor_height: usize,
    /// Door kinds definable per level ("door 1" / "door 2").
    pub door_kinds_per_level: usize,
    /// Registerable characters.
    pub max_characters: usize,
    /// Party size.
    pub party_size: usize,
    /// Pouch slots per character.
    pub pouch_size: usize,
    /// Backpack slots per character.
    pub backpack_size: usize,
    /// Item kinds definable.
    pub max_item_kinds: usize,
    /// Item placements per level.
    pub item_placements_per_level: usize,
    /// Monster kinds definable.
    pub max_monster_kinds: usize,
    /// Monster kinds appearing per level.
    pub monster_kinds_per_level: usize,
    /// Monster placements per level.
    pub monster_placements_per_level: usize,
    /// Magic kinds definable.
    pub max_magic_kinds: usize,
    /// Event flags available.
    pub event_flags: usize,
    /// Maximum event execution delay in cycles (0..=max_event_delay).
    pub max_event_delay: usize,
    /// Maximum message lines in a demo.
    pub demo_message_lines: usize,
    /// Maximum demos per project.
    pub max_demos: usize,
}

impl LimitsConfig {
    /// The original-faithful default limits.
    pub open spec fn spec_default() -> LimitsConfig {
        LimitsConfig {
            max_levels: 14,
            floors_per_level: 5,
            floor_width: 40,
            floor_height: 40,
            door_kinds_per_level: 2,
            max_characters: 20,
            party_size: 4,
            pouch_size: 3,
            backpack_size: 24,
            max_item_kinds: 199,
            item_placements_per_level: 1023,
            max_monster_kinds: 56,
            monster_kinds_per_level: 4,
            monster_placements_per_level: 48,
            max_magic_kinds: 80,
            event_flags: 64,
            max_event_delay: 63,
            demo_message_lines: 160,
            max_demos: 6,
        }
    }
}

impl Default for LimitsConfig {
    /// Original-faithful defaults.
    fn default() -> (r: Self)
        ensures
            r == LimitsConfig::spec_default(),
    {
        LimitsConfig {
            max_levels: 14,
            floors_per_level: 5,
            floor_width: 40,
            floor_height: 40,
            door_kinds_per_level: 2,
            max_characters: 20,
            party_size: 4,
            pouch_size: default_pouch_size(),
            backpack_size: default_backpack_size(),
            max_item_kinds: 199,
            item_placements_per_level: 1023,
            max_monster_kinds: 56,
            monster_kinds_per_level: 4,
            monster_placements_per_level: 48,
            max_magic_kinds: 80,
            event_flags: 64,
            max_event_delay: 63,
            demo_message_lines: 160,
            max_demos: default_max_demos(),
        }
    }
}

} // verus!
