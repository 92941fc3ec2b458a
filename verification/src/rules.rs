//! Per-project game rules that layer on top of the original design, such as the
//! optional hunger / satiety system.
use vstd::prelude::*;

verus! {

/// Satiety a fresh character starts with (and the default maximum).
pub const DEFAULT_SATIETY_MAX: i32 = 1000;

/// Hunger rules. When `enabled` is false the whole system is a no-op.
#[derive(Clone, Debug, PartialEq, Eq)]
pub struct HungerRules {
    pub enabled: bool,
    /// Satiety ceiling.
    pub satiety_max: i32,
    /// Satiety gained per point of nutrition eaten.
    pub satiety_per_nutrition: i32,
    /// Cycles per point of satiety drained.
    pub drain_interval_cycles: u64,
    /// HP lost per cycle while starving (satiety 0).
    pub starvation_damage: i32,
    /// Satiety below which the party is warned it is hungry.
    pub warn_below: i32,
}

impl HungerRules {
    pub open spec fn spec_default() -> HungerRules {
        HungerRules {
            enabled: false,
            satiety_max: DEFAULT_SATIETY_MAX,
            satiety_per_nutrition: 10,
            drain_interval_cycles: 50,
            starvation_damage: 1,
            warn_below: 200,
        }
    }

    /// Satiety below which the hungry warning shows.
    pub fn warn_threshold(&self) -> (r: i32)
        ensures
            r == self.warn_below,
    {
        self.warn_below
    }
}

impl Default for HungerRules {
    fn default() -> (r: Self)
        ensures
            r == HungerRules::spec_default(),
    {
        HungerRules {
            enabled: false,
            satiety_max: DEFAULT_SATIETY_MAX,
            satiety_per_nutrition: 10,
            drain_interval_cycles: 50,
            starvation_damage: 1,
            warn_below: 200,
        }
    }
}

/// All per-project rules.
#[derive(Clone, Debug, PartialEq, Eq)]
pub struct RulesConfig {
    pub hunger: HungerRules,
}

impl Default for RulesConfig {
    fn default() -> (r: Self)
        ensures
            r.hunger == HungerRules::spec_default(),
    {
        RulesConfig { hunger: HungerRules::default() }
    }
}

} // verus!
