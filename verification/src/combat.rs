//! Combat math: pure formulas shared by every gameplay system. All formulas are
//! provisional game-design numbers; the contracts pin them exactly.
use vstd::prelude::*;

verus! {

/// Integer division rounding toward zero (Rust's `/` on signed integers), for a
/// positive divisor.
pub open spec fn tdiv(a: int, b: int) -> int
    recommends
        b > 0,
{
    if a >= 0 {
        a / b
    } else {
        -((-a) / b)
    }
}

/// `v` clamped into `[lo, hi]`.
pub open spec fn clamp(v: int, lo: int, hi: int) -> int {
    if v < lo {
        lo
    } else if v > hi {
        hi
    } else {
        v
    }
}

pub open spec fn spec_hit_chance(attacker_agility: int, defender_agility: int, grip: int) -> int {
    clamp(50 + tdiv(attacker_agility - defender_agility, 10) + tdiv(grip, 10), 10, 95)
}

/// Hit chance as a percent, clamped to [10, 95]:
/// `50 + (attacker agility - defender agility)/10 + grip/10`.
pub fn hit_chance(attacker_agility: i32, defender_agility: i32, grip: i32) -> (r: i32)
    requires
        i32::MIN <= attacker_agility - defender_agility <= i32::MAX,
    ensures
        r == spec_hit_chance(attacker_agility as int, defender_agility as int, grip as int),
        10 <= r <= 95,
{
    let v = 50 + (attacker_agility - defender_agility) / 10 + grip / 10;
    if v < 10 {
        10
    } else if v > 95 {
        95
    } else {
        v
    }
}

pub open spec fn spec_base_damage(sharpness: int, attack: int, defense: int) -> int {
    let v = sharpness + tdiv(attack, 10) - tdiv(defense, 20);
    if v < 1 {
        1
    } else {
        v
    }
}

/// The inputs on which `sharpness + attack/10 - defense/20` is computed without
/// leaving the `i32` range.
pub open spec fn base_damage_in_range(sharpness: int, attack: int, defense: int) -> bool {
    &&& i32::MIN <= sharpness + tdiv(attack, 10) <= i32::MAX
    &&& i32::MIN <= sharpness + tdiv(attack, 10) - tdiv(defense, 20) <= i32::MAX
}

/// Base damage before the concentration bonus:
/// `max(1, sharpness + attack/10 - defense/20)`.
pub fn base_damage(sharpness: i32, attack: i32, defense: i32) -> (r: i32)
    requires
        base_damage_in_range(sharpness as int, attack as int, defense as int),
    ensures
        r == spec_base_damage(sharpness as int, attack as int, defense as int),
        r >= 1,
{
    let v = sharpness + attack / 10 - defense / 20;
    if v < 1 {
        1
    } else {
        v
    }
}

/// Final damage: `base × (1 + ratio/2)` rounded to the nearest integer (halves
/// away from zero), where `ratio = clamp(current / max(max_conc, 1), 0, 1)`;
/// results beyond `i32::MAX` saturate.
pub open spec fn spec_final_damage(
    sharpness: int,
    attack: int,
    defense: int,
    current_concentration: int,
    max_concentration: int,
) -> int {
    let base = spec_base_damage(sharpness, attack, defense);
    let m = if max_concentration < 1 {
        1
    } else {
        max_concentration
    };
    let c = clamp(current_concentration, 0, m);
    // round(base * c / (2m)) for non-negative operands
    let bonus = (base * c + m) / (2 * m);
    let v = base + bonus;
    if v > i32::MAX {
        i32::MAX as int
    } else {
        v
    }
}

/// Final damage: base plus a concentration bonus of up to +50% at full focus.
/// The attacker's concentration is spent (set to 0) by the caller afterwards.
pub fn final_damage(
    sharpness: i32,
    attack: i32,
    defense: i32,
    current_concentration: i32,
    max_concentration: i32,
) -> (r: i32)
    requires
        base_damage_in_range(sharpness as int, attack as int, defense as int),
    ensures
        r == spec_final_damage(
            sharpness as int,
            attack as int,
            defense as int,
            current_concentration as int,
            max_concentration as int,
        ),
        r >= 1,
{
    let base = base_damage(sharpness, attack, defense);
    let m: i32 = if max_concentration < 1 {
        1
    } else {
        max_concentration
    };
    let c: i32 = if current_concentration < 0 {
        0
    } else if current_concentration > m {
        m
    } else {
        current_concentration
    };
    let b64 = base as i64;
    let c64 = c as i64;
    let m64 = m as i64;
    assert(0 <= b64 * c64 <= (i32::MAX as int) * (i32::MAX as int)) by (nonlinear_arith)
        requires
            1 <= b64 <= i32::MAX,
            0 <= c64 <= i32::MAX,
    ;
    let bonus = (b64 * c64 + m64) / (2 * m64);
    assert(bonus <= b64) by (nonlinear_arith)
        requires
            bonus == (b64 * c64 + m64) / (2 * m64),
            1 <= m64,
            0 <= c64 <= m64,
            1 <= b64,
    ;
    let v = b64 + bonus;
    if v > i32::MAX as i64 {
        i32::MAX
    } else {
        v as i32
    }
}

pub open spec fn spec_guarded(damage: int, guarding: bool) -> int {
    if guarding {
        let h = tdiv(damage, 2);
        if h < 1 {
            1
        } else {
            h
        }
    } else {
        damage
    }
}

/// Halve incoming damage while guarding (rounding toward zero, but never below 1).
pub fn guarded(damage: i32, guarding: bool) -> (r: i32)
    ensures
        r == spec_guarded(damage as int, guarding),
{
    if guarding {
        let h = damage / 2;
        if h < 1 {
            1
        } else {
            h
        }
    } else {
        damage
    }
}

/// Unarmed sharpness (bare hands).
pub const UNARMED_SHARPNESS: i32 = 0;

/// Unarmed grip (bare hands).
pub const UNARMED_GRIP: i32 = 50;

/// Thrown-item damage basis: `sharpness + throwability/5`, the division
/// truncating toward zero.
pub open spec fn spec_throw_damage(sharpness: int, throwability: int) -> int {
    sharpness + tdiv(throwability, 5)
}

/// Thrown-item damage basis: `sharpness + throwability/5`.
pub fn throw_damage(sharpness: i32, throwability: i32) -> (r: i32)
    requires
        i32::MIN <= sharpness + tdiv(throwability as int, 5) <= i32::MAX,
    ensures
        r == spec_throw_damage(sharpness as int, throwability as int),
{
    sharpness + throwability / 5
}

pub open spec fn spec_throw_range(throwing: int, throwability: int) -> int {
    clamp(tdiv(throwing, 20) + tdiv(throwability, 50), 1, 6)
}

/// Thrown-item range in tiles: `clamp(throwing/20 + throwability/50, 1, 6)`.
pub fn throw_range(throwing: i32, throwability: i32) -> (r: i32)
    ensures
        r == spec_throw_range(throwing as int, throwability as int),
        1 <= r <= 6,
{
    let v = throwing / 20 + throwability / 50;
    if v < 1 {
        1
    } else if v > 6 {
        6
    } else {
        v
    }
}

pub open spec fn spec_steal_chance(stealing: int, wariness: int) -> int {
    clamp(50 + stealing - wariness, 5, 95)
}

/// Steal success percent: `clamp(50 + stealing - wariness, 5, 95)`.
pub fn steal_chance(stealing: i32, wariness: i32) -> (r: i32)
    requires
        i32::MIN <= 50 + stealing <= i32::MAX,
        i32::MIN <= 50 + stealing - wariness <= i32::MAX,
    ensures
        r == spec_steal_chance(stealing as int, wariness as int),
        5 <= r <= 95,
{
    let v = 50 + stealing - wariness;
    if v < 5 {
        5
    } else if v > 95 {
        95
    } else {
        v
    }
}

/// Full concentration never yields more than one and a half times the base
/// damage (rounded), and no concentration yields exactly the base damage.
pub proof fn lemma_concentration_bonus_bounds(
    sharpness: int,
    attack: int,
    defense: int,
    current: int,
    max: int,
)
    ensures
        spec_final_damage(sharpness, attack, defense, current, max) >= spec_base_damage(
            sharpness,
            attack,
            defense,
        ) || spec_base_damage(sharpness, attack, defense) > i32::MAX,
        current <= 0 ==> spec_final_damage(sharpness, attack, defense, current, max)
            == if spec_base_damage(sharpness, attack, defense) > i32::MAX {
            i32::MAX as int
        } else {
            spec_base_damage(sharpness, attack, defense)
        },
{
    let base = spec_base_damage(sharpness, attack, defense);
    let m = if max < 1 {
        1
    } else {
        max
    };
    let c = clamp(current, 0, m);
    assert(base * c >= 0) by (nonlinear_arith)
        requires
            base >= 1,
            c >= 0,
    ;
    assert((base * c + m) / (2 * m) >= 0) by (nonlinear_arith)
        requires
            base * c >= 0,
            m >= 1,
    ;
    if current <= 0 {
        assert(c == 0);
        assert(base * c == 0) by (nonlinear_arith)
            requires
                c == 0,
        ;
        assert(m / (2 * m) == 0) by (nonlinear_arith)
            requires
                m >= 1,
        ;
    }
}

/// Chance (percent) that one light bullet of an attack spell connects with a
/// monster of magic resistance `anti_magic`: `clamp(100 - anti_magic, 5, 95)`.
pub open spec fn spec_magic_hit_rate(anti_magic: int) -> int {
    clamp(100 - anti_magic, 5, 95)
}

/// Light-bullet hit percent against magic resistance `anti_magic`.
pub fn magic_hit_rate(anti_magic: i32) -> (r: i32)
    ensures
        r == spec_magic_hit_rate(anti_magic as int),
        5 <= r <= 95,
{
    if anti_magic >= 95 {
        5
    } else if anti_magic <= 5 {
        95
    } else {
        100 - anti_magic
    }
}

} // verus!
