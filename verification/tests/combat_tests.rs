use deepgrid_studio::combat::{
    base_damage, final_damage, guarded, hit_chance, magic_hit_rate, steal_chance, throw_damage, throw_range,
    UNARMED_GRIP,
};

#[test]
fn hit_chance_clamps() {
    // Huge agility gap clamps at the ceiling / floor.
    assert_eq!(hit_chance(10_000, 0, 50), 95);
    assert_eq!(hit_chance(0, 10_000, 0), 10);
    // Even match, unarmed grip 50 → 50 + 0 + 5 = 55.
    assert_eq!(hit_chance(20, 20, UNARMED_GRIP), 55);
}

#[test]
fn base_damage_floor_is_one() {
    // Heavy defense can't push damage below 1.
    assert_eq!(base_damage(0, 0, 10_000), 1);
    // sharpness 10 + attack 100/10 (=10) − defense 20/20 (=1) = 19.
    assert_eq!(base_damage(10, 100, 20), 19);
}

#[test]
fn concentration_scales_damage() {
    // Zero concentration → just the base.
    assert_eq!(final_damage(10, 0, 0, 0, 40), 10);
    // Full concentration → base × 1.5 = 15.
    assert_eq!(final_damage(10, 0, 0, 40, 40), 15);
    // max_concentration 0 must not divide by zero (no concentration → base).
    assert_eq!(final_damage(10, 0, 0, 0, 0), 10);
}

#[test]
fn guard_halves() {
    assert_eq!(guarded(12, true), 6);
    assert_eq!(guarded(12, false), 12);
    assert_eq!(guarded(1, true), 1); // never below 1
}

#[test]
fn throw_and_steal_bounds() {
    assert_eq!(throw_range(0, 0), 1);
    assert_eq!(throw_range(10_000, 10_000), 6);
    assert_eq!(steal_chance(10_000, 0), 95);
    assert_eq!(steal_chance(0, 10_000), 5);
}

#[test]
fn half_concentration_rounds_the_bonus() {
    // base 10, concentration 20 of 40 → bonus round(10·20/80) = 3 (2.5 rounds up).
    assert_eq!(final_damage(10, 0, 0, 20, 40), 13);
    // concentration above the maximum counts as the maximum.
    assert_eq!(final_damage(10, 0, 0, 99, 40), 15);
}

#[test]
fn throw_damage_adds_a_fifth_of_throwability() {
    assert_eq!(throw_damage(3, 10), 5);
    assert_eq!(throw_damage(-10, 0), -10);
    assert_eq!(throw_damage(0, 0), 0);
    assert_eq!(throw_damage(3, 12), 5);
    assert_eq!(throw_range(40, 100), 4);
}

#[test]
fn magic_hit_rate_is_clamped() {
    assert_eq!(magic_hit_rate(0), 95);
    assert_eq!(magic_hit_rate(30), 70);
    assert_eq!(magic_hit_rate(500), 5);
}
