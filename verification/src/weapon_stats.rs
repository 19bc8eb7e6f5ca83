//! Base values of a weapon and the formulas that scale them with its level.

use vstd::prelude::*;
use crate::aabb::Point;
use crate::timers::{Timer, TimerMode};
use crate::weapon_upgrade::{WeaponLevel, WeaponType};
use crate::weapons::{
    LaserWeapon, PlayerAddictedWeapon, RocketWeapon, Weapon, WeaponKind, WeaponUnit,
};

verus! {

/// Damage gained per level.
pub const DAMAGE_PER_LEVEL: u32 = 10;

/// Projectile speed gained per level, in world units per second.
pub const SPEED_PER_LEVEL: u32 = 25;

/// The shortest cooldown that any level can reach, in milliseconds.
pub const MIN_FIRE_RATE: u64 = 50;

/// Blast radius of a level-one rocket, in thousandths.
pub const BASE_EXPLOSION_RADIUS: u32 = 100_000;

/// Blast radius gained per level, in thousandths.
pub const EXPLOSION_RADIUS_PER_LEVEL: u32 = 10_000;

/// The values a weapon has at level one. Everything a weapon does at a later
/// level is computed from these and the level, never from what the weapon
/// held before.
#[derive(Clone, Copy, Debug, PartialEq, Eq, Structural)]
pub struct WeaponStats {
    pub base_damage: u32,
    /// Cooldown between shots, in milliseconds.
    pub base_fire_rate: u32,
    /// World units per second.
    pub base_speed: u32,
    /// Thousandths of a world unit.
    pub base_range: u32,
}

/// The value nearest to `v` that 32 unsigned bits can hold.
pub open spec fn clamp_u32(v: int) -> int {
    if v < 0 {
        0
    } else if v > u32::MAX as int {
        u32::MAX as int
    } else {
        v
    }
}

/// `v`, or zero where `v` is negative.
pub open spec fn at_least_zero(v: int) -> int {
    if v < 0 {
        0
    } else {
        v
    }
}

/// Damage at `level`: the base at level one, ten more for each level above it.
pub open spec fn damage_at(base: int, level: int) -> int {
    if level == 1 {
        base
    } else {
        base + (level - 1) * DAMAGE_PER_LEVEL
    }
}

/// Cooldown at `level`: a tenth of the base less for each level above one,
/// and never under `MIN_FIRE_RATE`.
pub open spec fn fire_rate_at(base: int, level: int) -> int {
    let scaled = (base * (10 - (level - 1))) / 10;
    if scaled < MIN_FIRE_RATE as int {
        MIN_FIRE_RATE as int
    } else {
        scaled
    }
}

/// Projectile speed at `level`: twenty-five more for each level above one.
pub open spec fn speed_at(base: int, level: int) -> int {
    base + (level - 1) * SPEED_PER_LEVEL
}

/// Range at `level`: fifteen hundredths of the base more for each level above one.
pub open spec fn range_at(base: int, level: int) -> int {
    (base * (100 + (level - 1) * 15)) / 100
}

/// Blast radius of a rocket at `level`.
pub open spec fn explosion_radius_at(level: int) -> int {
    BASE_EXPLOSION_RADIUS + (level - 1) * EXPLOSION_RADIUS_PER_LEVEL
}

fn clamp_to_u32(v: i128) -> (r: u32)
    ensures
        r as int == clamp_u32(v as int),
{
    if v < 0 {
        0
    } else if v > 0xFFFF_FFFF {
        0xFFFF_FFFF
    } else {
        v as u32
    }
}

/// `a * b / den` rounded down, or zero where the product is not positive.
fn scaled_down(a: u32, b: i64, den: u32) -> (r: u128)
    requires
        den > 0,
        -0x1_0000_0000_0000 <= b <= 0x1_0000_0000_0000,
    ensures
        a * b > 0 ==> r as int == (a * b) / (den as int),
        a * b <= 0 ==> r == 0,
{
    if a == 0 || b <= 0 {
        assert(a * b <= 0) by (nonlinear_arith)
            requires
                a == 0 || b <= 0,
                a >= 0,
        ;
        0
    } else {
        let x: u128 = a as u128;
        let y: u128 = b as u128;
        assert(0 < x * y <= 0xFFFF_FFFF * 0x1_0000_0000_0000) by (nonlinear_arith)
            requires
                0 < x <= 0xFFFF_FFFF,
                0 < y <= 0x1_0000_0000_0000,
        ;
        let q: u128 = (x * y) / (den as u128);
        assert(q <= x * y) by (nonlinear_arith)
            requires
                q == (x * y) / (den as int),
                den > 0,
                x * y > 0,
        ;
        q
    }
}

impl WeaponStats {
    /// The damage at `level`. From level one on it is exactly what the
    /// formula gives; below level one it stops at zero.
    pub fn calculate_damage(&self, level: i32) -> (damage: u64)
        ensures
            damage as int == at_least_zero(damage_at(self.base_damage as int, level as int)),
            level >= 1 ==> damage as int == damage_at(self.base_damage as int, level as int),
    {
        match level {
            1 => self.base_damage as u64,
            _ => {
                let scaled: i128 = self.base_damage as i128 + (level as i128 - 1) * 10;
                if scaled < 0 {
                    0
                } else {
                    scaled as u64
                }
            },
        }
    }

    /// The cooldown in milliseconds; lower is faster.
    pub fn calculate_fire_rate(&self, level: i32) -> (rate: u64)
        ensures
            rate as int == fire_rate_at(self.base_fire_rate as int, level as int),
    {
        let factor: i64 = 10 - (level as i64 - 1);
        let scaled: u128 = scaled_down(self.base_fire_rate, factor, 10);
        proof {
            let product = self.base_fire_rate * factor;
            if product <= 0 {
                assert(product / 10 <= 0);
            }
        }
        if scaled < 50 {
            MIN_FIRE_RATE
        } else {
            assert(scaled <= 0xFFFF_FFFF * 0x1_0000_0000) by (nonlinear_arith)
                requires
                    scaled == (self.base_fire_rate * factor) / 10,
                    0 <= self.base_fire_rate <= 0xFFFF_FFFF,
                    factor <= 0x1_0000_0000,
                    scaled >= 50,
            ;
            scaled as u64
        }
    }

    pub fn calculate_speed(&self, level: i32) -> (speed: u32)
        ensures
            speed as int == clamp_u32(speed_at(self.base_speed as int, level as int)),
    {
        clamp_to_u32(self.base_speed as i128 + (level as i128 - 1) * 25)
    }

    pub fn calculate_range(&self, level: i32) -> (range: u32)
        ensures
            range as int == clamp_u32(range_at(self.base_range as int, level as int)),
    {
        let factor: i64 = 100 + (level as i64 - 1) * 15;
        let scaled: u128 = scaled_down(self.base_range, factor, 100);
        proof {
            let product = self.base_range * factor;
            if product <= 0 {
                assert(product / 100 <= 0);
            }
        }
        if scaled > 0xFFFF_FFFF {
            0xFFFF_FFFF
        } else {
            scaled as u32
        }
    }

    /// Blast radius of a rocket at `level`, in thousandths.
    pub fn calculate_explosion_radius(level: i32) -> (radius: u32)
        ensures
            radius as int == clamp_u32(explosion_radius_at(level as int)),
    {
        clamp_to_u32(100_000 + (level as i128 - 1) * 10_000)
    }
}

/// The three weapons a player starts with, in the order laser, rocket, flame.
pub open spec fn starting_weapons(owner: u64, position: Point) -> Seq<WeaponUnit> {
    seq![
        WeaponUnit {
            weapon: Weapon {
                owner,
                damage: 50,
                fire_timer: Timer::fresh(300, TimerMode::Repeating),
                speed: 500,
            },
            kind: WeaponKind::Laser(LaserWeapon { color: 0xFF00_FFFF }),
            level: WeaponLevel { level: 1, weapon_type: WeaponType::Laser },
            stats: WeaponStats {
                base_damage: 50,
                base_fire_rate: 300,
                base_speed: 500,
                base_range: 0,
            },
            position,
        },
        WeaponUnit {
            weapon: Weapon {
                owner,
                damage: 50,
                fire_timer: Timer::fresh(200, TimerMode::Repeating),
                speed: 200,
            },
            kind: WeaponKind::Rocket(RocketWeapon { explosion_radius: 100_000 }),
            level: WeaponLevel { level: 1, weapon_type: WeaponType::Rocket },
            stats: WeaponStats {
                base_damage: 50,
                base_fire_rate: 200,
                base_speed: 200,
                base_range: 0,
            },
            position,
        },
        WeaponUnit {
            weapon: Weapon {
                owner,
                damage: 5,
                fire_timer: Timer::fresh(100, TimerMode::Repeating),
                speed: 0,
            },
            kind: WeaponKind::Aura(PlayerAddictedWeapon { radius: 75_000 }),
            level: WeaponLevel { level: 1, weapon_type: WeaponType::Flame },
            stats: WeaponStats {
                base_damage: 5,
                base_fire_rate: 100,
                base_speed: 0,
                base_range: 75_000,
            },
            position,
        },
    ]
}

/// Creates the weapons of the player `player_entity`, who stands at
/// `player_pos`: one laser, one rocket launcher and one flame aura, each at
/// level one.
pub fn spawn_weapons_for_player(player_entity: u64, player_pos: Point) -> (weapons: Vec<WeaponUnit>)
    ensures
        weapons@ == starting_weapons(player_entity, player_pos),
        forall|i: int| 0 <= i < weapons@.len() ==> (#[trigger] weapons@[i]).wf() && weapons@[i].derived(),
{
    proof {
        crate::weapon_upgrade::lemma_starting_weapons_one_per_kind(player_entity, player_pos);
    }
    let mut weapons: Vec<WeaponUnit> = Vec::new();
    weapons.push(
        WeaponUnit {
            weapon: Weapon {
                owner: player_entity,
                damage: 50,
                fire_timer: Timer::new(300, TimerMode::Repeating),
                speed: 500,
            },
            kind: WeaponKind::Laser(LaserWeapon { color: 0xFF00_FFFF }),
            level: WeaponLevel { level: 1, weapon_type: WeaponType::Laser },
            stats: WeaponStats {
                base_damage: 50,
                base_fire_rate: 300,
                base_speed: 500,
                base_range: 0,
            },
            position: player_pos,
        },
    );
    weapons.push(
        WeaponUnit {
            weapon: Weapon {
                owner: player_entity,
                damage: 50,
                fire_timer: Timer::new(200, TimerMode::Repeating),
                speed: 200,
            },
            kind: WeaponKind::Rocket(RocketWeapon { explosion_radius: 100_000 }),
            level: WeaponLevel { level: 1, weapon_type: WeaponType::Rocket },
            stats: WeaponStats {
                base_damage: 50,
                base_fire_rate: 200,
                base_speed: 200,
                base_range: 0,
            },
            position: player_pos,
        },
    );
    weapons.push(
        WeaponUnit {
            weapon: Weapon {
                owner: player_entity,
                damage: 5,
                fire_timer: Timer::new(100, TimerMode::Repeating),
                speed: 0,
            },
            kind: WeaponKind::Aura(PlayerAddictedWeapon { radius: 75_000 }),
            level: WeaponLevel { level: 1, weapon_type: WeaponType::Flame },
            stats: WeaponStats {
                base_damage: 5,
                base_fire_rate: 100,
                base_speed: 0,
                base_range: 75_000,
            },
            position: player_pos,
        },
    );
    weapons
}

/// Two upgrades from level one add twice the step to the base damage, and
/// the level-three value does not depend on anything but base and level.
pub proof fn lemma_damage_is_recomputed(base: int)
    ensures
        damage_at(base, 1) == base,
        damage_at(base, 2) == base + DAMAGE_PER_LEVEL,
        damage_at(base, 3) == base + 2 * DAMAGE_PER_LEVEL,
{
}

/// From level one on, each level adds the same step to damage and speed, the
/// cooldown never grows and never drops under the floor, and the range never shrinks.
pub proof fn lemma_scaling_is_monotonic(stats: WeaponStats, level: int)
    requires
        level >= 1,
    ensures
        damage_at(stats.base_damage as int, level + 1) == damage_at(
            stats.base_damage as int,
            level,
        ) + DAMAGE_PER_LEVEL,
        speed_at(stats.base_speed as int, level + 1) == speed_at(stats.base_speed as int, level)
            + SPEED_PER_LEVEL,
        fire_rate_at(stats.base_fire_rate as int, level + 1) <= fire_rate_at(
            stats.base_fire_rate as int,
            level,
        ),
        fire_rate_at(stats.base_fire_rate as int, level) >= MIN_FIRE_RATE,
        range_at(stats.base_range as int, level + 1) >= range_at(stats.base_range as int, level),
{
    let b = stats.base_fire_rate as int;
    assert(b * (10 - level) <= b * (10 - (level - 1))) by (nonlinear_arith)
        requires
            b >= 0,
    ;
    let r = stats.base_range as int;
    assert(r * (100 + level * 15) >= r * (100 + (level - 1) * 15)) by (nonlinear_arith)
        requires
            r >= 0,
    ;
}

} // verus!
