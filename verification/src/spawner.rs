//! The enemy spawner and the director that makes later enemies stronger.

use vstd::prelude::*;
use rand::rngs::StdRng;
use crate::aabb::{clamp_coord, clamp_to_coord, Point, AABB};
use crate::enemy::{Enemy, EnemyUnit};
use crate::random::random_between;
use crate::timers::{EnemySpawnTimer, Timer, TimerMode};

verus! {

/// Nearest an enemy spawns to the player on either axis, in thousandths.
pub const SPAWN_NEAR: i32 = 200_000;

/// Farthest an enemy spawns from the player on either axis, in thousandths.
pub const SPAWN_FAR: i32 = 500_000;

/// Health of an enemy per power level.
pub const HEALTH_PER_POWER: i32 = 100;

/// Contact damage of an enemy per power level.
pub const DAMAGE_PER_POWER: i32 = 1;

/// Slowest speed of an enemy per power level, in world units per second.
pub const MIN_SPEED_PER_POWER: u32 = 100;

/// Upper end, not reached, of the speed of an enemy per power level.
pub const MAX_SPEED_PER_POWER: u32 = 200;

/// Width and height of an enemy's collision box, in thousandths.
pub const ENEMY_SIZE: u32 = 40_000;

/// Milliseconds between two rises of the power level.
pub const POWER_UP_INTERVAL: u64 = 10_000;

/// The difficulty of the run: a level that starts at one and rises each time
/// the timer completes, however the player is doing.
#[derive(Clone, Copy, Debug, PartialEq, Eq, Structural)]
pub struct EnemyPowerUpTimer {
    pub timer: Timer,
    pub power_level: u32,
}

/// For each axis one candidate offset on the negative side and one on the
/// positive side of the player.
#[derive(Clone, Copy, Debug, PartialEq, Eq, Structural)]
pub struct SpawnCandidates {
    pub negative_x: i32,
    pub positive_x: i32,
    pub negative_y: i32,
    pub positive_y: i32,
}

/// `v` times `factor`, stopping at the largest value of 32 signed bits.
pub open spec fn scaled_i32(v: int, factor: int) -> int {
    if v * factor > i32::MAX as int {
        i32::MAX as int
    } else {
        v * factor
    }
}

/// `v` times `factor`, stopping at the largest value of 32 unsigned bits.
pub open spec fn scaled_u32(v: int, factor: int) -> int {
    if v * factor > u32::MAX as int {
        u32::MAX as int
    } else {
        v * factor
    }
}

/// Of the two candidates the one farther from zero; the positive one on a tie.
pub open spec fn farther(negative: i32, positive: i32) -> i32 {
    let n = if negative < 0 { -negative } else { negative as int };
    let p = if positive < 0 { -positive } else { positive as int };
    if n > p {
        negative
    } else {
        positive
    }
}

/// Where an enemy spawns for a player at `player`: on each axis the player's
/// coordinate plus the farther of the two candidates.
pub open spec fn spawn_point(player: Point, c: SpawnCandidates) -> Point {
    Point {
        x: clamp_coord(player.x + farther(c.negative_x, c.positive_x)) as i32,
        y: clamp_coord(player.y + farther(c.negative_y, c.positive_y)) as i32,
    }
}

/// The enemy that power level `power_level` calls for, running at `speed`.
pub open spec fn enemy_of_power(power_level: u32, speed: u32) -> Enemy {
    Enemy {
        health: scaled_i32(HEALTH_PER_POWER as int, power_level as int) as i32,
        speed,
        damage: scaled_i32(DAMAGE_PER_POWER as int, power_level as int) as i32,
    }
}

/// `speed` is one that can be drawn at `power_level`: at least the slowest
/// and under the fastest, or the slowest itself where the two meet.
pub open spec fn speed_in_range(speed: u32, power_level: u32) -> bool {
    let slowest = scaled_u32(MIN_SPEED_PER_POWER as int, power_level as int);
    let fastest = scaled_u32(MAX_SPEED_PER_POWER as int, power_level as int);
    slowest <= speed && (speed < fastest || (slowest == fastest && speed == slowest))
}

/// Each candidate lies on its side of the player, within the spawn band.
pub open spec fn in_band(c: SpawnCandidates) -> bool {
    &&& -SPAWN_FAR <= c.negative_x <= -SPAWN_NEAR
    &&& SPAWN_NEAR <= c.positive_x <= SPAWN_FAR
    &&& -SPAWN_FAR <= c.negative_y <= -SPAWN_NEAR
    &&& SPAWN_NEAR <= c.positive_y <= SPAWN_FAR
}

/// The director after a tick of `delta`: its timer has ticked and the power
/// level has risen by one if the timer completed.
pub open spec fn directed(d: EnemyPowerUpTimer, delta: u32) -> EnemyPowerUpTimer {
    EnemyPowerUpTimer {
        timer: d.timer.ticked(delta as u64),
        power_level: if d.timer.fires(delta as u64) && d.power_level < u32::MAX {
            (d.power_level + 1) as u32
        } else {
            d.power_level
        },
    }
}

impl Default for EnemyPowerUpTimer {
    fn default() -> (r: Self)
        ensures
            r.timer == Timer::fresh(POWER_UP_INTERVAL, TimerMode::Repeating),
            r.power_level == 1,
    {
        EnemyPowerUpTimer { timer: Timer::new(POWER_UP_INTERVAL, TimerMode::Repeating), power_level: 1 }
    }
}

fn farther_of(negative: i32, positive: i32) -> (r: i32)
    ensures
        r == farther(negative, positive),
{
    let n: i64 = if negative < 0 { -(negative as i64) } else { negative as i64 };
    let p: i64 = if positive < 0 { -(positive as i64) } else { positive as i64 };
    if n > p {
        negative
    } else {
        positive
    }
}

/// Picks the spawn position from the candidates that were drawn.
pub fn spawn_position(player: Point, candidates: SpawnCandidates) -> (p: Point)
    ensures
        p == spawn_point(player, candidates),
{
    let dx = farther_of(candidates.negative_x, candidates.positive_x);
    let dy = farther_of(candidates.negative_y, candidates.positive_y);
    Point {
        x: clamp_to_coord(player.x as i128 + dx as i128),
        y: clamp_to_coord(player.y as i128 + dy as i128),
    }
}

/// Builds the enemy that `power_level` calls for.
pub fn scale_enemy(power_level: u32, speed: u32) -> (e: Enemy)
    ensures
        e == enemy_of_power(power_level, speed),
{
    let health: i64 = 100 * (power_level as i64);
    let damage: i64 = power_level as i64;
    Enemy {
        health: if health > 2147483647 { 2147483647 } else { health as i32 },
        speed,
        damage: if damage > 2147483647 { 2147483647 } else { damage as i32 },
    }
}

/// The slowest and the fastest speed to draw from at `power_level`.
pub fn speed_range(power_level: u32) -> (range: (u32, u32))
    ensures
        range.0 as int == scaled_u32(MIN_SPEED_PER_POWER as int, power_level as int),
        range.0 <= range.1,
        range.1 as int == if scaled_u32(MIN_SPEED_PER_POWER as int, power_level as int)
            < scaled_u32(MAX_SPEED_PER_POWER as int, power_level as int) {
            scaled_u32(MAX_SPEED_PER_POWER as int, power_level as int) - 1
        } else {
            scaled_u32(MAX_SPEED_PER_POWER as int, power_level as int)
        },
{
    let low: u64 = 100 * (power_level as u64);
    let high: u64 = 200 * (power_level as u64);
    let low: u32 = if low > 0xFFFF_FFFF { 0xFFFF_FFFF } else { low as u32 };
    let high: u32 = if high > 0xFFFF_FFFF { 0xFFFF_FFFF } else { high as u32 };
    if low < high {
        (low, high - 1)
    } else {
        (low, high)
    }
}

/// Ticks the director and raises the power level when its timer completes.
pub fn raise_power(director: &mut EnemyPowerUpTimer, delta: u32)
    ensures
        *final(director) == directed(*old(director), delta),
{
    director.timer.tick(delta as u64);
    if director.timer.just_finished() && director.power_level < u32::MAX {
        director.power_level = director.power_level + 1;
    }
}

/// One tick of the spawner. Without a player nothing happens. With one, the
/// director and the spawn timer tick, and when the spawn timer completes a
/// single enemy of the current power level is created somewhere in the spawn
/// band around the player.
pub fn spawn_enemies(
    spawn_timer: &mut EnemySpawnTimer,
    director: &mut EnemyPowerUpTimer,
    player: Option<Point>,
    delta: u32,
    next_id: u64,
    rng: &mut StdRng,
) -> (spawned: Option<EnemyUnit>)
    ensures
        player is None ==> {
            &&& spawned is None
            &&& final(spawn_timer).timer == old(spawn_timer).timer
            &&& *final(director) == *old(director)
        },
        player matches Some(p) ==> {
            &&& final(spawn_timer).timer == old(spawn_timer).timer.ticked(delta as u64)
            &&& *final(director) == directed(*old(director), delta)
            &&& spawned is Some == old(spawn_timer).timer.fires(delta as u64)
            &&& spawned matches Some(unit) ==> {
                &&& unit.id == next_id
                &&& unit.enemy == enemy_of_power(final(director).power_level, unit.enemy.speed)
                &&& speed_in_range(unit.enemy.speed, final(director).power_level)
                &&& exists|c: SpawnCandidates|
                    in_band(c) && unit.position == #[trigger] spawn_point(p, c)
                &&& unit.aabb == AABB::around(unit.position, ENEMY_SIZE, ENEMY_SIZE)
            }
        },
{
    let at = match player {
        Some(p) => p,
        None => {
            return None;
        },
    };
    raise_power(director, delta);
    spawn_timer.timer.tick(delta as u64);
    if !spawn_timer.timer.just_finished() {
        return None;
    }
    let candidates = SpawnCandidates {
        negative_x: random_between(rng, -500_000, -200_000) as i32,
        positive_x: random_between(rng, 200_000, 500_000) as i32,
        negative_y: random_between(rng, -500_000, -200_000) as i32,
        positive_y: random_between(rng, 200_000, 500_000) as i32,
    };
    let position = spawn_position(at, candidates);
    let (slowest, fastest) = speed_range(director.power_level);
    let speed = random_between(rng, slowest as i64, fastest as i64) as u32;
    let enemy = scale_enemy(director.power_level, speed);
    assert(in_band(candidates) && position == spawn_point(at, candidates));
    Some(EnemyUnit { id: next_id, position, enemy, aabb: AABB::new(position, ENEMY_SIZE, ENEMY_SIZE) })
}

/// An enemy spawns at least the near distance and at most the far distance
/// from the player on each axis, unless the edge of the grid stops it.
pub proof fn lemma_spawn_keeps_distance(player: Point, c: SpawnCandidates)
    requires
        in_band(c),
        i32::MIN + SPAWN_FAR <= player.x <= i32::MAX - SPAWN_FAR,
        i32::MIN + SPAWN_FAR <= player.y <= i32::MAX - SPAWN_FAR,
    ensures
        ({
            let p = spawn_point(player, c);
            let dx = p.x - player.x;
            let dy = p.y - player.y;
            &&& SPAWN_NEAR <= dx <= SPAWN_FAR || -SPAWN_FAR <= dx <= -SPAWN_NEAR
            &&& SPAWN_NEAR <= dy <= SPAWN_FAR || -SPAWN_FAR <= dy <= -SPAWN_NEAR
        }),
{
}

/// The power level never falls, and enemies of a higher level are never weaker.
pub proof fn lemma_difficulty_is_monotonic(d: EnemyPowerUpTimer, delta: u32, speed: u32)
    ensures
        directed(d, delta).power_level >= d.power_level,
        enemy_of_power(directed(d, delta).power_level, speed).health >= enemy_of_power(
            d.power_level,
            speed,
        ).health,
        enemy_of_power(directed(d, delta).power_level, speed).damage >= enemy_of_power(
            d.power_level,
            speed,
        ).damage,
{
}

} // verus!
