//! Enemies: their health, their pursuit of the player and their walk cycle.

use vstd::prelude::*;
use crate::aabb::{displaced, heading, step_length, Point, AABB};
use crate::timers::Timer;

verus! {

/// Frames in one facing band of the walk-cycle atlas.
pub const FRAMES_PER_BAND: usize = 9;

/// First atlas frame of each facing band.
pub const BAND_UP: usize = 0;

pub const BAND_LEFT: usize = 9;

pub const BAND_DOWN: usize = 18;

pub const BAND_RIGHT: usize = 27;

#[derive(Clone, Copy, Debug, PartialEq, Eq, Structural)]
pub struct Enemy {
    pub health: i32,
    /// World units per second.
    pub speed: u32,
    pub damage: i32,
}

/// Position of an enemy sprite in its walk cycle.
#[derive(Clone, Copy, Debug, PartialEq, Eq, Structural)]
pub struct EnemySprit {
    pub index: usize,
}

/// An enemy as the simulation sees it: handle, position, stats and collision box.
#[derive(Clone, Copy, Debug, PartialEq, Eq, Structural)]
pub struct EnemyUnit {
    pub id: u64,
    pub position: Point,
    pub enemy: Enemy,
    pub aabb: AABB,
}

/// A sprite drawn for the enemy at position `parent` of the enemy list.
/// `atlas_index` is `None` while the sprite has no atlas to pick a frame from.
#[derive(Clone, Copy, Debug, PartialEq, Eq, Structural)]
pub struct SpriteFrame {
    pub parent: usize,
    pub sprite: EnemySprit,
    pub atlas_index: Option<usize>,
}

/// Health left after a hit: damage is taken off, and the result never drops
/// below zero. A negative `damage` counts as none.
pub open spec fn health_after(health: int, damage: int) -> int {
    let taken = if damage < 0 { 0 } else { damage };
    if health - taken < 0 {
        0
    } else {
        health - taken
    }
}

/// The band of atlas frames that faces along the offset `(dx, dy)`: the
/// axis on which the offset is longer decides, and the vertical axis wins a
/// tie. The offset itself is looked at, not a rounded heading, so an offset
/// just off the diagonal gets the band of its longer side.
pub open spec fn facing_band(dx: int, dy: int) -> int {
    let ax = if dx < 0 { -dx } else { dx };
    let ay = if dy < 0 { -dy } else { dy };
    if ax > ay {
        if dx > 0 {
            BAND_RIGHT as int
        } else {
            BAND_LEFT as int
        }
    } else if dy > 0 {
        BAND_UP as int
    } else {
        BAND_DOWN as int
    }
}

/// The walk-cycle position that follows `index`.
pub open spec fn next_cycle_index(index: usize) -> int {
    (index + 1) % (FRAMES_PER_BAND as int)
}

/// The sprite one step further in its walk cycle, facing from `from` toward `to`.
pub open spec fn stepped(frame: SpriteFrame, from: Point, to: Point) -> SpriteFrame {
    let i = next_cycle_index(frame.sprite.index);
    SpriteFrame {
        parent: frame.parent,
        sprite: EnemySprit { index: i as usize },
        atlas_index: if frame.atlas_index is Some {
            Some((facing_band(to.x - from.x, to.y - from.y) + i) as usize)
        } else {
            None
        },
    }
}

/// The enemy after `delta` milliseconds of running straight at `player`.
/// One that stands exactly on the player stays as it is.
pub open spec fn pursued(unit: EnemyUnit, player: Point, delta: u32) -> EnemyUnit {
    if unit.position == player {
        unit
    } else {
        let dir = heading(player.x - unit.position.x, player.y - unit.position.y);
        let position = displaced(unit.position, dir, unit.enemy.speed * delta);
        EnemyUnit { position, aabb: unit.aabb.moved_to(position), ..unit }
    }
}

/// The sprite after a tick: it steps when the walk cycle is due and its
/// enemy exists and moved, facing the way that enemy ran.
pub open spec fn animated(
    frame: SpriteFrame,
    enemies: Seq<EnemyUnit>,
    player: Point,
    due: bool,
) -> SpriteFrame {
    if due && frame.parent < enemies.len() && enemies[frame.parent as int].position != player {
        stepped(frame, enemies[frame.parent as int].position, player)
    } else {
        frame
    }
}

impl Enemy {
    /// Takes `damage` off the health, stopping at zero.
    pub fn take_hit(&mut self, damage: u64)
        ensures
            final(self).health == health_after(old(self).health as int, damage as int),
            final(self).speed == old(self).speed,
            final(self).damage == old(self).damage,
    {
        let left: i128 = self.health as i128 - damage as i128;
        self.health = if left < 0 { 0 } else { left as i32 };
    }

    /// Whether this enemy is to be removed.
    pub fn is_dead(&self) -> (dead: bool)
        ensures
            dead == (self.health <= 0),
    {
        self.health <= 0
    }
}

impl SpriteFrame {
    /// Steps the walk cycle and picks the atlas frame that faces from `from` toward `to`.
    pub fn step(&mut self, from: Point, to: Point)
        ensures
            *final(self) == stepped(*old(self), from, to),
    {
        let i: usize = (self.sprite.index % 9 + 1) % 9;
        self.sprite.index = i;
        let dx: i64 = to.x as i64 - from.x as i64;
        let dy: i64 = to.y as i64 - from.y as i64;
        let ax: i64 = if dx < 0 { -dx } else { dx };
        let ay: i64 = if dy < 0 { -dy } else { dy };
        let band: usize = if ax > ay {
            if dx > 0 {
                BAND_RIGHT
            } else {
                BAND_LEFT
            }
        } else if dy > 0 {
            BAND_UP
        } else {
            BAND_DOWN
        };
        if self.atlas_index.is_some() {
            self.atlas_index = Some(band + i);
        }
    }
}

/// Moves every enemy toward the player and, when the walk-cycle timer
/// completes, steps the sprites of the enemies that moved.
///
/// Without a player nothing happens: no enemy moves and the timer is not ticked.
pub fn follow(
    player: Option<Point>,
    enemies: &mut Vec<EnemyUnit>,
    delta: u32,
    move_timer: &mut Timer,
    sprites: &mut Vec<SpriteFrame>,
)
    ensures
        player is None ==> {
            &&& final(enemies)@ == old(enemies)@
            &&& *final(move_timer) == *old(move_timer)
            &&& final(sprites)@ == old(sprites)@
        },
        player matches Some(p) ==> {
            &&& *final(move_timer) == old(move_timer).ticked(delta as u64)
            &&& final(enemies)@.len() == old(enemies)@.len()
            &&& forall|i: int|
                0 <= i < old(enemies)@.len() ==> #[trigger] final(enemies)@[i] == pursued(
                    old(enemies)@[i],
                    p,
                    delta,
                )
            &&& final(sprites)@.len() == old(sprites)@.len()
            &&& forall|k: int|
                0 <= k < old(sprites)@.len() ==> #[trigger] final(sprites)@[k] == animated(
                    old(sprites)@[k],
                    old(enemies)@,
                    p,
                    old(move_timer).fires(delta as u64),
                )
        },
{
    let target = match player {
        Some(p) => p,
        None => {
            return ;
        },
    };
    move_timer.tick(delta as u64);
    let due = move_timer.just_finished();
    let ghost before = enemies@;

    let mut k: usize = 0;
    while k < sprites.len()
        invariant
            k <= sprites.len(),
            sprites@.len() == old(sprites)@.len(),
            enemies@ == before,
            before == old(enemies)@,
            forall|j: int|
                0 <= j < k ==> #[trigger] sprites@[j] == animated(
                    old(sprites)@[j],
                    before,
                    target,
                    due,
                ),
            forall|j: int| k <= j < sprites@.len() ==> #[trigger] sprites@[j] == old(sprites)@[j],
        decreases sprites.len() - k,
    {
        let mut frame = sprites[k];
        if due && frame.parent < enemies.len() {
            let at = enemies[frame.parent].position;
            if at.x != target.x || at.y != target.y {
                frame.step(at, target);
                sprites.set(k, frame);
            }
        }
        k += 1;
    }

    let mut i: usize = 0;
    while i < enemies.len()
        invariant
            i <= enemies.len(),
            enemies@.len() == before.len(),
            forall|j: int| 0 <= j < i ==> #[trigger] enemies@[j] == pursued(before[j], target, delta),
            forall|j: int| i <= j < enemies@.len() ==> #[trigger] enemies@[j] == before[j],
        decreases enemies.len() - i,
    {
        let mut unit = enemies[i];
        match unit.position.direction_to(target) {
            Some(dir) => {
                unit.position = unit.position.displace(dir, step_length(unit.enemy.speed, delta));
                unit.aabb.change_point(unit.position);
                enemies.set(i, unit);
            },
            None => {},
        }
        i += 1;
    }
}

/// Damage saturates: for any health and any damage that is not negative,
/// what is left is the difference where that is positive and zero otherwise.
/// It is never negative and never more than there was.
pub proof fn lemma_damage_saturates(health: int, damage: int)
    requires
        damage >= 0,
    ensures
        health_after(health, damage) == if health - damage > 0 {
            health - damage
        } else {
            0
        },
        health_after(health, damage) >= 0,
        health >= 0 ==> health_after(health, damage) <= health,
        health_after(health_after(health, damage), 0) == health_after(health, damage),
{
}

} // verus!
