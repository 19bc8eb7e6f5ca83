//! The player: movement, contact damage, experience and levels.

use vstd::prelude::*;
use crate::aabb::{clamp_coord, clamp_to_coord, heading, Direction, Point, AABB};
use crate::enemy::{health_after, EnemyUnit};
use crate::game_state::{GameState, NextState};
use crate::score::GameScore;
use crate::timers::Timer;
use crate::weapon_upgrade::{next_level, LevelUpEvent};
use crate::weapons::{find_nearest_enemy, nearest_enemy};

verus! {

/// Frames in the player's walk cycle.
pub const PLAYER_FRAMES: usize = 35;

/// The experience needed for the next level grows by this factor, three
/// halves, with every level.
pub const XP_GROWTH_NUMERATOR: u64 = 3;

pub const XP_GROWTH_DENOMINATOR: u64 = 2;

/// Experience granted for each kill.
pub const XP_PER_KILL: u64 = 10;

/// Cooldown, in milliseconds, that the player's own gun is set to on a level-up.
pub const LEVELED_SHOOT_COOLDOWN: u64 = 100;

#[derive(Clone, Copy, Debug, PartialEq, Eq, Structural)]
pub struct Player {
    pub health: u32,
    pub score: u32,
    /// World units per second.
    pub movement: u32,
    pub xp: u64,
    pub level: i32,
    pub xp_to_next_level: u64,
}

/// Which of the four movement keys are held down.
#[derive(Clone, Copy, Debug, PartialEq, Eq, Structural)]
pub struct MoveKeys {
    pub left: bool,
    pub right: bool,
    pub up: bool,
    pub down: bool,
}

/// A shot of the player's own gun: where it starts and where it heads.
#[derive(Clone, Copy, Debug, PartialEq, Eq, Structural)]
pub struct Shot {
    pub origin: Point,
    pub direction: Direction,
}

/// `a + b`, stopping at the largest value of 64 unsigned bits.
pub open spec fn capped_sum(a: u64, b: u64) -> u64 {
    if a + b > u64::MAX {
        u64::MAX
    } else {
        (a + b) as u64
    }
}

/// The experience needed for the level after one that needed `threshold`:
/// three halves of it. Experience is counted in whole points, so half a
/// point is dropped each time the growth does not come out even (100, 150,
/// 225, then 337 where the exact series has 337.5), and every later
/// threshold grows from the rounded one. The largest value of 64 unsigned
/// bits is where the growth stops.
pub open spec fn grown(threshold: u64) -> u64 {
    let next = (threshold * XP_GROWTH_NUMERATOR) / (XP_GROWTH_DENOMINATOR as int);
    if next > u64::MAX {
        u64::MAX
    } else {
        next as u64
    }
}

/// The coordinate `c` after two moves in a row, each stopped by the edge of
/// the grid. A key that is not held moves by zero.
pub open spec fn steered(c: i32, first: int, second: int) -> int {
    clamp_coord(clamp_coord(c + first) + second)
}

/// The move that a key makes: `step` while it is held, nothing otherwise.
pub open spec fn key_step(held: bool, step: int) -> int {
    if held {
        step
    } else {
        0
    }
}

/// The player's walk-cycle frame after a tick on which the cycle is `due` or not.
pub open spec fn walk_frame(frame: Option<usize>, due: bool) -> Option<usize> {
    match frame {
        Some(index) => if due {
            Some(((index + 1) % (PLAYER_FRAMES as int)) as usize)
        } else {
            frame
        },
        None => None,
    }
}

/// Health left after every enemy whose box touches `aabb` has dealt its
/// damage, in list order. Once the health is zero nothing more is taken.
pub open spec fn health_after_contact(health: u32, enemies: Seq<EnemyUnit>, aabb: AABB) -> u32
    decreases enemies.len(),
{
    if enemies.len() == 0 {
        health
    } else {
        let before = health_after_contact(health, enemies.drop_last(), aabb);
        if before > 0 && enemies.last().aabb.overlaps(aabb) {
            health_after(before as int, enemies.last().enemy.damage as int) as u32
        } else {
            before
        }
    }
}

impl Player {
    /// The experience reaches the threshold, so a level-up is due.
    pub open spec fn can_level_up(self) -> bool {
        self.xp >= self.xp_to_next_level
    }

    /// The player one level up: the threshold is taken off the experience,
    /// what is beyond it is kept, and the next threshold is larger.
    pub open spec fn one_level_up(self) -> Player {
        Player {
            xp: (self.xp - self.xp_to_next_level) as u64,
            xp_to_next_level: grown(self.xp_to_next_level),
            level: next_level(self.level),
            ..self
        }
    }

    /// The player after every level-up that is due has been made.
    pub open spec fn leveled(self) -> Player
        decreases self.xp,
    {
        if self.xp_to_next_level > 0 && self.can_level_up() {
            self.one_level_up().leveled()
        } else {
            self
        }
    }

    /// The announcements of the level-ups that are due, in order.
    pub open spec fn level_ups(self) -> Seq<LevelUpEvent>
        decreases self.xp,
    {
        if self.xp_to_next_level > 0 && self.can_level_up() {
            seq![LevelUpEvent { level: self.one_level_up().level }] + self.one_level_up().level_ups()
        } else {
            Seq::empty()
        }
    }

    /// The experience that the level-ups that are due use up.
    pub open spec fn xp_spent(self) -> int
        decreases self.xp,
    {
        if self.xp_to_next_level > 0 && self.can_level_up() {
            self.xp_to_next_level + self.one_level_up().xp_spent()
        } else {
            0
        }
    }

    /// The player with `amount` more experience, before any level-up.
    pub open spec fn credited(self, amount: u64) -> Player {
        Player { xp: capped_sum(self.xp, amount), ..self }
    }

    /// Moves the player as the held keys say and steps the walk cycle.
    ///
    /// Left is applied before right and up before down, each by the distance
    /// covered in `delta` milliseconds, so opposite keys cancel.
    /// The camera and the collision box follow the new position; the walk
    /// cycle moves on one frame when `move_timer` has just completed.
    pub fn move_around(
        &self,
        transform: &mut Point,
        aabb: &mut AABB,
        atlas_index: &mut Option<usize>,
        camera_transform: &mut Point,
        keyboard_input: MoveKeys,
        delta: u32,
        move_timer: &Timer,
    )
        ensures
            final(transform).x == steered(
                old(transform).x,
                key_step(keyboard_input.left, -(self.movement * delta)),
                key_step(keyboard_input.right, self.movement * delta),
            ),
            final(transform).y == steered(
                old(transform).y,
                key_step(keyboard_input.up, self.movement * delta),
                key_step(keyboard_input.down, -(self.movement * delta)),
            ),
            *final(aabb) == old(aabb).moved_to(*final(transform)),
            *final(camera_transform) == *final(transform),
            *final(atlas_index) == walk_frame(*old(atlas_index), move_timer.just_finished),
    {
        let mut pos = *transform;
        match *atlas_index {
            Some(index) => {
                if move_timer.just_finished() {
                    *atlas_index = Some((index % 35 + 1) % 35);
                }
            },
            None => {},
        }
        assert(self.movement * delta <= 0xFFFF_FFFF * 0xFFFF_FFFF) by (nonlinear_arith)
            requires
                self.movement <= 0xFFFF_FFFF,
                delta <= 0xFFFF_FFFF,
        ;
        let step: i128 = (self.movement as i128) * (delta as i128);
        if keyboard_input.left {
            pos.x = clamp_to_coord(pos.x as i128 - step);
        }
        if keyboard_input.right {
            pos.x = clamp_to_coord(pos.x as i128 + step);
        }
        if keyboard_input.up {
            pos.y = clamp_to_coord(pos.y as i128 + step);
        }
        if keyboard_input.down {
            pos.y = clamp_to_coord(pos.y as i128 - step);
        }
        *transform = pos;
        aabb.change_point(pos);
        *camera_transform = pos;
    }

    /// Takes the contact damage of every enemy whose box touches the
    /// player's, and says whether the player is to be removed.
    pub fn take_damage(&mut self, enemies: &Vec<EnemyUnit>, player_aabb: &AABB) -> (dead: bool)
        ensures
            final(self).health == health_after_contact(old(self).health, enemies@, *player_aabb),
            final(self).health <= old(self).health,
            dead == (final(self).health == 0),
            final(self).score == old(self).score,
            final(self).movement == old(self).movement,
            final(self).xp == old(self).xp,
            final(self).level == old(self).level,
            final(self).xp_to_next_level == old(self).xp_to_next_level,
    {
        let mut i: usize = 0;
        while i < enemies.len()
            invariant
                i <= enemies.len(),
                self.health == health_after_contact(
                    old(self).health,
                    enemies@.take(i as int),
                    *player_aabb,
                ),
                self.health <= old(self).health,
                self.score == old(self).score,
                self.movement == old(self).movement,
                self.xp == old(self).xp,
                self.level == old(self).level,
                self.xp_to_next_level == old(self).xp_to_next_level,
            decreases enemies.len() - i,
        {
            proof {
                assert(enemies@.take(i as int + 1).drop_last() == enemies@.take(i as int));
                assert(enemies@.take(i as int + 1).last() == enemies@[i as int]);
            }
            let unit = enemies[i];
            if self.health > 0 && unit.aabb.self_aabb_intersects(player_aabb) {
                let taken: i64 = if unit.enemy.damage < 0 { 0 } else { unit.enemy.damage as i64 };
                let left: i64 = self.health as i64 - taken;
                self.health = if left < 0 { 0 } else { left as u32 };
            }
            i += 1;
        }
        proof {
            assert(enemies@.take(i as int) == enemies@);
        }
        self.health == 0
    }

    /// Makes one level-up if one is due, and then speeds up `shoot_timer`.
    pub fn level_up(&mut self, shoot_timer: &mut Timer)
        ensures
            old(self).can_level_up() ==> {
                &&& *final(self) == old(self).one_level_up()
                &&& *final(shoot_timer) == (Timer {
                    duration: LEVELED_SHOOT_COOLDOWN,
                    ..*old(shoot_timer)
                })
            },
            !old(self).can_level_up() ==> {
                &&& *final(self) == *old(self)
                &&& *final(shoot_timer) == *old(shoot_timer)
            },
    {
        if self.xp >= self.xp_to_next_level {
            shoot_timer.set_duration(LEVELED_SHOOT_COOLDOWN);
            self.xp = self.xp - self.xp_to_next_level;
            self.xp_to_next_level = grow(self.xp_to_next_level);
            self.level = if self.level < i32::MAX { self.level + 1 } else { self.level };
        }
    }

    /// Ticks the player's own gun and fires it at the nearest enemy.
    ///
    /// A shot needs the cooldown to complete on this tick and an enemy that
    /// does not stand exactly on the player. The cooldown is used up either
    /// way. After a shot one level-up is made if one is due.
    pub fn shoot(
        &mut self,
        player_transform: Point,
        enemies: &Vec<EnemyUnit>,
        shoot_timer: &mut Timer,
        delta: u32,
    ) -> (shot: Option<Shot>)
        ensures
            shot == shot_at(
                player_transform,
                enemies@,
                old(shoot_timer).fires(delta as u64),
            ),
            shot is None ==> {
                &&& *final(self) == *old(self)
                &&& *final(shoot_timer) == old(shoot_timer).ticked(delta as u64)
            },
            shot is Some && old(self).can_level_up() ==> {
                &&& *final(self) == old(self).one_level_up()
                &&& *final(shoot_timer) == (Timer {
                    duration: LEVELED_SHOOT_COOLDOWN,
                    ..old(shoot_timer).ticked(delta as u64)
                })
            },
            shot is Some && !old(self).can_level_up() ==> {
                &&& *final(self) == *old(self)
                &&& *final(shoot_timer) == old(shoot_timer).ticked(delta as u64)
            },
    {
        shoot_timer.tick(delta as u64);
        if !shoot_timer.just_finished() {
            return None;
        }
        let target = match find_nearest_enemy(player_transform, enemies) {
            None => {
                return None;
            },
            Some(t) => t,
        };
        let direction = match player_transform.direction_to(target) {
            None => {
                return None;
            },
            Some(d) => d,
        };
        self.level_up(shoot_timer);
        Some(Shot { origin: player_transform, direction })
    }

    /// Adds `amount` experience and makes every level-up that is then due.
    ///
    /// Each level-up takes the threshold off the experience and keeps the
    /// rest, raises the threshold, announces the new level and asks for the
    /// upgrade selection.
    pub fn gain_xp(
        &mut self,
        amount: u64,
        message_writer: &mut Vec<LevelUpEvent>,
        next_state: &mut NextState,
    )
        requires
            old(self).xp_to_next_level > 0,
        ensures
            *final(self) == old(self).credited(amount).leveled(),
            final(message_writer)@ == old(message_writer)@ + old(self).credited(amount).level_ups(),
            final(next_state).pending == if old(self).credited(amount).can_level_up() {
                Some(GameState::UpgradeSelection)
            } else {
                old(next_state).pending
            },
            final(self).xp_to_next_level > 0,
            !final(self).can_level_up(),
    {
        self.xp = if amount > u64::MAX - self.xp { u64::MAX } else { self.xp + amount };
        let ghost start = *self;
        let ghost written = message_writer@;
        while self.xp >= self.xp_to_next_level
            invariant
                self.xp_to_next_level > 0,
                start.leveled() == self.leveled(),
                written + start.level_ups() == message_writer@ + self.level_ups(),
                next_state.pending == if *self != start || message_writer@ != written {
                    Some(GameState::UpgradeSelection)
                } else {
                    old(next_state).pending
                },
                message_writer@.len() >= written.len(),
                *self != start ==> message_writer@.len() > written.len(),
            decreases self.xp,
        {
            let ghost before = *self;
            let ghost queue = message_writer@;
            self.xp = self.xp - self.xp_to_next_level;
            self.xp_to_next_level = grow(self.xp_to_next_level);
            self.level = if self.level < i32::MAX { self.level + 1 } else { self.level };
            message_writer.push(LevelUpEvent { level: self.level });
            next_state.set(GameState::UpgradeSelection);
            proof {
                assert(*self == before.one_level_up());
                assert(queue + before.level_ups() =~= message_writer@ + self.level_ups());
            }
        }
        proof {
            assert(message_writer@ + self.level_ups() =~= message_writer@);
            if start.can_level_up() {
                assert(start.level_ups().len() > 0);
                assert(message_writer@.len() == written.len() + start.level_ups().len());
            } else {
                assert(start.level_ups().len() == 0);
                assert(message_writer@.len() == written.len());
                assert(message_writer@ =~= written);
            }
        }
    }
}

impl Default for Player {
    fn default() -> (p: Self)
        ensures
            p == (Player {
                health: 100,
                score: 0,
                movement: 200,
                xp: 0,
                level: 1,
                xp_to_next_level: 100,
            }),
    {
        Player { health: 100, score: 0, movement: 200, xp: 0, level: 1, xp_to_next_level: 100 }
    }
}

/// The shot of the player's own gun on a tick on which its cooldown
/// completed or not.
pub open spec fn shot_at(at: Point, enemies: Seq<EnemyUnit>, cooled: bool) -> Option<Shot> {
    match nearest_enemy(at, enemies) {
        Some(target) => if cooled && target != at {
            Some(Shot { origin: at, direction: heading(target.x - at.x, target.y - at.y) })
        } else {
            None
        },
        None => None,
    }
}

/// The next threshold, on machine integers.
fn grow(threshold: u64) -> (next: u64)
    ensures
        next == grown(threshold),
        threshold > 0 ==> next > 0,
{
    let wide: u128 = (threshold as u128) * 3 / 2;
    if wide > 0xFFFF_FFFF_FFFF_FFFF {
        0xFFFF_FFFF_FFFF_FFFF
    } else {
        wide as u64
    }
}

/// Credits the kills made since the last look at the score, ten experience
/// each, and remembers the score that was seen.
pub fn gain_xp_from_kills(
    player: &mut Player,
    score: &GameScore,
    last_score: &mut u32,
    level_up_events: &mut Vec<LevelUpEvent>,
    next_state: &mut NextState,
)
    requires
        old(player).xp_to_next_level > 0,
    ensures
        score.score > *old(last_score) ==> {
            &&& *final(player) == old(player).credited(
                ((score.score - *old(last_score)) * XP_PER_KILL) as u64,
            ).leveled()
            &&& final(level_up_events)@ == old(level_up_events)@ + old(player).credited(
                ((score.score - *old(last_score)) * XP_PER_KILL) as u64,
            ).level_ups()
            &&& final(next_state).pending == if old(player).credited(
                ((score.score - *old(last_score)) * XP_PER_KILL) as u64,
            ).can_level_up() {
                Some(GameState::UpgradeSelection)
            } else {
                old(next_state).pending
            }
            &&& *final(last_score) == score.score
        },
        score.score <= *old(last_score) ==> {
            &&& *final(player) == *old(player)
            &&& final(level_up_events)@ == old(level_up_events)@
            &&& *final(next_state) == *old(next_state)
            &&& *final(last_score) == *old(last_score)
        },
        final(player).xp_to_next_level > 0,
{
    let kills_gained: u32 = if score.score > *last_score { score.score - *last_score } else { 0 };
    if kills_gained > 0 {
        player.gain_xp(kills_gained as u64 * 10, level_up_events, next_state);
        *last_score = score.score;
    }
}

/// No experience is lost or counted twice: what the player had is what is
/// left plus what the level-ups used up, what is left is under the next
/// threshold, and there is one announcement for each level gained.
pub proof fn lemma_xp_is_conserved(p: Player)
    requires
        p.xp_to_next_level > 0,
    ensures
        p.xp == p.leveled().xp + p.xp_spent(),
        p.leveled().xp < p.leveled().xp_to_next_level,
        p.leveled().health == p.health,
        p.leveled().score == p.score,
        p.leveled().movement == p.movement,
        p.level_ups().len() > 0 <==> p.can_level_up(),
        p.level_ups().len() > 0 ==> p.level_ups().last().level == p.leveled().level,
        p.level + p.level_ups().len() <= i32::MAX ==> p.leveled().level == p.level
            + p.level_ups().len(),
    decreases p.xp,
{
    if p.can_level_up() {
        let q = p.one_level_up();
        assert(q.xp_to_next_level > 0) by {
            assert(p.xp_to_next_level * 3 / 2 >= 1);
        }
        lemma_xp_is_conserved(q);
        let rest = q.level_ups();
        let all = p.level_ups();
        assert(all == seq![LevelUpEvent { level: q.level }] + rest);
        assert(all.len() == 1 + rest.len());
        if rest.len() > 0 {
            assert(all.last() == rest.last());
        } else {
            assert(all.last() == LevelUpEvent { level: q.level });
            assert(!q.can_level_up());
            assert(q.leveled() == q);
        }
    }
}

/// `base` to the power `k`.
pub open spec fn power(base: int, k: nat) -> int
    decreases k,
{
    if k == 0 {
        1
    } else {
        base * power(base, (k - 1) as nat)
    }
}

/// The threshold after `k` level-ups from one that needed `threshold`.
pub open spec fn grown_times(threshold: u64, k: nat) -> u64
    decreases k,
{
    if k == 0 {
        threshold
    } else {
        grown_times(grown(threshold), (k - 1) as nat)
    }
}

/// None of the `k` growths from `threshold` on reaches past 64 unsigned bits.
pub open spec fn grows_freely(threshold: u64, k: nat) -> bool
    decreases k,
{
    k == 0 || (threshold * XP_GROWTH_NUMERATOR / (XP_GROWTH_DENOMINATOR as int) <= u64::MAX
        && grows_freely(grown(threshold), (k - 1) as nat))
}

/// How far a threshold is from three halves of the last: it is the whole
/// part of it, so twice the new threshold is three times the old one or one
/// less. A threshold never shrinks and a positive one stays positive.
pub proof fn lemma_growth_is_three_halves(threshold: u64)
    ensures
        threshold * 3 / 2 <= u64::MAX ==> 2 * grown(threshold) <= 3 * threshold <= 2 * grown(
            threshold,
        ) + 1,
        grown(threshold) >= threshold,
        threshold > 0 ==> grown(threshold) > 0,
{
}

/// How far the thresholds are from the series with the factor of three
/// halves: after `k` level-ups the threshold is at most the `k`-th member
/// of that series and falls short of it by less than the series that starts
/// from one point does, so rounding never costs more than one point of the
/// first threshold carried through the growth. In whole numbers:
/// `3^k (t - 1) + 2^k <= 2^k T <= 3^k t` for the threshold `T` reached from `t`.
pub proof fn lemma_thresholds_track_the_series(threshold: u64, k: nat)
    requires
        grows_freely(threshold, k),
    ensures
        power(3, k) * (threshold - 1) + power(2, k) <= power(2, k) * grown_times(threshold, k),
        power(2, k) * grown_times(threshold, k) <= power(3, k) * threshold,
        power(2, k) >= 1,
        power(3, k) >= 1,
    decreases k,
{
    if k > 0 {
        let j = (k - 1) as nat;
        let g = grown(threshold);
        lemma_growth_is_three_halves(threshold);
        lemma_thresholds_track_the_series(g, j);
        let reached = grown_times(g, j) as int;
        let twos = power(2, j);
        let threes = power(3, j);
        let t = threshold as int;
        assert(power(2, k) == 2 * twos);
        assert(power(3, k) == 3 * threes);
        assert((2 * twos) * reached <= (3 * threes) * t) by (nonlinear_arith)
            requires
                twos * reached <= threes * g,
                2 * g <= 3 * t,
                threes >= 1,
        ;
        assert((3 * threes) * (t - 1) + 2 * twos <= (2 * twos) * reached) by (nonlinear_arith)
            requires
                threes * (g - 1) + twos <= twos * reached,
                3 * t <= 2 * g + 1,
                threes >= 1,
        ;
    }
}

/// The threshold that the level-ups leave is the one reached by growing the
/// first threshold once for each level gained.
pub proof fn lemma_threshold_after_levels(p: Player)
    requires
        p.xp_to_next_level > 0,
    ensures
        p.leveled().xp_to_next_level == grown_times(p.xp_to_next_level, p.level_ups().len()),
    decreases p.xp,
{
    if p.can_level_up() {
        let q = p.one_level_up();
        lemma_growth_is_three_halves(p.xp_to_next_level);
        lemma_threshold_after_levels(q);
        assert(p.level_ups() == seq![LevelUpEvent { level: q.level }] + q.level_ups());
        assert(p.level_ups().len() == 1 + q.level_ups().len());
    }
}

/// A gain loses nothing: what the player had plus what was gained is what
/// is left plus what the level-ups used up, as long as the sum fits in 64
/// unsigned bits, which is where experience stops being counted. The
/// thresholds used up are the rounded ones of `grown`.
pub proof fn lemma_gain_conserves_xp(p: Player, amount: u64)
    requires
        p.xp_to_next_level > 0,
        p.xp + amount <= u64::MAX,
    ensures
        p.xp + amount == p.credited(amount).leveled().xp + p.credited(amount).xp_spent(),
        p.credited(amount).leveled().xp < p.credited(amount).leveled().xp_to_next_level,
{
    lemma_xp_is_conserved(p.credited(amount));
}

/// One level-up carries the overflow forward: the experience beyond the
/// threshold stays, the threshold grows by half, the level rises by one.
/// With 120 experience and a threshold of 100 that leaves 20 and 150.
pub proof fn lemma_overflow_carries(p: Player)
    requires
        p.xp_to_next_level > 0,
        p.can_level_up(),
        p.xp - p.xp_to_next_level < grown(p.xp_to_next_level),
        p.level < i32::MAX,
    ensures
        p.leveled().xp == p.xp - p.xp_to_next_level,
        p.leveled().xp_to_next_level == grown(p.xp_to_next_level),
        p.leveled().level == p.level + 1,
        p.level_ups() == seq![LevelUpEvent { level: (p.level + 1) as i32 }],
        grown(100) == 150,
{
    let q = p.one_level_up();
    assert(!q.can_level_up());
    assert(q.leveled() == q);
    assert(q.level_ups() == Seq::<LevelUpEvent>::empty());
    assert(p.level_ups() =~= seq![LevelUpEvent { level: (p.level + 1) as i32 }]);
}

/// A gain that crosses two thresholds makes two level-ups, one after the other.
pub proof fn lemma_large_gain_levels_twice(p: Player)
    requires
        p.xp_to_next_level > 0,
        p.xp >= p.xp_to_next_level + grown(p.xp_to_next_level),
        p.level < i32::MAX - 1,
    ensures
        p.level_ups().len() >= 2,
        p.level_ups()[0] == (LevelUpEvent { level: (p.level + 1) as i32 }),
        p.level_ups()[1] == (LevelUpEvent { level: (p.level + 2) as i32 }),
        p.leveled() == p.one_level_up().one_level_up().leveled(),
{
    let q = p.one_level_up();
    assert(q.xp_to_next_level > 0) by {
        assert(p.xp_to_next_level * 3 / 2 >= 1);
    }
    assert(q.can_level_up());
    let r = q.one_level_up();
    assert(p.leveled() == q.leveled());
    assert(q.leveled() == r.leveled());
    assert(q.level_ups() == seq![LevelUpEvent { level: r.level }] + r.level_ups());
    assert(p.level_ups() == seq![LevelUpEvent { level: q.level }] + q.level_ups());
}

/// Contact never heals and, per enemy, takes exactly that enemy's damage,
/// stopping at zero.
pub proof fn lemma_contact_damage(health: u32, enemies: Seq<EnemyUnit>, aabb: AABB)
    ensures
        health_after_contact(health, enemies, aabb) <= health,
        enemies.len() == 1 && enemies[0].aabb.overlaps(aabb) && health > 0
            ==> health_after_contact(health, enemies, aabb) == health_after(
            health as int,
            enemies[0].enemy.damage as int,
        ),
        (forall|i: int| 0 <= i < enemies.len() ==> !(#[trigger] enemies[i]).aabb.overlaps(aabb))
            ==> health_after_contact(health, enemies, aabb) == health,
    decreases enemies.len(),
{
    if enemies.len() > 0 {
        lemma_contact_damage(health, enemies.drop_last(), aabb);
        if forall|i: int| 0 <= i < enemies.len() ==> !(#[trigger] enemies[i]).aabb.overlaps(aabb) {
            assert forall|i: int| 0 <= i < enemies.drop_last().len() implies !(
            #[trigger] enemies.drop_last()[i]).aabb.overlaps(aabb) by {
                assert(enemies.drop_last()[i] == enemies[i]);
            }
            assert(!enemies[enemies.len() - 1].aabb.overlaps(aabb));
        }
        if enemies.len() == 1 {
            assert(enemies.drop_last().len() == 0);
        }
    }
}

} // verus!
