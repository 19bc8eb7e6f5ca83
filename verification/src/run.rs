//! What belongs to one run of the game: its entities, its timers, and the
//! systems that start it, end it and clean up after it.

use vstd::prelude::*;
use crate::aabb::{Point, AABB};
use crate::collectible::Pickup;
use crate::enemy::{EnemyUnit, SpriteFrame};
use crate::game_state::{GameState, NextState};
use crate::player::{health_after_contact, Player};
use crate::score::GameScore;
use crate::spawner::EnemyPowerUpTimer;
use crate::timers::{EnemySpawnTimer, MoveTimer, PlayerHealthReduceTimer, Timer, TimerMode};
use crate::weapon_stats::{spawn_weapons_for_player, starting_weapons};
use crate::weapons::{ProjectileUnit, WeaponUnit};

verus! {

/// Width and height of the player's collision box, in thousandths.
pub const PLAYER_SIZE: u32 = 40_000;

/// Health the player starts a run with.
pub const STARTING_HEALTH: u32 = 1;

/// Milliseconds a blast stays on screen.
pub const EXPLOSION_LIFETIME: u64 = 300;

/// The player as the simulation sees it.
#[derive(Clone, Copy, Debug, PartialEq, Eq, Structural)]
pub struct PlayerUnit {
    pub id: u64,
    pub position: Point,
    pub player: Player,
    pub aabb: AABB,
    /// Frame of the walk cycle, once the sprite has its atlas.
    pub atlas_index: Option<usize>,
}

/// The picture of a blast; it goes away by itself.
#[derive(Clone, Copy, Debug, PartialEq, Eq, Structural)]
pub struct Explosion {
    pub position: Point,
    pub lifetime: Timer,
}

/// A button of the main menu.
#[derive(Clone, Copy, Debug, PartialEq, Eq, Structural)]
pub enum MenuButton {
    Play,
    Settings,
    Quit,
}

/// Everything that is created during a run and removed when it ends.
pub struct RunEntities {
    pub player: Option<PlayerUnit>,
    pub weapons: Vec<WeaponUnit>,
    pub enemies: Vec<EnemyUnit>,
    pub sprites: Vec<SpriteFrame>,
    pub projectiles: Vec<ProjectileUnit>,
    pub pickups: Vec<Pickup>,
    pub explosions: Vec<Explosion>,
}

/// The timers and flags of a run. They are set back to their defaults when
/// a new run is asked for, and nowhere else.
pub struct RunResources {
    /// The player and the weapons of this run have been created.
    pub atlases_ready: bool,
    pub spawn_timer: EnemySpawnTimer,
    pub move_timer: MoveTimer,
    pub reduce_timer: PlayerHealthReduceTimer,
    pub enemy_power: EnemyPowerUpTimer,
}

impl PlayerUnit {
    /// The player as a run starts: at the origin, at level one, with nothing gained.
    pub open spec fn starting(id: u64) -> PlayerUnit {
        PlayerUnit {
            id,
            position: Point { x: 0, y: 0 },
            player: Player {
                health: STARTING_HEALTH,
                score: 0,
                movement: 200,
                xp: 0,
                level: 1,
                xp_to_next_level: 100,
            },
            aabb: AABB::around(Point { x: 0, y: 0 }, PLAYER_SIZE, PLAYER_SIZE),
            atlas_index: Some(0),
        }
    }
}

impl Explosion {
    /// The blast shown at `position`.
    pub fn at(position: Point) -> (e: Explosion)
        ensures
            e == (Explosion {
                position,
                lifetime: Timer::fresh(EXPLOSION_LIFETIME, TimerMode::Once),
            }),
    {
        Explosion { position, lifetime: Timer::new(EXPLOSION_LIFETIME, TimerMode::Once) }
    }
}

impl RunEntities {
    /// Nothing exists.
    pub open spec fn is_empty(self) -> bool {
        &&& self.player is None
        &&& self.weapons@.len() == 0
        &&& self.enemies@.len() == 0
        &&& self.sprites@.len() == 0
        &&& self.projectiles@.len() == 0
        &&& self.pickups@.len() == 0
        &&& self.explosions@.len() == 0
    }

    /// Everything but the player is as in `other`.
    pub open spec fn same_world_as(self, other: RunEntities) -> bool {
        &&& self.weapons@ == other.weapons@
        &&& self.enemies@ == other.enemies@
        &&& self.sprites@ == other.sprites@
        &&& self.projectiles@ == other.projectiles@
        &&& self.pickups@ == other.pickups@
        &&& self.explosions@ == other.explosions@
    }

    /// A world with nothing in it.
    pub fn new() -> (e: RunEntities)
        ensures
            e.is_empty(),
    {
        RunEntities {
            player: None,
            weapons: Vec::new(),
            enemies: Vec::new(),
            sprites: Vec::new(),
            projectiles: Vec::new(),
            pickups: Vec::new(),
            explosions: Vec::new(),
        }
    }
}

impl RunResources {
    /// Every timer is fresh, the power level is one and nothing has been created.
    pub open spec fn is_fresh(self) -> bool {
        &&& !self.atlases_ready
        &&& self.spawn_timer.timer == Timer::fresh(10, TimerMode::Repeating)
        &&& self.move_timer.timer == Timer::fresh(200, TimerMode::Repeating)
        &&& self.reduce_timer.timer == Timer::fresh(200, TimerMode::Repeating)
        &&& self.enemy_power.timer == Timer::fresh(
            crate::spawner::POWER_UP_INTERVAL,
            TimerMode::Repeating,
        )
        &&& self.enemy_power.power_level == 1
    }
}

impl Default for RunResources {
    fn default() -> (r: Self)
        ensures
            r.is_fresh(),
    {
        RunResources {
            atlases_ready: false,
            spawn_timer: EnemySpawnTimer::default(),
            move_timer: MoveTimer::default(),
            reduce_timer: PlayerHealthReduceTimer::default(),
            enemy_power: EnemyPowerUpTimer::default(),
        }
    }
}

/// Reacts to the buttons pressed in the main menu: "Play" asks for loading.
/// Says whether the game is to quit.
pub fn handle_menu_buttons(pressed: &Vec<MenuButton>, next_state: &mut NextState) -> (quit: bool)
    ensures
        quit == exists|i: int| 0 <= i < pressed@.len() && #[trigger] pressed@[i] == MenuButton::Quit,
        final(next_state).pending == if exists|i: int|
            0 <= i < pressed@.len() && #[trigger] pressed@[i] == MenuButton::Play {
            Some(GameState::Loading)
        } else {
            old(next_state).pending
        },
{
    let mut quit = false;
    let mut i: usize = 0;
    while i < pressed.len()
        invariant
            i <= pressed.len(),
            quit == exists|j: int| 0 <= j < i && #[trigger] pressed@[j] == MenuButton::Quit,
            next_state.pending == if exists|j: int|
                0 <= j < i && #[trigger] pressed@[j] == MenuButton::Play {
                Some(GameState::Loading)
            } else {
                old(next_state).pending
            },
        decreases pressed.len() - i,
    {
        match pressed[i] {
            MenuButton::Play => {
                next_state.set(GameState::Loading);
            },
            MenuButton::Settings => {},
            MenuButton::Quit => {
                quit = true;
            },
        }
        i += 1;
    }
    quit
}

/// Starts the run once what it needs has been loaded: creates the player
/// with its three weapons and asks for play to begin. Until then, and once
/// the run has started, nothing happens.
pub fn prepare_atlases_and_spawn(
    resources: &mut RunResources,
    assets_loaded: bool,
    player_entity: u64,
    entities: &mut RunEntities,
    next_state: &mut NextState,
)
    ensures
        final(resources).spawn_timer.timer == old(resources).spawn_timer.timer,
        final(resources).move_timer.timer == old(resources).move_timer.timer,
        final(resources).reduce_timer.timer == old(resources).reduce_timer.timer,
        final(resources).enemy_power == old(resources).enemy_power,
        old(resources).atlases_ready || !assets_loaded ==> {
            &&& final(resources).atlases_ready == old(resources).atlases_ready
            &&& *final(entities) == *old(entities)
            &&& *final(next_state) == *old(next_state)
        },
        !old(resources).atlases_ready && assets_loaded ==> {
            &&& final(resources).atlases_ready
            &&& final(entities).player == Some(PlayerUnit::starting(player_entity))
            &&& final(entities).weapons@ == starting_weapons(player_entity, Point { x: 0, y: 0 })
            &&& final(entities).enemies@ == old(entities).enemies@
            &&& final(entities).sprites@ == old(entities).sprites@
            &&& final(entities).projectiles@ == old(entities).projectiles@
            &&& final(entities).pickups@ == old(entities).pickups@
            &&& final(entities).explosions@ == old(entities).explosions@
            &&& final(next_state).pending == Some(GameState::Playing)
        },
{
    if resources.atlases_ready {
        return ;
    }
    if !assets_loaded {
        return ;
    }
    resources.atlases_ready = true;
    let origin = Point::new(0, 0);
    entities.player = Some(
        PlayerUnit {
            id: player_entity,
            position: origin,
            player: Player {
                health: STARTING_HEALTH,
                score: 0,
                movement: 200,
                xp: 0,
                level: 1,
                xp_to_next_level: 100,
            },
            aabb: AABB::new(origin, PLAYER_SIZE, PLAYER_SIZE),
            atlas_index: Some(0),
        },
    );
    entities.weapons = spawn_weapons_for_player(player_entity, origin);
    next_state.set(GameState::Playing);
}

/// Applies contact damage at the pace of the health timer, not of the frames.
///
/// The timer always runs. When it completes and there is a player, every
/// enemy whose box touches the player's deals its damage once. A player
/// whose health reaches zero is removed and the game is over.
pub fn reduce_player_health(
    entities: &mut RunEntities,
    player_health_reduce_timer: &mut PlayerHealthReduceTimer,
    delta: u32,
    next_state: &mut NextState,
)
    ensures
        final(player_health_reduce_timer).timer == old(player_health_reduce_timer).timer.ticked(
            delta as u64,
        ),
        final(entities).same_world_as(*old(entities)),
        !old(player_health_reduce_timer).timer.fires(delta as u64) || old(entities).player is None
            ==> {
            &&& final(entities).player == old(entities).player
            &&& *final(next_state) == *old(next_state)
        },
        old(player_health_reduce_timer).timer.fires(delta as u64) ==> (old(
            entities,
        ).player matches Some(before) ==> {
            let health = health_after_contact(
                before.player.health,
                old(entities).enemies@,
                before.aabb,
            );
            if health == 0 {
                &&& final(entities).player is None
                &&& final(next_state).pending == Some(GameState::GameOver)
            } else {
                &&& final(entities).player == Some(
                    PlayerUnit { player: Player { health, ..before.player }, ..before },
                )
                &&& *final(next_state) == *old(next_state)
            }
        }),
{
    player_health_reduce_timer.timer.tick(delta as u64);
    if !player_health_reduce_timer.timer.just_finished() {
        return ;
    }
    let mut unit = match entities.player {
        Some(u) => u,
        None => {
            return ;
        },
    };
    let dead = unit.player.take_damage(&entities.enemies, &unit.aabb);
    if dead {
        entities.player = None;
        next_state.set(GameState::GameOver);
    } else {
        entities.player = Some(unit);
    }
}

/// Removes everything that belongs to the run and sets the score to zero.
pub fn cleanup_game(entities: &mut RunEntities, score: &mut GameScore)
    ensures
        final(entities).is_empty(),
        final(score).score == 0,
{
    entities.player = None;
    entities.weapons = Vec::new();
    entities.enemies = Vec::new();
    entities.sprites = Vec::new();
    entities.projectiles = Vec::new();
    entities.pickups = Vec::new();
    entities.explosions = Vec::new();
    score.reset();
}

/// On the end screen: when restart is pressed, every resource of the run
/// goes back to its default and loading is asked for.
pub fn restart_on_key(pressed: bool, resources: &mut RunResources, next_state: &mut NextState)
    ensures
        pressed ==> final(resources).is_fresh() && final(next_state).pending == Some(
            GameState::Loading,
        ),
        !pressed ==> *final(resources) == *old(resources) && *final(next_state) == *old(next_state),
{
    if pressed {
        *resources = RunResources::default();
        next_state.set(GameState::Loading);
    }
}

/// The blasts that are still to be shown after `delta` milliseconds, in order.
pub open spec fn still_shown(explosions: Seq<Explosion>, delta: u32) -> Seq<Explosion>
    decreases explosions.len(),
{
    if explosions.len() == 0 {
        Seq::empty()
    } else {
        let earlier = still_shown(explosions.drop_last(), delta);
        let last = explosions.last();
        if last.lifetime.ticked(delta as u64).finished {
            earlier
        } else {
            earlier.push(Explosion { lifetime: last.lifetime.ticked(delta as u64), ..last })
        }
    }
}

/// Runs the lifetimes of the blasts and removes those that are over.
pub fn despawn_explosions(explosions: &mut Vec<Explosion>, delta: u32)
    ensures
        final(explosions)@ == still_shown(old(explosions)@, delta),
{
    let mut shown: Vec<Explosion> = Vec::new();
    let ghost all = explosions@;
    let mut i: usize = 0;
    while i < explosions.len()
        invariant
            i <= explosions.len(),
            explosions@ == all,
            shown@ == still_shown(all.take(i as int), delta),
        decreases explosions.len() - i,
    {
        proof {
            assert(all.take(i as int + 1).drop_last() == all.take(i as int));
            assert(all.take(i as int + 1).last() == all[i as int]);
        }
        let mut e = explosions[i];
        e.lifetime.tick(delta as u64);
        if !e.lifetime.finished() {
            shown.push(e);
        }
        i += 1;
    }
    proof {
        assert(all.take(i as int) == all);
    }
    *explosions = shown;
}

} // verus!
