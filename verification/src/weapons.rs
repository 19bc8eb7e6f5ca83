//! Weapons and the projectiles they fire.

use vstd::prelude::*;
use crate::aabb::{dist_squared, displaced, heading, step_length, Direction, Point};
use crate::collectible::Pickup;
use crate::enemy::{health_after, Enemy, EnemyUnit};
use crate::score::GameScore;
use crate::timers::{Timer, TimerMode};
use crate::weapon_stats::{
    at_least_zero, clamp_u32, damage_at, explosion_radius_at, fire_rate_at, range_at, speed_at,
    WeaponStats,
};
use crate::weapon_upgrade::{WeaponLevel, WeaponType};

verus! {

/// How far a laser pushes the enemy it hits, along its own heading, in thousandths.
pub const LASER_KNOCKBACK: u64 = 10_000;

/// How far a blast pushes each enemy it reaches, away from its centre, in thousandths.
pub const BLAST_KNOCKBACK: u64 = 20_000;

/// Milliseconds a laser bolt flies before it fades.
pub const LASER_LIFETIME: u64 = 3000;

/// Milliseconds a rocket flies before it fades.
pub const ROCKET_LIFETIME: u64 = 5000;

/// What every weapon has, whatever its kind.
#[derive(Clone, Copy, Debug, PartialEq, Eq, Structural)]
pub struct Weapon {
    /// Handle of the player who carries the weapon.
    pub owner: u64,
    pub damage: u64,
    pub fire_timer: Timer,
    /// Speed of the projectiles, in world units per second.
    pub speed: u32,
}

#[derive(Clone, Copy, Debug, PartialEq, Eq, Structural)]
pub struct LaserWeapon {
    /// Colour of the beam, as `0xAARRGGBB`.
    pub color: u32,
}

#[derive(Clone, Copy, Debug, PartialEq, Eq, Structural)]
pub struct RocketWeapon {
    /// Thousandths of a world unit.
    pub explosion_radius: u32,
}

/// A weapon that burns everything within `radius` of its owner.
#[derive(Clone, Copy, Debug, PartialEq, Eq, Structural)]
pub struct PlayerAddictedWeapon {
    /// Thousandths of a world unit.
    pub radius: u32,
}

/// What a projectile is, with the values its weapon had when it fired.
#[derive(Clone, Copy, Debug, PartialEq, Eq, Structural)]
pub enum ProjectileKind {
    Laser { lazer_weapon: LaserWeapon },
    Rocket { rocket_weapon: RocketWeapon },
}

#[derive(Clone, Copy, Debug, PartialEq, Eq, Structural)]
pub struct Projectile {
    pub direction: Direction,
    /// World units per second.
    pub speed: u32,
    pub damage: u64,
    pub lifetime: Timer,
    pub kind: ProjectileKind,
}

/// The kind of a weapon, with what only that kind has.
#[derive(Clone, Copy, Debug, PartialEq, Eq, Structural)]
pub enum WeaponKind {
    Laser(LaserWeapon),
    Rocket(RocketWeapon),
    Aura(PlayerAddictedWeapon),
}

/// A weapon as the simulation sees it.
#[derive(Clone, Copy, Debug, PartialEq, Eq, Structural)]
pub struct WeaponUnit {
    pub weapon: Weapon,
    pub kind: WeaponKind,
    pub level: WeaponLevel,
    pub stats: WeaponStats,
    /// Where the weapon is; only an aura is drawn, around its owner.
    pub position: Point,
}

impl WeaponKind {
    /// The catalogue entry this kind is upgraded under.
    pub open spec fn weapon_type(self) -> WeaponType {
        match self {
            WeaponKind::Laser(_) => WeaponType::Laser,
            WeaponKind::Rocket(_) => WeaponType::Rocket,
            WeaponKind::Aura(_) => WeaponType::Flame,
        }
    }
}

impl WeaponUnit {
    /// The level record names the kind the weapon really is.
    pub open spec fn wf(self) -> bool {
        self.level.weapon_type == self.kind.weapon_type()
    }

    /// What the weapon holds is what its base values and its level give:
    /// damage and cooldown for every weapon, projectile speed for a laser and
    /// a rocket launcher, blast radius for a rocket launcher, reach for an aura.
    pub open spec fn derived(self) -> bool {
        let level = self.level.level as int;
        &&& self.weapon.damage == at_least_zero(damage_at(self.stats.base_damage as int, level))
        &&& self.weapon.fire_timer.duration == fire_rate_at(
            self.stats.base_fire_rate as int,
            level,
        )
        &&& match self.kind {
            WeaponKind::Laser(_) => self.weapon.speed == clamp_u32(
                speed_at(self.stats.base_speed as int, level),
            ),
            WeaponKind::Rocket(rocket) => {
                &&& self.weapon.speed == clamp_u32(speed_at(self.stats.base_speed as int, level))
                &&& rocket.explosion_radius == clamp_u32(explosion_radius_at(level))
            },
            WeaponKind::Aura(aura) => aura.radius == clamp_u32(
                range_at(self.stats.base_range as int, level),
            ),
        }
    }
}

/// Position in `enemies` of the one nearest to `position`; of several at the
/// same distance, the first. Zero for an empty list.
pub open spec fn nearest_index(position: Point, enemies: Seq<EnemyUnit>) -> int
    decreases enemies.len(),
{
    if enemies.len() <= 1 {
        0
    } else {
        let earlier = nearest_index(position, enemies.drop_last());
        if dist_squared(position, enemies.last().position) < dist_squared(
            position,
            enemies[earlier].position,
        ) {
            enemies.len() - 1
        } else {
            earlier
        }
    }
}

/// The position of the enemy nearest to `position`, if there is any enemy.
pub open spec fn nearest_enemy(position: Point, enemies: Seq<EnemyUnit>) -> Option<Point> {
    if enemies.len() == 0 {
        None
    } else {
        Some(enemies[nearest_index(position, enemies)].position)
    }
}

/// Finds the enemy nearest to `position` by straight-line distance.
pub fn find_nearest_enemy(position: Point, enemies: &Vec<EnemyUnit>) -> (target: Option<Point>)
    ensures
        target == nearest_enemy(position, enemies@),
{
    if enemies.len() == 0 {
        return None;
    }
    let mut best: usize = 0;
    let mut best_distance: u128 = position.distance_squared(enemies[0].position);
    let mut i: usize = 1;
    assert(enemies@.take(1).drop_last().len() == 0);
    while i < enemies.len()
        invariant
            1 <= i <= enemies.len(),
            best < i,
            best as int == nearest_index(position, enemies@.take(i as int)),
            best_distance as int == dist_squared(position, enemies@[best as int].position),
        decreases enemies.len() - i,
    {
        proof {
            assert(enemies@.take(i as int + 1).drop_last() == enemies@.take(i as int));
            assert(enemies@.take(i as int + 1).last() == enemies@[i as int]);
            assert(enemies@.take(i as int + 1)[best as int] == enemies@[best as int]);
        }
        let distance = position.distance_squared(enemies[i].position);
        if distance < best_distance {
            best = i;
            best_distance = distance;
        }
        i += 1;
    }
    proof {
        assert(enemies@.take(i as int) == enemies@);
    }
    Some(enemies[best].position)
}

/// No enemy is nearer than the one `nearest_index` names, and every enemy
/// before it in the list is strictly farther.
pub proof fn lemma_nearest_is_nearest(position: Point, enemies: Seq<EnemyUnit>)
    requires
        enemies.len() > 0,
    ensures
        0 <= nearest_index(position, enemies) < enemies.len(),
        forall|j: int|
            0 <= j < enemies.len() ==> dist_squared(
                position,
                enemies[nearest_index(position, enemies)].position,
            ) <= dist_squared(position, (#[trigger] enemies[j]).position),
        forall|j: int|
            0 <= j < nearest_index(position, enemies) ==> dist_squared(
                position,
                enemies[nearest_index(position, enemies)].position,
            ) < dist_squared(position, (#[trigger] enemies[j]).position),
    decreases enemies.len(),
{
    if enemies.len() > 1 {
        let shorter = enemies.drop_last();
        lemma_nearest_is_nearest(position, shorter);
        let earlier = nearest_index(position, shorter);
        assert(shorter[earlier] == enemies[earlier]);
        assert forall|j: int| 0 <= j < enemies.len() implies dist_squared(
            position,
            enemies[nearest_index(position, enemies)].position,
        ) <= dist_squared(position, (#[trigger] enemies[j]).position) by {
            if j < shorter.len() {
                assert(shorter[j] == enemies[j]);
            }
        }
        assert forall|j: int| 0 <= j < nearest_index(position, enemies) implies dist_squared(
            position,
            enemies[nearest_index(position, enemies)].position,
        ) < dist_squared(position, (#[trigger] enemies[j]).position) by {
            assert(shorter[j] == enemies[j]);
        }
    }
}

/// A player as the weapons see it: handle and position.
#[derive(Clone, Copy, Debug, PartialEq, Eq, Structural)]
pub struct PlayerRef {
    pub id: u64,
    pub position: Point,
}

/// A projectile to be created at `position`.
#[derive(Clone, Copy, Debug, PartialEq, Eq, Structural)]
pub struct ProjectileSpawn {
    pub position: Point,
    pub projectile: Projectile,
}

/// A projectile in flight.
#[derive(Clone, Copy, Debug, PartialEq, Eq, Structural)]
pub struct ProjectileUnit {
    pub id: u64,
    pub position: Point,
    pub projectile: Projectile,
}

/// What a round of combat asks the world to do.
pub struct CombatReport {
    /// Pickups to create, one where each enemy died.
    pub pickups: Vec<Pickup>,
    /// Centres of the blasts to show.
    pub explosions: Vec<Point>,
    /// Handles of the projectiles that are gone.
    pub despawned_projectiles: Vec<u64>,
    /// Handles of the enemies that died.
    pub despawned_enemies: Vec<u64>,
}

/// The state of a round of combat, as the contracts speak of it.
pub struct Battlefield {
    /// The enemies still alive, in order.
    pub enemies: Seq<EnemyUnit>,
    /// The projectiles still in flight, in order.
    pub kept: Seq<ProjectileUnit>,
    /// The pickups left by the dead, in the order of the deaths.
    pub pickups: Seq<Pickup>,
    /// The centres of the blasts, in order.
    pub explosions: Seq<Point>,
    /// The handles of the projectiles that are gone, in order.
    pub gone: Seq<u64>,
    /// The handles of the dead, in the order of the deaths.
    pub fallen: Seq<u64>,
}

/// Where the player with handle `owner` stands, if there is one.
pub open spec fn owner_position(players: Seq<PlayerRef>, owner: u64) -> Option<Point>
    decreases players.len(),
{
    if players.len() == 0 {
        None
    } else if players.last().id == owner {
        Some(players.last().position)
    } else {
        owner_position(players.drop_last(), owner)
    }
}

/// The projectile that `w` fires along `direction`: it carries the damage,
/// the speed and the kind-specific values that the weapon has at this
/// moment, so what the level has scaled is what flies. An aura fires nothing.
pub open spec fn projectile_of(w: WeaponUnit, direction: Direction) -> Option<Projectile> {
    match w.kind {
        WeaponKind::Laser(lazer_weapon) => Some(
            Projectile {
                direction,
                speed: w.weapon.speed,
                damage: w.weapon.damage,
                lifetime: Timer::fresh(LASER_LIFETIME, TimerMode::Once),
                kind: ProjectileKind::Laser { lazer_weapon },
            },
        ),
        WeaponKind::Rocket(rocket_weapon) => Some(
            Projectile {
                direction,
                speed: w.weapon.speed,
                damage: w.weapon.damage,
                lifetime: Timer::fresh(ROCKET_LIFETIME, TimerMode::Once),
                kind: ProjectileKind::Rocket { rocket_weapon },
            },
        ),
        WeaponKind::Aura(_) => None,
    }
}

/// What `w` fires on a tick of `delta`: one projectile from its owner toward
/// the nearest enemy, if the cooldown completes on this tick, the owner
/// exists, there is an enemy and it does not stand exactly on the owner.
pub open spec fn shot_of(
    w: WeaponUnit,
    delta: u32,
    players: Seq<PlayerRef>,
    enemies: Seq<EnemyUnit>,
) -> Option<ProjectileSpawn> {
    if !w.weapon.fire_timer.fires(delta as u64) {
        None
    } else {
        match owner_position(players, w.weapon.owner) {
            None => None,
            Some(at) => match nearest_enemy(at, enemies) {
                None => None,
                Some(target) => if target == at {
                    None
                } else {
                    match projectile_of(w, heading(target.x - at.x, target.y - at.y)) {
                        Some(projectile) => Some(ProjectileSpawn { position: at, projectile }),
                        None => None,
                    }
                },
            },
        }
    }
}

/// What the weapons of type `t` among `weapons` fire on a tick, in order.
pub open spec fn shots_of(
    weapons: Seq<WeaponUnit>,
    t: WeaponType,
    delta: u32,
    players: Seq<PlayerRef>,
    enemies: Seq<EnemyUnit>,
) -> Seq<ProjectileSpawn>
    decreases weapons.len(),
{
    if weapons.len() == 0 {
        Seq::empty()
    } else {
        let earlier = shots_of(weapons.drop_last(), t, delta, players, enemies);
        if weapons.last().kind.weapon_type() == t {
            match shot_of(weapons.last(), delta, players, enemies) {
                Some(shot) => earlier.push(shot),
                None => earlier,
            }
        } else {
            earlier
        }
    }
}

/// The weapon after a tick on which the weapons of type `t` cool down.
pub open spec fn cooled(w: WeaponUnit, t: WeaponType, delta: u32) -> WeaponUnit {
    if w.kind.weapon_type() == t {
        WeaponUnit {
            weapon: Weapon { fire_timer: w.weapon.fire_timer.ticked(delta as u64), ..w.weapon },
            ..w
        }
    } else {
        w
    }
}

/// The enemy with `damage` taken off its health.
pub open spec fn wounded(e: EnemyUnit, damage: u64) -> EnemyUnit {
    EnemyUnit {
        enemy: Enemy {
            health: health_after(e.enemy.health as int, damage as int) as i32,
            ..e.enemy
        },
        ..e
    }
}

/// The enemy pushed `magnitude` thousandths along `dir`, its box moved with it.
pub open spec fn pushed(e: EnemyUnit, dir: Direction, magnitude: int) -> EnemyUnit {
    let position = displaced(e.position, dir, magnitude);
    EnemyUnit { position, aabb: e.aabb.moved_to(position), ..e }
}

/// The enemy after a blast of `radius` around `center`: within the radius it
/// is pushed away from the centre and wounded, beyond it nothing happens.
/// One that stands exactly on the centre is wounded and not pushed.
pub open spec fn blasted(e: EnemyUnit, center: Point, radius: u32, damage: u64) -> EnemyUnit {
    if dist_squared(e.position, center) <= radius * radius {
        if e.position == center {
            wounded(e, damage)
        } else {
            wounded(
                pushed(
                    e,
                    heading(e.position.x - center.x, e.position.y - center.y),
                    BLAST_KNOCKBACK as int,
                ),
                damage,
            )
        }
    } else {
        e
    }
}

/// The enemy after an aura of `radius` around `center` has burned: within
/// the radius it is wounded and stays where it is.
pub open spec fn burned(e: EnemyUnit, center: Point, radius: u32, damage: u64) -> EnemyUnit {
    if dist_squared(e.position, center) <= radius * radius {
        wounded(e, damage)
    } else {
        e
    }
}

/// Every enemy after a blast.
pub open spec fn blast_all(enemies: Seq<EnemyUnit>, center: Point, radius: u32, damage: u64) -> Seq<
    EnemyUnit,
> {
    Seq::new(enemies.len(), |i: int| blasted(enemies[i], center, radius, damage))
}

/// Every enemy after an aura has burned.
pub open spec fn burn_all(enemies: Seq<EnemyUnit>, center: Point, radius: u32, damage: u64) -> Seq<
    EnemyUnit,
> {
    Seq::new(enemies.len(), |i: int| burned(enemies[i], center, radius, damage))
}

/// Position of the first enemy at or after `from` whose box covers `at`,
/// or the length of the list where there is none.
pub open spec fn first_covering(enemies: Seq<EnemyUnit>, at: Point, from: int) -> int
    decreases enemies.len() - from,
{
    if from < 0 || from >= enemies.len() {
        enemies.len() as int
    } else if enemies[from].aabb.covers(at) {
        from
    } else {
        first_covering(enemies, at, from + 1)
    }
}

/// The projectile after `delta` milliseconds of flight.
pub open spec fn flown(p: ProjectileUnit, delta: u32) -> ProjectileUnit {
    ProjectileUnit {
        position: displaced(p.position, p.projectile.direction, p.projectile.speed * delta),
        projectile: Projectile {
            lifetime: p.projectile.lifetime.ticked(delta as u64),
            ..p.projectile
        },
        ..p
    }
}

/// The projectile, after its flight, has reached an enemy while still alive.
pub open spec fn hits(p: ProjectileUnit, enemies: Seq<EnemyUnit>) -> bool {
    !p.projectile.lifetime.just_finished && first_covering(enemies, p.position, 0) < enemies.len()
}

/// The enemies after the projectile, which has flown, has done its damage.
/// A laser pushes and wounds the first enemy whose box covers it. A rocket
/// that touches any enemy bursts and reaches every enemy within its radius.
pub open spec fn struck(p: ProjectileUnit, enemies: Seq<EnemyUnit>) -> Seq<EnemyUnit> {
    if !hits(p, enemies) {
        enemies
    } else {
        match p.projectile.kind {
            ProjectileKind::Laser { .. } => {
                let at = first_covering(enemies, p.position, 0);
                enemies.update(
                    at,
                    wounded(
                        pushed(enemies[at], p.projectile.direction, LASER_KNOCKBACK as int),
                        p.projectile.damage,
                    ),
                )
            },
            ProjectileKind::Rocket { rocket_weapon } => blast_all(
                enemies,
                p.position,
                rocket_weapon.explosion_radius,
                p.projectile.damage,
            ),
        }
    }
}

/// The enemies that are still alive, in order.
pub open spec fn survivors(enemies: Seq<EnemyUnit>) -> Seq<EnemyUnit>
    decreases enemies.len(),
{
    if enemies.len() == 0 {
        Seq::empty()
    } else if enemies.last().enemy.health <= 0 {
        survivors(enemies.drop_last())
    } else {
        survivors(enemies.drop_last()).push(enemies.last())
    }
}

/// The handles of the enemies that are dead, in order.
pub open spec fn fallen(enemies: Seq<EnemyUnit>) -> Seq<u64>
    decreases enemies.len(),
{
    if enemies.len() == 0 {
        Seq::empty()
    } else if enemies.last().enemy.health <= 0 {
        fallen(enemies.drop_last()).push(enemies.last().id)
    } else {
        fallen(enemies.drop_last())
    }
}

/// The pickups that the dead leave, each where its enemy last stood, in order.
pub open spec fn drops(enemies: Seq<EnemyUnit>) -> Seq<Pickup>
    decreases enemies.len(),
{
    if enemies.len() == 0 {
        Seq::empty()
    } else if enemies.last().enemy.health <= 0 {
        drops(enemies.drop_last()).push(Pickup::dropped_at(enemies.last().position))
    } else {
        drops(enemies.drop_last())
    }
}

/// The battlefield before anything has happened.
pub open spec fn untouched(enemies: Seq<EnemyUnit>) -> Battlefield {
    Battlefield {
        enemies,
        kept: Seq::empty(),
        pickups: Seq::empty(),
        explosions: Seq::empty(),
        gone: Seq::empty(),
        fallen: Seq::empty(),
    }
}

/// The battlefield after the dead among `hit` have been taken off it.
pub open spec fn cleared(b: Battlefield, hit: Seq<EnemyUnit>) -> Battlefield {
    Battlefield {
        enemies: survivors(hit),
        pickups: b.pickups + drops(hit),
        fallen: b.fallen + fallen(hit),
        ..b
    }
}

/// The battlefield after the projectiles, one after the other, have flown
/// for `delta` milliseconds and done their damage. Each projectile meets the
/// enemies that the earlier ones left alive.
pub open spec fn fought(
    projectiles: Seq<ProjectileUnit>,
    enemies: Seq<EnemyUnit>,
    delta: u32,
) -> Battlefield
    decreases projectiles.len(),
{
    if projectiles.len() == 0 {
        untouched(enemies)
    } else {
        let b = fought(projectiles.drop_last(), enemies, delta);
        let p = flown(projectiles.last(), delta);
        let spent = p.projectile.lifetime.just_finished || hits(p, b.enemies);
        let bursts = hits(p, b.enemies) && p.projectile.kind is Rocket;
        cleared(
            Battlefield {
                kept: if spent {
                    b.kept
                } else {
                    b.kept.push(p)
                },
                gone: if spent {
                    b.gone.push(p.id)
                } else {
                    b.gone
                },
                explosions: if bursts {
                    b.explosions.push(p.position)
                } else {
                    b.explosions
                },
                ..b
            },
            struck(p, b.enemies),
        )
    }
}

/// The aura weapon after a tick: it has moved onto the player and cooled
/// down. Other weapons are left alone.
pub open spec fn attended(w: WeaponUnit, player: Point, delta: u32) -> WeaponUnit {
    if w.kind is Aura {
        WeaponUnit {
            position: player,
            weapon: Weapon { fire_timer: w.weapon.fire_timer.ticked(delta as u64), ..w.weapon },
            ..w
        }
    } else {
        w
    }
}

/// The battlefield after the auras among `weapons`, one after the other,
/// have burned around `player` where their cooldown completed.
pub open spec fn aura_fought(
    weapons: Seq<WeaponUnit>,
    player: Point,
    enemies: Seq<EnemyUnit>,
    delta: u32,
) -> Battlefield
    decreases weapons.len(),
{
    if weapons.len() == 0 {
        untouched(enemies)
    } else {
        let b = aura_fought(weapons.drop_last(), player, enemies, delta);
        let w = weapons.last();
        match w.kind {
            WeaponKind::Aura(aura) => if w.weapon.fire_timer.fires(delta as u64) {
                cleared(b, burn_all(b.enemies, player, aura.radius, w.weapon.damage))
            } else {
                b
            },
            _ => b,
        }
    }
}

impl WeaponKind {
    /// The catalogue entry this kind is upgraded under.
    pub fn type_of(&self) -> (t: WeaponType)
        ensures
            t == self.weapon_type(),
    {
        match self {
            WeaponKind::Laser(_) => WeaponType::Laser,
            WeaponKind::Rocket(_) => WeaponType::Rocket,
            WeaponKind::Aura(_) => WeaponType::Flame,
        }
    }
}

impl EnemyUnit {
    /// Takes `damage` off the health, stopping at zero.
    pub fn wound(&mut self, damage: u64)
        ensures
            *final(self) == wounded(*old(self), damage),
    {
        self.enemy.take_hit(damage);
    }

    /// Pushes the enemy `magnitude` thousandths along `dir`.
    pub fn push_back(&mut self, dir: Direction, magnitude: u64)
        ensures
            *final(self) == pushed(*old(self), dir, magnitude as int),
    {
        self.position = self.position.displace(dir, magnitude);
        self.aabb.change_point(self.position);
    }
}

impl CombatReport {
    /// A report that asks for nothing.
    pub fn new() -> (r: CombatReport)
        ensures
            r.pickups@.len() == 0,
            r.explosions@.len() == 0,
            r.despawned_projectiles@.len() == 0,
            r.despawned_enemies@.len() == 0,
    {
        CombatReport {
            pickups: Vec::new(),
            explosions: Vec::new(),
            despawned_projectiles: Vec::new(),
            despawned_enemies: Vec::new(),
        }
    }

    /// The report asks for what happened on `b`.
    pub open spec fn tells(self, b: Battlefield) -> bool {
        &&& self.pickups@ =~= b.pickups
        &&& self.explosions@ =~= b.explosions
        &&& self.despawned_projectiles@ =~= b.gone
        &&& self.despawned_enemies@ =~= b.fallen
    }
}

fn find_owner(players: &Vec<PlayerRef>, owner: u64) -> (at: Option<Point>)
    ensures
        at == owner_position(players@, owner),
{
    let mut found: Option<Point> = None;
    let mut i: usize = 0;
    while i < players.len()
        invariant
            i <= players.len(),
            found == owner_position(players@.take(i as int), owner),
        decreases players.len() - i,
    {
        proof {
            assert(players@.take(i as int + 1).drop_last() == players@.take(i as int));
            assert(players@.take(i as int + 1).last() == players@[i as int]);
        }
        if players[i].id == owner {
            found = Some(players[i].position);
        }
        i += 1;
    }
    proof {
        assert(players@.take(i as int) == players@);
    }
    found
}

/// What `w` fires on a tick of `delta`, worked out on a copy of its cooldown.
fn shot_from(
    w: &WeaponUnit,
    delta: u32,
    players: &Vec<PlayerRef>,
    enemies: &Vec<EnemyUnit>,
) -> (shot: Option<ProjectileSpawn>)
    ensures
        shot == shot_of(*w, delta, players@, enemies@),
{
    let mut cooldown = w.weapon.fire_timer;
    cooldown.tick(delta as u64);
    if !cooldown.just_finished() {
        return None;
    }
    let at = match find_owner(players, w.weapon.owner) {
        Some(p) => p,
        None => {
            return None;
        },
    };
    let target = match find_nearest_enemy(at, enemies) {
        Some(t) => t,
        None => {
            return None;
        },
    };
    let direction = match at.direction_to(target) {
        Some(d) => d,
        None => {
            return None;
        },
    };
    let projectile = match w.kind {
        WeaponKind::Laser(lazer_weapon) => Projectile {
            direction,
            speed: w.weapon.speed,
            damage: w.weapon.damage,
            lifetime: Timer::new(LASER_LIFETIME, TimerMode::Once),
            kind: ProjectileKind::Laser { lazer_weapon },
        },
        WeaponKind::Rocket(rocket_weapon) => Projectile {
            direction,
            speed: w.weapon.speed,
            damage: w.weapon.damage,
            lifetime: Timer::new(ROCKET_LIFETIME, TimerMode::Once),
            kind: ProjectileKind::Rocket { rocket_weapon },
        },
        WeaponKind::Aura(_) => {
            return None;
        },
    };
    Some(ProjectileSpawn { position: at, projectile })
}

fn fire_weapons(
    weapons: &mut Vec<WeaponUnit>,
    t: WeaponType,
    delta: u32,
    players: &Vec<PlayerRef>,
    enemies: &Vec<EnemyUnit>,
) -> (shots: Vec<ProjectileSpawn>)
    ensures
        final(weapons)@.len() == old(weapons)@.len(),
        forall|i: int|
            0 <= i < old(weapons)@.len() ==> #[trigger] final(weapons)@[i] == cooled(
                old(weapons)@[i],
                t,
                delta,
            ),
        shots@ == shots_of(old(weapons)@, t, delta, players@, enemies@),
{
    let mut shots: Vec<ProjectileSpawn> = Vec::new();
    let ghost before = weapons@;
    let mut i: usize = 0;
    while i < weapons.len()
        invariant
            i <= weapons.len(),
            before == old(weapons)@,
            weapons@.len() == before.len(),
            forall|j: int| 0 <= j < i ==> #[trigger] weapons@[j] == cooled(before[j], t, delta),
            forall|j: int| i <= j < weapons@.len() ==> #[trigger] weapons@[j] == before[j],
            shots@ == shots_of(before.take(i as int), t, delta, players@, enemies@),
        decreases weapons.len() - i,
    {
        proof {
            assert(before.take(i as int + 1).drop_last() == before.take(i as int));
            assert(before.take(i as int + 1).last() == before[i as int]);
        }
        let mut unit = weapons[i];
        if unit.kind.type_of() == t {
            let shot = shot_from(&unit, delta, players, enemies);
            unit.weapon.fire_timer.tick(delta as u64);
            weapons.set(i, unit);
            match shot {
                Some(s) => {
                    shots.push(s);
                },
                None => {},
            }
        }
        i += 1;
    }
    proof {
        assert(before.take(i as int) == before);
    }
    shots
}

/// Cools the lasers down and fires those whose cooldown completed: one bolt
/// each, from the owner toward the enemy nearest to the owner.
///
/// A laser whose owner is missing, or that finds no enemy, or whose target
/// stands exactly on the owner, fires nothing; its cooldown has still run.
pub fn fire_laser_weapons(
    weapons: &mut Vec<WeaponUnit>,
    delta: u32,
    players: &Vec<PlayerRef>,
    enemies: &Vec<EnemyUnit>,
) -> (shots: Vec<ProjectileSpawn>)
    ensures
        final(weapons)@.len() == old(weapons)@.len(),
        forall|i: int|
            0 <= i < old(weapons)@.len() ==> #[trigger] final(weapons)@[i] == cooled(
                old(weapons)@[i],
                WeaponType::Laser,
                delta,
            ),
        shots@ == shots_of(old(weapons)@, WeaponType::Laser, delta, players@, enemies@),
{
    fire_weapons(weapons, WeaponType::Laser, delta, players, enemies)
}

/// Cools the rocket launchers down and fires those whose cooldown
/// completed, as `fire_laser_weapons` does for lasers.
pub fn fire_rocket_weapons(
    weapons: &mut Vec<WeaponUnit>,
    delta: u32,
    players: &Vec<PlayerRef>,
    enemies: &Vec<EnemyUnit>,
) -> (shots: Vec<ProjectileSpawn>)
    ensures
        final(weapons)@.len() == old(weapons)@.len(),
        forall|i: int|
            0 <= i < old(weapons)@.len() ==> #[trigger] final(weapons)@[i] == cooled(
                old(weapons)@[i],
                WeaponType::Rocket,
                delta,
            ),
        shots@ == shots_of(old(weapons)@, WeaponType::Rocket, delta, players@, enemies@),
{
    fire_weapons(weapons, WeaponType::Rocket, delta, players, enemies)
}

/// Finds the first enemy whose box covers `at`; the length of the list where none does.
pub fn find_covering(enemies: &Vec<EnemyUnit>, at: Point) -> (index: usize)
    ensures
        index as int == first_covering(enemies@, at, 0),
        index <= enemies@.len(),
{
    let mut i: usize = 0;
    while i < enemies.len()
        invariant
            i <= enemies.len(),
            first_covering(enemies@, at, 0) == first_covering(enemies@, at, i as int),
        decreases enemies.len() - i,
    {
        if enemies[i].aabb.contains_point(at) {
            return i;
        }
        i += 1;
    }
    i
}

/// Bursts at `center`: every enemy within `radius` is pushed away and wounded.
pub fn blast(enemies: &mut Vec<EnemyUnit>, center: Point, radius: u32, damage: u64)
    ensures
        final(enemies)@ == blast_all(old(enemies)@, center, radius, damage),
{
    let mut i: usize = 0;
    while i < enemies.len()
        invariant
            i <= enemies.len(),
            enemies@.len() == old(enemies)@.len(),
            forall|j: int|
                0 <= j < i ==> #[trigger] enemies@[j] == blasted(
                    old(enemies)@[j],
                    center,
                    radius,
                    damage,
                ),
            forall|j: int| i <= j < enemies@.len() ==> #[trigger] enemies@[j] == old(enemies)@[j],
        decreases enemies.len() - i,
    {
        let mut unit = enemies[i];
        if unit.position.within(center, radius) {
            match center.direction_to(unit.position) {
                Some(away) => {
                    unit.push_back(away, BLAST_KNOCKBACK);
                },
                None => {},
            }
            unit.wound(damage);
            enemies.set(i, unit);
        }
        i += 1;
    }
    assert(enemies@ =~= blast_all(old(enemies)@, center, radius, damage));
}

/// Burns around `center`: every enemy within `radius` is wounded.
pub fn burn(enemies: &mut Vec<EnemyUnit>, center: Point, radius: u32, damage: u64)
    ensures
        final(enemies)@ == burn_all(old(enemies)@, center, radius, damage),
{
    let mut i: usize = 0;
    while i < enemies.len()
        invariant
            i <= enemies.len(),
            enemies@.len() == old(enemies)@.len(),
            forall|j: int|
                0 <= j < i ==> #[trigger] enemies@[j] == burned(
                    old(enemies)@[j],
                    center,
                    radius,
                    damage,
                ),
            forall|j: int| i <= j < enemies@.len() ==> #[trigger] enemies@[j] == old(enemies)@[j],
        decreases enemies.len() - i,
    {
        let mut unit = enemies[i];
        if unit.position.within(center, radius) {
            unit.wound(damage);
            enemies.set(i, unit);
        }
        i += 1;
    }
    assert(enemies@ =~= burn_all(old(enemies)@, center, radius, damage));
}

/// Lets a projectile that has flown do its damage, and says whether it hit.
pub fn strike(p: &ProjectileUnit, enemies: &mut Vec<EnemyUnit>) -> (hit: bool)
    ensures
        hit == hits(*p, old(enemies)@),
        final(enemies)@ == struck(*p, old(enemies)@),
{
    if p.projectile.lifetime.just_finished() {
        return false;
    }
    let at = find_covering(enemies, p.position);
    if at >= enemies.len() {
        return false;
    }
    match p.projectile.kind {
        ProjectileKind::Laser { .. } => {
            let mut unit = enemies[at];
            unit.push_back(p.projectile.direction, LASER_KNOCKBACK);
            unit.wound(p.projectile.damage);
            enemies.set(at, unit);
        },
        ProjectileKind::Rocket { rocket_weapon } => {
            blast(enemies, p.position, rocket_weapon.explosion_radius, p.projectile.damage);
        },
    }
    true
}

/// Takes the dead off the battlefield: each one scores a kill, leaves a
/// pickup where it stood and is reported as gone.
pub fn collect_casualties(
    enemies: &mut Vec<EnemyUnit>,
    score: &mut GameScore,
    report: &mut CombatReport,
)
    ensures
        final(enemies)@ == survivors(old(enemies)@),
        *final(score) == old(score).plus(fallen(old(enemies)@).len() as int),
        final(report).pickups@ == old(report).pickups@ + drops(old(enemies)@),
        final(report).despawned_enemies@ == old(report).despawned_enemies@ + fallen(
            old(enemies)@,
        ),
        final(report).explosions@ == old(report).explosions@,
        final(report).despawned_projectiles@ == old(report).despawned_projectiles@,
{
    let mut alive: Vec<EnemyUnit> = Vec::new();
    let ghost all = enemies@;
    let mut i: usize = 0;
    while i < enemies.len()
        invariant
            i <= enemies.len(),
            enemies@ == all,
            alive@ == survivors(all.take(i as int)),
            *score == old(score).plus(fallen(all.take(i as int)).len() as int),
            report.pickups@ == old(report).pickups@ + drops(all.take(i as int)),
            report.despawned_enemies@ == old(report).despawned_enemies@ + fallen(
                all.take(i as int),
            ),
            report.explosions@ == old(report).explosions@,
            report.despawned_projectiles@ == old(report).despawned_projectiles@,
        decreases enemies.len() - i,
    {
        proof {
            assert(all.take(i as int + 1).drop_last() == all.take(i as int));
            assert(all.take(i as int + 1).last() == all[i as int]);
        }
        let unit = enemies[i];
        if unit.enemy.is_dead() {
            score.add_kill();
            report.pickups.push(Pickup::drop_at(unit.position));
            report.despawned_enemies.push(unit.id);
        } else {
            alive.push(unit);
        }
        i += 1;
    }
    proof {
        assert(all.take(i as int) == all);
    }
    *enemies = alive;
}

/// Advances every projectile and resolves what it hits.
///
/// Each projectile flies for `delta` milliseconds and its lifetime runs. One
/// whose lifetime ends is removed without hitting anything. A laser bolt
/// hits the first enemy whose box covers it: that enemy is pushed along the
/// bolt's heading and wounded, and the bolt is removed. A rocket that touches
/// any enemy bursts once: every enemy within its blast radius is pushed away
/// from the blast and wounded, and the rocket is removed. After each
/// projectile the dead are taken off: each scores one kill and leaves a pickup.
pub fn move_projectiles(
    projectiles: &mut Vec<ProjectileUnit>,
    enemies: &mut Vec<EnemyUnit>,
    delta: u32,
    score: &mut GameScore,
) -> (report: CombatReport)
    ensures
        final(projectiles)@ == fought(old(projectiles)@, old(enemies)@, delta).kept,
        final(enemies)@ == fought(old(projectiles)@, old(enemies)@, delta).enemies,
        report.tells(fought(old(projectiles)@, old(enemies)@, delta)),
        *final(score) == old(score).plus(
            fought(old(projectiles)@, old(enemies)@, delta).fallen.len() as int,
        ),
{
    let mut report = CombatReport::new();
    let mut kept: Vec<ProjectileUnit> = Vec::new();
    let ghost all = projectiles@;
    let ghost before = enemies@;
    let mut i: usize = 0;
    while i < projectiles.len()
        invariant
            i <= projectiles.len(),
            projectiles@ == all,
            kept@ == fought(all.take(i as int), before, delta).kept,
            enemies@ == fought(all.take(i as int), before, delta).enemies,
            report.tells(fought(all.take(i as int), before, delta)),
            *score == old(score).plus(fought(all.take(i as int), before, delta).fallen.len() as int),
        decreases projectiles.len() - i,
    {
        proof {
            assert(all.take(i as int + 1).drop_last() == all.take(i as int));
            assert(all.take(i as int + 1).last() == all[i as int]);
        }
        let ghost b = fought(all.take(i as int), before, delta);
        let mut p = projectiles[i];
        p.position = p.position.displace(
            p.projectile.direction,
            step_length(p.projectile.speed, delta),
        );
        p.projectile.lifetime.tick(delta as u64);
        assert(p == flown(all[i as int], delta));
        let hit = strike(&p, enemies);
        if hit || p.projectile.lifetime.just_finished() {
            report.despawned_projectiles.push(p.id);
        } else {
            kept.push(p);
        }
        if hit {
            match p.projectile.kind {
                ProjectileKind::Rocket { .. } => {
                    report.explosions.push(p.position);
                },
                ProjectileKind::Laser { .. } => {},
            }
        }
        let ghost hit_enemies = enemies@;
        collect_casualties(enemies, score, &mut report);
        proof {
            lemma_kills_add_up(*old(score), b.fallen.len() as int, fallen(hit_enemies).len() as int);
        }
        i += 1;
    }
    proof {
        assert(all.take(i as int) == all);
    }
    *projectiles = kept;
    report
}

/// Keeps every aura on its owner and lets those whose cooldown completed
/// burn: every enemy within the aura's radius of the player is wounded, with
/// no push. After each aura the dead are taken off: each scores one kill and
/// leaves a pickup. Without a player nothing happens.
pub fn move_player_addicted_weapons(
    player: Option<Point>,
    weapons: &mut Vec<WeaponUnit>,
    enemies: &mut Vec<EnemyUnit>,
    delta: u32,
    score: &mut GameScore,
) -> (report: CombatReport)
    ensures
        final(weapons)@.len() == old(weapons)@.len(),
        player is None ==> {
            &&& final(weapons)@ == old(weapons)@
            &&& final(enemies)@ == old(enemies)@
            &&& *final(score) == *old(score)
            &&& report.tells(untouched(old(enemies)@))
        },
        player matches Some(at) ==> {
            &&& forall|i: int|
                0 <= i < old(weapons)@.len() ==> #[trigger] final(weapons)@[i] == attended(
                    old(weapons)@[i],
                    at,
                    delta,
                )
            &&& final(enemies)@ == aura_fought(old(weapons)@, at, old(enemies)@, delta).enemies
            &&& report.tells(aura_fought(old(weapons)@, at, old(enemies)@, delta))
            &&& *final(score) == old(score).plus(
                aura_fought(old(weapons)@, at, old(enemies)@, delta).fallen.len() as int,
            )
        },
{
    let mut report = CombatReport::new();
    let at = match player {
        Some(p) => p,
        None => {
            return report;
        },
    };
    let ghost all = weapons@;
    let ghost before = enemies@;
    let mut i: usize = 0;
    while i < weapons.len()
        invariant
            i <= weapons.len(),
            all == old(weapons)@,
            weapons@.len() == all.len(),
            forall|j: int| 0 <= j < i ==> #[trigger] weapons@[j] == attended(all[j], at, delta),
            forall|j: int| i <= j < weapons@.len() ==> #[trigger] weapons@[j] == all[j],
            enemies@ == aura_fought(all.take(i as int), at, before, delta).enemies,
            report.tells(aura_fought(all.take(i as int), at, before, delta)),
            *score == old(score).plus(
                aura_fought(all.take(i as int), at, before, delta).fallen.len() as int,
            ),
        decreases weapons.len() - i,
    {
        proof {
            assert(all.take(i as int + 1).drop_last() == all.take(i as int));
            assert(all.take(i as int + 1).last() == all[i as int]);
        }
        let ghost b = aura_fought(all.take(i as int), at, before, delta);
        let mut unit = weapons[i];
        match unit.kind {
            WeaponKind::Aura(aura) => {
                unit.position = at;
                unit.weapon.fire_timer.tick(delta as u64);
                weapons.set(i, unit);
                if unit.weapon.fire_timer.just_finished() {
                    burn(enemies, at, aura.radius, unit.weapon.damage);
                    let ghost hit_enemies = enemies@;
                    collect_casualties(enemies, score, &mut report);
                    proof {
                        lemma_kills_add_up(
                            *old(score),
                            b.fallen.len() as int,
                            fallen(hit_enemies).len() as int,
                        );
                    }
                }
            },
            _ => {},
        }
        i += 1;
    }
    proof {
        assert(all.take(i as int) == all);
    }
    report
}

/// Counting kills in two batches gives the same score as counting them at once.
pub proof fn lemma_kills_add_up(score: GameScore, first: int, second: int)
    requires
        first >= 0,
        second >= 0,
    ensures
        score.plus(first).plus(second) == score.plus(first + second),
{
}

/// `first_covering` finds an enemy whose box covers the point, the first at
/// or after `from`, or reports the length of the list.
pub proof fn lemma_first_covering(enemies: Seq<EnemyUnit>, at: Point, from: int)
    requires
        0 <= from <= enemies.len(),
    ensures
        from <= first_covering(enemies, at, from) <= enemies.len(),
        first_covering(enemies, at, from) < enemies.len() ==> enemies[first_covering(
            enemies,
            at,
            from,
        )].aabb.covers(at),
        forall|j: int|
            from <= j < first_covering(enemies, at, from) ==> !(#[trigger] enemies[j]).aabb.covers(at),
    decreases enemies.len() - from,
{
    if from < enemies.len() && !enemies[from].aabb.covers(at) {
        lemma_first_covering(enemies, at, from + 1);
    }
}

/// Taking the dead off the field loses nobody: every enemy is among the
/// survivors or among the fallen, each of the fallen leaves one pickup, and
/// every survivor is alive.
pub proof fn lemma_casualties_partition(enemies: Seq<EnemyUnit>)
    ensures
        survivors(enemies).len() + fallen(enemies).len() == enemies.len(),
        drops(enemies).len() == fallen(enemies).len(),
        forall|k: int|
            0 <= k < survivors(enemies).len() ==> (#[trigger] survivors(enemies)[k]).enemy.health > 0,
    decreases enemies.len(),
{
    if enemies.len() > 0 {
        lemma_casualties_partition(enemies.drop_last());
    }
}

/// A projectile wounds and pushes enemies but neither adds nor removes any.
pub proof fn lemma_strike_keeps_count(p: ProjectileUnit, enemies: Seq<EnemyUnit>)
    ensures
        struck(p, enemies).len() == enemies.len(),
{
    lemma_first_covering(enemies, p.position, 0);
}

/// The books of a round of combat balance. Every projectile is either still
/// in flight or gone, and gone once. Every enemy is either still alive or
/// fallen, every one of the fallen left one pickup, and no blast happened
/// without a rocket going with it.
pub proof fn lemma_combat_accounts(
    projectiles: Seq<ProjectileUnit>,
    enemies: Seq<EnemyUnit>,
    delta: u32,
)
    ensures
        ({
            let b = fought(projectiles, enemies, delta);
            &&& b.kept.len() + b.gone.len() == projectiles.len()
            &&& b.enemies.len() + b.fallen.len() == enemies.len()
            &&& b.pickups.len() == b.fallen.len()
            &&& b.explosions.len() <= b.gone.len()
        }),
    decreases projectiles.len(),
{
    if projectiles.len() > 0 {
        let earlier = fought(projectiles.drop_last(), enemies, delta);
        lemma_combat_accounts(projectiles.drop_last(), enemies, delta);
        let p = flown(projectiles.last(), delta);
        lemma_strike_keeps_count(p, earlier.enemies);
        lemma_casualties_partition(struck(p, earlier.enemies));
    }
}

/// The books of the auras balance as well, and an aura shows no blast and
/// uses up no projectile.
pub proof fn lemma_aura_accounts(
    weapons: Seq<WeaponUnit>,
    player: Point,
    enemies: Seq<EnemyUnit>,
    delta: u32,
)
    ensures
        ({
            let b = aura_fought(weapons, player, enemies, delta);
            &&& b.enemies.len() + b.fallen.len() == enemies.len()
            &&& b.pickups.len() == b.fallen.len()
            &&& b.explosions.len() == 0
            &&& b.kept.len() == 0
            &&& b.gone.len() == 0
        }),
    decreases weapons.len(),
{
    if weapons.len() > 0 {
        let earlier = aura_fought(weapons.drop_last(), player, enemies, delta);
        lemma_aura_accounts(weapons.drop_last(), player, enemies, delta);
        match weapons.last().kind {
            WeaponKind::Aura(aura) => {
                lemma_casualties_partition(
                    burn_all(earlier.enemies, player, aura.radius, weapons.last().weapon.damage),
                );
            },
            _ => {},
        }
    }
}

/// With no enemy in sight no weapon fires, whatever its cooldown says; the
/// cooldown runs all the same and what ran out is not handed back.
pub proof fn lemma_no_enemies_no_shots(
    weapons: Seq<WeaponUnit>,
    t: WeaponType,
    delta: u32,
    players: Seq<PlayerRef>,
)
    ensures
        shots_of(weapons, t, delta, players, Seq::empty()).len() == 0,
        forall|i: int|
            0 <= i < weapons.len() && (#[trigger] weapons[i]).kind.weapon_type() == t ==> cooled(
                weapons[i],
                t,
                delta,
            ).weapon.fire_timer == weapons[i].weapon.fire_timer.ticked(delta as u64),
    decreases weapons.len(),
{
    if weapons.len() > 0 {
        lemma_no_enemies_no_shots(weapons.drop_last(), t, delta, players);
    }
}

/// Each weapon fires at most one projectile per tick.
pub proof fn lemma_one_shot_per_weapon(
    weapons: Seq<WeaponUnit>,
    t: WeaponType,
    delta: u32,
    players: Seq<PlayerRef>,
    enemies: Seq<EnemyUnit>,
)
    ensures
        shots_of(weapons, t, delta, players, enemies).len() <= weapons.len(),
    decreases weapons.len(),
{
    if weapons.len() > 0 {
        lemma_one_shot_per_weapon(weapons.drop_last(), t, delta, players, enemies);
    }
}

/// A laser bolt hits a single enemy: the first whose box covers it is
/// pushed along the bolt's heading and wounded, every other enemy is as it was.
pub proof fn lemma_laser_hits_one(p: ProjectileUnit, enemies: Seq<EnemyUnit>)
    requires
        p.projectile.kind is Laser,
        hits(p, enemies),
    ensures
        ({
            let at = first_covering(enemies, p.position, 0);
            &&& 0 <= at < enemies.len()
            &&& enemies[at].aabb.covers(p.position)
            &&& struck(p, enemies)[at].enemy.health == health_after(
                enemies[at].enemy.health as int,
                p.projectile.damage as int,
            )
            &&& struck(p, enemies)[at].position == displaced(
                enemies[at].position,
                p.projectile.direction,
                LASER_KNOCKBACK as int,
            )
            &&& forall|i: int|
                0 <= i < enemies.len() && i != at ==> #[trigger] struck(p, enemies)[i] == enemies[i]
        }),
{
    lemma_first_covering(enemies, p.position, 0);
}

/// A rocket that bursts reaches exactly the enemies within its radius of the
/// point where it burst: each of them is wounded and, unless it stands on
/// that very point, pushed away from it; every enemy farther off is as it was.
pub proof fn lemma_blast_reaches_the_radius(p: ProjectileUnit, enemies: Seq<EnemyUnit>)
    requires
        p.projectile.kind is Rocket,
        hits(p, enemies),
    ensures
        struck(p, enemies).len() == enemies.len(),
        forall|i: int|
            0 <= i < enemies.len() && dist_squared((#[trigger] enemies[i]).position, p.position)
                > p.projectile.kind->rocket_weapon.explosion_radius
                * p.projectile.kind->rocket_weapon.explosion_radius ==> struck(p, enemies)[i]
                == enemies[i],
        forall|i: int|
            0 <= i < enemies.len() && dist_squared((#[trigger] enemies[i]).position, p.position)
                <= p.projectile.kind->rocket_weapon.explosion_radius
                * p.projectile.kind->rocket_weapon.explosion_radius ==> {
                &&& struck(p, enemies)[i].enemy.health == health_after(
                    enemies[i].enemy.health as int,
                    p.projectile.damage as int,
                )
                &&& struck(p, enemies)[i].position == if enemies[i].position == p.position {
                    enemies[i].position
                } else {
                    displaced(
                        enemies[i].position,
                        heading(
                            enemies[i].position.x - p.position.x,
                            enemies[i].position.y - p.position.y,
                        ),
                        BLAST_KNOCKBACK as int,
                    )
                }
            },
{
}

/// An aura that burns reaches exactly the enemies within its radius of the
/// player: each of them keeps its health less the damage, stopping at zero,
/// every enemy farther off keeps its health, and nobody is moved.
pub proof fn lemma_aura_burns_the_radius(
    enemies: Seq<EnemyUnit>,
    center: Point,
    radius: u32,
    damage: u64,
)
    ensures
        burn_all(enemies, center, radius, damage).len() == enemies.len(),
        forall|i: int|
            0 <= i < enemies.len() ==> {
                let after = #[trigger] burn_all(enemies, center, radius, damage)[i];
                &&& after.id == enemies[i].id
                &&& after.position == enemies[i].position
                &&& after.aabb == enemies[i].aabb
                &&& after.enemy.speed == enemies[i].enemy.speed
                &&& after.enemy.damage == enemies[i].enemy.damage
                &&& after.enemy.health == if dist_squared(enemies[i].position, center) <= radius
                    * radius {
                    health_after(enemies[i].enemy.health as int, damage as int)
                } else {
                    enemies[i].enemy.health as int
                }
            },
{
}

/// One aura whose cooldown completes: it sits on the player, the enemies
/// left are the survivors of the burn, the dead are reported and each of
/// them left a pickup. One whose cooldown does not complete burns nobody.
pub proof fn lemma_one_aura(w: WeaponUnit, player: Point, enemies: Seq<EnemyUnit>, delta: u32)
    requires
        w.kind is Aura,
    ensures
        attended(w, player, delta).position == player,
        attended(w, player, delta).weapon.fire_timer == w.weapon.fire_timer.ticked(delta as u64),
        w.weapon.fire_timer.fires(delta as u64) ==> aura_fought(seq![w], player, enemies, delta)
            == cleared(
            untouched(enemies),
            burn_all(enemies, player, w.kind->Aura_0.radius, w.weapon.damage),
        ),
        !w.weapon.fire_timer.fires(delta as u64) ==> aura_fought(seq![w], player, enemies, delta)
            == untouched(enemies),
{
    assert(seq![w].drop_last() == Seq::<WeaponUnit>::empty());
    assert(seq![w].last() == w);
    assert(aura_fought(Seq::<WeaponUnit>::empty(), player, enemies, delta) == untouched(enemies));
}

/// Cooling down and following the player change neither what a weapon is
/// nor what its level gives it.
pub proof fn lemma_ticking_keeps_the_level(w: WeaponUnit, t: WeaponType, player: Point, delta: u32)
    ensures
        cooled(w, t, delta).wf() == w.wf(),
        cooled(w, t, delta).derived() == w.derived(),
        attended(w, player, delta).wf() == w.wf(),
        attended(w, player, delta).derived() == w.derived(),
{
}

/// What is fired is what the level gives: a projectile of a weapon that
/// holds the values of its level flies at the speed of that level, does the
/// damage of that level and, for a rocket, bursts with the radius of that level.
pub proof fn lemma_shot_carries_the_level(w: WeaponUnit, direction: Direction)
    requires
        w.derived(),
        !(w.kind is Aura),
    ensures
        projectile_of(w, direction) is Some,
        projectile_of(w, direction)->0.direction == direction,
        projectile_of(w, direction)->0.speed == clamp_u32(
            speed_at(w.stats.base_speed as int, w.level.level as int),
        ),
        projectile_of(w, direction)->0.damage == at_least_zero(
            damage_at(w.stats.base_damage as int, w.level.level as int),
        ),
        w.kind is Rocket ==> projectile_of(w, direction)->0.kind == (ProjectileKind::Rocket {
            rocket_weapon: RocketWeapon {
                explosion_radius: clamp_u32(explosion_radius_at(w.level.level as int)) as u32,
            },
        }),
        w.kind matches WeaponKind::Laser(laser) ==> projectile_of(w, direction)->0.kind == (
        ProjectileKind::Laser { lazer_weapon: laser }),
{
}

} // verus!
