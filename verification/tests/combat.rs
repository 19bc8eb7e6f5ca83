use survivor_sim::aabb::{Direction, Point, AABB};
use survivor_sim::collectible::{Collectible, Pickup};
use survivor_sim::enemy::{Enemy, EnemyUnit};
use survivor_sim::score::GameScore;
use survivor_sim::timers::{Timer, TimerMode};
use survivor_sim::weapon_stats::spawn_weapons_for_player;
use survivor_sim::weapon_upgrade::upgrade_first;
use survivor_sim::weapon_upgrade::WeaponType;
use survivor_sim::weapons::{
    blast, burn, collect_casualties, find_covering, find_nearest_enemy, fire_laser_weapons,
    fire_rocket_weapons, move_player_addicted_weapons, move_projectiles, strike, CombatReport,
    LaserWeapon, PlayerRef, Projectile, ProjectileKind, ProjectileSpawn, ProjectileUnit,
    RocketWeapon,
};

fn enemy(id: u64, x: i32, y: i32, health: i32, damage: i32) -> EnemyUnit {
    let position = Point::new(x, y);
    EnemyUnit {
        id,
        position,
        enemy: Enemy { health, speed: 100, damage },
        aabb: AABB::new(position, 40_000, 40_000),
    }
}

fn small_enemy(id: u64, x: i32, y: i32, health: i32) -> EnemyUnit {
    let position = Point::new(x, y);
    EnemyUnit {
        id,
        position,
        enemy: Enemy { health, speed: 100, damage: 1 },
        aabb: AABB::new(position, 2_000, 2_000),
    }
}

fn laser(id: u64, x: i32, y: i32, direction: Direction, speed: u32, damage: u64) -> ProjectileUnit {
    ProjectileUnit {
        id,
        position: Point::new(x, y),
        projectile: Projectile {
            direction,
            speed,
            damage,
            lifetime: Timer::new(3000, TimerMode::Once),
            kind: ProjectileKind::Laser { lazer_weapon: LaserWeapon { color: 0xFF00_FFFF } },
        },
    }
}

fn rocket(id: u64, x: i32, y: i32, radius: u32, damage: u64) -> ProjectileUnit {
    ProjectileUnit {
        id,
        position: Point::new(x, y),
        projectile: Projectile {
            direction: Direction { x: 1000, y: 0 },
            speed: 0,
            damage,
            lifetime: Timer::new(5000, TimerMode::Once),
            kind: ProjectileKind::Rocket { rocket_weapon: RocketWeapon { explosion_radius: radius } },
        },
    }
}

const EAST: Direction = Direction { x: 1000, y: 0 };

#[test]
fn laser_wounds_then_kills_one_enemy() {
    // the enemy stands ten units from the player, who is at the origin
    let mut enemies = vec![enemy(9, 10_000, 0, 100, 5)];
    let mut score = GameScore::default();

    let mut projectiles = vec![laser(1, 0, 0, EAST, 500, 50)];
    let report = move_projectiles(&mut projectiles, &mut enemies, 16, &mut score);
    assert!(projectiles.is_empty());
    assert_eq!(report.despawned_projectiles, vec![1]);
    assert_eq!(enemies.len(), 1);
    assert_eq!(enemies[0].enemy.health, 50);
    // pushed ten units along the bolt's heading, box and all
    assert_eq!(enemies[0].position, Point::new(20_000, 0));
    assert_eq!(enemies[0].aabb, AABB::new(Point::new(20_000, 0), 40_000, 40_000));
    assert_eq!(score.score, 0);
    assert!(report.pickups.is_empty());
    assert!(report.despawned_enemies.is_empty());
    assert!(report.explosions.is_empty());

    let mut projectiles = vec![laser(2, 0, 0, EAST, 500, 60)];
    let report = move_projectiles(&mut projectiles, &mut enemies, 16, &mut score);
    assert!(projectiles.is_empty());
    assert!(enemies.is_empty());
    assert_eq!(report.despawned_enemies, vec![9]);
    assert_eq!(score.score, 1);
    assert_eq!(
        report.pickups,
        vec![Pickup {
            position: Point::new(30_000, 0),
            aabb: AABB::new(Point::new(30_000, 0), 20_000, 20_000),
            collectible: Collectible { amount: 20 },
            magnetized: false,
        }]
    );
}

#[test]
fn rocket_reaches_every_enemy_within_its_radius() {
    // the rocket rests at the origin; enemies at 5, 15, 25, 35 and 45 units
    let mut enemies = vec![
        enemy(1, 5_000, 0, 100, 1),
        enemy(2, 0, 15_000, 100, 1),
        enemy(3, -25_000, 0, 100, 1),
        enemy(4, 0, -35_000, 100, 1),
        enemy(5, 45_000, 0, 100, 1),
    ];
    let untouched = enemies.clone();
    let mut score = GameScore::default();
    let mut projectiles = vec![rocket(7, 0, 0, 30_000, 40)];
    let report = move_projectiles(&mut projectiles, &mut enemies, 16, &mut score);
    assert!(projectiles.is_empty());
    assert_eq!(report.despawned_projectiles, vec![7]);
    assert_eq!(report.explosions, vec![Point::new(0, 0)]);
    assert_eq!(enemies.len(), 5);
    // within thirty units: wounded and pushed twenty units away from the blast
    assert_eq!(enemies[0].enemy.health, 60);
    assert_eq!(enemies[0].position, Point::new(25_000, 0));
    assert_eq!(enemies[0].aabb, AABB::new(Point::new(25_000, 0), 40_000, 40_000));
    assert_eq!(enemies[1].enemy.health, 60);
    assert_eq!(enemies[1].position, Point::new(0, 35_000));
    assert_eq!(enemies[2].enemy.health, 60);
    assert_eq!(enemies[2].position, Point::new(-45_000, 0));
    // beyond: nothing
    assert_eq!(enemies[3], untouched[3]);
    assert_eq!(enemies[4], untouched[4]);
    assert_eq!(score.score, 0);
}

#[test]
fn blast_radius_includes_its_rim() {
    let mut enemies = vec![small_enemy(1, 30_000, 0, 10), small_enemy(2, 30_001, 0, 10)];
    blast(&mut enemies, Point::new(0, 0), 30_000, 4);
    assert_eq!(enemies[0].enemy.health, 6);
    assert_eq!(enemies[0].position, Point::new(50_000, 0));
    assert_eq!(enemies[1], small_enemy(2, 30_001, 0, 10));
}

#[test]
fn enemy_on_the_centre_of_a_blast_is_wounded_and_not_pushed() {
    let mut enemies = vec![enemy(1, 7, 7, 10, 1)];
    blast(&mut enemies, Point::new(7, 7), 0, 3);
    assert_eq!(enemies, vec![enemy(1, 7, 7, 7, 1)]);
}

#[test]
fn rocket_that_touches_nobody_flies_on() {
    let mut enemies = vec![small_enemy(1, 20_000, 0, 100)];
    let before = enemies.clone();
    let mut score = GameScore::default();
    let mut flying = rocket(7, 0, 0, 30_000, 40);
    flying.projectile.speed = 250;
    let mut projectiles = vec![flying];
    let report = move_projectiles(&mut projectiles, &mut enemies, 16, &mut score);
    // within the blast radius but its box is not touched: no blast
    assert_eq!(enemies, before);
    assert_eq!(projectiles.len(), 1);
    assert_eq!(projectiles[0].position, Point::new(4_000, 0));
    assert_eq!(projectiles[0].projectile.lifetime.remaining(), 4984);
    assert!(report.explosions.is_empty());
    assert!(report.despawned_projectiles.is_empty());
}

#[test]
fn rocket_kills_several_and_despawns_once() {
    let mut enemies = vec![
        enemy(1, 0, 0, 10, 1),
        enemy(2, 10_000, 0, 10, 1),
        enemy(3, 200_000, 0, 10, 1),
        enemy(4, 0, 10_000, 11, 1),
    ];
    let mut score = GameScore { score: 5 };
    let mut projectiles = vec![rocket(7, 0, 0, 30_000, 10)];
    let report = move_projectiles(&mut projectiles, &mut enemies, 16, &mut score);
    assert_eq!(report.despawned_projectiles, vec![7]);
    assert_eq!(report.explosions.len(), 1);
    assert_eq!(report.despawned_enemies, vec![1, 2]);
    assert_eq!(score.score, 7);
    assert_eq!(report.pickups.len(), 2);
    assert_eq!(report.pickups[0].position, Point::new(0, 0));
    assert_eq!(report.pickups[1].position, Point::new(30_000, 0));
    assert_eq!(enemies.len(), 2);
    assert_eq!(enemies[0], enemy(3, 200_000, 0, 10, 1));
    assert_eq!(enemies[1].id, 4);
    assert_eq!(enemies[1].enemy.health, 1);
}

#[test]
fn laser_hits_the_first_enemy_in_the_list_only() {
    let mut enemies = vec![enemy(1, 100_000, 0, 100, 1), enemy(2, 0, 0, 100, 1), enemy(3, 0, 0, 100, 1)];
    let mut score = GameScore::default();
    let mut projectiles = vec![laser(1, 0, 0, EAST, 0, 30)];
    move_projectiles(&mut projectiles, &mut enemies, 16, &mut score);
    assert_eq!(enemies[0], enemy(1, 100_000, 0, 100, 1));
    assert_eq!(enemies[1].enemy.health, 70);
    assert_eq!(enemies[2], enemy(3, 0, 0, 100, 1));
}

#[test]
fn laser_hits_within_the_forgiveness_margin() {
    let mut enemies = vec![enemy(1, 0, 0, 100, 1)];
    let mut score = GameScore::default();
    // the box ends at 20 units; the margin reaches 25
    let mut projectiles = vec![laser(2, 25_001, 0, EAST, 0, 30), laser(1, 25_000, 0, EAST, 0, 30)];
    let report = move_projectiles(&mut projectiles, &mut enemies, 16, &mut score);
    assert_eq!(report.despawned_projectiles, vec![1]);
    assert_eq!(projectiles.len(), 1);
    assert_eq!(projectiles[0].id, 2);
    assert_eq!(enemies[0].enemy.health, 70);
}

#[test]
fn expired_projectile_is_removed_without_hitting() {
    let mut enemies = vec![enemy(1, 0, 0, 100, 1)];
    let before = enemies.clone();
    let mut score = GameScore::default();
    let mut dying = laser(4, 0, 0, EAST, 0, 30);
    dying.projectile.lifetime.tick(2990);
    let mut projectiles = vec![dying];
    let report = move_projectiles(&mut projectiles, &mut enemies, 16, &mut score);
    assert!(projectiles.is_empty());
    assert_eq!(report.despawned_projectiles, vec![4]);
    assert_eq!(enemies, before);
    assert_eq!(score.score, 0);
}

#[test]
fn projectile_flies_by_speed_and_time() {
    let mut enemies = Vec::new();
    let mut score = GameScore::default();
    let mut projectiles = vec![laser(1, 1000, 1000, Direction { x: 600, y: -800 }, 500, 30)];
    let report = move_projectiles(&mut projectiles, &mut enemies, 20, &mut score);
    // 500 units per second for 20 ms is ten units
    assert_eq!(projectiles[0].position, Point::new(7000, -7000));
    assert_eq!(projectiles[0].projectile.lifetime.remaining(), 2980);
    assert!(report.despawned_projectiles.is_empty());
}

#[test]
fn later_projectile_does_not_hit_an_enemy_killed_by_an_earlier_one() {
    let mut enemies = vec![enemy(1, 0, 0, 10, 1)];
    let mut score = GameScore::default();
    let mut projectiles = vec![laser(1, 0, 0, EAST, 0, 30), laser(2, 0, 0, EAST, 0, 30)];
    let report = move_projectiles(&mut projectiles, &mut enemies, 16, &mut score);
    assert_eq!(score.score, 1);
    assert_eq!(report.despawned_enemies, vec![1]);
    assert_eq!(report.despawned_projectiles, vec![1]);
    assert_eq!(projectiles.len(), 1);
    assert_eq!(projectiles[0].id, 2);
}

#[test]
fn damage_never_takes_health_below_zero() {
    let mut e = enemy(1, 0, 0, 50, 1);
    e.wound(60);
    assert_eq!(e.enemy.health, 0);
    e.wound(u64::MAX);
    assert_eq!(e.enemy.health, 0);
    let mut f = enemy(1, 0, 0, i32::MAX, 1);
    f.wound(0);
    assert_eq!(f.enemy.health, i32::MAX);
    f.wound(u64::MAX);
    assert_eq!(f.enemy.health, 0);
    let mut g = Enemy { health: -5, speed: 0, damage: 0 };
    g.take_hit(1);
    assert_eq!(g.health, 0);
    let mut h = Enemy { health: 100, speed: 3, damage: 4 };
    h.take_hit(40);
    assert_eq!(h, Enemy { health: 60, speed: 3, damage: 4 });
    assert!(!h.is_dead());
    assert!(g.is_dead());
}

#[test]
fn strike_reports_whether_it_hit() {
    let mut enemies = vec![enemy(1, 0, 0, 100, 1)];
    assert!(strike(&laser(1, 0, 0, EAST, 0, 5), &mut enemies));
    assert_eq!(enemies[0].enemy.health, 95);
    assert!(!strike(&laser(1, 500_000, 0, EAST, 0, 5), &mut enemies));
    assert_eq!(enemies[0].enemy.health, 95);
    assert_eq!(find_covering(&enemies, Point::new(10_000, 0)), 0);
    assert_eq!(find_covering(&enemies, Point::new(500_000, 0)), 1);
    assert_eq!(find_covering(&Vec::new(), Point::new(0, 0)), 0);
}

#[test]
fn casualties_score_and_drop() {
    let mut enemies = vec![enemy(1, 0, 0, 0, 1), enemy(2, 5, 5, 1, 1), enemy(3, 9, 9, -3, 1)];
    let mut score = GameScore { score: u32::MAX - 1 };
    let mut report = CombatReport::new();
    collect_casualties(&mut enemies, &mut score, &mut report);
    assert_eq!(enemies, vec![enemy(2, 5, 5, 1, 1)]);
    assert_eq!(report.despawned_enemies, vec![1, 3]);
    assert_eq!(report.pickups.len(), 2);
    assert_eq!(report.pickups[1].position, Point::new(9, 9));
    // the score stops at its largest value
    assert_eq!(score.score, u32::MAX);
}

#[test]
fn aura_burns_everyone_within_its_radius() {
    let mut weapons = spawn_weapons_for_player(1, Point::new(0, 0));
    let mut enemies = vec![
        small_enemy(1, 75_000, 0, 10),
        small_enemy(2, 75_001, 0, 10),
        small_enemy(3, 0, -10_000, 5),
        small_enemy(4, 45_000, 60_000, 6),
    ];
    let mut score = GameScore::default();
    let player = Point::new(0, 0);
    // the flame's cooldown is 100 ms: nothing burns before it completes
    let report = move_player_addicted_weapons(Some(player), &mut weapons, &mut enemies, 99, &mut score);
    assert_eq!(enemies.len(), 4);
    assert_eq!(enemies[0].enemy.health, 10);
    assert!(report.despawned_enemies.is_empty());
    let report = move_player_addicted_weapons(Some(player), &mut weapons, &mut enemies, 1, &mut score);
    assert_eq!(report.despawned_enemies, vec![3]);
    assert_eq!(report.pickups.len(), 1);
    assert_eq!(report.pickups[0].position, Point::new(0, -10_000));
    assert!(report.explosions.is_empty());
    assert_eq!(score.score, 1);
    assert_eq!(enemies.len(), 3);
    // wounded by five, not pushed
    assert_eq!(enemies[0], small_enemy(1, 75_000, 0, 5));
    assert_eq!(enemies[1], small_enemy(2, 75_001, 0, 10));
    assert_eq!(enemies[2], small_enemy(4, 45_000, 60_000, 1));
}

#[test]
fn aura_follows_the_player_and_other_weapons_stay() {
    let mut weapons = spawn_weapons_for_player(1, Point::new(0, 0));
    let before = weapons.clone();
    let mut enemies = Vec::new();
    let mut score = GameScore::default();
    let player = Point::new(123, -456);
    move_player_addicted_weapons(Some(player), &mut weapons, &mut enemies, 30, &mut score);
    assert_eq!(weapons[0], before[0]);
    assert_eq!(weapons[1], before[1]);
    assert_eq!(weapons[2].position, player);
    assert_eq!(weapons[2].weapon.fire_timer.remaining(), 70);
    let snapshot = weapons.clone();
    let report = move_player_addicted_weapons(None, &mut weapons, &mut enemies, 30, &mut score);
    assert_eq!(weapons, snapshot);
    assert!(report.pickups.is_empty());
}

#[test]
fn burn_wounds_without_moving() {
    let mut enemies = vec![enemy(1, 3_000, 4_000, 9, 1), enemy(2, 3_000, 4_001, 9, 1)];
    burn(&mut enemies, Point::new(0, 0), 5_000, 4);
    assert_eq!(enemies[0], enemy(1, 3_000, 4_000, 5, 1));
    assert_eq!(enemies[1], enemy(2, 3_000, 4_001, 9, 1));
}

#[test]
fn nearest_enemy_is_found_and_ties_go_to_the_first() {
    let at = Point::new(0, 0);
    assert_eq!(find_nearest_enemy(at, &Vec::new()), None);
    let enemies = vec![
        enemy(1, 50_000, 0, 1, 1),
        enemy(2, 0, -30_000, 1, 1),
        enemy(3, 30_000, 0, 1, 1),
        enemy(4, 18_000, 24_000, 1, 1),
    ];
    assert_eq!(find_nearest_enemy(at, &enemies), Some(Point::new(0, -30_000)));
    assert_eq!(
        find_nearest_enemy(Point::new(40_000, 0), &enemies),
        Some(Point::new(50_000, 0))
    );
}

#[test]
fn laser_fires_at_the_nearest_enemy_when_cooled_down() {
    let mut weapons = spawn_weapons_for_player(42, Point::new(0, 0));
    let players = vec![PlayerRef { id: 42, position: Point::new(1000, 1000) }];
    let enemies = vec![enemy(1, 1000, 101_000, 1, 1), enemy(2, 31_000, 41_000, 1, 1)];
    let shots = fire_laser_weapons(&mut weapons, 299, &players, &enemies);
    assert!(shots.is_empty());
    assert_eq!(weapons[0].weapon.fire_timer.remaining(), 1);
    // the rocket launcher and the aura did not cool down
    assert_eq!(weapons[1].weapon.fire_timer.remaining(), 200);
    assert_eq!(weapons[2].weapon.fire_timer.remaining(), 100);
    let shots = fire_laser_weapons(&mut weapons, 1, &players, &enemies);
    assert_eq!(
        shots,
        vec![ProjectileSpawn {
            position: Point::new(1000, 1000),
            projectile: Projectile {
                direction: Direction { x: 600, y: 800 },
                speed: 500,
                damage: 50,
                lifetime: Timer::new(3000, TimerMode::Once),
                kind: ProjectileKind::Laser { lazer_weapon: LaserWeapon { color: 0xFF00_FFFF } },
            },
        }]
    );
}

#[test]
fn weapon_without_a_target_fires_nothing_but_cools_down() {
    let mut weapons = spawn_weapons_for_player(42, Point::new(0, 0));
    let players = vec![PlayerRef { id: 42, position: Point::new(0, 0) }];
    let nobody = Vec::new();
    for _ in 0..10 {
        assert!(fire_laser_weapons(&mut weapons, 100, &players, &nobody).is_empty());
        assert!(fire_rocket_weapons(&mut weapons, 100, &players, &nobody).is_empty());
    }
    // ten ticks of 100 ms: the 300 ms cooldown is part-way through its fourth run
    assert_eq!(weapons[0].weapon.fire_timer.remaining(), 200);
    assert_eq!(weapons[1].weapon.fire_timer.remaining(), 200);
    // the cooldown that ran out unused is not handed back
    let enemies = vec![enemy(1, 9_000, 0, 1, 1)];
    assert!(fire_laser_weapons(&mut weapons, 100, &players, &enemies).is_empty());
    assert_eq!(fire_laser_weapons(&mut weapons, 100, &players, &enemies).len(), 1);
}

#[test]
fn weapon_without_its_owner_or_on_its_target_fires_nothing() {
    let mut weapons = spawn_weapons_for_player(42, Point::new(0, 0));
    let strangers = vec![PlayerRef { id: 7, position: Point::new(0, 0) }];
    let enemies = vec![enemy(1, 9_000, 0, 1, 1)];
    assert!(fire_laser_weapons(&mut weapons, 300, &strangers, &enemies).is_empty());
    let players = vec![PlayerRef { id: 42, position: Point::new(9_000, 0) }];
    assert!(fire_laser_weapons(&mut weapons, 300, &players, &enemies).is_empty());
    assert_eq!(weapons[0].weapon.fire_timer.remaining(), 300);
}

#[test]
fn rocket_carries_the_values_its_weapon_had_when_it_fired() {
    let mut weapons = spawn_weapons_for_player(42, Point::new(0, 0));
    let players = vec![PlayerRef { id: 42, position: Point::new(0, 0) }];
    let enemies = vec![enemy(1, 0, -9_000, 1, 1)];
    let shots = fire_rocket_weapons(&mut weapons, 200, &players, &enemies);
    assert_eq!(shots.len(), 1);
    assert_eq!(
        shots[0].projectile,
        Projectile {
            direction: Direction { x: 0, y: -1000 },
            speed: 200,
            damage: 50,
            lifetime: Timer::new(5000, TimerMode::Once),
            kind: ProjectileKind::Rocket { rocket_weapon: RocketWeapon { explosion_radius: 100_000 } },
        }
    );
    // the lasers did not cool down
    assert_eq!(weapons[0].weapon.fire_timer.remaining(), 300);
    assert!(upgrade_first(&mut weapons, WeaponType::Rocket));
    // a rocket already fired keeps what it was given
    assert_eq!(
        shots[0].projectile.kind,
        ProjectileKind::Rocket { rocket_weapon: RocketWeapon { explosion_radius: 100_000 } }
    );
    assert_eq!(shots[0].projectile.damage, 50);
    assert_eq!(shots[0].projectile.speed, 200);
    // 180 ms is the cooldown at level two; the run in progress started with 200
    let shots = fire_rocket_weapons(&mut weapons, 200, &players, &enemies);
    assert_eq!(shots[0].projectile.damage, 60);
    // the rocket flies at the launcher's speed of level two
    assert_eq!(shots[0].projectile.speed, 225);
    assert_eq!(shots[0].projectile.speed, weapons[1].stats.calculate_speed(2));
    assert_eq!(
        shots[0].projectile.kind,
        ProjectileKind::Rocket { rocket_weapon: RocketWeapon { explosion_radius: 110_000 } }
    );
    assert_eq!(weapons[1].weapon.fire_timer.remaining(), 180);
}

#[test]
fn rocket_flies_at_the_speed_of_its_launcher_s_level() {
    let mut weapons = spawn_weapons_for_player(42, Point::new(0, 0));
    let players = vec![PlayerRef { id: 42, position: Point::new(0, 0) }];
    let enemies = vec![enemy(1, 30_000, -40_000, 1, 1)];
    for level in 2..=5 {
        assert!(upgrade_first(&mut weapons, WeaponType::Rocket));
        let cooldown = weapons[1].weapon.fire_timer.remaining() as u32;
        let shots = fire_rocket_weapons(&mut weapons, cooldown, &players, &enemies);
        assert_eq!(shots.len(), 1);
        let fired = shots[0].projectile;
        assert_eq!(fired.speed, 200 + (level - 1) * 25);
        assert_eq!(fired.speed, weapons[1].weapon.speed);
        assert_eq!(fired.speed, weapons[1].stats.calculate_speed(level as i32));
        assert_eq!(fired.damage, weapons[1].weapon.damage);
        assert_eq!(fired.direction, Direction { x: 600, y: -800 });
        assert_eq!(
            fired.kind,
            ProjectileKind::Rocket {
                rocket_weapon: RocketWeapon { explosion_radius: 100_000 + (level - 1) * 10_000 }
            }
        );
        // a later upgrade does not reach the rocket already fired
        let before = fired;
        assert!(upgrade_first(&mut weapons, WeaponType::Laser));
        assert_eq!(shots[0].projectile, before);
    }
}

#[test]
fn blast_pushes_a_near_enemy_by_twenty_units() {
    // one thousandth off the centre on both axes: pushed 20 units along the diagonal
    let mut enemies = vec![small_enemy(1, 1, 1, 10)];
    blast(&mut enemies, Point::new(0, 0), 30_000, 4);
    assert_eq!(enemies[0].position, Point::new(1 + 14_140, 1 + 14_140));
    assert_eq!(enemies[0].enemy.health, 6);
}

#[test]
fn weapon_fires_a_unit_vector_at_a_target_a_thousandth_away() {
    let mut weapons = spawn_weapons_for_player(42, Point::new(0, 0));
    let players = vec![PlayerRef { id: 42, position: Point::new(0, 0) }];
    let enemies = vec![enemy(1, 1, 1, 1, 1)];
    let lasers = fire_laser_weapons(&mut weapons, 300, &players, &enemies);
    assert_eq!(lasers[0].projectile.direction, Direction { x: 707, y: 707 });
    let rockets = fire_rocket_weapons(&mut weapons, 200, &players, &enemies);
    assert_eq!(rockets[0].projectile.direction, Direction { x: 707, y: 707 });
}
