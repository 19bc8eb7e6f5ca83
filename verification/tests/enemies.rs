use rand::rngs::StdRng;
use rand::SeedableRng;
use survivor_sim::aabb::{Point, AABB};
use survivor_sim::enemy::{follow, Enemy, EnemySprit, EnemyUnit, SpriteFrame};
use survivor_sim::spawner::{
    raise_power, scale_enemy, spawn_enemies, spawn_position, speed_range, EnemyPowerUpTimer,
    SpawnCandidates,
};
use survivor_sim::timers::{EnemySpawnTimer, Timer, TimerMode};

fn unit(id: u64, x: i32, y: i32, speed: u32) -> EnemyUnit {
    let position = Point::new(x, y);
    EnemyUnit {
        id,
        position,
        enemy: Enemy { health: 100, speed, damage: 1 },
        aabb: AABB::new(position, 40_000, 40_000),
    }
}

fn frame(parent: usize, index: usize, atlas: Option<usize>) -> SpriteFrame {
    SpriteFrame { parent, sprite: EnemySprit { index }, atlas_index: atlas }
}

#[test]
fn enemies_run_straight_at_the_player() {
    let mut enemies = vec![unit(1, 30_000, 40_000, 100), unit(2, -50_000, 0, 200)];
    let mut timer = Timer::new(200, TimerMode::Repeating);
    let mut sprites = Vec::new();
    follow(Some(Point::new(0, 0)), &mut enemies, 50, &mut timer, &mut sprites);
    // 100 units per second for 50 ms: five units along (-0.6, -0.8)
    assert_eq!(enemies[0].position, Point::new(27_000, 36_000));
    assert_eq!(enemies[0].aabb, AABB::new(Point::new(27_000, 36_000), 40_000, 40_000));
    assert_eq!(enemies[1].position, Point::new(-40_000, 0));
    assert_eq!(enemies[1].enemy, Enemy { health: 100, speed: 200, damage: 1 });
    assert_eq!(timer.remaining(), 150);
}

#[test]
fn enemy_on_the_player_stays_put() {
    let mut enemies = vec![unit(1, 5, 5, 100)];
    let before = enemies.clone();
    let mut timer = Timer::new(200, TimerMode::Repeating);
    let mut sprites = vec![frame(0, 3, Some(3))];
    follow(Some(Point::new(5, 5)), &mut enemies, 200, &mut timer, &mut sprites);
    assert_eq!(enemies, before);
    // it did not move, so its sprite does not step either
    assert_eq!(sprites, vec![frame(0, 3, Some(3))]);
    assert!(timer.just_finished());
}

#[test]
fn without_a_player_nothing_moves_and_no_time_passes() {
    let mut enemies = vec![unit(1, 30_000, 40_000, 100)];
    let before = enemies.clone();
    let mut timer = Timer::new(200, TimerMode::Repeating);
    let mut sprites = vec![frame(0, 3, Some(3))];
    follow(None, &mut enemies, 500, &mut timer, &mut sprites);
    assert_eq!(enemies, before);
    assert_eq!(timer, Timer::new(200, TimerMode::Repeating));
    assert_eq!(sprites, vec![frame(0, 3, Some(3))]);
}

#[test]
fn sprites_step_only_when_the_walk_timer_completes() {
    let mut enemies = vec![unit(1, 100_000, 0, 10)];
    let mut timer = Timer::new(200, TimerMode::Repeating);
    let mut sprites = vec![frame(0, 0, Some(0))];
    follow(Some(Point::new(0, 0)), &mut enemies, 199, &mut timer, &mut sprites);
    assert_eq!(sprites, vec![frame(0, 0, Some(0))]);
    follow(Some(Point::new(0, 0)), &mut enemies, 1, &mut timer, &mut sprites);
    // heading west: the band that starts at frame nine
    assert_eq!(sprites, vec![frame(0, 1, Some(10))]);
}

#[test]
fn facing_band_follows_the_larger_axis() {
    let player = Point::new(0, 0);
    let mut enemies = vec![
        unit(1, -100_000, 10_000, 0),
        unit(2, 100_000, 10_000, 0),
        unit(3, 10_000, -100_000, 0),
        unit(4, 10_000, 100_000, 0),
        unit(5, 50_000, 50_000, 0),
        unit(6, -50_000, -50_000, 0),
    ];
    let mut timer = Timer::new(200, TimerMode::Repeating);
    let mut sprites = vec![
        frame(0, 0, Some(99)),
        frame(1, 1, Some(99)),
        frame(2, 7, Some(99)),
        frame(3, 8, Some(99)),
        frame(4, 4, Some(99)),
        frame(5, 4, Some(99)),
        frame(0, 2, None),
        frame(17, 2, Some(5)),
    ];
    follow(Some(player), &mut enemies, 200, &mut timer, &mut sprites);
    // enemy west of the player runs east: band 27
    assert_eq!(sprites[0], frame(0, 1, Some(28)));
    // east of the player, runs west: band 9
    assert_eq!(sprites[1], frame(1, 2, Some(11)));
    // below the player, runs up: band 0
    assert_eq!(sprites[2], frame(2, 8, Some(8)));
    // above the player, runs down: band 18; the cycle wraps after frame eight
    assert_eq!(sprites[3], frame(3, 0, Some(18)));
    // a tie between the axes goes to the vertical one
    assert_eq!(sprites[4], frame(4, 5, Some(23)));
    assert_eq!(sprites[5], frame(5, 5, Some(5)));
    // a sprite without an atlas steps its cycle and picks no frame
    assert_eq!(sprites[6], frame(0, 3, None));
    // a sprite whose enemy is gone is left alone
    assert_eq!(sprites[7], frame(17, 2, Some(5)));
}

#[test]
fn sprite_step_wraps_near_the_largest_index() {
    let mut f = frame(0, usize::MAX, Some(0));
    f.step(Point::new(0, 0), Point::new(0, 1000));
    assert_eq!(f.sprite.index, ((usize::MAX % 9) + 1) % 9);
}

#[test]
fn farther_candidate_wins_on_each_axis() {
    let player = Point::new(1_000_000, -1_000_000);
    let c = SpawnCandidates {
        negative_x: -300_000,
        positive_x: 250_000,
        negative_y: -200_000,
        positive_y: 500_000,
    };
    assert_eq!(spawn_position(player, c), Point::new(700_000, -500_000));
    // a tie goes to the positive side
    let tie = SpawnCandidates {
        negative_x: -300_000,
        positive_x: 300_000,
        negative_y: -300_000,
        positive_y: 300_000,
    };
    assert_eq!(spawn_position(player, tie), Point::new(1_300_000, -700_000));
    let edge = SpawnCandidates {
        negative_x: -200_000,
        positive_x: 500_000,
        negative_y: -500_000,
        positive_y: 200_000,
    };
    assert_eq!(
        spawn_position(Point::new(i32::MAX, i32::MIN), edge),
        Point::new(i32::MAX, i32::MIN)
    );
}

#[test]
fn enemies_scale_with_the_power_level() {
    assert_eq!(scale_enemy(1, 150), Enemy { health: 100, speed: 150, damage: 1 });
    assert_eq!(scale_enemy(7, 900), Enemy { health: 700, speed: 900, damage: 7 });
    assert_eq!(scale_enemy(0, 0), Enemy { health: 0, speed: 0, damage: 0 });
    assert_eq!(
        scale_enemy(u32::MAX, 1),
        Enemy { health: i32::MAX, speed: 1, damage: i32::MAX }
    );
    assert_eq!(speed_range(1), (100, 199));
    assert_eq!(speed_range(3), (300, 599));
    assert_eq!(speed_range(0), (0, 0));
    assert_eq!(speed_range(u32::MAX), (u32::MAX, u32::MAX));
    assert_eq!(speed_range(30_000_000), (3_000_000_000, u32::MAX - 1));
}

#[test]
fn power_level_rises_with_the_director_timer() {
    let mut director = EnemyPowerUpTimer::default();
    assert_eq!(director.power_level, 1);
    assert_eq!(director.timer, Timer::new(10_000, TimerMode::Repeating));
    raise_power(&mut director, 9_999);
    assert_eq!(director.power_level, 1);
    raise_power(&mut director, 1);
    assert_eq!(director.power_level, 2);
    raise_power(&mut director, 10_000);
    assert_eq!(director.power_level, 3);
    let mut top = EnemyPowerUpTimer { power_level: u32::MAX, ..EnemyPowerUpTimer::default() };
    raise_power(&mut top, 10_000);
    assert_eq!(top.power_level, u32::MAX);
}

#[test]
fn spawner_creates_one_enemy_per_completed_spawn_timer() {
    let mut rng = StdRng::seed_from_u64(1);
    let mut spawn_timer = EnemySpawnTimer::default();
    let mut director = EnemyPowerUpTimer::default();
    let player = Point::new(10_000, 20_000);
    assert_eq!(
        spawn_enemies(&mut spawn_timer, &mut director, Some(player), 9, 5, &mut rng),
        None
    );
    let spawned = spawn_enemies(&mut spawn_timer, &mut director, Some(player), 1, 5, &mut rng)
        .unwrap();
    assert_eq!(spawned.id, 5);
    assert_eq!(spawned.enemy.health, 100);
    assert_eq!(spawned.enemy.damage, 1);
    assert!(spawned.enemy.speed >= 100 && spawned.enemy.speed < 200);
    let dx = (spawned.position.x - player.x).abs();
    let dy = (spawned.position.y - player.y).abs();
    assert!((200_000..=500_000).contains(&dx));
    assert!((200_000..=500_000).contains(&dy));
    assert_eq!(spawned.aabb, AABB::new(spawned.position, 40_000, 40_000));
    assert_eq!(director.timer.remaining(), 9_990);
}

#[test]
fn spawner_without_a_player_does_nothing() {
    let mut rng = StdRng::seed_from_u64(1);
    let mut spawn_timer = EnemySpawnTimer::default();
    let mut director = EnemyPowerUpTimer::default();
    assert_eq!(spawn_enemies(&mut spawn_timer, &mut director, None, 500, 5, &mut rng), None);
    assert_eq!(spawn_timer.timer, Timer::new(10, TimerMode::Repeating));
    assert_eq!(director, EnemyPowerUpTimer::default());
}

#[test]
fn spawned_enemies_vary_and_get_stronger() {
    let mut rng = StdRng::seed_from_u64(2024);
    let mut spawn_timer = EnemySpawnTimer::default();
    let mut director = EnemyPowerUpTimer::default();
    let player = Point::new(0, 0);
    let mut speeds = std::collections::HashSet::new();
    let mut places = std::collections::HashSet::new();
    let mut east = 0;
    let mut west = 0;
    for id in 0..400u64 {
        let e = spawn_enemies(&mut spawn_timer, &mut director, Some(player), 10, id, &mut rng)
            .unwrap();
        assert_eq!(e.enemy.health, 100);
        assert!(e.enemy.speed >= 100 && e.enemy.speed < 200);
        assert!((200_000..=500_000).contains(&e.position.x.abs()));
        assert!((200_000..=500_000).contains(&e.position.y.abs()));
        speeds.insert(e.enemy.speed);
        places.insert((e.position.x, e.position.y));
        if e.position.x > 0 {
            east += 1;
        } else {
            west += 1;
        }
    }
    // the draws are random: many speeds, many places, both sides
    assert!(speeds.len() > 20);
    assert!(places.len() > 300);
    assert!(east > 50 && west > 50);
    // four seconds have passed; six more bring the second power level
    let e = spawn_enemies(&mut spawn_timer, &mut director, Some(player), 6_000, 0, &mut rng)
        .unwrap();
    assert_eq!(director.power_level, 2);
    assert_eq!(e.enemy.health, 200);
    assert_eq!(e.enemy.damage, 2);
    assert!(e.enemy.speed >= 200 && e.enemy.speed < 400);
}

#[test]
fn enemy_a_thousandth_away_steps_along_the_unit_vector() {
    // due a step of one unit: 100 units per second for 10 ms
    let mut enemies = vec![unit(1, 1, 1, 100)];
    let mut timer = Timer::new(200, TimerMode::Repeating);
    let mut sprites = Vec::new();
    follow(Some(Point::new(0, 0)), &mut enemies, 10, &mut timer, &mut sprites);
    assert_eq!(enemies[0].position, Point::new(-706, -706));
    assert_eq!(enemies[0].aabb, AABB::new(Point::new(-706, -706), 40_000, 40_000));
}

#[test]
fn facing_band_is_decided_by_the_offset_itself() {
    // just off the diagonal: the longer side decides, however little longer it is
    let mut f = frame(0, 0, Some(0));
    f.step(Point::new(0, 0), Point::new(1_000_001, 1_000_000));
    assert_eq!(f, frame(0, 1, Some(28)));
    let mut g = frame(0, 0, Some(0));
    g.step(Point::new(0, 0), Point::new(-1_000_001, 1_000_000));
    assert_eq!(g, frame(0, 1, Some(10)));
    let mut h = frame(0, 0, Some(0));
    h.step(Point::new(0, 0), Point::new(1_000_000, 1_000_001));
    assert_eq!(h, frame(0, 1, Some(1)));
    let mut i = frame(0, 0, Some(0));
    i.step(Point::new(0, 0), Point::new(1_000_000, -1_000_000));
    assert_eq!(i, frame(0, 1, Some(19)));
    let mut far = frame(0, 0, Some(0));
    far.step(Point::new(i32::MAX, i32::MAX), Point::new(i32::MIN, i32::MIN + 1));
    assert_eq!(far, frame(0, 1, Some(10)));
}
