use rand::rngs::StdRng;
use rand::SeedableRng;
use survivor_sim::aabb::Point;
use survivor_sim::game_state::{GameState, NextState};
use survivor_sim::timers::{Timer, TimerMode};
use survivor_sim::weapon_stats::{spawn_weapons_for_player, WeaponStats};
use survivor_sim::weapon_upgrade::{
    apply_weapon_upgrade, handle_upgrade_input, options_for, upgrade_first, Interaction,
    UpgradeButton, UpgradeChoices, UpgradeOption, UpgradeSelectedEvent, WeaponLevel, WeaponType,
};
use survivor_sim::weapons::{
    LaserWeapon, PlayerAddictedWeapon, RocketWeapon, Weapon, WeaponKind, WeaponUnit,
};

fn stats(damage: u32, fire_rate: u32, speed: u32, range: u32) -> WeaponStats {
    WeaponStats { base_damage: damage, base_fire_rate: fire_rate, base_speed: speed, base_range: range }
}

fn pick(kind: WeaponType) -> UpgradeSelectedEvent {
    UpgradeSelectedEvent { weapon_type: kind }
}

fn count(weapons: &[WeaponUnit], kind: WeaponType) -> usize {
    weapons.iter().filter(|w| w.level.weapon_type == kind).count()
}

#[test]
fn damage_formula() {
    let s = stats(50, 300, 500, 0);
    assert_eq!(s.calculate_damage(1), 50);
    assert_eq!(s.calculate_damage(2), 60);
    assert_eq!(s.calculate_damage(3), 70);
    assert_eq!(s.calculate_damage(11), 150);
    assert_eq!(s.calculate_damage(0), 40);
    assert_eq!(s.calculate_damage(-4), 0);
    assert_eq!(s.calculate_damage(-100), 0);
    // nothing is cut off above: the result has room for every base and level
    assert_eq!(stats(u32::MAX - 5, 0, 0, 0).calculate_damage(2), u32::MAX as u64 + 5);
    assert_eq!(stats(u32::MAX, 0, 0, 0).calculate_damage(3), u32::MAX as u64 + 20);
    assert_eq!(s.calculate_damage(i32::MAX), 50 + (i32::MAX as u64 - 1) * 10);
    assert_eq!(s.calculate_damage(i32::MIN), 0);
}

#[test]
fn fire_rate_formula() {
    let s = stats(50, 300, 500, 0);
    assert_eq!(s.calculate_fire_rate(1), 300);
    assert_eq!(s.calculate_fire_rate(2), 270);
    assert_eq!(s.calculate_fire_rate(3), 240);
    assert_eq!(s.calculate_fire_rate(9), 60);
    // the floor of 50 ms
    assert_eq!(s.calculate_fire_rate(10), 50);
    assert_eq!(s.calculate_fire_rate(11), 50);
    assert_eq!(s.calculate_fire_rate(12), 50);
    assert_eq!(s.calculate_fire_rate(i32::MAX), 50);
    assert_eq!(s.calculate_fire_rate(0), 330);
    assert_eq!(stats(0, 105, 0, 0).calculate_fire_rate(2), 94);
    assert_eq!(stats(0, 0, 0, 0).calculate_fire_rate(1), 50);
    assert_eq!(
        stats(0, u32::MAX, 0, 0).calculate_fire_rate(i32::MIN),
        (u32::MAX as u64) * (11 + (1u64 << 31)) / 10
    );
}

#[test]
fn speed_formula() {
    let s = stats(50, 300, 500, 0);
    assert_eq!(s.calculate_speed(1), 500);
    assert_eq!(s.calculate_speed(2), 525);
    assert_eq!(s.calculate_speed(5), 600);
    assert_eq!(s.calculate_speed(-19), 0);
    assert_eq!(s.calculate_speed(-20), 0);
    assert_eq!(s.calculate_speed(i32::MAX), u32::MAX);
}

#[test]
fn range_formula() {
    let s = stats(5, 100, 0, 75_000);
    assert_eq!(s.calculate_range(1), 75_000);
    assert_eq!(s.calculate_range(2), 86_250);
    assert_eq!(s.calculate_range(3), 97_500);
    assert_eq!(s.calculate_range(-5), 7_500);
    assert_eq!(s.calculate_range(-6), 0);
    assert_eq!(s.calculate_range(i32::MAX), u32::MAX);
    assert_eq!(stats(0, 0, 0, 7).calculate_range(2), 8);
}

#[test]
fn explosion_radius_formula() {
    assert_eq!(WeaponStats::calculate_explosion_radius(1), 100_000);
    assert_eq!(WeaponStats::calculate_explosion_radius(2), 110_000);
    assert_eq!(WeaponStats::calculate_explosion_radius(4), 130_000);
    assert_eq!(WeaponStats::calculate_explosion_radius(-9), 0);
    assert_eq!(WeaponStats::calculate_explosion_radius(i32::MAX), u32::MAX);
}

#[test]
fn player_starts_with_one_weapon_of_each_kind() {
    let at = Point::new(3, 4);
    let weapons = spawn_weapons_for_player(77, at);
    assert_eq!(weapons.len(), 3);
    assert_eq!(
        weapons[0],
        WeaponUnit {
            weapon: Weapon {
                owner: 77,
                damage: 50,
                fire_timer: Timer::new(300, TimerMode::Repeating),
                speed: 500
            },
            kind: WeaponKind::Laser(LaserWeapon { color: 0xFF00_FFFF }),
            level: WeaponLevel { level: 1, weapon_type: WeaponType::Laser },
            stats: stats(50, 300, 500, 0),
            position: at,
        }
    );
    assert_eq!(weapons[1].kind, WeaponKind::Rocket(RocketWeapon { explosion_radius: 100_000 }));
    assert_eq!(weapons[1].weapon.fire_timer, Timer::new(200, TimerMode::Repeating));
    assert_eq!(weapons[1].stats, stats(50, 200, 200, 0));
    assert_eq!(weapons[2].kind, WeaponKind::Aura(PlayerAddictedWeapon { radius: 75_000 }));
    assert_eq!(weapons[2].weapon.damage, 5);
    assert_eq!(weapons[2].stats, stats(5, 100, 0, 75_000));
    for kind in [WeaponType::Laser, WeaponType::Rocket, WeaponType::Flame] {
        assert_eq!(count(&weapons, kind), 1);
    }
}

#[test]
fn two_upgrades_give_the_damage_of_level_three() {
    let mut weapons = spawn_weapons_for_player(1, Point::new(0, 0));
    // whatever the weapon holds, the upgrade recomputes from base and level
    weapons[0].weapon.damage = 9999;
    let mut events = vec![pick(WeaponType::Laser), pick(WeaponType::Laser)];
    let mut next = NextState::new();
    let mut choices = UpgradeChoices::new();
    apply_weapon_upgrade(&mut events, &mut weapons, &mut next, &mut choices);
    assert!(events.is_empty());
    assert_eq!(weapons[0].level.level, 3);
    assert_eq!(weapons[0].weapon.damage, 50 + 2 * 10);
    assert_eq!(weapons[0].weapon.speed, 550);
    assert_eq!(weapons[0].weapon.fire_timer.duration(), 240);
    assert_eq!(weapons[0].stats, stats(50, 300, 500, 0));
    assert_eq!(next.pending, Some(GameState::Playing));
}

#[test]
fn two_choices_in_two_batches_give_the_same_as_in_one() {
    let mut at_once = spawn_weapons_for_player(1, Point::new(0, 0));
    let mut in_turn = spawn_weapons_for_player(1, Point::new(0, 0));
    at_once[1].weapon.damage = 1;
    in_turn[1].weapon.damage = u64::MAX;
    let mut next = NextState::new();
    let mut choices = UpgradeChoices::new();
    let mut both = vec![pick(WeaponType::Rocket), pick(WeaponType::Rocket)];
    apply_weapon_upgrade(&mut both, &mut at_once, &mut next, &mut choices);
    for _ in 0..2 {
        let mut one = vec![pick(WeaponType::Rocket)];
        apply_weapon_upgrade(&mut one, &mut in_turn, &mut next, &mut choices);
    }
    assert_eq!(at_once, in_turn);
    assert_eq!(at_once[1].level.level, 3);
    assert_eq!(at_once[1].weapon.damage, 50 + 20);
    assert_eq!(at_once[1].weapon.damage, at_once[1].stats.calculate_damage(3));
    let mut top = spawn_weapons_for_player(1, Point::new(0, 0));
    top[0].stats.base_damage = u32::MAX;
    let mut both = vec![pick(WeaponType::Laser), pick(WeaponType::Laser)];
    apply_weapon_upgrade(&mut both, &mut top, &mut next, &mut choices);
    assert_eq!(top[0].weapon.damage, u32::MAX as u64 + 20);
}

#[test]
fn upgrade_leaves_the_running_cooldown_alone() {
    let mut weapons = spawn_weapons_for_player(1, Point::new(0, 0));
    weapons[0].weapon.fire_timer.tick(100);
    assert!(upgrade_first(&mut weapons, WeaponType::Laser));
    assert_eq!(weapons[0].weapon.fire_timer.duration(), 270);
    assert_eq!(weapons[0].weapon.fire_timer.remaining(), 200);
}

#[test]
fn rocket_upgrade_scales_speed_and_blast() {
    let mut weapons = spawn_weapons_for_player(1, Point::new(0, 0));
    assert!(upgrade_first(&mut weapons, WeaponType::Rocket));
    assert_eq!(weapons[1].level.level, 2);
    assert_eq!(weapons[1].weapon.damage, 60);
    assert_eq!(weapons[1].weapon.speed, 225);
    assert_eq!(weapons[1].weapon.fire_timer.duration(), 180);
    assert_eq!(weapons[1].kind, WeaponKind::Rocket(RocketWeapon { explosion_radius: 110_000 }));
    // the others are untouched
    let fresh = spawn_weapons_for_player(1, Point::new(0, 0));
    assert_eq!(weapons[0], fresh[0]);
    assert_eq!(weapons[2], fresh[2]);
}

#[test]
fn flame_upgrade_scales_the_aura() {
    let mut weapons = spawn_weapons_for_player(1, Point::new(0, 0));
    assert!(upgrade_first(&mut weapons, WeaponType::Flame));
    assert_eq!(weapons[2].weapon.damage, 15);
    assert_eq!(weapons[2].weapon.speed, 0);
    assert_eq!(weapons[2].weapon.fire_timer.duration(), 90);
    assert_eq!(weapons[2].kind, WeaponKind::Aura(PlayerAddictedWeapon { radius: 86_250 }));
}

#[test]
fn only_the_first_weapon_of_the_kind_is_upgraded() {
    let mut weapons = spawn_weapons_for_player(1, Point::new(0, 0));
    let second_laser = weapons[0];
    weapons.push(second_laser);
    assert!(upgrade_first(&mut weapons, WeaponType::Laser));
    assert_eq!(weapons[0].level.level, 2);
    assert_eq!(weapons[3], second_laser);
}

#[test]
fn choice_without_a_weapon_of_that_kind_upgrades_nothing() {
    let mut weapons: Vec<WeaponUnit> = spawn_weapons_for_player(1, Point::new(0, 0));
    weapons.remove(2);
    let before = weapons.clone();
    let mut events = vec![pick(WeaponType::Flame)];
    let mut next = NextState::new();
    let mut rng = StdRng::seed_from_u64(5);
    let mut choices = UpgradeChoices::new();
    choices.generate_random_options(&mut rng);
    apply_weapon_upgrade(&mut events, &mut weapons, &mut next, &mut choices);
    assert_eq!(weapons, before);
    assert_eq!(next.pending, None);
    // the choice was consumed all the same
    assert!(events.is_empty());
    assert!(!choices.waiting_for_choice);
    assert!(choices.options.is_empty());
    assert!(!upgrade_first(&mut weapons, WeaponType::Flame));
}

#[test]
fn no_choice_changes_nothing() {
    let mut weapons = spawn_weapons_for_player(1, Point::new(0, 0));
    let before = weapons.clone();
    let mut events = Vec::new();
    let mut next = NextState::new();
    let mut rng = StdRng::seed_from_u64(5);
    let mut choices = UpgradeChoices::new();
    choices.generate_random_options(&mut rng);
    apply_weapon_upgrade(&mut events, &mut weapons, &mut next, &mut choices);
    assert_eq!(weapons, before);
    assert_eq!(next.pending, None);
    assert!(choices.waiting_for_choice);
    assert_eq!(choices.options.len(), 3);
}

#[test]
fn repeated_upgrades_never_add_or_remove_a_weapon() {
    let mut weapons = spawn_weapons_for_player(1, Point::new(0, 0));
    let mut next = NextState::new();
    let mut choices = UpgradeChoices::new();
    let kinds = [WeaponType::Laser, WeaponType::Laser, WeaponType::Flame, WeaponType::Rocket];
    for round in 0..40 {
        let mut events = vec![pick(kinds[round % 4])];
        apply_weapon_upgrade(&mut events, &mut weapons, &mut next, &mut choices);
        assert_eq!(weapons.len(), 3);
        for kind in [WeaponType::Laser, WeaponType::Rocket, WeaponType::Flame] {
            assert_eq!(count(&weapons, kind), 1);
        }
    }
    assert_eq!(weapons[0].level.level, 21);
    assert_eq!(weapons[0].weapon.damage, 50 + 20 * 10);
    assert_eq!(weapons[0].weapon.fire_timer.duration(), 50);
    assert_eq!(weapons[1].level.level, 11);
    assert_eq!(weapons[2].level.level, 11);
    assert_eq!(weapons[2].kind, WeaponKind::Aura(PlayerAddictedWeapon { radius: 187_500 }));
}

#[test]
fn level_stops_at_its_largest_value() {
    let mut weapons = spawn_weapons_for_player(1, Point::new(0, 0));
    weapons[0].level.level = i32::MAX;
    assert!(upgrade_first(&mut weapons, WeaponType::Laser));
    assert_eq!(weapons[0].level.level, i32::MAX);
    assert_eq!(weapons[0].weapon.damage, 50 + (i32::MAX as u64 - 1) * 10);
}

#[test]
fn generated_offer_has_three_distinct_catalogue_entries() {
    for seed in 0..50u64 {
        let mut rng = StdRng::seed_from_u64(seed);
        let mut choices = UpgradeChoices::new();
        let offered = choices.generate_random_options(&mut rng);
        assert_eq!(offered.len(), 3);
        assert!(choices.waiting_for_choice);
        assert_eq!(choices.options.len(), 3);
        for i in 0..3 {
            assert_eq!(offered[i].weapon_type, choices.options[i].weapon_type);
            assert_eq!(offered[i].name, choices.options[i].name);
            assert_eq!(offered[i].description, choices.options[i].description);
            assert_eq!(offered[i].icon, None);
            let entry = UpgradeOption::of_kind(offered[i].weapon_type);
            assert_eq!(offered[i].name, entry.name);
            assert_eq!(offered[i].description, entry.description);
        }
        for kind in [WeaponType::Laser, WeaponType::Rocket, WeaponType::Flame] {
            assert_eq!(offered.iter().filter(|o| o.weapon_type == kind).count(), 1);
        }
    }
}

#[test]
fn the_order_of_the_offer_is_drawn_at_random() {
    let mut orders = std::collections::HashSet::new();
    for seed in 0..200u64 {
        let mut rng = StdRng::seed_from_u64(seed);
        let mut choices = UpgradeChoices::new();
        let offered = choices.generate_random_options(&mut rng);
        orders.insert((offered[0].weapon_type, offered[1].weapon_type, offered[2].weapon_type));
    }
    // three kinds can be arranged in six ways; two hundred draws find them all
    assert_eq!(orders.len(), 6);
}

#[test]
fn catalogue_texts() {
    let picks = vec![2usize, 0, 1, 0];
    let options = options_for(&picks);
    assert_eq!(options.len(), 4);
    assert_eq!(options[0].weapon_type, WeaponType::Flame);
    assert_eq!(options[0].name, "Alev Silahı Güçlendir");
    assert_eq!(options[0].description, "Hasar +3, Alan +15%");
    assert_eq!(options[1].weapon_type, WeaponType::Laser);
    assert_eq!(options[1].name, "Laser silahı Güçlendir");
    assert_eq!(options[1].description, "Hasar +10, Hız +%5");
    assert_eq!(options[2].weapon_type, WeaponType::Rocket);
    assert_eq!(options[2].name, "Roket Silahı Güçlendir");
    assert_eq!(options[2].description, "Hasar +15, Patlama +10");
    assert_eq!(options[3].weapon_type, WeaponType::Laser);
    assert!(options_for(&Vec::new()).is_empty());
    assert_eq!(WeaponType::from_index(0), WeaponType::Laser);
    assert_eq!(WeaponType::from_index(1), WeaponType::Rocket);
    assert_eq!(WeaponType::from_index(2), WeaponType::Flame);
}

#[test]
fn pressed_buttons_send_selections_in_order() {
    let interactions = vec![
        (Interaction::Hovered, UpgradeButton(WeaponType::Laser)),
        (Interaction::Pressed, UpgradeButton(WeaponType::Flame)),
        (Interaction::Idle, UpgradeButton(WeaponType::Rocket)),
        (Interaction::Pressed, UpgradeButton(WeaponType::Laser)),
    ];
    assert_eq!(
        handle_upgrade_input(&interactions),
        vec![pick(WeaponType::Flame), pick(WeaponType::Laser)]
    );
    assert!(handle_upgrade_input(&Vec::new()).is_empty());
}
