//! Levelling: the upgrade catalogue, the choice offered on a level-up and
//! what choosing does to a weapon.

use vstd::prelude::*;
use rand::rngs::StdRng;
use crate::game_state::{GameState, NextState};
use crate::random::sample_indices;
use crate::timers::Timer;
use crate::weapon_stats::{
    at_least_zero, clamp_u32, damage_at, explosion_radius_at, fire_rate_at, range_at, speed_at, WeaponStats,
};
use crate::weapons::{PlayerAddictedWeapon, RocketWeapon, Weapon, WeaponKind, WeaponUnit};

verus! {

/// Number of entries in the upgrade catalogue: one for each weapon kind.
pub const CATALOG_SIZE: usize = 3;

/// Number of upgrades offered on a level-up.
pub const CHOICES_OFFERED: usize = 3;

/// The kinds of weapon that can be upgraded.
#[derive(Clone, Copy, Debug, PartialEq, Eq, Hash, Structural)]
pub enum WeaponType {
    Laser,
    Rocket,
    Flame,
}

/// One upgrade on offer.
#[derive(Clone, Debug)]
pub struct UpgradeOption {
    pub weapon_type: WeaponType,
    pub name: String,
    pub description: String,
    /// Handle of the picture shown with the option, if it has one.
    pub icon: Option<u64>,
}

/// Sent when the player picks an upgrade.
#[derive(Clone, Copy, Debug, PartialEq, Eq, Structural)]
pub struct UpgradeSelectedEvent {
    pub weapon_type: WeaponType,
}

/// Sent each time the player reaches a new level.
#[derive(Clone, Copy, Debug, PartialEq, Eq, Structural)]
pub struct LevelUpEvent {
    pub level: i32,
}

/// The upgrades currently on offer, and whether a choice is still owed.
#[derive(Clone, Debug)]
pub struct UpgradeChoices {
    pub options: Vec<UpgradeOption>,
    pub waiting_for_choice: bool,
}

/// How far a weapon has been upgraded.
#[derive(Clone, Copy, Debug, PartialEq, Eq, Structural)]
pub struct WeaponLevel {
    pub level: i32,
    pub weapon_type: WeaponType,
}

/// A button of the upgrade menu: pressing it picks the upgrade of its kind.
#[derive(Clone, Copy, Debug, PartialEq, Eq, Structural)]
pub struct UpgradeButton(pub WeaponType);

/// What the pointer is doing to a button.
#[derive(Clone, Copy, Debug, PartialEq, Eq, Structural)]
pub enum Interaction {
    Pressed,
    Hovered,
    Idle,
}

/// The kind at position `index` of the catalogue.
pub open spec fn catalog_kind(index: int) -> WeaponType {
    if index == 0 {
        WeaponType::Laser
    } else if index == 1 {
        WeaponType::Rocket
    } else {
        WeaponType::Flame
    }
}

/// The title of the upgrade of `kind`.
pub open spec fn catalog_name(kind: WeaponType) -> Seq<char> {
    match kind {
        WeaponType::Laser => "Laser silahı Güçlendir"@,
        WeaponType::Rocket => "Roket Silahı Güçlendir"@,
        WeaponType::Flame => "Alev Silahı Güçlendir"@,
    }
}

/// The text under the title of the upgrade of `kind`.
pub open spec fn catalog_description(kind: WeaponType) -> Seq<char> {
    match kind {
        WeaponType::Laser => "Hasar +10, Hız +%5"@,
        WeaponType::Rocket => "Hasar +15, Patlama +10"@,
        WeaponType::Flame => "Hasar +3, Alan +15%"@,
    }
}

/// The level after one upgrade; the largest level stays what it is.
pub open spec fn next_level(level: i32) -> i32 {
    if level < i32::MAX {
        (level + 1) as i32
    } else {
        level
    }
}

/// The weapon one level up. Damage, cooldown and what its kind scales are
/// computed from the base values and the new level; what the weapon held
/// before does not enter. The cooldown that is running keeps what it has left.
pub open spec fn upgraded(w: WeaponUnit) -> WeaponUnit {
    let level = next_level(w.level.level);
    WeaponUnit {
        weapon: Weapon {
            owner: w.weapon.owner,
            damage: at_least_zero(damage_at(w.stats.base_damage as int, level as int)) as u64,
            fire_timer: Timer {
                duration: fire_rate_at(w.stats.base_fire_rate as int, level as int) as u64,
                ..w.weapon.fire_timer
            },
            speed: match (w.level.weapon_type, w.kind) {
                (WeaponType::Laser, WeaponKind::Laser(_)) | (
                    WeaponType::Rocket,
                    WeaponKind::Rocket(_),
                ) => clamp_u32(speed_at(w.stats.base_speed as int, level as int)) as u32,
                _ => w.weapon.speed,
            },
        },
        kind: match (w.level.weapon_type, w.kind) {
            (WeaponType::Rocket, WeaponKind::Rocket(_)) => WeaponKind::Rocket(
                RocketWeapon { explosion_radius: clamp_u32(explosion_radius_at(level as int)) as u32 },
            ),
            (WeaponType::Flame, WeaponKind::Aura(_)) => WeaponKind::Aura(
                PlayerAddictedWeapon {
                    radius: clamp_u32(range_at(w.stats.base_range as int, level as int)) as u32,
                },
            ),
            _ => w.kind,
        },
        level: WeaponLevel { level, weapon_type: w.level.weapon_type },
        stats: w.stats,
        position: w.position,
    }
}

/// Position of the first weapon of type `t` at or after `from`, or the
/// length of the list where there is none.
pub open spec fn first_of_type(weapons: Seq<WeaponUnit>, t: WeaponType, from: int) -> int
    decreases weapons.len() - from,
{
    if from < 0 || from >= weapons.len() {
        weapons.len() as int
    } else if weapons[from].level.weapon_type == t {
        from
    } else {
        first_of_type(weapons, t, from + 1)
    }
}

/// The weapons after the upgrade of type `t` was chosen: the first weapon of
/// that type is one level up, and nothing else has changed.
pub open spec fn with_upgrade(weapons: Seq<WeaponUnit>, t: WeaponType) -> Seq<WeaponUnit> {
    let at = first_of_type(weapons, t, 0);
    if at < weapons.len() {
        weapons.update(at, upgraded(weapons[at]))
    } else {
        weapons
    }
}

/// The weapons after the choices `events` were applied in order.
pub open spec fn with_upgrades(
    weapons: Seq<WeaponUnit>,
    events: Seq<UpgradeSelectedEvent>,
) -> Seq<WeaponUnit>
    decreases events.len(),
{
    if events.len() == 0 {
        weapons
    } else {
        with_upgrade(with_upgrades(weapons, events.drop_last()), events.last().weapon_type)
    }
}

/// How many of `weapons` are of type `t`.
pub open spec fn count_of_type(weapons: Seq<WeaponUnit>, t: WeaponType) -> nat
    decreases weapons.len(),
{
    if weapons.len() == 0 {
        0
    } else {
        count_of_type(weapons.drop_last(), t) + if weapons.last().level.weapon_type == t {
            1nat
        } else {
            0nat
        }
    }
}

/// There is exactly one weapon of each kind.
pub open spec fn one_per_kind(weapons: Seq<WeaponUnit>) -> bool {
    &&& count_of_type(weapons, WeaponType::Laser) == 1
    &&& count_of_type(weapons, WeaponType::Rocket) == 1
    &&& count_of_type(weapons, WeaponType::Flame) == 1
}

/// The events that the pressed buttons among `interactions` send, in order.
pub open spec fn presses(interactions: Seq<(Interaction, UpgradeButton)>) -> Seq<
    UpgradeSelectedEvent,
>
    decreases interactions.len(),
{
    if interactions.len() == 0 {
        Seq::empty()
    } else {
        let earlier = presses(interactions.drop_last());
        if interactions.last().0 == Interaction::Pressed {
            earlier.push(UpgradeSelectedEvent { weapon_type: interactions.last().1.0 })
        } else {
            earlier
        }
    }
}

impl UpgradeOption {
    /// This is the catalogue's upgrade of `kind`.
    pub open spec fn is_entry_for(self, kind: WeaponType) -> bool {
        &&& self.weapon_type == kind
        &&& self.name@ == catalog_name(kind)
        &&& self.description@ == catalog_description(kind)
        &&& self.icon is None
    }
}

/// `options` is a full offer: `CHOICES_OFFERED` catalogue entries, no kind twice.
pub open spec fn is_offer(options: Seq<UpgradeOption>) -> bool {
    &&& options.len() == CHOICES_OFFERED
    &&& forall|i: int|
        0 <= i < options.len() ==> (#[trigger] options[i]).is_entry_for(options[i].weapon_type)
    &&& forall|i: int, j: int|
        0 <= i < j < options.len() ==> (#[trigger] options[i]).weapon_type != (
        #[trigger] options[j]).weapon_type
}

/// An upgrade of `kind` is among `options`.
pub open spec fn offers_kind(options: Seq<UpgradeOption>, kind: WeaponType) -> bool {
    exists|i: int| 0 <= i < options.len() && (#[trigger] options[i]).weapon_type == kind
}

/// `options` holds the catalogue entries at the positions `picks`, in that order.
pub open spec fn offers_picks(options: Seq<UpgradeOption>, picks: Seq<usize>) -> bool {
    &&& options.len() == picks.len()
    &&& forall|i: int|
        0 <= i < options.len() ==> (#[trigger] options[i]).is_entry_for(
            catalog_kind(picks[i] as int),
        )
}

impl WeaponType {
    /// The kind at position `index` of the catalogue.
    pub fn from_index(index: usize) -> (kind: WeaponType)
        requires
            index < CATALOG_SIZE,
        ensures
            kind == catalog_kind(index as int),
    {
        if index == 0 {
            WeaponType::Laser
        } else if index == 1 {
            WeaponType::Rocket
        } else {
            WeaponType::Flame
        }
    }
}

impl UpgradeOption {
    /// The catalogue's upgrade of `kind`.
    pub fn of_kind(kind: WeaponType) -> (option: UpgradeOption)
        ensures
            option.is_entry_for(kind),
    {
        match kind {
            WeaponType::Laser => UpgradeOption {
                weapon_type: WeaponType::Laser,
                name: "Laser silahı Güçlendir".to_string(),
                description: "Hasar +10, Hız +%5".to_string(),
                icon: None,
            },
            WeaponType::Rocket => UpgradeOption {
                weapon_type: WeaponType::Rocket,
                name: "Roket Silahı Güçlendir".to_string(),
                description: "Hasar +15, Patlama +10".to_string(),
                icon: None,
            },
            WeaponType::Flame => UpgradeOption {
                weapon_type: WeaponType::Flame,
                name: "Alev Silahı Güçlendir".to_string(),
                description: "Hasar +3, Alan +15%".to_string(),
                icon: None,
            },
        }
    }
}

/// The catalogue entries at the positions `picks`, in that order.
pub fn options_for(picks: &Vec<usize>) -> (options: Vec<UpgradeOption>)
    requires
        forall|i: int| 0 <= i < picks@.len() ==> picks@[i] < CATALOG_SIZE,
    ensures
        offers_picks(options@, picks@),
{
    let mut options: Vec<UpgradeOption> = Vec::new();
    let mut i: usize = 0;
    while i < picks.len()
        invariant
            i <= picks.len(),
            options@.len() == i,
            forall|k: int| 0 <= k < picks@.len() ==> picks@[k] < CATALOG_SIZE,
            forall|k: int|
                0 <= k < i ==> (#[trigger] options@[k]).is_entry_for(catalog_kind(picks@[k] as int)),
        decreases picks.len() - i,
    {
        options.push(UpgradeOption::of_kind(WeaponType::from_index(picks[i])));
        i += 1;
    }
    options
}

/// Distinct positions of the catalogue hold distinct kinds, so three
/// distinct picks make a full offer.
pub proof fn lemma_distinct_picks_make_an_offer(options: Seq<UpgradeOption>, picks: Seq<usize>)
    requires
        offers_picks(options, picks),
        picks.len() == CHOICES_OFFERED,
        forall|i: int| 0 <= i < picks.len() ==> picks[i] < CATALOG_SIZE,
        forall|i: int, j: int| 0 <= i < j < picks.len() ==> picks[i] != picks[j],
    ensures
        is_offer(options),
        forall|kind: WeaponType| #[trigger] offers_kind(options, kind),
{
    assert forall|i: int, j: int| 0 <= i < j < options.len() implies (
    #[trigger] options[i]).weapon_type != (#[trigger] options[j]).weapon_type by {
        assert(options[i].is_entry_for(catalog_kind(picks[i] as int)));
        assert(options[j].is_entry_for(catalog_kind(picks[j] as int)));
    }
    assert forall|i: int| 0 <= i < options.len() implies (#[trigger] options[i]).is_entry_for(
        options[i].weapon_type,
    ) by {
        assert(options[i].is_entry_for(catalog_kind(picks[i] as int)));
    }
    assert(options[0].is_entry_for(catalog_kind(picks[0] as int)));
    assert(options[1].is_entry_for(catalog_kind(picks[1] as int)));
    assert(options[2].is_entry_for(catalog_kind(picks[2] as int)));
    assert forall|kind: WeaponType| #[trigger] offers_kind(options, kind) by {
        let want: int = match kind {
            WeaponType::Laser => 0,
            WeaponType::Rocket => 1,
            WeaponType::Flame => 2,
        };
        let at: int = if picks[0] == want {
            0
        } else if picks[1] == want {
            1
        } else {
            2
        };
        assert(picks[at] == want);
        assert(options[at].weapon_type == kind);
    }
}

impl UpgradeChoices {
    /// Nothing on offer.
    pub fn new() -> (c: UpgradeChoices)
        ensures
            c.options@.len() == 0,
            !c.waiting_for_choice,
    {
        UpgradeChoices { options: Vec::new(), waiting_for_choice: false }
    }

    /// Draws the upgrades to offer: three catalogue entries of three
    /// different kinds in random order. They are kept as the current offer,
    /// a choice is owed from now on, and they are handed back as well.
    pub fn generate_random_options(&mut self, rng: &mut StdRng) -> (selected: Vec<UpgradeOption>)
        ensures
            is_offer(selected@),
            is_offer(final(self).options@),
            forall|i: int|
                0 <= i < selected@.len() ==> (#[trigger] final(self).options@[i]).weapon_type
                    == selected@[i].weapon_type,
            forall|kind: WeaponType| #[trigger] offers_kind(selected@, kind),
            final(self).waiting_for_choice,
    {
        let picks = sample_indices(rng, CATALOG_SIZE, CHOICES_OFFERED);
        let selected = options_for(&picks);
        self.options = options_for(&picks);
        self.waiting_for_choice = true;
        proof {
            lemma_distinct_picks_make_an_offer(selected@, picks@);
            lemma_distinct_picks_make_an_offer(self.options@, picks@);
        }
        selected
    }

    /// Withdraws the offer.
    pub fn clear(&mut self)
        ensures
            final(self).options@.len() == 0,
            !final(self).waiting_for_choice,
    {
        self.options = Vec::new();
        self.waiting_for_choice = false;
    }
}

impl WeaponUnit {
    /// Raises the weapon by one level and recomputes what the level scales.
    pub fn upgrade(&mut self)
        ensures
            *final(self) == upgraded(*old(self)),
    {
        let new_level: i32 = if self.level.level < i32::MAX {
            self.level.level + 1
        } else {
            self.level.level
        };
        self.level.level = new_level;
        self.weapon.damage = self.stats.calculate_damage(new_level);
        let new_fire_rate = self.stats.calculate_fire_rate(new_level);
        self.weapon.fire_timer.set_duration(new_fire_rate);
        match (self.level.weapon_type, self.kind) {
            (WeaponType::Laser, WeaponKind::Laser(_)) => {
                self.weapon.speed = self.stats.calculate_speed(new_level);
            },
            (WeaponType::Rocket, WeaponKind::Rocket(_)) => {
                self.weapon.speed = self.stats.calculate_speed(new_level);
                self.kind = WeaponKind::Rocket(
                    RocketWeapon {
                        explosion_radius: WeaponStats::calculate_explosion_radius(new_level),
                    },
                );
            },
            (WeaponType::Flame, WeaponKind::Aura(_)) => {
                self.kind = WeaponKind::Aura(
                    PlayerAddictedWeapon { radius: self.stats.calculate_range(new_level) },
                );
            },
            _ => {},
        }
    }
}

/// Upgrades the first weapon of type `weapon_type`; says whether there was one.
pub fn upgrade_first(weapons: &mut Vec<WeaponUnit>, weapon_type: WeaponType) -> (found: bool)
    ensures
        final(weapons)@ == with_upgrade(old(weapons)@, weapon_type),
        found == (first_of_type(old(weapons)@, weapon_type, 0) < old(weapons)@.len()),
{
    let mut i: usize = 0;
    while i < weapons.len()
        invariant
            i <= weapons.len(),
            weapons@ == old(weapons)@,
            first_of_type(weapons@, weapon_type, 0) == first_of_type(weapons@, weapon_type, i as int),
        decreases weapons.len() - i,
    {
        let mut unit = weapons[i];
        if unit.level.weapon_type == weapon_type {
            unit.upgrade();
            weapons.set(i, unit);
            return true;
        }
        i += 1;
    }
    false
}

/// Applies the upgrades that were chosen, in the order they were chosen, and
/// empties the queue.
///
/// Each choice withdraws the offer. The first weapon of the chosen kind goes
/// up one level and play resumes; where no weapon is of that kind, nothing is
/// upgraded and no resumption is requested for that choice.
pub fn apply_weapon_upgrade(
    upgrade_events: &mut Vec<UpgradeSelectedEvent>,
    weapons: &mut Vec<WeaponUnit>,
    next_state: &mut NextState,
    upgrade_choices: &mut UpgradeChoices,
)
    ensures
        final(upgrade_events)@.len() == 0,
        final(weapons)@ == with_upgrades(old(weapons)@, old(upgrade_events)@),
        final(weapons)@.len() == old(weapons)@.len(),
        forall|i: int|
            0 <= i < old(weapons)@.len() ==> (#[trigger] final(weapons)@[i]).level.weapon_type
                == old(weapons)@[i].level.weapon_type,
        one_per_kind(old(weapons)@) ==> one_per_kind(final(weapons)@),
        forall|i: int|
            0 <= i < old(weapons)@.len() && (#[trigger] old(weapons)@[i]).wf() && old(
                weapons,
            )@[i].derived() ==> final(weapons)@[i].wf() && final(weapons)@[i].derived(),
        old(upgrade_events)@.len() == 0 ==> *final(upgrade_choices) == *old(upgrade_choices),
        old(upgrade_events)@.len() > 0 ==> final(upgrade_choices).options@.len() == 0
            && !final(upgrade_choices).waiting_for_choice,
        final(next_state).pending == if exists|k: int|
            0 <= k < old(upgrade_events)@.len() && first_of_type(
                old(weapons)@,
                (#[trigger] old(upgrade_events)@[k]).weapon_type,
                0,
            ) < old(weapons)@.len() {
            Some(GameState::Playing)
        } else {
            old(next_state).pending
        },
{
    let ghost events = upgrade_events@;
    let ghost before = weapons@;
    let mut k: usize = 0;
    while k < upgrade_events.len()
        invariant
            k <= upgrade_events.len(),
            upgrade_events@ == events,
            weapons@ == with_upgrades(before, events.take(k as int)),
            weapons@.len() == before.len(),
            forall|i: int|
                0 <= i < before.len() ==> (#[trigger] weapons@[i]).level.weapon_type
                    == before[i].level.weapon_type,
            forall|i: int|
                0 <= i < before.len() && (#[trigger] before[i]).wf() && before[i].derived()
                    ==> weapons@[i].wf() && weapons@[i].derived(),
            k == 0 ==> *upgrade_choices == *old(upgrade_choices),
            k > 0 ==> upgrade_choices.options@.len() == 0 && !upgrade_choices.waiting_for_choice,
            next_state.pending == if exists|j: int|
                0 <= j < k && first_of_type(before, (#[trigger] events[j]).weapon_type, 0)
                    < before.len() {
                Some(GameState::Playing)
            } else {
                old(next_state).pending
            },
        decreases upgrade_events.len() - k,
    {
        let event = upgrade_events[k];
        upgrade_choices.clear();
        let ghost current = weapons@;
        let found = upgrade_first(weapons, event.weapon_type);
        proof {
            lemma_same_types_same_first(current, before, event.weapon_type, 0);
            lemma_upgrade_keeps_types(current, event.weapon_type);
            lemma_first_of_type(current, event.weapon_type, 0);
            let at = first_of_type(current, event.weapon_type, 0);
            if at < current.len() && current[at].wf() {
                lemma_upgrade_derives(current[at]);
            }
            assert(events.take(k as int + 1).drop_last() == events.take(k as int));
            assert(events.take(k as int + 1).last() == events[k as int]);
        }
        if found {
            next_state.set(GameState::Playing);
        }
        k += 1;
    }
    proof {
        assert(events.take(k as int) == events);
        lemma_same_types_same_count(weapons@, before, WeaponType::Laser);
        lemma_same_types_same_count(weapons@, before, WeaponType::Rocket);
        lemma_same_types_same_count(weapons@, before, WeaponType::Flame);
    }
    upgrade_events.clear();
}

/// Turns the level-ups of this tick into offers and empties the queue.
///
/// Every level-up draws a fresh offer, requests the upgrade-selection phase
/// and asks for one button per option; the buttons of the last level-up
/// belong to the offer that is kept.
pub fn show_upgrade_choices_on_level_up(
    level_up_events: &mut Vec<LevelUpEvent>,
    upgrade_choices: &mut UpgradeChoices,
    next_state: &mut NextState,
    rng: &mut StdRng,
) -> (buttons: Vec<UpgradeButton>)
    ensures
        final(level_up_events)@.len() == 0,
        buttons@.len() == CHOICES_OFFERED * old(level_up_events)@.len(),
        old(level_up_events)@.len() == 0 ==> {
            &&& *final(upgrade_choices) == *old(upgrade_choices)
            &&& *final(next_state) == *old(next_state)
        },
        old(level_up_events)@.len() > 0 ==> {
            &&& final(next_state).pending == Some(GameState::UpgradeSelection)
            &&& final(upgrade_choices).waiting_for_choice
            &&& is_offer(final(upgrade_choices).options@)
            &&& forall|i: int|
                0 <= i < CHOICES_OFFERED ==> (#[trigger] final(upgrade_choices).options@[i]).weapon_type
                    == buttons@[buttons@.len() - CHOICES_OFFERED + i].0
        },
        forall|e: int, i: int, j: int|
            0 <= e < old(level_up_events)@.len() && 0 <= i < j < CHOICES_OFFERED ==> (
            #[trigger] buttons@[CHOICES_OFFERED * e + i]).0 != (
            #[trigger] buttons@[CHOICES_OFFERED * e + j]).0,
{
    let mut buttons: Vec<UpgradeButton> = Vec::new();
    let mut e: usize = 0;
    let count = level_up_events.len();
    while e < count
        invariant
            e <= count,
            count == level_up_events@.len(),
            level_up_events@ == old(level_up_events)@,
            buttons@.len() == 3 * e,
            e == 0 ==> *upgrade_choices == *old(upgrade_choices) && *next_state == *old(next_state),
            e > 0 ==> {
                &&& next_state.pending == Some(GameState::UpgradeSelection)
                &&& upgrade_choices.waiting_for_choice
                &&& is_offer(upgrade_choices.options@)
                &&& forall|i: int|
                    0 <= i < 3 ==> (#[trigger] upgrade_choices.options@[i]).weapon_type
                        == buttons@[buttons@.len() - 3 + i].0
            },
            forall|d: int, i: int, j: int|
                0 <= d < e && 0 <= i < j < 3 ==> (#[trigger] buttons@[3 * d + i]).0 != (
                #[trigger] buttons@[3 * d + j]).0,
        decreases count - e,
    {
        let options = upgrade_choices.generate_random_options(rng);
        next_state.set(GameState::UpgradeSelection);
        let ghost earlier = buttons@;
        assert(options@[0].weapon_type != options@[1].weapon_type);
        assert(options@[0].weapon_type != options@[2].weapon_type);
        assert(options@[1].weapon_type != options@[2].weapon_type);
        buttons.push(UpgradeButton(options[0].weapon_type));
        buttons.push(UpgradeButton(options[1].weapon_type));
        buttons.push(UpgradeButton(options[2].weapon_type));
        proof {
            assert forall|d: int, i: int, j: int| 0 <= d < e + 1 && 0 <= i < j < 3 implies (
            #[trigger] buttons@[3 * d + i]).0 != (#[trigger] buttons@[3 * d + j]).0 by {
                if d < e {
                    assert(buttons@[3 * d + i] == earlier[3 * d + i]);
                    assert(buttons@[3 * d + j] == earlier[3 * d + j]);
                }
            }
        }
        e += 1;
    }
    level_up_events.clear();
    buttons
}

/// Sends one selection for every button that is being pressed.
pub fn handle_upgrade_input(interactions: &Vec<(Interaction, UpgradeButton)>) -> (events: Vec<
    UpgradeSelectedEvent,
>)
    ensures
        events@ == presses(interactions@),
{
    let mut events: Vec<UpgradeSelectedEvent> = Vec::new();
    let mut i: usize = 0;
    while i < interactions.len()
        invariant
            i <= interactions.len(),
            events@ == presses(interactions@.take(i as int)),
        decreases interactions.len() - i,
    {
        proof {
            assert(interactions@.take(i as int + 1).drop_last() == interactions@.take(i as int));
            assert(interactions@.take(i as int + 1).last() == interactions@[i as int]);
        }
        let (interaction, button) = interactions[i];
        match interaction {
            Interaction::Pressed => {
                events.push(UpgradeSelectedEvent { weapon_type: button.0 });
            },
            _ => {},
        }
        i += 1;
    }
    proof {
        assert(interactions@.take(i as int) == interactions@);
    }
    events
}

/// `first_of_type` finds a weapon of the type, the first at or after `from`,
/// or reports the length of the list.
pub proof fn lemma_first_of_type(weapons: Seq<WeaponUnit>, t: WeaponType, from: int)
    requires
        0 <= from <= weapons.len(),
    ensures
        from <= first_of_type(weapons, t, from) <= weapons.len(),
        first_of_type(weapons, t, from) < weapons.len() ==> weapons[first_of_type(
            weapons,
            t,
            from,
        )].level.weapon_type == t,
        forall|j: int|
            from <= j < first_of_type(weapons, t, from) ==> (#[trigger] weapons[j]).level.weapon_type
                != t,
    decreases weapons.len() - from,
{
    if from < weapons.len() && weapons[from].level.weapon_type != t {
        lemma_first_of_type(weapons, t, from + 1);
    }
}

/// One upgrade changes neither the number of weapons nor the type of any.
pub proof fn lemma_upgrade_keeps_types(weapons: Seq<WeaponUnit>, t: WeaponType)
    ensures
        with_upgrade(weapons, t).len() == weapons.len(),
        forall|i: int|
            0 <= i < weapons.len() ==> (#[trigger] with_upgrade(weapons, t)[i]).level.weapon_type
                == weapons[i].level.weapon_type,
{
    lemma_first_of_type(weapons, t, 0);
}

/// Lists of weapons that agree on the type at every position agree on where
/// the first weapon of a type is.
pub proof fn lemma_same_types_same_first(
    a: Seq<WeaponUnit>,
    b: Seq<WeaponUnit>,
    t: WeaponType,
    from: int,
)
    requires
        a.len() == b.len(),
        forall|i: int| 0 <= i < a.len() ==> (#[trigger] a[i]).level.weapon_type == b[i].level.weapon_type,
    ensures
        first_of_type(a, t, from) == first_of_type(b, t, from),
    decreases a.len() - from,
{
    if 0 <= from < a.len() {
        assert(a[from].level.weapon_type == b[from].level.weapon_type);
        if a[from].level.weapon_type != t {
            lemma_same_types_same_first(a, b, t, from + 1);
        }
    }
}

/// Lists of weapons that agree on the type at every position hold the same
/// number of weapons of each type.
pub proof fn lemma_same_types_same_count(a: Seq<WeaponUnit>, b: Seq<WeaponUnit>, t: WeaponType)
    requires
        a.len() == b.len(),
        forall|i: int| 0 <= i < a.len() ==> (#[trigger] a[i]).level.weapon_type == b[i].level.weapon_type,
    ensures
        count_of_type(a, t) == count_of_type(b, t),
    decreases a.len(),
{
    if a.len() > 0 {
        assert(a.last().level.weapon_type == b.last().level.weapon_type);
        assert forall|i: int| 0 <= i < a.drop_last().len() implies (
        #[trigger] a.drop_last()[i]).level.weapon_type == b.drop_last()[i].level.weapon_type by {
            assert(a[i].level.weapon_type == b[i].level.weapon_type);
        }
        lemma_same_types_same_count(a.drop_last(), b.drop_last(), t);
    }
}

/// However many upgrades are chosen, and of whatever kinds, no weapon is
/// added, removed or turned into another kind: a player who has one weapon
/// of each kind keeps exactly one of each.
pub proof fn lemma_upgrades_keep_one_per_kind(
    weapons: Seq<WeaponUnit>,
    events: Seq<UpgradeSelectedEvent>,
)
    ensures
        with_upgrades(weapons, events).len() == weapons.len(),
        forall|i: int|
            0 <= i < weapons.len() ==> (#[trigger] with_upgrades(
                weapons,
                events,
            )[i]).level.weapon_type == weapons[i].level.weapon_type,
        forall|t: WeaponType|
            count_of_type(with_upgrades(weapons, events), t) == #[trigger] count_of_type(weapons, t),
        one_per_kind(weapons) ==> one_per_kind(with_upgrades(weapons, events)),
    decreases events.len(),
{
    if events.len() > 0 {
        lemma_upgrades_keep_one_per_kind(weapons, events.drop_last());
        lemma_upgrade_keeps_types(
            with_upgrades(weapons, events.drop_last()),
            events.last().weapon_type,
        );
    }
    let after = with_upgrades(weapons, events);
    assert forall|t: WeaponType| count_of_type(after, t) == #[trigger] count_of_type(
        weapons,
        t,
    ) by {
        lemma_same_types_same_count(after, weapons, t);
    }
}

/// An upgrade leaves a weapon holding what its new level gives, whatever it
/// held before, as long as its level record names the kind it is.
pub proof fn lemma_upgrade_derives(w: WeaponUnit)
    requires
        w.wf(),
    ensures
        upgraded(w).wf(),
        upgraded(w).derived(),
{
    lemma_upgrade_recomputes(w);
}

/// The starting weapons are one of each kind.
pub proof fn lemma_starting_weapons_one_per_kind(owner: u64, position: crate::aabb::Point)
    ensures
        one_per_kind(crate::weapon_stats::starting_weapons(owner, position)),
        forall|i: int|
            0 <= i < 3 ==> (#[trigger] crate::weapon_stats::starting_weapons(
                owner,
                position,
            )[i]).wf() && crate::weapon_stats::starting_weapons(owner, position)[i].derived(),
{
    let w = crate::weapon_stats::starting_weapons(owner, position);
    reveal_with_fuel(count_of_type, 4);
    assert(w.drop_last().drop_last().drop_last().len() == 0);
}

/// Upgrading twice from level one gives level three and the damage of level
/// three, the base plus two steps, whatever damage the weapon held before:
/// the value is recomputed from base and level, not built up from the last one.
pub proof fn lemma_two_upgrades_from_level_one(w: WeaponUnit, held: u64)
    requires
        w.level.level == 1,
    ensures
        upgraded(upgraded(w)).level.level == 3,
        upgraded(upgraded(w)).weapon.damage == w.stats.base_damage + 2 * 10,
        upgraded(upgraded(w)).weapon.damage == damage_at(w.stats.base_damage as int, 3),
        upgraded(upgraded(WeaponUnit { weapon: Weapon { damage: held, ..w.weapon }, ..w }))
            == upgraded(upgraded(w)),
{
}

/// The same of the choices themselves: when a weapon of the chosen kind is
/// at level one and its kind is chosen twice, in one batch or in two, the
/// first weapon of that kind ends at level three with the base damage plus
/// two steps, whatever damage it held before and whatever the other weapons are.
pub proof fn lemma_two_choices_reach_level_three(weapons: Seq<WeaponUnit>, kind: WeaponType)
    requires
        first_of_type(weapons, kind, 0) < weapons.len(),
        weapons[first_of_type(weapons, kind, 0)].level.level == 1,
    ensures
        ({
            let at = first_of_type(weapons, kind, 0);
            let choice = UpgradeSelectedEvent { weapon_type: kind };
            let twice = with_upgrades(weapons, seq![choice, choice]);
            &&& twice == with_upgrades(with_upgrades(weapons, seq![choice]), seq![choice])
            &&& twice.len() == weapons.len()
            &&& twice[at].level.level == 3
            &&& twice[at].weapon.damage == weapons[at].stats.base_damage + 2 * 10
            &&& twice[at].stats == weapons[at].stats
            &&& forall|i: int| 0 <= i < weapons.len() && i != at ==> #[trigger] twice[i] == weapons[i]
        }),
{
    let at = first_of_type(weapons, kind, 0);
    let choice = UpgradeSelectedEvent { weapon_type: kind };
    lemma_first_of_type(weapons, kind, 0);
    let one = seq![choice];
    let two = seq![choice, choice];
    assert(one.drop_last() == Seq::<UpgradeSelectedEvent>::empty());
    assert(two.drop_last() == one);
    assert(with_upgrades(weapons, Seq::<UpgradeSelectedEvent>::empty()) == weapons);
    let once = with_upgrade(weapons, kind);
    assert(with_upgrades(weapons, one) == once);
    lemma_upgrade_keeps_types(weapons, kind);
    lemma_same_types_same_first(once, weapons, kind, 0);
    assert(with_upgrades(weapons, two) == with_upgrade(once, kind));
    assert(with_upgrades(once, one) == with_upgrade(
        with_upgrades(once, Seq::<UpgradeSelectedEvent>::empty()),
        kind,
    ));
    assert(once[at] == upgraded(weapons[at]));
    lemma_two_upgrades_from_level_one(weapons[at], weapons[at].weapon.damage);
}

/// After any upgrade the derived values are those of the new level, and two
/// weapons that agree on base values, level, kind and running cooldown come
/// out of it equal, whatever damage, speed, radius or duration they held.
pub proof fn lemma_upgrade_recomputes(w: WeaponUnit)
    ensures
        upgraded(w).weapon.damage == at_least_zero(
            damage_at(w.stats.base_damage as int, upgraded(w).level.level as int),
        ),
        w.level.level >= 0 ==> upgraded(w).weapon.damage == damage_at(
            w.stats.base_damage as int,
            upgraded(w).level.level as int,
        ),
        upgraded(w).weapon.fire_timer.duration == fire_rate_at(
            w.stats.base_fire_rate as int,
            upgraded(w).level.level as int,
        ),
        upgraded(w).weapon.fire_timer.remaining == w.weapon.fire_timer.remaining,
        upgraded(w).stats == w.stats,
        upgraded(w).level.weapon_type == w.level.weapon_type,
        w.wf() ==> upgraded(w).wf(),
{
    let level = next_level(w.level.level) as int;
    let base = w.stats.base_fire_rate as int;
    assert(base * (10 - (level - 1)) <= 0xFFFF_FFFF * 0x1_0000_0000) by (nonlinear_arith)
        requires
            0 <= base <= 0xFFFF_FFFF,
            -0x8000_0000 <= level <= 0x7FFF_FFFF,
    ;
}

} // verus!
