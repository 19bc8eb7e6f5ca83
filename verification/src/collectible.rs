//! Experience pickups: dropped by enemies, drawn in by the magnet, consumed on contact.

use vstd::prelude::*;
use crate::aabb::{displaced, heading, step_length, Point, AABB};
use crate::game_state::{GameState, NextState};
use crate::player::Player;
use crate::weapon_upgrade::LevelUpEvent;

verus! {

/// Experience in the pickup that an enemy leaves behind, whatever its power level.
pub const XP_PER_ENEMY: u32 = 20;

/// Width and height of a pickup's collision box, in thousandths.
pub const PICKUP_SIZE: u32 = 20_000;

/// Speed at which a magnetized pickup homes in on the player, in world units per second.
pub const MAGNET_SPEED: u32 = 400;

#[derive(Clone, Copy, Debug, PartialEq, Eq, Structural)]
pub struct Collectible {
    pub amount: u32,
}

/// A collectible lying in the world.
#[derive(Clone, Copy, Debug, PartialEq, Eq, Structural)]
pub struct Pickup {
    pub position: Point,
    pub aabb: AABB,
    pub collectible: Collectible,
    /// Set once the magnet has been switched on while the pickup was lying there.
    pub magnetized: bool,
}

impl Pickup {
    /// The pickup that an enemy leaves where it died.
    pub open spec fn dropped_at(position: Point) -> Pickup {
        Pickup {
            position,
            aabb: AABB::around(position, PICKUP_SIZE, PICKUP_SIZE),
            collectible: Collectible { amount: XP_PER_ENEMY },
            magnetized: false,
        }
    }

    /// The pickup after `delta` milliseconds: a magnetized one has moved
    /// straight at the player, any other and one that lies exactly on the
    /// player has stayed.
    pub open spec fn drawn(self, player: Point, delta: u32) -> Pickup {
        if self.magnetized && self.position != player {
            let position = displaced(
                self.position,
                heading(player.x - self.position.x, player.y - self.position.y),
                MAGNET_SPEED * delta,
            );
            Pickup { position, aabb: self.aabb.moved_to(position), ..self }
        } else {
            self
        }
    }

    /// Creates the pickup that an enemy leaves at `position`.
    pub fn drop_at(position: Point) -> (pickup: Pickup)
        ensures
            pickup == Pickup::dropped_at(position),
    {
        Pickup {
            position,
            aabb: AABB::new(position, PICKUP_SIZE, PICKUP_SIZE),
            collectible: Collectible { amount: XP_PER_ENEMY },
            magnetized: false,
        }
    }
}

/// The pickups that the player, whose box is `aabb`, does not touch, in order.
pub open spec fn left_lying(pickups: Seq<Pickup>, aabb: AABB) -> Seq<Pickup>
    decreases pickups.len(),
{
    if pickups.len() == 0 {
        Seq::empty()
    } else {
        let earlier = left_lying(pickups.drop_last(), aabb);
        if pickups.last().aabb.overlaps(aabb) {
            earlier
        } else {
            earlier.push(pickups.last())
        }
    }
}

/// Positions in `pickups` of those that the player touches, in order.
pub open spec fn touched(pickups: Seq<Pickup>, aabb: AABB) -> Seq<usize>
    decreases pickups.len(),
{
    if pickups.len() == 0 {
        Seq::empty()
    } else {
        let earlier = touched(pickups.drop_last(), aabb);
        if pickups.last().aabb.overlaps(aabb) {
            earlier.push((pickups.len() - 1) as usize)
        } else {
            earlier
        }
    }
}

/// The player after consuming, one after the other, every pickup touched.
pub open spec fn after_pickups(player: Player, pickups: Seq<Pickup>, aabb: AABB) -> Player
    decreases pickups.len(),
{
    if pickups.len() == 0 {
        player
    } else {
        let before = after_pickups(player, pickups.drop_last(), aabb);
        if pickups.last().aabb.overlaps(aabb) {
            before.credited(pickups.last().collectible.amount as u64).leveled()
        } else {
            before
        }
    }
}

/// The level-ups announced while consuming every pickup touched, in order.
pub open spec fn pickup_level_ups(player: Player, pickups: Seq<Pickup>, aabb: AABB) -> Seq<
    LevelUpEvent,
>
    decreases pickups.len(),
{
    if pickups.len() == 0 {
        Seq::empty()
    } else {
        let earlier = pickup_level_ups(player, pickups.drop_last(), aabb);
        if pickups.last().aabb.overlaps(aabb) {
            earlier + after_pickups(player, pickups.drop_last(), aabb).credited(
                pickups.last().collectible.amount as u64,
            ).level_ups()
        } else {
            earlier
        }
    }
}

/// Consumes every pickup whose box touches the player's: each grants its
/// experience, which may level the player up, and leaves the world.
/// Returns the positions that the consumed pickups had in the list.
pub fn collect_xp(
    player: &mut Player,
    player_aabb: &AABB,
    pickups: &mut Vec<Pickup>,
    level_up_events: &mut Vec<LevelUpEvent>,
    next_state: &mut NextState,
) -> (collected: Vec<usize>)
    requires
        old(player).xp_to_next_level > 0,
    ensures
        *final(player) == after_pickups(*old(player), old(pickups)@, *player_aabb),
        final(pickups)@ == left_lying(old(pickups)@, *player_aabb),
        collected@ == touched(old(pickups)@, *player_aabb),
        final(level_up_events)@ == old(level_up_events)@ + pickup_level_ups(
            *old(player),
            old(pickups)@,
            *player_aabb,
        ),
        final(next_state).pending == if pickup_level_ups(
            *old(player),
            old(pickups)@,
            *player_aabb,
        ).len() > 0 {
            Some(GameState::UpgradeSelection)
        } else {
            old(next_state).pending
        },
        final(player).xp_to_next_level > 0,
{
    let mut kept: Vec<Pickup> = Vec::new();
    let mut collected: Vec<usize> = Vec::new();
    let ghost all = pickups@;
    let ghost start = *player;
    let ghost written = level_up_events@;
    let mut i: usize = 0;
    while i < pickups.len()
        invariant
            i <= pickups.len(),
            pickups@ == all,
            player.xp_to_next_level > 0,
            *player == after_pickups(start, all.take(i as int), *player_aabb),
            kept@ == left_lying(all.take(i as int), *player_aabb),
            collected@ == touched(all.take(i as int), *player_aabb),
            level_up_events@ == written + pickup_level_ups(start, all.take(i as int), *player_aabb),
            next_state.pending == if pickup_level_ups(
                start,
                all.take(i as int),
                *player_aabb,
            ).len() > 0 {
                Some(GameState::UpgradeSelection)
            } else {
                old(next_state).pending
            },
        decreases pickups.len() - i,
    {
        proof {
            assert(all.take(i as int + 1).drop_last() == all.take(i as int));
            assert(all.take(i as int + 1).last() == all[i as int]);
        }
        let pickup = pickups[i];
        if pickup.aabb.self_aabb_intersects(player_aabb) {
            let ghost before = *player;
            let ghost queue = level_up_events@;
            player.gain_xp(pickup.collectible.amount as u64, level_up_events, next_state);
            collected.push(i);
            proof {
                let gained = before.credited(pickup.collectible.amount as u64);
                crate::player::lemma_xp_is_conserved(gained);
                assert(level_up_events@ =~= written + pickup_level_ups(
                    start,
                    all.take(i as int + 1),
                    *player_aabb,
                ));
            }
        } else {
            kept.push(pickup);
        }
        i += 1;
    }
    proof {
        assert(all.take(i as int) == all);
    }
    *pickups = kept;
    collected
}

/// Switches the magnet on when its key was pressed: every pickup that is
/// lying in the world from then on homes in on the player.
pub fn collect_xp_with_magnet(pressed: bool, pickups: &mut Vec<Pickup>)
    ensures
        final(pickups)@.len() == old(pickups)@.len(),
        forall|i: int|
            0 <= i < old(pickups)@.len() ==> #[trigger] final(pickups)@[i] == (Pickup {
                magnetized: old(pickups)@[i].magnetized || pressed,
                ..old(pickups)@[i]
            }),
{
    if !pressed {
        return ;
    }
    let mut i: usize = 0;
    while i < pickups.len()
        invariant
            i <= pickups.len(),
            pickups@.len() == old(pickups)@.len(),
            forall|j: int|
                0 <= j < i ==> #[trigger] pickups@[j] == (Pickup {
                    magnetized: true,
                    ..old(pickups)@[j]
                }),
            forall|j: int| i <= j < pickups@.len() ==> #[trigger] pickups@[j] == old(pickups)@[j],
        decreases pickups.len() - i,
    {
        let mut pickup = pickups[i];
        pickup.magnetized = true;
        pickups.set(i, pickup);
        i += 1;
    }
}

/// Moves every magnetized pickup toward the player. Without a player nothing moves.
pub fn magnetite_xp_to_player(player: Option<Point>, pickups: &mut Vec<Pickup>, delta: u32)
    ensures
        final(pickups)@.len() == old(pickups)@.len(),
        player is None ==> final(pickups)@ == old(pickups)@,
        player matches Some(p) ==> forall|i: int|
            0 <= i < old(pickups)@.len() ==> #[trigger] final(pickups)@[i] == old(pickups)@[i].drawn(
                p,
                delta,
            ),
{
    let target = match player {
        Some(p) => p,
        None => {
            return ;
        },
    };
    let mut i: usize = 0;
    while i < pickups.len()
        invariant
            i <= pickups.len(),
            pickups@.len() == old(pickups)@.len(),
            forall|j: int| 0 <= j < i ==> #[trigger] pickups@[j] == old(pickups)@[j].drawn(target, delta),
            forall|j: int| i <= j < pickups@.len() ==> #[trigger] pickups@[j] == old(pickups)@[j],
        decreases pickups.len() - i,
    {
        let mut pickup = pickups[i];
        if pickup.magnetized {
            match pickup.position.direction_to(target) {
                Some(dir) => {
                    pickup.position = pickup.position.displace(dir, step_length(MAGNET_SPEED, delta));
                    pickup.aabb.change_point(pickup.position);
                    pickups.set(i, pickup);
                },
                None => {},
            }
        }
        i += 1;
    }
}

/// Every pickup is either consumed or left lying, never both and never lost.
pub proof fn lemma_pickups_are_consumed_or_left(pickups: Seq<Pickup>, aabb: AABB)
    requires
        pickups.len() <= usize::MAX,
    ensures
        left_lying(pickups, aabb).len() + touched(pickups, aabb).len() == pickups.len(),
        forall|k: int|
            0 <= k < touched(pickups, aabb).len() ==> (#[trigger] touched(pickups, aabb)[k])
                < pickups.len() && pickups[touched(pickups, aabb)[k] as int].aabb.overlaps(aabb),
        forall|k: int|
            0 <= k < left_lying(pickups, aabb).len() ==> !(#[trigger] left_lying(
                pickups,
                aabb,
            )[k]).aabb.overlaps(aabb),
    decreases pickups.len(),
{
    if pickups.len() > 0 {
        lemma_pickups_are_consumed_or_left(pickups.drop_last(), aabb);
        let earlier = touched(pickups.drop_last(), aabb);
        assert forall|k: int| 0 <= k < touched(pickups, aabb).len() implies (#[trigger] touched(
            pickups,
            aabb,
        )[k]) < pickups.len() && pickups[touched(pickups, aabb)[k] as int].aabb.overlaps(aabb) by {
            if k < earlier.len() {
                assert(touched(pickups, aabb)[k] == earlier[k]);
                assert(earlier[k] < pickups.drop_last().len());
                assert(pickups.drop_last()[earlier[k] as int] == pickups[earlier[k] as int]);
            } else {
                assert(pickups.last().aabb.overlaps(aabb));
                assert(touched(pickups, aabb)[k] == pickups.len() - 1);
            }
        }
    }
}

} // verus!
