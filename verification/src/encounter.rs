//! The encounter cooldown of the player.
//!
//! The tracker counts the time the player has spent moving. Once that time
//! reaches the cooldown the tracker is armed, and stays armed until the
//! player stands on an encounter tile: then it starts over and asks for
//! combat. Time spent standing still does not count.
//!
//! The counting itself is done by the engine's stopwatch.

use vstd::prelude::*;
use bevy::time::Stopwatch;
use crate::mode::{GameMode, TransitionRequest};
use crate::movement::{touches, touches_kind, Player};
use crate::tilemap::{Tile, TileKind, TileMap};

verus! {

/// The cooldown between encounters, in microseconds of movement.
#[derive(Clone, Copy, Debug, PartialEq, Eq, Structural)]
pub struct EncounterTracker {
    /// The moving time that must pass between two encounters.
    pub cooldown: u64,
    /// The moving time counted since the tracker last started over. It
    /// goes on growing after the cooldown is reached, and stops only at the
    /// largest number that fits.
    pub elapsed: u64,
}

/// What the tracker is told of one tick: whether the player moved, how
/// long the tick took, and whether the player then stood on an encounter
/// tile.
#[derive(Clone, Copy, Debug, PartialEq, Eq, Structural)]
pub struct Tick {
    pub moved: bool,
    pub delta_micros: u32,
    pub on_encounter: bool,
}

/// A `bevy::time::Stopwatch` is set to `elapsed_micros` and ticked by
/// `delta_micros` with `Stopwatch::tick`; the result is the time it then
/// shows, in microseconds.
///
/// Trusted: a stopwatch that is not paused adds the tick to the time it
/// shows.
#[verifier::external_body]
fn stopwatch_tick(elapsed_micros: u64, delta_micros: u32) -> (after: u128)
    ensures
        after == elapsed_micros + delta_micros,
{
    let mut stopwatch = Stopwatch::new();
    stopwatch.set_elapsed(core::time::Duration::from_micros(elapsed_micros));
    stopwatch.tick(core::time::Duration::from_micros(delta_micros as u64));
    stopwatch.elapsed().as_micros()
}

/// The sum of two times, held at the largest number that fits.
pub open spec fn capped_sum(elapsed: u64, delta_micros: u32) -> u64 {
    if elapsed + delta_micros > u64::MAX {
        u64::MAX
    } else {
        (elapsed + delta_micros) as u64
    }
}

impl EncounterTracker {
    /// Whether the cooldown has passed.
    pub open spec fn is_armed(self) -> bool {
        self.elapsed >= self.cooldown
    }

    /// The tracker after a tick's time was counted, which happens only if
    /// the player moved: the time is added to what was counted before.
    pub open spec fn counted(self, moved: bool, delta_micros: u32) -> EncounterTracker {
        if moved {
            EncounterTracker {
                cooldown: self.cooldown,
                elapsed: capped_sum(self.elapsed, delta_micros),
            }
        } else {
            self
        }
    }

    /// Whether the tick sets off an encounter: after its time was counted
    /// the tracker is armed, and the player stands on an encounter tile.
    pub open spec fn fires(self, tick: Tick) -> bool {
        self.counted(tick.moved, tick.delta_micros).is_armed() && tick.on_encounter
    }

    /// The tracker after the tick: started over if the tick set off an
    /// encounter, else with the tick's time counted.
    pub open spec fn checked(self, tick: Tick) -> EncounterTracker {
        if self.fires(tick) {
            EncounterTracker { cooldown: self.cooldown, elapsed: 0 }
        } else {
            self.counted(tick.moved, tick.delta_micros)
        }
    }

    /// A tracker that has counted nothing yet.
    pub fn new(cooldown_micros: u64) -> (tracker: EncounterTracker)
        ensures
            tracker == (EncounterTracker { cooldown: cooldown_micros, elapsed: 0 }),
    {
        EncounterTracker { cooldown: cooldown_micros, elapsed: 0 }
    }

    /// Whether the cooldown has passed.
    pub fn armed(&self) -> (armed: bool)
        ensures
            armed == self.is_armed(),
    {
        self.elapsed >= self.cooldown
    }

    /// Counts `delta_micros` of movement.
    pub fn tick(&mut self, delta_micros: u32)
        ensures
            *final(self) == old(self).counted(true, delta_micros),
    {
        let sum: u128 = stopwatch_tick(self.elapsed, delta_micros);
        if sum > 0xffff_ffff_ffff_ffff {
            self.elapsed = u64::MAX;
        } else {
            self.elapsed = sum as u64;
        }
    }

    /// Starts the cooldown over.
    pub fn reset(&mut self)
        ensures
            *final(self) == (EncounterTracker { cooldown: old(self).cooldown, elapsed: 0 }),
    {
        self.elapsed = 0;
    }

    /// Takes in one tick and tells whether it set off an encounter.
    pub fn check(&mut self, tick: Tick) -> (fired: bool)
        ensures
            fired == old(self).fires(tick),
            *final(self) == old(self).checked(tick),
    {
        if tick.moved {
            self.tick(tick.delta_micros);
        }
        if self.armed() && tick.on_encounter {
            self.reset();
            true
        } else {
            false
        }
    }
}

/// What the tracker is told of a tick in which `player` has just been
/// moved on `tiles`.
pub open spec fn tick_seen(player: Player, tiles: Seq<Tile>, delta_micros: u32) -> Tick {
    Tick {
        moved: player.just_moved,
        delta_micros,
        on_encounter: touches(tiles, TileKind::Encounter, player.position),
    }
}

/// Runs the encounter check of one tick, after the player was moved:
/// counts the tick's time if the player moved, and asks for combat if the
/// tracker is then armed and the player stands on an encounter tile.
pub fn player_encounter_checking(
    player: &Player,
    map: &TileMap,
    tracker: &mut EncounterTracker,
    delta_micros: u32,
) -> (request: Option<TransitionRequest>)
    ensures
        *final(tracker) == old(tracker).checked(tick_seen(*player, map@, delta_micros)),
        old(tracker).fires(tick_seen(*player, map@, delta_micros)) ==> request == Some(
            TransitionRequest { target_mode: GameMode::Combat },
        ),
        !old(tracker).fires(tick_seen(*player, map@, delta_micros)) ==> request.is_none(),
{
    let on_encounter = touches_kind(map, TileKind::Encounter, player.position);
    if tracker.check(Tick { moved: player.just_moved, delta_micros, on_encounter }) {
        Some(TransitionRequest { target_mode: GameMode::Combat })
    } else {
        None
    }
}

/// A cooldown that passes while the player stands on no encounter tile is
/// kept as counted: the tracker is not started over, it stays armed, and
/// the next tick that finds the player on an encounter tile sets off an
/// encounter, whether the player moves in it or not.
pub proof fn lemma_armed_until_encounter(tracker: EncounterTracker, tick: Tick, next: Tick)
    requires
        tracker.counted(tick.moved, tick.delta_micros).is_armed(),
        !tick.on_encounter,
        next.on_encounter,
    ensures
        !tracker.fires(tick),
        tracker.checked(tick) == tracker.counted(tick.moved, tick.delta_micros),
        tick.moved && tracker.elapsed + tick.delta_micros <= u64::MAX ==> tracker.checked(
            tick,
        ).elapsed == tracker.elapsed + tick.delta_micros,
        tracker.checked(tick).is_armed(),
        tracker.checked(tick).fires(next),
        tracker.checked(tick).checked(next).elapsed == 0,
{
}

/// The tracker after the first `n` ticks of `ticks`.
pub open spec fn tracker_after(start: EncounterTracker, ticks: Seq<Tick>, n: int) -> EncounterTracker
    decreases n,
{
    if n <= 0 {
        start
    } else {
        tracker_after(start, ticks, n - 1).checked(ticks[n - 1])
    }
}

/// Whether tick `i` of `ticks` sets off an encounter.
pub open spec fn fires_at(start: EncounterTracker, ticks: Seq<Tick>, i: int) -> bool {
    tracker_after(start, ticks, i).fires(ticks[i])
}

/// The time spent moving in the ticks from `from` up to, not including,
/// `to`.
pub open spec fn moving_time(ticks: Seq<Tick>, from: int, to: int) -> nat
    decreases to - from,
{
    if to <= from {
        0
    } else if ticks[to - 1].moved {
        moving_time(ticks, from, to - 1) + ticks[to - 1].delta_micros as nat
    } else {
        moving_time(ticks, from, to - 1)
    }
}

/// The cooldown is never changed by ticks.
pub proof fn lemma_cooldown_kept(start: EncounterTracker, ticks: Seq<Tick>, n: int)
    ensures
        tracker_after(start, ticks, n).cooldown == start.cooldown,
    decreases n,
{
    if n > 0 {
        lemma_cooldown_kept(start, ticks, n - 1);
    }
}

/// After an encounter at tick `i`, the tracker has counted no more than
/// the time spent moving since.
pub proof fn lemma_elapsed_since_encounter(
    start: EncounterTracker,
    ticks: Seq<Tick>,
    i: int,
    k: int,
)
    requires
        0 <= i < k <= ticks.len(),
        fires_at(start, ticks, i),
    ensures
        tracker_after(start, ticks, k).elapsed <= moving_time(ticks, i + 1, k),
    decreases k - i,
{
    if k == i + 1 {
        assert(tracker_after(start, ticks, k) == tracker_after(start, ticks, i).checked(ticks[i]));
    } else {
        lemma_elapsed_since_encounter(start, ticks, i, k - 1);
    }
}

/// Two encounters are never closer together than the cooldown: if ticks
/// `i` and `j` both set one off, the player spent at least the cooldown
/// moving in the ticks after `i` up to and including `j`.
pub proof fn lemma_encounters_spaced(start: EncounterTracker, ticks: Seq<Tick>, i: int, j: int)
    requires
        0 <= i < j < ticks.len(),
        fires_at(start, ticks, i),
        fires_at(start, ticks, j),
    ensures
        moving_time(ticks, i + 1, j + 1) >= start.cooldown,
{
    lemma_elapsed_since_encounter(start, ticks, i, j);
    lemma_cooldown_kept(start, ticks, j);
}

} // verus!
