//! The whole game, stepped one tick at a time.
//!
//! A tick runs, in this order: the movement of the player and the camera
//! that follows it, the encounter check, the request for a transition that
//! either of them or the player's wish to flee gave rise to, the passing of
//! time for a transition that was under way before the tick, and the
//! rearranging of the stage if the mode changed. A transition that begins
//! in a tick has its whole time before it: its time starts to pass with
//! the next tick. In combat the player stands still.

use vstd::prelude::*;
use crate::encounter::{player_encounter_checking, tick_seen, EncounterTracker};
use crate::geometry::Vec2;
use crate::mode::{
    accepts, advanced, change_within, requested, GameMode, ModeChange, StateMachine,
    TransitionRequest,
};
use crate::movement::{
    can_step, moved, player_movement, step_fits, step_length, step_for, DirectionInput, Player,
};
use crate::scene::{
    apply_mode_change, camera_follow, entered_combat, left_combat, Enemy, Part, Scene,
};
use crate::tilemap::TileMap;
use crate::TILE_SIZE;

verus! {

/// The speed a player starts with: three tiles per second.
pub const PLAYER_SPEED: u32 = 3000;

/// The cooldown between encounters that a player starts with.
pub const ENCOUNTER_COOLDOWN_MICROS: u64 = 1_000_000;

/// The character the avatar's backdrop is drawn with.
pub const BACKDROP_GLYPH: char = '\0';

/// Why no game could be assembled: it takes exactly one player and
/// exactly one camera.
#[derive(Clone, Copy, Debug, PartialEq, Eq, Structural)]
pub enum SingletonCardinalityError {
    NoPlayer,
    SeveralPlayers,
    NoCamera,
    SeveralCameras,
}

/// What the outside world contributes to a tick.
#[derive(Clone, Copy, Debug, PartialEq, Eq, Structural)]
pub struct TickInput {
    /// The direction keys held during the tick.
    pub directions: DirectionInput,
    /// Whether the key that ends combat was pressed in the tick.
    pub confirm: bool,
    /// The time the tick took, in microseconds.
    pub delta_micros: u32,
}

/// What a tick did besides changing the game.
#[derive(Clone, Debug)]
pub struct TickReport {
    /// The transition asked for in the tick, if any.
    pub requested: Option<TransitionRequest>,
    /// Whether that request started a transition.
    pub accepted: bool,
    /// The change of mode that took place in the tick, if any.
    pub change: Option<ModeChange>,
    /// The adversaries taken off stage in the tick.
    pub removed: Vec<Enemy>,
}

/// The game: one player with its tracker, one camera on the stage, the map
/// and the mode machine.
#[derive(Clone, Debug)]
pub struct Game {
    pub machine: StateMachine,
    pub map: TileMap,
    pub player: Player,
    pub tracker: EncounterTracker,
    pub scene: Scene,
}

/// The request that the key that ends combat gives rise to.
pub open spec fn exit_request(confirm: bool) -> Option<TransitionRequest> {
    if confirm {
        Some(TransitionRequest { target_mode: GameMode::Overworld })
    } else {
        None
    }
}

/// Asks for the overworld if the key that ends combat was pressed.
pub fn test_exit_combat(confirm: bool) -> (request: Option<TransitionRequest>)
    ensures
        request == exit_request(confirm),
{
    if confirm {
        Some(TransitionRequest { target_mode: GameMode::Overworld })
    } else {
        None
    }
}

/// The player as a game begins: two tiles right of and two tiles below
/// the map's first cell, with the backdrop attached, and a tracker that
/// has counted nothing.
pub fn spawn_player() -> (spawned: (Player, EncounterTracker, Vec<Part>))
    ensures
        spawned.0.position.x == 2 * TILE_SIZE,
        spawned.0.position.y == -2 * TILE_SIZE,
        spawned.0.speed == PLAYER_SPEED,
        !spawned.0.just_moved,
        spawned.1 == (EncounterTracker { cooldown: ENCOUNTER_COOLDOWN_MICROS, elapsed: 0 }),
        spawned.2@ == seq![Part { glyph: BACKDROP_GLYPH, visible: true }],
{
    let player = Player {
        position: Vec2 { x: 2 * TILE_SIZE, y: -2 * TILE_SIZE },
        speed: PLAYER_SPEED,
        just_moved: false,
    };
    let mut parts: Vec<Part> = Vec::new();
    parts.push(Part { glyph: BACKDROP_GLYPH, visible: true });
    (player, EncounterTracker::new(ENCOUNTER_COOLDOWN_MICROS), parts)
}

/// The error that `players` players and `cameras` cameras amount to, if
/// any; a fault in the players is named first.
pub open spec fn cardinality_fault(players: nat, cameras: nat) -> Option<
    SingletonCardinalityError,
> {
    if players == 0 {
        Some(SingletonCardinalityError::NoPlayer)
    } else if players > 1 {
        Some(SingletonCardinalityError::SeveralPlayers)
    } else if cameras == 0 {
        Some(SingletonCardinalityError::NoCamera)
    } else if cameras > 1 {
        Some(SingletonCardinalityError::SeveralCameras)
    } else {
        None
    }
}

/// `scene` with the camera looking at `camera`.
pub open spec fn with_camera(scene: Scene, camera: Vec2) -> Scene {
    Scene {
        player_visible: scene.player_visible,
        player_parts: scene.player_parts,
        camera,
        enemies: scene.enemies,
    }
}

impl Game {
    /// Assembles a game in the overworld from what was found: succeeds
    /// exactly when there is one player and one camera.
    pub fn assemble(
        map: TileMap,
        players: Vec<Player>,
        player_parts: Vec<Part>,
        tracker: EncounterTracker,
        cameras: Vec<Vec2>,
        fade_micros: u64,
    ) -> (made: Result<Game, SingletonCardinalityError>)
        ensures
            cardinality_fault(players@.len(), cameras@.len()) matches Some(fault) ==> (made matches Err(
                e,
            ) && e == fault),
            cardinality_fault(players@.len(), cameras@.len()).is_none() ==> (made matches Ok(game)
                && game.machine == (StateMachine {
                mode: GameMode::Overworld,
                pending: None,
                fade_micros,
            }) && game.map == map && game.player == players@[0] && game.tracker == tracker
                && game.scene.player_visible && game.scene.player_parts == player_parts
                && game.scene.camera == cameras@[0] && game.scene.enemies@.len() == 0),
    {
        if players.len() == 0 {
            return Err(SingletonCardinalityError::NoPlayer);
        }
        if players.len() > 1 {
            return Err(SingletonCardinalityError::SeveralPlayers);
        }
        if cameras.len() == 0 {
            return Err(SingletonCardinalityError::NoCamera);
        }
        if cameras.len() > 1 {
            return Err(SingletonCardinalityError::SeveralCameras);
        }
        Ok(
            Game {
                machine: StateMachine::new(fade_micros),
                map,
                player: players[0],
                tracker,
                scene: Scene {
                    player_visible: true,
                    player_parts,
                    camera: cameras[0],
                    enemies: Vec::new(),
                },
            },
        )
    }

    /// Whether a tick of `delta_micros` can be run: in the overworld the
    /// player's step must stay within the coordinates that can be
    /// represented.
    pub open spec fn can_tick(self, delta_micros: u32) -> bool {
        self.machine.mode == GameMode::Overworld ==> step_fits(
            self.player.position,
            step_length(self.player.speed, delta_micros),
        )
    }

    /// Decides `can_tick`.
    pub fn ready_for(&self, delta_micros: u32) -> (ready: bool)
        ensures
            ready == self.can_tick(delta_micros),
    {
        match self.machine.mode() {
            GameMode::Overworld => can_step(
                self.player.position,
                step_for(self.player.speed, delta_micros),
            ),
            GameMode::Combat => true,
        }
    }

    /// The player after the tick: moved in the overworld, untouched in
    /// combat.
    pub open spec fn player_next(self, input: TickInput) -> Player {
        if self.machine.mode == GameMode::Overworld {
            moved(self.player, self.map@, input.directions, input.delta_micros)
        } else {
            self.player
        }
    }

    /// Whether the tick sets off an encounter.
    pub open spec fn encounter_next(self, input: TickInput) -> bool {
        self.machine.mode == GameMode::Overworld && self.tracker.fires(
            tick_seen(self.player_next(input), self.map@, input.delta_micros),
        )
    }

    /// The tracker after the tick: it takes the tick in only in the
    /// overworld.
    pub open spec fn tracker_next(self, input: TickInput) -> EncounterTracker {
        if self.machine.mode == GameMode::Overworld {
            self.tracker.checked(tick_seen(self.player_next(input), self.map@, input.delta_micros))
        } else {
            self.tracker
        }
    }

    /// The transition asked for in the tick: combat if an encounter was
    /// set off, the overworld if the player wished to leave combat.
    pub open spec fn request_next(self, input: TickInput) -> Option<TransitionRequest> {
        if self.machine.mode == GameMode::Overworld {
            if self.encounter_next(input) {
                Some(TransitionRequest { target_mode: GameMode::Combat })
            } else {
                None
            }
        } else {
            exit_request(input.confirm)
        }
    }

    /// Whether the tick begins a transition: it asks for one and the
    /// machine takes the request up.
    pub open spec fn begins_transition(self, input: TickInput) -> bool {
        self.request_next(input) matches Some(request) && accepts(self.machine, request)
    }

    /// The machine after the tick: with the transition that the tick
    /// began, or else with the tick's time passed.
    pub open spec fn machine_next(self, input: TickInput) -> StateMachine {
        match self.request_next(input) {
            Some(request) => if accepts(self.machine, request) {
                requested(self.machine, request)
            } else {
                advanced(self.machine, input.delta_micros)
            },
            None => advanced(self.machine, input.delta_micros),
        }
    }

    /// The change of mode that takes place in the tick, if any: none in a
    /// tick that begins a transition.
    pub open spec fn change_next(self, input: TickInput) -> Option<ModeChange> {
        if self.begins_transition(input) {
            None
        } else {
            change_within(self.machine, input.delta_micros)
        }
    }

    /// The stage after the camera followed the player, before the stage
    /// is rearranged for a change of mode.
    pub open spec fn scene_staged(self, input: TickInput) -> Scene {
        if self.machine.mode == GameMode::Overworld {
            with_camera(self.scene, self.player_next(input).position)
        } else {
            self.scene
        }
    }

    /// What a tick makes of the game `self`: the game `after` it and the
    /// `report` of it.
    pub open spec fn ticked(self, input: TickInput, after: Game, report: TickReport) -> bool {
        &&& after.map == self.map
        &&& after.player == self.player_next(input)
        &&& after.tracker == self.tracker_next(input)
        &&& after.machine == self.machine_next(input)
        &&& report.requested == self.request_next(input)
        &&& report.accepted == self.begins_transition(input)
        &&& report.change == self.change_next(input)
        &&& report.change == Some(ModeChange::EnteredCombat) ==> entered_combat(
            self.scene_staged(input),
            after.scene,
        ) && report.removed@.len() == 0
        &&& report.change == Some(ModeChange::LeftCombat) ==> left_combat(
            self.scene_staged(input),
            after.scene,
        ) && report.removed@ == self.scene_staged(input).enemies@
        &&& report.change.is_none() ==> after.scene == self.scene_staged(input)
            && report.removed@.len() == 0
    }

    /// Runs one tick.
    pub fn tick(&mut self, input: TickInput) -> (report: TickReport)
        requires
            old(self).can_tick(input.delta_micros),
        ensures
            old(self).ticked(input, *final(self), report),
    {
        let requested: Option<TransitionRequest> = match self.machine.mode() {
            GameMode::Overworld => {
                player_movement(&mut self.player, &self.map, input.directions, input.delta_micros);
                camera_follow(&mut self.scene, self.player.position);
                player_encounter_checking(
                    &self.player,
                    &self.map,
                    &mut self.tracker,
                    input.delta_micros,
                )
            },
            GameMode::Combat => test_exit_combat(input.confirm),
        };
        let accepted: bool = match requested {
            Some(request) => self.machine.request(request),
            None => false,
        };
        let change = if accepted {
            None
        } else {
            self.machine.advance(input.delta_micros)
        };
        let removed: Vec<Enemy> = match change {
            Some(change) => apply_mode_change(&mut self.scene, change),
            None => Vec::new(),
        };
        TickReport { requested, accepted, change, removed }
    }

    /// Runs one tick if it can be run, and else leaves the game as it is.
    pub fn try_tick(&mut self, input: TickInput) -> (outcome: Option<TickReport>)
        ensures
            outcome.is_some() == old(self).can_tick(input.delta_micros),
            outcome matches Some(report) ==> old(self).ticked(input, *final(self), report),
            outcome.is_none() ==> *final(self) == *old(self),
    {
        if self.ready_for(input.delta_micros) {
            Some(self.tick(input))
        } else {
            None
        }
    }
}

} // verus!
