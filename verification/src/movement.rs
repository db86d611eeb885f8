//! Movement of the player against the blocking tiles of the map.
//!
//! A tick turns the pressed directions into a displacement of at most one
//! step and commits it only if the box at the target touches no blocking
//! tile. A rejected move leaves the player where it was.

use vstd::prelude::*;
use crate::geometry::{
    boxes_overlap, clamp_length, clamped_x, clamped_y, lemma_clamped_within, overlaps, Vec2,
};
use crate::tilemap::{Tile, TileKind, TileMap};
use crate::{
    ACTOR_HALF_EXTENT, MICROS_PER_SECOND, SPEED_DENOMINATOR, TILE_HALF_EXTENT, TILE_SIZE,
};

verus! {

/// The four direction keys, each held or not.
#[derive(Clone, Copy, Debug, PartialEq, Eq, Structural)]
pub struct DirectionInput {
    pub up: bool,
    pub down: bool,
    pub left: bool,
    pub right: bool,
}

/// The player avatar.
#[derive(Clone, Copy, Debug, PartialEq, Eq, Structural)]
pub struct Player {
    /// Centre of the avatar in world units.
    pub position: Vec2,
    /// Speed in thousandths of a tile per second.
    pub speed: u32,
    /// Whether the last movement tick committed a move of nonzero velocity.
    pub just_moved: bool,
}

/// The distance covered in `delta_micros` at a speed of `speed`
/// thousandths of a tile per second, in world units, rounded down: speed
/// times tile size times time.
pub open spec fn step_length(speed: u32, delta_micros: u32) -> nat {
    ((speed * TILE_SIZE * delta_micros) / ((SPEED_DENOMINATOR * MICROS_PER_SECOND) as int)) as nat
}

/// A step is shorter than 2^55 world units.
pub proof fn lemma_step_length_bounded(speed: u32, delta_micros: u32)
    ensures
        step_length(speed, delta_micros) <= 0x7f_ffff_ffff_ffff,
{
    let product = speed * TILE_SIZE * delta_micros;
    assert(0 <= product <= 0xffff_ffff * 1000 * 0xffff_ffff) by (nonlinear_arith)
        requires
            product == speed * TILE_SIZE * delta_micros,
            0 <= speed <= 0xffff_ffff,
            0 <= delta_micros <= 0xffff_ffff,
            TILE_SIZE == 1000,
    ;
    assert(SPEED_DENOMINATOR * MICROS_PER_SECOND == 1_000_000_000) by (nonlinear_arith)
        requires
            SPEED_DENOMINATOR == 1000,
            MICROS_PER_SECOND == 1_000_000,
    ;
}

/// Computes `step_length`.
pub fn step_for(speed: u32, delta_micros: u32) -> (step: u64)
    ensures
        step == step_length(speed, delta_micros),
        step <= 0x7f_ffff_ffff_ffff,
{
    proof {
        lemma_step_length_bounded(speed, delta_micros);
        assert(speed * 1000 * delta_micros <= 0xffff_ffff * 1000 * 0xffff_ffff)
            by (nonlinear_arith)
            requires
                0 <= speed <= 0xffff_ffff,
                0 <= delta_micros <= 0xffff_ffff,
        ;
        assert(speed * 1000 <= 0xffff_ffff * 1000) by (nonlinear_arith)
            requires
                0 <= speed <= 0xffff_ffff,
        ;
        assert(SPEED_DENOMINATOR * MICROS_PER_SECOND == 1_000_000_000) by (nonlinear_arith)
            requires
                SPEED_DENOMINATOR == 1000,
                MICROS_PER_SECOND == 1_000_000,
        ;
    }
    let product: u128 = speed as u128 * 1000 * delta_micros as u128;
    (product / 1_000_000_000) as u64
}

/// The signed amount along one axis: `step` for the positive key, minus
/// `step` for the negative key.
pub open spec fn axis_amount(positive: bool, negative: bool, step: int) -> int {
    (if positive {
        step
    } else {
        0
    }) - (if negative {
        step
    } else {
        0
    })
}

/// The displacement asked for before its length is limited: one step
/// along each axis whose keys do not cancel. Up is toward larger `y`.
pub open spec fn raw_velocity(input: DirectionInput, step: nat) -> Vec2 {
    Vec2 {
        x: axis_amount(input.right, input.left, step as int) as i64,
        y: axis_amount(input.up, input.down, step as int) as i64,
    }
}

/// Computes `raw_velocity`.
pub fn velocity_for(input: DirectionInput, step: u64) -> (v: Vec2)
    requires
        step <= 0x7f_ffff_ffff_ffff,
    ensures
        v == raw_velocity(input, step as nat),
{
    let s: i64 = step as i64;
    let mut x: i64 = 0;
    let mut y: i64 = 0;
    if input.up {
        y = y + s;
    }
    if input.down {
        y = y - s;
    }
    if input.left {
        x = x - s;
    }
    if input.right {
        x = x + s;
    }
    Vec2 { x, y }
}

/// The half extents of the box an actor is tested with.
pub open spec fn actor_half() -> Vec2 {
    Vec2 { x: ACTOR_HALF_EXTENT, y: ACTOR_HALF_EXTENT }
}

/// The half extents of a tile's box.
pub open spec fn tile_half() -> Vec2 {
    Vec2 { x: TILE_HALF_EXTENT, y: TILE_HALF_EXTENT }
}

/// Whether an actor centred at `at` overlaps the tile centred at `wall`.
pub open spec fn collides(at: Vec2, wall: Vec2) -> bool {
    boxes_overlap(at, actor_half(), wall, tile_half())
}

/// Decides whether an actor centred at `target_player_pos` overlaps the
/// tile centred at `wall_translation`.
pub fn wall_collision_check(target_player_pos: Vec2, wall_translation: Vec2) -> (hit: bool)
    ensures
        hit == collides(target_player_pos, wall_translation),
{
    overlaps(
        target_player_pos,
        Vec2 { x: ACTOR_HALF_EXTENT, y: ACTOR_HALF_EXTENT },
        wall_translation,
        Vec2 { x: TILE_HALF_EXTENT, y: TILE_HALF_EXTENT },
    )
}

/// Whether `tile` is of `kind` and overlaps an actor centred at `at`.
pub open spec fn hits(tile: Tile, kind: TileKind, at: Vec2) -> bool {
    tile.kind == kind && collides(at, tile.center())
}

/// Whether an actor centred at `at` overlaps some tile of `kind`.
pub open spec fn touches(tiles: Seq<Tile>, kind: TileKind, at: Vec2) -> bool {
    exists|i: int| 0 <= i < tiles.len() && hits(#[trigger] tiles[i], kind, at)
}

/// Decides whether an actor centred at `at` overlaps some tile of `kind`.
pub fn touches_kind(map: &TileMap, kind: TileKind, at: Vec2) -> (hit: bool)
    ensures
        hit == touches(map@, kind, at),
{
    let n: usize = map.len();
    let mut i: usize = 0;
    while i < n
        invariant
            n == map@.len(),
            i <= n,
            forall|k: int| 0 <= k < i ==> !hits(#[trigger] map@[k], kind, at),
        decreases n - i,
    {
        let tile = match map.get(i) {
            Some(tile) => tile,
            None => {
                return false;
            },
        };
        if tile.kind == kind && wall_collision_check(at, tile.world_position()) {
            assert(hits(map@[i as int], kind, at));
            return true;
        }
        i = i + 1;
    }
    false
}

/// Whether a move of at most `step` from `position` stays within the
/// coordinates that can be represented.
pub open spec fn step_fits(position: Vec2, step: nat) -> bool {
    &&& i64::MIN <= position.x - step
    &&& position.x + step <= i64::MAX
    &&& i64::MIN <= position.y - step
    &&& position.y + step <= i64::MAX
}

/// Decides `step_fits`.
pub fn can_step(position: Vec2, step: u64) -> (fits: bool)
    ensures
        fits == step_fits(position, step as nat),
{
    let reach: i128 = step as i128;
    let x: i128 = position.x as i128;
    let y: i128 = position.y as i128;
    -0x8000_0000_0000_0000 <= x - reach && x + reach <= 0x7fff_ffff_ffff_ffff
        && -0x8000_0000_0000_0000 <= y - reach && y + reach <= 0x7fff_ffff_ffff_ffff
}

/// The position that a tick proposes: the current one displaced by the
/// raw velocity, limited in length to one step.
pub open spec fn target_position(position: Vec2, input: DirectionInput, step: nat) -> Vec2 {
    Vec2 {
        x: (position.x + clamped_x(raw_velocity(input, step), step)) as i64,
        y: (position.y + clamped_y(raw_velocity(input, step), step)) as i64,
    }
}

/// Whether the move that a tick proposes runs into a blocking tile.
pub open spec fn move_blocked(
    player: Player,
    tiles: Seq<Tile>,
    input: DirectionInput,
    delta_micros: u32,
) -> bool {
    touches(
        tiles,
        TileKind::Blocking,
        target_position(player.position, input, step_length(player.speed, delta_micros)),
    )
}

/// The player after one movement tick: at the target if no blocking tile
/// is overlapped there, else unmoved; `just_moved` tells whether a move of
/// nonzero raw velocity was committed.
pub open spec fn moved(
    player: Player,
    tiles: Seq<Tile>,
    input: DirectionInput,
    delta_micros: u32,
) -> Player {
    let step = step_length(player.speed, delta_micros);
    if move_blocked(player, tiles, input, delta_micros) {
        Player { position: player.position, speed: player.speed, just_moved: false }
    } else {
        Player {
            position: target_position(player.position, input, step),
            speed: player.speed,
            just_moved: raw_velocity(input, step) != (Vec2 { x: 0, y: 0 }),
        }
    }
}

/// Runs one movement tick.
pub fn player_movement(
    player: &mut Player,
    map: &TileMap,
    input: DirectionInput,
    delta_micros: u32,
)
    requires
        step_fits(old(player).position, step_length(old(player).speed, delta_micros)),
    ensures
        *final(player) == moved(*old(player), map@, input, delta_micros),
{
    let step: u64 = step_for(player.speed, delta_micros);
    let velocity = velocity_for(input, step);
    let limited = clamp_length(velocity, step);
    proof {
        lemma_within_step(limited, step as nat);
    }
    let target = Vec2 { x: player.position.x + limited.x, y: player.position.y + limited.y };
    player.just_moved = false;
    if !touches_kind(map, TileKind::Blocking, target) {
        player.position = target;
        if velocity.x != 0 || velocity.y != 0 {
            player.just_moved = true;
        }
    }
}

/// A vector no longer than `step` has no coordinate larger than `step`.
pub proof fn lemma_within_step(v: Vec2, step: nat)
    requires
        v.norm_sq() <= step * step,
    ensures
        -step <= v.x <= step,
        -step <= v.y <= step,
{
    assert(-step <= v.x <= step && -step <= v.y <= step) by (nonlinear_arith)
        requires
            v.x * v.x + v.y * v.y <= step * step,
            step >= 0,
    ;
}

/// A move whose target overlaps a blocking tile is rejected: the player
/// stays where it was and is not counted as having moved.
pub proof fn lemma_blocked_move_rejected(
    player: Player,
    tiles: Seq<Tile>,
    input: DirectionInput,
    delta_micros: u32,
)
    requires
        move_blocked(player, tiles, input, delta_micros),
    ensures
        moved(player, tiles, input, delta_micros).position == player.position,
        !moved(player, tiles, input, delta_micros).just_moved,
{
}

/// A move of nonzero raw velocity whose target overlaps no blocking tile
/// is committed: the player is counted as having moved, and its
/// displacement is no longer than one step.
pub proof fn lemma_free_move_within_step(
    player: Player,
    tiles: Seq<Tile>,
    input: DirectionInput,
    delta_micros: u32,
)
    requires
        step_fits(player.position, step_length(player.speed, delta_micros)),
        !move_blocked(player, tiles, input, delta_micros),
        raw_velocity(input, step_length(player.speed, delta_micros)) != (Vec2 { x: 0, y: 0 }),
    ensures
        moved(player, tiles, input, delta_micros).just_moved,
        ({
            let after = moved(player, tiles, input, delta_micros);
            let step = step_length(player.speed, delta_micros);
            let dx = after.position.x - player.position.x;
            let dy = after.position.y - player.position.y;
            dx * dx + dy * dy <= step * step
        }),
{
    let step = step_length(player.speed, delta_micros);
    let v = raw_velocity(input, step);
    lemma_clamped_within(v, step);
    let cx = clamped_x(v, step);
    let cy = clamped_y(v, step);
    assert(-step <= cx <= step && -step <= cy <= step) by (nonlinear_arith)
        requires
            cx * cx + cy * cy <= step * step,
            step >= 0,
    ;
}

/// Without a step to take, or with keys that cancel each other, a tick
/// leaves the player in place and not counted as having moved.
pub proof fn lemma_still_without_velocity(
    player: Player,
    tiles: Seq<Tile>,
    input: DirectionInput,
    delta_micros: u32,
)
    requires
        raw_velocity(input, step_length(player.speed, delta_micros)) == (Vec2 { x: 0, y: 0 }),
    ensures
        moved(player, tiles, input, delta_micros).position == player.position,
        !moved(player, tiles, input, delta_micros).just_moved,
{
    let step = step_length(player.speed, delta_micros);
    let v = raw_velocity(input, step);
    assert(v.norm_sq() == 0);
    assert(step * step >= 0) by (nonlinear_arith);
}

} // verus!
