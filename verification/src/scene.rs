//! What is on stage: the avatar's visibility, the camera and the
//! adversaries of the encounter at hand, and how a change of mode
//! rearranges them.
//!
//! Parts belong to the thing they are attached to and are held by it, so
//! that removing an adversary removes its parts with it.

use vstd::prelude::*;
use crate::geometry::Vec2;
use crate::mode::ModeChange;

verus! {

/// The character an adversary is drawn with.
pub const ADVERSARY_GLYPH: char = 'b';

/// Something attached to the avatar or to an adversary, shown or hidden
/// together with it.
#[derive(Clone, Copy, Debug, PartialEq, Eq, Structural)]
pub struct Part {
    /// The character the part is drawn with.
    pub glyph: char,
    pub visible: bool,
}

/// An adversary met in an encounter, with the parts attached to it.
#[derive(Clone, Debug)]
pub struct Enemy {
    /// The character the adversary is drawn with.
    pub glyph: char,
    pub position: Vec2,
    pub parts: Vec<Part>,
}

/// The stage.
#[derive(Clone, Debug)]
pub struct Scene {
    /// Whether the avatar is shown.
    pub player_visible: bool,
    /// The parts attached to the avatar.
    pub player_parts: Vec<Part>,
    /// The point the camera looks at.
    pub camera: Vec2,
    /// The adversaries of the encounter at hand.
    pub enemies: Vec<Enemy>,
}

/// `parts` with every part shown, or every part hidden.
pub open spec fn parts_set(parts: Seq<Part>, visible: bool) -> Seq<Part> {
    Seq::new(parts.len(), |i: int| Part { glyph: parts[i].glyph, visible })
}

/// Shows or hides every part of `parts`.
fn set_parts_visible(parts: &mut Vec<Part>, visible: bool)
    ensures
        final(parts)@ == parts_set(old(parts)@, visible),
{
    let n: usize = parts.len();
    let mut i: usize = 0;
    while i < n
        invariant
            n == parts@.len(),
            n == old(parts)@.len(),
            i <= n,
            forall|k: int| 0 <= k < i ==> parts@[k] == (Part {
                glyph: old(parts)@[k].glyph,
                visible,
            }),
            forall|k: int| i <= k < n ==> parts@[k] == old(parts)@[k],
        decreases n - i,
    {
        let part = parts[i];
        parts.set(i, Part { glyph: part.glyph, visible });
        i = i + 1;
    }
    assert(parts@ =~= parts_set(old(parts)@, visible));
}

/// Hides the avatar and everything attached to it.
pub fn hide_player(scene: &mut Scene)
    ensures
        !final(scene).player_visible,
        final(scene).player_parts@ == parts_set(old(scene).player_parts@, false),
        final(scene).camera == old(scene).camera,
        final(scene).enemies == old(scene).enemies,
{
    scene.player_visible = false;
    set_parts_visible(&mut scene.player_parts, false);
}

/// Shows the avatar and everything attached to it.
pub fn show_player(scene: &mut Scene)
    ensures
        final(scene).player_visible,
        final(scene).player_parts@ == parts_set(old(scene).player_parts@, true),
        final(scene).camera == old(scene).camera,
        final(scene).enemies == old(scene).enemies,
{
    scene.player_visible = true;
    set_parts_visible(&mut scene.player_parts, true);
}

/// Puts one adversary without parts on stage, at the origin.
pub fn spawn_enemy(scene: &mut Scene)
    ensures
        final(scene).enemies@.len() == old(scene).enemies@.len() + 1,
        forall|i: int|
            0 <= i < old(scene).enemies@.len() ==> final(scene).enemies@[i] == old(
                scene,
            ).enemies@[i],
        final(scene).enemies@.last().glyph == ADVERSARY_GLYPH,
        final(scene).enemies@.last().position == (Vec2 { x: 0, y: 0 }),
        final(scene).enemies@.last().parts@.len() == 0,
        final(scene).player_visible == old(scene).player_visible,
        final(scene).player_parts == old(scene).player_parts,
        final(scene).camera == old(scene).camera,
{
    let enemy = Enemy { glyph: ADVERSARY_GLYPH, position: Vec2 { x: 0, y: 0 }, parts: Vec::new() };
    scene.enemies.push(enemy);
}

/// Takes every adversary off stage, each with its parts, and hands them
/// to the caller in the order they stood in.
pub fn despawn_enemy(scene: &mut Scene) -> (removed: Vec<Enemy>)
    ensures
        removed@ == old(scene).enemies@,
        final(scene).enemies@.len() == 0,
        final(scene).player_visible == old(scene).player_visible,
        final(scene).player_parts == old(scene).player_parts,
        final(scene).camera == old(scene).camera,
{
    let mut removed: Vec<Enemy> = Vec::new();
    core::mem::swap(&mut scene.enemies, &mut removed);
    removed
}

/// Points the camera at the origin.
pub fn combat_camera(scene: &mut Scene)
    ensures
        final(scene).camera == (Vec2 { x: 0, y: 0 }),
        final(scene).player_visible == old(scene).player_visible,
        final(scene).player_parts == old(scene).player_parts,
        final(scene).enemies == old(scene).enemies,
{
    scene.camera = Vec2 { x: 0, y: 0 };
}

/// Points the camera at `player_position`.
pub fn camera_follow(scene: &mut Scene, player_position: Vec2)
    ensures
        final(scene).camera == player_position,
        final(scene).player_visible == old(scene).player_visible,
        final(scene).player_parts == old(scene).player_parts,
        final(scene).enemies == old(scene).enemies,
{
    scene.camera = player_position;
}

/// Whether `after` is `before` with one more adversary, new at the end:
/// without parts, standing at the origin.
pub open spec fn one_enemy_more(before: Seq<Enemy>, after: Seq<Enemy>) -> bool {
    &&& after.len() == before.len() + 1
    &&& forall|i: int| 0 <= i < before.len() ==> after[i] == before[i]
    &&& after.last().glyph == ADVERSARY_GLYPH
    &&& after.last().position == (Vec2 { x: 0, y: 0 })
    &&& after.last().parts@.len() == 0
}

/// How the stage is rearranged when combat begins: the avatar and its
/// parts are hidden, the camera looks at the origin, and one adversary
/// has come on.
pub open spec fn entered_combat(before: Scene, after: Scene) -> bool {
    &&& !after.player_visible
    &&& after.player_parts@ == parts_set(before.player_parts@, false)
    &&& after.camera == (Vec2 { x: 0, y: 0 })
    &&& one_enemy_more(before.enemies@, after.enemies@)
}

/// How the stage is rearranged when combat ends: the avatar and its parts
/// are shown again, and every adversary has gone, with its parts.
pub open spec fn left_combat(before: Scene, after: Scene) -> bool {
    &&& after.player_visible
    &&& after.player_parts@ == parts_set(before.player_parts@, true)
    &&& after.camera == before.camera
    &&& after.enemies@.len() == 0
}

/// Rearranges the stage for the beginning of combat.
pub fn enter_combat(scene: &mut Scene)
    ensures
        entered_combat(*old(scene), *final(scene)),
{
    hide_player(scene);
    combat_camera(scene);
    spawn_enemy(scene);
}

/// Rearranges the stage for the end of combat and hands the adversaries
/// that were on it to the caller.
pub fn leave_combat(scene: &mut Scene) -> (removed: Vec<Enemy>)
    ensures
        left_combat(*old(scene), *final(scene)),
        removed@ == old(scene).enemies@,
{
    show_player(scene);
    despawn_enemy(scene)
}

/// Rearranges the stage as `change` asks for, and hands the adversaries
/// that left it to the caller.
pub fn apply_mode_change(scene: &mut Scene, change: ModeChange) -> (removed: Vec<Enemy>)
    ensures
        change == ModeChange::EnteredCombat ==> entered_combat(*old(scene), *final(scene))
            && removed@.len() == 0,
        change == ModeChange::LeftCombat ==> left_combat(*old(scene), *final(scene)) && removed@
            == old(scene).enemies@,
{
    match change {
        ModeChange::EnteredCombat => {
            enter_combat(scene);
            Vec::new()
        },
        ModeChange::LeftCombat => leave_combat(scene),
    }
}

/// Showing or hiding parts twice is the same as doing the second alone.
pub proof fn lemma_parts_set_twice(parts: Seq<Part>, first: bool, second: bool)
    ensures
        parts_set(parts_set(parts, first), second) == parts_set(parts, second),
{
    assert(parts_set(parts_set(parts, first), second) =~= parts_set(parts, second));
}

/// Combat that began and ended leaves no trace on stage: the avatar is
/// shown, each of its parts is shown, and no adversary is left.
pub proof fn lemma_combat_leaves_no_trace(before: Scene, during: Scene, after: Scene)
    requires
        entered_combat(before, during),
        left_combat(during, after),
    ensures
        !during.player_visible,
        after.player_visible,
        after.player_parts@ == parts_set(before.player_parts@, true),
        forall|i: int| 0 <= i < after.player_parts@.len() ==> (#[trigger] after.player_parts@[i]).visible,
        after.enemies@.len() == 0,
{
    lemma_parts_set_twice(before.player_parts@, false, true);
}

} // verus!
