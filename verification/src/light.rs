//! Brightness as a function of the distance to the player.
//!
//! Brightness is greatest at the player, falls by [`LIGHT_FALLOFF`] levels for
//! each tile of Euclidean distance, counting whole levels only, and never drops
//! below [`LIGHT_MIN`]. Nothing stands in the light's way.

use vstd::prelude::*;
use crate::coords::LevelPos;
use crate::coords::UNITS_PER_TILE;

verus! {

/// The greatest brightness: that of a cell at the player's position, and of
/// every cell that has not been lit yet.
pub const LIGHT_MAX: u8 = 60;

/// The least brightness.
pub const LIGHT_MIN: u8 = 12;

/// Levels of brightness lost per tile of distance.
pub const LIGHT_FALLOFF: i64 = 8;

/// Distance, in level units, over which one level of brightness is lost: a tile
/// divided by [`LIGHT_FALLOFF`].
pub const UNITS_PER_STEP: i64 = 96;

/// Number of levels between the greatest and the least brightness.
pub const LIGHT_STEPS: u8 = 48;

/// Distance, in level units, from which on the brightness is the least:
/// [`LIGHT_STEPS`] times [`UNITS_PER_STEP`].
pub const LIGHT_REACH: i64 = 4608;

/// The square of the distance that `steps` steps of [`UNITS_PER_STEP`] units
/// cover.
pub open spec fn steps_sq(steps: nat) -> int {
    (UNITS_PER_STEP * steps) * (UNITS_PER_STEP * steps)
}

/// The number of whole steps of [`UNITS_PER_STEP`] units that fit in the distance
/// whose square is `dist_sq`, counting up to `limit` steps at most.
pub open spec fn whole_steps(dist_sq: int, limit: nat) -> nat
    decreases limit,
{
    if limit == 0 {
        0
    } else if steps_sq(limit) <= dist_sq {
        limit
    } else {
        whole_steps(dist_sq, (limit - 1) as nat)
    }
}

/// The brightness at the offset `(dx, dy)` from the player, in level units.
pub open spec fn light_level(dx: int, dy: int) -> int {
    LIGHT_MAX - whole_steps(dx * dx + dy * dy, LIGHT_STEPS as nat)
}

/// The brightness of the cell in column `x` of row `y` when the player is at
/// `player`: that at the offset of the player from the corner of the cell.
pub open spec fn cell_light(x: int, y: int, player: LevelPos) -> u8 {
    light_level(player.x - UNITS_PER_TILE * x, player.y - UNITS_PER_TILE * y) as u8
}

/// `whole_steps` is the greatest number of steps, up to the limit, whose length
/// does not exceed the distance.
pub proof fn lemma_whole_steps_is_greatest(dist_sq: int, limit: nat)
    requires
        0 <= dist_sq,
    ensures
        whole_steps(dist_sq, limit) <= limit,
        steps_sq(whole_steps(dist_sq, limit)) <= dist_sq,
        forall|k: nat|
            whole_steps(dist_sq, limit) < k <= limit ==> dist_sq < #[trigger] steps_sq(k),
    decreases limit,
{
    if limit != 0 && steps_sq(limit) > dist_sq {
        lemma_whole_steps_is_greatest(dist_sq, (limit - 1) as nat);
    }
}

/// Farther away, no more steps fit in a shorter distance than in a longer one.
pub proof fn lemma_whole_steps_grow(near_sq: int, far_sq: int, limit: nat)
    requires
        near_sq <= far_sq,
    ensures
        whole_steps(near_sq, limit) <= whole_steps(far_sq, limit) <= limit,
    decreases limit,
{
    if limit != 0 {
        lemma_whole_steps_grow(near_sq, far_sq, (limit - 1) as nat);
    }
}

/// Brightness stays within its bounds and is greatest at the player.
pub proof fn lemma_light_bounds(dx: int, dy: int)
    ensures
        LIGHT_MIN <= light_level(dx, dy) <= LIGHT_MAX,
        light_level(0, 0) == LIGHT_MAX,
{
    lemma_whole_steps_grow(dx * dx + dy * dy, dx * dx + dy * dy, LIGHT_STEPS as nat);
    lemma_whole_steps_zero(LIGHT_STEPS as nat);
}

/// Brightness does not increase with the distance: of two cells, the one that is
/// no farther from the player is no darker.
pub proof fn lemma_light_falls_with_distance(near_dx: int, near_dy: int, far_dx: int, far_dy: int)
    requires
        near_dx * near_dx + near_dy * near_dy <= far_dx * far_dx + far_dy * far_dy,
    ensures
        light_level(near_dx, near_dy) >= light_level(far_dx, far_dy),
{
    lemma_whole_steps_grow(
        near_dx * near_dx + near_dy * near_dy,
        far_dx * far_dx + far_dy * far_dy,
        LIGHT_STEPS as nat,
    );
}

/// The cell at the player's position is at least as bright as any other.
pub proof fn lemma_player_cell_is_brightest(dx: int, dy: int)
    ensures
        light_level(0, 0) >= light_level(dx, dy),
{
    lemma_light_bounds(dx, dy);
}

/// No step fits in no distance.
proof fn lemma_whole_steps_zero(limit: nat)
    ensures
        whole_steps(0, limit) == 0,
    decreases limit,
{
    if limit != 0 {
        assert(steps_sq(limit) > 0) by (nonlinear_arith)
            requires
                limit > 0,
                steps_sq(limit) == (96 * limit) * (96 * limit),
        ;
        lemma_whole_steps_zero((limit - 1) as nat);
    }
}

/// At [`LIGHT_REACH`] units along either axis, brightness has reached its least.
proof fn lemma_beyond_reach(dx: int, dy: int)
    requires
        dx >= LIGHT_REACH || dx <= -LIGHT_REACH || dy >= LIGHT_REACH || dy <= -LIGHT_REACH,
    ensures
        light_level(dx, dy) == LIGHT_MIN,
{
    assert(dx * dx + dy * dy >= 4608 * 4608) by (nonlinear_arith)
        requires
            dx >= 4608 || dx <= -4608 || dy >= 4608 || dy <= -4608,
    ;
}

/// Tells whether `steps` steps fit in the distance whose square is `dist_sq`.
fn steps_fit(steps: u8, dist_sq: i64) -> (fit: bool)
    requires
        steps <= LIGHT_STEPS,
    ensures
        fit == (steps_sq(steps as nat) <= dist_sq),
{
    let length: i64 = UNITS_PER_STEP * (steps as i64);
    assert(0 <= length * length <= 4608 * 4608) by (nonlinear_arith)
        requires
            0 <= length <= 4608,
    ;
    length * length <= dist_sq
}

/// Computes the brightness at the offset `(dx, dy)` from the player, in level
/// units.
pub fn light_at_offset(dx: i128, dy: i128) -> (light: u8)
    ensures
        light == light_level(dx as int, dy as int),
        LIGHT_MIN <= light <= LIGHT_MAX,
{
    proof {
        lemma_light_bounds(dx as int, dy as int);
    }
    let reach: i128 = LIGHT_REACH as i128;
    if dx >= reach || dx <= -reach || dy >= reach || dy <= -reach {
        proof {
            lemma_beyond_reach(dx as int, dy as int);
        }
        return LIGHT_MIN;
    }
    assert(0 <= dx * dx <= 4608 * 4608 && 0 <= dy * dy <= 4608 * 4608) by (nonlinear_arith)
        requires
            -4608 < dx < 4608,
            -4608 < dy < 4608,
    ;
    let dist_sq: i64 = (dx * dx + dy * dy) as i64;
    let mut steps: u8 = LIGHT_STEPS;
    while steps > 0 && !steps_fit(steps, dist_sq)
        invariant
            steps <= LIGHT_STEPS,
            whole_steps(dist_sq as int, LIGHT_STEPS as nat) == whole_steps(
                dist_sq as int,
                steps as nat,
            ),
        decreases steps,
    {
        steps = steps - 1;
    }
    LIGHT_MAX - steps
}

/// Computes the brightness of the cell in column `x` of row `y` when the player
/// is at `player`.
pub fn light_for_cell(x: usize, y: usize, player: LevelPos) -> (light: u8)
    ensures
        light == cell_light(x as int, y as int, player),
        LIGHT_MIN <= light <= LIGHT_MAX,
{
    let tile: i128 = UNITS_PER_TILE as i128;
    assert(tile * (x as i128) == 768 * x && tile * (y as i128) == 768 * y);
    let dx: i128 = (player.x as i128) - tile * (x as i128);
    let dy: i128 = (player.y as i128) - tile * (y as i128);
    light_at_offset(dx, dy)
}

} // verus!
