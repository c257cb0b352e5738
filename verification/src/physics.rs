//! Gravity, integration and collision of the player's box against the
//! voxel world.
//!
//! One tick applies gravity, moves the body to a candidate position and
//! then resolves the candidate against every voxel of the world in turn.
//! A voxel that the player's box overlaps pushes the body out along one
//! axis only: the axis along which the two centres lie furthest apart.
//! Each correction is applied before the next voxel is looked at.

use vstd::prelude::*;
use crate::terrain::Voxel;
use crate::units::MICRO;
use crate::units::displacement;
use crate::units::distance;
use crate::units::magnitude;
use crate::units::saturate;
use crate::units::saturated;
use crate::units::travelled;
use crate::world::VoxelWorld;

verus! {

/// Downward acceleration, in units per second squared.
pub const GRAVITY: i64 = 20;

/// Width and depth of the player's box.
pub const PLAYER_WIDTH: i64 = 500_000;

/// Height of the player's box.
pub const PLAYER_HEIGHT: i64 = 2_000_000;

/// Edge of a voxel.
pub const BLOCK_SIZE: i64 = 1_000_000;

/// Distance between the centres of player and voxel below which they
/// overlap along `x` or `z`: half the player's width plus half a block.
pub const REACH_SIDE: i64 = 750_000;

/// Distance between the centres of player and voxel below which they
/// overlap along `y`: half the player's height plus half a block.
pub const REACH_UP: i64 = 1_500_000;

/// A point or a velocity in fixed-point coordinates.
#[derive(Clone, Copy, Debug, PartialEq, Eq, Structural)]
pub struct Vec3 {
    pub x: i64,
    pub y: i64,
    pub z: i64,
}

/// Position of the centre of the player's box and its velocity.
#[derive(Clone, Copy, Debug, PartialEq, Eq, Structural)]
pub struct Body {
    pub position: Vec3,
    pub velocity: Vec3,
}

/// Fixed-point coordinate of the centre of a voxel at lattice coordinate
/// `c`.
pub open spec fn centre(c: i32) -> int {
    c * MICRO
}

/// Whether the player's box centred at `p` overlaps the voxel `v`.
pub open spec fn overlaps(p: Vec3, v: Voxel) -> bool {
    &&& magnitude(p.x - centre(v.x)) < REACH_SIDE
    &&& magnitude(p.y - centre(v.y)) < REACH_UP
    &&& magnitude(p.z - centre(v.z)) < REACH_SIDE
}

/// Whether a correction against `v` goes along `y`: the centres lie
/// further apart along `y` than along either horizontal axis.
pub open spec fn separates_up(p: Vec3, v: Voxel) -> bool {
    &&& magnitude(p.y - centre(v.y)) > magnitude(p.x - centre(v.x))
    &&& magnitude(p.y - centre(v.y)) > magnitude(p.z - centre(v.z))
}

/// Whether a horizontal correction against `v` goes along `x` rather than
/// `z`.
pub open spec fn separates_across(p: Vec3, v: Voxel) -> bool {
    magnitude(p.x - centre(v.x)) > magnitude(p.z - centre(v.z))
}

/// The body after it has met the voxel `v`. Without overlap nothing
/// changes. With overlap the body is set to the near face of the voxel
/// along the separating axis, and its velocity along that axis is zeroed.
pub open spec fn resolved(b: Body, v: Voxel) -> Body {
    let p = b.position;
    if !overlaps(p, v) {
        b
    } else if separates_up(p, v) {
        let y = if p.y - centre(v.y) > 0 {
            centre(v.y) + REACH_UP
        } else {
            centre(v.y) - REACH_UP
        };
        Body {
            position: Vec3 { x: p.x, y: y as i64, z: p.z },
            velocity: Vec3 { x: b.velocity.x, y: 0, z: b.velocity.z },
        }
    } else if separates_across(p, v) {
        let x = if p.x - centre(v.x) >= 0 {
            centre(v.x) + REACH_SIDE
        } else {
            centre(v.x) - REACH_SIDE
        };
        Body {
            position: Vec3 { x: x as i64, y: p.y, z: p.z },
            velocity: Vec3 { x: 0, y: b.velocity.y, z: b.velocity.z },
        }
    } else {
        let z = if p.z - centre(v.z) >= 0 {
            centre(v.z) + REACH_SIDE
        } else {
            centre(v.z) - REACH_SIDE
        };
        Body {
            position: Vec3 { x: p.x, y: p.y, z: z as i64 },
            velocity: Vec3 { x: b.velocity.x, y: b.velocity.y, z: 0 },
        }
    }
}

/// The body after it has met every voxel of `voxels`, one after the other.
pub open spec fn resolved_all(b: Body, voxels: Seq<Voxel>) -> Body
    decreases voxels.len(),
{
    if voxels.len() == 0 {
        b
    } else {
        resolved(resolved_all(b, voxels.drop_last()), voxels.last())
    }
}

/// The body after gravity has acted on it for `dt` microseconds.
pub open spec fn fallen(b: Body, dt: int) -> Body {
    Body {
        position: b.position,
        velocity: Vec3 {
            x: b.velocity.x,
            y: saturated(b.velocity.y - GRAVITY * dt) as i64,
            z: b.velocity.z,
        },
    }
}

/// The body moved along its velocity for `dt` microseconds.
pub open spec fn moved(b: Body, dt: int) -> Body {
    Body {
        position: Vec3 {
            x: saturated(b.position.x + travelled(b.velocity.x as int, dt)) as i64,
            y: saturated(b.position.y + travelled(b.velocity.y as int, dt)) as i64,
            z: saturated(b.position.z + travelled(b.velocity.z as int, dt)) as i64,
        },
        velocity: b.velocity,
    }
}

/// The candidate of a tick: the body after gravity, unless it flies, and
/// after the move along its velocity.
pub open spec fn candidate(b: Body, flying: bool, dt: int) -> Body {
    if flying {
        moved(b, dt)
    } else {
        moved(fallen(b, dt), dt)
    }
}

/// The body after one tick of `dt` microseconds in a world of `voxels`.
pub open spec fn stepped(b: Body, flying: bool, dt: int, voxels: Seq<Voxel>) -> Body {
    resolved_all(candidate(b, flying, dt), voxels)
}

/// Fixed-point coordinate of the centre of a voxel at lattice coordinate
/// `c`.
pub fn voxel_centre(c: i32) -> (r: i64)
    ensures
        r == centre(c),
{
    c as i64 * MICRO
}

/// Resolves the body against one voxel.
pub fn resolve_collision(body: &mut Body, voxel: &Voxel)
    ensures
        *final(body) == resolved(*old(body), *voxel),
{
    let cx: i64 = voxel_centre(voxel.x);
    let cy: i64 = voxel_centre(voxel.y);
    let cz: i64 = voxel_centre(voxel.z);
    let ax: i128 = distance(body.position.x, cx);
    let ay: i128 = distance(body.position.y, cy);
    let az: i128 = distance(body.position.z, cz);
    if ax < REACH_SIDE as i128 && ay < REACH_UP as i128 && az < REACH_SIDE as i128 {
        if ay > ax && ay > az {
            if body.position.y > cy {
                body.position.y = cy + REACH_UP;
            } else {
                body.position.y = cy - REACH_UP;
            }
            body.velocity.y = 0;
        } else if ax > az {
            if body.position.x >= cx {
                body.position.x = cx + REACH_SIDE;
            } else {
                body.position.x = cx - REACH_SIDE;
            }
            body.velocity.x = 0;
        } else {
            if body.position.z >= cz {
                body.position.z = cz + REACH_SIDE;
            } else {
                body.position.z = cz - REACH_SIDE;
            }
            body.velocity.z = 0;
        }
    }
}

/// Resolves the body against every voxel of a list, in order.
pub fn resolve_collisions(body: &mut Body, voxels: &Vec<Voxel>)
    ensures
        *final(body) == resolved_all(*old(body), voxels@),
{
    let mut i: usize = 0;
    assert(voxels@.take(0) == Seq::<Voxel>::empty());
    while i < voxels.len()
        invariant
            0 <= i <= voxels.len(),
            *body == resolved_all(*old(body), voxels@.take(i as int)),
        decreases voxels.len() - i,
    {
        resolve_collision(body, &voxels[i]);
        i = i + 1;
        assert(voxels@.take(i as int).drop_last() == voxels@.take(i - 1));
    }
    assert(voxels@.take(i as int) == voxels@);
}

/// Applies gravity for `dt` microseconds.
pub fn apply_gravity(body: &mut Body, dt: u32)
    ensures
        *final(body) == fallen(*old(body), dt as int),
{
    let rate: i128 = GRAVITY as i128;
    assert(rate == 20);
    let pull: i128 = rate * dt as i128;
    body.velocity.y = saturate(body.velocity.y as i128 - pull);
}

/// Moves the body along its velocity for `dt` microseconds.
pub fn integrate(body: &mut Body, dt: u32)
    ensures
        *final(body) == moved(*old(body), dt as int),
{
    body.position.x = saturate(body.position.x as i128 + displacement(body.velocity.x, dt));
    body.position.y = saturate(body.position.y as i128 + displacement(body.velocity.y, dt));
    body.position.z = saturate(body.position.z as i128 + displacement(body.velocity.z, dt));
}

/// Runs one tick of `dt` microseconds: gravity unless the body flies, the
/// move to the candidate position, then one pass of collision resolution
/// over every voxel of the world. The corrected candidate is the body's
/// new state.
pub fn physics_step(body: &mut Body, world: &VoxelWorld, flying: bool, dt: u32)
    ensures
        *final(body) == stepped(*old(body), flying, dt as int, world@),
{
    if !flying {
        apply_gravity(body, dt);
    }
    integrate(body, dt);
    resolve_collisions(body, world.voxels());
}

/// The reach along an axis is half the player's extent plus half a block.
pub proof fn lemma_reach_is_half_extent()
    ensures
        2 * REACH_SIDE == PLAYER_WIDTH + BLOCK_SIZE,
        2 * REACH_UP == PLAYER_HEIGHT + BLOCK_SIZE,
        BLOCK_SIZE == MICRO,
{
}

/// A correction moves the body out of the voxel that caused it, along one
/// axis: afterwards the player's box no longer overlaps that voxel, at
/// most one coordinate has changed, and the velocity has changed at most
/// along the same axis, to zero.
pub proof fn lemma_correction_separates(b: Body, v: Voxel)
    ensures
        !overlaps(resolved(b, v).position, v),
        overlaps(b.position, v) ==> {
            let r = resolved(b, v);
            ||| (r.position.x == b.position.x && r.position.z == b.position.z && r.velocity
                == Vec3 { y: 0, ..b.velocity })
            ||| (r.position.y == b.position.y && r.position.z == b.position.z && r.velocity
                == Vec3 { x: 0, ..b.velocity })
            ||| (r.position.x == b.position.x && r.position.y == b.position.y && r.velocity
                == Vec3 { z: 0, ..b.velocity })
        },
{
}

/// Whether no voxel of `voxels` lies above the layer `h`.
pub open spec fn level_ground(voxels: Seq<Voxel>, h: i32) -> bool {
    forall|i: int| 0 <= i < voxels.len() ==> (#[trigger] voxels[i]).y <= h
}

/// Whether `v` is a voxel of the layer `h` under the player's box at `p`.
pub open spec fn supports(v: Voxel, h: i32, p: Vec3) -> bool {
    &&& v.y == h
    &&& magnitude(p.x - centre(v.x)) < REACH_SIDE
    &&& magnitude(p.z - centre(v.z)) < REACH_SIDE
}

/// Whether some voxel of the layer `h` lies under the player's box at `p`.
pub open spec fn supported(voxels: Seq<Voxel>, h: i32, p: Vec3) -> bool {
    exists|i: int| 0 <= i < voxels.len() && supports(#[trigger] voxels[i], h, p)
}

/// Height of the player's centre when the player stands on the layer `h`:
/// the top face of the layer plus half the player's height.
pub open spec fn standing_height(h: i32) -> int {
    centre(h) + REACH_UP
}

/// The body `b` set down on the layer `h`: at standing height, without
/// vertical velocity.
pub open spec fn landed(b: Body, h: i32) -> Body {
    Body {
        position: Vec3 { x: b.position.x, y: standing_height(h) as i64, z: b.position.z },
        velocity: Vec3 { x: b.velocity.x, y: 0, z: b.velocity.z },
    }
}

/// Whether the player's box centred at `p` overlaps no voxel of `voxels`.
pub open spec fn clear_of(p: Vec3, voxels: Seq<Voxel>) -> bool {
    forall|i: int| 0 <= i < voxels.len() ==> !overlaps(p, #[trigger] voxels[i])
}

/// A body at or above standing height over level ground meets no voxel.
pub proof fn lemma_clear_above_ground(b: Body, voxels: Seq<Voxel>, h: i32)
    requires
        level_ground(voxels, h),
        b.position.y >= standing_height(h),
    ensures
        resolved_all(b, voxels) == b,
        clear_of(b.position, voxels),
    decreases voxels.len(),
{
    if voxels.len() > 0 {
        let rest = voxels.drop_last();
        assert forall|i: int| 0 <= i < rest.len() implies (#[trigger] rest[i]).y <= h by {
            assert(rest[i] == voxels[i]);
        }
        lemma_clear_above_ground(b, rest, h);
        assert(voxels.last() == voxels[voxels.len() - 1]);
    }
}

/// A body that has dipped below standing height over level ground, by less
/// than the sideways reach, is set down on the ground by the first voxel
/// under it, and stays there.
proof fn lemma_settles(b: Body, voxels: Seq<Voxel>, h: i32)
    requires
        level_ground(voxels, h),
        standing_height(h) - REACH_SIDE <= b.position.y < standing_height(h),
    ensures
        supported(voxels, h, b.position) ==> resolved_all(b, voxels) == landed(b, h),
        !supported(voxels, h, b.position) ==> resolved_all(b, voxels) == b,
    decreases voxels.len(),
{
    if voxels.len() > 0 {
        let rest = voxels.drop_last();
        let last = voxels.last();
        assert(last == voxels[voxels.len() - 1]);
        assert forall|i: int| 0 <= i < rest.len() implies (#[trigger] rest[i]).y <= h by {
            assert(rest[i] == voxels[i]);
        }
        lemma_settles(b, rest, h);
        if supported(rest, h, b.position) {
            let i = choose|i: int| 0 <= i < rest.len() && supports(#[trigger] rest[i], h, b.position);
            assert(rest[i] == voxels[i]);
            assert(supported(voxels, h, b.position));
            assert(resolved(landed(b, h), last) == landed(b, h));
        } else if supports(last, h, b.position) {
            assert(supported(voxels, h, b.position));
            assert(resolved(b, last) == landed(b, h));
        } else {
            assert(!supported(voxels, h, b.position)) by {
                if supported(voxels, h, b.position) {
                    let i = choose|i: int|
                        0 <= i < voxels.len() && supports(#[trigger] voxels[i], h, b.position);
                    if i < rest.len() {
                        assert(rest[i] == voxels[i]);
                    }
                }
            }
            assert(resolved(b, last) == b);
        }
    }
}

/// Free fall: while the candidate of a tick stays at or above standing
/// height over level ground, the tick ends at the candidate, untouched by
/// any voxel.
pub proof fn lemma_falls_freely(b: Body, flying: bool, dt: int, voxels: Seq<Voxel>, h: i32)
    requires
        level_ground(voxels, h),
        candidate(b, flying, dt).position.y >= standing_height(h),
    ensures
        stepped(b, flying, dt, voxels) == candidate(b, flying, dt),
        clear_of(stepped(b, flying, dt, voxels).position, voxels),
{
    lemma_clear_above_ground(candidate(b, flying, dt), voxels, h);
}

/// Landing: when the candidate of a tick dips below standing height over
/// level ground, by less than the sideways reach and with ground under it,
/// the tick ends exactly at standing height with no vertical velocity,
/// overlapping no voxel. The horizontal part of the candidate is kept.
pub proof fn lemma_lands_on_level_ground(
    b: Body,
    flying: bool,
    dt: int,
    voxels: Seq<Voxel>,
    h: i32,
)
    requires
        level_ground(voxels, h),
        supported(voxels, h, candidate(b, flying, dt).position),
        standing_height(h) - REACH_SIDE <= candidate(b, flying, dt).position.y < standing_height(
            h,
        ),
    ensures
        stepped(b, flying, dt, voxels) == landed(candidate(b, flying, dt), h),
        stepped(b, flying, dt, voxels).position.y == standing_height(h),
        stepped(b, flying, dt, voxels).velocity.y == 0,
        clear_of(stepped(b, flying, dt, voxels).position, voxels),
{
    let c = candidate(b, flying, dt);
    lemma_settles(c, voxels, h);
    lemma_clear_above_ground(landed(c, h), voxels, h);
}

/// Rest is stable: a body that stands on level ground, with ground under
/// where it moves to, stands on it again after a tick under gravity. The
/// tick must be long enough for gravity to move the body by one step of
/// the fixed-point grid and short enough not to sink it into the ground by
/// more than the sideways reach.
pub proof fn lemma_rest_is_stable(b: Body, dt: int, voxels: Seq<Voxel>, h: i32)
    requires
        level_ground(voxels, h),
        b.position.y == standing_height(h),
        b.velocity.y == 0,
        224 <= dt <= 193_649,
        supported(voxels, h, candidate(b, false, dt).position),
    ensures
        stepped(b, false, dt, voxels) == landed(candidate(b, false, dt), h),
        stepped(b, false, dt, voxels).position.y == standing_height(h),
        stepped(b, false, dt, voxels).velocity.y == 0,
        clear_of(stepped(b, false, dt, voxels).position, voxels),
{
    let sink = (GRAVITY * dt * dt) / (MICRO as int);
    assert(1 <= sink <= REACH_SIDE) by (nonlinear_arith)
        requires
            sink == (20 * dt * dt) / 1_000_000,
            224 <= dt <= 193_649,
    ;
    assert(GRAVITY * dt * dt == (GRAVITY * dt) * dt) by (nonlinear_arith);
    assert(0 <= GRAVITY * dt <= 20 * 193_649) by (nonlinear_arith)
        requires
            224 <= dt <= 193_649,
    ;
    assert(fallen(b, dt).velocity.y == -(GRAVITY * dt));
    assert(travelled(-(GRAVITY * dt), dt) == -sink);
    lemma_lands_on_level_ground(b, false, dt, voxels, h);
}

/// The body after `n` ticks of `dt` microseconds under gravity in a world
/// of `voxels`.
pub open spec fn ticked(b: Body, dt: int, voxels: Seq<Voxel>, n: nat) -> Body
    decreases n,
{
    if n == 0 {
        b
    } else {
        stepped(ticked(b, dt, voxels, (n - 1) as nat), false, dt, voxels)
    }
}

/// Whether the body stands on the layer `h`: at standing height, without
/// vertical velocity.
pub open spec fn rests_on(b: Body, h: i32) -> bool {
    b.position.y == standing_height(h) && b.velocity.y == 0
}

/// A dropped body comes to rest. A body without horizontal velocity, at or
/// above standing height over level ground with ground under it, is after
/// `n` ticks under gravity either still in free fall, as if the world were
/// empty, and not below standing height, or it stands on the ground; once
/// it stands it goes on standing. So it stands as soon as free fall would
/// have taken it below standing height.
///
/// The ticks must be long enough for gravity to move a resting body by one
/// step of the fixed-point grid, and the fall must stay slow enough not to
/// carry the body further into the ground in one tick than the sideways
/// reach.
pub proof fn lemma_drop_comes_to_rest(b: Body, dt: int, voxels: Seq<Voxel>, h: i32, n: nat)
    requires
        level_ground(voxels, h),
        supported(voxels, h, b.position),
        b.velocity.x == 0,
        b.velocity.z == 0,
        b.velocity.y <= 0,
        b.position.y >= standing_height(h),
        224 <= dt <= 193_649,
        (GRAVITY * dt * n - b.velocity.y) * dt <= REACH_SIDE * MICRO,
    ensures
        ({
            let r = ticked(b, dt, voxels, n);
            let free = ticked(b, dt, Seq::empty(), n);
            &&& r.position.x == b.position.x
            &&& r.position.z == b.position.z
            &&& r.velocity.x == 0
            &&& r.velocity.z == 0
            &&& r.position.y >= standing_height(h)
            &&& clear_of(r.position, voxels)
            &&& rests_on(r, h) || (r == free && r.velocity.y == b.velocity.y - GRAVITY * dt * n)
            &&& free.position.y < standing_height(h) ==> rests_on(r, h)
        }),
    decreases n,
{
    let none = Seq::<Voxel>::empty();
    if n == 0 {
        lemma_clear_above_ground(b, voxels, h);
        assert(GRAVITY * dt * 0 == 0);
    } else {
        let k = (n - 1) as nat;
        assert(GRAVITY * dt * k >= 0 && GRAVITY * dt * n == GRAVITY * dt * k + GRAVITY * dt)
            by (nonlinear_arith)
            requires
                k == n - 1,
                k >= 0,
                dt >= 224,
        ;
        assert((GRAVITY * dt * k - b.velocity.y) * dt <= (GRAVITY * dt * n - b.velocity.y) * dt)
            by (nonlinear_arith)
            requires
                GRAVITY * dt * k <= GRAVITY * dt * n,
                dt >= 0,
        ;
        lemma_drop_comes_to_rest(b, dt, voxels, h, k);
        let before = ticked(b, dt, voxels, k);
        let c = candidate(before, false, dt);
        assert(travelled(0, dt) == 0);
        assert(supported(voxels, h, c.position)) by {
            let i = choose|i: int|
                0 <= i < voxels.len() && supports(#[trigger] voxels[i], h, b.position);
            assert(supports(voxels[i], h, c.position));
        }
        if rests_on(before, h) {
            lemma_rest_is_stable(before, dt, voxels, h);
        } else {
            let speed = GRAVITY * dt * n - b.velocity.y;
            assert(0 <= speed && speed * 224 <= speed * dt) by (nonlinear_arith)
                requires
                    speed == GRAVITY * dt * n - b.velocity.y,
                    GRAVITY * dt * n >= 0,
                    b.velocity.y <= 0,
                    dt >= 224,
            ;
            assert(fallen(before, dt).velocity.y == -speed);
            let sink = (speed * dt) / (MICRO as int);
            assert(0 <= sink <= REACH_SIDE) by (nonlinear_arith)
                requires
                    sink == (speed * dt) / 1_000_000,
                    0 <= speed * dt <= 750_000 * 1_000_000,
            ;
            assert(travelled(-speed, dt) == -sink);
            assert(c.position.y == before.position.y - sink);
            assert(stepped(before, false, dt, none) == c);
            if c.position.y >= standing_height(h) {
                lemma_falls_freely(before, false, dt, voxels, h);
            } else {
                lemma_lands_on_level_ground(before, false, dt, voxels, h);
            }
        }
    }
}

} // verus!
