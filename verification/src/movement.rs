//! The player: orientation, flight, jumping and the walking speed that
//! the held keys ask for.
//!
//! The controller works in the camera's own frame. It says along which of
//! eight headings the player walks and how fast. Where the camera looks on
//! the ground follows from the yaw by trigonometry, which is left to the
//! caller, who hands that direction to `steer`.

use vstd::prelude::*;
use crate::physics::Body;
use crate::physics::Vec3;
use crate::physics::physics_step;
use crate::physics::stepped;
use crate::steering::Ground;
use crate::steering::steer_along;
use crate::steering::steered;
use crate::units::magnitude;
use crate::units::saturate;
use crate::units::saturated;
use crate::world::VoxelWorld;

verus! {

/// Turn per thousandth of a pointer unit, in microradians: 0.002 radians
/// per whole unit.
pub const SENSITIVITY: i64 = 2;

/// Largest pitch up or down, in microradians.
pub const PITCH_LIMIT: i64 = 1_500_000;

/// Walking speed, in units per second. The velocity written for a tick is
/// this speed times the tick's length.
pub const BASE_SPEED: i64 = 200;

/// Factor on the walking speed while the sprint key is held.
pub const SPRINT_MULTIPLIER: i64 = 5;

/// Upward velocity that a jump gives.
pub const JUMP_IMPULSE: i64 = 10_000_000;

/// Two taps of the jump key closer together than this, in microseconds,
/// toggle flight.
pub const DOUBLE_TAP_WINDOW: u64 = 300_000;

/// Vertical speed below which the player counts as standing.
pub const GROUNDED_SPEED: i64 = 100_000;

/// Height at which the player enters the world.
pub const SPAWN_HEIGHT: i64 = 15_000_000;

/// One of the eight walking directions, relative to where the camera
/// looks.
#[derive(Clone, Copy, Debug, PartialEq, Eq, Structural)]
pub enum Heading {
    Forward,
    ForwardRight,
    Right,
    BackwardRight,
    Backward,
    BackwardLeft,
    Left,
    ForwardLeft,
}

/// Where the player is with respect to jumping.
#[derive(Clone, Copy, Debug, PartialEq, Eq, Structural)]
pub enum JumpState {
    /// Not flying, vertical speed near zero: a tap jumps.
    Grounded,
    /// Not flying, rising or falling.
    Airborne,
    /// Gravity is off; the keys set the vertical velocity.
    Flying,
}

/// The input of one tick: held keys, the jump key's edge, and the pointer
/// motion summed over the tick, in thousandths of a pointer unit.
#[derive(Clone, Copy, Debug, PartialEq, Eq, Structural)]
pub struct Controls {
    pub forward: bool,
    pub backward: bool,
    pub left: bool,
    pub right: bool,
    pub jump_held: bool,
    pub jump_tapped: bool,
    pub sprint: bool,
    pub descend: bool,
    pub look_x: i32,
    pub look_y: i32,
}

/// What the held movement keys ask for: a heading, if they name one, and
/// the speed along it.
#[derive(Clone, Copy, Debug, PartialEq, Eq, Structural)]
pub struct Motion {
    pub heading: Option<Heading>,
    pub speed: i64,
}

/// Everything that is known of a player at the end of a tick.
#[derive(Clone, Copy, Debug, PartialEq, Eq, Structural)]
pub struct Kinematics {
    pub body: Body,
    /// Turn about the vertical axis, in microradians.
    pub yaw: i64,
    /// Tilt up or down, in microradians.
    pub pitch: i64,
    pub flying: bool,
    /// Time of the last tap of the jump key, in microseconds.
    pub last_jump: Option<u64>,
}

/// The heading that the held movement keys name. A single key names its
/// own direction, two keys of different axes name the diagonal between
/// them, and every other combination names none.
pub open spec fn heading_of(forward: bool, backward: bool, right: bool, left: bool) -> Option<
    Heading,
> {
    if forward && !backward && !right && !left {
        Some(Heading::Forward)
    } else if !forward && backward && !right && !left {
        Some(Heading::Backward)
    } else if !forward && !backward && right && !left {
        Some(Heading::Right)
    } else if !forward && !backward && !right && left {
        Some(Heading::Left)
    } else if forward && !backward && right && !left {
        Some(Heading::ForwardRight)
    } else if forward && !backward && !right && left {
        Some(Heading::ForwardLeft)
    } else if !forward && backward && right && !left {
        Some(Heading::BackwardRight)
    } else if !forward && backward && !right && left {
        Some(Heading::BackwardLeft)
    } else {
        None
    }
}

/// Speed along a heading for a tick of `dt` microseconds.
pub open spec fn walk_speed(sprint: bool, dt: int) -> int {
    if sprint {
        BASE_SPEED * SPRINT_MULTIPLIER * dt
    } else {
        BASE_SPEED * dt
    }
}

/// What the controls ask for in a tick of `dt` microseconds.
pub open spec fn motion_of(c: Controls, dt: int) -> Motion {
    let heading = heading_of(c.forward, c.backward, c.right, c.left);
    Motion {
        heading,
        speed: if heading is Some {
            walk_speed(c.sprint, dt) as i64
        } else {
            0
        },
    }
}

/// The horizontal velocity that `motion` asks for, for a camera that looks
/// along `forward` on the ground.
pub open spec fn walking_velocity(forward: Ground, motion: Motion) -> (int, int) {
    match motion.heading {
        Some(heading) => steered(forward, heading, motion.speed as int),
        None => (0, 0),
    }
}

/// Whether a tap at `now` follows the last tap closely enough to count as
/// a double tap.
pub open spec fn double_tap(last: Option<u64>, now: u64) -> bool {
    last matches Some(t) && now - t < DOUBLE_TAP_WINDOW
}

/// Whether this tick's input toggles flight.
pub open spec fn toggles_flight(k: Kinematics, c: Controls, now: u64) -> bool {
    c.jump_tapped && double_tap(k.last_jump, now)
}

/// `pitch` held within the pitch limit.
pub open spec fn clamped_pitch(pitch: int) -> int {
    if pitch < -PITCH_LIMIT {
        -PITCH_LIMIT as int
    } else if pitch > PITCH_LIMIT {
        PITCH_LIMIT as int
    } else {
        pitch
    }
}

/// Where a player of vertical velocity `vy` is with respect to jumping.
pub open spec fn jump_state_of(flying: bool, vy: int) -> JumpState {
    if flying {
        JumpState::Flying
    } else if magnitude(vy) < GROUNDED_SPEED {
        JumpState::Grounded
    } else {
        JumpState::Airborne
    }
}

/// Vertical velocity in flight: up while jump is held, else down while
/// descend is held, else none.
pub open spec fn flight_velocity(c: Controls, dt: int) -> int {
    if c.jump_held {
        BASE_SPEED * dt
    } else if c.descend {
        -(BASE_SPEED * dt)
    } else {
        0
    }
}

/// Vertical velocity after this tick's input.
///
/// The tick that enters flight zeroes the vertical velocity, whatever is
/// held. A player who was in flight when the tick began, the tick that
/// leaves flight included, gets the velocity that the flight keys ask for.
/// On foot a tap of the jump key gives the jump impulse if the player
/// stands; otherwise the velocity is kept.
pub open spec fn vertical_velocity(k: Kinematics, c: Controls, now: u64, dt: int) -> int {
    if k.flying {
        flight_velocity(c, dt)
    } else if toggles_flight(k, c, now) {
        0
    } else if c.jump_tapped && jump_state_of(false, k.body.velocity.y as int)
        == JumpState::Grounded {
        JUMP_IMPULSE as int
    } else {
        k.body.velocity.y as int
    }
}

/// The player after this tick's input, before `steer` and before physics
/// runs.
pub open spec fn controlled(k: Kinematics, c: Controls, now: u64, dt: int) -> Kinematics {
    Kinematics {
        body: Body {
            position: k.body.position,
            velocity: Vec3 { x: 0, y: vertical_velocity(k, c, now, dt) as i64, z: 0 },
        },
        yaw: saturated(k.yaw - SENSITIVITY * c.look_x) as i64,
        pitch: clamped_pitch(k.pitch - SENSITIVITY * c.look_y) as i64,
        flying: k.flying != toggles_flight(k, c, now),
        last_jump: if c.jump_tapped {
            Some(now)
        } else {
            k.last_jump
        },
    }
}

impl Heading {
    /// The heading as whole steps along the camera's forward and right
    /// directions.
    pub open spec fn steps(self) -> (int, int) {
        match self {
            Heading::Forward => (1, 0),
            Heading::ForwardRight => (1, 1),
            Heading::Right => (0, 1),
            Heading::BackwardRight => (-1, 1),
            Heading::Backward => (-1, 0),
            Heading::BackwardLeft => (-1, -1),
            Heading::Left => (0, -1),
            Heading::ForwardLeft => (1, -1),
        }
    }

    /// The heading as whole steps along the camera's forward and right
    /// directions. The direction of travel is the unit vector along their
    /// sum.
    pub fn components(self) -> (r: (i8, i8))
        ensures
            (r.0 as int, r.1 as int) == self.steps(),
    {
        match self {
            Heading::Forward => (1, 0),
            Heading::ForwardRight => (1, 1),
            Heading::Right => (0, 1),
            Heading::BackwardRight => (-1, 1),
            Heading::Backward => (-1, 0),
            Heading::BackwardLeft => (-1, -1),
            Heading::Left => (0, -1),
            Heading::ForwardLeft => (1, -1),
        }
    }
}

/// The heading that the held movement keys name.
pub fn heading(forward: bool, backward: bool, right: bool, left: bool) -> (r: Option<Heading>)
    ensures
        r == heading_of(forward, backward, right, left),
{
    if forward && backward || right && left {
        None
    } else if forward {
        if right {
            Some(Heading::ForwardRight)
        } else if left {
            Some(Heading::ForwardLeft)
        } else {
            Some(Heading::Forward)
        }
    } else if backward {
        if right {
            Some(Heading::BackwardRight)
        } else if left {
            Some(Heading::BackwardLeft)
        } else {
            Some(Heading::Backward)
        }
    } else if right {
        Some(Heading::Right)
    } else if left {
        Some(Heading::Left)
    } else {
        None
    }
}

/// What the controls ask for in a tick of `dt` microseconds: the heading
/// that the movement keys name and the speed along it, which is the same
/// for every heading.
pub fn plan_motion(controls: &Controls, dt: u32) -> (r: Motion)
    ensures
        r == motion_of(*controls, dt as int),
        r.heading is Some ==> r.speed == walk_speed(controls.sprint, dt as int),
{
    let way: Option<Heading> = heading(
        controls.forward,
        controls.backward,
        controls.right,
        controls.left,
    );
    let span: i64 = dt as i64;
    let rate: i64 = if controls.sprint {
        BASE_SPEED * SPRINT_MULTIPLIER
    } else {
        BASE_SPEED
    };
    assert(0 <= rate * span <= 1000 * 0xffff_ffff) by (nonlinear_arith)
        requires
            0 <= rate <= 1000,
            0 <= span <= 0xffff_ffff,
    ;
    assert(BASE_SPEED * SPRINT_MULTIPLIER * span == (BASE_SPEED * SPRINT_MULTIPLIER) * span);
    let speed: i64 = match way {
        Some(_) => rate * span,
        None => 0,
    };
    Motion { heading: way, speed }
}

/// The player.
///
/// The pitch of a player never leaves the range from `-PITCH_LIMIT` to
/// `PITCH_LIMIT`.
pub struct PlayerState {
    body: Body,
    yaw: i64,
    pitch: i64,
    flying: bool,
    last_jump: Option<u64>,
}

impl View for PlayerState {
    type V = Kinematics;

    closed spec fn view(&self) -> Kinematics {
        Kinematics {
            body: self.body,
            yaw: self.yaw,
            pitch: self.pitch,
            flying: self.flying,
            last_jump: self.last_jump,
        }
    }
}

impl PlayerState {
    /// Validity of a player: the pitch is within the limit. Every player
    /// in hand is valid.
    #[verifier::type_invariant]
    pub open spec fn wf(self) -> bool {
        -PITCH_LIMIT <= self@.pitch <= PITCH_LIMIT
    }

    /// A player at rest at `position`, looking straight ahead, on foot.
    pub fn spawn(position: Vec3) -> (r: PlayerState)
        ensures
            r@ == (Kinematics {
                body: Body { position, velocity: Vec3 { x: 0, y: 0, z: 0 } },
                yaw: 0,
                pitch: 0,
                flying: false,
                last_jump: None,
            }),
    {
        PlayerState {
            body: Body { position, velocity: Vec3 { x: 0, y: 0, z: 0 } },
            yaw: 0,
            pitch: 0,
            flying: false,
            last_jump: None,
        }
    }

    /// A player in the given state, if its pitch is within the limit.
    pub fn restore(state: Kinematics) -> (r: Option<PlayerState>)
        ensures
            r is Some <==> -PITCH_LIMIT <= state.pitch <= PITCH_LIMIT,
            r matches Some(p) ==> p@ == state,
    {
        if -PITCH_LIMIT <= state.pitch && state.pitch <= PITCH_LIMIT {
            Some(
                PlayerState {
                    body: state.body,
                    yaw: state.yaw,
                    pitch: state.pitch,
                    flying: state.flying,
                    last_jump: state.last_jump,
                },
            )
        } else {
            None
        }
    }

    /// The player's state. Its pitch is within the limit.
    pub fn snapshot(&self) -> (r: Kinematics)
        ensures
            r == self@,
            -PITCH_LIMIT <= r.pitch <= PITCH_LIMIT,
    {
        proof {
            use_type_invariant(self);
        }
        Kinematics {
            body: self.body,
            yaw: self.yaw,
            pitch: self.pitch,
            flying: self.flying,
            last_jump: self.last_jump,
        }
    }

    /// Position of the centre of the player's box.
    pub fn position(&self) -> (r: Vec3)
        ensures
            r == self@.body.position,
    {
        self.body.position
    }

    /// Velocity of the player.
    pub fn velocity(&self) -> (r: Vec3)
        ensures
            r == self@.body.velocity,
    {
        self.body.velocity
    }

    /// Turn about the vertical axis, in microradians.
    pub fn yaw(&self) -> (r: i64)
        ensures
            r == self@.yaw,
    {
        self.yaw
    }

    /// Tilt up or down, in microradians; never beyond the pitch limit.
    pub fn pitch(&self) -> (r: i64)
        ensures
            r == self@.pitch,
            -PITCH_LIMIT <= r <= PITCH_LIMIT,
    {
        proof {
            use_type_invariant(self);
        }
        self.pitch
    }

    /// Whether the player flies.
    pub fn is_flying(&self) -> (r: bool)
        ensures
            r == self@.flying,
    {
        self.flying
    }

    /// Where the player is with respect to jumping.
    pub fn jump_state(&self) -> (r: JumpState)
        ensures
            r == jump_state_of(self@.flying, self@.body.velocity.y as int),
    {
        if self.flying {
            JumpState::Flying
        } else if -GROUNDED_SPEED < self.body.velocity.y && self.body.velocity.y < GROUNDED_SPEED {
            JumpState::Grounded
        } else {
            JumpState::Airborne
        }
    }

    /// Turns the camera by the pointer motion of a tick, given in
    /// thousandths of a pointer unit. The pitch stops at the limit.
    pub fn look(&mut self, look_x: i32, look_y: i32)
        ensures
            final(self)@ == (Kinematics {
                yaw: saturated(old(self)@.yaw - SENSITIVITY * look_x) as i64,
                pitch: clamped_pitch(old(self)@.pitch - SENSITIVITY * look_y) as i64,
                ..old(self)@
            }),
            -PITCH_LIMIT <= final(self)@.pitch <= PITCH_LIMIT,
    {
        proof {
            use_type_invariant(&*self);
        }
        let rate: i64 = SENSITIVITY;
        assert(rate == 2);
        let turn: i128 = self.yaw as i128 - (rate * look_x as i64) as i128;
        let tilt: i64 = self.pitch - rate * look_y as i64;
        self.yaw = saturate(turn);
        self.pitch = if tilt < -PITCH_LIMIT {
            -PITCH_LIMIT
        } else if tilt > PITCH_LIMIT {
            PITCH_LIMIT
        } else {
            tilt
        };
    }

    /// Takes the input of one tick, at time `now` and for a tick of `dt`
    /// microseconds.
    ///
    /// A tap of the jump key within the double-tap window of the last tap
    /// toggles flight; the camera turns; the vertical velocity is zeroed
    /// on entering flight, follows the flight keys in flight, and takes
    /// the jump impulse on a tap on the ground; the horizontal velocity is
    /// cleared. The result says along which heading and how fast the
    /// player walks.
    pub fn control(&mut self, controls: &Controls, now: u64, dt: u32) -> (motion: Motion)
        ensures
            final(self)@ == controlled(old(self)@, *controls, now, dt as int),
            motion == motion_of(*controls, dt as int),
            -PITCH_LIMIT <= final(self)@.pitch <= PITCH_LIMIT,
    {
        proof {
            use_type_invariant(&*self);
        }
        let span: i64 = dt as i64;
        let rise: i64 = BASE_SPEED * span;
        let mut toggled: bool = false;
        if controls.jump_tapped {
            match self.last_jump {
                Some(t) => {
                    if now < t || now - t < DOUBLE_TAP_WINDOW {
                        toggled = true;
                    }
                },
                None => {},
            }
            self.last_jump = Some(now);
        }
        let grounded: bool = -GROUNDED_SPEED < self.body.velocity.y && self.body.velocity.y
            < GROUNDED_SPEED;
        let was_flying: bool = self.flying;
        if toggled {
            self.flying = !was_flying;
        }
        self.look(controls.look_x, controls.look_y);
        if was_flying {
            if controls.jump_held {
                self.body.velocity.y = rise;
            } else if controls.descend {
                self.body.velocity.y = -rise;
            } else {
                self.body.velocity.y = 0;
            }
        } else if toggled {
            self.body.velocity.y = 0;
        } else if controls.jump_tapped && grounded {
            self.body.velocity.y = JUMP_IMPULSE;
        }
        self.body.velocity.x = 0;
        self.body.velocity.z = 0;
        plan_motion(controls, dt)
    }

    /// Sets the horizontal velocity to what `motion` asks for, for a camera
    /// that looks along `forward` on the ground: the speed along the
    /// heading, or none without a heading.
    pub fn steer(&mut self, forward: Ground, motion: &Motion)
        ensures
            final(self)@ == (Kinematics {
                body: Body {
                    position: old(self)@.body.position,
                    velocity: Vec3 {
                        x: walking_velocity(forward, *motion).0 as i64,
                        y: old(self)@.body.velocity.y,
                        z: walking_velocity(forward, *motion).1 as i64,
                    },
                },
                ..old(self)@
            }),
    {
        proof {
            use_type_invariant(&*self);
        }
        match motion.heading {
            Some(heading) => {
                let (vx, vz) = steer_along(forward, heading, motion.speed);
                self.body.velocity.x = vx;
                self.body.velocity.z = vz;
            },
            None => {
                self.body.velocity.x = 0;
                self.body.velocity.z = 0;
            },
        }
    }

    /// Runs one tick of physics on the player: gravity unless the player
    /// flies, the move, and collision with every voxel of the world.
    pub fn physics_step(&mut self, world: &VoxelWorld, dt: u32)
        ensures
            final(self)@ == (Kinematics {
                body: stepped(old(self)@.body, old(self)@.flying, dt as int, world@),
                ..old(self)@
            }),
    {
        proof {
            use_type_invariant(&*self);
        }
        let mut body: Body = self.body;
        physics_step(&mut body, world, self.flying, dt);
        self.body = body;
    }
}

/// The walking speed does not depend on the heading: a diagonal is walked
/// as fast as a straight line. Two sets of controls that both name a
/// heading, with the same sprint key, ask for the same speed.
pub proof fn lemma_speed_ignores_heading(a: Controls, b: Controls, dt: int)
    requires
        motion_of(a, dt).heading is Some,
        motion_of(b, dt).heading is Some,
        a.sprint == b.sprint,
    ensures
        motion_of(a, dt).speed == motion_of(b, dt).speed,
{
}

/// Opposite keys cancel, and three or four movement keys name no heading:
/// the player then stands still.
pub proof fn lemma_conflicting_keys_stop(c: Controls, dt: int)
    requires
        (c.forward && c.backward) || (c.left && c.right),
    ensures
        motion_of(c, dt).heading is None,
        motion_of(c, dt).speed == 0,
{
}

/// The pitch stays within the limit whatever the pointer does.
pub proof fn lemma_pitch_stays_in_range(k: Kinematics, c: Controls, now: u64, dt: int)
    ensures
        -PITCH_LIMIT <= controlled(k, c, now, dt).pitch <= PITCH_LIMIT,
{
}

/// Two taps of the jump key, with anything in between that leaves the
/// flight flag and the time of the last tap alone.
///
/// If the second tap comes a full double-tap window or more after the
/// first, it does not toggle flight, and on foot and standing it gives the
/// jump impulse, as the first did. If it comes sooner, it toggles flight
/// and gives no jump impulse: entering flight, the vertical velocity is
/// zero whatever is held; leaving flight, the flight keys set it one last
/// time.
pub proof fn lemma_double_tap(
    before: Kinematics,
    first: Controls,
    t1: u64,
    dt1: int,
    between: Kinematics,
    second: Controls,
    t2: u64,
    dt2: int,
)
    requires
        first.jump_tapped,
        second.jump_tapped,
        t1 <= t2,
        between.flying == controlled(before, first, t1, dt1).flying,
        between.last_jump == controlled(before, first, t1, dt1).last_jump,
    ensures
        t2 - t1 >= DOUBLE_TAP_WINDOW ==> {
            let after = controlled(between, second, t2, dt2);
            &&& after.flying == between.flying
            &&& jump_state_of(between.flying, between.body.velocity.y as int)
                == JumpState::Grounded ==> after.body.velocity.y == JUMP_IMPULSE
        },
        t2 - t1 < DOUBLE_TAP_WINDOW ==> {
            let after = controlled(between, second, t2, dt2);
            &&& after.flying == !between.flying
            &&& after.flying ==> after.body.velocity.y == 0
            &&& !after.flying ==> after.body.velocity.y == flight_velocity(second, dt2) as i64
        },
{
}

/// Flight changes with a double tap only: without a tap of the jump key
/// the player goes on flying or goes on walking, and the time of the last
/// tap stays.
pub proof fn lemma_flight_needs_a_tap(k: Kinematics, c: Controls, now: u64, dt: int)
    requires
        !c.jump_tapped,
    ensures
        controlled(k, c, now, dt).flying == k.flying,
        controlled(k, c, now, dt).last_jump == k.last_jump,
        !k.flying ==> controlled(k, c, now, dt).body.velocity.y == k.body.velocity.y,
{
}

/// A single tap on foot, with no tap within the double-tap window before
/// it, jumps if the player stands and changes nothing about the vertical
/// velocity if the player is in the air.
pub proof fn lemma_single_tap(k: Kinematics, c: Controls, now: u64, dt: int)
    requires
        c.jump_tapped,
        !k.flying,
        !double_tap(k.last_jump, now),
    ensures
        !controlled(k, c, now, dt).flying,
        controlled(k, c, now, dt).last_jump == Some(now),
        magnitude(k.body.velocity.y as int) < GROUNDED_SPEED ==> controlled(
            k,
            c,
            now,
            dt,
        ).body.velocity.y == JUMP_IMPULSE,
        magnitude(k.body.velocity.y as int) >= GROUNDED_SPEED ==> controlled(
            k,
            c,
            now,
            dt,
        ).body.velocity.y == k.body.velocity.y,
{
}

} // verus!
