//! The game's single moving entity and its per-tick kinematics: thrust
//! from the sampled input, integration with a speed clamp, screen
//! wrapping, and a timed lifespan.
//!
//! Within one logical tick the host loop must sample input before
//! [`player_handle_input`], which must run before
//! [`update_actor_position`], which must run before
//! [`wrap_actor_position`]; [`tick_player`] packages the three in that
//! order.

use vstd::prelude::*;

verus! {

use crate::fixed::SCALE;
use crate::fixed::add_scaled;
use crate::fixed::lemma_mul_scale_bound;
use crate::fixed::mul_scale;
use crate::input::InputState;
use crate::vec2::Vec2;
use crate::vec2::clamp_norm;
use crate::vec2::clamped_x;
use crate::vec2::clamped_y;
use crate::vec2::lemma_norm_component_bound;
use crate::vec2::norm_sq;

/// What an actor is; the only inhabitant today is the player, but the tag
/// leaves room for further kinds.
#[derive(Clone, Copy, Debug, PartialEq, Eq, Structural)]
pub enum ActorType {
    Player,
}

/// A moving entity: a position and facing angle, linear and angular
/// velocity, a bounding radius for collision queries, and a remaining
/// lifespan in seconds. All fields are fixed-point counts (see
/// [`crate::fixed::SCALE`]); angles are in radians.
#[derive(Clone, Copy, Debug, PartialEq, Eq, Structural)]
pub struct Actor {
    pub tag: ActorType,
    pub pos: Vec2,
    pub facing: i64,
    pub velocity: Vec2,
    pub ang_vel: i64,
    pub bbox: i64,
    pub life: i64,
}

/// Starting lifespan of the player: one second.
pub const PLAYER_LIFE: i64 = SCALE;

/// Bounding radius of the player, in fixed-point units.
pub const PLAYER_BBOX: i64 = 12 * SCALE;

/// Acceleration from thrust, in fixed-point units per second per second.
pub const PLAYER_THRUST: i64 = 100 * SCALE;

/// Maximum speed a velocity may have after integration, in fixed-point
/// units per second.
pub const MAX_PHYSICS_VEL: i64 = 250 * SCALE;

/// A velocity component after one tick of thrust along `axis`:
/// `v + axis * PLAYER_THRUST * dt`.
pub open spec fn thrust_v(v: int, axis: int, dt: int) -> int {
    v + mul_scale(axis * (PLAYER_THRUST as int), dt)
}

/// One coordinate after the single-step screen wrap for extent `s`: a
/// coordinate beyond the half-extent `s / 2` is brought back by one full
/// extent. The step is applied once, not as a modulo: a coordinate more
/// than one extent out is not wrapped onto the screen in one call.
pub open spec fn wrap_coord(x: int, s: int) -> int {
    if x > s / 2 {
        x - s
    } else if x < -(s / 2) {
        x + s
    } else {
        x
    }
}

/// A fresh player: at the origin, at rest, facing straight up.
pub fn create_player() -> (a: Actor)
    ensures
        a.tag == ActorType::Player,
        a.pos.x == 0,
        a.pos.y == 0,
        a.facing == 0,
        a.velocity.x == 0,
        a.velocity.y == 0,
        a.ang_vel == 0,
        a.bbox == PLAYER_BBOX,
        a.life == PLAYER_LIFE,
{
    Actor {
        tag: ActorType::Player,
        pos: Vec2::zero(),
        facing: 0,
        velocity: Vec2::zero(),
        ang_vel: 0,
        bbox: PLAYER_BBOX,
        life: PLAYER_LIFE,
    }
}

/// Apply one tick of keyboard thrust: each axis adds
/// `axis * PLAYER_THRUST * dt` to the matching velocity component. The
/// input vector is not normalized, so diagonal input accelerates faster
/// than axis-aligned input by a factor of root two — kept exactly as the
/// game behaves, though a candidate for a fix.
pub fn player_handle_input(actor: &mut Actor, input: &InputState, dt: i64)
    requires
        dt > 0,
        input.wf(),
        i64::MIN <= thrust_v(old(actor).velocity.x as int, input.xaxis as int, dt as int)
            <= i64::MAX,
        i64::MIN <= thrust_v(old(actor).velocity.y as int, input.yaxis as int, dt as int)
            <= i64::MAX,
    ensures
        final(actor).velocity.x == thrust_v(
            old(actor).velocity.x as int,
            input.xaxis as int,
            dt as int,
        ),
        final(actor).velocity.y == thrust_v(
            old(actor).velocity.y as int,
            input.yaxis as int,
            dt as int,
        ),
        final(actor).pos == old(actor).pos,
        final(actor).tag == old(actor).tag,
        final(actor).facing == old(actor).facing,
        final(actor).ang_vel == old(actor).ang_vel,
        final(actor).bbox == old(actor).bbox,
        final(actor).life == old(actor).life,
{
    let ax: i64 = (input.xaxis as i64) * PLAYER_THRUST;
    let ay: i64 = (input.yaxis as i64) * PLAYER_THRUST;
    actor.velocity.x = add_scaled(actor.velocity.x, ax, dt);
    actor.velocity.y = add_scaled(actor.velocity.y, ay, dt);
}

/// Advance one fixed timestep: tie the velocity to `MAX_PHYSICS_VEL`,
/// move the position by `velocity * dt`, and turn by the angular
/// velocity. The facing accumulates `ang_vel` directly, without `dt`
/// scaling — a latent unit inconsistency kept exactly as the game
/// behaves.
pub fn update_actor_position(actor: &mut Actor, dt: i64)
    requires
        dt > 0,
        old(actor).pos.x - mul_scale(MAX_PHYSICS_VEL as int, dt as int) >= i64::MIN,
        old(actor).pos.x + mul_scale(MAX_PHYSICS_VEL as int, dt as int) <= i64::MAX,
        old(actor).pos.y - mul_scale(MAX_PHYSICS_VEL as int, dt as int) >= i64::MIN,
        old(actor).pos.y + mul_scale(MAX_PHYSICS_VEL as int, dt as int) <= i64::MAX,
        i64::MIN <= old(actor).facing + old(actor).ang_vel <= i64::MAX,
    ensures
        final(actor).velocity.x == clamped_x(
            old(actor).velocity.x as int,
            old(actor).velocity.y as int,
            MAX_PHYSICS_VEL as int,
        ),
        final(actor).velocity.y == clamped_y(
            old(actor).velocity.x as int,
            old(actor).velocity.y as int,
            MAX_PHYSICS_VEL as int,
        ),
        norm_sq(final(actor).velocity.x as int, final(actor).velocity.y as int)
            <= (MAX_PHYSICS_VEL as int) * (MAX_PHYSICS_VEL as int),
        final(actor).pos.x == old(actor).pos.x + mul_scale(
            final(actor).velocity.x as int,
            dt as int,
        ),
        final(actor).pos.y == old(actor).pos.y + mul_scale(
            final(actor).velocity.y as int,
            dt as int,
        ),
        final(actor).facing == old(actor).facing + old(actor).ang_vel,
        final(actor).tag == old(actor).tag,
        final(actor).ang_vel == old(actor).ang_vel,
        final(actor).bbox == old(actor).bbox,
        final(actor).life == old(actor).life,
{
    actor.velocity = clamp_norm(actor.velocity, MAX_PHYSICS_VEL);
    proof {
        lemma_norm_component_bound(
            actor.velocity.x as int,
            actor.velocity.y as int,
            MAX_PHYSICS_VEL as int,
        );
        lemma_mul_scale_bound(actor.velocity.x as int, dt as int, MAX_PHYSICS_VEL as int);
        lemma_mul_scale_bound(actor.velocity.y as int, dt as int, MAX_PHYSICS_VEL as int);
    }
    actor.pos.x = add_scaled(actor.pos.x, actor.velocity.x, dt);
    actor.pos.y = add_scaled(actor.pos.y, actor.velocity.y, dt);
    actor.facing = actor.facing + actor.ang_vel;
}

/// Wrap the position back towards the screen: the world is centred on
/// the origin with half-extents `sx / 2` and `sy / 2`, and a coordinate
/// beyond a half-extent is moved one full extent back, each axis
/// independently. One step only — an actor that crossed more than a
/// whole screen in one tick stays off screen this call.
pub fn wrap_actor_position(actor: &mut Actor, sx: i64, sy: i64)
    requires
        sx > 0,
        sy > 0,
    ensures
        final(actor).pos.x == wrap_coord(old(actor).pos.x as int, sx as int),
        final(actor).pos.y == wrap_coord(old(actor).pos.y as int, sy as int),
        final(actor).velocity == old(actor).velocity,
        final(actor).tag == old(actor).tag,
        final(actor).facing == old(actor).facing,
        final(actor).ang_vel == old(actor).ang_vel,
        final(actor).bbox == old(actor).bbox,
        final(actor).life == old(actor).life,
{
    let half_x: i64 = ((sx as u64) / 2) as i64;
    let half_y: i64 = ((sy as u64) / 2) as i64;
    if actor.pos.x > half_x {
        actor.pos.x = actor.pos.x - sx;
    } else if actor.pos.x < -half_x {
        actor.pos.x = actor.pos.x + sx;
    }
    if actor.pos.y > half_y {
        actor.pos.y = actor.pos.y - sy;
    } else if actor.pos.y < -half_y {
        actor.pos.y = actor.pos.y + sy;
    }
}

/// A position already within the screen bounds is a fixed point of the
/// wrap: wrapping it once — and so twice in succession — changes
/// nothing.
pub proof fn lemma_wrap_coord_idempotent_in_bounds(x: int, s: int)
    requires
        s > 0,
        -(s / 2) <= x <= s / 2,
    ensures
        wrap_coord(x, s) == x,
        wrap_coord(wrap_coord(x, s), s) == x,
{
}

/// Spend `dt` seconds of the actor's lifespan. Nothing happens when the
/// lifespan crosses zero; despawning an expired actor is an external
/// concern.
pub fn handle_timed_life(actor: &mut Actor, dt: i64)
    requires
        dt > 0,
        old(actor).life - dt >= i64::MIN,
    ensures
        final(actor).life == old(actor).life - dt,
        final(actor).pos == old(actor).pos,
        final(actor).velocity == old(actor).velocity,
        final(actor).tag == old(actor).tag,
        final(actor).facing == old(actor).facing,
        final(actor).ang_vel == old(actor).ang_vel,
        final(actor).bbox == old(actor).bbox,
{
    actor.life = actor.life - dt;
}

/// Translate a world position (origin at the screen centre, y growing
/// up) to screen coordinates (origin at the top-left corner, y growing
/// down).
pub fn world_to_screen_coords(screen_width: i64, screen_height: i64, point: Vec2) -> (r: Vec2)
    requires
        screen_width > 0,
        screen_height > 0,
        point.x + screen_width / 2 <= i64::MAX,
        point.y + screen_height / 2 <= i64::MAX,
        i64::MIN <= screen_height - (point.y + screen_height / 2) <= i64::MAX,
    ensures
        r.x == point.x + (screen_width as int) / 2,
        r.y == screen_height - (point.y + (screen_height as int) / 2),
{
    let half_w: i64 = ((screen_width as u64) / 2) as i64;
    let half_h: i64 = ((screen_height as u64) / 2) as i64;
    Vec2 { x: point.x + half_w, y: screen_height - (point.y + half_h) }
}

/// One whole logical tick, in the order the frame loop performs it:
/// thrust from the sampled input, then integration with the speed clamp,
/// then the screen wrap.
pub fn tick_player(actor: &mut Actor, input: &InputState, dt: i64, sx: i64, sy: i64)
    requires
        dt > 0,
        sx > 0,
        sy > 0,
        input.wf(),
        i64::MIN <= thrust_v(old(actor).velocity.x as int, input.xaxis as int, dt as int)
            <= i64::MAX,
        i64::MIN <= thrust_v(old(actor).velocity.y as int, input.yaxis as int, dt as int)
            <= i64::MAX,
        old(actor).pos.x - mul_scale(MAX_PHYSICS_VEL as int, dt as int) >= i64::MIN,
        old(actor).pos.x + mul_scale(MAX_PHYSICS_VEL as int, dt as int) <= i64::MAX,
        old(actor).pos.y - mul_scale(MAX_PHYSICS_VEL as int, dt as int) >= i64::MIN,
        old(actor).pos.y + mul_scale(MAX_PHYSICS_VEL as int, dt as int) <= i64::MAX,
        i64::MIN <= old(actor).facing + old(actor).ang_vel <= i64::MAX,
    ensures
        final(actor).velocity.x == clamped_x(
            thrust_v(old(actor).velocity.x as int, input.xaxis as int, dt as int),
            thrust_v(old(actor).velocity.y as int, input.yaxis as int, dt as int),
            MAX_PHYSICS_VEL as int,
        ),
        final(actor).velocity.y == clamped_y(
            thrust_v(old(actor).velocity.x as int, input.xaxis as int, dt as int),
            thrust_v(old(actor).velocity.y as int, input.yaxis as int, dt as int),
            MAX_PHYSICS_VEL as int,
        ),
        norm_sq(final(actor).velocity.x as int, final(actor).velocity.y as int)
            <= (MAX_PHYSICS_VEL as int) * (MAX_PHYSICS_VEL as int),
        final(actor).pos.x == wrap_coord(
            old(actor).pos.x + mul_scale(final(actor).velocity.x as int, dt as int),
            sx as int,
        ),
        final(actor).pos.y == wrap_coord(
            old(actor).pos.y + mul_scale(final(actor).velocity.y as int, dt as int),
            sy as int,
        ),
        final(actor).facing == old(actor).facing + old(actor).ang_vel,
        final(actor).tag == old(actor).tag,
        final(actor).ang_vel == old(actor).ang_vel,
        final(actor).bbox == old(actor).bbox,
        final(actor).life == old(actor).life,
{
    player_handle_input(actor, input, dt);
    update_actor_position(actor, dt);
    wrap_actor_position(actor, sx, sy);
}

} // verus!
