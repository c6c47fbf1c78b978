//! End-to-end checks of the actor kinematics on concrete values. All
//! quantities are fixed-point counts of one millionth of a unit.

use pewpew::entity::create_player;
use pewpew::entity::handle_timed_life;
use pewpew::entity::player_handle_input;
use pewpew::entity::tick_player;
use pewpew::entity::update_actor_position;
use pewpew::entity::world_to_screen_coords;
use pewpew::entity::wrap_actor_position;
use pewpew::entity::ActorType;
use pewpew::entity::MAX_PHYSICS_VEL;
use pewpew::entity::PLAYER_BBOX;
use pewpew::entity::PLAYER_LIFE;
use pewpew::input::key_down_event;
use pewpew::input::InputState;
use pewpew::input::Key;
use pewpew::vec2::Vec2;

/// One tick of rightward thrust at 60 Hz: 100 * 1/60 of a unit per
/// second, about 1.667, lands on the velocity's x component unclamped.
#[test]
fn thrust_one_tick_at_sixty_hz() {
    let mut actor = create_player();
    let mut input = InputState::default();
    let quit = key_down_event(&mut input, Key::D);
    assert!(!quit);
    player_handle_input(&mut actor, &input, 16_667);
    assert_eq!(actor.velocity.x, 1_666_700);
    assert_eq!(actor.velocity.y, 0);
    assert_eq!(actor.pos.x, 0);
    assert_eq!(actor.pos.y, 0);
}

/// A velocity of (300, 0) entering the integrator is clamped to exactly
/// (250, 0).
#[test]
fn clamp_exact_overspeed() {
    let mut actor = create_player();
    actor.velocity = Vec2 { x: 300_000_000, y: 0 };
    update_actor_position(&mut actor, 16_667);
    assert_eq!(actor.velocity.x, 250_000_000);
    assert_eq!(actor.velocity.y, 0);
    assert_eq!(actor.pos.x, 4_166_750);
    assert_eq!(actor.pos.y, 0);
}

/// The clamp respects signs: (-300, 0) becomes (-250, 0).
#[test]
fn clamp_negative_component() {
    let mut actor = create_player();
    actor.velocity = Vec2 { x: -300_000_000, y: 0 };
    update_actor_position(&mut actor, 16_667);
    assert_eq!(actor.velocity.x, -250_000_000);
    assert_eq!(actor.velocity.y, 0);
}

/// A 3-4-5 overspeed is rescaled exactly onto the 250 circle: (300, 400)
/// has magnitude 500 and becomes (150, 200), of magnitude exactly 250.
#[test]
fn clamp_diagonal_three_four_five() {
    let mut actor = create_player();
    actor.velocity = Vec2 { x: 300_000_000, y: 400_000_000 };
    update_actor_position(&mut actor, 16_667);
    assert_eq!(actor.velocity.x, 150_000_000);
    assert_eq!(actor.velocity.y, 200_000_000);
}

/// A velocity below the limit passes through the integrator unchanged.
#[test]
fn clamp_below_limit_unchanged() {
    let mut actor = create_player();
    actor.velocity = Vec2 { x: 100_000_000, y: -50_000_000 };
    update_actor_position(&mut actor, 16_667);
    assert_eq!(actor.velocity.x, 100_000_000);
    assert_eq!(actor.velocity.y, -50_000_000);
}

/// When the magnitude is not a perfect square the clamp rounds towards
/// zero, and the result stays within the speed limit.
#[test]
fn clamp_rounds_within_limit() {
    let mut actor = create_player();
    actor.velocity = Vec2 { x: 300_000_000, y: 100_000_000 };
    update_actor_position(&mut actor, 16_667);
    assert_eq!(actor.velocity.x, 237_170_823);
    assert_eq!(actor.velocity.y, 79_056_941);
    let vx = i128::from(actor.velocity.x);
    let vy = i128::from(actor.velocity.y);
    let m = i128::from(MAX_PHYSICS_VEL);
    assert!(vx * vx + vy * vy <= m * m);
}

/// Zero velocity is a fixed point of the integrator: no division by the
/// magnitude is attempted and the position stays put.
#[test]
fn integrate_at_rest() {
    let mut actor = create_player();
    update_actor_position(&mut actor, 16_667);
    assert_eq!(actor.velocity.x, 0);
    assert_eq!(actor.velocity.y, 0);
    assert_eq!(actor.pos.x, 0);
    assert_eq!(actor.pos.y, 0);
}

/// The facing angle accumulates the angular velocity once per tick,
/// without timestep scaling.
#[test]
fn facing_accumulates_angular_velocity() {
    let mut actor = create_player();
    actor.ang_vel = 50_000;
    update_actor_position(&mut actor, 16_667);
    update_actor_position(&mut actor, 16_667);
    assert_eq!(actor.facing, 100_000);
}

/// Past the right half-extent the position comes back by one full
/// screen width: 330 on a 640-wide screen wraps to -310.
#[test]
fn wrap_right_edge() {
    let mut actor = create_player();
    actor.pos = Vec2 { x: 330_000_000, y: 0 };
    wrap_actor_position(&mut actor, 640_000_000, 480_000_000);
    assert_eq!(actor.pos.x, -310_000_000);
    assert_eq!(actor.pos.y, 0);
}

/// Past the left half-extent the position comes forward by one full
/// screen width: -321 on a 640-wide screen wraps to 319.
#[test]
fn wrap_left_edge() {
    let mut actor = create_player();
    actor.pos = Vec2 { x: -321_000_000, y: 0 };
    wrap_actor_position(&mut actor, 640_000_000, 480_000_000);
    assert_eq!(actor.pos.x, 319_000_000);
    assert_eq!(actor.pos.y, 0);
}

/// A position already within bounds is untouched by the wrap, on both of
/// two successive calls.
#[test]
fn wrap_in_bounds_is_noop_twice() {
    let mut actor = create_player();
    actor.pos = Vec2 { x: 320_000_000, y: -240_000_000 };
    wrap_actor_position(&mut actor, 640_000_000, 480_000_000);
    assert_eq!(actor.pos.x, 320_000_000);
    assert_eq!(actor.pos.y, -240_000_000);
    wrap_actor_position(&mut actor, 640_000_000, 480_000_000);
    assert_eq!(actor.pos.x, 320_000_000);
    assert_eq!(actor.pos.y, -240_000_000);
}

/// The wrap is a single step, not a modulo: a position more than one
/// whole width out is still off screen after one call.
#[test]
fn wrap_single_step_only() {
    let mut actor = create_player();
    actor.pos = Vec2 { x: 1_000_000_000, y: 0 };
    wrap_actor_position(&mut actor, 640_000_000, 480_000_000);
    assert_eq!(actor.pos.x, 360_000_000);
}

/// Spending one second of a one-second lifespan lands exactly on zero,
/// and crossing zero afterwards has no further effect than going
/// negative.
#[test]
fn lifespan_crosses_zero_quietly() {
    let mut actor = create_player();
    assert_eq!(actor.life, 1_000_000);
    handle_timed_life(&mut actor, 1_000_000);
    assert_eq!(actor.life, 0);
    handle_timed_life(&mut actor, 500_000);
    assert_eq!(actor.life, -500_000);
}

/// The freshly created player: at the origin, at rest, with the
/// documented bounding radius and lifespan.
#[test]
fn create_player_defaults() {
    let actor = create_player();
    assert_eq!(actor.tag, ActorType::Player);
    assert_eq!(actor.pos, Vec2 { x: 0, y: 0 });
    assert_eq!(actor.velocity, Vec2 { x: 0, y: 0 });
    assert_eq!(actor.facing, 0);
    assert_eq!(actor.ang_vel, 0);
    assert_eq!(actor.bbox, PLAYER_BBOX);
    assert_eq!(actor.life, PLAYER_LIFE);
}

/// The world origin sits at the centre of the screen.
#[test]
fn world_to_screen_centre() {
    let p = world_to_screen_coords(640_000_000, 480_000_000, Vec2 { x: 0, y: 0 });
    assert_eq!(p.x, 320_000_000);
    assert_eq!(p.y, 240_000_000);
}

/// Moving up in the world moves towards the top of the screen, where y
/// runs downwards.
#[test]
fn world_to_screen_flips_y() {
    let p = world_to_screen_coords(640_000_000, 480_000_000, Vec2 { x: 10_000_000, y: 10_000_000 });
    assert_eq!(p.x, 330_000_000);
    assert_eq!(p.y, 230_000_000);
}

/// One whole tick from rest with D held: thrust, integration and wrap in
/// order, leaving the expected velocity and displacement.
#[test]
fn tick_player_one_tick() {
    let mut actor = create_player();
    let mut input = InputState::default();
    key_down_event(&mut input, Key::D);
    tick_player(&mut actor, &input, 16_667, 640_000_000, 480_000_000);
    assert_eq!(actor.velocity.x, 1_666_700);
    assert_eq!(actor.velocity.y, 0);
    assert_eq!(actor.pos.x, 27_778);
    assert_eq!(actor.pos.y, 0);
    assert_eq!(actor.facing, 0);
}
