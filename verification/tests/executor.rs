//! The behaviour executor: movement stepping, facing, and the world-level
//! passes.

use rts_core::animation::Animator;
use rts_core::behaviour::Behaviour;
use rts_core::connection::RepeatTimer;
use rts_core::geom::Vec2;
use rts_core::movement::{execute_move, unit_collision_system, unit_movement_system};
use rts_core::position::Position;
use rts_core::unit::{MovementSpeed, Unit};
use rts_core::unit_animation::{UnitAnimator, UnitDirection};
use rts_core::world::UnitAssets;

fn walker(speed: u64) -> Unit {
    Unit {
        animation_set: "a".to_owned(),
        unit_animation_set: "u".to_owned(),
        size: 1000,
        movement_priority: 10,
        attack: None,
        movement_speed: MovementSpeed::Constant(speed),
        max_health: 1_000,
    }
}

#[test]
fn move_steps_by_speed_times_dt_and_faces_the_step() {
    let mut position = Position { position: Vec2 { x: 0, y: 0 } };
    let mut direction = UnitDirection::Down;
    let mut unit_animator = UnitAnimator::new("idle".to_owned());
    // 100 units a second for a tenth of a second: ten units east
    execute_move(
        &mut position,
        &mut direction,
        &mut unit_animator,
        0,
        &MovementSpeed::Constant(100_000),
        Vec2 { x: 500_000, y: 0 },
        100_000,
    );
    assert_eq!(position.position, Vec2 { x: 10_000, y: 0 });
    assert_eq!(direction, UnitDirection::DownRight);
    assert_eq!(unit_animator.current_animation, "walk");
}

#[test]
fn move_clips_the_last_step_to_the_remaining_distance() {
    let mut position = Position { position: Vec2 { x: 0, y: 0 } };
    let mut direction = UnitDirection::Down;
    let mut unit_animator = UnitAnimator::new("idle".to_owned());
    // the target is nearer than one full step: arrive exactly, no overshoot
    execute_move(
        &mut position,
        &mut direction,
        &mut unit_animator,
        0,
        &MovementSpeed::Constant(100_000),
        Vec2 { x: 4_000, y: 0 },
        100_000,
    );
    assert_eq!(position.position, Vec2 { x: 4_000, y: 0 });
}

#[test]
fn move_within_arrival_threshold_stands_still_and_idles() {
    let mut position = Position { position: Vec2 { x: 0, y: 0 } };
    let mut direction = UnitDirection::Up;
    let mut unit_animator = UnitAnimator::new("walk".to_owned());
    execute_move(
        &mut position,
        &mut direction,
        &mut unit_animator,
        0,
        &MovementSpeed::Constant(100_000),
        Vec2 { x: 99, y: 0 },
        100_000,
    );
    assert_eq!(position.position, Vec2 { x: 0, y: 0 });
    assert_eq!(direction, UnitDirection::Up);
    assert_eq!(unit_animator.current_animation, "idle");
}

#[test]
fn frame_wise_speed_modulates_by_the_current_frame() {
    let mut position = Position { position: Vec2 { x: 0, y: 0 } };
    let mut direction = UnitDirection::Down;
    let mut unit_animator = UnitAnimator::new("idle".to_owned());
    let speed = MovementSpeed::FrameWise {
        speed: 100_000,
        frame_mods: vec![1000, 500, 2000],
    };
    // frame 1 halves the base speed: five units instead of ten
    execute_move(
        &mut position,
        &mut direction,
        &mut unit_animator,
        1,
        &speed,
        Vec2 { x: 500_000, y: 0 },
        100_000,
    );
    assert_eq!(position.position, Vec2 { x: 5_000, y: 0 });
}

#[test]
fn movement_pass_steps_only_units_with_a_move_behaviour() {
    let assets = UnitAssets { entries: vec![("w".to_owned(), Some(walker(100_000)))] };
    let alive = vec![true, true];
    let behaviours: Vec<Option<Behaviour>> = vec![
        Some(Behaviour::Move { target: Vec2 { x: 500_000, y: 0 } }),
        Some(Behaviour::Idle),
    ];
    let handles = vec![0usize, 0];
    let animators = vec![Animator::new(0, "x".to_owned()), Animator::new(0, "x".to_owned())];
    let mut positions = vec![
        Position { position: Vec2 { x: 0, y: 0 } },
        Position { position: Vec2 { x: 100_000, y: 100_000 } },
    ];
    let mut directions = vec![UnitDirection::Down, UnitDirection::Down];
    let mut unit_animators = vec![
        UnitAnimator::new("idle".to_owned()),
        UnitAnimator::new("idle".to_owned()),
    ];
    unit_movement_system(
        &alive,
        &behaviours,
        &handles,
        &assets,
        &animators,
        &mut positions,
        &mut directions,
        &mut unit_animators,
        100_000,
    );
    assert_eq!(positions[0].position, Vec2 { x: 10_000, y: 0 });
    assert_eq!(positions[1].position, Vec2 { x: 100_000, y: 100_000 });
    assert_eq!(unit_animators[0].current_animation, "walk");
    assert_eq!(unit_animators[1].current_animation, "idle");
}

#[test]
fn collision_pass_separates_overlapping_stationary_units() {
    let assets = UnitAssets { entries: vec![("w".to_owned(), Some(walker(0)))] };
    let alive = vec![true, true];
    let behaviours: Vec<Option<Behaviour>> = vec![Some(Behaviour::Idle), Some(Behaviour::Idle)];
    let handles = vec![0usize, 0];
    let mut positions = vec![
        Position { position: Vec2 { x: 0, y: 0 } },
        Position { position: Vec2 { x: 1000, y: 0 } },
    ];
    unit_collision_system(&alive, &behaviours, &handles, &assets, &mut positions);
    // the pair was a unit apart with footprints of one each: separated now
    let dx = (positions[0].position.x - positions[1].position.x).abs();
    assert!(dx >= 2000, "still overlapping: {dx}");
}

#[test]
fn repeating_timer_wraps_its_period() {
    let mut t = RepeatTimer::new(1_000_000);
    assert!(!t.tick(999_999));
    assert!(t.tick(1));
    assert_eq!(t.elapsed_micros, 0);
    assert!(t.tick(2_500_000));
    assert_eq!(t.elapsed_micros, 500_000);
}

#[test]
fn forcing_a_frame_rederives_playback_on_the_next_tick() {
    let anim = rts_core::animation::Animation::new(0, 7, 100_000);
    let mut a = Animator::new(0, "x".to_owned());
    a.set_current_frame(5);
    assert!(a.current_frame_set);
    assert!(a.current_frame_changed);
    // the next advance re-derives play time from the forced frame
    a.advance(50_000, &anim);
    assert_eq!(a.current_frame, 5);
    assert_eq!(a.play_time_micros, 550_000);
    assert!(!a.current_frame_set);
    assert!(!a.current_frame_changed);
}
