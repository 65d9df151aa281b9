//! The behaviour executor and the collision resolver.
//!
//! Executing a `Move` behaviour steps the position toward the target by
//! `min(remaining distance, speed * dt)`, recomputes the eight-way facing
//! from the step vector, and requests the walk animation.  The collision
//! resolver then corrects pairwise overlaps: two stationary units split the
//! correction evenly; a moving unit pushes a stationary one aside without
//! being displaced itself.

use crate::animation::Animator;
use crate::behaviour::Behaviour;
use crate::geom::{
    ceil_div, ceil_div_spec, clamp_coord, clamp_coord_spec, dist2, dist2_spec, isqrt, isqrt_spec,
    Vec2, COORD_LIMIT, PRECISE_THRESHOLD2, SIZE_LIMIT,
};
use crate::position::Position;
use crate::unit::{MovementSpeed, Unit};
use crate::unit_animation::{direction_spec, UnitAnimator, UnitDirection};
use crate::world::UnitAssets;
use vstd::arithmetic::div_mod::lemma_multiply_divide_le;
use vstd::arithmetic::mul::lemma_mul_inequality;
use vstd::prelude::*;

verus! {

/// Largest tick delta the executor accepts (one thousand seconds).
pub const TICK_DT_LIMIT: u64 = 1_000_000_000;

/// Microseconds per second.
pub const MICROS_PER_SECOND: u64 = 1_000_000;

/// The movement speed a unit has on a given animation frame: constant, or
/// the base speed scaled by the per-frame modifier in thousandths.  A frame
/// beyond the modifier table falls back to the base speed.
pub open spec fn effective_speed_spec(speed: MovementSpeed, frame: u32) -> int {
    match speed {
        MovementSpeed::Constant(s) => s as int,
        MovementSpeed::FrameWise { speed, frame_mods } => {
            if frame < frame_mods@.len() {
                frame_mods@[frame as int] * speed / 1000
            } else {
                speed as int
            }
        },
    }
}

/// Largest effective speed, in coordinate steps per second.
pub const EFFECTIVE_SPEED_LIMIT: u64 = 10_000_000;

pub fn effective_speed(speed: &MovementSpeed, frame: u32) -> (r: u64)
    requires
        speed.wf(),
    ensures
        r == effective_speed_spec(*speed, frame),
        r <= EFFECTIVE_SPEED_LIMIT,
{
    match speed {
        MovementSpeed::Constant(s) => *s,
        MovementSpeed::FrameWise { speed, frame_mods } => {
            if (frame as usize) < frame_mods.len() {
                let m: u64 = frame_mods[frame as usize];
                proof {
                    assert(m * *speed <= crate::unit::FRAME_MOD_LIMIT * crate::unit::SPEED_LIMIT)
                        by (nonlinear_arith)
                        requires
                            m <= crate::unit::FRAME_MOD_LIMIT,
                            *speed <= crate::unit::SPEED_LIMIT,
                    ;
                    vstd::arithmetic::div_mod::lemma_div_is_ordered(
                        (m * *speed) as int,
                        (crate::unit::FRAME_MOD_LIMIT * crate::unit::SPEED_LIMIT) as int,
                        1000,
                    );
                }
                m * *speed / 1000
            } else {
                *speed
            }
        },
    }
}

/// One axis of a movement step: advance from `p` toward `t` by the share of
/// `move_len` that this axis contributes, rounded toward `p`.
pub open spec fn step_component_spec(p: int, t: int, move_len: int, dist: int) -> int {
    if t >= p {
        p + ((t - p) * move_len) / dist
    } else {
        p - ((p - t) * move_len) / dist
    }
}

/// One axis of a movement step.  Never overshoots: the result stays between
/// `p` and `t`.
fn step_axis(p: i64, t: i64, move_len: u64, dist: u64) -> (r: i64)
    requires
        -COORD_LIMIT <= p <= COORD_LIMIT,
        -COORD_LIMIT <= t <= COORD_LIMIT,
        1 <= dist <= 0x8000_0000,
        move_len <= dist,
        (if t >= p {
            t - p
        } else {
            p - t
        }) <= dist,
    ensures
        r == step_component_spec(p as int, t as int, move_len as int, dist as int),
        p <= t ==> p <= r <= t,
        t <= p ==> t <= r <= p,
{
    if t >= p {
        let mag: u64 = (t - p) as u64;
        proof {
            assert(mag * move_len <= 0x8000_0000u64 * 0x8000_0000u64) by (nonlinear_arith)
                requires
                    mag <= dist,
                    move_len <= dist,
                    dist <= 0x8000_0000u64,
            ;
            lemma_mul_inequality(move_len as int, dist as int, mag as int);
            vstd::arithmetic::mul::lemma_mul_is_commutative(move_len as int, mag as int);
            vstd::arithmetic::mul::lemma_mul_is_commutative(dist as int, mag as int);
            lemma_multiply_divide_le((mag * move_len) as int, dist as int, mag as int);
            vstd::arithmetic::div_mod::lemma_div_pos_is_pos((mag * move_len) as int, dist as int);
        }
        let step: u64 = mag * move_len / dist;
        p + (step as i64)
    } else {
        let mag: u64 = (p - t) as u64;
        proof {
            assert(mag * move_len <= 0x8000_0000u64 * 0x8000_0000u64) by (nonlinear_arith)
                requires
                    mag <= dist,
                    move_len <= dist,
                    dist <= 0x8000_0000u64,
            ;
            lemma_mul_inequality(move_len as int, dist as int, mag as int);
            vstd::arithmetic::mul::lemma_mul_is_commutative(move_len as int, mag as int);
            vstd::arithmetic::mul::lemma_mul_is_commutative(dist as int, mag as int);
            lemma_multiply_divide_le((mag * move_len) as int, dist as int, mag as int);
            vstd::arithmetic::div_mod::lemma_div_pos_is_pos((mag * move_len) as int, dist as int);
        }
        let step: u64 = mag * move_len / dist;
        p - (step as i64)
    }
}

/// Step from `pos` toward `target` by `move_len`, where `dist` is the floor
/// of the true distance and `move_len` never exceeds it.
pub fn step_toward(pos: Vec2, target: Vec2, move_len: u64, dist: u64) -> (r: Vec2)
    requires
        pos.in_bounds(),
        target.in_bounds(),
        1 <= dist <= 0x8000_0000,
        move_len <= dist,
        dist * dist <= dist2_spec(pos, target),
        dist2_spec(pos, target) < (dist + 1) * (dist + 1),
    ensures
        r.x == step_component_spec(pos.x as int, target.x as int, move_len as int, dist as int),
        r.y == step_component_spec(pos.y as int, target.y as int, move_len as int, dist as int),
        r.in_bounds(),
{
    proof {
        lemma_axis_bounded_by_dist(pos, target, dist as int);
    }
    let x = step_axis(pos.x, target.x, move_len, dist);
    let y = step_axis(pos.y, target.y, move_len, dist);
    Vec2 { x, y }
}

/// Each axis of the difference is bounded by the floor square root of the
/// squared distance.
proof fn lemma_axis_bounded_by_dist(pos: Vec2, target: Vec2, dist: int)
    requires
        dist >= 0,
        dist2_spec(pos, target) < (dist + 1) * (dist + 1),
    ensures
        (if target.x >= pos.x {
            target.x - pos.x
        } else {
            pos.x - target.x
        }) <= dist,
        (if target.y >= pos.y {
            target.y - pos.y
        } else {
            pos.y - target.y
        }) <= dist,
{
    let dx = target.x - pos.x;
    let dy = target.y - pos.y;
    let ax = if dx >= 0 { dx } else { -dx };
    let ay = if dy >= 0 { dy } else { -dy };
    assert(ax * ax + ay * ay == dist2_spec(pos, target)) by (nonlinear_arith)
        requires
            dx == target.x - pos.x,
            dy == target.y - pos.y,
            ax == (if dx >= 0 { dx } else { -dx }),
            ay == (if dy >= 0 { dy } else { -dy }),
    ;
    if ax > dist {
        assert((dist + 1) * (dist + 1) <= ax * ax + ay * ay) by (nonlinear_arith)
            requires
                ax >= dist + 1,
                dist >= 0,
                ay * ay >= 0,
        ;
    }
    if ay > dist {
        assert((dist + 1) * (dist + 1) <= ax * ax + ay * ay) by (nonlinear_arith)
            requires
                ay >= dist + 1,
                dist >= 0,
                ax * ax >= 0,
        ;
    }
    assert(ax * ax >= 0 && ay * ay >= 0) by (nonlinear_arith);
}

/// Where a `Move` behaviour puts a unit this tick: nowhere if it already
/// stands within the arrival threshold of the target, else one step of
/// `min(remaining distance, speed * dt)` toward it.
pub open spec fn move_step_position_spec(pos: Vec2, target: Vec2, speed: int, dt_micros: int) -> Vec2 {
    let d2 = dist2_spec(pos, target);
    if d2 < PRECISE_THRESHOLD2 {
        pos
    } else {
        let dist = isqrt_spec(d2);
        let step = speed * dt_micros / (MICROS_PER_SECOND as int);
        let ml = if step <= dist {
            step
        } else {
            dist as int
        };
        Vec2 {
            x: step_component_spec(pos.x as int, target.x as int, ml, dist) as i64,
            y: step_component_spec(pos.y as int, target.y as int, ml, dist) as i64,
        }
    }
}

/// Execute a `Move` behaviour for one unit: step the position, face the
/// step vector, and ask for the walk animation — or, within the arrival
/// threshold, stand still and ask for idle.
pub fn execute_move(
    position: &mut Position,
    direction: &mut UnitDirection,
    unit_animator: &mut UnitAnimator,
    frame: u32,
    speed: &MovementSpeed,
    target: Vec2,
    dt_micros: u64,
)
    requires
        old(position).position.in_bounds(),
        target.in_bounds(),
        speed.wf(),
        dt_micros <= TICK_DT_LIMIT,
    ensures
        final(position).position == move_step_position_spec(
            old(position).position,
            target,
            effective_speed_spec(*speed, frame),
            dt_micros as int,
        ),
        final(position).position.in_bounds(),
        dist2_spec(old(position).position, target) < PRECISE_THRESHOLD2 ==> {
            &&& final(unit_animator).current_animation@ == "idle"@
            &&& *final(direction) == *old(direction)
        },
        dist2_spec(old(position).position, target) >= PRECISE_THRESHOLD2 ==> {
            &&& final(unit_animator).current_animation@ == "walk"@
            &&& *final(direction) == crate::unit_animation::direction_spec(
                target.x - old(position).position.x,
                target.y - old(position).position.y,
            )
        },
        final(unit_animator).reset_animation == old(unit_animator).reset_animation,
{
    let pos = position.position;
    let d2 = dist2(pos, target);
    if d2 < crate::geom::PRECISE_THRESHOLD2 {
        unit_animator.set_playing("idle".to_owned());
    } else {
        let dist = isqrt(d2);
        let base = effective_speed(speed, frame);
        proof {
            assert(base * dt_micros <= EFFECTIVE_SPEED_LIMIT * TICK_DT_LIMIT) by (nonlinear_arith)
                requires
                    base <= EFFECTIVE_SPEED_LIMIT,
                    dt_micros <= TICK_DT_LIMIT,
            ;
            vstd::arithmetic::div_mod::lemma_div_pos_is_pos(
                (base * dt_micros) as int,
                MICROS_PER_SECOND as int,
            );
        }
        let step: u64 = base * dt_micros / MICROS_PER_SECOND;
        let ml: u64 = if step <= dist {
            step
        } else {
            dist
        };
        let new_pos = step_toward(pos, target, ml, dist);
        position.position = new_pos;
        let dx: i64 = target.x - pos.x;
        let dy: i64 = target.y - pos.y;
        *direction = UnitDirection::from_vec2(dx, dy);
        unit_animator.set_playing("walk".to_owned());
    }
}

/// Execute an `Attack` behaviour for one unit: face the target, request the
/// attack animation, and — only on the tick whose animator advance just
/// changed the frame — apply the frame's damage event, once, to the
/// target's operation log.  A frame skipped over between ticks fires
/// nothing.
pub fn execute_attack(
    direction: &mut UnitDirection,
    unit_animator: &mut UnitAnimator,
    target_instance: &mut crate::unit::UnitInstance,
    self_position: Vec2,
    target_position: Vec2,
    frame_just_changed: bool,
    current_frame: u32,
    damage: &Vec<(u32, crate::command::AttackEvent)>,
)
    requires
        self_position.in_bounds(),
        target_position.in_bounds(),
    ensures
        *final(direction) == crate::unit_animation::direction_spec(
            target_position.x - self_position.x,
            target_position.y - self_position.y,
        ),
        final(unit_animator).current_animation@ == "attack"@,
        old(unit_animator).current_animation@ == "attack"@ ==> *final(unit_animator) == *old(
            unit_animator,
        ),
        ({
            let event = crate::command::event_for_frame_spec(damage@, current_frame);
            &&& (event matches Some(crate::command::AttackEvent::Damage(dmg)) ==> (
            frame_just_changed ==> final(target_instance).operations@ == old(
                target_instance,
            ).operations@.push(crate::unit::UnitInstanceOperation::SubtractHealth(dmg))))
            &&& (!(frame_just_changed && event is Some) ==> *final(target_instance) == *old(
                target_instance,
            ))
        }),
        final(target_instance).health == old(target_instance).health,
{
    let dx: i64 = target_position.x - self_position.x;
    let dy: i64 = target_position.y - self_position.y;
    *direction = UnitDirection::from_vec2(dx, dy);
    let attack_name: String = "attack".to_owned();
    if !(unit_animator.current_animation == attack_name) {
        unit_animator.play(attack_name);
    }
    if frame_just_changed {
        match crate::command::lookup_event(damage, current_frame) {
            Some(crate::command::AttackEvent::Damage(dmg)) => {
                target_instance.subtract_health(dmg);
            },
            None => {
            },
        }
    }
}

/// Relies on `rand::Rng::gen_range` over a half-open integer range: the
/// result is drawn from `[lo, hi)`; the call panics only on an empty range,
/// which the precondition rules out.  Nothing is promised about which value
/// comes back.
#[verifier::external_body]
fn random_in_range(lo: i64, hi: i64) -> (r: i64)
    requires
        lo < hi,
    ensures
        lo <= r < hi,
{
    <rand::rngs::ThreadRng as rand::Rng>::gen_range(&mut rand::thread_rng(), lo..hi)
}

/// A random separating direction for units standing on the same point.
/// Whatever the draw, the result is a nonzero vector with components in
/// `[-1000, 1000]`.
pub fn random_direction() -> (r: Vec2)
    ensures
        -1000 <= r.x <= 1000,
        -1000 <= r.y <= 1000,
        !(r.x == 0 && r.y == 0),
{
    let x = random_in_range(-1000, 1001);
    let y = random_in_range(-1000, 1001);
    if x == 0 && y == 0 {
        Vec2 { x: 1000, y: 0 }
    } else {
        Vec2 { x, y }
    }
}

/// One axis of a pairwise correction: the axis's share of the overlap,
/// weighted by `num / q`, rounded away from zero so the pair fully
/// separates.
pub open spec fn push_mag_spec(u: int, ov: int, num: int, d: int, q: int) -> int {
    ceil_div_spec(u * ov * num, d * q)
}

/// Both new positions after resolving one pair, as a pure function of the
/// inputs.  `fallback` stands in for the separating *direction* when the
/// two units occupy the same point; the pair's distance is still zero then,
/// so the whole summed footprint is the overlap to correct.  The correction
/// totals the full overlap: split evenly between two stationary units, and
/// weighted by the other side's movement priority otherwise, so against a
/// moving unit a stationary one absorbs all of it.
pub open spec fn collision_pair_spec(
    a: Vec2,
    b: Vec2,
    a_size: u64,
    b_size: u64,
    a_pri: u64,
    b_pri: u64,
    fallback: Vec2,
) -> (Vec2, Vec2) {
    let d2 = dist2_spec(a, b);
    let dx = if d2 == 0 { fallback.x as int } else { a.x - b.x };
    let dy = if d2 == 0 { fallback.y as int } else { a.y - b.y };
    let d = isqrt_spec(dx * dx + dy * dy);
    let s = a_size + b_size;
    let separation = if d2 == 0 { 0int } else { d };
    if separation >= s {
        (a, b)
    } else {
        let ov = s - separation;
        let na = if a_pri == 0 && b_pri == 0 { 1int } else { b_pri as int };
        let nb = if a_pri == 0 && b_pri == 0 { 1int } else { a_pri as int };
        let q = if a_pri == 0 && b_pri == 0 { 2int } else { (a_pri + b_pri) as int };
        let ux = if dx >= 0 { dx } else { -dx };
        let uy = if dy >= 0 { dy } else { -dy };
        let eax = push_mag_spec(ux, ov, na, d, q);
        let eay = push_mag_spec(uy, ov, na, d, q);
        let ebx = push_mag_spec(ux, ov, nb, d, q);
        let eby = push_mag_spec(uy, ov, nb, d, q);
        (
            Vec2 {
                x: clamp_coord_spec(if dx >= 0 { a.x + eax } else { a.x - eax }) as i64,
                y: clamp_coord_spec(if dy >= 0 { a.y + eay } else { a.y - eay }) as i64,
            },
            Vec2 {
                x: clamp_coord_spec(if dx >= 0 { b.x - ebx } else { b.x + ebx }) as i64,
                y: clamp_coord_spec(if dy >= 0 { b.y - eby } else { b.y + eby }) as i64,
            },
        )
    }
}

/// One axis's correction magnitude.
fn push_mag(u: u64, ov: u64, num: u64, d: u64, q: u64) -> (r: u64)
    requires
        u <= 20_000_000,
        ov <= 2_000_000,
        num <= 2_000,
        1 <= d <= 0x8000_0000,
        1 <= q <= 4_000,
    ensures
        r == push_mag_spec(u as int, ov as int, num as int, d as int, q as int),
        r <= 80_000_000_000_000_000,
{
    proof {
        assert(u * ov <= 40_000_000_000_000u64) by (nonlinear_arith)
            requires
                u <= 20_000_000u64,
                ov <= 2_000_000u64,
        ;
        assert((u * ov) * num <= 80_000_000_000_000_000u64) by (nonlinear_arith)
            requires
                u * ov <= 40_000_000_000_000u64,
                0 <= u * ov,
                num <= 2_000u64,
        ;
        assert(0 <= u * ov * num) by (nonlinear_arith);
        assert(1 <= d * q <= 0x8000_0000u64 * 4_000) by (nonlinear_arith)
            requires
                1 <= d <= 0x8000_0000u64,
                1 <= q <= 4_000u64,
        ;
        crate::geom::lemma_ceil_div_bounds((u * ov * num) as int, (d * q) as int);
    }
    let numerator: u64 = u * ov * num;
    let denominator: u64 = d * q;
    ceil_div(numerator, denominator)
}

/// Resolve one pair of overlapping circular footprints.  `fallback` is the
/// random separating direction used only when the pair sits on one point.
/// The result is exactly [`collision_pair_spec`], and both positions stay in
/// bounds.
#[verifier::rlimit(60)]
pub fn resolve_collision_pair(
    a: Vec2,
    b: Vec2,
    a_size: u64,
    b_size: u64,
    a_pri: u64,
    b_pri: u64,
    fallback: Vec2,
) -> (r: (Vec2, Vec2))
    requires
        a.in_bounds(),
        b.in_bounds(),
        a_size <= SIZE_LIMIT,
        b_size <= SIZE_LIMIT,
        a_pri <= crate::unit::PRIORITY_LIMIT,
        b_pri <= crate::unit::PRIORITY_LIMIT,
        -1000 <= fallback.x <= 1000,
        -1000 <= fallback.y <= 1000,
        !(fallback.x == 0 && fallback.y == 0),
    ensures
        r == collision_pair_spec(a, b, a_size, b_size, a_pri, b_pri, fallback),
        r.0.in_bounds(),
        r.1.in_bounds(),
{
    let d2: u64 = dist2(a, b);
    let (dx, dy): (i64, i64) = if d2 == 0 {
        (fallback.x, fallback.y)
    } else {
        (a.x - b.x, a.y - b.y)
    };
    proof {
        if d2 != 0 {
            assert(!(dx == 0 && dy == 0)) by (nonlinear_arith)
                requires
                    dx == a.x - b.x,
                    dy == a.y - b.y,
                    (a.x - b.x) * (a.x - b.x) + (a.y - b.y) * (a.y - b.y) != 0,
            ;
        }
        assert(0 <= dx * dx <= 400_000_000_000_000 && 0 <= dy * dy <= 400_000_000_000_000 && dx
            * dx + dy * dy >= 1) by (nonlinear_arith)
            requires
                -20_000_000 <= dx <= 20_000_000,
                -20_000_000 <= dy <= 20_000_000,
                !(dx == 0 && dy == 0),
        ;
    }
    let sq: u64 = ((dx * dx) + (dy * dy)) as u64;
    let d: u64 = isqrt(sq);
    let s: u64 = a_size + b_size;
    let separation: u64 = if d2 == 0 {
        0
    } else {
        d
    };
    if separation >= s {
        return (a, b);
    }
    let ov: u64 = s - separation;
    let (na, nb, q): (u64, u64, u64) = if a_pri == 0 && b_pri == 0 {
        (1, 1, 2)
    } else {
        (b_pri, a_pri, a_pri + b_pri)
    };
    let ux: u64 = if dx >= 0 {
        dx as u64
    } else {
        (-dx) as u64
    };
    let uy: u64 = if dy >= 0 {
        dy as u64
    } else {
        (-dy) as u64
    };
    let eax: u64 = push_mag(ux, ov, na, d, q);
    let eay: u64 = push_mag(uy, ov, na, d, q);
    let ebx: u64 = push_mag(ux, ov, nb, d, q);
    let eby: u64 = push_mag(uy, ov, nb, d, q);
    proof {
        lemma_push_mag_bounded(ux as int, ov as int, na as int, d as int, q as int);
        lemma_push_mag_bounded(uy as int, ov as int, na as int, d as int, q as int);
        lemma_push_mag_bounded(ux as int, ov as int, nb as int, d as int, q as int);
        lemma_push_mag_bounded(uy as int, ov as int, nb as int, d as int, q as int);
    }
    let ax_disp: i64 = if dx >= 0 {
        a.x + (eax as i64)
    } else {
        a.x - (eax as i64)
    };
    let nax: i64 = clamp_coord(ax_disp);
    let nay: i64 = clamp_coord(if dy >= 0 {
        a.y + (eay as i64)
    } else {
        a.y - (eay as i64)
    });
    let nbx: i64 = clamp_coord(if dx >= 0 {
        b.x - (ebx as i64)
    } else {
        b.x + (ebx as i64)
    });
    let nby: i64 = clamp_coord(if dy >= 0 {
        b.y - (eby as i64)
    } else {
        b.y + (eby as i64)
    });
    proof {
        let spec_r = collision_pair_spec(a, b, a_size, b_size, a_pri, b_pri, fallback);
        assert(spec_r.0.x == nax);
        assert(spec_r.0.y == nay);
        assert(spec_r.1.x == nbx);
        assert(spec_r.1.y == nby);
    }
    (Vec2 { x: nax, y: nay }, Vec2 { x: nbx, y: nby })
}

/// Execute every `Move` behaviour of the tick.
/// Units without a `Move` behaviour, dead slots, and units whose definition
/// has not loaded yet are left untouched (the latter are retried next tick).
pub fn unit_movement_system(
    alive: &Vec<bool>,
    behaviours: &Vec<Option<Behaviour>>,
    unit_handles: &Vec<usize>,
    assets: &UnitAssets,
    animators: &Vec<Animator>,
    positions: &mut Vec<Position>,
    directions: &mut Vec<UnitDirection>,
    unit_animators: &mut Vec<UnitAnimator>,
    dt_micros: u64,
)
    requires
        behaviours@.len() == alive@.len(),
        unit_handles@.len() == alive@.len(),
        animators@.len() == alive@.len(),
        old(positions)@.len() == alive@.len(),
        old(directions)@.len() == alive@.len(),
        old(unit_animators)@.len() == alive@.len(),
        assets.wf(),
        forall|i: int|
            0 <= i < alive@.len() ==> (#[trigger] old(positions)@[i]).position.in_bounds(),
        forall|i: int|
            0 <= i < alive@.len() ==> ((#[trigger] behaviours@[i]) matches Some(b) ==> b.wf(
                alive@.len() as int,
            )),
        dt_micros <= TICK_DT_LIMIT,
    ensures
        final(positions)@.len() == alive@.len(),
        final(directions)@.len() == alive@.len(),
        final(unit_animators)@.len() == alive@.len(),
        forall|i: int|
            0 <= i < alive@.len() ==> (#[trigger] final(positions)@[i]).position.in_bounds(),
        forall|i: int|
            0 <= i < alive@.len() ==> moved_unit_ok(
                alive@,
                behaviours@,
                unit_handles@,
                *assets,
                animators@,
                old(positions)@,
                old(directions)@,
                old(unit_animators)@,
                final(positions)@,
                final(directions)@,
                final(unit_animators)@,
                dt_micros as int,
                i,
            ),
{
    let n: usize = alive.len();
    let mut i: usize = 0;
    while i < n
        invariant
            n == alive@.len(),
            behaviours@.len() == n,
            unit_handles@.len() == n,
            animators@.len() == n,
            positions@.len() == n,
            directions@.len() == n,
            unit_animators@.len() == n,
            assets.wf(),
            dt_micros <= TICK_DT_LIMIT,
            forall|j: int|
                0 <= j < n ==> ((#[trigger] behaviours@[j]) matches Some(b) ==> b.wf(n as int)),
            forall|j: int| 0 <= j < n ==> (#[trigger] positions@[j]).position.in_bounds(),
            forall|j: int| i <= j < n ==> (#[trigger] positions@[j]) == old(positions)@[j],
            forall|j: int| i <= j < n ==> (#[trigger] directions@[j]) == old(directions)@[j],
            forall|j: int| i <= j < n ==> (#[trigger] unit_animators@[j]) == old(unit_animators)@[j],
            forall|j: int|
                0 <= j < i ==> moved_unit_ok(
                    alive@,
                    behaviours@,
                    unit_handles@,
                    *assets,
                    animators@,
                    old(positions)@,
                    old(directions)@,
                    old(unit_animators)@,
                    positions@,
                    directions@,
                    unit_animators@,
                    dt_micros as int,
                    j,
                ),
        decreases n - i,
    {
        if alive[i] {
            let is_move = match &behaviours[i] {
                Some(Behaviour::Move { .. }) => true,
                _ => false,
            };
            if is_move {
                let target: Vec2 = match &behaviours[i] {
                    Some(Behaviour::Move { target }) => *target,
                    _ => Vec2 { x: 0, y: 0 },
                };
                match assets.get(unit_handles[i]) {
                    Some(unit) => {
                        let ghost positions_entry = positions@;
                        let ghost directions_entry = directions@;
                        let ghost unit_animators_entry = unit_animators@;
                        proof {
                            assert(assets.entries@[unit_handles@[i as int] as int].1 matches Some(
                                u,
                            ) ==> u.wf());
                        }
                        let frame: u32 = animators[i].current_frame;
                        let mut pos: Position = positions[i];
                        let mut dir: UnitDirection = directions[i];
                        let mut ua = UnitAnimator { current_animation: String::new(), reset_animation: false };
                        unit_animators.set_and_swap(i, &mut ua);
                        execute_move(
                            &mut pos,
                            &mut dir,
                            &mut ua,
                            frame,
                            &unit.movement_speed,
                            target,
                            dt_micros,
                        );
                        positions.set(i, pos);
                        directions.set(i, dir);
                        unit_animators.set_and_swap(i, &mut ua);
                        proof {
                            assert forall|j: int| 0 <= j < i implies moved_unit_ok(
                                alive@,
                                behaviours@,
                                unit_handles@,
                                *assets,
                                animators@,
                                old(positions)@,
                                old(directions)@,
                                old(unit_animators)@,
                                positions@,
                                directions@,
                                unit_animators@,
                                dt_micros as int,
                                j,
                            ) by {
                                assert(positions@[j] == positions_entry[j]);
                                assert(directions@[j] == directions_entry[j]);
                                assert(unit_animators@[j] == unit_animators_entry[j]);
                                assert(moved_unit_ok(
                                    alive@,
                                    behaviours@,
                                    unit_handles@,
                                    *assets,
                                    animators@,
                                    old(positions)@,
                                    old(directions)@,
                                    old(unit_animators)@,
                                    positions_entry,
                                    directions_entry,
                                    unit_animators_entry,
                                    dt_micros as int,
                                    j,
                                ));
                            }
                        }
                    },
                    None => {
                    },
                }
            }
        }
        proof {
            assert(moved_unit_ok(
                alive@,
                behaviours@,
                unit_handles@,
                *assets,
                animators@,
                old(positions)@,
                old(directions)@,
                old(unit_animators)@,
                positions@,
                directions@,
                unit_animators@,
                dt_micros as int,
                i as int,
            ));
        }
        i = i + 1;
    }
}

/// What the movement pass did to entity `i`: stepped it exactly as
/// [`move_step_position_spec`] says if it was live with a `Move` behaviour
/// and a loaded definition, and left it untouched otherwise.
pub open spec fn moved_unit_ok(
    alive: Seq<bool>,
    behaviours: Seq<Option<Behaviour>>,
    unit_handles: Seq<usize>,
    assets: UnitAssets,
    animators: Seq<Animator>,
    positions0: Seq<Position>,
    directions0: Seq<UnitDirection>,
    unit_animators0: Seq<UnitAnimator>,
    positions1: Seq<Position>,
    directions1: Seq<UnitDirection>,
    unit_animators1: Seq<UnitAnimator>,
    dt_micros: int,
    i: int,
) -> bool {
    let untouched = positions1[i] == positions0[i] && directions1[i] == directions0[i]
        && unit_animators1[i] == unit_animators0[i];
    if alive[i] {
        match behaviours[i] {
            Some(Behaviour::Move { target }) => match crate::world::loaded_unit(
                assets,
                unit_handles[i],
            ) {
                Some(unit) => {
                    let pos0 = positions0[i].position;
                    let speed = effective_speed_spec(
                        unit.movement_speed,
                        animators[i].current_frame,
                    );
                    &&& positions1[i].position == move_step_position_spec(
                        pos0,
                        target,
                        speed,
                        dt_micros,
                    )
                    &&& (dist2_spec(pos0, target) < PRECISE_THRESHOLD2 ==> {
                        &&& unit_animators1[i].current_animation@ == "idle"@
                        &&& directions1[i] == directions0[i]
                    })
                    &&& (dist2_spec(pos0, target) >= PRECISE_THRESHOLD2 ==> {
                        &&& unit_animators1[i].current_animation@ == "walk"@
                        &&& directions1[i] == crate::unit_animation::direction_spec(
                            target.x - pos0.x,
                            target.y - pos0.y,
                        )
                    })
                },
                None => untouched,
            },
            _ => untouched,
        }
    } else {
        untouched
    }
}

/// The mathematical image of a unit instance: health and the pending log
/// as a sequence.
pub struct InstanceModel {
    pub health: i64,
    pub operations: Seq<crate::unit::UnitInstanceOperation>,
}

/// The model an instance denotes.
pub open spec fn instance_model(i: crate::unit::UnitInstance) -> InstanceModel {
    InstanceModel { health: i.health, operations: i.operations@ }
}

/// The model of every instance in a table.
pub open spec fn instances_model(instances: Seq<crate::unit::UnitInstance>) -> Seq<InstanceModel> {
    Seq::new(instances.len(), |i: int| instance_model(instances[i]))
}

/// The instance logs after the combat pass has processed attackers
/// `0 .. i`, in order: a live attacker whose animator just reached a frame
/// with a configured damage event pushes exactly that one damage operation
/// onto its target's log, and nothing else changes.
pub open spec fn combat_instances_spec(
    instances: Seq<InstanceModel>,
    alive: Seq<bool>,
    behaviours: Seq<Option<Behaviour>>,
    animators: Seq<Animator>,
    i: int,
) -> Seq<InstanceModel>
    decreases i,
{
    if i <= 0 {
        instances
    } else {
        let prev = combat_instances_spec(instances, alive, behaviours, animators, i - 1);
        if alive[i - 1] {
            match behaviours[i - 1] {
                Some(Behaviour::Attack { target, damage, .. }) => {
                    if animators[i - 1].current_frame_changed {
                        match crate::command::event_for_frame_spec(
                            damage@,
                            animators[i - 1].current_frame,
                        ) {
                            Some(crate::command::AttackEvent::Damage(dmg)) => prev.update(
                                target as int,
                                InstanceModel {
                                    health: prev[target as int].health,
                                    operations: prev[target as int].operations.push(
                                        crate::unit::UnitInstanceOperation::SubtractHealth(dmg),
                                    ),
                                },
                            ),
                            None => prev,
                        }
                    } else {
                        prev
                    }
                },
                _ => prev,
            }
        } else {
            prev
        }
    }
}

/// Execute every `Attack` behaviour of the tick.
/// The attacker faces its target and requests the attack animation; damage
/// is applied to the target's operation log only on a frame edge.  Health
/// itself never changes here — it only changes when the logs are flushed.
pub fn combat_system(
    alive: &Vec<bool>,
    behaviours: &Vec<Option<Behaviour>>,
    positions: &Vec<Position>,
    animators: &Vec<Animator>,
    directions: &mut Vec<UnitDirection>,
    unit_animators: &mut Vec<UnitAnimator>,
    instances: &mut Vec<crate::unit::UnitInstance>,
)
    requires
        behaviours@.len() == alive@.len(),
        positions@.len() == alive@.len(),
        animators@.len() == alive@.len(),
        old(directions)@.len() == alive@.len(),
        old(unit_animators)@.len() == alive@.len(),
        old(instances)@.len() == alive@.len(),
        forall|i: int| 0 <= i < alive@.len() ==> (#[trigger] positions@[i]).position.in_bounds(),
        forall|i: int|
            0 <= i < alive@.len() ==> ((#[trigger] behaviours@[i]) matches Some(b) ==> b.wf(
                alive@.len() as int,
            )),
    ensures
        final(directions)@.len() == alive@.len(),
        final(unit_animators)@.len() == alive@.len(),
        final(instances)@.len() == alive@.len(),
        // attackers face their target and play the attack animation
        forall|i: int|
            0 <= i < alive@.len() && alive@[i] ==> ((#[trigger] behaviours@[i]) matches Some(
                Behaviour::Attack { target_position, .. },
            ) ==> {
                &&& final(directions)@[i] == crate::unit_animation::direction_spec(
                    target_position.x - positions@[i].position.x,
                    target_position.y - positions@[i].position.y,
                )
                &&& final(unit_animators)@[i].current_animation@ == "attack"@
            }),
        // everyone else keeps direction and animation request
        forall|i: int|
            0 <= i < alive@.len() && !(alive@[i] && (#[trigger] behaviours@[i]) matches Some(
                Behaviour::Attack { .. },
            )) ==> final(directions)@[i] == old(directions)@[i] && final(unit_animators)@[i]
                == old(unit_animators)@[i],
        // exactly the attackers' frame-edge events land, in attacker order,
        // each on its own target's pending log; health never changes here
        instances_model(final(instances)@) == combat_instances_spec(
            instances_model(old(instances)@),
            alive@,
            behaviours@,
            animators@,
            alive@.len() as int,
        ),
{
    let n: usize = alive.len();
    let mut i: usize = 0;
    while i < n
        invariant
            i <= n,
            n == alive@.len(),
            behaviours@.len() == n,
            positions@.len() == n,
            animators@.len() == n,
            directions@.len() == n,
            unit_animators@.len() == n,
            instances@.len() == n,
            forall|j: int| 0 <= j < n ==> (#[trigger] positions@[j]).position.in_bounds(),
            forall|j: int|
                0 <= j < n ==> ((#[trigger] behaviours@[j]) matches Some(b) ==> b.wf(n as int)),
            forall|j: int| i <= j < n ==> (#[trigger] directions@[j]) == old(directions)@[j],
            forall|j: int|
                i <= j < n ==> (#[trigger] unit_animators@[j]) == old(unit_animators)@[j],
            forall|j: int|
                0 <= j < i && alive@[j] ==> ((#[trigger] behaviours@[j]) matches Some(
                    Behaviour::Attack { target_position, .. },
                ) ==> {
                    &&& directions@[j] == crate::unit_animation::direction_spec(
                        target_position.x - positions@[j].position.x,
                        target_position.y - positions@[j].position.y,
                    )
                    &&& unit_animators@[j].current_animation@ == "attack"@
                }),
            forall|j: int|
                0 <= j < i && !(alive@[j] && (#[trigger] behaviours@[j]) matches Some(
                    Behaviour::Attack { .. },
                )) ==> directions@[j] == old(directions)@[j] && unit_animators@[j] == old(
                    unit_animators,
                )@[j],
            instances_model(instances@) == combat_instances_spec(
                instances_model(old(instances)@),
                alive@,
                behaviours@,
                animators@,
                i as int,
            ),
        decreases n - i,
    {
        if alive[i] {
            let is_attack = match &behaviours[i] {
                Some(Behaviour::Attack { .. }) => true,
                _ => false,
            };
            if is_attack {
                let (target_position, target): (Vec2, usize) = match &behaviours[i] {
                    Some(Behaviour::Attack { target_position, target, .. }) => (
                        *target_position,
                        *target,
                    ),
                    _ => (Vec2 { x: 0, y: 0 }, 0),
                };
                let self_position: Vec2 = positions[i].position;
                let frame_just_changed: bool = animators[i].current_frame_changed;
                let frame: u32 = animators[i].current_frame;
                let mut dir: UnitDirection = directions[i];
                let mut ua = UnitAnimator { current_animation: String::new(), reset_animation: false };
                unit_animators.set_and_swap(i, &mut ua);
                let mut target_instance = crate::unit::UnitInstance {
                    health: 0,
                    operations: Vec::new(),
                };
                instances.set_and_swap(target, &mut target_instance);
                let ghost old_target_ops = target_instance.operations@;
                match &behaviours[i] {
                    Some(Behaviour::Attack { damage, .. }) => {
                        execute_attack(
                            &mut dir,
                            &mut ua,
                            &mut target_instance,
                            self_position,
                            target_position,
                            frame_just_changed,
                            frame,
                            damage,
                        );
                    },
                    _ => {
                    },
                }
                directions.set(i, dir);
                unit_animators.set_and_swap(i, &mut ua);
                let ghost inst_entry = instances@;
                instances.set_and_swap(target, &mut target_instance);
                proof {
                    assert(instances_model(instances@) =~= combat_instances_spec(
                        instances_model(old(instances)@),
                        alive@,
                        behaviours@,
                        animators@,
                        i + 1 as int,
                    ));
                }
            } else {
                proof {
                    assert(instances_model(instances@) =~= combat_instances_spec(
                        instances_model(old(instances)@),
                        alive@,
                        behaviours@,
                        animators@,
                        i + 1 as int,
                    ));
                }
            }
        } else {
            proof {
                assert(instances_model(instances@) =~= combat_instances_spec(
                    instances_model(old(instances)@),
                    alive@,
                    behaviours@,
                    animators@,
                    i + 1 as int,
                ));
            }
        }
        i = i + 1;
    }
    proof {
        assert(instances_model(instances@) =~= combat_instances_spec(
            instances_model(old(instances)@),
            alive@,
            behaviours@,
            animators@,
            n as int,
        ));
    }
}

/// Far enough from the world edge that a collision correction is never
/// clamped: a correction never exceeds the overlap, which is at most two
/// footprints, plus the rounding step.
pub open spec fn clear_of_world_edge(v: Vec2) -> bool {
    &&& -COORD_LIMIT + (2 * SIZE_LIMIT + 1) <= v.x <= COORD_LIMIT - (2 * SIZE_LIMIT + 1)
    &&& -COORD_LIMIT + (2 * SIZE_LIMIT + 1) <= v.y <= COORD_LIMIT - (2 * SIZE_LIMIT + 1)
}

/// Ceiling division overshoots plain division by at most one.
proof fn lemma_ceil_div_le_div_plus_one(x: int, y: int)
    requires
        x >= 0,
        y >= 1,
    ensures
        ceil_div_spec(x, y) <= x / y + 1,
{
    vstd::arithmetic::div_mod::lemma_div_is_ordered(x + y - 1, x + y, y);
    vstd::arithmetic::div_mod::lemma_div_plus_one(x, y);
}

/// A correction magnitude with weight `num / q <= 1` never exceeds the
/// overlap, plus the rounding step.
proof fn lemma_push_le_overlap(u: int, d: int, ov: int, num: int, q: int)
    requires
        0 <= u <= d,
        1 <= d,
        1 <= ov,
        1 <= num <= q,
    ensures
        0 <= push_mag_spec(u, ov, num, d, q) <= ov + 1,
{
    let x = u * ov * num;
    assert(0 <= x && x <= (d * q) * ov) by (nonlinear_arith)
        requires
            x == u * ov * num,
            0 <= u <= d,
            1 <= ov,
            1 <= num <= q,
    ;
    assert(d * q >= 1) by (nonlinear_arith)
        requires
            1 <= d,
            1 <= q,
    ;
    crate::geom::lemma_ceil_div_bounds(x, d * q);
    lemma_ceil_div_le_div_plus_one(x, d * q);
    vstd::arithmetic::div_mod::lemma_div_is_ordered(x, (d * q) * ov, d * q);
    vstd::arithmetic::div_mod::lemma_div_multiples_vanish(ov, d * q);
}

/// Growing an axis separation `u` by a push `t` with `d * t >= u * ov`
/// scales it by at least `(d + ov) / d`, squared.
proof fn lemma_axis_separates(u: int, d: int, ov: int, t: int)
    requires
        0 <= u,
        1 <= d,
        1 <= ov,
        0 <= t,
        d * t >= u * ov,
    ensures
        (u + t) * (u + t) * (d * d) >= (u * u) * ((d + ov) * (d + ov)),
{
    assert(d * (u + t) >= u * (d + ov)) by (nonlinear_arith)
        requires
            d * t >= u * ov,
            d >= 1,
            u >= 0,
            t >= 0,
    ;
    let p = d * (u + t);
    let w = u * (d + ov);
    assert(w >= 0) by (nonlinear_arith)
        requires
            w == u * (d + ov),
            u >= 0,
            d >= 1,
            ov >= 1,
    ;
    assert(p * p >= w * w) by (nonlinear_arith)
        requires
            p >= w,
            w >= 0,
    ;
    assert(p * p == (u + t) * (u + t) * (d * d)) by (nonlinear_arith)
        requires
            p == d * (u + t),
    ;
    assert(w * w == (u * u) * ((d + ov) * (d + ov))) by (nonlinear_arith)
        requires
            w == u * (d + ov),
    ;
}

/// For two stationary overlapping units the correction is split exactly
/// half and half — the two displacements are opposite and equal — and the
/// pair no longer overlaps afterwards: the new squared distance is at least
/// the square of the summed footprints.
pub proof fn lemma_stationary_collision_separates(
    a: Vec2,
    b: Vec2,
    a_size: u64,
    b_size: u64,
    fallback: Vec2,
)
    requires
        a.in_bounds(),
        b.in_bounds(),
        clear_of_world_edge(a),
        clear_of_world_edge(b),
        a_size <= SIZE_LIMIT,
        b_size <= SIZE_LIMIT,
        1 <= dist2_spec(a, b),
        dist2_spec(a, b) < (a_size + b_size) * (a_size + b_size),
    ensures
        ({
            let (ra, rb) = collision_pair_spec(a, b, a_size, b_size, 0, 0, fallback);
            &&& ra.x - a.x == -(rb.x - b.x)
            &&& ra.y - a.y == -(rb.y - b.y)
            &&& dist2_spec(ra, rb) >= (a_size + b_size) * (a_size + b_size)
        }),
{
    let d2 = dist2_spec(a, b);
    let dx = a.x - b.x;
    let dy = a.y - b.y;
    let ux = if dx >= 0 { dx as int } else { -dx as int };
    let uy = if dy >= 0 { dy as int } else { -dy as int };
    assert(ux * ux + uy * uy == d2 && ux >= 0 && uy >= 0) by (nonlinear_arith)
        requires
            d2 == (a.x - b.x) * (a.x - b.x) + (a.y - b.y) * (a.y - b.y),
            dx == a.x - b.x,
            dy == a.y - b.y,
            ux == (if dx >= 0 { dx as int } else { -dx as int }),
            uy == (if dy >= 0 { dy as int } else { -dy as int }),
    ;
    let d = isqrt_spec(dx * dx + dy * dy);
    crate::geom::lemma_isqrt_spec_bounds(d2);
    let s = a_size + b_size;
    assert(d < s) by (nonlinear_arith)
        requires
            d * d <= d2,
            d2 < s * s,
            d >= 0,
            s >= 0,
    ;
    assert(d >= 1) by (nonlinear_arith)
        requires
            d2 < (d + 1) * (d + 1),
            d2 >= 1,
            d >= 0,
    ;
    let ov = s - d;
    assert(ux <= d && uy <= d) by (nonlinear_arith)
        requires
            ux * ux + uy * uy == d2,
            d2 < (d + 1) * (d + 1),
            ux >= 0,
            uy >= 0,
            d >= 0,
    ;
    let ex = push_mag_spec(ux, ov, 1, d, 2);
    let ey = push_mag_spec(uy, ov, 1, d, 2);
    assert(ux * ov * 1 == ux * ov && uy * ov * 1 == uy * ov && d * 2 == 2 * d)
        by (nonlinear_arith);
    assert(ex == ceil_div_spec(ux * ov, 2 * d));
    assert(ey == ceil_div_spec(uy * ov, 2 * d));
    assert(ux * ov >= 0 && uy * ov >= 0) by (nonlinear_arith)
        requires
            ux >= 0,
            uy >= 0,
            ov >= 1,
    ;
    crate::geom::lemma_ceil_div_bounds(ux * ov, 2 * d);
    crate::geom::lemma_ceil_div_bounds(uy * ov, 2 * d);
    assert(d * (2 * ex) >= ux * ov && d * (2 * ey) >= uy * ov) by (nonlinear_arith)
        requires
            ex * (2 * d) >= ux * ov,
            ey * (2 * d) >= uy * ov,
    ;
    lemma_axis_separates(ux, d, ov, 2 * ex);
    lemma_axis_separates(uy, d, ov, 2 * ey);
    lemma_push_le_overlap(ux, d, ov, 1, 2);
    lemma_push_le_overlap(uy, d, ov, 1, 2);
    assert(ov + 1 <= 2 * SIZE_LIMIT + 1);
    let (ra, rb) = collision_pair_spec(a, b, a_size, b_size, 0, 0, fallback);
    assert(ra.x == (if dx >= 0 { a.x + ex } else { a.x - ex }));
    assert(rb.x == (if dx >= 0 { b.x - ex } else { b.x + ex }));
    assert(ra.y == (if dy >= 0 { a.y + ey } else { a.y - ey }));
    assert(rb.y == (if dy >= 0 { b.y - ey } else { b.y + ey }));
    let ndx = ra.x - rb.x;
    let ndy = ra.y - rb.y;
    assert(ndx * ndx == (ux + 2 * ex) * (ux + 2 * ex)) by (nonlinear_arith)
        requires
            ndx == (if dx >= 0 { dx + 2 * ex } else { dx - 2 * ex }),
            ux == (if dx >= 0 { dx as int } else { -dx as int }),
            ex >= 0,
    ;
    assert(ndy * ndy == (uy + 2 * ey) * (uy + 2 * ey)) by (nonlinear_arith)
        requires
            ndy == (if dy >= 0 { dy + 2 * ey } else { dy - 2 * ey }),
            uy == (if dy >= 0 { dy as int } else { -dy as int }),
            ey >= 0,
    ;
    let nx2 = (ux + 2 * ex) * (ux + 2 * ex);
    let ny2 = (uy + 2 * ey) * (uy + 2 * ey);
    assert((nx2 + ny2) * (d * d) >= (ux * ux + uy * uy) * (s * s)) by (nonlinear_arith)
        requires
            nx2 * (d * d) >= (ux * ux) * ((d + ov) * (d + ov)),
            ny2 * (d * d) >= (uy * uy) * ((d + ov) * (d + ov)),
            s == d + ov,
    ;
    assert((ux * ux + uy * uy) * (s * s) >= (d * d) * (s * s)) by (nonlinear_arith)
        requires
            ux * ux + uy * uy >= d * d,
            s >= 0,
    ;
    assert(nx2 + ny2 >= s * s) by (nonlinear_arith)
        requires
            (nx2 + ny2) * (d * d) >= (d * d) * (s * s),
            d >= 1,
    ;
    assert(dist2_spec(ra, rb) == ndx * ndx + ndy * ndy);
}

/// When a moving unit overlaps a stationary one, the stationary unit
/// receives the whole correction: the mover is not displaced at all, and
/// the stationary unit is pushed the full overlap away, so the pair no
/// longer overlaps afterwards.
pub proof fn lemma_moving_pushes_stationary(
    a: Vec2,
    b: Vec2,
    a_size: u64,
    b_size: u64,
    a_pri: u64,
    fallback: Vec2,
)
    requires
        a.in_bounds(),
        b.in_bounds(),
        clear_of_world_edge(a),
        clear_of_world_edge(b),
        a_size <= SIZE_LIMIT,
        b_size <= SIZE_LIMIT,
        1 <= a_pri <= crate::unit::PRIORITY_LIMIT,
        1 <= dist2_spec(a, b),
        dist2_spec(a, b) < (a_size + b_size) * (a_size + b_size),
    ensures
        ({
            let (ra, rb) = collision_pair_spec(a, b, a_size, b_size, a_pri, 0, fallback);
            &&& ra == a
            &&& rb != b
            &&& dist2_spec(ra, rb) >= (a_size + b_size) * (a_size + b_size)
        }),
{
    let d2 = dist2_spec(a, b);
    let dx = a.x - b.x;
    let dy = a.y - b.y;
    let ux = if dx >= 0 { dx as int } else { -dx as int };
    let uy = if dy >= 0 { dy as int } else { -dy as int };
    assert(ux * ux + uy * uy == d2 && ux >= 0 && uy >= 0) by (nonlinear_arith)
        requires
            d2 == (a.x - b.x) * (a.x - b.x) + (a.y - b.y) * (a.y - b.y),
            dx == a.x - b.x,
            dy == a.y - b.y,
            ux == (if dx >= 0 { dx as int } else { -dx as int }),
            uy == (if dy >= 0 { dy as int } else { -dy as int }),
    ;
    let d = isqrt_spec(dx * dx + dy * dy);
    crate::geom::lemma_isqrt_spec_bounds(d2);
    let s = a_size + b_size;
    assert(d < s) by (nonlinear_arith)
        requires
            d * d <= d2,
            d2 < s * s,
            d >= 0,
            s >= 0,
    ;
    assert(d >= 1) by (nonlinear_arith)
        requires
            d2 < (d + 1) * (d + 1),
            d2 >= 1,
            d >= 0,
    ;
    let ov = s - d;
    assert(ux <= d && uy <= d) by (nonlinear_arith)
        requires
            ux * ux + uy * uy == d2,
            d2 < (d + 1) * (d + 1),
            ux >= 0,
            uy >= 0,
            d >= 0,
    ;
    let p = a_pri as int;
    // the mover's weight is zero, so its correction vanishes
    assert(ux * ov * 0 == 0 && uy * ov * 0 == 0) by (nonlinear_arith);
    assert(d * p >= 1) by (nonlinear_arith)
        requires
            d >= 1,
            p >= 1,
    ;
    vstd::arithmetic::div_mod::lemma_basic_div(d * p - 1, d * p);
    assert(push_mag_spec(ux, ov, 0, d, p) == 0);
    assert(push_mag_spec(uy, ov, 0, d, p) == 0);
    // the stationary side carries the full weight: its push covers the
    // whole overlap share of each axis
    let ebx = push_mag_spec(ux, ov, p, d, p);
    let eby = push_mag_spec(uy, ov, p, d, p);
    assert(ux * ov * p >= 0 && uy * ov * p >= 0) by (nonlinear_arith)
        requires
            ux >= 0,
            uy >= 0,
            ov >= 1,
            p >= 1,
    ;
    crate::geom::lemma_ceil_div_bounds(ux * ov * p, d * p);
    crate::geom::lemma_ceil_div_bounds(uy * ov * p, d * p);
    assert(d * ebx >= ux * ov && d * eby >= uy * ov) by (nonlinear_arith)
        requires
            ebx * (d * p) >= ux * ov * p,
            eby * (d * p) >= uy * ov * p,
            p >= 1,
            d >= 1,
            ebx >= 0,
            eby >= 0,
            ux * ov >= 0,
            uy * ov >= 0,
    ;
    lemma_axis_separates(ux, d, ov, ebx);
    lemma_axis_separates(uy, d, ov, eby);
    lemma_push_le_overlap(ux, d, ov, p, p);
    lemma_push_le_overlap(uy, d, ov, p, p);
    assert(ov + 1 <= 2 * SIZE_LIMIT + 1);
    assert(ux >= 1 || uy >= 1) by (nonlinear_arith)
        requires
            ux * ux + uy * uy == d2,
            d2 >= 1,
            ux >= 0,
            uy >= 0,
    ;
    if ux >= 1 {
        assert(ux * ov * p >= 1) by (nonlinear_arith)
            requires
                ux >= 1,
                ov >= 1,
                p >= 1,
        ;
        assert(ebx >= 1);
    } else {
        assert(uy * ov * p >= 1) by (nonlinear_arith)
            requires
                uy >= 1,
                ov >= 1,
                p >= 1,
        ;
        assert(eby >= 1);
    }
    let (ra, rb) = collision_pair_spec(a, b, a_size, b_size, a_pri, 0, fallback);
    assert(ra.x == a.x && ra.y == a.y);
    assert(rb.x == (if dx >= 0 { b.x - ebx } else { b.x + ebx }));
    assert(rb.y == (if dy >= 0 { b.y - eby } else { b.y + eby }));
    assert(rb.x != b.x || rb.y != b.y);
    let ndx = ra.x - rb.x;
    let ndy = ra.y - rb.y;
    assert(ndx * ndx == (ux + ebx) * (ux + ebx)) by (nonlinear_arith)
        requires
            ndx == (if dx >= 0 { dx + ebx } else { dx - ebx }),
            ux == (if dx >= 0 { dx as int } else { -dx as int }),
            ebx >= 0,
    ;
    assert(ndy * ndy == (uy + eby) * (uy + eby)) by (nonlinear_arith)
        requires
            ndy == (if dy >= 0 { dy + eby } else { dy - eby }),
            uy == (if dy >= 0 { dy as int } else { -dy as int }),
            eby >= 0,
    ;
    let nx2 = (ux + ebx) * (ux + ebx);
    let ny2 = (uy + eby) * (uy + eby);
    assert((nx2 + ny2) * (d * d) >= (ux * ux + uy * uy) * (s * s)) by (nonlinear_arith)
        requires
            nx2 * (d * d) >= (ux * ux) * ((d + ov) * (d + ov)),
            ny2 * (d * d) >= (uy * uy) * ((d + ov) * (d + ov)),
            s == d + ov,
    ;
    assert((ux * ux + uy * uy) * (s * s) >= (d * d) * (s * s)) by (nonlinear_arith)
        requires
            ux * ux + uy * uy >= d * d,
            s >= 0,
    ;
    assert(nx2 + ny2 >= s * s) by (nonlinear_arith)
        requires
            (nx2 + ny2) * (d * d) >= (d * d) * (s * s),
            d >= 1,
    ;
    assert(dist2_spec(ra, rb) == ndx * ndx + ndy * ndy);
}

/// Two stationary units standing on the very same point separate fully
/// along the randomly drawn axis: the displacements are opposite and equal,
/// and the pair no longer overlaps afterwards, whatever nonzero direction
/// was drawn.
pub proof fn lemma_coincident_collision_separates(
    a: Vec2,
    a_size: u64,
    b_size: u64,
    fallback: Vec2,
)
    requires
        a.in_bounds(),
        clear_of_world_edge(a),
        1 <= a_size <= SIZE_LIMIT,
        1 <= b_size <= SIZE_LIMIT,
        -1000 <= fallback.x <= 1000,
        -1000 <= fallback.y <= 1000,
        !(fallback.x == 0 && fallback.y == 0),
    ensures
        ({
            let (ra, rb) = collision_pair_spec(a, a, a_size, b_size, 0, 0, fallback);
            &&& ra.x - a.x == -(rb.x - a.x)
            &&& ra.y - a.y == -(rb.y - a.y)
            &&& dist2_spec(ra, rb) >= (a_size + b_size) * (a_size + b_size)
        }),
{
    let d2 = dist2_spec(a, a);
    assert(d2 == 0) by (nonlinear_arith)
        requires
            d2 == (a.x - a.x) * (a.x - a.x) + (a.y - a.y) * (a.y - a.y),
    ;
    let dx = fallback.x as int;
    let dy = fallback.y as int;
    let ux = if dx >= 0 { dx } else { -dx };
    let uy = if dy >= 0 { dy } else { -dy };
    let fb2 = dx * dx + dy * dy;
    assert(ux * ux + uy * uy == fb2 && ux >= 0 && uy >= 0 && fb2 >= 1) by (nonlinear_arith)
        requires
            fb2 == dx * dx + dy * dy,
            ux == (if dx >= 0 { dx } else { -dx }),
            uy == (if dy >= 0 { dy } else { -dy }),
            !(dx == 0 && dy == 0),
    ;
    let d = isqrt_spec(fb2);
    crate::geom::lemma_isqrt_spec_bounds(fb2);
    assert(d >= 1) by (nonlinear_arith)
        requires
            fb2 < (d + 1) * (d + 1),
            fb2 >= 1,
            d >= 0,
    ;
    let s = a_size + b_size;
    let ov = s as int;
    assert(ux <= d && uy <= d) by (nonlinear_arith)
        requires
            ux * ux + uy * uy == fb2,
            fb2 < (d + 1) * (d + 1),
            ux >= 0,
            uy >= 0,
            d >= 0,
    ;
    let ex = push_mag_spec(ux, ov, 1, d, 2);
    let ey = push_mag_spec(uy, ov, 1, d, 2);
    assert(ux * ov * 1 == ux * ov && uy * ov * 1 == uy * ov && d * 2 == 2 * d)
        by (nonlinear_arith);
    assert(ux * ov >= 0 && uy * ov >= 0) by (nonlinear_arith)
        requires
            ux >= 0,
            uy >= 0,
            ov >= 1,
    ;
    crate::geom::lemma_ceil_div_bounds(ux * ov, 2 * d);
    crate::geom::lemma_ceil_div_bounds(uy * ov, 2 * d);
    lemma_push_le_overlap(ux, d, ov, 1, 2);
    lemma_push_le_overlap(uy, d, ov, 1, 2);
    assert(ov + 1 <= 2 * SIZE_LIMIT + 1);
    let (ra, rb) = collision_pair_spec(a, a, a_size, b_size, 0, 0, fallback);
    assert(ra.x == (if dx >= 0 { a.x + ex } else { a.x - ex }));
    assert(rb.x == (if dx >= 0 { a.x - ex } else { a.x + ex }));
    assert(ra.y == (if dy >= 0 { a.y + ey } else { a.y - ey }));
    assert(rb.y == (if dy >= 0 { a.y - ey } else { a.y + ey }));
    let ndx = ra.x - rb.x;
    let ndy = ra.y - rb.y;
    assert(ndx * ndx == (2 * ex) * (2 * ex)) by (nonlinear_arith)
        requires
            ndx == (if dx >= 0 { 2 * ex } else { -(2 * ex) }),
            ex >= 0,
    ;
    assert(ndy * ndy == (2 * ey) * (2 * ey)) by (nonlinear_arith)
        requires
            ndy == (if dy >= 0 { 2 * ey } else { -(2 * ey) }),
            ey >= 0,
    ;
    assert((2 * ex) * (2 * ex) * (d * d) >= (ux * ux) * (ov * ov)) by (nonlinear_arith)
        requires
            ex * (2 * d) >= ux * ov,
            ux * ov >= 0,
            ex >= 0,
            d >= 1,
    ;
    assert((2 * ey) * (2 * ey) * (d * d) >= (uy * uy) * (ov * ov)) by (nonlinear_arith)
        requires
            ey * (2 * d) >= uy * ov,
            uy * ov >= 0,
            ey >= 0,
            d >= 1,
    ;
    let nx2 = (2 * ex) * (2 * ex);
    let ny2 = (2 * ey) * (2 * ey);
    assert((nx2 + ny2) * (d * d) >= (d * d) * (ov * ov)) by (nonlinear_arith)
        requires
            nx2 * (d * d) >= (ux * ux) * (ov * ov),
            ny2 * (d * d) >= (uy * uy) * (ov * ov),
            ux * ux + uy * uy >= d * d,
            ov >= 0,
    ;
    assert(nx2 + ny2 >= ov * ov) by (nonlinear_arith)
        requires
            (nx2 + ny2) * (d * d) >= (d * d) * (ov * ov),
            d >= 1,
    ;
    assert(dist2_spec(ra, rb) == ndx * ndx + ndy * ndy);
}

/// The movement priority a unit weighs in this tick's collisions: its
/// definition's weight while its behaviour is `Move`, zero otherwise.
pub open spec fn collision_priority_spec(behaviour: Option<Behaviour>, unit: Unit) -> u64 {
    match behaviour {
        Some(Behaviour::Move { .. }) => unit.movement_priority,
        _ => 0u64,
    }
}

/// One ordered-pair step of the collision pass: resolve the pair `(a, b)`
/// when both slots are live with loaded definitions, and change nothing
/// otherwise.
pub open spec fn collide_pair_step_spec(
    positions: Seq<Position>,
    alive: Seq<bool>,
    behaviours: Seq<Option<Behaviour>>,
    unit_handles: Seq<usize>,
    assets: UnitAssets,
    a: int,
    b: int,
    fb: Vec2,
) -> Seq<Position> {
    if a != b && alive[a] && alive[b] {
        match (
            crate::world::loaded_unit(assets, unit_handles[a]),
            crate::world::loaded_unit(assets, unit_handles[b]),
        ) {
            (Some(ua), Some(ub)) => {
                let pair = collision_pair_spec(
                    positions[a].position,
                    positions[b].position,
                    ua.size,
                    ub.size,
                    collision_priority_spec(behaviours[a], ua),
                    collision_priority_spec(behaviours[b], ub),
                    fb,
                );
                positions.update(a, Position { position: pair.0 }).update(
                    b,
                    Position { position: pair.1 },
                )
            },
            _ => positions,
        }
    } else {
        positions
    }
}

/// Row `a` of the collision pass, partners `0 .. b` resolved in order; the
/// direction drawn for the ordered pair `(a, b')` sits at `a * n + b'`.
pub open spec fn collide_row_spec(
    positions: Seq<Position>,
    alive: Seq<bool>,
    behaviours: Seq<Option<Behaviour>>,
    unit_handles: Seq<usize>,
    assets: UnitAssets,
    a: int,
    b: int,
    draws: Seq<Vec2>,
    n: int,
) -> Seq<Position>
    decreases b,
{
    if b <= 0 {
        positions
    } else {
        collide_pair_step_spec(
            collide_row_spec(positions, alive, behaviours, unit_handles, assets, a, b - 1, draws, n),
            alive,
            behaviours,
            unit_handles,
            assets,
            a,
            b - 1,
            draws[a * n + (b - 1)],
        )
    }
}

/// Rows `0 .. a` of the collision pass, each complete.
pub open spec fn collide_all_spec(
    positions: Seq<Position>,
    alive: Seq<bool>,
    behaviours: Seq<Option<Behaviour>>,
    unit_handles: Seq<usize>,
    assets: UnitAssets,
    a: int,
    draws: Seq<Vec2>,
    n: int,
) -> Seq<Position>
    decreases a,
{
    if a <= 0 {
        positions
    } else {
        collide_row_spec(
            collide_all_spec(positions, alive, behaviours, unit_handles, assets, a - 1, draws, n),
            alive,
            behaviours,
            unit_handles,
            assets,
            a - 1,
            n,
            draws,
            n,
        )
    }
}

/// A row whose own slot is dead or unloaded resolves nothing.
proof fn lemma_collide_row_identity(
    positions: Seq<Position>,
    alive: Seq<bool>,
    behaviours: Seq<Option<Behaviour>>,
    unit_handles: Seq<usize>,
    assets: UnitAssets,
    a: int,
    b: int,
    draws: Seq<Vec2>,
    n: int,
)
    requires
        0 <= a,
        !(alive[a] && crate::world::loaded_unit(assets, unit_handles[a]) is Some),
    ensures
        collide_row_spec(positions, alive, behaviours, unit_handles, assets, a, b, draws, n)
            == positions,
    decreases b,
{
    if b > 0 {
        lemma_collide_row_identity(
            positions,
            alive,
            behaviours,
            unit_handles,
            assets,
            a,
            b - 1,
            draws,
            n,
        );
    }
}

/// Correct every overlapping pair of live units, ordered pair by ordered
/// pair (deliberately O(n^2) for the small unit counts at play).  A unit
/// whose definition has not loaded is skipped this tick.  One separating
/// direction is drawn up front for every ordered pair and returned, so the
/// corrected positions are exactly the pair-by-pair fold of
/// [`collision_pair_spec`] over the drawn directions; a draw matters only
/// for a pair standing on one point.
pub fn unit_collision_system(
    alive: &Vec<bool>,
    behaviours: &Vec<Option<Behaviour>>,
    unit_handles: &Vec<usize>,
    assets: &UnitAssets,
    positions: &mut Vec<Position>,
) -> (draws: Vec<Vec2>)
    requires
        behaviours@.len() == alive@.len(),
        unit_handles@.len() == alive@.len(),
        old(positions)@.len() == alive@.len(),
        assets.wf(),
        alive@.len() * alive@.len() <= usize::MAX,
        forall|j: int|
            0 <= j < alive@.len() ==> (#[trigger] old(positions)@[j]).position.in_bounds(),
    ensures
        final(positions)@.len() == alive@.len(),
        forall|j: int|
            0 <= j < alive@.len() ==> (#[trigger] final(positions)@[j]).position.in_bounds(),
        forall|j: int|
            0 <= j < alive@.len() && !(alive@[j] && crate::world::loaded_unit(
                *assets,
                unit_handles@[j],
            ) is Some) ==> (#[trigger] final(positions)@[j]) == old(positions)@[j],
        draws@.len() == alive@.len() * alive@.len(),
        forall|k: int|
            0 <= k < draws@.len() ==> -1000 <= (#[trigger] draws@[k]).x <= 1000 && -1000
                <= draws@[k].y <= 1000 && !(draws@[k].x == 0 && draws@[k].y == 0),
        final(positions)@ == collide_all_spec(
            old(positions)@,
            alive@,
            behaviours@,
            unit_handles@,
            *assets,
            alive@.len() as int,
            draws@,
            alive@.len() as int,
        ),
{
    let n: usize = alive.len();
    let total: usize = n * n;
    let mut draws: Vec<Vec2> = Vec::new();
    while draws.len() < total
        invariant
            draws@.len() <= total,
            forall|k: int|
                0 <= k < draws@.len() ==> -1000 <= (#[trigger] draws@[k]).x <= 1000 && -1000
                    <= draws@[k].y <= 1000 && !(draws@[k].x == 0 && draws@[k].y == 0),
        decreases total - draws@.len(),
    {
        draws.push(random_direction());
    }
    let mut a_idx: usize = 0;
    while a_idx < n
        invariant
            a_idx <= n,
            n == alive@.len(),
            total == n * n,
            behaviours@.len() == n,
            unit_handles@.len() == n,
            positions@.len() == n,
            assets.wf(),
            draws@.len() == total,
            forall|k: int|
                0 <= k < draws@.len() ==> -1000 <= (#[trigger] draws@[k]).x <= 1000 && -1000
                    <= draws@[k].y <= 1000 && !(draws@[k].x == 0 && draws@[k].y == 0),
            forall|j: int| 0 <= j < n ==> (#[trigger] positions@[j]).position.in_bounds(),
            forall|j: int|
                0 <= j < n && !(alive@[j] && crate::world::loaded_unit(
                    *assets,
                    unit_handles@[j],
                ) is Some) ==> (#[trigger] positions@[j]) == old(positions)@[j],
            positions@ == collide_all_spec(
                old(positions)@,
                alive@,
                behaviours@,
                unit_handles@,
                *assets,
                a_idx as int,
                draws@,
                n as int,
            ),
        decreases n - a_idx,
    {
        let ghost row_base = positions@;
        if alive[a_idx] {
            match assets.get(unit_handles[a_idx]) {
                Some(a_unit) => {
                    proof {
                        assert(assets.entries@[unit_handles@[a_idx as int] as int].1 matches Some(
                            u,
                        ) ==> u.wf());
                    }
                    let a_size: u64 = a_unit.size;
                    let a_moving: bool = match &behaviours[a_idx] {
                        Some(Behaviour::Move { .. }) => true,
                        _ => false,
                    };
                    let a_pri: u64 = if a_moving {
                        a_unit.movement_priority
                    } else {
                        0
                    };
                    let mut b_idx: usize = 0;
                    while b_idx < n
                        invariant
                            n == alive@.len(),
                            total == n * n,
                            behaviours@.len() == n,
                            unit_handles@.len() == n,
                            positions@.len() == n,
                            assets.wf(),
                            a_idx < n,
                            b_idx <= n,
                            a_size <= SIZE_LIMIT,
                            a_pri <= crate::unit::PRIORITY_LIMIT,
                            alive@[a_idx as int],
                            crate::world::loaded_unit(*assets, unit_handles@[a_idx as int])
                                matches Some(au) && a_size == au.size && a_pri
                                == collision_priority_spec(behaviours@[a_idx as int], au),
                            draws@.len() == total,
                            forall|k: int|
                                0 <= k < draws@.len() ==> -1000 <= (#[trigger] draws@[k]).x <= 1000
                                    && -1000 <= draws@[k].y <= 1000 && !(draws@[k].x == 0
                                    && draws@[k].y == 0),
                            forall|j: int|
                                0 <= j < n ==> (#[trigger] positions@[j]).position.in_bounds(),
                            forall|j: int|
                                0 <= j < n && !(alive@[j] && crate::world::loaded_unit(
                                    *assets,
                                    unit_handles@[j],
                                ) is Some) ==> (#[trigger] positions@[j]) == old(positions)@[j],
                            row_base == collide_all_spec(
                                old(positions)@,
                                alive@,
                                behaviours@,
                                unit_handles@,
                                *assets,
                                a_idx as int,
                                draws@,
                                n as int,
                            ),
                            positions@ == collide_row_spec(
                                row_base,
                                alive@,
                                behaviours@,
                                unit_handles@,
                                *assets,
                                a_idx as int,
                                b_idx as int,
                                draws@,
                                n as int,
                            ),
                        decreases n - b_idx,
                    {
                        proof {
                            assert(a_idx * n + b_idx < n * n) by (nonlinear_arith)
                                requires
                                    0 <= a_idx < n,
                                    0 <= b_idx < n,
                            ;
                        }
                        if b_idx != a_idx && alive[b_idx] {
                            match assets.get(unit_handles[b_idx]) {
                                Some(b_unit) => {
                                    proof {
                                        assert(assets.entries@[unit_handles@[b_idx as int] as int]
                                            .1 matches Some(u) ==> u.wf());
                                    }
                                    let b_size: u64 = b_unit.size;
                                    let b_moving: bool = match &behaviours[b_idx] {
                                        Some(Behaviour::Move { .. }) => true,
                                        _ => false,
                                    };
                                    let b_pri: u64 = if b_moving {
                                        b_unit.movement_priority
                                    } else {
                                        0
                                    };
                                    let a_pos: Vec2 = positions[a_idx].position;
                                    let b_pos: Vec2 = positions[b_idx].position;
                                    let fallback: Vec2 = draws[a_idx * n + b_idx];
                                    let (na2, nb2) = resolve_collision_pair(
                                        a_pos,
                                        b_pos,
                                        a_size,
                                        b_size,
                                        a_pri,
                                        b_pri,
                                        fallback,
                                    );
                                    positions.set(a_idx, Position { position: na2 });
                                    positions.set(b_idx, Position { position: nb2 });
                                },
                                None => {
                                },
                            }
                        }
                        b_idx = b_idx + 1;
                    }
                },
                None => {
                    proof {
                        lemma_collide_row_identity(
                            positions@,
                            alive@,
                            behaviours@,
                            unit_handles@,
                            *assets,
                            a_idx as int,
                            n as int,
                            draws@,
                            n as int,
                        );
                    }
                },
            }
        } else {
            proof {
                lemma_collide_row_identity(
                    positions@,
                    alive@,
                    behaviours@,
                    unit_handles@,
                    *assets,
                    a_idx as int,
                    n as int,
                    draws@,
                    n as int,
                );
            }
        }
        a_idx = a_idx + 1;
    }
    draws
}

/// The correction magnitude stays within machine range: it is at most the
/// weighted numerator itself, which is bounded.
proof fn lemma_push_mag_bounded(u: int, ov: int, num: int, d: int, q: int)
    requires
        0 <= u <= 20_000_000,
        0 <= ov <= 2_000_000,
        0 <= num <= 2_000,
        1 <= d,
        1 <= q,
    ensures
        0 <= push_mag_spec(u, ov, num, d, q) <= 80_000_000_000_000_000,
{
    assert(0 <= u * ov && u * ov <= 40_000_000_000_000) by (nonlinear_arith)
        requires
            0 <= u <= 20_000_000,
            0 <= ov <= 2_000_000,
    ;
    assert(0 <= (u * ov) * num && (u * ov) * num <= 80_000_000_000_000_000) by (nonlinear_arith)
        requires
            0 <= u * ov <= 40_000_000_000_000,
            0 <= num <= 2_000,
    ;
    assert(d * q >= 1) by (nonlinear_arith)
        requires
            d >= 1,
            q >= 1,
    ;
    crate::geom::lemma_ceil_div_bounds(u * ov * num, d * q);
}

} // verus!
