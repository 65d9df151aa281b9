//! Eight-way facing and directional animation selection.
//!
//! A unit faces one of eight compass directions, derived from its last step
//! vector; a [`UnitAnimationSet`] maps a logical animation name ("idle",
//! "walk", "attack") and a facing to the concrete animation the renderer
//! plays.  The sector labels carry the isometric camera's 45-degree twist,
//! exactly as the renderer expects them.

use crate::animation::Animator;
use vstd::pervasive::VecAdditionalExecFns;
use vstd::prelude::*;

verus! {

/// One of eight compass facings.
#[derive(Clone, Copy, Debug, PartialEq, Eq, Structural)]
pub enum UnitDirection {
    Up,
    UpRight,
    Right,
    DownRight,
    Down,
    DownLeft,
    Left,
    UpLeft,
}

/// Numerator of the rational slope standing in for tan 22.5 degrees.
pub const OCTANT_LOW_NUM: i64 = 29;

/// Numerator of the rational slope standing in for tan 67.5 degrees.
pub const OCTANT_HIGH_NUM: i64 = 169;

/// Common denominator of the two octant slopes.
pub const OCTANT_DEN: i64 = 70;

/// Largest vector component the facing computation accepts.
pub const DIRECTION_INPUT_LIMIT: i64 = 100_000_000;

/// The facing for a step vector, by octant.  The sector boundaries sit at
/// the rational slopes `29/70` and `169/70`; the sector labels are rotated a
/// quarter-sector against the screen axes for the isometric camera, so a
/// step straight along positive `x` faces `DownRight`.
pub open spec fn direction_spec(x: int, y: int) -> UnitDirection {
    let ax = if x >= 0 { x } else { -x };
    let ay = if y >= 0 { y } else { -y };
    if x == 0 && y == 0 {
        UnitDirection::DownRight
    } else if OCTANT_DEN * ay >= OCTANT_HIGH_NUM * ax {
        if y >= 0 {
            UnitDirection::UpRight
        } else {
            UnitDirection::DownLeft
        }
    } else if OCTANT_DEN * ay >= OCTANT_LOW_NUM * ax {
        if x > 0 && y > 0 {
            UnitDirection::Right
        } else if x > 0 {
            UnitDirection::Down
        } else if y > 0 {
            UnitDirection::Up
        } else {
            UnitDirection::Left
        }
    } else {
        if x > 0 {
            UnitDirection::DownRight
        } else if y >= 0 {
            UnitDirection::UpLeft
        } else {
            UnitDirection::Left
        }
    }
}

impl UnitDirection {
    /// Facing of a step vector.
    pub fn from_vec2(x: i64, y: i64) -> (r: UnitDirection)
        requires
            -DIRECTION_INPUT_LIMIT <= x <= DIRECTION_INPUT_LIMIT,
            -DIRECTION_INPUT_LIMIT <= y <= DIRECTION_INPUT_LIMIT,
        ensures
            r == direction_spec(x as int, y as int),
    {
        let ax: i64 = if x >= 0 {
            x
        } else {
            -x
        };
        let ay: i64 = if y >= 0 {
            y
        } else {
            -y
        };
        if x == 0 && y == 0 {
            UnitDirection::DownRight
        } else if OCTANT_DEN * ay >= OCTANT_HIGH_NUM * ax {
            if y >= 0 {
                UnitDirection::UpRight
            } else {
                UnitDirection::DownLeft
            }
        } else if OCTANT_DEN * ay >= OCTANT_LOW_NUM * ax {
            if x > 0 && y > 0 {
                UnitDirection::Right
            } else if x > 0 {
                UnitDirection::Down
            } else if y > 0 {
                UnitDirection::Up
            } else {
                UnitDirection::Left
            }
        } else {
            if x > 0 {
                UnitDirection::DownRight
            } else if y >= 0 {
                UnitDirection::UpLeft
            } else {
                UnitDirection::Left
            }
        }
    }
}

/// The concrete animation names of one logical animation, per facing.
#[derive(Clone, Debug, PartialEq)]
pub struct UnitAnimation {
    pub up: String,
    pub up_right: String,
    pub right: String,
    pub down_right: String,
    pub down: String,
    pub down_left: String,
    pub left: String,
    pub up_left: String,
}

/// The name a directional table yields for a facing.
pub open spec fn animation_name_spec(ua: UnitAnimation, direction: UnitDirection) -> Seq<char> {
    match direction {
        UnitDirection::Up => ua.up@,
        UnitDirection::UpRight => ua.up_right@,
        UnitDirection::Right => ua.right@,
        UnitDirection::DownRight => ua.down_right@,
        UnitDirection::Down => ua.down@,
        UnitDirection::DownLeft => ua.down_left@,
        UnitDirection::Left => ua.left@,
        UnitDirection::UpLeft => ua.up_left@,
    }
}

impl UnitAnimation {
    /// The concrete animation name for a facing.
    pub fn get_animation(&self, direction: &UnitDirection) -> (r: String)
        ensures
            r@ == animation_name_spec(*self, *direction),
    {
        match direction {
            UnitDirection::Up => self.up.clone(),
            UnitDirection::UpRight => self.up_right.clone(),
            UnitDirection::Right => self.right.clone(),
            UnitDirection::DownRight => self.down_right.clone(),
            UnitDirection::Down => self.down.clone(),
            UnitDirection::DownLeft => self.down_left.clone(),
            UnitDirection::Left => self.left.clone(),
            UnitDirection::UpLeft => self.up_left.clone(),
        }
    }
}

/// Directional tables, keyed by logical animation name.
#[derive(Clone, Debug, PartialEq)]
pub struct UnitAnimationSet {
    pub animations: Vec<(String, UnitAnimation)>,
}

/// The first directional table listed under `name`, if any.
pub open spec fn unit_animation_for_name(
    animations: Seq<(String, UnitAnimation)>,
    name: Seq<char>,
) -> Option<UnitAnimation>
    decreases animations.len(),
{
    if animations.len() == 0 {
        None
    } else if animations[0].0@ == name {
        Some(animations[0].1)
    } else {
        unit_animation_for_name(animations.drop_first(), name)
    }
}

impl UnitAnimationSet {
    /// The concrete animation name for a logical name and a facing.
    pub fn get(&self, name: &String, direction: &UnitDirection) -> (r: Option<String>)
        ensures
            match r {
                Some(s) => {
                    &&& unit_animation_for_name(self.animations@, name@) matches Some(ua)
                    &&& s@ == animation_name_spec(ua, *direction)
                },
                None => unit_animation_for_name(self.animations@, name@) is None,
            },
    {
        let mut i: usize = 0;
        proof {
            assert(self.animations@.subrange(0, self.animations@.len() as int)
                =~= self.animations@);
        }
        while i < self.animations.len()
            invariant
                i <= self.animations@.len(),
                unit_animation_for_name(self.animations@, name@) == unit_animation_for_name(
                    self.animations@.subrange(i as int, self.animations@.len() as int),
                    name@,
                ),
            decreases self.animations@.len() - i,
        {
            proof {
                assert(self.animations@.subrange(i as int, self.animations@.len() as int)
                    .drop_first() =~= self.animations@.subrange(
                    i + 1 as int,
                    self.animations@.len() as int,
                ));
            }
            if self.animations[i].0 == *name {
                return Some(self.animations[i].1.get_animation(direction));
            }
            i = i + 1;
        }
        None
    }
}

/// The logical animation a unit asks for, before facing is applied.
pub struct UnitAnimator {
    pub current_animation: String,
    /// When set, the next selection restarts the animation from its first
    /// frame instead of keeping playback.
    pub reset_animation: bool,
}

impl UnitAnimator {
    pub fn new(current_animation: String) -> (r: UnitAnimator)
        ensures
            r.current_animation@ == current_animation@,
            !r.reset_animation,
    {
        UnitAnimator { current_animation, reset_animation: false }
    }

    /// Request a logical animation, with playback kept.
    pub fn play(&mut self, name: String)
        ensures
            final(self).current_animation@ == name@,
            !final(self).reset_animation,
    {
        self.current_animation = name;
        self.reset_animation = false;
    }

    pub fn playing(&self) -> (r: &String)
        ensures
            r@ == self.current_animation@,
    {
        &self.current_animation
    }

    /// Request a logical animation without touching the reset flag.
    pub fn set_playing(&mut self, name: String)
        ensures
            final(self).current_animation@ == name@,
            final(self).reset_animation == old(self).reset_animation,
    {
        self.current_animation = name;
    }
}

/// Resolve a unit's logical animation and facing to a concrete animation and
/// hand it to the animator.  A missing table or entry is a not-yet-loaded
/// asset: the unit is skipped this tick and retried the next, never failed.
/// Returns whether a concrete animation was applied.
pub fn select_animation(
    animator: &mut Animator,
    unit_animator: &mut UnitAnimator,
    direction: &UnitDirection,
    set: &UnitAnimationSet,
) -> (applied: bool)
    ensures
        applied == (unit_animation_for_name(set.animations@, old(unit_animator).current_animation@)
            is Some),
        !applied ==> *final(animator) == *old(animator) && *final(unit_animator) == *old(
            unit_animator,
        ),
        applied ==> {
            &&& unit_animation_for_name(
                set.animations@,
                old(unit_animator).current_animation@,
            ) matches Some(ua)
            &&& final(unit_animator).current_animation@ == old(
                unit_animator,
            ).current_animation@
            &&& !final(unit_animator).reset_animation
            &&& (old(unit_animator).reset_animation ==> {
                &&& final(animator).playing_animation@ == animation_name_spec(ua, *direction)
                &&& final(animator).play_time_micros == 0
                &&& final(animator).current_frame == 0
                &&& final(animator).operators@.len() == old(animator).operators@.len() + 1
                &&& final(animator).operators@.last() matches
                    crate::animation::AnimatorOperator::Play(n) && n@ == animation_name_spec(
                    ua,
                    *direction,
                )
            })
            &&& (!old(unit_animator).reset_animation ==> {
                &&& final(animator).playing_animation@ == animation_name_spec(ua, *direction)
                &&& final(animator).play_time_micros == old(animator).play_time_micros
                &&& final(animator).current_frame == old(animator).current_frame
            })
        },
        old(animator).wf() ==> final(animator).wf(),
{
    match set.get(&unit_animator.current_animation, direction) {
        None => false,
        Some(name) => {
            if unit_animator.reset_animation {
                animator.play(name);
                unit_animator.reset_animation = false;
            } else {
                animator.set_playing(name);
            }
            true
        },
    }
}

/// The directional table a handle resolves to, if it has loaded.
pub open spec fn loaded_unit_animation_set(
    entries: Seq<(String, Option<UnitAnimationSet>)>,
    handle: usize,
) -> Option<UnitAnimationSet> {
    if handle < entries.len() {
        entries[handle as int].1
    } else {
        None
    }
}

/// What the selection pass did to entity `i`: where the unit is live and
/// its directional table resolves, the animator now plays the directional
/// animation of the logical animation the unit asked for; everything else
/// is untouched.
pub open spec fn selected_animation_ok(
    alive: Seq<bool>,
    directions: Seq<UnitDirection>,
    unit_animation_handles: Seq<usize>,
    assets: Seq<(String, Option<UnitAnimationSet>)>,
    unit_animators0: Seq<UnitAnimator>,
    animators0: Seq<Animator>,
    unit_animators1: Seq<UnitAnimator>,
    animators1: Seq<Animator>,
    i: int,
) -> bool {
    let untouched = animators1[i] == animators0[i] && unit_animators1[i] == unit_animators0[i];
    if alive[i] {
        match loaded_unit_animation_set(assets, unit_animation_handles[i]) {
            Some(set) => match unit_animation_for_name(
                set.animations@,
                unit_animators0[i].current_animation@,
            ) {
                Some(ua) => {
                    &&& animators1[i].playing_animation@ == animation_name_spec(ua, directions[i])
                    &&& !unit_animators1[i].reset_animation
                },
                None => untouched,
            },
            None => untouched,
        }
    } else {
        untouched
    }
}

/// Resolve every live unit's logical animation and facing into the concrete
/// animation its animator plays.  A missing table or entry skips the unit
/// for the tick.
pub fn unit_animation_system(
    alive: &Vec<bool>,
    directions: &Vec<UnitDirection>,
    unit_animation_handles: &Vec<usize>,
    assets: &Vec<(String, Option<UnitAnimationSet>)>,
    unit_animators: &mut Vec<UnitAnimator>,
    animators: &mut Vec<Animator>,
)
    requires
        directions@.len() == alive@.len(),
        unit_animation_handles@.len() == alive@.len(),
        old(unit_animators)@.len() == alive@.len(),
        old(animators)@.len() == alive@.len(),
        forall|j: int| 0 <= j < alive@.len() ==> (#[trigger] old(animators)@[j]).wf(),
    ensures
        final(unit_animators)@.len() == alive@.len(),
        final(animators)@.len() == alive@.len(),
        forall|j: int| 0 <= j < alive@.len() ==> (#[trigger] final(animators)@[j]).wf(),
        forall|i: int|
            0 <= i < alive@.len() ==> selected_animation_ok(
                alive@,
                directions@,
                unit_animation_handles@,
                assets@,
                old(unit_animators)@,
                old(animators)@,
                final(unit_animators)@,
                final(animators)@,
                i,
            ),
{
    let n: usize = alive.len();
    let mut i: usize = 0;
    while i < n
        invariant
            i <= n,
            n == alive@.len(),
            directions@.len() == n,
            unit_animation_handles@.len() == n,
            unit_animators@.len() == n,
            animators@.len() == n,
            forall|j: int| 0 <= j < n ==> (#[trigger] animators@[j]).wf(),
            forall|j: int| i <= j < n ==> (#[trigger] animators@[j]) == old(animators)@[j],
            forall|j: int|
                i <= j < n ==> (#[trigger] unit_animators@[j]) == old(unit_animators)@[j],
            forall|j: int|
                0 <= j < i ==> selected_animation_ok(
                    alive@,
                    directions@,
                    unit_animation_handles@,
                    assets@,
                    old(unit_animators)@,
                    old(animators)@,
                    unit_animators@,
                    animators@,
                    j,
                ),
        decreases n - i,
    {
        let ghost an_entry = animators@;
        let ghost ua_entry = unit_animators@;
        if alive[i] {
            let handle: usize = unit_animation_handles[i];
            if handle < assets.len() {
                match &assets[handle].1 {
                    Some(set) => {
                        let mut a = Animator {
                            animation_set: 0,
                            playing_animation: String::new(),
                            play_time_micros: 0,
                            current_frame: 0,
                            current_frame_set: false,
                            current_frame_changed: false,
                            operators: Vec::new(),
                        };
                        animators.set_and_swap(i, &mut a);
                        let mut ua = UnitAnimator {
                            current_animation: String::new(),
                            reset_animation: false,
                        };
                        unit_animators.set_and_swap(i, &mut ua);
                        let direction: UnitDirection = directions[i];
                        let _applied = select_animation(&mut a, &mut ua, &direction, set);
                        animators.set_and_swap(i, &mut a);
                        unit_animators.set_and_swap(i, &mut ua);
                    },
                    None => {
                    },
                }
            }
        }
        proof {
            assert forall|j: int| 0 <= j < i implies selected_animation_ok(
                alive@,
                directions@,
                unit_animation_handles@,
                assets@,
                old(unit_animators)@,
                old(animators)@,
                unit_animators@,
                animators@,
                j,
            ) by {
                assert(animators@[j] == an_entry[j]);
                assert(unit_animators@[j] == ua_entry[j]);
                assert(selected_animation_ok(
                    alive@,
                    directions@,
                    unit_animation_handles@,
                    assets@,
                    old(unit_animators)@,
                    old(animators)@,
                    ua_entry,
                    an_entry,
                    j,
                ));
            }
            assert(selected_animation_ok(
                alive@,
                directions@,
                unit_animation_handles@,
                assets@,
                old(unit_animators)@,
                old(animators)@,
                unit_animators@,
                animators@,
                i as int,
            ));
        }
        i = i + 1;
    }
}

} // verus!
