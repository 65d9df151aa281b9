//! Frame animation state.
//!
//! An [`Animator`] tracks which animation a unit plays, how far into it the
//! unit is, and — crucially for combat — whether the derived frame index
//! *just* changed this tick.  Attack damage is edge-triggered on that flag,
//! so a frame deals its damage exactly once however many ticks it stays
//! current, and not at all if the frame is skipped over between ticks.
//!
//! All times are in microseconds.

use crate::network::NetworkEntity;
use vstd::prelude::*;

verus! {

/// Longest frame duration: one hundred seconds.
pub const FRAME_LEN_LIMIT: u64 = 100_000_000;

/// Largest stored play time; one full animation period always fits.
pub const PLAY_TIME_LIMIT: u64 = 500_000_000_000_000_000;

/// Largest tick delta the animator accepts.
pub const DT_LIMIT: u64 = 1_000_000_000_000;

/// One animation: a frame interval on a texture, played at a fixed frame
/// length.
#[derive(Clone, Copy, Debug, PartialEq, Eq, Structural)]
pub struct Animation {
    pub start: u32,
    pub end: u32,
    pub frame_length_micros: u64,
    pub texture: u32,
}

impl Animation {
    pub open spec fn wf(self) -> bool {
        &&& self.start <= self.end
        &&& 1 <= self.frame_length_micros <= FRAME_LEN_LIMIT
    }

    /// How many frames the animation cycles through.
    pub open spec fn frame_count(self) -> int {
        self.end - self.start + 1
    }

    /// One full cycle, in microseconds.
    pub open spec fn period(self) -> int {
        self.frame_length_micros * self.frame_count()
    }

    pub fn new(start: u32, end: u32, frame_length_micros: u64) -> (r: Animation)
        ensures
            r == (Animation { start, end, frame_length_micros, texture: 0u32 }),
    {
        Animation { start, end, frame_length_micros, texture: 0 }
    }
}

/// Geometry of one sprite sheet the animations index into.
#[derive(Clone, Debug, PartialEq)]
pub struct AnimationTexture {
    pub rows: usize,
    pub columns: usize,
    pub width: u64,
    pub height: u64,
    pub path: String,
}

/// A named family of animations sharing a set of textures.
#[derive(Clone, Debug, PartialEq)]
pub struct AnimationSet {
    pub animation_textures: Vec<(u32, AnimationTexture)>,
    pub animations: Vec<(String, Animation)>,
}

/// The first animation listed under `name`, if any.
pub open spec fn animation_for_name(
    animations: Seq<(String, Animation)>,
    name: Seq<char>,
) -> Option<Animation>
    decreases animations.len(),
{
    if animations.len() == 0 {
        None
    } else if animations[0].0@ == name {
        Some(animations[0].1)
    } else {
        animation_for_name(animations.drop_first(), name)
    }
}

impl AnimationSet {
    /// Every animation in the set is well formed.
    pub open spec fn wf(self) -> bool {
        forall|i: int|
            0 <= i < self.animations@.len() ==> (#[trigger] self.animations@[i]).1.wf()
    }

    /// Look an animation up by name.
    pub fn get(&self, name: &String) -> (r: Option<&Animation>)
        ensures
            match r {
                Some(a) => animation_for_name(self.animations@, name@) == Some(*a),
                None => animation_for_name(self.animations@, name@) is None,
            },
    {
        let mut i: usize = 0;
        proof {
            assert(self.animations@.subrange(0, self.animations@.len() as int)
                =~= self.animations@);
        }
        while i < self.animations.len()
            invariant
                i <= self.animations@.len(),
                animation_for_name(self.animations@, name@) == animation_for_name(
                    self.animations@.subrange(i as int, self.animations@.len() as int),
                    name@,
                ),
            decreases self.animations@.len() - i,
        {
            proof {
                assert(self.animations@.subrange(i as int, self.animations@.len() as int)
                    .drop_first() =~= self.animations@.subrange(
                    i + 1 as int,
                    self.animations@.len() as int,
                ));
            }
            if self.animations[i].0 == *name {
                return Some(&self.animations[i].1);
            }
            i = i + 1;
        }
        None
    }
}

/// Replicated animator change.
#[derive(Clone, Debug, PartialEq)]
pub enum AnimatorOperator {
    /// Restart `name` from its first frame.
    Play(String),
    /// Switch to `name`, keeping the given frame.
    SetPlaying(String, u32),
}

/// An animator change addressed to one replicated unit.
#[derive(Clone, Debug, PartialEq)]
pub struct AnimatorOperation {
    pub operator: AnimatorOperator,
    pub network_entity: NetworkEntity,
}

/// A batch of animator changes, sent unreliably: latest value wins.
#[derive(Clone, Debug, PartialEq)]
pub struct AnimatorMessage {
    pub operations: Vec<AnimatorOperation>,
}

/// Animation playback state of one unit.
pub struct Animator {
    /// Handle of the [`AnimationSet`] this unit renders with.
    pub animation_set: usize,
    /// Name of the animation currently being played.
    pub playing_animation: String,
    /// Play time into the animation, in microseconds.
    pub play_time_micros: u64,
    /// Current frame, updated each tick.
    pub current_frame: u32,
    /// When set, the play time is re-derived from `current_frame` on the
    /// next tick.
    pub current_frame_set: bool,
    /// True on the tick the frame changed.
    pub current_frame_changed: bool,
    /// Changes applied this tick, pending broadcast to every client.
    pub operators: Vec<AnimatorOperator>,
}

impl Animator {
    pub open spec fn wf(self) -> bool {
        self.play_time_micros <= PLAY_TIME_LIMIT
    }

    pub fn new(animation_set: usize, playing_animation: String) -> (r: Animator)
        ensures
            r.animation_set == animation_set,
            r.playing_animation@ == playing_animation@,
            r.play_time_micros == 0,
            r.current_frame == 0,
            !r.current_frame_set,
            r.current_frame_changed,
            r.operators@ == Seq::<AnimatorOperator>::empty(),
            r.wf(),
    {
        Animator {
            animation_set,
            playing_animation,
            play_time_micros: 0,
            current_frame: 0,
            current_frame_set: false,
            current_frame_changed: true,
            operators: Vec::new(),
        }
    }

    /// Restart `name` from frame zero and log the change for replication.
    pub fn play(&mut self, name: String)
        ensures
            final(self).playing_animation@ == name@,
            final(self).play_time_micros == 0,
            final(self).current_frame == 0,
            final(self).current_frame_changed,
            final(self).current_frame_set == old(self).current_frame_set,
            final(self).operators@ == old(self).operators@.push(
                AnimatorOperator::Play(name),
            ),
            final(self).animation_set == old(self).animation_set,
            final(self).wf(),
    {
        self.playing_animation = name.clone();
        self.play_time_micros = 0;
        self.current_frame = 0;
        self.current_frame_changed = true;
        self.operators.push(AnimatorOperator::Play(name));
    }

    pub fn playing(&self) -> (r: &String)
        ensures
            r@ == self.playing_animation@,
    {
        &self.playing_animation
    }

    /// Switch animation without resetting playback; a no-op when `name` is
    /// already playing, so repeated requests replicate nothing.
    pub fn set_playing(&mut self, name: String)
        ensures
            old(self).playing_animation@ == name@ ==> *final(self) == *old(self),
            old(self).playing_animation@ != name@ ==> {
                &&& final(self).playing_animation@ == name@
                &&& final(self).operators@ == old(self).operators@.push(
                    AnimatorOperator::SetPlaying(name, old(self).current_frame),
                )
                &&& final(self).play_time_micros == old(self).play_time_micros
                &&& final(self).current_frame == old(self).current_frame
                &&& final(self).current_frame_set == old(self).current_frame_set
                &&& final(self).current_frame_changed == old(self).current_frame_changed
                &&& final(self).animation_set == old(self).animation_set
            },
            old(self).wf() ==> final(self).wf(),
    {
        if self.playing_animation == name {
            return ;
        }
        self.playing_animation = name.clone();
        let frame = self.current_frame;
        self.operators.push(AnimatorOperator::SetPlaying(name, frame));
    }

    pub fn current_frame(&self) -> (r: u32)
        ensures
            r == self.current_frame,
    {
        self.current_frame
    }

    /// Force the frame; playback time is re-derived on the next tick.
    pub fn set_current_frame(&mut self, frame: u32)
        ensures
            frame == old(self).current_frame ==> *final(self) == *old(self),
            frame != old(self).current_frame ==> {
                &&& final(self).current_frame == frame
                &&& final(self).current_frame_set
                &&& final(self).current_frame_changed
                &&& final(self).playing_animation@ == old(self).playing_animation@
                &&& final(self).play_time_micros == old(self).play_time_micros
                &&& final(self).operators@ == old(self).operators@
                &&& final(self).animation_set == old(self).animation_set
            },
            old(self).wf() ==> final(self).wf(),
    {
        if frame != self.current_frame {
            self.current_frame = frame;
            self.current_frame_set = true;
            self.current_frame_changed = true;
        }
    }

    /// True exactly on the tick whose advance changed the frame.
    pub fn frame_just_changed(&self) -> (r: bool)
        ensures
            r == self.current_frame_changed,
    {
        self.current_frame_changed
    }

    /// Apply a replicated change on an observer.
    pub fn apply(&mut self, operator: AnimatorOperator)
        ensures
            match operator {
                AnimatorOperator::Play(name) => {
                    &&& final(self).playing_animation@ == name@
                    &&& final(self).play_time_micros == 0
                    &&& final(self).current_frame == 0
                },
                AnimatorOperator::SetPlaying(name, frame) => {
                    &&& final(self).playing_animation@ == name@
                    &&& final(self).current_frame == frame
                    &&& final(self).play_time_micros == old(self).play_time_micros
                },
            },
            final(self).operators@ == old(self).operators@,
            final(self).animation_set == old(self).animation_set,
            final(self).current_frame_set == old(self).current_frame_set,
            final(self).current_frame_changed == old(self).current_frame_changed,
            old(self).wf() ==> final(self).wf(),
    {
        match operator {
            AnimatorOperator::Play(name) => {
                self.playing_animation = name;
                self.play_time_micros = 0;
                self.current_frame = 0;
            },
            AnimatorOperator::SetPlaying(name, frame) => {
                self.playing_animation = name;
                self.current_frame = frame;
            },
        }
    }

    /// The play time the next advance starts from: a forced frame wins over
    /// the stored play time.
    pub open spec fn effective_play_time(self, animation: Animation) -> int {
        if self.current_frame_set {
            self.current_frame * animation.frame_length_micros
        } else {
            self.play_time_micros as int
        }
    }

    /// Advance playback by `delta_micros` within `animation`.  The stored
    /// play time wraps at the animation period, the frame is the play time
    /// divided by the frame length, and the edge flag records whether this
    /// very call changed the frame.
    pub fn advance(&mut self, delta_micros: u64, animation: &Animation)
        requires
            old(self).wf(),
            animation.wf(),
            delta_micros <= DT_LIMIT,
        ensures
            final(self).play_time_micros == (old(self).effective_play_time(*animation)
                + delta_micros) % animation.period(),
            final(self).current_frame == final(self).play_time_micros as int
                / animation.frame_length_micros as int,
            final(self).current_frame_changed == (final(self).current_frame != old(
                self,
            ).current_frame),
            !final(self).current_frame_set,
            final(self).playing_animation@ == old(self).playing_animation@,
            final(self).operators@ == old(self).operators@,
            final(self).animation_set == old(self).animation_set,
            final(self).wf(),
    {
        let fl: u64 = animation.frame_length_micros;
        let count: u64 = (animation.end - animation.start) as u64 + 1;
        proof {
            assert(fl * count <= FRAME_LEN_LIMIT * 0x1_0000_0000u64) by (nonlinear_arith)
                requires
                    1 <= fl <= FRAME_LEN_LIMIT,
                    1 <= count <= 0x1_0000_0000u64,
            ;
            assert(fl <= fl * count) by (nonlinear_arith)
                requires
                    1 <= fl,
                    1 <= count,
            ;
        }
        let period: u64 = fl * count;
        self.current_frame_changed = false;
        if self.current_frame_set {
            self.current_frame_set = false;
            proof {
                assert((self.current_frame as u64) * fl <= 0xffff_ffffu64 * FRAME_LEN_LIMIT)
                    by (nonlinear_arith)
                    requires
                        self.current_frame <= 0xffff_ffffu64,
                        fl <= FRAME_LEN_LIMIT,
                ;
            }
            self.play_time_micros = (self.current_frame as u64) * fl;
        }
        let total: u64 = self.play_time_micros + delta_micros;
        let wrapped: u64 = total % period;
        proof {
            assert(wrapped < period);
            vstd::arithmetic::div_mod::lemma_multiply_divide_lt(
                wrapped as int,
                fl as int,
                count as int,
            );
        }
        let new_frame: u32 = (wrapped / fl) as u32;
        if new_frame != self.current_frame {
            self.current_frame = new_frame;
            self.current_frame_changed = true;
        }
        self.play_time_micros = wrapped;
    }
}

/// A looked-up animation inherits well-formedness from its set.
proof fn lemma_animation_for_name_wf(animations: Seq<(String, Animation)>, name: Seq<char>)
    requires
        forall|i: int| 0 <= i < animations.len() ==> (#[trigger] animations[i]).1.wf(),
    ensures
        animation_for_name(animations, name) matches Some(a) ==> a.wf(),
    decreases animations.len(),
{
    if animations.len() > 0 && animations[0].0@ != name {
        lemma_animation_for_name_wf(animations.drop_first(), name);
    }
}

/// The frame-animation set a handle resolves to, if it has loaded.
pub open spec fn loaded_animation_set(
    entries: Seq<(String, Option<AnimationSet>)>,
    handle: usize,
) -> Option<AnimationSet> {
    if handle < entries.len() {
        entries[handle as int].1
    } else {
        None
    }
}

/// What one animator tick did to entity `i`: advanced playback exactly as
/// [`Animator::advance`] says when the unit is live and both its animation
/// set and the playing animation resolve, and nothing otherwise (a missing
/// asset is retried next tick).
pub open spec fn advanced_animator_ok(
    alive: Seq<bool>,
    entries: Seq<(String, Option<AnimationSet>)>,
    animators0: Seq<Animator>,
    animators1: Seq<Animator>,
    dt_micros: int,
    i: int,
) -> bool {
    let a0 = animators0[i];
    let a1 = animators1[i];
    if alive[i] {
        match loaded_animation_set(entries, a0.animation_set) {
            Some(set) => match animation_for_name(set.animations@, a0.playing_animation@) {
                Some(animation) => {
                    &&& a1.play_time_micros == (a0.effective_play_time(animation) + dt_micros)
                        % animation.period()
                    &&& a1.current_frame == a1.play_time_micros as int
                        / animation.frame_length_micros as int
                    &&& a1.current_frame_changed == (a1.current_frame != a0.current_frame)
                    &&& !a1.current_frame_set
                    &&& a1.playing_animation@ == a0.playing_animation@
                    &&& a1.operators@ == a0.operators@
                    &&& a1.animation_set == a0.animation_set
                },
                None => a1 == a0,
            },
            None => a1 == a0,
        }
    } else {
        a1 == a0
    }
}

/// Advance every live unit's animation playback by one tick.
pub fn animator_system(
    alive: &Vec<bool>,
    animators: &mut Vec<Animator>,
    assets: &Vec<(String, Option<AnimationSet>)>,
    dt_micros: u64,
)
    requires
        old(animators)@.len() == alive@.len(),
        dt_micros <= DT_LIMIT,
        forall|j: int| 0 <= j < alive@.len() ==> (#[trigger] old(animators)@[j]).wf(),
        forall|e: int|
            0 <= e < assets@.len() ==> match (#[trigger] assets@[e]).1 {
                Some(s) => s.wf(),
                None => true,
            },
    ensures
        final(animators)@.len() == alive@.len(),
        forall|j: int| 0 <= j < alive@.len() ==> (#[trigger] final(animators)@[j]).wf(),
        forall|i: int|
            0 <= i < alive@.len() ==> advanced_animator_ok(
                alive@,
                assets@,
                old(animators)@,
                final(animators)@,
                dt_micros as int,
                i,
            ),
{
    let n: usize = alive.len();
    let mut i: usize = 0;
    while i < n
        invariant
            i <= n,
            n == alive@.len(),
            animators@.len() == n,
            dt_micros <= DT_LIMIT,
            forall|e: int|
                0 <= e < assets@.len() ==> match (#[trigger] assets@[e]).1 {
                    Some(s) => s.wf(),
                    None => true,
                },
            forall|j: int| 0 <= j < n ==> (#[trigger] animators@[j]).wf(),
            forall|j: int| i <= j < n ==> (#[trigger] animators@[j]) == old(animators)@[j],
            forall|j: int|
                0 <= j < i ==> advanced_animator_ok(
                    alive@,
                    assets@,
                    old(animators)@,
                    animators@,
                    dt_micros as int,
                    j,
                ),
        decreases n - i,
    {
        let ghost an_entry = animators@;
        if alive[i] {
            let handle: usize = animators[i].animation_set;
            if handle < assets.len() {
                match &assets[handle].1 {
                    Some(set) => {
                        proof {
                            assert((assets@[handle as int]).1 matches Some(s) ==> s.wf());
                        }
                        let playing = animators[i].playing_animation.clone();
                        match set.get(&playing) {
                            Some(animation) => {
                                proof {
                                    lemma_animation_for_name_wf(set.animations@, playing@);
                                }
                                let animation: Animation = *animation;
                                let mut a = Animator {
                                    animation_set: 0,
                                    playing_animation: String::new(),
                                    play_time_micros: 0,
                                    current_frame: 0,
                                    current_frame_set: false,
                                    current_frame_changed: false,
                                    operators: Vec::new(),
                                };
                                animators.set_and_swap(i, &mut a);
                                a.advance(dt_micros, &animation);
                                animators.set_and_swap(i, &mut a);
                            },
                            None => {
                            },
                        }
                    },
                    None => {
                    },
                }
            }
        }
        proof {
            assert forall|j: int| 0 <= j < i implies advanced_animator_ok(
                alive@,
                assets@,
                old(animators)@,
                animators@,
                dt_micros as int,
                j,
            ) by {
                assert(animators@[j] == an_entry[j]);
                assert(advanced_animator_ok(
                    alive@,
                    assets@,
                    old(animators)@,
                    an_entry,
                    dt_micros as int,
                    j,
                ));
            }
            assert(advanced_animator_ok(
                alive@,
                assets@,
                old(animators)@,
                animators@,
                dt_micros as int,
                i as int,
            ));
        }
        i = i + 1;
    }
}

/// One replicated change per drained operator, in push order.
pub open spec fn tag_operators_spec(ops: Seq<AnimatorOperator>, net: NetworkEntity) -> Seq<
    AnimatorOperation,
> {
    Seq::new(ops.len(), |k: int| AnimatorOperation { operator: ops[k], network_entity: net })
}

/// All changes the drain of the first `n` entities broadcasts, in entity
/// order, live units only.
pub open spec fn animator_operations_spec(
    alive: Seq<bool>,
    nets: Seq<NetworkEntity>,
    animators: Seq<Animator>,
    n: int,
) -> Seq<AnimatorOperation>
    decreases n,
{
    if n <= 0 {
        Seq::empty()
    } else {
        animator_operations_spec(alive, nets, animators, n - 1) + (if alive[n - 1] {
            tag_operators_spec(animators[n - 1].operators@, nets[n - 1])
        } else {
            Seq::empty()
        })
    }
}

/// Drain one animator's pending changes, tagged with the unit's network id.
fn drain_animator(animator: &mut Animator, net: NetworkEntity) -> (operations: Vec<
    AnimatorOperation,
>)
    ensures
        final(animator).operators@ == Seq::<AnimatorOperator>::empty(),
        final(animator).animation_set == old(animator).animation_set,
        final(animator).playing_animation@ == old(animator).playing_animation@,
        final(animator).play_time_micros == old(animator).play_time_micros,
        final(animator).current_frame == old(animator).current_frame,
        final(animator).current_frame_set == old(animator).current_frame_set,
        final(animator).current_frame_changed == old(animator).current_frame_changed,
        old(animator).wf() ==> final(animator).wf(),
        operations@ == tag_operators_spec(old(animator).operators@, net),
{
    let mut ops: Vec<AnimatorOperator> = Vec::new();
    core::mem::swap(&mut ops, &mut animator.operators);
    let mut operations: Vec<AnimatorOperation> = Vec::new();
    let ghost all = ops@;
    while ops.len() > 0
        invariant
            operations@.len() <= all.len(),
            ops@ == all.subrange(operations@.len() as int, all.len() as int),
            forall|m: int|
                0 <= m < operations@.len() ==> (#[trigger] operations@[m]) == (AnimatorOperation {
                    operator: all[m],
                    network_entity: net,
                }),
        decreases ops@.len(),
    {
        let ghost k = operations@.len() as int;
        let op = ops.remove(0);
        proof {
            assert(ops@ =~= all.subrange(k + 1, all.len() as int));
        }
        operations.push(AnimatorOperation { operator: op, network_entity: net });
    }
    proof {
        assert(operations@ =~= tag_operators_spec(all, net));
    }
    operations
}

/// Server side of animation replication: drain every live unit's pending
/// animator changes into one broadcast batch, in entity order.
pub fn server_network_animator_system(
    alive: &Vec<bool>,
    net_entities: &Vec<NetworkEntity>,
    animators: &mut Vec<Animator>,
) -> (operations: Vec<AnimatorOperation>)
    requires
        net_entities@.len() == alive@.len(),
        old(animators)@.len() == alive@.len(),
        forall|j: int| 0 <= j < alive@.len() ==> (#[trigger] old(animators)@[j]).wf(),
    ensures
        final(animators)@.len() == alive@.len(),
        forall|j: int| 0 <= j < alive@.len() ==> (#[trigger] final(animators)@[j]).wf(),
        forall|j: int|
            0 <= j < alive@.len() && alive@[j] ==> (#[trigger] final(animators)@[j]).operators@
                =~= Seq::<AnimatorOperator>::empty(),
        forall|j: int|
            0 <= j < alive@.len() && !alive@[j] ==> (#[trigger] final(animators)@[j]) == old(
                animators,
            )@[j],
        operations@ == animator_operations_spec(
            alive@,
            net_entities@,
            old(animators)@,
            alive@.len() as int,
        ),
{
    let n: usize = alive.len();
    let mut operations: Vec<AnimatorOperation> = Vec::new();
    let mut i: usize = 0;
    while i < n
        invariant
            i <= n,
            n == alive@.len(),
            net_entities@.len() == n,
            animators@.len() == n,
            operations@ == animator_operations_spec(alive@, net_entities@, old(animators)@, i as int),
            forall|j: int| 0 <= j < n ==> (#[trigger] animators@[j]).wf(),
            forall|j: int| i <= j < n ==> (#[trigger] animators@[j]) == old(animators)@[j],
            forall|j: int|
                0 <= j < i && alive@[j] ==> (#[trigger] animators@[j]).operators@ =~= Seq::<
                    AnimatorOperator,
                >::empty(),
            forall|j: int|
                0 <= j < i && !alive@[j] ==> (#[trigger] animators@[j]) == old(animators)@[j],
        decreases n - i,
    {
        let ghost an_entry = animators@;
        if alive[i] {
            let mut a = Animator {
                animation_set: 0,
                playing_animation: String::new(),
                play_time_micros: 0,
                current_frame: 0,
                current_frame_set: false,
                current_frame_changed: false,
                operators: Vec::new(),
            };
            animators.set_and_swap(i, &mut a);
            let mut chunk = drain_animator(&mut a, net_entities[i]);
            animators.set_and_swap(i, &mut a);
            operations.append(&mut chunk);
            proof {
                assert forall|j: int| 0 <= j < i implies (#[trigger] animators@[j]) == an_entry[j]
                by {}
                assert(operations@ =~= animator_operations_spec(
                    alive@,
                    net_entities@,
                    old(animators)@,
                    i + 1 as int,
                ));
            }
        } else {
            proof {
                assert(operations@ =~= animator_operations_spec(
                    alive@,
                    net_entities@,
                    old(animators)@,
                    i + 1 as int,
                ));
            }
        }
        i = i + 1;
    }
    operations
}

/// Copy one replicated animator change; the views carry over exactly.
fn copy_operator(op: &AnimatorOperator) -> (r: AnimatorOperator)
    ensures
        op matches AnimatorOperator::Play(n0) ==> (r matches AnimatorOperator::Play(n1) && n1@
            == n0@),
        op matches AnimatorOperator::SetPlaying(n0, f0) ==> (r matches AnimatorOperator::SetPlaying(
            n1,
            f1,
        ) && n1@ == n0@ && f1 == f0),
{
    match op {
        AnimatorOperator::Play(n) => AnimatorOperator::Play(n.clone()),
        AnimatorOperator::SetPlaying(n, f) => AnimatorOperator::SetPlaying(n.clone(), *f),
    }
}

/// The mathematical image of an animator's playback state: everything but
/// the pending replication log, with the playing name as a sequence.
pub struct AnimatorPlayback {
    pub animation_set: usize,
    pub playing: Seq<char>,
    pub play_time_micros: u64,
    pub current_frame: u32,
    pub current_frame_set: bool,
    pub current_frame_changed: bool,
}

/// The playback an animator is in.
pub open spec fn playback_of(a: Animator) -> AnimatorPlayback {
    AnimatorPlayback {
        animation_set: a.animation_set,
        playing: a.playing_animation@,
        play_time_micros: a.play_time_micros,
        current_frame: a.current_frame,
        current_frame_set: a.current_frame_set,
        current_frame_changed: a.current_frame_changed,
    }
}

/// The playback of every animator in a table.
pub open spec fn playbacks_of(animators: Seq<Animator>) -> Seq<AnimatorPlayback> {
    Seq::new(animators.len(), |i: int| playback_of(animators[i]))
}

/// What one replicated change does to a playback, mirroring
/// [`Animator::apply`].
pub open spec fn apply_operator_playback(
    p: AnimatorPlayback,
    operator: AnimatorOperator,
) -> AnimatorPlayback {
    match operator {
        AnimatorOperator::Play(name) => AnimatorPlayback {
            playing: name@,
            play_time_micros: 0,
            current_frame: 0,
            ..p
        },
        AnimatorOperator::SetPlaying(name, frame) => AnimatorPlayback {
            playing: name@,
            current_frame: frame,
            ..p
        },
    }
}

/// The playbacks after a batch of replicated changes, applied in arrival
/// order: a change whose id resolves to a live unit lands on it, and a
/// stale id drops only the one change.
pub open spec fn apply_animator_operations_spec(
    registry: Map<u64, usize>,
    alive: Seq<bool>,
    playbacks: Seq<AnimatorPlayback>,
    operations: Seq<AnimatorOperation>,
) -> Seq<AnimatorPlayback>
    decreases operations.len(),
{
    if operations.len() == 0 {
        playbacks
    } else {
        let o = operations[0];
        let updated = if registry.contains_key(o.network_entity.0) && (registry[o.network_entity.0]
            as int) < alive.len() && alive[registry[o.network_entity.0] as int] {
            playbacks.update(
                registry[o.network_entity.0] as int,
                apply_operator_playback(
                    playbacks[registry[o.network_entity.0] as int],
                    o.operator,
                ),
            )
        } else {
            playbacks
        };
        apply_animator_operations_spec(registry, alive, updated, operations.drop_first())
    }
}

/// Apply a batch of replicated animator changes on an observer: the final
/// playbacks are exactly the change-by-change fold of [`Animator::apply`]
/// over the batch, so entities the batch never names keep their playback
/// state.
pub fn client_network_animator_system(
    registry: &crate::network::NetworkEntityRegistry,
    alive: &Vec<bool>,
    animators: &mut Vec<Animator>,
    message: &AnimatorMessage,
)
    requires
        old(animators)@.len() == alive@.len(),
        forall|j: int| 0 <= j < alive@.len() ==> (#[trigger] old(animators)@[j]).wf(),
    ensures
        final(animators)@.len() == alive@.len(),
        forall|j: int| 0 <= j < alive@.len() ==> (#[trigger] final(animators)@[j]).wf(),
        playbacks_of(final(animators)@) == apply_animator_operations_spec(
            registry.entities@,
            alive@,
            playbacks_of(old(animators)@),
            message.operations@,
        ),
        // the pending outbound logs are no part of replication in
        forall|j: int|
            0 <= j < alive@.len() ==> (#[trigger] final(animators)@[j]).operators@ == old(
                animators,
            )@[j].operators@,
{
    let n_ops: usize = message.operations.len();
    let mut k: usize = 0;
    proof {
        assert(message.operations@.subrange(0, n_ops as int) =~= message.operations@);
    }
    while k < n_ops
        invariant
            k <= n_ops,
            n_ops == message.operations@.len(),
            animators@.len() == alive@.len(),
            forall|j: int| 0 <= j < alive@.len() ==> (#[trigger] animators@[j]).wf(),
            forall|j: int|
                0 <= j < alive@.len() ==> (#[trigger] animators@[j]).operators@ == old(
                    animators,
                )@[j].operators@,
            apply_animator_operations_spec(
                registry.entities@,
                alive@,
                playbacks_of(old(animators)@),
                message.operations@,
            ) == apply_animator_operations_spec(
                registry.entities@,
                alive@,
                playbacks_of(animators@),
                message.operations@.subrange(k as int, n_ops as int),
            ),
        decreases n_ops - k,
    {
        let ghost an_entry = animators@;
        proof {
            assert(message.operations@.subrange(k as int, n_ops as int).drop_first()
                =~= message.operations@.subrange(k + 1 as int, n_ops as int));
            assert(message.operations@.subrange(k as int, n_ops as int)[0]
                == message.operations@[k as int]);
        }
        let ne: NetworkEntity = message.operations[k].network_entity;
        match registry.get(&ne) {
            Some(e) => {
                if e < alive.len() && alive[e] {
                    let op = copy_operator(&message.operations[k].operator);
                    let mut a = Animator {
                        animation_set: 0,
                        playing_animation: String::new(),
                        play_time_micros: 0,
                        current_frame: 0,
                        current_frame_set: false,
                        current_frame_changed: false,
                        operators: Vec::new(),
                    };
                    animators.set_and_swap(e, &mut a);
                    a.apply(op);
                    animators.set_and_swap(e, &mut a);
                    proof {
                        assert(playback_of(animators@[e as int]) == apply_operator_playback(
                            playback_of(an_entry[e as int]),
                            message.operations@[k as int].operator,
                        ));
                        assert(playbacks_of(animators@) =~= playbacks_of(an_entry).update(
                            e as int,
                            apply_operator_playback(
                                playback_of(an_entry[e as int]),
                                message.operations@[k as int].operator,
                            ),
                        ));
                    }
                }
            },
            None => {
            },
        }
        k = k + 1;
    }
}

} // verus!
