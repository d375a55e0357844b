//! Animations: looping sequences of frames or of declarative steps.
//!
//! All engine times are in milliseconds.  The lighting transport expresses
//! transition times in vendor ticks of 100 milliseconds; the engine derives
//! the tick value from a frame's transition time at emission, saturating at
//! the largest tick, and that convention is applied uniformly.
//!
//! An animation never terminates on its own: the cursor wraps to the first
//! step after the last, so the step sequence is periodic with its length.

use vstd::prelude::*;

use crate::device_map::{DeviceMap, LightCollection};
use crate::light::{LightNumber, LightState};
use crate::transform::{transform, transform_obeys, snapshot_prev, DeviceStateTransform};

verus! {

/// A time in milliseconds.
pub type Millis = u64;

/// The vendor tick value for a transition time: hundredths of a second,
/// saturating at the largest expressible tick.
pub open spec fn ticks_spec(millis: Millis) -> u16 {
    if millis / 100 > u16::MAX {
        u16::MAX
    } else {
        (millis / 100) as u16
    }
}

/// Converts milliseconds to vendor ticks, saturating at the largest tick.
pub fn transition_ticks(millis: Millis) -> (t: u16)
    ensures
        t == ticks_spec(millis),
{
    let hundredths = millis / 100;
    if hundredths > u16::MAX as u64 {
        u16::MAX
    } else {
        hundredths as u16
    }
}

/// One concrete frame: partial states for the targeted devices, plus how
/// long the transition to them should take (`None` means "use the transport
/// default") and how long to hold them afterwards.
pub struct AnimationFrame {
    pub hold_time: Millis,
    pub transition_time: Option<Millis>,
    pub states: DeviceMap<LightState>,
}

impl AnimationFrame {
    /// Every per-device state map of a frame has distinct keys.
    pub open spec fn wf(&self) -> bool {
        self.states.wf()
    }

    /// A frame with no states, no transition time and no hold time.
    pub fn new() -> (f: AnimationFrame)
        ensures
            f.wf(),
            f.hold_time == 0,
            f.transition_time is None,
            f.states.entries_seq() == Seq::<(LightNumber, LightState)>::empty(),
    {
        AnimationFrame { hold_time: 0, transition_time: None, states: DeviceMap::new() }
    }

    /// A copy of the frame, state for state.
    pub fn duplicate(&self) -> (f: AnimationFrame)
        ensures
            f.hold_time == self.hold_time,
            f.transition_time == self.transition_time,
            f.states.entries_seq() == self.states.entries_seq(),
    {
        AnimationFrame {
            hold_time: self.hold_time,
            transition_time: self.transition_time,
            states: self.states.duplicate(),
        }
    }
}

/// One frame template: a map from device number to the transform evaluated
/// for that device each time the step comes around.
pub struct DynamicAnimationStep {
    pub transforms: DeviceMap<DeviceStateTransform>,
}

/// The transform resulting from installing `value` into `prev` (an absent
/// `prev` counts as the transform that changes nothing).
pub open spec fn with_operation_spec(
    prev: Option<DeviceStateTransform>,
    value: crate::transform::ConfigurableValue,
) -> DeviceStateTransform {
    let base = match prev {
        Some(t) => t,
        None => DeviceStateTransform {
            on: None,
            bri: None,
            hue: None,
            sat: None,
            transitiontime: None,
        },
    };
    crate::transform::installed(base, value)
}

impl DynamicAnimationStep {
    /// The transform table has distinct keys.
    pub open spec fn wf(&self) -> bool {
        self.transforms.wf()
    }

    /// A step that targets no device.
    pub fn new() -> (s: DynamicAnimationStep)
        ensures
            s.wf(),
            s.transforms.entries_seq() == Seq::<(LightNumber, DeviceStateTransform)>::empty(),
            s.transforms.to_map() == Map::<LightNumber, DeviceStateTransform>::empty(),
    {
        DynamicAnimationStep { transforms: DeviceMap::new() }
    }

    /// Installs one attribute operation for one device, creating the
    /// device's transform when it has none yet.
    pub fn with_operation(
        &mut self,
        light_num: LightNumber,
        value: crate::transform::ConfigurableValue,
    )
        requires
            old(self).wf(),
        ensures
            final(self).wf(),
            final(self).transforms.to_map() == old(self).transforms.to_map().insert(
                light_num,
                with_operation_spec(
                    if old(self).transforms.to_map().dom().contains(light_num) {
                        Some(old(self).transforms.to_map()[light_num])
                    } else {
                        None
                    },
                    value,
                ),
            ),
    {
        let mut t: DeviceStateTransform = match self.transforms.get(light_num) {
            Some(tr) => *tr,
            None => DeviceStateTransform::new(),
        };
        t.set_operation(value);
        self.transforms.insert(light_num, t);
    }

    /// Evaluates the step against a snapshot: partial states for every
    /// device present in both the step and the snapshot, with the given
    /// timing.
    pub fn as_animation_frame(
        &self,
        snapshot: &LightCollection,
        transition_time: Option<Millis>,
        hold_time: Millis,
    ) -> (f: AnimationFrame)
        requires
            self.wf(),
            snapshot.wf(),
        ensures
            f.wf(),
            f.hold_time == hold_time,
            f.transition_time == transition_time,
            forall|n: LightNumber|
                #[trigger] f.states.to_map().dom().contains(n) <==> (
                self.transforms.to_map().dom().contains(n) && snapshot.to_map().dom().contains(n)),
            forall|n: LightNumber|
                #[trigger] f.states.to_map().dom().contains(n) ==> transform_obeys(
                    self.transforms.to_map()[n],
                    snapshot.entries_seq(),
                    snapshot_prev(*snapshot, n),
                    f.states.to_map()[n],
                ),
    {
        let states = transform(snapshot, &self.transforms);
        AnimationFrame { hold_time, transition_time, states }
    }
}

/// The index of the step a call to `next` evaluates when the cursor stands
/// at `cursor` in a sequence of `len` steps: the cursor itself, or the first
/// step when the cursor has run past the end.
pub open spec fn eval_index(cursor: nat, len: nat) -> nat {
    if cursor >= len {
        0
    } else {
        cursor
    }
}

/// The index evaluated by the `k`-th call to `next` (counting from zero)
/// for an animation of `len` steps whose cursor starts at `cursor`: each
/// call advances the cursor to the evaluated index plus one.
pub open spec fn eval_index_after(cursor: nat, len: nat, k: nat) -> nat
    decreases k,
{
    if k == 0 {
        eval_index(cursor, len)
    } else {
        eval_index(eval_index_after(cursor, len, (k - 1) as nat) + 1, len)
    }
}

/// The evaluated index walks the steps cyclically: call `k` of a non-empty
/// animation evaluates step `(first + k) mod len`.
pub proof fn lemma_eval_index_after_mod(cursor: nat, len: nat, k: nat)
    requires
        len > 0,
    ensures
        eval_index_after(cursor, len, k) as int == ((eval_index(cursor, len) + k) as int) % (
        len as int),
    decreases k,
{
    let e0 = eval_index(cursor, len);
    let d = len as int;
    if k == 0 {
        vstd::arithmetic::div_mod::lemma_small_mod(e0, len);
    } else {
        lemma_eval_index_after_mod(cursor, len, (k - 1) as nat);
        let prev = eval_index_after(cursor, len, (k - 1) as nat) as int;
        let x = (e0 + k - 1) as int;
        assert(prev == x % d);
        vstd::arithmetic::div_mod::lemma_mod_bound(x, d);
        vstd::arithmetic::div_mod::lemma_fundamental_div_mod(x, d);
        let q = x / d;
        vstd::arithmetic::mul::lemma_mul_is_commutative(d, q);
        vstd::arithmetic::mul::lemma_mul_is_commutative(d, q + 1);
        if prev + 1 == d {
            assert(x + 1 == (q + 1) * d + 0) by (nonlinear_arith)
                requires
                    x == d * q + prev,
                    prev + 1 == d,
            ;
            vstd::arithmetic::div_mod::lemma_fundamental_div_mod_converse(x + 1, d, q + 1, 0);
        } else {
            vstd::arithmetic::div_mod::lemma_fundamental_div_mod_converse(x + 1, d, q, prev + 1);
        }
    }
}

/// An animation with `n` steps returns to its first evaluated step after
/// `n` calls: the sequence of evaluated step indices is periodic with the
/// step count.
pub proof fn lemma_animation_period(cursor: nat, len: nat, k: nat)
    requires
        len > 0,
    ensures
        eval_index_after(cursor, len, k + len) == eval_index_after(cursor, len, k),
{
    let e0 = eval_index(cursor, len);
    lemma_eval_index_after_mod(cursor, len, k);
    lemma_eval_index_after_mod(cursor, len, k + len);
    vstd::arithmetic::div_mod::lemma_mod_add_multiples_vanish((e0 + k) as int, len as int);
}

/// A looping animation over declarative steps.  Each call to `next`
/// evaluates the step under the cursor against a fresh snapshot supplied by
/// the caller, so evaluation always reflects the latest known device state.
pub struct DynamicAnimation {
    steps: Vec<DynamicAnimationStep>,
    current_index: usize,
    transition_time: Option<Millis>,
    hold_time: Millis,
}

impl DynamicAnimation {
    /// Every step is well-formed and the cursor never runs more than one
    /// past the end.
    pub open spec fn wf(&self) -> bool {
        &&& forall|i: int|
            0 <= i < self.steps_seq().len() ==> (#[trigger] self.steps_seq()[i]).wf()
        &&& self.cursor() <= self.steps_seq().len()
    }

    /// The steps, in play order.
    pub closed spec fn steps_seq(&self) -> Seq<DynamicAnimationStep> {
        self.steps@
    }

    /// The cursor: the index the next call will evaluate, except that a
    /// cursor at the end wraps to the first step.
    pub closed spec fn cursor(&self) -> nat {
        self.current_index as nat
    }

    /// The transition time each frame carries.
    pub closed spec fn spec_transition_time(&self) -> Option<Millis> {
        self.transition_time
    }

    /// The hold time each frame carries.
    pub closed spec fn spec_hold_time(&self) -> Millis {
        self.hold_time
    }

    /// An animation with no steps yet, playing with the given timing: each
    /// frame will carry `transition_time` (or the transport default when
    /// `None`) and hold for `hold_time` after its transition.
    pub fn new(transition_time: Option<Millis>, hold_time: Millis) -> (a: DynamicAnimation)
        ensures
            a.wf(),
            a.steps_seq() == Seq::<DynamicAnimationStep>::empty(),
            a.cursor() == 0,
            a.spec_transition_time() == transition_time,
            a.spec_hold_time() == hold_time,
    {
        DynamicAnimation { steps: Vec::new(), current_index: 0, transition_time, hold_time }
    }

    /// Appends one step to the sequence.
    pub fn animation_step(&mut self, step: DynamicAnimationStep)
        requires
            old(self).wf(),
            step.wf(),
        ensures
            final(self).wf(),
            final(self).steps_seq() == old(self).steps_seq().push(step),
            final(self).cursor() == old(self).cursor(),
            final(self).spec_transition_time() == old(self).spec_transition_time(),
            final(self).spec_hold_time() == old(self).spec_hold_time(),
    {
        self.steps.push(step);
    }

    /// How many steps the animation has.
    pub fn len(&self) -> (n: usize)
        ensures
            n == self.steps_seq().len(),
    {
        self.steps.len()
    }

    /// Evaluates the step under the cursor against the supplied snapshot and
    /// advances the cursor by one (wrapping to the first step when the
    /// cursor had run past the end).  Returns `None` only when the step
    /// sequence is empty, in which case nothing changes.
    pub fn next(&mut self, snapshot: &LightCollection) -> (r: Option<AnimationFrame>)
        requires
            old(self).wf(),
            snapshot.wf(),
        ensures
            final(self).wf(),
            final(self).steps_seq() == old(self).steps_seq(),
            final(self).spec_transition_time() == old(self).spec_transition_time(),
            final(self).spec_hold_time() == old(self).spec_hold_time(),
            old(self).steps_seq().len() == 0 ==> r is None && final(self).cursor() == old(
                self,
            ).cursor(),
            old(self).steps_seq().len() > 0 ==> {
                let i = eval_index(old(self).cursor(), old(self).steps_seq().len());
                let step = old(self).steps_seq()[i as int];
                &&& final(self).cursor() == i + 1
                &&& match r {
                    Some(f) => {
                        &&& f.wf()
                        &&& f.hold_time == old(self).spec_hold_time()
                        &&& f.transition_time == old(self).spec_transition_time()
                        &&& forall|n: LightNumber|
                            #[trigger] f.states.to_map().dom().contains(n) <==> (
                            step.transforms.to_map().dom().contains(n)
                                && snapshot.to_map().dom().contains(n))
                        &&& forall|n: LightNumber|
                            #[trigger] f.states.to_map().dom().contains(n) ==> transform_obeys(
                                step.transforms.to_map()[n],
                                snapshot.entries_seq(),
                                snapshot_prev(*snapshot, n),
                                f.states.to_map()[n],
                            )
                    },
                    None => false,
                }
            },
    {
        if self.steps.is_empty() {
            return None;
        }

        let i = if self.current_index >= self.steps.len() {
            0
        } else {
            self.current_index
        };
        let frame = self.steps[i].as_animation_frame(
            snapshot,
            self.transition_time,
            self.hold_time,
        );
        self.current_index = i + 1;
        Some(frame)
    }
}

/// A looping animation over fixed, precomputed frames.  Each call to `next`
/// returns the frame under the cursor with every device state stamped with
/// the frame's transition time in vendor ticks, and advances the cursor
/// (wrapping after the last frame).
pub struct LoopingAnimation {
    frames: Vec<AnimationFrame>,
    current_index: usize,
}

/// `stamped` is `source` with every device's transition time replaced by
/// `t` ticks.
pub open spec fn states_stamped(
    source: Seq<(LightNumber, LightState)>,
    t: u16,
    stamped: Seq<(LightNumber, LightState)>,
) -> bool {
    &&& stamped.len() == source.len()
    &&& forall|i: int|
        0 <= i < source.len() ==> #[trigger] stamped[i] == (
        source[i].0,
        LightState { transitiontime: Some(t), ..source[i].1 },
        )
}

impl LoopingAnimation {
    /// Every frame's state map has distinct keys and the cursor never runs
    /// more than one past the end.
    pub open spec fn wf(&self) -> bool {
        &&& forall|i: int|
            0 <= i < self.frames_seq().len() ==> (#[trigger] self.frames_seq()[i]).wf()
        &&& self.cursor() <= self.frames_seq().len()
    }

    /// The frames, in play order.
    pub closed spec fn frames_seq(&self) -> Seq<AnimationFrame> {
        self.frames@
    }

    /// The cursor: the index the next call will return, except that a
    /// cursor at the end wraps to the first frame.
    pub closed spec fn cursor(&self) -> nat {
        self.current_index as nat
    }

    /// An animation with no frames.
    pub fn new() -> (a: LoopingAnimation)
        ensures
            a.wf(),
            a.frames_seq() == Seq::<AnimationFrame>::empty(),
            a.cursor() == 0,
    {
        LoopingAnimation { frames: Vec::new(), current_index: 0 }
    }

    /// Appends one frame.
    pub fn with_frame(self, frame: AnimationFrame) -> (a: LoopingAnimation)
        requires
            self.wf(),
            frame.wf(),
            self.cursor() <= self.frames_seq().len(),
        ensures
            a.wf(),
            a.frames_seq() == self.frames_seq().push(frame),
            a.cursor() == self.cursor(),
    {
        let mut a = self;
        a.frames.push(frame);
        a
    }

    /// Appends every frame of a vector, in order.
    pub fn with_frames(self, frames: Vec<AnimationFrame>) -> (a: LoopingAnimation)
        requires
            self.wf(),
            forall|i: int| 0 <= i < frames@.len() ==> (#[trigger] frames@[i]).wf(),
        ensures
            a.wf(),
            a.frames_seq() == self.frames_seq() + frames@,
            a.cursor() == self.cursor(),
    {
        let mut a = self;
        let ghost orig = frames@;
        let ghost base = a.frames@;
        let n = frames.len();
        let mut frames = frames;
        let mut i: usize = 0;
        while i < n
            invariant
                n == orig.len(),
                frames@ == orig.subrange(i as int, n as int),
                i <= n,
                a.wf(),
                a.frames@ == base + orig.subrange(0, i as int),
                a.current_index == self.current_index,
                forall|j: int| 0 <= j < orig.len() ==> (#[trigger] orig[j]).wf(),
                self.wf(),
                base == self.frames@,
            decreases n - i,
        {
            let frame = frames.remove(0);
            proof {
                assert(frame == orig[i as int]);
                assert(frames@ == orig.subrange(i + 1, n as int));
            }
            a.frames.push(frame);
            i = i + 1;
            proof {
                assert(a.frames@ == base + orig.subrange(0, i as int));
            }
        }
        proof {
            assert(orig.subrange(0, n as int) == orig);
        }
        a
    }

    /// How many frames the animation has.
    pub fn len(&self) -> (n: usize)
        ensures
            n == self.frames_seq().len(),
    {
        self.frames.len()
    }

    /// Returns the frame under the cursor, with every device state's
    /// transition time stamped from the frame's transition time (absent
    /// counts as zero), and advances the cursor.  Returns `None` only when
    /// the frame sequence is empty, in which case nothing changes.
    pub fn next(&mut self) -> (r: Option<AnimationFrame>)
        requires
            old(self).wf(),
        ensures
            final(self).wf(),
            final(self).frames_seq() == old(self).frames_seq(),
            old(self).frames_seq().len() == 0 ==> r is None && final(self).cursor() == old(
                self,
            ).cursor(),
            old(self).frames_seq().len() > 0 ==> {
                let i = eval_index(old(self).cursor(), old(self).frames_seq().len());
                let frame = old(self).frames_seq()[i as int];
                &&& final(self).cursor() == i + 1
                &&& match r {
                    Some(f) => {
                        &&& f.wf()
                        &&& f.hold_time == frame.hold_time
                        &&& f.transition_time == frame.transition_time
                        &&& states_stamped(
                            frame.states.entries_seq(),
                            ticks_spec(match frame.transition_time {
                                Some(t) => t,
                                None => 0,
                            }),
                            f.states.entries_seq(),
                        )
                    },
                    None => false,
                }
            },
    {
        if self.frames.is_empty() {
            return None;
        }

        let i = if self.current_index >= self.frames.len() {
            0
        } else {
            self.current_index
        };
        let frame = &self.frames[i];
        let millis = match frame.transition_time {
            Some(t) => t,
            None => 0,
        };
        let tick = transition_ticks(millis);

        let m = frame.states.len();
        let mut states: DeviceMap<LightState> = DeviceMap::new();
        let ghost source = frame.states.entries_seq();
        for j in 0..m
            invariant
                m == source.len(),
                source == self.frames@[i as int].states.entries_seq(),
                i < self.frames@.len(),
                self.wf(),
                states.wf(),
                states.entries_seq().len() == j,
                forall|k: int|
                    0 <= k < j ==> #[trigger] states.entries_seq()[k] == (
                    source[k].0,
                    LightState { transitiontime: Some(tick), ..source[k].1 },
                    ),
                forall|k: int|
                    0 <= k < j ==> (#[trigger] states.entries_seq()[k]).0 == source[k].0,
        {
            let num = self.frames[i].states.key_at(j);
            let state = *self.frames[i].states.value_at(j);
            let stamped = LightState { transitiontime: Some(tick), ..state };
            proof {
                crate::device_map::lemma_map_of_contains(states.entries_seq(), num);
                if states.to_map().dom().contains(num) {
                    let k = choose|k: int|
                        0 <= k < states.entries_seq().len() && (#[trigger] states.entries_seq()[k]).0
                            == num;
                    assert(source[k].0 == num);
                    assert(self.frames@[i as int].wf());
                    assert(false);
                }
            }
            states.push_entry(num, stamped);
        }

        let result = AnimationFrame {
            hold_time: self.frames[i].hold_time,
            transition_time: self.frames[i].transition_time,
            states,
        };
        self.current_index = i + 1;
        Some(result)
    }
}

} // verus!
