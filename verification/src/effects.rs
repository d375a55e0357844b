//! Built-in animations: rotating the devices' current colors, a rainbow
//! cycle, and the uniform-random and bounded-random ("sleepy") animations.
//!
//! Each builder takes a snapshot of the devices it is to animate; fetching
//! that snapshot is the transport's business.  Configuration errors (no
//! device to animate where one is required) are rejected here, before an
//! animation ever reaches the run loop.

use vstd::prelude::*;

use crate::animation::{
    ticks_spec, transition_ticks, AnimationFrame, DynamicAnimation, DynamicAnimationStep,
    LoopingAnimation, Millis,
};
use crate::device_map::{distinct_keys, DeviceMap, LightCollection};
use crate::light::{Light, LightNumber, LightState};
use crate::operation::AttributeOperation;
use crate::producer::{ConstantProducer, Producer, RandomProducer, RandomRangeProducer};
use crate::transform::DeviceStateTransform;

verus! {

/// Why an animation could not be built.
#[derive(Clone, Copy, Debug, PartialEq, Eq, Structural)]
pub enum EffectError {
    /// The animation needs at least one device and none was available.
    NoLights,
}

/// Whether a state reports all three color channels.
pub open spec fn has_color(st: LightState) -> bool {
    st.hue is Some && st.sat is Some && st.bri is Some
}

/// The state that repaints a device with the color of `st`: hue, saturation
/// and brightness carried over, everything else left unchanged.
pub open spec fn color_state(st: LightState) -> LightState {
    LightState { on: None, bri: st.bri, hue: st.hue, sat: st.sat, transitiontime: None }
}

/// The devices of a snapshot that report a full color, in order, each paired
/// with the state that repaints that color.
pub open spec fn colored(s: Seq<(LightNumber, Light)>) -> Seq<(LightNumber, LightState)>
    decreases s.len(),
{
    if s.len() == 0 {
        Seq::empty()
    } else {
        let rest = colored(s.drop_last());
        if has_color(s.last().1.state) {
            rest.push((s.last().0, color_state(s.last().1.state)))
        } else {
            rest
        }
    }
}

/// Every colored entry's key occurs in the snapshot, and distinct snapshot
/// keys stay distinct after the filter.
pub proof fn lemma_colored_distinct(s: Seq<(LightNumber, Light)>)
    requires
        distinct_keys(s),
    ensures
        distinct_keys(colored(s)),
        forall|i: int|
            0 <= i < colored(s).len() ==> exists|j: int|
                0 <= j < s.len() && (#[trigger] colored(s)[i]).0 == (#[trigger] s[j]).0,
    decreases s.len(),
{
    if s.len() > 0 {
        let d = s.drop_last();
        assert(distinct_keys(d));
        lemma_colored_distinct(d);
        assert forall|i: int| 0 <= i < colored(d).len() implies exists|j: int|
            0 <= j < s.len() && (#[trigger] colored(d)[i]).0 == (#[trigger] s[j]).0 by {
            let j = choose|j: int| 0 <= j < d.len() && (#[trigger] colored(d)[i]).0 == (#[trigger] d[j]).0;
            assert(s[j] == d[j]);
        }
        if has_color(s.last().1.state) {
            let c = colored(s);
            assert(c == colored(d).push((s.last().0, color_state(s.last().1.state))));
            assert forall|i: int, j: int| 0 <= i < j < c.len() implies (#[trigger] c[i]).0 != (
            #[trigger] c[j]).0 by {
                if j < c.len() - 1 {
                    assert(c[i] == colored(d)[i] && c[j] == colored(d)[j]);
                } else {
                    assert(c[i] == colored(d)[i]);
                    let k = choose|k: int|
                        0 <= k < d.len() && (#[trigger] colored(d)[i]).0 == (#[trigger] d[k]).0;
                    assert(s[k] == d[k]);
                    assert(s[k].0 != s[s.len() - 1].0);
                }
            }
        }
    }
}

/// The index into the unrotated state list that ends up at position `i` of
/// frame `j` of a rotation: each frame rotates the list right once more.
pub open spec fn rot_idx(i: int, j: int, m: int) -> int {
    (i + m - j - 1) % m
}

/// Every frame of a rotation: frame `j` pairs key `i` with the state that
/// started `j + 1` rotations earlier.
pub open spec fn rotation_frames_ok(
    frames: Seq<AnimationFrame>,
    keys: Seq<LightNumber>,
    states: Seq<LightState>,
    transition_time: Option<Millis>,
    hold_time: Millis,
) -> bool {
    let m = states.len() as int;
    let paired = vstd::math::min(keys.len() as int, m);
    &&& frames.len() == m
    &&& forall|j: int|
        0 <= j < m ==> {
            let f = #[trigger] frames[j];
            &&& f.wf()
            &&& f.hold_time == hold_time
            &&& f.transition_time == transition_time
            &&& f.states.entries_seq().len() == paired
            &&& forall|i: int|
                0 <= i < paired ==> #[trigger] f.states.entries_seq()[i] == (
                keys[i],
                states[rot_idx(i, j, m)],
                )
        }
}

/// Builds the frames of a rotation: one frame per state, the `j`-th frame
/// pairing the keys in order with the states rotated right `j + 1` times
/// (pairing stops at the shorter list).
fn rotation_frames(
    keys: &Vec<LightNumber>,
    states: &Vec<LightState>,
    transition_time: Option<Millis>,
    hold_time: Millis,
) -> (frames: Vec<AnimationFrame>)
    requires
        forall|i: int, j: int| 0 <= i < j < keys@.len() ==> keys@[i] != keys@[j],
    ensures
        rotation_frames_ok(frames@, keys@, states@, transition_time, hold_time),
{
    let m = states.len();
    let paired = if keys.len() < m {
        keys.len()
    } else {
        m
    };
    let mut frames: Vec<AnimationFrame> = Vec::new();
    for j in 0..m
        invariant
            m == states@.len(),
            paired == vstd::math::min(keys@.len() as int, m as int),
            forall|a: int, b: int| 0 <= a < b < keys@.len() ==> keys@[a] != keys@[b],
            frames@.len() == j,
            forall|b: int|
                0 <= b < j ==> {
                    let f = #[trigger] frames@[b];
                    &&& f.wf()
                    &&& f.hold_time == hold_time
                    &&& f.transition_time == transition_time
                    &&& f.states.entries_seq().len() == paired
                    &&& forall|i: int|
                        0 <= i < paired ==> #[trigger] f.states.entries_seq()[i] == (
                        keys@[i],
                        states@[rot_idx(i, b as int, m as int)],
                        )
                },
    {
        let mut fstates: DeviceMap<LightState> = DeviceMap::new();
        for i in 0..paired
            invariant
                m == states@.len(),
                paired == vstd::math::min(keys@.len() as int, m as int),
                j < m,
                forall|a: int, b: int| 0 <= a < b < keys@.len() ==> keys@[a] != keys@[b],
                fstates.wf(),
                fstates.entries_seq().len() == i,
                forall|k: int|
                    0 <= k < i ==> #[trigger] fstates.entries_seq()[k] == (
                    keys@[k],
                    states@[rot_idx(k, j as int, m as int)],
                    ),
        {
            let idx128: u128 = (i as u128) + (m as u128) - (j as u128) - 1;
            let idx = (idx128 % (m as u128)) as usize;
            proof {
                assert(idx == rot_idx(i as int, j as int, m as int));
                vstd::arithmetic::div_mod::lemma_mod_bound(
                    i as int + m as int - j as int - 1,
                    m as int,
                );
                crate::device_map::lemma_map_of_contains(fstates.entries_seq(), keys@[i as int]);
                if fstates.to_map().dom().contains(keys@[i as int]) {
                    let k = choose|k: int|
                        0 <= k < fstates.entries_seq().len() && (#[trigger] fstates.entries_seq()[k]).0
                            == keys@[i as int];
                    assert(keys@[k] == keys@[i as int]);
                    assert(false);
                }
            }
            fstates.push_entry(keys[i], states[idx]);
        }
        let frame = AnimationFrame { hold_time, transition_time, states: fstates };
        frames.push(frame);
    }
    frames
}

/// An animation that rotates the current colors of the snapshot's devices:
/// devices without a full color are skipped, and each of the remaining
/// devices takes its right neighbour's color every frame.  With no colored
/// device the animation is empty and plays nothing.
pub fn rotate_current(
    snapshot: &LightCollection,
    transition_time: Millis,
    hold_time: Millis,
) -> (a: LoopingAnimation)
    requires
        snapshot.wf(),
    ensures
        a.wf(),
        a.cursor() == 0,
        ({
            let cs = colored(snapshot.entries_seq());
            rotation_frames_ok(
                a.frames_seq(),
                cs.map_values(|e: (LightNumber, LightState)| e.0),
                cs.map_values(|e: (LightNumber, LightState)| e.1),
                Some(transition_time),
                hold_time,
            )
        }),
{
    let ghost s = snapshot.entries_seq();
    let n = snapshot.len();
    let mut keys: Vec<LightNumber> = Vec::new();
    let mut states: Vec<LightState> = Vec::new();
    let mut i: usize = 0;
    while i < n
        invariant
            i <= n,
            n == s.len(),
            s == snapshot.entries_seq(),
            snapshot.wf(),
            keys@.len() == colored(s.subrange(0, i as int)).len(),
            states@.len() == keys@.len(),
            forall|k: int|
                0 <= k < keys@.len() ==> #[trigger] colored(s.subrange(0, i as int))[k] == (
                keys@[k],
                states@[k],
                ),
        decreases n - i,
    {
        let ghost pre = s.subrange(0, i as int);
        let ghost post = s.subrange(0, i + 1);
        proof {
            assert(post.drop_last() == pre);
            assert(post.last() == s[i as int]);
        }
        let light = snapshot.value_at(i);
        match light.state.get_color() {
            Some(color) => {
                let key = snapshot.key_at(i);
                let painted = LightState::new().color(&color);
                let ghost keys0 = keys@;
                let ghost states0 = states@;
                keys.push(key);
                states.push(painted);
                proof {
                    assert(keys@ == keys0.push(key));
                    assert(states@ == states0.push(painted));
                    assert(color_state(s[i as int].1.state) == painted);
                    assert(colored(post) == colored(s.subrange(0, i as int)).push((key, painted)));
                    assert forall|k: int| 0 <= k < keys@.len() implies #[trigger] colored(post)[k]
                        == (keys@[k], states@[k]) by {
                        if k < keys0.len() {
                            assert(colored(s.subrange(0, i as int))[k] == (keys0[k], states0[k]));
                            assert(keys@[k] == keys0[k]);
                            assert(states@[k] == states0[k]);
                        } else {
                            assert(colored(post)[k] == (key, painted));
                        }
                    }
                }
            },
            None => {
                proof {
                    assert(colored(post) == colored(pre));
                }
            },
        }
        proof {
            assert(keys@.len() == colored(s.subrange(0, i + 1)).len());
            assert(forall|k: int|
                0 <= k < keys@.len() ==> #[trigger] colored(s.subrange(0, i + 1))[k] == (
                keys@[k],
                states@[k],
                ));
        }
        i = i + 1;
    }
    proof {
        assert(s.subrange(0, n as int) == s);
        lemma_colored_distinct(s);
        let cs = colored(s);
        assert forall|a: int, b: int| 0 <= a < b < keys@.len() implies keys@[a] != keys@[b] by {
            assert(cs[a] == (keys@[a], states@[a]));
            assert(cs[b] == (keys@[b], states@[b]));
        }
        assert(keys@ =~= cs.map_values(|e: (LightNumber, LightState)| e.0));
        assert(states@ =~= cs.map_values(|e: (LightNumber, LightState)| e.1));
    }
    let frames = rotation_frames(&keys, &states, Some(transition_time), hold_time);
    LoopingAnimation::new().with_frames(frames)
}

/// Whether `x` occurs in `nums`.
pub open spec fn seq_contains(nums: Seq<LightNumber>, x: LightNumber) -> bool {
    exists|i: int| 0 <= i < nums.len() && nums[i] == x
}

/// Whether `x` occurs in the vector.
fn vec_contains(nums: &Vec<LightNumber>, x: LightNumber) -> (r: bool)
    ensures
        r == seq_contains(nums@, x),
{
    let n = nums.len();
    let mut i: usize = 0;
    while i < n
        invariant
            i <= n,
            n == nums@.len(),
            forall|j: int| 0 <= j < i ==> nums@[j] != x,
        decreases n - i,
    {
        if nums[i] == x {
            proof {
                assert(nums@[i as int] == x);
            }
            return true;
        }
        i = i + 1;
    }
    false
}

/// The snapshot entries whose device occurs in `nums`, in snapshot order.
pub open spec fn selected(
    s: Seq<(LightNumber, Light)>,
    nums: Seq<LightNumber>,
) -> Seq<(LightNumber, Light)>
    decreases s.len(),
{
    if s.len() == 0 {
        Seq::empty()
    } else {
        let rest = selected(s.drop_last(), nums);
        if seq_contains(nums, s.last().0) {
            rest.push(s.last())
        } else {
            rest
        }
    }
}

/// Every selected entry's key occurs in the snapshot, and distinct snapshot
/// keys stay distinct after the filter.
pub proof fn lemma_selected_distinct(s: Seq<(LightNumber, Light)>, nums: Seq<LightNumber>)
    requires
        distinct_keys(s),
    ensures
        distinct_keys(selected(s, nums)),
        forall|i: int|
            0 <= i < selected(s, nums).len() ==> exists|j: int|
                0 <= j < s.len() && (#[trigger] selected(s, nums)[i]).0 == (#[trigger] s[j]).0,
    decreases s.len(),
{
    if s.len() > 0 {
        let d = s.drop_last();
        assert(distinct_keys(d));
        lemma_selected_distinct(d, nums);
        assert forall|i: int| 0 <= i < selected(d, nums).len() implies exists|j: int|
            0 <= j < s.len() && (#[trigger] selected(d, nums)[i]).0 == (#[trigger] s[j]).0 by {
            let j = choose|j: int|
                0 <= j < d.len() && (#[trigger] selected(d, nums)[i]).0 == (#[trigger] d[j]).0;
            assert(s[j] == d[j]);
        }
        if seq_contains(nums, s.last().0) {
            let c = selected(s, nums);
            assert(c == selected(d, nums).push(s.last()));
            assert forall|i: int, j: int| 0 <= i < j < c.len() implies (#[trigger] c[i]).0 != (
            #[trigger] c[j]).0 by {
                if j < c.len() - 1 {
                    assert(c[i] == selected(d, nums)[i] && c[j] == selected(d, nums)[j]);
                } else {
                    assert(c[i] == selected(d, nums)[i]);
                    let k = choose|k: int|
                        0 <= k < d.len() && (#[trigger] selected(d, nums)[i]).0 == (
                        #[trigger] d[k]).0;
                    assert(s[k] == d[k]);
                    assert(s[k].0 != s[s.len() - 1].0);
                }
            }
        }
    }
}

/// The entries of a snapshot whose device occurs in `nums`, keeping the
/// snapshot's order and well-formedness.
fn select_lights(snapshot: &LightCollection, nums: &Vec<LightNumber>) -> (sel: LightCollection)
    requires
        snapshot.wf(),
    ensures
        sel.wf(),
        sel.entries_seq() == selected(snapshot.entries_seq(), nums@),
{
    let ghost s = snapshot.entries_seq();
    let n = snapshot.len();
    let mut sel: LightCollection = DeviceMap::new();
    let mut i: usize = 0;
    while i < n
        invariant
            i <= n,
            n == s.len(),
            s == snapshot.entries_seq(),
            snapshot.wf(),
            sel.wf(),
            sel.entries_seq() == selected(s.subrange(0, i as int), nums@),
        decreases n - i,
    {
        let ghost pre = s.subrange(0, i as int);
        let ghost post = s.subrange(0, i + 1);
        proof {
            assert(post.drop_last() == pre);
            assert(post.last() == s[i as int]);
        }
        let key = snapshot.key_at(i);
        if vec_contains(nums, key) {
            let light = snapshot.value_at(i).duplicate();
            proof {
                lemma_selected_distinct(pre, nums@);
                crate::device_map::lemma_map_of_contains(sel.entries_seq(), key);
                if sel.to_map().dom().contains(key) {
                    let k = choose|k: int|
                        0 <= k < sel.entries_seq().len() && (#[trigger] sel.entries_seq()[k]).0
                            == key;
                    let j = choose|j: int|
                        0 <= j < pre.len() && (#[trigger] selected(pre, nums@)[k]).0 == (
                        #[trigger] pre[j]).0;
                    assert(s[j] == pre[j]);
                    assert(s[j].0 != s[i as int].0);
                    assert(false);
                }
                assert(light == s[i as int].1);
            }
            sel.push_entry(key, light);
        }
        i = i + 1;
    }
    proof {
        assert(s.subrange(0, n as int) == s);
    }
    sel
}

/// The state that paints one rotation color in the hue-list variant: the
/// given hue, full saturation, and the group's mean brightness.
pub open spec fn hue_state(hue: u16, bri: u8) -> LightState {
    LightState { on: None, bri: Some(bri), hue: Some(hue), sat: Some(255u8), transitiontime: None }
}

/// The brightness the hue-list rotation paints with: the brightness values
/// of the selected devices (absent ones count as zero), divided by how many
/// devices were selected.
pub open spec fn group_brightness(sel: Seq<(LightNumber, Light)>) -> u8
    recommends
        sel.len() > 0,
{
    (crate::operation::bri_sum(sel) / (sel.len() as int)) as u8
}

/// An animation that rotates a set of states through a chosen group of
/// devices.  With an explicit hue list the states paint those hues at full
/// saturation and the group's mean brightness; without one they repaint the
/// group's current colors.  The frames then rotate as in `rotate_current`.
pub struct RotateAnimation {
    animation: LoopingAnimation,
}

impl RotateAnimation {
    /// The underlying frames, in play order.
    pub closed spec fn frames_seq(&self) -> Seq<AnimationFrame> {
        self.animation.frames_seq()
    }

    /// The cursor of the underlying loop.
    pub closed spec fn cursor(&self) -> nat {
        self.animation.cursor()
    }

    /// Whether the underlying loop is well-formed.
    pub closed spec fn wf(&self) -> bool {
        self.animation.wf()
    }

    /// Builds the rotation over the devices of `light_numbers` found in the
    /// snapshot.  With `hues` given, at least one of those devices must
    /// exist (its mean brightness is needed); the error reports when none
    /// does.  Without `hues`, devices without a full color are skipped and
    /// an empty selection yields an empty animation.
    pub fn new(
        snapshot: &LightCollection,
        transition_time: Millis,
        hold_time: Millis,
        light_numbers: &Vec<LightNumber>,
        hues: Option<Vec<u16>>,
    ) -> (r: Result<RotateAnimation, EffectError>)
        requires
            snapshot.wf(),
        ensures
            ({
                let sel = selected(snapshot.entries_seq(), light_numbers@);
                match r {
                    Err(e) => e == EffectError::NoLights && hues is Some && sel.len() == 0,
                    Ok(a) => {
                        &&& !(hues is Some && sel.len() == 0)
                        &&& a.wf()
                        &&& a.cursor() == 0
                        &&& match hues {
                            Some(hs) => rotation_frames_ok(
                                a.frames_seq(),
                                sel.map_values(|e: (LightNumber, Light)| e.0),
                                hs@.map_values(|h: u16| hue_state(h, group_brightness(sel))),
                                Some(transition_time),
                                hold_time,
                            ),
                            None => rotation_frames_ok(
                                a.frames_seq(),
                                colored(sel).map_values(|e: (LightNumber, LightState)| e.0),
                                colored(sel).map_values(|e: (LightNumber, LightState)| e.1),
                                Some(transition_time),
                                hold_time,
                            ),
                        }
                    },
                }
            }),
    {
        let sel = select_lights(snapshot, light_numbers);
        proof {
            lemma_selected_distinct(snapshot.entries_seq(), light_numbers@);
        }

        match hues {
            Some(hs) => {
                if sel.is_empty() {
                    return Err(EffectError::NoLights);
                }
                let bri = selection_brightness(&sel);
                let keys = sel.keys();
                let m = hs.len();
                let mut states: Vec<LightState> = Vec::new();
                let mut i: usize = 0;
                while i < m
                    invariant
                        i <= m,
                        m == hs@.len(),
                        states@.len() == i,
                        forall|k: int|
                            0 <= k < i ==> #[trigger] states@[k] == hue_state(hs@[k], bri),
                    decreases m - i,
                {
                    states.push(LightState::new().hue(hs[i]).sat(255).bri(bri));
                    i = i + 1;
                }
                proof {
                    let cs = selected(snapshot.entries_seq(), light_numbers@);
                    assert(keys@ =~= cs.map_values(|e: (LightNumber, Light)| e.0));
                    assert(states@ =~= hs@.map_values(
                        |h: u16| hue_state(h, group_brightness(cs)),
                    ));
                    assert forall|a: int, b: int| 0 <= a < b < keys@.len() implies keys@[a]
                        != keys@[b] by {
                        assert(cs[a].0 == keys@[a] && cs[b].0 == keys@[b]);
                    }
                }
                let frames = rotation_frames(&keys, &states, Some(transition_time), hold_time);
                Ok(RotateAnimation { animation: LoopingAnimation::new().with_frames(frames) })
            },
            None => {
                proof {
                    lemma_colored_distinct(sel.entries_seq());
                }
                let animation = rotate_current(&sel, transition_time, hold_time);
                Ok(RotateAnimation { animation })
            },
        }
    }

    /// Returns the frame under the cursor with transition times stamped, and
    /// advances the cursor; `None` only for an empty animation.
    pub fn next(&mut self) -> (r: Option<AnimationFrame>)
        requires
            old(self).wf(),
        ensures
            final(self).wf(),
            final(self).frames_seq() == old(self).frames_seq(),
            old(self).frames_seq().len() == 0 ==> r is None && final(self).cursor() == old(
                self,
            ).cursor(),
            old(self).frames_seq().len() > 0 ==> {
                let i = crate::animation::eval_index(
                    old(self).cursor(),
                    old(self).frames_seq().len(),
                );
                let frame = old(self).frames_seq()[i as int];
                &&& final(self).cursor() == i + 1
                &&& match r {
                    Some(f) => {
                        &&& f.wf()
                        &&& f.hold_time == frame.hold_time
                        &&& f.transition_time == frame.transition_time
                        &&& crate::animation::states_stamped(
                            frame.states.entries_seq(),
                            ticks_spec(match frame.transition_time {
                                Some(t) => t,
                                None => 0,
                            }),
                            f.states.entries_seq(),
                        )
                    },
                    None => false,
                }
            },
    {
        self.animation.next()
    }
}

/// The mean brightness of a non-empty selection: summed brightness (absent
/// values count as zero) over the device count.
fn selection_brightness(sel: &LightCollection) -> (r: u8)
    requires
        sel.entries_seq().len() > 0,
    ensures
        r == group_brightness(sel.entries_seq()),
{
    let ghost s = sel.entries_seq();
    let n = sel.len();
    let mut sum: u128 = 0;
    let mut i: usize = 0;
    while i < n
        invariant
            i <= n,
            n == s.len(),
            s == sel.entries_seq(),
            sum == crate::operation::bri_sum(s.subrange(0, i as int)),
            sum <= 255 * (i as int),
        decreases n - i,
    {
        proof {
            assert(s.subrange(0, i + 1).drop_last() == s.subrange(0, i as int));
            assert(s.subrange(0, i + 1).last() == s[i as int]);
        }
        match sel.value_at(i).state.bri {
            Some(b) => {
                sum = sum + (b as u128);
            },
            None => {},
        }
        i = i + 1;
    }
    proof {
        assert(s.subrange(0, n as int) == s);
        crate::operation::lemma_bri_sum_bounds(s);
        vstd::arithmetic::div_mod::lemma_div_is_ordered(
            sum as int,
            255 * (s.len() as int),
            s.len() as int,
        );
        vstd::arithmetic::div_mod::lemma_div_multiples_vanish(255, s.len() as int);
        assert((255 * (s.len() as int)) / (s.len() as int) == 255) by {
            assert(255 * (s.len() as int) == (s.len() as int) * 255);
        }
        assert(crate::operation::bri_count(s) <= s.len()) by {
            crate::operation::lemma_bri_sum_bounds(s);
        }
        assert(255 * crate::operation::bri_count(s) <= 255 * (s.len() as int)) by (nonlinear_arith)
            requires
                crate::operation::bri_count(s) <= s.len(),
        ;
    }
    (sum / (n as u128)) as u8
}

/// The transform the uniform-random animation gives every device: a fresh
/// full-range hue, a fresh saturation in `[200, 255)`, and the transition
/// time in vendor ticks.
pub open spec fn random_template(ticks: u16) -> DeviceStateTransform {
    DeviceStateTransform {
        on: None,
        bri: None,
        hue: Some(AttributeOperation::SetValue(Producer::Random(RandomProducer))),
        sat: Some(
            AttributeOperation::SetValue(
                Producer::Range(RandomRangeProducer { min: 200u8, max: 255u8 }),
            ),
        ),
        transitiontime: Some(
            AttributeOperation::SetValue(Producer::Constant(ConstantProducer { value: ticks })),
        ),
    }
}

/// The transform the bounded-random ("sleepy") animation gives every
/// device: a hue in the calm `[35000, 48000)` band, a saturation in
/// `[200, 255)`, and the transition time in vendor ticks.
pub open spec fn sleepy_template(ticks: u16) -> DeviceStateTransform {
    DeviceStateTransform {
        on: None,
        bri: None,
        hue: Some(
            AttributeOperation::SetValue(
                Producer::Range(RandomRangeProducer { min: 35000u16, max: 48000u16 }),
            ),
        ),
        sat: Some(
            AttributeOperation::SetValue(
                Producer::Range(RandomRangeProducer { min: 200u8, max: 255u8 }),
            ),
        ),
        transitiontime: Some(
            AttributeOperation::SetValue(Producer::Constant(ConstantProducer { value: ticks })),
        ),
    }
}

/// One single-step animation giving every device of the snapshot the same
/// transform.
fn uniform_animation(
    snapshot: &LightCollection,
    template: DeviceStateTransform,
    transition_time: Millis,
    hold_time: Millis,
) -> (a: DynamicAnimation)
    requires
        snapshot.wf(),
    ensures
        a.wf(),
        a.cursor() == 0,
        a.spec_transition_time() == Some(transition_time),
        a.spec_hold_time() == hold_time,
        a.steps_seq().len() == 1,
        a.steps_seq()[0].transforms.entries_seq().len() == snapshot.entries_seq().len(),
        forall|k: int|
            0 <= k < snapshot.entries_seq().len()
                ==> #[trigger] a.steps_seq()[0].transforms.entries_seq()[k] == (
            (#[trigger] snapshot.entries_seq()[k]).0,
            template,
            ),
{
    let n = snapshot.len();
    let mut step = DynamicAnimationStep::new();
    for i in 0..n
        invariant
            n == snapshot.entries_seq().len(),
            snapshot.wf(),
            step.wf(),
            step.transforms.entries_seq().len() == i,
            forall|k: int|
                0 <= k < i ==> #[trigger] step.transforms.entries_seq()[k] == (
                (#[trigger] snapshot.entries_seq()[k]).0,
                template,
                ),
    {
        let key = snapshot.key_at(i);
        proof {
            crate::device_map::lemma_map_of_contains(step.transforms.entries_seq(), key);
            if step.transforms.to_map().dom().contains(key) {
                let k = choose|k: int|
                    0 <= k < step.transforms.entries_seq().len() && (
                    #[trigger] step.transforms.entries_seq()[k]).0 == key;
                assert(snapshot.entries_seq()[k].0 == key);
                assert(false);
            }
        }
        step.transforms.push_entry(key, template);
    }
    let mut a = DynamicAnimation::new(Some(transition_time), hold_time);
    a.animation_step(step);
    a
}

/// The uniform-random animation: every device of the snapshot redraws a
/// full-range hue and a high saturation each frame, transitioning over
/// `transition_time` and holding for `hold_time` (both in milliseconds).
pub fn create_random_animation(
    snapshot: &LightCollection,
    transition_time: Millis,
    hold_time: Millis,
) -> (a: DynamicAnimation)
    requires
        snapshot.wf(),
    ensures
        a.wf(),
        a.cursor() == 0,
        a.spec_transition_time() == Some(transition_time),
        a.spec_hold_time() == hold_time,
        a.steps_seq().len() == 1,
        a.steps_seq()[0].transforms.entries_seq().len() == snapshot.entries_seq().len(),
        forall|k: int|
            0 <= k < snapshot.entries_seq().len()
                ==> #[trigger] a.steps_seq()[0].transforms.entries_seq()[k] == (
            (#[trigger] snapshot.entries_seq()[k]).0,
            random_template(ticks_spec(transition_time)),
            ),
{
    let ticks = transition_ticks(transition_time);
    let template = DeviceStateTransform {
        on: None,
        bri: None,
        hue: Some(AttributeOperation::SetValue(Producer::Random(RandomProducer::new()))),
        sat: Some(
            AttributeOperation::SetValue(
                Producer::Range(RandomRangeProducer::new(200u8, 255u8)),
            ),
        ),
        transitiontime: Some(
            AttributeOperation::SetValue(Producer::Constant(ConstantProducer::new(ticks))),
        ),
    };
    proof {
        assert(template == random_template(ticks_spec(transition_time)));
    }
    uniform_animation(snapshot, template, transition_time, hold_time)
}

/// The bounded-random "sleepy" animation: like the uniform-random one but
/// with hues restricted to a calm band.
pub fn create_sleepy_random_animation(
    snapshot: &LightCollection,
    transition_time: Millis,
    hold_time: Millis,
) -> (a: DynamicAnimation)
    requires
        snapshot.wf(),
    ensures
        a.wf(),
        a.cursor() == 0,
        a.spec_transition_time() == Some(transition_time),
        a.spec_hold_time() == hold_time,
        a.steps_seq().len() == 1,
        a.steps_seq()[0].transforms.entries_seq().len() == snapshot.entries_seq().len(),
        forall|k: int|
            0 <= k < snapshot.entries_seq().len()
                ==> #[trigger] a.steps_seq()[0].transforms.entries_seq()[k] == (
            (#[trigger] snapshot.entries_seq()[k]).0,
            sleepy_template(ticks_spec(transition_time)),
            ),
{
    let ticks = transition_ticks(transition_time);
    let template = DeviceStateTransform {
        on: None,
        bri: None,
        hue: Some(
            AttributeOperation::SetValue(
                Producer::Range(RandomRangeProducer::new(35000u16, 48000u16)),
            ),
        ),
        sat: Some(
            AttributeOperation::SetValue(
                Producer::Range(RandomRangeProducer::new(200u8, 255u8)),
            ),
        ),
        transitiontime: Some(
            AttributeOperation::SetValue(Producer::Constant(ConstantProducer::new(ticks))),
        ),
    };
    proof {
        assert(template == sleepy_template(ticks_spec(transition_time)));
    }
    uniform_animation(snapshot, template, transition_time, hold_time)
}

/// A value clamped into the range a 16-bit divisor can hold, never zero
/// when the input is positive.
pub open spec fn clamp_u16(x: u64) -> u16 {
    if x > u16::MAX {
        u16::MAX
    } else {
        x as u16
    }
}

/// The loop time the rainbow actually uses: at least three seconds.
pub open spec fn rainbow_loop_millis(time_per_loop: Millis) -> Millis {
    if time_per_loop < 3000 {
        3000u64
    } else {
        time_per_loop
    }
}

/// How many frames one rainbow loop has: one per half-second of the loop
/// time.
pub open spec fn rainbow_steps(time_per_loop: Millis) -> u64 {
    rainbow_loop_millis(time_per_loop) / 500
}

/// The hue painted on the `j`-th device of the `i`-th rainbow frame: the
/// frame advances all devices by `hs`, and each device is offset from its
/// left neighbour by `ls`, wrapping around the hue circle.
pub open spec fn rainbow_hue(i: u64, j: nat, hs: u16, ls: u16) -> u16
    decreases j,
{
    if j == 0 {
        (i as u16).wrapping_mul(hs)
    } else {
        rainbow_hue(i, (j - 1) as nat, hs, ls).wrapping_add(ls)
    }
}

/// The state the rainbow paints: the given hue at full saturation.
pub open spec fn rainbow_state(hue: u16) -> LightState {
    LightState { on: None, bri: None, hue: Some(hue), sat: Some(255u8), transitiontime: None }
}

/// A rainbow cycle over every device of the snapshot: the hue circle is
/// divided evenly among the frames of one loop and among the devices, each
/// frame advancing every device's hue one step (wrapping around the
/// circle).  Loops shorter than three seconds are stretched to three
/// seconds.  At least one device is needed; the error reports when none is
/// known.
/// Every frame of a rainbow over the devices of `s` with the given loop
/// time: the hue circle divided evenly among frames and devices.
pub open spec fn rainbow_animation_ok(
    a: LoopingAnimation,
    s: Seq<(LightNumber, Light)>,
    time_per_loop: Millis,
) -> bool {
    let steps = rainbow_steps(time_per_loop);
    let hs = u16::MAX / clamp_u16(steps);
    let ls = u16::MAX / clamp_u16(s.len() as u64);
    &&& s.len() > 0
    &&& a.wf()
    &&& a.cursor() == 0
    &&& a.frames_seq().len() == steps
    &&& forall|fi: int|
        0 <= fi < steps ==> {
            let f = #[trigger] a.frames_seq()[fi];
            &&& f.wf()
            &&& f.hold_time == 0
            &&& f.transition_time == Some(rainbow_loop_millis(time_per_loop) / steps)
            &&& f.states.entries_seq().len() == s.len()
            &&& forall|j: int|
                0 <= j < s.len() ==> #[trigger] f.states.entries_seq()[j] == (
                s[j].0,
                rainbow_state(rainbow_hue(fi as u64, j as nat, hs, ls)),
                )
        }
}

pub fn rainbow(snapshot: &LightCollection, time_per_loop: Millis) -> (r: Result<
    LoopingAnimation,
    EffectError,
>)
    requires
        snapshot.wf(),
    ensures
        match r {
            Err(e) => e == EffectError::NoLights && snapshot.entries_seq().len() == 0,
            Ok(a) => rainbow_animation_ok(a, snapshot.entries_seq(), time_per_loop),
        },
{
    let ghost s = snapshot.entries_seq();
    let n = snapshot.len();
    if n == 0 {
        return Err(EffectError::NoLights);
    }

    let time_millis = if time_per_loop < 3000 {
        3000u64
    } else {
        time_per_loop
    };
    let steps: u64 = time_millis / 500;
    let transition: u64 = time_millis / steps;
    let steps16: u16 = if steps > u16::MAX as u64 {
        u16::MAX
    } else {
        steps as u16
    };
    let lights16: u16 = if (n as u64) > u16::MAX as u64 {
        u16::MAX
    } else {
        n as u16
    };
    let hue_step: u16 = u16::MAX / steps16;
    let light_step: u16 = u16::MAX / lights16;

    let mut frames: Vec<AnimationFrame> = Vec::new();
    let mut fi: u64 = 0;
    while fi < steps
        invariant
            n == s.len(),
            s == snapshot.entries_seq(),
            snapshot.wf(),
            n > 0,
            fi <= steps,
            steps == rainbow_steps(time_per_loop),
            transition == rainbow_loop_millis(time_per_loop) / steps,
            hue_step == u16::MAX / clamp_u16(steps),
            light_step == u16::MAX / clamp_u16(s.len() as u64),
            frames@.len() == fi,
            forall|b: int|
                0 <= b < fi ==> {
                    let f = #[trigger] frames@[b];
                    &&& f.wf()
                    &&& f.hold_time == 0
                    &&& f.transition_time == Some(transition)
                    &&& f.states.entries_seq().len() == s.len()
                    &&& forall|j: int|
                        0 <= j < s.len() ==> #[trigger] f.states.entries_seq()[j] == (
                        s[j].0,
                        rainbow_state(rainbow_hue(b as u64, j as nat, hue_step, light_step)),
                        )
                },
        decreases steps - fi,
    {
        let mut fstates: DeviceMap<LightState> = DeviceMap::new();
        let mut current_hue: u16 = (fi as u16).wrapping_mul(hue_step);
        let mut j: usize = 0;
        while j < n
            invariant
                n == s.len(),
                s == snapshot.entries_seq(),
                snapshot.wf(),
                j <= n,
                fstates.wf(),
                fstates.entries_seq().len() == j,
                current_hue == rainbow_hue(fi as u64, j as nat, hue_step, light_step),
                forall|k: int|
                    0 <= k < j ==> #[trigger] fstates.entries_seq()[k] == (
                    s[k].0,
                    rainbow_state(rainbow_hue(fi as u64, k as nat, hue_step, light_step)),
                    ),
            decreases n - j,
        {
            let key = snapshot.key_at(j);
            proof {
                crate::device_map::lemma_map_of_contains(fstates.entries_seq(), key);
                if fstates.to_map().dom().contains(key) {
                    let k = choose|k: int|
                        0 <= k < fstates.entries_seq().len() && (#[trigger] fstates.entries_seq()[
                            k
                        ]).0 == key;
                    assert(s[k].0 == key);
                    assert(false);
                }
            }
            fstates.push_entry(key, LightState::new().hue(current_hue).sat(255));
            current_hue = current_hue.wrapping_add(light_step);
            j = j + 1;
        }
        let frame = AnimationFrame {
            hold_time: 0,
            transition_time: Some(transition),
            states: fstates,
        };
        frames.push(frame);
        fi = fi + 1;
    }
    Ok(LoopingAnimation::new().with_frames(frames))
}

} // verus!
