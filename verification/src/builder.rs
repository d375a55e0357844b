//! A small builder for assembling animation frames by hand, and the color
//! changes a frame can be asked to paint.

use vstd::prelude::*;

use crate::animation::{AnimationFrame, Millis};
use crate::color::Color;
use crate::device_map::DeviceMap;
use crate::light::{LightNumber, LightState};

verus! {

/// How one device's color should change in a hand-built frame.
#[derive(Clone, Copy, Debug, PartialEq, Eq, Structural)]
pub enum ColorChange {
    /// Paint this exact color.
    HSB(Color),
    /// Shift hue, saturation and brightness by these amounts.
    Diff(u16, u8, u8),
    /// Draw a fresh hue.
    RandomHue,
}

/// Assembles one animation frame: timing plus per-device states.
pub struct AnimationFrameBuilder {
    hold_time: Option<Millis>,
    transition_time: Option<Millis>,
    states: DeviceMap<LightState>,
}

impl AnimationFrameBuilder {
    /// The hold time set so far.
    pub closed spec fn spec_hold_time(&self) -> Option<Millis> {
        self.hold_time
    }

    /// The transition time set so far.
    pub closed spec fn spec_transition_time(&self) -> Option<Millis> {
        self.transition_time
    }

    /// The per-device states set so far.
    pub closed spec fn spec_states(&self) -> DeviceMap<LightState> {
        self.states
    }

    /// The state table has distinct keys.
    pub open spec fn wf(&self) -> bool {
        self.spec_states().wf()
    }

    /// Sets how long the frame holds after its transition.
    pub fn with_hold_time(self, hold_time: Millis) -> (b: AnimationFrameBuilder)
        ensures
            b.spec_hold_time() == Some(hold_time),
            b.spec_transition_time() == self.spec_transition_time(),
            b.spec_states() == self.spec_states(),
    {
        AnimationFrameBuilder { hold_time: Some(hold_time), ..self }
    }

    /// Sets how long the transition into the frame takes.
    pub fn with_transition_time(self, transition_time: Millis) -> (b: AnimationFrameBuilder)
        ensures
            b.spec_transition_time() == Some(transition_time),
            b.spec_hold_time() == self.spec_hold_time(),
            b.spec_states() == self.spec_states(),
    {
        AnimationFrameBuilder { transition_time: Some(transition_time), ..self }
    }

    /// Sets one device's state, replacing any state already given for it.
    pub fn with_light_state(
        self,
        light_number: LightNumber,
        light_state: LightState,
    ) -> (b: AnimationFrameBuilder)
        requires
            self.wf(),
        ensures
            b.wf(),
            b.spec_hold_time() == self.spec_hold_time(),
            b.spec_transition_time() == self.spec_transition_time(),
            b.spec_states().to_map() == self.spec_states().to_map().insert(
                light_number,
                light_state,
            ),
    {
        let mut b = self;
        b.states.insert(light_number, light_state);
        b
    }

    /// The finished frame: an unset hold time counts as zero, an unset
    /// transition time stays unset to mean "use the transport default".
    pub fn build(self) -> (f: AnimationFrame)
        requires
            self.wf(),
        ensures
            f.wf(),
            f.hold_time == (match self.spec_hold_time() {
                Some(h) => h,
                None => 0u64,
            }),
            f.transition_time == self.spec_transition_time(),
            f.states == self.spec_states(),
    {
        let hold_time = match self.hold_time {
            Some(h) => h,
            None => 0,
        };
        AnimationFrame { hold_time, transition_time: self.transition_time, states: self.states }
    }
}

impl Default for AnimationFrameBuilder {
    /// A builder with no timing and no states.
    fn default() -> (b: AnimationFrameBuilder)
        ensures
            b.wf(),
            b.spec_hold_time() is None,
            b.spec_transition_time() is None,
            b.spec_states().entries_seq() == Seq::<(LightNumber, LightState)>::empty(),
    {
        AnimationFrameBuilder { hold_time: None, transition_time: None, states: DeviceMap::new() }
    }
}

} // verus!
