//! Device state: the optional attributes a lighting device reports, and the
//! partial states ("diffs") the engine layers over them.
//!
//! A `LightState` plays two roles.  As part of a snapshot it records the
//! last-known attributes of one device; as the result of evaluating a
//! transform it is a sparse diff where `None` means "do not change this
//! attribute".  Two states combine left-to-right with `combine`: for each
//! attribute the later (diff) value wins when present.

use vstd::prelude::*;

use crate::color::Color;

verus! {

/// Identifies one addressable device; stable for a session.
pub type LightNumber = u8;

/// The optional attributes of one device: on/off, brightness, hue,
/// saturation, and the transition time in vendor ticks (one tick is 100
/// milliseconds).  Every field may be absent, meaning "unknown" in a
/// snapshot and "leave unchanged" in a diff.
#[derive(Clone, Copy, Debug, PartialEq, Eq, Structural)]
pub struct LightState {
    pub on: Option<bool>,
    pub bri: Option<u8>,
    pub hue: Option<u16>,
    pub sat: Option<u8>,
    pub transitiontime: Option<u16>,
}

/// What `combine` returns: for each attribute the diff's value when present,
/// otherwise the base's.
pub open spec fn combine_spec(base: LightState, diff: LightState) -> LightState {
    LightState {
        on: if diff.on is Some { diff.on } else { base.on },
        bri: if diff.bri is Some { diff.bri } else { base.bri },
        hue: if diff.hue is Some { diff.hue } else { base.hue },
        sat: if diff.sat is Some { diff.sat } else { base.sat },
        transitiontime: if diff.transitiontime is Some {
            diff.transitiontime
        } else {
            base.transitiontime
        },
    }
}

/// The state with every attribute absent: the identity diff.
pub open spec fn empty_state() -> LightState {
    LightState { on: None, bri: None, hue: None, sat: None, transitiontime: None }
}

impl LightState {
    /// A state with every attribute absent.
    pub fn new() -> (s: LightState)
        ensures
            s == empty_state(),
    {
        LightState { on: None, bri: None, hue: None, sat: None, transitiontime: None }
    }

    /// Sets the on/off attribute.
    pub fn on(self, is_on: bool) -> (s: LightState)
        ensures
            s == (LightState { on: Some(is_on), ..self }),
    {
        LightState { on: Some(is_on), ..self }
    }

    /// Sets the brightness attribute.
    pub fn bri(self, brightness: u8) -> (s: LightState)
        ensures
            s == (LightState { bri: Some(brightness), ..self }),
    {
        LightState { bri: Some(brightness), ..self }
    }

    /// Sets the hue attribute.
    pub fn hue(self, hue: u16) -> (s: LightState)
        ensures
            s == (LightState { hue: Some(hue), ..self }),
    {
        LightState { hue: Some(hue), ..self }
    }

    /// Sets the saturation attribute.
    pub fn sat(self, saturation: u8) -> (s: LightState)
        ensures
            s == (LightState { sat: Some(saturation), ..self }),
    {
        LightState { sat: Some(saturation), ..self }
    }

    /// Sets the transition time, in vendor ticks.
    pub fn transitiontime(self, transition_time: u16) -> (s: LightState)
        ensures
            s == (LightState { transitiontime: Some(transition_time), ..self }),
    {
        LightState { transitiontime: Some(transition_time), ..self }
    }

    /// Sets hue, saturation and brightness from a color.
    pub fn color(self, color: &Color) -> (s: LightState)
        ensures
            s == (LightState {
                hue: Some(color.hue),
                sat: Some(color.saturation),
                bri: Some(color.value),
                ..self
            }),
    {
        self.hue(color.hue).sat(color.saturation).bri(color.value)
    }

    /// Whether the device is known to be on; an absent flag counts as off.
    pub fn is_on(&self) -> (r: bool)
        ensures
            r == (self.on == Some(true)),
    {
        match self.on {
            Some(is_on) => is_on,
            None => false,
        }
    }

    /// The color of this state, when hue, saturation and brightness are all
    /// reported.
    pub fn get_color(&self) -> (c: Option<Color>)
        ensures
            match c {
                Some(color) => {
                    &&& self.hue == Some(color.hue)
                    &&& self.sat == Some(color.saturation)
                    &&& self.bri == Some(color.value)
                },
                None => self.hue is None || self.sat is None || self.bri is None,
            },
    {
        if let (Some(hue), Some(sat), Some(bri)) = (self.hue, self.sat, self.bri) {
            Some(Color::from_hsv(hue, sat, bri))
        } else {
            None
        }
    }

    /// Layers `diff` over `base`: for each attribute the diff's value wins
    /// when present, otherwise the base's value is kept.  This never fails
    /// and is the sole mechanism for applying a transform result to a
    /// previous known state.
    pub fn combine(base: &LightState, diff: &LightState) -> (r: LightState)
        ensures
            r == combine_spec(*base, *diff),
    {
        let on = if diff.on.is_some() { diff.on } else { base.on };
        let bri = if diff.bri.is_some() { diff.bri } else { base.bri };
        let hue = if diff.hue.is_some() { diff.hue } else { base.hue };
        let sat = if diff.sat.is_some() { diff.sat } else { base.sat };
        let transitiontime = if diff.transitiontime.is_some() {
            diff.transitiontime
        } else {
            base.transitiontime
        };

        LightState { on, bri, hue, sat, transitiontime }
    }
}

impl Default for LightState {
    /// Same as `LightState::new`: every attribute absent.
    fn default() -> (s: LightState)
        ensures
            s == empty_state(),
    {
        LightState { on: None, bri: None, hue: None, sat: None, transitiontime: None }
    }
}

/// Combining is associative: layering `c` over `combine(a, b)` equals
/// layering `combine(b, c)` over `a`.
pub proof fn lemma_combine_associative(a: LightState, b: LightState, c: LightState)
    ensures
        combine_spec(combine_spec(a, b), c) == combine_spec(a, combine_spec(b, c)),
{
}

/// The empty diff is a right identity of `combine`.
pub proof fn lemma_combine_empty_diff(base: LightState)
    ensures
        combine_spec(base, empty_state()) == base,
{
}

/// A device as the transport reports it: a display name and its last-known
/// state.
#[derive(Clone, Debug, PartialEq, Eq)]
pub struct Light {
    pub name: String,
    pub state: LightState,
}

impl Light {
    /// A copy of the device record.
    pub fn duplicate(&self) -> (l: Light)
        ensures
            l == *self,
    {
        Light { name: self.name.clone(), state: self.state }
    }

    /// The color of the device's last-known state, when fully reported.
    pub fn color(&self) -> (c: Option<Color>)
        ensures
            match c {
                Some(color) => {
                    &&& self.state.hue == Some(color.hue)
                    &&& self.state.sat == Some(color.saturation)
                    &&& self.state.bri == Some(color.value)
                },
                None => self.state.hue is None || self.state.sat is None
                    || self.state.bri is None,
            },
    {
        self.state.get_color()
    }
}

/// A dynamic visual effect a device can run on its own.
#[derive(Clone, Copy, Debug, PartialEq, Eq, Structural)]
pub enum LightEffect {
    NoEffect,
    ColorLoop,
}

/// A one-shot alert pattern a device can play.
#[derive(Clone, Copy, Debug, PartialEq, Eq, Structural)]
pub enum LightAlert {
    NoAlert,
    Select,
    Lselect,
}

/// Which color representation a device last used.
#[derive(Clone, Copy, Debug, PartialEq, Eq, Structural)]
pub enum LightColorMode {
    HS,
    XY,
    CT,
}

} // verus!
