//! A color expressed in the hue/saturation/value channels that the lighting
//! transport understands: a full-range 16-bit hue and 8-bit saturation and
//! value.

use vstd::prelude::*;

verus! {

/// A hue/saturation/value triple in vendor units.
#[derive(Clone, Copy, Debug, PartialEq, Eq, Structural)]
pub struct Color {
    pub hue: u16,
    pub saturation: u8,
    pub value: u8,
}

impl Color {
    /// Builds a color directly from its three channels.
    pub fn from_hsv(hue: u16, saturation: u8, value: u8) -> (c: Color)
        ensures
            c.hue == hue,
            c.saturation == saturation,
            c.value == value,
    {
        Color { hue, saturation, value }
    }

    /// The hue channel.
    pub fn h(&self) -> (h: u16)
        ensures
            h == self.hue,
    {
        self.hue
    }

    /// The saturation channel.
    pub fn s(&self) -> (s: u8)
        ensures
            s == self.saturation,
    {
        self.saturation
    }

    /// The value (brightness) channel.
    pub fn v(&self) -> (v: u8)
        ensures
            v == self.value,
    {
        self.value
    }

    /// All three channels at once.
    pub fn hsv(&self) -> (t: (u16, u8, u8))
        ensures
            t == (self.hue, self.saturation, self.value),
    {
        (self.hue, self.saturation, self.value)
    }
}

} // verus!
