//! Per-device transforms: a bundle of up to five independent attribute
//! operations for one device, and their evaluation against a snapshot.
//!
//! Evaluating a transform never fails and never panics.  A device absent
//! from the snapshot still produces a result: its previous values are all
//! absent, so `Set` operations still yield a value while `Add` and
//! `Multiply` yield `None`.  An attribute with no configured operation
//! passes through as `None`, meaning "do not change this attribute".

use vstd::prelude::*;

use crate::device_map::{DeviceMap, LightCollection};
use crate::light::{Light, LightNumber, LightState};
use crate::operation::AttributeOperation;
use crate::producer::Producer;

verus! {

/// Up to one operation per attribute; omitted attributes are left
/// unchanged by the frame.
#[derive(Clone, Copy, Debug, PartialEq, Eq, Structural)]
pub struct DeviceStateTransform {
    pub on: Option<AttributeOperation<bool>>,
    pub bri: Option<AttributeOperation<u8>>,
    pub hue: Option<AttributeOperation<u16>>,
    pub sat: Option<AttributeOperation<u8>>,
    pub transitiontime: Option<AttributeOperation<u16>>,
}

/// One attribute's operation, tagged by the attribute it drives.
#[derive(Clone, Copy, Debug, PartialEq, Eq, Structural)]
pub enum ConfigurableValue {
    On(AttributeOperation<bool>),
    Hue(AttributeOperation<u16>),
    Saturation(AttributeOperation<u8>),
    Brightness(AttributeOperation<u8>),
    TransitionTime(AttributeOperation<u16>),
}

/// What results a transform allows for a device whose previous state is
/// `prev` under snapshot `snap`: per attribute, `None` exactly when no
/// operation is configured, and otherwise whatever the operation allows
/// given the previous value of that attribute.
pub open spec fn transform_obeys(
    t: DeviceStateTransform,
    snap: Seq<(LightNumber, Light)>,
    prev: Option<LightState>,
    r: LightState,
) -> bool {
    &&& match t.on {
        None => r.on is None,
        Some(op) => op.obeys(snap, prev_attr_on(prev), r.on),
    }
    &&& match t.bri {
        None => r.bri is None,
        Some(op) => op.obeys(snap, prev_attr_bri(prev), r.bri),
    }
    &&& match t.hue {
        None => r.hue is None,
        Some(op) => op.obeys(snap, prev_attr_hue(prev), r.hue),
    }
    &&& match t.sat {
        None => r.sat is None,
        Some(op) => op.obeys(snap, prev_attr_sat(prev), r.sat),
    }
    &&& match t.transitiontime {
        None => r.transitiontime is None,
        Some(op) => op.obeys(snap, prev_attr_transitiontime(prev), r.transitiontime),
    }
}

/// The previous on/off value of a possibly-unknown device.
pub open spec fn prev_attr_on(prev: Option<LightState>) -> Option<bool> {
    match prev {
        Some(s) => s.on,
        None => None,
    }
}

/// The previous brightness of a possibly-unknown device.
pub open spec fn prev_attr_bri(prev: Option<LightState>) -> Option<u8> {
    match prev {
        Some(s) => s.bri,
        None => None,
    }
}

/// The previous hue of a possibly-unknown device.
pub open spec fn prev_attr_hue(prev: Option<LightState>) -> Option<u16> {
    match prev {
        Some(s) => s.hue,
        None => None,
    }
}

/// The previous saturation of a possibly-unknown device.
pub open spec fn prev_attr_sat(prev: Option<LightState>) -> Option<u8> {
    match prev {
        Some(s) => s.sat,
        None => None,
    }
}

/// The previous transition time of a possibly-unknown device.
pub open spec fn prev_attr_transitiontime(prev: Option<LightState>) -> Option<u16> {
    match prev {
        Some(s) => s.transitiontime,
        None => None,
    }
}

/// The last-known state of device `n` in a snapshot, absent when the device
/// is unknown.
pub open spec fn snapshot_prev(snapshot: LightCollection, n: LightNumber) -> Option<LightState> {
    if snapshot.to_map().dom().contains(n) {
        Some(snapshot.to_map()[n].state)
    } else {
        None
    }
}

/// The transform `t` with one attribute's operation replaced by `value`.
pub open spec fn installed(
    t: DeviceStateTransform,
    value: ConfigurableValue,
) -> DeviceStateTransform {
    match value {
        ConfigurableValue::On(op) => DeviceStateTransform { on: Some(op), ..t },
        ConfigurableValue::Hue(op) => DeviceStateTransform { hue: Some(op), ..t },
        ConfigurableValue::Saturation(op) => DeviceStateTransform { sat: Some(op), ..t },
        ConfigurableValue::Brightness(op) => DeviceStateTransform { bri: Some(op), ..t },
        ConfigurableValue::TransitionTime(op) => DeviceStateTransform {
            transitiontime: Some(op),
            ..t
        },
    }
}

impl DeviceStateTransform {
    /// A transform that changes nothing.
    pub fn new() -> (t: DeviceStateTransform)
        ensures
            t.on is None,
            t.bri is None,
            t.hue is None,
            t.sat is None,
            t.transitiontime is None,
    {
        DeviceStateTransform { on: None, bri: None, hue: None, sat: None, transitiontime: None }
    }

    /// Installs one attribute's operation, replacing any operation already
    /// configured for that attribute.
    pub fn set_operation(&mut self, value: ConfigurableValue)
        ensures
            *final(self) == installed(*old(self), value),
    {
        match value {
            ConfigurableValue::On(op) => self.on = Some(op),
            ConfigurableValue::Hue(op) => self.hue = Some(op),
            ConfigurableValue::Saturation(op) => self.sat = Some(op),
            ConfigurableValue::Brightness(op) => self.bri = Some(op),
            ConfigurableValue::TransitionTime(op) => self.transitiontime = Some(op),
        }
    }

    /// Evaluates the transform for device `light_num` against a snapshot of
    /// all devices, yielding the partial next-state for that device.
    pub fn evaluate(&self, light_num: LightNumber, snapshot: &LightCollection) -> (r: LightState)
        requires
            snapshot.wf(),
        ensures
            transform_obeys(*self, snapshot.entries_seq(), snapshot_prev(*snapshot, light_num), r),
    {
        let previous: Option<LightState> = match snapshot.get(light_num) {
            Some(light) => Some(light.state),
            None => None,
        };

        let on = match &self.on {
            Some(op) => op.process(snapshot, match previous {
                Some(s) => s.on,
                None => None,
            }),
            None => None,
        };
        let bri = match &self.bri {
            Some(op) => op.process(snapshot, match previous {
                Some(s) => s.bri,
                None => None,
            }),
            None => None,
        };
        let hue = match &self.hue {
            Some(op) => op.process(snapshot, match previous {
                Some(s) => s.hue,
                None => None,
            }),
            None => None,
        };
        let sat = match &self.sat {
            Some(op) => op.process(snapshot, match previous {
                Some(s) => s.sat,
                None => None,
            }),
            None => None,
        };
        let transitiontime = match &self.transitiontime {
            Some(op) => op.process(snapshot, match previous {
                Some(s) => s.transitiontime,
                None => None,
            }),
            None => None,
        };

        LightState { on, bri, hue, sat, transitiontime }
    }
}

/// Evaluates every transform whose device is present in the snapshot: the
/// result maps exactly the devices present in both `transforms` and
/// `snapshot` to a partial state the device's transform allows.  A transform
/// targeting a device missing from the snapshot is silently dropped.
pub fn transform(
    snapshot: &LightCollection,
    transforms: &DeviceMap<DeviceStateTransform>,
) -> (states: DeviceMap<LightState>)
    requires
        snapshot.wf(),
        transforms.wf(),
    ensures
        states.wf(),
        forall|n: LightNumber|
            #[trigger] states.to_map().dom().contains(n) <==> (transforms.to_map().dom().contains(
                n,
            ) && snapshot.to_map().dom().contains(n)),
        forall|n: LightNumber|
            #[trigger] states.to_map().dom().contains(n) ==> transform_obeys(
                transforms.to_map()[n],
                snapshot.entries_seq(),
                snapshot_prev(*snapshot, n),
                states.to_map()[n],
            ),
{
    let n = transforms.len();
    let mut states: DeviceMap<LightState> = DeviceMap::new();
    for i in 0..n
        invariant
            snapshot.wf(),
            transforms.wf(),
            states.wf(),
            n == transforms.entries_seq().len(),
            forall|k: LightNumber|
                #[trigger] states.to_map().dom().contains(k) ==> (
                transforms.to_map().dom().contains(k) && snapshot.to_map().dom().contains(k)),
            forall|j: int|
                0 <= j < i ==> (snapshot.to_map().dom().contains(
                    (#[trigger] transforms.entries_seq()[j]).0,
                ) ==> states.to_map().dom().contains(transforms.entries_seq()[j].0)),
            forall|k: LightNumber|
                #[trigger] states.to_map().dom().contains(k) ==> transform_obeys(
                    transforms.to_map()[k],
                    snapshot.entries_seq(),
                    snapshot_prev(*snapshot, k),
                    states.to_map()[k],
                ),
    {
        let num = transforms.key_at(i);
        proof {
            crate::device_map::lemma_map_of_index(transforms.entries_seq(), i as int);
        }
        if snapshot.contains_key(num) {
            if !states.contains_key(num) {
                let tr = transforms.value_at(i);
                let state = tr.evaluate(num, snapshot);
                states.push_entry(num, state);
            }
        }
    }
    proof {
        crate::device_map::lemma_map_of_contains(transforms.entries_seq(), 0);
        assert forall|k: LightNumber| #[trigger]
            transforms.to_map().dom().contains(k) && snapshot.to_map().dom().contains(k)
            implies states.to_map().dom().contains(k) by {
            crate::device_map::lemma_map_of_contains(transforms.entries_seq(), k);
        }
    }
    states
}

/// With only a constant `Set` operation configured for an attribute, any
/// allowed evaluation result carries exactly that constant for the
/// attribute, whatever the snapshot and previous state.
pub proof fn lemma_set_constant_yields_constant(
    t: DeviceStateTransform,
    snap: Seq<(LightNumber, Light)>,
    prev: Option<LightState>,
    r: LightState,
)
    requires
        transform_obeys(t, snap, prev, r),
    ensures
        t.on matches Some(AttributeOperation::SetValue(Producer::Constant(p))) ==> r.on == Some(
            p.value,
        ),
        t.bri matches Some(AttributeOperation::SetValue(Producer::Constant(p))) ==> r.bri == Some(
            p.value,
        ),
        t.hue matches Some(AttributeOperation::SetValue(Producer::Constant(p))) ==> r.hue == Some(
            p.value,
        ),
        t.sat matches Some(AttributeOperation::SetValue(Producer::Constant(p))) ==> r.sat == Some(
            p.value,
        ),
        t.transitiontime matches Some(AttributeOperation::SetValue(Producer::Constant(p)))
            ==> r.transitiontime == Some(p.value),
{
}

/// For a device absent from the snapshot there is no previous value, so
/// `Add` and `Multiply` operations yield `None` while `Set` operations
/// still yield a value.
pub proof fn lemma_absent_device(
    t: DeviceStateTransform,
    snap: Seq<(LightNumber, Light)>,
    r: LightState,
)
    requires
        transform_obeys(t, snap, None, r),
    ensures
        t.on matches Some(AttributeOperation::SetValue(_)) ==> r.on is Some,
        t.on matches Some(AttributeOperation::Add(_)) ==> r.on is None,
        t.on matches Some(AttributeOperation::Multiply(_)) ==> r.on is None,
        t.bri matches Some(AttributeOperation::SetValue(_)) ==> r.bri is Some,
        t.bri matches Some(AttributeOperation::Add(_)) ==> r.bri is None,
        t.bri matches Some(AttributeOperation::Multiply(_)) ==> r.bri is None,
        t.hue matches Some(AttributeOperation::SetValue(_)) ==> r.hue is Some,
        t.hue matches Some(AttributeOperation::Add(_)) ==> r.hue is None,
        t.hue matches Some(AttributeOperation::Multiply(_)) ==> r.hue is None,
        t.sat matches Some(AttributeOperation::SetValue(_)) ==> r.sat is Some,
        t.sat matches Some(AttributeOperation::Add(_)) ==> r.sat is None,
        t.sat matches Some(AttributeOperation::Multiply(_)) ==> r.sat is None,
        t.transitiontime matches Some(AttributeOperation::SetValue(_)) ==> r.transitiontime
            is Some,
        t.transitiontime matches Some(AttributeOperation::Add(_)) ==> r.transitiontime is None,
        t.transitiontime matches Some(AttributeOperation::Multiply(_)) ==> r.transitiontime
            is None,
{
}

} // verus!
