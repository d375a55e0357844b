//! An in-memory device connection for tests and development: it answers the
//! same questions a real transport does (fetch all devices, fetch one, apply
//! a partial state) against a device table it owns, with no I/O anywhere.

use vstd::prelude::*;

use crate::device_map::{DeviceMap, LightCollection};
use crate::light::{combine_spec, Light, LightNumber, LightState};

verus! {

/// Why a connection call failed.
#[derive(Clone, Copy, Debug, PartialEq, Eq, Structural)]
pub enum ApiError {
    /// No device with this number is known.
    LightNotFound(LightNumber),
}

/// The devices a snapshot reports as on.
pub open spec fn active(s: Seq<(LightNumber, Light)>) -> Seq<(LightNumber, Light)>
    decreases s.len(),
{
    if s.len() == 0 {
        Seq::empty()
    } else {
        let rest = active(s.drop_last());
        if s.last().1.state.on == Some(true) {
            rest.push(s.last())
        } else {
            rest
        }
    }
}

/// Active entries keep their snapshot keys, and distinct keys stay
/// distinct.
pub proof fn lemma_active_distinct(s: Seq<(LightNumber, Light)>)
    requires
        crate::device_map::distinct_keys(s),
    ensures
        crate::device_map::distinct_keys(active(s)),
        forall|i: int|
            0 <= i < active(s).len() ==> exists|j: int|
                0 <= j < s.len() && (#[trigger] active(s)[i]).0 == (#[trigger] s[j]).0,
    decreases s.len(),
{
    if s.len() > 0 {
        let d = s.drop_last();
        assert(crate::device_map::distinct_keys(d));
        lemma_active_distinct(d);
        assert forall|i: int| 0 <= i < active(d).len() implies exists|j: int|
            0 <= j < s.len() && (#[trigger] active(d)[i]).0 == (#[trigger] s[j]).0 by {
            let j = choose|j: int| 0 <= j < d.len() && (#[trigger] active(d)[i]).0 == (#[trigger] d[j]).0;
            assert(s[j] == d[j]);
        }
        if s.last().1.state.on == Some(true) {
            let c = active(s);
            assert(c == active(d).push(s.last()));
            assert forall|i: int, j: int| 0 <= i < j < c.len() implies (#[trigger] c[i]).0 != (
            #[trigger] c[j]).0 by {
                if j < c.len() - 1 {
                    assert(c[i] == active(d)[i] && c[j] == active(d)[j]);
                } else {
                    assert(c[i] == active(d)[i]);
                    let k = choose|k: int|
                        0 <= k < d.len() && (#[trigger] active(d)[i]).0 == (#[trigger] d[k]).0;
                    assert(s[k] == d[k]);
                    assert(s[k].0 != s[s.len() - 1].0);
                }
            }
        }
    }
}

/// A copy of a device table, entry for entry.
fn clone_collection(lights: &LightCollection) -> (c: LightCollection)
    ensures
        c.entries_seq() == lights.entries_seq(),
{
    let ghost s = lights.entries_seq();
    let n = lights.len();
    let mut c: LightCollection = DeviceMap::new();
    let mut i: usize = 0;
    while i < n
        invariant
            i <= n,
            n == s.len(),
            s == lights.entries_seq(),
            c.entries_seq() =~= s.subrange(0, i as int),
        decreases n - i,
    {
        let key = lights.key_at(i);
        let light = lights.value_at(i).duplicate();
        c.entries_push_raw(key, light);
        i = i + 1;
    }
    proof {
        assert(s.subrange(0, n as int) == s);
    }
    c
}

/// A device connection backed by an in-memory table instead of a transport:
/// fetches read the table, state updates combine into it.
pub struct TestingApiConnection {
    lights: LightCollection,
}

impl TestingApiConnection {
    /// The device table.
    pub closed spec fn spec_lights(&self) -> LightCollection {
        self.lights
    }

    /// The table has distinct keys.
    pub open spec fn wf(&self) -> bool {
        self.spec_lights().wf()
    }

    /// A connection with the one built-in development device: device 1, on,
    /// at half brightness, hue zero, full saturation.
    pub fn new() -> (c: TestingApiConnection)
        ensures
            c.wf(),
            c.spec_lights().entries_seq().len() == 1,
            c.spec_lights().entries_seq()[0].0 == 1,
            c.spec_lights().entries_seq()[0].1.state == (LightState {
                on: Some(true),
                bri: Some(127u8),
                hue: Some(0u16),
                sat: Some(255u8),
                transitiontime: None,
            }),
    {
        let state = LightState::new().on(true).bri(127).hue(0).sat(255);
        let light = Light { name: String::from_str("Mr. Light"), state };
        let mut lights: LightCollection = DeviceMap::new();
        lights.push_entry(1, light);
        TestingApiConnection { lights }
    }

    /// A connection starting from the given device table.
    pub fn with_lights(lights: LightCollection) -> (c: TestingApiConnection)
        requires
            lights.wf(),
        ensures
            c.wf(),
            c.spec_lights() == lights,
    {
        TestingApiConnection { lights }
    }

    /// A copy of the whole device table.
    pub fn get_local_state(&self) -> (r: LightCollection)
        requires
            self.wf(),
        ensures
            r.wf(),
            r.entries_seq() == self.spec_lights().entries_seq(),
            r.to_map() == self.spec_lights().to_map(),
    {
        clone_collection(&self.lights)
    }

    /// Replaces the whole device table.
    pub fn set_local_state(&mut self, lights: LightCollection)
        requires
            lights.wf(),
        ensures
            final(self).wf(),
            final(self).spec_lights() == lights,
    {
        self.lights = lights;
    }

    /// All known devices.
    pub fn get_all_lights(&self) -> (r: LightCollection)
        requires
            self.wf(),
        ensures
            r.wf(),
            r.entries_seq() == self.spec_lights().entries_seq(),
            r.to_map() == self.spec_lights().to_map(),
    {
        self.get_local_state()
    }

    /// The devices reported as on.
    pub fn get_active_lights(&self) -> (r: LightCollection)
        requires
            self.wf(),
        ensures
            r.wf(),
            r.entries_seq() == active(self.spec_lights().entries_seq()),
    {
        let ghost s = self.lights.entries_seq();
        let n = self.lights.len();
        let mut r: LightCollection = DeviceMap::new();
        let mut i: usize = 0;
        while i < n
            invariant
                i <= n,
                n == s.len(),
                s == self.lights.entries_seq(),
                self.wf(),
                r.entries_seq() =~= active(s.subrange(0, i as int)),
            decreases n - i,
        {
            let ghost pre = s.subrange(0, i as int);
            let ghost post = s.subrange(0, i + 1);
            proof {
                assert(post.drop_last() == pre);
                assert(post.last() == s[i as int]);
            }
            let light = self.lights.value_at(i);
            if light.state.is_on() {
                let key = self.lights.key_at(i);
                let copy = light.duplicate();
                r.entries_push_raw(key, copy);
            }
            i = i + 1;
        }
        proof {
            assert(s.subrange(0, n as int) == s);
            lemma_active_distinct(s);
        }
        r
    }

    /// The device with this number; the error says when none is known.
    pub fn get_light(&self, light_number: LightNumber) -> (r: Result<Light, ApiError>)
        requires
            self.wf(),
        ensures
            match r {
                Ok(light) => self.spec_lights().to_map().dom().contains(light_number) && light
                    == self.spec_lights().to_map()[light_number],
                Err(e) => e == ApiError::LightNotFound(light_number) && !self.spec_lights().to_map().dom().contains(
                    light_number,
                ),
            },
    {
        match self.lights.get(light_number) {
            Some(light) => Ok(light.duplicate()),
            None => Err(ApiError::LightNotFound(light_number)),
        }
    }

    /// Layers a partial state over the device's stored state.  The error
    /// says when the device is unknown, and then nothing changes.
    pub fn set_state(&mut self, light_number: LightNumber, state: &LightState) -> (r: Result<
        (),
        ApiError,
    >)
        requires
            old(self).wf(),
        ensures
            final(self).wf(),
            match r {
                Ok(()) => {
                    &&& old(self).spec_lights().to_map().dom().contains(light_number)
                    &&& final(self).spec_lights().to_map() == old(
                        self,
                    ).spec_lights().to_map().insert(
                        light_number,
                        Light {
                            name: old(self).spec_lights().to_map()[light_number].name,
                            state: combine_spec(
                                old(self).spec_lights().to_map()[light_number].state,
                                *state,
                            ),
                        },
                    )
                },
                Err(e) => {
                    &&& e == ApiError::LightNotFound(light_number)
                    &&& !old(self).spec_lights().to_map().dom().contains(light_number)
                    &&& *final(self) == *old(self)
                },
            },
    {
        let light = match self.lights.get(light_number) {
            Some(light) => light.duplicate(),
            None => {
                return Err(ApiError::LightNotFound(light_number));
            },
        };
        let updated = Light {
            name: light.name,
            state: LightState::combine(&light.state, state),
        };
        self.lights.insert(light_number, updated);
        Ok(())
    }

    /// Turns the device on (combines `{ on: true }` into its state).
    pub fn on(&mut self, light_number: LightNumber) -> (r: Result<(), ApiError>)
        requires
            old(self).wf(),
        ensures
            final(self).wf(),
            match r {
                Ok(()) => {
                    &&& old(self).spec_lights().to_map().dom().contains(light_number)
                    &&& final(self).spec_lights().to_map() == old(
                        self,
                    ).spec_lights().to_map().insert(
                        light_number,
                        Light {
                            name: old(self).spec_lights().to_map()[light_number].name,
                            state: combine_spec(
                                old(self).spec_lights().to_map()[light_number].state,
                                LightState { on: Some(true), ..crate::light::empty_state() },
                            ),
                        },
                    )
                },
                Err(e) => {
                    &&& e == ApiError::LightNotFound(light_number)
                    &&& !old(self).spec_lights().to_map().dom().contains(light_number)
                    &&& *final(self) == *old(self)
                },
            },
    {
        let state = LightState::new().on(true);
        self.set_state(light_number, &state)
    }

    /// Turns the device off (combines `{ on: false }` into its state).
    pub fn off(&mut self, light_number: LightNumber) -> (r: Result<(), ApiError>)
        requires
            old(self).wf(),
        ensures
            final(self).wf(),
            match r {
                Ok(()) => {
                    &&& old(self).spec_lights().to_map().dom().contains(light_number)
                    &&& final(self).spec_lights().to_map() == old(
                        self,
                    ).spec_lights().to_map().insert(
                        light_number,
                        Light {
                            name: old(self).spec_lights().to_map()[light_number].name,
                            state: combine_spec(
                                old(self).spec_lights().to_map()[light_number].state,
                                LightState { on: Some(false), ..crate::light::empty_state() },
                            ),
                        },
                    )
                },
                Err(e) => {
                    &&& e == ApiError::LightNotFound(light_number)
                    &&& !old(self).spec_lights().to_map().dom().contains(light_number)
                    &&& *final(self) == *old(self)
                },
            },
    {
        let state = LightState::new().on(false);
        self.set_state(light_number, &state)
    }

    /// Sets the device's transition time (combines it into its state).
    pub fn transition_time(&mut self, light_number: LightNumber, transition_time: u16) -> (r:
        Result<(), ApiError>)
        requires
            old(self).wf(),
        ensures
            final(self).wf(),
            match r {
                Ok(()) => {
                    &&& old(self).spec_lights().to_map().dom().contains(light_number)
                    &&& final(self).spec_lights().to_map() == old(
                        self,
                    ).spec_lights().to_map().insert(
                        light_number,
                        Light {
                            name: old(self).spec_lights().to_map()[light_number].name,
                            state: combine_spec(
                                old(self).spec_lights().to_map()[light_number].state,
                                LightState {
                                    transitiontime: Some(transition_time),
                                    ..crate::light::empty_state()
                                },
                            ),
                        },
                    )
                },
                Err(e) => {
                    &&& e == ApiError::LightNotFound(light_number)
                    &&& !old(self).spec_lights().to_map().dom().contains(light_number)
                    &&& *final(self) == *old(self)
                },
            },
    {
        let state = LightState::new().transitiontime(transition_time);
        self.set_state(light_number, &state)
    }
}

} // verus!
