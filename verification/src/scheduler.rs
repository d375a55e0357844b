//! The scheduler: the single mutator of animation state, driven as a state
//! machine from a run loop that owns the I/O.
//!
//! The loop drains at most one queued command per tick (keeping latency
//! bounded), hands it to `handle_command`, and performs the returned action:
//! sending a state to the transport, fetching a snapshot to start an
//! animation, replying to a query, or quitting.  When an animation is due
//! (`now` has reached `next_due`) the loop fetches a snapshot and calls
//! `tick`; a failed fetch is passed as `None`, which changes nothing, so the
//! frame is skipped and retried on the next tick.
//!
//! The invariant of the scheduler is that `next_due` is set exactly while an
//! animation is playing: stopping clears both.

use vstd::prelude::*;

use crate::animation::{
    eval_index, states_stamped, ticks_spec, AnimationFrame, DynamicAnimation, LoopingAnimation,
    Millis,
};
use crate::device_map::LightCollection;
use crate::effects::{
    colored, create_random_animation, create_sleepy_random_animation, rainbow,
    rainbow_animation_ok, random_template, rotate_current, rotation_frames_ok, sleepy_template,
    EffectError,
};
use crate::light::{Light, LightNumber, LightState};
use crate::transform::{snapshot_prev, transform_obeys};

verus! {

/// A command accepted on the scheduler's inbound queue.  Times on animation
/// commands are in seconds, as the control surfaces send them; queries carry
/// only the device number, the run loop owns the reply channel.
#[derive(Clone, Copy, Debug, PartialEq, Eq, Structural)]
pub enum HooCommand {
    On(LightNumber),
    Off(LightNumber),
    Red(LightNumber, u8),
    Green(LightNumber, u8),
    Blue(LightNumber, u8),
    RgbColor(LightNumber, u8, u8, u8),
    Hue(LightNumber, u16),
    Saturation(LightNumber, u8),
    Brightness(LightNumber, u8),
    HsvColor(LightNumber, u16, u8, u8),
    ColorLoop(LightNumber, bool),
    TransitionTime(LightNumber, u16),
    State(LightNumber, LightState),
    Rotate(u16, u16),
    Rainbow(Millis),
    Random(u16, u16),
    SleepyRandom(u16, u16),
    StopAnimation,
    GetLight(LightNumber),
    GetAllLights,
    Quit,
}

/// Which animation a start command requests.
#[derive(Clone, Copy, Debug, PartialEq, Eq, Structural)]
pub enum AnimationKind {
    /// The devices' current colors walking from device to device.
    Rotate,
    /// The hue circle walked in even steps; the transition time carries the
    /// loop time, and the hold time is ignored.
    Rainbow,
    /// Fresh full-range hues every frame.
    Random,
    /// Hues restricted to a calm band.
    SleepyRandom,
}

/// What the run loop must do after handing the scheduler a command.  Times
/// are in milliseconds.
#[derive(Clone, Copy, Debug, PartialEq, Eq, Structural)]
pub enum SchedulerAction {
    /// Nothing; the command was handled internally or is not supported.
    NoAction,
    /// Send the state to the device over the transport.
    SetLight(LightNumber, LightState),
    /// Convert the red/green/blue triple to a color and send it to the
    /// device (color conversion is the run loop's business).
    SetRgb(LightNumber, u8, u8, u8),
    /// Fetch a snapshot and call `start_animation` with these parameters.
    StartAnimation(AnimationKind, Millis, Millis),
    /// Fetch the device and reply to whoever asked.
    ReplyLight(LightNumber),
    /// Fetch all devices and reply to whoever asked.
    ReplyAllLights,
    /// Leave the run loop.
    Quit,
}

/// What `handle_command` answers and what it does to the scheduler: only a
/// stop command touches the state, everything else is turned into an action
/// for the run loop.
pub open spec fn command_action(cmd: HooCommand) -> SchedulerAction {
    match cmd {
        HooCommand::On(n) => SchedulerAction::SetLight(
            n,
            LightState { on: Some(true), ..crate::light::empty_state() },
        ),
        HooCommand::Off(n) => SchedulerAction::SetLight(
            n,
            LightState { on: Some(false), ..crate::light::empty_state() },
        ),
        HooCommand::RgbColor(n, r, g, b) => SchedulerAction::SetRgb(n, r, g, b),
        HooCommand::State(n, s) => SchedulerAction::SetLight(n, s),
        HooCommand::Random(tt, ht) => SchedulerAction::StartAnimation(
            AnimationKind::Random,
            (tt * 1000) as u64,
            (ht * 1000) as u64,
        ),
        HooCommand::SleepyRandom(tt, ht) => SchedulerAction::StartAnimation(
            AnimationKind::SleepyRandom,
            (tt * 1000) as u64,
            (ht * 1000) as u64,
        ),
        HooCommand::Rotate(tt, ht) => SchedulerAction::StartAnimation(
            AnimationKind::Rotate,
            (tt * 1000) as u64,
            (ht * 1000) as u64,
        ),
        HooCommand::Rainbow(time_per_loop) => SchedulerAction::StartAnimation(
            AnimationKind::Rainbow,
            time_per_loop,
            0,
        ),
        HooCommand::GetLight(n) => SchedulerAction::ReplyLight(n),
        HooCommand::GetAllLights => SchedulerAction::ReplyAllLights,
        HooCommand::Quit => SchedulerAction::Quit,
        _ => SchedulerAction::NoAction,
    }
}

/// The animation the scheduler is playing: declarative steps evaluated
/// against a fresh snapshot each frame, or a precomputed frame loop.
pub enum ActiveAnimation {
    Dynamic(DynamicAnimation),
    Looping(LoopingAnimation),
}

impl ActiveAnimation {
    /// The underlying animation is well-formed.
    pub open spec fn wf(&self) -> bool {
        match self {
            ActiveAnimation::Dynamic(a) => a.wf(),
            ActiveAnimation::Looping(a) => a.wf(),
        }
    }

    /// How many steps or frames one loop has.
    pub open spec fn len(&self) -> nat {
        match self {
            ActiveAnimation::Dynamic(a) => a.steps_seq().len(),
            ActiveAnimation::Looping(a) => a.frames_seq().len(),
        }
    }
}

/// What one successful advance produces: the frame handed out and how the
/// animation moved on, for either animation flavour.
pub open spec fn advanced_animation(
    before: ActiveAnimation,
    snap: LightCollection,
    f: AnimationFrame,
    after: ActiveAnimation,
) -> bool {
    match (before, after) {
        (ActiveAnimation::Dynamic(anim), ActiveAnimation::Dynamic(anim2)) => {
            let i = eval_index(anim.cursor(), anim.steps_seq().len());
            let step = anim.steps_seq()[i as int];
            &&& anim.steps_seq().len() > 0
            &&& f.wf()
            &&& f.hold_time == anim.spec_hold_time()
            &&& f.transition_time == anim.spec_transition_time()
            &&& forall|n: LightNumber|
                #[trigger] f.states.to_map().dom().contains(n) <==> (
                step.transforms.to_map().dom().contains(n) && snap.to_map().dom().contains(n))
            &&& forall|n: LightNumber|
                #[trigger] f.states.to_map().dom().contains(n) ==> transform_obeys(
                    step.transforms.to_map()[n],
                    snap.entries_seq(),
                    snapshot_prev(snap, n),
                    f.states.to_map()[n],
                )
            &&& anim2.steps_seq() == anim.steps_seq()
            &&& anim2.cursor() == i + 1
            &&& anim2.spec_transition_time() == anim.spec_transition_time()
            &&& anim2.spec_hold_time() == anim.spec_hold_time()
        },
        (ActiveAnimation::Looping(anim), ActiveAnimation::Looping(anim2)) => {
            let i = eval_index(anim.cursor(), anim.frames_seq().len());
            let frame = anim.frames_seq()[i as int];
            &&& anim.frames_seq().len() > 0
            &&& f.wf()
            &&& f.hold_time == frame.hold_time
            &&& f.transition_time == frame.transition_time
            &&& states_stamped(
                frame.states.entries_seq(),
                ticks_spec(match frame.transition_time {
                    Some(t) => t,
                    None => 0,
                }),
                f.states.entries_seq(),
            )
            &&& anim2.frames_seq() == anim.frames_seq()
            &&& anim2.cursor() == i + 1
        },
        _ => false,
    }
}

/// The single-step animation the uniform-random kinds build: every known
/// device gets the kind's transform.
pub open spec fn started_random_animation(
    anim: DynamicAnimation,
    template: crate::transform::DeviceStateTransform,
    snapshot: LightCollection,
    transition_time: Millis,
    hold_time: Millis,
) -> bool {
    &&& anim.wf()
    &&& anim.cursor() == 0
    &&& anim.spec_transition_time() == Some(transition_time)
    &&& anim.spec_hold_time() == hold_time
    &&& anim.steps_seq().len() == 1
    &&& anim.steps_seq()[0].transforms.entries_seq().len() == snapshot.entries_seq().len()
    &&& forall|k: int|
        0 <= k < snapshot.entries_seq().len()
            ==> #[trigger] anim.steps_seq()[0].transforms.entries_seq()[k] == (
        (#[trigger] snapshot.entries_seq()[k]).0,
        template,
        )
}

/// The animation a start command of the given kind builds from a snapshot.
pub open spec fn started_animation(
    a: ActiveAnimation,
    kind: AnimationKind,
    snapshot: LightCollection,
    transition_time: Millis,
    hold_time: Millis,
) -> bool {
    match (kind, a) {
        (AnimationKind::Random, ActiveAnimation::Dynamic(anim)) => started_random_animation(
            anim,
            random_template(ticks_spec(transition_time)),
            snapshot,
            transition_time,
            hold_time,
        ),
        (AnimationKind::SleepyRandom, ActiveAnimation::Dynamic(anim)) => started_random_animation(
            anim,
            sleepy_template(ticks_spec(transition_time)),
            snapshot,
            transition_time,
            hold_time,
        ),
        (AnimationKind::Rotate, ActiveAnimation::Looping(anim)) => {
            let cs = colored(snapshot.entries_seq());
            &&& anim.wf()
            &&& anim.cursor() == 0
            &&& rotation_frames_ok(
                anim.frames_seq(),
                cs.map_values(|e: (LightNumber, LightState)| e.0),
                cs.map_values(|e: (LightNumber, LightState)| e.1),
                Some(transition_time),
                hold_time,
            )
        },
        (AnimationKind::Rainbow, ActiveAnimation::Looping(anim)) => rainbow_animation_ok(
            anim,
            snapshot.entries_seq(),
            transition_time,
        ),
        _ => false,
    }
}

/// The scheduler's own state: the active animation and the moment the next
/// frame falls due, both absent exactly while nothing is playing.
pub struct Scheduler {
    animation: Option<ActiveAnimation>,
    next_due: Option<Millis>,
}

impl Scheduler {
    /// The active animation, when one is playing.
    pub closed spec fn spec_animation(&self) -> Option<ActiveAnimation> {
        self.animation
    }

    /// When the next frame falls due, while an animation is playing.
    pub closed spec fn spec_next_due(&self) -> Option<Millis> {
        self.next_due
    }

    /// `next_due` is set if and only if an animation is playing, and the
    /// animation is well-formed.
    pub open spec fn inv(&self) -> bool {
        &&& self.spec_next_due() is Some <==> self.spec_animation() is Some
        &&& match self.spec_animation() {
            Some(anim) => anim.wf(),
            None => true,
        }
    }

    /// Whether a frame is due at `now`.
    pub open spec fn due(&self, now: Millis) -> bool {
        match self.spec_next_due() {
            Some(d) => now >= d,
            None => false,
        }
    }

    /// A scheduler with nothing playing.
    pub fn new() -> (s: Scheduler)
        ensures
            s.inv(),
            s.spec_animation() is None,
            s.spec_next_due() is None,
    {
        Scheduler { animation: None, next_due: None }
    }

    /// When the next frame falls due, while an animation is playing.
    pub fn next_due(&self) -> (d: Option<Millis>)
        ensures
            d == self.spec_next_due(),
    {
        self.next_due
    }

    /// Whether an animation is currently playing.
    pub fn is_active(&self) -> (r: bool)
        ensures
            r == (self.spec_animation() is Some),
    {
        self.animation.is_some()
    }

    /// Dispatches one queued command.  A stop command clears the animation
    /// and its due time; every other command leaves the scheduler unchanged
    /// and is answered with the action the run loop must perform.
    pub fn handle_command(&mut self, cmd: HooCommand) -> (action: SchedulerAction)
        requires
            old(self).inv(),
        ensures
            final(self).inv(),
            action == command_action(cmd),
            cmd is StopAnimation ==> final(self).spec_animation() is None
                && final(self).spec_next_due() is None,
            !(cmd is StopAnimation) ==> *final(self) == *old(self),
    {
        match cmd {
            HooCommand::On(n) => SchedulerAction::SetLight(n, LightState::new().on(true)),
            HooCommand::Off(n) => SchedulerAction::SetLight(n, LightState::new().on(false)),
            HooCommand::RgbColor(n, r, g, b) => SchedulerAction::SetRgb(n, r, g, b),
            HooCommand::State(n, s) => SchedulerAction::SetLight(n, s),
            HooCommand::Random(tt, ht) => SchedulerAction::StartAnimation(
                AnimationKind::Random,
                (tt as u64) * 1000,
                (ht as u64) * 1000,
            ),
            HooCommand::SleepyRandom(tt, ht) => SchedulerAction::StartAnimation(
                AnimationKind::SleepyRandom,
                (tt as u64) * 1000,
                (ht as u64) * 1000,
            ),
            HooCommand::Rotate(tt, ht) => SchedulerAction::StartAnimation(
                AnimationKind::Rotate,
                (tt as u64) * 1000,
                (ht as u64) * 1000,
            ),
            HooCommand::Rainbow(time_per_loop) => SchedulerAction::StartAnimation(
                AnimationKind::Rainbow,
                time_per_loop,
                0,
            ),
            HooCommand::StopAnimation => {
                self.animation = None;
                self.next_due = None;
                SchedulerAction::NoAction
            },
            HooCommand::GetLight(n) => SchedulerAction::ReplyLight(n),
            HooCommand::GetAllLights => SchedulerAction::ReplyAllLights,
            HooCommand::Quit => SchedulerAction::Quit,
            _ => SchedulerAction::NoAction,
        }
    }

    /// Replaces the active animation with a fresh one of the given kind,
    /// built against the supplied snapshot, and makes its first frame due
    /// immediately.  A kind that needs a device and finds none is a failed
    /// command: the error comes back and nothing changes.
    pub fn start_animation(
        &mut self,
        kind: AnimationKind,
        transition_time: Millis,
        hold_time: Millis,
        snapshot: &LightCollection,
        now: Millis,
    ) -> (r: Result<(), EffectError>)
        requires
            old(self).inv(),
            snapshot.wf(),
        ensures
            final(self).inv(),
            match r {
                Ok(()) => {
                    &&& final(self).spec_next_due() == Some(now)
                    &&& match final(self).spec_animation() {
                        Some(anim) => started_animation(
                            anim,
                            kind,
                            *snapshot,
                            transition_time,
                            hold_time,
                        ),
                        None => false,
                    }
                },
                Err(e) => {
                    &&& e == EffectError::NoLights
                    &&& kind == AnimationKind::Rainbow
                    &&& snapshot.entries_seq().len() == 0
                    &&& *final(self) == *old(self)
                },
            },
    {
        let anim = match kind {
            AnimationKind::Random => ActiveAnimation::Dynamic(
                create_random_animation(snapshot, transition_time, hold_time),
            ),
            AnimationKind::SleepyRandom => ActiveAnimation::Dynamic(
                create_sleepy_random_animation(snapshot, transition_time, hold_time),
            ),
            AnimationKind::Rotate => ActiveAnimation::Looping(
                rotate_current(snapshot, transition_time, hold_time),
            ),
            AnimationKind::Rainbow => match rainbow(snapshot, transition_time) {
                Ok(a) => ActiveAnimation::Looping(a),
                Err(e) => {
                    return Err(e);
                },
            },
        };
        self.animation = Some(anim);
        self.next_due = Some(now);
        Ok(())
    }

    /// Replaces the active animation with the given one and makes its first
    /// frame due at `now`.
    pub fn set_animation(&mut self, animation: ActiveAnimation, now: Millis)
        requires
            animation.wf(),
        ensures
            final(self).inv(),
            final(self).spec_animation() == Some(animation),
            final(self).spec_next_due() == Some(now),
    {
        self.animation = Some(animation);
        self.next_due = Some(now);
    }

    /// One scheduling tick.  `snapshot` is the transport's answer to the
    /// fetch the loop makes when a frame is due: `None` means the fetch
    /// failed, in which case nothing changes and the frame is retried on
    /// the next tick.  When a frame is produced, every device state in it
    /// is owed to the transport and the next frame falls due after the
    /// frame's transition (absent counts as zero) plus its hold time.
    pub fn tick(&mut self, now: Millis, snapshot: Option<&LightCollection>) -> (frame: Option<
        AnimationFrame,
    >)
        requires
            old(self).inv(),
            match snapshot {
                Some(s) => s.wf(),
                None => true,
            },
        ensures
            final(self).inv(),
            !old(self).due(now) ==> *final(self) == *old(self) && frame is None,
            old(self).due(now) && snapshot is None ==> *final(self) == *old(self) && frame
                is None,
            (old(self).due(now) && snapshot is Some) ==> {
                let anim = old(self).spec_animation()->0;
                if anim.len() == 0 {
                    &&& frame is None
                    &&& final(self).spec_animation() is None
                    &&& final(self).spec_next_due() is None
                } else {
                    match frame {
                        Some(f) => {
                            &&& match final(self).spec_animation() {
                                Some(anim2) => advanced_animation(anim, *snapshot->0, f, anim2),
                                None => false,
                            }
                            &&& final(self).spec_next_due() == Some(
                                now.saturating_add(
                                    (match f.transition_time {
                                        Some(t) => t,
                                        None => 0,
                                    }).saturating_add(f.hold_time),
                                ),
                            )
                        },
                        None => false,
                    }
                }
            },
    {
        let due_at = match self.next_due {
            Some(d) => d,
            None => {
                return None;
            },
        };
        if now < due_at {
            return None;
        }
        let snap = match snapshot {
            Some(s) => s,
            None => {
                return None;
            },
        };

        let produced: Option<AnimationFrame> = match &mut self.animation {
            Some(ActiveAnimation::Dynamic(anim)) => anim.next(snap),
            Some(ActiveAnimation::Looping(anim)) => anim.next(),
            None => None,
        };

        match produced {
            Some(f) => {
                let transition = match f.transition_time {
                    Some(t) => t,
                    None => 0,
                };
                let delay = transition.saturating_add(f.hold_time);
                self.next_due = Some(now.saturating_add(delay));
                Some(f)
            },
            None => {
                self.animation = None;
                self.next_due = None;
                None
            },
        }
    }
}

} // verus!
