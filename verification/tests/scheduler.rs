use hoo::animation::{DynamicAnimation, DynamicAnimationStep};
use hoo::connection::{ApiError, TestingApiConnection};
use hoo::device_map::{DeviceMap, LightCollection};
use hoo::light::{Light, LightState};
use hoo::operation::AttributeOperation;
use hoo::producer::constant;
use hoo::scheduler::{ActiveAnimation, AnimationKind, HooCommand, Scheduler, SchedulerAction};
use hoo::transform::ConfigurableValue;

fn snapshot(entries: Vec<(u8, LightState)>) -> LightCollection {
    let mut snap: LightCollection = DeviceMap::new();
    for (num, state) in entries {
        snap.insert(num, Light { name: format!("light {}", num), state });
    }
    snap
}

fn hue_step(device: u8, hue: u16) -> DynamicAnimationStep {
    let mut step = DynamicAnimationStep::new();
    step.with_operation(
        device,
        ConfigurableValue::Hue(AttributeOperation::SetValue(constant(hue))),
    );
    step
}

#[test]
fn tick_schedules_transition_plus_hold() {
    // Single device 1, the step sets hue 100, transition 2 s, hold 1 s,
    // first frame due at T0: after the first tick the next frame is due at
    // T0 + 3 s, and a fetch before that must not advance the cursor.
    let t0: u64 = 50_000;
    let snap = snapshot(vec![(1, LightState::new())]);

    let mut animation = DynamicAnimation::new(Some(2000), 1000);
    animation.animation_step(hue_step(1, 100));
    animation.animation_step(hue_step(1, 200));

    let mut scheduler = Scheduler::new();
    scheduler.set_animation(ActiveAnimation::Dynamic(animation), t0);
    assert_eq!(scheduler.next_due(), Some(t0));

    // a snapshot fetched before the due time changes nothing
    let early = scheduler.tick(t0 - 1, Some(&snap));
    assert!(early.is_none());
    assert_eq!(scheduler.next_due(), Some(t0));

    let frame = scheduler.tick(t0, Some(&snap)).unwrap();
    assert_eq!(frame.states.get(1).unwrap().hue, Some(100));
    assert_eq!(scheduler.next_due(), Some(t0 + 3000));

    // another early fetch: still nothing, the cursor stays where it is
    let early = scheduler.tick(t0 + 2999, Some(&snap));
    assert!(early.is_none());
    assert_eq!(scheduler.next_due(), Some(t0 + 3000));

    // at the due time the *second* step plays: the early fetches did not
    // advance the cursor
    let frame = scheduler.tick(t0 + 3000, Some(&snap)).unwrap();
    assert_eq!(frame.states.get(1).unwrap().hue, Some(200));
}

#[test]
fn stop_clears_animation_and_due_time() {
    // A stop while an animation is active clears `next_due`, and no frame
    // comes out until a new start command arrives.
    let snap = snapshot(vec![(1, LightState::new())]);
    let mut scheduler = Scheduler::new();
    scheduler.start_animation(AnimationKind::Random, 2000, 1000, &snap, 100).unwrap();
    assert!(scheduler.is_active());
    assert_eq!(scheduler.next_due(), Some(100));

    let action = scheduler.handle_command(HooCommand::StopAnimation);
    assert_eq!(action, SchedulerAction::NoAction);
    assert!(!scheduler.is_active());
    assert_eq!(scheduler.next_due(), None);

    // ticks keep coming; no frame is emitted
    for now in [100u64, 200, 5000] {
        assert!(scheduler.tick(now, Some(&snap)).is_none());
        assert_eq!(scheduler.next_due(), None);
    }

    // a new start brings frames back
    scheduler.start_animation(AnimationKind::Random, 2000, 1000, &snap, 6000).unwrap();
    assert_eq!(scheduler.next_due(), Some(6000));
    assert!(scheduler.tick(6000, Some(&snap)).is_some());
}

#[test]
fn failed_fetch_skips_one_frame_and_keeps_cadence() {
    // The transport fails once, then succeeds: nothing breaks, exactly one
    // frame emission is skipped, and the cadence resumes.
    let t0: u64 = 1000;
    let snap = snapshot(vec![(1, LightState::new())]);

    let mut animation = DynamicAnimation::new(Some(2000), 1000);
    animation.animation_step(hue_step(1, 100));
    let mut scheduler = Scheduler::new();
    scheduler.set_animation(ActiveAnimation::Dynamic(animation), t0);

    // the fetch fails: no frame, nothing changes, the frame stays due
    let skipped = scheduler.tick(t0, None);
    assert!(skipped.is_none());
    assert_eq!(scheduler.next_due(), Some(t0));
    assert!(scheduler.is_active());

    // the next tick's fetch succeeds: the frame plays and the cadence
    // continues from that tick
    let frame = scheduler.tick(t0 + 10, Some(&snap)).unwrap();
    assert_eq!(frame.states.get(1).unwrap().hue, Some(100));
    assert_eq!(scheduler.next_due(), Some(t0 + 10 + 3000));
}

#[test]
fn empty_animation_clears_itself() {
    let snap = snapshot(vec![(1, LightState::new())]);
    let mut scheduler = Scheduler::new();
    scheduler.set_animation(ActiveAnimation::Dynamic(DynamicAnimation::new(None, 0)), 10);
    assert!(scheduler.tick(10, Some(&snap)).is_none());
    assert!(!scheduler.is_active());
    assert_eq!(scheduler.next_due(), None);
}

#[test]
fn commands_map_to_actions() {
    let mut scheduler = Scheduler::new();
    assert_eq!(
        scheduler.handle_command(HooCommand::On(3)),
        SchedulerAction::SetLight(3, LightState::new().on(true))
    );
    assert_eq!(
        scheduler.handle_command(HooCommand::Off(3)),
        SchedulerAction::SetLight(3, LightState::new().on(false))
    );
    let state = LightState::new().hue(5);
    assert_eq!(
        scheduler.handle_command(HooCommand::State(7, state)),
        SchedulerAction::SetLight(7, state)
    );
    assert_eq!(
        scheduler.handle_command(HooCommand::RgbColor(1, 10, 20, 30)),
        SchedulerAction::SetRgb(1, 10, 20, 30)
    );
    assert_eq!(
        scheduler.handle_command(HooCommand::Random(2, 1)),
        SchedulerAction::StartAnimation(AnimationKind::Random, 2000, 1000)
    );
    assert_eq!(
        scheduler.handle_command(HooCommand::SleepyRandom(3, 0)),
        SchedulerAction::StartAnimation(AnimationKind::SleepyRandom, 3000, 0)
    );
    assert_eq!(scheduler.handle_command(HooCommand::GetLight(4)), SchedulerAction::ReplyLight(4));
    assert_eq!(scheduler.handle_command(HooCommand::GetAllLights), SchedulerAction::ReplyAllLights);
    assert_eq!(scheduler.handle_command(HooCommand::Quit), SchedulerAction::Quit);
    assert_eq!(
        scheduler.handle_command(HooCommand::Rotate(1, 1)),
        SchedulerAction::StartAnimation(AnimationKind::Rotate, 1000, 1000)
    );
    assert_eq!(
        scheduler.handle_command(HooCommand::Rainbow(9000)),
        SchedulerAction::StartAnimation(AnimationKind::Rainbow, 9000, 0)
    );
    // commands the scheduler does not implement are answered with no action
    assert_eq!(scheduler.handle_command(HooCommand::Hue(1, 2)), SchedulerAction::NoAction);
    assert_eq!(scheduler.handle_command(HooCommand::ColorLoop(1, true)), SchedulerAction::NoAction);
}

#[test]
fn started_animation_draws_for_every_device() {
    let snap = snapshot(vec![(1, LightState::new()), (2, LightState::new())]);
    let mut scheduler = Scheduler::new();
    scheduler.start_animation(AnimationKind::SleepyRandom, 1000, 0, &snap, 42).unwrap();
    let frame = scheduler.tick(42, Some(&snap)).unwrap();
    assert_eq!(frame.states.len(), 2);
    for num in [1u8, 2] {
        let hue = frame.states.get(num).unwrap().hue.unwrap();
        assert!((35000..48000).contains(&hue));
    }
}

#[test]
fn testing_connection_starts_with_one_light() {
    let connection = TestingApiConnection::new();
    let light = connection.get_light(1).unwrap();
    assert_eq!(light.name, "Mr. Light");
    assert_eq!(light.state.on, Some(true));
    assert_eq!(light.state.bri, Some(127));
    assert_eq!(light.state.hue, Some(0));
    assert_eq!(light.state.sat, Some(255));
    assert_eq!(connection.get_light(2).err(), Some(ApiError::LightNotFound(2)));
}

#[test]
fn testing_connection_set_state_combines() {
    let mut connection = TestingApiConnection::new();
    connection.set_state(1, &LightState::new().hue(5000)).unwrap();
    let light = connection.get_light(1).unwrap();
    // the diff wins for hue; everything else keeps its stored value
    assert_eq!(light.state.hue, Some(5000));
    assert_eq!(light.state.bri, Some(127));
    assert_eq!(
        connection.set_state(9, &LightState::new()).err(),
        Some(ApiError::LightNotFound(9))
    );
}

#[test]
fn testing_connection_active_lights_filter() {
    let mut lights: LightCollection = DeviceMap::new();
    lights.insert(1, Light { name: "on".to_string(), state: LightState::new().on(true) });
    lights.insert(2, Light { name: "off".to_string(), state: LightState::new().on(false) });
    lights.insert(3, Light { name: "unknown".to_string(), state: LightState::new() });
    let connection = TestingApiConnection::with_lights(lights);

    let all = connection.get_all_lights();
    assert_eq!(all.len(), 3);
    let active = connection.get_active_lights();
    assert_eq!(active.len(), 1);
    assert!(active.get(1).is_some());
}

#[test]
fn testing_connection_on_off() {
    let mut connection = TestingApiConnection::new();
    connection.off(1).unwrap();
    assert_eq!(connection.get_light(1).unwrap().state.on, Some(false));
    connection.on(1).unwrap();
    assert_eq!(connection.get_light(1).unwrap().state.on, Some(true));
    connection.transition_time(1, 44).unwrap();
    assert_eq!(connection.get_light(1).unwrap().state.transitiontime, Some(44));
    assert_eq!(connection.on(5).err(), Some(ApiError::LightNotFound(5)));
}

#[test]
fn testing_connection_local_state_round_trip() {
    let mut connection = TestingApiConnection::new();
    let mut lights = connection.get_local_state();
    lights.insert(2, Light { name: "new".to_string(), state: LightState::new().on(true) });
    connection.set_local_state(lights);
    assert_eq!(connection.get_all_lights().len(), 2);
    assert!(connection.get_light(2).is_ok());
}

#[test]
fn scheduler_runs_against_testing_connection() {
    // a miniature run loop: start an animation from the stub's snapshot and
    // push the resulting frames back into the stub
    let mut connection = TestingApiConnection::new();
    let mut scheduler = Scheduler::new();

    let snap = connection.get_active_lights();
    scheduler.start_animation(AnimationKind::SleepyRandom, 1000, 0, &snap, 0).unwrap();

    let mut now = 0u64;
    for _ in 0..5 {
        let snap = connection.get_active_lights();
        if let Some(frame) = scheduler.tick(now, Some(&snap)) {
            for i in 0..frame.states.len() {
                let num = frame.states.key_at(i);
                let state = *frame.states.value_at(i);
                connection.set_state(num, &state).unwrap();
            }
            now = scheduler.next_due().unwrap();
        } else {
            now += 1;
        }
    }

    let hue = connection.get_light(1).unwrap().state.hue.unwrap();
    assert!((35000..48000).contains(&hue));
}

#[test]
fn rotate_kind_plays_through_the_scheduler() {
    let snap = snapshot(vec![
        (1, LightState::new().hue(10).sat(1).bri(1)),
        (2, LightState::new().hue(20).sat(2).bri(2)),
    ]);
    let mut scheduler = Scheduler::new();
    scheduler.start_animation(AnimationKind::Rotate, 2000, 500, &snap, 0).unwrap();

    let frame = scheduler.tick(0, Some(&snap)).unwrap();
    assert_eq!(frame.transition_time, Some(2000));
    assert_eq!(frame.hold_time, 500);
    assert_eq!(frame.states.get(1).unwrap().hue, Some(20));
    assert_eq!(frame.states.get(2).unwrap().hue, Some(10));
    // looping frames are stamped with the transition in vendor ticks
    assert_eq!(frame.states.get(1).unwrap().transitiontime, Some(20));
    assert_eq!(scheduler.next_due(), Some(2500));
}

#[test]
fn rainbow_kind_plays_through_the_scheduler() {
    let snap = snapshot(vec![(1, LightState::new())]);
    let mut scheduler = Scheduler::new();
    scheduler.start_animation(AnimationKind::Rainbow, 3000, 0, &snap, 0).unwrap();
    let frame = scheduler.tick(0, Some(&snap)).unwrap();
    assert_eq!(frame.transition_time, Some(500));
    assert_eq!(frame.states.get(1).unwrap().hue, Some(0));
    assert_eq!(scheduler.next_due(), Some(500));
}

#[test]
fn rainbow_kind_fails_without_devices() {
    let snap = snapshot(vec![]);
    let mut scheduler = Scheduler::new();
    let r = scheduler.start_animation(AnimationKind::Rainbow, 3000, 0, &snap, 0);
    assert!(r.is_err());
    assert!(!scheduler.is_active());
    assert_eq!(scheduler.next_due(), None);
}
