use hoo::animation::{
    transition_ticks, AnimationFrame, DynamicAnimation, DynamicAnimationStep, LoopingAnimation,
};
use hoo::device_map::{DeviceMap, LightCollection};
use hoo::effects::{
    create_random_animation, create_sleepy_random_animation, rainbow, rotate_current,
    EffectError, RotateAnimation,
};
use hoo::light::{Light, LightState};
use hoo::operation::AttributeOperation;
use hoo::producer::constant;
use hoo::transform::ConfigurableValue;

fn snapshot(entries: Vec<(u8, LightState)>) -> LightCollection {
    let mut snap: LightCollection = DeviceMap::new();
    for (num, state) in entries {
        snap.insert(num, Light { name: format!("light {}", num), state });
    }
    snap
}

fn tagged_step(hue: u16) -> DynamicAnimationStep {
    let mut step = DynamicAnimationStep::new();
    step.with_operation(1, ConfigurableValue::Hue(AttributeOperation::SetValue(constant(hue))));
    step
}

#[test]
fn transition_ticks_exact() {
    assert_eq!(transition_ticks(0), 0);
    assert_eq!(transition_ticks(99), 0);
    assert_eq!(transition_ticks(100), 1);
    assert_eq!(transition_ticks(5000), 50);
    assert_eq!(transition_ticks(6_553_500), 65535);
    // beyond the largest tick the value saturates
    assert_eq!(transition_ticks(6_553_600), 65535);
    assert_eq!(transition_ticks(u64::MAX), 65535);
}

#[test]
fn cursor_wraps_with_period_three() {
    // Three steps with distinct tagged constants: the tag sequence repeats
    // with period three.
    let mut animation = DynamicAnimation::new(Some(1000), 500);
    animation.animation_step(tagged_step(10));
    animation.animation_step(tagged_step(20));
    animation.animation_step(tagged_step(30));

    let snap = snapshot(vec![(1, LightState::new())]);
    let mut tags = Vec::new();
    for _ in 0..9 {
        let frame = animation.next(&snap).unwrap();
        tags.push(frame.states.get(1).unwrap().hue.unwrap());
    }
    assert_eq!(tags, vec![10, 20, 30, 10, 20, 30, 10, 20, 30]);
}

#[test]
fn empty_animation_yields_nothing() {
    let mut animation = DynamicAnimation::new(None, 0);
    let snap = snapshot(vec![(1, LightState::new())]);
    assert!(animation.next(&snap).is_none());
    assert!(animation.next(&snap).is_none());
}

#[test]
fn dynamic_frame_carries_animation_timing() {
    let mut animation = DynamicAnimation::new(Some(2000), 1000);
    animation.animation_step(tagged_step(100));
    let snap = snapshot(vec![(1, LightState::new())]);
    let frame = animation.next(&snap).unwrap();
    assert_eq!(frame.transition_time, Some(2000));
    assert_eq!(frame.hold_time, 1000);
}

#[test]
fn dynamic_step_drops_devices_missing_from_snapshot() {
    let mut step = DynamicAnimationStep::new();
    step.with_operation(1, ConfigurableValue::Hue(AttributeOperation::SetValue(constant(7u16))));
    step.with_operation(9, ConfigurableValue::Hue(AttributeOperation::SetValue(constant(8u16))));
    let mut animation = DynamicAnimation::new(None, 0);
    animation.animation_step(step);

    let snap = snapshot(vec![(1, LightState::new()), (2, LightState::new())]);
    let frame = animation.next(&snap).unwrap();
    assert_eq!(frame.states.len(), 1);
    assert_eq!(frame.states.get(1).unwrap().hue, Some(7));
}

#[test]
fn looping_animation_stamps_transition_ticks() {
    let mut states: DeviceMap<LightState> = DeviceMap::new();
    states.insert(1, LightState::new().hue(100));
    states.insert(2, LightState::new().hue(200));
    let frame = AnimationFrame { hold_time: 0, transition_time: Some(5000), states };

    let mut animation = LoopingAnimation::new().with_frame(frame);
    let out = animation.next().unwrap();
    assert_eq!(out.transition_time, Some(5000));
    assert_eq!(out.states.get(1).unwrap().transitiontime, Some(50));
    assert_eq!(out.states.get(2).unwrap().transitiontime, Some(50));
    assert_eq!(out.states.get(1).unwrap().hue, Some(100));
}

#[test]
fn looping_animation_unset_transition_stamps_zero() {
    let mut states: DeviceMap<LightState> = DeviceMap::new();
    states.insert(1, LightState::new());
    let frame = AnimationFrame { hold_time: 0, transition_time: None, states };
    let mut animation = LoopingAnimation::new().with_frame(frame);
    let out = animation.next().unwrap();
    assert_eq!(out.states.get(1).unwrap().transitiontime, Some(0));
}

#[test]
fn looping_animation_empty_yields_nothing() {
    let mut animation = LoopingAnimation::new();
    assert!(animation.next().is_none());
}

#[test]
fn looping_animation_wraps() {
    let mut first: DeviceMap<LightState> = DeviceMap::new();
    first.insert(1, LightState::new().hue(1));
    let mut second: DeviceMap<LightState> = DeviceMap::new();
    second.insert(1, LightState::new().hue(2));
    let mut animation = LoopingAnimation::new()
        .with_frame(AnimationFrame { hold_time: 0, transition_time: None, states: first })
        .with_frame(AnimationFrame { hold_time: 0, transition_time: None, states: second });

    let mut tags = Vec::new();
    for _ in 0..4 {
        tags.push(animation.next().unwrap().states.get(1).unwrap().hue.unwrap());
    }
    assert_eq!(tags, vec![1, 2, 1, 2]);
}

#[test]
fn random_animation_targets_every_device() {
    let snap = snapshot(vec![(1, LightState::new()), (2, LightState::new())]);
    let mut animation = create_random_animation(&snap, 7000, 1000);
    let frame = animation.next(&snap).unwrap();
    assert_eq!(frame.transition_time, Some(7000));
    assert_eq!(frame.hold_time, 1000);
    assert_eq!(frame.states.len(), 2);
    for num in [1u8, 2] {
        let state = frame.states.get(num).unwrap();
        assert!(state.hue.is_some());
        let sat = state.sat.unwrap();
        assert!((200..255).contains(&sat));
        // the transition-time attribute carries the vendor ticks of 7000 ms
        assert_eq!(state.transitiontime, Some(70));
        assert_eq!(state.on, None);
        assert_eq!(state.bri, None);
    }
}

#[test]
fn sleepy_animation_draws_calm_hues() {
    let snap = snapshot(vec![(1, LightState::new())]);
    let mut animation = create_sleepy_random_animation(&snap, 1000, 0);
    for _ in 0..100 {
        let frame = animation.next(&snap).unwrap();
        let state = *frame.states.get(1).unwrap();
        let hue = state.hue.unwrap();
        assert!((35000..48000).contains(&hue));
        let sat = state.sat.unwrap();
        assert!((200..255).contains(&sat));
    }
}

#[test]
fn rotate_current_rotates_colors() {
    let snap = snapshot(vec![
        (1, LightState::new().hue(10).sat(1).bri(1)),
        (2, LightState::new().hue(20).sat(2).bri(2)),
        (3, LightState::new().hue(30).sat(3).bri(3)),
        (4, LightState::new()),  // no color: skipped
    ]);
    let mut animation = rotate_current(&snap, 2000, 0);

    // three colored devices: three frames, each device taking its right
    // neighbour's color, so device 1 starts with device 3's hue
    let first = animation.next().unwrap();
    assert_eq!(first.states.len(), 3);
    assert_eq!(first.states.get(1).unwrap().hue, Some(30));
    assert_eq!(first.states.get(2).unwrap().hue, Some(10));
    assert_eq!(first.states.get(3).unwrap().hue, Some(20));
    assert!(first.states.get(4).is_none());

    let second = animation.next().unwrap();
    assert_eq!(second.states.get(1).unwrap().hue, Some(20));
    assert_eq!(second.states.get(2).unwrap().hue, Some(30));
    assert_eq!(second.states.get(3).unwrap().hue, Some(10));

    let third = animation.next().unwrap();
    assert_eq!(third.states.get(1).unwrap().hue, Some(10));

    // and the loop wraps
    let fourth = animation.next().unwrap();
    assert_eq!(fourth.states.get(1).unwrap().hue, Some(30));
}

#[test]
fn rotate_current_with_no_colors_is_empty() {
    let snap = snapshot(vec![(1, LightState::new())]);
    let mut animation = rotate_current(&snap, 1000, 0);
    assert!(animation.next().is_none());
}

#[test]
fn rotate_animation_with_hues_uses_group_brightness() {
    let snap = snapshot(vec![
        (1, LightState::new().bri(10)),
        (2, LightState::new().bri(30)),
        (3, LightState::new().bri(200)),
    ]);
    let mut animation =
        RotateAnimation::new(&snap, 1000, 0, &vec![1, 2], Some(vec![100, 200])).unwrap();

    // selected devices 1 and 2: mean brightness (10 + 30) / 2 = 20
    let frame = animation.next().unwrap();
    assert_eq!(frame.states.len(), 2);
    let one = *frame.states.get(1).unwrap();
    assert_eq!(one.sat, Some(255));
    assert_eq!(one.bri, Some(20));
    assert_eq!(one.hue, Some(200));
    assert_eq!(frame.states.get(2).unwrap().hue, Some(100));
}

#[test]
fn rotate_animation_needs_a_selected_device_for_hues() {
    let snap = snapshot(vec![(1, LightState::new().bri(10))]);
    let result = RotateAnimation::new(&snap, 1000, 0, &vec![9], Some(vec![100]));
    assert_eq!(result.err(), Some(EffectError::NoLights));
}

#[test]
fn rotate_animation_without_hues_rotates_selection() {
    let snap = snapshot(vec![
        (1, LightState::new().hue(10).sat(1).bri(1)),
        (2, LightState::new().hue(20).sat(2).bri(2)),
        (3, LightState::new().hue(30).sat(3).bri(3)),
    ]);
    let mut animation = RotateAnimation::new(&snap, 1000, 0, &vec![1, 3], None).unwrap();
    let frame = animation.next().unwrap();
    assert_eq!(frame.states.len(), 2);
    assert_eq!(frame.states.get(1).unwrap().hue, Some(30));
    assert_eq!(frame.states.get(3).unwrap().hue, Some(10));
    assert!(frame.states.get(2).is_none());
}

#[test]
fn rainbow_needs_a_device() {
    let result = rainbow(&snapshot(vec![]), 6000);
    assert_eq!(result.err(), Some(EffectError::NoLights));
}

#[test]
fn rainbow_divides_the_circle() {
    let snap = snapshot(vec![(1, LightState::new())]);
    let mut animation = rainbow(&snap, 3000).unwrap();
    // 3000 ms at 500 ms per step: 6 frames, hue step 65535 / 6 = 10922
    assert_eq!(animation.len(), 6);
    let mut hues = Vec::new();
    for _ in 0..6 {
        let frame = animation.next().unwrap();
        assert_eq!(frame.hold_time, 0);
        assert_eq!(frame.transition_time, Some(500));
        hues.push(frame.states.get(1).unwrap().hue.unwrap());
        assert_eq!(frame.states.get(1).unwrap().sat, Some(255));
        // 500 ms is 5 vendor ticks
        assert_eq!(frame.states.get(1).unwrap().transitiontime, Some(5));
    }
    assert_eq!(hues, vec![0, 10922, 21844, 32766, 43688, 54610]);
}

#[test]
fn rainbow_stretches_short_loops() {
    let snap = snapshot(vec![(1, LightState::new())]);
    // below the three-second floor the loop is stretched to three seconds
    let animation = rainbow(&snap, 10).unwrap();
    assert_eq!(animation.len(), 6);
}

#[test]
fn rainbow_offsets_devices() {
    let snap = snapshot(vec![(1, LightState::new()), (2, LightState::new())]);
    let mut animation = rainbow(&snap, 3000).unwrap();
    let frame = animation.next().unwrap();
    // two devices: the second sits half the circle away (65535 / 2 = 32767)
    assert_eq!(frame.states.get(1).unwrap().hue, Some(0));
    assert_eq!(frame.states.get(2).unwrap().hue, Some(32767));
}
