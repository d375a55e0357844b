use hoo::builder::AnimationFrameBuilder;
use hoo::color::Color;
use hoo::config::HooConfig;
use hoo::light::{Light, LightState};

#[test]
fn it_works() {
    assert_eq!(2 + 2, 4);
}

#[test]
fn color_round_trip() {
    let color = Color::from_hsv(35000, 200, 127);
    assert_eq!(color.h(), 35000);
    assert_eq!(color.s(), 200);
    assert_eq!(color.v(), 127);
    assert_eq!(color.hsv(), (35000, 200, 127));
}

#[test]
fn config_default_is_placeholder() {
    let config = HooConfig::default();
    assert_eq!(config.hue_hub_uri, "http://<Hue Hub IP>");
    assert_eq!(config.hue_user_id, "<40-character Hue User Id>");
    assert_eq!(config.hoo_server_socket_uri, "localhost:8000");
}

#[test]
fn state_builders_set_fields() {
    let state = LightState::new().on(true).hue(100).sat(200).bri(50).transitiontime(20);
    assert_eq!(state.on, Some(true));
    assert_eq!(state.hue, Some(100));
    assert_eq!(state.sat, Some(200));
    assert_eq!(state.bri, Some(50));
    assert_eq!(state.transitiontime, Some(20));
}

#[test]
fn state_color_sets_three_channels() {
    let state = LightState::new().color(&Color::from_hsv(1, 2, 3));
    assert_eq!(state.hue, Some(1));
    assert_eq!(state.sat, Some(2));
    assert_eq!(state.bri, Some(3));
    assert_eq!(state.on, None);
    assert_eq!(state.transitiontime, None);
}

#[test]
fn combine_diff_wins_where_present() {
    let base = LightState::new().on(true).hue(100).sat(200);
    let diff = LightState::new().hue(300).bri(10);
    let combined = LightState::combine(&base, &diff);
    assert_eq!(combined.on, Some(true));
    assert_eq!(combined.hue, Some(300));
    assert_eq!(combined.sat, Some(200));
    assert_eq!(combined.bri, Some(10));
    assert_eq!(combined.transitiontime, None);
}

#[test]
fn combine_is_associative_on_samples() {
    let a = LightState::new().on(true).hue(1);
    let b = LightState::new().hue(2).sat(3);
    let c = LightState::new().sat(4).bri(5);
    let left = LightState::combine(&LightState::combine(&a, &b), &c);
    let right = LightState::combine(&a, &LightState::combine(&b, &c));
    assert_eq!(left, right);
}

#[test]
fn combine_empty_diff_is_identity() {
    let base = LightState::new().on(false).hue(7).sat(8).bri(9).transitiontime(10);
    let combined = LightState::combine(&base, &LightState::new());
    assert_eq!(combined, base);
}

#[test]
fn light_color_requires_all_channels() {
    let full = Light { name: "a".to_string(), state: LightState::new().hue(1).sat(2).bri(3) };
    let color = full.color().unwrap();
    assert_eq!(color.hsv(), (1, 2, 3));

    let partial = Light { name: "b".to_string(), state: LightState::new().hue(1).sat(2) };
    assert!(partial.color().is_none());
}

#[test]
fn is_on_defaults_to_off() {
    assert!(!LightState::new().is_on());
    assert!(LightState::new().on(true).is_on());
    assert!(!LightState::new().on(false).is_on());
}

#[test]
fn frame_builder_collects_parts() {
    let frame = AnimationFrameBuilder::default()
        .with_hold_time(1000)
        .with_transition_time(2000)
        .with_light_state(1, LightState::new().hue(100))
        .with_light_state(2, LightState::new().hue(200))
        .with_light_state(1, LightState::new().hue(300))
        .build();
    assert_eq!(frame.hold_time, 1000);
    assert_eq!(frame.transition_time, Some(2000));
    assert_eq!(frame.states.len(), 2);
    assert_eq!(frame.states.get(1), Some(&LightState::new().hue(300)));
    assert_eq!(frame.states.get(2), Some(&LightState::new().hue(200)));
}

#[test]
fn frame_builder_defaults() {
    let frame = AnimationFrameBuilder::default().build();
    assert_eq!(frame.hold_time, 0);
    assert_eq!(frame.transition_time, None);
    assert_eq!(frame.states.len(), 0);
}
