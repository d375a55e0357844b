use hoo::device_map::{DeviceMap, LightCollection};
use hoo::light::{Light, LightState};
use hoo::operation::{average_brightness, ApplyRule, AttributeOperation};
use hoo::producer::{constant, random, random_range};
use hoo::transform::{transform, ConfigurableValue, DeviceStateTransform};

fn snapshot(entries: Vec<(u8, LightState)>) -> LightCollection {
    let mut snap: LightCollection = DeviceMap::new();
    for (num, state) in entries {
        snap.insert(num, Light { name: format!("light {}", num), state });
    }
    snap
}

#[test]
fn set_constant_ignores_previous_and_snapshot() {
    // A Set of a constant yields that constant whatever the snapshot holds.
    let op: AttributeOperation<u16> = AttributeOperation::SetValue(constant(100));
    let empty = snapshot(vec![]);
    let busy = snapshot(vec![(1, LightState::new().hue(9)), (2, LightState::new().bri(3))]);

    assert_eq!(op.process(&empty, None), Some(100));
    assert_eq!(op.process(&empty, Some(7)), Some(100));
    assert_eq!(op.process(&busy, None), Some(100));
    assert_eq!(op.process(&busy, Some(7)), Some(100));
}

#[test]
fn add_and_multiply_need_a_previous_value() {
    let empty = snapshot(vec![]);
    let add: AttributeOperation<u8> = AttributeOperation::Add(constant(5));
    let mul: AttributeOperation<u8> = AttributeOperation::Multiply(constant(5));
    let set: AttributeOperation<u8> = AttributeOperation::SetValue(random());

    assert_eq!(add.process(&empty, None), None);
    assert_eq!(mul.process(&empty, None), None);
    assert!(set.process(&empty, None).is_some());

    assert_eq!(add.process(&empty, Some(10)), Some(15));
    assert_eq!(mul.process(&empty, Some(10)), Some(50));
}

#[test]
fn add_and_multiply_wrap() {
    let empty = snapshot(vec![]);
    let add: AttributeOperation<u8> = AttributeOperation::Add(constant(100));
    assert_eq!(add.process(&empty, Some(200)), Some(44));

    let mul: AttributeOperation<u8> = AttributeOperation::Multiply(constant(16));
    assert_eq!(mul.process(&empty, Some(16)), Some(0));

    let add16: AttributeOperation<u16> = AttributeOperation::Add(constant(1u16));
    assert_eq!(add16.process(&empty, Some(65535)), Some(0));
}

#[test]
fn boolean_arithmetic_yields_nothing() {
    let empty = snapshot(vec![]);
    let add: AttributeOperation<bool> = AttributeOperation::Add(constant(true));
    let mul: AttributeOperation<bool> = AttributeOperation::Multiply(constant(true));
    assert_eq!(add.process(&empty, Some(true)), None);
    assert_eq!(mul.process(&empty, Some(false)), None);
}

#[test]
fn add_with_random_range_stays_in_shifted_range() {
    let empty = snapshot(vec![]);
    let add: AttributeOperation<u8> = AttributeOperation::Add(random_range(10, 20));
    for _ in 0..1000 {
        let value = add.process(&empty, Some(100)).unwrap();
        assert!((110..120).contains(&value));
    }
}

#[test]
fn apply_keep_previous() {
    let empty = snapshot(vec![]);
    let op: AttributeOperation<u8> = AttributeOperation::Apply(ApplyRule::KeepPrevious);
    assert_eq!(op.process(&empty, Some(9)), Some(9));
    assert_eq!(op.process(&empty, None), None);
}

#[test]
fn apply_if_unset_fills_gaps_only() {
    let empty = snapshot(vec![]);
    let op: AttributeOperation<u8> = AttributeOperation::Apply(ApplyRule::IfUnset(constant(42)));
    assert_eq!(op.process(&empty, None), Some(42));
    assert_eq!(op.process(&empty, Some(9)), None);
}

#[test]
fn apply_average_brightness_uses_snapshot() {
    let snap = snapshot(vec![
        (1, LightState::new().bri(10)),
        (2, LightState::new().bri(20)),
        (3, LightState::new().hue(5)),
    ]);
    let op: AttributeOperation<u8> = AttributeOperation::Apply(ApplyRule::AverageBrightness);
    assert_eq!(op.process(&snap, Some(1)), Some(15));

    let none = snapshot(vec![(1, LightState::new().hue(5))]);
    assert_eq!(op.process(&none, Some(1)), None);
}

#[test]
fn average_brightness_exact() {
    let snap = snapshot(vec![
        (1, LightState::new().bri(1)),
        (2, LightState::new().bri(2)),
        (3, LightState::new().bri(4)),
    ]);
    // (1 + 2 + 4) / 3 = 2 (integer division)
    assert_eq!(average_brightness(&snap), Some(2));
    assert_eq!(average_brightness(&snapshot(vec![])), None);
}

#[test]
fn transform_set_constant_wins_for_any_snapshot() {
    // Only a Set(Constant(100)) on hue: evaluation always yields hue 100.
    let mut transform = DeviceStateTransform::new();
    transform.set_operation(ConfigurableValue::Hue(AttributeOperation::SetValue(constant(100))));

    let empty = snapshot(vec![]);
    let busy = snapshot(vec![(1, LightState::new().hue(9).sat(3).bri(7).on(true))]);

    for snap in [&empty, &busy] {
        for device in [1u8, 2, 200] {
            let result = transform.evaluate(device, snap);
            assert_eq!(result.hue, Some(100));
            assert_eq!(result.on, None);
            assert_eq!(result.sat, None);
            assert_eq!(result.bri, None);
            assert_eq!(result.transitiontime, None);
        }
    }
}

#[test]
fn transform_absent_device_follows_the_absence_rules() {
    // Devices absent from the snapshot: Add/Multiply yield None, Set still
    // yields a value.
    let mut transform = DeviceStateTransform::new();
    transform.set_operation(ConfigurableValue::Hue(AttributeOperation::Add(constant(5u16))));
    transform.set_operation(ConfigurableValue::Brightness(AttributeOperation::Multiply(
        constant(2u8),
    )));
    transform.set_operation(ConfigurableValue::Saturation(AttributeOperation::SetValue(
        constant(200u8),
    )));

    let snap = snapshot(vec![(1, LightState::new().hue(10).bri(10))]);
    let absent = transform.evaluate(99, &snap);
    assert_eq!(absent.hue, None);
    assert_eq!(absent.bri, None);
    assert_eq!(absent.sat, Some(200));

    let present = transform.evaluate(1, &snap);
    assert_eq!(present.hue, Some(15));
    assert_eq!(present.bri, Some(20));
    assert_eq!(present.sat, Some(200));
}

#[test]
fn transform_replaces_operation_per_attribute() {
    let mut transform = DeviceStateTransform::new();
    transform.set_operation(ConfigurableValue::Hue(AttributeOperation::SetValue(constant(1u16))));
    transform.set_operation(ConfigurableValue::Hue(AttributeOperation::SetValue(constant(2u16))));
    let empty = snapshot(vec![]);
    assert_eq!(transform.evaluate(1, &empty).hue, Some(2));
}

#[test]
fn transform_table_keeps_only_devices_in_both() {
    let mut table: DeviceMap<DeviceStateTransform> = DeviceMap::new();
    let mut t = DeviceStateTransform::new();
    t.set_operation(ConfigurableValue::Hue(AttributeOperation::SetValue(constant(7u16))));
    table.insert(1, t);
    table.insert(9, t);

    let snap = snapshot(vec![(1, LightState::new()), (2, LightState::new())]);
    let states = transform(&snap, &table);
    assert_eq!(states.len(), 1);
    assert_eq!(states.get(1).unwrap().hue, Some(7));
    assert!(states.get(9).is_none());
    assert!(states.get(2).is_none());
}
