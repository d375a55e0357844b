use hoo::producer::{
    constant, random, random_range, ConstantProducer, RandomProducer, RandomRangeProducer,
    Producer, ValueProducer,
};

#[test]
fn random_range_stays_in_bounds() {
    let producer = RandomRangeProducer::new(200u8, 255u8);
    for _ in 0..10000 {
        let value = producer.produce();
        assert!((200..255).contains(&value));
    }
}

#[test]
fn random_range_varies() {
    let producer = RandomRangeProducer::new(200u8, 255u8);
    let first = producer.produce();
    let mut saw_other = false;
    for _ in 0..10000 {
        if producer.produce() != first {
            saw_other = true;
            break;
        }
    }
    assert!(saw_other);
}

#[test]
fn constant_always_yields_its_value() {
    let producer = ConstantProducer::new(7u8);
    for _ in 0..1000 {
        assert_eq!(producer.produce(), 7);
    }
}

#[test]
fn degenerate_range_yields_minimum() {
    // A range with min >= max is normalized to always yield min.
    let producer = RandomRangeProducer::new(90u16, 10u16);
    for _ in 0..100 {
        assert_eq!(producer.produce(), 90);
    }
    let empty = RandomRangeProducer::new(5u8, 5u8);
    for _ in 0..100 {
        assert_eq!(empty.produce(), 5);
    }
}

#[test]
fn random_bool_covers_both_values() {
    let producer = RandomProducer::new();
    let mut saw_true = false;
    let mut saw_false = false;
    for _ in 0..10000 {
        let value: bool = producer.produce();
        if value {
            saw_true = true;
        } else {
            saw_false = true;
        }
        if saw_true && saw_false {
            break;
        }
    }
    assert!(saw_true && saw_false);
}

#[test]
fn random_u16_varies() {
    let producer = RandomProducer::new();
    let first: u16 = producer.produce();
    let mut saw_other = false;
    for _ in 0..10000 {
        let value: u16 = producer.produce();
        if value != first {
            saw_other = true;
            break;
        }
    }
    assert!(saw_other);
}

#[test]
fn producer_helpers_build_the_right_variants() {
    let c: Producer<u8> = constant(7);
    assert_eq!(c, Producer::Constant(ConstantProducer::new(7)));
    assert_eq!(c.produce(), 7);

    let r: Producer<u16> = random();
    assert_eq!(r, Producer::Random(RandomProducer::new()));

    let range: Producer<u16> = random_range(35000, 48000);
    assert_eq!(range, Producer::Range(RandomRangeProducer::new(35000, 48000)));
    for _ in 0..1000 {
        let value = range.produce();
        assert!((35000..48000).contains(&value));
    }
}
