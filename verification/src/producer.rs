//! Value producers: generators invoked each time a transform is evaluated.
//!
//! A producer is constant, uniformly random over the type's full range, or
//! uniformly random within a half-open `[min, max)` range.  Contracts are
//! relational: `may_produce` says which values a producer can yield, and
//! `produce` promises only that its result is one of them, so callers are
//! verified against every possible draw.
//!
//! A range with `min >= max` is not an error: it is normalized to always
//! yield `min` (a degenerate, constant range).  This choice is part of the
//! contract and is exercised by the tests.

use vstd::prelude::*;

use crate::entropy;

verus! {

/// Generates a value of type `T` on demand.  Producing never fails and has
/// no effect beyond consuming entropy.
pub trait ValueProducer<T> {
    /// The values this producer can yield.
    spec fn may_produce(&self, x: T) -> bool;

    /// Draws one value.
    fn produce(&self) -> (r: T)
        ensures
            self.may_produce(r),
    ;
}

/// Always yields the same value.
#[derive(Clone, Copy, Debug, PartialEq, Eq, Structural)]
pub struct ConstantProducer<T> {
    pub value: T,
}

impl<T> ConstantProducer<T> {
    /// A producer that always yields `value`.
    pub fn new(value: T) -> (p: ConstantProducer<T>)
        ensures
            p.value == value,
    {
        ConstantProducer { value }
    }
}

impl<T: Copy> ValueProducer<T> for ConstantProducer<T> {
    open spec fn may_produce(&self, x: T) -> bool {
        x == self.value
    }

    fn produce(&self) -> (r: T) {
        self.value
    }
}

/// Yields a fresh uniformly random value over the type's full range on
/// every call.
#[derive(Clone, Copy, Debug, Default, PartialEq, Eq, Structural)]
pub struct RandomProducer;

impl RandomProducer {
    /// A full-range random producer.
    pub fn new() -> RandomProducer {
        RandomProducer
    }
}

impl ValueProducer<bool> for RandomProducer {
    open spec fn may_produce(&self, x: bool) -> bool {
        true
    }

    fn produce(&self) -> (r: bool) {
        entropy::random_bool()
    }
}

impl ValueProducer<u8> for RandomProducer {
    open spec fn may_produce(&self, x: u8) -> bool {
        true
    }

    fn produce(&self) -> (r: u8) {
        entropy::random_u8()
    }
}

impl ValueProducer<u16> for RandomProducer {
    open spec fn may_produce(&self, x: u16) -> bool {
        true
    }

    fn produce(&self) -> (r: u16) {
        entropy::random_u16()
    }
}

/// Yields a fresh uniformly random value in `[min, max)` on every call.
/// When `min >= max` the range is degenerate and the producer always yields
/// `min`.
#[derive(Clone, Copy, Debug, PartialEq, Eq, Structural)]
pub struct RandomRangeProducer<T> {
    pub min: T,
    pub max: T,
}

impl<T> RandomRangeProducer<T> {
    /// A producer over `[min, max)`; `min >= max` yields `min` always.
    pub fn new(min: T, max: T) -> (p: RandomRangeProducer<T>)
        ensures
            p.min == min,
            p.max == max,
    {
        RandomRangeProducer { min, max }
    }
}

impl ValueProducer<u8> for RandomRangeProducer<u8> {
    open spec fn may_produce(&self, x: u8) -> bool {
        if self.min < self.max {
            self.min <= x < self.max
        } else {
            x == self.min
        }
    }

    fn produce(&self) -> (r: u8) {
        if self.min < self.max {
            entropy::random_range_u8(self.min, self.max)
        } else {
            self.min
        }
    }
}

impl ValueProducer<u16> for RandomRangeProducer<u16> {
    open spec fn may_produce(&self, x: u16) -> bool {
        if self.min < self.max {
            self.min <= x < self.max
        } else {
            x == self.min
        }
    }

    fn produce(&self) -> (r: u16) {
        if self.min < self.max {
            entropy::random_range_u16(self.min, self.max)
        } else {
            self.min
        }
    }
}

/// Any producer, as plain data: the closed set of producer shapes the
/// engine supports.
#[derive(Clone, Copy, Debug, PartialEq, Eq, Structural)]
pub enum Producer<T> {
    Constant(ConstantProducer<T>),
    Random(RandomProducer),
    Range(RandomRangeProducer<T>),
}

impl ValueProducer<bool> for Producer<bool> {
    open spec fn may_produce(&self, x: bool) -> bool {
        match self {
            Producer::Constant(p) => p.may_produce(x),
            Producer::Random(p) => p.may_produce(x),
            // a boolean range is always degenerate: it yields its lower bound
            Producer::Range(p) => x == p.min,
        }
    }

    fn produce(&self) -> (r: bool) {
        match self {
            Producer::Constant(p) => p.produce(),
            Producer::Random(p) => p.produce(),
            Producer::Range(p) => p.min,
        }
    }
}

impl ValueProducer<u8> for Producer<u8> {
    open spec fn may_produce(&self, x: u8) -> bool {
        match self {
            Producer::Constant(p) => p.may_produce(x),
            Producer::Random(p) => ValueProducer::<u8>::may_produce(p, x),
            Producer::Range(p) => p.may_produce(x),
        }
    }

    fn produce(&self) -> (r: u8) {
        match self {
            Producer::Constant(p) => p.produce(),
            Producer::Random(p) => ValueProducer::<u8>::produce(p),
            Producer::Range(p) => p.produce(),
        }
    }
}

impl ValueProducer<u16> for Producer<u16> {
    open spec fn may_produce(&self, x: u16) -> bool {
        match self {
            Producer::Constant(p) => p.may_produce(x),
            Producer::Random(p) => ValueProducer::<u16>::may_produce(p, x),
            Producer::Range(p) => p.may_produce(x),
        }
    }

    fn produce(&self) -> (r: u16) {
        match self {
            Producer::Constant(p) => p.produce(),
            Producer::Random(p) => ValueProducer::<u16>::produce(p),
            Producer::Range(p) => p.produce(),
        }
    }
}

/// A producer that always yields `value`.
pub fn constant<T: Copy>(value: T) -> (p: Producer<T>)
    ensures
        p == Producer::Constant(ConstantProducer { value }),
{
    Producer::Constant(ConstantProducer::new(value))
}

/// A producer that yields a fresh full-range random value on every call.
pub fn random<T>() -> (p: Producer<T>)
    ensures
        p == Producer::<T>::Random(RandomProducer),
{
    Producer::Random(RandomProducer::new())
}

/// A producer over `[min, max)`; `min >= max` yields `min` always.
pub fn random_range<T>(min: T, max: T) -> (p: Producer<T>)
    ensures
        p == (Producer::Range(RandomRangeProducer { min, max })),
{
    Producer::Range(RandomRangeProducer::new(min, max))
}

} // verus!
