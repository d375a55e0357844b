//! Per-attribute operations: the declarative instructions for deriving a new
//! attribute value from the previous value and the full device snapshot.
//!
//! `Set` ignores the previous value, `Add` and `Multiply` combine it with a
//! produced value (wrapping on overflow), and `Apply` runs one of a closed
//! set of snapshot-dependent rules.  Evaluating an operation never fails:
//! when a previous value is required but absent the result is `None` for
//! that attribute.
//!
//! Contracts are relational (`obeys`): they pin the result exactly for
//! constant producers and bound it for random ones, so callers are verified
//! for every possible draw.

use vstd::prelude::*;

use crate::device_map::LightCollection;
use crate::light::{Light, LightNumber};
use crate::producer::{Producer, ValueProducer};

verus! {

/// How one attribute of one device is derived each frame.
#[derive(Clone, Copy, Debug, PartialEq, Eq, Structural)]
pub enum AttributeOperation<T> {
    /// Ignore the previous value; use the producer's value.
    SetValue(Producer<T>),
    /// Previous plus produced, wrapping; `None` if the previous is absent.
    Add(Producer<T>),
    /// Previous times produced, wrapping; `None` if the previous is absent.
    Multiply(Producer<T>),
    /// A snapshot-dependent rule that may yield a value or nothing.
    Apply(ApplyRule<T>),
}

/// The closed set of snapshot-dependent rules an `Apply` operation can run:
/// each is a function of the snapshot and the previous value that may yield
/// a producer to invoke.
#[derive(Clone, Copy, Debug, PartialEq, Eq, Structural)]
pub enum ApplyRule<T> {
    /// Yield the previous value when present, otherwise nothing.
    KeepPrevious,
    /// Yield the producer's value only when no previous value exists.
    IfUnset(Producer<T>),
    /// Yield the mean brightness over the devices that report one (nothing
    /// when none does).  For boolean attributes no mean is defined, so this
    /// rule yields nothing.
    AverageBrightness,
}

/// The brightness values summed over a snapshot's entries, counting absent
/// ones as zero.
pub open spec fn bri_sum(s: Seq<(LightNumber, Light)>) -> int
    decreases s.len(),
{
    if s.len() == 0 {
        0
    } else {
        bri_sum(s.drop_last()) + match s.last().1.state.bri {
            Some(b) => b as int,
            None => 0,
        }
    }
}

/// How many of a snapshot's entries report a brightness.
pub open spec fn bri_count(s: Seq<(LightNumber, Light)>) -> int
    decreases s.len(),
{
    if s.len() == 0 {
        0
    } else {
        bri_count(s.drop_last()) + if s.last().1.state.bri is Some {
            1int
        } else {
            0int
        }
    }
}

/// The mean brightness over the devices that report one; `None` when none
/// does.
pub open spec fn avg_bri(s: Seq<(LightNumber, Light)>) -> Option<u8> {
    if bri_count(s) == 0 {
        None
    } else {
        Some((bri_sum(s) / bri_count(s)) as u8)
    }
}

/// The sum is non-negative and at most 255 per reporting device, and the
/// count never exceeds the entry count.
pub proof fn lemma_bri_sum_bounds(s: Seq<(LightNumber, Light)>)
    ensures
        0 <= bri_count(s) <= s.len(),
        0 <= bri_sum(s) <= 255 * bri_count(s),
    decreases s.len(),
{
    if s.len() > 0 {
        lemma_bri_sum_bounds(s.drop_last());
    }
}

/// The mean brightness over the devices of `snapshot` that report one.
pub fn average_brightness(snapshot: &LightCollection) -> (r: Option<u8>)
    ensures
        r == avg_bri(snapshot.entries_seq()),
{
    let ghost s = snapshot.entries_seq();
    let n = snapshot.len();
    let mut sum: u128 = 0;
    let mut count: u64 = 0;
    for i in 0..n
        invariant
            n == s.len(),
            s == snapshot.entries_seq(),
            n <= u64::MAX,
            count <= i,
            sum == bri_sum(s.subrange(0, i as int)),
            count == bri_count(s.subrange(0, i as int)),
            sum <= 255 * (count as int),
    {
        proof {
            assert(s.subrange(0, i + 1).drop_last() == s.subrange(0, i as int));
            assert(s.subrange(0, i + 1).last() == s[i as int]);
        }
        match snapshot.value_at(i).state.bri {
            Some(b) => {
                sum = sum + (b as u128);
                count = count + 1;
            },
            None => {},
        }
    }
    proof {
        assert(s.subrange(0, n as int) == s);
    }
    if count == 0 {
        None
    } else {
        proof {
            lemma_bri_sum_bounds(s);
            vstd::arithmetic::div_mod::lemma_div_is_ordered(
                sum as int,
                255 * (count as int),
                count as int,
            );
            vstd::arithmetic::div_mod::lemma_div_multiples_vanish(255, count as int);
            assert((255 * (count as int)) / (count as int) == 255) by {
                assert(255 * (count as int) == (count as int) * 255);
            }
        }
        Some((sum / (count as u128)) as u8)
    }
}

impl ApplyRule<u8> {
    /// What results this rule allows for the given snapshot and previous
    /// value.
    pub open spec fn obeys(
        self,
        snap: Seq<(LightNumber, Light)>,
        prev: Option<u8>,
        r: Option<u8>,
    ) -> bool {
        match self {
            ApplyRule::KeepPrevious => r == prev,
            ApplyRule::IfUnset(p) => match prev {
                None => match r {
                    Some(x) => p.may_produce(x),
                    None => false,
                },
                Some(_) => r is None,
            },
            ApplyRule::AverageBrightness => r == avg_bri(snap),
        }
    }

    /// Runs the rule.
    pub fn apply(&self, snapshot: &LightCollection, previous: Option<u8>) -> (r: Option<u8>)
        ensures
            self.obeys(snapshot.entries_seq(), previous, r),
    {
        match self {
            ApplyRule::KeepPrevious => previous,
            ApplyRule::IfUnset(p) => match previous {
                None => Some(p.produce()),
                Some(_) => None,
            },
            ApplyRule::AverageBrightness => average_brightness(snapshot),
        }
    }
}

impl AttributeOperation<u8> {
    /// What results this operation allows for the given snapshot and
    /// previous value.
    pub open spec fn obeys(
        self,
        snap: Seq<(LightNumber, Light)>,
        prev: Option<u8>,
        r: Option<u8>,
    ) -> bool {
        match self {
            AttributeOperation::SetValue(p) => match r {
                Some(x) => p.may_produce(x),
                None => false,
            },
            AttributeOperation::Add(p) => match prev {
                None => r is None,
                Some(v) => exists|y: u8|
                    #[trigger] p.may_produce(y) && r == Some(v.wrapping_add(y)),
            },
            AttributeOperation::Multiply(p) => match prev {
                None => r is None,
                Some(v) => exists|y: u8|
                    #[trigger] p.may_produce(y) && r == Some(v.wrapping_mul(y)),
            },
            AttributeOperation::Apply(rule) => rule.obeys(snap, prev, r),
        }
    }

    /// Evaluates the operation; never fails.
    pub fn process(&self, snapshot: &LightCollection, previous: Option<u8>) -> (r: Option<u8>)
        ensures
            self.obeys(snapshot.entries_seq(), previous, r),
    {
        match self {
            AttributeOperation::SetValue(p) => Some(p.produce()),
            AttributeOperation::Add(p) => match previous {
                None => None,
                Some(v) => {
                    let y = p.produce();
                    let r = Some(v.wrapping_add(y));
                    proof {
                        assert(p.may_produce(y) && r == Some(v.wrapping_add(y)));
                    }
                    r
                },
            },
            AttributeOperation::Multiply(p) => match previous {
                None => None,
                Some(v) => {
                    let y = p.produce();
                    let r = Some(v.wrapping_mul(y));
                    proof {
                        assert(p.may_produce(y) && r == Some(v.wrapping_mul(y)));
                    }
                    r
                },
            },
            AttributeOperation::Apply(rule) => rule.apply(snapshot, previous),
        }
    }
}

impl ApplyRule<u16> {
    /// What results this rule allows for the given snapshot and previous
    /// value.
    pub open spec fn obeys(
        self,
        snap: Seq<(LightNumber, Light)>,
        prev: Option<u16>,
        r: Option<u16>,
    ) -> bool {
        match self {
            ApplyRule::KeepPrevious => r == prev,
            ApplyRule::IfUnset(p) => match prev {
                None => match r {
                    Some(x) => p.may_produce(x),
                    None => false,
                },
                Some(_) => r is None,
            },
            ApplyRule::AverageBrightness => r == match avg_bri(snap) {
                Some(b) => Some(b as u16),
                None => None::<u16>,
            },
        }
    }

    /// Runs the rule.
    pub fn apply(&self, snapshot: &LightCollection, previous: Option<u16>) -> (r: Option<u16>)
        ensures
            self.obeys(snapshot.entries_seq(), previous, r),
    {
        match self {
            ApplyRule::KeepPrevious => previous,
            ApplyRule::IfUnset(p) => match previous {
                None => Some(p.produce()),
                Some(_) => None,
            },
            ApplyRule::AverageBrightness => match average_brightness(snapshot) {
                Some(b) => Some(b as u16),
                None => None,
            },
        }
    }
}

impl AttributeOperation<u16> {
    /// What results this operation allows for the given snapshot and
    /// previous value.
    pub open spec fn obeys(
        self,
        snap: Seq<(LightNumber, Light)>,
        prev: Option<u16>,
        r: Option<u16>,
    ) -> bool {
        match self {
            AttributeOperation::SetValue(p) => match r {
                Some(x) => p.may_produce(x),
                None => false,
            },
            AttributeOperation::Add(p) => match prev {
                None => r is None,
                Some(v) => exists|y: u16|
                    #[trigger] p.may_produce(y) && r == Some(v.wrapping_add(y)),
            },
            AttributeOperation::Multiply(p) => match prev {
                None => r is None,
                Some(v) => exists|y: u16|
                    #[trigger] p.may_produce(y) && r == Some(v.wrapping_mul(y)),
            },
            AttributeOperation::Apply(rule) => rule.obeys(snap, prev, r),
        }
    }

    /// Evaluates the operation; never fails.
    pub fn process(&self, snapshot: &LightCollection, previous: Option<u16>) -> (r: Option<u16>)
        ensures
            self.obeys(snapshot.entries_seq(), previous, r),
    {
        match self {
            AttributeOperation::SetValue(p) => Some(p.produce()),
            AttributeOperation::Add(p) => match previous {
                None => None,
                Some(v) => {
                    let y = p.produce();
                    let r = Some(v.wrapping_add(y));
                    proof {
                        assert(p.may_produce(y) && r == Some(v.wrapping_add(y)));
                    }
                    r
                },
            },
            AttributeOperation::Multiply(p) => match previous {
                None => None,
                Some(v) => {
                    let y = p.produce();
                    let r = Some(v.wrapping_mul(y));
                    proof {
                        assert(p.may_produce(y) && r == Some(v.wrapping_mul(y)));
                    }
                    r
                },
            },
            AttributeOperation::Apply(rule) => rule.apply(snapshot, previous),
        }
    }
}

impl ApplyRule<bool> {
    /// What results this rule allows for the given snapshot and previous
    /// value.
    pub open spec fn obeys(
        self,
        snap: Seq<(LightNumber, Light)>,
        prev: Option<bool>,
        r: Option<bool>,
    ) -> bool {
        match self {
            ApplyRule::KeepPrevious => r == prev,
            ApplyRule::IfUnset(p) => match prev {
                None => match r {
                    Some(x) => p.may_produce(x),
                    None => false,
                },
                Some(_) => r is None,
            },
            ApplyRule::AverageBrightness => r is None,
        }
    }

    /// Runs the rule.
    pub fn apply(&self, snapshot: &LightCollection, previous: Option<bool>) -> (r: Option<bool>)
        ensures
            self.obeys(snapshot.entries_seq(), previous, r),
    {
        match self {
            ApplyRule::KeepPrevious => previous,
            ApplyRule::IfUnset(p) => match previous {
                None => Some(p.produce()),
                Some(_) => None,
            },
            ApplyRule::AverageBrightness => None,
        }
    }
}

impl AttributeOperation<bool> {
    /// What results this operation allows for the given snapshot and
    /// previous value.  Booleans have no addition or multiplication, so
    /// `Add` and `Multiply` always yield `None` for them.
    pub open spec fn obeys(
        self,
        snap: Seq<(LightNumber, Light)>,
        prev: Option<bool>,
        r: Option<bool>,
    ) -> bool {
        match self {
            AttributeOperation::SetValue(p) => match r {
                Some(x) => p.may_produce(x),
                None => false,
            },
            AttributeOperation::Add(_) => r is None,
            AttributeOperation::Multiply(_) => r is None,
            AttributeOperation::Apply(rule) => rule.obeys(snap, prev, r),
        }
    }

    /// Evaluates the operation; never fails.
    pub fn process(&self, snapshot: &LightCollection, previous: Option<bool>) -> (r: Option<bool>)
        ensures
            self.obeys(snapshot.entries_seq(), previous, r),
    {
        match self {
            AttributeOperation::SetValue(p) => Some(p.produce()),
            AttributeOperation::Add(_) => None,
            AttributeOperation::Multiply(_) => None,
            AttributeOperation::Apply(rule) => rule.apply(snapshot, previous),
        }
    }
}

} // verus!
