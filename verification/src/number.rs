//! Numeric facet values and the bounds of an interval of them.

use vstd::prelude::*;

verus! {

/// The key of zero. Keys above it stand for positive values, keys below it for
/// negative ones.
pub const ZERO_KEY: u64 = 0x8000_0000_0000_0000;

/// The bit patterns from here on, sign bit set aside, are the infinities and
/// the values that are no number.
pub const FIRST_NON_FINITE: u64 = 0x7FF0_0000_0000_0000;

/// The key below every value: it stands for an interval that is open to the
/// left.
pub const LOWEST_KEY: u64 = 0;

/// The key above every value: it stands for an interval that is open to the
/// right.
pub const HIGHEST_KEY: u64 = 0xFFFF_FFFF_FFFF_FFFF;

/// The key of -90, the lowest latitude.
pub const LATITUDE_MIN_KEY: u64 = 0x3FA9_7FFF_FFFF_FFFF;

/// The key of 90, the highest latitude.
pub const LATITUDE_MAX_KEY: u64 = 0xC056_8000_0000_0000;

/// The key of -180, the lowest longitude.
pub const LONGITUDE_MIN_KEY: u64 = 0x3F99_7FFF_FFFF_FFFF;

/// The key of 180, the highest longitude.
pub const LONGITUDE_MAX_KEY: u64 = 0xC066_8000_0000_0000;

/// A numeric facet value.
///
/// A value is held as its `key`, an integer that orders the values as their
/// magnitudes do: two values compare as their keys compare. The key of a
/// finite double-precision number is given by [`Number::from_bits`].
#[derive(Clone, Copy, Debug, PartialEq, Eq, Structural)]
pub struct Number {
    pub key: u64,
}

/// The key of the double-precision number with the bit pattern `bits`, if that
/// number is finite.
///
/// A pattern below `2^63` is a non-negative number, and grows with it. A
/// pattern from `2^63` on is the negative of the pattern without its sign bit,
/// so its key falls as the pattern grows. The two zeros share one key.
pub open spec fn key_of_bits(bits: u64) -> Option<u64> {
    if bits < ZERO_KEY {
        if bits >= FIRST_NON_FINITE {
            None
        } else {
            Some((ZERO_KEY + bits) as u64)
        }
    } else {
        let magnitude = bits - ZERO_KEY;
        if magnitude >= FIRST_NON_FINITE {
            None
        } else if magnitude == 0 {
            Some(ZERO_KEY)
        } else {
            Some((ZERO_KEY - 1 - magnitude) as u64)
        }
    }
}

/// The bit pattern that a key stands for.
pub open spec fn bits_of_key(key: u64) -> u64 {
    if key >= ZERO_KEY {
        (key - ZERO_KEY) as u64
    } else {
        (HIGHEST_KEY - key) as u64
    }
}

impl Number {
    /// The value below every other.
    pub fn lowest() -> (r: Number)
        ensures
            r.key == LOWEST_KEY,
    {
        Number { key: LOWEST_KEY }
    }

    /// The value above every other.
    pub fn highest() -> (r: Number)
        ensures
            r.key == HIGHEST_KEY,
    {
        Number { key: HIGHEST_KEY }
    }

    /// The value of the double-precision number with the given bit pattern, or
    /// `None` where the pattern is an infinity or no number.
    pub fn from_bits(bits: u64) -> (r: Option<Number>)
        ensures
            r == match key_of_bits(bits) {
                Some(key) => Some(Number { key }),
                None => None,
            },
    {
        if bits < ZERO_KEY {
            if bits >= FIRST_NON_FINITE {
                None
            } else {
                Some(Number { key: ZERO_KEY + bits })
            }
        } else {
            let magnitude: u64 = bits - ZERO_KEY;
            if magnitude >= FIRST_NON_FINITE {
                None
            } else if magnitude == 0 {
                Some(Number { key: ZERO_KEY })
            } else {
                Some(Number { key: ZERO_KEY - 1 - magnitude })
            }
        }
    }

    /// The bit pattern of the double-precision number that this value stands
    /// for.
    pub fn to_bits(&self) -> (bits: u64)
        ensures
            bits == bits_of_key(self.key),
    {
        if self.key >= ZERO_KEY {
            self.key - ZERO_KEY
        } else {
            HIGHEST_KEY - self.key
        }
    }
}

/// One end of an interval of numbers.
#[derive(Clone, Copy, Debug, PartialEq, Eq, Structural)]
pub enum Bound {
    /// The end itself belongs to the interval.
    Included(Number),
    /// The end itself does not belong to the interval.
    Excluded(Number),
}

impl Bound {
    /// The number at this end.
    pub open spec fn number(self) -> Number {
        match self {
            Bound::Included(n) => n,
            Bound::Excluded(n) => n,
        }
    }

    /// The lowest key on the inner side of this bound, taken as the left end of
    /// an interval.
    pub open spec fn floor(self) -> int {
        match self {
            Bound::Included(l) => l.key as int,
            Bound::Excluded(l) => l.key + 1,
        }
    }

    /// Whether `x` lies on the inner side of this bound, taken as the left end
    /// of an interval.
    pub open spec fn admits_above(self, x: Number) -> bool {
        match self {
            Bound::Included(l) => l.key <= x.key,
            Bound::Excluded(l) => l.key < x.key,
        }
    }

    /// Whether `x` lies on the inner side of this bound, taken as the right end
    /// of an interval.
    pub open spec fn admits_below(self, x: Number) -> bool {
        match self {
            Bound::Included(r) => x.key <= r.key,
            Bound::Excluded(r) => x.key < r.key,
        }
    }

    /// Tests whether `x` lies on the inner side of this left end.
    pub fn is_left_of(&self, x: Number) -> (r: bool)
        ensures
            r == self.admits_above(x),
    {
        match self {
            Bound::Included(l) => l.key <= x.key,
            Bound::Excluded(l) => l.key < x.key,
        }
    }

    /// Tests whether `x` lies on the inner side of this right end.
    pub fn is_right_of(&self, x: Number) -> (r: bool)
        ensures
            r == self.admits_below(x),
    {
        match self {
            Bound::Included(r) => x.key <= r.key,
            Bound::Excluded(r) => x.key < r.key,
        }
    }
}

/// Whether the interval from `left` to `right` is empty by its ends alone: the
/// left end lies above the right one, or the two meet and one of them is
/// excluded.
pub open spec fn ends_exclude_all(left: Bound, right: Bound) -> bool {
    match (left, right) {
        (Bound::Included(l), Bound::Included(r)) => l.key > r.key,
        _ => left.number().key >= right.number().key,
    }
}

/// Whether `x` lies in the interval from `left` to `right`.
pub open spec fn within(left: Bound, right: Bound, x: Number) -> bool {
    left.admits_above(x) && right.admits_below(x)
}

/// Tests whether the ends alone show the interval to be empty.
pub fn interval_is_void(left: &Bound, right: &Bound) -> (r: bool)
    ensures
        r == ends_exclude_all(*left, *right),
{
    match (left, right) {
        (Bound::Included(l), Bound::Included(r)) => l.key > r.key,
        (Bound::Included(l), Bound::Excluded(r)) => l.key >= r.key,
        (Bound::Excluded(l), Bound::Excluded(r)) => l.key >= r.key,
        (Bound::Excluded(l), Bound::Included(r)) => l.key >= r.key,
    }
}

/// Reading a key back from its bit pattern gives the key again, for every key
/// that a finite number has.
pub proof fn law_key_round_trip(bits: u64)
    requires
        key_of_bits(bits) is Some,
    ensures
        key_of_bits(bits_of_key(key_of_bits(bits).unwrap())) == key_of_bits(bits),
        bits != ZERO_KEY ==> bits_of_key(key_of_bits(bits).unwrap()) == bits,
{
}

/// Of two finite non-negative numbers the one with the larger bit pattern has
/// the larger key; of two negative ones, the smaller; and every negative
/// number has a smaller key than every non-negative one.
pub proof fn law_key_order(a: u64, b: u64)
    requires
        key_of_bits(a) is Some,
        key_of_bits(b) is Some,
    ensures
        a < ZERO_KEY && b < ZERO_KEY ==> (a < b <==> key_of_bits(a).unwrap() < key_of_bits(
            b,
        ).unwrap()),
        a > ZERO_KEY && b > ZERO_KEY ==> (a < b <==> key_of_bits(a).unwrap() > key_of_bits(
            b,
        ).unwrap()),
        a > ZERO_KEY && b <= ZERO_KEY ==> key_of_bits(a).unwrap() < key_of_bits(b).unwrap(),
{
}

} // verus!
