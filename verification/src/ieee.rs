//! Floating-point numbers held by their IEEE 754 bit patterns.
//!
//! Only the order of the numbers is needed here, and the order can be read off the bits: a pattern
//! with a clear sign bit is ordered by its magnitude, one with a set sign bit by the negated
//! magnitude, and a pattern whose magnitude lies above that of infinity is not a number.
use vstd::prelude::*;

verus! {

/// The sign bit of a double, which is also the number of magnitudes of one sign.
pub const SIGN64: u64 = 0x8000_0000_0000_0000;

/// The bit pattern of positive infinity as a double.
pub const INFINITY64: u64 = 0x7ff0_0000_0000_0000;

/// The sign bit of a single.
pub const SIGN32: u32 = 0x8000_0000;

/// The bit pattern of positive infinity as a single.
pub const INFINITY32: u32 = 0x7f80_0000;

/// A double-precision number.
#[derive(Debug, Clone, Copy)]
pub struct F64 {
    /// The bit pattern.
    pub bits: u64,
}

/// A single-precision number.
#[derive(Debug, Clone, Copy)]
pub struct F32 {
    /// The bit pattern.
    pub bits: u32,
}

/// The rank of a double: equal for `-0.0` and `0.0`, and increasing with the number.
pub open spec fn rank64(bits: u64) -> int {
    if bits < SIGN64 {
        bits as int
    } else {
        SIGN64 - bits
    }
}

/// The rank of a single.
pub open spec fn rank32(bits: u32) -> int {
    if bits < SIGN32 {
        bits as int
    } else {
        SIGN32 - bits
    }
}

impl F64 {
    /// The number is not NaN.
    pub open spec fn is_number(self) -> bool {
        -INFINITY64 <= rank64(self.bits) <= INFINITY64
    }

    /// `self < other`; false where either is NaN.
    pub open spec fn less(self, other: F64) -> bool {
        self.is_number() && other.is_number() && rank64(self.bits) < rank64(other.bits)
    }

    /// `self <= other`; false where either is NaN.
    pub open spec fn at_most(self, other: F64) -> bool {
        self.is_number() && other.is_number() && rank64(self.bits) <= rank64(other.bits)
    }

    /// The number with the bit pattern `bits`.
    pub fn from_bits(bits: u64) -> (r: F64)
        ensures
            r.bits == bits,
    {
        F64 { bits }
    }

    fn rank(self) -> (r: i64)
        requires
            self.is_number(),
        ensures
            r == rank64(self.bits),
    {
        if self.bits < SIGN64 {
            self.bits as i64
        } else {
            -((self.bits - SIGN64) as i64)
        }
    }

    /// Whether the number is not NaN.
    pub fn number(self) -> (r: bool)
        ensures
            r == self.is_number(),
    {
        if self.bits < SIGN64 {
            self.bits <= INFINITY64
        } else {
            self.bits - SIGN64 <= INFINITY64
        }
    }

    /// `self < other`, as IEEE 754 compares them.
    pub fn lt(self, other: F64) -> (r: bool)
        ensures
            r == self.less(other),
    {
        self.number() && other.number() && self.rank() < other.rank()
    }

    /// `self <= other`, as IEEE 754 compares them.
    pub fn le(self, other: F64) -> (r: bool)
        ensures
            r == self.at_most(other),
    {
        self.number() && other.number() && self.rank() <= other.rank()
    }
}

impl F32 {
    /// The number is not NaN.
    pub open spec fn is_number(self) -> bool {
        -INFINITY32 <= rank32(self.bits) <= INFINITY32
    }

    /// `self < other`; false where either is NaN.
    pub open spec fn less(self, other: F32) -> bool {
        self.is_number() && other.is_number() && rank32(self.bits) < rank32(other.bits)
    }

    /// `self <= other`; false where either is NaN.
    pub open spec fn at_most(self, other: F32) -> bool {
        self.is_number() && other.is_number() && rank32(self.bits) <= rank32(other.bits)
    }

    /// The number with the bit pattern `bits`.
    pub fn from_bits(bits: u32) -> (r: F32)
        ensures
            r.bits == bits,
    {
        F32 { bits }
    }

    fn rank(self) -> (r: i32)
        requires
            self.is_number(),
        ensures
            r == rank32(self.bits),
    {
        if self.bits < SIGN32 {
            self.bits as i32
        } else {
            -((self.bits - SIGN32) as i32)
        }
    }

    /// Whether the number is not NaN.
    pub fn number(self) -> (r: bool)
        ensures
            r == self.is_number(),
    {
        if self.bits < SIGN32 {
            self.bits <= INFINITY32
        } else {
            self.bits - SIGN32 <= INFINITY32
        }
    }

    /// `self < other`, as IEEE 754 compares them.
    pub fn lt(self, other: F32) -> (r: bool)
        ensures
            r == self.less(other),
    {
        self.number() && other.number() && self.rank() < other.rank()
    }

    /// `self <= other`, as IEEE 754 compares them.
    pub fn le(self, other: F32) -> (r: bool)
        ensures
            r == self.at_most(other),
    {
        self.number() && other.number() && self.rank() <= other.rank()
    }
}

/// How doubles compare. Patterns beyond infinity are not numbers and compare with nothing; numbers of
/// the positive sign are ordered as their patterns are, those of the negative sign the other way
/// round, and a negative number lies below a positive one unless both are zero.
pub proof fn law_doubles_compare(a: F64, b: F64)
    ensures
        a.is_number() <==> a.bits <= 0x7ff0_0000_0000_0000 || 0x8000_0000_0000_0000 <= a.bits
            <= 0xfff0_0000_0000_0000,
        a.less(b) ==> a.is_number() && b.is_number() && !b.less(a),
        a.bits <= 0x7ff0_0000_0000_0000 && b.bits <= 0x7ff0_0000_0000_0000 ==> (a.less(b)
            <==> a.bits < b.bits),
        0x8000_0000_0000_0000 <= a.bits <= 0xfff0_0000_0000_0000 && 0x8000_0000_0000_0000 <= b.bits
            <= 0xfff0_0000_0000_0000 ==> (a.less(b) <==> a.bits > b.bits),
        0x8000_0000_0000_0000 <= a.bits <= 0xfff0_0000_0000_0000 && b.bits
            <= 0x7ff0_0000_0000_0000 ==> !b.less(a) && (a.less(b) <==> !(a.bits
            == 0x8000_0000_0000_0000 && b.bits == 0)),
        a.at_most(b) <==> a.is_number() && b.is_number() && !b.less(a),
{
}

/// How singles compare, in the same way as doubles do.
pub proof fn law_singles_compare(a: F32, b: F32)
    ensures
        a.is_number() <==> a.bits <= 0x7f80_0000 || 0x8000_0000 <= a.bits <= 0xff80_0000,
        a.less(b) ==> a.is_number() && b.is_number() && !b.less(a),
        a.bits <= 0x7f80_0000 && b.bits <= 0x7f80_0000 ==> (a.less(b) <==> a.bits < b.bits),
        0x8000_0000 <= a.bits <= 0xff80_0000 && 0x8000_0000 <= b.bits <= 0xff80_0000 ==> (a.less(b)
            <==> a.bits > b.bits),
        0x8000_0000 <= a.bits <= 0xff80_0000 && b.bits <= 0x7f80_0000 ==> !b.less(a) && (a.less(b)
            <==> !(a.bits == 0x8000_0000 && b.bits == 0)),
        a.at_most(b) <==> a.is_number() && b.is_number() && !b.less(a),
{
}

/// A single-precision setting: the number, and how it is written.
#[derive(Debug, Clone)]
pub struct Single {
    /// The number.
    pub value: F32,
    /// Its shortest decimal form.
    pub text: String,
    /// The shortest decimal form of the same number in double precision.
    pub wide: String,
}

/// A double-precision setting: the number, and how it is written.
#[derive(Debug, Clone)]
pub struct Double {
    /// The number.
    pub value: F64,
    /// Its shortest decimal form.
    pub text: String,
}

impl Single {
    /// The setting has this bit pattern and these decimal forms.
    pub open spec fn is(&self, bits: u32, text: Seq<char>, wide: Seq<char>) -> bool {
        self.value.bits == bits && self.text@ == text && self.wide@ == wide
    }

    /// The setting with the given bit pattern and decimal forms.
    pub fn new(bits: u32, text: &str, wide: &str) -> (r: Single)
        ensures
            r.is(bits, text@, wide@),
            r.value.bits == bits && r.text@ == text@ && r.wide@ == wide@,
    {
        Single { value: F32::from_bits(bits), text: text.to_owned(), wide: wide.to_owned() }
    }

    /// The number is below the one with bit pattern `min` or above the one with `max`.
    pub open spec fn outside(&self, min: u32, max: u32) -> bool {
        self.value.less(F32 { bits: min }) || F32 { bits: max }.less(self.value)
    }

    /// Whether the number is below `min` or above `max`, both given by their bit patterns.
    pub fn is_outside(&self, min: u32, max: u32) -> (r: bool)
        ensures
            r == self.outside(min, max),
            r == (self.value.less(F32 { bits: min }) || F32 { bits: max }.less(self.value)),
    {
        self.value.lt(F32::from_bits(min)) || F32::from_bits(max).lt(self.value)
    }
}

impl Double {
    /// The setting has this bit pattern and this decimal form.
    pub open spec fn is(&self, bits: u64, text: Seq<char>) -> bool {
        self.value.bits == bits && self.text@ == text
    }

    /// The setting with the given bit pattern and decimal form.
    pub fn new(bits: u64, text: &str) -> (r: Double)
        ensures
            r.is(bits, text@),
            r.value.bits == bits && r.text@ == text@,
    {
        Double { value: F64::from_bits(bits), text: text.to_owned() }
    }

    /// The number is below the one with bit pattern `min` or above the one with `max`.
    pub open spec fn outside(&self, min: u64, max: u64) -> bool {
        self.value.less(F64 { bits: min }) || F64 { bits: max }.less(self.value)
    }

    /// Whether the number is below `min` or above `max`, both given by their bit patterns.
    pub fn is_outside(&self, min: u64, max: u64) -> (r: bool)
        ensures
            r == self.outside(min, max),
            r == (self.value.less(F64 { bits: min }) || F64 { bits: max }.less(self.value)),
    {
        self.value.lt(F64::from_bits(min)) || F64::from_bits(max).lt(self.value)
    }
}

} // verus!
