//! Transforms from the integers a tile stores to the pixels it stands for.
use vstd::prelude::*;
use crate::read_big_endian::ReadBigEndian;

verus! {

/// Maps one stored element to the pixel it encodes.
pub trait PixelTransform {
    type Original;
    type Stored: Copy;

    /// The pixel that the stored element `s` encodes.
    spec fn spec_reverse(&self, s: Self::Stored) -> Self::Original;

    fn reverse(&self, s: Self::Stored) -> (r: Self::Original)
        ensures
            r == self.spec_reverse(s),
    ;
}

/// Signed bytes stored as unsigned bytes biased by -128.
#[derive(Clone, Copy, Debug)]
pub struct I8Transform();

/// Unsigned 16-bit pixels stored as signed integers biased by 32768.
#[derive(Clone, Copy, Debug)]
pub struct U16Transform();

/// Unsigned 32-bit pixels stored as signed integers biased by 2^31.
#[derive(Clone, Copy, Debug)]
pub struct U32Transform();

/// Unsigned 64-bit pixels stored as signed integers biased by 2^63.
#[derive(Clone, Copy, Debug)]
pub struct U64Transform();

impl PixelTransform for I8Transform {
    type Original = i8;
    type Stored = u8;

    open spec fn spec_reverse(&self, s: u8) -> i8 {
        (s - 128) as i8
    }

    fn reverse(&self, s: u8) -> (r: i8) {
        (s as i16 - 128) as i8
    }
}

impl PixelTransform for U16Transform {
    type Original = u16;
    type Stored = i16;

    open spec fn spec_reverse(&self, s: i16) -> u16 {
        (s + 0x8000) as u16
    }

    fn reverse(&self, s: i16) -> (r: u16) {
        (s as i32 + 0x8000) as u16
    }
}

impl PixelTransform for U32Transform {
    type Original = u32;
    type Stored = i32;

    open spec fn spec_reverse(&self, s: i32) -> u32 {
        (s + 0x8000_0000) as u32
    }

    fn reverse(&self, s: i32) -> (r: u32) {
        (s as i64 + 0x8000_0000) as u32
    }
}

impl PixelTransform for U64Transform {
    type Original = u64;
    type Stored = i64;

    open spec fn spec_reverse(&self, s: i64) -> u64 {
        (s + 0x8000_0000_0000_0000) as u64
    }

    fn reverse(&self, s: i64) -> (r: u64) {
        if s >= 0 {
            s as u64 + 0x8000_0000_0000_0000
        } else {
            (s - i64::MIN) as u64
        }
    }
}

/// The stored form of a signed byte pixel.
pub open spec fn i8_stored(o: i8) -> u8 {
    (o + 128) as u8
}

/// The stored form of an unsigned 16-bit pixel.
pub open spec fn u16_stored(o: u16) -> i16 {
    (o - 0x8000) as i16
}

/// The stored form of an unsigned 32-bit pixel.
pub open spec fn u32_stored(o: u32) -> i32 {
    (o - 0x8000_0000) as i32
}

/// The stored form of an unsigned 64-bit pixel.
pub open spec fn u64_stored(o: u64) -> i64 {
    (o - 0x8000_0000_0000_0000) as i64
}

/// Each sign-bias transform adds its bias without ever leaving the target
/// type, so it is a bijection: storing a pixel and reversing gives the pixel,
/// and reversing a stored value and storing it again gives the stored value.
pub proof fn lemma_sign_bias_bijection()
    ensures
        forall|s: u8| #[trigger] i8_stored(I8Transform().spec_reverse(s)) == s,
        forall|o: i8| #[trigger] I8Transform().spec_reverse(i8_stored(o)) == o,
        forall|s: i16| #[trigger] u16_stored(U16Transform().spec_reverse(s)) == s,
        forall|o: u16| #[trigger] U16Transform().spec_reverse(u16_stored(o)) == o,
        forall|s: i32| #[trigger] u32_stored(U32Transform().spec_reverse(s)) == s,
        forall|o: u32| #[trigger] U32Transform().spec_reverse(u32_stored(o)) == o,
        forall|s: i64| #[trigger] u64_stored(U64Transform().spec_reverse(s)) == s,
        forall|o: u64| #[trigger] U64Transform().spec_reverse(u64_stored(o)) == o,
{
}

/// An integer type that quantized floats may be stored as.
pub trait StoredInteger: ReadBigEndian + Copy {
    /// The integer's value.
    spec fn int_value(self) -> int;

    fn to_i64(self) -> (r: i64)
        ensures
            r as int == self.int_value(),
    ;

    /// Distinct integers have distinct values.
    proof fn lemma_int_value_injective(a: Self, b: Self)
        ensures
            a.int_value() == b.int_value() <==> a == b,
    ;
}

impl StoredInteger for u8 {
    open spec fn int_value(self) -> int {
        self as int
    }

    fn to_i64(self) -> (r: i64) {
        self as i64
    }

    proof fn lemma_int_value_injective(a: u8, b: u8) {
    }
}

impl StoredInteger for i16 {
    open spec fn int_value(self) -> int {
        self as int
    }

    fn to_i64(self) -> (r: i64) {
        self as i64
    }

    proof fn lemma_int_value_injective(a: i16, b: i16) {
    }
}

impl StoredInteger for i32 {
    open spec fn int_value(self) -> int {
        self as int
    }

    fn to_i64(self) -> (r: i64) {
        self as i64
    }

    proof fn lemma_int_value_injective(a: i32, b: i32) {
    }
}

impl StoredInteger for i64 {
    open spec fn int_value(self) -> int {
        self as int
    }

    fn to_i64(self) -> (r: i64) {
        self
    }

    proof fn lemma_int_value_injective(a: i64, b: i64) {
    }
}

/// A floating-point value held as its IEEE 754 bit pattern, in the width it
/// was stored with.
#[derive(Clone, Copy, Debug, PartialEq, Eq)]
pub enum RawFloat {
    F32(u32),
    F64(u64),
}

/// A stored element of a quantized image: the blank sentinel, or an integer
/// that stands for `value * scale - zero`.
#[derive(Clone, Copy, Debug, PartialEq, Eq)]
pub enum QuantizedSample {
    Blank,
    Stored(i64),
}

/// Quantization without dithering: each stored integer `s` stands for
/// `s * scale - zero`, except the blank sentinel, which stands for NaN.
#[derive(Clone, Copy, Debug)]
pub struct NoDitherQuantization<I> {
    pub zero: RawFloat,
    pub scale: RawFloat,
    pub blank: Option<I>,
}

impl<I: StoredInteger> NoDitherQuantization<I> {
    pub fn new(zero: RawFloat, scale: RawFloat, blank: Option<I>) -> (r: Self)
        ensures
            r.zero == zero,
            r.scale == scale,
            r.blank == blank,
    {
        NoDitherQuantization { zero, scale, blank }
    }
}

impl<I: StoredInteger> PixelTransform for NoDitherQuantization<I> {
    type Original = QuantizedSample;
    type Stored = I;

    open spec fn spec_reverse(&self, s: I) -> QuantizedSample {
        if self.blank == Some(s) {
            QuantizedSample::Blank
        } else {
            QuantizedSample::Stored(s.int_value() as i64)
        }
    }

    fn reverse(&self, s: I) -> (r: QuantizedSample) {
        let v = s.to_i64();
        match self.blank {
            Some(b) => {
                let bv = b.to_i64();
                proof {
                    I::lemma_int_value_injective(s, b);
                }
                if v == bv {
                    return QuantizedSample::Blank;
                }
            },
            None => {},
        }
        QuantizedSample::Stored(v)
    }
}

} // verus!
