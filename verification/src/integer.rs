use crate::decimal::{i64_text, int_text, u64_text};
use vstd::prelude::*;
use vstd::std_specs::convert::FromSpecImpl;

verus! {

#[derive(Copy, Clone, Debug, PartialEq)]
enum IntPriv {
    /// Never less than zero.
    PosInt(u64),
    /// Always less than zero.
    NegInt(i64),
}

/// An integer from `-(2^63)` up to `(2^64)-1`, signed or unsigned.
#[derive(Copy, Clone, Debug, PartialEq)]
pub struct Integer {
    n: IntPriv,
}

/// `num_traits::NumCast::from`, from `u64` to `i64`: the same number where it is
/// at most `i64::MAX`, and nothing where it is greater.
#[verifier::external_body]
fn cast_u64_to_i64(n: u64) -> (r: Option<i64>)
    ensures
        r == (if n <= 0x7fff_ffff_ffff_ffff {
            Some(n as i64)
        } else {
            None
        }),
{
    num_traits::NumCast::from(n)
}

/// `num_traits::NumCast::from`, from `i64` to `u64`: the same number where it is
/// not negative, and nothing where it is.
#[verifier::external_body]
fn cast_i64_to_u64(n: i64) -> (r: Option<u64>)
    ensures
        r == (if 0 <= n {
            Some(n as u64)
        } else {
            None
        }),
{
    num_traits::NumCast::from(n)
}

impl Integer {
    #[verifier::type_invariant]
    spec fn well_formed(self) -> bool {
        self.n matches IntPriv::NegInt(v) ==> v < 0
    }

    /// The number that this integer stands for.
    pub closed spec fn value(&self) -> int {
        match self.n {
            IntPriv::PosInt(v) => v as int,
            IntPriv::NegInt(v) => v as int,
        }
    }

    /// Whether the integer can be held in an `i64`.
    pub fn is_i64(&self) -> (r: bool)
        ensures
            r == (self.value() <= i64::MAX),
    {
        match self.n {
            IntPriv::PosInt(n) => n <= 0x7fff_ffff_ffff_ffff,
            IntPriv::NegInt(_) => true,
        }
    }

    /// Whether the integer can be held in a `u64`.
    pub fn is_u64(&self) -> (r: bool)
        ensures
            r == (0 <= self.value()),
    {
        proof {
            use_type_invariant(self);
        }
        match self.n {
            IntPriv::PosInt(_) => true,
            IntPriv::NegInt(_) => false,
        }
    }

    /// The integer as an `i64` where it can be held in one.
    pub fn as_i64(&self) -> (r: Option<i64>)
        ensures
            r == (if self.value() <= i64::MAX {
                Some(self.value() as i64)
            } else {
                None
            }),
    {
        match self.n {
            IntPriv::PosInt(n) => cast_u64_to_i64(n),
            IntPriv::NegInt(n) => Some(n),
        }
    }

    /// The integer as a `u64` where it can be held in one.
    pub fn as_u64(&self) -> (r: Option<u64>)
        ensures
            r == (if 0 <= self.value() {
                Some(self.value() as u64)
            } else {
                None
            }),
    {
        match self.n {
            IntPriv::PosInt(n) => Some(n),
            IntPriv::NegInt(n) => cast_i64_to_u64(n),
        }
    }

    /// The integer as a 128-bit number, which holds every one of them.
    pub fn to_i128(&self) -> (r: i128)
        ensures
            r == self.value(),
            -0x8000_0000_0000_0000 <= r <= 0xffff_ffff_ffff_ffff,
    {
        match self.n {
            IntPriv::PosInt(n) => n as i128,
            IntPriv::NegInt(n) => n as i128,
        }
    }

    /// The integer that stands for `v`, where `v` lies in the range.
    pub fn from_i128(v: i128) -> (r: Option<Integer>)
        ensures
            r matches Some(i) ==> i.value() == v,
            r is Some <==> -0x8000_0000_0000_0000 <= v <= 0xffff_ffff_ffff_ffff,
    {
        if v < -0x8000_0000_0000_0000 || v > 0xffff_ffff_ffff_ffff {
            None
        } else if v < 0 {
            Some(Integer { n: IntPriv::NegInt(v as i64) })
        } else {
            Some(Integer { n: IntPriv::PosInt(v as u64) })
        }
    }

    /// The decimal text of the integer.
    pub fn to_text(&self) -> (r: Vec<u8>)
        ensures
            r@ == int_text(self.value()),
    {
        match self.n {
            IntPriv::PosInt(v) => u64_text(v),
            IntPriv::NegInt(v) => {
                proof {
                    use_type_invariant(self);
                }
                i64_text(v)
            },
        }
    }
}

impl From<u8> for Integer {
    fn from(n: u8) -> (r: Integer)
        ensures
            r.value() == n,
    {
        Integer { n: IntPriv::PosInt(n as u64) }
    }
}

impl FromSpecImpl<u8> for Integer {
    closed spec fn obeys_from_spec() -> bool {
        true
    }

    closed spec fn from_spec(n: u8) -> Integer {
        Integer { n: IntPriv::PosInt(n as u64) }
    }
}

impl From<u16> for Integer {
    fn from(n: u16) -> (r: Integer)
        ensures
            r.value() == n,
    {
        Integer { n: IntPriv::PosInt(n as u64) }
    }
}

impl FromSpecImpl<u16> for Integer {
    closed spec fn obeys_from_spec() -> bool {
        true
    }

    closed spec fn from_spec(n: u16) -> Integer {
        Integer { n: IntPriv::PosInt(n as u64) }
    }
}

impl From<u32> for Integer {
    fn from(n: u32) -> (r: Integer)
        ensures
            r.value() == n,
    {
        Integer { n: IntPriv::PosInt(n as u64) }
    }
}

impl FromSpecImpl<u32> for Integer {
    closed spec fn obeys_from_spec() -> bool {
        true
    }

    closed spec fn from_spec(n: u32) -> Integer {
        Integer { n: IntPriv::PosInt(n as u64) }
    }
}

impl From<u64> for Integer {
    fn from(n: u64) -> (r: Integer)
        ensures
            r.value() == n,
    {
        Integer { n: IntPriv::PosInt(n as u64) }
    }
}

impl FromSpecImpl<u64> for Integer {
    closed spec fn obeys_from_spec() -> bool {
        true
    }

    closed spec fn from_spec(n: u64) -> Integer {
        Integer { n: IntPriv::PosInt(n as u64) }
    }
}

impl From<usize> for Integer {
    fn from(n: usize) -> (r: Integer)
        ensures
            r.value() == n,
    {
        Integer { n: IntPriv::PosInt(n as u64) }
    }
}

impl FromSpecImpl<usize> for Integer {
    closed spec fn obeys_from_spec() -> bool {
        true
    }

    closed spec fn from_spec(n: usize) -> Integer {
        Integer { n: IntPriv::PosInt(n as u64) }
    }
}

impl From<i8> for Integer {
    fn from(n: i8) -> (r: Integer)
        ensures
            r.value() == n,
    {
        if n < 0 {
            Integer { n: IntPriv::NegInt(n as i64) }
        } else {
            Integer { n: IntPriv::PosInt(n as u64) }
        }
    }
}

impl FromSpecImpl<i8> for Integer {
    closed spec fn obeys_from_spec() -> bool {
        true
    }

    closed spec fn from_spec(n: i8) -> Integer {
        if n < 0 {
            Integer { n: IntPriv::NegInt(n as i64) }
        } else {
            Integer { n: IntPriv::PosInt(n as u64) }
        }
    }
}

impl From<i16> for Integer {
    fn from(n: i16) -> (r: Integer)
        ensures
            r.value() == n,
    {
        if n < 0 {
            Integer { n: IntPriv::NegInt(n as i64) }
        } else {
            Integer { n: IntPriv::PosInt(n as u64) }
        }
    }
}

impl FromSpecImpl<i16> for Integer {
    closed spec fn obeys_from_spec() -> bool {
        true
    }

    closed spec fn from_spec(n: i16) -> Integer {
        if n < 0 {
            Integer { n: IntPriv::NegInt(n as i64) }
        } else {
            Integer { n: IntPriv::PosInt(n as u64) }
        }
    }
}

impl From<i32> for Integer {
    fn from(n: i32) -> (r: Integer)
        ensures
            r.value() == n,
    {
        if n < 0 {
            Integer { n: IntPriv::NegInt(n as i64) }
        } else {
            Integer { n: IntPriv::PosInt(n as u64) }
        }
    }
}

impl FromSpecImpl<i32> for Integer {
    closed spec fn obeys_from_spec() -> bool {
        true
    }

    closed spec fn from_spec(n: i32) -> Integer {
        if n < 0 {
            Integer { n: IntPriv::NegInt(n as i64) }
        } else {
            Integer { n: IntPriv::PosInt(n as u64) }
        }
    }
}

impl From<i64> for Integer {
    fn from(n: i64) -> (r: Integer)
        ensures
            r.value() == n,
    {
        if n < 0 {
            Integer { n: IntPriv::NegInt(n as i64) }
        } else {
            Integer { n: IntPriv::PosInt(n as u64) }
        }
    }
}

impl FromSpecImpl<i64> for Integer {
    closed spec fn obeys_from_spec() -> bool {
        true
    }

    closed spec fn from_spec(n: i64) -> Integer {
        if n < 0 {
            Integer { n: IntPriv::NegInt(n as i64) }
        } else {
            Integer { n: IntPriv::PosInt(n as u64) }
        }
    }
}

impl From<isize> for Integer {
    fn from(n: isize) -> (r: Integer)
        ensures
            r.value() == n,
    {
        if n < 0 {
            Integer { n: IntPriv::NegInt(n as i64) }
        } else {
            Integer { n: IntPriv::PosInt(n as u64) }
        }
    }
}

impl FromSpecImpl<isize> for Integer {
    closed spec fn obeys_from_spec() -> bool {
        true
    }

    closed spec fn from_spec(n: isize) -> Integer {
        if n < 0 {
            Integer { n: IntPriv::NegInt(n as i64) }
        } else {
            Integer { n: IntPriv::PosInt(n as u64) }
        }
    }
}

} // verus!
