//! The division factors the prescaler supports and the select codes that
//! stand for them in the control register.

use vstd::arithmetic::power2::{lemma2_to64, pow2};
use vstd::prelude::*;

verus! {

/// The largest select code that names a division factor; codes above it are
/// reserved by the hardware.
pub const MAX_SELECT_CODE: u8 = 8;

/// A division factor of the system clock: a power of two from 1 to 256.
#[derive(Clone, Copy, Debug, PartialEq, Eq, Structural)]
pub enum ClockDivisor {
    Div1,
    Div2,
    Div4,
    Div8,
    Div16,
    Div32,
    Div64,
    Div128,
    Div256,
}

/// A request named a division factor that the prescaler cannot apply.
#[derive(Clone, Copy, Debug, PartialEq, Eq, Structural)]
pub struct InvalidDivisor {
    /// The factor that was asked for.
    pub requested: u32,
}

impl ClockDivisor {
    /// The factor by which this divisor slows the system clock.
    pub open spec fn spec_factor(self) -> u32 {
        match self {
            ClockDivisor::Div1 => 1,
            ClockDivisor::Div2 => 2,
            ClockDivisor::Div4 => 4,
            ClockDivisor::Div8 => 8,
            ClockDivisor::Div16 => 16,
            ClockDivisor::Div32 => 32,
            ClockDivisor::Div64 => 64,
            ClockDivisor::Div128 => 128,
            ClockDivisor::Div256 => 256,
        }
    }

    /// The code that selects this divisor in the low four bits of the
    /// control register.
    pub open spec fn spec_select_code(self) -> u8 {
        match self {
            ClockDivisor::Div1 => 0,
            ClockDivisor::Div2 => 1,
            ClockDivisor::Div4 => 2,
            ClockDivisor::Div8 => 3,
            ClockDivisor::Div16 => 4,
            ClockDivisor::Div32 => 5,
            ClockDivisor::Div64 => 6,
            ClockDivisor::Div128 => 7,
            ClockDivisor::Div256 => 8,
        }
    }

    /// The divisor with the given factor, where there is one.
    pub open spec fn of_factor(requested: u32) -> Option<ClockDivisor> {
        if requested == 1 {
            Some(ClockDivisor::Div1)
        } else if requested == 2 {
            Some(ClockDivisor::Div2)
        } else if requested == 4 {
            Some(ClockDivisor::Div4)
        } else if requested == 8 {
            Some(ClockDivisor::Div8)
        } else if requested == 16 {
            Some(ClockDivisor::Div16)
        } else if requested == 32 {
            Some(ClockDivisor::Div32)
        } else if requested == 64 {
            Some(ClockDivisor::Div64)
        } else if requested == 128 {
            Some(ClockDivisor::Div128)
        } else if requested == 256 {
            Some(ClockDivisor::Div256)
        } else {
            None
        }
    }

    /// Whether `requested` is one of the nine factors the hardware offers.
    pub open spec fn is_legal(requested: u32) -> bool {
        Self::of_factor(requested) is Some
    }

    /// The divisor that a select code names, where it names one.
    pub open spec fn of_select_code(code: u8) -> Option<ClockDivisor> {
        if code == 0 {
            Some(ClockDivisor::Div1)
        } else if code == 1 {
            Some(ClockDivisor::Div2)
        } else if code == 2 {
            Some(ClockDivisor::Div4)
        } else if code == 3 {
            Some(ClockDivisor::Div8)
        } else if code == 4 {
            Some(ClockDivisor::Div16)
        } else if code == 5 {
            Some(ClockDivisor::Div32)
        } else if code == 6 {
            Some(ClockDivisor::Div64)
        } else if code == 7 {
            Some(ClockDivisor::Div128)
        } else if code == 8 {
            Some(ClockDivisor::Div256)
        } else {
            None
        }
    }

    /// Validates a requested division factor.
    pub fn new(requested: u32) -> (result: Result<ClockDivisor, InvalidDivisor>)
        ensures
            match Self::of_factor(requested) {
                Some(d) => result == Ok::<ClockDivisor, InvalidDivisor>(d),
                None => result matches Err(e) && e.requested == requested,
            },
            result is Ok <==> Self::is_legal(requested),
            result matches Ok(d) ==> d.spec_factor() == requested,
    {
        match requested {
            1 => Ok(ClockDivisor::Div1),
            2 => Ok(ClockDivisor::Div2),
            4 => Ok(ClockDivisor::Div4),
            8 => Ok(ClockDivisor::Div8),
            16 => Ok(ClockDivisor::Div16),
            32 => Ok(ClockDivisor::Div32),
            64 => Ok(ClockDivisor::Div64),
            128 => Ok(ClockDivisor::Div128),
            256 => Ok(ClockDivisor::Div256),
            _ => Err(InvalidDivisor { requested }),
        }
    }

    /// The factor by which this divisor slows the system clock.
    #[verifier::when_used_as_spec(spec_factor)]
    pub fn factor(self) -> (factor: u32)
        ensures
            factor == self.spec_factor(),
    {
        let code: u32 = self.select_code() as u32;
        proof {
            assert(1u32 << 0u32 == 1 && 1u32 << 1u32 == 2 && 1u32 << 2u32 == 4 && 1u32 << 3u32 == 8
                && 1u32 << 4u32 == 16 && 1u32 << 5u32 == 32 && 1u32 << 6u32 == 64 && 1u32 << 7u32
                == 128 && 1u32 << 8u32 == 256) by (bit_vector);
        }
        1u32 << code
    }

    /// The code that selects this divisor in the control register.
    #[verifier::when_used_as_spec(spec_select_code)]
    pub fn select_code(self) -> (code: u8)
        ensures
            code == self.spec_select_code(),
    {
        match self {
            ClockDivisor::Div1 => 0,
            ClockDivisor::Div2 => 1,
            ClockDivisor::Div4 => 2,
            ClockDivisor::Div8 => 3,
            ClockDivisor::Div16 => 4,
            ClockDivisor::Div32 => 5,
            ClockDivisor::Div64 => 6,
            ClockDivisor::Div128 => 7,
            ClockDivisor::Div256 => 8,
        }
    }

    /// Reads a select code back into the divisor it names.  Codes above
    /// [`MAX_SELECT_CODE`] are reserved and name none.
    pub fn from_select_code(code: u8) -> (result: Option<ClockDivisor>)
        ensures
            result == Self::of_select_code(code),
            result is Some <==> code <= MAX_SELECT_CODE,
            result matches Some(d) ==> d.spec_select_code() == code,
    {
        match code {
            0 => Some(ClockDivisor::Div1),
            1 => Some(ClockDivisor::Div2),
            2 => Some(ClockDivisor::Div4),
            3 => Some(ClockDivisor::Div8),
            4 => Some(ClockDivisor::Div16),
            5 => Some(ClockDivisor::Div32),
            6 => Some(ClockDivisor::Div64),
            7 => Some(ClockDivisor::Div128),
            8 => Some(ClockDivisor::Div256),
            _ => None,
        }
    }
}

/// A factor is legal exactly when some divisor has it, and `of_factor`
/// then names that divisor.
pub proof fn lemma_of_factor(requested: u32)
    ensures
        ClockDivisor::is_legal(requested) <==> exists|d: ClockDivisor|
            d.spec_factor() == requested,
        forall|d: ClockDivisor|
            ClockDivisor::of_factor(requested) == Some(d) <==> d.spec_factor() == requested,
{
    if let Some(d) = ClockDivisor::of_factor(requested) {
        assert(d.spec_factor() == requested);
    }
}

/// A select code names a divisor exactly when it is at most
/// `MAX_SELECT_CODE`, and `of_select_code` then names the one divisor that
/// has it.
pub proof fn lemma_of_select_code(code: u8)
    ensures
        ClockDivisor::of_select_code(code) is Some <==> code <= MAX_SELECT_CODE,
        forall|d: ClockDivisor|
            ClockDivisor::of_select_code(code) == Some(d) <==> d.spec_select_code() == code,
{
}

/// Reading a divisor's factor or select code back gives the divisor.
pub proof fn lemma_divisor_round_trip(d: ClockDivisor)
    ensures
        ClockDivisor::of_factor(d.spec_factor()) == Some(d),
        ClockDivisor::of_select_code(d.spec_select_code()) == Some(d),
{
}

/// No two divisors share a factor.
pub proof fn lemma_factors_are_unique(a: ClockDivisor, b: ClockDivisor)
    ensures
        a.spec_factor() == b.spec_factor() <==> a == b,
{
}

/// No two divisors share a select code, and every select code fits the
/// four-bit field with the reserved codes left unused.
pub proof fn lemma_select_codes_are_unique(a: ClockDivisor, b: ClockDivisor)
    ensures
        a.spec_select_code() == b.spec_select_code() <==> a == b,
        a.spec_select_code() <= MAX_SELECT_CODE,
{
}

/// The factor is two to the power of the select code.
pub proof fn lemma_factor_is_power_of_two(d: ClockDivisor)
    ensures
        d.spec_factor() == pow2(d.spec_select_code() as nat),
{
    lemma2_to64();
}

} // verus!
