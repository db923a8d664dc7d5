//! Integer width selection.
use vstd::prelude::*;
use crate::ir::IntegerType;

verus! {

/// The target name of a fixed-width integer type.
pub open spec fn integer_type_name(t: IntegerType) -> Seq<char> {
    match t {
        IntegerType::Int8 => "int8"@,
        IntegerType::Uint8 => "uint8"@,
        IntegerType::Int16 => "int16"@,
        IntegerType::Uint16 => "uint16"@,
        IntegerType::Int32 => "int32"@,
        IntegerType::Uint32 => "uint32"@,
        IntegerType::Int64 => "int64"@,
        IntegerType::Uint64 => "uint64"@,
        IntegerType::Unbounded => "int64"@,
    }
}

impl IntegerType {
    /// The target name of this integer type; an unbounded integer is
    /// carried as a signed 64-bit one.
    pub fn to_str(self) -> (r: &'static str)
        ensures
            r@ == integer_type_name(self),
    {
        match self {
            IntegerType::Int8 => "int8",
            IntegerType::Uint8 => "uint8",
            IntegerType::Int16 => "int16",
            IntegerType::Uint16 => "uint16",
            IntegerType::Int32 => "int32",
            IntegerType::Uint32 => "uint32",
            IntegerType::Int64 => "int64",
            IntegerType::Uint64 => "uint64",
            IntegerType::Unbounded => "int64",
        }
    }
}

/// The narrowest integer type that holds every value of `[min, max]`, or
/// the signed 64-bit fallback when a bound is missing or the range is
/// extensible. A range beyond 64 bits gets the widest type of its sign.
pub open spec fn select_width(min: Option<i128>, max: Option<i128>, extensible: bool) -> IntegerType {
    if min is None || max is None || extensible {
        IntegerType::Int64
    } else {
        let lo = min->0 as int;
        let hi = max->0 as int;
        if lo >= 0 {
            if hi <= u8::MAX {
                IntegerType::Uint8
            } else if hi <= u16::MAX {
                IntegerType::Uint16
            } else if hi <= u32::MAX {
                IntegerType::Uint32
            } else {
                IntegerType::Uint64
            }
        } else if i8::MIN <= lo && hi <= i8::MAX {
            IntegerType::Int8
        } else if i16::MIN <= lo && hi <= i16::MAX {
            IntegerType::Int16
        } else if i32::MIN <= lo && hi <= i32::MAX {
            IntegerType::Int32
        } else {
            IntegerType::Int64
        }
    }
}

/// Selects the target integer type for a PER-visible range.
pub fn int_type_token(opt_min: Option<i128>, opt_max: Option<i128>, is_extensible: bool) -> (r: String)
    ensures
        r@ == integer_type_name(select_width(opt_min, opt_max, is_extensible)),
{
    let t = match (opt_min, opt_max) {
        (Some(min), Some(max)) => {
            if is_extensible {
                IntegerType::Int64
            } else if min >= 0 {
                if max <= u8::MAX as i128 {
                    IntegerType::Uint8
                } else if max <= u16::MAX as i128 {
                    IntegerType::Uint16
                } else if max <= u32::MAX as i128 {
                    IntegerType::Uint32
                } else {
                    IntegerType::Uint64
                }
            } else if min >= i8::MIN as i128 && max <= i8::MAX as i128 {
                IntegerType::Int8
            } else if min >= i16::MIN as i128 && max <= i16::MAX as i128 {
                IntegerType::Int16
            } else if min >= i32::MIN as i128 && max <= i32::MAX as i128 {
                IntegerType::Int32
            } else {
                IntegerType::Int64
            }
        },
        _ => IntegerType::Int64,
    };
    String::from_str(t.to_str())
}

/// The number of bits of an integer type.
pub open spec fn width_bits(t: IntegerType) -> nat {
    match t {
        IntegerType::Int8 | IntegerType::Uint8 => 8,
        IntegerType::Int16 | IntegerType::Uint16 => 16,
        IntegerType::Int32 | IntegerType::Uint32 => 32,
        _ => 64,
    }
}

/// Width selection is monotonic: a range that contains another never gets
/// a narrower type than the inner one, at equal extensibility.
pub proof fn lemma_width_monotonic(min: i128, inner_min: i128, inner_max: i128, max: i128, extensible: bool)
    requires
        min <= inner_min <= inner_max <= max,
    ensures
        width_bits(select_width(Some(min), Some(max), extensible)) >= width_bits(
            select_width(Some(inner_min), Some(inner_max), extensible),
        ),
{
}

} // verus!
