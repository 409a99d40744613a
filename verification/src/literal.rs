//! Conversion of host constants to literals.
use vstd::prelude::*;
use vstd::slice::slice_subrange;
use vstd::string::*;
use vstd::utf8::{decode_utf8, valid_utf8};
use crate::ast::{BVLiteral, BooleanLiteral, Expr, Int, IntValue, StringLiteral};
use crate::factory::Factory;
use crate::host::{HostConst, HostConstVal, HostTy};
use crate::model::SpecExpr;

verus! {

/// A constant that extraction understands.
#[derive(Clone, Debug, PartialEq, Eq, Hash)]
#[allow(inconsistent_fields)]
pub enum Literal {
    Unit,
    Bool(bool),
    Int { value: i128, size: u64 },
    Uint { value: u128, size: u64 },
    String(String),
}

/// What a literal is: its string by its characters.
#[allow(inconsistent_fields)]
pub enum SpecLiteral {
    Unit,
    Bool(bool),
    Int { value: i128, size: u64 },
    Uint { value: u128, size: u64 },
    String(Seq<char>),
}

/// The conversion of a constant failed: its shape is not supported.
#[derive(Clone, Copy, Debug, PartialEq, Eq, Hash)]
pub struct UnsupportedConstant {}

impl View for Literal {
    type V = SpecLiteral;

    open spec fn view(&self) -> SpecLiteral {
        match self {
            Literal::Unit => SpecLiteral::Unit,
            Literal::Bool(b) => SpecLiteral::Bool(*b),
            Literal::Int { value, size } => SpecLiteral::Int { value: *value, size: *size },
            Literal::Uint { value, size } => SpecLiteral::Uint { value: *value, size: *size },
            Literal::String(s) => SpecLiteral::String(s@),
        }
    }
}

/// The number of bytes that hold the given number of bits.
pub open spec fn bytes_for_bits(bits: u64) -> int {
    bits / 8 + ((bits % 8) + 7) / 8
}

/// The bits of a constant: those of a scalar that occupies exactly the bytes
/// that hold `bits` bits, and of no other value.
pub open spec fn bits_of(val: HostConstVal, bits: u64) -> Option<u128> {
    match val {
        HostConstVal::Scalar { data, size } => if size == bytes_for_bits(bits) {
            Some(data)
        } else {
            None
        },
        _ => None,
    }
}

/// The literal that a constant stands for, if it stands for one: the unit
/// value, a boolean held in one bit, an integer of fixed width, which keeps
/// its bits, or a string held as UTF-8 in a range of bytes.
pub open spec fn literal_of(konst: HostConst) -> Option<SpecLiteral> {
    if konst.ty.is_unit() {
        Some(SpecLiteral::Unit)
    } else {
        match konst.ty {
            HostTy::Bool => match bits_of(konst.val, 1) {
                Some(bits) => Some(SpecLiteral::Bool(bits == 1)),
                None => None,
            },
            HostTy::Int { bit_width: Some(size) } => match bits_of(konst.val, size) {
                Some(bits) => Some(SpecLiteral::Int { value: bits as i128, size }),
                None => None,
            },
            HostTy::Uint { bit_width: Some(size) } => match bits_of(konst.val, size) {
                Some(bits) => Some(SpecLiteral::Uint { value: bits, size }),
                None => None,
            },
            HostTy::Str => match konst.val {
                HostConstVal::Slice { data, start, end } => if start <= end <= data@.len()
                    && valid_utf8(data@.subrange(start as int, end as int)) {
                    Some(SpecLiteral::String(decode_utf8(data@.subrange(start as int, end as int))))
                } else {
                    None
                },
                _ => None,
            },
            _ => None,
        }
    }
}

/// The expression that a literal becomes. An integer becomes a bit
/// vector of its width, signed or not as the literal is.
pub open spec fn st_literal(lit: SpecLiteral) -> SpecExpr {
    match lit {
        SpecLiteral::Unit => SpecExpr::UnitLiteral,
        SpecLiteral::Bool(value) => SpecExpr::BooleanLiteral { value },
        SpecLiteral::Int { value, size } => SpecExpr::BVLiteral {
            signed: true,
            value: value as int,
            size: size as Int,
        },
        SpecLiteral::Uint { value, size } => SpecExpr::BVLiteral {
            signed: false,
            value: value as int,
            size: size as Int,
        },
        SpecLiteral::String(value) => SpecExpr::StringLiteral { value },
    }
}

/// Calls `std::str::from_utf8`, which accepts exactly the byte sequences
/// that are valid UTF-8 and hands back the same bytes as a string slice.
#[verifier::external_body]
fn str_from_utf8(bytes: &[u8]) -> (r: Option<&str>)
    ensures
        r is Some <==> valid_utf8(bytes@),
        r matches Some(s) ==> s.spec_bytes() == bytes@,
{
    match std::str::from_utf8(bytes) {
        Ok(s) => Some(s),
        Err(_) => None,
    }
}

/// The bits of a scalar constant of the given width.
fn try_to_bits(val: &HostConstVal, bits: u64) -> (r: Option<u128>)
    ensures
        r == bits_of(*val, bits),
{
    match val {
        HostConstVal::Scalar { data, size } => {
            if *size == bits / 8 + ((bits % 8) + 7) / 8 {
                Some(*data)
            } else {
                None
            }
        },
        _ => None,
    }
}

impl Literal {
    /// The expression that this literal becomes.
    pub fn as_st_literal<'l>(&self, f: &'l Factory) -> (r: Expr<'l>)
        ensures
            r@ == st_literal(self@),
    {
        match self {
            Literal::Unit => f.unit(),
            Literal::Bool(value) => Expr::BooleanLiteral(
                f.allocate(BooleanLiteral { value: *value }),
            ),
            Literal::Int { value, size } => Expr::BVLiteral(
                f.allocate(
                    BVLiteral {
                        signed: true,
                        value: IntValue::from_i128(*value),
                        size: #[verifier::truncate]
                        (*size as Int),
                    },
                ),
            ),
            Literal::Uint { value, size } => Expr::BVLiteral(
                f.allocate(
                    BVLiteral {
                        signed: false,
                        value: IntValue::from_u128(*value),
                        size: #[verifier::truncate]
                        (*size as Int),
                    },
                ),
            ),
            Literal::String(value) => Expr::StringLiteral(
                f.allocate(StringLiteral { value: value.clone() }),
            ),
        }
    }

    /// Converts a host constant. It fails on every constant that stands for
    /// no literal.
    pub fn try_from(konst: &HostConst) -> (r: Result<Literal, UnsupportedConstant>)
        ensures
            match r {
                Ok(lit) => literal_of(*konst) == Some(lit@),
                Err(_) => literal_of(*konst) is None,
            },
    {
        if konst.ty.is_unit_type() {
            return Ok(Literal::Unit);
        }
        match &konst.ty {
            HostTy::Bool => match try_to_bits(&konst.val, 1) {
                Some(bits) => Ok(Literal::Bool(bits == 1)),
                None => Err(UnsupportedConstant {  }),
            },
            HostTy::Int { bit_width: Some(size) } => match try_to_bits(&konst.val, *size) {
                Some(bits) => Ok(
                    Literal::Int { value: #[verifier::truncate]
                    (bits as i128), size: *size },
                ),
                None => Err(UnsupportedConstant {  }),
            },
            HostTy::Uint { bit_width: Some(size) } => match try_to_bits(&konst.val, *size) {
                Some(bits) => Ok(Literal::Uint { value: bits, size: *size }),
                None => Err(UnsupportedConstant {  }),
            },
            HostTy::Str => match &konst.val {
                HostConstVal::Slice { data, start, end } => {
                    if *start <= *end && *end <= data.len() {
                        let bytes = slice_subrange(data.as_slice(), *start, *end);
                        match str_from_utf8(bytes) {
                            Some(s) => {
                                proof {
                                    vstd::utf8::encode_utf8_decode_utf8(s@);
                                }
                                Ok(Literal::String(String::from_str(s)))
                            },
                            None => Err(UnsupportedConstant {  }),
                        }
                    } else {
                        Err(UnsupportedConstant {  })
                    }
                },
                _ => Err(UnsupportedConstant {  }),
            },
            _ => Err(UnsupportedConstant {  }),
        }
    }
}

} // verus!
