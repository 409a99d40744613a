use stainless_extraction::ast::{BVLiteral, Expr, IntValue, StringLiteral};
use stainless_extraction::diag::{BindingIssue, Diagnostic, Issue};
use stainless_extraction::factory::Factory;
use stainless_extraction::host::{HostConst, HostConstVal, HostTy, Span};
use stainless_extraction::literal::{Literal, UnsupportedConstant};

fn scalar(ty: HostTy, data: u128, size: u64) -> HostConst {
    HostConst { ty, val: HostConstVal::Scalar { data, size } }
}

#[test]
fn constants_of_supported_shapes_are_converted() {
    let unit = HostConst { ty: HostTy::Tuple { fields: vec![] }, val: HostConstVal::Other };
    assert_eq!(Literal::try_from(&unit), Ok(Literal::Unit));
    assert_eq!(Literal::try_from(&scalar(HostTy::Bool, 1, 1)), Ok(Literal::Bool(true)));
    assert_eq!(Literal::try_from(&scalar(HostTy::Bool, 0, 1)), Ok(Literal::Bool(false)));
    assert_eq!(
        Literal::try_from(&scalar(HostTy::Int { bit_width: Some(32) }, 7, 4)),
        Ok(Literal::Int { value: 7, size: 32 })
    );
    assert_eq!(
        Literal::try_from(&scalar(HostTy::Int { bit_width: Some(8) }, 0xff, 1)),
        Ok(Literal::Int { value: 255, size: 8 })
    );
    assert_eq!(
        Literal::try_from(&scalar(HostTy::Int { bit_width: Some(128) }, u128::MAX, 16)),
        Ok(Literal::Int { value: -1, size: 128 })
    );
    assert_eq!(
        Literal::try_from(&scalar(HostTy::Uint { bit_width: Some(64) }, u64::MAX as u128, 8)),
        Ok(Literal::Uint { value: u64::MAX as u128, size: 64 })
    );
    let text = HostConst {
        ty: HostTy::Str,
        val: HostConstVal::Slice { data: "xhé!".as_bytes().to_vec(), start: 1, end: 4 },
    };
    assert_eq!(Literal::try_from(&text), Ok(Literal::String("hé".to_string())));
}

#[test]
fn constants_of_other_shapes_are_not_converted() {
    let failure = Err(UnsupportedConstant {});
    assert_eq!(Literal::try_from(&scalar(HostTy::Int { bit_width: None }, 7, 8)), failure);
    assert_eq!(Literal::try_from(&scalar(HostTy::Int { bit_width: Some(32) }, 7, 8)), failure);
    assert_eq!(Literal::try_from(&scalar(HostTy::Bool, 1, 4)), failure);
    assert_eq!(Literal::try_from(&scalar(HostTy::Other, 1, 4)), failure);
    assert_eq!(Literal::try_from(&scalar(HostTy::Adt { def: 3 }, 1, 4)), failure);
    let bool_without_bits = HostConst { ty: HostTy::Bool, val: HostConstVal::Other };
    assert_eq!(Literal::try_from(&bool_without_bits), failure);
    let slice = |data: &[u8], start, end| HostConst {
        ty: HostTy::Str,
        val: HostConstVal::Slice { data: data.to_vec(), start, end },
    };
    assert_eq!(Literal::try_from(&slice(b"abc", 2, 1)), failure);
    assert_eq!(Literal::try_from(&slice(b"abc", 0, 4)), failure);
    assert_eq!(Literal::try_from(&slice(&[0x61, 0xff], 0, 2)), failure);
    assert_eq!(Literal::try_from(&slice(&[0xc3, 0xa9], 0, 1)), failure);
}

#[test]
fn literals_become_expressions() {
    let f = Factory::new();
    let signed = Literal::Int { value: -5, size: 16 }.as_st_literal(&f);
    assert_eq!(
        signed,
        Expr::BVLiteral(&BVLiteral {
            signed: true,
            value: IntValue { negative: true, magnitude: 5 },
            size: 16
        })
    );
    let unsigned = Literal::Uint { value: u128::MAX, size: 128 }.as_st_literal(&f);
    assert_eq!(
        unsigned,
        Expr::BVLiteral(&BVLiteral {
            signed: false,
            value: IntValue { negative: false, magnitude: u128::MAX },
            size: 128
        })
    );
    let least = Literal::Int { value: i128::MIN, size: 128 }.as_st_literal(&f);
    assert_eq!(
        least,
        Expr::BVLiteral(&BVLiteral {
            signed: true,
            value: IntValue { negative: true, magnitude: 1 << 127 },
            size: 128
        })
    );
    let text = Literal::String("hé".to_string()).as_st_literal(&f);
    assert_eq!(text, Expr::StringLiteral(&StringLiteral { value: "hé".to_string() }));
    assert!(matches!(Literal::Unit.as_st_literal(&f), Expr::UnitLiteral(_)));
    assert!(matches!(Literal::Bool(true).as_st_literal(&f), Expr::BooleanLiteral(b) if b.value));
}

#[test]
fn diagnostics_have_messages() {
    let d = Diagnostic { span: Span { lo: 1, hi: 2 }, issue: Issue::Literal };
    assert_eq!(d.message(), "Unsupported tree: Unsupported kind of literal");
    assert_eq!(
        Issue::LetPattern(BindingIssue::Mutable).message(),
        "Cannot extract complex pattern in let: Mutable bindings are not supported"
    );
    assert_eq!(
        Issue::PatternBinding(BindingIssue::Subpattern).message(),
        "Unsupported pattern binding: Subpatterns are not supported here"
    );
    assert_eq!(BindingIssue::NotABinding.as_str(), "Expected a top-level binding");
}
