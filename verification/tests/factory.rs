use stainless_extraction::ast::{BVLiteral, BVType, Expr, Int32Literal, Int32Type, IntValue};
use stainless_extraction::factory::Factory;

#[test]
fn int32_literal_is_signed_and_32_bits_wide() {
    let lit = Int32Literal(-7);
    assert_eq!(
        lit,
        BVLiteral { signed: true, value: IntValue { negative: true, magnitude: 7 }, size: 32 }
    );
    assert_eq!(Int32Type(), BVType { signed: true, size: 32 });
}

#[test]
fn make_and_of_one_expression_is_that_expression() {
    let f = Factory::new();
    let one = Expr::BVLiteral(f.Int32Literal(1));
    assert_eq!(f.make_and(vec![one]), one);
}
