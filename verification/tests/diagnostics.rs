use stainless_extraction::ast::{
    And, BVNot, Equals, Expr, LiteralPattern, Not, Or, Pattern, Type, UMinus, ValDef,
    WildcardPattern, BooleanLiteral,
};
use stainless_extraction::diag::{BindingIssue, Diagnostic, Issue};
use stainless_extraction::extraction::{BaseExtractor, BodyExtractor, Extraction};
use stainless_extraction::factory::Factory;
use stainless_extraction::host::{
    BinOp, BindingMode, BlockSafety, HostBlock, HostConst, HostConstVal, HostExpr, HostExprKind,
    HostFieldExpr, HostPat, HostPatKind, HostStmt, HostTy, LogicalOp, Mutability, Span, UnOp,
};
use stainless_extraction::path::symbol_path_from_def_path;

fn span(n: u32) -> Span {
    Span { lo: n, hi: n + 1 }
}

fn i32_ty() -> HostTy {
    HostTy::Int { bit_width: Some(32) }
}

fn unit_ty() -> HostTy {
    HostTy::Tuple { fields: vec![] }
}

fn expr(kind: HostExprKind, ty: HostTy, n: u32) -> HostExpr {
    HostExpr { kind, ty, span: span(n) }
}

fn number(value: u128, n: u32) -> HostExpr {
    let literal = HostConst { ty: i32_ty(), val: HostConstVal::Scalar { data: value, size: 4 } };
    expr(HostExprKind::Literal { literal }, i32_ty(), n)
}

fn truth(value: bool, n: u32) -> HostExpr {
    let literal =
        HostConst { ty: HostTy::Bool, val: HostConstVal::Scalar { data: value as u128, size: 1 } };
    expr(HostExprKind::Literal { literal }, HostTy::Bool, n)
}

fn pat(kind: HostPatKind, n: u32) -> HostPat {
    HostPat { kind, ty: i32_ty(), span: span(n) }
}

fn binding(mutability: Mutability, mode: BindingMode, subpattern: Option<HostPat>) -> HostPat {
    pat(HostPatKind::Binding { mutability, mode, var: 1, subpattern: subpattern.map(Box::new) }, 9)
}

/// The placeholder and the one diagnostic that the expression gives.
fn only_issue(host: HostExpr) -> Issue {
    let factory = Factory::new();
    let mut base = BaseExtractor::new(Extraction::new(&factory));
    let mut bx = BodyExtractor::new(&mut base);
    bx.register_var(1, vec![], "x".to_string(), Type::Untyped);
    assert!(bx.is_valid_expr(&host));
    let got = bx.extract_expr(&host);
    assert!(matches!(got, Expr::NoTree(n) if n.tpe == Type::Untyped), "{:?}", got);
    assert_eq!(bx.diagnostics().len(), 1);
    assert_eq!(bx.diagnostics()[0].span, host.span);
    bx.diagnostics()[0].issue
}

/// The wildcard without binder and the one diagnostic that the pattern gives.
fn only_pattern_issue(host: HostPat) -> Issue {
    let factory = Factory::new();
    let mut base = BaseExtractor::new(Extraction::new(&factory));
    let mut bx = BodyExtractor::new(&mut base);
    bx.register_var(1, vec![], "x".to_string(), Type::Untyped);
    assert!(bx.is_valid_pattern(&host, false));
    let got = bx.extract_pattern(&host, None);
    assert_eq!(got, Pattern::WildcardPattern(&WildcardPattern { binder: None }));
    assert_eq!(bx.diagnostics().len(), 1);
    assert_eq!(bx.diagnostics()[0].span, host.span);
    bx.diagnostics()[0].issue
}

#[test]
fn expressions_that_cannot_be_extracted_become_the_placeholder() {
    let odd = HostConst { ty: i32_ty(), val: HostConstVal::Other };
    assert_eq!(
        only_issue(expr(HostExprKind::Literal { literal: odd }, i32_ty(), 1)),
        Issue::Literal
    );
    let unsafe_block =
        HostBlock { safety_mode: BlockSafety::Unsafe, stmts: vec![], expr: None };
    assert_eq!(
        only_issue(expr(HostExprKind::Block { body: unsafe_block }, unit_ty(), 2)),
        Issue::UnsafeBlock
    );
    assert_eq!(only_issue(expr(HostExprKind::Other, unit_ty(), 3)), Issue::ExprKind);
    let negated_truth = HostExprKind::Unary { op: UnOp::Neg, arg: Box::new(truth(true, 0)) };
    assert_eq!(only_issue(expr(negated_truth, HostTy::Bool, 4)), Issue::UnaryOp);
    let negated_text = HostExprKind::Unary {
        op: UnOp::Not,
        arg: Box::new(expr(HostExprKind::VarRef { id: 1 }, HostTy::Str, 0)),
    };
    assert_eq!(only_issue(expr(negated_text, HostTy::Str, 4)), Issue::UnaryOp);
    for op in [BinOp::Rem, BinOp::BitXor, BinOp::BitAnd, BinOp::BitOr, BinOp::Shl, BinOp::Shr] {
        let kind =
            HostExprKind::Binary { op, lhs: Box::new(number(1, 0)), rhs: Box::new(number(2, 0)) };
        assert_eq!(only_issue(expr(kind, i32_ty(), 5)), Issue::BinaryOp);
    }
    let sum_of_truths = HostExprKind::Binary {
        op: BinOp::Add,
        lhs: Box::new(truth(true, 0)),
        rhs: Box::new(truth(false, 0)),
    };
    assert_eq!(only_issue(expr(sum_of_truths, HostTy::Bool, 5)), Issue::BinaryOp);
    let indirect = HostExprKind::Call { ty: HostTy::Other, args: vec![number(1, 0)] };
    assert_eq!(only_issue(expr(indirect, i32_ty(), 6)), Issue::IndirectCall);
    let unknown = HostExprKind::Call { ty: HostTy::FnDef { def: 77 }, args: vec![number(1, 0)] };
    assert_eq!(only_issue(expr(unknown, i32_ty(), 7)), Issue::UnresolvedCallee);
    let record = |base: Option<HostExpr>| HostExprKind::Adt {
        adt_def: 55,
        variant_index: 0,
        fields: vec![HostFieldExpr { name: 0, expr: number(1, 0) }],
        base: base.map(Box::new),
    };
    assert_eq!(only_issue(expr(record(None), HostTy::Adt { def: 55 }, 8)), Issue::UnresolvedAdt);
    assert_eq!(
        only_issue(expr(record(Some(number(1, 0))), HostTy::Adt { def: 55 }, 9)),
        Issue::AdtWithBase
    );
    let field = HostExprKind::Field {
        lhs: Box::new(expr(HostExprKind::VarRef { id: 1 }, HostTy::Adt { def: 55 }, 0)),
        name: 0,
    };
    assert_eq!(only_issue(expr(field, i32_ty(), 10)), Issue::UnresolvedAdt);
}

#[test]
fn patterns_that_cannot_be_extracted_become_the_wildcard() {
    assert_eq!(
        only_pattern_issue(binding(Mutability::Mut, BindingMode::ByValue, None)),
        Issue::PatternBinding(BindingIssue::Mutable)
    );
    assert_eq!(
        only_pattern_issue(binding(Mutability::Not, BindingMode::ByRef, None)),
        Issue::PatternBinding(BindingIssue::ByReference)
    );
    let odd = HostConst { ty: i32_ty(), val: HostConstVal::Other };
    assert_eq!(
        only_pattern_issue(pat(HostPatKind::Constant { value: odd }, 1)),
        Issue::PatternLiteral
    );
    assert_eq!(only_pattern_issue(pat(HostPatKind::Other, 2)), Issue::PatternKind);
    let variant =
        HostPatKind::Variant { adt_def: 55, variant_index: 1, subpatterns: vec![] };
    assert_eq!(only_pattern_issue(pat(variant, 3)), Issue::UnresolvedAdt);
}

fn issue_of_binding_statement(pattern: HostPat, initializer: Option<HostExpr>) -> Issue {
    let body = HostBlock {
        safety_mode: BlockSafety::Safe,
        stmts: vec![HostStmt::Let { pattern, initializer }],
        expr: None,
    };
    let factory = Factory::new();
    let mut base = BaseExtractor::new(Extraction::new(&factory));
    let mut bx = BodyExtractor::new(&mut base);
    bx.register_var(1, vec![], "x".to_string(), Type::Untyped);
    let host = expr(HostExprKind::Block { body }, unit_ty(), 0);
    assert!(bx.is_valid_expr(&host));
    let got = bx.extract_expr(&host);
    assert!(matches!(got, Expr::NoTree(_)), "{:?}", got);
    assert_eq!(bx.diagnostics().len(), 1);
    assert_eq!(bx.diagnostics()[0].span, span(9));
    bx.diagnostics()[0].issue
}

#[test]
fn bindings_that_cannot_be_extracted_end_their_block() {
    let some = || Some(number(1, 0));
    assert_eq!(
        issue_of_binding_statement(binding(Mutability::Mut, BindingMode::ByValue, None), some()),
        Issue::LetPattern(BindingIssue::Mutable)
    );
    assert_eq!(
        issue_of_binding_statement(binding(Mutability::Not, BindingMode::ByRef, None), some()),
        Issue::LetPattern(BindingIssue::ByReference)
    );
    let with_subpattern =
        binding(Mutability::Not, BindingMode::ByValue, Some(pat(HostPatKind::Wild, 0)));
    assert_eq!(
        issue_of_binding_statement(with_subpattern, some()),
        Issue::LetPattern(BindingIssue::Subpattern)
    );
    assert_eq!(
        issue_of_binding_statement(pat(HostPatKind::Wild, 9), some()),
        Issue::LetPattern(BindingIssue::NotABinding)
    );
    assert_eq!(
        issue_of_binding_statement(binding(Mutability::Not, BindingMode::ByValue, None), None),
        Issue::LetWithoutInitializer
    );
}

#[test]
fn children_report_before_their_parent() {
    let factory = Factory::new();
    let mut base = BaseExtractor::new(Extraction::new(&factory));
    let mut bx = BodyExtractor::new(&mut base);
    let kind = HostExprKind::Binary {
        op: BinOp::Rem,
        lhs: Box::new(expr(HostExprKind::Other, i32_ty(), 1)),
        rhs: Box::new(expr(HostExprKind::Other, i32_ty(), 2)),
    };
    let host = expr(kind, i32_ty(), 3);
    assert!(bx.is_valid_expr(&host));
    bx.extract_expr(&host);
    assert_eq!(
        bx.diagnostics(),
        &vec![
            Diagnostic { span: span(1), issue: Issue::ExprKind },
            Diagnostic { span: span(2), issue: Issue::ExprKind },
            Diagnostic { span: span(3), issue: Issue::BinaryOp }
        ]
    );
}

#[test]
fn operators_become_their_nodes() {
    let factory = Factory::new();
    let mut base = BaseExtractor::new(Extraction::new(&factory));
    let mut bx = BodyExtractor::new(&mut base);
    let t = Expr::BooleanLiteral(factory.allocate(BooleanLiteral { value: true }));
    let f = Expr::BooleanLiteral(factory.allocate(BooleanLiteral { value: false }));
    let one = Expr::BVLiteral(factory.Int32Literal(1));

    let unary = |op: UnOp, arg: HostExpr, ty: HostTy| {
        expr(HostExprKind::Unary { op, arg: Box::new(arg) }, ty, 0)
    };
    assert_eq!(
        bx.extract_expr(&unary(UnOp::Not, truth(true, 0), HostTy::Bool)),
        Expr::Not(&Not { expr: t })
    );
    assert_eq!(
        bx.extract_expr(&unary(UnOp::Not, number(1, 0), i32_ty())),
        Expr::BVNot(&BVNot { e: one })
    );
    assert_eq!(
        bx.extract_expr(&unary(UnOp::Neg, number(1, 0), i32_ty())),
        Expr::UMinus(&UMinus { expr: one })
    );

    let logical = |op: LogicalOp| {
        let kind =
            HostExprKind::LogicalOp { op, lhs: Box::new(truth(true, 0)), rhs: Box::new(truth(false, 0)) };
        expr(kind, HostTy::Bool, 0)
    };
    assert_eq!(bx.extract_expr(&logical(LogicalOp::And)), Expr::And(&And { exprs: vec![t, f] }));
    assert_eq!(bx.extract_expr(&logical(LogicalOp::Or)), Expr::Or(&Or { exprs: vec![t, f] }));

    let compare = |op: BinOp| {
        let kind =
            HostExprKind::Binary { op, lhs: Box::new(truth(true, 0)), rhs: Box::new(truth(false, 0)) };
        expr(kind, HostTy::Bool, 0)
    };
    let equals = Expr::Equals(factory.allocate(Equals { lhs: t, rhs: f }));
    assert_eq!(bx.extract_expr(&compare(BinOp::Eq)), equals);
    assert_eq!(bx.extract_expr(&compare(BinOp::Ne)), Expr::Not(&Not { expr: equals }));
    assert!(bx.diagnostics().is_empty());
}

#[test]
fn binding_hands_its_variable_to_its_subpattern() {
    let factory = Factory::new();
    let mut base = BaseExtractor::new(Extraction::new(&factory));
    let mut bx = BodyExtractor::new(&mut base);
    let x = bx.register_var(1, vec![], "x".to_string(), Type::BooleanType);
    let vd: &ValDef = factory.allocate(ValDef { v: x });

    let alone = binding(Mutability::Not, BindingMode::ByValue, None);
    assert_eq!(
        bx.extract_pattern(&alone, None),
        Pattern::WildcardPattern(&WildcardPattern { binder: Some(vd) })
    );

    let constant = HostConst { ty: HostTy::Bool, val: HostConstVal::Scalar { data: 1, size: 1 } };
    let literal = pat(HostPatKind::Constant { value: constant }, 0);
    let with_literal = binding(Mutability::Not, BindingMode::ByValue, Some(literal));
    assert!(bx.is_valid_pattern(&with_literal, false));
    assert_eq!(
        bx.extract_pattern(&with_literal, None),
        Pattern::LiteralPattern(&LiteralPattern {
            binder: Some(vd),
            lit: Expr::BooleanLiteral(&BooleanLiteral { value: true })
        })
    );

    let nested = binding(
        Mutability::Not,
        BindingMode::ByValue,
        Some(binding(Mutability::Not, BindingMode::ByValue, None)),
    );
    assert!(!bx.is_valid_pattern(&nested, false));
    assert!(!bx.is_valid_pattern(&alone, true));
}

#[test]
fn qualified_paths_are_split_at_their_separators() {
    let split = |s: &str| symbol_path_from_def_path(s);
    assert_eq!(split("demo::Maybe::Just"), vec!["demo", "Maybe", "Just"]);
    assert_eq!(split("fact"), vec!["fact"]);
    assert_eq!(split(""), vec![""]);
    assert_eq!(split("a::"), vec!["a", ""]);
    assert_eq!(split("::a"), vec!["", "a"]);
    assert_eq!(split("a:::b"), vec!["a", ":b"]);
    assert_eq!(split("a:b"), vec!["a:b"]);
    assert_eq!(split("é::ü"), vec!["é", "ü"]);
}
