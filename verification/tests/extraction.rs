use stainless_extraction::ast::{
    ADTConstructor, ADTPattern, ADTSort, Block, Expr, FunctionInvocation, IfExpr, Let, MatchCase,
    MatchExpr, Pattern, SymbolIdentifier, Type, UnitLiteral, ValDef, Variable, WildcardPattern,
    LiteralPattern, BooleanLiteral, NoTree, Plus, TupleSelect, ADTSelector, ADT,
};
use stainless_extraction::diag::{BindingIssue, Diagnostic, Issue};
use stainless_extraction::extraction::{BaseExtractor, BodyExtractor, Extraction};
use stainless_extraction::factory::Factory;
use stainless_extraction::host::{
    BinOp, BindingMode, BlockSafety, HostArm, HostBlock, HostConst, HostConstVal, HostExpr,
    HostExprKind, HostFieldExpr, HostFieldPat, HostPat, HostPatKind, HostStmt, HostTy, Mutability,
    Span,
};

fn span(n: u32) -> Span {
    Span { lo: n, hi: n + 1 }
}

fn i32_ty() -> HostTy {
    HostTy::Int { bit_width: Some(32) }
}

fn unit_ty() -> HostTy {
    HostTy::Tuple { fields: vec![] }
}

fn expr(kind: HostExprKind, ty: HostTy, n: u32) -> HostExpr {
    HostExpr { kind, ty, span: span(n) }
}

fn int_lit(value: u128, n: u32) -> HostExpr {
    let literal = HostConst { ty: i32_ty(), val: HostConstVal::Scalar { data: value, size: 4 } };
    expr(HostExprKind::Literal { literal }, i32_ty(), n)
}

fn boolean(value: bool) -> HostConst {
    HostConst { ty: HostTy::Bool, val: HostConstVal::Scalar { data: value as u128, size: 1 } }
}

fn var(id: u64, ty: HostTy, n: u32) -> HostExpr {
    expr(HostExprKind::VarRef { id }, ty, n)
}

fn pat(kind: HostPatKind, ty: HostTy, n: u32) -> HostPat {
    HostPat { kind, ty, span: span(n) }
}

fn binding(var: u64, ty: HostTy, n: u32) -> HostPat {
    pat(
        HostPatKind::Binding {
            mutability: Mutability::Not,
            mode: BindingMode::ByValue,
            var,
            subpattern: None,
        },
        ty,
        n,
    )
}

fn block(stmts: Vec<HostStmt>, value: Option<HostExpr>, ty: HostTy, n: u32) -> HostExpr {
    let body = HostBlock { safety_mode: BlockSafety::Safe, stmts, expr: value.map(Box::new) };
    expr(HostExprKind::Block { body }, ty, n)
}

fn conditional(second: HostPatKind, else_body: HostExpr) -> HostExpr {
    let arms = vec![
        HostArm {
            pattern: pat(HostPatKind::Constant { value: boolean(true) }, HostTy::Bool, 1),
            guard: None,
            body: int_lit(1, 2),
        },
        HostArm { pattern: pat(second, HostTy::Bool, 3), guard: None, body: else_body },
    ];
    expr(
        HostExprKind::Match { scrutinee: Box::new(var(7, HostTy::Bool, 0)), arms },
        i32_ty(),
        9,
    )
}

fn body_with_condition<'l>(factory: &'l Factory) -> (BodyExtractor<'l>, &'l Variable<'l>) {
    let mut base = BaseExtractor::new(Extraction::new(factory));
    let mut bx = BodyExtractor::new(&mut base);
    let c = bx.register_var(7, vec!["main".to_string()], "c".to_string(), Type::BooleanType);
    (bx, c)
}

#[test]
fn match_on_true_and_wildcard_is_a_conditional() {
    let factory = Factory::new();
    let (mut bx, c) = body_with_condition(&factory);
    let host = conditional(HostPatKind::Wild, int_lit(2, 4));
    assert!(bx.is_valid_expr(&host));
    let got = bx.extract_expr(&host);
    let expected = Expr::IfExpr(factory.allocate(IfExpr {
        cond: Expr::Variable(c),
        thenn: Expr::BVLiteral(factory.Int32Literal(1)),
        elze: Expr::BVLiteral(factory.Int32Literal(2)),
    }));
    assert_eq!(got, expected);
    assert!(bx.diagnostics().is_empty());
}

#[test]
fn conditional_without_else_gets_the_unit_value() {
    let factory = Factory::new();
    let (mut bx, c) = body_with_condition(&factory);
    let empty = block(vec![], None, unit_ty(), 4);
    let scoped = expr(HostExprKind::Scope { value: Box::new(empty) }, unit_ty(), 5);
    let host = conditional(HostPatKind::Wild, scoped);
    assert!(bx.is_valid_expr(&host));
    let got = bx.extract_expr(&host);
    let expected = Expr::IfExpr(factory.allocate(IfExpr {
        cond: Expr::Variable(c),
        thenn: Expr::BVLiteral(factory.Int32Literal(1)),
        elze: Expr::UnitLiteral(factory.allocate(UnitLiteral {})),
    }));
    assert_eq!(got, expected);
}

#[test]
fn match_on_true_and_false_stays_a_match() {
    let factory = Factory::new();
    let (mut bx, c) = body_with_condition(&factory);
    let host = conditional(HostPatKind::Constant { value: boolean(false) }, int_lit(2, 4));
    assert!(bx.is_valid_expr(&host));
    let got = bx.extract_expr(&host);
    let literal = |value: bool| {
        Pattern::LiteralPattern(factory.allocate(LiteralPattern {
            binder: None,
            lit: Expr::BooleanLiteral(factory.allocate(BooleanLiteral { value })),
        }))
    };
    let case_true: &MatchCase =
        factory.MatchCase(literal(true), None, Expr::BVLiteral(factory.Int32Literal(1)));
    let case_false: &MatchCase =
        factory.MatchCase(literal(false), None, Expr::BVLiteral(factory.Int32Literal(2)));
    let expected = Expr::MatchExpr(factory.allocate(MatchExpr {
        scrutinee: Expr::Variable(c),
        cases: vec![case_true, case_false],
    }));
    assert_eq!(got, expected);
    assert!(matches!(got, Expr::MatchExpr(_)));
}

#[test]
fn statements_between_bindings_are_grouped_into_one_block() {
    let factory = Factory::new();
    let mut base = BaseExtractor::new(Extraction::new(&factory));
    let f_id = base.register_def(10, vec!["demo".to_string(), "f".to_string()]);
    let mut bx = BodyExtractor::new(&mut base);
    let int32 = Type::BVType(factory.Int32Type());
    let x = bx.register_var(1, vec!["main".to_string()], "x".to_string(), int32);
    let y = bx.register_var(2, vec!["main".to_string()], "y".to_string(), int32);

    // let x = 1; f(x); let y = 2; y
    let call = expr(
        HostExprKind::Call { ty: HostTy::FnDef { def: 10 }, args: vec![var(1, i32_ty(), 3)] },
        unit_ty(),
        4,
    );
    let stmts = vec![
        HostStmt::Let { pattern: binding(1, i32_ty(), 1), initializer: Some(int_lit(1, 2)) },
        HostStmt::Expr { expr: call },
        HostStmt::Let { pattern: binding(2, i32_ty(), 5), initializer: Some(int_lit(2, 6)) },
    ];
    let host = block(stmts, Some(var(2, i32_ty(), 7)), i32_ty(), 8);
    assert!(bx.is_valid_expr(&host));
    let got = bx.extract_expr(&host);

    let vd_x: &ValDef = factory.allocate(ValDef { v: x });
    let vd_y: &ValDef = factory.allocate(ValDef { v: y });
    let inner = Expr::Let(factory.allocate(Let {
        vd: vd_y,
        value: Expr::BVLiteral(factory.Int32Literal(2)),
        body: Expr::Variable(y),
    }));
    let f_x = Expr::FunctionInvocation(factory.allocate(FunctionInvocation {
        id: f_id,
        tps: vec![],
        args: vec![Expr::Variable(x)],
    }));
    let expected = Expr::Let(factory.allocate(Let {
        vd: vd_x,
        value: Expr::BVLiteral(factory.Int32Literal(1)),
        body: Expr::Block(factory.allocate(Block { exprs: vec![f_x], last: inner })),
    }));
    assert_eq!(got, expected);
    assert!(bx.diagnostics().is_empty());
}

fn sort_with_three_fields<'l>(
    factory: &'l Factory,
    base: &mut BaseExtractor<'l>,
) -> &'l ADTSort<'l> {
    let sort_id = base.register_def(20, vec!["demo".to_string(), "Triple".to_string()]);
    let mut fields: Vec<&'l ValDef<'l>> = Vec::new();
    for name in ["a", "b", "c"] {
        let id = base.fresh_id(name.to_string());
        let v: &Variable =
            factory.allocate(Variable { id, tpe: Type::BooleanType, flags: vec![] });
        fields.push(factory.allocate(ValDef { v }));
    }
    let constructor: &ADTConstructor = factory.ADTConstructor(sort_id, sort_id, fields);
    let sort: &ADTSort = factory.allocate(ADTSort {
        id: sort_id,
        tparams: vec![],
        constructors: vec![constructor],
        flags: vec![],
    });
    base.add_adt(sort_id, sort);
    sort
}

#[test]
fn fields_that_a_pattern_does_not_mention_get_wildcards() {
    let factory = Factory::new();
    let mut base = BaseExtractor::new(Extraction::new(&factory));
    let sort = sort_with_three_fields(&factory, &mut base);
    let mut bx = BodyExtractor::new(&mut base);

    let mentioned = pat(HostPatKind::Constant { value: boolean(true) }, HostTy::Bool, 1);
    let host = pat(
        HostPatKind::Leaf { subpatterns: vec![HostFieldPat { field: 1, pattern: mentioned }] },
        HostTy::Adt { def: 20 },
        2,
    );
    assert!(bx.is_valid_pattern(&host, false));
    let got = bx.extract_pattern(&host, None);

    let wildcard = || Pattern::WildcardPattern(factory.allocate(WildcardPattern { binder: None }));
    let p = Pattern::LiteralPattern(factory.allocate(LiteralPattern {
        binder: None,
        lit: Expr::BooleanLiteral(factory.allocate(BooleanLiteral { value: true })),
    }));
    let expected = Pattern::ADTPattern(factory.allocate(ADTPattern {
        binder: None,
        id: sort.constructors[0].id,
        tps: vec![],
        sub_patterns: vec![wildcard(), p, wildcard()],
    }));
    assert_eq!(got, expected);
    assert!(bx.diagnostics().is_empty());
}

#[test]
fn field_patterns_come_out_in_declared_order() {
    let factory = Factory::new();
    let mut base = BaseExtractor::new(Extraction::new(&factory));
    sort_with_three_fields(&factory, &mut base);
    let mut bx = BodyExtractor::new(&mut base);
    let t = pat(HostPatKind::Constant { value: boolean(true) }, HostTy::Bool, 1);
    let f = pat(HostPatKind::Constant { value: boolean(false) }, HostTy::Bool, 2);
    let host = pat(
        HostPatKind::Leaf {
            subpatterns: vec![
                HostFieldPat { field: 2, pattern: t },
                HostFieldPat { field: 0, pattern: f },
            ],
        },
        HostTy::Adt { def: 20 },
        3,
    );
    let got = bx.extract_subpatterns(
        match &host.kind {
            HostPatKind::Leaf { subpatterns } => subpatterns,
            _ => unreachable!(),
        },
        3,
    );
    assert_eq!(got.len(), 3);
    assert!(matches!(got[0], Pattern::LiteralPattern(l) if l.lit == Expr::BooleanLiteral(&BooleanLiteral { value: false })));
    assert!(matches!(got[1], Pattern::WildcardPattern(w) if w.binder.is_none()));
    assert!(matches!(got[2], Pattern::LiteralPattern(l) if l.lit == Expr::BooleanLiteral(&BooleanLiteral { value: true })));
}

#[test]
fn one_unsupported_statement_gives_one_diagnostic() {
    let factory = Factory::new();
    let mut base = BaseExtractor::new(Extraction::new(&factory));
    let mut bx = BodyExtractor::new(&mut base);
    let int32 = Type::BVType(factory.Int32Type());
    let x = bx.register_var(1, vec!["main".to_string()], "x".to_string(), int32);

    // let x = 1; <unsupported>; x + x; x
    let sum = expr(
        HostExprKind::Binary {
            op: BinOp::Add,
            lhs: Box::new(var(1, i32_ty(), 4)),
            rhs: Box::new(var(1, i32_ty(), 5)),
        },
        i32_ty(),
        6,
    );
    let stmts = vec![
        HostStmt::Let { pattern: binding(1, i32_ty(), 1), initializer: Some(int_lit(1, 2)) },
        HostStmt::Expr { expr: expr(HostExprKind::Other, unit_ty(), 3) },
        HostStmt::Expr { expr: sum },
    ];
    let host = block(stmts, Some(var(1, i32_ty(), 7)), i32_ty(), 8);
    assert!(bx.is_valid_expr(&host));
    let got = bx.extract_expr(&host);

    assert_eq!(bx.diagnostics(), &vec![Diagnostic { span: span(3), issue: Issue::ExprKind }]);
    let vd_x: &ValDef = factory.allocate(ValDef { v: x });
    let placeholder = Expr::NoTree(factory.allocate(NoTree { tpe: Type::Untyped }));
    let x_plus_x =
        Expr::Plus(factory.allocate(Plus { lhs: Expr::Variable(x), rhs: Expr::Variable(x) }));
    let expected = Expr::Let(factory.allocate(Let {
        vd: vd_x,
        value: Expr::BVLiteral(factory.Int32Literal(1)),
        body: Expr::Block(factory.allocate(Block {
            exprs: vec![placeholder, x_plus_x],
            last: Expr::Variable(x),
        })),
    }));
    assert_eq!(got, expected);
}

#[test]
fn binding_of_a_mutable_variable_ends_the_block_with_the_placeholder() {
    let factory = Factory::new();
    let mut base = BaseExtractor::new(Extraction::new(&factory));
    let mut bx = BodyExtractor::new(&mut base);
    let int32 = Type::BVType(factory.Int32Type());
    bx.register_var(1, vec!["main".to_string()], "x".to_string(), int32);
    let mutable = pat(
        HostPatKind::Binding {
            mutability: Mutability::Mut,
            mode: BindingMode::ByValue,
            var: 1,
            subpattern: None,
        },
        i32_ty(),
        2,
    );
    let stmts = vec![
        HostStmt::Expr { expr: int_lit(5, 1) },
        HostStmt::Let { pattern: mutable, initializer: Some(int_lit(1, 3)) },
        HostStmt::Expr { expr: expr(HostExprKind::Other, unit_ty(), 4) },
    ];
    let host = block(stmts, None, unit_ty(), 5);
    assert!(bx.is_valid_expr(&host));
    let got = bx.extract_expr(&host);
    let expected = Expr::Block(factory.allocate(Block {
        exprs: vec![Expr::BVLiteral(factory.Int32Literal(5))],
        last: Expr::NoTree(factory.allocate(NoTree { tpe: Type::Untyped })),
    }));
    assert_eq!(got, expected);
    assert_eq!(
        bx.diagnostics(),
        &vec![Diagnostic { span: span(2), issue: Issue::LetPattern(BindingIssue::Mutable) }]
    );
}

#[test]
fn tuple_fields_are_selected_from_one_and_record_fields_by_identifier() {
    let factory = Factory::new();
    let mut base = BaseExtractor::new(Extraction::new(&factory));
    let sort = sort_with_three_fields(&factory, &mut base);
    let mut bx = BodyExtractor::new(&mut base);
    let pair_ty = || HostTy::Tuple { fields: vec![i32_ty(), i32_ty()] };
    let p = bx.register_var(
        1,
        vec!["main".to_string()],
        "p".to_string(),
        Type::Untyped,
    );
    let r = bx.register_var(2, vec!["main".to_string()], "r".to_string(), Type::Untyped);

    let second = expr(
        HostExprKind::Field { lhs: Box::new(var(1, pair_ty(), 1)), name: 1 },
        i32_ty(),
        2,
    );
    assert!(bx.is_valid_expr(&second));
    let got = bx.extract_expr(&second);
    assert_eq!(
        got,
        Expr::TupleSelect(factory.allocate(TupleSelect { tuple: Expr::Variable(p), index: 2 }))
    );

    let field_c = expr(
        HostExprKind::Field { lhs: Box::new(var(2, HostTy::Adt { def: 20 }, 3)), name: 2 },
        HostTy::Bool,
        4,
    );
    assert!(bx.is_valid_expr(&field_c));
    let got = bx.extract_expr(&field_c);
    assert_eq!(
        got,
        Expr::ADTSelector(factory.allocate(ADTSelector {
            adt: Expr::Variable(r),
            selector: sort.constructors[0].fields[2].v.id,
        }))
    );

    let out_of_range = expr(
        HostExprKind::Field { lhs: Box::new(var(2, HostTy::Adt { def: 20 }, 5)), name: 3 },
        HostTy::Bool,
        6,
    );
    assert!(!bx.is_valid_expr(&out_of_range));
}

#[test]
fn record_construction_puts_fields_in_declared_order() {
    let factory = Factory::new();
    let mut base = BaseExtractor::new(Extraction::new(&factory));
    let sort = sort_with_three_fields(&factory, &mut base);
    let mut bx = BodyExtractor::new(&mut base);
    let field = |name: usize, value: bool, n: u32| HostFieldExpr {
        name,
        expr: expr(HostExprKind::Literal { literal: boolean(value) }, HostTy::Bool, n),
    };
    let host = expr(
        HostExprKind::Adt {
            adt_def: 20,
            variant_index: 0,
            fields: vec![field(2, true, 1), field(0, false, 2), field(1, true, 3)],
            base: None,
        },
        HostTy::Adt { def: 20 },
        4,
    );
    assert!(bx.is_valid_expr(&host));
    let got = bx.extract_expr(&host);
    let lit = |value: bool| Expr::BooleanLiteral(factory.allocate(BooleanLiteral { value }));
    assert_eq!(
        got,
        Expr::ADT(factory.allocate(ADT {
            id: sort.constructors[0].id,
            tps: vec![],
            args: vec![lit(false), lit(true), lit(true)],
        }))
    );
}

#[test]
fn operands_of_mismatched_kinds_are_not_valid() {
    let factory = Factory::new();
    let (bx, _) = body_with_condition(&factory);
    let host = expr(
        HostExprKind::Binary {
            op: BinOp::Eq,
            lhs: Box::new(var(7, HostTy::Bool, 1)),
            rhs: Box::new(int_lit(1, 2)),
        },
        HostTy::Bool,
        3,
    );
    assert!(!bx.is_valid_expr(&host));
    let unbound = var(99, HostTy::Bool, 4);
    assert!(!bx.is_valid_expr(&unbound));
}
