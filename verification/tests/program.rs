use stainless_extraction::ast::{Expr, Type};
use stainless_extraction::diag::{Diagnostic, Issue};
use stainless_extraction::extraction::{BaseExtractor, Extraction};
use stainless_extraction::factory::Factory;
use stainless_extraction::host::{
    BinOp, BlockSafety, HostAdt, HostArm, HostBinder, HostBlock, HostConst, HostConstVal,
    HostCrate, HostExpr, HostExprKind, HostField, HostFn, HostPat, HostPatKind, HostTy,
    HostVariant, Span,
};
use stainless_extraction::krate::{extract_crate, Fatal};
use stainless_extraction::ser::BufferSerializer;

fn span(n: u32) -> Span {
    Span { lo: n, hi: n + 1 }
}

fn path(segments: &[&str]) -> Vec<String> {
    segments.iter().map(|s| s.to_string()).collect()
}

fn i32_ty() -> HostTy {
    HostTy::Int { bit_width: Some(32) }
}

fn expr(kind: HostExprKind, ty: HostTy, n: u32) -> HostExpr {
    HostExpr { kind, ty, span: span(n) }
}

fn number(value: u128, n: u32) -> HostExpr {
    let literal = HostConst { ty: i32_ty(), val: HostConstVal::Scalar { data: value, size: 4 } };
    expr(HostExprKind::Literal { literal }, i32_ty(), n)
}

fn var(id: u64, n: u32) -> HostExpr {
    expr(HostExprKind::VarRef { id }, i32_ty(), n)
}

fn binary(op: BinOp, lhs: HostExpr, rhs: HostExpr, ty: HostTy, n: u32) -> HostExpr {
    expr(HostExprKind::Binary { op, lhs: Box::new(lhs), rhs: Box::new(rhs) }, ty, n)
}

fn block_of(value: HostExpr, n: u32) -> HostExpr {
    let ty = i32_ty();
    let body =
        HostBlock { safety_mode: BlockSafety::Safe, stmts: vec![], expr: Some(Box::new(value)) };
    expr(HostExprKind::Block { body }, ty, n)
}

/// fn fact(x: i32) -> i32 { if x <= 0 { 1 } else { fact(x - 1) * x } }
fn fact(def: u64) -> HostFn {
    let binder = def * 10;
    let x = |n: u32| var(binder, n);
    let condition = binary(BinOp::Le, x(1), number(0, 2), HostTy::Bool, 3);
    let call = expr(
        HostExprKind::Call {
            ty: HostTy::FnDef { def },
            args: vec![binary(BinOp::Sub, x(4), number(1, 5), i32_ty(), 6)],
        },
        i32_ty(),
        7,
    );
    let product = binary(BinOp::Mul, call, x(8), i32_ty(), 9);
    let truth = HostConst { ty: HostTy::Bool, val: HostConstVal::Scalar { data: 1, size: 1 } };
    let arms = vec![
        HostArm {
            pattern: HostPat {
                kind: HostPatKind::Constant { value: truth },
                ty: HostTy::Bool,
                span: span(10),
            },
            guard: None,
            body: block_of(number(1, 11), 12),
        },
        HostArm {
            pattern: HostPat { kind: HostPatKind::Wild, ty: HostTy::Bool, span: span(13) },
            guard: None,
            body: block_of(product, 14),
        },
    ];
    let conditional =
        expr(HostExprKind::Match { scrutinee: Box::new(condition), arms }, i32_ty(), 15);
    HostFn {
        def,
        path: path(&["demo", "fact"]),
        params: vec![HostBinder { id: binder, name: "x".to_string(), ty: i32_ty(), span: span(0) }],
        bindings: vec![],
        return_ty: i32_ty(),
        body: block_of(conditional, 16),
        span: span(17),
    }
}

fn option_of_int(def: u64) -> HostAdt {
    HostAdt {
        def,
        path: path(&["demo", "Maybe"]),
        variants: vec![
            HostVariant { def: def + 1, path: path(&["demo", "Maybe", "Nothing"]), fields: vec![] },
            HostVariant {
                def: def + 2,
                path: path(&["demo", "Maybe", "Just"]),
                fields: vec![HostField { name: "0".to_string(), ty: i32_ty(), span: span(20) }],
            },
        ],
    }
}

#[test]
fn factorial_is_extracted() {
    let factory = Factory::new();
    let krate = HostCrate { adts: vec![], functions: vec![fact(7)] };
    let (symbols, diagnostics) = extract_crate(&factory, &krate).unwrap();
    assert!(diagnostics.is_empty());
    assert!(symbols.sorts().is_empty());
    assert_eq!(symbols.functions().len(), 1);
    let fd = symbols.functions()[0];
    assert_eq!(fd.id.id.name, "fact");
    assert_eq!(fd.id.symbol_path, path(&["demo", "fact"]));
    assert_eq!((fd.id.id.global_id, fd.id.id.id), (0, 0));
    assert_eq!(fd.return_type, Type::BVType(factory.Int32Type()));
    assert_eq!(fd.params.len(), 1);
    let param = fd.params[0].v;
    assert_eq!(param.id.id.name, "x");
    assert_eq!(param.id.symbol_path, path(&["demo", "fact", "x"]));
    assert_eq!((param.id.id.global_id, param.id.id.id), (1, 0));
    assert_eq!(param.tpe, Type::BVType(factory.Int32Type()));

    let conditional = match fd.full_body {
        Expr::IfExpr(c) => c,
        other => panic!("the body is {:?}", other),
    };
    assert!(matches!(conditional.cond, Expr::LessEquals(le)
        if le.lhs == Expr::Variable(param) && le.rhs == Expr::BVLiteral(factory.Int32Literal(0))));
    assert_eq!(conditional.thenn, Expr::BVLiteral(factory.Int32Literal(1)));
    let product = match conditional.elze {
        Expr::Times(t) => t,
        other => panic!("the else branch is {:?}", other),
    };
    assert_eq!(product.rhs, Expr::Variable(param));
    let call = match product.lhs {
        Expr::FunctionInvocation(call) => call,
        other => panic!("the left factor is {:?}", other),
    };
    assert!(std::ptr::eq(call.id, fd.id) || call.id == fd.id);
    assert!(call.tps.is_empty());
    assert!(matches!(call.args[..], [Expr::Minus(m)]
        if m.lhs == Expr::Variable(param) && m.rhs == Expr::BVLiteral(factory.Int32Literal(1))));
}

#[test]
fn data_types_are_extracted_with_their_constructors() {
    let factory = Factory::new();
    let krate = HostCrate { adts: vec![option_of_int(30)], functions: vec![] };
    let (symbols, diagnostics) = extract_crate(&factory, &krate).unwrap();
    assert!(diagnostics.is_empty());
    assert_eq!(symbols.sorts().len(), 1);
    let sort = symbols.sorts()[0];
    assert_eq!(sort.id.id.name, "Maybe");
    assert_eq!(sort.constructors.len(), 2);
    let (nothing, just) = (sort.constructors[0], sort.constructors[1]);
    assert_eq!(nothing.id.id.name, "Nothing");
    assert!(nothing.fields.is_empty());
    assert_eq!(nothing.sort, sort.id);
    assert_eq!(just.id.symbol_path, path(&["demo", "Maybe", "Just"]));
    assert_eq!(just.fields.len(), 1);
    assert_eq!(just.fields[0].v.id.id.name, "0");
    assert_eq!(just.fields[0].v.id.symbol_path, path(&["0"]));
    assert_eq!(just.fields[0].v.tpe, Type::BVType(factory.Int32Type()));
    let ids: Vec<i32> = vec![sort.id, nothing.id, just.id, just.fields[0].v.id]
        .iter()
        .map(|id| id.id.global_id)
        .collect();
    assert_eq!(ids, vec![0, 1, 2, 3]);
}

#[test]
fn extraction_of_a_program_gives_the_same_bytes_every_time() {
    let factory = Factory::new();
    let one = HostCrate { adts: vec![option_of_int(30)], functions: vec![fact(7), fact(8)] };
    let (symbols, _) = extract_crate(&factory, &one).unwrap();
    let keys: Vec<i32> = symbols.functions().iter().map(|fd| fd.id.id.global_id).collect();
    assert_eq!(keys, vec![1, 2]);
    let names: Vec<(&str, i32)> = symbols
        .functions()
        .iter()
        .map(|fd| (fd.params[0].v.id.id.name.as_str(), fd.params[0].v.id.id.id))
        .collect();
    assert_eq!(names, vec![("x", 0), ("x", 1)]);
    let mut first = BufferSerializer::new();
    symbols.serialize(&mut first);
    let other_factory = Factory::new();
    let (same, _) = extract_crate(&other_factory, &one).unwrap();
    let mut second = BufferSerializer::new();
    same.serialize(&mut second);
    assert_eq!(first.as_slice(), second.as_slice());
}

#[test]
fn unsupported_parts_are_reported_and_the_rest_is_extracted() {
    let factory = Factory::new();
    let mut function = fact(7);
    function.return_ty = HostTy::Other;
    function.body = block_of(expr(HostExprKind::Other, i32_ty(), 40), 41);
    let krate = HostCrate { adts: vec![], functions: vec![function] };
    let (symbols, diagnostics) = extract_crate(&factory, &krate).unwrap();
    assert_eq!(
        diagnostics,
        vec![
            Diagnostic { span: span(17), issue: Issue::Type },
            Diagnostic { span: span(40), issue: Issue::ExprKind }
        ]
    );
    let fd = symbols.functions()[0];
    assert_eq!(fd.return_type, Type::Untyped);
    assert!(matches!(fd.full_body, Expr::NoTree(_)));
}

#[test]
fn programs_that_break_an_invariant_are_not_extracted() {
    let factory = Factory::new();
    let twice = HostCrate { adts: vec![], functions: vec![fact(7), fact(7)] };
    assert_eq!(extract_crate(&factory, &twice).err(), Some(Fatal::DuplicateDefinition(7)));

    let mut unbound = fact(7);
    unbound.params.clear();
    let krate = HostCrate { adts: vec![], functions: vec![unbound] };
    assert_eq!(extract_crate(&factory, &krate).err(), Some(Fatal::InvalidBody(7)));

    let mut same_binder_twice = fact(7);
    same_binder_twice.bindings.push(HostBinder {
        id: 70,
        name: "y".to_string(),
        ty: i32_ty(),
        span: span(50),
    });
    let krate = HostCrate { adts: vec![], functions: vec![same_binder_twice] };
    assert_eq!(extract_crate(&factory, &krate).err(), Some(Fatal::DuplicateBinder(70)));

    let mut without_path = option_of_int(30);
    without_path.variants[0].path.clear();
    let krate = HostCrate { adts: vec![without_path], functions: vec![] };
    assert_eq!(extract_crate(&factory, &krate).err(), Some(Fatal::EmptyPath(31)));

    let mut mismatched = fact(7);
    mismatched.body = HostExpr {
        kind: HostExprKind::Binary {
            op: BinOp::Eq,
            lhs: Box::new(number(1, 0)),
            rhs: Box::new(expr(HostExprKind::Other, HostTy::Bool, 0)),
        },
        ty: HostTy::Bool,
        span: span(0),
    };
    let krate = HostCrate { adts: vec![], functions: vec![mismatched] };
    assert_eq!(extract_crate(&factory, &krate).err(), Some(Fatal::InvalidBody(7)));
}

#[test]
fn steps_of_a_session_can_be_taken_one_by_one() {
    let factory = Factory::new();
    let mut base = BaseExtractor::new(Extraction::new(&factory));
    let adt = option_of_int(30);
    assert_eq!(base.extract_adt(&adt).err(), Some(Fatal::UnregisteredDefinition(30)));
    let id = base.try_register_def(30, &adt.path).unwrap();
    assert_eq!(base.try_register_def(30, &adt.path).err(), Some(Fatal::DuplicateDefinition(30)));
    let sort = base.extract_adt(&adt).unwrap();
    assert_eq!(sort.id, id);
    assert_eq!(base.extract_adt(&adt).err(), Some(Fatal::DuplicateExtraction(30)));
    let function = fact(7);
    assert_eq!(base.extract_function(&function).err(), Some(Fatal::UnregisteredDefinition(7)));
    base.try_register_def(7, &function.path).unwrap();
    let fd = base.extract_function(&function).unwrap();
    assert_eq!(fd.params.len(), 1);
    assert_eq!(base.extract_function(&function).err(), Some(Fatal::DuplicateExtraction(7)));
    let tuple = HostTy::Tuple { fields: vec![HostTy::Bool, HostTy::Adt { def: 30 }, HostTy::Str] };
    let tpe = base.extract_ty(&tuple, span(0));
    assert!(matches!(tpe, Type::TupleType(t)
        if matches!(t.bases[..], [Type::BooleanType, Type::ADTType(a), Type::StringType] if a.id == id)));
    assert_eq!(base.extract_ty(&HostTy::Tuple { fields: vec![] }, span(0)), Type::UnitType);
    assert_eq!(base.extract_ty(&HostTy::Adt { def: 99 }, span(3)), Type::Untyped);
    assert_eq!(
        base.diagnostics(),
        &vec![Diagnostic { span: span(3), issue: Issue::UnresolvedAdt }]
    );
    let (adts, functions) = base.into_result();
    assert_eq!((adts.len(), functions.len()), (1, 1));
}
