//! What extraction yields: for each host construct, the expression or
//! pattern that stands for it and the diagnostics that its extraction
//! reports, as functions of the construct and of what the session resolves.
use vstd::prelude::*;
use crate::ast::Int;
use crate::diag::{BindingIssue, Diagnostic, Issue};
use crate::host::{
    BinOp, BinderKey, BindingMode, BlockSafety, DefKey, HostArm, HostBlock, HostExpr, HostExprKind,
    HostFieldExpr, HostFieldPat, HostPat, HostPatKind, HostStmt, HostTy, LogicalOp, Mutability,
    Span, UnOp,
};
use crate::literal::{literal_of, st_literal, SpecLiteral};
use crate::model::{
    no_tree, SpecADTSort, SpecExpr, SpecMatchCase, SpecPattern, SpecSymbolIdentifier, SpecVariable,
};

verus! {

/// What a body's extraction reads from the session: the identifier of each
/// registered definition, the extracted sorts by the global id of their
/// identifier, and the variable of each binder of the body.
pub struct Resolution {
    pub defs: Map<DefKey, SpecSymbolIdentifier>,
    pub sorts: Map<Int, SpecADTSort>,
    pub vars: Map<BinderKey, SpecVariable>,
}

impl Resolution {
    /// The sort extracted for a definition, if the definition is registered
    /// and its sort extracted.
    pub open spec fn sort_of(self, def: DefKey) -> Option<SpecADTSort> {
        if self.defs.contains_key(def) && self.sorts.contains_key(self.defs[def].id.global_id) {
            Some(self.sorts[self.defs[def].id.global_id])
        } else {
            None
        }
    }
}

/// An extracted value with the diagnostics of its extraction, in the order
/// of traversal.
pub struct Extracted<T> {
    pub value: T,
    pub diags: Seq<Diagnostic>,
}

/// A value extracted without a diagnostic.
pub open spec fn plain<T>(value: T) -> Extracted<T> {
    Extracted { value, diags: Seq::empty() }
}

/// The placeholder expression, with the one diagnostic that says why.
pub open spec fn failed_expr(span: Span, issue: Issue) -> Extracted<SpecExpr> {
    Extracted { value: no_tree(), diags: seq![Diagnostic { span, issue }] }
}

/// The pattern without binder that matches everything, with the one
/// diagnostic that says why.
pub open spec fn failed_pattern(span: Span, issue: Issue) -> Extracted<SpecPattern> {
    Extracted {
        value: SpecPattern::WildcardPattern { binder: None },
        diags: seq![Diagnostic { span, issue }],
    }
}

/// The placeholder in place of a node whose children were extracted: their
/// diagnostics, then the one that says why.
pub open spec fn failed_after(diags: Seq<Diagnostic>, span: Span, issue: Issue) -> Extracted<
    SpecExpr,
> {
    Extracted { value: no_tree(), diags: diags.push(Diagnostic { span, issue }) }
}

/// The binder that a pattern stands for, if it is an immutable binding by
/// value, and one without a subpattern where none is allowed.
pub open spec fn pattern_var(kind: HostPatKind, allow_subpattern: bool) -> Result<
    BinderKey,
    BindingIssue,
> {
    match kind {
        HostPatKind::Binding { mutability, mode, var, subpattern } => if mutability
            != Mutability::Not {
            Err(BindingIssue::Mutable)
        } else if mode != BindingMode::ByValue {
            Err(BindingIssue::ByReference)
        } else if !allow_subpattern && subpattern is Some {
            Err(BindingIssue::Subpattern)
        } else {
            Ok(var)
        },
        _ => Err(BindingIssue::NotABinding),
    }
}

/// The expression inside its scopes.
pub open spec fn strip_scopes(e: HostExpr) -> HostExpr
    decreases e,
{
    match e.kind {
        HostExprKind::Scope { value } => strip_scopes(*value),
        _ => e,
    }
}

/// Whether an expression is a block without statements and without a value.
pub open spec fn is_empty_block(e: HostExpr) -> bool {
    e.kind matches HostExprKind::Block { body } && body.stmts@.len() == 0 && body.expr is None
}

/// Whether a match is a conditional: it has a boolean scrutinee and two
/// arms, the first for the literal `true`, the second for anything. The
/// result then says whether there is an else branch: there is none where
/// the second arm's body, inside its scopes, is an empty block.
pub open spec fn looks_like_if(scrutinee: HostExpr, arms: Seq<HostArm>) -> Option<bool> {
    if arms.len() == 2 && scrutinee.ty.is_bool() && (arms[0].pattern.kind matches HostPatKind::Constant {
        value,
    } && literal_of(value) == Some(SpecLiteral::Bool(true))) && arms[1].pattern.kind is Wild {
        Some(!is_empty_block(strip_scopes(arms[1].body)))
    } else {
        None
    }
}

/// The statements' expressions around the last one: the last one alone
/// where there are none.
pub open spec fn finish(exprs: Seq<SpecExpr>, last: SpecExpr) -> SpecExpr {
    if exprs.len() == 0 {
        last
    } else {
        SpecExpr::Block { exprs, last: Box::new(last) }
    }
}

/// Where `j` goes into `order` so that the fields stay sorted by position,
/// and fields of one position in the order in which they were written.
pub open spec fn insert_field(fields: Seq<HostFieldExpr>, order: Seq<usize>, j: usize) -> Seq<
    usize,
>
    decreases order.len(),
{
    if order.len() == 0 {
        seq![j]
    } else if fields[order.last() as int].name <= fields[j as int].name {
        order.push(j)
    } else {
        insert_field(fields, order.drop_last(), j).push(order.last())
    }
}

/// The first `n` fields of a record construction in declared order: their
/// indices, sorted by the fields' positions.
pub open spec fn field_order(fields: Seq<HostFieldExpr>, n: nat) -> Seq<usize>
    decreases n,
{
    if n == 0 {
        Seq::empty()
    } else {
        insert_field(fields, field_order(fields, (n - 1) as nat), (n - 1) as usize)
    }
}

/// The index of the first field pattern from `from` on that is for the
/// field at position `field`.
pub open spec fn field_position(fps: Seq<HostFieldPat>, field: int, from: int) -> Option<int>
    decreases fps.len() - from,
{
    if from < 0 || from >= fps.len() {
        None
    } else if fps[from].field == field {
        Some(from)
    } else {
        field_position(fps, field, from + 1)
    }
}

/// The extraction of an expression.
pub open spec fn extracted_expr(cx: Resolution, e: HostExpr) -> Extracted<SpecExpr>
    decreases e, 1nat,
{
    match e.kind {
        HostExprKind::Literal { literal } => match literal_of(literal) {
            Some(lit) => plain(st_literal(lit)),
            None => failed_expr(e.span, Issue::Literal),
        },
        HostExprKind::Unary { .. } => extracted_unary(cx, e),
        HostExprKind::Binary { .. } => extracted_binary(cx, e),
        HostExprKind::LogicalOp { .. } => extracted_logical_op(cx, e),
        HostExprKind::Tuple { fields } => {
            let xs = extracted_exprs(cx, fields@, fields@.len());
            Extracted { value: SpecExpr::Tuple { exprs: xs.value }, diags: xs.diags }
        },
        HostExprKind::Field { .. } => extracted_field(cx, e),
        HostExprKind::VarRef { id } => plain(SpecExpr::Variable { v: cx.vars[id] }),
        HostExprKind::Call { .. } => extracted_call(cx, e),
        HostExprKind::Adt { .. } => extracted_adt_construction(cx, e),
        HostExprKind::Block { body } => match body.safety_mode {
            BlockSafety::Safe => extracted_block(cx, body),
            BlockSafety::Unsafe => failed_expr(e.span, Issue::UnsafeBlock),
        },
        HostExprKind::Match { scrutinee, arms } => match looks_like_if(*scrutinee, arms@) {
            Some(has_else) => extracted_if(cx, e, has_else),
            None => extracted_match(cx, e),
        },
        HostExprKind::Scope { value } => extracted_expr(cx, *value),
        HostExprKind::Use { source } => extracted_expr(cx, *source),
        HostExprKind::NeverToAny { source } => extracted_expr(cx, *source),
        HostExprKind::Other => failed_expr(e.span, Issue::ExprKind),
    }
}

/// The extractions of the first `n` expressions of a sequence.
pub open spec fn extracted_exprs(cx: Resolution, es: Seq<HostExpr>, n: nat) -> Extracted<
    Seq<SpecExpr>,
>
    decreases es, n,
{
    if n == 0 || n > es.len() {
        plain(Seq::empty())
    } else {
        let before = extracted_exprs(cx, es, (n - 1) as nat);
        let x = extracted_expr(cx, es[n - 1]);
        Extracted { value: before.value.push(x.value), diags: before.diags + x.diags }
    }
}

/// The extraction of a negation: of the bits of an integer of fixed width,
/// of a boolean, or of the sign of an integer of fixed width.
pub open spec fn extracted_unary(cx: Resolution, e: HostExpr) -> Extracted<SpecExpr>
    decreases e, 0nat,
{
    match e.kind {
        HostExprKind::Unary { op, arg } => {
            let a = extracted_expr(cx, *arg);
            match op {
                UnOp::Not => if arg.ty.is_bv() {
                    Extracted { value: SpecExpr::BVNot { e: Box::new(a.value) }, diags: a.diags }
                } else if arg.ty.is_bool() {
                    Extracted { value: SpecExpr::Not { expr: Box::new(a.value) }, diags: a.diags }
                } else {
                    failed_after(a.diags, e.span, Issue::UnaryOp)
                },
                UnOp::Neg => if arg.ty.is_bv() {
                    Extracted {
                        value: SpecExpr::UMinus { expr: Box::new(a.value) },
                        diags: a.diags,
                    }
                } else {
                    failed_after(a.diags, e.span, Issue::UnaryOp)
                },
            }
        },
        _ => plain(no_tree()),
    }
}

/// The node for a binary operator over two extracted operands, if the
/// operator is supported on operands of this kind: equality and inequality
/// on any, arithmetic and comparison on integers of fixed width.
pub open spec fn binary_node(op: BinOp, bv: bool, l: SpecExpr, r: SpecExpr) -> Option<SpecExpr> {
    let lhs = Box::new(l);
    let rhs = Box::new(r);
    match op {
        BinOp::Eq => Some(SpecExpr::Equals { lhs, rhs }),
        BinOp::Ne => Some(SpecExpr::Not { expr: Box::new(SpecExpr::Equals { lhs, rhs }) }),
        BinOp::Add => if bv { Some(SpecExpr::Plus { lhs, rhs }) } else { None },
        BinOp::Sub => if bv { Some(SpecExpr::Minus { lhs, rhs }) } else { None },
        BinOp::Mul => if bv { Some(SpecExpr::Times { lhs, rhs }) } else { None },
        BinOp::Div => if bv { Some(SpecExpr::Division { lhs, rhs }) } else { None },
        BinOp::Lt => if bv { Some(SpecExpr::LessThan { lhs, rhs }) } else { None },
        BinOp::Le => if bv { Some(SpecExpr::LessEquals { lhs, rhs }) } else { None },
        BinOp::Ge => if bv { Some(SpecExpr::GreaterEquals { lhs, rhs }) } else { None },
        BinOp::Gt => if bv { Some(SpecExpr::GreaterThan { lhs, rhs }) } else { None },
        _ => None,
    }
}

/// The extraction of a binary operation.
pub open spec fn extracted_binary(cx: Resolution, e: HostExpr) -> Extracted<SpecExpr>
    decreases e, 0nat,
{
    match e.kind {
        HostExprKind::Binary { op, lhs, rhs } => {
            let a = extracted_expr(cx, *lhs);
            let b = extracted_expr(cx, *rhs);
            match binary_node(op, lhs.ty.is_bv() && rhs.ty.is_bv(), a.value, b.value) {
                Some(node) => Extracted { value: node, diags: a.diags + b.diags },
                None => failed_after(a.diags + b.diags, e.span, Issue::BinaryOp),
            }
        },
        _ => plain(no_tree()),
    }
}

/// The extraction of a conjunction or disjunction: the combinator over the
/// two extracted operands.
pub open spec fn extracted_logical_op(cx: Resolution, e: HostExpr) -> Extracted<SpecExpr>
    decreases e, 0nat,
{
    match e.kind {
        HostExprKind::LogicalOp { op, lhs, rhs } => {
            let a = extracted_expr(cx, *lhs);
            let b = extracted_expr(cx, *rhs);
            Extracted {
                value: match op {
                    LogicalOp::And => SpecExpr::And { exprs: seq![a.value, b.value] },
                    LogicalOp::Or => SpecExpr::Or { exprs: seq![a.value, b.value] },
                },
                diags: a.diags + b.diags,
            }
        },
        _ => plain(no_tree()),
    }
}

/// The extraction of a field access: on a tuple the selection of the
/// component, counted from 1; on a record the selector named by the field's
/// identifier in the sort's only constructor.
pub open spec fn extracted_field(cx: Resolution, e: HostExpr) -> Extracted<SpecExpr>
    decreases e, 0nat,
{
    match e.kind {
        HostExprKind::Field { lhs, name } => {
            let a = extracted_expr(cx, *lhs);
            match lhs.ty {
                HostTy::Tuple { .. } => Extracted {
                    value: SpecExpr::TupleSelect {
                        tuple: Box::new(a.value),
                        index: (name + 1) as Int,
                    },
                    diags: a.diags,
                },
                HostTy::Adt { def } => match cx.sort_of(def) {
                    Some(sort) => Extracted {
                        value: SpecExpr::ADTSelector {
                            adt: Box::new(a.value),
                            selector: sort.constructors[0].fields[name as int].id,
                        },
                        diags: a.diags,
                    },
                    None => failed_after(a.diags, e.span, Issue::UnresolvedAdt),
                },
                _ => plain(no_tree()),
            }
        },
        _ => plain(no_tree()),
    }
}

/// The extraction of a call: the invocation of the function that the
/// callee's type names, on the extracted arguments.
pub open spec fn extracted_call(cx: Resolution, e: HostExpr) -> Extracted<SpecExpr>
    decreases e, 0nat,
{
    match e.kind {
        HostExprKind::Call { ty, args } => match ty {
            HostTy::FnDef { def } => {
                let xs = extracted_exprs(cx, args@, args@.len());
                if cx.defs.contains_key(def) {
                    Extracted {
                        value: SpecExpr::FunctionInvocation {
                            id: cx.defs[def],
                            tps: Seq::empty(),
                            args: xs.value,
                        },
                        diags: xs.diags,
                    }
                } else {
                    failed_after(xs.diags, e.span, Issue::UnresolvedCallee)
                }
            },
            _ => failed_expr(e.span, Issue::IndirectCall),
        },
        _ => plain(no_tree()),
    }
}

/// The extractions of the first `n` fields of a record construction, taken
/// in the given order.
pub open spec fn extracted_field_exprs(
    cx: Resolution,
    fields: Seq<HostFieldExpr>,
    order: Seq<usize>,
    n: nat,
) -> Extracted<Seq<SpecExpr>>
    decreases fields, n,
{
    if n == 0 || n > order.len() {
        plain(Seq::empty())
    } else {
        let before = extracted_field_exprs(cx, fields, order, (n - 1) as nat);
        let j = order[n - 1] as int;
        if 0 <= j < fields.len() {
            let x = extracted_expr(cx, fields[j].expr);
            Extracted { value: before.value.push(x.value), diags: before.diags + x.diags }
        } else {
            before
        }
    }
}

/// The extraction of a record construction: the constructor of the variant
/// applied to the extracted fields in declared order.
pub open spec fn extracted_adt_construction(cx: Resolution, e: HostExpr) -> Extracted<SpecExpr>
    decreases e, 0nat,
{
    match e.kind {
        HostExprKind::Adt { adt_def, variant_index, fields, base } => if base is Some {
            failed_expr(e.span, Issue::AdtWithBase)
        } else {
            match cx.sort_of(adt_def) {
                Some(sort) => {
                    let order = field_order(fields@, fields@.len());
                    let xs = extracted_field_exprs(cx, fields@, order, fields@.len());
                    Extracted {
                        value: SpecExpr::ADT {
                            id: sort.constructors[variant_index as int].id,
                            tps: Seq::empty(),
                            args: xs.value,
                        },
                        diags: xs.diags,
                    }
                },
                None => failed_expr(e.span, Issue::UnresolvedAdt),
            }
        },
        _ => plain(no_tree()),
    }
}

/// The extraction of a match that is a conditional: the condition, the
/// first arm's body, and the second arm's body or, where there is no else
/// branch, the unit value.
pub open spec fn extracted_if(cx: Resolution, e: HostExpr, has_else: bool) -> Extracted<SpecExpr>
    decreases e, 0nat,
{
    match e.kind {
        HostExprKind::Match { scrutinee, arms } => if arms@.len() == 2 {
            let c = extracted_expr(cx, *scrutinee);
            let t = extracted_expr(cx, arms@[0].body);
            let f = if has_else {
                extracted_expr(cx, arms@[1].body)
            } else {
                plain(SpecExpr::UnitLiteral)
            };
            Extracted {
                value: SpecExpr::IfExpr {
                    cond: Box::new(c.value),
                    thenn: Box::new(t.value),
                    elze: Box::new(f.value),
                },
                diags: c.diags + t.diags + f.diags,
            }
        } else {
            plain(no_tree())
        },
        _ => plain(no_tree()),
    }
}

/// The extraction of a match: the scrutinee and one case for each arm.
pub open spec fn extracted_match(cx: Resolution, e: HostExpr) -> Extracted<SpecExpr>
    decreases e, 0nat,
{
    match e.kind {
        HostExprKind::Match { scrutinee, arms } => {
            let s = extracted_expr(cx, *scrutinee);
            let cases = extracted_arms(cx, arms@, arms@.len());
            Extracted {
                value: SpecExpr::MatchExpr { scrutinee: Box::new(s.value), cases: cases.value },
                diags: s.diags + cases.diags,
            }
        },
        _ => plain(no_tree()),
    }
}

/// The extractions of the first `n` arms of a match.
pub open spec fn extracted_arms(cx: Resolution, arms: Seq<HostArm>, n: nat) -> Extracted<
    Seq<SpecMatchCase>,
>
    decreases arms, n,
{
    if n == 0 || n > arms.len() {
        plain(Seq::empty())
    } else {
        let before = extracted_arms(cx, arms, (n - 1) as nat);
        let x = extracted_arm(cx, arms[n - 1]);
        Extracted { value: before.value.push(x.value), diags: before.diags + x.diags }
    }
}

/// The extraction of an arm: its pattern, its guard if it has one, and its
/// body, each extracted by itself.
pub open spec fn extracted_arm(cx: Resolution, arm: HostArm) -> Extracted<SpecMatchCase>
    decreases arm, 0nat,
{
    let p = extracted_pattern(cx, arm.pattern, None);
    let g = match arm.guard {
        Some(guard) => {
            let x = extracted_expr(cx, guard);
            Extracted { value: Some(x.value), diags: x.diags }
        },
        None => plain(None),
    };
    let b = extracted_expr(cx, arm.body);
    Extracted {
        value: SpecMatchCase { pattern: p.value, opt_guard: g.value, rhs: b.value },
        diags: p.diags + g.diags + b.diags,
    }
}

/// The pattern for a constructor over the extracted subpatterns.
pub open spec fn constructor_pattern(
    sort: SpecADTSort,
    variant: int,
    subs: Extracted<Seq<SpecPattern>>,
    binder: Option<SpecVariable>,
) -> Extracted<SpecPattern> {
    Extracted {
        value: SpecPattern::ADTPattern {
            binder,
            id: sort.constructors[variant].id,
            tps: Seq::empty(),
            sub_patterns: subs.value,
        },
        diags: subs.diags,
    }
}

/// The number of fields that a constructor of a sort declares.
pub open spec fn field_count(sort: SpecADTSort, variant: int) -> nat {
    sort.constructors[variant].fields.len()
}

/// The extraction of a pattern under the binder that an enclosing binding
/// gave it, if any. A binding hands its variable to its subpattern or, where
/// it has none, to a wildcard.
pub open spec fn extracted_pattern(
    cx: Resolution,
    p: HostPat,
    binder: Option<SpecVariable>,
) -> Extracted<SpecPattern>
    decreases p, 0nat,
{
    match p.kind {
        HostPatKind::Wild => plain(SpecPattern::WildcardPattern { binder }),
        HostPatKind::Binding { subpattern, .. } => match pattern_var(p.kind, true) {
            Ok(var) => match subpattern {
                Some(sub) => extracted_pattern(cx, *sub, Some(cx.vars[var])),
                None => plain(SpecPattern::WildcardPattern { binder: Some(cx.vars[var]) }),
            },
            Err(why) => failed_pattern(p.span, Issue::PatternBinding(why)),
        },
        HostPatKind::Variant { adt_def, variant_index, subpatterns } => match cx.sort_of(adt_def) {
            Some(sort) => constructor_pattern(
                sort,
                variant_index as int,
                extracted_subpatterns(cx, subpatterns@, field_count(sort, variant_index as int)),
                binder,
            ),
            None => failed_pattern(p.span, Issue::UnresolvedAdt),
        },
        HostPatKind::Leaf { subpatterns } => match p.ty {
            HostTy::Adt { def } => match cx.sort_of(def) {
                Some(sort) => constructor_pattern(
                    sort,
                    0,
                    extracted_subpatterns(cx, subpatterns@, field_count(sort, 0)),
                    binder,
                ),
                None => failed_pattern(p.span, Issue::UnresolvedAdt),
            },
            _ => plain(SpecPattern::WildcardPattern { binder: None }),
        },
        HostPatKind::Constant { value } => match literal_of(value) {
            Some(lit) => plain(SpecPattern::LiteralPattern { binder, lit: st_literal(lit) }),
            None => failed_pattern(p.span, Issue::PatternLiteral),
        },
        HostPatKind::Other => failed_pattern(p.span, Issue::PatternKind),
    }
}

/// The subpatterns for the first `n` declared fields: for a field that a
/// field pattern mentions, the extraction of that pattern; for any other,
/// the wildcard without binder.
pub open spec fn extracted_subpatterns(cx: Resolution, fps: Seq<HostFieldPat>, n: nat) -> Extracted<
    Seq<SpecPattern>,
>
    decreases fps, n,
{
    if n == 0 {
        plain(Seq::empty())
    } else {
        let before = extracted_subpatterns(cx, fps, (n - 1) as nat);
        let x = match field_position(fps, n - 1, 0) {
            Some(j) => if 0 <= j < fps.len() {
                extracted_pattern(cx, fps[j].pattern, None)
            } else {
                plain(SpecPattern::WildcardPattern { binder: None })
            },
            None => plain(SpecPattern::WildcardPattern { binder: None }),
        };
        Extracted { value: before.value.push(x.value), diags: before.diags + x.diags }
    }
}

/// The extraction of a block: its value first, or the unit value where it
/// has none, then its statements around it.
pub open spec fn extracted_block(cx: Resolution, block: HostBlock) -> Extracted<SpecExpr>
    decreases block, 0nat,
{
    let last = match block.expr {
        Some(e) => extracted_expr(cx, *e),
        None => plain(SpecExpr::UnitLiteral),
    };
    let r = extracted_stmts(cx, block.stmts@, 0, Seq::empty(), last.value);
    Extracted { value: r.value, diags: last.diags + r.diags }
}

/// The extraction of the statements from position `i` on, in front of the
/// extracted value `last` of the block, where `acc` holds the extracted
/// expression statements since the last binding.
///
/// An expression statement joins `acc`. A binding of a single variable
/// becomes a `Let` whose body is the extraction of what follows, and the
/// expressions of `acc` go in front of that `Let`. Any other binding ends
/// the extraction: the placeholder takes the place of the binding and of
/// all that follows, behind the expressions of `acc`.
pub open spec fn extracted_stmts(
    cx: Resolution,
    stmts: Seq<HostStmt>,
    i: nat,
    acc: Seq<SpecExpr>,
    last: SpecExpr,
) -> Extracted<SpecExpr>
    decreases stmts, stmts.len() - i,
{
    if i >= stmts.len() {
        plain(finish(acc, last))
    } else {
        match stmts[i as int] {
            HostStmt::Expr { expr } => {
                let x = extracted_expr(cx, expr);
                let r = extracted_stmts(cx, stmts, i + 1, acc.push(x.value), last);
                Extracted { value: r.value, diags: x.diags + r.diags }
            },
            HostStmt::Let { pattern, initializer } => match pattern_var(pattern.kind, false) {
                Err(why) => Extracted {
                    value: finish(acc, no_tree()),
                    diags: seq![Diagnostic { span: pattern.span, issue: Issue::LetPattern(why) }],
                },
                Ok(var) => match initializer {
                    None => Extracted {
                        value: finish(acc, no_tree()),
                        diags: seq![
                            Diagnostic { span: pattern.span, issue: Issue::LetWithoutInitializer },
                        ],
                    },
                    Some(init) => {
                        let x = extracted_expr(cx, init);
                        let r = extracted_stmts(cx, stmts, i + 1, Seq::empty(), last);
                        Extracted {
                            value: finish(
                                acc,
                                SpecExpr::Let {
                                    vd: cx.vars[var],
                                    value: Box::new(x.value),
                                    body: Box::new(r.value),
                                },
                            ),
                            diags: x.diags + r.diags,
                        }
                    },
                },
            },
        }
    }
}

} // verus!
