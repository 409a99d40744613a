//! Which host constructs extraction accepts. A construct outside of these
//! breaks an invariant of type-checked input: operands of mismatched kinds,
//! a field or variant that the sort does not have, a variable that the body
//! does not bind. Extraction is defined on valid constructs only.
use vstd::prelude::*;
use crate::ast::Int;
use crate::host::{
    HostArm, HostBlock, HostExpr, HostExprKind, HostFieldExpr, HostFieldPat, HostPat, HostPatKind,
    HostStmt, HostTy,
};
use crate::rules::{field_count, looks_like_if, pattern_var, Resolution};

verus! {

/// Whether the two operands of a binary operation are of one kind: both
/// integers of fixed width, or both booleans.
pub open spec fn operands_match(lhs: HostTy, rhs: HostTy) -> bool {
    (lhs.is_bv() && rhs.is_bv()) || (lhs.is_bool() && rhs.is_bool())
}

/// Whether the field at position `name` can be selected from a value of
/// type `ty`: from a tuple if the position can be counted from 1, from a
/// record if its sort has one constructor and that one has the field.
pub open spec fn valid_field(cx: Resolution, ty: HostTy, name: usize) -> bool {
    match ty {
        HostTy::Tuple { .. } => name < Int::MAX,
        HostTy::Adt { def } => match cx.sort_of(def) {
            Some(sort) => sort.constructors.len() == 1 && name < field_count(sort, 0),
            None => true,
        },
        _ => false,
    }
}

/// Whether the field patterns are for fields that the constructor declares,
/// and no two for the same field.
pub open spec fn fields_fit(fps: Seq<HostFieldPat>, num_fields: nat) -> bool {
    &&& forall|j: int| 0 <= j < fps.len() ==> (#[trigger] fps[j]).field < num_fields
    &&& forall|j: int, k: int| 0 <= j < k < fps.len() ==> (#[trigger] fps[j]).field != (#[trigger] fps[k]).field
}

/// Whether extraction accepts an expression.
pub open spec fn valid_expr(cx: Resolution, e: HostExpr) -> bool
    decreases e, 1nat,
{
    match e.kind {
        HostExprKind::Literal { .. } => true,
        HostExprKind::Unary { arg, .. } => valid_expr(cx, *arg),
        HostExprKind::Binary { lhs, rhs, .. } => operands_match(lhs.ty, rhs.ty) && valid_expr(
            cx,
            *lhs,
        ) && valid_expr(cx, *rhs),
        HostExprKind::LogicalOp { lhs, rhs, .. } => lhs.ty.is_bool() && rhs.ty.is_bool()
            && valid_expr(cx, *lhs) && valid_expr(cx, *rhs),
        HostExprKind::Tuple { fields } => valid_exprs(cx, fields@, fields@.len()),
        HostExprKind::Field { lhs, name } => valid_expr(cx, *lhs) && valid_field(cx, lhs.ty, name),
        HostExprKind::VarRef { id } => cx.vars.contains_key(id),
        HostExprKind::Call { ty, args } => ty is FnDef ==> valid_exprs(cx, args@, args@.len()),
        HostExprKind::Adt { adt_def, variant_index, fields, base } => base is None ==> match cx.sort_of(
            adt_def,
        ) {
            Some(sort) => variant_index < sort.constructors.len() && valid_field_exprs(
                cx,
                fields@,
                fields@.len(),
            ),
            None => true,
        },
        HostExprKind::Block { body } => body.safety_mode is Safe ==> valid_block(cx, body),
        HostExprKind::Match { scrutinee, arms } => valid_expr(cx, *scrutinee) && match looks_like_if(
            *scrutinee,
            arms@,
        ) {
            Some(has_else) => arms@.len() == 2 && valid_expr(cx, arms@[0].body) && (has_else
                ==> valid_expr(cx, arms@[1].body)),
            None => valid_arms(cx, arms@, arms@.len()),
        },
        HostExprKind::Scope { value } => valid_expr(cx, *value),
        HostExprKind::Use { source } => valid_expr(cx, *source),
        HostExprKind::NeverToAny { source } => valid_expr(cx, *source),
        HostExprKind::Other => true,
    }
}

/// Whether the first `n` expressions of a sequence are valid.
pub open spec fn valid_exprs(cx: Resolution, es: Seq<HostExpr>, n: nat) -> bool
    decreases es, n,
{
    if n == 0 || n > es.len() {
        true
    } else {
        valid_exprs(cx, es, (n - 1) as nat) && valid_expr(cx, es[n - 1])
    }
}

/// Whether the values of the first `n` fields of a record construction are
/// valid.
pub open spec fn valid_field_exprs(cx: Resolution, fields: Seq<HostFieldExpr>, n: nat) -> bool
    decreases fields, n,
{
    if n == 0 || n > fields.len() {
        true
    } else {
        valid_field_exprs(cx, fields, (n - 1) as nat) && valid_expr(cx, fields[n - 1].expr)
    }
}

/// Whether the first `n` arms of a match are valid.
pub open spec fn valid_arms(cx: Resolution, arms: Seq<HostArm>, n: nat) -> bool
    decreases arms, n,
{
    if n == 0 || n > arms.len() {
        true
    } else {
        valid_arms(cx, arms, (n - 1) as nat) && valid_arm(cx, arms[n - 1])
    }
}

/// Whether extraction accepts an arm: its pattern, its guard and its body.
pub open spec fn valid_arm(cx: Resolution, arm: HostArm) -> bool
    decreases arm, 0nat,
{
    &&& valid_pattern(cx, arm.pattern, false)
    &&& match arm.guard {
        Some(guard) => valid_expr(cx, guard),
        None => true,
    }
    &&& valid_expr(cx, arm.body)
}

/// Whether a pattern is valid, under a binder of an enclosing binding or
/// not. A binding under a binder is not: a binder goes to one pattern.
pub open spec fn valid_pattern(cx: Resolution, p: HostPat, has_binder: bool) -> bool
    decreases p, 0nat,
{
    match p.kind {
        HostPatKind::Wild => true,
        HostPatKind::Binding { subpattern, .. } => !has_binder && match pattern_var(p.kind, true) {
            Ok(var) => cx.vars.contains_key(var) && match subpattern {
                Some(sub) => valid_pattern(cx, *sub, true),
                None => true,
            },
            Err(_) => true,
        },
        HostPatKind::Variant { adt_def, variant_index, subpatterns } => match cx.sort_of(adt_def) {
            Some(sort) => variant_index < sort.constructors.len() && fields_fit(
                subpatterns@,
                field_count(sort, variant_index as int),
            ) && valid_field_pats(cx, subpatterns@, subpatterns@.len()),
            None => true,
        },
        HostPatKind::Leaf { subpatterns } => match p.ty {
            HostTy::Adt { def } => match cx.sort_of(def) {
                Some(sort) => sort.constructors.len() == 1 && fields_fit(
                    subpatterns@,
                    field_count(sort, 0),
                ) && valid_field_pats(cx, subpatterns@, subpatterns@.len()),
                None => true,
            },
            _ => false,
        },
        HostPatKind::Constant { .. } => true,
        HostPatKind::Other => true,
    }
}

/// Whether the patterns of the first `n` field patterns are valid.
pub open spec fn valid_field_pats(cx: Resolution, fps: Seq<HostFieldPat>, n: nat) -> bool
    decreases fps, n,
{
    if n == 0 || n > fps.len() {
        true
    } else {
        valid_field_pats(cx, fps, (n - 1) as nat) && valid_pattern(cx, fps[n - 1].pattern, false)
    }
}

/// Whether extraction accepts a block: its value and its statements.
pub open spec fn valid_block(cx: Resolution, block: HostBlock) -> bool
    decreases block, 0nat,
{
    &&& match block.expr {
        Some(e) => valid_expr(cx, *e),
        None => true,
    }
    &&& valid_stmts(cx, block.stmts@, 0)
}

/// Whether the statements from position `i` on are valid, as far as they
/// are extracted: up to the first binding that is none of a single
/// variable with an initializer.
pub open spec fn valid_stmts(cx: Resolution, stmts: Seq<HostStmt>, i: nat) -> bool
    decreases stmts, stmts.len() - i,
{
    if i >= stmts.len() {
        true
    } else {
        match stmts[i as int] {
            HostStmt::Expr { expr } => valid_expr(cx, expr) && valid_stmts(cx, stmts, i + 1),
            HostStmt::Let { pattern, initializer } => match pattern_var(pattern.kind, false) {
                Err(_) => true,
                Ok(var) => cx.vars.contains_key(var) && match initializer {
                    None => true,
                    Some(init) => valid_expr(cx, init) && valid_stmts(cx, stmts, i + 1),
                },
            },
        }
    }
}

/// Where the first `n` expressions are valid, each of them is.
pub proof fn lemma_valid_exprs(cx: Resolution, es: Seq<HostExpr>, n: nat, j: int)
    requires
        valid_exprs(cx, es, n),
        0 <= j < n <= es.len(),
    ensures
        valid_expr(cx, es[j]),
        valid_exprs(cx, es, j as nat),
    decreases n,
{
    if j < n - 1 {
        lemma_valid_exprs(cx, es, (n - 1) as nat, j);
    } else {
        lemma_valid_exprs_prefix(cx, es, n, j as nat);
    }
}

/// Where the first `n` expressions are valid, so are fewer of them.
pub proof fn lemma_valid_exprs_prefix(cx: Resolution, es: Seq<HostExpr>, n: nat, m: nat)
    requires
        valid_exprs(cx, es, n),
        m <= n <= es.len(),
    ensures
        valid_exprs(cx, es, m),
    decreases n,
{
    if m < n {
        lemma_valid_exprs_prefix(cx, es, (n - 1) as nat, m);
    }
}

/// Where the values of the first `n` fields are valid, each of them is.
pub proof fn lemma_valid_field_exprs(cx: Resolution, fields: Seq<HostFieldExpr>, n: nat, j: int)
    requires
        valid_field_exprs(cx, fields, n),
        0 <= j < n <= fields.len(),
    ensures
        valid_expr(cx, fields[j].expr),
    decreases n,
{
    if j < n - 1 {
        lemma_valid_field_exprs(cx, fields, (n - 1) as nat, j);
    }
}

/// Where the first `n` arms are valid, each of them is.
pub proof fn lemma_valid_arms(cx: Resolution, arms: Seq<HostArm>, n: nat, j: int)
    requires
        valid_arms(cx, arms, n),
        0 <= j < n <= arms.len(),
    ensures
        valid_arm(cx, arms[j]),
    decreases n,
{
    if j < n - 1 {
        lemma_valid_arms(cx, arms, (n - 1) as nat, j);
    }
}

/// Where the patterns of the first `n` field patterns are valid, each of
/// them is.
pub proof fn lemma_valid_field_pats(cx: Resolution, fps: Seq<HostFieldPat>, n: nat, j: int)
    requires
        valid_field_pats(cx, fps, n),
        0 <= j < n <= fps.len(),
    ensures
        valid_pattern(cx, fps[j].pattern, false),
    decreases n,
{
    if j < n - 1 {
        lemma_valid_field_pats(cx, fps, (n - 1) as nat, j);
    }
}

} // verus!
