//! Extraction of bodies: of expressions, for the most part, and of the
//! patterns and blocks in them.
use vstd::prelude::*;
use crate::ast::{
    binder_view, expr_views, lemma_expr_views_empty, lemma_expr_views_push,
    lemma_match_case_views_empty, lemma_match_case_views_push, lemma_pattern_views_empty,
    lemma_pattern_views_push, lemma_type_views_empty, match_case_views, pattern_views, ADTPattern,
    ADTSelector, And, BVNot, Block, Division, Equals, Expr, FunctionInvocation, GreaterEquals,
    GreaterThan, IfExpr, Int, LessEquals, LessThan, Let, LiteralPattern, MatchCase, MatchExpr,
    Minus, Not, Or, Pattern, Plus, Times, Tuple, TupleSelect, UMinus, ValDef, Variable,
    WildcardPattern, ADT, ADTSort,
};
use crate::diag::{BindingIssue, Diagnostic, Issue};
use crate::extraction::BodyExtractor;
use crate::factory::Factory;
use crate::host::{
    BinOp, BinderKey, BindingMode, BlockSafety, HostArm, HostBlock, HostExpr, HostExprKind,
    HostFieldExpr, HostFieldPat, HostPat, HostPatKind, HostStmt, HostTy, LogicalOp, Mutability,
    Span, UnOp,
};
use crate::literal::Literal;
use crate::model::{SpecExpr, SpecPattern};
use crate::rules::{
    constructor_pattern, extracted_adt_construction, extracted_arm, extracted_arms,
    extracted_binary, extracted_block, extracted_call, extracted_expr, extracted_exprs,
    extracted_field, extracted_field_exprs, extracted_if, extracted_logical_op, extracted_match,
    extracted_pattern, extracted_stmts, extracted_subpatterns, extracted_unary, failed_after,
    failed_expr, failed_pattern, field_count, field_order, field_position, finish, insert_field,
    looks_like_if, pattern_var, plain, strip_scopes,
};
use crate::validity::{
    lemma_valid_arms, lemma_valid_exprs, lemma_valid_field_exprs, lemma_valid_field_pats,
    valid_arm, valid_arms, valid_block, valid_expr, valid_exprs, valid_field_exprs,
    valid_field_pats, valid_pattern, valid_stmts,
};

verus! {

/// Where in `order` the field `j` goes: behind the last field whose position
/// is not greater.
proof fn lemma_insert_field(fields: Seq<HostFieldExpr>, order: Seq<usize>, j: usize, p: int)
    requires
        0 <= p <= order.len(),
        forall|k: int| p <= k < order.len() ==> fields[order[k] as int].name > fields[j as int].name,
        p > 0 ==> fields[order[p - 1] as int].name <= fields[j as int].name,
    ensures
        insert_field(fields, order, j) == order.insert(p, j),
    decreases order.len(),
{
    if order.len() == 0 {
        assert(order.insert(p, j) =~= seq![j]);
    } else if p == order.len() {
        assert(order.insert(p, j) =~= order.push(j));
    } else {
        lemma_insert_field(fields, order.drop_last(), j, p);
        assert(order.insert(p, j) =~= order.drop_last().insert(p, j).push(order.last()));
    }
}

/// The indices of the fields of a record construction in declared order:
/// sorted by the fields' positions, fields of one position in the order in
/// which they were written.
pub fn sorted_field_order(fields: &Vec<HostFieldExpr>) -> (order: Vec<usize>)
    ensures
        order@ == field_order(fields@, fields@.len()),
        order@.len() == fields@.len(),
        forall|k: int| 0 <= k < order@.len() ==> (#[trigger] order@[k]) < fields@.len(),
{
    let mut order: Vec<usize> = Vec::new();
    let mut j: usize = 0;
    while j < fields.len()
        invariant
            j <= fields@.len(),
            order@ == field_order(fields@, j as nat),
            order@.len() == j,
            forall|k: int| 0 <= k < order@.len() ==> (#[trigger] order@[k]) < fields@.len(),
        decreases fields.len() - j,
    {
        let mut p: usize = order.len();
        while p > 0 && fields[order[p - 1]].name > fields[j].name
            invariant
                j < fields@.len(),
                p <= order@.len(),
                forall|k: int| 0 <= k < order@.len() ==> (#[trigger] order@[k]) < fields@.len(),
                forall|k: int|
                    p <= k < order@.len() ==> fields@[order@[k] as int].name > fields@[j as int].name,
            decreases p,
        {
            p -= 1;
        }
        proof {
            lemma_insert_field(fields@, order@, j, p as int);
        }
        order.insert(p, j);
        j += 1;
    }
    order
}

/// The index of the first field pattern for the field at position `field`.
pub fn find_field(field_pats: &Vec<HostFieldPat>, field: usize) -> (r: Option<usize>)
    ensures
        match r {
            Some(j) => field_position(field_pats@, field as int, 0) == Some(j as int) && j
                < field_pats@.len(),
            None => field_position(field_pats@, field as int, 0) is None,
        },
{
    let mut j: usize = 0;
    while j < field_pats.len()
        invariant
            j <= field_pats@.len(),
            field_position(field_pats@, field as int, 0) == field_position(
                field_pats@,
                field as int,
                j as int,
            ),
        decreases field_pats.len() - j,
    {
        if field_pats[j].field == field {
            return Some(j);
        }
        j += 1;
    }
    None
}

/// The expressions around the last one: the last one alone where there are
/// none.
fn finish_block<'l>(f: &'l Factory, exprs: Vec<Expr<'l>>, last: Expr<'l>) -> (r: Expr<'l>)
    ensures
        r@ == finish(expr_views(exprs@), last@),
{
    if exprs.len() == 0 {
        last
    } else {
        Expr::Block(f.allocate(Block { exprs, last }))
    }
}

impl<'l> BodyExtractor<'l> {
    /// An extractor that has reported nothing is the one before.
    pub proof fn lemma_reported_nothing(&self)
        requires
            self.wf(),
        ensures
            self.reported(self, Seq::empty()),
    {
        assert(self.state().diagnostics + Seq::<Diagnostic>::empty()
            =~= self.state().diagnostics);
    }

    /// Reports add up.
    pub proof fn lemma_reported_more(
        &self,
        between: &Self,
        before: &Self,
        first: Seq<Diagnostic>,
        then: Seq<Diagnostic>,
    )
        requires
            between.reported(before, first),
            self.reported(between, then),
        ensures
            self.reported(before, first + then),
            self.cx() == before.cx(),
    {
        assert((before.state().diagnostics + first) + then =~= before.state().diagnostics + (first
            + then));
    }

    /// A report of a failure after the reports of a node's children.
    proof fn lemma_reported_failure(
        &self,
        between: &Self,
        before: &Self,
        diags: Seq<Diagnostic>,
        span: Span,
        issue: Issue,
    )
        requires
            between.reported(before, diags),
            self.reported(between, failed_expr(span, issue).diags),
        ensures
            self.reported(before, failed_after(diags, span, issue).diags),
    {
        self.lemma_reported_more(between, before, diags, failed_expr(span, issue).diags);
        assert(diags + failed_expr(span, issue).diags =~= failed_after(diags, span, issue).diags);
    }

    /// Extracts an expression. What cannot be extracted becomes the
    /// placeholder and is reported; the rest of the tree is extracted all the
    /// same.
    pub fn extract_expr(&mut self, expr: &HostExpr) -> (r: Expr<'l>)
        requires
            old(self).wf(),
            valid_expr(old(self).cx(), *expr),
        ensures
            final(self).reported(old(self), extracted_expr(old(self).cx(), *expr).diags),
            r@ == extracted_expr(old(self).cx(), *expr).value,
        decreases expr, 1nat,
    {
        let f = self.factory();
        proof {
            self.lemma_reported_nothing();
        }
        match &expr.kind {
            HostExprKind::Literal { literal } => match Literal::try_from(literal) {
                Ok(lit) => lit.as_st_literal(f),
                Err(_) => self.unsupported_expr(expr.span, Issue::Literal),
            },
            HostExprKind::Unary { .. } => self.extract_unary(expr),
            HostExprKind::Binary { .. } => self.extract_binary(expr),
            HostExprKind::LogicalOp { .. } => self.extract_logical_op(expr),
            HostExprKind::Tuple { fields } => {
                let exprs = self.extract_expr_refs(fields);
                Expr::Tuple(f.allocate(Tuple { exprs }))
            },
            HostExprKind::Field { .. } => self.extract_field(expr),
            HostExprKind::VarRef { id } => Expr::Variable(self.fetch_var(*id)),
            HostExprKind::Call { .. } => self.extract_call(expr),
            HostExprKind::Adt { .. } => self.extract_adt_construction(expr),
            HostExprKind::Block { body } => match body.safety_mode {
                BlockSafety::Safe => self.extract_block(body),
                BlockSafety::Unsafe => self.unsupported_expr(expr.span, Issue::UnsafeBlock),
            },
            HostExprKind::Match { scrutinee, arms } => match Self::looks_like_if(scrutinee, arms) {
                Some(has_else) => self.extract_if(expr, has_else),
                None => self.extract_match(expr),
            },
            HostExprKind::Scope { value } => self.extract_expr(value),
            HostExprKind::Use { source } => self.extract_expr(source),
            HostExprKind::NeverToAny { source } => self.extract_expr(source),
            HostExprKind::Other => self.unsupported_expr(expr.span, Issue::ExprKind),
        }
    }

    /// Extracts the expressions of a sequence, in their order.
    pub fn extract_expr_refs(&mut self, exprs: &Vec<HostExpr>) -> (r: Vec<Expr<'l>>)
        requires
            old(self).wf(),
            valid_exprs(old(self).cx(), exprs@, exprs@.len()),
        ensures
            final(self).reported(
                old(self),
                extracted_exprs(old(self).cx(), exprs@, exprs@.len()).diags,
            ),
            expr_views(r@) == extracted_exprs(old(self).cx(), exprs@, exprs@.len()).value,
        decreases exprs, exprs@.len(),
    {
        let mut r: Vec<Expr<'l>> = Vec::new();
        let mut i: usize = 0;
        let ghost cx = self.cx();
        proof {
            self.lemma_reported_nothing();
            lemma_expr_views_empty();
        }
        while i < exprs.len()
            invariant
                i <= exprs@.len(),
                cx == old(self).cx(),
                valid_exprs(cx, exprs@, exprs@.len()),
                self.reported(old(self), extracted_exprs(cx, exprs@, i as nat).diags),
                expr_views(r@) == extracted_exprs(cx, exprs@, i as nat).value,
            decreases exprs.len() - i,
        {
            let ghost before = *self;
            proof {
                lemma_valid_exprs(cx, exprs@, exprs@.len(), i as int);
            }
            let x = self.extract_expr(&exprs[i]);
            proof {
                self.lemma_reported_more(
                    &before,
                    old(self),
                    extracted_exprs(cx, exprs@, i as nat).diags,
                    extracted_expr(cx, exprs@[i as int]).diags,
                );
                lemma_expr_views_push(r@, x);
            }
            r.push(x);
            i += 1;
        }
        r
    }

    /// Extracts a negation: of the bits of an integer, of a boolean, or of
    /// the sign of an integer.
    fn extract_unary(&mut self, expr: &HostExpr) -> (r: Expr<'l>)
        requires
            old(self).wf(),
            expr.kind is Unary,
            valid_expr(old(self).cx(), *expr),
        ensures
            final(self).reported(old(self), extracted_unary(old(self).cx(), *expr).diags),
            r@ == extracted_unary(old(self).cx(), *expr).value,
        decreases expr, 0nat,
    {
        let f = self.factory();
        match &expr.kind {
            HostExprKind::Unary { op, arg } => {
                let arg_is_bv = arg.ty.is_bv_type();
                let arg_is_bool = arg.ty.is_bool_type();
                let a = self.extract_expr(arg);
                let ghost between = *self;
                let ghost diags = extracted_expr(old(self).cx(), **arg).diags;
                match op {
                    UnOp::Not => if arg_is_bv {
                        Expr::BVNot(f.allocate(BVNot { e: a }))
                    } else if arg_is_bool {
                        Expr::Not(f.allocate(Not { expr: a }))
                    } else {
                        let r = self.unsupported_expr(expr.span, Issue::UnaryOp);
                        proof {
                            self.lemma_reported_failure(
                                &between,
                                old(self),
                                diags,
                                expr.span,
                                Issue::UnaryOp,
                            );
                        }
                        r
                    },
                    UnOp::Neg => if arg_is_bv {
                        Expr::UMinus(f.allocate(UMinus { expr: a }))
                    } else {
                        let r = self.unsupported_expr(expr.span, Issue::UnaryOp);
                        proof {
                            self.lemma_reported_failure(
                                &between,
                                old(self),
                                diags,
                                expr.span,
                                Issue::UnaryOp,
                            );
                        }
                        r
                    },
                }
            },
            _ => vstd::pervasive::unreached(),
        }
    }

    /// Extracts a binary operation on two integers of fixed width or on two
    /// booleans.
    fn extract_binary(&mut self, expr: &HostExpr) -> (r: Expr<'l>)
        requires
            old(self).wf(),
            expr.kind is Binary,
            valid_expr(old(self).cx(), *expr),
        ensures
            final(self).reported(old(self), extracted_binary(old(self).cx(), *expr).diags),
            r@ == extracted_binary(old(self).cx(), *expr).value,
        decreases expr, 0nat,
    {
        let f = self.factory();
        match &expr.kind {
            HostExprKind::Binary { op, lhs, rhs } => {
                let args_are_bv = lhs.ty.is_bv_type() && rhs.ty.is_bv_type();
                let arg1 = self.extract_expr(lhs);
                let ghost between = *self;
                let arg2 = self.extract_expr(rhs);
                proof {
                    self.lemma_reported_more(
                        &between,
                        old(self),
                        extracted_expr(old(self).cx(), **lhs).diags,
                        extracted_expr(old(self).cx(), **rhs).diags,
                    );
                }
                match op {
                    BinOp::Eq => Expr::Equals(f.allocate(Equals { lhs: arg1, rhs: arg2 })),
                    BinOp::Ne => {
                        let equals = Expr::Equals(f.allocate(Equals { lhs: arg1, rhs: arg2 }));
                        assert(equals@ == SpecExpr::Equals {
                            lhs: Box::new(arg1@),
                            rhs: Box::new(arg2@),
                        });
                        Expr::Not(f.allocate(Not { expr: equals }))
                    },
                    BinOp::Add if args_are_bv => Expr::Plus(
                        f.allocate(Plus { lhs: arg1, rhs: arg2 }),
                    ),
                    BinOp::Sub if args_are_bv => Expr::Minus(
                        f.allocate(Minus { lhs: arg1, rhs: arg2 }),
                    ),
                    BinOp::Mul if args_are_bv => Expr::Times(
                        f.allocate(Times { lhs: arg1, rhs: arg2 }),
                    ),
                    BinOp::Div if args_are_bv => Expr::Division(
                        f.allocate(Division { lhs: arg1, rhs: arg2 }),
                    ),
                    BinOp::Lt if args_are_bv => Expr::LessThan(
                        f.allocate(LessThan { lhs: arg1, rhs: arg2 }),
                    ),
                    BinOp::Le if args_are_bv => Expr::LessEquals(
                        f.allocate(LessEquals { lhs: arg1, rhs: arg2 }),
                    ),
                    BinOp::Ge if args_are_bv => Expr::GreaterEquals(
                        f.allocate(GreaterEquals { lhs: arg1, rhs: arg2 }),
                    ),
                    BinOp::Gt if args_are_bv => Expr::GreaterThan(
                        f.allocate(GreaterThan { lhs: arg1, rhs: arg2 }),
                    ),
                    _ => {
                        let ghost both = *self;
                        let r = self.unsupported_expr(expr.span, Issue::BinaryOp);
                        proof {
                            self.lemma_reported_failure(
                                &both,
                                old(self),
                                extracted_expr(old(self).cx(), **lhs).diags + extracted_expr(
                                    old(self).cx(),
                                    **rhs,
                                ).diags,
                                expr.span,
                                Issue::BinaryOp,
                            );
                        }
                        r
                    },
                }
            },
            _ => vstd::pervasive::unreached(),
        }
    }

    /// Extracts a conjunction or disjunction of two booleans.
    fn extract_logical_op(&mut self, expr: &HostExpr) -> (r: Expr<'l>)
        requires
            old(self).wf(),
            expr.kind is LogicalOp,
            valid_expr(old(self).cx(), *expr),
        ensures
            final(self).reported(old(self), extracted_logical_op(old(self).cx(), *expr).diags),
            r@ == extracted_logical_op(old(self).cx(), *expr).value,
        decreases expr, 0nat,
    {
        let f = self.factory();
        match &expr.kind {
            HostExprKind::LogicalOp { op, lhs, rhs } => {
                let arg1 = self.extract_expr(lhs);
                let ghost between = *self;
                let arg2 = self.extract_expr(rhs);
                proof {
                    self.lemma_reported_more(
                        &between,
                        old(self),
                        extracted_expr(old(self).cx(), **lhs).diags,
                        extracted_expr(old(self).cx(), **rhs).diags,
                    );
                }
                let mut exprs: Vec<Expr<'l>> = Vec::new();
                exprs.push(arg1);
                exprs.push(arg2);
                assert(expr_views(exprs@) =~= seq![arg1@, arg2@]);
                match op {
                    LogicalOp::And => Expr::And(f.allocate(And { exprs })),
                    LogicalOp::Or => Expr::Or(f.allocate(Or { exprs })),
                }
            },
            _ => vstd::pervasive::unreached(),
        }
    }

    /// Extracts the access to a field of a tuple or of a record.
    fn extract_field(&mut self, expr: &HostExpr) -> (r: Expr<'l>)
        requires
            old(self).wf(),
            expr.kind is Field,
            valid_expr(old(self).cx(), *expr),
        ensures
            final(self).reported(old(self), extracted_field(old(self).cx(), *expr).diags),
            r@ == extracted_field(old(self).cx(), *expr).value,
        decreases expr, 0nat,
    {
        let f = self.factory();
        match &expr.kind {
            HostExprKind::Field { lhs, name } => {
                let tuple = self.extract_expr(lhs);
                let ghost between = *self;
                let index = *name;
                match &lhs.ty {
                    HostTy::Tuple { .. } => Expr::TupleSelect(
                        f.allocate(TupleSelect { tuple, index: (index as Int) + 1 }),
                    ),
                    HostTy::Adt { def } => match self.sort_of(*def) {
                        Some(sort) => {
                            let constructor = sort.constructors[0];
                            Expr::ADTSelector(
                                f.allocate(
                                    ADTSelector {
                                        adt: tuple,
                                        selector: constructor.fields[index].v.id,
                                    },
                                ),
                            )
                        },
                        None => {
                            let r = self.unsupported_expr(expr.span, Issue::UnresolvedAdt);
                            proof {
                                self.lemma_reported_failure(
                                    &between,
                                    old(self),
                                    extracted_expr(old(self).cx(), **lhs).diags,
                                    expr.span,
                                    Issue::UnresolvedAdt,
                                );
                            }
                            r
                        },
                    },
                    _ => vstd::pervasive::unreached(),
                }
            },
            _ => vstd::pervasive::unreached(),
        }
    }

    /// Extracts the call of a function that the callee's type names.
    fn extract_call(&mut self, expr: &HostExpr) -> (r: Expr<'l>)
        requires
            old(self).wf(),
            expr.kind is Call,
            valid_expr(old(self).cx(), *expr),
        ensures
            final(self).reported(old(self), extracted_call(old(self).cx(), *expr).diags),
            r@ == extracted_call(old(self).cx(), *expr).value,
        decreases expr, 0nat,
    {
        let f = self.factory();
        match &expr.kind {
            HostExprKind::Call { ty, args } => match ty {
                HostTy::FnDef { def } => {
                    let ghost given = args@;
                    let args = self.extract_expr_refs(args);
                    let ghost between = *self;
                    match self.id_of(*def) {
                        Some(id) => {
                            proof {
                                lemma_type_views_empty();
                            }
                            Expr::FunctionInvocation(
                                f.allocate(FunctionInvocation { id, tps: Vec::new(), args }),
                            )
                        },
                        None => {
                            let r = self.unsupported_expr(expr.span, Issue::UnresolvedCallee);
                            proof {
                                self.lemma_reported_failure(
                                    &between,
                                    old(self),
                                    extracted_exprs(old(self).cx(), given, given.len()).diags,
                                    expr.span,
                                    Issue::UnresolvedCallee,
                                );
                            }
                            r
                        },
                    }
                },
                _ => self.unsupported_expr(expr.span, Issue::IndirectCall),
            },
            _ => vstd::pervasive::unreached(),
        }
    }

    /// Extracts a record construction: its fields go into declared order.
    #[verifier::loop_isolation(false)]
    fn extract_adt_construction(&mut self, expr: &HostExpr) -> (r: Expr<'l>)
        requires
            old(self).wf(),
            expr.kind is Adt,
            valid_expr(old(self).cx(), *expr),
        ensures
            final(self).reported(
                old(self),
                extracted_adt_construction(old(self).cx(), *expr).diags,
            ),
            r@ == extracted_adt_construction(old(self).cx(), *expr).value,
        decreases expr, 0nat,
    {
        let f = self.factory();
        match &expr.kind {
            HostExprKind::Adt { adt_def, variant_index, fields, base } => {
                if base.is_some() {
                    return self.unsupported_expr(expr.span, Issue::AdtWithBase);
                }
                let sort = match self.sort_of(*adt_def) {
                    Some(sort) => sort,
                    None => {
                        return self.unsupported_expr(expr.span, Issue::UnresolvedAdt);
                    },
                };
                let constructor = sort.constructors[*variant_index];
                let order = sorted_field_order(fields);
                let mut args: Vec<Expr<'l>> = Vec::new();
                let mut k: usize = 0;
                let ghost cx = self.cx();
                proof {
                    self.lemma_reported_nothing();
                    lemma_expr_views_empty();
                }
                while k < order.len()
                    invariant
                        k <= order@.len(),
                        order@.len() == fields@.len(),
                        forall|i: int| 0 <= i < order@.len() ==> (#[trigger] order@[i]) < fields@.len(),
                        cx == old(self).cx(),
                        valid_field_exprs(cx, fields@, fields@.len()),
                        self.reported(
                            old(self),
                            extracted_field_exprs(cx, fields@, order@, k as nat).diags,
                        ),
                        expr_views(args@) == extracted_field_exprs(
                            cx,
                            fields@,
                            order@,
                            k as nat,
                        ).value,
                    decreases order.len() - k,
                {
                    let ghost before = *self;
                    let j = order[k];
                    proof {
                        lemma_valid_field_exprs(cx, fields@, fields@.len(), j as int);
                    }
                    let x = self.extract_expr(&fields[j].expr);
                    proof {
                        self.lemma_reported_more(
                            &before,
                            old(self),
                            extracted_field_exprs(cx, fields@, order@, k as nat).diags,
                            extracted_expr(cx, fields@[j as int].expr).diags,
                        );
                        lemma_expr_views_push(args@, x);
                    }
                    args.push(x);
                    k += 1;
                }
                proof {
                    lemma_type_views_empty();
                }
                Expr::ADT(f.allocate(ADT { id: constructor.id, tps: Vec::new(), args }))
            },
            _ => vstd::pervasive::unreached(),
        }
    }

    /// Extracts a match that is a conditional.
    fn extract_if(&mut self, expr: &HostExpr, has_else: bool) -> (r: Expr<'l>)
        requires
            old(self).wf(),
            expr.kind matches HostExprKind::Match { scrutinee, arms } && looks_like_if(
                *scrutinee,
                arms@,
            ) == Some(has_else),
            valid_expr(old(self).cx(), *expr),
        ensures
            final(self).reported(old(self), extracted_if(old(self).cx(), *expr, has_else).diags),
            r@ == extracted_if(old(self).cx(), *expr, has_else).value,
        decreases expr, 0nat,
    {
        let f = self.factory();
        match &expr.kind {
            HostExprKind::Match { scrutinee, arms } => {
                let ghost cx = self.cx();
                let cond = self.extract_expr(scrutinee);
                let ghost after_cond = *self;
                let then = self.extract_expr(&arms[0].body);
                proof {
                    self.lemma_reported_more(
                        &after_cond,
                        old(self),
                        extracted_expr(cx, **scrutinee).diags,
                        extracted_expr(cx, arms@[0].body).diags,
                    );
                }
                let ghost after_then = *self;
                let elze = if has_else {
                    self.extract_expr(&arms[1].body)
                } else {
                    proof {
                        self.lemma_reported_nothing();
                    }
                    f.unit()
                };
                proof {
                    let e = if has_else {
                        extracted_expr(cx, arms@[1].body).diags
                    } else {
                        Seq::empty()
                    };
                    self.lemma_reported_more(
                        &after_then,
                        old(self),
                        extracted_expr(cx, **scrutinee).diags + extracted_expr(
                            cx,
                            arms@[0].body,
                        ).diags,
                        e,
                    );
                }
                Expr::IfExpr(f.allocate(IfExpr { cond, thenn: then, elze }))
            },
            _ => vstd::pervasive::unreached(),
        }
    }

    /// Extracts a match that is no conditional: one case for each arm.
    #[verifier::loop_isolation(false)]
    fn extract_match(&mut self, expr: &HostExpr) -> (r: Expr<'l>)
        requires
            old(self).wf(),
            expr.kind matches HostExprKind::Match { scrutinee, arms } && looks_like_if(
                *scrutinee,
                arms@,
            ) is None,
            valid_expr(old(self).cx(), *expr),
        ensures
            final(self).reported(old(self), extracted_match(old(self).cx(), *expr).diags),
            r@ == extracted_match(old(self).cx(), *expr).value,
        decreases expr, 0nat,
    {
        let f = self.factory();
        match &expr.kind {
            HostExprKind::Match { scrutinee, arms } => {
                let ghost cx = self.cx();
                let scrutinee = self.extract_expr(scrutinee);
                let ghost after_scrutinee = *self;
                let ghost sd = extracted_expr(cx, *expr.kind->Match_scrutinee).diags;
                let mut cases: Vec<&'l MatchCase<'l>> = Vec::new();
                let mut i: usize = 0;
                proof {
                    self.lemma_reported_nothing();
                    lemma_match_case_views_empty();
                }
                while i < arms.len()
                    invariant
                        i <= arms@.len(),
                        cx == old(self).cx(),
                        cx == after_scrutinee.cx(),
                        valid_arms(cx, arms@, arms@.len()),
                        self.reported(&after_scrutinee, extracted_arms(cx, arms@, i as nat).diags),
                        match_case_views(cases@) == extracted_arms(cx, arms@, i as nat).value,
                    decreases arms.len() - i,
                {
                    let ghost before = *self;
                    proof {
                        lemma_valid_arms(cx, arms@, arms@.len(), i as int);
                    }
                    let case = self.extract_arm(&arms[i]);
                    proof {
                        self.lemma_reported_more(
                            &before,
                            &after_scrutinee,
                            extracted_arms(cx, arms@, i as nat).diags,
                            extracted_arm(cx, arms@[i as int]).diags,
                        );
                        lemma_match_case_views_push(cases@, case);
                    }
                    cases.push(case);
                    i += 1;
                }
                proof {
                    self.lemma_reported_more(
                        &after_scrutinee,
                        old(self),
                        sd,
                        extracted_arms(cx, arms@, arms@.len()).diags,
                    );
                }
                Expr::MatchExpr(f.allocate(MatchExpr { scrutinee, cases }))
            },
            _ => vstd::pervasive::unreached(),
        }
    }

    /// Extracts an arm: its pattern, its guard if it has one, and its body.
    fn extract_arm(&mut self, arm: &HostArm) -> (r: &'l MatchCase<'l>)
        requires
            old(self).wf(),
            valid_arm(old(self).cx(), *arm),
        ensures
            final(self).reported(old(self), extracted_arm(old(self).cx(), *arm).diags),
            r@ == extracted_arm(old(self).cx(), *arm).value,
        decreases arm, 0nat,
    {
        let ghost cx = self.cx();
        let pattern = self.extract_pattern(&arm.pattern, None);
        let ghost after_pattern = *self;
        let ghost pd = extracted_pattern(cx, arm.pattern, None).diags;
        let guard = match &arm.guard {
            Some(guard) => Some(self.extract_expr(guard)),
            None => {
                proof {
                    self.lemma_reported_nothing();
                }
                None
            },
        };
        let ghost gd = match &arm.guard {
            Some(guard) => extracted_expr(cx, *guard).diags,
            None => Seq::empty(),
        };
        proof {
            self.lemma_reported_more(&after_pattern, old(self), pd, gd);
        }
        let ghost after_guard = *self;
        let body = self.extract_expr(&arm.body);
        proof {
            self.lemma_reported_more(
                &after_guard,
                old(self),
                pd + gd,
                extracted_expr(cx, arm.body).diags,
            );
        }
        self.factory().MatchCase(pattern, guard, body)
    }

    /// Extracts a pattern under the binder that an enclosing binding gave
    /// it, if any. A pattern that cannot be extracted becomes the wildcard
    /// without binder and is reported.
    pub fn extract_pattern(&mut self, pattern: &HostPat, binder: Option<&'l ValDef<'l>>) -> (r:
        Pattern<'l>)
        requires
            old(self).wf(),
            valid_pattern(old(self).cx(), *pattern, binder is Some),
        ensures
            final(self).reported(
                old(self),
                extracted_pattern(old(self).cx(), *pattern, binder_view(binder)).diags,
            ),
            r@ == extracted_pattern(old(self).cx(), *pattern, binder_view(binder)).value,
        decreases pattern, 0nat,
    {
        let f = self.factory();
        proof {
            self.lemma_reported_nothing();
        }
        match &pattern.kind {
            HostPatKind::Wild => Pattern::WildcardPattern(f.allocate(WildcardPattern { binder })),
            HostPatKind::Binding { subpattern, .. } => {
                match self.try_pattern_to_var(&pattern.kind, true) {
                    Ok(var) => {
                        let binder: &'l ValDef<'l> = f.allocate(ValDef { v: var });
                        match subpattern {
                            Some(subpattern) => self.extract_pattern(subpattern, Some(binder)),
                            None => Pattern::WildcardPattern(
                                f.allocate(WildcardPattern { binder: Some(binder) }),
                            ),
                        }
                    },
                    Err(why) => self.unsupported_pattern(pattern.span, Issue::PatternBinding(why)),
                }
            },
            HostPatKind::Variant { adt_def, variant_index, subpatterns } => {
                match self.sort_of(*adt_def) {
                    Some(sort) => self.extract_constructor_pattern(
                        sort,
                        *variant_index,
                        subpatterns,
                        binder,
                    ),
                    None => self.unsupported_pattern(pattern.span, Issue::UnresolvedAdt),
                }
            },
            HostPatKind::Leaf { subpatterns } => match &pattern.ty {
                HostTy::Adt { def } => match self.sort_of(*def) {
                    Some(sort) => self.extract_constructor_pattern(sort, 0, subpatterns, binder),
                    None => self.unsupported_pattern(pattern.span, Issue::UnresolvedAdt),
                },
                _ => vstd::pervasive::unreached(),
            },
            HostPatKind::Constant { value } => match Literal::try_from(value) {
                Ok(lit) => Pattern::LiteralPattern(
                    f.allocate(LiteralPattern { binder, lit: lit.as_st_literal(f) }),
                ),
                Err(_) => self.unsupported_pattern(pattern.span, Issue::PatternLiteral),
            },
            HostPatKind::Other => self.unsupported_pattern(pattern.span, Issue::PatternKind),
        }
    }

    /// The pattern for a constructor of a sort, with one subpattern for
    /// every field that the constructor declares.
    fn extract_constructor_pattern(
        &mut self,
        sort: &'l ADTSort<'l>,
        variant_index: usize,
        subpatterns: &Vec<HostFieldPat>,
        binder: Option<&'l ValDef<'l>>,
    ) -> (r: Pattern<'l>)
        requires
            old(self).wf(),
            variant_index < sort.constructors@.len(),
            valid_field_pats(old(self).cx(), subpatterns@, subpatterns@.len()),
        ensures
            final(self).reported(
                old(self),
                extracted_subpatterns(
                    old(self).cx(),
                    subpatterns@,
                    field_count(sort@, variant_index as int),
                ).diags,
            ),
            r@ == constructor_pattern(
                sort@,
                variant_index as int,
                extracted_subpatterns(
                    old(self).cx(),
                    subpatterns@,
                    field_count(sort@, variant_index as int),
                ),
                binder_view(binder),
            ).value,
        decreases subpatterns, usize::MAX as nat + 1,
    {
        let f = self.factory();
        let constructor = sort.constructors[variant_index];
        let sub_patterns = self.extract_subpatterns(subpatterns, constructor.fields.len());
        proof {
            lemma_type_views_empty();
        }
        Pattern::ADTPattern(
            f.allocate(ADTPattern { binder, id: constructor.id, tps: Vec::new(), sub_patterns }),
        )
    }

    /// Extracts the field patterns of a constructor pattern into one
    /// subpattern for each of the `num_fields` declared fields, in declared
    /// order: a field that no pattern mentions gets the wildcard.
    pub fn extract_subpatterns(&mut self, field_pats: &Vec<HostFieldPat>, num_fields: usize) -> (r:
        Vec<Pattern<'l>>)
        requires
            old(self).wf(),
            valid_field_pats(old(self).cx(), field_pats@, field_pats@.len()),
        ensures
            final(self).reported(
                old(self),
                extracted_subpatterns(old(self).cx(), field_pats@, num_fields as nat).diags,
            ),
            pattern_views(r@) == extracted_subpatterns(
                old(self).cx(),
                field_pats@,
                num_fields as nat,
            ).value,
            r@.len() == num_fields,
        decreases field_pats, num_fields,
    {
        let f = self.factory();
        let mut subpatterns: Vec<Pattern<'l>> = Vec::new();
        let mut i: usize = 0;
        let ghost cx = self.cx();
        proof {
            self.lemma_reported_nothing();
            lemma_pattern_views_empty();
        }
        while i < num_fields
            invariant
                i <= num_fields,
                f == self.spec_factory(),
                cx == old(self).cx(),
                valid_field_pats(cx, field_pats@, field_pats@.len()),
                self.reported(old(self), extracted_subpatterns(cx, field_pats@, i as nat).diags),
                pattern_views(subpatterns@) == extracted_subpatterns(
                    cx,
                    field_pats@,
                    i as nat,
                ).value,
                subpatterns@.len() == i,
            decreases num_fields - i,
        {
            let ghost before = *self;
            let next = match find_field(field_pats, i) {
                Some(j) => {
                    proof {
                        lemma_valid_field_pats(cx, field_pats@, field_pats@.len(), j as int);
                    }
                    self.extract_pattern(&field_pats[j].pattern, None)
                },
                None => {
                    proof {
                        self.lemma_reported_nothing();
                    }
                    Pattern::WildcardPattern(f.allocate(WildcardPattern { binder: None }))
                },
            };
            proof {
                let x = match field_position(field_pats@, i as int, 0) {
                    Some(j) => extracted_pattern(cx, field_pats@[j].pattern, None),
                    None => plain(SpecPattern::WildcardPattern { binder: None }),
                };
                self.lemma_reported_more(
                    &before,
                    old(self),
                    extracted_subpatterns(cx, field_pats@, i as nat).diags,
                    x.diags,
                );
                lemma_pattern_views_push(subpatterns@, next);
            }
            subpatterns.push(next);
            i += 1;
        }
        subpatterns
    }

    /// Extracts the statements from position `i` on, in front of the
    /// extracted value of the block; `acc_exprs` holds the extracted
    /// expression statements since the last binding.
    fn extract_block_(
        &mut self,
        stmts: &Vec<HostStmt>,
        i: usize,
        acc_exprs: Vec<Expr<'l>>,
        final_expr: Expr<'l>,
    ) -> (r: Expr<'l>)
        requires
            old(self).wf(),
            i <= stmts@.len(),
            valid_stmts(old(self).cx(), stmts@, i as nat),
        ensures
            final(self).reported(
                old(self),
                extracted_stmts(
                    old(self).cx(),
                    stmts@,
                    i as nat,
                    expr_views(acc_exprs@),
                    final_expr@,
                ).diags,
            ),
            r@ == extracted_stmts(
                old(self).cx(),
                stmts@,
                i as nat,
                expr_views(acc_exprs@),
                final_expr@,
            ).value,
        decreases stmts, stmts@.len() - i,
    {
        let f = self.factory();
        let ghost cx = self.cx();
        proof {
            self.lemma_reported_nothing();
        }
        if i >= stmts.len() {
            return finish_block(f, acc_exprs, final_expr);
        }
        match &stmts[i] {
            HostStmt::Expr { expr } => {
                let x = self.extract_expr(expr);
                let ghost between = *self;
                let mut acc_exprs = acc_exprs;
                proof {
                    lemma_expr_views_push(acc_exprs@, x);
                }
                acc_exprs.push(x);
                let r = self.extract_block_(stmts, i + 1, acc_exprs, final_expr);
                proof {
                    self.lemma_reported_more(
                        &between,
                        old(self),
                        extracted_expr(cx, *expr).diags,
                        extracted_stmts(
                            cx,
                            stmts@,
                            (i + 1) as nat,
                            expr_views(acc_exprs@),
                            final_expr@,
                        ).diags,
                    );
                }
                r
            },
            HostStmt::Let { pattern, initializer } => {
                match self.try_pattern_to_var(&pattern.kind, false) {
                    Err(why) => {
                        self.unsupported(pattern.span, Issue::LetPattern(why));
                        finish_block(f, acc_exprs, f.unsupported())
                    },
                    Ok(var) => match initializer {
                        None => {
                            self.unsupported(pattern.span, Issue::LetWithoutInitializer);
                            finish_block(f, acc_exprs, f.unsupported())
                        },
                        Some(initializer) => {
                            let vd: &'l ValDef<'l> = f.allocate(ValDef { v: var });
                            let init = self.extract_expr(initializer);
                            let ghost between = *self;
                            proof {
                                lemma_expr_views_empty();
                            }
                            let body_expr = self.extract_block_(
                                stmts,
                                i + 1,
                                Vec::new(),
                                final_expr,
                            );
                            proof {
                                self.lemma_reported_more(
                                    &between,
                                    old(self),
                                    extracted_expr(cx, *initializer).diags,
                                    extracted_stmts(
                                        cx,
                                        stmts@,
                                        (i + 1) as nat,
                                        Seq::empty(),
                                        final_expr@,
                                    ).diags,
                                );
                            }
                            let last_expr = Expr::Let(
                                f.allocate(Let { vd, value: init, body: body_expr }),
                            );
                            finish_block(f, acc_exprs, last_expr)
                        },
                    },
                }
            },
        }
    }

    /// Extracts a block: its value first, then its statements around it.
    pub fn extract_block(&mut self, block: &HostBlock) -> (r: Expr<'l>)
        requires
            old(self).wf(),
            valid_block(old(self).cx(), *block),
        ensures
            final(self).reported(old(self), extracted_block(old(self).cx(), *block).diags),
            r@ == extracted_block(old(self).cx(), *block).value,
        decreases block, 0nat,
    {
        let ghost cx = self.cx();
        let final_expr = match &block.expr {
            Some(e) => self.extract_expr(e),
            None => {
                proof {
                    self.lemma_reported_nothing();
                }
                self.factory().unit()
            },
        };
        let ghost between = *self;
        let ghost fd = match &block.expr {
            Some(e) => extracted_expr(cx, **e).diags,
            None => Seq::empty(),
        };
        proof {
            lemma_expr_views_empty();
        }
        let r = self.extract_block_(&block.stmts, 0, Vec::new(), final_expr);
        proof {
            self.lemma_reported_more(
                &between,
                old(self),
                fd,
                extracted_stmts(cx, block.stmts@, 0, Seq::empty(), final_expr@).diags,
            );
        }
        r
    }

    /// The expression inside its scopes.
    pub fn strip_scopes<'a>(expr: &'a HostExpr) -> (r: &'a HostExpr)
        ensures
            *r == strip_scopes(*expr),
        decreases expr,
    {
        match &expr.kind {
            HostExprKind::Scope { value } => Self::strip_scopes(value),
            _ => expr,
        }
    }

    /// Whether the match with this scrutinee and these arms is a
    /// conditional and, if it is, whether it has an else branch.
    pub fn looks_like_if(scrutinee: &HostExpr, arms: &Vec<HostArm>) -> (r: Option<bool>)
        ensures
            r == looks_like_if(*scrutinee, arms@),
    {
        let is_if = arms.len() == 2 && scrutinee.ty.is_bool_type() && match (
            &arms[0].pattern.kind,
            &arms[1].pattern.kind,
        ) {
            (HostPatKind::Constant { value }, HostPatKind::Wild) => match Literal::try_from(value) {
                Ok(Literal::Bool(true)) => true,
                _ => false,
            },
            _ => false,
        };
        if is_if {
            let elze = Self::strip_scopes(&arms[1].body);
            let elze_missing = match &elze.kind {
                HostExprKind::Block { body } => body.stmts.len() == 0 && body.expr.is_none(),
                _ => false,
            };
            Some(!elze_missing)
        } else {
            None
        }
    }

    /// The variable that a pattern binds, if the pattern is an immutable
    /// binding by value, and one without a subpattern where none is allowed.
    pub fn try_pattern_to_var(&self, pat_kind: &HostPatKind, allow_subpattern: bool) -> (r: Result<
        &'l Variable<'l>,
        BindingIssue,
    >)
        requires
            pattern_var(*pat_kind, allow_subpattern) matches Ok(var) ==> self.vars().contains_key(
                var,
            ),
        ensures
            match r {
                Ok(v) => pattern_var(*pat_kind, allow_subpattern) matches Ok(var) && v@
                    == self.vars()[var],
                Err(why) => pattern_var(*pat_kind, allow_subpattern) == Err::<
                    BinderKey,
                    BindingIssue,
                >(why),
            },
    {
        match pat_kind {
            HostPatKind::Binding { mutability, mode, var, subpattern } => {
                let is_by_value = match mode {
                    BindingMode::ByValue => true,
                    _ => false,
                };
                let is_mutable = match mutability {
                    Mutability::Not => false,
                    _ => true,
                };
                if is_mutable {
                    Err(BindingIssue::Mutable)
                } else if !is_by_value {
                    Err(BindingIssue::ByReference)
                } else if !allow_subpattern && subpattern.is_some() {
                    Err(BindingIssue::Subpattern)
                } else {
                    Ok(self.fetch_var(*var))
                }
            },
            _ => Err(BindingIssue::NotABinding),
        }
    }

    /// Reports an expression that cannot be extracted; the placeholder
    /// stands for it.
    pub fn unsupported_expr(&mut self, span: Span, issue: Issue) -> (r: Expr<'l>)
        requires
            old(self).wf(),
        ensures
            final(self).reported(old(self), failed_expr(span, issue).diags),
            r@ == failed_expr(span, issue).value,
    {
        self.unsupported(span, issue);
        self.factory().unsupported()
    }

    /// Reports a pattern that cannot be extracted; the wildcard without
    /// binder stands for it, so that its case matches everything.
    pub fn unsupported_pattern(&mut self, span: Span, issue: Issue) -> (r: Pattern<'l>)
        requires
            old(self).wf(),
        ensures
            final(self).reported(old(self), failed_pattern(span, issue).diags),
            r@ == failed_pattern(span, issue).value,
    {
        self.unsupported(span, issue);
        Pattern::WildcardPattern(self.factory().allocate(WildcardPattern { binder: None }))
    }
}

} // verus!
