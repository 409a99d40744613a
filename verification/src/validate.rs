//! Deciding which host constructs extraction accepts, before extracting
//! them.
use vstd::prelude::*;
use crate::diag::BindingIssue;
use crate::extraction::BodyExtractor;
use crate::host::{
    BinderKey, BindingMode, BlockSafety, HostArm, HostBlock, HostExpr, HostExprKind,
    HostFieldExpr, HostFieldPat, HostPat, HostPatKind, HostStmt, HostTy, Mutability,
};
use crate::rules::{looks_like_if, pattern_var};
use crate::validity::{
    fields_fit, lemma_valid_arms, lemma_valid_exprs, lemma_valid_field_exprs,
    lemma_valid_field_pats, valid_arm, valid_arms, valid_block, valid_expr, valid_exprs,
    valid_field, valid_field_exprs, valid_field_pats, valid_pattern, valid_stmts,
};

verus! {

/// The binder that a pattern stands for, or why it stands for none.
pub fn binder_of(pat_kind: &HostPatKind, allow_subpattern: bool) -> (r: Result<
    BinderKey,
    BindingIssue,
>)
    ensures
        r == pattern_var(*pat_kind, allow_subpattern),
{
    match pat_kind {
        HostPatKind::Binding { mutability, mode, var, subpattern } => {
            let is_by_value = match mode {
                BindingMode::ByValue => true,
                _ => false,
            };
            let is_mutable = match mutability {
                Mutability::Not => false,
                _ => true,
            };
            if is_mutable {
                Err(BindingIssue::Mutable)
            } else if !is_by_value {
                Err(BindingIssue::ByReference)
            } else if !allow_subpattern && subpattern.is_some() {
                Err(BindingIssue::Subpattern)
            } else {
                Ok(*var)
            }
        },
        _ => Err(BindingIssue::NotABinding),
    }
}

/// Whether the field patterns are for fields that the constructor declares,
/// and no two for the same field.
pub fn check_fields_fit(field_pats: &Vec<HostFieldPat>, num_fields: usize) -> (b: bool)
    ensures
        b == fields_fit(field_pats@, num_fields as nat),
{
    let mut j: usize = 0;
    while j < field_pats.len()
        invariant
            j <= field_pats@.len(),
            forall|a: int| 0 <= a < j ==> (#[trigger] field_pats@[a]).field < num_fields,
            forall|a: int, c: int|
                0 <= a < c < j ==> (#[trigger] field_pats@[a]).field != (
                #[trigger] field_pats@[c]).field,
        decreases field_pats.len() - j,
    {
        if field_pats[j].field >= num_fields {
            return false;
        }
        let mut k: usize = 0;
        while k < j
            invariant
                k <= j < field_pats@.len(),
                forall|a: int|
                    0 <= a < k ==> (#[trigger] field_pats@[a]).field != field_pats@[j as int].field,
            decreases j - k,
        {
            if field_pats[k].field == field_pats[j].field {
                return false;
            }
            k += 1;
        }
        j += 1;
    }
    true
}

impl<'l> BodyExtractor<'l> {
    /// Whether extraction accepts an expression.
    pub fn is_valid_expr(&self, expr: &HostExpr) -> (b: bool)
        requires
            self.wf(),
        ensures
            b == valid_expr(self.cx(), *expr),
        decreases expr, 1nat,
    {
        match &expr.kind {
            HostExprKind::Literal { .. } => true,
            HostExprKind::Unary { arg, .. } => self.is_valid_expr(arg),
            HostExprKind::Binary { lhs, rhs, .. } => {
                let args_are_bv = lhs.ty.is_bv_type() && rhs.ty.is_bv_type();
                let args_are_bool = lhs.ty.is_bool_type() && rhs.ty.is_bool_type();
                (args_are_bv || args_are_bool) && self.is_valid_expr(lhs) && self.is_valid_expr(rhs)
            },
            HostExprKind::LogicalOp { lhs, rhs, .. } => {
                lhs.ty.is_bool_type() && rhs.ty.is_bool_type() && self.is_valid_expr(lhs)
                    && self.is_valid_expr(rhs)
            },
            HostExprKind::Tuple { fields } => self.is_valid_exprs(fields),
            HostExprKind::Field { lhs, name } => {
                self.is_valid_expr(lhs) && self.is_valid_field(&lhs.ty, *name)
            },
            HostExprKind::VarRef { id } => self.has_var(*id),
            HostExprKind::Call { ty, args } => match ty {
                HostTy::FnDef { .. } => self.is_valid_exprs(args),
                _ => true,
            },
            HostExprKind::Adt { adt_def, variant_index, fields, base } => {
                if base.is_some() {
                    true
                } else {
                    match self.sort_of(*adt_def) {
                        Some(sort) => *variant_index < sort.constructors.len()
                            && self.is_valid_field_exprs(fields),
                        None => true,
                    }
                }
            },
            HostExprKind::Block { body } => match body.safety_mode {
                BlockSafety::Safe => self.is_valid_block(body),
                BlockSafety::Unsafe => true,
            },
            HostExprKind::Match { scrutinee, arms } => {
                if !self.is_valid_expr(scrutinee) {
                    return false;
                }
                match Self::looks_like_if(scrutinee, arms) {
                    Some(has_else) => self.is_valid_expr(&arms[0].body) && (!has_else
                        || self.is_valid_expr(&arms[1].body)),
                    None => self.is_valid_arms(arms),
                }
            },
            HostExprKind::Scope { value } => self.is_valid_expr(value),
            HostExprKind::Use { source } => self.is_valid_expr(source),
            HostExprKind::NeverToAny { source } => self.is_valid_expr(source),
            HostExprKind::Other => true,
        }
    }

    /// Whether the field at position `name` can be selected from a value of
    /// the given type.
    pub fn is_valid_field(&self, ty: &HostTy, name: usize) -> (b: bool)
        requires
            self.wf(),
        ensures
            b == valid_field(self.cx(), *ty, name),
    {
        match ty {
            HostTy::Tuple { .. } => name < 0x7fff_ffff,
            HostTy::Adt { def } => match self.sort_of(*def) {
                Some(sort) => sort.constructors.len() == 1 && name
                    < sort.constructors[0].fields.len(),
                None => true,
            },
            _ => false,
        }
    }

    /// Whether extraction accepts every expression of a sequence.
    pub fn is_valid_exprs(&self, exprs: &Vec<HostExpr>) -> (b: bool)
        requires
            self.wf(),
        ensures
            b == valid_exprs(self.cx(), exprs@, exprs@.len()),
        decreases exprs, 0nat,
    {
        let mut i: usize = 0;
        while i < exprs.len()
            invariant
                self.wf(),
                i <= exprs@.len(),
                valid_exprs(self.cx(), exprs@, i as nat),
            decreases exprs.len() - i,
        {
            if !self.is_valid_expr(&exprs[i]) {
                proof {
                    if valid_exprs(self.cx(), exprs@, exprs@.len()) {
                        lemma_valid_exprs(self.cx(), exprs@, exprs@.len(), i as int);
                    }
                }
                return false;
            }
            i += 1;
        }
        true
    }

    /// Whether extraction accepts the value of every field of a record
    /// construction.
    pub fn is_valid_field_exprs(&self, fields: &Vec<HostFieldExpr>) -> (b: bool)
        requires
            self.wf(),
        ensures
            b == valid_field_exprs(self.cx(), fields@, fields@.len()),
        decreases fields, 0nat,
    {
        let mut i: usize = 0;
        while i < fields.len()
            invariant
                self.wf(),
                i <= fields@.len(),
                valid_field_exprs(self.cx(), fields@, i as nat),
            decreases fields.len() - i,
        {
            if !self.is_valid_expr(&fields[i].expr) {
                proof {
                    if valid_field_exprs(self.cx(), fields@, fields@.len()) {
                        lemma_valid_field_exprs(self.cx(), fields@, fields@.len(), i as int);
                    }
                }
                return false;
            }
            i += 1;
        }
        true
    }

    /// Whether extraction accepts every arm of a match.
    pub fn is_valid_arms(&self, arms: &Vec<HostArm>) -> (b: bool)
        requires
            self.wf(),
        ensures
            b == valid_arms(self.cx(), arms@, arms@.len()),
        decreases arms, 1nat,
    {
        let mut i: usize = 0;
        while i < arms.len()
            invariant
                self.wf(),
                i <= arms@.len(),
                valid_arms(self.cx(), arms@, i as nat),
            decreases arms.len() - i,
        {
            if !self.is_valid_arm(&arms[i]) {
                proof {
                    if valid_arms(self.cx(), arms@, arms@.len()) {
                        lemma_valid_arms(self.cx(), arms@, arms@.len(), i as int);
                    }
                }
                return false;
            }
            i += 1;
        }
        true
    }

    /// Whether extraction accepts an arm: its pattern, guard and body.
    pub fn is_valid_arm(&self, arm: &HostArm) -> (b: bool)
        requires
            self.wf(),
        ensures
            b == valid_arm(self.cx(), *arm),
        decreases arm, 0nat,
    {
        if !self.is_valid_pattern(&arm.pattern, false) {
            return false;
        }
        let guard_is_valid = match &arm.guard {
            Some(guard) => self.is_valid_expr(guard),
            None => true,
        };
        guard_is_valid && self.is_valid_expr(&arm.body)
    }

    /// Whether extraction accepts a pattern, under a binder or not.
    pub fn is_valid_pattern(&self, pattern: &HostPat, has_binder: bool) -> (b: bool)
        requires
            self.wf(),
        ensures
            b == valid_pattern(self.cx(), *pattern, has_binder),
        decreases pattern, 0nat,
    {
        match &pattern.kind {
            HostPatKind::Wild => true,
            HostPatKind::Binding { subpattern, .. } => {
                if has_binder {
                    return false;
                }
                match binder_of(&pattern.kind, true) {
                    Ok(var) => self.has_var(var) && match subpattern {
                        Some(sub) => self.is_valid_pattern(sub, true),
                        None => true,
                    },
                    Err(_) => true,
                }
            },
            HostPatKind::Variant { adt_def, variant_index, subpatterns } => {
                match self.sort_of(*adt_def) {
                    Some(sort) => *variant_index < sort.constructors.len() && check_fields_fit(
                        subpatterns,
                        sort.constructors[*variant_index].fields.len(),
                    ) && self.is_valid_field_pats(subpatterns),
                    None => true,
                }
            },
            HostPatKind::Leaf { subpatterns } => match &pattern.ty {
                HostTy::Adt { def } => match self.sort_of(*def) {
                    Some(sort) => sort.constructors.len() == 1 && check_fields_fit(
                        subpatterns,
                        sort.constructors[0].fields.len(),
                    ) && self.is_valid_field_pats(subpatterns),
                    None => true,
                },
                _ => false,
            },
            HostPatKind::Constant { .. } => true,
            HostPatKind::Other => true,
        }
    }

    /// Whether extraction accepts the pattern of every field pattern.
    pub fn is_valid_field_pats(&self, field_pats: &Vec<HostFieldPat>) -> (b: bool)
        requires
            self.wf(),
        ensures
            b == valid_field_pats(self.cx(), field_pats@, field_pats@.len()),
        decreases field_pats, 0nat,
    {
        let mut i: usize = 0;
        while i < field_pats.len()
            invariant
                self.wf(),
                i <= field_pats@.len(),
                valid_field_pats(self.cx(), field_pats@, i as nat),
            decreases field_pats.len() - i,
        {
            if !self.is_valid_pattern(&field_pats[i].pattern, false) {
                proof {
                    if valid_field_pats(self.cx(), field_pats@, field_pats@.len()) {
                        lemma_valid_field_pats(
                            self.cx(),
                            field_pats@,
                            field_pats@.len(),
                            i as int,
                        );
                    }
                }
                return false;
            }
            i += 1;
        }
        true
    }

    /// Whether extraction accepts a block: its value and its statements.
    pub fn is_valid_block(&self, block: &HostBlock) -> (b: bool)
        requires
            self.wf(),
        ensures
            b == valid_block(self.cx(), *block),
        decreases block, 0nat,
    {
        let value_is_valid = match &block.expr {
            Some(e) => self.is_valid_expr(e),
            None => true,
        };
        value_is_valid && self.is_valid_stmts(&block.stmts, 0)
    }

    /// Whether extraction accepts the statements from position `i` on, as
    /// far as it extracts them.
    pub fn is_valid_stmts(&self, stmts: &Vec<HostStmt>, i: usize) -> (b: bool)
        requires
            self.wf(),
            i <= stmts@.len(),
        ensures
            b == valid_stmts(self.cx(), stmts@, i as nat),
        decreases stmts, stmts@.len() - i,
    {
        if i >= stmts.len() {
            return true;
        }
        match &stmts[i] {
            HostStmt::Expr { expr } => self.is_valid_expr(expr) && self.is_valid_stmts(
                stmts,
                i + 1,
            ),
            HostStmt::Let { pattern, initializer } => match binder_of(&pattern.kind, false) {
                Err(_) => true,
                Ok(var) => self.has_var(var) && match initializer {
                    None => true,
                    Some(init) => self.is_valid_expr(init) && self.is_valid_stmts(stmts, i + 1),
                },
            },
        }
    }
}

} // verus!
