//! The host program as the front end hands it over: a fully resolved, typed
//! body, held as plain values. Definitions and binders are named by stable
//! keys; source locations are spans.
use vstd::prelude::*;

verus! {

/// The stable identity of a top-level definition of the host program.
pub type DefKey = u64;

/// The stable identity of a lexical binder within one body.
pub type BinderKey = u64;

/// A source location.
#[derive(Clone, Copy, Debug, PartialEq, Eq, Hash)]
pub struct Span {
    pub lo: u32,
    pub hi: u32,
}

/// A host type, as far as extraction tells types apart. An integer type
/// without a bit width is one whose width depends on the target.
#[derive(Debug, PartialEq, Eq, Hash)]
#[allow(inconsistent_fields)]
pub enum HostTy {
    Bool,
    Int { bit_width: Option<u64> },
    Uint { bit_width: Option<u64> },
    Str,
    Tuple { fields: Vec<HostTy> },
    Adt { def: DefKey },
    FnDef { def: DefKey },
    Other,
}

impl HostTy {
    /// Whether this is the type of booleans.
    pub open spec fn is_bool(&self) -> bool {
        self is Bool
    }

    /// The unit type is the tuple without components.
    pub open spec fn is_unit(&self) -> bool {
        self matches HostTy::Tuple { fields } && fields@.len() == 0
    }

    /// Whether this is an integer type of fixed width.
    pub open spec fn is_bv(&self) -> bool {
        match self {
            HostTy::Int { bit_width } => bit_width is Some,
            HostTy::Uint { bit_width } => bit_width is Some,
            _ => false,
        }
    }

    #[verifier::when_used_as_spec(is_bool)]
    /// Whether this is the type of booleans.
    pub fn is_bool_type(&self) -> (b: bool)
        ensures
            b == self.is_bool(),
    {
        match self {
            HostTy::Bool => true,
            _ => false,
        }
    }

    #[verifier::when_used_as_spec(is_unit)]
    /// Whether this is the unit type.
    pub fn is_unit_type(&self) -> (b: bool)
        ensures
            b == self.is_unit(),
    {
        match self {
            HostTy::Tuple { fields } => fields.len() == 0,
            _ => false,
        }
    }

    #[verifier::when_used_as_spec(is_bv)]
    /// Whether this is an integer type of fixed width.
    pub fn is_bv_type(&self) -> (b: bool)
        ensures
            b == self.is_bv(),
    {
        match self {
            HostTy::Int { bit_width } => bit_width.is_some(),
            HostTy::Uint { bit_width } => bit_width.is_some(),
            _ => false,
        }
    }
}

/// The value of a host constant.
#[derive(Debug, PartialEq, Eq, Hash)]
#[allow(inconsistent_fields)]
pub enum HostConstVal {
    /// Raw bits, and the number of bytes that they occupy.
    Scalar { data: u128, size: u64 },
    /// The bytes from `start` up to `end` of `data`.
    Slice { data: Vec<u8>, start: usize, end: usize },
    Other,
}

/// A host constant: a type and a value.
#[derive(Debug, PartialEq, Eq, Hash)]
pub struct HostConst {
    pub ty: HostTy,
    pub val: HostConstVal,
}

#[derive(Clone, Copy, Debug, PartialEq, Eq, Hash)]
pub enum UnOp {
    Not,
    Neg,
}

#[derive(Clone, Copy, Debug, PartialEq, Eq, Hash)]
pub enum BinOp {
    Add,
    Sub,
    Mul,
    Div,
    Rem,
    BitXor,
    BitAnd,
    BitOr,
    Shl,
    Shr,
    Eq,
    Lt,
    Le,
    Ne,
    Ge,
    Gt,
    Offset,
}

#[derive(Clone, Copy, Debug, PartialEq, Eq, Hash)]
pub enum LogicalOp {
    And,
    Or,
}

#[derive(Clone, Copy, Debug, PartialEq, Eq, Hash)]
pub enum BlockSafety {
    Safe,
    Unsafe,
}

#[derive(Clone, Copy, Debug, PartialEq, Eq, Hash)]
pub enum Mutability {
    Mut,
    Not,
}

#[derive(Clone, Copy, Debug, PartialEq, Eq, Hash)]
pub enum BindingMode {
    ByValue,
    ByRef,
}

/// A host expression with its type and location.
#[derive(Debug, PartialEq, Eq, Hash)]
pub struct HostExpr {
    pub kind: HostExprKind,
    pub ty: HostTy,
    pub span: Span,
}

#[derive(Debug, PartialEq, Eq, Hash)]
#[allow(inconsistent_fields)]
pub enum HostExprKind {
    Literal { literal: HostConst },
    Unary { op: UnOp, arg: Box<HostExpr> },
    Binary { op: BinOp, lhs: Box<HostExpr>, rhs: Box<HostExpr> },
    LogicalOp { op: LogicalOp, lhs: Box<HostExpr>, rhs: Box<HostExpr> },
    Tuple { fields: Vec<HostExpr> },
    /// Access to the field at position `name` of a tuple or a record.
    Field { lhs: Box<HostExpr>, name: usize },
    VarRef { id: BinderKey },
    /// A call; `ty` is the type of the callee.
    Call { ty: HostTy, args: Vec<HostExpr> },
    Adt {
        adt_def: DefKey,
        variant_index: usize,
        fields: Vec<HostFieldExpr>,
        base: Option<Box<HostExpr>>,
    },
    Block { body: HostBlock },
    Match { scrutinee: Box<HostExpr>, arms: Vec<HostArm> },
    Scope { value: Box<HostExpr> },
    Use { source: Box<HostExpr> },
    NeverToAny { source: Box<HostExpr> },
    /// Any construct that is not among the above.
    Other,
}

/// One field of a record construction: its declared position and its value.
#[derive(Debug, PartialEq, Eq, Hash)]
pub struct HostFieldExpr {
    pub name: usize,
    pub expr: HostExpr,
}

#[derive(Debug, PartialEq, Eq, Hash)]
pub struct HostBlock {
    pub safety_mode: BlockSafety,
    pub stmts: Vec<HostStmt>,
    pub expr: Option<Box<HostExpr>>,
}

#[derive(Debug, PartialEq, Eq, Hash)]
#[allow(inconsistent_fields)]
pub enum HostStmt {
    Expr { expr: HostExpr },
    Let { pattern: HostPat, initializer: Option<HostExpr> },
}

#[derive(Debug, PartialEq, Eq, Hash)]
pub struct HostArm {
    pub pattern: HostPat,
    pub guard: Option<HostExpr>,
    pub body: HostExpr,
}

/// A host pattern with the type of what it matches and its location.
#[derive(Debug, PartialEq, Eq, Hash)]
pub struct HostPat {
    pub kind: HostPatKind,
    pub ty: HostTy,
    pub span: Span,
}

#[derive(Debug, PartialEq, Eq, Hash)]
#[allow(inconsistent_fields)]
pub enum HostPatKind {
    Wild,
    Binding {
        mutability: Mutability,
        mode: BindingMode,
        var: BinderKey,
        subpattern: Option<Box<HostPat>>,
    },
    /// A pattern for one variant of a type with several.
    Variant { adt_def: DefKey, variant_index: usize, subpatterns: Vec<HostFieldPat> },
    /// A pattern for a type with a single variant.
    Leaf { subpatterns: Vec<HostFieldPat> },
    Constant { value: HostConst },
    /// Any pattern that is not among the above.
    Other,
}

/// One field of a record pattern: its declared position and its pattern.
#[derive(Debug, PartialEq, Eq, Hash)]
pub struct HostFieldPat {
    pub field: usize,
    pub pattern: HostPat,
}

/// A binder of a body: a parameter or a local variable.
#[derive(Debug, PartialEq, Eq, Hash)]
pub struct HostBinder {
    pub id: BinderKey,
    pub name: String,
    pub ty: HostTy,
    pub span: Span,
}

/// A declared field of a constructor.
#[derive(Debug, PartialEq, Eq, Hash)]
pub struct HostField {
    pub name: String,
    pub ty: HostTy,
    pub span: Span,
}

/// A declared variant of a data type, with its fields in declared order.
#[derive(Debug, PartialEq, Eq, Hash)]
pub struct HostVariant {
    pub def: DefKey,
    pub path: Vec<String>,
    pub fields: Vec<HostField>,
}

/// A declared data type, with its variants in declared order.
#[derive(Debug, PartialEq, Eq, Hash)]
pub struct HostAdt {
    pub def: DefKey,
    pub path: Vec<String>,
    pub variants: Vec<HostVariant>,
}

/// A function with its body: its parameters in declared order, and the
/// binders of the local variables of its body.
#[derive(Debug, PartialEq, Eq, Hash)]
pub struct HostFn {
    pub def: DefKey,
    pub path: Vec<String>,
    pub params: Vec<HostBinder>,
    pub bindings: Vec<HostBinder>,
    pub return_ty: HostTy,
    pub body: HostExpr,
    pub span: Span,
}

/// The definitions of a program.
#[derive(Debug, PartialEq, Eq, Hash)]
pub struct HostCrate {
    pub adts: Vec<HostAdt>,
    pub functions: Vec<HostFn>,
}

} // verus!
