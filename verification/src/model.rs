//! The mathematical model of the intermediate representation: what a tree
//! is, apart from where its nodes are allocated. Contracts speak of these
//! values; every node of the representation has one as its view.
use vstd::prelude::*;
use crate::ast::{Flag, Int};

verus! {

pub struct SpecIdentifier {
    pub name: Seq<char>,
    pub global_id: Int,
    pub id: Int,
}

pub struct SpecSymbolIdentifier {
    pub id: SpecIdentifier,
    pub symbol_path: Seq<Seq<char>>,
}

pub struct SpecTypeParameter {
    pub id: SpecSymbolIdentifier,
    pub flags: Seq<Flag>,
}

#[allow(inconsistent_fields)]
pub enum SpecType {
    Untyped,
    BooleanType,
    UnitType,
    StringType,
    BVType { signed: bool, size: Int },
    TypeParameter { tp: SpecTypeParameter },
    TupleType { bases: Seq<SpecType> },
    ADTType { id: SpecSymbolIdentifier, tps: Seq<SpecType> },
}

pub struct SpecVariable {
    pub id: SpecSymbolIdentifier,
    pub tpe: SpecType,
    pub flags: Seq<Flag>,
}

#[allow(inconsistent_fields)]
pub enum SpecExpr {
    UnitLiteral,
    BooleanLiteral { value: bool },
    BVLiteral { signed: bool, value: int, size: Int },
    StringLiteral { value: Seq<char> },
    Not { expr: Box<SpecExpr> },
    BVNot { e: Box<SpecExpr> },
    UMinus { expr: Box<SpecExpr> },
    Plus { lhs: Box<SpecExpr>, rhs: Box<SpecExpr> },
    Minus { lhs: Box<SpecExpr>, rhs: Box<SpecExpr> },
    Times { lhs: Box<SpecExpr>, rhs: Box<SpecExpr> },
    Division { lhs: Box<SpecExpr>, rhs: Box<SpecExpr> },
    LessThan { lhs: Box<SpecExpr>, rhs: Box<SpecExpr> },
    LessEquals { lhs: Box<SpecExpr>, rhs: Box<SpecExpr> },
    GreaterEquals { lhs: Box<SpecExpr>, rhs: Box<SpecExpr> },
    GreaterThan { lhs: Box<SpecExpr>, rhs: Box<SpecExpr> },
    Equals { lhs: Box<SpecExpr>, rhs: Box<SpecExpr> },
    And { exprs: Seq<SpecExpr> },
    Or { exprs: Seq<SpecExpr> },
    Tuple { exprs: Seq<SpecExpr> },
    TupleSelect { tuple: Box<SpecExpr>, index: Int },
    ADT { id: SpecSymbolIdentifier, tps: Seq<SpecType>, args: Seq<SpecExpr> },
    ADTSelector { adt: Box<SpecExpr>, selector: SpecSymbolIdentifier },
    Variable { v: SpecVariable },
    FunctionInvocation { id: SpecSymbolIdentifier, tps: Seq<SpecType>, args: Seq<SpecExpr> },
    IfExpr { cond: Box<SpecExpr>, thenn: Box<SpecExpr>, elze: Box<SpecExpr> },
    MatchExpr { scrutinee: Box<SpecExpr>, cases: Seq<SpecMatchCase> },
    Let { vd: SpecVariable, value: Box<SpecExpr>, body: Box<SpecExpr> },
    Block { exprs: Seq<SpecExpr>, last: Box<SpecExpr> },
    NoTree { tpe: SpecType },
}

#[allow(inconsistent_fields)]
pub enum SpecPattern {
    WildcardPattern { binder: Option<SpecVariable> },
    LiteralPattern { binder: Option<SpecVariable>, lit: SpecExpr },
    ADTPattern {
        binder: Option<SpecVariable>,
        id: SpecSymbolIdentifier,
        tps: Seq<SpecType>,
        sub_patterns: Seq<SpecPattern>,
    },
}

pub struct SpecMatchCase {
    pub pattern: SpecPattern,
    pub opt_guard: Option<SpecExpr>,
    pub rhs: SpecExpr,
}

pub struct SpecADTConstructor {
    pub id: SpecSymbolIdentifier,
    pub sort: SpecSymbolIdentifier,
    pub fields: Seq<SpecVariable>,
}

pub struct SpecADTSort {
    pub id: SpecSymbolIdentifier,
    pub tparams: Seq<SpecTypeParameter>,
    pub constructors: Seq<SpecADTConstructor>,
    pub flags: Seq<Flag>,
}

pub struct SpecFunDef {
    pub id: SpecSymbolIdentifier,
    pub tparams: Seq<SpecTypeParameter>,
    pub params: Seq<SpecVariable>,
    pub return_type: SpecType,
    pub full_body: SpecExpr,
    pub flags: Seq<Flag>,
}

/// The placeholder that stands where a construct could not be extracted.
pub open spec fn no_tree() -> SpecExpr {
    SpecExpr::NoTree { tpe: SpecType::Untyped }
}

} // verus!
