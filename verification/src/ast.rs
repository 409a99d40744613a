//! The intermediate representation: identifiers, types, expressions, patterns
//! and definitions, all allocated in one arena and immutable once built.
use vstd::prelude::*;
use crate::model::{
    SpecADTConstructor, SpecADTSort, SpecExpr, SpecFunDef, SpecIdentifier, SpecMatchCase,
    SpecPattern, SpecSymbolIdentifier, SpecType, SpecTypeParameter, SpecVariable,
};

verus! {

/// The integer type of identifiers' numbers, bit widths and tuple indices.
pub type Int = i32;

/// The value of an integer literal: a sign and a magnitude of up to 128 bits.
#[derive(Clone, Copy, Debug, PartialEq, Eq, Hash)]
pub struct IntValue {
    pub negative: bool,
    pub magnitude: u128,
}

impl IntValue {
    /// The integer that this value stands for.
    pub open spec fn as_int(self) -> int {
        if self.negative {
            -(self.magnitude as int)
        } else {
            self.magnitude as int
        }
    }

    /// The value that stands for an integer of up to 128 bits.
    pub open spec fn of_int(v: int) -> IntValue {
        if v < 0 {
            IntValue { negative: true, magnitude: (-v) as u128 }
        } else {
            IntValue { negative: false, magnitude: v as u128 }
        }
    }

    /// The value of an unsigned integer.
    pub fn from_u128(value: u128) -> (r: IntValue)
        ensures
            r == IntValue::of_int(value as int),
    {
        IntValue { negative: false, magnitude: value }
    }

    /// The value of a signed integer.
    pub fn from_i128(value: i128) -> (r: IntValue)
        ensures
            r == IntValue::of_int(value as int),
    {
        if value >= 0 {
            IntValue { negative: false, magnitude: value as u128 }
        } else if value == i128::MIN {
            IntValue { negative: true, magnitude: 0x8000_0000_0000_0000_0000_0000_0000_0000u128 }
        } else {
            IntValue { negative: true, magnitude: (-value) as u128 }
        }
    }

    /// The value of a 32-bit signed integer.
    pub fn from_i32(value: Int) -> (r: IntValue)
        ensures
            r == IntValue::of_int(value as int),
    {
        IntValue::from_i128(value as i128)
    }
}

/// A name with the two numbers that tell it from every other identifier: one
/// unique in the whole session, one unique among the identifiers of that name.
#[derive(Clone, Debug, PartialEq, Eq, Hash)]
pub struct Identifier {
    pub name: String,
    pub global_id: Int,
    pub id: Int,
}

/// The key of a top-level definition: an identifier and its qualified path.
#[derive(Clone, Debug, PartialEq, Eq, Hash)]
pub struct SymbolIdentifier<'a> {
    pub id: &'a Identifier,
    pub symbol_path: Vec<String>,
}

impl<'a> SymbolIdentifier<'a> {
    /// The number by which definitions are keyed and ordered.
    pub open spec fn key(&self) -> Int {
        self.id.global_id
    }
}

/// A marker on a definition or a variable.
#[derive(Clone, Copy, Debug, PartialEq, Eq, Hash)]
pub enum Flag {
    Extern,
    Opaque,
    Unchecked,
}

/// A type. `Untyped` stands where a type is missing.
#[derive(Clone, Copy, Debug, PartialEq, Eq, Hash)]
pub enum Type<'a> {
    Untyped,
    BooleanType,
    UnitType,
    StringType,
    BVType(&'a BVType),
    TypeParameter(&'a TypeParameter<'a>),
    TupleType(&'a TupleType<'a>),
    ADTType(&'a ADTType<'a>),
}

/// The type of integers of a fixed number of bits.
#[derive(Clone, Copy, Debug, PartialEq, Eq, Hash)]
pub struct BVType {
    pub signed: bool,
    pub size: Int,
}

#[derive(Clone, Debug, PartialEq, Eq, Hash)]
pub struct TypeParameter<'a> {
    pub id: &'a SymbolIdentifier<'a>,
    pub flags: Vec<Flag>,
}

#[derive(Clone, Debug, PartialEq, Eq, Hash)]
pub struct TupleType<'a> {
    pub bases: Vec<Type<'a>>,
}

#[derive(Clone, Debug, PartialEq, Eq, Hash)]
pub struct ADTType<'a> {
    pub id: &'a SymbolIdentifier<'a>,
    pub tps: Vec<Type<'a>>,
}

/// A variable: an identifier and a type.
#[derive(Clone, Debug, PartialEq, Eq, Hash)]
pub struct Variable<'a> {
    pub id: &'a SymbolIdentifier<'a>,
    pub tpe: Type<'a>,
    pub flags: Vec<Flag>,
}

/// A variable in binding position.
#[derive(Clone, Copy, Debug, PartialEq, Eq, Hash)]
pub struct ValDef<'a> {
    pub v: &'a Variable<'a>,
}

/// A type parameter in binding position.
#[derive(Clone, Copy, Debug, PartialEq, Eq, Hash)]
pub struct TypeParameterDef<'a> {
    pub tp: &'a TypeParameter<'a>,
}

/// An expression. Every variant refers to its node in the arena, so an
/// expression is copied freely and its subtrees may be shared.
#[derive(Clone, Copy, Debug, PartialEq, Eq, Hash)]
pub enum Expr<'a> {
    UnitLiteral(&'a UnitLiteral),
    BooleanLiteral(&'a BooleanLiteral),
    BVLiteral(&'a BVLiteral),
    StringLiteral(&'a StringLiteral),
    Not(&'a Not<'a>),
    BVNot(&'a BVNot<'a>),
    UMinus(&'a UMinus<'a>),
    Plus(&'a Plus<'a>),
    Minus(&'a Minus<'a>),
    Times(&'a Times<'a>),
    Division(&'a Division<'a>),
    LessThan(&'a LessThan<'a>),
    LessEquals(&'a LessEquals<'a>),
    GreaterEquals(&'a GreaterEquals<'a>),
    GreaterThan(&'a GreaterThan<'a>),
    Equals(&'a Equals<'a>),
    And(&'a And<'a>),
    Or(&'a Or<'a>),
    Tuple(&'a Tuple<'a>),
    TupleSelect(&'a TupleSelect<'a>),
    ADT(&'a ADT<'a>),
    ADTSelector(&'a ADTSelector<'a>),
    Variable(&'a Variable<'a>),
    FunctionInvocation(&'a FunctionInvocation<'a>),
    IfExpr(&'a IfExpr<'a>),
    MatchExpr(&'a MatchExpr<'a>),
    Let(&'a Let<'a>),
    Block(&'a Block<'a>),
    NoTree(&'a NoTree<'a>),
}

#[derive(Clone, Copy, Debug, PartialEq, Eq, Hash)]
pub struct UnitLiteral {}

#[derive(Clone, Copy, Debug, PartialEq, Eq, Hash)]
pub struct BooleanLiteral {
    pub value: bool,
}

/// An integer of a fixed number of bits, signed or not.
#[derive(Clone, Copy, Debug, PartialEq, Eq, Hash)]
pub struct BVLiteral {
    pub signed: bool,
    pub value: IntValue,
    pub size: Int,
}

#[derive(Clone, Debug, PartialEq, Eq, Hash)]
pub struct StringLiteral {
    pub value: String,
}

#[derive(Clone, Copy, Debug, PartialEq, Eq, Hash)]
pub struct Not<'a> {
    pub expr: Expr<'a>,
}

/// The negation of every bit of an integer.
#[derive(Clone, Copy, Debug, PartialEq, Eq, Hash)]
pub struct BVNot<'a> {
    pub e: Expr<'a>,
}

#[derive(Clone, Copy, Debug, PartialEq, Eq, Hash)]
pub struct UMinus<'a> {
    pub expr: Expr<'a>,
}

#[derive(Clone, Copy, Debug, PartialEq, Eq, Hash)]
pub struct Plus<'a> {
    pub lhs: Expr<'a>,
    pub rhs: Expr<'a>,
}

#[derive(Clone, Copy, Debug, PartialEq, Eq, Hash)]
pub struct Minus<'a> {
    pub lhs: Expr<'a>,
    pub rhs: Expr<'a>,
}

#[derive(Clone, Copy, Debug, PartialEq, Eq, Hash)]
pub struct Times<'a> {
    pub lhs: Expr<'a>,
    pub rhs: Expr<'a>,
}

#[derive(Clone, Copy, Debug, PartialEq, Eq, Hash)]
pub struct Division<'a> {
    pub lhs: Expr<'a>,
    pub rhs: Expr<'a>,
}

#[derive(Clone, Copy, Debug, PartialEq, Eq, Hash)]
pub struct LessThan<'a> {
    pub lhs: Expr<'a>,
    pub rhs: Expr<'a>,
}

#[derive(Clone, Copy, Debug, PartialEq, Eq, Hash)]
pub struct LessEquals<'a> {
    pub lhs: Expr<'a>,
    pub rhs: Expr<'a>,
}

#[derive(Clone, Copy, Debug, PartialEq, Eq, Hash)]
pub struct GreaterEquals<'a> {
    pub lhs: Expr<'a>,
    pub rhs: Expr<'a>,
}

#[derive(Clone, Copy, Debug, PartialEq, Eq, Hash)]
pub struct GreaterThan<'a> {
    pub lhs: Expr<'a>,
    pub rhs: Expr<'a>,
}

#[derive(Clone, Copy, Debug, PartialEq, Eq, Hash)]
pub struct Equals<'a> {
    pub lhs: Expr<'a>,
    pub rhs: Expr<'a>,
}

#[derive(Clone, Debug, PartialEq, Eq, Hash)]
pub struct And<'a> {
    pub exprs: Vec<Expr<'a>>,
}

#[derive(Clone, Debug, PartialEq, Eq, Hash)]
pub struct Or<'a> {
    pub exprs: Vec<Expr<'a>>,
}

#[derive(Clone, Debug, PartialEq, Eq, Hash)]
pub struct Tuple<'a> {
    pub exprs: Vec<Expr<'a>>,
}

/// Selection of a tuple's component; the first one has index 1.
#[derive(Clone, Copy, Debug, PartialEq, Eq, Hash)]
pub struct TupleSelect<'a> {
    pub tuple: Expr<'a>,
    pub index: Int,
}

#[derive(Clone, Debug, PartialEq, Eq, Hash)]
pub struct ADT<'a> {
    pub id: &'a SymbolIdentifier<'a>,
    pub tps: Vec<Type<'a>>,
    pub args: Vec<Expr<'a>>,
}

/// The selection of the field named by `selector` from a record.
#[derive(Clone, Copy, Debug, PartialEq, Eq, Hash)]
pub struct ADTSelector<'a> {
    pub adt: Expr<'a>,
    pub selector: &'a SymbolIdentifier<'a>,
}

#[derive(Clone, Debug, PartialEq, Eq, Hash)]
pub struct FunctionInvocation<'a> {
    pub id: &'a SymbolIdentifier<'a>,
    pub tps: Vec<Type<'a>>,
    pub args: Vec<Expr<'a>>,
}

#[derive(Clone, Copy, Debug, PartialEq, Eq, Hash)]
pub struct IfExpr<'a> {
    pub cond: Expr<'a>,
    pub thenn: Expr<'a>,
    pub elze: Expr<'a>,
}

#[derive(Clone, Debug, PartialEq, Eq, Hash)]
pub struct MatchExpr<'a> {
    pub scrutinee: Expr<'a>,
    pub cases: Vec<&'a MatchCase<'a>>,
}

/// The binding of one variable to a value in a body.
#[derive(Clone, Copy, Debug, PartialEq, Eq, Hash)]
pub struct Let<'a> {
    pub vd: &'a ValDef<'a>,
    pub value: Expr<'a>,
    pub body: Expr<'a>,
}

/// Expressions evaluated for their effect, then one for its value.
#[derive(Clone, Debug, PartialEq, Eq, Hash)]
pub struct Block<'a> {
    pub exprs: Vec<Expr<'a>>,
    pub last: Expr<'a>,
}

/// The placeholder that stands where a construct could not be extracted.
#[derive(Clone, Copy, Debug, PartialEq, Eq, Hash)]
pub struct NoTree<'a> {
    pub tpe: Type<'a>,
}

/// A pattern. Each kind may bind what it matches to a variable.
#[derive(Clone, Copy, Debug, PartialEq, Eq, Hash)]
pub enum Pattern<'a> {
    WildcardPattern(&'a WildcardPattern<'a>),
    LiteralPattern(&'a LiteralPattern<'a>),
    ADTPattern(&'a ADTPattern<'a>),
}

#[derive(Clone, Copy, Debug, PartialEq, Eq, Hash)]
pub struct WildcardPattern<'a> {
    pub binder: Option<&'a ValDef<'a>>,
}

#[derive(Clone, Copy, Debug, PartialEq, Eq, Hash)]
pub struct LiteralPattern<'a> {
    pub binder: Option<&'a ValDef<'a>>,
    pub lit: Expr<'a>,
}

/// A constructor pattern; it has one subpattern for every declared field,
/// in declared order.
#[derive(Clone, Debug, PartialEq, Eq, Hash)]
pub struct ADTPattern<'a> {
    pub binder: Option<&'a ValDef<'a>>,
    pub id: &'a SymbolIdentifier<'a>,
    pub tps: Vec<Type<'a>>,
    pub sub_patterns: Vec<Pattern<'a>>,
}

/// A case of a match: a pattern, a guard if there is one, and a body.
#[derive(Clone, Copy, Debug, PartialEq, Eq, Hash)]
pub struct MatchCase<'a> {
    pub pattern: Pattern<'a>,
    pub opt_guard: Option<Expr<'a>>,
    pub rhs: Expr<'a>,
}

/// A data type: a named sort with its constructors in declared order.
#[derive(Clone, Debug, PartialEq, Eq, Hash)]
pub struct ADTSort<'a> {
    pub id: &'a SymbolIdentifier<'a>,
    pub tparams: Vec<&'a TypeParameterDef<'a>>,
    pub constructors: Vec<&'a ADTConstructor<'a>>,
    pub flags: Vec<Flag>,
}

/// A constructor refers back to its sort by the sort's identifier.
#[derive(Clone, Debug, PartialEq, Eq, Hash)]
pub struct ADTConstructor<'a> {
    pub id: &'a SymbolIdentifier<'a>,
    pub sort: &'a SymbolIdentifier<'a>,
    pub fields: Vec<&'a ValDef<'a>>,
}

/// A function: its parameters, its return type and its body.
#[derive(Clone, Debug, PartialEq, Eq, Hash)]
pub struct FunDef<'a> {
    pub id: &'a SymbolIdentifier<'a>,
    pub tparams: Vec<&'a TypeParameterDef<'a>>,
    pub params: Vec<&'a ValDef<'a>>,
    pub return_type: Type<'a>,
    pub full_body: Expr<'a>,
    pub flags: Vec<Flag>,
}

/// A 32-bit signed integer literal.
pub fn Int32Literal(value: Int) -> (r: BVLiteral)
    ensures
        r == (BVLiteral { signed: true, value: IntValue::of_int(value as int), size: 32 }),
{
    BVLiteral { signed: true, value: IntValue::from_i32(value), size: 32 }
}

/// The type of 32-bit signed integers.
pub fn Int32Type() -> (r: BVType)
    ensures
        r == (BVType { signed: true, size: 32 }),
{
    BVType { signed: true, size: 32 }
}


impl View for Identifier {
    type V = SpecIdentifier;

    open spec fn view(&self) -> SpecIdentifier {
        SpecIdentifier { name: self.name@, global_id: self.global_id, id: self.id }
    }
}

/// The views of strings, one for one.
pub open spec fn string_views(ss: Seq<String>) -> Seq<Seq<char>> {
    Seq::new(ss.len(), |i: int| ss[i]@)
}

impl<'a> View for SymbolIdentifier<'a> {
    type V = SpecSymbolIdentifier;

    open spec fn view(&self) -> SpecSymbolIdentifier {
        SpecSymbolIdentifier { id: self.id@, symbol_path: string_views(self.symbol_path@) }
    }
}

impl<'a> View for TypeParameter<'a> {
    type V = SpecTypeParameter;

    open spec fn view(&self) -> SpecTypeParameter {
        SpecTypeParameter { id: self.id@, flags: self.flags@ }
    }
}

impl<'a> View for TypeParameterDef<'a> {
    type V = SpecTypeParameter;

    open spec fn view(&self) -> SpecTypeParameter {
        self.tp@
    }
}

/// The views of types, one for one.
pub open spec fn type_views(ts: Seq<Type>) -> Seq<SpecType>
    decreases ts,
{
    Seq::new(ts.len(), |i: int| if 0 <= i < ts.len() { type_view(ts[i]) } else { arbitrary() })
}

/// What a type is, apart from where it is allocated.
pub open spec fn type_view(t: Type) -> SpecType
    decreases t,
{
    match t {
        Type::Untyped => SpecType::Untyped,
        Type::BooleanType => SpecType::BooleanType,
        Type::UnitType => SpecType::UnitType,
        Type::StringType => SpecType::StringType,
        Type::BVType(t) => SpecType::BVType { signed: t.signed, size: t.size },
        Type::TypeParameter(t) => SpecType::TypeParameter { tp: t@ },
        Type::TupleType(t) => SpecType::TupleType { bases: type_views(t.bases@) },
        Type::ADTType(t) => SpecType::ADTType { id: t.id@, tps: type_views(t.tps@) },
    }
}

impl<'a> View for Type<'a> {
    type V = SpecType;

    open spec fn view(&self) -> SpecType {
        type_view(*self)
    }
}

impl<'a> View for Variable<'a> {
    type V = SpecVariable;

    open spec fn view(&self) -> SpecVariable {
        SpecVariable { id: self.id@, tpe: self.tpe@, flags: self.flags@ }
    }
}

impl<'a> View for ValDef<'a> {
    type V = SpecVariable;

    open spec fn view(&self) -> SpecVariable {
        self.v@
    }
}

/// The view of an optional binder.
pub open spec fn binder_view(binder: Option<&ValDef>) -> Option<SpecVariable> {
    match binder {
        Some(vd) => Some(vd@),
        None => None,
    }
}

/// The views of binders, one for one.
pub open spec fn val_def_views(vds: Seq<&ValDef>) -> Seq<SpecVariable> {
    Seq::new(vds.len(), |i: int| vds[i]@)
}

/// The views of type parameters in binding position, one for one.
pub open spec fn type_parameter_views(tps: Seq<&TypeParameterDef>) -> Seq<SpecTypeParameter> {
    Seq::new(tps.len(), |i: int| tps[i]@)
}

/// The views of expressions, one for one.
pub open spec fn expr_views(es: Seq<Expr>) -> Seq<SpecExpr>
    decreases es,
{
    Seq::new(es.len(), |i: int| if 0 <= i < es.len() { expr_view(es[i]) } else { arbitrary() })
}

/// The views of patterns, one for one.
pub open spec fn pattern_views(ps: Seq<Pattern>) -> Seq<SpecPattern>
    decreases ps,
{
    Seq::new(ps.len(), |i: int| if 0 <= i < ps.len() { pattern_view(ps[i]) } else { arbitrary() })
}

/// The views of match cases, one for one.
pub open spec fn match_case_views(cs: Seq<&MatchCase>) -> Seq<SpecMatchCase>
    decreases cs,
{
    Seq::new(cs.len(), |i: int| if 0 <= i < cs.len() { match_case_view(*cs[i]) } else { arbitrary() })
}

/// What an expression is, apart from where its nodes are allocated.
pub open spec fn expr_view(e: Expr) -> SpecExpr
    decreases e,
{
    match e {
        Expr::UnitLiteral(_) => SpecExpr::UnitLiteral,
        Expr::BooleanLiteral(n) => SpecExpr::BooleanLiteral { value: n.value },
        Expr::BVLiteral(n) => SpecExpr::BVLiteral {
            signed: n.signed,
            value: n.value.as_int(),
            size: n.size,
        },
        Expr::StringLiteral(n) => SpecExpr::StringLiteral { value: n.value@ },
        Expr::Not(n) => SpecExpr::Not { expr: Box::new(expr_view(n.expr)) },
        Expr::BVNot(n) => SpecExpr::BVNot { e: Box::new(expr_view(n.e)) },
        Expr::UMinus(n) => SpecExpr::UMinus { expr: Box::new(expr_view(n.expr)) },
        Expr::Plus(n) => SpecExpr::Plus { lhs: Box::new(expr_view(n.lhs)), rhs: Box::new(expr_view(n.rhs)) },
        Expr::Minus(n) => SpecExpr::Minus { lhs: Box::new(expr_view(n.lhs)), rhs: Box::new(expr_view(n.rhs)) },
        Expr::Times(n) => SpecExpr::Times { lhs: Box::new(expr_view(n.lhs)), rhs: Box::new(expr_view(n.rhs)) },
        Expr::Division(n) => SpecExpr::Division {
            lhs: Box::new(expr_view(n.lhs)),
            rhs: Box::new(expr_view(n.rhs)),
        },
        Expr::LessThan(n) => SpecExpr::LessThan {
            lhs: Box::new(expr_view(n.lhs)),
            rhs: Box::new(expr_view(n.rhs)),
        },
        Expr::LessEquals(n) => SpecExpr::LessEquals {
            lhs: Box::new(expr_view(n.lhs)),
            rhs: Box::new(expr_view(n.rhs)),
        },
        Expr::GreaterEquals(n) => SpecExpr::GreaterEquals {
            lhs: Box::new(expr_view(n.lhs)),
            rhs: Box::new(expr_view(n.rhs)),
        },
        Expr::GreaterThan(n) => SpecExpr::GreaterThan {
            lhs: Box::new(expr_view(n.lhs)),
            rhs: Box::new(expr_view(n.rhs)),
        },
        Expr::Equals(n) => SpecExpr::Equals { lhs: Box::new(expr_view(n.lhs)), rhs: Box::new(expr_view(n.rhs)) },
        Expr::And(n) => SpecExpr::And { exprs: expr_views(n.exprs@) },
        Expr::Or(n) => SpecExpr::Or { exprs: expr_views(n.exprs@) },
        Expr::Tuple(n) => SpecExpr::Tuple { exprs: expr_views(n.exprs@) },
        Expr::TupleSelect(n) => SpecExpr::TupleSelect {
            tuple: Box::new(expr_view(n.tuple)),
            index: n.index,
        },
        Expr::ADT(n) => SpecExpr::ADT {
            id: n.id@,
            tps: type_views(n.tps@),
            args: expr_views(n.args@),
        },
        Expr::ADTSelector(n) => SpecExpr::ADTSelector {
            adt: Box::new(expr_view(n.adt)),
            selector: n.selector@,
        },
        Expr::Variable(n) => SpecExpr::Variable { v: n@ },
        Expr::FunctionInvocation(n) => SpecExpr::FunctionInvocation {
            id: n.id@,
            tps: type_views(n.tps@),
            args: expr_views(n.args@),
        },
        Expr::IfExpr(n) => SpecExpr::IfExpr {
            cond: Box::new(expr_view(n.cond)),
            thenn: Box::new(expr_view(n.thenn)),
            elze: Box::new(expr_view(n.elze)),
        },
        Expr::MatchExpr(n) => SpecExpr::MatchExpr {
            scrutinee: Box::new(expr_view(n.scrutinee)),
            cases: match_case_views(n.cases@),
        },
        Expr::Let(n) => SpecExpr::Let {
            vd: n.vd@,
            value: Box::new(expr_view(n.value)),
            body: Box::new(expr_view(n.body)),
        },
        Expr::Block(n) => SpecExpr::Block {
            exprs: expr_views(n.exprs@),
            last: Box::new(expr_view(n.last)),
        },
        Expr::NoTree(n) => SpecExpr::NoTree { tpe: type_view(n.tpe) },
    }
}

impl<'a> View for Expr<'a> {
    type V = SpecExpr;

    open spec fn view(&self) -> SpecExpr {
        expr_view(*self)
    }
}

/// What a pattern is, apart from where its nodes are allocated.
pub open spec fn pattern_view(p: Pattern) -> SpecPattern
    decreases p,
{
    match p {
        Pattern::WildcardPattern(p) => SpecPattern::WildcardPattern {
            binder: binder_view(p.binder),
        },
        Pattern::LiteralPattern(p) => SpecPattern::LiteralPattern {
            binder: binder_view(p.binder),
            lit: expr_view(p.lit),
        },
        Pattern::ADTPattern(p) => SpecPattern::ADTPattern {
            binder: binder_view(p.binder),
            id: p.id@,
            tps: type_views(p.tps@),
            sub_patterns: pattern_views(p.sub_patterns@),
        },
    }
}

impl<'a> View for Pattern<'a> {
    type V = SpecPattern;

    open spec fn view(&self) -> SpecPattern {
        pattern_view(*self)
    }
}

/// The view of an optional expression.
pub open spec fn opt_expr_view(e: Option<Expr>) -> Option<SpecExpr>
    decreases e,
{
    match e {
        Some(g) => Some(expr_view(g)),
        None => None,
    }
}

/// What a match case is, apart from where its nodes are allocated.
pub open spec fn match_case_view(c: MatchCase) -> SpecMatchCase
    decreases c,
{
    SpecMatchCase {
        pattern: pattern_view(c.pattern),
        opt_guard: opt_expr_view(c.opt_guard),
        rhs: expr_view(c.rhs),
    }
}

impl<'a> View for MatchCase<'a> {
    type V = SpecMatchCase;

    open spec fn view(&self) -> SpecMatchCase {
        match_case_view(*self)
    }
}

impl<'a> View for ADTConstructor<'a> {
    type V = SpecADTConstructor;

    open spec fn view(&self) -> SpecADTConstructor {
        SpecADTConstructor {
            id: self.id@,
            sort: self.sort@,
            fields: val_def_views(self.fields@),
        }
    }
}

/// The views of constructors, one for one.
pub open spec fn constructor_views(cs: Seq<&ADTConstructor>) -> Seq<SpecADTConstructor> {
    Seq::new(cs.len(), |i: int| cs[i]@)
}

impl<'a> View for ADTSort<'a> {
    type V = SpecADTSort;

    open spec fn view(&self) -> SpecADTSort {
        SpecADTSort {
            id: self.id@,
            tparams: type_parameter_views(self.tparams@),
            constructors: constructor_views(self.constructors@),
            flags: self.flags@,
        }
    }
}

impl<'a> View for FunDef<'a> {
    type V = SpecFunDef;

    open spec fn view(&self) -> SpecFunDef {
        SpecFunDef {
            id: self.id@,
            tparams: type_parameter_views(self.tparams@),
            params: val_def_views(self.params@),
            return_type: self.return_type@,
            full_body: self.full_body@,
            flags: self.flags@,
        }
    }
}

/// The views of a sequence with one more expression are the views of the
/// sequence with one more view.
pub proof fn lemma_expr_views_push(es: Seq<Expr>, e: Expr)
    ensures
        expr_views(es.push(e)) == expr_views(es).push(e@),
{
    assert(expr_views(es.push(e)) =~= expr_views(es).push(e@));
}

pub proof fn lemma_expr_views_empty()
    ensures
        expr_views(Seq::empty()) == Seq::<SpecExpr>::empty(),
{
    assert(expr_views(Seq::empty()) =~= Seq::<SpecExpr>::empty());
}

pub proof fn lemma_pattern_views_push(ps: Seq<Pattern>, p: Pattern)
    ensures
        pattern_views(ps.push(p)) == pattern_views(ps).push(p@),
{
    assert(pattern_views(ps.push(p)) =~= pattern_views(ps).push(p@));
}

pub proof fn lemma_pattern_views_empty()
    ensures
        pattern_views(Seq::empty()) == Seq::<SpecPattern>::empty(),
{
    assert(pattern_views(Seq::empty()) =~= Seq::<SpecPattern>::empty());
}

pub proof fn lemma_match_case_views_push(cs: Seq<&MatchCase>, c: &MatchCase)
    ensures
        match_case_views(cs.push(c)) == match_case_views(cs).push(c@),
{
    assert(match_case_views(cs.push(c)) =~= match_case_views(cs).push(c@));
}

pub proof fn lemma_match_case_views_empty()
    ensures
        match_case_views(Seq::empty()) == Seq::<SpecMatchCase>::empty(),
{
    assert(match_case_views(Seq::empty()) =~= Seq::<SpecMatchCase>::empty());
}

pub proof fn lemma_type_views_empty()
    ensures
        type_views(Seq::empty()) == Seq::<SpecType>::empty(),
{
    assert(type_views(Seq::empty()) =~= Seq::<SpecType>::empty());
}

} // verus!
