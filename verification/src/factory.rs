//! The arena from which every node of the intermediate representation is
//! allocated, with constructors for the nodes that are built most often.
use vstd::prelude::*;
use crate::ast::{
    expr_views, ADTConstructor, And, BVLiteral, BVType, Expr, Identifier, Int, Int32Literal,
    Int32Type, IntValue, MatchCase, NoTree, Pattern, SymbolIdentifier, Type, UnitLiteral, ValDef,
};
use crate::model::{no_tree, SpecExpr};

verus! {

/// The arena `bumpalo::Bump`: nothing is known of what is inside it.
#[verifier::external_type_specification]
#[verifier::external_body]
pub struct ExBump<const MIN_ALIGN: usize>(bumpalo::Bump<MIN_ALIGN>);

/// A factory that allocates nodes in an arena. A node lives as long as the
/// factory and is never changed once it is built.
pub struct Factory {
    bump: bumpalo::Bump,
}

impl Factory {
    /// Calls `bumpalo::Bump::new`: an arena with nothing allocated in it.
    #[verifier::external_body]
    pub fn new() -> Factory {
        Factory { bump: bumpalo::Bump::new() }
    }

    /// Calls `bumpalo::Bump::alloc`, which moves the value into the arena and
    /// hands back the reference to it: the referent is the value given.
    #[verifier::external_body]
    pub fn allocate<T>(&self, v: T) -> (r: &mut T)
        ensures
            *r == v,
    {
        self.bump.alloc(v)
    }

    /// A 32-bit signed integer literal in the arena.
    pub fn Int32Literal<'a>(&'a self, value: Int) -> (r: &'a mut BVLiteral)
        ensures
            *r == (BVLiteral { signed: true, value: IntValue::of_int(value as int), size: 32 }),
    {
        self.allocate(Int32Literal(value))
    }

    /// The type of 32-bit signed integers in the arena.
    pub fn Int32Type<'a>(&'a self) -> (r: &'a mut BVType)
        ensures
            *r == (BVType { signed: true, size: 32 }),
    {
        self.allocate(Int32Type())
    }

    /// A constructor of the sort named by `sort`.
    pub fn ADTConstructor<'a>(
        &'a self,
        id: &'a SymbolIdentifier<'a>,
        sort: &'a SymbolIdentifier<'a>,
        fields: Vec<&'a ValDef<'a>>,
    ) -> (r: &'a mut ADTConstructor<'a>)
        ensures
            *r == (ADTConstructor { id, sort, fields }),
    {
        self.allocate(ADTConstructor { id, sort, fields })
    }

    /// A case of a match.
    pub fn MatchCase<'a>(
        &'a self,
        pattern: Pattern<'a>,
        opt_guard: Option<Expr<'a>>,
        rhs: Expr<'a>,
    ) -> (r: &'a mut MatchCase<'a>)
        ensures
            *r == (MatchCase { pattern, opt_guard, rhs }),
    {
        self.allocate(MatchCase { pattern, opt_guard, rhs })
    }

    /// An identifier with the given numbers.
    pub fn Identifier<'a>(&'a self, name: String, global_id: Int, id: Int) -> (r: &'a mut Identifier)
        ensures
            *r == (Identifier { name, global_id, id }),
    {
        self.allocate(Identifier { name, global_id, id })
    }

    /// The key of a definition: an identifier and its qualified path.
    pub fn SymbolIdentifier<'a>(&'a self, id: &'a Identifier, symbol_path: Vec<String>) -> (r:
        &'a mut SymbolIdentifier<'a>)
        ensures
            *r == (SymbolIdentifier { id, symbol_path }),
    {
        self.allocate(SymbolIdentifier { id, symbol_path })
    }

    /// The placeholder for a construct that could not be extracted.
    pub fn unsupported<'a>(&'a self) -> (r: Expr<'a>)
        ensures
            r@ == no_tree(),
    {
        Expr::NoTree(self.allocate(NoTree { tpe: Type::Untyped }))
    }

    /// The unit value.
    pub fn unit<'a>(&'a self) -> (r: Expr<'a>)
        ensures
            r@ == SpecExpr::UnitLiteral,
    {
        Expr::UnitLiteral(self.allocate(UnitLiteral {  }))
    }

    /// The conjunction of the expressions: the placeholder where there is
    /// none, the expression itself where there is one.
    pub fn make_and<'a>(&'a self, exprs: Vec<Expr<'a>>) -> (r: Expr<'a>)
        ensures
            r@ == conjunction(expr_views(exprs@)),
    {
        if exprs.len() == 0 {
            self.unsupported()
        } else if exprs.len() == 1 {
            exprs[0]
        } else {
            Expr::And(self.allocate(And { exprs }))
        }
    }
}

/// The conjunction of a sequence of expressions.
pub open spec fn conjunction(exprs: Seq<SpecExpr>) -> SpecExpr {
    if exprs.len() == 0 {
        no_tree()
    } else if exprs.len() == 1 {
        exprs[0]
    } else {
        SpecExpr::And { exprs }
    }
}

} // verus!
