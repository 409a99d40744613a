//! The encoding of the intermediate representation. Every node is written as
//! the marker of its variant, then its fields in declared order; nothing
//! stands between two fields.
use vstd::prelude::*;
use crate::ast::{
    binder_view, constructor_views, expr_views, match_case_views, pattern_views,
    type_parameter_views, type_views, val_def_views, ADTConstructor, ADTPattern, ADTSelector,
    ADTSort, And, BVLiteral, BVNot, Block, BooleanLiteral, Division, Equals, Expr, Flag,
    FunDef, FunctionInvocation, GreaterEquals, GreaterThan, Identifier, IfExpr, LessEquals,
    LessThan, Let, LiteralPattern, MatchCase, MatchExpr, Minus, NoTree, Not, Or, Pattern, Plus,
    StringLiteral, SymbolIdentifier, Times, Tuple, TupleSelect, Type, TypeParameter,
    TypeParameterDef, UMinus, UnitLiteral, ValDef, Variable, WildcardPattern, ADT,
};
use crate::model::{
    SpecADTConstructor, SpecADTSort, SpecExpr, SpecFunDef, SpecIdentifier, SpecMatchCase,
    SpecPattern, SpecSymbolIdentifier, SpecType, SpecTypeParameter, SpecVariable,
};
use crate::ser::{
    big_int_bytes, bool_bytes, int_bytes, len_bytes, lemma_written_2, lemma_written_3,
    lemma_written_4, lemma_written_5, lemma_written_6, marker_bytes, string_bytes, strings_bytes, BufferSerializer,
    MarkerId,
};

verus! {

/// The bytes of an identifier: its name and its two numbers.
pub open spec fn identifier_bytes(id: SpecIdentifier) -> Seq<u8> {
    marker_bytes(90) + string_bytes(id.name) + int_bytes(id.global_id) + int_bytes(id.id)
}

/// A symbol's identifier is written by its numbers and its path; the global
/// id stands for the symbol's own number as well.
pub open spec fn symbol_identifier_bytes(id: SpecSymbolIdentifier) -> Seq<u8> {
    marker_bytes(145) + int_bytes(id.id.global_id) + int_bytes(id.id.id) + strings_bytes(
        id.symbol_path,
    ) + int_bytes(id.id.global_id)
}

/// The marker of a flag.
pub open spec fn flag_marker(flag: Flag) -> nat {
    match flag {
        Flag::Extern => 139,
        Flag::Opaque => 140,
        Flag::Unchecked => 141,
    }
}

/// The markers of the first `n` flags, one after another.
pub open spec fn flags_concat(flags: Seq<Flag>, n: nat) -> Seq<u8>
    decreases n,
{
    if n == 0 || n > flags.len() {
        Seq::empty()
    } else {
        flags_concat(flags, (n - 1) as nat) + marker_bytes(flag_marker(flags[n - 1]))
    }
}

/// The bytes of a sequence of flags: their number, then the marker of each.
pub open spec fn flags_bytes(flags: Seq<Flag>) -> Seq<u8> {
    len_bytes(flags.len()) + flags_concat(flags, flags.len())
}

/// The bytes of a type parameter.
pub open spec fn type_parameter_bytes(tp: SpecTypeParameter) -> Seq<u8> {
    marker_bytes(82) + symbol_identifier_bytes(tp.id) + flags_bytes(tp.flags)
}

/// The bytes of a type.
pub open spec fn type_bytes(t: SpecType) -> Seq<u8>
    decreases t,
{
    match t {
        SpecType::Untyped => marker_bytes(74),
        SpecType::BooleanType => marker_bytes(75),
        SpecType::UnitType => marker_bytes(76),
        SpecType::StringType => marker_bytes(80),
        SpecType::BVType { signed, size } => marker_bytes(81) + bool_bytes(signed) + int_bytes(
            size,
        ),
        SpecType::TypeParameter { tp } => type_parameter_bytes(tp),
        SpecType::TupleType { bases } => marker_bytes(83) + len_bytes(bases.len())
            + types_concat(bases, bases.len()),
        SpecType::ADTType { id, tps } => marker_bytes(88) + symbol_identifier_bytes(id)
            + len_bytes(tps.len()) + types_concat(tps, tps.len()),
    }
}

/// The encodings of the first `n` types, one after another.
pub open spec fn types_concat(ts: Seq<SpecType>, n: nat) -> Seq<u8>
    decreases ts, n,
{
    if n == 0 || n > ts.len() {
        Seq::empty()
    } else {
        types_concat(ts, (n - 1) as nat) + type_bytes(ts[n - 1])
    }
}

/// The bytes of a sequence of types: their number, then each of them.
pub open spec fn types_bytes(ts: Seq<SpecType>) -> Seq<u8> {
    len_bytes(ts.len()) + types_concat(ts, ts.len())
}

/// The bytes of a variable.
pub open spec fn variable_bytes(v: SpecVariable) -> Seq<u8> {
    marker_bytes(11) + symbol_identifier_bytes(v.id) + type_bytes(v.tpe) + flags_bytes(v.flags)
}

/// The bytes of a variable in binding position.
pub open spec fn val_def_bytes(v: SpecVariable) -> Seq<u8> {
    marker_bytes(94) + variable_bytes(v)
}

/// The bytes of a type parameter in binding position.
pub open spec fn type_parameter_def_bytes(tp: SpecTypeParameter) -> Seq<u8> {
    marker_bytes(95) + type_parameter_bytes(tp)
}

/// The encodings of the first `n` binders, one after another.
pub open spec fn val_defs_concat(vs: Seq<SpecVariable>, n: nat) -> Seq<u8>
    decreases n,
{
    if n == 0 || n > vs.len() {
        Seq::empty()
    } else {
        val_defs_concat(vs, (n - 1) as nat) + val_def_bytes(vs[n - 1])
    }
}

/// The bytes of a sequence of binders: their number, then each of them.
pub open spec fn val_defs_bytes(vs: Seq<SpecVariable>) -> Seq<u8> {
    len_bytes(vs.len()) + val_defs_concat(vs, vs.len())
}

/// The encodings of the first `n` type parameters, one after another.
pub open spec fn type_parameter_defs_concat(tps: Seq<SpecTypeParameter>, n: nat) -> Seq<u8>
    decreases n,
{
    if n == 0 || n > tps.len() {
        Seq::empty()
    } else {
        type_parameter_defs_concat(tps, (n - 1) as nat) + type_parameter_def_bytes(tps[n - 1])
    }
}

/// The bytes of a sequence of type parameters: their number, then each.
pub open spec fn type_parameter_defs_bytes(tps: Seq<SpecTypeParameter>) -> Seq<u8> {
    len_bytes(tps.len()) + type_parameter_defs_concat(tps, tps.len())
}

/// An optional value is written as the byte 0, or as the byte 1 and the
/// value.
pub open spec fn binder_bytes(binder: Option<SpecVariable>) -> Seq<u8> {
    match binder {
        None => seq![0u8],
        Some(v) => seq![1u8] + val_def_bytes(v),
    }
}

/// The bytes of an expression: the marker of its variant, then its fields. A
/// sequence among the fields is preceded by its length.
pub open spec fn expr_bytes(e: SpecExpr) -> Seq<u8>
    decreases e,
{
    match e {
        SpecExpr::UnitLiteral => marker_bytes(25),
        SpecExpr::BooleanLiteral { value } => marker_bytes(23) + bool_bytes(value),
        SpecExpr::BVLiteral { signed, value, size } => marker_bytes(20) + bool_bytes(signed)
            + big_int_bytes(value) + int_bytes(size),
        SpecExpr::StringLiteral { value } => marker_bytes(24) + string_bytes(value),
        SpecExpr::Not { expr } => marker_bytes(33) + expr_bytes(*expr),
        SpecExpr::BVNot { e } => marker_bytes(48) + expr_bytes(*e),
        SpecExpr::UMinus { expr } => marker_bytes(39) + expr_bytes(*expr),
        SpecExpr::Plus { lhs, rhs } => marker_bytes(37) + expr_bytes(*lhs) + expr_bytes(*rhs),
        SpecExpr::Minus { lhs, rhs } => marker_bytes(38) + expr_bytes(*lhs) + expr_bytes(*rhs),
        SpecExpr::Times { lhs, rhs } => marker_bytes(40) + expr_bytes(*lhs) + expr_bytes(*rhs),
        SpecExpr::Division { lhs, rhs } => marker_bytes(41) + expr_bytes(*lhs) + expr_bytes(*rhs),
        SpecExpr::LessThan { lhs, rhs } => marker_bytes(44) + expr_bytes(*lhs) + expr_bytes(*rhs),
        SpecExpr::LessEquals { lhs, rhs } => marker_bytes(46) + expr_bytes(*lhs) + expr_bytes(
            *rhs,
        ),
        SpecExpr::GreaterEquals { lhs, rhs } => marker_bytes(47) + expr_bytes(*lhs) + expr_bytes(
            *rhs,
        ),
        SpecExpr::GreaterThan { lhs, rhs } => marker_bytes(45) + expr_bytes(*lhs) + expr_bytes(
            *rhs,
        ),
        SpecExpr::Equals { lhs, rhs } => marker_bytes(30) + expr_bytes(*lhs) + expr_bytes(*rhs),
        SpecExpr::And { exprs } => marker_bytes(31) + len_bytes(exprs.len()) + exprs_concat(
            exprs,
            exprs.len(),
        ),
        SpecExpr::Or { exprs } => marker_bytes(32) + len_bytes(exprs.len()) + exprs_concat(
            exprs,
            exprs.len(),
        ),
        SpecExpr::Tuple { exprs } => marker_bytes(57) + len_bytes(exprs.len()) + exprs_concat(
            exprs,
            exprs.len(),
        ),
        SpecExpr::TupleSelect { tuple, index } => marker_bytes(58) + expr_bytes(*tuple)
            + int_bytes(index),
        SpecExpr::ADT { id, tps, args } => marker_bytes(27) + symbol_identifier_bytes(id)
            + types_bytes(tps) + len_bytes(args.len()) + exprs_concat(args, args.len()),
        SpecExpr::ADTSelector { adt, selector } => marker_bytes(29) + expr_bytes(*adt)
            + symbol_identifier_bytes(selector),
        SpecExpr::Variable { v } => variable_bytes(v),
        SpecExpr::FunctionInvocation { id, tps, args } => marker_bytes(17)
            + symbol_identifier_bytes(id) + types_bytes(tps) + len_bytes(args.len())
            + exprs_concat(args, args.len()),
        SpecExpr::IfExpr { cond, thenn, elze } => marker_bytes(18) + expr_bytes(*cond)
            + expr_bytes(*thenn) + expr_bytes(*elze),
        SpecExpr::MatchExpr { scrutinee, cases } => marker_bytes(126) + expr_bytes(*scrutinee)
            + len_bytes(cases.len()) + cases_concat(cases, cases.len()),
        SpecExpr::Let { vd, value, body } => marker_bytes(12) + val_def_bytes(vd) + expr_bytes(
            *value,
        ) + expr_bytes(*body),
        SpecExpr::Block { exprs, last } => marker_bytes(190) + len_bytes(exprs.len())
            + exprs_concat(exprs, exprs.len()) + expr_bytes(*last),
        SpecExpr::NoTree { tpe } => marker_bytes(120) + type_bytes(tpe),
    }
}

/// The encodings of the first `n` expressions, one after another.
pub open spec fn exprs_concat(es: Seq<SpecExpr>, n: nat) -> Seq<u8>
    decreases es, n,
{
    if n == 0 || n > es.len() {
        Seq::empty()
    } else {
        exprs_concat(es, (n - 1) as nat) + expr_bytes(es[n - 1])
    }
}

/// The bytes of a pattern.
pub open spec fn pattern_bytes(p: SpecPattern) -> Seq<u8>
    decreases p,
{
    match p {
        SpecPattern::WildcardPattern { binder } => marker_bytes(128) + binder_bytes(binder),
        SpecPattern::LiteralPattern { binder, lit } => marker_bytes(131) + binder_bytes(binder)
            + expr_bytes(lit),
        SpecPattern::ADTPattern { binder, id, tps, sub_patterns } => marker_bytes(129)
            + binder_bytes(binder) + symbol_identifier_bytes(id) + types_bytes(tps) + len_bytes(
            sub_patterns.len(),
        ) + patterns_concat(sub_patterns, sub_patterns.len()),
    }
}

/// The encodings of the first `n` patterns, one after another.
pub open spec fn patterns_concat(ps: Seq<SpecPattern>, n: nat) -> Seq<u8>
    decreases ps, n,
{
    if n == 0 || n > ps.len() {
        Seq::empty()
    } else {
        patterns_concat(ps, (n - 1) as nat) + pattern_bytes(ps[n - 1])
    }
}

/// The bytes of a case of a match.
pub open spec fn match_case_bytes(c: SpecMatchCase) -> Seq<u8>
    decreases c,
{
    marker_bytes(127) + pattern_bytes(c.pattern) + (match c.opt_guard {
        None => seq![0u8],
        Some(guard) => seq![1u8] + expr_bytes(guard),
    }) + expr_bytes(c.rhs)
}

/// The encodings of the first `n` cases, one after another.
pub open spec fn cases_concat(cs: Seq<SpecMatchCase>, n: nat) -> Seq<u8>
    decreases cs, n,
{
    if n == 0 || n > cs.len() {
        Seq::empty()
    } else {
        cases_concat(cs, (n - 1) as nat) + match_case_bytes(cs[n - 1])
    }
}

/// The bytes of a constructor.
pub open spec fn constructor_bytes(c: SpecADTConstructor) -> Seq<u8> {
    marker_bytes(97) + symbol_identifier_bytes(c.id) + symbol_identifier_bytes(c.sort)
        + val_defs_bytes(c.fields)
}

/// The encodings of the first `n` constructors, one after another.
pub open spec fn constructors_concat(cs: Seq<SpecADTConstructor>, n: nat) -> Seq<u8>
    decreases n,
{
    if n == 0 || n > cs.len() {
        Seq::empty()
    } else {
        constructors_concat(cs, (n - 1) as nat) + constructor_bytes(cs[n - 1])
    }
}

/// The bytes of a sort.
#[verifier::opaque]
pub open spec fn adt_sort_bytes(sort: SpecADTSort) -> Seq<u8> {
    marker_bytes(96) + symbol_identifier_bytes(sort.id) + type_parameter_defs_bytes(sort.tparams)
        + len_bytes(sort.constructors.len()) + constructors_concat(
        sort.constructors,
        sort.constructors.len(),
    ) + flags_bytes(sort.flags)
}

/// The bytes of a function.
#[verifier::opaque]
pub open spec fn fun_def_bytes(fd: SpecFunDef) -> Seq<u8> {
    marker_bytes(98) + symbol_identifier_bytes(fd.id) + type_parameter_defs_bytes(fd.tparams)
        + val_defs_bytes(fd.params) + type_bytes(fd.return_type) + expr_bytes(fd.full_body)
        + flags_bytes(fd.flags)
}

/// The encodings of the first `n` sorts, one after another.
pub open spec fn adt_sorts_concat(sorts: Seq<SpecADTSort>, n: nat) -> Seq<u8>
    decreases n,
{
    if n == 0 || n > sorts.len() {
        Seq::empty()
    } else {
        adt_sorts_concat(sorts, (n - 1) as nat) + adt_sort_bytes(sorts[n - 1])
    }
}

/// The encodings of the first `n` functions, one after another.
pub open spec fn fun_defs_concat(fds: Seq<SpecFunDef>, n: nat) -> Seq<u8>
    decreases n,
{
    if n == 0 || n > fds.len() {
        Seq::empty()
    } else {
        fun_defs_concat(fds, (n - 1) as nat) + fun_def_bytes(fds[n - 1])
    }
}

impl Identifier {
    /// Writes the marker of this node, then its fields in declared order.
    pub fn serialize(&self, s: &mut BufferSerializer)
        ensures
            final(s)@ == old(s)@ + identifier_bytes(self@),
    {
        s.write_marker(MarkerId(90));
        s.write_str(self.name.as_str());
        s.write_int(self.global_id);
        s.write_int(self.id);
        assert(s@ =~= old(s)@ + identifier_bytes(self@));
    }
}

impl<'a> SymbolIdentifier<'a> {
    /// Writes the marker of this node, then its fields in declared order.
    pub fn serialize(&self, s: &mut BufferSerializer)
        ensures
            final(s)@ == old(s)@ + symbol_identifier_bytes(self@),
    {
        s.write_marker(MarkerId(145));
        s.write_int(self.id.global_id);
        s.write_int(self.id.id);
        s.write_strings(&self.symbol_path);
        s.write_int(self.id.global_id);
        assert(s@ =~= old(s)@ + symbol_identifier_bytes(self@));
    }
}

impl Flag {
    /// The marker of this flag.
    pub fn marker(&self) -> (m: MarkerId)
        ensures
            m.0 == flag_marker(*self),
    {
        match self {
            Flag::Extern => MarkerId(139),
            Flag::Opaque => MarkerId(140),
            Flag::Unchecked => MarkerId(141),
        }
    }
}

/// Writes the number of the flags, then the marker of each.
pub fn serialize_flags(flags: &Vec<Flag>, s: &mut BufferSerializer)
    ensures
        final(s)@ == old(s)@ + flags_bytes(flags@),
{
    s.write_len(flags.len());
    let ghost start = s@;
    let mut i: usize = 0;
    while i < flags.len()
        invariant
            i <= flags@.len(),
            s@ == start + flags_concat(flags@, i as nat),
        decreases flags.len() - i,
    {
        s.write_marker(flags[i].marker());
        assert(s@ =~= start + flags_concat(flags@, (i + 1) as nat));
        i += 1;
    }
    assert(s@ =~= old(s)@ + flags_bytes(flags@));
}

impl<'a> TypeParameter<'a> {
    /// Writes the marker of this node, then its fields in declared order.
    pub fn serialize(&self, s: &mut BufferSerializer)
        ensures
            final(s)@ == old(s)@ + type_parameter_bytes(self@),
    {
        s.write_marker(MarkerId(82));
        self.id.serialize(s);
        serialize_flags(&self.flags, s);
        assert(s@ =~= old(s)@ + type_parameter_bytes(self@));
    }
}

impl<'a> TypeParameterDef<'a> {
    /// Writes the marker of this node, then its fields in declared order.
    pub fn serialize(&self, s: &mut BufferSerializer)
        ensures
            final(s)@ == old(s)@ + type_parameter_def_bytes(self@),
    {
        s.write_marker(MarkerId(95));
        self.tp.serialize(s);
        assert(s@ =~= old(s)@ + type_parameter_def_bytes(self@));
    }
}

/// Writes a type.
pub fn serialize_type(t: Type<'_>, s: &mut BufferSerializer)
    ensures
        final(s)@ == old(s)@ + type_bytes(t@),
    decreases t,
{
    match t {
        Type::Untyped => s.write_marker(MarkerId(74)),
        Type::BooleanType => s.write_marker(MarkerId(75)),
        Type::UnitType => s.write_marker(MarkerId(76)),
        Type::StringType => s.write_marker(MarkerId(80)),
        Type::BVType(t) => {
            s.write_marker(MarkerId(81));
            s.write_bool(t.signed);
            s.write_int(t.size);
        },
        Type::TypeParameter(t) => t.serialize(s),
        Type::TupleType(t) => {
            s.write_marker(MarkerId(83));
            serialize_types(&t.bases, s);
        },
        Type::ADTType(t) => {
            s.write_marker(MarkerId(88));
            t.id.serialize(s);
            serialize_types(&t.tps, s);
        },
    }
    assert(s@ =~= old(s)@ + type_bytes(t@));
}

/// Writes the number of the types, then each of them.
pub fn serialize_types(ts: &Vec<Type<'_>>, s: &mut BufferSerializer)
    ensures
        final(s)@ == old(s)@ + types_bytes(type_views(ts@)),
    decreases ts,
{
    let ghost views = type_views(ts@);
    s.write_len(ts.len());
    let ghost start = s@;
    let mut i: usize = 0;
    while i < ts.len()
        invariant
            i <= ts@.len(),
            views == type_views(ts@),
            s@ == start + types_concat(views, i as nat),
        decreases ts.len() - i,
    {
        serialize_type(ts[i], s);
        assert(s@ =~= start + types_concat(views, (i + 1) as nat));
        i += 1;
    }
    assert(s@ =~= old(s)@ + types_bytes(views));
}

impl<'a> Variable<'a> {
    /// Writes the marker of this node, then its fields in declared order.
    pub fn serialize(&self, s: &mut BufferSerializer)
        ensures
            final(s)@ == old(s)@ + variable_bytes(self@),
    {
        s.write_marker(MarkerId(11));
        self.id.serialize(s);
        serialize_type(self.tpe, s);
        serialize_flags(&self.flags, s);
        assert(s@ =~= old(s)@ + variable_bytes(self@));
    }
}

impl<'a> ValDef<'a> {
    /// Writes the marker of this node, then its fields in declared order.
    pub fn serialize(&self, s: &mut BufferSerializer)
        ensures
            final(s)@ == old(s)@ + val_def_bytes(self@),
    {
        s.write_marker(MarkerId(94));
        self.v.serialize(s);
        assert(s@ =~= old(s)@ + val_def_bytes(self@));
    }
}

/// Writes the number of the binders, then each of them.
pub fn serialize_val_defs(vds: &Vec<&ValDef<'_>>, s: &mut BufferSerializer)
    ensures
        final(s)@ == old(s)@ + val_defs_bytes(val_def_views(vds@)),
{
    let ghost views = val_def_views(vds@);
    s.write_len(vds.len());
    let ghost start = s@;
    let mut i: usize = 0;
    while i < vds.len()
        invariant
            i <= vds@.len(),
            views == val_def_views(vds@),
            s@ == start + val_defs_concat(views, i as nat),
        decreases vds.len() - i,
    {
        vds[i].serialize(s);
        assert(s@ =~= start + val_defs_concat(views, (i + 1) as nat));
        i += 1;
    }
    assert(s@ =~= old(s)@ + val_defs_bytes(views));
}

/// Writes the number of the type parameters, then each of them.
pub fn serialize_type_parameter_defs(tps: &Vec<&TypeParameterDef<'_>>, s: &mut BufferSerializer)
    ensures
        final(s)@ == old(s)@ + type_parameter_defs_bytes(type_parameter_views(tps@)),
{
    let ghost views = type_parameter_views(tps@);
    s.write_len(tps.len());
    let ghost start = s@;
    let mut i: usize = 0;
    while i < tps.len()
        invariant
            i <= tps@.len(),
            views == type_parameter_views(tps@),
            s@ == start + type_parameter_defs_concat(views, i as nat),
        decreases tps.len() - i,
    {
        tps[i].serialize(s);
        assert(s@ =~= start + type_parameter_defs_concat(views, (i + 1) as nat));
        i += 1;
    }
    assert(s@ =~= old(s)@ + type_parameter_defs_bytes(views));
}

fn serialize_binder(binder: Option<&ValDef<'_>>, s: &mut BufferSerializer)
    ensures
        final(s)@ == old(s)@ + binder_bytes(binder_view(binder)),
{
    match binder {
        None => {
            s.write_byte(0);
        },
        Some(vd) => {
            s.write_byte(1);
            vd.serialize(s);
        },
    }
    assert(s@ =~= old(s)@ + binder_bytes(binder_view(binder)));
}

impl UnitLiteral {
    /// Writes the marker of this node, then its fields in declared order.
    pub fn serialize(&self, s: &mut BufferSerializer)
        ensures
            final(s)@ == old(s)@ + expr_bytes(Expr::UnitLiteral(self)@),
    {
        s.write_marker(MarkerId(25));
    }
}

impl BooleanLiteral {
    /// Writes the marker of this node, then its fields in declared order.
    pub fn serialize(&self, s: &mut BufferSerializer)
        ensures
            final(s)@ == old(s)@ + expr_bytes(Expr::BooleanLiteral(self)@),
    {
        s.write_marker(MarkerId(23));
        s.write_bool(self.value);
        proof {
            lemma_written_2(
                old(s)@,
                marker_bytes(23),
                bool_bytes(self.value),
            );
        }
    }
}

impl BVLiteral {
    /// Writes the marker of this node, then its fields in declared order.
    pub fn serialize(&self, s: &mut BufferSerializer)
        ensures
            final(s)@ == old(s)@ + expr_bytes(Expr::BVLiteral(self)@),
    {
        s.write_marker(MarkerId(20));
        s.write_bool(self.signed);
        s.write_big_int(&self.value);
        s.write_int(self.size);
        proof {
            lemma_written_4(
                old(s)@,
                marker_bytes(20),
                bool_bytes(self.signed),
                big_int_bytes(self.value.as_int()),
                int_bytes(self.size),
            );
        }
    }
}

impl StringLiteral {
    /// Writes the marker of this node, then its fields in declared order.
    pub fn serialize(&self, s: &mut BufferSerializer)
        ensures
            final(s)@ == old(s)@ + expr_bytes(Expr::StringLiteral(self)@),
    {
        s.write_marker(MarkerId(24));
        s.write_str(self.value.as_str());
        proof {
            lemma_written_2(
                old(s)@,
                marker_bytes(24),
                string_bytes(self.value@),
            );
        }
    }
}

impl<'a> Not<'a> {
    /// Writes the marker of this node, then its fields in declared order.
    pub fn serialize(&self, s: &mut BufferSerializer)
        ensures
            final(s)@ == old(s)@ + expr_bytes(Expr::Not(self)@),
        decreases self,
    {
        s.write_marker(MarkerId(33));
        serialize_expr(self.expr, s);
        proof {
            lemma_written_2(
                old(s)@,
                marker_bytes(33),
                expr_bytes(self.expr@),
            );
        }
    }
}

impl<'a> BVNot<'a> {
    /// Writes the marker of this node, then its fields in declared order.
    pub fn serialize(&self, s: &mut BufferSerializer)
        ensures
            final(s)@ == old(s)@ + expr_bytes(Expr::BVNot(self)@),
        decreases self,
    {
        s.write_marker(MarkerId(48));
        serialize_expr(self.e, s);
        proof {
            lemma_written_2(
                old(s)@,
                marker_bytes(48),
                expr_bytes(self.e@),
            );
        }
    }
}

impl<'a> UMinus<'a> {
    /// Writes the marker of this node, then its fields in declared order.
    pub fn serialize(&self, s: &mut BufferSerializer)
        ensures
            final(s)@ == old(s)@ + expr_bytes(Expr::UMinus(self)@),
        decreases self,
    {
        s.write_marker(MarkerId(39));
        serialize_expr(self.expr, s);
        proof {
            lemma_written_2(
                old(s)@,
                marker_bytes(39),
                expr_bytes(self.expr@),
            );
        }
    }
}

impl<'a> Plus<'a> {
    /// Writes the marker of this node, then its fields in declared order.
    pub fn serialize(&self, s: &mut BufferSerializer)
        ensures
            final(s)@ == old(s)@ + expr_bytes(Expr::Plus(self)@),
        decreases self,
    {
        s.write_marker(MarkerId(37));
        serialize_expr(self.lhs, s);
        serialize_expr(self.rhs, s);
        proof {
            lemma_written_3(
                old(s)@,
                marker_bytes(37),
                expr_bytes(self.lhs@),
                expr_bytes(self.rhs@),
            );
        }
    }
}

impl<'a> Minus<'a> {
    /// Writes the marker of this node, then its fields in declared order.
    pub fn serialize(&self, s: &mut BufferSerializer)
        ensures
            final(s)@ == old(s)@ + expr_bytes(Expr::Minus(self)@),
        decreases self,
    {
        s.write_marker(MarkerId(38));
        serialize_expr(self.lhs, s);
        serialize_expr(self.rhs, s);
        proof {
            lemma_written_3(
                old(s)@,
                marker_bytes(38),
                expr_bytes(self.lhs@),
                expr_bytes(self.rhs@),
            );
        }
    }
}

impl<'a> Times<'a> {
    /// Writes the marker of this node, then its fields in declared order.
    pub fn serialize(&self, s: &mut BufferSerializer)
        ensures
            final(s)@ == old(s)@ + expr_bytes(Expr::Times(self)@),
        decreases self,
    {
        s.write_marker(MarkerId(40));
        serialize_expr(self.lhs, s);
        serialize_expr(self.rhs, s);
        proof {
            lemma_written_3(
                old(s)@,
                marker_bytes(40),
                expr_bytes(self.lhs@),
                expr_bytes(self.rhs@),
            );
        }
    }
}

impl<'a> Division<'a> {
    /// Writes the marker of this node, then its fields in declared order.
    pub fn serialize(&self, s: &mut BufferSerializer)
        ensures
            final(s)@ == old(s)@ + expr_bytes(Expr::Division(self)@),
        decreases self,
    {
        s.write_marker(MarkerId(41));
        serialize_expr(self.lhs, s);
        serialize_expr(self.rhs, s);
        proof {
            lemma_written_3(
                old(s)@,
                marker_bytes(41),
                expr_bytes(self.lhs@),
                expr_bytes(self.rhs@),
            );
        }
    }
}

impl<'a> LessThan<'a> {
    /// Writes the marker of this node, then its fields in declared order.
    pub fn serialize(&self, s: &mut BufferSerializer)
        ensures
            final(s)@ == old(s)@ + expr_bytes(Expr::LessThan(self)@),
        decreases self,
    {
        s.write_marker(MarkerId(44));
        serialize_expr(self.lhs, s);
        serialize_expr(self.rhs, s);
        proof {
            lemma_written_3(
                old(s)@,
                marker_bytes(44),
                expr_bytes(self.lhs@),
                expr_bytes(self.rhs@),
            );
        }
    }
}

impl<'a> LessEquals<'a> {
    /// Writes the marker of this node, then its fields in declared order.
    pub fn serialize(&self, s: &mut BufferSerializer)
        ensures
            final(s)@ == old(s)@ + expr_bytes(Expr::LessEquals(self)@),
        decreases self,
    {
        s.write_marker(MarkerId(46));
        serialize_expr(self.lhs, s);
        serialize_expr(self.rhs, s);
        proof {
            lemma_written_3(
                old(s)@,
                marker_bytes(46),
                expr_bytes(self.lhs@),
                expr_bytes(self.rhs@),
            );
        }
    }
}

impl<'a> GreaterEquals<'a> {
    /// Writes the marker of this node, then its fields in declared order.
    pub fn serialize(&self, s: &mut BufferSerializer)
        ensures
            final(s)@ == old(s)@ + expr_bytes(Expr::GreaterEquals(self)@),
        decreases self,
    {
        s.write_marker(MarkerId(47));
        serialize_expr(self.lhs, s);
        serialize_expr(self.rhs, s);
        proof {
            lemma_written_3(
                old(s)@,
                marker_bytes(47),
                expr_bytes(self.lhs@),
                expr_bytes(self.rhs@),
            );
        }
    }
}

impl<'a> GreaterThan<'a> {
    /// Writes the marker of this node, then its fields in declared order.
    pub fn serialize(&self, s: &mut BufferSerializer)
        ensures
            final(s)@ == old(s)@ + expr_bytes(Expr::GreaterThan(self)@),
        decreases self,
    {
        s.write_marker(MarkerId(45));
        serialize_expr(self.lhs, s);
        serialize_expr(self.rhs, s);
        proof {
            lemma_written_3(
                old(s)@,
                marker_bytes(45),
                expr_bytes(self.lhs@),
                expr_bytes(self.rhs@),
            );
        }
    }
}

impl<'a> Equals<'a> {
    /// Writes the marker of this node, then its fields in declared order.
    pub fn serialize(&self, s: &mut BufferSerializer)
        ensures
            final(s)@ == old(s)@ + expr_bytes(Expr::Equals(self)@),
        decreases self,
    {
        s.write_marker(MarkerId(30));
        serialize_expr(self.lhs, s);
        serialize_expr(self.rhs, s);
        proof {
            lemma_written_3(
                old(s)@,
                marker_bytes(30),
                expr_bytes(self.lhs@),
                expr_bytes(self.rhs@),
            );
        }
    }
}

impl<'a> And<'a> {
    /// Writes the marker of this node, then its fields in declared order.
    pub fn serialize(&self, s: &mut BufferSerializer)
        ensures
            final(s)@ == old(s)@ + expr_bytes(Expr::And(self)@),
        decreases self,
    {
        s.write_marker(MarkerId(31));
        serialize_exprs(&self.exprs, s);
        proof {
            lemma_written_3(
                old(s)@,
                marker_bytes(31),
                len_bytes(self.exprs@.len()),
                exprs_concat(expr_views(self.exprs@), self.exprs@.len()),
            );
        }
    }
}

impl<'a> Or<'a> {
    /// Writes the marker of this node, then its fields in declared order.
    pub fn serialize(&self, s: &mut BufferSerializer)
        ensures
            final(s)@ == old(s)@ + expr_bytes(Expr::Or(self)@),
        decreases self,
    {
        s.write_marker(MarkerId(32));
        serialize_exprs(&self.exprs, s);
        proof {
            lemma_written_3(
                old(s)@,
                marker_bytes(32),
                len_bytes(self.exprs@.len()),
                exprs_concat(expr_views(self.exprs@), self.exprs@.len()),
            );
        }
    }
}

impl<'a> Tuple<'a> {
    /// Writes the marker of this node, then its fields in declared order.
    pub fn serialize(&self, s: &mut BufferSerializer)
        ensures
            final(s)@ == old(s)@ + expr_bytes(Expr::Tuple(self)@),
        decreases self,
    {
        s.write_marker(MarkerId(57));
        serialize_exprs(&self.exprs, s);
        proof {
            lemma_written_3(
                old(s)@,
                marker_bytes(57),
                len_bytes(self.exprs@.len()),
                exprs_concat(expr_views(self.exprs@), self.exprs@.len()),
            );
        }
    }
}

impl<'a> TupleSelect<'a> {
    /// Writes the marker of this node, then its fields in declared order.
    pub fn serialize(&self, s: &mut BufferSerializer)
        ensures
            final(s)@ == old(s)@ + expr_bytes(Expr::TupleSelect(self)@),
        decreases self,
    {
        s.write_marker(MarkerId(58));
        serialize_expr(self.tuple, s);
        s.write_int(self.index);
        proof {
            lemma_written_3(
                old(s)@,
                marker_bytes(58),
                expr_bytes(self.tuple@),
                int_bytes(self.index),
            );
        }
    }
}

impl<'a> ADT<'a> {
    /// Writes the marker of this node, then its fields in declared order.
    pub fn serialize(&self, s: &mut BufferSerializer)
        ensures
            final(s)@ == old(s)@ + expr_bytes(Expr::ADT(self)@),
        decreases self,
    {
        s.write_marker(MarkerId(27));
        self.id.serialize(s);
        serialize_types(&self.tps, s);
        serialize_exprs(&self.args, s);
        proof {
            lemma_written_5(
                old(s)@,
                marker_bytes(27),
                symbol_identifier_bytes(self.id@),
                types_bytes(type_views(self.tps@)),
                len_bytes(self.args@.len()),
                exprs_concat(expr_views(self.args@), self.args@.len()),
            );
        }
    }
}

impl<'a> ADTSelector<'a> {
    /// Writes the marker of this node, then its fields in declared order.
    pub fn serialize(&self, s: &mut BufferSerializer)
        ensures
            final(s)@ == old(s)@ + expr_bytes(Expr::ADTSelector(self)@),
        decreases self,
    {
        s.write_marker(MarkerId(29));
        serialize_expr(self.adt, s);
        self.selector.serialize(s);
        proof {
            lemma_written_3(
                old(s)@,
                marker_bytes(29),
                expr_bytes(self.adt@),
                symbol_identifier_bytes(self.selector@),
            );
        }
    }
}

impl<'a> FunctionInvocation<'a> {
    /// Writes the marker of this node, then its fields in declared order.
    pub fn serialize(&self, s: &mut BufferSerializer)
        ensures
            final(s)@ == old(s)@ + expr_bytes(Expr::FunctionInvocation(self)@),
        decreases self,
    {
        s.write_marker(MarkerId(17));
        self.id.serialize(s);
        serialize_types(&self.tps, s);
        serialize_exprs(&self.args, s);
        proof {
            lemma_written_5(
                old(s)@,
                marker_bytes(17),
                symbol_identifier_bytes(self.id@),
                types_bytes(type_views(self.tps@)),
                len_bytes(self.args@.len()),
                exprs_concat(expr_views(self.args@), self.args@.len()),
            );
        }
    }
}

impl<'a> IfExpr<'a> {
    /// Writes the marker of this node, then its fields in declared order.
    pub fn serialize(&self, s: &mut BufferSerializer)
        ensures
            final(s)@ == old(s)@ + expr_bytes(Expr::IfExpr(self)@),
        decreases self,
    {
        s.write_marker(MarkerId(18));
        serialize_expr(self.cond, s);
        serialize_expr(self.thenn, s);
        serialize_expr(self.elze, s);
        proof {
            lemma_written_4(
                old(s)@,
                marker_bytes(18),
                expr_bytes(self.cond@),
                expr_bytes(self.thenn@),
                expr_bytes(self.elze@),
            );
        }
    }
}

impl<'a> MatchExpr<'a> {
    /// Writes the marker of this node, then its fields in declared order.
    pub fn serialize(&self, s: &mut BufferSerializer)
        ensures
            final(s)@ == old(s)@ + expr_bytes(Expr::MatchExpr(self)@),
        decreases self,
    {
        s.write_marker(MarkerId(126));
        serialize_expr(self.scrutinee, s);
        serialize_cases(&self.cases, s);
        proof {
            lemma_written_4(
                old(s)@,
                marker_bytes(126),
                expr_bytes(self.scrutinee@),
                len_bytes(self.cases@.len()),
                cases_concat(match_case_views(self.cases@), self.cases@.len()),
            );
        }
    }
}

impl<'a> Let<'a> {
    /// Writes the marker of this node, then its fields in declared order.
    pub fn serialize(&self, s: &mut BufferSerializer)
        ensures
            final(s)@ == old(s)@ + expr_bytes(Expr::Let(self)@),
        decreases self,
    {
        s.write_marker(MarkerId(12));
        self.vd.serialize(s);
        serialize_expr(self.value, s);
        serialize_expr(self.body, s);
        proof {
            lemma_written_4(
                old(s)@,
                marker_bytes(12),
                val_def_bytes(self.vd@),
                expr_bytes(self.value@),
                expr_bytes(self.body@),
            );
        }
    }
}

impl<'a> Block<'a> {
    /// Writes the marker of this node, then its fields in declared order.
    pub fn serialize(&self, s: &mut BufferSerializer)
        ensures
            final(s)@ == old(s)@ + expr_bytes(Expr::Block(self)@),
        decreases self,
    {
        s.write_marker(MarkerId(190));
        serialize_exprs(&self.exprs, s);
        serialize_expr(self.last, s);
        proof {
            lemma_written_4(
                old(s)@,
                marker_bytes(190),
                len_bytes(self.exprs@.len()),
                exprs_concat(expr_views(self.exprs@), self.exprs@.len()),
                expr_bytes(self.last@),
            );
        }
    }
}

impl<'a> NoTree<'a> {
    /// Writes the marker of this node, then its fields in declared order.
    pub fn serialize(&self, s: &mut BufferSerializer)
        ensures
            final(s)@ == old(s)@ + expr_bytes(Expr::NoTree(self)@),
    {
        s.write_marker(MarkerId(120));
        serialize_type(self.tpe, s);
        proof {
            lemma_written_2(
                old(s)@,
                marker_bytes(120),
                type_bytes(self.tpe@),
            );
        }
    }
}

/// Writes an expression.
pub fn serialize_expr(e: Expr<'_>, s: &mut BufferSerializer)
    ensures
        final(s)@ == old(s)@ + expr_bytes(e@),
    decreases e,
{
    match e {
        Expr::UnitLiteral(n) => n.serialize(s),
        Expr::BooleanLiteral(n) => n.serialize(s),
        Expr::BVLiteral(n) => n.serialize(s),
        Expr::StringLiteral(n) => n.serialize(s),
        Expr::Not(n) => n.serialize(s),
        Expr::BVNot(n) => n.serialize(s),
        Expr::UMinus(n) => n.serialize(s),
        Expr::Plus(n) => n.serialize(s),
        Expr::Minus(n) => n.serialize(s),
        Expr::Times(n) => n.serialize(s),
        Expr::Division(n) => n.serialize(s),
        Expr::LessThan(n) => n.serialize(s),
        Expr::LessEquals(n) => n.serialize(s),
        Expr::GreaterEquals(n) => n.serialize(s),
        Expr::GreaterThan(n) => n.serialize(s),
        Expr::Equals(n) => n.serialize(s),
        Expr::And(n) => n.serialize(s),
        Expr::Or(n) => n.serialize(s),
        Expr::Tuple(n) => n.serialize(s),
        Expr::TupleSelect(n) => n.serialize(s),
        Expr::ADT(n) => n.serialize(s),
        Expr::ADTSelector(n) => n.serialize(s),
        Expr::Variable(n) => n.serialize(s),
        Expr::FunctionInvocation(n) => n.serialize(s),
        Expr::IfExpr(n) => n.serialize(s),
        Expr::MatchExpr(n) => n.serialize(s),
        Expr::Let(n) => n.serialize(s),
        Expr::Block(n) => n.serialize(s),
        Expr::NoTree(n) => n.serialize(s),
    }
}

/// Writes the number of the expressions, then each of them.
pub fn serialize_exprs(es: &Vec<Expr<'_>>, s: &mut BufferSerializer)
    ensures
        final(s)@ == old(s)@ + len_bytes(es@.len()) + exprs_concat(expr_views(es@), es@.len()),
    decreases es,
{
    let ghost views = expr_views(es@);
    s.write_len(es.len());
    let ghost start = s@;
    let mut i: usize = 0;
    while i < es.len()
        invariant
            i <= es@.len(),
            views == expr_views(es@),
            s@ == start + exprs_concat(views, i as nat),
        decreases es.len() - i,
    {
        serialize_expr(es[i], s);
        assert(s@ =~= start + exprs_concat(views, (i + 1) as nat));
        i += 1;
    }
    assert(s@ =~= old(s)@ + len_bytes(es@.len()) + exprs_concat(views, es@.len()));
}

impl<'a> WildcardPattern<'a> {
    /// Writes the marker of this node, then its fields in declared order.
    pub fn serialize(&self, s: &mut BufferSerializer)
        ensures
            final(s)@ == old(s)@ + pattern_bytes(Pattern::WildcardPattern(self)@),
    {
        s.write_marker(MarkerId(128));
        serialize_binder(self.binder, s);
        proof {
            lemma_written_2(
                old(s)@,
                marker_bytes(128),
                binder_bytes(binder_view(self.binder)),
            );
        }
    }
}

impl<'a> LiteralPattern<'a> {
    /// Writes the marker of this node, then its fields in declared order.
    pub fn serialize(&self, s: &mut BufferSerializer)
        ensures
            final(s)@ == old(s)@ + pattern_bytes(Pattern::LiteralPattern(self)@),
        decreases self,
    {
        s.write_marker(MarkerId(131));
        serialize_binder(self.binder, s);
        serialize_expr(self.lit, s);
        proof {
            lemma_written_3(
                old(s)@,
                marker_bytes(131),
                binder_bytes(binder_view(self.binder)),
                expr_bytes(self.lit@),
            );
        }
    }
}

impl<'a> ADTPattern<'a> {
    /// Writes the marker of this node, then its fields in declared order.
    pub fn serialize(&self, s: &mut BufferSerializer)
        ensures
            final(s)@ == old(s)@ + pattern_bytes(Pattern::ADTPattern(self)@),
        decreases self,
    {
        s.write_marker(MarkerId(129));
        serialize_binder(self.binder, s);
        self.id.serialize(s);
        serialize_types(&self.tps, s);
        serialize_patterns(&self.sub_patterns, s);
        proof {
            lemma_written_6(
                old(s)@,
                marker_bytes(129),
                binder_bytes(binder_view(self.binder)),
                symbol_identifier_bytes(self.id@),
                types_bytes(type_views(self.tps@)),
                len_bytes(self.sub_patterns@.len()),
                patterns_concat(pattern_views(self.sub_patterns@), self.sub_patterns@.len()),
            );
        }
    }
}

/// Writes a pattern.
pub fn serialize_pattern(p: Pattern<'_>, s: &mut BufferSerializer)
    ensures
        final(s)@ == old(s)@ + pattern_bytes(p@),
    decreases p,
{
    match p {
        Pattern::WildcardPattern(n) => n.serialize(s),
        Pattern::LiteralPattern(n) => n.serialize(s),
        Pattern::ADTPattern(n) => n.serialize(s),
    }
}

/// Writes the number of the patterns, then each of them.
pub fn serialize_patterns(ps: &Vec<Pattern<'_>>, s: &mut BufferSerializer)
    ensures
        final(s)@ == old(s)@ + len_bytes(ps@.len()) + patterns_concat(
            pattern_views(ps@),
            ps@.len(),
        ),
    decreases ps,
{
    let ghost views = pattern_views(ps@);
    s.write_len(ps.len());
    let ghost start = s@;
    let mut i: usize = 0;
    while i < ps.len()
        invariant
            i <= ps@.len(),
            views == pattern_views(ps@),
            s@ == start + patterns_concat(views, i as nat),
        decreases ps.len() - i,
    {
        serialize_pattern(ps[i], s);
        assert(s@ =~= start + patterns_concat(views, (i + 1) as nat));
        i += 1;
    }
    assert(s@ =~= old(s)@ + len_bytes(ps@.len()) + patterns_concat(views, ps@.len()));
}

/// Writes a case of a match.
pub fn serialize_case(c: &MatchCase<'_>, s: &mut BufferSerializer)
    ensures
        final(s)@ == old(s)@ + match_case_bytes(c@),
    decreases c,
{
    s.write_marker(MarkerId(127));
    serialize_pattern(c.pattern, s);
    match c.opt_guard {
        None => {
            s.write_byte(0);
        },
        Some(guard) => {
            s.write_byte(1);
            serialize_expr(guard, s);
        },
    }
    serialize_expr(c.rhs, s);
    assert(s@ =~= old(s)@ + match_case_bytes(c@));
}

/// Writes the number of the cases, then each of them.
pub fn serialize_cases(cs: &Vec<&MatchCase<'_>>, s: &mut BufferSerializer)
    ensures
        final(s)@ == old(s)@ + len_bytes(cs@.len()) + cases_concat(
            match_case_views(cs@),
            cs@.len(),
        ),
    decreases cs,
{
    let ghost views = match_case_views(cs@);
    s.write_len(cs.len());
    let ghost start = s@;
    let mut i: usize = 0;
    while i < cs.len()
        invariant
            i <= cs@.len(),
            views == match_case_views(cs@),
            s@ == start + cases_concat(views, i as nat),
        decreases cs.len() - i,
    {
        serialize_case(cs[i], s);
        assert(s@ =~= start + cases_concat(views, (i + 1) as nat));
        i += 1;
    }
    assert(s@ =~= old(s)@ + len_bytes(cs@.len()) + cases_concat(views, cs@.len()));
}

impl<'a> ADTConstructor<'a> {
    /// Writes the marker of this node, then its fields in declared order.
    pub fn serialize(&self, s: &mut BufferSerializer)
        ensures
            final(s)@ == old(s)@ + constructor_bytes(self@),
    {
        s.write_marker(MarkerId(97));
        self.id.serialize(s);
        self.sort.serialize(s);
        serialize_val_defs(&self.fields, s);
        assert(s@ =~= old(s)@ + constructor_bytes(self@));
    }
}

impl<'a> ADTSort<'a> {
    /// Writes the marker of this node, then its fields in declared order.
    pub fn serialize(&self, s: &mut BufferSerializer)
        ensures
            final(s)@ == old(s)@ + adt_sort_bytes(self@),
    {
        reveal(adt_sort_bytes);
        s.write_marker(MarkerId(96));
        self.id.serialize(s);
        serialize_type_parameter_defs(&self.tparams, s);
        s.write_len(self.constructors.len());
        let ghost views = constructor_views(self.constructors@);
        let ghost start = s@;
        let mut i: usize = 0;
        while i < self.constructors.len()
            invariant
                i <= self.constructors@.len(),
                views == constructor_views(self.constructors@),
                s@ == start + constructors_concat(views, i as nat),
            decreases self.constructors.len() - i,
        {
            self.constructors[i].serialize(s);
            assert(s@ =~= start + constructors_concat(views, (i + 1) as nat));
            i += 1;
        }
        serialize_flags(&self.flags, s);
        assert(s@ =~= old(s)@ + adt_sort_bytes(self@));
    }
}

impl<'a> FunDef<'a> {
    /// Writes the marker of this node, then its fields in declared order.
    pub fn serialize(&self, s: &mut BufferSerializer)
        ensures
            final(s)@ == old(s)@ + fun_def_bytes(self@),
    {
        reveal(fun_def_bytes);
        s.write_marker(MarkerId(98));
        self.id.serialize(s);
        serialize_type_parameter_defs(&self.tparams, s);
        serialize_val_defs(&self.params, s);
        serialize_type(self.return_type, s);
        serialize_expr(self.full_body, s);
        serialize_flags(&self.flags, s);
        assert(s@ =~= old(s)@ + fun_def_bytes(self@));
    }
}

} // verus!
