//! Diagnostics: what could not be extracted, and where.
use vstd::prelude::*;
use vstd::string::*;
use crate::host::Span;

verus! {

/// Why a binding pattern does not stand for a single variable.
#[derive(Clone, Copy, Debug, PartialEq, Eq, Hash)]
pub enum BindingIssue {
    Mutable,
    ByReference,
    Subpattern,
    NotABinding,
}

/// What could not be extracted.
#[derive(Clone, Copy, Debug, PartialEq, Eq, Hash)]
pub enum Issue {
    Literal,
    UnsafeBlock,
    ExprKind,
    UnaryOp,
    BinaryOp,
    IndirectCall,
    UnresolvedCallee,
    UnresolvedAdt,
    AdtWithBase,
    PatternBinding(BindingIssue),
    PatternLiteral,
    PatternKind,
    LetPattern(BindingIssue),
    LetWithoutInitializer,
    Type,
}

/// One failure to extract a node: the node's location and the reason.
#[derive(Clone, Copy, Debug, PartialEq, Eq, Hash)]
pub struct Diagnostic {
    pub span: Span,
    pub issue: Issue,
}

impl BindingIssue {
    /// The words that tell a user of the reason.
    pub open spec fn text(self) -> Seq<char> {
        match self {
            BindingIssue::Mutable => "Mutable bindings are not supported"@,
            BindingIssue::ByReference => "By-reference bindings are not supported"@,
            BindingIssue::Subpattern => "Subpatterns are not supported here"@,
            BindingIssue::NotABinding => "Expected a top-level binding"@,
        }
    }

    /// The words that tell a user of the reason.
    pub fn as_str(self) -> (r: &'static str)
        ensures
            r@ == self.text(),
    {
        match self {
            BindingIssue::Mutable => "Mutable bindings are not supported",
            BindingIssue::ByReference => "By-reference bindings are not supported",
            BindingIssue::Subpattern => "Subpatterns are not supported here",
            BindingIssue::NotABinding => "Expected a top-level binding",
        }
    }
}

impl Issue {
    /// The words that tell a user of the issue.
    pub open spec fn text(self) -> Seq<char> {
        match self {
            Issue::Literal => "Unsupported kind of literal"@,
            Issue::UnsafeBlock => "Cannot extract unsafe block"@,
            Issue::ExprKind => "Cannot extract this kind of expression"@,
            Issue::UnaryOp => "Cannot extract unary op"@,
            Issue::BinaryOp => "Cannot extract binary op"@,
            Issue::IndirectCall => "Cannot extract call without statically known target"@,
            Issue::UnresolvedCallee => "Cannot resolve the function that is called"@,
            Issue::UnresolvedAdt => "Cannot resolve the data type"@,
            Issue::AdtWithBase => "Cannot extract ADT constructions with bases"@,
            Issue::PatternBinding(why) => "Unsupported pattern binding: "@ + why.text(),
            Issue::PatternLiteral => "Unsupported kind of literal in pattern"@,
            Issue::PatternKind => "Unsupported kind of pattern"@,
            Issue::LetPattern(why) => "Cannot extract complex pattern in let: "@ + why.text(),
            Issue::LetWithoutInitializer => "Cannot extract let without initializer"@,
            Issue::Type => "Cannot extract this type"@,
        }
    }

    /// The message that tells a user of this issue.
    pub fn message(self) -> (r: String)
        ensures
            r@ == self.text(),
    {
        match self {
            Issue::Literal => String::from_str("Unsupported kind of literal"),
            Issue::UnsafeBlock => String::from_str("Cannot extract unsafe block"),
            Issue::ExprKind => String::from_str("Cannot extract this kind of expression"),
            Issue::UnaryOp => String::from_str("Cannot extract unary op"),
            Issue::BinaryOp => String::from_str("Cannot extract binary op"),
            Issue::IndirectCall => String::from_str(
                "Cannot extract call without statically known target",
            ),
            Issue::UnresolvedCallee => String::from_str(
                "Cannot resolve the function that is called",
            ),
            Issue::UnresolvedAdt => String::from_str("Cannot resolve the data type"),
            Issue::AdtWithBase => String::from_str("Cannot extract ADT constructions with bases"),
            Issue::PatternBinding(why) => String::from_str("Unsupported pattern binding: ").concat(
                why.as_str(),
            ),
            Issue::PatternLiteral => String::from_str("Unsupported kind of literal in pattern"),
            Issue::PatternKind => String::from_str("Unsupported kind of pattern"),
            Issue::LetPattern(why) => String::from_str(
                "Cannot extract complex pattern in let: ",
            ).concat(why.as_str()),
            Issue::LetWithoutInitializer => String::from_str(
                "Cannot extract let without initializer",
            ),
            Issue::Type => String::from_str("Cannot extract this type"),
        }
    }
}

impl Diagnostic {
    /// The message of this diagnostic, as a user reads it.
    pub fn message(&self) -> (r: String)
        ensures
            r@ == "Unsupported tree: "@ + self.issue.text(),
    {
        let text = self.issue.message();
        String::from_str("Unsupported tree: ").concat(text.as_str())
    }
}

} // verus!
