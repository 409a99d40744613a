//! Extraction of types.
use vstd::prelude::*;
use crate::ast::{
    lemma_type_views_empty, type_views, ADTType, BVType, Int, TupleType, Type,
};
use crate::diag::{Diagnostic, Issue};
use crate::extraction::{BaseExtractor, ExtractionState};
use crate::host::{DefKey, HostTy, Span};
use crate::model::{SpecSymbolIdentifier, SpecType};
use crate::rules::Extracted;

verus! {

/// The type that stands where a type could not be extracted, with the one
/// diagnostic that says why.
pub open spec fn failed_ty(span: Span, issue: Issue) -> Extracted<SpecType> {
    Extracted { value: SpecType::Untyped, diags: seq![Diagnostic { span, issue }] }
}

/// The extraction of a type that is mentioned at `span`: booleans,
/// strings, integers of fixed width, tuples, of which the empty one is the
/// unit type, and registered data types.
pub open spec fn extracted_ty(
    defs: Map<DefKey, SpecSymbolIdentifier>,
    ty: HostTy,
    span: Span,
) -> Extracted<SpecType>
    decreases ty,
{
    match ty {
        HostTy::Bool => Extracted { value: SpecType::BooleanType, diags: Seq::empty() },
        HostTy::Str => Extracted { value: SpecType::StringType, diags: Seq::empty() },
        HostTy::Int { bit_width: Some(size) } => Extracted {
            value: SpecType::BVType { signed: true, size: size as Int },
            diags: Seq::empty(),
        },
        HostTy::Uint { bit_width: Some(size) } => Extracted {
            value: SpecType::BVType { signed: false, size: size as Int },
            diags: Seq::empty(),
        },
        HostTy::Tuple { fields } => if fields@.len() == 0 {
            Extracted { value: SpecType::UnitType, diags: Seq::empty() }
        } else {
            let bases = extracted_tys(defs, fields@, span, fields@.len());
            Extracted { value: SpecType::TupleType { bases: bases.value }, diags: bases.diags }
        },
        HostTy::Adt { def } => if defs.contains_key(def) {
            Extracted {
                value: SpecType::ADTType { id: defs[def], tps: Seq::empty() },
                diags: Seq::empty(),
            }
        } else {
            failed_ty(span, Issue::UnresolvedAdt)
        },
        _ => failed_ty(span, Issue::Type),
    }
}

/// The extractions of the first `n` types of a sequence.
pub open spec fn extracted_tys(
    defs: Map<DefKey, SpecSymbolIdentifier>,
    tys: Seq<HostTy>,
    span: Span,
    n: nat,
) -> Extracted<Seq<SpecType>>
    decreases tys, n,
{
    if n == 0 || n > tys.len() {
        Extracted { value: Seq::empty(), diags: Seq::empty() }
    } else {
        let before = extracted_tys(defs, tys, span, (n - 1) as nat);
        let t = extracted_ty(defs, tys[n - 1], span);
        Extracted { value: before.value.push(t.value), diags: before.diags + t.diags }
    }
}

/// The session after it has reported diagnostics.
pub open spec fn having_reported(state: ExtractionState, diags: Seq<Diagnostic>) -> ExtractionState {
    ExtractionState { diagnostics: state.diagnostics + diags, ..state }
}

pub proof fn lemma_type_views_push(ts: Seq<Type>, t: Type)
    ensures
        type_views(ts.push(t)) == type_views(ts).push(t@),
{
    assert(type_views(ts.push(t)) =~= type_views(ts).push(t@));
}

impl<'l> BaseExtractor<'l> {
    /// Extracts a type that is mentioned at `span`. A type that cannot be
    /// extracted becomes the missing type and is reported.
    pub fn extract_ty(&mut self, ty: &HostTy, span: Span) -> (r: Type<'l>)
        requires
            old(self).active(),
        ensures
            final(self).active(),
            final(self).spec_factory() == old(self).spec_factory(),
            r@ == extracted_ty(old(self).state().defs, *ty, span).value,
            final(self).state() == having_reported(
                old(self).state(),
                extracted_ty(old(self).state().defs, *ty, span).diags,
            ),
        decreases ty,
    {
        let f = self.factory();
        proof {
            assert(old(self).state().diagnostics + Seq::<Diagnostic>::empty()
                =~= old(self).state().diagnostics);
        }
        match ty {
            HostTy::Bool => Type::BooleanType,
            HostTy::Str => Type::StringType,
            HostTy::Int { bit_width: Some(size) } => Type::BVType(
                f.allocate(BVType { signed: true, size: #[verifier::truncate]
                (*size as Int) }),
            ),
            HostTy::Uint { bit_width: Some(size) } => Type::BVType(
                f.allocate(BVType { signed: false, size: #[verifier::truncate]
                (*size as Int) }),
            ),
            HostTy::Tuple { fields } => {
                if fields.len() == 0 {
                    Type::UnitType
                } else {
                    let bases = self.extract_tys(fields, span);
                    Type::TupleType(f.allocate(TupleType { bases }))
                }
            },
            HostTy::Adt { def } => match self.get_id_from_def(*def) {
                Some(id) => {
                    proof {
                        lemma_type_views_empty();
                    }
                    Type::ADTType(f.allocate(ADTType { id, tps: Vec::new() }))
                },
                None => {
                    self.unsupported(span, Issue::UnresolvedAdt);
                    assert(old(self).state().diagnostics.push(
                        Diagnostic { span, issue: Issue::UnresolvedAdt },
                    ) =~= old(self).state().diagnostics + failed_ty(
                        span,
                        Issue::UnresolvedAdt,
                    ).diags);
                    Type::Untyped
                },
            },
            _ => {
                self.unsupported(span, Issue::Type);
                assert(old(self).state().diagnostics.push(Diagnostic { span, issue: Issue::Type })
                    =~= old(self).state().diagnostics + failed_ty(span, Issue::Type).diags);
                Type::Untyped
            },
        }
    }

    /// Extracts the types of a sequence, in their order.
    pub fn extract_tys(&mut self, tys: &Vec<HostTy>, span: Span) -> (r: Vec<Type<'l>>)
        requires
            old(self).active(),
        ensures
            final(self).active(),
            final(self).spec_factory() == old(self).spec_factory(),
            type_views(r@) == extracted_tys(old(self).state().defs, tys@, span, tys@.len()).value,
            final(self).state() == having_reported(
                old(self).state(),
                extracted_tys(old(self).state().defs, tys@, span, tys@.len()).diags,
            ),
        decreases tys, tys@.len(),
    {
        let mut r: Vec<Type<'l>> = Vec::new();
        let mut i: usize = 0;
        let ghost defs = self.state().defs;
        proof {
            lemma_type_views_empty();
            assert(old(self).state().diagnostics + Seq::<Diagnostic>::empty()
                =~= old(self).state().diagnostics);
        }
        while i < tys.len()
            invariant
                i <= tys@.len(),
                self.active(),
                self.spec_factory() == old(self).spec_factory(),
                defs == old(self).state().defs,
                type_views(r@) == extracted_tys(defs, tys@, span, i as nat).value,
                self.state() == having_reported(
                    old(self).state(),
                    extracted_tys(defs, tys@, span, i as nat).diags,
                ),
            decreases tys.len() - i,
        {
            let t = self.extract_ty(&tys[i], span);
            proof {
                lemma_type_views_push(r@, t);
                assert((old(self).state().diagnostics + extracted_tys(
                    defs,
                    tys@,
                    span,
                    i as nat,
                ).diags) + extracted_ty(defs, tys@[i as int], span).diags =~= old(
                    self,
                ).state().diagnostics + extracted_tys(defs, tys@, span, (i + 1) as nat).diags);
            }
            r.push(t);
            i += 1;
        }
        r
    }
}

} // verus!
