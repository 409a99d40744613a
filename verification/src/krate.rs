//! Extraction of a whole program: every definition is registered, then every
//! data type is extracted, then every function with its body, and what was
//! extracted is assembled into the table of the program's definitions.
use vstd::prelude::*;
use crate::ast::{
    constructor_views, string_views, type_parameter_views, val_def_views, ADTConstructor, ADTSort,
    FunDef, Int, SymbolIdentifier, ValDef, Variable,
};
use crate::diag::Diagnostic;
use crate::extraction::{
    after_issue, initial_state, next_id, sanitized, sanitized_path, BaseExtractor, BodyExtractor,
    Extraction, ExtractionState,
};
use crate::factory::Factory;
use crate::host::{
    BinderKey, DefKey, HostAdt, HostBinder, HostCrate, HostField, HostFn, HostVariant,
};
use crate::model::{
    SpecADTConstructor, SpecADTSort, SpecFunDef, SpecSymbolIdentifier, SpecTypeParameter,
    SpecVariable,
};
use crate::rules::{extracted_expr, Resolution};
use crate::symbols::{SpecSymbols, Symbols};
use crate::ty::{extracted_ty, having_reported};
use crate::validity::valid_expr;

verus! {

/// Why a program cannot be extracted: it breaks an invariant of type-checked
/// input, or it needs more identifiers than there are. Nothing of what was
/// extracted up to there is valid.
#[derive(Clone, Copy, Debug, PartialEq, Eq, Hash)]
pub enum Fatal {
    /// A definition has an empty path.
    EmptyPath(DefKey),
    /// A definition is registered a second time.
    DuplicateDefinition(DefKey),
    /// A binder is registered a second time.
    DuplicateBinder(BinderKey),
    /// A definition that is not registered is to be extracted.
    UnregisteredDefinition(DefKey),
    /// A definition is extracted a second time.
    DuplicateExtraction(DefKey),
    /// The body of a definition is not valid.
    InvalidBody(DefKey),
    /// No identifier is left to issue.
    OutOfIdentifiers,
}

/// A session after a step, with what the step yields.
pub struct Stepped<T> {
    pub state: ExtractionState,
    pub value: T,
}

/// The registration of a definition under its path: the session afterwards
/// and the identifier issued. It fails where the path is empty, the
/// definition is registered already, or no identifier is left.
pub open spec fn registered(state: ExtractionState, def: DefKey, path: Seq<Seq<char>>) -> Result<
    Stepped<SpecSymbolIdentifier>,
    Fatal,
> {
    if path.len() == 0 {
        Err(Fatal::EmptyPath(def))
    } else if state.defs.contains_key(def) {
        Err(Fatal::DuplicateDefinition(def))
    } else if state.issued >= Int::MAX {
        Err(Fatal::OutOfIdentifiers)
    } else {
        let id = next_id(state, sanitized(path.last()), sanitized_path(path));
        Ok(
            Stepped {
                state: ExtractionState {
                    defs: state.defs.insert(def, id),
                    ..after_issue(state, sanitized(path.last()))
                },
                value: id,
            },
        )
    }
}

/// The variable of a declared field: its type is extracted, and it gets a
/// fresh identifier of the field's name.
pub open spec fn field_var(state: ExtractionState, field: HostField) -> Result<
    Stepped<SpecVariable>,
    Fatal,
> {
    let t = extracted_ty(state.defs, field.ty, field.span);
    let told = having_reported(state, t.diags);
    if told.issued >= Int::MAX {
        Err(Fatal::OutOfIdentifiers)
    } else {
        Ok(
            Stepped {
                state: after_issue(told, field.name@),
                value: SpecVariable {
                    id: next_id(told, field.name@, seq![field.name@]),
                    tpe: t.value,
                    flags: Seq::empty(),
                },
            },
        )
    }
}

/// The variables of the first `n` declared fields.
pub open spec fn field_vars(state: ExtractionState, fields: Seq<HostField>, n: nat) -> Result<
    Stepped<Seq<SpecVariable>>,
    Fatal,
>
    decreases n,
{
    if n == 0 || n > fields.len() {
        Ok(Stepped { state, value: Seq::empty() })
    } else {
        match field_vars(state, fields, (n - 1) as nat) {
            Err(fatal) => Err(fatal),
            Ok(before) => match field_var(before.state, fields[n - 1]) {
                Err(fatal) => Err(fatal),
                Ok(step) => Ok(
                    Stepped { state: step.state, value: before.value.push(step.value) },
                ),
            },
        }
    }
}

/// The constructor of a declared variant of the sort `sort`: the variant is
/// registered, then its fields get their variables.
pub open spec fn constructor(
    state: ExtractionState,
    sort: SpecSymbolIdentifier,
    variant: HostVariant,
) -> Result<Stepped<SpecADTConstructor>, Fatal> {
    match registered(state, variant.def, string_views(variant.path@)) {
        Err(fatal) => Err(fatal),
        Ok(r) => match field_vars(r.state, variant.fields@, variant.fields@.len()) {
            Err(fatal) => Err(fatal),
            Ok(fields) => Ok(
                Stepped {
                    state: fields.state,
                    value: SpecADTConstructor { id: r.value, sort, fields: fields.value },
                },
            ),
        },
    }
}

/// The constructors of the first `n` declared variants.
pub open spec fn constructors(
    state: ExtractionState,
    sort: SpecSymbolIdentifier,
    variants: Seq<HostVariant>,
    n: nat,
) -> Result<Stepped<Seq<SpecADTConstructor>>, Fatal>
    decreases n,
{
    if n == 0 || n > variants.len() {
        Ok(Stepped { state, value: Seq::empty() })
    } else {
        match constructors(state, sort, variants, (n - 1) as nat) {
            Err(fatal) => Err(fatal),
            Ok(before) => match constructor(before.state, sort, variants[n - 1]) {
                Err(fatal) => Err(fatal),
                Ok(step) => Ok(
                    Stepped { state: step.state, value: before.value.push(step.value) },
                ),
            },
        }
    }
}

/// The extraction of a data type: the session afterwards, which holds the
/// sort. It fails where the data type is not registered, its sort is
/// extracted already, or one of its variants cannot be registered.
pub open spec fn adt_extracted(state: ExtractionState, adt: HostAdt) -> Result<
    Stepped<SpecADTSort>,
    Fatal,
> {
    if !state.defs.contains_key(adt.def) {
        Err(Fatal::UnregisteredDefinition(adt.def))
    } else if state.sorts.contains_key(state.defs[adt.def].id.global_id) {
        Err(Fatal::DuplicateExtraction(adt.def))
    } else {
        let id = state.defs[adt.def];
        match constructors(state, id, adt.variants@, adt.variants@.len()) {
            Err(fatal) => Err(fatal),
            Ok(cs) => {
                let sort = SpecADTSort {
                    id,
                    tparams: Seq::empty(),
                    constructors: cs.value,
                    flags: Seq::empty(),
                };
                Ok(
                    Stepped {
                        state: ExtractionState {
                            sorts: cs.state.sorts.insert(id.id.global_id, sort),
                            ..cs.state
                        },
                        value: sort,
                    },
                )
            },
        }
    }
}

/// A copy of a path.
pub fn clone_path(path: &Vec<String>) -> (r: Vec<String>)
    ensures
        r@ == path@,
{
    let mut r: Vec<String> = Vec::new();
    let mut i: usize = 0;
    while i < path.len()
        invariant
            i <= path@.len(),
            r@ == path@.take(i as int),
        decreases path.len() - i,
    {
        r.push(path[i].clone());
        assert(path@.take(i + 1) =~= path@.take(i as int).push(path@[i as int]));
        i += 1;
    }
    assert(path@.take(path@.len() as int) =~= path@);
    r
}

/// The views of binders with one more binder.
pub proof fn lemma_val_def_views_push(vds: Seq<&ValDef>, vd: &ValDef)
    ensures
        val_def_views(vds.push(vd)) == val_def_views(vds).push(vd@),
{
    assert(val_def_views(vds.push(vd)) =~= val_def_views(vds).push(vd@));
}

/// The views of constructors with one more constructor.
pub proof fn lemma_constructor_views_push(cs: Seq<&ADTConstructor>, c: &ADTConstructor)
    ensures
        constructor_views(cs.push(c)) == constructor_views(cs).push(c@),
{
    assert(constructor_views(cs.push(c)) =~= constructor_views(cs).push(c@));
}

impl<'l> BaseExtractor<'l> {
    /// Registers a definition under its path, if it can be registered.
    pub fn try_register_def(&mut self, def_id: DefKey, symbol_path: &Vec<String>) -> (r: Result<
        &'l SymbolIdentifier<'l>,
        Fatal,
    >)
        requires
            old(self).active(),
        ensures
            match r {
                Ok(id) => registered(old(self).state(), def_id, string_views(symbol_path@)) == Ok::<
                    Stepped<SpecSymbolIdentifier>,
                    Fatal,
                >(Stepped { state: final(self).state(), value: id@ }) && final(self).active()
                    && final(self).spec_factory() == old(self).spec_factory(),
                Err(fatal) => registered(old(self).state(), def_id, string_views(symbol_path@))
                    == Err::<Stepped<SpecSymbolIdentifier>, Fatal>(fatal),
            },
    {
        if symbol_path.len() == 0 {
            Err(Fatal::EmptyPath(def_id))
        } else if self.get_id_from_def(def_id).is_some() {
            Err(Fatal::DuplicateDefinition(def_id))
        } else if self.ids_left() == 0 {
            Err(Fatal::OutOfIdentifiers)
        } else {
            assert(string_views(symbol_path@).last() == symbol_path@.last()@);
            Ok(self.register_def(def_id, clone_path(symbol_path)))
        }
    }

    /// Gives every declared field its variable.
    pub fn extract_fields(&mut self, fields: &Vec<HostField>) -> (r: Result<
        Vec<&'l ValDef<'l>>,
        Fatal,
    >)
        requires
            old(self).active(),
        ensures
            match r {
                Ok(vds) => field_vars(old(self).state(), fields@, fields@.len()) == Ok::<
                    Stepped<Seq<SpecVariable>>,
                    Fatal,
                >(Stepped { state: final(self).state(), value: val_def_views(vds@) })
                    && final(self).active() && final(self).spec_factory() == old(
                    self,
                ).spec_factory(),
                Err(fatal) => field_vars(old(self).state(), fields@, fields@.len()) == Err::<
                    Stepped<Seq<SpecVariable>>,
                    Fatal,
                >(fatal),
            },
    {
        let f = self.factory();
        let mut vds: Vec<&'l ValDef<'l>> = Vec::new();
        let mut i: usize = 0;
        assert(val_def_views(vds@) =~= Seq::<SpecVariable>::empty());
        while i < fields.len()
            invariant
                i <= fields@.len(),
                self.active(),
                f == self.spec_factory(),
                f == old(self).spec_factory(),
                field_vars(old(self).state(), fields@, i as nat) == Ok::<
                    Stepped<Seq<SpecVariable>>,
                    Fatal,
                >(Stepped { state: self.state(), value: val_def_views(vds@) }),
            decreases fields.len() - i,
        {
            let field = &fields[i];
            let tpe = self.extract_ty(&field.ty, field.span);
            if self.ids_left() == 0 {
                proof {
                    lemma_field_vars_fail(old(self).state(), fields@, (i + 1) as nat, fields@.len());
                }
                return Err(Fatal::OutOfIdentifiers);
            }
            let id = self.fresh_id(field.name.clone());
            let v: &'l Variable<'l> = f.allocate(Variable { id, tpe, flags: Vec::new() });
            let vd: &'l ValDef<'l> = f.allocate(ValDef { v });
            proof {
                lemma_val_def_views_push(vds@, vd);
            }
            vds.push(vd);
            i += 1;
        }
        Ok(vds)
    }

    /// Extracts the constructors of the declared variants of a sort.
    pub fn extract_constructors(
        &mut self,
        sort: &'l SymbolIdentifier<'l>,
        variants: &Vec<HostVariant>,
    ) -> (r: Result<Vec<&'l ADTConstructor<'l>>, Fatal>)
        requires
            old(self).active(),
        ensures
            match r {
                Ok(cs) => constructors(old(self).state(), sort@, variants@, variants@.len())
                    == Ok::<Stepped<Seq<SpecADTConstructor>>, Fatal>(
                    Stepped { state: final(self).state(), value: constructor_views(cs@) },
                ) && final(self).active() && final(self).spec_factory() == old(
                    self,
                ).spec_factory(),
                Err(fatal) => constructors(old(self).state(), sort@, variants@, variants@.len())
                    == Err::<Stepped<Seq<SpecADTConstructor>>, Fatal>(fatal),
            },
    {
        let f = self.factory();
        let mut cs: Vec<&'l ADTConstructor<'l>> = Vec::new();
        let mut i: usize = 0;
        assert(constructor_views(cs@) =~= Seq::<SpecADTConstructor>::empty());
        while i < variants.len()
            invariant
                i <= variants@.len(),
                self.active(),
                f == self.spec_factory(),
                f == old(self).spec_factory(),
                constructors(old(self).state(), sort@, variants@, i as nat) == Ok::<
                    Stepped<Seq<SpecADTConstructor>>,
                    Fatal,
                >(Stepped { state: self.state(), value: constructor_views(cs@) }),
            decreases variants.len() - i,
        {
            let variant = &variants[i];
            let id = match self.try_register_def(variant.def, &variant.path) {
                Ok(id) => id,
                Err(fatal) => {
                    proof {
                        lemma_constructors_fail(
                            old(self).state(),
                            sort@,
                            variants@,
                            (i + 1) as nat,
                            variants@.len(),
                        );
                    }
                    return Err(fatal);
                },
            };
            let fields = match self.extract_fields(&variant.fields) {
                Ok(fields) => fields,
                Err(fatal) => {
                    proof {
                        lemma_constructors_fail(
                            old(self).state(),
                            sort@,
                            variants@,
                            (i + 1) as nat,
                            variants@.len(),
                        );
                    }
                    return Err(fatal);
                },
            };
            let c: &'l ADTConstructor<'l> = f.ADTConstructor(id, sort, fields);
            proof {
                lemma_constructor_views_push(cs@, c);
            }
            cs.push(c);
            i += 1;
        }
        Ok(cs)
    }

    /// Extracts a data type and adds its sort to the session, if the data
    /// type can be extracted.
    pub fn extract_adt(&mut self, adt: &HostAdt) -> (r: Result<&'l ADTSort<'l>, Fatal>)
        requires
            old(self).active(),
        ensures
            match r {
                Ok(sort) => adt_extracted(old(self).state(), *adt) == Ok::<
                    Stepped<SpecADTSort>,
                    Fatal,
                >(Stepped { state: final(self).state(), value: sort@ }) && final(self).active()
                    && final(self).spec_factory() == old(self).spec_factory(),
                Err(fatal) => adt_extracted(old(self).state(), *adt) == Err::<
                    Stepped<SpecADTSort>,
                    Fatal,
                >(fatal),
            },
    {
        let f = self.factory();
        let id = match self.get_id_from_def(adt.def) {
            Some(id) => id,
            None => {
                return Err(Fatal::UnregisteredDefinition(adt.def));
            },
        };
        if self.get_adt(id.id.global_id).is_some() {
            return Err(Fatal::DuplicateExtraction(adt.def));
        }
        proof {
            lemma_constructors_keep(
                self.state(),
                id@,
                adt.variants@,
                adt.variants@.len(),
            );
        }
        let constructors = match self.extract_constructors(id, &adt.variants) {
            Ok(constructors) => constructors,
            Err(fatal) => {
                return Err(fatal);
            },
        };
        let sort: &'l ADTSort<'l> = f.allocate(
            ADTSort { id, tparams: Vec::new(), constructors, flags: Vec::new() },
        );
        assert(type_parameter_views(sort.tparams@) =~= Seq::<SpecTypeParameter>::empty());
        self.add_adt(id, sort);
        Ok(sort)
    }
}

/// Giving fields their variables leaves the registered definitions and the
/// extracted sorts and functions as they are.
pub proof fn lemma_field_vars_keep(state: ExtractionState, fields: Seq<HostField>, n: nat)
    ensures
        field_vars(state, fields, n) matches Ok(step) ==> step.state.defs == state.defs
            && step.state.binders == state.binders && step.state.sorts == state.sorts
            && step.state.functions == state.functions,
    decreases n,
{
    if n > 0 && n <= fields.len() {
        lemma_field_vars_keep(state, fields, (n - 1) as nat);
    }
}

/// Extracting constructors leaves the extracted sorts and functions and the
/// registered binders as they are.
pub proof fn lemma_constructors_keep(
    state: ExtractionState,
    sort: SpecSymbolIdentifier,
    variants: Seq<HostVariant>,
    n: nat,
)
    ensures
        constructors(state, sort, variants, n) matches Ok(step) ==> step.state.binders
            == state.binders && step.state.sorts == state.sorts && step.state.functions
            == state.functions,
    decreases n,
{
    if n > 0 && n <= variants.len() {
        lemma_constructors_keep(state, sort, variants, (n - 1) as nat);
        match constructors(state, sort, variants, (n - 1) as nat) {
            Ok(before) => {
                match registered(before.state, variants[n - 1].def, string_views(variants[n - 1].path@)) {
                    Ok(r) => {
                        lemma_field_vars_keep(
                            r.state,
                            variants[n - 1].fields@,
                            variants[n - 1].fields@.len(),
                        );
                    },
                    Err(_) => {},
                }
            },
            Err(_) => {},
        }
    }
}

/// Where some fields fail to get their variables, more fields fail in the
/// same way.
pub proof fn lemma_field_vars_fail(state: ExtractionState, fields: Seq<HostField>, n: nat, m: nat)
    requires
        field_vars(state, fields, n) is Err,
        n <= m <= fields.len(),
    ensures
        field_vars(state, fields, m) == field_vars(state, fields, n),
    decreases m,
{
    if n < m {
        lemma_field_vars_fail(state, fields, n, (m - 1) as nat);
    }
}

/// Where some constructors fail, more of them fail in the same way.
pub proof fn lemma_constructors_fail(
    state: ExtractionState,
    sort: SpecSymbolIdentifier,
    variants: Seq<HostVariant>,
    n: nat,
    m: nat,
)
    requires
        constructors(state, sort, variants, n) is Err,
        n <= m <= variants.len(),
    ensures
        constructors(state, sort, variants, m) == constructors(state, sort, variants, n),
    decreases m,
{
    if n < m {
        lemma_constructors_fail(state, sort, variants, n, (m - 1) as nat);
    }
}

/// The variables of the binders of a body, and those of its parameters in
/// declared order.
pub struct Bound {
    pub vars: Map<BinderKey, SpecVariable>,
    pub params: Seq<SpecVariable>,
}

/// The variable of a binder of the body of the definition at `owner`: its
/// type is extracted, and it gets a fresh identifier of its name under the
/// owner's path. It fails where the binder is registered already or no
/// identifier is left.
pub open spec fn binder_var(
    state: ExtractionState,
    vars: Map<BinderKey, SpecVariable>,
    owner: Seq<Seq<char>>,
    binder: HostBinder,
) -> Result<Stepped<SpecVariable>, Fatal> {
    if state.binders.contains_key(binder.id) || vars.contains_key(binder.id) {
        Err(Fatal::DuplicateBinder(binder.id))
    } else {
        let t = extracted_ty(state.defs, binder.ty, binder.span);
        let told = having_reported(state, t.diags);
        if told.issued >= Int::MAX {
            Err(Fatal::OutOfIdentifiers)
        } else {
            let id = next_id(told, binder.name@, owner.push(binder.name@));
            Ok(
                Stepped {
                    state: ExtractionState {
                        binders: told.binders.insert(binder.id, id),
                        ..after_issue(told, binder.name@)
                    },
                    value: SpecVariable { id, tpe: t.value, flags: Seq::empty() },
                },
            )
        }
    }
}

/// The variables of the first `n` binders, added to those in `vars`.
pub open spec fn binder_vars(
    state: ExtractionState,
    vars: Map<BinderKey, SpecVariable>,
    owner: Seq<Seq<char>>,
    binders: Seq<HostBinder>,
    n: nat,
) -> Result<Stepped<Bound>, Fatal>
    decreases n,
{
    if n == 0 || n > binders.len() {
        Ok(Stepped { state, value: Bound { vars, params: Seq::empty() } })
    } else {
        match binder_vars(state, vars, owner, binders, (n - 1) as nat) {
            Err(fatal) => Err(fatal),
            Ok(before) => match binder_var(
                before.state,
                before.value.vars,
                owner,
                binders[n - 1],
            ) {
                Err(fatal) => Err(fatal),
                Ok(step) => Ok(
                    Stepped {
                        state: step.state,
                        value: Bound {
                            vars: before.value.vars.insert(binders[n - 1].id, step.value),
                            params: before.value.params.push(step.value),
                        },
                    },
                ),
            },
        }
    }
}

/// The extraction of a function: the session afterwards, which holds the
/// function. Its parameters and then its local binders get their
/// variables, its return type is extracted, and its body is extracted with
/// these variables. It fails where the function is not registered, is
/// extracted already, a binder cannot be registered, or the body is not
/// valid.
pub open spec fn function_extracted(state: ExtractionState, f: HostFn) -> Result<
    Stepped<SpecFunDef>,
    Fatal,
> {
    if !state.defs.contains_key(f.def) {
        Err(Fatal::UnregisteredDefinition(f.def))
    } else if state.functions.contains_key(state.defs[f.def].id.global_id) {
        Err(Fatal::DuplicateExtraction(f.def))
    } else {
        let id = state.defs[f.def];
        let owner = string_views(f.path@);
        match binder_vars(state, Map::empty(), owner, f.params@, f.params@.len()) {
            Err(fatal) => Err(fatal),
            Ok(p) => match binder_vars(
                p.state,
                p.value.vars,
                owner,
                f.bindings@,
                f.bindings@.len(),
            ) {
                Err(fatal) => Err(fatal),
                Ok(l) => {
                    let t = extracted_ty(l.state.defs, f.return_ty, f.span);
                    let told = having_reported(l.state, t.diags);
                    let cx = Resolution { defs: told.defs, sorts: told.sorts, vars: l.value.vars };
                    if !valid_expr(cx, f.body) {
                        Err(Fatal::InvalidBody(f.def))
                    } else {
                        let body = extracted_expr(cx, f.body);
                        let fd = SpecFunDef {
                            id,
                            tparams: Seq::empty(),
                            params: p.value.params,
                            return_type: t.value,
                            full_body: body.value,
                            flags: Seq::empty(),
                        };
                        let done = having_reported(told, body.diags);
                        Ok(
                            Stepped {
                                state: ExtractionState {
                                    functions: done.functions.insert(id.id.global_id, fd),
                                    ..done
                                },
                                value: fd,
                            },
                        )
                    }
                },
            },
        }
    }
}

/// Giving binders their variables leaves the registered definitions and the
/// extracted sorts and functions as they are.
pub proof fn lemma_binder_vars_keep(
    state: ExtractionState,
    vars: Map<BinderKey, SpecVariable>,
    owner: Seq<Seq<char>>,
    binders: Seq<HostBinder>,
    n: nat,
)
    ensures
        binder_vars(state, vars, owner, binders, n) matches Ok(step) ==> step.state.defs
            == state.defs && step.state.sorts == state.sorts && step.state.functions
            == state.functions,
    decreases n,
{
    if n > 0 && n <= binders.len() {
        lemma_binder_vars_keep(state, vars, owner, binders, (n - 1) as nat);
    }
}

/// Where some binders fail to get their variables, more binders fail in the
/// same way.
pub proof fn lemma_binder_vars_fail(
    state: ExtractionState,
    vars: Map<BinderKey, SpecVariable>,
    owner: Seq<Seq<char>>,
    binders: Seq<HostBinder>,
    n: nat,
    m: nat,
)
    requires
        binder_vars(state, vars, owner, binders, n) is Err,
        n <= m <= binders.len(),
    ensures
        binder_vars(state, vars, owner, binders, m) == binder_vars(state, vars, owner, binders, n),
    decreases m,
{
    if n < m {
        lemma_binder_vars_fail(state, vars, owner, binders, n, (m - 1) as nat);
    }
}

impl<'l> BodyExtractor<'l> {
    /// Gives every binder of a sequence its variable, if each can be
    /// registered, and hands back the variables in binding position.
    pub fn register_binders(&mut self, owner_path: &Vec<String>, binders: &Vec<HostBinder>) -> (r:
        Result<Vec<&'l ValDef<'l>>, Fatal>)
        requires
            old(self).wf(),
        ensures
            match r {
                Ok(vds) => binder_vars(
                    old(self).state(),
                    old(self).vars(),
                    string_views(owner_path@),
                    binders@,
                    binders@.len(),
                ) == Ok::<Stepped<Bound>, Fatal>(
                    Stepped {
                        state: final(self).state(),
                        value: Bound { vars: final(self).vars(), params: val_def_views(vds@) },
                    },
                ) && final(self).wf() && final(self).spec_factory() == old(self).spec_factory(),
                Err(fatal) => binder_vars(
                    old(self).state(),
                    old(self).vars(),
                    string_views(owner_path@),
                    binders@,
                    binders@.len(),
                ) == Err::<Stepped<Bound>, Fatal>(fatal),
            },
    {
        let f = self.factory();
        let ghost owner = string_views(owner_path@);
        let mut vds: Vec<&'l ValDef<'l>> = Vec::new();
        let mut i: usize = 0;
        assert(val_def_views(vds@) =~= Seq::<SpecVariable>::empty());
        while i < binders.len()
            invariant
                i <= binders@.len(),
                self.wf(),
                f == self.spec_factory(),
                f == old(self).spec_factory(),
                owner == string_views(owner_path@),
                binder_vars(old(self).state(), old(self).vars(), owner, binders@, i as nat) == Ok::<
                    Stepped<Bound>,
                    Fatal,
                >(
                    Stepped {
                        state: self.state(),
                        value: Bound { vars: self.vars(), params: val_def_views(vds@) },
                    },
                ),
            decreases binders.len() - i,
        {
            let binder = &binders[i];
            if self.has_binder(binder.id) || self.has_var(binder.id) {
                proof {
                    lemma_binder_vars_fail(
                        old(self).state(),
                        old(self).vars(),
                        owner,
                        binders@,
                        (i + 1) as nat,
                        binders@.len(),
                    );
                }
                return Err(Fatal::DuplicateBinder(binder.id));
            }
            let tpe = self.extract_ty(&binder.ty, binder.span);
            if self.ids_left() == 0 {
                proof {
                    lemma_binder_vars_fail(
                        old(self).state(),
                        old(self).vars(),
                        owner,
                        binders@,
                        (i + 1) as nat,
                        binders@.len(),
                    );
                }
                return Err(Fatal::OutOfIdentifiers);
            }
            let var = self.register_var(
                binder.id,
                clone_path(owner_path),
                binder.name.clone(),
                tpe,
            );
            let vd: &'l ValDef<'l> = f.allocate(ValDef { v: var });
            proof {
                lemma_val_def_views_push(vds@, vd);
            }
            vds.push(vd);
            i += 1;
        }
        Ok(vds)
    }
}

impl<'l> BaseExtractor<'l> {
    /// Extracts a function with its body and adds it to the session, if the
    /// function can be extracted.
    pub fn extract_function(&mut self, function: &HostFn) -> (r: Result<&'l FunDef<'l>, Fatal>)
        requires
            old(self).active(),
        ensures
            match r {
                Ok(fd) => function_extracted(old(self).state(), *function) == Ok::<
                    Stepped<SpecFunDef>,
                    Fatal,
                >(Stepped { state: final(self).state(), value: fd@ }) && final(self).active()
                    && final(self).spec_factory() == old(self).spec_factory(),
                Err(fatal) => function_extracted(old(self).state(), *function) == Err::<
                    Stepped<SpecFunDef>,
                    Fatal,
                >(fatal),
            },
    {
        let f = self.factory();
        let id = match self.get_id_from_def(function.def) {
            Some(id) => id,
            None => {
                return Err(Fatal::UnregisteredDefinition(function.def));
            },
        };
        if self.has_function(id.id.global_id) {
            return Err(Fatal::DuplicateExtraction(function.def));
        }
        let ghost owner = string_views(function.path@);
        let ghost start = self.state();
        proof {
            lemma_binder_vars_keep(
                start,
                Map::empty(),
                owner,
                function.params@,
                function.params@.len(),
            );
        }
        let mut bxtor = BodyExtractor::new(self);
        let params = match bxtor.register_binders(&function.path, &function.params) {
            Ok(params) => params,
            Err(fatal) => {
                return Err(fatal);
            },
        };
        proof {
            lemma_binder_vars_keep(
                bxtor.state(),
                bxtor.vars(),
                owner,
                function.bindings@,
                function.bindings@.len(),
            );
        }
        match bxtor.register_binders(&function.path, &function.bindings) {
            Ok(_) => {},
            Err(fatal) => {
                return Err(fatal);
            },
        }
        let return_type = bxtor.extract_ty(&function.return_ty, function.span);
        if !bxtor.is_valid_expr(&function.body) {
            return Err(Fatal::InvalidBody(function.def));
        }
        let full_body = bxtor.extract_expr(&function.body);
        bxtor.finish(self);
        let fd: &'l FunDef<'l> = f.allocate(
            FunDef {
                id,
                tparams: Vec::new(),
                params,
                return_type,
                full_body,
                flags: Vec::new(),
            },
        );
        assert(type_parameter_views(fd.tparams@) =~= Seq::<SpecTypeParameter>::empty());
        self.add_function(id, fd);
        Ok(fd)
    }
}

/// The session after the first `n` data types were registered.
pub open spec fn adts_registered(state: ExtractionState, adts: Seq<HostAdt>, n: nat) -> Result<
    ExtractionState,
    Fatal,
>
    decreases n,
{
    if n == 0 || n > adts.len() {
        Ok(state)
    } else {
        match adts_registered(state, adts, (n - 1) as nat) {
            Err(fatal) => Err(fatal),
            Ok(before) => match registered(
                before,
                adts[n - 1].def,
                string_views(adts[n - 1].path@),
            ) {
                Err(fatal) => Err(fatal),
                Ok(step) => Ok(step.state),
            },
        }
    }
}

/// The session after the first `n` functions were registered.
pub open spec fn functions_registered(
    state: ExtractionState,
    functions: Seq<HostFn>,
    n: nat,
) -> Result<ExtractionState, Fatal>
    decreases n,
{
    if n == 0 || n > functions.len() {
        Ok(state)
    } else {
        match functions_registered(state, functions, (n - 1) as nat) {
            Err(fatal) => Err(fatal),
            Ok(before) => match registered(
                before,
                functions[n - 1].def,
                string_views(functions[n - 1].path@),
            ) {
                Err(fatal) => Err(fatal),
                Ok(step) => Ok(step.state),
            },
        }
    }
}

/// The session after the first `n` data types were extracted.
pub open spec fn adts_extracted(state: ExtractionState, adts: Seq<HostAdt>, n: nat) -> Result<
    ExtractionState,
    Fatal,
>
    decreases n,
{
    if n == 0 || n > adts.len() {
        Ok(state)
    } else {
        match adts_extracted(state, adts, (n - 1) as nat) {
            Err(fatal) => Err(fatal),
            Ok(before) => match adt_extracted(before, adts[n - 1]) {
                Err(fatal) => Err(fatal),
                Ok(step) => Ok(step.state),
            },
        }
    }
}

/// The session after the first `n` functions were extracted.
pub open spec fn functions_extracted(
    state: ExtractionState,
    functions: Seq<HostFn>,
    n: nat,
) -> Result<ExtractionState, Fatal>
    decreases n,
{
    if n == 0 || n > functions.len() {
        Ok(state)
    } else {
        match functions_extracted(state, functions, (n - 1) as nat) {
            Err(fatal) => Err(fatal),
            Ok(before) => match function_extracted(before, functions[n - 1]) {
                Err(fatal) => Err(fatal),
                Ok(step) => Ok(step.state),
            },
        }
    }
}

/// The session after a program was processed in a session: its data types
/// and then its functions are registered, then its data types and then its
/// functions are extracted, each kind in the order given. It fails where a
/// step fails, and as that step: the program then breaks an invariant of
/// type-checked input, or it needs more identifiers than there are.
pub open spec fn crate_processed(state: ExtractionState, krate: HostCrate) -> Result<
    ExtractionState,
    Fatal,
> {
    match adts_registered(state, krate.adts@, krate.adts@.len()) {
        Err(fatal) => Err(fatal),
        Ok(s1) => match functions_registered(s1, krate.functions@, krate.functions@.len()) {
            Err(fatal) => Err(fatal),
            Ok(s2) => match adts_extracted(s2, krate.adts@, krate.adts@.len()) {
                Err(fatal) => Err(fatal),
                Ok(s3) => functions_extracted(s3, krate.functions@, krate.functions@.len()),
            },
        },
    }
}

/// The session after a program was extracted in a fresh session.
pub open spec fn crate_extracted(krate: HostCrate) -> Result<ExtractionState, Fatal> {
    crate_processed(initial_state(), krate)
}

/// Where the registration of some data types fails, that of more of them fails in
/// the same way.
pub proof fn lemma_adts_registered_fail(state: ExtractionState, adts: Seq<HostAdt>, n: nat, m: nat)
    requires
        adts_registered(state, adts, n) is Err,
        n <= m <= adts.len(),
    ensures
        adts_registered(state, adts, m) == adts_registered(state, adts, n),
    decreases m,
{
    if n < m {
        lemma_adts_registered_fail(state, adts, n, (m - 1) as nat);
    }
}

/// Where the registration of some functions fails, that of more of them fails in
/// the same way.
pub proof fn lemma_functions_registered_fail(
    state: ExtractionState,
    functions: Seq<HostFn>,
    n: nat,
    m: nat,
)
    requires
        functions_registered(state, functions, n) is Err,
        n <= m <= functions.len(),
    ensures
        functions_registered(state, functions, m) == functions_registered(state, functions, n),
    decreases m,
{
    if n < m {
        lemma_functions_registered_fail(state, functions, n, (m - 1) as nat);
    }
}

/// Where the extraction of some data types fails, that of more of them fails in
/// the same way.
pub proof fn lemma_adts_extracted_fail(state: ExtractionState, adts: Seq<HostAdt>, n: nat, m: nat)
    requires
        adts_extracted(state, adts, n) is Err,
        n <= m <= adts.len(),
    ensures
        adts_extracted(state, adts, m) == adts_extracted(state, adts, n),
    decreases m,
{
    if n < m {
        lemma_adts_extracted_fail(state, adts, n, (m - 1) as nat);
    }
}

/// Where the extraction of some functions fails, that of more of them fails in
/// the same way.
pub proof fn lemma_functions_extracted_fail(
    state: ExtractionState,
    functions: Seq<HostFn>,
    n: nat,
    m: nat,
)
    requires
        functions_extracted(state, functions, n) is Err,
        n <= m <= functions.len(),
    ensures
        functions_extracted(state, functions, m) == functions_extracted(state, functions, n),
    decreases m,
{
    if n < m {
        lemma_functions_extracted_fail(state, functions, n, (m - 1) as nat);
    }
}

impl<'l> BaseExtractor<'l> {
    /// Registers the data types of a program, in the order given.
    fn register_adts(&mut self, adts: &Vec<HostAdt>) -> (r: Result<(), Fatal>)
        requires
            old(self).active(),
        ensures
            match r {
                Ok(_) => adts_registered(old(self).state(), adts@, adts@.len()) == Ok::<
                    ExtractionState,
                    Fatal,
                >(final(self).state()) && final(self).active() && final(self).spec_factory()
                    == old(self).spec_factory(),
                Err(fatal) => adts_registered(old(self).state(), adts@, adts@.len()) == Err::<
                    ExtractionState,
                    Fatal,
                >(fatal),
            },
    {
        let mut i: usize = 0;
        while i < adts.len()
            invariant
                i <= adts@.len(),
                self.active(),
                self.spec_factory() == old(self).spec_factory(),
                adts_registered(old(self).state(), adts@, i as nat) == Ok::<
                    ExtractionState,
                    Fatal,
                >(self.state()),
            decreases adts.len() - i,
        {
            match self.try_register_def(adts[i].def, &adts[i].path) {
                Ok(_) => {},
                Err(fatal) => {
                    proof {
                        lemma_adts_registered_fail(
                            old(self).state(),
                            adts@,
                            (i + 1) as nat,
                            adts@.len(),
                        );
                    }
                    return Err(fatal);
                },
            }
            i += 1;
        }
        Ok(())
    }

    /// Registers the functions of a program, in the order given.
    fn register_functions(&mut self, functions: &Vec<HostFn>) -> (r: Result<(), Fatal>)
        requires
            old(self).active(),
        ensures
            match r {
                Ok(_) => functions_registered(old(self).state(), functions@, functions@.len())
                    == Ok::<ExtractionState, Fatal>(final(self).state()) && final(self).active()
                    && final(self).spec_factory() == old(self).spec_factory(),
                Err(fatal) => functions_registered(
                    old(self).state(),
                    functions@,
                    functions@.len(),
                ) == Err::<ExtractionState, Fatal>(fatal),
            },
    {
        let mut i: usize = 0;
        while i < functions.len()
            invariant
                i <= functions@.len(),
                self.active(),
                self.spec_factory() == old(self).spec_factory(),
                functions_registered(old(self).state(), functions@, i as nat) == Ok::<
                    ExtractionState,
                    Fatal,
                >(self.state()),
            decreases functions.len() - i,
        {
            match self.try_register_def(functions[i].def, &functions[i].path) {
                Ok(_) => {},
                Err(fatal) => {
                    proof {
                        lemma_functions_registered_fail(
                            old(self).state(),
                            functions@,
                            (i + 1) as nat,
                            functions@.len(),
                        );
                    }
                    return Err(fatal);
                },
            }
            i += 1;
        }
        Ok(())
    }

    /// Extracts the data types of a program, in the order given.
    fn extract_adts(&mut self, adts: &Vec<HostAdt>) -> (r: Result<(), Fatal>)
        requires
            old(self).active(),
        ensures
            match r {
                Ok(_) => adts_extracted(old(self).state(), adts@, adts@.len()) == Ok::<
                    ExtractionState,
                    Fatal,
                >(final(self).state()) && final(self).active() && final(self).spec_factory()
                    == old(self).spec_factory(),
                Err(fatal) => adts_extracted(old(self).state(), adts@, adts@.len()) == Err::<
                    ExtractionState,
                    Fatal,
                >(fatal),
            },
    {
        let mut i: usize = 0;
        while i < adts.len()
            invariant
                i <= adts@.len(),
                self.active(),
                self.spec_factory() == old(self).spec_factory(),
                adts_extracted(old(self).state(), adts@, i as nat) == Ok::<
                    ExtractionState,
                    Fatal,
                >(self.state()),
            decreases adts.len() - i,
        {
            match self.extract_adt(&adts[i]) {
                Ok(_) => {},
                Err(fatal) => {
                    proof {
                        lemma_adts_extracted_fail(
                            old(self).state(),
                            adts@,
                            (i + 1) as nat,
                            adts@.len(),
                        );
                    }
                    return Err(fatal);
                },
            }
            i += 1;
        }
        Ok(())
    }

    /// Extracts the functions of a program, in the order given.
    fn extract_functions(&mut self, functions: &Vec<HostFn>) -> (r: Result<(), Fatal>)
        requires
            old(self).active(),
        ensures
            match r {
                Ok(_) => functions_extracted(old(self).state(), functions@, functions@.len())
                    == Ok::<ExtractionState, Fatal>(final(self).state()) && final(self).active()
                    && final(self).spec_factory() == old(self).spec_factory(),
                Err(fatal) => functions_extracted(
                    old(self).state(),
                    functions@,
                    functions@.len(),
                ) == Err::<ExtractionState, Fatal>(fatal),
            },
    {
        let mut i: usize = 0;
        while i < functions.len()
            invariant
                i <= functions@.len(),
                self.active(),
                self.spec_factory() == old(self).spec_factory(),
                functions_extracted(old(self).state(), functions@, i as nat) == Ok::<
                    ExtractionState,
                    Fatal,
                >(self.state()),
            decreases functions.len() - i,
        {
            match self.extract_function(&functions[i]) {
                Ok(_) => {},
                Err(fatal) => {
                    proof {
                        lemma_functions_extracted_fail(
                            old(self).state(),
                            functions@,
                            (i + 1) as nat,
                            functions@.len(),
                        );
                    }
                    return Err(fatal);
                },
            }
            i += 1;
        }
        Ok(())
    }

    /// Processes a program: every definition is registered first, so that
    /// definitions can refer to each other in any order; then the data types
    /// are extracted, and then the functions with their bodies.
    pub fn process_crate(&mut self, krate: &HostCrate) -> (r: Result<(), Fatal>)
        requires
            old(self).active(),
        ensures
            match r {
                Ok(_) => crate_processed(old(self).state(), *krate) == Ok::<
                    ExtractionState,
                    Fatal,
                >(final(self).state()) && final(self).active() && final(self).spec_factory()
                    == old(self).spec_factory(),
                Err(fatal) => crate_processed(old(self).state(), *krate) == Err::<
                    ExtractionState,
                    Fatal,
                >(fatal),
            },
    {
        match self.register_adts(&krate.adts) {
            Ok(_) => {},
            Err(fatal) => {
                return Err(fatal);
            },
        }
        match self.register_functions(&krate.functions) {
            Ok(_) => {},
            Err(fatal) => {
                return Err(fatal);
            },
        }
        match self.extract_adts(&krate.adts) {
            Ok(_) => {},
            Err(fatal) => {
                return Err(fatal);
            },
        }
        self.extract_functions(&krate.functions)
    }
}

/// A copy of the diagnostics.
fn copy_diagnostics(diagnostics: &Vec<Diagnostic>) -> (r: Vec<Diagnostic>)
    ensures
        r@ == diagnostics@,
{
    let mut r: Vec<Diagnostic> = Vec::new();
    let mut i: usize = 0;
    while i < diagnostics.len()
        invariant
            i <= diagnostics@.len(),
            r@ == diagnostics@.take(i as int),
        decreases diagnostics.len() - i,
    {
        r.push(diagnostics[i]);
        assert(diagnostics@.take(i + 1) =~= diagnostics@.take(i as int).push(
            diagnostics@[i as int],
        ));
        i += 1;
    }
    assert(diagnostics@.take(diagnostics@.len() as int) =~= diagnostics@);
    r
}

/// The entry point of extraction: the table of the definitions of a
/// program, with the diagnostics of their extraction in the order of
/// traversal. Where there are diagnostics, the table is not sound for
/// verification. A program that cannot be extracted gives the reason and
/// nothing else.
pub fn extract_crate<'l>(factory: &'l Factory, krate: &HostCrate) -> (r: Result<
    (Symbols<'l>, Vec<Diagnostic>),
    Fatal,
>)
    ensures
        match r {
            Ok((symbols, diagnostics)) => crate_extracted(*krate) matches Ok(state) && symbols@
                == (SpecSymbols { sorts: state.sorts, functions: state.functions })
                && diagnostics@ == state.diagnostics,
            Err(fatal) => crate_extracted(*krate) == Err::<ExtractionState, Fatal>(fatal),
        },
{
    let extraction = Extraction::new(factory);
    let mut xtor = BaseExtractor::new(extraction);
    match xtor.process_crate(krate) {
        Ok(_) => {},
        Err(fatal) => {
            return Err(fatal);
        },
    }
    let diagnostics = copy_diagnostics(xtor.diagnostics());
    let (adts, functions) = xtor.into_result();
    Ok((Symbols::new(adts, functions), diagnostics))
}

} // verus!
