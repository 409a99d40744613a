//! The state of one extraction session: the identifiers issued so far, the
//! definitions registered and extracted, and the diagnostics.
use vstd::prelude::*;
use vstd::string::*;
use std::collections::{HashMap, HashSet};
use vstd::std_specs::hash::spec_hash_map_iter;
use crate::symbols::Definition;
use crate::ast::{
    string_views, ADTSort, FunDef, Identifier, Int, SymbolIdentifier, Type, Variable,
};
use crate::diag::{Diagnostic, Issue};
use crate::factory::Factory;
use crate::host::{BinderKey, DefKey, HostTy, Span};
use crate::ty::extracted_ty;
use crate::model::{
    SpecADTSort, SpecFunDef, SpecIdentifier, SpecSymbolIdentifier, SpecVariable,
};
use crate::rules::Resolution;
use crate::symbols::{definitions_map, keys_distinct, lemma_definitions_map};
use vstd::std_specs::iter::IteratorSpec;

verus! {

broadcast use vstd::std_specs::hash::group_hash_axioms;

/// Issues the numbers 0, 1, 2, ... to each name separately.
pub struct NameCounter {
    names: Vec<String>,
    next: Vec<Int>,
}

/// The number that the counter holds for a name, searched from position
/// `from` on: that of the first entry of this name, or 0.
spec fn lookup_count(names: Seq<String>, next: Seq<Int>, name: Seq<char>, from: int) -> int
    decreases names.len() - from,
{
    if from < 0 || from >= names.len() || from >= next.len() {
        0
    } else if names[from]@ == name {
        next[from] as int
    } else {
        lookup_count(names, next, name, from + 1)
    }
}

proof fn lemma_lookup_skip(names: Seq<String>, next: Seq<Int>, name: Seq<char>, from: int, k: int)
    requires
        0 <= from <= k <= names.len(),
        names.len() == next.len(),
        forall|j: int| from <= j < k ==> names[j]@ != name,
    ensures
        lookup_count(names, next, name, from) == lookup_count(names, next, name, k),
    decreases k - from,
{
    if from < k {
        lemma_lookup_skip(names, next, name, from + 1, k);
    }
}

proof fn lemma_lookup_update(
    names: Seq<String>,
    next: Seq<Int>,
    k: int,
    v: Int,
    name: Seq<char>,
    from: int,
)
    requires
        0 <= from,
        0 <= k < names.len(),
        names.len() == next.len(),
        forall|j: int| 0 <= j < k ==> names[j]@ != names[k]@,
    ensures
        lookup_count(names, next.update(k, v), name, from) == if name == names[k]@ && from <= k {
            v as int
        } else {
            lookup_count(names, next, name, from)
        },
    decreases names.len() - from,
{
    if from < names.len() {
        lemma_lookup_update(names, next, k, v, name, from + 1);
    }
}

proof fn lemma_lookup_push(
    names: Seq<String>,
    next: Seq<Int>,
    n: String,
    v: Int,
    name: Seq<char>,
    from: int,
)
    requires
        0 <= from,
        names.len() == next.len(),
        forall|j: int| 0 <= j < names.len() ==> names[j]@ != n@,
    ensures
        lookup_count(names.push(n), next.push(v), name, from) == if name == n@ && from
            <= names.len() {
            v as int
        } else {
            lookup_count(names, next, name, from)
        },
    decreases names.len() - from,
{
    let names2 = names.push(n);
    let next2 = next.push(v);
    assert(names2.len() == names.len() + 1 && next2.len() == next.len() + 1);
    if from < names.len() {
        assert(names2[from] == names[from]);
        assert(next2[from] == next[from]);
        lemma_lookup_push(names, next, n, v, name, from + 1);
    } else if from == names.len() {
        assert(names2[from] == n);
        assert(next2[from] == v);
        assert(lookup_count(names2, next2, name, from + 1) == 0);
    }
}

proof fn lemma_lookup_nonnegative(names: Seq<String>, next: Seq<Int>, name: Seq<char>, from: int)
    requires
        0 <= from,
        names.len() == next.len(),
        forall|j: int| 0 <= j < next.len() ==> 0 <= #[trigger] next[j],
    ensures
        0 <= lookup_count(names, next, name, from),
    decreases names.len() - from,
{
    if from < names.len() {
        lemma_lookup_nonnegative(names, next, name, from + 1);
    }
}

impl NameCounter {
    /// How many numbers were issued to the name.
    pub closed spec fn count(&self, name: Seq<char>) -> int {
        lookup_count(self.names@, self.next@, name, 0)
    }

    /// The counter holds one number for each name that it has seen.
    pub closed spec fn wf(&self) -> bool {
        &&& self.names@.len() == self.next@.len()
        &&& forall|j: int| 0 <= j < self.next@.len() ==> 0 <= #[trigger] self.next@[j]
    }

    /// No count is negative.
    pub proof fn lemma_count_nonnegative(&self, name: Seq<char>)
        requires
            self.wf(),
        ensures
            0 <= self.count(name),
    {
        lemma_lookup_nonnegative(self.names@, self.next@, name, 0);
    }

    /// A counter that has issued no number yet.
    pub fn new() -> (r: NameCounter)
        ensures
            r.wf(),
            forall|name: Seq<char>| r.count(name) == 0,
    {
        NameCounter { names: Vec::new(), next: Vec::new() }
    }

    /// The next number for the name: 0 at first, then one more each time.
    pub fn fresh(&mut self, name: &String) -> (r: Int)
        requires
            old(self).wf(),
            old(self).count(name@) < Int::MAX,
        ensures
            r == old(self).count(name@),
            final(self).wf(),
            forall|other: Seq<char>| #[trigger]
                final(self).count(other) == if other == name@ {
                    old(self).count(other) + 1
                } else {
                    old(self).count(other)
                },
    {
        let mut i: usize = 0;
        while i < self.names.len()
            invariant
                self.wf(),
                self == old(self),
                self.count(name@) < Int::MAX,
                i <= self.names@.len(),
                forall|j: int| 0 <= j < i ==> self.names@[j]@ != name@,
            decreases self.names.len() - i,
        {
            if self.names[i] == *name {
                let id: Int = self.next[i];
                proof {
                    lemma_lookup_skip(self.names@, self.next@, name@, 0, i as int);
                    assert(id == self.count(name@));
                }
                let next_id: Int = id + 1;
                proof {
                    assert forall|other: Seq<char>|
                        lookup_count(self.names@, self.next@.update(i as int, next_id), other, 0)
                            == if other == name@ {
                            lookup_count(self.names@, self.next@, other, 0) + 1
                        } else {
                            lookup_count(self.names@, self.next@, other, 0)
                        } by {
                        lemma_lookup_update(
                            self.names@,
                            self.next@,
                            i as int,
                            next_id,
                            other,
                            0,
                        );
                    }
                }
                self.next.set(i, next_id);
                return id;
            }
            i += 1;
        }
        proof {
            lemma_lookup_skip(self.names@, self.next@, name@, 0, i as int);
            assert forall|other: Seq<char>|
                lookup_count(self.names@.push(*name), self.next@.push(1), other, 0) == if other
                    == name@ {
                    lookup_count(self.names@, self.next@, other, 0) + 1
                } else {
                    lookup_count(self.names@, self.next@, other, 0)
                } by {
                lemma_lookup_push(self.names@, self.next@, *name, 1, other, 0);
                lemma_lookup_skip(self.names@, self.next@, name@, 0, self.names@.len() as int);
            }
        }
        self.names.push(name.clone());
        self.next.push(1);
        0
    }
}

/// The mapping between the host's keys and the identifiers issued for them.
pub struct SymbolMapping<'l> {
    global_id_counter: Int,
    local_id_counter: NameCounter,
    did_to_stid: HashMap<DefKey, &'l SymbolIdentifier<'l>>,
    hid_to_stid: HashMap<BinderKey, &'l SymbolIdentifier<'l>>,
}

/// The state of extracting one program.
pub struct Extraction<'l> {
    mapping: SymbolMapping<'l>,
    factory: &'l Factory,
    adts: HashMap<Int, &'l ADTSort<'l>>,
    function_refs: HashSet<DefKey>,
    functions: HashMap<Int, &'l FunDef<'l>>,
    diagnostics: Vec<Diagnostic>,
}

/// What a session holds: how many identifiers it has issued, in all and to
/// each name; the identifier of each registered definition and binder; the
/// sorts and functions extracted, by the global id of their identifier; the
/// functions referred to; and the diagnostics, in the order of traversal.
pub struct ExtractionState {
    pub issued: int,
    pub issued_by_name: Map<Seq<char>, int>,
    pub defs: Map<DefKey, SpecSymbolIdentifier>,
    pub binders: Map<BinderKey, SpecSymbolIdentifier>,
    pub sorts: Map<Int, SpecADTSort>,
    pub function_refs: Set<DefKey>,
    pub functions: Map<Int, SpecFunDef>,
    pub diagnostics: Seq<Diagnostic>,
}

/// The views of the identifiers of a mapping.
pub open spec fn identifier_views<K>(m: Map<K, &SymbolIdentifier>) -> Map<K, SpecSymbolIdentifier> {
    m.map_values(|id: &SymbolIdentifier| id@)
}

/// The views of the sorts of a mapping.
pub open spec fn sort_views<K>(m: Map<K, &ADTSort>) -> Map<K, SpecADTSort> {
    m.map_values(|sort: &ADTSort| sort@)
}

/// The views of the functions of a mapping.
pub open spec fn function_views<K>(m: Map<K, &FunDef>) -> Map<K, SpecFunDef> {
    m.map_values(|fd: &FunDef| fd@)
}

/// The views of the variables of a mapping.
pub open spec fn variable_views<K>(m: Map<K, &Variable>) -> Map<K, SpecVariable> {
    m.map_values(|var: &Variable| var@)
}

impl<'l> View for Extraction<'l> {
    type V = ExtractionState;

    closed spec fn view(&self) -> ExtractionState {
        ExtractionState {
            issued: self.mapping.global_id_counter as int,
            issued_by_name: Map::new(
                |name: Seq<char>| true,
                |name: Seq<char>| self.mapping.local_id_counter.count(name),
            ),
            defs: identifier_views(self.mapping.did_to_stid@),
            binders: identifier_views(self.mapping.hid_to_stid@),
            sorts: sort_views(self.adts@),
            function_refs: self.function_refs@,
            functions: function_views(self.functions@),
            diagnostics: self.diagnostics@,
        }
    }
}

/// The session in which nothing has happened yet.
pub open spec fn initial_state() -> ExtractionState {
    ExtractionState {
        issued: 0,
        issued_by_name: Map::new(|name: Seq<char>| true, |name: Seq<char>| 0int),
        defs: Map::empty(),
        binders: Map::empty(),
        sorts: Map::empty(),
        function_refs: Set::empty(),
        functions: Map::empty(),
        diagnostics: Seq::empty(),
    }
}

/// The identifier that a session issues next for a name and a path.
pub open spec fn next_id(
    state: ExtractionState,
    name: Seq<char>,
    symbol_path: Seq<Seq<char>>,
) -> SpecSymbolIdentifier {
    SpecSymbolIdentifier {
        id: SpecIdentifier {
            name,
            global_id: state.issued as Int,
            id: state.issued_by_name[name] as Int,
        },
        symbol_path,
    }
}

/// The session after it has issued an identifier for a name.
pub open spec fn after_issue(state: ExtractionState, name: Seq<char>) -> ExtractionState {
    ExtractionState {
        issued: state.issued + 1,
        issued_by_name: state.issued_by_name.insert(name, state.issued_by_name[name] + 1),
        ..state
    }
}

impl<'l> Extraction<'l> {
    /// The counters are consistent: no name has more identifiers than there
    /// are identifiers.
    pub closed spec fn wf(&self) -> bool {
        &&& 0 <= self.mapping.global_id_counter
        &&& self.mapping.local_id_counter.wf()
        &&& forall|name: Seq<char>| #[trigger]
            self.mapping.local_id_counter.count(name) <= self.mapping.global_id_counter
        &&& forall|key: Int| #[trigger]
            self.adts@.contains_key(key) ==> self.adts@[key].id.key() == key
        &&& forall|key: Int| #[trigger]
            self.functions@.contains_key(key) ==> self.functions@[key].id.key() == key
    }

    /// The arena that this session allocates from.
    pub closed spec fn spec_factory(&self) -> &'l Factory {
        self.factory
    }

    /// No name has more identifiers than there are identifiers, and there are
    /// no more identifiers than the numbers that can name them.
    pub proof fn lemma_counts(&self, name: Seq<char>)
        requires
            self.wf(),
        ensures
            self@.issued_by_name.dom().contains(name),
            0 <= self@.issued_by_name[name] <= self@.issued <= Int::MAX,
    {
        self.mapping.local_id_counter.lemma_count_nonnegative(name);
    }

    /// A session in which nothing has happened yet.
    pub fn new(factory: &'l Factory) -> (r: Self)
        ensures
            r.wf(),
            r.spec_factory() == factory,
            r@ == initial_state(),
    {
        let r = Extraction {
            mapping: SymbolMapping {
                global_id_counter: 0,
                local_id_counter: NameCounter::new(),
                did_to_stid: HashMap::new(),
                hid_to_stid: HashMap::new(),
            },
            factory,
            adts: HashMap::new(),
            function_refs: HashSet::new(),
            functions: HashMap::new(),
            diagnostics: Vec::new(),
        };
        assert(r@.defs =~= Map::<DefKey, SpecSymbolIdentifier>::empty());
        assert(r@.binders =~= Map::<BinderKey, SpecSymbolIdentifier>::empty());
        assert(r@.sorts =~= Map::<Int, SpecADTSort>::empty());
        assert(r@.functions =~= Map::<Int, SpecFunDef>::empty());
        assert(r@.issued_by_name =~= initial_state().issued_by_name);
        r
    }

    /// Issues a fresh identifier: its global id is the number of identifiers
    /// issued before it, its local id the number of those with its name.
    pub fn fresh_id(&mut self, name: String, symbol_path: Vec<String>) -> (r: &'l SymbolIdentifier<
        'l,
    >)
        requires
            old(self).wf(),
            old(self)@.issued < Int::MAX,
        ensures
            final(self).wf(),
            final(self).spec_factory() == old(self).spec_factory(),
            r@ == next_id(old(self)@, name@, string_views(symbol_path@)),
            final(self)@ == after_issue(old(self)@, name@),
    {
        proof {
            self.lemma_counts(name@);
        }
        let global_id = self.mapping.global_id_counter;
        self.mapping.global_id_counter = global_id + 1;
        let local_id = self.mapping.local_id_counter.fresh(&name);
        let id = self.factory.Identifier(name, global_id, local_id);
        let r = self.factory.SymbolIdentifier(id, symbol_path);
        proof {
            assert(final(self)@.issued_by_name =~= after_issue(old(self)@, name@).issued_by_name);
        }
        r
    }
}

/// The sorts of a mapping in which each stands under its own key, in the
/// order in which the mapping hands them out.
fn collect_sorts<'l>(m: &HashMap<Int, &'l ADTSort<'l>>) -> (r: Vec<&'l ADTSort<'l>>)
    requires
        forall|key: Int| #[trigger] m@.contains_key(key) ==> m@[key].id.key() == key,
    ensures
        keys_distinct(r@),
        definitions_map(r@) == sort_views(m@),
{
    let mut r: Vec<&'l ADTSort<'l>> = Vec::new();
    for pair in it: m.iter()
        invariant
            r@.len() == it.index(),
            forall|i: int| 0 <= i < r@.len() ==> r@[i] == *it.seq()[i].1,
    {
        r.push(*pair.1);
    }
    proof {
        let pairs = spec_hash_map_iter(m).remaining();
        assert(r@.len() == pairs.len());
        assert forall|i: int, j: int| 0 <= i < j < r@.len() implies (#[trigger] r@[i]).spec_key() != (
        #[trigger] r@[j]).spec_key() by {
            assert(m@.contains_key(*pairs[i].0) && m@[*pairs[i].0] == *pairs[i].1);
            assert(m@.contains_key(*pairs[j].0) && m@[*pairs[j].0] == *pairs[j].1);
            if r@[i].spec_key() == r@[j].spec_key() {
                assert(pairs[i] == pairs[j]);
            }
        }
        lemma_definitions_map(r@);
        let d = definitions_map(r@);
        assert forall|key: Int| d.contains_key(key) == m@.contains_key(key) by {
            if d.contains_key(key) {
                let i = choose|i: int| 0 <= i < r@.len() && (#[trigger] r@[i]).spec_key() == key;
                assert(m@.contains_key(*pairs[i].0) && m@[*pairs[i].0] == *pairs[i].1);
            }
            if m@.contains_key(key) {
                assert(pairs.contains((&key, &m@[key])));
                let i = choose|i: int| 0 <= i < pairs.len() && pairs[i] == (&key, &m@[key]);
                assert(r@[i].spec_key() == key);
            }
        }
        assert forall|key: Int| d.contains_key(key) implies d[key] == sort_views(m@)[key] by {
            let i = choose|i: int| 0 <= i < r@.len() && (#[trigger] r@[i]).spec_key() == key;
            assert(m@.contains_key(*pairs[i].0) && m@[*pairs[i].0] == *pairs[i].1);
        }
        assert(d =~= sort_views(m@));
    }
    r
}

/// The functions of a mapping in which each stands under its own key, in
/// the order in which the mapping hands them out.
fn collect_functions<'l>(m: &HashMap<Int, &'l FunDef<'l>>) -> (r: Vec<&'l FunDef<'l>>)
    requires
        forall|key: Int| #[trigger] m@.contains_key(key) ==> m@[key].id.key() == key,
    ensures
        keys_distinct(r@),
        definitions_map(r@) == function_views(m@),
{
    let mut r: Vec<&'l FunDef<'l>> = Vec::new();
    for pair in it: m.iter()
        invariant
            r@.len() == it.index(),
            forall|i: int| 0 <= i < r@.len() ==> r@[i] == *it.seq()[i].1,
    {
        r.push(*pair.1);
    }
    proof {
        let pairs = spec_hash_map_iter(m).remaining();
        assert(r@.len() == pairs.len());
        assert forall|i: int, j: int| 0 <= i < j < r@.len() implies (#[trigger] r@[i]).spec_key() != (
        #[trigger] r@[j]).spec_key() by {
            assert(m@.contains_key(*pairs[i].0) && m@[*pairs[i].0] == *pairs[i].1);
            assert(m@.contains_key(*pairs[j].0) && m@[*pairs[j].0] == *pairs[j].1);
            if r@[i].spec_key() == r@[j].spec_key() {
                assert(pairs[i] == pairs[j]);
            }
        }
        lemma_definitions_map(r@);
        let d = definitions_map(r@);
        assert forall|key: Int| d.contains_key(key) == m@.contains_key(key) by {
            if d.contains_key(key) {
                let i = choose|i: int| 0 <= i < r@.len() && (#[trigger] r@[i]).spec_key() == key;
                assert(m@.contains_key(*pairs[i].0) && m@[*pairs[i].0] == *pairs[i].1);
            }
            if m@.contains_key(key) {
                assert(pairs.contains((&key, &m@[key])));
                let i = choose|i: int| 0 <= i < pairs.len() && pairs[i] == (&key, &m@[key]);
                assert(r@[i].spec_key() == key);
            }
        }
        assert forall|key: Int| d.contains_key(key) implies d[key] == function_views(m@)[key] by {
            let i = choose|i: int| 0 <= i < r@.len() && (#[trigger] r@[i]).spec_key() == key;
            assert(m@.contains_key(*pairs[i].0) && m@[*pairs[i].0] == *pairs[i].1);
        }
        assert(d =~= function_views(m@));
    }
    r
}

/// Whether a character is one of the ten digits.
pub open spec fn is_digit(c: char) -> bool {
    '0' <= c && c <= '9'
}

/// Whether a name consists of digits alone.
pub open spec fn all_digits(name: Seq<char>) -> bool {
    forall|i: int| 0 <= i < name.len() ==> is_digit(#[trigger] name[i])
}

/// The name under which a definition is registered: a name of digits alone
/// gets an underscore in front, any other name stays as it is.
pub open spec fn sanitized(name: Seq<char>) -> Seq<char> {
    if all_digits(name) {
        "_"@ + name
    } else {
        name
    }
}

/// The path under which a definition is registered: the path given, with
/// its last segment sanitized.
pub open spec fn sanitized_path(path: Seq<Seq<char>>) -> Seq<Seq<char>> {
    path.drop_last().push(sanitized(path.last()))
}

/// Whether a name consists of digits alone.
pub fn is_numeric_name(name: &str) -> (b: bool)
    ensures
        b == all_digits(name@),
{
    let len = name.unicode_len();
    let mut i: usize = 0;
    while i < len
        invariant
            len == name@.len(),
            i <= len,
            forall|j: int| 0 <= j < i ==> is_digit(#[trigger] name@[j]),
        decreases len - i,
    {
        let c = name.get_char(i);
        if !('0' <= c && c <= '9') {
            return false;
        }
        i += 1;
    }
    true
}

/// The extractor of a session. While a body is being extracted, the
/// session is handed over to the body's extractor, and this one is idle.
pub struct BaseExtractor<'l> {
    extraction: Option<Extraction<'l>>,
}

impl<'l> BaseExtractor<'l> {
    /// Whether this extractor holds its session.
    pub closed spec fn active(&self) -> bool {
        &&& self.extraction is Some
        &&& self.extraction->0.wf()
    }

    /// The session that this extractor holds.
    pub closed spec fn state(&self) -> ExtractionState {
        self.extraction->0@
    }

    /// The arena that the session allocates from.
    pub closed spec fn spec_factory(&self) -> &'l Factory {
        self.extraction->0.spec_factory()
    }

    /// The extractor of a session.
    pub fn new(extraction: Extraction<'l>) -> (r: Self)
        requires
            extraction.wf(),
        ensures
            r.active(),
            r.state() == extraction@,
            r.spec_factory() == extraction.spec_factory(),
    {
        BaseExtractor { extraction: Some(extraction) }
    }

    /// The sorts and the functions extracted in this session, each kind in
    /// some order: no two of a kind have the same key, and together they are
    /// what the session holds.
    pub fn into_result(self) -> (r: (Vec<&'l ADTSort<'l>>, Vec<&'l FunDef<'l>>))
        requires
            self.active(),
        ensures
            keys_distinct(r.0@),
            keys_distinct(r.1@),
            definitions_map(r.0@) == self.state().sorts,
            definitions_map(r.1@) == self.state().functions,
    {
        let xt = self.extraction.unwrap();
        let adts = collect_sorts(&xt.adts);
        let functions = collect_functions(&xt.functions);
        (adts, functions)
    }

    pub fn factory(&self) -> (f: &'l Factory)
        requires
            self.active(),
        ensures
            f == self.spec_factory(),
    {
        self.extraction.as_ref().unwrap().factory
    }

    /// How many identifiers the session can still issue.
    pub fn ids_left(&self) -> (n: Int)
        requires
            self.active(),
        ensures
            n == Int::MAX - self.state().issued,
            0 <= n,
    {
        Int::MAX - self.extraction.as_ref().unwrap().mapping.global_id_counter
    }

    /// A fresh identifier whose path is its name alone.
    pub fn fresh_id(&mut self, name: String) -> (r: &'l SymbolIdentifier<'l>)
        requires
            old(self).active(),
            old(self).state().issued < Int::MAX,
        ensures
            final(self).active(),
            final(self).spec_factory() == old(self).spec_factory(),
            r@ == next_id(old(self).state(), name@, seq![name@]),
            final(self).state() == after_issue(old(self).state(), name@),
    {
        let mut xt = self.extraction.take().unwrap();
        let mut path: Vec<String> = Vec::new();
        path.push(name.clone());
        assert(string_views(path@) =~= seq![name@]);
        let id = xt.fresh_id(name, path);
        self.extraction = Some(xt);
        id
    }

    /// Registers a definition under the last segment of its path, sanitized,
    /// and hands back the identifier issued for it.
    pub fn register_def(&mut self, def_id: DefKey, symbol_path: Vec<String>) -> (r:
        &'l SymbolIdentifier<'l>)
        requires
            old(self).active(),
            old(self).state().issued < Int::MAX,
            symbol_path@.len() > 0,
            !old(self).state().defs.contains_key(def_id),
        ensures
            final(self).active(),
            final(self).spec_factory() == old(self).spec_factory(),
            r@ == next_id(
                old(self).state(),
                sanitized(symbol_path@.last()@),
                sanitized_path(string_views(symbol_path@)),
            ),
            final(self).state() == (ExtractionState {
                defs: old(self).state().defs.insert(def_id, r@),
                ..after_issue(old(self).state(), sanitized(symbol_path@.last()@))
            }),
    {
        let path_len = symbol_path.len();
        let name = symbol_path[path_len - 1].clone();
        let ghost given = string_views(symbol_path@);
        let mut path = symbol_path;
        let name = if is_numeric_name(name.as_str()) {
            let new_name = String::from_str("_").concat(name.as_str());
            path.pop();
            path.push(new_name.clone());
            new_name
        } else {
            name
        };
        assert(string_views(path@) =~= sanitized_path(given));
        let mut xt = self.extraction.take().unwrap();
        let id = xt.fresh_id(name, path);
        let ghost before = xt.mapping.did_to_stid@;
        xt.mapping.did_to_stid.insert(def_id, id);
        assert(identifier_views(before.insert(def_id, id)) =~= identifier_views(before).insert(
            def_id,
            id@,
        ));
        self.extraction = Some(xt);
        id
    }

    /// The identifier of a registered definition.
    pub fn get_id_from_def(&self, def_id: DefKey) -> (r: Option<&'l SymbolIdentifier<'l>>)
        requires
            self.active(),
        ensures
            match r {
                Some(id) => self.state().defs.get(def_id) == Some(id@),
                None => !self.state().defs.contains_key(def_id),
            },
    {
        match self.extraction.as_ref().unwrap().mapping.did_to_stid.get(&def_id) {
            Some(id) => Some(*id),
            None => None,
        }
    }

    /// The sort extracted under a global id.
    pub fn get_adt(&self, key: Int) -> (r: Option<&'l ADTSort<'l>>)
        requires
            self.active(),
        ensures
            match r {
                Some(sort) => self.state().sorts.get(key) == Some(sort@),
                None => !self.state().sorts.contains_key(key),
            },
    {
        match self.extraction.as_ref().unwrap().adts.get(&key) {
            Some(sort) => Some(*sort),
            None => None,
        }
    }

    /// The diagnostics reported so far, in the order of traversal.
    pub fn diagnostics(&self) -> (r: &Vec<Diagnostic>)
        requires
            self.active(),
        ensures
            r@ == self.state().diagnostics,
    {
        &self.extraction.as_ref().unwrap().diagnostics
    }

    /// Whether a function was added under a global id.
    pub fn has_function(&self, key: Int) -> (b: bool)
        requires
            self.active(),
        ensures
            b == self.state().functions.contains_key(key),
    {
        self.extraction.as_ref().unwrap().functions.get(&key).is_some()
    }

    /// Whether a binder is registered.
    pub fn has_binder(&self, hir_id: BinderKey) -> (b: bool)
        requires
            self.active(),
        ensures
            b == self.state().binders.contains_key(hir_id),
    {
        self.extraction.as_ref().unwrap().mapping.hid_to_stid.get(&hir_id).is_some()
    }

    /// The identifier of a definition, which is registered first if it is
    /// not yet.
    pub fn get_or_register_def(&mut self, def_id: DefKey, symbol_path: Vec<String>) -> (r:
        &'l SymbolIdentifier<'l>)
        requires
            old(self).active(),
            old(self).state().issued < Int::MAX,
            symbol_path@.len() > 0,
        ensures
            final(self).active(),
            final(self).spec_factory() == old(self).spec_factory(),
            old(self).state().defs.contains_key(def_id) ==> r@ == old(self).state().defs[def_id]
                && final(self).state() == old(self).state(),
            !old(self).state().defs.contains_key(def_id) ==> r@ == next_id(
                old(self).state(),
                sanitized(symbol_path@.last()@),
                sanitized_path(string_views(symbol_path@)),
            ) && final(self).state() == (ExtractionState {
                defs: old(self).state().defs.insert(def_id, r@),
                ..after_issue(old(self).state(), sanitized(symbol_path@.last()@))
            }),
    {
        match self.get_id_from_def(def_id) {
            Some(id) => id,
            None => self.register_def(def_id, symbol_path),
        }
    }

    /// Registers a binder of the body of the definition at `owner_path`
    /// under its name, and hands back the identifier issued for it.
    pub fn register_hir(&mut self, hir_id: BinderKey, owner_path: Vec<String>, name: String) -> (r:
        &'l SymbolIdentifier<'l>)
        requires
            old(self).active(),
            old(self).state().issued < Int::MAX,
            !old(self).state().binders.contains_key(hir_id),
        ensures
            final(self).active(),
            final(self).spec_factory() == old(self).spec_factory(),
            r@ == next_id(old(self).state(), name@, string_views(owner_path@).push(name@)),
            final(self).state() == (ExtractionState {
                binders: old(self).state().binders.insert(hir_id, r@),
                ..after_issue(old(self).state(), name@)
            }),
    {
        let ghost owner = string_views(owner_path@);
        let mut symbol_path = owner_path;
        symbol_path.push(name.clone());
        assert(string_views(symbol_path@) =~= owner.push(name@));
        let mut xt = self.extraction.take().unwrap();
        let id = xt.fresh_id(name, symbol_path);
        let ghost before = xt.mapping.hid_to_stid@;
        xt.mapping.hid_to_stid.insert(hir_id, id);
        assert(identifier_views(before.insert(hir_id, id)) =~= identifier_views(before).insert(
            hir_id,
            id@,
        ));
        self.extraction = Some(xt);
        id
    }

    /// Adds an extracted sort under its identifier: under the identifier's
    /// global id.
    pub fn add_adt(&mut self, id: &'l SymbolIdentifier<'l>, adt: &'l ADTSort<'l>)
        requires
            old(self).active(),
            adt.id.key() == id.key(),
            !old(self).state().sorts.contains_key(id.key()),
        ensures
            final(self).active(),
            final(self).spec_factory() == old(self).spec_factory(),
            final(self).state() == (ExtractionState {
                sorts: old(self).state().sorts.insert(id.key(), adt@),
                ..old(self).state()
            }),
    {
        let mut xt = self.extraction.take().unwrap();
        let ghost before = xt.adts@;
        xt.adts.insert(id.id.global_id, adt);
        assert(sort_views(before.insert(id.key(), adt)) =~= sort_views(before).insert(
            id.key(),
            adt@,
        ));
        self.extraction = Some(xt);
    }

    /// Records that a function is referred to.
    pub fn add_function_ref(&mut self, def_id: DefKey)
        requires
            old(self).active(),
            !old(self).state().function_refs.contains(def_id),
        ensures
            final(self).active(),
            final(self).spec_factory() == old(self).spec_factory(),
            final(self).state() == (ExtractionState {
                function_refs: old(self).state().function_refs.insert(def_id),
                ..old(self).state()
            }),
    {
        let mut xt = self.extraction.take().unwrap();
        xt.function_refs.insert(def_id);
        self.extraction = Some(xt);
    }

    /// Adds an extracted function under its identifier: under the
    /// identifier's global id.
    pub fn add_function(&mut self, id: &'l SymbolIdentifier<'l>, fd: &'l FunDef<'l>)
        requires
            old(self).active(),
            fd.id.key() == id.key(),
            !old(self).state().functions.contains_key(id.key()),
        ensures
            final(self).active(),
            final(self).spec_factory() == old(self).spec_factory(),
            final(self).state() == (ExtractionState {
                functions: old(self).state().functions.insert(id.key(), fd@),
                ..old(self).state()
            }),
    {
        let mut xt = self.extraction.take().unwrap();
        let ghost before = xt.functions@;
        xt.functions.insert(id.id.global_id, fd);
        assert(function_views(before.insert(id.key(), fd)) =~= function_views(before).insert(
            id.key(),
            fd@,
        ));
        self.extraction = Some(xt);
    }

    /// Reports that the node at `span` could not be extracted.
    pub fn unsupported(&mut self, span: Span, issue: Issue)
        requires
            old(self).active(),
        ensures
            final(self).active(),
            final(self).spec_factory() == old(self).spec_factory(),
            final(self).state() == (ExtractionState {
                diagnostics: old(self).state().diagnostics.push(Diagnostic { span, issue }),
                ..old(self).state()
            }),
    {
        let mut xt = self.extraction.take().unwrap();
        xt.diagnostics.push(Diagnostic { span, issue });
        self.extraction = Some(xt);
    }
}

/// The variables of the binders of one body.
pub struct DefContext<'l> {
    vars: HashMap<BinderKey, &'l Variable<'l>>,
}

impl<'l> View for DefContext<'l> {
    type V = Map<BinderKey, SpecVariable>;

    closed spec fn view(&self) -> Map<BinderKey, SpecVariable> {
        variable_views(self.vars@)
    }
}

impl<'l> DefContext<'l> {
    pub fn new() -> (r: Self)
        ensures
            r@ == Map::<BinderKey, SpecVariable>::empty(),
    {
        let r = DefContext { vars: HashMap::new() };
        assert(r@ =~= Map::<BinderKey, SpecVariable>::empty());
        r
    }

    /// Adds the variable of a binder.
    pub fn add_var(&mut self, hir_id: BinderKey, var: &'l Variable<'l>)
        requires
            !old(self)@.contains_key(hir_id),
        ensures
            final(self)@ == old(self)@.insert(hir_id, var@),
    {
        let ghost before = self.vars@;
        self.vars.insert(hir_id, var);
        assert(variable_views(before.insert(hir_id, var)) =~= variable_views(before).insert(
            hir_id,
            var@,
        ));
    }

    /// The variable of a binder.
    pub fn get_var(&self, hir_id: BinderKey) -> (r: Option<&'l Variable<'l>>)
        ensures
            match r {
                Some(var) => self@.get(hir_id) == Some(var@),
                None => !self@.contains_key(hir_id),
            },
    {
        match self.vars.get(&hir_id) {
            Some(var) => Some(*var),
            None => None,
        }
    }
}

/// The extractor of one body. It holds the session for as long as the body
/// is extracted.
pub struct BodyExtractor<'l> {
    base: BaseExtractor<'l>,
    dcx: DefContext<'l>,
}

impl<'l> BodyExtractor<'l> {
    /// This extractor holds a consistent session.
    pub closed spec fn wf(&self) -> bool {
        self.base.active()
    }

    /// The session that this extractor holds.
    pub closed spec fn state(&self) -> ExtractionState {
        self.base.state()
    }

    /// The variables of the binders registered for the body.
    pub closed spec fn vars(&self) -> Map<BinderKey, SpecVariable> {
        self.dcx@
    }

    /// The arena that the session allocates from.
    pub closed spec fn spec_factory(&self) -> &'l Factory {
        self.base.spec_factory()
    }

    /// What the extraction of the body resolves.
    pub open spec fn cx(&self) -> Resolution {
        Resolution { defs: self.state().defs, sorts: self.state().sorts, vars: self.vars() }
    }

    /// This extractor is the one `before`, after it has reported `diags`
    /// and done nothing else.
    pub open spec fn reported(&self, before: &Self, diags: Seq<Diagnostic>) -> bool {
        &&& self.wf()
        &&& self.spec_factory() == before.spec_factory()
        &&& self.vars() == before.vars()
        &&& self.state() == (ExtractionState {
            diagnostics: before.state().diagnostics + diags,
            ..before.state()
        })
    }

    /// Takes the session over for the extraction of one body. The base
    /// extractor is idle until `finish` hands the session back.
    pub fn new(base: &mut BaseExtractor<'l>) -> (r: Self)
        requires
            old(base).active(),
        ensures
            !final(base).active(),
            r.wf(),
            r.state() == old(base).state(),
            r.spec_factory() == old(base).spec_factory(),
            r.vars() == Map::<BinderKey, SpecVariable>::empty(),
    {
        let extraction = base.extraction.take().unwrap();
        BodyExtractor { base: BaseExtractor::new(extraction), dcx: DefContext::new() }
    }

    /// Hands the session back to the base extractor.
    pub fn finish(self, base: &mut BaseExtractor<'l>)
        requires
            self.wf(),
        ensures
            final(base).active(),
            final(base).state() == self.state(),
            final(base).spec_factory() == self.spec_factory(),
    {
        let mut this = self;
        base.extraction = this.base.extraction.take();
    }

    pub fn factory(&self) -> (f: &'l Factory)
        requires
            self.wf(),
        ensures
            f == self.spec_factory(),
    {
        self.base.factory()
    }

    /// How many identifiers the session can still issue.
    pub fn ids_left(&self) -> (n: Int)
        requires
            self.wf(),
        ensures
            n == Int::MAX - self.state().issued,
            0 <= n,
    {
        self.base.ids_left()
    }

    /// The diagnostics reported so far, in the order of traversal.
    pub fn diagnostics(&self) -> (r: &Vec<Diagnostic>)
        requires
            self.wf(),
        ensures
            r@ == self.state().diagnostics,
    {
        self.base.diagnostics()
    }

    /// Whether a binder is registered in the session.
    pub fn has_binder(&self, hir_id: BinderKey) -> (b: bool)
        requires
            self.wf(),
        ensures
            b == self.state().binders.contains_key(hir_id),
    {
        self.base.has_binder(hir_id)
    }

    /// Extracts a type that is mentioned at `span`. A type that cannot be
    /// extracted becomes the missing type and is reported.
    pub fn extract_ty(&mut self, ty: &HostTy, span: Span) -> (r: Type<'l>)
        requires
            old(self).wf(),
        ensures
            final(self).reported(old(self), extracted_ty(old(self).state().defs, *ty, span).diags),
            r@ == extracted_ty(old(self).state().defs, *ty, span).value,
    {
        self.base.extract_ty(ty, span)
    }

    /// Whether a binder of the body has its variable.
    pub fn has_var(&self, hir_id: BinderKey) -> (b: bool)
        ensures
            b == self.vars().contains_key(hir_id),
    {
        self.dcx.get_var(hir_id).is_some()
    }

    /// Registers a binder of the body of the definition at `owner_path`: it
    /// gets a fresh identifier, and a variable of that identifier and the
    /// given type.
    pub fn register_var(
        &mut self,
        hir_id: BinderKey,
        owner_path: Vec<String>,
        name: String,
        tpe: Type<'l>,
    ) -> (r: &'l Variable<'l>)
        requires
            old(self).wf(),
            old(self).state().issued < Int::MAX,
            !old(self).state().binders.contains_key(hir_id),
            !old(self).vars().contains_key(hir_id),
        ensures
            final(self).wf(),
            final(self).spec_factory() == old(self).spec_factory(),
            r@ == (SpecVariable {
                id: next_id(old(self).state(), name@, string_views(owner_path@).push(name@)),
                tpe: tpe@,
                flags: Seq::empty(),
            }),
            final(self).vars() == old(self).vars().insert(hir_id, r@),
            final(self).state() == (ExtractionState {
                binders: old(self).state().binders.insert(hir_id, r@.id),
                ..after_issue(old(self).state(), name@)
            }),
    {
        let id = self.base.register_hir(hir_id, owner_path, name);
        let f = self.base.factory();
        let var: &'l Variable<'l> = f.allocate(Variable { id, tpe, flags: Vec::new() });
        self.dcx.add_var(hir_id, var);
        var
    }

    /// The variable of a binder of the body.
    pub fn fetch_var(&self, hir_id: BinderKey) -> (r: &'l Variable<'l>)
        requires
            self.vars().contains_key(hir_id),
        ensures
            r@ == self.vars()[hir_id],
    {
        self.dcx.get_var(hir_id).unwrap()
    }

    /// The sort extracted for a definition.
    pub fn sort_of(&self, def_id: DefKey) -> (r: Option<&'l ADTSort<'l>>)
        requires
            self.wf(),
        ensures
            match r {
                Some(sort) => self.cx().sort_of(def_id) == Some(sort@),
                None => self.cx().sort_of(def_id) is None,
            },
    {
        match self.base.get_id_from_def(def_id) {
            Some(id) => self.base.get_adt(id.id.global_id),
            None => None,
        }
    }

    /// The identifier of a registered definition.
    pub fn id_of(&self, def_id: DefKey) -> (r: Option<&'l SymbolIdentifier<'l>>)
        requires
            self.wf(),
        ensures
            match r {
                Some(id) => self.cx().defs.get(def_id) == Some(id@),
                None => !self.cx().defs.contains_key(def_id),
            },
    {
        self.base.get_id_from_def(def_id)
    }

    /// Reports that the node at `span` could not be extracted.
    pub fn unsupported(&mut self, span: Span, issue: Issue)
        requires
            old(self).wf(),
        ensures
            final(self).reported(old(self), seq![Diagnostic { span, issue }]),
    {
        self.base.unsupported(span, issue);
        assert(old(self).state().diagnostics.push(Diagnostic { span, issue })
            =~= old(self).state().diagnostics + seq![Diagnostic { span, issue }]);
    }
}

} // verus!
