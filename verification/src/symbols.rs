//! The table of the definitions extracted from a program. Whatever the order
//! in which definitions were found, the table holds them by the global id of
//! their identifier, and hands them out in the order of those ids.
use vstd::prelude::*;
use crate::ast::{ADTSort, FunDef, Int};
use crate::encode::{adt_sort_bytes, adt_sorts_concat, fun_def_bytes, fun_defs_concat};
use crate::model::{SpecADTSort, SpecFunDef};
use crate::ser::{len_bytes, lemma_written_2, lemma_written_4, BufferSerializer};

verus! {

/// A top-level definition: it has an identifier, by whose global id it is
/// keyed and ordered.
pub trait Definition: View {
    /// The key of the definition: the global id of its identifier.
    spec fn spec_key(&self) -> Int;

    /// The key of the definition.
    fn key(&self) -> (k: Int)
        ensures
            k == self.spec_key(),
    ;
}

impl<'a> Definition for ADTSort<'a> {
    open spec fn spec_key(&self) -> Int {
        self.id.key()
    }

    fn key(&self) -> (k: Int) {
        self.id.id.global_id
    }
}

impl<'a> Definition for FunDef<'a> {
    open spec fn spec_key(&self) -> Int {
        self.id.key()
    }

    fn key(&self) -> (k: Int) {
        self.id.id.global_id
    }
}

/// The mapping that a sequence of definitions stands for: each definition
/// under its key; of two with one key, the later one.
pub open spec fn definitions_map<T: Definition>(defs: Seq<&T>) -> Map<Int, T::V>
    decreases defs.len(),
{
    if defs.len() == 0 {
        Map::empty()
    } else {
        definitions_map(defs.drop_last()).insert(defs.last().spec_key(), defs.last()@)
    }
}

/// The values of a mapping whose keys are below `bound`, in the order of
/// their keys.
pub open spec fn values_below<V>(m: Map<Int, V>, bound: int) -> Seq<V>
    decreases bound - Int::MIN,
{
    if bound <= Int::MIN {
        Seq::empty()
    } else {
        let before = values_below(m, bound - 1);
        if m.contains_key((bound - 1) as Int) {
            before.push(m[(bound - 1) as Int])
        } else {
            before
        }
    }
}

/// The values of a mapping in the order of their keys.
pub open spec fn values_by_key<V>(m: Map<Int, V>) -> Seq<V> {
    values_below(m, Int::MAX + 1)
}

/// The views of definitions, one for one.
pub open spec fn definition_views<T: Definition>(defs: Seq<&T>) -> Seq<T::V> {
    Seq::new(defs.len(), |i: int| defs[i]@)
}

/// Whether the keys of a sequence of definitions go strictly up.
pub open spec fn keys_ascending<T: Definition>(defs: Seq<&T>) -> bool {
    forall|i: int, j: int|
        0 <= i < j < defs.len() ==> (#[trigger] defs[i]).spec_key() < (#[trigger] defs[j]).spec_key()
}

/// Whether no two definitions of a sequence have the same key.
pub open spec fn keys_distinct<T: Definition>(defs: Seq<&T>) -> bool {
    forall|i: int, j: int|
        0 <= i < j < defs.len() ==> (#[trigger] defs[i]).spec_key() != (
        #[trigger] defs[j]).spec_key()
}

/// The mapping of definitions with distinct keys holds exactly these
/// definitions, each under its key.
pub proof fn lemma_definitions_map<T: Definition>(defs: Seq<&T>)
    requires
        keys_distinct(defs),
    ensures
        forall|i: int|
            0 <= i < defs.len() ==> definitions_map(defs).contains_key(
                (#[trigger] defs[i]).spec_key(),
            ) && definitions_map(defs)[defs[i].spec_key()] == defs[i]@,
        forall|k: Int| #[trigger]
            definitions_map(defs).contains_key(k) ==> exists|i: int|
                0 <= i < defs.len() && (#[trigger] defs[i]).spec_key() == k,
    decreases defs.len(),
{
    if defs.len() > 0 {
        let front = defs.drop_last();
        assert(keys_distinct(front)) by {
            assert forall|i: int, j: int| 0 <= i < j < front.len() implies (#[trigger] front[i]).spec_key()
                != (#[trigger] front[j]).spec_key() by {
                assert(front[i] == defs[i] && front[j] == defs[j]);
            }
        }
        lemma_definitions_map(front);
        assert(definitions_map(defs) == definitions_map(front).insert(
            defs.last().spec_key(),
            defs.last()@,
        ));
        assert forall|i: int| 0 <= i < defs.len() implies definitions_map(defs).contains_key(
            (#[trigger] defs[i]).spec_key(),
        ) && definitions_map(defs)[defs[i].spec_key()] == defs[i]@ by {
            if i < defs.len() - 1 {
                assert(front[i] == defs[i]);
                assert(defs[i].spec_key() != defs[defs.len() - 1].spec_key());
            }
        }
        assert forall|k: Int| #[trigger] definitions_map(defs).contains_key(k) implies exists|
            i: int,
        |
            0 <= i < defs.len() && (#[trigger] defs[i]).spec_key() == k by {
            if k == defs.last().spec_key() {
                assert(defs[defs.len() - 1].spec_key() == k);
            } else {
                assert(definitions_map(front).contains_key(k));
                let i = choose|i: int| 0 <= i < front.len() && (#[trigger] front[i]).spec_key() == k;
                assert(defs[i] == front[i]);
            }
        }
    }
}

/// A value under a key that is not below the bound does not count.
proof fn lemma_values_below_insert_above<V>(m: Map<Int, V>, k: Int, v: V, bound: int)
    requires
        bound <= k,
    ensures
        values_below(m.insert(k, v), bound) == values_below(m, bound),
    decreases bound - Int::MIN,
{
    if bound > Int::MIN {
        lemma_values_below_insert_above(m, k, v, bound - 1);
    }
}

/// Where a mapping has no key from `from` on, nothing follows the values
/// below `from`.
proof fn lemma_values_below_no_more<V>(m: Map<Int, V>, from: int, bound: int)
    requires
        from <= bound <= Int::MAX + 1,
        forall|k: Int| from <= k ==> !m.contains_key(k),
    ensures
        values_below(m, bound) == values_below(m, from),
    decreases bound - from,
{
    if from < bound {
        lemma_values_below_no_more(m, from, bound - 1);
    }
}

/// A value under a key above all others comes last.
proof fn lemma_values_by_key_push<V>(m: Map<Int, V>, k: Int, v: V)
    requires
        forall|other: Int| k <= other ==> !m.contains_key(other),
    ensures
        values_by_key(m.insert(k, v)) == values_by_key(m).push(v),
{
    let m2 = m.insert(k, v);
    lemma_values_below_insert_above(m, k, v, k as int);
    assert(values_below(m2, k + 1) == values_below(m, k as int).push(v));
    assert forall|other: Int| k + 1 <= other implies !m2.contains_key(other) by {}
    lemma_values_below_no_more(m2, k + 1, Int::MAX + 1);
    lemma_values_below_no_more(m, k as int, Int::MAX + 1);
}

/// Definitions whose keys go up are the values of their mapping in the
/// order of the keys.
pub proof fn lemma_ascending_is_by_key<T: Definition>(defs: Seq<&T>)
    requires
        keys_ascending(defs),
    ensures
        values_by_key(definitions_map(defs)) == definition_views(defs),
    decreases defs.len(),
{
    if defs.len() == 0 {
        lemma_values_below_no_more(Map::<Int, T::V>::empty(), Int::MIN as int, Int::MAX + 1);
        assert(definition_views(defs) =~= Seq::<T::V>::empty());
    } else {
        let front = defs.drop_last();
        let last = defs.last();
        assert forall|i: int, j: int| 0 <= i < j < front.len() implies (#[trigger] front[i]).spec_key()
            < (#[trigger] front[j]).spec_key() by {
            assert(front[i] == defs[i] && front[j] == defs[j]);
        }
        lemma_ascending_is_by_key(front);
        lemma_definitions_map(front);
        assert forall|other: Int| last.spec_key() <= other implies !definitions_map(
            front,
        ).contains_key(other) by {
            if definitions_map(front).contains_key(other) {
                let i = choose|i: int|
                    0 <= i < front.len() && (#[trigger] front[i]).spec_key() == other;
                assert(front[i] == defs[i]);
                assert(defs[i].spec_key() < defs[defs.len() - 1].spec_key());
            }
        }
        lemma_values_by_key_push(definitions_map(front), last.spec_key(), last@);
        assert(definition_views(defs) =~= definition_views(front).push(last@));
    }
}

/// Puts a definition into a sequence whose keys go up, at the place of its
/// key; a definition of the same key gives way to it.
pub fn insert_definition<'a, T: Definition>(defs: &mut Vec<&'a T>, d: &'a T)
    requires
        keys_ascending(old(defs)@),
    ensures
        keys_ascending(final(defs)@),
        definitions_map(final(defs)@) == definitions_map(old(defs)@).insert(d.spec_key(), d@),
{
    let key = d.key();
    let mut p: usize = 0;
    while p < defs.len() && defs[p].key() < key
        invariant
            defs == old(defs),
            p <= defs@.len(),
            forall|i: int| 0 <= i < p ==> (#[trigger] defs@[i]).spec_key() < key,
        decreases defs.len() - p,
    {
        p += 1;
    }
    let ghost before = defs@;
    if p < defs.len() && defs[p].key() == key {
        defs.set(p, d);
    } else {
        defs.insert(p, d);
    }
    proof {
        let after = defs@;
        assert(keys_ascending(after)) by {
            assert forall|i: int, j: int| 0 <= i < j < after.len() implies (#[trigger] after[i]).spec_key()
                < (#[trigger] after[j]).spec_key() by {
                if after.len() == before.len() {
                    if i != p {
                        assert(after[i] == before[i]);
                    }
                    if j != p {
                        assert(after[j] == before[j]);
                    }
                    if i == p {
                        assert(before[p as int].spec_key() < before[j].spec_key());
                    }
                    if j == p {
                        assert(before[i].spec_key() < before[p as int].spec_key());
                    }
                } else {
                    let bi = if i < p { i } else { i - 1 };
                    let bj = if j < p { j } else { j - 1 };
                    if i != p {
                        assert(after[i] == before[bi]);
                    }
                    if j != p {
                        assert(after[j] == before[bj]);
                    }
                    if i == p {
                        assert(before[p as int].spec_key() <= before[bj].spec_key()) by {
                            if bj > p {
                                assert(before[p as int].spec_key() < before[bj].spec_key());
                            }
                        }
                    }
                    if i != p && j != p {
                        assert(before[bi].spec_key() < before[bj].spec_key());
                    }
                }
            }
        }
        lemma_ascending_distinct(before);
        lemma_ascending_distinct(after);
        lemma_definitions_map(before);
        lemma_definitions_map(after);
        let m1 = definitions_map(after);
        let m2 = definitions_map(before).insert(key, d@);
        assert(after[p as int] == d);
        assert forall|k: Int| m1.contains_key(k) == m2.contains_key(k) by {
            if m1.contains_key(k) {
                let i = choose|i: int| 0 <= i < after.len() && (#[trigger] after[i]).spec_key() == k;
                if i != p {
                    let bi = if after.len() == before.len() || i < p { i } else { i - 1 };
                    assert(after[i] == before[bi]);
                }
            }
            if m2.contains_key(k) && k != key {
                let bi = choose|i: int|
                    0 <= i < before.len() && (#[trigger] before[i]).spec_key() == k;
                let i = if after.len() == before.len() || bi < p { bi } else { bi + 1 };
                assert(after[i] == before[bi]);
            }
        }
        assert forall|k: Int| m1.contains_key(k) implies m1[k] == m2[k] by {
            let i = choose|i: int| 0 <= i < after.len() && (#[trigger] after[i]).spec_key() == k;
            if i != p {
                let bi = if after.len() == before.len() || i < p { i } else { i - 1 };
                assert(after[i] == before[bi]);
            }
        }
        assert(m1 =~= m2);
    }
}

/// Keys that go strictly up are distinct.
pub proof fn lemma_ascending_distinct<T: Definition>(defs: Seq<&T>)
    requires
        keys_ascending(defs),
    ensures
        keys_distinct(defs),
{
}

/// The definitions of a program: its sorts and its functions, each kind by
/// the global id of the definition's identifier.
#[derive(Debug, PartialEq, Eq, Hash)]
pub struct Symbols<'a> {
    sorts: Vec<&'a ADTSort<'a>>,
    functions: Vec<&'a FunDef<'a>>,
}

/// What a table of definitions is: two mappings.
pub struct SpecSymbols {
    pub sorts: Map<Int, SpecADTSort>,
    pub functions: Map<Int, SpecFunDef>,
}

/// The table that holds the given definitions.
pub open spec fn symbols_of(sorts: Seq<&ADTSort>, functions: Seq<&FunDef>) -> SpecSymbols {
    SpecSymbols { sorts: definitions_map(sorts), functions: definitions_map(functions) }
}

/// The encoding of the definitions of a table: the functions in the order
/// of their keys, then the sorts in the order of theirs, each sequence
/// preceded by its length.
pub open spec fn symbols_block(symbols: SpecSymbols) -> Seq<u8> {
    let functions = values_by_key(symbols.functions);
    let sorts = values_by_key(symbols.sorts);
    len_bytes(functions.len()) + fun_defs_concat(functions, functions.len()) + len_bytes(
        sorts.len(),
    ) + adt_sorts_concat(sorts, sorts.len())
}

/// The encoding of a table: the number of bytes of the encoding of its
/// definitions, then that.
pub open spec fn symbols_bytes(symbols: SpecSymbols) -> Seq<u8> {
    len_bytes(symbols_block(symbols).len()) + symbols_block(symbols)
}

impl<'a> View for Symbols<'a> {
    type V = SpecSymbols;

    closed spec fn view(&self) -> SpecSymbols {
        symbols_of(self.sorts@, self.functions@)
    }
}

impl<'a> Symbols<'a> {
    /// The table holds its definitions in the order of their keys.
    #[verifier::type_invariant]
    spec fn ordered(&self) -> bool {
        keys_ascending(self.sorts@) && keys_ascending(self.functions@)
    }

    /// The table of the given definitions. The order in which they are given
    /// makes no difference, unless two of them have the same key: then the
    /// later one stays.
    pub fn new(sorts: Vec<&'a ADTSort<'a>>, functions: Vec<&'a FunDef<'a>>) -> (r: Self)
        ensures
            r@ == symbols_of(sorts@, functions@),
    {
        let mut sorted_sorts: Vec<&'a ADTSort<'a>> = Vec::new();
        let mut i: usize = 0;
        while i < sorts.len()
            invariant
                i <= sorts@.len(),
                keys_ascending(sorted_sorts@),
                definitions_map(sorted_sorts@) == definitions_map(sorts@.take(i as int)),
            decreases sorts.len() - i,
        {
            insert_definition(&mut sorted_sorts, sorts[i]);
            assert(sorts@.take(i + 1).drop_last() =~= sorts@.take(i as int));
            i += 1;
        }
        assert(sorts@.take(sorts@.len() as int) =~= sorts@);
        let mut sorted_functions: Vec<&'a FunDef<'a>> = Vec::new();
        let mut j: usize = 0;
        while j < functions.len()
            invariant
                j <= functions@.len(),
                keys_ascending(sorted_functions@),
                definitions_map(sorted_functions@) == definitions_map(functions@.take(j as int)),
            decreases functions.len() - j,
        {
            insert_definition(&mut sorted_functions, functions[j]);
            assert(functions@.take(j + 1).drop_last() =~= functions@.take(j as int));
            j += 1;
        }
        assert(functions@.take(functions@.len() as int) =~= functions@);
        Symbols { sorts: sorted_sorts, functions: sorted_functions }
    }

    /// The sorts in the order of their keys.
    pub fn sorts(&self) -> (r: &Vec<&'a ADTSort<'a>>)
        ensures
            definition_views(r@) == values_by_key(self@.sorts),
            keys_ascending(r@),
    {
        proof {
            use_type_invariant(self);
            lemma_ascending_is_by_key(self.sorts@);
        }
        &self.sorts
    }

    /// The functions in the order of their keys.
    pub fn functions(&self) -> (r: &Vec<&'a FunDef<'a>>)
        ensures
            definition_views(r@) == values_by_key(self@.functions),
            keys_ascending(r@),
    {
        proof {
            use_type_invariant(self);
            lemma_ascending_is_by_key(self.functions@);
        }
        &self.functions
    }

    /// Writes the table: its definitions go to a buffer first, and what is
    /// written is the length of that buffer and then its bytes.
    pub fn serialize(&self, s: &mut BufferSerializer)
        ensures
            final(s)@ == old(s)@ + symbols_bytes(self@),
    {
        let functions = self.functions();
        let sorts = self.sorts();
        let mut inner = BufferSerializer::new();
        serialize_fun_defs(functions, &mut inner);
        serialize_adt_sorts(sorts, &mut inner);
        proof {
            let fviews = definition_views(functions@);
            let sviews = definition_views(sorts@);
            lemma_written_4(
                Seq::empty(),
                len_bytes(fviews.len()),
                fun_defs_concat(fviews, fviews.len()),
                len_bytes(sviews.len()),
                adt_sorts_concat(sviews, sviews.len()),
            );
            assert(Seq::<u8>::empty() + symbols_block(self@) =~= symbols_block(self@));
        }
        let buffer = inner.to_buffer();
        s.write_len(buffer.len());
        s.write(buffer.as_slice());
        proof {
            lemma_written_2(old(s)@, len_bytes(buffer@.len()), buffer@);
        }
    }
}

/// A copy of a sequence of definitions.
fn copy_definitions<'a, T: Definition>(defs: &Vec<&'a T>) -> (r: Vec<&'a T>)
    ensures
        r@ == defs@,
{
    let mut r: Vec<&'a T> = Vec::new();
    let mut i: usize = 0;
    while i < defs.len()
        invariant
            i <= defs@.len(),
            r@ == defs@.take(i as int),
        decreases defs.len() - i,
    {
        r.push(defs[i]);
        assert(defs@.take(i + 1) =~= defs@.take(i as int).push(defs@[i as int]));
        i += 1;
    }
    assert(defs@.take(defs@.len() as int) =~= defs@);
    r
}

impl<'a> Clone for Symbols<'a> {
    fn clone(&self) -> (r: Self)
        ensures
            r@ == self@,
    {
        proof {
            use_type_invariant(self);
        }
        Symbols {
            sorts: copy_definitions(&self.sorts),
            functions: copy_definitions(&self.functions),
        }
    }
}

/// Writes the number of the functions, then each of them.
pub fn serialize_fun_defs(functions: &Vec<&FunDef<'_>>, s: &mut BufferSerializer)
    ensures
        final(s)@ == old(s)@ + len_bytes(functions@.len()) + fun_defs_concat(
            definition_views(functions@),
            functions@.len(),
        ),
{
    let ghost views = definition_views(functions@);
    s.write_len(functions.len());
    let ghost start = s@;
    let mut i: usize = 0;
    while i < functions.len()
        invariant
            i <= functions@.len(),
            views == definition_views(functions@),
            s@ == start + fun_defs_concat(views, i as nat),
        decreases functions.len() - i,
    {
        functions[i].serialize(s);
        proof {
            lemma_written_2(
                start,
                fun_defs_concat(views, i as nat),
                fun_def_bytes(functions@[i as int]@),
            );
        }
        i += 1;
    }
}

/// Writes the number of the sorts, then each of them.
pub fn serialize_adt_sorts(sorts: &Vec<&ADTSort<'_>>, s: &mut BufferSerializer)
    ensures
        final(s)@ == old(s)@ + len_bytes(sorts@.len()) + adt_sorts_concat(
            definition_views(sorts@),
            sorts@.len(),
        ),
{
    let ghost views = definition_views(sorts@);
    s.write_len(sorts.len());
    let ghost start = s@;
    let mut i: usize = 0;
    while i < sorts.len()
        invariant
            i <= sorts@.len(),
            views == definition_views(sorts@),
            s@ == start + adt_sorts_concat(views, i as nat),
        decreases sorts.len() - i,
    {
        sorts[i].serialize(s);
        proof {
            lemma_written_2(
                start,
                adt_sorts_concat(views, i as nat),
                adt_sort_bytes(sorts@[i as int]@),
            );
        }
        i += 1;
    }
}

/// The table of a program does not depend on the order in which its
/// definitions were found: two sequences of the same definitions, no two of
/// them with the same key, give the same table, and so the same bytes.
pub proof fn lemma_order_of_insertion_is_immaterial(
    sorts: Seq<&ADTSort>,
    functions: Seq<&FunDef>,
    other_sorts: Seq<&ADTSort>,
    other_functions: Seq<&FunDef>,
)
    requires
        keys_distinct(sorts),
        keys_distinct(other_sorts),
        keys_distinct(functions),
        keys_distinct(other_functions),
        sorts.to_set() == other_sorts.to_set(),
        functions.to_set() == other_functions.to_set(),
    ensures
        symbols_of(sorts, functions) == symbols_of(other_sorts, other_functions),
        symbols_bytes(symbols_of(sorts, functions)) == symbols_bytes(
            symbols_of(other_sorts, other_functions),
        ),
{
    lemma_same_definitions_same_map(sorts, other_sorts);
    lemma_same_definitions_same_map(functions, other_functions);
}

/// Two sequences of the same definitions, no two of them with the same key,
/// stand for the same mapping.
pub proof fn lemma_same_definitions_same_map<T: Definition>(defs: Seq<&T>, others: Seq<&T>)
    requires
        keys_distinct(defs),
        keys_distinct(others),
        defs.to_set() == others.to_set(),
    ensures
        definitions_map(defs) == definitions_map(others),
{
    lemma_definitions_map(defs);
    lemma_definitions_map(others);
    let m1 = definitions_map(defs);
    let m2 = definitions_map(others);
    assert forall|k: Int| m1.contains_key(k) implies m2.contains_key(k) && m1[k] == m2[k] by {
        let i = choose|i: int| 0 <= i < defs.len() && (#[trigger] defs[i]).spec_key() == k;
        assert(defs.to_set().contains(defs[i]));
        assert(others.contains(defs[i]));
        let j = choose|j: int| 0 <= j < others.len() && others[j] == defs[i];
        assert(others[j].spec_key() == k);
    }
    assert forall|k: Int| m2.contains_key(k) implies m1.contains_key(k) by {
        let j = choose|j: int| 0 <= j < others.len() && (#[trigger] others[j]).spec_key() == k;
        assert(others.to_set().contains(others[j]));
        assert(defs.contains(others[j]));
        let i = choose|i: int| 0 <= i < defs.len() && defs[i] == others[j];
        assert(defs[i].spec_key() == k);
    }
    assert(m1 =~= m2);
}

} // verus!
