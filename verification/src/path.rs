//! Qualified paths: `a::b::c` names the definition `c` in `b` in `a`.
use vstd::prelude::*;
use vstd::string::*;
use crate::ast::string_views;

verus! {

/// Whether the separator `::` stands at position `i`.
pub open spec fn separator_at(s: Seq<char>, i: int) -> bool {
    0 <= i && i + 1 < s.len() && s[i] == ':' && s[i + 1] == ':'
}

/// The position of the first separator from `from` on, or the length of the
/// sequence if there is none.
pub open spec fn first_separator(s: Seq<char>, from: int) -> int
    decreases s.len() - from,
{
    if from < 0 || from >= s.len() {
        s.len() as int
    } else if separator_at(s, from) {
        from
    } else {
        first_separator(s, from + 1)
    }
}

/// The segments of a qualified path: what stands between its separators,
/// which are taken from left to right.
pub open spec fn split_path(s: Seq<char>) -> Seq<Seq<char>>
    decreases s.len(),
{
    let i = first_separator(s, 0);
    if 0 <= i && i + 2 <= s.len() {
        seq![s.subrange(0, i)] + split_path(s.subrange(i + 2, s.len() as int))
    } else {
        seq![s]
    }
}

proof fn lemma_first_separator(s: Seq<char>, from: int, upto: int)
    requires
        0 <= from <= upto <= s.len(),
        forall|j: int| from <= j < upto ==> !separator_at(s, j),
    ensures
        first_separator(s, from) == first_separator(s, upto),
        from <= first_separator(s, upto) <= s.len(),
        first_separator(s, upto) < s.len() ==> separator_at(s, first_separator(s, upto)),
    decreases s.len() - from,
{
    if from < upto {
        lemma_first_separator(s, from + 1, upto);
    } else {
        lemma_first_separator_found(s, upto);
    }
}

proof fn lemma_first_separator_found(s: Seq<char>, from: int)
    requires
        0 <= from <= s.len(),
    ensures
        from <= first_separator(s, from) <= s.len(),
        first_separator(s, from) < s.len() ==> separator_at(s, first_separator(s, from)),
    decreases s.len() - from,
{
    if from < s.len() && !separator_at(s, from) {
        lemma_first_separator_found(s, from + 1);
    }
}

/// The segments of the qualified path of a definition.
pub fn symbol_path_from_def_path(def_path: &str) -> (r: Vec<String>)
    ensures
        string_views(r@) == split_path(def_path@),
        r@.len() > 0,
{
    let len = def_path.unicode_len();
    let mut r: Vec<String> = Vec::new();
    let mut start: usize = 0;
    let mut i: usize = 0;
    let ghost s = def_path@;
    assert(string_views(r@) =~= Seq::<Seq<char>>::empty());
    assert(s.subrange(0, len as int) =~= s);
    while i < len
        invariant
            s == def_path@,
            len == s.len(),
            start <= i <= len,
            string_views(r@) + split_path(s.subrange(start as int, len as int)) == split_path(s),
            forall|j: int| start <= j < i ==> !separator_at(s, j),
        decreases len - i,
    {
        if i + 1 < len && def_path.get_char(i) == ':' && def_path.get_char(i + 1) == ':' {
            let segment = String::from_str(def_path.substring_char(start, i));
            proof {
                let rest = s.subrange(start as int, len as int);
                assert forall|j: int| 0 <= j < i - start implies !separator_at(rest, j) by {
                    assert(!separator_at(s, start + j));
                }
                assert(separator_at(rest, i - start));
                lemma_first_separator(rest, 0, i - start);
                assert(rest.subrange(0, i - start) =~= s.subrange(start as int, i as int));
                assert(rest.subrange(i - start + 2, rest.len() as int) =~= s.subrange(
                    i + 2,
                    len as int,
                ));
                assert(string_views(r@.push(segment)) =~= string_views(r@) + seq![segment@]);
                assert((string_views(r@) + seq![segment@]) + split_path(
                    s.subrange(i + 2, len as int),
                ) =~= string_views(r@) + (seq![segment@] + split_path(
                    s.subrange(i + 2, len as int),
                )));
            }
            r.push(segment);
            start = i + 2;
            i = i + 2;
        } else {
            i += 1;
        }
    }
    let segment = String::from_str(def_path.substring_char(start, len));
    proof {
        let rest = s.subrange(start as int, len as int);
        assert forall|j: int| 0 <= j < rest.len() implies !separator_at(rest, j) by {
            assert(!separator_at(s, start + j));
        }
        lemma_first_separator(rest, 0, rest.len() as int);
        assert(string_views(r@.push(segment)) =~= string_views(r@) + seq![rest]);
    }
    r.push(segment);
    r
}

} // verus!
