//! What holds of every extraction: when a match becomes a conditional,
//! which subpatterns a constructor pattern gets, and that a statement that
//! cannot be extracted costs its block one diagnostic and nothing else.
use vstd::prelude::*;
use crate::diag::{Diagnostic, Issue};
use crate::ast::Int;
use crate::extraction::{after_issue, next_id, ExtractionState};
use crate::host::{
    HostArm, HostBlock, HostExpr, HostFieldExpr, HostFieldPat, HostPat, HostPatKind, HostStmt,
};
use crate::literal::{literal_of, SpecLiteral};
use crate::model::{no_tree, SpecExpr, SpecPattern, SpecVariable};
use crate::rules::{
    extracted_arms, extracted_block, extracted_expr, extracted_if, extracted_match,
    extracted_pattern, extracted_stmts, extracted_subpatterns, field_order, field_position,
    finish, insert_field, is_empty_block, looks_like_if, pattern_var, plain, strip_scopes,
    Resolution,
};
use crate::validity::fields_fit;

verus! {

/// Whether a pattern is the literal `true`.
pub open spec fn is_literal_true(p: HostPat) -> bool {
    p.kind matches HostPatKind::Constant { value } && literal_of(value) == Some(
        SpecLiteral::Bool(true),
    )
}

/// Whether a match has the shape of a conditional: a boolean scrutinee and
/// two arms, the first for the literal `true`, the second for anything.
pub open spec fn has_shape_of_conditional(scrutinee: HostExpr, arms: Seq<HostArm>) -> bool {
    arms.len() == 2 && scrutinee.ty.is_bool() && is_literal_true(arms[0].pattern)
        && arms[1].pattern.kind is Wild
}

/// A match of the shape of a conditional whose second arm has a body that
/// is no empty block becomes a conditional: its condition is the extracted
/// scrutinee, its branches are the extracted bodies of the two arms.
pub proof fn lemma_conditional_with_else(cx: Resolution, e: HostExpr)
    requires
        e.kind is Match,
        has_shape_of_conditional(*e.kind->scrutinee, e.kind->arms@),
        !is_empty_block(strip_scopes(e.kind->arms@[1].body)),
    ensures
        extracted_expr(cx, e).value == (SpecExpr::IfExpr {
            cond: Box::new(extracted_expr(cx, *e.kind->scrutinee).value),
            thenn: Box::new(extracted_expr(cx, e.kind->arms@[0].body).value),
            elze: Box::new(extracted_expr(cx, e.kind->arms@[1].body).value),
        }),
{
    reveal_with_fuel(extracted_expr, 2);
    reveal_with_fuel(extracted_if, 2);
    assert(looks_like_if(*e.kind->scrutinee, e.kind->arms@) == Some(true));
}

/// A match of the shape of a conditional whose second arm has an empty
/// block for its body, under scopes or not, becomes a conditional whose else
/// branch is the unit value.
pub proof fn lemma_conditional_without_else(cx: Resolution, e: HostExpr)
    requires
        e.kind is Match,
        has_shape_of_conditional(*e.kind->scrutinee, e.kind->arms@),
        is_empty_block(strip_scopes(e.kind->arms@[1].body)),
    ensures
        extracted_expr(cx, e).value == (SpecExpr::IfExpr {
            cond: Box::new(extracted_expr(cx, *e.kind->scrutinee).value),
            thenn: Box::new(extracted_expr(cx, e.kind->arms@[0].body).value),
            elze: Box::new(SpecExpr::UnitLiteral),
        }),
{
    reveal_with_fuel(extracted_expr, 2);
    reveal_with_fuel(extracted_if, 2);
    assert(looks_like_if(*e.kind->scrutinee, e.kind->arms@) == Some(false));
}

/// A match of any other shape stays a match: of two arms for `true` and
/// `false`, say. It has the extracted scrutinee and one case for each arm.
pub proof fn lemma_match_is_not_collapsed(cx: Resolution, e: HostExpr)
    requires
        e.kind is Match,
        !has_shape_of_conditional(*e.kind->scrutinee, e.kind->arms@),
    ensures
        extracted_expr(cx, e).value == (SpecExpr::MatchExpr {
            scrutinee: Box::new(extracted_expr(cx, *e.kind->scrutinee).value),
            cases: extracted_arms(cx, e.kind->arms@, e.kind->arms@.len()).value,
        }),
{
    reveal_with_fuel(extracted_expr, 2);
    reveal_with_fuel(extracted_match, 2);
    assert(looks_like_if(*e.kind->scrutinee, e.kind->arms@) is None);
}

/// Where no two field patterns are for the same field, the first one for a
/// field is the only one.
proof fn lemma_field_position(fps: Seq<HostFieldPat>, j: int, from: int)
    requires
        0 <= from <= j < fps.len(),
        forall|a: int, b: int|
            0 <= a < b < fps.len() ==> (#[trigger] fps[a]).field != (#[trigger] fps[b]).field,
    ensures
        field_position(fps, fps[j].field as int, from) == Some(j),
    decreases j - from,
{
    if from < j {
        assert(fps[from].field != fps[j].field);
        lemma_field_position(fps, j, from + 1);
    }
}

/// A field that no field pattern is for has no position.
proof fn lemma_no_field_position(fps: Seq<HostFieldPat>, field: int, from: int)
    requires
        0 <= from,
        forall|j: int| 0 <= j < fps.len() ==> (#[trigger] fps[j]).field != field,
    ensures
        field_position(fps, field, from) is None,
    decreases fps.len() - from,
{
    if from < fps.len() {
        assert(fps[from].field != field);
        lemma_no_field_position(fps, field, from + 1);
    }
}

/// A constructor pattern has one subpattern for every field that the
/// constructor declares, in declared order, however the field patterns were
/// written: the extraction of the pattern that is for the field, or the
/// wildcard without binder if none is.
pub proof fn lemma_subpatterns_cover_all_fields(cx: Resolution, fps: Seq<HostFieldPat>, n: nat)
    requires
        fields_fit(fps, n),
    ensures
        extracted_subpatterns(cx, fps, n).value.len() == n,
        forall|j: int|
            0 <= j < fps.len() ==> extracted_subpatterns(cx, fps, n).value[(
            #[trigger] fps[j]).field as int] == extracted_pattern(cx, fps[j].pattern, None).value,
        forall|i: int|
            0 <= i < n && (forall|j: int| 0 <= j < fps.len() ==> (#[trigger] fps[j]).field != i)
                ==> #[trigger] extracted_subpatterns(cx, fps, n).value[i]
                == (SpecPattern::WildcardPattern { binder: None }),
{
    lemma_subpatterns_prefix(cx, fps, n);
}

/// The subpatterns for the first `n` fields.
proof fn lemma_subpatterns_prefix(cx: Resolution, fps: Seq<HostFieldPat>, n: nat)
    requires
        forall|a: int, b: int|
            0 <= a < b < fps.len() ==> (#[trigger] fps[a]).field != (#[trigger] fps[b]).field,
    ensures
        extracted_subpatterns(cx, fps, n).value.len() == n,
        forall|j: int|
            0 <= j < fps.len() && (#[trigger] fps[j]).field < n ==> extracted_subpatterns(
                cx,
                fps,
                n,
            ).value[fps[j].field as int] == extracted_pattern(cx, fps[j].pattern, None).value,
        forall|i: int|
            0 <= i < n && (forall|j: int| 0 <= j < fps.len() ==> (#[trigger] fps[j]).field != i)
                ==> #[trigger] extracted_subpatterns(cx, fps, n).value[i]
                == (SpecPattern::WildcardPattern { binder: None }),
    decreases n,
{
    if n > 0 {
        lemma_subpatterns_prefix(cx, fps, (n - 1) as nat);
        let before = extracted_subpatterns(cx, fps, (n - 1) as nat).value;
        let all = extracted_subpatterns(cx, fps, n).value;
        assert forall|j: int| 0 <= j < fps.len() && (#[trigger] fps[j]).field < n implies all[fps[j].field as int]
            == extracted_pattern(cx, fps[j].pattern, None).value by {
            if fps[j].field == n - 1 {
                lemma_field_position(fps, j, 0);
            } else {
                assert(all[fps[j].field as int] == before[fps[j].field as int]);
            }
        }
        assert forall|i: int|
            0 <= i < n && (forall|j: int|
                0 <= j < fps.len() ==> (#[trigger] fps[j]).field != i) implies #[trigger] all[i]
            == (SpecPattern::WildcardPattern { binder: None }) by {
            if i == n - 1 {
                lemma_no_field_position(fps, i, 0);
            } else {
                assert(all[i] == before[i]);
            }
        }
    }
}

/// The diagnostics that the extraction of one statement reports.
pub open spec fn stmt_diags(cx: Resolution, stmt: HostStmt) -> Seq<Diagnostic> {
    match stmt {
        HostStmt::Expr { expr } => extracted_expr(cx, expr).diags,
        HostStmt::Let { pattern, initializer } => match pattern_var(pattern.kind, false) {
            Err(why) => seq![Diagnostic { span: pattern.span, issue: Issue::LetPattern(why) }],
            Ok(_) => match initializer {
                None => seq![
                    Diagnostic { span: pattern.span, issue: Issue::LetWithoutInitializer },
                ],
                Some(init) => extracted_expr(cx, init).diags,
            },
        },
    }
}

/// Among the statements from position `i` on, the one at position `k`
/// reports one diagnostic and the others report none.
pub open spec fn only_one_reports(cx: Resolution, stmts: Seq<HostStmt>, i: int, k: int) -> bool {
    &&& i <= k < stmts.len() ==> stmt_diags(cx, stmts[k]).len() == 1
    &&& forall|j: int| i <= j < stmts.len() && j != k ==> stmt_diags(cx, #[trigger] stmts[j]).len() == 0
}

/// The statements from position `i` on report what the one statement
/// reports that reports anything.
proof fn lemma_stmts_report_one(
    cx: Resolution,
    stmts: Seq<HostStmt>,
    i: nat,
    acc: Seq<SpecExpr>,
    last: SpecExpr,
    k: int,
)
    requires
        only_one_reports(cx, stmts, i as int, k),
    ensures
        extracted_stmts(cx, stmts, i, acc, last).diags == if i <= k < stmts.len() {
            stmt_diags(cx, stmts[k])
        } else {
            Seq::empty()
        },
    decreases stmts.len() - i,
{
    if i < stmts.len() {
        let here = stmt_diags(cx, stmts[i as int]);
        assert(i != k ==> here.len() == 0);
        match stmts[i as int] {
            HostStmt::Expr { expr } => {
                let x = extracted_expr(cx, expr);
                lemma_stmts_report_one(cx, stmts, i + 1, acc.push(x.value), last, k);
                let rest = extracted_stmts(cx, stmts, i + 1, acc.push(x.value), last).diags;
                if i == k {
                    assert(x.diags + rest =~= x.diags);
                } else {
                    assert(x.diags + rest =~= rest);
                }
            },
            HostStmt::Let { pattern, initializer } => {
                if pattern_var(pattern.kind, false) is Ok && initializer is Some {
                    let x = extracted_expr(cx, initializer->0);
                    lemma_stmts_report_one(cx, stmts, i + 1, Seq::empty(), last, k);
                    let rest = extracted_stmts(cx, stmts, i + 1, Seq::empty(), last).diags;
                    if i == k {
                        assert(x.diags + rest =~= x.diags);
                    } else {
                        assert(x.diags + rest =~= rest);
                    }
                } else {
                    assert(here.len() == 1);
                }
            },
        }
    }
}

/// A statement that cannot be extracted costs its block one diagnostic:
/// where one statement of a block reports one diagnostic, and neither
/// another statement nor the block's value reports any, the block reports
/// that one diagnostic and no other.
pub proof fn lemma_unsupported_statement_is_isolated(cx: Resolution, block: HostBlock, k: int)
    requires
        0 <= k < block.stmts@.len(),
        only_one_reports(cx, block.stmts@, 0, k),
        block.expr matches Some(e) ==> extracted_expr(cx, *e).diags.len() == 0,
    ensures
        extracted_block(cx, block).diags == stmt_diags(cx, block.stmts@[k]),
        extracted_block(cx, block).diags.len() == 1,
{
    let last = match block.expr {
        Some(e) => extracted_expr(cx, *e),
        None => plain(SpecExpr::UnitLiteral),
    };
    lemma_stmts_report_one(cx, block.stmts@, 0, Seq::empty(), last.value, k);
    let r = extracted_stmts(cx, block.stmts@, 0, Seq::empty(), last.value);
    assert(last.diags + r.diags =~= r.diags);
}

/// What one statement contributes to its block.
pub enum Item {
    /// An expression, evaluated for its effect.
    Plain { expr: SpecExpr },
    /// The binding of a variable to a value.
    Bind { vd: SpecVariable, value: SpecExpr },
    /// A binding that cannot be extracted.
    Failed,
}

/// What a statement contributes to its block: it depends on the statement
/// alone, not on the statements around it.
pub open spec fn item_of(cx: Resolution, stmt: HostStmt) -> Item {
    match stmt {
        HostStmt::Expr { expr } => Item::Plain { expr: extracted_expr(cx, expr).value },
        HostStmt::Let { pattern, initializer } => match pattern_var(pattern.kind, false) {
            Err(_) => Item::Failed,
            Ok(var) => match initializer {
                None => Item::Failed,
                Some(init) => Item::Bind {
                    vd: cx.vars[var],
                    value: extracted_expr(cx, init).value,
                },
            },
        },
    }
}

/// The block that is made of the items from position `i` on, in front of
/// its value `last`, where `acc` holds the expressions since the last
/// binding.
pub open spec fn assembled(items: Seq<Item>, i: nat, acc: Seq<SpecExpr>, last: SpecExpr) -> SpecExpr
    decreases items.len() - i,
{
    if i >= items.len() {
        finish(acc, last)
    } else {
        match items[i as int] {
            Item::Plain { expr } => assembled(items, i + 1, acc.push(expr), last),
            Item::Bind { vd, value } => finish(
                acc,
                SpecExpr::Let {
                    vd,
                    value: Box::new(value),
                    body: Box::new(assembled(items, i + 1, Seq::empty(), last)),
                },
            ),
            Item::Failed => finish(acc, no_tree()),
        }
    }
}

/// The statements of a block are extracted one by one: the block is
/// assembled from what each statement contributes by itself. So a statement
/// that cannot be extracted leaves the extraction of the others as it is.
pub proof fn lemma_statements_are_extracted_one_by_one(
    cx: Resolution,
    stmts: Seq<HostStmt>,
    i: nat,
    acc: Seq<SpecExpr>,
    last: SpecExpr,
)
    ensures
        extracted_stmts(cx, stmts, i, acc, last).value == assembled(
            Seq::new(stmts.len(), |j: int| item_of(cx, stmts[j])),
            i,
            acc,
            last,
        ),
    decreases stmts.len() - i,
{
    let items = Seq::new(stmts.len(), |j: int| item_of(cx, stmts[j]));
    if i < stmts.len() {
        assert(items[i as int] == item_of(cx, stmts[i as int]));
        match stmts[i as int] {
            HostStmt::Expr { expr } => {
                lemma_statements_are_extracted_one_by_one(
                    cx,
                    stmts,
                    i + 1,
                    acc.push(extracted_expr(cx, expr).value),
                    last,
                );
            },
            HostStmt::Let { pattern, initializer } => {
                if pattern_var(pattern.kind, false) is Ok && initializer is Some {
                    lemma_statements_are_extracted_one_by_one(
                        cx,
                        stmts,
                        i + 1,
                        Seq::empty(),
                        last,
                    );
                }
            },
        }
    }
}

/// Whether the field at index `a` comes before the one at index `b` in
/// declared order: its position is lower or, where the positions are the
/// same, it was written first.
pub open spec fn comes_before(fields: Seq<HostFieldExpr>, a: usize, b: usize) -> bool {
    fields[a as int].name < fields[b as int].name || (fields[a as int].name
        == fields[b as int].name && a < b)
}

/// Whether every index in the sequence comes before those behind it.
pub open spec fn in_declared_order(fields: Seq<HostFieldExpr>, order: Seq<usize>) -> bool {
    forall|i: int, j: int|
        0 <= i < j < order.len() ==> comes_before(fields, #[trigger] order[i], #[trigger] order[j])
}

proof fn lemma_insert_field_in_order(fields: Seq<HostFieldExpr>, order: Seq<usize>, j: usize)
    requires
        in_declared_order(fields, order),
        forall|i: int| 0 <= i < order.len() ==> (#[trigger] order[i]) < j,
    ensures
        in_declared_order(fields, insert_field(fields, order, j)),
        insert_field(fields, order, j).len() == order.len() + 1,
        forall|x: usize| #[trigger]
            insert_field(fields, order, j).contains(x) <==> order.contains(x) || x == j,
    decreases order.len(),
{
    let result = insert_field(fields, order, j);
    if order.len() == 0 {
        assert(result =~= seq![j]);
        assert forall|x: usize| #[trigger] result.contains(x) <==> order.contains(x) || x == j by {
            assert(result[0] == j);
        }
    } else if fields[order.last() as int].name <= fields[j as int].name {
        assert forall|a: int, b: int| 0 <= a < b < result.len() implies comes_before(
            fields,
            #[trigger] result[a],
            #[trigger] result[b],
        ) by {
            if b == order.len() {
                assert(result[a] == order[a]);
                if a < order.len() - 1 {
                    assert(comes_before(fields, order[a], order[order.len() - 1]));
                }
            } else {
                assert(result[a] == order[a] && result[b] == order[b]);
            }
        }
        assert forall|x: usize| #[trigger] result.contains(x) <==> order.contains(x) || x == j by {
            assert(result[order.len() as int] == j);
            if order.contains(x) {
                let i = choose|i: int| 0 <= i < order.len() && order[i] == x;
                assert(result[i] == x);
            }
            if result.contains(x) {
                let i = choose|i: int| 0 <= i < result.len() && result[i] == x;
                if i < order.len() {
                    assert(order[i] == x);
                }
            }
        }
    } else {
        let front = order.drop_last();
        assert forall|a: int, b: int| 0 <= a < b < front.len() implies comes_before(
            fields,
            #[trigger] front[a],
            #[trigger] front[b],
        ) by {
            assert(front[a] == order[a] && front[b] == order[b]);
        }
        assert forall|i: int| 0 <= i < front.len() implies (#[trigger] front[i]) < j by {
            assert(front[i] == order[i]);
        }
        lemma_insert_field_in_order(fields, front, j);
        let inner = insert_field(fields, front, j);
        assert(result == inner.push(order.last()));
        assert forall|a: int, b: int| 0 <= a < b < result.len() implies comes_before(
            fields,
            #[trigger] result[a],
            #[trigger] result[b],
        ) by {
            if b == inner.len() {
                assert(inner.contains(inner[a]));
                if inner[a] == j {
                } else {
                    assert(front.contains(inner[a]));
                    let i = choose|i: int| 0 <= i < front.len() && front[i] == inner[a];
                    assert(order[i] == inner[a]);
                    assert(comes_before(fields, order[i], order[order.len() - 1]));
                }
            } else {
                assert(result[a] == inner[a] && result[b] == inner[b]);
            }
        }
        assert forall|x: usize| #[trigger] result.contains(x) <==> order.contains(x) || x == j by {
            assert(result[inner.len() as int] == order.last());
            if order.contains(x) {
                let i = choose|i: int| 0 <= i < order.len() && order[i] == x;
                if i < front.len() {
                    assert(front[i] == x);
                    assert(front.contains(x));
                    assert(inner.contains(x));
                    let k = choose|k: int| 0 <= k < inner.len() && inner[k] == x;
                    assert(result[k] == x);
                }
            }
            if x == j {
                assert(inner.contains(j));
                let k = choose|k: int| 0 <= k < inner.len() && inner[k] == j;
                assert(result[k] == j);
            }
            if result.contains(x) {
                let i = choose|i: int| 0 <= i < result.len() && result[i] == x;
                if i < inner.len() {
                    assert(inner[i] == x);
                    assert(inner.contains(x));
                    if front.contains(x) {
                        let k = choose|k: int| 0 <= k < front.len() && front[k] == x;
                        assert(order[k] == x);
                    }
                } else {
                    assert(order[order.len() - 1] == x);
                }
            }
        }
    }
}

/// The fields of a record construction are extracted in declared order:
/// every field once, a field of a lower position before one of a higher
/// position and, of two fields of the same position, the one first that was
/// written first.
pub proof fn lemma_fields_are_in_declared_order(fields: Seq<HostFieldExpr>, n: nat)
    requires
        n <= fields.len() <= usize::MAX,
    ensures
        in_declared_order(fields, field_order(fields, n)),
        field_order(fields, n).len() == n,
        forall|x: usize| #[trigger] field_order(fields, n).contains(x) <==> x < n,
    decreases n,
{
    if n > 0 {
        let before = field_order(fields, (n - 1) as nat);
        lemma_fields_are_in_declared_order(fields, (n - 1) as nat);
        assert forall|i: int| 0 <= i < before.len() implies (#[trigger] before[i]) < (n
            - 1) as usize by {
            assert(before.contains(before[i]));
        }
        lemma_insert_field_in_order(fields, before, (n - 1) as usize);
        assert forall|x: usize| #[trigger] field_order(fields, n).contains(x) <==> x < n by {
            assert(before.contains(x) <==> x < n - 1);
        }
    } else {
        assert forall|x: usize| #[trigger] field_order(fields, n).contains(x) <==> x < n by {
            if field_order(fields, n).contains(x) {
                let i = choose|i: int| 0 <= i < field_order(fields, n).len() && field_order(
                    fields,
                    n,
                )[i] == x;
            }
        }
    }
}

/// No two identifiers of a session are the same: of two identifiers issued
/// one after the other, the second has the next global id, and where they
/// have the same name, it has the next local id.
pub proof fn lemma_identifiers_are_unique(
    state: ExtractionState,
    name: Seq<char>,
    path: Seq<Seq<char>>,
    next_name: Seq<char>,
    next_path: Seq<Seq<char>>,
)
    requires
        0 <= state.issued < Int::MAX - 1,
        state.issued_by_name.dom().contains(name),
        state.issued_by_name.dom().contains(next_name),
        0 <= state.issued_by_name[name] < Int::MAX - 1,
    ensures
        ({
            let first = next_id(state, name, path);
            let second = next_id(after_issue(state, name), next_name, next_path);
            &&& second.id.global_id == first.id.global_id + 1
            &&& next_name == name ==> second.id.id == first.id.id + 1
            &&& next_name != name ==> second.id.id == state.issued_by_name[next_name] as Int
        }),
{
}

} // verus!
