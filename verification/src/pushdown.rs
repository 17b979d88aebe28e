//! What a pushed filter means on a row, and why pushing it is safe.
//!
//! Postgres rechecks every qual on the rows the foreign scan returns, so the
//! renderer's one obligation is never to push a filter that keeps *fewer*
//! rows than the quals. The two engines read NULL differently:
//!
//! - Postgres reads a predicate in three-valued logic ([`pg_truth`]): a
//!   comparison with NULL is UNKNOWN, `AND` / `OR` are Kleene's, and a row is
//!   kept only when the predicate is TRUE.
//! - DBISAM reads the rendered text in two values ([`db_truth`]): `NULL <> x`
//!   and `NULL NOT IN (...)` are TRUE, the other comparisons, `IN` and
//!   `LIKE` are FALSE on NULL, and `IS [NOT] NULL` tests the null flag. The
//!   `AND col IS NOT NULL` guard on `<>` / `NOT IN` is what brings those two
//!   back to the Postgres result.
//!
//! A [`RowModel`] gives a row's column values and the comparisons both
//! engines share on non-NULL values. The laws: the pushed text is TRUE under
//! DBISAM whenever the predicate is TRUE under Postgres (a superset of rows);
//! for a fully pushed predicate the two agree (what makes `TOP n` safe); and
//! the predicate a qual maps to is TRUE exactly when the qual is.

use vstd::prelude::*;
use crate::quals::{
    cell_scalar, cells_scalars, lemma_like_prefix_roundtrip, spec_cmp_op, spec_qual_to_pred, Cell,
    Qual, Value,
};
use crate::sql::{and_parts, and_text, leaf_view, or_parts, CmpOp, ColView, LeafView, Pred, ScalarView};

verus! {

/// One row of a table, as both engines see it.
pub struct RowModel {
    /// The value of each column by name; `None` is NULL.
    pub value: spec_fn(Seq<char>) -> Option<ScalarView>,
    /// `v OP s` on a non-NULL value, as both engines evaluate it.
    pub compare: spec_fn(ScalarView, CmpOp, ScalarView) -> bool,
    /// `LEFT(v, n)` on a non-NULL value.
    pub left: spec_fn(ScalarView, u32) -> ScalarView,
    /// `v LIKE pattern` on a non-NULL value, for a pattern whose only
    /// wildcard is a trailing `%` (read alike by both engines).
    pub like: spec_fn(ScalarView, Seq<char>) -> bool,
    /// The Postgres truth of each unfoldable node, by its position in the
    /// predicate tree (the child indices from the root).
    pub fallback: spec_fn(Seq<int>) -> Option<bool>,
}

/// `<>` is the negation of `=` on non-NULL values.
pub open spec fn consistent(m: RowModel) -> bool {
    forall|a: ScalarView, b: ScalarView|
        #[trigger] (m.compare)(a, CmpOp::Ne, b) == !(m.compare)(a, CmpOp::Eq, b)
}

/// The column a column expression reads.
pub open spec fn col_name(c: ColView) -> Seq<char> {
    match c {
        ColView::Col(n) => n,
        ColView::Left(n, _) => n,
    }
}

/// The value of a column expression on the row; NULL when the column is.
pub open spec fn col_value(c: ColView, m: RowModel) -> Option<ScalarView> {
    match c {
        ColView::Col(n) => (m.value)(n),
        ColView::Left(n, k) => match (m.value)(n) {
            Some(v) => Some((m.left)(v, k)),
            None => None,
        },
    }
}

/// `v` equals one of `vs`.
pub open spec fn member(v: ScalarView, vs: Seq<ScalarView>, m: RowModel) -> bool {
    exists|i: int| 0 <= i < vs.len() && (m.compare)(v, CmpOp::Eq, #[trigger] vs[i])
}

/// Kleene conjunction (`None` is UNKNOWN).
pub open spec fn and3(a: Option<bool>, b: Option<bool>) -> Option<bool> {
    if a == Some(false) || b == Some(false) {
        Some(false)
    } else if a == Some(true) && b == Some(true) {
        Some(true)
    } else {
        None
    }
}

/// Kleene disjunction (`None` is UNKNOWN).
pub open spec fn or3(a: Option<bool>, b: Option<bool>) -> Option<bool> {
    if a == Some(true) || b == Some(true) {
        Some(true)
    } else if a == Some(false) && b == Some(false) {
        Some(false)
    } else {
        None
    }
}

/// The Postgres (ANSI, three-valued) truth of a leaf on the row.
pub open spec fn leaf_truth(l: LeafView, m: RowModel) -> Option<bool> {
    match l {
        LeafView::Compare(c, op, s) => match col_value(c, m) {
            Some(v) => Some((m.compare)(v, op, s)),
            None => None,
        },
        LeafView::In(c, vs, negated) => if vs.len() == 0 {
            Some(negated)
        } else {
            match col_value(c, m) {
                Some(v) => Some(member(v, vs, m) != negated),
                None => None,
            }
        },
        LeafView::IsNull(n, negated) => Some(((m.value)(n) is None) != negated),
        LeafView::LikePrefix(n, prefix) => match (m.value)(n) {
            Some(v) => Some((m.like)(v, prefix.push('%'))),
            None => None,
        },
        _ => None,
    }
}

/// The Postgres truth of a predicate tree at position `path`.
pub open spec fn pg_truth(p: Pred, m: RowModel, path: Seq<int>) -> Option<bool>
    decreases p,
{
    match p {
        Pred::And(cs) => pg_and(cs@, m, path),
        Pred::Or(cs) => pg_or(cs@, m, path),
        Pred::Unsupported => (m.fallback)(path),
        _ => leaf_truth(leaf_view(p), m),
    }
}

/// The Kleene conjunction of the members of `cs` (children of `path`).
pub open spec fn pg_and(cs: Seq<Pred>, m: RowModel, path: Seq<int>) -> Option<bool>
    decreases cs,
{
    if cs.len() == 0 {
        Some(true)
    } else {
        and3(pg_and(cs.drop_last(), m, path), pg_truth(cs.last(), m, path.push(cs.len() - 1)))
    }
}

/// The Kleene disjunction of the members of `cs` (children of `path`).
pub open spec fn pg_or(cs: Seq<Pred>, m: RowModel, path: Seq<int>) -> Option<bool>
    decreases cs,
{
    if cs.len() == 0 {
        Some(false)
    } else {
        or3(pg_or(cs.drop_last(), m, path), pg_truth(cs.last(), m, path.push(cs.len() - 1)))
    }
}

/// DBISAM's reading of a bare comparison `col OP s`: on NULL, `<>` is TRUE
/// and every other operator FALSE.
pub open spec fn db_compare(c: ColView, op: CmpOp, s: ScalarView, m: RowModel) -> bool {
    match col_value(c, m) {
        Some(v) => (m.compare)(v, op, s),
        None => op == CmpOp::Ne,
    }
}

/// DBISAM's reading of a bare `col [NOT] IN (...)`: on NULL, `NOT IN` is
/// TRUE and `IN` FALSE.
pub open spec fn db_in(c: ColView, vs: Seq<ScalarView>, negated: bool, m: RowModel) -> bool {
    match col_value(c, m) {
        Some(v) => member(v, vs, m) != negated,
        None => negated,
    }
}

/// DBISAM's reading of `col IS NOT NULL`.
pub open spec fn db_not_null(n: Seq<char>, m: RowModel) -> bool {
    (m.value)(n) is Some
}

/// DBISAM's reading of the text rendered for a leaf, guard included.
pub open spec fn db_leaf(l: LeafView, m: RowModel) -> bool {
    match l {
        LeafView::Compare(c, op, s) => if op == CmpOp::Ne {
            db_compare(c, op, s, m) && db_not_null(col_name(c), m)
        } else {
            db_compare(c, op, s, m)
        },
        LeafView::In(c, vs, negated) => if negated {
            db_in(c, vs, negated, m) && db_not_null(col_name(c), m)
        } else {
            db_in(c, vs, negated, m)
        },
        LeafView::IsNull(n, negated) => ((m.value)(n) is None) != negated,
        LeafView::LikePrefix(n, prefix) => match (m.value)(n) {
            Some(v) => (m.like)(v, prefix.push('%')),
            None => false,
        },
        _ => false,
    }
}

/// DBISAM's reading of the text `p.spec_render()` spells out (meaningful
/// when it is `Some`): a rendered `AND` is the conjunction of its rendered
/// members, a rendered `OR` the disjunction of all its members.
pub open spec fn db_truth(p: Pred, m: RowModel) -> bool
    decreases p,
{
    match p {
        Pred::And(cs) => db_and(cs@, m),
        Pred::Or(cs) => db_or(cs@, m),
        _ => db_leaf(leaf_view(p), m),
    }
}

/// DBISAM's reading of the conjunction of the rendered members of `cs`; for
/// a list of quals, of the text `render_where` returns.
pub open spec fn db_and(cs: Seq<Pred>, m: RowModel) -> bool
    decreases cs,
{
    if cs.len() == 0 {
        true
    } else {
        db_and(cs.drop_last(), m) && (cs.last().spec_render() is Some ==> db_truth(cs.last(), m))
    }
}

/// DBISAM's reading of the disjunction of the members of `cs`.
pub open spec fn db_or(cs: Seq<Pred>, m: RowModel) -> bool
    decreases cs,
{
    if cs.len() == 0 {
        false
    } else {
        db_or(cs.drop_last(), m) || db_truth(cs.last(), m)
    }
}

/// `p` is pushed whole: no conjunct is dropped and nothing falls back.
pub open spec fn exact(p: Pred) -> bool
    decreases p,
{
    match p {
        Pred::Compare { .. } => true,
        Pred::In { values, .. } => values@.len() > 0,
        Pred::IsNull { .. } => true,
        Pred::LikePrefix { .. } => true,
        Pred::And(cs) => all_exact(cs@),
        Pred::Or(cs) => cs@.len() > 0 && all_exact(cs@),
        Pred::Unsupported => false,
    }
}

/// Every member of `cs` is pushed whole.
pub open spec fn all_exact(cs: Seq<Pred>) -> bool
    decreases cs,
{
    if cs.len() == 0 {
        true
    } else {
        all_exact(cs.drop_last()) && exact(cs.last())
    }
}

/// Whether `p` is pushed whole by [`Pred::render`].
pub fn fully_pushed(p: &Pred) -> (r: bool)
    ensures
        r == exact(*p),
    decreases p,
{
    match p {
        Pred::Compare { .. } => true,
        Pred::In { values, .. } => values.len() > 0,
        Pred::IsNull { .. } => true,
        Pred::LikePrefix { .. } => true,
        Pred::And(cs) => all_fully_pushed(cs.as_slice()),
        Pred::Or(cs) => cs.len() > 0 && all_fully_pushed(cs.as_slice()),
        Pred::Unsupported => false,
    }
}

/// Whether every predicate of `cs` is pushed whole: then the rendered
/// `WHERE` keeps exactly the rows the quals keep, and a trailing `TOP n`
/// caps the right count.
pub fn all_fully_pushed(cs: &[Pred]) -> (r: bool)
    ensures
        r == all_exact(cs@),
    decreases cs@,
{
    let n = cs.len();
    let mut i: usize = 0;
    while i < n
        invariant
            n == cs@.len(),
            i <= n,
            all_exact(cs@.take(i as int)),
        decreases n - i,
    {
        assert(cs@.take(i + 1).drop_last() =~= cs@.take(i as int));
        if !fully_pushed(&cs[i]) {
            proof {
                lemma_all_exact_prefix(cs@, i + 1);
            }
            return false;
        }
        i = i + 1;
    }
    assert(cs@.take(n as int) =~= cs@);
    true
}

proof fn lemma_all_exact_prefix(cs: Seq<Pred>, k: int)
    requires
        0 <= k <= cs.len(),
        !all_exact(cs.take(k)),
    ensures
        !all_exact(cs),
    decreases cs.len() - k,
{
    if k < cs.len() {
        assert(cs.take(k + 1).drop_last() =~= cs.take(k));
        lemma_all_exact_prefix(cs, k + 1);
    } else {
        assert(cs.take(k) =~= cs);
    }
}

/// Pushdown keeps a superset of rows: whenever a predicate is TRUE on a row
/// under Postgres, the text rendered for it is TRUE on that row under
/// DBISAM, so the Postgres recheck can only remove rows, never miss one.
/// (The NULL guard keeps `<>` / `NOT IN` from letting NULLs through; dropping
/// unfoldable conjuncts widens an `AND`; an `OR` is pushed only whole.)
pub proof fn lemma_pushdown_superset(p: Pred, m: RowModel, path: Seq<int>)
    requires
        p.spec_render() is Some,
        pg_truth(p, m, path) == Some(true),
    ensures
        db_truth(p, m),
    decreases p,
{
    match p {
        Pred::And(cs) => {
            lemma_superset_and(cs@, m, path);
        },
        Pred::Or(cs) => {
            lemma_superset_or(cs@, m, path);
        },
        _ => {},
    }
}

proof fn lemma_superset_and(cs: Seq<Pred>, m: RowModel, path: Seq<int>)
    requires
        pg_and(cs, m, path) == Some(true),
    ensures
        db_and(cs, m),
    decreases cs,
{
    if cs.len() > 0 {
        lemma_superset_and(cs.drop_last(), m, path);
        if cs.last().spec_render() is Some {
            lemma_pushdown_superset(cs.last(), m, path.push(cs.len() - 1));
        }
    }
}

proof fn lemma_superset_or(cs: Seq<Pred>, m: RowModel, path: Seq<int>)
    requires
        or_parts(cs) is Some,
        pg_or(cs, m, path) == Some(true),
    ensures
        db_or(cs, m),
    decreases cs,
{
    if cs.len() > 0 {
        if pg_or(cs.drop_last(), m, path) == Some(true) {
            lemma_superset_or(cs.drop_last(), m, path);
        } else {
            lemma_pushdown_superset(cs.last(), m, path.push(cs.len() - 1));
        }
    }
}

/// A fully pushed predicate is pushed exactly: the rendered text is TRUE
/// under DBISAM on precisely the rows where the predicate is TRUE under
/// Postgres, and a predicate that renders to nothing is TRUE on every row.
pub proof fn lemma_exact_pushdown(p: Pred, m: RowModel, path: Seq<int>)
    requires
        exact(p),
    ensures
        p.spec_render() is Some ==> (db_truth(p, m) == (pg_truth(p, m, path) == Some(true))),
        p.spec_render() is None ==> pg_truth(p, m, path) == Some(true),
    decreases p,
{
    match p {
        Pred::And(cs) => {
            lemma_exact_and(cs@, m, path);
        },
        Pred::Or(cs) => {
            lemma_exact_or(cs@, m, path);
        },
        _ => {},
    }
}

proof fn lemma_exact_and(cs: Seq<Pred>, m: RowModel, path: Seq<int>)
    requires
        all_exact(cs),
    ensures
        db_and(cs, m) == (pg_and(cs, m, path) == Some(true)),
        and_parts(cs).len() == 0 ==> pg_and(cs, m, path) == Some(true),
    decreases cs,
{
    if cs.len() > 0 {
        lemma_exact_and(cs.drop_last(), m, path);
        lemma_exact_pushdown(cs.last(), m, path.push(cs.len() - 1));
    }
}

proof fn lemma_exact_or(cs: Seq<Pred>, m: RowModel, path: Seq<int>)
    requires
        all_exact(cs),
    ensures
        or_parts(cs) is Some ==> db_or(cs, m) == (pg_or(cs, m, path) == Some(true)),
        or_parts(cs) is None ==> pg_or(cs, m, path) == Some(true),
    decreases cs,
{
    if cs.len() > 0 {
        lemma_exact_or(cs.drop_last(), m, path);
        lemma_exact_pushdown(cs.last(), m, path.push(cs.len() - 1));
    }
}

/// For the top-level quals (implicitly AND-ed): on a row where every qual is
/// TRUE under Postgres, the `WHERE` text of `render_where` is TRUE under
/// DBISAM; and when every qual is pushed whole, that text is TRUE exactly on
/// the rows where every qual is.
pub proof fn lemma_where_pushdown(quals: Seq<Pred>, m: RowModel)
    ensures
        (forall|i: int|
            0 <= i < quals.len() ==> pg_truth(quals[i], m, Seq::<int>::empty().push(i)) == Some(
                true,
            )) ==> db_and(quals, m),
        all_exact(quals) ==> (db_and(quals, m) <==> forall|i: int|
            0 <= i < quals.len() ==> pg_truth(quals[i], m, Seq::<int>::empty().push(i)) == Some(
                true,
            )),
        and_text(and_parts(quals)) is None && all_exact(quals) ==> forall|i: int|
            0 <= i < quals.len() ==> pg_truth(quals[i], m, Seq::<int>::empty().push(i)) == Some(
                true,
            ),
{
    lemma_pg_and_all(quals, m, Seq::empty());
    if forall|i: int|
        0 <= i < quals.len() ==> pg_truth(quals[i], m, Seq::<int>::empty().push(i)) == Some(true) {
        lemma_superset_and(quals, m, Seq::empty());
    }
    if all_exact(quals) {
        lemma_exact_and(quals, m, Seq::empty());
    }
}

/// A Kleene conjunction is TRUE exactly when every member is.
proof fn lemma_pg_and_all(cs: Seq<Pred>, m: RowModel, path: Seq<int>)
    ensures
        (pg_and(cs, m, path) == Some(true)) <==> forall|i: int|
            0 <= i < cs.len() ==> pg_truth(cs[i], m, path.push(i)) == Some(true),
    decreases cs,
{
    if cs.len() > 0 {
        let init = cs.drop_last();
        lemma_pg_and_all(init, m, path);
        assert forall|i: int| 0 <= i < init.len() implies #[trigger] init[i] == cs[i] by {}
    }
}

/// The value a Postgres cell holds, for the kinds that have an exact DBISAM
/// literal; `None` for the others (numerics, intervals, JSON, bytes, ...)
/// and for a timestamp with a fractional second.
pub open spec fn cell_value(c: Cell) -> Option<ScalarView> {
    match c {
        Cell::String(s) => Some(ScalarView::Text(s@)),
        Cell::Bool(b) => Some(ScalarView::Bool(b)),
        Cell::I8(n) => Some(ScalarView::Int(n as int)),
        Cell::I16(n) => Some(ScalarView::Int(n as int)),
        Cell::I32(n) => Some(ScalarView::Int(n as int)),
        Cell::I64(n) => Some(ScalarView::Int(n as int)),
        Cell::Float(t) => Some(ScalarView::Float(t@)),
        Cell::Date { y, m, d } => Some(ScalarView::Date { y: y as int, m: m as int, d: d as int }),
        Cell::Timestamp { y, mo, d, h, mi, s, whole_second } => if whole_second {
            Some(
                ScalarView::Timestamp {
                    y: y as int,
                    mo: mo as int,
                    d: d as int,
                    h: h as int,
                    mi: mi as int,
                    s: s as int,
                },
            )
        } else {
            None
        },
        Cell::Other => None,
    }
}

/// The values of an array of cells, or `None` if one has no exact literal.
pub open spec fn cells_values(cs: Seq<Cell>) -> Option<Seq<ScalarView>> {
    if forall|i: int| 0 <= i < cs.len() ==> (#[trigger] cell_value(cs[i])) is Some {
        Some(cs.map_values(|c: Cell| cell_value(c).unwrap()))
    } else {
        None
    }
}

/// A pushed cell keeps its value: the scalar a cell converts to is the value
/// the cell holds, and a cell without an exact literal is not converted.
pub proof fn lemma_cell_keeps_value(c: Cell)
    ensures
        cell_scalar(c) == cell_value(c),
{
}

/// An array is converted element by element, each keeping its value.
pub proof fn lemma_cells_keep_values(cs: Seq<Cell>)
    ensures
        cells_scalars(cs) == cells_values(cs),
{
    assert forall|i: int| 0 <= i < cs.len() implies #[trigger] cell_scalar(cs[i]) == cell_value(cs[i]) by {
        lemma_cell_keeps_value(cs[i]);
    }
    if forall|i: int| 0 <= i < cs.len() ==> (#[trigger] cell_value(cs[i])) is Some {
        assert forall|i: int| 0 <= i < cs.len() implies (#[trigger] cell_scalar(cs[i])) is Some by {
            assert(cell_scalar(cs[i]) == cell_value(cs[i]));
        }
        assert(cs.map_values(|c: Cell| cell_scalar(c).unwrap()) =~= cs.map_values(
            |c: Cell| cell_value(c).unwrap(),
        ));
    } else {
        let k = choose|i: int| 0 <= i < cs.len() && !((#[trigger] cell_value(cs[i])) is Some);
        assert(cell_scalar(cs[k]) == cell_value(cs[k]));
    }
}

/// The Postgres truth of a qual on the row (`None` is UNKNOWN). Quals that
/// never map to a leaf (parameters, boolean tests, other operators, cells that
/// are not pushed) are read as UNKNOWN too.
pub open spec fn qual_truth(q: Qual, m: RowModel) -> Option<bool> {
    let v = (m.value)(q.field@);
    let op = q.operator@;
    if q.parameterised {
        None
    } else if op == "is"@ || op == "is not"@ {
        match q.value {
            Value::Cell(Cell::String(s)) => if s@ == "null"@ {
                Some((v is None) != (op == "is not"@))
            } else {
                None
            },
            _ => None,
        }
    } else {
        match q.value {
            Value::Cell(c) => if op == "~~"@ {
                match c {
                    Cell::String(pat) => match v {
                        Some(x) => Some((m.like)(x, pat@)),
                        None => None,
                    },
                    _ => None,
                }
            } else {
                match (spec_cmp_op(op), cell_value(c)) {
                    (Some(o), Some(s)) => match v {
                        Some(x) => Some((m.compare)(x, o, s)),
                        None => None,
                    },
                    _ => None,
                }
            },
            Value::Array(cells) => match cells_values(cells@) {
                Some(vs) => if op == "="@ && q.use_or {
                    if vs.len() == 0 {
                        Some(false)
                    } else {
                        match v {
                            Some(x) => Some(
                                exists|i: int|
                                    0 <= i < vs.len() && (m.compare)(x, CmpOp::Eq, #[trigger] vs[i]),
                            ),
                            None => None,
                        }
                    }
                } else if op == "<>"@ && !q.use_or {
                    if vs.len() == 0 {
                        Some(true)
                    } else {
                        match v {
                            Some(x) => Some(
                                forall|i: int|
                                    0 <= i < vs.len() ==> (m.compare)(x, CmpOp::Ne, #[trigger] vs[i]),
                            ),
                            None => None,
                        }
                    }
                } else {
                    None
                },
                None => None,
            },
        }
    }
}

/// A qual that is pushed becomes a leaf on its own column (never `LEFT`,
/// never `AND` / `OR`), and that leaf is TRUE, FALSE or UNKNOWN on a row
/// exactly when the qual is.
pub proof fn lemma_qual_to_leaf(q: Qual, m: RowModel)
    requires
        consistent(m),
        spec_qual_to_pred(q) != LeafView::Unsupported,
    ensures
        match spec_qual_to_pred(q) {
            LeafView::Compare(c, _, _) => c == ColView::Col(q.field@),
            LeafView::In(c, _, _) => c == ColView::Col(q.field@),
            LeafView::IsNull(n, _) => n == q.field@,
            LeafView::LikePrefix(n, _) => n == q.field@,
            _ => false,
        },
        leaf_truth(spec_qual_to_pred(q), m) == qual_truth(q, m),
{
    let op = q.operator@;
    if !(op == "is"@ || op == "is not"@) {
        match q.value {
            Value::Cell(c) => {
                lemma_cell_keeps_value(c);
                if op == "~~"@ {
                    if let Cell::String(pat) = c {
                        lemma_like_prefix_roundtrip(Seq::empty(), pat@);
                    }
                }
            },
            Value::Array(cells) => {
                lemma_cells_keep_values(cells@);
                if let Some(vs) = cells_scalars(cells@) {
                    if op == "<>"@ && !q.use_or && vs.len() > 0 {
                        if let Some(x) = (m.value)(q.field@) {
                            let all_ne = forall|i: int|
                                0 <= i < vs.len() ==> (m.compare)(x, CmpOp::Ne, #[trigger] vs[i]);
                            if all_ne {
                                assert forall|i: int|
                                    0 <= i < vs.len() implies !(m.compare)(
                                    x,
                                    CmpOp::Eq,
                                    #[trigger] vs[i],
                                ) by {
                                    assert((m.compare)(x, CmpOp::Ne, vs[i]));
                                }
                            } else {
                                let k = choose|i: int|
                                    0 <= i < vs.len() && !(m.compare)(x, CmpOp::Ne, #[trigger] vs[i]);
                                assert((m.compare)(x, CmpOp::Eq, vs[k]));
                            }
                        }
                    }
                }
            },
        }
    }
}

/// A leaf is pushed whole exactly when it renders.
pub proof fn lemma_leaf_exact_iff_rendered(p: Pred)
    requires
        !(p is And),
        !(p is Or),
    ensures
        exact(p) <==> p.spec_render() is Some,
{
}

/// For the predicates that a list of quals maps to (see
/// [`crate::quals::to_preds`]), all are pushed whole exactly when every one
/// renders: the scan statement then carries `TOP n` exactly when a limit is
/// given and no qual falls back.
pub proof fn lemma_mapped_quals_all_pushed(quals: Seq<Qual>, ps: Seq<Pred>)
    requires
        ps.len() == quals.len(),
        forall|i: int| 0 <= i < quals.len() ==> leaf_view(#[trigger] ps[i]) == spec_qual_to_pred(
            quals[i],
        ),
    ensures
        all_exact(ps) <==> forall|i: int| 0 <= i < ps.len() ==> (#[trigger] ps[i]).spec_render() is Some,
    decreases ps.len(),
{
    if ps.len() > 0 {
        let n = ps.len() - 1;
        lemma_mapped_quals_all_pushed(quals.drop_last(), ps.drop_last());
        assert(leaf_view(ps[n]) == spec_qual_to_pred(quals[n]));
        lemma_leaf_exact_iff_rendered(ps[n]);
        let init = ps.drop_last();
        assert forall|i: int| 0 <= i < n implies #[trigger] init[i] == ps[i] by {}
        if forall|i: int| 0 <= i < ps.len() ==> (#[trigger] ps[i]).spec_render() is Some {
            assert forall|i: int| 0 <= i < init.len() implies (#[trigger] init[i]).spec_render()
                is Some by {
                assert(ps[i].spec_render() is Some);
            }
            assert(ps[n].spec_render() is Some);
        }
        if all_exact(ps) {
            assert forall|i: int| 0 <= i < ps.len() implies (#[trigger] ps[i]).spec_render()
                is Some by {
                if i < n {
                    assert(init[i].spec_render() is Some);
                }
            }
        }
    }
}

} // verus!
