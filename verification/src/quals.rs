//! Adapter: Postgres quals, as the foreign-data-wrapper framework hands them,
//! into [`Pred`] nodes.
//!
//! This is the only place that knows the qual vocabulary. Anything it cannot
//! represent becomes [`Pred::Unsupported`], i.e. Postgres rechecks it after
//! the scan.

use vstd::prelude::*;
use crate::sql::{leaf_view, opt_text, CmpOp, ColExpr, ColView, LeafView, Pred, Scalar, ScalarView};
use crate::text::{push_char, str_eq};

verus! {

/// One value cell of a qual.
///
/// `Float` holds the decimal text of a `real` / `double precision` value as
/// Rust's `f64` `Display` writes it (a `real` is widened to `f64` first).
/// `Date` and `Timestamp` hold the calendar fields; `whole_second` says the
/// timestamp has no fractional second. `Other` stands for every cell kind
/// that is never pushed (numerics, intervals, JSON, bytes, arrays, ...).
#[derive(Debug, Clone, PartialEq)]
pub enum Cell {
    String(String),
    Bool(bool),
    I8(i8),
    I16(i16),
    I32(i32),
    I64(i64),
    Float(String),
    Date { y: i32, m: u32, d: u32 },
    Timestamp { y: i32, mo: u32, d: u32, h: u32, mi: u32, s: u32, whole_second: bool },
    Other,
}

/// The value side of a qual: one cell, or the array of `col = ANY(array)` /
/// `col <> ALL(array)`.
#[derive(Debug, Clone, PartialEq)]
pub enum Value {
    Cell(Cell),
    Array(Vec<Cell>),
}

/// One Postgres restriction clause `field operator value`.
#[derive(Debug, Clone, PartialEq)]
pub struct Qual {
    pub field: String,
    pub operator: String,
    pub value: Value,
    /// `true` for `ANY(array)`, `false` for `ALL(array)`.
    pub use_or: bool,
    /// The value is a query parameter, only known at execution time.
    pub parameterised: bool,
}

/// The scalar a cell pushes as, or `None` for kinds that are not pushed.
pub open spec fn cell_scalar(c: Cell) -> Option<ScalarView> {
    match c {
        Cell::String(s) => Some(ScalarView::Text(s@)),
        Cell::Bool(b) => Some(ScalarView::Bool(b)),
        Cell::I8(n) => Some(ScalarView::Int(n as int)),
        Cell::I16(n) => Some(ScalarView::Int(n as int)),
        Cell::I32(n) => Some(ScalarView::Int(n as int)),
        Cell::I64(n) => Some(ScalarView::Int(n as int)),
        Cell::Float(t) => Some(ScalarView::Float(t@)),
        Cell::Date { y, m, d } => Some(ScalarView::Date { y: y as int, m: m as int, d: d as int }),
        Cell::Timestamp { y, mo, d, h, mi, s, whole_second } => if whole_second {
            Some(
                ScalarView::Timestamp {
                    y: y as int,
                    mo: mo as int,
                    d: d as int,
                    h: h as int,
                    mi: mi as int,
                    s: s as int,
                },
            )
        } else {
            None
        },
        Cell::Other => None,
    }
}

/// The scalars of an array of cells, or `None` if one of them is not pushed.
pub open spec fn cells_scalars(cs: Seq<Cell>) -> Option<Seq<ScalarView>> {
    if forall|i: int| 0 <= i < cs.len() ==> (#[trigger] cell_scalar(cs[i])) is Some {
        Some(cs.map_values(|c: Cell| cell_scalar(c).unwrap()))
    } else {
        None
    }
}

/// Converts a cell to a renderable scalar, or `None` for kinds that are not
/// pushed. Only whole-second timestamps are pushed, so that the
/// `'YYYY-MM-DD HH:MM:SS'` literal is exact, not a truncation.
pub fn cell_to_scalar(c: &Cell) -> (r: Option<Scalar>)
    ensures
        match r {
            Some(s) => cell_scalar(*c) == Some(s@),
            None => cell_scalar(*c) is None,
        },
{
    match c {
        Cell::String(s) => Some(Scalar::Text(s.clone())),
        Cell::Bool(b) => Some(Scalar::Bool(*b)),
        Cell::I8(n) => Some(Scalar::Int(*n as i64)),
        Cell::I16(n) => Some(Scalar::Int(*n as i64)),
        Cell::I32(n) => Some(Scalar::Int(*n as i64)),
        Cell::I64(n) => Some(Scalar::Int(*n)),
        Cell::Float(t) => Some(Scalar::Float(t.clone())),
        Cell::Date { y, m, d } => Some(Scalar::Date { y: *y, m: *m, d: *d }),
        Cell::Timestamp { y, mo, d, h, mi, s, whole_second } => {
            if *whole_second {
                Some(Scalar::Timestamp { y: *y, mo: *mo, d: *d, h: *h, mi: *mi, s: *s })
            } else {
                None
            }
        },
        Cell::Other => None,
    }
}

/// Postgres's `LIKE` wildcards and its escape character.
pub open spec fn is_like_special(c: char) -> bool {
    c == '%' || c == '_' || c == '\\'
}

/// The literal prefix of a pure prefix pattern `abc%`: the pattern ends in
/// `%` and nothing before it is `%`, `_` or `\`.
pub open spec fn spec_like_prefix(pat: Seq<char>) -> Option<Seq<char>> {
    if pat.len() > 0 && pat.last() == '%' && (forall|i: int|
        0 <= i < pat.len() - 1 ==> !is_like_special(#[trigger] pat[i])) {
        Some(pat.drop_last())
    } else {
        None
    }
}

/// If `pat` is a pure prefix pattern (`abc%` with no other `%`/`_`
/// wildcards), returns the literal prefix (`abc`); otherwise `None`.
///
/// `\` is rejected too: it is Postgres's `LIKE` escape, so `abc\%` means the
/// literal string `abc%`, which DBISAM would read differently.
pub fn like_prefix(pat: &str) -> (r: Option<String>)
    ensures
        opt_text(r) == spec_like_prefix(pat@),
{
    let n = pat.unicode_len();
    if n == 0 || pat.get_char(n - 1) != '%' {
        return None;
    }
    let mut out = String::new();
    let mut i: usize = 0;
    while i < n - 1
        invariant
            n == pat@.len(),
            n > 0,
            i <= n - 1,
            out@ == pat@.take(i as int),
            forall|j: int| 0 <= j < i ==> !is_like_special(#[trigger] pat@[j]),
        decreases n - 1 - i,
    {
        let c = pat.get_char(i);
        if c == '%' || c == '_' || c == '\\' {
            assert(is_like_special(pat@[i as int]));
            return None;
        }
        push_char(&mut out, c);
        assert(pat@.take(i + 1) =~= pat@.take(i as int).push(c));
        i = i + 1;
    }
    assert(pat@.take(n - 1) =~= pat@.drop_last());
    Some(out)
}

/// The comparison operator spelled `op`, if it is in the foldable subset.
pub open spec fn spec_cmp_op(op: Seq<char>) -> Option<CmpOp> {
    if op == "="@ {
        Some(CmpOp::Eq)
    } else if op == "<>"@ {
        Some(CmpOp::Ne)
    } else if op == "<"@ {
        Some(CmpOp::Lt)
    } else if op == ">"@ {
        Some(CmpOp::Gt)
    } else if op == "<="@ {
        Some(CmpOp::Le)
    } else if op == ">="@ {
        Some(CmpOp::Ge)
    } else {
        None
    }
}

/// Maps a Postgres operator name to a foldable comparison.
pub fn cmp_op(op: &str) -> (r: Option<CmpOp>)
    ensures
        r == spec_cmp_op(op@),
{
    if str_eq(op, "=") {
        Some(CmpOp::Eq)
    } else if str_eq(op, "<>") {
        Some(CmpOp::Ne)
    } else if str_eq(op, "<") {
        Some(CmpOp::Lt)
    } else if str_eq(op, ">") {
        Some(CmpOp::Gt)
    } else if str_eq(op, "<=") {
        Some(CmpOp::Le)
    } else if str_eq(op, ">=") {
        Some(CmpOp::Ge)
    } else {
        None
    }
}

/// The predicate a qual becomes.
///
/// - A parameterised qual is only known at execution time: unsupported.
/// - `is` / `is not` with the sentinel string `null` is `IS [NOT] NULL`;
///   with any other value it is a boolean test, left to Postgres.
/// - `= ANY(array)` is `IN`, `<> ALL(array)` is `NOT IN`, when every element
///   converts to a scalar.
/// - `~~` (`LIKE`) on a pure prefix pattern is a prefix match.
/// - A foldable comparison operator on a convertible cell is a comparison.
pub open spec fn spec_qual_to_pred(q: Qual) -> LeafView {
    let field = q.field@;
    let op = q.operator@;
    if q.parameterised {
        LeafView::Unsupported
    } else if op == "is"@ || op == "is not"@ {
        match q.value {
            Value::Cell(Cell::String(s)) => if s@ == "null"@ {
                LeafView::IsNull(field, op == "is not"@)
            } else {
                LeafView::Unsupported
            },
            _ => LeafView::Unsupported,
        }
    } else {
        match q.value {
            Value::Array(cells) => match cells_scalars(cells@) {
                Some(vs) => if op == "="@ && q.use_or {
                    LeafView::In(ColView::Col(field), vs, false)
                } else if op == "<>"@ && !q.use_or {
                    LeafView::In(ColView::Col(field), vs, true)
                } else {
                    LeafView::Unsupported
                },
                None => LeafView::Unsupported,
            },
            Value::Cell(c) => if op == "~~"@ {
                match c {
                    Cell::String(s) => match spec_like_prefix(s@) {
                        Some(pre) => LeafView::LikePrefix(field, pre),
                        None => LeafView::Unsupported,
                    },
                    _ => LeafView::Unsupported,
                }
            } else {
                match (spec_cmp_op(op), cell_scalar(c)) {
                    (Some(o), Some(v)) => LeafView::Compare(ColView::Col(field), o, v),
                    _ => LeafView::Unsupported,
                }
            },
        }
    }
}

/// Converts every cell of an array, or `None` if one is not pushed.
fn cells_to_scalars(cells: &Vec<Cell>) -> (r: Option<Vec<Scalar>>)
    ensures
        match r {
            Some(vs) => cells_scalars(cells@) == Some(crate::sql::scalar_views(vs@)),
            None => cells_scalars(cells@) is None,
        },
{
    let mut out: Vec<Scalar> = Vec::new();
    let n = cells.len();
    let mut i: usize = 0;
    while i < n
        invariant
            n == cells@.len(),
            i <= n,
            out@.len() == i,
            forall|j: int| 0 <= j < i ==> cell_scalar(cells@[j]) == Some(#[trigger] out@[j]@),
        decreases n - i,
    {
        match cell_to_scalar(&cells[i]) {
            Some(s) => out.push(s),
            None => {
                assert(cell_scalar(cells@[i as int]) is None);
                return None;
            },
        }
        i = i + 1;
    }
    assert forall|j: int| 0 <= j < cells@.len() implies (#[trigger] cell_scalar(cells@[j])) is Some by {
        assert(cell_scalar(cells@[j]) == Some(out@[j]@));
    }
    assert(cells@.map_values(|c: Cell| cell_scalar(c).unwrap()) =~= crate::sql::scalar_views(
        out@,
    ));
    Some(out)
}

/// Maps one qual to a predicate (see [`spec_qual_to_pred`]).
pub fn qual_to_pred(q: &Qual) -> (p: Pred)
    ensures
        leaf_view(p) == spec_qual_to_pred(*q),
{
    if q.parameterised {
        return Pred::Unsupported;
    }
    let field = q.field.clone();
    let op = q.operator.as_str();
    if str_eq(op, "is") || str_eq(op, "is not") {
        if let Value::Cell(Cell::String(s)) = &q.value {
            if str_eq(s.as_str(), "null") {
                return Pred::IsNull { col: field, negated: str_eq(op, "is not") };
            }
        }
        return Pred::Unsupported;
    }
    match &q.value {
        Value::Array(cells) => {
            let values = match cells_to_scalars(cells) {
                Some(vs) => vs,
                None => return Pred::Unsupported,
            };
            if str_eq(op, "=") && q.use_or {
                Pred::In { col: ColExpr::Col(field), values, negated: false }
            } else if str_eq(op, "<>") && !q.use_or {
                Pred::In { col: ColExpr::Col(field), values, negated: true }
            } else {
                Pred::Unsupported
            }
        },
        Value::Cell(c) => {
            if str_eq(op, "~~") {
                if let Cell::String(s) = c {
                    if let Some(prefix) = like_prefix(s.as_str()) {
                        return Pred::LikePrefix { col: field, prefix };
                    }
                }
                return Pred::Unsupported;
            }
            match (cmp_op(op), cell_to_scalar(c)) {
                (Some(o), Some(value)) => Pred::Compare { left: ColExpr::Col(field), op: o, value },
                _ => Pred::Unsupported,
            }
        },
    }
}

/// Maps a Postgres qual list (implicitly AND-ed) into predicates, one each.
pub fn to_preds(quals: &[Qual]) -> (r: Vec<Pred>)
    ensures
        r@.len() == quals@.len(),
        forall|i: int| 0 <= i < quals@.len() ==> leaf_view(#[trigger] r@[i]) == spec_qual_to_pred(
            quals@[i],
        ),
{
    let mut out: Vec<Pred> = Vec::new();
    let n = quals.len();
    let mut i: usize = 0;
    while i < n
        invariant
            n == quals@.len(),
            i <= n,
            out@.len() == i,
            forall|j: int| 0 <= j < i ==> leaf_view(#[trigger] out@[j]) == spec_qual_to_pred(
                quals@[j],
            ),
        decreases n - i,
    {
        out.push(qual_to_pred(&quals[i]));
        i = i + 1;
    }
    out
}

/// A prefix pattern gives back exactly its prefix, and nothing else is
/// accepted: for a text free of `%`, `_` and `\`, the pattern `text%` is
/// accepted with prefix `text`; every accepted pattern is its prefix
/// followed by `%`, and the prefix holds no `%`, `_` or `\`.
pub proof fn lemma_like_prefix_roundtrip(text: Seq<char>, pat: Seq<char>)
    ensures
        (forall|i: int|
            0 <= i < text.len() ==> #[trigger] text[i] != '%' && text[i] != '_' && text[i] != '\\')
            ==> spec_like_prefix(text.push('%')) == Some(text),
        spec_like_prefix(pat) matches Some(pre) ==> pat == pre.push('%'),
        spec_like_prefix(pat) matches Some(pre) ==> forall|i: int|
            0 <= i < pre.len() ==> #[trigger] pre[i] != '%' && pre[i] != '_' && pre[i] != '\\',
{
    let t = text.push('%');
    assert(t.drop_last() =~= text);
    if forall|i: int|
        0 <= i < text.len() ==> #[trigger] text[i] != '%' && text[i] != '_' && text[i] != '\\' {
        assert forall|i: int| 0 <= i < t.len() - 1 implies !is_like_special(#[trigger] t[i]) by {
            assert(t[i] == text[i]);
        }
    }
    if let Some(pre) = spec_like_prefix(pat) {
        assert(pat.drop_last().push('%') =~= pat);
        assert forall|i: int| 0 <= i < pre.len() implies #[trigger] pre[i] != '%' && pre[i] != '_'
            && pre[i] != '\\' by {
            assert(pre[i] == pat[i]);
            assert(!is_like_special(pat[i]));
        }
    }
}

/// The operator that is pushed is the one Postgres named: an accepted
/// operator name is the SQL spelling of the comparison it maps to, and every
/// comparison's SQL spelling maps back to that comparison.
pub proof fn lemma_cmp_op_roundtrip(op: Seq<char>, o: CmpOp)
    ensures
        spec_cmp_op(op) matches Some(m) ==> m.spec_sql() == op,
        spec_cmp_op(o.spec_sql()) == Some(o),
{
    reveal_strlit("=");
    reveal_strlit("<>");
    reveal_strlit("<");
    reveal_strlit(">");
    reveal_strlit("<=");
    reveal_strlit(">=");
    assert("="@[0] == '=' && "<"@[0] == '<' && ">"@[0] == '>');
    assert("<>"@[0] == '<' && "<>"@[1] == '>' && "<="@[0] == '<' && "<="@[1] == '=');
    assert(">="@[0] == '>' && ">="@[1] == '=');
    assert("="@.len() == 1 && "<"@.len() == 1 && ">"@.len() == 1);
    assert("<>"@.len() == 2 && "<="@.len() == 2 && ">="@.len() == 2);
}

} // verus!
