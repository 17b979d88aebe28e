//! DBISAM 4 SQL render rules: the pushdown contract.
//!
//! Renders the *foldable predicate subset* into a DBISAM `WHERE` expression
//! and refuses everything else by returning `None`, so that Postgres applies
//! it as a local recheck.
//!
//! The four dialect quirks:
//!
//! 1. `TOP n` is trailing: [`top_clause`] is appended after the table.
//! 2. `col <> x` includes NULLs on DBISAM: `<>` and `NOT IN` carry an
//!    `AND col IS NOT NULL` guard to restore ANSI semantics.
//! 3. `LIKE` is prefix-only: only `'abc%'`-shaped patterns are accepted.
//! 4. The other comparisons are ANSI-safe and need no compensation.
//!
//! Column names go out through [`crate::ident::quote_ident`]: plain names
//! bare, every other name double-quoted.
//!
//! `AND` drops unfoldable conjuncts (Postgres rechecks them); `OR` is
//! all-or-nothing, because pushing a subset of disjuncts would narrow the
//! result.

use vstd::prelude::*;
use crate::ident::{push_ident, spec_quote_ident};
use crate::text::{digits_value, is_digit, lemma_dec_nat_spells, lemma_undouble_double, undouble, lemma_join_is_sep_list, sep_list, dec_pad, dec_pad_int, push_i64_padded, push_u64_padded, dec_int, dec_nat, double_char, join, push_char, push_doubled, push_i64, push_join, push_u64, views};

verus! {

/// A scalar literal on the value side of a predicate.
///
/// `Float` carries the decimal text of a floating-point value as Rust's
/// `f64` `Display` writes it; the renderer emits that text unchanged. Dates
/// and whole-second timestamps render as DBISAM's quoted-string literals
/// `'YYYY-MM-DD'` and `'YYYY-MM-DD HH:MM:SS'`.
#[derive(Debug, Clone, PartialEq)]
pub enum Scalar {
    Text(String),
    Int(i64),
    Float(String),
    Bool(bool),
    Date { y: i32, m: u32, d: u32 },
    Timestamp { y: i32, mo: u32, d: u32, h: u32, mi: u32, s: u32 },
}

/// `YYYY-MM-DD`.
pub open spec fn date_text(y: i32, m: u32, d: u32) -> Seq<char> {
    dec_pad_int(y as int, 4) + "-"@ + dec_pad(m as nat, 2) + "-"@ + dec_pad(d as nat, 2)
}

/// `HH:MM:SS`.
pub open spec fn time_text(h: u32, mi: u32, s: u32) -> Seq<char> {
    dec_pad(h as nat, 2) + ":"@ + dec_pad(mi as nat, 2) + ":"@ + dec_pad(s as nat, 2)
}

fn push_date(out: &mut String, y: i32, m: u32, d: u32)
    ensures
        final(out)@ == old(out)@ + date_text(y, m, d),
{
    push_i64_padded(out, y as i64, 4);
    out.append("-");
    push_u64_padded(out, m as u64, 2);
    out.append("-");
    push_u64_padded(out, d as u64, 2);
}

fn push_time(out: &mut String, h: u32, mi: u32, s: u32)
    ensures
        final(out)@ == old(out)@ + time_text(h, mi, s),
{
    push_u64_padded(out, h as u64, 2);
    out.append(":");
    push_u64_padded(out, mi as u64, 2);
    out.append(":");
    push_u64_padded(out, s as u64, 2);
}

/// A quoted SQL string literal: `'` around the text, inner `'` doubled.
pub open spec fn quoted(s: Seq<char>, q: char) -> Seq<char> {
    seq![q] + double_char(s, q) + seq![q]
}

impl Scalar {
    /// The DBISAM literal for this scalar.
    pub open spec fn spec_render(self) -> Seq<char> {
        match self {
            Scalar::Text(s) => quoted(s@, '\''),
            Scalar::Int(n) => dec_int(n as int),
            Scalar::Float(t) => t@,
            Scalar::Bool(b) => if b { "TRUE"@ } else { "FALSE"@ },
            Scalar::Date { y, m, d } => seq!['\''] + date_text(y, m, d) + seq!['\''],
            Scalar::Timestamp { y, mo, d, h, mi, s } => seq!['\''] + date_text(y, mo, d) + " "@
                + time_text(h, mi, s) + seq!['\''],
        }
    }

    /// Appends the DBISAM literal for this scalar to `out`.
    pub fn push_render(&self, out: &mut String)
        ensures
            final(out)@ == old(out)@ + self.spec_render(),
    {
        match self {
            Scalar::Text(s) => {
                push_char(out, '\'');
                push_doubled(out, s.as_str(), '\'');
                push_char(out, '\'');
            },
            Scalar::Int(n) => push_i64(out, *n),
            Scalar::Float(t) => out.append(t.as_str()),
            Scalar::Bool(b) => {
                if *b {
                    out.append("TRUE");
                } else {
                    out.append("FALSE");
                }
            },
            Scalar::Date { y, m, d } => {
                push_char(out, '\'');
                push_date(out, *y, *m, *d);
                push_char(out, '\'');
            },
            Scalar::Timestamp { y, mo, d, h, mi, s } => {
                push_char(out, '\'');
                push_date(out, *y, *mo, *d);
                out.append(" ");
                push_time(out, *h, *mi, *s);
                push_char(out, '\'');
            },
        }
    }

    /// Renders as a DBISAM SQL literal. Text is single-quoted with `'` doubled.
    pub fn render(&self) -> (r: String)
        ensures
            r@ == self.spec_render(),
    {
        let mut out = String::new();
        self.push_render(&mut out);
        out
    }
}

/// The column side of a predicate: a bare column or a whitelisted
/// single-column expression.
#[derive(Debug, Clone, PartialEq)]
pub enum ColExpr {
    /// A bare column reference.
    Col(String),
    /// `LEFT(col, n)`, e.g. `WHERE LEFT(code, 1) IN ('4','6')`.
    Left(String, u32),
}

impl ColExpr {
    pub open spec fn spec_render(self) -> Seq<char> {
        match self {
            ColExpr::Col(c) => spec_quote_ident(c@),
            ColExpr::Left(c, n) => "LEFT("@ + spec_quote_ident(c@) + ", "@ + dec_nat(n as nat) + ")"@,
        }
    }

    /// The underlying column name.
    pub open spec fn spec_column(self) -> Seq<char> {
        match self {
            ColExpr::Col(c) => c@,
            ColExpr::Left(c, _) => c@,
        }
    }

    pub fn push_render(&self, out: &mut String)
        ensures
            final(out)@ == old(out)@ + self.spec_render(),
    {
        match self {
            ColExpr::Col(c) => push_ident(out, c.as_str()),
            ColExpr::Left(c, n) => {
                out.append("LEFT(");
                push_ident(out, c.as_str());
                out.append(", ");
                push_u64(out, *n as u64);
                out.append(")");
            },
        }
    }

    /// The SQL text of the column expression.
    pub fn render(&self) -> (r: String)
        ensures
            r@ == self.spec_render(),
    {
        let mut out = String::new();
        self.push_render(&mut out);
        out
    }

    /// The underlying column name, for building NULL guards.
    pub fn column(&self) -> (r: &str)
        ensures
            r@ == self.spec_column(),
    {
        match self {
            ColExpr::Col(c) => c.as_str(),
            ColExpr::Left(c, _) => c.as_str(),
        }
    }
}

/// Comparison operators in the foldable subset.
#[derive(Debug, Clone, Copy, PartialEq, Eq, Structural)]
pub enum CmpOp {
    Eq,
    Ne,
    Lt,
    Gt,
    Le,
    Ge,
}

impl CmpOp {
    pub open spec fn spec_sql(self) -> Seq<char> {
        match self {
            CmpOp::Eq => "="@,
            CmpOp::Ne => "<>"@,
            CmpOp::Lt => "<"@,
            CmpOp::Gt => ">"@,
            CmpOp::Le => "<="@,
            CmpOp::Ge => ">="@,
        }
    }

    /// The SQL spelling of the operator.
    pub fn sql(self) -> (s: &'static str)
        ensures
            s@ == self.spec_sql(),
    {
        match self {
            CmpOp::Eq => "=",
            CmpOp::Ne => "<>",
            CmpOp::Lt => "<",
            CmpOp::Gt => ">",
            CmpOp::Le => "<=",
            CmpOp::Ge => ">=",
        }
    }
}

/// A predicate node. Anything the adapter cannot represent becomes
/// [`Pred::Unsupported`].
#[derive(Debug, PartialEq)]
#[allow(inconsistent_fields)]
pub enum Pred {
    /// `col OP value`.
    Compare { left: ColExpr, op: CmpOp, value: Scalar },
    /// `col [NOT] IN (v, ...)`.
    In { col: ColExpr, values: Vec<Scalar>, negated: bool },
    /// `col IS [NOT] NULL`.
    IsNull { col: String, negated: bool },
    /// `col LIKE 'prefix%'`; `prefix` is the literal text without the
    /// trailing `%` and holds no wildcards.
    LikePrefix { col: String, prefix: String },
    And(Vec<Pred>),
    Or(Vec<Pred>),
    /// Not foldable: Postgres applies it after the scan.
    Unsupported,
}

/// `(base AND col IS NOT NULL)`: the guard that restores ANSI semantics for
/// `<>` and `NOT IN` on DBISAM.
pub open spec fn null_guard(base: Seq<char>, col: Seq<char>) -> Seq<char> {
    "("@ + base + " AND "@ + spec_quote_ident(col) + " IS NOT NULL)"@
}

/// The text of a comparison before any guard.
pub open spec fn compare_base(left: ColExpr, op: CmpOp, value: Scalar) -> Seq<char> {
    left.spec_render() + " "@ + op.spec_sql() + " "@ + value.spec_render()
}

/// The literals of an `IN` list.
pub open spec fn scalar_texts(values: Seq<Scalar>) -> Seq<Seq<char>> {
    values.map_values(|v: Scalar| v.spec_render())
}

/// The text of an `IN` / `NOT IN` test before any guard.
pub open spec fn in_base(col: ColExpr, values: Seq<Scalar>, negated: bool) -> Seq<char> {
    col.spec_render() + " "@ + (if negated { "NOT IN"@ } else { "IN"@ }) + " ("@ + join(
        scalar_texts(values),
        ", "@,
    ) + ")"@
}

/// The text of a conjunction of rendered parts: nothing for no part, the part
/// itself for one, the parenthesised `AND` chain otherwise.
pub open spec fn and_text(parts: Seq<Seq<char>>) -> Option<Seq<char>> {
    if parts.len() == 0 {
        None
    } else if parts.len() == 1 {
        Some(parts[0])
    } else {
        Some("("@ + join(parts, " AND "@) + ")"@)
    }
}

/// The text of a disjunction of rendered parts.
pub open spec fn or_text(parts: Seq<Seq<char>>) -> Option<Seq<char>> {
    if parts.len() == 0 {
        None
    } else {
        Some("("@ + join(parts, " OR "@) + ")"@)
    }
}

/// The renderings of the foldable members of `cs`, in order.
pub open spec fn and_parts(cs: Seq<Pred>) -> Seq<Seq<char>>
    decreases cs,
{
    if cs.len() == 0 {
        Seq::empty()
    } else {
        let rest = and_parts(cs.drop_last());
        match cs.last().spec_render() {
            Some(t) => rest.push(t),
            None => rest,
        }
    }
}

/// The renderings of all members of `cs`, or `None` if any is unfoldable.
pub open spec fn or_parts(cs: Seq<Pred>) -> Option<Seq<Seq<char>>>
    decreases cs,
{
    if cs.len() == 0 {
        Some(Seq::empty())
    } else {
        match (or_parts(cs.drop_last()), cs.last().spec_render()) {
            (Some(rest), Some(t)) => Some(rest.push(t)),
            _ => None,
        }
    }
}

/// The view of an optional string.
pub open spec fn opt_text(o: Option<String>) -> Option<Seq<char>> {
    match o {
        Some(t) => Some(t@),
        None => None,
    }
}

impl Pred {
    /// The DBISAM boolean expression for this predicate, or `None` if it
    /// cannot be pushed.
    pub open spec fn spec_render(self) -> Option<Seq<char>>
        decreases self,
    {
        match self {
            Pred::Compare { left, op, value } => {
                let base = compare_base(left, op, value);
                if op == CmpOp::Ne {
                    Some(null_guard(base, left.spec_column()))
                } else {
                    Some(base)
                }
            },
            Pred::In { col, values, negated } => {
                if values@.len() == 0 {
                    None
                } else if negated {
                    Some(null_guard(in_base(col, values@, negated), col.spec_column()))
                } else {
                    Some(in_base(col, values@, negated))
                }
            },
            Pred::IsNull { col, negated } => Some(
                spec_quote_ident(col@) + if negated {
                    " IS NOT NULL"@
                } else {
                    " IS NULL"@
                },
            ),
            Pred::LikePrefix { col, prefix } => Some(
                spec_quote_ident(col@) + " LIKE '"@ + double_char(prefix@, '\'') + "%'"@,
            ),
            Pred::And(children) => and_text(and_parts(children@)),
            Pred::Or(children) => match or_parts(children@) {
                Some(parts) => or_text(parts),
                None => None,
            },
            Pred::Unsupported => None,
        }
    }
}

/// `(base AND col IS NOT NULL)`.
fn guarded(base: &str, col: &str) -> (r: String)
    ensures
        r@ == null_guard(base@, col@),
{
    let mut out = String::from_str("(");
    out.append(base);
    out.append(" AND ");
    push_ident(&mut out, col);
    out.append(" IS NOT NULL)");
    out
}

impl Pred {
    /// Renders this predicate to a DBISAM boolean expression, or `None` if it
    /// cannot be pushed (the caller leaves it to Postgres). The result is the
    /// bare expression; the caller prepends `WHERE`.
    pub fn render(&self) -> (r: Option<String>)
        ensures
            opt_text(r) == self.spec_render(),
        decreases self,
    {
        match self {
            Pred::Compare { left, op, value } => {
                let mut base = String::new();
                left.push_render(&mut base);
                base.append(" ");
                base.append(op.sql());
                base.append(" ");
                value.push_render(&mut base);
                match op {
                    CmpOp::Ne => Some(guarded(base.as_str(), left.column())),
                    _ => Some(base),
                }
            },
            Pred::In { col, values, negated } => {
                if values.len() == 0 {
                    return None;
                }
                let mut base = String::new();
                col.push_render(&mut base);
                base.append(" ");
                if *negated {
                    base.append("NOT IN");
                } else {
                    base.append("IN");
                }
                base.append(" (");
                let n = values.len();
                let mut i: usize = 0;
                let ghost start = base@;
                while i < n
                    invariant
                        n == values@.len(),
                        i <= n,
                        base@ == start + join(scalar_texts(values@.take(i as int)), ", "@),
                    decreases n - i,
                {
                    proof {
                        assert(scalar_texts(values@.take(i + 1)) =~= scalar_texts(
                            values@.take(i as int),
                        ).push(values@[i as int].spec_render()));
                        crate::text::lemma_join_push(
                            scalar_texts(values@.take(i as int)),
                            ", "@,
                            values@[i as int].spec_render(),
                        );
                    }
                    if i > 0 {
                        base.append(", ");
                    }
                    values[i].push_render(&mut base);
                    i = i + 1;
                }
                assert(values@.take(n as int) =~= values@);
                base.append(")");
                if *negated {
                    Some(guarded(base.as_str(), col.column()))
                } else {
                    Some(base)
                }
            },
            Pred::IsNull { col, negated } => {
                let mut out = String::new();
                push_ident(&mut out, col.as_str());
                if *negated {
                    out.append(" IS NOT NULL");
                } else {
                    out.append(" IS NULL");
                }
                Some(out)
            },
            Pred::LikePrefix { col, prefix } => {
                let mut out = String::new();
                push_ident(&mut out, col.as_str());
                out.append(" LIKE '");
                push_doubled(&mut out, prefix.as_str(), '\'');
                out.append("%'");
                Some(out)
            },
            Pred::And(children) => render_conjunction(children.as_slice()),
            Pred::Or(children) => render_disjunction(children.as_slice()),
            Pred::Unsupported => None,
        }
    }
}

/// Renders the foldable members of `cs` joined by `AND`; unfoldable members
/// are dropped (Postgres rechecks them).
fn render_conjunction(cs: &[Pred]) -> (r: Option<String>)
    ensures
        opt_text(r) == and_text(and_parts(cs@)),
    decreases cs@,
{
    let mut parts: Vec<String> = Vec::new();
    let n = cs.len();
    let mut i: usize = 0;
    while i < n
        invariant
            n == cs@.len(),
            i <= n,
            views(parts@) == and_parts(cs@.take(i as int)),
        decreases n - i,
    {
        assert(cs@.take(i + 1).drop_last() =~= cs@.take(i as int));
        match cs[i].render() {
            Some(t) => {
                parts.push(t);
                assert(views(parts@) =~= and_parts(cs@.take(i + 1)));
            },
            None => {},
        }
        i = i + 1;
    }
    assert(cs@.take(n as int) =~= cs@);
    if parts.len() == 0 {
        None
    } else if parts.len() == 1 {
        let only = parts.pop();
        match only {
            Some(t) => Some(t),
            None => None,
        }
    } else {
        let mut out = String::from_str("(");
        push_join(&mut out, &parts, " AND ");
        out.append(")");
        Some(out)
    }
}

/// Renders all members of `cs` joined by `OR`, or `None` as soon as one
/// member is unfoldable: a partial `OR` would wrongly narrow the result.
fn render_disjunction(cs: &[Pred]) -> (r: Option<String>)
    ensures
        opt_text(r) == (match or_parts(cs@) {
            Some(parts) => or_text(parts),
            None => None,
        }),
    decreases cs@,
{
    let mut parts: Vec<String> = Vec::new();
    let n = cs.len();
    let mut i: usize = 0;
    while i < n
        invariant
            n == cs@.len(),
            i <= n,
            or_parts(cs@.take(i as int)) == Some(views(parts@)),
        decreases n - i,
    {
        assert(cs@.take(i + 1).drop_last() =~= cs@.take(i as int));
        match cs[i].render() {
            Some(t) => {
                parts.push(t);
                assert(views(parts@) =~= views(parts@).drop_last().push(t@));
            },
            None => {
                proof {
                    lemma_or_parts_none_extends(cs@, i + 1);
                }
                return None;
            },
        }
        i = i + 1;
    }
    assert(cs@.take(n as int) =~= cs@);
    if parts.len() == 0 {
        None
    } else {
        let mut out = String::from_str("(");
        push_join(&mut out, &parts, " OR ");
        out.append(")");
        Some(out)
    }
}

/// Once a prefix of a disjunction is unfoldable, so is the whole.
pub proof fn lemma_or_parts_none_extends(cs: Seq<Pred>, k: int)
    requires
        0 <= k <= cs.len(),
        or_parts(cs.take(k)) is None,
    ensures
        or_parts(cs) is None,
    decreases cs.len() - k,
{
    if k < cs.len() {
        assert(cs.take(k + 1).drop_last() =~= cs.take(k));
        lemma_or_parts_none_extends(cs, k + 1);
    } else {
        assert(cs.take(k) =~= cs);
    }
}

/// Renders a list of top-level quals (implicitly AND-ed, as Postgres hands
/// them) into a single `WHERE` expression, or `None` if none is foldable.
pub fn render_where(quals: &[Pred]) -> (r: Option<String>)
    ensures
        opt_text(r) == and_text(and_parts(quals@)),
        forall|v: Vec<Pred>| v@ == quals@ ==> opt_text(r) == #[trigger] Pred::And(v).spec_render(),
{
    render_conjunction(quals)
}

/// The trailing `TOP n` clause (quirk 1), appended after the table reference:
/// `SELECT ... FROM T WHERE ... TOP n`.
pub fn top_clause(n: u64) -> (r: String)
    ensures
        r@ == "TOP "@ + dec_nat(n as nat),
{
    let mut out = String::from_str("TOP ");
    push_u64(&mut out, n);
    out
}

/// The mathematical value of a [`Scalar`].
pub enum ScalarView {
    Text(Seq<char>),
    Int(int),
    Float(Seq<char>),
    Bool(bool),
    Date { y: int, m: int, d: int },
    Timestamp { y: int, mo: int, d: int, h: int, mi: int, s: int },
}

impl View for Scalar {
    type V = ScalarView;

    open spec fn view(&self) -> ScalarView {
        match self {
            Scalar::Text(s) => ScalarView::Text(s@),
            Scalar::Int(n) => ScalarView::Int(*n as int),
            Scalar::Float(t) => ScalarView::Float(t@),
            Scalar::Bool(b) => ScalarView::Bool(*b),
            Scalar::Date { y, m, d } => ScalarView::Date { y: *y as int, m: *m as int, d: *d as int },
            Scalar::Timestamp { y, mo, d, h, mi, s } => ScalarView::Timestamp {
                y: *y as int,
                mo: *mo as int,
                d: *d as int,
                h: *h as int,
                mi: *mi as int,
                s: *s as int,
            },
        }
    }
}

/// The mathematical value of a [`ColExpr`].
pub enum ColView {
    Col(Seq<char>),
    Left(Seq<char>, u32),
}

impl View for ColExpr {
    type V = ColView;

    open spec fn view(&self) -> ColView {
        match self {
            ColExpr::Col(c) => ColView::Col(c@),
            ColExpr::Left(c, n) => ColView::Left(c@, *n),
        }
    }
}

/// The shape of a predicate node with its leaf payload as values; `And` and
/// `Or` nodes are only told apart from leaves.
pub enum LeafView {
    Compare(ColView, CmpOp, ScalarView),
    In(ColView, Seq<ScalarView>, bool),
    IsNull(Seq<char>, bool),
    LikePrefix(Seq<char>, Seq<char>),
    And,
    Or,
    Unsupported,
}

/// The values of a sequence of scalars.
pub open spec fn scalar_views(values: Seq<Scalar>) -> Seq<ScalarView> {
    values.map_values(|v: Scalar| v@)
}

/// The node shape of `p`.
pub open spec fn leaf_view(p: Pred) -> LeafView {
    match p {
        Pred::Compare { left, op, value } => LeafView::Compare(left@, op, value@),
        Pred::In { col, values, negated } => LeafView::In(col@, scalar_views(values@), negated),
        Pred::IsNull { col, negated } => LeafView::IsNull(col@, negated),
        Pred::LikePrefix { col, prefix } => LeafView::LikePrefix(col@, prefix@),
        Pred::And(_) => LeafView::And,
        Pred::Or(_) => LeafView::Or,
        Pred::Unsupported => LeafView::Unsupported,
    }
}

/// `AND` pushes its foldable members and drops the rest: a conjunction
/// renders to nothing exactly when none of its members renders.
pub proof fn lemma_and_drops_unfoldable(cs: Seq<Pred>)
    ensures
        and_parts(cs).len() <= cs.len(),
        (and_parts(cs).len() == 0) <==> (forall|i: int|
            0 <= i < cs.len() ==> (#[trigger] cs[i].spec_render()) is None),
    decreases cs.len(),
{
    if cs.len() > 0 {
        lemma_and_drops_unfoldable(cs.drop_last());
        if cs.last().spec_render() is None {
            assert forall|i: int| 0 <= i < cs.len() - 1 implies (#[trigger] cs[i].spec_render())
                == cs.drop_last()[i].spec_render() by {}
        }
    }
}

/// `OR` is all-or-nothing: a disjunction renders exactly when it has a
/// member and every member renders.
pub proof fn lemma_or_all_or_nothing(cs: Seq<Pred>)
    ensures
        (or_parts(cs) is Some) <==> (forall|i: int|
            0 <= i < cs.len() ==> (#[trigger] cs[i].spec_render()) is Some),
        or_parts(cs) matches Some(parts) ==> parts.len() == cs.len(),
    decreases cs.len(),
{
    if cs.len() > 0 {
        let init = cs.drop_last();
        lemma_or_all_or_nothing(init);
        if forall|i: int| 0 <= i < cs.len() ==> (#[trigger] cs[i].spec_render()) is Some {
            assert forall|i: int| 0 <= i < init.len() implies (#[trigger] init[i].spec_render())
                is Some by {
                assert(init[i] == cs[i]);
            }
            assert(cs[cs.len() - 1].spec_render() is Some);
        } else {
            let k = choose|i: int| 0 <= i < cs.len() && (#[trigger] cs[i].spec_render()) is None;
            if k < cs.len() - 1 {
                assert(init[k] == cs[k]);
                assert(init[k].spec_render() is None);
            }
        }
    }
}

/// The renderings of the members of `cs` that render, in order.
pub open spec fn foldable_texts(cs: Seq<Pred>) -> Seq<Seq<char>> {
    cs.filter(|c: Pred| c.spec_render() is Some).map_values(|c: Pred| c.spec_render().unwrap())
}

proof fn lemma_and_parts_are_foldable_texts(cs: Seq<Pred>)
    ensures
        and_parts(cs) == foldable_texts(cs),
    decreases cs.len(),
{
    reveal_with_fuel(Seq::<Pred>::filter, 1);
    if cs.len() > 0 {
        lemma_and_parts_are_foldable_texts(cs.drop_last());
        let f = |c: Pred| c.spec_render() is Some;
        let g = |c: Pred| c.spec_render().unwrap();
        let sub = cs.drop_last().filter(f);
        if f(cs.last()) {
            assert(sub.push(cs.last()).map_values(g) =~= sub.map_values(g).push(g(cs.last())));
        }
    }
}

/// The `WHERE` text for a list of conjuncts (what `render_where` returns,
/// and what `Pred::And` renders to): nothing when no member renders, the one
/// rendered member bare, otherwise every rendered member, in order, joined
/// by ` AND ` inside parentheses. Unrendered members are dropped.
pub proof fn lemma_conjunction_text(cs: Seq<Pred>)
    ensures
        and_text(and_parts(cs)) == (if foldable_texts(cs).len() == 0 {
            None
        } else if foldable_texts(cs).len() == 1 {
            Some(foldable_texts(cs)[0])
        } else {
            Some("("@ + sep_list(foldable_texts(cs), " AND "@) + ")"@)
        }),
{
    lemma_and_parts_are_foldable_texts(cs);
    lemma_join_is_sep_list(foldable_texts(cs), " AND "@);
}

/// The renderings of all members of `cs`, assuming each renders.
pub open spec fn member_texts(cs: Seq<Pred>) -> Seq<Seq<char>> {
    cs.map_values(|c: Pred| c.spec_render().unwrap())
}

proof fn lemma_or_parts_are_member_texts(cs: Seq<Pred>)
    requires
        forall|i: int| 0 <= i < cs.len() ==> (#[trigger] cs[i].spec_render()) is Some,
    ensures
        or_parts(cs) == Some(member_texts(cs)),
    decreases cs.len(),
{
    if cs.len() > 0 {
        let init = cs.drop_last();
        assert forall|i: int| 0 <= i < init.len() implies (#[trigger] init[i].spec_render())
            is Some by {
            assert(init[i] == cs[i]);
        }
        lemma_or_parts_are_member_texts(init);
        assert(cs[cs.len() - 1].spec_render() is Some);
        assert(member_texts(cs) =~= member_texts(init).push(cs.last().spec_render().unwrap()));
    }
}

/// The text of a disjunction (what `Pred::Or` renders to): nothing when it
/// has no member or some member does not render; otherwise every member, in
/// order, joined by ` OR ` inside parentheses.
pub proof fn lemma_disjunction_text(cs: Seq<Pred>)
    ensures
        (match or_parts(cs) {
            Some(parts) => or_text(parts),
            None => None,
        }) == (if cs.len() == 0 || !(forall|i: int|
            0 <= i < cs.len() ==> (#[trigger] cs[i].spec_render()) is Some) {
            None
        } else {
            Some("("@ + sep_list(member_texts(cs), " OR "@) + ")"@)
        }),
{
    lemma_or_all_or_nothing(cs);
    if forall|i: int| 0 <= i < cs.len() ==> (#[trigger] cs[i].spec_render()) is Some {
        lemma_or_parts_are_member_texts(cs);
        lemma_join_is_sep_list(member_texts(cs), " OR "@);
    }
}

/// The text of each leaf. A comparison is `col OP literal`; `<>` is wrapped
/// as `(... AND col IS NOT NULL)`. An `IN` test lists the literal of every
/// value, in order, separated by `, `; an empty list does not render, and
/// `NOT IN` carries the same guard. `IS [NOT] NULL` and `LIKE 'prefix%'`
/// name the quoted column; an unsupported leaf does not render.
pub proof fn lemma_leaf_text(p: Pred)
    requires
        !(p is And),
        !(p is Or),
    ensures
        p.spec_render() == (match p {
            Pred::Compare { left, op, value } => {
                let t = left.spec_render() + " "@ + op.spec_sql() + " "@ + value.spec_render();
                if op == CmpOp::Ne {
                    Some("("@ + t + " AND "@ + spec_quote_ident(left.spec_column()) + " IS NOT NULL)"@)
                } else {
                    Some(t)
                }
            },
            Pred::In { col, values, negated } => if values@.len() == 0 {
                None
            } else {
                let t = col.spec_render() + " "@ + (if negated { "NOT IN"@ } else { "IN"@ }) + " ("@
                    + sep_list(values@.map_values(|v: Scalar| v.spec_render()), ", "@) + ")"@;
                if negated {
                    Some("("@ + t + " AND "@ + spec_quote_ident(col.spec_column()) + " IS NOT NULL)"@)
                } else {
                    Some(t)
                }
            },
            Pred::IsNull { col, negated } => Some(
                spec_quote_ident(col@) + (if negated { " IS NOT NULL"@ } else { " IS NULL"@ }),
            ),
            Pred::LikePrefix { col, prefix } => Some(
                spec_quote_ident(col@) + " LIKE '"@ + double_char(prefix@, '\'') + "%'"@,
            ),
            _ => None,
        }),
{
    if let Pred::In { col, values, negated } = p {
        assert(scalar_texts(values@) =~= values@.map_values(|v: Scalar| v.spec_render()));
        lemma_join_is_sep_list(scalar_texts(values@), ", "@);
    }
}

/// A literal stands for its scalar: a text literal is single-quoted and its
/// body reads back as exactly the text; an integer literal is its decimal
/// digits, after a `-` when negative, and those digits spell its magnitude;
/// a boolean is `TRUE` or `FALSE` as it is true or false.
pub proof fn lemma_literal_reads_back(v: Scalar)
    ensures
        v matches Scalar::Text(t) ==> {
            let r = v.spec_render();
            &&& r.len() >= 2
            &&& r[0] == '\''
            &&& r[r.len() - 1] == '\''
            &&& undouble(r.subrange(1, r.len() - 1), '\'') == Some(t@)
        },
        v matches Scalar::Int(n) ==> {
            let r = v.spec_render();
            let digits = if n < 0 { r.drop_first() } else { r };
            &&& (n < 0 ==> r.len() >= 2 && r[0] == '-')
            &&& digits.len() >= 1
            &&& forall|i: int| 0 <= i < digits.len() ==> is_digit(#[trigger] digits[i])
            &&& digits_value(digits) == (if n < 0 { -n } else { n as int })
        },
        v matches Scalar::Bool(b) ==> v.spec_render() == (if b { "TRUE"@ } else { "FALSE"@ }),
{
    match v {
        Scalar::Text(t) => {
            let r = v.spec_render();
            assert(r.subrange(1, r.len() - 1) =~= double_char(t@, '\''));
            lemma_undouble_double(t@, '\'');
        },
        Scalar::Int(n) => {
            let m: nat = if n < 0 { (-n) as nat } else { n as nat };
            lemma_dec_nat_spells(m);
            if n < 0 {
                assert((seq!['-'] + dec_nat(m)).drop_first() =~= dec_nat(m));
            }
        },
        _ => {},
    }
}

} // verus!
