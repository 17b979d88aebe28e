//! The DBISAM statement for one foreign scan, and the bookkeeping around it.
//!
//! A scan pushes down projection, the foldable filter and a trailing `TOP n`:
//! `SELECT <projection> FROM <table> [WHERE <filter>] [TOP n]`. `TOP n` is
//! pushed only when every qual was pushed whole: a qual rechecked by Postgres
//! above the scan would make `TOP n` cap the wrong row count.

use vstd::prelude::*;
use crate::pushdown::{all_exact, all_fully_pushed};
use crate::ident::{push_ident, quote_ident, spec_quote_ident};
use crate::sql::{and_parts, and_text, render_where, top_clause, Pred};
use crate::text::{dec_nat, eq_ignore_ascii_case, eq_ignore_case, join, push_join, views};

verus! {

/// A `LIMIT count OFFSET offset` that Postgres asks the scan to honour.
#[derive(Debug, Clone, Copy, PartialEq, Eq, Structural)]
pub struct Limit {
    pub count: i64,
    pub offset: i64,
}

/// The names in `cols` other than `pk` (compared up to ASCII case), in order.
pub open spec fn without_name(cols: Seq<Seq<char>>, pk: Seq<char>) -> Seq<Seq<char>>
    decreases cols.len(),
{
    if cols.len() == 0 {
        Seq::empty()
    } else {
        let rest = without_name(cols.drop_last(), pk);
        if eq_ignore_case(cols.last(), pk) {
            rest
        } else {
            rest.push(cols.last())
        }
    }
}

/// The columns fetched from DBISAM: the requested columns, with the `pk`
/// column (when given) put first and not repeated. Blob and memo values are
/// resolved through the first projected column, which must be the key.
pub open spec fn projected_names(columns: Seq<Seq<char>>, pk: Option<Seq<char>>) -> Seq<
    Seq<char>,
> {
    match pk {
        Some(p) => seq![p] + without_name(columns, p),
        None => columns,
    }
}

/// The projection list: with no column requested (e.g. `count(*)`), only the
/// key if known, else `*`; otherwise the projected names, quoted, joined.
pub open spec fn projection_text(columns: Seq<Seq<char>>, pk: Option<Seq<char>>) -> Seq<char> {
    if columns.len() == 0 {
        match pk {
            Some(p) => spec_quote_ident(p),
            None => "*"@,
        }
    } else {
        join(projected_names(columns, pk).map_values(|n: Seq<char>| spec_quote_ident(n)), ", "@)
    }
}

/// The row count that a pushed `TOP` asks for: `offset + count` (Postgres
/// applies the offset itself), at least 1.
pub open spec fn top_count(l: Limit) -> int {
    if l.offset + l.count >= 1 {
        l.offset + l.count
    } else {
        1
    }
}

/// The DBISAM statement for a scan of `table`.
pub open spec fn scan_sql_text(
    table: Seq<char>,
    columns: Seq<Seq<char>>,
    pk: Option<Seq<char>>,
    quals: Seq<Pred>,
    limit: Option<Limit>,
) -> Seq<char> {
    "SELECT "@ + projection_text(columns, pk) + " FROM "@ + spec_quote_ident(table) + (match and_text(
        and_parts(quals),
    ) {
        Some(w) => " WHERE "@ + w,
        None => Seq::empty(),
    }) + (match limit {
        Some(l) => if all_exact(quals) {
            " "@ + "TOP "@ + dec_nat(top_count(l) as nat)
        } else {
            Seq::empty()
        },
        None => Seq::empty(),
    })
}

/// The offset and count of the limit fit together in an `i64`.
pub open spec fn limit_fits(limit: Option<Limit>) -> bool {
    match limit {
        Some(l) => i64::MIN <= l.offset + l.count <= i64::MAX,
        None => true,
    }
}

/// The view of an optional string.
pub open spec fn opt_str(o: Option<&str>) -> Option<Seq<char>> {
    match o {
        Some(s) => Some(s@),
        None => None,
    }
}

/// Builds the DBISAM statement for a foreign scan: projection of the
/// requested `columns` (with the `pk` table option put first), the foldable
/// part of the `quals`, and a trailing `TOP n` only when every qual was
/// pushed whole.
pub fn scan_sql(
    table: &str,
    columns: &Vec<String>,
    pk: Option<&str>,
    quals: &[Pred],
    limit: Option<Limit>,
) -> (r: String)
    requires
        limit_fits(limit),
    ensures
        r@ == scan_sql_text(table@, views(columns@), opt_str(pk), quals@, limit),
{
    let mut sql = String::from_str("SELECT ");
    if columns.len() == 0 {
        match pk {
            Some(p) => push_ident(&mut sql, p),
            None => sql.append("*"),
        }
    } else {
        let names = projected(columns, pk);
        let mut quoted_names: Vec<String> = Vec::new();
        let n = names.len();
        let mut i: usize = 0;
        while i < n
            invariant
                n == names@.len(),
                i <= n,
                views(quoted_names@) == views(names@).take(i as int).map_values(
                    |m: Seq<char>| spec_quote_ident(m),
                ),
            decreases n - i,
        {
            let ghost before = quoted_names@;
            quoted_names.push(quote_ident(names[i].as_str()));
            assert(views(quoted_names@) =~= views(before).push(spec_quote_ident(names@[i as int]@)));
            assert(views(names@).take(i + 1) =~= views(names@).take(i as int).push(names@[i as int]@));
            assert(views(names@).take(i + 1).map_values(|m: Seq<char>| spec_quote_ident(m)) =~= views(
                names@,
            ).take(i as int).map_values(|m: Seq<char>| spec_quote_ident(m)).push(
                spec_quote_ident(names@[i as int]@),
            ));
            i = i + 1;
        }
        assert(views(names@).take(n as int) =~= views(names@));
        push_join(&mut sql, &quoted_names, ", ");
    }
    sql.append(" FROM ");
    push_ident(&mut sql, table);
    match render_where(quals) {
        Some(w) => {
            sql.append(" WHERE ");
            sql.append(w.as_str());
        },
        None => {},
    }
    match limit {
        Some(l) => {
            if all_fully_pushed(quals) {
                let total = l.offset + l.count;
                let n: u64 = if total >= 1 { total as u64 } else { 1 };
                sql.append(" ");
                sql.append(top_clause(n).as_str());
            }
        },
        None => {},
    }
    sql
}

/// The projected names (see [`projected_names`]) as strings.
fn projected(columns: &Vec<String>, pk: Option<&str>) -> (r: Vec<String>)
    ensures
        views(r@) == projected_names(views(columns@), opt_str(pk)),
{
    let mut out: Vec<String> = Vec::new();
    match pk {
        Some(p) => out.push(String::from_str(p)),
        None => {},
    }
    let ghost head = views(out@);
    let n = columns.len();
    let mut i: usize = 0;
    while i < n
        invariant
            n == columns@.len(),
            i <= n,
            head == (match pk {
                Some(p) => seq![p@],
                None => Seq::<Seq<char>>::empty(),
            }),
            views(out@) == head + (match pk {
                Some(p) => without_name(views(columns@).take(i as int), p@),
                None => views(columns@).take(i as int),
            }),
        decreases n - i,
    {
        let c = columns[i].as_str();
        assert(views(columns@).take(i + 1).drop_last() =~= views(columns@).take(i as int));
        assert(views(columns@).take(i + 1).last() == c@);
        let keep = match pk {
            Some(p) => !eq_ignore_ascii_case(c, p),
            None => true,
        };
        let ghost before = views(out@);
        if keep {
            out.push(columns[i].clone());
            assert(views(out@) =~= before.push(c@));
        }
        i = i + 1;
    }
    assert(views(columns@).take(n as int) =~= views(columns@));
    out
}

/// Index of the first of `names` equal to `col` up to ASCII case.
pub open spec fn first_match(names: Seq<String>, col: Seq<char>, k: int) -> bool {
    &&& 0 <= k < names.len()
    &&& eq_ignore_case(names[k]@, col)
    &&& forall|m: int| 0 <= m < k ==> !eq_ignore_case(#[trigger] names[m]@, col)
}

/// No name of `names` equals `col` up to ASCII case.
pub open spec fn no_match(names: Seq<String>, col: Seq<char>) -> bool {
    forall|m: int| 0 <= m < names.len() ==> !eq_ignore_case(#[trigger] names[m]@, col)
}

fn find_column(names: &Vec<String>, col: &str) -> (r: Option<usize>)
    ensures
        match r {
            Some(k) => first_match(names@, col@, k as int),
            None => no_match(names@, col@),
        },
{
    let n = names.len();
    let mut k: usize = 0;
    while k < n
        invariant
            n == names@.len(),
            k <= n,
            forall|m: int| 0 <= m < k ==> !eq_ignore_case(#[trigger] names@[m]@, col@),
        decreases n - k,
    {
        if eq_ignore_ascii_case(names[k].as_str(), col) {
            return Some(k);
        }
        k = k + 1;
    }
    None
}

/// Resolves each requested column to its index among the result's field
/// names, case-insensitively (DBISAM echoes result columns in its own case).
/// `Err(j)` names the first requested column missing from the result: the
/// foreign table definition has drifted from the live table.
pub fn resolve_columns(field_names: &Vec<String>, columns: &Vec<String>) -> (r: Result<
    Vec<usize>,
    usize,
>)
    ensures
        match r {
            Ok(idx) => idx@.len() == columns@.len() && forall|j: int|
                0 <= j < columns@.len() ==> first_match(
                    field_names@,
                    columns@[j]@,
                    #[trigger] idx@[j] as int,
                ),
            Err(j) => j < columns@.len() && no_match(field_names@, columns@[j as int]@) && forall|
                i: int,
            |
                0 <= i < j ==> !no_match(field_names@, #[trigger] columns@[i]@),
        },
{
    let mut idx: Vec<usize> = Vec::new();
    let n = columns.len();
    let mut j: usize = 0;
    while j < n
        invariant
            n == columns@.len(),
            j <= n,
            idx@.len() == j,
            forall|i: int|
                0 <= i < j ==> first_match(field_names@, columns@[i]@, #[trigger] idx@[i] as int),
        decreases n - j,
    {
        match find_column(field_names, columns[j].as_str()) {
            Some(k) => idx.push(k),
            None => {
                assert forall|i: int| 0 <= i < j implies !no_match(
                    field_names@,
                    #[trigger] columns@[i]@,
                ) by {
                    assert(first_match(field_names@, columns@[i]@, idx@[i] as int));
                    let k = idx@[i] as int;
                    assert(eq_ignore_case(field_names@[k]@, columns@[i]@));
                }
                return Err(j);
            },
        }
        j = j + 1;
    }
    Ok(idx)
}

/// One step of the row cursor over a materialised batch of `num_rows` rows:
/// the row to read and the cursor after it, or `None` once every row has
/// been read.
pub fn scan_step(row_idx: usize, num_rows: usize) -> (r: Option<(usize, usize)>)
    ensures
        row_idx < num_rows ==> r == Some((row_idx, (row_idx + 1) as usize)),
        row_idx >= num_rows ==> r is None,
{
    if row_idx >= num_rows {
        None
    } else {
        Some((row_idx, row_idx + 1))
    }
}

} // verus!
