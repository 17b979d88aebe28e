//! `IMPORT FOREIGN SCHEMA`: which DBISAM tables to import, and the
//! `CREATE FOREIGN TABLE` DDL for one probed table.
//!
//! The DBISAM catalogue is mostly volatile scratch tables, so with a
//! `parquet_dir` import option the table list is curated to the tables that
//! have a `<name>.parquet` file in the daily dump (case-insensitively).
//! `LIMIT TO` / `EXCEPT` are honoured up front, case-insensitively. Every
//! Postgres-facing identifier is folded to lower case; the `table` option
//! keeps the probed name.

use vstd::prelude::*;
use crate::sql::quoted;
use crate::text::{
    eq_ignore_ascii_case, eq_ignore_case, join, lower_seq, push_char, push_doubled, push_join,
    to_ascii_lowercase, views,
};
use crate::typemap::{arrow_pg_type, spec_arrow_pg_type, Field};

verus! {

/// Quotes a PostgreSQL identifier (always-quoted form; embedded `"` doubled).
pub fn pg_ident(name: &str) -> (r: String)
    ensures
        r@ == quoted(name@, '"'),
{
    let mut out = String::new();
    push_char(&mut out, '"');
    push_doubled(&mut out, name, '"');
    push_char(&mut out, '"');
    out
}

/// Quotes a PostgreSQL string literal (e.g. an OPTIONS value); `'` doubled.
pub fn pg_literal(s: &str) -> (r: String)
    ensures
        r@ == quoted(s@, '\''),
{
    let mut out = String::new();
    push_char(&mut out, '\'');
    push_doubled(&mut out, s, '\'');
    push_char(&mut out, '\'');
    out
}

/// Which part of the remote catalogue an `IMPORT FOREIGN SCHEMA` asks for.
#[derive(Debug, Clone, Copy, PartialEq, Eq, Structural)]
pub enum ImportSchemaType {
    FdwImportSchemaAll,
    FdwImportSchemaLimitTo,
    FdwImportSchemaExcept,
}

/// `t` equals one of `names` up to ASCII case.
pub open spec fn listed(t: Seq<char>, names: Seq<String>) -> bool {
    exists|i: int| 0 <= i < names.len() && eq_ignore_case(#[trigger] names[i]@, t)
}

/// Whether a catalogue table is imported: it has a Parquet file when a
/// Parquet directory curates the list, and it passes `LIMIT TO` / `EXCEPT`.
pub open spec fn table_selected(
    t: Seq<char>,
    parquet_stems: Option<Seq<String>>,
    list_type: ImportSchemaType,
    table_list: Seq<String>,
) -> bool {
    &&& match parquet_stems {
        None => true,
        Some(stems) => listed(t, stems),
    }
    &&& match list_type {
        ImportSchemaType::FdwImportSchemaAll => true,
        ImportSchemaType::FdwImportSchemaLimitTo => listed(t, table_list),
        ImportSchemaType::FdwImportSchemaExcept => !listed(t, table_list),
    }
}

/// The catalogue names of `ts` that are imported, in their original order.
pub open spec fn selected_names(
    ts: Seq<Seq<char>>,
    parquet_stems: Option<Seq<String>>,
    list_type: ImportSchemaType,
    table_list: Seq<String>,
) -> Seq<Seq<char>>
    decreases ts.len(),
{
    if ts.len() == 0 {
        Seq::empty()
    } else {
        let rest = selected_names(ts.drop_last(), parquet_stems, list_type, table_list);
        if table_selected(ts.last(), parquet_stems, list_type, table_list) {
            rest.push(ts.last())
        } else {
            rest
        }
    }
}

/// The view of an optional list of names.
pub open spec fn opt_names(o: Option<&Vec<String>>) -> Option<Seq<String>> {
    match o {
        Some(s) => Some(s@),
        None => None,
    }
}

/// Whether `t` equals one of `names` up to ASCII case.
pub fn is_listed(t: &str, names: &Vec<String>) -> (r: bool)
    ensures
        r == listed(t@, names@),
{
    let n = names.len();
    let mut i: usize = 0;
    while i < n
        invariant
            n == names@.len(),
            i <= n,
            forall|j: int| 0 <= j < i ==> !eq_ignore_case(#[trigger] names@[j]@, t@),
        decreases n - i,
    {
        if eq_ignore_ascii_case(names[i].as_str(), t) {
            return true;
        }
        i = i + 1;
    }
    false
}

/// Picks which catalogue tables to import, keeping the catalogue's order and
/// its names' case. `parquet_stems` are the file stems of the `*.parquet`
/// files of the `parquet_dir` option, when it is given.
pub fn select_tables(
    all: &Vec<String>,
    parquet_stems: Option<&Vec<String>>,
    list_type: ImportSchemaType,
    table_list: &Vec<String>,
) -> (r: Vec<String>)
    ensures
        views(r@) == selected_names(views(all@), opt_names(parquet_stems), list_type, table_list@),
{
    let mut out: Vec<String> = Vec::new();
    let n = all.len();
    let mut i: usize = 0;
    while i < n
        invariant
            n == all@.len(),
            i <= n,
            views(out@) == selected_names(
                views(all@.take(i as int)),
                opt_names(parquet_stems),
                list_type,
                table_list@,
            ),
        decreases n - i,
    {
        let t = all[i].as_str();
        assert(views(all@.take(i + 1)).drop_last() =~= views(all@.take(i as int)));
        assert(views(all@.take(i + 1)).last() == t@);
        let curated = match parquet_stems {
            None => true,
            Some(stems) => is_listed(t, stems),
        };
        let wanted = match list_type {
            ImportSchemaType::FdwImportSchemaAll => true,
            ImportSchemaType::FdwImportSchemaLimitTo => is_listed(t, table_list),
            ImportSchemaType::FdwImportSchemaExcept => !is_listed(t, table_list),
        };
        if curated && wanted {
            out.push(all[i].clone());
            assert(views(out@) =~= views(out@).drop_last().push(t@));
        }
        i = i + 1;
    }
    assert(all@.take(n as int) =~= all@);
    out
}

/// Selection only filters: every imported name is a catalogue name, kept in
/// the catalogue's case, and passes the Parquet curation and `LIMIT TO` /
/// `EXCEPT` (so `LIMIT TO` imports only listed tables and `EXCEPT` none of
/// them); every catalogue name that passes is imported.
pub proof fn lemma_selection_filters(
    ts: Seq<Seq<char>>,
    parquet_stems: Option<Seq<String>>,
    list_type: ImportSchemaType,
    table_list: Seq<String>,
)
    ensures
        forall|i: int|
            0 <= i < selected_names(ts, parquet_stems, list_type, table_list).len() ==> {
                let t = #[trigger] selected_names(ts, parquet_stems, list_type, table_list)[i];
                ts.contains(t) && table_selected(t, parquet_stems, list_type, table_list)
            },
        forall|j: int|
            0 <= j < ts.len() && table_selected(#[trigger] ts[j], parquet_stems, list_type, table_list)
                ==> selected_names(ts, parquet_stems, list_type, table_list).contains(ts[j]),
    decreases ts.len(),
{
    if ts.len() > 0 {
        let init = ts.drop_last();
        lemma_selection_filters(init, parquet_stems, list_type, table_list);
        let rest = selected_names(init, parquet_stems, list_type, table_list);
        let r = selected_names(ts, parquet_stems, list_type, table_list);
        assert forall|i: int| 0 <= i < r.len() implies ts.contains(#[trigger] r[i])
            && table_selected(r[i], parquet_stems, list_type, table_list) by {
            if i < rest.len() {
                assert(r[i] == rest[i]);
                let k = choose|k: int| 0 <= k < init.len() && init[k] == rest[i];
                assert(ts[k] == init[k]);
            } else {
                assert(r[i] == ts.last());
                assert(ts[ts.len() - 1] == ts.last());
            }
        }
        assert forall|j: int|
            0 <= j < ts.len() && table_selected(#[trigger] ts[j], parquet_stems, list_type, table_list)
            implies r.contains(ts[j]) by {
            if j < ts.len() - 1 {
                assert(init[j] == ts[j]);
                assert(rest.contains(init[j]));
                let k = choose|k: int| 0 <= k < rest.len() && rest[k] == init[j];
                assert(r[k] == rest[k]);
            } else {
                assert(r[r.len() - 1] == ts[j]);
            }
        }
    }
}

/// The definition of one probed column: its lower-cased quoted name and
/// its PostgreSQL type.
pub open spec fn column_def(f: Field) -> Seq<char> {
    quoted(lower_seq(f.name@), '"') + " "@ + spec_arrow_pg_type(f).unwrap()
}

/// The column definitions of a probed table.
pub open spec fn column_defs(fs: Seq<Field>) -> Seq<Seq<char>> {
    fs.map_values(|f: Field| column_def(f))
}

/// `, pk 'name'` naming the first column (the DBISAM primary key), or
/// nothing for a table without columns.
pub open spec fn pk_option(fs: Seq<Field>) -> Seq<char> {
    if fs.len() == 0 {
        Seq::empty()
    } else {
        ", pk "@ + quoted(lower_seq(fs[0].name@), '\'')
    }
}

/// The `CREATE FOREIGN TABLE` statement for one probed table.
pub open spec fn ddl_text(
    local: Seq<char>,
    server: Seq<char>,
    table: Seq<char>,
    fs: Seq<Field>,
) -> Seq<char> {
    "CREATE FOREIGN TABLE IF NOT EXISTS "@ + quoted(local, '"') + "."@ + quoted(
        lower_seq(table),
        '"',
    ) + " ("@ + join(column_defs(fs), ", "@) + ") SERVER "@ + quoted(server, '"')
        + " OPTIONS (table "@ + quoted(table, '\'') + pk_option(fs) + ")"@
}

/// Renders the `CREATE FOREIGN TABLE` DDL for a table whose live schema was
/// probed as `fields`. `Err(i)` names the first column whose Arrow type is
/// not mapped: the importer then skips the table rather than fabricate an
/// all-NULL column.
pub fn table_ddl(local: &str, server: &str, table: &str, fields: &Vec<Field>) -> (r: Result<
    String,
    usize,
>)
    ensures
        match r {
            Ok(t) => (forall|i: int|
                0 <= i < fields@.len() ==> (#[trigger] spec_arrow_pg_type(fields@[i])) is Some)
                && t@ == ddl_text(local@, server@, table@, fields@),
            Err(i) => i < fields@.len() && spec_arrow_pg_type(fields@[i as int]) is None && (
            forall|j: int| 0 <= j < i ==> (#[trigger] spec_arrow_pg_type(fields@[j])) is Some),
        },
{
    let mut cols: Vec<String> = Vec::new();
    let n = fields.len();
    let mut i: usize = 0;
    while i < n
        invariant
            n == fields@.len(),
            i <= n,
            forall|j: int| 0 <= j < i ==> (#[trigger] spec_arrow_pg_type(fields@[j])) is Some,
            views(cols@) == column_defs(fields@.take(i as int)),
        decreases n - i,
    {
        let ty = match arrow_pg_type(&fields[i]) {
            Some(ty) => ty,
            None => return Err(i),
        };
        let lower = to_ascii_lowercase(fields[i].name.as_str());
        let mut col = pg_ident(lower.as_str());
        col.append(" ");
        col.append(ty);
        assert(col@ == column_def(fields@[i as int]));
        let ghost before = cols@;
        cols.push(col);
        assert(views(cols@) =~= views(before).push(column_def(fields@[i as int])));
        assert(fields@.take(i + 1) =~= fields@.take(i as int).push(fields@[i as int]));
        assert(column_defs(fields@.take(i + 1)) =~= column_defs(fields@.take(i as int)).push(
            column_def(fields@[i as int]),
        ));
        i = i + 1;
    }
    assert(fields@.take(n as int) =~= fields@);
    let mut out = String::from_str("CREATE FOREIGN TABLE IF NOT EXISTS ");
    out.append(pg_ident(local).as_str());
    out.append(".");
    out.append(pg_ident(to_ascii_lowercase(table).as_str()).as_str());
    out.append(" (");
    push_join(&mut out, &cols, ", ");
    out.append(") SERVER ");
    out.append(pg_ident(server).as_str());
    out.append(" OPTIONS (table ");
    out.append(pg_literal(table).as_str());
    if n > 0 {
        out.append(", pk ");
        out.append(pg_literal(to_ascii_lowercase(fields[0].name.as_str()).as_str()).as_str());
    } else {
        assert(pk_option(fields@) =~= Seq::<char>::empty());
    }
    out.append(")");
    Ok(out)
}

} // verus!
