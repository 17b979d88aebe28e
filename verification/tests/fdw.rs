use dbisam_fdw::error::DbisamFdwError;
use dbisam_fdw::pushdown::{all_fully_pushed, fully_pushed};
use dbisam_fdw::ident::quote_ident;
use dbisam_fdw::scan::{resolve_columns, scan_sql, scan_step, Limit};
use dbisam_fdw::schema_import::{pg_ident, pg_literal, select_tables, table_ddl, ImportSchemaType};
use dbisam_fdw::sql::{CmpOp, ColExpr, Pred, Scalar};
use dbisam_fdw::typemap::{arrow_pg_type, cell_kind, pg_date_days, pg_timestamp_micros, CellKind, DataType, Field, TimeUnit};

fn eq(c: &str, n: i64) -> Pred {
    Pred::Compare { left: ColExpr::Col(c.into()), op: CmpOp::Eq, value: Scalar::Int(n) }
}

fn names(v: &[&str]) -> Vec<String> {
    v.iter().map(|s| s.to_string()).collect()
}

fn field(name: &str, data_type: DataType, tag: Option<&str>) -> Field {
    Field { name: name.into(), data_type, dbisam_type: tag.map(|t| t.to_string()) }
}

#[test]
fn postgres_quoting() {
    assert_eq!(pg_ident("My\"Col"), "\"My\"\"Col\"");
    assert_eq!(pg_ident("plain"), "\"plain\"");
    assert_eq!(pg_literal("O'Brien"), "'O''Brien'");
    assert_eq!(pg_literal(""), "''");
}

#[test]
fn dbisam_identifiers() {
    assert_eq!(quote_ident("CUSTOMER"), "CUSTOMER");
    assert_eq!(quote_ident("_x1"), "_x1");
    assert_eq!(quote_ident("1abc"), "\"1abc\"");
    assert_eq!(quote_ident("my col"), "\"my col\"");
    assert_eq!(quote_ident("a\"b"), "\"a\"\"b\"");
    assert_eq!(quote_ident("Select"), "\"Select\"");
    assert_eq!(quote_ident("ORDER"), "\"ORDER\"");
    assert_eq!(quote_ident("Date"), "\"Date\"");
    assert_eq!(quote_ident("DateSold"), "DateSold");
    assert_eq!(quote_ident(""), "\"\"");
}

#[test]
fn scan_statement_pushes_top_only_when_all_quals_pushed() {
    let lim = Some(Limit { count: 10, offset: 5 });
    let sql = scan_sql("Customer", &names(&["a", "b"]), None, &[eq("a", 1)], lim);
    assert_eq!(sql, "SELECT a, b FROM Customer WHERE a = 1 TOP 15");
    let sql = scan_sql("Customer", &names(&["a"]), None, &[eq("a", 1), Pred::Unsupported], lim);
    assert_eq!(sql, "SELECT a FROM Customer WHERE a = 1");
    let sql = scan_sql("Customer", &names(&["a"]), None, &[], Some(Limit { count: 0, offset: 0 }));
    assert_eq!(sql, "SELECT a FROM Customer TOP 1");
}

#[test]
fn scan_statement_projection() {
    // No column requested: the key if known, else `*`.
    assert_eq!(scan_sql("T", &vec![], Some("ID"), &[], None), "SELECT ID FROM T");
    assert_eq!(scan_sql("T", &vec![], None, &[], None), "SELECT * FROM T");
    // The key goes first and is not repeated (compared case-insensitively).
    assert_eq!(
        scan_sql("T", &names(&["memo", "id", "name"]), Some("ID"), &[], None),
        "SELECT ID, \"memo\", name FROM T"
    );
    assert_eq!(scan_sql("my table", &names(&["from"]), None, &[], None), "SELECT \"from\" FROM \"my table\"");
}

#[test]
fn resolving_result_columns() {
    let fields = names(&["ID", "Name", "name"]);
    assert_eq!(resolve_columns(&fields, &names(&["name", "id"])), Ok(vec![1, 0]));
    assert_eq!(resolve_columns(&fields, &names(&["id", "missing", "gone"])), Err(1));
    assert_eq!(resolve_columns(&fields, &vec![]), Ok(vec![]));
}

#[test]
fn fully_pushed_predicates() {
    assert!(fully_pushed(&eq("a", 1)));
    assert!(!fully_pushed(&Pred::Unsupported));
    assert!(!fully_pushed(&Pred::In { col: ColExpr::Col("c".into()), values: vec![], negated: false }));
    assert!(!fully_pushed(&Pred::And(vec![eq("a", 1), Pred::Unsupported])));
    assert!(fully_pushed(&Pred::And(vec![])));
    assert!(!fully_pushed(&Pred::Or(vec![])));
    assert!(all_fully_pushed(&[eq("a", 1), Pred::Or(vec![eq("b", 2)])]));
    assert!(!all_fully_pushed(&[eq("a", 1), Pred::Unsupported]));
}

#[test]
fn selecting_tables() {
    let all = names(&["Customer", "wk1A2B", "ORDERS", "Stock"]);
    let stems = names(&["customer", "orders", "stock", "ristd1"]);
    assert_eq!(
        select_tables(&all, Some(&stems), ImportSchemaType::FdwImportSchemaAll, &vec![]),
        names(&["Customer", "ORDERS", "Stock"])
    );
    assert_eq!(select_tables(&all, None, ImportSchemaType::FdwImportSchemaAll, &vec![]), all);
    assert_eq!(
        select_tables(&all, Some(&stems), ImportSchemaType::FdwImportSchemaLimitTo, &names(&["orders", "wk1a2b"])),
        names(&["ORDERS"])
    );
    assert_eq!(
        select_tables(&all, Some(&stems), ImportSchemaType::FdwImportSchemaExcept, &names(&["orders"])),
        names(&["Customer", "Stock"])
    );
}

#[test]
fn foreign_table_ddl() {
    let fields = vec![
        field("ID", DataType::Int32, None),
        field("ACMemo", DataType::Binary, Some("memo")),
        field("Pic", DataType::Binary, Some("graphic")),
        field("Price", DataType::Decimal128, None),
    ];
    assert_eq!(
        table_ddl("public", "em", "ARCVCFG", &fields).unwrap(),
        "CREATE FOREIGN TABLE IF NOT EXISTS \"public\".\"arcvcfg\" (\"id\" integer, \"acmemo\" text, \
         \"pic\" bytea, \"price\" numeric) SERVER \"em\" OPTIONS (table 'ARCVCFG', pk 'id')"
    );
    let bad = vec![field("ID", DataType::Int32, None), field("X", DataType::Other, None), field("Y", DataType::Other, None)];
    assert_eq!(table_ddl("public", "em", "T", &bad), Err(1));
    assert_eq!(
        table_ddl("public", "em", "E", &vec![]).unwrap(),
        "CREATE FOREIGN TABLE IF NOT EXISTS \"public\".\"e\" () SERVER \"em\" OPTIONS (table 'E')"
    );
}

#[test]
fn type_mapping() {
    assert_eq!(arrow_pg_type(&field("a", DataType::Utf8, None)), Some("text"));
    assert_eq!(arrow_pg_type(&field("a", DataType::Float64, None)), Some("double precision"));
    assert_eq!(arrow_pg_type(&field("a", DataType::Time64(TimeUnit::Microsecond), None)), Some("time"));
    assert_eq!(arrow_pg_type(&field("a", DataType::Time64(TimeUnit::Nanosecond), None)), None);
    assert_eq!(arrow_pg_type(&field("a", DataType::Timestamp(TimeUnit::Microsecond), None)), Some("timestamp"));
    assert_eq!(arrow_pg_type(&field("a", DataType::Timestamp(TimeUnit::Millisecond), None)), None);
    assert_eq!(arrow_pg_type(&field("a", DataType::LargeBinary, Some("memo"))), None);
    assert_eq!(arrow_pg_type(&field("a", DataType::LargeBinary, None)), None);
    assert_eq!(arrow_pg_type(&field("a", DataType::Other, None)), None);
    assert_eq!(cell_kind(&field("a", DataType::Binary, Some("memo"))), CellKind::MemoText);
    assert_eq!(cell_kind(&field("a", DataType::Binary, Some("blob"))), CellKind::Bytea);
    assert_eq!(cell_kind(&field("a", DataType::LargeBinary, None)), CellKind::Null);
    assert_eq!(cell_kind(&field("a", DataType::Timestamp(TimeUnit::Microsecond), None)), CellKind::Timestamp);
    assert_eq!(cell_kind(&field("a", DataType::Timestamp(TimeUnit::Second), None)), CellKind::Null);
    assert_eq!(cell_kind(&field("a", DataType::Time64(TimeUnit::Microsecond), None)), CellKind::Time);
}

#[test]
fn epoch_shifts() {
    // 2000-01-01 is day 10957 after 1970-01-01.
    assert_eq!(pg_date_days(10957), 0);
    assert_eq!(pg_date_days(0), -10957);
    assert_eq!(pg_timestamp_micros(946_684_800_000_000), 0);
    assert_eq!(pg_timestamp_micros(946_684_800_000_001), 1);
}

#[test]
fn error_messages() {
    assert_eq!(DbisamFdwError::Options("x".into()).message(), "dbisam_fdw option error: x");
    assert_eq!(DbisamFdwError::Protocol("y".into()).message(), "dbisam_fdw protocol error: y");
    assert_eq!(
        DbisamFdwError::MissingColumn { column: "c".into(), table: "T".into() }.message(),
        "dbisam_fdw: column \"c\" is not in the DBISAM result for table \"T\"; the foreign table definition is out of date"
    );
    assert_eq!(DbisamFdwError::ReadOnly.message(), "dbisam_fdw is read-only; DML is not supported");
}

#[test]
fn row_cursor() {
    assert_eq!(scan_step(0, 2), Some((0, 1)));
    assert_eq!(scan_step(1, 2), Some((1, 2)));
    assert_eq!(scan_step(2, 2), None);
    assert_eq!(scan_step(0, 0), None);
}
