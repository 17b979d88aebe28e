use dbisam_fdw::quals::{cell_to_scalar, cmp_op, like_prefix, qual_to_pred, to_preds, Cell, Qual, Value};
use dbisam_fdw::sql::{CmpOp, ColExpr, Pred, Scalar};

#[test]
fn like_prefix_accepts_only_trailing_wildcard() {
    assert_eq!(like_prefix("abc%"), Some("abc".to_string()));
    assert_eq!(like_prefix("%abc"), None); // leading
    assert_eq!(like_prefix("a%c%"), None); // internal
    assert_eq!(like_prefix("a_c%"), None); // underscore wildcard
    assert_eq!(like_prefix("abc"), None); // not a LIKE prefix at all
}

#[test]
fn like_prefix_rejects_escape_sequences() {
    assert_eq!(like_prefix("abc\\%"), None); // escaped % — means literal "abc%"
    assert_eq!(like_prefix("abc\\%x%"), None); // escaped % mid-pattern
    assert_eq!(like_prefix("a\\\\c%"), None); // escaped backslash — literal "a\c"
}

// ---- further cases ----

fn qual(field: &str, op: &str, value: Value) -> Qual {
    Qual { field: field.into(), operator: op.into(), value, use_or: false, parameterised: false }
}

#[test]
fn like_prefix_edges() {
    assert_eq!(like_prefix("%"), Some(String::new()));
    assert_eq!(like_prefix(""), None);
    assert_eq!(like_prefix("é%"), Some("é".to_string()));
}

#[test]
fn cmp_op_names() {
    assert_eq!(cmp_op("="), Some(CmpOp::Eq));
    assert_eq!(cmp_op("<>"), Some(CmpOp::Ne));
    assert_eq!(cmp_op("<"), Some(CmpOp::Lt));
    assert_eq!(cmp_op(">"), Some(CmpOp::Gt));
    assert_eq!(cmp_op("<="), Some(CmpOp::Le));
    assert_eq!(cmp_op(">="), Some(CmpOp::Ge));
    assert_eq!(cmp_op("!="), None);
    assert_eq!(cmp_op("~~"), None);
}

#[test]
fn cells_to_scalars() {
    assert_eq!(cell_to_scalar(&Cell::I8(-3)), Some(Scalar::Int(-3)));
    assert_eq!(cell_to_scalar(&Cell::I16(300)), Some(Scalar::Int(300)));
    assert_eq!(cell_to_scalar(&Cell::I32(-70000)), Some(Scalar::Int(-70000)));
    assert_eq!(cell_to_scalar(&Cell::Bool(true)), Some(Scalar::Bool(true)));
    assert_eq!(cell_to_scalar(&Cell::String("x".into())), Some(Scalar::Text("x".into())));
    assert_eq!(cell_to_scalar(&Cell::Float("2.5".into())), Some(Scalar::Float("2.5".into())));
    assert_eq!(cell_to_scalar(&Cell::Other), None);
}

#[test]
fn comparison_quals() {
    let p = qual_to_pred(&qual("qty", ">=", Value::Cell(Cell::I32(5))));
    assert_eq!(p, Pred::Compare { left: ColExpr::Col("qty".into()), op: CmpOp::Ge, value: Scalar::Int(5) });
    assert_eq!(p.render().unwrap(), "qty >= 5");
    assert_eq!(qual_to_pred(&qual("d", "=", Value::Cell(Cell::Other))), Pred::Unsupported);
    assert_eq!(qual_to_pred(&qual("d", "!~", Value::Cell(Cell::I32(1)))), Pred::Unsupported);
}

#[test]
fn parameterised_qual_is_unsupported() {
    let mut q = qual("qty", "=", Value::Cell(Cell::I32(5)));
    q.parameterised = true;
    assert_eq!(qual_to_pred(&q), Pred::Unsupported);
}

#[test]
fn is_null_quals() {
    let null = || Value::Cell(Cell::String("null".into()));
    assert_eq!(qual_to_pred(&qual("c", "is", null())), Pred::IsNull { col: "c".into(), negated: false });
    assert_eq!(qual_to_pred(&qual("c", "is not", null())), Pred::IsNull { col: "c".into(), negated: true });
    // `col IS TRUE` is a boolean test: left to Postgres.
    assert_eq!(qual_to_pred(&qual("c", "is", Value::Cell(Cell::Bool(true)))), Pred::Unsupported);
}

#[test]
fn array_quals() {
    let arr = || Value::Array(vec![Cell::I32(1), Cell::I64(2)]);
    let mut any = qual("c", "=", arr());
    any.use_or = true;
    assert_eq!(qual_to_pred(&any).render().unwrap(), "c IN (1, 2)");
    let all = qual("c", "<>", arr());
    assert_eq!(qual_to_pred(&all).render().unwrap(), "(c NOT IN (1, 2) AND c IS NOT NULL)");
    // `= ALL(array)` and `<> ANY(array)` are not IN lists.
    assert_eq!(qual_to_pred(&qual("c", "=", arr())), Pred::Unsupported);
    let mut ne_any = qual("c", "<>", arr());
    ne_any.use_or = true;
    assert_eq!(qual_to_pred(&ne_any), Pred::Unsupported);
    // One unconvertible element makes the whole list unsupported.
    let mut mixed = qual("c", "=", Value::Array(vec![Cell::I32(1), Cell::Other]));
    mixed.use_or = true;
    assert_eq!(qual_to_pred(&mixed), Pred::Unsupported);
}

#[test]
fn like_quals() {
    let p = qual_to_pred(&qual("code", "~~", Value::Cell(Cell::String("AB%".into()))));
    assert_eq!(p, Pred::LikePrefix { col: "code".into(), prefix: "AB".into() });
    assert_eq!(qual_to_pred(&qual("code", "~~", Value::Cell(Cell::String("%AB".into())))), Pred::Unsupported);
    assert_eq!(qual_to_pred(&qual("code", "~~", Value::Cell(Cell::I32(1)))), Pred::Unsupported);
}

#[test]
fn to_preds_keeps_order() {
    let qs = vec![
        qual("a", "=", Value::Cell(Cell::I32(1))),
        qual("b", "~~", Value::Cell(Cell::String("%x".into()))),
        qual("c", "is", Value::Cell(Cell::String("null".into()))),
    ];
    let ps = to_preds(&qs);
    assert_eq!(ps.len(), 3);
    assert_eq!(ps[1], Pred::Unsupported);
    assert_eq!(dbisam_fdw::sql::render_where(&ps).unwrap(), "(a = 1 AND c IS NULL)");
}

#[test]
fn date_and_timestamp_quals() {
    let p = qual_to_pred(&qual("sold", "<", Value::Cell(Cell::Date { y: 2023, m: 1, d: 2 })));
    assert_eq!(p.render().unwrap(), "sold < '2023-01-02'");
    let whole = Cell::Timestamp { y: 2023, mo: 1, d: 2, h: 13, mi: 4, s: 5, whole_second: true };
    assert_eq!(qual_to_pred(&qual("at", "=", Value::Cell(whole))).render().unwrap(), "at = '2023-01-02 13:04:05'");
    let frac = Cell::Timestamp { y: 2023, mo: 1, d: 2, h: 13, mi: 4, s: 5, whole_second: false };
    assert_eq!(cell_to_scalar(&frac), None);
    assert_eq!(qual_to_pred(&qual("at", "=", Value::Cell(frac))), Pred::Unsupported);
}
