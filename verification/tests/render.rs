use dbisam_fdw::sql::{render_where, top_clause, CmpOp, ColExpr, Pred, Scalar};

fn col(c: &str) -> ColExpr {
    ColExpr::Col(c.into())
}

#[test]
fn ansi_safe_comparisons_have_no_null_guard() {
    for (op, sym) in [
        (CmpOp::Eq, "="),
        (CmpOp::Lt, "<"),
        (CmpOp::Gt, ">"),
        (CmpOp::Le, "<="),
        (CmpOp::Ge, ">="),
    ] {
        let p = Pred::Compare { left: col("qty"), op, value: Scalar::Int(5) };
        assert_eq!(p.render().unwrap(), format!("qty {sym} 5"));
    }
}

#[test]
fn ne_gets_null_guard() {
    let p = Pred::Compare {
        left: col("status"),
        op: CmpOp::Ne,
        value: Scalar::Text("X".into()),
    };
    assert_eq!(p.render().unwrap(), "(status <> 'X' AND status IS NOT NULL)");
}

#[test]
fn not_in_gets_null_guard_in_does_not() {
    let vals = vec![Scalar::Int(1), Scalar::Int(2)];
    let inp = Pred::In { col: col("c"), values: vals.clone(), negated: false };
    assert_eq!(inp.render().unwrap(), "c IN (1, 2)");
    let notin = Pred::In { col: col("c"), values: vals, negated: true };
    assert_eq!(notin.render().unwrap(), "(c NOT IN (1, 2) AND c IS NOT NULL)");
}

#[test]
fn empty_in_is_not_pushed() {
    let p = Pred::In { col: col("c"), values: vec![], negated: false };
    assert_eq!(p.render(), None);
}

#[test]
fn text_literals_escape_quotes() {
    let p = Pred::Compare {
        left: col("name"),
        op: CmpOp::Eq,
        value: Scalar::Text("O'Brien".into()),
    };
    assert_eq!(p.render().unwrap(), "name = 'O''Brien'");
}

#[test]
fn is_null_variants() {
    assert_eq!(Pred::IsNull { col: "c".into(), negated: false }.render().unwrap(), "c IS NULL");
    assert_eq!(Pred::IsNull { col: "c".into(), negated: true }.render().unwrap(), "c IS NOT NULL");
}

#[test]
fn like_is_prefix_only() {
    let p = Pred::LikePrefix { col: "code".into(), prefix: "AB".into() };
    assert_eq!(p.render().unwrap(), "code LIKE 'AB%'");
}

#[test]
fn left_whitelisted_expr() {
    let p = Pred::In {
        col: ColExpr::Left("code".into(), 1),
        values: vec![Scalar::Text("4".into()), Scalar::Text("6".into())],
        negated: false,
    };
    assert_eq!(p.render().unwrap(), "LEFT(code, 1) IN ('4', '6')");
}

#[test]
fn and_drops_unsupported_conjuncts() {
    let p = Pred::And(vec![
        Pred::Compare { left: col("a"), op: CmpOp::Eq, value: Scalar::Int(1) },
        Pred::Unsupported,
        Pred::Compare { left: col("b"), op: CmpOp::Gt, value: Scalar::Int(2) },
    ]);
    assert_eq!(p.render().unwrap(), "(a = 1 AND b > 2)");
}

#[test]
fn and_of_single_foldable_has_no_parens() {
    let p = Pred::And(vec![
        Pred::Unsupported,
        Pred::Compare { left: col("a"), op: CmpOp::Eq, value: Scalar::Int(1) },
    ]);
    assert_eq!(p.render().unwrap(), "a = 1");
}

#[test]
fn and_all_unsupported_is_none() {
    let p = Pred::And(vec![Pred::Unsupported, Pred::Unsupported]);
    assert_eq!(p.render(), None);
}

#[test]
fn or_is_all_or_nothing() {
    let foldable = Pred::Or(vec![
        Pred::Compare { left: col("a"), op: CmpOp::Eq, value: Scalar::Int(1) },
        Pred::Compare { left: col("b"), op: CmpOp::Eq, value: Scalar::Int(2) },
    ]);
    assert_eq!(foldable.render().unwrap(), "(a = 1 OR b = 2)");

    let partial = Pred::Or(vec![
        Pred::Compare { left: col("a"), op: CmpOp::Eq, value: Scalar::Int(1) },
        Pred::Unsupported,
    ]);
    assert_eq!(partial.render(), None);
}

#[test]
fn top_clause_is_trailing_fragment() {
    assert_eq!(top_clause(5), "TOP 5");
}

#[test]
fn render_where_combines_top_level_quals() {
    let quals = vec![
        Pred::Compare { left: col("a"), op: CmpOp::Eq, value: Scalar::Int(1) },
        Pred::Compare { left: col("b"), op: CmpOp::Ne, value: Scalar::Int(2) },
    ];
    assert_eq!(
        render_where(&quals).unwrap(),
        "(a = 1 AND (b <> 2 AND b IS NOT NULL))"
    );
}

// ---- further cases ----

#[test]
fn scalar_literals() {
    assert_eq!(Scalar::Int(-42).render(), "-42");
    assert_eq!(Scalar::Int(0).render(), "0");
    assert_eq!(Scalar::Int(i64::MIN).render(), i64::MIN.to_string());
    assert_eq!(Scalar::Int(i64::MAX).render(), i64::MAX.to_string());
    assert_eq!(Scalar::Bool(true).render(), "TRUE");
    assert_eq!(Scalar::Bool(false).render(), "FALSE");
    assert_eq!(Scalar::Float(1.5f64.to_string()).render(), "1.5");
    assert_eq!(Scalar::Text("''".into()).render(), "''''''");
    assert_eq!(Scalar::Text(String::new()).render(), "''");
}

#[test]
fn column_expressions() {
    assert_eq!(ColExpr::Left("code".into(), 4294967295).render(), "LEFT(code, 4294967295)");
    assert_eq!(ColExpr::Left("code".into(), 3).column(), "code");
    assert_eq!(col("x").column(), "x");
    assert_eq!(CmpOp::Ne.sql(), "<>");
    assert_eq!(CmpOp::Ge.sql(), ">=");
}

#[test]
fn left_comparison_guard_names_the_column() {
    let p = Pred::Compare {
        left: ColExpr::Left("code".into(), 2),
        op: CmpOp::Ne,
        value: Scalar::Text("AB".into()),
    };
    assert_eq!(p.render().unwrap(), "(LEFT(code, 2) <> 'AB' AND code IS NOT NULL)");
}

#[test]
fn like_prefix_escapes_quotes() {
    let p = Pred::LikePrefix { col: "n".into(), prefix: "O'B".into() };
    assert_eq!(p.render().unwrap(), "n LIKE 'O''B%'");
}

#[test]
fn empty_or_is_not_pushed() {
    assert_eq!(Pred::Or(vec![]).render(), None);
    assert_eq!(Pred::And(vec![]).render(), None);
    assert_eq!(render_where(&[]), None);
}

#[test]
fn nested_and_inside_or_pushes_its_foldable_part() {
    let p = Pred::Or(vec![
        Pred::And(vec![
            Pred::Compare { left: col("a"), op: CmpOp::Eq, value: Scalar::Int(1) },
            Pred::Unsupported,
        ]),
        Pred::IsNull { col: "b".into(), negated: false },
    ]);
    assert_eq!(p.render().unwrap(), "(a = 1 OR b IS NULL)");
}

#[test]
fn top_clause_edges() {
    assert_eq!(top_clause(0), "TOP 0");
    assert_eq!(top_clause(1), "TOP 1");
    assert_eq!(top_clause(u64::MAX), format!("TOP {}", u64::MAX));
}

#[test]
fn predicate_columns_are_quoted_like_the_projection() {
    let p = Pred::Compare { left: col("group"), op: CmpOp::Ne, value: Scalar::Int(1) };
    assert_eq!(p.render().unwrap(), "(\"group\" <> 1 AND \"group\" IS NOT NULL)");
    let p = Pred::IsNull { col: "my col".into(), negated: true };
    assert_eq!(p.render().unwrap(), "\"my col\" IS NOT NULL");
    let p = Pred::LikePrefix { col: "a\"b".into(), prefix: "x".into() };
    assert_eq!(p.render().unwrap(), "\"a\"\"b\" LIKE 'x%'");
    let p = Pred::In { col: ColExpr::Left("order".into(), 2), values: vec![Scalar::Int(1)], negated: true };
    assert_eq!(p.render().unwrap(), "(LEFT(\"order\", 2) NOT IN (1) AND \"order\" IS NOT NULL)");
}

#[test]
fn date_and_timestamp_literals() {
    let d = Scalar::Date { y: 2024, m: 3, d: 7 };
    assert_eq!(d.render(), "'2024-03-07'");
    assert_eq!(Scalar::Date { y: 12345, m: 12, d: 31 }.render(), "'12345-12-31'");
    assert_eq!(Scalar::Date { y: -44, m: 3, d: 15 }.render(), format!("'{:04}-03-15'", -44));
    let t = Scalar::Timestamp { y: 2024, mo: 3, d: 7, h: 9, mi: 5, s: 0 };
    assert_eq!(t.render(), "'2024-03-07 09:05:00'");
    let p = Pred::Compare { left: col("sold"), op: CmpOp::Ge, value: d };
    assert_eq!(p.render().unwrap(), "sold >= '2024-03-07'");
}
