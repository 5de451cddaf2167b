use csv_search::{
    infer_or_keep, parse_query, Expected, ColumnType, CompiledExpr, Expr, Filter, LoadedCSV, Query, QueryError, Rows, Test,
};

fn strings(v: &[&str]) -> Vec<String> {
    v.iter().map(|s| s.to_string()).collect()
}

fn table(names: &[&str], rows: &[&[&str]]) -> LoadedCSV {
    let mut r = Rows::empty(names.len());
    for row in rows {
        r.push(strings(row));
    }
    LoadedCSV { column_names: strings(names), rows: r }
}

fn var(name: &str) -> Expr {
    Expr::Var { column_idx: name.into() }
}

fn constant(val: &str) -> Expr {
    Expr::Const { val: val.into() }
}

fn run(t: &LoadedCSV, q: &str) -> Vec<Vec<String>> {
    let query = parse_query(q).unwrap();
    let mut out = t.execute_query(query).unwrap();
    out.collect_rows()
}

fn sample() -> LoadedCSV {
    table(
        &["name", "age", "city"],
        &[&["ann", "31", "oslo"], &["bob", "25", "rome"], &["cid", "40", "oslo"], &["dee", "7", "bern"]],
    )
}

#[test]
fn test_parse1() {
    let query = parse_query("PROJECT a").unwrap();
    assert!(query.filters.is_empty());
    assert_eq!(&query.projections, &["a"]);
}

#[test]
fn test_parse2() {
    assert!(parse_query("PROJECT").is_err());
}

#[test]
fn test_parse3() {
    let query = parse_query("PROJECT a, b FILTER a > \"3\", b = \"4\", c >= \"5\"").unwrap();
    let f1 = Filter { left: var("a"), right: constant("3"), test: Test::Greater };
    let f2 = Filter { left: var("b"), right: constant("4"), test: Test::Equal };
    let f3 = Filter { left: var("c"), right: constant("5"), test: Test::GreaterOrEqual };
    assert_eq!(query.filters, [f1, f2, f3]);
    assert_eq!(query.projections, ["a", "b"]);
}

#[test]
fn test_compile() {
    let names: [String; 3] = ["a".into(), "b".into(), "c".into()];
    let types: [ColumnType; 3] = [ColumnType::Integer, ColumnType::String, ColumnType::String];
    let f1 = Filter { left: var("a"), right: constant("3"), test: Test::Greater };
    let f2 = Filter { left: var("b"), right: constant("4"), test: Test::Equal };
    let f3 = Filter { left: var("c"), right: constant("5"), test: Test::GreaterOrEqual };
    let query = Query { projections: vec!["a".into(), "b".into()], filters: vec![f1, f2, f3] };
    assert!(query.compile(&types, &names).is_ok());
}

#[test]
fn compile_lowers_literals_by_column_type() {
    let query = parse_query("PROJECT a, b FILTER a > \"3\", b = \"4\", c >= \"5\"").unwrap();
    let names = strings(&["a", "b", "c"]);
    let types = [ColumnType::Integer, ColumnType::String, ColumnType::String];
    let cq = query.compile(&types, &names).unwrap();
    assert_eq!(cq.projections, vec![(0usize, "a".to_string()), (1usize, "b".to_string())]);
    assert_eq!(cq.filters.len(), 3);
    assert!(matches!(cq.filters[0].left, CompiledExpr::Var { column_idx: 0 }));
    assert!(matches!(cq.filters[0].right, CompiledExpr::IntConst { val: 3 }));
    assert_eq!(cq.filters[0].ty, ColumnType::Integer);
    assert!(matches!(&cq.filters[1].right, CompiledExpr::StringConst { val } if val == "4"));
    assert_eq!(cq.filters[1].ty, ColumnType::String);
    assert!(matches!(cq.filters[2].left, CompiledExpr::Var { column_idx: 2 }));
    assert!(matches!(&cq.filters[2].right, CompiledExpr::StringConst { val } if val == "5"));
    assert_eq!(cq.filters[2].test, Test::GreaterOrEqual);
}

#[test]
fn compile_unknown_filter_column() {
    let query = parse_query("PROJECT a FILTER z = \"1\"").unwrap();
    let names = strings(&["a", "b"]);
    let types = [ColumnType::Integer, ColumnType::String];
    match query.compile(&types, &names) {
        Err(QueryError::UnknownColumn { name }) => assert_eq!(name, "z"),
        other => panic!("unexpected {:?}", other),
    }
}

#[test]
fn compile_unknown_projection() {
    let query = parse_query("PROJECT q").unwrap();
    let names = strings(&["a"]);
    let types = [ColumnType::Integer];
    assert!(matches!(query.compile(&types, &names), Err(QueryError::UnknownColumn { .. })));
}

#[test]
fn compile_type_mismatch() {
    let query = parse_query("PROJECT a FILTER a = b").unwrap();
    let names = strings(&["a", "b"]);
    let types = [ColumnType::Integer, ColumnType::String];
    assert!(matches!(
        query.compile(&types, &names),
        Err(QueryError::TypeMismatch { left: ColumnType::Integer, right: ColumnType::String })
    ));
}

#[test]
fn compile_two_constants_is_ambiguous() {
    let query = parse_query("PROJECT a FILTER \"3\" = \"4\"").unwrap();
    let names = strings(&["a"]);
    let types = [ColumnType::Integer];
    assert!(matches!(query.compile(&types, &names), Err(QueryError::AmbiguousFilterType)));
}

#[test]
fn compile_malformed_integer_literal() {
    let query = parse_query("PROJECT a FILTER a = \"x1\"").unwrap();
    let names = strings(&["a"]);
    let types = [ColumnType::Integer];
    match query.compile(&types, &names) {
        Err(QueryError::MalformedInteger { literal }) => assert_eq!(literal, "x1"),
        other => panic!("unexpected {:?}", other),
    }
}

#[test]
fn compile_schema_arity_mismatch() {
    let query = parse_query("PROJECT a").unwrap();
    let names = strings(&["a", "b"]);
    let types = [ColumnType::Integer];
    assert!(matches!(query.compile(&types, &names), Err(QueryError::SchemaArityMismatch)));
}

#[test]
fn duplicate_column_names_resolve_to_last() {
    let query = parse_query("PROJECT a").unwrap();
    let names = strings(&["a", "b", "a"]);
    let types = [ColumnType::Integer, ColumnType::Integer, ColumnType::Integer];
    let cq = query.compile(&types, &names).unwrap();
    assert_eq!(cq.projections[0].0, 2);
}

#[test]
fn column_types_are_inferred() {
    let t = table(&["n", "s", "m"], &[&["1", "x", "-5"], &["22", "3", "+7"], &["-3", "4", "9"]]);
    assert_eq!(t.rows.types, vec![ColumnType::Integer, ColumnType::String, ColumnType::Integer]);
}

#[test]
fn one_non_integer_field_makes_column_text() {
    let t = table(&["n"], &[&["1"], &["2"], &["two"], &["4"]]);
    assert_eq!(t.rows.types, vec![ColumnType::String]);
    let t = table(&["n"], &[&["1"], &["2"], &["4"], &[" 5"]]);
    assert_eq!(t.rows.types, vec![ColumnType::String]);
    let t = table(&["n"], &[&["9223372036854775808"]]);
    assert_eq!(t.rows.types, vec![ColumnType::String]);
    let t = table(&["n"], &[&["-9223372036854775808"]]);
    assert_eq!(t.rows.types, vec![ColumnType::Integer]);
}

#[test]
fn empty_table_columns_are_integer() {
    let t = table(&["a", "b"], &[]);
    assert_eq!(t.rows.types, vec![ColumnType::Integer, ColumnType::Integer]);
}

#[test]
fn type_fold_step() {
    assert_eq!(infer_or_keep(ColumnType::Integer, "12"), ColumnType::Integer);
    assert_eq!(infer_or_keep(ColumnType::Integer, "1a"), ColumnType::String);
    assert_eq!(infer_or_keep(ColumnType::Integer, "-"), ColumnType::String);
    assert_eq!(infer_or_keep(ColumnType::Integer, "+"), ColumnType::String);
    assert_eq!(infer_or_keep(ColumnType::Integer, ""), ColumnType::String);
    assert_eq!(infer_or_keep(ColumnType::Integer, "+7"), ColumnType::Integer);
    assert_eq!(infer_or_keep(ColumnType::Integer, "1_000"), ColumnType::String);
    assert_eq!(infer_or_keep(ColumnType::Integer, "3 "), ColumnType::String);
    assert_eq!(infer_or_keep(ColumnType::String, "12"), ColumnType::String);
}

#[test]
fn project_only_returns_every_row_in_order() {
    let t = sample();
    let out = run(&t, "PROJECT name");
    assert_eq!(out, vec![strings(&["ann"]), strings(&["bob"]), strings(&["cid"]), strings(&["dee"])]);
}

#[test]
fn unfiltered_projection_reorders_and_repeats() {
    let t = sample();
    let out = run(&t, "PROJECT city, name, city");
    assert_eq!(out[0], strings(&["oslo", "ann", "oslo"]));
    assert_eq!(out[3], strings(&["bern", "dee", "bern"]));
    assert_eq!(out.len(), 4);
}

#[test]
fn integer_filters_compare_numerically() {
    let t = sample();
    assert_eq!(run(&t, "PROJECT name FILTER age > \"25\""), vec![strings(&["ann"]), strings(&["cid"])]);
    assert_eq!(
        run(&t, "PROJECT name FILTER age >= \"25\""),
        vec![strings(&["ann"]), strings(&["bob"]), strings(&["cid"])]
    );
    assert_eq!(run(&t, "PROJECT name FILTER \"8\" > age"), vec![strings(&["dee"])]);
}

#[test]
fn text_filters_compare_lexicographically() {
    let t = sample();
    assert_eq!(run(&t, "PROJECT name FILTER city = \"oslo\""), vec![strings(&["ann"]), strings(&["cid"])]);
    assert_eq!(run(&t, "PROJECT name FILTER city > \"oslo\""), vec![strings(&["bob"])]);
    assert_eq!(run(&t, "PROJECT name FILTER name >= \"bob\", city = \"oslo\""), vec![strings(&["cid"])]);
}

#[test]
fn column_against_column() {
    let t = table(&["x", "y"], &[&["1", "2"], &["3", "3"], &["5", "4"]]);
    assert_eq!(run(&t, "PROJECT x FILTER x >= y"), vec![strings(&["3"]), strings(&["5"])]);
}

#[test]
fn same_query_twice_gives_same_rows() {
    let t = sample();
    let q = "PROJECT name, age FILTER city = \"oslo\"";
    assert_eq!(run(&t, q), run(&t, q));
}

#[test]
fn output_headers_follow_projection() {
    let t = sample();
    let out = t.execute_query(parse_query("PROJECT age, name, age").unwrap()).unwrap();
    assert_eq!(out.headers, strings(&["age", "name", "age"]));
}

#[test]
fn next_yields_rows_then_none() {
    let t = sample();
    let mut out = t.execute_query(parse_query("PROJECT name FILTER age > \"30\"").unwrap()).unwrap();
    assert_eq!(out.next(), Some(strings(&["ann"])));
    assert_eq!(out.next(), Some(strings(&["cid"])));
    assert_eq!(out.next(), None);
    assert_eq!(out.next(), None);
}

#[test]
fn parse_rejects_malformed_text() {
    assert!(parse_query("PROJECTa").is_err());
    assert!(parse_query("PROJECT a,").is_err());
    assert!(parse_query("PROJECT a FILTER").is_err());
    assert!(parse_query("PROJECT a FILTER a < \"1\"").is_err());
    assert!(parse_query("PROJECT a FILTER a = \"\"").is_err());
    assert!(parse_query("PROJECT a junk").is_err());
    assert!(parse_query("project a").is_err());
    assert!(matches!(parse_query("PROJECT a1"), Err(QueryError::Syntax { expected: Expected::FilterOrEnd, .. })));
    assert!(matches!(parse_query("PROJECT 1"), Err(QueryError::Syntax { position: 8, expected: Expected::ColumnName })));
    assert!(matches!(parse_query("PROJECT a, b2"), Err(QueryError::Syntax { .. })));
    assert!(matches!(parse_query("SELECT a"), Err(QueryError::Syntax { position: 0, expected: Expected::Project })));
}

#[test]
fn parse_accepts_whitespace_and_trailing_space() {
    let q = parse_query("PROJECT  a ,b\tFILTER b=\"x\" , a>=c  ").unwrap();
    assert_eq!(q.projections, ["a", "b"]);
    assert_eq!(
        q.filters,
        [
            Filter { left: var("b"), right: constant("x"), test: Test::Equal },
            Filter { left: var("a"), right: var("c"), test: Test::GreaterOrEqual },
        ]
    );
}

#[test]
fn test_methods() {
    assert!(Test::Greater.test(3, 2));
    assert!(!Test::Greater.test(2, 2));
    assert!(Test::GreaterOrEqual.test(2, 2));
    assert!(Test::Equal.test(-1, -1));
    assert!(Test::Greater.test_text("b", "abc"));
    assert!(!Test::Greater.test_text("ab", "abc"));
    assert!(Test::GreaterOrEqual.test_text("abc", "abc"));
    assert!(!Test::Equal.test_text("abc", "abd"));
}

#[test]
fn resolve_const_refuses_a_column() {
    assert!(matches!(var("a").resolve_const(ColumnType::Integer), Err(QueryError::AmbiguousFilterType)));
    assert!(matches!(constant("12").resolve_const(ColumnType::Integer), Ok(CompiledExpr::IntConst { val: 12 })));
}
