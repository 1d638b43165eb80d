use rssql::sql_text::decimal_string;
use rssql::{
    ColExpr, Comparison, Executable, JoinArg, NormalQuery, QueryCore, RawQuery, RowStream,
    SqlValue, SsqlError,
};

fn s(x: &str) -> String {
    x.to_string()
}

fn cols(names: &[&str]) -> Vec<String> {
    names.iter().map(|n| n.to_string()).collect()
}

fn customer_list() -> QueryCore<NormalQuery> {
    QueryCore::new(
        (s("CUSTOMER_LIST"), cols(&["ship_to_id", "ship_to", "volume", "container"])),
        vec![(
            s("SLOW_MOVING"),
            s("ON CUSTOMER_LIST.ship_to = SLOW_MOVING.stock_in_day"),
        )],
    )
}

fn col(t: &str, f: &str) -> ColExpr {
    ColExpr::new(s(t), s(f))
}

#[test]
fn test() {
    let query = customer_list().join(
        s("SLOW_MOVING"),
        cols(&["stock_in_day", "total_value", "Week"]),
        JoinArg::Inner,
    );
    let sql = query.statement().unwrap();
    assert_eq!(
        sql,
        "SELECT CUSTOMER_LIST.ship_to_id AS \"CUSTOMER_LIST.ship_to_id\",\
CUSTOMER_LIST.ship_to AS \"CUSTOMER_LIST.ship_to\",\
CUSTOMER_LIST.volume AS \"CUSTOMER_LIST.volume\",\
CUSTOMER_LIST.container AS \"CUSTOMER_LIST.container\",\
SLOW_MOVING.stock_in_day AS \"SLOW_MOVING.stock_in_day\",\
SLOW_MOVING.total_value AS \"SLOW_MOVING.total_value\",\
SLOW_MOVING.Week AS \"SLOW_MOVING.Week\" \
FROM CUSTOMER_LIST  INNER JOIN SLOW_MOVING ON CUSTOMER_LIST.ship_to = SLOW_MOVING.stock_in_day "
    );
    assert!(query.contains_table(&s("SLOW_MOVING")));
}

#[test]
fn round_trip_filter_and_order() {
    let mut q = QueryCore::new((s("T"), cols(&["a", "b"])), vec![]);
    q.filter(col("T", "a").compare(Comparison::Eq, SqlValue::Int(5))).unwrap();
    q.order_by(col("T", "b"), true).unwrap();
    assert_eq!(
        q.statement().unwrap(),
        "SELECT T.a AS \"T.a\",T.b AS \"T.b\" FROM T  WHERE T.a = @p1 ORDER BY T.b ASC"
    );
    assert_eq!(q.params(), &vec![SqlValue::Int(5)]);
}

#[test]
fn filters_number_their_parameters_in_order() {
    let mut q = QueryCore::new((s("T"), cols(&["a", "b"])), vec![]);
    for i in 0..11i64 {
        q.filter(col("T", "a").compare(Comparison::Gt, SqlValue::Int(i))).unwrap();
    }
    assert_eq!(q.params().len(), 11);
    assert_eq!(q.params()[10], SqlValue::Int(10));
    let where_clause = q.get_where_clause();
    assert!(where_clause.starts_with(" WHERE T.a > @p1 AND T.a > @p2 AND"));
    assert!(where_clause.ends_with("T.a > @p10 AND T.a > @p11"));
}

#[test]
fn filter_out_of_scope_is_refused() {
    let mut q = QueryCore::new((s("T"), cols(&["a"])), vec![]);
    q.filter(col("T", "a").compare(Comparison::Ne, SqlValue::Text(s("x")))).unwrap();
    let before = q.statement().unwrap();
    let r = q.filter(col("U", "a").compare(Comparison::Eq, SqlValue::Int(1)));
    assert_eq!(r, Err(SsqlError::Scope(s("U"))));
    assert_eq!(q.statement().unwrap(), before);
    assert_eq!(q.params(), &vec![SqlValue::Text(s("x"))]);
}

#[test]
fn order_out_of_scope_is_refused() {
    let mut q = QueryCore::new((s("T"), cols(&["a"])), vec![]);
    assert_eq!(q.order_by(col("U", "a"), false), Err(SsqlError::Scope(s("U"))));
    assert_eq!(q.get_order_clause(), "");
    assert_eq!(q.statement().unwrap(), "SELECT T.a AS \"T.a\" FROM T ");
}

#[test]
fn clauses_absent_without_calls() {
    let q = QueryCore::new((s("T"), cols(&["a"])), vec![]);
    assert_eq!(q.get_where_clause(), "");
    assert_eq!(q.get_order_clause(), "");
}

#[test]
fn several_order_keys_in_call_order() {
    let mut q = QueryCore::new((s("T"), cols(&["a", "b"])), vec![]);
    q.order_by(col("T", "b"), false).unwrap();
    q.order_by(col("T", "a"), true).unwrap();
    assert_eq!(q.get_order_clause(), " ORDER BY T.b DESC, T.a ASC");
}

#[test]
fn joins_in_call_order() {
    let rels = vec![(s("U"), s("ON T.a = U.a")), (s("V"), s("ON T.b = V.b"))];
    let q = QueryCore::new((s("T"), cols(&["a", "b"])), rels)
        .join(s("U"), cols(&["c"]), JoinArg::Left)
        .join(s("V"), cols(&["d"]), JoinArg::Right)
        .join(s("W"), cols(&["e"]), JoinArg::Outer);
    assert!(q.contains_table(&s("T")));
    assert!(q.contains_table(&s("W")));
    assert!(!q.contains_table(&s("X")));
    assert_eq!(
        q.statement().unwrap(),
        "SELECT T.a AS \"T.a\",T.b AS \"T.b\",U.c AS \"U.c\",V.d AS \"V.d\",W.e AS \"W.e\" \
FROM T  LEFT JOIN U ON T.a = U.a  RIGHT JOIN V ON T.b = V.b  OUTER JOIN W  "
    );
}

#[test]
fn filter_on_joined_table() {
    let mut q = QueryCore::new((s("T"), cols(&["a"])), vec![(s("U"), s("ON T.a = U.a"))])
        .join(s("U"), cols(&["c"]), JoinArg::Inner);
    q.filter(col("U", "c").compare(Comparison::Le, SqlValue::Bool(true))).unwrap();
    q.filter(col("T", "a").compare(Comparison::Lt, SqlValue::Null)).unwrap();
    assert_eq!(q.get_where_clause(), " WHERE U.c <= @p1 AND T.a < @p2");
    assert_eq!(q.params(), &vec![SqlValue::Bool(true), SqlValue::Null]);
}

#[test]
fn empty_projection_is_refused() {
    let q = QueryCore::new((s("T"), cols(&["a"])), vec![])
        .join(s("U"), vec![], JoinArg::Inner)
        .join(s("V"), vec![], JoinArg::Inner);
    assert_eq!(q.statement(), Err(SsqlError::EmptyProjection(s("U"))));
    let e = QueryCore::new((s("T"), vec![]), vec![]);
    assert_eq!(e.select_fields(), Err(SsqlError::EmptyProjection(s("T"))));
}

#[test]
fn raw_query_runs_its_text() {
    let q: QueryCore<RawQuery> =
        QueryCore::raw(s("SELECT 1 WHERE x = @p1"), vec![SqlValue::Int(3)]);
    assert_eq!(q.statement().unwrap(), "SELECT 1 WHERE x = @p1");
    assert_eq!(q.params(), &vec![SqlValue::Int(3)]);
    let d: QueryCore<RawQuery> = QueryCore::default();
    assert_eq!(d.statement(), Err(SsqlError::MissingRawSql));
}

#[test]
fn row_stream_ends_and_stays_ended() {
    let mut st = RowStream::new(|x: i32| x * 10);
    assert_eq!(st.pull(Some(1)), Some(10));
    assert_eq!(st.pull(Some(2)), Some(20));
    assert!(!st.is_done());
    assert_eq!(st.pull(None::<i32>), None);
    assert!(st.is_done());
    assert_eq!(st.pull(Some(3)), None);
    assert_eq!(st.pull(None::<i32>), None);
}

#[test]
fn comparison_and_join_keywords() {
    assert_eq!(Comparison::Eq.symbol(), "=");
    assert_eq!(Comparison::Ne.symbol(), "<>");
    assert_eq!(Comparison::Ge.symbol(), ">=");
    assert_eq!(JoinArg::Outer.keyword(), "OUTER");
    assert_eq!(col("T", "a").full_column_name(), "T.a");
}

#[test]
fn decimal_rendering() {
    assert_eq!(decimal_string(0), "0");
    assert_eq!(decimal_string(7), "7");
    assert_eq!(decimal_string(10), "10");
    assert_eq!(decimal_string(4096), "4096");
    assert_eq!(decimal_string(usize::MAX), usize::MAX.to_string());
}

#[test]
fn filter_to_sql_advances_counter() {
    let mut counter: usize = 4;
    let mut params = vec![SqlValue::Null];
    let frag = col("T", "a")
        .compare(Comparison::Ge, SqlValue::Int(-2))
        .to_sql(&mut counter, &mut params);
    assert_eq!(frag, "T.a >= @p5");
    assert_eq!(counter, 5);
    assert_eq!(params, vec![SqlValue::Null, SqlValue::Int(-2)]);
}
