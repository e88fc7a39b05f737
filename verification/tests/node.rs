use datafusion::arrow::datatypes::DataType;
use remote_table::{
    assemble_stream, assemble_stream_from, prepare_filters, Column, Dialect, ExecError, Field,
    Literal, LiteralValue, Operator, Predicate, RemoteQuery, RemoteTableExec, Schema, Transform,
};
use std::cell::RefCell;
use std::sync::Arc;

struct Allows;

impl Dialect for Allows {
    fn allow_limit_pushdown(&self, _sql: &str) -> bool {
        true
    }
}

struct Denies;

impl Dialect for Denies {
    fn allow_limit_pushdown(&self, _sql: &str) -> bool {
        false
    }
}

/// Allows a pushed-down limit for statements that begin with `select`.
struct SelectOnly;

impl Dialect for SelectOnly {
    fn allow_limit_pushdown(&self, sql: &str) -> bool {
        sql.trim_start().to_lowercase().starts_with("select")
    }
}

/// Names the columns of its output after a fixed list.
struct Rename(Vec<&'static str>);

impl Transform for Rename {
    fn transform_schema(&self, declared: &Schema, _remote: Option<&Schema>) -> Result<Schema, String> {
        Ok(Schema::new(
            self.0
                .iter()
                .zip(declared.fields.iter())
                .map(|(n, f)| Field::new(n.to_string(), f.data_type.clone(), f.nullable))
                .collect(),
        ))
    }
}

/// Produces the declared schema from the remote one, which it needs.
struct ToDeclared;

impl Transform for ToDeclared {
    fn transform_schema(&self, declared: &Schema, remote: Option<&Schema>) -> Result<Schema, String> {
        remote
            .map(|_| declared.clone())
            .ok_or_else(|| "the remote schema is not known".to_string())
    }
}

#[derive(Default)]
struct Recorder {
    received: RefCell<Vec<(String, Vec<Predicate>, Option<usize>)>>,
}

impl Recorder {
    fn query(&self, q: &RemoteQuery) {
        self.received
            .borrow_mut()
            .push((q.sql.clone(), q.filters.clone(), q.limit));
    }
}

const OTHER_COUNT: &str = "the transform's schema has another column count than the table's";

fn field(name: &str, data_type: DataType) -> Field {
    Field::new(name.to_string(), data_type, true)
}

fn declared() -> Schema {
    Schema::new(vec![
        field("id", DataType::Int64),
        field("name", DataType::Utf8),
    ])
}

fn col(name: &str) -> Predicate {
    Predicate::Column(Column::new_unqualified(name.to_string()))
}

fn binary(left: Predicate, op: Operator, right: Predicate) -> Predicate {
    Predicate::Binary {
        left: Box::new(left),
        op,
        right: Box::new(right),
    }
}

fn id_above_ten() -> Predicate {
    binary(col("id"), Operator::Gt, Predicate::Literal(Literal::new(DataType::Int64, LiteralValue::Int(10))))
}

fn name_is_x() -> Predicate {
    binary(
        col("name"),
        Operator::Eq,
        Predicate::Literal(Literal::new(
            DataType::Utf8,
            LiteralValue::Utf8("x".to_string()),
        )),
    )
}

fn scan<O: Dialect>(
    options: O,
    filters: Vec<Predicate>,
    limit: Option<usize>,
) -> RemoteTableExec<O, Rename, Recorder> {
    RemoteTableExec::try_new(
        options,
        "select * from t".to_string(),
        declared(),
        None,
        Some(vec![1]),
        filters,
        limit,
        None,
        Arc::new(Recorder::default()),
    )
    .unwrap()
}

#[test]
fn scan_without_transform_end_to_end() {
    let node = scan(Allows, vec![id_above_ten()], Some(5));
    assert_eq!(node.schema(), &Schema::new(vec![field("name", DataType::Utf8)]));
    let plan = node.execute(0).unwrap();
    assert!(!plan.transformed);
    assert_eq!(
        plan.query,
        RemoteQuery {
            sql: "select * from t".to_string(),
            table_schema: declared(),
            projection: Some(vec![1]),
            filters: vec![id_above_ten()],
            limit: Some(5),
        }
    );
    node.conn().query(&plan.query);
    assert_eq!(
        *node.conn().received.borrow(),
        vec![("select * from t".to_string(), vec![id_above_ten()], Some(5))]
    );
}

#[test]
fn scan_with_transform_end_to_end() {
    let remote = Schema::new(vec![
        field("raw_id", DataType::Int64),
        field("raw_name", DataType::Utf8),
    ]);
    let node: RemoteTableExec<Allows, ToDeclared, Recorder> = RemoteTableExec::try_new(
        Allows,
        "select raw_id, raw_name from t".to_string(),
        declared(),
        Some(remote.clone()),
        None,
        vec![name_is_x()],
        None,
        Some(Arc::new(ToDeclared)),
        Arc::new(Recorder::default()),
    )
    .unwrap();
    assert_eq!(node.schema(), &declared());
    assert_eq!(node.remote_schema(), Some(&remote));
    let plan = node.execute(0).unwrap();
    assert!(plan.transformed);
    assert_eq!(plan.query.filters, vec![name_is_x()]);
    assert_eq!(plan.query.table_schema, declared());
    assert_eq!(plan.query.projection, None);
    assert_eq!(plan.query.limit, None);
}

#[test]
fn filters_are_sent_in_declared_names() {
    let node: RemoteTableExec<Allows, Rename, Recorder> = RemoteTableExec::try_new(
        Allows,
        "select * from t".to_string(),
        declared(),
        None,
        Some(vec![1, 0]),
        vec![
            binary(col("LABEL"), Operator::Eq, col("KEY")),
            Predicate::Column(Column {
                relation: Some("t".to_string()),
                name: "KEY".to_string(),
            }),
        ],
        Some(3),
        Some(Arc::new(Rename(vec!["KEY", "LABEL"]))),
        Arc::new(Recorder::default()),
    )
    .unwrap();
    assert_eq!(
        node.schema(),
        &Schema::new(vec![
            field("LABEL", DataType::Utf8),
            field("KEY", DataType::Int64),
        ])
    );
    let plan = node.execute(0).unwrap();
    assert!(plan.transformed);
    assert_eq!(
        plan.query.filters,
        vec![binary(col("name"), Operator::Eq, col("id")), col("id")]
    );
    assert_eq!(plan.query.limit, Some(3));
    assert_eq!(plan.query.projection, Some(vec![1, 0]));
}

#[test]
fn denied_pushdown_sends_no_limit() {
    let node = scan(Denies, vec![], Some(10));
    let plan = node.execute(0).unwrap();
    assert_eq!(plan.query.limit, None);
    assert_eq!(node.fetch(), Some(10));
    node.conn().query(&plan.query);
    assert_eq!(
        *node.conn().received.borrow(),
        vec![("select * from t".to_string(), vec![], None)]
    );
}

#[test]
fn with_fetch_is_refused_where_pushdown_is_denied() {
    let node = scan(Denies, vec![], Some(10));
    assert!(node.with_fetch(Some(3)).is_none());
    assert!(node.with_fetch(None).is_none());
    assert!(node.with_fetch(Some(0)).is_none());
    assert!(node.with_fetch(Some(usize::MAX)).is_none());
    assert!(node.with_fetch_decided(false, Some(3)).is_none());
    assert_eq!(node.fetch(), Some(10));
}

#[test]
fn with_fetch_changes_the_limit_alone() {
    let node = scan(Allows, vec![id_above_ten()], Some(10));
    let other = node.with_fetch(Some(3)).unwrap();
    assert_eq!(other.fetch(), Some(3));
    assert_eq!(node.fetch(), Some(10));
    assert_eq!(other.sql(), node.sql());
    assert_eq!(other.table_schema(), node.table_schema());
    assert_eq!(other.remote_schema(), node.remote_schema());
    assert_eq!(other.projection(), node.projection());
    assert_eq!(other.filters(), node.filters());
    assert_eq!(other.schema(), node.schema());
    assert!(other.transform().is_none());
    assert!(Arc::ptr_eq(other.conn(), node.conn()));
    let unlimited = other.with_fetch(None).unwrap();
    assert_eq!(unlimited.fetch(), None);
    assert_eq!(other.fetch(), Some(3));
}

#[test]
fn with_fetch_shares_the_transform() {
    let transform = Arc::new(Rename(vec!["a", "b"]));
    let node: RemoteTableExec<Allows, Rename, Recorder> = RemoteTableExec::try_new(
        Allows,
        "select 1".to_string(),
        declared(),
        None,
        None,
        vec![],
        None,
        Some(transform.clone()),
        Arc::new(Recorder::default()),
    )
    .unwrap();
    let other = node.with_limit(Some(1));
    assert!(Arc::ptr_eq(other.transform().unwrap(), &transform));
    assert_eq!(other.fetch(), Some(1));
}

#[test]
fn policy_is_asked_about_the_query_text() {
    let filters: Vec<Predicate> = vec![];
    let make = |sql: &str| -> RemoteTableExec<SelectOnly, Rename, Recorder> {
        RemoteTableExec::try_new(
            SelectOnly,
            sql.to_string(),
            declared(),
            None,
            None,
            filters.clone(),
            Some(7),
            None,
            Arc::new(Recorder::default()),
        )
        .unwrap()
    };
    let select = make("  SELECT * FROM t");
    assert_eq!(select.execute(0).unwrap().query.limit, Some(7));
    assert_eq!(select.with_fetch(Some(1)).unwrap().fetch(), Some(1));
    let call = make("call report()");
    assert_eq!(call.execute(0).unwrap().query.limit, None);
    assert!(call.with_fetch(Some(1)).is_none());
    assert_eq!(call.fetch(), Some(7));
}

#[test]
fn unknown_filter_column_fails_the_stream() {
    let node = scan(
        Allows,
        vec![
            id_above_ten(),
            binary(col("c"), Operator::Gt, Predicate::Literal(Literal::new(DataType::Int64, LiteralValue::Int(5)))),
        ],
        None,
    );
    assert_eq!(
        node.execute(0),
        Err(ExecError::ColumnNotFound("c".to_string()))
    );
}

#[test]
fn projection_out_of_bounds_fails_construction() {
    let r: Result<RemoteTableExec<Allows, Rename, Recorder>, ExecError> = RemoteTableExec::try_new(
        Allows,
        "select 1".to_string(),
        declared(),
        None,
        Some(vec![0, 2]),
        vec![],
        None,
        None,
        Arc::new(Recorder::default()),
    );
    assert_eq!(r.err(), Some(ExecError::ProjectionOutOfBounds(2)));
}

#[test]
fn transform_with_other_column_count_fails_construction() {
    let r: Result<RemoteTableExec<Allows, Rename, Recorder>, ExecError> = RemoteTableExec::try_new(
        Allows,
        "select 1".to_string(),
        declared(),
        None,
        None,
        vec![],
        None,
        Some(Arc::new(Rename(vec!["only"]))),
        Arc::new(Recorder::default()),
    );
    assert_eq!(
        r.err(),
        Some(ExecError::SchemaMismatch(OTHER_COUNT.to_string()))
    );
}

#[test]
fn transform_without_schema_fails_construction() {
    let r: Result<RemoteTableExec<Allows, ToDeclared, Recorder>, ExecError> =
        RemoteTableExec::try_new(
            Allows,
            "select 1".to_string(),
            declared(),
            None,
            None,
            vec![],
            None,
            Some(Arc::new(ToDeclared)),
            Arc::new(Recorder::default()),
        );
    assert_eq!(
        r.err(),
        Some(ExecError::SchemaMismatch(
            "the remote schema is not known".to_string()
        ))
    );
}

#[test]
fn schema_mismatch_comes_before_projection() {
    let r: Result<RemoteTableExec<Allows, Rename, Recorder>, ExecError> = RemoteTableExec::try_new(
        Allows,
        "select 1".to_string(),
        declared(),
        None,
        Some(vec![9]),
        vec![],
        None,
        Some(Arc::new(Rename(vec![]))),
        Arc::new(Recorder::default()),
    );
    assert_eq!(
        r.err(),
        Some(ExecError::SchemaMismatch(OTHER_COUNT.to_string()))
    );
}

#[test]
fn leaf_keeps_itself_when_children_are_replaced() {
    let node = scan(Allows, vec![id_above_ten()], Some(2));
    assert_eq!(node.name(), "RemoteTableExec");
    assert_eq!(node.partition_count(), 1);
    assert!(node.children().is_empty());
    let conn = node.conn().clone();
    let same = node.with_new_children(vec![1u8, 2, 3]);
    assert_eq!(same.fetch(), Some(2));
    assert_eq!(same.filters(), &vec![id_above_ten()]);
    assert!(Arc::ptr_eq(same.conn(), &conn));
    let same = same.with_new_children(Vec::<String>::new());
    assert_eq!(same.projection(), Some(&vec![1]));
}

#[test]
fn description_names_limit_and_filters() {
    let node = scan(Allows, vec![id_above_ten(), name_is_x()], Some(5));
    let texts = vec!["id > Int64(10)".to_string(), "name = Utf8(\"x\")".to_string()];
    assert_eq!(
        node.describe(&texts),
        "RemoteTableExec: limit=Some(5), filters=[id > Int64(10), name = Utf8(\"x\")]"
    );
    assert_eq!(
        node.with_limit(None).describe(&texts),
        "RemoteTableExec: limit=None, filters=[id > Int64(10), name = Utf8(\"x\")]"
    );
}

#[test]
fn assemble_stream_asks_transform_and_policy() {
    let t = Rename(vec!["a", "b"]);
    let plan = assemble_stream(
        &Denies,
        "select 1",
        &declared(),
        None,
        Some(&vec![0]),
        &vec![col("b")],
        Some(4),
        Some(&t),
    )
    .unwrap();
    assert!(plan.transformed);
    assert_eq!(plan.query.sql, "select 1");
    assert_eq!(plan.query.filters, vec![col("name")]);
    assert_eq!(plan.query.limit, None);
    assert_eq!(plan.query.projection, Some(vec![0]));
    assert_eq!(
        assemble_stream(
            &Allows,
            "select 1",
            &declared(),
            None,
            None,
            &vec![col("name")],
            Some(4),
            Some(&t),
        ),
        Err(ExecError::ColumnNotFound("name".to_string()))
    );
}

#[test]
fn assemble_stream_from_given_answers() {
    let s = declared();
    let renamed = Schema::new(vec![
        field("a", DataType::Int64),
        field("b", DataType::Utf8),
    ]);
    let plan = assemble_stream_from(
        "select 1",
        &s,
        None,
        &vec![col("a")],
        Some(9),
        Some(Ok(renamed)),
        true,
    )
    .unwrap();
    assert!(plan.transformed);
    assert_eq!(plan.query.filters, vec![col("id")]);
    assert_eq!(plan.query.limit, Some(9));
    let plain = assemble_stream_from("select 1", &s, None, &vec![col("id")], Some(9), None, false)
        .unwrap();
    assert!(!plain.transformed);
    assert_eq!(plain.query.filters, vec![col("id")]);
    assert_eq!(plain.query.limit, None);
    assert_eq!(
        assemble_stream_from(
            "select 1",
            &s,
            None,
            &vec![],
            None,
            Some(Err("no".to_string())),
            true
        ),
        Err(ExecError::SchemaMismatch("no".to_string()))
    );
}

#[test]
fn prepare_filters_reports_mismatch_before_missing_column() {
    let s = declared();
    assert_eq!(
        prepare_filters(&s, &vec![col("zz")], Some(Ok(Schema::new(vec![])))),
        Err(ExecError::SchemaMismatch(OTHER_COUNT.to_string()))
    );
    assert_eq!(
        prepare_filters(&s, &vec![col("zz")], None),
        Err(ExecError::ColumnNotFound("zz".to_string()))
    );
}

#[test]
fn delivered_schema_keeps_field_metadata() {
    let table = Schema::new(vec![
        field("id", DataType::Int64),
        field("name", DataType::Utf8)
            .with_metadata(vec![("origin".to_string(), "remote".to_string())]),
    ]);
    let node: RemoteTableExec<Allows, Rename, Recorder> = RemoteTableExec::try_new(
        Allows,
        "select 1".to_string(),
        table,
        None,
        Some(vec![1]),
        vec![],
        None,
        None,
        Arc::new(Recorder::default()),
    )
    .unwrap();
    assert_eq!(
        node.schema().fields[0].metadata,
        vec![("origin".to_string(), "remote".to_string())]
    );
    assert_eq!(
        node.with_limit(Some(1)).schema().fields[0].metadata,
        vec![("origin".to_string(), "remote".to_string())]
    );
}
