use datafusion::arrow::datatypes::DataType;
use remote_table::{
    rewrite_column, rewrite_filters_column, rewrite_predicate, Column, ExecError, Field, Literal,
    LiteralValue, Operator, Predicate, Schema, UnaryOperator,
};

fn schema(names: &[&str]) -> Schema {
    Schema::new(
        names
            .iter()
            .map(|n| Field::new(n.to_string(), DataType::Int64, true))
            .collect(),
    )
}

fn col(name: &str) -> Predicate {
    Predicate::Column(Column::new_unqualified(name.to_string()))
}

fn qualified(relation: &str, name: &str) -> Predicate {
    Predicate::Column(Column {
        relation: Some(relation.to_string()),
        name: name.to_string(),
    })
}

fn literal(kind: DataType, value: LiteralValue) -> Predicate {
    Predicate::Literal(Literal::new(kind, value))
}

fn num(n: i64) -> Predicate {
    literal(DataType::Int64, LiteralValue::Int(n))
}

fn text(s: &str) -> Predicate {
    literal(DataType::Utf8, LiteralValue::Utf8(s.to_string()))
}

fn binary(left: Predicate, op: Operator, right: Predicate) -> Predicate {
    Predicate::Binary {
        left: Box::new(left),
        op,
        right: Box::new(right),
    }
}

#[test]
fn unknown_column_is_reported() {
    let s = schema(&["a", "b"]);
    let filters = vec![binary(col("c"), Operator::Gt, num(5))];
    assert_eq!(
        rewrite_filters_column(&filters, &s, &s),
        Err(ExecError::ColumnNotFound("c".to_string()))
    );
}

#[test]
fn first_unknown_column_in_reading_order_is_reported() {
    let s = schema(&["a", "b"]);
    let filters = vec![
        binary(col("a"), Operator::Gt, num(5)),
        binary(
            binary(col("b"), Operator::Eq, col("x")),
            Operator::And,
            binary(col("y"), Operator::Eq, num(1)),
        ),
        binary(col("z"), Operator::Lt, num(0)),
    ];
    assert_eq!(
        rewrite_filters_column(&filters, &s, &s),
        Err(ExecError::ColumnNotFound("x".to_string()))
    );
}

#[test]
fn unknown_column_in_list_is_reported_after_operand() {
    let s = schema(&["a"]);
    let p = Predicate::InList {
        operand: Box::new(col("m")),
        list: vec![col("n")],
        negated: false,
    };
    assert_eq!(
        rewrite_predicate(&p, &s, &s),
        Err(ExecError::ColumnNotFound("m".to_string()))
    );
    let q = Predicate::InList {
        operand: Box::new(col("a")),
        list: vec![num(1), col("n"), col("o")],
        negated: false,
    };
    assert_eq!(
        rewrite_predicate(&q, &s, &s),
        Err(ExecError::ColumnNotFound("n".to_string()))
    );
}

#[test]
fn same_schema_leaves_unqualified_filters_unchanged() {
    let s = schema(&["id", "name"]);
    let filters = vec![
        binary(col("id"), Operator::Gt, num(10)),
        binary(col("name"), Operator::Eq, text("x")),
        Predicate::Unary {
            op: UnaryOperator::IsNotNull,
            operand: Box::new(col("name")),
        },
    ];
    let rewritten = rewrite_filters_column(&filters, &s, &s).unwrap();
    assert_eq!(rewritten, filters);
}

#[test]
fn empty_filter_list_rewrites_to_empty() {
    let s = schema(&["id"]);
    assert_eq!(rewrite_filters_column(&Vec::new(), &s, &s), Ok(Vec::new()));
}

#[test]
fn qualifier_is_stripped() {
    let s = schema(&["id", "name"]);
    let filters = vec![binary(qualified("t", "id"), Operator::Gt, num(10))];
    let rewritten = rewrite_filters_column(&filters, &s, &s).unwrap();
    assert_eq!(rewritten, vec![binary(col("id"), Operator::Gt, num(10))]);
}

#[test]
fn columns_move_by_position() {
    let from = schema(&["x", "y", "z"]);
    let to = schema(&["a", "b", "c"]);
    let p = binary(
        binary(col("z"), Operator::LtEq, col("x")),
        Operator::Or,
        Predicate::InList {
            operand: Box::new(col("y")),
            list: vec![num(1), col("x"), num(3)],
            negated: true,
        },
    );
    let expected = binary(
        binary(col("c"), Operator::LtEq, col("a")),
        Operator::Or,
        Predicate::InList {
            operand: Box::new(col("b")),
            list: vec![num(1), col("a"), num(3)],
            negated: true,
        },
    );
    assert_eq!(rewrite_predicate(&p, &from, &to), Ok(expected));
}

#[test]
fn target_may_have_more_columns_than_source() {
    let from = schema(&["x"]);
    let to = schema(&["a", "b"]);
    assert_eq!(
        rewrite_column(&Column::new_unqualified("x".to_string()), &from, &to),
        Ok(Column::new_unqualified("a".to_string()))
    );
}

#[test]
fn round_trip_restores_column_names() {
    let t = schema(&["x", "y"]);
    let d = schema(&["a", "b"]);
    let filters = vec![
        binary(col("y"), Operator::Eq, text("v")),
        binary(qualified("q", "x"), Operator::NotEq, col("y")),
    ];
    let there = rewrite_filters_column(&filters, &t, &d).unwrap();
    assert_eq!(
        there,
        vec![
            binary(col("b"), Operator::Eq, text("v")),
            binary(col("a"), Operator::NotEq, col("b")),
        ]
    );
    let back = rewrite_filters_column(&there, &d, &t).unwrap();
    assert_eq!(
        back,
        vec![
            binary(col("y"), Operator::Eq, text("v")),
            binary(col("x"), Operator::NotEq, col("y")),
        ]
    );
}

#[test]
fn repeated_name_in_target_breaks_the_round_trip() {
    let t = schema(&["x", "y"]);
    let d = schema(&["a", "a"]);
    let p = col("y");
    let there = rewrite_predicate(&p, &t, &d).unwrap();
    assert_eq!(there, col("a"));
    let back = rewrite_predicate(&there, &d, &t).unwrap();
    assert_eq!(back, col("x"));
}

#[test]
fn repeated_name_in_source_resolves_to_first_position() {
    let from = schema(&["x", "x"]);
    let to = schema(&["a", "b"]);
    assert_eq!(rewrite_predicate(&col("x"), &from, &to), Ok(col("a")));
}

#[test]
fn number_literal_is_kept() {
    let from = schema(&["price"]);
    let to = schema(&["amount"]);
    let p = binary(
        col("price"),
        Operator::GtEq,
        literal(DataType::Float64, LiteralValue::Number("9.99".to_string())),
    );
    assert_eq!(
        rewrite_predicate(&p, &from, &to),
        Ok(binary(
            col("amount"),
            Operator::GtEq,
            literal(DataType::Float64, LiteralValue::Number("9.99".to_string())),
        ))
    );
}

#[test]
fn literals_and_operators_are_kept() {
    let s = schema(&["a"]);
    let p = Predicate::Unary {
        op: UnaryOperator::Not,
        operand: Box::new(binary(
            literal(DataType::Null, LiteralValue::Null),
            Operator::Like,
            literal(DataType::Boolean, LiteralValue::Boolean(true)),
        )),
    };
    let q = rewrite_predicate(&p, &s, &s).unwrap();
    assert_eq!(q, p);
    assert_eq!(q.clone(), p);
}

const NO_COUNTERPART: &str = "a filter column has no counterpart at its position";

#[test]
fn column_beyond_the_target_is_a_mismatch() {
    let from = schema(&["a", "b"]);
    let to = schema(&["x"]);
    let filters = vec![binary(col("b"), Operator::Gt, num(1))];
    assert_eq!(
        rewrite_filters_column(&filters, &from, &to),
        Err(ExecError::SchemaMismatch(NO_COUNTERPART.to_string()))
    );
    assert_eq!(
        rewrite_column(&Column::new_unqualified("b".to_string()), &from, &to),
        Err(ExecError::SchemaMismatch(NO_COUNTERPART.to_string()))
    );
}

#[test]
fn longer_source_is_fine_where_positions_exist() {
    let from = schema(&["a", "b", "c"]);
    let to = schema(&["x", "y"]);
    let filters = vec![binary(col("b"), Operator::Gt, col("a"))];
    assert_eq!(
        rewrite_filters_column(&filters, &from, &to),
        Ok(vec![binary(col("y"), Operator::Gt, col("x"))])
    );
}

#[test]
fn first_failure_in_reading_order_decides_the_error() {
    let from = schema(&["a", "b"]);
    let to = schema(&["x"]);
    let beyond_first = vec![binary(col("b"), Operator::Eq, col("zz"))];
    assert_eq!(
        rewrite_filters_column(&beyond_first, &from, &to),
        Err(ExecError::SchemaMismatch(NO_COUNTERPART.to_string()))
    );
    let missing_first = vec![binary(col("zz"), Operator::Eq, col("b"))];
    assert_eq!(
        rewrite_filters_column(&missing_first, &from, &to),
        Err(ExecError::ColumnNotFound("zz".to_string()))
    );
}

#[test]
fn filters_without_columns_come_back_for_any_schemas() {
    let from = schema(&["a"]);
    let to = schema(&[]);
    assert_eq!(rewrite_filters_column(&Vec::new(), &from, &to), Ok(Vec::new()));
    let filters = vec![binary(num(1), Operator::Lt, num(2))];
    assert_eq!(
        rewrite_filters_column(&filters, &from, &to),
        Ok(vec![binary(num(1), Operator::Lt, num(2))])
    );
    assert_eq!(
        rewrite_filters_column(&filters, &to, &from),
        Ok(vec![binary(num(1), Operator::Lt, num(2))])
    );
}

#[test]
fn other_expressions_keep_tag_and_order() {
    let from = schema(&["x", "y"]);
    let to = schema(&["a", "b"]);
    let p = Predicate::Other {
        tag: 7,
        children: vec![
            col("y"),
            num(3),
            Predicate::Other {
                tag: 9,
                children: vec![col("x")],
            },
        ],
    };
    let expected = Predicate::Other {
        tag: 7,
        children: vec![
            col("b"),
            num(3),
            Predicate::Other {
                tag: 9,
                children: vec![col("a")],
            },
        ],
    };
    assert_eq!(rewrite_predicate(&p, &from, &to), Ok(expected));
    let leaf = Predicate::Other {
        tag: 1,
        children: vec![],
    };
    assert_eq!(rewrite_predicate(&leaf, &from, &schema(&[])), Ok(leaf.clone()));
    let failing = Predicate::Other {
        tag: 2,
        children: vec![col("x"), col("q"), col("r")],
    };
    assert_eq!(
        rewrite_predicate(&failing, &from, &to),
        Err(ExecError::ColumnNotFound("q".to_string()))
    );
}

#[test]
fn literal_kind_is_kept() {
    let s = schema(&["a"]);
    let p = binary(
        col("a"),
        Operator::Eq,
        literal(DataType::Int32, LiteralValue::Int(10)),
    );
    let q = rewrite_predicate(&p, &s, &s).unwrap();
    assert_eq!(q, p);
    assert_ne!(q, binary(col("a"), Operator::Eq, num(10)));
}
