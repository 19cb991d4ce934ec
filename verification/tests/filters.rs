use opendal_table::conditions::{check_all, eval_simple_expr, group_conditions, Conditions};
use opendal_table::error::OpenDALExecError;
use opendal_table::expr::{extract_simple_binary_filters, BinaryExpr, Column, Expr, Filter};
use opendal_table::source::{FilterPushDown, OpenDALDataSource};
use opendal_table::value::{ColumnValue, Operator, ScalarValue};

fn column(name: &str) -> Expr {
    Expr::Column(Column { name: name.to_string() })
}

fn text(value: &str) -> ScalarValue {
    ScalarValue::Utf8(Some(value.to_string()))
}

fn binary(left: Expr, op: Operator, right: Expr) -> Expr {
    Expr::BinaryExpr(BinaryExpr { left: Box::new(left), op, right: Box::new(right) })
}

fn extracted(expr: Expr) -> Option<Filter> {
    extract_simple_binary_filters(&[&expr]).pop().unwrap()
}

#[test]
fn column_first_is_kept() {
    let expr = binary(column("size"), Operator::Lt, Expr::Literal(ScalarValue::UInt64(Some(10))));
    assert_eq!(
        extracted(expr),
        Some(("size".to_string(), Operator::Lt, ScalarValue::UInt64(Some(10))))
    );
}

#[test]
fn literal_first_is_mirrored() {
    let cases = vec![
        (Operator::Eq, Operator::Eq),
        (Operator::NotEq, Operator::NotEq),
        (Operator::Lt, Operator::Gt),
        (Operator::LtEq, Operator::GtEq),
        (Operator::Gt, Operator::Lt),
        (Operator::GtEq, Operator::LtEq),
    ];
    for (op, mirrored) in cases {
        let expr = binary(Expr::Literal(ScalarValue::UInt64(Some(10))), op, column("size"));
        assert_eq!(
            extracted(expr),
            Some(("size".to_string(), mirrored, ScalarValue::UInt64(Some(10))))
        );
    }
}

#[test]
fn nine_columns_are_compared() {
    let ordered = vec![
        "uri", "namespace", "root", "parent", "path", "name", "size", "content_type",
        "last_modified",
    ];
    for name in ordered {
        let expr = binary(column(name), Operator::Eq, Expr::Literal(text("x")));
        assert_eq!(extracted(expr), Some((name.to_string(), Operator::Eq, text("x"))));
    }
    for name in vec!["recursive", "is_file", "blob", "elsewhere"] {
        let expr = binary(column(name), Operator::Eq, Expr::Literal(text("x")));
        assert_eq!(extracted(expr), None);
    }
}

#[test]
fn boolean_columns_are_filters() {
    let yes = ScalarValue::Boolean(Some(true));
    let no = ScalarValue::Boolean(Some(false));
    assert_eq!(
        extracted(column("recursive")),
        Some(("recursive".to_string(), Operator::Eq, yes.clone()))
    );
    assert_eq!(extracted(column("is_file")), Some(("is_file".to_string(), Operator::Eq, yes)));
    assert_eq!(
        extracted(Expr::Not(Box::new(column("is_file")))),
        Some(("is_file".to_string(), Operator::Eq, no.clone()))
    );
    assert_eq!(
        extracted(Expr::Not(Box::new(column("recursive")))),
        Some(("recursive".to_string(), Operator::Eq, no))
    );
    assert_eq!(extracted(column("size")), None);
    assert_eq!(extracted(Expr::Not(Box::new(column("size")))), None);
    assert_eq!(extracted(Expr::Not(Box::new(Expr::Not(Box::new(column("is_file")))))), None);
}

#[test]
fn other_shapes_are_not_pushed() {
    let sum = Operator::Other("+".to_string());
    assert_eq!(extracted(binary(column("size"), sum.clone(), Expr::Literal(text("x")))), None);
    assert_eq!(extracted(binary(Expr::Literal(text("x")), sum, column("size"))), None);
    assert_eq!(extracted(binary(column("size"), Operator::Eq, column("path"))), None);
    assert_eq!(
        extracted(binary(Expr::Literal(text("x")), Operator::Eq, Expr::Literal(text("x")))),
        None
    );
    assert_eq!(extracted(Expr::Literal(text("x"))), None);
    assert_eq!(extracted(Expr::Other), None);
    assert_eq!(extract_simple_binary_filters(&[]), vec![]);
}

#[test]
fn pushed_filters_are_exact() {
    let source = OpenDALDataSource::new("configuration").unwrap();
    let size = binary(column("size"), Operator::Gt, Expr::Literal(ScalarValue::UInt64(Some(1))));
    let blob = binary(column("blob"), Operator::Eq, Expr::Literal(text("x")));
    let supported = source.supports_filters_pushdown(&[&size, &blob, &column("is_file")]).unwrap();
    assert_eq!(
        supported,
        vec![FilterPushDown::Exact, FilterPushDown::Unsupported, FilterPushDown::Exact]
    );
}

fn holds(left: ScalarValue, op: Operator, right: ScalarValue) -> bool {
    eval_simple_expr(&left, &op, &right).unwrap()
}

#[test]
fn comparisons_of_numbers() {
    let five = || ScalarValue::UInt64(Some(5));
    let number = |n: u64| ScalarValue::UInt64(Some(n));
    assert!(holds(five(), Operator::Eq, number(5)));
    assert!(!holds(five(), Operator::Eq, number(6)));
    assert!(holds(five(), Operator::NotEq, number(6)));
    assert!(!holds(five(), Operator::NotEq, number(5)));
    assert!(holds(five(), Operator::Lt, number(6)));
    assert!(!holds(five(), Operator::Lt, number(5)));
    assert!(holds(five(), Operator::LtEq, number(5)));
    assert!(!holds(five(), Operator::LtEq, number(4)));
    assert!(holds(five(), Operator::Gt, number(4)));
    assert!(!holds(five(), Operator::Gt, number(5)));
    assert!(holds(five(), Operator::GtEq, number(5)));
    assert!(!holds(five(), Operator::GtEq, number(6)));
}

#[test]
fn comparisons_of_texts() {
    let value = text;
    assert!(holds(value("a"), Operator::Lt, text("b")));
    assert!(holds(value("a"), Operator::Lt, text("aa")));
    assert!(holds(value("B"), Operator::Lt, text("a")));
    assert!(holds(value("z"), Operator::Lt, text("\u{e9}")));
    assert!(holds(value("\u{ffff}"), Operator::Lt, text("\u{10000}")));
    assert!(!holds(value("b"), Operator::Lt, text("a")));
    assert!(holds(value("b"), Operator::GtEq, text("b")));
}

#[test]
fn missing_values_come_first() {
    assert!(holds(ScalarValue::Utf8(None), Operator::Lt, text("")));
    assert!(holds(ScalarValue::Utf8(None), Operator::Eq, ScalarValue::Utf8(None)));
    assert!(!holds(ScalarValue::Utf8(None), Operator::Gt, text("")));
    assert!(holds(
        ScalarValue::TimestampNanosecond(None, None),
        Operator::LtEq,
        ScalarValue::TimestampNanosecond(Some(-1), None)
    ));
}

#[test]
fn time_zones_do_not_count() {
    let zone = Some("UTC".to_string());
    assert!(holds(
        ScalarValue::TimestampNanosecond(Some(7), None),
        Operator::Eq,
        ScalarValue::TimestampNanosecond(Some(7), zone.clone())
    ));
    assert!(holds(
        ScalarValue::TimestampNanosecond(Some(7), None),
        Operator::Lt,
        ScalarValue::TimestampNanosecond(Some(8), zone)
    ));
}

#[test]
fn false_comes_before_true() {
    let flag = |value: bool| ScalarValue::Boolean(Some(value));
    assert!(holds(flag(false), Operator::Lt, flag(true)));
    assert!(!holds(flag(true), Operator::Lt, flag(true)));
}

#[test]
fn different_types_are_neither_equal_nor_ordered() {
    let others = vec![
        text("5"),
        ScalarValue::Boolean(Some(true)),
        ScalarValue::TimestampNanosecond(Some(5), None),
        ScalarValue::Other("5".to_string()),
    ];
    for other in others {
        assert!(!holds(ScalarValue::UInt64(Some(5)), Operator::Eq, other.clone()));
        assert!(holds(ScalarValue::UInt64(Some(5)), Operator::NotEq, other.clone()));
        assert!(!holds(ScalarValue::UInt64(Some(5)), Operator::Lt, other.clone()));
        assert!(!holds(ScalarValue::UInt64(Some(5)), Operator::GtEq, other.clone()));
        assert!(!holds(other, Operator::LtEq, ScalarValue::UInt64(Some(5))));
    }
    let same_text = ScalarValue::Other("x".to_string());
    assert!(!holds(text("x"), Operator::Eq, same_text));
}

#[test]
fn exactly_one_of_three_holds() {
    let values: Vec<Option<&str>> = vec![None, Some(""), Some("a"), Some("ab"), Some("b")];
    for left in &values {
        for right in &values {
            let value = ScalarValue::Utf8(left.map(str::to_string));
            let literal = ScalarValue::Utf8(right.map(str::to_string));
            let outcomes = vec![Operator::Lt, Operator::Eq, Operator::Gt];
            let true_ones = outcomes
                .iter()
                .filter(|op| eval_simple_expr(&value, op, &literal).unwrap())
                .count();
            assert_eq!(true_ones, 1);
        }
    }
}

#[test]
fn mirrored_comparisons_agree() {
    let pairs = vec![
        (Operator::Eq, Operator::Eq),
        (Operator::NotEq, Operator::NotEq),
        (Operator::Lt, Operator::Gt),
        (Operator::LtEq, Operator::GtEq),
        (Operator::Gt, Operator::Lt),
        (Operator::GtEq, Operator::LtEq),
    ];
    for (op, mirrored) in pairs {
        for (a, b) in vec![(1, 2), (2, 2), (3, 2)] {
            let a = ScalarValue::UInt64(Some(a));
            let b = ScalarValue::UInt64(Some(b));
            let there = holds(a.clone(), op.clone(), b.clone());
            assert_eq!(there, holds(b, mirrored.clone(), a));
        }
    }
}

#[test]
fn other_operators_are_refused() {
    let cases = vec![
        (ScalarValue::UInt64(Some(12)), text("a b"), "Expr `12 LIKE a b` cannot be evaluated"),
        (
            ScalarValue::Boolean(Some(true)),
            ScalarValue::Boolean(None),
            "Expr `true LIKE NULL` cannot be evaluated",
        ),
        (
            ScalarValue::TimestampNanosecond(Some(-30), None),
            ScalarValue::Other("1.5".to_string()),
            "Expr `-30 LIKE 1.5` cannot be evaluated",
        ),
        (ScalarValue::Utf8(None), text(""), "Expr `NULL LIKE ` cannot be evaluated"),
    ];
    for (left, right, expected) in cases {
        match eval_simple_expr(&left, &Operator::Other("LIKE".to_string()), &right) {
            Err(OpenDALExecError::InvalidSchema(message)) => assert_eq!(message, expected),
            other => panic!("{:?}", other),
        }
    }
}

#[test]
fn operators_are_refused_between_other_literals() {
    let one = ScalarValue::Other("1".to_string());
    let two = ScalarValue::Other("2".to_string());
    match eval_simple_expr(&one, &Operator::Other("+".to_string()), &two) {
        Err(OpenDALExecError::InvalidSchema(message)) => {
            assert_eq!(message, "Expr `1 + 2` cannot be evaluated")
        }
        other => panic!("{:?}", other),
    }
}

#[test]
fn conditions_are_tried_in_order() {
    let value = ColumnValue::UInt64(5);
    let fails = || (Operator::Gt, ScalarValue::UInt64(Some(5)));
    let holds = || (Operator::GtEq, ScalarValue::UInt64(Some(5)));
    let refused = || (Operator::Other("+".to_string()), ScalarValue::UInt64(Some(5)));
    assert!(check_all(&value, &vec![]).unwrap());
    assert!(check_all(&value, &vec![holds(), holds()]).unwrap());
    assert!(!check_all(&value, &vec![holds(), fails(), refused()]).unwrap());
    assert!(check_all(&value, &vec![holds(), refused(), fails()]).is_err());
}

#[test]
fn conditions_are_grouped_by_column() {
    let exprs = vec![
        binary(column("size"), Operator::Gt, Expr::Literal(ScalarValue::UInt64(Some(1)))),
        column("is_file"),
        Expr::Other,
        binary(Expr::Literal(ScalarValue::UInt64(Some(9))), Operator::Gt, column("size")),
    ];
    let conditions = group_conditions(&exprs);
    assert_eq!(
        conditions.copy_of("size"),
        vec![
            (Operator::Gt, ScalarValue::UInt64(Some(1))),
            (Operator::Lt, ScalarValue::UInt64(Some(9))),
        ]
    );
    assert_eq!(
        conditions.copy_of("is_file"),
        vec![(Operator::Eq, ScalarValue::Boolean(Some(true)))]
    );
    assert_eq!(conditions.copy_of("name"), vec![]);
    assert!(conditions.check("size", &ColumnValue::UInt64(5)).unwrap());
    assert!(!conditions.check("size", &ColumnValue::UInt64(9)).unwrap());
    assert!(conditions.check("name", &ColumnValue::Utf8(None)).unwrap());
    assert_eq!(Conditions::new().copy_of("size"), vec![]);
}
