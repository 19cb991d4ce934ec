use opendal_table::conditions::Conditions;
use opendal_table::error::OpenDALExecError;
use opendal_table::plan::{plan_scan, Listing, ScanPlan, StoreInfo};
use opendal_table::text::{directory_of, parent_or_root, root_directory};
use opendal_table::value::{Operator, ScalarValue};

fn store(name: &str) -> StoreInfo {
    StoreInfo { scheme: "fs".to_string(), root: "/data/".to_string(), name: name.to_string() }
}

fn text(value: &str) -> ScalarValue {
    ScalarValue::Utf8(Some(value.to_string()))
}

fn conditions(filters: Vec<(&str, Operator, ScalarValue)>) -> Conditions {
    let mut all = Conditions::new();
    for (column, op, literal) in filters {
        all = all.with((column.to_string(), op, literal));
    }
    all
}

fn plan(filters: Vec<(&str, Operator, ScalarValue)>) -> ScanPlan {
    plan_scan(&conditions(filters), &store("bucket"), None).unwrap()
}

fn refusal(filters: Vec<(&str, Operator, ScalarValue)>) -> String {
    match plan_scan(&conditions(filters), &store("bucket"), None) {
        Err(OpenDALExecError::InvalidSchema(message)) => message,
        other => panic!("{:?}", other),
    }
}

fn listing(path: &str, recursive: Option<bool>) -> ScanPlan {
    ScanPlan::List(Listing { path: path.to_string(), recursive, limit: None })
}

#[test]
fn without_filters_the_root_is_listed() {
    assert_eq!(plan(vec![]), listing("/", None));
    let limited = plan_scan(&Conditions::new(), &store(""), Some(7)).unwrap();
    assert_eq!(
        limited,
        ScanPlan::List(Listing { path: "/".to_string(), recursive: None, limit: Some(7) })
    );
}

#[test]
fn stores_describe_themselves() {
    assert_eq!(store("").uri(), "fs://");
    assert_eq!(store("").namespace(), None);
    assert_eq!(store("bucket").namespace(), Some("bucket".to_string()));
}

#[test]
fn a_store_must_match() {
    assert_eq!(plan(vec![("uri", Operator::Eq, text("fs://"))]), listing("/", None));
    assert_eq!(plan(vec![("uri", Operator::Eq, text("s3://"))]), ScanPlan::Skip);
    assert_eq!(plan(vec![("root", Operator::Eq, text("/data/"))]), listing("/", None));
    assert_eq!(plan(vec![("root", Operator::NotEq, text("/data/"))]), ScanPlan::Skip);
    assert_eq!(plan(vec![("namespace", Operator::Eq, text("bucket"))]), listing("/", None));
    assert_eq!(plan(vec![("namespace", Operator::Eq, text("other"))]), ScanPlan::Skip);
    let unnamed = conditions(vec![("namespace", Operator::Eq, ScalarValue::Utf8(None))]);
    assert_eq!(plan_scan(&unnamed, &store(""), None).unwrap(), listing("/", None));
    assert_eq!(plan_scan(&unnamed, &store("bucket"), None).unwrap(), ScanPlan::Skip);
}

#[test]
fn the_first_flag_chooses() {
    let yes = || ("recursive", Operator::Eq, ScalarValue::Boolean(Some(true)));
    let no = || ("recursive", Operator::Eq, ScalarValue::Boolean(Some(false)));
    let missing = || ("recursive", Operator::Eq, ScalarValue::Boolean(None));
    assert_eq!(plan(vec![yes()]), listing("/", Some(true)));
    assert_eq!(plan(vec![no()]), listing("/", Some(false)));
    assert_eq!(plan(vec![yes(), yes()]), listing("/", Some(true)));
    assert_eq!(plan(vec![yes(), no()]), ScanPlan::Skip);
    assert_eq!(plan(vec![missing(), no()]), listing("/", Some(false)));
    assert_eq!(plan(vec![missing()]), listing("/", None));
}

#[test]
fn a_flag_is_a_truth_value() {
    let cases = vec![
        (Operator::Eq, "Cannot evaluate `recursive = 5`"),
        (Operator::NotEq, "Cannot evaluate `recursive != 5`"),
        (Operator::Lt, "Cannot evaluate `recursive < 5`"),
        (Operator::LtEq, "Cannot evaluate `recursive <= 5`"),
        (Operator::Gt, "Cannot evaluate `recursive > 5`"),
        (Operator::GtEq, "Cannot evaluate `recursive >= 5`"),
        (Operator::Other("+".to_string()), "Cannot evaluate `recursive + 5`"),
    ];
    for (op, expected) in cases {
        assert_eq!(refusal(vec![("recursive", op, ScalarValue::UInt64(Some(5)))]), expected);
    }
}

#[test]
fn a_parent_is_listed() {
    assert_eq!(plan(vec![("parent", Operator::Eq, text("/a/b"))]), listing("/a/b/", None));
    assert_eq!(plan(vec![("parent", Operator::Eq, ScalarValue::Utf8(None))]), listing("//", None));
    assert_eq!(
        plan(vec![("parent", Operator::Eq, ScalarValue::UInt64(Some(5)))]),
        listing("//", None)
    );
    let two = vec![("parent", Operator::Eq, text("/a")), ("parent", Operator::GtEq, text("/a"))];
    assert_eq!(plan(two), listing("/a/", None));
    let apart = vec![("parent", Operator::Eq, text("/a")), ("parent", Operator::Eq, text("/b"))];
    assert_eq!(plan(apart), ScanPlan::Skip);
}

#[test]
fn the_directory_of_a_path_is_listed() {
    assert_eq!(plan(vec![("path", Operator::Eq, text("a/b/c.txt"))]), listing("a/b/", None));
    assert_eq!(plan(vec![("path", Operator::Eq, text("/c.txt"))]), listing("//", None));
    assert_eq!(plan(vec![("path", Operator::Eq, text("c.txt"))]), listing("/", None));
    assert_eq!(plan(vec![("path", Operator::Eq, ScalarValue::Utf8(None))]), listing("//", None));
    assert_eq!(
        plan(vec![("path", Operator::Eq, ScalarValue::Boolean(None))]),
        listing("//", None)
    );
    let apart = vec![("path", Operator::Eq, text("a/x")), ("path", Operator::Eq, text("a/y"))];
    assert_eq!(plan(apart), ScanPlan::Skip);
    let range = vec![("path", Operator::Gt, text("a/x")), ("path", Operator::Lt, text("b"))];
    assert_eq!(plan(range), listing("a/", None));
}

#[test]
fn the_same_path_may_be_asked_for_twice() {
    let at = |op: Operator| ("path", op, text("d/x.txt"));
    assert_eq!(plan(vec![at(Operator::Eq), at(Operator::Eq)]), listing("d/", None));
    assert_eq!(plan(vec![at(Operator::GtEq), at(Operator::LtEq)]), listing("d/", None));
    assert_eq!(plan(vec![at(Operator::Eq), at(Operator::NotEq)]), ScanPlan::Skip);
    let directory = vec![at(Operator::Eq), ("path", Operator::Eq, text("d"))];
    assert_eq!(plan(directory), ScanPlan::Skip);
}

#[test]
fn parent_and_path_exclude_each_other() {
    let both = || vec![("parent", Operator::Eq, text("a")), ("path", Operator::Eq, text("a/b"))];
    assert_eq!(refusal(both()), "Cannot filter on both `parent` and `path`, choose one");
    let mut elsewhere = both();
    elsewhere.push(("uri", Operator::Eq, text("s3://")));
    assert_eq!(plan(elsewhere), ScanPlan::Skip);
}

#[test]
fn operators_that_compare_nothing_are_refused() {
    let other = || Operator::Other("+".to_string());
    assert_eq!(
        refusal(vec![("uri", other(), text("x"))]),
        "Expr `fs:// + x` cannot be evaluated"
    );
    assert_eq!(
        refusal(vec![("parent", Operator::Eq, text("a")), ("parent", other(), text("x"))]),
        "Expr `a + x` cannot be evaluated"
    );
}

#[test]
fn directories_of_paths() {
    assert_eq!(directory_of("a/b/c"), "a/b");
    assert_eq!(directory_of("a/b/"), "a");
    assert_eq!(directory_of("a"), "");
    assert_eq!(directory_of(""), "/");
    assert_eq!(directory_of("/"), "/");
    assert_eq!(directory_of("/a"), "/");
    assert_eq!(parent_or_root(None), "/");
    assert_eq!(parent_or_root(Some("a".to_string())), "a");
}

#[test]
fn directories_are_shown_with_a_slash() {
    assert_eq!(root_directory("/".to_string()), "/");
    assert_eq!(root_directory(String::new()), "/");
    assert_eq!(root_directory("a/b".to_string()), "/a/b");
    assert_eq!(root_directory("/a".to_string()), "//a");
}
