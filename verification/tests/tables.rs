use datafusion::arrow::array::{
    Array, BooleanArray, LargeBinaryArray, StringArray, TimestampNanosecondArray, UInt64Array,
};
use datafusion::arrow::datatypes::{DataType, SchemaRef, TimeUnit};
use opendal_table::batch::{blobs_fit, build_batch, optional_texts_fit, texts_fit, Batch};
use opendal_table::error::OpenDALExecError;
use opendal_table::expr::{BinaryExpr, Column, Expr};
use opendal_table::plan::StoreInfo;
use opendal_table::scan::{Action, Entry, EntryMode, Event, Metadata, Scan};
use opendal_table::schema::{scan_schema, schema_has, table_schema};
use opendal_table::sink::{InsertOp, OpenDALDataSink};
use opendal_table::source::{OpenDALDataSource, OpenDALDataSourceInner, OpenDALExec, OpenDALManager};
use opendal_table::value::{Operator, ScalarValue};

fn names(schema: &SchemaRef) -> Vec<String> {
    schema.fields().iter().map(|field| field.name().clone()).collect()
}

fn store() -> StoreInfo {
    StoreInfo { scheme: "fs".to_string(), root: "/data/".to_string(), name: "".to_string() }
}

fn exec(projection: Option<Vec<usize>>, filters: Vec<Expr>) -> OpenDALExec<&'static str> {
    let source = OpenDALDataSource::new("configuration").unwrap();
    OpenDALExec::try_new(projection.as_ref(), &source, &filters, None).unwrap()
}

fn scan(projection: Option<Vec<usize>>, filters: Vec<Expr>) -> Scan {
    exec(projection, filters).begin(&store()).unwrap().unwrap().1
}

fn column(name: &str) -> Expr {
    Expr::Column(Column { name: name.to_string() })
}

fn compare(name: &str, op: Operator, value: ScalarValue) -> Expr {
    Expr::BinaryExpr(BinaryExpr {
        left: Box::new(column(name)),
        op,
        right: Box::new(Expr::Literal(value)),
    })
}

fn file(path: &str) -> Event {
    let name = path.rsplit('/').next().unwrap().to_string();
    Event::Listed(Entry { path: path.to_string(), name, mode: EntryMode::File })
}

fn directory(path: &str) -> Event {
    Event::Listed(Entry { path: path.to_string(), name: path.to_string(), mode: EntryMode::Dir })
}

fn described(size: u64) -> Event {
    Event::Described(Metadata {
        content_length: size,
        content_type: Some("text/plain".to_string()),
        last_modified: Some(42),
    })
}

/// Hands one file to a scan that does not ask for contents.
fn give(scan: &mut Scan, path: &str, size: u64) -> Action {
    assert_eq!(scan.step(file(path)).unwrap(), Action::Describe(path.to_string()));
    assert_eq!(scan.step(described(size)).unwrap(), Action::Keep);
    assert!(scan.can_count());
    scan.step(Event::Collected(None)).unwrap()
}

fn take(scan: &mut Scan) -> Batch {
    assert!(scan.fits());
    scan.flush().unwrap()
}

/// A batch with the path and the content of one file.
fn scan_of_one_file(path: &str, content: Vec<u8>) -> Batch {
    let mut scan = scan(Some(vec![5, 7]), vec![]);
    scan.step(file(path)).unwrap();
    scan.step(described(1)).unwrap();
    scan.step(Event::Collected(Some(content))).unwrap();
    scan.step(Event::Ended).unwrap();
    take(&mut scan)
}

fn texts(batch: &Batch, index: usize) -> Vec<Option<String>> {
    let array = batch.records.column(index).as_any().downcast_ref::<StringArray>().unwrap();
    array.iter().map(|text| text.map(str::to_string)).collect()
}

#[test]
fn the_schema_of_the_table() {
    let schema = table_schema();
    let expected = vec![
        ("uri", DataType::Utf8, true),
        ("namespace", DataType::Utf8, true),
        ("root", DataType::Utf8, true),
        ("recursive", DataType::Boolean, true),
        ("parent", DataType::Utf8, true),
        ("path", DataType::Utf8, false),
        ("name", DataType::Utf8, true),
        ("blob", DataType::LargeBinary, true),
        ("is_file", DataType::Boolean, true),
        ("size", DataType::UInt64, true),
        ("content_type", DataType::Utf8, true),
        ("last_modified", DataType::Timestamp(TimeUnit::Nanosecond, None), true),
    ];
    assert_eq!(schema.fields().len(), expected.len());
    for (field, (name, data_type, nullable)) in schema.fields().iter().zip(expected) {
        assert_eq!(field.name(), name);
        assert_eq!(field.data_type(), &data_type);
        assert_eq!(field.is_nullable(), nullable);
    }
    assert!(schema_has(&schema, "blob"));
    assert!(!schema_has(&schema, "Blob"));
}

#[test]
fn sources_share_their_store() {
    assert_eq!(OpenDALManager::new(5).builder, 5);
    let inner = OpenDALDataSourceInner::new("configuration").unwrap();
    assert_eq!(inner.manager.builder, "configuration");
    assert_eq!(inner.schema, table_schema());
    let source = OpenDALDataSource::new("configuration").unwrap();
    let copy = source.clone();
    assert!(std::sync::Arc::ptr_eq(&source.inner, &copy.inner));
    assert_eq!(source.schema(), table_schema());
    assert_eq!(source.inner.manager.builder, "configuration");
}

#[test]
fn projections_choose_columns() {
    assert_eq!(exec(None, vec![]).projected_schema, table_schema());
    assert_eq!(names(&exec(Some(vec![5, 9]), vec![]).projected_schema), vec!["path", "size"]);
    assert_eq!(names(&exec(Some(vec![]), vec![]).projected_schema), Vec::<String>::new());
    let source = OpenDALDataSource::new("configuration").unwrap();
    assert!(OpenDALExec::try_new(Some(&vec![12]), &source, &[], None).is_err());
    assert!(OpenDALExec::try_new(Some(&vec![11]), &source, &[], None).is_ok());
}

#[test]
fn a_request_keeps_its_filters() {
    let filters = vec![
        column("is_file"),
        Expr::Not(Box::new(column("recursive"))),
        compare("size", Operator::Gt, ScalarValue::UInt64(Some(1))),
        Expr::Other,
    ];
    let source = OpenDALDataSource::new("configuration").unwrap();
    let exec = OpenDALExec::try_new(None, &source, &filters, Some(3)).unwrap();
    assert_eq!(exec.filters, filters);
    assert_eq!(exec.limit, Some(3));
    assert!(std::sync::Arc::ptr_eq(&exec.db.inner, &source.inner));
    let listing = exec.begin(&store()).unwrap().unwrap().0;
    assert_eq!(listing.limit, Some(3));
    assert_eq!(listing.recursive, Some(false));
    assert_eq!(listing.path, "/");
}

#[test]
fn without_columns_the_path_is_collected() {
    let empty = exec(Some(vec![]), vec![]).projected_schema;
    assert_eq!(names(&scan_schema(&empty)), vec!["path"]);
    assert!(!scan_schema(&empty).field(0).is_nullable());
    assert_eq!(scan_schema(&table_schema()), table_schema());
    let mut scan = scan(Some(vec![]), vec![]);
    assert_eq!(give(&mut scan, "a", 1), Action::Next);
    assert_eq!(scan.step(Event::Ended).unwrap(), Action::Flush);
    let batch = take(&mut scan);
    assert_eq!(texts(&batch, 0), vec![Some("a".to_string())]);
}

#[test]
fn a_store_that_does_not_match_is_not_listed() {
    let s3 = ScalarValue::Utf8(Some("s3://".to_string()));
    let exec = exec(None, vec![compare("uri", Operator::Eq, s3)]);
    assert!(exec.begin(&store()).unwrap().is_none());
}

#[test]
fn two_directories_are_refused() {
    let a = || ScalarValue::Utf8(Some("a".to_string()));
    let filters = vec![compare("path", Operator::Eq, a()), compare("parent", Operator::Eq, a())];
    match exec(None, filters).begin(&store()) {
        Err(OpenDALExecError::InvalidSchema(message)) => {
            assert_eq!(message, "Cannot filter on both `parent` and `path`, choose one")
        }
        _ => panic!("not refused"),
    }
}

#[test]
fn a_scan_of_all_columns() {
    let mut scan = scan(None, vec![column("recursive")]);
    assert_eq!(scan.step(directory("dir/")).unwrap(), Action::Describe("dir/".to_string()));
    assert_eq!(
        scan.step(Event::Described(Metadata {
            content_length: 0,
            content_type: None,
            last_modified: None,
        }))
        .unwrap(),
        Action::Keep
    );
    assert_eq!(scan.step(Event::Collected(None)).unwrap(), Action::Next);
    assert_eq!(scan.step(file("dir/b.txt")).unwrap(), Action::Describe("dir/b.txt".to_string()));
    assert_eq!(scan.step(described(3)).unwrap(), Action::Read("dir/b.txt".to_string()));
    assert_eq!(scan.step(Event::Collected(Some(vec![1, 2, 3]))).unwrap(), Action::Next);
    assert!(!scan.is_finished());
    assert_eq!(scan.step(Event::Ended).unwrap(), Action::Flush);
    let batch = take(&mut scan);
    assert!(scan.is_finished());

    let both = |text: &str| vec![Some(text.to_string()), Some(text.to_string())];
    assert_eq!(batch.records.schema(), table_schema());
    assert_eq!(batch.records.num_rows(), 2);
    assert_eq!(texts(&batch, 0), both("fs://"));
    assert_eq!(texts(&batch, 1), vec![None, None]);
    assert_eq!(texts(&batch, 2), both("/data/"));
    let recursive = batch.records.column(3).as_any().downcast_ref::<BooleanArray>().unwrap();
    assert_eq!(recursive, &BooleanArray::from(vec![true, true]));
    assert_eq!(texts(&batch, 4), vec![Some("/".to_string()), Some("/dir".to_string())]);
    assert_eq!(texts(&batch, 5), vec![Some("dir/".to_string()), Some("dir/b.txt".to_string())]);
    assert_eq!(texts(&batch, 6), vec![Some("dir/".to_string()), Some("b.txt".to_string())]);
    let blobs = batch.records.column(7).as_any().downcast_ref::<LargeBinaryArray>().unwrap();
    assert!(blobs.is_null(0));
    assert_eq!(blobs.value(1), &[1, 2, 3]);
    let is_file = batch.records.column(8).as_any().downcast_ref::<BooleanArray>().unwrap();
    assert_eq!(is_file, &BooleanArray::from(vec![false, true]));
    let sizes = batch.records.column(9).as_any().downcast_ref::<UInt64Array>().unwrap();
    assert_eq!(sizes, &UInt64Array::from(vec![0, 3]));
    assert_eq!(texts(&batch, 10), vec![None, Some("text/plain".to_string())]);
    let times = batch.records.column(11).as_any();
    let times = times.downcast_ref::<TimestampNanosecondArray>().unwrap();
    assert_eq!(times, &TimestampNanosecondArray::from(vec![None, Some(42)]));
}

#[test]
fn without_a_flag_a_scan_is_not_recursive() {
    let mut scan = scan(Some(vec![3, 5]), vec![]);
    give(&mut scan, "a", 1);
    scan.step(Event::Ended).unwrap();
    let batch = take(&mut scan);
    let recursive = batch.records.column(0).as_any().downcast_ref::<BooleanArray>().unwrap();
    assert_eq!(recursive, &BooleanArray::from(vec![false]));
}

#[test]
fn entries_of_unknown_kind_are_passed_over() {
    let mut scan = scan(None, vec![]);
    let entry = Entry { path: "x".to_string(), name: "x".to_string(), mode: EntryMode::Unknown };
    assert_eq!(scan.step(Event::Listed(entry)).unwrap(), Action::Next);
    assert_eq!(scan.step(Event::Ended).unwrap(), Action::Finish);
    assert!(scan.is_finished());
}

#[test]
fn shown_rows_satisfy_the_filters() {
    let text = |value: &str| ScalarValue::Utf8(Some(value.to_string()));
    let cases = vec![
        (compare("path", Operator::Eq, text("keep.txt")), "keep.txt", 5, "drop.txt", 5),
        (compare("name", Operator::GtEq, text("k")), "keep.txt", 5, "drop.txt", 5),
        (compare("size", Operator::Lt, ScalarValue::UInt64(Some(6))), "a", 5, "b", 6),
    ];
    for (filter, kept, kept_size, dropped, dropped_size) in cases {
        let mut scan = scan(Some(vec![5]), vec![filter]);
        scan.step(file(dropped)).unwrap();
        assert_eq!(scan.step(described(dropped_size)).unwrap(), Action::Next);
        assert_eq!(give(&mut scan, kept, kept_size), Action::Next);
        assert_eq!(scan.step(Event::Ended).unwrap(), Action::Flush);
        assert_eq!(texts(&take(&mut scan), 0), vec![Some(kept.to_string())]);
    }
}

#[test]
fn kinds_types_and_times_are_filtered() {
    let html = ScalarValue::Utf8(Some("text/html".to_string()));
    let filters = vec![
        Expr::Not(Box::new(column("is_file"))),
        compare("content_type", Operator::Eq, html),
        compare("last_modified", Operator::Gt, ScalarValue::TimestampNanosecond(Some(42), None)),
    ];
    for filter in filters {
        let mut scan = scan(None, vec![filter]);
        scan.step(file("a")).unwrap();
        assert_eq!(scan.step(described(1)).unwrap(), Action::Next);
    }
}

#[test]
fn filters_on_parent_do_not_drop_entries() {
    let filter = compare("parent", Operator::Eq, ScalarValue::Utf8(Some("a".to_string())));
    let mut scan = scan(Some(vec![4, 5]), vec![filter]);
    assert_eq!(give(&mut scan, "a/b", 1), Action::Next);
    assert_eq!(scan.step(Event::Ended).unwrap(), Action::Flush);
    assert_eq!(texts(&take(&mut scan), 0), vec![Some("/a".to_string())]);
}

#[test]
fn a_batch_is_cut_after_a_thousand_rows() {
    let mut scan = scan(Some(vec![5]), vec![]);
    for i in 0..999 {
        assert_eq!(give(&mut scan, &format!("{}", i), u64::MAX / 2000), Action::Next);
    }
    assert_eq!(give(&mut scan, "999", 0), Action::Flush);
    let batch = take(&mut scan);
    assert!(!scan.is_finished());
    let paths = texts(&batch, 0);
    assert_eq!(paths.len(), 1000);
    assert_eq!(paths[0], Some("0".to_string()));
    assert_eq!(paths[999], Some("999".to_string()));
    assert_eq!(give(&mut scan, "1000", 0), Action::Next);
    assert_eq!(scan.step(Event::Ended).unwrap(), Action::Flush);
    assert_eq!(texts(&take(&mut scan), 0), vec![Some("1000".to_string())]);
    assert!(scan.is_finished());
}

#[test]
fn contents_cut_a_batch_by_size() {
    let threshold = 10 * 1024 * 1024;
    let mut with_contents = scan(Some(vec![5, 7]), vec![]);
    with_contents.step(file("a")).unwrap();
    with_contents.step(described(threshold - 1)).unwrap();
    assert_eq!(with_contents.step(Event::Collected(Some(vec![]))).unwrap(), Action::Next);
    with_contents.step(file("b")).unwrap();
    with_contents.step(described(1)).unwrap();
    assert_eq!(with_contents.step(Event::Collected(Some(vec![7]))).unwrap(), Action::Flush);
    let batch = take(&mut with_contents);
    assert_eq!(batch.records.num_rows(), 2);
    assert_eq!(with_contents.step(Event::Ended).unwrap(), Action::Finish);

    let mut without_contents = scan(Some(vec![5]), vec![]);
    assert_eq!(give(&mut without_contents, "a", threshold), Action::Next);
}

#[test]
fn ten_megabytes_of_contents_are_a_batch() {
    let mut scan = scan(Some(vec![5, 7]), vec![]);
    let mut give = |path: &str| {
        scan.step(file(path)).unwrap();
        assert_eq!(scan.step(described(6 * 1024 * 1024)).unwrap(), Action::Read(path.to_string()));
        scan.step(Event::Collected(Some(vec![]))).unwrap()
    };
    assert_eq!(give("a"), Action::Next);
    assert_eq!(give("b"), Action::Flush);
    let first = take(&mut scan);
    assert_eq!(texts(&first, 0), vec![Some("a".to_string()), Some("b".to_string())]);
    scan.step(file("c")).unwrap();
    scan.step(described(6 * 1024 * 1024)).unwrap();
    assert_eq!(scan.step(Event::Collected(Some(vec![]))).unwrap(), Action::Next);
    assert_eq!(scan.step(Event::Ended).unwrap(), Action::Flush);
    assert_eq!(texts(&take(&mut scan), 0), vec![Some("c".to_string())]);
    assert!(scan.is_finished());
}

#[test]
fn the_last_rows_are_sent_without_paths_too() {
    let mut scan = scan(Some(vec![6]), vec![]);
    for i in 0..999 {
        assert_eq!(give(&mut scan, &format!("{}", i), 1), Action::Next);
    }
    assert_eq!(give(&mut scan, "999", 1), Action::Flush);
    assert_eq!(take(&mut scan).records.num_rows(), 1000);
    assert_eq!(give(&mut scan, "d/a.txt", 3), Action::Next);
    assert_eq!(scan.step(Event::Ended).unwrap(), Action::Flush);
    assert!(!scan.is_finished());
    let last = take(&mut scan);
    assert_eq!(last.records.num_columns(), 1);
    assert_eq!(texts(&last, 0), vec![Some("a.txt".to_string())]);
    assert!(scan.is_finished());
}

#[test]
fn a_written_file_is_read_back() {
    let source = OpenDALDataSource::new("configuration").unwrap();
    let sink = OpenDALDataSink::new(&source, InsertOp::Append);
    let written = scan_of_one_file("d/x.txt", vec![1, 2, 3]);
    let mut run = sink.begin(&written.records.schema()).unwrap();
    run.receive(&written).unwrap();
    let stored = run.check(false).unwrap();
    run.written();
    assert_eq!(run.count(), 1);

    let path = || ScalarValue::Utf8(Some("d/x.txt".to_string()));
    let twice = vec![compare("path", Operator::Eq, path()), compare("path", Operator::Eq, path())];
    let exec = exec(Some(vec![5, 7]), twice);
    let (listing, mut scan) = exec.begin(&store()).unwrap().unwrap();
    assert_eq!(listing.path, "d/");
    scan.step(file("d/a.txt")).unwrap();
    assert_eq!(scan.step(described(1)).unwrap(), Action::Next);
    scan.step(file(&stored.path)).unwrap();
    assert_eq!(scan.step(described(3)).unwrap(), Action::Read("d/x.txt".to_string()));
    assert_eq!(scan.step(Event::Collected(Some(stored.blob))).unwrap(), Action::Next);
    assert_eq!(scan.step(Event::Ended).unwrap(), Action::Flush);
    let read = take(&mut scan);
    assert_eq!(texts(&read, 0), vec![Some("d/x.txt".to_string())]);
    let blobs = read.records.column(1).as_any().downcast_ref::<LargeBinaryArray>().unwrap();
    assert_eq!(blobs.value(0), &[1, 2, 3]);
}

#[test]
fn sizes_beyond_the_counter_are_noticed() {
    let mut scan = scan(Some(vec![5]), vec![]);
    assert_eq!(give(&mut scan, "a", u64::MAX), Action::Next);
    scan.step(file("b")).unwrap();
    scan.step(described(1)).unwrap();
    assert!(!scan.can_count());
}

#[test]
fn columns_follow_the_table() {
    let one = |text: &str| vec![text.to_string()];
    let build = |projection: Vec<usize>| {
        build_batch(
            &exec(Some(projection), vec![]).projected_schema,
            &one("uri"),
            &[None],
            &one("root"),
            &[true],
            &one("parent"),
            &one("path"),
            &one("name"),
            &[Some(vec![1])],
            &[true],
            &[1],
            &[None],
            &[None],
        )
    };
    let in_order = build(vec![0, 5]).unwrap();
    assert_eq!(texts(&in_order, 0), vec![Some("uri".to_string())]);
    assert_eq!(texts(&in_order, 1), vec![Some("path".to_string())]);
    let swapped = build(vec![5, 0]).unwrap();
    assert_eq!(texts(&swapped, 0), vec![Some("uri".to_string())]);
    assert!(build(vec![9, 0]).is_err());
    assert!(build(vec![0, 0]).is_err());
    assert!(build(vec![]).is_err());
}

#[test]
fn unasked_columns_do_not_matter() {
    let build = |names: &[String], sizes: &[u64]| {
        build_batch(
            &exec(Some(vec![5]), vec![]).projected_schema,
            &[],
            &[],
            &[],
            &[],
            &[],
            &["a".to_string()],
            names,
            &[],
            &[],
            sizes,
            &[],
            &[],
        )
        .unwrap()
    };
    let one = build(&[], &[1, 2, 3]);
    let other = build(&["x".to_string(), "y".to_string()], &[]);
    assert_eq!(one.records, other.records);
}

#[test]
fn columns_of_different_lengths_make_no_batch() {
    let result = build_batch(
        &exec(Some(vec![0, 5]), vec![]).projected_schema,
        &["uri".to_string()],
        &[],
        &[],
        &[],
        &[],
        &[],
        &[],
        &[],
        &[],
        &[],
        &[],
        &[],
    );
    assert!(matches!(result, Err(_)));
}

#[test]
fn small_columns_fit() {
    assert!(texts_fit(&["a".to_string()]));
    assert!(optional_texts_fit(&[None, Some("a".to_string())]));
    assert!(blobs_fit(&[None, Some(vec![1])]));
}
