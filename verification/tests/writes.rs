use std::sync::Arc;

use datafusion::arrow::array::{
    ArrayRef, BinaryArray, LargeBinaryArray, LargeStringArray, StringArray,
};
use datafusion::arrow::datatypes::{DataType, Field, Schema, SchemaRef};
use datafusion::arrow::record_batch::RecordBatch;
use opendal_table::batch::Batch;
use opendal_table::error::OpenDALExecError;
use opendal_table::schema::table_schema;
use opendal_table::sink::{
    check_insert, files_to_write, write_one, FileWrite, InsertColumns, InsertOp, OpenDALDataSink,
    WriteRun,
};
use opendal_table::source::OpenDALDataSource;

fn schema(fields: Vec<(&str, DataType)>) -> SchemaRef {
    let fields: Vec<Field> =
        fields.into_iter().map(|(name, data_type)| Field::new(name, data_type, true)).collect();
    Arc::new(Schema::new(fields))
}

fn batch(columns: Vec<ArrayRef>) -> Batch {
    let fields: Vec<Field> = columns
        .iter()
        .map(|column| Field::new("column", column.data_type().clone(), true))
        .collect();
    Batch { records: RecordBatch::try_new(Arc::new(Schema::new(fields)), columns).unwrap() }
}

fn paths(values: Vec<&str>) -> ArrayRef {
    Arc::new(StringArray::from(values))
}

fn blobs(values: Vec<&[u8]>) -> ArrayRef {
    Arc::new(LargeBinaryArray::from_vec(values))
}

fn written(path: &str, blob: &[u8]) -> FileWrite {
    FileWrite { path: path.to_string(), blob: blob.to_vec() }
}

fn refusal(fields: Vec<(&str, DataType)>) -> String {
    match check_insert(&schema(fields)) {
        Err(OpenDALExecError::InvalidSchema(message)) => message,
        other => panic!("{:?}", other),
    }
}

#[test]
fn overwriting_replaces() {
    assert!(!InsertOp::Append.allows_replacing());
    assert!(InsertOp::Overwrite.allows_replacing());
    assert!(InsertOp::Replace.allows_replacing());
}

#[test]
fn paths_and_contents_are_found() {
    assert_eq!(check_insert(&table_schema()).unwrap(), InsertColumns { path: 5, blob: 7 });
    let fields = vec![
        ("blob", DataType::LargeBinary),
        ("x", DataType::Int8),
        ("path", DataType::Utf8),
        ("path", DataType::Int8),
    ];
    assert_eq!(check_insert(&schema(fields)).unwrap(), InsertColumns { path: 2, blob: 0 });
}

#[test]
fn insertions_need_a_path() {
    assert_eq!(
        refusal(vec![("blob", DataType::LargeBinary)]),
        "Insert operations must reference `path` column"
    );
    assert_eq!(refusal(vec![]), "Insert operations must reference `path` column");
}

#[test]
fn insertions_need_a_content() {
    assert_eq!(
        refusal(vec![("path", DataType::Int8)]),
        "Insert operations must reference `blob` column and provide binary data"
    );
}

#[test]
fn insertions_need_the_right_types() {
    let expected = "Path must be of type string, and blob must be binary";
    let cases = vec![
        (DataType::LargeUtf8, DataType::LargeBinary),
        (DataType::Boolean, DataType::LargeBinary),
        (DataType::UInt64, DataType::LargeBinary),
        (DataType::LargeBinary, DataType::LargeBinary),
        (DataType::Utf8, DataType::Binary),
        (DataType::Utf8, DataType::Utf8),
    ];
    for (path, blob) in cases {
        assert_eq!(refusal(vec![("path", path), ("blob", blob)]), expected);
    }
}

#[test]
fn rows_become_files() {
    let batch = batch(vec![blobs(vec![b"one", b""]), paths(vec!["a", "b/c"])]);
    let files = files_to_write(&batch, InsertColumns { path: 1, blob: 0 }).unwrap();
    assert_eq!(files, vec![written("a", b"one"), written("b/c", b"")]);
}

#[test]
fn other_contents_are_passed_over() {
    let binary: ArrayRef = Arc::new(BinaryArray::from_vec(vec![b"one"]));
    let batch = batch(vec![paths(vec!["a"]), binary]);
    let files = files_to_write(&batch, InsertColumns { path: 0, blob: 1 }).unwrap();
    assert!(files.is_empty());
}

#[test]
fn other_paths_are_refused() {
    let large: ArrayRef = Arc::new(LargeStringArray::from(vec!["a"]));
    let batch = batch(vec![large, blobs(vec![b"one"])]);
    match files_to_write(&batch, InsertColumns { path: 0, blob: 1 }) {
        Err(OpenDALExecError::InvalidSchema(message)) => {
            assert_eq!(message, "`path` must be StringArray")
        }
        other => panic!("{:?}", other),
    }
    let mut run = WriteRun::new(InsertColumns { path: 0, blob: 1 }, true);
    assert!(run.receive(&batch).is_err());
    assert_eq!(run.next_path(), None);
}

#[test]
fn only_existing_files_are_protected() {
    assert!(write_one("a", false, false).is_ok());
    assert!(write_one("a", false, true).is_ok());
    assert!(write_one("a", true, true).is_ok());
    match write_one("a/b", true, false) {
        Err(OpenDALExecError::OverwriteError(message)) => {
            assert_eq!(message, "Path a/b exists and overwrite not allowed")
        }
        other => panic!("{:?}", other),
    }
}

#[test]
fn a_sink_belongs_to_a_table() {
    let source = OpenDALDataSource::new("configuration").unwrap();
    let sink = OpenDALDataSink::new(&source, InsertOp::Replace);
    assert!(Arc::ptr_eq(&sink.db.inner, &source.inner));
    assert_eq!(sink.overwrite, InsertOp::Replace);
    assert_eq!(sink.schema(), table_schema());
    let run = sink.begin(&table_schema()).unwrap();
    assert_eq!(run.columns(), InsertColumns { path: 5, blob: 7 });
    assert_eq!(run.count(), 0);
    assert_eq!(run.next_path(), None);
    assert!(sink.begin(&schema(vec![])).is_err());
    let copy = sink.clone();
    assert!(Arc::ptr_eq(&copy.db.inner, &source.inner));
    assert_eq!(copy.overwrite, InsertOp::Replace);
}

#[test]
fn batches_need_both_columns() {
    let run = WriteRun::new(InsertColumns { path: 0, blob: 1 }, true);
    assert!(run.accepts(&batch(vec![paths(vec!["a"]), blobs(vec![b"1"])])));
    assert!(!run.accepts(&batch(vec![paths(vec!["a"])])));
    let swapped = WriteRun::new(InsertColumns { path: 1, blob: 0 }, true);
    assert!(!swapped.accepts(&batch(vec![blobs(vec![b"1"])])));
}

#[test]
fn missing_values_do_not_hide_the_others() {
    let gaps: ArrayRef = Arc::new(LargeBinaryArray::from_opt_vec(vec![None, Some(b"2")]));
    let batch = batch(vec![paths(vec!["a", "b"]), gaps]);
    let files = files_to_write(&batch, InsertColumns { path: 0, blob: 1 }).unwrap();
    assert_eq!(files.len(), 2);
    assert_eq!(files[0].path, "a");
    assert_eq!(files[1], written("b", b"2"));
}

#[test]
fn a_run_writes_all_files() {
    let source = OpenDALDataSource::new("configuration").unwrap();
    let sink = OpenDALDataSink::new(&source, InsertOp::Append);
    let fields = vec![("path", DataType::Utf8), ("blob", DataType::LargeBinary)];
    let mut run = sink.begin(&schema(fields)).unwrap();
    run.receive(&batch(vec![paths(vec!["a", "b"]), blobs(vec![b"1", b"2"])])).unwrap();
    assert_eq!(run.next_path(), Some("a".to_string()));
    assert_eq!(run.check(false).unwrap(), written("a", b"1"));
    assert_eq!(run.next_path(), None);
    run.written();
    assert_eq!(run.next_path(), Some("b".to_string()));
    assert_eq!(run.check(false).unwrap(), written("b", b"2"));
    run.written();
    assert_eq!(run.next_path(), None);
    run.receive(&batch(vec![paths(vec!["c"]), blobs(vec![b"3"])])).unwrap();
    assert_eq!(run.check(false).unwrap(), written("c", b"3"));
    run.written();
    assert_eq!(run.count(), 3);
}

#[test]
fn an_existing_file_ends_the_run() {
    let mut run = WriteRun::new(InsertColumns { path: 0, blob: 1 }, false);
    run.receive(&batch(vec![paths(vec!["a", "a"]), blobs(vec![b"1", b"2"])])).unwrap();
    run.check(false).unwrap();
    run.written();
    match run.check(true) {
        Err(OpenDALExecError::OverwriteError(message)) => {
            assert_eq!(message, "Path a exists and overwrite not allowed")
        }
        other => panic!("{:?}", other),
    }
    assert_eq!(run.count(), 1);
    assert_eq!(run.next_path(), None);
}

#[test]
fn cuts_do_not_matter() {
    let cuts: Vec<Vec<Vec<&str>>> = vec![
        vec![vec!["a", "b", "c"]],
        vec![vec!["a"], vec!["b", "c"]],
        vec![vec!["a", "b"], vec![], vec!["c"]],
    ];
    for cut in cuts {
        let mut run = WriteRun::new(InsertColumns { path: 0, blob: 1 }, false);
        let mut order = vec![];
        for rows in cut {
            let contents: Vec<&[u8]> = rows.iter().map(|path| path.as_bytes()).collect();
            run.receive(&batch(vec![paths(rows), blobs(contents)])).unwrap();
            while let Some(path) = run.next_path() {
                order.push(run.check(false).unwrap());
                run.written();
                assert_eq!(order.last().unwrap().path, path);
            }
        }
        assert_eq!(order, vec![written("a", b"a"), written("b", b"b"), written("c", b"c")]);
        assert_eq!(run.count(), 3);
    }
}

#[test]
fn an_existing_file_is_replaced() {
    let mut run = WriteRun::new(InsertColumns { path: 0, blob: 1 }, true);
    run.receive(&batch(vec![paths(vec!["a"]), blobs(vec![b"1"])])).unwrap();
    assert_eq!(run.check(true).unwrap(), written("a", b"1"));
    run.written();
    assert_eq!(run.count(), 1);
}
