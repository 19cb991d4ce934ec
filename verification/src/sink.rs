use datafusion::arrow::array::{Array, LargeBinaryArray, StringArray};
use datafusion::arrow::datatypes::SchemaRef;
use std::collections::VecDeque;
use vstd::prelude::*;
use vstd::string::*;

use crate::batch::{batch_columns, Batch, ColumnView};
use crate::columns::{BLOB_COL, PATH_COL};
use crate::error::{ErrorView, OpenDALExecError};
use crate::schema::{
    fields_of, first_column, has_column, index_of, share, type_at, ColumnType, FieldView,
};
use crate::source::OpenDALDataSource;

verus! {

/// What an insertion does with what is there already.
#[derive(Debug, Clone, Copy, PartialEq, Eq, Structural)]
pub enum InsertOp {
    /// Add to it.
    Append,
    /// Put the new rows in its place.
    Overwrite,
    /// Replace what collides with the new rows.
    Replace,
}

impl InsertOp {
    /// Whether a file that exists may be written again.
    pub open spec fn replaces(self) -> bool {
        self == InsertOp::Overwrite || self == InsertOp::Replace
    }

    /// Whether a file that exists may be written again.
    pub fn allows_replacing(self) -> (allowed: bool)
        ensures
            allowed == self.replaces(),
            allowed <==> self is Overwrite || self is Replace,
    {
        self == InsertOp::Overwrite || self == InsertOp::Replace
    }
}

/// Writes rows to a store, each as a file.
#[derive(Debug)]
pub struct OpenDALDataSink<T> {
    pub db: OpenDALDataSource<T>,
    pub overwrite: InsertOp,
}

impl<T> Clone for OpenDALDataSink<T> {
    fn clone(&self) -> (copy: Self)
        ensures
            copy == *self,
    {
        OpenDALDataSink { db: self.db.clone(), overwrite: self.overwrite }
    }
}

impl<T> OpenDALDataSink<T> {
    /// A sink that writes to the store of a table.
    pub fn new(db: &OpenDALDataSource<T>, overwrite: InsertOp) -> (sink: Self)
        ensures
            sink.db == *db,
            sink.overwrite == overwrite,
    {
        Self { db: db.clone(), overwrite }
    }

    /// The schema of the rows that can be written.
    pub fn schema(&self) -> (schema: SchemaRef)
        ensures
            schema == self.db.inner.schema,
    {
        share(&self.db.inner.schema)
    }

    /// Starts to write rows of a schema. They must have a path and a content.
    pub fn begin(&self, schema: &SchemaRef) -> (run: Result<WriteRun, OpenDALExecError>)
        ensures
            match insert_refusal(fields_of(schema)) {
                Some(error) => run is Err && run->Err_0@ == error,
                None => {
                    &&& run is Ok
                    &&& run->Ok_0@.valid()
                    &&& run->Ok_0@.phase == RunPhase::Receiving
                    &&& run->Ok_0@.replace == self.overwrite.replaces()
                    &&& run->Ok_0@.count == 0
                    &&& first_column(fields_of(schema), PATH_COL@, run->Ok_0@.columns.path as int)
                    &&& first_column(fields_of(schema), BLOB_COL@, run->Ok_0@.columns.blob as int)
                },
            },
    {
        match check_insert(schema) {
            Ok(columns) => Ok(WriteRun::new(columns, self.overwrite.allows_replacing())),
            Err(error) => Err(error),
        }
    }
}

/// The type of the first column with the given name.
pub open spec fn type_of(fields: Seq<FieldView>, name: Seq<char>) -> ColumnType {
    fields[choose|i: int| first_column(fields, name, i)].data_type
}

/// Why rows with the given fields cannot be written, if they cannot.
pub open spec fn insert_refusal(fields: Seq<FieldView>) -> Option<ErrorView> {
    if !has_column(fields, PATH_COL@) {
        Some(ErrorView::InvalidSchema("Insert operations must reference `path` column"@))
    } else if !has_column(fields, BLOB_COL@) {
        Some(
            ErrorView::InvalidSchema(
                "Insert operations must reference `blob` column and provide binary data"@,
            ),
        )
    } else if type_of(fields, PATH_COL@) != ColumnType::Utf8 || type_of(fields, BLOB_COL@)
        != ColumnType::LargeBinary {
        Some(ErrorView::InvalidSchema("Path must be of type string, and blob must be binary"@))
    } else {
        None
    }
}

/// Where the paths and the contents stand among the columns.
#[derive(Debug, Clone, Copy, PartialEq, Eq, Structural)]
pub struct InsertColumns {
    pub path: usize,
    pub blob: usize,
}

/// Finds the columns that an insertion needs.
pub fn check_insert(schema: &SchemaRef) -> (columns: Result<InsertColumns, OpenDALExecError>)
    ensures
        match insert_refusal(fields_of(schema)) {
            Some(error) => columns is Err && columns->Err_0@ == error,
            None => {
                &&& columns is Ok
                &&& first_column(fields_of(schema), PATH_COL@, columns->Ok_0.path as int)
                &&& first_column(fields_of(schema), BLOB_COL@, columns->Ok_0.blob as int)
            },
        },
{
    let path = match index_of(schema, PATH_COL) {
        Ok(path) => path,
        Err(_) => {
            return Err(
                OpenDALExecError::InvalidSchema(
                    "Insert operations must reference `path` column".to_string(),
                ),
            );
        },
    };
    let blob = match index_of(schema, BLOB_COL) {
        Ok(blob) => blob,
        Err(_) => {
            return Err(
                OpenDALExecError::InvalidSchema(
                    "Insert operations must reference `blob` column and provide binary data"
                        .to_string(),
                ),
            );
        },
    };
    proof {
        lemma_type_of(fields_of(schema), PATH_COL@, path as int);
        lemma_type_of(fields_of(schema), BLOB_COL@, blob as int);
    }
    if type_at(schema, path) != ColumnType::Utf8 || type_at(schema, blob)
        != ColumnType::LargeBinary {
        return Err(
            OpenDALExecError::InvalidSchema(
                "Path must be of type string, and blob must be binary".to_string(),
            ),
        );
    }
    Ok(InsertColumns { path, blob })
}

/// The type of a column is that of the first field with its name.
pub proof fn lemma_type_of(fields: Seq<FieldView>, name: Seq<char>, index: int)
    requires
        first_column(fields, name, index),
    ensures
        type_of(fields, name) == fields[index].data_type,
{
    let other = choose|i: int| first_column(fields, name, i);
    assert(first_column(fields, name, other));
    assert(other == index) by {
        if other < index {
            assert(fields[other].name != name);
        } else if index < other {
            assert(fields[index].name != name);
        }
    }
}

/// A file to be written.
#[derive(Debug, PartialEq)]
pub struct FileWrite {
    pub path: String,
    pub blob: Vec<u8>,
}

/// The mathematical counterpart of [`FileWrite`].
pub struct FileView {
    pub path: Seq<char>,
    pub blob: Seq<u8>,
}

impl View for FileWrite {
    type V = FileView;

    open spec fn view(&self) -> FileView {
        FileView { path: self.path@, blob: self.blob@ }
    }
}

/// Calls `RecordBatch::num_columns` of `arrow`: the number of columns.
#[verifier::external_body]
fn column_count(batch: &Batch) -> (count: usize)
    ensures
        count == batch_columns(*batch).len(),
{
    batch.records.num_columns()
}

/// Calls `RecordBatch::num_rows` of `arrow`: the length of every column.
#[verifier::external_body]
fn row_count(batch: &Batch) -> (count: usize)
    ensures
        forall|k: int|
            0 <= k < batch_columns(*batch).len() ==> (#[trigger] batch_columns(*batch)[k]).len()
                == count,
{
    batch.records.num_rows()
}

/// Calls `RecordBatch::column` of `arrow` and looks whether the array is a `StringArray`:
/// those are the columns of texts. The position must be that of a column.
#[verifier::external_body]
fn is_text_column(batch: &Batch, column: usize) -> (found: bool)
    requires
        column < batch_columns(*batch).len(),
    ensures
        found == (batch_columns(*batch)[column as int] is Utf8),
{
    batch.records.column(column).as_any().is::<StringArray>()
}

/// Calls `RecordBatch::column` of `arrow` and looks whether the array is a
/// `LargeBinaryArray`: those are the columns of blobs. The position must be that of a
/// column.
#[verifier::external_body]
fn is_blob_column(batch: &Batch, column: usize) -> (found: bool)
    requires
        column < batch_columns(*batch).len(),
    ensures
        found == (batch_columns(*batch)[column as int] is LargeBinary),
{
    batch.records.column(column).as_any().is::<LargeBinaryArray>()
}

/// Calls `StringArray::value` of `arrow`: the text in a row of a column of texts. Where the
/// text is missing, `arrow` promises no particular one, and nothing is claimed.
#[verifier::external_body]
fn text_value(batch: &Batch, column: usize, row: usize) -> (text: String)
    requires
        column < batch_columns(*batch).len(),
        batch_columns(*batch)[column as int] is Utf8,
        row < batch_columns(*batch)[column as int].len(),
    ensures
        batch_columns(*batch)[column as int]->Utf8_0[row as int] is Some ==> text@
            == batch_columns(*batch)[column as int]->Utf8_0[row as int]->0,
{
    let array = batch.records.column(column).as_any().downcast_ref::<StringArray>();
    array.expect("a column of texts").value(row).to_string()
}

/// Calls `LargeBinaryArray::value` of `arrow`: the blob in a row of a column of blobs. Where
/// the blob is missing, `arrow` promises no particular one, and nothing is claimed.
#[verifier::external_body]
fn blob_value(batch: &Batch, column: usize, row: usize) -> (blob: Vec<u8>)
    requires
        column < batch_columns(*batch).len(),
        batch_columns(*batch)[column as int] is LargeBinary,
        row < batch_columns(*batch)[column as int].len(),
    ensures
        batch_columns(*batch)[column as int]->LargeBinary_0[row as int] is Some ==> blob@
            == batch_columns(*batch)[column as int]->LargeBinary_0[row as int]->0,
{
    let array = batch.records.column(column).as_any().downcast_ref::<LargeBinaryArray>();
    array.expect("a column of blobs").value(row).to_vec()
}

/// Whether files are those of a batch: one for each row, with its path and its content as
/// far as these are not missing. A batch whose contents are not large binary has none.
pub open spec fn files_of(
    batch: Seq<ColumnView>,
    columns: InsertColumns,
    files: Seq<FileView>,
) -> bool {
    let paths = batch[columns.path as int];
    let blobs = batch[columns.blob as int];
    if blobs is LargeBinary {
        &&& files.len() == paths.len()
        &&& forall|i: int|
            0 <= i < files.len() ==> {
                let file = #[trigger] files[i];
                &&& paths->Utf8_0[i] matches Some(path) ==> file.path == path
                &&& blobs->LargeBinary_0[i] matches Some(blob) ==> file.blob == blob
            }
    } else {
        files.len() == 0
    }
}

/// The mathematical counterpart of a queue of files.
pub open spec fn files_view(files: Seq<FileWrite>) -> Seq<FileView> {
    files.map_values(|file: FileWrite| file@)
}

/// The files that the rows of a batch become.
pub fn files_to_write(batch: &Batch, columns: InsertColumns) -> (files: Result<
    VecDeque<FileWrite>,
    OpenDALExecError,
>)
    requires
        columns.path < batch_columns(*batch).len(),
        columns.blob < batch_columns(*batch).len(),
    ensures
        if batch_columns(*batch)[columns.path as int] is Utf8 {
            files is Ok && files_of(batch_columns(*batch), columns, files_view(files->Ok_0@))
        } else {
            files is Err && files->Err_0@ == ErrorView::InvalidSchema("`path` must be StringArray"@)
        },
        // Every row of texts and blobs becomes a file, in its place.
        (batch_columns(*batch)[columns.path as int] matches ColumnView::Utf8(paths) && (
        batch_columns(*batch)[columns.blob as int] matches ColumnView::LargeBinary(blobs))) ==> {
            let paths = batch_columns(*batch)[columns.path as int]->Utf8_0;
            let blobs = batch_columns(*batch)[columns.blob as int]->LargeBinary_0;
            &&& files->Ok_0@.len() == paths.len()
            &&& forall|i: int|
                0 <= i < paths.len() && paths[i] is Some ==> (
                #[trigger] files->Ok_0@[i]).path@ == paths[i]->0
            &&& forall|i: int|
                0 <= i < paths.len() && blobs[i] is Some ==> (
                #[trigger] files->Ok_0@[i]).blob@ == blobs[i]->0
        },
{
    if !is_text_column(batch, columns.path) {
        return Err(OpenDALExecError::InvalidSchema("`path` must be StringArray".to_string()));
    }
    let mut files: VecDeque<FileWrite> = VecDeque::new();
    if is_blob_column(batch, columns.blob) {
        let ghost all = batch_columns(*batch);
        let rows = row_count(batch);
        let mut i: usize = 0;
        assert(all[columns.path as int].len() == rows);
        assert(all[columns.blob as int].len() == rows);
        while i < rows
            invariant
                i <= rows,
                all == batch_columns(*batch),
                columns.path < all.len(),
                columns.blob < all.len(),
                all[columns.path as int] is Utf8,
                all[columns.blob as int] is LargeBinary,
                all[columns.path as int].len() == rows,
                all[columns.blob as int].len() == rows,
                files@.len() == i,
                forall|j: int|
                    0 <= j < i ==> {
                        let file = (#[trigger] files@[j])@;
                        &&& all[columns.path as int]->Utf8_0[j] matches Some(path) ==> file.path
                            == path
                        &&& all[columns.blob as int]->LargeBinary_0[j] matches Some(blob)
                            ==> file.blob == blob
                    },
            decreases rows - i,
        {
            let path = text_value(batch, columns.path, i);
            let blob = blob_value(batch, columns.blob, i);
            files.push_back(FileWrite { path, blob });
            i += 1;
        }
    }
    Ok(files)
}

/// The message for a path that exists and must not be written again.
pub open spec fn not_overwritten(path: Seq<char>) -> Seq<char> {
    "Path "@ + path + " exists and overwrite not allowed"@
}

/// Whether a file may be written.
pub open spec fn write_refusal(path: Seq<char>, exists: bool, replace: bool) -> Option<ErrorView> {
    if exists && !replace {
        Some(ErrorView::OverwriteError(not_overwritten(path)))
    } else {
        None
    }
}

/// Decides whether a file may be written, given whether it exists.
pub fn write_one(path: &str, exists: bool, replace: bool) -> (allowed: Result<(), OpenDALExecError>)
    ensures
        match write_refusal(path@, exists, replace) {
            Some(error) => allowed is Err && allowed->Err_0@ == error,
            None => allowed is Ok,
        },
        allowed is Err <==> exists && !replace,
        allowed is Err ==> allowed->Err_0@ == ErrorView::OverwriteError(
            "Path "@ + path@ + " exists and overwrite not allowed"@,
        ),
{
    if exists && !replace {
        let mut message = "Path ".to_string();
        message.append(path);
        message.append(" exists and overwrite not allowed");
        return Err(OpenDALExecError::OverwriteError(message));
    }
    Ok(())
}

/// Where a run of writes stands.
#[derive(Debug, Clone, Copy, PartialEq, Eq, Structural)]
pub enum RunPhase {
    /// It waits for the next batch.
    Receiving,
    /// It waits to hear whether the next file exists.
    Checking,
    /// It waits until a file is written.
    Writing,
    /// An error ended the run.
    Failed,
}

/// The state of a run of writes.
pub struct RunView {
    pub columns: InsertColumns,
    /// Whether files that exist may be written again.
    pub replace: bool,
    pub phase: RunPhase,
    /// The files of the current batch that are still to be written.
    pub pending: Seq<FileView>,
    /// How many files have been written.
    pub count: nat,
}

impl RunView {
    /// What holds of every run.
    pub open spec fn valid(self) -> bool {
        &&& self.phase == RunPhase::Receiving ==> self.pending.len() == 0
        &&& self.phase == RunPhase::Checking ==> self.pending.len() > 0
    }

    /// The phase between two files.
    pub open spec fn resting(pending: Seq<FileView>) -> RunPhase {
        if pending.len() == 0 {
            RunPhase::Receiving
        } else {
            RunPhase::Checking
        }
    }

    /// What the files of a batch do to a run.
    pub open spec fn received(self, files: Seq<FileView>) -> RunView {
        RunView { pending: files, phase: RunView::resting(files), ..self }
    }

    /// What the answer whether the next file exists does to a run, and the file to write
    /// then.
    pub open spec fn checked(self, exists: bool) -> (RunView, Result<FileView, ErrorView>) {
        match write_refusal(self.pending[0].path, exists, self.replace) {
            Some(error) => (RunView { phase: RunPhase::Failed, ..self }, Err(error)),
            None => (
                RunView {
                    phase: RunPhase::Writing,
                    pending: self.pending.drop_first(),
                    ..self
                },
                Ok(self.pending[0]),
            ),
        }
    }

    /// What a written file does to a run.
    pub open spec fn written(self) -> RunView {
        RunView { phase: RunView::resting(self.pending), count: self.count + 1, ..self }
    }
}

/// A run of writes: it is given batches, and tells which files to write.
#[derive(Debug)]
pub struct WriteRun {
    columns: InsertColumns,
    replace: bool,
    phase: RunPhase,
    pending: VecDeque<FileWrite>,
    count: u64,
}

impl View for WriteRun {
    type V = RunView;

    closed spec fn view(&self) -> RunView {
        RunView {
            columns: self.columns,
            replace: self.replace,
            phase: self.phase,
            pending: files_view(self.pending@),
            count: self.count as nat,
        }
    }
}

impl WriteRun {
    /// A run that has not begun.
    pub fn new(columns: InsertColumns, replace: bool) -> (run: Self)
        ensures
            run@ == (RunView {
                columns,
                replace,
                phase: RunPhase::Receiving,
                pending: Seq::empty(),
                count: 0,
            }),
            run@.valid(),
    {
        let run = WriteRun {
            columns,
            replace,
            phase: RunPhase::Receiving,
            pending: VecDeque::new(),
            count: 0,
        };
        assert(run@.pending =~= Seq::<FileView>::empty());
        run
    }

    /// Takes the files of a batch.
    pub fn receive(&mut self, batch: &Batch) -> (received: Result<(), OpenDALExecError>)
        requires
            old(self)@.phase == RunPhase::Receiving,
            old(self)@.columns.path < batch_columns(*batch).len(),
            old(self)@.columns.blob < batch_columns(*batch).len(),
        ensures
            final(self)@.valid(),
            if batch_columns(*batch)[old(self)@.columns.path as int] is Utf8 {
                &&& received is Ok
                &&& final(self)@ == old(self)@.received(final(self)@.pending)
                &&& files_of(batch_columns(*batch), old(self)@.columns, final(self)@.pending)
            } else {
                &&& received is Err
                &&& received->Err_0@ == ErrorView::InvalidSchema("`path` must be StringArray"@)
                &&& final(self)@ == (RunView { phase: RunPhase::Failed, ..old(self)@ })
            },
    {
        match files_to_write(batch, self.columns) {
            Ok(files) => {
                self.phase = if files.len() == 0 {
                    RunPhase::Receiving
                } else {
                    RunPhase::Checking
                };
                self.pending = files;
                Ok(())
            },
            Err(error) => {
                self.phase = RunPhase::Failed;
                Err(error)
            },
        }
    }

    /// The path of the next file, if the batch has one.
    pub fn next_path(&self) -> (path: Option<String>)
        requires
            self@.valid(),
        ensures
            path is Some <==> self@.phase == RunPhase::Checking,
            path is Some ==> path->0@ == self@.pending[0].path,
    {
        if self.phase == RunPhase::Checking {
            assert(self@.pending.len() == self.pending@.len());
            Some(self.pending[0].path.clone())
        } else {
            None
        }
    }

    /// Tells whether the next file exists, and takes it, to be written.
    pub fn check(&mut self, exists: bool) -> (file: Result<FileWrite, OpenDALExecError>)
        requires
            old(self)@.valid(),
            old(self)@.phase == RunPhase::Checking,
        ensures
            final(self)@.valid(),
            final(self)@ == old(self)@.checked(exists).0,
            match old(self)@.checked(exists).1 {
                Ok(view) => file is Ok && file->Ok_0@ == view,
                Err(error) => file is Err && file->Err_0@ == error,
            },
    {
        assert(self@.pending.len() == self.pending@.len());
        match write_one(self.pending[0].path.as_str(), exists, self.replace) {
            Ok(()) => {},
            Err(error) => {
                self.phase = RunPhase::Failed;
                return Err(error);
            },
        }
        let ghost before = self.pending@;
        let file = self.pending.pop_front().unwrap();
        self.phase = RunPhase::Writing;
        assert(files_view(self.pending@) =~= files_view(before).drop_first());
        Ok(file)
    }

    /// Tells that the file was written.
    pub fn written(&mut self)
        requires
            old(self)@.phase == RunPhase::Writing,
            old(self)@.count < u64::MAX,
        ensures
            final(self)@.valid(),
            final(self)@ == old(self)@.written(),
    {
        assert(self@.pending.len() == self.pending@.len());
        self.count = self.count + 1;
        self.phase = if self.pending.len() == 0 {
            RunPhase::Receiving
        } else {
            RunPhase::Checking
        };
    }

    /// Whether a batch has the columns of the paths and the contents.
    pub fn accepts(&self, batch: &Batch) -> (accepted: bool)
        ensures
            accepted == (self@.columns.path < batch_columns(*batch).len() && self@.columns.blob
                < batch_columns(*batch).len()),
    {
        let count = column_count(batch);
        self.columns.path < count && self.columns.blob < count
    }

    /// Where the paths and the contents stand among the columns.
    pub fn columns(&self) -> (columns: InsertColumns)
        ensures
            columns == self@.columns,
    {
        self.columns
    }

    /// How many files have been written.
    pub fn count(&self) -> (count: u64)
        ensures
            count == self@.count,
    {
        self.count
    }
}

} // verus!
