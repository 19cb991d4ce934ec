use datafusion::arrow::array::{
    ArrayRef, BooleanArray, LargeBinaryArray, StringArray, TimestampNanosecondArray, UInt64Array,
};
use datafusion::arrow::datatypes::SchemaRef;
use datafusion::arrow::error::ArrowError;
use datafusion::arrow::record_batch::RecordBatch;
use std::sync::Arc;
use vstd::prelude::*;
use vstd::string::*;
use vstd::utf8::encode_utf8;

use crate::columns::{
    table_columns, BLOB_COL, CONTENT_TYPE_COL, IS_FILE_COL, LAST_MODIFIED_COL, NAMESPACE_COL,
    NAME_COL, PARENT_COL, PATH_COL, RECURSIVE_COL, ROOT_COL, SIZE_COL, URI_COL,
};
use crate::schema::{fields_of, has_column, schema_has, schema_fields, ColumnType, FieldView};
use crate::text::text_view;

verus! {

/// Rows of a table, held column by column in a `RecordBatch` of `arrow`. What it holds is
/// told by [`batch_columns`] and [`batch_fields`].
#[verifier::external_body]
#[derive(Debug)]
pub struct Batch {
    pub records: RecordBatch,
}

/// The values of one column. A missing value is `None`.
#[verifier::ext_equal]
pub enum ColumnView {
    Utf8(Seq<Option<Seq<char>>>),
    Boolean(Seq<Option<bool>>),
    LargeBinary(Seq<Option<Seq<u8>>>),
    UInt64(Seq<Option<u64>>),
    TimestampNanosecond(Seq<Option<i64>>),
    /// A column of another type, of which only the length is told.
    Other(nat),
}

/// The columns that a batch holds, in order.
pub uninterp spec fn batch_columns(batch: Batch) -> Seq<ColumnView>;

/// The fields of the schema that a batch was made with, in order.
pub uninterp spec fn batch_fields(batch: Batch) -> Seq<FieldView>;

/// The number of bytes that the texts of a column take in UTF-8.
pub open spec fn text_bytes(values: Seq<Option<Seq<char>>>) -> nat
    decreases values.len(),
{
    if values.len() == 0 {
        0
    } else {
        text_bytes(values.drop_last()) + match values.last() {
            Some(text) => encode_utf8(text).len(),
            None => 0,
        }
    }
}

/// The number of bytes that the blobs of a column take.
pub open spec fn blob_bytes(values: Seq<Option<Seq<u8>>>) -> nat
    decreases values.len(),
{
    if values.len() == 0 {
        0
    } else {
        blob_bytes(values.drop_last()) + match values.last() {
            Some(blob) => blob.len(),
            None => 0,
        }
    }
}

impl ColumnView {
    /// The number of rows.
    pub open spec fn len(self) -> nat {
        match self {
            ColumnView::Utf8(values) => values.len(),
            ColumnView::Boolean(values) => values.len(),
            ColumnView::LargeBinary(values) => values.len(),
            ColumnView::UInt64(values) => values.len(),
            ColumnView::TimestampNanosecond(values) => values.len(),
            ColumnView::Other(rows) => rows,
        }
    }

    /// The type of the values.
    pub open spec fn data_type(self) -> ColumnType {
        match self {
            ColumnView::Utf8(_) => ColumnType::Utf8,
            ColumnView::Boolean(_) => ColumnType::Boolean,
            ColumnView::LargeBinary(_) => ColumnType::LargeBinary,
            ColumnView::UInt64(_) => ColumnType::UInt64,
            ColumnView::TimestampNanosecond(_) => ColumnType::TimestampNanosecond,
            ColumnView::Other(_) => ColumnType::Other,
        }
    }

    /// Whether no value is missing.
    pub open spec fn complete(self) -> bool {
        match self {
            ColumnView::Utf8(values) => forall|i: int|
                0 <= i < values.len() ==> (#[trigger] values[i]) is Some,
            ColumnView::Boolean(values) => forall|i: int|
                0 <= i < values.len() ==> (#[trigger] values[i]) is Some,
            ColumnView::LargeBinary(values) => forall|i: int|
                0 <= i < values.len() ==> (#[trigger] values[i]) is Some,
            ColumnView::UInt64(values) => forall|i: int|
                0 <= i < values.len() ==> (#[trigger] values[i]) is Some,
            ColumnView::TimestampNanosecond(values) => forall|i: int|
                0 <= i < values.len() ==> (#[trigger] values[i]) is Some,
            ColumnView::Other(_) => true,
        }
    }

    /// Whether the values fit under the offsets of an array: 32 bits for texts, 64 for
    /// blobs, both signed.
    pub open spec fn fits(self) -> bool {
        match self {
            ColumnView::Utf8(values) => text_bytes(values) <= i32::MAX,
            ColumnView::LargeBinary(values) => blob_bytes(values) <= i64::MAX,
            _ => true,
        }
    }
}

/// The bytes of an optional blob.
pub open spec fn blob_view(blob: Option<Vec<u8>>) -> Option<Seq<u8>> {
    match blob {
        Some(bytes) => Some(bytes@),
        None => None,
    }
}

/// A column of texts, none of them missing.
pub open spec fn texts(values: Seq<String>) -> ColumnView {
    ColumnView::Utf8(values.map_values(|text: String| Some(text@)))
}

/// A column of texts.
pub open spec fn optional_texts(values: Seq<Option<String>>) -> ColumnView {
    ColumnView::Utf8(values.map_values(|text: Option<String>| text_view(text)))
}

/// A column of truth values, none of them missing.
pub open spec fn flags(values: Seq<bool>) -> ColumnView {
    ColumnView::Boolean(values.map_values(|flag: bool| Some(flag)))
}

/// A column of blobs.
pub open spec fn blobs_view(values: Seq<Option<Vec<u8>>>) -> ColumnView {
    ColumnView::LargeBinary(values.map_values(|blob: Option<Vec<u8>>| blob_view(blob)))
}

/// A column of numbers, none of them missing.
pub open spec fn numbers(values: Seq<u64>) -> ColumnView {
    ColumnView::UInt64(values.map_values(|number: u64| Some(number)))
}

/// A column of points in time.
pub open spec fn times(values: Seq<Option<i64>>) -> ColumnView {
    ColumnView::TimestampNanosecond(values)
}

/// The values of one column, ready to be put into a batch.
pub enum ColumnData<'a> {
    Texts(&'a [String]),
    OptionalTexts(&'a [Option<String>]),
    Flags(&'a [bool]),
    Blobs(&'a [Option<Vec<u8>>]),
    Numbers(&'a [u64]),
    Times(&'a [Option<i64>]),
}

impl<'a> View for ColumnData<'a> {
    type V = ColumnView;

    open spec fn view(&self) -> ColumnView {
        match *self {
            ColumnData::Texts(values) => texts(values@),
            ColumnData::OptionalTexts(values) => optional_texts(values@),
            ColumnData::Flags(values) => flags(values@),
            ColumnData::Blobs(values) => blobs_view(values@),
            ColumnData::Numbers(values) => numbers(values@),
            ColumnData::Times(values) => times(values@),
        }
    }
}

/// The mathematical counterpart of a list of columns.
pub open spec fn columns_view(columns: Seq<ColumnData<'_>>) -> Seq<ColumnView> {
    columns.map_values(|column: ColumnData<'_>| column@)
}

/// Whether columns make a batch of a schema: there is one for each field and at least one,
/// they are of one length, each has its field's type, and no value is missing where the
/// field does not allow it.
pub open spec fn assembles(fields: Seq<FieldView>, columns: Seq<ColumnView>) -> bool {
    &&& columns.len() == fields.len()
    &&& columns.len() > 0
    &&& forall|i: int|
        0 <= i < columns.len() ==> (#[trigger] columns[i]).len() == columns[0].len()
            && columns[i].data_type() == fields[i].data_type && (fields[i].nullable
            || columns[i].complete())
}

/// Calls `RecordBatch::try_new` of `arrow` on arrays made of the columns: the batch holds
/// them under the schema's fields, or there is an error where they do not assemble. The
/// arrays' constructors panic on texts or blobs beyond their offsets, hence the bound.
#[verifier::external_body]
fn new_batch(schema: &SchemaRef, columns: Vec<ColumnData<'_>>) -> (result: Result<
    Batch,
    ArrowError,
>)
    requires
        forall|i: int| 0 <= i < columns@.len() ==> (#[trigger] columns@[i])@.fits(),
    ensures
        result is Ok <==> assembles(schema_fields(**schema), columns_view(columns@)),
        result is Ok ==> batch_columns(result->Ok_0) == columns_view(columns@),
        result is Ok ==> batch_fields(result->Ok_0) == schema_fields(**schema),
{
    let convert = |column| -> ArrayRef { match column {
        ColumnData::Texts(values) => Arc::new(StringArray::from(values.to_vec())),
        ColumnData::OptionalTexts(values) => Arc::new(StringArray::from(values.to_vec())),
        ColumnData::Flags(values) => Arc::new(BooleanArray::from(values.to_vec())),
        ColumnData::Blobs(v) => Arc::new(LargeBinaryArray::from_opt_vec(v.iter().map(Option::as_deref).collect())),
        ColumnData::Numbers(values) => Arc::new(UInt64Array::from(values.to_vec())),
        ColumnData::Times(values) => Arc::new(TimestampNanosecondArray::from(values.to_vec())),
    } };
    RecordBatch::try_new(schema.clone(), columns.into_iter().map(convert).collect())
        .map(|records| Batch { records })
}

/// Of the first `n` columns of the table, those that a schema asks for.
pub open spec fn chosen(fields: Seq<FieldView>, table: Seq<ColumnView>, n: nat) -> Seq<ColumnView>
    decreases n,
{
    if n == 0 {
        Seq::empty()
    } else {
        let before = chosen(fields, table, (n - 1) as nat);
        if has_column(fields, table_columns()[n - 1]) {
            before.push(table[n - 1])
        } else {
            before
        }
    }
}

/// The columns that a schema asks for, in the order of the table.
pub open spec fn chosen_columns(fields: Seq<FieldView>, table: Seq<ColumnView>) -> Seq<ColumnView> {
    chosen(fields, table, table_columns().len())
}

/// Which columns are chosen depends only on those that the schema asks for.
pub proof fn lemma_chosen_agree(
    fields: Seq<FieldView>,
    one: Seq<ColumnView>,
    other: Seq<ColumnView>,
    n: nat,
)
    requires
        n <= table_columns().len(),
        forall|k: int|
            0 <= k < n && has_column(fields, #[trigger] table_columns()[k]) ==> one[k] == other[k],
    ensures
        chosen(fields, one, n) == chosen(fields, other, n),
    decreases n,
{
    if n > 0 {
        lemma_chosen_agree(fields, one, other, (n - 1) as nat);
        assert(has_column(fields, table_columns()[n - 1]) ==> one[n - 1] == other[n - 1]);
    }
}

/// The chosen columns fit exactly where each column that the schema asks for does.
pub proof fn lemma_chosen_fit(fields: Seq<FieldView>, table: Seq<ColumnView>, n: nat)
    requires
        n <= table_columns().len(),
    ensures
        (forall|i: int|
            0 <= i < chosen(fields, table, n).len() ==> (#[trigger] chosen(
                fields,
                table,
                n,
            )[i]).fits()) <==> (forall|k: int|
            0 <= k < n && has_column(fields, #[trigger] table_columns()[k]) ==> table[k].fits()),
    decreases n,
{
    if n > 0 {
        let m = (n - 1) as nat;
        lemma_chosen_fit(fields, table, m);
        let before = chosen(fields, table, m);
        let after = chosen(fields, table, n);
        let name = table_columns()[n - 1];
        if has_column(fields, name) {
            assert(after == before.push(table[n - 1]));
            if forall|i: int| 0 <= i < after.len() ==> (#[trigger] after[i]).fits() {
                assert forall|i: int| 0 <= i < before.len() implies (
                #[trigger] before[i]).fits() by {
                    assert(after[i].fits());
                }
                assert(after[before.len() as int].fits());
            }
        }
    }
}

/// Adds a column where a schema asks for it.
fn choose_column<'a>(
    schema: &SchemaRef,
    name: &str,
    column: ColumnData<'a>,
    columns: &mut Vec<ColumnData<'a>>,
)
    ensures
        columns_view(final(columns)@) == if has_column(fields_of(schema), name@) {
            columns_view(old(columns)@).push(column@)
        } else {
            columns_view(old(columns)@)
        },
{
    if schema_has(schema, name) {
        let ghost before = columns_view(columns@);
        columns.push(column);
        assert(columns_view(columns@) =~= before.push(column@));
    }
}

/// The table's columns, in its order.
pub open spec fn table_data(
    uris: Seq<String>,
    namespaces: Seq<Option<String>>,
    roots: Seq<String>,
    recursives: Seq<bool>,
    parents: Seq<String>,
    paths: Seq<String>,
    names: Seq<String>,
    blobs: Seq<Option<Vec<u8>>>,
    is_files: Seq<bool>,
    sizes: Seq<u64>,
    content_types: Seq<Option<String>>,
    last_modified: Seq<Option<i64>>,
) -> Seq<ColumnView> {
    seq![
        texts(uris),
        optional_texts(namespaces),
        texts(roots),
        flags(recursives),
        texts(parents),
        texts(paths),
        texts(names),
        blobs_view(blobs),
        flags(is_files),
        numbers(sizes),
        optional_texts(content_types),
        times(last_modified),
    ]
}

/// Whether every column that a schema asks for fits into an array.
pub open spec fn columns_fit(fields: Seq<FieldView>, table: Seq<ColumnView>) -> bool {
    forall|i: int|
        0 <= i < chosen_columns(fields, table).len() ==> (#[trigger] chosen_columns(
            fields,
            table,
        )[i]).fits()
}

/// Makes a batch of the columns that the schema asks for. They are taken in the order of
/// the table, whatever the order of the schema's fields.
pub fn build_batch(
    schema: &SchemaRef,
    uris: &[String],
    namespaces: &[Option<String>],
    roots: &[String],
    recursives: &[bool],
    parents: &[String],
    paths: &[String],
    names: &[String],
    blobs: &[Option<Vec<u8>>],
    is_files: &[bool],
    sizes: &[u64],
    content_types: &[Option<String>],
    last_modified: &[Option<i64>],
) -> (result: Result<Batch, ArrowError>)
    requires
        columns_fit(
            fields_of(schema),
            table_data(
                uris@,
                namespaces@,
                roots@,
                recursives@,
                parents@,
                paths@,
                names@,
                blobs@,
                is_files@,
                sizes@,
                content_types@,
                last_modified@,
            ),
        ),
    ensures
        ({
            let fields = fields_of(schema);
            let columns = chosen_columns(
                fields,
                table_data(
                    uris@,
                    namespaces@,
                    roots@,
                    recursives@,
                    parents@,
                    paths@,
                    names@,
                    blobs@,
                    is_files@,
                    sizes@,
                    content_types@,
                    last_modified@,
                ),
            );
            &&& result is Ok <==> assembles(fields, columns)
            &&& result is Ok ==> batch_columns(result->Ok_0) == columns
            &&& result is Ok ==> batch_fields(result->Ok_0) == fields
        }),
{
    let mut columns: Vec<ColumnData<'_>> = Vec::new();
    let ghost fields = fields_of(schema);
    let ghost table = table_data(
        uris@,
        namespaces@,
        roots@,
        recursives@,
        parents@,
        paths@,
        names@,
        blobs@,
        is_files@,
        sizes@,
        content_types@,
        last_modified@,
    );
    assert(columns_view(columns@) =~= chosen(fields, table, 0));
    choose_column(schema, URI_COL, ColumnData::Texts(uris), &mut columns);
    assert(columns_view(columns@) == chosen(fields, table, 1));
    choose_column(schema, NAMESPACE_COL, ColumnData::OptionalTexts(namespaces), &mut columns);
    assert(columns_view(columns@) == chosen(fields, table, 2));
    choose_column(schema, ROOT_COL, ColumnData::Texts(roots), &mut columns);
    assert(columns_view(columns@) == chosen(fields, table, 3));
    choose_column(schema, RECURSIVE_COL, ColumnData::Flags(recursives), &mut columns);
    assert(columns_view(columns@) == chosen(fields, table, 4));
    choose_column(schema, PARENT_COL, ColumnData::Texts(parents), &mut columns);
    assert(columns_view(columns@) == chosen(fields, table, 5));
    choose_column(schema, PATH_COL, ColumnData::Texts(paths), &mut columns);
    assert(columns_view(columns@) == chosen(fields, table, 6));
    choose_column(schema, NAME_COL, ColumnData::Texts(names), &mut columns);
    assert(columns_view(columns@) == chosen(fields, table, 7));
    choose_column(schema, BLOB_COL, ColumnData::Blobs(blobs), &mut columns);
    assert(columns_view(columns@) == chosen(fields, table, 8));
    choose_column(schema, IS_FILE_COL, ColumnData::Flags(is_files), &mut columns);
    assert(columns_view(columns@) == chosen(fields, table, 9));
    choose_column(schema, SIZE_COL, ColumnData::Numbers(sizes), &mut columns);
    assert(columns_view(columns@) == chosen(fields, table, 10));
    choose_column(schema, CONTENT_TYPE_COL, ColumnData::OptionalTexts(content_types), &mut columns);
    assert(columns_view(columns@) == chosen(fields, table, 11));
    choose_column(schema, LAST_MODIFIED_COL, ColumnData::Times(last_modified), &mut columns);
    assert(columns_view(columns@) == chosen(fields, table, 12));
    assert forall|i: int| 0 <= i < columns@.len() implies (#[trigger] columns@[i])@.fits() by {
        assert(columns_view(columns@)[i] == columns@[i]@);
        assert(chosen_columns(fields, table)[i].fits());
    }
    new_batch(schema, columns)
}

/// Whether texts fit into an array.
pub fn texts_fit(values: &[String]) -> (fit: bool)
    ensures
        fit == texts(values@).fits(),
{
    let ghost all = texts(values@)->Utf8_0;
    let mut total: u64 = 0;
    let mut i: usize = 0;
    assert(all.take(0) =~= Seq::empty());
    while i < values.len()
        invariant
            i <= values@.len(),
            all == texts(values@)->Utf8_0,
            total == text_bytes(all.take(i as int)),
            total <= i32::MAX,
        decreases values@.len() - i,
    {
        assert(all.take(i + 1).drop_last() =~= all.take(i as int));
        let bytes: u64 = values[i].as_str().as_bytes().len() as u64;
        if bytes > i32::MAX as u64 - total {
            proof {
                lemma_text_bytes_grow(all, i + 1);
            }
            return false;
        }
        total = total + bytes;
        i += 1;
    }
    assert(all.take(all.len() as int) =~= all);
    true
}

/// Whether optional texts fit into an array.
pub fn optional_texts_fit(values: &[Option<String>]) -> (fit: bool)
    ensures
        fit == optional_texts(values@).fits(),
{
    let ghost all = optional_texts(values@)->Utf8_0;
    let mut total: u64 = 0;
    let mut i: usize = 0;
    assert(all.take(0) =~= Seq::empty());
    while i < values.len()
        invariant
            i <= values@.len(),
            all == optional_texts(values@)->Utf8_0,
            total == text_bytes(all.take(i as int)),
            total <= i32::MAX,
        decreases values@.len() - i,
    {
        assert(all.take(i + 1).drop_last() =~= all.take(i as int));
        let bytes: u64 = match &values[i] {
            Some(text) => text.as_str().as_bytes().len() as u64,
            None => 0,
        };
        if bytes > i32::MAX as u64 - total {
            proof {
                lemma_text_bytes_grow(all, i + 1);
            }
            return false;
        }
        total = total + bytes;
        i += 1;
    }
    assert(all.take(all.len() as int) =~= all);
    true
}

/// Whether blobs fit into an array.
pub fn blobs_fit(values: &[Option<Vec<u8>>]) -> (fit: bool)
    ensures
        fit == blobs_view(values@).fits(),
{
    let ghost all = blobs_view(values@)->LargeBinary_0;
    let mut total: u64 = 0;
    let mut i: usize = 0;
    assert(all.take(0) =~= Seq::empty());
    while i < values.len()
        invariant
            i <= values@.len(),
            all == blobs_view(values@)->LargeBinary_0,
            total == blob_bytes(all.take(i as int)),
            total <= i64::MAX,
        decreases values@.len() - i,
    {
        assert(all.take(i + 1).drop_last() =~= all.take(i as int));
        let bytes: u64 = match &values[i] {
            Some(blob) => blob.len() as u64,
            None => 0,
        };
        if bytes > i64::MAX as u64 - total {
            proof {
                lemma_blob_bytes_grow(all, i + 1);
            }
            return false;
        }
        total = total + bytes;
        i += 1;
    }
    assert(all.take(all.len() as int) =~= all);
    true
}

proof fn lemma_text_bytes_grow(values: Seq<Option<Seq<char>>>, n: int)
    requires
        0 <= n <= values.len(),
    ensures
        text_bytes(values.take(n)) <= text_bytes(values),
    decreases values.len() - n,
{
    if n < values.len() {
        assert(values.take(n + 1).drop_last() =~= values.take(n));
        lemma_text_bytes_grow(values, n + 1);
    } else {
        assert(values.take(n) =~= values);
    }
}

proof fn lemma_blob_bytes_grow(values: Seq<Option<Seq<u8>>>, n: int)
    requires
        0 <= n <= values.len(),
    ensures
        blob_bytes(values.take(n)) <= blob_bytes(values),
    decreases values.len() - n,
{
    if n < values.len() {
        assert(values.take(n + 1).drop_last() =~= values.take(n));
        lemma_blob_bytes_grow(values, n + 1);
    } else {
        assert(values.take(n) =~= values);
    }
}

} // verus!
