use datafusion::arrow::datatypes::{DataType, Field as ArrowField, Schema, SchemaRef, TimeUnit};
use datafusion::arrow::error::ArrowError;
use datafusion::error::DataFusionError;
use std::sync::Arc;
use vstd::prelude::*;

use crate::columns::{
    BLOB_COL, CONTENT_TYPE_COL, IS_FILE_COL, LAST_MODIFIED_COL, NAMESPACE_COL, NAME_COL, PARENT_COL,
    PATH_COL, RECURSIVE_COL, ROOT_COL, SIZE_COL, URI_COL,
};

verus! {

/// The schema of a table: a list of fields.
#[verifier::external_type_specification]
#[verifier::external_body]
pub struct ExSchema(Schema);

/// Why a schema lacks a column, or why columns do not make a batch.
#[verifier::external_type_specification]
#[verifier::external_body]
pub struct ExArrowError(ArrowError);

/// Why the query engine refuses a request.
#[verifier::external_type_specification]
#[verifier::external_body]
pub struct ExDataFusionError(DataFusionError);

/// The types that the table's columns have.
#[derive(Debug, Clone, Copy, PartialEq, Eq, Structural)]
pub enum ColumnType {
    Utf8,
    Boolean,
    LargeBinary,
    UInt64,
    /// Nanoseconds since the epoch, without a time zone.
    TimestampNanosecond,
    /// Any type that none of the table's columns has.
    Other,
}

/// A column of a schema.
#[derive(Debug)]
pub struct Field {
    pub name: String,
    pub data_type: ColumnType,
    pub nullable: bool,
}

/// The mathematical counterpart of [`Field`].
pub struct FieldView {
    pub name: Seq<char>,
    pub data_type: ColumnType,
    pub nullable: bool,
}

impl View for Field {
    type V = FieldView;

    open spec fn view(&self) -> FieldView {
        FieldView { name: self.name@, data_type: self.data_type, nullable: self.nullable }
    }
}

impl Field {
    /// A field with the given name and type.
    pub fn new(name: &str, data_type: ColumnType, nullable: bool) -> (field: Self)
        ensures
            field@ == (FieldView { name: name@, data_type, nullable }),
    {
        Field { name: name.to_string(), data_type, nullable }
    }
}

/// The fields that a schema holds, in order.
pub uninterp spec fn schema_fields(schema: Schema) -> Seq<FieldView>;

/// The fields of a shared schema, in order.
pub open spec fn fields_of(schema: &SchemaRef) -> Seq<FieldView> {
    schema_fields(**schema)
}

/// The mathematical counterpart of a list of fields.
pub open spec fn fields_view(fields: Seq<Field>) -> Seq<FieldView> {
    fields.map_values(|field: Field| field@)
}

/// Whether some field has the given name.
pub open spec fn has_column(fields: Seq<FieldView>, name: Seq<char>) -> bool {
    exists|i: int| 0 <= i < fields.len() && (#[trigger] fields[i]).name == name
}

/// Whether the field at `index` is the first one with the given name.
pub open spec fn first_column(fields: Seq<FieldView>, name: Seq<char>, index: int) -> bool {
    &&& 0 <= index < fields.len()
    &&& fields[index].name == name
    &&& forall|i: int| 0 <= i < index ==> (#[trigger] fields[i]).name != name
}

/// Calls `Clone::clone` of `std`'s `Arc`: both handles refer to one value.
#[verifier::external_body]
pub(crate) fn share<T>(handle: &Arc<T>) -> (other: Arc<T>)
    ensures
        other == *handle,
{
    handle.clone()
}

/// Calls `Schema::new` of `arrow` on fields made by its `Field::new`: the schema holds
/// those fields in that order.
#[verifier::external_body]
fn new_schema(fields: Vec<Field>) -> (schema: SchemaRef)
    requires
        forall|i: int|
            0 <= i < fields@.len() ==> (#[trigger] fields@[i]).data_type != ColumnType::Other,
    ensures
        schema_fields(*schema) == fields_view(fields@),
{
    let convert = |field: Field| ArrowField::new(field.name, match field.data_type {
        ColumnType::Utf8 => DataType::Utf8,
        ColumnType::Boolean => DataType::Boolean,
        ColumnType::LargeBinary => DataType::LargeBinary,
        ColumnType::UInt64 => DataType::UInt64,
        ColumnType::TimestampNanosecond => DataType::Timestamp(TimeUnit::Nanosecond, None),
        ColumnType::Other => DataType::Null,
    }, field.nullable);
    SchemaRef::new(Schema::new(fields.into_iter().map(convert).collect::<Vec<_>>()))
}

/// Calls `Fields::len` of `arrow`: the number of fields.
#[verifier::external_body]
fn field_count(schema: &SchemaRef) -> (count: usize)
    ensures
        count == schema_fields(**schema).len(),
{
    schema.fields().len()
}

/// Calls `Fields::find` of `arrow`: the position of the first field with the given name.
#[verifier::external_body]
fn find_field(schema: &SchemaRef, name: &str) -> (found: Option<usize>)
    ensures
        found is Some <==> has_column(schema_fields(**schema), name@),
        found is Some ==> first_column(schema_fields(**schema), name@, found->0 as int),
{
    schema.fields.find(name).map(|found| found.0)
}

/// Calls `Schema::index_of` of `arrow`: the position of the first field with the given
/// name, or an error where there is none.
#[verifier::external_body]
pub(crate) fn index_of(schema: &SchemaRef, name: &str) -> (found: Result<usize, ArrowError>)
    ensures
        found is Ok <==> has_column(schema_fields(**schema), name@),
        found is Ok ==> first_column(schema_fields(**schema), name@, found->Ok_0 as int),
{
    schema.index_of(name)
}

/// Calls `Field::data_type` of `arrow` on the field that `Schema::field` returns for a
/// position in range.
#[verifier::external_body]
pub(crate) fn type_at(schema: &SchemaRef, index: usize) -> (data_type: ColumnType)
    requires
        index < schema_fields(**schema).len(),
    ensures
        data_type == schema_fields(**schema)[index as int].data_type,
{
    match schema.field(index).data_type() {
        DataType::Utf8 => ColumnType::Utf8,
        DataType::Boolean => ColumnType::Boolean,
        DataType::LargeBinary => ColumnType::LargeBinary,
        DataType::UInt64 => ColumnType::UInt64,
        DataType::Timestamp(TimeUnit::Nanosecond, None) => ColumnType::TimestampNanosecond,
        _ => ColumnType::Other,
    }
}

/// Whether every index of a projection lies in the schema. Without a projection all
/// columns are wanted.
pub open spec fn projectable(fields: Seq<FieldView>, projection: Option<Seq<usize>>) -> bool {
    match projection {
        Some(indices) => forall|i: int|
            0 <= i < indices.len() ==> (#[trigger] indices[i]) < fields.len(),
        None => true,
    }
}

/// The fields that a projection selects, in its order.
pub open spec fn projected(fields: Seq<FieldView>, projection: Option<Seq<usize>>) -> Seq<
    FieldView,
> {
    match projection {
        Some(indices) => indices.map_values(|index: usize| fields[index as int]),
        None => fields,
    }
}

/// The indices of an optional projection.
pub open spec fn projection_view(projection: Option<&Vec<usize>>) -> Option<Seq<usize>> {
    match projection {
        Some(indices) => Some(indices@),
        None => None,
    }
}

/// Calls `project_schema` of `datafusion`: the schema without a projection, the selected
/// fields with one, and an error where an index lies outside the schema.
#[verifier::external_body]
pub(crate) fn project(schema: &SchemaRef, projection: Option<&Vec<usize>>) -> (result: Result<
    SchemaRef,
    DataFusionError,
>)
    ensures
        result is Ok <==> projectable(schema_fields(**schema), projection_view(projection)),
        result is Ok ==> schema_fields(*result->Ok_0) == projected(
            schema_fields(**schema),
            projection_view(projection),
        ),
{
    datafusion::physical_plan::project_schema(schema, projection)
}

/// Whether a schema has a column with the given name.
pub fn schema_has(schema: &SchemaRef, name: &str) -> (found: bool)
    ensures
        found == has_column(schema_fields(**schema), name@),
{
    find_field(schema, name).is_some()
}

/// The fields of the table. Only the path is never missing.
pub open spec fn table_fields() -> Seq<FieldView> {
    seq![
        FieldView { name: URI_COL@, data_type: ColumnType::Utf8, nullable: true },
        FieldView { name: NAMESPACE_COL@, data_type: ColumnType::Utf8, nullable: true },
        FieldView { name: ROOT_COL@, data_type: ColumnType::Utf8, nullable: true },
        FieldView { name: RECURSIVE_COL@, data_type: ColumnType::Boolean, nullable: true },
        FieldView { name: PARENT_COL@, data_type: ColumnType::Utf8, nullable: true },
        FieldView { name: PATH_COL@, data_type: ColumnType::Utf8, nullable: false },
        FieldView { name: NAME_COL@, data_type: ColumnType::Utf8, nullable: true },
        FieldView { name: BLOB_COL@, data_type: ColumnType::LargeBinary, nullable: true },
        FieldView { name: IS_FILE_COL@, data_type: ColumnType::Boolean, nullable: true },
        FieldView { name: SIZE_COL@, data_type: ColumnType::UInt64, nullable: true },
        FieldView { name: CONTENT_TYPE_COL@, data_type: ColumnType::Utf8, nullable: true },
        FieldView {
            name: LAST_MODIFIED_COL@,
            data_type: ColumnType::TimestampNanosecond,
            nullable: true,
        },
    ]
}

/// The schema of the table.
pub fn table_schema() -> (schema: SchemaRef)
    ensures
        schema_fields(*schema) == table_fields(),
{
    let fields = vec![
        Field::new(URI_COL, ColumnType::Utf8, true),
        Field::new(NAMESPACE_COL, ColumnType::Utf8, true),
        Field::new(ROOT_COL, ColumnType::Utf8, true),
        Field::new(RECURSIVE_COL, ColumnType::Boolean, true),
        Field::new(PARENT_COL, ColumnType::Utf8, true),
        Field::new(PATH_COL, ColumnType::Utf8, false),
        Field::new(NAME_COL, ColumnType::Utf8, true),
        Field::new(BLOB_COL, ColumnType::LargeBinary, true),
        Field::new(IS_FILE_COL, ColumnType::Boolean, true),
        Field::new(SIZE_COL, ColumnType::UInt64, true),
        Field::new(CONTENT_TYPE_COL, ColumnType::Utf8, true),
        Field::new(LAST_MODIFIED_COL, ColumnType::TimestampNanosecond, true),
    ];
    assert(fields_view(fields@) =~= table_fields());
    new_schema(fields)
}

/// The field that identifies an entry.
pub open spec fn path_field() -> FieldView {
    FieldView { name: PATH_COL@, data_type: ColumnType::Utf8, nullable: false }
}

/// The fields that a scan collects: those asked for, or the path alone where a query asks
/// for none, as an aggregate may.
pub open spec fn collected(fields: Seq<FieldView>) -> Seq<FieldView> {
    if fields.len() == 0 {
        seq![path_field()]
    } else {
        fields
    }
}

/// The schema of the batches that a scan collects.
pub fn scan_schema(projected_schema: &SchemaRef) -> (schema: SchemaRef)
    ensures
        schema_fields(*schema) == collected(schema_fields(**projected_schema)),
{
    if field_count(projected_schema) == 0 {
        let fields = vec![Field::new(PATH_COL, ColumnType::Utf8, false)];
        assert(fields_view(fields@) =~= seq![path_field()]);
        new_schema(fields)
    } else {
        share(projected_schema)
    }
}

} // verus!
