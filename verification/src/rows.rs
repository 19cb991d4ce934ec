use datafusion::arrow::datatypes::SchemaRef;
use datafusion::arrow::error::ArrowError;
use vstd::prelude::*;

use crate::batch::{
    assembles, batch_columns, batch_fields, blob_view, blobs_fit, blobs_view, build_batch,
    chosen_columns, columns_fit, flags, lemma_chosen_agree, lemma_chosen_fit, numbers,
    optional_texts, optional_texts_fit, table_data, texts, texts_fit, times, Batch, ColumnView,
};
use crate::columns::{
    table_columns, BLOB_COL, CONTENT_TYPE_COL, IS_FILE_COL, LAST_MODIFIED_COL, NAMESPACE_COL,
    NAME_COL, PARENT_COL, PATH_COL, RECURSIVE_COL, ROOT_COL, SIZE_COL, URI_COL,
};
use crate::schema::{fields_of, has_column, schema_has, FieldView};
use crate::text::text_view;
use crate::value::clone_text;

verus! {

/// What the table shows of one entry of a store, but for its content.
#[derive(Debug, PartialEq)]
pub struct Row {
    pub parent: String,
    pub path: String,
    pub name: String,
    pub is_file: bool,
    pub size: u64,
    pub content_type: Option<String>,
    pub last_modified: Option<i64>,
}

/// The mathematical counterpart of [`Row`].
pub struct RowView {
    pub parent: Seq<char>,
    pub path: Seq<char>,
    pub name: Seq<char>,
    pub is_file: bool,
    pub size: u64,
    pub content_type: Option<Seq<char>>,
    pub last_modified: Option<i64>,
}

impl View for Row {
    type V = RowView;

    open spec fn view(&self) -> RowView {
        RowView {
            parent: self.parent@,
            path: self.path@,
            name: self.name@,
            is_file: self.is_file,
            size: self.size,
            content_type: text_view(self.content_type),
            last_modified: self.last_modified,
        }
    }
}

/// A row with its content, where that was read.
pub struct StoredRow {
    pub row: RowView,
    pub blob: Option<Seq<u8>>,
}

/// The columns whose value is the same in all rows of a scan.
#[derive(Debug)]
pub struct Constants {
    pub uri: String,
    pub namespace: Option<String>,
    pub root: String,
    pub recursive: bool,
}

/// The mathematical counterpart of [`Constants`].
pub struct ConstantsView {
    pub uri: Seq<char>,
    pub namespace: Option<Seq<char>>,
    pub root: Seq<char>,
    pub recursive: bool,
}

impl View for Constants {
    type V = ConstantsView;

    open spec fn view(&self) -> ConstantsView {
        ConstantsView {
            uri: self.uri@,
            namespace: text_view(self.namespace),
            root: self.root@,
            recursive: self.recursive,
        }
    }
}

/// The `uri` column of a list of rows.
pub open spec fn uri_column(constants: ConstantsView, rows: Seq<StoredRow>) -> ColumnView {
    ColumnView::Utf8(rows.map_values(|r: StoredRow| Some(constants.uri)))
}

/// The `namespace` column of a list of rows.
pub open spec fn namespace_column(constants: ConstantsView, rows: Seq<StoredRow>) -> ColumnView {
    ColumnView::Utf8(rows.map_values(|r: StoredRow| constants.namespace))
}

/// The `root` column of a list of rows.
pub open spec fn root_column(constants: ConstantsView, rows: Seq<StoredRow>) -> ColumnView {
    ColumnView::Utf8(rows.map_values(|r: StoredRow| Some(constants.root)))
}

/// The `recursive` column of a list of rows.
pub open spec fn recursive_column(constants: ConstantsView, rows: Seq<StoredRow>) -> ColumnView {
    ColumnView::Boolean(rows.map_values(|r: StoredRow| Some(constants.recursive)))
}

/// The `parent` column of a list of rows.
pub open spec fn parent_column(rows: Seq<StoredRow>) -> ColumnView {
    ColumnView::Utf8(rows.map_values(|r: StoredRow| Some(r.row.parent)))
}

/// The `path` column of a list of rows.
pub open spec fn path_column(rows: Seq<StoredRow>) -> ColumnView {
    ColumnView::Utf8(rows.map_values(|r: StoredRow| Some(r.row.path)))
}

/// The `name` column of a list of rows.
pub open spec fn name_column(rows: Seq<StoredRow>) -> ColumnView {
    ColumnView::Utf8(rows.map_values(|r: StoredRow| Some(r.row.name)))
}

/// The `blob` column of a list of rows.
pub open spec fn blob_column(rows: Seq<StoredRow>) -> ColumnView {
    ColumnView::LargeBinary(rows.map_values(|r: StoredRow| r.blob))
}

/// The `is_file` column of a list of rows.
pub open spec fn is_file_column(rows: Seq<StoredRow>) -> ColumnView {
    ColumnView::Boolean(rows.map_values(|r: StoredRow| Some(r.row.is_file)))
}

/// The `size` column of a list of rows.
pub open spec fn size_column(rows: Seq<StoredRow>) -> ColumnView {
    ColumnView::UInt64(rows.map_values(|r: StoredRow| Some(r.row.size)))
}

/// The `content_type` column of a list of rows.
pub open spec fn content_type_column(rows: Seq<StoredRow>) -> ColumnView {
    ColumnView::Utf8(rows.map_values(|r: StoredRow| r.row.content_type))
}

/// The `last_modified` column of a list of rows.
pub open spec fn last_modified_column(rows: Seq<StoredRow>) -> ColumnView {
    ColumnView::TimestampNanosecond(rows.map_values(|r: StoredRow| r.row.last_modified))
}

/// The columns of the table for a list of rows, in its order.
pub open spec fn table_of(constants: ConstantsView, rows: Seq<StoredRow>) -> Seq<ColumnView> {
    seq![
        uri_column(constants, rows),
        namespace_column(constants, rows),
        root_column(constants, rows),
        recursive_column(constants, rows),
        parent_column(rows),
        path_column(rows),
        name_column(rows),
        blob_column(rows),
        is_file_column(rows),
        size_column(rows),
        content_type_column(rows),
        last_modified_column(rows),
    ]
}

/// The sizes of the rows' entries, added up.
pub open spec fn total_size(rows: Seq<StoredRow>) -> nat
    decreases rows.len(),
{
    if rows.len() == 0 {
        0
    } else {
        total_size(rows.drop_last()) + rows.last().row.size as nat
    }
}

/// What a column holds while rows are collected: the rows' values where the schema asks
/// for the column, else nothing.
pub open spec fn buffered(
    fields: Seq<FieldView>,
    name: Seq<char>,
    data: ColumnView,
    full: ColumnView,
) -> bool {
    if has_column(fields, name) {
        data == full
    } else {
        data.len() == 0
    }
}

/// Rows that wait to be sent, column by column.
pub struct Buffers {
    schema: SchemaRef,
    constants: Constants,
    uris: Vec<String>,
    namespaces: Vec<Option<String>>,
    roots: Vec<String>,
    recursives: Vec<bool>,
    parents: Vec<String>,
    paths: Vec<String>,
    names: Vec<String>,
    blobs: Vec<Option<Vec<u8>>>,
    is_files: Vec<bool>,
    sizes: Vec<u64>,
    content_types: Vec<Option<String>>,
    last_modified: Vec<Option<i64>>,
    accumulated_size: u64,
    row_count: usize,
    rows: Ghost<Seq<StoredRow>>,
}

impl View for Buffers {
    type V = Seq<StoredRow>;

    closed spec fn view(&self) -> Seq<StoredRow> {
        self.rows@
    }
}

impl Buffers {
    /// The fields that are asked for.
    pub closed spec fn fields(&self) -> Seq<FieldView> {
        fields_of(&self.schema)
    }

    /// The values that all rows share.
    pub closed spec fn constants(&self) -> ConstantsView {
        self.constants@
    }

    /// The columns as they are held.
    closed spec fn data(&self) -> Seq<ColumnView> {
        table_data(
            self.uris@,
            self.namespaces@,
            self.roots@,
            self.recursives@,
            self.parents@,
            self.paths@,
            self.names@,
            self.blobs@,
            self.is_files@,
            self.sizes@,
            self.content_types@,
            self.last_modified@,
        )
    }

    /// Whether the columns hold what the schema asks for of the rows, and the counters
    /// agree. Blobs are held in any case.
    pub closed spec fn wf(&self) -> bool {
        let fields = self.fields();
        let constants = self.constants();
        &&& buffered(fields, URI_COL@, texts(self.uris@), uri_column(constants, self@))
        &&& buffered(
            fields,
            NAMESPACE_COL@,
            optional_texts(self.namespaces@),
            namespace_column(constants, self@),
        )
        &&& buffered(fields, ROOT_COL@, texts(self.roots@), root_column(constants, self@))
        &&& buffered(
            fields,
            RECURSIVE_COL@,
            flags(self.recursives@),
            recursive_column(constants, self@),
        )
        &&& buffered(fields, PARENT_COL@, texts(self.parents@), parent_column(self@))
        &&& buffered(fields, PATH_COL@, texts(self.paths@), path_column(self@))
        &&& buffered(fields, NAME_COL@, texts(self.names@), name_column(self@))
        &&& blobs_view(self.blobs@) == blob_column(self@)
        &&& buffered(fields, IS_FILE_COL@, flags(self.is_files@), is_file_column(self@))
        &&& buffered(fields, SIZE_COL@, numbers(self.sizes@), size_column(self@))
        &&& buffered(
            fields,
            CONTENT_TYPE_COL@,
            optional_texts(self.content_types@),
            content_type_column(self@),
        )
        &&& buffered(
            fields,
            LAST_MODIFIED_COL@,
            times(self.last_modified@),
            last_modified_column(self@),
        )
        &&& self.accumulated_size == total_size(self@)
        &&& self.row_count == self@.len()
    }

    /// The columns that a batch of the waiting rows has.
    pub open spec fn columns(&self) -> Seq<ColumnView> {
        chosen_columns(self.fields(), table_of(self.constants(), self@))
    }

    /// No rows, under a schema.
    pub fn new(schema: SchemaRef, constants: Constants) -> (buffers: Self)
        ensures
            buffers.wf(),
            buffers@ == Seq::<StoredRow>::empty(),
            buffers.fields() == fields_of(&schema),
            buffers.constants() == constants@,
    {
        let buffers = Buffers {
            schema,
            constants,
            uris: Vec::new(),
            namespaces: Vec::new(),
            roots: Vec::new(),
            recursives: Vec::new(),
            parents: Vec::new(),
            paths: Vec::new(),
            names: Vec::new(),
            blobs: Vec::new(),
            is_files: Vec::new(),
            sizes: Vec::new(),
            content_types: Vec::new(),
            last_modified: Vec::new(),
            accumulated_size: 0,
            row_count: 0,
            rows: Ghost(Seq::empty()),
        };
        proof {
            buffers.lemma_empty();
        }
        buffers
    }

    proof fn lemma_empty(&self)
        requires
            self@.len() == 0,
            self.uris@.len() == 0,
            self.namespaces@.len() == 0,
            self.roots@.len() == 0,
            self.recursives@.len() == 0,
            self.parents@.len() == 0,
            self.paths@.len() == 0,
            self.names@.len() == 0,
            self.blobs@.len() == 0,
            self.is_files@.len() == 0,
            self.sizes@.len() == 0,
            self.content_types@.len() == 0,
            self.last_modified@.len() == 0,
            self.accumulated_size == 0,
            self.row_count == 0,
        ensures
            self.wf(),
    {
        let constants = self.constants();
        assert(texts(self.uris@) =~= uri_column(constants, self@));
        assert(optional_texts(self.namespaces@) =~= namespace_column(constants, self@));
        assert(texts(self.roots@) =~= root_column(constants, self@));
        assert(flags(self.recursives@) =~= recursive_column(constants, self@));
        assert(texts(self.parents@) =~= parent_column(self@));
        assert(texts(self.paths@) =~= path_column(self@));
        assert(texts(self.names@) =~= name_column(self@));
        assert(blobs_view(self.blobs@) =~= blob_column(self@));
        assert(flags(self.is_files@) =~= is_file_column(self@));
        assert(numbers(self.sizes@) =~= size_column(self@));
        assert(optional_texts(self.content_types@) =~= content_type_column(self@));
        assert(times(self.last_modified@) =~= last_modified_column(self@));
    }

    /// The number of rows that wait.
    pub fn len(&self) -> (count: usize)
        requires
            self.wf(),
        ensures
            count == self@.len(),
    {
        self.row_count
    }

    /// The sizes of the entries that wait, added up.
    pub fn size(&self) -> (size: u64)
        requires
            self.wf(),
        ensures
            size == total_size(self@),
    {
        self.accumulated_size
    }

    /// Whether the schema asks for a column.
    pub fn asks_for(&self, name: &str) -> (found: bool)
        ensures
            found == has_column(self.fields(), name@),
    {
        schema_has(&self.schema, name)
    }

    /// Adds a row after the others.
    pub fn push(&mut self, row: Row, blob: Option<Vec<u8>>)
        requires
            old(self).wf(),
            total_size(old(self)@) + row.size <= u64::MAX,
            old(self)@.len() < usize::MAX,
        ensures
            final(self).wf(),
            final(self)@ == old(self)@.push(StoredRow { row: row@, blob: blob_view(blob) }),
            final(self).fields() == old(self).fields(),
            final(self).constants() == old(self).constants(),
    {
        let ghost before = *self;
        let ghost stored = StoredRow { row: row@, blob: blob_view(blob) };
        let Row { parent, path, name, is_file, size, content_type, last_modified } = row;
        add_text(schema_has(&self.schema, URI_COL), self.constants.uri.clone(), &mut self.uris);
        add_optional_text(
            schema_has(&self.schema, NAMESPACE_COL),
            clone_text(&self.constants.namespace),
            &mut self.namespaces,
        );
        add_text(schema_has(&self.schema, ROOT_COL), self.constants.root.clone(), &mut self.roots);
        add_flag(
            schema_has(&self.schema, RECURSIVE_COL),
            self.constants.recursive,
            &mut self.recursives,
        );
        add_text(schema_has(&self.schema, PARENT_COL), parent, &mut self.parents);
        add_text(schema_has(&self.schema, NAME_COL), name, &mut self.names);
        add_text(schema_has(&self.schema, PATH_COL), path, &mut self.paths);
        add_flag(schema_has(&self.schema, IS_FILE_COL), is_file, &mut self.is_files);
        add_number(schema_has(&self.schema, SIZE_COL), size, &mut self.sizes);
        add_optional_text(
            schema_has(&self.schema, CONTENT_TYPE_COL),
            content_type,
            &mut self.content_types,
        );
        add_time(
            schema_has(&self.schema, LAST_MODIFIED_COL),
            last_modified,
            &mut self.last_modified,
        );
        self.blobs.push(blob);
        self.accumulated_size = self.accumulated_size + size;
        self.row_count = self.row_count + 1;
        self.rows = Ghost(self.rows@.push(stored));
        proof {
            lemma_table_push(self.constants(), before@, stored);
            assert(self@.drop_last() =~= before@);
            assert(blobs_view(self.blobs@)->LargeBinary_0 =~= blobs_view(
                before.blobs@,
            )->LargeBinary_0.push(stored.blob));
        }
    }

    /// The columns that are held are the ones that a batch of the rows has.
    proof fn lemma_data(&self)
        requires
            self.wf(),
        ensures
            chosen_columns(self.fields(), self.data()) == self.columns(),
    {
        let names = table_columns();
        let full = table_of(self.constants(), self@);
        assert forall|k: int| 0 <= k < 12 && has_column(self.fields(), #[trigger] names[k]) implies
            self.data()[k] == full[k] by {
            if k == 0 {
            } else if k == 1 {
            } else if k == 2 {
            } else if k == 3 {
            } else if k == 4 {
            } else if k == 5 {
            } else if k == 6 {
            } else if k == 7 {
            } else if k == 8 {
            } else if k == 9 {
            } else if k == 10 {
            } else {
            }
        }
        lemma_chosen_agree(self.fields(), self.data(), full, 12);
    }

    /// Whether the waiting rows fit into the arrays of one batch.
    pub fn fits(&self) -> (fit: bool)
        requires
            self.wf(),
        ensures
            fit == columns_fit(self.fields(), table_of(self.constants(), self@)),
    {
        proof {
            self.lemma_data();
            lemma_table_fits(self.fields(), self.data());
            self.lemma_empty_columns_fit();
        }
        texts_fit(self.uris.as_slice()) && optional_texts_fit(self.namespaces.as_slice())
            && texts_fit(self.roots.as_slice()) && texts_fit(self.parents.as_slice()) && texts_fit(
            self.paths.as_slice(),
        ) && texts_fit(self.names.as_slice()) && optional_texts_fit(self.content_types.as_slice())
            && (!schema_has(&self.schema, BLOB_COL) || blobs_fit(self.blobs.as_slice()))
    }

    proof fn lemma_empty_columns_fit(&self)
        requires
            self.wf(),
        ensures
            has_column(self.fields(), URI_COL@) || texts(self.uris@).fits(),
            has_column(self.fields(), NAMESPACE_COL@) || optional_texts(self.namespaces@).fits(),
            has_column(self.fields(), ROOT_COL@) || texts(self.roots@).fits(),
            has_column(self.fields(), PARENT_COL@) || texts(self.parents@).fits(),
            has_column(self.fields(), PATH_COL@) || texts(self.paths@).fits(),
            has_column(self.fields(), NAME_COL@) || texts(self.names@).fits(),
            has_column(self.fields(), CONTENT_TYPE_COL@) || optional_texts(
                self.content_types@,
            ).fits(),
    {
    }

    /// Makes a batch of the waiting rows and forgets them. Rows that make no batch stay.
    pub fn take(&mut self) -> (result: Result<Batch, ArrowError>)
        requires
            old(self).wf(),
            columns_fit(old(self).fields(), table_of(old(self).constants(), old(self)@)),
        ensures
            final(self).wf(),
            final(self).fields() == old(self).fields(),
            final(self).constants() == old(self).constants(),
            result is Ok <==> assembles(old(self).fields(), old(self).columns()),
            result is Ok ==> batch_columns(result->Ok_0) == old(self).columns() && batch_fields(
                result->Ok_0,
            ) == old(self).fields(),
            final(self)@ == if result is Ok {
                Seq::<StoredRow>::empty()
            } else {
                old(self)@
            },
    {
        proof {
            self.lemma_data();
        }
        let result = build_batch(
            &self.schema,
            self.uris.as_slice(),
            self.namespaces.as_slice(),
            self.roots.as_slice(),
            self.recursives.as_slice(),
            self.parents.as_slice(),
            self.paths.as_slice(),
            self.names.as_slice(),
            self.blobs.as_slice(),
            self.is_files.as_slice(),
            self.sizes.as_slice(),
            self.content_types.as_slice(),
            self.last_modified.as_slice(),
        );
        if result.is_ok() {
            self.clear();
        }
        result
    }

    /// Forgets the waiting rows.
    fn clear(&mut self)
        ensures
            final(self).wf(),
            final(self)@ == Seq::<StoredRow>::empty(),
            final(self).fields() == old(self).fields(),
            final(self).constants() == old(self).constants(),
    {
        self.uris.clear();
        self.namespaces.clear();
        self.roots.clear();
        self.recursives.clear();
        self.parents.clear();
        self.paths.clear();
        self.names.clear();
        self.blobs.clear();
        self.is_files.clear();
        self.sizes.clear();
        self.content_types.clear();
        self.last_modified.clear();
        self.accumulated_size = 0;
        self.row_count = 0;
        self.rows = Ghost(Seq::empty());
        proof {
            self.lemma_empty();
        }
    }
}

proof fn lemma_table_fits(fields: Seq<FieldView>, table: Seq<ColumnView>)
    requires
        table.len() == 12,
    ensures
        columns_fit(fields, table) <==> {
            &&& has_column(fields, URI_COL@) ==> table[0].fits()
            &&& has_column(fields, NAMESPACE_COL@) ==> table[1].fits()
            &&& has_column(fields, ROOT_COL@) ==> table[2].fits()
            &&& has_column(fields, RECURSIVE_COL@) ==> table[3].fits()
            &&& has_column(fields, PARENT_COL@) ==> table[4].fits()
            &&& has_column(fields, PATH_COL@) ==> table[5].fits()
            &&& has_column(fields, NAME_COL@) ==> table[6].fits()
            &&& has_column(fields, BLOB_COL@) ==> table[7].fits()
            &&& has_column(fields, IS_FILE_COL@) ==> table[8].fits()
            &&& has_column(fields, SIZE_COL@) ==> table[9].fits()
            &&& has_column(fields, CONTENT_TYPE_COL@) ==> table[10].fits()
            &&& has_column(fields, LAST_MODIFIED_COL@) ==> table[11].fits()
        },
{
    lemma_chosen_fit(fields, table, 12);
    let names = table_columns();
    assert(names[0] == URI_COL@ && names[1] == NAMESPACE_COL@ && names[2] == ROOT_COL@ && names[3]
        == RECURSIVE_COL@ && names[4] == PARENT_COL@ && names[5] == PATH_COL@ && names[6]
        == NAME_COL@ && names[7] == BLOB_COL@ && names[8] == IS_FILE_COL@ && names[9] == SIZE_COL@
        && names[10] == CONTENT_TYPE_COL@ && names[11] == LAST_MODIFIED_COL@);
}

proof fn lemma_table_push(constants: ConstantsView, rows: Seq<StoredRow>, stored: StoredRow)
    ensures
        uri_column(constants, rows.push(stored)) == ColumnView::Utf8(
            uri_column(constants, rows)->Utf8_0.push(Some(constants.uri)),
        ),
        namespace_column(constants, rows.push(stored)) == ColumnView::Utf8(
            namespace_column(constants, rows)->Utf8_0.push(constants.namespace),
        ),
        root_column(constants, rows.push(stored)) == ColumnView::Utf8(
            root_column(constants, rows)->Utf8_0.push(Some(constants.root)),
        ),
        recursive_column(constants, rows.push(stored)) == ColumnView::Boolean(
            recursive_column(constants, rows)->Boolean_0.push(Some(constants.recursive)),
        ),
        parent_column(rows.push(stored)) == ColumnView::Utf8(
            parent_column(rows)->Utf8_0.push(Some(stored.row.parent)),
        ),
        path_column(rows.push(stored)) == ColumnView::Utf8(
            path_column(rows)->Utf8_0.push(Some(stored.row.path)),
        ),
        name_column(rows.push(stored)) == ColumnView::Utf8(
            name_column(rows)->Utf8_0.push(Some(stored.row.name)),
        ),
        blob_column(rows.push(stored)) == ColumnView::LargeBinary(
            blob_column(rows)->LargeBinary_0.push(stored.blob),
        ),
        is_file_column(rows.push(stored)) == ColumnView::Boolean(
            is_file_column(rows)->Boolean_0.push(Some(stored.row.is_file)),
        ),
        size_column(rows.push(stored)) == ColumnView::UInt64(
            size_column(rows)->UInt64_0.push(Some(stored.row.size)),
        ),
        content_type_column(rows.push(stored)) == ColumnView::Utf8(
            content_type_column(rows)->Utf8_0.push(stored.row.content_type),
        ),
        last_modified_column(rows.push(stored)) == ColumnView::TimestampNanosecond(
            last_modified_column(rows)->TimestampNanosecond_0.push(stored.row.last_modified),
        ),
{
}

/// Adds a value to a column that is asked for.
fn add_text(wanted: bool, value: String, column: &mut Vec<String>)
    ensures
        texts(final(column)@) == if wanted {
            ColumnView::Utf8(texts(old(column)@)->Utf8_0.push(Some(value@)))
        } else {
            texts(old(column)@)
        },
{
    if wanted {
        let ghost before = texts(column@)->Utf8_0;
        let ghost added = Some(value@);
        column.push(value);
        assert(texts(column@)->Utf8_0 =~= before.push(added));
    }
}

/// Adds a value to a column that is asked for.
fn add_optional_text(wanted: bool, value: Option<String>, column: &mut Vec<Option<String>>)
    ensures
        optional_texts(final(column)@) == if wanted {
            ColumnView::Utf8(optional_texts(old(column)@)->Utf8_0.push(text_view(value)))
        } else {
            optional_texts(old(column)@)
        },
{
    if wanted {
        let ghost before = optional_texts(column@)->Utf8_0;
        let ghost added = text_view(value);
        column.push(value);
        assert(optional_texts(column@)->Utf8_0 =~= before.push(added));
    }
}

/// Adds a value to a column that is asked for.
fn add_flag(wanted: bool, value: bool, column: &mut Vec<bool>)
    ensures
        flags(final(column)@) == if wanted {
            ColumnView::Boolean(flags(old(column)@)->Boolean_0.push(Some(value)))
        } else {
            flags(old(column)@)
        },
{
    if wanted {
        let ghost before = flags(column@)->Boolean_0;
        let ghost added = Some(value);
        column.push(value);
        assert(flags(column@)->Boolean_0 =~= before.push(added));
    }
}

/// Adds a value to a column that is asked for.
fn add_number(wanted: bool, value: u64, column: &mut Vec<u64>)
    ensures
        numbers(final(column)@) == if wanted {
            ColumnView::UInt64(numbers(old(column)@)->UInt64_0.push(Some(value)))
        } else {
            numbers(old(column)@)
        },
{
    if wanted {
        let ghost before = numbers(column@)->UInt64_0;
        let ghost added = Some(value);
        column.push(value);
        assert(numbers(column@)->UInt64_0 =~= before.push(added));
    }
}

/// Adds a value to a column that is asked for.
fn add_time(wanted: bool, value: Option<i64>, column: &mut Vec<Option<i64>>)
    ensures
        times(final(column)@) == if wanted {
            ColumnView::TimestampNanosecond(times(old(column)@)->TimestampNanosecond_0.push(value))
        } else {
            times(old(column)@)
        },
{
    if wanted {
        let ghost before = times(column@)->TimestampNanosecond_0;
        let ghost added = value;
        column.push(value);
        assert(times(column@)->TimestampNanosecond_0 =~= before.push(added));
    }
}

} // verus!
