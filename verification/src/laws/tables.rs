use vstd::prelude::*;
use vstd::utf8::encode_utf8;

use super::batches::{
    in_table_order, lemma_projection_assembles, lemma_table_column, positions,
};
use super::pushdown::{compared, flagged};
use crate::batch::{
    blob_bytes, blobs_view, chosen, chosen_columns, flags, numbers, optional_texts, table_data,
    text_bytes, texts, times, ColumnView,
};
use crate::columns::{boolean_column, ordered_column, table_columns};
use crate::rows::{table_of, ConstantsView, StoredRow};
use crate::scan::ScanView;
use crate::schema::{
    collected, has_column, projectable, projected, table_fields, ColumnType, FieldView,
};

verus! {

/// The columns of the table, by name and in order.
pub proof fn lemma_columns_of_the_table(name: Seq<char>)
    ensures
        table_columns() == seq![
            "uri"@,
            "namespace"@,
            "root"@,
            "recursive"@,
            "parent"@,
            "path"@,
            "name"@,
            "blob"@,
            "is_file"@,
            "size"@,
            "content_type"@,
            "last_modified"@,
        ],
        ordered_column(name) <==> compared(name),
        boolean_column(name) <==> flagged(name),
{
}

/// The table shows every row in each column, in order: what all rows share, what the row
/// says of its entry, and the content that was read.
pub proof fn lemma_table_shows_rows(constants: ConstantsView, rows: Seq<StoredRow>, i: int)
    requires
        0 <= i < rows.len(),
    ensures
        ({
            let table = table_of(constants, rows);
            let row = rows[i].row;
            &&& table.len() == 12
            &&& forall|k: int| 0 <= k < 12 ==> (#[trigger] table[k]).len() == rows.len()
            &&& table[0] is Utf8 && table[0]->Utf8_0[i] == Some(constants.uri)
            &&& table[1] is Utf8 && table[1]->Utf8_0[i] == constants.namespace
            &&& table[2] is Utf8 && table[2]->Utf8_0[i] == Some(constants.root)
            &&& table[3] is Boolean && table[3]->Boolean_0[i] == Some(constants.recursive)
            &&& table[4] is Utf8 && table[4]->Utf8_0[i] == Some(row.parent)
            &&& table[5] is Utf8 && table[5]->Utf8_0[i] == Some(row.path)
            &&& table[6] is Utf8 && table[6]->Utf8_0[i] == Some(row.name)
            &&& table[7] is LargeBinary && table[7]->LargeBinary_0[i] == rows[i].blob
            &&& table[8] is Boolean && table[8]->Boolean_0[i] == Some(row.is_file)
            &&& table[9] is UInt64 && table[9]->UInt64_0[i] == Some(row.size)
            &&& table[10] is Utf8 && table[10]->Utf8_0[i] == row.content_type
            &&& table[11] is TimestampNanosecond && table[11]->TimestampNanosecond_0[i]
                == row.last_modified
        }),
{
    let table = table_of(constants, rows);
    assert forall|k: int| 0 <= k < 12 implies (#[trigger] table[k]).len() == rows.len() by {
        lemma_table_column(constants, rows, k);
    }
}

/// The batch that a scan of a projection in table order sends shows, at each position, the
/// column of the table that the projection asks for there.
pub proof fn lemma_scan_shows_its_projection(scan: ScanView, projection: Option<Seq<usize>>, i: int)
    requires
        projectable(table_fields(), projection),
        in_table_order(positions(projection)),
        scan.fields == collected(projected(table_fields(), projection)),
        0 <= i < positions(projection).len(),
    ensures
        scan.columns().len() == positions(projection).len(),
        scan.columns()[i] == table_of(scan.constants, scan.rows)[positions(projection)[i]],
{
    lemma_projection_assembles(projection, scan.constants, scan.rows);
    assert(scan.columns() == chosen_columns(
        scan.fields,
        table_of(scan.constants, scan.rows),
    ));
}

/// A batch of a scan, whatever its schema, holds the columns that are chosen from the table
/// of the rows that wait, and fits where each of these does.
pub proof fn lemma_scan_shows_its_rows(scan: ScanView)
    ensures
        scan.columns() == chosen_columns(scan.fields, table_of(scan.constants, scan.rows)),
        scan.fits() <==> forall|i: int|
            0 <= i < scan.columns().len() ==> (#[trigger] scan.columns()[i]).fits(),
{
    let columns = chosen_columns(scan.fields, table_of(scan.constants, scan.rows));
    if scan.fits() {
        assert forall|i: int| 0 <= i < columns.len() implies (#[trigger] columns[i]).fits() by {}
    }
}

/// The slices that a batch is made of are the columns of the table, each in its place.
pub proof fn lemma_slices_are_columns(
    uris: Seq<String>,
    namespaces: Seq<Option<String>>,
    roots: Seq<String>,
    recursives: Seq<bool>,
    parents: Seq<String>,
    paths: Seq<String>,
    names: Seq<String>,
    blobs: Seq<Option<Vec<u8>>>,
    is_files: Seq<bool>,
    sizes: Seq<u64>,
    content_types: Seq<Option<String>>,
    last_modified: Seq<Option<i64>>,
)
    ensures
        ({
            let table = table_data(
                uris,
                namespaces,
                roots,
                recursives,
                parents,
                paths,
                names,
                blobs,
                is_files,
                sizes,
                content_types,
                last_modified,
            );
            &&& table.len() == 12
            &&& table[0] == texts(uris)
            &&& table[1] == optional_texts(namespaces)
            &&& table[2] == texts(roots)
            &&& table[3] == flags(recursives)
            &&& table[4] == texts(parents)
            &&& table[5] == texts(paths)
            &&& table[6] == texts(names)
            &&& table[7] == blobs_view(blobs)
            &&& table[8] == flags(is_files)
            &&& table[9] == numbers(sizes)
            &&& table[10] == optional_texts(content_types)
            &&& table[11] == times(last_modified)
        }),
{
}

/// Whether positions are those, in order, of the first `n` columns that a schema asks for.
pub open spec fn asked_for(fields: Seq<FieldView>, positions: Seq<int>, n: int) -> bool {
    &&& forall|i: int|
        0 <= i < positions.len() ==> 0 <= #[trigger] positions[i] < n && has_column(
            fields,
            table_columns()[positions[i]],
        )
    &&& forall|i: int, j: int|
        0 <= i < j < positions.len() ==> #[trigger] positions[i] < #[trigger] positions[j]
    &&& forall|k: int|
        0 <= k < n && has_column(fields, #[trigger] table_columns()[k]) ==> positions.contains(k)
}

/// Whatever the schema, the columns that it asks for are taken from the table in the order
/// of the table: each once, and no other.
pub proof fn lemma_asked_columns_are_chosen(
    fields: Seq<FieldView>,
    table: Seq<ColumnView>,
    n: nat,
) -> (positions: Seq<int>)
    requires
        n <= 12,
    ensures
        asked_for(fields, positions, n as int),
        chosen(fields, table, n).len() == positions.len(),
        forall|i: int|
            0 <= i < positions.len() ==> #[trigger] chosen(fields, table, n)[i]
                == table[positions[i]],
    decreases n,
{
    if n == 0 {
        Seq::empty()
    } else {
        let before = lemma_asked_columns_are_chosen(fields, table, (n - 1) as nat);
        if has_column(fields, table_columns()[n - 1]) {
            let positions = before.push(n - 1);
            assert forall|k: int| 0 <= k < n && has_column(
                fields,
                #[trigger] table_columns()[k],
            ) implies positions.contains(k) by {
                if k < n - 1 {
                    let i = choose|i: int| 0 <= i < before.len() && before[i] == k;
                    assert(positions[i] == k);
                } else {
                    assert(positions[before.len() as int] == k);
                }
            }
            positions
        } else {
            before
        }
    }
}

/// The bytes of texts and of blobs add up, and columns fit up to the largest offset that
/// their arrays can hold.
pub proof fn lemma_bytes_add_up(
    strings: Seq<Option<Seq<char>>>,
    text: Seq<char>,
    blobs: Seq<Option<Seq<u8>>>,
    blob: Seq<u8>,
)
    ensures
        text_bytes(Seq::empty()) == 0,
        text_bytes(strings.push(Some(text))) == text_bytes(strings) + encode_utf8(text).len(),
        text_bytes(strings.push(None)) == text_bytes(strings),
        blob_bytes(Seq::empty()) == 0,
        blob_bytes(blobs.push(Some(blob))) == blob_bytes(blobs) + blob.len(),
        blob_bytes(blobs.push(None)) == blob_bytes(blobs),
        ColumnView::Utf8(strings).fits() <==> text_bytes(strings) <= 0x7fff_ffff,
        ColumnView::LargeBinary(blobs).fits() <==> blob_bytes(blobs) <= 0x7fff_ffff_ffff_ffff,
        forall|column: ColumnView|
            !(column is Utf8) && !(column is LargeBinary) ==> #[trigger] column.fits(),
{
    assert(strings.push(Some(text)).drop_last() =~= strings);
    assert(strings.push(None).drop_last() =~= strings);
    assert(blobs.push(Some(blob)).drop_last() =~= blobs);
    assert(blobs.push(None).drop_last() =~= blobs);
}

/// A projection selects the fields at its positions, and all fields without one. It can be
/// made exactly where every position is that of a field.
pub proof fn lemma_projection_selects(fields: Seq<FieldView>, indices: Seq<usize>)
    ensures
        projected(fields, None) == fields,
        projectable(fields, None),
        projected(fields, Some(indices)).len() == indices.len(),
        forall|i: int|
            0 <= i < indices.len() ==> #[trigger] projected(fields, Some(indices))[i]
                == fields[indices[i] as int],
        projectable(fields, Some(indices)) <==> forall|i: int|
            0 <= i < indices.len() ==> #[trigger] indices[i] < fields.len(),
        collected(fields) == if fields.len() == 0 {
            seq![FieldView { name: "path"@, data_type: ColumnType::Utf8, nullable: false }]
        } else {
            fields
        },
{
}

} // verus!
