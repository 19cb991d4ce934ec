use vstd::prelude::*;

use super::filters::{lemma_column_values, lemma_rows_are_filtered, row_column, satisfies};
use super::scans::{lemma_query_is_answered, lemma_scan_is_complete};
use crate::columns::{
    lemma_names_differ, table_columns, BLOB_COL, CONTENT_TYPE_COL, IS_FILE_COL, LAST_MODIFIED_COL,
    NAME_COL, PATH_COL, SIZE_COL,
};
use crate::conditions::{evaluate, pushed_filters};
use crate::error::ErrorView;
use crate::expr::{Expr, FilterView};
use crate::plan::{scan_plan, PlanView, StoreView};
use crate::rows::{total_size, RowView, StoredRow};
use crate::scan::{row_of, row_verdict, EntryMode, Found, ScanView};
use crate::schema::{has_column, ColumnType, FieldView};
use crate::source::beginning;
use crate::text::path_parent;
use crate::value::ScalarView;

verus! {

/// Whether an entry satisfies a filter on its path, name, kind, size, content type or time
/// of modification. Filters on other columns say nothing of an entry.
pub open spec fn meets(found: Found, filter: FilterView) -> bool {
    let (column, op, literal) = filter;
    let yes = Ok::<bool, ErrorView>(true);
    &&& column == "path"@ ==> evaluate(ScalarView::Utf8(Some(found.entry.path)), op, literal) == yes
    &&& column == "name"@ ==> evaluate(ScalarView::Utf8(Some(found.entry.name)), op, literal) == yes
    &&& column == "is_file"@ ==> evaluate(
        ScalarView::Boolean(Some(found.entry.mode == EntryMode::File)),
        op,
        literal,
    ) == yes
    &&& column == "size"@ ==> evaluate(
        ScalarView::UInt64(Some(found.metadata.content_length)),
        op,
        literal,
    ) == yes
    &&& column == "content_type"@ ==> evaluate(
        ScalarView::Utf8(found.metadata.content_type),
        op,
        literal,
    ) == yes
    &&& column == "last_modified"@ ==> evaluate(
        ScalarView::TimestampNanosecond(found.metadata.last_modified, None),
        op,
        literal,
    ) == yes
}

/// Whether an entry belongs to the answer: its kind is known, and it meets every filter.
pub open spec fn belongs(found: Found, filters: Seq<FilterView>) -> bool {
    &&& found.entry.mode != EntryMode::Unknown
    &&& forall|i: int| 0 <= i < filters.len() ==> meets(found, #[trigger] filters[i])
}

/// The row of an entry: what the listing and the store say of it, its parent with one slash
/// in front, and its content if that is wanted and the entry is a file.
pub open spec fn row_for(found: Found, contents: bool) -> StoredRow {
    StoredRow {
        row: RowView {
            parent: match path_parent(found.entry.path) {
                Some(holder) => if holder == "/"@ {
                    "/"@
                } else {
                    "/"@ + holder
                },
                None => "/"@,
            },
            path: found.entry.path,
            name: found.entry.name,
            is_file: found.entry.mode == EntryMode::File,
            size: found.metadata.content_length,
            content_type: found.metadata.content_type,
            last_modified: found.metadata.last_modified,
        },
        blob: if contents && found.entry.mode == EntryMode::File {
            Some(found.content)
        } else {
            None
        },
    }
}

/// The rows of the entries that belong to the answer, in the order of the listing.
pub open spec fn answer(
    filters: Seq<FilterView>,
    contents: bool,
    listing: Seq<Found>,
) -> Seq<StoredRow>
    decreases listing.len(),
{
    if listing.len() == 0 {
        Seq::empty()
    } else if belongs(listing.last(), filters) {
        answer(filters, contents, listing.drop_last()).push(row_for(listing.last(), contents))
    } else {
        answer(filters, contents, listing.drop_last())
    }
}

proof fn lemma_meets(found: Found, filter: FilterView, scan: ScanView)
    ensures
        meets(found, filter) <==> (row_column(filter.0) ==> satisfies(
            scan.constants,
            row_of(found.entry, found.metadata),
            filter,
        )),
{
    let row = row_of(found.entry, found.metadata);
    lemma_column_values(scan.constants, row);
    assert("path"@ == PATH_COL@ && "name"@ == NAME_COL@ && "is_file"@ == IS_FILE_COL@ && "size"@
        == SIZE_COL@ && "content_type"@ == CONTENT_TYPE_COL@ && "last_modified"@
        == LAST_MODIFIED_COL@);
    lemma_names_differ();
    let names = table_columns();
    assert(names[5] == PATH_COL@ && names[6] == NAME_COL@ && names[8] == IS_FILE_COL@ && names[9]
        == SIZE_COL@ && names[10] == CONTENT_TYPE_COL@ && names[11] == LAST_MODIFIED_COL@);
}

proof fn lemma_belongs(exprs: Seq<Expr>, scan: ScanView, found: Found)
    requires
        scan.filters == pushed_filters(exprs),
    ensures
        scan.keeps(found) <==> belongs(found, scan.filters),
        scan.stored(found) == row_for(found, has_column(scan.fields, "blob"@)),
{
    let row = row_of(found.entry, found.metadata);
    let filters = pushed_filters(exprs);
    lemma_rows_are_filtered(exprs, scan.constants, row);
    assert forall|i: int| 0 <= i < filters.len() implies (meets(found, #[trigger] filters[i]) <==> (
    row_column(filters[i].0) ==> satisfies(scan.constants, row, filters[i]))) by {
        lemma_meets(found, filters[i], scan);
    }
    if scan.keeps(found) {
        assert forall|i: int| 0 <= i < filters.len() implies meets(
            found,
            #[trigger] filters[i],
        ) by {}
    }
    if belongs(found, filters) {
        assert forall|i: int| 0 <= i < filters.len() && row_column(
            (#[trigger] filters[i]).0,
        ) implies satisfies(scan.constants, row, filters[i]) by {
            assert(meets(found, filters[i]));
        }
    }
}

proof fn lemma_shown(exprs: Seq<Expr>, scan: ScanView, listing: Seq<Found>)
    requires
        scan.filters == pushed_filters(exprs),
    ensures
        scan.shown(listing) == answer(scan.filters, has_column(scan.fields, "blob"@), listing),
    decreases listing.len(),
{
    if listing.len() > 0 {
        lemma_shown(exprs, scan, listing.drop_last());
        lemma_belongs(exprs, scan, listing.last());
    }
}

/// A scan of pushed filters answers a query: its batches hold, row by row and in the order
/// of the listing, the entries of known kind that meet every filter, with the contents of
/// the files where the schema has the `blob` column and without them else.
pub proof fn lemma_scan_answers(exprs: Seq<Expr>, scan: ScanView, listing: Seq<Found>)
    requires
        scan.filters == pushed_filters(exprs),
        scan.phase is Listing,
        scan.rows.len() == 0,
    ensures
        scan.run(listing).0.phase is Finished,
        scan.run(listing).1.flatten_alt() == answer(
            pushed_filters(exprs),
            has_column(scan.fields, "blob"@),
            listing,
        ),
{
    lemma_query_is_answered(exprs, scan, listing);
    lemma_shown(exprs, scan, listing);
}

/// A query on a store is answered, from its expressions to its rows: where a scan begins,
/// the rows of its batches are those of the listed entries that meet every filter pushed
/// down for the expressions. Every row shows the store that was asked and whether its
/// directories were searched.
pub proof fn lemma_query_on_store(
    exprs: Seq<Expr>,
    fields: Seq<FieldView>,
    store: StoreView,
    limit: Option<usize>,
    listing: Seq<Found>,
)
    ensures
        match beginning(exprs, fields, store, limit) {
            Ok(Some((plan, scan))) => {
                &&& scan_plan(pushed_filters(exprs), store, limit) == Ok::<PlanView, ErrorView>(
                    plan,
                )
                &&& plan is List
                &&& scan.filters == pushed_filters(exprs)
                &&& scan.phase is Listing
                &&& scan.rows.len() == 0
                &&& scan.fields == if fields.len() == 0 {
                    seq![FieldView { name: "path"@, data_type: ColumnType::Utf8, nullable: false }]
                } else {
                    fields
                }
                &&& scan.constants.uri == store.scheme + "://"@
                &&& scan.constants.root == store.root
                &&& store.name.len() == 0 ==> scan.constants.namespace is None
                &&& store.name.len() > 0 ==> scan.constants.namespace == Some(store.name)
                &&& scan.constants.recursive <==> plan->recursive == Some(true)
                &&& scan.run(listing).0.phase is Finished
                &&& scan.run(listing).1.flatten_alt() == answer(
                    pushed_filters(exprs),
                    has_column(fields, "blob"@),
                    listing,
                )
            },
            Ok(None) => scan_plan(pushed_filters(exprs), store, limit) == Ok::<
                PlanView,
                ErrorView,
            >(PlanView::Skip),
            Err(error) => scan_plan(pushed_filters(exprs), store, limit) == Err::<
                PlanView,
                ErrorView,
            >(error),
        },
{
    match beginning(exprs, fields, store, limit) {
        Ok(Some((plan, scan))) => {
            lemma_scan_answers(exprs, scan, listing);
            if fields.len() == 0 {
                lemma_names_differ();
                let names = table_columns();
                assert(names[5] == PATH_COL@ && names[7] == BLOB_COL@);
                assert(scan.fields.len() == 1 && scan.fields[0].name == PATH_COL@);
            }
        },
        _ => {},
    }
}

/// The sizes of rows add up.
pub proof fn lemma_sizes_add_up(rows: Seq<StoredRow>, row: StoredRow)
    ensures
        total_size(Seq::<StoredRow>::empty()) == 0,
        total_size(rows.push(row)) == total_size(rows) + row.row.size,
{
    assert(rows.push(row).drop_last() =~= rows);
}

/// Batches are cut in time: none has more than a thousand rows, and all but the last have a
/// thousand, or ten megabytes where contents are asked for. Before its last row no batch had
/// either.
pub proof fn lemma_batches_are_cut(exprs: Seq<Expr>, scan: ScanView, listing: Seq<Found>)
    requires
        scan.filters == pushed_filters(exprs),
        scan.phase is Listing,
        scan.rows.len() == 0,
    ensures
        ({
            let sent = scan.run(listing).1;
            let contents = has_column(scan.fields, "blob"@);
            forall|i: int|
                0 <= i < sent.len() ==> {
                    let batch = #[trigger] sent[i];
                    &&& 0 < batch.len() <= 1000
                    &&& contents ==> total_size(batch.drop_last()) < 10 * 1024 * 1024
                    &&& i < sent.len() - 1 ==> batch.len() == 1000 || (contents && total_size(batch)
                        >= 10 * 1024 * 1024)
                }
        }),
{
    assert forall|i: int| 0 <= i < listing.len() implies row_verdict(
        scan.filters,
        row_of((#[trigger] listing[i]).entry, listing[i].metadata),
    ) is Ok by {
        lemma_rows_are_filtered(
            exprs,
            scan.constants,
            row_of(listing[i].entry, listing[i].metadata),
        );
    }
    lemma_scan_is_complete(scan, listing);
    let sent = scan.run(listing).1;
    assert forall|i: int| 0 <= i < sent.len() implies {
        let batch = #[trigger] sent[i];
        &&& has_column(scan.fields, "blob"@) ==> total_size(batch.drop_last()) < 10 * 1024 * 1024
        &&& i < sent.len() - 1 ==> batch.len() == 1000 || (has_column(scan.fields, "blob"@)
            && total_size(batch) >= 10 * 1024 * 1024)
    } by {
        let batch = sent[i];
        assert(!scan.full(batch.drop_last()));
    }
}

} // verus!
