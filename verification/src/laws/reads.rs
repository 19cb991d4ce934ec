use vstd::prelude::*;

use super::scans::lemma_scan_is_complete;
use super::writes::{lemma_files_are_written, stored, write_out, Files};
use crate::columns::{
    lemma_names_differ, table_columns, BLOB_COL, CONTENT_TYPE_COL, IS_FILE_COL, LAST_MODIFIED_COL,
    NAMESPACE_COL, NAME_COL, PARENT_COL, PATH_COL, RECURSIVE_COL, ROOT_COL, SIZE_COL, URI_COL,
};
use crate::conditions::{all_hold, conditions_on, pushed_filters, ConditionView};
use crate::error::ErrorView;
use crate::expr::{simple_filter, Expr, FilterView};
use crate::plan::{chosen_flag, chosen_text, Choice, PlanView, StoreView};
use crate::rows::{RowView, StoredRow};
use crate::scan::{row_of, row_verdict, EntryMode, Found, ScanView};
use crate::schema::{has_column, FieldView};
use crate::sink::{FileView, RunPhase, RunView};
use crate::source::beginning;
use crate::text::directory;
use crate::value::{OperatorView, ScalarView};

verus! {

/// The filter that asks for one path.
pub open spec fn at_path(path: Seq<char>) -> FilterView {
    (PATH_COL@, OperatorView::Eq, ScalarView::Utf8(Some(path)))
}

proof fn lemma_single_filter(filter: FilterView, column: Seq<char>)
    ensures
        conditions_on(seq![filter], column) == if filter.0 == column {
            seq![(filter.1, filter.2)]
        } else {
            Seq::<ConditionView>::empty()
        },
{
    let filters = seq![filter];
    assert(filters.drop_last() =~= Seq::empty());
    assert(conditions_on(filters.drop_last(), column) =~= Seq::<ConditionView>::empty());
    assert(filters.last() == filter);
    assert(Seq::<ConditionView>::empty().push((filter.1, filter.2)) =~= seq![
        (filter.1, filter.2),
    ]);
}

/// The filter that asks for one path puts a condition on `path` and on no other column.
proof fn lemma_path_conditions(path: Seq<char>)
    ensures
        ({
            let filters = seq![at_path(path)];
            let none = Seq::<ConditionView>::empty();
            &&& conditions_on(filters, PATH_COL@) == seq![
                (OperatorView::Eq, ScalarView::Utf8(Some(path))),
            ]
            &&& conditions_on(filters, URI_COL@) == none
            &&& conditions_on(filters, NAMESPACE_COL@) == none
            &&& conditions_on(filters, ROOT_COL@) == none
            &&& conditions_on(filters, RECURSIVE_COL@) == none
            &&& conditions_on(filters, PARENT_COL@) == none
            &&& conditions_on(filters, NAME_COL@) == none
            &&& conditions_on(filters, IS_FILE_COL@) == none
            &&& conditions_on(filters, SIZE_COL@) == none
            &&& conditions_on(filters, CONTENT_TYPE_COL@) == none
            &&& conditions_on(filters, LAST_MODIFIED_COL@) == none
        }),
{
    lemma_names_differ();
    let names = table_columns();
    assert(names[0] == URI_COL@ && names[1] == NAMESPACE_COL@ && names[2] == ROOT_COL@ && names[3]
        == RECURSIVE_COL@ && names[4] == PARENT_COL@ && names[5] == PATH_COL@ && names[6]
        == NAME_COL@ && names[8] == IS_FILE_COL@ && names[9] == SIZE_COL@ && names[10]
        == CONTENT_TYPE_COL@ && names[11] == LAST_MODIFIED_COL@);
    let filter = at_path(path);
    lemma_single_filter(filter, PATH_COL@);
    lemma_single_filter(filter, URI_COL@);
    lemma_single_filter(filter, NAMESPACE_COL@);
    lemma_single_filter(filter, ROOT_COL@);
    lemma_single_filter(filter, RECURSIVE_COL@);
    lemma_single_filter(filter, PARENT_COL@);
    lemma_single_filter(filter, NAME_COL@);
    lemma_single_filter(filter, IS_FILE_COL@);
    lemma_single_filter(filter, SIZE_COL@);
    lemma_single_filter(filter, CONTENT_TYPE_COL@);
    lemma_single_filter(filter, LAST_MODIFIED_COL@);
}

proof fn lemma_path_verdict(path: Seq<char>, row: RowView)
    ensures
        row_verdict(seq![at_path(path)], row) == Ok::<bool, ErrorView>(row.path == path),
{
    lemma_path_conditions(path);
    let conditions = seq![(OperatorView::Eq, ScalarView::Utf8(Some(path)))];
    assert(conditions.drop_first() =~= Seq::<ConditionView>::empty());
    assert(all_hold(ScalarView::Utf8(Some(row.path)), conditions.drop_first()) == Ok::<
        bool,
        ErrorView,
    >(true));
    assert(all_hold(ScalarView::Utf8(Some(row.path)), conditions) == Ok::<bool, ErrorView>(
        row.path == path,
    ));
}

proof fn lemma_one_is_shown(scan: ScanView, listing: Seq<Found>, k: int)
    requires
        0 <= k < listing.len(),
        forall|i: int| 0 <= i < listing.len() ==> (scan.keeps(#[trigger] listing[i]) <==> i == k),
    ensures
        scan.shown(listing) == seq![scan.stored(listing[k])],
    decreases listing.len(),
{
    let before = listing.drop_last();
    assert forall|i: int| 0 <= i < before.len() implies (scan.keeps(#[trigger] before[i]) <==> i
        == k) by {
        assert(before[i] == listing[i]);
    }
    if k == listing.len() - 1 {
        lemma_none_is_shown(scan, before);
        assert(scan.keeps(listing[k]));
        assert(scan.shown(listing) =~= seq![scan.stored(listing[k])]);
    } else {
        lemma_one_is_shown(scan, before, k);
        assert(!scan.keeps(listing[listing.len() - 1]));
    }
}

proof fn lemma_none_is_shown(scan: ScanView, listing: Seq<Found>)
    requires
        forall|i: int| 0 <= i < listing.len() ==> !scan.keeps(#[trigger] listing[i]),
    ensures
        scan.shown(listing) == Seq::<StoredRow>::empty(),
    decreases listing.len(),
{
    if listing.len() > 0 {
        let before = listing.drop_last();
        assert forall|i: int| 0 <= i < before.len() implies !scan.keeps(#[trigger] before[i]) by {
            assert(before[i] == listing[i]);
        }
        lemma_none_is_shown(scan, before);
        assert(!scan.keeps(listing[listing.len() - 1]));
    }
}

/// Batches that are not empty and hold one row together are one batch.
proof fn lemma_one_batch(batches: Seq<Seq<StoredRow>>, row: StoredRow)
    requires
        batches.flatten_alt() == seq![row],
        forall|i: int| 0 <= i < batches.len() ==> (#[trigger] batches[i]).len() > 0,
    ensures
        batches == seq![seq![row]],
{
    assert(seq![row].len() == 1);
    assert(batches.len() > 0) by {
        if batches.len() == 0 {
            assert(batches.flatten_alt().len() == 0);
        }
    }
    let before = batches.drop_last();
    assert(batches[batches.len() - 1].len() > 0);
    assert(batches.flatten_alt() == before.flatten_alt() + batches.last());
    assert((before.flatten_alt() + batches.last()).len() == 1);
    if before.len() > 0 {
        assert(batches[batches.len() - 2].len() > 0);
        assert(before.last().len() > 0);
        assert(before.flatten_alt() == before.drop_last().flatten_alt() + before.last());
        assert(false);
    }
    assert(before.flatten_alt() =~= Seq::<StoredRow>::empty());
    assert(batches.flatten_alt() =~= batches.last());
    assert(batches =~= seq![batches.last()]);
}

/// A scan that asks for one path and for contents sends one batch with one row for the file
/// at that path: its path, and all of its content. Nothing else in the listing is sent.
pub proof fn lemma_file_is_read(scan: ScanView, listing: Seq<Found>, k: int)
    requires
        0 <= k < listing.len(),
        listing[k].entry.mode == EntryMode::File,
        scan.filters == seq![at_path(listing[k].entry.path)],
        scan.phase is Listing,
        scan.rows.len() == 0,
        has_column(scan.fields, BLOB_COL@),
        forall|i: int|
            0 <= i < listing.len() && i != k ==> (#[trigger] listing[i]).entry.path
                != listing[k].entry.path,
    ensures
        scan.run(listing).0.phase is Finished,
        scan.run(listing).1 == seq![
            seq![
                StoredRow {
                    row: row_of(listing[k].entry, listing[k].metadata),
                    blob: Some(listing[k].content),
                },
            ],
        ],
{
    let path = listing[k].entry.path;
    assert forall|i: int| 0 <= i < listing.len() implies row_verdict(
        scan.filters,
        row_of((#[trigger] listing[i]).entry, listing[i].metadata),
    ) == Ok::<bool, ErrorView>(i == k) by {
        lemma_path_verdict(path, row_of(listing[i].entry, listing[i].metadata));
    }
    assert forall|i: int| 0 <= i < listing.len() implies (scan.keeps(#[trigger] listing[i]) <==> i
        == k) by {
        assert(row_verdict(scan.filters, row_of(listing[i].entry, listing[i].metadata)) == Ok::<
            bool,
            ErrorView,
        >(i == k));
    }
    lemma_scan_is_complete(scan, listing);
    lemma_one_is_shown(scan, listing, k);
    lemma_one_batch(scan.run(listing).1, scan.stored(listing[k]));
}

/// Whether a listing shows a store: the contents of its files are those of the store, and it
/// shows no path twice.
pub open spec fn reflects(listing: Seq<Found>, store: Files) -> bool {
    &&& forall|i: int|
        0 <= i < listing.len() && (#[trigger] listing[i]).entry.mode == EntryMode::File ==> {
            &&& store.contains_key(listing[i].entry.path)
            &&& listing[i].content == store[listing[i].entry.path]
        }
    &&& forall|i: int, j: int|
        0 <= i < j < listing.len() ==> (#[trigger] listing[i]).entry.path != (
        #[trigger] listing[j]).entry.path
}

/// How a scan begins that asks for one path: it lists the directory that holds the path.
pub proof fn lemma_path_is_located(
    expr: Expr,
    path: Seq<char>,
    fields: Seq<FieldView>,
    store: StoreView,
    limit: Option<usize>,
)
    requires
        simple_filter(expr) == Some(at_path(path)),
    ensures
        beginning(seq![expr], fields, store, limit) matches Ok(Some((plan, scan))) && {
            &&& plan == (PlanView::List { path: directory(path) + "/"@, recursive: None, limit })
            &&& scan.filters == seq![at_path(path)]
        },
{
    let exprs = seq![expr];
    assert(exprs.drop_last() =~= Seq::<Expr>::empty());
    assert(pushed_filters(exprs.drop_last()) =~= Seq::<FilterView>::empty());
    assert(exprs.last() == expr);
    assert(pushed_filters(exprs) =~= seq![at_path(path)]);
    lemma_path_conditions(path);
    let conditions = seq![(OperatorView::Eq, ScalarView::Utf8(Some(path)))];
    assert(conditions.drop_first() =~= Seq::<ConditionView>::empty());
    assert(chosen_text(conditions.drop_first(), Some(path)) == Ok::<Choice<Seq<char>>, ErrorView>(
        Choice::Value(Some(path)),
    ));
    assert(chosen_text(conditions, None) == Ok::<Choice<Seq<char>>, ErrorView>(
        Choice::Value(Some(path)),
    ));
    assert(chosen_flag(Seq::<ConditionView>::empty(), None) == Ok::<Choice<bool>, ErrorView>(
        Choice::Value(None),
    ));
}

/// A file that was written is read back: once a run has written the one file that it was
/// given, a scan that asks for its path and for contents sends one batch with one row, which
/// has that path and that content, whatever else the store holds. The listing must show the
/// store as it is after the run, the file among its entries.
pub proof fn lemma_written_file_is_read_back(
    run: RunView,
    before: Files,
    file: FileView,
    expr: Expr,
    fields: Seq<FieldView>,
    store: StoreView,
    limit: Option<usize>,
    listing: Seq<Found>,
    k: int,
)
    requires
        run.phase == RunPhase::Checking,
        run.pending == seq![file],
        run.replace || !before.contains_key(file.path),
        simple_filter(expr) == Some(at_path(file.path)),
        has_column(fields, BLOB_COL@),
        reflects(listing, write_out(run, before).1),
        0 <= k < listing.len(),
        listing[k].entry.mode == EntryMode::File,
        listing[k].entry.path == file.path,
    ensures
        write_out(run, before).0.phase == RunPhase::Receiving,
        write_out(run, before).0.count == run.count + 1,
        beginning(seq![expr], fields, store, limit) matches Ok(Some((_, scan))) && {
            let row = StoredRow {
                row: row_of(listing[k].entry, listing[k].metadata),
                blob: Some(file.blob),
            };
            &&& scan.run(listing).0.phase is Finished
            &&& scan.run(listing).1 == seq![seq![row]]
            &&& row.row.path == file.path
        },
{
    lemma_files_are_written(run, before);
    let after = write_out(run, before).1;
    assert(run.pending.drop_first() =~= Seq::<FileView>::empty());
    assert(after == stored(
        before.insert(file.path, file.blob),
        run.pending.drop_first(),
    ));
    assert(after[file.path] == file.blob);
    assert(listing[k].content == file.blob);
    lemma_path_is_located(expr, file.path, fields, store, limit);
    let (_, scan) = beginning(seq![expr], fields, store, limit)->Ok_0->0;
    assert forall|i: int| 0 <= i < listing.len() && i != k implies (
    #[trigger] listing[i]).entry.path != listing[k].entry.path by {}
    lemma_file_is_read(scan, listing, k);
}

} // verus!
