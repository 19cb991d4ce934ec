use vstd::prelude::*;

use crate::conditions::{all_hold, conditions_on};
use crate::error::ErrorView;
use crate::expr::FilterView;
use crate::rows::{total_size, RowView, StoredRow};
use crate::scan::{
    row_of, row_verdict, ActionView, EntryMode, EntryView, EventView, MetadataView, PhaseView,
    ScanView,
};
use crate::schema::has_column;
use crate::text::path_parent;
use crate::value::ScalarView;

verus! {

/// Whether two scans differ in their phase and their rows at most.
pub open spec fn same_query(one: ScanView, other: ScanView) -> bool {
    one.filters == other.filters && one.fields == other.fields && one.constants == other.constants
}

/// Whether a row shows an entry: all that the listing and the store say of it, and as its
/// parent the path without its last component after one slash.
pub open spec fn row_shows(row: RowView, entry: EntryView, metadata: MetadataView) -> bool {
    &&& row.path == entry.path
    &&& row.name == entry.name
    &&& row.is_file <==> entry.mode == EntryMode::File
    &&& row.size == metadata.content_length
    &&& row.content_type == metadata.content_type
    &&& row.last_modified == metadata.last_modified
    &&& row.parent == match path_parent(entry.path) {
        Some(holder) => if holder == "/"@ {
            "/"@
        } else {
            "/"@ + holder
        },
        None => "/"@,
    }
}

/// An entry of unknown kind is passed over, and of any other the store is asked what it
/// says of it.
pub proof fn lemma_entry_is_listed(scan: ScanView, entry: EntryView)
    requires
        scan.phase is Listing,
    ensures
        ({
            let (after, action) = scan.step(EventView::Listed(entry));
            &&& same_query(scan, after)
            &&& after.rows == scan.rows
            &&& entry.mode == EntryMode::Unknown ==> after.phase is Listing && action == Ok::<
                ActionView,
                ErrorView,
            >(ActionView::Next)
            &&& entry.mode != EntryMode::Unknown ==> after.phase == PhaseView::Describing(entry)
                && action == Ok::<ActionView, ErrorView>(ActionView::Describe(entry.path))
        }),
{
}

/// At the end of a listing the rows that wait are sent, and without any the scan is over.
pub proof fn lemma_listing_ends(scan: ScanView)
    requires
        scan.phase is Listing,
    ensures
        ({
            let (after, action) = scan.step(EventView::Ended);
            &&& same_query(scan, after)
            &&& after.rows == scan.rows
            &&& scan.rows.len() > 0 ==> after.phase == (PhaseView::Flushing { last: true })
                && action == Ok::<ActionView, ErrorView>(ActionView::Flush)
            &&& scan.rows.len() == 0 ==> after.phase is Finished && action == Ok::<
                ActionView,
                ErrorView,
            >(ActionView::Finish)
        }),
{
}

/// An entry that the store describes is kept where its row passes the filters. Its content
/// is read exactly where the schema has the `blob` column and the entry is a file. An entry
/// that does not pass is dropped, and a refused filter ends the scan.
pub proof fn lemma_entry_is_described(
    scan: ScanView,
    entry: EntryView,
    metadata: MetadataView,
)
    requires
        scan.phase == PhaseView::Describing(entry),
    ensures
        ({
            let (after, action) = scan.step(EventView::Described(metadata));
            &&& same_query(scan, after)
            &&& after.rows == scan.rows
            &&& exists|row: RowView| #[trigger]
                row_shows(row, entry, metadata) && match row_verdict(scan.filters, row) {
                    Ok(true) => {
                        &&& after.phase == PhaseView::Collecting(row)
                        &&& has_column(scan.fields, "blob"@) && entry.mode == EntryMode::File
                            ==> action == Ok::<ActionView, ErrorView>(
                            ActionView::Read(entry.path),
                        )
                        &&& !(has_column(scan.fields, "blob"@) && entry.mode == EntryMode::File)
                            ==> action == Ok::<ActionView, ErrorView>(ActionView::Keep)
                    },
                    Ok(false) => after.phase is Listing && action == Ok::<ActionView, ErrorView>(
                        ActionView::Next,
                    ),
                    Err(error) => after.phase is Failed && action == Err::<ActionView, ErrorView>(
                        error,
                    ),
                }
        }),
{
    let row = row_of(entry, metadata);
    assert(row_shows(row, entry, metadata));
}

/// A row that is collected is put behind the others. With a thousand rows, or with ten
/// megabytes where contents are asked for, they are sent.
pub proof fn lemma_row_is_collected(scan: ScanView, row: RowView, blob: Option<Seq<u8>>)
    requires
        scan.phase == PhaseView::Collecting(row),
    ensures
        ({
            let (after, action) = scan.step(EventView::Collected(blob));
            let rows = scan.rows.push(StoredRow { row, blob });
            &&& same_query(scan, after)
            &&& after.rows == rows
            &&& if rows.len() >= 1000 || (has_column(scan.fields, "blob"@) && total_size(rows) >= 10
                * 1024 * 1024) {
                after.phase == (PhaseView::Flushing { last: false }) && action == Ok::<
                    ActionView,
                    ErrorView,
                >(ActionView::Flush)
            } else {
                after.phase is Listing && action == Ok::<ActionView, ErrorView>(ActionView::Next)
            }
        }),
{
}

/// Sending a batch leaves no rows behind, and ends the scan where it was the last one.
pub proof fn lemma_batch_is_sent(scan: ScanView, last: bool)
    requires
        scan.phase == (PhaseView::Flushing { last }),
    ensures
        same_query(scan, scan.flushed()),
        scan.flushed().rows.len() == 0,
        last ==> scan.flushed().phase is Finished,
        !last ==> scan.flushed().phase is Listing,
        same_query(scan, scan.moved(PhaseView::Failed)),
        scan.moved(PhaseView::Failed).rows == scan.rows,
        scan.moved(PhaseView::Failed).phase is Failed,
{
}

/// A scan expects what it has asked for: an entry or the end of the listing, what the store
/// says of an entry, and a content exactly where it is to be read.
pub proof fn lemma_scan_expects(
    scan: ScanView,
    entry: EntryView,
    metadata: MetadataView,
    row: RowView,
    blob: Option<Seq<u8>>,
)
    ensures
        scan.expects(EventView::Listed(entry)) <==> scan.phase is Listing,
        scan.expects(EventView::Ended) <==> scan.phase is Listing,
        scan.expects(EventView::Described(metadata)) <==> scan.phase is Describing,
        scan.phase == PhaseView::Collecting(row) ==> (scan.expects(EventView::Collected(blob))
            <==> {
            &&& blob is Some <==> has_column(scan.fields, "blob"@) && row.is_file
            &&& total_size(scan.rows) + row.size <= 0xffff_ffff_ffff_ffff
        }),
        !(scan.phase is Collecting) ==> !scan.expects(EventView::Collected(blob)),
{
}

/// The filters are tried column by column: path, name, kind, size, content type and time.
/// The first column whose conditions do not all hold decides, and a row passes where those
/// of all six do.
pub proof fn lemma_columns_are_tried_in_order(filters: Seq<FilterView>, row: RowView)
    ensures
        ({
            let yes = Ok::<bool, ErrorView>(true);
            let path = all_hold(ScalarView::Utf8(Some(row.path)), conditions_on(filters, "path"@));
            let name = all_hold(ScalarView::Utf8(Some(row.name)), conditions_on(filters, "name"@));
            let kind = all_hold(
                ScalarView::Boolean(Some(row.is_file)),
                conditions_on(filters, "is_file"@),
            );
            let size = all_hold(
                ScalarView::UInt64(Some(row.size)),
                conditions_on(filters, "size"@),
            );
            let content = all_hold(
                ScalarView::Utf8(row.content_type),
                conditions_on(filters, "content_type"@),
            );
            let time = all_hold(
                ScalarView::TimestampNanosecond(row.last_modified, None),
                conditions_on(filters, "last_modified"@),
            );
            let verdict = row_verdict(filters, row);
            &&& path != yes ==> verdict == path
            &&& path == yes && name != yes ==> verdict == name
            &&& path == yes && name == yes && kind != yes ==> verdict == kind
            &&& path == yes && name == yes && kind == yes && size != yes ==> verdict == size
            &&& path == yes && name == yes && kind == yes && size == yes && content != yes
                ==> verdict == content
            &&& path == yes && name == yes && kind == yes && size == yes && content == yes
                ==> verdict == time
        }),
{
}

} // verus!
