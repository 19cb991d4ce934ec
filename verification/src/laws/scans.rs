use vstd::prelude::*;

use super::filters::{lemma_rows_are_filtered, row_column, satisfies};
use crate::conditions::pushed_filters;
use crate::expr::Expr;
use crate::rows::StoredRow;
use crate::scan::{row_of, row_verdict, EntryMode, Found, ScanView, ROW_COUNT_THRESHOLD};

verus! {

/// One entry adds its row to those that are sent or wait, if it is shown, and no other.
proof fn lemma_visit(scan: ScanView, found: Found)
    requires
        scan.phase is Listing,
        row_verdict(scan.filters, row_of(found.entry, found.metadata)) is Ok,
    ensures
        ({
            let (after, sent) = scan.visit(found);
            &&& after.phase is Listing
            &&& after.filters == scan.filters
            &&& after.fields == scan.fields
            &&& after.constants == scan.constants
            &&& sent.flatten_alt() + after.rows == if scan.keeps(found) {
                scan.rows.push(scan.stored(found))
            } else {
                scan.rows
            }
            &&& sent.len() <= 1
            &&& sent.len() == 1 ==> sent[0] == scan.rows.push(scan.stored(found)) && scan.full(
                sent[0],
            ) && after.rows.len() == 0
            &&& sent.len() == 0 && scan.keeps(found) ==> !scan.full(after.rows)
            &&& sent.len() == 0 && !scan.keeps(found) ==> after.rows == scan.rows
        }),
{
    reveal(ScanView::visit);
    let (after, sent) = scan.visit(found);
    if sent.len() == 0 {
        assert(sent.flatten_alt() =~= Seq::<StoredRow>::empty());
        assert(sent.flatten_alt() + after.rows =~= after.rows);
    } else {
        assert(sent.drop_last() =~= Seq::<Seq<StoredRow>>::empty());
        assert(sent.drop_last().flatten_alt() =~= Seq::<StoredRow>::empty());
        assert(sent.flatten_alt() =~= sent[0]);
        assert(sent.flatten_alt() + after.rows =~= sent[0]);
    }
}

/// Batches that are sent while a listing is walked: every one is full, and none was full
/// before its last row.
pub open spec fn cut_in_time(scan: ScanView, batches: Seq<Seq<StoredRow>>) -> bool {
    forall|i: int|
        0 <= i < batches.len() ==> {
            let batch = #[trigger] batches[i];
            &&& batch.len() > 0
            &&& scan.full(batch)
            &&& !scan.full(batch.drop_last())
        }
}

proof fn lemma_visits(scan: ScanView, listing: Seq<Found>)
    requires
        scan.phase is Listing,
        !scan.full(scan.rows),
        forall|i: int|
            0 <= i < listing.len() ==> row_verdict(
                scan.filters,
                row_of((#[trigger] listing[i]).entry, listing[i].metadata),
            ) is Ok,
    ensures
        ({
            let (after, sent) = scan.visits(listing);
            &&& after.phase is Listing
            &&& after.filters == scan.filters
            &&& after.fields == scan.fields
            &&& after.constants == scan.constants
            &&& !scan.full(after.rows)
            &&& sent.flatten_alt() + after.rows == scan.rows + scan.shown(listing)
            &&& cut_in_time(scan, sent)
        }),
    decreases listing.len(),
{
    let (after, sent) = scan.visits(listing);
    if listing.len() == 0 {
        assert(sent.flatten_alt() + after.rows =~= scan.rows + scan.shown(listing));
    } else {
        let last = listing.last();
        let (before, earlier) = scan.visits(listing.drop_last());
        lemma_visits(scan, listing.drop_last());
        lemma_visit(before, last);
        let more = before.visit(last).1;
        assert(before.keeps(last) == scan.keeps(last));
        assert(before.stored(last) == scan.stored(last));
        let shown = scan.shown(listing.drop_last());
        if more.len() == 0 {
            assert(sent =~= earlier);
            assert(more.flatten_alt() + after.rows =~= after.rows);
            if scan.keeps(last) {
                assert(sent.flatten_alt() + after.rows =~= (earlier.flatten_alt()
                    + before.rows).push(scan.stored(last)));
                assert((scan.rows + shown).push(scan.stored(last)) =~= scan.rows + scan.shown(
                    listing,
                ));
            }
        } else {
            assert(sent.drop_last() =~= earlier);
            assert(more.drop_last() =~= Seq::<Seq<StoredRow>>::empty());
            let stored = scan.stored(last);
            assert(sent.flatten_alt() + after.rows =~= (earlier.flatten_alt() + before.rows).push(
                stored,
            ));
            assert(scan.keeps(last));
            assert((scan.rows + shown).push(stored) =~= scan.rows + scan.shown(listing));
            assert(more[0].drop_last() =~= before.rows);
            assert forall|i: int| 0 <= i < sent.len() implies {
                let batch = #[trigger] sent[i];
                &&& batch.len() > 0
                &&& scan.full(batch)
                &&& !scan.full(batch.drop_last())
            } by {
                if i < earlier.len() {
                    assert(sent[i] == earlier[i]);
                } else {
                    assert(sent[i] == more[0]);
                }
            }
        }
    }
}

/// A scan over a whole listing ends, and the batches that it sends hold the rows of the
/// entries that are shown: all of them, each once, in the order of the listing. Every
/// batch but the last is full, none was full before its last row, and none is empty.
pub proof fn lemma_scan_is_complete(scan: ScanView, listing: Seq<Found>)
    requires
        scan.phase is Listing,
        scan.rows.len() == 0,
        forall|i: int|
            0 <= i < listing.len() ==> row_verdict(
                scan.filters,
                row_of((#[trigger] listing[i]).entry, listing[i].metadata),
            ) is Ok,
    ensures
        ({
            let (after, sent) = scan.run(listing);
            &&& after.phase is Finished
            &&& after.rows.len() == 0
            &&& sent.flatten_alt() == scan.shown(listing)
            &&& forall|i: int|
                0 <= i < sent.len() ==> {
                    let batch = #[trigger] sent[i];
                    &&& 0 < batch.len() <= ROW_COUNT_THRESHOLD
                    &&& !scan.full(batch.drop_last())
                    &&& i < sent.len() - 1 ==> scan.full(batch)
                }
        }),
{
    lemma_visits(scan, listing);
    let (visited, cut) = scan.visits(listing);
    let (after, sent) = scan.run(listing);
    assert(scan.rows + scan.shown(listing) =~= scan.shown(listing));
    if visited.rows.len() == 0 {
        assert(cut.flatten_alt() + visited.rows =~= cut.flatten_alt());
    } else {
        assert(sent.drop_last() =~= cut);
        lemma_not_full(scan, visited.rows);
    }
}

/// What is not full does not become full by leaving its last row out.
proof fn lemma_not_full(scan: ScanView, rows: Seq<StoredRow>)
    requires
        rows.len() > 0,
        !scan.full(rows),
    ensures
        !scan.full(rows.drop_last()),
{
}

/// A query whose filters were pushed down is answered with the rows of exactly those
/// listed entries that are of a known kind and satisfy every filter on the columns that are
/// checked row by row.
pub proof fn lemma_query_is_answered(exprs: Seq<Expr>, scan: ScanView, listing: Seq<Found>)
    requires
        scan.filters == pushed_filters(exprs),
        scan.phase is Listing,
        scan.rows.len() == 0,
    ensures
        scan.run(listing).0.phase is Finished,
        scan.run(listing).1.flatten_alt() == scan.shown(listing),
        forall|i: int|
            0 <= i < listing.len() ==> (scan.keeps(#[trigger] listing[i]) <==> {
                &&& listing[i].entry.mode != EntryMode::Unknown
                &&& forall|k: int|
                    0 <= k < pushed_filters(exprs).len() && row_column(
                        (#[trigger] pushed_filters(exprs)[k]).0,
                    ) ==> satisfies(
                        scan.constants,
                        row_of(listing[i].entry, listing[i].metadata),
                        pushed_filters(exprs)[k],
                    )
            }),
{
    assert forall|i: int| 0 <= i < listing.len() implies row_verdict(
        scan.filters,
        row_of((#[trigger] listing[i]).entry, listing[i].metadata),
    ) is Ok by {
        lemma_rows_are_filtered(
            exprs,
            scan.constants,
            row_of(listing[i].entry, listing[i].metadata),
        );
    }
    lemma_scan_is_complete(scan, listing);
    assert forall|i: int| 0 <= i < listing.len() implies (scan.keeps(#[trigger] listing[i]) <==> {
        &&& listing[i].entry.mode != EntryMode::Unknown
        &&& forall|k: int|
            0 <= k < pushed_filters(exprs).len() && row_column(
                (#[trigger] pushed_filters(exprs)[k]).0,
            ) ==> satisfies(
                scan.constants,
                row_of(listing[i].entry, listing[i].metadata),
                pushed_filters(exprs)[k],
            )
    }) by {
        lemma_rows_are_filtered(
            exprs,
            scan.constants,
            row_of(listing[i].entry, listing[i].metadata),
        );
    }
}

} // verus!
