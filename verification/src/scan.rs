use datafusion::arrow::datatypes::SchemaRef;
use datafusion::arrow::error::ArrowError;
use vstd::prelude::*;

use crate::batch::{
    assembles, batch_columns, batch_fields, blob_view, chosen_columns, columns_fit, Batch,
    ColumnView,
};
use crate::columns::{
    BLOB_COL, CONTENT_TYPE_COL, IS_FILE_COL, LAST_MODIFIED_COL, NAME_COL, PATH_COL, SIZE_COL,
};
use crate::conditions::{all_hold, conditions_on, verdict_view, Conditions};
use crate::error::{ErrorView, OpenDALExecError};
use crate::expr::FilterView;
use crate::plan::{result_view, StoreInfo, StoreView};
use crate::rows::{table_of, total_size, Buffers, Constants, ConstantsView, Row, RowView, StoredRow};
use crate::schema::{fields_of, has_column, FieldView};
use crate::text::{
    directory, directory_of, lies_in, plain_directory, plain_name, root_directory, rooted,
    text_view,
};
use crate::value::{clone_text, ColumnValue, ScalarView};

verus! {

/// Once the entries of a batch have this many bytes together, it is sent, if their
/// content is asked for.
pub const BATCH_SIZE_THRESHOLD: u64 = 10 * 1024 * 1024;

/// Once a batch has this many rows, it is sent.
pub const ROW_COUNT_THRESHOLD: usize = 1000;

/// What kind of thing an entry of a store is.
#[derive(Debug, Clone, Copy, PartialEq, Eq, Structural)]
pub enum EntryMode {
    File,
    Dir,
    Unknown,
}

/// An entry as a listing shows it.
#[derive(Debug)]
pub struct Entry {
    pub path: String,
    pub name: String,
    pub mode: EntryMode,
}

/// The mathematical counterpart of [`Entry`].
pub struct EntryView {
    pub path: Seq<char>,
    pub name: Seq<char>,
    pub mode: EntryMode,
}

impl View for Entry {
    type V = EntryView;

    open spec fn view(&self) -> EntryView {
        EntryView { path: self.path@, name: self.name@, mode: self.mode }
    }
}

/// What a store says of one entry when asked for it.
#[derive(Debug)]
pub struct Metadata {
    pub content_length: u64,
    pub content_type: Option<String>,
    /// Nanoseconds since the epoch.
    pub last_modified: Option<i64>,
}

/// The mathematical counterpart of [`Metadata`].
pub struct MetadataView {
    pub content_length: u64,
    pub content_type: Option<Seq<char>>,
    pub last_modified: Option<i64>,
}

impl View for Metadata {
    type V = MetadataView;

    open spec fn view(&self) -> MetadataView {
        MetadataView {
            content_length: self.content_length,
            content_type: text_view(self.content_type),
            last_modified: self.last_modified,
        }
    }
}

/// The row that the table shows for an entry.
pub open spec fn row_of(entry: EntryView, metadata: MetadataView) -> RowView {
    RowView {
        parent: rooted(directory(entry.path)),
        path: entry.path,
        name: entry.name,
        is_file: entry.mode == EntryMode::File,
        size: metadata.content_length,
        content_type: metadata.content_type,
        last_modified: metadata.last_modified,
    }
}

/// The row that the table shows for an entry.
pub fn make_row(entry: Entry, metadata: Metadata) -> (row: Row)
    ensures
        row@ == row_of(entry@, metadata@),
        row.path@ == entry.path@,
        row.name@ == entry.name@,
        row.is_file == (entry.mode is File),
        row.size == metadata.content_length,
        row.content_type == metadata.content_type,
        row.last_modified == metadata.last_modified,
        // The parent is the path without its last component, after one slash.
        forall|holder: Seq<char>, name: Seq<char>| #[trigger]
            lies_in(entry.path@, holder, name) && plain_directory(holder) && plain_name(name)
                ==> row.parent@ == seq!['/'] + holder,
        forall|name: Seq<char>| #[trigger]
            plain_name(name) && (name.len() > 1 ==> name[1] != ':') && (entry.path@ == name
                || entry.path@ == name.push('/')) ==> row.parent@ == seq!['/'],
        entry.path@.len() == 0 || entry.path@ == "/"@ ==> row.parent@ == "/"@,
{
    proof {
        reveal_strlit("/");
    }
    let parent = root_directory(directory_of(entry.path.as_str()));
    Row {
        parent,
        path: entry.path,
        name: entry.name,
        is_file: entry.mode == EntryMode::File,
        size: metadata.content_length,
        content_type: metadata.content_type,
        last_modified: metadata.last_modified,
    }
}

/// The columns that all rows of a scan share. Where no filter says otherwise, a scan does
/// not descend into directories.
pub open spec fn constants_of(store: StoreView, recursive: Option<bool>) -> ConstantsView {
    ConstantsView {
        uri: store.uri(),
        namespace: store.namespace(),
        root: store.root,
        recursive: recursive == Some(true),
    }
}

/// The columns that all rows of a scan share.
pub fn make_constants(store: &StoreInfo, recursive: Option<bool>) -> (constants: Constants)
    ensures
        constants@ == constants_of(store@, recursive),
        constants.uri@ == store.scheme@ + "://"@,
        constants.root@ == store.root@,
        constants.namespace is None <==> store.name@.len() == 0,
        constants.namespace is Some ==> constants.namespace->0@ == store.name@,
        constants.recursive == (recursive matches Some(flag) && flag),
{
    Constants {
        uri: store.uri(),
        namespace: store.namespace(),
        root: store.root.clone(),
        recursive: recursive.unwrap_or(false),
    }
}

/// The first verdict of two that is not favourable, or the second.
pub open spec fn both(first: Result<bool, ErrorView>, second: Result<bool, ErrorView>) -> Result<
    bool,
    ErrorView,
> {
    if first == Ok::<bool, ErrorView>(true) {
        second
    } else {
        first
    }
}

/// Whether a row satisfies the conditions on its path, name, kind, size, content type and
/// time of modification. They are tried in this order, and the first that does not hold
/// decides.
pub open spec fn row_verdict(filters: Seq<FilterView>, row: RowView) -> Result<bool, ErrorView> {
    both(
        all_hold(ScalarView::Utf8(Some(row.path)), conditions_on(filters, PATH_COL@)),
        both(
            all_hold(ScalarView::Utf8(Some(row.name)), conditions_on(filters, NAME_COL@)),
            both(
                all_hold(
                    ScalarView::Boolean(Some(row.is_file)),
                    conditions_on(filters, IS_FILE_COL@),
                ),
                both(
                    all_hold(ScalarView::UInt64(Some(row.size)), conditions_on(filters, SIZE_COL@)),
                    both(
                        all_hold(
                            ScalarView::Utf8(row.content_type),
                            conditions_on(filters, CONTENT_TYPE_COL@),
                        ),
                        all_hold(
                            ScalarView::TimestampNanosecond(row.last_modified, None),
                            conditions_on(filters, LAST_MODIFIED_COL@),
                        ),
                    ),
                ),
            ),
        ),
    )
}

/// Whether a row satisfies the conditions.
pub fn row_matches(conditions: &Conditions, row: &Row) -> (verdict: Result<bool, OpenDALExecError>)
    ensures
        verdict_view(verdict) == row_verdict(conditions@, row@),
{
    match conditions.check(PATH_COL, &ColumnValue::Utf8(Some(row.path.clone()))) {
        Ok(true) => {},
        verdict => {
            return verdict;
        },
    }
    match conditions.check(NAME_COL, &ColumnValue::Utf8(Some(row.name.clone()))) {
        Ok(true) => {},
        verdict => {
            return verdict;
        },
    }
    match conditions.check(IS_FILE_COL, &ColumnValue::Boolean(row.is_file)) {
        Ok(true) => {},
        verdict => {
            return verdict;
        },
    }
    match conditions.check(SIZE_COL, &ColumnValue::UInt64(row.size)) {
        Ok(true) => {},
        verdict => {
            return verdict;
        },
    }
    match conditions.check(CONTENT_TYPE_COL, &ColumnValue::Utf8(clone_text(&row.content_type))) {
        Ok(true) => {},
        verdict => {
            return verdict;
        },
    }
    conditions.check(LAST_MODIFIED_COL, &ColumnValue::TimestampNanosecond(row.last_modified))
}

/// Where a scan stands.
pub enum Phase {
    /// It waits for the next entry of the listing.
    Listing,
    /// It waits for what the store says of an entry.
    Describing(Entry),
    /// It waits for the content of an entry, if that is asked for.
    Collecting(Row),
    /// It has a batch to send. After the last one the scan is over.
    Flushing { last: bool },
    /// The listing is over.
    Finished,
    /// An error ended the scan.
    Failed,
}

/// The mathematical counterpart of [`Phase`].
pub enum PhaseView {
    Listing,
    Describing(EntryView),
    Collecting(RowView),
    Flushing { last: bool },
    Finished,
    Failed,
}

impl View for Phase {
    type V = PhaseView;

    open spec fn view(&self) -> PhaseView {
        match *self {
            Phase::Listing => PhaseView::Listing,
            Phase::Describing(entry) => PhaseView::Describing(entry@),
            Phase::Collecting(row) => PhaseView::Collecting(row@),
            Phase::Flushing { last } => PhaseView::Flushing { last },
            Phase::Finished => PhaseView::Finished,
            Phase::Failed => PhaseView::Failed,
        }
    }
}

/// What a store answers to a scan.
#[derive(Debug)]
pub enum Event {
    /// The listing has an entry.
    Listed(Entry),
    /// The listing is over.
    Ended,
    /// The store describes the entry.
    Described(Metadata),
    /// The content of the entry, where it was asked for.
    Collected(Option<Vec<u8>>),
}

/// The mathematical counterpart of [`Event`].
pub enum EventView {
    Listed(EntryView),
    Ended,
    Described(MetadataView),
    Collected(Option<Seq<u8>>),
}

impl View for Event {
    type V = EventView;

    open spec fn view(&self) -> EventView {
        match *self {
            Event::Listed(entry) => EventView::Listed(entry@),
            Event::Ended => EventView::Ended,
            Event::Described(metadata) => EventView::Described(metadata@),
            Event::Collected(blob) => EventView::Collected(blob_view(blob)),
        }
    }
}

/// What a scan asks for.
#[derive(Debug, PartialEq)]
pub enum Action {
    /// The next entry of the listing.
    Next,
    /// What the store says of the entry at a path.
    Describe(String),
    /// The content of the entry at a path.
    Read(String),
    /// To go on with the entry without its content.
    Keep,
    /// To take the waiting batch and send it.
    Flush,
    /// Nothing more.
    Finish,
}

/// The mathematical counterpart of [`Action`].
pub enum ActionView {
    Next,
    Describe(Seq<char>),
    Read(Seq<char>),
    Keep,
    Flush,
    Finish,
}

impl View for Action {
    type V = ActionView;

    open spec fn view(&self) -> ActionView {
        match *self {
            Action::Next => ActionView::Next,
            Action::Describe(path) => ActionView::Describe(path@),
            Action::Read(path) => ActionView::Read(path@),
            Action::Keep => ActionView::Keep,
            Action::Flush => ActionView::Flush,
            Action::Finish => ActionView::Finish,
        }
    }
}

/// The state of a scan.
pub struct ScanView {
    /// The filters that were pushed down.
    pub filters: Seq<FilterView>,
    /// The fields of the batches.
    pub fields: Seq<FieldView>,
    /// The columns that all rows share.
    pub constants: ConstantsView,
    pub phase: PhaseView,
    /// The rows that wait to be sent.
    pub rows: Seq<StoredRow>,
}

impl ScanView {
    /// Whether the content of the entries is asked for.
    pub open spec fn with_blobs(self) -> bool {
        has_column(self.fields, BLOB_COL@)
    }

    /// Whether a batch of these rows is to be sent.
    pub open spec fn full(self, rows: Seq<StoredRow>) -> bool {
        rows.len() >= ROW_COUNT_THRESHOLD || (self.with_blobs() && total_size(rows)
            >= BATCH_SIZE_THRESHOLD)
    }

    /// Whether the content of an entry has to be read.
    pub open spec fn reads(self, row: RowView) -> bool {
        self.with_blobs() && row.is_file
    }

    /// The columns of a batch of the waiting rows.
    pub open spec fn columns(self) -> Seq<ColumnView> {
        chosen_columns(self.fields, table_of(self.constants, self.rows))
    }

    /// Whether a batch of the waiting rows fits into its arrays.
    pub open spec fn fits(self) -> bool {
        columns_fit(self.fields, table_of(self.constants, self.rows))
    }

    /// What holds of every scan.
    pub open spec fn valid(self) -> bool {
        // Every row that waits satisfies the conditions.
        &&& forall|i: int|
            0 <= i < self.rows.len() ==> row_verdict(
                self.filters,
                (#[trigger] self.rows[i]).row,
            ) == Ok::<bool, ErrorView>(true)
        // The content was read of files alone, and of them only where it is asked for.
        &&& forall|i: int|
            0 <= i < self.rows.len() ==> ((#[trigger] self.rows[i]).blob is Some
                <==> self.reads(self.rows[i].row))
        &&& total_size(self.rows) <= u64::MAX
        &&& match self.phase {
            PhaseView::Listing => !self.full(self.rows),
            PhaseView::Describing(entry) => !self.full(self.rows) && entry.mode
                != EntryMode::Unknown,
            PhaseView::Collecting(row) => !self.full(self.rows) && row_verdict(
                self.filters,
                row,
            ) == Ok::<bool, ErrorView>(true),
            PhaseView::Flushing { last } => if last {
                !self.full(self.rows) && self.rows.len() > 0
            } else {
                self.full(self.rows) && !self.full(self.rows.drop_last())
            },
            PhaseView::Finished => self.rows.len() == 0,
            PhaseView::Failed => true,
        }
    }

    /// Whether an event answers what the scan asks for. The sizes of the waiting entries
    /// must not exceed what their counter can hold.
    pub open spec fn expects(self, event: EventView) -> bool {
        match (self.phase, event) {
            (PhaseView::Listing, EventView::Listed(_)) => true,
            (PhaseView::Listing, EventView::Ended) => true,
            (PhaseView::Describing(_), EventView::Described(_)) => true,
            (PhaseView::Collecting(row), EventView::Collected(blob)) => (blob is Some
                <==> self.reads(row)) && total_size(self.rows) + row.size <= u64::MAX,
            _ => false,
        }
    }

    /// The same scan in another phase.
    pub open spec fn moved(self, phase: PhaseView) -> ScanView {
        ScanView { phase, ..self }
    }

    /// What an event does to a scan, and what the scan asks for next.
    pub open spec fn step(self, event: EventView) -> (ScanView, Result<ActionView, ErrorView>) {
        match (self.phase, event) {
            (PhaseView::Listing, EventView::Listed(entry)) => if entry.mode == EntryMode::Unknown {
                // Entries of unknown kind are passed over.
                (self, Ok(ActionView::Next))
            } else {
                (self.moved(PhaseView::Describing(entry)), Ok(ActionView::Describe(entry.path)))
            },
            (PhaseView::Listing, EventView::Ended) => if self.rows.len() > 0 {
                (self.moved(PhaseView::Flushing { last: true }), Ok(ActionView::Flush))
            } else {
                (self.moved(PhaseView::Finished), Ok(ActionView::Finish))
            },
            (PhaseView::Describing(entry), EventView::Described(metadata)) => {
                let row = row_of(entry, metadata);
                match row_verdict(self.filters, row) {
                    Err(error) => (self.moved(PhaseView::Failed), Err(error)),
                    Ok(false) => (self.moved(PhaseView::Listing), Ok(ActionView::Next)),
                    Ok(true) => (
                        self.moved(PhaseView::Collecting(row)),
                        Ok(
                            if self.reads(row) {
                                ActionView::Read(row.path)
                            } else {
                                ActionView::Keep
                            },
                        ),
                    ),
                }
            },
            (PhaseView::Collecting(row), EventView::Collected(blob)) => {
                let rows = self.rows.push(StoredRow { row, blob });
                if self.full(rows) {
                    (
                        ScanView { phase: PhaseView::Flushing { last: false }, rows, ..self },
                        Ok(ActionView::Flush),
                    )
                } else {
                    (ScanView { phase: PhaseView::Listing, rows, ..self }, Ok(ActionView::Next))
                }
            },
            _ => (self, Ok(ActionView::Finish)),
        }
    }

    /// What sending the waiting batch does to a scan.
    pub open spec fn flushed(self) -> ScanView {
        let phase = if self.phase == (PhaseView::Flushing { last: true }) {
            PhaseView::Finished
        } else {
            PhaseView::Listing
        };
        ScanView { phase, rows: Seq::empty(), ..self }
    }
}

/// Everything that a store knows of one entry: how a listing shows it, what the store says
/// of it when asked, and its content.
pub struct Found {
    pub entry: EntryView,
    pub metadata: MetadataView,
    pub content: Seq<u8>,
}

impl ScanView {
    /// Whether an entry is shown: its kind is known and its row satisfies the conditions.
    pub open spec fn keeps(self, found: Found) -> bool {
        found.entry.mode != EntryMode::Unknown && row_verdict(
            self.filters,
            row_of(found.entry, found.metadata),
        ) == Ok::<bool, ErrorView>(true)
    }

    /// The row that an entry becomes, with its content where that is asked for.
    pub open spec fn stored(self, found: Found) -> StoredRow {
        let row = row_of(found.entry, found.metadata);
        StoredRow {
            row,
            blob: if self.reads(row) {
                Some(found.content)
            } else {
                None
            },
        }
    }

    /// The rows of the entries that are shown, in the order of the listing.
    pub open spec fn shown(self, listing: Seq<Found>) -> Seq<StoredRow>
        decreases listing.len(),
    {
        if listing.len() == 0 {
            Seq::empty()
        } else {
            let before = self.shown(listing.drop_last());
            if self.keeps(listing.last()) {
                before.push(self.stored(listing.last()))
            } else {
                before
            }
        }
    }

    /// What a scan makes of one entry, while the store answers what it is asked for and
    /// nothing else: its state afterwards, and the batch that is sent, if any.
    #[verifier::opaque]
    pub open spec fn visit(self, found: Found) -> (ScanView, Seq<Seq<StoredRow>>) {
        let path = found.entry.path;
        let (listed, asked) = self.step(EventView::Listed(found.entry));
        if asked != Ok::<ActionView, ErrorView>(ActionView::Describe(path)) {
            (listed, Seq::empty())
        } else {
            let (described, wanted) = listed.step(EventView::Described(found.metadata));
            let read = wanted == Ok::<ActionView, ErrorView>(ActionView::Read(path));
            if !read && wanted != Ok::<ActionView, ErrorView>(ActionView::Keep) {
                (described, Seq::empty())
            } else {
                let blob = if read {
                    Some(found.content)
                } else {
                    None
                };
                let (collected, next) = described.step(EventView::Collected(blob));
                if next == Ok::<ActionView, ErrorView>(ActionView::Flush) {
                    (collected.flushed(), seq![collected.rows])
                } else {
                    (collected, Seq::empty())
                }
            }
        }
    }

    /// What a scan makes of one entry after the other: its state afterwards, and the
    /// batches that are sent.
    pub open spec fn visits(self, listing: Seq<Found>) -> (ScanView, Seq<Seq<StoredRow>>)
        decreases listing.len(),
    {
        if listing.len() == 0 {
            (self, Seq::empty())
        } else {
            let (before, sent) = self.visits(listing.drop_last());
            let (after, more) = before.visit(listing.last());
            (after, sent + more)
        }
    }

    /// What a scan makes of a whole listing: its state at the end, and the batches that are
    /// sent.
    pub open spec fn run(self, listing: Seq<Found>) -> (ScanView, Seq<Seq<StoredRow>>) {
        let (visited, sent) = self.visits(listing);
        let (ended, next) = visited.step(EventView::Ended);
        if next == Ok::<ActionView, ErrorView>(ActionView::Flush) {
            (ended.flushed(), sent.push(ended.rows))
        } else {
            (ended, sent)
        }
    }
}

/// An event that a valid scan expects leaves it valid.
pub proof fn lemma_step_valid(scan: ScanView, event: EventView)
    requires
        scan.valid(),
        scan.expects(event),
    ensures
        scan.step(event).0.valid(),
{
    match (scan.phase, event) {
        (PhaseView::Collecting(row), EventView::Collected(blob)) => {
            let rows = scan.rows.push(StoredRow { row, blob });
            assert(rows.drop_last() =~= scan.rows);
        },
        _ => {},
    }
}

/// A scan of a store: it turns the entries of a listing into batches of rows. It asks for
/// one thing at a time, and is told what the store answered.
pub struct Scan {
    conditions: Conditions,
    phase: Phase,
    buffers: Buffers,
}

impl View for Scan {
    type V = ScanView;

    closed spec fn view(&self) -> ScanView {
        ScanView {
            filters: self.conditions@,
            fields: self.buffers.fields(),
            constants: self.buffers.constants(),
            phase: self.phase@,
            rows: self.buffers@,
        }
    }
}

impl Scan {
    /// Whether the columns that are held agree with the rows.
    pub closed spec fn consistent(&self) -> bool {
        self.buffers.wf()
    }

    /// Whether the scan is in order.
    pub open spec fn wf(&self) -> bool {
        self.consistent() && self@.valid()
    }

    /// A scan that has not begun. It asks for the first entry.
    pub fn new(conditions: Conditions, schema: SchemaRef, constants: Constants) -> (scan: Self)
        ensures
            scan.wf(),
            scan@ == (ScanView {
                filters: conditions@,
                fields: fields_of(&schema),
                constants: constants@,
                phase: PhaseView::Listing,
                rows: Seq::empty(),
            }),
    {
        Scan { conditions, phase: Phase::Listing, buffers: Buffers::new(schema, constants) }
    }

    /// Whether the listing is over and everything is sent that is to be sent.
    pub fn is_finished(&self) -> (finished: bool)
        ensures
            finished == (self@.phase is Finished),
    {
        match self.phase {
            Phase::Finished => true,
            _ => false,
        }
    }

    /// Whether the sizes of the waiting entries, with that of the entry at hand, can be
    /// counted.
    pub fn can_count(&self) -> (fits: bool)
        requires
            self.wf(),
        ensures
            fits == (self@.phase matches PhaseView::Collecting(row) ==> total_size(self@.rows)
                + row.size <= u64::MAX),
    {
        match &self.phase {
            Phase::Collecting(row) => row.size <= u64::MAX - self.buffers.size(),
            _ => true,
        }
    }

    /// Whether the waiting rows fit into the arrays of one batch.
    pub fn fits(&self) -> (fit: bool)
        requires
            self.wf(),
        ensures
            fit == self@.fits(),
    {
        self.buffers.fits()
    }

    /// Tells the scan what the store answered.
    pub fn step(&mut self, event: Event) -> (action: Result<Action, OpenDALExecError>)
        requires
            old(self).wf(),
            old(self)@.expects(event@),
        ensures
            final(self).wf(),
            final(self)@ == old(self)@.step(event@).0,
            result_view(action, |a: Action| a@) == old(self)@.step(event@).1,
    {
        proof {
            lemma_step_valid(self@, event@);
        }
        let mut phase = Phase::Failed;
        std::mem::swap(&mut self.phase, &mut phase);
        match (phase, event) {
            (Phase::Listing, Event::Listed(entry)) => {
                if entry.mode == EntryMode::Unknown {
                    self.phase = Phase::Listing;
                    Ok(Action::Next)
                } else {
                    let path = entry.path.clone();
                    self.phase = Phase::Describing(entry);
                    Ok(Action::Describe(path))
                }
            },
            (Phase::Listing, Event::Ended) => {
                if self.buffers.len() == 0 {
                    self.phase = Phase::Finished;
                    Ok(Action::Finish)
                } else {
                    self.phase = Phase::Flushing { last: true };
                    Ok(Action::Flush)
                }
            },
            (Phase::Describing(entry), Event::Described(metadata)) => {
                let row = make_row(entry, metadata);
                match row_matches(&self.conditions, &row) {
                    Err(error) => Err(error),
                    Ok(false) => {
                        self.phase = Phase::Listing;
                        Ok(Action::Next)
                    },
                    Ok(true) => {
                        let action = if self.buffers.asks_for(BLOB_COL) && row.is_file {
                            Action::Read(row.path.clone())
                        } else {
                            Action::Keep
                        };
                        self.phase = Phase::Collecting(row);
                        Ok(action)
                    },
                }
            },
            (Phase::Collecting(row), Event::Collected(blob)) => {
                self.buffers.push(row, blob);
                let large = self.buffers.asks_for(BLOB_COL) && self.buffers.size()
                    >= BATCH_SIZE_THRESHOLD;
                if large || self.buffers.len() >= ROW_COUNT_THRESHOLD {
                    self.phase = Phase::Flushing { last: false };
                    Ok(Action::Flush)
                } else {
                    self.phase = Phase::Listing;
                    Ok(Action::Next)
                }
            },
            (phase, _) => {
                self.phase = phase;
                Ok(Action::Finish)
            },
        }
    }

    /// Takes the waiting batch, to be sent. Rows that make no batch end the scan.
    pub fn flush(&mut self) -> (result: Result<Batch, ArrowError>)
        requires
            old(self).wf(),
            old(self)@.phase is Flushing,
            old(self)@.fits(),
        ensures
            final(self).wf(),
            result is Ok <==> assembles(old(self)@.fields, old(self)@.columns()),
            result is Ok ==> batch_columns(result->Ok_0) == old(self)@.columns() && batch_fields(
                result->Ok_0,
            ) == old(self)@.fields,
            final(self)@ == if result is Ok {
                old(self)@.flushed()
            } else {
                old(self)@.moved(PhaseView::Failed)
            },
            // Nothing that was sent waits any longer, and nothing else has changed.
            result is Ok ==> final(self)@.rows.len() == 0,
            result is Err ==> final(self)@.rows == old(self)@.rows,
            final(self)@.filters == old(self)@.filters,
            final(self)@.fields == old(self)@.fields,
            final(self)@.constants == old(self)@.constants,
    {
        let mut phase = Phase::Failed;
        std::mem::swap(&mut self.phase, &mut phase);
        let result = self.buffers.take();
        if result.is_ok() {
            match phase {
                Phase::Flushing { last: true } => {
                    self.phase = Phase::Finished;
                },
                _ => {
                    self.phase = Phase::Listing;
                },
            }
        }
        result
    }
}

} // verus!
