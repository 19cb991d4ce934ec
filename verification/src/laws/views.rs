use vstd::prelude::*;

use crate::batch::{
    blob_view, blobs_view, columns_view, flags, numbers, optional_texts, texts, times, ColumnData,
    ColumnView,
};
use crate::conditions::{conditions_view, verdict_view, Condition};
use crate::error::{quoted, ErrorView, OpenDALExecError};
use crate::expr::{filter_view, Filter};
use crate::plan::{choice_view, result_view, Choice, Listing, PlanView, ScanPlan, StoreInfo};
use crate::rows::{Constants, Row};
use crate::scan::{
    Action, ActionView, Entry, Event, EventView, Metadata, Phase, PhaseView, Scan, ScanView,
};
use crate::schema::{fields_view, projection_view, Field};
use crate::sink::{files_view, FileWrite};
use crate::source::begun_view;
use crate::text::text_view;
use crate::value::{ColumnValue, Operator, OperatorView, ScalarValue, ScalarView};

verus! {

/// A literal is seen with its type and its value.
pub proof fn lemma_literals_are_seen(value: ScalarValue)
    ensures
        match value {
            ScalarValue::Boolean(v) => value@ == ScalarView::Boolean(v),
            ScalarValue::Utf8(Some(v)) => value@ == ScalarView::Utf8(Some(v@)),
            ScalarValue::Utf8(None) => value@ == ScalarView::Utf8(None),
            ScalarValue::UInt64(v) => value@ == ScalarView::UInt64(v),
            ScalarValue::TimestampNanosecond(v, Some(zone)) => value@
                == ScalarView::TimestampNanosecond(v, Some(zone@)),
            ScalarValue::TimestampNanosecond(v, None) => value@ == ScalarView::TimestampNanosecond(
                v,
                None,
            ),
            ScalarValue::Other(v) => value@ == ScalarView::Other(v@),
        },
{
}

/// A value of a column is seen as the literal that it equals.
pub proof fn lemma_column_values_are_seen(value: ColumnValue)
    ensures
        match value {
            ColumnValue::Boolean(v) => value@ == ScalarView::Boolean(Some(v)),
            ColumnValue::Utf8(Some(v)) => value@ == ScalarView::Utf8(Some(v@)),
            ColumnValue::Utf8(None) => value@ == ScalarView::Utf8(None),
            ColumnValue::UInt64(v) => value@ == ScalarView::UInt64(Some(v)),
            ColumnValue::TimestampNanosecond(v) => value@ == ScalarView::TimestampNanosecond(
                v,
                None,
            ),
        },
{
}

/// An operator is seen as what it is, and displayed by its symbol.
pub proof fn lemma_operators_are_seen(op: Operator)
    ensures
        op is Eq <==> op@ is Eq,
        op is NotEq <==> op@ is NotEq,
        op is Lt <==> op@ is Lt,
        op is LtEq <==> op@ is LtEq,
        op is Gt <==> op@ is Gt,
        op is GtEq <==> op@ is GtEq,
        op matches Operator::Other(symbol) ==> op@ == OperatorView::Other(symbol@),
        op@.is_comparison() <==> !(op is Other),
        op@.display() == match op {
            Operator::Eq => "="@,
            Operator::NotEq => "!="@,
            Operator::Lt => "<"@,
            Operator::LtEq => "<="@,
            Operator::Gt => ">"@,
            Operator::GtEq => ">="@,
            Operator::Other(symbol) => symbol@,
        },
{
}

/// Filters, conditions and texts are seen part by part.
pub proof fn lemma_filters_are_seen(
    filter: Filter,
    conditions: Seq<Condition>,
    i: int,
    text: String,
    blob: Vec<u8>,
)
    ensures
        filter_view(Some(filter)) == Some((filter.0@, filter.1@, filter.2@)),
        filter_view(None) is None,
        conditions_view(conditions).len() == conditions.len(),
        0 <= i < conditions.len() ==> conditions_view(conditions)[i] == (
            conditions[i].0@,
            conditions[i].1@,
        ),
        text_view(Some(text)) == Some(text@),
        text_view(None) is None,
        blob_view(Some(blob)) == Some(blob@),
        blob_view(None) is None,
{
}

/// An error is seen with its kind and its message.
pub proof fn lemma_errors_are_seen(error: OpenDALExecError)
    ensures
        match error {
            OpenDALExecError::OpenDALErr(text) => error@ == ErrorView::OpenDALErr(text@)
                && error@.message() == text@,
            OpenDALExecError::PoolErr(text) => error@ == ErrorView::PoolErr(text@)
                && error@.message() == text@,
            OpenDALExecError::ArrowErr(text) => error@ == ErrorView::ArrowErr(text@)
                && error@.message() == text@,
            OpenDALExecError::InvalidSchema(text) => error@ == ErrorView::InvalidSchema(text@)
                && error@.message() == text@,
            OpenDALExecError::OverwriteError(text) => error@ == ErrorView::OverwriteError(text@)
                && error@.message() == text@,
            OpenDALExecError::SendErr(text) => error@ == ErrorView::SendErr(text@)
                && error@.message() == text@,
        },
{
}

/// An error is reported under the name of its kind, with its message quoted in brackets.
pub proof fn lemma_errors_are_reported(error: OpenDALExecError)
    ensures
        error@.report() == match error {
            OpenDALExecError::OpenDALErr(text) => "OpenDALErr"@ + "("@ + quoted(text@) + ")"@,
            OpenDALExecError::PoolErr(text) => "PoolErr"@ + "("@ + quoted(text@) + ")"@,
            OpenDALExecError::ArrowErr(text) => "ArrowErr"@ + "("@ + quoted(text@) + ")"@,
            OpenDALExecError::InvalidSchema(text) => "InvalidSchema"@ + "("@ + quoted(text@) + ")"@,
            OpenDALExecError::OverwriteError(text) => "OverwriteError"@ + "("@ + quoted(text@)
                + ")"@,
            OpenDALExecError::SendErr(text) => "SendErr"@ + "("@ + quoted(text@) + ")"@,
        },
{
}

/// Results are seen as the values or the errors that they hold.
pub proof fn lemma_results_are_seen<A, B>(
    value: A,
    view: spec_fn(A) -> B,
    error: OpenDALExecError,
    verdict: bool,
    text: Option<String>,
)
    ensures
        result_view(Ok(value), view) == Ok::<B, ErrorView>(view(value)),
        result_view(Err(error), view) == Err::<B, ErrorView>(error@),
        verdict_view(Ok(verdict)) == Ok::<bool, ErrorView>(verdict),
        verdict_view(Err(error)) == Err::<bool, ErrorView>(error@),
        choice_view(Choice::Value(text)) == Choice::Value(text_view(text)),
        choice_view(Choice::Contradiction) == Choice::<Seq<char>>::Contradiction,
{
}

/// A store, a plan and a scan that begins are seen part by part.
pub proof fn lemma_plans_are_seen(
    store: StoreInfo,
    listing: Listing,
    scan: Scan,
    error: OpenDALExecError,
)
    ensures
        store@.scheme == store.scheme@,
        store@.root == store.root@,
        store@.name == store.name@,
        ScanPlan::Skip@ == PlanView::Skip,
        ScanPlan::List(listing)@ == (PlanView::List {
            path: listing.path@,
            recursive: listing.recursive,
            limit: listing.limit,
        }),
        begun_view(Ok(Some((listing, scan)))) == Ok::<
            Option<(PlanView, ScanView)>,
            ErrorView,
        >(Some((ScanPlan::List(listing)@, scan@))),
        begun_view(Ok(None)) == Ok::<Option<(PlanView, ScanView)>, ErrorView>(None),
        begun_view(Err(error)) == Err::<Option<(PlanView, ScanView)>, ErrorView>(
            error@,
        ),
{
}

/// Rows, and the columns that they share, are seen field by field.
pub proof fn lemma_rows_are_seen(row: Row, constants: Constants)
    ensures
        row@.parent == row.parent@,
        row@.path == row.path@,
        row@.name == row.name@,
        row@.is_file == row.is_file,
        row@.size == row.size,
        row@.content_type == match row.content_type {
            Some(text) => Some(text@),
            None => None,
        },
        row@.last_modified == row.last_modified,
        constants@.uri == constants.uri@,
        constants@.namespace == match constants.namespace {
            Some(text) => Some(text@),
            None => None,
        },
        constants@.root == constants.root@,
        constants@.recursive == constants.recursive,
{
}

/// What a store says is seen field by field.
pub proof fn lemma_entries_are_seen(entry: Entry, metadata: Metadata, blob: Option<Vec<u8>>)
    ensures
        entry@.path == entry.path@,
        entry@.name == entry.name@,
        entry@.mode == entry.mode,
        metadata@.content_length == metadata.content_length,
        metadata@.content_type == match metadata.content_type {
            Some(text) => Some(text@),
            None => None,
        },
        metadata@.last_modified == metadata.last_modified,
        Event::Listed(entry)@ == EventView::Listed(entry@),
        Event::Ended@ == EventView::Ended,
        Event::Described(metadata)@ == EventView::Described(metadata@),
        Event::Collected(blob)@ == EventView::Collected(
            match blob {
                Some(bytes) => Some(bytes@),
                None => None,
            },
        ),
{
}

/// The phases of a scan and what it asks for are seen as they are.
pub proof fn lemma_phases_are_seen(entry: Entry, row: Row, last: bool, path: String)
    ensures
        Phase::Listing@ == PhaseView::Listing,
        Phase::Describing(entry)@ == PhaseView::Describing(entry@),
        Phase::Collecting(row)@ == PhaseView::Collecting(row@),
        (Phase::Flushing { last })@ == (PhaseView::Flushing { last }),
        Phase::Finished@ == PhaseView::Finished,
        Phase::Failed@ == PhaseView::Failed,
        Action::Next@ == ActionView::Next,
        Action::Describe(path)@ == ActionView::Describe(path@),
        Action::Read(path)@ == ActionView::Read(path@),
        Action::Keep@ == ActionView::Keep,
        Action::Flush@ == ActionView::Flush,
        Action::Finish@ == ActionView::Finish,
{
}

/// Files, fields and projections are seen part by part.
pub proof fn lemma_parts_are_seen(
    files: Seq<FileWrite>,
    fields: Seq<Field>,
    indices: &Vec<usize>,
    i: int,
)
    ensures
        files_view(files).len() == files.len(),
        0 <= i < files.len() ==> files_view(files)[i].path == files[i].path@,
        0 <= i < files.len() ==> files_view(files)[i].blob == files[i].blob@,
        fields_view(fields).len() == fields.len(),
        0 <= i < fields.len() ==> {
            &&& fields_view(fields)[i].name == fields[i].name@
            &&& fields_view(fields)[i].data_type == fields[i].data_type
            &&& fields_view(fields)[i].nullable == fields[i].nullable
        },
        projection_view(Some(indices)) == Some(indices@),
        projection_view(None) is None,
{
}

/// The columns of a batch are seen value by value, under the type of their values.
pub proof fn lemma_columns_are_seen(
    strings: Seq<String>,
    optional_strings: Seq<Option<String>>,
    truths: Seq<bool>,
    blobs: Seq<Option<Vec<u8>>>,
    counts: Seq<u64>,
    moments: Seq<Option<i64>>,
    i: int,
)
    ensures
        texts(strings) is Utf8 && texts(strings)->Utf8_0.len() == strings.len(),
        optional_texts(optional_strings) is Utf8 && optional_texts(optional_strings)->Utf8_0.len()
            == optional_strings.len(),
        flags(truths) is Boolean && flags(truths)->Boolean_0.len() == truths.len(),
        blobs_view(blobs) is LargeBinary && blobs_view(blobs)->LargeBinary_0.len() == blobs.len(),
        numbers(counts) is UInt64 && numbers(counts)->UInt64_0.len() == counts.len(),
        times(moments) == ColumnView::TimestampNanosecond(moments),
        0 <= i < strings.len() ==> texts(strings)->Utf8_0[i] == Some(strings[i]@),
        0 <= i < optional_strings.len() ==> optional_texts(optional_strings)->Utf8_0[i]
            == match optional_strings[i] {
            Some(text) => Some(text@),
            None => None,
        },
        0 <= i < truths.len() ==> flags(truths)->Boolean_0[i] == Some(truths[i]),
        0 <= i < blobs.len() ==> blobs_view(blobs)->LargeBinary_0[i] == match blobs[i] {
            Some(bytes) => Some(bytes@),
            None => None,
        },
        0 <= i < counts.len() ==> numbers(counts)->UInt64_0[i] == Some(counts[i]),
{
}

/// A list of columns is seen column by column.
pub proof fn lemma_column_data_is_seen(columns: Seq<ColumnData<'_>>, i: int)
    ensures
        columns_view(columns).len() == columns.len(),
        0 <= i < columns.len() ==> columns_view(columns)[i] == match columns[i] {
            ColumnData::Texts(values) => texts(values@),
            ColumnData::OptionalTexts(values) => optional_texts(values@),
            ColumnData::Flags(values) => flags(values@),
            ColumnData::Blobs(values) => blobs_view(values@),
            ColumnData::Numbers(values) => numbers(values@),
            ColumnData::Times(values) => times(values@),
        },
{
}

} // verus!
