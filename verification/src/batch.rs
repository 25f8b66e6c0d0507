//! A batch of query results, as the engine hands it over in Arrow form, and
//! the few things that the library asks of it.
//!
//! Nothing in this file is proved. Each function states what the Arrow
//! function that it calls is documented to do; the rest of the library is
//! verified against these statements.

use vstd::prelude::*;
use arrow::error::ArrowError;
use arrow::record_batch::RecordBatch;
use arrow::util::display::{ArrayFormatter, FormatOptions};

verus! {

/// One batch of a query's result: `arrow::record_batch::RecordBatch`, a schema
/// of named, typed columns and one array of values for each of them, all of
/// one length.
///
/// Arrow's type cannot be declared to the verifier as it is, because one of
/// its trait impls hands out a trait object. So it is held in this struct, of
/// which the verifier sees the name and nothing else; `Batch { inner }` makes
/// one from the batch that the engine produced.
#[verifier::external_body]
pub struct Batch {
    pub inner: RecordBatch,
}

/// `arrow::error::ArrowError`: what Arrow reports when a value cannot be
/// formatted.
#[verifier::external_type_specification]
#[verifier::external_body]
pub struct ExArrowError(ArrowError);

/// The columns of a batch in the order of its schema, each as the pair of its
/// name and of the name of its Arrow data type (as `DataType` displays it:
/// `Int32`, `Utf8`, `Timestamp(ns)`).
pub uninterp spec fn batch_columns(batch: Batch) -> Seq<(Seq<char>, Seq<char>)>;

/// The number of rows of a batch.
pub uninterp spec fn batch_rows(batch: Batch) -> nat;

/// What formatting the value at `row` of column `column` gives, with zoned
/// timestamps shown by [`ZONED_TIMESTAMP_FORMAT`] and every other value as
/// Arrow shows it by default: its display text, or the error that Arrow
/// reports.
pub uninterp spec fn batch_cell(batch: Batch, column: int, row: int) -> Result<
    Seq<char>,
    ArrowError,
>;

/// The text that an Arrow error displays as.
pub uninterp spec fn failure_text(failure: ArrowError) -> Seq<char>;

/// `RecordBatch::num_columns`: the number of column arrays, which every
/// constructor of a batch holds equal to the number of fields of the schema.
#[verifier::external_body]
pub(crate) fn column_count(batch: &Batch) -> (count: usize)
    ensures
        count == batch_columns(*batch).len(),
{
    batch.inner.num_columns()
}

/// `RecordBatch::num_rows`: the number of rows, which is the length of every
/// column array.
#[verifier::external_body]
pub(crate) fn row_count(batch: &Batch) -> (count: usize)
    ensures
        count == batch_rows(*batch),
{
    batch.inner.num_rows()
}

/// `Schema::field` and `Field::name`: the name of the column at `column`.
/// `Schema::field` panics on an index past the last field, so the index is
/// required to be in range.
#[verifier::external_body]
pub(crate) fn column_name(batch: &Batch, column: usize) -> (name: String)
    requires
        column < batch_columns(*batch).len(),
    ensures
        name@ == batch_columns(*batch)[column as int].0,
{
    batch.inner.schema_ref().field(column).name().clone()
}

/// `Field::data_type` and the `Display` of `DataType`: the name of the data
/// type of the column at `column`, for an index in range.
#[verifier::external_body]
pub(crate) fn column_arrow_type(batch: &Batch, column: usize) -> (name: String)
    requires
        column < batch_columns(*batch).len(),
    ensures
        name@ == batch_columns(*batch)[column as int].1,
{
    batch.inner.schema_ref().field(column).data_type().to_string()
}

/// The pattern by which a timestamp with a time zone is shown: RFC 3339, with
/// as many digits of the second's fraction as the value has, and the offset
/// in hours and minutes.
pub const ZONED_TIMESTAMP_FORMAT: &'static str = "%+";

/// `ArrayFormatter::try_new` on the column's array, then
/// `ArrayFormatter::value` and `ValueFormatter::try_to_string`: the display
/// text of one cell, or Arrow's error where the data type or the value cannot
/// be formatted.
///
/// The options are Arrow's defaults but for two. Errors are not written into
/// the text (`with_display_error(false)`), so that a failure inside a list or
/// a struct fails the cell. Zoned timestamps are shown by the pattern
/// `zoned` (`with_timestamp_tz_format`): chrono then takes the local time
/// without a range check, where the default path unwinds on a local time past
/// the last or before the first datetime that chrono holds.
///
/// Both indices are required to be in range, since `RecordBatch::column` and
/// the array accessors panic past the end. The text depends on the batch and
/// the two indices alone.
#[verifier::external_body]
pub(crate) fn format_cell(batch: &Batch, column: usize, row: usize, zoned: &str) -> (text: Result<
    String,
    ArrowError,
>)
    requires
        column < batch_columns(*batch).len(),
        row < batch_rows(*batch),
        zoned@ == ZONED_TIMESTAMP_FORMAT@,
    ensures
        match text {
            Ok(shown) => batch_cell(*batch, column as int, row as int) == Ok::<
                Seq<char>,
                ArrowError,
            >(shown@),
            Err(failure) => batch_cell(*batch, column as int, row as int) == Err::<
                Seq<char>,
                ArrowError,
            >(failure),
        },
{
    let options =
        FormatOptions::default().with_display_error(false).with_timestamp_tz_format(Some(zoned));
    ArrayFormatter::try_new(batch.inner.column(column).as_ref(), &options)?.value(row).try_to_string()
}

/// The `Display` of `ArrowError`, through `to_string`: the text of a failure.
#[verifier::external_body]
pub(crate) fn failure_message(failure: &ArrowError) -> (text: String)
    ensures
        text@ == failure_text(*failure),
{
    failure.to_string()
}

} // verus!
