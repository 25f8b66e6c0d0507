//! The renderer: from what running a query gave to the table that shows it.
//!
//! Running the query is left to the caller, who opens a fresh in-memory session
//! for each query and reports what it gave as a [`QueryOutcome`]. What is made
//! of that outcome is decided here.

use vstd::prelude::*;
use crate::batch::{batch_columns, batch_rows, Batch};
use crate::error::{RenderError, RenderErrorView};
use crate::table::{
    all_sound, batch_outcome, cell_text, first_unsound, formats, lemma_all_rows_len,
    lemma_row_of_batch, lemma_rows_aligned, lemma_some_batch_is_first, materialize,
    materialized, row_for, table_of, total_rows, RenderedTable, TableView,
};

verus! {

/// What running one query gave.
pub enum QueryOutcome {
    /// No session could be opened; the text is the engine's message.
    SessionFailed(String),
    /// The query was rejected before it ran; the text is the engine's message.
    CompileFailed(String),
    /// The query failed while it ran; the text is the engine's message.
    ExecutionFailed(String),
    /// The query ran; these are all the batches of its result, in the order in
    /// which the engine produced them.
    Completed(Vec<Batch>),
}

/// The value of a rendering result: the value of the table, or of the error.
pub open spec fn shown(result: Result<RenderedTable, RenderError>) -> Result<
    TableView,
    RenderErrorView,
> {
    match result {
        Ok(table) => Ok(table@),
        Err(error) => Err(error@),
    }
}

/// What rendering the batches of a completed query gives. Without a batch
/// there is no result. Else the header is the column names of the first
/// batch and the rows are those of all batches, in order; or the error of the
/// first batch that fails.
pub open spec fn rendered_batches(batches: Seq<Batch>) -> Result<TableView, RenderErrorView> {
    match materialized(batches) {
        Ok(found) => Ok(table_of(found)),
        Err(error) => Err(error),
    }
}

/// What rendering the outcome of a query gives.
pub open spec fn rendered(outcome: QueryOutcome) -> Result<TableView, RenderErrorView> {
    match outcome {
        QueryOutcome::SessionFailed(text) => Err(RenderErrorView::Session(text@)),
        QueryOutcome::CompileFailed(text) => Err(RenderErrorView::Compile(text@)),
        QueryOutcome::ExecutionFailed(text) => Err(RenderErrorView::Execution(text@)),
        QueryOutcome::Completed(batches) => rendered_batches(batches@),
    }
}

/// Renders the batches of a completed query.
pub fn render_batches(batches: &Vec<Batch>) -> (result: Result<RenderedTable, RenderError>)
    ensures
        shown(result) == rendered_batches(batches@),
        result matches Ok(table) ==> {
            &&& batches.len() > 0
            &&& table@.header.len() == batch_columns(batches[0]).len()
            &&& table@.rows.len() == total_rows(batches@)
            &&& forall|row: int|
                0 <= row < table@.rows.len() ==> (#[trigger] table@.rows[row]).len()
                    == table@.header.len()
        },
{
    match materialize(batches) {
        Ok(found) => Ok(found.render()),
        Err(error) => Err(error),
    }
}

/// Renders the outcome of a query: a table, or the one error that says why
/// there is none.
pub fn render(outcome: &QueryOutcome) -> (result: Result<RenderedTable, RenderError>)
    ensures
        shown(result) == rendered(*outcome),
{
    match outcome {
        QueryOutcome::SessionFailed(text) => Err(RenderError::Session(text.clone())),
        QueryOutcome::CompileFailed(text) => Err(RenderError::Compile(text.clone())),
        QueryOutcome::ExecutionFailed(text) => Err(RenderError::Execution(text.clone())),
        QueryOutcome::Completed(batches) => render_batches(batches),
    }
}

/// A query whose batches all format and all have the M columns of the first,
/// with N rows together, renders to a table with the M column names as its
/// header and N rows of M cells.
pub proof fn lemma_rendered_shape(batches: Seq<Batch>)
    requires
        batches.len() > 0,
        all_sound(batches),
    ensures
        rendered_batches(batches) matches Ok(table) && {
            &&& table.header.len() == batch_columns(batches[0]).len()
            &&& forall|column: int|
                0 <= column < table.header.len() ==> #[trigger] table.header[column]
                    == batch_columns(batches[0])[column].0
            &&& table.rows.len() == total_rows(batches)
            &&& forall|row: int|
                0 <= row < table.rows.len() ==> (#[trigger] table.rows[row]).len()
                    == batch_columns(batches[0]).len()
        },
{
    lemma_all_rows_len(batches);
    assert forall|k: int| 0 <= k < batches.len() implies batch_columns(#[trigger] batches[k])
        == batch_columns(batches[0]) by {
        assert(batch_outcome(batches[0], batches[k]) is Ok);
    }
    lemma_rows_aligned(batches, batches[0]);
}

/// The table holds every cell of every batch, in order: the cell at column
/// `column` of row `row` of the batch at `k` stands under header `column`, in
/// the table's row that comes after all rows of the batches before `k` and
/// the rows before `row` of that batch.
pub proof fn lemma_rendered_cells(batches: Seq<Batch>, k: int, row: int, column: int)
    requires
        all_sound(batches),
        0 <= k < batches.len(),
        0 <= row < batch_rows(batches[k]),
        0 <= column < batch_columns(batches[k]).len(),
    ensures
        rendered_batches(batches) matches Ok(table) && {
            &&& total_rows(batches.take(k)) + row < table.rows.len()
            &&& table.rows[total_rows(batches.take(k)) + row] == row_for(batches[k], row)
            &&& table.rows[total_rows(batches.take(k)) + row][column] == cell_text(
                batches[k],
                column,
                row,
            )
        },
{
    lemma_row_of_batch(batches, k, row);
}

/// A query whose batches have a schema and no rows renders to a table with
/// the full header and no row; it is no error.
pub proof fn lemma_no_rows_is_a_table(batches: Seq<Batch>)
    requires
        batches.len() > 0,
        forall|k: int|
            0 <= k < batches.len() ==> batch_columns(#[trigger] batches[k]) == batch_columns(
                batches[0],
            ) && batch_rows(batches[k]) == 0,
    ensures
        rendered_batches(batches) matches Ok(table) && table.header.len() == batch_columns(
            batches[0],
        ).len() && table.rows.len() == 0,
{
    assert forall|k: int| 0 <= k < batches.len() implies batch_outcome(
        batches[0],
        #[trigger] batches[k],
    ) is Ok by {
        assert(batch_columns(batches[k]) == batch_columns(batches[0]));
        assert(formats(batches[k]));
    }
    lemma_all_rows_len(batches);
    lemma_no_rows_in_total(batches);
}

/// Batches without rows have no rows together.
proof fn lemma_no_rows_in_total(batches: Seq<Batch>)
    requires
        forall|k: int| 0 <= k < batches.len() ==> batch_rows(#[trigger] batches[k]) == 0,
    ensures
        total_rows(batches) == 0,
    decreases batches.len(),
{
    if batches.len() > 0 {
        assert forall|k: int| 0 <= k < batches.drop_last().len() implies batch_rows(
            #[trigger] batches.drop_last()[k],
        ) == 0 by {
            assert(batches.drop_last()[k] == batches[k]);
        }
        lemma_no_rows_in_total(batches.drop_last());
        assert(batches.last() == batches[batches.len() - 1]);
    }
}

/// A completed query has no result exactly when it produced no batch; a batch
/// without rows is a result.
pub proof fn lemma_no_results_means_no_batch(batches: Seq<Batch>)
    ensures
        rendered_batches(batches) == Err::<TableView, RenderErrorView>(RenderErrorView::NoResults)
            <==> batches.len() == 0,
{
    if batches.len() > 0 && !all_sound(batches) {
        let k = choose|k: int|
            0 <= k < batches.len() && !(batch_outcome(batches[0], batches[k]) is Ok);
        lemma_some_batch_is_first(batches, k);
        let bad = choose|j: int| first_unsound(batches, j);
        assert(batch_outcome(batches[0], batches[bad]) is Err);
    }
}

/// A cell that cannot be formatted, in whichever batch it lies, leaves no
/// table: the render fails, and where every batch has the columns of the
/// first it fails with a format error.
pub proof fn lemma_unformattable_cell_fails(batches: Seq<Batch>, k: int)
    requires
        0 <= k < batches.len(),
        !formats(batches[k]),
    ensures
        rendered_batches(batches) is Err,
        (forall|j: int|
            0 <= j < batches.len() ==> batch_columns(#[trigger] batches[j]) == batch_columns(
                batches[0],
            )) ==> rendered_batches(batches)->Err_0 is Format,
{
    assert(batch_outcome(batches[0], batches[k]) is Err);
    let bad = choose|j: int| first_unsound(batches, j);
    lemma_some_batch_is_first(batches, k);
    assert(first_unsound(batches, bad));
}

/// A batch whose columns are not those of the first batch leaves no table.
pub proof fn lemma_differing_columns_fail(batches: Seq<Batch>, k: int)
    requires
        0 <= k < batches.len(),
        batch_columns(batches[k]) != batch_columns(batches[0]),
    ensures
        rendered_batches(batches) is Err,
{
    assert(batch_outcome(batches[0], batches[k]) is Err);
    lemma_some_batch_is_first(batches, k);
}

/// A query that the engine could not run renders to the error of the stage
/// that failed, with the engine's message, and never to a table.
pub proof fn lemma_failed_query_has_no_table(outcome: QueryOutcome)
    requires
        !(outcome is Completed),
    ensures
        rendered(outcome) is Err,
        outcome matches QueryOutcome::SessionFailed(text) ==> rendered(outcome)->Err_0
            == RenderErrorView::Session(text@),
        outcome matches QueryOutcome::CompileFailed(text) ==> rendered(outcome)->Err_0
            == RenderErrorView::Compile(text@),
        outcome matches QueryOutcome::ExecutionFailed(text) ==> rendered(outcome)->Err_0
            == RenderErrorView::Execution(text@),
{
}

} // verus!
