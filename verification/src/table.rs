//! From a batch of query results to a table of display strings.

use vstd::prelude::*;
use crate::batch::{
    batch_cell, batch_columns, batch_rows, column_arrow_type, column_count, column_name,
    failure_message, failure_text, format_cell, row_count, Batch, ZONED_TIMESTAMP_FORMAT,
};
use crate::classify::characters;
use crate::error::{RenderError, RenderErrorView};

verus! {

/// The kind of values that a column holds, as far as the explorer tells kinds
/// apart.
#[derive(Clone, Copy, Debug, PartialEq, Eq, Structural)]
pub enum LogicalType {
    Int,
    Float,
    Text,
    Bool,
    Date,
    Timestamp,
    Null,
    Other,
}

/// Whether `arrow_type` names one of Arrow's eight integer types.
pub open spec fn names_integer(arrow_type: Seq<char>) -> bool {
    ||| arrow_type == "Int8"@
    ||| arrow_type == "Int16"@
    ||| arrow_type == "Int32"@
    ||| arrow_type == "Int64"@
    ||| arrow_type == "UInt8"@
    ||| arrow_type == "UInt16"@
    ||| arrow_type == "UInt32"@
    ||| arrow_type == "UInt64"@
}

/// Whether `arrow_type` names one of Arrow's three floating-point types.
pub open spec fn names_float(arrow_type: Seq<char>) -> bool {
    ||| arrow_type == "Float16"@
    ||| arrow_type == "Float32"@
    ||| arrow_type == "Float64"@
}

/// Whether `arrow_type` names one of Arrow's three string types.
pub open spec fn names_text(arrow_type: Seq<char>) -> bool {
    ||| arrow_type == "Utf8"@
    ||| arrow_type == "LargeUtf8"@
    ||| arrow_type == "Utf8View"@
}

/// Whether `arrow_type` names one of Arrow's two date types.
pub open spec fn names_date(arrow_type: Seq<char>) -> bool {
    ||| arrow_type == "Date32"@
    ||| arrow_type == "Date64"@
}

/// Whether `arrow_type` names a timestamp type, of any unit and time zone.
pub open spec fn names_timestamp(arrow_type: Seq<char>) -> bool {
    "Timestamp("@.is_prefix_of(arrow_type)
}

/// The logical type of a column whose Arrow data type is called `arrow_type`.
/// A type that is none of the seven named kinds is `Other`.
pub open spec fn logical_type_for(arrow_type: Seq<char>) -> LogicalType {
    if names_integer(arrow_type) {
        LogicalType::Int
    } else if names_float(arrow_type) {
        LogicalType::Float
    } else if names_text(arrow_type) {
        LogicalType::Text
    } else if arrow_type == "Boolean"@ {
        LogicalType::Bool
    } else if names_date(arrow_type) {
        LogicalType::Date
    } else if names_timestamp(arrow_type) {
        LogicalType::Timestamp
    } else if arrow_type == "Null"@ {
        LogicalType::Null
    } else {
        LogicalType::Other
    }
}

/// Whether `text` begins with `prefix`.
fn begins_with(text: &Vec<char>, prefix: &str) -> (begins: bool)
    ensures
        begins == prefix@.is_prefix_of(text@),
{
    let wanted = characters(prefix);
    if text.len() < wanted.len() {
        return false;
    }
    let mut i: usize = 0;
    while i < wanted.len()
        invariant
            wanted.len() <= text.len(),
            i <= wanted.len(),
            wanted@ == prefix@,
            forall|j: int| 0 <= j < i ==> text@[j] == wanted@[j],
        decreases wanted.len() - i,
    {
        if text[i] != wanted[i] {
            return false;
        }
        i += 1;
    }
    proof {
        assert(text@.subrange(0, prefix@.len() as int) =~= prefix@);
    }
    true
}

/// Whether `text` reads exactly as `wanted`.
fn reads_as(text: &Vec<char>, wanted: &str) -> (same: bool)
    ensures
        same == (text@ == wanted@),
{
    let begins = begins_with(text, wanted);
    let length = characters(wanted).len();
    proof {
        if begins && text@.len() == wanted@.len() {
            assert(text@ =~= text@.subrange(0, wanted@.len() as int));
        }
    }
    begins && text.len() == length
}

/// The logical type of a column from the name of its Arrow data type.
pub fn logical_type_of(arrow_type: &str) -> (logical: LogicalType)
    ensures
        logical == logical_type_for(arrow_type@),
{
    let name = characters(arrow_type);
    if reads_as(&name, "Int8") || reads_as(&name, "Int16") || reads_as(&name, "Int32")
        || reads_as(&name, "Int64") || reads_as(&name, "UInt8") || reads_as(&name, "UInt16")
        || reads_as(&name, "UInt32") || reads_as(&name, "UInt64") {
        LogicalType::Int
    } else if reads_as(&name, "Float16") || reads_as(&name, "Float32") || reads_as(
        &name,
        "Float64",
    ) {
        LogicalType::Float
    } else if reads_as(&name, "Utf8") || reads_as(&name, "LargeUtf8") || reads_as(
        &name,
        "Utf8View",
    ) {
        LogicalType::Text
    } else if reads_as(&name, "Boolean") {
        LogicalType::Bool
    } else if reads_as(&name, "Date32") || reads_as(&name, "Date64") {
        LogicalType::Date
    } else if begins_with(&name, "Timestamp(") {
        LogicalType::Timestamp
    } else if reads_as(&name, "Null") {
        LogicalType::Null
    } else {
        LogicalType::Other
    }
}

/// A column of a query result.
#[derive(Debug, PartialEq, Eq)]
pub struct Column {
    pub name: String,
    pub logical_type: LogicalType,
}

/// The mathematical value of a [`Column`].
pub struct ColumnView {
    pub name: Seq<char>,
    pub logical_type: LogicalType,
}

impl DeepView for Column {
    type V = ColumnView;

    open spec fn deep_view(&self) -> ColumnView {
        ColumnView { name: self.name@, logical_type: self.logical_type }
    }
}

impl View for Column {
    type V = ColumnView;

    open spec fn view(&self) -> ColumnView {
        self.deep_view()
    }
}

/// What a query gave: its columns in the order of the schema, and the rows of
/// all its batches, each with one display value for each column.
#[derive(Debug, PartialEq, Eq)]
pub struct QueryResult {
    pub columns: Vec<Column>,
    pub rows: Vec<Vec<String>>,
}

/// The mathematical value of a [`QueryResult`].
pub struct QueryResultView {
    pub columns: Seq<ColumnView>,
    pub rows: Seq<Seq<Seq<char>>>,
}

impl View for QueryResult {
    type V = QueryResultView;

    open spec fn view(&self) -> QueryResultView {
        QueryResultView { columns: self.columns.deep_view(), rows: self.rows.deep_view() }
    }
}

impl QueryResultView {
    /// Every row has exactly one value for each column.
    pub open spec fn aligned(self) -> bool {
        forall|row: int| 0 <= row < self.rows.len() ==> (#[trigger] self.rows[row]).len()
            == self.columns.len()
    }
}

/// A table for display: the names of the columns, and the rows of cell texts.
#[derive(Debug, PartialEq, Eq)]
pub struct RenderedTable {
    pub header: Vec<String>,
    pub rows: Vec<Vec<String>>,
}

/// The mathematical value of a [`RenderedTable`].
pub struct TableView {
    pub header: Seq<Seq<char>>,
    pub rows: Seq<Seq<Seq<char>>>,
}

impl View for RenderedTable {
    type V = TableView;

    open spec fn view(&self) -> TableView {
        TableView { header: self.header.deep_view(), rows: self.rows.deep_view() }
    }
}

/// The column at `column` of `batch`: its name, and the logical type that its
/// Arrow data type stands for.
pub open spec fn column_for(batch: Batch, column: int) -> ColumnView {
    ColumnView {
        name: batch_columns(batch)[column].0,
        logical_type: logical_type_for(batch_columns(batch)[column].1),
    }
}

/// The display text of the cell at `row` of column `column`, where the cell
/// can be formatted.
pub open spec fn cell_text(batch: Batch, column: int, row: int) -> Seq<char> {
    batch_cell(batch, column, row)->Ok_0
}

/// The row at `row` of `batch` in display form: the texts of its cells in the
/// order of the columns.
pub open spec fn row_for(batch: Batch, row: int) -> Seq<Seq<char>> {
    Seq::new(batch_columns(batch).len(), |column: int| cell_text(batch, column, row))
}

/// The columns of `batch`, in the order of its schema.
pub open spec fn columns_for(batch: Batch) -> Seq<ColumnView> {
    Seq::new(batch_columns(batch).len(), |column: int| column_for(batch, column))
}

/// The rows of `batch` in display form, in order, where all its cells can be
/// formatted.
pub open spec fn rows_for(batch: Batch) -> Seq<Seq<Seq<char>>> {
    Seq::new(batch_rows(batch), |row: int| row_for(batch, row))
}

/// Whether `row` and `column` name a cell of `batch`.
pub open spec fn in_batch(batch: Batch, row: int, column: int) -> bool {
    0 <= row < batch_rows(batch) && 0 <= column < batch_columns(batch).len()
}

/// Whether the cell at (`row`, `column`) comes before the one at (`other_row`,
/// `other_column`) when the cells are read row by row.
pub open spec fn comes_before(row: int, column: int, other_row: int, other_column: int) -> bool {
    row < other_row || (row == other_row && column < other_column)
}

/// Whether every cell of `batch` can be formatted.
pub open spec fn formats(batch: Batch) -> bool {
    forall|row: int, column: int|
        in_batch(batch, row, column) ==> #[trigger] batch_cell(batch, column, row) is Ok
}

/// Whether the cell at (`row`, `column`) is the first, reading row by row,
/// that cannot be formatted.
pub open spec fn first_failure(batch: Batch, row: int, column: int) -> bool {
    &&& in_batch(batch, row, column)
    &&& batch_cell(batch, column, row) is Err
    &&& forall|r: int, c: int|
        in_batch(batch, r, c) && comes_before(r, c, row, column) ==> #[trigger] batch_cell(
            batch,
            c,
            r,
        ) is Ok
}

/// The error of the first cell of `batch`, reading row by row, that cannot be
/// formatted.
pub open spec fn format_error(batch: Batch) -> RenderErrorView {
    let (row, column) = choose|row: int, column: int| first_failure(batch, row, column);
    RenderErrorView::Format(failure_text(batch_cell(batch, column, row)->Err_0))
}

/// The message of the error for a batch whose columns are not those of the
/// first batch.
pub const COLUMNS_DIFFER: &'static str = "Result batches differ in their columns";

/// What `batch` adds to a result whose columns are those of `first`.
///
/// A batch whose columns are not those of the first, by number, name, type
/// or order, is an execution error: the engine broke its word that one
/// execution has one schema. Else the batch adds its rows, or fails with the
/// error of its first cell that cannot be formatted.
pub open spec fn batch_outcome(first: Batch, batch: Batch) -> Result<
    Seq<Seq<Seq<char>>>,
    RenderErrorView,
> {
    if batch_columns(batch) != batch_columns(first) {
        Err(RenderErrorView::Execution(COLUMNS_DIFFER@))
    } else if formats(batch) {
        Ok(rows_for(batch))
    } else {
        Err(format_error(batch))
    }
}

/// Whether every batch has the columns of the first and cells that can all be
/// formatted.
pub open spec fn all_sound(batches: Seq<Batch>) -> bool {
    forall|k: int| 0 <= k < batches.len() ==> batch_outcome(batches[0], #[trigger] batches[k]) is Ok
}

/// Whether the batch at `k` is the first that fails.
pub open spec fn first_unsound(batches: Seq<Batch>, k: int) -> bool {
    &&& 0 <= k < batches.len()
    &&& batch_outcome(batches[0], batches[k]) is Err
    &&& forall|j: int| 0 <= j < k ==> batch_outcome(batches[0], #[trigger] batches[j]) is Ok
}

/// The rows of all of `batches` in display form: those of the first batch,
/// then those of the second, and so on, each batch's rows in their order.
pub open spec fn all_rows(batches: Seq<Batch>) -> Seq<Seq<Seq<char>>>
    decreases batches.len(),
{
    if batches.len() == 0 {
        Seq::empty()
    } else {
        all_rows(batches.drop_last()) + rows_for(batches.last())
    }
}

/// The number of rows of all of `batches` together.
pub open spec fn total_rows(batches: Seq<Batch>) -> nat
    decreases batches.len(),
{
    if batches.len() == 0 {
        0
    } else {
        total_rows(batches.drop_last()) + batch_rows(batches.last())
    }
}

/// What materializing the batches of one execution gives.
///
/// Without a batch there is no result. Else the columns are those of the
/// first batch and the rows are those of all batches, in order. The batches
/// are taken one after the other; the first that fails, by columns that
/// differ from the first batch's or by a cell that cannot be formatted, gives
/// its error, and nothing of what came before it is kept.
pub open spec fn materialized(batches: Seq<Batch>) -> Result<QueryResultView, RenderErrorView> {
    if batches.len() == 0 {
        Err(RenderErrorView::NoResults)
    } else if all_sound(batches) {
        Ok(QueryResultView { columns: columns_for(batches[0]), rows: all_rows(batches) })
    } else {
        let k = choose|k: int| first_unsound(batches, k);
        Err(batch_outcome(batches[0], batches[k])->Err_0)
    }
}

/// A batch has at most one first failure.
pub proof fn lemma_first_failure_unique(batch: Batch, row: int, column: int, r: int, c: int)
    requires
        first_failure(batch, row, column),
        first_failure(batch, r, c),
    ensures
        row == r && column == c,
{
    if comes_before(r, c, row, column) {
        assert(batch_cell(batch, c, r) is Ok);
    } else if comes_before(row, column, r, c) {
        assert(batch_cell(batch, column, row) is Ok);
    }
}

/// At most one batch is the first that fails.
pub proof fn lemma_first_unsound_unique(batches: Seq<Batch>, k: int, j: int)
    requires
        first_unsound(batches, k),
        first_unsound(batches, j),
    ensures
        k == j,
{
    if k < j {
        assert(batch_outcome(batches[0], batches[k]) is Ok);
    } else if j < k {
        assert(batch_outcome(batches[0], batches[j]) is Ok);
    }
}

/// The rows of all batches are as many as the batches have together.
pub proof fn lemma_all_rows_len(batches: Seq<Batch>)
    ensures
        all_rows(batches).len() == total_rows(batches),
    decreases batches.len(),
{
    if batches.len() > 0 {
        lemma_all_rows_len(batches.drop_last());
    }
}

/// Row `row` of the batch at `k` is the row of the result that has before it
/// all rows of the batches before `k` and the rows before `row` of that
/// batch: no row is left out, none stands twice, and the order is kept.
pub proof fn lemma_row_of_batch(batches: Seq<Batch>, k: int, row: int)
    requires
        0 <= k < batches.len(),
        0 <= row < batch_rows(batches[k]),
    ensures
        total_rows(batches.take(k)) + row < all_rows(batches).len(),
        all_rows(batches)[total_rows(batches.take(k)) + row] == row_for(batches[k], row),
    decreases batches.len(),
{
    lemma_all_rows_len(batches);
    lemma_all_rows_len(batches.drop_last());
    if k == batches.len() - 1 {
        assert(batches.take(k) =~= batches.drop_last());
    } else {
        lemma_row_of_batch(batches.drop_last(), k, row);
        assert(batches.drop_last().take(k) =~= batches.take(k));
    }
}

/// Where every batch has the columns of the first, every row of the result
/// has one cell for each column.
pub proof fn lemma_rows_aligned(batches: Seq<Batch>, first: Batch)
    requires
        forall|k: int|
            0 <= k < batches.len() ==> batch_columns(#[trigger] batches[k]) == batch_columns(
                first,
            ),
    ensures
        forall|row: int|
            0 <= row < all_rows(batches).len() ==> (#[trigger] all_rows(batches)[row]).len()
                == batch_columns(first).len(),
    decreases batches.len(),
{
    if batches.len() > 0 {
        assert forall|k: int| 0 <= k < batches.drop_last().len() implies batch_columns(
            #[trigger] batches.drop_last()[k],
        ) == batch_columns(first) by {
            assert(batches.drop_last()[k] == batches[k]);
        }
        lemma_rows_aligned(batches.drop_last(), first);
        assert(batch_columns(batches.last()) == batch_columns(first)) by {
            assert(batches.last() == batches[batches.len() - 1]);
        }
        let before = all_rows(batches.drop_last());
        assert forall|row: int| 0 <= row < all_rows(batches).len() implies (#[trigger] all_rows(
            batches,
        )[row]).len() == batch_columns(first).len() by {
            if row < before.len() {
                assert(all_rows(batches)[row] == before[row]);
            } else {
                assert(all_rows(batches)[row] == row_for(batches.last(), row - before.len()));
            }
        }
    }
}

/// Where a batch fails, some batch is the first that fails.
pub proof fn lemma_some_batch_is_first(batches: Seq<Batch>, k: int)
    requires
        0 <= k < batches.len(),
        batch_outcome(batches[0], batches[k]) is Err,
    ensures
        exists|j: int| first_unsound(batches, j),
    decreases k,
{
    if forall|j: int| 0 <= j < k ==> batch_outcome(batches[0], #[trigger] batches[j]) is Ok {
        assert(first_unsound(batches, k));
    } else {
        let j = choose|j: int| 0 <= j < k && !(batch_outcome(batches[0], batches[j]) is Ok);
        lemma_some_batch_is_first(batches, j);
    }
}

/// The columns of a batch, read from its schema.
fn read_columns(batch: &Batch) -> (columns: Vec<Column>)
    ensures
        columns.deep_view() == columns_for(*batch),
{
    let width = column_count(batch);
    let mut columns: Vec<Column> = Vec::new();
    let mut column: usize = 0;
    while column < width
        invariant
            width == batch_columns(*batch).len(),
            column <= width,
            columns.deep_view() == Seq::new(column as nat, |i: int| column_for(*batch, i)),
        decreases width - column,
    {
        let ghost before = columns.deep_view();
        let name = column_name(batch, column);
        let arrow_type = column_arrow_type(batch, column);
        let logical_type = logical_type_of(arrow_type.as_str());
        columns.push(Column { name, logical_type });
        column += 1;
        proof {
            assert(columns.deep_view() =~= before.push(column_for(*batch, column - 1)));
            assert(columns.deep_view() =~= Seq::new(column as nat, |i: int| column_for(*batch, i)));
        }
    }
    columns
}

/// Whether `batch` has the columns of `first`: as many, with the same names
/// and Arrow data types, in the same order.
fn same_columns(first: &Batch, batch: &Batch) -> (same: bool)
    ensures
        same == (batch_columns(*batch) == batch_columns(*first)),
{
    let width = column_count(first);
    if column_count(batch) != width {
        return false;
    }
    let mut column: usize = 0;
    while column < width
        invariant
            width == batch_columns(*first).len(),
            width == batch_columns(*batch).len(),
            column <= width,
            forall|i: int|
                0 <= i < column ==> batch_columns(*batch)[i] == batch_columns(*first)[i],
        decreases width - column,
    {
        let names = column_name(batch, column) == column_name(first, column);
        let types = column_arrow_type(batch, column) == column_arrow_type(first, column);
        if !names || !types {
            return false;
        }
        column += 1;
    }
    proof {
        assert(batch_columns(*batch) =~= batch_columns(*first));
    }
    true
}

/// Appends the rows of `batch` in display form to `rows`, cell by cell and
/// row by row, up to the first cell that cannot be formatted.
fn push_rows(batch: &Batch, rows: &mut Vec<Vec<String>>) -> (failure: Option<RenderError>)
    ensures
        match failure {
            None => formats(*batch) && final(rows).deep_view() == old(rows).deep_view() + rows_for(
                *batch,
            ),
            Some(error) => !formats(*batch) && error@ == format_error(*batch),
        },
{
    let ghost before = rows.deep_view();
    let width = column_count(batch);
    let height = row_count(batch);
    let mut row: usize = 0;
    while row < height
        invariant
            width == batch_columns(*batch).len(),
            height == batch_rows(*batch),
            row <= height,
            rows.deep_view() == before + Seq::new(row as nat, |i: int| row_for(*batch, i)),
            forall|r: int, c: int|
                0 <= r < row && 0 <= c < width ==> #[trigger] batch_cell(*batch, c, r) is Ok,
        decreases height - row,
    {
        let ghost rows_before = rows.deep_view();
        let mut cells: Vec<String> = Vec::new();
        let mut column: usize = 0;
        while column < width
            invariant
                width == batch_columns(*batch).len(),
                height == batch_rows(*batch),
                row < height,
                column <= width,
                cells.deep_view() == Seq::new(
                    column as nat,
                    |i: int| cell_text(*batch, i, row as int),
                ),
                forall|r: int, c: int|
                    0 <= r < row && 0 <= c < width ==> #[trigger] batch_cell(*batch, c, r) is Ok,
                forall|c: int|
                    0 <= c < column ==> #[trigger] batch_cell(*batch, c, row as int) is Ok,
            decreases width - column,
        {
            let ghost cells_before = cells.deep_view();
            match format_cell(batch, column, row, ZONED_TIMESTAMP_FORMAT) {
                Ok(text) => {
                    cells.push(text);
                    proof {
                        assert(cells.deep_view() =~= cells_before.push(
                            cell_text(*batch, column as int, row as int),
                        ));
                    }
                },
                Err(failure) => {
                    let error = RenderError::Format(failure_message(&failure));
                    proof {
                        assert(first_failure(*batch, row as int, column as int));
                        let (r, c) = choose|r: int, c: int| first_failure(*batch, r, c);
                        lemma_first_failure_unique(*batch, row as int, column as int, r, c);
                    }
                    return Some(error);
                },
            }
            column += 1;
            proof {
                assert(cells.deep_view() =~= Seq::new(
                    column as nat,
                    |i: int| cell_text(*batch, i, row as int),
                ));
            }
        }
        rows.push(cells);
        row += 1;
        proof {
            assert(cells.deep_view() =~= row_for(*batch, row - 1));
            assert(rows.deep_view() =~= rows_before.push(row_for(*batch, row - 1)));
            assert(rows.deep_view() =~= before + Seq::new(
                row as nat,
                |i: int| row_for(*batch, i),
            ));
        }
    }
    proof {
        assert(formats(*batch));
    }
    None
}

/// Brings the batches of one execution into display form: the columns of the
/// first batch with their logical types, and every cell of every batch as
/// text.
///
/// The batches are taken in order, and in each the cells row by row. The
/// first batch whose columns differ from the first batch's, and the first
/// cell that cannot be formatted, ends the work with its error: there is no
/// partial result.
pub fn materialize(batches: &Vec<Batch>) -> (result: Result<QueryResult, RenderError>)
    ensures
        match result {
            Ok(found) => materialized(batches@) == Ok::<QueryResultView, RenderErrorView>(found@),
            Err(error) => materialized(batches@) == Err::<QueryResultView, RenderErrorView>(
                error@,
            ),
        },
        result matches Ok(found) ==> found@.aligned() && found@.rows.len() == total_rows(
            batches@,
        ),
{
    if batches.len() == 0 {
        return Err(RenderError::NoResults);
    }
    let columns = read_columns(&batches[0]);
    let mut rows: Vec<Vec<String>> = Vec::new();
    let mut k: usize = 0;
    while k < batches.len()
        invariant
            k <= batches.len(),
            batches.len() > 0,
            rows.deep_view() == all_rows(batches@.take(k as int)),
            forall|j: int|
                0 <= j < k ==> batch_outcome(batches@[0], #[trigger] batches@[j]) is Ok,
        decreases batches.len() - k,
    {
        proof {
            let upto = batches@.take(k + 1);
            assert(upto.drop_last() =~= batches@.take(k as int));
            assert(upto.last() == batches@[k as int]);
        }
        if !same_columns(&batches[0], &batches[k]) {
            let error = RenderError::Execution(String::from_str(COLUMNS_DIFFER));
            proof {
                assert(first_unsound(batches@, k as int));
                let j = choose|j: int| first_unsound(batches@, j);
                lemma_first_unsound_unique(batches@, k as int, j);
            }
            return Err(error);
        }
        match push_rows(&batches[k], &mut rows) {
            Some(error) => {
                proof {
                    assert(first_unsound(batches@, k as int));
                    let j = choose|j: int| first_unsound(batches@, j);
                    lemma_first_unsound_unique(batches@, k as int, j);
                }
                return Err(error);
            },
            None => {},
        }
        k += 1;
    }
    let found = QueryResult { columns, rows };
    proof {
        assert(batches@.take(k as int) =~= batches@);
        assert(all_sound(batches@));
        lemma_all_rows_len(batches@);
        assert forall|j: int| 0 <= j < batches@.len() implies batch_columns(
            #[trigger] batches@[j],
        ) == batch_columns(batches@[0]) by {
            assert(batch_outcome(batches@[0], batches@[j]) is Ok);
        }
        lemma_rows_aligned(batches@, batches@[0]);
    }
    Ok(found)
}

/// The table that shows `result`: the names of its columns as the header, and
/// its rows as they are.
pub open spec fn table_of(result: QueryResultView) -> TableView {
    TableView {
        header: Seq::new(result.columns.len(), |column: int| result.columns[column].name),
        rows: result.rows,
    }
}

/// A copy of `texts`.
fn copy_texts(texts: &Vec<String>) -> (copy: Vec<String>)
    ensures
        copy.deep_view() == texts.deep_view(),
{
    let mut copy: Vec<String> = Vec::new();
    let mut i: usize = 0;
    while i < texts.len()
        invariant
            i <= texts.len(),
            copy.deep_view() == texts.deep_view().take(i as int),
        decreases texts.len() - i,
    {
        let ghost before = copy.deep_view();
        copy.push(texts[i].clone());
        i += 1;
        proof {
            assert(copy.deep_view() =~= before.push(texts[i - 1]@));
            assert(copy.deep_view() =~= texts.deep_view().take(i as int));
        }
    }
    proof {
        assert(texts.deep_view().take(i as int) =~= texts.deep_view());
    }
    copy
}

impl QueryResult {
    /// The table that shows this result.
    pub fn render(&self) -> (table: RenderedTable)
        ensures
            table@ == table_of(self@),
    {
        let mut header: Vec<String> = Vec::new();
        let mut column: usize = 0;
        while column < self.columns.len()
            invariant
                column <= self.columns.len(),
                header.deep_view() == table_of(self@).header.take(column as int),
            decreases self.columns.len() - column,
        {
            let ghost before = header.deep_view();
            header.push(self.columns[column].name.clone());
            column += 1;
            proof {
                assert(header.deep_view() =~= before.push(self.columns[column - 1].name@));
                assert(header.deep_view() =~= table_of(self@).header.take(column as int));
            }
        }
        let mut rows: Vec<Vec<String>> = Vec::new();
        let mut row: usize = 0;
        while row < self.rows.len()
            invariant
                row <= self.rows.len(),
                rows.deep_view() == self.rows.deep_view().take(row as int),
            decreases self.rows.len() - row,
        {
            let ghost before = rows.deep_view();
            rows.push(copy_texts(&self.rows[row]));
            row += 1;
            proof {
                assert(rows.deep_view() =~= before.push(self.rows[row - 1].deep_view()));
                assert(rows.deep_view() =~= self.rows.deep_view().take(row as int));
            }
        }
        proof {
            assert(header.deep_view() =~= table_of(self@).header);
            assert(rows.deep_view() =~= self.rows.deep_view());
        }
        RenderedTable { header, rows }
    }
}

} // verus!
