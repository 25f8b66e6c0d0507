use std::sync::Arc;

use arrow::array::{
    ArrayRef, BinaryArray, BooleanArray, Date32Array, Float64Array, Int32Array, Int64Array,
    ListArray, NullArray, StringArray, TimestampSecondArray,
};
use arrow::datatypes::{DataType, Date32Type, Field, Schema, TimeUnit};
use arrow::record_batch::RecordBatch;
use data_explorer::batch::Batch;
use data_explorer::error::RenderError;
use data_explorer::render::{render, render_batches, QueryOutcome};
use data_explorer::table::{
    logical_type_of, materialize, Column, LogicalType, QueryResult, RenderedTable,
};

fn batch(columns: Vec<(&str, ArrayRef)>) -> Batch {
    let fields: Vec<Field> = columns
        .iter()
        .map(|(name, array)| Field::new(*name, array.data_type().clone(), true))
        .collect();
    let arrays: Vec<ArrayRef> = columns.into_iter().map(|(_, array)| array).collect();
    Batch { inner: RecordBatch::try_new(Arc::new(Schema::new(fields)), arrays).unwrap() }
}

fn texts(row: &[&str]) -> Vec<String> {
    row.iter().map(|cell| cell.to_string()).collect()
}

/// What `SELECT 1 AS x, 'hi' AS y` hands over: one batch of one row.
fn one_and_hi() -> Batch {
    batch(vec![
        ("x", Arc::new(Int32Array::from(vec![1])) as ArrayRef),
        ("y", Arc::new(StringArray::from(vec!["hi"])) as ArrayRef),
    ])
}

/// A column whose time zone Arrow cannot read, so that none of its cells can be formatted.
fn unreadable_zone() -> ArrayRef {
    Arc::new(TimestampSecondArray::from(vec![0, 60]).with_timezone("Nowhere/Special"))
}

#[test]
fn select_one_and_hi() {
    let table = render(&QueryOutcome::Completed(vec![one_and_hi()])).unwrap();
    assert_eq!(table.header, texts(&["x", "y"]));
    assert_eq!(table.rows, vec![texts(&["1", "hi"])]);
}

#[test]
fn a_table_has_the_shape_of_its_batch() {
    let found = batch(vec![
        ("id", Arc::new(Int64Array::from(vec![10, 20, 30, 40])) as ArrayRef),
        ("name", Arc::new(StringArray::from(vec!["a", "b", "c", "d"])) as ArrayRef),
        ("score", Arc::new(Float64Array::from(vec![1.5, 2.0, -0.25, 1e10])) as ArrayRef),
    ]);
    let table = render_batches(&vec![found]).unwrap();
    assert_eq!(table.header.len(), 3);
    assert_eq!(table.rows.len(), 4);
    for row in &table.rows {
        assert_eq!(row.len(), 3);
    }
    assert_eq!(
        table,
        RenderedTable {
            header: texts(&["id", "name", "score"]),
            rows: vec![
                texts(&["10", "a", "1.5"]),
                texts(&["20", "b", "2.0"]),
                texts(&["30", "c", "-0.25"]),
                texts(&["40", "d", "10000000000.0"]),
            ],
        }
    );
}

#[test]
fn a_result_without_rows_is_a_table_with_its_header() {
    let schema = Schema::new(vec![
        Field::new("x", DataType::Int32, true),
        Field::new("y", DataType::Utf8, true),
    ]);
    let empty = Batch { inner: RecordBatch::new_empty(Arc::new(schema)) };
    let table = render(&QueryOutcome::Completed(vec![empty])).unwrap();
    assert_eq!(table.header, texts(&["x", "y"]));
    assert!(table.rows.is_empty());
}

#[test]
fn a_result_without_rows_is_a_table_whatever_its_types() {
    let none = batch(vec![("at", Arc::new(
        TimestampSecondArray::from(Vec::<i64>::new()).with_timezone("Nowhere/Special"),
    ) as ArrayRef)]);
    let table = render_batches(&vec![none]).unwrap();
    assert_eq!(table.header, texts(&["at"]));
    assert!(table.rows.is_empty());
}

#[test]
fn create_table_yields_no_results() {
    // A statement without a result schema, such as `CREATE TABLE t(x INT)`, hands over no batch.
    let result = render(&QueryOutcome::Completed(vec![]));
    assert_eq!(result, Err(RenderError::NoResults));
    assert_eq!(render_batches(&vec![]), Err(RenderError::NoResults));
}

#[test]
fn no_results_differs_from_no_rows() {
    let schema = Schema::new(vec![Field::new("x", DataType::Int32, true)]);
    let empty = Batch { inner: RecordBatch::new_empty(Arc::new(schema)) };
    assert!(render_batches(&vec![empty]).is_ok());
    assert!(render_batches(&vec![]).is_err());
}

#[test]
fn an_invalid_query_yields_its_error_and_no_table() {
    let message = "Parser Error: syntax error at or near \"SELEC\"";
    let result = render(&QueryOutcome::CompileFailed(message.to_string()));
    assert_eq!(result, Err(RenderError::Compile(message.to_string())));
    let result = render(&QueryOutcome::ExecutionFailed("Conversion Error".to_string()));
    assert_eq!(result, Err(RenderError::Execution("Conversion Error".to_string())));
    let result = render(&QueryOutcome::SessionFailed("IO Error".to_string()));
    assert_eq!(result, Err(RenderError::Session("IO Error".to_string())));
}

#[test]
fn errors_carry_the_message_to_show() {
    assert_eq!(RenderError::Session("no session".to_string()).message(), "no session");
    assert_eq!(RenderError::Compile("bad syntax".to_string()).message(), "bad syntax");
    assert_eq!(RenderError::Execution("bad value".to_string()).message(), "bad value");
    assert_eq!(RenderError::Format("bad cell".to_string()).message(), "bad cell");
    assert_eq!(RenderError::NoResults.message(), "No results returned");
}

fn numbers(name: &str, values: Vec<i32>) -> Batch {
    batch(vec![(name, Arc::new(Int32Array::from(values)) as ArrayRef)])
}

#[test]
fn the_table_shows_the_rows_of_every_batch() {
    let table =
        render_batches(&vec![numbers("n", vec![1, 2]), numbers("n", vec![3, 4, 5])]).unwrap();
    assert_eq!(table.header, texts(&["n"]));
    assert_eq!(
        table.rows,
        vec![texts(&["1"]), texts(&["2"]), texts(&["3"]), texts(&["4"]), texts(&["5"])]
    );
}

#[test]
fn two_batches_of_one_row_give_two_rows() {
    let outcome = QueryOutcome::Completed(vec![numbers("x", vec![1]), numbers("x", vec![2])]);
    assert_eq!(
        render(&outcome),
        Ok(RenderedTable { header: texts(&["x"]), rows: vec![texts(&["1"]), texts(&["2"])] })
    );
}

#[test]
fn the_rows_are_as_many_as_all_batches_have() {
    let batches = vec![
        numbers("n", vec![]),
        numbers("n", vec![7; 3]),
        numbers("n", vec![]),
        numbers("n", vec![8; 4]),
        numbers("n", vec![9]),
    ];
    let table = render_batches(&batches).unwrap();
    assert_eq!(table.rows.len(), 8);
    let cells: Vec<&str> = table.rows.iter().map(|row| row[0].as_str()).collect();
    assert_eq!(cells, vec!["7", "7", "7", "8", "8", "8", "8", "9"]);
}

#[test]
fn batches_without_rows_are_a_table_without_rows() {
    let table = render_batches(&vec![numbers("n", vec![]), numbers("n", vec![])]).unwrap();
    assert_eq!(table, RenderedTable { header: texts(&["n"]), rows: vec![] });
}

#[test]
fn a_cell_of_a_later_batch_that_cannot_be_formatted_fails_the_render() {
    let good = batch(vec![("at", Arc::new(Date32Array::from(vec![0, 1])) as ArrayRef)]);
    let bad = batch(vec![("at", Arc::new(Date32Array::from(vec![2, i32::MAX])) as ArrayRef)]);
    match render_batches(&vec![good, bad]) {
        Err(RenderError::Format(message)) => {
            assert!(message.contains("2147483647"), "{}", message);
        }
        other => panic!("expected a format error, got {:?}", other),
    }
}

#[test]
fn a_failure_inside_a_list_fails_the_cell() {
    let lists = ListArray::from_iter_primitive::<Date32Type, _, _>(vec![
        Some(vec![Some(0), Some(1)]),
        Some(vec![Some(i32::MAX)]),
    ]);
    let found = batch(vec![("days", Arc::new(lists) as ArrayRef)]);
    assert!(matches!(render_batches(&vec![found]), Err(RenderError::Format(_))));
    let lists = ListArray::from_iter_primitive::<Date32Type, _, _>(vec![
        Some(vec![Some(0), Some(1)]),
        Some(vec![None]),
    ]);
    let found = batch(vec![("days", Arc::new(lists) as ArrayRef)]);
    let table = render_batches(&vec![found]).unwrap();
    assert_eq!(table.rows, vec![texts(&["[1970-01-01, 1970-01-02]"]), texts(&["[]"])]);
}

#[test]
fn a_later_batch_with_other_columns_is_an_execution_error() {
    let differ = Err(RenderError::Execution("Result batches differ in their columns".to_string()));
    let pair = |name: &str, other: &str| {
        batch(vec![
            (name, Arc::new(Int32Array::from(vec![1])) as ArrayRef),
            (other, Arc::new(StringArray::from(vec!["a"])) as ArrayRef),
        ])
    };
    // Another name.
    assert_eq!(render_batches(&vec![numbers("n", vec![1]), numbers("m", vec![2])]), differ);
    // Another type.
    let longs = batch(vec![("n", Arc::new(Int64Array::from(vec![2_i64])) as ArrayRef)]);
    assert_eq!(render_batches(&vec![numbers("n", vec![1]), longs]), differ);
    // More columns, and fewer.
    assert_eq!(render_batches(&vec![numbers("x", vec![1]), pair("x", "y")]), differ);
    assert_eq!(render_batches(&vec![pair("x", "y"), numbers("x", vec![1])]), differ);
    // Another order.
    let turned = batch(vec![
        ("y", Arc::new(StringArray::from(vec!["a"])) as ArrayRef),
        ("x", Arc::new(Int32Array::from(vec![1])) as ArrayRef),
    ]);
    assert_eq!(render_batches(&vec![pair("x", "y"), turned]), differ);
    // The same columns.
    assert!(render_batches(&vec![pair("x", "y"), pair("x", "y")]).is_ok());
}

#[test]
fn the_first_batch_that_fails_gives_the_error() {
    let bad = batch(vec![("n", Arc::new(Date32Array::from(vec![i32::MAX])) as ArrayRef)]);
    let days = batch(vec![("n", Arc::new(Date32Array::from(vec![0])) as ArrayRef)]);
    // The second batch cannot be formatted, the third has another column.
    let result = render_batches(&vec![days, bad, numbers("m", vec![1])]);
    assert!(matches!(result, Err(RenderError::Format(_))));
    let bad = batch(vec![("n", Arc::new(Date32Array::from(vec![i32::MAX])) as ArrayRef)]);
    let days = batch(vec![("n", Arc::new(Date32Array::from(vec![0])) as ArrayRef)]);
    // The second batch has another column, the third cannot be formatted.
    let result = render_batches(&vec![days, numbers("m", vec![1]), bad]);
    assert!(matches!(result, Err(RenderError::Execution(_))));
}

#[test]
fn a_zoned_timestamp_shows_its_offset() {
    let found = batch(vec![
        ("utc", Arc::new(TimestampSecondArray::from(vec![0]).with_timezone("+00:00")) as ArrayRef),
        ("east", Arc::new(TimestampSecondArray::from(vec![0]).with_timezone("+05:30")) as ArrayRef),
        ("none", Arc::new(TimestampSecondArray::from(vec![0])) as ArrayRef),
    ]);
    let table = render_batches(&vec![found]).unwrap();
    assert_eq!(
        table.rows,
        vec![texts(&["1970-01-01T00:00:00+00:00", "1970-01-01T05:30:00+05:30", "1970-01-01T00:00:00"])]
    );
}

#[test]
fn cells_are_formatted_as_arrow_displays_them() {
    let found = batch(vec![
        ("flag", Arc::new(BooleanArray::from(vec![Some(true), Some(false), None])) as ArrayRef),
        ("day", Arc::new(Date32Array::from(vec![Some(0), Some(19000), None])) as ArrayRef),
        ("at", Arc::new(TimestampSecondArray::from(vec![Some(0), Some(86_400), None])) as ArrayRef),
        ("text", Arc::new(StringArray::from(vec![Some(""), Some("a b"), None])) as ArrayRef),
        ("nothing", Arc::new(NullArray::new(3)) as ArrayRef),
    ]);
    let table = render_batches(&vec![found]).unwrap();
    assert_eq!(
        table.rows,
        vec![
            texts(&["true", "1970-01-01", "1970-01-01T00:00:00", "", ""]),
            texts(&["false", "2022-01-08", "1970-01-02T00:00:00", "a b", ""]),
            texts(&["", "", "", "", ""]),
        ]
    );
}

#[test]
fn columns_carry_their_logical_type() {
    let found = batch(vec![
        ("i", Arc::new(Int32Array::from(vec![1])) as ArrayRef),
        ("f", Arc::new(Float64Array::from(vec![0.5])) as ArrayRef),
        ("t", Arc::new(StringArray::from(vec!["x"])) as ArrayRef),
        ("b", Arc::new(BooleanArray::from(vec![true])) as ArrayRef),
        ("d", Arc::new(Date32Array::from(vec![1])) as ArrayRef),
        ("s", Arc::new(TimestampSecondArray::from(vec![1])) as ArrayRef),
        ("z", Arc::new(TimestampSecondArray::from(vec![1]).with_timezone("+01:00")) as ArrayRef),
        ("n", Arc::new(NullArray::new(1)) as ArrayRef),
        ("o", Arc::new(BinaryArray::from_vec(vec![&b"\x01\xff"[..]])) as ArrayRef),
    ]);
    let result = materialize(&vec![found]).unwrap();
    let column = |name: &str, logical_type: LogicalType| Column {
        name: name.to_string(),
        logical_type,
    };
    assert_eq!(
        result,
        QueryResult {
            columns: vec![
                column("i", LogicalType::Int),
                column("f", LogicalType::Float),
                column("t", LogicalType::Text),
                column("b", LogicalType::Bool),
                column("d", LogicalType::Date),
                column("s", LogicalType::Timestamp),
                column("z", LogicalType::Timestamp),
                column("n", LogicalType::Null),
                column("o", LogicalType::Other),
            ],
            rows: vec![texts(&[
                "1",
                "0.5",
                "x",
                "true",
                "1970-01-02",
                "1970-01-01T00:00:01",
                "1970-01-01T01:00:01+01:00",
                "",
                "01ff",
            ])],
        }
    );
}

#[test]
fn logical_types_follow_the_names_of_arrow_types() {
    for name in ["Int8", "Int16", "Int32", "Int64", "UInt8", "UInt16", "UInt32", "UInt64"] {
        assert_eq!(logical_type_of(name), LogicalType::Int);
    }
    for name in ["Float16", "Float32", "Float64"] {
        assert_eq!(logical_type_of(name), LogicalType::Float);
    }
    for name in ["Utf8", "LargeUtf8", "Utf8View"] {
        assert_eq!(logical_type_of(name), LogicalType::Text);
    }
    assert_eq!(logical_type_of("Boolean"), LogicalType::Bool);
    assert_eq!(logical_type_of("Date32"), LogicalType::Date);
    assert_eq!(logical_type_of("Date64"), LogicalType::Date);
    assert_eq!(logical_type_of("Timestamp(ns)"), LogicalType::Timestamp);
    assert_eq!(logical_type_of("Timestamp(s, \"UTC\")"), LogicalType::Timestamp);
    assert_eq!(logical_type_of("Null"), LogicalType::Null);
    for name in ["", "Binary", "Decimal128(10, 2)", "Timestamp", "int32", "Int", "Int320", "List(Int32)"] {
        assert_eq!(logical_type_of(name), LogicalType::Other);
    }
}

#[test]
fn logical_types_agree_with_arrow() {
    let unit = DataType::Timestamp(TimeUnit::Nanosecond, Some("UTC".into()));
    assert_eq!(logical_type_of(&DataType::Int16.to_string()), LogicalType::Int);
    assert_eq!(logical_type_of(&DataType::UInt64.to_string()), LogicalType::Int);
    assert_eq!(logical_type_of(&DataType::Float32.to_string()), LogicalType::Float);
    assert_eq!(logical_type_of(&DataType::LargeUtf8.to_string()), LogicalType::Text);
    assert_eq!(logical_type_of(&DataType::Boolean.to_string()), LogicalType::Bool);
    assert_eq!(logical_type_of(&DataType::Date64.to_string()), LogicalType::Date);
    assert_eq!(logical_type_of(&unit.to_string()), LogicalType::Timestamp);
    assert_eq!(logical_type_of(&DataType::Null.to_string()), LogicalType::Null);
    assert_eq!(logical_type_of(&DataType::Time32(TimeUnit::Second).to_string()), LogicalType::Other);
}

#[test]
fn a_cell_that_cannot_be_formatted_fails_the_whole_render() {
    let found = batch(vec![
        ("n", Arc::new(Int32Array::from(vec![1, 2])) as ArrayRef),
        ("at", unreadable_zone()),
    ]);
    let result = render_batches(&vec![found]);
    match result {
        Err(RenderError::Format(message)) => {
            assert!(message.contains("Nowhere/Special"), "{}", message);
        }
        other => panic!("expected a format error, got {:?}", other),
    }
}

#[test]
fn a_format_error_carries_what_arrow_reports() {
    let found = batch(vec![("at", unreadable_zone())]);
    let expected = arrow::util::display::ArrayFormatter::try_new(
        found.inner.column(0).as_ref(),
        &arrow::util::display::FormatOptions::default(),
    )
    .err()
    .unwrap()
    .to_string();
    assert_eq!(materialize(&vec![found]), Err(RenderError::Format(expected)));
}

#[test]
fn a_table_is_marked_up_cell_by_cell() {
    let table = render(&QueryOutcome::Completed(vec![one_and_hi()])).unwrap();
    assert_eq!(
        data_explorer::markup::table_to_markup(&table),
        "<table id=\"table\" class=\"table table-md table-pin-rows\"><thead><tr><th>x</th><th>y</th></tr></thead><tbody><tr><td>1</td><td>hi</td></tr></tbody></table>"
    );
}

#[test]
fn an_empty_table_is_marked_up_without_rows() {
    let table = RenderedTable { header: texts(&["only"]), rows: vec![] };
    assert_eq!(
        data_explorer::markup::table_to_markup(&table),
        "<table id=\"table\" class=\"table table-md table-pin-rows\"><thead><tr><th>only</th></tr></thead><tbody></tbody></table>"
    );
    let table = RenderedTable { header: vec![], rows: vec![vec![], vec![]] };
    assert_eq!(
        data_explorer::markup::table_to_markup(&table),
        "<table id=\"table\" class=\"table table-md table-pin-rows\"><thead><tr></tr></thead><tbody><tr></tr><tr></tr></tbody></table>"
    );
}

#[test]
fn texts_are_marked_up_as_they_are() {
    let table = RenderedTable { header: texts(&["a<b"]), rows: vec![texts(&["x & y"])] };
    assert_eq!(
        data_explorer::markup::table_to_markup(&table),
        "<table id=\"table\" class=\"table table-md table-pin-rows\"><thead><tr><th>a<b</th></tr></thead><tbody><tr><td>x & y</td></tr></tbody></table>"
    );
}

#[test]
fn a_zoned_timestamp_at_the_edge_of_time_is_shown() {
    let last = 8_210_266_876_799_i64;
    let first = -8_334_601_228_800_i64;
    let found = batch(vec![
        ("late", Arc::new(TimestampSecondArray::from(vec![last, 0]).with_timezone("+01:00")) as ArrayRef),
        ("early", Arc::new(TimestampSecondArray::from(vec![first, 0]).with_timezone("-01:00")) as ArrayRef),
    ]);
    let table = render_batches(&vec![found]).unwrap();
    assert_eq!(
        table.rows,
        vec![
            texts(&["+262143-01-01T00:59:59+01:00", "-262144-12-31T23:00:00-01:00"]),
            texts(&["1970-01-01T01:00:00+01:00", "1969-12-31T23:00:00-01:00"]),
        ]
    );
}

#[test]
fn materializing_no_batch_is_no_result() {
    assert_eq!(materialize(&vec![]), Err(RenderError::NoResults));
}
