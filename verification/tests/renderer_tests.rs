use crush::stream::Printer;
use crush::stream_printer::{
    batch_is_full, calculate_body_width, calculate_header_width, header_text, print,
    print_binary, print_internal, print_partial, print_value, row_text, schema_flags, BATCH_SIZE,
};
use crush::time::Duration;
use crush::types::{ColumnType, ValueType};
use crush::value::{BinaryReader, Row, Rows, Stream, Value};

fn pair(name: &str, n: i128) -> Row {
    Row { cells: vec![Value::text(name), Value::Integer(n)] }
}

fn pair_schema() -> Vec<ColumnType> {
    vec![ColumnType::named("name", ValueType::Text), ColumnType::named("n", ValueType::Integer)]
}

fn printed(value: Value) -> Vec<String> {
    assert!(value.is_printable());
    let mut printer = Printer::new();
    print_value(&mut printer, value);
    assert!(printer.errors.is_empty());
    printer.lines
}

#[test]
fn a_column_is_as_wide_as_its_label_or_its_widest_cell() {
    let types = vec![
        ColumnType::named("a_long_label", ValueType::Text),
        ColumnType::named("n", ValueType::Integer),
        ColumnType::unnamed(ValueType::Text),
    ];
    let data = vec![
        Row { cells: vec![Value::text("x"), Value::Integer(1), Value::text("abc")] },
        Row { cells: vec![Value::text("xyz"), Value::Integer(12345), Value::text("")] },
    ];
    let mut w = vec![0; 3];
    calculate_header_width(&mut w, &types, true);
    assert_eq!(w, vec![12, 1, 0]);
    calculate_body_width(&mut w, &data, 3);
    assert_eq!(w, vec![12, 5, 3]);
    let mut unnamed = vec![0; 3];
    calculate_header_width(&mut unnamed, &types, false);
    assert_eq!(unnamed, vec![0, 0, 0]);
    calculate_body_width(&mut unnamed, &data, 3);
    assert_eq!(unnamed, vec![3, 5, 3]);
    let mut longer = vec![0, 0, 0, 7, 9];
    calculate_header_width(&mut longer, &types, true);
    calculate_body_width(&mut longer, &data, 3);
    assert_eq!(longer, vec![12, 5, 3, 7, 9]);
    let mut wide = vec![0; 1];
    calculate_body_width(&mut wide, &vec![Row { cells: vec![Value::text("é")] }], 1);
    assert_eq!(wide, vec![2]);
}

#[test]
fn header_and_rows_are_set_in_columns() {
    let types = pair_schema();
    let w = vec![6, 2];
    assert_eq!(header_text(&w, &types, ""), "name   n");
    assert_eq!(header_text(&w, &types, "    "), "    name   n");
    assert_eq!(row_text(&w, &pair("a", 1), ""), "a       1");
    assert_eq!(row_text(&vec![1, 3], &pair("a", 7), ""), "a   7");
    let float = Value::Float(crush::value::Float { bits: 0x3ff8000000000000, text: String::from("1.5") });
    assert_eq!(row_text(&vec![5, 1], &Row { cells: vec![float, Value::text("x")] }, ""), "  1.5 x");
    assert_eq!(row_text(&vec![1, 1, 9], &pair("a", 7), ""), "a 7");
    assert_eq!(header_text(&vec![6, 0, 9], &types, ""), "name   n");
    assert_eq!(row_text(&w, &pair("bbbbbb", 22), ""), "bbbbbb 22");
    let numbers = Row { cells: vec![Value::Integer(7), Value::Integer(8), Value::text("x")] };
    assert_eq!(row_text(&vec![3, 3, 3], &numbers, "  "), "    7   8 x");
    let spans = Row {
        cells: vec![Value::Duration(Duration::from_secs(61)), Value::Bool(true), Value::Empty],
    };
    assert_eq!(row_text(&vec![6, 5, 7], &spans, ""), "  1:01 true  <empty>");
    assert_eq!(row_text(&vec![], &Row { cells: vec![] }, "    "), "    ");
}

#[test]
fn a_table_is_printed_under_its_header() {
    let table = Value::Rows(Rows {
        types: pair_schema(),
        rows: vec![pair("a", 1), pair("bbbbbb", 22)],
    });
    assert_eq!(printed(table), vec!["name   n", "a       1", "bbbbbb 22"]);
}

#[test]
fn a_table_without_names_has_no_header() {
    let table = Value::Rows(Rows {
        types: vec![ColumnType::unnamed(ValueType::Integer), ColumnType::unnamed(ValueType::Text)],
        rows: vec![
            Row { cells: vec![Value::Integer(1), Value::text("x")] },
            Row { cells: vec![Value::Integer(100), Value::text("y")] },
        ],
    });
    assert_eq!(printed(table), vec!["  1 x", "100 y"]);
}

#[test]
fn a_stream_is_printed_like_a_table_and_left_empty() {
    let mut stream = Stream::new(pair_schema(), vec![pair("a", 1), pair("b", 2)]);
    let mut printer = Printer::new();
    print(&mut printer, &mut stream);
    assert_eq!(printer.lines, vec!["name n", "a    1", "b    2"]);
    assert!(matches!(stream.read(), crush::value::ReadOutcome::Ended));
    let mut failing = Stream::failing(pair_schema(), vec![pair("a", 1)]);
    let mut printer = Printer::new();
    print_internal(&mut printer, &mut failing, 2);
    assert_eq!(printer.lines, vec!["        name n", "        a    1"]);
}

#[test]
fn an_empty_table_prints_nothing() {
    assert!(printed(Value::Rows(Rows { types: pair_schema(), rows: vec![] })).is_empty());
    assert!(printed(Value::empty_stream()).is_empty());
}

#[test]
fn rows_are_printed_in_batches_with_their_own_widths() {
    let mut rows: Vec<Row> = Vec::new();
    for i in 0..49 {
        rows.push(pair("a", i));
    }
    rows.push(pair("a_much_longer_name", 49));
    rows.push(pair("b", 50));
    let lines = printed(Value::Rows(Rows { types: pair_schema(), rows }));
    assert_eq!(lines.len(), 1 + 49 + 1 + 2);
    assert_eq!(lines[0], "name n");
    assert_eq!(lines[1], "a     0");
    assert_eq!(lines[49], "a    48");
    assert_eq!(lines[50], "name               n");
    assert_eq!(lines[51], "a_much_longer_name 49");
    assert_eq!(lines[52], "b                  50");
    let mut exact: Vec<Row> = Vec::new();
    for i in 0..98 {
        exact.push(pair("a", i));
    }
    let lines = printed(Value::Rows(Rows { types: pair_schema(), rows: exact }));
    assert_eq!(lines.len(), 2 * 50);
    assert_eq!(lines[50], "name n");
}

#[test]
fn print_partial_prints_one_batch() {
    let mut printer = Printer::new();
    print_partial(&mut printer, vec![pair("a", 1)], &pair_schema(), true, "");
    print_partial(&mut printer, vec![pair("b", 2)], &pair_schema(), false, "    ");
    assert_eq!(printer.lines, vec!["name n", "a    1", "    b 2"]);
}

#[test]
fn nested_tables_are_printed_below_their_row() {
    let inner = |k: i128| {
        Value::Rows(Rows {
            types: vec![ColumnType::named("k", ValueType::Integer)],
            rows: vec![Row { cells: vec![Value::Integer(k)] }, Row { cells: vec![Value::Integer(k + 1)] }],
        })
    };
    let types = vec![
        ColumnType::named("name", ValueType::Text),
        ColumnType::named("t", ValueType::Rows(vec![ColumnType::named("k", ValueType::Integer)])),
    ];
    let table = Value::Rows(Rows {
        types,
        rows: vec![
            Row { cells: vec![Value::text("first"), inner(1)] },
            Row { cells: vec![Value::text("x"), inner(10)] },
        ],
    });
    assert_eq!(
        printed(table),
        vec![
            "name  t",
            "first <Rows>",
            "    k",
            "    1",
            "    2",
            "name t",
            "x    <Rows>",
            "    k",
            "    10",
            "    11",
        ]
    );
}

#[test]
fn nested_values_come_by_kind_and_the_deepest_first() {
    let deep = Value::Stream(Stream::new(
        vec![ColumnType::unnamed(ValueType::Rows(vec![]))],
        vec![Row {
            cells: vec![Value::Rows(Rows {
                types: vec![ColumnType::unnamed(ValueType::Text)],
                rows: vec![Row { cells: vec![Value::text("leaf")] }],
            })],
        }],
    ));
    let table = Value::Rows(Rows {
        types: vec![
            ColumnType::unnamed(ValueType::Binary),
            ColumnType::unnamed(ValueType::Stream(vec![])),
            ColumnType::unnamed(ValueType::Rows(vec![])),
            ColumnType::unnamed(ValueType::Text),
        ],
        rows: vec![Row {
            cells: vec![
                Value::BinaryReader(BinaryReader { content: String::from("raw\nbytes\n") }),
                deep,
                Value::Rows(Rows {
                    types: vec![ColumnType::unnamed(ValueType::Text)],
                    rows: vec![Row { cells: vec![Value::text("table")] }],
                }),
                Value::text("end"),
            ],
        }],
    });
    assert_eq!(
        printed(table),
        vec![
            "<binary> <Output> <Rows> end",
            "    table",
            "    <Rows>",
            "        leaf",
            "    raw",
            "    bytes",
        ]
    );
}

#[test]
fn binary_content_is_printed_line_by_line() {
    let lines = |content: &str| {
        let mut printer = Printer::new();
        print_binary(&mut printer, content, "");
        printer.lines
    };
    assert_eq!(lines("a\nb"), vec!["a", "b"]);
    assert_eq!(lines("a\nb\n"), vec!["a", "b"]);
    assert_eq!(lines("\n\nx"), vec!["", "", "x"]);
    assert_eq!(lines("no newline"), vec!["no newline"]);
    assert_eq!(lines("a\r\nb"), vec!["a\r", "b"]);
    assert!(lines("").is_empty());
    let mut printer = Printer::new();
    print_binary(&mut printer, "a\n\nb", "  ");
    assert_eq!(printer.lines, vec!["  a", "  ", "  b"]);
    assert_eq!(
        printed(Value::BinaryReader(BinaryReader { content: String::from("x\ny") })),
        vec!["x", "y"]
    );
}

#[test]
fn any_other_value_is_printed_as_its_text() {
    assert_eq!(printed(Value::Integer(12)), vec!["12"]);
    assert_eq!(printed(Value::text("two\nlines")), vec!["two\nlines"]);
    assert_eq!(printed(Value::Empty), vec!["<empty>"]);
}

#[test]
fn a_table_with_a_short_row_is_not_printable() {
    let table = Value::Rows(Rows {
        types: pair_schema(),
        rows: vec![pair("a", 1), Row { cells: vec![Value::text("b")] }],
    });
    assert!(!table.is_printable());
    let nested = Value::Rows(Rows {
        types: vec![ColumnType::unnamed(ValueType::Rows(vec![]))],
        rows: vec![Row {
            cells: vec![Value::Rows(Rows {
                types: pair_schema(),
                rows: vec![Row { cells: vec![] }],
            })],
        }],
    });
    assert!(!nested.is_printable());
    let stream = Stream::new(pair_schema(), vec![pair("a", 1), Row { cells: vec![] }]);
    assert!(!stream.is_printable());
    assert!(Stream::new(pair_schema(), vec![pair("a", 1)]).is_printable());
    assert!(Value::Integer(1).is_printable());
}

#[test]
fn a_batch_is_full_at_its_size_or_at_once_for_tables() {
    assert_eq!(BATCH_SIZE, 49);
    assert!(!batch_is_full(1, false));
    assert!(!batch_is_full(48, false));
    assert!(batch_is_full(49, false));
    assert!(batch_is_full(1, true));
    assert_eq!(schema_flags(&pair_schema()), (true, false));
    assert_eq!(schema_flags(&vec![ColumnType::unnamed(ValueType::Text)]), (false, false));
    assert_eq!(
        schema_flags(&vec![
            ColumnType::unnamed(ValueType::Stream(vec![])),
            ColumnType::named("n", ValueType::Text),
        ]),
        (true, true)
    );
    assert_eq!(schema_flags(&vec![ColumnType::unnamed(ValueType::Rows(vec![]))]), (false, true));
    assert_eq!(schema_flags(&vec![ColumnType::unnamed(ValueType::Row(vec![]))]), (false, false));
    assert_eq!(schema_flags(&vec![]), (false, false));
    assert!(crush::value::printable_rows_of(&vec![pair("a", 1)], 2));
    assert!(!crush::value::printable_rows_of(&vec![pair("a", 1)], 3));
}
