use crush::cast::is_supported;
use crush::errors::{ErrorKind, JobError};
use crush::glob::Glob;
use crush::hash::hash_of;
use crush::order::{file_result_compare, Paths};
use crush::text::{integer_text, parse_integer, Comparison};
use crush::time::{duration_format, Duration, Time};
use crush::types::{ColumnType, ValueType};
use crush::value::{
    Alignment, BinaryReader, Closure, Command, Dict, Env, FilePath, Float, List, ReadOutcome, Row,
    Rows, Stream, Struct, Value,
};

fn file(name: &str) -> Value {
    Value::File(FilePath { bytes: name.as_bytes().to_vec() })
}

fn glob(pattern: &str) -> Value {
    Value::Glob(Glob::new(pattern))
}

fn regex(pattern: &str) -> Value {
    Value::Regex(String::from(pattern), regex::Regex::new(pattern).unwrap())
}

fn broken_file() -> Value {
    Value::File(FilePath { bytes: vec![0x66, 0x6f, 0xff, 0x6f] })
}

fn small_table() -> Rows {
    Rows {
        types: vec![
            ColumnType::named("name", ValueType::Text),
            ColumnType::named("n", ValueType::Integer),
        ],
        rows: vec![
            Row { cells: vec![Value::text("a"), Value::Integer(1)] },
            Row { cells: vec![Value::text("b"), Value::Integer(2)] },
        ],
    }
}

#[test]
fn text_casts() {
    assert_eq!(Value::Text(String::from("112432")).cast(ValueType::Integer).is_err(), false);
    assert_eq!(Value::text("1d").cast(ValueType::Integer).is_err(), true);
    assert_eq!(Value::text("1d").cast(ValueType::Glob).is_err(), false);
    assert_eq!(Value::text("1d").cast(ValueType::File).is_err(), false);
    assert_eq!(Value::text("1d").cast(ValueType::Time).is_err(), true);
    assert_eq!(Value::text("fad").cast(ValueType::Field).is_err(), false);
    assert_eq!(Value::text("fad").cast(ValueType::Op).is_err(), false);
}

#[test]
fn test_duration_format() {
    assert_eq!(duration_format(&Duration::from_micros(0)), "0".to_string());
    assert_eq!(duration_format(&Duration::from_micros(1)), "0.000001".to_string());
    assert_eq!(duration_format(&Duration::from_micros(100)), "0.0001".to_string());
    assert_eq!(duration_format(&Duration::from_millis(1)), "0.001".to_string());
    assert_eq!(duration_format(&Duration::from_millis(1000)), "1".to_string());
    assert_eq!(duration_format(&Duration::from_millis(1000 * 61)), "1:01".to_string());
    assert_eq!(duration_format(&Duration::from_millis(1000 * 3601)), "1:00:01".to_string());
    assert_eq!(
        duration_format(&Duration::from_millis(1000 * (3600 * 24 * 3 + 1))),
        "3d0:00:01".to_string()
    );
    assert_eq!(
        duration_format(&Duration::from_millis(1000 * (3600 * 24 * 365 * 10 + 1))),
        "10y0d0:00:01".to_string()
    );
    assert_eq!(
        duration_format(&Duration::from_millis(1000 * (3600 * 24 * 365 * 10 + 1) + 1)),
        "10y0d0:00:01".to_string()
    );
}

#[test]
fn duration_format_where_one_form_gives_way_to_the_next() {
    assert_eq!(duration_format(&Duration::from_millis(1500)), "1.5");
    assert_eq!(duration_format(&Duration::from_micros(59_999_999)), "59.999999");
    assert_eq!(duration_format(&Duration::from_secs(60)), "1:00");
    assert_eq!(duration_format(&Duration::from_millis(60_500)), "1:00");
    assert_eq!(duration_format(&Duration::from_secs(3600)), "1:00:00");
    assert_eq!(duration_format(&Duration::from_secs(86_400)), "1d0:00:00");
    assert_eq!(duration_format(&Duration::from_secs(86_400 * 365)), "1y0d0:00:00");
    assert_eq!(duration_format(&Duration::from_secs(86_400 * 366 + 3723)), "1y1d1:02:03");
    assert_eq!(duration_format(&Duration::new(0, 999)), "0");
    assert_eq!(duration_format(&Duration::new(12, 340_000_000)), "12.34");
}

#[test]
fn duration_parts_and_order() {
    let d = Duration::new(3, 500);
    assert_eq!(d.as_secs(), 3);
    assert_eq!(d.subsec_nanos(), 500);
    assert_eq!(d.as_micros(), 3_000_000);
    assert_eq!(Duration::from_millis(1001).as_micros(), 1_001_000);
    assert_eq!(Duration::from_micros(7).subsec_nanos(), 7000);
    assert_eq!(Duration::from_secs(1).compare(&Duration::from_millis(999)), Comparison::Greater);
    assert_eq!(Duration::from_secs(1).compare(&Duration::from_millis(1000)), Comparison::Equal);
    assert_eq!(Duration::from_micros(1).compare(&Duration::from_micros(2)), Comparison::Less);
    assert_eq!(Duration::from_secs(90).to_string(), "1:30");
}

#[test]
fn integers_are_written_and_read_in_decimal() {
    assert_eq!(integer_text(0), "0");
    assert_eq!(integer_text(7), "7");
    assert_eq!(integer_text(-12), "-12");
    assert_eq!(integer_text(1234567890), "1234567890");
    assert_eq!(integer_text(i128::MAX), "170141183460469231731687303715884105727");
    assert_eq!(integer_text(i128::MIN), "-170141183460469231731687303715884105728");
    assert_eq!(parse_integer("0"), Some(0));
    assert_eq!(parse_integer("-12"), Some(-12));
    assert_eq!(parse_integer("+12"), Some(12));
    assert_eq!(parse_integer("007"), Some(7));
    assert_eq!(parse_integer("170141183460469231731687303715884105727"), Some(i128::MAX));
    assert_eq!(parse_integer("-170141183460469231731687303715884105728"), Some(i128::MIN));
    assert_eq!(parse_integer("170141183460469231731687303715884105728"), None);
    assert_eq!(parse_integer("-170141183460469231731687303715884105729"), None);
    assert_eq!(parse_integer("99999999999999999999999999999999999999999999"), None);
    assert_eq!(parse_integer(""), None);
    assert_eq!(parse_integer("-"), None);
    assert_eq!(parse_integer("+"), None);
    assert_eq!(parse_integer("1d"), None);
    assert_eq!(parse_integer("1 "), None);
    assert_eq!(parse_integer("--1"), None);
    assert_eq!(parse_integer("١٢"), None);
}

#[test]
fn to_string_of_each_kind() {
    assert_eq!(Value::text("hello").to_string(), "hello");
    assert_eq!(Value::Integer(-42).to_string(), "-42");
    assert_eq!(
        Value::Field(vec![String::from("a"), String::from("b"), String::from("c")]).to_string(),
        "%a.b.c"
    );
    assert_eq!(Value::Field(vec![String::from("a")]).to_string(), "%a");
    assert_eq!(glob("*.txt").to_string(), "*{*.txt}");
    assert_eq!(regex("a+b").to_string(), "r{a+b}");
    assert_eq!(Value::op("==").to_string(), "==");
    assert_eq!(Value::Bool(true).to_string(), "true");
    assert_eq!(Value::Bool(false).to_string(), "false");
    assert_eq!(Value::Empty.to_string(), "<empty>");
    assert_eq!(Value::empty_stream().to_string(), "<Output>");
    assert_eq!(Value::Rows(small_table()).to_string(), "<Rows>");
    assert_eq!(
        Value::BinaryReader(BinaryReader { content: String::from("x") }).to_string(),
        "<binary>"
    );
    assert_eq!(file("/tmp/x").to_string(), "/tmp/x");
    assert_eq!(broken_file().to_string(), "<Broken file>");
    assert_eq!(Value::Command(Command { name: String::from("ls") }).to_string(), "Command");
    assert_eq!(Value::Closure(Closure { source: String::from("{ls}") }).to_string(), "{ls}");
    assert_eq!(Value::Env(Env { description: String::from("global") }).to_string(), "global");
    assert_eq!(
        Value::Float(Float { bits: 0x3ff8000000000000, text: String::from("1.5") }).to_string(),
        "1.5"
    );
    assert_eq!(Value::Duration(Duration::from_millis(61_000)).to_string(), "1:01");
    assert_eq!(Value::Type(ValueType::Integer).to_string(), "integer");
    assert_eq!(
        Value::List(List {
            cell_type: ValueType::Integer,
            cells: vec![Value::Integer(1), Value::Integer(2)],
        })
        .to_string(),
        "[1, 2]"
    );
    assert_eq!(
        Value::Struct(Struct {
            types: vec![ColumnType::unnamed(ValueType::Text)],
            cells: vec![Value::text("x")],
        })
        .to_string(),
        "{x}"
    );
    assert_eq!(
        Value::Dict(Dict {
            key_type: ValueType::Text,
            value_type: ValueType::Integer,
            entries: vec![(Value::text("a"), Value::Integer(1)), (Value::text("b"), Value::Integer(2))],
        })
        .to_string(),
        "{a: 1, b: 2}"
    );
}

#[test]
fn time_is_written_by_date_clock_and_offset() {
    let epoch = Time::new(0, 0, 0).unwrap();
    assert_eq!(epoch.to_string(), "1970-01-01 00:00:00 +0000");
    let later = Time::new(1_431_648_000, 0, 3600).unwrap();
    assert_eq!(later.to_string(), "2015-05-15 01:00:00 +0100");
    let west = Time::new(1_431_648_000, 500, -5 * 3600 - 1800).unwrap();
    assert_eq!(west.to_string(), "2015-05-14 18:30:00 -0530");
    assert_eq!(Value::Time(later).to_string(), "2015-05-15 01:00:00 +0100");
    assert_eq!(later.timestamp(), 1_431_648_000);
    assert_eq!(west.subsec_nanos(), 500);
    assert_eq!(west.offset(), -19800);
}

#[test]
fn the_calendar_ends_where_it_is_said_to_end() {
    let last = Time::new(8_210_266_876_799, 999_999_999, 0).unwrap();
    assert_eq!(last.to_string(), "+262142-12-31 23:59:59 +0000");
    assert!(Time::new(8_210_266_876_800, 0, 0).is_none());
    let first = Time::new(-8_334_601_228_800, 0, 0).unwrap();
    assert_eq!(first.to_string(), "-262143-01-01 00:00:00 +0000");
    assert!(Time::new(-8_334_601_228_801, 0, 0).is_none());
    assert!(Time::new(8_210_266_876_799, 0, 86_399).unwrap().to_string().starts_with("+262143-01-01 "));
    assert!(Time::new(-8_334_601_228_800, 0, -86_399).unwrap().to_string().starts_with("-262144-12-31 "));
    assert_eq!(Time::new(0, 0, 3_599).unwrap().to_string(), "1970-01-01 00:59:59 +0100");
    assert_eq!(Time::new(0, 0, -1_800).unwrap().to_string(), "1969-12-31 23:30:00 -0030");
    let leap = Time::new(59, 1_500_000_000, 0).unwrap();
    assert_eq!(leap.to_string(), "1970-01-01 00:00:60 +0000");
    assert!(Time::new(58, 1_000_000_000, 0).is_none());
    assert!(Time::new(60, 1_000_000_000, 0).is_none());
    assert!(Time::new(59, 1_999_999_999, 0).is_some());
    assert!(Time::new(59, 2_000_000_000, 0).is_none());
    let before = Time::new(-1, 1_000_000_000, 0).unwrap();
    assert_eq!(before.to_string(), "1969-12-31 23:59:60 +0000");
    assert!(Time::new(-2, 1_000_000_000, 0).is_none());
    assert!(Time::new(-61, 1_000_000_000, 0).is_some());
    assert!(Time::new(-60, 1_000_000_000, 0).is_none());
    assert!(Time::new(0, 999_999_999, 0).is_some());
}

#[test]
fn time_outside_the_calendar_is_refused() {
    assert!(Time::new(0, 0, 86_400).is_none());
    assert!(Time::new(0, 0, -86_400).is_none());
    assert!(Time::new(i64::MAX, 0, 0).is_none());
    assert!(Time::new(0, 2_000_000_000, 0).is_none());
    assert!(Time::new(0, 0, 86_399).is_some());
}

#[test]
fn time_order_ignores_the_clock() {
    let a = Time::new(100, 0, 0).unwrap();
    let b = Time::new(100, 0, 7200).unwrap();
    let c = Time::new(100, 1, 0).unwrap();
    let d = Time::new(99, 999, 0).unwrap();
    assert_eq!(a.compare(&b), Comparison::Equal);
    assert_eq!(a.compare(&c), Comparison::Less);
    assert_eq!(a.compare(&d), Comparison::Greater);
    let paths = Paths::new();
    assert!(Value::Time(a).eq(&Value::Time(b), &paths));
    assert!(!Value::Time(a).eq(&Value::Time(c), &paths));
}

#[test]
fn alignment_is_right_for_numbers_and_times() {
    assert_eq!(Value::Integer(1).alignment(), Alignment::Right);
    assert_eq!(Value::Duration(Duration::from_secs(1)).alignment(), Alignment::Right);
    assert_eq!(Value::Time(Time::new(0, 0, 0).unwrap()).alignment(), Alignment::Right);
    assert_eq!(
        Value::Float(Float { bits: 0x3ff8000000000000, text: String::from("1.5") }).alignment(),
        Alignment::Right
    );
    assert_eq!(Value::text("1").alignment(), Alignment::Left);
    assert_eq!(Value::Bool(true).alignment(), Alignment::Left);
    assert_eq!(Value::Empty.alignment(), Alignment::Left);
}

#[test]
fn value_type_reads_the_schema_from_the_value() {
    assert!(Value::text("a").value_type().same(&ValueType::Text));
    assert!(Value::Integer(1).value_type().same(&ValueType::Integer));
    assert!(Value::Empty.value_type().same(&ValueType::Empty));
    assert!(Value::Type(ValueType::Text).value_type().same(&ValueType::Type));
    let expected = ValueType::Rows(vec![
        ColumnType::named("name", ValueType::Text),
        ColumnType::named("n", ValueType::Integer),
    ]);
    assert!(Value::Rows(small_table()).value_type().same(&expected));
    let other = ValueType::Rows(vec![ColumnType::named("name", ValueType::Text)]);
    assert!(!Value::Rows(small_table()).value_type().same(&other));
    let list = Value::List(List { cell_type: ValueType::Bool, cells: vec![] });
    assert!(list.value_type().same(&ValueType::List(Box::new(ValueType::Bool))));
    assert!(Value::empty_stream().value_type().same(&ValueType::Stream(vec![])));
    let t = small_table();
    let stream = Value::Stream(Stream::new(t.types, t.rows));
    assert!(stream.value_type().same(&ValueType::Stream(vec![
        ColumnType::named("name", ValueType::Text),
        ColumnType::named("n", ValueType::Integer),
    ])));
}

#[test]
fn cast_to_the_own_type_gives_the_value_back() {
    assert_eq!(Value::text("x").cast(ValueType::Text).unwrap().to_string(), "x");
    assert_eq!(Value::Integer(5).cast(ValueType::Integer).unwrap().to_string(), "5");
    assert_eq!(Value::Bool(true).cast(ValueType::Bool).unwrap().to_string(), "true");
    let schema = Value::Rows(small_table()).value_type();
    let kept = Value::Rows(small_table()).cast(schema).unwrap();
    assert!(kept.eq(&Value::Rows(small_table()), &Paths::new()));
    assert!(broken_file().cast(ValueType::File).is_ok());
}

#[test]
fn cast_results_by_pair() {
    assert_eq!(Value::text("12").cast(ValueType::Integer).unwrap().to_string(), "12");
    assert!(Value::text("+012").cast(ValueType::Integer).unwrap().eq(&Value::Integer(12), &Paths::new()));
    assert_eq!(Value::text("a*").cast(ValueType::Glob).unwrap().to_string(), "*{a*}");
    assert_eq!(Value::text("a.b").cast(ValueType::Field).unwrap().to_string(), "%a.b");
    assert_eq!(Value::text("a+").cast(ValueType::Regex).unwrap().to_string(), "r{a+}");
    match Value::text("a+").cast(ValueType::Regex).unwrap() {
        Value::Regex(text, compiled) => {
            assert_eq!(text, "a+");
            assert_eq!(compiled.as_str(), "a+");
            assert!(compiled.is_match("caab"));
        }
        _ => panic!("a regular expression was asked for"),
    }
    match regex("b+").partial_clone().unwrap() {
        Value::Regex(text, compiled) => {
            assert_eq!(text, "b+");
            assert!(compiled.is_match("abb") && !compiled.is_match("a"));
        }
        _ => panic!("a copy is of the kind of what was copied"),
    }
    assert_eq!(Value::text("/x").cast(ValueType::File).unwrap().to_string(), "/x");
    assert_eq!(Value::text(">=").cast(ValueType::Op).unwrap().to_string(), ">=");
    let ty = Value::text("list<integer>").cast(ValueType::Type).unwrap();
    assert!(matches!(ty, Value::Type(ValueType::List(_))));
    assert_eq!(ty.to_string(), "list<integer>");
    assert_eq!(Value::Integer(-3).cast(ValueType::Text).unwrap().to_string(), "-3");
    assert_eq!(Value::Integer(-3).cast(ValueType::File).unwrap().to_string(), "-3");
    assert_eq!(Value::Integer(-3).cast(ValueType::Glob).unwrap().to_string(), "*{-3}");
    assert_eq!(Value::Integer(-3).cast(ValueType::Field).unwrap().to_string(), "%-3");
    assert_eq!(Value::Integer(-3).cast(ValueType::Op).unwrap().to_string(), "-3");
    assert_eq!(Value::Integer(3).cast(ValueType::Regex).unwrap().to_string(), "r{3}");
    assert_eq!(file("17").cast(ValueType::Integer).unwrap().to_string(), "17");
    assert_eq!(file("a").cast(ValueType::Text).unwrap().to_string(), "a");
    assert_eq!(file("a").cast(ValueType::Glob).unwrap().to_string(), "*{a}");
    assert_eq!(file("a").cast(ValueType::Op).unwrap().to_string(), "a");
    assert_eq!(file("a").cast(ValueType::Regex).unwrap().to_string(), "r{a}");
    assert_eq!(glob("a?").cast(ValueType::Text).unwrap().to_string(), "a?");
    assert_eq!(glob("a?").cast(ValueType::File).unwrap().to_string(), "a?");
    assert_eq!(glob("12").cast(ValueType::Integer).unwrap().to_string(), "12");
    assert_eq!(glob("a?").cast(ValueType::Op).unwrap().to_string(), "a?");
    assert_eq!(glob("a?").cast(ValueType::Regex).unwrap().to_string(), "r{a?}");
    assert_eq!(regex("a|b").cast(ValueType::Text).unwrap().to_string(), "a|b");
    assert_eq!(regex("a|b").cast(ValueType::File).unwrap().to_string(), "a|b");
    assert_eq!(regex("a|b").cast(ValueType::Glob).unwrap().to_string(), "*{a|b}");
    assert_eq!(regex("12").cast(ValueType::Integer).unwrap().to_string(), "12");
    assert_eq!(regex("a|b").cast(ValueType::Op).unwrap().to_string(), "a|b");
    assert_eq!(
        Value::Type(ValueType::Dict(Box::new(ValueType::Text), Box::new(ValueType::Integer)))
            .cast(ValueType::Text)
            .unwrap()
            .to_string(),
        "dict<text,integer>"
    );
}

#[test]
fn cast_failures_by_kind() {
    let unsupported = Value::text("x").cast(ValueType::Bool).unwrap_err();
    assert_eq!(unsupported, JobError::UnsupportedConversion);
    assert_eq!(unsupported.kind(), ErrorKind::Conversion);
    assert_eq!(unsupported.message(), "Unimplemented conversion");
    let number = Value::text("x").cast(ValueType::Integer).unwrap_err();
    assert_eq!(number, JobError::InvalidInteger);
    assert_eq!(number.kind(), ErrorKind::Conversion);
    let pattern = Value::text("a(b").cast(ValueType::Regex).unwrap_err();
    assert_eq!(pattern, JobError::InvalidRegex);
    assert_eq!(pattern.kind(), ErrorKind::Conversion);
    let ty = Value::text("list<").cast(ValueType::Type).unwrap_err();
    assert_eq!(ty, JobError::InvalidType);
    assert_eq!(ty.kind(), ErrorKind::Conversion);
    for target in [
        ValueType::Text,
        ValueType::Glob,
        ValueType::Integer,
        ValueType::Op,
        ValueType::Regex,
    ] {
        let encoding = broken_file().cast(target).unwrap_err();
        assert_eq!(encoding, JobError::BrokenFileName);
        assert_eq!(encoding.kind(), ErrorKind::Encoding);
        assert_eq!(encoding.message(), "File name is not valid unicode");
    }
    assert_eq!(broken_file().cast(ValueType::Field).unwrap_err(), JobError::UnsupportedConversion);
    assert_eq!(Value::Integer(1).cast(ValueType::Type).unwrap_err(), JobError::UnsupportedConversion);
    assert_eq!(Value::op("+").cast(ValueType::Text).unwrap_err(), JobError::UnsupportedConversion);
    assert_eq!(Value::Bool(true).cast(ValueType::Text).unwrap_err(), JobError::UnsupportedConversion);
    assert_eq!(file("a").cast(ValueType::Field).unwrap_err(), JobError::UnsupportedConversion);
    assert_eq!(regex("a").cast(ValueType::Field).unwrap_err(), JobError::UnsupportedConversion);
    assert_eq!(
        Value::Type(ValueType::Text).cast(ValueType::Integer).unwrap_err(),
        JobError::UnsupportedConversion
    );
}

#[test]
fn cast_with_takes_the_word_of_the_compiler() {
    let any = regex::Regex::new("x").unwrap();
    assert_eq!(
        Value::text("a(b").cast_with(ValueType::Regex, Some(any)).unwrap().to_string(),
        "r{a(b}"
    );
    assert_eq!(
        Value::text("a").cast_with(ValueType::Regex, None).unwrap_err(),
        JobError::InvalidRegex
    );
    assert_eq!(Value::text("7").cast_with(ValueType::Integer, None).unwrap().to_string(), "7");
}

#[test]
fn supported_pairs_are_the_listed_ones() {
    let all = [
        ValueType::Text,
        ValueType::Integer,
        ValueType::Time,
        ValueType::Duration,
        ValueType::Field,
        ValueType::Glob,
        ValueType::Regex,
        ValueType::Op,
        ValueType::Command,
        ValueType::Closure,
        ValueType::File,
        ValueType::Env,
        ValueType::Bool,
        ValueType::Float,
        ValueType::Empty,
        ValueType::Any,
        ValueType::Binary,
        ValueType::Type,
    ];
    let mut count = 0;
    for from in all.iter() {
        for to in all.iter() {
            if is_supported(from, to) {
                count += 1;
            }
        }
    }
    assert_eq!(count, 7 + 5 + 5 + 5 + 6 + 1);
    assert!(is_supported(&ValueType::Text, &ValueType::Type));
    assert!(is_supported(&ValueType::Type, &ValueType::Text));
    assert!(is_supported(&ValueType::Integer, &ValueType::Field));
    assert!(!is_supported(&ValueType::Field, &ValueType::Integer));
    assert!(!is_supported(&ValueType::File, &ValueType::Field));
    assert!(!is_supported(&ValueType::Text, &ValueType::Text));
    assert!(!is_supported(&ValueType::Op, &ValueType::Text));
}

#[test]
fn cast_there_and_back_keeps_the_text() {
    let cases: Vec<(fn() -> Value, ValueType, ValueType)> = vec![
        (|| Value::text("a/b"), ValueType::File, ValueType::Text),
        (|| Value::text("a*b"), ValueType::Glob, ValueType::Text),
        (|| Value::text("-15"), ValueType::Integer, ValueType::Text),
        (|| Value::text("a+b"), ValueType::Regex, ValueType::Text),
        (|| Value::text("dict<text,list<integer>>"), ValueType::Type, ValueType::Text),
        (|| file("a/b"), ValueType::Text, ValueType::File),
        (|| file("a/b"), ValueType::Glob, ValueType::File),
        (|| file("15"), ValueType::Integer, ValueType::File),
        (|| file("a.b"), ValueType::Regex, ValueType::File),
        (|| glob("a?"), ValueType::Text, ValueType::Glob),
        (|| glob("a?"), ValueType::File, ValueType::Glob),
        (|| glob("15"), ValueType::Integer, ValueType::Glob),
        (|| glob("a?"), ValueType::Regex, ValueType::Glob),
        (|| regex("a|b"), ValueType::Text, ValueType::Regex),
        (|| regex("a|b"), ValueType::File, ValueType::Regex),
        (|| regex("a|b"), ValueType::Glob, ValueType::Regex),
        (|| regex("15"), ValueType::Integer, ValueType::Regex),
        (|| Value::Integer(-7), ValueType::Text, ValueType::Integer),
        (|| Value::Integer(-7), ValueType::File, ValueType::Integer),
        (|| Value::Integer(-7), ValueType::Glob, ValueType::Integer),
        (|| Value::Integer(7), ValueType::Regex, ValueType::Integer),
        (|| Value::Type(ValueType::List(Box::new(ValueType::Bool))), ValueType::Text, ValueType::Type),
    ];
    for (make, there, back) in cases {
        let original = make().to_string();
        let returned = make().cast(there).unwrap().cast(back).unwrap();
        assert_eq!(returned.to_string(), original);
    }
}

#[test]
fn cast_through_an_integer_writes_the_canonical_numeral() {
    let back = Value::text("+007").cast(ValueType::Integer).unwrap().cast(ValueType::Text).unwrap();
    assert_eq!(back.to_string(), "7");
}

#[test]
fn types_are_written_and_read() {
    let schema = vec![
        ColumnType::named("a", ValueType::Text),
        ColumnType::unnamed(ValueType::List(Box::new(ValueType::Integer))),
    ];
    assert_eq!(ValueType::Text.to_string(), "text");
    assert_eq!(ValueType::Op.to_string(), "op");
    assert_eq!(ValueType::Binary.to_string(), "binary");
    assert_eq!(ValueType::Stream(schema.clone()).to_string(), "output<a=text,list<integer>>");
    assert_eq!(ValueType::Rows(schema.clone()).to_string(), "rows<a=text,list<integer>>");
    assert_eq!(ValueType::Row(schema).to_string(), "row<a=text,list<integer>>");
    assert_eq!(ValueType::Rows(vec![]).to_string(), "rows<>");
    for name in [
        "text", "integer", "time", "duration", "field", "glob", "regex", "op", "command",
        "closure", "file", "env", "bool", "float", "empty", "any", "binary", "type",
        "list<text>", "dict<text,integer>", "list<dict<list<bool>,glob>>",
    ] {
        assert_eq!(ValueType::parse(name).unwrap().to_string(), name);
    }
    for bad in [
        "", "Text", "tex", "texts", "list", "list<", "list<>", "list<text", "list<text>>",
        "dict<text>", "dict<text,>", "dict<text,integer", " text", "text ", "rows<>",
        "rows<a=text>", "output<text>", "list<text,integer>", "integer>",
    ] {
        assert_eq!(ValueType::parse(bad).unwrap_err(), JobError::InvalidType);
    }
}

#[test]
fn types_are_ordered_by_tag_first() {
    assert_eq!(ValueType::Text.compare(&ValueType::Integer), Comparison::Less);
    assert_eq!(ValueType::Type.compare(&ValueType::Text), Comparison::Greater);
    assert_eq!(ValueType::Bool.compare(&ValueType::Bool), Comparison::Equal);
    assert_eq!(ValueType::Text.rank(), 0);
    assert_eq!(ValueType::Type.rank(), 22);
    let small = ValueType::Rows(vec![ColumnType::named("a", ValueType::Text)]);
    let large = ValueType::Rows(vec![ColumnType::named("b", ValueType::Text)]);
    let longer = ValueType::Rows(vec![
        ColumnType::named("a", ValueType::Text),
        ColumnType::named("a", ValueType::Text),
    ]);
    let unnamed = ValueType::Rows(vec![ColumnType::unnamed(ValueType::Type)]);
    assert_eq!(small.compare(&large), Comparison::Less);
    assert_eq!(large.compare(&small), Comparison::Greater);
    assert_eq!(small.compare(&longer), Comparison::Less);
    assert_eq!(unnamed.compare(&small), Comparison::Less);
    assert_eq!(small.compare(&ValueType::Stream(vec![])), Comparison::Greater);
    assert_eq!(
        ValueType::List(Box::new(ValueType::Text))
            .compare(&ValueType::List(Box::new(ValueType::Bool))),
        Comparison::Less
    );
    assert_eq!(
        ValueType::Dict(Box::new(ValueType::Text), Box::new(ValueType::Bool))
            .compare(&ValueType::Dict(Box::new(ValueType::Text), Box::new(ValueType::Text))),
        Comparison::Greater
    );
    assert!(small.same(&small.clone()));
    assert!(!small.same(&large));
}

#[test]
fn hashable_types_are_the_declared_ones() {
    for t in [
        ValueType::Text, ValueType::Integer, ValueType::Time, ValueType::Field, ValueType::Glob,
        ValueType::Regex, ValueType::Op, ValueType::File, ValueType::Duration, ValueType::Bool,
        ValueType::Type, ValueType::Empty, ValueType::Command,
    ] {
        assert!(t.is_hashable());
    }
    for t in [
        ValueType::Stream(vec![]), ValueType::Rows(vec![]), ValueType::Row(vec![]),
        ValueType::List(Box::new(ValueType::Text)),
        ValueType::Dict(Box::new(ValueType::Text), Box::new(ValueType::Text)),
        ValueType::Closure, ValueType::Float, ValueType::Binary, ValueType::Env, ValueType::Any,
    ] {
        assert!(!t.is_hashable());
    }
    assert!(Value::text("a").is_hashable());
    assert!(!Value::Rows(small_table()).is_hashable());
    assert!(!Value::empty_stream().is_hashable());
}

#[test]
fn values_of_different_types_are_ordered_as_their_types() {
    let pairs: Vec<(Value, Value)> = vec![
        (Value::text("zzz"), Value::Integer(-1)),
        (Value::text(""), Value::Integer(100)),
        (Value::Integer(5), Value::Bool(false)),
        (Value::Bool(true), Value::text("a")),
        (glob("*"), Value::text("a")),
        (Value::Empty, Value::Type(ValueType::Text)),
        (Value::empty_stream(), Value::Rows(small_table())),
        (Value::Command(Command { name: String::from("a") }), Value::text("a")),
        (Value::Rows(small_table()), Value::Rows(Rows { types: vec![], rows: vec![] })),
    ];
    for (a, b) in pairs.iter() {
        let expected = a.value_type().compare(&b.value_type());
        assert_ne!(expected, Comparison::Equal);
        assert_eq!(a.compare(b), Some(expected));
    }
    assert_eq!(Value::text("zzz").compare(&Value::Integer(-1)), Some(Comparison::Less));
    assert_eq!(Value::Integer(-1).compare(&Value::text("zzz")), Some(Comparison::Greater));
}

#[test]
fn values_of_one_type_are_ordered_by_what_they_hold() {
    assert_eq!(Value::text("a").compare(&Value::text("b")), Some(Comparison::Less));
    assert_eq!(Value::text("b").compare(&Value::text("a")), Some(Comparison::Greater));
    assert_eq!(Value::text("a").compare(&Value::text("a")), Some(Comparison::Equal));
    assert_eq!(Value::text("a").compare(&Value::text("ab")), Some(Comparison::Less));
    assert_eq!(Value::text("é").compare(&Value::text("z")), Some(Comparison::Greater));
    assert_eq!(Value::Integer(-2).compare(&Value::Integer(1)), Some(Comparison::Less));
    assert_eq!(Value::Integer(3).compare(&Value::Integer(3)), Some(Comparison::Equal));
    assert_eq!(Value::Bool(false).compare(&Value::Bool(true)), Some(Comparison::Less));
    assert_eq!(Value::Bool(true).compare(&Value::Bool(false)), Some(Comparison::Greater));
    assert_eq!(file("a").compare(&file("b")), Some(Comparison::Less));
    assert_eq!(file("a/b").compare(&file("a.b")), Some(Comparison::Less));
    assert_eq!(file("a.b").compare(&file("a/b")), Some(Comparison::Greater));
    assert_eq!(file("a//b").compare(&file("a/b")), Some(Comparison::Equal));
    assert_eq!(file("a/./b/").compare(&file("a/b")), Some(Comparison::Equal));
    assert_eq!(file("./a").compare(&file("a")), Some(Comparison::Less));
    assert_eq!(file("/a").compare(&file("a")), Some(Comparison::Less));
    assert_eq!(file("/a").compare(&file("./a")), Some(Comparison::Less));
    assert_eq!(file("../a").compare(&file("a")), Some(Comparison::Less));
    assert_eq!(file("../a").compare(&file("./a")), Some(Comparison::Greater));
    assert_eq!(file("a").compare(&file("a/b")), Some(Comparison::Less));
    assert_eq!(file("a/c").compare(&file("a/b/../c")), Some(Comparison::Greater));
    assert_eq!(file("").compare(&file("a")), Some(Comparison::Less));
    assert_eq!(file("").compare(&file("")), Some(Comparison::Equal));
    assert_eq!(file(".").compare(&file("./")), Some(Comparison::Equal));
    assert_eq!(file("/").compare(&file("//")), Some(Comparison::Equal));
    assert_eq!(file("/./a").compare(&file("/a")), Some(Comparison::Equal));
    assert_eq!(glob("b").compare(&glob("a")), Some(Comparison::Greater));
    assert_eq!(regex("a").compare(&regex("a")), Some(Comparison::Equal));
    assert_eq!(Value::op("<").compare(&Value::op("=")), Some(Comparison::Less));
    assert_eq!(
        Value::Duration(Duration::from_secs(1)).compare(&Value::Duration(Duration::from_secs(2))),
        Some(Comparison::Less)
    );
    assert_eq!(
        Value::Field(vec![String::from("a"), String::from("b")])
            .compare(&Value::Field(vec![String::from("a"), String::from("c")])),
        Some(Comparison::Less)
    );
    assert_eq!(
        Value::Field(vec![String::from("a")])
            .compare(&Value::Field(vec![String::from("a"), String::from("c")])),
        Some(Comparison::Less)
    );
    let list = |cells: Vec<Value>| Value::List(List { cell_type: ValueType::Integer, cells });
    assert_eq!(
        list(vec![Value::Integer(1), Value::Integer(2)])
            .compare(&list(vec![Value::Integer(1), Value::Integer(3)])),
        Some(Comparison::Less)
    );
    assert_eq!(
        list(vec![Value::Integer(1)]).compare(&list(vec![])),
        Some(Comparison::Greater)
    );
    assert_eq!(
        Value::Rows(small_table()).compare(&Value::Rows(small_table())),
        Some(Comparison::Equal)
    );
}

#[test]
fn commands_closures_and_streams_have_no_order() {
    let command = || Value::Command(Command { name: String::from("ls") });
    let closure = || Value::Closure(Closure { source: String::from("{}") });
    assert_eq!(command().compare(&command()), None);
    assert_eq!(closure().compare(&closure()), None);
    assert_eq!(Value::empty_stream().compare(&Value::empty_stream()), None);
    assert_eq!(Value::Empty.compare(&Value::Empty), None);
    assert_eq!(
        Value::Type(ValueType::Text).compare(&Value::Type(ValueType::Text)),
        None
    );
    let list = |cells: Vec<Value>| Value::List(List { cell_type: ValueType::Command, cells });
    assert_eq!(list(vec![command()]).compare(&list(vec![command()])), None);
}

#[test]
fn equality_by_kind() {
    let paths = Paths::new();
    assert!(Value::text("a").eq(&Value::text("a"), &paths));
    assert!(!Value::text("a").eq(&Value::text("b"), &paths));
    assert!(!Value::text("1").eq(&Value::Integer(1), &paths));
    assert!(Value::Integer(1).eq(&Value::Integer(1), &paths));
    assert!(Value::Bool(true).eq(&Value::Bool(true), &paths));
    assert!(!Value::Bool(true).eq(&Value::Bool(false), &paths));
    assert!(glob("a*").eq(&glob("a*"), &paths));
    assert!(!glob("a*").eq(&glob("a?"), &paths));
    assert!(regex("a").eq(&regex("a"), &paths));
    assert!(Value::op("+").eq(&Value::op("+"), &paths));
    assert!(Value::Field(vec![String::from("a")]).eq(&Value::Field(vec![String::from("a")]), &paths));
    assert!(!Value::Field(vec![String::from("a")]).eq(&Value::Field(vec![]), &paths));
    assert!(Value::Duration(Duration::from_millis(1000))
        .eq(&Value::Duration(Duration::from_secs(1)), &paths));
    assert!(Value::Command(Command { name: String::from("ls") })
        .eq(&Value::Command(Command { name: String::from("ls") }), &paths));
    assert!(Value::Rows(small_table()).eq(&Value::Rows(small_table()), &paths));
    let list = |cells: Vec<Value>| Value::List(List { cell_type: ValueType::Integer, cells });
    assert!(list(vec![Value::Integer(1)]).eq(&list(vec![Value::Integer(1)]), &paths));
    assert!(!list(vec![Value::Integer(1)]).eq(&list(vec![Value::Integer(2)]), &paths));
    assert!(Value::Empty.eq(&Value::Empty, &paths));
    assert!(!Value::Empty.eq(&Value::text(""), &paths));
    assert!(Value::Type(ValueType::Text).eq(&Value::Type(ValueType::Text), &paths));
    assert!(!Value::Type(ValueType::Text).eq(&Value::Type(ValueType::Integer), &paths));
    assert!(Value::Type(ValueType::List(Box::new(ValueType::Bool)))
        .eq(&Value::Type(ValueType::List(Box::new(ValueType::Bool))), &paths));
    let float = |bits: u64, text: &str| Value::Float(Float { bits, text: String::from(text) });
    assert!(float(0x3ff8000000000000, "1.5").eq(&float(0x3ff8000000000000, "1.5"), &paths));
    assert!(!float(0x3ff8000000000000, "1.5").eq(&float(0x4000000000000000, "2"), &paths));
    let env = |d: &str| Value::Env(Env { description: String::from(d) });
    assert!(env("global").eq(&env("global"), &paths));
    assert!(!env("global").eq(&env("local"), &paths));
    let dict = |k: &str, n: i128| {
        Value::Dict(Dict {
            key_type: ValueType::Text,
            value_type: ValueType::Integer,
            entries: vec![(Value::text(k), Value::Integer(n))],
        })
    };
    assert!(dict("a", 1).eq(&dict("a", 1), &paths));
    assert!(!dict("a", 1).eq(&dict("a", 2), &paths));
    assert!(!dict("a", 1).eq(&dict("b", 1), &paths));
    assert!(!Value::empty_stream().eq(&Value::empty_stream(), &paths));
    assert!(!Value::BinaryReader(BinaryReader { content: String::from("x") })
        .eq(&Value::BinaryReader(BinaryReader { content: String::from("x") }), &paths));
    assert!(!Value::Closure(Closure { source: String::from("x") })
        .eq(&Value::Closure(Closure { source: String::from("x") }), &paths));
}

#[test]
fn a_glob_equals_the_texts_it_matches() {
    let paths = Paths::new();
    assert!(glob("a*").eq(&Value::text("abc"), &paths));
    assert!(Value::text("abc").eq(&glob("a*"), &paths));
    assert!(glob("a?c").eq(&Value::text("abc"), &paths));
    assert!(!glob("a?").eq(&Value::text("abc"), &paths));
    assert!(!Value::text("b").eq(&glob("a*"), &paths));
    assert!(glob("*").eq(&Value::text(""), &paths));
    assert!(!glob("?").eq(&Value::text(""), &paths));
}

#[test]
fn glob_matching() {
    let m = |p: &str, t: &str| Glob::new(p).matches(t);
    assert!(m("", ""));
    assert!(!m("", "a"));
    assert!(m("abc", "abc"));
    assert!(!m("abc", "abd"));
    assert!(!m("abc", "ab"));
    assert!(m("*", "anything at all"));
    assert!(m("a*c", "ac"));
    assert!(m("a*c", "abbbc"));
    assert!(!m("a*c", "abbbd"));
    assert!(m("*.rs", "main.rs"));
    assert!(!m("*.rs", "main.rc"));
    assert!(m("a**b", "ab"));
    assert!(m("?*?", "ab"));
    assert!(!m("?*?", "a"));
    assert!(m("a*b*c", "a-b-b-c"));
    assert!(m("é?", "éa"));
    assert!(m("?", "é"));
    assert!(m("a*", "a*"));
    assert_eq!(Glob::new("a*b").to_string(), "a*b");
}

#[test]
fn files_are_equal_when_they_name_the_same_file() {
    let mut paths = Paths::new();
    paths.add(b"/tmp/x".to_vec(), b"/tmp/x".to_vec());
    paths.add(b"/tmp/../tmp/x".to_vec(), b"/tmp/x".to_vec());
    paths.add(b"/tmp/y".to_vec(), b"/tmp/y".to_vec());
    assert!(file("/tmp/x").eq(&file("/tmp/../tmp/x"), &paths));
    assert!(file("/tmp/x").eq(&file("/tmp/x"), &paths));
    assert!(!file("/tmp/x").eq(&file("/tmp/y"), &paths));
    assert!(!file("/tmp/missing").eq(&file("/tmp/missing"), &paths));
    assert!(Value::text("/tmp/../tmp/x").eq(&file("/tmp/x"), &paths));
    assert!(file("/tmp/x").eq(&Value::text("/tmp/../tmp/x"), &paths));
    assert!(!Value::text("/tmp/missing").eq(&file("/tmp/x"), &paths));
    assert!(file_result_compare(&paths, b"/tmp/x", b"/tmp/../tmp/x"));
    assert!(!file_result_compare(&paths, b"/tmp/x", b"/nowhere"));
    assert!(!file_result_compare(&Paths::new(), b"/tmp/x", b"/tmp/x"));
    assert_eq!(paths.canonical(b"/tmp/../tmp/x"), Some(&b"/tmp/x".to_vec()));
    assert_eq!(paths.canonical(b"/else"), None);
}

#[test]
fn equal_values_hash_alike() {
    let paths = Paths::new();
    let pairs: Vec<(Value, Value)> = vec![
        (Value::text("a"), Value::text("a")),
        (Value::Integer(-5), Value::Integer(-5)),
        (Value::Bool(true), Value::Bool(true)),
        (glob("a*"), glob("a*")),
        (regex("a+"), regex("a+")),
        (Value::op("+"), Value::op("+")),
        (glob("abc"), Value::text("abc")),
        (glob("a*"), Value::text("ab")),
        (Value::text("ab"), glob("a?")),
        (Value::Empty, Value::Empty),
        (Value::Type(ValueType::Integer), Value::Type(ValueType::Integer)),
        (
            Value::Field(vec![String::from("a"), String::from("b")]),
            Value::Field(vec![String::from("a"), String::from("b")]),
        ),
        (
            Value::Duration(Duration::from_millis(1500)),
            Value::Duration(Duration::new(1, 500_000_000)),
        ),
        (
            Value::Time(Time::new(10, 5, 0).unwrap()),
            Value::Time(Time::new(10, 5, 3600).unwrap()),
        ),
        (
            Value::Command(Command { name: String::from("ls") }),
            Value::Command(Command { name: String::from("ls") }),
        ),
    ];
    for (a, b) in pairs.iter() {
        assert!(a.eq(b, &paths));
        assert_eq!(hash_of(a), hash_of(b));
    }
    let mut known = Paths::new();
    known.add(b"/x".to_vec(), b"/x".to_vec());
    assert!(file("/x").eq(&file("/x"), &known));
    assert_eq!(hash_of(&file("/x")), hash_of(&file("/x")));
    assert!(file("/x").eq(&Value::text("/x"), &known));
    assert_eq!(hash_of(&file("/x")), hash_of(&Value::text("/x")));
    known.add(b"/./x".to_vec(), b"/x".to_vec());
    assert!(file("/./x").eq(&file("/x"), &known));
    assert_eq!(hash_of(&file("/./x")), hash_of(&file("/x")));
    assert!(Value::text("/./x").eq(&file("/x"), &known));
    assert_eq!(hash_of(&Value::text("/./x")), hash_of(&file("/x")));
}

#[test]
fn values_that_differ_hash_apart() {
    assert_ne!(hash_of(&Value::Integer(1)), hash_of(&Value::Integer(2)));
    assert_ne!(hash_of(&Value::Integer(1)), hash_of(&Value::Integer(-1)));
    assert_ne!(hash_of(&Value::Bool(true)), hash_of(&Value::Bool(false)));
    assert_ne!(hash_of(&regex("a")), hash_of(&regex("b")));
    assert_ne!(hash_of(&Value::op("<")), hash_of(&Value::op(">")));
    assert_ne!(
        hash_of(&Value::Duration(Duration::from_secs(1))),
        hash_of(&Value::Duration(Duration::from_secs(2)))
    );
    assert_ne!(
        hash_of(&Value::Time(Time::new(1, 0, 0).unwrap())),
        hash_of(&Value::Time(Time::new(1, 1, 0).unwrap()))
    );
    assert_ne!(
        hash_of(&Value::Field(vec![String::from("ab")])),
        hash_of(&Value::Field(vec![String::from("a"), String::from("b")]))
    );
    assert_ne!(
        hash_of(&Value::Type(ValueType::Text)),
        hash_of(&Value::Type(ValueType::Integer))
    );
    assert_eq!(
        hash_of(&Value::Empty),
        hash_of(&Value::Command(Command { name: String::from("ls") }))
    );
}

#[test]
fn partial_clone_copies_all_but_streams() {
    let paths = Paths::new();
    let values: Vec<Value> = vec![
        Value::text("a"),
        Value::Integer(3),
        Value::Bool(false),
        glob("x*"),
        regex("x+"),
        Value::op("-"),
        Value::Field(vec![String::from("a"), String::from("b")]),
        Value::Duration(Duration::from_secs(5)),
        Value::Rows(small_table()),
        Value::List(List { cell_type: ValueType::Text, cells: vec![Value::text("q")] }),
    ];
    for v in values.iter() {
        let copy = v.partial_clone().unwrap();
        assert_eq!(copy.to_string(), v.to_string());
        assert!(copy.eq(v, &paths));
        assert!(copy.value_type().same(&v.value_type()));
    }
    assert_eq!(file("a").partial_clone().unwrap().to_string(), "a");
    assert_eq!(Value::Empty.partial_clone().unwrap().to_string(), "<empty>");
    assert_eq!(
        Value::Dict(Dict {
            key_type: ValueType::Text,
            value_type: ValueType::Integer,
            entries: vec![(Value::text("a"), Value::Integer(1))],
        })
        .partial_clone()
        .unwrap()
        .to_string(),
        "{a: 1}"
    );
    let failure = Value::empty_stream().partial_clone().unwrap_err();
    assert_eq!(failure, JobError::InvalidStreamUse);
    assert_eq!(failure.kind(), ErrorKind::Type);
    assert_eq!(failure.message(), "Invalid use of stream");
    let nested = Value::List(List {
        cell_type: ValueType::Stream(vec![]),
        cells: vec![Value::Integer(1), Value::empty_stream()],
    });
    assert_eq!(nested.partial_clone().unwrap_err(), JobError::InvalidStreamUse);
    let in_table = Value::Rows(Rows {
        types: vec![ColumnType::unnamed(ValueType::Stream(vec![]))],
        rows: vec![Row { cells: vec![Value::empty_stream()] }],
    });
    assert_eq!(in_table.partial_clone().unwrap_err(), JobError::InvalidStreamUse);
}

#[test]
fn materialize_drains_streams_into_tables() {
    let paths = Paths::new();
    let t = small_table();
    let stream = Value::Stream(Stream::new(t.types, t.rows));
    let table = stream.materialize();
    assert!(matches!(table, Value::Rows(_)));
    assert!(table.eq(&Value::Rows(small_table()), &paths));
    let inner = small_table();
    let outer = Value::Stream(Stream::new(
        vec![ColumnType::named("t", ValueType::Stream(vec![ColumnType::named("name", ValueType::Text)]))],
        vec![Row { cells: vec![Value::Stream(Stream::new(inner.types, inner.rows))] }],
    ));
    let done = outer.materialize();
    assert_eq!(
        done.value_type().to_string(),
        "rows<t=rows<name=text>>"
    );
    match done {
        Value::Rows(r) => {
            assert_eq!(r.rows.len(), 1);
            assert!(r.rows[0].cells[0].eq(&Value::Rows(small_table()), &paths));
        }
        _ => panic!("a stream must become a table"),
    }
    assert_eq!(Value::text("a").materialize().to_string(), "a");
    let failing = Value::Stream(Stream::failing(
        vec![ColumnType::unnamed(ValueType::Integer)],
        vec![Row { cells: vec![Value::Integer(1)] }],
    ));
    match failing.materialize() {
        Value::Rows(r) => assert_eq!(r.rows.len(), 1),
        _ => panic!("a stream must become a table"),
    }
}

#[test]
fn materialize_twice_is_materialize_once() {
    let paths = Paths::new();
    let make = || {
        let inner = small_table();
        Value::List(List {
            cell_type: ValueType::Stream(vec![]),
            cells: vec![
                Value::Stream(Stream::new(inner.types, inner.rows)),
                Value::Rows(small_table()),
            ],
        })
    };
    let once = make().materialize();
    let twice = make().materialize().materialize();
    assert!(once.value_type().same(&twice.value_type()));
    assert!(once.eq(&twice, &paths));
    assert!(once.partial_clone().is_ok());
    let table = Value::Rows(small_table()).materialize();
    assert!(table.eq(&Value::Rows(small_table()), &paths));
    assert!(table.materialize().eq(&Value::Rows(small_table()), &paths));
}

#[test]
fn streams_are_read_row_by_row() {
    let t = small_table();
    let mut stream = Stream::new(t.types, t.rows);
    assert_eq!(stream.get_type().len(), 2);
    match stream.read() {
        ReadOutcome::Row(r) => assert_eq!(r.cells[0].to_string(), "a"),
        _ => panic!("a row was left"),
    }
    match stream.read() {
        ReadOutcome::Row(r) => assert_eq!(r.cells[0].to_string(), "b"),
        _ => panic!("a row was left"),
    }
    assert!(matches!(stream.read(), ReadOutcome::Ended));
    assert!(matches!(stream.read(), ReadOutcome::Ended));
    let mut failing = Stream::failing(vec![], vec![Row { cells: vec![] }]);
    assert!(matches!(failing.read(), ReadOutcome::Row(_)));
    assert!(matches!(failing.read(), ReadOutcome::Failed));
}

#[test]
fn file_expand_names_files() {
    let names = vec![String::from("a.txt"), String::from("b.rs"), String::from("c.txt")];
    let mut out: Vec<FilePath> = Vec::new();
    Value::text("x").file_expand(&mut out, &names).unwrap();
    file("y").file_expand(&mut out, &names).unwrap();
    glob("*.txt").file_expand(&mut out, &names).unwrap();
    glob("*.none").file_expand(&mut out, &names).unwrap();
    let got: Vec<&[u8]> = out.iter().map(|p| p.bytes.as_slice()).collect();
    assert_eq!(got, vec![&b"x"[..], &b"y"[..], &b"a.txt"[..], &b"c.txt"[..]]);
    let failure = Value::Integer(1).file_expand(&mut out, &names).unwrap_err();
    assert_eq!(failure, JobError::ExpectedFileName);
    assert_eq!(failure.kind(), ErrorKind::Type);
    assert_eq!(failure.message(), "Expected a file name");
    assert_eq!(out.len(), 4);
}

#[test]
fn every_failure_has_a_kind_and_a_sentence() {
    let all = [
        (JobError::UnsupportedConversion, ErrorKind::Conversion),
        (JobError::InvalidInteger, ErrorKind::Conversion),
        (JobError::InvalidRegex, ErrorKind::Conversion),
        (JobError::InvalidType, ErrorKind::Conversion),
        (JobError::BrokenFileName, ErrorKind::Encoding),
        (JobError::InvalidStreamUse, ErrorKind::Type),
        (JobError::ExpectedFileName, ErrorKind::Type),
        (JobError::UnknownColumn, ErrorKind::Lookup),
        (JobError::TooManyArguments, ErrorKind::Usage),
        (JobError::ExpectedField, ErrorKind::Usage),
        (JobError::ExpectedStream, ErrorKind::Type),
        (JobError::OutputClosed, ErrorKind::Send),
        (JobError::NotHashable, ErrorKind::Type),
        (JobError::MissingArgument, ErrorKind::Usage),
        (JobError::UnknownArgument, ErrorKind::Usage),
    ];
    for (e, k) in all {
        assert_eq!(e.kind(), k);
        assert!(!e.message().is_empty());
    }
    assert_eq!(JobError::ExpectedStream.message(), "Expected io to be a stream");
}

#[test]
fn files_are_ordered_as_paths_are() {
    let names = [
        "", ".", "..", "/", "//", "a", "a/", "a/.", "a/..", "a/b", "a//b", "a/./b", "a/b/",
        "a/b/.", "a.b", "a b", "a-b", "ab", "a/c", "a/b/../c", "./a", "././a", ".//a", "../a",
        "../../a", "/a", "/./a", "//a", "/a/b", "/a.b", "/.", "/..", "./", "./.", ".a", "..a",
        "a/.b", "a/..b", "a/...", "...", "A", "b", "é", "a/é", "/é/", "a\\b", ".hidden/x",
    ];
    for x in names.iter() {
        for y in names.iter() {
            let expected = match std::path::Path::new(x).cmp(std::path::Path::new(y)) {
                std::cmp::Ordering::Less => Comparison::Less,
                std::cmp::Ordering::Equal => Comparison::Equal,
                std::cmp::Ordering::Greater => Comparison::Greater,
            };
            assert_eq!(file(x).compare(&file(y)), Some(expected), "{:?} against {:?}", x, y);
            assert_eq!(
                crush::path_order::compare_paths(x.as_bytes(), y.as_bytes()),
                expected,
                "{:?} against {:?}",
                x,
                y
            );
        }
    }
    let parts = crush::path_order::parts_of(b"/a/./b//../c/");
    assert_eq!(parts.len(), 5);
    assert!(matches!(parts[0], crush::path_order::Part::Root));
    assert!(matches!(parts[3], crush::path_order::Part::Parent));
    assert!(matches!(&parts[4], crush::path_order::Part::Normal(n) if n == b"c"));
    assert!(matches!(crush::path_order::parts_of(b"./x")[0], crush::path_order::Part::Current));
}
