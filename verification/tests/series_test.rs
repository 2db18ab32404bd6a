use jasmine::typing::parse_series;
use jasmine::typing::read_token;
use jasmine::typing::typed_series;
use jasmine::AstNode;
use jasmine::Cell;
use jasmine::DataType;
use jasmine::ErrorKind;
use jasmine::Pair;
use jasmine::Rule;
use jasmine::Series;
use jasmine::TimeUnit;
use jasmine::J;

fn tokens(texts: &[&str]) -> Pair {
    let inner = texts
        .iter()
        .map(|t| Pair::leaf(Rule::Scalar, 0, t.len(), (*t).to_owned()))
        .collect();
    Pair { rule: Rule::Series, start: 3, end: 9, text: texts.join(" "), inner }
}

fn series_of(texts: &[&str]) -> Series {
    match parse_series(&tokens(texts)).unwrap() {
        AstNode::J(J::Series(s)) => s,
        other => panic!("no series: {:?}", other),
    }
}

fn cells(s: &Series) -> Vec<Cell> {
    (0..s.len()).map(|i| s.get(i).unwrap().clone()).collect()
}

#[test]
fn first_value_chooses_the_type() {
    let cases: Vec<(Vec<&str>, DataType, Vec<Cell>)> = vec![
        (vec!["true", "0b", "null"], DataType::Boolean, vec![Cell::Bool(true), Cell::Bool(false), Cell::Null]),
        (vec!["1u8", "255"], DataType::UInt8, vec![Cell::Int(1), Cell::Int(255)]),
        (vec!["-1i8", "2i8"], DataType::Int8, vec![Cell::Int(-1), Cell::Int(2)]),
        (vec!["1u16", "0n"], DataType::UInt16, vec![Cell::Int(1), Cell::Null]),
        (vec!["7i16", "8", "9"], DataType::Int16, vec![Cell::Int(7), Cell::Int(8), Cell::Int(9)]),
        (vec!["1u32"], DataType::UInt32, vec![Cell::Int(1)]),
        (vec!["-1i32"], DataType::Int32, vec![Cell::Int(-1)]),
        (vec!["18446744073709551615u64"], DataType::UInt64, vec![Cell::Int(18446744073709551615)]),
        (vec!["", "5", "6i64"], DataType::Int64, vec![Cell::Null, Cell::Int(5), Cell::Int(6)]),
        (vec!["1.5f32", "2"], DataType::Float32, vec![Cell::Decimal("1.5".to_owned()), Cell::Decimal("2".to_owned())]),
        (vec!["1.5", ".5f64", "3."], DataType::Float64, vec![Cell::Decimal("1.5".to_owned()), Cell::Decimal(".5".to_owned()), Cell::Decimal("3.".to_owned())]),
        (vec!["1970-01-02", "null"], DataType::Date, vec![Cell::Int(1), Cell::Null]),
        (vec!["00:00:01.", "23:59:59.123"], DataType::Time, vec![Cell::Int(1_000_000_000), Cell::Int(86_399_123_000_000)]),
        (vec!["1D", "-0D00:00:01"], DataType::Duration(TimeUnit::Nanoseconds), vec![Cell::Int(86_400_000_000_000), Cell::Int(-1_000_000_000)]),
        (vec!["5ns", "2s", "1m", "1h"], DataType::Duration(TimeUnit::Nanoseconds), vec![Cell::Int(5), Cell::Int(2_000_000_000), Cell::Int(60_000_000_000), Cell::Int(3_600_000_000_000)]),
        (vec!["'a b'", "null", "''"], DataType::Categorical, vec![Cell::Text("a b".to_owned()), Cell::Null, Cell::Text(String::new())]),
        (vec!["\"x\"", "0n"], DataType::String, vec![Cell::Text("x".to_owned()), Cell::Null]),
        (vec!["null", "0n", ""], DataType::Null, vec![Cell::Null, Cell::Null, Cell::Null]),
        (vec!["`a", "`b.c"], DataType::Categorical, vec![Cell::Text("a".to_owned()), Cell::Text("b.c".to_owned())]),
    ];
    for (texts, dtype, expected) in cases {
        let s = series_of(&texts);
        assert_eq!(s.dtype(), dtype, "{:?}", texts);
        assert_eq!(s.len(), texts.len(), "{:?}", texts);
        assert_eq!(cells(&s), expected, "{:?}", texts);
        assert_eq!(s.name(), "");
    }
}

#[test]
fn literal_without_a_value_is_one_missing_value() {
    for text in ["", "null", "0n"] {
        let s = series_of(&[text]);
        assert_eq!(s.dtype(), DataType::Null);
        assert_eq!(s.len(), 1);
        assert_eq!(s.get(0), Some(&Cell::Null));
    }
}

#[test]
fn instants_take_the_zone_of_the_machine() {
    let s = series_of(&["2020-01-01T", "null", "2020-01-01T00:00:01.5"]);
    assert_eq!(s.dtype(), DataType::Datetime(TimeUnit::Milliseconds));
    assert!(s.zone().is_some());
    let at = |i: usize| match s.get(i) {
        Some(Cell::Int(v)) => *v,
        other => panic!("no instant: {:?}", other),
    };
    assert_eq!(at(2) - at(0), 1_500);
    assert_eq!(s.get(1), Some(&Cell::Null));
    let s = series_of(&["2020-01-01D", "2020-01-01D00:00:00.000000001"]);
    assert_eq!(s.dtype(), DataType::Datetime(TimeUnit::Nanoseconds));
    match (s.get(0), s.get(1)) {
        (Some(Cell::Int(a)), Some(Cell::Int(b))) => assert_eq!(b - a, 1),
        other => panic!("no instants: {:?}", other),
    }
}

#[test]
fn token_that_disagrees_with_the_type_is_refused() {
    let cases = vec![
        (vec!["true", "2"], "unrecognized bool value 2"),
        (vec!["1u8", "256"], "'256': number too large to fit in target type"),
        (vec!["1u8", "-1"], "'-1': invalid digit found in string"),
        (vec!["1i8", "-129"], "'-129': number too small to fit in target type"),
        (vec!["1", "x"], "'x': invalid digit found in string"),
        (vec!["1", "+"], "'+': invalid digit found in string"),
        (vec!["1.5", "x"], "'x': invalid float literal"),
        (vec!["1970-01-01", "1970-02-30"], "'1970-02-30': Not a valid date, 1970-02-30"),
        (vec!["00:00:00.", "24:00:00."], "'24:00:00.': Not a valid time, 24:00:00."),
        (vec!["2020-01-01T", "x"], "'x': Not a valid datetime, x"),
        (vec!["2020-01-01D", "x"], "'x': Not a valid timestamp, x"),
        (vec!["1D", "1x"], "'1x': Not a valid duration, 1x"),
        (vec!["'a'", "b"], "'b': not a categorical"),
        (vec!["\"a\"", "b"], "'b': not a string"),
        (vec!["`a", "b"], "'b': not a categorical"),
        (vec!["@", "1"], "unknown series"),
        (vec!["12:00:00", "13:00:00"], "unknown series"),
    ];
    for (texts, message) in cases {
        let e = parse_series(&tokens(&texts)).unwrap_err();
        assert_eq!(e.kind, ErrorKind::SeriesTypeError, "{:?}", texts);
        assert_eq!(e.to_string(), message, "{:?}", texts);
        assert_eq!((e.start, e.end), (3, 9));
    }
}

#[test]
fn kind_of_a_series_can_be_given() {
    let pair = tokens(&["1", "2"]);
    let s = typed_series(10, &pair.inner).unwrap();
    assert_eq!(s.dtype(), DataType::Float64);
    assert_eq!(cells(&s), vec![Cell::Decimal("1".to_owned()), Cell::Decimal("2".to_owned())]);
    let s = typed_series(19, &pair.inner).unwrap();
    assert_eq!(s.dtype(), DataType::Null);
    assert_eq!(cells(&s), vec![Cell::Null, Cell::Null]);
    assert_eq!(typed_series(21, &pair.inner).unwrap_err(), "unknown series");
    assert_eq!(typed_series(0, &pair.inner).unwrap_err(), "unrecognized bool value 1");
    assert_eq!(read_token(8, "9223372036854775807").unwrap(), Cell::Int(9223372036854775807));
    assert_eq!(
        read_token(8, "9223372036854775808").unwrap_err(),
        "'9223372036854775808': number too large to fit in target type"
    );
    assert_eq!(read_token(9, "inf").unwrap(), Cell::Decimal("inf".to_owned()));
    assert_eq!(read_token(10, "-1e-3").unwrap(), Cell::Decimal("-1e-3".to_owned()));
    assert_eq!(read_token(10, "1e").unwrap_err(), "'1e': invalid float literal");
}
