use jasmine::series::FrameError;
use jasmine::AstNode;
use jasmine::Cell;
use jasmine::DataFrame;
use jasmine::DataType;
use jasmine::Dict;
use jasmine::JError;
use jasmine::JObj;
use jasmine::JType;
use jasmine::Matrix;
use jasmine::Series;
use jasmine::TimeUnit;
use jasmine::J;

fn every_value() -> Vec<(J, &'static str, u8)> {
    let series = Series::new("s".to_owned(), DataType::Int64, vec![Cell::Int(1)]).unwrap();
    let frame = DataFrame::new(vec![series.clone()]).unwrap();
    let matrix = Matrix::from_frame(frame.clone()).unwrap();
    vec![
        (J::Null, "null", 0),
        (J::Boolean(true), "bool", 1),
        (J::I64(1), "i64", 2),
        (J::Date(1), "date", 3),
        (J::Time(1), "time", 4),
        (J::Datetime { ms: 1, timezone: "UTC".to_owned() }, "datetime", 5),
        (J::Timestamp { ns: 1, timezone: "UTC".to_owned() }, "timestamp", 6),
        (J::Duration(1), "duration", 7),
        (J::F64("1.0".to_owned()), "f64", 8),
        (J::String("s".to_owned()), "str", 9),
        (J::Cat("c".to_owned()), "sym", 10),
        (J::Series(series), "series", 11),
        (J::Matrix(matrix), "matrix", 12),
        (J::MixedList(vec![J::Null]), "list", 13),
        (J::Dict(Dict::new(vec![], vec![])), "dict", 14),
        (J::DataFrame(frame), "df", 15),
        (J::Error("e".to_owned()), "err", 16),
    ]
}

#[test]
fn kinds_have_their_names_and_codes() {
    for (j, name, code) in every_value() {
        assert_eq!(j.get_type_name(), name);
        assert_eq!(j.is_numeric(), name == "i64" || name == "f64");
        assert_eq!(j.is_bool(), name == "bool");
        let copy = j.clone();
        assert_eq!(copy, j);
        let obj = JObj::new(j);
        assert_eq!(obj.j_type(), code);
        assert_eq!(obj.j(), &copy);
    }
    assert_eq!(JType::Null.code(), 0);
    assert_eq!(JType::DataFrame.code(), 15);
    assert_eq!(JType::Error.code(), 16);
}

#[test]
fn scalars_lift_into_columns_of_one_cell() {
    let cases = vec![
        (J::Boolean(true), DataType::Boolean, Cell::Bool(true)),
        (J::I64(-3), DataType::Int64, Cell::Int(-3)),
        (J::F64("2.5".to_owned()), DataType::Float64, Cell::Decimal("2.5".to_owned())),
        (J::Date(7), DataType::Date, Cell::Int(7)),
        (J::Time(9), DataType::Time, Cell::Int(9)),
        (J::Duration(-1), DataType::Duration(TimeUnit::Nanoseconds), Cell::Int(-1)),
        (J::Cat("a".to_owned()), DataType::Categorical, Cell::Text("a".to_owned())),
        (J::String("b".to_owned()), DataType::String, Cell::Text("b".to_owned())),
        (J::Null, DataType::Null, Cell::Null),
    ];
    for (j, dtype, cell) in cases {
        let s = j.into_series().unwrap();
        assert_eq!(s.name(), "");
        assert_eq!(s.dtype(), dtype);
        assert_eq!(s.len(), 1);
        assert_eq!(s.get(0), Some(&cell));
        assert_eq!(s.zone(), None);
    }
    let s = J::Datetime { ms: 5, timezone: "Asia/Tokyo".to_owned() }.into_series().unwrap();
    assert_eq!(s.dtype(), DataType::Datetime(TimeUnit::Milliseconds));
    assert_eq!(s.zone(), Some("Asia/Tokyo"));
    assert_eq!(s.get(0), Some(&Cell::Int(5)));
    let s = J::Timestamp { ns: 6, timezone: "UTC".to_owned() }.into_series().unwrap();
    assert_eq!(s.dtype(), DataType::Datetime(TimeUnit::Nanoseconds));
    assert_eq!(J::MixedList(vec![]).into_series().unwrap_err(), "cannot turn into a series");
    assert_eq!(J::Error("x".to_owned()).into_series().unwrap_err(), "cannot turn into a series");
}

#[test]
fn only_a_column_gives_its_column() {
    let series = Series::new("s".to_owned(), DataType::Int8, vec![Cell::Int(1), Cell::Null]).unwrap();
    assert_eq!(J::Series(series.clone()).series().unwrap(), series);
    assert_eq!(J::I64(1).series().unwrap_err(), "not a series");
}

#[test]
fn only_a_literal_gives_its_value() {
    assert_eq!(AstNode::J(J::I64(4)).as_j().unwrap(), J::I64(4));
    assert_eq!(
        AstNode::Skip.as_j().unwrap_err(),
        JError::ParserErr("Failed to cast to J".to_owned())
    );
}

#[test]
fn cells_must_fit_the_type_of_their_column() {
    assert!(Series::new(String::new(), DataType::UInt8, vec![Cell::Int(255)]).is_some());
    assert!(Series::new(String::new(), DataType::UInt8, vec![Cell::Int(256)]).is_none());
    assert!(Series::new(String::new(), DataType::Int8, vec![Cell::Int(-129)]).is_none());
    assert!(Series::new(String::new(), DataType::Boolean, vec![Cell::Int(1)]).is_none());
    assert!(Series::new(String::new(), DataType::Null, vec![Cell::Bool(true)]).is_none());
    assert!(Series::new(String::new(), DataType::String, vec![Cell::Null]).is_some());
    let nulls = Series::new_null("n".to_owned(), 3);
    assert_eq!(nulls.len(), 3);
    assert_eq!(nulls.dtype(), DataType::Null);
    assert_eq!(nulls.get(2), Some(&Cell::Null));
    assert_eq!(nulls.get(3), None);
    let mut renamed = nulls.clone();
    renamed.rename("m".to_owned());
    assert_eq!(renamed.name(), "m");
    assert_eq!(renamed.len(), 3);
}

#[test]
fn types_know_their_families() {
    assert!(DataType::Int16.is_primitive_numeric());
    assert!(DataType::Float32.is_primitive_numeric());
    assert!(DataType::Float32.is_float());
    assert!(!DataType::Int64.is_float());
    assert!(!DataType::Boolean.is_primitive_numeric());
    assert!(DataType::Boolean.is_bool());
    assert!(DataType::Date.is_temporal());
    assert!(DataType::Duration(TimeUnit::Nanoseconds).is_temporal());
    assert!(!DataType::String.is_temporal());
    assert_eq!(DataType::Datetime(TimeUnit::Milliseconds).name(), "datetime[ms]");
    assert_eq!(DataType::Categorical.name(), "cat");
}

#[test]
fn tables_want_names_of_their_own_and_one_length() {
    let a = Series::new("a".to_owned(), DataType::Int64, vec![Cell::Int(1), Cell::Int(2)]).unwrap();
    let b = Series::new("b".to_owned(), DataType::Int64, vec![Cell::Int(1)]).unwrap();
    let c = Series::new("c".to_owned(), DataType::Int64, vec![Cell::Int(3), Cell::Int(4)]).unwrap();
    assert_eq!(DataFrame::new(vec![]).unwrap().height(), 0);
    let frame = DataFrame::new(vec![a.clone(), c.clone()]).unwrap();
    assert_eq!((frame.width(), frame.height()), (2, 2));
    assert_eq!(frame.column(1), Some(&c));
    assert_eq!(frame.column(2), None);
    assert_eq!(DataFrame::new(vec![a.clone(), b.clone()]).unwrap_err(), FrameError::ShapeMismatch(1));
    assert_eq!(
        DataFrame::new(vec![a.clone(), c.clone(), a.clone()]).unwrap_err(),
        FrameError::Duplicate(2)
    );
    assert_eq!(
        DataFrame::new(vec![a.clone(), b.clone(), a.clone()]).unwrap_err(),
        FrameError::Duplicate(2)
    );
    let text = Series::new("t".to_owned(), DataType::String, vec![Cell::Null, Cell::Null]).unwrap();
    assert!(Matrix::from_frame(DataFrame::new(vec![a.clone(), text]).unwrap()).is_none());
    let flags = Series::new("f".to_owned(), DataType::Boolean, vec![Cell::Bool(true), Cell::Null])
        .unwrap();
    let matrix = Matrix::from_frame(DataFrame::new(vec![a, flags]).unwrap()).unwrap();
    assert_eq!(matrix.shape(), (2, 2));
}

#[test]
fn instants_show_in_their_zone() {
    let obj = JObj::new_temporal(0, "Asia/Tokyo", "ms");
    assert_eq!(obj.j_type(), 5);
    assert_eq!(obj.tz().unwrap(), "Asia/Tokyo");
    assert_eq!(obj.format_temporal().unwrap(), "1970-01-01 09:00:00 JST");
    let obj = JObj::new_temporal(1_500_000_000, "UTC", "ns");
    assert_eq!(obj.j_type(), 6);
    assert_eq!(obj.format_temporal().unwrap(), "1970-01-01 00:00:01.500 UTC");
    let moved = obj.in_timezone("America/New_York").unwrap();
    assert_eq!(moved.tz().unwrap(), "America/New_York");
    assert_eq!(moved.j(), &J::Timestamp { ns: 1_500_000_000, timezone: "America/New_York".to_owned() });
    assert_eq!(moved.format_temporal().unwrap(), "1969-12-31 19:00:01.500 EST");
    let same = obj.with_timezone("Europe/Paris").unwrap();
    assert_eq!(same.tz().unwrap(), "Europe/Paris");
    assert_eq!(obj.in_timezone("Nowhere/Land").unwrap_err(), "unknown time zone: Nowhere/Land");
    let odd = JObj::new_temporal(0, "Nowhere/Land", "ms");
    assert_eq!(odd.format_temporal().unwrap_err(), "no such instant or zone");
    let plain = JObj::new(J::I64(1));
    assert_eq!(
        plain.tz().unwrap_err(),
        "timezone only available for 'datetime' and 'timestamp', got i64"
    );
    assert_eq!(
        plain.format_temporal().unwrap_err(),
        "format temporal only available for 'datetime' and 'timestamp', got i64"
    );
    assert_eq!(
        plain.in_timezone("UTC").unwrap_err(),
        "with timezone only available for 'datetime' and 'timestamp', got i64"
    );
    assert_eq!(plain.as_series().unwrap().dtype(), DataType::Int64);
}

#[test]
fn copy_of_a_list_holds_a_copy_of_each_item() {
    let list = J::MixedList(vec![
        J::I64(1),
        J::Datetime { ms: 5, timezone: "Asia/Tokyo".to_owned() },
        J::MixedList(vec![J::Cat("a".to_owned()), J::Null]),
        J::Dict(Dict::new(vec!["k".to_owned()], vec![J::String("v".to_owned())])),
    ]);
    let copy = list.duplicate();
    assert_eq!(copy, list);
    match copy {
        J::MixedList(items) => {
            assert_eq!(items.len(), 4);
            assert_eq!(items[1], J::Datetime { ms: 5, timezone: "Asia/Tokyo".to_owned() });
        }
        other => panic!("no list: {:?}", other),
    }
}
