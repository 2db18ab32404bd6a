use jasmine::bar;
use jasmine::ops::rounding;
use jasmine::ops::BarError;
use jasmine::ops::Rounding;
use polars::prelude::DataType;
use polars::prelude::IntoColumn;
use polars::prelude::NamedFrom;
use polars::prelude::Series;
use polars::prelude::TimeUnit;

#[test]
fn test_binary() {
    let s0 = Series::new("bar_size".into(), &[5.0f64]);
    let s1 = Series::new("values".into(), &[1.2f64, 3.7f64, 5.1f64, 8.9f64]);

    let result = bar(s0.into_column(), s1.into_column()).unwrap().unwrap();
    let expected = Series::new("values".into(), &[0.0f64, 0.0f64, 5.0f64, 5.0f64]);

    assert_eq!(result.as_series().unwrap(), &expected);
}

#[test]
fn bar_rounds_integers_down_to_multiples() {
    let size = Series::new("size".into(), &[5i64]);
    let values = Series::new("values".into(), &[0i64, 4, 5, 12, 100]);
    let result = bar(size.into_column(), values.into_column()).unwrap().unwrap();
    let expected = Series::new("values".into(), &[0i64, 0, 5, 10, 100]);
    assert_eq!(result.as_series().unwrap(), &expected);
    let again = bar(Series::new("size".into(), &[5i64]).into_column(), result.clone())
        .unwrap()
        .unwrap();
    assert_eq!(again.as_series().unwrap(), &expected);
}

#[test]
fn bar_goes_by_the_type_of_the_values() {
    let size = Series::new("size".into(), &[2.5f64]);
    let values = Series::new("values".into(), &[1i64, 2, 3, 4, 5, 6]);
    let result = bar(size.into_column(), values.into_column()).unwrap().unwrap();
    assert_eq!(result.dtype(), &DataType::Int64);
    let expected = Series::new("values".into(), &[0i64, 2, 2, 4, 4, 6]);
    assert_eq!(result.as_series().unwrap(), &expected);

    let size = Series::new("size".into(), &[5i64]);
    let values = Series::new("values".into(), &[1.2f64, 3.7, 5.1, 8.9]);
    let result = bar(size.into_column(), values.into_column()).unwrap().unwrap();
    let expected = Series::new("values".into(), &[0.0f64, 0.0, 5.0, 5.0]);
    assert_eq!(result.as_series().unwrap(), &expected);
}

#[test]
fn bar_keeps_temporal_types() {
    let size = Series::new("size".into(), &[7i32]);
    let days = Series::new("values".into(), &[1i32, 8, 20]).cast(&DataType::Date).unwrap();
    let result = bar(size.into_column(), days.into_column()).unwrap().unwrap();
    assert_eq!(result.dtype(), &DataType::Date);
    let expected = Series::new("values".into(), &[0i32, 7, 14]).cast(&DataType::Date).unwrap();
    assert_eq!(result.as_series().unwrap(), &expected);

    let size = Series::new("size".into(), &[1_000_000_000i64])
        .cast(&DataType::Duration(TimeUnit::Nanoseconds))
        .unwrap();
    let millis = Series::new("values".into(), &[1_500i64, 2_999])
        .cast(&DataType::Datetime(TimeUnit::Milliseconds, None))
        .unwrap();
    let result = bar(size.into_column(), millis.into_column()).unwrap().unwrap();
    assert_eq!(result.dtype(), &DataType::Datetime(TimeUnit::Microseconds, None));
    let expected = Series::new("values".into(), &[1_000i64, 2_000])
        .cast(&DataType::Datetime(TimeUnit::Microseconds, None))
        .unwrap();
    assert_eq!(result.as_series().unwrap(), &expected);

    let size = Series::new("size".into(), &[60i64]);
    let times = Series::new("values".into(), &[59i64, 61, 125]).cast(&DataType::Time).unwrap();
    let result = bar(size.into_column(), times.into_column()).unwrap().unwrap();
    assert_eq!(result.dtype(), &DataType::Time);
    let expected = Series::new("values".into(), &[0i64, 60, 120]).cast(&DataType::Time).unwrap();
    assert_eq!(result.as_series().unwrap(), &expected);
}

#[test]
fn bar_refuses_what_is_neither_numeric_nor_temporal() {
    let size = Series::new("size".into(), &[5i64]);
    let values = Series::new("values".into(), &["a", "b"]);
    match bar(size.into_column(), values.into_column()) {
        Err(BarError::InvalidOperation(m)) => assert_eq!(
            m,
            "'bar' requires numeric/temporal bar size and series, got 'i64' and 'str'"
        ),
        other => panic!("no refusal: {:?}", other),
    }
    let size = Series::new("size".into(), &[true]);
    let values = Series::new("values".into(), &[1i64]);
    match bar(size.into_column(), values.into_column()) {
        Err(BarError::InvalidOperation(m)) => assert_eq!(
            m,
            "'bar' requires numeric/temporal bar size and series, got 'bool' and 'i64'"
        ),
        other => panic!("no refusal: {:?}", other),
    }
}

#[test]
fn rounding_goes_by_the_type_of_the_values() {
    let ns = Some(jasmine::DataType::Duration(jasmine::TimeUnit::Nanoseconds));
    let ms = Some(jasmine::DataType::Datetime(jasmine::TimeUnit::Milliseconds));
    assert_eq!(rounding(Some(jasmine::DataType::Float32), None), Rounding::Floor);
    assert_eq!(rounding(Some(jasmine::DataType::Float64), ns), Rounding::Floor);
    assert_eq!(rounding(Some(jasmine::DataType::Date), None), Rounding::Days);
    assert_eq!(rounding(ms, ns), Rounding::Millis { scaled: true });
    assert_eq!(rounding(ms, Some(jasmine::DataType::Time)), Rounding::Millis { scaled: true });
    assert_eq!(rounding(ms, Some(jasmine::DataType::Int64)), Rounding::Millis { scaled: false });
    assert_eq!(rounding(Some(jasmine::DataType::Time), None), Rounding::Nanos);
    assert_eq!(rounding(ns, None), Rounding::Nanos);
    assert_eq!(
        rounding(Some(jasmine::DataType::Datetime(jasmine::TimeUnit::Nanoseconds)), None),
        Rounding::Nanos
    );
    assert_eq!(
        rounding(Some(jasmine::DataType::Datetime(jasmine::TimeUnit::Microseconds)), None),
        Rounding::Plain
    );
    assert_eq!(rounding(Some(jasmine::DataType::Int32), None), Rounding::Plain);
    assert_eq!(rounding(None, None), Rounding::Plain);
}
