//! Operators on the columns of the engine.
use crate::series::DataType;
use crate::series::TimeUnit;
use polars::prelude::Column;
use polars::prelude::IntoColumn;
use polars::prelude::PolarsError;
use polars::prelude::RoundSeries;
use vstd::prelude::*;
use vstd::string::StringExecFns;

verus! {

#[verifier::external_type_specification]
#[verifier::external_body]
pub struct ExColumn(Column);

#[verifier::external_type_specification]
#[verifier::external_body]
pub struct ExPolarsError(PolarsError);

/// Why the bar operator gave no result.
#[derive(Debug)]
pub enum BarError {
    /// An operand is neither numeric nor temporal.
    InvalidOperation(String),
    /// The engine refused a step.
    Engine(PolarsError),
}

/// The type of the values of a column, where the library has a name for it.
/// The zone of a column of instants is left out.
pub uninterp spec fn column_dtype(c: Column) -> Option<DataType>;

/// Whether the engine takes the type of a column for an integer or a floating
/// type.
pub uninterp spec fn column_numeric(c: Column) -> bool;

/// The text with which the engine shows the type of a column.
pub uninterp spec fn column_dtype_text(c: Column) -> Seq<char>;

pub open spec fn is_integer_type(t: DataType) -> bool {
    match t {
        DataType::UInt8
        | DataType::UInt16
        | DataType::UInt32
        | DataType::UInt64
        | DataType::Int8
        | DataType::Int16
        | DataType::Int32
        | DataType::Int64 => true,
        _ => false,
    }
}

pub open spec fn is_simple_type(t: DataType) -> bool {
    match t {
        DataType::Boolean
        | DataType::Float32
        | DataType::Float64
        | DataType::String
        | DataType::Date
        | DataType::Time
        | DataType::Categorical
        | DataType::Null => true,
        _ => false,
    }
}

/// The type, where it is an integer type.
pub open spec fn integer_part(t: Option<DataType>) -> Option<DataType> {
    if t is Some && is_integer_type(t->0) {
        t
    } else {
        None
    }
}

/// The type, where it is a type without parts that is no integer type.
pub open spec fn simple_part(t: Option<DataType>) -> Option<DataType> {
    if t is Some && is_simple_type(t->0) {
        t
    } else {
        None
    }
}

/// The kind of a type with a unit: instants `true`, spans of time `false`.
pub open spec fn timed_part(t: Option<DataType>) -> Option<bool> {
    match t {
        Some(DataType::Datetime(_)) => Some(true),
        Some(DataType::Duration(_)) => Some(false),
        _ => None,
    }
}

/// The unit of a type of instants or of spans of time.
pub open spec fn unit_part(t: Option<DataType>) -> Option<TimeUnit> {
    match t {
        Some(DataType::Datetime(u)) => Some(u),
        Some(DataType::Duration(u)) => Some(u),
        _ => None,
    }
}

/// `Column::dtype`, told apart as far as it is one of the integer types.
#[verifier::external_body]
fn integer_type(c: &Column) -> (r: Option<DataType>)
    ensures
        r == integer_part(column_dtype(*c)),
{
    match c.dtype() {
        polars::prelude::DataType::UInt8 => Some(DataType::UInt8),
        polars::prelude::DataType::UInt16 => Some(DataType::UInt16),
        polars::prelude::DataType::UInt32 => Some(DataType::UInt32),
        polars::prelude::DataType::UInt64 => Some(DataType::UInt64),
        polars::prelude::DataType::Int8 => Some(DataType::Int8),
        polars::prelude::DataType::Int16 => Some(DataType::Int16),
        polars::prelude::DataType::Int32 => Some(DataType::Int32),
        polars::prelude::DataType::Int64 => Some(DataType::Int64),
        _ => None,
    }
}

/// `Column::dtype`, told apart as far as it is a type without parts that is
/// no integer type.
#[verifier::external_body]
fn simple_type(c: &Column) -> (r: Option<DataType>)
    ensures
        r == simple_part(column_dtype(*c)),
{
    match c.dtype() {
        polars::prelude::DataType::Boolean => Some(DataType::Boolean),
        polars::prelude::DataType::Float32 => Some(DataType::Float32),
        polars::prelude::DataType::Float64 => Some(DataType::Float64),
        polars::prelude::DataType::String => Some(DataType::String),
        polars::prelude::DataType::Date => Some(DataType::Date),
        polars::prelude::DataType::Time => Some(DataType::Time),
        polars::prelude::DataType::Categorical(_, _) => Some(DataType::Categorical),
        polars::prelude::DataType::Null => Some(DataType::Null),
        _ => None,
    }
}

/// `Column::dtype`, told apart as far as it is the type of instants
/// (`Some(true)`) or of spans of time (`Some(false)`).
#[verifier::external_body]
fn timed_kind(c: &Column) -> (r: Option<bool>)
    ensures
        r == timed_part(column_dtype(*c)),
{
    match c.dtype() {
        polars::prelude::DataType::Datetime(_, _) => Some(true),
        polars::prelude::DataType::Duration(_) => Some(false),
        _ => None,
    }
}

/// The unit of `Column::dtype`, where it is a type of instants or of spans of
/// time.
#[verifier::external_body]
fn timed_unit(c: &Column) -> (r: Option<TimeUnit>)
    ensures
        r == unit_part(column_dtype(*c)),
{
    match c.dtype() {
        polars::prelude::DataType::Datetime(u, _) | polars::prelude::DataType::Duration(u) => match u {
            polars::prelude::TimeUnit::Nanoseconds => Some(TimeUnit::Nanoseconds),
            polars::prelude::TimeUnit::Microseconds => Some(TimeUnit::Microseconds),
            polars::prelude::TimeUnit::Milliseconds => Some(TimeUnit::Milliseconds),
        },
        _ => None,
    }
}

/// `DataType::is_primitive_numeric` of `Column::dtype`: for a type that the
/// library names, whether it is an integer or a floating type.
#[verifier::external_body]
fn numeric(c: &Column) -> (r: bool)
    ensures
        r == column_numeric(*c),
        column_dtype(*c) is Some ==> r == column_dtype(*c)->0.spec_is_primitive_numeric(),
{
    c.dtype().is_primitive_numeric()
}

/// `DataType::is_temporal` of `Column::dtype`: whether it is a date, a time,
/// or a type of instants or of spans of time.
#[verifier::external_body]
fn temporal(c: &Column) -> (r: bool)
    ensures
        r == (column_dtype(*c) is Some && column_dtype(*c)->0.spec_is_temporal()),
{
    c.dtype().is_temporal()
}

/// The text that `Display` of `Column::dtype` writes. The result is named, not
/// stated.
#[verifier::external_body]
fn dtype_text(c: &Column) -> (r: String)
    ensures
        r@ == column_dtype_text(*c),
{
    format!("{}", c.dtype())
}

/// The column that `Column::cast` makes of `c` for the type of the column
/// `like`, or `None` where it refuses.
pub uninterp spec fn cast_to_type_of(c: Column, like: Column) -> Option<Column>;

/// The column that `Column::cast` makes of `c` for the type `t` (instants
/// without a zone), or `None` where it refuses.
pub uninterp spec fn cast_to(c: Column, t: DataType) -> Option<Column>;

/// The column that `Div` makes of two columns, value by value, or `None`
/// where it refuses.
pub uninterp spec fn quotient(a: Column, b: Column) -> Option<Column>;

/// The column that `Mul` makes of two columns, value by value, or `None`
/// where it refuses.
pub uninterp spec fn product(a: Column, b: Column) -> Option<Column>;

/// The column that `Div` makes of a column and a number.
pub uninterp spec fn quotient_by(a: Column, n: i64) -> Column;

/// The column that `RoundSeries::floor` makes of the values of a column, or
/// `None` where it refuses.
pub uninterp spec fn floor_of(a: Column) -> Option<Column>;

/// Whether the engine's answer is the column `o`, or an error where there is
/// none.
pub open spec fn gives(r: Result<Column, PolarsError>, o: Option<Column>) -> bool {
    match o {
        Some(c) => r is Ok && r->Ok_0 == c,
        None => r is Err,
    }
}

/// `Column::cast` to the type of another column: the result is named; where
/// it succeeds and the library has a name for that type, the result has it.
#[verifier::external_body]
fn cast_like(c: &Column, like: &Column) -> (r: Result<Column, PolarsError>)
    ensures
        gives(r, cast_to_type_of(*c, *like)),
        r is Ok && column_dtype(*like) is Some ==> column_dtype(r->Ok_0) == column_dtype(*like),
{
    c.cast(like.dtype())
}

/// `Column::cast` to `Int32`: the result is named, and has that type.
#[verifier::external_body]
fn cast_int32(c: &Column) -> (r: Result<Column, PolarsError>)
    ensures
        gives(r, cast_to(*c, DataType::Int32)),
        r is Ok ==> column_dtype(r->Ok_0) == Some(DataType::Int32),
{
    c.cast(&polars::prelude::DataType::Int32)
}

/// `Column::cast` to `Int64`: the result is named, and has that type.
#[verifier::external_body]
fn cast_int64(c: &Column) -> (r: Result<Column, PolarsError>)
    ensures
        gives(r, cast_to(*c, DataType::Int64)),
        r is Ok ==> column_dtype(r->Ok_0) == Some(DataType::Int64),
{
    c.cast(&polars::prelude::DataType::Int64)
}

/// `Column::cast` to `Date`: the result is named, and has that type.
#[verifier::external_body]
fn cast_date(c: &Column) -> (r: Result<Column, PolarsError>)
    ensures
        gives(r, cast_to(*c, DataType::Date)),
        r is Ok ==> column_dtype(r->Ok_0) == Some(DataType::Date),
{
    c.cast(&polars::prelude::DataType::Date)
}

/// `Column::cast` to instants in microseconds without a zone: the result is
/// named, and has that type.
#[verifier::external_body]
fn cast_datetime_micros(c: &Column) -> (r: Result<Column, PolarsError>)
    ensures
        gives(r, cast_to(*c, DataType::Datetime(TimeUnit::Microseconds))),
        r is Ok ==> column_dtype(r->Ok_0) == Some(DataType::Datetime(TimeUnit::Microseconds)),
{
    c.cast(&polars::prelude::DataType::Datetime(polars::prelude::TimeUnit::Microseconds, None))
}

/// `Div` of two columns, value by value. The result is named, not stated.
#[verifier::external_body]
fn divide(a: &Column, b: &Column) -> (r: Result<Column, PolarsError>)
    ensures
        gives(r, quotient(*a, *b)),
{
    a / b
}

/// `Mul` of two columns, value by value. The result is named, not stated.
#[verifier::external_body]
fn multiply(a: &Column, b: &Column) -> (r: Result<Column, PolarsError>)
    ensures
        gives(r, product(*a, *b)),
{
    a * b
}

/// `Div` of a column of 64-bit integers by a number other than 0. The result
/// is named, not stated.
#[verifier::external_body]
fn divide_by(a: &Column, n: i64) -> (r: Column)
    requires
        n != 0,
        column_dtype(*a) == Some(DataType::Int64),
    ensures
        r == quotient_by(*a, n),
{
    a / n
}

/// `RoundSeries::floor` of the values of a column. The result is named, not
/// stated.
#[verifier::external_body]
fn floor(a: Column) -> (r: Result<Column, PolarsError>)
    ensures
        gives(r, floor_of(a)),
{
    match a.take_materialized_series().floor() {
        Ok(s) => Ok(s.into_column()),
        Err(e) => Err(e),
    }
}

/// The type of the values of a column, where the library has a name for it.
pub fn dtype_of(c: &Column) -> (r: Option<DataType>)
    ensures
        r == column_dtype(*c),
{
    if let Some(t) = integer_type(c) {
        return Some(t);
    }
    if let Some(t) = simple_type(c) {
        return Some(t);
    }
    match (timed_kind(c), timed_unit(c)) {
        (Some(true), Some(u)) => Some(DataType::Datetime(u)),
        (Some(false), Some(u)) => Some(DataType::Duration(u)),
        _ => {
            proof {
                lemma_type_parts(column_dtype(*c));
            }
            None
        },
    }
}

/// A type is an integer type, a simple one, or one with a unit.
pub proof fn lemma_type_parts(t: Option<DataType>)
    ensures
        t is Some ==> is_integer_type(t->0) || is_simple_type(t->0) || t->0 is Datetime || t->0 is Duration,
{
}

/// How the values are rounded down to the bar, by their type.
#[derive(Clone, Copy, Debug, PartialEq, Eq, Structural)]
pub enum Rounding {
    /// Floating values: divide, take the floor, multiply.
    Floor,
    /// Dates: as days in 32 bits; the result is a date again.
    Days,
    /// Instants in milliseconds: in 64 bits, the bar divided by a million
    /// first where it counts nanoseconds; the result counts microseconds.
    Millis { scaled: bool },
    /// Times of day, and instants and spans of time in nanoseconds: in 64
    /// bits; the result has the type of the values again.
    Nanos,
    /// Any other type: the bar cast to the type of the values.
    Plain,
}

/// How values of the type `values` are rounded down to a bar of the type
/// `size`.
pub open spec fn rounding_of(values: Option<DataType>, size: Option<DataType>) -> Rounding {
    match values {
        Some(DataType::Float32) | Some(DataType::Float64) => Rounding::Floor,
        Some(DataType::Date) => Rounding::Days,
        Some(DataType::Datetime(TimeUnit::Milliseconds)) => Rounding::Millis {
            scaled: size == Some(DataType::Duration(TimeUnit::Nanoseconds)) || size == Some(
                DataType::Time,
            ),
        },
        Some(DataType::Time)
        | Some(DataType::Datetime(TimeUnit::Nanoseconds))
        | Some(DataType::Duration(TimeUnit::Nanoseconds)) => Rounding::Nanos,
        _ => Rounding::Plain,
    }
}

/// How values of the type `values` are rounded down to a bar of the type
/// `size`.
pub fn rounding(values: Option<DataType>, size: Option<DataType>) -> (r: Rounding)
    ensures
        r == rounding_of(values, size),
{
    match values {
        Some(DataType::Float32) | Some(DataType::Float64) => Rounding::Floor,
        Some(DataType::Date) => Rounding::Days,
        Some(DataType::Datetime(TimeUnit::Milliseconds)) => {
            let scaled = match size {
                Some(DataType::Duration(TimeUnit::Nanoseconds)) | Some(DataType::Time) => true,
                _ => false,
            };
            Rounding::Millis { scaled }
        },
        Some(DataType::Time)
        | Some(DataType::Datetime(TimeUnit::Nanoseconds))
        | Some(DataType::Duration(TimeUnit::Nanoseconds)) => Rounding::Nanos,
        _ => Rounding::Plain,
    }
}

/// Whether the bar operator takes a column: its type is numeric or temporal.
pub open spec fn admitted(c: Column) -> bool {
    column_numeric(c) || (column_dtype(c) is Some && column_dtype(c)->0.spec_is_temporal())
}

/// The message of the bar operator about operands that it does not take.
pub open spec fn bar_refusal(size: Seq<char>, values: Seq<char>) -> Seq<char> {
    "'bar' requires numeric/temporal bar size and series, got '"@ + size + "' and '"@ + values
        + "'"@
}

/// The type of the result of the bar operator, where the last step fixes it.
pub open spec fn bar_dtype(values: Option<DataType>, size: Option<DataType>) -> Option<DataType> {
    match rounding_of(values, size) {
        Rounding::Days => Some(DataType::Date),
        Rounding::Millis { .. } => Some(DataType::Datetime(TimeUnit::Microseconds)),
        Rounding::Nanos => values,
        _ => None,
    }
}

/// The values divided by the bar and multiplied with it again.
pub open spec fn rounded_of(values: Column, size: Column) -> Option<Column> {
    match quotient(values, size) {
        Some(q) => product(q, size),
        None => None,
    }
}

/// Floating values: the bar cast to their type, the quotient, its floor, and
/// the product with the bar.
pub open spec fn floor_steps(size: Column, values: Column) -> Option<Column> {
    match cast_to_type_of(size, values) {
        Some(bar) => match quotient(values, bar) {
            Some(q) => match floor_of(q) {
                Some(f) => product(f, bar),
                None => None,
            },
            None => None,
        },
        None => None,
    }
}

/// Dates: bar and values as days in 32 bits, rounded, and a date again.
pub open spec fn days_steps(size: Column, values: Column) -> Option<Column> {
    match (cast_to(size, DataType::Int32), cast_to(values, DataType::Int32)) {
        (Some(bar), Some(days)) => match rounded_of(days, bar) {
            Some(c) => cast_to(c, DataType::Date),
            None => None,
        },
        _ => None,
    }
}

/// Instants in milliseconds: bar and values in 64 bits, the bar divided by a
/// million first where it counts nanoseconds, rounded, and instants in
/// microseconds then.
pub open spec fn millis_steps(size: Column, values: Column, scaled: bool) -> Option<Column> {
    match (cast_to(size, DataType::Int64), cast_to(values, DataType::Int64)) {
        (Some(whole), Some(millis)) => {
            let bar = if scaled {
                quotient_by(whole, 1_000_000)
            } else {
                whole
            };
            match rounded_of(millis, bar) {
                Some(c) => cast_to(c, DataType::Datetime(TimeUnit::Microseconds)),
                None => None,
            }
        },
        _ => None,
    }
}

/// Times of day, and instants and spans of time in nanoseconds: bar and
/// values in 64 bits, rounded, and of the type of the values again.
pub open spec fn nanos_steps(size: Column, values: Column) -> Option<Column> {
    match (cast_to(size, DataType::Int64), cast_to(values, DataType::Int64)) {
        (Some(bar), Some(nanos)) => match rounded_of(nanos, bar) {
            Some(c) => cast_to_type_of(c, values),
            None => None,
        },
        _ => None,
    }
}

/// Any other values: the bar cast to their type, and rounded.
pub open spec fn plain_steps(size: Column, values: Column) -> Option<Column> {
    match cast_to_type_of(size, values) {
        Some(bar) => rounded_of(values, bar),
        None => None,
    }
}

/// What the bar operator makes of a bar and values that it takes: the steps
/// that the type of the values chooses, each as the engine takes it; `None`
/// where the engine refuses one.
pub open spec fn bar_steps(size: Column, values: Column) -> Option<Column> {
    match rounding_of(column_dtype(values), column_dtype(size)) {
        Rounding::Floor => floor_steps(size, values),
        Rounding::Days => days_steps(size, values),
        Rounding::Millis { scaled } => millis_steps(size, values, scaled),
        Rounding::Nanos => nanos_steps(size, values),
        Rounding::Plain => plain_steps(size, values),
    }
}

/// Whether a result is the column `o`, or an error of the engine where there
/// is none.
pub open spec fn engine_gives(r: Result<Column, BarError>, o: Option<Column>) -> bool {
    match o {
        Some(c) => r is Ok && r->Ok_0 == c,
        None => r is Err && r->Err_0 is Engine,
    }
}

fn engine(r: Result<Column, PolarsError>, Ghost(o): Ghost<Option<Column>>) -> (out: Result<
    Column,
    BarError,
>)
    requires
        gives(r, o),
    ensures
        engine_gives(out, o),
        out is Ok ==> r is Ok && out->Ok_0 == r->Ok_0,
{
    match r {
        Ok(c) => Ok(c),
        Err(e) => Err(BarError::Engine(e)),
    }
}

/// The values divided by the bar and multiplied with it again.
fn rounded(values: &Column, size: &Column) -> (r: Result<Column, BarError>)
    ensures
        engine_gives(r, rounded_of(*values, *size)),
{
    let q = match divide(values, size) {
        Ok(q) => q,
        Err(e) => {
            return Err(BarError::Engine(e));
        },
    };
    engine(multiply(&q, size), Ghost(product(q, *size)))
}

fn floor_rounded(s0: &Column, s1: &Column) -> (r: Result<Column, BarError>)
    ensures
        engine_gives(r, floor_steps(*s0, *s1)),
{
    let size = match cast_like(s0, s1) {
        Ok(c) => c,
        Err(e) => {
            return Err(BarError::Engine(e));
        },
    };
    let q = match divide(s1, &size) {
        Ok(q) => q,
        Err(e) => {
            return Err(BarError::Engine(e));
        },
    };
    let f = match floor(q) {
        Ok(f) => f,
        Err(e) => {
            return Err(BarError::Engine(e));
        },
    };
    engine(multiply(&f, &size), Ghost(product(f, size)))
}

fn days_rounded(s0: &Column, s1: &Column) -> (r: Result<Column, BarError>)
    ensures
        engine_gives(r, days_steps(*s0, *s1)),
        r is Ok ==> column_dtype(r->Ok_0) == Some(DataType::Date),
{
    let size = match cast_int32(s0) {
        Ok(c) => c,
        Err(e) => {
            return Err(BarError::Engine(e));
        },
    };
    let days = match cast_int32(s1) {
        Ok(c) => c,
        Err(e) => {
            return Err(BarError::Engine(e));
        },
    };
    match rounded(&days, &size) {
        Ok(c) => engine(cast_date(&c), Ghost(cast_to(c, DataType::Date))),
        Err(e) => Err(e),
    }
}

fn millis_rounded(s0: &Column, s1: &Column, scaled: bool) -> (r: Result<Column, BarError>)
    ensures
        engine_gives(r, millis_steps(*s0, *s1, scaled)),
        r is Ok ==> column_dtype(r->Ok_0) == Some(DataType::Datetime(TimeUnit::Microseconds)),
{
    let whole = match cast_int64(s0) {
        Ok(c) => c,
        Err(e) => {
            return Err(BarError::Engine(e));
        },
    };
    let millis = match cast_int64(s1) {
        Ok(c) => c,
        Err(e) => {
            return Err(BarError::Engine(e));
        },
    };
    let size = if scaled {
        divide_by(&whole, 1_000_000)
    } else {
        whole
    };
    match rounded(&millis, &size) {
        Ok(c) => engine(
            cast_datetime_micros(&c),
            Ghost(cast_to(c, DataType::Datetime(TimeUnit::Microseconds))),
        ),
        Err(e) => Err(e),
    }
}

fn nanos_rounded(s0: &Column, s1: &Column) -> (r: Result<Column, BarError>)
    ensures
        engine_gives(r, nanos_steps(*s0, *s1)),
        r is Ok && column_dtype(*s1) is Some ==> column_dtype(r->Ok_0) == column_dtype(*s1),
{
    let size = match cast_int64(s0) {
        Ok(c) => c,
        Err(e) => {
            return Err(BarError::Engine(e));
        },
    };
    let nanos = match cast_int64(s1) {
        Ok(c) => c,
        Err(e) => {
            return Err(BarError::Engine(e));
        },
    };
    match rounded(&nanos, &size) {
        Ok(c) => engine(cast_like(&c, s1), Ghost(cast_to_type_of(c, *s1))),
        Err(e) => Err(e),
    }
}

fn plain_rounded(s0: &Column, s1: &Column) -> (r: Result<Column, BarError>)
    ensures
        engine_gives(r, plain_steps(*s0, *s1)),
{
    let size = match cast_like(s0, s1) {
        Ok(c) => c,
        Err(e) => {
            return Err(BarError::Engine(e));
        },
    };
    rounded(s1, &size)
}

/// Rounds each value of `s1` down to a multiple of the bar size `s0`.
///
/// Operands that are not both numeric or temporal are refused. Else the
/// steps are chosen by the type of the values, as [`rounding_of`] says, and
/// the result is what the engine makes of them, as [`bar_steps`] says; where
/// the engine refuses a step, the result is an error of the engine. Where the
/// last step is a cast, the result has the type that [`bar_dtype`] gives.
pub fn bar(s0: Column, s1: Column) -> (r: Result<Option<Column>, BarError>)
    ensures
        !(admitted(s0) && admitted(s1)) ==> r is Err && (r->Err_0 matches BarError::InvalidOperation(
            m,
        ) && m@ == bar_refusal(column_dtype_text(s0), column_dtype_text(s1))),
        admitted(s0) && admitted(s1) ==> match bar_steps(s0, s1) {
            Some(c) => r is Ok && r->Ok_0 == Some(c),
            None => r is Err && r->Err_0 is Engine,
        },
        r matches Ok(Some(out)) ==> (bar_dtype(column_dtype(s1), column_dtype(s0)) matches Some(t)
            ==> column_dtype(out) == Some(t)),
{
    if !((numeric(&s0) || temporal(&s0)) && (numeric(&s1) || temporal(&s1))) {
        let size = dtype_text(&s0);
        let values = dtype_text(&s1);
        return Err(
            BarError::InvalidOperation(
                "'bar' requires numeric/temporal bar size and series, got '".to_owned().concat(
                    size.as_str(),
                ).concat("' and '").concat(values.as_str()).concat("'"),
            ),
        );
    }
    let out = match rounding(dtype_of(&s1), dtype_of(&s0)) {
        Rounding::Floor => floor_rounded(&s0, &s1),
        Rounding::Days => days_rounded(&s0, &s1),
        Rounding::Millis { scaled } => millis_rounded(&s0, &s1, scaled),
        Rounding::Nanos => nanos_rounded(&s0, &s1),
        Rounding::Plain => plain_rounded(&s0, &s1),
    };
    match out {
        Ok(c) => Ok(Some(c)),
        Err(e) => Err(e),
    }
}

} // verus!
