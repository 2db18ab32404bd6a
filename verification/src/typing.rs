//! The typing of a series literal: the first token that holds a value chooses
//! the type of the column, and every token is then read as that type.
use crate::ast_node::shows;
use crate::ast_node::shows_cell;
use crate::ast_node::AstNode;
use crate::ast_node::AstView;
use crate::ast_node::JView;
use crate::errors::raise_error;
use crate::errors::ErrView;
use crate::errors::ErrorKind;
use crate::errors::ParseError;
use crate::j::J;
use crate::pair::Pair;
use crate::ast_node::SeriesPlan;
use crate::ast_node::Slot;
use crate::series::cell_fits;
use crate::series::cells_view;
use crate::series::Cell;
use crate::series::CellView;
use crate::series::DataType;
use crate::series::Series;
use crate::series::TimeUnit;
use crate::temporal::calendar_days;
use crate::temporal::calendar_instant;
use crate::temporal::completed;
use crate::temporal::date_error;
use crate::temporal::datetime_error;
use crate::temporal::datetime_format;
use crate::temporal::duration_error;
use crate::temporal::duration_of;
use crate::temporal::local_zone;
use crate::temporal::parse_date;
use crate::temporal::parse_datetime;
use crate::temporal::parse_duration;
use crate::temporal::parse_time;
use crate::temporal::parse_timestamp;
use crate::temporal::time_error;
use crate::temporal::time_of;
use crate::temporal::timestamp_error;
use crate::temporal::timestamp_format;
use crate::temporal::UNIX_EPOCH_DAY;
use crate::text::cut;
use crate::text::cut_text;
use crate::text::int_of;
use crate::text::is_digit;
use crate::text::parse_int;
use crate::text::same_text;
use crate::text::utf8;
use crate::text::IntError;
use vstd::prelude::*;
use vstd::string::StringExecFns;

verus! {

/// The number of kinds of series literal.
pub const CLASSES: usize = 21;

/// The patterns that choose the kind of a series literal, in the order in
/// which they are tried.
pub open spec fn class_patterns() -> Seq<Seq<char>> {
    seq![
        r"^(true|false|1b|0b)$"@,
        r"^\d+u8$"@,
        r"^-?\d+i8$"@,
        r"^\d+u16$"@,
        r"^-?\d+i16$"@,
        r"^\d+u32$"@,
        r"^-?\d+i32$"@,
        r"^\d+u64$"@,
        r"^-?\d+(i64)?$"@,
        r"^-?([0-9]+([.][0-9]*)?|[.][0-9]+)f32$"@,
        r"^-?([0-9]+([.][0-9]*)?|[.][0-9]+)(f64)?$"@,
        r"^\d{4}-\d{2}-\d{2}$"@,
        r"^\d{2}:\d{2}:\d{2}\.\d{0,9}$"@,
        r"^\d{4}-\d{2}-\d{2}T(\d{2}:\d{2}:\d{2}(\.\d{0,3})?)?$"@,
        r"^\d{4}-\d{2}-\d{2}D(\d{2}:\d{2}:\d{2}(\.\d{0,9})?)?$"@,
        r"^-?\d+D(\d{2}:\d{2}:\d{2}(\.\d{0,9})?)?$"@,
        r"^-?\d+(ns|s|m|h)$"@,
        r"^'[^']*'$"@,
        r#"^"[^"]*"$"#@,
        r"(^(null|0n)$|^$)"@,
        r"^`.*$"@,
    ]
}

/// The texts of `patterns`.
pub open spec fn texts_of(patterns: Seq<&'static str>) -> Seq<Seq<char>> {
    Seq::new(patterns.len(), |i: int| patterns[i]@)
}

fn patterns() -> (r: Vec<&'static str>)
    ensures
        texts_of(r@) == class_patterns(),
{
    let mut p: Vec<&'static str> = Vec::new();
    p.push(r"^(true|false|1b|0b)$");
    p.push(r"^\d+u8$");
    p.push(r"^-?\d+i8$");
    p.push(r"^\d+u16$");
    p.push(r"^-?\d+i16$");
    p.push(r"^\d+u32$");
    p.push(r"^-?\d+i32$");
    p.push(r"^\d+u64$");
    p.push(r"^-?\d+(i64)?$");
    p.push(r"^-?([0-9]+([.][0-9]*)?|[.][0-9]+)f32$");
    p.push(r"^-?([0-9]+([.][0-9]*)?|[.][0-9]+)(f64)?$");
    p.push(r"^\d{4}-\d{2}-\d{2}$");
    p.push(r"^\d{2}:\d{2}:\d{2}\.\d{0,9}$");
    p.push(r"^\d{4}-\d{2}-\d{2}T(\d{2}:\d{2}:\d{2}(\.\d{0,3})?)?$");
    p.push(r"^\d{4}-\d{2}-\d{2}D(\d{2}:\d{2}:\d{2}(\.\d{0,9})?)?$");
    p.push(r"^-?\d+D(\d{2}:\d{2}:\d{2}(\.\d{0,9})?)?$");
    p.push(r"^-?\d+(ns|s|m|h)$");
    p.push(r"^'[^']*'$");
    p.push(r#"^"[^"]*"$"#);
    p.push(r"(^(null|0n)$|^$)");
    p.push(r"^`.*$");
    proof {
        assert(texts_of(p@) =~= class_patterns());
    }
    p
}

/// The positions, in rising order, of the patterns among `patterns` that the
/// regular-expression engine finds in `text`; `None` where it takes one of
/// them for no pattern.
pub uninterp spec fn set_matches(patterns: Seq<Seq<char>>, text: Seq<char>) -> Option<Seq<usize>>;

/// Whether the regular-expression engine finds `pattern` in the bytes `text`;
/// `false` also where it takes `pattern` for no pattern.
pub uninterp spec fn pattern_found(pattern: Seq<char>, text: Seq<u8>) -> bool;

/// `regex::RegexSet::new` on the patterns, then `RegexSet::matches` on the
/// text, its positions collected in the order in which it gives them. The
/// result is named, not stated.
#[verifier::external_body]
fn matching_patterns(patterns: &Vec<&'static str>, text: &str) -> (r: Option<Vec<usize>>)
    ensures
        match r {
            Some(v) => set_matches(texts_of(patterns@), text@) == Some(v@),
            None => set_matches(texts_of(patterns@), text@) is None,
        },
{
    match regex::RegexSet::new(patterns.iter()) {
        Ok(set) => Some(set.matches(text).into_iter().collect()),
        Err(_) => None,
    }
}

/// `regex::bytes::Regex::new` on the pattern, then `Regex::is_match` on the
/// bytes. The result is named, not stated.
#[verifier::external_body]
fn found(pattern: &str, text: &[u8]) -> (r: bool)
    ensures
        r == pattern_found(pattern@, text@),
{
    match regex::bytes::Regex::new(pattern) {
        Ok(re) => re.is_match(text),
        Err(_) => false,
    }
}

/// The kind of a series literal, given the patterns that its first value
/// matches: the position of the first of them, or the number of kinds where
/// there is none.
pub open spec fn class_of(matches: Option<Seq<usize>>) -> usize {
    match matches {
        Some(m) => if m.len() > 0 {
            m[0]
        } else {
            CLASSES
        },
        None => CLASSES,
    }
}

/// The kind of the series literal whose first value is `first`.
pub open spec fn series_class(first: Seq<char>) -> usize {
    class_of(set_matches(class_patterns(), first))
}

/// Whether a token stands for a missing value.
pub open spec fn is_null_token(t: Seq<char>) -> bool {
    t == ""@ || t == "null"@ || t == "0n"@
}

pub fn null_token(t: &str) -> (r: bool)
    ensures
        r == is_null_token(t@),
{
    same_text(t, "") || same_text(t, "null") || same_text(t, "0n")
}

/// The position after the run of digits that begins at `i`.
pub open spec fn digits_end(s: Seq<u8>, i: int) -> int
    decreases s.len() - i,
{
    if 0 <= i < s.len() && is_digit(s[i]) {
        digits_end(s, i + 1)
    } else {
        i
    }
}

pub open spec fn lower(b: u8) -> u8 {
    if 65 <= b <= 90 {
        (b + 32) as u8
    } else {
        b
    }
}

/// Whether `s` from `from` on spells `word`, in letters of either case.
pub open spec fn spells(s: Seq<u8>, from: int, word: Seq<u8>) -> bool {
    &&& s.len() - from == word.len()
    &&& forall|i: int| 0 <= i < word.len() ==> lower(s[from + i]) == #[trigger] word[i]
}

pub open spec fn is_sign(b: u8) -> bool {
    b == 43 || b == 45
}

/// Whether `s` is a floating-point literal as `FromStr` of the floating types
/// takes it: an optional sign, then `inf`, `infinity` or `nan` in letters of
/// either case, or digits with at most one `.` among them and at least one
/// digit, and an optional exponent: `e` or `E`, an optional sign, digits.
pub open spec fn is_float_literal(s: Seq<u8>) -> bool {
    let from: int = if s.len() > 0 && is_sign(s[0]) {
        1
    } else {
        0
    };
    if spells(s, from, seq![105u8, 110u8, 102u8]) || spells(
        s,
        from,
        seq![105u8, 110u8, 102u8, 105u8, 110u8, 105u8, 116u8, 121u8],
    ) || spells(s, from, seq![110u8, 97u8, 110u8]) {
        true
    } else {
        let a = digits_end(s, from);
        let b = if a < s.len() && s[a] == 46 {
            digits_end(s, a + 1)
        } else {
            a
        };
        let digits = (a - from) + (if b > a {
            b - a - 1
        } else {
            0
        });
        if digits == 0 {
            false
        } else if b == s.len() {
            true
        } else if s[b] == 101 || s[b] == 69 {
            let c = if b + 1 < s.len() && is_sign(s[b + 1]) {
                b + 2
            } else {
                b + 1
            };
            digits_end(s, c) > c && digits_end(s, c) == s.len()
        } else {
            false
        }
    }
}

fn skip_digits(s: &[u8], from: usize) -> (r: usize)
    requires
        from <= s@.len(),
    ensures
        r == digits_end(s@, from as int),
        from <= r <= s@.len(),
{
    let mut i = from;
    while i < s.len() && 48 <= s[i] && s[i] <= 57
        invariant
            from <= i <= s@.len(),
            digits_end(s@, from as int) == digits_end(s@, i as int),
        decreases s@.len() - i,
    {
        i += 1;
    }
    i
}

fn to_lower(b: u8) -> (r: u8)
    ensures
        r == lower(b),
{
    if 65 <= b && b <= 90 {
        b + 32
    } else {
        b
    }
}

fn spelled(s: &[u8], from: usize, word: &[u8]) -> (r: bool)
    requires
        from <= s@.len(),
    ensures
        r == spells(s@, from as int, word@),
{
    if s.len() - from != word.len() {
        return false;
    }
    let mut i: usize = 0;
    while i < word.len()
        invariant
            from <= s@.len(),
            s@.len() - from == word@.len(),
            s@.len() <= usize::MAX,
            i <= word@.len(),
            forall|j: int| 0 <= j < i ==> lower(s@[from + j]) == #[trigger] word@[j],
        decreases word@.len() - i,
    {
        if to_lower(s[from + i]) != word[i] {
            return false;
        }
        i += 1;
    }
    true
}

/// Whether the bytes are a floating-point literal.
pub fn float_literal(s: &[u8]) -> (r: bool)
    ensures
        r == is_float_literal(s@),
{
    let n = s.len();
    let from: usize = if n > 0 && (s[0] == 43 || s[0] == 45) {
        1
    } else {
        0
    };
    let inf: [u8; 3] = [105, 110, 102];
    let infinity: [u8; 8] = [105, 110, 102, 105, 110, 105, 116, 121];
    let nan: [u8; 3] = [110, 97, 110];
    proof {
        assert(inf@ =~= seq![105u8, 110u8, 102u8]);
        assert(infinity@ =~= seq![105u8, 110u8, 102u8, 105u8, 110u8, 105u8, 116u8, 121u8]);
        assert(nan@ =~= seq![110u8, 97u8, 110u8]);
    }
    if spelled(s, from, inf.as_slice()) || spelled(s, from, infinity.as_slice()) || spelled(
        s,
        from,
        nan.as_slice(),
    ) {
        return true;
    }
    let a = skip_digits(s, from);
    let b = if a < n && s[a] == 46 {
        skip_digits(s, a + 1)
    } else {
        a
    };
    let digits = (a - from) + (if b > a {
        b - a - 1
    } else {
        0
    });
    if digits == 0 {
        return false;
    }
    if b == n {
        return true;
    }
    if s[b] == 101 || s[b] == 69 {
        let c = if b + 1 < n && (s[b + 1] == 43 || s[b + 1] == 45) {
            b + 2
        } else {
            b + 1
        };
        let d = skip_digits(s, c);
        d > c && d == n
    } else {
        false
    }
}

/// What `FromStr` of the integer types says of a text that it refuses.
pub open spec fn int_error_text(e: IntError) -> Seq<char> {
    match e {
        IntError::Empty => "cannot parse integer from empty string"@,
        IntError::InvalidDigit => "invalid digit found in string"@,
        IntError::PosOverflow => "number too large to fit in target type"@,
        IntError::NegOverflow => "number too small to fit in target type"@,
    }
}

pub fn int_error_message(e: IntError) -> (r: &'static str)
    ensures
        r@ == int_error_text(e),
{
    match e {
        IntError::Empty => "cannot parse integer from empty string",
        IntError::InvalidDigit => "invalid digit found in string",
        IntError::PosOverflow => "number too large to fit in target type",
        IntError::NegOverflow => "number too small to fit in target type",
    }
}

/// The message about `token` that says `what`.
pub open spec fn about(token: Seq<char>, what: Seq<char>) -> Seq<char> {
    "'"@ + token + "': "@ + what
}

pub fn message_about(token: &str, what: &str) -> (r: String)
    ensures
        r@ == about(token@, what@),
{
    "'".to_owned().concat(token).concat("': ").concat(what)
}


/// The type of the column that a series literal of a kind makes.
pub open spec fn class_dtype(class: usize) -> DataType {
    match class {
        0 => DataType::Boolean,
        1 => DataType::UInt8,
        2 => DataType::Int8,
        3 => DataType::UInt16,
        4 => DataType::Int16,
        5 => DataType::UInt32,
        6 => DataType::Int32,
        7 => DataType::UInt64,
        8 => DataType::Int64,
        9 => DataType::Float32,
        10 => DataType::Float64,
        11 => DataType::Date,
        12 => DataType::Time,
        13 => DataType::Datetime(TimeUnit::Milliseconds),
        14 => DataType::Datetime(TimeUnit::Nanoseconds),
        15 | 16 => DataType::Duration(TimeUnit::Nanoseconds),
        17 | 20 => DataType::Categorical,
        18 => DataType::String,
        _ => DataType::Null,
    }
}

pub fn dtype_of_class(class: usize) -> (r: DataType)
    ensures
        r == class_dtype(class),
{
    match class {
        0 => DataType::Boolean,
        1 => DataType::UInt8,
        2 => DataType::Int8,
        3 => DataType::UInt16,
        4 => DataType::Int16,
        5 => DataType::UInt32,
        6 => DataType::Int32,
        7 => DataType::UInt64,
        8 => DataType::Int64,
        9 => DataType::Float32,
        10 => DataType::Float64,
        11 => DataType::Date,
        12 => DataType::Time,
        13 => DataType::Datetime(TimeUnit::Milliseconds),
        14 => DataType::Datetime(TimeUnit::Nanoseconds),
        15 | 16 => DataType::Duration(TimeUnit::Nanoseconds),
        17 | 20 => DataType::Categorical,
        18 => DataType::String,
        _ => DataType::Null,
    }
}

/// The suffix that names the type of a numeric kind.
pub open spec fn class_suffix(class: usize) -> Seq<char> {
    match class {
        1 => "u8"@,
        2 => "i8"@,
        3 => "u16"@,
        4 => "i16"@,
        5 => "u32"@,
        6 => "i32"@,
        7 => "u64"@,
        8 => "i64"@,
        9 => "f32"@,
        _ => "f64"@,
    }
}

fn suffix_of_class(class: usize) -> (r: &'static str)
    ensures
        r@ == class_suffix(class),
{
    match class {
        1 => "u8",
        2 => "i8",
        3 => "u16",
        4 => "i16",
        5 => "u32",
        6 => "i32",
        7 => "u64",
        8 => "i64",
        9 => "f32",
        _ => "f64",
    }
}

/// `t` without the suffix behind it, where it has it.
pub open spec fn unsuffixed(t: Seq<char>, suffix: Seq<char>) -> Seq<char> {
    if crate::text::ends_with(utf8(t), utf8(suffix)) {
        match cut(t, 0, utf8(suffix).len() as int) {
            Some(s) => s,
            None => t,
        }
    } else {
        t
    }
}

fn strip_suffix(t: &str, suffix: &str) -> (r: String)
    ensures
        r@ == unsuffixed(t@, suffix@),
{
    if crate::text::has_suffix(t.as_bytes(), suffix.as_bytes()) {
        match cut_text(t, 0, suffix.as_bytes().len()) {
            Some(s) => s,
            None => t.to_owned(),
        }
    } else {
        t.to_owned()
    }
}

/// What a token of a boolean literal holds.
pub open spec fn bool_slot(t: Seq<char>) -> Result<Slot, Seq<char>> {
    if t == "true"@ || t == "1b"@ {
        Ok(Slot::Cell(CellView::Bool(true)))
    } else if t == "false"@ || t == "0b"@ {
        Ok(Slot::Cell(CellView::Bool(false)))
    } else if is_null_token(t) {
        Ok(Slot::Cell(CellView::Null))
    } else {
        Err("unrecognized bool value "@ + t)
    }
}

/// What a token of an integer literal of the type `dtype` holds.
pub open spec fn int_slot(t: Seq<char>, suffix: Seq<char>, dtype: DataType) -> Result<
    Slot,
    Seq<char>,
> {
    let s = unsuffixed(t, suffix);
    if is_null_token(s) {
        Ok(Slot::Cell(CellView::Null))
    } else {
        match dtype.int_range() {
            Some((lo, hi)) => match int_of(utf8(s), lo < 0, lo, hi) {
                Ok(v) => Ok(Slot::Cell(CellView::Int(v))),
                Err(e) => Err(about(s, int_error_text(e))),
            },
            None => Err(about(s, int_error_text(IntError::InvalidDigit))),
        }
    }
}

/// What a token of a floating-point literal holds.
pub open spec fn float_slot(t: Seq<char>, suffix: Seq<char>) -> Result<Slot, Seq<char>> {
    let s = unsuffixed(t, suffix);
    if is_null_token(s) {
        Ok(Slot::Cell(CellView::Null))
    } else if is_float_literal(utf8(s)) {
        Ok(Slot::Cell(CellView::Decimal(s)))
    } else {
        Err(about(s, "invalid float literal"@))
    }
}

/// The pattern of a symbol between single quotes.
pub open spec fn quoted_symbol() -> Seq<char> {
    r"^'[^']*'$"@
}

/// The pattern of a string between double quotes.
pub open spec fn quoted_string() -> Seq<char> {
    r#"^"[^"]*"$"#@
}

/// The pattern of a symbol behind a backtick.
pub open spec fn ticked_symbol() -> Seq<char> {
    r"^`.*$"@
}

/// What a token of a text literal holds: where the pattern is found in it,
/// the token without its marks; else a missing value where it stands for one.
pub open spec fn text_slot(
    t: Seq<char>,
    pattern: Seq<char>,
    front: int,
    back: int,
    what: Seq<char>,
) -> Result<Slot, Seq<char>> {
    if pattern_found(pattern, utf8(t)) && cut(t, front, back) is Some {
        Ok(Slot::Cell(CellView::Text(cut(t, front, back)->0)))
    } else if is_null_token(t) {
        Ok(Slot::Cell(CellView::Null))
    } else {
        Err(about(t, what))
    }
}

/// What a token of a temporal literal holds, given what the reader of its
/// kind made of it.
pub open spec fn temporal_slot(t: Seq<char>, value: Option<Slot>, error: Seq<char>) -> Result<
    Slot,
    Seq<char>,
> {
    if is_null_token(t) {
        Ok(Slot::Cell(CellView::Null))
    } else {
        match value {
            Some(s) => Ok(s),
            None => Err(about(t, error)),
        }
    }
}

pub open spec fn int_cell(v: Option<int>) -> Option<Slot> {
    match v {
        Some(x) => Some(Slot::Cell(CellView::Int(x))),
        None => None,
    }
}

pub open spec fn day_cell(v: Option<i32>) -> Option<Slot> {
    match v {
        Some(x) => Some(Slot::Cell(CellView::Int(x - UNIX_EPOCH_DAY))),
        None => None,
    }
}

pub open spec fn millis_cell(v: Option<(i64, u32)>) -> Option<Slot> {
    match v {
        Some((wall, nanos)) => Some(Slot::Millis { wall: wall as int, nanos: nanos as int }),
        None => None,
    }
}

pub open spec fn nanos_cell(v: Option<(i64, u32)>) -> Option<Slot> {
    match v {
        Some((wall, nanos)) => Some(Slot::Nanos { wall: wall as int, nanos: nanos as int }),
        None => None,
    }
}

/// What the token `t` of a series literal of the kind `class` holds, or the
/// message with which it is refused.
pub open spec fn slot_of(class: usize, t: Seq<char>) -> Result<Slot, Seq<char>> {
    match class {
        0 => bool_slot(t),
        1 | 2 | 3 | 4 | 5 | 6 | 7 | 8 => int_slot(t, class_suffix(class), class_dtype(class)),
        9 | 10 => float_slot(t, class_suffix(class)),
        11 => temporal_slot(t, day_cell(calendar_days(t)), date_error(t)),
        12 => temporal_slot(t, int_cell(time_of(utf8(t))), time_error(t)),
        13 => temporal_slot(
            t,
            millis_cell(calendar_instant(completed(t, 84), datetime_format())),
            datetime_error(t),
        ),
        14 => temporal_slot(
            t,
            nanos_cell(calendar_instant(completed(t, 68), timestamp_format())),
            timestamp_error(t),
        ),
        15 | 16 => temporal_slot(t, int_cell(duration_of(utf8(t))), duration_error(t)),
        17 => text_slot(t, quoted_symbol(), 1, 1, "not a categorical"@),
        18 => text_slot(t, quoted_string(), 1, 1, "not a string"@),
        20 => text_slot(t, ticked_symbol(), 1, 0, "not a categorical"@),
        _ => Ok(Slot::Cell(CellView::Null)),
    }
}

fn read_int(t: &str, class: usize) -> (r: Result<Cell, String>)
    requires
        1 <= class <= 8,
    ensures
        match int_slot(t@, class_suffix(class), class_dtype(class)) {
            Ok(slot) => r is Ok && shows_cell(r->Ok_0@, slot) && cell_fits(
                r->Ok_0@,
                class_dtype(class),
            ),
            Err(m) => r is Err && r->Err_0@ == m,
        },
{
    let s = strip_suffix(t, suffix_of_class(class));
    if null_token(s.as_str()) {
        return Ok(Cell::Null);
    }
    let (signed, lo, hi): (bool, i128, i128) = match class {
        1 => (false, 0, 0xff),
        2 => (true, -0x80, 0x7f),
        3 => (false, 0, 0xffff),
        4 => (true, -0x8000, 0x7fff),
        5 => (false, 0, 0xffff_ffff),
        6 => (true, -0x8000_0000, 0x7fff_ffff),
        7 => (false, 0, 0xffff_ffff_ffff_ffff),
        _ => (true, -0x8000_0000_0000_0000, 0x7fff_ffff_ffff_ffff),
    };
    match parse_int(s.as_str().as_bytes(), signed, lo, hi) {
        Ok(v) => Ok(Cell::Int(v)),
        Err(e) => Err(message_about(s.as_str(), int_error_message(e))),
    }
}

fn read_float(t: &str, class: usize) -> (r: Result<Cell, String>)
    requires
        9 <= class <= 10,
    ensures
        match float_slot(t@, class_suffix(class)) {
            Ok(slot) => r is Ok && shows_cell(r->Ok_0@, slot) && cell_fits(
                r->Ok_0@,
                class_dtype(class),
            ),
            Err(m) => r is Err && r->Err_0@ == m,
        },
{
    let s = strip_suffix(t, suffix_of_class(class));
    if null_token(s.as_str()) {
        return Ok(Cell::Null);
    }
    if float_literal(s.as_str().as_bytes()) {
        Ok(Cell::Decimal(s))
    } else {
        Err(message_about(s.as_str(), "invalid float literal"))
    }
}

fn read_text(t: &str, pattern: &str, front: usize, back: usize, what: &str) -> (r: Result<
    Cell,
    String,
>)
    ensures
        match text_slot(t@, pattern@, front as int, back as int, what@) {
            Ok(slot) => r is Ok && shows_cell(r->Ok_0@, slot) && (r->Ok_0 is Null || r->Ok_0 is Text),
            Err(m) => r is Err && r->Err_0@ == m,
        },
{
    if found(pattern, t.as_bytes()) {
        match cut_text(t, front, back) {
            Some(s) => {
                return Ok(Cell::Text(s));
            },
            None => {},
        }
    }
    if null_token(t) {
        Ok(Cell::Null)
    } else {
        Err(message_about(t, what))
    }
}

/// Reads the token `t` of a series literal of the kind `class`.
pub fn read_token(class: usize, t: &str) -> (r: Result<Cell, String>)
    ensures
        match slot_of(class, t@) {
            Ok(slot) => r is Ok && shows_cell(r->Ok_0@, slot) && cell_fits(
                r->Ok_0@,
                class_dtype(class),
            ),
            Err(m) => r is Err && r->Err_0@ == m,
        },
{
    match class {
        0 => {
            if same_text(t, "true") || same_text(t, "1b") {
                Ok(Cell::Bool(true))
            } else if same_text(t, "false") || same_text(t, "0b") {
                Ok(Cell::Bool(false))
            } else if null_token(t) {
                Ok(Cell::Null)
            } else {
                Err("unrecognized bool value ".to_owned().concat(t))
            }
        },
        1 | 2 | 3 | 4 | 5 | 6 | 7 | 8 => read_int(t, class),
        9 | 10 => read_float(t, class),
        11 => {
            if null_token(t) {
                return Ok(Cell::Null);
            }
            match parse_date(t) {
                Ok(d) => Ok(Cell::Int((d - UNIX_EPOCH_DAY) as i128)),
                Err(e) => Err(message_about(t, e.as_str())),
            }
        },
        12 => {
            if null_token(t) {
                return Ok(Cell::Null);
            }
            match parse_time(t) {
                Ok(v) => Ok(Cell::Int(v as i128)),
                Err(e) => Err(message_about(t, e.as_str())),
            }
        },
        13 => {
            if null_token(t) {
                return Ok(Cell::Null);
            }
            match parse_datetime(t) {
                Ok(v) => Ok(Cell::Int(v as i128)),
                Err(e) => Err(message_about(t, e.as_str())),
            }
        },
        14 => {
            if null_token(t) {
                return Ok(Cell::Null);
            }
            match parse_timestamp(t) {
                Ok(v) => Ok(Cell::Int(v as i128)),
                Err(e) => Err(message_about(t, e.as_str())),
            }
        },
        15 | 16 => {
            if null_token(t) {
                return Ok(Cell::Null);
            }
            match parse_duration(t) {
                Ok(v) => Ok(Cell::Int(v as i128)),
                Err(e) => Err(message_about(t, e.as_str())),
            }
        },
        17 => read_text(t, r"^'[^']*'$", 1, 1, "not a categorical"),
        18 => read_text(t, r#"^"[^"]*"$"#, 1, 1, "not a string"),
        20 => read_text(t, r"^`.*$", 1, 0, "not a categorical"),
        _ => Ok(Cell::Null),
    }
}


/// The texts of the nodes of a parse tree that stand side by side.
pub open spec fn token_texts(pairs: Seq<Pair>) -> Seq<Seq<char>> {
    Seq::new(pairs.len(), |i: int| pairs[i].text@)
}

/// The first token at or after position `i` that holds a value, or the empty
/// text where every token stands for a missing value.
pub open spec fn first_value(tokens: Seq<Seq<char>>, i: int) -> Seq<char>
    decreases tokens.len() - i,
{
    if i < 0 || i >= tokens.len() {
        Seq::empty()
    } else if !is_null_token(tokens[i]) {
        tokens[i]
    } else {
        first_value(tokens, i + 1)
    }
}

/// What the first `n` tokens of a series literal of the kind `class` hold, or
/// the message of the first that is refused.
pub open spec fn slots_of(class: usize, tokens: Seq<Seq<char>>, n: nat) -> Result<
    Seq<Slot>,
    Seq<char>,
>
    decreases n,
{
    if n == 0 || n > tokens.len() {
        Ok(Seq::empty())
    } else {
        match slots_of(class, tokens, (n - 1) as nat) {
            Ok(slots) => match slot_of(class, tokens[n - 1]) {
                Ok(slot) => Ok(slots.push(slot)),
                Err(m) => Err(m),
            },
            Err(m) => Err(m),
        }
    }
}

/// Whether the columns of a kind are columns of instants, which carry a time
/// zone.
pub open spec fn class_zoned(class: usize) -> bool {
    class == 13 || class == 14
}

/// The column that the tokens of a series literal of the kind `class` make,
/// or the message with which the literal is refused.
pub open spec fn series_plan(class: usize, tokens: Seq<Seq<char>>) -> Result<SeriesPlan, Seq<char>> {
    if class >= CLASSES {
        Err("unknown series"@)
    } else {
        match slots_of(class, tokens, tokens.len()) {
            Ok(slots) => Ok(
                SeriesPlan {
                    name: Seq::empty(),
                    dtype: class_dtype(class),
                    zoned: class_zoned(class),
                    slots,
                },
            ),
            Err(m) => Err(m),
        }
    }
}

/// The column of one missing value that a literal without any value makes.
pub open spec fn null_plan() -> SeriesPlan {
    SeriesPlan {
        name: Seq::empty(),
        dtype: DataType::Null,
        zoned: false,
        slots: seq![Slot::Cell(CellView::Null)],
    }
}

/// The column that the tokens of a series literal make: one missing value of
/// the type `Null` where the only token holds no value, else the column of the
/// kind that the first value chooses.
pub open spec fn literal_plan(tokens: Seq<Seq<char>>) -> Result<SeriesPlan, Seq<char>> {
    if tokens.len() == 1 && first_value(tokens, 0).len() == 0 {
        Ok(null_plan())
    } else {
        series_plan(series_class(first_value(tokens, 0)), tokens)
    }
}

/// A series literal whose tokens are all taken makes a column of its kind's
/// type with one cell for each token; the literal without any value makes one
/// cell of the type `Null`.
pub proof fn lemma_series_type_and_length(class: usize, tokens: Seq<Seq<char>>, n: nat)
    requires
        n <= tokens.len(),
        forall|i: int| 0 <= i < n ==> slot_of(class, #[trigger] tokens[i]) is Ok,
    ensures
        slots_of(class, tokens, n) is Ok,
        slots_of(class, tokens, n)->Ok_0.len() == n,
        class < CLASSES && n == tokens.len() ==> series_plan(class, tokens) is Ok && series_plan(
            class,
            tokens,
        )->Ok_0.dtype == class_dtype(class) && series_plan(class, tokens)->Ok_0.slots.len()
            == tokens.len(),
        null_plan().dtype == DataType::Null && null_plan().slots.len() == 1,
    decreases n,
{
    if n > 0 {
        lemma_series_type_and_length(class, tokens, (n - 1) as nat);
    }
}

/// The column of the kind `class` that the texts of `pairs` make.
pub fn typed_series(class: usize, pairs: &Vec<Pair>) -> (r: Result<Series, String>)
    ensures
        match series_plan(class, token_texts(pairs@)) {
            Ok(p) => r is Ok && crate::ast_node::shows_series(r->Ok_0@, p) && r->Ok_0@.wf(),
            Err(m) => r is Err && r->Err_0@ == m,
        },
{
    if class >= CLASSES {
        return Err("unknown series".to_owned());
    }
    let ghost tokens = token_texts(pairs@);
    let ghost mut slots: Seq<Slot> = Seq::empty();
    let dtype = dtype_of_class(class);
    let mut cells: Vec<Cell> = Vec::new();
    let mut i: usize = 0;
    while i < pairs.len()
        invariant
            i <= pairs@.len(),
            tokens == token_texts(pairs@),
            dtype == class_dtype(class),
            slots_of(class, tokens, i as nat) == Ok::<Seq<Slot>, Seq<char>>(slots),
            slots.len() == i,
            cells@.len() == i,
            forall|j: int|
                0 <= j < i ==> shows_cell((#[trigger] cells@[j])@, slots[j]) && cell_fits(
                    cells@[j]@,
                    dtype,
                ),
        decreases pairs@.len() - i,
    {
        assert(tokens[i as int] == pairs@[i as int].text@);
        match read_token(class, pairs[i].text.as_str()) {
            Ok(cell) => {
                proof {
                    slots = slots.push(slot_of(class, tokens[i as int])->Ok_0);
                }
                cells.push(cell);
            },
            Err(m) => {
                proof {
                    lemma_slots_fail(class, tokens, (i + 1) as nat, tokens.len());
                }
                return Err(m);
            },
        }
        i += 1;
    }
    proof {
        assert forall|j: int| 0 <= j < cells@.len() implies cell_fits(
            #[trigger] cells_view(cells@)[j],
            dtype,
        ) by {
            assert(cell_fits(cells@[j]@, dtype));
        }
    }
    let series = if class == 13 {
        Series::new_zoned(String::new(), TimeUnit::Milliseconds, local_zone(), cells)
    } else if class == 14 {
        Series::new_zoned(String::new(), TimeUnit::Nanoseconds, local_zone(), cells)
    } else {
        Series::new(String::new(), dtype, cells)
    };
    Ok(series.unwrap())
}

/// Once a token is refused, the literal is refused with its message however
/// many tokens follow.
pub proof fn lemma_slots_fail(class: usize, tokens: Seq<Seq<char>>, k: nat, n: nat)
    requires
        1 <= k <= n <= tokens.len(),
        slots_of(class, tokens, k) is Err,
    ensures
        slots_of(class, tokens, n) == slots_of(class, tokens, k),
    decreases n - k,
{
    if k < n {
        lemma_slots_fail(class, tokens, k, (n - 1) as nat);
    }
}

fn first_value_of(pairs: &Vec<Pair>) -> (r: &str)
    ensures
        r@ == first_value(token_texts(pairs@), 0),
{
    let mut i: usize = 0;
    while i < pairs.len()
        invariant
            i <= pairs@.len(),
            first_value(token_texts(pairs@), 0) == first_value(token_texts(pairs@), i as int),
        decreases pairs@.len() - i,
    {
        assert(token_texts(pairs@)[i as int] == pairs@[i as int].text@);
        if !null_token(pairs[i].text.as_str()) {
            return pairs[i].text.as_str();
        }
        i += 1;
    }
    proof {
        reveal_strlit("");
        assert(""@ =~= Seq::<char>::empty());
    }
    ""
}

fn class_for(first: &str) -> (r: usize)
    ensures
        r == series_class(first@),
{
    let p = patterns();
    match matching_patterns(&p, first) {
        Some(m) => if m.len() > 0 {
            m[0]
        } else {
            CLASSES
        },
        None => CLASSES,
    }
}

/// The series literal of the node `pair`, whose inner nodes are its tokens.
pub open spec fn series_literal(pair: Pair) -> Result<AstView, ErrView> {
    match literal_plan(token_texts(pair.inner@)) {
        Ok(p) => Ok(AstView::J(JView::Series(p))),
        Err(m) => Err(
            ErrView {
                kind: ErrorKind::SeriesTypeError,
                message: m,
                start: pair.start as int,
                end: pair.end as int,
            },
        ),
    }
}

/// Reads a series literal: the texts of the nodes inside `pair` are its
/// tokens.
pub fn parse_series(pair: &Pair) -> (r: Result<AstNode, ParseError>)
    ensures
        match series_literal(*pair) {
            Ok(v) => r is Ok && shows(r->Ok_0, v),
            Err(e) => r is Err && r->Err_0@ == e,
        },
{
    let first = first_value_of(&pair.inner);
    if pair.inner.len() == 1 && first.as_bytes().len() == 0 {
        proof {
            assert(first@.len() == 0) by {
                if first@.len() > 0 {
                    vstd::utf8::encode_utf8_first_scalar(first@);
                }
            }
        }
        return Ok(AstNode::J(J::Series(Series::new_null(String::new(), 1))));
    }
    proof {
        if first@.len() == 0 {
            assert(utf8(first@).len() == 0);
        }
    }
    match typed_series(class_for(first), &pair.inner) {
        Ok(s) => Ok(AstNode::J(J::Series(s))),
        Err(m) => Err(raise_error(ErrorKind::SeriesTypeError, m, pair.start, pair.end)),
    }
}

} // verus!
