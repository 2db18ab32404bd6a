//! The values of the language.
use crate::series::Cell;
use crate::series::CellView;
use crate::series::DataFrame;
use crate::series::DataType;
use crate::series::Matrix;
use crate::series::Series;
use crate::series::SeriesView;
use crate::series::TimeUnit;
use crate::text::same_text;
use indexmap::IndexMap;
use vstd::prelude::*;

verus! {

/// A value: a scalar, a column, a table, a list or a dictionary of values, or
/// an error carried as a value.
#[derive(Debug, PartialEq)]
pub enum J {
    Boolean(bool),
    I64(i64),
    /// Days since 1970-01-01.
    Date(i32),
    /// Nanoseconds since midnight.
    Time(i64),
    /// Milliseconds since the epoch, shown in a time zone.
    Datetime { ms: i64, timezone: String },
    /// Nanoseconds since the epoch, shown in a time zone.
    Timestamp { ns: i64, timezone: String },
    /// Nanoseconds.
    Duration(i64),
    /// A floating-point number, as its decimal literal.
    F64(String),
    String(String),
    /// A symbol.
    Cat(String),
    Null,
    Series(Series),
    Matrix(Matrix),
    MixedList(Vec<J>),
    Dict(Dict),
    DataFrame(DataFrame),
    /// An error carried as a value.
    Error(String),
}

/// A dictionary from text to values that keeps the order in which its keys
/// first came.
#[verifier::external_body]
#[derive(Debug, PartialEq)]
pub struct Dict {
    entries: IndexMap<String, J>,
}

/// The keys of a dictionary with their values, in the dictionary's order.
pub uninterp spec fn dict_entries(d: Dict) -> Seq<(Seq<char>, J)>;

/// The position of `key` among `entries`.
pub open spec fn key_position(entries: Seq<(Seq<char>, J)>, key: Seq<char>) -> Option<int> {
    if exists|i: int| 0 <= i < entries.len() && (#[trigger] entries[i]).0 == key {
        Some(choose|i: int| 0 <= i < entries.len() && (#[trigger] entries[i]).0 == key)
    } else {
        None
    }
}

/// `entries` after `key` was given `value`: a key that is there keeps its
/// place and takes the value, a new one goes to the end.
pub open spec fn inserted(entries: Seq<(Seq<char>, J)>, key: Seq<char>, value: J) -> Seq<
    (Seq<char>, J),
> {
    match key_position(entries, key) {
        Some(i) => entries.update(i, (key, value)),
        None => entries.push((key, value)),
    }
}

/// The entries that the first `n` of `pairs` leave, inserted one after the
/// other.
pub open spec fn collected(pairs: Seq<(String, J)>, n: nat) -> Seq<(Seq<char>, J)>
    decreases n,
{
    if n == 0 || n > pairs.len() {
        Seq::empty()
    } else {
        inserted(collected(pairs, (n - 1) as nat), pairs[n - 1].0@, pairs[n - 1].1)
    }
}

/// Whether the columns `b` are those of `a`: as many, and each with the name,
/// the type, the zone and the cells of the one at its place.
pub open spec fn same_columns(a: Seq<Series>, b: Seq<Series>) -> bool {
    &&& b.len() == a.len()
    &&& forall|i: int| 0 <= i < a.len() ==> (#[trigger] b[i])@ == a[i]@
}

/// Whether the value `b` is a copy of `a`: it is of the same kind and holds
/// the same number, the same text and zone, the same columns cell by cell, or
/// the same keys with the same values; a list holds a copy of each item at
/// its place.
pub open spec fn alike(a: J, b: J) -> bool
    decreases a,
{
    match a {
        J::Boolean(x) => b == J::Boolean(x),
        J::I64(x) => b == J::I64(x),
        J::Date(x) => b == J::Date(x),
        J::Time(x) => b == J::Time(x),
        J::Datetime { ms, timezone } => b matches J::Datetime { ms: m, timezone: t } && m == ms
            && t@ == timezone@,
        J::Timestamp { ns, timezone } => b matches J::Timestamp { ns: n, timezone: t } && n == ns
            && t@ == timezone@,
        J::Duration(x) => b == J::Duration(x),
        J::F64(s) => b matches J::F64(t) && t@ == s@,
        J::String(s) => b matches J::String(t) && t@ == s@,
        J::Cat(s) => b matches J::Cat(t) && t@ == s@,
        J::Null => b is Null,
        J::Series(s) => b matches J::Series(t) && t@ == s@,
        J::Matrix(m) => b matches J::Matrix(n) && same_columns(m.rows(), n.rows()),
        J::MixedList(v) => b matches J::MixedList(w) && w@.len() == v@.len() && forall|i: int|
            0 <= i < v@.len() ==> alike(#[trigger] v[i], w[i]),
        J::Dict(d) => b matches J::Dict(e) && dict_entries(e) == dict_entries(d),
        J::DataFrame(d) => b matches J::DataFrame(e) && same_columns(d.columns(), e.columns()),
        J::Error(s) => b matches J::Error(t) && t@ == s@,
    }
}

impl Dict {
    /// `IndexMap::from_iter`: the dictionary that inserting the pairs in order
    /// gives, a later value replacing an earlier one under the same key.
    #[verifier::external_body]
    pub(crate) fn from_pairs(pairs: Vec<(String, J)>) -> (r: Dict)
        ensures
            dict_entries(r) == collected(pairs@, pairs@.len()),
    {
        Dict { entries: IndexMap::from_iter(pairs) }
    }

    /// `IndexMap::len`: the number of entries.
    #[verifier::external_body]
    pub(crate) fn count(&self) -> (n: usize)
        ensures
            n == dict_entries(*self).len(),
    {
        self.entries.len()
    }

    /// `IndexMap::get_index`: the key and the value at a position.
    #[verifier::external_body]
    pub(crate) fn entry(&self, i: usize) -> (r: Option<(&String, &J)>)
        ensures
            match r {
                Some((k, v)) => i < dict_entries(*self).len() && k@ == dict_entries(*self)[i as int].0
                    && *v == dict_entries(*self)[i as int].1,
                None => i >= dict_entries(*self).len(),
            },
    {
        self.entries.get_index(i)
    }

    /// `IndexMap::clone`.
    #[verifier::external_body]
    pub(crate) fn copy(&self) -> (r: Dict)
        ensures
            dict_entries(r) == dict_entries(*self),
    {
        Dict { entries: self.entries.clone() }
    }

    /// The dictionary of the keys with the values at the same positions, as
    /// far as both reach.
    pub fn new(keys: Vec<String>, values: Vec<J>) -> (r: Dict)
        requires
            keys@.len() == values@.len(),
        ensures
            exists|pairs: Seq<(String, J)>|
                #![trigger collected(pairs, pairs.len())]
                pairs.len() == keys@.len() && (forall|i: int|
                    0 <= i < pairs.len() ==> (#[trigger] pairs[i]).0@ == keys@[i]@ && pairs[i].1
                        == values@[i]) && dict_entries(r) == collected(pairs, pairs.len()),
    {
        let ghost all_keys = keys@;
        let ghost all_values = values@;
        let mut keys = keys;
        let mut values = values;
        let mut reversed: Vec<(String, J)> = Vec::new();
        while keys.len() > 0
            invariant
                keys@.len() == values@.len(),
                keys@.len() + reversed@.len() == all_keys.len(),
                all_keys.len() == all_values.len(),
                keys@ == all_keys.subrange(0, keys@.len() as int),
                values@ == all_values.subrange(0, values@.len() as int),
                forall|i: int|
                    0 <= i < reversed@.len() ==> (#[trigger] reversed@[i]).0 == all_keys[all_keys.len()
                        - 1 - i] && reversed@[i].1 == all_values[all_keys.len() - 1 - i],
            decreases keys@.len(),
        {
            let k = keys.pop().unwrap();
            let v = values.pop().unwrap();
            reversed.push((k, v));
        }
        let mut pairs: Vec<(String, J)> = Vec::new();
        while reversed.len() > 0
            invariant
                all_keys.len() == all_values.len(),
                pairs@.len() + reversed@.len() == all_keys.len(),
                forall|i: int|
                    0 <= i < reversed@.len() ==> (#[trigger] reversed@[i]).0 == all_keys[all_keys.len()
                        - 1 - i] && reversed@[i].1 == all_values[all_keys.len() - 1 - i],
                forall|i: int|
                    0 <= i < pairs@.len() ==> (#[trigger] pairs@[i]).0 == all_keys[i] && pairs@[i].1
                        == all_values[i],
            decreases reversed@.len(),
        {
            let p = reversed.pop().unwrap();
            pairs.push(p);
        }
        Dict::from_pairs(pairs)
    }

    /// The number of entries.
    pub fn len(&self) -> (n: usize)
        ensures
            n == dict_entries(*self).len(),
    {
        self.count()
    }

    /// The key at position `i`.
    pub fn key_at(&self, i: usize) -> (r: Option<&String>)
        ensures
            match r {
                Some(k) => i < dict_entries(*self).len() && k@ == dict_entries(*self)[i as int].0,
                None => i >= dict_entries(*self).len(),
            },
    {
        match self.entry(i) {
            Some((k, _)) => Some(k),
            None => None,
        }
    }

    /// The value at position `i`.
    pub fn value_at(&self, i: usize) -> (r: Option<&J>)
        ensures
            match r {
                Some(v) => i < dict_entries(*self).len() && *v == dict_entries(*self)[i as int].1,
                None => i >= dict_entries(*self).len(),
            },
    {
        match self.entry(i) {
            Some((_, v)) => Some(v),
            None => None,
        }
    }

    /// The value under `key`: that of the first entry with this key.
    pub fn get(&self, key: &str) -> (r: Option<&J>)
        ensures
            match r {
                Some(v) => exists|i: int|
                    0 <= i < dict_entries(*self).len() && (#[trigger] dict_entries(*self)[i]).0
                        == key@ && dict_entries(*self)[i].1 == *v && forall|j: int|
                        0 <= j < i ==> (#[trigger] dict_entries(*self)[j]).0 != key@,
                None => forall|i: int|
                    0 <= i < dict_entries(*self).len() ==> (#[trigger] dict_entries(*self)[i]).0
                        != key@,
            },
    {
        let n = self.count();
        let mut i: usize = 0;
        while i < n
            invariant
                n == dict_entries(*self).len(),
                i <= n,
                forall|j: int| 0 <= j < i ==> (#[trigger] dict_entries(*self)[j]).0 != key@,
            decreases n - i,
        {
            match self.entry(i) {
                Some((k, v)) => {
                    if same_text(k.as_str(), key) {
                        return Some(v);
                    }
                },
                None => {},
            }
            i += 1;
        }
        None
    }
}

impl Clone for Dict {
    fn clone(&self) -> (r: Dict)
        ensures
            dict_entries(r) == dict_entries(*self),
    {
        self.copy()
    }
}

/// The one-cell column that a scalar value makes, without its name.
pub open spec fn scalar_column(j: J) -> Option<(DataType, Option<Seq<char>>, CellView)> {
    match j {
        J::Boolean(b) => Some((DataType::Boolean, None, CellView::Bool(b))),
        J::I64(v) => Some((DataType::Int64, None, CellView::Int(v as int))),
        J::F64(s) => Some((DataType::Float64, None, CellView::Decimal(s@))),
        J::Date(v) => Some((DataType::Date, None, CellView::Int(v as int))),
        J::Timestamp { ns, timezone } => Some(
            (DataType::Datetime(TimeUnit::Nanoseconds), Some(timezone@), CellView::Int(ns as int)),
        ),
        J::Datetime { ms, timezone } => Some(
            (DataType::Datetime(TimeUnit::Milliseconds), Some(timezone@), CellView::Int(ms as int)),
        ),
        J::Time(v) => Some((DataType::Time, None, CellView::Int(v as int))),
        J::Duration(v) => Some(
            (DataType::Duration(TimeUnit::Nanoseconds), None, CellView::Int(v as int)),
        ),
        J::Cat(s) => Some((DataType::Categorical, None, CellView::Text(s@))),
        J::String(s) => Some((DataType::String, None, CellView::Text(s@))),
        J::Null => Some((DataType::Null, None, CellView::Null)),
        _ => None,
    }
}

/// The column of length 1 that a scalar value makes, under the empty name.
pub open spec fn scalar_series(j: J) -> Option<SeriesView> {
    match scalar_column(j) {
        Some((dtype, zone, cell)) => Some(
            SeriesView { name: Seq::empty(), dtype, zone, cells: seq![cell] },
        ),
        None => None,
    }
}

/// The name of the kind of a value, as it appears in messages.
pub open spec fn kind_name(j: J) -> Seq<char> {
    match j {
        J::Boolean(_) => "bool"@,
        J::I64(_) => "i64"@,
        J::F64(_) => "f64"@,
        J::Date(_) => "date"@,
        J::Timestamp { .. } => "timestamp"@,
        J::Datetime { .. } => "datetime"@,
        J::Time(_) => "time"@,
        J::Duration(_) => "duration"@,
        J::Cat(_) => "sym"@,
        J::String(_) => "str"@,
        J::MixedList(_) => "list"@,
        J::Series(_) => "series"@,
        J::Matrix(_) => "matrix"@,
        J::Dict(_) => "dict"@,
        J::DataFrame(_) => "df"@,
        J::Error(_) => "err"@,
        J::Null => "null"@,
    }
}

fn one_cell(dtype: DataType, cell: Cell) -> (r: Series)
    requires
        crate::series::cell_fits(cell@, dtype),
    ensures
        r@ == (SeriesView { name: Seq::empty(), dtype, zone: None, cells: seq![cell@] }),
        r@.wf(),
{
    let mut cells: Vec<Cell> = Vec::new();
    cells.push(cell);
    proof {
        assert(crate::series::cells_view(cells@) =~= seq![cell@]);
    }
    let s = Series::new(String::new(), dtype, cells);
    s.unwrap()
}

fn one_instant(unit: TimeUnit, zone: String, at: i64) -> (r: Series)
    ensures
        r@ == (SeriesView {
            name: Seq::empty(),
            dtype: DataType::Datetime(unit),
            zone: Some(zone@),
            cells: seq![CellView::Int(at as int)],
        }),
        r@.wf(),
{
    let mut cells: Vec<Cell> = Vec::new();
    cells.push(Cell::Int(at as i128));
    proof {
        assert(crate::series::cells_view(cells@) =~= seq![CellView::Int(at as int)]);
    }
    let s = Series::new_zoned(String::new(), unit, zone, cells);
    s.unwrap()
}

impl J {
    /// Lifts a scalar, or `Null`, into a column of length 1 of the matching
    /// type; a column, a table, a list, a dictionary or an error is refused.
    pub fn into_series(&self) -> (r: Result<Series, String>)
        ensures
            match scalar_series(*self) {
                Some(v) => r is Ok && r->Ok_0@ == v && v.wf(),
                None => r is Err && r->Err_0@ == "cannot turn into a series"@,
            },
    {
        match self {
            J::Boolean(s) => Ok(one_cell(DataType::Boolean, Cell::Bool(*s))),
            J::I64(s) => Ok(one_cell(DataType::Int64, Cell::Int(*s as i128))),
            J::F64(s) => Ok(one_cell(DataType::Float64, Cell::Decimal(s.clone()))),
            J::Date(s) => Ok(one_cell(DataType::Date, Cell::Int(*s as i128))),
            J::Timestamp { ns, timezone } => Ok(
                one_instant(TimeUnit::Nanoseconds, timezone.clone(), *ns),
            ),
            J::Datetime { ms, timezone } => Ok(
                one_instant(TimeUnit::Milliseconds, timezone.clone(), *ms),
            ),
            J::Time(s) => Ok(one_cell(DataType::Time, Cell::Int(*s as i128))),
            J::Duration(s) => Ok(
                one_cell(DataType::Duration(TimeUnit::Nanoseconds), Cell::Int(*s as i128)),
            ),
            J::Cat(s) => Ok(one_cell(DataType::Categorical, Cell::Text(s.clone()))),
            J::String(s) => Ok(one_cell(DataType::String, Cell::Text(s.clone()))),
            J::Null => Ok(one_cell(DataType::Null, Cell::Null)),
            _ => Err("cannot turn into a series".to_owned()),
        }
    }

    /// A copy of the column that the value is; any other value is refused.
    pub fn series(&self) -> (r: Result<Series, String>)
        ensures
            match *self {
                J::Series(s) => r is Ok && r->Ok_0@ == s@,
                _ => r is Err && r->Err_0@ == "not a series"@,
            },
    {
        match self {
            J::Series(s) => Ok(s.duplicate()),
            _ => Err("not a series".to_owned()),
        }
    }

    /// Whether the value is an integer or a floating-point scalar.
    pub fn is_numeric(&self) -> (r: bool)
        ensures
            r == (*self is I64 || *self is F64),
    {
        match self {
            J::I64(_) | J::F64(_) => true,
            _ => false,
        }
    }

    /// Whether the value is a boolean scalar.
    pub fn is_bool(&self) -> (r: bool)
        ensures
            r == (*self is Boolean),
    {
        match self {
            J::Boolean(_) => true,
            _ => false,
        }
    }

    /// The name of the kind of the value.
    pub fn get_type_name(&self) -> (r: String)
        ensures
            r@ == kind_name(*self),
    {
        match self {
            J::Boolean(_) => "bool".to_owned(),
            J::I64(_) => "i64".to_owned(),
            J::F64(_) => "f64".to_owned(),
            J::Date(_) => "date".to_owned(),
            J::Timestamp { .. } => "timestamp".to_owned(),
            J::Datetime { .. } => "datetime".to_owned(),
            J::Time(_) => "time".to_owned(),
            J::Duration(_) => "duration".to_owned(),
            J::Cat(_) => "sym".to_owned(),
            J::String(_) => "str".to_owned(),
            J::MixedList(_) => "list".to_owned(),
            J::Series(_) => "series".to_owned(),
            J::Matrix(_) => "matrix".to_owned(),
            J::Dict(_) => "dict".to_owned(),
            J::DataFrame(_) => "df".to_owned(),
            J::Error(_) => "err".to_owned(),
            J::Null => "null".to_owned(),
        }
    }

    /// A copy of the value.
    pub fn duplicate(&self) -> (r: J)
        ensures
            alike(*self, r),
        decreases self,
    {
        match self {
            J::Boolean(b) => J::Boolean(*b),
            J::I64(v) => J::I64(*v),
            J::Date(v) => J::Date(*v),
            J::Time(v) => J::Time(*v),
            J::Datetime { ms, timezone } => J::Datetime { ms: *ms, timezone: timezone.clone() },
            J::Timestamp { ns, timezone } => J::Timestamp { ns: *ns, timezone: timezone.clone() },
            J::Duration(v) => J::Duration(*v),
            J::F64(s) => J::F64(s.clone()),
            J::String(s) => J::String(s.clone()),
            J::Cat(s) => J::Cat(s.clone()),
            J::Null => J::Null,
            J::Series(s) => J::Series(s.duplicate()),
            J::Matrix(m) => J::Matrix(m.duplicate()),
            J::MixedList(v) => {
                let mut out: Vec<J> = Vec::new();
                let mut i: usize = 0;
                while i < v.len()
                    invariant
                        i <= v@.len(),
                        out@.len() == i,
                        forall|j: int| 0 <= j < i ==> alike(#[trigger] v[j], out[j]),
                        *self is MixedList,
                        self->MixedList_0 == *v,
                    decreases v@.len() - i,
                {
                    proof {
                        vstd::std_specs::vec::axiom_vec_index_decreases(*v, i as int);
                        assert(decreases_to!(*self => self->MixedList_0));
                    }
                    out.push(v[i].duplicate());
                    i += 1;
                }
                J::MixedList(out)
            },
            J::Dict(d) => J::Dict(d.copy()),
            J::DataFrame(d) => J::DataFrame(d.duplicate()),
            J::Error(s) => J::Error(s.clone()),
        }
    }
}

impl Clone for J {
    fn clone(&self) -> (r: J)
        ensures
            alike(*self, r),
    {
        self.duplicate()
    }
}

} // verus!
