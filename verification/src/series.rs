//! Typed one-dimensional columns and the tables made of them, held as plain
//! values.
use crate::text::same_text;
use vstd::prelude::*;

verus! {

/// The unit in which an instant or a span of time is counted.
#[derive(Clone, Copy, Debug, PartialEq, Eq, Structural)]
pub enum TimeUnit {
    Nanoseconds,
    Microseconds,
    Milliseconds,
}

/// The type of the values of a column.
#[derive(Clone, Copy, Debug, PartialEq, Eq, Structural)]
pub enum DataType {
    Null,
    Boolean,
    UInt8,
    UInt16,
    UInt32,
    UInt64,
    Int8,
    Int16,
    Int32,
    Int64,
    Float32,
    Float64,
    /// Days since 1970-01-01.
    Date,
    /// Nanoseconds since midnight.
    Time,
    /// An instant, counted in the unit since the epoch; the zone is the
    /// column's.
    Datetime(TimeUnit),
    Duration(TimeUnit),
    /// Text drawn from a dictionary, ordered as text.
    Categorical,
    String,
}

/// One value of a column.
#[derive(Debug, PartialEq, Eq)]
pub enum Cell {
    /// A missing value.
    Null,
    Bool(bool),
    /// A value of an integer type, or what counts a temporal one.
    Int(i128),
    Text(String),
    /// A value of a floating type, as its decimal literal.
    Decimal(String),
}

/// What a cell holds.
pub enum CellView {
    Null,
    Bool(bool),
    Int(int),
    Text(Seq<char>),
    Decimal(Seq<char>),
}

impl View for Cell {
    type V = CellView;

    open spec fn view(&self) -> CellView {
        match self {
            Cell::Null => CellView::Null,
            Cell::Bool(b) => CellView::Bool(*b),
            Cell::Int(v) => CellView::Int(*v as int),
            Cell::Text(s) => CellView::Text(s@),
            Cell::Decimal(s) => CellView::Decimal(s@),
        }
    }
}

impl Clone for Cell {
    fn clone(&self) -> (r: Cell)
        ensures
            r@ == self@,
    {
        match self {
            Cell::Null => Cell::Null,
            Cell::Bool(b) => Cell::Bool(*b),
            Cell::Int(v) => Cell::Int(*v),
            Cell::Text(s) => Cell::Text(s.clone()),
            Cell::Decimal(s) => Cell::Decimal(s.clone()),
        }
    }
}

impl DataType {
    /// The least and the greatest integer that a value of the type may be
    /// counted by, for the integer types and the temporal ones.
    pub open spec fn int_range(self) -> Option<(int, int)> {
        match self {
            DataType::UInt8 => Some((0, 0xff)),
            DataType::UInt16 => Some((0, 0xffff)),
            DataType::UInt32 => Some((0, 0xffff_ffff)),
            DataType::UInt64 => Some((0, 0xffff_ffff_ffff_ffff)),
            DataType::Int8 => Some((-0x80, 0x7f)),
            DataType::Int16 => Some((-0x8000, 0x7fff)),
            DataType::Int32 | DataType::Date => Some((-0x8000_0000, 0x7fff_ffff)),
            DataType::Int64 | DataType::Time | DataType::Datetime(_) | DataType::Duration(_) => Some(
                (-0x8000_0000_0000_0000, 0x7fff_ffff_ffff_ffff),
            ),
            _ => None,
        }
    }

    pub open spec fn spec_is_float(self) -> bool {
        self == DataType::Float32 || self == DataType::Float64
    }

    /// An integer or a floating type.
    pub open spec fn spec_is_primitive_numeric(self) -> bool {
        match self {
            DataType::UInt8
            | DataType::UInt16
            | DataType::UInt32
            | DataType::UInt64
            | DataType::Int8
            | DataType::Int16
            | DataType::Int32
            | DataType::Int64
            | DataType::Float32
            | DataType::Float64 => true,
            _ => false,
        }
    }

    pub open spec fn spec_is_temporal(self) -> bool {
        match self {
            DataType::Date | DataType::Time | DataType::Datetime(_) | DataType::Duration(_) => true,
            _ => false,
        }
    }

    #[verifier::when_used_as_spec(spec_is_float)]
    pub fn is_float(self) -> (r: bool)
        ensures
            r == self.spec_is_float(),
    {
        match self {
            DataType::Float32 | DataType::Float64 => true,
            _ => false,
        }
    }

    #[verifier::when_used_as_spec(spec_is_primitive_numeric)]
    pub fn is_primitive_numeric(self) -> (r: bool)
        ensures
            r == self.spec_is_primitive_numeric(),
    {
        match self {
            DataType::UInt8
            | DataType::UInt16
            | DataType::UInt32
            | DataType::UInt64
            | DataType::Int8
            | DataType::Int16
            | DataType::Int32
            | DataType::Int64
            | DataType::Float32
            | DataType::Float64 => true,
            _ => false,
        }
    }

    #[verifier::when_used_as_spec(spec_is_temporal)]
    pub fn is_temporal(self) -> (r: bool)
        ensures
            r == self.spec_is_temporal(),
    {
        match self {
            DataType::Date | DataType::Time | DataType::Datetime(_) | DataType::Duration(_) => true,
            _ => false,
        }
    }

    pub fn is_bool(self) -> (r: bool)
        ensures
            r == (self == DataType::Boolean),
    {
        match self {
            DataType::Boolean => true,
            _ => false,
        }
    }

    /// The name under which the type appears in messages.
    pub open spec fn spec_name(self) -> Seq<char> {
        match self {
            DataType::Null => "null"@,
            DataType::Boolean => "bool"@,
            DataType::UInt8 => "u8"@,
            DataType::UInt16 => "u16"@,
            DataType::UInt32 => "u32"@,
            DataType::UInt64 => "u64"@,
            DataType::Int8 => "i8"@,
            DataType::Int16 => "i16"@,
            DataType::Int32 => "i32"@,
            DataType::Int64 => "i64"@,
            DataType::Float32 => "f32"@,
            DataType::Float64 => "f64"@,
            DataType::Date => "date"@,
            DataType::Time => "time"@,
            DataType::Datetime(TimeUnit::Nanoseconds) => "datetime[ns]"@,
            DataType::Datetime(TimeUnit::Microseconds) => "datetime[μs]"@,
            DataType::Datetime(TimeUnit::Milliseconds) => "datetime[ms]"@,
            DataType::Duration(TimeUnit::Nanoseconds) => "duration[ns]"@,
            DataType::Duration(TimeUnit::Microseconds) => "duration[μs]"@,
            DataType::Duration(TimeUnit::Milliseconds) => "duration[ms]"@,
            DataType::Categorical => "cat"@,
            DataType::String => "str"@,
        }
    }

    pub fn name(self) -> (r: &'static str)
        ensures
            r@ == self.spec_name(),
    {
        match self {
            DataType::Null => "null",
            DataType::Boolean => "bool",
            DataType::UInt8 => "u8",
            DataType::UInt16 => "u16",
            DataType::UInt32 => "u32",
            DataType::UInt64 => "u64",
            DataType::Int8 => "i8",
            DataType::Int16 => "i16",
            DataType::Int32 => "i32",
            DataType::Int64 => "i64",
            DataType::Float32 => "f32",
            DataType::Float64 => "f64",
            DataType::Date => "date",
            DataType::Time => "time",
            DataType::Datetime(TimeUnit::Nanoseconds) => "datetime[ns]",
            DataType::Datetime(TimeUnit::Microseconds) => "datetime[μs]",
            DataType::Datetime(TimeUnit::Milliseconds) => "datetime[ms]",
            DataType::Duration(TimeUnit::Nanoseconds) => "duration[ns]",
            DataType::Duration(TimeUnit::Microseconds) => "duration[μs]",
            DataType::Duration(TimeUnit::Milliseconds) => "duration[ms]",
            DataType::Categorical => "cat",
            DataType::String => "str",
        }
    }
}

/// Whether a cell may stand in a column of type `t`.
pub open spec fn cell_fits(c: CellView, t: DataType) -> bool {
    match c {
        CellView::Null => true,
        CellView::Bool(_) => t == DataType::Boolean,
        CellView::Int(v) => match t.int_range() {
            Some((lo, hi)) => lo <= v <= hi,
            None => false,
        },
        CellView::Text(_) => t == DataType::String || t == DataType::Categorical,
        CellView::Decimal(_) => t.spec_is_float(),
    }
}

/// A named, typed column.
#[derive(Debug, PartialEq, Eq)]
pub struct Series {
    name: String,
    dtype: DataType,
    zone: Option<String>,
    cells: Vec<Cell>,
}

/// What a column holds.
pub struct SeriesView {
    pub name: Seq<char>,
    pub dtype: DataType,
    /// The time zone of a column of instants.
    pub zone: Option<Seq<char>>,
    pub cells: Seq<CellView>,
}

impl SeriesView {
    /// Every cell fits the type, and only a column of instants has a zone.
    pub open spec fn wf(self) -> bool {
        &&& forall|i: int| 0 <= i < self.cells.len() ==> cell_fits(#[trigger] self.cells[i], self.dtype)
        &&& self.zone is Some ==> self.dtype is Datetime
    }

    pub open spec fn len(self) -> nat {
        self.cells.len()
    }
}

/// The cells of a column, each as what it holds.
pub open spec fn cells_view(cells: Seq<Cell>) -> Seq<CellView> {
    Seq::new(cells.len(), |i: int| cells[i]@)
}

pub open spec fn zone_view(zone: Option<String>) -> Option<Seq<char>> {
    match zone {
        Some(z) => Some(z@),
        None => None,
    }
}

impl View for Series {
    type V = SeriesView;

    closed spec fn view(&self) -> SeriesView {
        SeriesView {
            name: self.name@,
            dtype: self.dtype,
            zone: zone_view(self.zone),
            cells: cells_view(self.cells@),
        }
    }
}

/// Whether every cell of `cells` fits `dtype`.
pub fn cells_fit(cells: &Vec<Cell>, dtype: DataType) -> (r: bool)
    ensures
        r == (forall|i: int|
            0 <= i < cells@.len() ==> cell_fits(#[trigger] cells_view(cells@)[i], dtype)),
{
    let mut i: usize = 0;
    while i < cells.len()
        invariant
            i <= cells@.len(),
            forall|j: int| 0 <= j < i ==> cell_fits(#[trigger] cells_view(cells@)[j], dtype),
        decreases cells@.len() - i,
    {
        let fits = match &cells[i] {
            Cell::Null => true,
            Cell::Bool(_) => dtype.is_bool(),
            Cell::Int(v) => match dtype {
                DataType::UInt8 => 0 <= *v && *v <= 0xff,
                DataType::UInt16 => 0 <= *v && *v <= 0xffff,
                DataType::UInt32 => 0 <= *v && *v <= 0xffff_ffff,
                DataType::UInt64 => 0 <= *v && *v <= 0xffff_ffff_ffff_ffff,
                DataType::Int8 => -0x80 <= *v && *v <= 0x7f,
                DataType::Int16 => -0x8000 <= *v && *v <= 0x7fff,
                DataType::Int32 | DataType::Date => -0x8000_0000 <= *v && *v <= 0x7fff_ffff,
                DataType::Int64 | DataType::Time | DataType::Datetime(_) | DataType::Duration(_) =>
                    -0x8000_0000_0000_0000 <= *v && *v <= 0x7fff_ffff_ffff_ffff,
                _ => false,
            },
            Cell::Text(_) => match dtype {
                DataType::String | DataType::Categorical => true,
                _ => false,
            },
            Cell::Decimal(_) => dtype.is_float(),
        };
        if !fits {
            assert(!cell_fits(cells_view(cells@)[i as int], dtype));
            return false;
        }
        i += 1;
    }
    true
}

impl Series {
    /// A column of `dtype` named `name` that holds `cells`; `None` where a
    /// cell does not fit the type.
    pub fn new(name: String, dtype: DataType, cells: Vec<Cell>) -> (r: Option<Series>)
        ensures
            r is Some <==> (forall|i: int|
                0 <= i < cells@.len() ==> cell_fits(#[trigger] cells_view(cells@)[i], dtype)),
            r is Some ==> r->0@ == (SeriesView {
                name: name@,
                dtype,
                zone: None,
                cells: cells_view(cells@),
            }) && r->0@.wf(),
    {
        if cells_fit(&cells, dtype) {
            Some(Series { name, dtype, zone: None, cells })
        } else {
            None
        }
    }

    /// A column of instants in `zone`; `None` where a cell is no integer of 64
    /// bits.
    pub fn new_zoned(name: String, unit: TimeUnit, zone: String, cells: Vec<Cell>) -> (r: Option<
        Series,
    >)
        ensures
            r is Some <==> (forall|i: int|
                0 <= i < cells@.len() ==> cell_fits(
                    #[trigger] cells_view(cells@)[i],
                    DataType::Datetime(unit),
                )),
            r is Some ==> r->0@ == (SeriesView {
                name: name@,
                dtype: DataType::Datetime(unit),
                zone: Some(zone@),
                cells: cells_view(cells@),
            }) && r->0@.wf(),
    {
        if cells_fit(&cells, DataType::Datetime(unit)) {
            Some(Series { name, dtype: DataType::Datetime(unit), zone: Some(zone), cells })
        } else {
            None
        }
    }

    /// A column of `len` missing values of the type `Null`.
    pub fn new_null(name: String, len: usize) -> (r: Series)
        ensures
            r@ == (SeriesView {
                name: name@,
                dtype: DataType::Null,
                zone: None,
                cells: Seq::new(len as nat, |i: int| CellView::Null),
            }),
            r@.wf(),
    {
        let mut cells: Vec<Cell> = Vec::new();
        while cells.len() < len
            invariant
                cells@.len() <= len,
                forall|j: int| 0 <= j < cells@.len() ==> cells@[j]@ == CellView::Null,
            decreases len - cells@.len(),
        {
            cells.push(Cell::Null);
        }
        proof {
            assert(cells_view(cells@) =~= Seq::new(len as nat, |i: int| CellView::Null));
        }
        Series { name, dtype: DataType::Null, zone: None, cells }
    }

    pub fn name(&self) -> (r: &str)
        ensures
            r@ == self@.name,
    {
        self.name.as_str()
    }

    pub fn dtype(&self) -> (r: DataType)
        ensures
            r == self@.dtype,
    {
        self.dtype
    }

    /// The time zone of a column of instants.
    pub fn zone(&self) -> (r: Option<&str>)
        ensures
            match r {
                Some(z) => self@.zone == Some(z@),
                None => self@.zone is None,
            },
    {
        match &self.zone {
            Some(z) => Some(z.as_str()),
            None => None,
        }
    }

    pub fn len(&self) -> (r: usize)
        ensures
            r == self@.len(),
    {
        self.cells.len()
    }

    /// The cell at position `i`.
    pub fn get(&self, i: usize) -> (r: Option<&Cell>)
        ensures
            match r {
                Some(c) => i < self@.len() && c@ == self@.cells[i as int],
                None => i >= self@.len(),
            },
    {
        if i < self.cells.len() {
            Some(&self.cells[i])
        } else {
            None
        }
    }

    /// Gives the column another name.
    pub fn rename(&mut self, name: String)
        ensures
            final(self)@ == (SeriesView { name: name@, ..old(self)@ }),
    {
        self.name = name;
    }

    /// A copy of the column.
    pub fn duplicate(&self) -> (r: Series)
        ensures
            r@ == self@,
    {
        let mut cells: Vec<Cell> = Vec::new();
        let mut i: usize = 0;
        while i < self.cells.len()
            invariant
                i <= self.cells@.len(),
                cells@.len() == i,
                forall|j: int| 0 <= j < i ==> cells@[j]@ == self.cells@[j]@,
            decreases self.cells@.len() - i,
        {
            cells.push(self.cells[i].clone());
            i += 1;
        }
        let zone = match &self.zone {
            Some(z) => Some(z.clone()),
            None => None,
        };
        proof {
            assert(cells_view(cells@) =~= cells_view(self.cells@));
        }
        Series { name: self.name.clone(), dtype: self.dtype, zone, cells }
    }
}

impl Clone for Series {
    fn clone(&self) -> (r: Series)
        ensures
            r@ == self@,
    {
        self.duplicate()
    }
}

/// Whether no two of the first `n` columns share a name.
pub open spec fn names_differ(columns: Seq<Series>, n: int) -> bool {
    forall|i: int, j: int|
        0 <= i < j < n ==> (#[trigger] columns[i])@.name != (#[trigger] columns[j])@.name
}

/// Whether all columns are as long as the first.
pub open spec fn lengths_agree(columns: Seq<Series>) -> bool {
    forall|i: int| 0 <= i < columns.len() ==> (#[trigger] columns[i])@.len() == columns[0]@.len()
}

/// A table: columns of one length, each under a name of its own.
#[derive(Debug, PartialEq, Eq)]
pub struct DataFrame {
    columns: Vec<Series>,
}

/// Why columns make no table.
#[derive(Clone, Copy, Debug, PartialEq, Eq, Structural)]
pub enum FrameError {
    /// The column at this position has the name of an earlier one.
    Duplicate(usize),
    /// The column at this position is not as long as the first.
    ShapeMismatch(usize),
}

/// Whether the name at position `k` stands at an earlier position too.
pub open spec fn name_repeats(names: Seq<Seq<char>>, k: int) -> bool {
    exists|i: int| 0 <= i < k && #[trigger] names[i] == names[k]
}

/// The first position at or after `from` whose name stands earlier too.
pub open spec fn first_repeat(names: Seq<Seq<char>>, from: int) -> Option<int>
    decreases names.len() - from,
{
    if from < 0 || from >= names.len() {
        None
    } else if name_repeats(names, from) {
        Some(from)
    } else {
        first_repeat(names, from + 1)
    }
}

/// The first position at or after `from` whose length is not the first one.
pub open spec fn first_unequal(lens: Seq<nat>, from: int) -> Option<int>
    decreases lens.len() - from,
{
    if from < 0 || from >= lens.len() {
        None
    } else if lens[from] != lens[0] {
        Some(from)
    } else {
        first_unequal(lens, from + 1)
    }
}

/// Why columns of these names and lengths make no table, if they make none:
/// the first repeated name, else the first length that is not the first one.
pub open spec fn frame_fault(names: Seq<Seq<char>>, lens: Seq<nat>) -> Option<FrameError> {
    match first_repeat(names, 0) {
        Some(k) => Some(FrameError::Duplicate(k as usize)),
        None => match first_unequal(lens, 1) {
            Some(k) => Some(FrameError::ShapeMismatch(k as usize)),
            None => None,
        },
    }
}

pub proof fn lemma_first_repeat_bounds(names: Seq<Seq<char>>, from: int)
    requires
        0 <= from,
    ensures
        first_repeat(names, from) is Some ==> from <= first_repeat(names, from)->0 < names.len(),
    decreases names.len() - from,
{
    if from < names.len() && !name_repeats(names, from) {
        lemma_first_repeat_bounds(names, from + 1);
    }
}

pub proof fn lemma_first_unequal_bounds(lens: Seq<nat>, from: int)
    requires
        0 <= from,
    ensures
        first_unequal(lens, from) is Some ==> from <= first_unequal(lens, from)->0 < lens.len(),
    decreases lens.len() - from,
{
    if from < lens.len() && lens[from] == lens[0] {
        lemma_first_unequal_bounds(lens, from + 1);
    }
}

pub open spec fn column_names(columns: Seq<Series>) -> Seq<Seq<char>> {
    Seq::new(columns.len(), |i: int| columns[i]@.name)
}

pub open spec fn column_lens(columns: Seq<Series>) -> Seq<nat> {
    Seq::new(columns.len(), |i: int| columns[i]@.len())
}

fn name_taken(columns: &Vec<Series>, k: usize) -> (r: bool)
    requires
        k < columns@.len(),
    ensures
        r == name_repeats(column_names(columns@), k as int),
{
    let mut i: usize = 0;
    while i < k
        invariant
            i <= k < columns@.len(),
            forall|j: int|
                0 <= j < i ==> #[trigger] column_names(columns@)[j] != column_names(columns@)[k as int],
        decreases k - i,
    {
        if same_text(columns[i].name(), columns[k].name()) {
            assert(column_names(columns@)[i as int] == column_names(columns@)[k as int]);
            return true;
        }
        i += 1;
    }
    false
}

/// Where no name repeats, the names differ.
pub proof fn lemma_no_repeat(columns: Seq<Series>, from: int)
    requires
        0 <= from <= columns.len(),
        first_repeat(column_names(columns), from) is None,
        names_differ(columns, from),
    ensures
        names_differ(columns, columns.len() as int),
    decreases columns.len() - from,
{
    if from < columns.len() {
        let names = column_names(columns);
        assert(!name_repeats(names, from));
        assert forall|i: int, j: int| 0 <= i < j < from + 1 implies (#[trigger] columns[i])@.name != (
        #[trigger] columns[j])@.name by {
            if j == from {
                assert(names[i] == columns[i]@.name);
                assert(names[from] == columns[from]@.name);
            }
        }
        lemma_no_repeat(columns, from + 1);
    }
}

/// Where no length is unequal, the lengths agree.
pub proof fn lemma_no_unequal(columns: Seq<Series>, from: int)
    requires
        1 <= from,
        first_unequal(column_lens(columns), from) is None,
        forall|i: int| 0 <= i < from && i < columns.len() ==> (#[trigger] columns[i])@.len() == columns[0]@.len(),
    ensures
        lengths_agree(columns),
    decreases columns.len() - from,
{
    if from < columns.len() {
        let lens = column_lens(columns);
        assert(lens[from] == columns[from]@.len());
        assert(lens[0] == columns[0]@.len());
        lemma_no_unequal(columns, from + 1);
    }
}

impl DataFrame {
    pub closed spec fn columns(&self) -> Seq<Series> {
        self.columns@
    }

    /// The names differ and the lengths agree.
    pub open spec fn wf(&self) -> bool {
        &&& names_differ(self.columns(), self.columns().len() as int)
        &&& lengths_agree(self.columns())
    }

    /// The table of `columns`: refused where two columns share a name, and
    /// else where one is not as long as the first.
    pub fn new(columns: Vec<Series>) -> (r: Result<DataFrame, FrameError>)
        ensures
            match frame_fault(column_names(columns@), column_lens(columns@)) {
                Some(e) => r == Err::<DataFrame, FrameError>(e),
                None => r is Ok && r->Ok_0.columns() == columns@ && r->Ok_0.wf(),
            },
    {
        let ghost names = column_names(columns@);
        let ghost lens = column_lens(columns@);
        let mut k: usize = 0;
        while k < columns.len()
            invariant
                k <= columns@.len(),
                names == column_names(columns@),
                first_repeat(names, 0) == first_repeat(names, k as int),
            decreases columns@.len() - k,
        {
            if name_taken(&columns, k) {
                return Err(FrameError::Duplicate(k));
            }
            k += 1;
        }
        let mut i: usize = 1;
        while i < columns.len()
            invariant
                1 <= i,
                names == column_names(columns@),
                lens == column_lens(columns@),
                first_repeat(names, 0) is None,
                first_unequal(lens, 1) == first_unequal(lens, i as int),
            decreases columns@.len() - i,
        {
            assert(lens[i as int] == columns@[i as int]@.len());
            assert(lens[0] == columns@[0]@.len());
            if columns[i].len() != columns[0].len() {
                return Err(FrameError::ShapeMismatch(i));
            }
            i += 1;
        }
        proof {
            lemma_no_repeat(columns@, 0);
            lemma_no_unequal(columns@, 1);
        }
        Ok(DataFrame { columns })
    }

    /// The number of columns.
    pub fn width(&self) -> (r: usize)
        ensures
            r == self.columns().len(),
    {
        self.columns.len()
    }

    /// The number of rows: the length of each column, 0 with no column.
    pub fn height(&self) -> (r: usize)
        ensures
            r == if self.columns().len() == 0 {
                0
            } else {
                self.columns()[0]@.len()
            },
    {
        if self.columns.len() == 0 {
            0
        } else {
            self.columns[0].len()
        }
    }

    /// The column at position `i`.
    pub fn column(&self, i: usize) -> (r: Option<&Series>)
        ensures
            match r {
                Some(c) => i < self.columns().len() && *c == self.columns()[i as int],
                None => i >= self.columns().len(),
            },
    {
        if i < self.columns.len() {
            Some(&self.columns[i])
        } else {
            None
        }
    }
}

/// A copy of each column.
pub fn duplicate_columns(columns: &Vec<Series>) -> (r: Vec<Series>)
    ensures
        r@.len() == columns@.len(),
        forall|i: int| 0 <= i < r@.len() ==> (#[trigger] r@[i])@ == columns@[i]@,
{
    let mut out: Vec<Series> = Vec::new();
    let mut i: usize = 0;
    while i < columns.len()
        invariant
            i <= columns@.len(),
            out@.len() == i,
            forall|j: int| 0 <= j < i ==> (#[trigger] out@[j])@ == columns@[j]@,
        decreases columns@.len() - i,
    {
        out.push(columns[i].duplicate());
        i += 1;
    }
    out
}

impl DataFrame {
    /// A copy of the table.
    pub fn duplicate(&self) -> (r: DataFrame)
        ensures
            r.columns().len() == self.columns().len(),
            forall|i: int|
                0 <= i < r.columns().len() ==> (#[trigger] r.columns()[i])@ == self.columns()[i]@,
    {
        DataFrame { columns: duplicate_columns(&self.columns) }
    }
}

impl Clone for DataFrame {
    fn clone(&self) -> (r: DataFrame)
        ensures
            r.columns().len() == self.columns().len(),
            forall|i: int|
                0 <= i < r.columns().len() ==> (#[trigger] r.columns()[i])@ == self.columns()[i]@,
    {
        self.duplicate()
    }
}

impl Matrix {
    /// A copy of the array.
    pub fn duplicate(&self) -> (r: Matrix)
        ensures
            r.rows().len() == self.rows().len(),
            forall|i: int| 0 <= i < r.rows().len() ==> (#[trigger] r.rows()[i])@ == self.rows()[i]@,
    {
        Matrix { rows: duplicate_columns(&self.rows) }
    }
}

impl Clone for Matrix {
    fn clone(&self) -> (r: Matrix)
        ensures
            r.rows().len() == self.rows().len(),
            forall|i: int| 0 <= i < r.rows().len() ==> (#[trigger] r.rows()[i])@ == self.rows()[i]@,
    {
        self.duplicate()
    }
}

/// A dense two-dimensional array of numbers, held by its columns: the columns
/// of the literal are the rows of the array.
#[derive(Debug, PartialEq, Eq)]
pub struct Matrix {
    rows: Vec<Series>,
}

/// Whether a column may stand in a matrix: its type is numeric or boolean.
pub open spec fn numeric_or_bool(t: DataType) -> bool {
    t.spec_is_primitive_numeric() || t == DataType::Boolean
}

impl Matrix {
    pub closed spec fn rows(&self) -> Seq<Series> {
        self.rows@
    }

    /// The rows are of one length and of numeric or boolean type.
    pub open spec fn wf(&self) -> bool {
        &&& lengths_agree(self.rows())
        &&& forall|i: int|
            0 <= i < self.rows().len() ==> numeric_or_bool((#[trigger] self.rows()[i])@.dtype)
    }

    /// The array whose rows are the columns of `frame`, or `None` where a
    /// column is neither numeric nor boolean.
    pub fn from_frame(frame: DataFrame) -> (r: Option<Matrix>)
        ensures
            r is Some <==> (forall|i: int|
                0 <= i < frame.columns().len() ==> numeric_or_bool(
                    (#[trigger] frame.columns()[i])@.dtype,
                )),
            r is Some ==> r->0.rows() == frame.columns() && (frame.wf() ==> r->0.wf()),
    {
        let mut i: usize = 0;
        while i < frame.columns.len()
            invariant
                i <= frame.columns@.len(),
                forall|j: int|
                    0 <= j < i ==> numeric_or_bool((#[trigger] frame.columns@[j])@.dtype),
            decreases frame.columns@.len() - i,
        {
            let t = frame.columns[i].dtype();
            if !(t.is_primitive_numeric() || t.is_bool()) {
                return None;
            }
            i += 1;
        }
        Some(Matrix { rows: frame.columns })
    }

    /// The number of rows and the number of columns of the array.
    pub fn shape(&self) -> (r: (usize, usize))
        ensures
            r.0 == self.rows().len(),
            r.1 == if self.rows().len() == 0 {
                0
            } else {
                self.rows()[0]@.len()
            },
    {
        if self.rows.len() == 0 {
            (0, 0)
        } else {
            (self.rows.len(), self.rows[0].len())
        }
    }

    /// The row at position `i`.
    pub fn row(&self, i: usize) -> (r: Option<&Series>)
        ensures
            match r {
                Some(c) => i < self.rows().len() && *c == self.rows()[i as int],
                None => i >= self.rows().len(),
            },
    {
        if i < self.rows.len() {
            Some(&self.rows[i])
        } else {
            None
        }
    }
}

} // verus!
