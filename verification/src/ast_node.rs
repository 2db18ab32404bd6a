//! The syntax tree.
use crate::errors::JError;
use crate::j::collected;
use crate::j::dict_entries;
use crate::j::J;
use crate::series::CellView;
use crate::series::DataType;
use crate::series::Series;
use crate::series::SeriesView;
use crate::temporal::local_millis;
use crate::temporal::local_nanos;
use vstd::prelude::*;

verus! {

/// A node of the syntax tree. A literal whose parts are all constant is one
/// node that carries its value.
#[derive(Debug, PartialEq)]
#[allow(inconsistent_fields)]
pub enum AstNode {
    J(J),
    Fn { stmts: Vec<AstNode>, arg_names: Vec<String>, fn_body: String, start: usize, source_id: usize },
    UnaryOp { op: Box<AstNode>, exp: Box<AstNode> },
    BinOp { op: Box<AstNode>, lhs: Box<AstNode>, rhs: Box<AstNode> },
    Assign { id: String, exp: Box<AstNode> },
    IndexAssign { id: Box<AstNode>, indices: Vec<AstNode>, exp: Box<AstNode> },
    Op { name: String, start: usize, source_id: usize },
    Id { name: String, start: usize, source_id: usize },
    Call { f: Box<AstNode>, args: Vec<AstNode>, start: usize, source_id: usize },
    If { cond: Box<AstNode>, stmts: Vec<AstNode> },
    While { cond: Box<AstNode>, stmts: Vec<AstNode> },
    Try { tries: Vec<AstNode>, err: String, catches: Vec<AstNode> },
    Return(Box<AstNode>),
    Raise { exp: Box<AstNode>, start: usize, source_id: usize },
    Dataframe { exps: Vec<AstNode>, start: usize, source_id: usize },
    Matrix(Vec<AstNode>),
    Dict { keys: Vec<String>, values: Vec<AstNode> },
    List(Vec<AstNode>),
    Series { name: String, exp: Box<AstNode> },
    Sql {
        op: String,
        from: Box<AstNode>,
        filters: Vec<AstNode>,
        group_type: String,
        groups: Vec<AstNode>,
        ops: Vec<AstNode>,
        sorts: Vec<AstNode>,
        take: Box<AstNode>,
        source_id: usize,
        start: usize,
    },
    Skip,
}

/// What is known of one cell of a literal column before the source is read on
/// a given machine: the cell itself, or the wall-clock time of an instant in
/// milliseconds or in nanoseconds, `wall` seconds and `nanos` nanoseconds
/// after 1970-01-01T00:00:00, which the machine's time zone settles.
#[allow(inconsistent_fields)]
pub enum Slot {
    Cell(CellView),
    Millis { wall: int, nanos: int },
    Nanos { wall: int, nanos: int },
}

/// What is known of a literal column: its name, its type, whether it has a
/// time zone, and its cells.
pub struct SeriesPlan {
    pub name: Seq<char>,
    pub dtype: DataType,
    pub zoned: bool,
    pub slots: Seq<Slot>,
}

/// What is known of a literal value. An instant is given by its wall-clock
/// time, `wall` seconds and `nanos` nanoseconds after 1970-01-01T00:00:00,
/// which the machine's time zone settles; a dictionary by the keys and values
/// of the literal in the order of the source, before a repeated key is folded
/// into its first place.
#[allow(inconsistent_fields)]
pub enum JView {
    Boolean(bool),
    I64(int),
    Date(int),
    Time(int),
    Datetime { wall: int, nanos: int },
    Timestamp { wall: int, nanos: int },
    Duration(int),
    F64(Seq<char>),
    String(Seq<char>),
    Cat(Seq<char>),
    Null,
    Series(SeriesPlan),
    Matrix(Seq<SeriesPlan>),
    MixedList(Seq<JView>),
    Dict { keys: Seq<Seq<char>>, values: Seq<JView> },
    DataFrame(Seq<SeriesPlan>),
    Error(Seq<char>),
}

/// What is known of a node of the syntax tree.
#[allow(inconsistent_fields)]
pub enum AstView {
    J(JView),
    Fn { stmts: Seq<AstView>, arg_names: Seq<Seq<char>>, fn_body: Seq<char>, start: int, source_id: int },
    UnaryOp { op: Box<AstView>, exp: Box<AstView> },
    BinOp { op: Box<AstView>, lhs: Box<AstView>, rhs: Box<AstView> },
    Assign { id: Seq<char>, exp: Box<AstView> },
    IndexAssign { id: Box<AstView>, indices: Seq<AstView>, exp: Box<AstView> },
    Op { name: Seq<char>, start: int, source_id: int },
    Id { name: Seq<char>, start: int, source_id: int },
    Call { f: Box<AstView>, args: Seq<AstView>, start: int, source_id: int },
    If { cond: Box<AstView>, stmts: Seq<AstView> },
    While { cond: Box<AstView>, stmts: Seq<AstView> },
    Try { tries: Seq<AstView>, err: Seq<char>, catches: Seq<AstView> },
    Return(Box<AstView>),
    Raise { exp: Box<AstView>, start: int, source_id: int },
    Dataframe { exps: Seq<AstView>, start: int, source_id: int },
    Matrix(Seq<AstView>),
    Dict { keys: Seq<Seq<char>>, values: Seq<AstView> },
    List(Seq<AstView>),
    Series { name: Seq<char>, exp: Box<AstView> },
    Sql {
        op: Seq<char>,
        from: Box<AstView>,
        filters: Seq<AstView>,
        group_type: Seq<char>,
        groups: Seq<AstView>,
        ops: Seq<AstView>,
        sorts: Seq<AstView>,
        take: Box<AstView>,
        source_id: int,
        start: int,
    },
    Skip,
}

/// Whether a cell is as `s` says: the cell itself, or the integer of an
/// instant that a zone may make of the wall-clock time.
pub open spec fn shows_cell(c: CellView, s: Slot) -> bool {
    match s {
        Slot::Cell(v) => c == v,
        Slot::Millis { wall, nanos } => c matches CellView::Int(v) && local_millis(wall, nanos, v),
        Slot::Nanos { wall, nanos } => c matches CellView::Int(v) && local_nanos(wall, nanos, v),
    }
}

/// Whether a column is as `p` says.
pub open spec fn shows_series(s: SeriesView, p: SeriesPlan) -> bool {
    &&& s.name == p.name
    &&& s.dtype == p.dtype
    &&& s.zone is Some <==> p.zoned
    &&& s.cells.len() == p.slots.len()
    &&& forall|i: int| 0 <= i < p.slots.len() ==> shows_cell(s.cells[i], #[trigger] p.slots[i])
}

/// Whether columns are as `plans` say, one by one.
pub open spec fn shows_columns(columns: Seq<Series>, plans: Seq<SeriesPlan>) -> bool {
    &&& columns.len() == plans.len()
    &&& forall|i: int| 0 <= i < plans.len() ==> shows_series(columns[i]@, #[trigger] plans[i])
}

/// Whether texts are as `views` say, one by one.
pub open spec fn shows_texts(texts: Seq<String>, views: Seq<Seq<char>>) -> bool {
    &&& texts.len() == views.len()
    &&& forall|i: int| 0 <= i < views.len() ==> texts[i]@ == #[trigger] views[i]
}

/// Whether a value is as `v` says.
pub open spec fn shows_j(j: J, v: JView) -> bool
    decreases v,
{
    match v {
        JView::Boolean(b) => j == J::Boolean(b),
        JView::I64(n) => j matches J::I64(x) && x == n,
        JView::Date(n) => j matches J::Date(x) && x == n,
        JView::Time(n) => j matches J::Time(x) && x == n,
        JView::Datetime { wall, nanos } => j matches J::Datetime { ms, .. } && local_millis(
            wall,
            nanos,
            ms as int,
        ),
        JView::Timestamp { wall, nanos } => j matches J::Timestamp { ns, .. } && local_nanos(
            wall,
            nanos,
            ns as int,
        ),
        JView::Duration(n) => j matches J::Duration(x) && x == n,
        JView::F64(s) => j matches J::F64(t) && t@ == s,
        JView::String(s) => j matches J::String(t) && t@ == s,
        JView::Cat(s) => j matches J::Cat(t) && t@ == s,
        JView::Null => j is Null,
        JView::Series(p) => j matches J::Series(s) && shows_series(s@, p),
        JView::Matrix(ps) => j matches J::Matrix(m) && shows_columns(m.rows(), ps),
        JView::MixedList(vs) => j matches J::MixedList(js) && js@.len() == vs.len() && forall|
            i: int,
        |
            0 <= i < vs.len() ==> shows_j(js@[i], #[trigger] vs[i]),
        JView::Dict { keys, values } => j matches J::Dict(d) && exists|pairs: Seq<(String, J)>|
            #![trigger collected(pairs, pairs.len())]
            {
                &&& pairs.len() == keys.len()
                &&& pairs.len() == values.len()
                &&& forall|i: int|
                    0 <= i < values.len() ==> pairs[i].0@ == keys[i] && shows_j(
                        pairs[i].1,
                        #[trigger] values[i],
                    )
                &&& dict_entries(d) == collected(pairs, pairs.len())
            },
        JView::DataFrame(ps) => j matches J::DataFrame(df) && shows_columns(df.columns(), ps),
        JView::Error(s) => j matches J::Error(t) && t@ == s,
    }
}

/// Whether a node is as `v` says.
pub open spec fn shows(n: AstNode, v: AstView) -> bool
    decreases v,
{
    match v {
        AstView::J(jv) => n matches AstNode::J(j) && shows_j(j, jv),
        AstView::Fn { stmts, arg_names, fn_body, start, source_id } => n matches AstNode::Fn {
            stmts: s,
            arg_names: a,
            fn_body: b,
            start: st,
            source_id: sid,
        } && shows_all(s@, stmts) && shows_texts(a@, arg_names) && b@ == fn_body && st == start && sid
            == source_id,
        AstView::UnaryOp { op, exp } => n matches AstNode::UnaryOp { op: o, exp: e } && shows(*o, *op)
            && shows(*e, *exp),
        AstView::BinOp { op, lhs, rhs } => n matches AstNode::BinOp { op: o, lhs: l, rhs: r }
            && shows(*o, *op) && shows(*l, *lhs) && shows(*r, *rhs),
        AstView::Assign { id, exp } => n matches AstNode::Assign { id: i, exp: e } && i@ == id
            && shows(*e, *exp),
        AstView::IndexAssign { id, indices, exp } => n matches AstNode::IndexAssign {
            id: i,
            indices: x,
            exp: e,
        } && shows(*i, *id) && shows_all(x@, indices) && shows(*e, *exp),
        AstView::Op { name, start, source_id } => n matches AstNode::Op {
            name: m,
            start: st,
            source_id: sid,
        } && m@ == name && st == start && sid == source_id,
        AstView::Id { name, start, source_id } => n matches AstNode::Id {
            name: m,
            start: st,
            source_id: sid,
        } && m@ == name && st == start && sid == source_id,
        AstView::Call { f, args, start, source_id } => n matches AstNode::Call {
            f: g,
            args: a,
            start: st,
            source_id: sid,
        } && shows(*g, *f) && shows_all(a@, args) && st == start && sid == source_id,
        AstView::If { cond, stmts } => n matches AstNode::If { cond: c, stmts: s } && shows(*c, *cond)
            && shows_all(s@, stmts),
        AstView::While { cond, stmts } => n matches AstNode::While { cond: c, stmts: s } && shows(
            *c,
            *cond,
        ) && shows_all(s@, stmts),
        AstView::Try { tries, err, catches } => n matches AstNode::Try {
            tries: t,
            err: e,
            catches: c,
        } && shows_all(t@, tries) && e@ == err && shows_all(c@, catches),
        AstView::Return(exp) => n matches AstNode::Return(e) && shows(*e, *exp),
        AstView::Raise { exp, start, source_id } => n matches AstNode::Raise {
            exp: e,
            start: st,
            source_id: sid,
        } && shows(*e, *exp) && st == start && sid == source_id,
        AstView::Dataframe { exps, start, source_id } => n matches AstNode::Dataframe {
            exps: e,
            start: st,
            source_id: sid,
        } && shows_all(e@, exps) && st == start && sid == source_id,
        AstView::Matrix(exps) => n matches AstNode::Matrix(e) && shows_all(e@, exps),
        AstView::Dict { keys, values } => n matches AstNode::Dict { keys: k, values: x }
            && shows_texts(k@, keys) && shows_all(x@, values),
        AstView::List(exps) => n matches AstNode::List(e) && shows_all(e@, exps),
        AstView::Series { name, exp } => n matches AstNode::Series { name: m, exp: e } && m@ == name
            && shows(*e, *exp),
        AstView::Sql {
            op,
            from,
            filters,
            group_type,
            groups,
            ops,
            sorts,
            take,
            source_id,
            start,
        } => n matches AstNode::Sql {
            op: o,
            from: f,
            filters: fi,
            group_type: gt,
            groups: g,
            ops: os,
            sorts: so,
            take: t,
            source_id: sid,
            start: st,
        } && o@ == op && shows(*f, *from) && shows_all(fi@, filters) && gt@ == group_type
            && shows_all(g@, groups) && shows_all(os@, ops) && shows_all(so@, sorts) && shows(
            *t,
            *take,
        ) && sid == source_id && st == start,
        AstView::Skip => n is Skip,
    }
}

/// Whether nodes are as `views` say, one by one.
pub open spec fn shows_all(nodes: Seq<AstNode>, views: Seq<AstView>) -> bool
    decreases views,
{
    &&& nodes.len() == views.len()
    &&& forall|i: int| 0 <= i < views.len() ==> shows(nodes[i], #[trigger] views[i])
}

impl AstNode {
    /// The value of a literal; any other node is refused.
    pub fn as_j(self) -> (r: Result<J, JError>)
        ensures
            match self {
                AstNode::J(j) => r == Ok::<J, JError>(j),
                _ => r is Err && (r->Err_0 matches JError::ParserErr(m) && m@
                    == "Failed to cast to J"@),
            },
    {
        if let AstNode::J(j) = self {
            Ok(j)
        } else {
            Err(JError::ParserErr("Failed to cast to J".to_owned()))
        }
    }
}

} // verus!
