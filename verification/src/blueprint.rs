//! What the syntax tree of a parse tree is: the rules by which each node of the
//! parse tree becomes a node of the syntax tree, a folded literal, or an error.
use crate::ast_node::AstView;
use crate::ast_node::JView;
use crate::ast_node::SeriesPlan;
use crate::ast_node::Slot;
use crate::errors::ErrView;
use crate::errors::ErrorKind;
use crate::keyword::reserved;
use crate::pair::Pair;
use crate::pair::Rule;
use crate::series::first_repeat;
use crate::series::first_unequal;
use crate::series::numeric_or_bool;
use crate::series::CellView;
use crate::series::DataType;
use crate::series::TimeUnit;
use crate::temporal::calendar_days;
use crate::temporal::calendar_instant;
use crate::temporal::completed;
use crate::temporal::date_error;
use crate::temporal::datetime_error;
use crate::temporal::datetime_format;
use crate::temporal::duration_error;
use crate::temporal::duration_of;
use crate::temporal::time_error;
use crate::temporal::time_of;
use crate::temporal::timestamp_error;
use crate::temporal::timestamp_format;
use crate::temporal::UNIX_EPOCH_DAY;
use crate::text::cut;
use crate::text::decoded;
use crate::text::head;
use crate::text::i64_of;
use crate::text::split;
use crate::text::utf8;
use crate::typing::int_error_text;
use crate::typing::is_float_literal;
use crate::typing::series_literal;
use vstd::prelude::*;

verus! {

/// An error of `kind` with `message` about the span of `p`.
pub open spec fn error_at(kind: ErrorKind, message: Seq<char>, p: Pair) -> ErrView {
    ErrView { kind, message, start: p.start as int, end: p.end as int }
}

/// The error of a node that lacks what its rule promises.
pub open spec fn malformed(p: Pair) -> ErrView {
    error_at(ErrorKind::SyntaxError, "Malformed "@ + p.rule.spec_name(), p)
}

/// The error of a node whose rule has no place where it stands.
pub open spec fn unexpected(what: Seq<char>, p: Pair) -> ErrView {
    error_at(ErrorKind::SyntaxError, what + p.rule.spec_name(), p)
}

/// The error of a reserved word that stands for an identifier.
pub open spec fn reserved_word(p: Pair) -> ErrView {
    error_at(ErrorKind::ReservedKeyword, "Keyword cannot be used as identifier: "@ + p.text@, p)
}

pub open spec fn id_view(p: Pair, sid: usize) -> AstView {
    AstView::Id { name: p.text@, start: p.start as int, source_id: sid as int }
}

pub open spec fn op_view(p: Pair, sid: usize) -> AstView {
    AstView::Op { name: p.text@, start: p.start as int, source_id: sid as int }
}

/// What `FromStr` of the floating types says of a text that it refuses.
pub open spec fn float_error_text(t: Seq<char>) -> Seq<char> {
    if utf8(t).len() == 0 {
        "cannot parse float from empty string"@
    } else {
        "invalid float literal"@
    }
}

/// The value of a scalar literal.
pub open spec fn literal_of(p: Pair) -> Result<JView, ErrView> {
    let t = p.text@;
    match p.rule {
        Rule::Boolean => Ok(JView::Boolean(t == "1b"@ || t == "true"@)),
        Rule::Integer => match i64_of(utf8(t)) {
            Ok(v) => Ok(JView::I64(v)),
            Err(e) => Err(error_at(ErrorKind::LiteralError, int_error_text(e), p)),
        },
        Rule::Decimal => if is_float_literal(utf8(t)) {
            Ok(JView::F64(t))
        } else {
            Err(error_at(ErrorKind::LiteralError, float_error_text(t), p))
        },
        Rule::Date => match calendar_days(t) {
            Some(d) => Ok(JView::Date(d - UNIX_EPOCH_DAY)),
            None => Err(error_at(ErrorKind::LiteralError, date_error(t), p)),
        },
        Rule::Time => match time_of(utf8(t)) {
            Some(v) => Ok(JView::Time(v)),
            None => Err(error_at(ErrorKind::LiteralError, time_error(t), p)),
        },
        Rule::Datetime => match calendar_instant(completed(t, 84), datetime_format()) {
            Some((wall, nanos)) => Ok(JView::Datetime { wall: wall as int, nanos: nanos as int }),
            None => Err(error_at(ErrorKind::LiteralError, datetime_error(t), p)),
        },
        Rule::Timestamp => match calendar_instant(completed(t, 68), timestamp_format()) {
            Some((wall, nanos)) => Ok(JView::Timestamp { wall: wall as int, nanos: nanos as int }),
            None => Err(error_at(ErrorKind::LiteralError, timestamp_error(t), p)),
        },
        Rule::Duration => match duration_of(utf8(t)) {
            Some(v) => Ok(JView::Duration(v)),
            None => Err(error_at(ErrorKind::LiteralError, duration_error(t), p)),
        },
        Rule::Cat => match cut(t, 1, 0) {
            Some(s) => Ok(JView::Cat(s)),
            None => Err(malformed(p)),
        },
        Rule::CatAlt => match cut(t, 1, 1) {
            Some(s) => Ok(JView::Cat(s)),
            None => Err(malformed(p)),
        },
        Rule::String => match cut(t, 1, 1) {
            Some(s) => Ok(JView::String(s)),
            None => Err(malformed(p)),
        },
        Rule::Null => Ok(JView::Null),
        _ => Err(unexpected("Unexpected j: "@, p)),
    }
}

/// The cells of a column of symbols.
pub open spec fn symbol_slots(texts: Seq<Seq<char>>) -> Seq<Slot> {
    Seq::new(texts.len(), |i: int| Slot::Cell(CellView::Text(texts[i])))
}

/// The column of a run of symbols, each behind its backtick.
pub open spec fn cats_of(p: Pair) -> Result<AstView, ErrView> {
    match cut(p.text@, 1, 0) {
        Some(rest) => Ok(
            AstView::J(
                JView::Series(
                    SeriesPlan {
                        name: Seq::empty(),
                        dtype: DataType::Categorical,
                        zoned: false,
                        slots: symbol_slots(decoded(split(utf8(rest), 96))),
                    },
                ),
            ),
        ),
        None => Err(malformed(p)),
    }
}

/// The column of one cell that a scalar value makes, under the empty name.
pub open spec fn scalar_plan(v: JView) -> Option<SeriesPlan> {
    match v {
        JView::Boolean(b) => Some(one_slot(DataType::Boolean, false, Slot::Cell(CellView::Bool(b)))),
        JView::I64(n) => Some(one_slot(DataType::Int64, false, Slot::Cell(CellView::Int(n)))),
        JView::F64(s) => Some(one_slot(DataType::Float64, false, Slot::Cell(CellView::Decimal(s)))),
        JView::Date(n) => Some(one_slot(DataType::Date, false, Slot::Cell(CellView::Int(n)))),
        JView::Timestamp { wall, nanos } => Some(
            one_slot(DataType::Datetime(TimeUnit::Nanoseconds), true, Slot::Nanos { wall, nanos }),
        ),
        JView::Datetime { wall, nanos } => Some(
            one_slot(DataType::Datetime(TimeUnit::Milliseconds), true, Slot::Millis { wall, nanos }),
        ),
        JView::Time(n) => Some(one_slot(DataType::Time, false, Slot::Cell(CellView::Int(n)))),
        JView::Duration(n) => Some(
            one_slot(DataType::Duration(TimeUnit::Nanoseconds), false, Slot::Cell(CellView::Int(n))),
        ),
        JView::Cat(s) => Some(one_slot(DataType::Categorical, false, Slot::Cell(CellView::Text(s)))),
        JView::String(s) => Some(one_slot(DataType::String, false, Slot::Cell(CellView::Text(s)))),
        JView::Null => Some(one_slot(DataType::Null, false, Slot::Cell(CellView::Null))),
        _ => None,
    }
}

pub open spec fn one_slot(dtype: DataType, zoned: bool, slot: Slot) -> SeriesPlan {
    SeriesPlan { name: Seq::empty(), dtype, zoned, slots: seq![slot] }
}

/// The column `plan` under another name.
pub open spec fn named(plan: SeriesPlan, name: Seq<char>) -> SeriesPlan {
    SeriesPlan { name, ..plan }
}

/// The name of the kind of a value, as it appears in messages.
pub open spec fn view_kind_name(v: JView) -> Seq<char> {
    match v {
        JView::Boolean(_) => "bool"@,
        JView::I64(_) => "i64"@,
        JView::F64(_) => "f64"@,
        JView::Date(_) => "date"@,
        JView::Timestamp { .. } => "timestamp"@,
        JView::Datetime { .. } => "datetime"@,
        JView::Time(_) => "time"@,
        JView::Duration(_) => "duration"@,
        JView::Cat(_) => "sym"@,
        JView::String(_) => "str"@,
        JView::MixedList(_) => "list"@,
        JView::Series(_) => "series"@,
        JView::Matrix(_) => "matrix"@,
        JView::Dict { .. } => "dict"@,
        JView::DataFrame(_) => "df"@,
        JView::Error(_) => "err"@,
        JView::Null => "null"@,
    }
}

pub open spec fn digit_text(d: u8) -> Seq<char> {
    match d {
        0 => "0"@,
        1 => "1"@,
        2 => "2"@,
        3 => "3"@,
        4 => "4"@,
        5 => "5"@,
        6 => "6"@,
        7 => "7"@,
        8 => "8"@,
        _ => "9"@,
    }
}

/// The decimal digits of `i`.
pub open spec fn decimal(i: nat) -> Seq<char>
    decreases i,
{
    if i < 10 {
        digit_text(i as u8)
    } else {
        decimal(i / 10) + digit_text((i % 10) as u8)
    }
}

/// The decimal digits of `i`, with a zero before a single one.
pub open spec fn padded2(i: nat) -> Seq<char> {
    if i < 10 {
        "0"@ + digit_text(i as u8)
    } else {
        decimal(i)
    }
}

/// The name of the column at position `i` of a dataframe literal that gives
/// it none.
pub open spec fn series_name(i: nat) -> Seq<char> {
    "series"@ + padded2(i)
}

/// The name of the column at position `i` of a matrix literal.
pub open spec fn col_name(i: nat) -> Seq<char> {
    "col"@ + padded2(i)
}

/// Whether every node is a constant.
pub open spec fn all_constant(vs: Seq<AstView>) -> bool {
    forall|i: int| 0 <= i < vs.len() ==> #[trigger] vs[i] is J
}

/// The values of constant nodes.
pub open spec fn values_of(vs: Seq<AstView>) -> Seq<JView> {
    Seq::new(vs.len(), |i: int| vs[i]->J_0)
}

/// The columns of constant nodes that are columns.
pub open spec fn plans_of(vs: Seq<AstView>) -> Seq<SeriesPlan> {
    Seq::new(vs.len(), |i: int| vs[i]->J_0->Series_0)
}

pub open spec fn plan_names(plans: Seq<SeriesPlan>) -> Seq<Seq<char>> {
    Seq::new(plans.len(), |i: int| plans[i].name)
}

pub open spec fn plan_lens(plans: Seq<SeriesPlan>) -> Seq<nat> {
    Seq::new(plans.len(), |i: int| plans[i].slots.len())
}

/// Why columns make no table, if they make none.
pub open spec fn frame_error_text(plans: Seq<SeriesPlan>) -> Option<Seq<char>> {
    match first_repeat(plan_names(plans), 0) {
        Some(k) => Some(
            "a table cannot hold two columns named '"@ + plans[k].name + "'"@,
        ),
        None => match first_unequal(plan_lens(plans), 1) {
            Some(k) => Some(
                "columns of a table must be of one length, not as '"@ + plans[0].name + "' and '"@
                    + plans[k].name + "'"@,
            ),
            None => None,
        },
    }
}

/// A column of a dataframe literal: a constant becomes a column under `name`,
/// any other expression a column expression under `name`. `frame` is the
/// literal.
pub open spec fn framed(name: Seq<char>, v: AstView, frame: Pair) -> Result<AstView, ErrView> {
    match v {
        AstView::J(jv) => match jv {
            JView::Series(plan) => Ok(AstView::J(JView::Series(named(plan, name)))),
            _ => match scalar_plan(jv) {
                Some(plan) => Ok(AstView::J(JView::Series(named(plan, name)))),
                None => Err(
                    error_at(ErrorKind::DataframeShapeError, "cannot turn into a series"@, frame),
                ),
            },
        },
        _ => Ok(AstView::Series { name, exp: Box::new(v) }),
    }
}

/// The message of a matrix column that is neither numeric nor boolean.
pub open spec fn not_numeric(what: Seq<char>) -> Seq<char> {
    "Requires numeric data type, got '"@ + what + "'"@
}

/// A row of a matrix literal: a constant must be numeric or boolean and
/// becomes a column under `name`; any other expression becomes a column
/// expression under `name`. `node` is the expression.
pub open spec fn rowed(name: Seq<char>, v: AstView, node: Pair) -> Result<AstView, ErrView> {
    match v {
        AstView::J(jv) => match jv {
            JView::Series(plan) => if numeric_or_bool(plan.dtype) {
                Ok(AstView::J(JView::Series(named(plan, name))))
            } else {
                Err(error_at(ErrorKind::MatrixTypeError, not_numeric(plan.dtype.spec_name()), node))
            },
            _ => if jv is I64 || jv is F64 || jv is Boolean {
                Ok(AstView::J(JView::Series(named(scalar_plan(jv)->0, name))))
            } else {
                Err(error_at(ErrorKind::MatrixTypeError, not_numeric(view_kind_name(jv)), node))
            },
        },
        _ => Ok(AstView::Series { name, exp: Box::new(v) }),
    }
}

/// The dataframe of the columns `vs` of the literal `p`: a table where all are
/// constant, else a dataframe expression.
pub open spec fn frame_of(vs: Seq<AstView>, p: Pair, sid: usize) -> Result<AstView, ErrView> {
    if all_constant(vs) {
        match frame_error_text(plans_of(vs)) {
            Some(m) => Err(error_at(ErrorKind::DataframeShapeError, m, p)),
            None => Ok(AstView::J(JView::DataFrame(plans_of(vs)))),
        }
    } else {
        Ok(AstView::Dataframe { exps: vs, start: p.start as int, source_id: sid as int })
    }
}

/// The matrix of the rows `vs` of the literal `p`: an array where all are
/// constant, else a matrix expression.
pub open spec fn matrix_of(vs: Seq<AstView>, p: Pair) -> Result<AstView, ErrView> {
    if all_constant(vs) {
        match frame_error_text(plans_of(vs)) {
            Some(m) => Err(error_at(ErrorKind::DataframeShapeError, m, p)),
            None => Ok(AstView::J(JView::Matrix(plans_of(vs)))),
        }
    } else {
        Ok(AstView::Matrix(vs))
    }
}

/// The rule of the first node inside `p`, `Null` where there is none.
pub open spec fn inner_rule(p: Pair) -> Rule {
    if p.inner@.len() > 0 {
        p.inner@[0].rule
    } else {
        Rule::Null
    }
}

/// Whether the items of a list literal are all of the rule of the first.
pub open spec fn same_rules(ps: Seq<Pair>) -> bool {
    forall|i: int| 0 <= i < ps.len() ==> inner_rule(#[trigger] ps[i]) == inner_rule(ps[0])
}

/// Whether a list of items of this rule is read as a series literal.
pub open spec fn scalar_rule(r: Rule) -> bool {
    match r {
        Rule::Cat
        | Rule::CatAlt
        | Rule::Boolean
        | Rule::Timestamp
        | Rule::Datetime
        | Rule::Duration
        | Rule::Date
        | Rule::Time
        | Rule::Decimal
        | Rule::String
        | Rule::Integer => true,
        _ => false,
    }
}

/// The position behind the first return statement among `ps`, or their number
/// where there is none: the statements that a block keeps.
pub open spec fn kept(ps: Seq<Pair>, from: int) -> int
    decreases ps.len() - from,
{
    if from < 0 || from >= ps.len() {
        ps.len() as int
    } else if ps[from].rule == Rule::ReturnExp {
        from + 1
    } else {
        kept(ps, from + 1)
    }
}

/// The name that the node `p` spells, which must be no reserved word.
pub open spec fn name_of(p: Pair) -> Result<Seq<char>, ErrView> {
    if reserved(p.text@) {
        Err(reserved_word(p))
    } else {
        Ok(p.text@)
    }
}

/// The identifier that the node `p` spells, which must be no reserved word.
pub open spec fn checked_id(p: Pair, sid: usize) -> Result<AstView, ErrView> {
    if reserved(p.text@) {
        Err(reserved_word(p))
    } else {
        Ok(id_view(p, sid))
    }
}

/// The identifiers that the first `n` of `ps` spell, or the error of the first
/// that spells a reserved word.
pub open spec fn ids_of(ps: Seq<Pair>, sid: usize, n: nat) -> Result<Seq<AstView>, ErrView>
    decreases n,
{
    if n == 0 || n > ps.len() {
        Ok(Seq::empty())
    } else {
        match ids_of(ps, sid, (n - 1) as nat) {
            Ok(vs) => match checked_id(ps[n - 1], sid) {
                Ok(v) => Ok(vs.push(v)),
                Err(e) => Err(e),
            },
            Err(e) => Err(e),
        }
    }
}

/// The names that the first `n` of `ps` spell, or the error of the first that
/// spells a reserved word.
pub open spec fn names_of(ps: Seq<Pair>, n: nat) -> Result<Seq<Seq<char>>, ErrView>
    decreases n,
{
    if n == 0 || n > ps.len() {
        Ok(Seq::empty())
    } else {
        match names_of(ps, (n - 1) as nat) {
            Ok(vs) => match name_of(ps[n - 1]) {
                Ok(v) => Ok(vs.push(v)),
                Err(e) => Err(e),
            },
            Err(e) => Err(e),
        }
    }
}

/// The key that a node of a dictionary literal spells: an identifier as it
/// stands, which must be no reserved word, a symbol without its backtick, a
/// string without its quotes.
pub open spec fn key_of(p: Pair) -> Result<Seq<char>, ErrView> {
    match p.rule {
        Rule::Id => name_of(p),
        Rule::Cat => match cut(p.text@, 1, 0) {
            Some(k) => Ok(k),
            None => Err(malformed(p)),
        },
        _ => match cut(p.text@, 1, 1) {
            Some(k) => Ok(k),
            None => Err(malformed(p)),
        },
    }
}

/// The keys and the values of a dictionary literal, in the order of the
/// source.
pub struct DictParts {
    pub keys: Seq<Seq<char>>,
    pub values: Seq<AstView>,
}

/// The dictionary of `parts`: a value where all values are constant, else a
/// dictionary expression.
pub open spec fn dict_of(parts: DictParts) -> AstView {
    if all_constant(parts.values) {
        AstView::J(JView::Dict { keys: parts.keys, values: values_of(parts.values) })
    } else {
        AstView::Dict { keys: parts.keys, values: parts.values }
    }
}

/// The clauses of a query, as far as they were read.
pub struct SqlParts {
    pub op: Seq<char>,
    pub ops: Seq<AstView>,
    pub groups: Seq<AstView>,
    pub group_type: Seq<char>,
    pub from: AstView,
    pub filters: Seq<AstView>,
    pub sorts: Seq<AstView>,
    pub take: AstView,
}

/// A query without clauses.
pub open spec fn no_clauses() -> SqlParts {
    SqlParts {
        op: "select"@,
        ops: Seq::empty(),
        groups: Seq::empty(),
        group_type: "by"@,
        from: AstView::Skip,
        filters: Seq::empty(),
        sorts: Seq::empty(),
        take: AstView::J(JView::Null),
    }
}

/// How the groups of a query are formed, by the first letter of its group
/// clause.
pub open spec fn group_kind(t: Seq<char>) -> Seq<char> {
    let b = utf8(t);
    if b.len() > 0 && b[0] == 100 {
        "dyn"@
    } else if b.len() > 0 && b[0] == 114 {
        "rolling"@
    } else {
        "by"@
    }
}

/// The operator of an infix expression: an operator symbol as it stands, or
/// a function name without the mark before it, which must be no reserved word.
pub open spec fn binary_op_of(p: Pair, sid: usize) -> Result<AstView, ErrView> {
    match p.rule {
        Rule::BinaryOp => if reserved(p.text@) {
            Err(reserved_word(p))
        } else {
            Ok(op_view(p, sid))
        },
        Rule::BinaryId => match cut(p.text@, 1, 0) {
            Some(name) => if reserved(name) {
                Err(reserved_word(p))
            } else {
                Ok(AstView::Op { name, start: p.start as int, source_id: sid as int })
            },
            None => Err(malformed(p)),
        },
        _ => Err(
            error_at(ErrorKind::SyntaxError, "Unexpected binary op/function: "@ + p.text@, p),
        ),
    }
}

/// The node of the syntax tree that the node `p` of the parse tree becomes,
/// in the source `sid`.
pub open spec fn node_of(p: Pair, sid: usize) -> Result<AstView, ErrView>
    decreases p, 0nat,
{
    let n = p.inner@.len();
    match p.rule {
        Rule::Exp | Rule::BracketExp | Rule::BracketSqlExp => if n < 1 {
            Err(malformed(p))
        } else {
            node_of(p.inner@[0], sid)
        },
        Rule::UnaryExp | Rule::UnarySqlExp => if n < 2 {
            Err(malformed(p))
        } else {
            match node_of(p.inner@[1], sid) {
                Ok(exp) => match node_of(p.inner@[0], sid) {
                    Ok(op) => Ok(AstView::UnaryOp { op: Box::new(op), exp: Box::new(exp) }),
                    Err(e) => Err(e),
                },
                Err(e) => Err(e),
            }
        },
        Rule::BinaryExp | Rule::BinarySqlExp => if n < 3 {
            Err(malformed(p))
        } else {
            match node_of(p.inner@[0], sid) {
                Ok(lhs) => match node_of(p.inner@[2], sid) {
                    Ok(rhs) => match binary_op_of(p.inner@[1], sid) {
                        Ok(op) => Ok(
                            AstView::BinOp {
                                op: Box::new(op),
                                lhs: Box::new(lhs),
                                rhs: Box::new(rhs),
                            },
                        ),
                        Err(e) => Err(e),
                    },
                    Err(e) => Err(e),
                },
                Err(e) => Err(e),
            }
        },
        Rule::Integer
        | Rule::Boolean
        | Rule::Decimal
        | Rule::Date
        | Rule::Time
        | Rule::Datetime
        | Rule::Timestamp
        | Rule::Duration
        | Rule::CatAlt
        | Rule::Cat
        | Rule::String
        | Rule::Null => match literal_of(p) {
            Ok(v) => Ok(AstView::J(v)),
            Err(e) => Err(e),
        },
        Rule::Series => series_literal(p),
        Rule::Cats => cats_of(p),
        Rule::AssignmentExp => if n < 2 {
            Err(malformed(p))
        } else if p.inner@[0].rule == Rule::FnCall {
            let call = p.inner@[0];
            if call.inner@.len() < 1 {
                Err(malformed(call))
            } else {
                match args_of(call.inner@, sid, 1, call.inner@.len()) {
                    Ok(indices) => match node_of(p.inner@[1], sid) {
                        Ok(exp) => match checked_id(call.inner@[0], sid) {
                            Ok(id) => Ok(
                                AstView::IndexAssign { id: Box::new(id), indices, exp: Box::new(exp) },
                            ),
                            Err(e) => Err(e),
                        },
                        Err(e) => Err(e),
                    },
                    Err(e) => Err(e),
                }
            }
        } else {
            match node_of(p.inner@[1], sid) {
                Ok(exp) => if reserved(p.inner@[0].text@) {
                    Err(reserved_word(p.inner@[0]))
                } else {
                    Ok(AstView::Assign { id: p.inner@[0].text@, exp: Box::new(exp) })
                },
                Err(e) => Err(e),
            }
        },
        Rule::Id | Rule::BinaryOp | Rule::GlobalId => if reserved(p.text@) {
            Err(reserved_word(p))
        } else {
            Ok(id_view(p, sid))
        },
        Rule::Fn => if n < 2 {
            Err(malformed(p))
        } else {
            match names_of(p.inner@[0].inner@, p.inner@[0].inner@.len()) {
                Ok(arg_names) => match nodes_of(p.inner@[1].inner@, sid, p.inner@[1].inner@.len()) {
                    Ok(stmts) => Ok(
                        AstView::Fn {
                            stmts,
                            arg_names,
                            fn_body: p.text@,
                            start: p.start as int,
                            source_id: sid as int,
                        },
                    ),
                    Err(e) => Err(e),
                },
                Err(e) => Err(e),
            }
        },
        Rule::FnCall => if n < 1 {
            Err(malformed(p))
        } else {
            match node_of(p.inner@[0], sid) {
                Ok(f) => if n == 2 && inner_rule(p.inner@[1]) == Rule::Skip && p.inner@[1].inner@.len()
                    > 0 {
                    Ok(
                        AstView::Call {
                            f: Box::new(f),
                            args: Seq::empty(),
                            start: p.start as int,
                            source_id: sid as int,
                        },
                    )
                } else {
                    match args_of(p.inner@, sid, 1, n) {
                        Ok(args) => Ok(
                            AstView::Call {
                                f: Box::new(f),
                                args,
                                start: p.start as int,
                                source_id: sid as int,
                            },
                        ),
                        Err(e) => Err(e),
                    }
                },
                Err(e) => Err(e),
            }
        },
        Rule::IfExp | Rule::WhileExp => if n < 2 {
            Err(malformed(p))
        } else {
            match node_of(p.inner@[0], sid) {
                Ok(cond) => match nodes_of(
                    p.inner@[1].inner@,
                    sid,
                    kept(p.inner@[1].inner@, 0) as nat,
                ) {
                    Ok(stmts) => if p.rule == Rule::IfExp {
                        Ok(AstView::If { cond: Box::new(cond), stmts })
                    } else {
                        Ok(AstView::While { cond: Box::new(cond), stmts })
                    },
                    Err(e) => Err(e),
                },
                Err(e) => Err(e),
            }
        },
        Rule::TryExp => if n < 3 {
            Err(malformed(p))
        } else {
            match nodes_of(p.inner@[0].inner@, sid, p.inner@[0].inner@.len()) {
                Ok(tries) => match name_of(p.inner@[1]) {
                    Ok(err) => match nodes_of(p.inner@[2].inner@, sid, p.inner@[2].inner@.len()) {
                        Ok(catches) => Ok(AstView::Try { tries, err, catches }),
                        Err(e) => Err(e),
                    },
                    Err(e) => Err(e),
                },
                Err(e) => Err(e),
            }
        },
        Rule::ReturnExp => if n < 1 {
            Err(malformed(p))
        } else {
            match node_of(p.inner@[0], sid) {
                Ok(exp) => Ok(AstView::Return(Box::new(exp))),
                Err(e) => Err(e),
            }
        },
        Rule::RaiseExp => if n < 1 {
            Err(malformed(p))
        } else {
            match node_of(p.inner@[0], sid) {
                Ok(exp) => Ok(
                    AstView::Raise {
                        exp: Box::new(exp),
                        start: p.start as int,
                        source_id: sid as int,
                    },
                ),
                Err(e) => Err(e),
            }
        },
        Rule::Skip => Ok(AstView::Skip),
        Rule::Dataframe => match columns_of(p.inner@, sid, p, n) {
            Ok(vs) => frame_of(vs, p, sid),
            Err(e) => Err(e),
        },
        Rule::Matrix => match rows_of(p.inner@, sid, n) {
            Ok(vs) => matrix_of(vs, p),
            Err(e) => Err(e),
        },
        Rule::SqlExp => match clauses_of(p.inner@, sid, n) {
            Ok(q) => Ok(
                AstView::Sql {
                    op: q.op,
                    from: Box::new(q.from),
                    filters: q.filters,
                    group_type: q.group_type,
                    groups: q.groups,
                    ops: q.ops,
                    sorts: q.sorts,
                    take: Box::new(q.take),
                    source_id: sid as int,
                    start: p.start as int,
                },
            ),
            Err(e) => Err(e),
        },
        Rule::List => if n == 0 {
            Ok(AstView::J(JView::MixedList(Seq::empty())))
        } else if same_rules(p.inner@) && scalar_rule(inner_rule(p.inner@[0])) {
            series_literal(p)
        } else {
            match items_of(p.inner@, sid, n) {
                Ok(vs) => if all_constant(vs) {
                    Ok(AstView::J(JView::MixedList(values_of(vs))))
                } else {
                    Ok(AstView::List(vs))
                },
                Err(e) => Err(e),
            }
        },
        Rule::Dict => match entries_of(p.inner@, sid, n) {
            Ok(parts) => Ok(dict_of(parts)),
            Err(e) => Err(e),
        },
        _ => Err(unexpected("Unexpected rule: "@, p)),
    }
}

/// The nodes of the first `n` of `ps`, or the error of the first that has one.
pub open spec fn nodes_of(ps: Seq<Pair>, sid: usize, n: nat) -> Result<Seq<AstView>, ErrView>
    decreases ps, n,
{
    if n == 0 || n > ps.len() {
        Ok(Seq::empty())
    } else {
        match nodes_of(ps, sid, (n - 1) as nat) {
            Ok(vs) => match node_of(ps[n - 1], sid) {
                Ok(v) => Ok(vs.push(v)),
                Err(e) => Err(e),
            },
            Err(e) => Err(e),
        }
    }
}

/// The arguments of a call: the nodes inside each of `ps` from position
/// `from` up to `n`.
pub open spec fn args_of(ps: Seq<Pair>, sid: usize, from: nat, n: nat) -> Result<
    Seq<AstView>,
    ErrView,
>
    decreases ps, n,
{
    if n <= from || n > ps.len() {
        Ok(Seq::empty())
    } else {
        match args_of(ps, sid, from, (n - 1) as nat) {
            Ok(vs) => if ps[n - 1].inner@.len() < 1 {
                Err(malformed(ps[n - 1]))
            } else {
                match node_of(ps[n - 1].inner@[0], sid) {
                    Ok(v) => Ok(vs.push(v)),
                    Err(e) => Err(e),
                }
            },
            Err(e) => Err(e),
        }
    }
}

/// An item of a list literal: an operator symbol as it stands, which must be
/// no reserved word, else the node of the item.
pub open spec fn item_of(p: Pair, sid: usize) -> Result<AstView, ErrView>
    decreases p, 1nat,
{
    if p.rule == Rule::BinaryOp {
        if reserved(p.text@) {
            Err(reserved_word(p))
        } else {
            Ok(op_view(p, sid))
        }
    } else {
        node_of(p, sid)
    }
}

/// The items of a list literal.
pub open spec fn items_of(ps: Seq<Pair>, sid: usize, n: nat) -> Result<Seq<AstView>, ErrView>
    decreases ps, n,
{
    if n == 0 || n > ps.len() {
        Ok(Seq::empty())
    } else {
        match items_of(ps, sid, (n - 1) as nat) {
            Ok(vs) => match item_of(ps[n - 1], sid) {
                Ok(v) => Ok(vs.push(v)),
                Err(e) => Err(e),
            },
            Err(e) => Err(e),
        }
    }
}

/// The column at position `i` of the dataframe literal `frame`.
pub open spec fn column_of(col: Pair, i: nat, sid: usize, frame: Pair) -> Result<AstView, ErrView>
    decreases col, 0nat,
{
    if col.inner@.len() < 1 {
        Err(malformed(col))
    } else {
        let node = col.inner@[0];
        if node.rule == Rule::RenameSeriesExp {
            if node.inner@.len() < 2 {
                Err(malformed(node))
            } else {
                match name_of(node.inner@[0]) {
                    Ok(name) => match node_of(node.inner@[1], sid) {
                        Ok(v) => framed(name, v, frame),
                        Err(e) => Err(e),
                    },
                    Err(e) => Err(e),
                }
            }
        } else {
            match node_of(node, sid) {
                Ok(v) => framed(series_name(i), v, frame),
                Err(e) => Err(e),
            }
        }
    }
}

/// The columns of a dataframe literal.
pub open spec fn columns_of(ps: Seq<Pair>, sid: usize, frame: Pair, n: nat) -> Result<
    Seq<AstView>,
    ErrView,
>
    decreases ps, n,
{
    if n == 0 || n > ps.len() {
        Ok(Seq::empty())
    } else {
        match columns_of(ps, sid, frame, (n - 1) as nat) {
            Ok(vs) => match column_of(ps[n - 1], (n - 1) as nat, sid, frame) {
                Ok(v) => Ok(vs.push(v)),
                Err(e) => Err(e),
            },
            Err(e) => Err(e),
        }
    }
}

/// The row at position `i` of a matrix literal.
pub open spec fn row_of(row: Pair, i: nat, sid: usize) -> Result<AstView, ErrView>
    decreases row, 0nat,
{
    if row.inner@.len() < 1 {
        Err(malformed(row))
    } else {
        match node_of(row.inner@[0], sid) {
            Ok(v) => rowed(col_name(i), v, row.inner@[0]),
            Err(e) => Err(e),
        }
    }
}

/// The rows of a matrix literal.
pub open spec fn rows_of(ps: Seq<Pair>, sid: usize, n: nat) -> Result<Seq<AstView>, ErrView>
    decreases ps, n,
{
    if n == 0 || n > ps.len() {
        Ok(Seq::empty())
    } else {
        match rows_of(ps, sid, (n - 1) as nat) {
            Ok(vs) => match row_of(ps[n - 1], (n - 1) as nat, sid) {
                Ok(v) => Ok(vs.push(v)),
                Err(e) => Err(e),
            },
            Err(e) => Err(e),
        }
    }
}

/// The keys and values of the first `n` entries of a dictionary literal.
pub open spec fn entries_of(ps: Seq<Pair>, sid: usize, n: nat) -> Result<DictParts, ErrView>
    decreases ps, n,
{
    if n == 0 || n > ps.len() {
        Ok(DictParts { keys: Seq::empty(), values: Seq::empty() })
    } else {
        match entries_of(ps, sid, (n - 1) as nat) {
            Ok(parts) => {
                let kv = ps[n - 1];
                if kv.inner@.len() < 2 {
                    Err(malformed(kv))
                } else {
                    match key_of(kv.inner@[0]) {
                        Ok(key) => match node_of(kv.inner@[1], sid) {
                            Ok(v) => Ok(
                                DictParts {
                                    keys: parts.keys.push(key),
                                    values: parts.values.push(v),
                                },
                            ),
                            Err(e) => Err(e),
                        },
                        Err(e) => Err(e),
                    }
                }
            },
            Err(e) => Err(e),
        }
    }
}

/// A column of a query: a renamed expression, a bare name, or an expression.
pub open spec fn sql_col_of(p: Pair, sid: usize) -> Result<AstView, ErrView>
    decreases p, 1nat,
{
    match p.rule {
        Rule::SeriesExp => if p.inner@.len() < 1 {
            Err(malformed(p))
        } else {
            sql_col_of(p.inner@[0], sid)
        },
        Rule::RenameSeriesExp => if p.inner@.len() < 2 {
            Err(malformed(p))
        } else {
            match name_of(p.inner@[0]) {
                Ok(name) => match node_of(p.inner@[1], sid) {
                    Ok(exp) => Ok(AstView::Series { name, exp: Box::new(exp) }),
                    Err(e) => Err(e),
                },
                Err(e) => Err(e),
            }
        },
        Rule::SeriesName => checked_id(p, sid),
        _ => node_of(p, sid),
    }
}

/// The columns of a clause of a query.
pub open spec fn sql_cols_of(ps: Seq<Pair>, sid: usize, n: nat) -> Result<Seq<AstView>, ErrView>
    decreases ps, n,
{
    if n == 0 || n > ps.len() {
        Ok(Seq::empty())
    } else {
        match sql_cols_of(ps, sid, (n - 1) as nat) {
            Ok(vs) => match sql_col_of(ps[n - 1], sid) {
                Ok(v) => Ok(vs.push(v)),
                Err(e) => Err(e),
            },
            Err(e) => Err(e),
        }
    }
}

/// The query `q` with the clause `c` read into it.
pub open spec fn clause_of(q: SqlParts, c: Pair, sid: usize) -> Result<SqlParts, ErrView>
    decreases c, 0nat,
{
    match c.rule {
        Rule::SelectOp | Rule::UpdateOp | Rule::DeleteOp => match head(c.text@, 6) {
            Some(op) => match sql_cols_of(c.inner@, sid, c.inner@.len()) {
                Ok(ops) => Ok(SqlParts { op, ops: q.ops + ops, ..q }),
                Err(e) => Err(e),
            },
            None => Err(malformed(c)),
        },
        Rule::GroupExp => match sql_cols_of(c.inner@, sid, c.inner@.len()) {
            Ok(groups) => Ok(SqlParts { group_type: group_kind(c.text@), groups, ..q }),
            Err(e) => Err(e),
        },
        Rule::FromExp => if c.inner@.len() < 1 {
            Err(malformed(c))
        } else {
            match node_of(c.inner@[0], sid) {
                Ok(from) => Ok(SqlParts { from, ..q }),
                Err(e) => Err(e),
            }
        },
        Rule::FilterExp => match nodes_of(c.inner@, sid, c.inner@.len()) {
            Ok(filters) => Ok(SqlParts { filters, ..q }),
            Err(e) => Err(e),
        },
        Rule::SortOp => match ids_of(c.inner@, sid, c.inner@.len()) {
            Ok(sorts) => Ok(SqlParts { sorts, ..q }),
            Err(e) => Err(e),
        },
        Rule::TakeOp => if c.inner@.len() < 1 {
            Err(malformed(c))
        } else {
            match node_of(c.inner@[0], sid) {
                Ok(take) => Ok(SqlParts { take, ..q }),
                Err(e) => Err(e),
            }
        },
        _ => Err(unexpected("Unexpected sql: "@, c)),
    }
}

/// The query of the first `n` clauses `ps`.
pub open spec fn clauses_of(ps: Seq<Pair>, sid: usize, n: nat) -> Result<SqlParts, ErrView>
    decreases ps, n,
{
    if n == 0 || n > ps.len() {
        Ok(no_clauses())
    } else {
        match clauses_of(ps, sid, (n - 1) as nat) {
            Ok(q) => clause_of(q, ps[n - 1], sid),
            Err(e) => Err(e),
        }
    }
}

} // verus!
