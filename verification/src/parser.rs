//! The builder of the syntax tree: it walks the parse tree from the top and
//! makes of each node what the blueprint says.
use crate::ast_node::shows;
use crate::ast_node::shows_all;
use crate::ast_node::shows_columns;
use crate::ast_node::shows_j;
use crate::ast_node::shows_series;
use crate::ast_node::shows_texts;
use crate::ast_node::AstNode;
use crate::ast_node::AstView;
use crate::ast_node::JView;
use crate::ast_node::SeriesPlan;
use crate::blueprint::all_constant;
use crate::blueprint::args_of;
use crate::blueprint::binary_op_of;
use crate::blueprint::cats_of;
use crate::blueprint::clause_of;
use crate::blueprint::clauses_of;
use crate::blueprint::column_of;
use crate::blueprint::columns_of;
use crate::blueprint::decimal;
use crate::blueprint::digit_text;
use crate::blueprint::entries_of;
use crate::blueprint::error_at;
use crate::blueprint::frame_error_text;
use crate::blueprint::framed;
use crate::blueprint::group_kind;
use crate::blueprint::id_view;
use crate::blueprint::ids_of;
use crate::blueprint::inner_rule;
use crate::blueprint::item_of;
use crate::blueprint::items_of;
use crate::blueprint::kept;
use crate::blueprint::key_of;
use crate::blueprint::literal_of;
use crate::blueprint::malformed;
use crate::blueprint::no_clauses;
use crate::blueprint::node_of;
use crate::blueprint::nodes_of;
use crate::blueprint::op_view;
use crate::blueprint::padded2;
use crate::blueprint::plan_lens;
use crate::blueprint::plan_names;
use crate::blueprint::plans_of;
use crate::blueprint::reserved_word;
use crate::blueprint::row_of;
use crate::blueprint::rowed;
use crate::blueprint::rows_of;
use crate::blueprint::same_rules;
use crate::blueprint::scalar_plan;
use crate::blueprint::scalar_rule;
use crate::blueprint::sql_col_of;
use crate::blueprint::sql_cols_of;
use crate::blueprint::symbol_slots;
use crate::blueprint::checked_id;
use crate::blueprint::name_of;
use crate::blueprint::names_of;
use crate::blueprint::unexpected;
use crate::blueprint::values_of;
use crate::blueprint::view_kind_name;
use crate::blueprint::DictParts;
use crate::blueprint::SqlParts;
use crate::errors::raise_error;
use crate::errors::ErrView;
use crate::errors::ErrorKind;
use crate::errors::ParseError;
use crate::j::kind_name;
use crate::j::scalar_series;
use crate::j::Dict;
use crate::j::J;
use crate::keyword::is_keyword;
use crate::pair::Pair;
use crate::pair::Rule;
use crate::series::cell_fits;
use crate::series::cells_view;
use crate::series::column_lens;
use crate::series::column_names;
use crate::series::Cell;
use crate::series::CellView;
use crate::series::DataFrame;
use crate::series::DataType;
use crate::series::FrameError;
use crate::series::Matrix;
use crate::series::Series;
use crate::series::SeriesView;
use crate::temporal::local_zone;
use crate::temporal::parse_date;
use crate::temporal::parse_datetime;
use crate::temporal::parse_duration;
use crate::temporal::parse_time;
use crate::temporal::parse_timestamp;
use crate::temporal::UNIX_EPOCH_DAY;
use crate::text::cut_text;
use crate::text::decoded;
use crate::text::head_text;
use crate::text::parse_i64;
use crate::text::same_text;
use crate::text::split;
use crate::text::split_text;
use crate::text::utf8;
use crate::typing::float_literal;
use crate::typing::int_error_message;
use crate::typing::parse_series;
use vstd::prelude::*;
use vstd::string::StringExecFns;

verus! {

/// Whether `r` is what `v` says: the node, or the error.
pub open spec fn built(r: Result<AstNode, ParseError>, v: Result<AstView, ErrView>) -> bool {
    match v {
        Ok(view) => r is Ok && shows(r->Ok_0, view),
        Err(e) => r is Err && r->Err_0@ == e,
    }
}

fn malformed_error(pair: &Pair) -> (r: ParseError)
    ensures
        r@ == malformed(*pair),
{
    raise_error(
        ErrorKind::SyntaxError,
        "Malformed ".to_owned().concat(pair.rule.name()),
        pair.start,
        pair.end,
    )
}

fn unexpected_error(what: &str, pair: &Pair) -> (r: ParseError)
    ensures
        r@ == unexpected(what@, *pair),
{
    raise_error(
        ErrorKind::SyntaxError,
        what.to_owned().concat(pair.rule.name()),
        pair.start,
        pair.end,
    )
}

fn keyword_error(pair: &Pair) -> (r: ParseError)
    ensures
        r@ == reserved_word(*pair),
{
    raise_error(
        ErrorKind::ReservedKeyword,
        "Keyword cannot be used as identifier: ".to_owned().concat(pair.text.as_str()),
        pair.start,
        pair.end,
    )
}

fn literal_error(message: String, pair: &Pair) -> (r: ParseError)
    ensures
        r@ == error_at(ErrorKind::LiteralError, message@, *pair),
{
    raise_error(ErrorKind::LiteralError, message, pair.start, pair.end)
}

fn id_node(pair: &Pair, source_id: usize) -> (r: AstNode)
    ensures
        shows(r, id_view(*pair, source_id)),
{
    AstNode::Id { name: pair.text.clone(), start: pair.start, source_id }
}

fn op_node(pair: &Pair, source_id: usize) -> (r: AstNode)
    ensures
        shows(r, op_view(*pair, source_id)),
{
    AstNode::Op { name: pair.text.clone(), start: pair.start, source_id }
}

/// The value of a scalar literal.
pub fn literal(pair: &Pair) -> (r: Result<J, ParseError>)
    ensures
        match literal_of(*pair) {
            Ok(v) => r is Ok && shows_j(r->Ok_0, v),
            Err(e) => r is Err && r->Err_0@ == e,
        },
{
    let t = pair.text.as_str();
    match pair.rule {
        Rule::Boolean => Ok(J::Boolean(same_text(t, "1b") || same_text(t, "true"))),
        Rule::Integer => match parse_i64(t.as_bytes()) {
            Ok(n) => Ok(J::I64(n)),
            Err(e) => Err(literal_error(int_error_message(e).to_owned(), pair)),
        },
        Rule::Decimal => {
            if float_literal(t.as_bytes()) {
                Ok(J::F64(pair.text.clone()))
            } else if t.as_bytes().len() == 0 {
                Err(literal_error("cannot parse float from empty string".to_owned(), pair))
            } else {
                Err(literal_error("invalid float literal".to_owned(), pair))
            }
        },
        Rule::Date => match parse_date(t) {
            Ok(d) => Ok(J::Date(d - UNIX_EPOCH_DAY)),
            Err(e) => Err(literal_error(e, pair)),
        },
        Rule::Time => match parse_time(t) {
            Ok(v) => Ok(J::Time(v)),
            Err(e) => Err(literal_error(e, pair)),
        },
        Rule::Datetime => match parse_datetime(t) {
            Ok(v) => Ok(J::Datetime { ms: v, timezone: local_zone() }),
            Err(e) => Err(literal_error(e, pair)),
        },
        Rule::Timestamp => match parse_timestamp(t) {
            Ok(v) => Ok(J::Timestamp { ns: v, timezone: local_zone() }),
            Err(e) => Err(literal_error(e, pair)),
        },
        Rule::Duration => match parse_duration(t) {
            Ok(v) => Ok(J::Duration(v)),
            Err(e) => Err(literal_error(e, pair)),
        },
        Rule::Cat => match cut_text(t, 1, 0) {
            Some(s) => Ok(J::Cat(s)),
            None => Err(malformed_error(pair)),
        },
        Rule::CatAlt => match cut_text(t, 1, 1) {
            Some(s) => Ok(J::Cat(s)),
            None => Err(malformed_error(pair)),
        },
        Rule::String => match cut_text(t, 1, 1) {
            Some(s) => Ok(J::String(s)),
            None => Err(malformed_error(pair)),
        },
        Rule::Null => Ok(J::Null),
        _ => Err(unexpected_error("Unexpected j: ", pair)),
    }
}

/// Reads a scalar literal.
pub fn parse_j(pair: &Pair) -> (r: Result<AstNode, ParseError>)
    ensures
        match literal_of(*pair) {
            Ok(v) => r is Ok && shows(r->Ok_0, AstView::J(v)),
            Err(e) => r is Err && r->Err_0@ == e,
        },
{
    match literal(pair) {
        Ok(j) => Ok(AstNode::J(j)),
        Err(e) => Err(e),
    }
}

/// Reads a run of symbols, each behind its backtick, as a column of symbols.
pub fn parse_cats(pair: &Pair) -> (r: Result<AstNode, ParseError>)
    ensures
        built(r, cats_of(*pair)),
{
    match cut_text(pair.text.as_str(), 1, 0) {
        Some(rest) => {
            let mut names = split_text(rest.as_str(), 96);
            let ghost texts = decoded(split(utf8(rest@), 96));
            let mut reversed: Vec<Cell> = Vec::new();
            while names.len() > 0
                invariant
                    names@.len() <= texts.len(),
                    names@.len() + reversed@.len() == texts.len(),
                    forall|i: int| 0 <= i < names@.len() ==> (#[trigger] names@[i])@ == texts[i],
                    forall|i: int|
                        0 <= i < reversed@.len() ==> (#[trigger] reversed@[i])@ == CellView::Text(
                            texts[texts.len() - 1 - i],
                        ),
                decreases names@.len(),
            {
                let name = names.pop().unwrap();
                reversed.push(Cell::Text(name));
            }
            let mut cells: Vec<Cell> = Vec::new();
            while reversed.len() > 0
                invariant
                    cells@.len() + reversed@.len() == texts.len(),
                    forall|i: int|
                        0 <= i < reversed@.len() ==> (#[trigger] reversed@[i])@ == CellView::Text(
                            texts[texts.len() - 1 - i],
                        ),
                    forall|i: int|
                        0 <= i < cells@.len() ==> (#[trigger] cells@[i])@ == CellView::Text(texts[i]),
                decreases reversed@.len(),
            {
                let cell = reversed.pop().unwrap();
                cells.push(cell);
            }
            proof {
                assert forall|i: int| 0 <= i < cells@.len() implies cell_fits(
                    #[trigger] cells_view(cells@)[i],
                    DataType::Categorical,
                ) by {
                    assert(cells@[i]@ == CellView::Text(texts[i]));
                }
                assert(cells_view(cells@).len() == symbol_slots(texts).len());
            }
            let series = Series::new(String::new(), DataType::Categorical, cells).unwrap();
            proof {
                assert forall|i: int| 0 <= i < symbol_slots(texts).len() implies crate::ast_node::shows_cell(
                    series@.cells[i],
                    #[trigger] symbol_slots(texts)[i],
                ) by {
                    assert(cells@[i]@ == CellView::Text(texts[i]));
                }
            }
            Ok(AstNode::J(J::Series(series)))
        },
        None => Err(malformed_error(pair)),
    }
}

/// Reads the operator of an infix expression.
pub fn parse_binary_op(pair: &Pair, source_id: usize) -> (r: Result<AstNode, ParseError>)
    ensures
        built(r, binary_op_of(*pair, source_id)),
{
    match pair.rule {
        Rule::BinaryOp => {
            if is_keyword(pair.text.as_str()) {
                Err(keyword_error(pair))
            } else {
                Ok(op_node(pair, source_id))
            }
        },
        Rule::BinaryId => match cut_text(pair.text.as_str(), 1, 0) {
            Some(name) => {
                if is_keyword(name.as_str()) {
                    Err(keyword_error(pair))
                } else {
                    Ok(AstNode::Op { name, start: pair.start, source_id })
                }
            },
            None => Err(malformed_error(pair)),
        },
        _ => Err(
            raise_error(
                ErrorKind::SyntaxError,
                "Unexpected binary op/function: ".to_owned().concat(pair.text.as_str()),
                pair.start,
                pair.end,
            ),
        ),
    }
}

fn digit(d: u8) -> (r: &'static str)
    ensures
        r@ == digit_text(d),
{
    match d {
        0 => "0",
        1 => "1",
        2 => "2",
        3 => "3",
        4 => "4",
        5 => "5",
        6 => "6",
        7 => "7",
        8 => "8",
        _ => "9",
    }
}

fn decimal_text(i: usize) -> (r: String)
    ensures
        r@ == decimal(i as nat),
    decreases i,
{
    if i < 10 {
        digit(i as u8).to_owned()
    } else {
        decimal_text(i / 10).concat(digit((i % 10) as u8))
    }
}

fn two_digits(i: usize) -> (r: String)
    ensures
        r@ == padded2(i as nat),
{
    if i < 10 {
        "0".to_owned().concat(digit(i as u8))
    } else {
        decimal_text(i)
    }
}

/// A value that is as a view says lifts into a column as the view's column
/// says, and has the view's kind.
pub proof fn lemma_scalar_plan(j: J, v: JView)
    requires
        shows_j(j, v),
    ensures
        match scalar_plan(v) {
            Some(p) => scalar_series(j) is Some && shows_series(scalar_series(j)->0, p),
            None => scalar_series(j) is None,
        },
        kind_name(j) == view_kind_name(v),
        j is I64 <==> v is I64,
        j is F64 <==> v is F64,
        j is Boolean <==> v is Boolean,
        j is Series <==> v is Series,
{
}

/// A node that is as a view says is of the view's kind.
pub proof fn lemma_shows_kind(n: AstNode, v: AstView)
    requires
        shows(n, v),
    ensures
        n is J <==> v is J,
        n is Id <==> v is Id,
{
}

fn renamed(series: Series, name: String) -> (r: Series)
    ensures
        r@ == (SeriesView { name: name@, ..series@ }),
{
    let mut s = series;
    s.rename(name);
    s
}

/// A column of a dataframe literal, made of the node of its expression.
fn frame_column(name: String, node: AstNode, frame: &Pair, Ghost(v): Ghost<AstView>) -> (r: Result<
    AstNode,
    ParseError,
>)
    requires
        shows(node, v),
    ensures
        built(r, framed(name@, v, *frame)),
{
    match node {
        AstNode::J(j) => {
            proof {
                lemma_scalar_plan(j, v->J_0);
            }
            match j {
                J::Series(s) => Ok(AstNode::J(J::Series(renamed(s, name)))),
                other => match other.into_series() {
                    Ok(s) => Ok(AstNode::J(J::Series(renamed(s, name)))),
                    Err(e) => Err(
                        raise_error(ErrorKind::DataframeShapeError, e, frame.start, frame.end),
                    ),
                },
            }
        },
        other => {
            proof {
                lemma_shows_kind(other, v);
            }
            Ok(AstNode::Series { name, exp: Box::new(other) })
        },
    }
}

/// A row of a matrix literal, made of the node of its expression.
fn matrix_row(name: String, node: AstNode, at: &Pair, Ghost(v): Ghost<AstView>) -> (r: Result<
    AstNode,
    ParseError,
>)
    requires
        shows(node, v),
    ensures
        built(r, rowed(name@, v, *at)),
{
    match node {
        AstNode::J(j) => {
            proof {
                lemma_scalar_plan(j, v->J_0);
            }
            match j {
                J::Series(s) => {
                    let t = s.dtype();
                    if !(t.is_primitive_numeric() || t.is_bool()) {
                        Err(
                            raise_error(
                                ErrorKind::MatrixTypeError,
                                "Requires numeric data type, got '".to_owned().concat(
                                    t.name(),
                                ).concat("'"),
                                at.start,
                                at.end,
                            ),
                        )
                    } else {
                        Ok(AstNode::J(J::Series(renamed(s, name))))
                    }
                },
                other => {
                    if !(other.is_numeric() || other.is_bool()) {
                        let kind = other.get_type_name();
                        Err(
                            raise_error(
                                ErrorKind::MatrixTypeError,
                                "Requires numeric data type, got '".to_owned().concat(
                                    kind.as_str(),
                                ).concat("'"),
                                at.start,
                                at.end,
                            ),
                        )
                    } else {
                        match other.into_series() {
                            Ok(s) => Ok(AstNode::J(J::Series(renamed(s, name)))),
                            Err(e) => Err(malformed_error(at)),
                        }
                    }
                },
            }
        },
        other => {
            proof {
                lemma_shows_kind(other, v);
            }
            Ok(AstNode::Series { name, exp: Box::new(other) })
        },
    }
}

/// Whether every node is a constant.
fn constants(nodes: &Vec<AstNode>, Ghost(vs): Ghost<Seq<AstView>>) -> (r: bool)
    requires
        shows_all(nodes@, vs),
    ensures
        r == all_constant(vs),
{
    let mut i: usize = 0;
    while i < nodes.len()
        invariant
            i <= nodes@.len(),
            shows_all(nodes@, vs),
            forall|j: int| 0 <= j < i ==> #[trigger] vs[j] is J,
        decreases nodes@.len() - i,
    {
        proof {
            lemma_shows_kind(nodes@[i as int], vs[i as int]);
        }
        match &nodes[i] {
            AstNode::J(_) => {},
            _ => {
                return false;
            },
        }
        i += 1;
    }
    true
}

/// The values of constant nodes.
fn take_values(nodes: Vec<AstNode>, Ghost(vs): Ghost<Seq<AstView>>) -> (r: Vec<J>)
    requires
        shows_all(nodes@, vs),
        all_constant(vs),
    ensures
        r@.len() == vs.len(),
        forall|i: int| 0 <= i < vs.len() ==> shows_j(r@[i], #[trigger] values_of(vs)[i]),
{
    let mut nodes = nodes;
    let ghost all = nodes@;
    let mut reversed: Vec<J> = Vec::new();
    while nodes.len() > 0
        invariant
            shows_all(all, vs),
            all_constant(vs),
            nodes@.len() + reversed@.len() == all.len(),
            nodes@ == all.subrange(0, nodes@.len() as int),
            forall|i: int|
                0 <= i < reversed@.len() ==> shows_j(
                    #[trigger] reversed@[i],
                    vs[all.len() - 1 - i]->J_0,
                ),
        decreases nodes@.len(),
    {
        let ghost k = nodes@.len() - 1;
        let node = nodes.pop().unwrap();
        proof {
            assert(node == all[k]);
            assert(vs[k] is J);
            assert(shows(all[k], vs[k]));
        }
        match node {
            AstNode::J(j) => {
                reversed.push(j);
            },
            _ => {
                assert(false);
            },
        }
    }
    let mut out: Vec<J> = Vec::new();
    while reversed.len() > 0
        invariant
            all.len() == vs.len(),
            out@.len() + reversed@.len() == all.len(),
            forall|i: int|
                0 <= i < reversed@.len() ==> shows_j(
                    #[trigger] reversed@[i],
                    vs[all.len() - 1 - i]->J_0,
                ),
            forall|i: int| 0 <= i < out@.len() ==> shows_j(#[trigger] out@[i], vs[i]->J_0),
        decreases reversed@.len(),
    {
        let j = reversed.pop().unwrap();
        out.push(j);
    }
    out
}

/// The columns of constant nodes that are columns.
fn take_columns(nodes: Vec<AstNode>, Ghost(vs): Ghost<Seq<AstView>>) -> (r: Vec<Series>)
    requires
        shows_all(nodes@, vs),
        all_constant(vs),
        forall|i: int| 0 <= i < vs.len() ==> (#[trigger] vs[i])->J_0 is Series,
    ensures
        shows_columns(r@, plans_of(vs)),
{
    let values = take_values(nodes, Ghost(vs));
    let mut values = values;
    let ghost all = values@;
    let mut reversed: Vec<Series> = Vec::new();
    while values.len() > 0
        invariant
            all.len() == vs.len(),
            forall|i: int| 0 <= i < vs.len() ==> shows_j(all[i], #[trigger] values_of(vs)[i]),
            forall|i: int| 0 <= i < vs.len() ==> (#[trigger] vs[i])->J_0 is Series,
            values@.len() + reversed@.len() == all.len(),
            values@ == all.subrange(0, values@.len() as int),
            forall|i: int|
                0 <= i < reversed@.len() ==> shows_series(
                    (#[trigger] reversed@[i])@,
                    vs[all.len() - 1 - i]->J_0->Series_0,
                ),
        decreases values@.len(),
    {
        let ghost k = values@.len() - 1;
        let j = values.pop().unwrap();
        proof {
            assert(j == all[k]);
            assert(shows_j(all[k], values_of(vs)[k]));
            assert(vs[k]->J_0 is Series);
        }
        match j {
            J::Series(s) => {
                reversed.push(s);
            },
            _ => {
                assert(false);
            },
        }
    }
    let mut out: Vec<Series> = Vec::new();
    while reversed.len() > 0
        invariant
            all.len() == vs.len(),
            out@.len() + reversed@.len() == all.len(),
            forall|i: int|
                0 <= i < reversed@.len() ==> shows_series(
                    (#[trigger] reversed@[i])@,
                    vs[all.len() - 1 - i]->J_0->Series_0,
                ),
            forall|i: int|
                0 <= i < out@.len() ==> shows_series((#[trigger] out@[i])@, vs[i]->J_0->Series_0),
        decreases reversed@.len(),
    {
        let s = reversed.pop().unwrap();
        out.push(s);
    }
    proof {
        assert forall|i: int| 0 <= i < plans_of(vs).len() implies shows_series(
            out@[i]@,
            #[trigger] plans_of(vs)[i],
        ) by {
            assert(shows_series(out@[i]@, vs[i]->J_0->Series_0));
        }
    }
    out
}

/// The table of `columns`, or the message that says why they make none.
fn table(columns: Vec<Series>, Ghost(plans): Ghost<Seq<SeriesPlan>>) -> (r: Result<
    DataFrame,
    String,
>)
    requires
        shows_columns(columns@, plans),
    ensures
        match frame_error_text(plans) {
            Some(m) => r is Err && r->Err_0@ == m,
            None => r is Ok && shows_columns(r->Ok_0.columns(), plans),
        },
{
    proof {
        assert(column_names(columns@) =~= plan_names(plans));
        assert(column_lens(columns@) =~= plan_lens(plans));
    }
    let first: String = if columns.len() > 0 {
        columns[0].name().to_owned()
    } else {
        String::new()
    };
    let mut names: Vec<String> = Vec::new();
    let mut i: usize = 0;
    while i < columns.len()
        invariant
            i <= columns@.len(),
            names@.len() == i,
            forall|j: int| 0 <= j < i ==> (#[trigger] names@[j])@ == columns@[j]@.name,
        decreases columns@.len() - i,
    {
        names.push(columns[i].name().to_owned());
        i += 1;
    }
    match DataFrame::new(columns) {
        Ok(df) => Ok(df),
        Err(FrameError::Duplicate(k)) => {
            proof {
                crate::series::lemma_first_repeat_bounds(plan_names(plans), 0);
            }
            Err(
                "a table cannot hold two columns named '".to_owned().concat(names[k].as_str()).concat(
                    "'",
                ),
            )
        },
        Err(FrameError::ShapeMismatch(k)) => {
            proof {
                crate::series::lemma_first_unequal_bounds(plan_lens(plans), 1);
            }
            Err(
                "columns of a table must be of one length, not as '".to_owned().concat(
                    first.as_str(),
                ).concat("' and '").concat(names[k].as_str()).concat("'"),
            )
        },
    }
}

/// Once a node has an error, the nodes have it however many follow.
pub proof fn lemma_nodes_fail(ps: Seq<Pair>, sid: usize, k: nat, n: nat)
    requires
        1 <= k <= n <= ps.len(),
        nodes_of(ps, sid, k) is Err,
    ensures
        nodes_of(ps, sid, n) == nodes_of(ps, sid, k),
    decreases n - k,
{
    if k < n {
        lemma_nodes_fail(ps, sid, k, (n - 1) as nat);
    }
}

pub proof fn lemma_args_fail(ps: Seq<Pair>, sid: usize, from: nat, k: nat, n: nat)
    requires
        from < k <= n <= ps.len(),
        args_of(ps, sid, from, k) is Err,
    ensures
        args_of(ps, sid, from, n) == args_of(ps, sid, from, k),
    decreases n - k,
{
    if k < n {
        lemma_args_fail(ps, sid, from, k, (n - 1) as nat);
    }
}

pub proof fn lemma_items_fail(ps: Seq<Pair>, sid: usize, k: nat, n: nat)
    requires
        1 <= k <= n <= ps.len(),
        items_of(ps, sid, k) is Err,
    ensures
        items_of(ps, sid, n) == items_of(ps, sid, k),
    decreases n - k,
{
    if k < n {
        lemma_items_fail(ps, sid, k, (n - 1) as nat);
    }
}

pub proof fn lemma_columns_fail(ps: Seq<Pair>, sid: usize, frame: Pair, k: nat, n: nat)
    requires
        1 <= k <= n <= ps.len(),
        columns_of(ps, sid, frame, k) is Err,
    ensures
        columns_of(ps, sid, frame, n) == columns_of(ps, sid, frame, k),
    decreases n - k,
{
    if k < n {
        lemma_columns_fail(ps, sid, frame, k, (n - 1) as nat);
    }
}

pub proof fn lemma_rows_fail(ps: Seq<Pair>, sid: usize, k: nat, n: nat)
    requires
        1 <= k <= n <= ps.len(),
        rows_of(ps, sid, k) is Err,
    ensures
        rows_of(ps, sid, n) == rows_of(ps, sid, k),
    decreases n - k,
{
    if k < n {
        lemma_rows_fail(ps, sid, k, (n - 1) as nat);
    }
}

pub proof fn lemma_entries_fail(ps: Seq<Pair>, sid: usize, k: nat, n: nat)
    requires
        1 <= k <= n <= ps.len(),
        entries_of(ps, sid, k) is Err,
    ensures
        entries_of(ps, sid, n) == entries_of(ps, sid, k),
    decreases n - k,
{
    if k < n {
        lemma_entries_fail(ps, sid, k, (n - 1) as nat);
    }
}

pub proof fn lemma_sql_cols_fail(ps: Seq<Pair>, sid: usize, k: nat, n: nat)
    requires
        1 <= k <= n <= ps.len(),
        sql_cols_of(ps, sid, k) is Err,
    ensures
        sql_cols_of(ps, sid, n) == sql_cols_of(ps, sid, k),
    decreases n - k,
{
    if k < n {
        lemma_sql_cols_fail(ps, sid, k, (n - 1) as nat);
    }
}

pub proof fn lemma_clauses_fail(ps: Seq<Pair>, sid: usize, k: nat, n: nat)
    requires
        1 <= k <= n <= ps.len(),
        clauses_of(ps, sid, k) is Err,
    ensures
        clauses_of(ps, sid, n) == clauses_of(ps, sid, k),
    decreases n - k,
{
    if k < n {
        lemma_clauses_fail(ps, sid, k, (n - 1) as nat);
    }
}

/// Whether nodes or an error are what `v` says.
pub open spec fn built_all(r: Result<Vec<AstNode>, ParseError>, v: Result<Seq<AstView>, ErrView>) -> bool {
    match v {
        Ok(views) => r is Ok && shows_all(r->Ok_0@, views),
        Err(e) => r is Err && r->Err_0@ == e,
    }
}

fn kept_count(pairs: &Vec<Pair>) -> (r: usize)
    ensures
        r == kept(pairs@, 0),
        r <= pairs@.len(),
{
    let mut i: usize = 0;
    while i < pairs.len()
        invariant
            i <= pairs@.len(),
            kept(pairs@, 0) == kept(pairs@, i as int),
        decreases pairs@.len() - i,
    {
        if pairs[i].rule == Rule::ReturnExp {
            return i + 1;
        }
        i += 1;
    }
    i
}

/// The name that a node spells.
fn name(pair: &Pair) -> (r: Result<String, ParseError>)
    ensures
        match name_of(*pair) {
            Ok(n) => r is Ok && r->Ok_0@ == n,
            Err(e) => r is Err && r->Err_0@ == e,
        },
{
    if is_keyword(pair.text.as_str()) {
        Err(keyword_error(pair))
    } else {
        Ok(pair.text.clone())
    }
}

/// The identifier that a node spells.
fn checked(pair: &Pair, source_id: usize) -> (r: Result<AstNode, ParseError>)
    ensures
        built(r, checked_id(*pair, source_id)),
{
    if is_keyword(pair.text.as_str()) {
        Err(keyword_error(pair))
    } else {
        Ok(id_node(pair, source_id))
    }
}

pub proof fn lemma_names_fail(ps: Seq<Pair>, k: nat, n: nat)
    requires
        1 <= k <= n <= ps.len(),
        names_of(ps, k) is Err,
    ensures
        names_of(ps, n) == names_of(ps, k),
    decreases n - k,
{
    if k < n {
        lemma_names_fail(ps, k, (n - 1) as nat);
    }
}

pub proof fn lemma_ids_fail(ps: Seq<Pair>, sid: usize, k: nat, n: nat)
    requires
        1 <= k <= n <= ps.len(),
        ids_of(ps, sid, k) is Err,
    ensures
        ids_of(ps, sid, n) == ids_of(ps, sid, k),
    decreases n - k,
{
    if k < n {
        lemma_ids_fail(ps, sid, k, (n - 1) as nat);
    }
}

/// The names that nodes spell.
fn names(pairs: &Vec<Pair>) -> (r: Result<Vec<String>, ParseError>)
    ensures
        match names_of(pairs@, pairs@.len()) {
            Ok(ns) => r is Ok && shows_texts(r->Ok_0@, ns),
            Err(e) => r is Err && r->Err_0@ == e,
        },
{
    let n = pairs.len();
    let mut out: Vec<String> = Vec::new();
    let ghost mut ns: Seq<Seq<char>> = Seq::empty();
    let mut i: usize = 0;
    while i < n
        invariant
            i <= n,
            n == pairs@.len(),
            names_of(pairs@, i as nat) == Ok::<Seq<Seq<char>>, ErrView>(ns),
            shows_texts(out@, ns),
        decreases n - i,
    {
        match name(&pairs[i]) {
            Ok(s) => {
                proof {
                    ns = ns.push(pairs@[i as int].text@);
                }
                out.push(s);
            },
            Err(e) => {
                proof {
                    lemma_names_fail(pairs@, (i + 1) as nat, n as nat);
                }
                return Err(e);
            },
        }
        i += 1;
    }
    Ok(out)
}

/// The identifiers that nodes spell.
fn ids(pairs: &Vec<Pair>, source_id: usize) -> (r: Result<Vec<AstNode>, ParseError>)
    ensures
        built_all(r, ids_of(pairs@, source_id, pairs@.len())),
{
    let n = pairs.len();
    let mut out: Vec<AstNode> = Vec::new();
    let ghost mut vs: Seq<AstView> = Seq::empty();
    let mut i: usize = 0;
    while i < n
        invariant
            i <= n,
            n == pairs@.len(),
            ids_of(pairs@, source_id, i as nat) == Ok::<Seq<AstView>, ErrView>(vs),
            shows_all(out@, vs),
        decreases n - i,
    {
        match checked(&pairs[i], source_id) {
            Ok(node) => {
                proof {
                    let v = id_view(pairs@[i as int], source_id);
                    lemma_shows_push(out@, vs, node, v);
                    vs = vs.push(v);
                }
                out.push(node);
            },
            Err(e) => {
                proof {
                    lemma_ids_fail(pairs@, source_id, (i + 1) as nat, n as nat);
                }
                return Err(e);
            },
        }
        i += 1;
    }
    Ok(out)
}

fn first_rule(pair: &Pair) -> (r: Rule)
    ensures
        r == inner_rule(*pair),
{
    if pair.inner.len() > 0 {
        pair.inner[0].rule
    } else {
        Rule::Null
    }
}

fn rules_agree(pairs: &Vec<Pair>) -> (r: bool)
    requires
        pairs@.len() > 0,
    ensures
        r == same_rules(pairs@),
{
    let first = first_rule(&pairs[0]);
    let mut i: usize = 1;
    while i < pairs.len()
        invariant
            1 <= i,
            pairs@.len() > 0,
            first == inner_rule(pairs@[0]),
            forall|j: int|
                0 <= j < i && j < pairs@.len() ==> inner_rule(#[trigger] pairs@[j]) == first,
        decreases pairs@.len() - i,
    {
        if first_rule(&pairs[i]) != first {
            return false;
        }
        i += 1;
    }
    true
}

fn is_scalar_rule(r: Rule) -> (b: bool)
    ensures
        b == scalar_rule(r),
{
    match r {
        Rule::Cat
        | Rule::CatAlt
        | Rule::Boolean
        | Rule::Timestamp
        | Rule::Datetime
        | Rule::Duration
        | Rule::Date
        | Rule::Time
        | Rule::Decimal
        | Rule::String
        | Rule::Integer => true,
        _ => false,
    }
}

fn group_type_of(text: &str) -> (r: &'static str)
    ensures
        r@ == group_kind(text@),
{
    let b = text.as_bytes();
    if b.len() > 0 && b[0] == 100 {
        "dyn"
    } else if b.len() > 0 && b[0] == 114 {
        "rolling"
    } else {
        "by"
    }
}

fn key_text(pair: &Pair) -> (r: Result<String, ParseError>)
    ensures
        match key_of(*pair) {
            Ok(k) => r is Ok && r->Ok_0@ == k,
            Err(e) => r is Err && r->Err_0@ == e,
        },
{
    let cut = match pair.rule {
        Rule::Id => {
            return name(pair);
        },
        Rule::Cat => cut_text(pair.text.as_str(), 1, 0),
        _ => cut_text(pair.text.as_str(), 1, 1),
    };
    match cut {
        Some(k) => Ok(k),
        None => Err(malformed_error(pair)),
    }
}

/// The clauses of a query, as far as they were read.
pub struct Clauses {
    pub op: String,
    pub ops: Vec<AstNode>,
    pub groups: Vec<AstNode>,
    pub group_type: String,
    pub from: AstNode,
    pub filters: Vec<AstNode>,
    pub sorts: Vec<AstNode>,
    pub take: AstNode,
}

/// Whether clauses are as `q` says.
#[verifier::opaque]
pub open spec fn shows_clauses(c: Clauses, q: SqlParts) -> bool {
    &&& c.op@ == q.op
    &&& shows_all(c.ops@, q.ops)
    &&& shows_all(c.groups@, q.groups)
    &&& c.group_type@ == q.group_type
    &&& shows(c.from, q.from)
    &&& shows_all(c.filters@, q.filters)
    &&& shows_all(c.sorts@, q.sorts)
    &&& shows(c.take, q.take)
}

fn append_nodes(head: Vec<AstNode>, tail: Vec<AstNode>, Ghost(hv): Ghost<Seq<AstView>>, Ghost(tv): Ghost<
    Seq<AstView>,
>) -> (r: Vec<AstNode>)
    requires
        shows_all(head@, hv),
        shows_all(tail@, tv),
    ensures
        shows_all(r@, hv + tv),
{
    let mut tail = tail;
    let ghost all = tail@;
    let mut reversed: Vec<AstNode> = Vec::new();
    while tail.len() > 0
        invariant
            tail@.len() + reversed@.len() == all.len(),
            tail@ == all.subrange(0, tail@.len() as int),
            forall|i: int| 0 <= i < reversed@.len() ==> #[trigger] reversed@[i] == all[all.len() - 1 - i],
        decreases tail@.len(),
    {
        let node = tail.pop().unwrap();
        reversed.push(node);
    }
    let mut out = head;
    let ghost before = out@;
    while reversed.len() > 0
        invariant
            out@.len() + reversed@.len() == before.len() + all.len(),
            out@.len() >= before.len(),
            forall|i: int| 0 <= i < before.len() ==> out@[i] == before[i],
            forall|i: int| before.len() <= i < out@.len() ==> out@[i] == all[i - before.len()],
            forall|i: int| 0 <= i < reversed@.len() ==> #[trigger] reversed@[i] == all[all.len() - 1 - i],
        decreases reversed@.len(),
    {
        let node = reversed.pop().unwrap();
        out.push(node);
    }
    proof {
        assert forall|i: int| 0 <= i < (hv + tv).len() implies shows(out@[i], #[trigger] (hv + tv)[i]) by {
            if i < hv.len() {
                assert(shows(before[i], hv[i]));
            } else {
                assert(shows(all[i - hv.len()], tv[i - hv.len()]));
            }
        }
    }
    out
}

/// Nodes that are as views say stay so when one more of each is added.
pub proof fn lemma_shows_push(nodes: Seq<AstNode>, vs: Seq<AstView>, node: AstNode, v: AstView)
    requires
        shows_all(nodes, vs),
        shows(node, v),
    ensures
        shows_all(nodes.push(node), vs.push(v)),
{
    assert forall|i: int| 0 <= i < vs.push(v).len() implies shows(
        nodes.push(node)[i],
        #[trigger] vs.push(v)[i],
    ) by {
        if i < vs.len() {
            assert(shows(nodes[i], vs[i]));
        }
    }
}

/// The constant columns of a dataframe literal are columns.
pub proof fn lemma_columns_constant(ps: Seq<Pair>, sid: usize, frame: Pair, n: nat)
    requires
        n <= ps.len(),
        columns_of(ps, sid, frame, n) is Ok,
    ensures
        columns_of(ps, sid, frame, n)->Ok_0.len() == n,
        forall|i: int|
            0 <= i < n && (#[trigger] columns_of(ps, sid, frame, n)->Ok_0[i]) is J ==> columns_of(
                ps,
                sid,
                frame,
                n,
            )->Ok_0[i]->J_0 is Series,
    decreases n,
{
    if n > 0 {
        lemma_columns_constant(ps, sid, frame, (n - 1) as nat);
        let before = columns_of(ps, sid, frame, (n - 1) as nat)->Ok_0;
        let v = column_of(ps[n - 1], (n - 1) as nat, sid, frame)->Ok_0;
        let all = columns_of(ps, sid, frame, n)->Ok_0;
        assert(all == before.push(v));
        assert forall|i: int| 0 <= i < n && (#[trigger] all[i]) is J implies all[i]->J_0 is Series by {
            if i < n - 1 {
                assert(all[i] == before[i]);
            }
        }
    }
}

/// The constant rows of a matrix literal are columns of numeric or boolean
/// type.
pub proof fn lemma_rows_constant(ps: Seq<Pair>, sid: usize, n: nat)
    requires
        n <= ps.len(),
        rows_of(ps, sid, n) is Ok,
    ensures
        rows_of(ps, sid, n)->Ok_0.len() == n,
        forall|i: int|
            0 <= i < n && (#[trigger] rows_of(ps, sid, n)->Ok_0[i]) is J ==> rows_of(
                ps,
                sid,
                n,
            )->Ok_0[i]->J_0 is Series && crate::series::numeric_or_bool(
                rows_of(ps, sid, n)->Ok_0[i]->J_0->Series_0.dtype,
            ),
    decreases n,
{
    if n > 0 {
        lemma_rows_constant(ps, sid, (n - 1) as nat);
        let before = rows_of(ps, sid, (n - 1) as nat)->Ok_0;
        let v = row_of(ps[n - 1], (n - 1) as nat, sid)->Ok_0;
        let all = rows_of(ps, sid, n)->Ok_0;
        assert(all == before.push(v));
        assert forall|i: int| 0 <= i < n && (#[trigger] all[i]) is J implies all[i]->J_0 is Series
            && crate::series::numeric_or_bool(all[i]->J_0->Series_0.dtype) by {
            if i < n - 1 {
                assert(all[i] == before[i]);
            }
        }
    }
}

/// A dictionary literal has as many keys as values.
pub proof fn lemma_entries_len(ps: Seq<Pair>, sid: usize, n: nat)
    requires
        n <= ps.len(),
        entries_of(ps, sid, n) is Ok,
    ensures
        entries_of(ps, sid, n)->Ok_0.keys.len() == n,
        entries_of(ps, sid, n)->Ok_0.values.len() == n,
    decreases n,
{
    if n > 0 {
        lemma_entries_len(ps, sid, (n - 1) as nat);
    }
}

/// Builds the node of the syntax tree for a node of the parse tree.
///
/// A literal whose parts are all constant is folded into its value; a reserved
/// word that stands for an identifier is refused; the first error ends the
/// walk.
pub fn parse_exp(pair: &Pair, source_id: usize) -> (r: Result<AstNode, ParseError>)
    ensures
        built(r, node_of(*pair, source_id)),
    decreases pair, 1nat,
{
    match pair.rule {
        Rule::Exp | Rule::BracketExp | Rule::BracketSqlExp => {
            if pair.inner.len() < 1 {
                return Err(malformed_error(pair));
            }
            proof {
                vstd::std_specs::vec::axiom_vec_index_decreases(pair.inner, 0);
            }
            parse_exp(&pair.inner[0], source_id)
        },
        Rule::UnaryExp | Rule::UnarySqlExp => parse_unary(pair, source_id),
        Rule::BinaryExp | Rule::BinarySqlExp => parse_binary(pair, source_id),
        Rule::Integer
        | Rule::Boolean
        | Rule::Decimal
        | Rule::Date
        | Rule::Time
        | Rule::Datetime
        | Rule::Timestamp
        | Rule::Duration
        | Rule::CatAlt
        | Rule::Cat
        | Rule::String
        | Rule::Null => parse_j(pair),
        Rule::Series => parse_series(pair),
        Rule::Cats => parse_cats(pair),
        Rule::AssignmentExp => parse_assignment(pair, source_id),
        Rule::Id | Rule::BinaryOp | Rule::GlobalId => {
            if is_keyword(pair.text.as_str()) {
                Err(keyword_error(pair))
            } else {
                Ok(id_node(pair, source_id))
            }
        },
        Rule::Fn => parse_fn(pair, source_id),
        Rule::FnCall => parse_call(pair, source_id),
        Rule::IfExp | Rule::WhileExp => parse_block(pair, source_id),
        Rule::TryExp => parse_try(pair, source_id),
        Rule::ReturnExp => {
            if pair.inner.len() < 1 {
                return Err(malformed_error(pair));
            }
            proof {
                vstd::std_specs::vec::axiom_vec_index_decreases(pair.inner, 0);
            }
            match parse_exp(&pair.inner[0], source_id) {
                Ok(v) => Ok(AstNode::Return(Box::new(v))),
                Err(e) => Err(e),
            }
        },
        Rule::RaiseExp => {
            if pair.inner.len() < 1 {
                return Err(malformed_error(pair));
            }
            proof {
                vstd::std_specs::vec::axiom_vec_index_decreases(pair.inner, 0);
            }
            match parse_exp(&pair.inner[0], source_id) {
                Ok(v) => Ok(AstNode::Raise { exp: Box::new(v), start: pair.start, source_id }),
                Err(e) => Err(e),
            }
        },
        Rule::Skip => Ok(AstNode::Skip),
        Rule::Dataframe => parse_dataframe(pair, source_id),
        Rule::Matrix => parse_matrix(pair, source_id),
        Rule::SqlExp => parse_sql(pair, source_id),
        Rule::List => parse_list_literal(pair, source_id),
        Rule::Dict => parse_dict(pair, source_id),
        _ => Err(unexpected_error("Unexpected rule: ", pair)),
    }
}

fn parse_unary(pair: &Pair, source_id: usize) -> (r: Result<AstNode, ParseError>)
    requires
        pair.rule == Rule::UnaryExp || pair.rule == Rule::UnarySqlExp,
    ensures
        built(r, node_of(*pair, source_id)),
    decreases pair, 0nat,
{
    if pair.inner.len() < 2 {
        return Err(malformed_error(pair));
    }
    proof {
        vstd::std_specs::vec::axiom_vec_index_decreases(pair.inner, 0);
        vstd::std_specs::vec::axiom_vec_index_decreases(pair.inner, 1);
    }
    let exp = match parse_exp(&pair.inner[1], source_id) {
        Ok(v) => v,
        Err(e) => {
            return Err(e);
        },
    };
    let op = match parse_exp(&pair.inner[0], source_id) {
        Ok(v) => v,
        Err(e) => {
            return Err(e);
        },
    };
    Ok(AstNode::UnaryOp { op: Box::new(op), exp: Box::new(exp) })
}

fn parse_binary(pair: &Pair, source_id: usize) -> (r: Result<AstNode, ParseError>)
    requires
        pair.rule == Rule::BinaryExp || pair.rule == Rule::BinarySqlExp,
    ensures
        built(r, node_of(*pair, source_id)),
    decreases pair, 0nat,
{
    if pair.inner.len() < 3 {
        return Err(malformed_error(pair));
    }
    proof {
        vstd::std_specs::vec::axiom_vec_index_decreases(pair.inner, 0);
        vstd::std_specs::vec::axiom_vec_index_decreases(pair.inner, 2);
    }
    let lhs = match parse_exp(&pair.inner[0], source_id) {
        Ok(v) => v,
        Err(e) => {
            return Err(e);
        },
    };
    let rhs = match parse_exp(&pair.inner[2], source_id) {
        Ok(v) => v,
        Err(e) => {
            return Err(e);
        },
    };
    let op = match parse_binary_op(&pair.inner[1], source_id) {
        Ok(v) => v,
        Err(e) => {
            return Err(e);
        },
    };
    Ok(AstNode::BinOp { op: Box::new(op), lhs: Box::new(lhs), rhs: Box::new(rhs) })
}

fn parse_assignment(pair: &Pair, source_id: usize) -> (r: Result<AstNode, ParseError>)
    requires
        pair.rule == Rule::AssignmentExp,
    ensures
        built(r, node_of(*pair, source_id)),
    decreases pair, 0nat,
{
    if pair.inner.len() < 2 {
        return Err(malformed_error(pair));
    }
    proof {
        vstd::std_specs::vec::axiom_vec_index_decreases(pair.inner, 0);
        vstd::std_specs::vec::axiom_vec_index_decreases(pair.inner, 1);
    }
    if pair.inner[0].rule == Rule::FnCall {
        let call = &pair.inner[0];
        if call.inner.len() < 1 {
            return Err(malformed_error(call));
        }
        let indices = match parse_args(&call.inner, source_id, 1) {
            Ok(v) => v,
            Err(e) => {
                return Err(e);
            },
        };
        let exp = match parse_exp(&pair.inner[1], source_id) {
            Ok(v) => v,
            Err(e) => {
                return Err(e);
            },
        };
        match checked(&call.inner[0], source_id) {
            Ok(id) => Ok(AstNode::IndexAssign { id: Box::new(id), indices, exp: Box::new(exp) }),
            Err(e) => Err(e),
        }
    } else {
        let exp = match parse_exp(&pair.inner[1], source_id) {
            Ok(v) => v,
            Err(e) => {
                return Err(e);
            },
        };
        if is_keyword(pair.inner[0].text.as_str()) {
            Err(keyword_error(&pair.inner[0]))
        } else {
            Ok(AstNode::Assign { id: pair.inner[0].text.clone(), exp: Box::new(exp) })
        }
    }
}

fn parse_fn(pair: &Pair, source_id: usize) -> (r: Result<AstNode, ParseError>)
    requires
        pair.rule == Rule::Fn,
    ensures
        built(r, node_of(*pair, source_id)),
    decreases pair, 0nat,
{
    if pair.inner.len() < 2 {
        return Err(malformed_error(pair));
    }
    proof {
        vstd::std_specs::vec::axiom_vec_index_decreases(pair.inner, 1);
    }
    let params = match names(&pair.inner[0].inner) {
        Ok(p) => p,
        Err(e) => {
            return Err(e);
        },
    };
    let body = &pair.inner[1].inner;
    let stmts = match parse_nodes(body, source_id, body.len()) {
        Ok(v) => v,
        Err(e) => {
            return Err(e);
        },
    };
    Ok(
        AstNode::Fn {
            stmts,
            arg_names: params,
            fn_body: pair.text.clone(),
            start: pair.start,
            source_id,
        },
    )
}

fn parse_call(pair: &Pair, source_id: usize) -> (r: Result<AstNode, ParseError>)
    requires
        pair.rule == Rule::FnCall,
    ensures
        built(r, node_of(*pair, source_id)),
    decreases pair, 0nat,
{
    let n = pair.inner.len();
    if n < 1 {
        return Err(malformed_error(pair));
    }
    proof {
        vstd::std_specs::vec::axiom_vec_index_decreases(pair.inner, 0);
    }
    let f = match parse_exp(&pair.inner[0], source_id) {
        Ok(v) => v,
        Err(e) => {
            return Err(e);
        },
    };
    if n == 2 && pair.inner[1].inner.len() > 0 && first_rule(&pair.inner[1]) == Rule::Skip {
        let args: Vec<AstNode> = Vec::new();
        assert(shows_all(args@, Seq::<AstView>::empty()));
        Ok(AstNode::Call { f: Box::new(f), args, start: pair.start, source_id })
    } else {
        let args = match parse_args(&pair.inner, source_id, 1) {
            Ok(v) => v,
            Err(e) => {
                return Err(e);
            },
        };
        Ok(AstNode::Call { f: Box::new(f), args, start: pair.start, source_id })
    }
}

fn parse_block(pair: &Pair, source_id: usize) -> (r: Result<AstNode, ParseError>)
    requires
        pair.rule == Rule::IfExp || pair.rule == Rule::WhileExp,
    ensures
        built(r, node_of(*pair, source_id)),
    decreases pair, 0nat,
{
    if pair.inner.len() < 2 {
        return Err(malformed_error(pair));
    }
    proof {
        vstd::std_specs::vec::axiom_vec_index_decreases(pair.inner, 0);
        vstd::std_specs::vec::axiom_vec_index_decreases(pair.inner, 1);
    }
    let cond = match parse_exp(&pair.inner[0], source_id) {
        Ok(v) => v,
        Err(e) => {
            return Err(e);
        },
    };
    let block = &pair.inner[1].inner;
    let stmts = match parse_nodes(block, source_id, kept_count(block)) {
        Ok(v) => v,
        Err(e) => {
            return Err(e);
        },
    };
    if pair.rule == Rule::IfExp {
        Ok(AstNode::If { cond: Box::new(cond), stmts })
    } else {
        Ok(AstNode::While { cond: Box::new(cond), stmts })
    }
}

fn parse_try(pair: &Pair, source_id: usize) -> (r: Result<AstNode, ParseError>)
    requires
        pair.rule == Rule::TryExp,
    ensures
        built(r, node_of(*pair, source_id)),
    decreases pair, 0nat,
{
    if pair.inner.len() < 3 {
        return Err(malformed_error(pair));
    }
    proof {
        vstd::std_specs::vec::axiom_vec_index_decreases(pair.inner, 0);
        vstd::std_specs::vec::axiom_vec_index_decreases(pair.inner, 2);
    }
    let tries = match parse_nodes(&pair.inner[0].inner, source_id, pair.inner[0].inner.len()) {
        Ok(v) => v,
        Err(e) => {
            return Err(e);
        },
    };
    let err = match name(&pair.inner[1]) {
        Ok(n) => n,
        Err(e) => {
            return Err(e);
        },
    };
    let catches = match parse_nodes(&pair.inner[2].inner, source_id, pair.inner[2].inner.len()) {
        Ok(v) => v,
        Err(e) => {
            return Err(e);
        },
    };
    Ok(AstNode::Try { tries, err, catches })
}

fn parse_dataframe(pair: &Pair, source_id: usize) -> (r: Result<AstNode, ParseError>)
    requires
        pair.rule == Rule::Dataframe,
    ensures
        built(r, node_of(*pair, source_id)),
    decreases pair, 0nat,
{
    let exps = match parse_columns(&pair.inner, source_id, pair) {
        Ok(v) => v,
        Err(e) => {
            return Err(e);
        },
    };
    let ghost vs = columns_of(pair.inner@, source_id, *pair, pair.inner@.len())->Ok_0;
    if constants(&exps, Ghost(vs)) {
        proof {
            lemma_columns_constant(pair.inner@, source_id, *pair, pair.inner@.len());
        }
        let columns = take_columns(exps, Ghost(vs));
        match table(columns, Ghost(plans_of(vs))) {
            Ok(df) => Ok(AstNode::J(J::DataFrame(df))),
            Err(m) => Err(raise_error(ErrorKind::DataframeShapeError, m, pair.start, pair.end)),
        }
    } else {
        Ok(AstNode::Dataframe { exps, start: pair.start, source_id })
    }
}

fn parse_matrix(pair: &Pair, source_id: usize) -> (r: Result<AstNode, ParseError>)
    requires
        pair.rule == Rule::Matrix,
    ensures
        built(r, node_of(*pair, source_id)),
    decreases pair, 0nat,
{
    let exps = match parse_rows(&pair.inner, source_id) {
        Ok(v) => v,
        Err(e) => {
            return Err(e);
        },
    };
    let ghost vs = rows_of(pair.inner@, source_id, pair.inner@.len())->Ok_0;
    if constants(&exps, Ghost(vs)) {
        proof {
            lemma_rows_constant(pair.inner@, source_id, pair.inner@.len());
        }
        let columns = take_columns(exps, Ghost(vs));
        match table(columns, Ghost(plans_of(vs))) {
            Ok(df) => {
                proof {
                    assert forall|i: int| 0 <= i < df.columns().len() implies crate::series::numeric_or_bool(
                        (#[trigger] df.columns()[i])@.dtype,
                    ) by {
                        assert(shows_series(df.columns()[i]@, plans_of(vs)[i]));
                        assert(vs[i] is J);
                    }
                }
                let m = Matrix::from_frame(df).unwrap();
                Ok(AstNode::J(J::Matrix(m)))
            },
            Err(m) => Err(raise_error(ErrorKind::DataframeShapeError, m, pair.start, pair.end)),
        }
    } else {
        Ok(AstNode::Matrix(exps))
    }
}

fn parse_list_literal(pair: &Pair, source_id: usize) -> (r: Result<AstNode, ParseError>)
    requires
        pair.rule == Rule::List,
    ensures
        built(r, node_of(*pair, source_id)),
    decreases pair, 0nat,
{
    if pair.inner.len() == 0 {
        return Ok(AstNode::J(J::MixedList(Vec::new())));
    }
    if rules_agree(&pair.inner) && is_scalar_rule(first_rule(&pair.inner[0])) {
        return parse_series(pair);
    }
    let items = match parse_items(&pair.inner, source_id) {
        Ok(v) => v,
        Err(e) => {
            return Err(e);
        },
    };
    let ghost vs = items_of(pair.inner@, source_id, pair.inner@.len())->Ok_0;
    if constants(&items, Ghost(vs)) {
        let values = take_values(items, Ghost(vs));
        Ok(AstNode::J(J::MixedList(values)))
    } else {
        Ok(AstNode::List(items))
    }
}

fn parse_dict(pair: &Pair, source_id: usize) -> (r: Result<AstNode, ParseError>)
    requires
        pair.rule == Rule::Dict,
    ensures
        built(r, node_of(*pair, source_id)),
    decreases pair, 0nat,
{
    let (keys, values) = match parse_entries(&pair.inner, source_id) {
        Ok(v) => v,
        Err(e) => {
            return Err(e);
        },
    };
    let ghost parts = entries_of(pair.inner@, source_id, pair.inner@.len())->Ok_0;
    proof {
        lemma_entries_len(pair.inner@, source_id, pair.inner@.len());
    }
    if constants(&values, Ghost(parts.values)) {
        let js = take_values(values, Ghost(parts.values));
        Ok(AstNode::J(J::Dict(dictionary(keys, js, Ghost(parts)))))
    } else {
        Ok(AstNode::Dict { keys, values })
    }
}

/// The dictionary of constant entries.
fn dictionary(keys: Vec<String>, values: Vec<J>, Ghost(parts): Ghost<DictParts>) -> (r: Dict)
    requires
        shows_texts(keys@, parts.keys),
        values@.len() == parts.values.len(),
        keys@.len() == values@.len(),
        forall|i: int|
            0 <= i < parts.values.len() ==> shows_j(values@[i], #[trigger] values_of(parts.values)[i]),
    ensures
        shows_j(J::Dict(r), JView::Dict { keys: parts.keys, values: values_of(parts.values) }),
{
    let ghost key_texts = keys@;
    let ghost value_js = values@;
    let d = Dict::new(keys, values);
    proof {
        let pairs = choose|pairs: Seq<(String, J)>|
            #![trigger crate::j::collected(pairs, pairs.len())]
            pairs.len() == key_texts.len() && (forall|i: int|
                0 <= i < pairs.len() ==> (#[trigger] pairs[i]).0@ == key_texts[i]@ && pairs[i].1
                    == value_js[i]) && crate::j::dict_entries(d) == crate::j::collected(
                pairs,
                pairs.len(),
            );
        let want = values_of(parts.values);
        assert forall|i: int| 0 <= i < want.len() implies pairs[i].0@ == parts.keys[i] && shows_j(
            pairs[i].1,
            #[trigger] want[i],
        ) by {
            assert(pairs[i].0@ == key_texts[i]@);
            assert(pairs[i].1 == value_js[i]);
        }
        assert(crate::j::dict_entries(d) == crate::j::collected(pairs, pairs.len()));
    }
    d
}

/// The nodes of the first `n` of `pairs`.
fn parse_nodes(pairs: &Vec<Pair>, source_id: usize, n: usize) -> (r: Result<Vec<AstNode>, ParseError>)
    requires
        n <= pairs@.len(),
    ensures
        built_all(r, nodes_of(pairs@, source_id, n as nat)),
    decreases pairs, 0nat,
{
    let mut out: Vec<AstNode> = Vec::new();
    let ghost mut vs: Seq<AstView> = Seq::empty();
    let mut i: usize = 0;
    while i < n
        invariant
            i <= n <= pairs@.len(),
            nodes_of(pairs@, source_id, i as nat) == Ok::<Seq<AstView>, ErrView>(vs),
            shows_all(out@, vs),
        decreases n - i,
    {
        proof {
            vstd::std_specs::vec::axiom_vec_index_decreases(*pairs, i as int);
        }
        match parse_exp(&pairs[i], source_id) {
            Ok(node) => {
                proof {
                    let v = node_of(pairs@[i as int], source_id)->Ok_0;
                    lemma_shows_push(out@, vs, node, v);
                    vs = vs.push(v);
                }
                out.push(node);
            },
            Err(e) => {
                proof {
                    lemma_nodes_fail(pairs@, source_id, (i + 1) as nat, n as nat);
                }
                return Err(e);
            },
        }
        i += 1;
    }
    Ok(out)
}

/// The arguments of a call: the nodes inside each of `pairs` from `from` on.
fn parse_args(pairs: &Vec<Pair>, source_id: usize, from: usize) -> (r: Result<
    Vec<AstNode>,
    ParseError,
>)
    ensures
        built_all(r, args_of(pairs@, source_id, from as nat, pairs@.len())),
    decreases pairs, 0nat,
{
    let n = pairs.len();
    let mut out: Vec<AstNode> = Vec::new();
    let ghost mut vs: Seq<AstView> = Seq::empty();
    if from >= n {
        return Ok(out);
    }
    let mut i: usize = from;
    while i < n
        invariant
            from <= i <= n,
            n == pairs@.len(),
            args_of(pairs@, source_id, from as nat, i as nat) == Ok::<Seq<AstView>, ErrView>(vs),
            shows_all(out@, vs),
        decreases n - i,
    {
        proof {
            vstd::std_specs::vec::axiom_vec_index_decreases(*pairs, i as int);
        }
        let arg = &pairs[i];
        if arg.inner.len() < 1 {
            proof {
                lemma_args_fail(pairs@, source_id, from as nat, (i + 1) as nat, n as nat);
            }
            return Err(malformed_error(arg));
        }
        proof {
            vstd::std_specs::vec::axiom_vec_index_decreases(arg.inner, 0);
        }
        match parse_exp(&arg.inner[0], source_id) {
            Ok(node) => {
                proof {
                    let v = node_of(arg.inner@[0], source_id)->Ok_0;
                    lemma_shows_push(out@, vs, node, v);
                    vs = vs.push(v);
                }
                out.push(node);
            },
            Err(e) => {
                proof {
                    lemma_args_fail(pairs@, source_id, from as nat, (i + 1) as nat, n as nat);
                }
                return Err(e);
            },
        }
        i += 1;
    }
    Ok(out)
}

/// Reads an item of a list literal.
pub fn parse_list(pair: &Pair, source_id: usize) -> (r: Result<AstNode, ParseError>)
    ensures
        built(r, item_of(*pair, source_id)),
    decreases pair, 2nat,
{
    match pair.rule {
        Rule::BinaryOp => {
            if is_keyword(pair.text.as_str()) {
                Err(keyword_error(pair))
            } else {
                Ok(op_node(pair, source_id))
            }
        },
        _ => parse_exp(pair, source_id),
    }
}

/// The items of a list literal.
fn parse_items(pairs: &Vec<Pair>, source_id: usize) -> (r: Result<Vec<AstNode>, ParseError>)
    ensures
        built_all(r, items_of(pairs@, source_id, pairs@.len())),
    decreases pairs, 0nat,
{
    let n = pairs.len();
    let mut out: Vec<AstNode> = Vec::new();
    let ghost mut vs: Seq<AstView> = Seq::empty();
    let mut i: usize = 0;
    while i < n
        invariant
            i <= n,
            n == pairs@.len(),
            items_of(pairs@, source_id, i as nat) == Ok::<Seq<AstView>, ErrView>(vs),
            shows_all(out@, vs),
        decreases n - i,
    {
        proof {
            vstd::std_specs::vec::axiom_vec_index_decreases(*pairs, i as int);
        }
        match parse_list(&pairs[i], source_id) {
            Ok(node) => {
                proof {
                    let v = item_of(pairs@[i as int], source_id)->Ok_0;
                    lemma_shows_push(out@, vs, node, v);
                    vs = vs.push(v);
                }
                out.push(node);
            },
            Err(e) => {
                proof {
                    lemma_items_fail(pairs@, source_id, (i + 1) as nat, n as nat);
                }
                return Err(e);
            },
        }
        i += 1;
    }
    Ok(out)
}

/// The column at position `i` of the dataframe literal `frame`.
fn parse_column(col: &Pair, i: usize, source_id: usize, frame: &Pair) -> (r: Result<
    AstNode,
    ParseError,
>)
    ensures
        built(r, column_of(*col, i as nat, source_id, *frame)),
    decreases col, 0nat,
{
    if col.inner.len() < 1 {
        return Err(malformed_error(col));
    }
    proof {
        vstd::std_specs::vec::axiom_vec_index_decreases(col.inner, 0);
    }
    let node = &col.inner[0];
    if node.rule == Rule::RenameSeriesExp {
        if node.inner.len() < 2 {
            return Err(malformed_error(node));
        }
        proof {
            vstd::std_specs::vec::axiom_vec_index_decreases(node.inner, 1);
        }
        let given = match name(&node.inner[0]) {
            Ok(n) => n,
            Err(e) => {
                return Err(e);
            },
        };
        match parse_exp(&node.inner[1], source_id) {
            Ok(exp) => frame_column(
                given,
                exp,
                frame,
                Ghost(node_of(node.inner@[1], source_id)->Ok_0),
            ),
            Err(e) => Err(e),
        }
    } else {
        match parse_exp(node, source_id) {
            Ok(exp) => frame_column(
                "series".to_owned().concat(two_digits(i).as_str()),
                exp,
                frame,
                Ghost(node_of(*node, source_id)->Ok_0),
            ),
            Err(e) => Err(e),
        }
    }
}

/// The columns of the dataframe literal `frame`.
fn parse_columns(pairs: &Vec<Pair>, source_id: usize, frame: &Pair) -> (r: Result<
    Vec<AstNode>,
    ParseError,
>)
    ensures
        built_all(r, columns_of(pairs@, source_id, *frame, pairs@.len())),
    decreases pairs, 0nat,
{
    let n = pairs.len();
    let mut out: Vec<AstNode> = Vec::new();
    let ghost mut vs: Seq<AstView> = Seq::empty();
    let mut i: usize = 0;
    while i < n
        invariant
            i <= n,
            n == pairs@.len(),
            columns_of(pairs@, source_id, *frame, i as nat) == Ok::<Seq<AstView>, ErrView>(vs),
            shows_all(out@, vs),
        decreases n - i,
    {
        proof {
            vstd::std_specs::vec::axiom_vec_index_decreases(*pairs, i as int);
        }
        match parse_column(&pairs[i], i, source_id, frame) {
            Ok(node) => {
                proof {
                    let v = column_of(pairs@[i as int], i as nat, source_id, *frame)->Ok_0;
                    lemma_shows_push(out@, vs, node, v);
                    vs = vs.push(v);
                }
                out.push(node);
            },
            Err(e) => {
                proof {
                    lemma_columns_fail(pairs@, source_id, *frame, (i + 1) as nat, n as nat);
                }
                return Err(e);
            },
        }
        i += 1;
    }
    Ok(out)
}

/// The row at position `i` of a matrix literal.
fn parse_row(row: &Pair, i: usize, source_id: usize) -> (r: Result<AstNode, ParseError>)
    ensures
        built(r, row_of(*row, i as nat, source_id)),
    decreases row, 0nat,
{
    if row.inner.len() < 1 {
        return Err(malformed_error(row));
    }
    proof {
        vstd::std_specs::vec::axiom_vec_index_decreases(row.inner, 0);
    }
    match parse_exp(&row.inner[0], source_id) {
        Ok(exp) => matrix_row(
            "col".to_owned().concat(two_digits(i).as_str()),
            exp,
            &row.inner[0],
            Ghost(node_of(row.inner@[0], source_id)->Ok_0),
        ),
        Err(e) => Err(e),
    }
}

/// The rows of a matrix literal.
fn parse_rows(pairs: &Vec<Pair>, source_id: usize) -> (r: Result<Vec<AstNode>, ParseError>)
    ensures
        built_all(r, rows_of(pairs@, source_id, pairs@.len())),
    decreases pairs, 0nat,
{
    let n = pairs.len();
    let mut out: Vec<AstNode> = Vec::new();
    let ghost mut vs: Seq<AstView> = Seq::empty();
    let mut i: usize = 0;
    while i < n
        invariant
            i <= n,
            n == pairs@.len(),
            rows_of(pairs@, source_id, i as nat) == Ok::<Seq<AstView>, ErrView>(vs),
            shows_all(out@, vs),
        decreases n - i,
    {
        proof {
            vstd::std_specs::vec::axiom_vec_index_decreases(*pairs, i as int);
        }
        match parse_row(&pairs[i], i, source_id) {
            Ok(node) => {
                proof {
                    let v = row_of(pairs@[i as int], i as nat, source_id)->Ok_0;
                    lemma_shows_push(out@, vs, node, v);
                    vs = vs.push(v);
                }
                out.push(node);
            },
            Err(e) => {
                proof {
                    lemma_rows_fail(pairs@, source_id, (i + 1) as nat, n as nat);
                }
                return Err(e);
            },
        }
        i += 1;
    }
    Ok(out)
}

/// The keys and the values of a dictionary literal.
fn parse_entries(pairs: &Vec<Pair>, source_id: usize) -> (r: Result<
    (Vec<String>, Vec<AstNode>),
    ParseError,
>)
    ensures
        match entries_of(pairs@, source_id, pairs@.len()) {
            Ok(parts) => r is Ok && (r->Ok_0 matches (keys, values) && shows_texts(keys@, parts.keys)
                && shows_all(values@, parts.values)),
            Err(e) => r is Err && r->Err_0@ == e,
        },
    decreases pairs, 0nat,
{
    let n = pairs.len();
    let mut keys: Vec<String> = Vec::new();
    let mut values: Vec<AstNode> = Vec::new();
    let ghost mut parts = DictParts { keys: Seq::empty(), values: Seq::empty() };
    let mut i: usize = 0;
    while i < n
        invariant
            i <= n,
            n == pairs@.len(),
            entries_of(pairs@, source_id, i as nat) == Ok::<DictParts, ErrView>(parts),
            shows_texts(keys@, parts.keys),
            shows_all(values@, parts.values),
        decreases n - i,
    {
        proof {
            vstd::std_specs::vec::axiom_vec_index_decreases(*pairs, i as int);
        }
        let kv = &pairs[i];
        if kv.inner.len() < 2 {
            proof {
                lemma_entries_fail(pairs@, source_id, (i + 1) as nat, n as nat);
            }
            return Err(malformed_error(kv));
        }
        proof {
            vstd::std_specs::vec::axiom_vec_index_decreases(kv.inner, 1);
        }
        let key = match key_text(&kv.inner[0]) {
            Ok(k) => k,
            Err(e) => {
                proof {
                    lemma_entries_fail(pairs@, source_id, (i + 1) as nat, n as nat);
                }
                return Err(e);
            },
        };
        match parse_exp(&kv.inner[1], source_id) {
            Ok(node) => {
                proof {
                    let v = node_of(kv.inner@[1], source_id)->Ok_0;
                    lemma_shows_push(values@, parts.values, node, v);
                    parts = DictParts { keys: parts.keys.push(key@), values: parts.values.push(v) };
                }
                keys.push(key);
                values.push(node);
            },
            Err(e) => {
                proof {
                    lemma_entries_fail(pairs@, source_id, (i + 1) as nat, n as nat);
                }
                return Err(e);
            },
        }
        i += 1;
    }
    Ok((keys, values))
}

/// Reads a column of a query: a renamed expression, a bare name, or an
/// expression.
pub fn parse_sql_col_exp(pair: &Pair, source_id: usize) -> (r: Result<AstNode, ParseError>)
    ensures
        built(r, sql_col_of(*pair, source_id)),
    decreases pair, 2nat,
{
    match pair.rule {
        Rule::SeriesExp => {
            if pair.inner.len() < 1 {
                return Err(malformed_error(pair));
            }
            proof {
                vstd::std_specs::vec::axiom_vec_index_decreases(pair.inner, 0);
            }
            parse_sql_col_exp(&pair.inner[0], source_id)
        },
        Rule::RenameSeriesExp => {
            if pair.inner.len() < 2 {
                return Err(malformed_error(pair));
            }
            proof {
                vstd::std_specs::vec::axiom_vec_index_decreases(pair.inner, 1);
            }
            let given = match name(&pair.inner[0]) {
                Ok(n) => n,
                Err(e) => {
                    return Err(e);
                },
            };
            match parse_exp(&pair.inner[1], source_id) {
                Ok(exp) => Ok(AstNode::Series { name: given, exp: Box::new(exp) }),
                Err(e) => Err(e),
            }
        },
        Rule::SeriesName => checked(pair, source_id),
        _ => parse_exp(pair, source_id),
    }
}

/// The columns of a clause of a query.
fn parse_sql_cols(pairs: &Vec<Pair>, source_id: usize) -> (r: Result<Vec<AstNode>, ParseError>)
    ensures
        built_all(r, sql_cols_of(pairs@, source_id, pairs@.len())),
    decreases pairs, 0nat,
{
    let n = pairs.len();
    let mut out: Vec<AstNode> = Vec::new();
    let ghost mut vs: Seq<AstView> = Seq::empty();
    let mut i: usize = 0;
    while i < n
        invariant
            i <= n,
            n == pairs@.len(),
            sql_cols_of(pairs@, source_id, i as nat) == Ok::<Seq<AstView>, ErrView>(vs),
            shows_all(out@, vs),
        decreases n - i,
    {
        proof {
            vstd::std_specs::vec::axiom_vec_index_decreases(*pairs, i as int);
        }
        match parse_sql_col_exp(&pairs[i], source_id) {
            Ok(node) => {
                proof {
                    let v = sql_col_of(pairs@[i as int], source_id)->Ok_0;
                    lemma_shows_push(out@, vs, node, v);
                    vs = vs.push(v);
                }
                out.push(node);
            },
            Err(e) => {
                proof {
                    lemma_sql_cols_fail(pairs@, source_id, (i + 1) as nat, n as nat);
                }
                return Err(e);
            },
        }
        i += 1;
    }
    Ok(out)
}

/// A query without clauses.
fn new_clauses() -> (r: Clauses)
    ensures
        shows_clauses(r, no_clauses()),
{
    reveal(shows_clauses);
    Clauses {
        op: "select".to_owned(),
        ops: Vec::new(),
        groups: Vec::new(),
        group_type: "by".to_owned(),
        from: AstNode::Skip,
        filters: Vec::new(),
        sorts: Vec::new(),
        take: AstNode::J(J::Null),
    }
}

/// Reads the clause `c` into the clauses read so far.
fn parse_clause(state: Clauses, c: &Pair, source_id: usize, Ghost(q): Ghost<SqlParts>) -> (r: Result<
    Clauses,
    ParseError,
>)
    requires
        shows_clauses(state, q),
    ensures
        match clause_of(q, *c, source_id) {
            Ok(next) => r is Ok && shows_clauses(r->Ok_0, next),
            Err(e) => r is Err && r->Err_0@ == e,
        },
    decreases c, 0nat,
{
    reveal(shows_clauses);
    let Clauses { op, ops, groups, group_type, from, filters, sorts, take } = state;
    match c.rule {
        Rule::SelectOp | Rule::UpdateOp | Rule::DeleteOp => {
            let op = match head_text(c.text.as_str(), 6) {
                Some(op) => op,
                None => {
                    return Err(malformed_error(c));
                },
            };
            let more = match parse_sql_cols(&c.inner, source_id) {
                Ok(v) => v,
                Err(e) => {
                    return Err(e);
                },
            };
            let all = append_nodes(
                ops,
                more,
                Ghost(q.ops),
                Ghost(sql_cols_of(c.inner@, source_id, c.inner@.len())->Ok_0),
            );
            Ok(Clauses { op, ops: all, groups, group_type, from, filters, sorts, take })
        },
        Rule::GroupExp => {
            let groups = match parse_sql_cols(&c.inner, source_id) {
                Ok(v) => v,
                Err(e) => {
                    return Err(e);
                },
            };
            let group_type = group_type_of(c.text.as_str()).to_owned();
            Ok(Clauses { op, ops, groups, group_type, from, filters, sorts, take })
        },
        Rule::FromExp => {
            if c.inner.len() < 1 {
                return Err(malformed_error(c));
            }
            proof {
                vstd::std_specs::vec::axiom_vec_index_decreases(c.inner, 0);
            }
            match parse_exp(&c.inner[0], source_id) {
                Ok(from) => Ok(Clauses { op, ops, groups, group_type, from, filters, sorts, take }),
                Err(e) => Err(e),
            }
        },
        Rule::FilterExp => {
            match parse_nodes(&c.inner, source_id, c.inner.len()) {
                Ok(filters) => Ok(
                    Clauses { op, ops, groups, group_type, from, filters, sorts, take },
                ),
                Err(e) => Err(e),
            }
        },
        Rule::SortOp => {
            match ids(&c.inner, source_id) {
                Ok(sorts) => Ok(Clauses { op, ops, groups, group_type, from, filters, sorts, take }),
                Err(e) => Err(e),
            }
        },
        Rule::TakeOp => {
            if c.inner.len() < 1 {
                return Err(malformed_error(c));
            }
            proof {
                vstd::std_specs::vec::axiom_vec_index_decreases(c.inner, 0);
            }
            match parse_exp(&c.inner[0], source_id) {
                Ok(take) => Ok(Clauses { op, ops, groups, group_type, from, filters, sorts, take }),
                Err(e) => Err(e),
            }
        },
        _ => Err(unexpected_error("Unexpected sql: ", c)),
    }
}

/// The query that the clauses make.
fn query(state: Clauses, pair: &Pair, source_id: usize, Ghost(q): Ghost<SqlParts>) -> (r: AstNode)
    requires
        shows_clauses(state, q),
    ensures
        shows(
            r,
            AstView::Sql {
                op: q.op,
                from: Box::new(q.from),
                filters: q.filters,
                group_type: q.group_type,
                groups: q.groups,
                ops: q.ops,
                sorts: q.sorts,
                take: Box::new(q.take),
                source_id: source_id as int,
                start: pair.start as int,
            },
        ),
{
    reveal(shows_clauses);
    let Clauses { op, ops, groups, group_type, from, filters, sorts, take } = state;
    AstNode::Sql {
        op,
        from: Box::new(from),
        filters,
        group_type,
        groups,
        ops,
        sorts,
        take: Box::new(take),
        source_id,
        start: pair.start,
    }
}

/// The clauses of a query.
fn parse_clauses(pairs: &Vec<Pair>, source_id: usize) -> (r: Result<Clauses, ParseError>)
    ensures
        match clauses_of(pairs@, source_id, pairs@.len()) {
            Ok(q) => r is Ok && shows_clauses(r->Ok_0, q),
            Err(e) => r is Err && r->Err_0@ == e,
        },
    decreases pairs, 0nat,
{
    let n = pairs.len();
    let mut state = new_clauses();
    let ghost mut q = no_clauses();
    let mut i: usize = 0;
    while i < n
        invariant
            i <= n,
            n == pairs@.len(),
            clauses_of(pairs@, source_id, i as nat) == Ok::<SqlParts, ErrView>(q),
            shows_clauses(state, q),
        decreases n - i,
    {
        proof {
            vstd::std_specs::vec::axiom_vec_index_decreases(*pairs, i as int);
        }
        match parse_clause(state, &pairs[i], source_id, Ghost(q)) {
            Ok(next) => {
                proof {
                    q = clause_of(q, pairs@[i as int], source_id)->Ok_0;
                }
                state = next;
            },
            Err(e) => {
                proof {
                    lemma_clauses_fail(pairs@, source_id, (i + 1) as nat, n as nat);
                }
                return Err(e);
            },
        }
        i += 1;
    }
    Ok(state)
}

/// Reads a query: the operation with its columns, then the groups, the
/// source, the filters, the order and the count, as far as they are there.
pub fn parse_sql(pair: &Pair, source_id: usize) -> (r: Result<AstNode, ParseError>)
    requires
        pair.rule == Rule::SqlExp,
    ensures
        built(r, node_of(*pair, source_id)),
    decreases pair, 0nat,
{
    match parse_clauses(&pair.inner, source_id) {
        Ok(state) => Ok(
            query(
                state,
                pair,
                source_id,
                Ghost(clauses_of(pair.inner@, source_id, pair.inner@.len())->Ok_0),
            ),
        ),
        Err(e) => Err(e),
    }
}

/// The nodes of the expressions among the first `n` nodes of a program, or
/// the error of the first that has one. Nodes of other rules, such as the end
/// of the input, are passed over.
pub open spec fn program_of(ps: Seq<Pair>, sid: usize, n: nat) -> Result<Seq<AstView>, ErrView>
    decreases n,
{
    if n == 0 || n > ps.len() {
        Ok(Seq::empty())
    } else {
        match program_of(ps, sid, (n - 1) as nat) {
            Ok(vs) => if ps[n - 1].rule == Rule::Exp {
                match node_of(ps[n - 1], sid) {
                    Ok(v) => Ok(vs.push(v)),
                    Err(e) => Err(e),
                }
            } else {
                Ok(vs)
            },
            Err(e) => Err(e),
        }
    }
}

pub proof fn lemma_program_fail(ps: Seq<Pair>, sid: usize, k: nat, n: nat)
    requires
        1 <= k <= n <= ps.len(),
        program_of(ps, sid, k) is Err,
    ensures
        program_of(ps, sid, n) == program_of(ps, sid, k),
    decreases n - k,
{
    if k < n {
        lemma_program_fail(ps, sid, k, (n - 1) as nat);
    }
}

/// Builds the syntax tree of a program from its parse tree: one node for each
/// expression, in order; the first error ends the walk.
pub fn parse_tree(pairs: &Vec<Pair>, source_id: usize) -> (r: Result<Vec<AstNode>, ParseError>)
    ensures
        built_all(r, program_of(pairs@, source_id, pairs@.len())),
{
    let n = pairs.len();
    let mut out: Vec<AstNode> = Vec::new();
    let ghost mut vs: Seq<AstView> = Seq::empty();
    let mut i: usize = 0;
    while i < n
        invariant
            i <= n,
            n == pairs@.len(),
            program_of(pairs@, source_id, i as nat) == Ok::<Seq<AstView>, ErrView>(vs),
            shows_all(out@, vs),
        decreases n - i,
    {
        if pairs[i].rule == Rule::Exp {
            match parse_exp(&pairs[i], source_id) {
                Ok(node) => {
                    proof {
                        let v = node_of(pairs@[i as int], source_id)->Ok_0;
                        lemma_shows_push(out@, vs, node, v);
                        vs = vs.push(v);
                    }
                    out.push(node);
                },
                Err(e) => {
                    proof {
                        lemma_program_fail(pairs@, source_id, (i + 1) as nat, n as nat);
                    }
                    return Err(e);
                },
            }
        }
        i += 1;
    }
    Ok(out)
}

/// The message of a syntax error whose failing text is `failing`: a hint where
/// the text is a colon or an equals sign, which stand where `=` or `==` was
/// meant, else `message`.
pub open spec fn hinted(message: Seq<char>, failing: Seq<u8>) -> Seq<char> {
    if failing == seq![58u8] {
        "perhaps '='"@
    } else if failing == seq![61u8] {
        "perhaps '=='"@
    } else {
        message
    }
}

/// The bytes of the source that an error is about.
pub open spec fn failing_text(source: Seq<u8>, e: ErrView) -> Seq<u8> {
    if 0 <= e.start <= e.end <= source.len() {
        source.subrange(e.start, e.end)
    } else {
        Seq::empty()
    }
}

/// Puts the hint into a syntax error of `source`, where one applies.
pub fn hint(e: ParseError, source: &str) -> (r: ParseError)
    ensures
        r@ == (ErrView { message: hinted(e@.message, failing_text(utf8(source@), e@)), ..e@ }),
{
    let b = source.as_bytes();
    let ParseError { kind, message, start, end } = e;
    if start < b.len() && end == start + 1 {
        proof {
            assert(utf8(source@).subrange(start as int, end as int) =~= seq![b@[start as int]]);
            assert(seq![b@[start as int]][0] == b@[start as int]);
        }
        if b[start] == 58 {
            return ParseError { kind, message: "perhaps '='".to_owned(), start, end };
        }
        if b[start] == 61 {
            return ParseError { kind, message: "perhaps '=='".to_owned(), start, end };
        }
        proof {
            assert(seq![58u8][0] == 58u8);
            assert(seq![61u8][0] == 61u8);
        }
        return ParseError { kind, message, start, end };
    }
    proof {
        let f = failing_text(utf8(source@), (ErrView { kind, message: message@, start: start as int, end: end as int }));
        assert(seq![58u8].len() == 1);
        assert(seq![61u8].len() == 1);
        assert(f.len() != 1);
    }
    ParseError { kind, message, start, end }
}

/// The syntax error of a source that the grammar refuses: it is about the
/// character at the furthest position at which no rule matched, and carries
/// a hint where a colon or an equals sign stands there.
pub open spec fn syntax_error(source: Seq<char>) -> ErrView {
    let at = crate::syntax::program_of(source).far;
    let e = ErrView {
        kind: ErrorKind::SyntaxError,
        message: "syntax error"@,
        start: at,
        end: crate::grammar::error_end(source, at),
    };
    ErrView { message: hinted(e.message, failing_text(utf8(source), e)), ..e }
}

/// Reads `source` into its syntax tree: one node for each expression of the
/// program, in order.
///
/// A source that the grammar refuses is the syntax error of that source. A
/// source that it takes has the parse tree that the grammar gives it, whose
/// nodes lie in the source and hold its text, and the result is what the
/// builder makes of that tree: its nodes, or its first error. In the nodes
/// every position lies in the source and bears `source_id`, an identifier or
/// an operator stands in the source at its position, and none is a reserved
/// word.
pub fn parse(source: &str, source_id: usize) -> (r: Result<Vec<AstNode>, ParseError>)
    ensures
        match crate::syntax::program_of(source@).trees {
            Some(t) => exists|pairs: Seq<Pair>|
                #![trigger program_of(pairs, source_id, pairs.len())]
                crate::grammar::nested(pairs, utf8(source@), 0, utf8(source@).len() as usize)
                    && crate::grammar::trees(pairs) == t && built_all(
                    r,
                    program_of(pairs, source_id, pairs.len()),
                ),
            None => r is Err && r->Err_0@ == syntax_error(source@),
        },
        r matches Ok(nodes) ==> exists|views: Seq<AstView>|
            #![trigger shows_all(nodes@, views)]
            shows_all(nodes@, views) && crate::laws::all_sound(views, utf8(source@), source_id),
{
    match crate::grammar::JParser::parse(Rule::Program, source) {
        Ok(pairs) => {
            let r = parse_tree(&pairs, source_id);
            proof {
                let v = program_of(pairs@, source_id, pairs@.len());
                assert(built_all(r, v));
                if v is Ok {
                    crate::laws::lemma_program(pairs@, source_id, utf8(source@), pairs@.len());
                    assert(shows_all(r->Ok_0@, v->Ok_0));
                }
            }
            r
        },
        Err(e) => Err(hint(e, source)),
    }
}

} // verus!
