//! What holds of every syntax tree that the builder makes of a parse tree
//! whose nodes lie in the source.
use crate::ast_node::AstView;
use crate::blueprint::args_of;
use crate::blueprint::binary_op_of;
use crate::blueprint::checked_id;
use crate::blueprint::clause_of;
use crate::blueprint::clauses_of;
use crate::blueprint::column_of;
use crate::blueprint::columns_of;
use crate::blueprint::entries_of;
use crate::blueprint::id_view;
use crate::blueprint::ids_of;
use crate::blueprint::item_of;
use crate::blueprint::items_of;
use crate::blueprint::kept;
use crate::blueprint::names_of;
use crate::blueprint::node_of;
use crate::blueprint::nodes_of;
use crate::blueprint::reserved_word;
use crate::blueprint::row_of;
use crate::blueprint::rows_of;
use crate::blueprint::sql_col_of;
use crate::blueprint::sql_cols_of;
use crate::blueprint::SqlParts;
use crate::errors::ErrorKind;
use crate::keyword::reserved;
use crate::pair::Pair;
use crate::pair::Rule;
use crate::parser::program_of;
use vstd::prelude::*;

verus! {

/// Whether the bytes of `name` stand in `source` at `start`.
pub open spec fn spelled(source: Seq<u8>, start: int, name: Seq<char>) -> bool {
    0 <= start && start + crate::text::utf8(name).len() <= source.len() && source.subrange(
        start,
        start + crate::text::utf8(name).len(),
    ) == crate::text::utf8(name)
}

/// Every position in the node lies in `source` and is one of the source
/// `sid`; an identifier stands in the source at its position, an operator
/// there or behind one byte that marks it; and no identifier, no operator, no
/// name that is assigned to, no name of a parameter and no name of a caught
/// error is a reserved word.
pub open spec fn sound(v: AstView, source: Seq<u8>, sid: usize) -> bool
    decreases v,
{
    match v {
        AstView::J(_) => true,
        AstView::Fn { stmts, arg_names, fn_body, start, source_id } => 0 <= start <= source.len()
            && source_id == sid && all_sound(stmts, source, sid) && forall|i: int|
            0 <= i < arg_names.len() ==> !reserved(#[trigger] arg_names[i]),
        AstView::UnaryOp { op, exp } => sound(*op, source, sid) && sound(*exp, source, sid),
        AstView::BinOp { op, lhs, rhs } => sound(*op, source, sid) && sound(*lhs, source, sid) && sound(
            *rhs,
            source,
            sid,
        ),
        AstView::Assign { id, exp } => !reserved(id) && sound(*exp, source, sid),
        AstView::IndexAssign { id, indices, exp } => sound(*id, source, sid) && all_sound(
            indices,
            source,
            sid,
        ) && sound(*exp, source, sid),
        AstView::Op { name, start, source_id } => 0 <= start <= source.len() && source_id == sid
            && !reserved(name) && (spelled(source, start, name) || spelled(
            source,
            start + 1,
            name,
        )),
        AstView::Id { name, start, source_id } => 0 <= start <= source.len() && source_id == sid
            && !reserved(name) && spelled(source, start, name),
        AstView::Call { f, args, start, source_id } => 0 <= start <= source.len() && source_id == sid
            && sound(*f, source, sid) && all_sound(args, source, sid),
        AstView::If { cond, stmts } => sound(*cond, source, sid) && all_sound(stmts, source, sid),
        AstView::While { cond, stmts } => sound(*cond, source, sid) && all_sound(stmts, source, sid),
        AstView::Try { tries, err, catches } => all_sound(tries, source, sid) && !reserved(err)
            && all_sound(catches, source, sid),
        AstView::Return(exp) => sound(*exp, source, sid),
        AstView::Raise { exp, start, source_id } => 0 <= start <= source.len() && source_id == sid && sound(
            *exp,
            source,
            sid,
        ),
        AstView::Dataframe { exps, start, source_id } => 0 <= start <= source.len() && source_id == sid
            && all_sound(exps, source, sid),
        AstView::Matrix(exps) => all_sound(exps, source, sid),
        AstView::Dict { keys, values } => all_sound(values, source, sid),
        AstView::List(exps) => all_sound(exps, source, sid),
        AstView::Series { name, exp } => sound(*exp, source, sid),
        AstView::Sql {
            op,
            from,
            filters,
            group_type,
            groups,
            ops,
            sorts,
            take,
            source_id,
            start,
        } => 0 <= start <= source.len() && source_id == sid && sound(*from, source, sid) && all_sound(
            filters,
            source,
            sid,
        ) && all_sound(groups, source, sid) && all_sound(ops, source, sid) && all_sound(
            sorts,
            source,
            sid,
        ) && sound(*take, source, sid),
        AstView::Skip => true,
    }
}

/// Every node is sound.
pub open spec fn all_sound(vs: Seq<AstView>, source: Seq<u8>, sid: usize) -> bool
    decreases vs,
{
    forall|i: int| 0 <= i < vs.len() ==> sound(#[trigger] vs[i], source, sid)
}

/// The first `n` nodes lie in the source.
pub open spec fn lie_in(ps: Seq<Pair>, source: Seq<u8>, n: nat) -> bool {
    forall|i: int| 0 <= i < n && i < ps.len() ==> (#[trigger] ps[i]).within(source)
}

proof fn lemma_inner(p: Pair, source: Seq<u8>)
    requires
        p.within(source),
    ensures
        lie_in(p.inner@, source, p.inner@.len()),
        p.start <= p.end <= source.len(),
        spelled(source, p.start as int, p.text@),
{
    assert(crate::text::utf8(p.text@).len() == p.end - p.start);
}

/// What is left of a text without its first bytes spells the rest of its
/// bytes.
proof fn lemma_cut_front(t: Seq<char>, front: int)
    requires
        crate::text::cut(t, front, 0) is Some,
    ensures
        crate::text::utf8(crate::text::cut(t, front, 0)->0) == crate::text::utf8(t).subrange(
            front,
            crate::text::utf8(t).len() as int,
        ),
{
    let b = crate::text::utf8(t);
    vstd::utf8::encode_utf8_valid_utf8(t);
    vstd::utf8::valid_utf8_split(b, front);
    vstd::utf8::decode_utf8_encode_utf8(b.subrange(front, b.len() as int));
}

/// The operator of a node that lies in the source is sound.
proof fn lemma_operator(p: Pair, sid: usize, source: Seq<u8>)
    requires
        p.within(source),
        binary_op_of(p, sid) is Ok,
    ensures
        sound(binary_op_of(p, sid)->Ok_0, source, sid),
{
    lemma_inner(p, source);
    let b = crate::text::utf8(p.text@);
    if p.rule == Rule::BinaryId {
        let name = crate::text::cut(p.text@, 1, 0)->0;
        lemma_cut_front(p.text@, 1);
        assert(source.subrange(p.start + 1, p.start + 1 + crate::text::utf8(name).len())
            =~= crate::text::utf8(name));
    }
}

proof fn lemma_push(vs: Seq<AstView>, v: AstView, source: Seq<u8>, sid: usize)
    requires
        all_sound(vs, source, sid),
        sound(v, source, sid),
    ensures
        all_sound(vs.push(v), source, sid),
{
    assert forall|i: int| 0 <= i < vs.push(v).len() implies sound(
        #[trigger] vs.push(v)[i],
        source,
        sid,
    ) by {
        if i < vs.len() {
            assert(vs.push(v)[i] == vs[i]);
        }
    }
}

proof fn lemma_names(ps: Seq<Pair>, n: nat)
    requires
        names_of(ps, n) is Ok,
    ensures
        forall|i: int|
            0 <= i < names_of(ps, n)->Ok_0.len() ==> !reserved(#[trigger] names_of(ps, n)->Ok_0[i]),
    decreases n,
{
    if n > 0 && n <= ps.len() {
        lemma_names(ps, (n - 1) as nat);
        let before = names_of(ps, (n - 1) as nat)->Ok_0;
        let all = names_of(ps, n)->Ok_0;
        assert(all == before.push(ps[n - 1].text@));
        assert forall|i: int| 0 <= i < all.len() implies !reserved(#[trigger] all[i]) by {
            if i < before.len() {
                assert(all[i] == before[i]);
            }
        }
    }
}

proof fn lemma_ids(ps: Seq<Pair>, sid: usize, source: Seq<u8>, n: nat)
    requires
        lie_in(ps, source, n),
        ids_of(ps, sid, n) is Ok,
    ensures
        all_sound(ids_of(ps, sid, n)->Ok_0, source, sid),
    decreases n,
{
    if n > 0 && n <= ps.len() {
        lemma_ids(ps, sid, source, (n - 1) as nat);
        lemma_inner(ps[n - 1], source);
        lemma_push(
            ids_of(ps, sid, (n - 1) as nat)->Ok_0,
            id_view(ps[n - 1], sid),
            source,
            sid,
        );
    }
}

/// The syntax tree of a node that lies in the source is sound.
pub proof fn lemma_node(p: Pair, sid: usize, source: Seq<u8>)
    requires
        p.within(source),
        node_of(p, sid) is Ok,
    ensures
        sound(node_of(p, sid)->Ok_0, source, sid),
    decreases p, 1nat,
{
    lemma_inner(p, source);
    match p.rule {
        Rule::Exp | Rule::BracketExp | Rule::BracketSqlExp => {
            lemma_wrap_node(p, sid, source);
        },
        Rule::UnaryExp | Rule::UnarySqlExp => {
            lemma_unary_node(p, sid, source);
        },
        Rule::BinaryExp | Rule::BinarySqlExp => {
            lemma_binary_node(p, sid, source);
        },
        Rule::AssignmentExp => {
            lemma_assignment_node(p, sid, source);
        },
        Rule::Fn => {
            lemma_function_node(p, sid, source);
        },
        Rule::FnCall => {
            lemma_call_node(p, sid, source);
        },
        Rule::IfExp | Rule::WhileExp => {
            lemma_block_node(p, sid, source);
        },
        Rule::TryExp => {
            lemma_attempt_node(p, sid, source);
        },
        Rule::ReturnExp | Rule::RaiseExp => {
            lemma_leave_node(p, sid, source);
        },
        Rule::Dataframe => {
            lemma_dataframe_node(p, sid, source);
        },
        Rule::Matrix => {
            lemma_matrix_node(p, sid, source);
        },
        Rule::SqlExp => {
            lemma_query_node(p, sid, source);
        },
        Rule::List => {
            lemma_list_node(p, sid, source);
        },
        Rule::Dict => {
            lemma_dict_node(p, sid, source);
        },
        _ => {},
    }
}

proof fn lemma_wrap_node(p: Pair, sid: usize, source: Seq<u8>)
    requires
        p.within(source),
        node_of(p, sid) is Ok,
        p.rule == Rule::Exp || p.rule == Rule::BracketExp || p.rule == Rule::BracketSqlExp,
    ensures
        sound(node_of(p, sid)->Ok_0, source, sid),
    decreases p, 0nat,
{
    lemma_inner(p, source);
    lemma_node(p.inner@[0], sid, source);
}

proof fn lemma_unary_node(p: Pair, sid: usize, source: Seq<u8>)
    requires
        p.within(source),
        node_of(p, sid) is Ok,
        p.rule == Rule::UnaryExp || p.rule == Rule::UnarySqlExp,
    ensures
        sound(node_of(p, sid)->Ok_0, source, sid),
    decreases p, 0nat,
{
    lemma_inner(p, source);
    lemma_node(p.inner@[1], sid, source);
    lemma_node(p.inner@[0], sid, source);
}

proof fn lemma_binary_node(p: Pair, sid: usize, source: Seq<u8>)
    requires
        p.within(source),
        node_of(p, sid) is Ok,
        p.rule == Rule::BinaryExp || p.rule == Rule::BinarySqlExp,
    ensures
        sound(node_of(p, sid)->Ok_0, source, sid),
    decreases p, 0nat,
{
    lemma_inner(p, source);
    assert(p.inner@.len() >= 3);
    let lhs = node_of(p.inner@[0], sid);
    let rhs = node_of(p.inner@[2], sid);
    let op = binary_op_of(p.inner@[1], sid);
    assert(lhs is Ok && rhs is Ok && op is Ok);
    lemma_node(p.inner@[0], sid, source);
    lemma_node(p.inner@[2], sid, source);
    lemma_operator(p.inner@[1], sid, source);
    assert(node_of(p, sid)->Ok_0 == (AstView::BinOp {
        op: Box::new(op->Ok_0),
        lhs: Box::new(lhs->Ok_0),
        rhs: Box::new(rhs->Ok_0),
    }));
}

proof fn lemma_assignment_node(p: Pair, sid: usize, source: Seq<u8>)
    requires
        p.within(source),
        node_of(p, sid) is Ok,
        p.rule == Rule::AssignmentExp,
    ensures
        sound(node_of(p, sid)->Ok_0, source, sid),
    decreases p, 0nat,
{
    lemma_inner(p, source);
    assert(p.inner@.len() >= 2);
    let exp = node_of(p.inner@[1], sid);
    if p.inner@[0].rule == Rule::FnCall {
        let call = p.inner@[0];
        lemma_inner(call, source);
        assert(call.inner@.len() >= 1);
        let indices = args_of(call.inner@, sid, 1, call.inner@.len());
        assert(indices is Ok);
        assert(exp is Ok);
        let id = checked_id(call.inner@[0], sid);
        assert(id is Ok);
        lemma_node(p.inner@[1], sid, source);
        lemma_inner(call.inner@[0], source);
        lemma_args(call.inner@, sid, source, 1, call.inner@.len());
        assert(sound(id->Ok_0, source, sid));
        assert(node_of(p, sid)->Ok_0 == (AstView::IndexAssign {
            id: Box::new(id->Ok_0),
            indices: indices->Ok_0,
            exp: Box::new(exp->Ok_0),
        }));
    } else {
        assert(exp is Ok);
        lemma_node(p.inner@[1], sid, source);
        assert(node_of(p, sid)->Ok_0 == (AstView::Assign {
            id: p.inner@[0].text@,
            exp: Box::new(exp->Ok_0),
        }));
    }
}

proof fn lemma_function_node(p: Pair, sid: usize, source: Seq<u8>)
    requires
        p.within(source),
        node_of(p, sid) is Ok,
        p.rule == Rule::Fn,
    ensures
        sound(node_of(p, sid)->Ok_0, source, sid),
    decreases p, 0nat,
{
    lemma_inner(p, source);
    lemma_inner(p.inner@[0], source);
    lemma_inner(p.inner@[1], source);
    lemma_names(p.inner@[0].inner@, p.inner@[0].inner@.len());
    lemma_nodes(p.inner@[1].inner@, sid, source, p.inner@[1].inner@.len());
}

proof fn lemma_call_node(p: Pair, sid: usize, source: Seq<u8>)
    requires
        p.within(source),
        node_of(p, sid) is Ok,
        p.rule == Rule::FnCall,
    ensures
        sound(node_of(p, sid)->Ok_0, source, sid),
    decreases p, 0nat,
{
    lemma_inner(p, source);
    let n = p.inner@.len();
    assert(n >= 1);
    let f = node_of(p.inner@[0], sid);
    assert(f is Ok);
    lemma_node(p.inner@[0], sid, source);
    if n == 2 && crate::blueprint::inner_rule(p.inner@[1]) == Rule::Skip && p.inner@[1].inner@.len()
        > 0 {
        assert(node_of(p, sid)->Ok_0 == (AstView::Call {
            f: Box::new(f->Ok_0),
            args: Seq::empty(),
            start: p.start as int,
            source_id: sid as int,
        }));
        assert(all_sound(Seq::<AstView>::empty(), source, sid));
    } else {
        let args = args_of(p.inner@, sid, 1, n);
        assert(args is Ok);
        lemma_args(p.inner@, sid, source, 1, n);
        assert(node_of(p, sid)->Ok_0 == (AstView::Call {
            f: Box::new(f->Ok_0),
            args: args->Ok_0,
            start: p.start as int,
            source_id: sid as int,
        }));
    }
}

proof fn lemma_block_node(p: Pair, sid: usize, source: Seq<u8>)
    requires
        p.within(source),
        node_of(p, sid) is Ok,
        p.rule == Rule::IfExp || p.rule == Rule::WhileExp,
    ensures
        sound(node_of(p, sid)->Ok_0, source, sid),
    decreases p, 0nat,
{
    lemma_inner(p, source);
    lemma_node(p.inner@[0], sid, source);
    lemma_inner(p.inner@[1], source);
    lemma_kept(p.inner@[1].inner@, 0);
    lemma_nodes(p.inner@[1].inner@, sid, source, kept(p.inner@[1].inner@, 0) as nat);
}

proof fn lemma_attempt_node(p: Pair, sid: usize, source: Seq<u8>)
    requires
        p.within(source),
        node_of(p, sid) is Ok,
        p.rule == Rule::TryExp,
    ensures
        sound(node_of(p, sid)->Ok_0, source, sid),
    decreases p, 0nat,
{
    lemma_inner(p, source);
    lemma_inner(p.inner@[0], source);
    lemma_inner(p.inner@[2], source);
    lemma_nodes(p.inner@[0].inner@, sid, source, p.inner@[0].inner@.len());
    lemma_nodes(p.inner@[2].inner@, sid, source, p.inner@[2].inner@.len());
}

proof fn lemma_leave_node(p: Pair, sid: usize, source: Seq<u8>)
    requires
        p.within(source),
        node_of(p, sid) is Ok,
        p.rule == Rule::ReturnExp || p.rule == Rule::RaiseExp,
    ensures
        sound(node_of(p, sid)->Ok_0, source, sid),
    decreases p, 0nat,
{
    lemma_inner(p, source);
    lemma_node(p.inner@[0], sid, source);
}

proof fn lemma_dataframe_node(p: Pair, sid: usize, source: Seq<u8>)
    requires
        p.within(source),
        node_of(p, sid) is Ok,
        p.rule == Rule::Dataframe,
    ensures
        sound(node_of(p, sid)->Ok_0, source, sid),
    decreases p, 0nat,
{
    lemma_inner(p, source);
    lemma_columns(p.inner@, sid, source, p, p.inner@.len());
}

proof fn lemma_matrix_node(p: Pair, sid: usize, source: Seq<u8>)
    requires
        p.within(source),
        node_of(p, sid) is Ok,
        p.rule == Rule::Matrix,
    ensures
        sound(node_of(p, sid)->Ok_0, source, sid),
    decreases p, 0nat,
{
    lemma_inner(p, source);
    lemma_rows(p.inner@, sid, source, p.inner@.len());
}

proof fn lemma_query_node(p: Pair, sid: usize, source: Seq<u8>)
    requires
        p.within(source),
        node_of(p, sid) is Ok,
        p.rule == Rule::SqlExp,
    ensures
        sound(node_of(p, sid)->Ok_0, source, sid),
    decreases p, 0nat,
{
    lemma_inner(p, source);
    lemma_clauses(p.inner@, sid, source, p.inner@.len());
}

proof fn lemma_list_node(p: Pair, sid: usize, source: Seq<u8>)
    requires
        p.within(source),
        node_of(p, sid) is Ok,
        p.rule == Rule::List,
    ensures
        sound(node_of(p, sid)->Ok_0, source, sid),
    decreases p, 0nat,
{
    lemma_inner(p, source);
    let n = p.inner@.len();
    if n > 0 && !(crate::blueprint::same_rules(p.inner@) && crate::blueprint::scalar_rule(
        crate::blueprint::inner_rule(p.inner@[0]),
    )) {
        lemma_items(p.inner@, sid, source, n);
    }
}

proof fn lemma_dict_node(p: Pair, sid: usize, source: Seq<u8>)
    requires
        p.within(source),
        node_of(p, sid) is Ok,
        p.rule == Rule::Dict,
    ensures
        sound(node_of(p, sid)->Ok_0, source, sid),
    decreases p, 0nat,
{
    lemma_inner(p, source);
    lemma_entries(p.inner@, sid, source, p.inner@.len());
}

proof fn lemma_kept(ps: Seq<Pair>, from: int)
    requires
        0 <= from,
    ensures
        from <= kept(ps, from) <= ps.len() || from > ps.len(),
    decreases ps.len() - from,
{
    if from < ps.len() && ps[from].rule != Rule::ReturnExp {
        lemma_kept(ps, from + 1);
    }
}

proof fn lemma_nodes(ps: Seq<Pair>, sid: usize, source: Seq<u8>, n: nat)
    requires
        lie_in(ps, source, n),
        nodes_of(ps, sid, n) is Ok,
    ensures
        all_sound(nodes_of(ps, sid, n)->Ok_0, source, sid),
    decreases ps, n,
{
    if n > 0 && n <= ps.len() {
        lemma_nodes(ps, sid, source, (n - 1) as nat);
        lemma_node(ps[n - 1], sid, source);
        lemma_push(
            nodes_of(ps, sid, (n - 1) as nat)->Ok_0,
            node_of(ps[n - 1], sid)->Ok_0,
            source,
            sid,
        );
    }
}

proof fn lemma_args(ps: Seq<Pair>, sid: usize, source: Seq<u8>, from: nat, n: nat)
    requires
        lie_in(ps, source, n),
        args_of(ps, sid, from, n) is Ok,
    ensures
        all_sound(args_of(ps, sid, from, n)->Ok_0, source, sid),
    decreases ps, n,
{
    if n > from && n <= ps.len() {
        lemma_args(ps, sid, source, from, (n - 1) as nat);
        lemma_inner(ps[n - 1], source);
        lemma_node(ps[n - 1].inner@[0], sid, source);
        lemma_push(
            args_of(ps, sid, from, (n - 1) as nat)->Ok_0,
            node_of(ps[n - 1].inner@[0], sid)->Ok_0,
            source,
            sid,
        );
    }
}

proof fn lemma_items(ps: Seq<Pair>, sid: usize, source: Seq<u8>, n: nat)
    requires
        lie_in(ps, source, n),
        items_of(ps, sid, n) is Ok,
    ensures
        all_sound(items_of(ps, sid, n)->Ok_0, source, sid),
    decreases ps, n,
{
    if n > 0 && n <= ps.len() {
        lemma_items(ps, sid, source, (n - 1) as nat);
        lemma_inner(ps[n - 1], source);
        if ps[n - 1].rule != Rule::BinaryOp {
            lemma_node(ps[n - 1], sid, source);
        }
        lemma_push(
            items_of(ps, sid, (n - 1) as nat)->Ok_0,
            item_of(ps[n - 1], sid)->Ok_0,
            source,
            sid,
        );
    }
}

proof fn lemma_columns(ps: Seq<Pair>, sid: usize, source: Seq<u8>, frame: Pair, n: nat)
    requires
        lie_in(ps, source, n),
        columns_of(ps, sid, frame, n) is Ok,
    ensures
        all_sound(columns_of(ps, sid, frame, n)->Ok_0, source, sid),
    decreases ps, n,
{
    if n > 0 && n <= ps.len() {
        lemma_columns(ps, sid, source, frame, (n - 1) as nat);
        let col = ps[n - 1];
        lemma_inner(col, source);
        let node = col.inner@[0];
        lemma_inner(node, source);
        if node.rule == Rule::RenameSeriesExp {
            lemma_node(node.inner@[1], sid, source);
        } else {
            lemma_node(node, sid, source);
        }
        lemma_push(
            columns_of(ps, sid, frame, (n - 1) as nat)->Ok_0,
            column_of(col, (n - 1) as nat, sid, frame)->Ok_0,
            source,
            sid,
        );
    }
}

proof fn lemma_rows(ps: Seq<Pair>, sid: usize, source: Seq<u8>, n: nat)
    requires
        lie_in(ps, source, n),
        rows_of(ps, sid, n) is Ok,
    ensures
        all_sound(rows_of(ps, sid, n)->Ok_0, source, sid),
    decreases ps, n,
{
    if n > 0 && n <= ps.len() {
        lemma_rows(ps, sid, source, (n - 1) as nat);
        let row = ps[n - 1];
        lemma_inner(row, source);
        lemma_node(row.inner@[0], sid, source);
        lemma_push(
            rows_of(ps, sid, (n - 1) as nat)->Ok_0,
            row_of(row, (n - 1) as nat, sid)->Ok_0,
            source,
            sid,
        );
    }
}

proof fn lemma_entries(ps: Seq<Pair>, sid: usize, source: Seq<u8>, n: nat)
    requires
        lie_in(ps, source, n),
        entries_of(ps, sid, n) is Ok,
    ensures
        all_sound(entries_of(ps, sid, n)->Ok_0.values, source, sid),
    decreases ps, n,
{
    if n > 0 && n <= ps.len() {
        lemma_entries(ps, sid, source, (n - 1) as nat);
        let kv = ps[n - 1];
        lemma_inner(kv, source);
        lemma_node(kv.inner@[1], sid, source);
        lemma_push(
            entries_of(ps, sid, (n - 1) as nat)->Ok_0.values,
            node_of(kv.inner@[1], sid)->Ok_0,
            source,
            sid,
        );
    }
}

proof fn lemma_sql_col(p: Pair, sid: usize, source: Seq<u8>)
    requires
        p.within(source),
        sql_col_of(p, sid) is Ok,
    ensures
        sound(sql_col_of(p, sid)->Ok_0, source, sid),
    decreases p, 2nat,
{
    lemma_inner(p, source);
    match p.rule {
        Rule::SeriesExp => {
            lemma_sql_col(p.inner@[0], sid, source);
        },
        Rule::RenameSeriesExp => {
            lemma_node(p.inner@[1], sid, source);
        },
        Rule::SeriesName => {},
        _ => {
            lemma_node(p, sid, source);
        },
    }
}

proof fn lemma_sql_cols(ps: Seq<Pair>, sid: usize, source: Seq<u8>, n: nat)
    requires
        lie_in(ps, source, n),
        sql_cols_of(ps, sid, n) is Ok,
    ensures
        all_sound(sql_cols_of(ps, sid, n)->Ok_0, source, sid),
    decreases ps, n,
{
    if n > 0 && n <= ps.len() {
        lemma_sql_cols(ps, sid, source, (n - 1) as nat);
        lemma_sql_col(ps[n - 1], sid, source);
        lemma_push(
            sql_cols_of(ps, sid, (n - 1) as nat)->Ok_0,
            sql_col_of(ps[n - 1], sid)->Ok_0,
            source,
            sid,
        );
    }
}

/// Whether the clauses of a query are sound.
pub open spec fn sound_clauses(q: SqlParts, source: Seq<u8>, sid: usize) -> bool {
    &&& all_sound(q.ops, source, sid)
    &&& all_sound(q.groups, source, sid)
    &&& sound(q.from, source, sid)
    &&& all_sound(q.filters, source, sid)
    &&& all_sound(q.sorts, source, sid)
    &&& sound(q.take, source, sid)
}

proof fn lemma_concat(a: Seq<AstView>, b: Seq<AstView>, source: Seq<u8>, sid: usize)
    requires
        all_sound(a, source, sid),
        all_sound(b, source, sid),
    ensures
        all_sound(a + b, source, sid),
{
    assert forall|i: int| 0 <= i < (a + b).len() implies sound(#[trigger] (a + b)[i], source, sid) by {
        if i < a.len() {
            assert((a + b)[i] == a[i]);
        } else {
            assert((a + b)[i] == b[i - a.len()]);
        }
    }
}

proof fn lemma_clause(q: SqlParts, c: Pair, sid: usize, source: Seq<u8>)
    requires
        c.within(source),
        sound_clauses(q, source, sid),
        clause_of(q, c, sid) is Ok,
    ensures
        sound_clauses(clause_of(q, c, sid)->Ok_0, source, sid),
    decreases c, 0nat,
{
    lemma_inner(c, source);
    match c.rule {
        Rule::SelectOp | Rule::UpdateOp | Rule::DeleteOp => {
            lemma_sql_cols(c.inner@, sid, source, c.inner@.len());
            lemma_concat(
                q.ops,
                sql_cols_of(c.inner@, sid, c.inner@.len())->Ok_0,
                source,
                sid,
            );
        },
        Rule::GroupExp => {
            lemma_sql_cols(c.inner@, sid, source, c.inner@.len());
        },
        Rule::FromExp | Rule::TakeOp => {
            lemma_node(c.inner@[0], sid, source);
        },
        Rule::FilterExp => {
            lemma_nodes(c.inner@, sid, source, c.inner@.len());
        },
        Rule::SortOp => {
            lemma_ids(c.inner@, sid, source, c.inner@.len());
        },
        _ => {},
    }
}

proof fn lemma_clauses(ps: Seq<Pair>, sid: usize, source: Seq<u8>, n: nat)
    requires
        lie_in(ps, source, n),
        clauses_of(ps, sid, n) is Ok,
    ensures
        sound_clauses(clauses_of(ps, sid, n)->Ok_0, source, sid),
    decreases ps, n,
{
    if n > 0 && n <= ps.len() {
        lemma_clauses(ps, sid, source, (n - 1) as nat);
        lemma_clause(clauses_of(ps, sid, (n - 1) as nat)->Ok_0, ps[n - 1], sid, source);
    }
}

/// Every position in the syntax tree of a program lies in its source, and no
/// identifier in it is a reserved word: where the nodes of the parse tree lie
/// in the source, each node of the syntax tree that the builder makes of them
/// is sound.
pub proof fn lemma_program(ps: Seq<Pair>, sid: usize, source: Seq<u8>, n: nat)
    requires
        lie_in(ps, source, n),
        program_of(ps, sid, n) is Ok,
    ensures
        all_sound(program_of(ps, sid, n)->Ok_0, source, sid),
    decreases n,
{
    if n > 0 && n <= ps.len() {
        lemma_program(ps, sid, source, (n - 1) as nat);
        if ps[n - 1].rule == Rule::Exp {
            lemma_node(ps[n - 1], sid, source);
            lemma_push(
                program_of(ps, sid, (n - 1) as nat)->Ok_0,
                node_of(ps[n - 1], sid)->Ok_0,
                source,
                sid,
            );
        }
    }
}

/// A reserved word that stands for an identifier is refused as one, whatever
/// stands around it.
pub proof fn lemma_reserved_word_refused(p: Pair, sid: usize)
    requires
        p.rule == Rule::Id || p.rule == Rule::GlobalId || p.rule == Rule::BinaryOp,
        reserved(p.text@),
    ensures
        node_of(p, sid) == Err::<AstView, crate::errors::ErrView>(reserved_word(p)),
        reserved_word(p).kind == ErrorKind::ReservedKeyword,
        reserved_word(p).start == p.start,
        reserved_word(p).end == p.end,
{
}

/// A reserved word that is assigned to is refused, once the value that it is
/// to take has been read.
pub proof fn lemma_reserved_target_refused(p: Pair, sid: usize)
    requires
        p.rule == Rule::AssignmentExp,
        p.inner@.len() >= 2,
        p.inner@[0].rule == Rule::Id,
        reserved(p.inner@[0].text@),
        node_of(p.inner@[1], sid) is Ok,
    ensures
        node_of(p, sid) == Err::<AstView, crate::errors::ErrView>(reserved_word(p.inner@[0])),
{
}

/// A reserved word that stands for an operator is refused, with or without
/// the byte that marks it.
pub proof fn lemma_reserved_operator_refused(p: Pair, sid: usize)
    requires
        (p.rule == Rule::BinaryOp && reserved(p.text@)) || (p.rule == Rule::BinaryId
            && crate::text::cut(p.text@, 1, 0) is Some && reserved(
            crate::text::cut(p.text@, 1, 0)->0,
        )),
    ensures
        binary_op_of(p, sid) == Err::<AstView, crate::errors::ErrView>(reserved_word(p)),
{
}

/// The text that a function keeps is the text of its literal: where the node
/// of a function literal lies in the source and the builder takes it, the
/// function's text is the bytes of the source over the literal's span, its
/// position is where the literal begins, and its statements are those of the
/// nodes in its curly brackets.
pub proof fn lemma_function_keeps_its_text(p: Pair, sid: usize, source: Seq<u8>)
    requires
        p.rule == Rule::Fn,
        p.within(source),
        node_of(p, sid) is Ok,
    ensures
        node_of(p, sid)->Ok_0 matches AstView::Fn { stmts, arg_names, fn_body, start, source_id }
            && crate::text::utf8(fn_body) == source.subrange(p.start as int, p.end as int)
            && start == p.start && source_id == sid && p.inner@.len() >= 2 && Ok::<
            Seq<AstView>,
            crate::errors::ErrView,
        >(stmts) == nodes_of(p.inner@[1].inner@, sid, p.inner@[1].inner@.len()),
{
}

} // verus!
