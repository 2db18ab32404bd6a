//! The recognizer: it reads source text by the grammar and makes the parse
//! tree.
use crate::errors::raise_error;
use crate::errors::ErrorKind;
use crate::errors::ParseError;
use crate::lexer::at;
use crate::lexer::binary_id_end;
use crate::lexer::byte;
use crate::lexer::found;
use crate::lexer::keyword;
use crate::lexer::leaf;
use crate::lexer::lemma_trees_push;
use crate::lexer::len;
use crate::lexer::node;
use crate::lexer::operator_end;
use crate::lexer::quoted_end;
use crate::lexer::scalar_token;
use crate::lexer::size;
use crate::lexer::skip_blank;
use crate::lexer::symbol_end;
use crate::lexer::tree_of;
use crate::lexer::trees_of;
use crate::lexer::word;
use crate::lexer::Tree;
use crate::pair::Pair;
use crate::pair::Rule;
use crate::syntax::after;
use crate::syntax::args_from;
use crate::syntax::assigned_at;
use crate::syntax::attempt_at;
use crate::syntax::block_at;
use crate::syntax::braces_at;
use crate::syntax::bracket_at;
use crate::syntax::built_at;
use crate::syntax::call_at;
use crate::syntax::caught_at;
use crate::syntax::closed_at;
use crate::syntax::column_at;
use crate::syntax::column_clause_at;
use crate::syntax::columns_from;
use crate::syntax::control_at;
use crate::syntax::dataframe_at;
use crate::syntax::dict_at;
use crate::syntax::entries_from;
use crate::syntax::exp_at;
use crate::syntax::expect_at;
use crate::syntax::extended_at;
use crate::syntax::far_of;
use crate::syntax::function_at;
use crate::syntax::group_at;
use crate::syntax::hit_of;
use crate::syntax::is_clause_word;
use crate::syntax::items_from;
use crate::syntax::key_at;
use crate::syntax::list_at;
use crate::syntax::matrix_at;
use crate::syntax::name_at;
use crate::syntax::name_clause_at;
use crate::syntax::names_from;
use crate::syntax::operand_at;
use crate::syntax::operand_clause_at;
use crate::syntax::operands_from;
use crate::syntax::operation_at;
use crate::syntax::params_from;
use crate::syntax::program_from;
use crate::syntax::program_of;
use crate::syntax::query_at;
use crate::syntax::renamed_at;
use crate::syntax::rows_from;
use crate::syntax::semis_to;
use crate::syntax::series_at;
use crate::syntax::sign_at;
use crate::syntax::statement_at;
use crate::syntax::statement_start;
use crate::syntax::statements_at;
use crate::syntax::statements_from;
use crate::syntax::symbols_at;
use crate::syntax::symbols_from;
use crate::syntax::term_at;
use crate::syntax::value_at;
use crate::syntax::values_from;
use crate::syntax::word_at;
use crate::syntax::wrap;
use crate::syntax::Columns;
use crate::syntax::Hit;
use crate::syntax::Out;
use crate::syntax::Program;
use crate::text::utf8;
use vstd::prelude::*;
use vstd::string::StringExecFns;

verus! {

/// The grammar of the language.
pub struct JParser;

/// A match of a rule: its node, and the position behind it.
pub struct Parsed {
    pub pair: Pair,
    pub next: usize,
}

/// Whether nodes lie in the source, and in the span from `start` to `end`.
pub open spec fn nested(kids: Seq<Pair>, source: Seq<u8>, start: usize, end: usize) -> bool {
    forall|i: int|
        0 <= i < kids.len() ==> (#[trigger] kids[i]).within(source) && start <= kids[i].start
            && kids[i].end <= end
}

/// What every rule promises of a match at `pos`: its node lies in the source
/// and spans the bytes from `pos` up to the position behind the match.
pub open spec fn placed(r: Option<Parsed>, text: Seq<char>, pos: usize) -> bool {
    match r {
        Some(p) => p.pair.within(utf8(text)) && p.pair.start == pos && p.pair.end == p.next && pos
            <= p.next <= utf8(text).len(),
        None => true,
    }
}

/// Whether a match took at least one byte.
pub open spec fn moved(r: Option<Parsed>, pos: usize) -> bool {
    r matches Some(p) ==> p.next > pos
}

/// Whether a match that was made is the one that the grammar gives.
pub open spec fn hits(r: Option<Parsed>, h: Option<Hit>) -> bool {
    match h {
        Some(x) => r is Some && tree_of(r->0.pair) == x.tree && r->0.next == x.next,
        None => r is None,
    }
}

/// Whether a match that was made, and the furthest miss that was noted, are
/// what the grammar gives.
pub open spec fn agrees(r: Option<Parsed>, far: usize, o: Out) -> bool {
    far == o.far && hits(r, o.hit)
}

/// The trees of nodes.
pub open spec fn trees(kids: Seq<Pair>) -> Seq<Tree> {
    trees_of(kids, kids.len())
}

/// Notes that no rule matched at `pos`.
fn miss(far: &mut usize, pos: usize)
    ensures
        *final(far) == far_of(*old(far) as int, pos as int),
{
    if pos > *far {
        *far = pos;
    }
}

fn one(a: Pair) -> (r: Vec<Pair>)
    ensures
        r@ == seq![a],
        trees(r@) == seq![tree_of(a)],
{
    let mut kids: Vec<Pair> = Vec::new();
    proof {
        lemma_trees_push(kids@, a);
    }
    kids.push(a);
    proof {
        assert(kids@ =~= seq![a]);
        assert(trees(kids@) =~= seq![tree_of(a)]);
    }
    kids
}

fn two(a: Pair, b: Pair) -> (r: Vec<Pair>)
    ensures
        r@ == seq![a, b],
        trees(r@) == seq![tree_of(a), tree_of(b)],
{
    let mut kids = one(a);
    proof {
        lemma_trees_push(kids@, b);
    }
    kids.push(b);
    proof {
        assert(kids@ =~= seq![a, b]);
        assert(trees(kids@) =~= seq![tree_of(a), tree_of(b)]);
    }
    kids
}

fn three(a: Pair, b: Pair, c: Pair) -> (r: Vec<Pair>)
    ensures
        r@ == seq![a, b, c],
        trees(r@) == seq![tree_of(a), tree_of(b), tree_of(c)],
{
    let mut kids = two(a, b);
    proof {
        lemma_trees_push(kids@, c);
    }
    kids.push(c);
    proof {
        assert(kids@ =~= seq![a, b, c]);
        assert(trees(kids@) =~= seq![tree_of(a), tree_of(b), tree_of(c)]);
    }
    kids
}

/// Adds a node to nodes that lie side by side.
fn append(kids: &mut Vec<Pair>, kid: Pair)
    ensures
        final(kids)@ == old(kids)@.push(kid),
        trees(final(kids)@) == trees(old(kids)@).push(tree_of(kid)),
{
    proof {
        lemma_trees_push(kids@, kid);
    }
    kids.push(kid);
}

/// The match of `rule` over the bytes from `start` to `end`, with `kids`
/// inside it.
fn built(text: &str, rule: Rule, start: usize, end: usize, kids: Vec<Pair>) -> (r: Option<Parsed>)
    requires
        nested(kids@, utf8(text@), start, end),
    ensures
        placed(r, text@, start),
        r matches Some(p) ==> p.next == end && p.pair.rule == rule,
        hits(r, hit_of(text@, rule, start as int, end as int, trees(kids@))),
{
    match node(text, rule, start, end, kids) {
        Some(pair) => Some(Parsed { pair, next: end }),
        None => None,
    }
}

/// The match of `rule` over the bytes from `start` to `end`, with the nodes
/// `a` and `b` inside it.
fn paired(text: &str, rule: Rule, start: usize, end: usize, a: Pair, b: Pair) -> (r: Option<Parsed>)
    requires
        a.within(utf8(text@)),
        b.within(utf8(text@)),
        start <= a.start,
        a.end <= end,
        start <= b.start,
        b.end <= end,
    ensures
        placed(r, text@, start),
        r matches Some(p) ==> p.next == end && p.pair.rule == rule,
        hits(r, hit_of(text@, rule, start as int, end as int, seq![tree_of(a), tree_of(b)])),
{
    let kids = two(a, b);
    proof {
        assert forall|i: int| 0 <= i < kids@.len() implies (#[trigger] kids@[i]).within(utf8(text@))
            && start <= kids@[i].start && kids@[i].end <= end by {
            if i == 0 {
                assert(kids@[i] == a);
            } else {
                assert(kids@[i] == b);
            }
        }
    }
    built(text, rule, start, end, kids)
}

/// The match of `rule` that holds one match and spans what it spans.
fn wrapped(text: &str, rule: Rule, inner: Parsed, Ghost(pos): Ghost<usize>) -> (r: Option<Parsed>)
    requires
        placed(Some(inner), text@, pos),
    ensures
        placed(r, text@, pos),
        r matches Some(p) ==> p.next == inner.next && p.pair.rule == rule,
        hits(r, wrap(text@, rule, Hit { tree: tree_of(inner.pair), next: inner.next as int })),
{
    let start = inner.pair.start;
    let end = inner.next;
    built(text, rule, start, end, one(inner.pair))
}

/// The match of `rule` that holds the match `inner`, where there is one.
fn wrapping(text: &str, rule: Rule, inner: Option<Parsed>, Ghost(pos): Ghost<usize>) -> (r: Option<
    Parsed,
>)
    requires
        placed(inner, text@, pos),
    ensures
        placed(r, text@, pos),
        inner is None ==> r is None,
        inner matches Some(i) ==> hits(
            r,
            wrap(text@, rule, Hit { tree: tree_of(i.pair), next: i.next as int }),
        ) && (r matches Some(p) ==> p.next == i.next),
{
    match inner {
        Some(i) => wrapped(text, rule, i, Ghost(pos)),
        None => None,
    }
}

/// The match of a token of `rule` from `pos` to `end`.
fn token(text: &str, rule: Rule, pos: usize, end: usize) -> (r: Option<Parsed>)
    ensures
        placed(r, text@, pos),
        r matches Some(p) ==> p.next == end && p.pair.rule == rule,
        hits(r, hit_of(text@, rule, pos as int, end as int, Seq::empty())),
{
    built(text, rule, pos, end, Vec::new())
}

/// The position behind the byte `b` where it stands at `pos` behind blanks.
fn expect(text: &str, pos: usize, b: u8, far: &mut usize) -> (r: Option<usize>)
    requires
        pos <= utf8(text@).len(),
        *old(far) <= utf8(text@).len(),
        b != 0,
    ensures
        r matches Some(end) ==> pos < end <= utf8(text@).len(),
        *final(far) <= utf8(text@).len(),
        found(r, expect_at(text@, pos as int, b, *old(far) as int).at),
        *final(far) == expect_at(text@, pos as int, b, *old(far) as int).far,
{
    let p = skip_blank(text, pos);
    if at(text, p) == b {
        Some(p + 1)
    } else {
        miss(far, p);
        None
    }
}

/// Whether the word from `pos` to `end` is one that begins or parts the
/// clauses of a query, and so names no column.
fn clause_word(text: &str, pos: usize, end: usize) -> (r: bool)
    requires
        pos <= end <= utf8(text@).len(),
    ensures
        r == is_clause_word(text@, pos as int, end as int),
{
    keyword(text, pos, "select") == Some(end) || keyword(text, pos, "update") == Some(end)
        || keyword(text, pos, "delete") == Some(end) || keyword(text, pos, "by") == Some(end)
        || keyword(text, pos, "dyn") == Some(end) || keyword(text, pos, "rolling") == Some(end)
        || keyword(text, pos, "from") == Some(end) || keyword(text, pos, "where") == Some(end)
        || keyword(text, pos, "sort") == Some(end) || keyword(text, pos, "take") == Some(end)
}

/// The position behind one value of a series literal, and whether a suffix
/// names its type.
fn series_scalar(text: &str, pos: usize) -> (r: Option<(usize, bool)>)
    requires
        pos <= utf8(text@).len(),
    ensures
        match value_at(text@, pos as int) {
            Some(v) => r matches Some((end, suffixed)) && end == v.end && suffixed == v.suffixed,
            None => r is None,
        },
        match r {
            Some((end, _)) => pos < end <= utf8(text@).len(),
            None => true,
        },
{
    if let Some(t) = scalar_token(text, pos) {
        return Some((t.end, t.suffixed));
    }
    if let Some(end) = quoted_end(text, pos, 39) {
        return Some((end, false));
    }
    if let Some(end) = quoted_end(text, pos, 34) {
        return Some((end, false));
    }
    if let Some(end) = symbol_end(text, pos) {
        if at(text, end) != 96 {
            return Some((end, false));
        }
    }
    None
}

/// A series literal: two or more values with blanks between them, or one
/// number whose suffix names its type.
fn series(text: &str, pos: usize) -> (r: Option<Parsed>)
    requires
        pos <= utf8(text@).len(),
    ensures
        placed(r, text@, pos),
        moved(r, pos),
        hits(r, series_at(text@, pos as int)),
{
    let (first_end, suffixed) = match series_scalar(text, pos) {
        Some(v) => v,
        None => {
            return None;
        },
    };
    let first = match leaf(text, Rule::Scalar, pos, first_end) {
        Some(p) => p,
        None => {
            return None;
        },
    };
    let ghost start_kids = seq![tree_of(first)];
    let mut kids = one(first);
    let mut end = first_end;
    loop
        invariant
            pos < end <= utf8(text@).len(),
            kids@.len() >= 1,
            nested(kids@, utf8(text@), pos, end),
            values_from(text@, start_kids, first_end as int) == values_from(
                text@,
                trees(kids@),
                end as int,
            ),
        ensures
            pos < end <= utf8(text@).len(),
            kids@.len() >= 1,
            nested(kids@, utf8(text@), pos, end),
            values_from(text@, start_kids, first_end as int).kids == trees(kids@),
            values_from(text@, start_kids, first_end as int).end == end,
        decreases utf8(text@).len() - end,
    {
        let p = skip_blank(text, end);
        if p == end {
            break ;
        }
        match series_scalar(text, p) {
            Some((e, _)) => {
                match leaf(text, Rule::Scalar, p, e) {
                    Some(kid) => {
                        append(&mut kids, kid);
                        end = e;
                    },
                    None => {
                        break ;
                    },
                }
            },
            None => {
                break ;
            },
        }
    }
    proof {
        assert(trees(kids@).len() == kids@.len()) by {
            lemma_trees_len(kids@, kids@.len());
        }
    }
    if kids.len() >= 2 || suffixed {
        built(text, Rule::Series, pos, end, kids)
    } else {
        None
    }
}

/// Nodes have as many trees as they are.
pub proof fn lemma_trees_len(ps: Seq<Pair>, n: nat)
    requires
        n <= ps.len(),
    ensures
        trees_of(ps, n).len() == n,
    decreases n,
{
    if n > 0 {
        lemma_trees_len(ps, (n - 1) as nat);
    }
}

/// A symbol, or a run of symbols that stand side by side.
fn symbols(text: &str, pos: usize) -> (r: Option<Parsed>)
    requires
        pos <= utf8(text@).len(),
    ensures
        placed(r, text@, pos),
        moved(r, pos),
        hits(r, symbols_at(text@, pos as int)),
{
    let first = match symbol_end(text, pos) {
        Some(e) => e,
        None => {
            return None;
        },
    };
    let mut end = first;
    let mut many = false;
    loop
        invariant
            pos < end <= utf8(text@).len(),
            symbols_from(text@, first as int, false) == symbols_from(text@, end as int, many),
        ensures
            pos < end <= utf8(text@).len(),
            symbols_from(text@, first as int, false).end == end,
            symbols_from(text@, first as int, false).many == many,
        decreases utf8(text@).len() - end,
    {
        match symbol_end(text, end) {
            Some(e) => {
                end = e;
                many = true;
            },
            None => {
                break ;
            },
        }
    }
    if many {
        token(text, Rule::Cats, pos, end)
    } else {
        token(text, Rule::Cat, pos, end)
    }
}

/// The names of a function literal, with commas between them.
fn params(text: &str, pos: usize) -> (r: Option<Parsed>)
    requires
        pos <= utf8(text@).len(),
    ensures
        placed(r, text@, pos),
        hits(r, params_from(text@, pos as int, Seq::empty(), pos as int, pos as int)),
{
    let mut kids: Vec<Pair> = Vec::new();
    let mut end = pos;
    let mut p = pos;
    loop
        invariant_except_break
            end <= p,
            params_from(text@, pos as int, Seq::empty(), pos as int, pos as int) == params_from(
                text@,
                pos as int,
                trees(kids@),
                end as int,
                p as int,
            ),
        invariant
            pos <= end <= utf8(text@).len(),
            pos <= p <= utf8(text@).len(),
            nested(kids@, utf8(text@), pos, end),
        ensures
            pos <= end <= utf8(text@).len(),
            nested(kids@, utf8(text@), pos, end),
            params_from(text@, pos as int, Seq::empty(), pos as int, pos as int) == hit_of(
                text@,
                Rule::Params,
                pos as int,
                end as int,
                trees(kids@),
            ),
        decreases utf8(text@).len() - p,
    {
        let e = word(text, p);
        if e <= p {
            break ;
        }
        match leaf(text, Rule::Id, p, e) {
            Some(kid) => {
                append(&mut kids, kid);
                end = e;
            },
            None => {
                return None;
            },
        }
        let q = skip_blank(text, e);
        if at(text, q) != 44 {
            break ;
        }
        p = skip_blank(text, q + 1);
    }
    built(text, Rule::Params, pos, end, kids)
}

/// The position behind the semicolons, and the blanks behind each, from `p`
/// on.
fn semis(text: &str, p: usize) -> (r: usize)
    requires
        p <= utf8(text@).len(),
    ensures
        r == semis_to(text@, p as int),
        p <= r <= utf8(text@).len(),
{
    let n = len(text);
    let mut i = p;
    while i < n && at(text, i) == 59
        invariant
            p <= i <= n,
            n == utf8(text@).len(),
            semis_to(text@, p as int) == semis_to(text@, i as int),
        decreases n - i,
    {
        i = skip_blank(text, i + 1);
    }
    i
}

/// The position at which the next statement behind `end` begins.
fn next_statement(text: &str, end: usize) -> (r: usize)
    requires
        end <= utf8(text@).len(),
    ensures
        r == statement_start(text@, end as int),
        end <= r <= utf8(text@).len(),
{
    semis(text, skip_blank(text, end))
}

/// A conditional, a loop or a guarded block.
fn control(text: &str, pos: usize, far: &mut usize) -> (r: Option<Parsed>)
    requires
        pos <= utf8(text@).len(),
        *old(far) <= utf8(text@).len(),
    ensures
        placed(r, text@, pos),
        moved(r, pos),
        *final(far) <= utf8(text@).len(),
        agrees(r, *final(far), control_at(text@, pos as int, *old(far) as int)),
    decreases utf8(text@).len() - pos, 5nat,
{
    if let Some(k) = keyword(text, pos, "if") {
        if let Some(b) = block(text, pos, k, Rule::IfExp, far) {
            return Some(b);
        }
    }
    if let Some(k) = keyword(text, pos, "while") {
        if let Some(b) = block(text, pos, k, Rule::WhileExp, far) {
            return Some(b);
        }
    }
    match keyword(text, pos, "try") {
        Some(k) => attempt(text, pos, k, far),
        None => None,
    }
}

/// An expression: a conditional, a loop, a guarded block, a query, an
/// assignment, or an operand; in a node of the rule `Exp`.
fn exp(text: &str, pos: usize, far: &mut usize) -> (r: Option<Parsed>)
    requires
        pos <= utf8(text@).len(),
        *old(far) <= utf8(text@).len(),
    ensures
        placed(r, text@, pos),
        moved(r, pos),
        *final(far) <= utf8(text@).len(),
        agrees(r, *final(far), exp_at(text@, pos as int, *old(far) as int)),
    decreases utf8(text@).len() - pos, 11nat,
{
    if let Some(c) = control(text, pos, far) {
        return wrapped(text, Rule::Exp, c, Ghost(pos));
    }
    if let Some(q) = query(text, pos, far) {
        return wrapped(text, Rule::Exp, q, Ghost(pos));
    }
    match term(text, pos, false, far) {
        Some(t) => assigned(text, pos, t, far),
        None => None,
    }
}

/// The expression that begins with the term `t`: an assignment where the term
/// is a name or a call and `=` follows, else the operand that begins with the
/// term.
fn assigned(text: &str, pos: usize, t: Parsed, far: &mut usize) -> (r: Option<Parsed>)
    requires
        placed(Some(t), text@, pos),
        moved(Some(t), pos),
        *old(far) <= utf8(text@).len(),
    ensures
        placed(r, text@, pos),
        moved(r, pos),
        *final(far) <= utf8(text@).len(),
        agrees(
            r,
            *final(far),
            assigned_at(
                text@,
                pos as int,
                Hit { tree: tree_of(t.pair), next: t.next as int },
                *old(far) as int,
            ),
        ),
    decreases utf8(text@).len() - t.next, 8nat,
{
    let p = skip_blank(text, t.next);
    if (t.pair.rule == Rule::Id || t.pair.rule == Rule::FnCall) && at(text, p) == 61 && at(
        text,
        p + 1,
    ) != 61 {
        let q = skip_blank(text, p + 1);
        let value = match exp(text, q, far) {
            Some(v) => v,
            None => {
                return None;
            },
        };
        let end = value.next;
        match built(text, Rule::AssignmentExp, pos, end, two(t.pair, value.pair)) {
            Some(a) => wrapped(text, Rule::Exp, a, Ghost(pos)),
            None => None,
        }
    } else {
        let o = extended(text, t, false, far, Ghost(pos));
        wrapping(text, Rule::Exp, o, Ghost(pos))
    }
}

/// An operand: a term, an infix expression that begins with one, or a name
/// applied to an operand.
fn operand(text: &str, pos: usize, sql: bool, far: &mut usize) -> (r: Option<Parsed>)
    requires
        pos <= utf8(text@).len(),
        *old(far) <= utf8(text@).len(),
    ensures
        placed(r, text@, pos),
        moved(r, pos),
        *final(far) <= utf8(text@).len(),
        agrees(r, *final(far), operand_at(text@, pos as int, sql, *old(far) as int)),
    decreases utf8(text@).len() - pos, 6nat,
{
    match term(text, pos, sql, far) {
        Some(t) => {
            let ghost far1 = *far as int;
            let ghost h = Hit { tree: tree_of(t.pair), next: t.next as int };
            let r = extended(text, t, sql, far, Ghost(pos));
            assert(agrees(r, *far, extended_at(text@, h, sql, far1)));
            assert(placed(r, text@, pos));
            r
        },
        None => None,
    }
}

/// The operand that begins with the term `t`: the infix expression where an
/// operator and a right side follow, the prefix expression where `t` is a name
/// and an operand follows, else `t` itself.
fn extended(text: &str, t: Parsed, sql: bool, far: &mut usize, Ghost(pos): Ghost<usize>) -> (r: Option<
    Parsed,
>)
    requires
        placed(Some(t), text@, pos),
        moved(Some(t), pos),
        *old(far) <= utf8(text@).len(),
    ensures
        placed(r, text@, pos),
        moved(r, pos),
        *final(far) <= utf8(text@).len(),
        agrees(
            r,
            *final(far),
            extended_at(
                text@,
                Hit { tree: tree_of(t.pair), next: t.next as int },
                sql,
                *old(far) as int,
            ),
        ),
    decreases utf8(text@).len() - t.next, 7nat,
{
    let ghost far0 = *far as int;
    let ghost h = Hit { tree: tree_of(t.pair), next: t.next as int };
    let start = t.pair.start;
    let p = skip_blank(text, t.next);
    assert(p == after(text@, h.next));
    let sign = match binary_id_end(text, p) {
        Some(e) => Some((Rule::BinaryId, e)),
        None => match operator_end(text, p) {
            Some(e) => Some((Rule::BinaryOp, e)),
            None => None,
        },
    };
    assert(match sign_at(text@, p as int) {
        Some(s) => sign matches Some((rule, e)) && rule == s.rule && e == s.end,
        None => sign is None,
    });
    if let Some((rule, e)) = sign {
        let q = skip_blank(text, e);
        assert(q == after(text@, e as int));
        let right = if sql {
            operand(text, q, true, far)
        } else {
            exp(text, q, far)
        };
        if let Some(rhs) = right {
            let op = match token(text, rule, p, e) {
                Some(o) => o,
                None => {
                    return None;
                },
            };
            let end = rhs.next;
            return built(
                text,
                if sql {
                    Rule::BinarySqlExp
                } else {
                    Rule::BinaryExp
                },
                start,
                end,
                three(t.pair, op.pair, rhs.pair),
            );
        }
        return Some(t);
    }
    if t.pair.rule == Rule::Id {
        match operand(text, p, sql, far) {
            Some(o) => {
                let end = o.next;
                built(
                    text,
                    if sql {
                        Rule::UnarySqlExp
                    } else {
                        Rule::UnaryExp
                    },
                    start,
                    end,
                    two(t.pair, o.pair),
                )
            },
            None => Some(t),
        }
    } else {
        Some(t)
    }
}

/// A term: a function, a dataframe, a matrix, a list, a dictionary, an
/// expression in brackets, a series, a text, a symbol, a scalar, a call, or a
/// name.
fn term(text: &str, pos: usize, sql: bool, far: &mut usize) -> (r: Option<Parsed>)
    requires
        pos <= utf8(text@).len(),
        *old(far) <= utf8(text@).len(),
    ensures
        placed(r, text@, pos),
        moved(r, pos),
        *final(far) <= utf8(text@).len(),
        agrees(r, *final(far), term_at(text@, pos as int, sql, *old(far) as int)),
    decreases utf8(text@).len() - pos, 5nat,
{
    let b = at(text, pos);
    if let Some(k) = keyword(text, pos, "fn") {
        if let Some(f) = function(text, pos, k, far) {
            return Some(f);
        }
    }
    if let Some(k) = keyword(text, pos, "df") {
        let p = skip_blank(text, k);
        if at(text, p) == 91 {
            if let Some(d) = dataframe(text, pos, p + 1, far) {
                return Some(d);
            }
        }
    }
    if b == 91 {
        if at(text, pos + 1) == 91 {
            if let Some(m) = matrix(text, pos, far) {
                return Some(m);
            }
        }
        return list(text, pos, far);
    }
    if b == 123 {
        return dict(text, pos, far);
    }
    if b == 40 {
        return bracket(text, pos, sql, far);
    }
    worded(text, pos, sql, far)
}

/// A term that begins with no bracket: a series, a text, a symbol, a scalar, a
/// call, or a name.
fn worded(text: &str, pos: usize, sql: bool, far: &mut usize) -> (r: Option<Parsed>)
    requires
        pos <= utf8(text@).len(),
        *old(far) <= utf8(text@).len(),
    ensures
        placed(r, text@, pos),
        moved(r, pos),
        *final(far) <= utf8(text@).len(),
        agrees(r, *final(far), word_at(text@, pos as int, sql, *old(far) as int)),
    decreases utf8(text@).len() - pos, 4nat,
{
    if let Some(s) = series(text, pos) {
        return Some(s);
    }
    if let Some(e) = quoted_end(text, pos, 34) {
        return token(text, Rule::String, pos, e);
    }
    if let Some(e) = quoted_end(text, pos, 39) {
        return token(text, Rule::CatAlt, pos, e);
    }
    if at(text, pos) == 96 {
        return symbols(text, pos);
    }
    if let Some(t) = scalar_token(text, pos) {
        if !t.suffixed {
            return token(text, t.rule, pos, t.end);
        }
    }
    let e = word(text, pos);
    if e > pos && !(sql && clause_word(text, pos, e)) {
        let p = skip_blank(text, e);
        if at(text, p) == 40 {
            return call(text, pos, e, p + 1, far);
        }
        return token(text, Rule::Id, pos, e);
    }
    miss(far, pos);
    None
}

/// What closes a function, a conditional, a loop or a guarded block of the
/// rule `rule` that began at `pos`: the closing round bracket behind `at` and
/// statements in curly brackets, which are added to the nodes `kids`.
fn closed(text: &str, pos: usize, rule: Rule, kids: Vec<Pair>, at: usize, far: &mut usize) -> (r: Option<
    Parsed,
>)
    requires
        pos < at <= utf8(text@).len(),
        nested(kids@, utf8(text@), pos, at),
        *old(far) <= utf8(text@).len(),
    ensures
        placed(r, text@, pos),
        moved(r, pos),
        *final(far) <= utf8(text@).len(),
        agrees(
            r,
            *final(far),
            closed_at(text@, pos as int, rule, trees(kids@), at as int, *old(far) as int),
        ),
    decreases utf8(text@).len() - at, 3nat,
{
    let close = match expect(text, at, 41, far) {
        Some(e) => e,
        None => {
            return None;
        },
    };
    let body = match braces(text, close, far) {
        Some(b) => b,
        None => {
            return None;
        },
    };
    let end = body.next;
    let mut kids = kids;
    append(&mut kids, body.pair);
    built(text, rule, pos, end, kids)
}

/// A function literal: `fn`, the names in round brackets, the statements in
/// curly ones. `k` is the position behind `fn`.
fn function(text: &str, pos: usize, k: usize, far: &mut usize) -> (r: Option<Parsed>)
    requires
        pos < k <= utf8(text@).len(),
        *old(far) <= utf8(text@).len(),
    ensures
        placed(r, text@, pos),
        moved(r, pos),
        *final(far) <= utf8(text@).len(),
        agrees(r, *final(far), function_at(text@, pos as int, k as int, *old(far) as int)),
    decreases utf8(text@).len() - pos, 4nat,
{
    let open = match expect(text, k, 40, far) {
        Some(e) => e,
        None => {
            return None;
        },
    };
    let names = match params(text, skip_blank(text, open)) {
        Some(n) => n,
        None => {
            return None;
        },
    };
    let at = names.next;
    closed(text, pos, Rule::Fn, one(names.pair), at, far)
}

/// Statements in curly brackets that begin behind blanks at `pos`. The match
/// is the node of the statements; the position behind it is the one behind the
/// closing bracket.
fn braces(text: &str, pos: usize, far: &mut usize) -> (r: Option<Parsed>)
    requires
        pos <= utf8(text@).len(),
        *old(far) <= utf8(text@).len(),
    ensures
        r matches Some(p) ==> p.pair.within(utf8(text@)) && pos < p.pair.start && p.pair.end
            < p.next <= utf8(text@).len(),
        *final(far) <= utf8(text@).len(),
        agrees(r, *final(far), braces_at(text@, pos as int, *old(far) as int)),
    decreases utf8(text@).len() - pos, 2nat,
{
    let open = match expect(text, pos, 123, far) {
        Some(e) => e,
        None => {
            return None;
        },
    };
    let body = match statements(text, skip_blank(text, open), far) {
        Some(b) => b,
        None => {
            return None;
        },
    };
    match expect(text, body.next, 125, far) {
        Some(end) => Some(Parsed { pair: body.pair, next: end }),
        None => None,
    }
}

/// Statements with semicolons between and around them.
fn statements(text: &str, pos: usize, far: &mut usize) -> (r: Option<Parsed>)
    requires
        pos <= utf8(text@).len(),
        *old(far) <= utf8(text@).len(),
    ensures
        placed(r, text@, pos),
        *final(far) <= utf8(text@).len(),
        agrees(r, *final(far), statements_at(text@, pos as int, *old(far) as int)),
    decreases utf8(text@).len() - pos, 15nat,
{
    let n = len(text);
    let ghost far0 = *far;
    let ghost goal = statements_from(text@, pos as int, Seq::empty(), pos as int, far0 as int);
    let mut kids: Vec<Pair> = Vec::new();
    let mut end = pos;
    loop
        invariant_except_break
            goal == statements_from(text@, pos as int, trees(kids@), end as int, *far as int),
        invariant
            pos <= end <= n,
            n == utf8(text@).len(),
            nested(kids@, utf8(text@), pos, end),
            *far <= n,
        ensures
            pos <= end <= n,
            nested(kids@, utf8(text@), pos, end),
            *far <= n,
            goal == built_at(
                text@,
                Rule::Statements,
                pos as int,
                end as int,
                trees(kids@),
                *far as int,
            ),
        decreases n - end,
    {
        let p = next_statement(text, end);
        match statement(text, p, far) {
            Some(s) => {
                end = s.next;
                append(&mut kids, s.pair);
            },
            None => {
                break ;
            },
        }
        let q = skip_blank(text, end);
        if at(text, q) != 59 {
            break ;
        }
        end = q + 1;
    }
    built(text, Rule::Statements, pos, end, kids)
}

/// A statement: a return, a raise, or an expression.
fn statement(text: &str, pos: usize, far: &mut usize) -> (r: Option<Parsed>)
    requires
        pos <= utf8(text@).len(),
        *old(far) <= utf8(text@).len(),
    ensures
        placed(r, text@, pos),
        moved(r, pos),
        *final(far) <= utf8(text@).len(),
        agrees(r, *final(far), statement_at(text@, pos as int, *old(far) as int)),
    decreases utf8(text@).len() - pos, 12nat,
{
    if let Some(k) = keyword(text, pos, "return") {
        if let Some(e) = exp(text, skip_blank(text, k), far) {
            let end = e.next;
            return built(text, Rule::ReturnExp, pos, end, one(e.pair));
        }
    }
    if let Some(k) = keyword(text, pos, "raise") {
        if let Some(e) = exp(text, skip_blank(text, k), far) {
            let end = e.next;
            return built(text, Rule::RaiseExp, pos, end, one(e.pair));
        }
    }
    exp(text, pos, far)
}

/// A conditional or a loop: the keyword, the condition in round brackets, the
/// statements in curly ones. `k` is the position behind the keyword.
fn block(text: &str, pos: usize, k: usize, rule: Rule, far: &mut usize) -> (r: Option<Parsed>)
    requires
        pos < k <= utf8(text@).len(),
        *old(far) <= utf8(text@).len(),
    ensures
        placed(r, text@, pos),
        moved(r, pos),
        *final(far) <= utf8(text@).len(),
        agrees(r, *final(far), block_at(text@, pos as int, k as int, rule, *old(far) as int)),
    decreases utf8(text@).len() - pos, 4nat,
{
    let open = match expect(text, k, 40, far) {
        Some(e) => e,
        None => {
            return None;
        },
    };
    let cond = match operand(text, skip_blank(text, open), false, far) {
        Some(c) => c,
        None => {
            return None;
        },
    };
    let at = cond.next;
    closed(text, pos, rule, one(cond.pair), at, far)
}

/// A guarded block: `try`, statements in curly brackets, `catch`, a name in
/// round brackets, statements in curly ones. `k` is the position behind `try`.
fn attempt(text: &str, pos: usize, k: usize, far: &mut usize) -> (r: Option<Parsed>)
    requires
        pos < k <= utf8(text@).len(),
        *old(far) <= utf8(text@).len(),
    ensures
        placed(r, text@, pos),
        moved(r, pos),
        *final(far) <= utf8(text@).len(),
        agrees(r, *final(far), attempt_at(text@, pos as int, k as int, *old(far) as int)),
    decreases utf8(text@).len() - pos, 4nat,
{
    let tries = match braces(text, k, far) {
        Some(b) => b,
        None => {
            return None;
        },
    };
    let c = skip_blank(text, tries.next);
    match keyword(text, c, "catch") {
        Some(e) => caught(text, pos, one(tries.pair), e, far),
        None => {
            miss(far, c);
            None
        },
    }
}

/// A name at `pos`.
fn named(text: &str, pos: usize, far: &mut usize) -> (r: Option<Parsed>)
    requires
        pos <= utf8(text@).len(),
        *old(far) <= utf8(text@).len(),
    ensures
        placed(r, text@, pos),
        moved(r, pos),
        *final(far) <= utf8(text@).len(),
        agrees(r, *final(far), name_at(text@, pos as int, *old(far) as int)),
{
    let e = word(text, pos);
    if e <= pos {
        miss(far, pos);
        return None;
    }
    token(text, Rule::Id, pos, e)
}

/// What follows `catch` in a guarded block that began at `pos`, whose first
/// statements are the nodes `kids`. `k` is the position behind `catch`.
fn caught(text: &str, pos: usize, kids: Vec<Pair>, k: usize, far: &mut usize) -> (r: Option<Parsed>)
    requires
        pos < k <= utf8(text@).len(),
        nested(kids@, utf8(text@), pos, k),
        *old(far) <= utf8(text@).len(),
    ensures
        placed(r, text@, pos),
        moved(r, pos),
        *final(far) <= utf8(text@).len(),
        agrees(
            r,
            *final(far),
            caught_at(text@, pos as int, trees(kids@), k as int, *old(far) as int),
        ),
    decreases utf8(text@).len() - k, 4nat,
{
    let open = match expect(text, k, 40, far) {
        Some(e) => e,
        None => {
            return None;
        },
    };
    let name = match named(text, skip_blank(text, open), far) {
        Some(n) => n,
        None => {
            return None;
        },
    };
    let at = name.next;
    let mut kids = kids;
    append(&mut kids, name.pair);
    closed(text, pos, Rule::TryExp, kids, at, far)
}

/// An expression in round brackets; in a query a query or an operand.
fn bracket(text: &str, pos: usize, sql: bool, far: &mut usize) -> (r: Option<Parsed>)
    requires
        pos < utf8(text@).len(),
        *old(far) <= utf8(text@).len(),
    ensures
        placed(r, text@, pos),
        moved(r, pos),
        *final(far) <= utf8(text@).len(),
        agrees(r, *final(far), bracket_at(text@, pos as int, sql, *old(far) as int)),
    decreases utf8(text@).len() - pos, 3nat,
{
    let n = len(text);
    let p = skip_blank(text, pos + 1);
    let inner = if sql {
        match query(text, p, far) {
            Some(q) => Some(q),
            None => operand(text, p, true, far),
        }
    } else {
        exp(text, p, far)
    };
    let inner = match inner {
        Some(i) => i,
        None => {
            return None;
        },
    };
    let end = match expect(text, inner.next, 41, far) {
        Some(e) => e,
        None => {
            return None;
        },
    };
    built(
        text,
        if sql {
            Rule::BracketSqlExp
        } else {
            Rule::BracketExp
        },
        pos,
        end,
        one(inner.pair),
    )
}

/// A call: the name from `pos` to `name_end`, and the arguments in round
/// brackets with commas between them; an argument may be missing. `open` is
/// the position behind the opening bracket.
fn call(text: &str, pos: usize, name_end: usize, open: usize, far: &mut usize) -> (r: Option<
    Parsed,
>)
    requires
        pos < name_end < open <= utf8(text@).len(),
        *old(far) <= utf8(text@).len(),
    ensures
        placed(r, text@, pos),
        moved(r, pos),
        *final(far) <= utf8(text@).len(),
        agrees(
            r,
            *final(far),
            call_at(text@, pos as int, name_end as int, open as int, *old(far) as int),
        ),
    decreases utf8(text@).len() - pos, 3nat,
{
    match leaf(text, Rule::Id, pos, name_end) {
        Some(name) => args(text, pos, one(name), open, far),
        None => None,
    }
}

/// The arguments of a call from `from` on, behind the nodes `kids`.
fn args(text: &str, pos: usize, kids: Vec<Pair>, from: usize, far: &mut usize) -> (r: Option<Parsed>)
    requires
        pos < from <= utf8(text@).len(),
        nested(kids@, utf8(text@), pos, from),
        *old(far) <= utf8(text@).len(),
    ensures
        placed(r, text@, pos),
        moved(r, pos),
        *final(far) <= utf8(text@).len(),
        agrees(
            r,
            *final(far),
            args_from(text@, pos as int, trees(kids@), from as int, *old(far) as int),
        ),
    decreases utf8(text@).len() - from, 14nat,
{
    let a = skip_blank(text, from);
    let arg = match exp(text, a, far) {
        Some(e) => wrapped(text, Rule::Arg, e, Ghost(a)),
        None => match token(text, Rule::Skip, a, a) {
            Some(s) => wrapped(text, Rule::Arg, s, Ghost(a)),
            None => None,
        },
    };
    let arg = match arg {
        Some(x) => x,
        None => {
            return None;
        },
    };
    let q = skip_blank(text, arg.next);
    let mut kids = kids;
    append(&mut kids, arg.pair);
    let sep = at(text, q);
    if sep == 41 {
        return built(text, Rule::FnCall, pos, q + 1, kids);
    }
    if sep != 44 {
        miss(far, q);
        return None;
    }
    args(text, pos, kids, q + 1, far)
}

/// A list literal: items in square brackets with commas between them; an item
/// is an expression or an operator symbol.
fn list(text: &str, pos: usize, far: &mut usize) -> (r: Option<Parsed>)
    requires
        pos < utf8(text@).len(),
        *old(far) <= utf8(text@).len(),
    ensures
        placed(r, text@, pos),
        moved(r, pos),
        *final(far) <= utf8(text@).len(),
        agrees(r, *final(far), list_at(text@, pos as int, *old(far) as int)),
    decreases utf8(text@).len() - pos, 3nat,
{
    let n = len(text);
    let ghost goal = list_at(text@, pos as int, *far as int);
    let mut kids: Vec<Pair> = Vec::new();
    let mut p = pos + 1;
    loop
        invariant
            pos < p <= n,
            n == utf8(text@).len(),
            nested(kids@, utf8(text@), pos, p),
            *far <= n,
            goal == items_from(text@, pos as int, trees(kids@), p as int, *far as int),
            goal == list_at(text@, pos as int, *old(far) as int),
        decreases n - p,
    {
        let a = skip_blank(text, p);
        if at(text, a) == 93 {
            return built(text, Rule::List, pos, a + 1, kids);
        }
        let item = match exp(text, a, far) {
            Some(e) => Some(e),
            None => match operator_end(text, a) {
                Some(e) => token(text, Rule::BinaryOp, a, e),
                None => None,
            },
        };
        let item = match item {
            Some(x) => x,
            None => {
                miss(far, a);
                return None;
            },
        };
        let q = skip_blank(text, item.next);
        append(&mut kids, item.pair);
        let sep = at(text, q);
        if sep == 93 {
            return built(text, Rule::List, pos, q + 1, kids);
        }
        if sep != 44 {
            miss(far, q);
            return None;
        }
        p = q + 1;
    }
}

/// A matrix literal: rows in doubled square brackets with commas between
/// them; a row is an expression.
fn matrix(text: &str, pos: usize, far: &mut usize) -> (r: Option<Parsed>)
    requires
        pos + 1 < utf8(text@).len(),
        *old(far) <= utf8(text@).len(),
    ensures
        placed(r, text@, pos),
        moved(r, pos),
        *final(far) <= utf8(text@).len(),
        agrees(r, *final(far), matrix_at(text@, pos as int, *old(far) as int)),
    decreases utf8(text@).len() - pos, 3nat,
{
    let n = len(text);
    let ghost goal = matrix_at(text@, pos as int, *far as int);
    let mut kids: Vec<Pair> = Vec::new();
    let mut p = pos + 2;
    loop
        invariant
            pos + 1 < p <= n,
            n == utf8(text@).len(),
            nested(kids@, utf8(text@), pos, p),
            *far <= n,
            goal == rows_from(text@, pos as int, trees(kids@), p as int, *far as int),
            goal == matrix_at(text@, pos as int, *old(far) as int),
        decreases n - p,
    {
        proof {
            lemma_trees_len(kids@, kids@.len());
        }
        let a = skip_blank(text, p);
        if at(text, a) == 93 && at(text, a + 1) == 93 && kids.len() > 0 {
            return built(text, Rule::Matrix, pos, a + 2, kids);
        }
        let row = match exp(text, a, far) {
            Some(e) => e,
            None => {
                return None;
            },
        };
        let q = skip_blank(text, row.next);
        append(&mut kids, row.pair);
        if at(text, q) == 93 && at(text, q + 1) == 93 {
            return built(text, Rule::Matrix, pos, q + 2, kids);
        }
        if at(text, q) != 44 {
            miss(far, q);
            return None;
        }
        p = q + 1;
    }
}

/// The key of an entry of a dictionary literal: a name, a symbol or a string.
fn key(text: &str, a: usize) -> (r: Option<Parsed>)
    requires
        a <= utf8(text@).len(),
    ensures
        placed(r, text@, a),
        moved(r, a),
        hits(r, key_at(text@, a as int)),
{
    let w = word(text, a);
    if w > a {
        token(text, Rule::Id, a, w)
    } else if let Some(e) = symbol_end(text, a) {
        token(text, Rule::Cat, a, e)
    } else if let Some(e) = quoted_end(text, a, 34) {
        token(text, Rule::String, a, e)
    } else {
        None
    }
}

/// A dictionary literal: entries in curly brackets with commas between them;
/// an entry is a key, a colon and an expression.
fn dict(text: &str, pos: usize, far: &mut usize) -> (r: Option<Parsed>)
    requires
        pos < utf8(text@).len(),
        *old(far) <= utf8(text@).len(),
    ensures
        placed(r, text@, pos),
        moved(r, pos),
        *final(far) <= utf8(text@).len(),
        agrees(r, *final(far), dict_at(text@, pos as int, *old(far) as int)),
    decreases utf8(text@).len() - pos, 3nat,
{
    let n = len(text);
    let ghost goal = dict_at(text@, pos as int, *far as int);
    let mut kids: Vec<Pair> = Vec::new();
    let mut p = pos + 1;
    loop
        invariant
            pos < p <= n,
            n == utf8(text@).len(),
            nested(kids@, utf8(text@), pos, p),
            *far <= n,
            goal == entries_from(text@, pos as int, trees(kids@), p as int, *far as int),
            goal == dict_at(text@, pos as int, *old(far) as int),
        decreases n - p,
    {
        let a = skip_blank(text, p);
        if at(text, a) == 125 {
            return built(text, Rule::Dict, pos, a + 1, kids);
        }
        let name = match key(text, a) {
            Some(k) => k,
            None => {
                miss(far, a);
                return None;
            },
        };
        let colon = match expect(text, name.next, 58, far) {
            Some(e) => e,
            None => {
                return None;
            },
        };
        let value = match exp(text, skip_blank(text, colon), far) {
            Some(v) => v,
            None => {
                return None;
            },
        };
        let end = value.next;
        let entry = match node(text, Rule::KeyValueExp, a, end, two(name.pair, value.pair)) {
            Some(e) => e,
            None => {
                return None;
            },
        };
        let q = skip_blank(text, end);
        append(&mut kids, entry);
        let sep = at(text, q);
        if sep == 125 {
            return built(text, Rule::Dict, pos, q + 1, kids);
        }
        if sep != 44 {
            miss(far, q);
            return None;
        }
        p = q + 1;
    }
}

/// A column under a new name: the name, which ends at `e`, the sign `=` at
/// `p`, and an operand.
fn renamed(text: &str, pos: usize, e: usize, p: usize, far: &mut usize) -> (r: Option<Parsed>)
    requires
        pos < e <= p < utf8(text@).len() <= usize::MAX,
        *old(far) <= utf8(text@).len(),
    ensures
        placed(r, text@, pos),
        moved(r, pos),
        *final(far) <= utf8(text@).len(),
        agrees(
            r,
            *final(far),
            renamed_at(text@, pos as int, e as int, p as int, *old(far) as int),
        ),
    decreases utf8(text@).len() - pos, 7nat,
{
    let value = match operand(text, skip_blank(text, p + 1), true, far) {
        Some(v) => v,
        None => {
            return None;
        },
    };
    let name = match leaf(text, Rule::SeriesName, pos, e) {
        Some(n) => n,
        None => {
            return None;
        },
    };
    let end = value.next;
    match paired(text, Rule::RenameSeriesExp, pos, end, name, value.pair) {
        Some(r) => wrapped(text, Rule::SeriesExp, r, Ghost(pos)),
        None => None,
    }
}

/// A column: a name, `=` and an operand, or an operand; in a node of the
/// rule `SeriesExp`.
fn column(text: &str, pos: usize, far: &mut usize) -> (r: Option<Parsed>)
    requires
        pos <= utf8(text@).len(),
        *old(far) <= utf8(text@).len(),
    ensures
        placed(r, text@, pos),
        moved(r, pos),
        *final(far) <= utf8(text@).len(),
        agrees(r, *final(far), column_at(text@, pos as int, *old(far) as int)),
    decreases utf8(text@).len() - pos, 8nat,
{
    let e = word(text, pos);
    let p = skip_blank(text, e);
    if e > pos && !clause_word(text, pos, e) && at(text, p) == 61 && at(text, p + 1) != 61 {
        return renamed(text, pos, e, p, far);
    }
    let o = operand(text, pos, true, far);
    wrapping(text, Rule::SeriesExp, o, Ghost(pos))
}

/// Columns side by side, and the position behind the last.
pub struct Found {
    pub kids: Vec<Pair>,
    pub end: usize,
}

/// Columns with commas between them, from behind the blanks at `pos` on.
fn columns(text: &str, pos: usize, far: &mut usize, Ghost(start): Ghost<usize>) -> (r: Found)
    requires
        start <= pos <= utf8(text@).len(),
        *old(far) <= utf8(text@).len(),
    ensures
        pos <= r.end <= utf8(text@).len(),
        nested(r.kids@, utf8(text@), start, r.end),
        *final(far) <= utf8(text@).len(),
        columns_from(
            text@,
            Seq::empty(),
            pos as int,
            after(text@, pos as int),
            *old(far) as int,
        ) == (Columns { kids: trees(r.kids@), end: r.end as int, far: *final(far) as int }),
    decreases utf8(text@).len() - pos, 14nat,
{
    let n = len(text);
    let ghost goal = columns_from(
        text@,
        Seq::empty(),
        pos as int,
        after(text@, pos as int),
        *far as int,
    );
    let mut kids: Vec<Pair> = Vec::new();
    let mut end = pos;
    let mut p = skip_blank(text, pos);
    loop
        invariant_except_break
            end <= p,
            goal == columns_from(text@, trees(kids@), end as int, p as int, *far as int),
        invariant
            start <= pos <= end <= n,
            pos <= p <= n,
            n == utf8(text@).len(),
            nested(kids@, utf8(text@), start, end),
            *far <= n,
        ensures
            goal == (Columns { kids: trees(kids@), end: end as int, far: *far as int }),
        decreases n - p,
    {
        match column(text, p, far) {
            Some(c) => {
                end = c.next;
                append(&mut kids, c.pair);
            },
            None => {
                break ;
            },
        }
        let q = skip_blank(text, end);
        if at(text, q) != 44 {
            break ;
        }
        p = skip_blank(text, q + 1);
    }
    Found { kids, end }
}

/// A dataframe literal: `df` and columns in square brackets with commas
/// between them. `open` is the position behind the opening bracket.
fn dataframe(text: &str, pos: usize, open: usize, far: &mut usize) -> (r: Option<Parsed>)
    requires
        pos < open <= utf8(text@).len(),
        *old(far) <= utf8(text@).len(),
    ensures
        placed(r, text@, pos),
        moved(r, pos),
        *final(far) <= utf8(text@).len(),
        agrees(r, *final(far), dataframe_at(text@, pos as int, open as int, *old(far) as int)),
    decreases utf8(text@).len() - pos, 3nat,
{
    let cols = columns(text, open, far, Ghost(pos));
    let mut q = skip_blank(text, cols.end);
    if at(text, q) == 44 {
        q = skip_blank(text, q + 1);
    }
    if at(text, q) == 93 {
        built(text, Rule::Dataframe, pos, q + 1, cols.kids)
    } else {
        miss(far, q);
        None
    }
}

/// The clause of a query that begins with the word `name` at `pos` and holds
/// columns.
fn column_clause(text: &str, pos: usize, name: &str, rule: Rule, far: &mut usize) -> (r: Option<
    Parsed,
>)
    requires
        pos <= utf8(text@).len(),
        *old(far) <= utf8(text@).len(),
    ensures
        placed(r, text@, pos),
        moved(r, pos),
        *final(far) <= utf8(text@).len(),
        agrees(r, *final(far), column_clause_at(text@, pos as int, name@, rule, *old(far) as int)),
    decreases utf8(text@).len() - pos, 8nat,
{
    let k = match keyword(text, pos, name) {
        Some(k) => k,
        None => {
            return None;
        },
    };
    let cols = columns(text, k, far, Ghost(pos));
    proof {
        lemma_trees_len(cols.kids@, cols.kids@.len());
    }
    if cols.kids.len() == 0 {
        built(text, rule, pos, k, cols.kids)
    } else {
        built(text, rule, pos, cols.end, cols.kids)
    }
}

/// The clause of a query that begins with the word `name` at `pos` and holds
/// names with commas between them; a name of the order may begin with `-`.
fn name_clause(text: &str, pos: usize, name: &str, rule: Rule, item: Rule) -> (r: Option<Parsed>)
    requires
        pos <= utf8(text@).len(),
    ensures
        placed(r, text@, pos),
        moved(r, pos),
        hits(r, name_clause_at(text@, pos as int, name@, rule, item)),
{
    let n = len(text);
    let k = match keyword(text, pos, name) {
        Some(k) => k,
        None => {
            return None;
        },
    };
    let ghost goal = name_clause_at(text@, pos as int, name@, rule, item);
    let mut kids: Vec<Pair> = Vec::new();
    let mut end = k;
    let mut p = skip_blank(text, k);
    loop
        invariant_except_break
            end <= p,
            goal == names_from(text@, pos as int, rule, item, trees(kids@), end as int, p as int),
        invariant
            pos < k <= end <= n,
            k <= p <= n,
            n == utf8(text@).len(),
            nested(kids@, utf8(text@), pos, end),
            goal == name_clause_at(text@, pos as int, name@, rule, item),
        ensures
            goal == hit_of(text@, rule, pos as int, end as int, trees(kids@)),
        decreases n - p,
    {
        let from = if item == Rule::SortName && at(text, p) == 45 {
            p + 1
        } else {
            p
        };
        if from > n {
            break ;
        }
        let e = word(text, from);
        if e <= from || clause_word(text, from, e) {
            break ;
        }
        match leaf(text, item, p, e) {
            Some(kid) => {
                append(&mut kids, kid);
                end = e;
            },
            None => {
                return None;
            },
        }
        let q = skip_blank(text, e);
        if at(text, q) != 44 {
            break ;
        }
        p = skip_blank(text, q + 1);
    }
    built(text, rule, pos, end, kids)
}

/// The clause of a query that begins with the word `name` at `pos` and holds
/// operands with commas between them, or one expression.
fn operand_clause(text: &str, pos: usize, name: &str, rule: Rule, far: &mut usize) -> (r: Option<
    Parsed,
>)
    requires
        pos <= utf8(text@).len(),
        *old(far) <= utf8(text@).len(),
    ensures
        placed(r, text@, pos),
        moved(r, pos),
        *final(far) <= utf8(text@).len(),
        agrees(r, *final(far), operand_clause_at(text@, pos as int, name@, rule, *old(far) as int)),
    decreases utf8(text@).len() - pos, 8nat,
{
    let n = len(text);
    let k = match keyword(text, pos, name) {
        Some(k) => k,
        None => {
            return None;
        },
    };
    let ghost goal = operand_clause_at(text@, pos as int, name@, rule, *far as int);
    let mut kids: Vec<Pair> = Vec::new();
    let mut p = skip_blank(text, k);
    loop
        invariant
            pos < k <= p <= n,
            n == utf8(text@).len(),
            nested(kids@, utf8(text@), pos, p),
            *far <= n,
            goal == operands_from(text@, pos as int, rule, trees(kids@), p as int, *far as int),
            goal == operand_clause_at(text@, pos as int, name@, rule, *old(far) as int),
        decreases n - p,
    {
        let part = if rule == Rule::TakeOp {
            exp(text, p, far)
        } else {
            operand(text, p, true, far)
        };
        let part = match part {
            Some(o) => o,
            None => {
                return None;
            },
        };
        let end = part.next;
        append(&mut kids, part.pair);
        let q = skip_blank(text, end);
        if rule != Rule::FilterExp || at(text, q) != 44 {
            return built(text, rule, pos, end, kids);
        }
        p = skip_blank(text, q + 1);
    }
}

/// The groups of a query.
fn group(text: &str, pos: usize, far: &mut usize) -> (r: Option<Parsed>)
    requires
        pos <= utf8(text@).len(),
        *old(far) <= utf8(text@).len(),
    ensures
        placed(r, text@, pos),
        moved(r, pos),
        *final(far) <= utf8(text@).len(),
        agrees(r, *final(far), group_at(text@, pos as int, *old(far) as int)),
    decreases utf8(text@).len() - pos, 9nat,
{
    if let Some(g) = column_clause(text, pos, "by", Rule::GroupExp, far) {
        return Some(g);
    }
    if let Some(g) = column_clause(text, pos, "dyn", Rule::GroupExp, far) {
        return Some(g);
    }
    column_clause(text, pos, "rolling", Rule::GroupExp, far)
}

/// The operation of a query, with its columns.
fn operation(text: &str, pos: usize, far: &mut usize) -> (r: Option<Parsed>)
    requires
        pos <= utf8(text@).len(),
        *old(far) <= utf8(text@).len(),
    ensures
        placed(r, text@, pos),
        moved(r, pos),
        *final(far) <= utf8(text@).len(),
        agrees(r, *final(far), operation_at(text@, pos as int, *old(far) as int)),
    decreases utf8(text@).len() - pos, 9nat,
{
    if let Some(s) = column_clause(text, pos, "select", Rule::SelectOp, far) {
        return Some(s);
    }
    if let Some(u) = column_clause(text, pos, "update", Rule::UpdateOp, far) {
        return Some(u);
    }
    name_clause(text, pos, "delete", Rule::DeleteOp, Rule::SeriesName)
}

/// A clause that may stand in a query, added to the clauses before.
fn take_clause(kids: &mut Vec<Pair>, end: usize, clause: Option<Parsed>, Ghost(text): Ghost<
    Seq<char>,
>, Ghost(pos): Ghost<usize>, Ghost(at): Ghost<usize>) -> (r: usize)
    requires
        nested(old(kids)@, utf8(text), pos, end),
        pos <= end <= at,
        placed(clause, text, at),
        moved(clause, at),
    ensures
        end <= r <= utf8(text).len() || (clause is None && r == end),
        nested(final(kids)@, utf8(text), pos, r),
        match clause {
            Some(c) => trees(final(kids)@) == trees(old(kids)@).push(tree_of(c.pair)) && r == c.next,
            None => final(kids)@ == old(kids)@ && r == end,
        },
{
    match clause {
        Some(c) => {
            let next = c.next;
            append(kids, c.pair);
            next
        },
        None => end,
    }
}

/// A query: `select`, `update` or `delete` with its columns, then the groups,
/// the source, the filters, the order and the count, as far as they are there.
fn query(text: &str, pos: usize, far: &mut usize) -> (r: Option<Parsed>)
    requires
        pos <= utf8(text@).len(),
        *old(far) <= utf8(text@).len(),
    ensures
        placed(r, text@, pos),
        moved(r, pos),
        *final(far) <= utf8(text@).len(),
        agrees(r, *final(far), query_at(text@, pos as int, *old(far) as int)),
    decreases utf8(text@).len() - pos, 10nat,
{
    let op = match operation(text, pos, far) {
        Some(o) => o,
        None => {
            return None;
        },
    };
    let mut end = op.next;
    let mut kids = one(op.pair);
    let p = skip_blank(text, end);
    let groups = group(text, p, far);
    end = take_clause(&mut kids, end, groups, Ghost(text@), Ghost(pos), Ghost(p));
    let p = skip_blank(text, end);
    match operand_clause(text, p, "from", Rule::FromExp, far) {
        Some(f) => {
            end = f.next;
            append(&mut kids, f.pair);
        },
        None => {
            miss(far, p);
            return None;
        },
    }
    let p = skip_blank(text, end);
    let filters = operand_clause(text, p, "where", Rule::FilterExp, far);
    end = take_clause(&mut kids, end, filters, Ghost(text@), Ghost(pos), Ghost(p));
    let p = skip_blank(text, end);
    let order = name_clause(text, p, "sort", Rule::SortOp, Rule::SortName);
    end = take_clause(&mut kids, end, order, Ghost(text@), Ghost(pos), Ghost(p));
    let p = skip_blank(text, end);
    let count = operand_clause(text, p, "take", Rule::TakeOp, far);
    end = take_clause(&mut kids, end, count, Ghost(text@), Ghost(pos), Ghost(p));
    built(text, Rule::SqlExp, pos, end, kids)
}

/// The expressions of a program, with semicolons between and around them, and
/// the end of the input; or the furthest position at which no rule matched.
fn program(text: &str) -> (r: Result<Vec<Pair>, usize>)
    ensures
        match r {
            Ok(pairs) => nested(pairs@, utf8(text@), 0, utf8(text@).len() as usize) && program_of(
                text@,
            ).trees == Some(trees(pairs@)),
            Err(at) => at <= utf8(text@).len() && program_of(text@).trees is None && program_of(
                text@,
            ).far == at,
        },
{
    let n = len(text);
    let mut far: usize = 0;
    let mut pairs: Vec<Pair> = Vec::new();
    let mut end: usize = 0;
    loop
        invariant
            end <= n,
            n == utf8(text@).len(),
            nested(pairs@, utf8(text@), 0, n),
            far <= n,
            program_of(text@) == program_from(text@, trees(pairs@), end as int, far as int),
        decreases n - end,
    {
        let p = next_statement(text, end);
        if p >= n {
            return match leaf(text, Rule::EOI, n, n) {
                Some(eoi) => {
                    append(&mut pairs, eoi);
                    Ok(pairs)
                },
                None => Err(n),
            };
        }
        match exp(text, p, &mut far) {
            Some(e) => {
                end = e.next;
                append(&mut pairs, e.pair);
            },
            None => {
                return Err(far);
            },
        }
        let q = skip_blank(text, end);
        if q < n && at(text, q) != 59 {
            miss(&mut far, q);
            return Err(far);
        }
    }
}

/// The message of an error of the grammar about a rule that it does not
/// begin with.
pub open spec fn unexpected_rule(rule: Rule) -> Seq<char> {
    "Unexpected rule: "@ + rule.spec_name()
}

/// The position behind the character at `at`, where one byte makes it; else
/// `at`.
pub open spec fn error_end(text: Seq<char>, at: int) -> int {
    if at < size(text) && vstd::utf8::is_char_boundary(utf8(text), at + 1) {
        at + 1
    } else {
        at
    }
}

impl JParser {
    /// Reads `source` by the rule `rule`, which must be the program: the
    /// parse tree that the grammar gives it, its expressions in order and then
    /// the end of the input; or a syntax error about the furthest position at
    /// which no rule matched.
    pub fn parse(rule: Rule, source: &str) -> (r: Result<Vec<Pair>, ParseError>)
        ensures
            rule != Rule::Program ==> r is Err && r->Err_0@ == (crate::errors::ErrView {
                kind: ErrorKind::SyntaxError,
                message: unexpected_rule(rule),
                start: 0,
                end: 0,
            }),
            rule == Rule::Program ==> match program_of(source@).trees {
                Some(t) => r is Ok && trees(r->Ok_0@) == t && nested(
                    r->Ok_0@,
                    utf8(source@),
                    0,
                    utf8(source@).len() as usize,
                ),
                None => r is Err && r->Err_0@ == (crate::errors::ErrView {
                    kind: ErrorKind::SyntaxError,
                    message: "syntax error"@,
                    start: program_of(source@).far,
                    end: error_end(source@, program_of(source@).far),
                }),
            },
            r matches Err(e) ==> e.start <= e.end <= utf8(source@).len(),
    {
        if rule != Rule::Program {
            return Err(
                raise_error(
                    ErrorKind::SyntaxError,
                    "Unexpected rule: ".to_owned().concat(rule.name()),
                    0,
                    0,
                ),
            );
        }
        match program(source) {
            Ok(pairs) => Ok(pairs),
            Err(at) => {
                proof {
                    vstd::utf8::encode_utf8_valid_utf8(source@);
                }
                let end = if at < len(source) && source.is_char_boundary(at + 1) {
                    at + 1
                } else {
                    at
                };
                Err(raise_error(ErrorKind::SyntaxError, "syntax error".to_owned(), at, end))
            },
        }
    }
}

} // verus!
