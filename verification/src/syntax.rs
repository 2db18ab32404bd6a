//! The grammar of the language: for each rule, the node that it matches at a
//! position of the text, if it matches there. Each rule tries its alternatives
//! in a fixed order and takes the first that matches; blanks and comments may
//! stand between the parts of every rule but the tokens. With each match goes
//! the furthest position at which no rule matched so far, which is where a
//! syntax error is reported.
use crate::lexer::binary_id_to;
use crate::lexer::blank_end;
use crate::lexer::byte;
use crate::lexer::keyword_to;
use crate::lexer::made;
use crate::lexer::operator_to;
use crate::lexer::quoted_to;
use crate::lexer::scalar_to;
use crate::lexer::size;
use crate::lexer::symbol_to;
use crate::lexer::word_to;
use crate::lexer::Tree;
use crate::pair::Rule;
use vstd::prelude::*;

verus! {

/// A match of a rule: its node, and the position behind it.
pub struct Hit {
    pub tree: Tree,
    pub next: int,
}

/// What a rule makes of a position: its match, if it matches, and the furthest
/// position at which no rule matched.
pub struct Out {
    pub hit: Option<Hit>,
    pub far: int,
}

/// No match.
pub open spec fn none(far: int) -> Out {
    Out { hit: None, far }
}

/// The furthest position at which no rule matched, after none matched at
/// `pos`.
pub open spec fn far_of(far: int, pos: int) -> int {
    if pos > far {
        pos
    } else {
        far
    }
}

/// No match at `pos`.
pub open spec fn missed(far: int, pos: int) -> Out {
    none(far_of(far, pos))
}

/// The position behind the blanks and comments at `pos`.
pub open spec fn after(text: Seq<char>, pos: int) -> int {
    let q = blank_end(text, pos);
    if pos <= q <= size(text) {
        q
    } else {
        pos
    }
}

/// A match, where it moved forward from `pos`.
pub open spec fn ahead(o: Out, pos: int, text: Seq<char>) -> Out {
    match o.hit {
        Some(h) => if pos < h.next <= size(text) {
            o
        } else {
            none(o.far)
        },
        None => o,
    }
}

/// A match, where it did not move back from `pos`.
pub open spec fn onward(o: Out, pos: int, text: Seq<char>) -> Out {
    match o.hit {
        Some(h) => if pos <= h.next <= size(text) {
            o
        } else {
            none(o.far)
        },
        None => o,
    }
}

/// The match of `rule` from `start` to `end` with `kids` inside it.
pub open spec fn hit_of(text: Seq<char>, rule: Rule, start: int, end: int, kids: Seq<Tree>) -> Option<
    Hit,
> {
    match made(text, rule, start, end, kids) {
        Some(tree) => Some(Hit { tree, next: end }),
        None => None,
    }
}

/// The match of `rule` from `start` to `end` with `kids` inside it.
pub open spec fn built_at(
    text: Seq<char>,
    rule: Rule,
    start: int,
    end: int,
    kids: Seq<Tree>,
    far: int,
) -> Out {
    Out { hit: hit_of(text, rule, start, end, kids), far }
}

/// The match of `rule` that holds one match and spans what it spans.
pub open spec fn wrap(text: Seq<char>, rule: Rule, h: Hit) -> Option<Hit> {
    hit_of(text, rule, h.tree.start, h.next, seq![h.tree])
}

/// The match of `rule` that holds the match of `o`, where there is one.
pub open spec fn wrapped_at(text: Seq<char>, rule: Rule, o: Out) -> Out {
    match o.hit {
        Some(h) => Out { hit: wrap(text, rule, h), far: o.far },
        None => o,
    }
}

/// A position that was looked for, and the furthest miss.
pub struct Step {
    pub at: Option<int>,
    pub far: int,
}

/// The position behind the byte `b` where it stands at `pos` behind blanks.
pub open spec fn expect_at(text: Seq<char>, pos: int, b: u8, far: int) -> Step {
    let p = after(text, pos);
    if byte(text, p) == b {
        Step { at: Some(p + 1), far }
    } else {
        Step { at: None, far: far_of(far, p) }
    }
}

/// Whether the word from `pos` to `end` is one that begins or parts the
/// clauses of a query, and so names no column.
pub open spec fn is_clause_word(text: Seq<char>, pos: int, end: int) -> bool {
    keyword_to(text, pos, "select"@) == Some(end) || keyword_to(text, pos, "update"@) == Some(end)
        || keyword_to(text, pos, "delete"@) == Some(end) || keyword_to(text, pos, "by"@) == Some(
        end,
    ) || keyword_to(text, pos, "dyn"@) == Some(end) || keyword_to(text, pos, "rolling"@) == Some(
        end,
    ) || keyword_to(text, pos, "from"@) == Some(end) || keyword_to(text, pos, "where"@) == Some(
        end,
    ) || keyword_to(text, pos, "sort"@) == Some(end) || keyword_to(text, pos, "take"@) == Some(end)
}

/// A value of a series literal: where it ends, and whether a suffix names its
/// type.
pub struct Value {
    pub end: int,
    pub suffixed: bool,
}

/// One value of a series literal at `pos`: a scalar token, a text between
/// quotes, or a symbol that no other follows.
pub open spec fn value_at(text: Seq<char>, pos: int) -> Option<Value> {
    if scalar_to(text, pos) is Some {
        Some(Value { end: scalar_to(text, pos)->0.end, suffixed: scalar_to(text, pos)->0.suffixed })
    } else if quoted_to(text, pos, 39) is Some {
        Some(Value { end: quoted_to(text, pos, 39)->0, suffixed: false })
    } else if quoted_to(text, pos, 34) is Some {
        Some(Value { end: quoted_to(text, pos, 34)->0, suffixed: false })
    } else if symbol_to(text, pos) is Some && byte(text, symbol_to(text, pos)->0) != 96 {
        Some(Value { end: symbol_to(text, pos)->0, suffixed: false })
    } else {
        None
    }
}

/// Nodes side by side, and the position behind the last.
pub struct Run {
    pub kids: Seq<Tree>,
    pub end: int,
}

/// The values of a series literal that follow those up to `end`, each behind
/// blanks.
pub open spec fn values_from(text: Seq<char>, kids: Seq<Tree>, end: int) -> Run
    decreases size(text) - end,
{
    let p = after(text, end);
    if p == end {
        Run { kids, end }
    } else {
        match value_at(text, p) {
            Some(v) => if p < v.end <= size(text) {
                match made(text, Rule::Scalar, p, v.end, Seq::empty()) {
                    Some(tree) => values_from(text, kids.push(tree), v.end),
                    None => Run { kids, end },
                }
            } else {
                Run { kids, end }
            },
            None => Run { kids, end },
        }
    }
}

/// A series literal at `pos`: two or more values with blanks between them, or
/// one number whose suffix names its type.
pub open spec fn series_at(text: Seq<char>, pos: int) -> Option<Hit> {
    match value_at(text, pos) {
        Some(first) => match made(text, Rule::Scalar, pos, first.end, Seq::empty()) {
            Some(tree) => {
                let run = values_from(text, seq![tree], first.end);
                if run.kids.len() >= 2 || first.suffixed {
                    hit_of(text, Rule::Series, pos, run.end, run.kids)
                } else {
                    None
                }
            },
            None => None,
        },
        None => None,
    }
}

/// The position behind the symbols that stand side by side from `end` on, and
/// whether there is more than one symbol with those before.
pub struct Symbols {
    pub end: int,
    pub many: bool,
}

pub open spec fn symbols_from(text: Seq<char>, end: int, many: bool) -> Symbols
    decreases size(text) - end,
{
    match symbol_to(text, end) {
        Some(e) => if end < e <= size(text) {
            symbols_from(text, e, true)
        } else {
            Symbols { end, many }
        },
        None => Symbols { end, many },
    }
}

/// A symbol at `pos`, or a run of symbols that stand side by side.
pub open spec fn symbols_at(text: Seq<char>, pos: int) -> Option<Hit> {
    match symbol_to(text, pos) {
        Some(first) => if pos < first <= size(text) {
            let run = symbols_from(text, first, false);
            hit_of(
                text,
                if run.many {
                    Rule::Cats
                } else {
                    Rule::Cat
                },
                pos,
                run.end,
                Seq::empty(),
            )
        } else {
            None
        },
        None => None,
    }
}

/// The names of a function literal from `p` on, with commas between them,
/// behind those up to `end`.
pub open spec fn params_from(text: Seq<char>, pos: int, kids: Seq<Tree>, end: int, p: int) -> Option<
    Hit,
>
    decreases size(text) - p,
{
    let e = word_to(text, p);
    if !(p < e <= size(text)) {
        hit_of(text, Rule::Params, pos, end, kids)
    } else {
        match made(text, Rule::Id, p, e, Seq::empty()) {
            Some(tree) => {
                let q = after(text, e);
                if byte(text, q) != 44 {
                    hit_of(text, Rule::Params, pos, e, kids.push(tree))
                } else {
                    params_from(text, pos, kids.push(tree), e, after(text, q + 1))
                }
            },
            None => None,
        }
    }
}

/// The operator that stands at `p`: a function name used as one, or an
/// operator symbol; its rule and where it ends.
pub struct Sign {
    pub rule: Rule,
    pub end: int,
}

pub open spec fn sign_at(text: Seq<char>, p: int) -> Option<Sign> {
    match binary_id_to(text, p) {
        Some(e) => Some(Sign { rule: Rule::BinaryId, end: e }),
        None => match operator_to(text, p) {
            Some(e) => Some(Sign { rule: Rule::BinaryOp, end: e }),
            None => None,
        },
    }
}

/// The position behind the semicolons, and the blanks behind each, from `p`
/// on.
pub open spec fn semis_to(text: Seq<char>, p: int) -> int
    decreases size(text) - p,
{
    if 0 <= p < size(text) && byte(text, p) == 59 {
        semis_to(text, after(text, p + 1))
    } else {
        p
    }
}

/// The position at which the next statement behind `end` begins.
pub open spec fn statement_start(text: Seq<char>, end: int) -> int {
    let p = semis_to(text, after(text, end));
    if end <= p <= size(text) {
        p
    } else {
        end
    }
}

/// A conditional, a loop or a guarded block at `pos`.
pub open spec fn control_at(text: Seq<char>, pos: int, far: int) -> Out
    decreases size(text) - pos, 5nat,
{
    if pos < 0 || pos > size(text) {
        none(far)
    } else {
        let a = match keyword_to(text, pos, "if"@) {
            Some(k) => block_at(text, pos, k, Rule::IfExp, far),
            None => none(far),
        };
        if a.hit is Some {
            a
        } else {
            let b = match keyword_to(text, pos, "while"@) {
                Some(k) => block_at(text, pos, k, Rule::WhileExp, a.far),
                None => none(a.far),
            };
            if b.hit is Some {
                b
            } else {
                match keyword_to(text, pos, "try"@) {
                    Some(k) => attempt_at(text, pos, k, b.far),
                    None => none(b.far),
                }
            }
        }
    }
}

/// An expression at `pos`: a conditional, a loop, a guarded block, a query,
/// an assignment, or an operand; in a node of the rule `Exp`.
pub open spec fn exp_at(text: Seq<char>, pos: int, far: int) -> Out
    decreases size(text) - pos, 11nat,
{
    if pos < 0 || pos > size(text) {
        none(far)
    } else {
        let c = control_at(text, pos, far);
        if c.hit is Some {
            wrapped_at(text, Rule::Exp, c)
        } else {
            let q = query_at(text, pos, c.far);
            if q.hit is Some {
                wrapped_at(text, Rule::Exp, q)
            } else {
                let t = ahead(term_at(text, pos, false, q.far), pos, text);
                match t.hit {
                    Some(h) => assigned_at(text, pos, h, t.far),
                    None => none(t.far),
                }
            }
        }
    }
}

/// The expression at `pos` that begins with the term `h`: an assignment where
/// the term is a name or a call and `=` follows, else the operand that begins
/// with the term.
pub open spec fn assigned_at(text: Seq<char>, pos: int, h: Hit, far: int) -> Out
    decreases size(text) - h.next, 8nat,
{
    if !(0 <= h.next <= size(text)) {
        none(far)
    } else {
        let p = after(text, h.next);
        if (h.tree.rule == Rule::Id || h.tree.rule == Rule::FnCall) && byte(text, p) == 61 && byte(
            text,
            p + 1,
        ) != 61 {
            let q = after(text, p + 1);
            let v = ahead(exp_at(text, q, far), q, text);
            match v.hit {
                Some(vh) => match hit_of(
                    text,
                    Rule::AssignmentExp,
                    pos,
                    vh.next,
                    seq![h.tree, vh.tree],
                ) {
                    Some(a) => Out { hit: wrap(text, Rule::Exp, a), far: v.far },
                    None => none(v.far),
                },
                None => none(v.far),
            }
        } else {
            wrapped_at(text, Rule::Exp, extended_at(text, h, false, far))
        }
    }
}

/// An operand at `pos`: a term, an infix expression that begins with one, or
/// a name applied to an operand. In a query (`sql`) the infix and prefix
/// expressions have rules of their own, and the right side of an infix
/// expression is an operand; elsewhere it is an expression.
pub open spec fn operand_at(text: Seq<char>, pos: int, sql: bool, far: int) -> Out
    decreases size(text) - pos, 6nat,
{
    if pos < 0 || pos > size(text) {
        none(far)
    } else {
        let t = ahead(term_at(text, pos, sql, far), pos, text);
        match t.hit {
            Some(h) => extended_at(text, h, sql, t.far),
            None => none(t.far),
        }
    }
}

/// The operand that begins with the term `h`: the infix expression where an
/// operator and a right side follow, the prefix expression where the term is a
/// name and an operand follows, else the term itself.
pub open spec fn extended_at(text: Seq<char>, h: Hit, sql: bool, far: int) -> Out
    decreases size(text) - h.next, 7nat,
{
    if !(0 <= h.next <= size(text)) {
        none(far)
    } else {
        let p = after(text, h.next);
        match sign_at(text, p) {
            Some(s) => if !(p < s.end <= size(text)) {
                none(far)
            } else {
                let q = after(text, s.end);
                let right = ahead(
                    if sql {
                        operand_at(text, q, true, far)
                    } else {
                        exp_at(text, q, far)
                    },
                    q,
                    text,
                );
                match right.hit {
                    Some(rh) => match made(text, s.rule, p, s.end, Seq::empty()) {
                        Some(op) => built_at(
                            text,
                            if sql {
                                Rule::BinarySqlExp
                            } else {
                                Rule::BinaryExp
                            },
                            h.tree.start,
                            rh.next,
                            seq![h.tree, op, rh.tree],
                            right.far,
                        ),
                        None => none(right.far),
                    },
                    None => Out { hit: Some(h), far: right.far },
                }
            },
            None => if h.tree.rule == Rule::Id {
                let o = ahead(operand_at(text, p, sql, far), p, text);
                match o.hit {
                    Some(oh) => built_at(
                        text,
                        if sql {
                            Rule::UnarySqlExp
                        } else {
                            Rule::UnaryExp
                        },
                        h.tree.start,
                        oh.next,
                        seq![h.tree, oh.tree],
                        o.far,
                    ),
                    None => Out { hit: Some(h), far: o.far },
                }
            } else {
                Out { hit: Some(h), far }
            },
        }
    }
}

/// A term at `pos`: a function, a dataframe, a matrix, a list, a dictionary,
/// an expression in brackets, a series, a text, a symbol, a scalar, a call, or
/// a name. In a query no name is a word that parts its clauses.
pub open spec fn term_at(text: Seq<char>, pos: int, sql: bool, far: int) -> Out
    decreases size(text) - pos, 5nat,
{
    if pos < 0 || pos > size(text) {
        none(far)
    } else {
        let a = match keyword_to(text, pos, "fn"@) {
            Some(k) => function_at(text, pos, k, far),
            None => none(far),
        };
        if a.hit is Some {
            a
        } else {
            let b = match keyword_to(text, pos, "df"@) {
                Some(k) => if pos < k <= size(text) && byte(text, after(text, k)) == 91 {
                    dataframe_at(text, pos, after(text, k) + 1, a.far)
                } else {
                    none(a.far)
                },
                None => none(a.far),
            };
            if b.hit is Some {
                b
            } else if byte(text, pos) == 91 {
                let m = if byte(text, pos + 1) == 91 {
                    matrix_at(text, pos, b.far)
                } else {
                    none(b.far)
                };
                if m.hit is Some {
                    m
                } else {
                    list_at(text, pos, m.far)
                }
            } else if byte(text, pos) == 123 {
                dict_at(text, pos, b.far)
            } else if byte(text, pos) == 40 {
                bracket_at(text, pos, sql, b.far)
            } else {
                word_at(text, pos, sql, b.far)
            }
        }
    }
}

/// A term at `pos` that begins with no bracket: a series, a text, a symbol, a
/// scalar, a call, or a name.
pub open spec fn word_at(text: Seq<char>, pos: int, sql: bool, far: int) -> Out
    decreases size(text) - pos, 4nat,
{
    if pos < 0 || pos > size(text) {
        none(far)
    } else if series_at(text, pos) is Some {
        Out { hit: series_at(text, pos), far }
    } else if quoted_to(text, pos, 34) is Some {
        built_at(text, Rule::String, pos, quoted_to(text, pos, 34)->0, Seq::empty(), far)
    } else if quoted_to(text, pos, 39) is Some {
        built_at(text, Rule::CatAlt, pos, quoted_to(text, pos, 39)->0, Seq::empty(), far)
    } else if byte(text, pos) == 96 {
        Out { hit: symbols_at(text, pos), far }
    } else if scalar_to(text, pos) is Some && !scalar_to(text, pos)->0.suffixed {
        built_at(
            text,
            scalar_to(text, pos)->0.rule,
            pos,
            scalar_to(text, pos)->0.end,
            Seq::empty(),
            far,
        )
    } else {
        let e = word_to(text, pos);
        if pos < e <= size(text) && !(sql && is_clause_word(text, pos, e)) {
            let p = after(text, e);
            if byte(text, p) == 40 {
                call_at(text, pos, e, p + 1, far)
            } else {
                built_at(text, Rule::Id, pos, e, Seq::empty(), far)
            }
        } else {
            missed(far, pos)
        }
    }
}

/// What closes a function, a conditional, a loop or a guarded block of the
/// rule `rule` that began at `pos`: the closing round bracket behind `at` and
/// statements in curly brackets, which are added to the nodes `kids`.
pub open spec fn closed_at(text: Seq<char>, pos: int, rule: Rule, kids: Seq<Tree>, at: int, far: int) -> Out
    decreases size(text) - at, 3nat,
{
    if !(0 <= pos <= at <= size(text)) {
        none(far)
    } else {
        let close = expect_at(text, at, 41, far);
        match close.at {
            Some(c) => {
                let body = braces_at(text, c, close.far);
                match body.hit {
                    Some(b) => built_at(text, rule, pos, b.next, kids.push(b.tree), body.far),
                    None => none(body.far),
                }
            },
            None => none(close.far),
        }
    }
}

/// A function literal at `pos`: `fn`, the names in round brackets, the
/// statements in curly ones. `k` is the position behind `fn`.
pub open spec fn function_at(text: Seq<char>, pos: int, k: int, far: int) -> Out
    decreases size(text) - pos, 4nat,
{
    if !(0 <= pos < k <= size(text)) {
        none(far)
    } else {
        let open = expect_at(text, k, 40, far);
        match open.at {
            Some(o) => match params_from(text, after(text, o), Seq::empty(), after(text, o), after(
                text,
                o,
            )) {
                Some(names) => if !(o <= names.next <= size(text)) {
                    none(open.far)
                } else {
                    closed_at(text, pos, Rule::Fn, seq![names.tree], names.next, open.far)
                },
                None => none(open.far),
            },
            None => none(open.far),
        }
    }
}

/// Statements in curly brackets that begin behind blanks at `pos`. The match
/// is the node of the statements; the position behind it is the one behind
/// the closing bracket.
pub open spec fn braces_at(text: Seq<char>, pos: int, far: int) -> Out
    decreases size(text) - pos, 2nat,
{
    if pos < 0 || pos > size(text) {
        none(far)
    } else {
        let open = expect_at(text, pos, 123, far);
        match open.at {
            Some(o) => if !(pos < o <= size(text)) {
                none(open.far)
            } else {
                let body = onward(statements_at(text, after(text, o), open.far), o, text);
                match body.hit {
                    Some(b) => {
                        let close = expect_at(text, b.next, 125, body.far);
                        match close.at {
                            Some(c) => Out { hit: Some(Hit { tree: b.tree, next: c }), far: close.far },
                            None => none(close.far),
                        }
                    },
                    None => none(body.far),
                }
            },
            None => none(open.far),
        }
    }
}

/// Statements at `pos`, with semicolons between and around them.
pub open spec fn statements_at(text: Seq<char>, pos: int, far: int) -> Out
    decreases size(text) - pos, 15nat,
{
    if pos < 0 || pos > size(text) {
        none(far)
    } else {
        statements_from(text, pos, Seq::empty(), pos, far)
    }
}

/// The statements that follow those up to `end`.
pub open spec fn statements_from(text: Seq<char>, pos: int, kids: Seq<Tree>, end: int, far: int) -> Out
    decreases size(text) - end, 14nat,
{
    if end < 0 || end > size(text) {
        none(far)
    } else {
        let p = statement_start(text, end);
        let s = ahead(statement_at(text, p, far), p, text);
        match s.hit {
            Some(h) => {
                let q = after(text, h.next);
                if byte(text, q) != 59 {
                    built_at(text, Rule::Statements, pos, h.next, kids.push(h.tree), s.far)
                } else {
                    statements_from(text, pos, kids.push(h.tree), q + 1, s.far)
                }
            },
            None => built_at(text, Rule::Statements, pos, end, kids, s.far),
        }
    }
}

/// A statement at `pos`: a return, a raise, or an expression.
pub open spec fn statement_at(text: Seq<char>, pos: int, far: int) -> Out
    decreases size(text) - pos, 12nat,
{
    if pos < 0 || pos > size(text) {
        none(far)
    } else {
        let a = match keyword_to(text, pos, "return"@) {
            Some(k) => if pos < k <= size(text) {
                ahead(exp_at(text, after(text, k), far), k, text)
            } else {
                none(far)
            },
            None => none(far),
        };
        match a.hit {
            Some(h) => built_at(text, Rule::ReturnExp, pos, h.next, seq![h.tree], a.far),
            None => {
                let b = match keyword_to(text, pos, "raise"@) {
                    Some(k) => if pos < k <= size(text) {
                        ahead(exp_at(text, after(text, k), a.far), k, text)
                    } else {
                        none(a.far)
                    },
                    None => none(a.far),
                };
                match b.hit {
                    Some(h) => built_at(text, Rule::RaiseExp, pos, h.next, seq![h.tree], b.far),
                    None => exp_at(text, pos, b.far),
                }
            },
        }
    }
}

/// A conditional or a loop at `pos`: the keyword, the condition in round
/// brackets, the statements in curly ones. `k` is the position behind the
/// keyword.
pub open spec fn block_at(text: Seq<char>, pos: int, k: int, rule: Rule, far: int) -> Out
    decreases size(text) - pos, 4nat,
{
    if !(0 <= pos < k <= size(text)) {
        none(far)
    } else {
        let open = expect_at(text, k, 40, far);
        match open.at {
            Some(o) => {
                let cond = ahead(operand_at(text, after(text, o), false, open.far), o, text);
                match cond.hit {
                    Some(c) => closed_at(text, pos, rule, seq![c.tree], c.next, cond.far),
                    None => none(cond.far),
                }
            },
            None => none(open.far),
        }
    }
}

/// A guarded block at `pos`: `try`, statements in curly brackets, `catch`, a
/// name in round brackets, statements in curly ones. `k` is the position
/// behind `try`.
pub open spec fn attempt_at(text: Seq<char>, pos: int, k: int, far: int) -> Out
    decreases size(text) - pos, 4nat,
{
    if !(0 <= pos < k <= size(text)) {
        none(far)
    } else {
        let tries = ahead(braces_at(text, k, far), k, text);
        match tries.hit {
            Some(t) => {
                let c = after(text, t.next);
                match keyword_to(text, c, "catch"@) {
                    Some(word_end) => if !(c < word_end <= size(text)) {
                        none(tries.far)
                    } else {
                        caught_at(text, pos, seq![t.tree], word_end, tries.far)
                    },
                    None => missed(tries.far, c),
                }
            },
            None => none(tries.far),
        }
    }
}

/// A name at `pos`.
pub open spec fn name_at(text: Seq<char>, pos: int, far: int) -> Out {
    let e = word_to(text, pos);
    if !(0 <= pos < e <= size(text)) {
        missed(far, pos)
    } else {
        built_at(text, Rule::Id, pos, e, Seq::empty(), far)
    }
}

/// What follows `catch` in a guarded block that began at `pos`, whose first
/// statements are the nodes `kids`. `k` is the position behind `catch`.
pub open spec fn caught_at(text: Seq<char>, pos: int, kids: Seq<Tree>, k: int, far: int) -> Out
    decreases size(text) - k, 4nat,
{
    if !(0 <= pos < k <= size(text)) {
        none(far)
    } else {
        let open = expect_at(text, k, 40, far);
        match open.at {
            Some(o) => {
                let name = ahead(name_at(text, after(text, o), open.far), o, text);
                match name.hit {
                    Some(n) => closed_at(
                        text,
                        pos,
                        Rule::TryExp,
                        kids.push(n.tree),
                        n.next,
                        name.far,
                    ),
                    None => none(name.far),
                }
            },
            None => none(open.far),
        }
    }
}

/// An expression in round brackets at `pos`; in a query a query or an
/// operand.
pub open spec fn bracket_at(text: Seq<char>, pos: int, sql: bool, far: int) -> Out
    decreases size(text) - pos, 3nat,
{
    if !(0 <= pos < size(text)) {
        none(far)
    } else {
        let p = after(text, pos + 1);
        let inner = ahead(
            if sql {
                let q = query_at(text, p, far);
                if q.hit is Some {
                    q
                } else {
                    operand_at(text, p, true, q.far)
                }
            } else {
                exp_at(text, p, far)
            },
            p,
            text,
        );
        match inner.hit {
            Some(i) => {
                let close = expect_at(text, i.next, 41, inner.far);
                match close.at {
                    Some(end) => built_at(
                        text,
                        if sql {
                            Rule::BracketSqlExp
                        } else {
                            Rule::BracketExp
                        },
                        pos,
                        end,
                        seq![i.tree],
                        close.far,
                    ),
                    None => none(close.far),
                }
            },
            None => none(inner.far),
        }
    }
}

/// A call at `pos`: the name from `pos` to `name_end`, and the arguments in
/// round brackets with commas between them; an argument may be missing.
/// `open` is the position behind the opening bracket.
pub open spec fn call_at(text: Seq<char>, pos: int, name_end: int, open: int, far: int) -> Out
    decreases size(text) - pos, 3nat,
{
    if !(0 <= pos < name_end < open <= size(text)) {
        none(far)
    } else {
        match made(text, Rule::Id, pos, name_end, Seq::empty()) {
            Some(name) => args_from(text, pos, seq![name], open, far),
            None => none(far),
        }
    }
}

/// The arguments of a call from `p` on, behind those before.
pub open spec fn args_from(text: Seq<char>, pos: int, kids: Seq<Tree>, p: int, far: int) -> Out
    decreases size(text) - p, 14nat,
{
    if p < 0 || p > size(text) {
        none(far)
    } else {
        let a = after(text, p);
        let e = ahead(exp_at(text, a, far), a, text);
        let arg = match e.hit {
            Some(h) => wrap(text, Rule::Arg, h),
            None => match hit_of(text, Rule::Skip, a, a, Seq::empty()) {
                Some(s) => wrap(text, Rule::Arg, s),
                None => None,
            },
        };
        match arg {
            Some(x) => if !(a <= x.next <= size(text)) {
                none(e.far)
            } else {
                let q = after(text, x.next);
                if byte(text, q) == 41 {
                    built_at(text, Rule::FnCall, pos, q + 1, kids.push(x.tree), e.far)
                } else if byte(text, q) != 44 {
                    missed(e.far, q)
                } else {
                    args_from(text, pos, kids.push(x.tree), q + 1, e.far)
                }
            },
            None => none(e.far),
        }
    }
}

/// A list literal at `pos`: items in square brackets with commas between
/// them; an item is an expression or an operator symbol.
pub open spec fn list_at(text: Seq<char>, pos: int, far: int) -> Out
    decreases size(text) - pos, 3nat,
{
    if !(0 <= pos < size(text)) {
        none(far)
    } else {
        items_from(text, pos, Seq::empty(), pos + 1, far)
    }
}

/// The items of a list literal from `p` on, behind those before.
pub open spec fn items_from(text: Seq<char>, pos: int, kids: Seq<Tree>, p: int, far: int) -> Out
    decreases size(text) - p, 14nat,
{
    if p < 0 || p > size(text) {
        none(far)
    } else {
        let a = after(text, p);
        if byte(text, a) == 93 {
            built_at(text, Rule::List, pos, a + 1, kids, far)
        } else {
            let e = ahead(exp_at(text, a, far), a, text);
            let item = match e.hit {
                Some(h) => Some(h),
                None => match operator_to(text, a) {
                    Some(end) => if a < end <= size(text) {
                        hit_of(text, Rule::BinaryOp, a, end, Seq::empty())
                    } else {
                        None
                    },
                    None => None,
                },
            };
            match item {
                Some(x) => {
                    let q = after(text, x.next);
                    if byte(text, q) == 93 {
                        built_at(text, Rule::List, pos, q + 1, kids.push(x.tree), e.far)
                    } else if byte(text, q) != 44 {
                        missed(e.far, q)
                    } else {
                        items_from(text, pos, kids.push(x.tree), q + 1, e.far)
                    }
                },
                None => missed(e.far, a),
            }
        }
    }
}

/// A matrix literal at `pos`: rows in doubled square brackets with commas
/// between them; a row is an expression.
pub open spec fn matrix_at(text: Seq<char>, pos: int, far: int) -> Out
    decreases size(text) - pos, 3nat,
{
    if !(0 <= pos && pos + 1 < size(text)) {
        none(far)
    } else {
        rows_from(text, pos, Seq::empty(), pos + 2, far)
    }
}

/// Whether a matrix literal closes at `a`.
pub open spec fn closes(text: Seq<char>, a: int) -> bool {
    byte(text, a) == 93 && byte(text, a + 1) == 93
}

/// The rows of a matrix literal from `p` on, behind those before.
pub open spec fn rows_from(text: Seq<char>, pos: int, kids: Seq<Tree>, p: int, far: int) -> Out
    decreases size(text) - p, 14nat,
{
    if p < 0 || p > size(text) {
        none(far)
    } else {
        let a = after(text, p);
        if closes(text, a) && kids.len() > 0 {
            built_at(text, Rule::Matrix, pos, a + 2, kids, far)
        } else {
            let row = ahead(exp_at(text, a, far), a, text);
            match row.hit {
                Some(x) => {
                    let q = after(text, x.next);
                    if closes(text, q) {
                        built_at(text, Rule::Matrix, pos, q + 2, kids.push(x.tree), row.far)
                    } else if byte(text, q) != 44 {
                        missed(row.far, q)
                    } else {
                        rows_from(text, pos, kids.push(x.tree), q + 1, row.far)
                    }
                },
                None => none(row.far),
            }
        }
    }
}

/// A dictionary literal at `pos`: entries in curly brackets with commas
/// between them; an entry is a key, a colon and an expression; a key is a
/// name, a symbol or a string.
pub open spec fn dict_at(text: Seq<char>, pos: int, far: int) -> Out
    decreases size(text) - pos, 3nat,
{
    if !(0 <= pos < size(text)) {
        none(far)
    } else {
        entries_from(text, pos, Seq::empty(), pos + 1, far)
    }
}

/// The key of an entry of a dictionary literal at `a`.
pub open spec fn key_at(text: Seq<char>, a: int) -> Option<Hit> {
    if word_to(text, a) > a {
        hit_of(text, Rule::Id, a, word_to(text, a), Seq::empty())
    } else if symbol_to(text, a) is Some {
        hit_of(text, Rule::Cat, a, symbol_to(text, a)->0, Seq::empty())
    } else if quoted_to(text, a, 34) is Some {
        hit_of(text, Rule::String, a, quoted_to(text, a, 34)->0, Seq::empty())
    } else {
        None
    }
}

/// The entries of a dictionary literal from `p` on, behind those before.
pub open spec fn entries_from(text: Seq<char>, pos: int, kids: Seq<Tree>, p: int, far: int) -> Out
    decreases size(text) - p, 14nat,
{
    if p < 0 || p > size(text) {
        none(far)
    } else {
        let a = after(text, p);
        if byte(text, a) == 125 {
            built_at(text, Rule::Dict, pos, a + 1, kids, far)
        } else {
            match key_at(text, a) {
                Some(key) => if !(a < key.next <= size(text)) {
                    none(far)
                } else {
                    let colon = expect_at(text, key.next, 58, far);
                    match colon.at {
                        Some(c) => {
                            let value = ahead(exp_at(text, after(text, c), colon.far), c, text);
                            match value.hit {
                                Some(v) => match made(
                                    text,
                                    Rule::KeyValueExp,
                                    a,
                                    v.next,
                                    seq![key.tree, v.tree],
                                ) {
                                    Some(entry) => {
                                        let q = after(text, v.next);
                                        if byte(text, q) == 125 {
                                            built_at(
                                                text,
                                                Rule::Dict,
                                                pos,
                                                q + 1,
                                                kids.push(entry),
                                                value.far,
                                            )
                                        } else if byte(text, q) != 44 {
                                            missed(value.far, q)
                                        } else {
                                            entries_from(text, pos, kids.push(entry), q + 1, value.far)
                                        }
                                    },
                                    None => none(value.far),
                                },
                                None => none(value.far),
                            }
                        },
                        None => none(colon.far),
                    }
                },
                None => missed(far, a),
            }
        }
    }
}

/// A column under a new name at `pos`: the name, which ends at `e`, the sign
/// `=` at `p`, and an operand.
pub open spec fn renamed_at(text: Seq<char>, pos: int, e: int, p: int, far: int) -> Out
    decreases size(text) - pos, 7nat,
{
    if !(0 <= pos < e <= p < size(text)) {
        none(far)
    } else {
        let value = ahead(operand_at(text, after(text, p + 1), true, far), p, text);
        match value.hit {
            Some(v) => match made(text, Rule::SeriesName, pos, e, Seq::empty()) {
                Some(name) => match hit_of(
                    text,
                    Rule::RenameSeriesExp,
                    pos,
                    v.next,
                    seq![name, v.tree],
                ) {
                    Some(r) => Out { hit: wrap(text, Rule::SeriesExp, r), far: value.far },
                    None => none(value.far),
                },
                None => none(value.far),
            },
            None => none(value.far),
        }
    }
}

/// A column at `pos`: a name, `=` and an operand, or an operand; in a node of
/// the rule `SeriesExp`.
pub open spec fn column_at(text: Seq<char>, pos: int, far: int) -> Out
    decreases size(text) - pos, 8nat,
{
    if pos < 0 || pos > size(text) {
        none(far)
    } else {
        let e = word_to(text, pos);
        let p = after(text, e);
        if pos < e <= size(text) && !is_clause_word(text, pos, e) && byte(text, p) == 61 && byte(
            text,
            p + 1,
        ) != 61 {
            renamed_at(text, pos, e, p, far)
        } else {
            wrapped_at(text, Rule::SeriesExp, operand_at(text, pos, true, far))
        }
    }
}

/// Columns side by side, the position behind the last, and the furthest miss.
pub struct Columns {
    pub kids: Seq<Tree>,
    pub end: int,
    pub far: int,
}

/// The columns from `p` on, with commas between them, behind those up to
/// `end`.
pub open spec fn columns_from(text: Seq<char>, kids: Seq<Tree>, end: int, p: int, far: int) -> Columns
    decreases size(text) - p, 14nat,
{
    if p < 0 || p > size(text) {
        Columns { kids, end, far }
    } else {
        let c = ahead(column_at(text, p, far), p, text);
        match c.hit {
            Some(h) => {
                let q = after(text, h.next);
                if byte(text, q) != 44 {
                    Columns { kids: kids.push(h.tree), end: h.next, far: c.far }
                } else {
                    columns_from(text, kids.push(h.tree), h.next, after(text, q + 1), c.far)
                }
            },
            None => Columns { kids, end, far: c.far },
        }
    }
}

/// A dataframe literal at `pos`: `df` and columns in square brackets with
/// commas between them. `open` is the position behind the opening bracket.
pub open spec fn dataframe_at(text: Seq<char>, pos: int, open: int, far: int) -> Out
    decreases size(text) - pos, 3nat,
{
    if !(0 <= pos < open <= size(text)) {
        none(far)
    } else {
        let cols = columns_from(text, Seq::empty(), open, after(text, open), far);
        let q = after(text, cols.end);
        let close = if byte(text, q) == 44 {
            after(text, q + 1)
        } else {
            q
        };
        if byte(text, close) == 93 {
            built_at(text, Rule::Dataframe, pos, close + 1, cols.kids, cols.far)
        } else {
            missed(cols.far, close)
        }
    }
}

/// The clause of a query at `pos` that begins with the word `name` and holds
/// columns.
pub open spec fn column_clause_at(text: Seq<char>, pos: int, name: Seq<char>, rule: Rule, far: int) -> Out
    decreases size(text) - pos, 8nat,
{
    if pos < 0 || pos > size(text) {
        none(far)
    } else {
        match keyword_to(text, pos, name) {
            Some(k) => if !(pos < k <= size(text)) {
                none(far)
            } else {
                let cols = columns_from(text, Seq::empty(), k, after(text, k), far);
                if cols.kids.len() == 0 {
                    built_at(text, rule, pos, k, cols.kids, cols.far)
                } else {
                    built_at(text, rule, pos, cols.end, cols.kids, cols.far)
                }
            },
            None => none(far),
        }
    }
}

/// The names of a clause of a query from `p` on, with commas between them,
/// behind those up to `end`. With `signed`, a name may begin with `-`.
pub open spec fn names_from(
    text: Seq<char>,
    pos: int,
    rule: Rule,
    item: Rule,
    kids: Seq<Tree>,
    end: int,
    p: int,
) -> Option<Hit>
    decreases size(text) - p,
{
    let from = if item == Rule::SortName && byte(text, p) == 45 {
        p + 1
    } else {
        p
    };
    let e = word_to(text, from);
    if p < 0 || from > size(text) || !(from < e <= size(text)) || is_clause_word(text, from, e) {
        hit_of(text, rule, pos, end, kids)
    } else {
        match made(text, item, p, e, Seq::empty()) {
            Some(tree) => {
                let q = after(text, e);
                if byte(text, q) != 44 {
                    hit_of(text, rule, pos, e, kids.push(tree))
                } else {
                    names_from(text, pos, rule, item, kids.push(tree), e, after(text, q + 1))
                }
            },
            None => None,
        }
    }
}

/// The clause of a query at `pos` that begins with the word `name` and holds
/// names with commas between them.
pub open spec fn name_clause_at(text: Seq<char>, pos: int, name: Seq<char>, rule: Rule, item: Rule) -> Option<
    Hit,
> {
    match keyword_to(text, pos, name) {
        Some(k) => names_from(text, pos, rule, item, Seq::empty(), k, after(text, k)),
        None => None,
    }
}

/// The clause of a query at `pos` that begins with the word `name` and holds
/// operands with commas between them, the source one operand, the count one
/// expression.
pub open spec fn operand_clause_at(text: Seq<char>, pos: int, name: Seq<char>, rule: Rule, far: int) -> Out
    decreases size(text) - pos, 8nat,
{
    if pos < 0 || pos > size(text) {
        none(far)
    } else {
        match keyword_to(text, pos, name) {
            Some(k) => if !(pos < k <= size(text)) {
                none(far)
            } else {
                operands_from(text, pos, rule, Seq::empty(), after(text, k), far)
            },
            None => none(far),
        }
    }
}

/// The operands of a clause of a query from `p` on, behind those before.
pub open spec fn operands_from(text: Seq<char>, pos: int, rule: Rule, kids: Seq<Tree>, p: int, far: int) -> Out
    decreases size(text) - p, 14nat,
{
    if p < 0 || p > size(text) {
        none(far)
    } else {
        let part = ahead(
            if rule == Rule::TakeOp {
                exp_at(text, p, far)
            } else {
                operand_at(text, p, true, far)
            },
            p,
            text,
        );
        match part.hit {
            Some(h) => {
                let q = after(text, h.next);
                if rule != Rule::FilterExp || byte(text, q) != 44 {
                    built_at(text, rule, pos, h.next, kids.push(h.tree), part.far)
                } else {
                    operands_from(text, pos, rule, kids.push(h.tree), after(text, q + 1), part.far)
                }
            },
            None => none(part.far),
        }
    }
}

/// A clause that may stand in a query, added to the clauses before: the nodes
/// with it, the position behind it, and the furthest miss; as before where it
/// does not stand there.
pub open spec fn with_clause(q: Columns, o: Out) -> Columns {
    match o.hit {
        Some(h) => Columns { kids: q.kids.push(h.tree), end: h.next, far: o.far },
        None => Columns { far: o.far, ..q },
    }
}

/// The groups of a query at `p`.
pub open spec fn group_at(text: Seq<char>, p: int, far: int) -> Out
    decreases size(text) - p, 9nat,
{
    let a = column_clause_at(text, p, "by"@, Rule::GroupExp, far);
    if a.hit is Some {
        a
    } else {
        let b = column_clause_at(text, p, "dyn"@, Rule::GroupExp, a.far);
        if b.hit is Some {
            b
        } else {
            column_clause_at(text, p, "rolling"@, Rule::GroupExp, b.far)
        }
    }
}

/// The operation of a query at `pos`, with its columns.
pub open spec fn operation_at(text: Seq<char>, pos: int, far: int) -> Out
    decreases size(text) - pos, 9nat,
{
    let s = column_clause_at(text, pos, "select"@, Rule::SelectOp, far);
    if s.hit is Some {
        s
    } else {
        let u = column_clause_at(text, pos, "update"@, Rule::UpdateOp, s.far);
        if u.hit is Some {
            u
        } else {
            Out {
                hit: name_clause_at(text, pos, "delete"@, Rule::DeleteOp, Rule::SeriesName),
                far: u.far,
            }
        }
    }
}

/// A query at `pos`: `select`, `update` or `delete` with its columns, then the
/// groups, the source, the filters, the order and the count, as far as they
/// are there.
pub open spec fn query_at(text: Seq<char>, pos: int, far: int) -> Out
    decreases size(text) - pos, 10nat,
{
    if pos < 0 || pos > size(text) {
        none(far)
    } else {
        let op = ahead(operation_at(text, pos, far), pos, text);
        match op.hit {
            Some(o) => {
                let q0 = Columns { kids: seq![o.tree], end: o.next, far: op.far };
                let q1 = with_clause(
                    q0,
                    ahead(group_at(text, after(text, q0.end), q0.far), q0.end, text),
                );
                let p = after(text, q1.end);
                let from = ahead(
                    operand_clause_at(text, p, "from"@, Rule::FromExp, q1.far),
                    q1.end,
                    text,
                );
                match from.hit {
                    Some(f) => {
                        let q2 = with_clause(q1, from);
                        let q3 = with_clause(
                            q2,
                            ahead(
                                operand_clause_at(
                                    text,
                                    after(text, q2.end),
                                    "where"@,
                                    Rule::FilterExp,
                                    q2.far,
                                ),
                                q2.end,
                                text,
                            ),
                        );
                        let q4 = with_clause(
                            q3,
                            Out {
                                hit: ahead(
                                    Out {
                                        hit: name_clause_at(
                                            text,
                                            after(text, q3.end),
                                            "sort"@,
                                            Rule::SortOp,
                                            Rule::SortName,
                                        ),
                                        far: q3.far,
                                    },
                                    q3.end,
                                    text,
                                ).hit,
                                far: q3.far,
                            },
                        );
                        let q5 = with_clause(
                            q4,
                            ahead(
                                operand_clause_at(
                                    text,
                                    after(text, q4.end),
                                    "take"@,
                                    Rule::TakeOp,
                                    q4.far,
                                ),
                                q4.end,
                                text,
                            ),
                        );
                        built_at(text, Rule::SqlExp, pos, q5.end, q5.kids, q5.far)
                    },
                    None => missed(from.far, p),
                }
            },
            None => none(op.far),
        }
    }
}

/// The nodes of a program, or the position of its syntax error.
pub struct Program {
    pub trees: Option<Seq<Tree>>,
    pub far: int,
}

/// The expressions of a program from `end` on, with semicolons between and
/// around them, behind those before, and the end of the input; or the
/// furthest position at which no rule matched.
pub open spec fn program_from(text: Seq<char>, kids: Seq<Tree>, end: int, far: int) -> Program
    decreases size(text) - end, 14nat,
{
    if end < 0 || end > size(text) {
        Program { trees: None, far }
    } else {
        let p = statement_start(text, end);
        if p >= size(text) {
            match made(text, Rule::EOI, size(text), size(text), Seq::empty()) {
                Some(eoi) => Program { trees: Some(kids.push(eoi)), far },
                None => Program { trees: None, far: size(text) },
            }
        } else {
            let e = ahead(exp_at(text, p, far), p, text);
            match e.hit {
                Some(h) => {
                    let q = after(text, h.next);
                    if q < size(text) && byte(text, q) != 59 {
                        Program { trees: None, far: far_of(e.far, q) }
                    } else {
                        program_from(text, kids.push(h.tree), h.next, e.far)
                    }
                },
                None => Program { trees: None, far: e.far },
            }
        }
    }
}

/// The parse tree of a program: its expressions in order, then the end of the
/// input; or the furthest position at which no rule matched.
pub open spec fn program_of(text: Seq<char>) -> Program {
    program_from(text, Seq::empty(), 0, 0)
}

} // verus!
