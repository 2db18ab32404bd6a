use jasmine::parse;
use jasmine::AstNode;
use jasmine::Cell;
use jasmine::DataFrame;
use jasmine::DataType;
use jasmine::Dict;
use jasmine::ErrorKind;
use jasmine::Series;
use jasmine::J;

fn id(name: &str, start: usize) -> AstNode {
    AstNode::Id { name: name.to_owned(), start, source_id: 0 }
}

fn op(name: &str, start: usize) -> AstNode {
    AstNode::Op { name: name.to_owned(), start, source_id: 0 }
}

fn whole(v: i64) -> AstNode {
    AstNode::J(J::I64(v))
}

fn ints(name: &str, dtype: DataType, values: &[i128]) -> Series {
    Series::new(name.to_owned(), dtype, values.iter().map(|v| Cell::Int(*v)).collect()).unwrap()
}

#[test]
fn assignment_of_a_prefix_over_an_infix_expression() {
    let ast = parse("total = sum 1.0 2.0 * 3", 0).unwrap();
    let series = Series::new(
        String::new(),
        DataType::Float64,
        vec![Cell::Decimal("1.0".to_owned()), Cell::Decimal("2.0".to_owned())],
    )
    .unwrap();
    let expected = AstNode::Assign {
        id: "total".to_owned(),
        exp: Box::new(AstNode::UnaryOp {
            op: Box::new(id("sum", 8)),
            exp: Box::new(AstNode::BinOp {
                op: Box::new(op("*", 20)),
                lhs: Box::new(AstNode::J(J::Series(series))),
                rhs: Box::new(whole(3)),
            }),
        }),
    };
    assert_eq!(ast, vec![expected]);
}

#[test]
fn suffix_of_the_first_token_types_the_series() {
    let ast = parse("qty = 7i16 8 9;", 0).unwrap();
    let expected = AstNode::Assign {
        id: "qty".to_owned(),
        exp: Box::new(AstNode::J(J::Series(ints("", DataType::Int16, &[7, 8, 9])))),
    };
    assert_eq!(ast, vec![expected]);
}

#[test]
fn constant_dataframe_is_folded() {
    let ast = parse("df[sym=`a`b`b, col1=1 2 3]", 0).unwrap();
    let sym = Series::new(
        "sym".to_owned(),
        DataType::Categorical,
        vec![
            Cell::Text("a".to_owned()),
            Cell::Text("b".to_owned()),
            Cell::Text("b".to_owned()),
        ],
    )
    .unwrap();
    let col1 = ints("col1", DataType::Int64, &[1, 2, 3]);
    let frame = DataFrame::new(vec![sym, col1]).unwrap();
    assert_eq!(frame.width(), 2);
    assert_eq!(frame.height(), 3);
    assert_eq!(ast, vec![AstNode::J(J::DataFrame(frame))]);
}

#[test]
fn missing_argument_is_kept_as_a_hole() {
    let ast = parse("f = fn(x,y,z){x+y*z}; f(1, , 9)", 0).unwrap();
    assert_eq!(ast.len(), 2);
    match &ast[0] {
        AstNode::Assign { id, exp } => {
            assert_eq!(id, "f");
            match exp.as_ref() {
                AstNode::Fn { stmts, arg_names, fn_body, start, source_id } => {
                    assert_eq!(arg_names, &vec!["x".to_owned(), "y".to_owned(), "z".to_owned()]);
                    assert_eq!(fn_body, "fn(x,y,z){x+y*z}");
                    assert_eq!(*start, 4);
                    assert_eq!(*source_id, 0);
                    assert_eq!(stmts.len(), 1);
                }
                other => panic!("no function: {:?}", other),
            }
        }
        other => panic!("no assignment: {:?}", other),
    }
    let expected = AstNode::Call {
        f: Box::new(id("f", 22)),
        args: vec![whole(1), AstNode::Skip, whole(9)],
        start: 22,
        source_id: 0,
    };
    assert_eq!(ast[1], expected);
}

#[test]
fn call_without_arguments() {
    let ast = parse("f()", 0).unwrap();
    let expected =
        AstNode::Call { f: Box::new(id("f", 0)), args: vec![], start: 0, source_id: 0 };
    assert_eq!(ast, vec![expected]);
}

#[test]
fn try_and_catch() {
    let ast = parse("try { a = 1 + `a } catch(err) { err == \"type\" }", 0).unwrap();
    let expected = AstNode::Try {
        tries: vec![AstNode::Assign {
            id: "a".to_owned(),
            exp: Box::new(AstNode::BinOp {
                op: Box::new(op("+", 12)),
                lhs: Box::new(whole(1)),
                rhs: Box::new(AstNode::J(J::Cat("a".to_owned()))),
            }),
        }],
        err: "err".to_owned(),
        catches: vec![AstNode::BinOp {
            op: Box::new(op("==", 36)),
            lhs: Box::new(id("err", 32)),
            rhs: Box::new(AstNode::J(J::String("type".to_owned()))),
        }],
    };
    assert_eq!(ast, vec![expected]);
}

#[test]
fn select_with_columns_source_and_filter() {
    let ast = parse("select sum col1+col2, newCol=col2 from t where sym==`a", 0).unwrap();
    let expected = AstNode::Sql {
        op: "select".to_owned(),
        from: Box::new(id("t", 39)),
        filters: vec![AstNode::BinOp {
            op: Box::new(op("==", 50)),
            lhs: Box::new(id("sym", 47)),
            rhs: Box::new(AstNode::J(J::Cat("a".to_owned()))),
        }],
        group_type: "by".to_owned(),
        groups: vec![],
        ops: vec![
            AstNode::UnaryOp {
                op: Box::new(id("sum", 7)),
                exp: Box::new(AstNode::BinOp {
                    op: Box::new(op("+", 15)),
                    lhs: Box::new(id("col1", 11)),
                    rhs: Box::new(id("col2", 16)),
                }),
            },
            AstNode::Series { name: "newCol".to_owned(), exp: Box::new(id("col2", 29)) },
        ],
        sorts: vec![],
        take: Box::new(AstNode::J(J::Null)),
        source_id: 0,
        start: 0,
    };
    assert_eq!(ast, vec![expected]);
}

#[test]
fn colon_for_assignment_gets_a_hint() {
    let e = parse("x:1", 0).unwrap_err();
    assert_eq!(e.kind, ErrorKind::SyntaxError);
    assert_eq!(e.to_string(), "perhaps '='");
    assert_eq!((e.start, e.end), (1, 2));
}

#[test]
fn equals_for_comparison_gets_a_hint() {
    let e = parse("select from t where a = 1", 0).unwrap_err();
    assert_eq!(e.kind, ErrorKind::SyntaxError);
    assert_eq!(e.to_string(), "perhaps '=='");
    assert_eq!((e.start, e.end), (22, 23));
}

#[test]
fn reserved_word_is_no_identifier() {
    let e = parse("order = 3", 0).unwrap_err();
    assert_eq!(e.kind, ErrorKind::ReservedKeyword);
    assert_eq!(e.to_string(), "Keyword cannot be used as identifier: order");
    assert_eq!((e.start, e.end), (0, 5));
    let e = parse("1 + if", 7).unwrap_err();
    assert_eq!(e.kind, ErrorKind::ReservedKeyword);
    let e = parse("x ~select y", 7).unwrap_err();
    assert_eq!(e.kind, ErrorKind::ReservedKeyword);
    assert_eq!(e.to_string(), "Keyword cannot be used as identifier: ~select");
}

#[test]
fn names_in_every_place_are_checked_against_the_reserved_words() {
    for source in [
        "fn(x, while){x}",
        "try { 1 } catch(from) { 2 }",
        "where(1) = 2",
        "df[take = 1 2]",
        "{by: 1}",
    ] {
        let e = parse(source, 3).unwrap_err();
        assert_eq!(e.kind, ErrorKind::ReservedKeyword, "{}", source);
    }
}

#[test]
fn function_body_is_kept_and_reads_as_the_same_statements() {
    let ast = parse("f = fn(x,y){ x - y*2 }", 0).unwrap();
    let (stmts, body) = match &ast[0] {
        AstNode::Assign { exp, .. } => match exp.as_ref() {
            AstNode::Fn { stmts, fn_body, .. } => (stmts.clone(), fn_body.clone()),
            other => panic!("no function: {:?}", other),
        },
        other => panic!("no assignment: {:?}", other),
    };
    assert_eq!(body, "fn(x,y){ x - y*2 }");
    let again = parse(&body, 0).unwrap();
    match &again[0] {
        AstNode::Fn { stmts: second, fn_body, arg_names, .. } => {
            assert_eq!(fn_body, &body);
            assert_eq!(arg_names, &vec!["x".to_owned(), "y".to_owned()]);
            assert_eq!(second.len(), stmts.len());
            assert_eq!(shape(&second[0]), shape(&stmts[0]));
        }
        other => panic!("no function: {:?}", other),
    }
}

fn shape(node: &AstNode) -> String {
    match node {
        AstNode::BinOp { op, lhs, rhs } => {
            format!("({} {} {})", shape(lhs), shape(op), shape(rhs))
        }
        AstNode::Id { name, .. } => name.clone(),
        AstNode::Op { name, .. } => name.clone(),
        AstNode::J(j) => format!("{:?}", j),
        other => format!("{:?}", other),
    }
}

#[test]
fn positions_lie_in_the_source() {
    let source = "a = b + c; f(a, 2)";
    let ast = parse(source, 5).unwrap();
    let expected = vec![
        AstNode::Assign {
            id: "a".to_owned(),
            exp: Box::new(AstNode::BinOp {
                op: Box::new(AstNode::Op { name: "+".to_owned(), start: 6, source_id: 5 }),
                lhs: Box::new(AstNode::Id { name: "b".to_owned(), start: 4, source_id: 5 }),
                rhs: Box::new(AstNode::Id { name: "c".to_owned(), start: 8, source_id: 5 }),
            }),
        },
        AstNode::Call {
            f: Box::new(AstNode::Id { name: "f".to_owned(), start: 11, source_id: 5 }),
            args: vec![AstNode::Id { name: "a".to_owned(), start: 13, source_id: 5 }, whole(2)],
            start: 11,
            source_id: 5,
        },
    ];
    assert_eq!(ast, expected);
    assert_eq!(&source[4..5], "b");
    assert_eq!(&source[11..12], "f");
}

#[test]
fn literals_fold_into_values() {
    let ast = parse("[1, `a, \"x\"]; {a: 1, `b: 2, \"c\": 3, a: 4}; [x, 1]; {k: x}", 0).unwrap();
    assert_eq!(
        ast[0],
        AstNode::J(J::MixedList(vec![
            J::I64(1),
            J::Cat("a".to_owned()),
            J::String("x".to_owned())
        ]))
    );
    let dict = Dict::new(
        vec!["a".to_owned(), "b".to_owned(), "c".to_owned(), "a".to_owned()],
        vec![J::I64(1), J::I64(2), J::I64(3), J::I64(4)],
    );
    assert_eq!(dict.len(), 3);
    assert_eq!(dict.key_at(0).unwrap(), "a");
    assert_eq!(dict.value_at(0).unwrap(), &J::I64(4));
    assert_eq!(dict.key_at(2).unwrap(), "c");
    assert_eq!(dict.get("b"), Some(&J::I64(2)));
    assert_eq!(dict.get("z"), None);
    assert_eq!(ast[1], AstNode::J(J::Dict(dict)));
    assert_eq!(ast[2], AstNode::List(vec![id("x", 44), whole(1)]));
    assert_eq!(
        ast[3],
        AstNode::Dict { keys: vec!["k".to_owned()], values: vec![id("x", 55)] }
    );
}

#[test]
fn list_of_like_scalars_is_a_series() {
    let ast = parse("[1, 2, 3]; [1.5, 2.5]; []", 0).unwrap();
    assert_eq!(ast[0], AstNode::J(J::Series(ints("", DataType::Int64, &[1, 2, 3]))));
    let decimals = Series::new(
        String::new(),
        DataType::Float64,
        vec![Cell::Decimal("1.5".to_owned()), Cell::Decimal("2.5".to_owned())],
    )
    .unwrap();
    assert_eq!(ast[1], AstNode::J(J::Series(decimals)));
    assert_eq!(ast[2], AstNode::J(J::MixedList(vec![])));
}

#[test]
fn dataframe_with_a_name_stays_an_expression() {
    let ast = parse("df[total = qty]", 0).unwrap();
    let expected = AstNode::Dataframe {
        exps: vec![AstNode::Series { name: "total".to_owned(), exp: Box::new(id("qty", 11)) }],
        start: 0,
        source_id: 0,
    };
    assert_eq!(ast, vec![expected]);
    let ast = parse("df[a = 1 2, qty, 3 4]", 0).unwrap();
    let expected = AstNode::Dataframe {
        exps: vec![
            AstNode::J(J::Series(ints("a", DataType::Int64, &[1, 2]))),
            AstNode::Series { name: "series01".to_owned(), exp: Box::new(id("qty", 12)) },
            AstNode::J(J::Series(ints("series02", DataType::Int64, &[3, 4]))),
        ],
        start: 0,
        source_id: 0,
    };
    assert_eq!(ast, vec![expected]);
}

#[test]
fn dataframe_of_unequal_columns_is_refused() {
    let e = parse("df[a = 1 2, b = 1 2 3]", 0).unwrap_err();
    assert_eq!(e.kind, ErrorKind::DataframeShapeError);
    assert_eq!(
        e.to_string(),
        "columns of a table must be of one length, not as 'a' and 'b'"
    );
    assert_eq!((e.start, e.end), (0, 22));
    let e = parse("df[a = 1 2, a = 3 4]", 0).unwrap_err();
    assert_eq!(e.kind, ErrorKind::DataframeShapeError);
    assert_eq!(e.to_string(), "a table cannot hold two columns named 'a'");
}

#[test]
fn matrix_of_numeric_rows() {
    let ast = parse("[[1 2 3, 4 5 6]]", 0).unwrap();
    match &ast[0] {
        AstNode::J(J::Matrix(m)) => {
            assert_eq!(m.shape(), (2, 3));
            assert_eq!(m.row(0).unwrap(), &ints("col00", DataType::Int64, &[1, 2, 3]));
            assert_eq!(m.row(1).unwrap(), &ints("col01", DataType::Int64, &[4, 5, 6]));
            assert!(m.row(2).is_none());
        }
        other => panic!("no matrix: {:?}", other),
    }
    let e = parse("[[1 2, `a`b]]", 0).unwrap_err();
    assert_eq!(e.kind, ErrorKind::MatrixTypeError);
    assert_eq!(e.to_string(), "Requires numeric data type, got 'cat'");
    let e = parse("[[1 2, \"x\"]]", 0).unwrap_err();
    assert_eq!(e.kind, ErrorKind::MatrixTypeError);
    assert_eq!(e.to_string(), "Requires numeric data type, got 'str'");
    let ast = parse("[[1 2, x]]", 0).unwrap();
    match &ast[0] {
        AstNode::Matrix(rows) => assert_eq!(rows.len(), 2),
        other => panic!("no matrix expression: {:?}", other),
    }
}

#[test]
fn blocks_stop_behind_a_return() {
    let ast = parse("if(a){ return 1; b }; while(a){ a = a - 1 }", 0).unwrap();
    assert_eq!(
        ast[0],
        AstNode::If {
            cond: Box::new(id("a", 3)),
            stmts: vec![AstNode::Return(Box::new(whole(1)))],
        }
    );
    match &ast[1] {
        AstNode::While { stmts, .. } => assert_eq!(stmts.len(), 1),
        other => panic!("no loop: {:?}", other),
    }
}

#[test]
fn query_with_groups_order_and_count() {
    let ast = parse("update a = b by sym from t where c > 1, d sort a, -b take 10", 0).unwrap();
    match &ast[0] {
        AstNode::Sql { op, group_type, groups, ops, filters, sorts, take, from, .. } => {
            assert_eq!(op, "update");
            assert_eq!(group_type, "by");
            assert_eq!(groups, &vec![id("sym", 16)]);
            assert_eq!(
                ops,
                &vec![AstNode::Series { name: "a".to_owned(), exp: Box::new(id("b", 11)) }]
            );
            assert_eq!(filters.len(), 2);
            assert_eq!(sorts, &vec![id("a", 47), id("-b", 50)]);
            assert_eq!(take.as_ref(), &whole(10));
            assert_eq!(from.as_ref(), &id("t", 25));
        }
        other => panic!("no query: {:?}", other),
    }
    let ast = parse("select from t; select a dyn b from t; delete a from t", 0).unwrap();
    match (&ast[0], &ast[1], &ast[2]) {
        (
            AstNode::Sql { ops: none, group_type: by, .. },
            AstNode::Sql { group_type: dynamic, .. },
            AstNode::Sql { op, ops, .. },
        ) => {
            assert!(none.is_empty());
            assert_eq!(by, "by");
            assert_eq!(dynamic, "dyn");
            assert_eq!(op, "delete");
            assert_eq!(ops, &vec![id("a", 45)]);
        }
        other => panic!("no queries: {:?}", other),
    }
}

#[test]
fn malformed_literals_are_refused_where_they_stand() {
    let e = parse("x = 99999999999999999999", 0).unwrap_err();
    assert_eq!(e.kind, ErrorKind::LiteralError);
    assert_eq!(e.to_string(), "number too large to fit in target type");
    assert_eq!((e.start, e.end), (4, 24));
    let e = parse("x = 2020-13-01", 0).unwrap_err();
    assert_eq!(e.kind, ErrorKind::LiteralError);
    assert_eq!(e.to_string(), "Not a valid date, 2020-13-01");
    let e = parse("x = 25:00:00", 0).unwrap_err();
    assert_eq!(e.to_string(), "Not a valid time, 25:00:00");
    let e = parse("x = 1 2 3u8", 0).unwrap_err();
    assert_eq!(e.kind, ErrorKind::SeriesTypeError);
    assert_eq!(e.to_string(), "'3u8': invalid digit found in string");
    assert_eq!((e.start, e.end), (4, 11));
}

#[test]
fn scalars_of_every_kind() {
    let ast = parse(
        "true; 0b; 42; -7; 1.5; 2020-01-02; 00:00:01.5; 1D00:00:01; 3h; `sym; \"text\"; null; 0n; 'alt'",
        0,
    )
    .unwrap();
    let values: Vec<J> = ast
        .into_iter()
        .map(|n| match n {
            AstNode::J(j) => j,
            other => panic!("no value: {:?}", other),
        })
        .collect();
    assert_eq!(
        values,
        vec![
            J::Boolean(true),
            J::Boolean(false),
            J::I64(42),
            J::I64(-7),
            J::F64("1.5".to_owned()),
            J::Date(18263),
            J::Time(1_500_000_000),
            J::Duration(86_401_000_000_000),
            J::Duration(10_800_000_000_000),
            J::Cat("sym".to_owned()),
            J::String("text".to_owned()),
            J::Null,
            J::Null,
            J::Cat("alt".to_owned()),
        ]
    );
}
