use luaparse::ast::BinaryOpKind;
use luaparse::ast::Chunk;
use luaparse::ast::Expression;
use luaparse::ast::IdAllocator;
use luaparse::ast::Statement;
use luaparse::ast::TableKey;
use luaparse::ast::UnaryOpKind;
use luaparse::parser::parse_chunk;
use luaparse::parser::parse_expression;
use luaparse::parser::parse_from_tokens;
use luaparse::parser::ParseState;
use luaparse::token::StringLiteral;
use luaparse::token::Token;
use luaparse::token::TokenKind;

fn tok(kind: TokenKind) -> Token {
    Token { kind, line: 1, column: 1 }
}

fn kw(s: &str) -> Token {
    tok(TokenKind::Keyword(s.to_string()))
}

fn op(s: &str) -> Token {
    tok(TokenKind::Operator(s.to_string()))
}

fn ident(s: &str) -> Token {
    tok(TokenKind::Identifier(s.to_string()))
}

fn num(s: &str) -> Token {
    tok(TokenKind::NumberLiteral(s.to_string()))
}

fn strlit(s: &str) -> Token {
    tok(TokenKind::StringLiteral(StringLiteral {
        raw: format!("\"{}\"", s),
        interpreted: s.to_string(),
    }))
}

fn oparen() -> Token {
    tok(TokenKind::OpenParen)
}

fn cparen() -> Token {
    tok(TokenKind::CloseParen)
}

fn parse(tokens: Vec<Token>) -> Result<Chunk, String> {
    let mut alloc = IdAllocator::new();
    parse_from_tokens(&tokens, &mut alloc)
}

fn number_text(e: &Expression) -> &str {
    match e {
        Expression::Number { value, .. } => value,
        other => panic!("expected a number, got {:?}", other),
    }
}

#[test]
fn local_assignment_one_name_one_value() {
    let chunk = parse(vec![kw("local"), ident("x"), op("="), num("1")]).unwrap();
    assert_eq!(chunk.statements.len(), 1);
    match &chunk.statements[0] {
        Statement::LocalAssignment { value, .. } => {
            assert_eq!(value.names, vec!["x".to_string()]);
            assert_eq!(value.values.len(), 1);
            assert_eq!(number_text(&value.values[0]), "1");
        },
        other => panic!("expected a local assignment, got {:?}", other),
    }
}

#[test]
fn local_assignment_parallel() {
    let chunk = parse(vec![
        kw("local"),
        ident("x"),
        op(","),
        ident("y"),
        op("="),
        num("1"),
        op(","),
        num("2"),
    ])
    .unwrap();
    match &chunk.statements[0] {
        Statement::LocalAssignment { value, .. } => {
            assert_eq!(value.names, vec!["x".to_string(), "y".to_string()]);
            assert_eq!(value.values.len(), 2);
        },
        other => panic!("expected a local assignment, got {:?}", other),
    }
}

#[test]
fn local_assignment_arity_mismatch_is_not_checked() {
    // Name and value counts are independent; reconciling them is a runtime
    // concern, not the parser's.
    let chunk = parse(vec![kw("local"), ident("x"), op(","), ident("y"), op("="), num("1")])
        .unwrap();
    match &chunk.statements[0] {
        Statement::LocalAssignment { value, .. } => {
            assert_eq!(value.names.len(), 2);
            assert_eq!(value.values.len(), 1);
        },
        other => panic!("expected a local assignment, got {:?}", other),
    }
}

#[test]
fn exhausted_id_space_is_a_committed_error() {
    let mut alloc = IdAllocator { next: usize::MAX };
    let tokens = vec![kw("local"), ident("x"), op("="), num("1")];
    let err = parse_from_tokens(&tokens, &mut alloc).unwrap_err();
    assert!(err.contains("id space is exhausted"), "{}", err);
}

#[test]
fn local_assignment_without_values() {
    let chunk = parse(vec![kw("local"), ident("x")]).unwrap();
    match &chunk.statements[0] {
        Statement::LocalAssignment { value, .. } => {
            assert_eq!(value.names, vec!["x".to_string()]);
            assert!(value.values.is_empty());
        },
        other => panic!("expected a local assignment, got {:?}", other),
    }
}

fn sole_local_value(chunk: &Chunk) -> &Expression {
    match &chunk.statements[0] {
        Statement::LocalAssignment { value, .. } => &value.values[0],
        other => panic!("expected a local assignment, got {:?}", other),
    }
}

#[test]
fn multiplication_binds_tighter_than_addition() {
    // 1 + 2 * 3 parses as 1 + (2 * 3)
    let chunk = parse(vec![
        kw("local"),
        ident("r"),
        op("="),
        num("1"),
        op("+"),
        num("2"),
        op("*"),
        num("3"),
    ])
    .unwrap();
    match sole_local_value(&chunk) {
        Expression::BinaryOp { value, .. } => {
            assert_eq!(value.operator, BinaryOpKind::Add);
            assert_eq!(number_text(&value.left), "1");
            match &*value.right {
                Expression::BinaryOp { value: inner, .. } => {
                    assert_eq!(inner.operator, BinaryOpKind::Multiply);
                    assert_eq!(number_text(&inner.left), "2");
                    assert_eq!(number_text(&inner.right), "3");
                },
                other => panic!("expected a multiplication, got {:?}", other),
            }
        },
        other => panic!("expected an addition, got {:?}", other),
    }
}

#[test]
fn exponent_is_right_associative() {
    // 2 ^ 3 ^ 2 parses as 2 ^ (3 ^ 2)
    let chunk = parse(vec![
        kw("local"),
        ident("r"),
        op("="),
        num("2"),
        op("^"),
        num("3"),
        op("^"),
        num("2"),
    ])
    .unwrap();
    match sole_local_value(&chunk) {
        Expression::BinaryOp { value, .. } => {
            assert_eq!(value.operator, BinaryOpKind::Exponent);
            assert_eq!(number_text(&value.left), "2");
            match &*value.right {
                Expression::BinaryOp { value: inner, .. } => {
                    assert_eq!(inner.operator, BinaryOpKind::Exponent);
                    assert_eq!(number_text(&inner.left), "3");
                    assert_eq!(number_text(&inner.right), "2");
                },
                other => panic!("expected a right-nested exponent, got {:?}", other),
            }
        },
        other => panic!("expected an exponent, got {:?}", other),
    }
}

#[test]
fn subtraction_is_left_associative() {
    // 1 - 2 - 3 parses as (1 - 2) - 3
    let chunk = parse(vec![
        kw("local"),
        ident("r"),
        op("="),
        num("1"),
        op("-"),
        num("2"),
        op("-"),
        num("3"),
    ])
    .unwrap();
    match sole_local_value(&chunk) {
        Expression::BinaryOp { value, .. } => {
            assert_eq!(value.operator, BinaryOpKind::Subtract);
            assert_eq!(number_text(&value.right), "3");
            match &*value.left {
                Expression::BinaryOp { value: inner, .. } => {
                    assert_eq!(inner.operator, BinaryOpKind::Subtract);
                    assert_eq!(number_text(&inner.left), "1");
                    assert_eq!(number_text(&inner.right), "2");
                },
                other => panic!("expected a left-nested subtraction, got {:?}", other),
            }
        },
        other => panic!("expected a subtraction, got {:?}", other),
    }
}

#[test]
fn concat_is_right_associative() {
    // 1 .. 2 .. 3 parses as 1 .. (2 .. 3)
    let chunk = parse(vec![
        kw("local"),
        ident("r"),
        op("="),
        num("1"),
        op(".."),
        num("2"),
        op(".."),
        num("3"),
    ])
    .unwrap();
    match sole_local_value(&chunk) {
        Expression::BinaryOp { value, .. } => {
            assert_eq!(value.operator, BinaryOpKind::Concat);
            assert!(matches!(&*value.right, Expression::BinaryOp { .. }));
        },
        other => panic!("expected a concatenation, got {:?}", other),
    }
}

fn positional_table_texts(chunk: &Chunk) -> Vec<String> {
    match sole_local_value(chunk) {
        Expression::Table { value, .. } => value
            .items
            .iter()
            .map(|(key, v)| {
                assert!(key.is_none());
                number_text(v).to_string()
            })
            .collect(),
        other => panic!("expected a table literal, got {:?}", other),
    }
}

#[test]
fn table_trailing_separator_is_immaterial() {
    // {1,2,3,} and {1,2,3} give the same three positional entries.
    let with_trailing = parse(vec![
        kw("local"),
        ident("t"),
        op("="),
        op("{"),
        num("1"),
        op(","),
        num("2"),
        op(","),
        num("3"),
        op(","),
        op("}"),
    ])
    .unwrap();
    let without_trailing = parse(vec![
        kw("local"),
        ident("t"),
        op("="),
        op("{"),
        num("1"),
        op(","),
        num("2"),
        op(","),
        num("3"),
        op("}"),
    ])
    .unwrap();
    let a = positional_table_texts(&with_trailing);
    let b = positional_table_texts(&without_trailing);
    assert_eq!(a, vec!["1".to_string(), "2".to_string(), "3".to_string()]);
    assert_eq!(a, b);
}

#[test]
fn table_mixed_entries_keep_source_order() {
    // {x=1, [2+2]=2, 3}
    let chunk = parse(vec![
        kw("local"),
        ident("t"),
        op("="),
        op("{"),
        ident("x"),
        op("="),
        num("1"),
        op(","),
        op("["),
        num("2"),
        op("+"),
        num("2"),
        op("]"),
        op("="),
        num("2"),
        op(","),
        num("3"),
        op("}"),
    ])
    .unwrap();
    match sole_local_value(&chunk) {
        Expression::Table { value, .. } => {
            assert_eq!(value.items.len(), 3);
            match &value.items[0].0 {
                Some(TableKey::Name(n)) => assert_eq!(n, "x"),
                other => panic!("expected a name key, got {:?}", other),
            }
            assert_eq!(number_text(&value.items[0].1), "1");
            match &value.items[1].0 {
                Some(TableKey::Expression(Expression::BinaryOp { value: b, .. })) => {
                    assert_eq!(b.operator, BinaryOpKind::Add);
                    assert_eq!(number_text(&b.left), "2");
                    assert_eq!(number_text(&b.right), "2");
                },
                other => panic!("expected a computed key, got {:?}", other),
            }
            assert_eq!(number_text(&value.items[1].1), "2");
            assert!(value.items[2].0.is_none());
            assert_eq!(number_text(&value.items[2].1), "3");
        },
        other => panic!("expected a table literal, got {:?}", other),
    }
}

#[test]
fn table_accepts_semicolon_separators() {
    let chunk = parse(vec![
        kw("local"),
        ident("t"),
        op("="),
        op("{"),
        num("1"),
        op(";"),
        num("2"),
        op(","),
        num("3"),
        op("}"),
    ])
    .unwrap();
    assert_eq!(
        positional_table_texts(&chunk),
        vec!["1".to_string(), "2".to_string(), "3".to_string()]
    );
}

#[test]
fn numeric_for_with_extra_bound_is_a_committed_error() {
    // for i=1,2,3,4 do end: `for` has committed, so this is an Error that
    // names the production and the offending token, not a silent no-match.
    let err = parse(vec![
        kw("for"),
        ident("i"),
        op("="),
        num("1"),
        op(","),
        num("2"),
        op(","),
        num("3"),
        op(","),
        num("4"),
        kw("do"),
        kw("end"),
    ])
    .unwrap_err();
    assert!(err.contains("expected `do` after the numeric-for bounds"), "{}", err);
    assert!(err.contains("operator `,`"), "{}", err);
    assert_ne!(err, "No error reported");
}

#[test]
fn empty_token_stream_is_an_empty_chunk() {
    let chunk = parse(vec![]).unwrap();
    assert_eq!(chunk, Chunk { statements: vec![] });
}

#[test]
fn stray_trailing_token_fails_naming_it() {
    let err = parse(vec![kw("local"), ident("x"), op("="), num("1"), cparen()]).unwrap_err();
    assert!(err.contains("A token was left at the end of the stream"), "{}", err);
    assert!(err.contains("`)`"), "{}", err);
}

fn collect_expr_ids(e: &Expression, out: &mut Vec<usize>) {
    match e {
        Expression::Nil { id } => out.push(*id),
        Expression::Bool { id, .. } => out.push(*id),
        Expression::Number { id, .. } => out.push(*id),
        Expression::String { id, .. } => out.push(*id),
        Expression::VarArg { id } => out.push(*id),
        Expression::Table { id, value } => {
            out.push(*id);
            for (key, v) in &value.items {
                if let Some(TableKey::Expression(k)) = key {
                    collect_expr_ids(k, out);
                }
                collect_expr_ids(v, out);
            }
        },
        Expression::FunctionCall { id, value } => {
            out.push(*id);
            collect_expr_ids(&value.name_expression, out);
            for a in &value.arguments {
                collect_expr_ids(a, out);
            }
        },
        Expression::Name { id, .. } => out.push(*id),
        Expression::ParenExpression { id, value } => {
            out.push(*id);
            collect_expr_ids(value, out);
        },
        Expression::UnaryOp { id, value } => {
            out.push(*id);
            collect_expr_ids(&value.argument, out);
        },
        Expression::BinaryOp { id, value } => {
            out.push(*id);
            collect_expr_ids(&value.left, out);
            collect_expr_ids(&value.right, out);
        },
    }
}

fn collect_chunk_ids(c: &Chunk, out: &mut Vec<usize>) {
    for s in &c.statements {
        collect_stmt_ids(s, out);
    }
}

fn collect_stmt_ids(s: &Statement, out: &mut Vec<usize>) {
    match s {
        Statement::Assignment { id, value } => {
            out.push(*id);
            for v in &value.values {
                collect_expr_ids(v, out);
            }
        },
        Statement::LocalAssignment { id, value } => {
            out.push(*id);
            for v in &value.values {
                collect_expr_ids(v, out);
            }
        },
        Statement::FunctionCall { id, value } => {
            out.push(*id);
            collect_expr_ids(&value.name_expression, out);
            for a in &value.arguments {
                collect_expr_ids(a, out);
            }
        },
        Statement::NumericFor { id, value } => {
            out.push(*id);
            collect_expr_ids(&value.start, out);
            collect_expr_ids(&value.end, out);
            if let Some(step) = &value.step {
                collect_expr_ids(step, out);
            }
            collect_chunk_ids(&value.body, out);
        },
        Statement::GenericFor { id, value } => {
            out.push(*id);
            for v in &value.item_source {
                collect_expr_ids(v, out);
            }
            collect_chunk_ids(&value.body, out);
        },
        Statement::IfStatement { id, value } => {
            out.push(*id);
            collect_expr_ids(&value.condition, out);
            collect_chunk_ids(&value.body, out);
            for (c, b) in &value.else_if_branches {
                collect_expr_ids(c, out);
                collect_chunk_ids(b, out);
            }
            if let Some(b) = &value.else_branch {
                collect_chunk_ids(b, out);
            }
        },
        Statement::WhileLoop { id, value } => {
            out.push(*id);
            collect_expr_ids(&value.condition, out);
            collect_chunk_ids(&value.body, out);
        },
        Statement::RepeatLoop { id, value } => {
            out.push(*id);
            collect_expr_ids(&value.condition, out);
            collect_chunk_ids(&value.body, out);
        },
        Statement::FunctionDeclaration { id, value } => {
            out.push(*id);
            collect_chunk_ids(&value.body, out);
        },
    }
}

fn rich_program() -> Vec<Token> {
    // local t = {x=1, [2+2]=2, 3} ; while 1 do f(1, 2) end
    vec![
        kw("local"),
        ident("t"),
        op("="),
        op("{"),
        ident("x"),
        op("="),
        num("1"),
        op(","),
        op("["),
        num("2"),
        op("+"),
        num("2"),
        op("]"),
        op("="),
        num("2"),
        op(","),
        num("3"),
        op("}"),
        kw("while"),
        num("1"),
        kw("do"),
        ident("f"),
        oparen(),
        num("1"),
        op(","),
        num("2"),
        cparen(),
        kw("end"),
    ]
}

#[test]
fn ids_within_one_parse_are_pairwise_distinct() {
    let mut alloc = IdAllocator::new();
    let tokens = rich_program();
    let chunk = parse_from_tokens(&tokens, &mut alloc).unwrap();
    let mut ids: Vec<usize> = Vec::new();
    collect_chunk_ids(&chunk, &mut ids);
    assert!(ids.len() > 5);
    let mut sorted = ids.clone();
    sorted.sort();
    sorted.dedup();
    assert_eq!(sorted.len(), ids.len(), "duplicate ids in {:?}", ids);
}

#[test]
fn id_consumption_is_a_function_of_the_input() {
    // The same token stream draws the same number of ids wherever the
    // allocator starts.
    let tokens = rich_program();
    let mut a1 = IdAllocator::new();
    parse_from_tokens(&tokens, &mut a1).unwrap();
    let mut a2 = IdAllocator { next: 500 };
    parse_from_tokens(&tokens, &mut a2).unwrap();
    assert_eq!(a1.next - 1, a2.next - 500);
}

#[test]
fn ids_of_two_sequential_parses_never_overlap() {
    let mut alloc = IdAllocator::new();
    let tokens = rich_program();
    let first = parse_from_tokens(&tokens, &mut alloc).unwrap();
    let second = parse_from_tokens(&tokens, &mut alloc).unwrap();
    let mut a: Vec<usize> = Vec::new();
    let mut b: Vec<usize> = Vec::new();
    collect_chunk_ids(&first, &mut a);
    collect_chunk_ids(&second, &mut b);
    for id in &a {
        assert!(!b.contains(id), "id {} issued twice", id);
    }
}

#[test]
fn while_loop_shape() {
    let chunk = parse(vec![
        kw("while"),
        num("1"),
        kw("do"),
        kw("local"),
        ident("x"),
        op("="),
        num("2"),
        kw("end"),
    ])
    .unwrap();
    match &chunk.statements[0] {
        Statement::WhileLoop { value, .. } => {
            assert_eq!(number_text(&value.condition), "1");
            assert_eq!(value.body.statements.len(), 1);
        },
        other => panic!("expected a while loop, got {:?}", other),
    }
}

#[test]
fn while_loop_missing_do_errors() {
    let err = parse(vec![kw("while"), num("1"), op("{"), op("}"), kw("end")]).unwrap_err();
    assert!(err.contains("expected `do` after the while condition"), "{}", err);
    assert!(err.contains("operator `{`"), "{}", err);
}

#[test]
fn repeat_loop_shape() {
    let chunk = parse(vec![
        kw("repeat"),
        ident("f"),
        oparen(),
        cparen(),
        kw("until"),
        num("0"),
    ])
    .unwrap();
    match &chunk.statements[0] {
        Statement::RepeatLoop { value, .. } => {
            assert_eq!(value.body.statements.len(), 1);
            assert_eq!(number_text(&value.condition), "0");
        },
        other => panic!("expected a repeat loop, got {:?}", other),
    }
}

#[test]
fn if_statement_with_elseif_and_else() {
    let chunk = parse(vec![
        kw("if"),
        num("1"),
        kw("then"),
        kw("elseif"),
        num("2"),
        kw("then"),
        kw("elseif"),
        num("3"),
        kw("then"),
        kw("else"),
        kw("local"),
        ident("x"),
        kw("end"),
    ])
    .unwrap();
    match &chunk.statements[0] {
        Statement::IfStatement { value, .. } => {
            assert_eq!(number_text(&value.condition), "1");
            assert_eq!(value.else_if_branches.len(), 2);
            assert_eq!(number_text(&value.else_if_branches[0].0), "2");
            assert_eq!(number_text(&value.else_if_branches[1].0), "3");
            assert!(value.else_branch.is_some());
            assert_eq!(value.else_branch.as_ref().unwrap().statements.len(), 1);
        },
        other => panic!("expected an if statement, got {:?}", other),
    }
}

#[test]
fn if_statement_missing_then_errors() {
    let err = parse(vec![kw("if"), num("1"), kw("end")]).unwrap_err();
    assert!(err.contains("expected `then` after the if condition"), "{}", err);
}

#[test]
fn numeric_for_without_step() {
    let chunk = parse(vec![
        kw("for"),
        ident("i"),
        op("="),
        num("1"),
        op(","),
        num("2"),
        kw("do"),
        kw("end"),
    ])
    .unwrap();
    match &chunk.statements[0] {
        Statement::NumericFor { value, .. } => {
            assert_eq!(value.var, "i");
            assert_eq!(number_text(&value.start), "1");
            assert_eq!(number_text(&value.end), "2");
            assert!(value.step.is_none());
            assert!(value.body.statements.is_empty());
        },
        other => panic!("expected a numeric for, got {:?}", other),
    }
}

#[test]
fn numeric_for_with_step() {
    let chunk = parse(vec![
        kw("for"),
        ident("i"),
        op("="),
        num("1"),
        op(","),
        num("2"),
        op(","),
        num("3"),
        kw("do"),
        kw("end"),
    ])
    .unwrap();
    match &chunk.statements[0] {
        Statement::NumericFor { value, .. } => {
            assert_eq!(number_text(value.step.as_ref().unwrap()), "3");
        },
        other => panic!("expected a numeric for, got {:?}", other),
    }
}

#[test]
fn generic_for_shape() {
    let chunk = parse(vec![
        kw("for"),
        ident("k"),
        op(","),
        ident("v"),
        kw("in"),
        ident("pairs"),
        oparen(),
        ident("t"),
        cparen(),
        kw("do"),
        kw("end"),
    ])
    .unwrap();
    match &chunk.statements[0] {
        Statement::GenericFor { value, .. } => {
            assert_eq!(value.vars, vec!["k".to_string(), "v".to_string()]);
            assert_eq!(value.item_source.len(), 1);
            assert!(matches!(&value.item_source[0], Expression::FunctionCall { .. }));
        },
        other => panic!("expected a generic for, got {:?}", other),
    }
}

#[test]
fn function_declaration_shape() {
    let chunk = parse(vec![
        kw("function"),
        ident("f"),
        oparen(),
        ident("a"),
        op(","),
        ident("b"),
        cparen(),
        kw("end"),
    ])
    .unwrap();
    match &chunk.statements[0] {
        Statement::FunctionDeclaration { value, .. } => {
            assert_eq!(value.name, "f");
            assert_eq!(value.parameters, vec!["a".to_string(), "b".to_string()]);
            assert!(!value.local);
            assert!(value.body.statements.is_empty());
        },
        other => panic!("expected a function declaration, got {:?}", other),
    }
}

#[test]
fn local_function_declaration() {
    let chunk = parse(vec![
        kw("local"),
        kw("function"),
        ident("f"),
        oparen(),
        cparen(),
        kw("local"),
        ident("x"),
        kw("end"),
    ])
    .unwrap();
    match &chunk.statements[0] {
        Statement::FunctionDeclaration { value, .. } => {
            assert_eq!(value.name, "f");
            assert!(value.local);
            assert!(value.parameters.is_empty());
            assert_eq!(value.body.statements.len(), 1);
        },
        other => panic!("expected a function declaration, got {:?}", other),
    }
}

#[test]
fn function_call_statement() {
    let chunk = parse(vec![ident("f"), oparen(), num("1"), op(","), num("2"), cparen()]).unwrap();
    match &chunk.statements[0] {
        Statement::FunctionCall { value, .. } => {
            match &*value.name_expression {
                Expression::Name { value: n, .. } => assert_eq!(n, "f"),
                other => panic!("expected a name, got {:?}", other),
            }
            assert_eq!(value.arguments.len(), 2);
        },
        other => panic!("expected a call statement, got {:?}", other),
    }
}

#[test]
fn function_call_expression() {
    let chunk = parse(vec![
        kw("local"),
        ident("y"),
        op("="),
        ident("f"),
        oparen(),
        num("3"),
        cparen(),
    ])
    .unwrap();
    match sole_local_value(&chunk) {
        Expression::FunctionCall { value, .. } => {
            assert_eq!(value.arguments.len(), 1);
        },
        other => panic!("expected a call expression, got {:?}", other),
    }
}

#[test]
fn unary_operators_nest() {
    // -#x parses as Negate(Length(x))
    let chunk = parse(vec![kw("local"), ident("n"), op("="), op("-"), op("#"), ident("x")])
        .unwrap();
    match sole_local_value(&chunk) {
        Expression::UnaryOp { value, .. } => {
            assert_eq!(value.operator, UnaryOpKind::Negate);
            match &*value.argument {
                Expression::UnaryOp { value: inner, .. } => {
                    assert_eq!(inner.operator, UnaryOpKind::Length);
                    assert!(matches!(&*inner.argument, Expression::Name { .. }));
                },
                other => panic!("expected a length operator, got {:?}", other),
            }
        },
        other => panic!("expected a negation, got {:?}", other),
    }
}

#[test]
fn not_is_a_unary_operator() {
    let chunk = parse(vec![kw("local"), ident("n"), op("="), kw("not"), kw("true")]).unwrap();
    match sole_local_value(&chunk) {
        Expression::UnaryOp { value, .. } => {
            assert_eq!(value.operator, UnaryOpKind::BooleanNot);
            assert!(matches!(&*value.argument, Expression::Bool { value: true, .. }));
        },
        other => panic!("expected a boolean not, got {:?}", other),
    }
}

#[test]
fn unary_applies_to_the_operand_that_follows() {
    // A unary operator takes the primary/unary expression after it as its
    // argument; a binary operator then climbs from there, so - 2 ^ 2 is
    // (-2) ^ 2.
    let chunk = parse(vec![
        kw("local"),
        ident("r"),
        op("="),
        op("-"),
        num("2"),
        op("^"),
        num("2"),
    ])
    .unwrap();
    match sole_local_value(&chunk) {
        Expression::BinaryOp { value, .. } => {
            assert_eq!(value.operator, BinaryOpKind::Exponent);
            match &*value.left {
                Expression::UnaryOp { value: inner, .. } => {
                    assert_eq!(inner.operator, UnaryOpKind::Negate);
                    assert_eq!(number_text(&inner.argument), "2");
                },
                other => panic!("expected a negation, got {:?}", other),
            }
        },
        other => panic!("expected an exponent, got {:?}", other),
    }
}

#[test]
fn unary_operand_in_a_right_hand_side() {
    // 2 ^ -3 parses as 2 ^ (-3).
    let chunk = parse(vec![
        kw("local"),
        ident("r"),
        op("="),
        num("2"),
        op("^"),
        op("-"),
        num("3"),
    ])
    .unwrap();
    match sole_local_value(&chunk) {
        Expression::BinaryOp { value, .. } => {
            assert_eq!(value.operator, BinaryOpKind::Exponent);
            assert!(matches!(&*value.right, Expression::UnaryOp { .. }));
        },
        other => panic!("expected an exponent, got {:?}", other),
    }
}

#[test]
fn parentheses_are_kept_as_a_node() {
    // (1 + 2) * 3
    let chunk = parse(vec![
        kw("local"),
        ident("p"),
        op("="),
        oparen(),
        num("1"),
        op("+"),
        num("2"),
        cparen(),
        op("*"),
        num("3"),
    ])
    .unwrap();
    match sole_local_value(&chunk) {
        Expression::BinaryOp { value, .. } => {
            assert_eq!(value.operator, BinaryOpKind::Multiply);
            match &*value.left {
                Expression::ParenExpression { value: inner, .. } => {
                    assert!(matches!(&**inner, Expression::BinaryOp { .. }));
                },
                other => panic!("expected a parenthesised expression, got {:?}", other),
            }
            assert_eq!(number_text(&value.right), "3");
        },
        other => panic!("expected a multiplication, got {:?}", other),
    }
}

#[test]
fn literal_expressions() {
    let chunk = parse(vec![
        kw("local"),
        ident("a"),
        op(","),
        ident("b"),
        op(","),
        ident("c"),
        op(","),
        ident("d"),
        op("="),
        kw("nil"),
        op(","),
        kw("false"),
        op(","),
        strlit("hi"),
        op(","),
        op("..."),
    ])
    .unwrap();
    match &chunk.statements[0] {
        Statement::LocalAssignment { value, .. } => {
            assert!(matches!(&value.values[0], Expression::Nil { .. }));
            assert!(matches!(&value.values[1], Expression::Bool { value: false, .. }));
            match &value.values[2] {
                Expression::String { value: s, .. } => {
                    assert_eq!(s.interpreted, "hi");
                    assert_eq!(s.raw, "\"hi\"");
                },
                other => panic!("expected a string literal, got {:?}", other),
            }
            assert!(matches!(&value.values[3], Expression::VarArg { .. }));
        },
        other => panic!("expected a local assignment, got {:?}", other),
    }
}

#[test]
fn local_without_name_errors() {
    let err = parse(vec![kw("local"), num("5")]).unwrap_err();
    assert!(err.contains("expected a name after `local`"), "{}", err);
    assert!(err.contains("number `5`"), "{}", err);
}

#[test]
fn for_without_name_errors() {
    let err = parse(vec![kw("for"), num("5")]).unwrap_err();
    assert!(err.contains("expected a name after `for`"), "{}", err);
}

#[test]
fn dangling_comma_in_call_errors() {
    let err = parse(vec![ident("f"), oparen(), num("1"), op(","), cparen()]).unwrap_err();
    assert!(err.contains("expected an expression after `,`"), "{}", err);
}

#[test]
fn unclosed_parenthesis_errors_at_end_of_stream() {
    let err = parse(vec![kw("local"), ident("x"), op("="), oparen(), num("1")]).unwrap_err();
    assert!(
        err.contains("expected `)` to close the parenthesised expression"),
        "{}",
        err
    );
    assert!(err.contains("end of stream"), "{}", err);
}

#[test]
fn missing_value_after_equals_errors() {
    let err = parse(vec![kw("local"), ident("x"), op("=")]).unwrap_err();
    assert!(err.contains("expected an expression after `=`"), "{}", err);
}

#[test]
fn pathological_paren_nesting_fails_with_a_dedicated_error() {
    let mut toks = vec![kw("local"), ident("x"), op("=")];
    for _ in 0..250 {
        toks.push(oparen());
    }
    toks.push(num("1"));
    for _ in 0..250 {
        toks.push(cparen());
    }
    let err = parse(toks).unwrap_err();
    assert!(err.contains("nests deeper"), "{}", err);
}

#[test]
fn moderate_paren_nesting_parses() {
    let mut toks = vec![kw("local"), ident("x"), op("=")];
    for _ in 0..50 {
        toks.push(oparen());
    }
    toks.push(num("1"));
    for _ in 0..50 {
        toks.push(cparen());
    }
    assert!(parse(toks).is_ok());
}

#[test]
fn pathological_statement_nesting_fails_with_a_dedicated_error() {
    let mut toks = Vec::new();
    for _ in 0..250 {
        toks.push(kw("while"));
        toks.push(num("1"));
        toks.push(kw("do"));
    }
    for _ in 0..250 {
        toks.push(kw("end"));
    }
    let err = parse(toks).unwrap_err();
    assert!(err.contains("nests deeper"), "{}", err);
}

#[test]
fn cursor_is_immutable_under_advance() {
    let toks = vec![num("1"), op("+")];
    let s = ParseState::new(&toks);
    assert!(matches!(s.peek().unwrap().kind, TokenKind::NumberLiteral(_)));
    let s2 = s.advance(1);
    assert_eq!(s.position, 0, "the original cursor must be untouched");
    assert_eq!(s2.position, 1);
    assert!(matches!(s2.peek().unwrap().kind, TokenKind::Operator(_)));
    assert!(s2.advance(1).peek().is_none());
}

#[test]
fn expression_entry_point_stops_before_foreign_token() {
    let toks = vec![num("1"), op("+"), num("2"), kw("do")];
    let mut alloc = IdAllocator::new();
    let (s2, e) = parse_expression(ParseState::new(&toks), &mut alloc).unwrap();
    assert_eq!(s2.position, 3);
    assert!(matches!(e, Expression::BinaryOp { .. }));
}

#[test]
fn chunk_stops_at_closing_keyword() {
    // A chunk leaves `end` for the enclosing construct instead of failing.
    let toks = vec![kw("local"), ident("x"), op("="), num("1"), kw("end")];
    let mut alloc = IdAllocator::new();
    let (s2, chunk) = parse_chunk(ParseState::new(&toks), &mut alloc).unwrap();
    assert_eq!(s2.position, 4);
    assert_eq!(chunk.statements.len(), 1);
}

#[test]
fn generic_for_missing_in_errors() {
    let err = parse(vec![kw("for"), ident("k"), op(","), ident("v"), kw("do")]).unwrap_err();
    assert!(err.contains("expected `in` after the generic-for names"), "{}", err);
}
