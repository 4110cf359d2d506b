use luaparse::ast::BinaryOpKind;
use luaparse::ast::Chunk;
use luaparse::ast::Expression;
use luaparse::ast::IdAllocator;
use luaparse::ast::Statement;
use luaparse::ast::UnaryOpKind;
use luaparse::ast::WhileLoop;
use luaparse::token::StringLiteral;
use luaparse::token::Token;
use luaparse::token::TokenKind;

#[test]
fn unary_precedence_is_eleven() {
    assert_eq!(UnaryOpKind::Negate.precedence(), 11);
    assert_eq!(UnaryOpKind::BooleanNot.precedence(), 11);
    assert_eq!(UnaryOpKind::Length.precedence(), 11);
}

#[test]
fn binary_precedence_table() {
    assert_eq!(BinaryOpKind::Concat.precedence(), 8);
    assert_eq!(BinaryOpKind::Add.precedence(), 9);
    assert_eq!(BinaryOpKind::Subtract.precedence(), 9);
    assert_eq!(BinaryOpKind::Multiply.precedence(), 10);
    assert_eq!(BinaryOpKind::Divide.precedence(), 10);
    assert_eq!(BinaryOpKind::Exponent.precedence(), 12);
}

#[test]
fn binary_associativity_table() {
    assert!(BinaryOpKind::Exponent.is_right_associative());
    assert!(BinaryOpKind::Concat.is_right_associative());
    assert!(!BinaryOpKind::Add.is_right_associative());
    assert!(!BinaryOpKind::Subtract.is_right_associative());
    assert!(!BinaryOpKind::Multiply.is_right_associative());
    assert!(!BinaryOpKind::Divide.is_right_associative());
}

#[test]
fn id_allocator_counts_up_from_one() {
    let mut alloc = IdAllocator::new();
    assert_eq!(alloc.gen_id(), Some(1));
    assert_eq!(alloc.gen_id(), Some(2));
    assert_eq!(alloc.gen_id(), Some(3));
}

#[test]
fn id_allocator_refuses_to_wrap() {
    let mut alloc = IdAllocator { next: usize::MAX };
    assert_eq!(alloc.gen_id(), None);
    assert_eq!(alloc.next, usize::MAX);
}

#[test]
fn token_describe_names_kind_and_text() {
    let t = Token { kind: TokenKind::Keyword("do".to_string()), line: 3, column: 7 };
    assert_eq!(t.describe(), "keyword `do`");
    assert_eq!(
        TokenKind::Identifier("x".to_string()).describe(),
        "identifier `x`"
    );
    assert_eq!(TokenKind::Operator(",".to_string()).describe(), "operator `,`");
    assert_eq!(TokenKind::NumberLiteral("4".to_string()).describe(), "number `4`");
    assert_eq!(
        TokenKind::StringLiteral(StringLiteral {
            raw: "\"a\"".to_string(),
            interpreted: "a".to_string()
        })
        .describe(),
        "string literal `\"a\"`"
    );
    assert_eq!(TokenKind::OpenParen.describe(), "`(`");
    assert_eq!(TokenKind::CloseParen.describe(), "`)`");
}

#[test]
fn expression_and_statement_expose_their_ids() {
    let e = Expression::Number { id: 41, value: "7".to_string() };
    assert_eq!(e.id(), 41);
    let s = Statement::WhileLoop {
        id: 42,
        value: WhileLoop { condition: e, body: Chunk { statements: vec![] } },
    };
    assert_eq!(s.id(), 42);
}
