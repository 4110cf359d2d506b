use vstd::prelude::*;

use crate::ast::BinaryOpKind;
use crate::ast::Chunk;
use crate::ast::Expression;
use crate::ast::FunctionCall;
use crate::ast::Statement;
use crate::ast::TableKey;
use crate::ast::TableLiteral;
use crate::ast::UnaryOpKind;
use crate::ast::spec_precedence;
use crate::ast::spec_right_associative;
use crate::parser::MAX_NESTING_DEPTH;
use crate::parser::spec_binop_at;
use crate::parser::spec_unop_at;
use crate::token::Token;
use crate::token::TokenKind;
use crate::token::tok_close_paren;
use crate::token::tok_identifier;
use crate::token::tok_keyword;
use crate::token::tok_number;
use crate::token::tok_open_paren;
use crate::token::tok_operator;
use crate::token::tok_string;

verus! {

// The mathematical model of the grammar: ghost mirrors of the syntax tree
// without node ids, and one spec-level parser per production over the token
// sequence. The executable parser's contracts tie each result to these
// functions, so success, failure kind, consumed extent, the shape of the
// tree and the exact number of ids drawn from the allocator are all fixed by
// the tokens alone; only the id values themselves come from the allocator's
// starting point.

/// An id-free mirror of a table key.
pub enum GTableKey {
    Expression(GExpr),
    Name(Seq<char>),
}

/// An id-free mirror of a table literal.
pub struct GTableLiteral {
    pub items: Seq<(Option<GTableKey>, GExpr)>,
}

/// An id-free mirror of a function call.
pub struct GFunctionCall {
    pub name_expression: Box<GExpr>,
    pub arguments: Seq<GExpr>,
}

/// An id-free mirror of an expression node.
pub enum GExpr {
    Nil,
    Bool { value: bool },
    Number { value: Seq<char> },
    String { raw: Seq<char>, interpreted: Seq<char> },
    VarArg,
    Table { value: GTableLiteral },
    FunctionCall { value: GFunctionCall },
    Name { value: Seq<char> },
    ParenExpression { value: Box<GExpr> },
    UnaryOp { operator: UnaryOpKind, argument: Box<GExpr> },
    BinaryOp { operator: BinaryOpKind, left: Box<GExpr>, right: Box<GExpr> },
}

pub struct GAssignment {
    pub names: Seq<Seq<char>>,
    pub values: Seq<GExpr>,
}

pub struct GLocalAssignment {
    pub names: Seq<Seq<char>>,
    pub values: Seq<GExpr>,
}

pub struct GNumericFor {
    pub var: Seq<char>,
    pub start: GExpr,
    pub end: GExpr,
    pub step: Option<GExpr>,
    pub body: GChunk,
}

pub struct GGenericFor {
    pub vars: Seq<Seq<char>>,
    pub item_source: Seq<GExpr>,
    pub body: GChunk,
}

pub struct GIfStatement {
    pub condition: GExpr,
    pub body: GChunk,
    pub else_if_branches: Seq<(GExpr, GChunk)>,
    pub else_branch: Option<GChunk>,
}

pub struct GWhileLoop {
    pub condition: GExpr,
    pub body: GChunk,
}

pub struct GRepeatLoop {
    pub condition: GExpr,
    pub body: GChunk,
}

pub struct GFunctionDeclaration {
    pub name: Seq<char>,
    pub body: GChunk,
    pub parameters: Seq<Seq<char>>,
    pub local: bool,
}

/// An id-free mirror of a statement node.
pub enum GStmt {
    Assignment { value: GAssignment },
    LocalAssignment { value: GLocalAssignment },
    FunctionCall { value: GFunctionCall },
    NumericFor { value: GNumericFor },
    GenericFor { value: GGenericFor },
    IfStatement { value: GIfStatement },
    WhileLoop { value: GWhileLoop },
    RepeatLoop { value: GRepeatLoop },
    FunctionDeclaration { value: GFunctionDeclaration },
}

/// An id-free mirror of a chunk.
pub struct GChunk {
    pub statements: Seq<GStmt>,
}

/// The abstraction of an expression: the same tree with ids erased and text
/// taken to sequences.
pub open spec fn aexpr(e: Expression) -> GExpr
    decreases e,
{
    match e {
        Expression::Nil { .. } => GExpr::Nil,
        Expression::Bool { value, .. } => GExpr::Bool { value },
        Expression::Number { value, .. } => GExpr::Number { value: value@ },
        Expression::String { value, .. } => GExpr::String {
            raw: value.raw@,
            interpreted: value.interpreted@,
        },
        Expression::VarArg { .. } => GExpr::VarArg,
        Expression::Table { value, .. } => GExpr::Table { value: atable(value) },
        Expression::FunctionCall { value, .. } => GExpr::FunctionCall { value: acall(value) },
        Expression::Name { value, .. } => GExpr::Name { value: value@ },
        Expression::ParenExpression { value, .. } => GExpr::ParenExpression {
            value: Box::new(aexpr(*value)),
        },
        Expression::UnaryOp { value, .. } => GExpr::UnaryOp {
            operator: value.operator,
            argument: Box::new(aexpr(*value.argument)),
        },
        Expression::BinaryOp { value, .. } => GExpr::BinaryOp {
            operator: value.operator,
            left: Box::new(aexpr(*value.left)),
            right: Box::new(aexpr(*value.right)),
        },
    }
}

pub open spec fn aexprs(es: Seq<Expression>) -> Seq<GExpr>
    decreases es,
{
    if es.len() == 0 {
        Seq::empty()
    } else {
        seq![aexpr(es[0])] + aexprs(es.drop_first())
    }
}

pub open spec fn akey(k: TableKey) -> GTableKey
    decreases k,
{
    match k {
        TableKey::Expression(e) => GTableKey::Expression(aexpr(e)),
        TableKey::Name(s) => GTableKey::Name(s@),
    }
}

pub open spec fn aokey(k: Option<TableKey>) -> Option<GTableKey>
    decreases k,
{
    match k {
        Option::Some(key) => Some(akey(key)),
        Option::None => None,
    }
}

pub open spec fn aitem(item: (Option<TableKey>, Expression)) -> (Option<GTableKey>, GExpr)
    decreases item,
{
    (aokey(item.0), aexpr(item.1))
}

pub open spec fn aitems(items: Seq<(Option<TableKey>, Expression)>) -> Seq<
    (Option<GTableKey>, GExpr),
>
    decreases items,
{
    if items.len() == 0 {
        Seq::empty()
    } else {
        seq![aitem(items[0])] + aitems(items.drop_first())
    }
}

pub open spec fn atable(t: TableLiteral) -> GTableLiteral
    decreases t,
{
    GTableLiteral { items: aitems(t.items@) }
}

pub open spec fn acall(c: FunctionCall) -> GFunctionCall
    decreases c,
{
    GFunctionCall {
        name_expression: Box::new(aexpr(*c.name_expression)),
        arguments: aexprs(c.arguments@),
    }
}

/// The abstraction of a name list: each owned string taken to its sequence.
pub open spec fn anames(vs: Seq<String>) -> Seq<Seq<char>> {
    vs.map_values(|s: String| s@)
}

pub open spec fn aopt_expr(o: Option<Expression>) -> Option<GExpr>
    decreases o,
{
    match o {
        Option::Some(e) => Some(aexpr(e)),
        Option::None => None,
    }
}

pub open spec fn aopt_chunk(o: Option<Chunk>) -> Option<GChunk>
    decreases o,
{
    match o {
        Option::Some(c) => Some(achunk(c)),
        Option::None => None,
    }
}

pub open spec fn abranch(b: (Expression, Chunk)) -> (GExpr, GChunk)
    decreases b,
{
    (aexpr(b.0), achunk(b.1))
}

pub open spec fn abranches(bs: Seq<(Expression, Chunk)>) -> Seq<(GExpr, GChunk)>
    decreases bs,
{
    if bs.len() == 0 {
        Seq::empty()
    } else {
        seq![abranch(bs[0])] + abranches(bs.drop_first())
    }
}

/// The abstraction of a statement: ids erased, texts to sequences.
pub open spec fn astmt(s: Statement) -> GStmt
    decreases s,
{
    match s {
        Statement::Assignment { value, .. } => GStmt::Assignment {
            value: GAssignment { names: anames(value.names@), values: aexprs(value.values@) },
        },
        Statement::LocalAssignment { value, .. } => GStmt::LocalAssignment {
            value: GLocalAssignment { names: anames(value.names@), values: aexprs(value.values@) },
        },
        Statement::FunctionCall { value, .. } => GStmt::FunctionCall { value: acall(value) },
        Statement::NumericFor { value, .. } => GStmt::NumericFor {
            value: GNumericFor {
                var: value.var@,
                start: aexpr(value.start),
                end: aexpr(value.end),
                step: aopt_expr(value.step),
                body: achunk(value.body),
            },
        },
        Statement::GenericFor { value, .. } => GStmt::GenericFor {
            value: GGenericFor {
                vars: anames(value.vars@),
                item_source: aexprs(value.item_source@),
                body: achunk(value.body),
            },
        },
        Statement::IfStatement { value, .. } => GStmt::IfStatement {
            value: GIfStatement {
                condition: aexpr(value.condition),
                body: achunk(value.body),
                else_if_branches: abranches(value.else_if_branches@),
                else_branch: aopt_chunk(value.else_branch),
            },
        },
        Statement::WhileLoop { value, .. } => GStmt::WhileLoop {
            value: GWhileLoop { condition: aexpr(value.condition), body: achunk(value.body) },
        },
        Statement::RepeatLoop { value, .. } => GStmt::RepeatLoop {
            value: GRepeatLoop { condition: aexpr(value.condition), body: achunk(value.body) },
        },
        Statement::FunctionDeclaration { value, .. } => GStmt::FunctionDeclaration {
            value: GFunctionDeclaration {
                name: value.name@,
                body: achunk(value.body),
                parameters: anames(value.parameters@),
                local: value.local,
            },
        },
    }
}

pub open spec fn astmts(ss: Seq<Statement>) -> Seq<GStmt>
    decreases ss,
{
    if ss.len() == 0 {
        Seq::empty()
    } else {
        seq![astmt(ss[0])] + astmts(ss.drop_first())
    }
}

/// The abstraction of a chunk.
pub open spec fn achunk(c: Chunk) -> GChunk
    decreases c,
{
    GChunk { statements: astmts(c.statements@) }
}

pub proof fn lemma_astmts_push(ss: Seq<Statement>, s: Statement)
    ensures
        astmts(ss.push(s)) == astmts(ss) + seq![astmt(s)],
    decreases ss.len(),
{
    let p = ss.push(s);
    assert(p.len() == ss.len() + 1);
    if ss.len() == 0 {
        assert(p[0] == s);
        assert(p.drop_first() =~= Seq::<Statement>::empty());
        assert(astmts(p) == seq![astmt(s)] + astmts(p.drop_first()));
        assert(astmts(p) =~= astmts(ss) + seq![astmt(s)]);
    } else {
        lemma_astmts_push(ss.drop_first(), s);
        assert(p.drop_first() =~= ss.drop_first().push(s));
        assert(p[0] == ss[0]);
        assert(astmts(p) == seq![astmt(ss[0])] + astmts(p.drop_first()));
        assert(astmts(p) =~= astmts(ss) + seq![astmt(s)]);
    }
}

pub proof fn lemma_aexprs_push(es: Seq<Expression>, e: Expression)
    ensures
        aexprs(es.push(e)) == aexprs(es) + seq![aexpr(e)],
    decreases es.len(),
{
    let p = es.push(e);
    assert(p.len() == es.len() + 1);
    if es.len() == 0 {
        assert(p[0] == e);
        assert(p.drop_first() =~= Seq::<Expression>::empty());
        assert(aexprs(p) == seq![aexpr(e)] + aexprs(p.drop_first()));
        assert(aexprs(p) =~= aexprs(es) + seq![aexpr(e)]);
    } else {
        lemma_aexprs_push(es.drop_first(), e);
        assert(p.drop_first() =~= es.drop_first().push(e));
        assert(p[0] == es[0]);
        assert(aexprs(p) == seq![aexpr(es[0])] + aexprs(p.drop_first()));
        assert(aexprs(p) =~= aexprs(es) + seq![aexpr(e)]);
    }
}

pub proof fn lemma_aitems_push(
    items: Seq<(Option<TableKey>, Expression)>,
    item: (Option<TableKey>, Expression),
)
    ensures
        aitems(items.push(item)) == aitems(items) + seq![aitem(item)],
    decreases items.len(),
{
    let p = items.push(item);
    assert(p.len() == items.len() + 1);
    if items.len() == 0 {
        assert(p[0] == item);
        assert(p.drop_first() =~= Seq::<(Option<TableKey>, Expression)>::empty());
        assert(aitems(p) == seq![aitem(item)] + aitems(p.drop_first()));
        assert(aitems(p) =~= aitems(items) + seq![aitem(item)]);
    } else {
        lemma_aitems_push(items.drop_first(), item);
        assert(p.drop_first() =~= items.drop_first().push(item));
        assert(p[0] == items[0]);
        assert(aitems(p) == seq![aitem(items[0])] + aitems(p.drop_first()));
        assert(aitems(p) =~= aitems(items) + seq![aitem(item)]);
    }
}

pub proof fn lemma_abranches_push(bs: Seq<(Expression, Chunk)>, b: (Expression, Chunk))
    ensures
        abranches(bs.push(b)) == abranches(bs) + seq![abranch(b)],
    decreases bs.len(),
{
    let p = bs.push(b);
    assert(p.len() == bs.len() + 1);
    if bs.len() == 0 {
        assert(p[0] == b);
        assert(p.drop_first() =~= Seq::<(Expression, Chunk)>::empty());
        assert(abranches(p) == seq![abranch(b)] + abranches(p.drop_first()));
        assert(abranches(p) =~= abranches(bs) + seq![abranch(b)]);
    } else {
        lemma_abranches_push(bs.drop_first(), b);
        assert(p.drop_first() =~= bs.drop_first().push(b));
        assert(p[0] == bs[0]);
        assert(abranches(p) == seq![abranch(bs[0])] + abranches(p.drop_first()));
        assert(abranches(p) =~= abranches(bs) + seq![abranch(b)]);
    }
}

pub proof fn lemma_anames_push(vs: Seq<String>, v: String)
    ensures
        anames(vs.push(v)) == anames(vs) + seq![v@],
{
    assert(anames(vs.push(v)) =~= anames(vs) + seq![v@]);
}

/// What one spec-level parse of a production yields: a node and the position
/// just past it, a backtracking no-match, or a committed failure. `used` is
/// the exact number of ids the executable rule draws from the allocator on
/// the same input, counting ids later discarded by backtracking, so the
/// contracts can pin the allocator's movement and owe success whenever
/// enough ids remain.
pub enum Parsed<T> {
    Found { pos: int, val: T, used: nat },
    Absent { used: nat },
    Halt { used: nat },
}

/// The id count of a spec parse, whatever its outcome.
pub open spec fn pused<T>(p: Parsed<T>) -> nat {
    match p {
        Parsed::Found { used, .. } => used,
        Parsed::Absent { used } => used,
        Parsed::Halt { used } => used,
    }
}

/// A position from an earlier spec parse, forced into `(lo, hi]` so that the
/// recursion below it is visibly well-founded. Wherever the executable parser
/// follows the same path the position already lies in that range, so the
/// clamp changes nothing.
pub open spec fn clamp_pos(lo: int, p: int, hi: int) -> int {
    if lo < p && p <= hi {
        p
    } else {
        hi
    }
}

pub open spec fn ident_text(toks: Seq<Token>, i: int) -> Seq<char> {
    match toks[i].kind {
        TokenKind::Identifier(s) => s@,
        _ => Seq::empty(),
    }
}

pub open spec fn number_text(toks: Seq<Token>, i: int) -> Seq<char> {
    match toks[i].kind {
        TokenKind::NumberLiteral(s) => s@,
        _ => Seq::empty(),
    }
}

pub open spec fn string_raw(toks: Seq<Token>, i: int) -> Seq<char> {
    match toks[i].kind {
        TokenKind::StringLiteral(s) => s.raw@,
        _ => Seq::empty(),
    }
}

pub open spec fn string_interp(toks: Seq<Token>, i: int) -> Seq<char> {
    match toks[i].kind {
        TokenKind::StringLiteral(s) => s.interpreted@,
        _ => Seq::empty(),
    }
}

/// One or more comma-separated names, every mismatch committed. Name lists
/// draw no ids.
pub open spec fn sp_name_list(toks: Seq<Token>, pos: int) -> Parsed<Seq<Seq<char>>>
    decreases toks.len() - pos, 2int,
{
    if pos >= toks.len() {
        Parsed::Halt { used: 0 }
    } else if !tok_identifier(toks, pos) {
        Parsed::Halt { used: 0 }
    } else {
        match sp_name_list_rest(toks, pos + 1) {
            Parsed::Found { pos: p1, val: rest, used: _u } => Parsed::Found {
                pos: p1,
                val: seq![ident_text(toks, pos)] + rest,
                used: 0,
            },
            Parsed::Absent { used: _u } => Parsed::Absent { used: 0 },
            Parsed::Halt { used: _u } => Parsed::Halt { used: 0 },
        }
    }
}

/// The comma-continuation of a name list.
pub open spec fn sp_name_list_rest(toks: Seq<Token>, pos: int) -> Parsed<Seq<Seq<char>>>
    decreases toks.len() - pos, 1int,
{
    if pos >= toks.len() {
        Parsed::Found { pos, val: Seq::empty(), used: 0 }
    } else if tok_operator(toks, pos, ","@) {
        if !tok_identifier(toks, pos + 1) {
            Parsed::Halt { used: 0 }
        } else {
            match sp_name_list_rest(toks, pos + 2) {
                Parsed::Found { pos: p1, val: rest, used: _u } => Parsed::Found {
                    pos: p1,
                    val: seq![ident_text(toks, pos + 1)] + rest,
                    used: 0,
                },
                Parsed::Absent { used: _u } => Parsed::Absent { used: 0 },
                Parsed::Halt { used: _u } => Parsed::Halt { used: 0 },
            }
        }
    } else {
        Parsed::Found { pos, val: Seq::empty(), used: 0 }
    }
}

/// A table key: a bare name before `=`, or `[ expression ] =`; mismatches
/// backtrack, and ids drawn for a discarded key expression stay counted.
pub open spec fn sp_table_key(toks: Seq<Token>, pos: int, depth: int) -> Parsed<GTableKey>
    decreases toks.len() - pos, 1int,
{
    if pos >= toks.len() {
        Parsed::Absent { used: 0 }
    } else if tok_identifier(toks, pos) {
        if tok_operator(toks, pos + 1, "="@) {
            Parsed::Found { pos: pos + 2, val: GTableKey::Name(ident_text(toks, pos)), used: 0 }
        } else {
            Parsed::Absent { used: 0 }
        }
    } else if tok_operator(toks, pos, "["@) {
        match sp_expr(toks, pos + 1, 0, depth) {
            Parsed::Found { pos: p1, val: e, used: u } => if tok_operator(toks, p1, "]"@)
                && tok_operator(toks, p1 + 1, "="@) {
                Parsed::Found { pos: p1 + 2, val: GTableKey::Expression(e), used: u }
            } else {
                Parsed::Absent { used: u }
            },
            Parsed::Absent { used: u } => Parsed::Absent { used: u },
            Parsed::Halt { used: u } => Parsed::Halt { used: u },
        }
    } else {
        Parsed::Absent { used: 0 }
    }
}

/// One table entry: an optional key, then the value expression.
pub open spec fn sp_table_value(toks: Seq<Token>, pos: int, depth: int) -> Parsed<
    (Option<GTableKey>, GExpr),
>
    decreases toks.len() - pos, 6int,
{
    if pos >= toks.len() {
        Parsed::Absent { used: 0 }
    } else {
        match sp_table_key(toks, pos, depth) {
            Parsed::Halt { used: u } => Parsed::Halt { used: u },
            Parsed::Found { pos: p1, val: k, used: u } => match sp_expr(
                toks,
                clamp_pos(pos, p1, toks.len() as int),
                0,
                depth,
            ) {
                Parsed::Found { pos: p2, val: e, used: u2 } => Parsed::Found {
                    pos: p2,
                    val: (Some(k), e),
                    used: u + u2,
                },
                Parsed::Absent { used: u2 } => Parsed::Absent { used: u + u2 },
                Parsed::Halt { used: u2 } => Parsed::Halt { used: u + u2 },
            },
            Parsed::Absent { used: u } => match sp_expr(toks, pos, 0, depth) {
                Parsed::Found { pos: p2, val: e, used: u2 } => Parsed::Found {
                    pos: p2,
                    val: (None, e),
                    used: u + u2,
                },
                Parsed::Absent { used: u2 } => Parsed::Absent { used: u + u2 },
                Parsed::Halt { used: u2 } => Parsed::Halt { used: u + u2 },
            },
        }
    }
}

/// The entry list of a table literal: entries separated by `,` or `;`, a
/// trailing separator allowed.
pub open spec fn sp_table_items(toks: Seq<Token>, pos: int, depth: int) -> Parsed<
    Seq<(Option<GTableKey>, GExpr)>,
>
    decreases toks.len() - pos, 7int,
{
    if pos >= toks.len() {
        Parsed::Found { pos, val: Seq::empty(), used: 0 }
    } else {
        match sp_table_value(toks, pos, depth) {
            Parsed::Absent { used: u } => Parsed::Found { pos, val: Seq::empty(), used: u },
            Parsed::Halt { used: u } => Parsed::Halt { used: u },
            Parsed::Found { pos: p1, val: item, used: u } => if tok_operator(toks, p1, ","@)
                || tok_operator(toks, p1, ";"@) {
                match sp_table_items(toks, clamp_pos(pos, p1 + 1, toks.len() as int), depth) {
                    Parsed::Found { pos: p2, val: rest, used: u2 } => Parsed::Found {
                        pos: p2,
                        val: seq![item] + rest,
                        used: u + u2,
                    },
                    Parsed::Absent { used: u2 } => Parsed::Absent { used: u + u2 },
                    Parsed::Halt { used: u2 } => Parsed::Halt { used: u + u2 },
                }
            } else {
                Parsed::Found { pos: p1, val: seq![item], used: u }
            },
        }
    }
}

/// A table literal: `{`, entries, `}`; a missing `}` backtracks.
pub open spec fn sp_table_literal(toks: Seq<Token>, pos: int, depth: int) -> Parsed<GTableLiteral>
    decreases toks.len() - pos, 2int,
{
    if pos >= toks.len() {
        Parsed::Absent { used: 0 }
    } else if tok_operator(toks, pos, "{"@) {
        if depth >= MAX_NESTING_DEPTH as int {
            Parsed::Halt { used: 0 }
        } else {
            match sp_table_items(toks, pos + 1, depth + 1) {
                Parsed::Found { pos: p1, val: items, used: u } => if tok_operator(toks, p1, "}"@) {
                    Parsed::Found { pos: p1 + 1, val: GTableLiteral { items }, used: u }
                } else {
                    Parsed::Absent { used: u }
                },
                Parsed::Absent { used: u } => Parsed::Absent { used: u },
                Parsed::Halt { used: u } => Parsed::Halt { used: u },
            }
        }
    } else {
        Parsed::Absent { used: 0 }
    }
}

/// A call `name ( arguments )`; the whole shape backtracks when it does not
/// fit, a malformed argument list commits. The id for the name node is drawn
/// only after the closing parenthesis is seen.
pub open spec fn sp_function_call(toks: Seq<Token>, pos: int, depth: int) -> Parsed<GFunctionCall>
    decreases toks.len() - pos, 1int,
{
    if pos >= toks.len() {
        Parsed::Absent { used: 0 }
    } else if tok_identifier(toks, pos) && tok_open_paren(toks, pos + 1) {
        if depth >= MAX_NESTING_DEPTH as int {
            Parsed::Halt { used: 0 }
        } else {
            match sp_expr_list_zero(toks, pos + 2, depth + 1) {
                Parsed::Found { pos: p1, val: args, used: u } => if tok_close_paren(toks, p1) {
                    Parsed::Found {
                        pos: p1 + 1,
                        val: GFunctionCall {
                            name_expression: Box::new(
                                GExpr::Name { value: ident_text(toks, pos) },
                            ),
                            arguments: args,
                        },
                        used: u + 1,
                    }
                } else {
                    Parsed::Absent { used: u }
                },
                Parsed::Absent { used: u } => Parsed::Absent { used: u },
                Parsed::Halt { used: u } => Parsed::Halt { used: u },
            }
        }
    } else {
        Parsed::Absent { used: 0 }
    }
}

/// Zero or more comma-separated expressions; an absent first expression is
/// the empty list, a dangling separator commits.
pub open spec fn sp_expr_list_zero(toks: Seq<Token>, pos: int, depth: int) -> Parsed<Seq<GExpr>>
    decreases toks.len() - pos, 7int,
{
    if pos >= toks.len() {
        Parsed::Found { pos, val: Seq::empty(), used: 0 }
    } else {
        match sp_expr(toks, pos, 0, depth) {
            Parsed::Absent { used: u } => Parsed::Found { pos, val: Seq::empty(), used: u },
            Parsed::Halt { used: u } => Parsed::Halt { used: u },
            Parsed::Found { pos: p1, val: e, used: u } => match sp_expr_list_rest(
                toks,
                clamp_pos(pos, p1, toks.len() as int),
                depth,
            ) {
                Parsed::Found { pos: p2, val: rest, used: u2 } => Parsed::Found {
                    pos: p2,
                    val: seq![e] + rest,
                    used: u + u2,
                },
                Parsed::Absent { used: u2 } => Parsed::Absent { used: u + u2 },
                Parsed::Halt { used: u2 } => Parsed::Halt { used: u + u2 },
            },
        }
    }
}

/// The comma-continuation of an expression list: after a `,` an expression
/// is owed.
pub open spec fn sp_expr_list_rest(toks: Seq<Token>, pos: int, depth: int) -> Parsed<Seq<GExpr>>
    decreases toks.len() - pos, 6int,
{
    if pos >= toks.len() {
        Parsed::Found { pos, val: Seq::empty(), used: 0 }
    } else if tok_operator(toks, pos, ","@) {
        match sp_expr(toks, pos + 1, 0, depth) {
            Parsed::Absent { used: u } => Parsed::Halt { used: u },
            Parsed::Halt { used: u } => Parsed::Halt { used: u },
            Parsed::Found { pos: p1, val: e, used: u } => match sp_expr_list_rest(
                toks,
                clamp_pos(pos, p1, toks.len() as int),
                depth,
            ) {
                Parsed::Found { pos: p2, val: rest, used: u2 } => Parsed::Found {
                    pos: p2,
                    val: seq![e] + rest,
                    used: u + u2,
                },
                Parsed::Absent { used: u2 } => Parsed::Absent { used: u + u2 },
                Parsed::Halt { used: u2 } => Parsed::Halt { used: u + u2 },
            },
        }
    } else {
        Parsed::Found { pos, val: Seq::empty(), used: 0 }
    }
}

/// One or more comma-separated expressions, every mismatch committed.
pub open spec fn sp_expr_list_one(toks: Seq<Token>, pos: int, depth: int) -> Parsed<Seq<GExpr>>
    decreases toks.len() - pos, 7int,
{
    if pos >= toks.len() {
        Parsed::Halt { used: 0 }
    } else {
        match sp_expr(toks, pos, 0, depth) {
            Parsed::Absent { used: u } => Parsed::Halt { used: u },
            Parsed::Halt { used: u } => Parsed::Halt { used: u },
            Parsed::Found { pos: p1, val: e, used: u } => match sp_expr_list_rest(
                toks,
                clamp_pos(pos, p1, toks.len() as int),
                depth,
            ) {
                Parsed::Found { pos: p2, val: rest, used: u2 } => Parsed::Found {
                    pos: p2,
                    val: seq![e] + rest,
                    used: u + u2,
                },
                Parsed::Absent { used: u2 } => Parsed::Absent { used: u + u2 },
                Parsed::Halt { used: u2 } => Parsed::Halt { used: u + u2 },
            },
        }
    }
}

/// A primary expression, tried in the fixed order of the executable rule;
/// each literal draws one id, and a call, parenthesised expression or table
/// draws one id for its own node on top of its contents.
pub open spec fn sp_primary(toks: Seq<Token>, pos: int, depth: int) -> Parsed<GExpr>
    decreases toks.len() - pos, 3int,
{
    if pos >= toks.len() {
        Parsed::Absent { used: 0 }
    } else if tok_number(toks, pos) {
        Parsed::Found { pos: pos + 1, val: GExpr::Number { value: number_text(toks, pos) }, used: 1 }
    } else if tok_string(toks, pos) {
        Parsed::Found {
            pos: pos + 1,
            val: GExpr::String { raw: string_raw(toks, pos), interpreted: string_interp(toks, pos) },
            used: 1,
        }
    } else if tok_keyword(toks, pos, "nil"@) {
        Parsed::Found { pos: pos + 1, val: GExpr::Nil, used: 1 }
    } else if tok_keyword(toks, pos, "true"@) {
        Parsed::Found { pos: pos + 1, val: GExpr::Bool { value: true }, used: 1 }
    } else if tok_keyword(toks, pos, "false"@) {
        Parsed::Found { pos: pos + 1, val: GExpr::Bool { value: false }, used: 1 }
    } else if tok_operator(toks, pos, "..."@) {
        Parsed::Found { pos: pos + 1, val: GExpr::VarArg, used: 1 }
    } else {
        match sp_function_call(toks, pos, depth) {
            Parsed::Found { pos: p1, val: c, used: u } => Parsed::Found {
                pos: p1,
                val: GExpr::FunctionCall { value: c },
                used: u + 1,
            },
            Parsed::Halt { used: u } => Parsed::Halt { used: u },
            Parsed::Absent { used: u } => if tok_identifier(toks, pos) {
                Parsed::Found {
                    pos: pos + 1,
                    val: GExpr::Name { value: ident_text(toks, pos) },
                    used: u + 1,
                }
            } else if tok_open_paren(toks, pos) {
                if depth >= MAX_NESTING_DEPTH as int {
                    Parsed::Halt { used: u }
                } else {
                    match sp_expr(toks, pos + 1, 0, depth + 1) {
                        Parsed::Absent { used: u2 } => Parsed::Halt { used: u + u2 },
                        Parsed::Halt { used: u2 } => Parsed::Halt { used: u + u2 },
                        Parsed::Found { pos: p2, val: e, used: u2 } => if tok_close_paren(
                            toks,
                            p2,
                        ) {
                            Parsed::Found {
                                pos: p2 + 1,
                                val: GExpr::ParenExpression { value: Box::new(e) },
                                used: u + u2 + 1,
                            }
                        } else {
                            Parsed::Halt { used: u + u2 }
                        },
                    }
                }
            } else {
                match sp_table_literal(toks, pos, depth) {
                    Parsed::Found { pos: p1, val: t, used: u2 } => Parsed::Found {
                        pos: p1,
                        val: GExpr::Table { value: t },
                        used: u + u2 + 1,
                    },
                    Parsed::Absent { used: u2 } => Parsed::Absent { used: u + u2 },
                    Parsed::Halt { used: u2 } => Parsed::Halt { used: u + u2 },
                }
            },
        }
    }
}

/// A unary-or-primary operand; a consumed unary operator commits, and the
/// operator node draws one id on top of its argument.
pub open spec fn sp_operand(toks: Seq<Token>, pos: int, depth: int) -> Parsed<GExpr>
    decreases toks.len() - pos, 4int,
{
    if pos >= toks.len() {
        Parsed::Absent { used: 0 }
    } else {
        match spec_unop_at(toks, pos) {
            Some(op) => if depth >= MAX_NESTING_DEPTH as int {
                Parsed::Halt { used: 0 }
            } else {
                match sp_operand(toks, pos + 1, depth + 1) {
                    Parsed::Absent { used: u } => Parsed::Halt { used: u },
                    Parsed::Halt { used: u } => Parsed::Halt { used: u },
                    Parsed::Found { pos: p1, val: a, used: u } => Parsed::Found {
                        pos: p1,
                        val: GExpr::UnaryOp { operator: op, argument: Box::new(a) },
                        used: u + 1,
                    },
                }
            },
            None => sp_primary(toks, pos, depth),
        }
    }
}

/// An expression at a precedence threshold: an operand, then climbing.
pub open spec fn sp_expr(toks: Seq<Token>, pos: int, min: int, depth: int) -> Parsed<GExpr>
    decreases toks.len() - pos, 5int,
{
    if pos >= toks.len() {
        Parsed::Absent { used: 0 }
    } else {
        match sp_operand(toks, pos, depth) {
            Parsed::Absent { used: u } => Parsed::Absent { used: u },
            Parsed::Halt { used: u } => Parsed::Halt { used: u },
            Parsed::Found { pos: p1, val: lhs, used: u } => match sp_climb(
                toks,
                clamp_pos(pos, p1, toks.len() as int),
                min,
                lhs,
                depth,
            ) {
                Parsed::Found { pos: p2, val: e, used: u2 } => Parsed::Found {
                    pos: p2,
                    val: e,
                    used: u + u2,
                },
                Parsed::Absent { used: u2 } => Parsed::Absent { used: u + u2 },
                Parsed::Halt { used: u2 } => Parsed::Halt { used: u + u2 },
            },
        }
    }
}

/// Precedence climbing from a parsed left operand: while a binary operator
/// of at least `min` follows, its right side is parsed at the operator's
/// precedence (right-associative) or one above it (left-associative); each
/// operator node draws one id.
pub open spec fn sp_climb(toks: Seq<Token>, pos: int, min: int, lhs: GExpr, depth: int) -> Parsed<
    GExpr,
>
    decreases toks.len() - pos, 6int,
{
    if pos >= toks.len() {
        Parsed::Found { pos, val: lhs, used: 0 }
    } else {
        match spec_binop_at(toks, pos) {
            None => Parsed::Found { pos, val: lhs, used: 0 },
            Some(op) => if spec_precedence(op) as int >= min {
                if depth >= MAX_NESTING_DEPTH as int {
                    Parsed::Halt { used: 0 }
                } else {
                    match sp_expr(
                        toks,
                        pos + 1,
                        if spec_right_associative(op) {
                            spec_precedence(op) as int
                        } else {
                            spec_precedence(op) as int + 1
                        },
                        depth + 1,
                    ) {
                        Parsed::Absent { used: u } => Parsed::Halt { used: u },
                        Parsed::Halt { used: u } => Parsed::Halt { used: u },
                        Parsed::Found { pos: p2, val: rhs, used: u } => match sp_climb(
                            toks,
                            clamp_pos(pos, p2, toks.len() as int),
                            min,
                            GExpr::BinaryOp {
                                operator: op,
                                left: Box::new(lhs),
                                right: Box::new(rhs),
                            },
                            depth,
                        ) {
                            Parsed::Found { pos: p3, val: e, used: u2 } => Parsed::Found {
                                pos: p3,
                                val: e,
                                used: u + 1 + u2,
                            },
                            Parsed::Absent { used: u2 } => Parsed::Absent { used: u + 1 + u2 },
                            Parsed::Halt { used: u2 } => Parsed::Halt { used: u + 1 + u2 },
                        },
                    }
                }
            } else {
                Parsed::Found { pos, val: lhs, used: 0 }
            },
        }
    }
}

/// `local` name-list, optionally `= expression-list`; `local function` is
/// left for the declaration rule.
pub open spec fn sp_local_assignment(toks: Seq<Token>, pos: int, depth: int) -> Parsed<
    GLocalAssignment,
>
    decreases toks.len() - pos, 1int,
{
    if pos >= toks.len() {
        Parsed::Absent { used: 0 }
    } else if !tok_keyword(toks, pos, "local"@) {
        Parsed::Absent { used: 0 }
    } else if tok_keyword(toks, pos + 1, "function"@) {
        Parsed::Absent { used: 0 }
    } else {
        match sp_name_list(toks, pos + 1) {
            Parsed::Halt { used: u } => Parsed::Halt { used: u },
            Parsed::Absent { used: u } => Parsed::Absent { used: u },
            Parsed::Found { pos: p1, val: names, used: u } => if tok_operator(toks, p1, "="@) {
                match sp_expr_list_one(toks, clamp_pos(pos, p1 + 1, toks.len() as int), depth) {
                    Parsed::Found { pos: p2, val: values, used: u2 } => Parsed::Found {
                        pos: p2,
                        val: GLocalAssignment { names, values },
                        used: u + u2,
                    },
                    Parsed::Absent { used: u2 } => Parsed::Absent { used: u + u2 },
                    Parsed::Halt { used: u2 } => Parsed::Halt { used: u + u2 },
                }
            } else {
                Parsed::Found {
                    pos: p1,
                    val: GLocalAssignment { names, values: Seq::empty() },
                    used: u,
                }
            },
        }
    }
}

/// `for name = start, end [, step] do body end`; `=` commits.
pub open spec fn sp_numeric_for(toks: Seq<Token>, pos: int, depth: int) -> Parsed<GNumericFor>
    decreases toks.len() - pos, 1int,
{
    if pos >= toks.len() {
        Parsed::Absent { used: 0 }
    } else if !tok_keyword(toks, pos, "for"@) {
        Parsed::Absent { used: 0 }
    } else if !tok_identifier(toks, pos + 1) {
        Parsed::Halt { used: 0 }
    } else if !tok_operator(toks, pos + 2, "="@) {
        Parsed::Absent { used: 0 }
    } else {
        match sp_expr(toks, pos + 3, 0, depth) {
            Parsed::Absent { used: u } => Parsed::Halt { used: u },
            Parsed::Halt { used: u } => Parsed::Halt { used: u },
            Parsed::Found { pos: p1, val: start, used: u } => if !tok_operator(toks, p1, ","@) {
                Parsed::Halt { used: u }
            } else {
                match sp_expr(toks, clamp_pos(pos, p1 + 1, toks.len() as int), 0, depth) {
                    Parsed::Absent { used: u2 } => Parsed::Halt { used: u + u2 },
                    Parsed::Halt { used: u2 } => Parsed::Halt { used: u + u2 },
                    Parsed::Found { pos: p2, val: end, used: u2 } => match sp_numeric_for_tail(
                        toks,
                        clamp_pos(pos, p2, toks.len() as int),
                        depth,
                        ident_text(toks, pos + 1),
                        start,
                        end,
                    ) {
                        Parsed::Found { pos: p3, val: nf, used: u3 } => Parsed::Found {
                            pos: p3,
                            val: nf,
                            used: u + u2 + u3,
                        },
                        Parsed::Absent { used: u3 } => Parsed::Absent { used: u + u2 + u3 },
                        Parsed::Halt { used: u3 } => Parsed::Halt { used: u + u2 + u3 },
                    },
                }
            },
        }
    }
}

/// The optional step, `do`, body and `end` of a numeric `for`.
pub open spec fn sp_numeric_for_tail(
    toks: Seq<Token>,
    pos: int,
    depth: int,
    var: Seq<char>,
    start: GExpr,
    end: GExpr,
) -> Parsed<GNumericFor>
    decreases toks.len() - pos, 1int,
{
    if tok_operator(toks, pos, ","@) {
        match sp_expr(toks, pos + 1, 0, depth) {
            Parsed::Absent { used: u } => Parsed::Halt { used: u },
            Parsed::Halt { used: u } => Parsed::Halt { used: u },
            Parsed::Found { pos: p1, val: st, used: u } => match sp_numeric_for_close(
                toks,
                clamp_pos(pos, p1, toks.len() as int),
                depth,
                var,
                start,
                end,
                Some(st),
            ) {
                Parsed::Found { pos: p2, val: nf, used: u2 } => Parsed::Found {
                    pos: p2,
                    val: nf,
                    used: u + u2,
                },
                Parsed::Absent { used: u2 } => Parsed::Absent { used: u + u2 },
                Parsed::Halt { used: u2 } => Parsed::Halt { used: u + u2 },
            },
        }
    } else {
        sp_numeric_for_close(toks, pos, depth, var, start, end, None)
    }
}

/// The closing `do body end` of a numeric `for`.
pub open spec fn sp_numeric_for_close(
    toks: Seq<Token>,
    pos: int,
    depth: int,
    var: Seq<char>,
    start: GExpr,
    end: GExpr,
    step: Option<GExpr>,
) -> Parsed<GNumericFor>
    decreases toks.len() - pos, 0int,
{
    if !tok_keyword(toks, pos, "do"@) {
        Parsed::Halt { used: 0 }
    } else {
        match sp_chunk(toks, pos + 1, depth + 1) {
            Parsed::Absent { used: u } => Parsed::Halt { used: u },
            Parsed::Halt { used: u } => Parsed::Halt { used: u },
            Parsed::Found { pos: p1, val: body, used: u } => if tok_keyword(toks, p1, "end"@) {
                Parsed::Found {
                    pos: p1 + 1,
                    val: GNumericFor { var, start, end, step, body },
                    used: u,
                }
            } else {
                Parsed::Halt { used: u }
            },
        }
    }
}

/// `for name-list in expression-list do body end`; `for` commits (the
/// numeric form has already bowed out).
pub open spec fn sp_generic_for(toks: Seq<Token>, pos: int, depth: int) -> Parsed<GGenericFor>
    decreases toks.len() - pos, 1int,
{
    if pos >= toks.len() {
        Parsed::Absent { used: 0 }
    } else if !tok_keyword(toks, pos, "for"@) {
        Parsed::Absent { used: 0 }
    } else {
        match sp_name_list(toks, pos + 1) {
            Parsed::Halt { used: u } => Parsed::Halt { used: u },
            Parsed::Absent { used: u } => Parsed::Absent { used: u },
            Parsed::Found { pos: p1, val: vars, used: u } => if !tok_keyword(toks, p1, "in"@) {
                Parsed::Halt { used: u }
            } else {
                match sp_expr_list_one(toks, clamp_pos(pos, p1 + 1, toks.len() as int), depth) {
                    Parsed::Absent { used: u2 } => Parsed::Halt { used: u + u2 },
                    Parsed::Halt { used: u2 } => Parsed::Halt { used: u + u2 },
                    Parsed::Found { pos: p2, val: srcs, used: u2 } => if !tok_keyword(
                        toks,
                        p2,
                        "do"@,
                    ) {
                        Parsed::Halt { used: u + u2 }
                    } else {
                        match sp_chunk(toks, clamp_pos(pos, p2 + 1, toks.len() as int), depth + 1) {
                            Parsed::Absent { used: u3 } => Parsed::Halt { used: u + u2 + u3 },
                            Parsed::Halt { used: u3 } => Parsed::Halt { used: u + u2 + u3 },
                            Parsed::Found { pos: p3, val: body, used: u3 } => if tok_keyword(
                                toks,
                                p3,
                                "end"@,
                            ) {
                                Parsed::Found {
                                    pos: p3 + 1,
                                    val: GGenericFor { vars, item_source: srcs, body },
                                    used: u + u2 + u3,
                                }
                            } else {
                                Parsed::Halt { used: u + u2 + u3 }
                            },
                        }
                    },
                }
            },
        }
    }
}

/// The `elseif condition then body` chain of an `if`.
pub open spec fn sp_elseifs(toks: Seq<Token>, pos: int, depth: int) -> Parsed<Seq<(GExpr, GChunk)>>
    decreases toks.len() - pos, 4int,
{
    if pos >= toks.len() {
        Parsed::Found { pos, val: Seq::empty(), used: 0 }
    } else if !tok_keyword(toks, pos, "elseif"@) {
        Parsed::Found { pos, val: Seq::empty(), used: 0 }
    } else {
        match sp_expr(toks, pos + 1, 0, depth) {
            Parsed::Absent { used: u } => Parsed::Halt { used: u },
            Parsed::Halt { used: u } => Parsed::Halt { used: u },
            Parsed::Found { pos: p1, val: c, used: u } => if !tok_keyword(toks, p1, "then"@) {
                Parsed::Halt { used: u }
            } else {
                match sp_chunk(toks, clamp_pos(pos, p1 + 1, toks.len() as int), depth + 1) {
                    Parsed::Absent { used: u2 } => Parsed::Halt { used: u + u2 },
                    Parsed::Halt { used: u2 } => Parsed::Halt { used: u + u2 },
                    Parsed::Found { pos: p2, val: b, used: u2 } => match sp_elseifs(
                        toks,
                        clamp_pos(pos, p2, toks.len() as int),
                        depth,
                    ) {
                        Parsed::Found { pos: p3, val: rest, used: u3 } => Parsed::Found {
                            pos: p3,
                            val: seq![(c, b)] + rest,
                            used: u + u2 + u3,
                        },
                        Parsed::Absent { used: u3 } => Parsed::Absent { used: u + u2 + u3 },
                        Parsed::Halt { used: u3 } => Parsed::Halt { used: u + u2 + u3 },
                    },
                }
            },
        }
    }
}

/// `if condition then body {elseif ...} [else body] end`; `if` commits.
pub open spec fn sp_if_statement(toks: Seq<Token>, pos: int, depth: int) -> Parsed<GIfStatement>
    decreases toks.len() - pos, 1int,
{
    if pos >= toks.len() {
        Parsed::Absent { used: 0 }
    } else if !tok_keyword(toks, pos, "if"@) {
        Parsed::Absent { used: 0 }
    } else {
        match sp_expr(toks, pos + 1, 0, depth) {
            Parsed::Absent { used: u } => Parsed::Halt { used: u },
            Parsed::Halt { used: u } => Parsed::Halt { used: u },
            Parsed::Found { pos: p1, val: c, used: u } => if !tok_keyword(toks, p1, "then"@) {
                Parsed::Halt { used: u }
            } else {
                match sp_chunk(toks, clamp_pos(pos, p1 + 1, toks.len() as int), depth + 1) {
                    Parsed::Absent { used: u2 } => Parsed::Halt { used: u + u2 },
                    Parsed::Halt { used: u2 } => Parsed::Halt { used: u + u2 },
                    Parsed::Found { pos: p2, val: body, used: u2 } => match sp_elseifs(
                        toks,
                        clamp_pos(pos, p2, toks.len() as int),
                        depth,
                    ) {
                        Parsed::Absent { used: u3 } => Parsed::Halt { used: u + u2 + u3 },
                        Parsed::Halt { used: u3 } => Parsed::Halt { used: u + u2 + u3 },
                        Parsed::Found { pos: p3, val: branches, used: u3 } => match sp_if_close(
                            toks,
                            clamp_pos(pos, p3, toks.len() as int),
                            depth,
                            c,
                            body,
                            branches,
                        ) {
                            Parsed::Found { pos: p4, val: stmt, used: u4 } => Parsed::Found {
                                pos: p4,
                                val: stmt,
                                used: u + u2 + u3 + u4,
                            },
                            Parsed::Absent { used: u4 } => Parsed::Absent {
                                used: u + u2 + u3 + u4,
                            },
                            Parsed::Halt { used: u4 } => Parsed::Halt { used: u + u2 + u3 + u4 },
                        },
                    },
                }
            },
        }
    }
}

/// The optional `else` branch and the closing `end` of an `if`.
pub open spec fn sp_if_close(
    toks: Seq<Token>,
    pos: int,
    depth: int,
    condition: GExpr,
    body: GChunk,
    branches: Seq<(GExpr, GChunk)>,
) -> Parsed<GIfStatement>
    decreases toks.len() - pos, 1int,
{
    if tok_keyword(toks, pos, "else"@) {
        match sp_chunk(toks, pos + 1, depth + 1) {
            Parsed::Absent { used: u } => Parsed::Halt { used: u },
            Parsed::Halt { used: u } => Parsed::Halt { used: u },
            Parsed::Found { pos: p1, val: eb, used: u } => if tok_keyword(toks, p1, "end"@) {
                Parsed::Found {
                    pos: p1 + 1,
                    val: GIfStatement {
                        condition,
                        body,
                        else_if_branches: branches,
                        else_branch: Some(eb),
                    },
                    used: u,
                }
            } else {
                Parsed::Halt { used: u }
            },
        }
    } else if tok_keyword(toks, pos, "end"@) {
        Parsed::Found {
            pos: pos + 1,
            val: GIfStatement { condition, body, else_if_branches: branches, else_branch: None },
            used: 0,
        }
    } else {
        Parsed::Halt { used: 0 }
    }
}

/// `while condition do body end`; `while` commits.
pub open spec fn sp_while_loop(toks: Seq<Token>, pos: int, depth: int) -> Parsed<GWhileLoop>
    decreases toks.len() - pos, 1int,
{
    if pos >= toks.len() {
        Parsed::Absent { used: 0 }
    } else if !tok_keyword(toks, pos, "while"@) {
        Parsed::Absent { used: 0 }
    } else {
        match sp_expr(toks, pos + 1, 0, depth) {
            Parsed::Absent { used: u } => Parsed::Halt { used: u },
            Parsed::Halt { used: u } => Parsed::Halt { used: u },
            Parsed::Found { pos: p1, val: c, used: u } => if !tok_keyword(toks, p1, "do"@) {
                Parsed::Halt { used: u }
            } else {
                match sp_chunk(toks, clamp_pos(pos, p1 + 1, toks.len() as int), depth + 1) {
                    Parsed::Absent { used: u2 } => Parsed::Halt { used: u + u2 },
                    Parsed::Halt { used: u2 } => Parsed::Halt { used: u + u2 },
                    Parsed::Found { pos: p2, val: body, used: u2 } => if tok_keyword(
                        toks,
                        p2,
                        "end"@,
                    ) {
                        Parsed::Found {
                            pos: p2 + 1,
                            val: GWhileLoop { condition: c, body },
                            used: u + u2,
                        }
                    } else {
                        Parsed::Halt { used: u + u2 }
                    },
                }
            },
        }
    }
}

/// `repeat body until condition`; `repeat` commits.
pub open spec fn sp_repeat_loop(toks: Seq<Token>, pos: int, depth: int) -> Parsed<GRepeatLoop>
    decreases toks.len() - pos, 1int,
{
    if pos >= toks.len() {
        Parsed::Absent { used: 0 }
    } else if !tok_keyword(toks, pos, "repeat"@) {
        Parsed::Absent { used: 0 }
    } else {
        match sp_chunk(toks, pos + 1, depth + 1) {
            Parsed::Absent { used: u } => Parsed::Halt { used: u },
            Parsed::Halt { used: u } => Parsed::Halt { used: u },
            Parsed::Found { pos: p1, val: body, used: u } => if !tok_keyword(toks, p1, "until"@) {
                Parsed::Halt { used: u }
            } else {
                match sp_expr(toks, clamp_pos(pos, p1 + 1, toks.len() as int), 0, depth) {
                    Parsed::Absent { used: u2 } => Parsed::Halt { used: u + u2 },
                    Parsed::Halt { used: u2 } => Parsed::Halt { used: u + u2 },
                    Parsed::Found { pos: p2, val: c, used: u2 } => Parsed::Found {
                        pos: p2,
                        val: GRepeatLoop { condition: c, body },
                        used: u + u2,
                    },
                }
            },
        }
    }
}

/// `[local] function name ( parameters ) body end`; `function` commits.
pub open spec fn sp_function_declaration(toks: Seq<Token>, pos: int, depth: int) -> Parsed<
    GFunctionDeclaration,
>
    decreases toks.len() - pos, 1int,
{
    if pos >= toks.len() {
        Parsed::Absent { used: 0 }
    } else {
        let fpos = if tok_keyword(toks, pos, "local"@) {
            pos + 1
        } else {
            pos
        };
        if !tok_keyword(toks, fpos, "function"@) {
            Parsed::Absent { used: 0 }
        } else if !tok_identifier(toks, fpos + 1) {
            Parsed::Halt { used: 0 }
        } else if !tok_open_paren(toks, fpos + 2) {
            Parsed::Halt { used: 0 }
        } else {
            match (if tok_identifier(toks, fpos + 3) {
                sp_name_list(toks, fpos + 3)
            } else {
                Parsed::Found { pos: fpos + 3, val: Seq::empty(), used: 0 }
            }) {
                Parsed::Absent { used: u } => Parsed::Halt { used: u },
                Parsed::Halt { used: u } => Parsed::Halt { used: u },
                Parsed::Found { pos: p1, val: params, used: u } => if !tok_close_paren(toks, p1) {
                    Parsed::Halt { used: u }
                } else {
                    match sp_chunk(toks, clamp_pos(pos, p1 + 1, toks.len() as int), depth + 1) {
                        Parsed::Absent { used: u2 } => Parsed::Halt { used: u + u2 },
                        Parsed::Halt { used: u2 } => Parsed::Halt { used: u + u2 },
                        Parsed::Found { pos: p2, val: body, used: u2 } => if tok_keyword(
                            toks,
                            p2,
                            "end"@,
                        ) {
                            Parsed::Found {
                                pos: p2 + 1,
                                val: GFunctionDeclaration {
                                    name: ident_text(toks, fpos + 1),
                                    body,
                                    parameters: params,
                                    local: tok_keyword(toks, pos, "local"@),
                                },
                                used: u + u2,
                            }
                        } else {
                            Parsed::Halt { used: u + u2 }
                        },
                    }
                },
            }
        }
    }
}

/// One statement: the alternatives in the dispatch order of the executable
/// rule; the first match wins, a committed failure propagates, and ids
/// burned by alternatives that bowed out stay counted. The chosen
/// statement's own node draws one id.
pub open spec fn sp_statement(toks: Seq<Token>, pos: int, depth: int) -> Parsed<GStmt>
    decreases toks.len() - pos, 2int,
{
    if pos >= toks.len() {
        Parsed::Absent { used: 0 }
    } else {
        match sp_local_assignment(toks, pos, depth) {
            Parsed::Found { pos: p, val: v, used: u } => Parsed::Found {
                pos: p,
                val: GStmt::LocalAssignment { value: v },
                used: u + 1,
            },
            Parsed::Halt { used: u } => Parsed::Halt { used: u },
            Parsed::Absent { used: u0 } => match sp_function_call(toks, pos, depth) {
                Parsed::Found { pos: p, val: v, used: u } => Parsed::Found {
                    pos: p,
                    val: GStmt::FunctionCall { value: v },
                    used: u0 + u + 1,
                },
                Parsed::Halt { used: u } => Parsed::Halt { used: u0 + u },
                Parsed::Absent { used: u1 } => match sp_numeric_for(toks, pos, depth) {
                    Parsed::Found { pos: p, val: v, used: u } => Parsed::Found {
                        pos: p,
                        val: GStmt::NumericFor { value: v },
                        used: u0 + u1 + u + 1,
                    },
                    Parsed::Halt { used: u } => Parsed::Halt { used: u0 + u1 + u },
                    Parsed::Absent { used: u2 } => match sp_generic_for(toks, pos, depth) {
                        Parsed::Found { pos: p, val: v, used: u } => Parsed::Found {
                            pos: p,
                            val: GStmt::GenericFor { value: v },
                            used: u0 + u1 + u2 + u + 1,
                        },
                        Parsed::Halt { used: u } => Parsed::Halt { used: u0 + u1 + u2 + u },
                        Parsed::Absent { used: u3 } => match sp_if_statement(toks, pos, depth) {
                            Parsed::Found { pos: p, val: v, used: u } => Parsed::Found {
                                pos: p,
                                val: GStmt::IfStatement { value: v },
                                used: u0 + u1 + u2 + u3 + u + 1,
                            },
                            Parsed::Halt { used: u } => Parsed::Halt {
                                used: u0 + u1 + u2 + u3 + u,
                            },
                            Parsed::Absent { used: u4 } => match sp_while_loop(toks, pos, depth) {
                                Parsed::Found { pos: p, val: v, used: u } => Parsed::Found {
                                    pos: p,
                                    val: GStmt::WhileLoop { value: v },
                                    used: u0 + u1 + u2 + u3 + u4 + u + 1,
                                },
                                Parsed::Halt { used: u } => Parsed::Halt {
                                    used: u0 + u1 + u2 + u3 + u4 + u,
                                },
                                Parsed::Absent { used: u5 } => match sp_repeat_loop(
                                    toks,
                                    pos,
                                    depth,
                                ) {
                                    Parsed::Found { pos: p, val: v, used: u } => Parsed::Found {
                                        pos: p,
                                        val: GStmt::RepeatLoop { value: v },
                                        used: u0 + u1 + u2 + u3 + u4 + u5 + u + 1,
                                    },
                                    Parsed::Halt { used: u } => Parsed::Halt {
                                        used: u0 + u1 + u2 + u3 + u4 + u5 + u,
                                    },
                                    Parsed::Absent { used: u6 } => match sp_function_declaration(
                                        toks,
                                        pos,
                                        depth,
                                    ) {
                                        Parsed::Found { pos: p, val: v, used: u } => Parsed::Found {
                                            pos: p,
                                            val: GStmt::FunctionDeclaration { value: v },
                                            used: u0 + u1 + u2 + u3 + u4 + u5 + u6 + u + 1,
                                        },
                                        Parsed::Halt { used: u } => Parsed::Halt {
                                            used: u0 + u1 + u2 + u3 + u4 + u5 + u6 + u,
                                        },
                                        Parsed::Absent { used: u7 } => Parsed::Absent {
                                            used: u0 + u1 + u2 + u3 + u4 + u5 + u6 + u7,
                                        },
                                    },
                                },
                            },
                        },
                    },
                },
            },
        }
    }
}

/// A chunk: the maximal statement sequence from `pos`; it stops, without
/// failing, at the first position where no statement alternative matches.
/// Ids burned by the failed attempt at the stop position stay counted.
pub open spec fn sp_chunk(toks: Seq<Token>, pos: int, depth: int) -> Parsed<GChunk>
    decreases toks.len() - pos, 3int,
{
    if depth >= MAX_NESTING_DEPTH as int {
        Parsed::Halt { used: 0 }
    } else if pos >= toks.len() {
        Parsed::Found { pos, val: GChunk { statements: Seq::empty() }, used: 0 }
    } else {
        match sp_statement(toks, pos, depth) {
            Parsed::Absent { used: u } => Parsed::Found {
                pos,
                val: GChunk { statements: Seq::empty() },
                used: u,
            },
            Parsed::Halt { used: u } => Parsed::Halt { used: u },
            Parsed::Found { pos: p1, val: s, used: u } => match sp_chunk(
                toks,
                clamp_pos(pos, p1, toks.len() as int),
                depth,
            ) {
                Parsed::Found { pos: p2, val: rest, used: u2 } => Parsed::Found {
                    pos: p2,
                    val: GChunk { statements: seq![s] + rest.statements },
                    used: u + u2,
                },
                Parsed::Absent { used: u2 } => Parsed::Absent { used: u + u2 },
                Parsed::Halt { used: u2 } => Parsed::Halt { used: u + u2 },
            },
        }
    }
}

} // verus!
