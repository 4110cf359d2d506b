use vstd::prelude::*;
use vstd::string::StringExecFns;

use crate::ast::BinaryOp;
use crate::ast::BinaryOpKind;
use crate::ast::Chunk;
use crate::ast::Expression;
use crate::ast::FunctionCall;
use crate::ast::FunctionDeclaration;
use crate::ast::GenericFor;
use crate::ast::Id;
use crate::ast::IdAllocator;
use crate::ast::IfStatement;
use crate::ast::LocalAssignment;
use crate::ast::NumericFor;
use crate::ast::RepeatLoop;
use crate::ast::Statement;
use crate::ast::TableKey;
use crate::ast::TableLiteral;
use crate::ast::UnaryOp;
use crate::ast::UnaryOpKind;
use crate::ast::WhileLoop;
use crate::ast::branch_ids;
use crate::ast::branches_ids;
use crate::ast::chunk_ids;
use crate::ast::expr_ids;
use crate::ast::exprs_ids;
use crate::ast::function_call_ids;
use crate::ast::function_declaration_ids;
use crate::ast::generic_for_ids;
use crate::ast::ids_ok;
use crate::ast::if_statement_ids;
use crate::ast::lemma_branches_ids_push;
use crate::ast::lemma_exprs_ids_push;
use crate::ast::lemma_ids_concat2;
use crate::ast::lemma_ids_concat;
use crate::ast::lemma_ids_single;
use crate::ast::lemma_ids_widen;
use crate::ast::lemma_stmts_ids_push;
use crate::ast::lemma_table_items_ids_push;
use crate::ast::local_assignment_ids;
use crate::ast::numeric_for_ids;
use crate::ast::opt_chunk_ids;
use crate::ast::opt_expr_ids;
use crate::ast::opt_table_key_ids;
use crate::ast::repeat_loop_ids;
use crate::ast::spec_precedence;
use crate::ast::spec_right_associative;
use crate::ast::stmt_ids;
use crate::ast::stmts_ids;
use crate::ast::table_item_ids;
use crate::ast::table_items_ids;
use crate::ast::table_key_ids;
use crate::ast::table_literal_ids;
use crate::ast::while_loop_ids;
use crate::grammar::abranch;
use crate::grammar::abranches;
use crate::grammar::acall;
use crate::grammar::achunk;
use crate::grammar::aexpr;
use crate::grammar::aexprs;
use crate::grammar::aitem;
use crate::grammar::aitems;
use crate::grammar::akey;
use crate::grammar::anames;
use crate::grammar::aopt_chunk;
use crate::grammar::aopt_expr;
use crate::grammar::astmt;
use crate::grammar::astmts;
use crate::grammar::atable;
use crate::grammar::clamp_pos;
use crate::grammar::pused;
use crate::grammar::lemma_abranches_push;
use crate::grammar::lemma_aexprs_push;
use crate::grammar::lemma_aitems_push;
use crate::grammar::lemma_anames_push;
use crate::grammar::lemma_astmts_push;
use crate::grammar::sp_chunk;
use crate::grammar::sp_climb;
use crate::grammar::sp_elseifs;
use crate::grammar::sp_expr;
use crate::grammar::sp_expr_list_one;
use crate::grammar::sp_expr_list_rest;
use crate::grammar::sp_expr_list_zero;
use crate::grammar::sp_function_call;
use crate::grammar::sp_function_declaration;
use crate::grammar::sp_generic_for;
use crate::grammar::sp_if_statement;
use crate::grammar::sp_local_assignment;
use crate::grammar::sp_name_list;
use crate::grammar::sp_name_list_rest;
use crate::grammar::sp_numeric_for;
use crate::grammar::sp_operand;
use crate::grammar::sp_primary;
use crate::grammar::sp_repeat_loop;
use crate::grammar::sp_statement;
use crate::grammar::sp_table_items;
use crate::grammar::sp_table_key;
use crate::grammar::sp_table_literal;
use crate::grammar::sp_table_value;
use crate::grammar::sp_while_loop;
use crate::grammar::GChunk;
use crate::grammar::GExpr;
use crate::grammar::GFunctionCall;
use crate::grammar::GFunctionDeclaration;
use crate::grammar::GGenericFor;
use crate::grammar::GIfStatement;
use crate::grammar::GLocalAssignment;
use crate::grammar::GNumericFor;
use crate::grammar::GRepeatLoop;
use crate::grammar::GStmt;
use crate::grammar::GTableKey;
use crate::grammar::GTableLiteral;
use crate::grammar::GWhileLoop;
use crate::grammar::Parsed;
use crate::token::StringLiteral;
use crate::token::Token;
use crate::token::TokenKind;
use crate::token::spec_describe;
use crate::token::str_eq;
use crate::token::tok_close_paren;
use crate::token::tok_identifier;
use crate::token::tok_keyword;
use crate::token::tok_number;
use crate::token::tok_open_paren;
use crate::token::tok_operator;
use crate::token::tok_string;

verus! {

/// How a grammar rule gives up. `NoMatch` means the alternative does not
/// apply and siblings should still be tried; `Error` means the rule had
/// committed and the input is malformed, so the failure propagates without
/// trying siblings.
#[derive(Debug, Clone, PartialEq)]
pub enum ParseAbort {
    NoMatch,
    Error(String),
}

/// An immutable cursor into the token stream: the underlying tokens plus a
/// position. `advance` returns a new cursor and leaves the original
/// untouched, which is what makes backtracking safe.
#[derive(Debug, Clone, Copy)]
pub struct ParseState<'a> {
    pub tokens: &'a Vec<Token>,
    pub position: usize,
}

impl<'a> ParseState<'a> {
    /// The cursor is inside the stream (one past the end included).
    pub open spec fn wf(self) -> bool {
        self.position <= self.tokens@.len()
    }

    pub fn new(tokens: &'a Vec<Token>) -> (r: ParseState<'a>)
        ensures
            r.tokens@ == tokens@,
            r.position == 0,
            r.wf(),
    {
        ParseState { tokens, position: 0 }
    }

    /// The token under the cursor, or `None` at the end of the stream.
    pub fn peek(&self) -> (r: Option<&Token>)
        ensures
            match r {
                Some(t) => self.position < self.tokens@.len() && *t == self.tokens@[
                    self.position as int
                ],
                None => self.position >= self.tokens@.len(),
            },
    {
        if self.position < self.tokens.len() {
            Some(&self.tokens[self.position])
        } else {
            None
        }
    }

    /// A new cursor `n` tokens further on; the original is untouched.
    pub fn advance(&self, n: usize) -> (r: ParseState<'a>)
        requires
            self.position + n <= self.tokens@.len(),
        ensures
            r.tokens@ == self.tokens@,
            r.position == self.position + n,
            r.wf(),
    {
        let len = self.tokens.len();
        assert(self.position + n <= len);
        ParseState { tokens: self.tokens, position: self.position + n }
    }
}

/// The result is the backtracking signal: siblings should still be tried.
pub open spec fn no_match<T>(r: Result<T, ParseAbort>) -> bool {
    r matches Err(ParseAbort::NoMatch)
}

/// The result is a committed failure: it propagates without retrying.
pub open spec fn errored<T>(r: Result<T, ParseAbort>) -> bool {
    r matches Err(a) && a is Error
}

/// The fixed bound on grammar nesting depth. Recursion depth follows input
/// nesting depth, so deeper input fails with a dedicated error instead of
/// exhausting the stack.
pub const MAX_NESTING_DEPTH: usize = 200;

/// The committed failure reported when the input nests too deeply.
fn nesting_error() -> (r: ParseAbort)
    ensures
        r is Error,
{
    ParseAbort::Error(
        String::from_str("the input nests deeper than the parser's fixed limit"),
    )
}

/// A fresh id, or the committed failure used once the id space is exhausted.
fn alloc_id(alloc: &mut IdAllocator) -> (r: Result<Id, ParseAbort>)
    ensures
        final(alloc).next >= old(alloc).next,
        r matches Ok(id) ==> id == old(alloc).next && final(alloc).next == old(alloc).next + 1,
        r is Err ==> errored(r) && final(alloc).next == old(alloc).next && old(alloc).next
            == usize::MAX,
{
    match alloc.gen_id() {
        Some(id) => Ok(id),
        None => Err(ParseAbort::Error(String::from_str("the id space is exhausted"))),
    }
}

/// "expected <what> <context>, found <token or end of stream>".
fn expected_message(what: &str, context: &str, state: ParseState<'_>) -> (r: String) {
    let mut m = String::from_str("expected ");
    m.append(what);
    m.append(" ");
    m.append(context);
    m.append(", found ");
    match state.peek() {
        Some(t) => {
            let d = t.describe();
            m.append(d.as_str());
        },
        None => {
            m.append("end of stream");
        },
    }
    m
}

/// Consume exactly the keyword `text`, or report `NoMatch`.
fn parse_keyword<'a>(state: ParseState<'a>, text: &str) -> (r: Result<ParseState<'a>, ParseAbort>)
    requires
        state.wf(),
    ensures
        (r is Ok) <==> tok_keyword(state.tokens@, state.position as int, text@),
        r matches Ok(s2) ==> s2.tokens@ == state.tokens@ && s2.position == state.position + 1
            && s2.wf(),
        r is Err ==> no_match(r),
{
    match state.peek() {
        Some(t) => match &t.kind {
            TokenKind::Keyword(s) => {
                if str_eq(s, text) {
                    Ok(state.advance(1))
                } else {
                    Err(ParseAbort::NoMatch)
                }
            },
            _ => Err(ParseAbort::NoMatch),
        },
        None => Err(ParseAbort::NoMatch),
    }
}

/// Consume exactly the operator `text`, or report `NoMatch`.
fn parse_operator<'a>(state: ParseState<'a>, text: &str) -> (r: Result<ParseState<'a>, ParseAbort>)
    requires
        state.wf(),
    ensures
        (r is Ok) <==> tok_operator(state.tokens@, state.position as int, text@),
        r matches Ok(s2) ==> s2.tokens@ == state.tokens@ && s2.position == state.position + 1
            && s2.wf(),
        r is Err ==> no_match(r),
{
    match state.peek() {
        Some(t) => match &t.kind {
            TokenKind::Operator(s) => {
                if str_eq(s, text) {
                    Ok(state.advance(1))
                } else {
                    Err(ParseAbort::NoMatch)
                }
            },
            _ => Err(ParseAbort::NoMatch),
        },
        None => Err(ParseAbort::NoMatch),
    }
}

/// Consume an opening parenthesis, or report `NoMatch`.
fn parse_open_paren<'a>(state: ParseState<'a>) -> (r: Result<ParseState<'a>, ParseAbort>)
    requires
        state.wf(),
    ensures
        (r is Ok) <==> tok_open_paren(state.tokens@, state.position as int),
        r matches Ok(s2) ==> s2.tokens@ == state.tokens@ && s2.position == state.position + 1
            && s2.wf(),
        r is Err ==> no_match(r),
{
    match state.peek() {
        Some(t) => match &t.kind {
            TokenKind::OpenParen => Ok(state.advance(1)),
            _ => Err(ParseAbort::NoMatch),
        },
        None => Err(ParseAbort::NoMatch),
    }
}

/// Consume a closing parenthesis, or report `NoMatch`.
fn parse_close_paren<'a>(state: ParseState<'a>) -> (r: Result<ParseState<'a>, ParseAbort>)
    requires
        state.wf(),
    ensures
        (r is Ok) <==> tok_close_paren(state.tokens@, state.position as int),
        r matches Ok(s2) ==> s2.tokens@ == state.tokens@ && s2.position == state.position + 1
            && s2.wf(),
        r is Err ==> no_match(r),
{
    match state.peek() {
        Some(t) => match &t.kind {
            TokenKind::CloseParen => Ok(state.advance(1)),
            _ => Err(ParseAbort::NoMatch),
        },
        None => Err(ParseAbort::NoMatch),
    }
}

/// Consume one identifier and hand its text out, or report `NoMatch`.
fn parse_identifier<'a>(state: ParseState<'a>) -> (r: Result<
    (ParseState<'a>, String),
    ParseAbort,
>)
    requires
        state.wf(),
    ensures
        (r is Ok) <==> tok_identifier(state.tokens@, state.position as int),
        r matches Ok(p) ==> p.0.tokens@ == state.tokens@ && p.0.position == state.position + 1
            && p.0.wf() && (state.tokens@[state.position as int].kind
            matches TokenKind::Identifier(s) && p.1@ == s@),
        r is Err ==> no_match(r),
{
    match state.peek() {
        Some(t) => match &t.kind {
            TokenKind::Identifier(s) => Ok((state.advance(1), s.clone())),
            _ => Err(ParseAbort::NoMatch),
        },
        None => Err(ParseAbort::NoMatch),
    }
}

/// Consume one numeric literal and hand its raw lexeme out, or `NoMatch`.
fn parse_number<'a>(state: ParseState<'a>) -> (r: Result<(ParseState<'a>, String), ParseAbort>)
    requires
        state.wf(),
    ensures
        (r is Ok) <==> tok_number(state.tokens@, state.position as int),
        r matches Ok(p) ==> p.0.tokens@ == state.tokens@ && p.0.position == state.position + 1
            && p.0.wf() && (state.tokens@[state.position as int].kind
            matches TokenKind::NumberLiteral(s) && p.1@ == s@),
        r is Err ==> no_match(r),
{
    match state.peek() {
        Some(t) => match &t.kind {
            TokenKind::NumberLiteral(s) => Ok((state.advance(1), s.clone())),
            _ => Err(ParseAbort::NoMatch),
        },
        None => Err(ParseAbort::NoMatch),
    }
}

/// Consume one string literal and hand its resolved value out, or `NoMatch`.
fn parse_string_literal<'a>(state: ParseState<'a>) -> (r: Result<
    (ParseState<'a>, StringLiteral),
    ParseAbort,
>)
    requires
        state.wf(),
    ensures
        (r is Ok) <==> tok_string(state.tokens@, state.position as int),
        r matches Ok(p) ==> p.0.tokens@ == state.tokens@ && p.0.position == state.position + 1
            && p.0.wf() && (state.tokens@[state.position as int].kind
            matches TokenKind::StringLiteral(s) && p.1.raw@ == s.raw@ && p.1.interpreted@
            == s.interpreted@),
        r is Err ==> no_match(r),
{
    match state.peek() {
        Some(t) => match &t.kind {
            TokenKind::StringLiteral(s) => {
                let copy = StringLiteral { raw: s.raw.clone(), interpreted: s.interpreted.clone() };
                Ok((state.advance(1), copy))
            },
            _ => Err(ParseAbort::NoMatch),
        },
        None => Err(ParseAbort::NoMatch),
    }
}

/// Is the token under the cursor the keyword `text`?
fn peek_keyword(state: ParseState<'_>, text: &str) -> (r: bool)
    ensures
        r == tok_keyword(state.tokens@, state.position as int, text@),
{
    match state.peek() {
        Some(t) => match &t.kind {
            TokenKind::Keyword(s) => str_eq(s, text),
            _ => false,
        },
        None => false,
    }
}

/// Is the token under the cursor the operator `text`?
fn peek_operator(state: ParseState<'_>, text: &str) -> (r: bool)
    ensures
        r == tok_operator(state.tokens@, state.position as int, text@),
{
    match state.peek() {
        Some(t) => match &t.kind {
            TokenKind::Operator(s) => str_eq(s, text),
            _ => false,
        },
        None => false,
    }
}

/// Demand the keyword `text`; a mismatch is a committed `Error` naming the
/// token found.
fn require_keyword<'a>(state: ParseState<'a>, text: &str, context: &str) -> (r: Result<
    ParseState<'a>,
    ParseAbort,
>)
    requires
        state.wf(),
    ensures
        (r is Ok) <==> tok_keyword(state.tokens@, state.position as int, text@),
        r matches Ok(s2) ==> s2.tokens@ == state.tokens@ && s2.position == state.position + 1
            && s2.wf(),
        r is Err ==> errored(r),
{
    match parse_keyword(state, text) {
        Ok(s2) => Ok(s2),
        Err(_) => {
            let mut what = String::from_str("`");
            what.append(text);
            what.append("`");
            Err(ParseAbort::Error(expected_message(what.as_str(), context, state)))
        },
    }
}

/// Demand the operator `text`; a mismatch is a committed `Error`.
fn require_operator<'a>(state: ParseState<'a>, text: &str, context: &str) -> (r: Result<
    ParseState<'a>,
    ParseAbort,
>)
    requires
        state.wf(),
    ensures
        (r is Ok) <==> tok_operator(state.tokens@, state.position as int, text@),
        r matches Ok(s2) ==> s2.tokens@ == state.tokens@ && s2.position == state.position + 1
            && s2.wf(),
        r is Err ==> errored(r),
{
    match parse_operator(state, text) {
        Ok(s2) => Ok(s2),
        Err(_) => {
            let mut what = String::from_str("`");
            what.append(text);
            what.append("`");
            Err(ParseAbort::Error(expected_message(what.as_str(), context, state)))
        },
    }
}

/// Demand an opening parenthesis; a mismatch is a committed `Error`.
fn require_open_paren<'a>(state: ParseState<'a>, context: &str) -> (r: Result<
    ParseState<'a>,
    ParseAbort,
>)
    requires
        state.wf(),
    ensures
        (r is Ok) <==> tok_open_paren(state.tokens@, state.position as int),
        r matches Ok(s2) ==> s2.tokens@ == state.tokens@ && s2.position == state.position + 1
            && s2.wf(),
        r is Err ==> errored(r),
{
    match parse_open_paren(state) {
        Ok(s2) => Ok(s2),
        Err(_) => Err(ParseAbort::Error(expected_message("`(`", context, state))),
    }
}

/// Demand a closing parenthesis; a mismatch is a committed `Error`.
fn require_close_paren<'a>(state: ParseState<'a>, context: &str) -> (r: Result<
    ParseState<'a>,
    ParseAbort,
>)
    requires
        state.wf(),
    ensures
        (r is Ok) <==> tok_close_paren(state.tokens@, state.position as int),
        r matches Ok(s2) ==> s2.tokens@ == state.tokens@ && s2.position == state.position + 1
            && s2.wf(),
        r is Err ==> errored(r),
{
    match parse_close_paren(state) {
        Ok(s2) => Ok(s2),
        Err(_) => Err(ParseAbort::Error(expected_message("`)`", context, state))),
    }
}

/// Demand an identifier; a mismatch is a committed `Error`.
fn require_identifier<'a>(state: ParseState<'a>, context: &str) -> (r: Result<
    (ParseState<'a>, String),
    ParseAbort,
>)
    requires
        state.wf(),
    ensures
        (r is Ok) <==> tok_identifier(state.tokens@, state.position as int),
        r matches Ok(p) ==> p.0.tokens@ == state.tokens@ && p.0.position == state.position + 1
            && p.0.wf() && (state.tokens@[state.position as int].kind
            matches TokenKind::Identifier(s) && p.1@ == s@),
        r is Err ==> errored(r),
{
    match parse_identifier(state) {
        Ok(p) => Ok(p),
        Err(_) => Err(ParseAbort::Error(expected_message("a name", context, state))),
    }
}

/// One or more identifiers separated by `,`: the name list of a `local`
/// declaration or a generic `for`. A missing first name, and a dangling
/// separator, are committed errors.
fn require_name_list<'a>(state: ParseState<'a>, context: &str) -> (r: Result<
    (ParseState<'a>, Vec<String>),
    ParseAbort,
>)
    requires
        state.wf(),
    ensures
        r matches Ok(p) ==> p.0.tokens@ == state.tokens@ && state.position < p.0.position
            <= state.tokens@.len() && p.0.wf() && p.1@.len() >= 1,
        (r is Ok) ==> tok_identifier(state.tokens@, state.position as int),
        r matches Ok(p) ==> (state.tokens@[state.position as int].kind
            matches TokenKind::Identifier(s) && p.1@[0]@ == s@),
        r is Err ==> errored(r),
        r matches Ok(p) ==> (sp_name_list(state.tokens@, state.position as int)
            matches Parsed::Found { pos, val, used } && pos == p.0.position as int && used == 0
            && val == anames(p.1@)),
        r is Err ==> (sp_name_list(state.tokens@, state.position as int)
            matches Parsed::Halt { used } && used == 0),
{
    let (mut cur, first) = match require_identifier(state, context) {
        Ok(p) => p,
        Err(e) => {
            return Err(e);
        },
    };
    let mut names: Vec<String> = Vec::new();
    names.push(first);
    proof {
        lemma_anames_push(Seq::empty(), first);
        assert(anames(Seq::<String>::empty()) =~= Seq::<Seq<char>>::empty());
        assert(Seq::<String>::empty().push(first) =~= names@);
        assert(anames(names@) =~= seq![first@]);
        match sp_name_list_rest(state.tokens@, cur.position as int) {
            Parsed::Found { pos, val, used } => {
                assert(seq![first@] + val =~= anames(names@) + val);
            },
            _ => {},
        }
    }
    loop
        invariant
            cur.wf(),
            cur.tokens@ == state.tokens@,
            state.position < cur.position <= state.tokens@.len(),
            names@.len() >= 1,
            (state.tokens@[state.position as int].kind matches TokenKind::Identifier(s)
                && names@[0]@ == s@),
            ({
                let whole = sp_name_list(state.tokens@, state.position as int);
                match sp_name_list_rest(state.tokens@, cur.position as int) {
                    Parsed::Found { pos, val, used } => whole == (Parsed::Found::<Seq<Seq<char>>> {
                        pos,
                        val: anames(names@) + val,
                        used: 0,
                    }),
                    Parsed::Absent { used } => whole == (Parsed::Absent::<Seq<Seq<char>>> {
                        used: 0,
                    }),
                    Parsed::Halt { used } => whole == (Parsed::Halt::<Seq<Seq<char>>> {
                        used: 0,
                    }),
                }
            }),
        decreases state.tokens@.len() - cur.position,
    {
        let ghost cpos: int = cur.position as int;
        if peek_operator(cur, ",") {
            let adv = cur.advance(1);
            match require_identifier(adv, "after `,` in a name list") {
                Ok((s2, name)) => {
                    proof {
                        lemma_anames_push(names@, name);
                        match sp_name_list_rest(state.tokens@, s2.position as int) {
                            Parsed::Found { pos, val, used } => {
                                assert((anames(names@) + seq![name@]) + val =~= anames(names@)
                                    + (seq![name@] + val));
                            },
                            _ => {},
                        }
                    }
                    names.push(name);
                    cur = s2;
                },
                Err(e) => {
                    return Err(e);
                },
            }
        } else {
            proof {
                assert(anames(names@) + Seq::<Seq<char>>::empty() =~= anames(names@));
            }
            return Ok((cur, names));
        }
    }
}

/// The binary operator the token at `i` denotes, if any.
pub open spec fn spec_binop_at(toks: Seq<Token>, i: int) -> Option<BinaryOpKind> {
    if tok_operator(toks, i, "+"@) {
        Some(BinaryOpKind::Add)
    } else if tok_operator(toks, i, "-"@) {
        Some(BinaryOpKind::Subtract)
    } else if tok_operator(toks, i, "*"@) {
        Some(BinaryOpKind::Multiply)
    } else if tok_operator(toks, i, "/"@) {
        Some(BinaryOpKind::Divide)
    } else if tok_operator(toks, i, "^"@) {
        Some(BinaryOpKind::Exponent)
    } else if tok_operator(toks, i, ".."@) {
        Some(BinaryOpKind::Concat)
    } else {
        None
    }
}

/// The unary operator the token at `i` denotes, if any.
pub open spec fn spec_unop_at(toks: Seq<Token>, i: int) -> Option<UnaryOpKind> {
    if tok_operator(toks, i, "-"@) {
        Some(UnaryOpKind::Negate)
    } else if tok_operator(toks, i, "#"@) {
        Some(UnaryOpKind::Length)
    } else if tok_keyword(toks, i, "not"@) {
        Some(UnaryOpKind::BooleanNot)
    } else {
        None
    }
}

/// The token at `i` opens a primary expression that, alone, always parses:
/// a literal, `...`, a name, or an opening parenthesis.
pub open spec fn simple_primary_start(toks: Seq<Token>, i: int) -> bool {
    tok_number(toks, i) || tok_string(toks, i) || tok_identifier(toks, i) || tok_keyword(
        toks,
        i,
        "nil"@,
    ) || tok_keyword(toks, i, "true"@) || tok_keyword(toks, i, "false"@) || tok_operator(
        toks,
        i,
        "..."@,
    ) || tok_open_paren(toks, i)
}

/// The token at `i` can open an expression.
pub open spec fn expr_start(toks: Seq<Token>, i: int) -> bool {
    spec_unop_at(toks, i) is Some || simple_primary_start(toks, i) || tok_operator(toks, i, "{"@)
}

/// The binary operator under the cursor, if any.
fn binop_at(state: ParseState<'_>) -> (r: Option<BinaryOpKind>)
    ensures
        r == spec_binop_at(state.tokens@, state.position as int),
{
    match state.peek() {
        Some(t) => match &t.kind {
            TokenKind::Operator(s) => {
                if str_eq(s, "+") {
                    Some(BinaryOpKind::Add)
                } else if str_eq(s, "-") {
                    Some(BinaryOpKind::Subtract)
                } else if str_eq(s, "*") {
                    Some(BinaryOpKind::Multiply)
                } else if str_eq(s, "/") {
                    Some(BinaryOpKind::Divide)
                } else if str_eq(s, "^") {
                    Some(BinaryOpKind::Exponent)
                } else if str_eq(s, "..") {
                    Some(BinaryOpKind::Concat)
                } else {
                    None
                }
            },
            _ => None,
        },
        None => None,
    }
}

/// The unary operator under the cursor, if any.
fn unop_at(state: ParseState<'_>) -> (r: Option<UnaryOpKind>)
    ensures
        r == spec_unop_at(state.tokens@, state.position as int),
{
    match state.peek() {
        Some(t) => match &t.kind {
            TokenKind::Operator(s) => {
                if str_eq(s, "-") {
                    Some(UnaryOpKind::Negate)
                } else if str_eq(s, "#") {
                    Some(UnaryOpKind::Length)
                } else {
                    None
                }
            },
            TokenKind::Keyword(s) => {
                if str_eq(s, "not") {
                    Some(UnaryOpKind::BooleanNot)
                } else {
                    None
                }
            },
            _ => None,
        },
        None => None,
    }
}

/// A table key: a bare name followed by `=`, or `[ expression ] =`. Tried as
/// a whole; any mismatch backtracks with `NoMatch` so that the entry can be
/// re-read as a positional value.
fn parse_table_key<'a>(state: ParseState<'a>, alloc: &mut IdAllocator, depth: usize) -> (r: Result<
    (ParseState<'a>, TableKey),
    ParseAbort,
>)
    requires
        state.wf(),
    ensures
        final(alloc).next >= old(alloc).next,
        r matches Ok(p) ==> p.0.tokens@ == state.tokens@ && state.position < p.0.position
            <= state.tokens@.len() && p.0.wf(),
        r matches Ok(p) ==> ids_ok(
            table_key_ids(p.1),
            old(alloc).next as int,
            final(alloc).next as int,
        ),
        r matches Ok(p) ==> (sp_table_key(state.tokens@, state.position as int, depth as int)
            matches Parsed::Found { pos, val, used } && pos == p.0.position as int && final(alloc).next == old(alloc).next + used && val == akey(p.1)),
        no_match(r) ==> (sp_table_key(state.tokens@, state.position as int, depth as int) matches Parsed::Absent { used }
            && final(alloc).next == old(alloc).next + used),
        errored(r) ==> ((sp_table_key(
            state.tokens@,
            state.position as int,
            depth as int,
        ) matches Parsed::Halt { used }
            && final(alloc).next == old(alloc).next + used) || (final(alloc).next
            == usize::MAX && old(alloc).next + pused(sp_table_key(
            state.tokens@,
            state.position as int,
            depth as int,
        ))
            > usize::MAX)),
    decreases state.tokens@.len() - state.position, 1int,
{
    match parse_identifier(state) {
        Ok((s1, name)) => {
            match parse_operator(s1, "=") {
                Ok(s2) => Ok((s2, TableKey::Name(name))),
                Err(_) => Err(ParseAbort::NoMatch),
            }
        },
        Err(_) => {
            let s1 = match parse_operator(state, "[") {
                Ok(s) => s,
                Err(e) => {
                    return Err(e);
                },
            };
            let (s2, key_expr) = match parse_expression_prec(s1, alloc, 0, depth) {
                Ok(p) => p,
                Err(e) => {
                    return Err(e);
                },
            };
            let s3 = match parse_operator(s2, "]") {
                Ok(s) => s,
                Err(e) => {
                    return Err(e);
                },
            };
            let s4 = match parse_operator(s3, "=") {
                Ok(s) => s,
                Err(e) => {
                    return Err(e);
                },
            };
            Ok((s4, TableKey::Expression(key_expr)))
        },
    }
}

/// One table entry: an optional key, then the value expression.
fn parse_table_value<'a>(state: ParseState<'a>, alloc: &mut IdAllocator, depth: usize) -> (r: Result<
    (ParseState<'a>, (Option<TableKey>, Expression)),
    ParseAbort,
>)
    requires
        state.wf(),
    ensures
        final(alloc).next >= old(alloc).next,
        r matches Ok(p) ==> p.0.tokens@ == state.tokens@ && state.position < p.0.position
            <= state.tokens@.len() && p.0.wf(),
        r matches Ok(p) ==> ids_ok(
            table_item_ids(p.1),
            old(alloc).next as int,
            final(alloc).next as int,
        ),
        r matches Ok(p) ==> (sp_table_value(state.tokens@, state.position as int, depth as int)
            matches Parsed::Found { pos, val, used } && pos == p.0.position as int && final(alloc).next == old(alloc).next + used && val == aitem(p.1)),
        no_match(r) ==> (sp_table_value(state.tokens@, state.position as int, depth as int) matches Parsed::Absent { used }
            && final(alloc).next == old(alloc).next + used),
        errored(r) ==> ((sp_table_value(
            state.tokens@,
            state.position as int,
            depth as int,
        ) matches Parsed::Halt { used }
            && final(alloc).next == old(alloc).next + used) || (final(alloc).next
            == usize::MAX && old(alloc).next + pused(sp_table_value(
            state.tokens@,
            state.position as int,
            depth as int,
        ))
            > usize::MAX)),
    decreases state.tokens@.len() - state.position, 6int,
{
    let ghost n0: int = alloc.next as int;
    let (cur, key): (ParseState<'a>, Option<TableKey>) = match parse_table_key(state, alloc, depth) {
        Ok((s1, k)) => (s1, Some(k)),
        Err(ParseAbort::NoMatch) => (state, None),
        Err(e) => {
            return Err(e);
        },
    };
    let ghost na: int = alloc.next as int;
    let (s2, value) = match parse_expression_prec(cur, alloc, 0, depth) {
        Ok(p) => p,
        Err(e) => {
            return Err(e);
        },
    };
    proof {
        let nb = alloc.next as int;
        if key is Some {
            let k = key->0;
            lemma_ids_widen(table_key_ids(k), n0, na, n0, na);
            lemma_ids_concat(table_key_ids(k), expr_ids(value), n0, na, nb);
            assert(opt_table_key_ids(key) == table_key_ids(k));
        } else {
            assert(opt_table_key_ids(key) =~= Seq::<Id>::empty());
            assert(opt_table_key_ids(key) + expr_ids(value) =~= expr_ids(value));
            lemma_ids_widen(expr_ids(value), na, nb, n0, nb);
        }
        assert(table_item_ids((key, value)) == opt_table_key_ids(key) + expr_ids(value));
    }
    Ok((s2, (key, value)))
}

/// A table literal: `{`, entries separated by `,` or `;` with a trailing
/// separator allowed, then `}`.
#[verifier::loop_isolation(false)]
#[verifier::rlimit(60)]
fn parse_table_literal<'a>(state: ParseState<'a>, alloc: &mut IdAllocator, depth: usize) -> (r: Result<
    (ParseState<'a>, TableLiteral),
    ParseAbort,
>)
    requires
        state.wf(),
    ensures
        final(alloc).next >= old(alloc).next,
        r matches Ok(p) ==> p.0.tokens@ == state.tokens@ && state.position < p.0.position
            <= state.tokens@.len() && p.0.wf(),
        r matches Ok(p) ==> ids_ok(
            table_literal_ids(p.1),
            old(alloc).next as int,
            final(alloc).next as int,
        ),
        !tok_operator(state.tokens@, state.position as int, "{"@) ==> no_match(r),
        r matches Ok(p) ==> (sp_table_literal(state.tokens@, state.position as int, depth as int)
            matches Parsed::Found { pos, val, used } && pos == p.0.position as int && final(alloc).next == old(alloc).next + used && val == atable(
            p.1,
        )),
        no_match(r) ==> (sp_table_literal(state.tokens@, state.position as int, depth as int) matches Parsed::Absent { used }
            && final(alloc).next == old(alloc).next + used),
        errored(r) ==> ((sp_table_literal(
            state.tokens@,
            state.position as int,
            depth as int,
        ) matches Parsed::Halt { used }
            && final(alloc).next == old(alloc).next + used) || (final(alloc).next
            == usize::MAX && old(alloc).next + pused(sp_table_literal(
            state.tokens@,
            state.position as int,
            depth as int,
        ))
            > usize::MAX)),
    decreases state.tokens@.len() - state.position, 2int,
{
    let s0 = match parse_operator(state, "{") {
        Ok(s) => s,
        Err(e) => {
            return Err(e);
        },
    };
    if depth >= MAX_NESTING_DEPTH {
        return Err(nesting_error());
    }
    let ghost n0: int = alloc.next as int;
    let mut items: Vec<(Option<TableKey>, Expression)> = Vec::new();
    let mut cur = s0;
    let ghost gt = state.tokens@;
    let ghost ipos: int = s0.position as int;
    let ghost dd: int = depth as int + 1;
    proof {
        assert(aitems(items@) =~= Seq::<(Option<GTableKey>, GExpr)>::empty());
        match sp_table_items(gt, ipos, dd) {
            Parsed::Found { pos, val, used } => {
                assert(aitems(items@) + val =~= val);
            },
            _ => {},
        }
    }
    loop
        invariant
            cur.wf(),
            cur.tokens@ == state.tokens@,
            state.position < cur.position <= state.tokens@.len(),
            n0 <= alloc.next as int,
            ids_ok(table_items_ids(items@), n0, alloc.next as int),
            ({
                let whole = sp_table_items(gt, ipos, dd);
                match sp_table_items(gt, cur.position as int, dd) {
                    Parsed::Found { pos, val, used } => whole == (Parsed::Found::<
                        Seq<(Option<GTableKey>, GExpr)>,
                    > {
                        pos,
                        val: aitems(items@) + val,
                        used: ((alloc.next - n0) as nat + used),
                    }),
                    Parsed::Absent { used } => whole == (Parsed::Absent::<Seq<(Option<GTableKey>, GExpr)>> {
                        used: ((alloc.next - n0) as nat + used),
                    }),
                    Parsed::Halt { used } => whole == (Parsed::Halt::<Seq<(Option<GTableKey>, GExpr)>> {
                        used: ((alloc.next - n0) as nat + used),
                    }),
                }
            }),
        decreases state.tokens@.len() - cur.position,
    {
        let ghost na: int = alloc.next as int;
        let ghost cpos: int = cur.position as int;
        match parse_table_value(cur, alloc, depth + 1) {
            Ok((s1, item)) => {
                proof {
                    lemma_table_items_ids_push(items@, item);
                    lemma_ids_concat(
                        table_items_ids(items@),
                        table_item_ids(item),
                        n0,
                        na,
                        alloc.next as int,
                    );
                    lemma_aitems_push(items@, item);
                }
                let ghost gold = items@;
                items.push(item);
                cur = s1;
                if peek_operator(cur, ",") {
                    proof {
                        assert(clamp_pos(cpos, cur.position as int + 1, gt.len() as int)
                            == cur.position + 1);
                        match sp_table_items(gt, cur.position as int + 1, dd) {
                            Parsed::Found { pos, val, used } => {
                                assert((aitems(gold) + seq![aitem(item)]) + val =~= aitems(gold)
                                    + (seq![aitem(item)] + val));
                            },
                            _ => {},
                        }
                    }
                    cur = cur.advance(1);
                } else if peek_operator(cur, ";") {
                    proof {
                        assert(clamp_pos(cpos, cur.position as int + 1, gt.len() as int)
                            == cur.position + 1);
                        match sp_table_items(gt, cur.position as int + 1, dd) {
                            Parsed::Found { pos, val, used } => {
                                assert((aitems(gold) + seq![aitem(item)]) + val =~= aitems(gold)
                                    + (seq![aitem(item)] + val));
                            },
                            _ => {},
                        }
                    }
                    cur = cur.advance(1);
                } else {
                    proof {
                        assert(sp_table_items(gt, cpos, dd) == (Parsed::Found::<
                            Seq<(Option<GTableKey>, GExpr)>,
                        > {
                            pos: cur.position as int,
                            val: seq![aitem(item)],
                            used: (alloc.next - na) as nat,
                        }));
                        assert(aitems(gold) + seq![aitem(item)] =~= aitems(items@));
                    }
                    break ;
                }
            },
            Err(ParseAbort::NoMatch) => {
                proof {
                    assert(sp_table_items(gt, cpos, dd) == (Parsed::Found::<
                        Seq<(Option<GTableKey>, GExpr)>,
                    > { pos: cpos, val: Seq::empty(), used: (alloc.next - na) as nat }));
                    assert(aitems(items@) + Seq::<(Option<GTableKey>, GExpr)>::empty() =~= aitems(
                        items@,
                    ));
                }
                break ;
            },
            Err(e) => {
                return Err(e);
            },
        }
    }
    let s_end = match parse_operator(cur, "}") {
        Ok(s) => s,
        Err(e) => {
            return Err(e);
        },
    };
    Ok((s_end, TableLiteral { items }))
}

/// A call of the form `name ( arguments )`. The whole shape backtracks with
/// `NoMatch` when it does not fit; only a malformed argument list commits.
fn parse_function_call<'a>(state: ParseState<'a>, alloc: &mut IdAllocator, depth: usize) -> (r: Result<
    (ParseState<'a>, FunctionCall),
    ParseAbort,
>)
    requires
        state.wf(),
    ensures
        final(alloc).next >= old(alloc).next,
        r matches Ok(p) ==> p.0.tokens@ == state.tokens@ && state.position < p.0.position
            <= state.tokens@.len() && p.0.wf(),
        r matches Ok(p) ==> ids_ok(
            function_call_ids(p.1),
            old(alloc).next as int,
            final(alloc).next as int,
        ),
        !tok_identifier(state.tokens@, state.position as int) ==> no_match(r),
        r matches Ok(p) ==> (*p.1.name_expression matches Expression::Name { id, value }
            && state.tokens@[state.position as int].kind matches TokenKind::Identifier(s)
            && value@ == s@),
        r matches Ok(p) ==> (sp_function_call(state.tokens@, state.position as int, depth as int)
            matches Parsed::Found { pos, val, used } && pos == p.0.position as int && final(alloc).next == old(alloc).next + used && val == acall(
            p.1,
        )),
        no_match(r) ==> (sp_function_call(state.tokens@, state.position as int, depth as int) matches Parsed::Absent { used }
            && final(alloc).next == old(alloc).next + used),
        errored(r) ==> ((sp_function_call(
            state.tokens@,
            state.position as int,
            depth as int,
        ) matches Parsed::Halt { used }
            && final(alloc).next == old(alloc).next + used) || (final(alloc).next
            == usize::MAX && old(alloc).next + pused(sp_function_call(
            state.tokens@,
            state.position as int,
            depth as int,
        ))
            > usize::MAX)),
    decreases state.tokens@.len() - state.position, 1int,
{
    let (s1, name) = match parse_identifier(state) {
        Ok(p) => p,
        Err(e) => {
            return Err(e);
        },
    };
    let s2 = match parse_open_paren(s1) {
        Ok(s) => s,
        Err(e) => {
            return Err(e);
        },
    };
    if depth >= MAX_NESTING_DEPTH {
        return Err(nesting_error());
    }
    let ghost n0: int = alloc.next as int;
    let (s3, args) = match parse_expression_list_zero(s2, alloc, depth + 1) {
        Ok(p) => p,
        Err(e) => {
            return Err(e);
        },
    };
    let s4 = match parse_close_paren(s3) {
        Ok(s) => s,
        Err(e) => {
            return Err(e);
        },
    };
    let ghost na: int = alloc.next as int;
    let nid = match alloc_id(alloc) {
        Ok(i) => i,
        Err(e) => {
            return Err(e);
        },
    };
    let name_expr = Expression::Name { id: nid, value: name };
    let call = FunctionCall { name_expression: Box::new(name_expr), arguments: args };
    proof {
        assert(expr_ids(name_expr) =~= seq![nid]);
        lemma_ids_single(nid, na, na + 1);
        lemma_ids_concat2(
            expr_ids(name_expr),
            exprs_ids(args@),
            na,
            na + 1,
            n0,
            na,
            n0,
            na + 1,
        );
        assert(function_call_ids(call) == expr_ids(name_expr) + exprs_ids(args@));
    }
    Ok((s4, call))
}

/// Zero or more comma-separated expressions, no trailing separator: after a
/// `,` another expression is owed, so a dangling separator is a committed
/// error. An absent first expression yields the empty list.
#[verifier::loop_isolation(false)]
#[verifier::rlimit(60)]
fn parse_expression_list_zero<'a>(state: ParseState<'a>, alloc: &mut IdAllocator, depth: usize) -> (r: Result<
    (ParseState<'a>, Vec<Expression>),
    ParseAbort,
>)
    requires
        state.wf(),
    ensures
        final(alloc).next >= old(alloc).next,
        r matches Ok(p) ==> p.0.tokens@ == state.tokens@ && state.position <= p.0.position
            <= state.tokens@.len() && p.0.wf(),
        r matches Ok(p) ==> ids_ok(
            exprs_ids(p.1@),
            old(alloc).next as int,
            final(alloc).next as int,
        ),
        r is Err ==> errored(r),
        r matches Ok(p) ==> (sp_expr_list_zero(
            state.tokens@,
            state.position as int,
            depth as int,
        ) matches Parsed::Found { pos, val, used } && pos == p.0.position as int && final(alloc).next == old(alloc).next + used && val == aexprs(
            p.1@,
        )),
        errored(r) ==> ((sp_expr_list_zero(
            state.tokens@,
            state.position as int,
            depth as int,
        ) matches Parsed::Halt { used }
            && final(alloc).next == old(alloc).next + used) || (final(alloc).next
            == usize::MAX && old(alloc).next + pused(sp_expr_list_zero(
            state.tokens@,
            state.position as int,
            depth as int,
        ))
            > usize::MAX)),
    decreases state.tokens@.len() - state.position, 6int,
{
    let ghost n0: int = alloc.next as int;
    let mut exprs: Vec<Expression> = Vec::new();
    let mut cur = state;
    match parse_expression_prec(state, alloc, 0, depth) {
        Ok((s1, e)) => {
            proof {
                lemma_exprs_ids_push(Seq::empty(), e);
                assert(Seq::<Expression>::empty().push(e) =~= exprs@.push(e));
                assert(exprs_ids(Seq::<Expression>::empty()) + expr_ids(e) =~= expr_ids(e));
                lemma_aexprs_push(Seq::empty(), e);
                assert(aexprs(Seq::<Expression>::empty()) + seq![aexpr(e)] =~= seq![aexpr(e)]);
            }
            exprs.push(e);
            cur = s1;
            proof {
                assert(aexprs(exprs@) == seq![aexpr(e)]);
                match sp_expr_list_rest(state.tokens@, cur.position as int, depth as int) {
                    Parsed::Found { pos, val, used } => {
                        assert(seq![aexpr(e)] + val =~= aexprs(exprs@) + val);
                    },
                    _ => {},
                }
            }
        },
        Err(ParseAbort::NoMatch) => {
            proof {
                assert(aexprs(exprs@) =~= Seq::<GExpr>::empty());
            }
            return Ok((state, exprs));
        },
        Err(e) => {
            return Err(e);
        },
    }
    loop
        invariant
            cur.wf(),
            cur.tokens@ == state.tokens@,
            state.position < cur.position <= state.tokens@.len(),
            n0 <= alloc.next as int,
            ids_ok(exprs_ids(exprs@), n0, alloc.next as int),
            ({
                let whole = sp_expr_list_zero(
                    state.tokens@,
                    state.position as int,
                    depth as int,
                );
                match sp_expr_list_rest(state.tokens@, cur.position as int, depth as int) {
                    Parsed::Found { pos, val, used } => whole == (Parsed::Found::<Seq<GExpr>> {
                        pos,
                        val: aexprs(exprs@) + val,
                        used: ((alloc.next - n0) as nat + used),
                    }),
                    Parsed::Absent { used } => whole == (Parsed::Absent::<Seq<GExpr>> {
                        used: ((alloc.next - n0) as nat + used),
                    }),
                    Parsed::Halt { used } => whole == (Parsed::Halt::<Seq<GExpr>> {
                        used: ((alloc.next - n0) as nat + used),
                    }),
                }
            }),
        decreases state.tokens@.len() - cur.position,
    {
        let ghost cpos: int = cur.position as int;
        if peek_operator(cur, ",") {
            let s2 = cur.advance(1);
            let ghost na: int = alloc.next as int;
            match require_expression(s2, alloc, "after `,` in an expression list", depth) {
                Ok((s3, e)) => {
                    proof {
                        lemma_exprs_ids_push(exprs@, e);
                        lemma_ids_concat(exprs_ids(exprs@), expr_ids(e), n0, na, alloc.next as int);
                        lemma_aexprs_push(exprs@, e);
                        assert(clamp_pos(cpos, s3.position as int, state.tokens@.len() as int)
                            == s3.position);
                        match sp_expr_list_rest(state.tokens@, s3.position as int, depth as int) {
                            Parsed::Found { pos, val, used } => {
                                assert((aexprs(exprs@) + seq![aexpr(e)]) + val =~= aexprs(exprs@)
                                    + (seq![aexpr(e)] + val));
                            },
                            _ => {},
                        }
                    }
                    exprs.push(e);
                    cur = s3;
                },
                Err(e) => {
                    return Err(e);
                },
            }
        } else {
            proof {
                assert(aexprs(exprs@) + Seq::<GExpr>::empty() =~= aexprs(exprs@));
            }
            return Ok((cur, exprs));
        }
    }
}

/// Demand an expression; its absence is a committed `Error` naming the token
/// found.
fn require_expression<'a>(state: ParseState<'a>, alloc: &mut IdAllocator, context: &str, depth: usize) -> (r:
    Result<(ParseState<'a>, Expression), ParseAbort>)
    requires
        state.wf(),
    ensures
        final(alloc).next >= old(alloc).next,
        r matches Ok(p) ==> p.0.tokens@ == state.tokens@ && state.position < p.0.position
            <= state.tokens@.len() && p.0.wf(),
        r matches Ok(p) ==> ids_ok(
            expr_ids(p.1),
            old(alloc).next as int,
            final(alloc).next as int,
        ),
        r is Err ==> errored(r),
        r matches Ok(p) ==> (sp_expr(state.tokens@, state.position as int, 0, depth as int)
            matches Parsed::Found { pos, val, used } && pos == p.0.position as int && final(alloc).next == old(alloc).next + used && val == aexpr(
            p.1,
        )),
        errored(r) ==> (((sp_expr(state.tokens@, state.position as int, 0, depth as int) is Halt
            || sp_expr(state.tokens@, state.position as int, 0, depth as int) is Absent)
            && final(alloc).next == old(alloc).next + pused(
            sp_expr(state.tokens@, state.position as int, 0, depth as int),
        )) || (final(alloc).next == usize::MAX && old(alloc).next + pused(
            sp_expr(state.tokens@, state.position as int, 0, depth as int),
        ) > usize::MAX)),
    decreases state.tokens@.len() - state.position, 6int,
{
    match parse_expression_prec(state, alloc, 0, depth) {
        Ok(p) => Ok(p),
        Err(ParseAbort::NoMatch) => Err(
            ParseAbort::Error(expected_message("an expression", context, state)),
        ),
        Err(e) => Err(e),
    }
}

/// A primary expression: a literal, `...`, a call, a name, a parenthesised
/// expression, or a table literal.
#[verifier::rlimit(60)]
fn parse_primary<'a>(state: ParseState<'a>, alloc: &mut IdAllocator, depth: usize) -> (r: Result<
    (ParseState<'a>, Expression),
    ParseAbort,
>)
    requires
        state.wf(),
    ensures
        final(alloc).next >= old(alloc).next,
        r matches Ok(p) ==> p.0.tokens@ == state.tokens@ && state.position < p.0.position
            <= state.tokens@.len() && p.0.wf(),
        r matches Ok(p) ==> ids_ok(
            expr_ids(p.1),
            old(alloc).next as int,
            final(alloc).next as int,
        ),
        !simple_primary_start(state.tokens@, state.position as int) && !tok_operator(
            state.tokens@,
            state.position as int,
            "{"@,
        ) ==> no_match(r),
        no_match(r) ==> !simple_primary_start(state.tokens@, state.position as int),
        r matches Ok(p) ==> (tok_number(state.tokens@, state.position as int) ==> (
        state.tokens@[state.position as int].kind matches TokenKind::NumberLiteral(s) && p.1
            matches Expression::Number { id, value } && value@ == s@ && p.0.position
            == state.position + 1)),
        r matches Ok(p) ==> (tok_string(state.tokens@, state.position as int) ==> (
        state.tokens@[state.position as int].kind matches TokenKind::StringLiteral(s) && p.1
            matches Expression::String { id, value } && value.raw@ == s.raw@ && value.interpreted@
            == s.interpreted@ && p.0.position == state.position + 1)),
        r matches Ok(p) ==> (tok_keyword(state.tokens@, state.position as int, "nil"@) ==> p.1
            is Nil && p.0.position == state.position + 1),
        r matches Ok(p) ==> (tok_keyword(state.tokens@, state.position as int, "true"@) ==> (p.1
            matches Expression::Bool { id, value } && value == true && p.0.position
            == state.position + 1)),
        r matches Ok(p) ==> (tok_keyword(state.tokens@, state.position as int, "false"@) ==> (p.1
            matches Expression::Bool { id, value } && value == false && p.0.position
            == state.position + 1)),
        r matches Ok(p) ==> (tok_operator(state.tokens@, state.position as int, "..."@) ==> p.1
            is VarArg && p.0.position == state.position + 1),
        r matches Ok(p) ==> (sp_primary(state.tokens@, state.position as int, depth as int)
            matches Parsed::Found { pos, val, used } && pos == p.0.position as int && final(alloc).next == old(alloc).next + used && val == aexpr(
            p.1,
        )),
        no_match(r) ==> (sp_primary(state.tokens@, state.position as int, depth as int) matches Parsed::Absent { used }
            && final(alloc).next == old(alloc).next + used),
        errored(r) ==> ((sp_primary(
            state.tokens@,
            state.position as int,
            depth as int,
        ) matches Parsed::Halt { used }
            && final(alloc).next == old(alloc).next + used) || (final(alloc).next
            == usize::MAX && old(alloc).next + pused(sp_primary(
            state.tokens@,
            state.position as int,
            depth as int,
        ))
            > usize::MAX)),
    decreases state.tokens@.len() - state.position, 3int,
{
    proof {
        reveal_strlit("nil");
        reveal_strlit("true");
        reveal_strlit("false");
        assert("nil"@.len() == 3);
        assert("true"@.len() == 4);
        assert("false"@.len() == 5);
    }
    match parse_number(state) {
        Ok((s1, text)) => {
            let id = match alloc_id(alloc) {
                Ok(i) => i,
                Err(e) => {
                    return Err(e);
                },
            };
            proof {
                lemma_ids_single(id, id as int, id as int + 1);
            }
            return Ok((s1, Expression::Number { id, value: text }));
        },
        Err(_) => {},
    }
    match parse_string_literal(state) {
        Ok((s1, lit)) => {
            let id = match alloc_id(alloc) {
                Ok(i) => i,
                Err(e) => {
                    return Err(e);
                },
            };
            proof {
                lemma_ids_single(id, id as int, id as int + 1);
            }
            return Ok((s1, Expression::String { id, value: lit }));
        },
        Err(_) => {},
    }
    if peek_keyword(state, "nil") {
        let s1 = state.advance(1);
        let id = match alloc_id(alloc) {
            Ok(i) => i,
            Err(e) => {
                return Err(e);
            },
        };
        proof {
            lemma_ids_single(id, id as int, id as int + 1);
        }
        return Ok((s1, Expression::Nil { id }));
    }
    if peek_keyword(state, "true") {
        let s1 = state.advance(1);
        let id = match alloc_id(alloc) {
            Ok(i) => i,
            Err(e) => {
                return Err(e);
            },
        };
        proof {
            lemma_ids_single(id, id as int, id as int + 1);
        }
        return Ok((s1, Expression::Bool { id, value: true }));
    }
    if peek_keyword(state, "false") {
        let s1 = state.advance(1);
        let id = match alloc_id(alloc) {
            Ok(i) => i,
            Err(e) => {
                return Err(e);
            },
        };
        proof {
            lemma_ids_single(id, id as int, id as int + 1);
        }
        return Ok((s1, Expression::Bool { id, value: false }));
    }
    if peek_operator(state, "...") {
        let s1 = state.advance(1);
        let id = match alloc_id(alloc) {
            Ok(i) => i,
            Err(e) => {
                return Err(e);
            },
        };
        proof {
            lemma_ids_single(id, id as int, id as int + 1);
        }
        return Ok((s1, Expression::VarArg { id }));
    }
    let ghost n0: int = alloc.next as int;
    match parse_function_call(state, alloc, depth) {
        Ok((s1, call)) => {
            let ghost na: int = alloc.next as int;
            let id = match alloc_id(alloc) {
                Ok(i) => i,
                Err(e) => {
                    return Err(e);
                },
            };
            let e = Expression::FunctionCall { id, value: call };
            proof {
                lemma_ids_single(id, na, na + 1);
                lemma_ids_concat2(seq![id], function_call_ids(call), na, na + 1, n0, na, n0, na + 1);
                assert(expr_ids(e) == seq![id] + function_call_ids(call));
            }
            return Ok((s1, e));
        },
        Err(ParseAbort::NoMatch) => {
            match parse_identifier(state) {
                Ok((s1, name)) => {
                    let ghost nb: int = alloc.next as int;
                    let id = match alloc_id(alloc) {
                        Ok(i) => i,
                        Err(e) => {
                            return Err(e);
                        },
                    };
                    proof {
                        lemma_ids_single(id, nb, nb + 1);
                        lemma_ids_widen(seq![id], nb, nb + 1, n0, nb + 1);
                    }
                    return Ok((s1, Expression::Name { id, value: name }));
                },
                Err(_) => {},
            }
        },
        Err(e) => {
            return Err(e);
        },
    }
    match parse_open_paren(state) {
        Ok(s1) => {
            if depth >= MAX_NESTING_DEPTH {
                return Err(nesting_error());
            }
            let ghost nb: int = alloc.next as int;
            let (s2, inner) = match require_expression(s1, alloc, "after `(`", depth + 1) {
                Ok(p) => p,
                Err(e) => {
                    return Err(e);
                },
            };
            let s3 = match require_close_paren(s2, "to close the parenthesised expression") {
                Ok(s) => s,
                Err(e) => {
                    return Err(e);
                },
            };
            let ghost nc: int = alloc.next as int;
            let id = match alloc_id(alloc) {
                Ok(i) => i,
                Err(e) => {
                    return Err(e);
                },
            };
            let e = Expression::ParenExpression { id, value: Box::new(inner) };
            proof {
                lemma_ids_single(id, nc, nc + 1);
                lemma_ids_concat2(seq![id], expr_ids(inner), nc, nc + 1, nb, nc, n0, nc + 1);
                assert(expr_ids(e) == seq![id] + expr_ids(inner));
            }
            return Ok((s3, e));
        },
        Err(_) => {},
    }
    match parse_table_literal(state, alloc, depth) {
        Ok((s1, t)) => {
            let ghost na: int = alloc.next as int;
            let id = match alloc_id(alloc) {
                Ok(i) => i,
                Err(e) => {
                    return Err(e);
                },
            };
            let e = Expression::Table { id, value: t };
            proof {
                lemma_ids_single(id, na, na + 1);
                lemma_ids_concat2(seq![id], table_literal_ids(t), na, na + 1, n0, na, n0, na + 1);
                assert(expr_ids(e) == seq![id] + table_literal_ids(t));
            }
            Ok((s1, e))
        },
        Err(e) => Err(e),
    }
}

/// A unary-or-primary operand: unary operators bind at precedence 11 and
/// apply to the operand that follows; once one is consumed the rule has
/// committed, so a missing operand is an `Error`.
fn parse_operand<'a>(state: ParseState<'a>, alloc: &mut IdAllocator, depth: usize) -> (r: Result<
    (ParseState<'a>, Expression),
    ParseAbort,
>)
    requires
        state.wf(),
    ensures
        final(alloc).next >= old(alloc).next,
        r matches Ok(p) ==> p.0.tokens@ == state.tokens@ && state.position < p.0.position
            <= state.tokens@.len() && p.0.wf(),
        r matches Ok(p) ==> ids_ok(
            expr_ids(p.1),
            old(alloc).next as int,
            final(alloc).next as int,
        ),
        !expr_start(state.tokens@, state.position as int) ==> no_match(r),
        no_match(r) ==> !simple_primary_start(state.tokens@, state.position as int)
            && spec_unop_at(state.tokens@, state.position as int) is None,
        r matches Ok(p) ==> (sp_operand(state.tokens@, state.position as int, depth as int)
            matches Parsed::Found { pos, val, used } && pos == p.0.position as int && final(alloc).next == old(alloc).next + used && val == aexpr(
            p.1,
        )),
        no_match(r) ==> (sp_operand(state.tokens@, state.position as int, depth as int) matches Parsed::Absent { used }
            && final(alloc).next == old(alloc).next + used),
        errored(r) ==> ((sp_operand(
            state.tokens@,
            state.position as int,
            depth as int,
        ) matches Parsed::Halt { used }
            && final(alloc).next == old(alloc).next + used) || (final(alloc).next
            == usize::MAX && old(alloc).next + pused(sp_operand(
            state.tokens@,
            state.position as int,
            depth as int,
        ))
            > usize::MAX)),
    decreases state.tokens@.len() - state.position, 4int,
{
    match unop_at(state) {
        Some(op) => {
            if depth >= MAX_NESTING_DEPTH {
                return Err(nesting_error());
            }
            let s1 = state.advance(1);
            let ghost n0: int = alloc.next as int;
            let (s2, arg) = match parse_operand(s1, alloc, depth + 1) {
                Ok(p) => p,
                Err(ParseAbort::NoMatch) => {
                    return Err(
                        ParseAbort::Error(
                            expected_message("an expression", "after a unary operator", s1),
                        ),
                    );
                },
                Err(e) => {
                    return Err(e);
                },
            };
            let ghost na: int = alloc.next as int;
            let id = match alloc_id(alloc) {
                Ok(i) => i,
                Err(e) => {
                    return Err(e);
                },
            };
            let e = Expression::UnaryOp { id, value: UnaryOp { operator: op, argument: Box::new(arg) } };
            proof {
                lemma_ids_single(id, na, na + 1);
                lemma_ids_concat2(seq![id], expr_ids(arg), na, na + 1, n0, na, n0, na + 1);
                assert(expr_ids(e) == seq![id] + expr_ids(arg));
            }
            Ok((s2, e))
        },
        None => parse_primary(state, alloc, depth),
    }
}

/// Precedence climbing: parse an operand, then as long as a binary operator
/// of at least `min_prec` follows, consume it and parse its right-hand side
/// with the threshold raised to the operator's precedence (right-associative)
/// or one above it (left-associative).
#[verifier::loop_isolation(false)]
#[verifier::rlimit(60)]
fn parse_expression_prec<'a>(state: ParseState<'a>, alloc: &mut IdAllocator, min_prec: u8, depth: usize) -> (r:
    Result<(ParseState<'a>, Expression), ParseAbort>)
    requires
        state.wf(),
    ensures
        final(alloc).next >= old(alloc).next,
        r matches Ok(p) ==> p.0.tokens@ == state.tokens@ && state.position < p.0.position
            <= state.tokens@.len() && p.0.wf(),
        r matches Ok(p) ==> ids_ok(
            expr_ids(p.1),
            old(alloc).next as int,
            final(alloc).next as int,
        ),
        !expr_start(state.tokens@, state.position as int) ==> no_match(r),
        no_match(r) ==> !simple_primary_start(state.tokens@, state.position as int)
            && spec_unop_at(state.tokens@, state.position as int) is None,
        r matches Ok(p) ==> (sp_expr(
            state.tokens@,
            state.position as int,
            min_prec as int,
            depth as int,
        ) matches Parsed::Found { pos, val, used } && pos == p.0.position as int && final(alloc).next == old(alloc).next + used && val == aexpr(
            p.1,
        )),
        no_match(r) ==> (sp_expr(
            state.tokens@,
            state.position as int,
            min_prec as int,
            depth as int,
        ) matches Parsed::Absent { used }
            && final(alloc).next == old(alloc).next + used),
        errored(r) ==> ((sp_expr(
            state.tokens@,
            state.position as int,
            min_prec as int,
            depth as int,
        ) matches Parsed::Halt { used }
            && final(alloc).next == old(alloc).next + used) || (final(alloc).next
            == usize::MAX && old(alloc).next + pused(sp_expr(
            state.tokens@,
            state.position as int,
            min_prec as int,
            depth as int,
        ))
            > usize::MAX)),
    decreases state.tokens@.len() - state.position, 5int,
{
    let ghost n0: int = alloc.next as int;
    let (mut cur, mut lhs) = match parse_operand(state, alloc, depth) {
        Ok(p) => p,
        Err(e) => {
            return Err(e);
        },
    };
    proof {
        assert(clamp_pos(
            state.position as int,
            cur.position as int,
            state.tokens@.len() as int,
        ) == cur.position);
    }
    loop
        invariant
            cur.wf(),
            cur.tokens@ == state.tokens@,
            state.position < cur.position <= state.tokens@.len(),
            n0 <= alloc.next as int,
            ids_ok(expr_ids(lhs), n0, alloc.next as int),
            ({
                let whole = sp_expr(
                    state.tokens@,
                    state.position as int,
                    min_prec as int,
                    depth as int,
                );
                match sp_climb(
                    state.tokens@,
                    cur.position as int,
                    min_prec as int,
                    aexpr(lhs),
                    depth as int,
                ) {
                    Parsed::Found { pos, val, used } => whole == (Parsed::Found::<GExpr> {
                        pos,
                        val,
                        used: ((alloc.next - n0) as nat + used),
                    }),
                    Parsed::Absent { used } => whole == (Parsed::Absent::<GExpr> {
                        used: ((alloc.next - n0) as nat + used),
                    }),
                    Parsed::Halt { used } => whole == (Parsed::Halt::<GExpr> {
                        used: ((alloc.next - n0) as nat + used),
                    }),
                }
            }),
        decreases state.tokens@.len() - cur.position,
    {
        let ghost cpos: int = cur.position as int;
        let ghost glhs = aexpr(lhs);
        match binop_at(cur) {
            Some(op) => {
                let prec = op.precedence();
                if prec >= min_prec {
                    assert(spec_precedence(op) <= 12);
                    let next_min: u8 = if op.is_right_associative() {
                        prec
                    } else {
                        prec + 1
                    };
                    if depth >= MAX_NESTING_DEPTH {
                        return Err(nesting_error());
                    }
                    let s_rhs = cur.advance(1);
                    let ghost na: int = alloc.next as int;
                    let (s2, rhs) = match parse_expression_prec(s_rhs, alloc, next_min, depth + 1) {
                        Ok(p) => p,
                        Err(ParseAbort::NoMatch) => {
                            return Err(
                                ParseAbort::Error(
                                    expected_message(
                                        "an expression",
                                        "after a binary operator",
                                        s_rhs,
                                    ),
                                ),
                            );
                        },
                        Err(e) => {
                            return Err(e);
                        },
                    };
                    let ghost nb: int = alloc.next as int;
                    let id = match alloc_id(alloc) {
                        Ok(i) => i,
                        Err(e) => {
                            return Err(e);
                        },
                    };
                    let combined = Expression::BinaryOp {
                        id,
                        value: BinaryOp { operator: op, left: Box::new(lhs), right: Box::new(rhs) },
                    };
                    proof {
                        lemma_ids_concat(expr_ids(lhs), expr_ids(rhs), n0, na, nb);
                        lemma_ids_single(id, nb, nb + 1);
                        lemma_ids_concat2(
                            seq![id],
                            expr_ids(lhs) + expr_ids(rhs),
                            nb,
                            nb + 1,
                            n0,
                            nb,
                            n0,
                            nb + 1,
                        );
                        assert(expr_ids(combined) =~= seq![id] + (expr_ids(lhs) + expr_ids(rhs)));
                        assert(aexpr(combined) == (GExpr::BinaryOp {
                            operator: op,
                            left: Box::new(glhs),
                            right: Box::new(aexpr(rhs)),
                        }));
                        assert(clamp_pos(cpos, s2.position as int, state.tokens@.len() as int)
                            == s2.position);
                    }
                    lhs = combined;
                    cur = s2;
                } else {
                    return Ok((cur, lhs));
                }
            },
            None => {
                return Ok((cur, lhs));
            },
        }
    }
}

/// Is the token under the cursor an identifier?
fn peek_identifier(state: ParseState<'_>) -> (r: bool)
    ensures
        r == tok_identifier(state.tokens@, state.position as int),
{
    match state.peek() {
        Some(t) => match &t.kind {
            TokenKind::Identifier(_) => true,
            _ => false,
        },
        None => false,
    }
}

/// One or more comma-separated expressions, every mismatch committed: the
/// value list of an assignment or the sources of a generic `for`.
#[verifier::loop_isolation(false)]
#[verifier::rlimit(60)]
fn require_expression_list<'a>(state: ParseState<'a>, alloc: &mut IdAllocator, context: &str, depth: usize) -> (r:
    Result<(ParseState<'a>, Vec<Expression>), ParseAbort>)
    requires
        state.wf(),
    ensures
        final(alloc).next >= old(alloc).next,
        r matches Ok(p) ==> p.0.tokens@ == state.tokens@ && state.position < p.0.position
            <= state.tokens@.len() && p.0.wf() && p.1@.len() >= 1,
        r matches Ok(p) ==> ids_ok(
            exprs_ids(p.1@),
            old(alloc).next as int,
            final(alloc).next as int,
        ),
        r is Err ==> errored(r),
        r matches Ok(p) ==> (sp_expr_list_one(
            state.tokens@,
            state.position as int,
            depth as int,
        ) matches Parsed::Found { pos, val, used } && pos == p.0.position as int && final(alloc).next == old(alloc).next + used && val == aexprs(
            p.1@,
        )),
        errored(r) ==> ((sp_expr_list_one(
            state.tokens@,
            state.position as int,
            depth as int,
        ) matches Parsed::Halt { used }
            && final(alloc).next == old(alloc).next + used) || (final(alloc).next
            == usize::MAX && old(alloc).next + pused(sp_expr_list_one(
            state.tokens@,
            state.position as int,
            depth as int,
        ))
            > usize::MAX)),
{
    let ghost n0: int = alloc.next as int;
    let (mut cur, first) = match require_expression(state, alloc, context, depth) {
        Ok(p) => p,
        Err(e) => {
            return Err(e);
        },
    };
    let mut exprs: Vec<Expression> = Vec::new();
    proof {
        lemma_exprs_ids_push(Seq::empty(), first);
        assert(Seq::<Expression>::empty().push(first) =~= exprs@.push(first));
        assert(exprs_ids(Seq::<Expression>::empty()) + expr_ids(first) =~= expr_ids(first));
        lemma_aexprs_push(Seq::empty(), first);
        assert(aexprs(Seq::<Expression>::empty()) + seq![aexpr(first)] =~= seq![aexpr(first)]);
    }
    exprs.push(first);
    proof {
        assert(aexprs(exprs@) == seq![aexpr(first)]);
        match sp_expr_list_rest(state.tokens@, cur.position as int, depth as int) {
            Parsed::Found { pos, val, used } => {
                assert(seq![aexpr(first)] + val =~= aexprs(exprs@) + val);
            },
            _ => {},
        }
    }
    loop
        invariant
            cur.wf(),
            cur.tokens@ == state.tokens@,
            state.position < cur.position <= state.tokens@.len(),
            n0 <= alloc.next as int,
            exprs@.len() >= 1,
            ids_ok(exprs_ids(exprs@), n0, alloc.next as int),
            ({
                let whole = sp_expr_list_one(state.tokens@, state.position as int, depth as int);
                match sp_expr_list_rest(state.tokens@, cur.position as int, depth as int) {
                    Parsed::Found { pos, val, used } => whole == (Parsed::Found::<Seq<GExpr>> {
                        pos,
                        val: aexprs(exprs@) + val,
                        used: ((alloc.next - n0) as nat + used),
                    }),
                    Parsed::Absent { used } => whole == (Parsed::Absent::<Seq<GExpr>> {
                        used: ((alloc.next - n0) as nat + used),
                    }),
                    Parsed::Halt { used } => whole == (Parsed::Halt::<Seq<GExpr>> {
                        used: ((alloc.next - n0) as nat + used),
                    }),
                }
            }),
        decreases state.tokens@.len() - cur.position,
    {
        let ghost cpos: int = cur.position as int;
        if peek_operator(cur, ",") {
            let s2 = cur.advance(1);
            let ghost na: int = alloc.next as int;
            match require_expression(s2, alloc, "after `,` in an expression list", depth) {
                Ok((s3, e)) => {
                    proof {
                        lemma_exprs_ids_push(exprs@, e);
                        lemma_ids_concat(exprs_ids(exprs@), expr_ids(e), n0, na, alloc.next as int);
                        lemma_aexprs_push(exprs@, e);
                        assert(clamp_pos(cpos, s3.position as int, state.tokens@.len() as int)
                            == s3.position);
                        match sp_expr_list_rest(state.tokens@, s3.position as int, depth as int) {
                            Parsed::Found { pos, val, used } => {
                                assert((aexprs(exprs@) + seq![aexpr(e)]) + val =~= aexprs(exprs@)
                                    + (seq![aexpr(e)] + val));
                            },
                            _ => {},
                        }
                    }
                    exprs.push(e);
                    cur = s3;
                },
                Err(e) => {
                    return Err(e);
                },
            }
        } else {
            proof {
                assert(aexprs(exprs@) + Seq::<GExpr>::empty() =~= aexprs(exprs@));
            }
            return Ok((cur, exprs));
        }
    }
}

/// `local` name-list, optionally `= expression-list`. `local function` is
/// left for the function-declaration rule; any other malformed tail after
/// `local` is a committed error.
fn parse_local_assignment<'a>(state: ParseState<'a>, alloc: &mut IdAllocator, depth: usize) -> (r: Result<
    (ParseState<'a>, LocalAssignment),
    ParseAbort,
>)
    requires
        state.wf(),
        depth < MAX_NESTING_DEPTH,
    ensures
        final(alloc).next >= old(alloc).next,
        r matches Ok(p) ==> p.0.tokens@ == state.tokens@ && state.position < p.0.position
            <= state.tokens@.len() && p.0.wf(),
        r matches Ok(p) ==> ids_ok(
            local_assignment_ids(p.1),
            old(alloc).next as int,
            final(alloc).next as int,
        ),
        no_match(r) <==> !tok_keyword(state.tokens@, state.position as int, "local"@)
            || tok_keyword(state.tokens@, state.position as int + 1, "function"@),
        r matches Ok(p) ==> p.1.names@.len() >= 1 && (state.tokens@[state.position as int
            + 1].kind matches TokenKind::Identifier(s) && p.1.names@[0]@ == s@),
        r matches Ok(p) ==> (sp_local_assignment(
            state.tokens@,
            state.position as int,
            depth as int,
        ) matches Parsed::Found { pos, val, used } && pos == p.0.position as int
            && final(alloc).next == old(alloc).next + used && val
            == (GLocalAssignment { names: anames(p.1.names@), values: aexprs(p.1.values@) })),
        no_match(r) ==> (sp_local_assignment(state.tokens@, state.position as int, depth as int) matches Parsed::Absent { used }
            && final(alloc).next == old(alloc).next + used),
        errored(r) ==> ((sp_local_assignment(
            state.tokens@,
            state.position as int,
            depth as int,
        ) matches Parsed::Halt { used }
            && final(alloc).next == old(alloc).next + used) || (final(alloc).next
            == usize::MAX && old(alloc).next + pused(sp_local_assignment(
            state.tokens@,
            state.position as int,
            depth as int,
        ))
            > usize::MAX)),
{
    let s1 = match parse_keyword(state, "local") {
        Ok(s) => s,
        Err(e) => {
            return Err(e);
        },
    };
    if peek_keyword(s1, "function") {
        return Err(ParseAbort::NoMatch);
    }
    let (s2, names) = match require_name_list(s1, "after `local`") {
        Ok(p) => p,
        Err(e) => {
            return Err(e);
        },
    };
    let ghost n0: int = alloc.next as int;
    let (s3, values) = if peek_operator(s2, "=") {
        let s_eq = s2.advance(1);
        match require_expression_list(s_eq, alloc, "after `=`", depth) {
            Ok(p) => p,
            Err(e) => {
                return Err(e);
            },
        }
    } else {
        (s2, Vec::new())
    };
    let la = LocalAssignment { names, values };
    proof {
        assert(local_assignment_ids(la) == exprs_ids(la.values@));
        if la.values@.len() == 0 {
            assert(exprs_ids(la.values@) =~= Seq::<Id>::empty());
        }
    }
    Ok((s3, la))
}

/// `for name = start, end [, step] do body end`. The rule backtracks only
/// while the shape can still be a generic `for`; once `=` is seen it has
/// committed, and any mismatch afterwards names the offending token.
fn parse_numeric_for<'a>(state: ParseState<'a>, alloc: &mut IdAllocator, depth: usize) -> (r: Result<
    (ParseState<'a>, NumericFor),
    ParseAbort,
>)
    requires
        state.wf(),
        depth < MAX_NESTING_DEPTH,
    ensures
        final(alloc).next >= old(alloc).next,
        r matches Ok(p) ==> p.0.tokens@ == state.tokens@ && state.position < p.0.position
            <= state.tokens@.len() && p.0.wf(),
        r matches Ok(p) ==> ids_ok(
            numeric_for_ids(p.1),
            old(alloc).next as int,
            final(alloc).next as int,
        ),
        no_match(r) <==> !tok_keyword(state.tokens@, state.position as int, "for"@) || (
        tok_identifier(state.tokens@, state.position as int + 1) && !tok_operator(
            state.tokens@,
            state.position as int + 2,
            "="@,
        )),
        r matches Ok(p) ==> (state.tokens@[state.position as int + 1].kind
            matches TokenKind::Identifier(s) && p.1.var@ == s@),
        r matches Ok(p) ==> (sp_numeric_for(state.tokens@, state.position as int, depth as int)
            matches Parsed::Found { pos, val, used } && pos == p.0.position as int
            && final(alloc).next == old(alloc).next + used && val
            == (GNumericFor {
            var: p.1.var@,
            start: aexpr(p.1.start),
            end: aexpr(p.1.end),
            step: aopt_expr(p.1.step),
            body: achunk(p.1.body),
        })),
        no_match(r) ==> (sp_numeric_for(state.tokens@, state.position as int, depth as int) matches Parsed::Absent { used }
            && final(alloc).next == old(alloc).next + used),
        errored(r) ==> ((sp_numeric_for(
            state.tokens@,
            state.position as int,
            depth as int,
        ) matches Parsed::Halt { used }
            && final(alloc).next == old(alloc).next + used) || (final(alloc).next
            == usize::MAX && old(alloc).next + pused(sp_numeric_for(
            state.tokens@,
            state.position as int,
            depth as int,
        ))
            > usize::MAX)),
    decreases state.tokens@.len() - state.position, 1int,
{
    let s1 = match parse_keyword(state, "for") {
        Ok(s) => s,
        Err(e) => {
            return Err(e);
        },
    };
    let (s2, var) = match require_identifier(s1, "after `for`") {
        Ok(p) => p,
        Err(e) => {
            return Err(e);
        },
    };
    if !peek_operator(s2, "=") {
        return Err(ParseAbort::NoMatch);
    }
    let s3 = s2.advance(1);
    let ghost n0: int = alloc.next as int;
    let (s4, start) = match require_expression(s3, alloc, "after `=` in the numeric-for bounds", depth) {
        Ok(p) => p,
        Err(e) => {
            return Err(e);
        },
    };
    let s5 = match require_operator(s4, ",", "after the first numeric-for bound") {
        Ok(s) => s,
        Err(e) => {
            return Err(e);
        },
    };
    let ghost na: int = alloc.next as int;
    let (s6, end) = match require_expression(s5, alloc, "after `,` in the numeric-for bounds", depth) {
        Ok(p) => p,
        Err(e) => {
            return Err(e);
        },
    };
    let ghost nb: int = alloc.next as int;
    let (s7, step): (ParseState<'a>, Option<Expression>) = if peek_operator(s6, ",") {
        let s_c = s6.advance(1);
        match require_expression(s_c, alloc, "after `,` in the numeric-for bounds", depth) {
            Ok((s, e)) => (s, Some(e)),
            Err(e) => {
                return Err(e);
            },
        }
    } else {
        (s6, None)
    };
    let s8 = match require_keyword(s7, "do", "after the numeric-for bounds") {
        Ok(s) => s,
        Err(e) => {
            return Err(e);
        },
    };
    let ghost nc: int = alloc.next as int;
    let (s9, body) = match parse_chunk_at(s8, alloc, depth + 1) {
        Ok(p) => p,
        Err(e) => {
            return Err(e);
        },
    };
    let s10 = match require_keyword(s9, "end", "to close the numeric-for body") {
        Ok(s) => s,
        Err(e) => {
            return Err(e);
        },
    };
    let nf = NumericFor { var, start, end, step, body };
    proof {
        let nd = alloc.next as int;
        lemma_ids_concat(expr_ids(start), expr_ids(end), n0, na, nb);
        if step is Some {
            assert(opt_expr_ids(nf.step) == expr_ids(step->0));
            lemma_ids_concat(expr_ids(start) + expr_ids(end), opt_expr_ids(nf.step), n0, nb, nc);
        } else {
            assert(opt_expr_ids(nf.step) =~= Seq::<Id>::empty());
            assert((expr_ids(start) + expr_ids(end)) + opt_expr_ids(nf.step) =~= expr_ids(start)
                + expr_ids(end));
            lemma_ids_widen(expr_ids(start) + expr_ids(end), n0, nb, n0, nc);
        }
        lemma_ids_concat(
            (expr_ids(start) + expr_ids(end)) + opt_expr_ids(nf.step),
            chunk_ids(body),
            n0,
            nc,
            nd,
        );
        assert(numeric_for_ids(nf) == ((expr_ids(start) + expr_ids(end)) + opt_expr_ids(nf.step))
            + chunk_ids(body));
    }
    Ok((s10, nf))
}

/// `for name-list in expression-list do body end`; commits on `for` (the
/// numeric form, tried first, has already bowed out).
fn parse_generic_for<'a>(state: ParseState<'a>, alloc: &mut IdAllocator, depth: usize) -> (r: Result<
    (ParseState<'a>, GenericFor),
    ParseAbort,
>)
    requires
        state.wf(),
        depth < MAX_NESTING_DEPTH,
    ensures
        final(alloc).next >= old(alloc).next,
        r matches Ok(p) ==> p.0.tokens@ == state.tokens@ && state.position < p.0.position
            <= state.tokens@.len() && p.0.wf(),
        r matches Ok(p) ==> ids_ok(
            generic_for_ids(p.1),
            old(alloc).next as int,
            final(alloc).next as int,
        ),
        no_match(r) <==> !tok_keyword(state.tokens@, state.position as int, "for"@),
        r matches Ok(p) ==> p.1.vars@.len() >= 1 && (state.tokens@[state.position as int
            + 1].kind matches TokenKind::Identifier(s) && p.1.vars@[0]@ == s@),
        r matches Ok(p) ==> (sp_generic_for(state.tokens@, state.position as int, depth as int)
            matches Parsed::Found { pos, val, used } && pos == p.0.position as int
            && final(alloc).next == old(alloc).next + used && val
            == (GGenericFor {
            vars: anames(p.1.vars@),
            item_source: aexprs(p.1.item_source@),
            body: achunk(p.1.body),
        })),
        no_match(r) ==> (sp_generic_for(state.tokens@, state.position as int, depth as int) matches Parsed::Absent { used }
            && final(alloc).next == old(alloc).next + used),
        errored(r) ==> ((sp_generic_for(
            state.tokens@,
            state.position as int,
            depth as int,
        ) matches Parsed::Halt { used }
            && final(alloc).next == old(alloc).next + used) || (final(alloc).next
            == usize::MAX && old(alloc).next + pused(sp_generic_for(
            state.tokens@,
            state.position as int,
            depth as int,
        ))
            > usize::MAX)),
    decreases state.tokens@.len() - state.position, 1int,
{
    let s1 = match parse_keyword(state, "for") {
        Ok(s) => s,
        Err(e) => {
            return Err(e);
        },
    };
    let (s2, vars) = match require_name_list(s1, "after `for`") {
        Ok(p) => p,
        Err(e) => {
            return Err(e);
        },
    };
    let s3 = match require_keyword(s2, "in", "after the generic-for names") {
        Ok(s) => s,
        Err(e) => {
            return Err(e);
        },
    };
    let ghost n0: int = alloc.next as int;
    let (s4, item_source) = match require_expression_list(s3, alloc, "after `in`", depth) {
        Ok(p) => p,
        Err(e) => {
            return Err(e);
        },
    };
    let s5 = match require_keyword(s4, "do", "after the generic-for sources") {
        Ok(s) => s,
        Err(e) => {
            return Err(e);
        },
    };
    let ghost na: int = alloc.next as int;
    let (s6, body) = match parse_chunk_at(s5, alloc, depth + 1) {
        Ok(p) => p,
        Err(e) => {
            return Err(e);
        },
    };
    let s7 = match require_keyword(s6, "end", "to close the generic-for body") {
        Ok(s) => s,
        Err(e) => {
            return Err(e);
        },
    };
    let gf = GenericFor { vars, item_source, body };
    proof {
        lemma_ids_concat(exprs_ids(gf.item_source@), chunk_ids(body), n0, na, alloc.next as int);
        assert(generic_for_ids(gf) == exprs_ids(gf.item_source@) + chunk_ids(body));
    }
    Ok((s7, gf))
}

/// `if condition then body {elseif condition then body} [else body] end`;
/// commits on `if`.
#[verifier::loop_isolation(false)]
#[verifier::rlimit(60)]
fn parse_if_statement<'a>(state: ParseState<'a>, alloc: &mut IdAllocator, depth: usize) -> (r: Result<
    (ParseState<'a>, IfStatement),
    ParseAbort,
>)
    requires
        state.wf(),
        depth < MAX_NESTING_DEPTH,
    ensures
        final(alloc).next >= old(alloc).next,
        r matches Ok(p) ==> p.0.tokens@ == state.tokens@ && state.position < p.0.position
            <= state.tokens@.len() && p.0.wf(),
        r matches Ok(p) ==> ids_ok(
            if_statement_ids(p.1),
            old(alloc).next as int,
            final(alloc).next as int,
        ),
        no_match(r) <==> !tok_keyword(state.tokens@, state.position as int, "if"@),
        r matches Ok(p) ==> (sp_if_statement(state.tokens@, state.position as int, depth as int)
            matches Parsed::Found { pos, val, used } && pos == p.0.position as int
            && final(alloc).next == old(alloc).next + used && val
            == (GIfStatement {
            condition: aexpr(p.1.condition),
            body: achunk(p.1.body),
            else_if_branches: abranches(p.1.else_if_branches@),
            else_branch: aopt_chunk(p.1.else_branch),
        })),
        no_match(r) ==> (sp_if_statement(state.tokens@, state.position as int, depth as int) matches Parsed::Absent { used }
            && final(alloc).next == old(alloc).next + used),
        errored(r) ==> ((sp_if_statement(
            state.tokens@,
            state.position as int,
            depth as int,
        ) matches Parsed::Halt { used }
            && final(alloc).next == old(alloc).next + used) || (final(alloc).next
            == usize::MAX && old(alloc).next + pused(sp_if_statement(
            state.tokens@,
            state.position as int,
            depth as int,
        ))
            > usize::MAX)),
    decreases state.tokens@.len() - state.position, 1int,
{
    let s1 = match parse_keyword(state, "if") {
        Ok(s) => s,
        Err(e) => {
            return Err(e);
        },
    };
    let ghost n0: int = alloc.next as int;
    let (s2, condition) = match require_expression(s1, alloc, "after `if`", depth) {
        Ok(p) => p,
        Err(e) => {
            return Err(e);
        },
    };
    let s3 = match require_keyword(s2, "then", "after the if condition") {
        Ok(s) => s,
        Err(e) => {
            return Err(e);
        },
    };
    let ghost na: int = alloc.next as int;
    let (s4, body) = match parse_chunk_at(s3, alloc, depth + 1) {
        Ok(p) => p,
        Err(e) => {
            return Err(e);
        },
    };
    let ghost nb: int = alloc.next as int;
    proof {
        lemma_ids_concat(expr_ids(condition), chunk_ids(body), n0, na, nb);
    }
    let mut branches: Vec<(Expression, Chunk)> = Vec::new();
    let mut cur = s4;
    let ghost bpos: int = s4.position as int;
    proof {
        assert(abranches(branches@) =~= Seq::<(GExpr, GChunk)>::empty());
        match sp_elseifs(state.tokens@, bpos, depth as int) {
            Parsed::Found { pos, val, used } => {
                assert(abranches(branches@) + val =~= val);
            },
            _ => {},
        }
    }
    loop
        invariant
            cur.wf(),
            cur.tokens@ == state.tokens@,
            state.position < cur.position <= state.tokens@.len(),
            nb <= alloc.next as int,
            ids_ok(branches_ids(branches@), nb, alloc.next as int),
            ({
                let whole = sp_elseifs(state.tokens@, bpos, depth as int);
                match sp_elseifs(state.tokens@, cur.position as int, depth as int) {
                    Parsed::Found { pos, val, used } => whole == (Parsed::Found::<Seq<(GExpr, GChunk)>> {
                        pos,
                        val: abranches(branches@) + val,
                        used: ((alloc.next - nb) as nat + used),
                    }),
                    Parsed::Absent { used } => whole == (Parsed::Absent::<Seq<(GExpr, GChunk)>> {
                        used: ((alloc.next - nb) as nat + used),
                    }),
                    Parsed::Halt { used } => whole == (Parsed::Halt::<Seq<(GExpr, GChunk)>> {
                        used: ((alloc.next - nb) as nat + used),
                    }),
                }
            }),
        decreases state.tokens@.len() - cur.position,
    {
        let ghost cpos: int = cur.position as int;
        if peek_keyword(cur, "elseif") {
            let s5 = cur.advance(1);
            let ghost nx: int = alloc.next as int;
            let (s6, c) = match require_expression(s5, alloc, "after `elseif`", depth) {
                Ok(p) => p,
                Err(e) => {
                    return Err(e);
                },
            };
            let s7 = match require_keyword(s6, "then", "after the elseif condition") {
                Ok(s) => s,
                Err(e) => {
                    return Err(e);
                },
            };
            let ghost ny: int = alloc.next as int;
            let (s8, b) = match parse_chunk_at(s7, alloc, depth + 1) {
                Ok(p) => p,
                Err(e) => {
                    return Err(e);
                },
            };
            proof {
                lemma_ids_concat(expr_ids(c), chunk_ids(b), nx, ny, alloc.next as int);
                assert(branch_ids((c, b)) == expr_ids(c) + chunk_ids(b));
                lemma_branches_ids_push(branches@, (c, b));
                lemma_ids_concat(
                    branches_ids(branches@),
                    branch_ids((c, b)),
                    nb,
                    nx,
                    alloc.next as int,
                );
                lemma_abranches_push(branches@, (c, b));
                assert(clamp_pos(cpos, s6.position as int, state.tokens@.len() as int)
                    == s6.position);
                assert(clamp_pos(cpos, s8.position as int, state.tokens@.len() as int)
                    == s8.position);
                match sp_elseifs(state.tokens@, s8.position as int, depth as int) {
                    Parsed::Found { pos, val, used } => {
                        assert((abranches(branches@) + seq![abranch((c, b))]) + val =~= abranches(
                            branches@,
                        ) + (seq![abranch((c, b))] + val));
                    },
                    _ => {},
                }
            }
            branches.push((c, b));
            cur = s8;
        } else {
            proof {
                assert(abranches(branches@) + Seq::<(GExpr, GChunk)>::empty() =~= abranches(
                    branches@,
                ));
            }
            break ;
        }
    }
    let ghost nc: int = alloc.next as int;
    let (s9, else_branch): (ParseState<'a>, Option<Chunk>) = if peek_keyword(cur, "else") {
        let s_e = cur.advance(1);
        match parse_chunk_at(s_e, alloc, depth + 1) {
            Ok((s, b)) => (s, Some(b)),
            Err(e) => {
                return Err(e);
            },
        }
    } else {
        (cur, None)
    };
    let s10 = match require_keyword(s9, "end", "to close the if statement") {
        Ok(s) => s,
        Err(e) => {
            return Err(e);
        },
    };
    let stmt = IfStatement { condition, body, else_if_branches: branches, else_branch };
    proof {
        let nd = alloc.next as int;
        lemma_ids_concat(
            expr_ids(condition) + chunk_ids(body),
            branches_ids(stmt.else_if_branches@),
            n0,
            nb,
            nc,
        );
        if else_branch is Some {
            assert(opt_chunk_ids(stmt.else_branch) == chunk_ids(else_branch->0));
            lemma_ids_concat(
                (expr_ids(condition) + chunk_ids(body)) + branches_ids(stmt.else_if_branches@),
                opt_chunk_ids(stmt.else_branch),
                n0,
                nc,
                nd,
            );
        } else {
            assert(opt_chunk_ids(stmt.else_branch) =~= Seq::<Id>::empty());
            assert(((expr_ids(condition) + chunk_ids(body)) + branches_ids(
                stmt.else_if_branches@,
            )) + opt_chunk_ids(stmt.else_branch) =~= (expr_ids(condition) + chunk_ids(body))
                + branches_ids(stmt.else_if_branches@));
            lemma_ids_widen(
                (expr_ids(condition) + chunk_ids(body)) + branches_ids(stmt.else_if_branches@),
                n0,
                nc,
                n0,
                nd,
            );
        }
        assert(if_statement_ids(stmt) == ((expr_ids(condition) + chunk_ids(body)) + branches_ids(
            stmt.else_if_branches@,
        )) + opt_chunk_ids(stmt.else_branch));
    }
    Ok((s10, stmt))
}

/// `while condition do body end`; commits on `while`.
fn parse_while_loop<'a>(state: ParseState<'a>, alloc: &mut IdAllocator, depth: usize) -> (r: Result<
    (ParseState<'a>, WhileLoop),
    ParseAbort,
>)
    requires
        state.wf(),
        depth < MAX_NESTING_DEPTH,
    ensures
        final(alloc).next >= old(alloc).next,
        r matches Ok(p) ==> p.0.tokens@ == state.tokens@ && state.position < p.0.position
            <= state.tokens@.len() && p.0.wf(),
        r matches Ok(p) ==> ids_ok(
            while_loop_ids(p.1),
            old(alloc).next as int,
            final(alloc).next as int,
        ),
        no_match(r) <==> !tok_keyword(state.tokens@, state.position as int, "while"@),
        r matches Ok(p) ==> (sp_while_loop(state.tokens@, state.position as int, depth as int)
            matches Parsed::Found { pos, val, used } && pos == p.0.position as int
            && final(alloc).next == old(alloc).next + used && val
            == (GWhileLoop { condition: aexpr(p.1.condition), body: achunk(p.1.body) })),
        no_match(r) ==> (sp_while_loop(state.tokens@, state.position as int, depth as int) matches Parsed::Absent { used }
            && final(alloc).next == old(alloc).next + used),
        errored(r) ==> ((sp_while_loop(
            state.tokens@,
            state.position as int,
            depth as int,
        ) matches Parsed::Halt { used }
            && final(alloc).next == old(alloc).next + used) || (final(alloc).next
            == usize::MAX && old(alloc).next + pused(sp_while_loop(
            state.tokens@,
            state.position as int,
            depth as int,
        ))
            > usize::MAX)),
    decreases state.tokens@.len() - state.position, 1int,
{
    let s1 = match parse_keyword(state, "while") {
        Ok(s) => s,
        Err(e) => {
            return Err(e);
        },
    };
    let ghost n0: int = alloc.next as int;
    let (s2, condition) = match require_expression(s1, alloc, "after `while`", depth) {
        Ok(p) => p,
        Err(e) => {
            return Err(e);
        },
    };
    let s3 = match require_keyword(s2, "do", "after the while condition") {
        Ok(s) => s,
        Err(e) => {
            return Err(e);
        },
    };
    let ghost na: int = alloc.next as int;
    let (s4, body) = match parse_chunk_at(s3, alloc, depth + 1) {
        Ok(p) => p,
        Err(e) => {
            return Err(e);
        },
    };
    let s5 = match require_keyword(s4, "end", "to close the while body") {
        Ok(s) => s,
        Err(e) => {
            return Err(e);
        },
    };
    let w = WhileLoop { condition, body };
    proof {
        lemma_ids_concat(expr_ids(condition), chunk_ids(body), n0, na, alloc.next as int);
        assert(while_loop_ids(w) == expr_ids(condition) + chunk_ids(body));
    }
    Ok((s5, w))
}

/// `repeat body until condition`; commits on `repeat`. The condition is
/// parsed after the body, so its ids lie above the body's.
fn parse_repeat_loop<'a>(state: ParseState<'a>, alloc: &mut IdAllocator, depth: usize) -> (r: Result<
    (ParseState<'a>, RepeatLoop),
    ParseAbort,
>)
    requires
        state.wf(),
        depth < MAX_NESTING_DEPTH,
    ensures
        final(alloc).next >= old(alloc).next,
        r matches Ok(p) ==> p.0.tokens@ == state.tokens@ && state.position < p.0.position
            <= state.tokens@.len() && p.0.wf(),
        r matches Ok(p) ==> ids_ok(
            repeat_loop_ids(p.1),
            old(alloc).next as int,
            final(alloc).next as int,
        ),
        no_match(r) <==> !tok_keyword(state.tokens@, state.position as int, "repeat"@),
        r matches Ok(p) ==> (sp_repeat_loop(state.tokens@, state.position as int, depth as int)
            matches Parsed::Found { pos, val, used } && pos == p.0.position as int
            && final(alloc).next == old(alloc).next + used && val
            == (GRepeatLoop { condition: aexpr(p.1.condition), body: achunk(p.1.body) })),
        no_match(r) ==> (sp_repeat_loop(state.tokens@, state.position as int, depth as int) matches Parsed::Absent { used }
            && final(alloc).next == old(alloc).next + used),
        errored(r) ==> ((sp_repeat_loop(
            state.tokens@,
            state.position as int,
            depth as int,
        ) matches Parsed::Halt { used }
            && final(alloc).next == old(alloc).next + used) || (final(alloc).next
            == usize::MAX && old(alloc).next + pused(sp_repeat_loop(
            state.tokens@,
            state.position as int,
            depth as int,
        ))
            > usize::MAX)),
    decreases state.tokens@.len() - state.position, 1int,
{
    let s1 = match parse_keyword(state, "repeat") {
        Ok(s) => s,
        Err(e) => {
            return Err(e);
        },
    };
    let ghost n0: int = alloc.next as int;
    let (s2, body) = match parse_chunk_at(s1, alloc, depth + 1) {
        Ok(p) => p,
        Err(e) => {
            return Err(e);
        },
    };
    let s3 = match require_keyword(s2, "until", "after the repeat body") {
        Ok(s) => s,
        Err(e) => {
            return Err(e);
        },
    };
    let ghost na: int = alloc.next as int;
    let (s4, condition) = match require_expression(s3, alloc, "after `until`", depth) {
        Ok(p) => p,
        Err(e) => {
            return Err(e);
        },
    };
    let rl = RepeatLoop { condition, body };
    proof {
        let nb = alloc.next as int;
        lemma_ids_concat2(expr_ids(condition), chunk_ids(body), na, nb, n0, na, n0, nb);
        assert(repeat_loop_ids(rl) == expr_ids(condition) + chunk_ids(body));
    }
    Ok((s4, rl))
}

/// `[local] function name ( parameters ) body end`; commits once `function`
/// is seen.
fn parse_function_declaration<'a>(state: ParseState<'a>, alloc: &mut IdAllocator, depth: usize) -> (r: Result<
    (ParseState<'a>, FunctionDeclaration),
    ParseAbort,
>)
    requires
        state.wf(),
        depth < MAX_NESTING_DEPTH,
    ensures
        final(alloc).next >= old(alloc).next,
        r matches Ok(p) ==> p.0.tokens@ == state.tokens@ && state.position < p.0.position
            <= state.tokens@.len() && p.0.wf(),
        r matches Ok(p) ==> ids_ok(
            function_declaration_ids(p.1),
            old(alloc).next as int,
            final(alloc).next as int,
        ),
        no_match(r) <==> !(tok_keyword(state.tokens@, state.position as int, "function"@) || (
        tok_keyword(state.tokens@, state.position as int, "local"@) && tok_keyword(
            state.tokens@,
            state.position as int + 1,
            "function"@,
        ))),
        r matches Ok(p) ==> p.1.local == tok_keyword(
            state.tokens@,
            state.position as int,
            "local"@,
        ),
        r matches Ok(p) ==> (p.1.local ==> (state.tokens@[state.position as int + 2].kind
            matches TokenKind::Identifier(s) && p.1.name@ == s@)),
        r matches Ok(p) ==> (!p.1.local ==> (state.tokens@[state.position as int + 1].kind
            matches TokenKind::Identifier(s) && p.1.name@ == s@)),
        r matches Ok(p) ==> (sp_function_declaration(
            state.tokens@,
            state.position as int,
            depth as int,
        ) matches Parsed::Found { pos, val, used } && pos == p.0.position as int
            && final(alloc).next == old(alloc).next + used && val
            == (GFunctionDeclaration {
            name: p.1.name@,
            body: achunk(p.1.body),
            parameters: anames(p.1.parameters@),
            local: p.1.local,
        })),
        no_match(r) ==> (sp_function_declaration(
            state.tokens@,
            state.position as int,
            depth as int,
        ) matches Parsed::Absent { used }
            && final(alloc).next == old(alloc).next + used),
        errored(r) ==> ((sp_function_declaration(
            state.tokens@,
            state.position as int,
            depth as int,
        ) matches Parsed::Halt { used }
            && final(alloc).next == old(alloc).next + used) || (final(alloc).next
            == usize::MAX && old(alloc).next + pused(sp_function_declaration(
            state.tokens@,
            state.position as int,
            depth as int,
        ))
            > usize::MAX)),
    decreases state.tokens@.len() - state.position, 1int,
{
    proof {
        reveal_strlit("local");
        reveal_strlit("function");
    }
    let (s_head, local) = if peek_keyword(state, "local") {
        (state.advance(1), true)
    } else {
        (state, false)
    };
    let s1 = match parse_keyword(s_head, "function") {
        Ok(s) => s,
        Err(_) => {
            proof {
                assert("local"@.len() == 5);
                assert("function"@.len() == 8);
                if local {
                    assert(tok_keyword(state.tokens@, state.position as int, "local"@));
                    assert(s_head.position == state.position + 1);
                    assert(!tok_keyword(state.tokens@, state.position as int + 1, "function"@));
                    assert(!tok_keyword(state.tokens@, state.position as int, "function"@));
                }
            }
            return Err(ParseAbort::NoMatch);
        },
    };
    let (s2, name) = match require_identifier(s1, "after `function`") {
        Ok(p) => p,
        Err(e) => {
            return Err(e);
        },
    };
    let s3 = match require_open_paren(s2, "after the function name") {
        Ok(s) => s,
        Err(e) => {
            return Err(e);
        },
    };
    let (s4, parameters) = if peek_identifier(s3) {
        match require_name_list(s3, "in the parameter list") {
            Ok(p) => p,
            Err(e) => {
                return Err(e);
            },
        }
    } else {
        (s3, Vec::new())
    };
    proof {
        if !tok_identifier(state.tokens@, s3.position as int) {
            assert(anames(parameters@) =~= Seq::<Seq<char>>::empty());
        }
        assert(clamp_pos(
            state.position as int,
            s4.position as int + 1,
            state.tokens@.len() as int,
        ) == s4.position + 1 || !tok_close_paren(state.tokens@, s4.position as int));
    }
    let s5 = match require_close_paren(s4, "after the parameter list") {
        Ok(s) => s,
        Err(e) => {
            return Err(e);
        },
    };
    let ghost n0: int = alloc.next as int;
    let (s6, body) = match parse_chunk_at(s5, alloc, depth + 1) {
        Ok(p) => p,
        Err(e) => {
            return Err(e);
        },
    };
    let s7 = match require_keyword(s6, "end", "to close the function body") {
        Ok(s) => s,
        Err(e) => {
            return Err(e);
        },
    };
    let fd = FunctionDeclaration { name, body, parameters, local };
    proof {
        assert(function_declaration_ids(fd) == chunk_ids(fd.body));
    }
    Ok((s7, fd))
}

/// One statement: the alternatives are tried in a fixed order and the first
/// to match wins; a committed `Error` from any alternative propagates without
/// trying later ones.
#[verifier::rlimit(60)]
fn parse_statement<'a>(state: ParseState<'a>, alloc: &mut IdAllocator, depth: usize) -> (r: Result<
    (ParseState<'a>, Statement),
    ParseAbort,
>)
    requires
        state.wf(),
        depth < MAX_NESTING_DEPTH,
    ensures
        final(alloc).next >= old(alloc).next,
        r matches Ok(p) ==> p.0.tokens@ == state.tokens@ && state.position < p.0.position
            <= state.tokens@.len() && p.0.wf(),
        r matches Ok(p) ==> ids_ok(
            stmt_ids(p.1),
            old(alloc).next as int,
            final(alloc).next as int,
        ),
        no_match(r) ==> !tok_keyword(state.tokens@, state.position as int, "local"@)
            && !tok_keyword(state.tokens@, state.position as int, "for"@) && !tok_keyword(
            state.tokens@,
            state.position as int,
            "if"@,
        ) && !tok_keyword(state.tokens@, state.position as int, "while"@) && !tok_keyword(
            state.tokens@,
            state.position as int,
            "repeat"@,
        ) && !tok_keyword(state.tokens@, state.position as int, "function"@),
        state.position == state.tokens@.len() ==> no_match(r),
        r matches Ok(p) ==> (tok_keyword(state.tokens@, state.position as int, "local"@)
            && !tok_keyword(state.tokens@, state.position as int + 1, "function"@) ==> p.1
            is LocalAssignment),
        r matches Ok(p) ==> (tok_keyword(state.tokens@, state.position as int, "while"@) ==> p.1
            is WhileLoop),
        r matches Ok(p) ==> (tok_keyword(state.tokens@, state.position as int, "repeat"@) ==> p.1
            is RepeatLoop),
        r matches Ok(p) ==> (tok_keyword(state.tokens@, state.position as int, "if"@) ==> p.1
            is IfStatement),
        r matches Ok(p) ==> (tok_keyword(state.tokens@, state.position as int, "function"@)
            ==> p.1 is FunctionDeclaration),
        r matches Ok(p) ==> (tok_keyword(state.tokens@, state.position as int, "for"@) ==> p.1
            is NumericFor || p.1 is GenericFor),
        r matches Ok(p) ==> (tok_identifier(state.tokens@, state.position as int) ==> p.1
            is FunctionCall),
        r matches Ok(p) ==> (sp_statement(state.tokens@, state.position as int, depth as int)
            matches Parsed::Found { pos, val, used } && pos == p.0.position as int && final(alloc).next == old(alloc).next + used && val == astmt(
            p.1,
        )),
        no_match(r) ==> (sp_statement(state.tokens@, state.position as int, depth as int) matches Parsed::Absent { used }
            && final(alloc).next == old(alloc).next + used),
        errored(r) ==> ((sp_statement(
            state.tokens@,
            state.position as int,
            depth as int,
        ) matches Parsed::Halt { used }
            && final(alloc).next == old(alloc).next + used) || (final(alloc).next
            == usize::MAX && old(alloc).next + pused(sp_statement(
            state.tokens@,
            state.position as int,
            depth as int,
        ))
            > usize::MAX)),
    decreases state.tokens@.len() - state.position, 2int,
{
    proof {
        reveal_strlit("local");
        reveal_strlit("while");
        reveal_strlit("repeat");
        reveal_strlit("if");
        reveal_strlit("function");
        reveal_strlit("for");
        assert("local"@.len() == 5);
        assert("while"@.len() == 5);
        assert("repeat"@.len() == 6);
        assert("if"@.len() == 2);
        assert("function"@.len() == 8);
        assert("for"@.len() == 3);
        assert("local"@[0] == 'l');
        assert("while"@[0] == 'w');
    }
    let ghost n0: int = alloc.next as int;
    match parse_local_assignment(state, alloc, depth) {
        Ok((s1, v)) => {
            let ghost na: int = alloc.next as int;
            let id = match alloc_id(alloc) {
                Ok(i) => i,
                Err(e) => {
                    return Err(e);
                },
            };
            let stmt = Statement::LocalAssignment { id, value: v };
            proof {
                lemma_ids_single(id, na, na + 1);
                lemma_ids_concat2(seq![id], local_assignment_ids(v), na, na + 1, n0, na, n0, na + 1);
                assert(stmt_ids(stmt) == seq![id] + local_assignment_ids(v));
            }
            return Ok((s1, stmt));
        },
        Err(ParseAbort::NoMatch) => {},
        Err(e) => {
            return Err(e);
        },
    }
    match parse_function_call(state, alloc, depth) {
        Ok((s1, v)) => {
            let ghost na: int = alloc.next as int;
            let id = match alloc_id(alloc) {
                Ok(i) => i,
                Err(e) => {
                    return Err(e);
                },
            };
            let stmt = Statement::FunctionCall { id, value: v };
            proof {
                lemma_ids_single(id, na, na + 1);
                lemma_ids_concat2(seq![id], function_call_ids(v), na, na + 1, n0, na, n0, na + 1);
                assert(stmt_ids(stmt) == seq![id] + function_call_ids(v));
            }
            return Ok((s1, stmt));
        },
        Err(ParseAbort::NoMatch) => {},
        Err(e) => {
            return Err(e);
        },
    }
    match parse_numeric_for(state, alloc, depth) {
        Ok((s1, v)) => {
            let ghost na: int = alloc.next as int;
            let id = match alloc_id(alloc) {
                Ok(i) => i,
                Err(e) => {
                    return Err(e);
                },
            };
            let stmt = Statement::NumericFor { id, value: v };
            proof {
                lemma_ids_single(id, na, na + 1);
                lemma_ids_concat2(seq![id], numeric_for_ids(v), na, na + 1, n0, na, n0, na + 1);
                assert(stmt_ids(stmt) == seq![id] + numeric_for_ids(v));
            }
            return Ok((s1, stmt));
        },
        Err(ParseAbort::NoMatch) => {},
        Err(e) => {
            return Err(e);
        },
    }
    match parse_generic_for(state, alloc, depth) {
        Ok((s1, v)) => {
            let ghost na: int = alloc.next as int;
            let id = match alloc_id(alloc) {
                Ok(i) => i,
                Err(e) => {
                    return Err(e);
                },
            };
            let stmt = Statement::GenericFor { id, value: v };
            proof {
                lemma_ids_single(id, na, na + 1);
                lemma_ids_concat2(seq![id], generic_for_ids(v), na, na + 1, n0, na, n0, na + 1);
                assert(stmt_ids(stmt) == seq![id] + generic_for_ids(v));
            }
            return Ok((s1, stmt));
        },
        Err(ParseAbort::NoMatch) => {},
        Err(e) => {
            return Err(e);
        },
    }
    match parse_if_statement(state, alloc, depth) {
        Ok((s1, v)) => {
            let ghost na: int = alloc.next as int;
            let id = match alloc_id(alloc) {
                Ok(i) => i,
                Err(e) => {
                    return Err(e);
                },
            };
            let stmt = Statement::IfStatement { id, value: v };
            proof {
                lemma_ids_single(id, na, na + 1);
                lemma_ids_concat2(seq![id], if_statement_ids(v), na, na + 1, n0, na, n0, na + 1);
                assert(stmt_ids(stmt) == seq![id] + if_statement_ids(v));
            }
            return Ok((s1, stmt));
        },
        Err(ParseAbort::NoMatch) => {},
        Err(e) => {
            return Err(e);
        },
    }
    match parse_while_loop(state, alloc, depth) {
        Ok((s1, v)) => {
            let ghost na: int = alloc.next as int;
            let id = match alloc_id(alloc) {
                Ok(i) => i,
                Err(e) => {
                    return Err(e);
                },
            };
            let stmt = Statement::WhileLoop { id, value: v };
            proof {
                lemma_ids_single(id, na, na + 1);
                lemma_ids_concat2(seq![id], while_loop_ids(v), na, na + 1, n0, na, n0, na + 1);
                assert(stmt_ids(stmt) == seq![id] + while_loop_ids(v));
            }
            return Ok((s1, stmt));
        },
        Err(ParseAbort::NoMatch) => {},
        Err(e) => {
            return Err(e);
        },
    }
    match parse_repeat_loop(state, alloc, depth) {
        Ok((s1, v)) => {
            let ghost na: int = alloc.next as int;
            let id = match alloc_id(alloc) {
                Ok(i) => i,
                Err(e) => {
                    return Err(e);
                },
            };
            let stmt = Statement::RepeatLoop { id, value: v };
            proof {
                lemma_ids_single(id, na, na + 1);
                lemma_ids_concat2(seq![id], repeat_loop_ids(v), na, na + 1, n0, na, n0, na + 1);
                assert(stmt_ids(stmt) == seq![id] + repeat_loop_ids(v));
            }
            return Ok((s1, stmt));
        },
        Err(ParseAbort::NoMatch) => {},
        Err(e) => {
            return Err(e);
        },
    }
    match parse_function_declaration(state, alloc, depth) {
        Ok((s1, v)) => {
            let ghost na: int = alloc.next as int;
            let id = match alloc_id(alloc) {
                Ok(i) => i,
                Err(e) => {
                    return Err(e);
                },
            };
            let stmt = Statement::FunctionDeclaration { id, value: v };
            proof {
                lemma_ids_single(id, na, na + 1);
                lemma_ids_concat2(
                    seq![id],
                    function_declaration_ids(v),
                    na,
                    na + 1,
                    n0,
                    na,
                    n0,
                    na + 1,
                );
                assert(stmt_ids(stmt) == seq![id] + function_declaration_ids(v));
            }
            return Ok((s1, stmt));
        },
        Err(ParseAbort::NoMatch) => {},
        Err(e) => {
            return Err(e);
        },
    }
    Err(ParseAbort::NoMatch)
}

/// The statement kind that a committing first token dictates: what the
/// dispatch order promises about a statement parsed at position `i`.
pub open spec fn stmt_matches_start(toks: Seq<Token>, i: int, s: Statement) -> bool {
    &&& tok_keyword(toks, i, "local"@) && !tok_keyword(toks, i + 1, "function"@) ==> s
        is LocalAssignment
    &&& tok_keyword(toks, i, "while"@) ==> s is WhileLoop
    &&& tok_keyword(toks, i, "repeat"@) ==> s is RepeatLoop
    &&& tok_keyword(toks, i, "if"@) ==> s is IfStatement
    &&& tok_keyword(toks, i, "function"@) ==> s is FunctionDeclaration
    &&& tok_keyword(toks, i, "for"@) ==> s is NumericFor || s is GenericFor
    &&& tok_identifier(toks, i) ==> s is FunctionCall
}

/// A chunk: zero or more statements. It stops, without failing, at the first
/// position where no statement alternative matches, leaving that token for
/// the enclosing construct; it never reports `NoMatch` itself.
#[verifier::loop_isolation(false)]
#[verifier::rlimit(60)]
fn parse_chunk_at<'a>(state: ParseState<'a>, alloc: &mut IdAllocator, depth: usize) -> (r: Result<
    (ParseState<'a>, Chunk),
    ParseAbort,
>)
    requires
        state.wf(),
    ensures
        final(alloc).next >= old(alloc).next,
        r matches Ok(p) ==> p.0.tokens@ == state.tokens@ && state.position <= p.0.position
            <= state.tokens@.len() && p.0.wf(),
        r matches Ok(p) ==> ids_ok(
            chunk_ids(p.1),
            old(alloc).next as int,
            final(alloc).next as int,
        ),
        !no_match(r),
        r is Err ==> errored(r),
        state.position == state.tokens@.len() && depth < MAX_NESTING_DEPTH ==> (r matches Ok(p)
            && p.1.statements@.len() == 0 && p.0.position == state.position),
        r matches Ok(p) ==> (p.0.position > state.position ==> p.1.statements@.len() > 0),
        r matches Ok(p) ==> !tok_keyword(state.tokens@, p.0.position as int, "local"@)
            && !tok_keyword(state.tokens@, p.0.position as int, "for"@) && !tok_keyword(
            state.tokens@,
            p.0.position as int,
            "if"@,
        ) && !tok_keyword(state.tokens@, p.0.position as int, "while"@) && !tok_keyword(
            state.tokens@,
            p.0.position as int,
            "repeat"@,
        ) && !tok_keyword(state.tokens@, p.0.position as int, "function"@),
        r matches Ok(p) ==> (p.1.statements@.len() > 0 ==> stmt_matches_start(
            state.tokens@,
            state.position as int,
            p.1.statements@[0],
        )),
        r matches Ok(p) ==> (sp_chunk(state.tokens@, state.position as int, depth as int)
            matches Parsed::Found { pos, val, used } && pos == p.0.position as int && final(alloc).next == old(alloc).next + used && val == achunk(
            p.1,
        )),
        errored(r) ==> ((sp_chunk(
            state.tokens@,
            state.position as int,
            depth as int,
        ) matches Parsed::Halt { used }
            && final(alloc).next == old(alloc).next + used) || (final(alloc).next
            == usize::MAX && old(alloc).next + pused(sp_chunk(
            state.tokens@,
            state.position as int,
            depth as int,
        ))
            > usize::MAX)),
    decreases state.tokens@.len() - state.position, 3int,
{
    if depth >= MAX_NESTING_DEPTH {
        return Err(nesting_error());
    }
    let ghost n0: int = alloc.next as int;
    let mut statements: Vec<Statement> = Vec::new();
    let mut cur = state;
    proof {
        assert(astmts(statements@) =~= Seq::<GStmt>::empty());
        match sp_chunk(state.tokens@, state.position as int, depth as int) {
            Parsed::Found { pos, val, used } => {
                assert(astmts(statements@) + val.statements =~= val.statements);
                assert((GChunk { statements: val.statements }) == val);
            },
            _ => {},
        }
    }
    loop
        invariant
            cur.wf(),
            cur.tokens@ == state.tokens@,
            state.position <= cur.position <= state.tokens@.len(),
            n0 <= alloc.next as int,
            ids_ok(stmts_ids(statements@), n0, alloc.next as int),
            state.position == state.tokens@.len() ==> statements@.len() == 0,
            statements@.len() == 0 ==> cur.position == state.position,
            statements@.len() > 0 ==> stmt_matches_start(
                state.tokens@,
                state.position as int,
                statements@[0],
            ),
            ({
                let whole = sp_chunk(state.tokens@, state.position as int, depth as int);
                match sp_chunk(state.tokens@, cur.position as int, depth as int) {
                    Parsed::Found { pos, val, used } => whole == (Parsed::Found::<GChunk> {
                        pos,
                        val: GChunk { statements: astmts(statements@) + val.statements },
                        used: ((alloc.next - n0) as nat + used),
                    }),
                    Parsed::Absent { used } => whole == (Parsed::Absent::<GChunk> {
                        used: ((alloc.next - n0) as nat + used),
                    }),
                    Parsed::Halt { used } => whole == (Parsed::Halt::<GChunk> {
                        used: ((alloc.next - n0) as nat + used),
                    }),
                }
            }),
        decreases state.tokens@.len() - cur.position,
    {
        let ghost na: int = alloc.next as int;
        let ghost cpos: int = cur.position as int;
        match parse_statement(cur, alloc, depth) {
            Ok((s1, stmt)) => {
                proof {
                    lemma_stmts_ids_push(statements@, stmt);
                    lemma_ids_concat(
                        stmts_ids(statements@),
                        stmt_ids(stmt),
                        n0,
                        na,
                        alloc.next as int,
                    );
                    lemma_astmts_push(statements@, stmt);
                    assert(clamp_pos(cpos, s1.position as int, state.tokens@.len() as int)
                        == s1.position);
                    match sp_chunk(state.tokens@, s1.position as int, depth as int) {
                        Parsed::Found { pos, val, used } => {
                            assert((astmts(statements@) + seq![astmt(stmt)]) + val.statements
                                =~= astmts(statements@) + (seq![astmt(stmt)] + val.statements));
                        },
                        _ => {},
                    }
                }
                statements.push(stmt);
                cur = s1;
            },
            Err(ParseAbort::NoMatch) => {
                proof {
                    assert(astmts(statements@) + Seq::<GStmt>::empty() =~= astmts(statements@));
                }
                break ;
            },
            Err(e) => {
                return Err(e);
            },
        }
    }
    Ok((cur, Chunk { statements }))
}

/// A chunk parsed with a fresh nesting budget: the public entry point for
/// one block of statements.
pub fn parse_chunk<'a>(state: ParseState<'a>, alloc: &mut IdAllocator) -> (r: Result<
    (ParseState<'a>, Chunk),
    ParseAbort,
>)
    requires
        state.wf(),
    ensures
        final(alloc).next >= old(alloc).next,
        r matches Ok(p) ==> p.0.tokens@ == state.tokens@ && state.position <= p.0.position
            <= state.tokens@.len() && p.0.wf(),
        r matches Ok(p) ==> ids_ok(
            chunk_ids(p.1),
            old(alloc).next as int,
            final(alloc).next as int,
        ),
        !no_match(r),
        r is Err ==> errored(r),
        state.position == state.tokens@.len() ==> (r matches Ok(p) && p.1.statements@.len() == 0
            && p.0.position == state.position),
        r matches Ok(p) ==> (p.0.position > state.position ==> p.1.statements@.len() > 0),
        r matches Ok(p) ==> !tok_keyword(state.tokens@, p.0.position as int, "local"@)
            && !tok_keyword(state.tokens@, p.0.position as int, "for"@) && !tok_keyword(
            state.tokens@,
            p.0.position as int,
            "if"@,
        ) && !tok_keyword(state.tokens@, p.0.position as int, "while"@) && !tok_keyword(
            state.tokens@,
            p.0.position as int,
            "repeat"@,
        ) && !tok_keyword(state.tokens@, p.0.position as int, "function"@),
        r matches Ok(p) ==> (p.1.statements@.len() > 0 ==> stmt_matches_start(
            state.tokens@,
            state.position as int,
            p.1.statements@[0],
        )),
        r matches Ok(p) ==> (sp_chunk(state.tokens@, state.position as int, 0)
            matches Parsed::Found { pos, val, used } && pos == p.0.position as int && final(alloc).next == old(alloc).next + used && val == achunk(
            p.1,
        )),
        errored(r) ==> ((sp_chunk(
            state.tokens@,
            state.position as int,
            0,
        ) matches Parsed::Halt { used }
            && final(alloc).next == old(alloc).next + used) || (final(alloc).next
            == usize::MAX && old(alloc).next + pused(sp_chunk(
            state.tokens@,
            state.position as int,
            0,
        ))
            > usize::MAX)),
        sp_chunk(state.tokens@, state.position as int, 0) matches Parsed::Found { pos, val, used }
            ==> (old(alloc).next + used <= usize::MAX ==> (r matches Ok(p) && p.0.position as int
            == pos && achunk(p.1) == val)),
{
    parse_chunk_at(state, alloc, 0)
}

/// The expression parser at its lowest precedence threshold.
pub fn parse_expression<'a>(state: ParseState<'a>, alloc: &mut IdAllocator) -> (r: Result<
    (ParseState<'a>, Expression),
    ParseAbort,
>)
    requires
        state.wf(),
    ensures
        final(alloc).next >= old(alloc).next,
        r matches Ok(p) ==> p.0.tokens@ == state.tokens@ && state.position < p.0.position
            <= state.tokens@.len() && p.0.wf(),
        r matches Ok(p) ==> ids_ok(
            expr_ids(p.1),
            old(alloc).next as int,
            final(alloc).next as int,
        ),
        !expr_start(state.tokens@, state.position as int) ==> no_match(r),
        no_match(r) ==> !simple_primary_start(state.tokens@, state.position as int)
            && spec_unop_at(state.tokens@, state.position as int) is None,
        r matches Ok(p) ==> (sp_expr(state.tokens@, state.position as int, 0, 0)
            matches Parsed::Found { pos, val, used } && pos == p.0.position as int && final(alloc).next == old(alloc).next + used && val == aexpr(
            p.1,
        )),
        no_match(r) ==> (sp_expr(state.tokens@, state.position as int, 0, 0) matches Parsed::Absent { used }
            && final(alloc).next == old(alloc).next + used),
        errored(r) ==> ((sp_expr(
            state.tokens@,
            state.position as int,
            0,
            0,
        ) matches Parsed::Halt { used }
            && final(alloc).next == old(alloc).next + used) || (final(alloc).next
            == usize::MAX && old(alloc).next + pused(sp_expr(
            state.tokens@,
            state.position as int,
            0,
            0,
        ))
            > usize::MAX)),
        sp_expr(state.tokens@, state.position as int, 0, 0) matches Parsed::Found {
            pos,
            val,
            used,
        } ==> (old(alloc).next + used <= usize::MAX ==> (r matches Ok(p) && p.0.position as int
            == pos && aexpr(p.1) == val)),
{
    parse_expression_prec(state, alloc, 0, 0)
}

/// The top-level entry point: parse a whole token stream as one chunk. It
/// succeeds only when every token is consumed; a leftover token after an
/// otherwise complete chunk is an error naming that token, and a bare
/// `NoMatch` never escapes — it would be a grammar-authoring bug and is
/// turned into a generic diagnostic. Success is owed: whenever `sp_chunk`
/// derives the whole stream and the allocator has the ids the derivation
/// needs, the result is `Ok` with exactly the derived tree (ids aside).
pub fn parse_from_tokens(tokens: &Vec<Token>, alloc: &mut IdAllocator) -> (r: Result<Chunk, String>)
    ensures
        final(alloc).next >= old(alloc).next,
        r matches Ok(c) ==> ids_ok(chunk_ids(c), old(alloc).next as int, final(alloc).next as int),
        tokens@.len() == 0 ==> (r matches Ok(c) && c.statements@.len() == 0),
        r matches Ok(c) ==> (tokens@.len() > 0 ==> c.statements@.len() > 0),
        r matches Ok(c) ==> (c.statements@.len() > 0 ==> stmt_matches_start(
            tokens@,
            0,
            c.statements@[0],
        )),
        r matches Ok(c) ==> (sp_chunk(tokens@, 0, 0) matches Parsed::Found { pos, val, used } && pos
            == tokens@.len() as int && final(alloc).next == old(alloc).next + used && val
            == achunk(c)),
        sp_chunk(tokens@, 0, 0) matches Parsed::Found { pos, val, used } ==> ((pos
            == tokens@.len() as int && old(alloc).next + used <= usize::MAX) ==> (r matches Ok(c)
            && achunk(c) == val)),
        sp_chunk(tokens@, 0, 0) matches Parsed::Found { pos, val, used } ==> (pos < tokens@.len() as int
            ==> r is Err),
        sp_chunk(tokens@, 0, 0) is Halt ==> r is Err,
        sp_chunk(tokens@, 0, 0) matches Parsed::Found { pos, val, used } ==> ((pos
            < tokens@.len() as int && old(alloc).next + used <= usize::MAX) ==> (r matches Err(m)
            && m@ == "A token was left at the end of the stream: "@ + spec_describe(
            tokens@[pos].kind,
        ))),
{
    let state = ParseState::new(tokens);
    match parse_chunk_at(state, alloc, 0) {
        Ok((s2, chunk)) => {
            if s2.position < tokens.len() {
                let mut m = String::from_str("A token was left at the end of the stream: ");
                match s2.peek() {
                    Some(t) => {
                        let d = t.describe();
                        m.append(d.as_str());
                    },
                    None => {},
                }
                Err(m)
            } else {
                Ok(chunk)
            }
        },
        Err(ParseAbort::Error(m)) => Err(m),
        Err(ParseAbort::NoMatch) => Err(String::from_str("No error reported")),
    }
}

} // verus!
