use vstd::prelude::*;

use crate::token::StringLiteral;

verus! {

/// An opaque node identity: unique within one allocator's lifetime, assigned
/// at construction time. Gaps are acceptable; ids discarded by backtracking
/// are never reused.
pub type Id = usize;

/// Issues unique node ids. The allocator is passed explicitly into a parse
/// call; ids it hands out are strictly increasing, so two parses that share
/// one allocator can never receive overlapping ids.
#[derive(Debug, Clone, PartialEq)]
pub struct IdAllocator {
    pub next: Id,
}

impl IdAllocator {
    pub fn new() -> (r: IdAllocator)
        ensures
            r.next == 1,
    {
        IdAllocator { next: 1 }
    }

    /// The next fresh id, or `None` once the id space is exhausted.
    pub fn gen_id(&mut self) -> (r: Option<Id>)
        ensures
            final(self).next >= old(self).next,
            old(self).next < usize::MAX ==> r == Some(old(self).next)
                && final(self).next == old(self).next + 1,
            old(self).next == usize::MAX ==> r is None && final(self).next == old(self).next,
    {
        if self.next < usize::MAX {
            let id = self.next;
            self.next = self.next + 1;
            Some(id)
        } else {
            None
        }
    }
}

/// The unary operators; all bind at precedence 11.
#[derive(Debug, Clone, Copy, PartialEq)]
pub enum UnaryOpKind {
    Negate,
    BooleanNot,
    Length,
}

/// The precedence every unary operator binds at.
pub open spec fn spec_unary_precedence() -> u8 {
    11
}

impl UnaryOpKind {
    pub fn precedence(&self) -> (r: u8)
        ensures
            r == spec_unary_precedence(),
    {
        11
    }
}

/// The binary operators.
#[derive(Debug, Clone, Copy, PartialEq)]
pub enum BinaryOpKind {
    Add,
    Subtract,
    Multiply,
    Divide,
    Exponent,
    Concat,
}

/// The fixed precedence table: the single source of truth that expression
/// parsing climbs over. Total: every operator maps to exactly one value.
pub open spec fn spec_precedence(k: BinaryOpKind) -> u8 {
    match k {
        BinaryOpKind::Concat => 8,
        BinaryOpKind::Add => 9,
        BinaryOpKind::Subtract => 9,
        BinaryOpKind::Multiply => 10,
        BinaryOpKind::Divide => 10,
        BinaryOpKind::Exponent => 12,
    }
}

/// The fixed associativity table: exponentiation and concatenation group to
/// the right, every other operator to the left.
pub open spec fn spec_right_associative(k: BinaryOpKind) -> bool {
    k is Exponent || k is Concat
}

impl BinaryOpKind {
    pub fn precedence(&self) -> (r: u8)
        ensures
            r == spec_precedence(*self),
    {
        match *self {
            BinaryOpKind::Concat => 8,
            BinaryOpKind::Add | BinaryOpKind::Subtract => 9,
            BinaryOpKind::Multiply | BinaryOpKind::Divide => 10,
            BinaryOpKind::Exponent => 12,
        }
    }

    pub fn is_right_associative(&self) -> (r: bool)
        ensures
            r == spec_right_associative(*self),
    {
        match *self {
            BinaryOpKind::Exponent | BinaryOpKind::Concat => true,
            _ => false,
        }
    }
}

#[derive(Debug, PartialEq)]
pub struct UnaryOp {
    pub operator: UnaryOpKind,
    pub argument: Box<Expression>,
}

#[derive(Debug, PartialEq)]
pub struct BinaryOp {
    pub operator: BinaryOpKind,
    pub left: Box<Expression>,
    pub right: Box<Expression>,
}

#[derive(Debug, PartialEq)]
pub struct FunctionCall {
    pub name_expression: Box<Expression>,
    pub arguments: Vec<Expression>,
}

/// Parallel assignment; the name and value counts are independent, their
/// reconciliation is a runtime concern.
#[derive(Debug, PartialEq)]
pub struct Assignment {
    pub names: Vec<String>,
    pub values: Vec<Expression>,
}

/// Like `Assignment`, but introduces new bindings scoped to the remainder of
/// the enclosing chunk.
#[derive(Debug, PartialEq)]
pub struct LocalAssignment {
    pub names: Vec<String>,
    pub values: Vec<Expression>,
}

/// `step` is `None` exactly when no third bound was written in source;
/// default-value semantics belong to evaluation, not parsing.
#[derive(Debug, PartialEq)]
pub struct NumericFor {
    pub var: String,
    pub start: Expression,
    pub end: Expression,
    pub step: Option<Expression>,
    pub body: Chunk,
}

#[derive(Debug, PartialEq)]
pub struct GenericFor {
    pub vars: Vec<String>,
    pub item_source: Vec<Expression>,
    pub body: Chunk,
}

#[derive(Debug, PartialEq)]
pub struct IfStatement {
    pub condition: Expression,
    pub body: Chunk,
    pub else_if_branches: Vec<(Expression, Chunk)>,
    pub else_branch: Option<Chunk>,
}

#[derive(Debug, PartialEq)]
pub struct WhileLoop {
    pub condition: Expression,
    pub body: Chunk,
}

/// The condition is conceptually evaluated in the scope of `body`'s locals; a
/// later consumer must respect that, the grammar does not special-case it.
#[derive(Debug, PartialEq)]
pub struct RepeatLoop {
    pub condition: Expression,
    pub body: Chunk,
}

#[derive(Debug, PartialEq)]
pub struct FunctionDeclaration {
    pub name: String,
    pub body: Chunk,
    pub parameters: Vec<String>,
    pub local: bool,
}

/// An expression node; every variant carries its own id. The number literal
/// keeps its raw lexeme verbatim; parentheses are retained as a distinct node
/// because they affect multi-value truncation downstream.
#[derive(Debug, PartialEq)]
pub enum Expression {
    Nil { id: Id },
    Bool { id: Id, value: bool },
    Number { id: Id, value: String },
    String { id: Id, value: StringLiteral },
    VarArg { id: Id },
    Table { id: Id, value: TableLiteral },
    FunctionCall { id: Id, value: FunctionCall },
    Name { id: Id, value: String },
    ParenExpression { id: Id, value: Box<Expression> },
    UnaryOp { id: Id, value: UnaryOp },
    BinaryOp { id: Id, value: BinaryOp },
}

/// A table-literal key: either a bracketed computed expression or a bare name
/// (sugar for a string key).
#[derive(Debug, PartialEq)]
pub enum TableKey {
    Expression(Expression),
    Name(String),
}

/// An ordered sequence of (optional key, value) pairs; a missing key marks a
/// positional entry. Source order is preserved.
#[derive(Debug, PartialEq)]
pub struct TableLiteral {
    pub items: Vec<(Option<TableKey>, Expression)>,
}

/// A statement node; every variant carries its own id.
#[derive(Debug, PartialEq)]
pub enum Statement {
    Assignment { id: Id, value: Assignment },
    LocalAssignment { id: Id, value: LocalAssignment },
    FunctionCall { id: Id, value: FunctionCall },
    NumericFor { id: Id, value: NumericFor },
    GenericFor { id: Id, value: GenericFor },
    IfStatement { id: Id, value: IfStatement },
    WhileLoop { id: Id, value: WhileLoop },
    RepeatLoop { id: Id, value: RepeatLoop },
    FunctionDeclaration { id: Id, value: FunctionDeclaration },
}

/// An ordered sequence of statements: the parse unit.
#[derive(Debug, PartialEq)]
pub struct Chunk {
    pub statements: Vec<Statement>,
}

/// The id a statement node carries.
pub open spec fn spec_stmt_id(s: Statement) -> Id {
    match s {
        Statement::Assignment { id, .. } => id,
        Statement::LocalAssignment { id, .. } => id,
        Statement::FunctionCall { id, .. } => id,
        Statement::NumericFor { id, .. } => id,
        Statement::GenericFor { id, .. } => id,
        Statement::IfStatement { id, .. } => id,
        Statement::WhileLoop { id, .. } => id,
        Statement::RepeatLoop { id, .. } => id,
        Statement::FunctionDeclaration { id, .. } => id,
    }
}

/// The id an expression node carries.
pub open spec fn spec_expr_id(e: Expression) -> Id {
    match e {
        Expression::Nil { id } => id,
        Expression::Bool { id, .. } => id,
        Expression::Number { id, .. } => id,
        Expression::String { id, .. } => id,
        Expression::VarArg { id } => id,
        Expression::Table { id, .. } => id,
        Expression::FunctionCall { id, .. } => id,
        Expression::Name { id, .. } => id,
        Expression::ParenExpression { id, .. } => id,
        Expression::UnaryOp { id, .. } => id,
        Expression::BinaryOp { id, .. } => id,
    }
}

impl Expression {
    pub fn id(&self) -> (r: Id)
        ensures
            r == spec_expr_id(*self),
    {
        match self {
            Expression::Nil { id } => *id,
            Expression::Bool { id, .. } => *id,
            Expression::Number { id, .. } => *id,
            Expression::String { id, .. } => *id,
            Expression::VarArg { id } => *id,
            Expression::Table { id, .. } => *id,
            Expression::FunctionCall { id, .. } => *id,
            Expression::Name { id, .. } => *id,
            Expression::ParenExpression { id, .. } => *id,
            Expression::UnaryOp { id, .. } => *id,
            Expression::BinaryOp { id, .. } => *id,
        }
    }
}

impl Statement {
    pub fn id(&self) -> (r: Id)
        ensures
            r == spec_stmt_id(*self),
    {
        match self {
            Statement::Assignment { id, .. } => *id,
            Statement::LocalAssignment { id, .. } => *id,
            Statement::FunctionCall { id, .. } => *id,
            Statement::NumericFor { id, .. } => *id,
            Statement::GenericFor { id, .. } => *id,
            Statement::IfStatement { id, .. } => *id,
            Statement::WhileLoop { id, .. } => *id,
            Statement::RepeatLoop { id, .. } => *id,
            Statement::FunctionDeclaration { id, .. } => *id,
        }
    }
}

/// All ids carried by the nodes of an expression subtree, node first.
pub open spec fn expr_ids(e: Expression) -> Seq<Id>
    decreases e,
{
    match e {
        Expression::Nil { id } => seq![id],
        Expression::Bool { id, .. } => seq![id],
        Expression::Number { id, .. } => seq![id],
        Expression::String { id, .. } => seq![id],
        Expression::VarArg { id } => seq![id],
        Expression::Table { id, value } => seq![id] + table_literal_ids(value),
        Expression::FunctionCall { id, value } => seq![id] + function_call_ids(value),
        Expression::Name { id, .. } => seq![id],
        Expression::ParenExpression { id, value } => seq![id] + expr_ids(*value),
        Expression::UnaryOp { id, value } => seq![id] + expr_ids(*value.argument),
        Expression::BinaryOp { id, value } => seq![id] + expr_ids(*value.left) + expr_ids(
            *value.right,
        ),
    }
}

pub open spec fn exprs_ids(es: Seq<Expression>) -> Seq<Id>
    decreases es,
{
    if es.len() == 0 {
        Seq::empty()
    } else {
        expr_ids(es[0]) + exprs_ids(es.drop_first())
    }
}

pub open spec fn opt_expr_ids(o: Option<Expression>) -> Seq<Id>
    decreases o,
{
    match o {
        Option::Some(e) => expr_ids(e),
        Option::None => Seq::empty(),
    }
}

pub open spec fn table_key_ids(k: TableKey) -> Seq<Id>
    decreases k,
{
    match k {
        TableKey::Expression(e) => expr_ids(e),
        TableKey::Name(_) => Seq::empty(),
    }
}

pub open spec fn opt_table_key_ids(k: Option<TableKey>) -> Seq<Id>
    decreases k,
{
    match k {
        Option::Some(key) => table_key_ids(key),
        Option::None => Seq::empty(),
    }
}

pub open spec fn table_item_ids(item: (Option<TableKey>, Expression)) -> Seq<Id>
    decreases item,
{
    opt_table_key_ids(item.0) + expr_ids(item.1)
}

pub open spec fn table_items_ids(items: Seq<(Option<TableKey>, Expression)>) -> Seq<Id>
    decreases items,
{
    if items.len() == 0 {
        Seq::empty()
    } else {
        table_item_ids(items[0]) + table_items_ids(items.drop_first())
    }
}

pub open spec fn branch_ids(b: (Expression, Chunk)) -> Seq<Id>
    decreases b,
{
    expr_ids(b.0) + chunk_ids(b.1)
}

pub open spec fn branches_ids(bs: Seq<(Expression, Chunk)>) -> Seq<Id>
    decreases bs,
{
    if bs.len() == 0 {
        Seq::empty()
    } else {
        branch_ids(bs[0]) + branches_ids(bs.drop_first())
    }
}

pub open spec fn opt_chunk_ids(o: Option<Chunk>) -> Seq<Id>
    decreases o,
{
    match o {
        Option::Some(c) => chunk_ids(c),
        Option::None => Seq::empty(),
    }
}

/// All ids below a `FunctionCall` node (the node's own id lives on the
/// enclosing expression or statement).
pub open spec fn function_call_ids(v: FunctionCall) -> Seq<Id>
    decreases v,
{
    expr_ids(*v.name_expression) + exprs_ids(v.arguments@)
}

pub open spec fn table_literal_ids(v: TableLiteral) -> Seq<Id>
    decreases v,
{
    table_items_ids(v.items@)
}

pub open spec fn assignment_ids(v: Assignment) -> Seq<Id>
    decreases v,
{
    exprs_ids(v.values@)
}

pub open spec fn local_assignment_ids(v: LocalAssignment) -> Seq<Id>
    decreases v,
{
    exprs_ids(v.values@)
}

pub open spec fn numeric_for_ids(v: NumericFor) -> Seq<Id>
    decreases v,
{
    expr_ids(v.start) + expr_ids(v.end) + opt_expr_ids(v.step) + chunk_ids(v.body)
}

pub open spec fn generic_for_ids(v: GenericFor) -> Seq<Id>
    decreases v,
{
    exprs_ids(v.item_source@) + chunk_ids(v.body)
}

pub open spec fn if_statement_ids(v: IfStatement) -> Seq<Id>
    decreases v,
{
    expr_ids(v.condition) + chunk_ids(v.body) + branches_ids(v.else_if_branches@) + opt_chunk_ids(
        v.else_branch,
    )
}

pub open spec fn while_loop_ids(v: WhileLoop) -> Seq<Id>
    decreases v,
{
    expr_ids(v.condition) + chunk_ids(v.body)
}

pub open spec fn repeat_loop_ids(v: RepeatLoop) -> Seq<Id>
    decreases v,
{
    expr_ids(v.condition) + chunk_ids(v.body)
}

pub open spec fn function_declaration_ids(v: FunctionDeclaration) -> Seq<Id>
    decreases v,
{
    chunk_ids(v.body)
}

/// All ids carried by the nodes of a statement subtree, node first.
pub open spec fn stmt_ids(s: Statement) -> Seq<Id>
    decreases s,
{
    match s {
        Statement::Assignment { id, value } => seq![id] + assignment_ids(value),
        Statement::LocalAssignment { id, value } => seq![id] + local_assignment_ids(value),
        Statement::FunctionCall { id, value } => seq![id] + function_call_ids(value),
        Statement::NumericFor { id, value } => seq![id] + numeric_for_ids(value),
        Statement::GenericFor { id, value } => seq![id] + generic_for_ids(value),
        Statement::IfStatement { id, value } => seq![id] + if_statement_ids(value),
        Statement::WhileLoop { id, value } => seq![id] + while_loop_ids(value),
        Statement::RepeatLoop { id, value } => seq![id] + repeat_loop_ids(value),
        Statement::FunctionDeclaration { id, value } => seq![id] + function_declaration_ids(value),
    }
}

pub open spec fn stmts_ids(ss: Seq<Statement>) -> Seq<Id>
    decreases ss,
{
    if ss.len() == 0 {
        Seq::empty()
    } else {
        stmt_ids(ss[0]) + stmts_ids(ss.drop_first())
    }
}

/// All ids carried by the nodes of a chunk.
pub open spec fn chunk_ids(c: Chunk) -> Seq<Id>
    decreases c,
{
    stmts_ids(c.statements@)
}

/// Every id of `ids` lies in the half-open interval `[lo, hi)`.
pub open spec fn ids_in_range(ids: Seq<Id>, lo: int, hi: int) -> bool {
    forall|i: int| 0 <= i < ids.len() ==> lo <= #[trigger] ids[i] < hi
}

/// No id occurs twice in `ids`.
pub open spec fn ids_distinct(ids: Seq<Id>) -> bool {
    forall|i: int, j: int|
        #![trigger ids[i], ids[j]]
        0 <= i < j < ids.len() ==> ids[i] != ids[j]
}

/// The ids are pairwise distinct and all lie in `[lo, hi)`.
pub open spec fn ids_ok(ids: Seq<Id>, lo: int, hi: int) -> bool {
    ids_in_range(ids, lo, hi) && ids_distinct(ids)
}

pub proof fn lemma_ids_single(id: Id, lo: int, hi: int)
    requires
        lo <= id < hi,
    ensures
        ids_ok(seq![id], lo, hi),
{
}

/// Ids drawn from two adjacent intervals stay distinct when concatenated.
pub proof fn lemma_ids_concat(a: Seq<Id>, b: Seq<Id>, lo: int, mid: int, hi: int)
    requires
        ids_ok(a, lo, mid),
        ids_ok(b, mid, hi),
        lo <= mid <= hi,
    ensures
        ids_ok(a + b, lo, hi),
{
    let c = a + b;
    assert forall|i: int| 0 <= i < c.len() implies lo <= #[trigger] c[i] < hi by {
        if i < a.len() {
            assert(c[i] == a[i]);
        } else {
            assert(c[i] == b[i - a.len()]);
        }
    }
    assert forall|i: int, j: int|
        #![trigger c[i], c[j]]
        0 <= i < j < c.len() implies c[i] != c[j] by {
        if j < a.len() {
            assert(c[i] == a[i] && c[j] == a[j]);
        } else if i >= a.len() {
            assert(c[i] == b[i - a.len()] && c[j] == b[j - a.len()]);
        } else {
            assert(c[i] == a[i] && c[j] == b[j - a.len()]);
            assert(a[i] < mid);
            assert(b[j - a.len()] >= mid);
        }
    }
}

/// Ids drawn from two disjoint intervals stay distinct when concatenated, in
/// either order of the intervals.
pub proof fn lemma_ids_concat2(
    a: Seq<Id>,
    b: Seq<Id>,
    alo: int,
    ahi: int,
    blo: int,
    bhi: int,
    lo: int,
    hi: int,
)
    requires
        ids_ok(a, alo, ahi),
        ids_ok(b, blo, bhi),
        ahi <= blo || bhi <= alo,
        lo <= alo,
        ahi <= hi,
        lo <= blo,
        bhi <= hi,
    ensures
        ids_ok(a + b, lo, hi),
{
    let c = a + b;
    assert forall|i: int| 0 <= i < c.len() implies lo <= #[trigger] c[i] < hi by {
        if i < a.len() {
            assert(c[i] == a[i]);
        } else {
            assert(c[i] == b[i - a.len()]);
        }
    }
    assert forall|i: int, j: int|
        #![trigger c[i], c[j]]
        0 <= i < j < c.len() implies c[i] != c[j] by {
        if j < a.len() {
            assert(c[i] == a[i] && c[j] == a[j]);
        } else if i >= a.len() {
            assert(c[i] == b[i - a.len()] && c[j] == b[j - a.len()]);
        } else {
            assert(c[i] == a[i] && c[j] == b[j - a.len()]);
            assert(alo <= a[i] < ahi);
            assert(blo <= b[j - a.len()] < bhi);
        }
    }
}

/// Widening the admissible interval preserves `ids_ok`.
pub proof fn lemma_ids_widen(ids: Seq<Id>, lo: int, hi: int, lo2: int, hi2: int)
    requires
        ids_ok(ids, lo, hi),
        lo2 <= lo,
        hi <= hi2,
    ensures
        ids_ok(ids, lo2, hi2),
{
}

pub proof fn lemma_stmts_ids_push(ss: Seq<Statement>, s: Statement)
    ensures
        stmts_ids(ss.push(s)) == stmts_ids(ss) + stmt_ids(s),
    decreases ss.len(),
{
    let p = ss.push(s);
    assert(p.len() == ss.len() + 1);
    if ss.len() == 0 {
        assert(p[0] == s);
        assert(p.drop_first() =~= Seq::<Statement>::empty());
        assert(stmts_ids(p) == stmt_ids(s) + stmts_ids(p.drop_first()));
        assert(stmts_ids(p.drop_first()) =~= Seq::<Id>::empty());
        assert(stmts_ids(p) =~= stmts_ids(ss) + stmt_ids(s));
    } else {
        lemma_stmts_ids_push(ss.drop_first(), s);
        assert(p.drop_first() =~= ss.drop_first().push(s));
        assert(p[0] == ss[0]);
        assert(stmts_ids(p) == stmt_ids(ss[0]) + stmts_ids(p.drop_first()));
        assert(stmts_ids(p.drop_first()) == stmts_ids(ss.drop_first()) + stmt_ids(s));
        assert(stmts_ids(p) =~= stmts_ids(ss) + stmt_ids(s));
    }
}

pub proof fn lemma_exprs_ids_push(es: Seq<Expression>, e: Expression)
    ensures
        exprs_ids(es.push(e)) == exprs_ids(es) + expr_ids(e),
    decreases es.len(),
{
    let p = es.push(e);
    assert(p.len() == es.len() + 1);
    if es.len() == 0 {
        assert(p[0] == e);
        assert(p.drop_first() =~= Seq::<Expression>::empty());
        assert(exprs_ids(p) == expr_ids(e) + exprs_ids(p.drop_first()));
        assert(exprs_ids(p.drop_first()) =~= Seq::<Id>::empty());
        assert(exprs_ids(p) =~= exprs_ids(es) + expr_ids(e));
    } else {
        lemma_exprs_ids_push(es.drop_first(), e);
        assert(p.drop_first() =~= es.drop_first().push(e));
        assert(p[0] == es[0]);
        assert(exprs_ids(p) == expr_ids(es[0]) + exprs_ids(p.drop_first()));
        assert(exprs_ids(p.drop_first()) == exprs_ids(es.drop_first()) + expr_ids(e));
        assert(exprs_ids(p) =~= exprs_ids(es) + expr_ids(e));
    }
}

pub proof fn lemma_table_items_ids_push(
    items: Seq<(Option<TableKey>, Expression)>,
    item: (Option<TableKey>, Expression),
)
    ensures
        table_items_ids(items.push(item)) == table_items_ids(items) + table_item_ids(item),
    decreases items.len(),
{
    let p = items.push(item);
    assert(p.len() == items.len() + 1);
    if items.len() == 0 {
        assert(p[0] == item);
        assert(p.drop_first() =~= Seq::<(Option<TableKey>, Expression)>::empty());
        assert(table_items_ids(p) == table_item_ids(item) + table_items_ids(p.drop_first()));
        assert(table_items_ids(p.drop_first()) =~= Seq::<Id>::empty());
        assert(table_items_ids(p) =~= table_items_ids(items) + table_item_ids(item));
    } else {
        lemma_table_items_ids_push(items.drop_first(), item);
        assert(p.drop_first() =~= items.drop_first().push(item));
        assert(p[0] == items[0]);
        assert(table_items_ids(p) == table_item_ids(items[0]) + table_items_ids(p.drop_first()));
        assert(table_items_ids(p.drop_first()) == table_items_ids(items.drop_first())
            + table_item_ids(item));
        assert(table_items_ids(p) =~= table_items_ids(items) + table_item_ids(item));
    }
}

pub proof fn lemma_branches_ids_push(bs: Seq<(Expression, Chunk)>, b: (Expression, Chunk))
    ensures
        branches_ids(bs.push(b)) == branches_ids(bs) + branch_ids(b),
    decreases bs.len(),
{
    let p = bs.push(b);
    assert(p.len() == bs.len() + 1);
    if bs.len() == 0 {
        assert(p[0] == b);
        assert(p.drop_first() =~= Seq::<(Expression, Chunk)>::empty());
        assert(branches_ids(p) == branch_ids(b) + branches_ids(p.drop_first()));
        assert(branches_ids(p.drop_first()) =~= Seq::<Id>::empty());
        assert(branches_ids(p) =~= branches_ids(bs) + branch_ids(b));
    } else {
        lemma_branches_ids_push(bs.drop_first(), b);
        assert(p.drop_first() =~= bs.drop_first().push(b));
        assert(p[0] == bs[0]);
        assert(branches_ids(p) == branch_ids(bs[0]) + branches_ids(p.drop_first()));
        assert(branches_ids(p.drop_first()) == branches_ids(bs.drop_first()) + branch_ids(b));
        assert(branches_ids(p) =~= branches_ids(bs) + branch_ids(b));
    }
}

/// The ids of two trees built from adjacent id intervals never overlap: ids
/// issued for a second parse that starts where a first parse's allocator
/// ended are disjoint from the first parse's ids.
pub proof fn lemma_sequential_parse_ids_disjoint(
    c1: Chunk,
    c2: Chunk,
    lo1: int,
    hi1: int,
    lo2: int,
    hi2: int,
)
    requires
        ids_ok(chunk_ids(c1), lo1, hi1),
        ids_ok(chunk_ids(c2), lo2, hi2),
        hi1 <= lo2,
    ensures
        forall|i: int, j: int|
            #![trigger chunk_ids(c1)[i], chunk_ids(c2)[j]]
            0 <= i < chunk_ids(c1).len() && 0 <= j < chunk_ids(c2).len() ==> chunk_ids(c1)[i]
                != chunk_ids(c2)[j],
{
}

} // verus!
