//! The syntax tree of a function as the mutation engine sees it, each node
//! with what the compiler resolved of it.
//!
//! A node of the syntax tree has an identity, a span and, where the compiler
//! found its counterpart in the resolved tree, what it knows of that
//! counterpart. Only what the engine reads is kept: the shape of blocks,
//! statements and expressions, and of an expression any operands.

use vstd::prelude::*;
use crate::reachability::LocalDefId;
use crate::unsafety::Safety;
use crate::unsafety::UnsafeSource;
use crate::unsafety::Unsafety;

verus! {

/// The identity of a node of the syntax tree.
#[derive(Copy, Clone, Debug, PartialEq, Eq, Hash, Structural)]
pub struct NodeId(pub u32);

/// The index of the placeholder identity, which no node of a tree has.
pub const DUMMY_NODE_INDEX: u32 = 0xFFFF_FF00;

impl NodeId {
    pub open spec fn spec_is_dummy(self) -> bool {
        self.0 == DUMMY_NODE_INDEX
    }

    /// The placeholder identity.
    pub fn dummy() -> (id: NodeId)
        ensures
            id.spec_is_dummy(),
            id == NodeId(DUMMY_NODE_INDEX),
    {
        NodeId(DUMMY_NODE_INDEX)
    }

    /// Whether this is the placeholder identity.
    pub fn is_dummy(&self) -> (r: bool)
        ensures
            r == self.spec_is_dummy(),
    {
        self.0 == DUMMY_NODE_INDEX
    }
}

/// A stretch of source text.
#[derive(Copy, Clone, Debug, PartialEq, Eq, Structural)]
pub struct Span {
    pub lo: u32,
    pub hi: u32,
    /// Both ends lie in source text of the crate under test, not in code
    /// that the compiler made up.
    pub local: bool,
}

/// The span of made-up code.
pub fn dummy_span() -> (span: Span)
    ensures
        span == (Span { lo: 0, hi: 0, local: false }),
{
    Span { lo: 0, hi: 0, local: false }
}

/// A binary operator.
#[derive(Copy, Clone, Debug, PartialEq, Eq, Structural)]
pub enum BinOpKind {
    Add,
    Sub,
    Mul,
    Div,
    Rem,
    And,
    Or,
    BitXor,
    BitAnd,
    BitOr,
    Shl,
    Shr,
    Eq,
    Lt,
    Le,
    Ne,
    Ge,
    Gt,
}

impl BinOpKind {
    /// The operator as written.
    pub open spec fn spec_as_str(self) -> Seq<char> {
        match self {
            BinOpKind::Add => "+"@,
            BinOpKind::Sub => "-"@,
            BinOpKind::Mul => "*"@,
            BinOpKind::Div => "/"@,
            BinOpKind::Rem => "%"@,
            BinOpKind::And => "&&"@,
            BinOpKind::Or => "||"@,
            BinOpKind::BitXor => "^"@,
            BinOpKind::BitAnd => "&"@,
            BinOpKind::BitOr => "|"@,
            BinOpKind::Shl => "<<"@,
            BinOpKind::Shr => ">>"@,
            BinOpKind::Eq => "=="@,
            BinOpKind::Lt => "<"@,
            BinOpKind::Le => "<="@,
            BinOpKind::Ne => "!="@,
            BinOpKind::Ge => ">="@,
            BinOpKind::Gt => ">"@,
        }
    }

    /// The operator as written.
    pub fn as_str(&self) -> (s: &'static str)
        ensures
            s@ == self.spec_as_str(),
    {
        match self {
            BinOpKind::Add => "+",
            BinOpKind::Sub => "-",
            BinOpKind::Mul => "*",
            BinOpKind::Div => "/",
            BinOpKind::Rem => "%",
            BinOpKind::And => "&&",
            BinOpKind::Or => "||",
            BinOpKind::BitXor => "^",
            BinOpKind::BitAnd => "&",
            BinOpKind::BitOr => "|",
            BinOpKind::Shl => "<<",
            BinOpKind::Shr => ">>",
            BinOpKind::Eq => "==",
            BinOpKind::Lt => "<",
            BinOpKind::Le => "<=",
            BinOpKind::Ne => "!=",
            BinOpKind::Ge => ">=",
            BinOpKind::Gt => ">",
        }
    }
}

/// Whether a binding may be assigned to.
#[derive(Copy, Clone, Debug, PartialEq, Eq, Structural)]
pub enum Mutability {
    Not,
    Mut,
}

impl Mutability {
    pub fn is_mut(&self) -> (r: bool)
        ensures
            r == (*self == Mutability::Mut),
    {
        matches!(self, Mutability::Mut)
    }
}

/// What the compiler knows of the operand types of a binary operation with
/// respect to one operator: whether the left operand's type implements the
/// operator's trait for the right operand's type (for an assignment with
/// operator, the assigning form of the trait), and whether the trait's
/// output is the type of the whole expression, where that is known.
#[derive(Copy, Clone, Debug, PartialEq, Eq, Structural)]
pub struct OpTraitFact {
    pub op: BinOpKind,
    pub implemented: bool,
    pub output_is_expr_ty: Option<bool>,
}

/// The resolved counterpart of a parameter, a block or a statement.
#[derive(Copy, Clone, Debug, PartialEq, Eq, Structural)]
pub struct HirNode {
    /// The node carries the marker that forbids mutation.
    pub ignore: bool,
}

/// The resolved counterpart of an expression.
#[derive(Debug)]
pub struct HirExpr {
    /// The node carries the marker that forbids mutation.
    pub ignore: bool,
    /// The resolved expression is a closure.
    pub is_closure: bool,
    /// For a binary operation or an assignment with operator: what is known
    /// of the operand types, one entry for each operator asked about.
    pub op_traits: Vec<OpTraitFact>,
}

/// How a block is checked.
#[derive(Copy, Clone, Debug, PartialEq, Eq, Structural)]
pub enum BlockCheckMode {
    Default,
    /// An `unsafe` block as the user wrote it.
    UnsafeUserProvided,
    /// An `unsafe` block that the compiler made up.
    UnsafeCompilerGenerated,
}

impl BlockCheckMode {
    pub open spec fn spec_is_unsafe(self) -> bool {
        self != BlockCheckMode::Default
    }

    pub fn is_unsafe(&self) -> (r: bool)
        ensures
            r == self.spec_is_unsafe(),
    {
        !matches!(self, BlockCheckMode::Default)
    }
}

/// A parameter of a function or a closure.
#[derive(Debug)]
pub struct Param {
    pub id: NodeId,
    pub span: Span,
    pub hir: Option<HirNode>,
}

/// A block.
#[derive(Debug)]
pub struct Block {
    pub id: NodeId,
    pub span: Span,
    pub hir: Option<HirNode>,
    pub rules: BlockCheckMode,
    pub stmts: Vec<Stmt>,
}

/// A statement.
#[derive(Debug)]
pub struct Stmt {
    pub id: NodeId,
    pub span: Span,
    pub hir: Option<HirNode>,
    /// The statement as written.
    pub source: String,
    pub kind: StmtKind,
}

#[derive(Debug)]
pub enum StmtKind {
    /// A `let`, with its initializer and its `else` block where it has them.
    Local(Option<Box<Expr>>, Option<Box<Block>>),
    /// A nested item. It is a definition of its own and no part of the body.
    Item,
    /// An expression without a trailing semicolon.
    Expr(Box<Expr>),
    /// An expression with a trailing semicolon.
    Semi(Box<Expr>),
    /// A lone semicolon.
    Empty,
    /// A macro call that was not expanded.
    MacCall,
}

/// An arm of a `match`.
#[derive(Debug)]
pub struct Arm {
    pub guard: Option<Expr>,
    pub body: Option<Expr>,
}

/// An operand of an expression: an expression or a block.
#[derive(Debug)]
pub enum Operand {
    Expr(Expr),
    Block(Block),
}

/// An expression.
#[derive(Debug)]
pub struct Expr {
    pub id: NodeId,
    pub span: Span,
    pub hir: Option<HirExpr>,
    /// The expression as written.
    pub source: String,
    pub kind: ExprKind,
}

#[derive(Debug)]
pub enum ExprKind {
    /// An expression in parentheses.
    Paren(Box<Expr>),
    Binary(BinOpKind, Box<Expr>, Box<Expr>),
    /// Left-hand side, right-hand side.
    Assign(Box<Expr>, Box<Expr>),
    /// Left-hand side, right-hand side.
    AssignOp(BinOpKind, Box<Expr>, Box<Expr>),
    Block(Box<Block>),
    If(IfExpr),
    /// Scrutinee and arms.
    Match(Box<Expr>, Vec<Arm>),
    /// Parameters and body.
    Closure(Vec<Param>, Box<Expr>),
    /// Any other expression, with its operands in the order of the source.
    Other(Vec<Operand>),
}

/// The parts of an `if`: condition, block, and `else` branch.
#[derive(Debug)]
pub struct IfExpr {
    pub cond: Box<Expr>,
    pub then_block: Box<Block>,
    pub els: Option<Else>,
}

/// An `else` branch: another `if`, or a block.
#[derive(Debug)]
pub enum Else {
    If(Box<IfExpr>),
    Block(Box<Block>),
}

/// A function of the crate under test, as the compiler resolved it, with
/// its body where it has one.
#[derive(Debug)]
pub struct FnItem {
    pub id: NodeId,
    pub span: Span,
    /// `Unsafe` for an `unsafe fn`.
    pub safety: Safety,
    pub params: Vec<Param>,
    pub body: Option<Block>,
}

/// A function of the crate under test with the index of its definition.
#[derive(Debug)]
pub struct CrateFn {
    pub def_id: LocalDefId,
    pub item: FnItem,
}

/// The functions of the crate under test.
#[derive(Debug)]
pub struct Crate {
    pub fns: Vec<CrateFn>,
}

/// The position of the first function with the definition index at or
/// after `from`.
pub open spec fn find_fn(fns: Seq<CrateFn>, def_id: LocalDefId, from: int) -> Option<int>
    decreases fns.len() - from,
{
    if from < 0 || from >= fns.len() {
        None
    } else if fns[from].def_id == def_id {
        Some(from)
    } else {
        find_fn(fns, def_id, from + 1)
    }
}

impl Crate {
    /// The function with the definition index; the first, where several
    /// have it.
    pub open spec fn spec_find_def(&self, def_id: LocalDefId) -> Option<&FnItem> {
        match find_fn(self.fns@, def_id, 0) {
            Some(i) => Some(&self.fns@[i].item),
            None => None,
        }
    }

    /// The function with the definition index, if the crate has it.
    pub fn find_def_in_ast(&self, def_id: LocalDefId) -> (item: Option<&FnItem>)
        ensures
            item == self.spec_find_def(def_id),
    {
        let mut i: usize = 0;
        while i < self.fns.len()
            invariant
                0 <= i <= self.fns.len(),
                find_fn(self.fns@, def_id, 0) == find_fn(self.fns@, def_id, i as int),
            decreases self.fns.len() - i,
        {
            if self.fns[i].def_id == def_id {
                return Some(&self.fns[i].item);
            }
            i += 1;
        }
        None
    }
}

/// Whether the block or a block inside it is an `unsafe` block that the
/// user wrote. Blocks inside such a block are not looked at.
pub open spec fn block_has_unsafe(block: Block) -> bool
    decreases block,
{
    block.rules == BlockCheckMode::UnsafeUserProvided || stmts_have_unsafe(block.stmts@, 0)
}

pub open spec fn stmts_have_unsafe(stmts: Seq<Stmt>, from: int) -> bool
    decreases stmts, stmts.len() - from,
{
    if from < 0 || from >= stmts.len() {
        false
    } else {
        stmt_has_unsafe(stmts[from]) || stmts_have_unsafe(stmts, from + 1)
    }
}

pub open spec fn stmt_has_unsafe(stmt: Stmt) -> bool
    decreases stmt,
{
    match stmt.kind {
        StmtKind::Local(init, els) => (match init {
            Some(init) => expr_has_unsafe(*init),
            None => false,
        }) || (match els {
            Some(els) => block_has_unsafe(*els),
            None => false,
        }),
        StmtKind::Expr(expr) => expr_has_unsafe(*expr),
        StmtKind::Semi(expr) => expr_has_unsafe(*expr),
        StmtKind::Item => false,
        StmtKind::Empty => false,
        StmtKind::MacCall => false,
    }
}

pub open spec fn expr_has_unsafe(expr: Expr) -> bool
    decreases expr,
{
    match expr.kind {
        ExprKind::Paren(inner) => expr_has_unsafe(*inner),
        ExprKind::Binary(_, lhs, rhs) => expr_has_unsafe(*lhs) || expr_has_unsafe(*rhs),
        ExprKind::Assign(lhs, rhs) => expr_has_unsafe(*lhs) || expr_has_unsafe(*rhs),
        ExprKind::AssignOp(_, lhs, rhs) => expr_has_unsafe(*lhs) || expr_has_unsafe(*rhs),
        ExprKind::Block(block) => block_has_unsafe(*block),
        ExprKind::If(if_expr) => if_has_unsafe(if_expr),
        ExprKind::Match(scrutinee, arms) => expr_has_unsafe(*scrutinee) || arms_have_unsafe(
            arms@,
            0,
        ),
        ExprKind::Closure(_, body) => expr_has_unsafe(*body),
        ExprKind::Other(operands) => operands_have_unsafe(operands@, 0),
    }
}

pub open spec fn if_has_unsafe(if_expr: IfExpr) -> bool
    decreases if_expr,
{
    expr_has_unsafe(*if_expr.cond) || block_has_unsafe(*if_expr.then_block) || (match if_expr.els {
        Some(Else::If(nested)) => if_has_unsafe(*nested),
        Some(Else::Block(block)) => block_has_unsafe(*block),
        None => false,
    })
}

pub open spec fn arms_have_unsafe(arms: Seq<Arm>, from: int) -> bool
    decreases arms, arms.len() - from,
{
    if from < 0 || from >= arms.len() {
        false
    } else {
        (match arms[from].guard {
            Some(guard) => expr_has_unsafe(guard),
            None => false,
        }) || (match arms[from].body {
            Some(body) => expr_has_unsafe(body),
            None => false,
        }) || arms_have_unsafe(arms, from + 1)
    }
}

pub open spec fn operands_have_unsafe(operands: Seq<Operand>, from: int) -> bool
    decreases operands, operands.len() - from,
{
    if from < 0 || from >= operands.len() {
        false
    } else {
        (match operands[from] {
            Operand::Expr(expr) => expr_has_unsafe(expr),
            Operand::Block(block) => block_has_unsafe(block),
        }) || operands_have_unsafe(operands, from + 1)
    }
}

/// The unsafety of a function as written: `Unsafe(Unsafe)` for an
/// `unsafe fn`, `Unsafe(EnclosingUnsafe)` for a function whose body holds
/// an `unsafe` block that the user wrote, and `Safe` otherwise.
pub open spec fn spec_item_unsafety(item: FnItem) -> Unsafety {
    if item.safety == Safety::Unsafe {
        Unsafety::Unsafe(UnsafeSource::Unsafe)
    } else {
        match item.body {
            Some(body) => if block_has_unsafe(body) {
                Unsafety::Unsafe(UnsafeSource::EnclosingUnsafe)
            } else {
                Unsafety::Safe
            },
            None => Unsafety::Safe,
        }
    }
}


fn block_contains_unsafe(block: &Block) -> (r: bool)
    ensures
        r == block_has_unsafe(*block),
    decreases block,
{
    if matches!(block.rules, BlockCheckMode::UnsafeUserProvided) {
        return true;
    }
    let mut i: usize = 0;
    while i < block.stmts.len()
        invariant
            0 <= i <= block.stmts.len(),
            stmts_have_unsafe(block.stmts@, 0) == stmts_have_unsafe(block.stmts@, i as int),
        decreases block.stmts.len() - i,
    {
        if stmt_contains_unsafe(&block.stmts[i]) {
            return true;
        }
        i += 1;
    }
    false
}

fn stmt_contains_unsafe(stmt: &Stmt) -> (r: bool)
    ensures
        r == stmt_has_unsafe(*stmt),
    decreases stmt,
{
    match &stmt.kind {
        StmtKind::Local(init, els) => {
            let in_init = match init {
                Some(init) => expr_contains_unsafe(init),
                None => false,
            };
            if in_init {
                return true;
            }
            match els {
                Some(els) => block_contains_unsafe(els),
                None => false,
            }
        },
        StmtKind::Expr(expr) => expr_contains_unsafe(expr),
        StmtKind::Semi(expr) => expr_contains_unsafe(expr),
        StmtKind::Item => false,
        StmtKind::Empty => false,
        StmtKind::MacCall => false,
    }
}

fn expr_contains_unsafe(expr: &Expr) -> (r: bool)
    ensures
        r == expr_has_unsafe(*expr),
    decreases expr,
{
    match &expr.kind {
        ExprKind::Paren(inner) => expr_contains_unsafe(inner),
        ExprKind::Binary(_, lhs, rhs) => expr_contains_unsafe(lhs) || expr_contains_unsafe(rhs),
        ExprKind::Assign(lhs, rhs) => expr_contains_unsafe(lhs) || expr_contains_unsafe(rhs),
        ExprKind::AssignOp(_, lhs, rhs) => expr_contains_unsafe(lhs) || expr_contains_unsafe(rhs),
        ExprKind::Block(block) => block_contains_unsafe(block),
        ExprKind::If(if_expr) => if_contains_unsafe(if_expr),
        ExprKind::Match(scrutinee, arms) => expr_contains_unsafe(scrutinee)
            || arms_contain_unsafe(arms),
        ExprKind::Closure(_, body) => expr_contains_unsafe(body),
        ExprKind::Other(operands) => operands_contain_unsafe(operands),
    }
}

fn arms_contain_unsafe(arms: &Vec<Arm>) -> (r: bool)
    ensures
        r == arms_have_unsafe(arms@, 0),
    decreases arms,
{
    let mut i: usize = 0;
    while i < arms.len()
        invariant
            0 <= i <= arms.len(),
            arms_have_unsafe(arms@, 0) == arms_have_unsafe(arms@, i as int),
        decreases arms.len() - i,
    {
        let in_guard = match &arms[i].guard {
            Some(guard) => expr_contains_unsafe(guard),
            None => false,
        };
        if in_guard {
            return true;
        }
        let in_body = match &arms[i].body {
            Some(body) => expr_contains_unsafe(body),
            None => false,
        };
        if in_body {
            return true;
        }
        i += 1;
    }
    false
}

fn operands_contain_unsafe(operands: &Vec<Operand>) -> (r: bool)
    ensures
        r == operands_have_unsafe(operands@, 0),
    decreases operands,
{
    let mut i: usize = 0;
    while i < operands.len()
        invariant
            0 <= i <= operands.len(),
            operands_have_unsafe(operands@, 0) == operands_have_unsafe(operands@, i as int),
        decreases operands.len() - i,
    {
        let found = match &operands[i] {
            Operand::Expr(operand) => expr_contains_unsafe(operand),
            Operand::Block(block) => block_contains_unsafe(block),
        };
        if found {
            return true;
        }
        i += 1;
    }
    false
}

fn if_contains_unsafe(if_expr: &IfExpr) -> (r: bool)
    ensures
        r == if_has_unsafe(*if_expr),
    decreases if_expr,
{
    if expr_contains_unsafe(&if_expr.cond) {
        return true;
    }
    if block_contains_unsafe(&if_expr.then_block) {
        return true;
    }
    match &if_expr.els {
        Some(Else::If(nested)) => if_contains_unsafe(nested),
        Some(Else::Block(block)) => block_contains_unsafe(block),
        None => false,
    }
}

/// The unsafety of a function as written.
pub fn check_item_unsafety(item: &FnItem) -> (unsafety: Unsafety)
    ensures
        unsafety == spec_item_unsafety(*item),
{
    if matches!(item.safety, Safety::Unsafe) {
        return Unsafety::Unsafe(UnsafeSource::Unsafe);
    }
    match &item.body {
        Some(body) => {
            if block_contains_unsafe(body) {
                Unsafety::Unsafe(UnsafeSource::EnclosingUnsafe)
            } else {
                Unsafety::Safe
            }
        },
        None => Unsafety::Safe,
    }
}

} // verus!
