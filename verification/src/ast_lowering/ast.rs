//! The syntax tree of a body, as far as its shape goes: the identities of
//! the nodes, their kinds, and what they hold.

use vstd::prelude::*;

verus! {

/// Whether a range has its end.
#[derive(Clone, Copy, Debug, PartialEq, Eq, Structural)]
pub enum RangeLimits {
    HalfOpen,
    Closed,
}

/// A parameter.
#[derive(Debug)]
pub struct Param {
    pub id: u32,
}

/// An arm of a `match`.
#[derive(Debug)]
pub struct Arm {
    pub body: Expr,
}

/// A block.
#[derive(Debug)]
pub struct Block {
    pub id: u32,
    pub stmts: Vec<Stmt>,
}

/// A statement.
#[derive(Debug)]
pub struct Stmt {
    pub id: u32,
    pub kind: StmtKind,
}

/// What a `let` is given.
#[derive(Debug)]
pub enum LocalKind {
    /// Nothing: `let x;`.
    Decl,
    /// An initializer: `let x = e;`.
    Init(Box<Expr>),
    /// An initializer and a block for the case that the pattern does not
    /// match: `let Some(x) = e else { .. };`.
    InitElse(Box<Expr>, Box<Block>),
}

#[derive(Debug)]
pub enum StmtKind {
    Local(LocalKind),
    Item,
    /// An expression without a trailing semicolon.
    Expr(Box<Expr>),
    /// An expression with a trailing semicolon.
    Semi(Box<Expr>),
    Empty,
    MacCall,
}

/// An expression.
#[derive(Debug)]
pub struct Expr {
    pub id: u32,
    pub kind: ExprKind,
}

#[derive(Debug)]
pub enum ExprKind {
    Array(Vec<Expr>),
    ConstBlock,
    /// The callee and the arguments.
    Call(Box<Expr>, Vec<Expr>),
    /// The receiver and the arguments.
    MethodCall(Box<Expr>, Vec<Expr>),
    Tup(Vec<Expr>),
    Binary(Box<Expr>, Box<Expr>),
    Unary(Box<Expr>),
    Lit,
    Cast(Box<Expr>),
    Type(Box<Expr>),
    /// The expression that a `let` in a condition matches.
    Let(Box<Expr>),
    /// Condition, block, `else` branch.
    If(Box<Expr>, Box<Block>, Option<Box<Expr>>),
    /// Condition and body.
    While(Box<Expr>, Box<Block>),
    /// The expression that is iterated over, and the body.
    ForLoop(Box<Expr>, Box<Block>),
    Loop(Box<Block>),
    /// Scrutinee and arms.
    Match(Box<Expr>, Vec<Arm>),
    /// Parameters and body.
    Closure(Vec<Param>, Box<Expr>),
    Block(Box<Block>),
    Async,
    Await(Box<Expr>),
    TryBlock,
    Assign(Box<Expr>, Box<Expr>),
    AssignOp(Box<Expr>, Box<Expr>),
    Field(Box<Expr>),
    /// The indexed expression and the index.
    Index(Box<Expr>, Box<Expr>),
    Range(Option<Box<Expr>>, Option<Box<Expr>>, RangeLimits),
    Underscore,
    Path,
    AddrOf(Box<Expr>),
    Break(Option<Box<Expr>>),
    Continue,
    Ret(Option<Box<Expr>>),
    InlineAsm,
    MacCall,
    /// The expressions of the fields, and the base after `..`.
    Struct(Vec<Expr>, Option<Box<Expr>>),
    Repeat(Box<Expr>),
    Paren(Box<Expr>),
    Try(Box<Expr>),
    Yield(Option<Box<Expr>>),
    Error,
    /// Any other kind of expression. None has a counterpart in the other
    /// tree.
    Other,
}

/// A function: its identity, its parameters, and its body if it has one.
#[derive(Debug)]
pub struct FnItem {
    pub id: u32,
    pub params: Vec<Param>,
    pub body: Option<Block>,
}

impl FnItem {
    pub open spec fn spec_kind(&self) -> FnKind<'_> {
        FnKind::Fn(
            &self.params,
            match &self.body {
                Some(body) => Some(body),
                None => None,
            },
        )
    }

    /// The function by its parameters and its body.
    pub fn kind(&self) -> (kind: FnKind<'_>)
        ensures
            kind == self.spec_kind(),
    {
        FnKind::Fn(
            &self.params,
            match &self.body {
                Some(body) => Some(body),
                None => None,
            },
        )
    }
}

/// A function or a closure, by its parameters and its body.
#[derive(Clone, Copy, Debug)]
pub enum FnKind<'ast> {
    Fn(&'ast Vec<Param>, Option<&'ast Block>),
    Closure(&'ast Vec<Param>, &'ast Expr),
}

} // verus!
