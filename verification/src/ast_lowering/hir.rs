//! The resolved tree of a body, as far as its shape goes: the identities
//! of the nodes, their kinds, and what they hold.

use vstd::prelude::*;

verus! {

/// The identity of a node of the resolved tree: the definition that owns
/// it, and its number in there.
#[derive(Clone, Copy, Debug, PartialEq, Eq, Hash, Structural)]
pub struct HirId {
    pub owner: u32,
    pub local_id: u32,
}

impl HirId {
    pub open spec fn spec_key(self) -> (u32, u32) {
        (self.owner, self.local_id)
    }

    /// The identity as a pair of integers.
    pub fn key(&self) -> (key: (u32, u32))
        ensures
            key == self.spec_key(),
    {
        (self.owner, self.local_id)
    }
}

/// What a loop was written as.
#[derive(Clone, Copy, Debug, PartialEq, Eq, Structural)]
pub enum LoopSource {
    Loop,
    While,
    ForLoop,
}

/// What a `match` was written as.
#[derive(Clone, Copy, Debug, PartialEq, Eq, Structural)]
pub enum MatchSource {
    Normal,
    ForLoopDesugar,
    TryDesugar,
    AwaitDesugar,
    /// Anything else that the compiler turns into a `match`.
    Postfix,
}

/// The items of the language that the compiler refers to when it takes
/// ranges and `?` apart.
#[derive(Clone, Copy, Debug, PartialEq, Eq, Structural)]
pub enum LangItem {
    RangeFull,
    RangeFrom,
    RangeTo,
    Range,
    RangeToInclusive,
    RangeInclusiveNew,
    TryTraitBranch,
    /// Any other item of the language.
    Unrelated,
}

/// A parameter.
#[derive(Debug)]
pub struct Param {
    pub hir_id: HirId,
}

/// An arm of a `match`.
#[derive(Debug)]
pub struct Arm {
    pub body: Expr,
}

/// A block: its statements, and the expression at its end that gives its
/// value.
#[derive(Debug)]
pub struct Block {
    pub hir_id: HirId,
    pub stmts: Vec<Stmt>,
    pub expr: Option<Box<Expr>>,
}

/// A statement.
#[derive(Debug)]
pub struct Stmt {
    pub hir_id: HirId,
    pub kind: StmtKind,
}

#[derive(Debug)]
pub enum StmtKind {
    /// A `let`, with its initializer.
    Local(Option<Box<Expr>>),
    Item,
    Expr(Box<Expr>),
    Semi(Box<Expr>),
}

/// A body: the parameters and the expression that is evaluated.
#[derive(Debug)]
pub struct Body {
    pub params: Vec<Param>,
    pub value: Expr,
}

/// An expression.
#[derive(Debug)]
pub struct Expr {
    pub hir_id: HirId,
    pub kind: ExprKind,
}

#[derive(Debug)]
pub enum ExprKind {
    /// An expression whose temporaries are dropped early. It has no
    /// counterpart of its own in the syntax tree.
    DropTemps(Box<Expr>),
    Array(Vec<Expr>),
    ConstBlock,
    /// The callee and the arguments.
    Call(Box<Expr>, Vec<Expr>),
    /// The receiver and the arguments.
    MethodCall(Box<Expr>, Vec<Expr>),
    Tup(Vec<Expr>),
    Binary(Box<Expr>, Box<Expr>),
    Unary(Box<Expr>),
    Lit,
    Cast(Box<Expr>),
    Type(Box<Expr>),
    /// The expression that a `let` in a condition matches.
    Let(Box<Expr>),
    /// Condition, the expression of the block, `else` branch.
    If(Box<Expr>, Box<Expr>, Option<Box<Expr>>),
    Loop(Box<Block>, LoopSource),
    /// Scrutinee and arms.
    Match(Box<Expr>, Vec<Arm>, MatchSource),
    Closure(Box<Body>),
    Block(Box<Block>),
    Assign(Box<Expr>, Box<Expr>),
    AssignOp(Box<Expr>, Box<Expr>),
    Field(Box<Expr>),
    /// The indexed expression and the index.
    Index(Box<Expr>, Box<Expr>),
    /// A path; for a path to an item of the language, that item.
    Path(Option<LangItem>),
    AddrOf(Box<Expr>),
    Break(Option<Box<Expr>>),
    Continue,
    Ret(Option<Box<Expr>>),
    InlineAsm,
    /// The item of the language that is built, if it is one, the
    /// expressions of the fields, and the base after `..`.
    Struct(Option<LangItem>, Vec<Expr>, Option<Box<Expr>>),
    Repeat(Box<Expr>),
    Yield(Box<Expr>),
    Error,
    /// Any other kind of expression. None has a counterpart in the other
    /// tree.
    Other,
}

/// A function: what it is, and its body.
#[derive(Debug)]
pub struct FnItem {
    pub kind: FnKind,
    pub body: Body,
}

/// What a function is: a function of its own, a method, or a closure.
#[derive(Clone, Copy, Debug, PartialEq, Eq, Structural)]
pub enum FnKind {
    ItemFn,
    Method,
    Closure,
}

} // verus!
