//! The walk over a body's syntax tree and its resolved tree, side by side.
//!
//! The resolved tree is made of the syntax tree, but not node for node:
//! parentheses are gone, temporaries are wrapped, and loops, ranges, `?` and
//! `.await` are taken apart into simpler constructs. The walk pairs the
//! nodes of the syntax tree with the nodes that were made of them, and
//! fails where the trees do not fit each other.

use vstd::prelude::*;
use super::ast;
use super::hir;

verus! {

/// A node of the syntax tree and the node of the resolved tree that was
/// made of it, by their identities.
pub type Pair = (u32, (u32, u32));

/// The pairs of a walk that has not failed. A walk fails where the trees do
/// not fit each other.
pub type Pairs = Option<Seq<Pair>>;

/// The pairs of two walks, one after the other.
pub open spec fn both(first: Pairs, second: Pairs) -> Pairs {
    match (first, second) {
        (Some(first), Some(second)) => Some(first + second),
        _ => None,
    }
}

/// No pairs.
pub open spec fn nothing() -> Pairs {
    Some(Seq::empty())
}

/// The pair of two nodes.
pub open spec fn pair(node_id: u32, hir_id: hir::HirId) -> Pairs {
    Some(seq![(node_id, hir_id.spec_key())])
}

/// The pairs of a parameter.
pub open spec fn pairs_param(param_ast: ast::Param, param_hir: hir::Param) -> Pairs {
    pair(param_ast.id, param_hir.hir_id)
}

/// The pairs of the parameters from number `from` on, as far as both lists
/// go.
pub open spec fn pairs_params(
    params_ast: Seq<ast::Param>,
    params_hir: Seq<hir::Param>,
    from: int,
) -> Pairs
    decreases params_ast.len() - from,
{
    if from < 0 || from >= params_ast.len() || from >= params_hir.len() {
        nothing()
    } else {
        both(
            pairs_param(params_ast[from], params_hir[from]),
            pairs_params(params_ast, params_hir, from + 1),
        )
    }
}

/// The pairs of a function: those of its parameters, then those of its
/// body. The walk fails where one tree has a closure and the other has not.
pub open spec fn pairs_fn(kind_ast: ast::FnKind, kind_hir: hir::FnKind, body_hir: hir::Body) -> Pairs {
    match kind_ast {
        ast::FnKind::Fn(params_ast, body_ast) => if kind_hir == hir::FnKind::Closure {
            None
        } else {
            both(
                pairs_params(params_ast@, body_hir.params@, 0),
                match body_ast {
                    Some(body_ast) => pairs_block_expr(*body_ast, body_hir.value),
                    None => nothing(),
                },
            )
        },
        ast::FnKind::Closure(params_ast, expr_ast) => if kind_hir == hir::FnKind::Closure {
            both(
                pairs_params(params_ast@, body_hir.params@, 0),
                pairs_matching_expr(*expr_ast, body_hir.value),
            )
        } else {
            None
        },
    }
}

/// The pairs of a block of the syntax tree and the expression that stands
/// for it in the resolved tree: those of the blocks, where that expression
/// is a block.
pub open spec fn pairs_block_expr(block_ast: ast::Block, expr_hir: hir::Expr) -> Pairs
    decreases block_ast, expr_hir, 2nat,
{
    match expr_hir.kind {
        hir::ExprKind::Block(block_hir) => pairs_block(block_ast, *block_hir),
        _ => nothing(),
    }
}

/// The pairs of two blocks: the blocks themselves, then what they hold.
pub open spec fn pairs_block(block_ast: ast::Block, block_hir: hir::Block) -> Pairs
    decreases block_ast, block_hir, 1nat,
{
    both(pair(block_ast.id, block_hir.hir_id), pairs_in_block(block_ast, block_hir))
}

/// A statement of the syntax tree that has a counterpart among the
/// statements of a block of the resolved tree: lone semicolons and macro
/// calls are gone there, and items are not compared.
pub open spec fn is_kept_ast(stmt: ast::Stmt) -> bool {
    !(stmt.kind is Empty || stmt.kind is MacCall || stmt.kind is Item)
}

/// A statement of the resolved tree that is compared: items are not.
pub open spec fn is_kept_hir(stmt: hir::Stmt) -> bool {
    !(stmt.kind is Item)
}

/// The pairs of what two blocks hold: the statements that are compared are
/// paired in order, as far as both lists go; and where the block of the
/// resolved tree ends in an expression, that expression goes with the last
/// of the compared statements of the syntax tree.
pub open spec fn pairs_in_block(block_ast: ast::Block, block_hir: hir::Block) -> Pairs
    decreases block_ast, block_hir, 0nat,
{
    both(
        pairs_stmts(block_ast.stmts@, block_hir.stmts@, 0, 0),
        match block_hir.expr {
            Some(expr_hir) => pairs_tail(block_ast.stmts@, *expr_hir, block_ast.stmts@.len()),
            None => nothing(),
        },
    )
}

/// The pairs of the expression at the end of a block of the resolved tree
/// and the last of the first `upto` statements of the syntax tree that is
/// compared, if there is one. The walk fails where that statement is not an
/// expression without semicolon.
pub open spec fn pairs_tail(stmts_ast: Seq<ast::Stmt>, expr_hir: hir::Expr, upto: nat) -> Pairs
    decreases stmts_ast, expr_hir, upto,
{
    if upto == 0 || upto > stmts_ast.len() {
        nothing()
    } else if is_kept_ast(stmts_ast[upto - 1]) {
        match stmts_ast[upto - 1].kind {
            ast::StmtKind::Expr(expr_ast) => pairs_matching_expr(*expr_ast, expr_hir),
            _ => None,
        }
    } else {
        pairs_tail(stmts_ast, expr_hir, (upto - 1) as nat)
    }
}

/// The pairs of the statements from the positions `i` and `j` on.
pub open spec fn pairs_stmts(
    stmts_ast: Seq<ast::Stmt>,
    stmts_hir: Seq<hir::Stmt>,
    i: int,
    j: int,
) -> Pairs
    decreases stmts_ast, stmts_hir, stmts_ast.len() - i + stmts_hir.len() - j,
{
    if i < 0 || j < 0 || i >= stmts_ast.len() || j >= stmts_hir.len() {
        nothing()
    } else if !is_kept_ast(stmts_ast[i]) {
        pairs_stmts(stmts_ast, stmts_hir, i + 1, j)
    } else if !is_kept_hir(stmts_hir[j]) {
        pairs_stmts(stmts_ast, stmts_hir, i, j + 1)
    } else {
        both(
            pairs_stmt(stmts_ast[i], stmts_hir[j]),
            pairs_stmts(stmts_ast, stmts_hir, i + 1, j + 1),
        )
    }
}

/// The pairs of two statements: the statements themselves, then what they
/// hold.
pub open spec fn pairs_stmt(stmt_ast: ast::Stmt, stmt_hir: hir::Stmt) -> Pairs
    decreases stmt_ast, stmt_hir, 1nat,
{
    both(pair(stmt_ast.id, stmt_hir.hir_id), pairs_in_stmt(stmt_ast, stmt_hir))
}

/// The pairs of what two statements hold. The walk fails where the
/// statements are of different kinds, or where only one of two `let`s has
/// an initializer.
pub open spec fn pairs_in_stmt(stmt_ast: ast::Stmt, stmt_hir: hir::Stmt) -> Pairs
    decreases stmt_ast, stmt_hir, 0nat,
{
    match (stmt_ast.kind, stmt_hir.kind) {
        (ast::StmtKind::Expr(expr_ast), hir::StmtKind::Expr(expr_hir)) => pairs_matching_expr(
            *expr_ast,
            *expr_hir,
        ),
        (ast::StmtKind::Semi(expr_ast), hir::StmtKind::Semi(expr_hir)) => pairs_matching_expr(
            *expr_ast,
            *expr_hir,
        ),
        (ast::StmtKind::Local(local_ast), hir::StmtKind::Local(init_hir)) => match (
            local_ast,
            init_hir,
        ) {
            (ast::LocalKind::Init(expr_ast), Some(expr_hir)) => pairs_matching_expr(
                *expr_ast,
                *expr_hir,
            ),
            (ast::LocalKind::InitElse(expr_ast, _), Some(expr_hir)) => pairs_matching_expr(
                *expr_ast,
                *expr_hir,
            ),
            (ast::LocalKind::Decl, None) => nothing(),
            _ => None,
        },
        (ast::StmtKind::Item, hir::StmtKind::Item) => nothing(),
        (ast::StmtKind::Empty, _) => nothing(),
        (ast::StmtKind::MacCall, _) => nothing(),
        _ => None,
    }
}

/// The pairs of two expressions that stand for each other. Wrappers that
/// only one tree has are passed through first: the wrapper around
/// temporaries in the resolved tree, and parentheses in the syntax tree.
pub open spec fn pairs_matching_expr(expr_ast: ast::Expr, expr_hir: hir::Expr) -> Pairs
    decreases expr_ast, expr_hir, 2nat,
{
    match expr_hir.kind {
        hir::ExprKind::DropTemps(inner_hir) => pairs_matching_expr(expr_ast, *inner_hir),
        _ => match expr_ast.kind {
            ast::ExprKind::Paren(inner_ast) => pairs_matching_expr(*inner_ast, expr_hir),
            _ => pairs_expr(expr_ast, expr_hir),
        },
    }
}

/// The pairs of two expressions: the expressions themselves, then what they
/// hold.
pub open spec fn pairs_expr(expr_ast: ast::Expr, expr_hir: hir::Expr) -> Pairs
    decreases expr_ast, expr_hir, 1nat,
{
    both(pair(expr_ast.id, expr_hir.hir_id), pairs_in_expr(expr_ast, expr_hir))
}

/// The pairs of the expressions from number `from` on, as far as both
/// lists go.
pub open spec fn pairs_exprs(exprs_ast: Seq<ast::Expr>, exprs_hir: Seq<hir::Expr>, from: int) -> Pairs
    decreases exprs_ast, exprs_hir, exprs_ast.len() - from,
{
    if from < 0 || from >= exprs_ast.len() || from >= exprs_hir.len() {
        nothing()
    } else {
        both(
            pairs_matching_expr(exprs_ast[from], exprs_hir[from]),
            pairs_exprs(exprs_ast, exprs_hir, from + 1),
        )
    }
}

/// The pairs of the bodies of the arms from number `from` on, as far as
/// both lists go.
pub open spec fn pairs_arms(arms_ast: Seq<ast::Arm>, arms_hir: Seq<hir::Arm>, from: int) -> Pairs
    decreases arms_ast, arms_hir, arms_ast.len() - from,
{
    if from < 0 || from >= arms_ast.len() || from >= arms_hir.len() {
        nothing()
    } else {
        both(
            pairs_matching_expr(arms_ast[from].body, arms_hir[from].body),
            pairs_arms(arms_ast, arms_hir, from + 1),
        )
    }
}

/// The pairs of two expressions that may both be missing.
pub open spec fn pairs_optional(expr_ast: Option<Box<ast::Expr>>, expr_hir: Option<Box<hir::Expr>>) -> Pairs
    decreases expr_ast, expr_hir, 3nat,
{
    match (expr_ast, expr_hir) {
        (Some(expr_ast), Some(expr_hir)) => pairs_matching_expr(*expr_ast, *expr_hir),
        _ => nothing(),
    }
}

/// The item of the language that a range is built as in the resolved tree,
/// for the ranges that are built as structs.
pub open spec fn range_lang_item(has_start: bool, has_end: bool, limits: ast::RangeLimits) -> Option<
    hir::LangItem,
> {
    match (has_start, has_end, limits) {
        (false, false, ast::RangeLimits::HalfOpen) => Some(hir::LangItem::RangeFull),
        (true, false, ast::RangeLimits::HalfOpen) => Some(hir::LangItem::RangeFrom),
        (false, true, ast::RangeLimits::HalfOpen) => Some(hir::LangItem::RangeTo),
        (true, true, ast::RangeLimits::HalfOpen) => Some(hir::LangItem::Range),
        (false, true, ast::RangeLimits::Closed) => Some(hir::LangItem::RangeToInclusive),
        _ => None,
    }
}

/// The pairs of what two expressions hold. The walk fails where the kinds
/// of the expressions do not go together.
pub open spec fn pairs_in_expr(expr_ast: ast::Expr, expr_hir: hir::Expr) -> Pairs
    decreases expr_ast, expr_hir, 0nat,
{
    match expr_hir.kind {
        hir::ExprKind::DropTemps(inner_hir) => pairs_matching_expr(expr_ast, *inner_hir),
        _ => match expr_ast.kind {
            ast::ExprKind::Paren(inner_ast) => pairs_matching_expr(*inner_ast, expr_hir),
            // What is not walked, whatever it was turned into.
            ast::ExprKind::Async => nothing(),
            ast::ExprKind::TryBlock => nothing(),
            ast::ExprKind::Underscore => nothing(),
            ast::ExprKind::MacCall => nothing(),
            ast::ExprKind::Error => nothing(),
            ast::ExprKind::Other => match expr_hir.kind {
                hir::ExprKind::Error => nothing(),
                _ => None,
            },
            ast::ExprKind::Array(exprs_ast) => match expr_hir.kind {
                hir::ExprKind::Array(exprs_hir) => pairs_exprs(exprs_ast@, exprs_hir@, 0),
                hir::ExprKind::Error => nothing(),
                _ => None,
            },
            ast::ExprKind::ConstBlock => match expr_hir.kind {
                hir::ExprKind::ConstBlock => nothing(),
                hir::ExprKind::Error => nothing(),
                _ => None,
            },
            ast::ExprKind::Call(callee_ast, args_ast) => match expr_hir.kind {
                hir::ExprKind::Call(callee_hir, args_hir) => both(
                    pairs_matching_expr(*callee_ast, *callee_hir),
                    pairs_exprs(args_ast@, args_hir@, 0),
                ),
                hir::ExprKind::Error => nothing(),
                _ => None,
            },
            ast::ExprKind::MethodCall(receiver_ast, args_ast) => match expr_hir.kind {
                hir::ExprKind::MethodCall(receiver_hir, args_hir) => both(
                    pairs_matching_expr(*receiver_ast, *receiver_hir),
                    pairs_exprs(args_ast@, args_hir@, 0),
                ),
                hir::ExprKind::Error => nothing(),
                _ => None,
            },
            ast::ExprKind::Tup(exprs_ast) => match expr_hir.kind {
                hir::ExprKind::Tup(exprs_hir) => pairs_exprs(exprs_ast@, exprs_hir@, 0),
                hir::ExprKind::Error => nothing(),
                _ => None,
            },
            ast::ExprKind::Binary(left_ast, right_ast) => match expr_hir.kind {
                hir::ExprKind::Binary(left_hir, right_hir) => both(
                    pairs_matching_expr(*left_ast, *left_hir),
                    pairs_matching_expr(*right_ast, *right_hir),
                ),
                hir::ExprKind::Error => nothing(),
                _ => None,
            },
            ast::ExprKind::Unary(inner_ast) => match expr_hir.kind {
                hir::ExprKind::Unary(inner_hir) => pairs_matching_expr(*inner_ast, *inner_hir),
                hir::ExprKind::Error => nothing(),
                _ => None,
            },
            ast::ExprKind::Lit => match expr_hir.kind {
                hir::ExprKind::Lit => nothing(),
                hir::ExprKind::Error => nothing(),
                _ => None,
            },
            ast::ExprKind::Cast(inner_ast) => match expr_hir.kind {
                hir::ExprKind::Cast(inner_hir) => pairs_matching_expr(*inner_ast, *inner_hir),
                hir::ExprKind::Error => nothing(),
                _ => None,
            },
            ast::ExprKind::Type(inner_ast) => match expr_hir.kind {
                hir::ExprKind::Type(inner_hir) => pairs_matching_expr(*inner_ast, *inner_hir),
                hir::ExprKind::Error => nothing(),
                _ => None,
            },
            ast::ExprKind::Let(init_ast) => match expr_hir.kind {
                hir::ExprKind::Let(init_hir) => pairs_matching_expr(*init_ast, *init_hir),
                hir::ExprKind::Error => nothing(),
                _ => None,
            },
            ast::ExprKind::If(cond_ast, then_ast, els_ast) => match expr_hir.kind {
                hir::ExprKind::If(cond_hir, then_hir, els_hir) => both(
                    both(
                        pairs_matching_expr(*cond_ast, *cond_hir),
                        pairs_block_expr(*then_ast, *then_hir),
                    ),
                    pairs_optional(els_ast, els_hir),
                ),
                hir::ExprKind::Error => nothing(),
                _ => None,
            },
            // A `while` is a loop around an `if` in the resolved tree.
            ast::ExprKind::While(cond_ast, body_ast) => match expr_hir.kind {
                hir::ExprKind::Loop(loop_hir, hir::LoopSource::While) => match loop_hir.expr {
                    Some(inner_hir) => match inner_hir.kind {
                        hir::ExprKind::If(cond_hir, then_hir, _) => both(
                            pairs_matching_expr(*cond_ast, *cond_hir),
                            pairs_block_expr(*body_ast, *then_hir),
                        ),
                        _ => nothing(),
                    },
                    None => nothing(),
                },
                hir::ExprKind::Error => nothing(),
                _ => None,
            },
            // A `for` is a `match` on the iterator around a loop around a
            // `match` on the next item in the resolved tree.
            ast::ExprKind::ForLoop(iter_ast, body_ast) => match expr_hir.kind {
                hir::ExprKind::Match(
                    head_hir,
                    arms_hir,
                    hir::MatchSource::ForLoopDesugar,
                ) => if arms_hir@.len() == 1 {
                    pairs_for_loop(expr_ast, *head_hir, arms_hir@[0].body)
                } else {
                    None
                },
                hir::ExprKind::Error => nothing(),
                _ => None,
            },
            ast::ExprKind::Loop(body_ast) => match expr_hir.kind {
                hir::ExprKind::Loop(body_hir, hir::LoopSource::Loop) => pairs_block(
                    *body_ast,
                    *body_hir,
                ),
                hir::ExprKind::Error => nothing(),
                _ => None,
            },
            ast::ExprKind::Match(scrutinee_ast, arms_ast) => match expr_hir.kind {
                hir::ExprKind::Match(scrutinee_hir, arms_hir, hir::MatchSource::Normal) => both(
                    pairs_matching_expr(*scrutinee_ast, *scrutinee_hir),
                    pairs_arms(arms_ast@, arms_hir@, 0),
                ),
                hir::ExprKind::Error => nothing(),
                _ => None,
            },
            ast::ExprKind::Closure(params_ast, body_ast) => match expr_hir.kind {
                hir::ExprKind::Closure(body_hir) => both(
                    pairs_params(params_ast@, body_hir.params@, 0),
                    pairs_matching_expr(*body_ast, body_hir.value),
                ),
                hir::ExprKind::Error => nothing(),
                _ => None,
            },
            ast::ExprKind::Block(block_ast) => match expr_hir.kind {
                hir::ExprKind::Block(block_hir) => pairs_block(*block_ast, *block_hir),
                hir::ExprKind::Error => nothing(),
                _ => None,
            },
            // An `.await` is a `match` on the awaited expression in the
            // resolved tree.
            ast::ExprKind::Await(inner_ast) => match expr_hir.kind {
                hir::ExprKind::Match(inner_hir, _, hir::MatchSource::AwaitDesugar) => pairs_matching_expr(
                    *inner_ast,
                    *inner_hir,
                ),
                hir::ExprKind::Error => nothing(),
                _ => None,
            },
            ast::ExprKind::Assign(left_ast, right_ast) => match expr_hir.kind {
                hir::ExprKind::Assign(left_hir, right_hir) => both(
                    pairs_matching_expr(*left_ast, *left_hir),
                    pairs_matching_expr(*right_ast, *right_hir),
                ),
                hir::ExprKind::Error => nothing(),
                _ => None,
            },
            ast::ExprKind::AssignOp(left_ast, right_ast) => match expr_hir.kind {
                hir::ExprKind::AssignOp(left_hir, right_hir) => both(
                    pairs_matching_expr(*left_ast, *left_hir),
                    pairs_matching_expr(*right_ast, *right_hir),
                ),
                hir::ExprKind::Error => nothing(),
                _ => None,
            },
            ast::ExprKind::Field(inner_ast) => match expr_hir.kind {
                hir::ExprKind::Field(inner_hir) => pairs_matching_expr(*inner_ast, *inner_hir),
                hir::ExprKind::Error => nothing(),
                _ => None,
            },
            ast::ExprKind::Index(inner_ast, index_ast) => match expr_hir.kind {
                hir::ExprKind::Index(inner_hir, index_hir) => both(
                    pairs_matching_expr(*inner_ast, *inner_hir),
                    pairs_matching_expr(*index_ast, *index_hir),
                ),
                hir::ExprKind::Error => nothing(),
                _ => None,
            },
            // A range is a call of a function or a struct of the language in
            // the resolved tree.
            ast::ExprKind::Range(start_ast, end_ast, limits) => match expr_hir.kind {
                hir::ExprKind::Call(
                    path_hir,
                    args_hir,
                ) => if start_ast is Some && end_ast is Some && limits == ast::RangeLimits::Closed
                    && args_hir@.len() == 2 {
                    if path_hir.kind == hir::ExprKind::Path(
                        Some(hir::LangItem::RangeInclusiveNew),
                    ) {
                        both(
                            pairs_matching_expr(*start_ast->0, args_hir@[0]),
                            pairs_matching_expr(*end_ast->0, args_hir@[1]),
                        )
                    } else {
                        nothing()
                    }
                } else {
                    None
                },
                hir::ExprKind::Struct(lang_item, fields_hir, _) => match range_lang_item(
                    start_ast is Some,
                    end_ast is Some,
                    limits,
                ) {
                    Some(expected) => if lang_item == Some(expected) {
                        pairs_range(expr_ast, fields_hir@)
                    } else {
                        nothing()
                    },
                    None => None,
                },
                hir::ExprKind::Error => nothing(),
                _ => None,
            },
            ast::ExprKind::Path => match expr_hir.kind {
                hir::ExprKind::Path(_) => nothing(),
                hir::ExprKind::Error => nothing(),
                _ => None,
            },
            ast::ExprKind::AddrOf(inner_ast) => match expr_hir.kind {
                hir::ExprKind::AddrOf(inner_hir) => pairs_matching_expr(*inner_ast, *inner_hir),
                hir::ExprKind::Error => nothing(),
                _ => None,
            },
            ast::ExprKind::Break(value_ast) => match expr_hir.kind {
                hir::ExprKind::Break(value_hir) => pairs_optional(value_ast, value_hir),
                hir::ExprKind::Error => nothing(),
                _ => None,
            },
            ast::ExprKind::Continue => match expr_hir.kind {
                hir::ExprKind::Continue => nothing(),
                hir::ExprKind::Error => nothing(),
                _ => None,
            },
            ast::ExprKind::Ret(value_ast) => match expr_hir.kind {
                hir::ExprKind::Ret(value_hir) => pairs_optional(value_ast, value_hir),
                hir::ExprKind::Error => nothing(),
                _ => None,
            },
            ast::ExprKind::InlineAsm => match expr_hir.kind {
                hir::ExprKind::InlineAsm => nothing(),
                hir::ExprKind::Error => nothing(),
                _ => None,
            },
            ast::ExprKind::Struct(fields_ast, base_ast) => match expr_hir.kind {
                hir::ExprKind::Struct(_, fields_hir, base_hir) => both(
                    pairs_exprs(fields_ast@, fields_hir@, 0),
                    pairs_optional(base_ast, base_hir),
                ),
                hir::ExprKind::Error => nothing(),
                _ => None,
            },
            ast::ExprKind::Repeat(inner_ast) => match expr_hir.kind {
                hir::ExprKind::Repeat(inner_hir) => pairs_matching_expr(*inner_ast, *inner_hir),
                hir::ExprKind::Error => nothing(),
                _ => None,
            },
            // A `?` is a `match` on a call of the branching function of the
            // language in the resolved tree.
            ast::ExprKind::Try(inner_ast) => match expr_hir.kind {
                hir::ExprKind::Match(
                    head_hir,
                    _,
                    hir::MatchSource::TryDesugar,
                ) => match head_hir.kind {
                    hir::ExprKind::Call(path_hir, args_hir) => if args_hir@.len() == 1
                        && path_hir.kind == hir::ExprKind::Path(
                        Some(hir::LangItem::TryTraitBranch),
                    ) {
                        pairs_matching_expr(*inner_ast, args_hir@[0])
                    } else {
                        nothing()
                    },
                    _ => nothing(),
                },
                hir::ExprKind::Error => nothing(),
                _ => None,
            },
            ast::ExprKind::Yield(value_ast) => match expr_hir.kind {
                hir::ExprKind::Yield(value_hir) => match value_ast {
                    Some(value_ast) => pairs_matching_expr(*value_ast, *value_hir),
                    None => nothing(),
                },
                hir::ExprKind::Error => nothing(),
                _ => None,
            },
        },
    }
}

/// The pairs of the bounds of a range that is built as a struct: the
/// bounds that there are go with the fields of the struct in order.
pub open spec fn pairs_range(range_ast: ast::Expr, fields_hir: Seq<hir::Expr>) -> Pairs
    decreases range_ast, fields_hir, 0nat,
{
    match range_ast.kind {
        ast::ExprKind::Range(Some(start_ast), Some(end_ast), _) => both(
            if fields_hir.len() >= 1 {
                pairs_matching_expr(*start_ast, fields_hir[0])
            } else {
                nothing()
            },
            if fields_hir.len() >= 2 {
                pairs_matching_expr(*end_ast, fields_hir[1])
            } else {
                nothing()
            },
        ),
        ast::ExprKind::Range(Some(bound_ast), None, _) => if fields_hir.len() >= 1 {
            pairs_matching_expr(*bound_ast, fields_hir[0])
        } else {
            nothing()
        },
        ast::ExprKind::Range(None, Some(bound_ast), _) => if fields_hir.len() >= 1 {
            pairs_matching_expr(*bound_ast, fields_hir[0])
        } else {
            nothing()
        },
        _ => nothing(),
    }
}

/// The pairs of a `for` loop: the expression that is iterated over goes
/// with the argument of the call in the head of the outer `match`, and the
/// body with the body of the arm for the next item.
pub open spec fn pairs_for_loop(
    loop_ast: ast::Expr,
    head_hir: hir::Expr,
    arm_body_hir: hir::Expr,
) -> Pairs
    decreases loop_ast, head_hir, 0nat,
{
    match (loop_ast.kind, next_item_arm(arm_body_hir)) {
        (ast::ExprKind::ForLoop(iter_ast, body_ast), Some(arm_hir)) => both(
            match head_hir.kind {
                hir::ExprKind::Call(_, args_hir) => if args_hir@.len() == 1 {
                    pairs_matching_expr(*iter_ast, args_hir@[0])
                } else {
                    nothing()
                },
                _ => nothing(),
            },
            pairs_block_expr(*body_ast, arm_hir.body),
        ),
        _ => nothing(),
    }
}

/// The arm for the next item in what a `for` loop was turned into: the
/// second of the two arms of the `match` that is the only statement of the
/// loop.
pub open spec fn next_item_arm(arm_body_hir: hir::Expr) -> Option<hir::Arm> {
    match arm_body_hir.kind {
        hir::ExprKind::Loop(loop_hir, hir::LoopSource::ForLoop) => if loop_hir.stmts@.len() == 1 {
            match loop_hir.stmts@[0].kind {
                hir::StmtKind::Expr(inner_hir) => match inner_hir.kind {
                    hir::ExprKind::Match(
                        _,
                        inner_arms_hir,
                        hir::MatchSource::ForLoopDesugar,
                    ) => if inner_arms_hir@.len() == 2 {
                        Some(inner_arms_hir@[1])
                    } else {
                        None
                    },
                    _ => None,
                },
                _ => None,
            }
        } else {
            None
        },
        _ => None,
    }
}

/// Whether a statement of the syntax tree has a counterpart among the
/// statements of a block of the resolved tree.
pub fn kept_ast(stmt: &ast::Stmt) -> (kept: bool)
    ensures
        kept == is_kept_ast(*stmt),
{
    match &stmt.kind {
        ast::StmtKind::Empty => false,
        ast::StmtKind::MacCall => false,
        ast::StmtKind::Item => false,
        _ => true,
    }
}

/// Whether a statement of the resolved tree is compared.
pub fn kept_hir(stmt: &hir::Stmt) -> (kept: bool)
    ensures
        kept == is_kept_hir(*stmt),
{
    match &stmt.kind {
        hir::StmtKind::Item => false,
        _ => true,
    }
}

/// Whether an expression of the resolved tree is a path to the given item
/// of the language.
pub fn is_lang_path(expr_hir: &hir::Expr, item: hir::LangItem) -> (found: bool)
    ensures
        found == (expr_hir.kind == hir::ExprKind::Path(Some(item))),
{
    match &expr_hir.kind {
        hir::ExprKind::Path(Some(lang_item)) => *lang_item == item,
        _ => false,
    }
}

/// The item of the language that a range is built as, for the ranges that
/// are built as structs.
pub fn expected_range_lang_item(has_start: bool, has_end: bool, limits: ast::RangeLimits) -> (item:
    Option<hir::LangItem>)
    ensures
        item == range_lang_item(has_start, has_end, limits),
{
    match (has_start, has_end, limits) {
        (false, false, ast::RangeLimits::HalfOpen) => Some(hir::LangItem::RangeFull),
        (true, false, ast::RangeLimits::HalfOpen) => Some(hir::LangItem::RangeFrom),
        (false, true, ast::RangeLimits::HalfOpen) => Some(hir::LangItem::RangeTo),
        (true, true, ast::RangeLimits::HalfOpen) => Some(hir::LangItem::Range),
        (false, true, ast::RangeLimits::Closed) => Some(hir::LangItem::RangeToInclusive),
        _ => None,
    }
}

/// The parameters are always paired.
pub proof fn lemma_params_paired(params_ast: Seq<ast::Param>, params_hir: Seq<hir::Param>, from: int)
    ensures
        pairs_params(params_ast, params_hir, from) is Some,
    decreases params_ast.len() - from,
{
    if !(from < 0 || from >= params_ast.len() || from >= params_hir.len()) {
        lemma_params_paired(params_ast, params_hir, from + 1);
    }
}

// Whether two trees fit each other. The walks below take only trees that
// do.

/// Whether a function and the function that was made of it fit each
/// other.
pub fn fits_fn(kind_ast: ast::FnKind, kind_hir: hir::FnKind, body_hir: &hir::Body) -> (ok: bool)
    ensures
        ok == (pairs_fn(kind_ast, kind_hir, *body_hir) is Some),
{
    proof {
        lemma_params_paired(
            match kind_ast {
                ast::FnKind::Fn(params_ast, _) => params_ast@,
                ast::FnKind::Closure(params_ast, _) => params_ast@,
            },
            body_hir.params@,
            0,
        );
    }
    match (kind_ast, kind_hir) {
        (ast::FnKind::Fn(_, body_ast), hir::FnKind::ItemFn) => match body_ast {
            Some(body_ast) => fits_block_expr(body_ast, &body_hir.value),
            None => true,
        },
        (ast::FnKind::Fn(_, body_ast), hir::FnKind::Method) => match body_ast {
            Some(body_ast) => fits_block_expr(body_ast, &body_hir.value),
            None => true,
        },
        (ast::FnKind::Closure(_, expr_ast), hir::FnKind::Closure) => fits_matching_expr(
            expr_ast,
            &body_hir.value,
        ),
        _ => false,
    }
}

/// Whether a block of the syntax tree and the expression that stands for
/// it in the resolved tree fit each other.
pub fn fits_block_expr(block_ast: &ast::Block, expr_hir: &hir::Expr) -> (ok: bool)
    ensures
        ok == (pairs_block_expr(*block_ast, *expr_hir) is Some),
    decreases block_ast, expr_hir, 2nat,
{
    match &expr_hir.kind {
        hir::ExprKind::Block(block_hir) => fits_block(block_ast, block_hir),
        _ => true,
    }
}

/// Whether two blocks fit each other.
pub fn fits_block(block_ast: &ast::Block, block_hir: &hir::Block) -> (ok: bool)
    ensures
        ok == (pairs_block(*block_ast, *block_hir) is Some),
        ok == (pairs_in_block(*block_ast, *block_hir) is Some),
    decreases block_ast, block_hir, 0nat,
{
    if !fits_stmts(&block_ast.stmts, &block_hir.stmts) {
        return false;
    }
    match &block_hir.expr {
        Some(expr_hir) => fits_tail(&block_ast.stmts, expr_hir),
        None => true,
    }
}

/// Whether the statements of two blocks that are compared fit each other
/// in pairs.
fn fits_stmts(stmts_ast: &Vec<ast::Stmt>, stmts_hir: &Vec<hir::Stmt>) -> (ok: bool)
    ensures
        ok == (pairs_stmts(stmts_ast@, stmts_hir@, 0, 0) is Some),
    decreases stmts_ast, stmts_hir, 0nat,
{
    let ghost whole = pairs_stmts(stmts_ast@, stmts_hir@, 0, 0);
    let mut i: usize = 0;
    let mut j: usize = 0;
    while i < stmts_ast.len() && j < stmts_hir.len()
        invariant
            i <= stmts_ast.len(),
            j <= stmts_hir.len(),
            whole == pairs_stmts(stmts_ast@, stmts_hir@, 0, 0),
            (whole is Some) == (pairs_stmts(stmts_ast@, stmts_hir@, i as int, j as int) is Some),
        decreases stmts_ast.len() - i + stmts_hir.len() - j,
    {
        if !kept_ast(&stmts_ast[i]) {
            i += 1;
        } else if !kept_hir(&stmts_hir[j]) {
            j += 1;
        } else {
            if !fits_stmt(&stmts_ast[i], &stmts_hir[j]) {
                return false;
            }
            i += 1;
            j += 1;
        }
    }
    true
}

/// Whether the expression at the end of a block of the resolved tree and
/// the last compared statement of the syntax tree fit each other.
fn fits_tail(stmts_ast: &Vec<ast::Stmt>, expr_hir: &hir::Expr) -> (ok: bool)
    ensures
        ok == (pairs_tail(stmts_ast@, *expr_hir, stmts_ast@.len()) is Some),
    decreases stmts_ast, expr_hir, 0nat,
{
    let mut upto: usize = stmts_ast.len();
    while upto > 0
        invariant
            upto <= stmts_ast.len(),
            pairs_tail(stmts_ast@, *expr_hir, stmts_ast@.len()) == pairs_tail(
                stmts_ast@,
                *expr_hir,
                upto as nat,
            ),
        decreases upto,
    {
        let stmt_ast = &stmts_ast[upto - 1];
        if kept_ast(stmt_ast) {
            return match &stmt_ast.kind {
                ast::StmtKind::Expr(expr_ast) => fits_matching_expr(expr_ast, expr_hir),
                _ => false,
            };
        }
        upto -= 1;
    }
    true
}

/// Whether two statements fit each other: they are of the same kind, both
/// `let`s have an initializer or neither has, and what they hold fits.
pub fn fits_stmt(stmt_ast: &ast::Stmt, stmt_hir: &hir::Stmt) -> (ok: bool)
    ensures
        ok == (pairs_stmt(*stmt_ast, *stmt_hir) is Some),
        ok == (pairs_in_stmt(*stmt_ast, *stmt_hir) is Some),
    decreases stmt_ast, stmt_hir, 0nat,
{
    match &stmt_ast.kind {
        ast::StmtKind::Expr(expr_ast) => match &stmt_hir.kind {
            hir::StmtKind::Expr(expr_hir) => fits_matching_expr(expr_ast, expr_hir),
            _ => false,
        },
        ast::StmtKind::Semi(expr_ast) => match &stmt_hir.kind {
            hir::StmtKind::Semi(expr_hir) => fits_matching_expr(expr_ast, expr_hir),
            _ => false,
        },
        ast::StmtKind::Local(local_ast) => match &stmt_hir.kind {
            hir::StmtKind::Local(init_hir) => match local_ast {
                ast::LocalKind::Init(expr_ast) => match init_hir {
                    Some(expr_hir) => fits_matching_expr(expr_ast, expr_hir),
                    None => false,
                },
                ast::LocalKind::InitElse(expr_ast, _) => match init_hir {
                    Some(expr_hir) => fits_matching_expr(expr_ast, expr_hir),
                    None => false,
                },
                ast::LocalKind::Decl => init_hir.is_none(),
            },
            _ => false,
        },
        ast::StmtKind::Item => match &stmt_hir.kind {
            hir::StmtKind::Item => true,
            _ => false,
        },
        ast::StmtKind::Empty => true,
        ast::StmtKind::MacCall => true,
    }
}

/// Whether two expressions that stand for each other fit, once the
/// wrappers that only one tree has are passed.
pub fn fits_matching_expr(expr_ast: &ast::Expr, expr_hir: &hir::Expr) -> (ok: bool)
    ensures
        ok == (pairs_matching_expr(*expr_ast, *expr_hir) is Some),
    decreases expr_ast, expr_hir, 2nat,
{
    match &expr_hir.kind {
        hir::ExprKind::DropTemps(inner_hir) => fits_matching_expr(expr_ast, inner_hir),
        _ => match &expr_ast.kind {
            ast::ExprKind::Paren(inner_ast) => fits_matching_expr(inner_ast, expr_hir),
            _ => fits_expr(expr_ast, expr_hir),
        },
    }
}

/// Whether the expressions of two lists fit each other in pairs, as far as both
/// lists go.
pub fn fits_exprs(items_ast: &Vec<ast::Expr>, items_hir: &Vec<hir::Expr>) -> (ok: bool)
    ensures
        ok == (pairs_exprs(items_ast@, items_hir@, 0) is Some),
    decreases items_ast, items_hir, 0nat,
{
    let ghost whole = pairs_exprs(items_ast@, items_hir@, 0);
    let mut i: usize = 0;
    while i < items_ast.len() && i < items_hir.len()
        invariant
            i <= items_ast.len(),
            i <= items_hir.len(),
            whole == pairs_exprs(items_ast@, items_hir@, 0),
            (whole is Some) == (pairs_exprs(items_ast@, items_hir@, i as int) is Some),
        decreases items_ast.len() - i,
    {
        if !fits_matching_expr(&items_ast[i], &items_hir[i]) {
            return false;
        }
        i += 1;
    }
    true
}

/// Whether the bodies of the arms of two lists fit each other in pairs, as far as both
/// lists go.
pub fn fits_arms(items_ast: &Vec<ast::Arm>, items_hir: &Vec<hir::Arm>) -> (ok: bool)
    ensures
        ok == (pairs_arms(items_ast@, items_hir@, 0) is Some),
    decreases items_ast, items_hir, 0nat,
{
    let ghost whole = pairs_arms(items_ast@, items_hir@, 0);
    let mut i: usize = 0;
    while i < items_ast.len() && i < items_hir.len()
        invariant
            i <= items_ast.len(),
            i <= items_hir.len(),
            whole == pairs_arms(items_ast@, items_hir@, 0),
            (whole is Some) == (pairs_arms(items_ast@, items_hir@, i as int) is Some),
        decreases items_ast.len() - i,
    {
        if !fits_matching_expr(&items_ast[i].body, &items_hir[i].body) {
            return false;
        }
        i += 1;
    }
    true
}

/// Whether two expressions that may both be missing fit each other.
pub fn fits_optional(expr_ast: &Option<Box<ast::Expr>>, expr_hir: &Option<Box<hir::Expr>>) -> (ok: bool)
    ensures
        ok == (pairs_optional(*expr_ast, *expr_hir) is Some),
    decreases expr_ast, expr_hir, 3nat,
{
    match expr_ast {
        Some(expr_ast) => match expr_hir {
            Some(expr_hir) => fits_matching_expr(expr_ast, expr_hir),
            None => true,
        },
        None => true,
    }
}

/// Whether two expressions fit each other: their kinds go together, and
/// what they hold fits.
#[verifier::rlimit(100)]
pub fn fits_expr(expr_ast: &ast::Expr, expr_hir: &hir::Expr) -> (ok: bool)
    ensures
        ok == (pairs_expr(*expr_ast, *expr_hir) is Some),
        ok == (pairs_in_expr(*expr_ast, *expr_hir) is Some),
    decreases expr_ast, expr_hir, 1nat,
{
    match &expr_hir.kind {
        hir::ExprKind::DropTemps(inner_hir) => fits_matching_expr(expr_ast, inner_hir),
        _ => match &expr_ast.kind {
            ast::ExprKind::Paren(inner_ast) => fits_matching_expr(inner_ast, expr_hir),
            ast::ExprKind::Async => true,
            ast::ExprKind::TryBlock => true,
            ast::ExprKind::Underscore => true,
            ast::ExprKind::MacCall => true,
            ast::ExprKind::Error => true,
            ast::ExprKind::Other => match &expr_hir.kind {
                hir::ExprKind::Error => true,
                _ => false,
            },
            ast::ExprKind::Array(exprs_ast) => match &expr_hir.kind {
                hir::ExprKind::Array(exprs_hir) => fits_exprs(exprs_ast, exprs_hir),
                hir::ExprKind::Error => true,
                _ => false,
            },
            ast::ExprKind::ConstBlock => match &expr_hir.kind {
                hir::ExprKind::ConstBlock => true,
                hir::ExprKind::Error => true,
                _ => false,
            },
            ast::ExprKind::Call(callee_ast, args_ast) => match &expr_hir.kind {
                hir::ExprKind::Call(callee_hir, args_hir) => {
                    fits_matching_expr(callee_ast, callee_hir)
                        && fits_exprs(args_ast, args_hir)
                },
                hir::ExprKind::Error => true,
                _ => false,
            },
            ast::ExprKind::MethodCall(receiver_ast, args_ast) => match &expr_hir.kind {
                hir::ExprKind::MethodCall(receiver_hir, args_hir) => {
                    fits_matching_expr(receiver_ast, receiver_hir)
                        && fits_exprs(args_ast, args_hir)
                },
                hir::ExprKind::Error => true,
                _ => false,
            },
            ast::ExprKind::Tup(exprs_ast) => match &expr_hir.kind {
                hir::ExprKind::Tup(exprs_hir) => fits_exprs(exprs_ast, exprs_hir),
                hir::ExprKind::Error => true,
                _ => false,
            },
            ast::ExprKind::Binary(left_ast, right_ast) => match &expr_hir.kind {
                hir::ExprKind::Binary(left_hir, right_hir) => {
                    fits_matching_expr(left_ast, left_hir)
                        && fits_matching_expr(right_ast, right_hir)
                },
                hir::ExprKind::Error => true,
                _ => false,
            },
            ast::ExprKind::Unary(inner_ast) => match &expr_hir.kind {
                hir::ExprKind::Unary(inner_hir) => fits_matching_expr(inner_ast, inner_hir),
                hir::ExprKind::Error => true,
                _ => false,
            },
            ast::ExprKind::Lit => match &expr_hir.kind {
                hir::ExprKind::Lit => true,
                hir::ExprKind::Error => true,
                _ => false,
            },
            ast::ExprKind::Cast(inner_ast) => match &expr_hir.kind {
                hir::ExprKind::Cast(inner_hir) => fits_matching_expr(inner_ast, inner_hir),
                hir::ExprKind::Error => true,
                _ => false,
            },
            ast::ExprKind::Type(inner_ast) => match &expr_hir.kind {
                hir::ExprKind::Type(inner_hir) => fits_matching_expr(inner_ast, inner_hir),
                hir::ExprKind::Error => true,
                _ => false,
            },
            ast::ExprKind::Let(init_ast) => match &expr_hir.kind {
                hir::ExprKind::Let(init_hir) => fits_matching_expr(init_ast, init_hir),
                hir::ExprKind::Error => true,
                _ => false,
            },
            ast::ExprKind::If(cond_ast, then_ast, els_ast) => match &expr_hir.kind {
                hir::ExprKind::If(cond_hir, then_hir, els_hir) => {
                    fits_matching_expr(cond_ast, cond_hir)
                        && fits_block_expr(then_ast, then_hir)
                        && fits_optional(els_ast, els_hir)
                },
                hir::ExprKind::Error => true,
                _ => false,
            },
            ast::ExprKind::While(cond_ast, body_ast) => match &expr_hir.kind {
                hir::ExprKind::Loop(loop_hir, hir::LoopSource::While) => match &loop_hir.expr {
                    Some(inner_hir) => match &inner_hir.kind {
                        hir::ExprKind::If(cond_hir, then_hir, _) => fits_matching_expr(
                            cond_ast,
                            cond_hir,
                        ) && fits_block_expr(body_ast, then_hir),
                        _ => true,
                    },
                    None => true,
                },
                hir::ExprKind::Error => true,
                _ => false,
            },
            ast::ExprKind::ForLoop(_, _) => match &expr_hir.kind {
                hir::ExprKind::Match(head_hir, arms_hir, hir::MatchSource::ForLoopDesugar) => {
                    arms_hir.len() == 1 && fits_for_loop(expr_ast, head_hir, &arms_hir[0].body)
                },
                hir::ExprKind::Error => true,
                _ => false,
            },
            ast::ExprKind::Loop(body_ast) => match &expr_hir.kind {
                hir::ExprKind::Loop(body_hir, hir::LoopSource::Loop) => fits_block(body_ast, body_hir),
                hir::ExprKind::Error => true,
                _ => false,
            },
            ast::ExprKind::Match(scrutinee_ast, arms_ast) => match &expr_hir.kind {
                hir::ExprKind::Match(scrutinee_hir, arms_hir, hir::MatchSource::Normal) => {
                    fits_matching_expr(scrutinee_ast, scrutinee_hir)
                        && fits_arms(arms_ast, arms_hir)
                },
                hir::ExprKind::Error => true,
                _ => false,
            },
            ast::ExprKind::Closure(params_ast, body_ast) => match &expr_hir.kind {
                hir::ExprKind::Closure(body_hir) => {
                    proof {
                        lemma_params_paired(params_ast@, body_hir.params@, 0);
                    }
                    fits_matching_expr(body_ast, &body_hir.value)
                },
                hir::ExprKind::Error => true,
                _ => false,
            },
            ast::ExprKind::Block(block_ast) => match &expr_hir.kind {
                hir::ExprKind::Block(block_hir) => fits_block(block_ast, block_hir),
                hir::ExprKind::Error => true,
                _ => false,
            },
            ast::ExprKind::Await(inner_ast) => match &expr_hir.kind {
                hir::ExprKind::Match(inner_hir, _, hir::MatchSource::AwaitDesugar) => fits_matching_expr(inner_ast, inner_hir),
                hir::ExprKind::Error => true,
                _ => false,
            },
            ast::ExprKind::Assign(left_ast, right_ast) => match &expr_hir.kind {
                hir::ExprKind::Assign(left_hir, right_hir) => {
                    fits_matching_expr(left_ast, left_hir)
                        && fits_matching_expr(right_ast, right_hir)
                },
                hir::ExprKind::Error => true,
                _ => false,
            },
            ast::ExprKind::AssignOp(left_ast, right_ast) => match &expr_hir.kind {
                hir::ExprKind::AssignOp(left_hir, right_hir) => {
                    fits_matching_expr(left_ast, left_hir)
                        && fits_matching_expr(right_ast, right_hir)
                },
                hir::ExprKind::Error => true,
                _ => false,
            },
            ast::ExprKind::Field(inner_ast) => match &expr_hir.kind {
                hir::ExprKind::Field(inner_hir) => fits_matching_expr(inner_ast, inner_hir),
                hir::ExprKind::Error => true,
                _ => false,
            },
            ast::ExprKind::Index(inner_ast, index_ast) => match &expr_hir.kind {
                hir::ExprKind::Index(inner_hir, index_hir) => {
                    fits_matching_expr(inner_ast, inner_hir)
                        && fits_matching_expr(index_ast, index_hir)
                },
                hir::ExprKind::Error => true,
                _ => false,
            },
            ast::ExprKind::Range(start_ast, end_ast, limits) => match &expr_hir.kind {
                hir::ExprKind::Call(path_hir, args_hir) => match (start_ast, end_ast, limits) {
                    (Some(start_ast), Some(end_ast), ast::RangeLimits::Closed) => {
                        if args_hir.len() != 2 {
                            false
                        } else if !is_lang_path(path_hir, hir::LangItem::RangeInclusiveNew) {
                            true
                        } else {
                            fits_matching_expr(start_ast, &args_hir[0]) && fits_matching_expr(
                                end_ast,
                                &args_hir[1],
                            )
                        }
                    },
                    _ => false,
                },
                hir::ExprKind::Struct(lang_item, fields_hir, _) => {
                    match expected_range_lang_item(start_ast.is_some(), end_ast.is_some(), *limits) {
                        Some(expected) => match lang_item {
                            Some(lang_item) => if *lang_item == expected {
                                fits_range(expr_ast, fields_hir)
                            } else {
                                true
                            },
                            None => true,
                        },
                        None => false,
                    }
                },
                hir::ExprKind::Error => true,
                _ => false,
            },
            ast::ExprKind::Path => match &expr_hir.kind {
                hir::ExprKind::Path(_) => true,
                hir::ExprKind::Error => true,
                _ => false,
            },
            ast::ExprKind::AddrOf(inner_ast) => match &expr_hir.kind {
                hir::ExprKind::AddrOf(inner_hir) => fits_matching_expr(inner_ast, inner_hir),
                hir::ExprKind::Error => true,
                _ => false,
            },
            ast::ExprKind::Break(value_ast) => match &expr_hir.kind {
                hir::ExprKind::Break(value_hir) => fits_optional(value_ast, value_hir),
                hir::ExprKind::Error => true,
                _ => false,
            },
            ast::ExprKind::Continue => match &expr_hir.kind {
                hir::ExprKind::Continue => true,
                hir::ExprKind::Error => true,
                _ => false,
            },
            ast::ExprKind::Ret(value_ast) => match &expr_hir.kind {
                hir::ExprKind::Ret(value_hir) => fits_optional(value_ast, value_hir),
                hir::ExprKind::Error => true,
                _ => false,
            },
            ast::ExprKind::InlineAsm => match &expr_hir.kind {
                hir::ExprKind::InlineAsm => true,
                hir::ExprKind::Error => true,
                _ => false,
            },
            ast::ExprKind::Struct(fields_ast, base_ast) => match &expr_hir.kind {
                hir::ExprKind::Struct(_, fields_hir, base_hir) => {
                    fits_exprs(fields_ast, fields_hir)
                        && fits_optional(base_ast, base_hir)
                },
                hir::ExprKind::Error => true,
                _ => false,
            },
            ast::ExprKind::Repeat(inner_ast) => match &expr_hir.kind {
                hir::ExprKind::Repeat(inner_hir) => fits_matching_expr(inner_ast, inner_hir),
                hir::ExprKind::Error => true,
                _ => false,
            },
            ast::ExprKind::Try(inner_ast) => match &expr_hir.kind {
                hir::ExprKind::Match(head_hir, _, hir::MatchSource::TryDesugar) => match &head_hir.kind {
                    hir::ExprKind::Call(path_hir, args_hir) => {
                        if args_hir.len() == 1 && is_lang_path(
                            path_hir,
                            hir::LangItem::TryTraitBranch,
                        ) {
                            fits_matching_expr(inner_ast, &args_hir[0])
                        } else {
                            true
                        }
                    },
                    _ => true,
                },
                hir::ExprKind::Error => true,
                _ => false,
            },
            ast::ExprKind::Yield(value_ast) => match &expr_hir.kind {
                hir::ExprKind::Yield(value_hir) => match value_ast {
                    Some(value_ast) => fits_matching_expr(value_ast, value_hir),
                    None => true,
                },
                hir::ExprKind::Error => true,
                _ => false,
            },
        },
    }
}

/// Whether the bounds of a range that is built as a struct fit the fields
/// of that struct.
fn fits_range(range_ast: &ast::Expr, fields_hir: &Vec<hir::Expr>) -> (ok: bool)
    ensures
        ok == (pairs_range(*range_ast, fields_hir@) is Some),
    decreases range_ast, fields_hir, 0nat,
{
    match &range_ast.kind {
        ast::ExprKind::Range(Some(start_ast), Some(end_ast), _) => {
            if fields_hir.len() >= 1 {
                if !fits_matching_expr(start_ast, &fields_hir[0]) {
                    return false;
                }
            }
            if fields_hir.len() >= 2 {
                fits_matching_expr(end_ast, &fields_hir[1])
            } else {
                true
            }
        },
        ast::ExprKind::Range(Some(bound_ast), None, _) => {
            if fields_hir.len() >= 1 {
                fits_matching_expr(bound_ast, &fields_hir[0])
            } else {
                true
            }
        },
        ast::ExprKind::Range(None, Some(bound_ast), _) => {
            if fields_hir.len() >= 1 {
                fits_matching_expr(bound_ast, &fields_hir[0])
            } else {
                true
            }
        },
        _ => true,
    }
}

/// The arm for the next item in what a `for` loop was turned into.
fn find_next_item_arm(arm_body_hir: &hir::Expr) -> (arm: Option<&hir::Arm>)
    ensures
        match arm {
            Some(arm) => next_item_arm(*arm_body_hir) == Some(*arm),
            None => next_item_arm(*arm_body_hir) is None,
        },
{
    match &arm_body_hir.kind {
        hir::ExprKind::Loop(loop_hir, hir::LoopSource::ForLoop) => {
            if loop_hir.stmts.len() != 1 {
                return None;
            }
            match &loop_hir.stmts[0].kind {
                hir::StmtKind::Expr(inner_hir) => match &inner_hir.kind {
                    hir::ExprKind::Match(_, inner_arms_hir, hir::MatchSource::ForLoopDesugar) => {
                        if inner_arms_hir.len() == 2 {
                            Some(&inner_arms_hir[1])
                        } else {
                            None
                        }
                    },
                    _ => None,
                },
                _ => None,
            }
        },
        _ => None,
    }
}

/// Whether a `for` loop fits what it was turned into.
fn fits_for_loop(loop_ast: &ast::Expr, head_hir: &hir::Expr, arm_body_hir: &hir::Expr) -> (ok: bool)
    ensures
        ok == (pairs_for_loop(*loop_ast, *head_hir, *arm_body_hir) is Some),
    decreases loop_ast, head_hir, 0nat,
{
    match &loop_ast.kind {
        ast::ExprKind::ForLoop(iter_ast, body_ast) => match find_next_item_arm(arm_body_hir) {
            Some(arm_hir) => {
                match &head_hir.kind {
                    hir::ExprKind::Call(_, args_hir) => {
                        if args_hir.len() == 1 {
                            if !fits_matching_expr(iter_ast, &args_hir[0]) {
                                return false;
                            }
                        }
                    },
                    _ => {},
                }
                fits_block_expr(body_ast, &arm_hir.body)
            },
            None => true,
        },
        _ => true,
    }
}

// The walks. Each takes two trees that fit each other and puts their pairs
// at the end of the list.

/// Walks what a parameter holds: nothing.
pub fn walk_param(pairs: &mut Vec<Pair>, param_ast: &ast::Param, param_hir: &hir::Param)
    ensures
        final(pairs)@ == old(pairs)@,
{
}

/// Records the pair of a parameter.
pub fn visit_param(pairs: &mut Vec<Pair>, param_ast: &ast::Param, param_hir: &hir::Param)
    ensures
        final(pairs)@ =~= old(pairs)@ + pairs_param(*param_ast, *param_hir)->0,
{
    pairs.push((param_ast.id, param_hir.hir_id.key()));
    walk_param(pairs, param_ast, param_hir);
}

/// Records the pairs of the parameters, as far as both lists go.
pub fn visit_params(pairs: &mut Vec<Pair>, params_ast: &Vec<ast::Param>, params_hir: &Vec<hir::Param>)
    ensures
        final(pairs)@ =~= old(pairs)@ + pairs_params(params_ast@, params_hir@, 0)->0,
{
    let ghost start = pairs@;
    proof {
        lemma_params_paired(params_ast@, params_hir@, 0);
    }
    let mut i: usize = 0;
    while i < params_ast.len() && i < params_hir.len()
        invariant
            i <= params_ast.len(),
            i <= params_hir.len(),
            pairs_params(params_ast@, params_hir@, i as int) is Some,
            pairs_params(params_ast@, params_hir@, 0) is Some,
            pairs@ + pairs_params(params_ast@, params_hir@, i as int)->0 =~= start + pairs_params(
                params_ast@,
                params_hir@,
                0,
            )->0,
        decreases params_ast.len() - i,
    {
        let ghost before = pairs@;
        let ghost rest = pairs_params(params_ast@, params_hir@, i + 1);
        assert(rest is Some) by {
            lemma_params_paired(params_ast@, params_hir@, i + 1);
        }
        visit_param(pairs, &params_ast[i], &params_hir[i]);
        assert(pairs@ + rest->0 =~= before + pairs_params(params_ast@, params_hir@, i as int)->0);
        i += 1;
    }
}

/// Walks a function and the function that was made of it: records the
/// pairs of the parameters and of the bodies.
pub fn walk_fn(pairs: &mut Vec<Pair>, kind_ast: ast::FnKind, kind_hir: hir::FnKind, body_hir: &hir::Body)
    requires
        pairs_fn(kind_ast, kind_hir, *body_hir) is Some,
    ensures
        final(pairs)@ =~= old(pairs)@ + pairs_fn(kind_ast, kind_hir, *body_hir)->0,
{
    proof {
        lemma_params_paired(
            match kind_ast {
                ast::FnKind::Fn(params_ast, _) => params_ast@,
                ast::FnKind::Closure(params_ast, _) => params_ast@,
            },
            body_hir.params@,
            0,
        );
    }
    match kind_ast {
        ast::FnKind::Fn(params_ast, body_ast) => {
            visit_params(pairs, params_ast, &body_hir.params);
            match body_ast {
                Some(body_ast) => {
                    visit_block_expr(pairs, body_ast, &body_hir.value);
                },
                None => {},
            }
        },
        ast::FnKind::Closure(params_ast, expr_ast) => {
            visit_params(pairs, params_ast, &body_hir.params);
            visit_matching_expr(pairs, expr_ast, &body_hir.value);
        },
    }
}

/// Walks a block of the syntax tree and the expression that stands for it
/// in the resolved tree.
pub fn visit_block_expr(pairs: &mut Vec<Pair>, block_ast: &ast::Block, expr_hir: &hir::Expr)
    requires
        pairs_block_expr(*block_ast, *expr_hir) is Some,
    ensures
        final(pairs)@ =~= old(pairs)@ + pairs_block_expr(*block_ast, *expr_hir)->0,
    decreases block_ast, expr_hir, 2nat,
{
    match &expr_hir.kind {
        hir::ExprKind::Block(block_hir) => {
            visit_block(pairs, block_ast, block_hir);
        },
        _ => {},
    }
}

/// Records the pair of two blocks, and walks them.
pub fn visit_block(pairs: &mut Vec<Pair>, block_ast: &ast::Block, block_hir: &hir::Block)
    requires
        pairs_block(*block_ast, *block_hir) is Some,
    ensures
        final(pairs)@ =~= old(pairs)@ + pairs_block(*block_ast, *block_hir)->0,
    decreases block_ast, block_hir, 1nat,
{
    pairs.push((block_ast.id, block_hir.hir_id.key()));
    walk_block(pairs, block_ast, block_hir);
}

/// Walks what two blocks hold.
pub fn walk_block(pairs: &mut Vec<Pair>, block_ast: &ast::Block, block_hir: &hir::Block)
    requires
        pairs_in_block(*block_ast, *block_hir) is Some,
    ensures
        final(pairs)@ =~= old(pairs)@ + pairs_in_block(*block_ast, *block_hir)->0,
    decreases block_ast, block_hir, 0nat,
{
    visit_stmts(pairs, &block_ast.stmts, &block_hir.stmts);
    match &block_hir.expr {
        Some(expr_hir) => {
            visit_tail(pairs, &block_ast.stmts, expr_hir);
        },
        None => {},
    }
}

/// Walks the statements of two blocks that are compared, in pairs.
fn visit_stmts(pairs: &mut Vec<Pair>, stmts_ast: &Vec<ast::Stmt>, stmts_hir: &Vec<hir::Stmt>)
    requires
        pairs_stmts(stmts_ast@, stmts_hir@, 0, 0) is Some,
    ensures
        final(pairs)@ =~= old(pairs)@ + pairs_stmts(stmts_ast@, stmts_hir@, 0, 0)->0,
    decreases stmts_ast, stmts_hir, 0nat,
{
    let ghost start = pairs@;
    let ghost whole = pairs_stmts(stmts_ast@, stmts_hir@, 0, 0);
    let mut i: usize = 0;
    let mut j: usize = 0;
    while i < stmts_ast.len() && j < stmts_hir.len()
        invariant
            i <= stmts_ast.len(),
            j <= stmts_hir.len(),
            whole == pairs_stmts(stmts_ast@, stmts_hir@, 0, 0),
            whole is Some,
            pairs_stmts(stmts_ast@, stmts_hir@, i as int, j as int) is Some,
            pairs@ + pairs_stmts(stmts_ast@, stmts_hir@, i as int, j as int)->0 =~= start
                + whole->0,
        decreases stmts_ast.len() - i + stmts_hir.len() - j,
    {
        let ghost before = pairs@;
        if !kept_ast(&stmts_ast[i]) {
            i += 1;
        } else if !kept_hir(&stmts_hir[j]) {
            j += 1;
        } else {
            let ghost rest = pairs_stmts(stmts_ast@, stmts_hir@, i + 1, j + 1);
            visit_stmt(pairs, &stmts_ast[i], &stmts_hir[j]);
            assert(pairs@ + rest->0 =~= before + pairs_stmts(
                stmts_ast@,
                stmts_hir@,
                i as int,
                j as int,
            )->0);
            i += 1;
            j += 1;
        }
    }
}

/// Walks the expression at the end of a block of the resolved tree and the
/// last compared statement of the syntax tree.
fn visit_tail(pairs: &mut Vec<Pair>, stmts_ast: &Vec<ast::Stmt>, expr_hir: &hir::Expr)
    requires
        pairs_tail(stmts_ast@, *expr_hir, stmts_ast@.len()) is Some,
    ensures
        final(pairs)@ =~= old(pairs)@ + pairs_tail(stmts_ast@, *expr_hir, stmts_ast@.len())->0,
    decreases stmts_ast, expr_hir, 0nat,
{
    let mut upto: usize = stmts_ast.len();
    while upto > 0
        invariant
            upto <= stmts_ast.len(),
            pairs@ == old(pairs)@,
            pairs_tail(stmts_ast@, *expr_hir, stmts_ast@.len()) is Some,
            pairs_tail(stmts_ast@, *expr_hir, stmts_ast@.len()) == pairs_tail(
                stmts_ast@,
                *expr_hir,
                upto as nat,
            ),
        decreases upto,
    {
        let stmt_ast = &stmts_ast[upto - 1];
        if kept_ast(stmt_ast) {
            match &stmt_ast.kind {
                ast::StmtKind::Expr(expr_ast) => {
                    visit_matching_expr(pairs, expr_ast, expr_hir);
                },
                _ => {},
            }
            return ;
        }
        upto -= 1;
    }
}

/// Records the pair of two statements, and walks them.
pub fn visit_stmt(pairs: &mut Vec<Pair>, stmt_ast: &ast::Stmt, stmt_hir: &hir::Stmt)
    requires
        pairs_stmt(*stmt_ast, *stmt_hir) is Some,
    ensures
        final(pairs)@ =~= old(pairs)@ + pairs_stmt(*stmt_ast, *stmt_hir)->0,
    decreases stmt_ast, stmt_hir, 1nat,
{
    pairs.push((stmt_ast.id, stmt_hir.hir_id.key()));
    walk_stmt(pairs, stmt_ast, stmt_hir);
}

/// Walks what two statements hold.
pub fn walk_stmt(pairs: &mut Vec<Pair>, stmt_ast: &ast::Stmt, stmt_hir: &hir::Stmt)
    requires
        pairs_in_stmt(*stmt_ast, *stmt_hir) is Some,
    ensures
        final(pairs)@ =~= old(pairs)@ + pairs_in_stmt(*stmt_ast, *stmt_hir)->0,
    decreases stmt_ast, stmt_hir, 0nat,
{
    match &stmt_ast.kind {
        ast::StmtKind::Expr(expr_ast) => match &stmt_hir.kind {
            hir::StmtKind::Expr(expr_hir) => {
                visit_matching_expr(pairs, expr_ast, expr_hir);
            },
            _ => {},
        },
        ast::StmtKind::Semi(expr_ast) => match &stmt_hir.kind {
            hir::StmtKind::Semi(expr_hir) => {
                visit_matching_expr(pairs, expr_ast, expr_hir);
            },
            _ => {},
        },
        ast::StmtKind::Local(local_ast) => match &stmt_hir.kind {
            hir::StmtKind::Local(Some(expr_hir)) => match local_ast {
                ast::LocalKind::Init(expr_ast) => {
                    visit_matching_expr(pairs, expr_ast, expr_hir);
                },
                ast::LocalKind::InitElse(expr_ast, _) => {
                    visit_matching_expr(pairs, expr_ast, expr_hir);
                },
                ast::LocalKind::Decl => {},
            },
            _ => {},
        },
        ast::StmtKind::Item => {},
        ast::StmtKind::Empty => {},
        ast::StmtKind::MacCall => {},
    }
}

/// Walks two expressions that stand for each other, passing through the
/// wrappers that only one tree has.
pub fn visit_matching_expr(pairs: &mut Vec<Pair>, expr_ast: &ast::Expr, expr_hir: &hir::Expr)
    requires
        pairs_matching_expr(*expr_ast, *expr_hir) is Some,
    ensures
        final(pairs)@ =~= old(pairs)@ + pairs_matching_expr(*expr_ast, *expr_hir)->0,
    decreases expr_ast, expr_hir, 2nat,
{
    match &expr_hir.kind {
        hir::ExprKind::DropTemps(inner_hir) => {
            visit_matching_expr(pairs, expr_ast, inner_hir);
        },
        _ => match &expr_ast.kind {
            ast::ExprKind::Paren(inner_ast) => {
                visit_matching_expr(pairs, inner_ast, expr_hir);
            },
            _ => {
                visit_expr(pairs, expr_ast, expr_hir);
            },
        },
    }
}

/// Records the pair of two expressions, and walks them.
pub fn visit_expr(pairs: &mut Vec<Pair>, expr_ast: &ast::Expr, expr_hir: &hir::Expr)
    requires
        pairs_expr(*expr_ast, *expr_hir) is Some,
    ensures
        final(pairs)@ =~= old(pairs)@ + pairs_expr(*expr_ast, *expr_hir)->0,
    decreases expr_ast, expr_hir, 1nat,
{
    pairs.push((expr_ast.id, expr_hir.hir_id.key()));
    walk_expr(pairs, expr_ast, expr_hir);
}

/// Walks the expressions of two lists in pairs, as far as both lists go.
fn visit_exprs(pairs: &mut Vec<Pair>, items_ast: &Vec<ast::Expr>, items_hir: &Vec<hir::Expr>)
    requires
        pairs_exprs(items_ast@, items_hir@, 0) is Some,
    ensures
        final(pairs)@ =~= old(pairs)@ + pairs_exprs(items_ast@, items_hir@, 0)->0,
    decreases items_ast, items_hir, 0nat,
{
    let ghost start = pairs@;
    let ghost whole = pairs_exprs(items_ast@, items_hir@, 0);
    let mut i: usize = 0;
    while i < items_ast.len() && i < items_hir.len()
        invariant
            i <= items_ast.len(),
            i <= items_hir.len(),
            whole == pairs_exprs(items_ast@, items_hir@, 0),
            whole is Some,
            pairs_exprs(items_ast@, items_hir@, i as int) is Some,
            pairs@ + pairs_exprs(items_ast@, items_hir@, i as int)->0 =~= start + whole->0,
        decreases items_ast.len() - i,
    {
        let ghost before = pairs@;
        let ghost rest = pairs_exprs(items_ast@, items_hir@, i + 1);
        visit_matching_expr(pairs, &items_ast[i], &items_hir[i]);
        assert(pairs@ + rest->0 =~= before + pairs_exprs(items_ast@, items_hir@, i as int)->0);
        i += 1;
    }
}

/// Walks the bodies of the arms of two lists in pairs, as far as both lists go.
fn visit_arms(pairs: &mut Vec<Pair>, items_ast: &Vec<ast::Arm>, items_hir: &Vec<hir::Arm>)
    requires
        pairs_arms(items_ast@, items_hir@, 0) is Some,
    ensures
        final(pairs)@ =~= old(pairs)@ + pairs_arms(items_ast@, items_hir@, 0)->0,
    decreases items_ast, items_hir, 0nat,
{
    let ghost start = pairs@;
    let ghost whole = pairs_arms(items_ast@, items_hir@, 0);
    let mut i: usize = 0;
    while i < items_ast.len() && i < items_hir.len()
        invariant
            i <= items_ast.len(),
            i <= items_hir.len(),
            whole == pairs_arms(items_ast@, items_hir@, 0),
            whole is Some,
            pairs_arms(items_ast@, items_hir@, i as int) is Some,
            pairs@ + pairs_arms(items_ast@, items_hir@, i as int)->0 =~= start + whole->0,
        decreases items_ast.len() - i,
    {
        let ghost before = pairs@;
        let ghost rest = pairs_arms(items_ast@, items_hir@, i + 1);
        visit_matching_expr(pairs, &items_ast[i].body, &items_hir[i].body);
        assert(pairs@ + rest->0 =~= before + pairs_arms(items_ast@, items_hir@, i as int)->0);
        i += 1;
    }
}

/// Walks two expressions that may both be missing.
fn visit_optional(
    pairs: &mut Vec<Pair>,
    expr_ast: &Option<Box<ast::Expr>>,
    expr_hir: &Option<Box<hir::Expr>>,
)
    requires
        pairs_optional(*expr_ast, *expr_hir) is Some,
    ensures
        final(pairs)@ =~= old(pairs)@ + pairs_optional(*expr_ast, *expr_hir)->0,
    decreases expr_ast, expr_hir, 3nat,
{
    match expr_ast {
        Some(expr_ast) => match expr_hir {
            Some(expr_hir) => {
                visit_matching_expr(pairs, expr_ast, expr_hir);
            },
            None => {},
        },
        None => {},
    }
}

/// Walks what two expressions hold.
#[verifier::rlimit(100)]
pub fn walk_expr(pairs: &mut Vec<Pair>, expr_ast: &ast::Expr, expr_hir: &hir::Expr)
    requires
        pairs_in_expr(*expr_ast, *expr_hir) is Some,
    ensures
        final(pairs)@ =~= old(pairs)@ + pairs_in_expr(*expr_ast, *expr_hir)->0,
    decreases expr_ast, expr_hir, 0nat,
{
    match &expr_hir.kind {
        hir::ExprKind::DropTemps(inner_hir) => {
            visit_matching_expr(pairs, expr_ast, inner_hir);
        },
        _ => match &expr_ast.kind {
            ast::ExprKind::Paren(inner_ast) => {
                visit_matching_expr(pairs, inner_ast, expr_hir);
            },
            // What is not walked, whatever it was turned into.
            ast::ExprKind::Async => {},
            ast::ExprKind::TryBlock => {},
            ast::ExprKind::Underscore => {},
            ast::ExprKind::MacCall => {},
            ast::ExprKind::Error => {},
            ast::ExprKind::Other => {},
            ast::ExprKind::Array(exprs_ast) => match &expr_hir.kind {
                hir::ExprKind::Array(exprs_hir) => {
                    visit_exprs(pairs, exprs_ast, exprs_hir);
                },
                _ => {},
            },
            ast::ExprKind::ConstBlock => {},
            ast::ExprKind::Call(callee_ast, args_ast) => match &expr_hir.kind {
                hir::ExprKind::Call(callee_hir, args_hir) => {
                    visit_matching_expr(pairs, callee_ast, callee_hir);
                    visit_exprs(pairs, args_ast, args_hir);
                },
                _ => {},
            },
            ast::ExprKind::MethodCall(receiver_ast, args_ast) => match &expr_hir.kind {
                hir::ExprKind::MethodCall(receiver_hir, args_hir) => {
                    visit_matching_expr(pairs, receiver_ast, receiver_hir);
                    visit_exprs(pairs, args_ast, args_hir);
                },
                _ => {},
            },
            ast::ExprKind::Tup(exprs_ast) => match &expr_hir.kind {
                hir::ExprKind::Tup(exprs_hir) => {
                    visit_exprs(pairs, exprs_ast, exprs_hir);
                },
                _ => {},
            },
            ast::ExprKind::Binary(left_ast, right_ast) => match &expr_hir.kind {
                hir::ExprKind::Binary(left_hir, right_hir) => {
                    visit_matching_expr(pairs, left_ast, left_hir);
                    visit_matching_expr(pairs, right_ast, right_hir);
                },
                _ => {},
            },
            ast::ExprKind::Unary(inner_ast) => match &expr_hir.kind {
                hir::ExprKind::Unary(inner_hir) => {
                    visit_matching_expr(pairs, inner_ast, inner_hir);
                },
                _ => {},
            },
            ast::ExprKind::Lit => {},
            ast::ExprKind::Cast(inner_ast) => match &expr_hir.kind {
                hir::ExprKind::Cast(inner_hir) => {
                    visit_matching_expr(pairs, inner_ast, inner_hir);
                },
                _ => {},
            },
            ast::ExprKind::Type(inner_ast) => match &expr_hir.kind {
                hir::ExprKind::Type(inner_hir) => {
                    visit_matching_expr(pairs, inner_ast, inner_hir);
                },
                _ => {},
            },
            ast::ExprKind::Let(init_ast) => match &expr_hir.kind {
                hir::ExprKind::Let(init_hir) => {
                    visit_matching_expr(pairs, init_ast, init_hir);
                },
                _ => {},
            },
            ast::ExprKind::If(cond_ast, then_ast, els_ast) => match &expr_hir.kind {
                hir::ExprKind::If(cond_hir, then_hir, els_hir) => {
                    visit_matching_expr(pairs, cond_ast, cond_hir);
                    visit_block_expr(pairs, then_ast, then_hir);
                    visit_optional(pairs, els_ast, els_hir);
                },
                _ => {},
            },
            ast::ExprKind::While(cond_ast, body_ast) => match &expr_hir.kind {
                hir::ExprKind::Loop(loop_hir, hir::LoopSource::While) => match &loop_hir.expr {
                    Some(inner_hir) => match &inner_hir.kind {
                        hir::ExprKind::If(cond_hir, then_hir, _) => {
                            visit_matching_expr(pairs, cond_ast, cond_hir);
                            visit_block_expr(pairs, body_ast, then_hir);
                        },
                        _ => {},
                    },
                    None => {},
                },
                _ => {},
            },
            ast::ExprKind::ForLoop(_, _) => match &expr_hir.kind {
                hir::ExprKind::Match(head_hir, arms_hir, hir::MatchSource::ForLoopDesugar) => {
                    walk_for_loop(pairs, expr_ast, head_hir, &arms_hir[0].body);
                },
                _ => {},
            },
            ast::ExprKind::Loop(body_ast) => match &expr_hir.kind {
                hir::ExprKind::Loop(body_hir, hir::LoopSource::Loop) => {
                    visit_block(pairs, body_ast, body_hir);
                },
                _ => {},
            },
            ast::ExprKind::Match(scrutinee_ast, arms_ast) => match &expr_hir.kind {
                hir::ExprKind::Match(scrutinee_hir, arms_hir, hir::MatchSource::Normal) => {
                    visit_matching_expr(pairs, scrutinee_ast, scrutinee_hir);
                    visit_arms(pairs, arms_ast, arms_hir);
                },
                _ => {},
            },
            ast::ExprKind::Closure(params_ast, body_ast) => match &expr_hir.kind {
                hir::ExprKind::Closure(body_hir) => {
                    proof {
                        lemma_params_paired(params_ast@, body_hir.params@, 0);
                    }
                    visit_params(pairs, params_ast, &body_hir.params);
                    visit_matching_expr(pairs, body_ast, &body_hir.value);
                },
                _ => {},
            },
            ast::ExprKind::Block(block_ast) => match &expr_hir.kind {
                hir::ExprKind::Block(block_hir) => {
                    visit_block(pairs, block_ast, block_hir);
                },
                _ => {},
            },
            ast::ExprKind::Await(inner_ast) => match &expr_hir.kind {
                hir::ExprKind::Match(inner_hir, _, hir::MatchSource::AwaitDesugar) => {
                    visit_matching_expr(pairs, inner_ast, inner_hir);
                },
                _ => {},
            },
            ast::ExprKind::Assign(left_ast, right_ast) => match &expr_hir.kind {
                hir::ExprKind::Assign(left_hir, right_hir) => {
                    visit_matching_expr(pairs, left_ast, left_hir);
                    visit_matching_expr(pairs, right_ast, right_hir);
                },
                _ => {},
            },
            ast::ExprKind::AssignOp(left_ast, right_ast) => match &expr_hir.kind {
                hir::ExprKind::AssignOp(left_hir, right_hir) => {
                    visit_matching_expr(pairs, left_ast, left_hir);
                    visit_matching_expr(pairs, right_ast, right_hir);
                },
                _ => {},
            },
            ast::ExprKind::Field(inner_ast) => match &expr_hir.kind {
                hir::ExprKind::Field(inner_hir) => {
                    visit_matching_expr(pairs, inner_ast, inner_hir);
                },
                _ => {},
            },
            ast::ExprKind::Index(inner_ast, index_ast) => match &expr_hir.kind {
                hir::ExprKind::Index(inner_hir, index_hir) => {
                    visit_matching_expr(pairs, inner_ast, inner_hir);
                    visit_matching_expr(pairs, index_ast, index_hir);
                },
                _ => {},
            },
            ast::ExprKind::Range(start_ast, end_ast, limits) => match &expr_hir.kind {
                hir::ExprKind::Call(path_hir, args_hir) => match (start_ast, end_ast) {
                    (Some(start_ast), Some(end_ast)) => {
                        if is_lang_path(path_hir, hir::LangItem::RangeInclusiveNew) {
                            visit_matching_expr(pairs, start_ast, &args_hir[0]);
                            visit_matching_expr(pairs, end_ast, &args_hir[1]);
                        }
                    },
                    _ => {},
                },
                hir::ExprKind::Struct(lang_item, fields_hir, _) => {
                    match expected_range_lang_item(start_ast.is_some(), end_ast.is_some(), *limits) {
                        Some(expected) => match lang_item {
                            Some(lang_item) => if *lang_item == expected {
                                walk_range(pairs, expr_ast, fields_hir);
                            },
                            None => {},
                        },
                        None => {},
                    }
                },
                _ => {},
            },
            ast::ExprKind::Path => {},
            ast::ExprKind::AddrOf(inner_ast) => match &expr_hir.kind {
                hir::ExprKind::AddrOf(inner_hir) => {
                    visit_matching_expr(pairs, inner_ast, inner_hir);
                },
                _ => {},
            },
            ast::ExprKind::Break(value_ast) => match &expr_hir.kind {
                hir::ExprKind::Break(value_hir) => {
                    visit_optional(pairs, value_ast, value_hir);
                },
                _ => {},
            },
            ast::ExprKind::Continue => {},
            ast::ExprKind::Ret(value_ast) => match &expr_hir.kind {
                hir::ExprKind::Ret(value_hir) => {
                    visit_optional(pairs, value_ast, value_hir);
                },
                _ => {},
            },
            ast::ExprKind::InlineAsm => {},
            ast::ExprKind::Struct(fields_ast, base_ast) => match &expr_hir.kind {
                hir::ExprKind::Struct(_, fields_hir, base_hir) => {
                    visit_exprs(pairs, fields_ast, fields_hir);
                    visit_optional(pairs, base_ast, base_hir);
                },
                _ => {},
            },
            ast::ExprKind::Repeat(inner_ast) => match &expr_hir.kind {
                hir::ExprKind::Repeat(inner_hir) => {
                    visit_matching_expr(pairs, inner_ast, inner_hir);
                },
                _ => {},
            },
            ast::ExprKind::Try(inner_ast) => match &expr_hir.kind {
                hir::ExprKind::Match(head_hir, _, hir::MatchSource::TryDesugar) => match &head_hir.kind {
                    hir::ExprKind::Call(path_hir, args_hir) => {
                        if args_hir.len() == 1 && is_lang_path(
                            path_hir,
                            hir::LangItem::TryTraitBranch,
                        ) {
                            visit_matching_expr(pairs, inner_ast, &args_hir[0]);
                        }
                    },
                    _ => {},
                },
                _ => {},
            },
            ast::ExprKind::Yield(value_ast) => match &expr_hir.kind {
                hir::ExprKind::Yield(value_hir) => match value_ast {
                    Some(value_ast) => {
                        visit_matching_expr(pairs, value_ast, value_hir);
                    },
                    None => {},
                },
                _ => {},
            },
        },
    }
}

/// Walks the bounds of a range that is built as a struct and the fields of
/// that struct.
fn walk_range(pairs: &mut Vec<Pair>, range_ast: &ast::Expr, fields_hir: &Vec<hir::Expr>)
    requires
        pairs_range(*range_ast, fields_hir@) is Some,
    ensures
        final(pairs)@ =~= old(pairs)@ + pairs_range(*range_ast, fields_hir@)->0,
    decreases range_ast, fields_hir, 0nat,
{
    match &range_ast.kind {
        ast::ExprKind::Range(Some(start_ast), Some(end_ast), _) => {
            if fields_hir.len() >= 1 {
                visit_matching_expr(pairs, start_ast, &fields_hir[0]);
            }
            if fields_hir.len() >= 2 {
                visit_matching_expr(pairs, end_ast, &fields_hir[1]);
            }
        },
        ast::ExprKind::Range(Some(bound_ast), None, _) => {
            if fields_hir.len() >= 1 {
                visit_matching_expr(pairs, bound_ast, &fields_hir[0]);
            }
        },
        ast::ExprKind::Range(None, Some(bound_ast), _) => {
            if fields_hir.len() >= 1 {
                visit_matching_expr(pairs, bound_ast, &fields_hir[0]);
            }
        },
        _ => {},
    }
}

/// Walks a `for` loop and what it was turned into.
fn walk_for_loop(
    pairs: &mut Vec<Pair>,
    loop_ast: &ast::Expr,
    head_hir: &hir::Expr,
    arm_body_hir: &hir::Expr,
)
    requires
        pairs_for_loop(*loop_ast, *head_hir, *arm_body_hir) is Some,
    ensures
        final(pairs)@ =~= old(pairs)@ + pairs_for_loop(*loop_ast, *head_hir, *arm_body_hir)->0,
    decreases loop_ast, head_hir, 0nat,
{
    match &loop_ast.kind {
        ast::ExprKind::ForLoop(iter_ast, body_ast) => match find_next_item_arm(arm_body_hir) {
            Some(arm_hir) => {
                match &head_hir.kind {
                    hir::ExprKind::Call(_, args_hir) => {
                        if args_hir.len() == 1 {
                            visit_matching_expr(pairs, iter_ast, &args_hir[0]);
                        }
                    },
                    _ => {},
                }
                visit_block_expr(pairs, body_ast, &arm_hir.body);
            },
            None => {},
        },
        _ => {},
    }
}

} // verus!
