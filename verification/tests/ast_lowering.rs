use mutest::ast_lowering::ast;
use mutest::ast_lowering::hir;
use mutest::ast_lowering::index_pairs;
use mutest::ast_lowering::resolve_body;
use mutest::ast_lowering::visit::fits_block;
use mutest::ast_lowering::visit::fits_block_expr;
use mutest::ast_lowering::visit::fits_expr;
use mutest::ast_lowering::visit::fits_fn;
use mutest::ast_lowering::visit::fits_matching_expr;
use mutest::ast_lowering::visit::fits_stmt;
use mutest::ast_lowering::visit::visit_block;
use mutest::ast_lowering::visit::visit_block_expr;
use mutest::ast_lowering::visit::visit_matching_expr;
use mutest::ast_lowering::visit::visit_stmt;
use mutest::ast_lowering::visit::walk_expr;
use mutest::ast_lowering::visit::walk_fn;
use mutest::ast_lowering::visit::Pair;
use mutest::ast_lowering::BodyResolutionError;

fn h(local_id: u32) -> hir::HirId {
    hir::HirId { owner: 7, local_id }
}

fn ae(id: u32, kind: ast::ExprKind) -> ast::Expr {
    ast::Expr { id, kind }
}

fn he(local_id: u32, kind: hir::ExprKind) -> hir::Expr {
    hir::Expr { hir_id: h(local_id), kind }
}

fn abox(id: u32, kind: ast::ExprKind) -> Box<ast::Expr> {
    Box::new(ae(id, kind))
}

fn hbox(local_id: u32, kind: hir::ExprKind) -> Box<hir::Expr> {
    Box::new(he(local_id, kind))
}

fn astmt(id: u32, kind: ast::StmtKind) -> ast::Stmt {
    ast::Stmt { id, kind }
}

fn hstmt(local_id: u32, kind: hir::StmtKind) -> hir::Stmt {
    hir::Stmt { hir_id: h(local_id), kind }
}

fn ablock(id: u32, stmts: Vec<ast::Stmt>) -> ast::Block {
    ast::Block { id, stmts }
}

fn hblock(local_id: u32, stmts: Vec<hir::Stmt>, expr: Option<Box<hir::Expr>>) -> hir::Block {
    hir::Block { hir_id: h(local_id), stmts, expr }
}

fn p(node_id: u32, local_id: u32) -> Pair {
    (node_id, (7, local_id))
}

fn matched(expr_ast: &ast::Expr, expr_hir: &hir::Expr) -> Option<Vec<Pair>> {
    if !fits_matching_expr(expr_ast, expr_hir) {
        return None;
    }
    let mut pairs: Vec<Pair> = Vec::new();
    visit_matching_expr(&mut pairs, expr_ast, expr_hir);
    Some(pairs)
}

#[test]
fn binary_expression_pairs_itself_then_its_operands() {
    let expr_ast = ae(1, ast::ExprKind::Binary(abox(2, ast::ExprKind::Lit), abox(3, ast::ExprKind::Path)));
    let expr_hir = he(10, hir::ExprKind::Binary(hbox(11, hir::ExprKind::Lit), hbox(12, hir::ExprKind::Path(None))));
    assert_eq!(matched(&expr_ast, &expr_hir), Some(vec![p(1, 10), p(2, 11), p(3, 12)]));
}

#[test]
fn pairs_are_put_behind_what_the_list_held() {
    let mut pairs = vec![p(100, 200)];
    let expr_ast = ae(1, ast::ExprKind::Lit);
    let expr_hir = he(10, hir::ExprKind::Lit);
    assert!(fits_matching_expr(&expr_ast, &expr_hir));
    visit_matching_expr(&mut pairs, &expr_ast, &expr_hir);
    assert_eq!(pairs, vec![p(100, 200), p(1, 10)]);
}

#[test]
fn parentheses_have_no_pair_of_their_own() {
    let expr_ast = ae(1, ast::ExprKind::Paren(abox(2, ast::ExprKind::Paren(abox(3, ast::ExprKind::Lit)))));
    let expr_hir = he(10, hir::ExprKind::Lit);
    assert_eq!(matched(&expr_ast, &expr_hir), Some(vec![p(3, 10)]));
}

#[test]
fn dropped_temporaries_have_no_pair_of_their_own() {
    let expr_ast = ae(1, ast::ExprKind::Lit);
    let expr_hir = he(10, hir::ExprKind::DropTemps(hbox(11, hir::ExprKind::DropTemps(hbox(12, hir::ExprKind::Lit)))));
    assert_eq!(matched(&expr_ast, &expr_hir), Some(vec![p(1, 12)]));
}

#[test]
fn dropped_temporaries_are_passed_before_parentheses() {
    let expr_ast = ae(1, ast::ExprKind::Paren(abox(2, ast::ExprKind::Lit)));
    let expr_hir = he(10, hir::ExprKind::DropTemps(hbox(11, hir::ExprKind::Lit)));
    assert_eq!(matched(&expr_ast, &expr_hir), Some(vec![p(2, 11)]));
}

#[test]
fn walking_an_expression_does_not_pair_the_expression_itself() {
    let mut pairs: Vec<Pair> = Vec::new();
    let expr_ast = ae(1, ast::ExprKind::Unary(abox(2, ast::ExprKind::Lit)));
    let expr_hir = he(10, hir::ExprKind::Unary(hbox(11, hir::ExprKind::Lit)));
    assert!(fits_expr(&expr_ast, &expr_hir));
    walk_expr(&mut pairs, &expr_ast, &expr_hir);
    assert_eq!(pairs, vec![p(2, 11)]);
}

#[test]
fn expressions_of_different_kinds_do_not_fit() {
    let expr_ast = ae(1, ast::ExprKind::Binary(abox(2, ast::ExprKind::Lit), abox(3, ast::ExprKind::Lit)));
    let expr_hir = he(10, hir::ExprKind::Lit);
    assert_eq!(matched(&expr_ast, &expr_hir), None);
}

#[test]
fn a_mismatch_deep_inside_fails_the_whole_walk() {
    let expr_ast = ae(
        1,
        ast::ExprKind::Call(
            abox(2, ast::ExprKind::Path),
            vec![ae(3, ast::ExprKind::Lit), ae(4, ast::ExprKind::Unary(abox(5, ast::ExprKind::Lit)))],
        ),
    );
    let expr_hir = he(
        10,
        hir::ExprKind::Call(
            hbox(11, hir::ExprKind::Path(None)),
            vec![he(12, hir::ExprKind::Lit), he(13, hir::ExprKind::Unary(hbox(14, hir::ExprKind::Continue)))],
        ),
    );
    assert_eq!(matched(&expr_ast, &expr_hir), None);
}

#[test]
fn an_erroneous_expression_fits_anything() {
    let expr_ast = ae(1, ast::ExprKind::Error);
    let expr_hir = he(10, hir::ExprKind::Binary(hbox(11, hir::ExprKind::Lit), hbox(12, hir::ExprKind::Lit)));
    assert_eq!(matched(&expr_ast, &expr_hir), Some(vec![p(1, 10)]));
    let expr_ast = ae(1, ast::ExprKind::Binary(abox(2, ast::ExprKind::Lit), abox(3, ast::ExprKind::Lit)));
    let expr_hir = he(10, hir::ExprKind::Error);
    assert_eq!(matched(&expr_ast, &expr_hir), Some(vec![p(1, 10)]));
}

#[test]
fn other_kinds_of_expression_fit_only_an_erroneous_one() {
    assert_eq!(matched(&ae(1, ast::ExprKind::Other), &he(10, hir::ExprKind::Other)), None);
    assert_eq!(matched(&ae(1, ast::ExprKind::Lit), &he(10, hir::ExprKind::Other)), None);
    assert_eq!(matched(&ae(1, ast::ExprKind::Other), &he(10, hir::ExprKind::Error)), Some(vec![p(1, 10)]));
}

#[test]
fn what_is_not_walked_fits_anything() {
    for kind in [ast::ExprKind::Async, ast::ExprKind::TryBlock, ast::ExprKind::Underscore, ast::ExprKind::MacCall] {
        let expr_ast = ae(1, kind);
        let expr_hir = he(10, hir::ExprKind::Call(hbox(11, hir::ExprKind::Path(None)), vec![]));
        assert_eq!(matched(&expr_ast, &expr_hir), Some(vec![p(1, 10)]));
    }
}

#[test]
fn arguments_are_paired_as_far_as_both_lists_go() {
    let expr_ast = ae(
        1,
        ast::ExprKind::MethodCall(abox(2, ast::ExprKind::Path), vec![ae(3, ast::ExprKind::Lit), ae(4, ast::ExprKind::Lit)]),
    );
    let expr_hir = he(10, hir::ExprKind::MethodCall(hbox(11, hir::ExprKind::Path(None)), vec![he(12, hir::ExprKind::Lit)]));
    assert_eq!(matched(&expr_ast, &expr_hir), Some(vec![p(1, 10), p(2, 11), p(3, 12)]));
}

#[test]
fn if_pairs_condition_block_and_else() {
    let expr_ast = ae(
        1,
        ast::ExprKind::If(
            abox(2, ast::ExprKind::Lit),
            Box::new(ablock(3, vec![])),
            Some(abox(4, ast::ExprKind::Block(Box::new(ablock(5, vec![]))))),
        ),
    );
    let expr_hir = he(
        10,
        hir::ExprKind::If(
            hbox(11, hir::ExprKind::DropTemps(hbox(12, hir::ExprKind::Lit))),
            hbox(13, hir::ExprKind::Block(Box::new(hblock(14, vec![], None)))),
            Some(hbox(15, hir::ExprKind::Block(Box::new(hblock(16, vec![], None))))),
        ),
    );
    assert_eq!(matched(&expr_ast, &expr_hir), Some(vec![p(1, 10), p(2, 12), p(3, 14), p(4, 15), p(5, 16)]));
}

#[test]
fn if_without_else_on_one_side_skips_the_else() {
    let expr_ast = ae(
        1,
        ast::ExprKind::If(abox(2, ast::ExprKind::Lit), Box::new(ablock(3, vec![])), Some(abox(4, ast::ExprKind::Lit))),
    );
    let expr_hir = he(
        10,
        hir::ExprKind::If(
            hbox(11, hir::ExprKind::Lit),
            hbox(13, hir::ExprKind::Block(Box::new(hblock(14, vec![], None)))),
            None,
        ),
    );
    assert_eq!(matched(&expr_ast, &expr_hir), Some(vec![p(1, 10), p(2, 11), p(3, 14)]));
}

#[test]
fn while_is_a_loop_around_an_if() {
    let expr_ast = ae(1, ast::ExprKind::While(abox(2, ast::ExprKind::Lit), Box::new(ablock(3, vec![]))));
    let inner_if = hbox(
        12,
        hir::ExprKind::If(
            hbox(13, hir::ExprKind::DropTemps(hbox(14, hir::ExprKind::Lit))),
            hbox(15, hir::ExprKind::Block(Box::new(hblock(16, vec![], None)))),
            Some(hbox(17, hir::ExprKind::Break(None))),
        ),
    );
    let expr_hir = he(10, hir::ExprKind::Loop(Box::new(hblock(11, vec![], Some(inner_if))), hir::LoopSource::While));
    assert_eq!(matched(&expr_ast, &expr_hir), Some(vec![p(1, 10), p(2, 14), p(3, 16)]));
}

#[test]
fn while_does_not_fit_a_plain_loop() {
    let expr_ast = ae(1, ast::ExprKind::While(abox(2, ast::ExprKind::Lit), Box::new(ablock(3, vec![]))));
    let expr_hir = he(10, hir::ExprKind::Loop(Box::new(hblock(11, vec![], None)), hir::LoopSource::Loop));
    assert_eq!(matched(&expr_ast, &expr_hir), None);
}

#[test]
fn while_around_something_else_pairs_only_itself() {
    let expr_ast = ae(1, ast::ExprKind::While(abox(2, ast::ExprKind::Lit), Box::new(ablock(3, vec![]))));
    let expr_hir = he(10, hir::ExprKind::Loop(Box::new(hblock(11, vec![], None)), hir::LoopSource::While));
    assert_eq!(matched(&expr_ast, &expr_hir), Some(vec![p(1, 10)]));
}

fn for_loop_hir(head_args: Vec<hir::Expr>, inner_arms: Vec<hir::Arm>, outer_arms_extra: bool) -> hir::Expr {
    let inner_match = hbox(14, hir::ExprKind::Match(hbox(15, hir::ExprKind::Lit), inner_arms, hir::MatchSource::ForLoopDesugar));
    let loop_block = hblock(13, vec![hstmt(16, hir::StmtKind::Expr(inner_match))], None);
    let mut arms = vec![hir::Arm { body: he(12, hir::ExprKind::Loop(Box::new(loop_block), hir::LoopSource::ForLoop)) }];
    if outer_arms_extra {
        arms.push(hir::Arm { body: he(30, hir::ExprKind::Lit) });
    }
    he(
        10,
        hir::ExprKind::Match(
            hbox(11, hir::ExprKind::Call(hbox(20, hir::ExprKind::Path(None)), head_args)),
            arms,
            hir::MatchSource::ForLoopDesugar,
        ),
    )
}

#[test]
fn for_loop_pairs_the_iterator_and_the_body() {
    let expr_ast = ae(1, ast::ExprKind::ForLoop(abox(2, ast::ExprKind::Path), Box::new(ablock(3, vec![]))));
    let expr_hir = for_loop_hir(
        vec![he(21, hir::ExprKind::Path(None))],
        vec![
            hir::Arm { body: he(17, hir::ExprKind::Break(None)) },
            hir::Arm { body: he(18, hir::ExprKind::Block(Box::new(hblock(19, vec![], None)))) },
        ],
        false,
    );
    assert_eq!(matched(&expr_ast, &expr_hir), Some(vec![p(1, 10), p(2, 21), p(3, 19)]));
}

#[test]
fn for_loop_with_an_unusual_head_pairs_only_the_body() {
    let expr_ast = ae(1, ast::ExprKind::ForLoop(abox(2, ast::ExprKind::Path), Box::new(ablock(3, vec![]))));
    let expr_hir = for_loop_hir(
        vec![he(21, hir::ExprKind::Path(None)), he(22, hir::ExprKind::Lit)],
        vec![
            hir::Arm { body: he(17, hir::ExprKind::Break(None)) },
            hir::Arm { body: he(18, hir::ExprKind::Block(Box::new(hblock(19, vec![], None)))) },
        ],
        false,
    );
    assert_eq!(matched(&expr_ast, &expr_hir), Some(vec![p(1, 10), p(3, 19)]));
}

#[test]
fn for_loop_with_an_unusual_inner_match_pairs_only_itself() {
    let expr_ast = ae(1, ast::ExprKind::ForLoop(abox(2, ast::ExprKind::Path), Box::new(ablock(3, vec![]))));
    let expr_hir = for_loop_hir(
        vec![he(21, hir::ExprKind::Path(None))],
        vec![hir::Arm { body: he(17, hir::ExprKind::Break(None)) }],
        false,
    );
    assert_eq!(matched(&expr_ast, &expr_hir), Some(vec![p(1, 10)]));
}

#[test]
fn for_loop_does_not_fit_a_match_with_two_arms() {
    let expr_ast = ae(1, ast::ExprKind::ForLoop(abox(2, ast::ExprKind::Path), Box::new(ablock(3, vec![]))));
    let expr_hir = for_loop_hir(
        vec![he(21, hir::ExprKind::Path(None))],
        vec![
            hir::Arm { body: he(17, hir::ExprKind::Break(None)) },
            hir::Arm { body: he(18, hir::ExprKind::Block(Box::new(hblock(19, vec![], None)))) },
        ],
        true,
    );
    assert_eq!(matched(&expr_ast, &expr_hir), None);
}

#[test]
fn match_pairs_the_scrutinee_and_the_bodies_of_the_arms() {
    let expr_ast = ae(
        1,
        ast::ExprKind::Match(
            abox(2, ast::ExprKind::Path),
            vec![ast::Arm { body: ae(3, ast::ExprKind::Lit) }, ast::Arm { body: ae(4, ast::ExprKind::Lit) }],
        ),
    );
    let expr_hir = he(
        10,
        hir::ExprKind::Match(
            hbox(11, hir::ExprKind::Path(None)),
            vec![hir::Arm { body: he(12, hir::ExprKind::Lit) }, hir::Arm { body: he(13, hir::ExprKind::Lit) }],
            hir::MatchSource::Normal,
        ),
    );
    assert_eq!(matched(&expr_ast, &expr_hir), Some(vec![p(1, 10), p(2, 11), p(3, 12), p(4, 13)]));
}

#[test]
fn match_does_not_fit_a_match_made_of_something_else() {
    let expr_ast = ae(1, ast::ExprKind::Match(abox(2, ast::ExprKind::Path), vec![]));
    let expr_hir = he(10, hir::ExprKind::Match(hbox(11, hir::ExprKind::Path(None)), vec![], hir::MatchSource::TryDesugar));
    assert_eq!(matched(&expr_ast, &expr_hir), None);
}

#[test]
fn await_is_a_match_on_the_awaited_expression() {
    let expr_ast = ae(1, ast::ExprKind::Await(abox(2, ast::ExprKind::Path)));
    let expr_hir = he(10, hir::ExprKind::Match(hbox(11, hir::ExprKind::Path(None)), vec![], hir::MatchSource::AwaitDesugar));
    assert_eq!(matched(&expr_ast, &expr_hir), Some(vec![p(1, 10), p(2, 11)]));
}

#[test]
fn question_mark_is_a_match_on_a_call_of_branch() {
    let expr_ast = ae(1, ast::ExprKind::Try(abox(2, ast::ExprKind::Path)));
    let call = hbox(
        11,
        hir::ExprKind::Call(
            hbox(12, hir::ExprKind::Path(Some(hir::LangItem::TryTraitBranch))),
            vec![he(13, hir::ExprKind::Path(None))],
        ),
    );
    let expr_hir = he(10, hir::ExprKind::Match(call, vec![], hir::MatchSource::TryDesugar));
    assert_eq!(matched(&expr_ast, &expr_hir), Some(vec![p(1, 10), p(2, 13)]));
}

#[test]
fn question_mark_on_another_call_pairs_only_itself() {
    let expr_ast = ae(1, ast::ExprKind::Try(abox(2, ast::ExprKind::Path)));
    let call = hbox(
        11,
        hir::ExprKind::Call(hbox(12, hir::ExprKind::Path(Some(hir::LangItem::Unrelated))), vec![he(13, hir::ExprKind::Path(None))]),
    );
    let expr_hir = he(10, hir::ExprKind::Match(call, vec![], hir::MatchSource::TryDesugar));
    assert_eq!(matched(&expr_ast, &expr_hir), Some(vec![p(1, 10)]));
}

#[test]
fn closed_range_is_a_call_of_the_inclusive_constructor() {
    let expr_ast = ae(
        1,
        ast::ExprKind::Range(Some(abox(2, ast::ExprKind::Lit)), Some(abox(3, ast::ExprKind::Lit)), ast::RangeLimits::Closed),
    );
    let expr_hir = he(
        10,
        hir::ExprKind::Call(
            hbox(11, hir::ExprKind::Path(Some(hir::LangItem::RangeInclusiveNew))),
            vec![he(12, hir::ExprKind::Lit), he(13, hir::ExprKind::Lit)],
        ),
    );
    assert_eq!(matched(&expr_ast, &expr_hir), Some(vec![p(1, 10), p(2, 12), p(3, 13)]));
}

#[test]
fn closed_range_does_not_fit_a_struct() {
    let expr_ast = ae(
        1,
        ast::ExprKind::Range(Some(abox(2, ast::ExprKind::Lit)), Some(abox(3, ast::ExprKind::Lit)), ast::RangeLimits::Closed),
    );
    let expr_hir = he(
        10,
        hir::ExprKind::Struct(Some(hir::LangItem::Range), vec![he(12, hir::ExprKind::Lit), he(13, hir::ExprKind::Lit)], None),
    );
    assert_eq!(matched(&expr_ast, &expr_hir), None);
}

#[test]
fn half_open_range_does_not_fit_a_call() {
    let expr_ast = ae(
        1,
        ast::ExprKind::Range(Some(abox(2, ast::ExprKind::Lit)), Some(abox(3, ast::ExprKind::Lit)), ast::RangeLimits::HalfOpen),
    );
    let expr_hir = he(
        10,
        hir::ExprKind::Call(
            hbox(11, hir::ExprKind::Path(Some(hir::LangItem::RangeInclusiveNew))),
            vec![he(12, hir::ExprKind::Lit), he(13, hir::ExprKind::Lit)],
        ),
    );
    assert_eq!(matched(&expr_ast, &expr_hir), None);
}

#[test]
fn half_open_range_is_a_struct_of_its_bounds() {
    let expr_ast = ae(
        1,
        ast::ExprKind::Range(Some(abox(2, ast::ExprKind::Lit)), Some(abox(3, ast::ExprKind::Lit)), ast::RangeLimits::HalfOpen),
    );
    let expr_hir = he(
        10,
        hir::ExprKind::Struct(Some(hir::LangItem::Range), vec![he(12, hir::ExprKind::Lit), he(13, hir::ExprKind::Lit)], None),
    );
    assert_eq!(matched(&expr_ast, &expr_hir), Some(vec![p(1, 10), p(2, 12), p(3, 13)]));
}

#[test]
fn range_to_pairs_its_end_with_the_first_field() {
    let expr_ast = ae(1, ast::ExprKind::Range(None, Some(abox(3, ast::ExprKind::Lit)), ast::RangeLimits::Closed));
    let expr_hir = he(10, hir::ExprKind::Struct(Some(hir::LangItem::RangeToInclusive), vec![he(12, hir::ExprKind::Lit)], None));
    assert_eq!(matched(&expr_ast, &expr_hir), Some(vec![p(1, 10), p(3, 12)]));
}

#[test]
fn range_built_as_another_struct_pairs_only_itself() {
    let expr_ast = ae(1, ast::ExprKind::Range(Some(abox(2, ast::ExprKind::Lit)), None, ast::RangeLimits::HalfOpen));
    let expr_hir = he(10, hir::ExprKind::Struct(Some(hir::LangItem::RangeTo), vec![he(12, hir::ExprKind::Lit)], None));
    assert_eq!(matched(&expr_ast, &expr_hir), Some(vec![p(1, 10)]));
    let expr_hir = he(10, hir::ExprKind::Struct(None, vec![he(12, hir::ExprKind::Lit)], None));
    assert_eq!(matched(&expr_ast, &expr_hir), Some(vec![p(1, 10)]));
}

#[test]
fn full_range_has_no_bounds_to_pair() {
    let expr_ast = ae(1, ast::ExprKind::Range(None, None, ast::RangeLimits::HalfOpen));
    let expr_hir = he(10, hir::ExprKind::Struct(Some(hir::LangItem::RangeFull), vec![], None));
    assert_eq!(matched(&expr_ast, &expr_hir), Some(vec![p(1, 10)]));
    let expr_ast = ae(1, ast::ExprKind::Range(None, None, ast::RangeLimits::Closed));
    assert_eq!(matched(&expr_ast, &expr_hir), None);
}

#[test]
fn struct_pairs_fields_and_base() {
    let expr_ast = ae(1, ast::ExprKind::Struct(vec![ae(2, ast::ExprKind::Lit)], Some(abox(3, ast::ExprKind::Path))));
    let expr_hir = he(10, hir::ExprKind::Struct(None, vec![he(11, hir::ExprKind::Lit)], Some(hbox(12, hir::ExprKind::Path(None)))));
    assert_eq!(matched(&expr_ast, &expr_hir), Some(vec![p(1, 10), p(2, 11), p(3, 12)]));
}

#[test]
fn break_and_return_pair_their_values_where_both_have_one() {
    let expr_ast = ae(1, ast::ExprKind::Break(Some(abox(2, ast::ExprKind::Lit))));
    let expr_hir = he(10, hir::ExprKind::Break(Some(hbox(11, hir::ExprKind::Lit))));
    assert_eq!(matched(&expr_ast, &expr_hir), Some(vec![p(1, 10), p(2, 11)]));
    let expr_ast = ae(1, ast::ExprKind::Ret(Some(abox(2, ast::ExprKind::Lit))));
    let expr_hir = he(10, hir::ExprKind::Ret(None));
    assert_eq!(matched(&expr_ast, &expr_hir), Some(vec![p(1, 10)]));
    let expr_ast = ae(1, ast::ExprKind::Ret(None));
    let expr_hir = he(10, hir::ExprKind::Break(None));
    assert_eq!(matched(&expr_ast, &expr_hir), None);
}

#[test]
fn yield_pairs_its_value_where_the_syntax_has_one() {
    let expr_ast = ae(1, ast::ExprKind::Yield(Some(abox(2, ast::ExprKind::Lit))));
    let expr_hir = he(10, hir::ExprKind::Yield(hbox(11, hir::ExprKind::Lit)));
    assert_eq!(matched(&expr_ast, &expr_hir), Some(vec![p(1, 10), p(2, 11)]));
    let expr_ast = ae(1, ast::ExprKind::Yield(None));
    assert_eq!(matched(&expr_ast, &expr_hir), Some(vec![p(1, 10)]));
}

#[test]
fn closure_pairs_its_parameters_and_its_body() {
    let expr_ast = ae(
        1,
        ast::ExprKind::Closure(vec![ast::Param { id: 2 }, ast::Param { id: 3 }], abox(4, ast::ExprKind::Lit)),
    );
    let body = hir::Body { params: vec![hir::Param { hir_id: h(11) }], value: he(12, hir::ExprKind::Lit) };
    let expr_hir = he(10, hir::ExprKind::Closure(Box::new(body)));
    assert_eq!(matched(&expr_ast, &expr_hir), Some(vec![p(1, 10), p(2, 11), p(4, 12)]));
}

#[test]
fn block_skips_statements_without_counterpart() {
    let block_ast = ablock(
        1,
        vec![
            astmt(2, ast::StmtKind::Empty),
            astmt(3, ast::StmtKind::Semi(abox(4, ast::ExprKind::Lit))),
            astmt(5, ast::StmtKind::Item),
            astmt(6, ast::StmtKind::MacCall),
            astmt(7, ast::StmtKind::Local(ast::LocalKind::Init(abox(8, ast::ExprKind::Lit)))),
        ],
    );
    let block_hir = hblock(
        10,
        vec![
            hstmt(11, hir::StmtKind::Item),
            hstmt(12, hir::StmtKind::Semi(hbox(13, hir::ExprKind::Lit))),
            hstmt(14, hir::StmtKind::Local(Some(hbox(15, hir::ExprKind::Lit)))),
            hstmt(16, hir::StmtKind::Item),
        ],
        None,
    );
    let mut pairs: Vec<Pair> = Vec::new();
    assert!(fits_block(&block_ast, &block_hir));
    visit_block(&mut pairs, &block_ast, &block_hir);
    assert_eq!(pairs, vec![p(1, 10), p(3, 12), p(4, 13), p(7, 14), p(8, 15)]);
}

#[test]
fn block_pairs_its_trailing_expression_with_the_last_statement() {
    let block_ast = ablock(
        1,
        vec![
            astmt(2, ast::StmtKind::Semi(abox(3, ast::ExprKind::Lit))),
            astmt(4, ast::StmtKind::Expr(abox(5, ast::ExprKind::Path))),
            astmt(6, ast::StmtKind::Empty),
        ],
    );
    let block_hir = hblock(
        10,
        vec![hstmt(11, hir::StmtKind::Semi(hbox(12, hir::ExprKind::Lit)))],
        Some(hbox(13, hir::ExprKind::Path(None))),
    );
    let mut pairs: Vec<Pair> = Vec::new();
    assert!(fits_block(&block_ast, &block_hir));
    visit_block(&mut pairs, &block_ast, &block_hir);
    assert_eq!(pairs, vec![p(1, 10), p(2, 11), p(3, 12), p(5, 13)]);
}

#[test]
fn block_whose_last_statement_is_no_expression_does_not_fit_a_trailing_expression() {
    let block_ast = ablock(1, vec![astmt(2, ast::StmtKind::Semi(abox(3, ast::ExprKind::Lit)))]);
    let block_hir = hblock(10, vec![], Some(hbox(13, hir::ExprKind::Lit)));
    assert!(!fits_block(&block_ast, &block_hir));
}

#[test]
fn empty_block_fits_a_trailing_expression() {
    let block_ast = ablock(1, vec![astmt(2, ast::StmtKind::Empty)]);
    let block_hir = hblock(10, vec![], Some(hbox(13, hir::ExprKind::Lit)));
    let mut pairs: Vec<Pair> = Vec::new();
    assert!(fits_block(&block_ast, &block_hir));
    visit_block(&mut pairs, &block_ast, &block_hir);
    assert_eq!(pairs, vec![p(1, 10)]);
}

#[test]
fn block_fits_only_a_block_expression() {
    let block_ast = ablock(1, vec![]);
    let mut pairs: Vec<Pair> = Vec::new();
    assert!(fits_block_expr(&block_ast, &he(10, hir::ExprKind::Lit)));
    visit_block_expr(&mut pairs, &block_ast, &he(10, hir::ExprKind::Lit));
    assert_eq!(pairs, vec![]);
    assert!(fits_block_expr(&block_ast, &he(10, hir::ExprKind::Block(Box::new(hblock(11, vec![], None))))));
    visit_block_expr(&mut pairs, &block_ast, &he(10, hir::ExprKind::Block(Box::new(hblock(11, vec![], None)))));
    assert_eq!(pairs, vec![p(1, 11)]);
}

#[test]
fn statements_of_different_kinds_do_not_fit() {
    let stmt_ast = astmt(1, ast::StmtKind::Semi(abox(2, ast::ExprKind::Lit)));
    let stmt_hir = hstmt(10, hir::StmtKind::Expr(hbox(11, hir::ExprKind::Lit)));
    assert!(!fits_stmt(&stmt_ast, &stmt_hir));
}

#[test]
fn let_with_initializer_does_not_fit_let_without() {
    let stmt_ast = astmt(1, ast::StmtKind::Local(ast::LocalKind::Init(abox(2, ast::ExprKind::Lit))));
    let stmt_hir = hstmt(10, hir::StmtKind::Local(None));
    assert!(!fits_stmt(&stmt_ast, &stmt_hir));
    let stmt_ast = astmt(1, ast::StmtKind::Local(ast::LocalKind::Decl));
    let stmt_hir = hstmt(10, hir::StmtKind::Local(Some(hbox(11, hir::ExprKind::Lit))));
    assert!(!fits_stmt(&stmt_ast, &stmt_hir));
    let mut pairs: Vec<Pair> = Vec::new();
    let stmt_hir = hstmt(10, hir::StmtKind::Local(None));
    assert!(fits_stmt(&stmt_ast, &stmt_hir));
    visit_stmt(&mut pairs, &stmt_ast, &stmt_hir);
    assert_eq!(pairs, vec![p(1, 10)]);
}

#[test]
fn let_else_pairs_its_initializer() {
    let mut pairs: Vec<Pair> = Vec::new();
    let stmt_ast = astmt(
        1,
        ast::StmtKind::Local(ast::LocalKind::InitElse(abox(2, ast::ExprKind::Lit), Box::new(ablock(3, vec![])))),
    );
    let stmt_hir = hstmt(10, hir::StmtKind::Local(Some(hbox(11, hir::ExprKind::Lit))));
    assert!(fits_stmt(&stmt_ast, &stmt_hir));
    visit_stmt(&mut pairs, &stmt_ast, &stmt_hir);
    assert_eq!(pairs, vec![p(1, 10), p(2, 11)]);
}

#[test]
fn function_does_not_fit_a_closure() {
    let params = vec![ast::Param { id: 1 }];
    let body_hir = hir::Body { params: vec![hir::Param { hir_id: h(10) }], value: he(11, hir::ExprKind::Lit) };
    let expr_ast = ae(2, ast::ExprKind::Lit);
    assert!(!fits_fn(ast::FnKind::Fn(&params, None), hir::FnKind::Closure, &body_hir));
    assert!(!fits_fn(ast::FnKind::Closure(&params, &expr_ast), hir::FnKind::Method, &body_hir));
    let mut pairs: Vec<Pair> = Vec::new();
    assert!(fits_fn(ast::FnKind::Closure(&params, &expr_ast), hir::FnKind::Closure, &body_hir));
    walk_fn(&mut pairs, ast::FnKind::Closure(&params, &expr_ast), hir::FnKind::Closure, &body_hir);
    assert_eq!(pairs, vec![p(1, 10), p(2, 11)]);
    let mut pairs: Vec<Pair> = Vec::new();
    assert!(fits_fn(ast::FnKind::Fn(&params, None), hir::FnKind::Method, &body_hir));
    walk_fn(&mut pairs, ast::FnKind::Fn(&params, None), hir::FnKind::Method, &body_hir);
    assert_eq!(pairs, vec![p(1, 10)]);
}

fn sample_fn() -> (ast::FnItem, hir::FnItem) {
    // fn f(a, b) { let c = (a + b); c }
    let fn_ast = ast::FnItem {
        id: 1,
        params: vec![ast::Param { id: 2 }, ast::Param { id: 3 }],
        body: Some(ablock(
            4,
            vec![
                astmt(
                    5,
                    ast::StmtKind::Local(ast::LocalKind::Init(abox(
                        6,
                        ast::ExprKind::Paren(abox(
                            7,
                            ast::ExprKind::Binary(abox(8, ast::ExprKind::Path), abox(9, ast::ExprKind::Path)),
                        )),
                    ))),
                ),
                astmt(10, ast::StmtKind::Expr(abox(11, ast::ExprKind::Path))),
            ],
        )),
    };
    let fn_hir = hir::FnItem {
        kind: hir::FnKind::ItemFn,
        body: hir::Body {
            params: vec![hir::Param { hir_id: h(1) }, hir::Param { hir_id: h(2) }],
            value: he(
                3,
                hir::ExprKind::Block(Box::new(hblock(
                    4,
                    vec![hstmt(
                        5,
                        hir::StmtKind::Local(Some(hbox(
                            6,
                            hir::ExprKind::Binary(hbox(7, hir::ExprKind::Path(None)), hbox(8, hir::ExprKind::Path(None))),
                        ))),
                    )],
                    Some(hbox(9, hir::ExprKind::Path(None))),
                ))),
            ),
        },
    };
    (fn_ast, fn_hir)
}

#[test]
fn resolving_a_body_answers_in_both_directions() {
    let (fn_ast, fn_hir) = sample_fn();
    let resolutions = match resolve_body(&fn_ast, &fn_hir) {
        Ok(resolutions) => resolutions,
        Err(error) => panic!("{error:?}"),
    };
    let expected: [(u32, u32); 8] = [(2, 1), (3, 2), (4, 4), (5, 5), (7, 6), (8, 7), (9, 8), (11, 9)];
    for (node_id, local_id) in expected {
        assert_eq!(resolutions.hir_id(node_id), Some(h(local_id)));
        assert_eq!(resolutions.ast_id(h(local_id)), Some(node_id));
    }
    // The function itself, the parentheses and the statement that holds the
    // trailing expression have no counterpart; nor has the expression that
    // holds the block.
    for node_id in [1, 6, 10, 12] {
        assert_eq!(resolutions.hir_id(node_id), None);
    }
    assert_eq!(resolutions.ast_id(h(3)), None);
    assert_eq!(resolutions.ast_id(hir::HirId { owner: 8, local_id: 4 }), None);
}

#[test]
fn resolving_a_body_that_does_not_fit_fails() {
    let (fn_ast, mut fn_hir) = sample_fn();
    fn_hir.kind = hir::FnKind::Closure;
    assert!(matches!(resolve_body(&fn_ast, &fn_hir), Err(BodyResolutionError::Unmatched)));
    let (mut fn_ast, fn_hir) = sample_fn();
    fn_ast.body = Some(ablock(4, vec![astmt(5, ast::StmtKind::Semi(abox(6, ast::ExprKind::Lit)))]));
    assert!(matches!(resolve_body(&fn_ast, &fn_hir), Err(BodyResolutionError::Unmatched)));
}

#[test]
fn resolving_a_body_with_a_node_paired_twice_fails() {
    let (mut fn_ast, fn_hir) = sample_fn();
    fn_ast.params[1].id = 2;
    assert!(matches!(resolve_body(&fn_ast, &fn_hir), Err(BodyResolutionError::Ambiguous)));
    let (fn_ast, mut fn_hir) = sample_fn();
    fn_hir.body.params[1].hir_id = h(1);
    assert!(matches!(resolve_body(&fn_ast, &fn_hir), Err(BodyResolutionError::Ambiguous)));
}

#[test]
fn resolving_a_body_without_body_pairs_the_parameters() {
    let (mut fn_ast, fn_hir) = sample_fn();
    fn_ast.body = None;
    let resolutions = match resolve_body(&fn_ast, &fn_hir) {
        Ok(resolutions) => resolutions,
        Err(error) => panic!("{error:?}"),
    };
    assert_eq!(resolutions.hir_id(2), Some(h(1)));
    assert_eq!(resolutions.hir_id(4), None);
}

#[test]
fn the_same_pair_twice_is_no_clash() {
    let resolutions = index_pairs(&vec![p(1, 10), p(2, 11), p(1, 10)]).expect("consistent");
    assert_eq!(resolutions.hir_id(1), Some(h(10)));
    assert_eq!(resolutions.ast_id(h(11)), Some(2));
    assert!(index_pairs(&vec![p(1, 10), p(1, 11)]).is_none());
    assert!(index_pairs(&vec![p(1, 10), p(2, 10)]).is_none());
    assert!(index_pairs(&vec![]).is_some());
}

#[test]
fn a_test_of_fit_agrees_with_resolving() {
    let (fn_ast, fn_hir) = sample_fn();
    assert!(fits_fn(fn_ast.kind(), fn_hir.kind, &fn_hir.body));
    let mut pairs: Vec<Pair> = Vec::new();
    walk_fn(&mut pairs, fn_ast.kind(), fn_hir.kind, &fn_hir.body);
    assert_eq!(pairs, vec![p(2, 1), p(3, 2), p(4, 4), p(5, 5), p(7, 6), p(8, 7), p(9, 8), p(11, 9)]);
    let (mut fn_ast, fn_hir) = sample_fn();
    fn_ast.body = Some(ablock(4, vec![astmt(5, ast::StmtKind::Semi(abox(6, ast::ExprKind::Lit)))]));
    assert!(!fits_fn(fn_ast.kind(), fn_hir.kind, &fn_hir.body));
}
