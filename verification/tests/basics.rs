use mutest::config::ConflictGraphOptions;
use mutest::config::GraphFormat;
use mutest::config::MutationBatchingRandomness;
use mutest::config::PrintOptions;
use mutest::mutation::MutId;
use mutest::op_swap::impls_matching_op;
use mutest::op_swap::OpKind;
use mutest::subst::conflicting_substs;
use mutest::subst::Subst;
use mutest::subst::SubstDef;
use mutest::subst::SubstExpr;
use mutest::subst::SubstLoc;
use mutest::syntax::BinOpKind;
use mutest::syntax::BlockCheckMode;
use mutest::syntax::Expr;
use mutest::syntax::ExprKind;
use mutest::syntax::Mutability;
use mutest::syntax::NodeId;
use mutest::syntax::OpTraitFact;
use mutest::syntax::Span;
use mutest::syntax::DUMMY_NODE_INDEX;
use mutest::text::decimal_string;
use mutest::unsafety::max_call_path;
use mutest::unsafety::Safety;
use mutest::unsafety::UnsafeSource;
use mutest::unsafety::UnsafeTargeting;
use mutest::unsafety::Unsafety;
use rand::Rng;

const ALL_UNSAFETY: [Unsafety; 5] = [
    Unsafety::Safe,
    Unsafety::Tainted(UnsafeSource::EnclosingUnsafe),
    Unsafety::Tainted(UnsafeSource::Unsafe),
    Unsafety::Unsafe(UnsafeSource::EnclosingUnsafe),
    Unsafety::Unsafe(UnsafeSource::Unsafe),
];

#[test]
fn unsafety_is_ordered_by_severity() {
    for (rank, unsafety) in ALL_UNSAFETY.iter().enumerate() {
        assert_eq!(unsafety.severity() as usize, rank);
        assert_eq!(unsafety.any(), rank != 0);
    }
    for a in ALL_UNSAFETY {
        for b in ALL_UNSAFETY {
            assert_eq!(a < b, a.severity() < b.severity());
            assert_eq!(a.most_severe(b), std::cmp::max(a, b));
            assert_eq!(a.most_severe(b), b.most_severe(a));
        }
    }
}

#[test]
fn call_paths_are_ordered_by_severity() {
    let paths = [None, Some(UnsafeSource::EnclosingUnsafe), Some(UnsafeSource::Unsafe)];
    for a in paths {
        for b in paths {
            assert_eq!(max_call_path(a, b), std::cmp::max(a, b));
        }
    }
    assert_eq!(Unsafety::tainted_by(None), Unsafety::Safe);
    assert_eq!(
        Unsafety::tainted_by(Some(UnsafeSource::EnclosingUnsafe)),
        Unsafety::Tainted(UnsafeSource::EnclosingUnsafe)
    );
    assert_eq!(Unsafety::tainted_by(Some(UnsafeSource::Unsafe)), Unsafety::Tainted(UnsafeSource::Unsafe));
}

#[test]
fn what_counts_as_unsafe_under_each_policy() {
    let policies = [
        UnsafeTargeting::Safe,
        UnsafeTargeting::OnlyEnclosing(Safety::Unsafe),
        UnsafeTargeting::OnlyEnclosing(Safety::Normal),
        UnsafeTargeting::All,
    ];
    // Rows: the unsafety in ascending order; columns: the policies above.
    let expected = [
        [false, false, false, false],
        [true, true, false, false],
        [true, true, true, true],
        [true, true, false, false],
        [true, true, true, true],
    ];
    for (unsafety, row) in ALL_UNSAFETY.iter().zip(expected) {
        for (policy, is_unsafe) in policies.iter().zip(row) {
            assert_eq!(unsafety.is_unsafe(*policy), is_unsafe, "{unsafety:?} under {policy:?}");
        }
    }
}

#[test]
fn what_each_policy_opens() {
    assert!(!UnsafeTargeting::Safe.any());
    assert!(!UnsafeTargeting::Safe.enclosing_unsafe());
    assert!(!UnsafeTargeting::Safe.inside_unsafe());
    for policy in [UnsafeTargeting::OnlyEnclosing(Safety::Unsafe), UnsafeTargeting::OnlyEnclosing(Safety::Normal)] {
        assert!(policy.any());
        assert!(policy.enclosing_unsafe());
        assert!(!policy.inside_unsafe());
    }
    assert!(UnsafeTargeting::All.any());
    assert!(UnsafeTargeting::All.enclosing_unsafe());
    assert!(UnsafeTargeting::All.inside_unsafe());
}

#[test]
fn mutation_numbers_as_symbols() {
    assert_eq!(MutId(0).into_symbol_name(), "mut_0");
    assert_eq!(MutId(7).into_symbol_name(), "mut_7");
    assert_eq!(MutId(10).into_symbol_name(), "mut_10");
    assert_eq!(MutId(1234567890).into_symbol_name(), "mut_1234567890");
    assert_eq!(MutId(u32::MAX).into_symbol_name(), "mut_4294967295");
    assert_eq!(MutId(42).into_symbol().0, "mut_42");
    assert_eq!(MutId(42).index(), 42);
}

#[test]
fn numbers_in_decimal() {
    for n in [0, 1, 9, 10, 11, 99, 100, 101, 65535, 4294967295] {
        assert_eq!(decimal_string(n), n.to_string());
    }
}

#[test]
fn binary_operators_as_written() {
    let written = [
        (BinOpKind::Add, "+"),
        (BinOpKind::Sub, "-"),
        (BinOpKind::Mul, "*"),
        (BinOpKind::Div, "/"),
        (BinOpKind::Rem, "%"),
        (BinOpKind::And, "&&"),
        (BinOpKind::Or, "||"),
        (BinOpKind::BitXor, "^"),
        (BinOpKind::BitAnd, "&"),
        (BinOpKind::BitOr, "|"),
        (BinOpKind::Shl, "<<"),
        (BinOpKind::Shr, ">>"),
        (BinOpKind::Eq, "=="),
        (BinOpKind::Lt, "<"),
        (BinOpKind::Le, "<="),
        (BinOpKind::Ne, "!="),
        (BinOpKind::Ge, ">="),
        (BinOpKind::Gt, ">"),
    ];
    for (op, text) in written {
        assert_eq!(op.as_str(), text);
    }
    assert_eq!(OpKind::Standalone.desc(), "operator");
    assert_eq!(OpKind::Assign.desc(), "assignment operator");
    assert!(Mutability::Mut.is_mut());
    assert!(!Mutability::Not.is_mut());
    assert!(!BlockCheckMode::Default.is_unsafe());
    assert!(BlockCheckMode::UnsafeUserProvided.is_unsafe());
    assert!(BlockCheckMode::UnsafeCompilerGenerated.is_unsafe());
}

fn operand(source: &str) -> Expr {
    Expr {
        id: NodeId(1),
        span: Span { lo: 0, hi: 1, local: true },
        hir: None,
        source: source.to_string(),
        kind: ExprKind::Other(vec![]),
    }
}

#[test]
fn substitutes_as_source_text() {
    let a = operand("a");
    let b = operand("f(b)");
    assert_eq!(Subst::AstExpr(SubstExpr::Binary(BinOpKind::Mul, &a, &b)).to_source_string(), "a * f(b)");
    assert_eq!(Subst::AstExpr(SubstExpr::AssignOp(BinOpKind::BitXor, &a, &b)).to_source_string(), "a ^= f(b)");
    assert_eq!(Subst::AstExpr(SubstExpr::Verbatim("x.y()".to_string())).to_source_string(), "x.y()");
    assert_eq!(Subst::AstStmt("return;".to_string()).to_source_string(), "return;");
    let init = || SubstExpr::Binary(BinOpKind::Add, &a, &b);
    assert_eq!(
        Subst::AstLocal("x".to_string(), Mutability::Not, None, init(), None).to_source_string(),
        "let x = a + f(b);"
    );
    assert_eq!(
        Subst::AstLocal("x".to_string(), Mutability::Mut, None, init(), None).to_source_string(),
        "let mut x = a + f(b);"
    );
    assert_eq!(
        Subst::AstLocal("x".to_string(), Mutability::Not, Some("u8".to_string()), init(), Some(init()))
            .to_source_string(),
        "let x: u8 = a + f(b);"
    );
    assert_eq!(
        Subst::AstLocal(
            "x".to_string(),
            Mutability::Mut,
            Some("Vec<u8>".to_string()),
            SubstExpr::Verbatim("vec![]".to_string()),
            None
        )
        .to_source_string(),
        "let mut x: Vec<u8> = vec![];"
    );
}

#[test]
fn substitutes_in_words() {
    let a = operand("a");
    assert_eq!(Subst::AstExpr(SubstExpr::Verbatim(String::new())).descr(), "expression");
    assert_eq!(Subst::AstStmt(String::new()).descr(), "statement");
    assert_eq!(
        Subst::AstLocal("count".to_string(), Mutability::Not, None, SubstExpr::Binary(BinOpKind::Add, &a, &a), None)
            .descr(),
        "local `count`"
    );
}

#[test]
fn substitution_places() {
    let dummy = NodeId(DUMMY_NODE_INDEX);
    for node in [NodeId(0), NodeId(5), dummy] {
        for location in [SubstLoc::InsertBefore(node), SubstLoc::InsertAfter(node), SubstLoc::Replace(node)] {
            assert_eq!(location.anchor_id(), node);
            assert_eq!(location.is_dummy(), node == dummy);
        }
    }
    let at = |location| SubstDef::new(location, Subst::AstStmt(String::new()));
    assert!(conflicting_substs(&at(SubstLoc::InsertBefore(NodeId(1))), &at(SubstLoc::Replace(NodeId(1)))));
    assert!(conflicting_substs(&at(SubstLoc::InsertAfter(NodeId(1))), &at(SubstLoc::InsertBefore(NodeId(1)))));
    assert!(conflicting_substs(&at(SubstLoc::Replace(NodeId(1))), &at(SubstLoc::Replace(NodeId(1)))));
    assert!(!conflicting_substs(&at(SubstLoc::Replace(NodeId(1))), &at(SubstLoc::Replace(NodeId(2)))));
    let def = at(SubstLoc::Replace(NodeId(3)));
    assert_eq!(def.location, SubstLoc::Replace(NodeId(3)));
    assert_eq!(def.substitute.descr(), "statement");
}

#[test]
fn operand_types_take_an_operator() {
    let fact = |op, implemented, output| OpTraitFact { op, implemented, output_is_expr_ty: output };
    let facts = vec![
        fact(BinOpKind::Sub, true, Some(true)),
        fact(BinOpKind::Mul, true, Some(false)),
        fact(BinOpKind::Div, true, None),
        fact(BinOpKind::Rem, false, Some(true)),
        fact(BinOpKind::Sub, false, None),
    ];
    assert!(impls_matching_op(&facts, BinOpKind::Sub, OpKind::Standalone));
    assert!(impls_matching_op(&facts, BinOpKind::Sub, OpKind::Assign));
    assert!(!impls_matching_op(&facts, BinOpKind::Mul, OpKind::Standalone));
    assert!(impls_matching_op(&facts, BinOpKind::Mul, OpKind::Assign));
    assert!(!impls_matching_op(&facts, BinOpKind::Div, OpKind::Standalone));
    assert!(impls_matching_op(&facts, BinOpKind::Div, OpKind::Assign));
    assert!(!impls_matching_op(&facts, BinOpKind::Rem, OpKind::Standalone));
    assert!(!impls_matching_op(&facts, BinOpKind::Rem, OpKind::Assign));
    assert!(!impls_matching_op(&facts, BinOpKind::Add, OpKind::Standalone));
    assert!(!impls_matching_op(&vec![], BinOpKind::Add, OpKind::Assign));
}

#[test]
fn print_options_are_empty_where_nothing_is_printed() {
    let nothing =
        PrintOptions { print_headers: true, mutation_targets: None, conflict_graph: None, mutants: None, code: None };
    assert!(nothing.is_empty());
    assert!(!PrintOptions { mutation_targets: Some(()), ..nothing }.is_empty());
    assert!(!PrintOptions { mutants: Some(()), ..nothing }.is_empty());
    assert!(!PrintOptions { code: Some(()), ..nothing }.is_empty());
    let graph = ConflictGraphOptions { compatibility_graph: false, exclude_unsafe: true, format: GraphFormat::Graphviz };
    assert!(!PrintOptions { conflict_graph: Some(graph), ..nothing }.is_empty());
}

#[test]
fn a_seed_determines_the_generator() {
    assert!(MutationBatchingRandomness { seed: None }.rng().is_none());
    let seeded = MutationBatchingRandomness { seed: Some([3; 32]) };
    let mut first = seeded.rng().unwrap();
    let mut second = seeded.rng().unwrap();
    let mut other = MutationBatchingRandomness { seed: Some([4; 32]) }.rng().unwrap();
    let draws = |rng: &mut rand::rngs::StdRng| -> Vec<u64> { (0..8).map(|_| rng.gen()).collect() };
    let drawn = draws(&mut first);
    assert_eq!(drawn, draws(&mut second));
    assert_ne!(drawn, draws(&mut other));
}
