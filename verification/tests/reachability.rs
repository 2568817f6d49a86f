use mutest::reachability::all_mutable_fns;
use mutest::reachability::bodies_wanted;
use mutest::reachability::reachable_fns;
use mutest::reachability::BodyInfo;
use mutest::reachability::CallSite;
use mutest::reachability::Callee;
use mutest::reachability::DefId;
use mutest::reachability::DefInfo;
use mutest::reachability::GenericArgs;
use mutest::reachability::LocalDefId;
use mutest::reachability::Resolutions;
use mutest::reachability::Target;
use mutest::reachability::Test;
use mutest::unsafety::Safety;
use mutest::unsafety::UnsafeSource;
use mutest::unsafety::UnsafeTargeting;
use mutest::unsafety::Unsafety;

fn local(index: u32) -> DefId {
    DefId { krate: 0, index }
}

fn callee(index: u32) -> Callee {
    Callee::new(local(index), GenericArgs(0))
}

fn def(index: u32) -> DefInfo {
    DefInfo {
        def_id: local(index),
        is_fn: true,
        is_entry_fn: false,
        is_const_fn: false,
        has_body: true,
        excluded: false,
        item_unsafety: Some(Unsafety::Safe),
    }
}

fn call(index: u32) -> CallSite {
    CallSite { callee: callee(index), safety: Safety::Normal, is_virtual: false }
}

fn unsafe_call(index: u32) -> CallSite {
    CallSite { callee: callee(index), safety: Safety::Unsafe, is_virtual: false }
}

fn body(index: u32, calls: Vec<CallSite>) -> BodyInfo {
    BodyInfo { instance: callee(index), display: format!("fn{index}"), calls }
}

fn test(index: u32) -> Test {
    Test { def_id: LocalDefId(index), ignore: false }
}

fn target_of(targets: &[Target], index: u32) -> &Target {
    let found: Vec<&Target> = targets.iter().filter(|t| t.def_id == LocalDefId(index)).collect();
    assert_eq!(found.len(), 1, "target {index} is listed {} times", found.len());
    found[0]
}

fn indices(targets: &[Target]) -> Vec<u32> {
    let mut indices: Vec<u32> = targets.iter().map(|t| t.def_id.0).collect();
    indices.sort();
    indices
}

// Definitions: 100 is the test, 1 is `f`, 2 is `g`.
fn chain() -> Resolutions {
    Resolutions {
        defs: vec![def(1), def(2)],
        bodies: vec![body(100, vec![call(1)]), body(1, vec![call(2)]), body(2, vec![])],
    }
}

#[test]
fn test_calls_f_which_calls_g() {
    let (call_graph, targets) = reachable_fns(&chain(), &[test(100)], 2);
    assert_eq!(indices(&targets), vec![1, 2]);
    let f = target_of(&targets, 1);
    assert_eq!(f.distance, 0);
    assert_eq!(f.unsafety, Unsafety::Safe);
    assert_eq!(f.reachable_from.len(), 1);
    assert_eq!(f.reachable_from[&100].distance, 0);
    assert_eq!(f.reachable_from[&100].unsafe_call_path, None);
    let g = target_of(&targets, 2);
    assert_eq!(g.distance, 1);
    assert_eq!(g.unsafety, Unsafety::Safe);
    assert_eq!(g.reachable_from.len(), 1);
    assert_eq!(g.reachable_from[&100].distance, 1);
    assert_eq!(g.reachable_from[&100].unsafe_call_path, None);
    assert_eq!(call_graph.root_calls.len(), 1);
    assert!(call_graph.root_calls.contains(&(100, (0, 1, 0))));
    assert_eq!(call_graph.nested_calls.len(), 1);
    assert_eq!(call_graph.nested_calls[0].len(), 1);
    assert!(call_graph.nested_calls[0].contains(&((0, 1, 0), (0, 2, 0))));
}

#[test]
fn depth_bounds_the_search() {
    let (call_graph, targets) = reachable_fns(&chain(), &[test(100)], 1);
    assert_eq!(indices(&targets), vec![1]);
    assert_eq!(call_graph.nested_calls.len(), 0);
    assert_eq!(call_graph.root_calls.len(), 1);
}

#[test]
fn calls_beyond_the_last_distance_are_not_recorded() {
    let (call_graph, targets) = reachable_fns(&chain(), &[test(100)], 3);
    assert_eq!(indices(&targets), vec![1, 2]);
    assert_eq!(call_graph.nested_calls.len(), 2);
    assert_eq!(call_graph.nested_calls[0].len(), 1);
    assert_eq!(call_graph.nested_calls[1].len(), 0);
}

#[test]
fn shortest_distance_is_recorded_whatever_the_order() {
    // The test calls `g` through `f` and directly.
    for calls in [vec![call(1), call(2)], vec![call(2), call(1)]] {
        let resolutions = Resolutions {
            defs: vec![def(1), def(2)],
            bodies: vec![body(100, calls), body(1, vec![call(2)]), body(2, vec![])],
        };
        let (_, targets) = reachable_fns(&resolutions, &[test(100)], 3);
        let g = target_of(&targets, 2);
        assert_eq!(g.distance, 0);
        assert_eq!(g.reachable_from[&100].distance, 0);
    }
}

#[test]
fn distance_is_kept_for_each_test() {
    // Test 100 reaches `g` through `f`, test 101 calls `g` itself.
    let resolutions = Resolutions {
        defs: vec![def(1), def(2)],
        bodies: vec![
            body(100, vec![call(1)]),
            body(101, vec![call(2)]),
            body(1, vec![call(2)]),
            body(2, vec![]),
        ],
    };
    let (call_graph, targets) = reachable_fns(&resolutions, &[test(100), test(101)], 2);
    let g = target_of(&targets, 2);
    assert_eq!(g.distance, 0);
    assert_eq!(g.reachable_from.len(), 2);
    assert_eq!(g.reachable_from[&100].distance, 1);
    assert_eq!(g.reachable_from[&101].distance, 0);
    let f = target_of(&targets, 1);
    assert_eq!(f.reachable_from.len(), 1);
    assert!(f.reachable_from.contains_key(&100));
    assert_eq!(call_graph.root_calls.len(), 2);
    assert!(call_graph.root_calls.contains(&(101, (0, 2, 0))));
}

#[test]
fn call_in_unsafe_block_taints_the_callee() {
    let resolutions = Resolutions {
        defs: vec![def(1), def(2), def(3)],
        bodies: vec![
            body(100, vec![call(1)]),
            body(1, vec![unsafe_call(2)]),
            body(2, vec![call(3)]),
            body(3, vec![]),
        ],
    };
    let (_, targets) = reachable_fns(&resolutions, &[test(100)], 3);
    let f = target_of(&targets, 1);
    assert_eq!(f.unsafety, Unsafety::Safe);
    assert_eq!(f.reachable_from[&100].unsafe_call_path, None);
    let g = target_of(&targets, 2);
    assert_eq!(g.unsafety, Unsafety::Tainted(UnsafeSource::Unsafe));
    assert_eq!(g.reachable_from[&100].unsafe_call_path, Some(UnsafeSource::Unsafe));
    // The taint is handed on to what the tainted callee calls.
    let h = target_of(&targets, 3);
    assert_eq!(h.unsafety, Unsafety::Tainted(UnsafeSource::Unsafe));
    assert_eq!(h.reachable_from[&100].unsafe_call_path, Some(UnsafeSource::Unsafe));
    assert!(g.is_tainted(&test(100), UnsafeTargeting::All));
    assert!(!f.is_tainted(&test(100), UnsafeTargeting::Safe));
    assert!(!g.is_tainted(&test(101), UnsafeTargeting::Safe));
}

#[test]
fn an_unsafe_call_of_the_test_itself_does_not_taint() {
    let resolutions = Resolutions {
        defs: vec![def(1)],
        bodies: vec![body(100, vec![unsafe_call(1)]), body(1, vec![])],
    };
    let (_, targets) = reachable_fns(&resolutions, &[test(100)], 1);
    let f = target_of(&targets, 1);
    assert_eq!(f.unsafety, Unsafety::Safe);
    assert_eq!(f.reachable_from[&100].unsafe_call_path, None);
}

#[test]
fn a_further_call_path_never_lowers_the_unsafety() {
    let safe_only = Resolutions {
        defs: vec![def(1), def(2)],
        bodies: vec![body(100, vec![call(1)]), body(1, vec![call(2)]), body(2, vec![])],
    };
    let with_unsafe_path = Resolutions {
        defs: vec![def(1), def(2)],
        bodies: vec![
            body(100, vec![call(1)]),
            body(1, vec![call(2), unsafe_call(2)]),
            body(2, vec![]),
        ],
    };
    let (_, before) = reachable_fns(&safe_only, &[test(100)], 2);
    let (_, after) = reachable_fns(&with_unsafe_path, &[test(100)], 2);
    assert_eq!(target_of(&before, 2).unsafety, Unsafety::Safe);
    assert_eq!(target_of(&after, 2).unsafety, Unsafety::Tainted(UnsafeSource::Unsafe));
    assert!(target_of(&before, 2).unsafety <= target_of(&after, 2).unsafety);
    assert!(target_of(&before, 1).unsafety <= target_of(&after, 1).unsafety);
}

#[test]
fn the_unsafety_of_the_item_outweighs_a_taint() {
    let mut unsafe_item = def(2);
    unsafe_item.item_unsafety = Some(Unsafety::Unsafe(UnsafeSource::EnclosingUnsafe));
    let resolutions = Resolutions {
        defs: vec![def(1), unsafe_item],
        bodies: vec![body(100, vec![call(1)]), body(1, vec![unsafe_call(2)]), body(2, vec![])],
    };
    let (_, targets) = reachable_fns(&resolutions, &[test(100)], 2);
    let g = target_of(&targets, 2);
    assert_eq!(g.unsafety, Unsafety::Unsafe(UnsafeSource::EnclosingUnsafe));
    assert_eq!(g.reachable_from[&100].unsafe_call_path, Some(UnsafeSource::Unsafe));
}

#[test]
fn a_taint_outweighs_nothing_but_a_safe_item() {
    let mut tainting = def(2);
    tainting.item_unsafety = Some(Unsafety::Tainted(UnsafeSource::EnclosingUnsafe));
    let resolutions = Resolutions {
        defs: vec![def(1), tainting],
        bodies: vec![body(100, vec![call(1)]), body(1, vec![unsafe_call(2)]), body(2, vec![])],
    };
    let (_, targets) = reachable_fns(&resolutions, &[test(100)], 2);
    assert_eq!(target_of(&targets, 2).unsafety, Unsafety::Tainted(UnsafeSource::Unsafe));
}

#[test]
fn ignored_tests_reach_nothing() {
    let ignored = Test { def_id: LocalDefId(100), ignore: true };
    let (call_graph, targets) = reachable_fns(&chain(), &[ignored], 2);
    assert!(targets.is_empty());
    assert!(call_graph.root_calls.is_empty());
    assert_eq!(call_graph.nested_calls.len(), 1);
    assert!(call_graph.nested_calls[0].is_empty());
}

#[test]
fn no_tests_reach_nothing() {
    let (call_graph, targets) = reachable_fns(&chain(), &[], 4);
    assert!(targets.is_empty());
    assert!(call_graph.root_calls.is_empty());
    assert_eq!(call_graph.nested_calls.len(), 3);
}

#[test]
fn const_fns_are_neither_targets_nor_followed() {
    let mut konst = def(1);
    konst.is_const_fn = true;
    let resolutions = Resolutions {
        defs: vec![konst, def(2)],
        bodies: vec![body(100, vec![call(1)]), body(1, vec![call(2)]), body(2, vec![])],
    };
    let (call_graph, targets) = reachable_fns(&resolutions, &[test(100)], 2);
    assert!(targets.is_empty());
    assert!(call_graph.nested_calls[0].is_empty());
}

#[test]
fn local_functions_without_body_are_neither_targets_nor_followed() {
    let mut bodiless = def(1);
    bodiless.has_body = false;
    let resolutions = Resolutions {
        defs: vec![bodiless, def(2)],
        bodies: vec![body(100, vec![call(1)]), body(1, vec![call(2)]), body(2, vec![])],
    };
    let (_, targets) = reachable_fns(&resolutions, &[test(100)], 2);
    assert!(targets.is_empty());
}

#[test]
fn unknown_local_functions_are_neither_targets_nor_followed() {
    let resolutions = Resolutions {
        defs: vec![def(2)],
        bodies: vec![body(100, vec![call(1)]), body(1, vec![call(2)]), body(2, vec![])],
    };
    let (_, targets) = reachable_fns(&resolutions, &[test(100)], 2);
    assert!(targets.is_empty());
}

#[test]
fn excluded_functions_are_no_targets_but_are_followed() {
    let mut excluded = def(1);
    excluded.excluded = true;
    let resolutions = Resolutions {
        defs: vec![excluded, def(2)],
        bodies: vec![body(100, vec![call(1)]), body(1, vec![call(2)]), body(2, vec![])],
    };
    let (call_graph, targets) = reachable_fns(&resolutions, &[test(100)], 2);
    assert_eq!(indices(&targets), vec![2]);
    assert_eq!(target_of(&targets, 2).distance, 1);
    assert!(call_graph.nested_calls[0].contains(&((0, 1, 0), (0, 2, 0))));
}

#[test]
fn functions_missing_from_the_syntax_tree_are_no_targets_but_are_followed() {
    let mut missing = def(1);
    missing.item_unsafety = None;
    let resolutions = Resolutions {
        defs: vec![missing, def(2)],
        bodies: vec![body(100, vec![call(1)]), body(1, vec![call(2)]), body(2, vec![])],
    };
    let (_, targets) = reachable_fns(&resolutions, &[test(100)], 2);
    assert_eq!(indices(&targets), vec![2]);
}

#[test]
fn functions_of_other_crates_are_followed_where_their_code_is_available() {
    let foreign = Callee::new(DefId { krate: 7, index: 1 }, GenericArgs(0));
    let resolutions = Resolutions {
        defs: vec![def(2)],
        bodies: vec![
            body(100, vec![CallSite { callee: foreign, safety: Safety::Normal, is_virtual: false }]),
            BodyInfo { instance: foreign, display: "other::f".to_string(), calls: vec![call(2)] },
            body(2, vec![]),
        ],
    };
    let (call_graph, targets) = reachable_fns(&resolutions, &[test(100)], 2);
    assert_eq!(indices(&targets), vec![2]);
    assert_eq!(target_of(&targets, 2).distance, 1);
    assert!(call_graph.root_calls.contains(&(100, (7, 1, 0))));
    assert!(call_graph.nested_calls[0].contains(&((7, 1, 0), (0, 2, 0))));
}

#[test]
fn calls_without_available_code_end_the_path() {
    let resolutions = Resolutions {
        defs: vec![def(1), def(2)],
        bodies: vec![body(100, vec![call(1)]), body(2, vec![])],
    };
    let (_, targets) = reachable_fns(&resolutions, &[test(100)], 2);
    assert_eq!(indices(&targets), vec![1]);
}

#[test]
fn virtual_calls_are_not_followed() {
    let virtual_call = CallSite { callee: callee(2), safety: Safety::Normal, is_virtual: true };
    let resolutions = Resolutions {
        defs: vec![def(1), def(2)],
        bodies: vec![body(100, vec![call(1)]), body(1, vec![virtual_call]), body(2, vec![])],
    };
    let (call_graph, targets) = reachable_fns(&resolutions, &[test(100)], 2);
    assert_eq!(indices(&targets), vec![1]);
    assert!(call_graph.nested_calls[0].is_empty());
}

#[test]
fn instances_of_one_generic_function_share_a_target() {
    let first = Callee::new(local(1), GenericArgs(1));
    let second = Callee::new(local(1), GenericArgs(2));
    let resolutions = Resolutions {
        defs: vec![def(1), def(2), def(3)],
        bodies: vec![
            body(
                100,
                vec![
                    CallSite { callee: first, safety: Safety::Normal, is_virtual: false },
                    CallSite { callee: second, safety: Safety::Normal, is_virtual: false },
                ],
            ),
            BodyInfo { instance: first, display: "f::<u8>".to_string(), calls: vec![call(2)] },
            BodyInfo { instance: second, display: "f::<u16>".to_string(), calls: vec![call(3)] },
            body(2, vec![]),
            body(3, vec![]),
        ],
    };
    let (call_graph, targets) = reachable_fns(&resolutions, &[test(100)], 2);
    assert_eq!(indices(&targets), vec![1, 2, 3]);
    assert_eq!(call_graph.root_calls.len(), 2);
    assert_eq!(call_graph.nested_calls[0].len(), 2);
    assert!(call_graph.nested_calls[0].contains(&((0, 1, 1), (0, 2, 0))));
    assert!(call_graph.nested_calls[0].contains(&((0, 1, 2), (0, 3, 0))));
}

#[test]
fn recursion_is_walked_to_the_depth() {
    let resolutions = Resolutions {
        defs: vec![def(1)],
        bodies: vec![body(100, vec![call(1)]), body(1, vec![call(1)])],
    };
    let (call_graph, targets) = reachable_fns(&resolutions, &[test(100)], 5);
    assert_eq!(indices(&targets), vec![1]);
    assert_eq!(target_of(&targets, 1).distance, 0);
    assert_eq!(call_graph.nested_calls.len(), 4);
    for level in &call_graph.nested_calls {
        assert_eq!(level.len(), 1);
    }
}

#[test]
fn the_first_entry_of_a_definition_counts() {
    let mut shadowed = def(1);
    shadowed.is_const_fn = true;
    let resolutions = Resolutions {
        defs: vec![def(1), shadowed],
        bodies: vec![body(100, vec![call(1)]), body(1, vec![]), body(1, vec![call(2)])],
    };
    let (_, targets) = reachable_fns(&resolutions, &[test(100)], 2);
    assert_eq!(indices(&targets), vec![1]);
    assert_eq!(resolutions.def_info(local(1)), Some(def(1)));
    assert_eq!(resolutions.def_info(local(9)), None);
    assert!(resolutions.body(callee(1)).unwrap().calls.is_empty());
    assert!(resolutions.body(callee(9)).is_none());
    assert!(resolutions.is_followed(callee(1)));
    assert!(!resolutions.is_followed(callee(9)));
}

#[test]
fn callee_keys_round_trip() {
    let callee = Callee::new(DefId { krate: 3, index: 4 }, GenericArgs(5));
    assert_eq!(callee.key(), (3, 4, 5));
    assert_eq!(Callee::from_key((3, 4, 5)), callee);
    assert_eq!(DefId { krate: 0, index: 4 }.as_local(), Some(LocalDefId(4)));
    assert_eq!(DefId { krate: 3, index: 4 }.as_local(), None);
    assert_eq!(LocalDefId(4).to_def_id(), DefId { krate: 0, index: 4 });
    assert_eq!(test(4).callee(), Callee::new(local(4), GenericArgs(0)));
}

#[test]
fn callee_display_str_is_the_path_of_the_body() {
    let resolutions = chain();
    assert_eq!(callee(1).display_str(&resolutions), "fn1");
    assert_eq!(callee(9).display_str(&resolutions), "");
}

#[test]
fn mutable_functions_are_listed_in_the_order_of_the_definitions() {
    let with = |index: u32, change: fn(&mut DefInfo)| {
        let mut info = def(index);
        change(&mut info);
        info
    };
    let resolutions = Resolutions {
        defs: vec![
            def(5),
            with(1, |info| info.is_fn = false),
            with(2, |info| info.is_entry_fn = true),
            with(3, |info| info.is_const_fn = true),
            with(4, |info| info.has_body = false),
            with(6, |info| info.excluded = true),
            with(7, |info| info.def_id.krate = 2),
            with(8, |info| info.item_unsafety = None),
            def(100),
            def(101),
            def(0),
        ],
        bodies: vec![],
    };
    let tests = [test(100), Test { def_id: LocalDefId(101), ignore: true }];
    assert_eq!(all_mutable_fns(&resolutions, &tests), vec![LocalDefId(5), LocalDefId(8), LocalDefId(0)]);
    assert_eq!(
        all_mutable_fns(&resolutions, &[]),
        vec![LocalDefId(5), LocalDefId(8), LocalDefId(100), LocalDefId(101), LocalDefId(0)]
    );
    assert!(all_mutable_fns(&Resolutions { defs: vec![], bodies: vec![] }, &tests).is_empty());
}

#[test]
fn a_test_that_a_test_calls_is_no_target_but_is_searched() {
    // Test 100 calls test 101, which calls `f`.
    let resolutions = Resolutions {
        defs: vec![def(100), def(101), def(1)],
        bodies: vec![body(100, vec![call(101)]), body(101, vec![call(1)]), body(1, vec![])],
    };
    let (_, targets) = reachable_fns(&resolutions, &[test(100), test(101)], 3);
    assert_eq!(indices(&targets), vec![1]);
    let f = target_of(&targets, 1);
    assert_eq!(f.distance, 0);
    assert_eq!(f.reachable_from[&101].distance, 0);
    assert_eq!(f.reachable_from[&100].distance, 1);
    // Where 101 is no test, it is a target.
    let (_, targets) = reachable_fns(&resolutions, &[test(100)], 3);
    assert_eq!(indices(&targets), vec![1, 101]);
}

#[test]
fn the_search_wants_the_bodies_it_goes_on_through() {
    // `f` has its body in the tables, `g` and `h` have none yet, 3 is a
    // compile-time function, 9 is unknown, and 50 of another crate.
    let mut constant = def(3);
    constant.is_const_fn = true;
    let resolutions = Resolutions {
        defs: vec![def(1), def(2), constant, def(4)],
        bodies: vec![body(1, vec![call(2)])],
    };
    let foreign = Callee::new(DefId { krate: 5, index: 50 }, GenericArgs(0));
    let reached = vec![callee(1), callee(2), callee(3), callee(9), foreign, callee(4), callee(2)];
    assert_eq!(bodies_wanted(&resolutions, &reached), vec![callee(2), foreign, callee(4), callee(2)]);
    assert_eq!(bodies_wanted(&resolutions, &vec![]), vec![]);
}
