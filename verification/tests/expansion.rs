use mutest::expansion::default_submod_names;
use mutest::expansion::default_submod_path;
use mutest::expansion::mod_dir_path;
use mutest::expansion::mod_file_path;
use mutest::expansion::reversion;
use mutest::expansion::AstPass;
use mutest::expansion::Descent;
use mutest::expansion::DirOwnership;
use mutest::expansion::ItemKind;
use mutest::expansion::ItemOrigin;
use mutest::expansion::MacroKind;
use mutest::expansion::ModDir;
use mutest::expansion::ModuleError;
use mutest::expansion::Reversion;
use mutest::expansion::ReversionError;

#[test]
fn submodule_names_below_a_mod_rs_file() {
    let (file_name, dir_name) = default_submod_names("bar", None, "/");
    assert_eq!(file_name, "bar.rs");
    assert_eq!(dir_name, "bar");
}

#[test]
fn submodule_names_below_a_named_file() {
    let (file_name, dir_name) = default_submod_names("bar", Some("foo"), "/");
    assert_eq!(file_name, "foo/bar.rs");
    assert_eq!(dir_name, "foo/bar");
    let (file_name, dir_name) = default_submod_names("bar", Some("foo"), "\\");
    assert_eq!(file_name, "foo\\bar.rs");
    assert_eq!(dir_name, "foo\\bar");
}

#[test]
fn the_file_next_to_the_parent_is_chosen_if_only_it_exists() {
    let found = default_submod_path("bar", "src/bar.rs", "src/bar/mod.rs", true, false).expect("one candidate");
    assert_eq!(found.file_path, "src/bar.rs");
    assert!(matches!(found.dir_ownership, DirOwnership::Owned { relative: Some("bar") }));
}

#[test]
fn the_file_in_the_directory_is_chosen_if_only_it_exists() {
    let found = default_submod_path("bar", "src/bar.rs", "src/bar/mod.rs", false, true).expect("one candidate");
    assert_eq!(found.file_path, "src/bar/mod.rs");
    assert!(matches!(found.dir_ownership, DirOwnership::Owned { relative: None }));
}

#[test]
fn no_candidate_and_two_candidates_are_errors() {
    assert!(matches!(
        default_submod_path("bar", "src/bar.rs", "src/bar/mod.rs", false, false),
        Err(ModuleError::FileNotFound)
    ));
    assert!(matches!(
        default_submod_path("bar", "src/bar.rs", "src/bar/mod.rs", true, true),
        Err(ModuleError::MultipleCandidates)
    ));
}

#[test]
fn the_path_attribute_decides_the_file() {
    let found = mod_file_path(
        Some("src/elsewhere.rs"),
        DirOwnership::UnownedViaBlock,
        "bar",
        "src/bar.rs",
        "src/bar/mod.rs",
        false,
        false,
    )
    .expect("path attribute");
    assert_eq!(found.file_path, "src/elsewhere.rs");
    assert!(matches!(found.dir_ownership, DirOwnership::Owned { relative: None }));
}

#[test]
fn a_module_in_a_block_needs_a_path_attribute() {
    let result = mod_file_path(None, DirOwnership::UnownedViaBlock, "bar", "src/bar.rs", "src/bar/mod.rs", true, false);
    assert!(matches!(result, Err(ModuleError::UnownedDirectory)));
    // A missing file is reported first.
    let result = mod_file_path(None, DirOwnership::UnownedViaBlock, "bar", "src/bar.rs", "src/bar/mod.rs", false, false);
    assert!(matches!(result, Err(ModuleError::FileNotFound)));
}

#[test]
fn a_module_in_an_owned_directory_takes_the_candidate() {
    let found = mod_file_path(
        None,
        DirOwnership::Owned { relative: Some("foo") },
        "bar",
        "src/foo/bar.rs",
        "src/foo/bar/mod.rs",
        false,
        true,
    )
    .expect("one candidate");
    assert_eq!(found.file_path, "src/foo/bar/mod.rs");
    assert!(matches!(found.dir_ownership, DirOwnership::Owned { relative: None }));
}

#[test]
fn an_inline_module_with_path_attribute_is_at_that_path() {
    let (dir, ownership) =
        mod_dir_path(Some("src/elsewhere"), DirOwnership::Owned { relative: Some("foo") }, "bar", true, "", "", false, false)
            .expect("inline");
    assert!(matches!(dir, ModDir::Given("src/elsewhere")));
    assert!(matches!(ownership, DirOwnership::Owned { relative: None }));
}

#[test]
fn an_inline_module_is_below_the_current_directory() {
    let (dir, ownership) =
        mod_dir_path(None, DirOwnership::Owned { relative: Some("foo") }, "bar", true, "", "", false, false).expect("inline");
    assert!(matches!(dir, ModDir::Below(Some("foo"), "bar")));
    assert!(matches!(ownership, DirOwnership::Owned { relative: None }));
    let (dir, ownership) =
        mod_dir_path(None, DirOwnership::Owned { relative: None }, "bar", true, "", "", true, true).expect("inline");
    assert!(matches!(dir, ModDir::Below(None, "bar")));
    assert!(matches!(ownership, DirOwnership::Owned { relative: None }));
    let (dir, ownership) = mod_dir_path(None, DirOwnership::UnownedViaBlock, "bar", true, "", "", false, false).expect("inline");
    assert!(matches!(dir, ModDir::Below(None, "bar")));
    assert!(matches!(ownership, DirOwnership::UnownedViaBlock));
}

#[test]
fn a_module_with_a_file_is_in_the_directory_of_the_file() {
    let (dir, ownership) = mod_dir_path(
        None,
        DirOwnership::Owned { relative: None },
        "bar",
        false,
        "src/bar.rs",
        "src/bar/mod.rs",
        true,
        false,
    )
    .expect("one candidate");
    assert!(matches!(dir, ModDir::ParentOf("src/bar.rs")));
    assert!(matches!(ownership, DirOwnership::Owned { relative: Some("bar") }));
    let result =
        mod_dir_path(None, DirOwnership::Owned { relative: None }, "bar", false, "src/bar.rs", "src/bar/mod.rs", true, true);
    assert!(matches!(result, Err(ModuleError::MultipleCandidates)));
}

#[test]
fn the_relative_directory_of_an_ownership() {
    assert_eq!(DirOwnership::Owned { relative: Some("foo") }.relative(), Some("foo"));
    assert_eq!(DirOwnership::<&str>::Owned { relative: None }.relative(), None);
    assert_eq!(DirOwnership::<&str>::UnownedViaBlock.relative(), None);
}

#[test]
fn imports_and_macro_definitions_of_the_user_stay() {
    assert_eq!(reversion(ItemOrigin::Root, ItemKind::Use, Some(ItemKind::Use), false), Ok(Reversion::Keep));
    assert_eq!(reversion(ItemOrigin::Root, ItemKind::MacroDef, Some(ItemKind::UnloadedMod), true), Ok(Reversion::Keep));
}

#[test]
fn an_item_of_the_user_without_counterpart_stays() {
    assert_eq!(reversion(ItemOrigin::Root, ItemKind::Struct, None, false), Ok(Reversion::Keep));
}

#[test]
fn type_definitions_get_their_body_back() {
    for kind in [ItemKind::Struct, ItemKind::Enum, ItemKind::Union] {
        assert_eq!(
            reversion(ItemOrigin::Root, kind, Some(kind), false),
            Ok(Reversion::Restore { body: true, descent: Descent::Within })
        );
    }
    assert_eq!(
        reversion(ItemOrigin::Root, ItemKind::Other, Some(ItemKind::Other), false),
        Ok(Reversion::Restore { body: false, descent: Descent::Within })
    );
}

#[test]
fn the_walk_goes_into_loaded_modules_only() {
    assert_eq!(
        reversion(ItemOrigin::Root, ItemKind::LoadedMod, Some(ItemKind::LoadedMod), false),
        Ok(Reversion::Restore { body: false, descent: Descent::IntoModule })
    );
    assert_eq!(
        reversion(ItemOrigin::Root, ItemKind::LoadedMod, Some(ItemKind::UnloadedMod), false),
        Err(ReversionError::UnloadedModule)
    );
    for kind in [ItemKind::ForeignMod, ItemKind::Trait, ItemKind::Impl, ItemKind::Static, ItemKind::Const, ItemKind::Fn] {
        assert_eq!(
            reversion(ItemOrigin::Root, kind, Some(kind), false),
            Ok(Reversion::Restore { body: false, descent: Descent::Stop })
        );
    }
}

#[test]
fn what_macros_of_this_crate_made_stays() {
    for kind in [MacroKind::Bang, MacroKind::Attr, MacroKind::Derive] {
        let origin = ItemOrigin::Macro { kind, is_local: true };
        assert_eq!(reversion(origin, ItemKind::Impl, None, true), Ok(Reversion::Keep));
    }
}

#[test]
fn what_attributes_and_derives_of_other_crates_made_is_taken_out() {
    for kind in [MacroKind::Attr, MacroKind::Derive] {
        let origin = ItemOrigin::Macro { kind, is_local: false };
        assert_eq!(reversion(origin, ItemKind::Impl, None, true), Ok(Reversion::Remove));
        assert_eq!(reversion(origin, ItemKind::Impl, None, false), Ok(Reversion::Keep));
    }
    let origin = ItemOrigin::Macro { kind: MacroKind::Bang, is_local: false };
    assert_eq!(reversion(origin, ItemKind::Impl, None, true), Ok(Reversion::Keep));
}

#[test]
fn the_test_harness_is_taken_out() {
    assert_eq!(reversion(ItemOrigin::AstPass(AstPass::TestHarness), ItemKind::Fn, None, false), Ok(Reversion::Remove));
    assert_eq!(reversion(ItemOrigin::AstPass(AstPass::StdImports), ItemKind::Use, None, false), Ok(Reversion::Keep));
    assert_eq!(reversion(ItemOrigin::AstPass(AstPass::ProcMacroHarness), ItemKind::Fn, None, false), Ok(Reversion::Keep));
    assert_eq!(reversion(ItemOrigin::Desugaring, ItemKind::Fn, None, false), Ok(Reversion::Keep));
    assert_eq!(reversion(ItemOrigin::Inlined, ItemKind::Fn, None, false), Ok(Reversion::Keep));
}
