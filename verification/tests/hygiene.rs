use mutest::hygiene::copy_def_span_ctxt;
use mutest::hygiene::is_macro_expn;
use mutest::hygiene::sanitize_ident_if_def_from_expansion;
use mutest::hygiene::sanitize_ident_if_from_expansion;
use mutest::hygiene::sanitize_standalone_ident_if_from_expansion;
use mutest::hygiene::ExpnId;
use mutest::hygiene::ExpnKind;
use mutest::hygiene::Ident;
use mutest::hygiene::IdentResKind;
use mutest::hygiene::Mark;
use mutest::hygiene::Transparency;

fn mark(krate: u32, local_id: u32, kind: ExpnKind, transparency: Transparency) -> Mark {
    Mark { expn_id: ExpnId { krate, local_id }, kind, transparency }
}

fn opaque(krate: u32, local_id: u32) -> Mark {
    mark(krate, local_id, ExpnKind::Macro, Transparency::Opaque)
}

fn semi(krate: u32, local_id: u32) -> Mark {
    mark(krate, local_id, ExpnKind::Macro, Transparency::SemiTransparent)
}

fn sanitized(name: &str, marks: Vec<Mark>, kind: IdentResKind) -> String {
    let mut ident = Ident { name: name.to_string(), marks: marks.clone() };
    sanitize_ident_if_from_expansion(&mut ident, kind);
    assert_eq!(ident.marks, marks);
    ident.name
}

#[test]
fn only_macros_are_macro_expansions() {
    assert!(is_macro_expn(ExpnKind::Macro));
    assert!(!is_macro_expn(ExpnKind::Root));
    assert!(!is_macro_expn(ExpnKind::AstPass));
    assert!(!is_macro_expn(ExpnKind::Desugaring));
}

#[test]
fn identifiers_of_macros_get_the_numbers_of_the_expansion() {
    assert_eq!(sanitized("x", vec![opaque(0, 7)], IdentResKind::Local), "__rustc_expn_0_7_x");
    assert_eq!(sanitized("helper", vec![opaque(12, 345)], IdentResKind::Def), "__rustc_expn_12_345_helper");
    assert_eq!(sanitized("'outer", vec![opaque(1, 2)], IdentResKind::Label), "'__rustc_expn_1_2_outer");
    assert_eq!(sanitized("'a", vec![opaque(4294967295, 0)], IdentResKind::Def), "'__rustc_expn_4294967295_0_a");
    assert_eq!(sanitized("", vec![opaque(1, 2)], IdentResKind::Def), "__rustc_expn_1_2_");
    assert_eq!(sanitized("'", vec![opaque(1, 2)], IdentResKind::Def), "'__rustc_expn_1_2_");
}

#[test]
fn identifiers_of_the_user_stay() {
    assert_eq!(sanitized("x", vec![], IdentResKind::Local), "x");
    for kind in [ExpnKind::Root, ExpnKind::AstPass, ExpnKind::Desugaring] {
        assert_eq!(sanitized("x", vec![mark(0, 7, kind, Transparency::Opaque)], IdentResKind::Local), "x");
    }
}

#[test]
fn reserved_names_stay() {
    for name in ["crate", "super", "self", "Self", "_", "'_"] {
        for kind in [IdentResKind::Local, IdentResKind::Label, IdentResKind::Def] {
            assert_eq!(sanitized(name, vec![opaque(0, 7)], kind), name);
        }
    }
    assert_eq!(sanitized("crates", vec![opaque(0, 7)], IdentResKind::Def), "__rustc_expn_0_7_crates");
    assert_eq!(sanitized("'static", vec![opaque(0, 7)], IdentResKind::Def), "'__rustc_expn_0_7_static");
}

#[test]
fn the_innermost_expansion_that_resolves_at_its_definition_counts() {
    let marks = vec![opaque(0, 1), opaque(0, 2)];
    assert_eq!(sanitized("x", marks, IdentResKind::Def), "__rustc_expn_0_2_x");
    // Definitions of an expansion that is partly transparent are resolved where
    // the macro is used; local variables and labels where it is defined.
    let marks = vec![opaque(0, 1), semi(0, 2), semi(0, 3)];
    assert_eq!(sanitized("x", marks.clone(), IdentResKind::Def), "__rustc_expn_0_1_x");
    assert_eq!(sanitized("x", marks.clone(), IdentResKind::Local), "__rustc_expn_0_3_x");
    assert_eq!(sanitized("'x", marks, IdentResKind::Label), "'__rustc_expn_0_3_x");
    assert_eq!(sanitized("x", vec![semi(0, 2)], IdentResKind::Def), "x");
    assert_eq!(sanitized("x", vec![semi(0, 2)], IdentResKind::Local), "__rustc_expn_0_2_x");
    // The expansion that counts need not be that of a macro.
    let marks = vec![opaque(0, 1), mark(0, 2, ExpnKind::Desugaring, Transparency::Opaque)];
    assert_eq!(sanitized("x", marks, IdentResKind::Def), "x");
    let marks = vec![opaque(0, 1), mark(0, 2, ExpnKind::Macro, Transparency::Transparent)];
    assert_eq!(sanitized("x", marks, IdentResKind::Def), "__rustc_expn_0_2_x");
}

#[test]
fn uses_are_renamed_by_the_expansions_of_the_definition() {
    let mut ident = Ident { name: "helper".to_string(), marks: vec![opaque(0, 1)] };
    sanitize_ident_if_def_from_expansion(&mut ident, &vec![opaque(3, 4), semi(0, 9)]);
    assert_eq!(ident.name, "__rustc_expn_3_4_helper");
    assert_eq!(ident.marks, vec![opaque(3, 4), semi(0, 9)]);
    let mut ident = Ident { name: "helper".to_string(), marks: vec![opaque(0, 1)] };
    sanitize_ident_if_def_from_expansion(&mut ident, &vec![]);
    assert_eq!(ident.name, "helper");
    assert!(ident.marks.is_empty());
    let mut ident = Ident { name: "helper".to_string(), marks: vec![] };
    copy_def_span_ctxt(&mut ident, &vec![opaque(3, 4)]);
    assert_eq!(ident.name, "helper");
    assert_eq!(ident.marks, vec![opaque(3, 4)]);
}

#[test]
fn the_static_lifetime_stays() {
    let mut ident = Ident { name: "'static".to_string(), marks: vec![opaque(0, 1)] };
    sanitize_standalone_ident_if_from_expansion(&mut ident, IdentResKind::Label);
    assert_eq!(ident.name, "'static");
    let mut ident = Ident { name: "'a".to_string(), marks: vec![opaque(0, 1)] };
    sanitize_standalone_ident_if_from_expansion(&mut ident, IdentResKind::Label);
    assert_eq!(ident.name, "'__rustc_expn_0_1_a");
}
