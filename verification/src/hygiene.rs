//! Names in code that macros produced.
//!
//! An identifier that a macro introduced is resolved where the macro is
//! defined, not where it is used. When expanded code is written out as
//! source text, such an identifier gets a name that no identifier of the
//! user has: the name is prefixed with the expansion that it stems from.

use vstd::prelude::*;
use vstd::string::StrSliceExecFns;
use vstd::string::StringExecFns;
use crate::text::decimal;
use crate::text::decimal_string;

verus! {

/// What made an expansion.
#[derive(Clone, Copy, Debug, PartialEq, Eq, Structural)]
pub enum ExpnKind {
    /// No expansion: code as the user wrote it.
    Root,
    /// The expansion of a macro.
    Macro,
    /// Code that a pass of the compiler made.
    AstPass,
    /// The desugaring of a construct of the language.
    Desugaring,
}

/// How names of an expansion are resolved.
#[derive(Clone, Copy, Debug, PartialEq, Eq, Structural)]
pub enum Transparency {
    /// Where the macro is used.
    Transparent,
    /// Local variables and labels where the macro is defined, everything
    /// else where it is used.
    SemiTransparent,
    /// Where the macro is defined.
    Opaque,
}

/// An expansion: the number of its crate and its number in the crate.
#[derive(Clone, Copy, Debug, PartialEq, Eq, Structural)]
pub struct ExpnId {
    pub krate: u32,
    pub local_id: u32,
}

/// One expansion that a name went through.
#[derive(Clone, Copy, Debug, PartialEq, Eq, Structural)]
pub struct Mark {
    pub expn_id: ExpnId,
    pub kind: ExpnKind,
    pub transparency: Transparency,
}

/// An identifier with the expansions that it went through, the outermost
/// first.
#[derive(Debug)]
pub struct Ident {
    pub name: String,
    pub marks: Vec<Mark>,
}

/// What an identifier names.
#[derive(Clone, Copy, Debug, PartialEq, Eq, Structural)]
pub enum IdentResKind {
    Local,
    Label,
    Def,
}

/// Whether the expansion is that of a macro.
pub fn is_macro_expn(kind: ExpnKind) -> (r: bool)
    ensures
        r == (kind == ExpnKind::Macro),
{
    matches!(kind, ExpnKind::Macro)
}

/// The names that cannot be written as raw identifiers or used in paths:
/// `crate`, `super`, `self`, `Self`, `_` and `'_`.
pub open spec fn is_reserved(name: Seq<char>) -> bool {
    ||| name == "crate"@
    ||| name == "super"@
    ||| name == "self"@
    ||| name == "Self"@
    ||| name == "_"@
    ||| name == "'_"@
}

/// The innermost of the first `upto` expansions at which a name of the
/// kind is resolved where the macro is defined.
pub open spec fn resolving_mark(marks: Seq<Mark>, kind: IdentResKind, upto: int) -> Option<Mark>
    decreases upto,
{
    if upto <= 0 {
        None
    } else if marks[upto - 1].transparency == Transparency::SemiTransparent && kind
        == IdentResKind::Def {
        resolving_mark(marks, kind, upto - 1)
    } else {
        Some(marks[upto - 1])
    }
}

/// The expansion whose number goes into the name of the identifier, if the
/// identifier is renamed.
pub open spec fn renaming_expn(ident: Ident, kind: IdentResKind) -> Option<ExpnId> {
    if is_reserved(ident.name@) {
        None
    } else {
        match resolving_mark(ident.marks@, kind, ident.marks@.len() as int) {
            Some(mark) => if mark.kind == ExpnKind::Macro {
                Some(mark.expn_id)
            } else {
                None
            },
            None => None,
        }
    }
}

/// The name without the tick of a label or lifetime.
pub open spec fn bare_name(name: Seq<char>) -> Seq<char> {
    if name.len() > 0 && name[0] == '\'' {
        name.skip(1)
    } else {
        name
    }
}

/// The text begins with the prefix.
pub open spec fn starts_with(text: Seq<char>, prefix: Seq<char>) -> bool {
    text.len() >= prefix.len() && text.subrange(0, prefix.len() as int) == prefix
}

/// The name of an identifier of the expansion: the tick, if the name has
/// one, then `__rustc_expn_`, the numbers of the expansion, and the bare
/// name.
pub open spec fn expn_name(name: Seq<char>, expn_id: ExpnId) -> Seq<char> {
    (if name.len() > 0 && name[0] == '\'' {
        "'"@
    } else {
        Seq::<char>::empty()
    }) + "__rustc_expn_"@ + decimal(expn_id.krate as nat) + "_"@ + decimal(expn_id.local_id as nat)
        + "_"@ + bare_name(name)
}

fn is_reserved_name(name: &String) -> (r: bool)
    ensures
        r == is_reserved(name@),
{
    *name == String::from_str("crate") || *name == String::from_str("super") || *name
        == String::from_str("self") || *name == String::from_str("Self") || *name
        == String::from_str("_") || *name == String::from_str("'_")
}

/// Renames an identifier that stems from the expansion of a macro, so that
/// it cannot be taken for an identifier of the user. Reserved names, and
/// names that are resolved where the macro is used, stay as they are.
///
/// A name is renamed once: one that carries the prefix already cannot be
/// renamed again.
pub fn sanitize_ident_if_from_expansion(ident: &mut Ident, ident_res_kind: IdentResKind)
    requires
        renaming_expn(*old(ident), ident_res_kind) is Some ==> !starts_with(
            bare_name(old(ident).name@),
            "__rustc_expn_"@,
        ),
    ensures
        final(ident).marks == old(ident).marks,
        final(ident).name@ == (match renaming_expn(*old(ident), ident_res_kind) {
            Some(expn_id) => expn_name(old(ident).name@, expn_id),
            None => old(ident).name@,
        }),
{
    if is_reserved_name(&ident.name) {
        return ;
    }
    let mut res_ctxt_expn: Option<Mark> = None;
    let mut i: usize = ident.marks.len();
    while i > 0
        invariant_except_break
            res_ctxt_expn is None,
            resolving_mark(ident.marks@, ident_res_kind, ident.marks@.len() as int) == resolving_mark(
                ident.marks@,
                ident_res_kind,
                i as int,
            ),
        invariant
            0 <= i <= ident.marks.len(),
            ident.marks == old(ident).marks,
            ident.name == old(ident).name,
        ensures
            ident.marks == old(ident).marks,
            ident.name == old(ident).name,
            res_ctxt_expn == resolving_mark(
                ident.marks@,
                ident_res_kind,
                ident.marks@.len() as int,
            ),
        decreases i,
    {
        let mark = ident.marks[i - 1];
        // Names of an expansion that is only partly transparent may be resolved
        // where the macro is used: all but local variables and labels are.
        let at_use_site = matches!(mark.transparency, Transparency::SemiTransparent) && matches!(
            ident_res_kind,
            IdentResKind::Def
        );
        if !at_use_site {
            res_ctxt_expn = Some(mark);
            break ;
        }
        i -= 1;
    }
    let mark = match res_ctxt_expn {
        Some(mark) => mark,
        None => {
            return ;
        },
    };
    if !is_macro_expn(mark.kind) {
        return ;
    }
    let len = ident.name.as_str().unicode_len();
    let is_label = len > 0 && ident.name.as_str().get_char(0) == '\'';
    let mut name = if is_label {
        String::from_str("'")
    } else {
        String::new()
    };
    name.append("__rustc_expn_");
    let krate = decimal_string(mark.expn_id.krate);
    name.append(krate.as_str());
    name.append("_");
    let local_id = decimal_string(mark.expn_id.local_id);
    name.append(local_id.as_str());
    name.append("_");
    if is_label {
        name.append(ident.name.as_str().substring_char(1, len));
    } else {
        name.append(ident.name.as_str());
    }
    proof {
        let given = old(ident).name@;
        assert(given.skip(1) =~= given.subrange(1, given.len() as int));
        assert(Seq::<char>::empty() + "__rustc_expn_"@ =~= "__rustc_expn_"@);
        assert(name@ =~= expn_name(given, mark.expn_id));
    }
    ident.name = name;
}

/// Gives the identifier the expansions of the identifier that defines what
/// it names.
pub fn copy_def_span_ctxt(ident: &mut Ident, def_ident_marks: &Vec<Mark>)
    ensures
        final(ident).name == old(ident).name,
        final(ident).marks@ == def_ident_marks@,
{
    let mut marks: Vec<Mark> = Vec::new();
    let mut i: usize = 0;
    while i < def_ident_marks.len()
        invariant
            0 <= i <= def_ident_marks.len(),
            marks@ == def_ident_marks@.take(i as int),
        decreases def_ident_marks.len() - i,
    {
        marks.push(def_ident_marks[i]);
        proof {
            assert(def_ident_marks@.take(i + 1) =~= def_ident_marks@.take(i as int).push(
                def_ident_marks@[i as int],
            ));
        }
        i += 1;
    }
    proof {
        assert(def_ident_marks@.take(i as int) =~= def_ident_marks@);
    }
    ident.marks = marks;
}

/// Renames the use of a definition by the expansions of the identifier
/// that defines it.
pub fn sanitize_ident_if_def_from_expansion(ident: &mut Ident, def_ident_marks: &Vec<Mark>)
    requires
        renaming_expn((Ident { name: old(ident).name, marks: *def_ident_marks }), IdentResKind::Def)
            is Some ==> !starts_with(bare_name(old(ident).name@), "__rustc_expn_"@),
    ensures
        final(ident).marks@ == def_ident_marks@,
        final(ident).name@ == (match renaming_expn(
            (Ident { name: old(ident).name, marks: *def_ident_marks }),
            IdentResKind::Def,
        ) {
            Some(expn_id) => expn_name(old(ident).name@, expn_id),
            None => old(ident).name@,
        }),
{
    copy_def_span_ctxt(ident, def_ident_marks);
    proof {
        let at_def = Ident { name: old(ident).name, marks: *def_ident_marks };
        assert(ident.name@ == at_def.name@);
        assert(ident.marks@ == at_def.marks@);
        assert(renaming_expn(*ident, IdentResKind::Def) == renaming_expn(at_def, IdentResKind::Def));
    }
    sanitize_ident_if_from_expansion(ident, IdentResKind::Def);
}

/// Renames an identifier that stands alone, such as a lifetime. The
/// lifetime `'static` stays as it is.
pub fn sanitize_standalone_ident_if_from_expansion(ident: &mut Ident, ident_res_kind: IdentResKind)
    requires
        old(ident).name@ != "'static"@ && renaming_expn(*old(ident), ident_res_kind) is Some
            ==> !starts_with(bare_name(old(ident).name@), "__rustc_expn_"@),
    ensures
        final(ident).marks == old(ident).marks,
        final(ident).name@ == (if old(ident).name@ == "'static"@ {
            old(ident).name@
        } else {
            match renaming_expn(*old(ident), ident_res_kind) {
                Some(expn_id) => expn_name(old(ident).name@, expn_id),
                None => old(ident).name@,
            }
        }),
{
    if ident.name == String::from_str("'static") {
        return ;
    }
    sanitize_ident_if_from_expansion(ident, ident_res_kind);
}

} // verus!
