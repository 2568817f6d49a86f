//! Decisions taken while the source of a crate is put together again:
//! where the file of a module is looked for, and which items of the
//! expanded crate are put back to what the user wrote.
//!
//! Reading files and rewriting the tree are left to the caller. The
//! functions here take what the caller found and say what to do.

use vstd::prelude::*;
use vstd::string::StringExecFns;

verus! {

/// Who owns the directory in which the files of submodules are looked for.
#[derive(Debug)]
pub enum DirOwnership<I> {
    /// The module of the file owns the directory. For a file `foo.rs` the
    /// submodules are looked for in the directory `foo`, which `relative`
    /// then names; for a file `mod.rs`, in the directory of the file.
    Owned { relative: Option<I> },
    /// The module is declared in a block, which owns no directory.
    UnownedViaBlock,
}

impl<I> DirOwnership<I> {
    /// The directory below the current one in which submodules are looked
    /// for, if there is one.
    pub open spec fn spec_relative(self) -> Option<I> {
        match self {
            DirOwnership::Owned { relative } => relative,
            DirOwnership::UnownedViaBlock => None,
        }
    }

    /// The directory below the current one in which submodules are looked
    /// for, if there is one.
    pub fn relative(self) -> (relative: Option<I>)
        ensures
            relative == self.spec_relative(),
    {
        match self {
            DirOwnership::Owned { relative } => relative,
            DirOwnership::UnownedViaBlock => None,
        }
    }
}

/// The file of a module, and who owns the directory of its submodules.
#[derive(Debug)]
pub struct ModulePath<P, I> {
    pub file_path: P,
    pub dir_ownership: DirOwnership<I>,
}

/// Why the file of a module was not found.
#[derive(Clone, Copy, Debug, PartialEq, Eq)]
pub enum ModuleError {
    /// Neither `name.rs` nor `name/mod.rs` exists.
    FileNotFound,
    /// Both `name.rs` and `name/mod.rs` exist.
    MultipleCandidates,
    /// A module without body is declared in a block and has no `path`
    /// attribute.
    UnownedDirectory,
}

/// The start of the names of a module's files: the directory of the
/// enclosing file's module with the separator, if that module has a file of
/// its own name.
pub open spec fn relative_prefix(relative: Option<&str>, separator: &str) -> Seq<char> {
    match relative {
        Some(relative) => relative@ + separator@,
        None => Seq::empty(),
    }
}

/// The two places where the file of a module is looked for, relative to
/// the current directory: the file `name.rs`, and the directory `name`, in
/// which the file is `mod.rs`.
pub fn default_submod_names(mod_name: &str, relative: Option<&str>, separator: &str) -> (names: (
    String,
    String,
))
    ensures
        names.0@ == relative_prefix(relative, separator) + mod_name@ + ".rs"@,
        names.1@ == relative_prefix(relative, separator) + mod_name@,
{
    let mut prefix = String::new();
    match relative {
        Some(relative) => {
            prefix.append(relative);
            prefix.append(separator);
        },
        None => {},
    }
    assert(prefix@ =~= relative_prefix(relative, separator));
    let mut dir_name = prefix;
    dir_name.append(mod_name);
    let mut file_name = dir_name.clone();
    file_name.append(".rs");
    (file_name, dir_name)
}

/// The file of a module without `path` attribute: the one of the two
/// candidates that exists.
pub open spec fn spec_default_submod_path<P, I>(
    ident: I,
    default_path: P,
    secondary_path: P,
    default_exists: bool,
    secondary_exists: bool,
) -> Result<ModulePath<P, I>, ModuleError> {
    if default_exists && !secondary_exists {
        Ok(
            ModulePath {
                file_path: default_path,
                dir_ownership: DirOwnership::Owned { relative: Some(ident) },
            },
        )
    } else if !default_exists && secondary_exists {
        Ok(
            ModulePath {
                file_path: secondary_path,
                dir_ownership: DirOwnership::Owned { relative: None },
            },
        )
    } else if default_exists {
        Err(ModuleError::MultipleCandidates)
    } else {
        Err(ModuleError::FileNotFound)
    }
}

/// Chooses the file of a module without `path` attribute among `name.rs`
/// and `name/mod.rs`, of which exactly one has to exist.
pub fn default_submod_path<P, I>(
    ident: I,
    default_path: P,
    secondary_path: P,
    default_exists: bool,
    secondary_exists: bool,
) -> (result: Result<ModulePath<P, I>, ModuleError>)
    ensures
        result == spec_default_submod_path(
            ident,
            default_path,
            secondary_path,
            default_exists,
            secondary_exists,
        ),
{
    match (default_exists, secondary_exists) {
        (true, false) => Ok(
            ModulePath {
                file_path: default_path,
                dir_ownership: DirOwnership::Owned { relative: Some(ident) },
            },
        ),
        (false, true) => Ok(
            ModulePath {
                file_path: secondary_path,
                dir_ownership: DirOwnership::Owned { relative: None },
            },
        ),
        (false, false) => Err(ModuleError::FileNotFound),
        (true, true) => Err(ModuleError::MultipleCandidates),
    }
}

/// The file of a module without body: the file of its `path` attribute, or
/// else the candidate that exists, provided that the directory is owned.
pub open spec fn spec_mod_file_path<P, I>(
    attr_path: Option<P>,
    dir_ownership: DirOwnership<I>,
    ident: I,
    default_path: P,
    secondary_path: P,
    default_exists: bool,
    secondary_exists: bool,
) -> Result<ModulePath<P, I>, ModuleError> {
    match attr_path {
        Some(file_path) => Ok(
            ModulePath { file_path, dir_ownership: DirOwnership::Owned { relative: None } },
        ),
        None => match spec_default_submod_path(
            ident,
            default_path,
            secondary_path,
            default_exists,
            secondary_exists,
        ) {
            Ok(found) => match dir_ownership {
                DirOwnership::Owned { .. } => Ok(found),
                DirOwnership::UnownedViaBlock => Err(ModuleError::UnownedDirectory),
            },
            Err(error) => Err(error),
        },
    }
}

/// Finds the file of a module without body. `attr_path` is the path that
/// the `path` attribute of the module gives, if it has one; the candidates
/// are those for the names of `default_submod_names`.
pub fn mod_file_path<P, I>(
    attr_path: Option<P>,
    dir_ownership: DirOwnership<I>,
    ident: I,
    default_path: P,
    secondary_path: P,
    default_exists: bool,
    secondary_exists: bool,
) -> (result: Result<ModulePath<P, I>, ModuleError>)
    ensures
        result == spec_mod_file_path(
            attr_path,
            dir_ownership,
            ident,
            default_path,
            secondary_path,
            default_exists,
            secondary_exists,
        ),
{
    match attr_path {
        Some(file_path) => {
            return Ok(
                ModulePath { file_path, dir_ownership: DirOwnership::Owned { relative: None } },
            );
        },
        None => {},
    }
    let found = default_submod_path(
        ident,
        default_path,
        secondary_path,
        default_exists,
        secondary_exists,
    )?;
    match dir_ownership {
        DirOwnership::Owned { .. } => Ok(found),
        DirOwnership::UnownedViaBlock => Err(ModuleError::UnownedDirectory),
    }
}

/// Where the directory of the submodules of a module is.
#[derive(Debug)]
pub enum ModDir<P, I> {
    /// At the path that the `path` attribute of the module gives.
    Given(P),
    /// Below the current directory: in the directory of the enclosing
    /// file's module, if that is named, and in there in the directory of
    /// the module itself.
    Below(Option<I>, I),
    /// In the directory that holds the file of the module.
    ParentOf(P),
}

/// The directory of the submodules of a module, and who owns it.
pub open spec fn spec_mod_dir_path<P, I>(
    attr_path: Option<P>,
    dir_ownership: DirOwnership<I>,
    ident: I,
    inline: bool,
    default_path: P,
    secondary_path: P,
    default_exists: bool,
    secondary_exists: bool,
) -> Result<(ModDir<P, I>, DirOwnership<I>), ModuleError> {
    if inline {
        match attr_path {
            Some(file_path) => Ok(
                (ModDir::Given(file_path), DirOwnership::Owned { relative: None }),
            ),
            None => match dir_ownership {
                DirOwnership::Owned { relative } => Ok(
                    (ModDir::Below(relative, ident), DirOwnership::Owned { relative: None }),
                ),
                DirOwnership::UnownedViaBlock => Ok(
                    (ModDir::Below(None, ident), DirOwnership::UnownedViaBlock),
                ),
            },
        }
    } else {
        match spec_mod_file_path(
            attr_path,
            dir_ownership,
            ident,
            default_path,
            secondary_path,
            default_exists,
            secondary_exists,
        ) {
            Ok(found) => Ok((ModDir::ParentOf(found.file_path), found.dir_ownership)),
            Err(error) => Err(error),
        }
    }
}

/// Finds the directory of the submodules of a module. For a module with a
/// body (`inline`) no file is looked for and the candidates do not count.
pub fn mod_dir_path<P, I>(
    attr_path: Option<P>,
    dir_ownership: DirOwnership<I>,
    ident: I,
    inline: bool,
    default_path: P,
    secondary_path: P,
    default_exists: bool,
    secondary_exists: bool,
) -> (result: Result<(ModDir<P, I>, DirOwnership<I>), ModuleError>)
    ensures
        result == spec_mod_dir_path(
            attr_path,
            dir_ownership,
            ident,
            inline,
            default_path,
            secondary_path,
            default_exists,
            secondary_exists,
        ),
{
    if inline {
        match attr_path {
            Some(file_path) => Ok(
                (ModDir::Given(file_path), DirOwnership::Owned { relative: None }),
            ),
            None => match dir_ownership {
                DirOwnership::Owned { relative } => Ok(
                    (ModDir::Below(relative, ident), DirOwnership::Owned { relative: None }),
                ),
                DirOwnership::UnownedViaBlock => Ok(
                    (ModDir::Below(None, ident), DirOwnership::UnownedViaBlock),
                ),
            },
        }
    } else {
        let found = mod_file_path(
            attr_path,
            dir_ownership,
            ident,
            default_path,
            secondary_path,
            default_exists,
            secondary_exists,
        )?;
        Ok((ModDir::ParentOf(found.file_path), found.dir_ownership))
    }
}

/// The kind of macro that an item stems from.
#[derive(Clone, Copy, Debug, PartialEq, Eq, Structural)]
pub enum MacroKind {
    Bang,
    Attr,
    Derive,
}

/// The pass of the compiler that an item stems from.
#[derive(Clone, Copy, Debug, PartialEq, Eq, Structural)]
pub enum AstPass {
    StdImports,
    TestHarness,
    ProcMacroHarness,
}

/// Where an item of the expanded crate stems from.
#[derive(Clone, Copy, Debug, PartialEq, Eq, Structural)]
pub enum ItemOrigin {
    /// The user wrote it.
    Root,
    /// The expansion of a macro, which is defined in this crate or not.
    Macro { kind: MacroKind, is_local: bool },
    /// A pass of the compiler.
    AstPass(AstPass),
    /// The desugaring of a construct of the language.
    Desugaring,
    /// Inlining.
    Inlined,
}

/// The kinds of item that count when expansions are reverted.
#[derive(Clone, Copy, Debug, PartialEq, Eq, Structural)]
pub enum ItemKind {
    Use,
    MacroDef,
    Struct,
    Enum,
    Union,
    /// A module whose items have not been read from its file.
    UnloadedMod,
    /// A module with its items.
    LoadedMod,
    ForeignMod,
    Trait,
    Impl,
    Static,
    Const,
    Fn,
    /// Any other kind of item.
    Other,
}

/// How far the walk goes on below an item that was put back.
#[derive(Clone, Copy, Debug, PartialEq, Eq, Structural)]
pub enum Descent {
    /// Not at all.
    Stop,
    /// Into the item, with the items of the item as the user wrote it in
    /// place of the current ones.
    IntoModule,
    /// Into the item, with the current items as the user wrote them.
    Within,
}

/// What happens to an item of the expanded crate.
#[derive(Clone, Copy, Debug, PartialEq, Eq, Structural)]
pub enum Reversion {
    /// It stays as it is, and nothing below it is looked at.
    Keep,
    /// It is taken out.
    Remove,
    /// Its attributes are put back to what the user wrote, and its body
    /// too if `body` says so.
    Restore { body: bool, descent: Descent },
}

/// Why an item could not be put back.
#[derive(Clone, Copy, Debug, PartialEq, Eq, Structural)]
pub enum ReversionError {
    /// The item as the user wrote it is a module whose items have not been
    /// read.
    UnloadedModule,
}

/// What happens to an item of the expanded crate.
///
/// `original` is the kind of the item with the same place in the crate as
/// the user wrote it, if there is one among the current items.
/// `attributed` says whether one of those items, with its attributes, spans
/// the call of the macro that the item stems from.
pub open spec fn spec_reversion(
    origin: ItemOrigin,
    kind: ItemKind,
    original: Option<ItemKind>,
    attributed: bool,
) -> Result<Reversion, ReversionError> {
    match origin {
        ItemOrigin::Root => if kind == ItemKind::Use || kind == ItemKind::MacroDef {
            Ok(Reversion::Keep)
        } else {
            match original {
                None => Ok(Reversion::Keep),
                Some(original) => match restored_descent(original) {
                    Some(descent) => Ok(
                        Reversion::Restore {
                            body: kind == ItemKind::Struct || kind == ItemKind::Enum || kind
                                == ItemKind::Union,
                            descent,
                        },
                    ),
                    None => Err(ReversionError::UnloadedModule),
                },
            }
        },
        ItemOrigin::Macro { kind: macro_kind, is_local } => if is_local || macro_kind
            == MacroKind::Bang {
            Ok(Reversion::Keep)
        } else if attributed {
            Ok(Reversion::Remove)
        } else {
            Ok(Reversion::Keep)
        },
        ItemOrigin::AstPass(AstPass::TestHarness) => Ok(Reversion::Remove),
        ItemOrigin::AstPass(_) => Ok(Reversion::Keep),
        ItemOrigin::Desugaring => Ok(Reversion::Keep),
        ItemOrigin::Inlined => Ok(Reversion::Keep),
    }
}

/// How far the walk goes on below an item that was put back, by the kind
/// of the item as the user wrote it. An unloaded module cannot be walked.
pub open spec fn restored_descent(original: ItemKind) -> Option<Descent> {
    match original {
        ItemKind::UnloadedMod => None,
        ItemKind::LoadedMod => Some(Descent::IntoModule),
        ItemKind::ForeignMod => Some(Descent::Stop),
        ItemKind::Trait => Some(Descent::Stop),
        ItemKind::Impl => Some(Descent::Stop),
        ItemKind::Static => Some(Descent::Stop),
        ItemKind::Const => Some(Descent::Stop),
        ItemKind::Fn => Some(Descent::Stop),
        _ => Some(Descent::Within),
    }
}

/// Decides what happens to an item of the expanded crate when the
/// expansions of macros of other crates are reverted.
pub fn reversion(origin: ItemOrigin, kind: ItemKind, original: Option<ItemKind>, attributed: bool) -> (result:
    Result<Reversion, ReversionError>)
    ensures
        result == spec_reversion(origin, kind, original, attributed),
{
    match origin {
        ItemOrigin::Root => {
            match kind {
                ItemKind::Use => {
                    return Ok(Reversion::Keep);
                },
                ItemKind::MacroDef => {
                    return Ok(Reversion::Keep);
                },
                _ => {},
            }
            let original = match original {
                Some(original) => original,
                None => {
                    return Ok(Reversion::Keep);
                },
            };
            let body = match kind {
                ItemKind::Struct => true,
                ItemKind::Enum => true,
                ItemKind::Union => true,
                _ => false,
            };
            match original {
                ItemKind::UnloadedMod => Err(ReversionError::UnloadedModule),
                ItemKind::LoadedMod => Ok(Reversion::Restore { body, descent: Descent::IntoModule }),
                ItemKind::ForeignMod => Ok(Reversion::Restore { body, descent: Descent::Stop }),
                ItemKind::Trait => Ok(Reversion::Restore { body, descent: Descent::Stop }),
                ItemKind::Impl => Ok(Reversion::Restore { body, descent: Descent::Stop }),
                ItemKind::Static => Ok(Reversion::Restore { body, descent: Descent::Stop }),
                ItemKind::Const => Ok(Reversion::Restore { body, descent: Descent::Stop }),
                ItemKind::Fn => Ok(Reversion::Restore { body, descent: Descent::Stop }),
                _ => Ok(Reversion::Restore { body, descent: Descent::Within }),
            }
        },
        ItemOrigin::Macro { kind: macro_kind, is_local } => {
            if is_local {
                return Ok(Reversion::Keep);
            }
            match macro_kind {
                MacroKind::Bang => Ok(Reversion::Keep),
                _ => if attributed {
                    Ok(Reversion::Remove)
                } else {
                    Ok(Reversion::Keep)
                },
            }
        },
        ItemOrigin::AstPass(AstPass::TestHarness) => Ok(Reversion::Remove),
        ItemOrigin::AstPass(_) => Ok(Reversion::Keep),
        ItemOrigin::Desugaring => Ok(Reversion::Keep),
        ItemOrigin::Inlined => Ok(Reversion::Keep),
    }
}

} // verus!
