//! What can be wrong with an installed mod.

use crate::db::local::LocalDatabase;
use crate::db::model::{check_errors, missing_dep, names_in, present_conflict};
use crate::mods::local::LocalMod;
use vstd::prelude::*;

verus! {

/// One thing that is wrong with an installed mod.
#[derive(Clone, Debug, PartialEq, Eq)]
pub enum ModValidationError {
    /// The manifest could not be read; the text says why.
    InvalidManifest(String),
    /// Another folder, found earlier, holds a mod of the same unique name;
    /// the text is that folder's path.
    DuplicateMod(String),
    /// The remote database offers a newer version; the text is that version.
    Outdated(String),
    /// A mod that this one depends on is not installed; the text is its
    /// unique name.
    MissingDep(String),
    /// A mod that this one declares a conflict with is installed; the text is
    /// its unique name.
    ConflictingMod(String),
}

/// A `ModValidationError` as a mathematical value.
pub enum ModValidationErrorView {
    InvalidManifest(Seq<char>),
    DuplicateMod(Seq<char>),
    Outdated(Seq<char>),
    MissingDep(Seq<char>),
    ConflictingMod(Seq<char>),
}

impl View for ModValidationError {
    type V = ModValidationErrorView;

    open spec fn view(&self) -> ModValidationErrorView {
        match self {
            ModValidationError::InvalidManifest(s) => ModValidationErrorView::InvalidManifest(s@),
            ModValidationError::DuplicateMod(s) => ModValidationErrorView::DuplicateMod(s@),
            ModValidationError::Outdated(s) => ModValidationErrorView::Outdated(s@),
            ModValidationError::MissingDep(s) => ModValidationErrorView::MissingDep(s@),
            ModValidationError::ConflictingMod(s) => ModValidationErrorView::ConflictingMod(s@),
        }
    }
}

impl DeepView for ModValidationError {
    type V = ModValidationErrorView;

    open spec fn deep_view(&self) -> ModValidationErrorView {
        self@
    }
}

impl ModValidationError {
    /// Whether this says that a newer version is on offer.
    pub fn is_outdated(&self) -> (r: bool)
        ensures
            r == (self@ is Outdated),
    {
        match self {
            ModValidationError::Outdated(_) => true,
            _ => false,
        }
    }
}

/// Finds what is wrong with `local_mod` in the database `db`: each of its
/// dependencies that is not installed, each mod that it declares a conflict
/// with and that is installed.
pub fn check_mod(local_mod: &LocalMod, db: &LocalDatabase) -> (r: Vec<ModValidationError>)
    ensures
        r.deep_view() == check_errors(local_mod@, db@),
{
    let mut errors: Vec<ModValidationError> = Vec::new();
    let ghost deps = names_in(local_mod@.manifest.dependencies);
    let ghost conflicts = names_in(local_mod@.manifest.conflicts);
    let ghost missing = |name: Seq<char>| missing_dep(db@, name);
    let ghost present = |name: Seq<char>| present_conflict(db@, name);
    assert(errors.deep_view() =~= deps.take(0).filter_map(missing));
    match &local_mod.manifest.dependencies {
        Some(names) => {
            assert(names.deep_view() == deps);
            let mut i: usize = 0;
            while i < names.len()
                invariant
                    i <= names@.len(),
                    names.deep_view() == deps,
                    missing == |name: Seq<char>| missing_dep(db@, name),
                    errors.deep_view() == deps.take(i as int).filter_map(missing),
                decreases names@.len() - i,
            {
                proof {
                    db.lemma_mod_of(names@[i as int]@);
                    deps.lemma_filter_map_take_succ(missing, i as int);
                    assert(deps[i as int] == names@[i as int]@);
                }
                let ghost before = errors.deep_view();
                if db.get_mod(names[i].as_str()).is_none() {
                    errors.push(ModValidationError::MissingDep(names[i].clone()));
                    assert(errors.deep_view() =~= before.push(
                        ModValidationErrorView::MissingDep(names@[i as int]@),
                    ));
                }
                i += 1;
            }
            assert(deps.take(names@.len() as int) =~= deps);
        },
        None => {},
    }
    let ghost first = errors.deep_view();
    assert(first == deps.filter_map(missing));
    assert(first + conflicts.take(0).filter_map(present) =~= first);
    match &local_mod.manifest.conflicts {
        Some(names) => {
            assert(names.deep_view() == conflicts);
            let mut i: usize = 0;
            while i < names.len()
                invariant
                    i <= names@.len(),
                    names.deep_view() == conflicts,
                    present == |name: Seq<char>| present_conflict(db@, name),
                    errors.deep_view() == first + conflicts.take(i as int).filter_map(present),
                decreases names@.len() - i,
            {
                proof {
                    db.lemma_mod_of(names@[i as int]@);
                    conflicts.lemma_filter_map_take_succ(present, i as int);
                    assert(conflicts[i as int] == names@[i as int]@);
                }
                let ghost before = errors.deep_view();
                if db.get_mod(names[i].as_str()).is_some() {
                    errors.push(ModValidationError::ConflictingMod(names[i].clone()));
                    assert(errors.deep_view() =~= before.push(
                        ModValidationErrorView::ConflictingMod(names@[i as int]@),
                    ));
                }
                i += 1;
            }
            assert(conflicts.take(names@.len() as int) =~= conflicts);
        },
        None => {},
    }
    errors
}

} // verus!
