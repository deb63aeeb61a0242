//! A mod as it lies on this machine.

use crate::validate::{ModValidationError, ModValidationErrorView};
use vstd::prelude::*;

verus! {

/// What a mod's manifest says of the mod.
#[derive(Clone, Debug, PartialEq, Eq)]
pub struct ModManifest {
    pub unique_name: String,
    pub name: String,
    pub version: String,
    pub dependencies: Option<Vec<String>>,
    pub conflicts: Option<Vec<String>>,
}

/// A `ModManifest` as a mathematical value.
pub struct ModManifestView {
    pub unique_name: Seq<char>,
    pub name: Seq<char>,
    pub version: Seq<char>,
    pub dependencies: Option<Seq<Seq<char>>>,
    pub conflicts: Option<Seq<Seq<char>>>,
}

impl View for ModManifest {
    type V = ModManifestView;

    open spec fn view(&self) -> ModManifestView {
        ModManifestView {
            unique_name: self.unique_name@,
            name: self.name@,
            version: self.version@,
            dependencies: self.dependencies.deep_view(),
            conflicts: self.conflicts.deep_view(),
        }
    }
}

impl DeepView for ModManifest {
    type V = ModManifestView;

    open spec fn deep_view(&self) -> ModManifestView {
        self@
    }
}

/// A mod that is installed and whose manifest could be read.
#[derive(Clone, Debug, PartialEq, Eq)]
pub struct LocalMod {
    pub enabled: bool,
    pub errors: Vec<ModValidationError>,
    pub mod_path: String,
    pub manifest: ModManifest,
}

/// A `LocalMod` as a mathematical value.
pub struct LocalModView {
    pub enabled: bool,
    pub errors: Seq<ModValidationErrorView>,
    pub mod_path: Seq<char>,
    pub manifest: ModManifestView,
}

impl View for LocalMod {
    type V = LocalModView;

    open spec fn view(&self) -> LocalModView {
        LocalModView {
            enabled: self.enabled,
            errors: self.errors.deep_view(),
            mod_path: self.mod_path@,
            manifest: self.manifest@,
        }
    }
}

impl DeepView for LocalMod {
    type V = LocalModView;

    open spec fn deep_view(&self) -> LocalModView {
        self@
    }
}

/// A folder that holds a manifest from which no mod could be made.
#[derive(Clone, Debug, PartialEq, Eq)]
pub struct FailedMod {
    pub error: ModValidationError,
    pub mod_path: String,
    pub display_path: String,
}

/// A `FailedMod` as a mathematical value.
pub struct FailedModView {
    pub error: ModValidationErrorView,
    pub mod_path: Seq<char>,
    pub display_path: Seq<char>,
}

impl View for FailedMod {
    type V = FailedModView;

    open spec fn view(&self) -> FailedModView {
        FailedModView {
            error: self.error@,
            mod_path: self.mod_path@,
            display_path: self.display_path@,
        }
    }
}

impl DeepView for FailedMod {
    type V = FailedModView;

    open spec fn deep_view(&self) -> FailedModView {
        self@
    }
}

/// What the database holds for one folder: a mod, or the reason why there is
/// none.
#[derive(Clone, Debug, PartialEq, Eq)]
pub enum UnsafeLocalMod {
    Valid(LocalMod),
    Invalid(FailedMod),
}

/// An `UnsafeLocalMod` as a mathematical value.
pub enum UnsafeLocalModView {
    Valid(LocalModView),
    Invalid(FailedModView),
}

impl View for UnsafeLocalMod {
    type V = UnsafeLocalModView;

    open spec fn view(&self) -> UnsafeLocalModView {
        match self {
            UnsafeLocalMod::Valid(m) => UnsafeLocalModView::Valid(m@),
            UnsafeLocalMod::Invalid(m) => UnsafeLocalModView::Invalid(m@),
        }
    }
}

impl DeepView for UnsafeLocalMod {
    type V = UnsafeLocalModView;

    open spec fn deep_view(&self) -> UnsafeLocalModView {
        self@
    }
}

} // verus!
