//! Names that the mod loader and its mods agree on.

use vstd::prelude::*;

verus! {

/// The unique name under which the mod loader itself is published.
pub const OWML_UNIQUE_NAME: &'static str = "Alek.OWML";

/// The folder of the mods, in the loader's folder.
pub const MODS_FOLDER_NAME: &'static str = "Mods";

} // verus!
