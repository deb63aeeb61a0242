//! The database of the mods on offer.

use crate::constants::OWML_UNIQUE_NAME;
use crate::mods::remote::{RemoteMod, RemoteModView};
use crate::table::{value_at, Table};
use vstd::prelude::*;

verus! {

/// The mods on offer, each under its unique name.
#[derive(Clone, Debug, PartialEq, Eq)]
pub struct RemoteDatabase {
    pub mods: Table<RemoteMod>,
}

impl View for RemoteDatabase {
    type V = Seq<(Seq<char>, RemoteModView)>;

    open spec fn view(&self) -> Seq<(Seq<char>, RemoteModView)> {
        self.mods.model()
    }
}

/// What the database offers for the mod loader.
pub open spec fn remote_owml(remote: Seq<(Seq<char>, RemoteModView)>) -> Option<RemoteModView> {
    value_at(remote, OWML_UNIQUE_NAME@)
}

impl Default for RemoteDatabase {
    fn default() -> (r: Self)
        ensures
            r@.len() == 0,
    {
        RemoteDatabase { mods: Table::new() }
    }
}

impl RemoteDatabase {
    /// What the database offers under `unique_name`.
    pub fn get_mod(&self, unique_name: &str) -> (r: Option<&RemoteMod>)
        ensures
            match r {
                Some(m) => self.mods.value_of(unique_name@) == Some(*m) && value_at(
                    self@,
                    unique_name@,
                ) == Some(m@),
                None => self.mods.value_of(unique_name@) is None && value_at(self@, unique_name@)
                    is None,
            },
    {
        proof {
            self.mods.lemma_model(unique_name@);
        }
        self.mods.get(unique_name)
    }

    /// What the database offers for the mod loader.
    pub fn get_owml(&self) -> (r: Option<&RemoteMod>)
        ensures
            match r {
                Some(m) => self.mods.value_of(OWML_UNIQUE_NAME@) == Some(*m) && remote_owml(self@)
                    == Some(m@),
                None => self.mods.value_of(OWML_UNIQUE_NAME@) is None && remote_owml(self@)
                    is None,
            },
    {
        self.get_mod(OWML_UNIQUE_NAME)
    }
}

} // verus!
