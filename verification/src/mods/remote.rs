//! A mod as the remote database offers it.

use vstd::prelude::*;

verus! {

/// A mod on offer in the remote database.
#[derive(Clone, Debug, PartialEq, Eq)]
pub struct RemoteMod {
    pub unique_name: String,
    pub name: String,
    pub version: String,
}

/// A `RemoteMod` as a mathematical value.
pub struct RemoteModView {
    pub unique_name: Seq<char>,
    pub name: Seq<char>,
    pub version: Seq<char>,
}

impl View for RemoteMod {
    type V = RemoteModView;

    open spec fn view(&self) -> RemoteModView {
        RemoteModView { unique_name: self.unique_name@, name: self.name@, version: self.version@ }
    }
}

impl DeepView for RemoteMod {
    type V = RemoteModView;

    open spec fn deep_view(&self) -> RemoteModView {
        self@
    }
}

} // verus!
