//! The databases: the mods on this machine, the mods on offer, and the form
//! in which both give a version.

pub mod laws;
pub mod load;
pub mod local;
pub mod model;
pub mod remote;
pub mod version;

pub use local::LocalDatabase;
pub use remote::RemoteDatabase;
pub use version::fix_version;
