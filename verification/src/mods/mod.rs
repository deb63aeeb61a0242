//! The records of the mods: those on this machine and those on offer.

pub mod local;
pub mod manifest;
pub mod remote;
