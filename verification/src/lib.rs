//! The local mod database of a mod manager: what is installed, what is wrong
//! with it, and what has a newer version in the remote database.

pub mod constants;
pub mod db;
pub mod json;
pub mod mods;
pub mod paths;
pub mod repair;
pub mod search;
pub mod table;
pub mod text;
pub mod updates;
pub mod validate;
pub mod versions;
