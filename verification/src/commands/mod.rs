pub mod config;
pub mod delete;
pub mod doctor;
pub mod extract;
pub mod grouping;
pub mod identity;
pub mod list;
pub mod log;
pub mod protect;
pub mod purge;
pub mod restore;
pub mod status;
