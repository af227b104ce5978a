pub mod config_cmd;
pub mod copy;
pub mod delete;
pub mod destroy;
pub mod edit;
pub mod export;
pub mod import;
pub mod open;
pub mod purge;
pub mod show;
pub mod stats;
pub mod sync;
pub mod update;
