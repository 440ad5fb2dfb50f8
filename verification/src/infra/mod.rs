pub mod config_manager;
pub mod effects;
pub mod fzf_interface;
pub mod meta_store;
pub mod operation_logger;
pub mod trash_store;

pub use config_manager::ConfigManager;
pub use fzf_interface::{create_selector, DialoguerSelector, FzfSelector};
pub use meta_store::MetaStore;
pub use trash_store::TrashStore;
