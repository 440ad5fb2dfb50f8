pub mod config;
pub mod file_meta;
pub mod operation_log;
pub mod timestamp;
pub mod trash_item;

pub use config::Config;
pub use file_meta::FileMeta;
pub use operation_log::OperationLog;
pub use timestamp::Timestamp;
pub use trash_item::TrashItem;
