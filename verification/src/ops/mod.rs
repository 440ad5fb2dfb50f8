pub mod safe_file_ops;

pub use safe_file_ops::{FileSnapshot, SafeFileOperation};
