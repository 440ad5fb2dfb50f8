pub mod duration_parser;
pub mod file_safety;
pub mod operation_recorder;
pub mod size_format;
pub mod size_parser;
pub mod walk;

pub use duration_parser::parse_duration;
pub use size_format::format_size;
pub use size_parser::parse_size;
