pub mod error;
pub mod fs_tools;
