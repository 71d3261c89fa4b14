pub mod edits;
pub mod file_tools;
pub mod tree;
pub mod utils;
