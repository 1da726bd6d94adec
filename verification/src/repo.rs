pub mod repo_file;
pub mod traits;
